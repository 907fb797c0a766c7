use vstd::prelude::*;

verus! {

/// Error returned when an address accessor is applied to an address with the
/// other tag.
#[derive(Debug, Clone, Copy, PartialEq, Eq, Structural)]
pub enum AddressError {
    /// A direct address was required, but the address is relative.
    ExpectedDirect,
    /// A relative address was required, but the address is direct.
    ExpectedRelative,
}

/// An address in the VM's memory. Supports both direct and relative
/// addressing; the tag is fixed at construction.
#[derive(Debug, Clone, Copy, PartialEq, Eq, PartialOrd, Ord, Hash, Structural)]
pub enum MemoryAddress {
    /// An exact index into the VM's flat memory.
    Direct(usize),
    /// An index resolved at execution time as the current stack pointer plus
    /// this offset.
    Relative(usize),
}

impl MemoryAddress {
    /// The numeric payload, whatever the tag.
    pub open spec fn spec_to_usize(self) -> usize {
        match self {
            MemoryAddress::Direct(address) => address,
            MemoryAddress::Relative(offset) => offset,
        }
    }

    pub fn direct(address: usize) -> (r: Self)
        ensures
            r == MemoryAddress::Direct(address),
    {
        MemoryAddress::Direct(address)
    }

    pub fn relative(offset: usize) -> (r: Self)
        ensures
            r == MemoryAddress::Relative(offset),
    {
        MemoryAddress::Relative(offset)
    }

    /// The index of a direct address; the tag-mismatch error on a relative one.
    pub fn unwrap_direct(self) -> (r: Result<usize, AddressError>)
        ensures
            r == match self {
                MemoryAddress::Direct(address) => Ok::<usize, AddressError>(address),
                MemoryAddress::Relative(_) => Err::<usize, AddressError>(
                    AddressError::ExpectedDirect,
                ),
            },
    {
        match self {
            MemoryAddress::Direct(address) => Ok(address),
            MemoryAddress::Relative(_) => Err(AddressError::ExpectedDirect),
        }
    }

    /// The offset of a relative address; the tag-mismatch error on a direct one.
    pub fn unwrap_relative(self) -> (r: Result<usize, AddressError>)
        ensures
            r == match self {
                MemoryAddress::Direct(_) => Err::<usize, AddressError>(
                    AddressError::ExpectedRelative,
                ),
                MemoryAddress::Relative(offset) => Ok::<usize, AddressError>(offset),
            },
    {
        match self {
            MemoryAddress::Direct(_) => Err(AddressError::ExpectedRelative),
            MemoryAddress::Relative(offset) => Ok(offset),
        }
    }

    /// The raw numeric payload regardless of tag; resolution of relative
    /// addresses against the stack pointer is the interpreter's concern.
    #[verifier::when_used_as_spec(spec_to_usize)]
    pub fn to_usize(self) -> (r: usize)
        ensures
            r == self.spec_to_usize(),
    {
        match self {
            MemoryAddress::Direct(address) => address,
            MemoryAddress::Relative(offset) => offset,
        }
    }

    pub fn is_relative(&self) -> (r: bool)
        ensures
            r == (*self is Relative),
    {
        match self {
            MemoryAddress::Relative(_) => true,
            MemoryAddress::Direct(_) => false,
        }
    }

    /// Adds `amount` to the numeric payload; the tag is preserved.
    pub fn offset(&self, amount: usize) -> (r: Self)
        requires
            self.to_usize() + amount <= usize::MAX,
        ensures
            r == match *self {
                MemoryAddress::Direct(address) => MemoryAddress::Direct(
                    (address + amount) as usize,
                ),
                MemoryAddress::Relative(offset) => MemoryAddress::Relative(
                    (offset + amount) as usize,
                ),
            },
    {
        match self {
            MemoryAddress::Direct(address) => MemoryAddress::Direct(address + amount),
            MemoryAddress::Relative(offset) => MemoryAddress::Relative(offset + amount),
        }
    }
}

} // verus!
