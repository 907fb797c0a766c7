use vstd::prelude::*;
use vstd::string::StringExecFns;
use crate::field::FieldElement;

verus! {

/// Error for a numeric width that matches no supported bit size.
#[derive(Debug, Clone, Copy, PartialEq, Eq, Structural)]
pub enum BitSizeError {
    /// The number is none of the supported integer widths, nor the native
    /// field's width where one was consulted.
    InvalidBitSize,
}

/// The closed set of supported integer widths, ordered by bit count.
#[derive(Debug, Clone, Copy, PartialEq, Eq, PartialOrd, Ord, Hash, Structural)]
pub enum IntegerBitSize {
    U1,
    U8,
    U16,
    U32,
    U64,
    U128,
}

impl IntegerBitSize {
    /// The number of bits of this width.
    pub open spec fn spec_as_u32(self) -> u32 {
        match self {
            IntegerBitSize::U1 => 1,
            IntegerBitSize::U8 => 8,
            IntegerBitSize::U16 => 16,
            IntegerBitSize::U32 => 32,
            IntegerBitSize::U64 => 64,
            IntegerBitSize::U128 => 128,
        }
    }

    /// The width, if any, whose bit count is exactly `value`.
    pub open spec fn spec_from_u32(value: u32) -> Result<IntegerBitSize, BitSizeError> {
        if value == 1 {
            Ok(IntegerBitSize::U1)
        } else if value == 8 {
            Ok(IntegerBitSize::U8)
        } else if value == 16 {
            Ok(IntegerBitSize::U16)
        } else if value == 32 {
            Ok(IntegerBitSize::U32)
        } else if value == 64 {
            Ok(IntegerBitSize::U64)
        } else if value == 128 {
            Ok(IntegerBitSize::U128)
        } else {
            Err(BitSizeError::InvalidBitSize)
        }
    }

    #[verifier::when_used_as_spec(spec_as_u32)]
    pub fn as_u32(self) -> (r: u32)
        ensures
            r == self.spec_as_u32(),
    {
        match self {
            IntegerBitSize::U1 => 1,
            IntegerBitSize::U8 => 8,
            IntegerBitSize::U16 => 16,
            IntegerBitSize::U32 => 32,
            IntegerBitSize::U64 => 64,
            IntegerBitSize::U128 => 128,
        }
    }

    #[verifier::when_used_as_spec(spec_from_u32)]
    pub fn from_u32(value: u32) -> (r: Result<Self, BitSizeError>)
        ensures
            r == Self::spec_from_u32(value),
    {
        match value {
            1 => Ok(IntegerBitSize::U1),
            8 => Ok(IntegerBitSize::U8),
            16 => Ok(IntegerBitSize::U16),
            32 => Ok(IntegerBitSize::U32),
            64 => Ok(IntegerBitSize::U64),
            128 => Ok(IntegerBitSize::U128),
            _ => Err(BitSizeError::InvalidBitSize),
        }
    }

    /// The human-readable name of the width: a hint for rendering only, not
    /// part of any encoding.
    pub fn name(&self) -> (r: String)
        ensures
            r@ == match *self {
                IntegerBitSize::U1 => "bool"@,
                IntegerBitSize::U8 => "u8"@,
                IntegerBitSize::U16 => "u16"@,
                IntegerBitSize::U32 => "u32"@,
                IntegerBitSize::U64 => "u64"@,
                IntegerBitSize::U128 => "u128"@,
            },
    {
        match self {
            IntegerBitSize::U1 => String::from_str("bool"),
            IntegerBitSize::U8 => String::from_str("u8"),
            IntegerBitSize::U16 => String::from_str("u16"),
            IntegerBitSize::U32 => String::from_str("u32"),
            IntegerBitSize::U64 => String::from_str("u64"),
            IntegerBitSize::U128 => String::from_str("u128"),
        }
    }
}

/// A declared width: either the native field's width or one of the supported
/// integer widths.
#[derive(Debug, Clone, Copy, PartialEq, Eq, PartialOrd, Ord, Hash, Structural)]
pub enum BitSize {
    Field,
    Integer(IntegerBitSize),
}

impl BitSize {
    /// The numeric width, consulting the native field type for `Field`.
    pub open spec fn spec_to_u32<F: FieldElement>(self) -> u32 {
        match self {
            BitSize::Field => F::spec_max_num_bits(),
            BitSize::Integer(bit_size) => bit_size.spec_as_u32(),
        }
    }

    /// The width denoted by a number: the native field's width on an exact
    /// match, else the integer width of that bit count.
    pub open spec fn spec_try_from_u32<F: FieldElement>(value: u32) -> Result<BitSize, BitSizeError> {
        if value == F::spec_max_num_bits() {
            Ok(BitSize::Field)
        } else {
            match IntegerBitSize::spec_from_u32(value) {
                Ok(bit_size) => Ok(BitSize::Integer(bit_size)),
                Err(e) => Err(e),
            }
        }
    }

    pub fn to_u32<F: FieldElement>(self) -> (r: u32)
        ensures
            r == self.spec_to_u32::<F>(),
    {
        match self {
            BitSize::Field => F::max_num_bits(),
            BitSize::Integer(bit_size) => bit_size.as_u32(),
        }
    }

    pub fn try_from_u32<F: FieldElement>(value: u32) -> (r: Result<Self, BitSizeError>)
        ensures
            r == Self::spec_try_from_u32::<F>(value),
    {
        if value == F::max_num_bits() {
            Ok(BitSize::Field)
        } else {
            match IntegerBitSize::from_u32(value) {
                Ok(bit_size) => Ok(BitSize::Integer(bit_size)),
                Err(e) => Err(e),
            }
        }
    }
}

/// Converting a supported integer width to its bit count and back yields the
/// same width.
pub proof fn lemma_integer_width_round_trip(w: IntegerBitSize)
    ensures
        IntegerBitSize::spec_from_u32(w.spec_as_u32()) == Ok::<IntegerBitSize, BitSizeError>(w),
{
}

/// A number that is none of the supported integer widths and not the native
/// field's width converts to no bit size: both conversions fail.
pub proof fn lemma_unsupported_width_fails<F: FieldElement>(value: u32)
    requires
        value != 1 && value != 8 && value != 16 && value != 32 && value != 64 && value != 128,
        value != F::spec_max_num_bits(),
    ensures
        IntegerBitSize::spec_from_u32(value) == Err::<IntegerBitSize, BitSizeError>(
            BitSizeError::InvalidBitSize,
        ),
        BitSize::spec_try_from_u32::<F>(value) == Err::<BitSize, BitSizeError>(
            BitSizeError::InvalidBitSize,
        ),
{
}

/// Converting any bit size to its numeric width and back yields the same bit
/// size, for any native field whose width is not itself one of the supported
/// integer widths (were it one, the number could not tell the two apart and
/// conversion prefers `Field`).
pub proof fn lemma_bit_size_round_trip<F: FieldElement>(b: BitSize)
    requires
        b matches BitSize::Integer(w) ==> w.spec_as_u32() != F::spec_max_num_bits(),
    ensures
        BitSize::spec_try_from_u32::<F>(b.spec_to_u32::<F>()) == Ok::<BitSize, BitSizeError>(b),
{
}

} // verus!
