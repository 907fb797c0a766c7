use vstd::prelude::*;
use crate::address::MemoryAddress;
use crate::bit_size::BitSize;
use crate::bit_size::IntegerBitSize;
use crate::heap::HeapValueType;
use crate::heap::HeapValueTypeView;
use crate::heap::HeapVector;
use crate::heap::ValueOrArray;
use crate::heap::shapes_of;

verus! {

/// A zero-based position in the instruction sequence, resolved by the
/// consumer.
pub type Label = usize;

/// The closed catalog of binary operations over the field domain. Comparisons
/// are over the field's canonical ordering of representatives.
#[derive(Debug, Clone, Copy, PartialEq, Eq, Hash, Structural)]
pub enum BinaryFieldOp {
    Add,
    Sub,
    Mul,
    /// Field division: multiplication by the inverse.
    Div,
    /// Truncating integer division over field-encoded integers.
    IntegerDiv,
    Equals,
    LessThan,
    LessThanEquals,
}

/// The closed catalog of binary operations over the fixed-width unsigned
/// integer domain, at the width the enclosing instruction carries.
#[derive(Debug, Clone, Copy, PartialEq, Eq, Hash, Structural)]
pub enum BinaryIntOp {
    Add,
    Sub,
    Mul,
    Div,
    Equals,
    LessThan,
    LessThanEquals,
    And,
    Or,
    Xor,
    Shl,
    Shr,
}

/// The identifier of a VM-native cryptographic operation. Its meaning and its
/// operand and result shapes are fixed by an external collaborator interface;
/// this core only carries the identifier through.
#[derive(Debug, Clone, Copy, PartialEq, Eq, Hash, Structural)]
pub struct BlackBoxOp {
    pub id: u32,
}

/// The closed instruction catalog, generic over the native field-element type
/// `F`, which only `Const` and `IndirectConst` carry. Each instruction's
/// fields are its complete operand list.
#[derive(Debug, Clone, PartialEq, Eq, Hash)]
pub enum BrilligOpcode<F> {
    /// destination := op(lhs, rhs) over the field domain.
    BinaryFieldOp {
        destination: MemoryAddress,
        op: BinaryFieldOp,
        lhs: MemoryAddress,
        rhs: MemoryAddress,
    },
    /// destination := op(lhs, rhs) over the `bit_size`-wide integer domain.
    BinaryIntOp {
        destination: MemoryAddress,
        op: BinaryIntOp,
        bit_size: IntegerBitSize,
        lhs: MemoryAddress,
        rhs: MemoryAddress,
    },
    /// destination := bitwise complement of source at `bit_size`.
    Not { destination: MemoryAddress, source: MemoryAddress, bit_size: IntegerBitSize },
    /// destination := source reinterpreted or truncated to `bit_size`.
    Cast { destination: MemoryAddress, source: MemoryAddress, bit_size: BitSize },
    /// PC := location if the value at `condition` is zero.
    JumpIfNot { condition: MemoryAddress, location: Label },
    /// PC := location if the value at `condition` is non-zero.
    JumpIf { condition: MemoryAddress, location: Label },
    /// PC := location, unconditionally.
    Jump { location: Label },
    /// Copies calldata cells, as counted at `size_address` and starting at
    /// the offset held at `offset_address`, into memory at
    /// `destination_address`.
    CalldataCopy {
        destination_address: MemoryAddress,
        size_address: MemoryAddress,
        offset_address: MemoryAddress,
    },
    /// Pushes the return location onto the call stack; PC := location.
    Call { location: Label },
    /// destination := value, a width-tagged constant load.
    Const { destination: MemoryAddress, bit_size: BitSize, value: F },
    /// Dereferences `destination_pointer` and stores the constant at the
    /// resulting address.
    IndirectConst { destination_pointer: MemoryAddress, bit_size: BitSize, value: F },
    /// Pops the call stack and returns there; fails if the stack is empty.
    Return,
    /// Marshals `inputs` per `input_value_types` out to the named external
    /// function and its results back into `destinations` per
    /// `destination_value_types`.
    ForeignCall {
        function: String,
        destinations: Vec<ValueOrArray>,
        destination_value_types: Vec<HeapValueType>,
        inputs: Vec<ValueOrArray>,
        input_value_types: Vec<HeapValueType>,
    },
    /// destination := source.
    Mov { destination: MemoryAddress, source: MemoryAddress },
    /// destination := if the value at `condition` is non-zero { source_a }
    /// else { source_b }.
    ConditionalMov {
        destination: MemoryAddress,
        source_a: MemoryAddress,
        source_b: MemoryAddress,
        condition: MemoryAddress,
    },
    /// Dereferences `source_pointer` and copies the value found there into
    /// `destination`.
    Load { destination: MemoryAddress, source_pointer: MemoryAddress },
    /// Dereferences `destination_pointer` and stores the value of `source`
    /// there.
    Store { destination_pointer: MemoryAddress, source: MemoryAddress },
    /// Delegates to a VM-native cryptographic operation.
    BlackBox(BlackBoxOp),
    /// Halts in a failure state, exposing the revert data.
    Trap { revert_data: HeapVector },
    /// Halts successfully, exposing the return data.
    Stop { return_data: HeapVector },
}

/// The mathematical shape of a `BrilligOpcode`: the same fields with
/// sequences for lists and for the foreign function's name.
#[verifier::ext_equal]
pub enum BrilligOpcodeView<F> {
    BinaryFieldOp {
        destination: MemoryAddress,
        op: BinaryFieldOp,
        lhs: MemoryAddress,
        rhs: MemoryAddress,
    },
    BinaryIntOp {
        destination: MemoryAddress,
        op: BinaryIntOp,
        bit_size: IntegerBitSize,
        lhs: MemoryAddress,
        rhs: MemoryAddress,
    },
    Not { destination: MemoryAddress, source: MemoryAddress, bit_size: IntegerBitSize },
    Cast { destination: MemoryAddress, source: MemoryAddress, bit_size: BitSize },
    JumpIfNot { condition: MemoryAddress, location: Label },
    JumpIf { condition: MemoryAddress, location: Label },
    Jump { location: Label },
    CalldataCopy {
        destination_address: MemoryAddress,
        size_address: MemoryAddress,
        offset_address: MemoryAddress,
    },
    Call { location: Label },
    Const { destination: MemoryAddress, bit_size: BitSize, value: F },
    IndirectConst { destination_pointer: MemoryAddress, bit_size: BitSize, value: F },
    Return,
    ForeignCall {
        function: Seq<char>,
        destinations: Seq<ValueOrArray>,
        destination_value_types: Seq<HeapValueTypeView>,
        inputs: Seq<ValueOrArray>,
        input_value_types: Seq<HeapValueTypeView>,
    },
    Mov { destination: MemoryAddress, source: MemoryAddress },
    ConditionalMov {
        destination: MemoryAddress,
        source_a: MemoryAddress,
        source_b: MemoryAddress,
        condition: MemoryAddress,
    },
    Load { destination: MemoryAddress, source_pointer: MemoryAddress },
    Store { destination_pointer: MemoryAddress, source: MemoryAddress },
    BlackBox(BlackBoxOp),
    Trap { revert_data: HeapVector },
    Stop { return_data: HeapVector },
}

impl<F> View for BrilligOpcode<F> {
    type V = BrilligOpcodeView<F>;

    open spec fn view(&self) -> BrilligOpcodeView<F> {
        match *self {
            BrilligOpcode::BinaryFieldOp { destination, op, lhs, rhs } => {
                BrilligOpcodeView::BinaryFieldOp { destination, op, lhs, rhs }
            },
            BrilligOpcode::BinaryIntOp { destination, op, bit_size, lhs, rhs } => {
                BrilligOpcodeView::BinaryIntOp { destination, op, bit_size, lhs, rhs }
            },
            BrilligOpcode::Not { destination, source, bit_size } => {
                BrilligOpcodeView::Not { destination, source, bit_size }
            },
            BrilligOpcode::Cast { destination, source, bit_size } => {
                BrilligOpcodeView::Cast { destination, source, bit_size }
            },
            BrilligOpcode::JumpIfNot { condition, location } => {
                BrilligOpcodeView::JumpIfNot { condition, location }
            },
            BrilligOpcode::JumpIf { condition, location } => {
                BrilligOpcodeView::JumpIf { condition, location }
            },
            BrilligOpcode::Jump { location } => BrilligOpcodeView::Jump { location },
            BrilligOpcode::CalldataCopy { destination_address, size_address, offset_address } => {
                BrilligOpcodeView::CalldataCopy {
                    destination_address,
                    size_address,
                    offset_address,
                }
            },
            BrilligOpcode::Call { location } => BrilligOpcodeView::Call { location },
            BrilligOpcode::Const { destination, bit_size, value } => {
                BrilligOpcodeView::Const { destination, bit_size, value }
            },
            BrilligOpcode::IndirectConst { destination_pointer, bit_size, value } => {
                BrilligOpcodeView::IndirectConst { destination_pointer, bit_size, value }
            },
            BrilligOpcode::Return => BrilligOpcodeView::Return,
            BrilligOpcode::ForeignCall {
                function,
                destinations,
                destination_value_types,
                inputs,
                input_value_types,
            } => {
                BrilligOpcodeView::ForeignCall {
                    function: function@,
                    destinations: destinations@,
                    destination_value_types: shapes_of(destination_value_types@),
                    inputs: inputs@,
                    input_value_types: shapes_of(input_value_types@),
                }
            },
            BrilligOpcode::Mov { destination, source } => {
                BrilligOpcodeView::Mov { destination, source }
            },
            BrilligOpcode::ConditionalMov { destination, source_a, source_b, condition } => {
                BrilligOpcodeView::ConditionalMov { destination, source_a, source_b, condition }
            },
            BrilligOpcode::Load { destination, source_pointer } => {
                BrilligOpcodeView::Load { destination, source_pointer }
            },
            BrilligOpcode::Store { destination_pointer, source } => {
                BrilligOpcodeView::Store { destination_pointer, source }
            },
            BrilligOpcode::BlackBox(op) => BrilligOpcodeView::BlackBox(op),
            BrilligOpcode::Trap { revert_data } => BrilligOpcodeView::Trap { revert_data },
            BrilligOpcode::Stop { return_data } => BrilligOpcodeView::Stop { return_data },
        }
    }
}

} // verus!
