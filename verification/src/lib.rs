//! Core data model of the Brillig instruction set: memory addressing,
//! bit-width model, heap shape descriptors, operator catalogs, the opcode
//! catalog, and a deterministic byte codec for all of them.

pub mod address;
pub mod bit_size;
pub mod codec;
pub mod field;
pub mod heap;
pub mod opcode;

pub use address::AddressError;
pub use address::MemoryAddress;
pub use bit_size::BitSize;
pub use bit_size::BitSizeError;
pub use bit_size::IntegerBitSize;
pub use heap::HeapArray;
pub use heap::HeapValueType;
pub use heap::HeapValueTypeView;
pub use heap::HeapVector;
pub use heap::ValueOrArray;
pub use opcode::BinaryFieldOp;
pub use opcode::BinaryIntOp;
pub use opcode::BlackBoxOp;
pub use opcode::BrilligOpcode;
pub use opcode::BrilligOpcodeView;
pub use opcode::Label;
pub use field::Field254;
pub use field::FieldElement;
