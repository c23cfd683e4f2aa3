//! A MIPS backend: register model, calling-convention legalization, encoding
//! selection, instruction-word emission and delay-slot filling.

pub mod abi;
pub mod abi_laws;
pub mod binemit;
pub mod cdsl;
pub mod enc_tables;
pub mod encoding;
pub mod ir;
pub mod isa;
pub mod meta;
pub mod predicates;
pub mod regalloc;
pub mod registers;
pub mod settings;
pub mod text;
pub mod triple;
pub mod types;
