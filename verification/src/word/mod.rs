pub mod conversions;
pub mod display;
pub mod heap;
pub mod opcode;
pub mod operations;
pub mod structure;
pub mod table;
