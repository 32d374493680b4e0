//! Classification of 32-bit virtual addresses of the Nintendo 64 memory map,
//! and annotation of instruction-trace lines with the result.

pub mod location;
pub mod memory_map;
pub mod request;
pub mod table;
pub mod text;
pub mod trace;
