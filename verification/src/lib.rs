//! Lowest layer of a freestanding boot-time program: bulk memory operations
//! over a flat byte range, and the rules by which the program reads what the
//! boot firmware hands it (the write-once system table handle, the memory map,
//! the console's chunked 16-bit output and the configuration table).
//!
//! Addresses are plain integers and firmware memory is passed in as byte
//! slices and plain values, so every function here is total on its stated
//! inputs and is proved against a mathematical description of its result.

pub mod acpi;
pub mod core_requirements;
pub mod console;
pub mod efi;
pub mod memory_map;
pub mod print;
