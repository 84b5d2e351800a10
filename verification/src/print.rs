//! The writer behind formatted console output.

use crate::console::{chunk_views, console_chunks, output_string};
use crate::efi::EfiSystemTable;
use vstd::prelude::*;

verus! {

/// Writes text to the firmware's console.
pub struct ScreenWriter;

impl ScreenWriter {
    /// Prepares `string` for the console and returns the chunks to flush, in
    /// order; none where the console cannot be written to. Writing never
    /// fails.
    pub fn write_str(&mut self, st: Option<&EfiSystemTable>, string: &str) -> (flushes: Vec<
        Vec<u16>,
    >)
        ensures
            chunk_views(flushes@) == console_chunks(st, string@),
    {
        output_string(st, string)
    }
}

} // verus!
