//! What the writer reports about its position.

use vstd::prelude::*;

verus! {

/// Where the writer stands: the values a caller needs to decide whether the
/// content it is about to write still fits on the line.
#[derive(Clone, Copy, Debug, PartialEq, Eq, Structural)]
pub struct WriterInfo {
    pub line_number: u32,
    /// The column at which the next content will start.
    pub column_number: u32,
    pub indent_level: u8,
    pub line_start_indent_level: u8,
    pub indent_width: u8,
    pub expect_newline_next: bool,
}

} // verus!
