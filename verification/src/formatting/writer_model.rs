//! The writer as a mathematical state machine.
//!
//! [`WriterView`] is what a writer means: its configuration, its bookkeeping
//! and the items written so far, in order. Each operation of the writer is a
//! function from one view to the next, defined here, and the executable writer
//! is proved to follow these functions.

use vstd::prelude::*;
use crate::formatting::print_items::WriterInfo;
use crate::formatting::write_items::{StringContainer, WriteItem};

verus! {

/// The bookkeeping of the writer: where the cursor stands and what is pending.
pub struct Cursor {
    /// Characters counted on the current line; 0 until the line gets content.
    pub line_column: nat,
    pub line_number: nat,
    /// The indentation level that the current line started with.
    pub line_start_indent_level: nat,
    pub indent_level: nat,
    /// A line break was asked for and will be written before the next content.
    pub expect_newline_next: bool,
    /// Indentation levels that take effect once the next item is written.
    pub indent_queue_count: nat,
    /// The last item written is a space that a following line break retracts.
    pub last_was_not_trailing_space: bool,
    /// How many scopes that suppress indentation are open.
    pub ignore_indent_count: nat,
}

impl Cursor {
    /// The cursor of a writer that has done nothing yet.
    pub open spec fn start() -> Cursor {
        Cursor {
            line_column: 0,
            line_number: 0,
            line_start_indent_level: 0,
            indent_level: 0,
            expect_newline_next: false,
            indent_queue_count: 0,
            last_was_not_trailing_space: false,
            ignore_indent_count: 0,
        }
    }

    /// Every counter fits the machine integer that stores it.
    pub open spec fn fits(self) -> bool {
        &&& self.line_column <= u32::MAX
        &&& self.line_number <= u32::MAX
        &&& self.line_start_indent_level <= u8::MAX
        &&& self.indent_level <= u8::MAX
        &&& self.indent_queue_count <= u8::MAX
        &&& self.ignore_indent_count <= u8::MAX
    }

    /// The column at which the next content starts. On a line without content
    /// this is where the indentation will end once it is written.
    pub open spec fn column_number(self, indent_width: nat) -> nat {
        if self.line_column == 0 {
            indent_width * self.indent_level
        } else {
            self.line_column
        }
    }

    /// The column at which the content of the current line starts.
    pub open spec fn line_start_column_number(self, indent_width: nat) -> nat {
        self.line_start_indent_level * indent_width
    }

    /// Nothing has been written on the line that the next content goes to.
    pub open spec fn is_start_of_line(self, indent_width: nat) -> bool {
        self.expect_newline_next || self.column_number(indent_width)
            == self.line_start_column_number(indent_width)
    }

    /// The report that a writer with this cursor gives.
    pub open spec fn info(self, indent_width: u8) -> WriterInfo {
        WriterInfo {
            line_number: self.line_number as u32,
            column_number: self.column_number(indent_width as nat) as u32,
            indent_level: self.indent_level as u8,
            line_start_indent_level: self.line_start_indent_level as u8,
            indent_width,
            expect_newline_next: self.expect_newline_next,
        }
    }

    /// Changes the indentation level. A line without content takes the new
    /// level as the level it starts with.
    pub open spec fn with_indent_level(self, level: nat) -> Cursor {
        Cursor {
            indent_level: level,
            line_start_indent_level: if self.line_column == 0 {
                level
            } else {
                self.line_start_indent_level
            },
            ..self
        }
    }

    /// Lets the queued indentation take effect.
    pub open spec fn flush_indent_queue(self) -> Cursor {
        Cursor {
            indent_level: self.indent_level + self.indent_queue_count,
            indent_queue_count: 0,
            ..self
        }
    }

    /// The indentation level once the queue has taken effect fits a byte.
    pub open spec fn can_flush_indent_queue(self) -> bool {
        self.indent_level + self.indent_queue_count <= u8::MAX
    }
}

/// What a writer means: its indentation width, its bookkeeping and the items
/// written so far, first to last.
pub struct WriterView<'a> {
    pub indent_width: nat,
    pub cursor: Cursor,
    pub items: Seq<WriteItem<'a>>,
}

impl<'a> WriterView<'a> {
    /// A writer that has done nothing yet.
    pub open spec fn initial(indent_width: nat) -> Self {
        WriterView { indent_width, cursor: Cursor::start(), items: Seq::empty() }
    }

    /// The counters fit their machine integers, and a space is marked as
    /// retractable only while it is the last item written.
    pub open spec fn wf(self) -> bool {
        &&& self.indent_width <= u8::MAX
        &&& self.cursor.fits()
        &&& self.cursor.last_was_not_trailing_space ==> self.items.len() > 0
            && self.items.last() is Space
    }

    /// The report that the writer gives of its position.
    pub open spec fn info(self) -> WriterInfo {
        self.cursor.info(self.indent_width as u8)
    }

    pub open spec fn column_number(self) -> nat {
        self.cursor.column_number(self.indent_width)
    }

    pub open spec fn line_start_column_number(self) -> nat {
        self.cursor.line_start_column_number(self.indent_width)
    }

    pub open spec fn is_start_of_line(self) -> bool {
        self.cursor.is_start_of_line(self.indent_width)
    }

    pub open spec fn with_cursor(self, cursor: Cursor) -> Self {
        WriterView { cursor, ..self }
    }

    // ----- operations that write nothing -----

    pub open spec fn can_start_indent(self) -> bool {
        self.cursor.indent_level < u8::MAX
    }

    /// One more level of indentation, from now on.
    pub open spec fn start_indent(self) -> Self {
        self.with_cursor(self.cursor.with_indent_level(self.cursor.indent_level + 1))
    }

    /// There is a queued or an active level to give up.
    pub open spec fn can_finish_indent(self) -> bool {
        self.cursor.indent_queue_count > 0 || self.cursor.indent_level > 0
    }

    /// One level of indentation less. A queued level is given up before an
    /// active one, so a queued level that was never used takes no effect.
    pub open spec fn finish_indent(self) -> Self {
        if self.cursor.indent_queue_count > 0 {
            self.with_cursor(
                Cursor {
                    indent_queue_count: (self.cursor.indent_queue_count - 1) as nat,
                    ..self.cursor
                },
            )
        } else {
            self.with_cursor(
                self.cursor.with_indent_level((self.cursor.indent_level - 1) as nat),
            )
        }
    }

    pub open spec fn can_queue_indent(self) -> bool {
        self.cursor.indent_queue_count < u8::MAX
    }

    /// One more level of indentation, starting after the next item written.
    pub open spec fn queue_indent(self) -> Self {
        self.with_cursor(
            Cursor { indent_queue_count: self.cursor.indent_queue_count + 1, ..self.cursor },
        )
    }

    pub open spec fn can_start_ignoring_indent(self) -> bool {
        self.cursor.ignore_indent_count < u8::MAX
    }

    /// Opens a scope in which lines get no indentation.
    pub open spec fn start_ignoring_indent(self) -> Self {
        self.with_cursor(
            Cursor { ignore_indent_count: self.cursor.ignore_indent_count + 1, ..self.cursor },
        )
    }

    pub open spec fn can_finish_ignoring_indent(self) -> bool {
        self.cursor.ignore_indent_count > 0
    }

    /// Closes the innermost scope in which lines get no indentation.
    pub open spec fn finish_ignoring_indent(self) -> Self {
        self.with_cursor(
            Cursor {
                ignore_indent_count: (self.cursor.ignore_indent_count - 1) as nat,
                ..self.cursor
            },
        )
    }

    /// Asks for a line break before the next content.
    pub open spec fn mark_expect_new_line(self) -> Self {
        self.with_cursor(Cursor { expect_newline_next: true, ..self.cursor })
    }

    // ----- operations that write -----

    /// Appends `item`. Queued indentation takes effect after any item.
    pub open spec fn push(self, item: WriteItem<'a>) -> Self {
        WriterView {
            cursor: self.cursor.flush_indent_queue(),
            items: self.items.push(item),
            ..self
        }
    }

    /// The items without the retractable space, if the last item is one.
    pub open spec fn items_without_trailing_space(self) -> Seq<WriteItem<'a>> {
        if self.cursor.last_was_not_trailing_space {
            self.items.drop_last()
        } else {
            self.items
        }
    }

    pub open spec fn can_new_line(self) -> bool {
        self.cursor.line_number < u32::MAX && self.cursor.can_flush_indent_queue()
    }

    /// Ends the line: retracts a retractable space, moves the cursor to the
    /// start of the next line and writes the line break.
    pub open spec fn new_line(self) -> Self {
        WriterView {
            cursor: Cursor {
                line_column: 0,
                line_number: self.cursor.line_number + 1,
                line_start_indent_level: self.cursor.indent_level,
                expect_newline_next: false,
                last_was_not_trailing_space: false,
                ..self.cursor
            },
            items: self.items_without_trailing_space(),
            ..self
        }.push(WriteItem::NewLine)
    }

    /// The line break that is pending, if any, has been written.
    pub open spec fn after_pending_new_line(self) -> Self {
        if self.cursor.expect_newline_next {
            self.new_line()
        } else {
            self
        }
    }

    /// The next content is the first of its line and the line is to be
    /// indented.
    pub open spec fn needs_indent(self) -> bool {
        &&& self.cursor.line_column == 0
        &&& self.cursor.indent_level > 0
        &&& self.cursor.ignore_indent_count == 0
    }

    pub open spec fn can_begin_content(self) -> bool {
        &&& self.cursor.can_flush_indent_queue()
        &&& self.cursor.expect_newline_next ==> self.cursor.line_number < u32::MAX
    }

    /// What every content-writing operation does first: it writes the pending
    /// line break, settles a retractable space as a lasting one, and writes
    /// the indentation of the line if this is the first content on it.
    pub open spec fn begin_content(self) -> Self {
        let broken = self.after_pending_new_line();
        let settled = broken.with_cursor(
            Cursor { last_was_not_trailing_space: false, ..broken.cursor },
        );
        if settled.needs_indent() {
            settled.with_cursor(
                Cursor {
                    line_start_indent_level: settled.cursor.indent_level,
                    line_column: settled.cursor.indent_level * settled.indent_width,
                    ..settled.cursor
                },
            ).push(WriteItem::Indent(settled.cursor.indent_level as u8))
        } else {
            settled
        }
    }

    /// Content of the given width can be written without a counter leaving
    /// its machine integer.
    pub open spec fn can_write_width(self, width: nat) -> bool {
        &&& self.can_begin_content()
        &&& self.begin_content().cursor.line_column + width <= u32::MAX
    }

    /// Writes `item`, which takes `width` columns.
    pub open spec fn write_item(self, item: WriteItem<'a>, width: nat) -> Self {
        let begun = self.begin_content();
        begun.with_cursor(
            Cursor { line_column: begun.cursor.line_column + width, ..begun.cursor },
        ).push(item)
    }

    pub open spec fn can_write(self, text: &StringContainer) -> bool {
        self.can_write_width(text.char_count() as nat)
    }

    /// Writes `text`, which takes as many columns as it has characters.
    pub open spec fn write(self, text: &'a StringContainer) -> Self {
        self.write_item(WriteItem::String(text), text.char_count() as nat)
    }

    pub open spec fn can_tab(self) -> bool {
        self.can_write_width(self.indent_width)
    }

    /// Writes a tab, which takes one indentation width.
    pub open spec fn tab(self) -> Self {
        self.write_item(WriteItem::Tab, self.indent_width)
    }

    pub open spec fn can_single_indent(self) -> bool {
        self.can_write_width(self.indent_width)
    }

    /// Writes one level of indentation as content.
    pub open spec fn single_indent(self) -> Self {
        self.write_item(WriteItem::Indent(1), self.indent_width)
    }

    pub open spec fn can_space_if_not_trailing(self) -> bool {
        !self.cursor.expect_newline_next ==> self.can_write_width(1)
    }

    /// Writes a space unless a line break is pending, and marks the space as
    /// retractable.
    pub open spec fn space_if_not_trailing(self) -> Self {
        if self.cursor.expect_newline_next {
            self
        } else {
            let spaced = self.write_item(WriteItem::Space, 1);
            spaced.with_cursor(Cursor { last_was_not_trailing_space: true, ..spaced.cursor })
        }
    }
}

} // verus!
