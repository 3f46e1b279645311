//! The writer: the buffer that layout instructions are written to.
//!
//! A caller writes content, asks where the cursor stands, and may take a
//! snapshot of the writer at any time. Restoring the snapshot later puts the
//! writer back to where it was, whatever has been written in between. Taking
//! and restoring a snapshot copies a few counters and one position in the
//! output graph; the graph itself is shared.

use vstd::prelude::*;
use crate::formatting::collections::{
    items_up_to,
    lemma_items_survive_growth,
    links_point_backwards,
    position_within,
    GraphNode,
    NodeArena,
};
use crate::formatting::print_items::WriterInfo;
use crate::formatting::printer::{rendered, Indentation, WriteItemsPrinter};
use crate::formatting::write_items::{StringContainer, WriteItem};
use crate::formatting::writer_model::{Cursor, WriterView};

verus! {

/// A snapshot of a writer: its bookkeeping and its position in the output
/// graph.
#[derive(Clone, Copy)]
pub struct WriterState {
    current_line_column: u32,
    current_line_number: u32,
    last_line_indent_level: u8,
    indent_level: u8,
    expect_newline_next: bool,
    indent_queue_count: u8,
    last_was_not_trailing_space: bool,
    ignore_indent_count: u8,
    items: Option<usize>,
}

impl WriterState {
    /// The bookkeeping held by the snapshot.
    pub closed spec fn cursor(&self) -> Cursor {
        Cursor {
            line_column: self.current_line_column as nat,
            line_number: self.current_line_number as nat,
            line_start_indent_level: self.last_line_indent_level as nat,
            indent_level: self.indent_level as nat,
            expect_newline_next: self.expect_newline_next,
            indent_queue_count: self.indent_queue_count as nat,
            last_was_not_trailing_space: self.last_was_not_trailing_space,
            ignore_indent_count: self.ignore_indent_count as nat,
        }
    }

    /// The node written last when the snapshot was taken, if any.
    pub closed spec fn position(&self) -> Option<usize> {
        self.items
    }

    /// The report of a writer with this bookkeeping and the given
    /// indentation width.
    pub fn writer_info(&self, indent_width: u8) -> (info: WriterInfo)
        ensures
            info == self.cursor().info(indent_width),
    {
        WriterInfo {
            line_number: self.current_line_number,
            column_number: self.column_number(indent_width),
            indent_level: self.indent_level,
            line_start_indent_level: self.last_line_indent_level,
            indent_width,
            expect_newline_next: self.expect_newline_next,
        }
    }

    /// The column at which the next content starts.
    pub fn column_number(&self, indent_width: u8) -> (column: u32)
        ensures
            column == self.cursor().column_number(indent_width as nat),
    {
        if self.current_line_column == 0 {
            assert((indent_width as nat) * (self.indent_level as nat) <= 255 * 255)
                by (nonlinear_arith)
                requires
                    indent_width <= 255,
                    self.indent_level <= 255,
            ;
            (indent_width as u32) * (self.indent_level as u32)
        } else {
            self.current_line_column
        }
    }
}

/// How a writer is set up.
pub struct WriterOptions {
    /// The number of columns that one level of indentation takes.
    pub indent_width: u8,
}

/// The writer of one formatting pass.
pub struct Writer<'a> {
    arena: NodeArena<'a>,
    state: WriterState,
    indent_width: u8,
}

impl<'a> View for Writer<'a> {
    type V = WriterView<'a>;

    open spec fn view(&self) -> WriterView<'a> {
        self.view_of(self.snapshot())
    }
}

impl<'a> Writer<'a> {
    /// Every node allocated so far, in allocation order. Nodes of attempts
    /// that were rolled back stay in it.
    pub closed spec fn arena(&self) -> Seq<GraphNode<'a>> {
        self.arena@
    }

    /// The snapshot that `state` returns.
    pub closed spec fn snapshot(&self) -> WriterState {
        self.state
    }

    /// The number of columns that one level of indentation takes.
    pub closed spec fn spec_indent_width(&self) -> u8 {
        self.indent_width
    }

    /// What this writer means once it holds the snapshot `state`.
    pub open spec fn view_of(&self, state: WriterState) -> WriterView<'a> {
        WriterView {
            indent_width: self.spec_indent_width() as nat,
            cursor: state.cursor(),
            items: items_up_to(self.arena(), state.position()),
        }
    }

    /// `state` is a snapshot that this writer can hold: its position denotes
    /// a node of this writer, and if it marks a space as retractable, that
    /// node is a space.
    pub open spec fn accepts(&self, state: WriterState) -> bool {
        &&& position_within(self.arena(), state.position())
        &&& self.view_of(state).wf()
    }

    /// The invariant of the writer.
    pub open spec fn wf(&self) -> bool {
        &&& links_point_backwards(self.arena())
        &&& self.accepts(self.snapshot())
    }

    /// This writer is `earlier` after some operations: it has the same
    /// indentation width, and its graph is the graph of `earlier` with zero
    /// or more nodes allocated after it.
    pub open spec fn continues(&self, earlier: &Writer<'a>) -> bool {
        &&& self.spec_indent_width() == earlier.spec_indent_width()
        &&& earlier.arena().is_prefix_of(self.arena())
    }

    /// A writer that has written nothing.
    pub fn new(options: WriterOptions) -> (writer: Writer<'a>)
        ensures
            writer.wf(),
            writer@ == WriterView::initial(options.indent_width as nat),
            writer.arena().len() == 0,
    {
        Writer {
            arena: NodeArena::new(),
            indent_width: options.indent_width,
            state: WriterState {
                current_line_column: 0,
                current_line_number: 0,
                last_line_indent_level: 0,
                indent_level: 0,
                expect_newline_next: false,
                indent_queue_count: 0,
                last_was_not_trailing_space: false,
                ignore_indent_count: 0,
                items: None,
            },
        }
    }

    /// Where the writer stands.
    pub fn writer_info(&self) -> (info: WriterInfo)
        ensures
            info == self@.info(),
    {
        self.state.writer_info(self.indent_width)
    }

    /// A snapshot of the writer, to be restored with `set_state`.
    pub fn state(&self) -> (state: WriterState)
        ensures
            state == self.snapshot(),
    {
        self.state.clone()
    }

    /// Restores a snapshot. The writer then means what it meant when the
    /// snapshot was taken; nothing is removed from the graph.
    pub fn set_state(&mut self, state: WriterState)
        requires
            old(self).wf(),
            old(self).accepts(state),
        ensures
            final(self).wf(),
            final(self).snapshot() == state,
            final(self)@ == old(self).view_of(state),
            final(self).arena() == old(self).arena(),
            final(self).continues(old(self)),
    {
        self.state = state;
    }

    /// The graph is sound and the position of the writer lies in it.
    spec fn graph_wf(&self) -> bool {
        &&& links_point_backwards(self.arena@)
        &&& position_within(self.arena@, self.state.items)
    }

    /// "Is a later form of" is transitive.
    pub proof fn lemma_continues_transitive(&self, middle: &Writer<'a>, earlier: &Writer<'a>)
        requires
            self.continues(middle),
            middle.continues(earlier),
        ensures
            self.continues(earlier),
    {
    }

    /// A snapshot that a writer accepts is accepted by every later form of
    /// that writer, and means the same there.
    pub proof fn lemma_snapshot_outlives_writes(&self, earlier: &Writer<'a>, state: WriterState)
        requires
            self.continues(earlier),
            earlier.accepts(state),
        ensures
            self.accepts(state),
            self.view_of(state) == earlier.view_of(state),
    {
        lemma_items_survive_growth(earlier.arena(), self.arena(), state.position());
    }

    /// Restoring a snapshot undoes whatever was done since it was taken: if
    /// `self` is what `earlier` became after any operations, then `self`
    /// accepts the snapshot of `earlier`, and holding it `self` means exactly
    /// what `earlier` meant. What a writer reports and what its operations do
    /// depends on its view alone, so from then on it behaves as `earlier`.
    pub proof fn lemma_restore_returns_to_snapshot(&self, earlier: &Writer<'a>)
        requires
            earlier.wf(),
            self.continues(earlier),
        ensures
            self.accepts(earlier.snapshot()),
            self.view_of(earlier.snapshot()) == earlier@,
    {
        self.lemma_snapshot_outlives_writes(earlier, earlier.snapshot());
    }

    /// Two snapshots at the same position of the graph hold the same output,
    /// whatever their bookkeeping says.
    pub proof fn lemma_same_position_same_output(&self, one: WriterState, other: WriterState)
        requires
            one.position() == other.position(),
        ensures
            self.view_of(one).items == self.view_of(other).items,
    {
    }

    /// One more level of indentation, from now on.
    pub fn start_indent(&mut self)
        requires
            old(self).wf(),
            old(self)@.can_start_indent(),
        ensures
            final(self).wf(),
            final(self)@ == old(self)@.start_indent(),
            final(self).continues(old(self)),
    {
        self.set_indent_level(self.state.indent_level + 1);
    }

    /// One level of indentation less. A level that was queued and not yet
    /// used is given up first.
    pub fn finish_indent(&mut self)
        requires
            old(self).wf(),
            old(self)@.can_finish_indent(),
        ensures
            final(self).wf(),
            final(self)@ == old(self)@.finish_indent(),
            final(self).continues(old(self)),
    {
        if self.state.indent_queue_count > 0 {
            self.state.indent_queue_count = self.state.indent_queue_count - 1;
        } else {
            self.set_indent_level(self.state.indent_level - 1);
        }
    }

    fn set_indent_level(&mut self, new_level: u8)
        requires
            old(self).wf(),
        ensures
            final(self).wf(),
            final(self)@ == old(self)@.with_cursor(
                old(self)@.cursor.with_indent_level(new_level as nat),
            ),
            final(self).continues(old(self)),
    {
        self.state.indent_level = new_level;
        // A line without content starts with the level that is current when
        // its content arrives.
        if self.state.current_line_column == 0 {
            self.state.last_line_indent_level = new_level;
        }
    }

    /// Opens a scope in which lines get no indentation.
    pub fn start_ignoring_indent(&mut self)
        requires
            old(self).wf(),
            old(self)@.can_start_ignoring_indent(),
        ensures
            final(self).wf(),
            final(self)@ == old(self)@.start_ignoring_indent(),
            final(self).continues(old(self)),
    {
        self.state.ignore_indent_count = self.state.ignore_indent_count + 1;
    }

    /// Closes the innermost scope in which lines get no indentation.
    pub fn finish_ignoring_indent(&mut self)
        requires
            old(self).wf(),
            old(self)@.can_finish_ignoring_indent(),
        ensures
            final(self).wf(),
            final(self)@ == old(self)@.finish_ignoring_indent(),
            final(self).continues(old(self)),
    {
        self.state.ignore_indent_count = self.state.ignore_indent_count - 1;
    }

    /// Asks for a line break before the next content. Nothing is written
    /// until that content arrives.
    pub fn mark_expect_new_line(&mut self)
        requires
            old(self).wf(),
        ensures
            final(self).wf(),
            final(self)@ == old(self)@.mark_expect_new_line(),
            final(self).continues(old(self)),
    {
        self.state.expect_newline_next = true;
    }

    /// Writes a space unless a line break is pending. A line break that
    /// follows directly takes the space back.
    pub fn space_if_not_trailing(&mut self)
        requires
            old(self).wf(),
            old(self)@.can_space_if_not_trailing(),
        ensures
            final(self).wf(),
            final(self)@ == old(self)@.space_if_not_trailing(),
            final(self).continues(old(self)),
    {
        if !self.state.expect_newline_next {
            self.space();
            self.state.last_was_not_trailing_space = true;
        }
    }

    /// One more level of indentation, starting after the next item written.
    pub fn queue_indent(&mut self)
        requires
            old(self).wf(),
            old(self)@.can_queue_indent(),
        ensures
            final(self).wf(),
            final(self)@ == old(self)@.queue_indent(),
            final(self).continues(old(self)),
    {
        self.state.indent_queue_count = self.state.indent_queue_count + 1;
    }

    /// The current indentation level.
    pub fn indentation_level(&self) -> (level: u8)
        ensures
            level == self@.cursor.indent_level,
    {
        self.state.indent_level
    }

    /// The number of columns that one level of indentation takes.
    pub fn indent_width(&self) -> (width: u8)
        ensures
            width == self.spec_indent_width(),
            width == self@.indent_width,
    {
        self.indent_width
    }

    /// How many scopes that suppress indentation are open.
    pub fn ignore_indent_count(&self) -> (count: u8)
        ensures
            count == self@.cursor.ignore_indent_count,
    {
        self.state.ignore_indent_count
    }

    /// The column at which the next content starts.
    pub fn column_number(&self) -> (column: u32)
        ensures
            column == self@.column_number(),
    {
        self.state.column_number(self.indent_width)
    }

    pub fn line_number(&self) -> (line: u32)
        ensures
            line == self@.cursor.line_number,
    {
        self.state.current_line_number
    }

    /// Nothing has been written on the line that the next content goes to.
    pub fn is_start_of_line(&self) -> (at_start: bool)
        ensures
            at_start == self@.is_start_of_line(),
    {
        self.state.expect_newline_next || self.column_number() == self.line_start_column_number()
    }

    pub fn indent_level(&self) -> (level: u8)
        ensures
            level == self@.cursor.indent_level,
    {
        self.state.indent_level
    }

    /// The column at which the content of the current line starts.
    pub fn line_start_column_number(&self) -> (column: u32)
        ensures
            column == self@.line_start_column_number(),
    {
        assert((self.state.last_line_indent_level as nat) * (self.indent_width as nat) <= 255
            * 255) by (nonlinear_arith)
            requires
                self.state.last_line_indent_level <= 255,
                self.indent_width <= 255,
        ;
        (self.state.last_line_indent_level as u32) * (self.indent_width as u32)
    }

    /// The indentation level that the current line started with.
    pub fn line_start_indent_level(&self) -> (level: u8)
        ensures
            level == self@.cursor.line_start_indent_level,
    {
        self.state.last_line_indent_level
    }

    /// Ends the line. A retractable space at its end is taken back first, so
    /// no line ends in one.
    pub fn new_line(&mut self)
        requires
            old(self).wf(),
            old(self)@.can_new_line(),
        ensures
            final(self).wf(),
            final(self)@ == old(self)@.new_line(),
            final(self).continues(old(self)),
    {
        if self.state.last_was_not_trailing_space {
            self.pop_item();
            self.state.last_was_not_trailing_space = false;
        }
        self.state.current_line_column = 0;
        self.state.current_line_number = self.state.current_line_number + 1;
        self.state.last_line_indent_level = self.state.indent_level;
        self.state.expect_newline_next = false;
        self.push_item(WriteItem::NewLine);
    }

    /// Writes one level of indentation as content.
    pub fn single_indent(&mut self)
        requires
            old(self).wf(),
            old(self)@.can_single_indent(),
        ensures
            final(self).wf(),
            final(self)@ == old(self)@.single_indent(),
            final(self).continues(old(self)),
    {
        let ghost before = *self;
        self.handle_first_column();
        let ghost begun = *self;
        self.state.current_line_column = self.state.current_line_column + self.indent_width as u32;
        self.push_item(WriteItem::Indent(1));
        proof {
            self.lemma_continues_transitive(&begun, &before);
        }
    }

    /// Writes a tab, which counts as one indentation width.
    pub fn tab(&mut self)
        requires
            old(self).wf(),
            old(self)@.can_tab(),
        ensures
            final(self).wf(),
            final(self)@ == old(self)@.tab(),
            final(self).continues(old(self)),
    {
        let ghost before = *self;
        self.handle_first_column();
        let ghost begun = *self;
        self.state.current_line_column = self.state.current_line_column + self.indent_width as u32;
        self.push_item(WriteItem::Tab);
        proof {
            self.lemma_continues_transitive(&begun, &before);
        }
    }

    fn space(&mut self)
        requires
            old(self).wf(),
            old(self)@.can_write_width(1),
        ensures
            final(self).graph_wf(),
            final(self)@ == old(self)@.write_item(WriteItem::Space, 1),
            final(self).continues(old(self)),
    {
        let ghost before = *self;
        self.handle_first_column();
        let ghost begun = *self;
        self.state.current_line_column = self.state.current_line_column + 1;
        self.push_item(WriteItem::Space);
        proof {
            self.lemma_continues_transitive(&begun, &before);
        }
    }

    /// Writes `text`, which counts as many columns as it has characters.
    pub fn write(&mut self, text: &'a StringContainer)
        requires
            old(self).wf(),
            old(self)@.can_write(text),
        ensures
            final(self).wf(),
            final(self)@ == old(self)@.write(text),
            final(self).continues(old(self)),
    {
        let ghost before = *self;
        self.handle_first_column();
        let ghost begun = *self;
        self.state.current_line_column = self.state.current_line_column + text.len();
        self.push_item(WriteItem::String(text));
        proof {
            self.lemma_continues_transitive(&begun, &before);
        }
    }

    fn handle_first_column(&mut self)
        requires
            old(self).wf(),
            old(self)@.can_begin_content(),
        ensures
            final(self).wf(),
            final(self)@ == old(self)@.begin_content(),
            final(self).continues(old(self)),
    {
        let ghost before = *self;
        if self.state.expect_newline_next {
            self.new_line();
        }
        let ghost broken = *self;

        self.state.last_was_not_trailing_space = false;

        // The indentation of a line is written when its first content arrives.
        if self.state.current_line_column == 0 && self.state.indent_level > 0
            && self.state.ignore_indent_count == 0 {
            self.state.last_line_indent_level = self.state.indent_level;
            assert((self.state.indent_level as nat) * (self.indent_width as nat) <= 255 * 255)
                by (nonlinear_arith)
                requires
                    self.state.indent_level <= 255,
                    self.indent_width <= 255,
            ;
            self.state.current_line_column = self.state.indent_level as u32
                * self.indent_width as u32;
            // Writing the item lets queued indentation take effect, so the
            // level is read before.
            self.push_item(WriteItem::Indent(self.state.indent_level));
            proof {
                self.lemma_continues_transitive(&broken, &before);
            }
        }
    }

    fn push_item(&mut self, item: WriteItem<'a>)
        requires
            old(self).graph_wf(),
            old(self)@.cursor.can_flush_indent_queue(),
        ensures
            final(self).graph_wf(),
            final(self)@ == old(self)@.push(item),
            final(self).continues(old(self)),
    {
        let previous = self.state.items;
        let position = self.arena.allocate(item, previous);
        self.state.items = Some(position);

        if self.state.indent_queue_count > 0 {
            let indent_count = self.state.indent_queue_count;
            self.state.indent_queue_count = 0;
            self.state.indent_level = self.state.indent_level + indent_count;
        }
    }

    fn pop_item(&mut self)
        requires
            old(self).graph_wf(),
        ensures
            final(self).graph_wf(),
            final(self).arena@ == old(self).arena@,
            final(self).indent_width == old(self).indent_width,
            final(self).state.cursor() == old(self).state.cursor(),
            final(self)@.items == if old(self)@.items.len() > 0 {
                old(self)@.items.drop_last()
            } else {
                old(self)@.items
            },
    {
        if let Some(position) = self.state.items {
            let node = self.arena.node(position);
            assert(items_up_to(self.arena@, node.previous).push(node.item).drop_last()
                == items_up_to(self.arena@, node.previous));
            self.state.items = node.previous;
        }
    }

    /// The items written, first to last, or `None` if nothing was written.
    pub fn items(self) -> (items: Option<Vec<WriteItem<'a>>>)
        requires
            self.wf(),
        ensures
            match items {
                Some(written) => written@ == self@.items && written@.len() > 0,
                None => self@.items.len() == 0,
            },
    {
        match self.state.items {
            Some(position) => Some(self.arena.collect(Some(position))),
            None => None,
        }
    }

    /// The text written so far, indented with spaces and with `"\n"` as the
    /// line break.
    pub fn to_string_for_debugging(&self) -> (text: String)
        requires
            self.wf(),
        ensures
            text@ == rendered(
                self@.items,
                Indentation::Spaces(self.spec_indent_width()),
                "\n"@,
            ),
    {
        let write_items = self.items_cloned();
        WriteItemsPrinter::new(self.indent_width, false, "\n").print(write_items)
    }

    fn items_cloned(&self) -> (items: Vec<WriteItem<'a>>)
        requires
            self.wf(),
        ensures
            items@ == self@.items,
    {
        self.arena.collect(self.state.items)
    }

    /// The position in the graph of the node written last, if any.
    pub fn current_node_id(&self) -> (id: Option<usize>)
        ensures
            id == self.snapshot().position(),
    {
        self.state.items
    }

    /// Every node allocated during the pass, in allocation order, those of
    /// attempts that were rolled back included.
    pub fn nodes(self) -> (nodes: Vec<GraphNode<'a>>)
        ensures
            nodes@ == self.arena(),
    {
        self.arena.into_nodes()
    }
}

} // verus!
