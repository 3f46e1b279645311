//! What follows from the definitions of the writer's operations.

use vstd::prelude::*;
use crate::formatting::printer::{rendered, Indentation};
use crate::formatting::write_items::{StringContainer, WriteItem};
use crate::formatting::writer_model::WriterView;

verus! {

/// The column at which content starts on a fresh line of `view`: behind the
/// indentation if the line gets one, else at 0.
pub open spec fn fresh_line_start(view: WriterView) -> nat {
    if view.cursor.indent_level > 0 && view.cursor.ignore_indent_count == 0 {
        view.cursor.indent_level * view.indent_width
    } else {
        0
    }
}

/// A line break that was asked for is written by the next content, not
/// before. Asking changes the report of the writer in one place only, the
/// flag that says a line break is pending: line number, column and items stay
/// as they are. The content written next first takes back a retractable
/// space, then writes the line break, which adds one to the line number and
/// lets queued indentation take effect, then the indentation of the new line
/// if it gets one, and then itself, so that the column ends up behind the
/// indentation and the content.
pub proof fn lemma_pending_new_line_is_written_by_next_content<'a>(
    view: WriterView<'a>,
    item: WriteItem<'a>,
    width: nat,
)
    ensures
        view.mark_expect_new_line().cursor.expect_newline_next,
        view.mark_expect_new_line().info().expect_newline_next,
        view.mark_expect_new_line().cursor.line_number == view.cursor.line_number,
        view.mark_expect_new_line().info().line_number == view.info().line_number,
        view.mark_expect_new_line().cursor.line_column == view.cursor.line_column,
        view.mark_expect_new_line().items == view.items,
        ({
            let marked = view.mark_expect_new_line();
            let broken = marked.new_line();
            let written = marked.write_item(item, width);
            &&& broken.cursor.line_number == view.cursor.line_number + 1
            &&& broken.cursor.line_column == 0
            &&& broken.items == view.items_without_trailing_space().push(WriteItem::NewLine)
            &&& broken.cursor.indent_level == view.cursor.indent_level
                + view.cursor.indent_queue_count
            &&& !written.cursor.expect_newline_next
            &&& written.cursor.line_number == view.cursor.line_number + 1
            &&& written.cursor.line_column == fresh_line_start(broken) + width
            &&& written.items == if broken.needs_indent() {
                broken.items.push(WriteItem::Indent(broken.cursor.indent_level as u8)).push(item)
            } else {
                broken.items.push(item)
            }
        }),
{
}

/// No line ends in a space written by `space_if_not_trailing`: if the line
/// is ended right after it, the items are those of ending the line right
/// after its first content was begun, without the space.
pub proof fn lemma_trailing_space_is_retracted(view: WriterView)
    ensures
        view.space_if_not_trailing().cursor.expect_newline_next
            == view.cursor.expect_newline_next,
        !view.cursor.expect_newline_next ==> view.space_if_not_trailing().items
            == view.begin_content().items.push(WriteItem::Space),
        !view.cursor.expect_newline_next ==> view.space_if_not_trailing().new_line().items
            == view.begin_content().items.push(WriteItem::NewLine),
        view.cursor.expect_newline_next ==> view.space_if_not_trailing() == view,
{
    if !view.cursor.expect_newline_next {
        let begun = view.begin_content();
        assert(begun.items.push(WriteItem::Space).drop_last() == begun.items);
    }
}

/// A retractable space stays once other content follows it.
pub proof fn lemma_space_stays_before_content<'a>(
    view: WriterView<'a>,
    item: WriteItem<'a>,
    width: nat,
)
    requires
        !view.cursor.expect_newline_next,
    ensures
        view.space_if_not_trailing().write_item(item, width).items
            == view.begin_content().items.push(WriteItem::Space).push(item),
        !view.space_if_not_trailing().write_item(item, width).cursor.last_was_not_trailing_space,
{
}

/// An indentation level that is queued and given up again before anything
/// is written leaves the writer as it was, so it can take no effect on any
/// later line.
pub proof fn lemma_queued_indent_is_cancelled_by_finish(view: WriterView)
    ensures
        view.queue_indent().finish_indent() == view,
{
}

/// The same holds with operations between the two that write nothing and
/// leave the queue alone: giving up the queued level leaves what those
/// operations did, and nothing else.
pub proof fn lemma_queued_indent_is_cancelled_across_other_settings(view: WriterView)
    ensures
        view.queue_indent().start_indent().finish_indent() == view.start_indent(),
        view.queue_indent().mark_expect_new_line().finish_indent()
            == view.mark_expect_new_line(),
        view.queue_indent().start_ignoring_indent().finish_indent()
            == view.start_ignoring_indent(),
        view.queue_indent().finish_ignoring_indent().finish_indent()
            == view.finish_ignoring_indent(),
{
}

/// `finish_indent` gives up a queued level before it touches the active
/// level: while levels are queued, the active level and the level of the
/// current line stay as they are.
pub proof fn lemma_finish_indent_drains_queue_first(view: WriterView)
    requires
        view.cursor.indent_queue_count > 0,
    ensures
        view.finish_indent().cursor.indent_level == view.cursor.indent_level,
        view.finish_indent().cursor.line_start_indent_level
            == view.cursor.line_start_indent_level,
        view.finish_indent().cursor.indent_queue_count == view.cursor.indent_queue_count - 1,
        view.finish_indent().items == view.items,
{
}

/// A queued indentation level becomes active with the next item written,
/// whatever the item is, and counts for the lines after it.
pub proof fn lemma_queued_indent_takes_effect_after_next_item<'a>(
    view: WriterView<'a>,
    item: WriteItem<'a>,
)
    ensures
        view.queue_indent().push(item).cursor.indent_level == view.cursor.indent_level
            + view.cursor.indent_queue_count + 1,
        view.queue_indent().push(item).cursor.indent_queue_count == 0,
{
}

/// Indentation is written once per line, with the first content of the
/// line: content on a line that has content already adds only itself.
pub proof fn lemma_indentation_is_written_with_first_content<'a>(
    view: WriterView<'a>,
    item: WriteItem<'a>,
    width: nat,
)
    requires
        !view.cursor.expect_newline_next,
    ensures
        view.needs_indent() ==> view.write_item(item, width).items == view.items.push(
            WriteItem::Indent(view.cursor.indent_level as u8),
        ).push(item) && view.write_item(item, width).cursor.line_column
            == view.cursor.indent_level * view.indent_width + width,
        !view.needs_indent() ==> view.write_item(item, width).items == view.items.push(item)
            && view.write_item(item, width).cursor.line_column == view.cursor.line_column
            + width,
        view.write_item(item, width).cursor.line_number == view.cursor.line_number,
{
}

/// A text written to a fresh writer is the whole output: the column has
/// advanced by the number of its characters, the line number is still 0, and
/// the items render as the text itself.
pub proof fn lemma_single_write(
    indent_width: nat,
    text: &StringContainer,
    indent: Indentation,
    newline: Seq<char>,
)
    ensures
        ({
            let written = WriterView::initial(indent_width).write(text);
            &&& written.items == seq![WriteItem::String(text)]
            &&& written.cursor.line_column == text.char_count()
            &&& written.cursor.line_number == 0
            &&& rendered(written.items, indent, newline) == text.text()
        }),
{
    let written = WriterView::initial(indent_width).write(text);
    assert(written.items == seq![WriteItem::String(text)]);
    assert(written.items.drop_last() == Seq::<WriteItem>::empty());
    assert(rendered(written.items.drop_last(), indent, newline) == Seq::<char>::empty());
}

/// The column counter of a line is 0 from the line break on, whatever is set
/// in between, until content of some width is written.
pub proof fn lemma_column_is_zero_until_content<'a>(
    view: WriterView<'a>,
    item: WriteItem<'a>,
    width: nat,
)
    ensures
        view.new_line().cursor.line_column == 0,
        view.new_line().items.last() == WriteItem::NewLine,
        view.start_indent().cursor.line_column == view.cursor.line_column,
        view.finish_indent().cursor.line_column == view.cursor.line_column,
        view.queue_indent().cursor.line_column == view.cursor.line_column,
        view.start_ignoring_indent().cursor.line_column == view.cursor.line_column,
        view.finish_ignoring_indent().cursor.line_column == view.cursor.line_column,
        view.mark_expect_new_line().cursor.line_column == view.cursor.line_column,
        width > 0 ==> view.write_item(item, width).cursor.line_column > 0,
{
}

/// The column reported on a line without content is where its indentation
/// will end, so a caller can tell whether content fits before any of it is
/// written.
pub proof fn lemma_column_counts_unwritten_indentation(view: WriterView)
    ensures
        view.cursor.line_column == 0 ==> view.column_number() == view.indent_width
            * view.cursor.indent_level,
        view.cursor.line_column != 0 ==> view.column_number() == view.cursor.line_column,
{
}

} // verus!
