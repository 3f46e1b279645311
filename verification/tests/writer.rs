use dprint_engine::formatting::collections::{GraphNode, NodeArena};
use dprint_engine::formatting::print_items::WriterInfo;
use dprint_engine::formatting::printer::{Indentation, WriteItemsPrinter};
use dprint_engine::formatting::write_items::{StringContainer, WriteItem};
use dprint_engine::formatting::writer::{Writer, WriterOptions};

fn create_writer() -> Writer<'static> {
    Writer::new(WriterOptions { indent_width: 2 })
}

/// Texts live for the whole test, as they live for the whole pass in use.
fn write_text(writer: &mut Writer<'static>, text: &'static str) {
    let string_container: &'static StringContainer =
        Box::leak(Box::new(StringContainer::new(String::from(text))));
    writer.write(string_container);
}

fn print_items(items: Option<Vec<WriteItem>>) -> String {
    let p = WriteItemsPrinter {
        indent: Indentation::Spaces(2),
        newline: "\n",
    };
    p.print(items.unwrap_or_default())
}

fn assert_writer_equal(writer: Writer, text: &str) {
    let p = WriteItemsPrinter {
        indent: Indentation::Spaces(2),
        newline: "\n",
    };
    assert_eq!(p.print(writer.items().unwrap()), String::from(text));
}

#[test]
fn write_singleword_writes() {
    let mut writer = create_writer();
    write_text(&mut writer, "test");
    assert_writer_equal(writer, "test");
}

#[test]
fn write_multiple_lines_writes() {
    let mut writer = create_writer();
    write_text(&mut writer, "1");
    writer.new_line();
    write_text(&mut writer, "2");
    assert_writer_equal(writer, "1\n2");
}

#[test]
fn write_indented_writes() {
    let mut writer = create_writer();
    write_text(&mut writer, "1");
    writer.new_line();
    writer.start_indent();
    write_text(&mut writer, "2");
    writer.finish_indent();
    writer.new_line();
    write_text(&mut writer, "3");
    assert_writer_equal(writer, "1\n  2\n3");
}

#[test]
fn write_singleindent_writes() {
    let mut writer = create_writer();
    writer.single_indent();
    write_text(&mut writer, "t");
    assert_writer_equal(writer, "  t");
}

#[test]
fn markexpectnewline_writesnewline() {
    let mut writer = create_writer();
    write_text(&mut writer, "1");
    writer.mark_expect_new_line();
    write_text(&mut writer, "2");
    assert_writer_equal(writer, "1\n2");
}

#[test]
fn new_writer_is_empty_and_at_origin() {
    let writer = create_writer();
    assert_eq!(
        writer.writer_info(),
        WriterInfo {
            line_number: 0,
            column_number: 0,
            indent_level: 0,
            line_start_indent_level: 0,
            indent_width: 2,
            expect_newline_next: false,
        }
    );
    assert_eq!(writer.indent_width(), 2);
    assert!(writer.is_start_of_line());
    assert!(writer.current_node_id().is_none());
    assert!(writer.items().is_none());
}

#[test]
fn single_write_advances_column_only() {
    let mut writer = create_writer();
    write_text(&mut writer, "test");
    assert_eq!(writer.column_number(), 4);
    assert_eq!(writer.line_number(), 0);
    assert!(!writer.is_start_of_line());
    assert_eq!(writer.to_string_for_debugging(), "test");
    assert_writer_equal(writer, "test");
}

#[test]
fn char_count_is_in_characters_not_bytes() {
    let container = StringContainer::new(String::from("héllo→"));
    assert_eq!(container.len(), 6);
    assert_eq!(container.as_str(), "héllo→");
    let mut writer = create_writer();
    write_text(&mut writer, "héllo→");
    assert_eq!(writer.column_number(), 6);
}

#[test]
fn restore_discards_what_was_written_since_snapshot() {
    let mut writer = create_writer();
    write_text(&mut writer, "1");
    let saved = writer.state();
    let info_at_snapshot = writer.writer_info();
    write_text(&mut writer, "2");
    writer.new_line();
    writer.start_indent();
    write_text(&mut writer, "x");
    writer.set_state(saved);
    assert_eq!(writer.writer_info(), info_at_snapshot);
    assert_eq!(writer.to_string_for_debugging(), "1");
    write_text(&mut writer, "3");
    assert_writer_equal(writer, "13");
}

#[test]
fn restore_behaves_like_never_having_written() {
    let mut tried = create_writer();
    let mut plain = create_writer();
    for writer in [&mut tried, &mut plain] {
        write_text(writer, "a");
        writer.start_indent();
        writer.new_line();
    }
    let saved = tried.state();
    write_text(&mut tried, "abandoned");
    tried.queue_indent();
    tried.mark_expect_new_line();
    tried.space_if_not_trailing();
    write_text(&mut tried, "also abandoned");
    tried.set_state(saved);
    for writer in [&mut tried, &mut plain] {
        write_text(writer, "b");
        writer.space_if_not_trailing();
        writer.new_line();
        writer.finish_indent();
        write_text(writer, "c");
    }
    assert_eq!(tried.writer_info(), plain.writer_info());
    assert_eq!(tried.to_string_for_debugging(), "a\n  b\nc");
    assert_eq!(plain.to_string_for_debugging(), "a\n  b\nc");
}

#[test]
fn snapshot_can_be_restored_more_than_once() {
    let mut writer = create_writer();
    write_text(&mut writer, "head");
    let saved = writer.state();
    write_text(&mut writer, " one");
    writer.set_state(saved);
    write_text(&mut writer, " two");
    assert_eq!(writer.to_string_for_debugging(), "head two");
    writer.set_state(saved);
    write_text(&mut writer, " three");
    assert_writer_equal(writer, "head three");
}

#[test]
fn state_reports_like_the_writer_it_came_from() {
    let mut writer = create_writer();
    writer.start_indent();
    write_text(&mut writer, "ab");
    let saved = writer.state();
    assert_eq!(saved.writer_info(2), writer.writer_info());
    assert_eq!(saved.column_number(2), 4);
    assert_eq!(saved.column_number(2), writer.column_number());
}

#[test]
fn pending_new_line_is_not_written_until_content() {
    let mut writer = create_writer();
    write_text(&mut writer, "1");
    let before = writer.writer_info();
    writer.mark_expect_new_line();
    let info = writer.writer_info();
    assert!(info.expect_newline_next);
    assert_eq!(info.line_number, before.line_number);
    assert_eq!(info.column_number, before.column_number);
    assert!(writer.is_start_of_line());
    assert_eq!(writer.to_string_for_debugging(), "1");
    write_text(&mut writer, "23");
    let info = writer.writer_info();
    assert!(!info.expect_newline_next);
    assert_eq!(info.line_number, 1);
    assert_eq!(info.column_number, 2);
    assert_writer_equal(writer, "1\n23");
}

#[test]
fn pending_new_line_resets_column_behind_indentation() {
    let mut writer = create_writer();
    writer.start_indent();
    write_text(&mut writer, "1");
    writer.mark_expect_new_line();
    write_text(&mut writer, "234");
    assert_eq!(writer.line_number(), 1);
    assert_eq!(writer.column_number(), 5);
    assert_eq!(writer.line_start_column_number(), 2);
    assert_writer_equal(writer, "  1\n  234");
}

#[test]
fn trailing_space_is_retracted_before_line_break() {
    let mut writer = create_writer();
    write_text(&mut writer, "1");
    writer.space_if_not_trailing();
    assert_eq!(writer.to_string_for_debugging(), "1 ");
    writer.new_line();
    write_text(&mut writer, "2");
    assert_writer_equal(writer, "1\n2");
}

#[test]
fn trailing_space_is_retracted_before_pending_line_break() {
    let mut writer = create_writer();
    write_text(&mut writer, "1");
    writer.space_if_not_trailing();
    writer.mark_expect_new_line();
    write_text(&mut writer, "2");
    assert_writer_equal(writer, "1\n2");
}

#[test]
fn space_stays_when_content_follows() {
    let mut writer = create_writer();
    write_text(&mut writer, "1");
    writer.space_if_not_trailing();
    write_text(&mut writer, "2");
    assert_eq!(writer.column_number(), 3);
    writer.new_line();
    assert_writer_equal(writer, "1 2\n");
}

#[test]
fn space_is_not_written_when_line_break_is_pending() {
    let mut writer = create_writer();
    write_text(&mut writer, "1");
    writer.mark_expect_new_line();
    writer.space_if_not_trailing();
    assert_eq!(writer.to_string_for_debugging(), "1");
    write_text(&mut writer, "2");
    assert_writer_equal(writer, "1\n2");
}

#[test]
fn indentation_is_written_once_per_line() {
    let mut writer = create_writer();
    writer.start_indent();
    writer.start_indent();
    assert_eq!(writer.column_number(), 4);
    assert_eq!(writer.indent_level(), 2);
    assert_eq!(writer.indentation_level(), 2);
    assert_eq!(writer.line_start_indent_level(), 2);
    write_text(&mut writer, "a");
    write_text(&mut writer, "b");
    assert_eq!(writer.column_number(), 6);
    assert_writer_equal(writer, "    ab");
}

#[test]
fn indent_change_in_mid_line_counts_from_next_line() {
    let mut writer = create_writer();
    write_text(&mut writer, "a");
    writer.start_indent();
    assert_eq!(writer.line_start_indent_level(), 0);
    assert_eq!(writer.line_start_column_number(), 0);
    write_text(&mut writer, "b");
    writer.new_line();
    assert_eq!(writer.line_start_indent_level(), 1);
    assert_eq!(writer.line_start_column_number(), 2);
    write_text(&mut writer, "c");
    assert_writer_equal(writer, "ab\n  c");
}

#[test]
fn queued_indent_cancelled_by_finish_never_shows() {
    let mut writer = create_writer();
    write_text(&mut writer, "a");
    let before = writer.writer_info();
    writer.queue_indent();
    writer.finish_indent();
    assert_eq!(writer.writer_info(), before);
    writer.new_line();
    write_text(&mut writer, "b");
    writer.new_line();
    write_text(&mut writer, "c");
    assert_eq!(writer.indent_level(), 0);
    assert_writer_equal(writer, "a\nb\nc");
}

#[test]
fn queued_indent_applies_after_next_item() {
    let mut writer = create_writer();
    writer.queue_indent();
    assert_eq!(writer.indent_level(), 0);
    write_text(&mut writer, "a");
    assert_eq!(writer.indent_level(), 1);
    writer.new_line();
    write_text(&mut writer, "b");
    writer.finish_indent();
    writer.new_line();
    write_text(&mut writer, "c");
    assert_writer_equal(writer, "a\n  b\nc");
}

#[test]
fn finish_indent_drains_queue_before_active_level() {
    let mut writer = create_writer();
    writer.start_indent();
    writer.queue_indent();
    writer.queue_indent();
    writer.finish_indent();
    assert_eq!(writer.indent_level(), 1);
    writer.finish_indent();
    assert_eq!(writer.indent_level(), 1);
    writer.finish_indent();
    assert_eq!(writer.indent_level(), 0);
    write_text(&mut writer, "a");
    assert_writer_equal(writer, "a");
}

#[test]
fn ignoring_indent_suppresses_indentation() {
    let mut writer = create_writer();
    writer.start_indent();
    write_text(&mut writer, "a");
    writer.start_ignoring_indent();
    assert_eq!(writer.ignore_indent_count(), 1);
    writer.new_line();
    write_text(&mut writer, "raw");
    writer.finish_ignoring_indent();
    assert_eq!(writer.ignore_indent_count(), 0);
    writer.new_line();
    write_text(&mut writer, "b");
    assert_writer_equal(writer, "  a\nraw\n  b");
}

#[test]
fn tab_counts_as_one_indent_width() {
    let mut writer = create_writer();
    writer.tab();
    assert_eq!(writer.column_number(), 2);
    write_text(&mut writer, "x");
    assert_eq!(writer.column_number(), 3);
    assert_writer_equal(writer, "\tx");
}

#[test]
fn single_indent_after_indentation() {
    let mut writer = create_writer();
    writer.start_indent();
    writer.single_indent();
    assert_eq!(writer.column_number(), 4);
    write_text(&mut writer, "x");
    assert_writer_equal(writer, "    x");
}

#[test]
fn writer_info_is_stable_between_calls() {
    let mut writer = create_writer();
    writer.start_indent();
    write_text(&mut writer, "abc");
    writer.mark_expect_new_line();
    let first = writer.writer_info();
    let second = writer.writer_info();
    assert_eq!(first, second);
    assert_eq!(
        first,
        WriterInfo {
            line_number: 0,
            column_number: 5,
            indent_level: 1,
            line_start_indent_level: 1,
            indent_width: 2,
            expect_newline_next: true,
        }
    );
    assert_eq!(writer.column_number(), writer.column_number());
    assert_eq!(writer.is_start_of_line(), writer.is_start_of_line());
}

#[test]
fn nodes_keep_abandoned_attempts() {
    let mut writer = create_writer();
    write_text(&mut writer, "a");
    let saved = writer.state();
    write_text(&mut writer, "b");
    assert_eq!(writer.current_node_id(), Some(1));
    writer.set_state(saved);
    assert_eq!(writer.current_node_id(), Some(0));
    write_text(&mut writer, "c");
    assert_eq!(writer.current_node_id(), Some(2));
    let nodes: Vec<GraphNode> = writer.nodes();
    assert_eq!(nodes.len(), 3);
    assert_eq!(nodes[0].previous, None);
    assert_eq!(nodes[1].previous, Some(0));
    assert_eq!(nodes[2].previous, Some(0));
    assert!(matches!(nodes[2].item, WriteItem::String(text) if text.as_str() == "c"));
}

#[test]
fn printer_renders_each_kind_of_item() {
    let text = StringContainer::new(String::from("x"));
    let items = vec![
        WriteItem::Indent(2),
        WriteItem::String(&text),
        WriteItem::Space,
        WriteItem::Tab,
        WriteItem::NewLine,
        WriteItem::Indent(1),
    ];
    let spaces = WriteItemsPrinter::new(3, false, "\r\n");
    assert_eq!(spaces.print(items.clone()), "      x \t\r\n   ");
    let tabs = WriteItemsPrinter::new(3, true, "\n");
    assert_eq!(tabs.print(items), "\t\tx \t\n\t");
    assert_eq!(print_items(None), "");
}

#[test]
fn arena_collects_items_in_written_order() {
    let text = StringContainer::new(String::from("x"));
    let mut arena = NodeArena::new();
    assert_eq!(arena.len(), 0);
    assert!(arena.collect(None).is_empty());
    let first = arena.allocate(WriteItem::String(&text), None);
    let second = arena.allocate(WriteItem::Space, Some(first));
    let branch = arena.allocate(WriteItem::NewLine, Some(first));
    let third = arena.allocate(WriteItem::Tab, Some(second));
    assert_eq!((first, second, branch, third), (0, 1, 2, 3));
    assert_eq!(arena.len(), 4);
    assert_eq!(arena.node(third).previous, Some(second));
    let printer = WriteItemsPrinter::new(2, false, "\n");
    assert_eq!(printer.print(arena.collect(Some(third))), "x \t");
    assert_eq!(printer.print(arena.collect(Some(branch))), "x\n");
    assert_eq!(printer.print(arena.collect(Some(first))), "x");
    assert_eq!(arena.into_nodes().len(), 4);
}
