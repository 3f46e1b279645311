//! Turning written items into text.

use vstd::prelude::*;
use vstd::string::*;
use crate::formatting::write_items::WriteItem;

verus! {

/// How one level of indentation is rendered.
#[derive(Clone, Copy, Debug, PartialEq, Eq, Structural)]
pub enum Indentation {
    /// One tab character per level.
    Tabs,
    /// The given number of spaces per level.
    Spaces(u8),
}

impl Indentation {
    /// The text of one level.
    pub open spec fn unit(self) -> Seq<char> {
        match self {
            Indentation::Tabs => seq!['\t'],
            Indentation::Spaces(width) => Seq::new(width as nat, |i: int| ' '),
        }
    }
}

/// `unit`, `times` times in a row.
pub open spec fn repeated(unit: Seq<char>, times: nat) -> Seq<char>
    decreases times,
{
    if times == 0 {
        Seq::empty()
    } else {
        repeated(unit, (times - 1) as nat) + unit
    }
}

/// The text that stands for one item.
pub open spec fn item_text(item: WriteItem, indent: Indentation, newline: Seq<char>) -> Seq<char> {
    match item {
        WriteItem::NewLine => newline,
        WriteItem::Tab => seq!['\t'],
        WriteItem::Space => seq![' '],
        WriteItem::Indent(levels) => repeated(indent.unit(), levels as nat),
        WriteItem::String(text) => text.text(),
    }
}

/// The texts of `items`, one after the other.
pub open spec fn rendered(items: Seq<WriteItem>, indent: Indentation, newline: Seq<char>) -> Seq<
    char,
>
    decreases items.len(),
{
    if items.len() == 0 {
        Seq::empty()
    } else {
        rendered(items.drop_last(), indent, newline) + item_text(items.last(), indent, newline)
    }
}

/// Renders items with a chosen indentation and line break.
pub struct WriteItemsPrinter<'a> {
    pub indent: Indentation,
    pub newline: &'a str,
}

impl<'a> WriteItemsPrinter<'a> {
    /// A printer that indents with tabs if `use_tabs` is set and with
    /// `indent_width` spaces per level otherwise.
    pub fn new(indent_width: u8, use_tabs: bool, newline: &'a str) -> (printer: Self)
        ensures
            printer.indent == (if use_tabs {
                Indentation::Tabs
            } else {
                Indentation::Spaces(indent_width)
            }),
            printer.newline@ == newline@,
    {
        WriteItemsPrinter {
            indent: if use_tabs {
                Indentation::Tabs
            } else {
                Indentation::Spaces(indent_width)
            },
            newline,
        }
    }

    /// The text of `items`.
    pub fn print(&self, items: Vec<WriteItem<'_>>) -> (text: String)
        ensures
            text@ == rendered(items@, self.indent, self.newline@),
    {
        let mut text = String::new();
        let mut index: usize = 0;
        while index < items.len()
            invariant
                index <= items.len(),
                text@ == rendered(items@.take(index as int), self.indent, self.newline@),
            decreases items.len() - index,
        {
            let ghost before = text@;
            match items[index] {
                WriteItem::NewLine => text.append(self.newline),
                WriteItem::Tab => {
                    proof {
                        reveal_strlit("\t");
                    }
                    text.append("\t");
                    assert(text@ == before + seq!['\t']);
                },
                WriteItem::Space => {
                    proof {
                        reveal_strlit(" ");
                    }
                    text.append(" ");
                    assert(text@ == before + seq![' ']);
                },
                WriteItem::Indent(levels) => self.push_indent(&mut text, levels),
                WriteItem::String(container) => text.append(container.as_str()),
            }
            proof {
                let taken = items@.take(index as int + 1);
                assert(taken.drop_last() == items@.take(index as int));
                assert(taken.last() == items@[index as int]);
            }
            index = index + 1;
        }
        assert(items@.take(items.len() as int) == items@);
        text
    }

    /// Appends `levels` levels of indentation to `text`.
    fn push_indent(&self, text: &mut String, levels: u8)
        ensures
            final(text)@ == old(text)@ + repeated(self.indent.unit(), levels as nat),
    {
        let mut level: u8 = 0;
        while level < levels
            invariant
                level <= levels,
                text@ == old(text)@ + repeated(self.indent.unit(), level as nat),
            decreases levels - level,
        {
            let ghost before = text@;
            match self.indent {
                Indentation::Tabs => {
                    proof {
                        reveal_strlit("\t");
                    }
                    text.append("\t");
                    assert(text@ == before + seq!['\t']);
                },
                Indentation::Spaces(width) => {
                    let mut column: u8 = 0;
                    while column < width
                        invariant
                            column <= width,
                            text@ == before + Seq::new(column as nat, |i: int| ' '),
                        decreases width - column,
                    {
                        proof {
                            reveal_strlit(" ");
                        }
                        text.append(" ");
                        column = column + 1;
                        assert(text@ == before + Seq::new(column as nat, |i: int| ' '));
                    }
                },
            }
            level = level + 1;
            assert(text@ == old(text)@ + (repeated(self.indent.unit(), (level - 1) as nat)
                + self.indent.unit()));
        }
    }
}

} // verus!
