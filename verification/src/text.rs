//! Joining and splitting texts.

use vstd::prelude::*;
use vstd::string::*;

verus! {

/// The characters of each string.
pub open spec fn texts(strings: Seq<String>) -> Seq<Seq<char>> {
    strings.map_values(|s: String| s@)
}

/// `parts` in a row, with `separator` between each two.
pub open spec fn joined(parts: Seq<Seq<char>>, separator: Seq<char>) -> Seq<char>
    decreases parts.len(),
{
    if parts.len() == 0 {
        Seq::empty()
    } else if parts.len() == 1 {
        parts[0]
    } else {
        joined(parts.drop_last(), separator) + separator + parts.last()
    }
}

/// Where `pattern` first occurs in `text`, if it does.
pub open spec fn first_occurrence(text: Seq<char>, pattern: Seq<char>) -> Option<int>
    decreases text.len(),
{
    if pattern.is_prefix_of(text) {
        Some(0)
    } else if text.len() == 0 {
        None
    } else {
        match first_occurrence(text.drop_first(), pattern) {
            Some(at) => Some(at + 1),
            None => None,
        }
    }
}

/// The parts of `text` between the occurrences of `separator`, found from
/// left to right, each search starting behind the occurrence found before.
/// A text without an occurrence is its own single part.
pub open spec fn split(text: Seq<char>, separator: Seq<char>) -> Seq<Seq<char>>
    decreases text.len(),
{
    match first_occurrence(text, separator) {
        Some(at) => if separator.len() > 0 && 0 <= at && at + separator.len() <= text.len() {
            seq![text.take(at)] + split(text.skip(at + separator.len()), separator)
        } else {
            seq![text]
        },
        None => seq![text],
    }
}

/// Calls `str::split` with a string as the pattern and hands out each part
/// as a `String`. The standard library searches the pattern from left to
/// right without overlap and yields what stands between the matches, empty
/// parts included; that is what `split` spells out. An empty pattern, which
/// the standard library treats in a way of its own, is not admitted.
#[verifier::external_body]
pub(crate) fn split_by(text: &str, separator: &str) -> (parts: Vec<String>)
    requires
        separator@.len() > 0,
    ensures
        texts(parts@) == split(text@, separator@),
{
    text.split(separator).map(String::from).collect()
}

/// Puts `parts` in a row, with `separator` between each two.
pub fn join_strings(parts: &[String], separator: &str) -> (text: String)
    ensures
        text@ == joined(texts(parts@), separator@),
{
    let mut text = String::new();
    let mut index: usize = 0;
    while index < parts.len()
        invariant
            index <= parts.len(),
            text@ == joined(texts(parts@).take(index as int), separator@),
        decreases parts.len() - index,
    {
        let ghost taken = texts(parts@).take(index as int + 1);
        assert(taken.drop_last() == texts(parts@).take(index as int));
        assert(taken.last() == parts@[index as int]@);
        if index > 0 {
            text.append(separator);
        }
        text.append(parts[index].as_str());
        index = index + 1;
    }
    assert(texts(parts@).take(parts.len() as int) == texts(parts@));
    text
}

/// Whether `text` is among `items`.
pub fn contains_text(items: &Vec<String>, text: &String) -> (found: bool)
    ensures
        found == texts(items@).contains(text@),
{
    let mut index: usize = 0;
    while index < items.len()
        invariant
            index <= items.len(),
            forall|i: int| 0 <= i < index ==> (#[trigger] texts(items@)[i]) != text@,
        decreases items.len() - index,
    {
        if items[index] == *text {
            assert(texts(items@)[index as int] == text@);
            return true;
        }
        index = index + 1;
    }
    false
}

} // verus!
