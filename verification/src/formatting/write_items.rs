//! The low-level items that the writer emits.

use vstd::prelude::*;
use vstd::string::*;

verus! {

/// A piece of text together with the number of characters it holds, counted
/// once when the container is made.
#[derive(Debug)]
pub struct StringContainer {
    text: String,
    char_count: u32,
}

impl StringContainer {
    /// The characters of the text.
    pub closed spec fn text(&self) -> Seq<char> {
        self.text@
    }

    /// The stored character count.
    pub closed spec fn char_count(&self) -> u32 {
        self.char_count
    }

    /// Wraps `text`, counting its characters.
    pub fn new(text: String) -> (container: StringContainer)
        requires
            text@.len() <= u32::MAX,
        ensures
            container.text() == text@,
            container.char_count() == text@.len(),
    {
        let count: usize = text.as_str().unicode_len();
        StringContainer { text, char_count: count as u32 }
    }

    /// The text as a string slice.
    pub fn as_str(&self) -> (s: &str)
        ensures
            s@ == self.text(),
    {
        self.text.as_str()
    }

    /// The number of characters in the text.
    pub fn len(&self) -> (n: u32)
        ensures
            n == self.char_count(),
    {
        self.char_count
    }
}

/// One unit of output.
#[derive(Clone, Copy, Debug)]
pub enum WriteItem<'a> {
    NewLine,
    Tab,
    Space,
    /// Indentation of the given number of levels.
    Indent(u8),
    String(&'a StringContainer),
}

} // verus!
