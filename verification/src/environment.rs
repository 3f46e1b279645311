//! Decisions that the command line tool takes from what it finds in its
//! environment. The functions here are handed the values that were read and
//! return what to do with them; reading them is the caller's part.

use std::path::PathBuf;
use vstd::prelude::*;
use vstd::string::*;
use crate::text::{contains_text, join_strings, joined, split, split_by, texts};

verus! {

/// `c` is one of the characters `0` to `9`.
pub open spec fn is_decimal_digit(c: char) -> bool {
    '0' as u32 <= c as u32 && c as u32 <= '9' as u32
}

/// The number that the decimal digits `digits` spell, the first digit being
/// the most significant one.
pub open spec fn decimal_value(digits: Seq<char>) -> nat
    decreases digits.len(),
{
    if digits.len() == 0 {
        0
    } else {
        decimal_value(digits.drop_last()) * 10 + (digits.last() as u32 - '0' as u32) as nat
    }
}

/// The number that `text` stands for as a `usize`: `text` is an optional `+`
/// followed by one or more decimal digits and nothing else, and the number
/// they spell fits a `usize`.
pub open spec fn parsed_usize(text: Seq<char>) -> Option<usize> {
    let digits = if text.len() > 0 && text[0] == '+' {
        text.drop_first()
    } else {
        text
    };
    if digits.len() > 0 && (forall|i: int| 0 <= i < digits.len() ==> is_decimal_digit(digits[i]))
        && decimal_value(digits) <= usize::MAX {
        Some(decimal_value(digits) as usize)
    } else {
        None
    }
}

/// Calls `str::parse::<usize>` and drops the reason of a failure. The
/// contract restates what the standard library documents for parsing an
/// unsigned integer: an optional `+` sign followed by decimal digits only,
/// with the empty string, a lone sign, any other character and a number too
/// large for the type all being errors.
#[verifier::external_body]
fn parse_usize(text: &str) -> (value: Option<usize>)
    ensures
        value == parsed_usize(text@),
{
    text.parse::<usize>().ok()
}

/// The number of threads that a setting asks for: the number it spells, if
/// it spells one and that is not 0.
pub open spec fn specified_threads(setting: Option<String>) -> Option<usize> {
    match setting {
        Some(text) => match parsed_usize(text@) {
            Some(count) => if count > 0 {
                Some(count)
            } else {
                None
            },
            None => None,
        },
        None => None,
    }
}

/// The number of threads to work with: what the setting asks for, but no
/// more than the machine offers; what the machine offers if the setting asks
/// for nothing; and 4 if neither is known.
pub open spec fn resolved_max_threads(setting: Option<String>, available: Option<usize>) -> usize {
    match (specified_threads(setting), available) {
        (Some(specified), Some(actual)) => if specified > actual {
            actual
        } else {
            specified
        },
        (Some(specified), None) => specified,
        (None, Some(actual)) => actual,
        (None, None) => 4,
    }
}

/// Decides how many threads to work with, from the value of the setting that
/// limits them, if it is set, and the parallelism that the machine offers, if
/// that is known.
pub fn resolve_max_threads(env_var: Option<String>, available_parallelism: Option<usize>) -> (threads:
    usize)
    ensures
        threads == resolved_max_threads(env_var, available_parallelism),
{
    match maybe_specified_threads(env_var) {
        Some(specified_count) => match available_parallelism {
            Some(actual_count) => if specified_count > actual_count {
                actual_count
            } else {
                specified_count
            },
            None => specified_count,
        },
        None => match available_parallelism {
            Some(actual_count) => actual_count,
            None => 4,
        },
    }
}

fn maybe_specified_threads(env_var: Option<String>) -> (count: Option<usize>)
    ensures
        count == specified_threads(env_var),
{
    match env_var {
        Some(text) => match parse_usize(text.as_str()) {
            Some(value) => if value > 0 {
                Some(value)
            } else {
                None
            },
            None => None,
        },
        None => None,
    }
}


/// Whether the value of the setting that marks a continuous integration run
/// says that this is one: it does if the setting is there and reads `true`
/// or `1`.
pub open spec fn is_ci_value(value: Option<String>) -> bool {
    value matches Some(text) && (text@ == "true"@ || text@ == "1"@)
}

/// Decides from the value of the setting, if it is there, whether this is a
/// continuous integration run.
pub fn is_ci(value: Option<String>) -> (ci: bool)
    ensures
        ci == is_ci_value(value),
{
    match value {
        Some(text) => text == String::from_str("true") || text == String::from_str("1"),
        None => false,
    }
}

/// What separates the directories in the system's list of places to look
/// for programs.
pub open spec fn path_list_separator() -> Seq<char> {
    seq![';']
}

/// `entries` without those that equal `entry`.
pub open spec fn without_entry(entries: Seq<Seq<char>>, entry: Seq<char>) -> Seq<Seq<char>>
    decreases entries.len(),
{
    if entries.len() == 0 {
        Seq::empty()
    } else if entries.last() == entry {
        without_entry(entries.drop_last(), entry)
    } else {
        without_entry(entries.drop_last(), entry).push(entries.last())
    }
}

/// Removing an entry shortens a list exactly if the entry is in it.
pub proof fn lemma_without_entry_len(entries: Seq<Seq<char>>, entry: Seq<char>)
    ensures
        without_entry(entries, entry).len() <= entries.len(),
        without_entry(entries, entry).len() == entries.len() <==> !entries.contains(entry),
    decreases entries.len(),
{
    if entries.len() > 0 {
        let shorter = entries.drop_last();
        lemma_without_entry_len(shorter, entry);
        if shorter.contains(entry) {
            let at = choose|i: int| 0 <= i < shorter.len() && shorter[i] == entry;
            assert(entries[at] == entry);
        }
        if entries.contains(entry) && entries.last() != entry {
            let at = choose|i: int| 0 <= i < entries.len() && entries[i] == entry;
            assert(shorter[at] == entry);
        }
        if entries.last() == entry {
            assert(entries[entries.len() - 1] == entry);
        }
    }
}

/// The list of directories `path` with `directory` in it: nothing to change
/// if it is one of the entries already, else `path` with `directory` at its
/// end, behind a separator unless `path` is empty or ends in one.
pub open spec fn system_path_with(path: Seq<char>, directory: Seq<char>) -> Option<Seq<char>> {
    if split(path, path_list_separator()).contains(directory) {
        None
    } else if path.len() > 0 && path.last() != ';' {
        Some(path + path_list_separator() + directory)
    } else {
        Some(path + directory)
    }
}

/// The list of directories `path` without `directory`: nothing to change if
/// it is none of the entries, else the other entries in their order.
pub open spec fn system_path_without(path: Seq<char>, directory: Seq<char>) -> Option<
    Seq<char>,
> {
    let entries = split(path, path_list_separator());
    if entries.contains(directory) {
        Some(joined(without_entry(entries, directory), path_list_separator()))
    } else {
        None
    }
}

/// Makes sure that `directory_path` is in the list of directories `path`.
/// Returns the list to store in its place, or `None` if `path` can stay.
pub fn ensure_system_path(path: String, directory_path: &str) -> (changed: Option<String>)
    ensures
        match changed {
            Some(new_path) => system_path_with(path@, directory_path@) == Some(new_path@),
            None => system_path_with(path@, directory_path@) is None,
        },
{
    proof {
        reveal_strlit(";");
        assert(";"@ == path_list_separator());
    }
    let entries = split_by(path.as_str(), ";");
    let directory = String::from_str(directory_path);
    if contains_text(&entries, &directory) {
        None
    } else {
        let mut path = path;
        let length = path.as_str().unicode_len();
        if length > 0 && path.as_str().get_char(length - 1) != ';' {
            path.append(";");
        }
        path.append(directory_path);
        Some(path)
    }
}

/// Makes sure that `directory_path` is not in the list of directories
/// `path`. Returns the list to store in its place, or `None` if `path` can
/// stay.
pub fn remove_system_path(path: &str, directory_path: &str) -> (changed: Option<String>)
    ensures
        match changed {
            Some(new_path) => system_path_without(path@, directory_path@) == Some(new_path@),
            None => system_path_without(path@, directory_path@) is None,
        },
{
    proof {
        reveal_strlit(";");
        assert(";"@ == path_list_separator());
    }
    let paths = split_by(path, ";");
    let directory = String::from_str(directory_path);
    let mut kept: Vec<String> = Vec::new();
    let mut index: usize = 0;
    while index < paths.len()
        invariant
            index <= paths.len(),
            directory@ == directory_path@,
            texts(kept@) == without_entry(texts(paths@).take(index as int), directory@),
        decreases paths.len() - index,
    {
        let ghost taken = texts(paths@).take(index as int + 1);
        proof {
            assert(taken.drop_last() == texts(paths@).take(index as int));
            assert(taken.last() == paths@[index as int]@);
        }
        if paths[index] != directory {
            let ghost before = texts(kept@);
            kept.push(paths[index].clone());
            assert(texts(kept@) == before.push(paths@[index as int]@));
        }
        index = index + 1;
    }
    proof {
        assert(texts(paths@).take(paths.len() as int) == texts(paths@));
        lemma_without_entry_len(texts(paths@), directory@);
    }
    if kept.len() != paths.len() {
        Some(join_strings(kept.as_slice(), ";"))
    } else {
        None
    }
}

/// Whether a character is white space, as `char::is_whitespace` tells it:
/// whether it has the Unicode property White_Space.
pub uninterp spec fn is_whitespace(c: char) -> bool;

/// Calls `char::is_whitespace`. The contract gives its answer a name and
/// claims nothing else of it: that the answer depends on the character
/// alone.
#[verifier::external_body]
fn char_is_whitespace(c: char) -> (whitespace: bool)
    ensures
        whitespace == is_whitespace(c),
{
    c.is_whitespace()
}

/// `text` holds nothing but white space.
pub open spec fn is_blank(text: Seq<char>) -> bool {
    forall|i: int| 0 <= i < text.len() ==> is_whitespace(#[trigger] text[i])
}

fn text_is_blank(text: &str) -> (blank: bool)
    ensures
        blank == is_blank(text@),
{
    let length = text.unicode_len();
    let mut index: usize = 0;
    while index < length
        invariant
            index <= length,
            length == text@.len(),
            forall|i: int| 0 <= i < index ==> is_whitespace(#[trigger] text@[i]),
        decreases length - index,
    {
        if !char_is_whitespace(text.get_char(index)) {
            return false;
        }
        index = index + 1;
    }
    true
}

/// Why no cache directory could be chosen.
#[derive(Clone, Copy, Debug, PartialEq, Eq, Structural)]
pub enum CacheDirError {
    /// The setting names a directory by a relative path.
    RelativeSetting,
    /// The system names no cache directory.
    NoSystemCacheDir,
}

impl CacheDirError {
    /// The error in words.
    pub fn message(&self) -> (message: String)
        ensures
            message@ == (match *self {
                CacheDirError::RelativeSetting =>
                    "The DPRINT_CACHE_DIR environment variable must specify an absolute path."@,
                CacheDirError::NoSystemCacheDir => "Expected to find cache directory"@,
            }),
    {
        match self {
            CacheDirError::RelativeSetting => String::from_str(
                "The DPRINT_CACHE_DIR environment variable must specify an absolute path.",
            ),
            CacheDirError::NoSystemCacheDir => String::from_str("Expected to find cache directory"),
        }
    }
}

/// Where the cache is kept.
#[derive(Debug)]
pub enum CacheDir {
    /// In the directory that the setting names.
    Setting(String),
    /// In the tool's own directory below the cache directory of the system,
    /// which is given.
    BelowSystemCacheDir(PathBuf),
}

/// Where the cache is kept: in the directory that the setting names, if it
/// names one and that by an absolute path; below the cache directory of the
/// system, if the setting is missing or blank.
pub open spec fn chosen_cache_dir(
    setting: Option<String>,
    setting_is_absolute: bool,
    system_cache_dir: Option<PathBuf>,
) -> Result<CacheDir, CacheDirError> {
    if setting is Some && !is_blank(setting->0@) {
        // A relative path is refused: the directory may be deleted later.
        if setting_is_absolute {
            Ok(CacheDir::Setting(setting->0))
        } else {
            Err(CacheDirError::RelativeSetting)
        }
    } else {
        match system_cache_dir {
            Some(dir) => Ok(CacheDir::BelowSystemCacheDir(dir)),
            None => Err(CacheDirError::NoSystemCacheDir),
        }
    }
}

/// Chooses where the cache is kept, from the value of the setting for it, if
/// it is set, whether that value is an absolute path, and the cache
/// directory of the system, if there is one.
pub fn get_cache_dir_internal(
    setting: Option<String>,
    setting_is_absolute: bool,
    system_cache_dir: Option<PathBuf>,
) -> (chosen: Result<CacheDir, CacheDirError>)
    ensures
        chosen == chosen_cache_dir(setting, setting_is_absolute, system_cache_dir),
{
    if let Some(dir_path) = setting {
        if !text_is_blank(dir_path.as_str()) {
            return if !setting_is_absolute {
                Err(CacheDirError::RelativeSetting)
            } else {
                Ok(CacheDir::Setting(dir_path))
            };
        }
    }
    match system_cache_dir {
        Some(dir) => Ok(CacheDir::BelowSystemCacheDir(dir)),
        None => Err(CacheDirError::NoSystemCacheDir),
    }
}

/// The positions of the items that are marked, in rising order.
pub open spec fn marked_positions(items: Seq<(bool, String)>) -> Seq<usize>
    decreases items.len(),
{
    if items.len() == 0 {
        Seq::empty()
    } else if items.last().0 {
        marked_positions(items.drop_last()).push((items.len() - 1) as usize)
    } else {
        marked_positions(items.drop_last())
    }
}

/// What a multiple choice answers when nobody chooses: the positions of the
/// items that are marked as chosen in advance.
pub fn default_multi_selection(items: &[(bool, String)]) -> (selected: Vec<usize>)
    ensures
        selected@ == marked_positions(items@),
{
    let mut selected: Vec<usize> = Vec::new();
    let mut index: usize = 0;
    while index < items.len()
        invariant
            index <= items.len(),
            selected@ == marked_positions(items@.take(index as int)),
        decreases items.len() - index,
    {
        let ghost taken = items@.take(index as int + 1);
        proof {
            assert(taken.drop_last() == items@.take(index as int));
            assert(taken.last() == items@[index as int]);
        }
        if items[index].0 {
            selected.push(index);
        }
        index = index + 1;
    }
    assert(items@.take(items.len() as int) == items@);
    selected
}

} // verus!
