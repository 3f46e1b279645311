//! Sorting the files to format by the plugins that format them.

use std::path::PathBuf;
use vstd::prelude::*;
use vstd::string::*;
use crate::text::{
    contains_text,
    first_occurrence,
    join_strings,
    joined,
    split,
    split_by,
    texts,
};

verus! {

/// `std::path::PathBuf`. The library passes paths on and never looks into
/// them.
#[verifier::external_type_specification]
#[verifier::external_body]
pub struct ExPathBuf(std::path::PathBuf);

/// The names of the plugins that format a file, as one value that can serve
/// as a key.
#[derive(Debug, Eq, Hash)]
pub struct PluginNames(String);

impl View for PluginNames {
    type V = Seq<char>;

    /// The text of the key.
    closed spec fn view(&self) -> Seq<char> {
        self.0@
    }
}

impl PartialEq for PluginNames {
    fn eq(&self, other: &Self) -> (equal: bool) {
        self.0 == other.0
    }
}

impl vstd::std_specs::cmp::PartialEqSpecImpl for PluginNames {
    open spec fn obeys_eq_spec() -> bool {
        true
    }

    open spec fn eq_spec(&self, other: &Self) -> bool {
        self@ == other@
    }
}

impl PluginNames {
    /// What stands between two names in a key.
    pub open spec fn separator() -> Seq<char> {
        seq!['~', '~']
    }

    /// The key for the plugins called `names`: the names in the given order,
    /// with the separator between them.
    pub fn from_plugin_names(names: &[String]) -> (key: Self)
        ensures
            key@ == joined(texts(names@), Self::separator()),
    {
        proof {
            reveal_strlit("~~");
            assert("~~"@ == Self::separator());
        }
        let text = join_strings(names, "~~");
        PluginNames(text)
    }

    /// The parts of the key between the separators. They are the names that
    /// the key was made of if those can be told apart again, see
    /// `lemma_names_are_recovered`.
    pub fn names(&self) -> (names: Vec<String>)
        ensures
            texts(names@) == split(self@, Self::separator()),
    {
        proof {
            reveal_strlit("~~");
            assert("~~"@ == Self::separator());
        }
        split_by(self.0.as_str(), "~~")
    }
}


/// `name` holds the separator nowhere.
pub open spec fn is_free_of_separator(name: Seq<char>) -> bool {
    forall|i: int| 0 <= i && i + 1 < name.len() ==> !(name[i] == '~' && #[trigger] name[i + 1] == '~')
}

/// `name` does not end in the character that the separator starts with.
pub open spec fn ends_clear_of_separator(name: Seq<char>) -> bool {
    name.len() == 0 || name.last() != '~'
}

/// The names can be told apart again once they are joined: there is at least
/// one, none holds the separator, and none but the last ends in the
/// character that the separator starts with.
pub open spec fn can_be_told_apart(names: Seq<Seq<char>>) -> bool {
    &&& names.len() > 0
    &&& forall|i: int| 0 <= i < names.len() ==> is_free_of_separator(#[trigger] names[i])
    &&& forall|i: int| 0 <= i < names.len() - 1 ==> ends_clear_of_separator(#[trigger] names[i])
}

/// Joining puts the first part in front of the others joined.
proof fn lemma_joined_from_front(parts: Seq<Seq<char>>, separator: Seq<char>)
    requires
        parts.len() >= 2,
    ensures
        joined(parts, separator) == parts[0] + separator + joined(parts.drop_first(), separator),
    decreases parts.len(),
{
    let shorter = parts.drop_last();
    let others = parts.drop_first();
    if parts.len() == 2 {
        assert(shorter.len() == 1);
        assert(shorter[0] == parts[0]);
        assert(joined(shorter, separator) == parts[0]);
        assert(others.len() == 1);
        assert(others[0] == parts.last());
        assert(joined(others, separator) == parts.last());
    } else {
        lemma_joined_from_front(shorter, separator);
        assert(shorter[0] == parts[0]);
        assert(others.drop_last() == shorter.drop_first());
        assert(others.last() == parts.last());
        let middle = joined(shorter.drop_first(), separator);
        assert(joined(others, separator) == middle + separator + parts.last());
        assert(joined(shorter, separator) == parts[0] + separator + middle);
        assert(joined(parts, separator) == (parts[0] + separator + middle) + separator
            + parts.last());
        assert((parts[0] + separator + middle) + separator + parts.last() == parts[0]
            + separator + (middle + separator + parts.last()));
    }
}

/// A name that holds no separator has no occurrence of it.
proof fn lemma_no_separator_no_occurrence(name: Seq<char>)
    requires
        is_free_of_separator(name),
    ensures
        first_occurrence(name, PluginNames::separator()) is None,
    decreases name.len(),
{
    let separator = PluginNames::separator();
    if name.len() >= 2 {
        assert(!(name[0] == '~' && name[0int + 1] == '~'));
        assert(separator[0] == '~' && separator[1] == '~');
        if separator.is_prefix_of(name) {
            assert(name[0] == separator[0]);
            assert(name[1] == separator[1]);
        }
    }
    if name.len() > 0 {
        let rest = name.drop_first();
        assert forall|i: int| 0 <= i && i + 1 < rest.len() implies !(rest[i] == '~'
            && #[trigger] rest[i + 1] == '~') by {
            assert(rest[i] == name[i + 1]);
            assert(rest[i + 1] == name[(i + 1) + 1]);
        }
        lemma_no_separator_no_occurrence(rest);
    }
}

/// The separator behind a name is found first right behind the name.
proof fn lemma_separator_found_behind_name(name: Seq<char>, rest: Seq<char>)
    requires
        is_free_of_separator(name),
        ends_clear_of_separator(name),
    ensures
        first_occurrence(name + PluginNames::separator() + rest, PluginNames::separator())
            == Some(name.len() as int),
    decreases name.len(),
{
    let separator = PluginNames::separator();
    let text = name + separator + rest;
    assert(separator[0] == '~' && separator[1] == '~');
    if name.len() == 0 {
        assert(separator.is_prefix_of(text)) by {
            assert(text.subrange(0, 2) == separator);
        }
    } else {
        assert(!separator.is_prefix_of(text)) by {
            if separator.is_prefix_of(text) {
                assert(text[0] == separator[0]);
                assert(text[1] == separator[1]);
                assert(text[0] == name[0]);
                if name.len() >= 2 {
                    assert(text[1] == name[1]);
                    assert(!(name[0] == '~' && name[0int + 1] == '~'));
                } else {
                    assert(name.last() == name[0]);
                }
            }
        }
        let shorter = name.drop_first();
        assert(text.drop_first() == shorter + separator + rest);
        assert forall|i: int| 0 <= i && i + 1 < shorter.len() implies !(shorter[i] == '~'
            && #[trigger] shorter[i + 1] == '~') by {
            assert(shorter[i] == name[i + 1]);
            assert(shorter[i + 1] == name[(i + 1) + 1]);
        }
        if shorter.len() > 0 {
            assert(shorter.last() == name.last());
        }
        lemma_separator_found_behind_name(shorter, rest);
    }
}

/// Names that can be told apart are what their key splits into: for such
/// names, `names` gives back what `from_plugin_names` was given.
pub proof fn lemma_names_are_recovered(names: Seq<Seq<char>>)
    requires
        can_be_told_apart(names),
    ensures
        split(joined(names, PluginNames::separator()), PluginNames::separator()) == names,
    decreases names.len(),
{
    let separator = PluginNames::separator();
    if names.len() == 1 {
        lemma_no_separator_no_occurrence(names[0]);
        assert(seq![names[0]] == names);
    } else {
        let first = names[0];
        let others = names.drop_first();
        let key = joined(names, separator);
        lemma_joined_from_front(names, separator);
        lemma_separator_found_behind_name(first, joined(others, separator));
        assert(can_be_told_apart(others)) by {
            assert forall|i: int| 0 <= i < others.len() implies is_free_of_separator(
                #[trigger] others[i],
            ) by {
                assert(others[i] == names[i + 1]);
            }
            assert forall|i: int| 0 <= i < others.len() - 1 implies ends_clear_of_separator(
                #[trigger] others[i],
            ) by {
                assert(others[i] == names[i + 1]);
            }
        }
        lemma_names_are_recovered(others);
        assert(key.take(first.len() as int) == first);
        assert(key.skip(first.len() as int + separator.len() as int) == joined(others, separator));
        assert(seq![first] + others == names);
    }
}

/// The key of the group that a file formatted by the plugins `names` goes to.
pub open spec fn group_key(names: Seq<String>) -> Seq<char> {
    joined(texts(names), PluginNames::separator())
}

/// The paths among `files` that go to the group with `key`, in the order of
/// `files`. A file without a plugin goes to no group.
pub open spec fn paths_of_group(files: Seq<(PathBuf, Vec<String>)>, key: Seq<char>) -> Seq<
    PathBuf,
>
    decreases files.len(),
{
    if files.len() == 0 {
        Seq::empty()
    } else {
        let before = paths_of_group(files.drop_last(), key);
        let file = files.last();
        if file.1@.len() > 0 && group_key(file.1@) == key {
            before.push(file.0)
        } else {
            before
        }
    }
}

/// No file goes to a group that none of them names.
proof fn lemma_unnamed_group_is_empty(files: Seq<(PathBuf, Vec<String>)>, key: Seq<char>)
    requires
        forall|i: int|
            0 <= i < files.len() && (#[trigger] files[i]).1@.len() > 0 ==> group_key(files[i].1@)
                != key,
    ensures
        paths_of_group(files, key) == Seq::<PathBuf>::empty(),
    decreases files.len(),
{
    if files.len() > 0 {
        let shorter = files.drop_last();
        assert forall|i: int| 0 <= i < shorter.len() && (#[trigger] shorter[i]).1@.len() > 0
            implies group_key(shorter[i].1@) != key by {
            assert(shorter[i] == files[i]);
        }
        lemma_unnamed_group_is_empty(shorter, key);
        assert(files.last() == files[files.len() - 1]);
    }
}

/// Nothing to format was found under `base_path`.
#[derive(Debug)]
pub struct NoFilesFoundError {
    pub base_path: PathBuf,
}

/// Calls `PathBuf::clone`, which gives an equal path.
#[verifier::external_body]
fn clone_path(path: &PathBuf) -> (copy: PathBuf)
    ensures
        copy == *path,
{
    path.clone()
}

/// The files to format, sorted into groups by the plugins that format them.
pub struct FilesPathsByPlugins(Vec<(PluginNames, Vec<PathBuf>)>);

impl View for FilesPathsByPlugins {
    type V = Seq<(Seq<char>, Seq<PathBuf>)>;

    /// The groups: each a key and the paths of its files.
    closed spec fn view(&self) -> Seq<(Seq<char>, Seq<PathBuf>)> {
        groups_view(self.0@)
    }
}

/// Each group as its key text and its paths.
pub open spec fn groups_view(groups: Seq<(PluginNames, Vec<PathBuf>)>) -> Seq<
    (Seq<char>, Seq<PathBuf>),
> {
    groups.map_values(|group: (PluginNames, Vec<PathBuf>)| (group.0@, group.1@))
}

/// The paths of all `groups`, one group after the other.
pub open spec fn all_paths(groups: Seq<(Seq<char>, Seq<PathBuf>)>) -> Seq<PathBuf>
    decreases groups.len(),
{
    if groups.len() == 0 {
        Seq::empty()
    } else {
        all_paths(groups.drop_last()) + groups.last().1
    }
}

/// No two of `groups` have the same key.
pub open spec fn keys_differ(groups: Seq<(Seq<char>, Seq<PathBuf>)>) -> bool {
    forall|i: int, j: int|
        0 <= i < j < groups.len() ==> (#[trigger] groups[i]).0 != (#[trigger] groups[j]).0
}

/// `groups` is `files` sorted by key: every group holds the files that go to
/// its key, all of them and in their order, and is not empty; and every file
/// that has a plugin has its group.
pub open spec fn sorts(
    groups: Seq<(Seq<char>, Seq<PathBuf>)>,
    files: Seq<(PathBuf, Vec<String>)>,
) -> bool {
    &&& keys_differ(groups)
    &&& forall|g: int|
        0 <= g < groups.len() ==> (#[trigger] groups[g]).1 == paths_of_group(files, groups[g].0)
            && groups[g].1.len() > 0
    &&& forall|i: int|
        0 <= i < files.len() && (#[trigger] files[i]).1@.len() > 0 ==> exists|g: int|
            0 <= g < groups.len() && (#[trigger] groups[g]).0 == group_key(files[i].1@)
}

impl FilesPathsByPlugins {
    /// No two groups have the same key.
    pub open spec fn wf(&self) -> bool {
        keys_differ(self@)
    }

    /// Fails with the place that was searched if there is no file at all.
    pub fn ensure_not_empty(&self, base_path: &PathBuf) -> (found: Result<(), NoFilesFoundError>)
        ensures
            match found {
                Ok(_) => self@.len() > 0,
                Err(error) => self@.len() == 0 && error.base_path == *base_path,
            },
    {
        if self.is_empty() {
            Err(NoFilesFoundError { base_path: clone_path(base_path) })
        } else {
            Ok(())
        }
    }

    /// There is no group.
    pub fn is_empty(&self) -> (empty: bool)
        ensures
            empty == (self@.len() == 0),
    {
        self.0.is_empty()
    }

    /// The groups, each with its key and its paths.
    pub fn into_vec(self) -> (groups: Vec<(PluginNames, Vec<PathBuf>)>)
        ensures
            groups_view(groups@) == self@,
    {
        self.0
    }

    /// The paths of all groups, one group after the other.
    pub fn all_file_paths(&self) -> (paths: Vec<&PathBuf>)
        ensures
            paths@.map_values(|path: &PathBuf| *path) == all_paths(self@),
    {
        let mut paths: Vec<&PathBuf> = Vec::new();
        let mut group: usize = 0;
        while group < self.0.len()
            invariant
                group <= self.0.len(),
                paths@.map_values(|path: &PathBuf| *path) == all_paths(
                    self@.take(group as int),
                ),
            decreases self.0.len() - group,
        {
            let ghost before = paths@.map_values(|path: &PathBuf| *path);
            let files = &self.0[group].1;
            let mut file: usize = 0;
            while file < files.len()
                invariant
                    file <= files.len(),
                    paths@.map_values(|path: &PathBuf| *path) == before + files@.take(
                        file as int,
                    ),
                decreases files.len() - file,
            {
                let ghost collected = paths@;
                paths.push(&files[file]);
                proof {
                    assert(files@.take(file as int + 1) == files@.take(file as int).push(
                        files@[file as int],
                    ));
                    assert(paths@.map_values(|path: &PathBuf| *path) == collected.map_values(
                        |path: &PathBuf| *path,
                    ).push(files@[file as int]));
                }
                file = file + 1;
            }
            proof {
                assert(files@.take(files.len() as int) == files@);
                let taken = self@.take(group as int + 1);
                assert(taken.drop_last() == self@.take(group as int));
                assert(taken.last().1 == files@);
            }
            group = group + 1;
        }
        assert(self@.take(self.0.len() as int) == self@);
        paths
    }
}

/// Puts one more file into `groups`, which hold the files `sorted` so far.
fn add_file(
    groups: &mut Vec<(PluginNames, Vec<PathBuf>)>,
    file_path: PathBuf,
    plugin_names: Vec<String>,
    Ghost(sorted): Ghost<Seq<(PathBuf, Vec<String>)>>,
)
    requires
        sorts(groups_view(old(groups)@), sorted),
    ensures
        sorts(groups_view(final(groups)@), sorted.push((file_path, plugin_names))),
{
    let ghost grown = sorted.push((file_path, plugin_names));
    let ghost old_groups = groups_view(groups@);
    proof {
        assert(grown.drop_last() == sorted);
        assert(grown.last() == (file_path, plugin_names));
        assert forall|i: int| 0 <= i < sorted.len() implies grown[i] == sorted[i] by {}
    }
    if plugin_names.is_empty() {
        proof {
            assert forall|i: int|
                0 <= i < grown.len() && (#[trigger] grown[i]).1@.len() > 0 implies exists|g: int|
                0 <= g < old_groups.len() && (#[trigger] old_groups[g]).0 == group_key(
                    grown[i].1@,
                ) by {
                assert(grown[i] == sorted[i]);
            }
        }
        return ;
    }
    let plugin_names_key = PluginNames::from_plugin_names(plugin_names.as_slice());
    let ghost key = plugin_names_key@;
    let mut found: Option<usize> = None;
    let mut group: usize = 0;
    while group < groups.len()
        invariant_except_break
            group <= groups.len(),
            found is None,
            forall|g: int| 0 <= g < group ==> (#[trigger] groups@[g]).0@ != key,
        invariant
            key == plugin_names_key@,
        ensures
            found matches Some(at) ==> at < groups.len() && groups@[at as int].0@ == key,
            found is None ==> forall|g: int|
                0 <= g < groups.len() ==> (#[trigger] groups@[g]).0@ != key,
        decreases groups.len() - group,
    {
        if groups[group].0.0 == plugin_names_key.0 {
            found = Some(group);
            break ;
        }
        group = group + 1;
    }
    match found {
        Some(at) => {
            groups[at].1.push(file_path);
            proof {
                let new_groups = groups_view(groups@);
                assert(new_groups.len() == old_groups.len());
                assert forall|g: int| 0 <= g < new_groups.len() implies (
                #[trigger] new_groups[g]).0 == old_groups[g].0 by {}
                assert forall|g: int| 0 <= g < new_groups.len() implies (
                #[trigger] new_groups[g]).1 == paths_of_group(grown, new_groups[g].0)
                    && new_groups[g].1.len() > 0 by {
                    assert(old_groups[g].1 == paths_of_group(sorted, old_groups[g].0));
                    if g < at {
                        assert(old_groups[g].0 != old_groups[at as int].0);
                    } else if g > at {
                        assert(old_groups[at as int].0 != old_groups[g].0);
                    }
                }
                assert forall|i: int|
                    0 <= i < grown.len() && (#[trigger] grown[i]).1@.len()
                        > 0 implies exists|g: int|
                    0 <= g < new_groups.len() && (#[trigger] new_groups[g]).0 == group_key(
                        grown[i].1@,
                    ) by {
                    if i < sorted.len() {
                        assert(grown[i] == sorted[i]);
                        let g = choose|g: int|
                            0 <= g < old_groups.len() && (#[trigger] old_groups[g]).0
                                == group_key(sorted[i].1@);
                        assert(new_groups[g].0 == group_key(grown[i].1@));
                    } else {
                        assert(new_groups[at as int].0 == key);
                    }
                }
                assert forall|i: int, j: int| 0 <= i < j < new_groups.len() implies (
                #[trigger] new_groups[i]).0 != (#[trigger] new_groups[j]).0 by {
                    assert(old_groups[i].0 != old_groups[j].0);
                }
            }
        },
        None => {
            let mut paths: Vec<PathBuf> = Vec::new();
            paths.push(file_path);
            groups.push((plugin_names_key, paths));
            proof {
                let new_groups = groups_view(groups@);
                assert(new_groups == old_groups.push((key, seq![file_path])));
                assert forall|g: int| 0 <= g < old_groups.len() implies (
                #[trigger] old_groups[g]).0 != key by {
                    assert(old(groups)@[g].0@ != key);
                }
                assert forall|i: int|
                    0 <= i < sorted.len() && (#[trigger] sorted[i]).1@.len()
                        > 0 implies group_key(sorted[i].1@) != key by {
                    let g = choose|g: int|
                        0 <= g < old_groups.len() && (#[trigger] old_groups[g]).0 == group_key(
                            sorted[i].1@,
                        );
                    assert(old_groups[g].0 != key);
                }
                lemma_unnamed_group_is_empty(sorted, key);
                assert(paths_of_group(grown, key) == seq![file_path]);
                assert forall|g: int| 0 <= g < new_groups.len() implies (
                #[trigger] new_groups[g]).1 == paths_of_group(grown, new_groups[g].0)
                    && new_groups[g].1.len() > 0 by {
                    if g < old_groups.len() {
                        assert(new_groups[g] == old_groups[g]);
                        assert(old_groups[g].0 != key);
                    }
                }
                assert forall|i: int|
                    0 <= i < grown.len() && (#[trigger] grown[i]).1@.len()
                        > 0 implies exists|g: int|
                    0 <= g < new_groups.len() && (#[trigger] new_groups[g]).0 == group_key(
                        grown[i].1@,
                    ) by {
                    if i < sorted.len() {
                        assert(grown[i] == sorted[i]);
                        let g = choose|g: int|
                            0 <= g < old_groups.len() && (#[trigger] old_groups[g]).0
                                == group_key(sorted[i].1@);
                        assert(new_groups[g].0 == group_key(grown[i].1@));
                    } else {
                        assert(new_groups[old_groups.len() as int].0 == key);
                    }
                }
                assert forall|i: int, j: int| 0 <= i < j < new_groups.len() implies (
                #[trigger] new_groups[i]).0 != (#[trigger] new_groups[j]).0 by {
                    if j < old_groups.len() {
                        assert(old_groups[i].0 != old_groups[j].0);
                    } else {
                        assert(old_groups[i].0 != key);
                    }
                }
            }
        },
    }
}

/// Sorts files into groups by the plugins that format them. Each file comes
/// with the names of its plugins; a file without a plugin is left out. The
/// files of a group keep their order; the order of the groups is not
/// promised.
pub fn get_file_paths_by_plugins(file_paths: Vec<(PathBuf, Vec<String>)>) -> (by_plugins:
    FilesPathsByPlugins)
    ensures
        by_plugins.wf(),
        sorts(by_plugins@, file_paths@),
{
    let ghost files = file_paths@;
    let mut groups: Vec<(PluginNames, Vec<PathBuf>)> = Vec::new();
    for entry in iter: file_paths.into_iter()
        invariant
            iter.seq() == files,
            sorts(groups_view(groups@), files.take(iter.index())),
    {
        let ghost sorted = files.take(iter.index());
        proof {
            assert(files.take(iter.index() + 1) == sorted.push(entry));
        }
        add_file(&mut groups, entry.0, entry.1, Ghost(sorted));
    }
    assert(files.take(files.len() as int) == files);
    FilesPathsByPlugins(groups)
}


/// What a plugin tells about the files it formats.
pub struct PluginPatterns {
    /// The patterns that the configuration associates with the plugin,
    /// without those that exclude files.
    pub positive_associations: Vec<String>,
    /// The file names that the plugin formats by itself.
    pub file_names: Vec<String>,
    /// The file extensions that the plugin formats by itself.
    pub file_extensions: Vec<String>,
}

impl PluginPatterns {
    /// The plugin is matched by what it says of itself: the configuration
    /// associates no pattern with it.
    pub open spec fn matches_by_itself(&self) -> bool {
        self.positive_associations@.len() == 0
    }
}

/// The patterns that the configuration associates with `plugins`, plugin
/// after plugin.
pub open spec fn association_globs(plugins: Seq<PluginPatterns>) -> Seq<Seq<char>>
    decreases plugins.len(),
{
    if plugins.len() == 0 {
        Seq::empty()
    } else {
        association_globs(plugins.drop_last()) + texts(plugins.last().positive_associations@)
    }
}

/// The file names of those of `plugins` that are matched by themselves.
pub open spec fn own_file_names(plugins: Seq<PluginPatterns>) -> Seq<Seq<char>>
    decreases plugins.len(),
{
    if plugins.len() == 0 {
        Seq::empty()
    } else if plugins.last().matches_by_itself() {
        own_file_names(plugins.drop_last()) + texts(plugins.last().file_names@)
    } else {
        own_file_names(plugins.drop_last())
    }
}

/// The file extensions of those of `plugins` that are matched by themselves.
pub open spec fn own_file_extensions(plugins: Seq<PluginPatterns>) -> Seq<Seq<char>>
    decreases plugins.len(),
{
    if plugins.len() == 0 {
        Seq::empty()
    } else if plugins.last().matches_by_itself() {
        own_file_extensions(plugins.drop_last()) + texts(plugins.last().file_extensions@)
    } else {
        own_file_extensions(plugins.drop_last())
    }
}

/// `items` with each text kept where it first stands.
pub open spec fn without_repeats(items: Seq<Seq<char>>) -> Seq<Seq<char>>
    decreases items.len(),
{
    if items.len() == 0 {
        Seq::empty()
    } else {
        let before = without_repeats(items.drop_last());
        if before.contains(items.last()) {
            before
        } else {
            before.push(items.last())
        }
    }
}

/// The pattern for files with one of `alternatives` behind `prefix`, or
/// nothing if there is no alternative.
pub open spec fn alternatives_glob(prefix: Seq<char>, alternatives: Seq<Seq<char>>) -> Seq<
    Seq<char>,
> {
    if alternatives.len() > 0 {
        seq![prefix + joined(alternatives, ","@) + "}"@]
    } else {
        Seq::empty()
    }
}

/// The patterns that find the files of `plugins`: one for all the file
/// extensions and one for all the file names of the plugins that are matched
/// by themselves, each extension and name once, and then the patterns that
/// the configuration associates with the others.
pub open spec fn plugin_patterns(plugins: Seq<PluginPatterns>) -> Seq<Seq<char>> {
    alternatives_glob("**/*.{"@, without_repeats(own_file_extensions(plugins)))
        + alternatives_glob("**/{"@, without_repeats(own_file_names(plugins)))
        + association_globs(plugins)
}

/// Adds those of `more` to `kept` that are not in it yet.
fn extend_without_repeats(kept: &mut Vec<String>, more: &Vec<String>, Ghost(seen): Ghost<
    Seq<Seq<char>>,
>)
    requires
        texts(old(kept)@) == without_repeats(seen),
    ensures
        texts(final(kept)@) == without_repeats(seen + texts(more@)),
{
    let mut index: usize = 0;
    assert(seen + texts(more@).take(0) == seen);
    while index < more.len()
        invariant
            index <= more.len(),
            texts(kept@) == without_repeats(seen + texts(more@).take(index as int)),
        decreases more.len() - index,
    {
        let ghost grown = seen + texts(more@).take(index as int + 1);
        proof {
            assert(grown.drop_last() == seen + texts(more@).take(index as int));
            assert(grown.last() == more@[index as int]@);
        }
        if !contains_text(kept, &more[index]) {
            let ghost before = texts(kept@);
            kept.push(more[index].clone());
            assert(texts(kept@) == before.push(more@[index as int]@));
        }
        index = index + 1;
    }
    assert(texts(more@).take(more.len() as int) == texts(more@));
}

/// Adds the pattern for `alternatives` behind `prefix` to `patterns`, if
/// there is an alternative.
fn push_alternatives_glob(patterns: &mut Vec<String>, prefix: &str, alternatives: &Vec<String>)
    ensures
        texts(final(patterns)@) == texts(old(patterns)@) + alternatives_glob(
            prefix@,
            texts(alternatives@),
        ),
{
    if !alternatives.is_empty() {
        let ghost before = texts(patterns@);
        let list = join_strings(alternatives.as_slice(), ",");
        let mut pattern = String::from_str(prefix);
        pattern.append(list.as_str());
        pattern.append("}");
        patterns.push(pattern);
        assert(texts(patterns@) == before.push(pattern@));
        assert(before.push(pattern@) == before + seq![pattern@]);
    } else {
        assert(texts(patterns@) + Seq::<Seq<char>>::empty() == texts(patterns@));
    }
}

/// The patterns by which to look for the files that `plugins` format. With
/// them the search visits far fewer files than it would without.
pub fn get_plugin_patterns(plugins: &[PluginPatterns]) -> (patterns: Vec<String>)
    ensures
        texts(patterns@) == plugin_patterns(plugins@),
{
    let mut file_names: Vec<String> = Vec::new();
    let mut file_exts: Vec<String> = Vec::new();
    let mut association_globs: Vec<String> = Vec::new();
    let mut index: usize = 0;
    while index < plugins.len()
        invariant
            index <= plugins.len(),
            texts(file_names@) == without_repeats(own_file_names(plugins@.take(index as int))),
            texts(file_exts@) == without_repeats(
                own_file_extensions(plugins@.take(index as int)),
            ),
            texts(association_globs@) == self::association_globs(plugins@.take(index as int)),
        decreases plugins.len() - index,
    {
        let plugin = &plugins[index];
        let ghost before = plugins@.take(index as int);
        let ghost grown = plugins@.take(index as int + 1);
        proof {
            assert(grown.drop_last() == before);
            assert(grown.last() == *plugin);
        }
        if !plugin.positive_associations.is_empty() {
            let mut association: usize = 0;
            let ghost globs_before = texts(association_globs@);
            assert(texts(plugin.positive_associations@).take(0) == Seq::<Seq<char>>::empty());
            while association < plugin.positive_associations.len()
                invariant
                    association <= plugin.positive_associations.len(),
                    texts(association_globs@) == globs_before + texts(
                        plugin.positive_associations@,
                    ).take(association as int),
                decreases plugin.positive_associations.len() - association,
            {
                let ghost collected = texts(association_globs@);
                association_globs.push(plugin.positive_associations[association].clone());
                proof {
                    assert(texts(association_globs@) == collected.push(
                        plugin.positive_associations@[association as int]@,
                    ));
                    assert(texts(plugin.positive_associations@).take(association as int + 1)
                        == texts(plugin.positive_associations@).take(association as int).push(
                        plugin.positive_associations@[association as int]@,
                    ));
                }
                association = association + 1;
            }
            assert(texts(plugin.positive_associations@).take(
                plugin.positive_associations.len() as int,
            ) == texts(plugin.positive_associations@));
        } else {
            extend_without_repeats(
                &mut file_names,
                &plugin.file_names,
                Ghost(own_file_names(before)),
            );
            extend_without_repeats(
                &mut file_exts,
                &plugin.file_extensions,
                Ghost(own_file_extensions(before)),
            );
            assert(texts(association_globs@) + texts(plugin.positive_associations@) == texts(
                association_globs@,
            ));
        }
        index = index + 1;
    }
    assert(plugins@.take(plugins.len() as int) == plugins@);
    let mut result: Vec<String> = Vec::new();
    assert(texts(result@) == Seq::<Seq<char>>::empty());
    push_alternatives_glob(&mut result, "**/*.{", &file_exts);
    push_alternatives_glob(&mut result, "**/{", &file_names);
    // The associations come last: they are the least likely to match.
    let ghost globs = texts(result@);
    let mut association: usize = 0;
    assert(texts(association_globs@).take(0) == Seq::<Seq<char>>::empty());
    while association < association_globs.len()
        invariant
            association <= association_globs.len(),
            texts(result@) == globs + texts(association_globs@).take(association as int),
        decreases association_globs.len() - association,
    {
        let ghost collected = texts(result@);
        result.push(association_globs[association].clone());
        proof {
            assert(texts(result@) == collected.push(association_globs@[association as int]@));
            assert(texts(association_globs@).take(association as int + 1) == texts(
                association_globs@,
            ).take(association as int).push(association_globs@[association as int]@));
        }
        association = association + 1;
    }
    assert(texts(association_globs@).take(association_globs.len() as int) == texts(
        association_globs@,
    ));
    result
}

} // verus!
