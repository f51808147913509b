//! Which files are eligible for cleaning.

use crate::config::Config;
use crate::outside::{
    ancestors_of, file_name_of, glob_compile, glob_match, path_ancestors, path_file_name, text_of,
    texts,
};
use crate::ports::fs::{metadata_had, FileSystem, FsError, FsMetadata};
use crate::strings::str_eq;
use std::sync::Arc;
use vstd::prelude::*;

verus! {

/// Picks, among the entries of a directory tree, the files to clean.
pub struct FileWalker<'a, F: FileSystem> {
    config: Arc<Config>,
    fs: &'a F,
}

/// Whether `pattern` is a well-formed glob pattern that matches `text`. A
/// malformed pattern matches nothing.
pub open spec fn glob_hit(pattern: Seq<char>, text: Seq<char>) -> bool {
    glob_compile(pattern) matches Some(compiled) && glob_match(compiled, text)
}

/// Whether one of `patterns` matches `text`.
pub open spec fn any_glob_hit(patterns: Seq<Seq<char>>, text: Seq<char>) -> bool {
    exists|i: int| 0 <= i < patterns.len() && glob_hit(#[trigger] patterns[i], text)
}

/// Whether `pattern` ends in `/**`: it then stands for a directory, by name,
/// and all that is below it.
pub open spec fn is_tree_pattern(pattern: Seq<char>) -> bool {
    let n = pattern.len() as int;
    n >= 3 && pattern[n - 3] == '/' && pattern[n - 2] == '*' && pattern[n - 1] == '*'
}

/// What stands before the `/**` of a tree pattern.
pub open spec fn tree_name_pattern(pattern: Seq<char>) -> Seq<char> {
    pattern.take(pattern.len() - 3)
}

/// Whether `pattern` is a tree pattern whose name part matches the own name
/// of the directory at `directory`.
pub open spec fn names_tree(pattern: Seq<char>, directory: Seq<char>) -> bool {
    &&& is_tree_pattern(pattern)
    &&& path_file_name(directory) matches Some(name)
    &&& glob_hit(tree_name_pattern(pattern), name)
}

/// Whether `pattern` excludes `path` for `ancestor`, one of the ancestors
/// that `std` lists for the path, the path itself among them: the pattern
/// matches the ancestor's path; or the ancestor is a directory above the
/// path, not the path itself, and the pattern names its tree. A file is not
/// excluded for its own name: `build/**` excludes what lies in a directory
/// `build`, not a file that is called `build`.
pub open spec fn excludes_ancestor(pattern: Seq<char>, path: Seq<char>, ancestor: Seq<char>)
    -> bool {
    ||| glob_hit(pattern, ancestor)
    ||| ancestor != path && names_tree(pattern, ancestor)
}

/// Whether `pattern` excludes `path`: it matches the path, or it excludes the
/// path for one of its ancestors.
pub open spec fn excludes_path(pattern: Seq<char>, path: Seq<char>) -> bool {
    ||| glob_hit(pattern, path)
    ||| exists|j: int|
        0 <= j < path_ancestors(path).len() && excludes_ancestor(
            pattern,
            path,
            #[trigger] path_ancestors(path)[j],
        )
}

/// Whether one of `patterns` excludes `path`.
pub open spec fn path_excluded(patterns: Seq<Seq<char>>, path: Seq<char>) -> bool {
    exists|i: int| 0 <= i < patterns.len() && excludes_path(#[trigger] patterns[i], path)
}

/// Whether one of `patterns` matches the file name of `path`.
pub open spec fn name_excluded(patterns: Seq<Seq<char>>, path: Seq<char>) -> bool {
    path_file_name(path) matches Some(name) && any_glob_hit(patterns, name)
}

/// Whether the patterns of `config` exclude `path`: by its path, by its file
/// name, or as binary by its file name.
pub open spec fn excluded(config: Config, path: Seq<char>) -> bool {
    ||| path_excluded(texts(config.exclude_paths@), path)
    ||| name_excluded(texts(config.exclude_files@), path)
    ||| name_excluded(texts(config.exclude_binary_extensions@), path)
}

/// Whether a file may be cleaned for its size: its metadata could be had, and
/// it is no longer than `config` allows.
pub open spec fn size_allowed(config: Config, metadata: Option<FsMetadata>) -> bool {
    metadata matches Some(m) && m.len <= config.processing.max_file_size
}

/// Whether the file system may let the file at `path` pass for its size, or
/// not: it is asked for the metadata, gives an answer that it may give, and
/// the file passes just where that answer allows its size.
pub open spec fn may_pass_size<F: FileSystem>(config: Config, fs: F, path: Seq<char>, pass: bool)
    -> bool {
    exists|metadata: Option<FsMetadata>|
        #[trigger] fs.may_tell_metadata(path, metadata) && pass == size_allowed(config, metadata)
}

/// Whether the file at `path` may be chosen for cleaning, or not: a file that
/// a pattern excludes is not, and the file system is not asked; another is
/// chosen just where it passes for its size.
pub open spec fn may_choose<F: FileSystem>(config: Config, fs: F, path: Seq<char>, yes: bool)
    -> bool {
    if excluded(config, path) {
        !yes
    } else {
        may_pass_size(config, fs, path, yes)
    }
}

/// Whether an entry that is no directory may be taken, or not: the file
/// system is asked whether it is a symbolic link; a link is not taken, and
/// another entry just where it may be chosen.
pub open spec fn may_take_file<F: FileSystem>(config: Config, fs: F, path: Seq<char>, take: bool)
    -> bool {
    exists|link: bool|
        #[trigger] fs.may_tell_symlink(path, link) && if link {
            !take
        } else {
            may_choose(config, fs, path, take)
        }
}

/// Whether an entry of a walk may be taken, or not: the file system is
/// asked whether it is a directory; a directory is not taken, and another
/// entry just where `may_take_file` says.
pub open spec fn may_take<F: FileSystem>(config: Config, fs: F, path: Seq<char>, take: bool)
    -> bool {
    exists|dir: bool|
        #[trigger] fs.may_tell_dir(path, dir) && if dir {
            !take
        } else {
            may_take_file(config, fs, path, take)
        }
}

/// Those of `items` whose flag is set, in their order.
pub open spec fn chosen(items: Seq<Seq<char>>, flags: Seq<bool>) -> Seq<Seq<char>>
    decreases items.len(),
{
    if items.len() == 0 || flags.len() != items.len() {
        Seq::empty()
    } else if flags.last() {
        chosen(items.drop_last(), flags.drop_last()).push(items.last())
    } else {
        chosen(items.drop_last(), flags.drop_last())
    }
}

/// Whether `files` may be what is collected from `entries`: each entry is
/// taken or not as the file system may have it, and the files are the
/// taken entries, in their order.
pub open spec fn may_collect<F: FileSystem>(
    config: Config,
    fs: F,
    entries: Seq<Seq<char>>,
    files: Seq<Seq<char>>,
) -> bool {
    exists|taken: Seq<bool>| #[trigger]
        takes(config, fs, entries, taken) && files == chosen(entries, taken)
}

/// Whether `taken` tells, for each of `entries`, whether it may be
/// taken.
pub open spec fn takes<F: FileSystem>(
    config: Config,
    fs: F,
    entries: Seq<Seq<char>>,
    taken: Seq<bool>,
) -> bool {
    &&& taken.len() == entries.len()
    &&& forall|i: int|
        0 <= i < entries.len() ==> may_take(config, fs, #[trigger] entries[i], taken[i])
}

/// Whether `files` holds some of `entries`, in the order in which they stand
/// there, none twice.
pub open spec fn picked_in_order(files: Seq<Seq<char>>, entries: Seq<Seq<char>>) -> bool {
    exists|picks: Seq<int>| picks_in_order(picks, files, entries)
}

/// Whether `picks` gives, for each of `files`, its place among `entries`, the
/// places ascending.
pub open spec fn picks_in_order(picks: Seq<int>, files: Seq<Seq<char>>, entries: Seq<Seq<char>>)
    -> bool {
    &&& picks.len() == files.len()
    &&& forall|k: int|
        0 <= k < picks.len() ==> 0 <= #[trigger] picks[k] < entries.len() && files[k]
            == entries[picks[k]]
    &&& forall|a: int, b: int| 0 <= a < b < picks.len() ==> picks[a] < picks[b]
}

/// Tells whether `pattern` is a well-formed glob pattern that matches `text`.
pub fn glob_matches(pattern: &str, text: &str) -> (hit: bool)
    ensures
        hit == glob_hit(pattern@, text@),
{
    match glob::Pattern::new(pattern) {
        Ok(compiled) => compiled.matches(text),
        Err(_) => false,
    }
}

/// Tells whether one of `patterns` matches `text`.
pub fn any_glob_matches(patterns: &Vec<String>, text: &str) -> (hit: bool)
    ensures
        hit == any_glob_hit(texts(patterns@), text@),
{
    let mut i: usize = 0;
    while i < patterns.len()
        invariant
            i <= patterns.len(),
            forall|k: int| 0 <= k < i ==> !glob_hit(#[trigger] texts(patterns@)[k], text@),
        decreases patterns.len() - i,
    {
        if glob_matches(patterns[i].as_str(), text) {
            assert(glob_hit(texts(patterns@)[i as int], text@));
            return true;
        }
        i = i + 1;
    }
    false
}

/// The name part of a tree pattern; nothing for another pattern.
fn tree_name_of(pattern: &str) -> (name: Option<&str>)
    ensures
        name is Some <==> is_tree_pattern(pattern@),
        name matches Some(n) ==> n@ == tree_name_pattern(pattern@),
{
    let n = pattern.unicode_len();
    if n >= 3 && pattern.get_char(n - 3) == '/' && pattern.get_char(n - 2) == '*'
        && pattern.get_char(n - 1) == '*' {
        Some(pattern.substring_char(0, n - 3))
    } else {
        None
    }
}

/// Tells whether `pattern` excludes `path`, whose ancestors are `ancestors`.
fn pattern_excludes(pattern: &str, path: &str, ancestors: &Vec<String>) -> (hit: bool)
    requires
        texts(ancestors@) == path_ancestors(path@),
    ensures
        hit == excludes_path(pattern@, path@),
{
    if glob_matches(pattern, path) {
        return true;
    }
    let tree_name = tree_name_of(pattern);
    let mut j: usize = 0;
    while j < ancestors.len()
        invariant
            j <= ancestors.len(),
            texts(ancestors@) == path_ancestors(path@),
            tree_name is Some <==> is_tree_pattern(pattern@),
            tree_name matches Some(n) ==> n@ == tree_name_pattern(pattern@),
            forall|k: int|
                0 <= k < j ==> !excludes_ancestor(
                    pattern@,
                    path@,
                    #[trigger] path_ancestors(path@)[k],
                ),
        decreases ancestors.len() - j,
    {
        let ancestor = ancestors[j].as_str();
        assert(ancestor@ == path_ancestors(path@)[j as int]) by {
            assert(texts(ancestors@)[j as int] == ancestors@[j as int]@);
        }
        if glob_matches(pattern, ancestor) {
            return true;
        }
        if let Some(name_pattern) = tree_name {
            if !str_eq(ancestor, path) {
                if let Some(name) = file_name_of(ancestor) {
                    if glob_matches(name_pattern, name.as_str()) {
                        return true;
                    }
                }
            }
        }
        j = j + 1;
    }
    assert(texts(ancestors@).len() == ancestors@.len());
    false
}

impl<'a, F: FileSystem> FileWalker<'a, F> {
    /// The configuration that the walker goes by.
    pub closed spec fn config(&self) -> Config {
        *self.config
    }

    /// The file system that the walker asks.
    pub closed spec fn fs(&self) -> F {
        *self.fs
    }

    /// A walker that goes by `config` and asks `fs`.
    pub fn new(config: Arc<Config>, fs: &'a F) -> (walker: Self)
        ensures
            walker.config() == *config,
            walker.fs() == *fs,
    {
        FileWalker { config, fs }
    }

    /// Tells whether a pattern for paths excludes `path`.
    pub fn is_excluded_path(&self, path: &str) -> (hit: bool)
        ensures
            hit == path_excluded(texts(self.config().exclude_paths@), path@),
    {
        let ancestors = ancestors_of(path);
        let patterns = &self.config.exclude_paths;
        let mut i: usize = 0;
        while i < patterns.len()
            invariant
                i <= patterns.len(),
                patterns == &self.config().exclude_paths,
                texts(ancestors@) == path_ancestors(path@),
                forall|k: int|
                    0 <= k < i ==> !excludes_path(#[trigger] texts(patterns@)[k], path@),
            decreases patterns.len() - i,
        {
            if pattern_excludes(patterns[i].as_str(), path, &ancestors) {
                assert(excludes_path(texts(patterns@)[i as int], path@));
                return true;
            }
            i = i + 1;
        }
        false
    }

    /// Tells whether a pattern for file names excludes `path`.
    pub fn is_excluded_file(&self, path: &str) -> (hit: bool)
        ensures
            hit == name_excluded(texts(self.config().exclude_files@), path@),
    {
        match file_name_of(path) {
            Some(name) => any_glob_matches(&self.config.exclude_files, name.as_str()),
            None => false,
        }
    }

    /// Tells whether the file name of `path` marks the file as binary.
    pub fn has_binary_extension(&self, path: &str) -> (hit: bool)
        ensures
            hit == name_excluded(texts(self.config().exclude_binary_extensions@), path@),
    {
        match file_name_of(path) {
            Some(name) => any_glob_matches(&self.config.exclude_binary_extensions, name.as_str()),
            None => false,
        }
    }

    /// Tells whether the patterns of the configuration exclude `path`.
    pub fn is_excluded(&self, path: &str) -> (hit: bool)
        ensures
            hit == excluded(self.config(), path@),
    {
        self.is_excluded_path(path) || self.is_excluded_file(path) || self.has_binary_extension(
            path,
        )
    }

    /// Tells whether a file may be cleaned for its size, from what the file
    /// system answered when asked for its metadata.
    pub fn size_allows(&self, answer: &Result<FsMetadata, FsError>) -> (allowed: bool)
        ensures
            allowed == size_allowed(self.config(), metadata_had(*answer)),
    {
        match answer {
            Ok(metadata) => metadata.len <= self.config.processing.max_file_size,
            Err(_) => false,
        }
    }

    /// Tells whether the file at `path` is to be cleaned: no pattern excludes
    /// it, and its metadata can be had and shows it to be no longer than
    /// allowed. A file that a pattern excludes is refused without asking the
    /// file system.
    pub fn should_process_file(&self, path: &str) -> (yes: bool)
        ensures
            may_choose(self.config(), self.fs(), path@, yes),
            yes ==> !excluded(self.config(), path@) && may_pass_size(
                self.config(),
                self.fs(),
                path@,
                true,
            ),
    {
        if self.is_excluded(path) {
            return false;
        }
        let answer = self.fs.metadata(path);
        let yes = self.size_allows(&answer);
        assert(self.fs().may_tell_metadata(path@, metadata_had(answer)));
        yes
    }

    /// Tells whether an entry of a walk is a file to clean: no directory, no
    /// symbolic link, and a file that is to be cleaned.
    pub fn takes_entry(&self, path: &str) -> (take: bool)
        ensures
            may_take(self.config(), self.fs(), path@, take),
            take ==> !excluded(self.config(), path@) && may_pass_size(
                self.config(),
                self.fs(),
                path@,
                true,
            ),
    {
        let dir = self.fs.is_dir(path);
        assert(self.fs().may_tell_dir(path@, dir));
        if dir {
            return false;
        }
        let link = self.fs.is_symlink(path);
        assert(self.fs().may_tell_symlink(path@, link));
        if link {
            assert(may_take_file(self.config(), self.fs(), path@, false));
            return false;
        }
        let take = self.should_process_file(path);
        assert(may_take_file(self.config(), self.fs(), path@, take));
        take
    }

    /// Picks the files to clean among `entries`, the paths that a walk of a
    /// directory tree came by: directories and symbolic links are passed
    /// over, and so is every file that is not eligible. The files come out
    /// in the order of the walk. Whatever the file system answers, no file
    /// comes out that a pattern of the configuration excludes, and none that
    /// the file system did not show to be within the allowed size.
    pub fn collect_files(&self, entries: &Vec<String>) -> (files: Vec<String>)
        ensures
            may_collect(self.config(), self.fs(), texts(entries@), texts(files@)),
            picked_in_order(texts(files@), texts(entries@)),
            forall|k: int|
                0 <= k < files@.len() ==> !excluded(self.config(), #[trigger] files@[k]@)
                    && may_pass_size(self.config(), self.fs(), files@[k]@, true),
    {
        let mut files: Vec<String> = Vec::new();
        let ghost mut picks: Seq<int> = Seq::empty();
        let ghost mut taken: Seq<bool> = Seq::empty();
        let mut i: usize = 0;
        assert(picks_in_order(picks, texts(files@), texts(entries@)));
        assert(texts(entries@).take(0) =~= Seq::<Seq<char>>::empty());
        while i < entries.len()
            invariant
                i <= entries.len(),
                picks_in_order(picks, texts(files@), texts(entries@)),
                forall|k: int| 0 <= k < picks.len() ==> #[trigger] picks[k] < i,
                forall|k: int|
                    0 <= k < files@.len() ==> !excluded(self.config(), #[trigger] files@[k]@)
                        && may_pass_size(self.config(), self.fs(), files@[k]@, true),
                takes(self.config(), self.fs(), texts(entries@).take(i as int), taken),
                texts(files@) == chosen(texts(entries@).take(i as int), taken),
            decreases entries.len() - i,
        {
            let path = entries[i].as_str();
            let ghost before = files@;
            let ghost picks_before = picks;
            let ghost taken_before = taken;
            let ghost seen = texts(entries@).take(i as int);
            let take = self.takes_entry(path);
            assert(texts(entries@)[i as int] == path@);
            if take {
                files.push(path.to_owned());
                proof {
                    picks = picks_before.push(i as int);
                    assert forall|k: int| 0 <= k < picks.len() implies 0 <= #[trigger] picks[k]
                        < texts(entries@).len() && texts(files@)[k] == texts(entries@)[picks[k]] by {
                        if k < picks_before.len() {
                            assert(picks[k] == picks_before[k]);
                            assert(texts(files@)[k] == texts(before)[k]);
                        }
                    }
                    assert forall|a: int, b: int| 0 <= a < b < picks.len() implies picks[a]
                        < picks[b] by {
                        assert(picks[a] == picks_before[a]);
                    }
                    assert forall|k: int| 0 <= k < files@.len() implies !excluded(
                        self.config(),
                        #[trigger] files@[k]@,
                    ) && may_pass_size(self.config(), self.fs(), files@[k]@, true) by {
                        if k < before.len() {
                            assert(files@[k] == before[k]);
                        }
                    }
                    assert(texts(files@) =~= texts(before).push(path@));
                }
            }
            i = i + 1;
            proof {
                taken = taken_before.push(take);
                let now = texts(entries@).take(i as int);
                assert(now.drop_last() =~= seen);
                assert(taken.drop_last() =~= taken_before);
                assert(now.last() == path@);
                assert forall|k: int| 0 <= k < now.len() implies may_take(
                    self.config(),
                    self.fs(),
                    #[trigger] now[k],
                    taken[k],
                ) by {
                    if k < seen.len() {
                        assert(now[k] == seen[k]);
                        assert(taken[k] == taken_before[k]);
                    }
                }
            }
        }
        assert(texts(entries@).take(i as int) =~= texts(entries@));
        files
    }
}

} // verus!
