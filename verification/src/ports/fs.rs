//! The file system as the library sees it, and a file system in memory.

use crate::strings::str_eq;
use vstd::prelude::*;
use vstd::slice::slice_to_vec;

verus! {

/// What is known of a file without reading it.
#[derive(Debug, Clone, Copy, PartialEq, Eq, Structural)]
pub struct FsMetadata {
    /// The length of the content in bytes.
    pub len: u64,
    /// Whether it is a regular file.
    pub is_file: bool,
    /// Whether it is a directory.
    pub is_dir: bool,
}

/// Why the file system did not do what was asked.
#[derive(Debug, Clone)]
pub struct FsError {
    /// The reason, for a reader.
    pub message: String,
}

/// The bytes that were read, where reading went well.
pub open spec fn bytes_read(read: Result<Vec<u8>, FsError>) -> Option<Seq<u8>> {
    match read {
        Ok(bytes) => Some(bytes@),
        Err(_) => None,
    }
}

/// The cause of a failed writing.
pub open spec fn write_error(written: Result<(), FsError>) -> Option<Seq<char>> {
    match written {
        Ok(_) => None,
        Err(e) => Some(e.message@),
    }
}

/// The metadata that was had, where asking for it went well.
pub open spec fn metadata_had(answer: Result<FsMetadata, FsError>) -> Option<FsMetadata> {
    match answer {
        Ok(m) => Some(m),
        Err(_) => None,
    }
}

/// The operations that the library needs of a file system.
///
/// Beside each operation stands a relation that says which answers the
/// operation may give. An implementation that promises nothing leaves the
/// relations as they are here: every answer may come, and may differ from one
/// call to the next. One that promises more states it there, and what the
/// library proves of its own functions then says that much more of them.
pub trait FileSystem {
    /// Whether reading the file at `path` may give `answer`: its bytes, or
    /// nothing where it cannot be read.
    open spec fn may_read(&self, path: Seq<char>, answer: Option<Seq<u8>>) -> bool {
        true
    }

    /// Whether writing `content` to the file at `path` may leave the file
    /// system as `after` is, and fail with `error` or not at all.
    open spec fn may_write(
        &self,
        path: Seq<char>,
        content: Seq<u8>,
        after: &Self,
        error: Option<Seq<char>>,
    ) -> bool {
        true
    }

    /// Whether asking for the metadata of `path` may give `answer`.
    open spec fn may_tell_metadata(&self, path: Seq<char>, answer: Option<FsMetadata>) -> bool {
        true
    }

    /// Whether `is_dir` may answer `answer` for `path`.
    open spec fn may_tell_dir(&self, path: Seq<char>, answer: bool) -> bool {
        true
    }

    /// Whether `is_file` may answer `answer` for `path`.
    open spec fn may_tell_file(&self, path: Seq<char>, answer: bool) -> bool {
        true
    }

    /// Whether `is_symlink` may answer `answer` for `path`.
    open spec fn may_tell_symlink(&self, path: Seq<char>, answer: bool) -> bool {
        true
    }

    /// Whether `path_exists` may answer `answer` for `path`.
    open spec fn may_tell_exists(&self, path: Seq<char>, answer: bool) -> bool {
        true
    }

    /// The content of the file at `path`.
    fn read(&self, path: &str) -> (r: Result<Vec<u8>, FsError>)
        ensures
            self.may_read(path@, bytes_read(r)),
    ;

    /// Makes `content` the content of the file at `path`.
    fn write(&mut self, path: &str, content: &[u8]) -> (r: Result<(), FsError>)
        ensures
            old(self).may_write(path@, content@, final(self), write_error(r)),
    ;

    /// What is known of the file at `path`.
    fn metadata(&self, path: &str) -> (r: Result<FsMetadata, FsError>)
        ensures
            self.may_tell_metadata(path@, metadata_had(r)),
    ;

    /// Whether `path` is a directory.
    fn is_dir(&self, path: &str) -> (b: bool)
        ensures
            self.may_tell_dir(path@, b),
    ;

    /// Whether `path` is a regular file.
    fn is_file(&self, path: &str) -> (b: bool)
        ensures
            self.may_tell_file(path@, b),
    ;

    /// Whether `path` is a symbolic link.
    fn is_symlink(&self, path: &str) -> (b: bool)
        ensures
            self.may_tell_symlink(path@, b),
    ;

    /// Whether there is anything at `path`.
    fn path_exists(&self, path: &str) -> (b: bool)
        ensures
            self.may_tell_exists(path@, b),
    ;
}

/// A file of a file system in memory.
#[derive(Debug)]
pub struct MemFile {
    /// Where the file is.
    pub path: String,
    /// What it holds.
    pub content: Vec<u8>,
}

/// A file system in memory: files by their paths, with no directories and no
/// links. A later entry for a path stands for that path.
#[derive(Debug, Default)]
pub struct MemFs {
    files: Vec<MemFile>,
}

/// The files that a list of entries stands for: each entry puts its content
/// at its path, a later one in place of an earlier one.
pub open spec fn files_of(entries: Seq<MemFile>) -> Map<Seq<char>, Seq<u8>>
    decreases entries.len(),
{
    if entries.len() == 0 {
        Map::empty()
    } else {
        files_of(entries.drop_last()).insert(entries.last().path@, entries.last().content@)
    }
}

/// The entry at `at` stands for `path` where it has that path and no later
/// entry has.
proof fn lemma_last_entry_counts(entries: Seq<MemFile>, at: int, path: Seq<char>)
    requires
        0 <= at < entries.len(),
        entries[at].path@ == path,
        forall|j: int| at < j < entries.len() ==> (#[trigger] entries[j]).path@ != path,
    ensures
        files_of(entries).contains_key(path),
        files_of(entries)[path] == entries[at].content@,
    decreases entries.len(),
{
    if at < entries.len() - 1 {
        let front = entries.drop_last();
        assert(entries.last().path@ != path);
        assert forall|j: int| at < j < front.len() implies (#[trigger] front[j]).path@ != path by {
            assert(front[j] == entries[j]);
        }
        lemma_last_entry_counts(front, at, path);
    }
}

/// No file is at a path that no entry has.
proof fn lemma_no_entry(entries: Seq<MemFile>, path: Seq<char>)
    requires
        forall|j: int| 0 <= j < entries.len() ==> (#[trigger] entries[j]).path@ != path,
    ensures
        !files_of(entries).contains_key(path),
    decreases entries.len(),
{
    if entries.len() > 0 {
        let front = entries.drop_last();
        assert(entries.last().path@ != path);
        assert forall|j: int| 0 <= j < front.len() implies (#[trigger] front[j]).path@ != path by {
            assert(front[j] == entries[j]);
        }
        lemma_no_entry(front, path);
    }
}

/// Putting new content into the entry that stands for a path puts that
/// content at the path.
proof fn lemma_entry_replaced(entries: Seq<MemFile>, at: int, entry: MemFile)
    requires
        0 <= at < entries.len(),
        entries[at].path@ == entry.path@,
        forall|j: int| at < j < entries.len() ==> (#[trigger] entries[j]).path@ != entry.path@,
    ensures
        files_of(entries.update(at, entry)) == files_of(entries).insert(
            entry.path@,
            entry.content@,
        ),
    decreases entries.len(),
{
    let changed = entries.update(at, entry);
    let front = entries.drop_last();
    if at == entries.len() - 1 {
        assert(changed.drop_last() =~= front);
        assert(files_of(changed) =~= files_of(entries).insert(entry.path@, entry.content@));
    } else {
        assert(entries.last().path@ != entry.path@);
        assert forall|j: int| at < j < front.len() implies (#[trigger] front[j]).path@
            != entry.path@ by {
            assert(front[j] == entries[j]);
        }
        lemma_entry_replaced(front, at, entry);
        assert(changed.drop_last() =~= front.update(at, entry));
        assert(changed.last() == entries.last());
        assert(files_of(changed) =~= files_of(entries).insert(entry.path@, entry.content@));
    }
}

impl View for MemFs {
    type V = Map<Seq<char>, Seq<u8>>;

    /// The files by their paths.
    closed spec fn view(&self) -> Map<Seq<char>, Seq<u8>> {
        files_of(self.files@)
    }
}

impl MemFs {
    /// A file system without files.
    pub fn new() -> (fs: Self)
        ensures
            fs@ == Map::<Seq<char>, Seq<u8>>::empty(),
    {
        MemFs { files: Vec::new() }
    }

    /// The position of the entry that stands for `path`, if there is one.
    fn find(&self, path: &str) -> (at: Option<usize>)
        ensures
            at is Some <==> self@.contains_key(path@),
            at matches Some(i) ==> i < self.files@.len() && self.files@[i as int].path@ == path@
                && self.files@[i as int].content@ == self@[path@] && forall|j: int|
                i < j < self.files@.len() ==> (#[trigger] self.files@[j]).path@ != path@,
    {
        let mut i: usize = self.files.len();
        while i > 0
            invariant
                i <= self.files@.len(),
                forall|j: int| i <= j < self.files@.len() ==> (#[trigger] self.files@[j]).path@
                    != path@,
            decreases i,
        {
            i = i - 1;
            if str_eq(self.files[i].path.as_str(), path) {
                proof {
                    lemma_last_entry_counts(self.files@, i as int, path@);
                }
                return Some(i);
            }
        }
        proof {
            lemma_no_entry(self.files@, path@);
        }
        None
    }

    /// The file system with `content` at `path`, and all else as it was.
    pub fn with_file(self, path: &str, content: &[u8]) -> (fs: Self)
        ensures
            fs@ == self@.insert(path@, content@),
    {
        let mut fs = self;
        fs.put(path, content);
        fs
    }

    /// The content at `path`, if there is a file.
    pub fn get_content(&self, path: &str) -> (content: Option<Vec<u8>>)
        ensures
            content is Some <==> self@.contains_key(path@),
            content matches Some(bytes) ==> bytes@ == self@[path@],
    {
        match self.find(path) {
            Some(i) => Some(self.files[i].content.clone()),
            None => None,
        }
    }

    /// Puts `content` at `path`.
    fn put(&mut self, path: &str, content: &[u8])
        ensures
            final(self)@ == old(self)@.insert(path@, content@),
    {
        let entry = MemFile { path: path.to_owned(), content: slice_to_vec(content) };
        match self.find(path) {
            Some(i) => {
                proof {
                    lemma_entry_replaced(self.files@, i as int, entry);
                }
                self.files.set(i, entry);
            },
            None => {
                proof {
                    assert(self.files@.push(entry).drop_last() =~= self.files@);
                }
                self.files.push(entry);
            },
        }
    }
}

impl FileSystem for MemFs {
    /// Reading gives the content at `path`, or nothing where no file is.
    open spec fn may_read(&self, path: Seq<char>, answer: Option<Seq<u8>>) -> bool {
        answer == if self@.contains_key(path) {
            Some(self@[path])
        } else {
            None::<Seq<u8>>
        }
    }

    /// Writing never fails, and puts the content at `path`.
    open spec fn may_write(
        &self,
        path: Seq<char>,
        content: Seq<u8>,
        after: &Self,
        error: Option<Seq<char>>,
    ) -> bool {
        error is None && after@ == self@.insert(path, content)
    }

    /// The metadata of a file tells its length; there is none where no file
    /// is.
    open spec fn may_tell_metadata(&self, path: Seq<char>, answer: Option<FsMetadata>) -> bool {
        &&& answer is Some <==> self@.contains_key(path)
        &&& answer matches Some(m) ==> m.len == self@[path].len() && m.is_file && !m.is_dir
    }

    /// There are no directories.
    open spec fn may_tell_dir(&self, path: Seq<char>, answer: bool) -> bool {
        !answer
    }

    /// What has content is a file.
    open spec fn may_tell_file(&self, path: Seq<char>, answer: bool) -> bool {
        answer == self@.contains_key(path)
    }

    /// There are no links.
    open spec fn may_tell_symlink(&self, path: Seq<char>, answer: bool) -> bool {
        !answer
    }

    /// Only files are there.
    open spec fn may_tell_exists(&self, path: Seq<char>, answer: bool) -> bool {
        answer == self@.contains_key(path)
    }

    /// The content at `path`; an error where there is no file.
    fn read(&self, path: &str) -> (r: Result<Vec<u8>, FsError>)
        ensures
            r matches Err(e) ==> e.message@ == "File not found: "@ + path@,
    {
        match self.get_content(path) {
            Some(bytes) => Ok(bytes),
            None => Err(FsError { message: String::from_str("File not found: ").concat(path) }),
        }
    }

    /// Puts `content` at `path`; this never fails.
    fn write(&mut self, path: &str, content: &[u8]) -> (r: Result<(), FsError>) {
        self.put(path, content);
        Ok(())
    }

    /// The length of the file at `path`; an error where there is no file.
    fn metadata(&self, path: &str) -> (r: Result<FsMetadata, FsError>)
        ensures
            r matches Err(e) ==> e.message@ == "File not found: "@ + path@,
    {
        match self.find(path) {
            Some(i) => Ok(
                FsMetadata { len: self.files[i].content.len() as u64, is_file: true, is_dir: false },
            ),
            None => Err(FsError { message: String::from_str("File not found: ").concat(path) }),
        }
    }

    /// There are no directories.
    fn is_dir(&self, path: &str) -> (b: bool) {
        false
    }

    /// Whether there is a file at `path`.
    fn is_file(&self, path: &str) -> (b: bool) {
        self.find(path).is_some()
    }

    /// There are no links.
    fn is_symlink(&self, path: &str) -> (b: bool) {
        false
    }

    /// Whether there is a file at `path`.
    fn path_exists(&self, path: &str) -> (b: bool) {
        self.find(path).is_some()
    }
}

} // verus!
