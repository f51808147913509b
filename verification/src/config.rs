//! The configuration of a run.

use crate::outside::{available_cpus, texts};
use crate::strings::str_eq;
use vstd::prelude::*;

verus! {

/// The largest file that is cleaned unless the configuration says otherwise:
/// 100 MiB.
pub const DEFAULT_MAX_FILE_SIZE: u64 = 104857600;

/// The number of bytes that are searched for a zero byte unless the
/// configuration says otherwise: 8 KiB.
pub const DEFAULT_SAMPLE_SIZE: usize = 8192;

/// What a run reads its rules from. It does not change during a run.
#[derive(Debug, Clone)]
pub struct Config {
    /// File extensions to process (empty = all text files).
    pub file_extensions: Vec<String>,
    /// Glob patterns of paths that are left alone.
    pub exclude_paths: Vec<String>,
    /// Glob patterns of file names that are left alone.
    pub exclude_files: Vec<String>,
    /// Glob patterns of file names that are taken for binary without a look
    /// at their content.
    pub exclude_binary_extensions: Vec<String>,
    /// How content is told to be binary.
    pub binary_detection: BinaryDetection,
    /// Limits of the processing.
    pub processing: ProcessingSettings,
}

/// How content is told to be binary.
#[derive(Debug, Clone, Copy)]
pub struct BinaryDetection {
    /// Whether a zero byte marks content as binary.
    pub check_null_bytes: bool,
    /// How many bytes, from the start, are searched.
    pub sample_size: usize,
}

/// Limits of the processing.
#[derive(Debug, Clone, Copy)]
pub struct ProcessingSettings {
    /// Files longer than this many bytes are left alone.
    pub max_file_size: u64,
    /// The number of workers; at least one.
    pub threads: usize,
}

/// The value of the `threads` key as a configuration file gives it.
#[derive(Debug, Clone)]
pub enum ThreadsValue {
    /// A number that is zero or more.
    Unsigned(u64),
    /// A number of another kind: negative, or with a fraction.
    OtherNumber,
    /// A string.
    Text(String),
    /// Anything else.
    Other,
}

/// A checked value of the `threads` key.
#[derive(Debug, Clone, Copy, PartialEq, Eq, Structural)]
pub enum Threads {
    /// This many workers; at least one.
    Count(usize),
    /// As many workers as the machine has cores for.
    Autodetect,
}

/// The patterns of the paths that are left alone by default: what version
/// control, package managers, builds and editors keep for themselves.
pub open spec fn default_exclude_paths() -> Seq<Seq<char>> {
    seq![
        ".git/**"@,
        ".svn/**"@,
        ".hg/**"@,
        "node_modules/**"@,
        ".venv/**"@,
        "venv/**"@,
        ".env/**"@,
        "env/**"@,
        "__pycache__/**"@,
        ".tox/**"@,
        ".pytest_cache/**"@,
        "target/**"@,
        "build/**"@,
        "dist/**"@,
        "out/**"@,
        "bin/**"@,
        "obj/**"@,
        ".vscode/**"@,
        ".idea/**"@,
        ".vs/**"@,
        "*.tmp/**"@,
        ".npm/**"@,
        ".yarn/**"@,
        ".pnpm-store/**"@,
        "vendor/**"@,
    ]
}

/// The patterns of the file names that are left alone by default.
pub open spec fn default_exclude_files() -> Seq<Seq<char>> {
    seq!["*.min.js"@, "*.min.css"@, "*.bundle.*"@, "*.lock"@, "*.log"@]
}

/// The patterns of the file names that are taken for binary by default.
pub open spec fn default_exclude_binary_extensions() -> Seq<Seq<char>> {
    seq![
        "*.exe"@,
        "*.dll"@,
        "*.so"@,
        "*.dylib"@,
        "*.a"@,
        "*.lib"@,
        "*.bin"@,
        "*.out"@,
        "*.zip"@,
        "*.tar"@,
        "*.gz"@,
        "*.bz2"@,
        "*.xz"@,
        "*.7z"@,
        "*.rar"@,
        "*.jpg"@,
        "*.jpeg"@,
        "*.png"@,
        "*.gif"@,
        "*.bmp"@,
        "*.ico"@,
        "*.svg"@,
        "*.webp"@,
        "*.mp3"@,
        "*.mp4"@,
        "*.avi"@,
        "*.mov"@,
        "*.wav"@,
        "*.flac"@,
        "*.pdf"@,
        "*.doc"@,
        "*.docx"@,
        "*.xls"@,
        "*.xlsx"@,
        "*.ppt"@,
        "*.pptx"@,
        "*.sqlite"@,
        "*.db"@,
        "*.dat"@,
        "*.pyc"@,
        "*.class"@,
        "*.jar"@,
    ]
}

/// The views of a list of string slices.
pub open spec fn slice_texts(list: Seq<&str>) -> Seq<Seq<char>> {
    list.map_values(|s: &str| s@)
}

/// Copies a list of string slices into owned strings.
fn owned_list(items: &[&str]) -> (list: Vec<String>)
    ensures
        texts(list@) == slice_texts(items@),
{
    let mut list: Vec<String> = Vec::new();
    let mut i: usize = 0;
    while i < items.len()
        invariant
            i <= items.len(),
            list@.len() == i,
            forall|j: int| 0 <= j < i ==> (#[trigger] list@[j])@ == items@[j]@,
        decreases items.len() - i,
    {
        list.push(items[i].to_owned());
        i = i + 1;
    }
    assert(texts(list@) =~= slice_texts(items@));
    list
}

/// What the value of the `threads` key means: a count of at least one that
/// fits the machine, or the word `nproc` for as many workers as there are
/// cores. Anything else is refused, with the reason.
pub open spec fn checked_threads(value: ThreadsValue) -> Result<Threads, Seq<char>> {
    match value {
        ThreadsValue::Unsigned(n) => if n == 0 {
            Err("threads must be greater than 0"@)
        } else if n > usize::MAX {
            Err("threads must be a positive integer"@)
        } else {
            Ok(Threads::Count(n as usize))
        },
        ThreadsValue::OtherNumber => Err("threads must be a positive integer"@),
        ThreadsValue::Text(word) => if word@ == "nproc"@ {
            Ok(Threads::Autodetect)
        } else {
            Err("invalid thread value: '"@ + word@ + "', expected a positive integer or 'nproc'"@)
        },
        ThreadsValue::Other => Err("threads must be a positive integer or the string 'nproc'"@),
    }
}

/// The text of an error, where a result holds one.
pub open spec fn error_text<T>(r: Result<T, String>) -> Option<Seq<char>> {
    match r {
        Ok(_) => None,
        Err(reason) => Some(reason@),
    }
}

/// Checks the value of the `threads` key.
pub fn validate_threads(value: ThreadsValue) -> (r: Result<Threads, String>)
    ensures
        r.ok() == checked_threads(value).ok(),
        error_text(r) == checked_threads(value).err(),
{
    match value {
        ThreadsValue::Unsigned(n) => {
            if n == 0 {
                Err(String::from_str("threads must be greater than 0"))
            } else if n > usize::MAX as u64 {
                Err(String::from_str("threads must be a positive integer"))
            } else {
                Ok(Threads::Count(n as usize))
            }
        },
        ThreadsValue::OtherNumber => Err(String::from_str("threads must be a positive integer")),
        ThreadsValue::Text(word) => {
            if str_eq(word.as_str(), "nproc") {
                Ok(Threads::Autodetect)
            } else {
                Err(
                    String::from_str("invalid thread value: '").concat(word.as_str()).concat(
                        "', expected a positive integer or 'nproc'",
                    ),
                )
            }
        },
        ThreadsValue::Other => Err(
            String::from_str("threads must be a positive integer or the string 'nproc'"),
        ),
    }
}

/// The number of workers that a request for `requested` workers gets: that
/// many, or, where none is asked for, as many as the machine reports cores.
pub fn resolve_worker_count(requested: usize) -> (n: usize)
    ensures
        n >= 1,
        requested >= 1 ==> n == requested,
{
    if requested >= 1 {
        requested
    } else {
        available_cpus()
    }
}

/// The number of workers that a checked value stands for: the count itself,
/// or, for `Autodetect`, the number of cores that the machine reports.
pub fn resolve_threads(threads: Threads) -> (n: usize)
    ensures
        n >= 1,
        threads matches Threads::Count(c) ==> c >= 1 ==> n == c,
{
    match threads {
        Threads::Count(c) => resolve_worker_count(c),
        Threads::Autodetect => available_cpus(),
    }
}

/// Reads the number of workers from the value of the `threads` key: the
/// value is checked, and `nproc` becomes the number of cores.
pub fn deserialize_threads_value(value: ThreadsValue) -> (r: Result<usize, String>)
    ensures
        r is Ok <==> checked_threads(value) is Ok,
        error_text(r) == checked_threads(value).err(),
        r matches Ok(n) ==> n >= 1,
        r matches Ok(n) ==> (checked_threads(value) matches Ok(Threads::Count(c)) ==> n == c),
{
    match validate_threads(value) {
        Ok(threads) => Ok(resolve_threads(threads)),
        Err(reason) => Err(reason),
    }
}

impl ProcessingSettings {
    /// The settings that a configuration file gives: a key that is missing
    /// takes its default, 100 MiB for the size and the number of cores for the
    /// workers.
    pub fn from_parts(max_file_size: Option<u64>, threads: Option<usize>) -> (p: Self)
        ensures
            p.max_file_size == match max_file_size {
                Some(size) => size,
                None => DEFAULT_MAX_FILE_SIZE,
            },
            p.threads >= 1,
            threads matches Some(n) ==> n >= 1 ==> p.threads == n,
    {
        let max_file_size = match max_file_size {
            Some(size) => size,
            None => DEFAULT_MAX_FILE_SIZE,
        };
        let threads = match threads {
            Some(n) => resolve_worker_count(n),
            None => available_cpus(),
        };
        ProcessingSettings { max_file_size, threads }
    }
}

impl Config {
    /// Whether the configuration keeps its one rule: at least one worker.
    pub open spec fn wf(&self) -> bool {
        self.processing.threads >= 1
    }
}

impl Default for BinaryDetection {
    fn default() -> (d: Self)
        ensures
            d.check_null_bytes,
            d.sample_size == DEFAULT_SAMPLE_SIZE,
    {
        BinaryDetection { check_null_bytes: true, sample_size: DEFAULT_SAMPLE_SIZE }
    }
}

impl Default for ProcessingSettings {
    fn default() -> (p: Self)
        ensures
            p.max_file_size == DEFAULT_MAX_FILE_SIZE,
            p.threads >= 1,
    {
        ProcessingSettings { max_file_size: DEFAULT_MAX_FILE_SIZE, threads: available_cpus() }
    }
}

impl Default for Config {
    fn default() -> (c: Self)
        ensures
            c.wf(),
            c.file_extensions@.len() == 0,
            texts(c.exclude_paths@) == default_exclude_paths(),
            texts(c.exclude_files@) == default_exclude_files(),
            texts(c.exclude_binary_extensions@) == default_exclude_binary_extensions(),
            c.binary_detection.check_null_bytes,
            c.binary_detection.sample_size == DEFAULT_SAMPLE_SIZE,
            c.processing.max_file_size == DEFAULT_MAX_FILE_SIZE,
    {
        let paths = [
            ".git/**",
            ".svn/**",
            ".hg/**",
            "node_modules/**",
            ".venv/**",
            "venv/**",
            ".env/**",
            "env/**",
            "__pycache__/**",
            ".tox/**",
            ".pytest_cache/**",
            "target/**",
            "build/**",
            "dist/**",
            "out/**",
            "bin/**",
            "obj/**",
            ".vscode/**",
            ".idea/**",
            ".vs/**",
            "*.tmp/**",
            ".npm/**",
            ".yarn/**",
            ".pnpm-store/**",
            "vendor/**",
        ];
        let files = ["*.min.js", "*.min.css", "*.bundle.*", "*.lock", "*.log"];
        let binaries = [
            "*.exe",
            "*.dll",
            "*.so",
            "*.dylib",
            "*.a",
            "*.lib",
            "*.bin",
            "*.out",
            "*.zip",
            "*.tar",
            "*.gz",
            "*.bz2",
            "*.xz",
            "*.7z",
            "*.rar",
            "*.jpg",
            "*.jpeg",
            "*.png",
            "*.gif",
            "*.bmp",
            "*.ico",
            "*.svg",
            "*.webp",
            "*.mp3",
            "*.mp4",
            "*.avi",
            "*.mov",
            "*.wav",
            "*.flac",
            "*.pdf",
            "*.doc",
            "*.docx",
            "*.xls",
            "*.xlsx",
            "*.ppt",
            "*.pptx",
            "*.sqlite",
            "*.db",
            "*.dat",
            "*.pyc",
            "*.class",
            "*.jar",
        ];
        assert(slice_texts(paths@) =~= default_exclude_paths());
        assert(slice_texts(files@) =~= default_exclude_files());
        assert(slice_texts(binaries@) =~= default_exclude_binary_extensions());
        Config {
            file_extensions: Vec::new(),
            exclude_paths: owned_list(&paths),
            exclude_files: owned_list(&files),
            exclude_binary_extensions: owned_list(&binaries),
            binary_detection: BinaryDetection::default(),
            processing: ProcessingSettings::default(),
        }
    }
}

} // verus!
