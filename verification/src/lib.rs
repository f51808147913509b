//! Removes the white space at the ends of the lines of text files.
//!
//! The library decides which files of a directory tree are eligible, cleans
//! the content of a file without touching its line breaks, and gives an
//! account of what it did. It reaches files through the `FileSystem` trait
//! alone, so that it works on the machine's file system and on one in memory
//! alike. Every function is verified with Verus against the contract that
//! stands at its head; the few items that rest on other crates are gathered
//! in `outside`.

pub mod cli;
pub mod config;
pub mod engine;
pub mod outside;
pub mod ports;
pub mod processor;
pub mod report;
pub mod runner;
pub mod strings;
pub mod text;
pub mod text_laws;
pub mod text_proofs;
pub mod walker;

pub use cli::Cli;
pub use config::{BinaryDetection, Config, ProcessingSettings};
pub use engine::{ParallelEngine, ProcessingResults, ProcessingSummary};
pub use ports::fs::{FileSystem, FsError, FsMetadata, MemFs};
pub use processor::{ProcessingResult, WhitespaceProcessor};
pub use report::{display_results, format_line_numbers};
pub use runner::{process_directory, RuntimeConfig};
pub use walker::FileWalker;
