use std::sync::Arc;
use std::time::Duration;
use whitespace::processor::FileStep;
use whitespace::{
    Config, FileSystem, FsError, FsMetadata, MemFs, ParallelEngine, ProcessingResult,
    ProcessingResults, WhitespaceProcessor,
};

fn create_test_config() -> Arc<Config> {
    Arc::new(Config::default())
}

/// A file system that reads one fixed content and refuses every write.
struct ReadOnly {
    content: Vec<u8>,
}

impl FileSystem for ReadOnly {
    fn read(&self, _path: &str) -> Result<Vec<u8>, FsError> {
        Ok(self.content.clone())
    }

    fn write(&mut self, _path: &str, _content: &[u8]) -> Result<(), FsError> {
        Err(FsError { message: "read-only".to_string() })
    }

    fn metadata(&self, _path: &str) -> Result<FsMetadata, FsError> {
        Ok(FsMetadata { len: self.content.len() as u64, is_file: true, is_dir: false })
    }

    fn is_dir(&self, _path: &str) -> bool {
        false
    }

    fn is_file(&self, _path: &str) -> bool {
        true
    }

    fn is_symlink(&self, _path: &str) -> bool {
        false
    }

    fn path_exists(&self, _path: &str) -> bool {
        true
    }
}

#[test]
fn test_binary_detection() {
    let config = create_test_config();
    let processor = WhitespaceProcessor::new(config);

    let text_content = b"Hello, world!\n";
    let binary_content = b"Hello\0world\n";

    assert!(!processor.is_binary_content(text_content));
    assert!(processor.is_binary_content(binary_content));
}

#[test]
fn binary_detection_looks_at_the_sample_only() {
    let mut config = Config::default();
    config.binary_detection.sample_size = 4;
    let processor = WhitespaceProcessor::new(Arc::new(config));
    assert!(!processor.is_binary_content(b"abcd\0"));
    assert!(processor.is_binary_content(b"abc\0d"));
    assert!(!processor.is_binary_content(b""));

    let mut config = Config::default();
    config.binary_detection.check_null_bytes = false;
    let processor = WhitespaceProcessor::new(Arc::new(config));
    assert!(!processor.is_binary_content(b"\0\0"));

    let mut config = Config::default();
    config.binary_detection.sample_size = 0;
    let processor = WhitespaceProcessor::new(Arc::new(config));
    assert!(!processor.is_binary_content(b"\0"));
}

#[test]
fn test_process_file_dry_run() {
    let content_before = "line1   \nline2\t\t\n";
    let mut fs = MemFs::new().with_file("test.txt", content_before.as_bytes());

    let processor = WhitespaceProcessor::new(create_test_config());
    let result = processor.process_file(&mut fs, "test.txt", true);

    assert!(result.had_changes);
    assert_eq!(result.lines_modified, vec![1, 2]);
    assert!(result.error.is_none());

    // File should not be modified in dry run
    assert_eq!(fs.get_content("test.txt").unwrap(), content_before.as_bytes());
}

#[test]
fn test_process_file_actual_modification() {
    let content_before = "line1   \nline2\t\t\n";
    let mut fs = MemFs::new().with_file("test.txt", content_before.as_bytes());

    let processor = WhitespaceProcessor::new(create_test_config());
    let result = processor.process_file(&mut fs, "test.txt", false);

    assert!(result.had_changes);
    assert_eq!(result.lines_modified, vec![1, 2]);
    assert!(result.error.is_none());

    // File should be modified
    assert_eq!(fs.get_content("test.txt").unwrap(), b"line1\nline2\n");
}

#[test]
fn process_file_reports_a_binary_file() {
    let mut fs = MemFs::new().with_file("data", b"Hello\0world\n");
    let processor = WhitespaceProcessor::new(create_test_config());
    let result = processor.process_file(&mut fs, "data", false);
    assert_eq!(result.error.as_deref(), Some("binary file detected"));
    assert!(!result.had_changes);
    assert!(result.lines_modified.is_empty());
    assert_eq!(fs.get_content("data").unwrap(), b"Hello\0world\n");
}

#[test]
fn process_file_reports_a_read_failure() {
    let mut fs = MemFs::new();
    let processor = WhitespaceProcessor::new(create_test_config());
    let result = processor.process_file(&mut fs, "missing.txt", false);
    assert_eq!(result.error.as_deref(), Some("read failure"));
    assert!(!result.had_changes);
    assert!(result.lines_modified.is_empty());
    assert!(!fs.path_exists("missing.txt"));
}

#[test]
fn process_file_reports_invalid_encoding() {
    let mut fs = MemFs::new().with_file("latin1.txt", b"caf\xe9  \n");
    let processor = WhitespaceProcessor::new(create_test_config());
    let result = processor.process_file(&mut fs, "latin1.txt", false);
    assert_eq!(result.error.as_deref(), Some("invalid encoding"));
    assert!(!result.had_changes);
    assert!(result.lines_modified.is_empty());
    assert_eq!(fs.get_content("latin1.txt").unwrap(), b"caf\xe9  \n");
}

#[test]
fn process_file_reports_a_write_failure_with_the_lines() {
    let mut fs = ReadOnly { content: b"a \nb\nc \n".to_vec() };
    let processor = WhitespaceProcessor::new(create_test_config());
    let result = processor.process_file(&mut fs, "any", false);
    assert_eq!(result.error.as_deref(), Some("Failed to write file: read-only"));
    assert!(result.had_changes);
    assert_eq!(result.lines_modified, vec![1, 3]);

    let result = processor.process_file(&mut fs, "any", true);
    assert!(result.error.is_none());
    assert_eq!(result.lines_modified, vec![1, 3]);
}

#[test]
fn process_file_leaves_a_clean_file_alone() {
    let mut fs = ReadOnly { content: b"a\nb\n".to_vec() };
    let processor = WhitespaceProcessor::new(create_test_config());
    let result = processor.process_file(&mut fs, "any", false);
    assert!(result.error.is_none());
    assert!(!result.had_changes);
    assert!(result.lines_modified.is_empty());
}

#[test]
fn examine_decodes_utf8() {
    let processor = WhitespaceProcessor::new(create_test_config());
    let step = processor.examine(Ok("gr\u{fc}n \u{3000}\nx".as_bytes().to_vec()), false);
    match step {
        FileStep::Write { content, lines_modified } => {
            assert_eq!(content, "gr\u{fc}n\nx");
            assert_eq!(lines_modified, vec![1]);
        }
        FileStep::Done(_) => panic!("the file has a line to clean"),
    }
    let step = processor.examine(Err(FsError { message: "gone".to_string() }), false);
    match step {
        FileStep::Done(result) => assert_eq!(result.error.as_deref(), Some("read failure")),
        FileStep::Write { .. } => panic!("nothing was read"),
    }
}

#[test]
fn conclude_tells_how_the_writing_went() {
    let result = WhitespaceProcessor::conclude(vec![2], Ok(()));
    assert!(result.had_changes);
    assert!(result.error.is_none());
    let result =
        WhitespaceProcessor::conclude(vec![2], Err(FsError { message: "disk full".to_string() }));
    assert!(result.had_changes);
    assert_eq!(result.lines_modified, vec![2]);
    assert_eq!(result.error.as_deref(), Some("Failed to write file: disk full"));
}

#[test]
fn fault_result_names_the_cause() {
    let result = ProcessingResult::fault("worker died");
    assert_eq!(result.error.as_deref(), Some("processing failed: worker died"));
    assert!(!result.had_changes);
    assert!(result.lines_modified.is_empty());
}

#[test]
fn test_parallel_processing() {
    let files =
        vec!["file1.txt".to_string(), "file2.txt".to_string(), "file3.txt".to_string()];
    let mut fs = MemFs::new();
    for (i, file) in files.iter().enumerate() {
        fs = fs.with_file(file, format!("line1   \nline2\t\t\nline{}\n", i + 1).as_bytes());
    }

    let config = create_test_config();
    let engine = ParallelEngine::new(config, 2);

    let results = engine.process_files_with_results(&mut fs, files.clone(), false);

    let files_modified = results
        .file_results
        .iter()
        .filter(|(_, result)| result.had_changes && result.error.is_none())
        .count();

    assert_eq!(results.file_results.len(), 3);
    assert_eq!(files_modified, 3);

    // Verify files were actually modified
    for file in &files {
        let content = String::from_utf8(fs.get_content(file).unwrap()).unwrap();
        assert!(!content.contains("   "));
        assert!(!content.contains("\t\t"));
    }
}

#[test]
fn test_dry_run_processing() {
    let content_before = "line1   \nline2\t\t\n";
    let mut fs = MemFs::new().with_file("test.txt", content_before.as_bytes());

    let config = create_test_config();
    let engine = ParallelEngine::new(config, 1);

    let results = engine.process_files_with_results(&mut fs, vec!["test.txt".to_string()], true);

    let files_modified = results
        .file_results
        .iter()
        .filter(|(_, result)| result.had_changes && result.error.is_none())
        .count();

    assert_eq!(results.file_results.len(), 1);
    assert_eq!(files_modified, 1);

    // File should not be modified in dry run
    assert_eq!(fs.get_content("test.txt").unwrap(), content_before.as_bytes());
}

#[test]
fn test_binary_file_handling() {
    let mut fs = MemFs::new().with_file("binary.dat", b"binary\0content");

    let config = create_test_config();
    let engine = ParallelEngine::new(config, 1);

    let results = engine.process_files_with_results(&mut fs, vec!["binary.dat".to_string()], false);

    let files_modified = results
        .file_results
        .iter()
        .filter(|(_, result)| result.had_changes && result.error.is_none())
        .count();

    assert_eq!(results.file_results.len(), 1);
    assert_eq!(files_modified, 0);
}

#[test]
fn dry_run_over_three_files_reports_three_and_writes_nothing() {
    let files = vec!["a".to_string(), "b".to_string(), "c".to_string()];
    let mut fs = MemFs::new();
    for file in &files {
        fs = fs.with_file(file, b"x \ny\t\n");
    }
    let engine = ParallelEngine::new(create_test_config(), 1);
    let results = engine.process_files_with_results(&mut fs, files.clone(), true);
    let summary = engine.summarize(&results, Duration::from_millis(5));
    assert_eq!(summary.files_processed, 3);
    assert_eq!(summary.files_modified, 3);
    assert_eq!(summary.files_with_errors, 0);
    assert_eq!(summary.duration, Duration::from_millis(5));
    for file in &files {
        assert_eq!(fs.get_content(file).unwrap(), b"x \ny\t\n");
    }
}

#[test]
fn results_come_one_for_each_path_in_order() {
    let files: Vec<String> =
        vec!["z", "missing", "a", "bin"].into_iter().map(|s| s.to_string()).collect();
    let mut fs = MemFs::new()
        .with_file("a", b"clean\n")
        .with_file("z", b"dirty \n")
        .with_file("bin", b"\0");
    let engine = ParallelEngine::new(create_test_config(), 3);
    let results = engine.process_files_with_results(&mut fs, files.clone(), false);
    let paths: Vec<String> = results.file_results.iter().map(|(p, _)| p.clone()).collect();
    assert_eq!(paths, files);
    assert_eq!(results.file_results[0].1.lines_modified, vec![1]);
    assert_eq!(results.file_results[1].1.error.as_deref(), Some("read failure"));
    assert!(results.file_results[2].1.error.is_none());
    assert!(!results.file_results[2].1.had_changes);
    assert_eq!(results.file_results[3].1.error.as_deref(), Some("binary file detected"));

    let summary = engine.summarize(&results, Duration::from_secs(0));
    assert_eq!(summary.files_processed, 4);
    assert_eq!(summary.files_with_errors, 2);
    assert_eq!(summary.files_modified, 1);
    let unchanged = summary.files_processed - summary.files_with_errors - summary.files_modified;
    assert_eq!(unchanged, 1);
}

#[test]
fn aggregate_counts_each_file_once() {
    let engine = ParallelEngine::new(create_test_config(), 1);
    let results = vec![
        ProcessingResult { lines_modified: vec![1], had_changes: true, error: None },
        ProcessingResult { lines_modified: vec![], had_changes: false, error: None },
        ProcessingResult {
            lines_modified: vec![3],
            had_changes: true,
            error: Some("Failed to write file: x".to_string()),
        },
        ProcessingResult::failed("read failure"),
        ProcessingResult::changed(vec![2, 3]),
        ProcessingResult::changed(vec![]),
    ];
    let summary = engine.aggregate_results(&results, Duration::from_secs(1));
    assert_eq!(summary.files_processed, 6);
    assert_eq!(summary.files_with_errors, 2);
    assert_eq!(summary.files_modified, 2);
    assert_eq!(
        summary.files_with_errors + summary.files_modified + 2,
        summary.files_processed
    );
    let empty = engine.aggregate_results(&Vec::new(), Duration::from_secs(0));
    assert_eq!(empty.files_processed, 0);
    assert_eq!(empty.files_modified, 0);
    assert_eq!(empty.files_with_errors, 0);
}

#[test]
fn engine_has_at_least_one_worker() {
    assert_eq!(ParallelEngine::new(create_test_config(), 4).threads(), 4);
    assert_eq!(ParallelEngine::new(create_test_config(), 1).threads(), 1);
    assert!(ParallelEngine::new(create_test_config(), 0).threads() >= 1);
}

#[test]
fn assemble_pairs_paths_and_results() {
    let files = vec!["a".to_string(), "b".to_string()];
    let results = vec![ProcessingResult::changed(vec![1]), ProcessingResult::failed("read failure")];
    let all = ProcessingResults::assemble(files, results).unwrap();
    assert_eq!(all.file_results.len(), 2);
    assert_eq!(all.file_results[0].0, "a");
    assert_eq!(all.file_results[0].1.lines_modified, vec![1]);
    assert_eq!(all.file_results[1].0, "b");
    assert_eq!(all.file_results[1].1.error.as_deref(), Some("read failure"));
    assert!(ProcessingResults::assemble(vec!["a".to_string()], Vec::new()).is_none());
    assert_eq!(ProcessingResults::assemble(Vec::new(), Vec::new()).unwrap().file_results.len(), 0);
}
