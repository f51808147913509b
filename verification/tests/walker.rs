use std::sync::Arc;
use whitespace::runner::{
    check_target, choose_threads, classify_target, RunTotals, TargetStatus,
};
use whitespace::walker::{any_glob_matches, glob_matches};
use whitespace::{process_directory, Cli, Config, FileSystem, FileWalker, MemFs, RuntimeConfig};

fn create_test_config() -> Arc<Config> {
    Arc::new(Config::default())
}

fn paths(list: &[&str]) -> Vec<String> {
    list.iter().map(|s| s.to_string()).collect()
}

#[test]
fn test_collect_files_recursive() {
    let fs = MemFs::new()
        .with_file("project/test.txt", b"content")
        .with_file("project/subdir/nested.rs", b"content");
    let entries = paths(&[
        "project",
        "project/subdir",
        "project/subdir/nested.rs",
        "project/test.txt",
    ]);

    let walker = FileWalker::new(create_test_config(), &fs);
    let files = walker.collect_files(&entries);
    assert_eq!(files.len(), 2);
    assert!(files.contains(&"project/test.txt".to_string()));
    assert!(files.contains(&"project/subdir/nested.rs".to_string()));
}

#[test]
fn test_collect_files_non_recursive() {
    let fs = MemFs::new()
        .with_file("project/test.txt", b"content")
        .with_file("project/subdir/nested.rs", b"content");
    let entries = paths(&["project", "project/subdir", "project/test.txt"]);

    let walker = FileWalker::new(create_test_config(), &fs);
    let files = walker.collect_files(&entries);
    assert_eq!(files.len(), 1);
    assert_eq!(files[0], "project/test.txt");
}

#[test]
fn test_binary_extension_filtering() {
    let fs = MemFs::new()
        .with_file("project/test.txt", b"content")
        .with_file("project/binary.exe", b"binary")
        .with_file("project/library.so", b"binary");
    let entries =
        paths(&["project", "project/binary.exe", "project/library.so", "project/test.txt"]);

    let walker = FileWalker::new(create_test_config(), &fs);
    let files = walker.collect_files(&entries);
    assert_eq!(files.len(), 1);
    assert_eq!(files[0], "project/test.txt");
}

#[test]
fn test_exclude_paths_filtering() {
    let fs = MemFs::new()
        .with_file("project/test.txt", b"content")
        .with_file("project/.git/config", b"git config");
    let entries = paths(&["project", "project/.git", "project/.git/config", "project/test.txt"]);

    let walker = FileWalker::new(create_test_config(), &fs);
    let files = walker.collect_files(&entries);
    assert_eq!(files.len(), 1);
    assert_eq!(files[0], "project/test.txt");
}

#[test]
fn collected_files_keep_the_order_of_the_walk() {
    let fs = MemFs::new()
        .with_file("p/c.txt", b"")
        .with_file("p/a.txt", b"")
        .with_file("p/b.lock", b"")
        .with_file("p/d.txt", b"");
    let entries = paths(&["p/c.txt", "p/b.lock", "p/gone.txt", "p/a.txt", "p/d.txt"]);
    let walker = FileWalker::new(create_test_config(), &fs);
    assert_eq!(walker.collect_files(&entries), paths(&["p/c.txt", "p/a.txt", "p/d.txt"]));
}

#[test]
fn glob_patterns_match_as_the_glob_crate_says() {
    assert!(glob_matches("*.exe", "binary.exe"));
    assert!(!glob_matches("*.exe", "binary.exe.txt"));
    assert!(glob_matches("c?t", "cat"));
    assert!(glob_matches("k[!e]tteh", "kitteh"));
    assert!(glob_matches("*.bundle.*", "app.bundle.js"));
    assert!(!glob_matches("abc", "ab"));
    assert!(!glob_matches("ab", "ab*"));
    // a pattern that does not compile matches nothing
    assert!(!glob_matches("a**b", "a**b"));
    assert!(!glob_matches("abc[def", "abc[def"));
    assert!(any_glob_matches(&paths(&["*.a", "*.b"]), "x.b"));
    assert!(!any_glob_matches(&paths(&["*.a", "*.b"]), "x.c"));
    assert!(!any_glob_matches(&Vec::new(), "x.c"));
}

#[test]
fn excluded_paths_by_full_path_by_ancestor_and_by_directory_name() {
    let mut config = Config::default();
    config.exclude_paths = paths(&["gen/**", "docs/*.md", "a/b", "bad[pattern/**"]);
    config.exclude_files = paths(&["*.lock"]);
    config.exclude_binary_extensions = paths(&["*.png"]);
    let fs = MemFs::new();
    let walker = FileWalker::new(Arc::new(config), &fs);

    // the name of an ancestor matches what stands before "/**"
    assert!(walker.is_excluded_path("x/gen/out.rs"));
    assert!(walker.is_excluded_path("gen/deep/er/out.rs"));
    assert!(!walker.is_excluded_path("x/generated/out.rs"));
    // the full path matches
    assert!(walker.is_excluded_path("docs/readme.md"));
    assert!(!walker.is_excluded_path("docs/readme.txt"));
    // an ancestor's full path matches
    assert!(walker.is_excluded_path("a/b/c/d.txt"));
    assert!(!walker.is_excluded_path("x/a/b/c.txt"));

    assert!(walker.is_excluded_file("x/Cargo.lock"));
    assert!(!walker.is_excluded_file("x/Cargo.toml"));
    assert!(walker.has_binary_extension("img/a.png"));
    assert!(!walker.has_binary_extension("img/a.txt"));
    assert!(walker.is_excluded("x/Cargo.lock"));
    assert!(walker.is_excluded("img/a.png"));
    assert!(walker.is_excluded("gen/a"));
    assert!(!walker.is_excluded("src/a.rs"));
}

#[test]
fn a_file_is_not_excluded_for_its_own_name() {
    let fs = MemFs::new().with_file("proj/build", b"x").with_file("proj/build/x", b"x");
    let walker = FileWalker::new(create_test_config(), &fs);
    // "build/**" excludes what lies in a directory build, not a file build
    assert!(!walker.is_excluded_path("proj/build"));
    assert!(walker.is_excluded_path("proj/build/x"));
    assert!(walker.is_excluded_path("proj/build/deep/x"));
    for name in ["target", "bin", "out", "dist", "env", "vendor", ".git", "node_modules"] {
        assert!(!walker.is_excluded_path(&format!("proj/{}", name)));
        assert!(!walker.is_excluded_path(name));
        assert!(walker.is_excluded_path(&format!("proj/{}/file", name)));
        assert!(walker.is_excluded_path(&format!("{}/file", name)));
    }
    assert!(walker.should_process_file("proj/build"));
    assert_eq!(
        walker.collect_files(&paths(&["proj/build", "proj/build/x"])),
        paths(&["proj/build"])
    );
}

#[test]
fn a_path_that_a_pattern_matches_whole_is_excluded() {
    let mut config = Config::default();
    config.exclude_paths = paths(&["proj/build", "*.tmp/**"]);
    let fs = MemFs::new();
    let walker = FileWalker::new(Arc::new(config), &fs);
    assert!(walker.is_excluded_path("proj/build"));
    assert!(walker.is_excluded_path("proj/build/x"));
    assert!(!walker.is_excluded_path("proj/x.tmp"));
    assert!(walker.is_excluded_path("proj/x.tmp/y"));
}

#[test]
fn default_patterns_exclude_what_tools_keep() {
    let fs = MemFs::new();
    let walker = FileWalker::new(create_test_config(), &fs);
    for path in [
        "p/.git/config",
        "p/node_modules/x/index.js",
        "target/debug/build.rs",
        "p/x.tmp/file",
        "p/app.min.js",
        "p/yarn.lock",
        "p/photo.jpeg",
        "p/lib.so",
    ] {
        assert!(walker.is_excluded(path));
    }
    for path in ["p/src/main.rs", "p/README.md", "p/gitconfig", "p/targets/x.rs"] {
        assert!(!walker.is_excluded(path));
    }
}

#[test]
fn files_over_the_size_limit_are_passed_over() {
    let mut config = Config::default();
    config.processing.max_file_size = 4;
    let config = Arc::new(config);
    let fs = MemFs::new().with_file("p/small", b"1234").with_file("p/large", b"12345");
    let walker = FileWalker::new(config, &fs);
    assert!(walker.should_process_file("p/small"));
    assert!(!walker.should_process_file("p/large"));
    // metadata that cannot be had passes the file over
    assert!(!walker.should_process_file("p/missing"));
    assert_eq!(walker.collect_files(&paths(&["p/large", "p/small"])), paths(&["p/small"]));
    assert!(walker.size_allows(&fs.metadata("p/small")));
    assert!(!walker.size_allows(&fs.metadata("p/large")));
    assert!(!walker.size_allows(&fs.metadata("p/missing")));
}

#[test]
fn entries_that_are_no_files_are_not_taken() {
    let fs = MemFs::new().with_file("p/a.txt", b"a").with_file("p/a.lock", b"a");
    let walker = FileWalker::new(create_test_config(), &fs);
    assert!(walker.takes_entry("p/a.txt"));
    assert!(!walker.takes_entry("p/a.lock"));
    assert!(!walker.takes_entry("p"));
    assert!(!walker.takes_entry("p/missing.txt"));
}

#[test]
fn process_directory_cleans_and_reports() {
    let mut fs = MemFs::new()
        .with_file("p/a.txt", b"a \n")
        .with_file("p/b.txt", b"b\n")
        .with_file("p/.git/c", b"c \n")
        .with_file("p/d.bin", b"d \n");
    let entries = paths(&["p", "p/.git", "p/.git/c", "p/a.txt", "p/b.txt", "p/d.bin"]);
    let runtime = RuntimeConfig {
        file_config: create_test_config(),
        directories: paths(&["p"]),
        recursive: true,
        dry_run: false,
        threads: 2,
    };
    let outcome = process_directory(&entries, &runtime, &mut fs);
    assert_eq!(outcome.results.file_results.len(), 2);
    assert_eq!(outcome.results.file_results[0].0, "p/a.txt");
    assert_eq!(outcome.results.file_results[1].0, "p/b.txt");
    assert_eq!(outcome.report.lines.len(), 1);
    assert_eq!(outcome.report.lines[0].path, "p/a.txt");
    assert_eq!(outcome.report.lines[0].line_info, "(1)");
    assert_eq!(fs.get_content("p/a.txt").unwrap(), b"a\n");
    assert_eq!(fs.get_content("p/.git/c").unwrap(), b"c \n");
    assert_eq!(fs.get_content("p/d.bin").unwrap(), b"d \n");
}

#[test]
fn process_directory_in_a_dry_run_writes_nothing() {
    let mut fs = MemFs::new().with_file("p/a.txt", b"a \n");
    let runtime = RuntimeConfig {
        file_config: create_test_config(),
        directories: paths(&["p"]),
        recursive: true,
        dry_run: true,
        threads: 0,
    };
    let outcome = process_directory(&paths(&["p/a.txt"]), &runtime, &mut fs);
    assert_eq!(outcome.report.files_with_changes(), 1);
    assert_eq!(fs.get_content("p/a.txt").unwrap(), b"a \n");
}

#[test]
fn targets_are_told_apart() {
    assert_eq!(classify_target(false, false), TargetStatus::Missing);
    assert_eq!(classify_target(false, true), TargetStatus::Missing);
    assert_eq!(classify_target(true, false), TargetStatus::NotADirectory);
    assert_eq!(classify_target(true, true), TargetStatus::Ready);
    let fs = MemFs::new().with_file("file", b"");
    assert_eq!(check_target(&fs, "nothing"), TargetStatus::Missing);
    assert_eq!(check_target(&fs, "file"), TargetStatus::NotADirectory);
}

#[test]
fn totals_add_up() {
    let mut totals = RunTotals::new();
    assert!(totals.nothing_processed());
    totals.record(3);
    totals.record(0);
    totals.record(4);
    assert!(!totals.nothing_processed());
    assert_eq!(totals.files_with_changes, 7);
    assert_eq!(totals.files_modified, 7);
    assert_eq!(totals.processed_dirs, 3);
    totals.record(usize::MAX);
    assert_eq!(totals.files_with_changes, usize::MAX);
    assert_eq!(totals.processed_dirs, 4);
}

#[test]
fn runtime_config_takes_the_command_line_first() {
    assert_eq!(choose_threads(3, 8, 5), 3);
    assert_eq!(choose_threads(8, 8, 5), 5);
    assert_eq!(choose_threads(0, 8, 5), 0);

    let cli = Cli {
        directories: Vec::new(),
        config: None,
        dry_run: true,
        verbose: false,
        recursive: false,
        threads: usize::MAX,
    };
    let runtime = RuntimeConfig::resolve(&cli, create_test_config());
    assert_eq!(runtime.directories, paths(&["."]));
    assert!(runtime.dry_run);
    assert!(!runtime.recursive);
    assert_eq!(runtime.threads, usize::MAX);

    let cli = Cli { directories: paths(&["a", "b"]), ..cli };
    let runtime = RuntimeConfig::resolve(&cli, create_test_config());
    assert_eq!(runtime.directories, paths(&["a", "b"]));
}
