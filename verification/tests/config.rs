use whitespace::config::{
    deserialize_threads_value, resolve_threads, resolve_worker_count, validate_threads, Threads,
    ThreadsValue, DEFAULT_MAX_FILE_SIZE, DEFAULT_SAMPLE_SIZE,
};
use whitespace::{BinaryDetection, Config, ProcessingSettings};

#[test]
fn default_config_has_the_documented_values() {
    let config = Config::default();
    assert!(config.file_extensions.is_empty());
    assert_eq!(config.exclude_paths.len(), 25);
    assert_eq!(config.exclude_paths[0], ".git/**");
    assert_eq!(config.exclude_paths[24], "vendor/**");
    assert!(config.exclude_paths.contains(&"node_modules/**".to_string()));
    assert_eq!(
        config.exclude_files,
        vec!["*.min.js", "*.min.css", "*.bundle.*", "*.lock", "*.log"]
    );
    assert_eq!(config.exclude_binary_extensions.len(), 42);
    assert_eq!(config.exclude_binary_extensions[0], "*.exe");
    assert_eq!(config.exclude_binary_extensions[41], "*.jar");
    assert!(config.binary_detection.check_null_bytes);
    assert_eq!(config.binary_detection.sample_size, 8192);
    assert_eq!(config.processing.max_file_size, 100 * 1024 * 1024);
    assert!(config.processing.threads >= 1);
    assert_eq!(config.processing.threads, num_cpus::get());
    assert_eq!(DEFAULT_MAX_FILE_SIZE, 104857600);
    assert_eq!(DEFAULT_SAMPLE_SIZE, 8192);
}

#[test]
fn default_parts_agree_with_the_whole() {
    let detection = BinaryDetection::default();
    assert!(detection.check_null_bytes);
    assert_eq!(detection.sample_size, 8192);
    let settings = ProcessingSettings::default();
    assert_eq!(settings.max_file_size, 104857600);
    assert!(settings.threads >= 1);
}

#[test]
fn threads_value_numeric() {
    assert_eq!(validate_threads(ThreadsValue::Unsigned(8)).unwrap(), Threads::Count(8));
    assert_eq!(deserialize_threads_value(ThreadsValue::Unsigned(8)).unwrap(), 8);
    assert_eq!(deserialize_threads_value(ThreadsValue::Unsigned(1)).unwrap(), 1);
}

#[test]
fn threads_value_nproc() {
    assert_eq!(
        validate_threads(ThreadsValue::Text("nproc".to_string())).unwrap(),
        Threads::Autodetect
    );
    assert_eq!(
        deserialize_threads_value(ThreadsValue::Text("nproc".to_string())).unwrap(),
        num_cpus::get()
    );
}

#[test]
fn threads_value_zero() {
    let error = deserialize_threads_value(ThreadsValue::Unsigned(0)).unwrap_err();
    assert_eq!(error, "threads must be greater than 0");
}

#[test]
fn threads_value_invalid_string() {
    let error = deserialize_threads_value(ThreadsValue::Text("invalid".to_string())).unwrap_err();
    assert!(error.contains("invalid thread value"));
    assert_eq!(error, "invalid thread value: 'invalid', expected a positive integer or 'nproc'");
    let error = validate_threads(ThreadsValue::Text("NPROC".to_string())).unwrap_err();
    assert_eq!(error, "invalid thread value: 'NPROC', expected a positive integer or 'nproc'");
}

#[test]
fn threads_value_of_another_kind() {
    assert_eq!(
        deserialize_threads_value(ThreadsValue::OtherNumber).unwrap_err(),
        "threads must be a positive integer"
    );
    assert_eq!(
        deserialize_threads_value(ThreadsValue::Other).unwrap_err(),
        "threads must be a positive integer or the string 'nproc'"
    );
}

#[test]
fn worker_count_is_at_least_one() {
    assert_eq!(resolve_worker_count(3), 3);
    assert_eq!(resolve_worker_count(0), num_cpus::get());
    assert_eq!(resolve_threads(Threads::Count(2)), 2);
    assert_eq!(resolve_threads(Threads::Autodetect), num_cpus::get());
    assert!(resolve_threads(Threads::Count(0)) >= 1);
}

#[test]
fn settings_from_parts_fill_in_defaults() {
    let settings = ProcessingSettings::from_parts(Some(5000000), None);
    assert_eq!(settings.max_file_size, 5000000);
    assert_eq!(settings.threads, num_cpus::get());
    let settings = ProcessingSettings::from_parts(None, Some(8));
    assert_eq!(settings.max_file_size, 104857600);
    assert_eq!(settings.threads, 8);
    let settings = ProcessingSettings::from_parts(Some(2000000), Some(8));
    assert_eq!(settings.max_file_size, 2000000);
    assert_eq!(settings.threads, 8);
}
