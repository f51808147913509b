use whitespace::report::ReportSummary;
use whitespace::{display_results, format_line_numbers, ProcessingResult};

fn result(lines: Vec<usize>, error: Option<&str>) -> ProcessingResult {
    ProcessingResult {
        had_changes: !lines.is_empty(),
        lines_modified: lines,
        error: error.map(|e| e.to_string()),
    }
}

#[test]
fn test_format_line_numbers_empty() {
    assert_eq!(format_line_numbers(&[]), "");
}

#[test]
fn test_format_line_numbers_single() {
    assert_eq!(format_line_numbers(&[5]), "(5)");
}

#[test]
fn test_format_line_numbers_range() {
    assert_eq!(format_line_numbers(&[1, 2, 3]), "(1-3)");
}

#[test]
fn test_format_line_numbers_mixed() {
    assert_eq!(format_line_numbers(&[1, 2, 3, 5, 7, 8, 9]), "(1-3,5,7-9)");
}

#[test]
fn test_format_line_numbers_separate() {
    assert_eq!(format_line_numbers(&[1, 3, 5]), "(1,3,5)");
}

#[test]
fn format_line_numbers_writes_many_digits() {
    assert_eq!(format_line_numbers(&[9, 10, 11, 99, 100, 12345]), "(9-11,99-100,12345)");
    assert_eq!(format_line_numbers(&[0]), "(0)");
    assert_eq!(format_line_numbers(&[1000000, 1000001]), "(1000000-1000001)");
}

#[test]
fn format_line_numbers_at_the_largest_number() {
    let max = usize::MAX;
    assert_eq!(format_line_numbers(&[max - 1, max]), format!("({}-{})", max - 1, max));
    assert_eq!(format_line_numbers(&[max, 0]), format!("({},0)", max));
}

#[test]
fn format_line_numbers_takes_numbers_as_they_come() {
    assert_eq!(format_line_numbers(&[3, 2, 1]), "(3,2,1)");
    assert_eq!(format_line_numbers(&[2, 2, 3]), "(2,2-3)");
}

#[test]
fn report_lists_files_with_changes_and_no_error() {
    let results = vec![
        ("a.txt".to_string(), result(vec![1, 2, 3, 5], None)),
        ("b.txt".to_string(), result(vec![], None)),
        ("c.txt".to_string(), result(vec![4], Some("Failed to write file: no"))),
        ("d.txt".to_string(), result(vec![7], None)),
    ];
    let report = display_results(&results, false);
    assert_eq!(report.lines.len(), 2);
    assert_eq!(report.lines[0].path, "a.txt");
    assert_eq!(report.lines[0].line_info, "(1-3,5)");
    assert_eq!(report.lines[1].path, "d.txt");
    assert_eq!(report.lines[1].line_info, "(7)");
    assert_eq!(report.summary, ReportSummary::Cleaned(2));
    assert_eq!(report.files_with_changes(), 2);

    let report = display_results(&results, true);
    assert_eq!(report.summary, ReportSummary::NotCleaned(2));
}

#[test]
fn report_of_nothing_found() {
    let results = vec![("b.txt".to_string(), result(vec![], None))];
    assert_eq!(display_results(&results, false).summary, ReportSummary::NothingFound);
    assert_eq!(display_results(&results, true).summary, ReportSummary::NothingFound);
    assert_eq!(display_results(&Vec::new(), true).lines.len(), 0);
}
