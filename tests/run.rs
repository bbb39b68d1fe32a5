use bidi_detector::{
    check_patterns, get_default_config, is_selected, matches_exclude, DisplaySettings, FileAction, FileEvent,
    RunSummary, SelectionError,
};

fn display(show_details: bool, ignore: Option<bool>, verbose: Option<bool>) -> DisplaySettings {
    DisplaySettings { show_details, ignore_invalid_data: ignore, verbose }
}

fn strings(v: &[&str]) -> Vec<String> {
    v.iter().map(|s| s.to_string()).collect()
}

#[test]
fn default_config_values() {
    let c = get_default_config();
    assert_eq!(c.general.includes, strings(&["**/*"]));
    assert_eq!(c.general.excludes.len(), 12);
    assert_eq!(c.general.excludes[0], "**/*.jpg");
    assert_eq!(c.general.excludes[11], "**/.git/*");
    assert!(c.display.show_details);
    assert_eq!(c.display.ignore_invalid_data, Some(true));
    assert_eq!(c.display.verbose, Some(true));
}

#[test]
fn unset_display_options_default_to_on() {
    let d = display(false, None, None);
    assert!(d.verbose_output());
    assert!(d.ignores_invalid_data());
    let d = display(false, Some(false), Some(false));
    assert!(!d.verbose_output());
    assert!(!d.ignores_invalid_data());
}

#[test]
fn exclude_matches_with_glob() {
    let ex = strings(&["**/*.png", "**/.git/*"]);
    assert_eq!(matches_exclude(&ex, "img/logo.png").unwrap(), true);
    assert_eq!(matches_exclude(&ex, "repo/.git/config").unwrap(), true);
    assert_eq!(matches_exclude(&ex, "src/lib.rs").unwrap(), false);
    assert_eq!(matches_exclude(&[], "src/lib.rs").unwrap(), false);
}

#[test]
fn malformed_exclude_pattern_is_an_error() {
    let ex = strings(&["a**b"]);
    match matches_exclude(&ex, "src/lib.rs") {
        Err(SelectionError::InvalidPattern { pattern, .. }) => assert_eq!(pattern, "a**b"),
        Ok(_) => panic!("pattern accepted"),
    }
    // A malformed pattern is an error even when an earlier one matches.
    let ex = strings(&["*.rs", "[abc"]);
    match matches_exclude(&ex, "lib.rs") {
        Err(SelectionError::InvalidPattern { pattern, .. }) => assert_eq!(pattern, "[abc"),
        Ok(_) => panic!("pattern accepted"),
    }
    assert!(is_selected(&ex, "lib.rs", true).is_err());
    assert!(is_selected(&ex, "dir", false).is_err());
}

#[test]
fn all_patterns_are_checked_before_scanning() {
    let good = strings(&["**/*", "src/*.rs"]);
    assert!(check_patterns(&good, &get_default_config().general.excludes).is_ok());
    assert!(check_patterns(&[], &[]).is_ok());
    match check_patterns(&strings(&["src/*", "***"]), &good) {
        Err(SelectionError::InvalidPattern { pattern, .. }) => assert_eq!(pattern, "***"),
        Ok(_) => panic!("pattern accepted"),
    }
    match check_patterns(&good, &strings(&["*.png", "a/**b"])) {
        Err(SelectionError::InvalidPattern { pattern, .. }) => assert_eq!(pattern, "a/**b"),
        Ok(_) => panic!("pattern accepted"),
    }
}

#[test]
fn exclude_wins_over_include() {
    let ex = strings(&["*.js", "src/*"]);
    assert_eq!(is_selected(&ex, "test/a.js", true).unwrap(), false);
    assert_eq!(is_selected(&ex, "src/lib.rs", true).unwrap(), false);
    assert_eq!(is_selected(&ex, "README.md", true).unwrap(), true);
    assert_eq!(is_selected(&ex, "README.md", false).unwrap(), false);
}

#[test]
fn total_is_sum_of_file_counts() {
    let d = display(true, Some(true), Some(false));
    let mut s = RunSummary::new();
    assert!(!s.found_any());
    assert_eq!(s.exit_code(), 0);
    match s.handle_file(&d, FileEvent::Read("plain text\n".to_string())) {
        FileAction::Report { count, show_count, details } => {
            assert_eq!(count, 0);
            assert!(!show_count);
            assert!(details.is_empty());
        }
        _ => panic!("expected a report"),
    }
    assert_eq!(s.exit_code(), 0);
    match s.handle_file(&d, FileEvent::Read("a\u{202E}b\n\u{2066}".to_string())) {
        FileAction::Report { count, show_count, details } => {
            assert_eq!(count, 2);
            assert!(show_count);
            assert_eq!(details.len(), 2);
            assert_eq!(details[0].detail.abbreviation, "RLO");
            assert_eq!(details[0].occurrence.char_pos, 2);
            assert_eq!(details[1].detail.abbreviation, "LRI");
            assert_eq!(details[1].occurrence.line, 2);
        }
        _ => panic!("expected a report"),
    }
    s.handle_file(&d, FileEvent::Read("\u{2069}\u{2069}\u{2069}".to_string()));
    assert_eq!(s.file_counts, vec![0, 2, 3]);
    assert_eq!(s.total, 5);
    assert!(s.found_any());
    assert_eq!(s.exit_code(), 1);
}

#[test]
fn verbose_shows_empty_files_and_details_can_be_off() {
    let d = display(false, None, Some(true));
    let mut s = RunSummary::new();
    match s.handle_file(&d, FileEvent::Read("x\u{202A}".to_string())) {
        FileAction::Report { count, show_count, details } => {
            assert_eq!(count, 1);
            assert!(show_count);
            assert!(details.is_empty());
        }
        _ => panic!("expected a report"),
    }
    match s.handle_file(&d, FileEvent::Read(String::new())) {
        FileAction::Report { show_count, .. } => assert!(show_count),
        _ => panic!("expected a report"),
    }
}

#[test]
fn read_failures_follow_the_policy() {
    let mut s = RunSummary::new();
    let ignoring = display(true, Some(true), None);
    let strict = display(true, Some(false), None);
    assert!(matches!(
        s.handle_file(&ignoring, FileEvent::ReadFailed { invalid_data: true }),
        FileAction::Skip
    ));
    assert!(matches!(
        s.handle_file(&ignoring, FileEvent::ReadFailed { invalid_data: false }),
        FileAction::ReportReadError
    ));
    assert!(matches!(
        s.handle_file(&strict, FileEvent::ReadFailed { invalid_data: true }),
        FileAction::ReportReadError
    ));
    assert_eq!(s.total, 0);
    assert!(s.file_counts.is_empty());
}

#[test]
fn count_that_would_overflow_is_not_added() {
    let d = display(false, None, None);
    let mut s = RunSummary { total: u64::MAX, file_counts: vec![u64::MAX] };
    assert!(matches!(
        s.handle_file(&d, FileEvent::Read("\u{202A}".to_string())),
        FileAction::CountOverflow
    ));
    assert_eq!(s.total, u64::MAX);
    assert_eq!(s.file_counts, vec![u64::MAX]);
}
