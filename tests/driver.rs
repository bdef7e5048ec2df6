use tree_sitter_driver::driver::{
    batch_exit_code, batch_had_error, parse_bound, parse_timeout, resolution_step,
    start_resolution, DriverError, FileOutcome, LanguageSource, Resolution,
};

#[test]
fn explicit_scope_is_looked_up_first() {
    assert_eq!(start_resolution(true), Resolution::Look(LanguageSource::Scope));
    assert_eq!(start_resolution(false), Resolution::Look(LanguageSource::FileName));
}

#[test]
fn unknown_scope_is_fatal() {
    assert_eq!(resolution_step(LanguageSource::Scope, false), Resolution::UnknownScope);
    assert_eq!(
        resolution_step(LanguageSource::Scope, true),
        Resolution::Found(LanguageSource::Scope)
    );
}

#[test]
fn file_name_falls_back_to_current_directory() {
    assert_eq!(
        resolution_step(LanguageSource::FileName, false),
        Resolution::Look(LanguageSource::CurrentDirectory)
    );
    assert_eq!(
        resolution_step(LanguageSource::FileName, true),
        Resolution::Found(LanguageSource::FileName)
    );
    assert_eq!(
        resolution_step(LanguageSource::CurrentDirectory, false),
        Resolution::NotFound
    );
    assert_eq!(
        resolution_step(LanguageSource::CurrentDirectory, true),
        Resolution::Found(LanguageSource::CurrentDirectory)
    );
}

#[test]
fn bound_without_cancellation_never_attaches_flag() {
    let b = parse_bound(false, 500);
    assert!(!b.cancellation);
    assert_eq!(b.timeout_micros, Some(500));
}

#[test]
fn zero_timeout_is_unbounded() {
    let b = parse_bound(true, 0);
    assert!(b.cancellation);
    assert_eq!(b.timeout_micros, None);
    assert_eq!(parse_bound(true, u64::MAX).timeout_micros, Some(u64::MAX));
}

#[test]
fn timeout_argument_parses_decimal() {
    assert_eq!(parse_timeout("0"), Ok(0));
    assert_eq!(parse_timeout("1500"), Ok(1500));
    assert_eq!(parse_timeout("+42"), Ok(42));
    assert_eq!(parse_timeout("18446744073709551615"), Ok(u64::MAX));
}

#[test]
fn malformed_timeout_is_rejected() {
    assert_eq!(parse_timeout(""), Err(DriverError::MalformedTimeout));
    assert_eq!(parse_timeout("+"), Err(DriverError::MalformedTimeout));
    assert_eq!(parse_timeout("-1"), Err(DriverError::MalformedTimeout));
    assert_eq!(parse_timeout("12a"), Err(DriverError::MalformedTimeout));
    assert_eq!(parse_timeout("18446744073709551616"), Err(DriverError::MalformedTimeout));
}

#[test]
fn failed_resolution_in_batch_fails_the_run() {
    let outcomes = vec![
        FileOutcome::Parsed { successful: true },
        FileOutcome::NoLanguage,
        FileOutcome::Parsed { successful: true },
    ];
    assert!(batch_had_error(&outcomes));
    assert_eq!(batch_exit_code(&outcomes), 1);
}

#[test]
fn batch_of_clean_parses_succeeds() {
    let outcomes = vec![
        FileOutcome::Parsed { successful: true },
        FileOutcome::Parsed { successful: true },
    ];
    assert!(!batch_had_error(&outcomes));
    assert_eq!(batch_exit_code(&outcomes), 0);
    assert_eq!(batch_exit_code(&[]), 0);
}

#[test]
fn parse_with_errors_fails_the_run() {
    let outcomes = vec![FileOutcome::Parsed { successful: false }];
    assert_eq!(batch_exit_code(&outcomes), 1);
}
