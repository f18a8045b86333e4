use mark::syntax_report::{
    add_report, available_report, path_report, clean_report, decimal_string, doctor_report, pad, remove_report, state_label,
    status_header, status_line, statuses_report, update_report, SyntaxAddResult,
    SyntaxCleanResult, SyntaxIssue, SyntaxLanguageStatus, SyntaxRemoveResult, SyntaxUpdateResult,
};

fn strings(v: &[&str]) -> Vec<String> {
    v.iter().map(|s| (*s).to_owned()).collect()
}

fn rust_status() -> SyntaxLanguageStatus {
    SyntaxLanguageStatus {
        language: "rust".to_owned(),
        enabled: true,
        installed: true,
        has_highlights: true,
        trusted: true,
        version: Some("0.23.2".to_owned()),
        source: None,
    }
}

#[test]
fn columns_are_padded_like_format_fields() {
    assert_eq!(pad("ab", 5), format!("{:<5}", "ab"));
    assert_eq!(pad("abcdef", 3), "abcdef");
    assert_eq!(pad("é", 3), format!("{:<3}", "é"));
    assert_eq!(
        status_header(false),
        format!("{:<20} {:<11} {:<8} {:<12} {}\n", "language", "status", "syntax", "version", "source")
    );
    assert_eq!(
        status_header(true),
        format!("{:<20} {:<11} {:<9} {:<8} {:<12} {}\n", "language", "status", "trusted", "syntax", "version", "source")
    );
}

#[test]
fn status_rows_show_state_and_defaults() {
    let s = rust_status();
    assert_eq!(
        status_line(&s, true),
        format!("{:<20} {:<11} {:<9} {:<8} {:<12} {}\n", "rust", "enabled", "yes", "yes", "0.23.2", "-")
    );
    let missing = SyntaxLanguageStatus { installed: false, has_highlights: false, version: None, ..rust_status() };
    assert_eq!(
        status_line(&missing, false),
        format!("{:<20} {:<11} {:<8} {:<12} {}\n", "rust", "missing", "plain", "-", "-")
    );
    assert_eq!(state_label(true, true), "enabled");
    assert_eq!(state_label(true, false), "missing");
    assert_eq!(state_label(false, true), "installed");
    assert_eq!(state_label(false, false), "unknown");
    let report = statuses_report(&vec![rust_status(), missing], false);
    assert_eq!(report.lines().count(), 3);
}

#[test]
fn results_are_reported_line_by_line() {
    let add = SyntaxAddResult {
        added: strings(&["rust"]),
        already_enabled: strings(&["go"]),
        without_highlights: strings(&["toml"]),
    };
    assert_eq!(
        add_report(&add),
        "+ enabled rust\n= enabled go\nwarning toml: no bundled highlights query; diff will render plain text\n"
    );
    let empty = SyntaxUpdateResult {
        updated: vec![],
        bundled: vec![],
        not_installed: vec![],
        unavailable: vec![],
        without_highlights: vec![],
    };
    assert_eq!(update_report(&empty), "no parser caches to update\n");
    let update = SyntaxUpdateResult {
        updated: strings(&["rust"]),
        bundled: strings(&["c"]),
        not_installed: strings(&["zig"]),
        unavailable: strings(&["nope"]),
        without_highlights: vec![],
    };
    assert_eq!(
        update_report(&update),
        "~ updated parser cache rust\n= bundled parser c\n= not installed zig\nwarning nope: language is not known\n"
    );
    let remove = SyntaxRemoveResult {
        removed: strings(&["rust"]),
        missing: strings(&["go"]),
        cache_deleted: strings(&["rust"]),
        cache_missing: strings(&["go"]),
    };
    assert_eq!(
        remove_report(&remove),
        "- disabled rust in config\n= not enabled in config go\n- deleted parser cache rust\n= no parser cache go\n"
    );
}

#[test]
fn doctor_and_clean_reports() {
    let statuses = vec![rust_status()];
    let ok = doctor_report(&statuses, &vec![]);
    assert!(ok.ends_with("ok\n"));
    assert!(ok.starts_with(&status_header(true)));
    let issues = vec![SyntaxIssue { language: "rust".to_owned(), message: "checksum mismatch".to_owned() }];
    assert!(doctor_report(&statuses, &issues).ends_with("warning rust: checksum mismatch\n"));
    assert_eq!(
        clean_report(&SyntaxCleanResult { parser_artifacts_removed: 12, artifact_records_removed: 0, enabled_languages_kept: 105 }),
        "removed 12 parser artifacts and 0 checksum records\nkept 105 enabled-language config entries\n"
    );
    assert_eq!(decimal_string(0), "0");
    assert_eq!(decimal_string(9070), "9070");
    assert_eq!(decimal_string(usize::MAX), usize::MAX.to_string());
}

#[test]
fn path_and_available_reports() {
    assert_eq!(available_report(&strings(&["go", "rust"])), "go\nrust\n");
    assert_eq!(available_report(&vec![]), "");
    assert_eq!(
        path_report("/c", "/r", "/s", "/k"),
        format!("cache       {}\nregistry    {}\nconfig      {}\ncolorscheme {}\n", "/c", "/r", "/s", "/k")
    );
}
