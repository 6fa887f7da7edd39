use valbak::codec::{parse_settings, render_settings};
use valbak::defaults::default_settings_from;
use valbak::errors::SettingsError;
use valbak::model::{join_path, BackupFilePattern, Settings, SETTINGS_VERSION};
use valbak::resolve::{finish_first_run, get_settings, ResolveStep};
use valbak::store::{get_settings_file_path, read_settings, write_settings, ReadOutcome,
    WriteOutcome};
use valbak::validate::{needs_remediation, remediation_prompt, validate_settings, RemedyChoice};

fn pattern(dir: &str, glob: &str) -> BackupFilePattern {
    BackupFilePattern {
        source_dir: dir.to_string(),
        filename_pattern: glob.to_string(),
    }
}

fn settings(patterns: Vec<BackupFilePattern>, dest: &str) -> Settings {
    Settings {
        settings_version: SETTINGS_VERSION.to_string(),
        backup_patterns: patterns,
        backup_dest_path: dest.to_string(),
        backup_count: 5,
        backup_delay_sec: 10,
    }
}

fn warning_message(r: Result<Settings, SettingsError>) -> String {
    match r {
        Err(SettingsError::SWarning(_, msg)) => msg,
        _ => panic!("expected a warning"),
    }
}

#[test]
fn join_path_inserts_separator() {
    assert_eq!(join_path("/a/b", "*.db"), "/a/b/*.db");
}

#[test]
fn join_path_keeps_existing_separator() {
    assert_eq!(join_path("/a/b/", "*.db"), "/a/b/*.db");
}

#[test]
fn join_path_empty_base() {
    assert_eq!(join_path("", "Valbak"), "Valbak");
}

#[test]
fn join_path_absolute_component_replaces() {
    assert_eq!(join_path("/a", "/b"), "/b");
}

#[test]
fn to_path_joins_dir_and_pattern() {
    let p = pattern("/saves", "*.db");
    assert_eq!(p.to_path(), "/saves/*.db");
}

#[test]
fn error_to_string_not_found() {
    let e = SettingsError::SNotFound(None);
    assert_eq!(e.to_string(), "Settings Not Found");
}

#[test]
fn error_to_string_warning_carries_message() {
    let e = SettingsError::SWarning(settings(vec![], ""), "trouble".to_string());
    assert_eq!(e.to_string(), "trouble");
}

#[test]
fn error_to_string_error_carries_message() {
    let e = SettingsError::SError("bad".to_string());
    assert_eq!(e.to_string(), "bad");
}

#[test]
fn render_produces_exact_text() {
    let s = settings(vec![pattern("/saves", "*.db")], "/backup");
    let text = render_settings(&s);
    assert_eq!(
        text,
        "{\"settings_version\":\"1\",\"backup_patterns\":[{\"source_dir\":\"/saves\",\"filename_pattern\":\"*.db\"}],\"backup_dest_path\":\"/backup\",\"backup_count\":5,\"backup_delay_sec\":10}"
    );
}

#[test]
fn render_escapes_quotes_and_backslashes() {
    let s = settings(vec![], "C:\\Users\\a\"b");
    let text = render_settings(&s);
    assert_eq!(
        text,
        "{\"settings_version\":\"1\",\"backup_patterns\":[],\"backup_dest_path\":\"C:\\\\Users\\\\a\\\"b\",\"backup_count\":5,\"backup_delay_sec\":10}"
    );
}

#[test]
fn round_trip_plain_settings() {
    let s = settings(
        vec![pattern("/saves", "*.db"), pattern("/saves/worlds", "*.fwl")],
        "/backup",
    );
    let text = render_settings(&s);
    let back = parse_settings(&text).expect("rendered text must parse");
    assert!(back.eq_value(&s));
}

#[test]
fn round_trip_empty_patterns_and_dest() {
    let s = settings(vec![], "");
    let text = render_settings(&s);
    let back = parse_settings(&text).expect("rendered text must parse");
    assert!(back.eq_value(&s));
}

#[test]
fn round_trip_with_escapes_and_extreme_counts() {
    let mut s = settings(
        vec![pattern("C:\\Games\\\"Valheim\"", "*.db")],
        "D:\\back\\up",
    );
    s.backup_count = 255;
    s.backup_delay_sec = 100;
    let text = render_settings(&s);
    let back = parse_settings(&text).expect("rendered text must parse");
    assert!(back.eq_value(&s));
}

#[test]
fn parse_accepts_handwritten_text() {
    let text = "{\"settings_version\":\"1\",\"backup_patterns\":[{\"source_dir\":\"/saves\",\"filename_pattern\":\"*.db\"},{\"source_dir\":\"/chars\",\"filename_pattern\":\"*.fch\"}],\"backup_dest_path\":\"/backup\",\"backup_count\":3,\"backup_delay_sec\":30}";
    let s = parse_settings(text).expect("text must parse");
    assert_eq!(s.settings_version, "1");
    assert_eq!(s.backup_patterns.len(), 2);
    assert_eq!(s.backup_patterns[0].source_dir, "/saves");
    assert_eq!(s.backup_patterns[1].filename_pattern, "*.fch");
    assert_eq!(s.backup_dest_path, "/backup");
    assert_eq!(s.backup_count, 3);
    assert_eq!(s.backup_delay_sec, 30);
}

#[test]
fn parse_rejects_malformed_text() {
    assert!(parse_settings("").is_none());
    assert!(parse_settings("{}").is_none());
    // trailing bytes after the closing brace
    assert!(parse_settings(
        "{\"settings_version\":\"1\",\"backup_patterns\":[],\"backup_dest_path\":\"\",\"backup_count\":5,\"backup_delay_sec\":10} "
    )
    .is_none());
    // a leading zero is not a rendered number
    assert!(parse_settings(
        "{\"settings_version\":\"1\",\"backup_patterns\":[],\"backup_dest_path\":\"\",\"backup_count\":05,\"backup_delay_sec\":10}"
    )
    .is_none());
    // out of range for the counter
    assert!(parse_settings(
        "{\"settings_version\":\"1\",\"backup_patterns\":[],\"backup_dest_path\":\"\",\"backup_count\":256,\"backup_delay_sec\":10}"
    )
    .is_none());
}

#[test]
fn defaults_without_local_dir_are_empty() {
    let s = default_settings_from(None, Some("/home/u/Documents".to_string()));
    assert_eq!(s.settings_version, "1");
    assert!(s.backup_patterns.is_empty());
    assert_eq!(s.backup_dest_path, "");
    assert_eq!(s.backup_count, 5);
    assert_eq!(s.backup_delay_sec, 10);
}

#[test]
fn defaults_with_both_dirs() {
    let s = default_settings_from(
        Some("/home/u/.local/share".to_string()),
        Some("/home/u/Documents".to_string()),
    );
    assert_eq!(s.backup_patterns.len(), 3);
    assert_eq!(
        s.backup_patterns[0].source_dir,
        "/home/u/.local/shareLow/IronGate/Valheim/worlds"
    );
    assert_eq!(s.backup_patterns[0].filename_pattern, "*.db");
    assert_eq!(s.backup_patterns[1].filename_pattern, "*.fwl");
    assert_eq!(
        s.backup_patterns[2].source_dir,
        "/home/u/.local/shareLow/IronGate/Valheim/characters"
    );
    assert_eq!(s.backup_patterns[2].filename_pattern, "*.fch");
    assert_eq!(s.backup_dest_path, "/home/u/Documents/Valbak");
    assert_eq!(s.backup_count, 5);
    assert_eq!(s.backup_delay_sec, 10);
}

#[test]
fn defaults_without_documents_dir_leave_dest_unset() {
    let s = default_settings_from(Some("/data".to_string()), None);
    assert_eq!(s.backup_dest_path, "");
    assert_eq!(s.backup_patterns.len(), 3);
}

#[test]
fn render_escapes_control_characters() {
    let s = settings(vec![], "a\nb");
    let text = render_settings(&s);
    assert_eq!(
        text,
        "{\"settings_version\":\"1\",\"backup_patterns\":[],\"backup_dest_path\":\"a\\u000ab\",\"backup_count\":5,\"backup_delay_sec\":10}"
    );
}

#[test]
fn round_trip_with_control_characters() {
    let s = settings(
        vec![pattern("/sa\tves", "*.db")],
        "a\nb\u{1}c",
    );
    let text = render_settings(&s);
    let back = parse_settings(&text).expect("rendered text must parse");
    assert!(back.eq_value(&s));
}

#[test]
fn round_trip_newline_version() {
    let mut s = settings(vec![], "");
    s.settings_version = "\n".to_string();
    let text = render_settings(&s);
    let back = parse_settings(&text).expect("rendered text must parse");
    assert!(back.eq_value(&s));
}

#[test]
fn parse_accepts_uppercase_hex_escape() {
    let text = "{\"settings_version\":\"1\",\"backup_patterns\":[],\"backup_dest_path\":\"a\\u000Ab\",\"backup_count\":5,\"backup_delay_sec\":10}";
    let s = parse_settings(text).expect("text must parse");
    assert_eq!(s.backup_dest_path, "a\nb");
}

#[test]
fn parse_accepts_short_escapes() {
    let text = "{\"settings_version\":\"1\",\"backup_patterns\":[],\"backup_dest_path\":\"a\\tb\\nc\\/d\",\"backup_count\":5,\"backup_delay_sec\":10}";
    let s = parse_settings(text).expect("text must parse");
    assert_eq!(s.backup_dest_path, "a\tb\nc/d");
}

#[test]
fn parse_rejects_unknown_escape() {
    let text = "{\"settings_version\":\"1\",\"backup_patterns\":[],\"backup_dest_path\":\"a\\xb\",\"backup_count\":5,\"backup_delay_sec\":10}";
    assert!(parse_settings(text).is_none());
}

#[test]
fn parse_rejects_hex_escape_outside_control_range() {
    let text = "{\"settings_version\":\"1\",\"backup_patterns\":[],\"backup_dest_path\":\"\\u0041\",\"backup_count\":5,\"backup_delay_sec\":10}";
    assert!(parse_settings(text).is_none());
    let short = "{\"settings_version\":\"1\",\"backup_patterns\":[],\"backup_dest_path\":\"\\u00\",\"backup_count\":5,\"backup_delay_sec\":10}";
    assert!(parse_settings(short).is_none());
}

#[test]
fn defaults_are_deterministic() {
    let a = default_settings_from(
        Some("/data".to_string()),
        Some("/docs".to_string()),
    );
    let b = default_settings_from(
        Some("/data".to_string()),
        Some("/docs".to_string()),
    );
    assert!(a.eq_value(&b));
}

#[test]
fn validate_missing_source_dir_rejected() {
    let s = settings(vec![pattern("/nonexistent", "*.db")], "/backup");
    let r = validate_settings(s, &vec![false], true, RemedyChoice::Accept);
    assert_eq!(
        warning_message(r),
        "Backup folder does not exist: /nonexistent"
    );
}

#[test]
fn validate_missing_dir_takes_priority_over_bad_glob() {
    let s = settings(
        vec![pattern("/saves", "["), pattern("/nonexistent", "*.db")],
        "/backup",
    );
    let r = validate_settings(s, &vec![true, false], true, RemedyChoice::Accept);
    assert_eq!(
        warning_message(r),
        "Backup folder does not exist: /nonexistent"
    );
}

#[test]
fn validate_empty_dest_rejected_without_touching_dest() {
    let s1 = settings(vec![pattern("/saves", "*.db")], "");
    let r1 = validate_settings(s1, &vec![true], false, RemedyChoice::Decline);
    assert_eq!(warning_message(r1), "Missing destination folder");
    let s2 = settings(vec![pattern("/saves", "*.db")], "");
    let r2 = validate_settings(s2, &vec![true], true, RemedyChoice::Accept);
    assert_eq!(warning_message(r2), "Missing destination folder");
}

#[test]
fn validate_empty_patterns_accepted() {
    let s1 = settings(vec![], "");
    assert!(validate_settings(s1, &vec![], false, RemedyChoice::Decline).is_ok());
    let s2 = settings(vec![], "/backup");
    assert!(validate_settings(s2, &vec![], true, RemedyChoice::Decline).is_ok());
    let s3 = settings(vec![], "/backup");
    assert!(validate_settings(s3, &vec![], false, RemedyChoice::Accept).is_ok());
}

#[test]
fn validate_invalid_glob_rejected() {
    let s = settings(vec![pattern("/saves", "[")], "/backup");
    let r = validate_settings(s, &vec![true], true, RemedyChoice::Accept);
    assert_eq!(warning_message(r), "Invalid file pattern: [");
}

#[test]
fn validate_last_invalid_glob_wins() {
    let s = settings(
        vec![pattern("/a", "["), pattern("/b", "*.db"), pattern("/c", "[!")],
        "/backup",
    );
    let r = validate_settings(s, &vec![true, true, true], true, RemedyChoice::Accept);
    assert_eq!(warning_message(r), "Invalid file pattern: [!");
}

#[test]
fn validate_declined_remediation_is_silent() {
    let s = settings(vec![pattern("/saves", "*.db")], "/backup");
    let r = validate_settings(s, &vec![true], false, RemedyChoice::Decline);
    assert_eq!(warning_message(r), "");
}

#[test]
fn validate_accepted_remediation_succeeds() {
    let s = settings(vec![pattern("/saves", "*.db")], "/backup");
    let r = validate_settings(s, &vec![true], false, RemedyChoice::Accept);
    let ok = r.expect("acceptance lets validation pass");
    assert_eq!(ok.backup_dest_path, "/backup");
}

#[test]
fn validate_bad_glob_still_rejected_after_remediation() {
    let s = settings(vec![pattern("/saves", "[")], "/backup");
    let r = validate_settings(s, &vec![true], false, RemedyChoice::Accept);
    assert_eq!(warning_message(r), "Invalid file pattern: [");
}

#[test]
fn needs_remediation_only_for_missing_nonempty_dest() {
    let s = settings(vec![pattern("/saves", "*.db")], "/backup");
    assert!(needs_remediation(&s, &vec![true], false));
    assert!(!needs_remediation(&s, &vec![true], true));
    assert!(!needs_remediation(&s, &vec![false], false));
    let empty_dest = settings(vec![pattern("/saves", "*.db")], "");
    assert!(!needs_remediation(&empty_dest, &vec![true], false));
    let no_patterns = settings(vec![], "/backup");
    assert!(needs_remediation(&no_patterns, &vec![], false));
}

#[test]
fn remediation_prompt_names_the_destination() {
    let s = settings(vec![], "/backup");
    assert_eq!(
        remediation_prompt(&s),
        "Destination folder does not exist: /backup\nCreate it?"
    );
}

#[test]
fn read_missing_is_not_found() {
    match read_settings(ReadOutcome::Missing) {
        Err(SettingsError::SNotFound(None)) => {}
        _ => panic!("expected SNotFound without settings"),
    }
}

#[test]
fn read_failure_is_hard_error() {
    match read_settings(ReadOutcome::ReadFailed("permission denied".to_string())) {
        Err(SettingsError::SError(m)) => {
            assert_eq!(m, "Failed to read settings file: permission denied")
        }
        _ => panic!("expected SError"),
    }
}

#[test]
fn read_corrupt_text_is_hard_error() {
    match read_settings(ReadOutcome::Content("not a settings file".to_string())) {
        Err(SettingsError::SError(m)) => {
            assert_eq!(
                m,
                "Error reading settings file: the file does not hold a settings value"
            )
        }
        _ => panic!("expected SError"),
    }
}

#[test]
fn read_good_text_loads() {
    let s = settings(vec![pattern("/saves", "*.db")], "/backup");
    let text = render_settings(&s);
    let loaded = read_settings(ReadOutcome::Content(text)).expect("must load");
    assert!(loaded.eq_value(&s));
}

#[test]
fn write_dir_create_failure_warns_and_keeps_settings() {
    let s = settings(vec![], "/backup");
    let r = write_settings(
        s,
        WriteOutcome::DirCreateFailed {
            dir: "/etc/none".to_string(),
            err: "denied".to_string(),
        },
    );
    match r {
        Err(SettingsError::SWarning(kept, m)) => {
            assert_eq!(m, "Error creating settings directory /etc/none: denied");
            assert_eq!(kept.backup_dest_path, "/backup");
        }
        _ => panic!("expected SWarning"),
    }
}

#[test]
fn write_failure_warns_and_keeps_settings() {
    let s = settings(vec![], "/backup");
    match write_settings(s, WriteOutcome::WriteFailed("disk full".to_string())) {
        Err(SettingsError::SWarning(kept, m)) => {
            assert_eq!(m, "Failed to write settings file: disk full");
            assert_eq!(kept.backup_dest_path, "/backup");
        }
        _ => panic!("expected SWarning"),
    }
}

#[test]
fn write_success_returns_settings() {
    let s = settings(vec![], "/backup");
    let kept = write_settings(s, WriteOutcome::Written).expect("write succeeded");
    assert_eq!(kept.backup_dest_path, "/backup");
}

#[test]
fn settings_file_path_ends_with_file_name() {
    let p = get_settings_file_path().expect("a config dir exists on this platform");
    assert!(p.ends_with("settings.json"));
}

#[test]
fn first_run_yields_defaults_that_survive_a_reload() {
    let step = get_settings(ReadOutcome::Missing);
    let defaults = match step {
        ResolveStep::FirstRun(s) => s,
        _ => panic!("a missing file must signal a first run"),
    };
    assert_eq!(defaults.settings_version, "1");
    assert_eq!(defaults.backup_count, 5);
    assert_eq!(defaults.backup_delay_sec, 10);
    let text = render_settings(&defaults);
    let reloaded = read_settings(ReadOutcome::Content(text)).expect("defaults must reload");
    assert!(reloaded.eq_value(&defaults));
    let saved = write_settings(defaults, WriteOutcome::Written);
    match finish_first_run(saved) {
        Err(SettingsError::SNotFound(Some(s))) => assert!(s.eq_value(&reloaded)),
        _ => panic!("first run must be signalled as SNotFound with the saved settings"),
    }
}

#[test]
fn resolve_propagates_read_failure() {
    match get_settings(ReadOutcome::ReadFailed("boom".to_string())) {
        ResolveStep::Fail(SettingsError::SError(m)) => {
            assert_eq!(m, "Failed to read settings file: boom")
        }
        _ => panic!("expected a hard failure"),
    }
}

#[test]
fn resolve_hands_loaded_settings_to_validation() {
    let s = settings(vec![pattern("/saves", "*.db")], "/backup");
    let text = render_settings(&s);
    match get_settings(ReadOutcome::Content(text)) {
        ResolveStep::Validate(loaded) => assert!(loaded.eq_value(&s)),
        _ => panic!("loaded settings must go to validation"),
    }
}

#[test]
fn eq_value_distinguishes_settings() {
    let a = settings(vec![pattern("/saves", "*.db")], "/backup");
    let b = settings(vec![pattern("/saves", "*.fwl")], "/backup");
    assert!(!a.eq_value(&b));
    let c = settings(vec![pattern("/saves", "*.db")], "/backup");
    assert!(a.eq_value(&c));
}
