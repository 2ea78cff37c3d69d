use pacta::governance::{
    ambient_time_markers, check_prose_content, check_source_content, constitution,
    gather_reports, manifest_path_from_args, should_check_prose, stale_phrases, ProseViolation,
    SourceViolation,
};

#[test]
fn ambient_time_reads_are_rejected() {
    assert_eq!(
        check_source_content("lib.rs", "let now = SystemTime::now();\n"),
        vec![SourceViolation {
            path: "lib.rs".to_owned(),
            line: 1,
            marker: "SystemTime::now",
        }]
    );
    assert_eq!(
        check_source_content("lib.rs", "let id = Uuid::now_v7();\n"),
        vec![SourceViolation {
            path: "lib.rs".to_owned(),
            line: 1,
            marker: "Uuid::now_v7",
        }]
    );
    assert!(
        check_source_content("lib.rs", "pub fn from_millis(ms: u64) -> Self { Self(ms) }\n")
            .is_empty()
    );
}

#[test]
fn stale_prose_vocabulary_is_rejected() {
    let violations = check_prose_content(
        "AGENTS.md",
        "Pacta is Tower-native and the `Store` manages `reserve`.\n",
    );

    assert_eq!(
        violations,
        vec![
            ProseViolation {
                path: "AGENTS.md".to_owned(),
                line: 1,
                phrase: "Tower-native",
                reason: "Pacta core is Pacta-native; framework vocabulary is adapter scope.",
            },
            ProseViolation {
                path: "AGENTS.md".to_owned(),
                line: 1,
                phrase: "`Store` manages",
                reason: "the current public lifecycle role is Registry.",
            },
            ProseViolation {
                path: "AGENTS.md".to_owned(),
                line: 1,
                phrase: "`reserve`",
                reason: "the current lifecycle acquisition term is claim.",
            },
        ]
    );
}

#[test]
fn domain_language_legacy_mapping_is_allowed() {
    let violations = check_prose_content(
        "docs/domain-language.md",
        "## Legacy Mapping\n| `Store` | `Registry` |\n| `ack` | `fulfill` |\n",
    );

    assert!(violations.is_empty());
}

#[test]
fn lines_before_the_legacy_heading_are_checked() {
    let violations = check_prose_content(
        "docs/domain-language.md",
        "intro\r\nthe `nack` term\n  ## Legacy Mapping  \n`ack`\n",
    );
    assert_eq!(
        violations,
        vec![ProseViolation {
            path: "docs/domain-language.md".to_owned(),
            line: 2,
            phrase: "`nack`",
            reason: "the current failed settlement term is breach.",
        }]
    );
    // Elsewhere, the heading is only a line.
    let elsewhere = check_prose_content("README.md", "## Legacy Mapping\n`ack`");
    assert_eq!(elsewhere.len(), 1);
    assert_eq!(elsewhere[0].line, 2);
    assert_eq!(elsewhere[0].phrase, "`ack`");
}

#[test]
fn source_scan_counts_lines_and_reports_every_marker() {
    let source = "fn a() {}\r\n\nlet t = Instant::now(); let s = SystemTime::now();\nlast Uuid::now_v1()";
    assert_eq!(
        check_source_content("core.rs", source),
        vec![
            SourceViolation {
                path: "core.rs".to_owned(),
                line: 3,
                marker: "SystemTime::now",
            },
            SourceViolation {
                path: "core.rs".to_owned(),
                line: 3,
                marker: "Instant::now",
            },
            SourceViolation {
                path: "core.rs".to_owned(),
                line: 4,
                marker: "Uuid::now_v1",
            },
        ]
    );
    assert!(check_source_content("core.rs", "").is_empty());
}

#[test]
fn check_subcommand_is_detected_after_the_program_name() {
    let args = |items: &[&str]| items.iter().map(|s| s.to_string()).collect::<Vec<_>>();
    assert!(should_check_prose(&args(&["gov", "check"])));
    assert!(!should_check_prose(&args(&["check"])));
    assert!(!should_check_prose(&args(&["gov", "explain"])));
    assert!(!should_check_prose(&[]));
}

#[test]
fn manifest_path_is_read_from_either_flag_form() {
    let args = |items: &[&str]| items.iter().map(|s| s.to_string()).collect::<Vec<_>>();
    assert_eq!(manifest_path_from_args(&args(&["gov", "check"])), "Cargo.toml");
    assert_eq!(
        manifest_path_from_args(&args(&["gov", "--manifest-path", "a/Cargo.toml"])),
        "a/Cargo.toml"
    );
    assert_eq!(
        manifest_path_from_args(&args(&["gov", "--manifest-path=b/Cargo.toml", "--manifest-path", "c"])),
        "b/Cargo.toml"
    );
    assert_eq!(manifest_path_from_args(&args(&["gov", "--manifest-path"])), "Cargo.toml");
}

#[test]
fn constitution_governs_every_crate() {
    let c = constitution();
    assert_eq!(c.name, "pacta");
    let packages: Vec<&str> = c.crate_rules.iter().map(|r| r.package).collect();
    assert_eq!(
        packages,
        vec![
            "pacta-contract",
            "pacta-executor",
            "pacta-driver",
            "pacta-governance",
            "pacta-memory",
            "pacta-conformance"
        ]
    );
    assert_eq!(c.crate_rules[0].allowed, vec!["serde", "uuid"]);
    assert_eq!(c.crate_rules[2].allowed, vec!["pacta-contract", "pacta-executor"]);
    assert_eq!(c.async_rules.len(), 1);
    assert_eq!(c.async_rules[0].module, "crate::kernel");
}

#[test]
fn tables_hold_every_phrase_and_marker() {
    assert_eq!(stale_phrases().len(), 10);
    assert_eq!(stale_phrases()[9].phrase, "`nack`");
    assert_eq!(
        ambient_time_markers(),
        vec!["SystemTime::now", "Instant::now", "Uuid::now_v7", "Uuid::now_v1"]
    );
}

#[test]
fn gathered_reports_keep_file_order_and_pass_when_empty() {
    assert_eq!(gather_reports::<u32>(vec![]), Ok(()));
    assert_eq!(gather_reports::<u32>(vec![vec![], vec![]]), Ok(()));
    assert_eq!(
        gather_reports(vec![vec![1, 2], vec![], vec![3]]),
        Err(vec![1, 2, 3])
    );
}

#[test]
fn trimming_agrees_with_std_on_unicode_white_space() {
    for text in [
        "\u{3000}\u{85}word\u{a0}\u{2029}",
        "\t\n\u{b}\u{c}\r x y \u{1680}\u{200a}",
        "\u{202f}\u{205f}\u{2028}",
        "\u{200b}kept\u{feff}",
        "",
    ] {
        let chars = pacta::text::chars_of(text);
        let (start, end) = pacta::text::trim_span(&chars, 0, chars.len());
        let trimmed: String = chars[start..end].iter().collect();
        assert_eq!(trimmed, text.trim(), "{:?}", text);
    }
}
