use splint::{lint_tokens, span, CompilerMessageLevel, LintError, Named, Needle, Rule, Rules,
    SourcePosition};

fn dpos(sl: usize, sc: usize, el: usize, ec: usize, bs: usize, be: usize) -> SourcePosition {
    SourcePosition {
        start_line: sl,
        start_col: sc,
        end_line: el,
        end_col: ec,
        byte_start: bs,
        byte_end: be,
    }
}

fn dtok(kind: &str, text: &str, line: usize, sc: usize, ec: usize, bs: usize, be: usize) -> Named {
    Named(kind.to_string(), text.to_string(), dpos(line, sc, line, ec, bs, be))
}

fn dneedle(kind: &str, value: Option<&str>) -> Needle {
    Needle(kind.to_string(), value.map(|s| s.to_string()))
}

fn unwrap_pattern() -> Vec<Needle> {
    vec![
        dneedle("Ident", None),
        dneedle("Punct", Some(".")),
        dneedle("Ident", Some("unwrap")),
        dneedle("OpenDelim", Some("(")),
        dneedle("CloseDelim", Some(")")),
    ]
}

fn rule_with(fails: bool, help: Option<&str>) -> Rule {
    Rule {
        name: "no-unwrap".to_string(),
        description: "avoid unwrap".to_string(),
        help: help.map(|s| s.to_string()),
        range: (0, 4),
        pattern: unwrap_pattern(),
        link: None,
        fails,
        replace: None,
    }
}

fn one_rule_set(fails: bool, help: Option<&str>) -> Rules {
    Rules {
        rules: vec![("no-unwrap".to_string(), rule_with(fails, help))],
    }
}

/// Source text whose only match sits on line 2, at column 4.
const TWO_LINE_SOURCE: &str = "fn a() {\n    x.unwrap();\n}";

fn two_line_tokens() -> Vec<Named> {
    vec![
        dtok("Ident", "fn", 1, 0, 2, 0, 2),
        dtok("Ident", "a", 1, 3, 4, 3, 4),
        dtok("OpenDelim", "(", 1, 4, 5, 4, 5),
        dtok("CloseDelim", ")", 1, 5, 6, 5, 6),
        dtok("OpenDelim", "{", 1, 7, 8, 7, 8),
        dtok("Ident", "x", 2, 4, 5, 13, 14),
        dtok("Punct", ".", 2, 5, 6, 14, 15),
        dtok("Ident", "unwrap", 2, 6, 12, 15, 21),
        dtok("OpenDelim", "(", 2, 12, 13, 21, 22),
        dtok("CloseDelim", ")", 2, 13, 14, 22, 23),
        dtok("Punct", ";", 2, 14, 15, 23, 24),
        dtok("CloseDelim", "}", 3, 0, 1, 25, 26),
    ]
}

#[test]
fn builder_carries_the_starting_line_and_offset() {
    let out = lint_tokens(
        one_rule_set(false, None),
        two_line_tokens(),
        TWO_LINE_SOURCE.to_string(),
        "lib.rs".to_string(),
    )
    .expect("valid configuration");
    assert_eq!(out.len(), 1);
    let v = &out[0];
    assert_eq!(v.line.0, "    x.unwrap();");
    // eight characters on line 1, newlines not counted
    assert_eq!(v.line.1, 8);
    assert_eq!(v.window.len(), 5);
    assert_eq!(v.window[0].1, "x");
    assert_eq!(v.file_name, "lib.rs");
    assert_eq!(v.source, TWO_LINE_SOURCE);
    assert!(!v.fails);
    assert_eq!(v.rule.name, "no-unwrap");
}

#[test]
fn lint_tokens_refuses_invalid_regex_configuration() {
    let mut rules = one_rule_set(false, None);
    rules.rules[0].1.pattern[0] = dneedle("Ident", Some("/[/"));
    let out = lint_tokens(
        rules,
        two_line_tokens(),
        TWO_LINE_SOURCE.to_string(),
        "lib.rs".to_string(),
    );
    assert!(out.is_none());
}

#[test]
fn lint_tokens_refuses_tokens_past_the_last_line() {
    let tokens = vec![dtok("Ident", "x", 9, 0, 1, 0, 1)];
    let out = lint_tokens(
        one_rule_set(false, None),
        tokens,
        "one line".to_string(),
        "lib.rs".to_string(),
    );
    assert!(out.is_none());
}

#[test]
fn warnings_never_demand_a_failing_exit() {
    let out = lint_tokens(
        one_rule_set(false, None),
        two_line_tokens(),
        TWO_LINE_SOURCE.to_string(),
        "lib.rs".to_string(),
    )
    .expect("valid configuration");
    assert_eq!(out.len(), 1);
    assert!(!splint::diag::any_fails(&out));
    assert_eq!(splint::diag::count_fails(&out), 0);
}

#[test]
fn hard_failures_always_demand_a_failing_exit() {
    let out = lint_tokens(
        one_rule_set(true, None),
        two_line_tokens(),
        TWO_LINE_SOURCE.to_string(),
        "lib.rs".to_string(),
    )
    .expect("valid configuration");
    assert_eq!(out.len(), 1);
    assert!(splint::diag::any_fails(&out));
    assert_eq!(splint::diag::count_fails(&out), 1);
}

/// A violation whose window starts deep enough into its line for the
/// highlight arithmetic of the structured schema.
fn indented_violation(fails: bool, help: Option<&str>) -> LintError {
    let source = "                    x.unwrap()";
    let tokens = vec![
        dtok("Ident", "x", 1, 20, 21, 20, 21),
        dtok("Punct", ".", 1, 21, 22, 21, 22),
        dtok("Ident", "unwrap", 1, 22, 28, 22, 28),
        dtok("OpenDelim", "(", 1, 28, 29, 28, 29),
        dtok("CloseDelim", ")", 1, 29, 30, 29, 30),
    ];
    let mut out = lint_tokens(
        one_rule_set(fails, help),
        tokens,
        source.to_string(),
        "deep.rs".to_string(),
    )
    .expect("valid configuration");
    assert_eq!(out.len(), 1);
    out.remove(0)
}

#[test]
fn structured_diagnostic_has_note_and_fallback_help_children() {
    let v = indented_violation(false, None);
    let msg = v.json_diagnostic("/abs/deep.rs".to_string());
    assert_eq!(msg.message.children.len(), 2);
    assert_eq!(msg.message.children[0].level, CompilerMessageLevel::Note);
    assert_eq!(msg.message.children[0].message, "avoid unwrap");
    assert!(msg.message.children[0].spans.is_empty());
    assert_eq!(msg.message.children[1].level, CompilerMessageLevel::Help);
    assert_eq!(
        msg.message.children[1].message,
        "no help available for this rule"
    );
    assert_eq!(msg.message.children[1].spans.len(), 1);
}

#[test]
fn structured_diagnostic_keeps_the_rule_help_when_present() {
    let v = indented_violation(false, Some("use the question mark operator"));
    let msg = v.json_diagnostic("/abs/deep.rs".to_string());
    assert_eq!(msg.message.children.len(), 2);
    assert_eq!(
        msg.message.children[1].message,
        "use the question mark operator"
    );
}

#[test]
fn structured_diagnostic_maps_severity_and_identity() {
    let warn = indented_violation(false, None);
    let msg = warn.json_diagnostic("/abs/deep.rs".to_string());
    assert_eq!(msg.message.level, CompilerMessageLevel::Warning);
    assert_eq!(msg.message.message, "no-unwrap");
    assert_eq!(msg.message.code.code, "no-unwrap");
    assert_eq!(msg.target.src_path, "/abs/deep.rs");
    assert_eq!(msg.target.name, "splint");
    let err = indented_violation(true, None);
    let msg2 = err.json_diagnostic("/abs/deep.rs".to_string());
    assert_eq!(msg2.message.level, CompilerMessageLevel::Error);
}

#[test]
fn primary_span_carries_extents_and_highlight() {
    let v = indented_violation(false, None);
    let sp = v.compiler_span();
    assert_eq!(sp.byte_start, 20);
    assert_eq!(sp.byte_end, 30);
    assert_eq!(sp.column_start, 21);
    assert_eq!(sp.column_end, 31);
    assert_eq!(sp.line_start, 1);
    assert_eq!(sp.line_end, 1);
    assert!(sp.is_primary);
    assert_eq!(sp.file_name, "deep.rs");
    assert_eq!(sp.text.len(), 1);
    assert_eq!(sp.text[0].text, "                    x.unwrap()");
    assert_eq!(sp.text[0].highlight_end, 20);
    assert_eq!(sp.text[0].highlight_start, 10);
    assert_eq!(sp.suggested_replacement, None);
}

#[test]
fn rendering_shows_line_underline_and_metadata() {
    let v = indented_violation(true, Some("try the question mark"));
    let r = splint::render::render_text(&v);
    let expected = format!(
        "error: no-unwrap\navoid unwrap\n{}\n{}{}\nhelp: try the question mark",
        "                    x.unwrap()",
        " ".repeat(20),
        "^".repeat(10)
    );
    assert_eq!(r, expected);
}

#[test]
fn rendering_of_a_warning_without_help_has_no_extra_lines() {
    let v = indented_violation(false, None);
    let r = splint::render::render_text(&v);
    assert!(r.starts_with("warning: no-unwrap\n"));
    assert!(!r.contains("help:"));
    assert!(!r.contains("link:"));
}

#[test]
fn span_reports_offset_and_byte_length_of_the_sub_window() {
    let source = "x.unwrap()".to_string();
    let tokens = vec![
        dtok("Ident", "x", 1, 0, 1, 0, 1),
        dtok("Punct", ".", 1, 1, 2, 1, 2),
        dtok("Ident", "unwrap", 1, 2, 8, 2, 8),
        dtok("OpenDelim", "(", 1, 8, 9, 8, 9),
        dtok("CloseDelim", ")", 1, 9, 10, 9, 10),
    ];
    assert_eq!(span(source.clone(), tokens.clone(), (0, 1)), (0, 2));
    assert_eq!(span(source.clone(), tokens.clone(), (2, 2)), (2, 6));
    assert_eq!(span(source, tokens, (0, 4)), (0, 10));
}

#[test]
fn split_lines_matches_display_lines() {
    assert_eq!(
        splint::lines::split_lines("a\nb"),
        vec!["a".to_string(), "b".to_string()]
    );
    assert_eq!(
        splint::lines::split_lines("a\r\nb"),
        vec!["a".to_string(), "b".to_string()]
    );
    assert_eq!(splint::lines::split_lines("a\n"), vec!["a".to_string()]);
    assert_eq!(splint::lines::split_lines(""), Vec::<String>::new());
    assert_eq!(
        splint::lines::split_lines("\n\n"),
        vec![String::new(), String::new()]
    );
}

#[test]
fn enum_labels_follow_the_schema() {
    assert_eq!(CompilerMessageLevel::Warning.label(), "warning");
    assert_eq!(CompilerMessageLevel::Note.label(), "note");
    assert_eq!(CompilerMessageLevel::Help.label(), "help");
    assert_eq!(CompilerMessageLevel::ErrorNote.label(), "error-note");
    assert_eq!(CompilerMessageLevel::Error.label(), "error");
    assert_eq!(
        splint::CompilerMessageReason::CompilerMessage.label(),
        "compiler-message"
    );
    assert_eq!(
        splint::CompilerMessageType::Diagnostic.label(),
        "diagnostic"
    );
    assert_eq!(
        splint::SuggestionApplicability::MachineApplicable.label(),
        "MachineApplicable"
    );
    assert_eq!(
        splint::SuggestionApplicability::Unspecified.label(),
        "Unspecified"
    );
}

#[test]
fn replacement_is_surfaced_on_the_primary_span() {
    let source = "                    x.unwrap()";
    let tokens = vec![
        dtok("Ident", "x", 1, 20, 21, 20, 21),
        dtok("Punct", ".", 1, 21, 22, 21, 22),
        dtok("Ident", "unwrap", 1, 22, 28, 22, 28),
        dtok("OpenDelim", "(", 1, 28, 29, 28, 29),
        dtok("CloseDelim", ")", 1, 29, 30, 29, 30),
    ];
    let mut rule = rule_with(false, None);
    rule.replace = Some("expect(\"...\")".to_string());
    let rules = Rules {
        rules: vec![("no-unwrap".to_string(), rule)],
    };
    let out = lint_tokens(rules, tokens, source.to_string(), "deep.rs".to_string())
        .expect("valid configuration");
    let sp = out[0].compiler_span();
    assert_eq!(sp.suggested_replacement, Some("expect(\"...\")".to_string()));
}

#[test]
fn matches_of_all_rules_come_in_declaration_order() {
    let punct_rule = Rule {
        name: "no-semi".to_string(),
        description: "semicolon".to_string(),
        help: None,
        range: (0, 0),
        pattern: vec![dneedle("Punct", Some(";"))],
        link: None,
        fails: false,
        replace: None,
    };
    let rules = Rules {
        rules: vec![
            ("no-unwrap".to_string(), rule_with(false, None)),
            ("no-semi".to_string(), punct_rule),
        ],
    };
    let out = lint_tokens(
        rules,
        two_line_tokens(),
        TWO_LINE_SOURCE.to_string(),
        "lib.rs".to_string(),
    )
    .expect("valid configuration");
    assert_eq!(out.len(), 2);
    assert_eq!(out[0].rule.name, "no-unwrap");
    assert_eq!(out[1].rule.name, "no-semi");
}

#[test]
fn multiline_window_underlines_to_the_end_of_the_first_line() {
    // `x.unwrap(\n)`: the closing delimiter sits on line 2
    let source = "x.unwrap(\n)";
    let tokens = vec![
        dtok("Ident", "x", 1, 0, 1, 0, 1),
        dtok("Punct", ".", 1, 1, 2, 1, 2),
        dtok("Ident", "unwrap", 1, 2, 8, 2, 8),
        dtok("OpenDelim", "(", 1, 8, 9, 8, 9),
        dtok("CloseDelim", ")", 2, 0, 1, 10, 11),
    ];
    let out = lint_tokens(
        one_rule_set(false, None),
        tokens,
        source.to_string(),
        "lib.rs".to_string(),
    )
    .expect("valid configuration");
    assert_eq!(out.len(), 1);
    let r = splint::render::render_text(&out[0]);
    // the excerpt line is line 1, fully underlined from the window's start
    assert!(r.ends_with("x.unwrap(\n^^^^^^^^^"));
}

#[test]
fn regex_needle_matches_anywhere_in_the_text() {
    let n = dneedle("Ident", Some("/foo/"));
    let t = Named(
        "Ident".to_string(),
        "xfooy".to_string(),
        dpos(1, 0, 1, 5, 0, 5),
    );
    assert!(n.test(&t));
}

#[test]
fn rendering_includes_the_rule_link() {
    let source = "x.unwrap()";
    let tokens = vec![
        dtok("Ident", "x", 1, 0, 1, 0, 1),
        dtok("Punct", ".", 1, 1, 2, 1, 2),
        dtok("Ident", "unwrap", 1, 2, 8, 2, 8),
        dtok("OpenDelim", "(", 1, 8, 9, 8, 9),
        dtok("CloseDelim", ")", 1, 9, 10, 9, 10),
    ];
    let mut rule = rule_with(true, Some("use ? instead"));
    rule.link = Some("https://example.invalid/no-unwrap".to_string());
    let rules = Rules {
        rules: vec![("no-unwrap".to_string(), rule)],
    };
    let out = lint_tokens(rules, tokens, source.to_string(), "lib.rs".to_string())
        .expect("valid configuration");
    let r = splint::render::render_text(&out[0]);
    assert!(r.contains("\nhelp: use ? instead"));
    assert!(r.ends_with("\nlink: https://example.invalid/no-unwrap"));
    let w = &out[0].window;
    assert_eq!(w[0].span(), dpos(1, 0, 1, 1, 0, 1));
}
