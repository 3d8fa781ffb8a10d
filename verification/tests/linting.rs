use splint::{match_rule, Named, Needle, Rule, Rules, SourcePosition};

fn pos(sl: usize, sc: usize, el: usize, ec: usize, bs: usize, be: usize) -> SourcePosition {
    SourcePosition {
        start_line: sl,
        start_col: sc,
        end_line: el,
        end_col: ec,
        byte_start: bs,
        byte_end: be,
    }
}

/// A token on line 1 whose byte offsets equal its column offsets.
fn tok(kind: &str, text: &str, sc: usize, ec: usize) -> Named {
    Named(kind.to_string(), text.to_string(), pos(1, sc, 1, ec, sc, ec))
}

fn needle(kind: &str, value: Option<&str>) -> Needle {
    Needle(kind.to_string(), value.map(|s| s.to_string()))
}

fn unwrap_rule() -> Rule {
    Rule {
        name: "no-unwrap".to_string(),
        description: "avoid unwrap".to_string(),
        help: None,
        range: (0, 4),
        pattern: vec![
            needle("Ident", None),
            needle("Punct", Some(".")),
            needle("Ident", Some("unwrap")),
            needle("OpenDelim", Some("(")),
            needle("CloseDelim", Some(")")),
        ],
        link: None,
        fails: false,
        replace: None,
    }
}

/// The tokens of the source text `x.unwrap()`.
fn x_unwrap_tokens() -> Vec<Named> {
    vec![
        tok("Ident", "x", 0, 1),
        tok("Punct", ".", 1, 2),
        tok("Ident", "unwrap", 2, 8),
        tok("OpenDelim", "(", 8, 9),
        tok("CloseDelim", ")", 9, 10),
    ]
}

#[test]
fn short_input_yields_no_matches() {
    let rule = unwrap_rule();
    let tokens = vec![tok("Ident", "x", 0, 1), tok("Punct", ".", 1, 2)];
    let out = match_rule(rule, &tokens);
    assert!(out.is_empty());
}

#[test]
fn empty_input_yields_no_matches() {
    let rule = unwrap_rule();
    let tokens: Vec<Named> = vec![];
    let out = match_rule(rule, &tokens);
    assert!(out.is_empty());
}

#[test]
fn single_match_covers_whole_window() {
    let rule = unwrap_rule();
    let tokens = x_unwrap_tokens();
    let out = match_rule(rule, &tokens);
    assert_eq!(out.len(), 1);
    let w = &out[0].1;
    assert_eq!(w.len(), 5);
    assert_eq!(w[0].2.byte_start, 0);
    assert_eq!(w[4].2.byte_end, 10);
    assert_eq!(w[0].1, "x");
    assert_eq!(w[4].1, ")");
}

/// The tokens of the source text `a.unwrap(); b.unwrap();`.
fn two_unwrap_tokens() -> Vec<Named> {
    vec![
        tok("Ident", "a", 0, 1),
        tok("Punct", ".", 1, 2),
        tok("Ident", "unwrap", 2, 8),
        tok("OpenDelim", "(", 8, 9),
        tok("CloseDelim", ")", 9, 10),
        tok("Punct", ";", 10, 11),
        tok("Ident", "b", 12, 13),
        tok("Punct", ".", 13, 14),
        tok("Ident", "unwrap", 14, 20),
        tok("OpenDelim", "(", 20, 21),
        tok("CloseDelim", ")", 21, 22),
        tok("Punct", ";", 22, 23),
    ]
}

#[test]
fn two_matches_in_source_order_without_overlap() {
    let rule = unwrap_rule();
    let tokens = two_unwrap_tokens();
    let out = match_rule(rule, &tokens);
    assert_eq!(out.len(), 2);
    let first = &out[0].1;
    let second = &out[1].1;
    assert_eq!(first[0].2.byte_start, 0);
    assert_eq!(first[4].2.byte_end, 10);
    assert_eq!(second[0].2.byte_start, 12);
    assert_eq!(second[4].2.byte_end, 22);
    assert!(first[4].2.byte_end <= second[0].2.byte_start);
}

#[test]
fn matching_twice_gives_identical_results() {
    let tokens = two_unwrap_tokens();
    let out1 = match_rule(unwrap_rule(), &tokens);
    let out2 = match_rule(unwrap_rule(), &tokens);
    assert_eq!(out1, out2);
}

#[test]
fn adjacent_matches_on_one_line_are_both_found() {
    let rule = Rule {
        name: "ident".to_string(),
        description: "any identifier".to_string(),
        help: None,
        range: (0, 0),
        pattern: vec![needle("Ident", None)],
        link: None,
        fails: false,
        replace: None,
    };
    // the second token starts exactly where the first one ends
    let tokens = vec![tok("Ident", "a", 0, 1), tok("Ident", "b", 1, 2)];
    let out = match_rule(rule, &tokens);
    assert_eq!(out.len(), 2);
}

#[test]
fn overlapping_candidates_are_resolved_leftmost_first() {
    let rule = Rule {
        name: "pair".to_string(),
        description: "two identifiers".to_string(),
        help: None,
        range: (0, 1),
        pattern: vec![needle("Ident", None), needle("Ident", None)],
        link: None,
        fails: false,
        replace: None,
    };
    let tokens = vec![
        tok("Ident", "a", 0, 1),
        tok("Ident", "b", 2, 3),
        tok("Ident", "c", 4, 5),
    ];
    let out = match_rule(rule, &tokens);
    // after (a, b) the scan resumes past b, leaving only c: no second window
    assert_eq!(out.len(), 1);
    assert_eq!(out[0].1[0].1, "a");
    assert_eq!(out[0].1[1].1, "b");
}

#[test]
fn kind_only_needle_accepts_any_text_of_its_kind() {
    let n = needle("Ident", None);
    assert!(n.test(&tok("Ident", "anything", 0, 8)));
    assert!(n.test(&tok("Ident", "x", 0, 1)));
    assert!(!n.test(&tok("Punct", "anything", 0, 8)));
}

#[test]
fn exact_needle_requires_equal_text() {
    let n = needle("Ident", Some("unwrap"));
    assert!(n.test(&tok("Ident", "unwrap", 0, 6)));
    assert!(!n.test(&tok("Ident", "unwrap_or", 0, 9)));
}

#[test]
fn regex_needle_matches_by_pattern() {
    let n = needle("Ident", Some("/^test_/"));
    assert!(n.test(&tok("Ident", "test_foo", 0, 8)));
    assert!(!n.test(&tok("Ident", "foo_test", 0, 8)));
}

#[test]
fn single_slash_needle_is_an_exact_match() {
    let n = needle("Punct", Some("/"));
    assert!(n.check());
    assert!(n.test(&tok("Punct", "/", 0, 1)));
    assert!(!n.test(&tok("Punct", ".", 0, 1)));
}

#[test]
fn invalid_regex_fails_the_needle_check() {
    let n = needle("Ident", Some("/[/"));
    assert!(!n.check());
    let ok = needle("Ident", Some("/^test_/"));
    assert!(ok.check());
}

#[test]
fn rule_test_reports_first_window_only() {
    let rule = unwrap_rule();
    let tokens = two_unwrap_tokens();
    match rule.test(&tokens) {
        Err(w) => {
            assert_eq!(w.len(), 5);
            assert_eq!(w[0].1, "a");
        }
        Ok(()) => panic!("expected a match"),
    }
}

#[test]
fn rule_test_is_ok_without_a_match() {
    let rule = unwrap_rule();
    let tokens = vec![
        tok("Ident", "x", 0, 1),
        tok("Punct", ".", 1, 2),
        tok("Ident", "expect", 2, 8),
    ];
    assert!(rule.test(&tokens).is_ok());
}

#[test]
fn try_test_refuses_an_invalid_rule() {
    let mut rule = unwrap_rule();
    rule.pattern[2] = needle("Ident", Some("/[/"));
    assert!(rule.try_test(&x_unwrap_tokens()).is_none());
}

#[test]
fn try_test_runs_a_valid_rule() {
    let rule = unwrap_rule();
    match rule.try_test(&x_unwrap_tokens()) {
        Some(Err(w)) => assert_eq!(w.len(), 5),
        _ => panic!("expected a matched window"),
    }
}

#[test]
fn rule_check_validates_range_bounds() {
    let mut rule = unwrap_rule();
    assert!(rule.check());
    rule.range = (0, 5);
    assert!(!rule.check());
    rule.range = (3, 2);
    assert!(!rule.check());
}

#[test]
fn empty_pattern_fails_the_rule_check() {
    let mut rule = unwrap_rule();
    rule.pattern = vec![];
    rule.range = (0, 0);
    assert!(!rule.check());
}

#[test]
fn rules_check_refuses_duplicate_identifiers() {
    let rules = Rules {
        rules: vec![
            ("a".to_string(), unwrap_rule()),
            ("a".to_string(), unwrap_rule()),
        ],
    };
    assert!(!rules.check());
    let distinct = Rules {
        rules: vec![
            ("a".to_string(), unwrap_rule()),
            ("b".to_string(), unwrap_rule()),
        ],
    };
    assert!(distinct.check());
}

#[test]
fn range_from_array_accepts_two_elements_only() {
    assert_eq!(splint::pattern::range_from_array(&vec![1, 4]), Some((1, 4)));
    assert_eq!(splint::pattern::range_from_array(&vec![1]), None);
    assert_eq!(splint::pattern::range_from_array(&vec![1, 2, 3]), None);
}

#[test]
fn check_tokens_accepts_document_order() {
    assert!(splint::token::check_tokens(&two_unwrap_tokens()));
}

#[test]
fn check_tokens_refuses_out_of_order_tokens() {
    let tokens = vec![tok("Ident", "b", 5, 6), tok("Ident", "a", 0, 1)];
    assert!(!splint::token::check_tokens(&tokens));
}

#[test]
fn check_tokens_refuses_an_empty_span() {
    let tokens = vec![Named(
        "Ident".to_string(),
        "x".to_string(),
        pos(1, 3, 1, 3, 3, 3),
    )];
    assert!(!splint::token::check_tokens(&tokens));
}

#[test]
fn delim_pair_builds_the_synthetic_tokens() {
    let open = pos(1, 0, 1, 1, 0, 1);
    let close = pos(1, 5, 1, 6, 5, 6);
    let pair = Named::delim_pair(splint::DelimKind::Parenthesis, open, close);
    assert_eq!(pair[0].0, "OpenDelim");
    assert_eq!(pair[0].1, "(");
    assert_eq!(pair[0].2, open);
    assert_eq!(pair[1].0, "CloseDelim");
    assert_eq!(pair[1].1, ")");
    assert_eq!(pair[1].2, close);
    let braces = Named::delim_pair(splint::DelimKind::Brace, open, close);
    assert_eq!(braces[0].1, "{");
    assert_eq!(braces[1].1, "}");
}
