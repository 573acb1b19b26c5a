use marshal::builtinrules::builtin_rules;
use marshal::chunk::Chunk;
use marshal::config::RuleConfig;
use marshal::hash::{to_upper_hex, HashAlgorithm};
use marshal::meta::{Annotated, Meta, Note, Remark, RemarkType};
use marshal::pattern::{Pattern, PatternError, PATTERN_SIZE_LIMIT};
use marshal::processor::PiiKind;
use marshal::protocol::event::{default_level, default_platform};
use marshal::protocol::fingerprint;
use marshal::protocol::types::{default_breadcrumb_type, Level, ParseLevelError, RegVal};
use marshal::redaction::{default_mask_char, in_range, mask_text, Redaction};
use marshal::rewrite::{apply_matches, collect_steps, count_nul, emit_gap, flatten, strip_nul, Step};
use marshal::rule::{RuleSpec, RuleType};
use marshal::text::{
    byte_len, contains_char, same_text, signed_to_string, slice_bytes, unsigned_to_string,
};
use marshal::value::Value;

fn text(s: &str) -> Chunk {
    Chunk::Text { text: s.to_string() }
}

fn redaction(s: &str, rule_id: &str) -> Chunk {
    Chunk::Redaction {
        text: s.to_string(),
        rule_id: rule_id.to_string(),
        ty: RemarkType::Masked,
        description: None,
    }
}

#[test]
fn mask_range_counts_characters() {
    assert_eq!(default_mask_char(), '*');
    assert_eq!(mask_text("h\u{e9}llo", '*', "", (None, None)), "*****");
    assert_eq!(mask_text("h\u{e9}llo", '*', "", (Some(1), Some(-1))), "h***o");
    assert_eq!(mask_text("1234-5678", '#', "-", (None, Some(-4))), "####-5678");
    assert_eq!(mask_text("abc", '*', "", (Some(-10), Some(10))), "***");
    assert_eq!(mask_text("abc", '*', "", (Some(2), Some(1))), "abc");
    assert_eq!(mask_text("abc", '*', "b", (Some(-2), None)), "ab*");
    assert_eq!(mask_text("", '*', "", (None, None)), "");
    assert_eq!(mask_text("ab", '\u{20ac}', "", (None, None)), "\u{20ac}\u{20ac}");
}

#[test]
fn in_range_resolves_indices() {
    assert!(in_range((None, None), 0, 1));
    assert!(!in_range((None, None), 1, 1));
    assert!(in_range((Some(-4), None), 6, 10));
    assert!(!in_range((Some(-4), None), 5, 10));
    assert!(in_range((None, Some(-4)), 5, 10));
    assert!(!in_range((None, Some(-4)), 6, 10));
    assert!(in_range((Some(-20), Some(20)), 9, 10));
    assert!(!in_range((Some(i32::MIN), Some(i32::MIN)), 0, 10));
    assert!(in_range((Some(i32::MIN), Some(i32::MAX)), 0, 10));
    assert!(!in_range((Some(3), Some(3)), 3, 10));
}

#[test]
fn masking_twice_changes_nothing() {
    let once = mask_text("4111 1111 1111 1111", '*', " ", (None, Some(-4)));
    assert_eq!(once, "**** **** **** 1111");
    assert_eq!(mask_text(&once, '*', " ", (None, Some(-4))), once);
    assert_eq!(mask_text("****", '*', "*", (Some(1), None)), "****");
}

#[test]
fn hex_is_upper_case_without_separators() {
    assert_eq!(to_upper_hex(&[]), "");
    assert_eq!(to_upper_hex(&[0x00, 0x0f, 0xa0, 0xff, 0x5c]), "000FA0FF5C");
}

#[test]
fn hashes_are_keyed() {
    let sha256 = HashAlgorithm::HmacSha256.hash_value("127.0.0.1", "DEADBEEF1234");
    assert_eq!(sha256, "5A2DF387CD660E9F3E0AB20F9E7805450D56C5DACE9B959FC620C336E2B5D09A");
    assert_ne!(HashAlgorithm::HmacSha256.hash_value("127.0.0.1", "other"), sha256);
    assert_eq!(
        HashAlgorithm::HmacSha1.hash_value("The quick brown fox jumps over the lazy dog", "key"),
        "DE7C9B85B8B78AA6BC8A7A36F70A90701C9DB4D9"
    );
    assert_eq!(
        HashAlgorithm::HmacSha512.hash_value("The quick brown fox jumps over the lazy dog", "key"),
        "B42AF09057BAC1E2D41708E48A902E09B5FF7F12AB428A4FE86653C73DD248FB\
         82F948A549F7B791A5B41915EE4D1EC3935357E4E2317250D0372AFA2EBEEB3A"
    );
    assert_eq!(
        HashAlgorithm::HmacSha256.hash_value("", ""),
        "B613679A0814D9EC772F95D778C35FC5FF1697C493715653C6C712144292C5AD"
    );
    assert_eq!(HashAlgorithm::default(), HashAlgorithm::HmacSha256);
}

#[test]
fn integers_in_decimal() {
    assert_eq!(unsigned_to_string(0), "0");
    assert_eq!(unsigned_to_string(9), "9");
    assert_eq!(unsigned_to_string(10), "10");
    assert_eq!(unsigned_to_string(u64::MAX), "18446744073709551615");
    assert_eq!(signed_to_string(0), "0");
    assert_eq!(signed_to_string(-1), "-1");
    assert_eq!(signed_to_string(i64::MIN), "-9223372036854775808");
    assert_eq!(signed_to_string(i64::MAX), "9223372036854775807");
}

#[test]
fn text_of_scalars() {
    assert_eq!(Value::Null.scalar_text().as_deref(), Some("null"));
    assert_eq!(Value::Bool(true).scalar_text().as_deref(), Some("true"));
    assert_eq!(Value::Bool(false).scalar_text().as_deref(), Some("false"));
    assert_eq!(Value::U32(42).scalar_text().as_deref(), Some("42"));
    assert_eq!(Value::I32(-42).scalar_text().as_deref(), Some("-42"));
    assert_eq!(Value::U64(7).scalar_text().as_deref(), Some("7"));
    assert_eq!(Value::I64(-7).scalar_text().as_deref(), Some("-7"));
    assert_eq!(Value::String("x".to_string()).scalar_text().as_deref(), Some("x"));
    assert_eq!(Value::F64(0).scalar_text(), None);
    assert_eq!(Value::F32(0).scalar_text(), None);
    assert_eq!(Value::Array(vec![]).scalar_text(), None);
    assert_eq!(Value::Object(vec![]).scalar_text(), None);
}

#[test]
fn text_helpers() {
    assert_eq!(byte_len("h\u{e9}"), 3);
    assert_eq!(slice_bytes("h\u{e9}llo", 1, 3), Some("\u{e9}"));
    assert_eq!(slice_bytes("h\u{e9}llo", 1, 2), None);
    assert_eq!(slice_bytes("h\u{e9}llo", 3, 1), None);
    assert_eq!(slice_bytes("abc", 1, 4), None);
    assert_eq!(slice_bytes("abc", 3, 3), Some(""));
    assert!(contains_char("a-b", '-'));
    assert!(!contains_char("a-b", '_'));
    assert!(same_text("abc", "abc"));
    assert!(!same_text("abc", "abd"));
    assert!(!same_text("abc", "ab"));
    assert_eq!(strip_nul("a\0b\0"), "ab");
    assert_eq!(count_nul("a\0b\0"), 2);
}

#[test]
fn levels_have_names() {
    assert_eq!(Level::parse("debug"), Ok(Level::Debug));
    assert_eq!(Level::parse("info"), Ok(Level::Info));
    assert_eq!(Level::parse("log"), Ok(Level::Info));
    assert_eq!(Level::parse("warning"), Ok(Level::Warning));
    assert_eq!(Level::parse("error"), Ok(Level::Error));
    assert_eq!(Level::parse("fatal"), Ok(Level::Fatal));
    assert_eq!(Level::parse("Fatal"), Err(ParseLevelError));
    assert_eq!("log".parse::<Level>(), Ok(Level::Info));
    assert_eq!(ParseLevelError.message(), "invalid level");
    assert_eq!(Level::default(), Level::Info);
    for level in [Level::Debug, Level::Info, Level::Warning, Level::Error, Level::Fatal] {
        assert_eq!(Level::parse(level.as_str()), Ok(level));
        assert_eq!(level.is_debug(), level == Level::Debug);
        assert_eq!(level.is_info(), level == Level::Info);
        assert_eq!(level.is_warning(), level == Level::Warning);
        assert_eq!(level.is_error(), level == Level::Error);
        assert_eq!(level.is_fatal(), level == Level::Fatal);
    }
    assert!(Level::Debug < Level::Fatal);
    assert_eq!(RegVal::default(), RegVal(0));
}

#[test]
fn fingerprints_become_strings() {
    let parts = vec![
        fingerprint::Fingerprint::String("fingerprint".to_string()),
        fingerprint::Fingerprint::Bool(true),
        fingerprint::Fingerprint::Bool(false),
        fingerprint::Fingerprint::Signed(-22),
        fingerprint::Fingerprint::Unsigned(3),
    ];
    assert_eq!(fingerprint::coerce(parts), vec!["fingerprint", "True", "False", "-22", "3"]);
    assert_eq!(fingerprint::coerce(vec![]), Vec::<String>::new());
    assert_eq!(fingerprint::Fingerprint::Bool(true).into_string(), "True");
    assert_eq!(fingerprint::default(), Annotated::from_value(vec!["{{ default }}".to_string()]));
}

#[test]
fn defaults_of_the_protocol() {
    assert_eq!(default_level(), Annotated::from_value(Level::Error));
    assert_eq!(default_platform(), Annotated::from_value("other".to_string()));
    assert_eq!(default_breadcrumb_type(), Annotated::from_value("default".to_string()));
}

#[test]
fn patterns_are_compiled_with_a_size_limit() {
    let pattern = Pattern::new("a+b").unwrap();
    assert_eq!(pattern.as_str(), "a+b");
    match Pattern::new("(") {
        Err(PatternError::Syntax { message }) => assert!(!message.is_empty()),
        other => panic!("no syntax error: {:?}", other),
    }
    assert_eq!(PATTERN_SIZE_LIMIT, 262_144);
    match Pattern::new("\\w{500}") {
        Err(PatternError::TooBig { limit }) => assert_eq!(limit, 262_144),
        other => panic!("not too big: {:?}", other),
    }
}

#[test]
fn steps_follow_matches_and_groups() {
    let matches = vec![
        vec![Some((2, 9)), Some((3, 4)), None, Some((6, 8))],
        vec![Some((10, 12)), None, Some((10, 11)), None],
    ];
    assert_eq!(
        collect_steps(&matches, None),
        vec![
            Step::Replace { from: 2, to: 9 },
            Step::Pass { to: 9 },
            Step::Replace { from: 10, to: 12 },
            Step::Pass { to: 12 },
        ]
    );
    assert_eq!(
        collect_steps(&matches, Some(&vec![3, 2, 7])),
        vec![
            Step::Replace { from: 6, to: 8 },
            Step::Pass { to: 9 },
            Step::Replace { from: 10, to: 11 },
            Step::Pass { to: 12 },
        ]
    );
    assert_eq!(collect_steps(&vec![vec![], vec![None]], None), vec![]);
}

#[test]
fn search_text_has_a_nul_for_each_redaction() {
    let chunks = vec![text("a\0b"), redaction("***", "r1"), text(""), redaction("#", "r2")];
    let (search, redactions) = flatten(&chunks);
    assert_eq!(search, "ab\0\0");
    assert_eq!(redactions, vec![redaction("***", "r1"), redaction("#", "r2")]);
}

#[test]
fn gaps_are_cut_at_nuls() {
    let redactions = vec![redaction("one", "r1"), redaction("two", "r2")];
    let mut out = vec![];
    assert_eq!(emit_gap("", &redactions, 0, &mut out), 0);
    assert!(out.is_empty());
    assert_eq!(emit_gap("ab", &redactions, 0, &mut out), 0);
    assert_eq!(out, vec![text("ab")]);
    let mut out = vec![];
    assert_eq!(emit_gap("a\0\0b", &redactions, 0, &mut out), 2);
    assert_eq!(
        out,
        vec![text("a"), redaction("one", "r1"), text(""), redaction("two", "r2"), text("b")]
    );
    let mut out = vec![];
    assert_eq!(emit_gap("\0x\0", &redactions, 1, &mut out), 3);
    assert_eq!(out, vec![text(""), redaction("two", "r2"), text("x"), text("")]);
}

#[test]
fn matches_are_replaced_around_earlier_redactions() {
    let chunks = vec![text("ab"), redaction("***", "old"), text("cdef"), redaction("#", "older")];
    let note = Note::new("new", Some("why"));
    let replace = Redaction::Replace { text: "[x]".to_string() };
    let replaced = |text: &str| Chunk::Redaction {
        text: text.to_string(),
        rule_id: "new".to_string(),
        ty: RemarkType::Masked,
        description: Some("why".to_string()),
    };

    let none = apply_matches(&chunks, &vec![], None, &replace, &note);
    assert_eq!(
        none,
        vec![text("ab"), redaction("***", "old"), text("cdef"), redaction("#", "older"), text("")]
    );

    let one = apply_matches(&chunks, &vec![vec![Some((4, 6))]], None, &replace, &note);
    assert_eq!(
        one,
        vec![
            text("ab"),
            redaction("***", "old"),
            text("c"),
            replaced("[x]"),
            text("f"),
            redaction("#", "older"),
            text(""),
        ]
    );

    let across = apply_matches(&chunks, &vec![vec![Some((1, 4))]], None, &replace, &note);
    assert_eq!(
        across,
        vec![text("a"), replaced("[x]"), text("def"), redaction("#", "older"), text("")]
    );

    let mask = Redaction::Mask { mask_char: '*', chars_to_ignore: String::new(), range: (None, None) };
    let masked = apply_matches(&chunks, &vec![vec![Some((0, 1))], vec![Some((5, 7))]], None, &mask, &note);
    assert_eq!(
        masked,
        vec![
            replaced("*"),
            text("b"),
            redaction("***", "old"),
            text("cd"),
            replaced("**"),
            text(""),
            redaction("#", "older"),
            text(""),
        ]
    );
}

#[test]
fn targets_that_do_not_fit_are_passed_over() {
    let chunks = vec![text("h\u{e9}llo")];
    let note = Note::well_known("r");
    let default = Redaction::Default;
    let gone = Chunk::Redaction {
        text: String::new(),
        rule_id: "r".to_string(),
        ty: RemarkType::Removed,
        description: None,
    };
    let inside = apply_matches(&chunks, &vec![vec![Some((1, 2))]], None, &default, &note);
    assert_eq!(inside, vec![text("h\u{e9}llo")]);
    let beyond = apply_matches(&chunks, &vec![vec![Some((3, 9))]], None, &default, &note);
    assert_eq!(beyond, vec![text("h\u{e9}llo")]);
    let nested = apply_matches(
        &chunks,
        &vec![vec![Some((0, 6)), Some((0, 3)), Some((1, 3)), Some((4, 5))]],
        Some(&vec![1, 2, 3]),
        &default,
        &note,
    );
    assert_eq!(nested, vec![gone.clone(), text("l"), gone.clone(), text("o")]);
}

#[test]
fn redactions_of_whole_values() {
    let note = || Note::new("rule", Some("why"));
    let value = || Annotated::new(Value::U64(12345), Meta::from_error("kept"));
    let removed = |ty| Remark::from_note(ty, note(), None);

    let out = Redaction::Default.set_replacement_value(value(), note());
    assert_eq!(out.0, None);
    assert_eq!(out.1.remarks, vec![removed(RemarkType::Removed)]);
    assert_eq!(out.1.errors, vec!["kept".to_string()]);

    let replace = Redaction::Replace { text: "[n]".to_string() };
    let out = replace.set_replacement_value(value(), note());
    assert_eq!(out.0, Some(Value::String("[n]".to_string())));
    assert_eq!(out.1.remarks, vec![removed(RemarkType::Masked)]);
    let out = replace.set_replacement_value(Annotated::empty(), note());
    assert_eq!(out.0, Some(Value::String("[n]".to_string())));

    let mask = Redaction::Mask { mask_char: '\u{20ac}', chars_to_ignore: String::new(), range: (Some(1), None) };
    let out = mask.set_replacement_value(value(), note());
    assert_eq!(out.0, Some(Value::String("1\u{20ac}\u{20ac}\u{20ac}\u{20ac}".to_string())));
    assert_eq!(out.1.remarks, vec![Remark::from_note(RemarkType::Masked, note(), Some((0, 13)))]);
    assert_eq!(out.1.original_length, Some(5));
    let plain = Redaction::Mask { mask_char: '*', chars_to_ignore: String::new(), range: (None, None) };
    let out = plain.set_replacement_value(value(), note());
    assert_eq!(out.0, Some(Value::String("*****".to_string())));
    assert_eq!(out.1.original_length, None);
    let out = plain.set_replacement_value(Annotated::empty(), note());
    assert_eq!(out.0, None);
    assert_eq!(out.1.remarks, vec![removed(RemarkType::Removed)]);
    let out = plain.set_replacement_value(Annotated::from_value(Value::F64(0)), note());
    assert_eq!(out.0, None);

    let hash = Redaction::Hash { algorithm: HashAlgorithm::HmacSha1, key: Some("k".to_string()) };
    let out = hash.set_replacement_value(value(), note());
    assert_eq!(out.0, Some(Value::String(HashAlgorithm::HmacSha1.hash_value("12345", "k"))));
    assert!(out.1.remarks.is_empty());
    assert_eq!(out.1.original_length, Some(5));
    let out = hash.set_replacement_value(Annotated::from_value(Value::Array(vec![])), note());
    assert_eq!(out.0, None);
    assert_eq!(out.1.remarks, vec![removed(RemarkType::Removed)]);
}

#[test]
fn original_length_is_recorded_once() {
    let mut meta = Meta::default();
    meta.record_length(5, 5);
    assert_eq!(meta.original_length, None);
    meta.record_length(5, 7);
    assert_eq!(meta.original_length, Some(5));
    meta.record_length(7, 9);
    assert_eq!(meta.original_length, Some(5));
    assert!(!meta.is_empty());
    assert!(Meta::default().is_empty());
}

#[test]
fn catalog_names_eleven_rules() {
    let rules = builtin_rules();
    let ids: Vec<&str> = rules.iter().map(|rule| rule.0.as_str()).collect();
    assert_eq!(
        ids,
        vec![
            "@ip",
            "@ip:replace",
            "@ip:hash",
            "@email",
            "@email:mask",
            "@email:replace",
            "@email:hash",
            "@creditcard",
            "@creditcard:mask",
            "@creditcard:replace",
            "@creditcard:hash",
        ]
    );
    match &rules[0].1.ty {
        RuleType::Alias { rule, hide_rule } => {
            assert_eq!(rule, "@ip:replace");
            assert!(!hide_rule);
        }
        other => panic!("no alias: {:?}", other),
    }
    assert_eq!(
        rules[8].1.redaction,
        Redaction::Mask { mask_char: '*', chars_to_ignore: " -".to_string(), range: (None, Some(-4)) }
    );
    assert_eq!(
        rules[2].1.redaction,
        Redaction::Hash { algorithm: HashAlgorithm::HmacSha1, key: None }
    );
}

#[test]
fn rules_and_applications_are_replaced_by_id() {
    let mut cfg = RuleConfig::new();
    assert!(cfg.rule("a").is_none());
    cfg.add_rule("a", RuleSpec::new(RuleType::Remove, Redaction::Default));
    cfg.add_rule("b", RuleSpec::new(RuleType::Email, Redaction::Default));
    cfg.add_rule("a", RuleSpec::new(RuleType::Ip, Redaction::Default).with_note("second"));
    let rule = cfg.rule("a").unwrap();
    assert!(matches!(rule.ty, RuleType::Ip));
    assert_eq!(rule.note.as_deref(), Some("second"));
    assert!(matches!(cfg.rule("b").unwrap().ty, RuleType::Email));
    assert_eq!(PiiKind::Databag.ordinal(), 7);
    assert_eq!(PiiKind::from_ordinal(1), PiiKind::Ip);
    for index in 0..8 {
        assert_eq!(PiiKind::from_ordinal(index).ordinal(), index);
    }
}

#[test]
fn values_are_copied_with_their_children() {
    let mut meta = Meta::from_error("e");
    meta.set_path("a.b");
    let tree = Value::Object(vec![(
        "k".to_string(),
        Annotated::new(
            Value::Array(vec![Annotated::from_value(Value::I32(-1)), Annotated::default()]),
            meta,
        ),
    )]);
    assert_eq!(tree.clone(), tree);
    let node = Annotated::from_value(tree);
    assert_eq!(node.clone(), node);
    let absent: Annotated<String> = Default::default();
    assert!(absent.value().is_none());
    assert!(absent.meta().is_empty());
}
