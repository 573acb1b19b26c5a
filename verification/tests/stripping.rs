use marshal::config::{BadRuleConfig, RuleBasedPiiProcessor, RuleConfig};
use marshal::hash::HashAlgorithm;
use marshal::meta::{Annotated, Meta, Note, Remark, RemarkType};
use marshal::pattern::{Detectors, Pattern};
use marshal::processor::{process_string, process_u64, process_value, Cap, PiiKind, ValueInfo};
use marshal::redaction::Redaction;
use marshal::rule::{RuleSpec, RuleType};
use marshal::value::Value;

fn pattern_rule(pattern: &str, groups: Option<Vec<u8>>, redaction: Redaction, note: &str) -> RuleSpec {
    RuleSpec {
        ty: RuleType::Pattern {
            pattern: Pattern::new(pattern).unwrap(),
            replace_groups: groups,
        },
        redaction,
        note: Some(note.to_string()),
    }
}

fn stripping_config() -> RuleConfig {
    let mut cfg = RuleConfig::new();
    cfg.add_rule(
        "path_username",
        pattern_rule(
            "(?i)(?:\u{8}[a-zA-Z]:)?(?:[/\\\\](?:users|home)[/\\\\])([^/\\\\\\s]+)",
            Some(vec![1]),
            Redaction::Replace { text: "[username]".to_string() },
            "username in path",
        ),
    );
    cfg.add_rule(
        "creditcard_number",
        pattern_rule(
            "\\d{4}[- ]?\\d{4,6}[- ]?\\d{4,5}(?:[- ]?\\d{4})",
            None,
            Redaction::Mask {
                mask_char: '*',
                chars_to_ignore: "- ".to_string(),
                range: (Some(0), Some(-4)),
            },
            "creditcard number",
        ),
    );
    cfg.add_rule(
        "email_address",
        pattern_rule(
            "[a-z0-9!#$%&'*+/=?^_`{|}~.-]+@[a-z0-9-]+(\\.[a-z0-9-]+)*",
            None,
            Redaction::Mask {
                mask_char: '*',
                chars_to_ignore: "@.".to_string(),
                range: (None, None),
            },
            "potential email address",
        ),
    );
    cfg.add_rule(
        "remove_foo",
        RuleSpec {
            ty: RuleType::RemovePair { key_pattern: Pattern::new("foo").unwrap() },
            redaction: Redaction::Replace { text: "whatever".to_string() },
            note: None,
        },
    );
    cfg.add_rule(
        "remove_ip",
        RuleSpec {
            ty: RuleType::Remove,
            redaction: Redaction::Default,
            note: Some("IP address removed".to_string()),
        },
    );
    cfg.add_rule(
        "hash_ip",
        pattern_rule(
            "\\d{1,3}\\.\\d{1,3}\\.\\d{1,3}\\.\\d{1,3}",
            None,
            Redaction::Hash {
                algorithm: HashAlgorithm::HmacSha256,
                key: Some("DEADBEEF1234".to_string()),
            },
            "IP address hashed",
        ),
    );
    cfg.add_application(
        PiiKind::Freeform,
        vec![
            "path_username".to_string(),
            "creditcard_number".to_string(),
            "email_address".to_string(),
            "hash_ip".to_string(),
        ],
    );
    cfg.add_application(PiiKind::Ip, vec!["remove_ip".to_string()]);
    cfg.add_application(PiiKind::Databag, vec!["remove_foo".to_string()]);
    cfg
}

fn info(kind: PiiKind) -> ValueInfo {
    ValueInfo { pii_kind: Some(kind), cap: None }
}

fn ranged(ty: RemarkType, rule_id: &str, description: &str, range: (usize, usize)) -> Remark {
    Remark::from_note(ty, Note::new(rule_id, Some(description)), Some(range))
}

fn with_path(value: Value, path: &str) -> Annotated<Value> {
    let mut meta = Meta::default();
    meta.set_path(path);
    Annotated::new(value, meta)
}

#[test]
fn test_basic_stripping() {
    let cfg = stripping_config();
    let detectors = Detectors::new().unwrap();

    let message: Annotated<String> = Annotated::from_value(
        "Hello peter@gmail.com.  You signed up with card 1234-1234-1234-1234. Your home folder is C:\\Users\\peter. Look at our compliance from 127.0.0.1".to_string(),
    );
    let extra: Annotated<Value> = Annotated::from_value(Value::Object(vec![
        ("foo".to_string(), with_path(Value::U64(42), "extra.foo")),
        ("bar".to_string(), with_path(Value::Bool(true), "extra.bar")),
    ]));
    let ip: Annotated<String> = Annotated::from_value("192.168.1.1".to_string());

    let processor = RuleBasedPiiProcessor::new(&cfg, &detectors).unwrap();
    let new_message = process_string(&processor, message, &info(PiiKind::Freeform));
    let new_extra = process_value(&processor, extra, &info(PiiKind::Databag));
    let new_ip = process_string(&processor, ip, &info(PiiKind::Ip));

    let message = new_message.value().unwrap();
    assert_eq!(
        message,
        "Hello *****@*****.***.  You signed up with card ****-****-****-1234. \
         Your home folder is C:\\Users\\[username] Look at our compliance \
         from 5A2DF387CD660E9F3E0AB20F9E7805450D56C5DACE9B959FC620C336E2B5D09A"
    );
    assert_eq!(
        new_message.meta(),
        &Meta {
            remarks: vec![
                ranged(RemarkType::Masked, "email_address", "potential email address", (6, 21)),
                ranged(RemarkType::Masked, "creditcard_number", "creditcard number", (48, 67)),
                ranged(RemarkType::Masked, "path_username", "username in path", (98, 108)),
                ranged(RemarkType::Pseudonymized, "hash_ip", "IP address hashed", (137, 201)),
            ],
            errors: vec![],
            original_length: Some(142),
            path: None,
        }
    );

    let entries = match new_extra.value().unwrap() {
        Value::Object(entries) => entries,
        other => panic!("no map: {:?}", other),
    };
    let foo = &entries.iter().find(|entry| entry.0 == "foo").unwrap().1;
    assert!(foo.value().is_none());
    assert_eq!(
        foo.meta(),
        &Meta {
            remarks: vec![Remark::from_note(
                RemarkType::Masked,
                Note::well_known("remove_foo"),
                None,
            )],
            errors: vec![],
            original_length: None,
            path: Some("extra.foo".to_string()),
        }
    );
    let bar = &entries.iter().find(|entry| entry.0 == "bar").unwrap().1;
    assert_eq!(bar.value(), Some(&Value::Bool(true)));
    assert!(bar.meta().remarks.is_empty());

    assert!(new_ip.value().is_none());
    assert_eq!(
        new_ip.meta(),
        &Meta {
            remarks: vec![Remark::from_note(
                RemarkType::Removed,
                Note::new("remove_ip", Some("IP address removed")),
                None,
            )],
            errors: vec![],
            original_length: None,
            path: None,
        }
    );
}

fn processor_for<'a>(
    cfg: &'a RuleConfig,
    detectors: &'a Detectors,
) -> RuleBasedPiiProcessor<'a> {
    RuleBasedPiiProcessor::new(cfg, detectors).unwrap()
}

fn single_application(kind: PiiKind, id: &str) -> RuleConfig {
    let mut cfg = RuleConfig::new();
    cfg.add_application(kind, vec![id.to_string()]);
    cfg
}

#[test]
fn email_mask_in_freeform() {
    let cfg = single_application(PiiKind::Freeform, "@email:mask");
    let detectors = Detectors::new().unwrap();
    let processor = processor_for(&cfg, &detectors);
    let out = process_string(
        &processor,
        Annotated::from_value("Hello peter@gmail.com.".to_string()),
        &info(PiiKind::Freeform),
    );
    assert_eq!(out.value().unwrap(), "Hello *****@*****.***.");
    assert_eq!(
        out.meta().remarks,
        vec![Remark::with_range(RemarkType::Masked, "@email:mask", (6, 21))]
    );
    assert_eq!(out.meta().original_length, None);
}

#[test]
fn creditcard_default_mask() {
    let cfg = single_application(PiiKind::Freeform, "@creditcard");
    let detectors = Detectors::new().unwrap();
    let processor = processor_for(&cfg, &detectors);
    let out = process_string(
        &processor,
        Annotated::from_value("card 1234-1234-1234-1234".to_string()),
        &info(PiiKind::Freeform),
    );
    assert_eq!(out.value().unwrap(), "card ****-****-****-1234");
    assert_eq!(
        out.meta().remarks,
        vec![Remark::with_range(RemarkType::Masked, "@creditcard:mask", (5, 24))]
    );
    assert_eq!(out.meta().original_length, None);
}

#[test]
fn composite_regex_with_replace_groups() {
    let mut cfg = RuleConfig::new();
    cfg.add_rule(
        "username",
        RuleSpec::new(
            RuleType::Pattern {
                pattern: Pattern::new("(?i)(?:[/\\\\](?:users|home)[/\\\\])([^/\\\\\\s]+)").unwrap(),
                replace_groups: Some(vec![1]),
            },
            Redaction::Replace { text: "[username]".to_string() },
        ),
    );
    cfg.add_application(PiiKind::Freeform, vec!["username".to_string()]);
    let detectors = Detectors::new().unwrap();
    let processor = processor_for(&cfg, &detectors);
    let out = process_string(
        &processor,
        Annotated::from_value("folder is C:\\Users\\peter".to_string()),
        &info(PiiKind::Freeform),
    );
    assert_eq!(out.value().unwrap(), "folder is C:\\Users\\[username]");
    assert_eq!(
        out.meta().remarks,
        vec![Remark::with_range(RemarkType::Masked, "username", (19, 29))]
    );
    assert_eq!(out.meta().original_length, Some(24));
}

#[test]
fn ip_hash() {
    let mut cfg = RuleConfig::new();
    cfg.add_rule(
        "hash_ip",
        RuleSpec::new(
            RuleType::Ip,
            Redaction::Hash {
                algorithm: HashAlgorithm::HmacSha256,
                key: Some("DEADBEEF1234".to_string()),
            },
        ),
    );
    cfg.add_application(PiiKind::Ip, vec!["hash_ip".to_string()]);
    let detectors = Detectors::new().unwrap();
    let processor = processor_for(&cfg, &detectors);
    let out = process_string(
        &processor,
        Annotated::from_value("127.0.0.1".to_string()),
        &info(PiiKind::Ip),
    );
    let hashed = out.value().unwrap();
    assert_eq!(hashed, "5A2DF387CD660E9F3E0AB20F9E7805450D56C5DACE9B959FC620C336E2B5D09A");
    assert_eq!(hashed.len(), 64);
    assert!(hashed.chars().all(|c| c.is_ascii_digit() || ('A'..='F').contains(&c)));
    assert_eq!(out.meta().original_length, Some(9));
    assert_eq!(
        out.meta().remarks,
        vec![Remark::with_range(RemarkType::Pseudonymized, "hash_ip", (0, 64))]
    );
}

#[test]
fn remove_by_key() {
    let mut cfg = RuleConfig::new();
    cfg.add_rule(
        "remove_foo",
        RuleSpec::new(
            RuleType::RemovePair { key_pattern: Pattern::new("foo").unwrap() },
            Redaction::Default,
        ),
    );
    cfg.add_application(PiiKind::Databag, vec!["remove_foo".to_string()]);
    let detectors = Detectors::new().unwrap();
    let processor = processor_for(&cfg, &detectors);
    let node = with_path(
        Value::Object(vec![("a".to_string(), Annotated::from_value(Value::U64(1)))]),
        "extra.foo",
    );
    let out = marshal::processor::PiiProcessor::pii_process_value(&processor, node, PiiKind::Databag);
    assert!(out.value().is_none());
    assert_eq!(out.meta().remarks, vec![Remark::new(RemarkType::Removed, "remove_foo")]);

    let other = with_path(Value::U64(7), "extra.bar");
    let out = process_u64(
        &processor,
        Annotated::new(7, other.meta().clone()),
        &info(PiiKind::Databag),
    );
    assert_eq!(out.value(), Some(&7));
    assert!(out.meta().remarks.is_empty());
}

#[test]
fn remove_on_ip_kinded_scalar() {
    let mut cfg = RuleConfig::new();
    cfg.add_rule(
        "remove_ip",
        RuleSpec::new(RuleType::Remove, Redaction::Default).with_note("IP address removed"),
    );
    cfg.add_application(PiiKind::Ip, vec!["remove_ip".to_string()]);
    let detectors = Detectors::new().unwrap();
    let processor = processor_for(&cfg, &detectors);
    let out = process_string(
        &processor,
        Annotated::from_value("192.168.1.1".to_string()),
        &info(PiiKind::Ip),
    );
    assert!(out.value().is_none());
    assert_eq!(out.meta().remarks.len(), 1);
    assert_eq!(out.meta().remarks[0].note.description.as_deref(), Some("IP address removed"));
    assert_eq!(out.meta().remarks[0].rule_id(), "remove_ip");
}

#[test]
fn strings_without_kind_pass() {
    let cfg = single_application(PiiKind::Freeform, "@email");
    let detectors = Detectors::new().unwrap();
    let processor = processor_for(&cfg, &detectors);
    let out = process_string(
        &processor,
        Annotated::from_value("peter@gmail.com".to_string()),
        &ValueInfo { pii_kind: None, cap: Some(Cap::Message) },
    );
    assert_eq!(out.value().unwrap(), "peter@gmail.com");
    assert!(out.meta().is_empty());
    let out = process_string(
        &processor,
        Annotated::from_value("peter@gmail.com".to_string()),
        &info(PiiKind::Name),
    );
    assert_eq!(out.value().unwrap(), "peter@gmail.com");
    assert!(out.meta().is_empty());
}

#[test]
fn aliases_of_the_catalog_resolve() {
    let mut cfg = RuleConfig::new();
    cfg.add_application(
        PiiKind::Freeform,
        vec!["@ip".to_string(), "@email".to_string(), "@creditcard".to_string()],
    );
    let detectors = Detectors::new().unwrap();
    let processor = processor_for(&cfg, &detectors);
    let out = process_string(
        &processor,
        Annotated::from_value("from 10.0.0.1 and ::1 by a@b.cd".to_string()),
        &info(PiiKind::Freeform),
    );
    assert_eq!(out.value().unwrap(), "from [ip] and [ip] by [email]");
    assert_eq!(
        out.meta().remarks,
        vec![
            Remark::with_range(RemarkType::Masked, "@ip:replace", (5, 9)),
            Remark::with_range(RemarkType::Masked, "@ip:replace", (14, 18)),
            Remark::with_range(RemarkType::Masked, "@email:replace", (22, 29)),
        ]
    );
    assert_eq!(out.meta().original_length, Some(31));
}

#[test]
fn hidden_alias_names_itself() {
    let mut cfg = RuleConfig::new();
    cfg.add_rule(
        "mail",
        RuleSpec::new(
            RuleType::Alias { rule: "@email:replace".to_string(), hide_rule: true },
            Redaction::Default,
        ),
    );
    cfg.add_application(PiiKind::Email, vec!["mail".to_string()]);
    let detectors = Detectors::new().unwrap();
    let processor = processor_for(&cfg, &detectors);
    let out = process_string(
        &processor,
        Annotated::from_value("a@b.cd".to_string()),
        &info(PiiKind::Email),
    );
    assert_eq!(out.value().unwrap(), "[email]");
    assert_eq!(out.meta().remarks, vec![Remark::with_range(RemarkType::Masked, "mail", (0, 7))]);
}

#[test]
fn unknown_reference_is_rejected() {
    let mut cfg = RuleConfig::new();
    cfg.add_application(PiiKind::Ip, vec!["@ip".to_string()]);
    cfg.add_application(PiiKind::Freeform, vec!["@email".to_string(), "nowhere".to_string()]);
    let detectors = Detectors::new().unwrap();
    let error = RuleBasedPiiProcessor::new(&cfg, &detectors).unwrap_err();
    assert_eq!(error, BadRuleConfig::BadReference("nowhere".to_string()));
    assert_eq!(error.message(), "invalid rule reference (nowhere)");
}

#[test]
fn alias_cycle_is_rejected() {
    let mut cfg = RuleConfig::new();
    cfg.add_rule(
        "a",
        RuleSpec::new(
            RuleType::Alias { rule: "b".to_string(), hide_rule: false },
            Redaction::Default,
        ),
    );
    cfg.add_rule(
        "b",
        RuleSpec::new(
            RuleType::Alias { rule: "a".to_string(), hide_rule: false },
            Redaction::Default,
        ),
    );
    cfg.add_application(PiiKind::Id, vec!["a".to_string()]);
    let detectors = Detectors::new().unwrap();
    let error = RuleBasedPiiProcessor::new(&cfg, &detectors).unwrap_err();
    assert_eq!(error, BadRuleConfig::BadReference("a".to_string()));
}

#[test]
fn hash_without_key_is_rejected() {
    let cfg = single_application(PiiKind::Ip, "@ip:hash");
    let detectors = Detectors::new().unwrap();
    let error = RuleBasedPiiProcessor::new(&cfg, &detectors).unwrap_err();
    assert_eq!(error, BadRuleConfig::MissingHashKey("@ip:hash".to_string()));
    assert_eq!(error.message(), "no hash key for rule (@ip:hash)");
}

#[test]
fn config_rule_overrides_catalog() {
    let mut cfg = RuleConfig::new();
    cfg.add_rule(
        "@ip:hash",
        RuleSpec::new(
            RuleType::Ip,
            Redaction::Hash { algorithm: HashAlgorithm::HmacSha1, key: Some("k".to_string()) },
        ),
    );
    cfg.add_application(PiiKind::Ip, vec!["@ip:hash".to_string()]);
    let detectors = Detectors::new().unwrap();
    let processor = processor_for(&cfg, &detectors);
    let out = process_string(
        &processor,
        Annotated::from_value("10.0.0.1".to_string()),
        &info(PiiKind::Ip),
    );
    assert_eq!(out.value().unwrap().len(), 40);
    assert_eq!(out.meta().original_length, Some(8));
}

#[test]
fn earlier_redactions_are_not_searched() {
    let cfg = single_application(PiiKind::Freeform, "@email:mask");
    let detectors = Detectors::new().unwrap();
    let processor = processor_for(&cfg, &detectors);
    let first = process_string(
        &processor,
        Annotated::from_value("to peter@gmail.com now".to_string()),
        &info(PiiKind::Freeform),
    );
    let text = first.value().unwrap().clone();
    let remarks = first.meta().remarks.clone();
    assert_eq!(text, "to *****@*****.*** now");
    let second = process_string(&processor, first, &info(PiiKind::Freeform));
    assert_eq!(second.value().unwrap(), &text);
    assert_eq!(second.meta().remarks, remarks);
}

#[test]
fn databag_reaches_children_and_other_kinds_do_not() {
    let mut cfg = RuleConfig::new();
    cfg.add_rule("gone", RuleSpec::new(RuleType::Remove, Redaction::Default));
    cfg.add_application(PiiKind::Databag, vec!["gone".to_string()]);
    cfg.add_application(PiiKind::Id, vec!["gone".to_string()]);
    let detectors = Detectors::new().unwrap();
    let processor = processor_for(&cfg, &detectors);
    let tree = || {
        Annotated::from_value(Value::Array(vec![
            Annotated::from_value(Value::String("x".to_string())),
            Annotated::from_value(Value::Array(vec![Annotated::from_value(Value::I64(-3))])),
        ]))
    };
    let out = process_value(&processor, tree(), &info(PiiKind::Databag));
    let items = match out.value().unwrap() {
        Value::Array(items) => items,
        other => panic!("no array: {:?}", other),
    };
    assert!(items[0].value().is_none());
    assert_eq!(items[0].meta().remarks.len(), 1);
    let inner = match items[1].value().unwrap() {
        Value::Array(items) => items,
        other => panic!("no array: {:?}", other),
    };
    assert!(inner[0].value().is_none());

    let out = process_value(&processor, tree(), &info(PiiKind::Id));
    assert_eq!(out, tree());

    assert_eq!(info(PiiKind::Databag).derive().pii_kind, Some(PiiKind::Databag));
    assert_eq!(info(PiiKind::Email).derive().pii_kind, None);
    let capped = ValueInfo { pii_kind: Some(PiiKind::Id), cap: Some(Cap::Databag) };
    assert_eq!(capped.derive(), ValueInfo { pii_kind: None, cap: Some(Cap::Databag) });
    let capped = ValueInfo { pii_kind: None, cap: Some(Cap::Path) };
    assert_eq!(capped.derive(), ValueInfo { pii_kind: None, cap: None });
}
