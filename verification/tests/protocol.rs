use marshal::config::{RuleBasedPiiProcessor, RuleConfig};
use marshal::meta::{Annotated, Remark, RemarkType};
use marshal::pattern::Detectors;
use marshal::processor::{
    process_string_array, process_string_object, process_value_array, PiiKind, ValueInfo,
};
use marshal::protocol::event::{process_breadcrumbs, Event, EventId, Values};
use marshal::protocol::types::{
    Breadcrumb, Level, LogEntry, Request, TemplateInfo, Timestamp, User,
};
use marshal::redaction::Redaction;
use marshal::rule::{RuleSpec, RuleType};
use marshal::value::Value;

fn config() -> RuleConfig {
    let mut cfg = RuleConfig::new();
    cfg.add_rule("gone", RuleSpec::new(RuleType::Remove, Redaction::Default));
    cfg.add_application(PiiKind::Freeform, vec!["@email".to_string()]);
    cfg.add_application(PiiKind::Ip, vec!["@ip".to_string()]);
    cfg.add_application(PiiKind::Email, vec!["@email:mask".to_string()]);
    cfg.add_application(PiiKind::Username, vec!["gone".to_string()]);
    cfg.add_application(PiiKind::Databag, vec!["@creditcard".to_string()]);
    cfg
}

fn string(s: &str) -> Annotated<String> {
    Annotated::from_value(s.to_string())
}

fn empty<T>() -> Annotated<T> {
    Annotated::empty()
}

fn user() -> User {
    User {
        id: string("a@b.cd"),
        email: string("a@b.cd"),
        ip_address: string("10.0.0.1"),
        username: string("peter"),
        other: Annotated::from_value(vec![(
            "card".to_string(),
            Annotated::from_value(Value::String("1234-1234-1234-1234".to_string())),
        )]),
    }
}

fn breadcrumb(message: &str) -> Breadcrumb {
    Breadcrumb {
        timestamp: Annotated::from_value(Timestamp { seconds: 946684800, nanos: 0 }),
        ty: string("default"),
        category: empty(),
        level: Annotated::from_value(Level::Info),
        message: string(message),
        data: empty(),
        other: empty(),
    }
}

#[test]
fn user_fields_are_processed_by_their_kinds() {
    let cfg = config();
    let detectors = Detectors::new().unwrap();
    let processor = RuleBasedPiiProcessor::new(&cfg, &detectors).unwrap();
    let out = user().process(&processor);
    assert_eq!(out.id, string("a@b.cd"));
    assert_eq!(out.email.value().unwrap(), "*@*.**");
    assert_eq!(out.ip_address.value().unwrap(), "[ip]");
    assert_eq!(out.ip_address.meta().original_length, Some(8));
    assert!(out.username.value().is_none());
    assert_eq!(out.username.meta().remarks, vec![Remark::new(RemarkType::Removed, "gone")]);
    let other = out.other.value().unwrap();
    assert_eq!(other[0].0, "card");
    assert_eq!(other[0].1.value(), Some(&Value::String("****-****-****-1234".to_string())));

    let absent = User::process_annotated(Annotated::from_error("missing"), &processor);
    assert_eq!(absent, Annotated::from_error("missing"));
}

#[test]
fn log_entries_requests_and_templates_are_processed() {
    let cfg = config();
    let detectors = Detectors::new().unwrap();
    let processor = RuleBasedPiiProcessor::new(&cfg, &detectors).unwrap();

    let entry = LogEntry {
        message: string("mail a@b.cd"),
        params: Annotated::from_value(vec![Annotated::from_value(Value::String(
            "1234 1234 1234 1234".to_string(),
        ))]),
        other: empty(),
    };
    let out = entry.process(&processor);
    assert_eq!(out.message.value().unwrap(), "mail [email]");
    assert_eq!(
        out.params.value().unwrap()[0].value(),
        Some(&Value::String("**** **** **** 1234".to_string()))
    );

    let request = Request {
        url: string("http://a@b.cd/"),
        method: string("GET"),
        data: Annotated::from_value(Value::String("1234123412341234".to_string())),
        query_string: string("q a@b.cd"),
        cookies: string("c a@b.cd"),
        headers: Annotated::from_value(vec![("Card".to_string(), string("1234123412341234"))]),
        env: empty(),
        other: empty(),
    };
    let out = request.process(&processor);
    assert_eq!(out.url, string("http://a@b.cd/"));
    assert_eq!(out.data.value(), Some(&Value::String("************1234".to_string())));
    assert_eq!(out.query_string.value().unwrap(), "q [email]");
    assert_eq!(out.cookies.value().unwrap(), "c [email]");
    assert_eq!(out.headers.value().unwrap()[0].1.value().unwrap(), "************1234");
    assert_eq!(out.env, empty());

    let template = TemplateInfo {
        filename: string("a@b.cd.rs"),
        abs_path: string("dir a@b.cd x"),
        line: Annotated::from_value(2),
        column: empty(),
        pre_lines: Annotated::from_value(vec![string("a@b.cd")]),
        current_line: string("a@b.cd"),
        post_lines: empty(),
        other: empty(),
    };
    let out = template.process(&processor);
    assert_eq!(out.filename.value().unwrap(), "[email]");
    assert_eq!(out.abs_path.value().unwrap(), "dir [email] x");
    assert_eq!(out.pre_lines, Annotated::from_value(vec![string("a@b.cd")]));
    assert_eq!(out.current_line, string("a@b.cd"));
    assert_eq!(out.line, Annotated::from_value(2));
}

#[test]
fn events_are_processed_part_by_part() {
    let cfg = config();
    let detectors = Detectors::new().unwrap();
    let processor = RuleBasedPiiProcessor::new(&cfg, &detectors).unwrap();
    let event = Event {
        id: Annotated::from_value(EventId(0x52df9022835246eeb317dbd739ccd059)),
        level: Annotated::from_value(Level::Debug),
        fingerprint: Annotated::from_value(vec!["a@b.cd".to_string()]),
        culprit: string("a@b.cd"),
        transaction: empty(),
        message: string("from a@b.cd"),
        logentry: empty(),
        logger: empty(),
        modules: empty(),
        platform: string("other"),
        timestamp: empty(),
        server_name: string("host"),
        release: empty(),
        dist: empty(),
        repos: empty(),
        environment: empty(),
        user: Annotated::from_value(user()),
        request: empty(),
        breadcrumbs: Annotated::from_value(Values {
            values: Annotated::from_value(vec![
                Annotated::from_value(breadcrumb("one a@b.cd")),
                Annotated::empty(),
                Annotated::from_value(breadcrumb("two")),
            ]),
            other: empty(),
        }),
        template_info: empty(),
        tags: Annotated::from_value(vec![("card".to_string(), string("1234-1234-1234-1234"))]),
        extra: empty(),
        other: empty(),
    };
    let out = Event::process_annotated(Annotated::from_value(event), &processor);
    let out = out.value().unwrap();
    assert_eq!(out.culprit, string("a@b.cd"));
    assert_eq!(out.fingerprint, Annotated::from_value(vec!["a@b.cd".to_string()]));
    assert_eq!(out.message.value().unwrap(), "from [email]");
    assert_eq!(out.server_name, string("host"));
    assert_eq!(out.user.value().unwrap().ip_address.value().unwrap(), "[ip]");
    let crumbs = out.breadcrumbs.value().unwrap().values.value().unwrap();
    assert_eq!(crumbs.len(), 3);
    assert_eq!(crumbs[0].value().unwrap().message.value().unwrap(), "one [email]");
    assert!(crumbs[1].value().is_none());
    assert_eq!(crumbs[2].value().unwrap().message.value().unwrap(), "two");
    assert_eq!(out.tags.value().unwrap()[0].1.value().unwrap(), "****-****-****-1234");
}

#[test]
fn lists_and_maps_hand_down_databag_only() {
    let cfg = config();
    let detectors = Detectors::new().unwrap();
    let processor = RuleBasedPiiProcessor::new(&cfg, &detectors).unwrap();
    let databag = ValueInfo { pii_kind: Some(PiiKind::Databag), cap: None };
    let freeform = ValueInfo { pii_kind: Some(PiiKind::Freeform), cap: None };
    let cards = || Annotated::from_value(vec![string("1234-1234-1234-1234"), Annotated::empty()]);
    let out = process_string_array(&processor, cards(), &databag);
    assert_eq!(out.value().unwrap()[0].value().unwrap(), "****-****-****-1234");
    assert!(out.value().unwrap()[1].value().is_none());
    assert_eq!(process_string_array(&processor, cards(), &freeform), cards());

    let mails = || Annotated::from_value(vec![("k".to_string(), string("a@b.cd"))]);
    assert_eq!(process_string_object(&processor, mails(), &freeform), mails());
    assert_eq!(process_string_object(&processor, Annotated::empty(), &databag), Annotated::empty());

    let values = || {
        Annotated::from_value(vec![Annotated::from_value(Value::String(
            "1234-1234-1234-1234".to_string(),
        ))])
    };
    let out = process_value_array(&processor, values(), &databag);
    assert_eq!(
        out.value().unwrap()[0].value(),
        Some(&Value::String("****-****-****-1234".to_string()))
    );
    assert_eq!(process_value_array(&processor, values(), &freeform), values());
    assert_eq!(process_breadcrumbs(Annotated::empty(), &processor), Annotated::empty());
}
