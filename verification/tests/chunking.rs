use marshal::chunk::{chunks_from_str, chunks_to_string, Chunk};
use marshal::meta::{Meta, Note, Remark, RemarkType};

fn text(s: &str) -> Chunk {
    Chunk::Text { text: s.to_string() }
}

fn redaction(s: &str, rule_id: &str) -> Chunk {
    Chunk::Redaction {
        text: s.to_string(),
        rule_id: rule_id.to_string(),
        ty: RemarkType::Masked,
        description: None,
    }
}

#[test]
fn test_chunking() {
    let chunks = chunks_from_str(
        "Hello Peter, my email address is ****@*****.com. See you",
        &Meta {
            remarks: vec![Remark::with_range(
                RemarkType::Masked,
                "@email:strip",
                (33, 47),
            )],
            ..Default::default()
        },
    );

    assert_eq!(
        chunks,
        vec![
            Chunk::Text {
                text: "Hello Peter, my email address is ".into(),
            },
            Chunk::Redaction {
                ty: RemarkType::Masked,
                text: "****@*****.com".into(),
                rule_id: "@email:strip".into(),
                description: None,
            },
            Chunk::Text {
                text: ". See you".into(),
            },
        ]
    );

    assert_eq!(
        chunks_to_string(chunks, Default::default()),
        (
            "Hello Peter, my email address is ****@*****.com. See you".into(),
            Meta {
                remarks: vec![Remark::with_range(
                    RemarkType::Masked,
                    "@email:strip",
                    (33, 47),
                )],
                ..Default::default()
            }
        )
    );
}

#[test]
fn chunk_text_and_length() {
    let chunk = redaction("h\u{e9}llo", "rule");
    assert_eq!(chunk.as_str(), "h\u{e9}llo");
    assert_eq!(chunk.len(), 6);
    assert_eq!(text("").len(), 0);
}

#[test]
fn chunks_without_remarks_are_one_text() {
    let chunks = chunks_from_str("plain", &Meta::default());
    assert_eq!(chunks, vec![text("plain")]);
    assert_eq!(chunks_from_str("", &Meta::default()), Vec::<Chunk>::new());
}

#[test]
fn remarks_without_range_are_passed_over() {
    let meta = Meta {
        remarks: vec![
            Remark::new(RemarkType::Removed, "a"),
            Remark::with_range(RemarkType::Masked, "b", (0, 2)),
        ],
        ..Default::default()
    };
    assert_eq!(chunks_from_str("xxyy", &meta), vec![redaction("xx", "b"), text("yy")]);
}

#[test]
fn walk_stops_at_range_out_of_bounds() {
    let meta = Meta {
        remarks: vec![
            Remark::with_range(RemarkType::Masked, "a", (1, 2)),
            Remark::with_range(RemarkType::Masked, "b", (3, 40)),
            Remark::with_range(RemarkType::Masked, "c", (4, 5)),
        ],
        ..Default::default()
    };
    assert_eq!(
        chunks_from_str("abcdef", &meta),
        vec![text("a"), redaction("b", "a"), text("cdef")]
    );
}

#[test]
fn walk_stops_at_range_inside_a_character() {
    let meta = Meta {
        remarks: vec![Remark::with_range(RemarkType::Masked, "a", (1, 2))],
        ..Default::default()
    };
    assert_eq!(chunks_from_str("\u{e9}\u{e9}", &meta), vec![text("\u{e9}\u{e9}")]);
}

#[test]
fn round_trip_keeps_text_and_remarks() {
    let note = Note::new("rule", Some("what it did"));
    let meta = Meta {
        remarks: vec![
            Remark::from_note(RemarkType::Masked, note, Some((0, 2))),
            Remark::with_range(RemarkType::Pseudonymized, "other", (2, 2)),
            Remark::with_range(RemarkType::Masked, "third", (4, 7)),
        ],
        errors: vec!["an error".to_string()],
        original_length: Some(12),
        path: Some("a.b".to_string()),
    };
    let source = "\u{e9}ab\u{e9}cd";
    let chunks = chunks_from_str(source, &meta);
    assert_eq!(chunks.len(), 5);
    let (joined, rebuilt) = chunks_to_string(chunks, meta.clone());
    assert_eq!(joined, source);
    assert_eq!(rebuilt, meta);
}

#[test]
fn remarks_follow_positions_in_bytes() {
    let chunks = vec![
        text("\u{e9}"),
        redaction("**", "a"),
        redaction("", "b"),
        text("x"),
        redaction("\u{20ac}", "c"),
    ];
    let (joined, meta) = chunks_to_string(chunks, Meta::from_error("kept"));
    assert_eq!(joined, "\u{e9}**x\u{20ac}");
    assert_eq!(
        meta.remarks,
        vec![
            Remark::with_range(RemarkType::Masked, "a", (2, 4)),
            Remark::with_range(RemarkType::Masked, "b", (4, 4)),
            Remark::with_range(RemarkType::Masked, "c", (5, 8)),
        ]
    );
    assert_eq!(meta.errors, vec!["kept".to_string()]);
    for pair in meta.remarks.windows(2) {
        assert!(pair[0].range.unwrap().1 <= pair[1].range.unwrap().0);
    }
}

#[test]
fn chunks_to_string_replaces_earlier_remarks() {
    let meta = Meta {
        remarks: vec![Remark::new(RemarkType::Removed, "old")],
        ..Default::default()
    };
    let (joined, meta) = chunks_to_string(vec![text("abc")], meta);
    assert_eq!(joined, "abc");
    assert!(meta.remarks.is_empty());
}
