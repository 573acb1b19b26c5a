//! The catalog of rules that every configuration can name.
//!
//! The ids of the catalog begin with `@`. An id without a suffix stands for
//! one of the rules with a suffix.

use crate::hash::HashAlgorithm;
use crate::redaction::{Redaction, RedactionView};
use crate::rule::{RuleSpec, RuleSpecView, RuleType, RuleTypeView};
use vstd::prelude::*;

verus! {

/// The rule that stands for the rule with the id `target`.
pub open spec fn alias_to(target: Seq<char>) -> RuleSpecView {
    RuleSpecView {
        ty: RuleTypeView::Alias { rule: target, hide_rule: false },
        redaction: RedactionView::Default,
        note: None,
    }
}

/// A rule of the catalog that replaces what it finds by `text`.
pub open spec fn replacing(ty: RuleTypeView, text: Seq<char>) -> RuleSpecView {
    RuleSpecView { ty, redaction: RedactionView::Replace { text }, note: None }
}

/// A rule of the catalog that hashes what it finds. The catalog holds no
/// key: a configuration that uses such a rule defines it anew with a key.
pub open spec fn hashing(ty: RuleTypeView) -> RuleSpecView {
    RuleSpecView {
        ty,
        redaction: RedactionView::Hash { algorithm: HashAlgorithm::HmacSha1, key: None },
        note: None,
    }
}

/// A rule of the catalog that masks what it finds.
pub open spec fn masking(
    ty: RuleTypeView,
    chars_to_ignore: Seq<char>,
    range: (Option<i32>, Option<i32>),
) -> RuleSpecView {
    RuleSpecView {
        ty,
        redaction: RedactionView::Mask { mask_char: '*', chars_to_ignore, range },
        note: None,
    }
}

/// The catalog: each id with its rule.
pub open spec fn builtin_catalog() -> Seq<(Seq<char>, RuleSpecView)> {
    seq![
        ("@ip"@, alias_to("@ip:replace"@)),
        ("@ip:replace"@, replacing(RuleTypeView::Ip, "[ip]"@)),
        ("@ip:hash"@, hashing(RuleTypeView::Ip)),
        ("@email"@, alias_to("@email:replace"@)),
        ("@email:mask"@, masking(RuleTypeView::Email, ".@"@, (None, None))),
        ("@email:replace"@, replacing(RuleTypeView::Email, "[email]"@)),
        ("@email:hash"@, hashing(RuleTypeView::Email)),
        ("@creditcard"@, alias_to("@creditcard:mask"@)),
        ("@creditcard:mask"@, masking(RuleTypeView::Creditcard, " -"@, (None, Some(-4i32)))),
        ("@creditcard:replace"@, replacing(RuleTypeView::Creditcard, "[creditcard]"@)),
        ("@creditcard:hash"@, hashing(RuleTypeView::Creditcard)),
    ]
}

fn alias(id: &str, target: &str) -> (r: (String, RuleSpec))
    ensures
        r.deep_view() == (id@, alias_to(target@)),
{
    (
        id.to_owned(),
        RuleSpec {
            ty: RuleType::Alias { rule: target.to_owned(), hide_rule: false },
            redaction: Redaction::Default,
            note: None,
        },
    )
}

fn replace(id: &str, ty: RuleType, text: &str) -> (r: (String, RuleSpec))
    ensures
        r.deep_view() == (id@, replacing(ty@, text@)),
{
    (
        id.to_owned(),
        RuleSpec { ty, redaction: Redaction::Replace { text: text.to_owned() }, note: None },
    )
}

fn hash(id: &str, ty: RuleType) -> (r: (String, RuleSpec))
    ensures
        r.deep_view() == (id@, hashing(ty@)),
{
    (
        id.to_owned(),
        RuleSpec {
            ty,
            redaction: Redaction::Hash { algorithm: HashAlgorithm::HmacSha1, key: None },
            note: None,
        },
    )
}

fn mask(id: &str, ty: RuleType, chars_to_ignore: &str, range: (Option<i32>, Option<i32>)) -> (r: (
    String,
    RuleSpec,
))
    ensures
        r.deep_view() == (id@, masking(ty@, chars_to_ignore@, range)),
{
    (
        id.to_owned(),
        RuleSpec {
            ty,
            redaction: Redaction::Mask {
                mask_char: '*',
                chars_to_ignore: chars_to_ignore.to_owned(),
                range,
            },
            note: None,
        },
    )
}

/// Builds the catalog.
pub fn builtin_rules() -> (r: Vec<(String, RuleSpec)>)
    ensures
        r.deep_view() == builtin_catalog(),
{
    let mut rules: Vec<(String, RuleSpec)> = Vec::new();
    rules.push(alias("@ip", "@ip:replace"));
    rules.push(replace("@ip:replace", RuleType::Ip, "[ip]"));
    rules.push(hash("@ip:hash", RuleType::Ip));
    rules.push(alias("@email", "@email:replace"));
    rules.push(mask("@email:mask", RuleType::Email, ".@", (None, None)));
    rules.push(replace("@email:replace", RuleType::Email, "[email]"));
    rules.push(hash("@email:hash", RuleType::Email));
    rules.push(alias("@creditcard", "@creditcard:mask"));
    rules.push(mask("@creditcard:mask", RuleType::Creditcard, " -", (None, Some(-4))));
    rules.push(replace("@creditcard:replace", RuleType::Creditcard, "[creditcard]"));
    rules.push(hash("@creditcard:hash", RuleType::Creditcard));
    assert(rules.deep_view() =~= builtin_catalog());
    rules
}

} // verus!
