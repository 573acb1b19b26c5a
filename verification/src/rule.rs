//! Rules: what to look for and how to replace it.

use crate::chunk::{Chunk, ChunkView};
use crate::meta::{clone_opt_string, Annotated, Meta, MetaView, Note, NoteView};
use crate::pattern::{
    captures_iter, is_match, regex_captures, regex_is_match, Detectors, Pattern,
    CREDITCARD_PATTERN, EMAIL_PATTERN, IPV4_PATTERN, IPV6_PATTERN,
};
use crate::processor::{chunks_result_view, ChunksView, PiiKind};
use crate::redaction::{Redaction, RedactionView};
use crate::rewrite::{
    flatten, groups_view, rewrite_flat, rewritten, search_text,
};
use crate::value::{node_view, AnnotatedView, Value, ValueView};
use vstd::prelude::*;

verus! {

/// Supported stripping rules.
#[derive(Debug)]
pub enum RuleType {
    /// Applies a regular expression.
    Pattern {
        /// The regular expression to apply.
        pattern: Pattern,
        /// The match group indices to replace.
        replace_groups: Option<Vec<u8>>,
    },
    /// Matches an email
    Email,
    /// Matches an IPv4 address
    Ipv4,
    /// Matches an IPv6 address
    Ipv6,
    /// Matches any IP address
    Ip,
    /// Matches a creditcard number
    Creditcard,
    /// Unconditionally removes the value
    Remove,
    /// When a regex matches a key, a value is removed
    RemovePair {
        /// A pattern to match for keys.
        key_pattern: Pattern,
    },
    /// Stands for the rule with another id.
    Alias {
        /// The id of the rule that is meant.
        rule: String,
        /// Whether remarks name this rule in place of the one that is meant.
        hide_rule: bool,
    },
}

/// The mathematical content of a [`RuleType`].
pub enum RuleTypeView {
    Pattern { pattern: Seq<char>, replace_groups: Option<Seq<u8>> },
    Email,
    Ipv4,
    Ipv6,
    Ip,
    Creditcard,
    Remove,
    RemovePair { key_pattern: Seq<char> },
    Alias { rule: Seq<char>, hide_rule: bool },
}

impl View for RuleType {
    type V = RuleTypeView;

    open spec fn view(&self) -> RuleTypeView {
        match self {
            RuleType::Pattern { pattern, replace_groups } => RuleTypeView::Pattern {
                pattern: pattern@,
                replace_groups: match replace_groups {
                    Some(list) => Some(list@),
                    None => None,
                },
            },
            RuleType::Email => RuleTypeView::Email,
            RuleType::Ipv4 => RuleTypeView::Ipv4,
            RuleType::Ipv6 => RuleTypeView::Ipv6,
            RuleType::Ip => RuleTypeView::Ip,
            RuleType::Creditcard => RuleTypeView::Creditcard,
            RuleType::Remove => RuleTypeView::Remove,
            RuleType::RemovePair { key_pattern } => RuleTypeView::RemovePair {
                key_pattern: key_pattern@,
            },
            RuleType::Alias { rule, hide_rule } => RuleTypeView::Alias {
                rule: rule@,
                hide_rule: *hide_rule,
            },
        }
    }
}

/// A single rule configuration.
#[derive(Debug)]
pub struct RuleSpec {
    /// What the rule looks for.
    pub ty: RuleType,
    /// How it replaces what it found.
    pub redaction: Redaction,
    /// What the rule says it does, in words.
    pub note: Option<String>,
}

/// The mathematical content of a [`RuleSpec`].
pub struct RuleSpecView {
    pub ty: RuleTypeView,
    pub redaction: RedactionView,
    pub note: Option<Seq<char>>,
}

impl View for RuleSpec {
    type V = RuleSpecView;

    open spec fn view(&self) -> RuleSpecView {
        RuleSpecView { ty: self.ty@, redaction: self.redaction@, note: self.note.deep_view() }
    }
}

impl DeepView for RuleSpec {
    type V = RuleSpecView;

    open spec fn deep_view(&self) -> RuleSpecView {
        self@
    }
}

impl RuleSpec {
    /// A rule of the given type and redaction, without a note.
    pub fn new(ty: RuleType, redaction: Redaction) -> (r: RuleSpec)
        ensures
            r@ == (RuleSpecView { ty: ty@, redaction: redaction@, note: None }),
    {
        RuleSpec { ty, redaction, note: None }
    }

    /// The same rule with the note `note`.
    pub fn with_note(self, note: &str) -> (r: RuleSpec)
        ensures
            r@ == (RuleSpecView { note: Some(note@), ..self@ }),
    {
        RuleSpec { ty: self.ty, redaction: self.redaction, note: Some(note.to_owned()) }
    }
}

/// A rule is a rule config plus id.
#[derive(Debug)]
pub struct Rule<'a> {
    /// The id under which remarks name the rule.
    pub id: &'a str,
    /// What the rule does.
    pub spec: &'a RuleSpec,
}

/// The mathematical content of a [`Rule`].
pub struct RuleView {
    pub id: Seq<char>,
    pub spec: RuleSpecView,
}

impl RuleView {
    /// The note that the rule leaves in remarks.
    pub open spec fn note(self) -> NoteView {
        NoteView { rule_id: self.id, description: self.spec.note }
    }

    /// What the rule makes of `chunks` with the pattern `pattern`.
    pub open spec fn pattern_rewrite(
        self,
        chunks: Seq<ChunkView>,
        pattern: Seq<char>,
        groups: Option<Seq<u8>>,
    ) -> Seq<ChunkView> {
        rewritten(
            chunks,
            regex_captures(pattern, search_text(chunks)),
            groups,
            self.spec.redaction,
            self.note(),
        )
    }

    /// What the rule makes of the chunks of a string.
    ///
    /// A rule with a pattern, its own or that of a detector, rewrites the
    /// chunks along the matches; the rule for IP addresses does so for IPv4
    /// and then for IPv6. The other rules decline: they work on whole values.
    pub open spec fn chunks_outcome(self, chunks: Seq<ChunkView>, meta: MetaView) -> Result<
        ChunksView,
        ChunksView,
    > {
        match self.spec.ty {
            RuleTypeView::Pattern { pattern, replace_groups } => Ok(
                (self.pattern_rewrite(chunks, pattern, replace_groups), meta),
            ),
            RuleTypeView::Email => Ok((self.pattern_rewrite(chunks, EMAIL_PATTERN@, None), meta)),
            RuleTypeView::Ipv4 => Ok((self.pattern_rewrite(chunks, IPV4_PATTERN@, None), meta)),
            RuleTypeView::Ipv6 => Ok((self.pattern_rewrite(chunks, IPV6_PATTERN@, None), meta)),
            RuleTypeView::Ip => Ok(
                (
                    self.pattern_rewrite(
                        self.pattern_rewrite(chunks, IPV4_PATTERN@, None),
                        IPV6_PATTERN@,
                        None,
                    ),
                    meta,
                ),
            ),
            RuleTypeView::Creditcard => Ok(
                (self.pattern_rewrite(chunks, CREDITCARD_PATTERN@, None), meta),
            ),
            _ => Err((chunks, meta)),
        }
    }

    /// What the rule makes of a whole value.
    ///
    /// The rule that removes does so whatever the value; the rule that
    /// removes by key does so where the path of the value is known and its
    /// key pattern matches in the path. The other rules decline.
    pub open spec fn value_outcome(self, node: AnnotatedView<ValueView>) -> Result<
        AnnotatedView<ValueView>,
        AnnotatedView<ValueView>,
    > {
        match self.spec.ty {
            RuleTypeView::Remove => Ok(self.spec.redaction.replaced_value(node, self.note())),
            RuleTypeView::RemovePair { key_pattern } => if node.meta.path is Some
                && regex_is_match(key_pattern, node.meta.path->0) {
                Ok(self.spec.redaction.replaced_value(node, self.note()))
            } else {
                Err(node)
            },
            _ => Err(node),
        }
    }
}

impl<'a> View for Rule<'a> {
    type V = RuleView;

    open spec fn view(&self) -> RuleView {
        RuleView { id: self.id@, spec: self.spec@ }
    }
}

/// The content of what [`Rule::process_value`] returns.
pub open spec fn value_result_view(result: Result<Annotated<Value>, Annotated<Value>>) -> Result<
    AnnotatedView<ValueView>,
    AnnotatedView<ValueView>,
> {
    match result {
        Ok(node) => Ok(node_view(node)),
        Err(node) => Err(node_view(node)),
    }
}

impl<'a> Rule<'a> {
    /// Creates a new note.
    pub fn create_note(&self) -> (r: Note)
        ensures
            r@ == self@.note(),
    {
        Note { rule_id: self.id.to_owned(), description: clone_opt_string(&self.spec.note) }
    }

    /// Inserts replacement chunks into the given chunk buffer.
    pub fn insert_replacement_chunks(&self, text: &str, output: &mut Vec<Chunk>)
        ensures
            final(output).deep_view() == old(output).deep_view().push(
                self@.spec.redaction.chunk(text@, self@.note()),
            ),
    {
        let note = self.create_note();
        self.spec.redaction.insert_replacement_chunks(text, note, output);
    }

    /// Produces a new annotated value with replacement data.
    pub fn replace_value(&self, annotated: Annotated<Value>) -> (r: Annotated<Value>)
        ensures
            node_view(r) == self@.spec.redaction.replaced_value(
                node_view(annotated),
                self@.note(),
            ),
    {
        let note = self.create_note();
        self.spec.redaction.set_replacement_value(annotated, note)
    }

    /// Applies a regex to chunks and meta.
    pub fn apply_regex_to_chunks(
        &self,
        chunks: Vec<Chunk>,
        meta: Meta,
        pattern: &Pattern,
        replace_groups: Option<&Vec<u8>>,
    ) -> (r: (Vec<Chunk>, Meta))
        ensures
            r.0.deep_view() == self@.pattern_rewrite(
                chunks.deep_view(),
                pattern@,
                groups_view(replace_groups),
            ),
            r.1@ == meta@,
    {
        let (search, redactions) = flatten(&chunks);
        let matches = captures_iter(pattern, search.as_str());
        let note = self.create_note();
        let rv = rewrite_flat(
            search.as_str(),
            &redactions,
            &matches,
            replace_groups,
            &self.spec.redaction,
            &note,
        );
        (rv, meta)
    }

    /// Processes the given chunks according to the rule.
    ///
    /// This works the same as `pii_process_chunks` in behavior.  This means that if an
    /// error is returned the caller falls back to regular value processing.
    pub fn process_chunks(&self, chunks: Vec<Chunk>, meta: Meta, detectors: &Detectors) -> (r:
        Result<(Vec<Chunk>, Meta), (Vec<Chunk>, Meta)>)
        ensures
            chunks_result_view(r) == self@.chunks_outcome(chunks.deep_view(), meta@),
    {
        match &self.spec.ty {
            RuleType::Pattern { pattern, replace_groups } => Ok(
                self.apply_regex_to_chunks(chunks, meta, pattern, replace_groups.as_ref()),
            ),
            RuleType::Email => Ok(
                self.apply_regex_to_chunks(chunks, meta, detectors.email(), None),
            ),
            RuleType::Ipv4 => Ok(self.apply_regex_to_chunks(chunks, meta, detectors.ipv4(), None)),
            RuleType::Ipv6 => Ok(self.apply_regex_to_chunks(chunks, meta, detectors.ipv6(), None)),
            RuleType::Ip => {
                let (chunks, meta) = self.apply_regex_to_chunks(
                    chunks,
                    meta,
                    detectors.ipv4(),
                    None,
                );
                let (chunks, meta) = self.apply_regex_to_chunks(
                    chunks,
                    meta,
                    detectors.ipv6(),
                    None,
                );
                Ok((chunks, meta))
            },
            RuleType::Creditcard => Ok(
                self.apply_regex_to_chunks(chunks, meta, detectors.creditcard(), None),
            ),
            RuleType::Remove => Err((chunks, meta)),
            RuleType::RemovePair { .. } => Err((chunks, meta)),
            RuleType::Alias { .. } => Err((chunks, meta)),
        }
    }

    /// Applies the rule to the given value.
    ///
    /// In case `Err` is returned the caller is expected to try the next rule.  If
    /// `Ok` is returned then no further modifications are applied.
    pub fn process_value(&self, value: Annotated<Value>, kind: PiiKind) -> (r: Result<
        Annotated<Value>,
        Annotated<Value>,
    >)
        ensures
            value_result_view(r) == self@.value_outcome(node_view(value)),
    {
        match &self.spec.ty {
            RuleType::Remove => Ok(self.replace_value(value)),
            RuleType::RemovePair { key_pattern } => {
                let matched = match value.1.path() {
                    Some(path) => is_match(key_pattern, path),
                    None => false,
                };
                if matched {
                    Ok(self.replace_value(value))
                } else {
                    Err(value)
                }
            },
            _ => Err(value),
        }
    }
}

} // verus!
