//! The ways in which a rule replaces what it found: by a fixed text, by a
//! mask, by a keyed hash, or by nothing.

use crate::chunk::{chunks_to_string, joined, lemma_single_chunk, remarks_from, Chunk, ChunkView};
use crate::hash::HashAlgorithm;
use crate::meta::{
    clone_opt_string, Annotated, Meta, MetaView, Note, NoteView, Remark, RemarkType, RemarkView,
};
use crate::text::{byte_len, contains_char, push_char, utf8_len};
use crate::value::{lemma_node_view, node_view, AnnotatedView, Value, ValueView};
use vstd::prelude::*;
use vstd::string::*;

verus! {

/// The character that a mask uses where none is given.
pub fn default_mask_char() -> (c: char)
    ensures
        c == '*',
{
    '*'
}

/// The position that one end of a mask range stands for in a text of `len`
/// characters: the default where none is given, a negative index counted from
/// the end and not before the start, any other not after the end.
pub open spec fn range_index(idx: Option<i32>, len: nat, default: nat) -> nat {
    match idx {
        None => default,
        Some(k) => if k < 0 {
            if len + k > 0 {
                (len + k) as nat
            } else {
                0
            }
        } else if k <= len {
            k as nat
        } else {
            len
        },
    }
}

/// Whether the character at position `pos` of a text of `len` characters
/// lies in the mask range.
pub open spec fn position_in_range(range: (Option<i32>, Option<i32>), pos: nat, len: nat) -> bool {
    range_index(range.0, len, 0) <= pos < range_index(range.1, len, len)
}

fn get_range_index(idx: Option<i32>, len: usize, default: usize) -> (r: usize)
    ensures
        r == range_index(idx, len as nat, default as nat),
{
    match idx {
        None => default,
        Some(k) => if k < 0 {
            let back: u64 = (-(k as i64)) as u64;
            if back >= len as u64 {
                0
            } else {
                len - (back as usize)
            }
        } else if (k as u64) <= len as u64 {
            k as usize
        } else {
            len
        },
    }
}

/// Whether position `pos` of a text of `len` characters lies in the range.
/// Negative indices count from the end of the text.
pub fn in_range(range: (Option<i32>, Option<i32>), pos: usize, len: usize) -> (r: bool)
    ensures
        r == position_in_range(range, pos as nat, len as nat),
{
    let start = get_range_index(range.0, len, 0);
    let end = get_range_index(range.1, len, len);
    pos >= start && pos < end
}

/// The text with every character in the range replaced by `mask_char`,
/// except the characters in `ignore`. Positions count characters.
pub open spec fn masked(
    text: Seq<char>,
    mask_char: char,
    ignore: Seq<char>,
    range: (Option<i32>, Option<i32>),
) -> Seq<char> {
    Seq::new(
        text.len(),
        |i: int|
            if position_in_range(range, i as nat, text.len()) && !ignore.contains(text[i]) {
                mask_char
            } else {
                text[i]
            },
    )
}

/// Masks `text`.
pub fn mask_text(
    text: &str,
    mask_char: char,
    chars_to_ignore: &str,
    range: (Option<i32>, Option<i32>),
) -> (r: String)
    ensures
        r@ == masked(text@, mask_char, chars_to_ignore@, range),
{
    let len = text.unicode_len();
    let mut out = String::new();
    let mut idx: usize = 0;
    for c in it: text.chars()
        invariant
            it.seq() == text@,
            idx == it.index(),
            len == text@.len(),
            out@ == masked(text@, mask_char, chars_to_ignore@, range).take(idx as int),
    {
        let ghost before = out@;
        if in_range(range, idx, len) && !contains_char(chars_to_ignore, c) {
            push_char(&mut out, mask_char);
        } else {
            push_char(&mut out, c);
        }
        idx += 1;
        assert(out@ =~= masked(text@, mask_char, chars_to_ignore@, range).take(idx as int));
    }
    assert(out@ =~= masked(text@, mask_char, chars_to_ignore@, range));
    out
}

/// Masking a masked text again changes nothing.
pub proof fn law_mask_idempotent(
    text: Seq<char>,
    mask_char: char,
    ignore: Seq<char>,
    range: (Option<i32>, Option<i32>),
)
    ensures
        masked(masked(text, mask_char, ignore, range), mask_char, ignore, range) == masked(
            text,
            mask_char,
            ignore,
            range,
        ),
{
    assert(masked(masked(text, mask_char, ignore, range), mask_char, ignore, range) =~= masked(
        text,
        mask_char,
        ignore,
        range,
    ));
}

/// A text that holds the mask character and nothing else is its own mask.
pub proof fn law_mask_keeps_masked_text(
    text: Seq<char>,
    mask_char: char,
    ignore: Seq<char>,
    range: (Option<i32>, Option<i32>),
)
    requires
        forall|i: int| 0 <= i < text.len() ==> text[i] == mask_char,
    ensures
        masked(text, mask_char, ignore, range) == text,
{
    assert(masked(text, mask_char, ignore, range) =~= text);
}

/// Defines how replacements happen.
#[derive(Debug, PartialEq, Eq)]
pub enum Redaction {
    /// Leaves the replacement to the rule: what it found is removed.
    Default,
    /// Replaces the matched group with a new value.
    Replace {
        /// The replacement string.
        text: String,
    },
    /// Overwrites the matched value by masking.
    Mask {
        /// The character to mask with.
        mask_char: char,
        /// Characters to skip during masking to preserve structure.
        chars_to_ignore: String,
        /// Index range to mask in. Negative indices count from the string's end.
        range: (Option<i32>, Option<i32>),
    },
    /// Replaces the value with a hash
    Hash {
        /// The hash algorithm
        algorithm: HashAlgorithm,
        /// The secret key
        key: Option<String>,
    },
}

/// The mathematical content of a [`Redaction`].
pub enum RedactionView {
    Default,
    Replace { text: Seq<char> },
    Mask { mask_char: char, chars_to_ignore: Seq<char>, range: (Option<i32>, Option<i32>) },
    Hash { algorithm: HashAlgorithm, key: Option<Seq<char>> },
}

impl View for Redaction {
    type V = RedactionView;

    open spec fn view(&self) -> RedactionView {
        match self {
            Redaction::Default => RedactionView::Default,
            Redaction::Replace { text } => RedactionView::Replace { text: text@ },
            Redaction::Mask { mask_char, chars_to_ignore, range } => RedactionView::Mask {
                mask_char: *mask_char,
                chars_to_ignore: chars_to_ignore@,
                range: *range,
            },
            Redaction::Hash { algorithm, key } => RedactionView::Hash {
                algorithm: *algorithm,
                key: key.deep_view(),
            },
        }
    }
}

impl DeepView for Redaction {
    type V = RedactionView;

    open spec fn deep_view(&self) -> RedactionView {
        self@
    }
}

impl Clone for Redaction {
    fn clone(&self) -> (r: Self)
        ensures
            r@ == self@,
    {
        match self {
            Redaction::Default => Redaction::Default,
            Redaction::Replace { text } => Redaction::Replace { text: text.clone() },
            Redaction::Mask { mask_char, chars_to_ignore, range } => Redaction::Mask {
                mask_char: *mask_char,
                chars_to_ignore: chars_to_ignore.clone(),
                range: *range,
            },
            Redaction::Hash { algorithm, key } => Redaction::Hash {
                algorithm: *algorithm,
                key: clone_opt_string(key),
            },
        }
    }
}

impl RedactionView {
    /// The kind of remark that the redaction leaves.
    pub open spec fn kind(self) -> RemarkType {
        match self {
            RedactionView::Default => RemarkType::Removed,
            RedactionView::Replace { .. } => RemarkType::Masked,
            RedactionView::Mask { .. } => RemarkType::Masked,
            RedactionView::Hash { .. } => RemarkType::Pseudonymized,
        }
    }

    /// Whether the redaction is a hash for which no key is configured.
    pub open spec fn lacks_key(self) -> bool {
        self matches RedactionView::Hash { key, .. } && key is None
    }

    /// The text that the redaction puts in place of `text`. A hash without
    /// a configured key is taken with the empty key.
    pub open spec fn replacement(self, text: Seq<char>) -> Seq<char> {
        match self {
            RedactionView::Default => Seq::empty(),
            RedactionView::Replace { text: new_text } => new_text,
            RedactionView::Mask { mask_char, chars_to_ignore, range } => masked(
                text,
                mask_char,
                chars_to_ignore,
                range,
            ),
            RedactionView::Hash { algorithm, key } => algorithm.hashed(
                text,
                match key {
                    Some(key) => key,
                    None => Seq::empty(),
                },
            ),
        }
    }

    /// The chunk that the redaction puts in place of `text` for the rule of
    /// `note`.
    pub open spec fn chunk(self, text: Seq<char>, note: NoteView) -> ChunkView {
        ChunkView::Redaction {
            text: self.replacement(text),
            rule_id: note.rule_id,
            ty: self.kind(),
            description: note.description,
        }
    }

    /// The remark, without a range, that the redaction leaves on a value.
    pub open spec fn remark(self, note: NoteView) -> RemarkView {
        RemarkView { ty: self.kind(), note, range: None }
    }

    /// The remark that says that a value was removed.
    pub open spec fn removal(note: NoteView) -> RemarkView {
        RemarkView { ty: RemarkType::Removed, note, range: None }
    }

    /// What becomes of a whole value under the redaction.
    ///
    /// Without a redaction of its own the value is removed. A replacement
    /// takes the place of the value, present or not, and leaves a remark.
    /// A mask and a hash work on the text of a scalar and give a string: the
    /// mask leaves one remark over the whole string in place of the earlier
    /// ones, the hash leaves none, and both record the first change of the
    /// byte length. An absent value, and one that has no text, is removed.
    pub open spec fn replaced_value(self, node: AnnotatedView<ValueView>, note: NoteView)
        -> AnnotatedView<ValueView> {
        let removed = AnnotatedView::<ValueView> {
            value: None,
            meta: node.meta.push_remark(Self::removal(note)),
        };
        match self {
            RedactionView::Default => removed,
            RedactionView::Replace { text } => AnnotatedView {
                value: Some(ValueView::String(text)),
                meta: node.meta.push_remark(self.remark(note)),
            },
            RedactionView::Mask { .. } => match node.value {
                Some(value) => match value.scalar_text() {
                    Some(text) => {
                        let new_text = self.replacement(text);
                        AnnotatedView {
                            value: Some(ValueView::String(new_text)),
                            meta: node.meta.with_remarks(
                                seq![self.chunk(text, note).remark_at(0)->0],
                            ).record_length(utf8_len(text), utf8_len(new_text)),
                        }
                    },
                    None => removed,
                },
                None => removed,
            },
            RedactionView::Hash { .. } => match node.value {
                Some(value) => match value.scalar_text() {
                    Some(text) => {
                        let new_text = self.replacement(text);
                        AnnotatedView {
                            value: Some(ValueView::String(new_text)),
                            meta: node.meta.record_length(utf8_len(text), utf8_len(new_text)),
                        }
                    },
                    None => removed,
                },
                None => removed,
            },
        }
    }
}

impl Redaction {
    /// The kind of remark that the redaction leaves.
    pub fn kind(&self) -> (r: RemarkType)
        ensures
            r == self@.kind(),
    {
        match self {
            Redaction::Default => RemarkType::Removed,
            Redaction::Replace { .. } => RemarkType::Masked,
            Redaction::Mask { .. } => RemarkType::Masked,
            Redaction::Hash { .. } => RemarkType::Pseudonymized,
        }
    }

    /// The text that the redaction puts in place of `text`.
    pub fn replacement(&self, text: &str) -> (r: String)
        ensures
            r@ == self@.replacement(text@),
    {
        match self {
            Redaction::Default => String::new(),
            Redaction::Replace { text: new_text } => new_text.clone(),
            Redaction::Mask { mask_char, chars_to_ignore, range } => mask_text(
                text,
                *mask_char,
                chars_to_ignore.as_str(),
                *range,
            ),
            Redaction::Hash { algorithm, key } => match key {
                Some(key) => algorithm.hash_value(text, key.as_str()),
                None => {
                    let empty = String::new();
                    algorithm.hash_value(text, empty.as_str())
                },
            },
        }
    }

    /// Adds to `output` the chunk that stands for `text` after the
    /// redaction.
    pub fn insert_replacement_chunks(&self, text: &str, note: Note, output: &mut Vec<Chunk>)
        ensures
            final(output).deep_view() == old(output).deep_view().push(self@.chunk(text@, note@)),
    {
        let Note { rule_id, description } = note;
        let chunk = Chunk::Redaction {
            text: self.replacement(text),
            rule_id,
            ty: self.kind(),
            description,
        };
        output.push(chunk);
        assert(output.deep_view() =~= old(output).deep_view().push(self@.chunk(text@, note@)));
    }

    /// Replaces the whole value by what the redaction makes of it.
    pub fn set_replacement_value(&self, annotated: Annotated<Value>, note: Note) -> (r: Annotated<
        Value,
    >)
        ensures
            node_view(r) == self@.replaced_value(node_view(annotated), note@),
    {
        match self {
            Redaction::Default => annotated.with_removed_value(
                Remark::from_note(RemarkType::Removed, note, None),
            ),
            Redaction::Replace { text } => {
                let Annotated(_, mut meta) = annotated;
                meta.push_remark(Remark::from_note(self.kind(), note, None));
                Annotated(Some(Value::String(text.clone())), meta)
            },
            Redaction::Mask { .. } => {
                let text = match &annotated.0 {
                    Some(value) => value.scalar_text(),
                    None => None,
                };
                match text {
                    Some(text) => {
                        let Annotated(_, meta) = annotated;
                        let original_length = byte_len(text.as_str());
                        let mut output: Vec<Chunk> = Vec::new();
                        assert(output.deep_view() =~= Seq::empty());
                        self.insert_replacement_chunks(text.as_str(), note, &mut output);
                        proof {
                            let chunk = self@.chunk(text@, note@);
                            assert(output.deep_view() =~= seq![chunk]);
                            lemma_single_chunk(chunk, 0);
                        }
                        let (value, mut meta) = chunks_to_string(output, meta);
                        meta.record_length(original_length, byte_len(value.as_str()));
                        Annotated(Some(Value::String(value)), meta)
                    },
                    None => annotated.with_removed_value(
                        Remark::from_note(RemarkType::Removed, note, None),
                    ),
                }
            },
            Redaction::Hash { .. } => {
                let text = match &annotated.0 {
                    Some(value) => value.scalar_text(),
                    None => None,
                };
                match text {
                    Some(text) => {
                        let Annotated(_, mut meta) = annotated;
                        let original_length = byte_len(text.as_str());
                        let value = self.replacement(text.as_str());
                        meta.record_length(original_length, byte_len(value.as_str()));
                        Annotated(Some(Value::String(value)), meta)
                    },
                    None => annotated.with_removed_value(
                        Remark::from_note(RemarkType::Removed, note, None),
                    ),
                }
            },
        }
    }
}

} // verus!
