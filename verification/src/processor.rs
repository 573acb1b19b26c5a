//! The walk over annotated values that hands each one to a PII processor
//! according to the kind that its field declares.

use crate::chunk::{chunks_from, chunks_from_str, chunks_to_string, joined, remarks_from};
use crate::chunk::{Chunk, ChunkView};
use crate::meta::{Annotated, Meta, MetaView};
use crate::text::{byte_len, utf8_len};
use crate::value::{
    array_node, lemma_node_view, node_view, object_node, value_view, AnnotatedView, Array, Object,
    Value, ValueView,
};
use vstd::prelude::*;

verus! {

/// The type of PII that's contained in the field.
#[derive(Copy, Clone, Debug, PartialEq, Eq, Structural, PartialOrd, Ord, Hash)]
pub enum PiiKind {
    /// A freeform text potentially containing PII data.
    Freeform,
    /// An ip address
    Ip,
    /// A user, unique device or other PII ID
    Id,
    /// A username or other user identifier
    Username,
    /// Sensitive PII if they ever come up in the protocol (gender, religious orientation etc.)
    Sensitive,
    /// First, last or real name of a person
    Name,
    /// An email address
    Email,
    /// An arbitrary structured data bag
    Databag,
}

impl DeepView for PiiKind {
    type V = PiiKind;

    open spec fn deep_view(&self) -> PiiKind {
        *self
    }
}

impl PiiKind {
    /// The place of the kind in the order of the kinds.
    pub open spec fn index(self) -> int {
        match self {
            PiiKind::Freeform => 0,
            PiiKind::Ip => 1,
            PiiKind::Id => 2,
            PiiKind::Username => 3,
            PiiKind::Sensitive => 4,
            PiiKind::Name => 5,
            PiiKind::Email => 6,
            PiiKind::Databag => 7,
        }
    }

    /// The kind at the place `index`.
    pub open spec fn at(index: int) -> PiiKind {
        if index == 0 {
            PiiKind::Freeform
        } else if index == 1 {
            PiiKind::Ip
        } else if index == 2 {
            PiiKind::Id
        } else if index == 3 {
            PiiKind::Username
        } else if index == 4 {
            PiiKind::Sensitive
        } else if index == 5 {
            PiiKind::Name
        } else if index == 6 {
            PiiKind::Email
        } else {
            PiiKind::Databag
        }
    }

    /// The place of the kind in the order of the kinds.
    pub fn ordinal(&self) -> (r: usize)
        ensures
            r == self.index(),
            r < 8,
            PiiKind::at(r as int) == *self,
    {
        match self {
            PiiKind::Freeform => 0,
            PiiKind::Ip => 1,
            PiiKind::Id => 2,
            PiiKind::Username => 3,
            PiiKind::Sensitive => 4,
            PiiKind::Name => 5,
            PiiKind::Email => 6,
            PiiKind::Databag => 7,
        }
    }

    /// The kind at the place `index`; the last kind for a larger index.
    pub fn from_ordinal(index: usize) -> (r: PiiKind)
        ensures
            r == PiiKind::at(index as int),
            index < 8 ==> r.index() == index,
    {
        match index {
            0 => PiiKind::Freeform,
            1 => PiiKind::Ip,
            2 => PiiKind::Id,
            3 => PiiKind::Username,
            4 => PiiKind::Sensitive,
            5 => PiiKind::Name,
            6 => PiiKind::Email,
            _ => PiiKind::Databag,
        }
    }
}

/// The type of cap applied to the value.
#[derive(Copy, Clone, Debug, PartialEq, Eq)]
pub enum Cap {
    /// A summary text
    Summary,
    /// A message text
    Message,
    /// A path
    Path,
    /// A short path (typically just filename)
    ShortPath,
    /// Default limits for databags
    Databag,
}

/// Information about how to process certain annotated values.
#[derive(Copy, Clone, Debug, PartialEq, Eq)]
pub struct ValueInfo {
    /// The type of PII info
    pub pii_kind: Option<PiiKind>,
    /// The size cap of the field
    pub cap: Option<Cap>,
}

impl Default for ValueInfo {
    fn default() -> (r: ValueInfo)
        ensures
            r == (ValueInfo { pii_kind: None, cap: None }),
    {
        ValueInfo { pii_kind: None, cap: None }
    }
}

impl ValueInfo {
    /// What a child of unknown schema inherits: the kind and the cap of a
    /// databag, and nothing else.
    pub open spec fn derived(self) -> ValueInfo {
        ValueInfo {
            pii_kind: if self.pii_kind == Some(PiiKind::Databag) {
                Some(PiiKind::Databag)
            } else {
                None
            },
            cap: if self.cap == Some(Cap::Databag) {
                Some(Cap::Databag)
            } else {
                None
            },
        }
    }

    /// Derives a value info from the current one for unknown child elements.
    pub fn derive(&self) -> (r: ValueInfo)
        ensures
            r == self.derived(),
            self.pii_kind == Some(PiiKind::Databag) ==> r.pii_kind == Some(PiiKind::Databag),
            self.pii_kind != Some(PiiKind::Databag) ==> r.pii_kind is None,
            self.cap == Some(Cap::Databag) ==> r.cap == Some(Cap::Databag),
            self.cap != Some(Cap::Databag) ==> r.cap is None,
    {
        ValueInfo {
            pii_kind: match self.pii_kind {
                Some(PiiKind::Databag) => Some(PiiKind::Databag),
                _ => None,
            },
            cap: match self.cap {
                Some(Cap::Databag) => Some(Cap::Databag),
                _ => None,
            },
        }
    }
}

/// Chunks with their meta record, as mathematical values.
pub type ChunksView = (Seq<ChunkView>, MetaView);

/// The content of what [`PiiProcessor::pii_process_chunks`] returns.
pub open spec fn chunks_result_view(
    result: Result<(Vec<Chunk>, Meta), (Vec<Chunk>, Meta)>,
) -> Result<ChunksView, ChunksView> {
    match result {
        Ok((chunks, meta)) => Ok((chunks.deep_view(), meta@)),
        Err((chunks, meta)) => Err((chunks.deep_view(), meta@)),
    }
}

/// Helper trait for pii processing.
///
/// An implementation says in `chunks_outcome` and `value_outcome` what its
/// two methods return; the walk over values is stated in terms of them.
pub trait PiiProcessor {
    /// What the processor needs to hold of itself to work.
    spec fn well_formed(&self) -> bool;

    /// What `pii_process_chunks` returns.
    spec fn chunks_outcome(&self, chunks: Seq<ChunkView>, meta: MetaView, kind: PiiKind) -> Result<
        ChunksView,
        ChunksView,
    >;

    /// What `pii_process_value` returns.
    spec fn value_outcome(&self, value: AnnotatedView<ValueView>, kind: PiiKind) -> AnnotatedView<
        ValueView,
    >;

    /// This is invoked with chunked data for strings.
    ///
    /// If the PII processor returns `Ok` then a modification is recorded.  If an
    /// `Err` is returned then the regular `pii_process_value` is invoked as a
    /// fallback.
    fn pii_process_chunks(&self, chunks: Vec<Chunk>, meta: Meta, pii_kind: PiiKind) -> (r: Result<
        (Vec<Chunk>, Meta),
        (Vec<Chunk>, Meta),
    >)
        requires
            self.well_formed(),
        ensures
            chunks_result_view(r) == self.chunks_outcome(chunks.deep_view(), meta@, pii_kind),
    ;

    /// Processes a single value.
    ///
    /// The type of the value contained should not be changed as the processor is
    /// unlikely to know if a value of a different type is accepted.  If a value
    /// of an invalid type is emitted it's changed to null.
    fn pii_process_value(&self, value: Annotated<Value>, kind: PiiKind) -> (r: Annotated<Value>)
        requires
            self.well_formed(),
        ensures
            r.deep_view() == self.value_outcome(value.deep_view(), kind),
    ;
}

/// What becomes of an annotated string under `processor`.
///
/// With a kind and a value the string is cut into chunks and handed to the
/// processor. Where the processor rewrote the chunks they are joined again;
/// where it declined, the string goes through the processor as a value, and
/// a result that is no string leaves no value. Either way the first change of
/// the byte length is recorded.
pub open spec fn string_outcome<P: PiiProcessor>(
    processor: &P,
    annotated: AnnotatedView<Seq<char>>,
    info: ValueInfo,
) -> AnnotatedView<Seq<char>> {
    match (annotated.value, info.pii_kind) {
        (Some(value), Some(kind)) => {
            let before = utf8_len(value);
            let chunks = chunks_from(value, annotated.meta.remarks, 0);
            match processor.chunks_outcome(chunks, annotated.meta, kind) {
                Ok((chunks, meta)) => {
                    let text = joined(chunks);
                    AnnotatedView {
                        value: Some(text),
                        meta: meta.with_remarks(remarks_from(chunks, 0)).record_length(
                            before,
                            utf8_len(text),
                        ),
                    }
                },
                Err((_, meta)) => {
                    let out = processor.value_outcome(
                        AnnotatedView { value: Some(ValueView::String(value)), meta },
                        kind,
                    );
                    match out.value {
                        Some(ValueView::String(text)) => AnnotatedView {
                            value: Some(text),
                            meta: out.meta.record_length(before, utf8_len(text)),
                        },
                        _ => AnnotatedView { value: None, meta: out.meta },
                    }
                },
            }
        },
        _ => annotated,
    }
}

/// Processes an annotated value of type `String`.
pub fn process_string<P: PiiProcessor>(
    processor: &P,
    annotated: Annotated<String>,
    info: &ValueInfo,
) -> (r: Annotated<String>)
    requires
        processor.well_formed(),
    ensures
        r.deep_view() == string_outcome(processor, annotated.deep_view(), *info),
{
    let Annotated(value, meta) = annotated;
    match (value, info.pii_kind) {
        (Some(value), Some(pii_kind)) => {
            let original_length = byte_len(value.as_str());
            let chunks = chunks_from_str(value.as_str(), &meta);
            match processor.pii_process_chunks(chunks, meta, pii_kind) {
                Ok((chunks, meta)) => {
                    let (value, mut meta) = chunks_to_string(chunks, meta);
                    meta.record_length(original_length, byte_len(value.as_str()));
                    Annotated(Some(value), meta)
                },
                Err((_, meta)) => {
                    let annotated = Annotated(Some(Value::String(value)), meta);
                    let Annotated(out, mut meta) = processor.pii_process_value(
                        annotated,
                        pii_kind,
                    );
                    match out {
                        Some(Value::String(value)) => {
                            meta.record_length(original_length, byte_len(value.as_str()));
                            Annotated(Some(value), meta)
                        },
                        _ => Annotated(None, meta),
                    }
                },
            }
        },
        (value, _) => Annotated(value, meta),
    }
}

/// Whether two values are of the same variant.
pub open spec fn same_variant(a: ValueView, b: ValueView) -> bool {
    match a {
        ValueView::Null => b is Null,
        ValueView::Bool(_) => b is Bool,
        ValueView::U32(_) => b is U32,
        ValueView::I32(_) => b is I32,
        ValueView::U64(_) => b is U64,
        ValueView::I64(_) => b is I64,
        ValueView::F32(_) => b is F32,
        ValueView::F64(_) => b is F64,
        ValueView::String(_) => b is String,
        ValueView::Array(_) => b is Array,
        ValueView::Object(_) => b is Object,
    }
}

/// What becomes of an annotated scalar that is no string under `processor`.
///
/// With a kind and a value the scalar goes through the processor as a value;
/// a result of another variant leaves no value, and the meta record of the
/// result is kept.
pub open spec fn scalar_outcome<P: PiiProcessor>(
    processor: &P,
    node: AnnotatedView<ValueView>,
    info: ValueInfo,
) -> AnnotatedView<ValueView> {
    match (node.value, info.pii_kind) {
        (Some(value), Some(kind)) => {
            let out = processor.value_outcome(node, kind);
            if out.value is Some && same_variant(value, out.value->0) {
                out
            } else {
                AnnotatedView { value: None, meta: out.meta }
            }
        },
        _ => node,
    }
}

/// An annotated `bool` as a node of a payload.
pub open spec fn bool_node(annotated: Annotated<bool>) -> AnnotatedView<ValueView> {
    AnnotatedView {
        value: match annotated.0 {
            Some(value) => Some(ValueView::Bool(value)),
            None => None,
        },
        meta: annotated.1@,
    }
}

/// Processes an annotated value of type `bool`: a boolean.
pub fn process_bool<P: PiiProcessor>(
    processor: &P,
    annotated: Annotated<bool>,
    info: &ValueInfo,
) -> (r: Annotated<bool>)
    requires
        processor.well_formed(),
    ensures
        bool_node(r) == scalar_outcome(processor, bool_node(annotated), *info),
{
    let Annotated(value, meta) = annotated;
    match (value, info.pii_kind) {
        (Some(value), Some(pii_kind)) => {
            let wrapped = Annotated(Some(Value::Bool(value)), meta);
            proof {
                lemma_node_view(wrapped);
            }
            let done = processor.pii_process_value(wrapped, pii_kind);
            proof {
                lemma_node_view(done);
            }
            let Annotated(out, meta) = done;
            match out {
                Some(Value::Bool(value)) => Annotated(Some(value), meta),
                _ => Annotated(None, meta),
            }
        },
        (value, _) => Annotated(value, meta),
    }
}

/// An annotated `u32` as a node of a payload.
pub open spec fn u32_node(annotated: Annotated<u32>) -> AnnotatedView<ValueView> {
    AnnotatedView {
        value: match annotated.0 {
            Some(value) => Some(ValueView::U32(value)),
            None => None,
        },
        meta: annotated.1@,
    }
}

/// Processes an annotated value of type `u32`: an unsigned 32-bit integer.
pub fn process_u32<P: PiiProcessor>(
    processor: &P,
    annotated: Annotated<u32>,
    info: &ValueInfo,
) -> (r: Annotated<u32>)
    requires
        processor.well_formed(),
    ensures
        u32_node(r) == scalar_outcome(processor, u32_node(annotated), *info),
{
    let Annotated(value, meta) = annotated;
    match (value, info.pii_kind) {
        (Some(value), Some(pii_kind)) => {
            let wrapped = Annotated(Some(Value::U32(value)), meta);
            proof {
                lemma_node_view(wrapped);
            }
            let done = processor.pii_process_value(wrapped, pii_kind);
            proof {
                lemma_node_view(done);
            }
            let Annotated(out, meta) = done;
            match out {
                Some(Value::U32(value)) => Annotated(Some(value), meta),
                _ => Annotated(None, meta),
            }
        },
        (value, _) => Annotated(value, meta),
    }
}

/// An annotated `i32` as a node of a payload.
pub open spec fn i32_node(annotated: Annotated<i32>) -> AnnotatedView<ValueView> {
    AnnotatedView {
        value: match annotated.0 {
            Some(value) => Some(ValueView::I32(value)),
            None => None,
        },
        meta: annotated.1@,
    }
}

/// Processes an annotated value of type `i32`: a signed 32-bit integer.
pub fn process_i32<P: PiiProcessor>(
    processor: &P,
    annotated: Annotated<i32>,
    info: &ValueInfo,
) -> (r: Annotated<i32>)
    requires
        processor.well_formed(),
    ensures
        i32_node(r) == scalar_outcome(processor, i32_node(annotated), *info),
{
    let Annotated(value, meta) = annotated;
    match (value, info.pii_kind) {
        (Some(value), Some(pii_kind)) => {
            let wrapped = Annotated(Some(Value::I32(value)), meta);
            proof {
                lemma_node_view(wrapped);
            }
            let done = processor.pii_process_value(wrapped, pii_kind);
            proof {
                lemma_node_view(done);
            }
            let Annotated(out, meta) = done;
            match out {
                Some(Value::I32(value)) => Annotated(Some(value), meta),
                _ => Annotated(None, meta),
            }
        },
        (value, _) => Annotated(value, meta),
    }
}

/// An annotated `u64` as a node of a payload.
pub open spec fn u64_node(annotated: Annotated<u64>) -> AnnotatedView<ValueView> {
    AnnotatedView {
        value: match annotated.0 {
            Some(value) => Some(ValueView::U64(value)),
            None => None,
        },
        meta: annotated.1@,
    }
}

/// Processes an annotated value of type `u64`: an unsigned 64-bit integer.
pub fn process_u64<P: PiiProcessor>(
    processor: &P,
    annotated: Annotated<u64>,
    info: &ValueInfo,
) -> (r: Annotated<u64>)
    requires
        processor.well_formed(),
    ensures
        u64_node(r) == scalar_outcome(processor, u64_node(annotated), *info),
{
    let Annotated(value, meta) = annotated;
    match (value, info.pii_kind) {
        (Some(value), Some(pii_kind)) => {
            let wrapped = Annotated(Some(Value::U64(value)), meta);
            proof {
                lemma_node_view(wrapped);
            }
            let done = processor.pii_process_value(wrapped, pii_kind);
            proof {
                lemma_node_view(done);
            }
            let Annotated(out, meta) = done;
            match out {
                Some(Value::U64(value)) => Annotated(Some(value), meta),
                _ => Annotated(None, meta),
            }
        },
        (value, _) => Annotated(value, meta),
    }
}

/// An annotated `i64` as a node of a payload.
pub open spec fn i64_node(annotated: Annotated<i64>) -> AnnotatedView<ValueView> {
    AnnotatedView {
        value: match annotated.0 {
            Some(value) => Some(ValueView::I64(value)),
            None => None,
        },
        meta: annotated.1@,
    }
}

/// Processes an annotated value of type `i64`: a signed 64-bit integer.
pub fn process_i64<P: PiiProcessor>(
    processor: &P,
    annotated: Annotated<i64>,
    info: &ValueInfo,
) -> (r: Annotated<i64>)
    requires
        processor.well_formed(),
    ensures
        i64_node(r) == scalar_outcome(processor, i64_node(annotated), *info),
{
    let Annotated(value, meta) = annotated;
    match (value, info.pii_kind) {
        (Some(value), Some(pii_kind)) => {
            let wrapped = Annotated(Some(Value::I64(value)), meta);
            proof {
                lemma_node_view(wrapped);
            }
            let done = processor.pii_process_value(wrapped, pii_kind);
            proof {
                lemma_node_view(done);
            }
            let Annotated(out, meta) = done;
            match out {
                Some(Value::I64(value)) => Annotated(Some(value), meta),
                _ => Annotated(None, meta),
            }
        },
        (value, _) => Annotated(value, meta),
    }
}

/// An annotated `f32` as a node of a payload.
pub open spec fn f32_node(annotated: Annotated<u32>) -> AnnotatedView<ValueView> {
    AnnotatedView {
        value: match annotated.0 {
            Some(value) => Some(ValueView::F32(value)),
            None => None,
        },
        meta: annotated.1@,
    }
}

/// Processes an annotated value of type `f32`: a 32-bit floating-point number, held by its bits.
pub fn process_f32<P: PiiProcessor>(
    processor: &P,
    annotated: Annotated<u32>,
    info: &ValueInfo,
) -> (r: Annotated<u32>)
    requires
        processor.well_formed(),
    ensures
        f32_node(r) == scalar_outcome(processor, f32_node(annotated), *info),
{
    let Annotated(value, meta) = annotated;
    match (value, info.pii_kind) {
        (Some(value), Some(pii_kind)) => {
            let wrapped = Annotated(Some(Value::F32(value)), meta);
            proof {
                lemma_node_view(wrapped);
            }
            let done = processor.pii_process_value(wrapped, pii_kind);
            proof {
                lemma_node_view(done);
            }
            let Annotated(out, meta) = done;
            match out {
                Some(Value::F32(value)) => Annotated(Some(value), meta),
                _ => Annotated(None, meta),
            }
        },
        (value, _) => Annotated(value, meta),
    }
}

/// An annotated `f64` as a node of a payload.
pub open spec fn f64_node(annotated: Annotated<u64>) -> AnnotatedView<ValueView> {
    AnnotatedView {
        value: match annotated.0 {
            Some(value) => Some(ValueView::F64(value)),
            None => None,
        },
        meta: annotated.1@,
    }
}

/// Processes an annotated value of type `f64`: a 64-bit floating-point number, held by its bits.
pub fn process_f64<P: PiiProcessor>(
    processor: &P,
    annotated: Annotated<u64>,
    info: &ValueInfo,
) -> (r: Annotated<u64>)
    requires
        processor.well_formed(),
    ensures
        f64_node(r) == scalar_outcome(processor, f64_node(annotated), *info),
{
    let Annotated(value, meta) = annotated;
    match (value, info.pii_kind) {
        (Some(value), Some(pii_kind)) => {
            let wrapped = Annotated(Some(Value::F64(value)), meta);
            proof {
                lemma_node_view(wrapped);
            }
            let done = processor.pii_process_value(wrapped, pii_kind);
            proof {
                lemma_node_view(done);
            }
            let Annotated(out, meta) = done;
            match out {
                Some(Value::F64(value)) => Annotated(Some(value), meta),
                _ => Annotated(None, meta),
            }
        },
        (value, _) => Annotated(value, meta),
    }
}

/// A string result of the walk as a node of a payload.
pub open spec fn string_node(annotated: AnnotatedView<Seq<char>>) -> AnnotatedView<ValueView> {
    AnnotatedView {
        value: match annotated.value {
            Some(text) => Some(ValueView::String(text)),
            None => None,
        },
        meta: annotated.meta,
    }
}

/// What becomes of a payload under `processor`.
///
/// A scalar is processed by the kind in `info`. An array or a map keeps its
/// own meta record and its keys; each child is processed with what `info`
/// lets it inherit. A null and an absent value stay as they are.
pub open spec fn tree_outcome<P: PiiProcessor>(
    processor: &P,
    node: AnnotatedView<ValueView>,
    info: ValueInfo,
) -> AnnotatedView<ValueView>
    decreases node,
{
    match node.value {
        None => node,
        Some(ValueView::Null) => node,
        Some(ValueView::String(text)) => string_node(
            string_outcome(processor, AnnotatedView { value: Some(text), meta: node.meta }, info),
        ),
        Some(ValueView::Array(items)) => AnnotatedView {
            value: Some(
                ValueView::Array(
                    Seq::new(
                        items.len(),
                        |i: int|
                            if 0 <= i < items.len() {
                                tree_outcome(processor, items[i], info.derived())
                            } else {
                                node
                            },
                    ),
                ),
            ),
            meta: node.meta,
        },
        Some(ValueView::Object(entries)) => AnnotatedView {
            value: Some(
                ValueView::Object(
                    Seq::new(
                        entries.len(),
                        |i: int|
                            if 0 <= i < entries.len() {
                                (
                                    entries[i].0,
                                    tree_outcome(processor, entries[i].1, info.derived()),
                                )
                            } else {
                                (Seq::empty(), node)
                            },
                    ),
                ),
            ),
            meta: node.meta,
        },
        Some(_) => scalar_outcome(processor, node, info),
    }
}

/// Turns a list around.
fn reversed<T>(items: Vec<T>) -> (r: Vec<T>)
    ensures
        r@ == items@.reverse(),
{
    let mut rest = items;
    let mut out: Vec<T> = Vec::new();
    while rest.len() > 0
        invariant
            rest.len() + out.len() == items.len(),
            rest@ == items@.take(rest.len() as int),
            forall|k: int| 0 <= k < out.len() ==> out[k] == items[items.len() - 1 - k],
        decreases rest.len(),
    {
        let item = rest.pop().unwrap();
        out.push(item);
    }
    assert(out@ =~= items@.reverse());
    out
}

/// Processes an annotated `Value`.
pub fn process_value<P: PiiProcessor>(
    processor: &P,
    annotated: Annotated<Value>,
    info: &ValueInfo,
) -> (r: Annotated<Value>)
    requires
        processor.well_formed(),
    ensures
        node_view(r) == tree_outcome(processor, node_view(annotated), *info),
    decreases annotated,
{
    broadcast use vstd::std_specs::vec::axiom_vec_index_decreases;

    let ghost whole = annotated;
    let Annotated(value, meta) = annotated;
    match value {
        None => Annotated(None, meta),
        Some(Value::Null) => Annotated(Some(Value::Null), meta),
        Some(Value::Bool(value)) => {
            let Annotated(out, meta) = process_bool(processor, Annotated(Some(value), meta), info);
            Annotated(
                match out {
                    Some(v) => Some(Value::Bool(v)),
                    None => None,
                },
                meta,
            )
        },
        Some(Value::U32(value)) => {
            let Annotated(out, meta) = process_u32(processor, Annotated(Some(value), meta), info);
            Annotated(
                match out {
                    Some(v) => Some(Value::U32(v)),
                    None => None,
                },
                meta,
            )
        },
        Some(Value::I32(value)) => {
            let Annotated(out, meta) = process_i32(processor, Annotated(Some(value), meta), info);
            Annotated(
                match out {
                    Some(v) => Some(Value::I32(v)),
                    None => None,
                },
                meta,
            )
        },
        Some(Value::U64(value)) => {
            let Annotated(out, meta) = process_u64(processor, Annotated(Some(value), meta), info);
            Annotated(
                match out {
                    Some(v) => Some(Value::U64(v)),
                    None => None,
                },
                meta,
            )
        },
        Some(Value::I64(value)) => {
            let Annotated(out, meta) = process_i64(processor, Annotated(Some(value), meta), info);
            Annotated(
                match out {
                    Some(v) => Some(Value::I64(v)),
                    None => None,
                },
                meta,
            )
        },
        Some(Value::F32(value)) => {
            let Annotated(out, meta) = process_f32(processor, Annotated(Some(value), meta), info);
            Annotated(
                match out {
                    Some(v) => Some(Value::F32(v)),
                    None => None,
                },
                meta,
            )
        },
        Some(Value::F64(value)) => {
            let Annotated(out, meta) = process_f64(processor, Annotated(Some(value), meta), info);
            Annotated(
                match out {
                    Some(v) => Some(Value::F64(v)),
                    None => None,
                },
                meta,
            )
        },
        Some(Value::String(value)) => {
            let Annotated(out, meta) = process_string(
                processor,
                Annotated(Some(value), meta),
                info,
            );
            Annotated(
                match out {
                    Some(v) => Some(Value::String(v)),
                    None => None,
                },
                meta,
            )
        },
        Some(Value::Array(items)) => {
            let ghost orig = items@;
            let ghost n = orig.len() as int;
            let derived = info.derive();
            let mut rest = items;
            let mut turned: Vec<Annotated<Value>> = Vec::new();
            while rest.len() > 0
                invariant
                    processor.well_formed(),
                    whole == annotated,
                    rest.len() + turned.len() == n,
                    n == orig.len(),
                    rest@ == orig.take(rest.len() as int),
                    forall|k: int| 0 <= k < n ==> decreases_to!(whole => #[trigger] orig[k]),
                    forall|k: int|
                        0 <= k < turned.len() ==> node_view(#[trigger] turned[k]) == tree_outcome(
                            processor,
                            node_view(orig[n - 1 - k]),
                            derived,
                        ),
                decreases rest.len(),
            {
                let item = rest.pop().unwrap();
                assert(item == orig[rest.len() as int]);
                let done = process_value(processor, item, &derived);
                turned.push(done);
            }
            let out = reversed(turned);
            let r = Annotated(Some(Value::Array(out)), meta);
            proof {
                let claimed = tree_outcome(processor, node_view(whole), *info);
                assert(node_view(r).value->0->Array_0 =~= claimed.value->0->Array_0);
            }
            r
        },
        Some(Value::Object(entries)) => {
            let ghost orig = entries@;
            let ghost n = orig.len() as int;
            let derived = info.derive();
            let mut rest = entries;
            let mut turned: Vec<(String, Annotated<Value>)> = Vec::new();
            while rest.len() > 0
                invariant
                    processor.well_formed(),
                    whole == annotated,
                    rest.len() + turned.len() == n,
                    n == orig.len(),
                    rest@ == orig.take(rest.len() as int),
                    forall|k: int| 0 <= k < n ==> decreases_to!(whole => (#[trigger] orig[k]).1),
                    forall|k: int|
                        0 <= k < turned.len() ==> (#[trigger] turned[k]).0@ == orig[n - 1 - k].0@
                            && node_view(turned[k].1) == tree_outcome(
                            processor,
                            node_view(orig[n - 1 - k].1),
                            derived,
                        ),
                decreases rest.len(),
            {
                let (key, item) = rest.pop().unwrap();
                assert(item == orig[rest.len() as int].1);
                let done = process_value(processor, item, &derived);
                turned.push((key, done));
            }
            let out = reversed(turned);
            let r = Annotated(Some(Value::Object(out)), meta);
            proof {
                let claimed = tree_outcome(processor, node_view(whole), *info);
                assert(node_view(r).value->0->Object_0 =~= claimed.value->0->Object_0);
            }
            r
        },
    }
}

/// Processes an annotated list of values: each item with what `info` lets
/// it inherit.
pub fn process_value_array<P: PiiProcessor>(
    processor: &P,
    annotated: Annotated<Array<Value>>,
    info: &ValueInfo,
) -> (r: Annotated<Array<Value>>)
    requires
        processor.well_formed(),
    ensures
        array_node(r) == tree_outcome(processor, array_node(annotated), *info),
{
    let Annotated(value, meta) = annotated;
    match value {
        None => Annotated(None, meta),
        Some(items) => {
            let Annotated(out, meta) = process_value(
                processor,
                Annotated(Some(Value::Array(items)), meta),
                info,
            );
            match out {
                Some(Value::Array(items)) => Annotated(Some(items), meta),
                _ => Annotated(None, meta),
            }
        },
    }
}

/// Processes an annotated map of values: each value with what `info` lets
/// it inherit. The keys stay.
pub fn process_value_object<P: PiiProcessor>(
    processor: &P,
    annotated: Annotated<Object<Value>>,
    info: &ValueInfo,
) -> (r: Annotated<Object<Value>>)
    requires
        processor.well_formed(),
    ensures
        object_node(r) == tree_outcome(processor, object_node(annotated), *info),
{
    let Annotated(value, meta) = annotated;
    match value {
        None => Annotated(None, meta),
        Some(entries) => {
            let Annotated(out, meta) = process_value(
                processor,
                Annotated(Some(Value::Object(entries)), meta),
                info,
            );
            match out {
                Some(Value::Object(entries)) => Annotated(Some(entries), meta),
                _ => Annotated(None, meta),
            }
        },
    }
}

/// What becomes of a list of annotated strings: each is processed with what
/// `info` lets it inherit.
pub open spec fn strings_outcome<P: PiiProcessor>(
    processor: &P,
    items: Seq<AnnotatedView<Seq<char>>>,
    info: ValueInfo,
) -> Seq<AnnotatedView<Seq<char>>> {
    Seq::new(items.len(), |i: int| string_outcome(processor, items[i], info.derived()))
}

/// What becomes of an annotated list of strings: the list, where there is
/// one, is processed item by item, and the meta record of the list stays.
pub open spec fn string_array_outcome<P: PiiProcessor>(
    processor: &P,
    annotated: AnnotatedView<Seq<AnnotatedView<Seq<char>>>>,
    info: ValueInfo,
) -> AnnotatedView<Seq<AnnotatedView<Seq<char>>>> {
    AnnotatedView {
        value: match annotated.value {
            Some(items) => Some(strings_outcome(processor, items, info)),
            None => None,
        },
        meta: annotated.meta,
    }
}

/// Processes an annotated list of strings.
pub fn process_string_array<P: PiiProcessor>(
    processor: &P,
    annotated: Annotated<Array<String>>,
    info: &ValueInfo,
) -> (r: Annotated<Array<String>>)
    requires
        processor.well_formed(),
    ensures
        r.deep_view() == string_array_outcome(processor, annotated.deep_view(), *info),
{
    let Annotated(value, meta) = annotated;
    match value {
        None => Annotated(None, meta),
        Some(items) => {
            let ghost orig = items.deep_view();
            let ghost n = orig.len() as int;
            let derived = info.derive();
            let mut rest = items;
            let mut turned: Vec<Annotated<String>> = Vec::new();
            while rest.len() > 0
                invariant
                    processor.well_formed(),
                    rest.len() + turned.len() == n,
                    n == orig.len(),
                    rest.deep_view() == orig.take(rest.len() as int),
                    forall|k: int|
                        0 <= k < turned.len() ==> (#[trigger] turned[k]).deep_view()
                            == string_outcome(processor, orig[n - 1 - k], derived),
                decreases rest.len(),
            {
                let ghost before = rest.deep_view();
                let item = rest.pop().unwrap();
                assert(item.deep_view() == before[rest.len() as int]);
                assert(rest.deep_view() =~= orig.take(rest.len() as int));
                let done = process_string(processor, item, &derived);
                turned.push(done);
            }
            let out = reversed(turned);
            assert(out.deep_view() =~= strings_outcome(processor, orig, *info));
            Annotated(Some(out), meta)
        },
    }
}

/// What becomes of strings under keys: each string is processed with what
/// `info` lets it inherit, and the keys stay.
pub open spec fn keyed_strings_outcome<P: PiiProcessor>(
    processor: &P,
    entries: Seq<(Seq<char>, AnnotatedView<Seq<char>>)>,
    info: ValueInfo,
) -> Seq<(Seq<char>, AnnotatedView<Seq<char>>)> {
    Seq::new(
        entries.len(),
        |i: int| (entries[i].0, string_outcome(processor, entries[i].1, info.derived())),
    )
}

/// What becomes of an annotated map of strings: the map, where there is
/// one, is processed value by value, and the meta record of the map stays.
pub open spec fn string_object_outcome<P: PiiProcessor>(
    processor: &P,
    annotated: AnnotatedView<Seq<(Seq<char>, AnnotatedView<Seq<char>>)>>,
    info: ValueInfo,
) -> AnnotatedView<Seq<(Seq<char>, AnnotatedView<Seq<char>>)>> {
    AnnotatedView {
        value: match annotated.value {
            Some(entries) => Some(keyed_strings_outcome(processor, entries, info)),
            None => None,
        },
        meta: annotated.meta,
    }
}

/// Processes an annotated map of strings.
pub fn process_string_object<P: PiiProcessor>(
    processor: &P,
    annotated: Annotated<Object<String>>,
    info: &ValueInfo,
) -> (r: Annotated<Object<String>>)
    requires
        processor.well_formed(),
    ensures
        r.deep_view() == string_object_outcome(processor, annotated.deep_view(), *info),
{
    let Annotated(value, meta) = annotated;
    match value {
        None => Annotated(None, meta),
        Some(entries) => {
            let ghost orig = entries.deep_view();
            let ghost n = orig.len() as int;
            let derived = info.derive();
            let mut rest = entries;
            let mut turned: Vec<(String, Annotated<String>)> = Vec::new();
            while rest.len() > 0
                invariant
                    processor.well_formed(),
                    rest.len() + turned.len() == n,
                    n == orig.len(),
                    rest.deep_view() == orig.take(rest.len() as int),
                    forall|k: int|
                        0 <= k < turned.len() ==> (#[trigger] turned[k]).deep_view() == (
                            orig[n - 1 - k].0,
                            string_outcome(processor, orig[n - 1 - k].1, derived),
                        ),
                decreases rest.len(),
            {
                let ghost before = rest.deep_view();
                let (key, item) = rest.pop().unwrap();
                assert((key, item).deep_view() == before[rest.len() as int]);
                assert(rest.deep_view() =~= orig.take(rest.len() as int));
                let done = process_string(processor, item, &derived);
                turned.push((key, done));
            }
            let out = reversed(turned);
            assert(out.deep_view() =~= keyed_strings_outcome(processor, orig, *info));
            Annotated(Some(out), meta)
        },
    }
}

/// The children of a container are processed as parts of a databag where
/// the container is one, and without a kind where it is of any other kind
/// or of none.
pub proof fn law_databag_is_inherited<P: PiiProcessor>(
    processor: &P,
    items: Seq<AnnotatedView<ValueView>>,
    meta: MetaView,
    info: ValueInfo,
    i: int,
)
    requires
        0 <= i < items.len(),
    ensures
        info.derived().pii_kind == (if info.pii_kind == Some(PiiKind::Databag) {
            Some(PiiKind::Databag)
        } else {
            None
        }),
        tree_outcome(
            processor,
            AnnotatedView { value: Some(ValueView::Array(items)), meta },
            info,
        ).value->0->Array_0[i] == tree_outcome(processor, items[i], info.derived()),
        info.pii_kind != Some(PiiKind::Databag) ==> tree_outcome(
            processor,
            AnnotatedView { value: Some(ValueView::Array(items)), meta },
            info,
        ).value->0->Array_0[i] == tree_outcome(
            processor,
            items[i],
            ValueInfo { pii_kind: None, cap: info.derived().cap },
        ),
{
}

} // verus!
