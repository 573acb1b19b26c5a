//! Payload values: scalars, arrays and maps whose children carry meta records.

use crate::meta::{Annotated, MetaView};
use crate::text::{decimal, signed_decimal, signed_to_string, unsigned_to_string};
use vstd::prelude::*;

verus! {

/// The mathematical content of an [`Annotated`] value whose own content is
/// a `V`.
pub struct AnnotatedView<V> {
    pub value: Option<V>,
    pub meta: MetaView,
}

impl<T: DeepView> DeepView for Annotated<T> {
    type V = AnnotatedView<T::V>;

    open spec fn deep_view(&self) -> AnnotatedView<T::V> {
        AnnotatedView { value: self.0.deep_view(), meta: self.1@ }
    }
}

/// A node of a payload.
///
/// A floating-point number is held by the bits of its IEEE 754 form. A map
/// holds its entries in the order in which they were given.
#[derive(Debug, PartialEq)]
pub enum Value {
    /// No value.
    Null,
    /// A boolean.
    Bool(bool),
    /// An unsigned 32-bit integer.
    U32(u32),
    /// A signed 32-bit integer.
    I32(i32),
    /// An unsigned 64-bit integer.
    U64(u64),
    /// A signed 64-bit integer.
    I64(i64),
    /// The bits of a 32-bit floating-point number.
    F32(u32),
    /// The bits of a 64-bit floating-point number.
    F64(u64),
    /// A string.
    String(String),
    /// A list of values.
    Array(Vec<Annotated<Value>>),
    /// Values under string keys.
    Object(Vec<(String, Annotated<Value>)>),
}

/// A list of annotated values.
pub type Array<T> = Vec<Annotated<T>>;

/// Annotated values under string keys, in the order in which they were given.
pub type Object<T> = Vec<(String, Annotated<T>)>;

/// The mathematical content of a [`Value`].
pub enum ValueView {
    Null,
    Bool(bool),
    U32(u32),
    I32(i32),
    U64(u64),
    I64(i64),
    F32(u32),
    F64(u64),
    String(Seq<char>),
    Array(Seq<AnnotatedView<ValueView>>),
    Object(Seq<(Seq<char>, AnnotatedView<ValueView>)>),
}

/// The content of a value, children included.
pub open spec fn value_view(value: Value) -> ValueView
    decreases value,
{
    match value {
        Value::Null => ValueView::Null,
        Value::Bool(b) => ValueView::Bool(b),
        Value::U32(n) => ValueView::U32(n),
        Value::I32(n) => ValueView::I32(n),
        Value::U64(n) => ValueView::U64(n),
        Value::I64(n) => ValueView::I64(n),
        Value::F32(bits) => ValueView::F32(bits),
        Value::F64(bits) => ValueView::F64(bits),
        Value::String(s) => ValueView::String(s@),
        Value::Array(items) => ValueView::Array(
            Seq::new(
                items@.len(),
                |i: int|
                    if 0 <= i < items@.len() {
                        node_view(items@[i])
                    } else {
                        AnnotatedView { value: None, meta: MetaView::empty() }
                    },
            ),
        ),
        Value::Object(entries) => ValueView::Object(
            Seq::new(
                entries@.len(),
                |i: int|
                    if 0 <= i < entries@.len() {
                        (entries@[i].0@, node_view(entries@[i].1))
                    } else {
                        (Seq::empty(), AnnotatedView { value: None, meta: MetaView::empty() })
                    },
            ),
        ),
    }
}

/// The content of an annotated value, children included.
pub open spec fn node_view(node: Annotated<Value>) -> AnnotatedView<ValueView>
    decreases node,
{
    AnnotatedView {
        value: match node.0 {
            Some(value) => Some(value_view(value)),
            None => None,
        },
        meta: node.1@,
    }
}

impl DeepView for Value {
    type V = ValueView;

    open spec fn deep_view(&self) -> ValueView {
        value_view(*self)
    }
}

/// The two ways to look at an annotated value agree.
pub proof fn lemma_node_view(node: Annotated<Value>)
    ensures
        node.deep_view() == node_view(node),
{
}

impl ValueView {
    /// The text of a scalar as it is handed to a redaction: `null`, `true`
    /// or `false`, an integer in decimal digits, a string as it is. A
    /// floating-point number, an array and a map have none.
    pub open spec fn scalar_text(self) -> Option<Seq<char>> {
        match self {
            ValueView::Null => Some("null"@),
            ValueView::Bool(b) => Some(
                if b {
                    "true"@
                } else {
                    "false"@
                },
            ),
            ValueView::U32(n) => Some(decimal(n as nat)),
            ValueView::I32(n) => Some(signed_decimal(n as int)),
            ValueView::U64(n) => Some(decimal(n as nat)),
            ValueView::I64(n) => Some(signed_decimal(n as int)),
            ValueView::String(s) => Some(s),
            _ => None,
        }
    }
}

impl Value {
    /// The text of a scalar, where it has one.
    pub fn scalar_text(&self) -> (r: Option<String>)
        ensures
            r.deep_view() == self.deep_view().scalar_text(),
    {
        match self {
            Value::Null => Some("null".to_owned()),
            Value::Bool(b) => Some(
                if *b {
                    "true".to_owned()
                } else {
                    "false".to_owned()
                },
            ),
            Value::U32(n) => Some(unsigned_to_string(*n as u64)),
            Value::I32(n) => Some(signed_to_string(*n as i64)),
            Value::U64(n) => Some(unsigned_to_string(*n)),
            Value::I64(n) => Some(signed_to_string(*n)),
            Value::String(s) => Some(s.clone()),
            _ => None,
        }
    }
}

/// An annotated list of values as a node of a payload.
pub open spec fn array_node(annotated: Annotated<Array<Value>>) -> AnnotatedView<ValueView> {
    AnnotatedView {
        value: match annotated.0 {
            Some(items) => Some(value_view(Value::Array(items))),
            None => None,
        },
        meta: annotated.1@,
    }
}

/// An annotated map of values as a node of a payload.
pub open spec fn object_node(annotated: Annotated<Object<Value>>) -> AnnotatedView<ValueView> {
    AnnotatedView {
        value: match annotated.0 {
            Some(entries) => Some(value_view(Value::Object(entries))),
            None => None,
        },
        meta: annotated.1@,
    }
}

/// Copies a value with its children.
pub fn clone_value(value: &Value) -> (r: Value)
    ensures
        value_view(r) == value_view(*value),
    decreases *value,
{
    broadcast use vstd::std_specs::vec::axiom_vec_index_decreases;

    match value {
        Value::Null => Value::Null,
        Value::Bool(b) => Value::Bool(*b),
        Value::U32(n) => Value::U32(*n),
        Value::I32(n) => Value::I32(*n),
        Value::U64(n) => Value::U64(*n),
        Value::I64(n) => Value::I64(*n),
        Value::F32(bits) => Value::F32(*bits),
        Value::F64(bits) => Value::F64(*bits),
        Value::String(s) => Value::String(s.clone()),
        Value::Array(items) => {
            let mut out: Vec<Annotated<Value>> = Vec::new();
            let mut i: usize = 0;
            while i < items.len()
                invariant
                    i <= items.len(),
                    out.len() == i,
                    forall|k: int|
                        0 <= k < items.len() ==> decreases_to!(*value => #[trigger] items[k]),
                    forall|k: int| 0 <= k < i ==> node_view(#[trigger] out[k]) == node_view(items[k]),
                decreases items.len() - i,
            {
                out.push(clone_node(&items[i]));
                i += 1;
            }
            let r = Value::Array(out);
            assert(value_view(r)->Array_0 =~= value_view(*value)->Array_0);
            r
        },
        Value::Object(entries) => {
            let mut out: Vec<(String, Annotated<Value>)> = Vec::new();
            let mut i: usize = 0;
            while i < entries.len()
                invariant
                    i <= entries.len(),
                    out.len() == i,
                    forall|k: int|
                        0 <= k < entries.len() ==> decreases_to!(*value => (#[trigger] entries[k]).1),
                    forall|k: int|
                        0 <= k < i ==> (#[trigger] out[k]).0@ == entries[k].0@ && node_view(
                            out[k].1,
                        ) == node_view(entries[k].1),
                decreases entries.len() - i,
            {
                out.push((entries[i].0.clone(), clone_node(&entries[i].1)));
                i += 1;
            }
            let r = Value::Object(out);
            assert(value_view(r)->Object_0 =~= value_view(*value)->Object_0);
            r
        },
    }
}

/// Copies an annotated value with its children.
pub fn clone_node(node: &Annotated<Value>) -> (r: Annotated<Value>)
    ensures
        node_view(r) == node_view(*node),
    decreases *node,
{
    Annotated(
        match &node.0 {
            Some(value) => Some(clone_value(value)),
            None => None,
        },
        node.1.clone(),
    )
}

impl Clone for Value {
    fn clone(&self) -> (r: Self)
        ensures
            value_view(r) == value_view(*self),
    {
        clone_value(self)
    }
}

} // verus!
