//! The fingerprint of an event: a list of strings by which events are
//! grouped.

use crate::meta::Annotated;
use crate::text::{decimal, signed_decimal, signed_to_string, unsigned_to_string};
use vstd::prelude::*;

verus! {

/// One part of a fingerprint as a client may send it.
#[derive(Debug, PartialEq, Eq)]
pub enum Fingerprint {
    /// A boolean.
    Bool(bool),
    /// A signed integer.
    Signed(i64),
    /// An unsigned integer.
    Unsigned(u64),
    /// A string.
    String(String),
}

/// The mathematical content of a [`Fingerprint`].
pub enum FingerprintView {
    Bool(bool),
    Signed(i64),
    Unsigned(u64),
    String(Seq<char>),
}

impl DeepView for Fingerprint {
    type V = FingerprintView;

    open spec fn deep_view(&self) -> FingerprintView {
        match self {
            Fingerprint::Bool(b) => FingerprintView::Bool(*b),
            Fingerprint::Signed(n) => FingerprintView::Signed(*n),
            Fingerprint::Unsigned(n) => FingerprintView::Unsigned(*n),
            Fingerprint::String(s) => FingerprintView::String(s@),
        }
    }
}

impl FingerprintView {
    /// The part as a string: `True` or `False`, an integer in decimal
    /// digits, a string as it is.
    pub open spec fn text(self) -> Seq<char> {
        match self {
            FingerprintView::Bool(b) => if b {
                "True"@
            } else {
                "False"@
            },
            FingerprintView::Signed(n) => signed_decimal(n as int),
            FingerprintView::Unsigned(n) => decimal(n as nat),
            FingerprintView::String(s) => s,
        }
    }
}

impl Fingerprint {
    /// Turns the part into a string.
    pub fn into_string(self) -> (r: String)
        ensures
            r@ == self.deep_view().text(),
    {
        match self {
            Fingerprint::Bool(b) => if b {
                "True".to_owned()
            } else {
                "False".to_owned()
            },
            Fingerprint::Signed(n) => signed_to_string(n),
            Fingerprint::Unsigned(n) => unsigned_to_string(n),
            Fingerprint::String(s) => s,
        }
    }
}

/// The strings of the parts of a fingerprint, in order.
pub fn coerce(parts: Vec<Fingerprint>) -> (r: Vec<String>)
    ensures
        r.deep_view() == parts.deep_view().map_values(|part: FingerprintView| part.text()),
{
    let mut out: Vec<String> = Vec::new();
    let mut i: usize = 0;
    while i < parts.len()
        invariant
            i <= parts.len(),
            out.len() == i,
            forall|k: int| 0 <= k < i ==> out[k]@ == parts[k].deep_view().text(),
        decreases parts.len() - i,
    {
        let text = match &parts[i] {
            Fingerprint::Bool(b) => Fingerprint::Bool(*b).into_string(),
            Fingerprint::Signed(n) => Fingerprint::Signed(*n).into_string(),
            Fingerprint::Unsigned(n) => Fingerprint::Unsigned(*n).into_string(),
            Fingerprint::String(s) => s.clone(),
        };
        out.push(text);
        i += 1;
    }
    assert(out.deep_view() =~= parts.deep_view().map_values(|part: FingerprintView| part.text()));
    out
}

/// The fingerprint of an event that names none.
pub fn default() -> (r: Annotated<Vec<String>>)
    ensures
        r.deep_view().value == Some(seq!["{{ default }}"@]),
        r.deep_view().meta == crate::meta::MetaView::empty(),
{
    let mut parts: Vec<String> = Vec::new();
    parts.push("{{ default }}".to_owned());
    assert(parts.deep_view() =~= seq!["{{ default }}"@]);
    Annotated::from_value(parts)
}

} // verus!
