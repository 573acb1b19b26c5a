//! Meta records: the trail of remarks and errors that accompanies a value.

use vstd::prelude::*;

verus! {

/// What a remark says happened to the text it covers.
#[derive(Copy, Debug, PartialEq, Eq, Structural, Hash)]
pub enum RemarkType {
    /// The value was annotated and left as it was.
    Annotated,
    /// The value was removed.
    Removed,
    /// The value was replaced by another one.
    Substituted,
    /// The value was masked.
    Masked,
    /// The value was replaced by a pseudonym, such as a keyed hash.
    Pseudonymized,
    /// The value was encrypted.
    Encrypted,
}

impl Clone for RemarkType {
    fn clone(&self) -> (r: Self)
        ensures
            r == *self,
    {
        *self
    }
}

/// A copy of an optional string.
pub fn clone_opt_string(s: &Option<String>) -> (r: Option<String>)
    ensures
        r.deep_view() == s.deep_view(),
{
    match s {
        Some(text) => Some(text.clone()),
        None => None,
    }
}

/// The rule that made a change, with an optional description for people.
#[derive(Debug, PartialEq, Eq)]
pub struct Note {
    /// The id of the rule.
    pub rule_id: String,
    /// What the rule says it did, in words.
    pub description: Option<String>,
}

/// The mathematical content of a [`Note`].
pub struct NoteView {
    pub rule_id: Seq<char>,
    pub description: Option<Seq<char>>,
}

impl View for Note {
    type V = NoteView;

    open spec fn view(&self) -> NoteView {
        NoteView { rule_id: self.rule_id@, description: self.description.deep_view() }
    }
}

impl DeepView for Note {
    type V = NoteView;

    open spec fn deep_view(&self) -> NoteView {
        self@
    }
}

impl Clone for Note {
    fn clone(&self) -> (r: Self)
        ensures
            r@ == self@,
    {
        Note { rule_id: self.rule_id.clone(), description: clone_opt_string(&self.description) }
    }
}

impl Note {
    /// A note of the rule `rule_id` with an optional description.
    pub fn new(rule_id: &str, description: Option<&str>) -> (r: Note)
        ensures
            r@.rule_id == rule_id@,
            r@.description == description.deep_view(),
    {
        Note {
            rule_id: rule_id.to_owned(),
            description: match description {
                Some(d) => Some(d.to_owned()),
                None => None,
            },
        }
    }

    /// A note of a rule that needs no description.
    pub fn well_known(rule_id: &str) -> (r: Note)
        ensures
            r@ == (NoteView { rule_id: rule_id@, description: None }),
    {
        Note { rule_id: rule_id.to_owned(), description: None }
    }

    /// The id of the rule.
    pub fn rule_id(&self) -> (r: &str)
        ensures
            r@ == self@.rule_id,
    {
        self.rule_id.as_str()
    }

    /// The description, where there is one.
    pub fn description(&self) -> (r: Option<&str>)
        ensures
            r.deep_view() == self@.description,
    {
        match &self.description {
            Some(d) => Some(d.as_str()),
            None => None,
        }
    }
}

/// A record of one change: its kind, the rule that made it and, in a string,
/// the half-open byte range of the text that the rule produced.
#[derive(Debug, PartialEq, Eq)]
pub struct Remark {
    /// The kind of change.
    pub ty: RemarkType,
    /// The rule that made it.
    pub note: Note,
    /// The bytes `[from, to)` of the changed string that the rule produced.
    pub range: Option<(usize, usize)>,
}

/// The mathematical content of a [`Remark`].
pub struct RemarkView {
    pub ty: RemarkType,
    pub note: NoteView,
    pub range: Option<(int, int)>,
}

/// A range of machine integers as a pair of mathematical integers.
pub open spec fn range_view(range: Option<(usize, usize)>) -> Option<(int, int)> {
    match range {
        Some((from, to)) => Some((from as int, to as int)),
        None => None,
    }
}

impl RemarkView {
    /// The first byte of the range (0 without one).
    pub open spec fn start(self) -> int {
        match self.range {
            Some((from, _)) => from,
            None => 0,
        }
    }

    /// The byte after the last of the range (0 without one).
    pub open spec fn end(self) -> int {
        match self.range {
            Some((_, to)) => to,
            None => 0,
        }
    }
}

impl View for Remark {
    type V = RemarkView;

    open spec fn view(&self) -> RemarkView {
        RemarkView { ty: self.ty, note: self.note@, range: range_view(self.range) }
    }
}

impl DeepView for Remark {
    type V = RemarkView;

    open spec fn deep_view(&self) -> RemarkView {
        self@
    }
}

impl Clone for Remark {
    fn clone(&self) -> (r: Self)
        ensures
            r@ == self@,
    {
        Remark { ty: self.ty, note: self.note.clone(), range: self.range }
    }
}

impl Remark {
    /// A remark without a range.
    pub fn new(ty: RemarkType, rule_id: &str) -> (r: Remark)
        ensures
            r@ == (RemarkView {
                ty,
                note: NoteView { rule_id: rule_id@, description: None },
                range: None,
            }),
    {
        Remark { ty, note: Note::well_known(rule_id), range: None }
    }

    /// A remark on the byte range `range` of a string.
    pub fn with_range(ty: RemarkType, rule_id: &str, range: (usize, usize)) -> (r: Remark)
        ensures
            r@ == (RemarkView {
                ty,
                note: NoteView { rule_id: rule_id@, description: None },
                range: Some((range.0 as int, range.1 as int)),
            }),
    {
        Remark { ty, note: Note::well_known(rule_id), range: Some(range) }
    }

    /// A remark that carries `note`, with or without a range.
    pub fn from_note(ty: RemarkType, note: Note, range: Option<(usize, usize)>) -> (r: Remark)
        ensures
            r@ == (RemarkView { ty, note: note@, range: range_view(range) }),
    {
        Remark { ty, note, range }
    }

    /// The kind of change.
    pub fn ty(&self) -> (r: RemarkType)
        ensures
            r == self@.ty,
    {
        self.ty
    }

    /// The id of the rule that made the change.
    pub fn rule_id(&self) -> (r: &str)
        ensures
            r@ == self@.note.rule_id,
    {
        self.note.rule_id()
    }

    /// The note of the rule that made the change.
    pub fn note(&self) -> (r: &Note)
        ensures
            r@ == self@.note,
    {
        &self.note
    }

    /// The byte range, where the remark has one.
    pub fn range(&self) -> (r: Option<(usize, usize)>)
        ensures
            range_view(r) == self@.range,
            r == self.range,
    {
        self.range
    }
}

/// Copies a list of strings.
pub fn clone_strings(items: &Vec<String>) -> (r: Vec<String>)
    ensures
        r.deep_view() == items.deep_view(),
{
    let mut out: Vec<String> = Vec::new();
    let mut i: usize = 0;
    while i < items.len()
        invariant
            i <= items.len(),
            out.len() == i,
            forall|k: int| 0 <= k < i ==> out[k]@ == items[k]@,
        decreases items.len() - i,
    {
        out.push(items[i].clone());
        i += 1;
    }
    assert(out.deep_view() =~= items.deep_view());
    out
}

/// Copies a list of remarks.
pub fn clone_remarks(items: &Vec<Remark>) -> (r: Vec<Remark>)
    ensures
        r.deep_view() == items.deep_view(),
{
    let mut out: Vec<Remark> = Vec::new();
    let mut i: usize = 0;
    while i < items.len()
        invariant
            i <= items.len(),
            out.len() == i,
            forall|k: int| 0 <= k < i ==> out[k]@ == items[k]@,
        decreases items.len() - i,
    {
        out.push(items[i].clone());
        i += 1;
    }
    assert(out.deep_view() =~= items.deep_view());
    out
}

/// What is known about a value besides the value itself.
#[derive(Debug, PartialEq, Eq)]
pub struct Meta {
    /// The changes made to the value, in the order of their position.
    pub remarks: Vec<Remark>,
    /// The errors met when the value was read.
    pub errors: Vec<String>,
    /// The byte length of the string before the first change of its length.
    pub original_length: Option<u32>,
    /// The dotted path of keys that leads to the value.
    pub path: Option<String>,
}

/// The mathematical content of a [`Meta`].
pub struct MetaView {
    pub remarks: Seq<RemarkView>,
    pub errors: Seq<Seq<char>>,
    pub original_length: Option<u32>,
    pub path: Option<Seq<char>>,
}

impl MetaView {
    /// The meta record with nothing in it.
    pub open spec fn empty() -> MetaView {
        MetaView { remarks: Seq::empty(), errors: Seq::empty(), original_length: None, path: None }
    }

    /// This record with its remarks replaced.
    pub open spec fn with_remarks(self, remarks: Seq<RemarkView>) -> MetaView {
        MetaView { remarks, ..self }
    }

    /// This record with one more remark at the end.
    pub open spec fn push_remark(self, remark: RemarkView) -> MetaView {
        MetaView { remarks: self.remarks.push(remark), ..self }
    }

    /// This record after a string of `before` bytes became one of `after`
    /// bytes: the first change of length is recorded, later ones are not.
    pub open spec fn record_length(self, before: nat, after: nat) -> MetaView {
        if before != after && self.original_length is None {
            MetaView { original_length: Some(before as u32), ..self }
        } else {
            self
        }
    }
}

impl View for Meta {
    type V = MetaView;

    open spec fn view(&self) -> MetaView {
        MetaView {
            remarks: self.remarks.deep_view(),
            errors: self.errors.deep_view(),
            original_length: self.original_length,
            path: self.path.deep_view(),
        }
    }
}

impl DeepView for Meta {
    type V = MetaView;

    open spec fn deep_view(&self) -> MetaView {
        self@
    }
}

impl Default for Meta {
    fn default() -> (r: Meta)
        ensures
            r@ == MetaView::empty(),
    {
        let r = Meta { remarks: Vec::new(), errors: Vec::new(), original_length: None, path: None };
        assert(r.remarks.deep_view() =~= Seq::empty());
        assert(r.errors.deep_view() =~= Seq::empty());
        r
    }
}

impl Clone for Meta {
    fn clone(&self) -> (r: Self)
        ensures
            r@ == self@,
    {
        Meta {
            remarks: clone_remarks(&self.remarks),
            errors: clone_strings(&self.errors),
            original_length: self.original_length,
            path: clone_opt_string(&self.path),
        }
    }
}

impl Meta {
    /// A meta record that holds one error and nothing else.
    pub fn from_error(message: &str) -> (r: Meta)
        ensures
            r@ == (MetaView { errors: seq![message@], ..MetaView::empty() }),
    {
        let mut errors: Vec<String> = Vec::new();
        errors.push(message.to_owned());
        let r = Meta { remarks: Vec::new(), errors, original_length: None, path: None };
        assert(r.remarks.deep_view() =~= Seq::empty());
        assert(r.errors.deep_view() =~= seq![message@]);
        r
    }

    /// The remarks, in order.
    pub fn remarks(&self) -> (r: &Vec<Remark>)
        ensures
            r.deep_view() == self@.remarks,
    {
        &self.remarks
    }

    /// The errors, in order.
    pub fn errors(&self) -> (r: &Vec<String>)
        ensures
            r.deep_view() == self@.errors,
    {
        &self.errors
    }

    /// The recorded original length, if any.
    pub fn original_length(&self) -> (r: Option<u32>)
        ensures
            r == self@.original_length,
    {
        self.original_length
    }

    /// The path of keys that leads to the value, if the producer set one.
    pub fn path(&self) -> (r: Option<&str>)
        ensures
            r.deep_view() == self@.path,
    {
        match &self.path {
            Some(p) => Some(p.as_str()),
            None => None,
        }
    }

    /// Sets the path of keys that leads to the value.
    pub fn set_path(&mut self, path: &str)
        ensures
            final(self)@ == (MetaView { path: Some(path@), ..old(self)@ }),
    {
        self.path = Some(path.to_owned());
    }

    /// Replaces the remarks.
    pub fn set_remarks(&mut self, remarks: Vec<Remark>)
        ensures
            final(self)@ == old(self)@.with_remarks(remarks.deep_view()),
    {
        self.remarks = remarks;
    }

    /// Adds a remark at the end.
    pub fn push_remark(&mut self, remark: Remark)
        ensures
            final(self)@ == old(self)@.push_remark(remark@),
    {
        self.remarks.push(remark);
        assert(self.remarks.deep_view() =~= old(self).remarks.deep_view().push(remark@));
    }

    /// Adds an error at the end.
    pub fn push_error(&mut self, message: &str)
        ensures
            final(self)@ == (MetaView { errors: old(self)@.errors.push(message@), ..old(self)@ }),
    {
        self.errors.push(message.to_owned());
        assert(self.errors.deep_view() =~= old(self).errors.deep_view().push(message@));
    }

    /// Records `before` as the original length where a string of `before`
    /// bytes was changed into one of `after` bytes and no original length is
    /// recorded yet. The length is kept in 32 bits.
    pub fn record_length(&mut self, before: usize, after: usize)
        ensures
            final(self)@ == old(self)@.record_length(before as nat, after as nat),
    {
        if before != after && self.original_length.is_none() {
            self.original_length = Some(#[verifier::truncate] (before as u32));
        }
    }

    /// Whether the record holds nothing.
    pub fn is_empty(&self) -> (r: bool)
        ensures
            r == (self@ == MetaView::empty()),
    {
        let r = self.remarks.len() == 0 && self.errors.len() == 0
            && self.original_length.is_none() && self.path.is_none();
        proof {
            if r {
                assert(self.remarks.deep_view() =~= Seq::empty());
                assert(self.errors.deep_view() =~= Seq::empty());
            } else {
                if self.remarks.len() != 0 {
                    assert(self@.remarks.len() != 0);
                }
                if self.errors.len() != 0 {
                    assert(self@.errors.len() != 0);
                }
            }
        }
        r
    }
}

/// A value of type `T` that may be absent, with its meta record.
#[derive(Debug, Clone, PartialEq, Eq)]
pub struct Annotated<T>(pub Option<T>, pub Meta);

impl<T> Default for Annotated<T> {
    fn default() -> (r: Annotated<T>)
        ensures
            r.0 is None,
            r.1@ == MetaView::empty(),
    {
        Annotated(None, Meta::default())
    }
}

impl<T> Annotated<T> {
    /// A present value with the given meta record.
    pub fn new(value: T, meta: Meta) -> (r: Annotated<T>)
        ensures
            r.0 == Some(value),
            r.1 == meta,
    {
        Annotated(Some(value), meta)
    }

    /// A present value with an empty meta record.
    pub fn from_value(value: T) -> (r: Annotated<T>)
        ensures
            r.0 == Some(value),
            r.1@ == MetaView::empty(),
    {
        Annotated(Some(value), Meta::default())
    }

    /// An absent value with an empty meta record.
    pub fn empty() -> (r: Annotated<T>)
        ensures
            r.0 is None,
            r.1@ == MetaView::empty(),
    {
        Annotated(None, Meta::default())
    }

    /// An absent value whose meta record holds the error `message`.
    pub fn from_error(message: &str) -> (r: Annotated<T>)
        ensures
            r.0 is None,
            r.1@ == (MetaView { errors: seq![message@], ..MetaView::empty() }),
    {
        Annotated(None, Meta::from_error(message))
    }

    /// The value, where it is present.
    pub fn value(&self) -> (r: Option<&T>)
        ensures
            r == (match self.0 {
                Some(v) => Some(&v),
                None => None,
            }),
    {
        self.0.as_ref()
    }

    /// The meta record.
    pub fn meta(&self) -> (r: &Meta)
        ensures
            *r == self.1,
    {
        &self.1
    }

    /// Takes the value and the meta record apart.
    pub fn into_parts(self) -> (r: (Option<T>, Meta))
        ensures
            r.0 == self.0,
            r.1 == self.1,
    {
        (self.0, self.1)
    }

    /// Replaces the value and keeps the meta record.
    pub fn set_value(&mut self, value: Option<T>)
        ensures
            final(self).0 == value,
            final(self).1 == old(self).1,
    {
        self.0 = value;
    }

    /// The same meta record without a value, with `remark` added to say why
    /// the value is gone.
    pub fn with_removed_value(self, remark: Remark) -> (r: Annotated<T>)
        ensures
            r.0 is None,
            r.1@ == self.1@.push_remark(remark@),
    {
        let mut meta = self.1;
        meta.push_remark(remark);
        Annotated(None, meta)
    }
}

/// Where a string of `before` bytes became one of another length and no
/// original length was recorded, the record now holds `before` as the
/// original length; in every other case the record is as it was. The other
/// fields never change.
pub proof fn law_original_length(meta: MetaView, before: nat, after: nat)
    requires
        before <= u32::MAX,
    ensures
        before != after && meta.original_length is None ==> meta.record_length(before, after)
            == (MetaView { original_length: Some(before as u32), ..meta }) && meta.record_length(
            before,
            after,
        ).original_length->0 == before,
        before == after || meta.original_length is Some ==> meta.record_length(before, after)
            == meta,
{
}

} // verus!
