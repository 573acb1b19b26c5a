//! Strings as runs of untouched text and of earlier redactions.

use crate::meta::{
    clone_opt_string, Meta, MetaView, Note, NoteView, Remark, RemarkType, RemarkView,
};
use crate::text::{
    byte_len, byte_slice, lemma_slice_all, lemma_slice_bytes, lemma_slice_join,
    lemma_utf8_len_concat, lemma_utf8_len_positive, slice_bytes, sliceable, utf8_len,
};
use vstd::utf8::*;
use vstd::prelude::*;
use vstd::string::*;

verus! {

/// A run of a partly redacted string.
#[derive(Debug, PartialEq, Eq)]
pub enum Chunk {
    /// Text that no rule has touched.
    Text {
        /// The text of the run.
        text: String,
    },
    /// Text that a rule has put in place of what stood there.
    Redaction {
        /// The text that now stands in the string.
        text: String,
        /// The rule that produced it.
        rule_id: String,
        /// The kind of change.
        ty: RemarkType,
        /// What the rule says it did, in words.
        description: Option<String>,
    },
}

/// The mathematical content of a [`Chunk`].
pub enum ChunkView {
    Text { text: Seq<char> },
    Redaction {
        text: Seq<char>,
        rule_id: Seq<char>,
        ty: RemarkType,
        description: Option<Seq<char>>,
    },
}

impl ChunkView {
    /// The text of the run, whichever kind it is.
    pub open spec fn text(self) -> Seq<char> {
        match self {
            ChunkView::Text { text } => text,
            ChunkView::Redaction { text, .. } => text,
        }
    }

    /// The remark that a run starting at byte `pos` leaves, if it is a
    /// redaction.
    pub open spec fn remark_at(self, pos: int) -> Option<RemarkView> {
        match self {
            ChunkView::Text { .. } => None,
            ChunkView::Redaction { text, rule_id, ty, description } => Some(
                RemarkView {
                    ty,
                    note: NoteView { rule_id, description },
                    range: Some((pos, pos + utf8_len(text))),
                },
            ),
        }
    }
}

impl View for Chunk {
    type V = ChunkView;

    open spec fn view(&self) -> ChunkView {
        match self {
            Chunk::Text { text } => ChunkView::Text { text: text@ },
            Chunk::Redaction { text, rule_id, ty, description } => ChunkView::Redaction {
                text: text@,
                rule_id: rule_id@,
                ty: *ty,
                description: description.deep_view(),
            },
        }
    }
}

impl DeepView for Chunk {
    type V = ChunkView;

    open spec fn deep_view(&self) -> ChunkView {
        self@
    }
}

impl Clone for Chunk {
    fn clone(&self) -> (r: Self)
        ensures
            r@ == self@,
    {
        match self {
            Chunk::Text { text } => Chunk::Text { text: text.clone() },
            Chunk::Redaction { text, rule_id, ty, description } => Chunk::Redaction {
                text: text.clone(),
                rule_id: rule_id.clone(),
                ty: *ty,
                description: clone_opt_string(description),
            },
        }
    }
}

impl Chunk {
    /// The text of this chunk.
    pub fn as_str(&self) -> (r: &str)
        ensures
            r@ == self@.text(),
    {
        match self {
            Chunk::Text { text } => text.as_str(),
            Chunk::Redaction { text, .. } => text.as_str(),
        }
    }

    /// The number of bytes of the text of this chunk.
    pub fn len(&self) -> (r: usize)
        ensures
            r == utf8_len(self@.text()),
    {
        byte_len(self.as_str())
    }
}

/// The surface text of a sequence of chunks: their texts, one after another.
pub open spec fn joined(chunks: Seq<ChunkView>) -> Seq<char>
    decreases chunks.len(),
{
    if chunks.len() == 0 {
        Seq::empty()
    } else {
        chunks[0].text() + joined(chunks.drop_first())
    }
}

/// The remarks of a sequence of chunks whose first chunk starts at byte
/// `pos`: one for each redaction, with the bytes it occupies in the surface
/// text.
pub open spec fn remarks_from(chunks: Seq<ChunkView>, pos: int) -> Seq<RemarkView>
    decreases chunks.len(),
{
    if chunks.len() == 0 {
        Seq::empty()
    } else {
        let rest = remarks_from(chunks.drop_first(), pos + utf8_len(chunks[0].text()));
        match chunks[0].remark_at(pos) {
            Some(remark) => seq![remark] + rest,
            None => rest,
        }
    }
}

/// The text from byte `pos` to the end as one chunk, or nothing where no text
/// is left or `pos` is no place to cut.
pub open spec fn tail_chunks(text: Seq<char>, pos: int) -> Seq<ChunkView> {
    if pos < utf8_len(text) && sliceable(text, pos, utf8_len(text) as int) {
        seq![ChunkView::Text { text: byte_slice(text, pos, utf8_len(text) as int) }]
    } else {
        Seq::empty()
    }
}

/// Whether the range `[from, to)` of a remark can be cut out of `text` after
/// everything up to `pos` has been handed out.
pub open spec fn range_fits(text: Seq<char>, pos: int, from: int, to: int) -> bool {
    &&& sliceable(text, from, to)
    &&& from > pos ==> sliceable(text, pos, from)
}

/// The chunks that a remark with the fitting range `[from, to)` adds: the
/// text between `pos` and `from`, if any, and the redaction.
pub open spec fn remark_chunks(text: Seq<char>, pos: int, remark: RemarkView) -> Seq<ChunkView>
    recommends
        remark.range is Some,
{
    let (from, to) = remark.range->0;
    let redaction = ChunkView::Redaction {
        text: byte_slice(text, from, to),
        rule_id: remark.note.rule_id,
        ty: remark.ty,
        description: remark.note.description,
    };
    if from > pos {
        seq![ChunkView::Text { text: byte_slice(text, pos, from) }, redaction]
    } else {
        seq![redaction]
    }
}

/// The chunks of `text` from byte `pos` on, cut along `remarks`. Remarks
/// without a range are passed over; the walk ends at the first range that
/// does not fit, and what is left of the text is the last chunk.
pub open spec fn chunks_from(text: Seq<char>, remarks: Seq<RemarkView>, pos: int) -> Seq<
    ChunkView,
>
    decreases remarks.len(),
{
    if remarks.len() == 0 {
        tail_chunks(text, pos)
    } else {
        match remarks[0].range {
            None => chunks_from(text, remarks.drop_first(), pos),
            Some((from, to)) => if range_fits(text, pos, from, to) {
                remark_chunks(text, pos, remarks[0]) + chunks_from(text, remarks.drop_first(), to)
            } else {
                tail_chunks(text, pos)
            },
        }
    }
}

/// Chunks the given text based on remarks.
pub fn chunks_from_str(text: &str, meta: &Meta) -> (rv: Vec<Chunk>)
    ensures
        rv.deep_view() == chunks_from(text@, meta@.remarks, 0),
{
    let mut rv: Vec<Chunk> = Vec::new();
    let mut pos: usize = 0;
    let mut i: usize = 0;
    let remarks = meta.remarks();
    let ghost all = meta@.remarks;
    assert(all.skip(0) =~= all);
    assert(rv.deep_view() =~= Seq::empty());
    let mut stopped = false;
    while i < remarks.len() && !stopped
        invariant
            all == remarks.deep_view(),
            i <= remarks.len(),
            !stopped ==> chunks_from(text@, all, 0) == rv.deep_view() + chunks_from(
                text@,
                all.skip(i as int),
                pos as int,
            ),
            stopped ==> chunks_from(text@, all, 0) == rv.deep_view() + tail_chunks(
                text@,
                pos as int,
            ),
        decreases remarks.len() - i + (if stopped { 0int } else { 1int }),
    {
        let remark = &remarks[i];
        let ghost before = rv.deep_view();
        assert(all.skip(i as int)[0] == remark@);
        assert(all.skip(i as int).drop_first() =~= all.skip(i + 1));
        match remark.range() {
            None => {
                i += 1;
            },
            Some((from, to)) => {
                let gap = if from > pos {
                    slice_bytes(text, pos, from)
                } else {
                    None
                };
                let piece = slice_bytes(text, from, to);
                if piece.is_none() || (from > pos && gap.is_none()) {
                    stopped = true;
                } else {
                    if let Some(gap_text) = gap {
                        rv.push(Chunk::Text { text: gap_text.to_owned() });
                    }
                    rv.push(
                        Chunk::Redaction {
                            text: piece.unwrap().to_owned(),
                            rule_id: remark.rule_id().to_owned(),
                            ty: remark.ty(),
                            description: clone_opt_string(&remark.note.description),
                        },
                    );
                    assert(rv.deep_view() =~= before + remark_chunks(
                        text@,
                        pos as int,
                        remark@,
                    ));
                    pos = to;
                    i += 1;
                }
            },
        }
    }
    let ghost before = rv.deep_view();
    if pos < byte_len(text) {
        if let Some(piece) = slice_bytes(text, pos, byte_len(text)) {
            rv.push(Chunk::Text { text: piece.to_owned() });
        }
    }
    assert(rv.deep_view() =~= before + tail_chunks(text@, pos as int));
    rv
}

/// Concatenates chunks into a string and places remarks inside the given meta.
pub fn chunks_to_string(chunks: Vec<Chunk>, meta: Meta) -> (r: (String, Meta))
    ensures
        r.0@ == joined(chunks.deep_view()),
        r.1@ == meta@.with_remarks(remarks_from(chunks.deep_view(), 0)),
{
    let mut rv = String::new();
    let mut remarks: Vec<Remark> = Vec::new();
    let mut i: usize = 0;
    let ghost all = chunks.deep_view();
    assert(all.skip(0) =~= all);
    assert(remarks.deep_view() =~= Seq::empty());
    while i < chunks.len()
        invariant
            all == chunks.deep_view(),
            i <= chunks.len(),
            joined(all) == rv@ + joined(all.skip(i as int)),
            remarks_from(all, 0) == remarks.deep_view() + remarks_from(
                all.skip(i as int),
                utf8_len(rv@) as int,
            ),
        decreases chunks.len() - i,
    {
        let chunk = &chunks[i];
        let ghost so_far = rv@;
        let ghost listed = remarks.deep_view();
        let pos = byte_len(rv.as_str());
        rv.append(chunk.as_str());
        let new_pos = byte_len(rv.as_str());
        proof {
            lemma_utf8_len_concat(so_far, chunk@.text());
            assert(all.skip(i as int)[0] == chunk@);
            assert(all.skip(i as int).drop_first() =~= all.skip(i + 1));
            assert(rv@ + joined(all.skip(i + 1)) =~= so_far + joined(all.skip(i as int)));
        }
        match chunk {
            Chunk::Redaction { rule_id, ty, description, .. } => {
                let note = Note {
                    rule_id: rule_id.clone(),
                    description: clone_opt_string(description),
                };
                remarks.push(Remark::from_note(*ty, note, Some((pos, new_pos))));
                assert(remarks.deep_view() =~= listed + seq![chunk@.remark_at(pos as int)->0]);
            },
            Chunk::Text { .. } => {},
        }
        i += 1;
    }
    let mut meta = meta;
    meta.set_remarks(remarks);
    (rv, meta)
}

/// The surface text of two sequences of chunks, one after the other, is the
/// surface text of the first followed by that of the second.
pub proof fn lemma_joined_concat(a: Seq<ChunkView>, b: Seq<ChunkView>)
    ensures
        joined(a + b) == joined(a) + joined(b),
    decreases a.len(),
{
    if a.len() == 0 {
        assert(a + b =~= b);
        assert(joined(a) + joined(b) =~= joined(b));
    } else {
        lemma_joined_concat(a.drop_first(), b);
        assert((a + b).drop_first() =~= a.drop_first() + b);
        assert(joined(a + b) =~= joined(a) + joined(b));
    }
}

/// The remarks of two sequences of chunks, one after the other: those of the
/// second start where the text of the first ends.
pub proof fn lemma_remarks_concat(a: Seq<ChunkView>, b: Seq<ChunkView>, pos: int)
    ensures
        remarks_from(a + b, pos) == remarks_from(a, pos) + remarks_from(
            b,
            pos + utf8_len(joined(a)),
        ),
    decreases a.len(),
{
    if a.len() == 0 {
        assert(a + b =~= b);
        assert(joined(a) =~= Seq::<char>::empty());
        assert(remarks_from(a, pos) + remarks_from(b, pos) =~= remarks_from(b, pos));
    } else {
        let first = utf8_len(a[0].text()) as int;
        lemma_remarks_concat(a.drop_first(), b, pos + first);
        lemma_utf8_len_concat(a[0].text(), joined(a.drop_first()));
        assert((a + b).drop_first() =~= a.drop_first() + b);
        assert(remarks_from(a + b, pos) =~= remarks_from(a, pos) + remarks_from(
            b,
            pos + utf8_len(joined(a)),
        ));
    }
}

/// A single chunk has its own text as surface text and leaves at most its own
/// remark.
pub proof fn lemma_single_chunk(chunk: ChunkView, pos: int)
    ensures
        joined(seq![chunk]) == chunk.text(),
        remarks_from(seq![chunk], pos) == (match chunk.remark_at(pos) {
            Some(remark) => seq![remark],
            None => Seq::empty(),
        }),
{
    reveal_with_fuel(joined, 2);
    reveal_with_fuel(remarks_from, 2);
    assert(seq![chunk].drop_first() =~= Seq::<ChunkView>::empty());
    assert(joined(seq![chunk]) =~= chunk.text());
    assert(remarks_from(seq![chunk], pos) =~= (match chunk.remark_at(pos) {
        Some(remark) => seq![remark],
        None => Seq::empty(),
    }));
}

/// Whether every remark has a range, the ranges lie inside `text` between
/// characters, do not overlap, and follow each other from byte `pos` on.
pub open spec fn ranges_in_order(text: Seq<char>, remarks: Seq<RemarkView>, pos: int) -> bool
    decreases remarks.len(),
{
    if remarks.len() == 0 {
        true
    } else {
        match remarks[0].range {
            None => false,
            Some((from, to)) => {
                &&& pos <= from
                &&& sliceable(text, from, to)
                &&& ranges_in_order(text, remarks.drop_first(), to)
            },
        }
    }
}

proof fn lemma_round_trip_from(text: Seq<char>, remarks: Seq<RemarkView>, pos: int)
    requires
        sliceable(text, pos, utf8_len(text) as int),
        ranges_in_order(text, remarks, pos),
    ensures
        joined(chunks_from(text, remarks, pos)) == byte_slice(text, pos, utf8_len(text) as int),
        remarks_from(chunks_from(text, remarks, pos), pos) == remarks,
    decreases remarks.len(),
{
    let len = utf8_len(text) as int;
    if remarks.len() == 0 {
        let tail = tail_chunks(text, pos);
        if pos < len {
            lemma_single_chunk(tail[0], pos);
            assert(tail =~= seq![tail[0]]);
        } else {
            assert(encode_utf8(text).subrange(pos, len) =~= Seq::<u8>::empty());
            assert(byte_slice(text, pos, len) =~= Seq::<char>::empty());
        }
    } else {
        let (from, to) = remarks[0].range->0;
        let rest = remarks.drop_first();
        let head = remark_chunks(text, pos, remarks[0]);
        let more = chunks_from(text, rest, to);
        assert(sliceable(text, pos, from));
        assert(sliceable(text, to, len));
        lemma_round_trip_from(text, rest, to);
        lemma_joined_concat(head, more);
        lemma_remarks_concat(head, more, pos);
        lemma_slice_bytes(text, from, to);
        lemma_slice_bytes(text, pos, from);
        lemma_slice_join(text, pos, from, to);
        lemma_slice_join(text, pos, to, len);
        lemma_slice_bytes(text, pos, to);
        let redaction = ChunkView::Redaction {
            text: byte_slice(text, from, to),
            rule_id: remarks[0].note.rule_id,
            ty: remarks[0].ty,
            description: remarks[0].note.description,
        };
        lemma_single_chunk(redaction, from);
        assert(redaction.remark_at(from) == Some(remarks[0]));
        if from > pos {
            let gap = ChunkView::Text { text: byte_slice(text, pos, from) };
            lemma_single_chunk(gap, pos);
            assert(head =~= seq![gap] + seq![redaction]);
            lemma_joined_concat(seq![gap], seq![redaction]);
            lemma_remarks_concat(seq![gap], seq![redaction], pos);
            assert(remarks_from(head, pos) =~= seq![remarks[0]]);
        } else {
            assert(head =~= seq![redaction]);
        }
        assert(remarks =~= seq![remarks[0]] + rest);
    }
}

/// Cutting a text along its remarks and joining the chunks again gives the
/// text and the remarks back, for every text and every list of remarks whose
/// ranges lie inside the text, between characters, one after the other.
pub proof fn law_chunk_round_trip(text: Seq<char>, meta: MetaView)
    requires
        ranges_in_order(text, meta.remarks, 0),
    ensures
        joined(chunks_from(text, meta.remarks, 0)) == text,
        remarks_from(chunks_from(text, meta.remarks, 0), 0) == meta.remarks,
        meta.with_remarks(remarks_from(chunks_from(text, meta.remarks, 0), 0)) == meta,
{
    lemma_slice_all(text);
    lemma_round_trip_from(text, meta.remarks, 0);
}

/// Whether the remarks all have ranges between `lo` and `hi` and none
/// reaches into a later one.
pub open spec fn remarks_sorted(remarks: Seq<RemarkView>, lo: int, hi: int) -> bool {
    &&& forall|i: int|
        0 <= i < remarks.len() ==> ((#[trigger] remarks[i]).range matches Some((from, to))
            && lo <= from <= to <= hi)
    &&& forall|i: int, j: int|
        0 <= i < j < remarks.len() ==> (#[trigger] remarks[i]).end() <= (
        #[trigger] remarks[j]).start()
}

/// The remarks written for a sequence of chunks lie inside the surface text,
/// in the order of their position, and do not overlap.
pub proof fn law_remarks_do_not_overlap(chunks: Seq<ChunkView>, pos: int)
    ensures
        remarks_sorted(remarks_from(chunks, pos), pos, pos + utf8_len(joined(chunks))),
    decreases chunks.len(),
{
    if chunks.len() > 0 {
        let step = utf8_len(chunks[0].text()) as int;
        law_remarks_do_not_overlap(chunks.drop_first(), pos + step);
        lemma_utf8_len_concat(chunks[0].text(), joined(chunks.drop_first()));
        let rest = remarks_from(chunks.drop_first(), pos + step);
        let all = remarks_from(chunks, pos);
        match chunks[0].remark_at(pos) {
            Some(remark) => {
                assert forall|i: int| 0 < i < all.len() implies all[i] == rest[i - 1] by {}
                assert(all[0] == remark);
            },
            None => {},
        }
    }
}

/// Whether no redaction in the sequence has an empty text.
pub open spec fn redactions_nonempty(chunks: Seq<ChunkView>) -> bool {
    forall|i: int|
        0 <= i < chunks.len() && (#[trigger] chunks[i]) is Redaction ==> chunks[i].text().len()
            > 0
}

proof fn lemma_remarks_nonempty(chunks: Seq<ChunkView>, pos: int)
    requires
        redactions_nonempty(chunks),
    ensures
        forall|i: int|
            0 <= i < remarks_from(chunks, pos).len() ==> (#[trigger] remarks_from(
                chunks,
                pos,
            )[i]).start() < remarks_from(chunks, pos)[i].end(),
    decreases chunks.len(),
{
    if chunks.len() > 0 {
        let step = utf8_len(chunks[0].text()) as int;
        let tail = chunks.drop_first();
        assert forall|i: int| 0 <= i < tail.len() && (#[trigger] tail[i]) is Redaction implies tail[i].text().len()
            > 0 by {
            assert(tail[i] == chunks[i + 1]);
        }
        lemma_remarks_nonempty(tail, pos + step);
        let rest = remarks_from(tail, pos + step);
        let all = remarks_from(chunks, pos);
        match chunks[0].remark_at(pos) {
            Some(remark) => {
                lemma_utf8_len_positive(chunks[0].text());
                assert forall|i: int| 0 < i < all.len() implies all[i] == rest[i - 1] by {}
                assert(all[0] == remark);
            },
            None => {},
        }
    }
}

/// Where no redaction is empty, the remarks written for a sequence of chunks
/// start at strictly increasing positions.
pub proof fn law_remarks_strictly_increase(chunks: Seq<ChunkView>, pos: int)
    requires
        redactions_nonempty(chunks),
    ensures
        forall|i: int, j: int|
            0 <= i < j < remarks_from(chunks, pos).len() ==> (#[trigger] remarks_from(
                chunks,
                pos,
            )[i]).start() < (#[trigger] remarks_from(chunks, pos)[j]).start(),
{
    law_remarks_do_not_overlap(chunks, pos);
    lemma_remarks_nonempty(chunks, pos);
}

} // verus!
