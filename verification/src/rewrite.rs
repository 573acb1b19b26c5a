//! Rewriting the chunks of a string along the matches of a pattern.
//!
//! The chunks are flattened into one search text in which every earlier
//! redaction is a single NUL character, so that a pattern sees the text around
//! earlier redactions and never looks into them. After the search each NUL
//! outside the replaced parts becomes the redaction it stood for.

use crate::chunk::{
    joined, lemma_joined_concat, lemma_remarks_concat, lemma_single_chunk, remarks_from, Chunk,
    ChunkView,
};
use crate::meta::{Note, NoteView};
use crate::pattern::{Captures, CapturesView};
use crate::redaction::{Redaction, RedactionView};
use crate::text::{
    byte_len, byte_slice, lemma_len_le_utf8_len, lemma_slice_all, lemma_slice_bytes,
    lemma_slice_join, lemma_utf8_len_concat, push_char, slice_bytes, sliceable, utf8_len,
};
use vstd::prelude::*;
use vstd::string::*;

verus! {

/// The text without its NUL characters.
pub open spec fn without_nul(text: Seq<char>) -> Seq<char>
    decreases text.len(),
{
    if text.len() == 0 {
        Seq::empty()
    } else if text.last() == '\0' {
        without_nul(text.drop_last())
    } else {
        without_nul(text.drop_last()).push(text.last())
    }
}

/// The number of NUL characters in the text.
pub open spec fn nul_count(text: Seq<char>) -> nat
    decreases text.len(),
{
    if text.len() == 0 {
        0
    } else if text.last() == '\0' {
        nul_count(text.drop_last()) + 1
    } else {
        nul_count(text.drop_last())
    }
}

/// The NUL characters of two texts, one after the other, are those of the
/// first and those of the second.
pub proof fn lemma_nul_count_concat(a: Seq<char>, b: Seq<char>)
    ensures
        nul_count(a + b) == nul_count(a) + nul_count(b),
    decreases b.len(),
{
    if b.len() == 0 {
        assert(a + b =~= a);
    } else {
        lemma_nul_count_concat(a, b.drop_last());
        assert((a + b).drop_last() =~= a + b.drop_last());
    }
}

/// A text has no more NUL characters than characters.
pub proof fn lemma_nul_count_bound(text: Seq<char>)
    ensures
        nul_count(text) <= text.len(),
    decreases text.len(),
{
    if text.len() > 0 {
        lemma_nul_count_bound(text.drop_last());
    }
}

/// What a chunk adds to the search text: its text without NUL characters,
/// or one NUL for a redaction.
pub open spec fn search_piece(chunk: ChunkView) -> Seq<char> {
    match chunk {
        ChunkView::Text { text } => without_nul(text),
        ChunkView::Redaction { .. } => seq!['\0'],
    }
}

/// The search text of a sequence of chunks.
pub open spec fn search_text(chunks: Seq<ChunkView>) -> Seq<char>
    decreases chunks.len(),
{
    if chunks.len() == 0 {
        Seq::empty()
    } else {
        search_text(chunks.drop_last()) + search_piece(chunks.last())
    }
}

/// The redactions among the chunks, in order.
pub open spec fn redactions_of(chunks: Seq<ChunkView>) -> Seq<ChunkView>
    decreases chunks.len(),
{
    if chunks.len() == 0 {
        Seq::empty()
    } else if chunks.last() is Redaction {
        redactions_of(chunks.drop_last()).push(chunks.last())
    } else {
        redactions_of(chunks.drop_last())
    }
}

/// Copies `text` without its NUL characters.
pub fn strip_nul(text: &str) -> (r: String)
    ensures
        r@ == without_nul(text@),
{
    let mut out = String::new();
    for c in it: text.chars()
        invariant
            it.seq() == text@,
            out@ == without_nul(text@.take(it.index() as int)),
    {
        let ghost i = it.index() as int;
        assert(text@.take(i + 1).drop_last() =~= text@.take(i));
        if c != '\0' {
            push_char(&mut out, c);
        }
    }
    assert(text@.take(text@.len() as int) =~= text@);
    out
}

/// Counts the NUL characters of `text`.
pub fn count_nul(text: &str) -> (r: usize)
    ensures
        r == nul_count(text@),
{
    let len = text.unicode_len();
    let mut count: usize = 0;
    for c in it: text.chars()
        invariant
            it.seq() == text@,
            len == text@.len(),
            count == nul_count(text@.take(it.index() as int)),
            count <= it.index(),
    {
        let ghost i = it.index() as int;
        assert(text@.take(i + 1).drop_last() =~= text@.take(i));
        if c == '\0' {
            count += 1;
        }
    }
    assert(text@.take(text@.len() as int) =~= text@);
    count
}

/// Flattens chunks into their search text and the list of their redactions.
pub fn flatten(chunks: &Vec<Chunk>) -> (r: (String, Vec<Chunk>))
    ensures
        r.0@ == search_text(chunks.deep_view()),
        r.1.deep_view() == redactions_of(chunks.deep_view()),
{
    let mut search = String::new();
    let mut redactions: Vec<Chunk> = Vec::new();
    let mut i: usize = 0;
    let ghost all = chunks.deep_view();
    assert(redactions.deep_view() =~= Seq::empty());
    while i < chunks.len()
        invariant
            all == chunks.deep_view(),
            i <= chunks.len(),
            search@ == search_text(all.take(i as int)),
            redactions.deep_view() == redactions_of(all.take(i as int)),
        decreases chunks.len() - i,
    {
        let ghost listed = redactions.deep_view();
        assert(all.take(i + 1).drop_last() =~= all.take(i as int));
        assert(all.take(i + 1).last() == chunks[i as int]@);
        match &chunks[i] {
            Chunk::Text { text } => {
                let stripped = strip_nul(text.as_str());
                search.append(stripped.as_str());
            },
            Chunk::Redaction { .. } => {
                redactions.push(chunks[i].clone());
                push_char(&mut search, '\0');
                assert(redactions.deep_view() =~= listed.push(chunks[i as int]@));
                assert(search@ =~= search_text(all.take(i as int)) + seq!['\0']);
            },
        }
        i += 1;
    }
    assert(all.take(i as int) =~= all);
    (search, redactions)
}

/// The position of the first NUL character of the text, or the length of
/// the text where it has none.
pub open spec fn first_nul(text: Seq<char>) -> int
    decreases text.len(),
{
    if text.len() == 0 {
        0
    } else if text[0] == '\0' {
        0
    } else {
        1 + first_nul(text.drop_first())
    }
}

/// The redaction with the number `k`, as a sequence of one chunk, or nothing
/// where there is no such redaction.
pub open spec fn redaction_at(redactions: Seq<ChunkView>, k: int) -> Seq<ChunkView> {
    if 0 <= k < redactions.len() {
        seq![redactions[k]]
    } else {
        Seq::empty()
    }
}

/// The chunks of a text that is not empty, cut at its NUL characters: the
/// text before the first NUL, the redaction with the number `k` in place of
/// the NUL, and so on with the next redaction for the rest; last the text
/// after the last NUL. A text between two cuts may be empty.
pub open spec fn split_at_nuls(text: Seq<char>, redactions: Seq<ChunkView>, k: int) -> Seq<
    ChunkView,
>
    decreases text.len(),
{
    let i = first_nul(text);
    if i < 0 || i >= text.len() {
        seq![ChunkView::Text { text }]
    } else {
        seq![ChunkView::Text { text: text.take(i) }] + redaction_at(redactions, k)
            + split_at_nuls(text.skip(i + 1), redactions, k + 1)
    }
}

/// The chunks of a stretch of search text in which the first NUL stands for
/// the redaction with the number `k`. An empty stretch gives no chunk.
pub open spec fn gap_chunks(text: Seq<char>, redactions: Seq<ChunkView>, k: int) -> Seq<
    ChunkView,
> {
    if text.len() == 0 {
        Seq::empty()
    } else {
        split_at_nuls(text, redactions, k)
    }
}

proof fn lemma_first_nul_after(head: Seq<char>, tail: Seq<char>)
    requires
        nul_count(head) == 0,
    ensures
        first_nul(head + tail) == head.len() + first_nul(tail),
        0 <= first_nul(tail) <= tail.len(),
    decreases head.len() + tail.len(),
{
    if head.len() == 0 {
        assert(head + tail =~= tail);
        if tail.len() > 0 && tail[0] != '\0' {
            lemma_first_nul_after(head, tail.drop_first());
        }
    } else {
        lemma_nul_count_concat(seq![head[0]], head.drop_first());
        assert(seq![head[0]] + head.drop_first() =~= head);
        assert(seq![head[0]].drop_last() =~= Seq::<char>::empty());
        assert(nul_count(seq![head[0]]) == if head[0] == '\0' {
            1nat
        } else {
            0nat
        }) by {
            reveal_with_fuel(nul_count, 2);
        }
        lemma_first_nul_after(head.drop_first(), tail);
        assert((head + tail).drop_first() =~= head.drop_first() + tail);
    }
}

/// Adds to `output` the chunks of the stretch `text` of a search text, in
/// which the first NUL stands for the redaction with the number `k`.
/// Returns the number of the redaction that the next NUL after the stretch
/// stands for.
pub fn emit_gap(text: &str, redactions: &Vec<Chunk>, k: usize, output: &mut Vec<Chunk>) -> (next: usize)
    requires
        k + text@.len() <= usize::MAX,
    ensures
        final(output).deep_view() == old(output).deep_view() + gap_chunks(
            text@,
            redactions.deep_view(),
            k as int,
        ),
        next == k + nul_count(text@),
{
    if text.unicode_len() == 0 {
        assert(text@ =~= Seq::<char>::empty());
        assert(output.deep_view() =~= old(output).deep_view() + Seq::<ChunkView>::empty());
        return k;
    }
    let ghost reds = redactions.deep_view();
    let ghost start = output.deep_view();
    let ghost whole = split_at_nuls(text@, reds, k as int);
    let mut buffer = String::new();
    let mut next: usize = k;
    assert(buffer@ + text@.skip(0) =~= text@);
    assert(start + whole =~= output.deep_view() + whole);
    for c in it: text.chars()
        invariant
            it.seq() == text@,
            reds == redactions.deep_view(),
            k + text@.len() <= usize::MAX,
            next == k + nul_count(text@.take(it.index() as int)),
            next <= k + it.index(),
            nul_count(buffer@) == 0,
            start + whole == output.deep_view() + split_at_nuls(
                buffer@ + text@.skip(it.index() as int),
                reds,
                next as int,
            ),
    {
        let ghost i = it.index() as int;
        let ghost rest = text@.skip(i);
        let ghost emitted = output.deep_view();
        let ghost held = buffer@;
        proof {
            assert(text@.take(i + 1).drop_last() =~= text@.take(i));
            assert(rest.drop_first() =~= text@.skip(i + 1));
            lemma_first_nul_after(held, rest);
        }
        if c == '\0' {
            proof {
                assert((held + rest).take(held.len() as int) =~= held);
                assert((held + rest).skip(held.len() as int + 1) =~= text@.skip(i + 1));
            }
            output.push(Chunk::Text { text: buffer });
            if next < redactions.len() {
                output.push(redactions[next].clone());
            }
            buffer = String::new();
            next = next + 1;
            proof {
                assert(output.deep_view() =~= emitted + (seq![ChunkView::Text { text: held }]
                    + redaction_at(reds, next - 1)));
                assert(buffer@ + text@.skip(i + 1) =~= text@.skip(i + 1));
                assert(emitted + (seq![ChunkView::Text { text: held }] + redaction_at(
                    reds,
                    next - 1,
                ) + split_at_nuls(text@.skip(i + 1), reds, next as int)) =~= output.deep_view()
                    + split_at_nuls(text@.skip(i + 1), reds, next as int));
            }
        } else {
            push_char(&mut buffer, c);
            proof {
                assert(buffer@.drop_last() =~= held);
                assert(buffer@ + text@.skip(i + 1) =~= held + rest);
            }
        }
    }
    proof {
        let n = text@.len() as int;
        assert(text@.take(n) =~= text@);
        assert(buffer@ + text@.skip(n) =~= buffer@);
        lemma_first_nul_after(buffer@, Seq::<char>::empty());
        assert(buffer@ + Seq::<char>::empty() =~= buffer@);
    }
    let ghost emitted = output.deep_view();
    let ghost held = buffer@;
    output.push(Chunk::Text { text: buffer });
    assert(output.deep_view() =~= emitted + seq![ChunkView::Text { text: held }]);
    next
}

/// One step of a rewrite: a stretch of the search text to replace, or a
/// position up to which the text passes unchanged.
#[derive(Copy, Clone, Debug, PartialEq, Eq)]
pub enum Step {
    /// The bytes `[from, to)` are replaced.
    Replace { from: usize, to: usize },
    /// The text up to the byte `to` passes.
    Pass { to: usize },
}

/// The content of an optional list of group numbers.
pub open spec fn groups_view(groups: Option<&Vec<u8>>) -> Option<Seq<u8>> {
    match groups {
        Some(list) => Some(list@),
        None => None,
    }
}

/// Whether the group with the number `idx` of a match is one to replace: it
/// took part in the match and its number is among `groups`.
pub open spec fn selected(found: CapturesView, groups: Seq<u8>, idx: int) -> bool {
    &&& 1 <= idx < found.len()
    &&& found[idx] is Some
    &&& idx <= 255
    &&& groups.contains(idx as u8)
}

/// The steps for the selected groups of a match from the number `idx` on.
pub open spec fn group_steps(found: CapturesView, groups: Seq<u8>, idx: int) -> Seq<Step>
    decreases found.len() - idx,
{
    if idx < 1 || idx >= found.len() {
        Seq::empty()
    } else if selected(found, groups, idx) {
        let (from, to) = found[idx]->0;
        seq![Step::Replace { from, to }] + group_steps(found, groups, idx + 1)
    } else {
        group_steps(found, groups, idx + 1)
    }
}

/// The steps of one match: its targets, which are the whole match or, with
/// `groups`, the selected groups in the order of their numbers; then the
/// passing of what is left of the match.
pub open spec fn match_steps(found: CapturesView, groups: Option<Seq<u8>>) -> Seq<Step> {
    if found.len() == 0 || found[0] is None {
        Seq::empty()
    } else {
        let (from, to) = found[0]->0;
        match groups {
            None => seq![Step::Replace { from, to }, Step::Pass { to }],
            Some(list) => group_steps(found, list, 1) + seq![Step::Pass { to }],
        }
    }
}

/// The steps of all matches, in order.
pub open spec fn steps_of(matches: Seq<CapturesView>, groups: Option<Seq<u8>>) -> Seq<Step>
    decreases matches.len(),
{
    if matches.len() == 0 {
        Seq::empty()
    } else {
        steps_of(matches.drop_last(), groups) + match_steps(matches.last(), groups)
    }
}

fn contains_group(groups: &Vec<u8>, number: u8) -> (r: bool)
    ensures
        r == groups@.contains(number),
{
    let mut i: usize = 0;
    while i < groups.len()
        invariant
            i <= groups.len(),
            forall|k: int| 0 <= k < i ==> groups@[k] != number,
        decreases groups.len() - i,
    {
        if groups[i] == number {
            return true;
        }
        i += 1;
    }
    false
}

/// Lists the steps of all matches.
pub fn collect_steps(matches: &Vec<Captures>, groups: Option<&Vec<u8>>) -> (r: Vec<Step>)
    ensures
        r@ == steps_of(matches.deep_view(), groups_view(groups)),
{
    let mut steps: Vec<Step> = Vec::new();
    let ghost all = matches.deep_view();
    let ghost selection = groups_view(groups);
    let mut i: usize = 0;
    while i < matches.len()
        invariant
            all == matches.deep_view(),
            selection == groups_view(groups),
            i <= matches.len(),
            steps@ == steps_of(all.take(i as int), selection),
        decreases matches.len() - i,
    {
        let found = &matches[i];
        let ghost view = all[i as int];
        let ghost before = steps@;
        proof {
            assert(all.take(i + 1).drop_last() =~= all.take(i as int));
            assert(all.take(i + 1).last() == view);
            assert(view == found.deep_view());
            assert(view.len() == found.len());
            assert forall|j: int| 0 <= j < found.len() implies view[j] == found[j] by {
                assert(view[j] == found[j].deep_view());
            }
        }
        if found.len() > 0 {
            if let Some((from, to)) = found[0] {
                match groups {
                    None => {
                        steps.push(Step::Replace { from, to });
                        steps.push(Step::Pass { to });
                        assert(steps@ =~= before + match_steps(view, selection));
                    },
                    Some(list) => {
                        let mut idx: usize = 1;
                        while idx < found.len()
                            invariant
                                1 <= idx,
                                view.len() == found.len(),
                                forall|j: int| 0 <= j < found.len() ==> view[j] == found[j],
                                before + group_steps(view, list@, 1) == steps@ + group_steps(
                                    view,
                                    list@,
                                    idx as int,
                                ),
                            decreases found.len() - idx,
                        {
                            let ghost listed = steps@;
                            if let Some((from, to)) = found[idx] {
                                if idx <= 255 && contains_group(list, idx as u8) {
                                    steps.push(Step::Replace { from, to });
                                    assert(steps@ + group_steps(view, list@, idx + 1) =~= listed
                                        + group_steps(view, list@, idx as int));
                                }
                            }
                            idx += 1;
                        }
                        let ghost listed = steps@;
                        steps.push(Step::Pass { to });
                        assert(steps@ =~= before + match_steps(view, selection)) by {
                            assert(listed + group_steps(view, list@, idx as int) =~= listed);
                        }
                    },
                }
            }
        }
        assert(steps@ =~= before + match_steps(view, selection));
        i += 1;
    }
    assert(all.take(i as int) =~= all);
    steps
}

/// The chunks of the stretch `[from, to)` of the search text: the first NUL
/// in it stands for the redaction whose number is the number of NUL
/// characters before `from`.
pub open spec fn gap(search: Seq<char>, redactions: Seq<ChunkView>, from: int, to: int) -> Seq<
    ChunkView,
> {
    gap_chunks(byte_slice(search, from, to), redactions, nul_count(byte_slice(search, 0, from)) as int)
}

/// The chunks that the steps make of the search text from the byte `pos` on.
///
/// A stretch to replace that starts at or after `pos` and lies between
/// characters is preceded by the chunks of the text before it and becomes
/// the chunk that the redaction makes of it; the earlier redactions that it
/// covers are gone. Any other stretch is passed over. After the last step
/// the rest of the text follows.
pub open spec fn run(
    search: Seq<char>,
    redactions: Seq<ChunkView>,
    redaction: RedactionView,
    note: NoteView,
    steps: Seq<Step>,
    pos: int,
) -> Seq<ChunkView>
    decreases steps.len(),
{
    if steps.len() == 0 {
        gap(search, redactions, pos, utf8_len(search) as int)
    } else {
        let rest = steps.drop_first();
        match steps[0] {
            Step::Replace { from, to } => if pos <= from && sliceable(
                search,
                from as int,
                to as int,
            ) {
                gap(search, redactions, pos, from as int) + seq![
                    redaction.chunk(byte_slice(search, from as int, to as int), note),
                ] + run(search, redactions, redaction, note, rest, to as int)
            } else {
                run(search, redactions, redaction, note, rest, pos)
            },
            Step::Pass { to } => if pos <= to && sliceable(search, to as int, to as int) {
                gap(search, redactions, pos, to as int) + run(
                    search,
                    redactions,
                    redaction,
                    note,
                    rest,
                    to as int,
                )
            } else {
                run(search, redactions, redaction, note, rest, pos)
            },
        }
    }
}

/// The chunks that a rule with `redaction` and `note` makes of `chunks`
/// when its pattern has the matches `matches` in their search text.
pub open spec fn rewritten(
    chunks: Seq<ChunkView>,
    matches: Seq<CapturesView>,
    groups: Option<Seq<u8>>,
    redaction: RedactionView,
    note: NoteView,
) -> Seq<ChunkView> {
    run(
        search_text(chunks),
        redactions_of(chunks),
        redaction,
        note,
        steps_of(matches, groups),
        0,
    )
}

proof fn lemma_advance(search: Seq<char>, pos: int, to: int)
    requires
        sliceable(search, pos, pos),
        sliceable(search, to, to),
        pos <= to,
    ensures
        sliceable(search, 0, pos),
        sliceable(search, pos, to),
        sliceable(search, 0, to),
        nul_count(byte_slice(search, 0, to)) == nul_count(byte_slice(search, 0, pos)) + nul_count(
            byte_slice(search, pos, to),
        ),
        nul_count(byte_slice(search, 0, pos)) + byte_slice(search, pos, to).len() <= to,
        nul_count(byte_slice(search, 0, to)) <= to,
{
    lemma_slice_all(search);
    lemma_slice_join(search, 0, pos, to);
    lemma_nul_count_concat(byte_slice(search, 0, pos), byte_slice(search, pos, to));
    lemma_nul_count_bound(byte_slice(search, 0, pos));
    lemma_nul_count_bound(byte_slice(search, 0, to));
    lemma_len_le_utf8_len(byte_slice(search, 0, to));
    lemma_slice_bytes(search, 0, to);
}

/// Rewrites `chunks` along `matches`, the matches of a pattern in the
/// search text of the chunks: every target is replaced by what `redaction`
/// makes of it for the rule of `note`, and the text and the earlier
/// redactions around the targets stay.
pub fn apply_matches(
    chunks: &Vec<Chunk>,
    matches: &Vec<Captures>,
    groups: Option<&Vec<u8>>,
    redaction: &Redaction,
    note: &Note,
) -> (rv: Vec<Chunk>)
    ensures
        rv.deep_view() == rewritten(
            chunks.deep_view(),
            matches.deep_view(),
            groups_view(groups),
            redaction@,
            note@,
        ),
{
    let (search, redactions) = flatten(chunks);
    rewrite_flat(search.as_str(), &redactions, matches, groups, redaction, note)
}

/// Rewrites a search text with the redactions that its NUL characters
/// stand for along `matches`.
pub fn rewrite_flat(
    search: &str,
    redactions: &Vec<Chunk>,
    matches: &Vec<Captures>,
    groups: Option<&Vec<u8>>,
    redaction: &Redaction,
    note: &Note,
) -> (rv: Vec<Chunk>)
    ensures
        rv.deep_view() == run(
            search@,
            redactions.deep_view(),
            redaction@,
            note@,
            steps_of(matches.deep_view(), groups_view(groups)),
            0,
        ),
{
    let steps = collect_steps(matches, groups);
    let len = byte_len(search);
    let mut rv: Vec<Chunk> = Vec::new();
    let mut pos: usize = 0;
    let mut k: usize = 0;
    let mut i: usize = 0;
    let ghost reds = redactions.deep_view();
    let ghost goal = run(search@, reds, redaction@, note@, steps@, 0);
    proof {
        lemma_slice_all(search@);
        assert(sliceable(search@, 0, 0));
        assert(vstd::utf8::encode_utf8(search@).subrange(0, 0) =~= Seq::<u8>::empty());
        assert(byte_slice(search@, 0, 0) =~= Seq::<char>::empty());
        assert(steps@.skip(0) =~= steps@);
        assert(rv.deep_view() =~= Seq::<ChunkView>::empty());
        assert(goal =~= rv.deep_view() + goal);
    }
    while i < steps.len()
        invariant
            i <= steps.len(),
            len == utf8_len(search@),
            reds == redactions.deep_view(),
            sliceable(search@, pos as int, pos as int),
            k == nul_count(byte_slice(search@, 0, pos as int)),
            goal == rv.deep_view() + run(
                search@,
                reds,
                redaction@,
                note@,
                steps@.skip(i as int),
                pos as int,
            ),
        decreases steps.len() - i,
    {
        let ghost done = rv.deep_view();
        let ghost at = pos as int;
        let ghost left = steps@.skip(i as int);
        proof {
            assert(left[0] == steps@[i as int]);
            assert(left.drop_first() =~= steps@.skip(i + 1));
        }
        match steps[i] {
            Step::Replace { from, to } => {
                if pos <= from {
                    if let Some(target) = slice_bytes(search, from, to) {
                        proof {
                            lemma_advance(search@, pos as int, from as int);
                            lemma_advance(search@, from as int, to as int);
                        }
                        if let Some(before) = slice_bytes(search, pos, from) {
                            k = emit_gap(before, &redactions, k, &mut rv);
                        }
                        redaction.insert_replacement_chunks(target, note.clone(), &mut rv);
                        k = k + count_nul(target);
                        pos = to;
                        proof {
                            let tail = run(
                                search@,
                                reds,
                                redaction@,
                                note@,
                                steps@.skip(i + 1),
                                to as int,
                            );
                            let head = gap(search@, reds, at, from as int);
                            let chunk = redaction@.chunk(target@, note@);
                            assert(rv.deep_view() =~= done + head + seq![chunk]);
                            assert(rv.deep_view() + tail =~= done + (head + seq![chunk] + tail));
                        }
                    }
                }
            },
            Step::Pass { to } => {
                if pos <= to {
                    if let Some(_) = slice_bytes(search, to, to) {
                        proof {
                            lemma_advance(search@, pos as int, to as int);
                        }
                        if let Some(before) = slice_bytes(search, pos, to) {
                            k = emit_gap(before, &redactions, k, &mut rv);
                        }
                        pos = to;
                        proof {
                            let tail = run(
                                search@,
                                reds,
                                redaction@,
                                note@,
                                steps@.skip(i + 1),
                                to as int,
                            );
                            let head = gap(search@, reds, at, to as int);
                            assert(rv.deep_view() + tail =~= done + (head + tail));
                        }
                    }
                }
            },
        }
        i += 1;
    }
    proof {
        lemma_slice_all(search@);
        lemma_advance(search@, pos as int, len as int);
    }
    if let Some(rest) = slice_bytes(search, pos, len) {
        let _ = emit_gap(rest, &redactions, k, &mut rv);
    }
    rv
}

/// A text without NUL characters is what is left of itself without them.
pub proof fn lemma_without_nul(text: Seq<char>)
    ensures
        nul_count(without_nul(text)) == 0,
        nul_count(text) == 0 ==> without_nul(text) == text,
    decreases text.len(),
{
    if text.len() > 0 {
        lemma_without_nul(text.drop_last());
        if text.last() != '\0' {
            let kept = without_nul(text.drop_last());
            assert(kept.push(text.last()).drop_last() =~= kept);
            if nul_count(text) == 0 {
                assert(text.drop_last().push(text.last()) =~= text);
            }
        }
    }
}

/// The search text of two sequences of chunks, one after the other.
pub proof fn lemma_search_concat(a: Seq<ChunkView>, b: Seq<ChunkView>)
    ensures
        search_text(a + b) == search_text(a) + search_text(b),
        redactions_of(a + b) == redactions_of(a) + redactions_of(b),
    decreases b.len(),
{
    if b.len() == 0 {
        assert(a + b =~= a);
        assert(search_text(a) + search_text(b) =~= search_text(a));
        assert(redactions_of(a) + redactions_of(b) =~= redactions_of(a));
    } else {
        lemma_search_concat(a, b.drop_last());
        assert((a + b).drop_last() =~= a + b.drop_last());
        assert(search_text(a + b) =~= search_text(a) + search_text(b));
        assert(redactions_of(a + b) =~= redactions_of(a) + redactions_of(b));
    }
}

/// In the search text every NUL stands for one redaction and every
/// redaction has its NUL.
pub proof fn law_one_nul_per_redaction(chunks: Seq<ChunkView>)
    ensures
        nul_count(search_text(chunks)) == redactions_of(chunks).len(),
    decreases chunks.len(),
{
    if chunks.len() > 0 {
        law_one_nul_per_redaction(chunks.drop_last());
        lemma_nul_count_concat(search_text(chunks.drop_last()), search_piece(chunks.last()));
        match chunks.last() {
            ChunkView::Text { text } => {
                lemma_without_nul(text);
            },
            ChunkView::Redaction { .. } => {
                reveal_with_fuel(nul_count, 2);
                assert(seq!['\0'].drop_last() =~= Seq::<char>::empty());
            },
        }
    }
}

/// Whether no text among the chunks holds a NUL character.
pub open spec fn texts_without_nul(chunks: Seq<ChunkView>) -> bool {
    forall|i: int|
        0 <= i < chunks.len() && (#[trigger] chunks[i]) is Text ==> nul_count(chunks[i].text())
            == 0
}

proof fn lemma_split_restores(
    held: Seq<char>,
    chunks: Seq<ChunkView>,
    redactions: Seq<ChunkView>,
    k: int,
    pos: int,
)
    requires
        nul_count(held) == 0,
        texts_without_nul(chunks),
        0 <= k,
        k + redactions_of(chunks).len() <= redactions.len(),
        forall|j: int|
            0 <= j < redactions_of(chunks).len() ==> redactions[k + j] == redactions_of(chunks)[j],
    ensures
        joined(split_at_nuls(held + search_text(chunks), redactions, k)) == held + joined(chunks),
        remarks_from(split_at_nuls(held + search_text(chunks), redactions, k), pos)
            == remarks_from(chunks, pos + utf8_len(held)),
    decreases chunks.len(),
{
    if chunks.len() == 0 {
        assert(held + search_text(chunks) =~= held);
        lemma_first_nul_after(held, Seq::<char>::empty());
        assert(held + Seq::<char>::empty() =~= held);
        lemma_single_chunk(ChunkView::Text { text: held }, pos);
        assert(held + joined(chunks) =~= held);
    } else {
        let first = chunks[0];
        let rest = chunks.drop_first();
        assert(chunks =~= seq![first] + rest);
        lemma_search_concat(seq![first], rest);
        assert(search_text(seq![first]) =~= search_piece(first)) by {
            reveal_with_fuel(search_text, 2);
            assert(seq![first].drop_last() =~= Seq::<ChunkView>::empty());
        }
        assert(redactions_of(seq![first]) =~= if first is Redaction {
            seq![first]
        } else {
            Seq::<ChunkView>::empty()
        }) by {
            reveal_with_fuel(redactions_of, 2);
            assert(seq![first].drop_last() =~= Seq::<ChunkView>::empty());
        }
        assert(texts_without_nul(rest)) by {
            assert forall|i: int| 0 <= i < rest.len() && (#[trigger] rest[i]) is Text implies nul_count(
                rest[i].text(),
            ) == 0 by {
                assert(rest[i] == chunks[i + 1]);
            }
        }
        match first {
            ChunkView::Text { text } => {
                assert(chunks[0] is Text);
                lemma_without_nul(text);
                lemma_nul_count_concat(held, text);
                assert(redactions_of(chunks) =~= redactions_of(rest));
                lemma_split_restores(held + text, rest, redactions, k, pos);
                assert(held + search_text(chunks) =~= (held + text) + search_text(rest));
                assert(held + joined(chunks) =~= (held + text) + joined(rest));
                lemma_utf8_len_concat(held, text);
            },
            ChunkView::Redaction { text, .. } => {
                let tail = search_text(rest);
                let whole = held + search_text(chunks);
                assert(whole =~= held + (seq!['\0'] + tail));
                lemma_first_nul_after(held, seq!['\0'] + tail);
                assert(first_nul(seq!['\0'] + tail) == 0);
                assert(whole.take(held.len() as int) =~= held);
                assert(whole.skip(held.len() as int + 1) =~= tail);
                assert(redactions_of(chunks) =~= seq![first] + redactions_of(rest));
                assert(redactions[k] == first) by {
                    assert(redactions_of(chunks)[0] == first);
                }
                assert forall|j: int| 0 <= j < redactions_of(rest).len() implies redactions[k + 1
                    + j] == redactions_of(rest)[j] by {
                    assert(redactions_of(chunks)[j + 1] == redactions_of(rest)[j]);
                }
                let empty = Seq::<char>::empty();
                lemma_split_restores(empty, rest, redactions, k + 1, pos + utf8_len(held)
                    + utf8_len(text));
                assert(empty + tail =~= tail);
                let after = split_at_nuls(tail, redactions, k + 1);
                let head = seq![ChunkView::Text { text: held }];
                let middle = seq![first];
                assert(split_at_nuls(whole, redactions, k) =~= head + middle + after);
                lemma_single_chunk(ChunkView::Text { text: held }, pos);
                lemma_single_chunk(first, pos + utf8_len(held));
                lemma_joined_concat(head, middle);
                lemma_joined_concat(head + middle, after);
                lemma_remarks_concat(head, middle, pos);
                lemma_remarks_concat(head + middle, after, pos);
                lemma_utf8_len_concat(held, text);
                assert(empty + joined(rest) =~= joined(rest));
                assert(held + joined(chunks) =~= held + text + joined(rest));
                assert(joined(head + middle + after) =~= held + text + joined(rest));
                assert(utf8_len(empty) == 0);
                assert(remarks_from(head + middle + after, pos) =~= remarks_from(
                    chunks,
                    pos + utf8_len(held),
                ));
            },
        }
    }
}

/// A rule whose pattern finds nothing leaves the string and its remarks as
/// they are: the earlier redactions keep their places and their bytes, and no
/// remark is added. This holds of all chunks whose texts are free of NUL
/// characters, whatever the rule would put in place of a match.
pub proof fn law_no_match_keeps_string(
    chunks: Seq<ChunkView>,
    groups: Option<Seq<u8>>,
    redaction: RedactionView,
    note: NoteView,
)
    requires
        texts_without_nul(chunks),
    ensures
        joined(rewritten(chunks, Seq::empty(), groups, redaction, note)) == joined(chunks),
        remarks_from(rewritten(chunks, Seq::empty(), groups, redaction, note), 0) == remarks_from(
            chunks,
            0,
        ),
{
    let search = search_text(chunks);
    let redactions = redactions_of(chunks);
    let empty = Seq::<char>::empty();
    lemma_slice_all(search);
    assert(vstd::utf8::encode_utf8(search).subrange(0, 0) =~= Seq::<u8>::empty());
    assert(byte_slice(search, 0, 0) =~= empty);
    lemma_split_restores(empty, chunks, redactions, 0, 0);
    assert(empty + search =~= search);
    assert(empty + joined(chunks) =~= joined(chunks));
    assert(utf8_len(empty) == 0);
    if search.len() == 0 {
        lemma_first_nul_after(empty, empty);
        lemma_single_chunk(ChunkView::Text { text: empty }, 0);
        assert(search =~= empty);
    }
}

} // verus!
