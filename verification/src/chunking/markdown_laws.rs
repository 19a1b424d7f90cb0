//! Laws of the Markdown chunker.

use crate::chunking::markdown::{
    blank_line, closed, code_closed, code_text, event_chunks, heading_apart, pack, pack_from,
    section_blocks, section_chunks, section_closed, segment_closed, walk, walk_start, walk_step,
    without_last_newlines, EventView, WalkView,
};
use crate::chunking::window::{windows, windows_fit};
use crate::chunking::{document_shape, WINDOW_CHARS};
use crate::text::trim_spec;
use vstd::prelude::*;

verus! {

/// No text of the list is empty.
pub open spec fn none_empty(texts: Seq<Seq<char>>) -> bool {
    forall|i: int| 0 <= i < texts.len() ==> (#[trigger] texts[i]).len() > 0
}

/// No text of the list exceeds the window.
pub open spec fn all_fit(texts: Seq<Seq<char>>) -> bool {
    forall|i: int| 0 <= i < texts.len() ==> (#[trigger] texts[i]).len() <= WINDOW_CHARS
}

proof fn pack_from_shape(current: Seq<char>, blocks: Seq<Seq<char>>)
    requires
        current.len() <= WINDOW_CHARS,
        none_empty(blocks),
    ensures
        none_empty(pack_from(current, blocks)),
        all_fit(pack_from(current, blocks)),
        current.len() > 0 || blocks.len() > 0 ==> pack_from(current, blocks).len() > 0,
    decreases blocks.len(),
{
    if blocks.len() > 0 {
        let block = blocks[0];
        let rest = blocks.skip(1);
        assert(none_empty(rest)) by {
            assert forall|i: int| 0 <= i < rest.len() implies (#[trigger] rest[i]).len() > 0 by {
                assert(rest[i] == blocks[i + 1]);
            }
        }
        if block.len() > WINDOW_CHARS {
            windows_fit(block);
            pack_from_shape(Seq::empty(), rest);
        } else if current.len() == 0 {
            pack_from_shape(block, rest);
        } else if current.len() + 2 + block.len() <= WINDOW_CHARS {
            pack_from_shape(current + blank_line() + block, rest);
        } else {
            pack_from_shape(block, rest);
        }
    }
}

/// Packing blocks with text gives chunks with text, none above the window.
pub proof fn pack_shape(blocks: Seq<Seq<char>>)
    requires
        none_empty(blocks),
    ensures
        none_empty(pack(blocks)),
        all_fit(pack(blocks)),
        blocks.len() > 0 ==> pack(blocks).len() > 0,
{
    pack_from_shape(Seq::empty(), blocks);
}

/// What the walk keeps: no closed block and no emitted chunk is empty, and no
/// chunk exceeds the window.
pub open spec fn walk_ok(w: WalkView) -> bool {
    none_empty(w.segments) && none_empty(w.chunks) && all_fit(w.chunks)
}

proof fn section_closed_ok(w: WalkView)
    requires
        walk_ok(w),
    ensures
        walk_ok(section_closed(w)),
{
    let s = segment_closed(w);
    let blocks = section_blocks(trim_spec(s.heading), s.segments);
    assert(none_empty(s.segments));
    assert(none_empty(blocks));
    pack_shape(blocks);
}

/// Every event keeps the walk's invariant.
pub proof fn walk_step_keeps(w: WalkView, event: EventView)
    requires
        walk_ok(w),
    ensures
        walk_ok(walk_step(w, event)),
{
    section_closed_ok(w);
}

/// The invariant holds after any events.
pub proof fn walk_keeps(w: WalkView, events: Seq<EventView>)
    requires
        walk_ok(w),
    ensures
        walk_ok(walk(w, events)),
    decreases events.len(),
{
    if events.len() > 0 {
        walk_keeps(w, events.drop_last());
        walk_step_keeps(walk(w, events.drop_last()), events.last());
    }
}

/// Every Markdown document owns a chunk, no chunk exceeds the window, and an
/// empty body stands only in the lone placeholder.
pub proof fn markdown_document_shape(events: Seq<EventView>)
    ensures
        document_shape(event_chunks(events)),
{
    walk_keeps(walk_start(), events);
    section_closed_ok(walk(walk_start(), events));
}

/// Walking two runs of events one after the other is walking them joined.
pub proof fn walk_concat(w: WalkView, a: Seq<EventView>, b: Seq<EventView>)
    ensures
        walk(w, a + b) == walk(walk(w, a), b),
    decreases b.len(),
{
    if b.len() == 0 {
        assert(a + b =~= a);
    } else {
        walk_concat(w, a, b.drop_last());
        assert((a + b).drop_last() =~= a + b.drop_last());
        assert((a + b).last() == b.last());
    }
}

/// `w` with `before` put in front of its chunks.
pub open spec fn after_chunks(before: Seq<Seq<char>>, w: WalkView) -> WalkView {
    WalkView { chunks: before + w.chunks, ..w }
}

proof fn walk_after_chunks(before: Seq<Seq<char>>, w: WalkView, events: Seq<EventView>)
    ensures
        walk(after_chunks(before, w), events) == after_chunks(before, walk(w, events)),
    decreases events.len(),
{
    if events.len() > 0 {
        walk_after_chunks(before, w, events.drop_last());
        let v = walk(w, events.drop_last());
        let s = segment_closed(v);
        let added = pack(section_blocks(trim_spec(s.heading), s.segments));
        assert((before + s.chunks) + added =~= before + (s.chunks + added));
    }
}

/// The state right after a heading has opened: nothing is left of what came
/// before but whether the walk is inside metadata.
pub open spec fn fresh_section(in_metadata: bool) -> WalkView {
    WalkView { in_heading: true, in_metadata, ..walk_start() }
}

/// Every heading starts a new section: the chunks of a document are those of
/// what stands before a heading, followed by those of the rest alone.
pub proof fn heading_starts_a_section(a: Seq<EventView>, b: Seq<EventView>)
    ensures
        section_chunks(a.push(EventView::StartHeading) + b) == section_chunks(a) + section_closed(
            walk(fresh_section(walk(walk_start(), a).in_metadata), b),
        ).chunks,
{
    let head = a.push(EventView::StartHeading);
    walk_concat(walk_start(), head, b);
    assert(head.drop_last() =~= a);
    let w = walk(walk_start(), a);
    let opened = walk(walk_start(), head);
    let fresh = fresh_section(w.in_metadata);
    assert(fresh.chunks =~= Seq::empty());
    assert(section_chunks(a) + fresh.chunks =~= section_chunks(a));
    assert(opened == after_chunks(section_chunks(a), fresh));
    walk_after_chunks(section_chunks(a), fresh, b);
    let v = walk(fresh, b);
    let s = segment_closed(v);
    let added = pack(section_blocks(trim_spec(s.heading), s.segments));
    assert((section_chunks(a) + s.chunks) + added =~= section_chunks(a) + (s.chunks + added));
}

/// Events that carry text or a line break.
pub open spec fn is_inline(event: EventView) -> bool {
    event is Text || event is Code || event is SoftBreak || event is HardBreak
}

proof fn metadata_ignores(w: WalkView, events: Seq<EventView>)
    requires
        w.in_metadata,
        forall|i: int| 0 <= i < events.len() ==> is_inline(#[trigger] events[i]),
    ensures
        walk(w, events) == w,
    decreases events.len(),
{
    if events.len() > 0 {
        assert(is_inline(events[events.len() - 1]));
        assert forall|i: int| 0 <= i < events.drop_last().len() implies is_inline(
            #[trigger] events.drop_last()[i],
        ) by {
            assert(events.drop_last()[i] == events[i]);
        }
        metadata_ignores(w, events.drop_last());
    }
}

/// Front matter is dropped: a metadata block leaves the walk as it was, so no
/// text of it reaches a chunk.
pub proof fn metadata_is_dropped(w: WalkView, inside: Seq<EventView>)
    requires
        !w.in_metadata,
        forall|i: int| 0 <= i < inside.len() ==> is_inline(#[trigger] inside[i]),
    ensures
        walk(w, seq![EventView::StartMetadata] + inside + seq![EventView::EndMetadata]) == w,
{
    let open = seq![EventView::StartMetadata];
    let close = seq![EventView::EndMetadata];
    walk_concat(w, open + inside, close);
    walk_concat(w, open, inside);
    let entered = WalkView { in_metadata: true, ..w };
    assert(open.drop_last() =~= Seq::empty());
    assert(walk(w, Seq::<EventView>::empty()) == w);
    assert(walk(w, open) == walk_step(walk(w, open.drop_last()), open.last()));
    assert(walk(w, open) == entered);
    metadata_ignores(entered, inside);
    assert(close.drop_last() =~= Seq::empty());
    assert(walk(entered, Seq::<EventView>::empty()) == entered);
    assert(walk(entered, close) == walk_step(walk(entered, close.drop_last()), close.last()));
}

/// The texts of a list, one after the other.
pub open spec fn concat(texts: Seq<Seq<char>>) -> Seq<char>
    decreases texts.len(),
{
    if texts.len() == 0 {
        Seq::empty()
    } else {
        concat(texts.drop_last()) + texts.last()
    }
}

/// One text event per text.
pub open spec fn text_events(texts: Seq<Seq<char>>) -> Seq<EventView> {
    texts.map_values(|t: Seq<char>| EventView::Text(t))
}

proof fn texts_accumulate(w: WalkView, texts: Seq<Seq<char>>)
    requires
        !w.in_metadata,
        !w.in_heading,
    ensures
        walk(w, text_events(texts)) == (WalkView { segment: w.segment + concat(texts), ..w }),
    decreases texts.len(),
{
    if texts.len() == 0 {
        assert(w.segment + concat(texts) =~= w.segment);
    } else {
        texts_accumulate(w, texts.drop_last());
        assert(text_events(texts).drop_last() =~= text_events(texts.drop_last()));
        assert(text_events(texts).last() == EventView::Text(texts.last()));
        assert(w.segment + concat(texts.drop_last()) + texts.last() =~= w.segment + concat(texts));
    }
}

/// The events of a code block with the given pieces of text.
pub open spec fn code_block(texts: Seq<Seq<char>>) -> Seq<EventView> {
    seq![EventView::StartCodeBlock] + text_events(texts) + seq![EventView::EndCodeBlock]
}

/// A code block is one segment, whatever lines stand in it: the block before
/// it closes, and the block's text is the one segment that it adds.
pub proof fn code_block_is_one_segment(w: WalkView, lines: Seq<Seq<char>>)
    requires
        !w.in_metadata,
        !w.in_heading,
    ensures
        walk(w, code_block(lines)) == (WalkView {
            segments: segment_closed(w).segments + closed(code_text(concat(lines))),
            ..segment_closed(w)
        }),
{
    let open = seq![EventView::StartCodeBlock];
    let inside = text_events(lines);
    let close = seq![EventView::EndCodeBlock];
    walk_concat(w, open + inside, close);
    walk_concat(w, open, inside);
    assert(open.drop_last() =~= Seq::empty());
    assert(walk(w, Seq::<EventView>::empty()) == w);
    assert(walk(w, open) == walk_step(walk(w, open.drop_last()), open.last()));
    let entered = segment_closed(w);
    assert(walk(w, open) == entered);
    texts_accumulate(entered, lines);
    assert(entered.segment + concat(lines) =~= concat(lines));
    let filled = WalkView { segment: concat(lines), ..entered };
    assert(close.drop_last() =~= Seq::empty());
    assert(walk(filled, Seq::<EventView>::empty()) == filled);
    assert(walk(filled, close) == walk_step(walk(filled, close.drop_last()), close.last()));
    assert(walk(filled, close) == code_closed(filled));
}

/// The contents of a code block stay verbatim, the indentation of its first
/// line included: only the line feeds after its last line go.
pub proof fn code_is_verbatim(body: Seq<char>, newlines: Seq<char>)
    requires
        trim_spec(body).len() > 0,
        body.last() != '\n',
        forall|i: int| 0 <= i < newlines.len() ==> #[trigger] newlines[i] == '\n',
    ensures
        code_text(body + newlines) == body,
    decreases newlines.len(),
{
    if newlines.len() == 0 {
        assert(body + newlines =~= body);
    } else {
        let fewer = newlines.drop_last();
        let whole = body + newlines;
        assert(newlines[newlines.len() - 1] == '\n');
        assert forall|i: int| 0 <= i < fewer.len() implies #[trigger] fewer[i] == '\n' by {
            assert(fewer[i] == newlines[i]);
        }
        code_is_verbatim(body, fewer);
        assert(whole.drop_last() =~= body + fewer);
        assert(without_last_newlines(whole) == without_last_newlines(body + fewer));
    }
}

/// `texts` with a blank line between neighbours.
pub open spec fn joined(texts: Seq<Seq<char>>) -> Seq<char>
    decreases texts.len(),
{
    if texts.len() == 0 {
        Seq::empty()
    } else if texts.len() == 1 {
        texts[0]
    } else {
        texts[0] + blank_line() + joined(texts.skip(1))
    }
}

/// `current` before `blocks`, as one list.
pub open spec fn with_open(current: Seq<char>, blocks: Seq<Seq<char>>) -> Seq<Seq<char>> {
    closed(current) + blocks
}

proof fn pack_from_joined(current: Seq<char>, blocks: Seq<Seq<char>>)
    requires
        current.len() <= WINDOW_CHARS,
        none_empty(blocks),
        all_fit(blocks),
    ensures
        joined(pack_from(current, blocks)) == joined(with_open(current, blocks)),
    decreases blocks.len(),
{
    let all = with_open(current, blocks);
    if blocks.len() == 0 {
        assert(all =~= closed(current));
    } else {
        let block = blocks[0];
        let rest = blocks.skip(1);
        assert forall|i: int| 0 <= i < rest.len() implies (#[trigger] rest[i]).len() > 0
            && rest[i].len() <= WINDOW_CHARS by {
            assert(rest[i] == blocks[i + 1]);
        }
        assert(block.len() > 0 && block.len() <= WINDOW_CHARS);
        if current.len() == 0 {
            pack_from_joined(block, rest);
            assert(with_open(block, rest) =~= blocks);
            assert(all =~= blocks);
        } else if current.len() + 2 + block.len() <= WINDOW_CHARS {
            let merged = current + blank_line() + block;
            pack_from_joined(merged, rest);
            assert(all.skip(1) =~= blocks);
            let short = with_open(merged, rest);
            if rest.len() == 0 {
                assert(joined(blocks) == block);
                assert(joined(short) =~= joined(all));
            } else {
                assert(short.skip(1) =~= rest);
                assert(joined(blocks) == block + blank_line() + joined(rest));
                assert(joined(short) =~= joined(all));
            }
        } else {
            pack_from_joined(block, rest);
            let packed = pack_from(block, rest);
            pack_from_shape(block, rest);
            assert(with_open(block, rest) =~= blocks);
            let whole = seq![current] + packed;
            assert(whole.skip(1) =~= packed);
            assert(all.skip(1) =~= blocks);
            assert(joined(whole) == current + blank_line() + joined(packed));
        }
    }
}

/// Packing blocks that fit the window only groups them: joined by blank lines,
/// the chunks spell what the blocks spell.
pub proof fn packing_loses_nothing(blocks: Seq<Seq<char>>)
    requires
        none_empty(blocks),
        all_fit(blocks),
    ensures
        joined(pack(blocks)) == joined(blocks),
{
    pack_from_joined(Seq::empty(), blocks);
    assert(with_open(Seq::empty(), blocks) =~= blocks);
}

/// `part` stands in `text` in one piece.
pub open spec fn holds(text: Seq<char>, part: Seq<char>) -> bool {
    exists|at: int| 0 <= at && at + part.len() <= text.len() && #[trigger] text.subrange(
        at,
        at + part.len(),
    ) == part
}

/// Some text of the list holds `part` in one piece.
pub open spec fn held(texts: Seq<Seq<char>>, part: Seq<char>) -> bool {
    exists|i: int| 0 <= i < texts.len() && holds(#[trigger] texts[i], part)
}

proof fn held_in_tail(front: Seq<Seq<char>>, tail: Seq<Seq<char>>, part: Seq<char>)
    requires
        held(tail, part),
    ensures
        held(front + tail, part),
{
    let i = choose|i: int| 0 <= i < tail.len() && holds(#[trigger] tail[i], part);
    assert((front + tail)[front.len() + i] == tail[i]);
}

proof fn holds_through(text: Seq<char>, middle: Seq<char>, part: Seq<char>)
    requires
        holds(text, middle),
        holds(middle, part),
    ensures
        holds(text, part),
{
    let a = choose|at: int| 0 <= at && at + middle.len() <= text.len() && #[trigger] text.subrange(
        at,
        at + middle.len(),
    ) == middle;
    let b = choose|at: int| 0 <= at && at + part.len() <= middle.len() && #[trigger]
        middle.subrange(at, at + part.len()) == part;
    assert(text.subrange(a + b, a + b + part.len()) =~= middle.subrange(b, b + part.len()));
}

proof fn open_chunk_is_held(current: Seq<char>, blocks: Seq<Seq<char>>)
    requires
        0 < current.len() <= WINDOW_CHARS,
    ensures
        held(pack_from(current, blocks), current),
    decreases blocks.len(),
{
    assert(current.subrange(0, 0int + current.len()) =~= current);
    assert(holds(current, current));
    let packed = pack_from(current, blocks);
    if blocks.len() == 0 {
        assert(packed[0] == current);
    } else {
        let block = blocks[0];
        if block.len() <= WINDOW_CHARS && current.len() + 2 + block.len() <= WINDOW_CHARS {
            let merged = current + blank_line() + block;
            open_chunk_is_held(merged, blocks.skip(1));
            assert(merged.subrange(0, 0int + current.len()) =~= current);
            let i = choose|i: int| 0 <= i < packed.len() && holds(#[trigger] packed[i], merged);
            holds_through(packed[i], merged, current);
        } else {
            assert(packed[0] == current);
        }
    }
}

proof fn block_is_held(current: Seq<char>, blocks: Seq<Seq<char>>, k: int)
    requires
        current.len() <= WINDOW_CHARS,
        0 <= k < blocks.len(),
        0 < blocks[k].len() <= WINDOW_CHARS,
    ensures
        held(pack_from(current, blocks), blocks[k]),
    decreases blocks.len(),
{
    let block = blocks[0];
    let rest = blocks.skip(1);
    let part = blocks[k];
    let packed = pack_from(current, blocks);
    if k > 0 {
        assert(part == rest[k - 1]);
        if block.len() > WINDOW_CHARS {
            block_is_held(Seq::empty(), rest, k - 1);
            held_in_tail(closed(current) + windows(block), pack_from(Seq::empty(), rest), part);
        } else if current.len() == 0 {
            block_is_held(block, rest, k - 1);
        } else if current.len() + 2 + block.len() <= WINDOW_CHARS {
            block_is_held(current + blank_line() + block, rest, k - 1);
        } else {
            block_is_held(block, rest, k - 1);
            held_in_tail(seq![current], pack_from(block, rest), part);
        }
    } else if current.len() == 0 {
        open_chunk_is_held(block, rest);
    } else if current.len() + 2 + block.len() <= WINDOW_CHARS {
        let merged = current + blank_line() + block;
        open_chunk_is_held(merged, rest);
        let at = current.len() + 2int;
        assert(merged.subrange(at, at + block.len()) =~= block);
        let i = choose|i: int| 0 <= i < packed.len() && holds(#[trigger] packed[i], merged);
        holds_through(packed[i], merged, block);
    } else {
        open_chunk_is_held(block, rest);
        held_in_tail(seq![current], pack_from(block, rest), part);
    }
}

/// A block that fits the window is never cut: some chunk holds it in one piece.
pub proof fn fitting_block_is_never_cut(blocks: Seq<Seq<char>>, k: int)
    requires
        0 <= k < blocks.len(),
        0 < blocks[k].len() <= WINDOW_CHARS,
    ensures
        held(pack(blocks), blocks[k]),
{
    block_is_held(Seq::empty(), blocks, k);
}

/// A segment that fits the window is never cut, be it the first under a heading
/// or not: some chunk of its section holds it in one piece.
pub proof fn fitting_segment_is_never_cut(
    heading: Seq<char>,
    segments: Seq<Seq<char>>,
    k: int,
)
    requires
        0 <= k < segments.len(),
        0 < segments[k].len() <= WINDOW_CHARS,
    ensures
        held(pack(section_blocks(heading, segments)), segments[k]),
{
    let blocks = section_blocks(heading, segments);
    let part = segments[k];
    if heading.len() == 0 {
        fitting_block_is_never_cut(blocks, k);
    } else if heading_apart(heading, segments[0]) {
        assert(blocks[k + 1] == part);
        fitting_block_is_never_cut(blocks, k + 1);
    } else if k > 0 {
        assert(blocks[k] == part);
        fitting_block_is_never_cut(blocks, k);
    } else {
        let merged = heading + blank_line() + part;
        assert(blocks[0] == merged);
        fitting_block_is_never_cut(blocks, 0);
        let at = heading.len() + 2int;
        assert(merged.subrange(at, at + part.len()) =~= part);
        let chunks = pack(blocks);
        let i = choose|i: int| 0 <= i < chunks.len() && holds(#[trigger] chunks[i], merged);
        holds_through(chunks[i], merged, part);
    }
}

/// The walk holds `part` as a closed block of the open section, or in one piece
/// inside an emitted chunk.
pub open spec fn kept_whole(w: WalkView, part: Seq<char>) -> bool {
    w.segments.contains(part) || held(w.chunks, part)
}

proof fn held_in_front(front: Seq<Seq<char>>, tail: Seq<Seq<char>>, part: Seq<char>)
    requires
        held(front, part),
    ensures
        held(front + tail, part),
{
    let i = choose|i: int| 0 <= i < front.len() && holds(#[trigger] front[i], part);
    assert((front + tail)[i] == front[i]);
}

proof fn closed_section_keeps(w: WalkView, part: Seq<char>)
    requires
        0 < part.len() <= WINDOW_CHARS,
        kept_whole(w, part),
    ensures
        held(section_closed(w).chunks, part),
{
    let s = segment_closed(w);
    let heading = trim_spec(s.heading);
    let added = pack(section_blocks(heading, s.segments));
    if w.segments.contains(part) {
        let k = choose|k: int| 0 <= k < w.segments.len() && w.segments[k] == part;
        assert(s.segments[k] == part);
        fitting_segment_is_never_cut(heading, s.segments, k);
        held_in_tail(s.chunks, added, part);
    } else {
        held_in_front(s.chunks, added, part);
    }
}

proof fn walk_keeps_whole(w: WalkView, events: Seq<EventView>, part: Seq<char>)
    requires
        0 < part.len() <= WINDOW_CHARS,
        kept_whole(w, part),
    ensures
        kept_whole(walk(w, events), part),
    decreases events.len(),
{
    if events.len() > 0 {
        let v = walk(w, events.drop_last());
        walk_keeps_whole(w, events.drop_last(), part);
        closed_section_keeps(v, part);
        if v.segments.contains(part) {
            let k = choose|k: int| 0 <= k < v.segments.len() && v.segments[k] == part;
            assert(segment_closed(v).segments[k] == part);
            assert(code_closed(v).segments[k] == part);
        }
    }
}

/// A code block that alone fits the window is never split: wherever it stands in
/// a document, some chunk holds its text in one piece.
pub proof fn fitting_code_block_is_never_split(
    before: Seq<EventView>,
    lines: Seq<Seq<char>>,
    after: Seq<EventView>,
)
    requires
        !walk(walk_start(), before).in_metadata,
        !walk(walk_start(), before).in_heading,
        0 < code_text(concat(lines)).len() <= WINDOW_CHARS,
    ensures
        held(section_chunks(before + code_block(lines) + after), code_text(concat(lines))),
{
    let part = code_text(concat(lines));
    let w = walk(walk_start(), before);
    let v = walk(w, code_block(lines));
    walk_concat(walk_start(), before, code_block(lines));
    walk_concat(walk_start(), before + code_block(lines), after);
    code_block_is_one_segment(w, lines);
    assert(v.segments[v.segments.len() - 1] == part);
    assert(v.segments.contains(part));
    walk_keeps_whole(v, after, part);
    closed_section_keeps(walk(v, after), part);
}

/// The blocks of runs, one after the other.
pub open spec fn flat(runs: Seq<Seq<Seq<char>>>) -> Seq<Seq<char>>
    decreases runs.len(),
{
    if runs.len() == 0 {
        Seq::empty()
    } else {
        runs[0] + flat(runs.skip(1))
    }
}

/// Every run, joined by blank lines, fits the window.
pub open spec fn runs_fit(runs: Seq<Seq<Seq<char>>>) -> bool {
    forall|i: int| 0 <= i < runs.len() ==> joined(#[trigger] runs[i]).len() <= WINDOW_CHARS
}

proof fn later_runs_fit(runs: Seq<Seq<Seq<char>>>)
    requires
        runs_fit(runs),
        runs.len() > 0,
    ensures
        runs_fit(runs.skip(1)),
{
    let rest = runs.skip(1);
    assert forall|i: int| 0 <= i < rest.len() implies joined(#[trigger] rest[i]).len()
        <= WINDOW_CHARS by {
        assert(rest[i] == runs[i + 1]);
    }
}

/// The runs without the first block of the first run.
spec fn without_first(runs: Seq<Seq<Seq<char>>>) -> Seq<Seq<Seq<char>>> {
    seq![runs[0].skip(1)] + runs.skip(1)
}

proof fn without_first_divides(runs: Seq<Seq<Seq<char>>>)
    requires
        runs.len() > 0,
        runs[0].len() > 0,
        runs_fit(runs),
    ensures
        flat(runs).len() > 0,
        flat(runs)[0] == runs[0][0],
        flat(without_first(runs)) == flat(runs).skip(1),
        runs_fit(without_first(runs)),
        joined(runs[0]).len() == runs[0][0].len() + (if runs[0].len() > 1 {
            2 + joined(runs[0].skip(1)).len()
        } else {
            0
        }),
{
    let fewer = without_first(runs);
    assert(fewer.skip(1) =~= runs.skip(1));
    assert(flat(fewer) =~= flat(runs).skip(1));
    assert(joined(runs[0]).len() <= WINDOW_CHARS);
    if runs[0].len() == 1 {
        assert(runs[0].skip(1) =~= Seq::empty());
    }
    assert forall|i: int| 0 <= i < fewer.len() implies joined(#[trigger] fewer[i]).len()
        <= WINDOW_CHARS by {
        if i > 0 {
            assert(fewer[i] == runs[i]);
        }
    }
}

/// With `current` in the open chunk, packing needs at most one chunk more than
/// there are runs, and none more where the first run still fits the open chunk.
proof fn pack_from_needs_few(current: Seq<char>, runs: Seq<Seq<Seq<char>>>)
    requires
        0 < current.len() <= WINDOW_CHARS,
        none_empty(flat(runs)),
        all_fit(flat(runs)),
        runs_fit(runs),
    ensures
        pack_from(current, flat(runs)).len() <= 1 + runs.len(),
        runs.len() > 0 && (runs[0].len() == 0 || current.len() + 2 + joined(runs[0]).len()
            <= WINDOW_CHARS) ==> pack_from(current, flat(runs)).len() <= runs.len(),
    decreases flat(runs).len(), runs.len(),
{
    let blocks = flat(runs);
    if runs.len() > 0 {
        if runs[0].len() == 0 {
            later_runs_fit(runs);
            assert(flat(runs.skip(1)) =~= blocks);
            pack_from_needs_few(current, runs.skip(1));
        } else {
            let block = runs[0][0];
            let rest = blocks.skip(1);
            let fewer = without_first(runs);
            without_first_divides(runs);
            assert(block == blocks[0]);
            assert(0 < block.len() <= WINDOW_CHARS);
            assert forall|i: int| 0 <= i < rest.len() implies (#[trigger] rest[i]).len() > 0
                && rest[i].len() <= WINDOW_CHARS by {
                assert(rest[i] == blocks[i + 1]);
            }
            if current.len() + 2 + block.len() <= WINDOW_CHARS {
                pack_from_needs_few(current + blank_line() + block, fewer);
            } else {
                pack_from_needs_few(block, fewer);
            }
        }
    }
}

/// Packing wastes no chunk: however fitting blocks are divided into runs of
/// neighbours that fit the window, there are no fewer runs than chunks.
pub proof fn packing_needs_fewest_chunks(
    blocks: Seq<Seq<char>>,
    runs: Seq<Seq<Seq<char>>>,
)
    requires
        none_empty(blocks),
        all_fit(blocks),
        flat(runs) == blocks,
        runs_fit(runs),
    ensures
        pack(blocks).len() <= runs.len(),
    decreases runs.len(),
{
    if runs.len() > 0 {
        if runs[0].len() == 0 {
            later_runs_fit(runs);
            assert(flat(runs.skip(1)) =~= blocks);
            packing_needs_fewest_chunks(blocks, runs.skip(1));
        } else {
            let block = blocks[0];
            let rest = blocks.skip(1);
            without_first_divides(runs);
            assert(0 < block.len() <= WINDOW_CHARS);
            assert forall|i: int| 0 <= i < rest.len() implies (#[trigger] rest[i]).len() > 0
                && rest[i].len() <= WINDOW_CHARS by {
                assert(rest[i] == blocks[i + 1]);
            }
            pack_from_needs_few(block, without_first(runs));
        }
    }
}

proof fn pack_from_around_oversized(
    current: Seq<char>,
    before: Seq<Seq<char>>,
    block: Seq<char>,
    after: Seq<Seq<char>>,
)
    requires
        block.len() > WINDOW_CHARS,
    ensures
        pack_from(current, before + seq![block] + after) == pack_from(current, before) + windows(
            block,
        ) + pack(after),
    decreases before.len(),
{
    let all = before + seq![block] + after;
    if before.len() == 0 {
        assert(all[0] == block);
        assert(all.skip(1) =~= after);
    } else {
        let rest = before.skip(1);
        let first = before[0];
        assert(all[0] == first);
        assert(all.skip(1) =~= rest + seq![block] + after);
        if first.len() > WINDOW_CHARS {
            pack_from_around_oversized(Seq::empty(), rest, block, after);
            assert(closed(current) + windows(first) + (pack_from(Seq::empty(), rest) + windows(
                block,
            ) + pack(after)) =~= closed(current) + windows(first) + pack_from(Seq::empty(), rest)
                + windows(block) + pack(after));
        } else if current.len() == 0 {
            pack_from_around_oversized(first, rest, block, after);
        } else if current.len() + 2 + first.len() <= WINDOW_CHARS {
            pack_from_around_oversized(current + blank_line() + first, rest, block, after);
        } else {
            pack_from_around_oversized(first, rest, block, after);
            assert(seq![current] + (pack_from(first, rest) + windows(block) + pack(after))
                =~= seq![current] + pack_from(first, rest) + windows(block) + pack(after));
        }
    }
}

/// A block above the window stands alone: what comes before and after it is
/// packed as if it were not there, and between them stand its windows.
pub proof fn oversized_block_stands_alone(
    before: Seq<Seq<char>>,
    block: Seq<char>,
    after: Seq<Seq<char>>,
)
    requires
        block.len() > WINDOW_CHARS,
    ensures
        pack(before + seq![block] + after) == pack(before) + windows(block) + pack(after),
{
    pack_from_around_oversized(Seq::empty(), before, block, after);
}

proof fn open_chunk_leads(current: Seq<char>, blocks: Seq<Seq<char>>)
    requires
        0 < current.len() <= WINDOW_CHARS,
    ensures
        pack_from(current, blocks).len() > 0,
        current.is_prefix_of(pack_from(current, blocks)[0]),
    decreases blocks.len(),
{
    if blocks.len() > 0 {
        let block = blocks[0];
        if block.len() <= WINDOW_CHARS && current.len() + 2 + block.len() <= WINDOW_CHARS {
            open_chunk_leads(current + blank_line() + block, blocks.skip(1));
        }
    }
}

/// A heading leads the first chunk of its section; a heading above the window
/// leads it as far as the window goes.
pub proof fn heading_leads_its_section(heading: Seq<char>, segments: Seq<Seq<char>>)
    requires
        heading.len() > 0,
    ensures
        pack(section_blocks(heading, segments)).len() > 0,
        heading.len() <= WINDOW_CHARS ==> heading.is_prefix_of(
            pack(section_blocks(heading, segments))[0],
        ),
        heading.len() > WINDOW_CHARS ==> pack(section_blocks(heading, segments))[0]
            == heading.take(WINDOW_CHARS as int),
{
    let blocks = section_blocks(heading, segments);
    let first = blocks[0];
    assert(heading.is_prefix_of(first));
    if first.len() > WINDOW_CHARS {
        windows_fit(first);
        assert(pack(blocks)[0] == windows(first)[0]);
        assert(windows(first)[0] =~= first.take(WINDOW_CHARS as int));
        if heading.len() > WINDOW_CHARS {
            assert(first.take(WINDOW_CHARS as int) =~= heading.take(WINDOW_CHARS as int));
        }
    } else {
        open_chunk_leads(first, blocks.skip(1));
    }
}

/// A heading without text beneath it still yields a chunk: the heading alone.
pub proof fn lone_heading_is_a_chunk(heading: Seq<char>)
    requires
        0 < heading.len() <= WINDOW_CHARS,
    ensures
        pack(section_blocks(heading, Seq::empty())) == seq![heading],
{
    let blocks = section_blocks(heading, Seq::empty());
    assert(blocks =~= seq![heading]);
    assert(blocks.skip(1) =~= Seq::empty());
    assert(pack_from(heading, blocks.skip(1)) == closed(heading));
}

proof fn concat_is_flat(texts: Seq<Seq<char>>)
    ensures
        concat(texts) == texts.flatten(),
    decreases texts.len(),
{
    texts.lemma_flatten_and_flatten_alt_are_equivalent();
    if texts.len() > 0 {
        concat_is_flat(texts.drop_last());
        texts.drop_last().lemma_flatten_and_flatten_alt_are_equivalent();
    }
}

/// `texts` are what the events of a line of text carry: a text or a piece of
/// code itself, a line feed for each soft or hard break, and nothing for what
/// only marks the text.
pub open spec fn spells(events: Seq<EventView>, texts: Seq<Seq<char>>) -> bool {
    &&& events.len() == texts.len()
    &&& forall|i: int|
        0 <= i < events.len() ==> match #[trigger] events[i] {
            EventView::Text(t) => texts[i] == t,
            EventView::Code(t) => texts[i] == t,
            EventView::SoftBreak => texts[i] == seq!['\n'],
            EventView::HardBreak => texts[i] == seq!['\n'],
            EventView::Other => texts[i].len() == 0,
            _ => false,
        }
}

proof fn spells_shorter(events: Seq<EventView>, texts: Seq<Seq<char>>)
    requires
        spells(events, texts),
        events.len() > 0,
    ensures
        spells(events.drop_last(), texts.drop_last()),
        spells(events, texts) ==> match events.last() {
            EventView::Text(t) => texts.last() == t,
            EventView::Code(t) => texts.last() == t,
            EventView::SoftBreak => texts.last() == seq!['\n'],
            EventView::HardBreak => texts.last() == seq!['\n'],
            EventView::Other => texts.last() == Seq::<char>::empty(),
            _ => false,
        },
{
    let short = events.drop_last();
    assert forall|i: int| 0 <= i < short.len() implies match #[trigger] short[i] {
        EventView::Text(t) => texts.drop_last()[i] == t,
        EventView::Code(t) => texts.drop_last()[i] == t,
        EventView::SoftBreak => texts.drop_last()[i] == seq!['\n'],
        EventView::HardBreak => texts.drop_last()[i] == seq!['\n'],
        EventView::Other => texts.drop_last()[i].len() == 0,
        _ => false,
    } by {
        assert(short[i] == events[i]);
    }
    let last = events[events.len() - 1];
    if last is Other {
        assert(texts.last() =~= Seq::empty());
    }
}

proof fn inline_accumulates(w: WalkView, events: Seq<EventView>, texts: Seq<Seq<char>>)
    requires
        !w.in_metadata,
        spells(events, texts),
    ensures
        walk(w, events) == (if w.in_heading {
            WalkView { heading: w.heading + concat(texts), ..w }
        } else {
            WalkView { segment: w.segment + concat(texts), ..w }
        }),
    decreases events.len(),
{
    if events.len() == 0 {
        assert(w.segment + concat(texts) =~= w.segment);
        assert(w.heading + concat(texts) =~= w.heading);
    } else {
        spells_shorter(events, texts);
        inline_accumulates(w, events.drop_last(), texts.drop_last());
        let before = concat(texts.drop_last());
        assert(w.segment + before + texts.last() =~= w.segment + concat(texts));
        assert(w.heading + before + texts.last() =~= w.heading + concat(texts));
        assert(w.segment + before + Seq::<char>::empty() =~= w.segment + before);
        assert(w.heading + before + Seq::<char>::empty() =~= w.heading + before);
    }
}

/// The event ends the block before it.
pub open spec fn closes_a_block(event: EventView) -> bool {
    event is EndParagraph || event is Rule || event is StartCodeBlock
}

/// A paragraph is one segment with all of its text, the white space between its
/// words included: the texts of its events one after the other, a line feed for
/// each break, trimmed at the ends, whatever heading the section has and
/// whatever came before. One without text adds none.
pub proof fn paragraph_is_one_segment(
    w: WalkView,
    inside: Seq<EventView>,
    texts: Seq<Seq<char>>,
    close: EventView,
)
    requires
        !w.in_metadata,
        !w.in_heading,
        w.segment.len() == 0,
        spells(inside, texts),
        closes_a_block(close),
    ensures
        ({
            let text = trim_spec(texts.flatten());
            walk(w, inside.push(close)) == (WalkView {
                segments: if text.len() == 0 {
                    w.segments
                } else {
                    w.segments.push(text)
                },
                ..w
            })
        }),
{
    inline_accumulates(w, inside, texts);
    concat_is_flat(texts);
    assert(inside.push(close).drop_last() =~= inside);
    assert(w.segment =~= Seq::empty());
    assert(w.segment + concat(texts) =~= texts.flatten());
    assert(walk(w, inside.push(close)).segment =~= w.segment);
}

/// A heading closes the section before it and is read whole: the texts of its
/// events one after the other.
pub proof fn heading_is_its_text(w: WalkView, inside: Seq<EventView>, texts: Seq<Seq<char>>)
    requires
        !w.in_metadata,
        spells(inside, texts),
    ensures
        walk(w, seq![EventView::StartHeading] + inside + seq![EventView::EndHeading]) == (
        WalkView {
            heading: texts.flatten(),
            segment: Seq::empty(),
            segments: Seq::empty(),
            in_heading: false,
            in_metadata: false,
            chunks: section_closed(w).chunks,
        }),
{
    let open = seq![EventView::StartHeading];
    let close = seq![EventView::EndHeading];
    walk_concat(w, open + inside, close);
    walk_concat(w, open, inside);
    assert(open.drop_last() =~= Seq::empty());
    assert(walk(w, Seq::<EventView>::empty()) == w);
    assert(walk(w, open) == walk_step(walk(w, open.drop_last()), open.last()));
    let entered = walk(w, open);
    inline_accumulates(entered, inside, texts);
    concat_is_flat(texts);
    let filled = walk(entered, inside);
    assert(close.drop_last() =~= Seq::empty());
    assert(walk(filled, Seq::<EventView>::empty()) == filled);
    assert(walk(filled, close) == walk_step(walk(filled, close.drop_last()), close.last()));
    assert(entered.heading + concat(texts) =~= texts.flatten());
}

/// What only marks text, such as the start of an emphasis or of a list, makes no
/// difference to the chunks, wherever it stands.
pub proof fn marks_do_not_count(before: Seq<EventView>, after: Seq<EventView>)
    ensures
        section_chunks(before + seq![EventView::Other] + after) == section_chunks(before + after),
        event_chunks(before + seq![EventView::Other] + after) == event_chunks(before + after),
{
    let mark = seq![EventView::Other];
    let w = walk(walk_start(), before);
    walk_concat(walk_start(), before + mark, after);
    walk_concat(walk_start(), before, mark);
    walk_concat(walk_start(), before, after);
    assert(mark.drop_last() =~= Seq::empty());
    assert(walk(w, Seq::<EventView>::empty()) == w);
    assert(walk(w, mark) == walk_step(walk(w, mark.drop_last()), mark.last()));
}

/// The end of a document ends its last block, as the end of a paragraph does: no
/// open text is left behind.
pub proof fn end_closes_the_last_block(events: Seq<EventView>, close: EventView)
    requires
        closes_a_block(close),
    ensures
        section_chunks(events.push(close)) == section_chunks(events),
{
    let w = walk(walk_start(), events);
    assert(events.push(close).drop_last() =~= events);
    let s = segment_closed(w);
    assert(trim_spec(Seq::<char>::empty()) =~= Seq::empty());
    assert(segment_closed(s).segments =~= s.segments);
    assert(segment_closed(s).segment =~= s.segment);
}

/// A section spells its heading, then its segments, with one blank line between
/// neighbours; the heading stands there once.
pub proof fn section_spells_heading_and_segments(
    heading: Seq<char>,
    segments: Seq<Seq<char>>,
)
    requires
        heading.len() > 0,
        segments.len() > 0,
    ensures
        joined(section_blocks(heading, segments)) == heading + seq!['\n', '\n'] + joined(segments),
        joined(section_blocks(Seq::empty(), segments)) == joined(segments),
{
    let blocks = section_blocks(heading, segments);
    if heading_apart(heading, segments[0]) {
        assert(blocks.skip(1) =~= segments);
    } else {
        let first = heading + blank_line() + segments[0];
        let rest = segments.skip(1);
        assert(blocks.skip(1) =~= rest);
        if segments.len() == 1 {
            assert(joined(blocks) == first);
            assert(joined(segments) == segments[0]);
        } else {
            assert(joined(blocks) == first + blank_line() + joined(rest));
            assert(joined(segments) == segments[0] + blank_line() + joined(rest));
            assert(joined(blocks) =~= heading + seq!['\n', '\n'] + joined(segments));
        }
    }
}

/// A section whose heading and segments fit the window reads, chunk after chunk,
/// as its heading and its segments with one blank line between neighbours.
pub proof fn section_chunks_spell_the_section(heading: Seq<char>, segments: Seq<Seq<char>>)
    requires
        0 < heading.len() <= WINDOW_CHARS,
        segments.len() > 0,
        none_empty(segments),
        all_fit(segments),
    ensures
        joined(pack(section_blocks(heading, segments))) == heading + seq!['\n', '\n'] + joined(
            segments,
        ),
{
    let blocks = section_blocks(heading, segments);
    section_spells_heading_and_segments(heading, segments);
    assert forall|i: int| 0 <= i < blocks.len() implies (#[trigger] blocks[i]).len() > 0
        && blocks[i].len() <= WINDOW_CHARS by {
        if heading_apart(heading, segments[0]) {
            if i > 0 {
                assert(blocks[i] == segments[i - 1]);
            }
        } else if i > 0 {
            assert(blocks[i] == segments[i]);
        } else {
            assert(segments[0].len() <= WINDOW_CHARS);
        }
    }
    packing_loses_nothing(blocks);
}

} // verus!
