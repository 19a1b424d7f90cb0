//! No text of a Markdown document is lost on the way into its chunks.

use crate::chunking::markdown::{
    blank_line, closed, code_closed, code_text, heading_apart, pack, section_blocks,
    section_chunks, segment_closed, walk, walk_start, without_last_newlines, EventView, WalkView,
};
use crate::chunking::markdown_laws::concat;
use crate::text::{is_white_space, trim_end_spec, trim_shrinks, trim_spec, trim_start_spec};
use vstd::prelude::*;

verus! {

/// `s` without its white space.
pub open spec fn ink(s: Seq<char>) -> Seq<char>
    decreases s.len(),
{
    if s.len() == 0 {
        s
    } else if is_white_space(s.last()) {
        ink(s.drop_last())
    } else {
        ink(s.drop_last()).push(s.last())
    }
}

/// The text that an event carries.
pub open spec fn event_text(event: EventView) -> Seq<char> {
    match event {
        EventView::Text(t) => t,
        EventView::Code(t) => t,
        EventView::SoftBreak => seq!['\n'],
        EventView::HardBreak => seq!['\n'],
        _ => Seq::empty(),
    }
}

/// The text that events carry outside of metadata blocks.
pub open spec fn shown_text(events: Seq<EventView>) -> Seq<char>
    decreases events.len(),
{
    if events.len() == 0 {
        Seq::empty()
    } else {
        let before = shown_text(events.drop_last());
        if walk(walk_start(), events.drop_last()).in_metadata {
            before
        } else {
            before + event_text(events.last())
        }
    }
}

/// The blocks of the section that is open in `w`.
pub open spec fn open_blocks(w: WalkView) -> Seq<Seq<char>> {
    let s = segment_closed(w);
    section_blocks(trim_spec(s.heading), s.segments)
}

/// The blocks of the closed sections, section by section.
pub open spec fn closed_sections(events: Seq<EventView>) -> Seq<Seq<Seq<char>>>
    decreases events.len(),
{
    if events.len() == 0 {
        Seq::empty()
    } else {
        let before = closed_sections(events.drop_last());
        if events.last() is StartHeading {
            before.push(open_blocks(walk(walk_start(), events.drop_last())))
        } else {
            before
        }
    }
}

/// The blocks of a document, section by section.
pub open spec fn document_sections(events: Seq<EventView>) -> Seq<Seq<Seq<char>>> {
    closed_sections(events).push(open_blocks(walk(walk_start(), events)))
}

/// The chunks of sections, each packed on its own.
pub open spec fn packed(sections: Seq<Seq<Seq<char>>>) -> Seq<Seq<char>>
    decreases sections.len(),
{
    if sections.len() == 0 {
        Seq::empty()
    } else {
        packed(sections.drop_last()) + pack(sections.last())
    }
}

/// The text of sections, block after block.
pub open spec fn sections_text(sections: Seq<Seq<Seq<char>>>) -> Seq<char>
    decreases sections.len(),
{
    if sections.len() == 0 {
        Seq::empty()
    } else {
        sections_text(sections.drop_last()) + concat(sections.last())
    }
}

proof fn chunks_so_far(events: Seq<EventView>)
    ensures
        walk(walk_start(), events).chunks == packed(closed_sections(events)),
    decreases events.len(),
{
    if events.len() > 0 {
        chunks_so_far(events.drop_last());
        let w = walk(walk_start(), events.drop_last());
        let before = closed_sections(events.drop_last());
        if events.last() is StartHeading {
            assert(before.push(open_blocks(w)).drop_last() =~= before);
        }
    }
}

/// The chunks of a document are its sections, each packed on its own.
pub proof fn chunks_are_packed_sections(events: Seq<EventView>)
    ensures
        section_chunks(events) == packed(document_sections(events)),
{
    chunks_so_far(events);
    assert(document_sections(events).drop_last() =~= closed_sections(events));
}

proof fn ink_joined(a: Seq<char>, b: Seq<char>)
    ensures
        ink(a + b) == ink(a) + ink(b),
    decreases b.len(),
{
    if b.len() == 0 {
        assert(a + b =~= a);
        assert(ink(a) + ink(b) =~= ink(a));
    } else {
        ink_joined(a, b.drop_last());
        assert((a + b).drop_last() =~= a + b.drop_last());
        assert(ink(a + b) =~= ink(a) + ink(b));
    }
}

proof fn ink_of_one(c: char)
    ensures
        is_white_space(c) ==> ink(seq![c]) == Seq::<char>::empty(),
{
    assert(seq![c].drop_last() =~= Seq::empty());
    assert(ink(Seq::<char>::empty()) =~= Seq::empty());
}

proof fn ink_trim_start(s: Seq<char>)
    ensures
        ink(trim_start_spec(s)) == ink(s),
    decreases s.len(),
{
    if s.len() > 0 && is_white_space(s[0]) {
        ink_trim_start(s.skip(1));
        ink_joined(seq![s[0]], s.skip(1));
        ink_of_one(s[0]);
        assert(seq![s[0]] + s.skip(1) =~= s);
        assert(Seq::<char>::empty() + ink(s.skip(1)) =~= ink(s.skip(1)));
    }
}

proof fn ink_trim_end(s: Seq<char>)
    ensures
        ink(trim_end_spec(s)) == ink(s),
    decreases s.len(),
{
    if s.len() > 0 && is_white_space(s.last()) {
        ink_trim_end(s.drop_last());
    }
}

/// Trimming drops white space alone.
pub proof fn trim_keeps_ink(s: Seq<char>)
    ensures
        ink(trim_spec(s)) == ink(s),
{
    ink_trim_start(s);
    ink_trim_end(trim_start_spec(s));
}

proof fn ink_without_last_newlines(s: Seq<char>)
    ensures
        ink(without_last_newlines(s)) == ink(s),
        without_last_newlines(s).len() <= s.len(),
    decreases s.len(),
{
    if s.len() > 0 && s.last() == '\n' {
        ink_without_last_newlines(s.drop_last());
    }
}

/// Of a code block, white space alone is dropped.
pub proof fn code_text_keeps_ink(s: Seq<char>)
    ensures
        ink(code_text(s)) == ink(s),
{
    ink_without_last_newlines(s);
    trim_keeps_ink(without_last_newlines(s));
    if trim_spec(without_last_newlines(s)).len() == 0 {
        assert(trim_spec(without_last_newlines(s)) =~= Seq::empty());
    }
}

proof fn concat_joined(a: Seq<Seq<char>>, b: Seq<Seq<char>>)
    ensures
        concat(a + b) == concat(a) + concat(b),
    decreases b.len(),
{
    if b.len() == 0 {
        assert(a + b =~= a);
        assert(concat(a) + concat(b) =~= concat(a));
    } else {
        concat_joined(a, b.drop_last());
        assert((a + b).drop_last() =~= a + b.drop_last());
        assert(concat(a + b) =~= concat(a) + concat(b));
    }
}

proof fn concat_of_one(t: Seq<char>)
    ensures
        concat(seq![t]) == t,
{
    assert(seq![t].drop_last() =~= Seq::empty());
    assert(concat(Seq::empty()) =~= Seq::empty());
    assert(Seq::<char>::empty() + t =~= t);
}

/// The text that the walk holds and has not put into a closed section.
spec fn pending(w: WalkView) -> Seq<char> {
    w.heading + concat(w.segments) + w.segment
}

proof fn closing_keeps_ink(w: WalkView)
    ensures
        ink(pending(segment_closed(w))) == ink(pending(w)),
{
    let s = segment_closed(w);
    let text = trim_spec(w.segment);
    trim_keeps_ink(w.segment);
    ink_joined(w.heading + concat(w.segments), w.segment);
    assert(pending(s) =~= w.heading + concat(s.segments));
    ink_joined(w.heading, concat(w.segments));
    ink_joined(w.heading, concat(s.segments));
    if text.len() == 0 {
        assert(ink(text) =~= Seq::empty());
        assert(ink(w.heading + concat(w.segments)) + Seq::<char>::empty() =~= ink(
            w.heading + concat(w.segments),
        ));
    } else {
        assert(s.segments.drop_last() =~= w.segments);
        ink_joined(concat(w.segments), text);
        assert(ink(w.heading) + (ink(concat(w.segments)) + ink(text)) =~= ink(w.heading) + ink(
            concat(w.segments),
        ) + ink(text));
    }
}

proof fn closing_code_keeps_ink(w: WalkView)
    ensures
        ink(pending(code_closed(w))) == ink(pending(w)),
{
    let s = code_closed(w);
    let text = code_text(w.segment);
    code_text_keeps_ink(w.segment);
    ink_joined(w.heading + concat(w.segments), w.segment);
    assert(pending(s) =~= w.heading + concat(s.segments));
    concat_joined(w.segments, closed(text));
    if text.len() == 0 {
        assert(concat(closed(text)) =~= text);
    } else {
        concat_of_one(text);
    }
    assert(pending(s) =~= (w.heading + concat(w.segments)) + text);
    ink_joined(w.heading + concat(w.segments), text);
}

proof fn blocks_keep_ink(w: WalkView)
    ensures
        ink(concat(open_blocks(w))) == ink(pending(w)),
{
    let s = segment_closed(w);
    closing_keeps_ink(w);
    let heading = trim_spec(s.heading);
    trim_keeps_ink(s.heading);
    assert(pending(s) =~= s.heading + concat(s.segments));
    ink_joined(s.heading, concat(s.segments));
    let blocks = open_blocks(w);
    if heading.len() == 0 {
        assert(ink(heading) =~= Seq::empty());
        assert(Seq::<char>::empty() + ink(concat(s.segments)) =~= ink(concat(s.segments)));
    } else if s.segments.len() == 0 || heading_apart(heading, s.segments[0]) {
        concat_of_one(heading);
        concat_joined(seq![heading], s.segments);
        ink_joined(heading, concat(s.segments));
    } else {
        let first = heading + blank_line() + s.segments[0];
        let rest = s.segments.skip(1);
        concat_joined(seq![first], rest);
        concat_of_one(first);
        concat_joined(seq![s.segments[0]], rest);
        concat_of_one(s.segments[0]);
        assert(seq![s.segments[0]] + rest =~= s.segments);
        ink_joined(first, concat(rest));
        ink_joined(heading + blank_line(), s.segments[0]);
        ink_joined(heading, blank_line());
        ink_joined(s.segments[0], concat(rest));
        ink_joined(seq!['\n'], seq!['\n']);
        ink_of_one('\n');
        assert(blank_line() =~= seq!['\n'] + seq!['\n']);
        assert(ink(blank_line()) =~= Seq::empty());
        assert(ink(concat(blocks)) =~= ink(s.heading) + ink(concat(s.segments)));
    }
}

/// While a heading is read, its section holds nothing else.
spec fn heading_first(w: WalkView) -> bool {
    w.in_heading ==> w.segments.len() == 0 && w.segment.len() == 0
}

proof fn text_so_far(events: Seq<EventView>)
    ensures
        heading_first(walk(walk_start(), events)),
        ink(sections_text(closed_sections(events))) + ink(pending(walk(walk_start(), events)))
            == ink(shown_text(events)),
    decreases events.len(),
{
    let w = walk(walk_start(), events);
    if events.len() == 0 {
        assert(pending(w) =~= Seq::empty());
        assert(ink(pending(w)) =~= Seq::empty());
        assert(ink(sections_text(closed_sections(events))) =~= Seq::empty());
        assert(ink(shown_text(events)) =~= Seq::empty());
    } else {
        let before = events.drop_last();
        let v = walk(walk_start(), before);
        let event = events.last();
        text_so_far(before);
        let done = closed_sections(before);
        let text = event_text(event);
        match event {
            EventView::StartHeading => {
                blocks_keep_ink(v);
                assert(done.push(open_blocks(v)).drop_last() =~= done);
                ink_joined(sections_text(done), concat(open_blocks(v)));
                assert(pending(w) =~= Seq::empty());
                assert(ink(pending(w)) =~= Seq::empty());
                assert(shown_text(events) =~= shown_text(before));
                assert(ink(sections_text(closed_sections(events))) + ink(pending(w)) =~= ink(
                    sections_text(closed_sections(events)),
                ));
            },
            EventView::EndCodeBlock => {
                closing_code_keeps_ink(v);
                ink_without_last_newlines(v.segment);
                assert(shown_text(events) =~= shown_text(before));
            },
            EventView::StartCodeBlock
            | EventView::EndParagraph
            | EventView::Rule => {
                closing_keeps_ink(v);
                assert(trim_spec(v.segment).len() <= v.segment.len()) by {
                    trim_shrinks(v.segment);
                }
                assert(shown_text(events) =~= shown_text(before));
            },
            EventView::EndHeading
            | EventView::StartMetadata
            | EventView::EndMetadata
            | EventView::Other => {
                assert(pending(w) == pending(v));
                assert(shown_text(events) =~= shown_text(before));
            },
            _ => {
                if v.in_metadata {
                    assert(w == v);
                } else {
                    if v.in_heading {
                        assert(concat(v.segments) =~= Seq::empty());
                        assert(v.segment =~= Seq::empty());
                    }
                    assert(pending(w) =~= pending(v) + text);
                    ink_joined(pending(v), text);
                    ink_joined(shown_text(before), text);
                    assert(ink(sections_text(done)) + (ink(pending(v)) + ink(text)) =~= ink(
                        sections_text(done),
                    ) + ink(pending(v)) + ink(text));
                }
            },
        }
    }
}

/// No text is lost or made up: but for white space, the blocks that a document
/// is packed from spell the text outside its metadata, in order.
pub proof fn no_text_is_lost(events: Seq<EventView>)
    ensures
        ink(sections_text(document_sections(events))) == ink(shown_text(events)),
{
    let w = walk(walk_start(), events);
    text_so_far(events);
    blocks_keep_ink(w);
    assert(document_sections(events).drop_last() =~= closed_sections(events));
    ink_joined(sections_text(closed_sections(events)), concat(open_blocks(w)));
}

} // verus!
