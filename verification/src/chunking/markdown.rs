//! Heading-aware Markdown chunker.
//!
//! The document is read as a stream of events. Every heading closes the
//! section before it and opens its own. The text of a section is collected as
//! block segments (paragraphs, code blocks, what stands between thematic
//! breaks), and the segments are packed greedily into chunks. Only a segment
//! larger than the window is ever cut.

use crate::chunking::error::ChunkingError;
use crate::chunking::markdown_laws::markdown_document_shape;
use crate::chunking::window::{char_split_with_overlap, windows};
use crate::chunking::{
    bodies, document_shape, placeholder_bodies, placeholder_chunk, push_chunk, Chunk,
    WINDOW_CHARS,
};
use crate::text::{from_chars, slice_of, to_chars, trim, trim_shrinks, trim_spec};
use pulldown_cmark::Event::{Code, End, HardBreak, Rule, SoftBreak, Start, Text};
use pulldown_cmark::{Options, Parser, Tag, TagEnd};
use vstd::prelude::*;

verus! {

/// What the chunker needs of one event of the Markdown parser.
#[derive(Debug, Clone, PartialEq, Eq)]
pub enum MdEvent {
    StartHeading,
    EndHeading,
    StartMetadata,
    EndMetadata,
    StartCodeBlock,
    EndCodeBlock,
    EndParagraph,
    Text(String),
    Code(String),
    SoftBreak,
    HardBreak,
    Rule,
    /// Any other event; the chunker passes over it.
    Other,
}

/// An event with its text as a character sequence.
pub enum EventView {
    StartHeading,
    EndHeading,
    StartMetadata,
    EndMetadata,
    StartCodeBlock,
    EndCodeBlock,
    EndParagraph,
    Text(Seq<char>),
    Code(Seq<char>),
    SoftBreak,
    HardBreak,
    Rule,
    Other,
}

impl View for MdEvent {
    type V = EventView;

    open spec fn view(&self) -> EventView {
        match self {
            MdEvent::StartHeading => EventView::StartHeading,
            MdEvent::EndHeading => EventView::EndHeading,
            MdEvent::StartMetadata => EventView::StartMetadata,
            MdEvent::EndMetadata => EventView::EndMetadata,
            MdEvent::StartCodeBlock => EventView::StartCodeBlock,
            MdEvent::EndCodeBlock => EventView::EndCodeBlock,
            MdEvent::EndParagraph => EventView::EndParagraph,
            MdEvent::Text(t) => EventView::Text(t@),
            MdEvent::Code(t) => EventView::Code(t@),
            MdEvent::SoftBreak => EventView::SoftBreak,
            MdEvent::HardBreak => EventView::HardBreak,
            MdEvent::Rule => EventView::Rule,
            MdEvent::Other => EventView::Other,
        }
    }
}

/// A list of events by their views.
pub open spec fn event_views(events: Seq<MdEvent>) -> Seq<EventView> {
    events.map_values(|e: MdEvent| e@)
}

/// The events that the Markdown parser gives for a text, with YAML metadata
/// blocks recognised and no other extension.
pub uninterp spec fn markdown_events_of(content: Seq<char>) -> Seq<EventView>;

/// `pulldown_cmark::Parser::new_ext` with
/// `Options::ENABLE_YAML_STYLE_METADATA_BLOCKS`, walked to its end, each event
/// by what the chunker reads of it. Claims only that the events are a function
/// of the text.
#[verifier::external_body]
fn markdown_events(content: &str) -> (events: Vec<MdEvent>)
    ensures
        event_views(events@) == markdown_events_of(content@),
{
    let mut events: Vec<MdEvent> = Vec::new();
    for event in Parser::new_ext(content, Options::ENABLE_YAML_STYLE_METADATA_BLOCKS) {
        events.push(match event {
            Start(Tag::Heading { .. }) => MdEvent::StartHeading,
            Start(Tag::MetadataBlock(_)) => MdEvent::StartMetadata,
            Start(Tag::CodeBlock(_)) => MdEvent::StartCodeBlock,
            End(TagEnd::Heading(_)) => MdEvent::EndHeading,
            End(TagEnd::MetadataBlock(_)) => MdEvent::EndMetadata,
            End(TagEnd::CodeBlock) => MdEvent::EndCodeBlock,
            End(TagEnd::Paragraph) => MdEvent::EndParagraph, Rule => MdEvent::Rule,
            Text(t) => MdEvent::Text(t.into_string()), Code(t) => MdEvent::Code(t.into_string()),
            SoftBreak => MdEvent::SoftBreak, HardBreak => MdEvent::HardBreak, _ => MdEvent::Other,
        });
    }
    events
}

/// The blank line between two blocks of one chunk.
pub open spec fn blank_line() -> Seq<char> {
    seq!['\n', '\n']
}

/// `current` as a list of chunks: none if it is empty.
pub open spec fn closed(current: Seq<char>) -> Seq<Seq<char>> {
    if current.len() == 0 {
        Seq::empty()
    } else {
        seq![current]
    }
}

/// The chunks of `blocks` when `current` is already in the open chunk: a block
/// joins the open chunk while the window allows it, else starts the next one;
/// a block larger than the window stands alone, cut into windows.
pub open spec fn pack_from(current: Seq<char>, blocks: Seq<Seq<char>>) -> Seq<Seq<char>>
    decreases blocks.len(),
{
    if blocks.len() == 0 {
        closed(current)
    } else {
        let block = blocks[0];
        let rest = blocks.skip(1);
        if block.len() > WINDOW_CHARS {
            closed(current) + windows(block) + pack_from(Seq::empty(), rest)
        } else if current.len() == 0 {
            pack_from(block, rest)
        } else if current.len() + 2 + block.len() <= WINDOW_CHARS {
            pack_from(current + blank_line() + block, rest)
        } else {
            seq![current] + pack_from(block, rest)
        }
    }
}

/// The chunks of `blocks`.
pub open spec fn pack(blocks: Seq<Seq<char>>) -> Seq<Seq<char>> {
    pack_from(Seq::empty(), blocks)
}

/// The heading stands as a block of its own before `segment`: with it the
/// segment would exceed the window, without it the segment fits.
pub open spec fn heading_apart(heading: Seq<char>, segment: Seq<char>) -> bool {
    segment.len() <= WINDOW_CHARS && heading.len() + 2 + segment.len() > WINDOW_CHARS
}

/// The blocks of a section: its segments, with the heading before the first.
pub open spec fn section_blocks(heading: Seq<char>, segments: Seq<Seq<char>>) -> Seq<Seq<char>> {
    if heading.len() == 0 {
        segments
    } else if segments.len() == 0 || heading_apart(heading, segments[0]) {
        seq![heading] + segments
    } else {
        seq![heading + blank_line() + segments[0]] + segments.skip(1)
    }
}

/// What the walk has collected so far.
pub struct WalkView {
    /// Heading text of the open section.
    pub heading: Seq<char>,
    /// Text of the open block.
    pub segment: Seq<char>,
    /// Closed blocks of the open section.
    pub segments: Seq<Seq<char>>,
    pub in_heading: bool,
    pub in_metadata: bool,
    /// Chunks of the closed sections.
    pub chunks: Seq<Seq<char>>,
}

/// The state before the first event.
pub open spec fn walk_start() -> WalkView {
    WalkView {
        heading: Seq::empty(),
        segment: Seq::empty(),
        segments: Seq::empty(),
        in_heading: false,
        in_metadata: false,
        chunks: Seq::empty(),
    }
}

/// Text goes to the heading inside one, nowhere inside metadata, else to the
/// open block.
pub open spec fn with_text(w: WalkView, text: Seq<char>) -> WalkView {
    if w.in_metadata {
        w
    } else if w.in_heading {
        WalkView { heading: w.heading + text, ..w }
    } else {
        WalkView { segment: w.segment + text, ..w }
    }
}

/// The open block closes; one without text leaves nothing.
pub open spec fn segment_closed(w: WalkView) -> WalkView {
    let text = trim_spec(w.segment);
    WalkView {
        segment: Seq::empty(),
        segments: if text.len() == 0 {
            w.segments
        } else {
            w.segments.push(text)
        },
        ..w
    }
}

/// `s` without the line feeds it ends with.
pub open spec fn without_last_newlines(s: Seq<char>) -> Seq<char>
    decreases s.len(),
{
    if s.len() > 0 && s.last() == '\n' {
        without_last_newlines(s.drop_last())
    } else {
        s
    }
}

/// The text of a code block as it is kept: verbatim but for the line feeds at
/// its end, and nothing of a block that is all white space.
pub open spec fn code_text(s: Seq<char>) -> Seq<char> {
    let text = without_last_newlines(s);
    if trim_spec(text).len() == 0 {
        Seq::empty()
    } else {
        text
    }
}

/// The open block closes as a code block; one without text leaves nothing.
pub open spec fn code_closed(w: WalkView) -> WalkView {
    WalkView {
        segment: Seq::empty(),
        segments: w.segments + closed(code_text(w.segment)),
        ..w
    }
}

/// The open section closes and its chunks are added.
pub open spec fn section_closed(w: WalkView) -> WalkView {
    let s = segment_closed(w);
    WalkView {
        heading: Seq::empty(),
        segments: Seq::empty(),
        chunks: s.chunks + pack(section_blocks(trim_spec(s.heading), s.segments)),
        ..s
    }
}

/// The state after one event.
pub open spec fn walk_step(w: WalkView, event: EventView) -> WalkView {
    match event {
        EventView::StartHeading => WalkView { in_heading: true, ..section_closed(w) },
        EventView::EndHeading => WalkView { in_heading: false, ..w },
        EventView::StartMetadata => WalkView { in_metadata: true, ..w },
        EventView::EndMetadata => WalkView { in_metadata: false, ..w },
        EventView::StartCodeBlock => segment_closed(w),
        EventView::EndCodeBlock => code_closed(w),
        EventView::EndParagraph => segment_closed(w),
        EventView::Rule => segment_closed(w),
        EventView::Text(t) => with_text(w, t),
        EventView::Code(t) => with_text(w, t),
        EventView::SoftBreak => with_text(w, seq!['\n']),
        EventView::HardBreak => with_text(w, seq!['\n']),
        EventView::Other => w,
    }
}

/// The state after `events`.
pub open spec fn walk(w: WalkView, events: Seq<EventView>) -> WalkView
    decreases events.len(),
{
    if events.len() == 0 {
        w
    } else {
        walk_step(walk(w, events.drop_last()), events.last())
    }
}

/// The sections' chunks of a document with the given events.
pub open spec fn section_chunks(events: Seq<EventView>) -> Seq<Seq<char>> {
    section_closed(walk(walk_start(), events)).chunks
}

/// The chunks of a document with the given events: those of its sections, or
/// the placeholder where no section has text.
pub open spec fn event_chunks(events: Seq<EventView>) -> Seq<Seq<char>> {
    if section_chunks(events).len() == 0 {
        placeholder_bodies()
    } else {
        section_chunks(events)
    }
}

/// The chunks of a Markdown text.
pub open spec fn markdown_chunks(content: Seq<char>) -> Seq<Seq<char>> {
    event_chunks(markdown_events_of(content))
}

/// A list of character vectors by their views.
pub open spec fn char_views(texts: Seq<Vec<char>>) -> Seq<Seq<char>> {
    texts.map_values(|t: Vec<char>| t@)
}

/// Appends `more` to `text`.
fn append_chars(text: &mut Vec<char>, more: &[char])
    ensures
        final(text)@ == old(text)@ + more@,
{
    proof {
        assert(text@ =~= text@ + more@.take(0));
    }
    for i in 0..more.len()
        invariant
            text@ == old(text)@ + more@.take(i as int),
    {
        text.push(more[i]);
        proof {
            assert(old(text)@ + more@.take(i as int + 1) =~= (old(text)@ + more@.take(
                i as int,
            )).push(more@[i as int]));
        }
    }
    proof {
        assert(more@.take(more@.len() as int) =~= more@);
    }
}

/// Emits the open chunk, if it holds anything, and leaves it empty.
fn flush_current(out: &mut Vec<Chunk>, current: &mut Vec<char>)
    ensures
        bodies(final(out)@) == bodies(old(out)@) + closed(old(current)@),
        final(current)@ == Seq::<char>::empty(),
{
    if current.len() > 0 {
        push_chunk(out, from_chars(current.as_slice()));
        current.clear();
        proof {
            assert(bodies(out@) =~= bodies(old(out)@) + closed(old(current)@));
        }
    } else {
        proof {
            assert(current@ =~= Seq::empty());
            assert(bodies(out@) =~= bodies(old(out)@) + closed(old(current)@));
        }
    }
}

/// Number of characters of `current` and `block` with a blank line between.
fn joined_len(current: &[char], block: &[char]) -> (len: usize)
    requires
        current@.len() + 2 + block@.len() <= usize::MAX,
    ensures
        len == (current@ + blank_line() + block@).len(),
{
    current.len() + 2 + block.len()
}

/// Appends the chunks of `blocks` to `out`.
fn pack_blocks(out: &mut Vec<Chunk>, blocks: &[Vec<char>])
    ensures
        bodies(final(out)@) == bodies(old(out)@) + pack(char_views(blocks@)),
{
    let ghost views = char_views(blocks@);
    let ghost before = bodies(out@);
    let mut current: Vec<char> = Vec::new();
    proof {
        assert(views.skip(0) =~= views);
        assert(current@ =~= Seq::<char>::empty());
    }
    for i in 0..blocks.len()
        invariant
            views == char_views(blocks@),
            current.len() <= WINDOW_CHARS,
            bodies(out@) + pack_from(current@, views.skip(i as int)) == before + pack(views),
    {
        let block: &Vec<char> = &blocks[i];
        let ghost left = views.skip(i as int);
        let ghost emitted = bodies(out@);
        let ghost open = current@;
        proof {
            assert(left[0] == block@);
            assert(left.skip(1) =~= views.skip(i as int + 1));
        }
        if block.len() > WINDOW_CHARS {
            flush_current(out, &mut current);
            char_split_with_overlap(out, block.as_slice());
            proof {
                assert(emitted + (closed(open) + windows(block@) + pack_from(
                    Seq::empty(),
                    left.skip(1),
                )) =~= emitted + closed(open) + windows(block@) + pack_from(
                    Seq::empty(),
                    left.skip(1),
                ));
            }
        } else if current.len() == 0 {
            append_chars(&mut current, block.as_slice());
            proof {
                assert(current@ =~= block@);
            }
        } else if joined_len(current.as_slice(), block.as_slice()) <= WINDOW_CHARS {
            current.push('\n');
            current.push('\n');
            proof {
                assert(current@ =~= open + blank_line());
            }
            append_chars(&mut current, block.as_slice());
        } else {
            flush_current(out, &mut current);
            append_chars(&mut current, block.as_slice());
            proof {
                assert(current@ =~= block@);
                assert(emitted + (seq![open] + pack_from(block@, left.skip(1))) =~= emitted
                    + closed(open) + pack_from(block@, left.skip(1)));
            }
        }
    }
    flush_current(out, &mut current);
}

/// Appends copies of `segments` from index `from` on to `blocks`.
fn append_blocks(blocks: &mut Vec<Vec<char>>, segments: &[Vec<char>], from: usize)
    requires
        from <= segments@.len(),
    ensures
        char_views(final(blocks)@) == char_views(old(blocks)@) + char_views(segments@).skip(
            from as int,
        ),
{
    let ghost before = char_views(blocks@);
    let ghost views = char_views(segments@);
    proof {
        assert(before + views.subrange(from as int, from as int) =~= before);
    }
    for i in from..segments.len()
        invariant
            from <= segments@.len(),
            views == char_views(segments@),
            char_views(blocks@) == before + views.subrange(from as int, i as int),
    {
        let mut block: Vec<char> = Vec::new();
        append_chars(&mut block, segments[i].as_slice());
        let ghost so_far = blocks@;
        blocks.push(block);
        proof {
            assert(block@ =~= views[i as int]);
            assert(char_views(blocks@) =~= char_views(so_far).push(block@));
            assert(char_views(blocks@) =~= before + views.subrange(from as int, i as int + 1));
        }
    }
    proof {
        assert(views.subrange(from as int, views.len() as int) =~= views.skip(from as int));
    }
}

/// Whether the heading stands as a block of its own before `segment`.
fn stands_apart(heading: &[char], segment: &[char]) -> (yes: bool)
    ensures
        yes == heading_apart(heading@, segment@),
{
    segment.len() <= WINDOW_CHARS && (heading.len() > WINDOW_CHARS || joined_len(heading, segment)
        > WINDOW_CHARS)
}

/// Appends the chunks of one section to `out`. A section with neither heading
/// nor text adds none.
fn pack_section(out: &mut Vec<Chunk>, heading: &[char], segments: &[Vec<char>])
    ensures
        bodies(final(out)@) == bodies(old(out)@) + pack(
            section_blocks(heading@, char_views(segments@)),
        ),
{
    let ghost views = char_views(segments@);
    let mut blocks: Vec<Vec<char>> = Vec::new();
    proof {
        assert(char_views(blocks@) =~= Seq::empty());
    }
    if heading.len() == 0 {
        append_blocks(&mut blocks, segments, 0);
        proof {
            assert(char_views(blocks@) =~= views);
        }
    } else {
        let mut first: Vec<char> = Vec::new();
        append_chars(&mut first, heading);
        proof {
            assert(first@ =~= heading@);
        }
        if segments.len() == 0 || stands_apart(heading, segments[0].as_slice()) {
            blocks.push(first);
            proof {
                assert(char_views(blocks@) =~= seq![heading@]);
            }
            append_blocks(&mut blocks, segments, 0);
            proof {
                assert(char_views(blocks@) =~= seq![heading@] + views);
            }
        } else {
            first.push('\n');
            first.push('\n');
            proof {
                assert(first@ =~= heading@ + blank_line());
            }
            append_chars(&mut first, segments[0].as_slice());
            blocks.push(first);
            proof {
                assert(char_views(blocks@) =~= seq![heading@ + blank_line() + views[0]]);
            }
            append_blocks(&mut blocks, segments, 1);
        }
    }
    pack_blocks(out, blocks.as_slice());
}

/// The walk over the events of one document.
pub struct Walker {
    pub current_heading: Vec<char>,
    pub current_segment: Vec<char>,
    pub segments: Vec<Vec<char>>,
    pub in_heading: bool,
    pub in_metadata: bool,
    pub chunks: Vec<Chunk>,
}

impl View for Walker {
    type V = WalkView;

    open spec fn view(&self) -> WalkView {
        WalkView {
            heading: self.current_heading@,
            segment: self.current_segment@,
            segments: char_views(self.segments@),
            in_heading: self.in_heading,
            in_metadata: self.in_metadata,
            chunks: bodies(self.chunks@),
        }
    }
}

impl Walker {
    /// A walk that has seen no event.
    pub fn new() -> (walker: Self)
        ensures
            walker@ == walk_start(),
    {
        let walker = Walker {
            current_heading: Vec::new(),
            current_segment: Vec::new(),
            segments: Vec::new(),
            in_heading: false,
            in_metadata: false,
            chunks: Vec::new(),
        };
        proof {
            assert(char_views(walker.segments@) =~= Seq::empty());
            assert(bodies(walker.chunks@) =~= Seq::empty());
        }
        walker
    }

    /// Takes in one event.
    pub fn handle(&mut self, event: &MdEvent)
        ensures
            final(self)@ == walk_step(old(self)@, event@),
    {
        match event {
            MdEvent::StartHeading => self.open_heading(),
            MdEvent::EndHeading => {
                self.in_heading = false;
            },
            MdEvent::StartMetadata => {
                self.in_metadata = true;
            },
            MdEvent::EndMetadata => {
                self.in_metadata = false;
            },
            MdEvent::EndCodeBlock => self.end_code(),
            MdEvent::StartCodeBlock | MdEvent::EndParagraph | MdEvent::Rule => self.end_segment(),
            MdEvent::Text(text) | MdEvent::Code(text) => {
                self.append_text(to_chars(text.as_str()).as_slice())
            },
            MdEvent::SoftBreak | MdEvent::HardBreak => {
                let mut newline: Vec<char> = Vec::new();
                newline.push('\n');
                proof {
                    assert(newline@ =~= seq!['\n']);
                }
                self.append_text(newline.as_slice())
            },
            MdEvent::Other => {},
        }
    }

    /// Closes the open section and starts to collect the next heading.
    fn open_heading(&mut self)
        ensures
            final(self)@ == (WalkView { in_heading: true, ..section_closed(old(self)@) }),
    {
        self.flush_section();
        self.in_heading = true;
    }

    /// Takes in a piece of text.
    fn append_text(&mut self, text: &[char])
        ensures
            final(self)@ == with_text(old(self)@, text@),
    {
        if self.in_metadata {
            return;
        }
        if self.in_heading {
            append_chars(&mut self.current_heading, text);
            return;
        }
        append_chars(&mut self.current_segment, text);
    }

    /// Closes the open block.
    fn end_segment(&mut self)
        ensures
            final(self)@ == segment_closed(old(self)@),
    {
        let segment: Vec<char> = trim(self.current_segment.as_slice());
        if segment.len() > 0 {
            self.segments.push(segment);
        }
        self.current_segment.clear();
        proof {
            assert(self@.segments =~= segment_closed(old(self)@).segments);
            assert(self@.segment =~= Seq::<char>::empty());
        }
    }

    /// Closes the open block as a code block.
    fn end_code(&mut self)
        ensures
            final(self)@ == code_closed(old(self)@),
    {
        let ghost whole = self.current_segment@;
        let mut end: usize = self.current_segment.len();
        proof {
            assert(whole.take(end as int) =~= whole);
        }
        while end > 0 && self.current_segment[end - 1] == '\n'
            invariant
                self.current_segment@ == whole,
                end <= whole.len(),
                without_last_newlines(whole) == without_last_newlines(whole.take(end as int)),
            decreases end,
        {
            proof {
                assert(whole.take(end as int).drop_last() =~= whole.take(end as int - 1));
            }
            end = end - 1;
        }
        let text: Vec<char> = slice_of(self.current_segment.as_slice(), 0, end);
        proof {
            assert(whole.subrange(0, end as int) =~= whole.take(end as int));
        }
        if trim(text.as_slice()).len() > 0 {
            proof {
                trim_shrinks(text@);
            }
            self.segments.push(text);
        }
        self.current_segment.clear();
        proof {
            assert(self@.segments =~= code_closed(old(self)@).segments);
            assert(self@.segment =~= Seq::<char>::empty());
        }
    }

    /// Closes the open section and emits its chunks.
    fn flush_section(&mut self)
        ensures
            final(self)@ == section_closed(old(self)@),
    {
        self.end_segment();
        let heading: Vec<char> = trim(self.current_heading.as_slice());
        pack_section(&mut self.chunks, heading.as_slice(), self.segments.as_slice());
        self.current_heading.clear();
        self.segments.clear();
        proof {
            assert(self@.heading =~= Seq::<char>::empty());
            assert(self@.segments =~= Seq::<Seq<char>>::empty());
        }
    }

    /// The chunks of the whole walk.
    pub fn finalize(self) -> (chunks: Vec<Chunk>)
        ensures
            bodies(chunks@) == section_closed(self@).chunks,
    {
        let mut walker: Walker = self;
        walker.flush_section();
        walker.chunks
    }
}

/// Chunks a document that is given by its events.
pub fn chunk_events(events: &[MdEvent]) -> (chunks: Vec<Chunk>)
    ensures
        bodies(chunks@) == event_chunks(event_views(events@)),
{
    let ghost views = event_views(events@);
    let mut walker: Walker = Walker::new();
    for i in 0..events.len()
        invariant
            views == event_views(events@),
            walker@ == walk(walk_start(), views.take(i as int)),
    {
        walker.handle(&events[i]);
        proof {
            assert(views.take(i as int + 1).drop_last() =~= views.take(i as int));
        }
    }
    proof {
        assert(views.take(views.len() as int) =~= views);
    }
    let mut chunks: Vec<Chunk> = walker.finalize();
    if chunks.len() == 0 {
        chunks.push(placeholder_chunk());
        proof {
            assert(bodies(chunks@) =~= placeholder_bodies());
        }
    }
    chunks
}

/// Chunks a Markdown document.
pub fn chunk_markdown(content: &str) -> (result: Result<Vec<Chunk>, ChunkingError>)
    ensures
        result is Ok,
        bodies(result->Ok_0@) == markdown_chunks(content@),
        document_shape(bodies(result->Ok_0@)),
{
    let events: Vec<MdEvent> = markdown_events(content);
    proof {
        markdown_document_shape(event_views(events@));
    }
    Ok(chunk_events(events.as_slice()))
}

} // verus!
