//! Fixed windows over one text, with overlap.

use crate::chunking::{bodies, push_chunk, Chunk, OVERLAP_CHARS, WINDOW_CHARS};
use crate::text::{from_chars, slice_of};
use vstd::prelude::*;

verus! {

/// Distance between the starts of two neighbouring windows: the window less the
/// overlap.
pub const STEP_CHARS: usize = 630;

/// How many windows a text of `len` characters takes: one, and one more for
/// each step that is needed to reach its end.
pub open spec fn window_count(len: nat) -> nat {
    if len <= WINDOW_CHARS {
        1
    } else {
        (1 + (len - WINDOW_CHARS + STEP_CHARS - 1) / (STEP_CHARS as int)) as nat
    }
}

/// The end of the window that starts at `start`.
pub open spec fn window_end(len: nat, start: int) -> int {
    if start + WINDOW_CHARS <= len {
        start + WINDOW_CHARS
    } else {
        len as int
    }
}

/// Window `i` of `text`.
pub open spec fn window_at(text: Seq<char>, i: int) -> Seq<char> {
    text.subrange(i * STEP_CHARS, window_end(text.len(), i * STEP_CHARS))
}

/// The windows of `text`, in order.
pub open spec fn windows(text: Seq<char>) -> Seq<Seq<char>> {
    Seq::new(window_count(text.len()), |i: int| window_at(text, i))
}

/// Appends the windows of `block` to `out` as chunks.
pub fn char_split_with_overlap(out: &mut Vec<Chunk>, block: &[char])
    ensures
        bodies(final(out)@) == bodies(old(out)@) + windows(block@),
{
    let len: usize = block.len();
    let ghost before = bodies(out@);
    let ghost all = windows(block@);
    let mut start: usize = 0;
    let ghost mut i: int = 0;
    proof {
        assert(before + all.take(0) =~= before);
    }
    while len - start > WINDOW_CHARS
        invariant
            len == block@.len(),
            all == windows(block@),
            0 <= i < all.len(),
            start == i * STEP_CHARS,
            start <= len,
            bodies(out@) == before + all.take(i),
        decreases len - start,
    {
        push_chunk(out, from_chars(slice_of(block, start, start + WINDOW_CHARS).as_slice()));
        proof {
            assert(window_at(block@, i) == block@.subrange(
                start as int,
                start as int + WINDOW_CHARS as int,
            ));
            assert(all.take(i + 1) =~= all.take(i).push(all[i]));
            assert(before + all.take(i + 1) =~= (before + all.take(i)).push(all[i]));
            i = i + 1;
        }
        start = start + (WINDOW_CHARS - OVERLAP_CHARS);
    }
    push_chunk(out, from_chars(slice_of(block, start, len).as_slice()));
    proof {
        assert(i == all.len() - 1);
        assert(window_at(block@, i) == block@.subrange(start as int, len as int));
        assert(all.take(i + 1) =~= all);
        assert(before + all =~= (before + all.take(i)).push(all[i]));
    }
}

/// Every window holds at most [`WINDOW_CHARS`] characters, and none of a
/// text with characters is empty.
pub proof fn windows_fit(text: Seq<char>)
    ensures
        windows(text).len() >= 1,
        forall|i: int|
            0 <= i < windows(text).len() ==> (#[trigger] windows(text)[i]).len() <= WINDOW_CHARS,
        text.len() > 0 ==> forall|i: int|
            0 <= i < windows(text).len() ==> (#[trigger] windows(text)[i]).len() > 0,
{
}

/// What `parts` spell when each one but the first drops the characters that it
/// shares with the one before.
pub open spec fn reassemble(parts: Seq<Seq<char>>) -> Seq<char>
    decreases parts.len(),
{
    if parts.len() == 0 {
        Seq::empty()
    } else if parts.len() == 1 {
        parts[0]
    } else {
        reassemble(parts.drop_last()) + parts.last().skip(OVERLAP_CHARS as int)
    }
}

proof fn reassemble_prefix(text: Seq<char>, n: int)
    requires
        1 <= n <= window_count(text.len()),
    ensures
        reassemble(windows(text).take(n)) == text.take(
            window_end(text.len(), (n - 1) * STEP_CHARS),
        ),
    decreases n,
{
    let parts = windows(text).take(n);
    if n == 1 {
        assert(parts[0] =~= text.take(window_end(text.len(), 0)));
    } else {
        reassemble_prefix(text, n - 1);
        assert(parts.drop_last() =~= windows(text).take(n - 1));
        let start = (n - 1) * STEP_CHARS;
        let end = window_end(text.len(), start);
        assert(parts.last() == text.subrange(start, end));
        assert(text.take(window_end(text.len(), (n - 2) * STEP_CHARS)) + text.subrange(
            start,
            end,
        ).skip(OVERLAP_CHARS as int) =~= text.take(end));
    }
}

/// Nothing is lost by cutting: the first window followed by what each later
/// window adds is the text itself, and neighbours share [`OVERLAP_CHARS`]
/// characters.
pub proof fn windows_reassemble(text: Seq<char>)
    ensures
        reassemble(windows(text)) == text,
        forall|i: int|
            0 <= i < windows(text).len() - 1 ==> {
                &&& (#[trigger] windows(text)[i]).len() == WINDOW_CHARS
                &&& windows(text)[i].skip(STEP_CHARS as int) == windows(text)[i + 1].take(
                    OVERLAP_CHARS as int,
                )
            },
{
    let n = window_count(text.len()) as int;
    reassemble_prefix(text, n);
    assert(windows(text).take(n) =~= windows(text));
    assert(window_end(text.len(), (n - 1) * STEP_CHARS) == text.len());
    assert(text.take(text.len() as int) =~= text);
    assert forall|i: int| 0 <= i < windows(text).len() - 1 implies {
        &&& (#[trigger] windows(text)[i]).len() == WINDOW_CHARS
        &&& windows(text)[i].skip(STEP_CHARS as int) == windows(text)[i + 1].take(
            OVERLAP_CHARS as int,
        )
    } by {
        assert(windows(text)[i].skip(STEP_CHARS as int) =~= windows(text)[i + 1].take(
            OVERLAP_CHARS as int,
        ));
    }
}

} // verus!
