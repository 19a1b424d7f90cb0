//! Token batches: the rows that a tokenizer returns, stacked into one
//! rectangle, and the check of the vectors that a model returns.

use crate::embedding::error::{with_label, EmbedError};
use crate::paths::text_view;
use crate::reading::{
    find_number, find_skips, number_behind, number_is_plain, regroup_three,
};
use crate::text::{decimal, decimal_spec, is_digit};
use vstd::prelude::*;
use vstd::string::StringExecFns;

verus! {

/// The tokens of one text and which of them are no padding.
#[derive(Debug, Clone, PartialEq, Eq)]
pub struct TokenRow {
    pub ids: Vec<u32>,
    pub mask: Vec<u32>,
}

/// Rows of equal width, one after the other.
#[derive(Debug, Clone, PartialEq, Eq)]
pub struct TokenBatch {
    pub rows: usize,
    pub width: usize,
    pub ids: Vec<u32>,
    pub mask: Vec<u32>,
}

/// The width of the widest row.
pub open spec fn widest(rows: Seq<TokenRow>) -> nat
    decreases rows.len(),
{
    if rows.len() == 0 {
        0
    } else {
        let before = widest(rows.drop_last());
        let here = rows.last().ids@.len();
        if here > before {
            here
        } else {
            before
        }
    }
}

/// The ids of all rows, row after row.
pub open spec fn all_ids(rows: Seq<TokenRow>) -> Seq<u32>
    decreases rows.len(),
{
    if rows.len() == 0 {
        Seq::empty()
    } else {
        all_ids(rows.drop_last()) + rows.last().ids@
    }
}

/// The masks of all rows, row after row.
pub open spec fn all_masks(rows: Seq<TokenRow>) -> Seq<u32>
    decreases rows.len(),
{
    if rows.len() == 0 {
        Seq::empty()
    } else {
        all_masks(rows.drop_last()) + rows.last().mask@
    }
}

/// Row `i` is the first that is not `width` wide.
pub open spec fn first_ragged(rows: Seq<TokenRow>, width: nat, i: int) -> bool {
    &&& 0 <= i < rows.len()
    &&& rows[i].ids@.len() != width
    &&& forall|j: int| 0 <= j < i ==> (#[trigger] rows[j]).ids@.len() == width
}

/// The text of the error for a row that is narrower than the widest.
pub open spec fn ragged_message(width: nat, row: nat) -> Seq<char> {
    "encode_batch produced ragged rows: max_len="@ + decimal_spec(width) + ", row="@
        + decimal_spec(row)
}

/// `result` is `rows`, stacked, or the error for the first row of another width.
pub open spec fn is_stacked(rows: Seq<TokenRow>, result: Result<TokenBatch, EmbedError>) -> bool {
    match result {
        Ok(batch) => {
            &&& forall|j: int|
                0 <= j < rows.len() ==> (#[trigger] rows[j]).ids@.len() == widest(rows)
            &&& batch.rows == rows.len()
            &&& batch.width == widest(rows)
            &&& batch.ids@ == all_ids(rows)
            &&& batch.mask@ == all_masks(rows)
        },
        Err(e) => e is Tokenizer && exists|i: int| #[trigger]
            first_ragged(rows, widest(rows), i) && e->Tokenizer_0@ == ragged_message(
                widest(rows),
                rows[i].ids@.len(),
            ),
    }
}

/// Stacks rows of equal width; the first row of another width is an error.
pub fn stack_rows(rows: &[TokenRow]) -> (result: Result<TokenBatch, EmbedError>)
    ensures
        is_stacked(rows@, result),
{
    let mut width: usize = 0;
    for i in 0..rows.len()
        invariant
            width == widest(rows@.take(i as int)),
    {
        proof {
            assert(rows@.take(i as int + 1).drop_last() =~= rows@.take(i as int));
        }
        if rows[i].ids.len() > width {
            width = rows[i].ids.len();
        }
    }
    proof {
        assert(rows@.take(rows@.len() as int) =~= rows@);
    }
    let mut ids: Vec<u32> = Vec::new();
    let mut mask: Vec<u32> = Vec::new();
    for i in 0..rows.len()
        invariant
            width == widest(rows@),
            ids@ == all_ids(rows@.take(i as int)),
            mask@ == all_masks(rows@.take(i as int)),
            forall|j: int| 0 <= j < i ==> (#[trigger] rows@[j]).ids@.len() == width,
    {
        proof {
            assert(rows@.take(i as int + 1).drop_last() =~= rows@.take(i as int));
        }
        if rows[i].ids.len() != width {
            let mut text: String = "encode_batch produced ragged rows: max_len=".to_string();
            text.append(decimal(width as u64).as_str());
            text.append(", row=");
            text.append(decimal(rows[i].ids.len() as u64).as_str());
            proof {
                assert(first_ragged(rows@, widest(rows@), i as int));
            }
            return Err(EmbedError::Tokenizer(text));
        }
        append_numbers(&mut ids, &rows[i].ids);
        append_numbers(&mut mask, &rows[i].mask);
    }
    proof {
        assert(rows@.take(rows@.len() as int) =~= rows@);
    }
    Ok(TokenBatch { rows: rows.len(), width, ids, mask })
}

fn append_numbers(out: &mut Vec<u32>, more: &Vec<u32>)
    ensures
        final(out)@ == old(out)@ + more@,
{
    proof {
        assert(out@ =~= out@ + more@.take(0));
    }
    for i in 0..more.len()
        invariant
            out@ == old(out)@ + more@.take(i as int),
    {
        out.push(more[i]);
        proof {
            assert(old(out)@ + more@.take(i as int + 1) =~= (old(out)@ + more@.take(
                i as int,
            )).push(more@[i as int]));
        }
    }
    proof {
        assert(more@.take(more@.len() as int) =~= more@);
    }
}

proof fn ids_fill(rows: Seq<TokenRow>, width: nat)
    requires
        forall|j: int| 0 <= j < rows.len() ==> (#[trigger] rows[j]).ids@.len() == width,
    ensures
        all_ids(rows).len() == rows.len() * width,
    decreases rows.len(),
{
    if rows.len() > 0 {
        let short = rows.drop_last();
        assert forall|j: int| 0 <= j < short.len() implies (#[trigger] short[j]).ids@.len()
            == width by {
            assert(short[j] == rows[j]);
        }
        ids_fill(short, width);
        assert(rows[rows.len() - 1].ids@.len() == width);
        assert((rows.len() - 1) * width + width == rows.len() * width) by (nonlinear_arith);
    } else {
        assert(0 * width == 0);
    }
}

/// A stacked batch is a rectangle: as many ids as rows times width.
pub proof fn stacked_ids_fill_the_rectangle(rows: Seq<TokenRow>)
    requires
        forall|j: int| 0 <= j < rows.len() ==> (#[trigger] rows[j]).ids@.len() == widest(rows),
    ensures
        all_ids(rows).len() == rows.len() * widest(rows),
{
    ids_fill(rows, widest(rows));
}

/// Token `c` of text `r` stands at `r * width + c` of a stacked batch.
pub proof fn stacked_ids_are_row_by_row(rows: Seq<TokenRow>, width: nat, r: int, c: int)
    requires
        forall|j: int| 0 <= j < rows.len() ==> (#[trigger] rows[j]).ids@.len() == width,
        0 <= r < rows.len(),
        0 <= c < width,
    ensures
        0 <= r * width + c < all_ids(rows).len(),
        all_ids(rows)[r * width + c] == rows[r].ids@[c],
    decreases rows.len(),
{
    let short = rows.drop_last();
    assert forall|j: int| 0 <= j < short.len() implies (#[trigger] short[j]).ids@.len()
        == width by {
        assert(short[j] == rows[j]);
    }
    ids_fill(short, width);
    assert(rows[rows.len() - 1].ids@.len() == width);
    if r == rows.len() - 1 {
        assert(r * width == short.len() * width) by (nonlinear_arith)
            requires
                r == short.len(),
        ;
    } else {
        assert(short[r] == rows[r]);
        stacked_ids_are_row_by_row(short, width, r, c);
    }
}

/// What a tokenizer came to on a list of texts: one row for each, the text of
/// an error, or no more than that it panicked.
pub type Encoded = Result<Vec<TokenRow>, Option<String>>;

/// What is reported of a failure of the tokenizer: its own words, or that it
/// panicked.
pub open spec fn encode_failure(text: Option<Seq<char>>) -> Seq<char> {
    match text {
        Some(t) => t,
        None => "the tokenizer panicked"@,
    }
}

/// `result` answers what the tokenizer came to: its rows, stacked, or its
/// failure.
pub open spec fn answers_encoding(
    found: Encoded,
    result: Result<TokenBatch, EmbedError>,
) -> bool {
    match found {
        Ok(rows) => is_stacked(rows@, result),
        Err(text) => result matches Err(EmbedError::Tokenizer(t)) && t@ == "encode_batch: "@
            + encode_failure(text_view(text)),
    }
}

/// The token batch that the tokenizer's result gives.
pub fn batch_of(found: &Encoded) -> (result: Result<TokenBatch, EmbedError>)
    ensures
        answers_encoding(*found, result),
{
    match found {
        Ok(rows) => stack_rows(rows.as_slice()),
        Err(Some(e)) => Err(EmbedError::Tokenizer(with_label("encode_batch: ", e.as_str()))),
        Err(None) => Err(
            EmbedError::Tokenizer(with_label("encode_batch: ", "the tokenizer panicked")),
        ),
    }
}

/// The token batch of `texts`, as `encode` turns them into tokens with the
/// special tokens added. No text gives an empty batch without a call; else what
/// the call comes to is answered as [`batch_of`] says.
pub fn tokenize<F: Fn(&[String], bool) -> Encoded>(texts: &[String], encode: &F) -> (result: Result<
    TokenBatch,
    EmbedError,
>)
    requires
        texts@.len() > 0 ==> call_requires(*encode, (texts, true)),
    ensures
        texts@.len() == 0 ==> (result matches Ok(batch) && batch.rows == 0 && batch.width == 0
            && batch.ids@.len() == 0 && batch.mask@.len() == 0),
        texts@.len() > 0 ==> exists|found: Encoded| #[trigger]
            call_ensures(*encode, (texts, true), found) && answers_encoding(found, result),
{
    if texts.len() == 0 {
        return Ok(TokenBatch { rows: 0, width: 0, ids: Vec::new(), mask: Vec::new() });
    }
    batch_of(&encode(texts, true))
}

/// Checks that every vector, given by its length, has the model's length.
pub fn check_vectors(lengths: &[usize], dim: usize) -> (result: Result<(), EmbedError>)
    ensures
        result is Ok <==> forall|i: int| 0 <= i < lengths@.len() ==> #[trigger] lengths@[i] == dim,
        result matches Err(e) ==> e is Forward && e->Forward_0@ == "expected dim="@ + decimal_spec(
            dim as nat,
        ) + ", got ragged output"@,
{
    for i in 0..lengths.len()
        invariant
            forall|j: int| 0 <= j < i ==> #[trigger] lengths@[j] == dim,
    {
        if lengths[i] != dim {
            let mut text: String = "expected dim=".to_string();
            text.append(decimal(dim as u64).as_str());
            text.append(", got ragged output");
            return Err(EmbedError::Forward(text));
        }
    }
    Ok(())
}

proof fn masks_fill(rows: Seq<TokenRow>, width: nat)
    requires
        forall|j: int| 0 <= j < rows.len() ==> (#[trigger] rows[j]).mask@.len() == width,
    ensures
        all_masks(rows).len() == rows.len() * width,
    decreases rows.len(),
{
    if rows.len() > 0 {
        let short = rows.drop_last();
        assert forall|j: int| 0 <= j < short.len() implies (#[trigger] short[j]).mask@.len()
            == width by {
            assert(short[j] == rows[j]);
        }
        masks_fill(short, width);
        assert(rows[rows.len() - 1].mask@.len() == width);
        assert((rows.len() - 1) * width + width == rows.len() * width) by (nonlinear_arith);
    } else {
        assert(0 * width == 0);
    }
}

/// Mask entry `c` of text `r` stands at `r * width + c` of a stacked batch, and
/// the batch holds no other entries.
pub proof fn stacked_masks_are_row_by_row(rows: Seq<TokenRow>, width: nat, r: int, c: int)
    requires
        forall|j: int| 0 <= j < rows.len() ==> (#[trigger] rows[j]).mask@.len() == width,
        0 <= r < rows.len(),
        0 <= c < width,
    ensures
        0 <= r * width + c < all_masks(rows).len(),
        all_masks(rows)[r * width + c] == rows[r].mask@[c],
        all_masks(rows).len() == rows.len() * width,
    decreases rows.len(),
{
    let short = rows.drop_last();
    assert forall|j: int| 0 <= j < short.len() implies (#[trigger] short[j]).mask@.len()
        == width by {
        assert(short[j] == rows[j]);
    }
    masks_fill(short, width);
    masks_fill(rows, width);
    assert(rows[rows.len() - 1].mask@.len() == width);
    if r == rows.len() - 1 {
        assert(r * width == short.len() * width) by (nonlinear_arith)
            requires
                r == short.len(),
        ;
    } else {
        assert(short[r] == rows[r]);
        stacked_masks_are_row_by_row(short, width, r, c);
    }
}

proof fn widest_bounds(rows: Seq<TokenRow>)
    ensures
        forall|j: int| 0 <= j < rows.len() ==> (#[trigger] rows[j]).ids@.len() <= widest(rows),
        rows.len() == 0 ==> widest(rows) == 0,
        rows.len() > 0 ==> exists|j: int|
            0 <= j < rows.len() && (#[trigger] rows[j]).ids@.len() == widest(rows),
    decreases rows.len(),
{
    if rows.len() > 0 {
        let short = rows.drop_last();
        widest_bounds(short);
        assert forall|j: int| 0 <= j < rows.len() implies (#[trigger] rows[j]).ids@.len()
            <= widest(rows) by {
            if j < short.len() {
                assert(short[j] == rows[j]);
            }
        }
        if rows.last().ids@.len() > widest(short) || short.len() == 0 {
            assert(rows[rows.len() - 1].ids@.len() == widest(rows));
        } else {
            let j = choose|j: int|
                0 <= j < short.len() && (#[trigger] short[j]).ids@.len() == widest(short);
            assert(rows[j].ids@.len() == widest(rows));
        }
    }
}

/// Rows are stacked exactly where all have one width, which is then the batch's;
/// every token and every mask entry of every text stands in its place.
pub proof fn stacked_batch_holds_every_row(
    rows: Seq<TokenRow>,
    result: Result<TokenBatch, EmbedError>,
    r: int,
    c: int,
)
    requires
        is_stacked(rows, result),
        0 <= r < rows.len(),
        0 <= c < rows[r].ids@.len(),
        forall|j: int|
            0 <= j < rows.len() ==> (#[trigger] rows[j]).mask@.len() == rows[j].ids@.len(),
    ensures
        result is Ok <==> forall|i: int, j: int|
            0 <= i < rows.len() && 0 <= j < rows.len() ==> (#[trigger] rows[i]).ids@.len() == (
            #[trigger] rows[j]).ids@.len(),
        result matches Ok(batch) ==> {
            &&& batch.rows == rows.len()
            &&& batch.width == rows[r].ids@.len()
            &&& batch.ids@.len() == batch.rows * batch.width
            &&& batch.mask@.len() == batch.rows * batch.width
            &&& batch.ids@[r * batch.width + c] == rows[r].ids@[c]
            &&& batch.mask@[r * batch.width + c] == rows[r].mask@[c]
        },
{
    widest_bounds(rows);
    let width = widest(rows);
    if result is Ok {
        assert forall|j: int| 0 <= j < rows.len() implies (#[trigger] rows[j]).mask@.len()
            == width by {
            assert(rows[j].ids@.len() == width);
        }
        ids_fill(rows, width);
        stacked_ids_are_row_by_row(rows, width, r, c);
        stacked_masks_are_row_by_row(rows, width, r, c);
    } else {
        let i = choose|i: int| #[trigger] first_ragged(rows, width, i);
        let j = choose|j: int| 0 <= j < rows.len() && (#[trigger] rows[j]).ids@.len() == width;
        assert(rows[i].ids@.len() != rows[j].ids@.len());
    }
}

proof fn ragged_message_reads_back_by_parts(width: nat, row: nat)
    ensures
        ragged_message(width, row) == "encode_batch produced ragged rows: max_len="@ + (decimal_spec(width as nat) + (", row="@ + (decimal_spec(row as nat)))),
{
    let x0 = "encode_batch produced ragged rows: max_len="@;
    let x1 = decimal_spec(width as nat);
    let x2 = ", row="@;
    let x3 = decimal_spec(row as nat);
    let s0 = x0;
    let s1 = s0 + x1;
    let s2 = s1 + x2;
    let s3 = s2 + x3;
    let r3 = x3;
    let r2 = x2 + r3;
    let r1 = x1 + r2;
    let r0 = x0 + r1;
    regroup_three(s1, x2, r3);
    regroup_three(s0, x1, r2);
}

proof fn ragged_message_reads_back_maxlen(width: nat, row: nat)
    ensures
        number_behind(ragged_message(width, row), "max_len="@) == Some(width as int),
{
    let mark = "max_len="@;
    ragged_message_reads_back_by_parts(width, row);
    assert(mark.len() == 8 && mark[0] == 'm') by {
        reveal_strlit("max_len=");
    }
    let r4 = Seq::<char>::empty();
    let x3 = decimal_spec(row as nat);
    let r3 = x3;
    let x2 = ", row="@;
    let r2 = x2 + r3;
    let x1 = decimal_spec(width as nat);
    let r1 = x1 + r2;
    let x0 = "encode_batch produced ragged rows: max_len="@;
    let r0 = x0 + r1;
    assert(x0 =~= "encode_batch produced ragged rows: "@ + mark && !"encode_batch produced ragged rows: "@.contains(mark[0])) by {
        reveal_strlit("encode_batch produced ragged rows: max_len=");
        reveal_strlit("encode_batch produced ragged rows: ");
        reveal_strlit("max_len=");
    }
    regroup_three("encode_batch produced ragged rows: "@, mark, r1);
    find_skips("encode_batch produced ragged rows: "@, mark + r1, mark);
    assert(r2.len() > 0 && !is_digit(r2[0])) by {
        reveal_strlit(", row=");
        reveal_strlit("max_len=");
    }
    find_number(mark, width as nat, r2);
}

proof fn ragged_message_reads_back_row(width: nat, row: nat)
    ensures
        number_behind(ragged_message(width, row), ", row="@) == Some(row as int),
{
    let mark = ", row="@;
    ragged_message_reads_back_by_parts(width, row);
    assert(mark.len() == 6 && mark[0] == ',') by {
        reveal_strlit(", row=");
    }
    let r4 = Seq::<char>::empty();
    let x3 = decimal_spec(row as nat);
    let r3 = x3;
    let x2 = ", row="@;
    let r2 = x2 + r3;
    let x1 = decimal_spec(width as nat);
    let r1 = x1 + r2;
    let x0 = "encode_batch produced ragged rows: max_len="@;
    let r0 = x0 + r1;
    assert(!x0.contains(mark[0])) by {
        reveal_strlit("encode_batch produced ragged rows: max_len=");
        reveal_strlit(", row=");
    }
    find_skips(x0, r1, mark);
    number_is_plain(width as nat);
    find_skips(x1, r2, mark);
    find_number(mark, row as nat, r4);
}

/// The error for a ragged batch tells the width of the widest row and of the row
/// that differs.
pub proof fn ragged_message_reads_back(width: nat, row: nat)
    ensures
        number_behind(ragged_message(width, row), "max_len="@) == Some(width as int),
        number_behind(ragged_message(width, row), ", row="@) == Some(row as int),
{
    ragged_message_reads_back_maxlen(width, row);
    ragged_message_reads_back_row(width, row);
}

} // verus!
