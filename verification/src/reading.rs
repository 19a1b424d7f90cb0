//! What a reader takes back out of texts that are written for people and
//! programs: the value behind a label, the line of a number, the content of an
//! element.

use crate::text::{
    all_digits, decimal_reads_back, decimal_spec, digits_alone, is_digit, is_white_space,
    parse_int_spec, trim_end_spec, trim_spec, trim_start_spec,
};
use vstd::prelude::*;

verus! {

/// What stands in `s` before the first `stop`; all of it where there is none.
pub open spec fn upto(s: Seq<char>, stop: char) -> Seq<char>
    decreases s.len(),
{
    if s.len() == 0 || s[0] == stop {
        Seq::empty()
    } else {
        seq![s[0]] + upto(s.skip(1), stop)
    }
}

/// What stands in `s` behind the first `stop`; nothing where there is none.
pub open spec fn behind(s: Seq<char>, stop: char) -> Seq<char>
    decreases s.len(),
{
    if s.len() == 0 {
        s
    } else if s[0] == stop {
        s.skip(1)
    } else {
        behind(s.skip(1), stop)
    }
}

/// Field `k` of `s`, where `stop` stands between neighbours.
pub open spec fn field(s: Seq<char>, stop: char, k: nat) -> Seq<char>
    decreases k,
{
    if k == 0 {
        upto(s, stop)
    } else {
        field(behind(s, stop), stop, (k - 1) as nat)
    }
}

proof fn behind_shrinks(s: Seq<char>, stop: char)
    ensures
        behind(s, stop).len() <= s.len(),
        s.len() > 0 ==> behind(s, stop).len() < s.len(),
    decreases s.len(),
{
    if s.len() > 0 && s[0] != stop {
        behind_shrinks(s.skip(1), stop);
    }
}

/// What stands behind the label on the first line that starts with it, without
/// the white space around it.
pub open spec fn line_value(s: Seq<char>, label: Seq<char>) -> Option<Seq<char>>
    decreases s.len(),
    via line_value_ends
{
    let line = upto(s, '\n');
    if s.len() == 0 {
        None
    } else if label.is_prefix_of(line) {
        Some(trim_spec(line.skip(label.len() as int)))
    } else {
        line_value(behind(s, '\n'), label)
    }
}

#[via_fn]
proof fn line_value_ends(s: Seq<char>, label: Seq<char>) {
    behind_shrinks(s, '\n');
}

/// The number that stands behind the label.
pub open spec fn line_number(s: Seq<char>, label: Seq<char>) -> Option<int> {
    match line_value(s, label) {
        Some(value) => parse_int_spec(value),
        None => None,
    }
}

/// What stands between the first `mark` and the next `<`.
pub open spec fn element_value(s: Seq<char>, mark: Seq<char>) -> Option<Seq<char>>
    decreases s.len(),
{
    if s.len() == 0 {
        None
    } else if mark.is_prefix_of(s) {
        Some(upto(s.skip(mark.len() as int), '<'))
    } else {
        element_value(s.skip(1), mark)
    }
}

/// The number that stands between the first `mark` and the next `<`.
pub open spec fn element_number(s: Seq<char>, mark: Seq<char>) -> Option<int> {
    match element_value(s, mark) {
        Some(value) => parse_int_spec(value),
        None => None,
    }
}

/// Up to the first `stop` and behind it.
pub proof fn split_at_stop(a: Seq<char>, stop: char, rest: Seq<char>)
    requires
        !a.contains(stop),
    ensures
        upto(a, stop) == a,
        behind(a, stop) == Seq::<char>::empty(),
        upto(a + seq![stop] + rest, stop) == a,
        behind(a + seq![stop] + rest, stop) == rest,
    decreases a.len(),
{
    let s = a + seq![stop] + rest;
    if a.len() == 0 {
        assert(a =~= Seq::empty());
        assert(s.skip(1) =~= rest);
    } else {
        let tail = a.skip(1);
        assert(a.contains(a[0]));
        assert(!tail.contains(stop)) by {
            if tail.contains(stop) {
                let k = choose|k: int| 0 <= k < tail.len() && tail[k] == stop;
                assert(a[k + 1] == stop);
            }
        }
        split_at_stop(tail, stop, rest);
        assert(s.skip(1) =~= tail + seq![stop] + rest);
        assert(seq![a[0]] + tail =~= a);
    }
}

/// A line that does not start with the label is passed by.
pub proof fn other_line(line: Seq<char>, rest: Seq<char>, label: Seq<char>, j: int)
    requires
        !line.contains('\n'),
        0 <= j < label.len(),
        j < line.len() ==> label[j] != line[j],
    ensures
        line_value(line + seq!['\n'] + rest, label) == line_value(rest, label),
{
    split_at_stop(line, '\n', rest);
    assert(!label.is_prefix_of(line)) by {
        if label.is_prefix_of(line) {
            assert(label[j] == line[j]);
        }
    }
}

/// The value behind the label is found on the line that starts with it.
pub proof fn found_line(label: Seq<char>, value: Seq<char>, rest: Seq<char>)
    requires
        !label.contains('\n'),
        !value.contains('\n'),
    ensures
        line_value(label + value + seq!['\n'] + rest, label) == Some(trim_spec(value)),
{
    let line = label + value;
    assert(!line.contains('\n')) by {
        if line.contains('\n') {
            let k = choose|k: int| 0 <= k < line.len() && line[k] == '\n';
            if k < label.len() {
                assert(label[k] == '\n');
            } else {
                assert(value[k - label.len()] == '\n');
            }
        }
    }
    split_at_stop(line, '\n', rest);
    assert(label.is_prefix_of(line));
    assert(line.skip(label.len() as int) =~= value);
}

/// Blanks before a text that starts and ends with ink are trimmed off.
pub proof fn trim_padded(pad: Seq<char>, core: Seq<char>)
    requires
        forall|i: int| 0 <= i < pad.len() ==> #[trigger] pad[i] == ' ',
        core.len() > 0,
        !is_white_space(core[0]),
        !is_white_space(core.last()),
    ensures
        trim_spec(pad + core) == core,
    decreases pad.len(),
{
    let s = pad + core;
    if pad.len() == 0 {
        assert(s =~= core);
        assert(trim_start_spec(core) == core);
        assert(trim_end_spec(core) == core);
    } else {
        let tail = pad.skip(1);
        assert forall|i: int| 0 <= i < tail.len() implies #[trigger] tail[i] == ' ' by {
            assert(tail[i] == pad[i + 1]);
        }
        trim_padded(tail, core);
        assert(s[0] == pad[0]);
        assert(s.skip(1) =~= tail + core);
    }
}

/// A number in decimal is plain: digits alone.
pub proof fn number_is_plain(n: nat)
    ensures
        decimal_spec(n).len() > 0,
        forall|c: char| !is_digit(c) ==> !#[trigger] decimal_spec(n).contains(c),
        !is_white_space(decimal_spec(n)[0]),
        !is_white_space(decimal_spec(n).last()),
        parse_int_spec(decimal_spec(n)) == Some(n as int),
{
    digits_alone(n);
    decimal_reads_back(n);
    let text = decimal_spec(n);
    assert(all_digits(text));
    assert(is_digit(text[0]));
    assert(is_digit(text[text.len() - 1]));
    assert forall|c: char| !is_digit(c) implies !#[trigger] text.contains(c) by {
        if text.contains(c) {
            let k = choose|k: int| 0 <= k < text.len() && text[k] == c;
            assert(is_digit(text[k]));
        }
    }
}

/// The number behind the label is found on the line that starts with it.
pub proof fn number_line(label: Seq<char>, pad: Seq<char>, n: nat, rest: Seq<char>)
    requires
        !label.contains('\n'),
        forall|i: int| 0 <= i < pad.len() ==> #[trigger] pad[i] == ' ',
    ensures
        line_value(label + (pad + decimal_spec(n)) + seq!['\n'] + rest, label) == Some(
            decimal_spec(n),
        ),
        parse_int_spec(decimal_spec(n)) == Some(n as int),
{
    number_is_plain(n);
    let value = pad + decimal_spec(n);
    assert(!value.contains('\n')) by {
        if value.contains('\n') {
            let k = choose|k: int| 0 <= k < value.len() && value[k] == '\n';
            if k < pad.len() {
                assert(pad[k] == ' ');
            } else {
                assert(decimal_spec(n)[k - pad.len()] == '\n');
                assert(decimal_spec(n).contains('\n'));
            }
        }
    }
    found_line(label, value, rest);
    trim_padded(pad, decimal_spec(n));
}

/// Text without a `<` is passed by.
pub proof fn skip_plain(plain: Seq<char>, rest: Seq<char>, mark: Seq<char>)
    requires
        !plain.contains('<'),
        mark.len() > 0,
        mark[0] == '<',
    ensures
        element_value(plain + rest, mark) == element_value(rest, mark),
    decreases plain.len(),
{
    let s = plain + rest;
    if plain.len() == 0 {
        assert(s =~= rest);
    } else {
        let tail = plain.skip(1);
        assert(plain.contains(plain[0]));
        assert(!tail.contains('<')) by {
            if tail.contains('<') {
                let k = choose|k: int| 0 <= k < tail.len() && tail[k] == '<';
                assert(plain[k + 1] == '<');
            }
        }
        assert(!mark.is_prefix_of(s)) by {
            if mark.is_prefix_of(s) {
                assert(mark[0] == s[0]);
            }
        }
        assert(s.skip(1) =~= tail + rest);
        skip_plain(tail, rest, mark);
    }
}

/// A tag other than `mark` is passed by.
pub proof fn skip_tag(tag: Seq<char>, rest: Seq<char>, mark: Seq<char>, j: int)
    requires
        tag.len() > 0,
        !tag.skip(1).contains('<'),
        mark.len() > 0,
        mark[0] == '<',
        0 <= j < mark.len(),
        j < tag.len(),
        mark[j] != tag[j],
    ensures
        element_value(tag + rest, mark) == element_value(rest, mark),
{
    let s = tag + rest;
    assert(!mark.is_prefix_of(s)) by {
        if mark.is_prefix_of(s) {
            assert(mark[j] == s[j]);
        }
    }
    assert(s.skip(1) =~= tag.skip(1) + rest);
    skip_plain(tag.skip(1), rest, mark);
}

/// What stands behind `mark` is found.
pub proof fn at_tag(mark: Seq<char>, value: Seq<char>, rest: Seq<char>)
    requires
        mark.len() > 0,
        !value.contains('<'),
        rest.len() > 0,
        rest[0] == '<',
    ensures
        element_value(mark + (value + rest), mark) == Some(value),
{
    let s = mark + (value + rest);
    assert(mark.is_prefix_of(s));
    assert(s.skip(mark.len() as int) =~= value + seq!['<'] + rest.skip(1));
    split_at_stop(value, '<', rest.skip(1));
}

/// A text of lines, each a label and what stands behind it.
pub open spec fn lines_text(lines: Seq<(Seq<char>, Seq<char>)>) -> Seq<char>
    decreases lines.len(),
{
    if lines.len() == 0 {
        Seq::empty()
    } else {
        lines[0].0 + lines[0].1 + seq!['\n'] + lines_text(lines.skip(1))
    }
}

/// No label and no value holds a line break.
pub open spec fn unbroken(lines: Seq<(Seq<char>, Seq<char>)>) -> bool {
    forall|i: int|
        0 <= i < lines.len() ==> !(#[trigger] lines[i]).0.contains('\n') && !lines[i].1.contains(
            '\n',
        )
}

/// The value behind a label is read back where no line before it starts with the
/// label.
pub proof fn labelled_value_reads_back(lines: Seq<(Seq<char>, Seq<char>)>, k: int)
    requires
        unbroken(lines),
        0 <= k < lines.len(),
        forall|i: int|
            0 <= i < k ==> !lines[k].0.is_prefix_of((#[trigger] lines[i]).0 + lines[i].1),
    ensures
        line_value(lines_text(lines), lines[k].0) == Some(trim_spec(lines[k].1)),
    decreases k,
{
    let rest = lines.skip(1);
    let first = lines[0];
    let text = lines_text(rest);
    if k == 0 {
        found_line(first.0, first.1, text);
    } else {
        assert forall|i: int| 0 <= i < rest.len() implies !(#[trigger] rest[i]).0.contains('\n')
            && !rest[i].1.contains('\n') by {
            assert(rest[i] == lines[i + 1]);
        }
        assert(rest[k - 1] == lines[k]);
        assert forall|i: int| 0 <= i < k - 1 implies !rest[k - 1].0.is_prefix_of(
            (#[trigger] rest[i]).0 + rest[i].1,
        ) by {
            assert(rest[i] == lines[i + 1]);
        }
        labelled_value_reads_back(rest, k - 1);
        let line = first.0 + first.1;
        joined_lacks(first.0, first.1, '\n');
        split_at_stop(line, '\n', text);
    }
}

/// What neither of two texts holds, the two together do not hold.
pub proof fn joined_lacks(a: Seq<char>, b: Seq<char>, c: char)
    requires
        !a.contains(c),
        !b.contains(c),
    ensures
        !(a + b).contains(c),
{
    let s = a + b;
    if s.contains(c) {
        let k = choose|k: int| 0 <= k < s.len() && s[k] == c;
        if k < a.len() {
            assert(a[k] == c);
        } else {
            assert(b[k - a.len()] == c);
        }
    }
}

/// Two texts that differ at `j` are no prefixes of each other.
pub proof fn differs_at(label: Seq<char>, line: Seq<char>, j: int)
    requires
        0 <= j < label.len(),
        j < line.len() ==> label[j] != line[j],
    ensures
        !label.is_prefix_of(line),
{
    if label.is_prefix_of(line) {
        assert(label[j] == line[j]);
    }
}

/// A number with blanks before it is read as that number.
pub proof fn padded_number(pad: Seq<char>, n: nat)
    requires
        forall|i: int| 0 <= i < pad.len() ==> #[trigger] pad[i] == ' ',
    ensures
        !(pad + decimal_spec(n)).contains('\n'),
        parse_int_spec(trim_spec(pad + decimal_spec(n))) == Some(n as int),
{
    number_is_plain(n);
    trim_padded(pad, decimal_spec(n));
    assert(!pad.contains('\n'));
    joined_lacks(pad, decimal_spec(n), '\n');
}

/// The pieces of a line and what follows it, grouped as a line.
pub proof fn regroup(label: Seq<char>, pad: Seq<char>, value: Seq<char>, rest: Seq<char>)
    ensures
        label + pad + (value + (seq!['\n'] + rest)) == label + (pad + value) + seq!['\n'] + rest,
{
    assert(label + pad + (value + (seq!['\n'] + rest)) =~= label + (pad + value) + seq!['\n']
        + rest);
}

/// Joining texts does not depend on the grouping.
pub proof fn regroup_three(a: Seq<char>, b: Seq<char>, c: Seq<char>)
    ensures
        a + b + c == a + (b + c),
{
    assert(a + b + c =~= a + (b + c));
}

/// A text of lines.
pub open spec fn rows_text(rows: Seq<Seq<char>>) -> Seq<char>
    decreases rows.len(),
{
    if rows.len() == 0 {
        Seq::empty()
    } else {
        rows[0] + seq!['\n'] + rows_text(rows.skip(1))
    }
}

/// No line holds a line break.
pub open spec fn rows_unbroken(rows: Seq<Seq<char>>) -> bool {
    forall|i: int| 0 <= i < rows.len() ==> !(#[trigger] rows[i]).contains('\n')
}

/// Each line is read back at its place.
pub proof fn row_reads_back(rows: Seq<Seq<char>>, k: nat)
    requires
        rows_unbroken(rows),
        k < rows.len(),
    ensures
        field(rows_text(rows), '\n', k) == rows[k as int],
    decreases k,
{
    let rest = rows.skip(1);
    split_at_stop(rows[0], '\n', rows_text(rest));
    if k > 0 {
        assert forall|i: int| 0 <= i < rest.len() implies !(#[trigger] rest[i]).contains('\n') by {
            assert(rest[i] == rows[i + 1]);
        }
        row_reads_back(rest, (k - 1) as nat);
        assert(rest[k - 1] == rows[k as int]);
    }
}

/// Lines followed by lines are one text of lines.
pub proof fn rows_text_joined(a: Seq<Seq<char>>, b: Seq<Seq<char>>)
    ensures
        rows_text(a + b) == rows_text(a) + rows_text(b),
    decreases a.len(),
{
    if a.len() == 0 {
        assert(a + b =~= b);
        assert(rows_text(a) + rows_text(b) =~= rows_text(b));
    } else {
        assert((a + b).skip(1) =~= a.skip(1) + b);
        rows_text_joined(a.skip(1), b);
        assert(rows_text(a + b) =~= rows_text(a) + rows_text(b));
    }
}

/// What follows the first `mark` in `s`.
pub open spec fn find(s: Seq<char>, mark: Seq<char>) -> Option<Seq<char>>
    decreases s.len(),
{
    if s.len() == 0 {
        None
    } else if mark.is_prefix_of(s) {
        Some(s.skip(mark.len() as int))
    } else {
        find(s.skip(1), mark)
    }
}

/// The digits that `s` starts with.
pub open spec fn leading_digits(s: Seq<char>) -> Seq<char>
    decreases s.len(),
{
    if s.len() > 0 && is_digit(s[0]) {
        seq![s[0]] + leading_digits(s.skip(1))
    } else {
        Seq::empty()
    }
}

/// The number that follows the first `mark` in `s`.
pub open spec fn number_behind(s: Seq<char>, mark: Seq<char>) -> Option<int> {
    match find(s, mark) {
        Some(rest) => parse_int_spec(leading_digits(rest)),
        None => None,
    }
}

/// Text without the first character of the mark is passed by.
pub proof fn find_skips(plain: Seq<char>, rest: Seq<char>, mark: Seq<char>)
    requires
        mark.len() > 0,
        !plain.contains(mark[0]),
    ensures
        find(plain + rest, mark) == find(rest, mark),
    decreases plain.len(),
{
    let s = plain + rest;
    if plain.len() == 0 {
        assert(s =~= rest);
    } else {
        let tail = plain.skip(1);
        assert(plain.contains(plain[0]));
        assert(!tail.contains(mark[0])) by {
            if tail.contains(mark[0]) {
                let k = choose|k: int| 0 <= k < tail.len() && tail[k] == mark[0];
                assert(plain[k + 1] == mark[0]);
            }
        }
        differs_at(mark, s, 0);
        assert(s.skip(1) =~= tail + rest);
        find_skips(tail, rest, mark);
    }
}

/// A piece that starts like the mark and goes on otherwise is passed by.
pub proof fn find_passes(piece: Seq<char>, rest: Seq<char>, mark: Seq<char>, j: int)
    requires
        piece.len() > 0,
        mark.len() > 0,
        !piece.skip(1).contains(mark[0]),
        0 <= j < mark.len(),
        j < piece.len(),
        mark[j] != piece[j],
    ensures
        find(piece + rest, mark) == find(rest, mark),
{
    let s = piece + rest;
    differs_at(mark, s, j);
    assert(s.skip(1) =~= piece.skip(1) + rest);
    find_skips(piece.skip(1), rest, mark);
}

/// The number behind the mark is read, where no digit follows it.
pub proof fn find_number(mark: Seq<char>, n: nat, rest: Seq<char>)
    requires
        mark.len() > 0,
        rest.len() == 0 || !is_digit(rest[0]),
    ensures
        number_behind(mark + (decimal_spec(n) + rest), mark) == Some(n as int),
{
    let s = mark + (decimal_spec(n) + rest);
    assert(mark.is_prefix_of(s));
    assert(s.skip(mark.len() as int) =~= decimal_spec(n) + rest);
    number_is_plain(n);
    digits_alone(n);
    digits_lead(decimal_spec(n), rest);
}

proof fn digits_lead(digits: Seq<char>, rest: Seq<char>)
    requires
        all_digits(digits),
        rest.len() == 0 || !is_digit(rest[0]),
    ensures
        leading_digits(digits + rest) == digits,
    decreases digits.len(),
{
    let s = digits + rest;
    if digits.len() == 0 {
        assert(s =~= rest);
        assert(digits =~= Seq::empty());
    } else {
        let tail = digits.skip(1);
        assert(is_digit(digits[0]));
        assert forall|i: int| 0 <= i < tail.len() implies is_digit(#[trigger] tail[i]) by {
            assert(tail[i] == digits[i + 1]);
        }
        digits_lead(tail, rest);
        assert(s.skip(1) =~= tail + rest);
        assert(seq![digits[0]] + tail =~= digits);
    }
}

} // verus!
