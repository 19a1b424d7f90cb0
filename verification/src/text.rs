//! Text primitives: conversions between strings and character vectors,
//! trimming, ASCII case, decimal numbers and UTF-8 sizes.

use vstd::prelude::*;
use vstd::string::StringExecFns;
use vstd::utf8::{encode_scalar, encode_utf8};

verus! {

/// `String::push` appends one character to the end of the string.
pub assume_specification[ String::push ](s: &mut String, c: char)
    ensures
        final(s)@ == old(s)@.push(c),
;

/// The characters of `s`, in order.
pub fn to_chars(s: &str) -> (chars: Vec<char>)
    ensures
        chars@ == s@,
{
    let mut chars: Vec<char> = Vec::new();
    for c in it: s.chars()
        invariant
            it.seq() == s@,
            chars@ == s@.take(it.index() as int),
    {
        chars.push(c);
        proof {
            assert(s@.take(it.index() as int + 1) =~= s@.take(it.index() as int).push(c));
        }
    }
    proof {
        assert(s@.take(s@.len() as int) =~= s@);
    }
    chars
}

/// The string that holds exactly `chars`, in order.
pub fn from_chars(chars: &[char]) -> (s: String)
    ensures
        s@ == chars@,
{
    let mut s: String = String::new();
    proof {
        assert(chars@.take(0) =~= s@);
    }
    for i in 0..chars.len()
        invariant
            s@ == chars@.take(i as int),
    {
        s.push(chars[i]);
        proof {
            assert(chars@.take(i as int + 1) =~= chars@.take(i as int).push(chars@[i as int]));
        }
    }
    proof {
        assert(chars@.take(chars@.len() as int) =~= chars@);
    }
    s
}

/// Whether two texts hold the same characters.
pub fn same_text(a: &str, b: &str) -> (same: bool)
    ensures
        same == (a@ == b@),
{
    let left: Vec<char> = to_chars(a);
    let right: Vec<char> = to_chars(b);
    if left.len() != right.len() {
        return false;
    }
    for i in 0..left.len()
        invariant
            left@ == a@,
            right@ == b@,
            left.len() == right.len(),
            forall|j: int| 0 <= j < i ==> left@[j] == right@[j],
    {
        if left[i] != right[i] {
            return false;
        }
    }
    proof {
        assert(a@ =~= b@);
    }
    true
}

/// The characters that Unicode gives the `White_Space` property.
pub open spec fn is_white_space(c: char) -> bool {
    let code = c as u32;
    ||| 0x9 <= code <= 0xd
    ||| code == 0x20
    ||| code == 0x85
    ||| code == 0xa0
    ||| code == 0x1680
    ||| 0x2000 <= code <= 0x200a
    ||| code == 0x2028
    ||| code == 0x2029
    ||| code == 0x202f
    ||| code == 0x205f
    ||| code == 0x3000
}

/// Whether `c` is Unicode white space.
pub fn white_space(c: char) -> (yes: bool)
    ensures
        yes == is_white_space(c),
{
    let code: u32 = c as u32;
    (0x9 <= code && code <= 0xd) || code == 0x20 || code == 0x85 || code == 0xa0 || code == 0x1680
        || (0x2000 <= code && code <= 0x200a) || code == 0x2028 || code == 0x2029 || code == 0x202f
        || code == 0x205f || code == 0x3000
}

/// Control characters: the general category `Cc`.
pub open spec fn is_control(c: char) -> bool {
    let code = c as u32;
    code <= 0x1f || 0x7f <= code <= 0x9f
}

/// Whether `c` is a control character.
pub fn control(c: char) -> (yes: bool)
    ensures
        yes == is_control(c),
{
    let code: u32 = c as u32;
    code <= 0x1f || (0x7f <= code && code <= 0x9f)
}

/// `s` without the white space it starts with.
pub open spec fn trim_start_spec(s: Seq<char>) -> Seq<char>
    decreases s.len(),
{
    if s.len() > 0 && is_white_space(s[0]) {
        trim_start_spec(s.skip(1))
    } else {
        s
    }
}

/// `s` without the white space it ends with.
pub open spec fn trim_end_spec(s: Seq<char>) -> Seq<char>
    decreases s.len(),
{
    if s.len() > 0 && is_white_space(s.last()) {
        trim_end_spec(s.drop_last())
    } else {
        s
    }
}

/// `s` without leading and trailing white space.
pub open spec fn trim_spec(s: Seq<char>) -> Seq<char> {
    trim_end_spec(trim_start_spec(s))
}

/// Trimming never lengthens a text.
pub proof fn trim_shrinks(s: Seq<char>)
    ensures
        trim_spec(s).len() <= s.len(),
{
    trim_start_shrinks(s);
    trim_end_shrinks(trim_start_spec(s));
}

proof fn trim_start_shrinks(s: Seq<char>)
    ensures
        trim_start_spec(s).len() <= s.len(),
    decreases s.len(),
{
    if s.len() > 0 && is_white_space(s[0]) {
        trim_start_shrinks(s.skip(1));
    }
}

proof fn trim_end_shrinks(s: Seq<char>)
    ensures
        trim_end_spec(s).len() <= s.len(),
    decreases s.len(),
{
    if s.len() > 0 && is_white_space(s.last()) {
        trim_end_shrinks(s.drop_last());
    }
}

/// `s` without leading and trailing white space.
pub fn trim(s: &[char]) -> (t: Vec<char>)
    ensures
        t@ == trim_spec(s@),
{
    let n: usize = s.len();
    let mut from: usize = 0;
    proof {
        assert(s@.skip(0) =~= s@);
    }
    while from < n && white_space(s[from])
        invariant
            from <= n,
            n == s@.len(),
            trim_start_spec(s@) == trim_start_spec(s@.skip(from as int)),
        decreases n - from,
    {
        proof {
            assert(s@.skip(from as int).skip(1) =~= s@.skip(from as int + 1));
        }
        from = from + 1;
    }
    let ghost tail = s@.skip(from as int);
    let mut to: usize = n;
    proof {
        assert(tail =~= s@.subrange(from as int, to as int));
    }
    while to > from && white_space(s[to - 1])
        invariant
            from <= to <= n,
            n == s@.len(),
            trim_end_spec(tail) == trim_end_spec(s@.subrange(from as int, to as int)),
        decreases to,
    {
        proof {
            assert(s@.subrange(from as int, to as int).drop_last() =~= s@.subrange(
                from as int,
                to as int - 1,
            ));
        }
        to = to - 1;
    }
    slice_of(s, from, to)
}

/// The characters of `s` from `from` up to, not with, `to`.
pub fn slice_of(s: &[char], from: usize, to: usize) -> (part: Vec<char>)
    requires
        from <= to <= s@.len(),
    ensures
        part@ == s@.subrange(from as int, to as int),
{
    let mut part: Vec<char> = Vec::new();
    for i in from..to
        invariant
            from <= to <= s@.len(),
            part@ == s@.subrange(from as int, i as int),
    {
        part.push(s[i]);
        proof {
            assert(s@.subrange(from as int, i as int + 1) =~= s@.subrange(
                from as int,
                i as int,
            ).push(s@[i as int]));
        }
    }
    part
}

/// An ASCII capital letter as its small letter, any other character as it is.
pub open spec fn ascii_lower_spec(c: char) -> char {
    if 'A' <= c <= 'Z' {
        (c as u32 + 32) as char
    } else {
        c
    }
}

/// An ASCII capital letter as its small letter, any other character as it is.
pub fn ascii_lower(c: char) -> (lower: char)
    ensures
        lower == ascii_lower_spec(c),
{
    if 'A' <= c && c <= 'Z' {
        (c as u8 + 32) as char
    } else {
        c
    }
}

/// `s` with every ASCII capital letter made small.
pub open spec fn ascii_lowercase_spec(s: Seq<char>) -> Seq<char> {
    s.map_values(|c: char| ascii_lower_spec(c))
}

/// `s` with every ASCII capital letter made small.
pub fn ascii_lowercase(s: &str) -> (lower: String)
    ensures
        lower@ == ascii_lowercase_spec(s@),
{
    let mut lower: String = String::new();
    for c in it: s.chars()
        invariant
            it.seq() == s@,
            lower@ == ascii_lowercase_spec(s@.take(it.index() as int)),
    {
        lower.push(ascii_lower(c));
        proof {
            assert(ascii_lowercase_spec(s@.take(it.index() as int + 1)) =~= ascii_lowercase_spec(
                s@.take(it.index() as int),
            ).push(ascii_lower_spec(c)));
        }
    }
    proof {
        assert(s@.take(s@.len() as int) =~= s@);
    }
    lower
}

/// The decimal digit of value `d`.
pub open spec fn digit_char(d: int) -> char {
    (48 + d) as char
}

/// `n` in decimal, without leading zeros.
pub open spec fn decimal_spec(n: nat) -> Seq<char>
    decreases n,
{
    if n < 10 {
        seq![digit_char(n as int)]
    } else {
        decimal_spec(n / 10).push(digit_char((n % 10) as int))
    }
}

/// `n` in decimal, without leading zeros.
pub fn decimal(n: u64) -> (s: String)
    ensures
        s@ == decimal_spec(n as nat),
    decreases n,
{
    if n < 10 {
        let mut s: String = String::new();
        s.push((48u8 + n as u8) as char);
        proof {
            assert(s@ =~= seq![digit_char(n as int)]);
        }
        s
    } else {
        let mut s: String = decimal(n / 10);
        s.push((48u8 + (n % 10) as u8) as char);
        s
    }
}

/// `n` in decimal, with a sign if it is negative.
pub open spec fn signed_decimal_spec(n: int) -> Seq<char> {
    if n < 0 {
        seq!['-'] + decimal_spec((-n) as nat)
    } else {
        decimal_spec(n as nat)
    }
}

/// `n` in decimal, with a sign if it is negative.
pub fn signed_decimal(n: i64) -> (s: String)
    ensures
        s@ == signed_decimal_spec(n as int),
{
    if n < 0 {
        let magnitude: u64 = (-(n as i128)) as u64;
        let mut s: String = String::new();
        s.push('-');
        s.append(decimal(magnitude).as_str());
        proof {
            assert(s@ =~= seq!['-'] + decimal_spec((-n) as nat));
        }
        s
    } else {
        decimal(n as u64)
    }
}

/// Number of bytes of `c` in UTF-8.
pub open spec fn char_bytes(c: char) -> nat {
    encode_scalar(c as u32).len()
}

/// Number of bytes of `c` in UTF-8.
pub fn utf8_width(c: char) -> (bytes: usize)
    ensures
        bytes == char_bytes(c),
        1 <= bytes <= 4,
{
    let code: u32 = c as u32;
    if code < 0x80 {
        1
    } else if code < 0x800 {
        2
    } else if code < 0x10000 {
        3
    } else {
        4
    }
}

/// Encoding goes character by character.
pub proof fn encode_push(s: Seq<char>, c: char)
    ensures
        encode_utf8(s.push(c)) == encode_utf8(s) + encode_scalar(c as u32),
    decreases s.len(),
{
    let whole = s.push(c);
    if s.len() == 0 {
        assert(whole.drop_first() =~= s);
        assert(encode_utf8(s) =~= Seq::empty());
        assert(encode_utf8(whole) =~= encode_utf8(s) + encode_scalar(c as u32));
    } else {
        encode_push(s.drop_first(), c);
        assert(whole.drop_first() =~= s.drop_first().push(c));
        assert(encode_utf8(whole) =~= encode_utf8(s) + encode_scalar(c as u32));
    }
}

/// Whether `s` starts with `prefix`.
pub fn starts_with(s: &str, prefix: &str) -> (yes: bool)
    ensures
        yes == prefix@.is_prefix_of(s@),
{
    strip_prefix(s, prefix).is_some()
}

/// What follows `prefix` in `s`, where `s` starts with it.
pub fn strip_prefix(s: &str, prefix: &str) -> (rest: Option<String>)
    ensures
        match rest {
            Some(r) => prefix@.is_prefix_of(s@) && r@ == s@.skip(prefix@.len() as int),
            None => !prefix@.is_prefix_of(s@),
        },
{
    let chars: Vec<char> = to_chars(s);
    let lead: Vec<char> = to_chars(prefix);
    if lead.len() > chars.len() {
        return None;
    }
    for i in 0..lead.len()
        invariant
            chars@ == s@,
            lead@ == prefix@,
            lead.len() <= chars.len(),
            forall|j: int| 0 <= j < i ==> chars@[j] == lead@[j],
    {
        if chars[i] != lead[i] {
            return None;
        }
    }
    proof {
        assert(s@.subrange(lead@.len() as int, s@.len() as int) =~= s@.skip(lead@.len() as int));
    }
    Some(from_chars(slice_of(chars.as_slice(), lead.len(), chars.len()).as_slice()))
}

/// `c` is an ASCII digit.
pub open spec fn is_digit(c: char) -> bool {
    '0' <= c <= '9'
}

/// Every character is an ASCII digit.
pub open spec fn all_digits(s: Seq<char>) -> bool {
    forall|i: int| 0 <= i < s.len() ==> is_digit(#[trigger] s[i])
}

/// The value of a run of ASCII digits.
pub open spec fn digits_value(s: Seq<char>) -> nat
    decreases s.len(),
{
    if s.len() == 0 {
        0
    } else {
        digits_value(s.drop_last()) * 10 + (s.last() as nat - 48) as nat
    }
}

/// The number that `s` spells in decimal: digits, at least one, with an
/// optional sign before them.
pub open spec fn parse_int_spec(s: Seq<char>) -> Option<int> {
    let signed = s.len() > 0 && (s[0] == '+' || s[0] == '-');
    let digits = if signed {
        s.skip(1)
    } else {
        s
    };
    if digits.len() > 0 && all_digits(digits) {
        Some(
            if signed && s[0] == '-' {
                -(digits_value(digits) as int)
            } else {
                digits_value(digits) as int
            },
        )
    } else {
        None
    }
}

/// Reads a decimal number that fits in 32 bits.
pub fn parse_i32(s: &str) -> (number: Option<i32>)
    ensures
        match number {
            Some(n) => parse_int_spec(s@) == Some(n as int),
            None => match parse_int_spec(s@) {
                Some(n) => n < i32::MIN || n > i32::MAX,
                None => true,
            },
        },
{
    let chars: Vec<char> = to_chars(s);
    let signed: bool = chars.len() > 0 && (chars[0] == '+' || chars[0] == '-');
    let negative: bool = chars.len() > 0 && chars[0] == '-';
    let from: usize = if signed {
        1
    } else {
        0
    };
    if from >= chars.len() {
        return None;
    }
    let ghost digits = if signed {
        s@.skip(1)
    } else {
        s@
    };
    let mut value: i64 = 0;
    let mut overflow: bool = false;
    for i in from..chars.len()
        invariant
            chars@ == s@,
            from == (if signed {
                1int
            } else {
                0int
            }),
            signed == (s@.len() > 0 && (s@[0] == '+' || s@[0] == '-')),
            digits == (if signed {
                s@.skip(1)
            } else {
                s@
            }),
            digits.len() == s@.len() - from,
            forall|j: int| 0 <= j < i - from ==> is_digit(#[trigger] digits[j]),
            0 <= value <= 0x80000000,
            overflow ==> digits_value(digits.take(i - from)) > 0x80000000,
            !overflow ==> value == digits_value(digits.take(i - from)),
    {
        let c: char = chars[i];
        let ghost k: int = i - from;
        proof {
            assert(digits[k] == c);
            assert(digits.take(k + 1).drop_last() =~= digits.take(k));
        }
        if c < '0' || c > '9' {
            proof {
                assert(!is_digit(digits[k]));
            }
            return None;
        }
        if !overflow {
            let grown: i64 = value * 10 + (c as i64 - 48);
            if grown > 0x80000000 {
                overflow = true;
            } else {
                value = grown;
            }
        }
    }
    proof {
        assert(digits.take(digits.len() as int) =~= digits);
    }
    if overflow {
        return None;
    }
    if negative {
        Some((0 - value) as i32)
    } else if value > 0x7fffffff {
        None
    } else {
        Some(value as i32)
    }
}

/// Reads a decimal number without a minus sign that fits in 32 bits.
pub fn parse_u32(s: &str) -> (number: Option<u32>)
    ensures
        match number {
            Some(n) => s@[0] != '-' && parse_int_spec(s@) == Some(n as int),
            None => match parse_int_spec(s@) {
                Some(n) => s@[0] == '-' || n > u32::MAX,
                None => true,
            },
        },
{
    let chars: Vec<char> = to_chars(s);
    if chars.len() > 0 && chars[0] == '-' {
        return None;
    }
    let signed: bool = chars.len() > 0 && chars[0] == '+';
    let from: usize = if signed {
        1
    } else {
        0
    };
    if from >= chars.len() {
        return None;
    }
    let ghost digits = if signed {
        s@.skip(1)
    } else {
        s@
    };
    let mut value: u64 = 0;
    let mut overflow: bool = false;
    for i in from..chars.len()
        invariant
            chars@ == s@,
            from == (if signed {
                1int
            } else {
                0int
            }),
            s@.len() > 0,
            s@[0] != '-',
            signed == (s@[0] == '+'),
            digits == (if signed {
                s@.skip(1)
            } else {
                s@
            }),
            digits.len() == s@.len() - from,
            forall|j: int| 0 <= j < i - from ==> is_digit(#[trigger] digits[j]),
            value <= 0xffff_ffff,
            overflow ==> digits_value(digits.take(i - from)) > 0xffff_ffff,
            !overflow ==> value == digits_value(digits.take(i - from)),
    {
        let c: char = chars[i];
        let ghost k: int = i - from;
        proof {
            assert(digits[k] == c);
            assert(digits.take(k + 1).drop_last() =~= digits.take(k));
        }
        if c < '0' || c > '9' {
            proof {
                assert(!is_digit(digits[k]));
            }
            return None;
        }
        if !overflow {
            let grown: u64 = value * 10 + (c as u64 - 48);
            if grown > 0xffff_ffff {
                overflow = true;
            } else {
                value = grown;
            }
        }
    }
    proof {
        assert(digits.take(digits.len() as int) =~= digits);
    }
    if overflow {
        None
    } else {
        Some(value as u32)
    }
}

proof fn decimal_is_digits(n: nat)
    ensures
        decimal_spec(n).len() > 0,
        all_digits(decimal_spec(n)),
        digits_value(decimal_spec(n)) == n,
    decreases n,
{
    let text = decimal_spec(n);
    if n < 10 {
        assert(text.drop_last() =~= Seq::empty());
        assert(digits_value(Seq::empty()) == 0);
        assert(text.last() as nat == 48 + n);
    } else {
        decimal_is_digits(n / 10);
        let before = decimal_spec(n / 10);
        assert(text.drop_last() =~= before);
        assert(text.last() as nat == 48 + n % 10);
        assert forall|i: int| 0 <= i < text.len() implies is_digit(#[trigger] text[i]) by {
            if i < before.len() {
                assert(text[i] == before[i]);
            }
        }
    }
}

/// A number in decimal has digits alone, and at least one.
pub proof fn digits_alone(n: nat)
    ensures
        decimal_spec(n).len() > 0,
        all_digits(decimal_spec(n)),
{
    decimal_is_digits(n);
}

/// A number that was written in decimal reads back as itself.
pub proof fn decimal_reads_back(n: nat)
    ensures
        parse_int_spec(decimal_spec(n)) == Some(n as int),
        decimal_spec(n)[0] != '-',
{
    decimal_is_digits(n);
    assert(is_digit(decimal_spec(n)[0]));
}

/// A text as it is shown quoted, with the escapes of Rust's `Debug`.
pub uninterp spec fn debug_text_of(value: Seq<char>) -> Seq<char>;

/// `format!` with `{:?}` on a text. Claims only that the result is a function
/// of the text.
#[verifier::external_body]
pub(crate) fn debug_text(value: &str) -> (text: String)
    ensures
        text@ == debug_text_of(value@),
{
    format!("{value:?}")
}

/// Trimming takes white space off the ends and nothing else: the text is what is
/// left with white space before and after it, and what is left neither starts
/// nor ends with any.
pub proof fn trim_takes_white_ends_off(s: Seq<char>)
    ensures
        exists|from: int, to: int|
            {
                &&& 0 <= from <= to <= s.len()
                &&& #[trigger] s.subrange(from, to) == trim_spec(s)
                &&& forall|i: int| 0 <= i < from ==> is_white_space(#[trigger] s[i])
                &&& forall|i: int| to <= i < s.len() ==> is_white_space(#[trigger] s[i])
            },
        trim_spec(s).len() > 0 ==> !is_white_space(trim_spec(s)[0]) && !is_white_space(
            trim_spec(s).last(),
        ),
{
    let from = trim_start_at(s);
    let rest = trim_start_spec(s);
    let kept = trim_end_at(rest);
    let to = from + kept;
    assert(s.subrange(from, to) =~= rest.take(kept));
    assert forall|i: int| to <= i < s.len() implies is_white_space(#[trigger] s[i]) by {
        assert(rest[i - from] == s[i]);
    }
    if trim_spec(s).len() > 0 {
        assert(trim_spec(s)[0] == rest[0]);
    }
}

proof fn trim_start_at(s: Seq<char>) -> (from: int)
    ensures
        0 <= from <= s.len(),
        trim_start_spec(s) == s.skip(from),
        forall|i: int| 0 <= i < from ==> is_white_space(#[trigger] s[i]),
        from < s.len() ==> !is_white_space(s[from]),
    decreases s.len(),
{
    if s.len() > 0 && is_white_space(s[0]) {
        let tail = s.skip(1);
        let from = trim_start_at(tail);
        assert(tail.skip(from) =~= s.skip(from + 1));
        assert forall|i: int| 0 <= i < from + 1 implies is_white_space(#[trigger] s[i]) by {
            if i > 0 {
                assert(tail[i - 1] == s[i]);
            }
        }
        from + 1
    } else {
        assert(s.skip(0) =~= s);
        0
    }
}

proof fn trim_end_at(s: Seq<char>) -> (to: int)
    ensures
        0 <= to <= s.len(),
        trim_end_spec(s) == s.take(to),
        forall|i: int| to <= i < s.len() ==> is_white_space(#[trigger] s[i]),
        to > 0 ==> !is_white_space(s[to - 1]),
    decreases s.len(),
{
    if s.len() > 0 && is_white_space(s.last()) {
        let short = s.drop_last();
        let to = trim_end_at(short);
        assert(short.take(to) =~= s.take(to));
        assert forall|i: int| to <= i < s.len() implies is_white_space(#[trigger] s[i]) by {
            if i < short.len() {
                assert(short[i] == s[i]);
            }
        }
        to
    } else {
        assert(s.take(s.len() as int) =~= s);
        s.len() as int
    }
}

/// A number with a sign reads back as itself.
pub proof fn signed_decimal_reads_back(n: int)
    ensures
        parse_int_spec(signed_decimal_spec(n)) == Some(n),
{
    if n < 0 {
        let digits = decimal_spec((-n) as nat);
        decimal_is_digits((-n) as nat);
        assert(signed_decimal_spec(n).skip(1) =~= digits);
    } else {
        decimal_reads_back(n as nat);
    }
}

/// Lower case keeps the length and every character that is no ASCII capital, is
/// reached in one step, and makes capital and small letters alike.
pub proof fn lower_case_is_settled(s: Seq<char>)
    ensures
        ascii_lowercase_spec(s).len() == s.len(),
        ascii_lowercase_spec(ascii_lowercase_spec(s)) == ascii_lowercase_spec(s),
        forall|i: int|
            0 <= i < s.len() ==> if 'A' <= #[trigger] s[i] <= 'Z' {
                ascii_lowercase_spec(s)[i] as int == s[i] as int + ('a' as int - 'A' as int)
            } else {
                ascii_lowercase_spec(s)[i] == s[i]
            },
{
    assert(ascii_lowercase_spec(ascii_lowercase_spec(s)) =~= ascii_lowercase_spec(s));
}

} // verus!
