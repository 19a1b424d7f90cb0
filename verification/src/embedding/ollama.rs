//! The Ollama backend: names, addresses, and the texts of its errors.

use crate::embedding::error::EmbedError;
use crate::text::{
    control, encode_push, from_chars, is_control, slice_of, strip_prefix, to_chars,
    trim, trim_spec, utf8_width,
};
use vstd::prelude::*;
use vstd::string::StringExecFns;
use vstd::utf8::{encode_scalar, encode_utf8};

verus! {

/// The prefix of `embedding.model` that selects this backend.
pub const OLLAMA_PREFIX: &'static str = "ollama:";

/// Most bytes of a server's error body that are kept, the ellipsis aside.
pub const ERROR_BODY_MAX_BYTES: usize = 512;

/// The model's name after the prefix.
pub fn parse_ollama_model(model_id: &str) -> (result: Result<String, EmbedError>)
    ensures
        match result {
            Ok(name) => name@.len() > 0 && model_id@ == OLLAMA_PREFIX@ + name@,
            Err(e) => e is Ollama && (if OLLAMA_PREFIX@.is_prefix_of(model_id@) {
                model_id@ == OLLAMA_PREFIX@ && e->Ollama_0@
                    == "model name after 'ollama:' is empty"@
            } else {
                e->Ollama_0@ == "'"@ + model_id@ + "' is not an 'ollama:' model"@
            }),
        },
{
    match strip_prefix(model_id, OLLAMA_PREFIX) {
        Some(name) => {
            proof {
                assert(model_id@ =~= OLLAMA_PREFIX@ + name@);
                if name@.len() == 0 {
                    assert(model_id@ =~= OLLAMA_PREFIX@);
                }
            }
            if name.as_str().is_empty() {
                return Err(
                    EmbedError::Ollama("model name after 'ollama:' is empty".to_string()),
                );
            }
            Ok(name)
        },
        None => {
            let mut text: String = "'".to_string();
            text.append(model_id);
            text.append("' is not an 'ollama:' model");
            Err(EmbedError::Ollama(text))
        },
    }
}

/// `s` without the slashes it ends with.
pub open spec fn trim_slashes(s: Seq<char>) -> Seq<char>
    decreases s.len(),
{
    if s.len() > 0 && s.last() == '/' {
        trim_slashes(s.drop_last())
    } else {
        s
    }
}

/// The address to which texts are posted: the endpoint, without trailing
/// slashes, followed by the path of the embedding service.
pub fn embed_url(endpoint: &str) -> (url: String)
    ensures
        url@ == trim_slashes(endpoint@) + "/api/embed"@,
{
    let chars: Vec<char> = to_chars(endpoint);
    let mut end: usize = chars.len();
    proof {
        assert(chars@.take(end as int) =~= chars@);
    }
    while end > 0 && chars[end - 1] == '/'
        invariant
            end <= chars@.len(),
            trim_slashes(chars@) == trim_slashes(chars@.take(end as int)),
        decreases end,
    {
        proof {
            assert(chars@.take(end as int).drop_last() =~= chars@.take(end as int - 1));
        }
        end = end - 1;
    }
    proof {
        assert(chars@.subrange(0, end as int) =~= chars@.take(end as int));
    }
    let mut url: String = from_chars(slice_of(chars.as_slice(), 0, end).as_slice());
    url.append("/api/embed");
    url
}

/// `c` is an ASCII letter.
pub open spec fn is_ascii_letter(c: char) -> bool {
    'a' <= c <= 'z' || 'A' <= c <= 'Z'
}

/// `c` is kept outside a control sequence: no control character but carriage
/// return, line feed and tab.
pub open spec fn is_shown(c: char) -> bool {
    !is_control(c) || c == '\n' || c == '\r' || c == '\t'
}

/// Whether the text ends inside a control sequence, which ESC directly followed
/// by `[` opens and the next ASCII letter closes.
pub open spec fn in_sequence(s: Seq<char>) -> bool
    decreases s.len(),
{
    if s.len() == 0 {
        false
    } else if in_sequence(s.drop_last()) {
        !is_ascii_letter(s.last())
    } else {
        s.last() == '[' && s.len() > 1 && s[s.len() - 2] == '\x1b'
    }
}

/// `s` without its control sequences and the control characters that are not
/// kept. Of an ESC before anything but `[` only the ESC itself goes.
pub open spec fn visible(s: Seq<char>) -> Seq<char>
    decreases s.len(),
{
    if s.len() == 0 {
        s
    } else if in_sequence(s.drop_last()) || in_sequence(s) || !is_shown(s.last()) {
        visible(s.drop_last())
    } else {
        visible(s.drop_last()).push(s.last())
    }
}

/// The characters of `s` that fit in `limit` bytes, from its start.
pub open spec fn fitting(s: Seq<char>, limit: nat) -> Seq<char>
    decreases s.len(),
{
    if encode_utf8(s).len() <= limit || s.len() == 0 {
        s
    } else {
        fitting(s.drop_last(), limit)
    }
}

/// `s` cut to `limit` bytes, with an ellipsis where anything was cut.
pub open spec fn cut_to_bytes(s: Seq<char>, limit: nat) -> Seq<char> {
    if encode_utf8(s).len() <= limit {
        s
    } else {
        fitting(s, limit).push('…')
    }
}

/// What is kept of a server's error body.
pub open spec fn sanitized(raw: Seq<char>) -> Seq<char> {
    cut_to_bytes(visible(trim_spec(raw)), ERROR_BODY_MAX_BYTES as nat)
}

proof fn visible_grows(s: Seq<char>, n: int)
    requires
        0 <= n <= s.len(),
    ensures
        visible(s.take(n)).is_prefix_of(visible(s)),
    decreases s.len(),
{
    if n == s.len() {
        assert(s.take(n) =~= s);
    } else {
        visible_grows(s.drop_last(), n);
        assert(s.drop_last().take(n) =~= s.take(n));
    }
}

proof fn encode_prefix(a: Seq<char>, b: Seq<char>)
    requires
        a.is_prefix_of(b),
    ensures
        encode_utf8(a).len() <= encode_utf8(b).len(),
    decreases b.len(),
{
    if a.len() == b.len() {
        assert(a =~= b);
    } else {
        encode_prefix(a, b.drop_last());
        encode_push(b.drop_last(), b.last());
        assert(b =~= b.drop_last().push(b.last()));
    }
}

proof fn fitting_at(s: Seq<char>, kept: Seq<char>, c: char, limit: nat)
    requires
        kept.push(c).is_prefix_of(s),
        encode_utf8(kept).len() <= limit,
        encode_utf8(kept.push(c)).len() > limit,
    ensures
        fitting(s, limit) == kept,
        encode_utf8(s).len() > limit,
    decreases s.len(),
{
    encode_prefix(kept.push(c), s);
    if s.len() == kept.len() + 1 {
        assert(s =~= kept.push(c));
        assert(s.drop_last() =~= kept);
        assert(fitting(kept, limit) == kept);
    } else {
        fitting_at(s.drop_last(), kept, c, limit);
    }
}

/// What is kept of a server's error body: trimmed, without control sequences
/// and control characters, cut to [`ERROR_BODY_MAX_BYTES`].
pub fn sanitize_error_body(raw: &str) -> (out: String)
    ensures
        out@ == sanitized(raw@),
{
    let trimmed: Vec<char> = trim(to_chars(raw).as_slice());
    let ghost text = trim_spec(raw@);
    let mut out: String = String::new();
    let mut inside: bool = false;
    let mut after_esc: bool = false;
    let mut byte_len: usize = 0;
    proof {
        assert(text.take(0) =~= Seq::empty());
        assert(visible(text.take(0)) =~= Seq::empty());
        assert(out@ =~= Seq::empty());
        assert(encode_utf8(out@) =~= Seq::empty());
    }
    for i in 0..trimmed.len()
        invariant
            trimmed@ == text,
            text == trim_spec(raw@),
            out@ == visible(text.take(i as int)),
            inside == in_sequence(text.take(i as int)),
            after_esc == (i > 0 && text[i - 1] == '\x1b'),
            byte_len == encode_utf8(out@).len(),
            byte_len <= ERROR_BODY_MAX_BYTES,
    {
        let c: char = trimmed[i];
        proof {
            assert(text.take(i as int + 1).drop_last() =~= text.take(i as int));
            assert(text.take(i as int + 1).last() == c);
        }
        let opens: bool = after_esc && c == '[';
        after_esc = c == '\x1b';
        if inside {
            if ('a' <= c && c <= 'z') || ('A' <= c && c <= 'Z') {
                inside = false;
            }
        } else if opens {
            inside = true;
        } else if !control(c) || c == '\n' || c == '\r' || c == '\t' {
            let width: usize = utf8_width(c);
            proof {
                encode_push(out@, c);
            }
            if byte_len + width > ERROR_BODY_MAX_BYTES {
                proof {
                    visible_grows(text, i as int + 1);
                    fitting_at(visible(text), out@, c, ERROR_BODY_MAX_BYTES as nat);
                }
                out.push('…');
                return out;
            }
            out.push(c);
            byte_len = byte_len + width;
        }
    }
    proof {
        assert(text.take(text.len() as int) =~= text);
    }
    out
}

proof fn visible_is_shown(s: Seq<char>)
    ensures
        forall|i: int| 0 <= i < visible(s).len() ==> is_shown(#[trigger] visible(s)[i]),
    decreases s.len(),
{
    if s.len() > 0 {
        let before = visible(s.drop_last());
        visible_is_shown(s.drop_last());
        assert forall|i: int| 0 <= i < visible(s).len() implies is_shown(
            #[trigger] visible(s)[i],
        ) by {
            if i < before.len() {
                assert(visible(s)[i] == before[i]);
            }
        }
    }
}

proof fn fitting_fits(s: Seq<char>, limit: nat)
    ensures
        encode_utf8(fitting(s, limit)).len() <= limit,
        fitting(s, limit).is_prefix_of(s),
    decreases s.len(),
{
    if s.len() == 0 {
        assert(encode_utf8(s) =~= Seq::empty());
    } else if encode_utf8(s).len() > limit {
        fitting_fits(s.drop_last(), limit);
    }
}

/// A sanitized body holds no ESC and no control character but carriage return,
/// line feed and tab, and no more bytes than the limit and an ellipsis.
pub proof fn sanitized_is_safe(raw: Seq<char>)
    ensures
        forall|i: int| 0 <= i < sanitized(raw).len() ==> is_shown(#[trigger] sanitized(raw)[i]),
        forall|i: int| 0 <= i < sanitized(raw).len() ==> #[trigger] sanitized(raw)[i] != '\x1b',
        encode_utf8(sanitized(raw)).len() <= ERROR_BODY_MAX_BYTES + 3,
{
    let shown = visible(trim_spec(raw));
    visible_is_shown(trim_spec(raw));
    let limit = ERROR_BODY_MAX_BYTES as nat;
    if encode_utf8(shown).len() > limit {
        fitting_fits(shown, limit);
        encode_push(fitting(shown, limit), '…');
        assert(encode_scalar('…' as u32).len() == 3);
        assert forall|i: int| 0 <= i < sanitized(raw).len() implies is_shown(
            #[trigger] sanitized(raw)[i],
        ) by {
            if i < fitting(shown, limit).len() {
                assert(fitting(shown, limit)[i] == shown[i]);
            }
        }
    }
}

/// No ESC of `s` is directly followed by `[`.
pub open spec fn opens_no_sequence(s: Seq<char>) -> bool {
    forall|i: int| 0 <= i < s.len() - 1 && #[trigger] s[i] == '\x1b' ==> s[i + 1] != '['
}

proof fn never_in_sequence(s: Seq<char>)
    requires
        opens_no_sequence(s),
    ensures
        !in_sequence(s),
    decreases s.len(),
{
    if s.len() > 0 {
        let before = s.drop_last();
        assert(opens_no_sequence(before)) by {
            assert forall|i: int|
                0 <= i < before.len() - 1 && #[trigger] before[i] == '\x1b' implies before[i + 1]
                != '[' by {
                assert(s[i] == '\x1b');
            }
        }
        never_in_sequence(before);
        if s.len() > 1 && s[s.len() - 2] == '\x1b' {
            assert(s[s.len() - 2 + 1] != '[');
        }
    }
}

/// Only a control sequence takes its payload with it: where no ESC is followed
/// by `[`, every character is judged on its own.
pub proof fn payload_survives(s: Seq<char>)
    requires
        opens_no_sequence(s),
    ensures
        visible(s) == s.filter(|c: char| is_shown(c)),
    decreases s.len(),
{
    reveal(Seq::filter);
    if s.len() > 0 {
        let before = s.drop_last();
        assert(opens_no_sequence(before)) by {
            assert forall|i: int|
                0 <= i < before.len() - 1 && #[trigger] before[i] == '\x1b' implies before[i + 1]
                != '[' by {
                assert(s[i] == '\x1b');
            }
        }
        never_in_sequence(s);
        never_in_sequence(before);
        payload_survives(before);
    }
}

proof fn sequence_goes_on(before: Seq<char>, inner: Seq<char>)
    requires
        in_sequence(before),
        forall|i: int| 0 <= i < inner.len() ==> !is_ascii_letter(#[trigger] inner[i]),
    ensures
        in_sequence(before + inner),
        visible(before + inner) == visible(before),
    decreases inner.len(),
{
    if inner.len() == 0 {
        assert(before + inner =~= before);
    } else {
        let front = inner.drop_last();
        assert(!is_ascii_letter(inner[inner.len() - 1]));
        assert forall|i: int| 0 <= i < front.len() implies !is_ascii_letter(
            #[trigger] front[i],
        ) by {
            assert(front[i] == inner[i]);
        }
        sequence_goes_on(before, front);
        assert((before + inner).drop_last() =~= before + front);
    }
}

/// A control sequence leaves nothing: after it the text reads as before it, and
/// the text is outside of any sequence.
pub proof fn sequence_is_dropped(before: Seq<char>, inner: Seq<char>, letter: char)
    requires
        !in_sequence(before),
        forall|i: int| 0 <= i < inner.len() ==> !is_ascii_letter(#[trigger] inner[i]),
        is_ascii_letter(letter),
    ensures
        visible(before + seq!['\x1b', '['] + inner + seq![letter]) == visible(before),
        !in_sequence(before + seq!['\x1b', '['] + inner + seq![letter]),
{
    let esc = before.push('\x1b');
    let opened = before + seq!['\x1b', '['];
    assert(esc.drop_last() =~= before);
    assert(opened.drop_last() =~= esc);
    assert(opened[opened.len() - 2] == '\x1b');
    assert(!is_shown('\x1b'));
    assert(visible(esc) == visible(before));
    assert(in_sequence(opened));
    assert(visible(opened) == visible(esc));
    sequence_goes_on(opened, inner);
    let whole = opened + inner + seq![letter];
    assert(whole.drop_last() =~= opened + inner);
}

/// The length of a model's vectors, read off the lengths of the vectors that
/// the probe returned: that of the first, where it has any elements.
pub fn dim_from_probe(lengths: &[usize]) -> (result: Result<usize, EmbedError>)
    ensures
        match result {
            Ok(dim) => lengths@.len() > 0 && lengths@[0] > 0 && dim == lengths@[0],
            Err(e) => (lengths@.len() == 0 || lengths@[0] == 0) && e is Ollama && e->Ollama_0@
                == "dim probe returned no embedding"@,
        },
{
    if lengths.len() > 0 && lengths[0] > 0 {
        Ok(lengths[0])
    } else {
        Err(EmbedError::Ollama("dim probe returned no embedding".to_string()))
    }
}

/// The error for a request that could not be sent.
pub fn post_error(url: &str, source: &str) -> (error: EmbedError)
    ensures
        error is Ollama,
        error->Ollama_0@ == "POST "@ + url@ + ": "@ + source@,
{
    let mut text: String = "POST ".to_string();
    text.append(url);
    text.append(": ");
    text.append(source);
    EmbedError::Ollama(text)
}

/// The error for a reply whose status is no success, with what is kept of its
/// body.
pub fn status_error(url: &str, status: &str, body: &str) -> (error: EmbedError)
    ensures
        error is Ollama,
        error->Ollama_0@ == url@ + " returned "@ + status@ + ": "@ + sanitized(body@),
{
    let mut text: String = url.to_string();
    text.append(" returned ");
    text.append(status);
    text.append(": ");
    text.append(sanitize_error_body(body).as_str());
    EmbedError::Ollama(text)
}

/// The address is the endpoint with exactly one slash before the path of the
/// service, however many slashes the endpoint ends with.
pub proof fn endpoint_loses_its_slashes_alone(endpoint: Seq<char>)
    ensures
        trim_slashes(endpoint).is_prefix_of(endpoint),
        trim_slashes(endpoint).len() > 0 ==> trim_slashes(endpoint).last() != '/',
        forall|i: int|
            trim_slashes(endpoint).len() <= i < endpoint.len() ==> #[trigger] endpoint[i] == '/',
        trim_slashes(endpoint.push('/')) == trim_slashes(endpoint),
    decreases endpoint.len(),
{
    assert(endpoint.push('/').drop_last() =~= endpoint);
    if endpoint.len() > 0 && endpoint.last() == '/' {
        let short = endpoint.drop_last();
        endpoint_loses_its_slashes_alone(short);
        assert forall|i: int| trim_slashes(endpoint).len() <= i < endpoint.len() implies (
        #[trigger] endpoint[i]) == '/' by {
            if i < short.len() {
                assert(short[i] == endpoint[i]);
            }
        }
    }
}

/// A body is cut only where it is too long, and then as late as it can be: what
/// is kept is a prefix that fits, one more character would not fit, and an
/// ellipsis tells of the cut.
pub proof fn cut_is_as_late_as_it_can_be(s: Seq<char>, limit: nat)
    ensures
        encode_utf8(s).len() <= limit ==> cut_to_bytes(s, limit) == s,
        encode_utf8(s).len() > limit ==> {
            let kept = cut_to_bytes(s, limit).drop_last();
            &&& cut_to_bytes(s, limit).last() == '…'
            &&& kept.is_prefix_of(s)
            &&& kept.len() < s.len()
            &&& encode_utf8(kept).len() <= limit
            &&& encode_utf8(s.take(kept.len() as int + 1)).len() > limit
        },
    decreases s.len(),
{
    if encode_utf8(s).len() > limit {
        let kept = fitting(s, limit);
        fitting_fits(s, limit);
        assert(cut_to_bytes(s, limit).drop_last() =~= kept);
        fitting_is_longest(s, limit);
    }
}

proof fn fitting_is_longest(s: Seq<char>, limit: nat)
    requires
        encode_utf8(s).len() > limit,
    ensures
        fitting(s, limit).len() < s.len(),
        encode_utf8(s.take(fitting(s, limit).len() as int + 1)).len() > limit,
    decreases s.len(),
{
    if s.len() == 0 {
        assert(encode_utf8(s) =~= Seq::empty());
    } else {
        let short = s.drop_last();
        if encode_utf8(short).len() > limit {
            fitting_is_longest(short, limit);
            let n = fitting(short, limit).len() as int + 1;
            assert(short.take(n) =~= s.take(n));
        } else {
            assert(fitting(short, limit) == short);
            assert(s.take(s.len() as int) =~= s);
        }
    }
}

} // verus!
