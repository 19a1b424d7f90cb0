//! The fingerprint of a file's bytes.

use sha2::{Digest, Sha256};
use vstd::prelude::*;

verus! {

/// The SHA-256 digest of a byte string.
pub uninterp spec fn sha256_of(bytes: Seq<u8>) -> Seq<u8>;

/// `sha2::Sha256::digest`. Claims that the digest is a function of the bytes
/// and is thirty-two bytes long.
#[verifier::external_body]
fn sha256(bytes: &[u8]) -> (digest: Vec<u8>)
    ensures
        digest@ == sha256_of(bytes@),
        digest@.len() == 32,
{
    Sha256::digest(bytes).to_vec()
}

/// The hexadecimal digit of value `d`, in lower case.
pub open spec fn hex_digit_spec(d: int) -> char {
    if d < 10 {
        (48 + d) as char
    } else {
        (87 + d) as char
    }
}

/// Two hexadecimal digits for each byte.
pub open spec fn hex_spec(bytes: Seq<u8>) -> Seq<char> {
    Seq::new(
        bytes.len() * 2,
        |i: int|
            if i % 2 == 0 {
                hex_digit_spec(bytes[i / 2] as int / 16)
            } else {
                hex_digit_spec(bytes[i / 2] as int % 16)
            },
    )
}

fn hex_digit(d: u8) -> (c: char)
    requires
        d < 16,
    ensures
        c == hex_digit_spec(d as int),
{
    if d < 10 {
        (48u8 + d) as char
    } else {
        (87u8 + d) as char
    }
}

/// Two hexadecimal digits for each byte, in lower case.
pub fn hex(bytes: &[u8]) -> (text: String)
    ensures
        text@ == hex_spec(bytes@),
{
    let mut text: String = String::new();
    proof {
        assert(text@ =~= hex_spec(bytes@.take(0)));
    }
    for i in 0..bytes.len()
        invariant
            text@ == hex_spec(bytes@.take(i as int)),
    {
        text.push(hex_digit(bytes[i] / 16));
        text.push(hex_digit(bytes[i] % 16));
        proof {
            let before = bytes@.take(i as int);
            let after = bytes@.take(i as int + 1);
            assert(text@ =~= hex_spec(after)) by {
                assert forall|k: int| 0 <= k < 2 * i implies hex_spec(after)[k] == hex_spec(
                    before,
                )[k] by {
                    assert(after[k / 2] == before[k / 2]);
                }
            }
        }
    }
    proof {
        assert(bytes@.take(bytes@.len() as int) =~= bytes@);
    }
    text
}

/// Two byte strings with the same hexadecimal text are the same, so equal
/// fingerprints mean equal digests.
pub proof fn hex_is_injective(a: Seq<u8>, b: Seq<u8>)
    requires
        hex_spec(a) == hex_spec(b),
    ensures
        a == b,
{
    assert(hex_spec(a).len() == a.len() * 2);
    assert(hex_spec(b).len() == b.len() * 2);
    assert forall|i: int| 0 <= i < a.len() implies a[i] == b[i] by {
        let even = 2 * i;
        let odd = 2 * i + 1;
        assert(even / 2 == i && even % 2 == 0 && odd / 2 == i && odd % 2 == 1);
        assert(hex_spec(a)[even] == hex_digit_spec(a[i] as int / 16));
        assert(hex_spec(b)[even] == hex_digit_spec(b[i] as int / 16));
        assert(hex_spec(a)[odd] == hex_digit_spec(a[i] as int % 16));
        assert(hex_spec(b)[odd] == hex_digit_spec(b[i] as int % 16));
        same_digit(a[i] as int / 16, b[i] as int / 16);
        same_digit(a[i] as int % 16, b[i] as int % 16);
    }
    assert(a =~= b);
}

proof fn same_digit(x: int, y: int)
    requires
        0 <= x < 16,
        0 <= y < 16,
    ensures
        hex_digit_spec(x) == hex_digit_spec(y) ==> x == y,
{
}

/// The fingerprint of a file: the SHA-256 digest of its raw bytes, in
/// hexadecimal.
pub fn content_hash(bytes: &[u8]) -> (text: String)
    ensures
        text@ == hex_spec(sha256_of(bytes@)),
        text@.len() == 64,
{
    hex(sha256(bytes).as_slice())
}

/// The value of a hexadecimal digit in lower case.
pub open spec fn hex_value(c: char) -> Option<int> {
    if '0' <= c <= '9' {
        Some(c as int - '0' as int)
    } else if 'a' <= c <= 'f' {
        Some(c as int - 'a' as int + 10)
    } else {
        None
    }
}

/// The text of bytes reads back as the bytes: two digits in lower case for each,
/// the higher one first.
pub proof fn hex_reads_back(bytes: Seq<u8>)
    ensures
        hex_spec(bytes).len() == 2 * bytes.len(),
        forall|i: int|
            0 <= i < bytes.len() ==> {
                let high = hex_value(hex_spec(bytes)[2 * i]);
                let low = hex_value(hex_spec(bytes)[2 * i + 1]);
                high is Some && low is Some && (#[trigger] bytes[i]) as int == 16
                    * high->Some_0 + low->Some_0
            },
{
    assert forall|i: int| 0 <= i < bytes.len() implies {
        let high = hex_value(hex_spec(bytes)[2 * i]);
        let low = hex_value(hex_spec(bytes)[2 * i + 1]);
        high is Some && low is Some && (#[trigger] bytes[i]) as int == 16 * high->Some_0
            + low->Some_0
    } by {
        let even = 2 * i;
        let odd = 2 * i + 1;
        assert(even / 2 == i && even % 2 == 0 && odd / 2 == i && odd % 2 == 1);
        digit_value(bytes[i] as int / 16);
        digit_value(bytes[i] as int % 16);
        assert(hex_spec(bytes)[even] == hex_digit_spec(bytes[i] as int / 16));
        assert(hex_spec(bytes)[odd] == hex_digit_spec(bytes[i] as int % 16));
    }
}

proof fn digit_value(d: int)
    requires
        0 <= d < 16,
    ensures
        hex_value(hex_digit_spec(d)) == Some(d),
{
}

} // verus!
