//! Byte encodings the resource ids go through: URL-safe base64 without padding
//! (the `base64` crate) and UTF-8 (std).
use vstd::prelude::*;
use vstd::utf8::*;

verus! {

/// The character of a six-bit value in the URL-safe base64 alphabet (RFC 4648 section 5):
/// `A-Z` for 0-25, `a-z` for 26-51, `0-9` for 52-61, `-` for 62 and `_` for 63.
pub open spec fn base64_url_char(v: int) -> char {
    if v < 26 {
        (v + 65) as char
    } else if v < 52 {
        (v - 26 + 97) as char
    } else if v < 62 {
        (v - 52 + 48) as char
    } else if v == 62 {
        '-'
    } else {
        '_'
    }
}

/// Unpadded URL-safe base64 of `bytes` (RFC 4648 section 5, no `=` padding): each group
/// of three bytes gives four characters of six bits each, a trailing pair gives three and
/// a trailing single byte two, the missing low bits being zero.
pub open spec fn base64_url_nopad(bytes: Seq<u8>) -> Seq<char>
    decreases bytes.len(),
{
    if bytes.len() == 0 {
        Seq::empty()
    } else if bytes.len() == 1 {
        let a = bytes[0] as int;
        seq![base64_url_char(a / 4), base64_url_char((a % 4) * 16)]
    } else if bytes.len() == 2 {
        let a = bytes[0] as int;
        let b = bytes[1] as int;
        seq![
            base64_url_char(a / 4),
            base64_url_char((a % 4) * 16 + b / 16),
            base64_url_char((b % 16) * 4),
        ]
    } else {
        let a = bytes[0] as int;
        let b = bytes[1] as int;
        let c = bytes[2] as int;
        seq![
            base64_url_char(a / 4),
            base64_url_char((a % 4) * 16 + b / 16),
            base64_url_char((b % 16) * 4 + c / 64),
            base64_url_char(c % 64),
        ] + base64_url_nopad(bytes.skip(3))
    }
}

/// The characters of the URL-safe base64 alphabet: `A-Z`, `a-z`, `0-9`, `-` and `_`.
pub open spec fn is_url_safe_base64_char(c: char) -> bool {
    ||| 'A' <= c <= 'Z'
    ||| 'a' <= c <= 'z'
    ||| '0' <= c <= '9'
    ||| c == '-'
    ||| c == '_'
}

/// Length of an unpadded base64 text for `n` bytes: four characters per three bytes,
/// two for a trailing single byte and three for a trailing pair.
pub open spec fn unpadded_base64_len(n: nat) -> nat {
    (4 * n + 2) / 3
}

proof fn lemma_base64_char(v: int, w: int)
    requires
        0 <= v < 64,
        0 <= w < 64,
    ensures
        is_url_safe_base64_char(base64_url_char(v)),
        base64_url_char(v) <= '\u{7f}',
        base64_url_char(v) == base64_url_char(w) ==> v == w,
{
}

/// An unpadded base64 text has `unpadded_base64_len` characters, all in the URL-safe
/// alphabet (and so ASCII).
pub proof fn lemma_base64_url_nopad(bytes: Seq<u8>)
    ensures
        base64_url_nopad(bytes).len() == unpadded_base64_len(bytes.len()),
        forall|i: int|
            0 <= i < base64_url_nopad(bytes).len() ==> is_url_safe_base64_char(
                #[trigger] base64_url_nopad(bytes)[i],
            ),
        is_ascii_chars(base64_url_nopad(bytes)),
    decreases bytes.len(),
{
    let s = base64_url_nopad(bytes);
    if bytes.len() == 0 {
    } else if bytes.len() == 1 {
        let a = bytes[0] as int;
        lemma_base64_char(a / 4, 0);
        lemma_base64_char((a % 4) * 16, 0);
    } else if bytes.len() == 2 {
        let a = bytes[0] as int;
        let b = bytes[1] as int;
        lemma_base64_char(a / 4, 0);
        lemma_base64_char((a % 4) * 16 + b / 16, 0);
        lemma_base64_char((b % 16) * 4, 0);
    } else {
        let a = bytes[0] as int;
        let b = bytes[1] as int;
        let c = bytes[2] as int;
        lemma_base64_char(a / 4, 0);
        lemma_base64_char((a % 4) * 16 + b / 16, 0);
        lemma_base64_char((b % 16) * 4 + c / 64, 0);
        lemma_base64_char(c % 64, 0);
        let rest = base64_url_nopad(bytes.skip(3));
        lemma_base64_url_nopad(bytes.skip(3));
        assert forall|i: int| 0 <= i < s.len() implies is_url_safe_base64_char(#[trigger] s[i])
            && s[i] <= '\u{7f}' by {
            if i >= 4 {
                assert(s[i] == rest[i - 4]);
            }
        }
    }
}

/// Different bytes have different unpadded base64 texts.
pub proof fn lemma_base64_url_nopad_injective(x: Seq<u8>, y: Seq<u8>)
    requires
        base64_url_nopad(x) == base64_url_nopad(y),
    ensures
        x == y,
    decreases x.len(),
{
    lemma_base64_url_nopad(x);
    lemma_base64_url_nopad(y);
    assert(x.len() == y.len()) by {
        if x.len() < y.len() {
            assert(unpadded_base64_len(x.len()) < unpadded_base64_len(y.len()));
        } else if x.len() > y.len() {
            assert(unpadded_base64_len(y.len()) < unpadded_base64_len(x.len()));
        }
    }
    let s = base64_url_nopad(x);
    if x.len() == 0 {
        assert(x =~= y);
    } else {
        let a = x[0] as int;
        let a2 = y[0] as int;
        assert(s[0] == base64_url_char(a / 4));
        assert(s[0] == base64_url_char(a2 / 4));
        lemma_base64_char(a / 4, a2 / 4);
        if x.len() == 1 {
            assert(s[1] == base64_url_char((a % 4) * 16));
            assert(s[1] == base64_url_char((a2 % 4) * 16));
            lemma_base64_char((a % 4) * 16, (a2 % 4) * 16);
            assert(x =~= y);
        } else {
            let b = x[1] as int;
            let b2 = y[1] as int;
            assert(s[1] == base64_url_char((a % 4) * 16 + b / 16));
            assert(s[1] == base64_url_char((a2 % 4) * 16 + b2 / 16));
            lemma_base64_char((a % 4) * 16 + b / 16, (a2 % 4) * 16 + b2 / 16);
            assert(a == a2);
            if x.len() == 2 {
                assert(s[2] == base64_url_char((b % 16) * 4));
                assert(s[2] == base64_url_char((b2 % 16) * 4));
                lemma_base64_char((b % 16) * 4, (b2 % 16) * 4);
                assert(x =~= y);
            } else {
                let c = x[2] as int;
                let c2 = y[2] as int;
                assert(s[2] == base64_url_char((b % 16) * 4 + c / 64));
                assert(s[2] == base64_url_char((b2 % 16) * 4 + c2 / 64));
                lemma_base64_char((b % 16) * 4 + c / 64, (b2 % 16) * 4 + c2 / 64);
                assert(s[3] == base64_url_char(c % 64));
                assert(s[3] == base64_url_char(c2 % 64));
                lemma_base64_char(c % 64, c2 % 64);
                assert(b == b2);
                assert(c == c2);
                let rx = base64_url_nopad(x.skip(3));
                let ry = base64_url_nopad(y.skip(3));
                assert(rx =~= s.skip(4));
                assert(ry =~= s.skip(4));
                lemma_base64_url_nopad_injective(x.skip(3), y.skip(3));
                assert(x =~= seq![x[0], x[1], x[2]] + x.skip(3));
                assert(y =~= seq![y[0], y[1], y[2]] + y.skip(3));
            }
        }
    }
}

/// `base64::Engine::encode` with `base64::engine::general_purpose::URL_SAFE_NO_PAD`.
///
/// Claimed of the crate: the result is the unpadded URL-safe base64 of `bytes`. The call
/// panics only when the encoded length overflows `usize`, which the `requires` rules out.
#[verifier::external_body]
pub(crate) fn base64_url_encode(bytes: &[u8]) -> (s: String)
    requires
        bytes@.len() <= usize::MAX / 2,
    ensures
        s@ == base64_url_nopad(bytes@),
{
    base64::Engine::encode(&base64::engine::general_purpose::URL_SAFE_NO_PAD, bytes)
}

/// `base64::Engine::decode` with `URL_SAFE_NO_PAD`, the error dropped.
///
/// Claimed of the crate: this engine rejects padding and non-zero trailing bits, so it
/// accepts exactly the canonical encodings, and gives back the bytes that were encoded:
/// a success is bytes whose encoding is `s`, and whenever some bytes encode to `s` the
/// call succeeds with them.
#[verifier::external_body]
pub(crate) fn base64_url_decode(s: &str) -> (r: Option<Vec<u8>>)
    ensures
        r is Some ==> base64_url_nopad(r.unwrap()@) == s@,
        forall|b: Seq<u8>| #[trigger] base64_url_nopad(b) == s@ ==> r is Some && r.unwrap()@ == b,
{
    base64::Engine::decode(&base64::engine::general_purpose::URL_SAFE_NO_PAD, s).ok()
}

/// `String::from_utf8`, the error dropped: succeeds exactly on valid UTF-8, with the
/// characters that the bytes encode.
#[verifier::external_body]
pub(crate) fn string_from_utf8(bytes: Vec<u8>) -> (r: Option<String>)
    ensures
        match r {
            Some(s) => valid_utf8(bytes@) && s@ == decode_utf8(bytes@),
            None => !valid_utf8(bytes@),
        },
{
    String::from_utf8(bytes).ok()
}

} // verus!
