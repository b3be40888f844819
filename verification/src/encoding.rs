//! Base64 text for binary data, by way of the `base64` crate's standard engine.

use base64::engine::general_purpose::STANDARD;
use base64::Engine;
use crate::text::{is_space, trimmed};
use vstd::prelude::*;

verus! {

/// The character for a six-bit value in the standard alphabet.
pub open spec fn base64_digit(v: int) -> char {
    if v < 26 {
        (v + 65) as char
    } else if v < 52 {
        (v - 26 + 97) as char
    } else if v < 62 {
        (v - 52 + 48) as char
    } else if v == 62 {
        '+'
    } else {
        '/'
    }
}

/// The standard base64 text of `b`: four characters for every three bytes, the last group
/// filled up with `=`.
pub open spec fn base64(b: Seq<u8>) -> Seq<char>
    decreases b.len(),
{
    if b.len() == 0 {
        Seq::empty()
    } else if b.len() == 1 {
        seq![base64_digit((b[0] / 4) as int), base64_digit((b[0] % 4) * 16), '=', '=']
    } else if b.len() == 2 {
        seq![
            base64_digit((b[0] / 4) as int),
            base64_digit((b[0] % 4) * 16 + b[1] / 16),
            base64_digit((b[1] % 16) * 4),
            '=',
        ]
    } else {
        seq![
            base64_digit((b[0] / 4) as int),
            base64_digit((b[0] % 4) * 16 + b[1] / 16),
            base64_digit((b[1] % 16) * 4 + b[2] / 64),
            base64_digit((b[2] % 64) as int),
        ] + base64(b.skip(3))
    }
}

/// The length of the base64 text of `n` bytes.
pub open spec fn base64_len(n: nat) -> nat {
    (n + 2) / 3 * 4
}

/// What the `base64` crate says of a text that it refuses to decode.
pub uninterp spec fn base64_refusal(text: Seq<char>) -> Seq<char>;

/// `base64::Engine::encode` of the standard engine: the base64 text of `bytes`. Its length must
/// be one that an allocation can have.
#[verifier::external_body]
fn engine_encode(bytes: &[u8]) -> (r: String)
    requires
        base64_len(bytes@.len()) <= isize::MAX,
    ensures
        r@ == base64(bytes@),
{
    STANDARD.encode(bytes)
}

/// `base64::Engine::decode` of the standard engine, which asks for canonical padding and for
/// unused bits that are zero: it gives the bytes whose base64 text is `text`, and refuses every
/// text that is not the base64 text of anything. The refusal comes as its printed form.
#[verifier::external_body]
fn engine_decode(text: &str) -> (r: Result<Vec<u8>, String>)
    ensures
        match r {
            Ok(bytes) => base64(bytes@) == text@,
            Err(e) => e@ == base64_refusal(text@) && forall|b: Seq<u8>| #[trigger]
                base64(b) != text@,
        },
{
    STANDARD.decode(text).map_err(|e| e.to_string())
}

/// Whether `n` bytes are few enough for their base64 text to be held in memory.
pub open spec fn is_encodable(n: nat) -> bool {
    base64_len(n) <= isize::MAX
}

pub fn encodable(n: usize) -> (r: bool)
    ensures
        r == is_encodable(n as nat),
{
    (n as u128 + 2) / 3 * 4 <= isize::MAX as u128
}

/// The base64 text of `bytes`.
pub fn encode_base64(bytes: &[u8]) -> (r: String)
    requires
        is_encodable(bytes@.len()),
    ensures
        r@ == base64(bytes@),
{
    engine_encode(bytes)
}

/// `text` is the base64 text of something.
pub open spec fn is_base64(text: Seq<char>) -> bool {
    exists|b: Seq<u8>| #[trigger] base64(b) == text
}

/// The bytes whose base64 text is `text`, or what is wrong with the text where it is the base64
/// text of nothing.
pub open spec fn decoded(text: Seq<char>) -> Result<Seq<u8>, Seq<char>> {
    if is_base64(text) {
        Ok(choose|b: Seq<u8>| #[trigger] base64(b) == text)
    } else {
        Err(base64_refusal(text))
    }
}

/// The bytes whose base64 text is `text`, or what is wrong with the text where it is the base64
/// text of nothing.
pub fn decode_base64(text: &str) -> (r: Result<Vec<u8>, String>)
    ensures
        match r {
            Ok(bytes) => decoded(text@) == Ok::<Seq<u8>, Seq<char>>(bytes@),
            Err(e) => decoded(text@) == Err::<Seq<u8>, Seq<char>>(e@),
        },
{
    let r: Result<Vec<u8>, String> = engine_decode(text);
    proof {
        if r is Ok {
            law_decoding_undoes_encoding(r->Ok_0@);
        }
    }
    r
}

/// Decoding gives back what was encoded.
pub proof fn law_decoding_undoes_encoding(bytes: Seq<u8>)
    ensures
        decoded(base64(bytes)) == Ok::<Seq<u8>, Seq<char>>(bytes),
{
    let text = base64(bytes);
    assert(is_base64(text));
    law_base64_is_injective(choose|b: Seq<u8>| #[trigger] base64(b) == text, bytes);
}

proof fn lemma_digit_injective(a: int, b: int)
    requires
        0 <= a < 64,
        0 <= b < 64,
        base64_digit(a) == base64_digit(b),
    ensures
        a == b,
{
}

proof fn lemma_digit_is_no_padding(a: int)
    requires
        0 <= a < 64,
    ensures
        base64_digit(a) != '=',
{
}

proof fn lemma_base64_head(b: Seq<u8>)
    requires
        b.len() > 0,
    ensures
        base64(b).len() >= 4,
        base64(b)[0] == base64_digit((b[0] / 4) as int),
        base64(b)[1] == base64_digit((b[0] % 4) * 16 + if b.len() >= 2 {
            b[1] / 16
        } else {
            0
        }),
        base64(b)[2] == if b.len() >= 2 {
            base64_digit((b[1] % 16) * 4 + if b.len() >= 3 {
                b[2] / 64
            } else {
                0
            })
        } else {
            '='
        },
        base64(b)[3] == if b.len() >= 3 {
            base64_digit((b[2] % 64) as int)
        } else {
            '='
        },
        b.len() <= 3 ==> base64(b).len() == 4,
        b.len() >= 3 ==> base64(b).skip(4) == base64(b.skip(3)),
{
    if b.len() >= 3 {
        assert(base64(b).skip(4) =~= base64(b.skip(3)));
        if b.len() == 3 {
            assert(b.skip(3) =~= Seq::<u8>::empty());
        }
    }
}

/// Different bytes have different base64 texts.
pub proof fn law_base64_is_injective(a: Seq<u8>, b: Seq<u8>)
    requires
        base64(a) == base64(b),
    ensures
        a == b,
    decreases a.len(),
{
    if a.len() == 0 {
        if b.len() > 0 {
            lemma_base64_head(b);
        }
        assert(a =~= b);
    } else if b.len() == 0 {
        lemma_base64_head(a);
    } else {
        lemma_base64_head(a);
        lemma_base64_head(b);
        let a1 = if a.len() >= 2 { a[1] } else { 0u8 };
        let b1 = if b.len() >= 2 { b[1] } else { 0u8 };
        let a2 = if a.len() >= 3 { a[2] } else { 0u8 };
        let b2 = if b.len() >= 3 { b[2] } else { 0u8 };
        lemma_digit_is_no_padding((a1 % 16) * 4 + a2 / 64);
        lemma_digit_is_no_padding((b1 % 16) * 4 + b2 / 64);
        lemma_digit_is_no_padding((a2 % 64) as int);
        lemma_digit_is_no_padding((b2 % 64) as int);
        assert(a.len() >= 2 <==> b.len() >= 2);
        assert(a.len() >= 3 <==> b.len() >= 3);
        lemma_digit_injective((a[0] / 4) as int, (b[0] / 4) as int);
        lemma_digit_injective((a[0] % 4) * 16 + a1 / 16, (b[0] % 4) * 16 + b1 / 16);
        if a.len() >= 2 {
            lemma_digit_injective((a1 % 16) * 4 + a2 / 64, (b1 % 16) * 4 + b2 / 64);
        }
        if a.len() >= 3 {
            lemma_digit_injective((a2 % 64) as int, (b2 % 64) as int);
            law_base64_is_injective(a.skip(3), b.skip(3));
            assert(a =~= a.take(3) + a.skip(3));
            assert(b =~= b.take(3) + b.skip(3));
            assert(a.take(3) =~= b.take(3));
        } else {
            assert(a =~= b);
        }
    }
}

/// The base64 text of `n` bytes has four characters for every three bytes begun.
pub proof fn law_base64_length(b: Seq<u8>)
    ensures
        base64(b).len() == base64_len(b.len()),
    decreases b.len(),
{
    if b.len() >= 3 {
        law_base64_length(b.skip(3));
        assert((b.len() + 2) / 3 == (b.len() - 3 + 2) / 3 + 1);
    }
}

proof fn lemma_digit_is_no_space(a: int)
    requires
        0 <= a < 64,
    ensures
        !is_space(base64_digit(a)),
{
}

proof fn lemma_no_space(b: Seq<u8>, i: int)
    requires
        0 <= i < base64(b).len(),
    ensures
        !is_space(base64(b)[i]),
    decreases b.len(),
{
    if b.len() > 0 {
        lemma_base64_head(b);
        let b1 = if b.len() >= 2 { b[1] } else { 0u8 };
        let b2 = if b.len() >= 3 { b[2] } else { 0u8 };
        lemma_digit_is_no_space((b[0] / 4) as int);
        lemma_digit_is_no_space((b[0] % 4) * 16 + b1 / 16);
        lemma_digit_is_no_space((b1 % 16) * 4 + b2 / 64);
        lemma_digit_is_no_space((b2 % 64) as int);
        if i >= 4 {
            assert(base64(b)[i] == base64(b).skip(4)[i - 4]);
            lemma_no_space(b.skip(3), i - 4);
        }
    }
}

/// Trimming does not change a base64 text.
pub proof fn law_base64_is_trimmed(b: Seq<u8>)
    ensures
        trimmed(base64(b)) == base64(b),
{
    let text = base64(b);
    if text.len() > 0 {
        lemma_no_space(b, 0);
        lemma_no_space(b, text.len() - 1);
    }
    crate::text::lemma_trimmed_fixed(text);
}

/// The value of a base64 character: its place in the alphabet.
pub open spec fn digit_value(c: char) -> int {
    if 'A' <= c <= 'Z' {
        c as int - 'A' as int
    } else if 'a' <= c <= 'z' {
        c as int - 'a' as int + 26
    } else if '0' <= c <= '9' {
        c as int - '0' as int + 52
    } else if c == '+' {
        62
    } else {
        63
    }
}

/// Each full group of three bytes is written as four characters whose places in the alphabet are
/// the group's four groups of six bits, and the text goes on with the bytes after the group.
pub proof fn law_base64_writes_six_bits_a_character(b: Seq<u8>)
    requires
        b.len() >= 3,
    ensures
        ({
            let t = base64(b);
            &&& t.len() >= 4
            &&& digit_value(t[0]) * 262144 + digit_value(t[1]) * 4096 + digit_value(t[2]) * 64
                + digit_value(t[3]) == b[0] * 65536 + b[1] * 256 + b[2]
            &&& t.skip(4) == base64(b.skip(3))
        }),
{
    lemma_base64_head(b);
    lemma_digit_value((b[0] / 4) as int);
    lemma_digit_value((b[0] % 4) * 16 + b[1] / 16);
    lemma_digit_value((b[1] % 16) * 4 + b[2] / 64);
    lemma_digit_value((b[2] % 64) as int);
}

proof fn lemma_digit_value(v: int)
    requires
        0 <= v < 64,
    ensures
        digit_value(base64_digit(v)) == v,
{
}

/// A last group of one or two bytes is written like a full one with zeros for what is missing,
/// and with `=` for each missing byte.
pub proof fn law_base64_pads_the_last_group(b: Seq<u8>)
    requires
        1 <= b.len() <= 2,
    ensures
        ({
            let t = base64(b);
            let second: int = if b.len() == 2 { b[1] as int } else { 0 };
            &&& t.len() == 4
            &&& t[3] == '='
            &&& t[2] == '=' <==> b.len() == 1
            &&& digit_value(t[0]) * 64 + digit_value(t[1]) == b[0] * 16 + second / 16
            &&& b.len() == 2 ==> digit_value(t[2]) == (second % 16) * 4
        }),
{
    lemma_base64_head(b);
    let second: int = if b.len() == 2 { b[1] as int } else { 0 };
    lemma_digit_value((b[0] / 4) as int);
    lemma_digit_value((b[0] % 4) * 16 + second / 16);
    lemma_digit_value((second % 16) * 4);
    if b.len() == 2 {
        lemma_digit_is_no_padding((second % 16) * 4);
    }
}

/// A text is decoded exactly where it is the base64 text of something, and then to that; every
/// other is refused.
pub proof fn law_only_base64_is_decoded(text: Seq<char>)
    ensures
        decoded(text) is Ok <==> exists|b: Seq<u8>| #[trigger] base64(b) == text,
        decoded(text) is Ok ==> base64(decoded(text)->Ok_0) == text,
        decoded(text) matches Err(e) ==> e == base64_refusal(text),
{
}

/// Bytes can be encoded exactly where their base64 text is no longer than an allocation can be.
pub proof fn law_encodable_is_what_fits(b: Seq<u8>)
    ensures
        is_encodable(b.len()) <==> base64(b).len() <= isize::MAX,
{
    law_base64_length(b);
}

} // verus!
