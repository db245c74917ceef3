//! Base64 with the URL-safe alphabet and without padding.
use vstd::prelude::*;

verus! {

/// The symbol for a value below sixty-four: `A` to `Z`, `a` to `z`, `0` to `9`, `-`, `_`.
pub open spec fn symbol(value: int) -> char {
    if value < 26 {
        (65 + value) as u8 as char
    } else if value < 52 {
        (71 + value) as u8 as char
    } else if value < 62 {
        (value - 4) as u8 as char
    } else if value == 62 {
        '-'
    } else {
        '_'
    }
}

/// Bytes in base64: four symbols of six bits for three bytes, the last of
/// which are filled with zero bits where one or two bytes are left.
pub open spec fn base64url(bytes: Seq<u8>) -> Seq<char>
    decreases bytes.len(),
{
    if bytes.len() == 0 {
        seq![]
    } else {
        let b0 = bytes[0] as int;
        let b1 = if bytes.len() > 1 { bytes[1] as int } else { 0 };
        let b2 = if bytes.len() > 2 { bytes[2] as int } else { 0 };
        let quad = seq![
            symbol(b0 / 4),
            symbol(b0 % 4 * 16 + b1 / 16),
            symbol(b1 % 16 * 4 + b2 / 64),
            symbol(b2 % 64),
        ];
        if bytes.len() < 3 {
            quad.take(bytes.len() as int + 1)
        } else {
            quad + base64url(bytes.skip(3))
        }
    }
}

/// The bytes whose base64 `text` is, if there are any.
pub open spec fn base64url_decoded(text: Seq<char>) -> Option<Seq<u8>> {
    if exists|bytes: Seq<u8>| #[trigger] base64url(bytes) == text {
        Some(choose|bytes: Seq<u8>| #[trigger] base64url(bytes) == text)
    } else {
        None
    }
}

/// The characters that base64 writes.
pub open spec fn base64url_char(c: char) -> bool {
    'A' <= c <= 'Z' || 'a' <= c <= 'z' || '0' <= c <= '9' || c == '-' || c == '_'
}

/// The error of a text that is no base64.
#[verifier::external_type_specification]
#[verifier::external_body]
pub struct ExDecodeError(base64::DecodeError);

/// `Engine::encode` of the engine `URL_SAFE_NO_PAD` of `base64`: the symbols of
/// the URL-safe alphabet, without padding. The length of a slice is such that
/// the length of its base64 fits a `usize`.
#[verifier::external_body]
pub(crate) fn b64url_bytes(bytes: &[u8]) -> (text: String)
    ensures
        text@ == base64url(bytes@),
{
    base64::Engine::encode(&base64::engine::general_purpose::URL_SAFE_NO_PAD, bytes)
}

/// `Engine::decode` of the engine `URL_SAFE_NO_PAD` of `base64`. It accepts the
/// canonical form only (no padding, no other symbol, no length that no bytes
/// have, no bits left over at the end), so it succeeds on what encoding some
/// bytes writes, with those bytes, and fails on any other text.
#[verifier::external_body]
pub(crate) fn b64url_decode(text: &str) -> (bytes: Result<Vec<u8>, base64::DecodeError>)
    ensures
        match bytes {
            Ok(decoded) => base64url(decoded@) == text@,
            Err(_) => forall|other: Seq<u8>| #[trigger] base64url(other) != text@,
        },
{
    base64::Engine::decode(&base64::engine::general_purpose::URL_SAFE_NO_PAD, text)
}

/// What base64 writes, it reads back.
pub proof fn law_base64url_decoding_inverts_encoding(bytes: Seq<u8>)
    ensures
        base64url_decoded(base64url(bytes)) == Some(bytes),
{
    let text = base64url(bytes);
    assert(base64url(bytes) == text);
    let found = choose|other: Seq<u8>| #[trigger] base64url(other) == text;
    lemma_base64url_injective(bytes, found);
}

/// Base64 holds letters, digits, `-` and `_` only.
pub proof fn law_base64url_alphabet(bytes: Seq<u8>)
    ensures
        forall|i: int| 0 <= i < base64url(bytes).len() ==> base64url_char(#[trigger] base64url(bytes)[i]),
    decreases bytes.len(),
{
    if bytes.len() >= 3 {
        let rest = base64url(bytes.skip(3));
        law_base64url_alphabet(bytes.skip(3));
        assert forall|i: int| 0 <= i < base64url(bytes).len() implies base64url_char(
            #[trigger] base64url(bytes)[i],
        ) by {
            if i >= 4 {
                assert(base64url(bytes)[i] == rest[i - 4]);
            }
        }
    }
}

/// Base64 has four symbols for three bytes, and one more symbol than there are
/// bytes for the one or two that may be left.
pub proof fn law_base64url_length(bytes: Seq<u8>)
    ensures
        base64url(bytes).len() == bytes.len() / 3 * 4 + (if bytes.len() % 3 == 0 {
            0
        } else {
            bytes.len() % 3 + 1
        }),
    decreases bytes.len(),
{
    if bytes.len() >= 3 {
        law_base64url_length(bytes.skip(3));
    }
}

proof fn lemma_symbol_injective(a: int, b: int)
    requires
        0 <= a < 64,
        0 <= b < 64,
        symbol(a) == symbol(b),
    ensures
        a == b,
{
}

proof fn lemma_base64url_injective(a: Seq<u8>, b: Seq<u8>)
    requires
        base64url(a) == base64url(b),
    ensures
        a == b,
    decreases a.len(),
{
    law_base64url_length(a);
    law_base64url_length(b);
    if a.len() > 0 {
        let a0 = a[0] as int;
        let a1 = if a.len() > 1 { a[1] as int } else { 0 };
        let a2 = if a.len() > 2 { a[2] as int } else { 0 };
        let b0 = b[0] as int;
        let b1 = if b.len() > 1 { b[1] as int } else { 0 };
        let b2 = if b.len() > 2 { b[2] as int } else { 0 };
        assert(base64url(a)[0] == symbol(a0 / 4) && base64url(b)[0] == symbol(b0 / 4));
        assert(base64url(a)[1] == symbol(a0 % 4 * 16 + a1 / 16) && base64url(b)[1] == symbol(
            b0 % 4 * 16 + b1 / 16,
        ));
        lemma_symbol_injective(a0 / 4, b0 / 4);
        lemma_symbol_injective(a0 % 4 * 16 + a1 / 16, b0 % 4 * 16 + b1 / 16);
        if a.len() >= 2 {
            assert(base64url(a)[2] == symbol(a1 % 16 * 4 + a2 / 64) && base64url(b)[2] == symbol(
                b1 % 16 * 4 + b2 / 64,
            ));
            lemma_symbol_injective(a1 % 16 * 4 + a2 / 64, b1 % 16 * 4 + b2 / 64);
        }
        if a.len() >= 3 {
            assert(base64url(a)[3] == symbol(a2 % 64) && base64url(b)[3] == symbol(b2 % 64));
            lemma_symbol_injective(a2 % 64, b2 % 64);
            assert(base64url(a).skip(4) =~= base64url(a.skip(3)));
            assert(base64url(b).skip(4) =~= base64url(b.skip(3)));
            lemma_base64url_injective(a.skip(3), b.skip(3));
            assert(a =~= a.take(3) + a.skip(3));
            assert(b =~= b.take(3) + b.skip(3));
        }
        assert(a =~= b);
    }
}

} // verus!
