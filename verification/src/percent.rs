//! Percent-encoding: of the parameters of a URL, and of a form's fields.
use vstd::prelude::*;
use vstd::utf8::*;

use crate::text::{
    joined, law_splitting_undoes_joining, lemma_joined_push, lemma_split_once, split_at, split_once_at,
};

verus! {

/// The upper-case hexadecimal digit for a value below sixteen.
pub open spec fn hex_digit(value: int) -> char {
    if value < 10 {
        (48 + value) as u8 as char
    } else {
        (55 + value) as u8 as char
    }
}

/// The value of a hexadecimal digit of either case.
pub open spec fn hex_value(digit: u8) -> Option<int> {
    if 48 <= digit <= 57 {
        Some(digit - 48)
    } else if 65 <= digit <= 70 {
        Some(digit - 55)
    } else if 97 <= digit <= 102 {
        Some(digit - 87)
    } else {
        None
    }
}

/// The ASCII letters and digits.
pub open spec fn alphanumeric(byte: u8) -> bool {
    48 <= byte <= 57 || 65 <= byte <= 90 || 97 <= byte <= 122
}

/// The bytes that stand for themselves in a URL: letters, digits, `-`, `.`, `_` and `~`.
pub open spec fn unreserved(byte: u8) -> bool {
    alphanumeric(byte) || byte == 45 || byte == 46 || byte == 95 || byte == 126
}

/// A byte as `%` and two hexadecimal digits.
pub open spec fn escaped(byte: u8) -> Seq<char> {
    seq!['%', hex_digit(byte as int / 16), hex_digit(byte as int % 16)]
}

/// Bytes as text in a URL: each stands for itself or is escaped.
pub open spec fn percent_encoded(bytes: Seq<u8>) -> Seq<char>
    decreases bytes.len(),
{
    if bytes.len() == 0 {
        seq![]
    } else {
        let byte = bytes.first();
        (if unreserved(byte) {
            seq![byte as char]
        } else {
            escaped(byte)
        }) + percent_encoded(bytes.drop_first())
    }
}

/// Bytes with each `%` that two hexadecimal digits follow replaced by the byte that they name.
pub open spec fn percent_decoded(bytes: Seq<u8>) -> Seq<u8>
    decreases bytes.len(),
{
    if bytes.len() == 0 {
        seq![]
    } else if bytes[0] == 37 && bytes.len() >= 3 && hex_value(bytes[1]) is Some && hex_value(
        bytes[2],
    ) is Some {
        seq![(16 * hex_value(bytes[1])->0 + hex_value(bytes[2])->0) as u8] + percent_decoded(
            bytes.skip(3),
        )
    } else {
        seq![bytes[0]] + percent_decoded(bytes.drop_first())
    }
}

/// The value of a parameter as it stands in a URL.
pub open spec fn url_encoded(text: Seq<char>) -> Seq<char> {
    percent_encoded(encode_utf8(text))
}

/// The text that a parameter of a URL stands for, unless what it names is no UTF-8.
pub open spec fn url_decoded(text: Seq<char>) -> Option<Seq<char>> {
    let bytes = percent_decoded(encode_utf8(text));
    if valid_utf8(bytes) {
        Some(decode_utf8(bytes))
    } else {
        None
    }
}

/// Bytes as text in a form: letters, digits, `*`, `-`, `.` and `_` stand for
/// themselves, a space becomes `+`, anything else is escaped.
pub open spec fn form_encoded(bytes: Seq<u8>) -> Seq<char>
    decreases bytes.len(),
{
    if bytes.len() == 0 {
        seq![]
    } else {
        let byte = bytes.first();
        (if alphanumeric(byte) || byte == 42 || byte == 45 || byte == 46 || byte == 95 {
            seq![byte as char]
        } else if byte == 32 {
            seq!['+']
        } else {
            escaped(byte)
        }) + form_encoded(bytes.drop_first())
    }
}

/// The fields of a form: `name=value`, joined by `&`.
pub open spec fn form_body(fields: Seq<(Seq<char>, Seq<char>)>) -> Seq<char>
    decreases fields.len(),
{
    if fields.len() == 0 {
        seq![]
    } else {
        let (name, value) = fields.last();
        let field = form_encoded(encode_utf8(name)) + seq!['='] + form_encoded(encode_utf8(value));
        if fields.len() == 1 {
            field
        } else {
            form_body(fields.drop_last()) + seq!['&'] + field
        }
    }
}

/// The names and values of fields, as characters.
pub open spec fn field_texts<'a>(fields: Seq<(&'a str, &'a str)>) -> Seq<(Seq<char>, Seq<char>)> {
    fields.map_values(|field: (&'a str, &'a str)| (field.0@, field.1@))
}

/// The error of a text that is no UTF-8.
#[verifier::external_type_specification]
#[verifier::external_body]
pub struct ExFromUtf8Error(std::string::FromUtf8Error);

/// The error of a form that cannot be written.
#[verifier::external_type_specification]
#[verifier::external_body]
pub struct ExFormError(serde_urlencoded::ser::Error);

/// `urlencoding::encode`: each byte of the UTF-8 form of `text` stands for
/// itself if it is a letter, a digit, `-`, `.`, `_` or `~`, and is written as
/// `%` and two upper-case hexadecimal digits otherwise.
#[verifier::external_body]
pub(crate) fn url_encode(text: &str) -> (encoded: String)
    ensures
        encoded@ == url_encoded(text@),
{
    urlencoding::encode(text).into_owned()
}

/// `urlencoding::decode`: each `%` that two hexadecimal digits follow is
/// replaced by the byte that they name, any other byte stays as it is (`+`
/// too), and the result must be UTF-8.
#[verifier::external_body]
pub(crate) fn url_decode(text: &str) -> (decoded: Result<String, std::string::FromUtf8Error>)
    ensures
        match decoded {
            Ok(plain) => url_decoded(text@) == Some(plain@),
            Err(_) => url_decoded(text@) is None,
        },
{
    urlencoding::decode(text).map(|plain| plain.into_owned())
}

/// `serde_urlencoded::to_string` on pairs of texts: the pairs in their order,
/// as `application/x-www-form-urlencoded` writes them. It does not fail on texts.
#[verifier::external_body]
pub(crate) fn form_encode<'a>(fields: &Vec<(&'a str, &'a str)>) -> (body: Result<
    String,
    serde_urlencoded::ser::Error,
>)
    ensures
        body is Ok,
        body->Ok_0@ == form_body(field_texts(fields@)),
{
    serde_urlencoded::to_string(fields)
}

/// A character that percent-encoding can write: `%` or an unreserved one.
pub open spec fn url_safe(c: char) -> bool {
    c == '%' || ('\0' <= c <= '\u{7f}' && unreserved(c as u8))
}

/// Percent-encoded text holds `%` and unreserved characters only: none of the
/// characters that separate the parameters of a URL, and none of `|`.
pub proof fn law_url_encoded_is_safe(text: Seq<char>)
    ensures
        forall|i: int| 0 <= i < url_encoded(text).len() ==> url_safe(#[trigger] url_encoded(text)[i]),
{
    lemma_percent_encoded_safe(encode_utf8(text));
}

/// What percent-encoding writes, percent-decoding reads back.
pub proof fn law_url_decoding_inverts_encoding(text: Seq<char>)
    ensures
        url_decoded(url_encoded(text)) == Some(text),
{
    lemma_percent_round_trip(encode_utf8(text));
    encode_utf8_valid_utf8(text);
    encode_utf8_decode_utf8(text);
}

proof fn lemma_percent_encoded_safe(bytes: Seq<u8>)
    ensures
        forall|i: int|
            0 <= i < percent_encoded(bytes).len() ==> url_safe(#[trigger] percent_encoded(bytes)[i]),
    decreases bytes.len(),
{
    if bytes.len() > 0 {
        let byte = bytes.first();
        let rest = percent_encoded(bytes.drop_first());
        lemma_percent_encoded_safe(bytes.drop_first());
        assert forall|i: int| 0 <= i < percent_encoded(bytes).len() implies url_safe(
            #[trigger] percent_encoded(bytes)[i],
        ) by {
            let head: int = if unreserved(byte) {
                1
            } else {
                3
            };
            if i >= head {
                assert(percent_encoded(bytes)[i] == rest[i - head]);
            } else if i == 1 {
                assert(percent_encoded(bytes)[i] == hex_digit(byte as int / 16));
            } else if i == 2 {
                assert(percent_encoded(bytes)[i] == hex_digit(byte as int % 16));
            }
        }
    }
}

/// Text of unreserved characters is the same when it is percent-encoded.
pub(crate) proof fn lemma_unreserved_stands_for_itself(text: Seq<char>)
    requires
        forall|i: int|
            0 <= i < text.len() ==> '\0' <= #[trigger] text[i] <= '\u{7f}' && unreserved(
                text[i] as u8,
            ),
    ensures
        url_encoded(text) == text,
    decreases text.len(),
{
    assert(is_ascii_chars(text));
    is_ascii_chars_encode_utf8(text);
    if text.len() > 0 {
        let rest = text.drop_first();
        assert(is_ascii_chars(rest));
        is_ascii_chars_encode_utf8(rest);
        lemma_unreserved_stands_for_itself(rest);
        assert(encode_utf8(text).drop_first() =~= encode_utf8(rest));
        assert(encode_utf8(text)[0] as char == text[0]);
        assert(url_encoded(text) =~= seq![text[0]] + rest);
        assert(text =~= seq![text[0]] + rest);
    }
}

proof fn lemma_safe_is_ascii(text: Seq<char>)
    requires
        forall|i: int| 0 <= i < text.len() ==> url_safe(#[trigger] text[i]),
    ensures
        is_ascii_chars(text),
{
    assert forall|i: int| 0 <= i < text.len() implies '\0' <= #[trigger] text[i] <= '\u{7f}' by {
        assert(url_safe(text[i]));
    }
}

proof fn lemma_percent_round_trip(bytes: Seq<u8>)
    ensures
        percent_decoded(encode_utf8(percent_encoded(bytes))) == bytes,
    decreases bytes.len(),
{
    let text = percent_encoded(bytes);
    lemma_percent_encoded_safe(bytes);
    lemma_safe_is_ascii(text);
    is_ascii_chars_encode_utf8(text);
    if bytes.len() > 0 {
        let rest = percent_encoded(bytes.drop_first());
        lemma_percent_encoded_safe(bytes.drop_first());
        lemma_safe_is_ascii(rest);
        is_ascii_chars_encode_utf8(rest);
        lemma_percent_round_trip(bytes.drop_first());
        let coded = encode_utf8(text);
        if unreserved(bytes.first()) {
            assert(coded.drop_first() =~= encode_utf8(rest));
            assert(coded[0] == bytes.first());
        } else {
            assert(coded.skip(3) =~= encode_utf8(rest));
            assert(coded[0] == 37);
        }
        assert(seq![bytes.first()] + bytes.drop_first() =~= bytes);
    }
}

/// A text with each `+` replaced by a space.
pub open spec fn plus_spaced(text: Seq<char>) -> Seq<char> {
    text.map_values(|c: char| if c == '+' { ' ' } else { c })
}

/// The text that a name or a value in a form stands for: `+` is a space, and `%`
/// with two hexadecimal digits is the byte that they name.
pub open spec fn form_decoded(text: Seq<char>) -> Option<Seq<char>> {
    url_decoded(plus_spaced(text))
}

/// Whether a field of a form reads as the given name and value.
pub open spec fn form_field_reads(field: Seq<char>, name: Seq<char>, value: Seq<char>) -> bool {
    split_once_at(field, '=') matches Some((key, coded)) && form_decoded(key) == Some(name)
        && form_decoded(coded) == Some(value)
}

/// What a form writes for a text reads back as the text.
pub proof fn law_form_decoding_inverts_encoding(text: Seq<char>)
    ensures
        form_decoded(form_encoded(encode_utf8(text))) == Some(text),
{
    lemma_form_round_trip(encode_utf8(text));
    encode_utf8_valid_utf8(text);
    encode_utf8_decode_utf8(text);
}

/// A form reads back as its fields: as many, in their order, with their names
/// and their values, whatever characters are in these.
pub proof fn law_form_reads_back(fields: Seq<(Seq<char>, Seq<char>)>)
    requires
        fields.len() > 0,
    ensures
        split_at(form_body(fields), '&').len() == fields.len(),
        forall|i: int|
            0 <= i < fields.len() ==> form_field_reads(
                #[trigger] split_at(form_body(fields), '&')[i],
                fields[i].0,
                fields[i].1,
            ),
{
    let parts = Seq::new(fields.len(), |i: int| form_field(fields[i]));
    lemma_form_body_joined(fields);
    assert forall|i: int| 0 <= i < parts.len() implies !(#[trigger] parts[i]).contains('&')
        && form_field_reads(parts[i], fields[i].0, fields[i].1) by {
        lemma_form_field(fields[i].0, fields[i].1);
    }
    law_splitting_undoes_joining(parts, '&');
}

/// A field as it stands in a form.
spec fn form_field(field: (Seq<char>, Seq<char>)) -> Seq<char> {
    form_encoded(encode_utf8(field.0)) + seq!['='] + form_encoded(encode_utf8(field.1))
}

proof fn lemma_form_body_joined(fields: Seq<(Seq<char>, Seq<char>)>)
    requires
        fields.len() > 0,
    ensures
        form_body(fields) == joined(Seq::new(fields.len(), |i: int| form_field(fields[i])), '&'),
    decreases fields.len(),
{
    let parts = Seq::new(fields.len(), |i: int| form_field(fields[i]));
    if fields.len() > 1 {
        let front = fields.drop_last();
        let fewer = Seq::new(front.len(), |i: int| form_field(front[i]));
        lemma_form_body_joined(front);
        assert(parts =~= fewer.push(form_field(fields.last())));
        lemma_joined_push(fewer, form_field(fields.last()), '&');
    } else {
        assert(parts[0] == form_field(fields.last()));
    }
}

/// A character that a form can write for a name or a value.
spec fn form_safe(c: char) -> bool {
    c == '+' || c == '*' || (c != '~' && url_safe(c))
}

proof fn lemma_form_encoded_safe(bytes: Seq<u8>)
    ensures
        forall|i: int|
            0 <= i < form_encoded(bytes).len() ==> form_safe(#[trigger] form_encoded(bytes)[i]),
    decreases bytes.len(),
{
    if bytes.len() > 0 {
        let byte = bytes.first();
        let whole = form_encoded(bytes);
        let rest = form_encoded(bytes.drop_first());
        lemma_form_encoded_safe(bytes.drop_first());
        assert forall|i: int| 0 <= i < whole.len() implies form_safe(#[trigger] whole[i]) by {
            let head = whole.len() - rest.len();
            if i >= head {
                assert(whole[i] == rest[i - head]);
            } else if i == 1 {
                assert(whole[i] == hex_digit(byte as int / 16));
            } else if i == 2 {
                assert(whole[i] == hex_digit(byte as int % 16));
            }
        }
    }
}

proof fn lemma_form_field(name: Seq<char>, value: Seq<char>)
    ensures
        !form_field((name, value)).contains('&'),
        form_field_reads(form_field((name, value)), name, value),
{
    let key = form_encoded(encode_utf8(name));
    let coded = form_encoded(encode_utf8(value));
    let field = form_field((name, value));
    lemma_form_encoded_safe(encode_utf8(name));
    lemma_form_encoded_safe(encode_utf8(value));
    law_form_decoding_inverts_encoding(name);
    law_form_decoding_inverts_encoding(value);
    assert(!key.contains('=')) by {
        if key.contains('=') {
            let i = choose|i: int| 0 <= i < key.len() && key[i] == '=';
            assert(form_safe(key[i]));
        }
    }
    lemma_split_once(key, '=', coded);
    assert forall|i: int| 0 <= i < field.len() implies #[trigger] field[i] != '&' by {
        if i < key.len() {
            assert(field[i] == key[i] && form_safe(key[i]));
        } else if i > key.len() {
            assert(field[i] == coded[i - key.len() - 1] && form_safe(coded[i - key.len() - 1]));
        }
    }
}

proof fn lemma_form_is_ascii(text: Seq<char>)
    requires
        forall|i: int| 0 <= i < text.len() ==> form_safe(#[trigger] text[i]),
    ensures
        is_ascii_chars(plus_spaced(text)),
{
    let spaced = plus_spaced(text);
    assert forall|i: int| 0 <= i < spaced.len() implies '\0' <= #[trigger] spaced[i] <= '\u{7f}' by {
        assert(form_safe(text[i]));
    }
}

proof fn lemma_form_round_trip(bytes: Seq<u8>)
    ensures
        percent_decoded(encode_utf8(plus_spaced(form_encoded(bytes)))) == bytes,
    decreases bytes.len(),
{
    let text = form_encoded(bytes);
    let spaced = plus_spaced(text);
    lemma_form_encoded_safe(bytes);
    lemma_form_is_ascii(text);
    is_ascii_chars_encode_utf8(spaced);
    if bytes.len() > 0 {
        let byte = bytes.first();
        let rest = form_encoded(bytes.drop_first());
        let rest_spaced = plus_spaced(rest);
        lemma_form_encoded_safe(bytes.drop_first());
        lemma_form_is_ascii(rest);
        is_ascii_chars_encode_utf8(rest_spaced);
        lemma_form_round_trip(bytes.drop_first());
        let coded = encode_utf8(spaced);
        if alphanumeric(byte) || byte == 42 || byte == 45 || byte == 46 || byte == 95 || byte == 32 {
            assert(spaced =~= seq![byte as char] + rest_spaced);
            assert(coded.drop_first() =~= encode_utf8(rest_spaced));
            assert(coded[0] == byte);
        } else {
            assert(spaced =~= escaped(byte) + rest_spaced);
            assert(coded.skip(3) =~= encode_utf8(rest_spaced));
            assert(coded[0] == 37);
        }
        assert(seq![byte] + bytes.drop_first() =~= bytes);
    }
}

} // verus!
