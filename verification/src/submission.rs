//! What the web vault submits as the second factor: a code and a state.
use vstd::prelude::*;
use vstd::utf8::*;

use crate::config::looked_up;
use crate::error::{bad_request, outcome, AppError, Fault};
use crate::json::{
    as_text, begins_no_json, json_from_slice, json_members, member, or_else, text_of, writable,
    JsonObject, JsonView,
};
use crate::json_text::{barless, json_text, law_object_stands_between_braces, object_text};
use crate::percent::{
    law_url_decoding_inverts_encoding, law_url_encoded_is_safe, url_decode, url_decoded, url_encoded,
    url_safe,
};
use crate::text::{
    blank, contains, joined, law_splitting_undoes_joining, law_trimming_ignores_padding,
    law_trimming_is_idempotent, lemma_split_none,
    lemma_split_once, lemma_split_once_joins, lemma_trimmed_bounds, lemma_trimmed_is, occurs, occurs_at, same, split,
    split_at, split_once, split_once_at, trim, trimmed, white_space,
};

verus! {

/// A code and a state without the white space around them, if both are there
/// and something is left of both.
pub open spec fn both(code: Option<Seq<char>>, state: Option<Seq<char>>) -> Option<
    (Seq<char>, Seq<char>),
> {
    match (code, state) {
        (Some(c), Some(s)) => if trimmed(c).len() > 0 && trimmed(s).len() > 0 {
            Some((trimmed(c), trimmed(s)))
        } else {
            None
        },
        _ => None,
    }
}

/// The pair in a text `code|state`.
pub open spec fn piped_pair(raw: Seq<char>) -> Option<(Seq<char>, Seq<char>)> {
    match split_once_at(raw, '|') {
        Some((code, state)) => both(Some(code), Some(state)),
        None => None,
    }
}

/// The pair in the members `code` (or `Code`) and `state` (or `State`) of an
/// object. A member in lower case hides the other, whatever it holds.
pub open spec fn member_pair(object: Map<Seq<char>, JsonView>) -> Option<(Seq<char>, Seq<char>)> {
    both(
        as_text(or_else(member(object, "code"@), member(object, "Code"@))),
        as_text(or_else(member(object, "state"@), member(object, "State"@))),
    )
}

/// The pair in a text that is JSON.
pub open spec fn json_pair(raw: Seq<char>) -> Option<(Seq<char>, Seq<char>)> {
    match json_members(encode_utf8(raw)) {
        Some(object) => member_pair(object),
        None => None,
    }
}

/// A field `name=value` whose value names no text.
pub open spec fn undecodable(field: Seq<char>) -> bool {
    split_once_at(field, '=') matches Some((_, value)) && url_decoded(value) is None
}

/// The value of the last field with the given name.
pub open spec fn last_value(fields: Seq<Seq<char>>, name: Seq<char>) -> Option<Seq<char>>
    decreases fields.len(),
{
    if fields.len() == 0 {
        None
    } else {
        match split_once_at(fields.last(), '=') {
            Some((key, value)) => if key == name {
                url_decoded(value)
            } else {
                last_value(fields.drop_last(), name)
            },
            None => last_value(fields.drop_last(), name),
        }
    }
}

/// The pair in a text `code=...&state=...`; a fault if a value in it names no text.
pub open spec fn query_pair(raw: Seq<char>) -> Result<Option<(Seq<char>, Seq<char>)>, Fault> {
    let fields = split_at(raw, '&');
    if !occurs(raw, "code="@) || !occurs(raw, "state="@) {
        Ok(None)
    } else if exists|i: int| 0 <= i < fields.len() && undecodable(#[trigger] fields[i]) {
        Err(Fault::BadRequest("Invalid Duo token encoding"@))
    } else {
        Ok(both(last_value(fields, "code"@), last_value(fields, "state"@)))
    }
}

/// The code and the state in what the vault submits: a pair `code|state`, else
/// JSON, else a query.
pub open spec fn submission(two_factor_token: Seq<char>) -> Result<(Seq<char>, Seq<char>), Fault> {
    let raw = trimmed(two_factor_token);
    match piped_pair(raw) {
        Some(pair) => Ok(pair),
        None => match json_pair(raw) {
            Some(pair) => Ok(pair),
            None => match query_pair(raw) {
                Err(fault) => Err(fault),
                Ok(Some(pair)) => Ok(pair),
                Ok(None) => Err(Fault::BadRequest("Invalid Duo token format"@)),
            },
        },
    }
}

/// A pair of texts, as characters.
pub open spec fn pair_texts(pair: Option<(String, String)>) -> Option<(Seq<char>, Seq<char>)> {
    match pair {
        Some((code, state)) => Some((code@, state@)),
        None => None,
    }
}

/// An optional text, as characters.
spec fn text_view(text: Option<&str>) -> Option<Seq<char>> {
    match text {
        Some(found) => Some(found@),
        None => None,
    }
}

/// The code and the state without the white space around them, if both are
/// there and something is left of both.
fn trim_both(code: Option<&str>, state: Option<&str>) -> (pair: Option<(String, String)>)
    ensures
        pair_texts(pair) == both(text_view(code), text_view(state)),
{
    match (code, state) {
        (Some(code), Some(state)) => {
            let code = trim(code);
            let state = trim(state);
            if !code.is_empty() && !state.is_empty() {
                Some((code.to_string(), state.to_string()))
            } else {
                None
            }
        },
        _ => None,
    }
}

/// Reads a pair `code|state`.
pub fn parse_piped(raw: &str) -> (pair: Option<(String, String)>)
    ensures
        pair_texts(pair) == piped_pair(raw@),
{
    match split_once(raw, '|') {
        Some((code, state)) => trim_both(Some(code), Some(state)),
        None => None,
    }
}

/// The text of a member, under its name in lower case or else in upper case.
fn either_text<'a>(object: &'a JsonObject, name: &str, capitalized: &str) -> (text: Option<&'a str>)
    ensures
        text_view(text) == as_text(or_else(member(object@, name@), member(object@, capitalized@))),
{
    match object.get(name) {
        Some(value) => text_of(Some(value)),
        None => text_of(object.get(capitalized)),
    }
}

/// Reads the pair in the members of an object.
pub fn parse_members(object: &JsonObject) -> (pair: Option<(String, String)>)
    ensures
        pair_texts(pair) == member_pair(object@),
{
    trim_both(either_text(object, "code", "Code"), either_text(object, "state", "State"))
}

/// Reads a pair `code=...&state=...`.
pub fn parse_query(raw: &str) -> (pair: Result<Option<(String, String)>, AppError>)
    ensures
        match pair {
            Ok(found) => query_pair(raw@) == Ok::<Option<(Seq<char>, Seq<char>)>, Fault>(
                pair_texts(found),
            ),
            Err(error) => query_pair(raw@) == Err::<Option<(Seq<char>, Seq<char>)>, Fault>(error@),
        },
{
    if !contains(raw, "code=") || !contains(raw, "state=") {
        return Ok(None);
    }
    let fields = split(raw, '&');
    let ghost texts = split_at(raw@, '&');
    let mut code: Option<String> = None;
    let mut state: Option<String> = None;
    let mut i: usize = 0;
    while i < fields.len()
        invariant
            i <= fields.len(),
            fields.len() == texts.len(),
            texts == split_at(raw@, '&'),
            occurs(raw@, "code="@),
            occurs(raw@, "state="@),
            forall|j: int| 0 <= j < fields.len() ==> #[trigger] texts[j] == fields@[j]@,
            forall|j: int| 0 <= j < i ==> !undecodable(#[trigger] texts[j]),
            looked_up(code) == last_value(texts.take(i as int), "code"@),
            looked_up(state) == last_value(texts.take(i as int), "state"@),
        decreases fields.len() - i,
    {
        assert(texts.take(i + 1).drop_last() =~= texts.take(i as int));
        assert(texts.take(i + 1).last() == texts[i as int]);
        assert("code"@ != "state"@) by {
            reveal_strlit("code");
            reveal_strlit("state");
            assert("code"@.len() != "state"@.len());
        }
        if let Some((key, value)) = split_once(fields[i], '=') {
            match url_decode(value) {
                Ok(decoded) => {
                    if same(key, "code") {
                        code = Some(decoded);
                    } else if same(key, "state") {
                        state = Some(decoded);
                    }
                },
                Err(_) => {
                    assert(undecodable(texts[i as int]));
                    return Err(bad_request("Invalid Duo token encoding"));
                },
            }
        }
        i = i + 1;
    }
    assert(texts.take(i as int) =~= texts);
    match (&code, &state) {
        (Some(code), Some(state)) => Ok(trim_both(Some(code.as_str()), Some(state.as_str()))),
        _ => Ok(None),
    }
}

/// Reads a pair `code=...&state=...`, the last form that a submission may have.
fn read_query(raw: &str) -> (pair: Result<(String, String), AppError>)
    ensures
        outcome(pair) == match query_pair(raw@) {
            Err(fault) => Err::<(Seq<char>, Seq<char>), Fault>(fault),
            Ok(Some(found)) => Ok(found),
            Ok(None) => Err(Fault::BadRequest("Invalid Duo token format"@)),
        },
{
    match parse_query(raw)? {
        Some(pair) => Ok(pair),
        None => Err(bad_request("Invalid Duo token format")),
    }
}

/// The object that carries a code and a state.
pub open spec fn pair_object(code: Seq<char>, state: Seq<char>) -> Map<Seq<char>, JsonView> {
    Map::empty().insert("code"@, JsonView::Text(code)).insert("state"@, JsonView::Text(state))
}

/// Whether `text` carries a code and a state, in one of the forms that a
/// submission may have. A bar in the text would make it one of the first form,
/// so what stands before the bar of that form has none, and JSON has none at all.
pub open spec fn carries(text: Seq<char>, code: Seq<char>, state: Seq<char>) -> bool {
    ||| text == code + seq!['|'] + state && !code.contains('|')
    ||| text == object_text(pair_object(code, state)) && !code.contains('|') && !state.contains('|')
    ||| text == query_text(code, state)
}

/// A text with something on either side.
pub open spec fn padded(left: Seq<char>, text: Seq<char>, right: Seq<char>) -> Seq<char> {
    left + text + right
}

/// Reads the code and the state in what the vault submits. In whichever form a
/// text carries the two, and whatever white space is around it, it is read as them.
pub fn parse_duo_two_factor_token(two_factor_token: &str) -> (pair: Result<
    (String, String),
    AppError,
>)
    ensures
        outcome(pair) == submission(two_factor_token@),
        forall|
            left: Seq<char>,
            text: Seq<char>,
            right: Seq<char>,
            code: Seq<char>,
            state: Seq<char>,
        |
            two_factor_token@ == #[trigger] padded(left, text, right) && blank(left) && blank(right)
                && #[trigger] carries(text, code, state) && trimmed(code).len() > 0
                && trimmed(state).len() > 0 ==> outcome(pair) == Ok::<(Seq<char>, Seq<char>), Fault>(
                (trimmed(code), trimmed(state)),
            ),
        ({
            let raw = trimmed(two_factor_token@);
            let bytes = encode_utf8(raw);
            !raw.contains('|') && bytes.len() > 0 && begins_no_json(bytes[0]) ==> outcome(pair)
                == match query_pair(raw) {
                Err(fault) => Err::<(Seq<char>, Seq<char>), Fault>(fault),
                Ok(Some(found)) => Ok(found),
                Ok(None) => Err(Fault::BadRequest("Invalid Duo token format"@)),
            }
        }),
{
    let raw = trim(two_factor_token);
    let pair = match parse_piped(raw) {
        Some(pair) => Ok(pair),
        None => match json_from_slice(raw.as_bytes()) {
            Ok(object) => match parse_members(&object) {
                Some(pair) => Ok(pair),
                None => read_query(raw),
            },
            Err(_) => read_query(raw),
        },
    };
    proof {
        if !raw@.contains('|') {
            lemma_split_none(raw@, '|');
        }
        assert forall|
            left: Seq<char>,
            text: Seq<char>,
            right: Seq<char>,
            code: Seq<char>,
            state: Seq<char>,
        |
            two_factor_token@ == #[trigger] padded(left, text, right) && blank(left) && blank(right)
                && #[trigger] carries(text, code, state) && trimmed(code).len() > 0
                && trimmed(state).len() > 0 implies outcome(pair) == Ok::<
            (Seq<char>, Seq<char>),
            Fault,
        >((trimmed(code), trimmed(state))) by {
            law_trimming_ignores_padding(left, text, right);
            if text == code + seq!['|'] + state && !code.contains('|') {
                law_piped_submission_is_read(code, state);
            } else if text == query_text(code, state) {
                lemma_query_begins_no_json(code, state);
                lemma_query_is_read(code, state);
            } else {
                lemma_pair_object_is_plain(code, state);
                assert(encode_utf8(raw@) == json_text(pair_object(code, state)));
                law_json_submission_is_read(text, pair_object(code, state));
            }
        }
    }
    pair
}

/// A code and a state that are read are not blank, and have no white space around them.
pub proof fn law_submission_is_trimmed(two_factor_token: Seq<char>)
    requires
        submission(two_factor_token) is Ok,
    ensures
        ({
            let (code, state) = submission(two_factor_token)->Ok_0;
            &&& code.len() > 0 && trimmed(code) == code
            &&& state.len() > 0 && trimmed(state) == state
        }),
{
    let raw = trimmed(two_factor_token);
    if piped_pair(raw) is Some {
        let (code, state) = split_once_at(raw, '|')->0;
        law_trimming_is_idempotent(code);
        law_trimming_is_idempotent(state);
    } else if json_pair(raw) is Some {
        let object = json_members(encode_utf8(raw))->0;
        law_trimming_is_idempotent(
            as_text(or_else(member(object, "code"@), member(object, "Code"@)))->0,
        );
        law_trimming_is_idempotent(
            as_text(or_else(member(object, "state"@), member(object, "State"@)))->0,
        );
    } else {
        let fields = split_at(raw, '&');
        law_trimming_is_idempotent(last_value(fields, "code"@)->0);
        law_trimming_is_idempotent(last_value(fields, "state"@)->0);
    }
}

/// White space around a submission makes no difference.
pub proof fn law_submission_ignores_padding(left: Seq<char>, token: Seq<char>, right: Seq<char>)
    requires
        blank(left),
        blank(right),
    ensures
        submission(left + token + right) == submission(token),
{
    law_trimming_ignores_padding(left, token, right);
}

/// A code that holds no bar and a state, joined by a bar, are read as the two.
pub proof fn law_piped_submission_is_read(code: Seq<char>, state: Seq<char>)
    requires
        !code.contains('|'),
        trimmed(code).len() > 0,
        trimmed(state).len() > 0,
    ensures
        submission(code + seq!['|'] + state) == Ok::<(Seq<char>, Seq<char>), Fault>(
            (trimmed(code), trimmed(state)),
        ),
{
    let (a, b) = lemma_trimmed_bounds(code);
    let (c, d) = lemma_trimmed_bounds(state);
    let whole = code + seq!['|'] + state;
    let n = code.len() as int + 1;
    assert(a < b && c < d);
    assert forall|i: int| 0 <= i < a implies white_space(#[trigger] whole[i]) by {
        assert(white_space(code[i]));
    }
    assert forall|i: int| n + d <= i < whole.len() implies white_space(#[trigger] whole[i]) by {
        assert(white_space(state[i - n]));
    }
    assert(whole[a] == code[a] && whole[n + d - 1] == state[d - 1]);
    lemma_trimmed_is(whole, a, n + d);
    let head = code.skip(a);
    let tail = state.take(d);
    assert(trimmed(whole) =~= head + seq!['|'] + tail);
    assert(!head.contains('|')) by {
        if head.contains('|') {
            let i = choose|i: int| 0 <= i < head.len() && head[i] == '|';
            assert(code[a + i] == '|');
        }
    }
    lemma_split_once(head, '|', tail);
    assert forall|i: int| b - a <= i < head.len() implies white_space(#[trigger] head[i]) by {
        assert(white_space(code[a + i]));
    }
    lemma_trimmed_is(head, 0, b - a);
    assert(head.subrange(0, b - a) =~= code.subrange(a, b));
    assert forall|i: int| 0 <= i < c implies white_space(#[trigger] tail[i]) by {
        assert(white_space(state[i]));
    }
    lemma_trimmed_is(tail, c, d);
    assert(tail.subrange(c, d) =~= state.subrange(c, d));
}

/// A text that holds no bar and is a JSON object with a code and a state is
/// read as the two.
pub proof fn law_json_submission_is_read(token: Seq<char>, object: Map<Seq<char>, JsonView>)
    requires
        !trimmed(token).contains('|'),
        json_members(encode_utf8(trimmed(token))) == Some(object),
        member_pair(object) is Some,
    ensures
        submission(token) == Ok::<(Seq<char>, Seq<char>), Fault>(member_pair(object)->0),
{
    lemma_split_none(trimmed(token), '|');
}

/// The object that carries a code and a state is written without white space
/// around it and without bars, and its members are the two.
proof fn lemma_pair_object_is_plain(code: Seq<char>, state: Seq<char>)
    requires
        !code.contains('|'),
        !state.contains('|'),
        trimmed(code).len() > 0,
        trimmed(state).len() > 0,
    ensures
        ({
            let object = pair_object(code, state);
            &&& object.dom().finite()
            &&& writable(object)
            &&& trimmed(object_text(object)) == object_text(object)
            &&& !object_text(object).contains('|')
            &&& piped_pair(object_text(object)) is None
            &&& member_pair(object) == Some((trimmed(code), trimmed(state)))
        }),
{
    let object = pair_object(code, state);
    let whole = object_text(object);
    lemma_query_names();
    assert(!"code"@.contains('|') && !"state"@.contains('|'));
    assert(barless(object));
    law_object_stands_between_braces(object);
    lemma_trimmed_is(whole, 0, whole.len() as int);
    assert(whole.subrange(0, whole.len() as int) =~= whole);
    lemma_split_none(whole, '|');
}

/// The query that carries a code and a state.
pub open spec fn query_text(code: Seq<char>, state: Seq<char>) -> Seq<char> {
    "code="@ + url_encoded(code) + "&state="@ + url_encoded(state)
}

/// A query as it stands has no white space around it and no bar in it.
proof fn lemma_query_is_plain(code: Seq<char>, state: Seq<char>)
    ensures
        trimmed(query_text(code, state)) == query_text(code, state),
        piped_pair(query_text(code, state)) is None,
        ({
            let first = "code"@ + seq!['='] + url_encoded(code);
            let second = "state"@ + seq!['='] + url_encoded(state);
            query_text(code, state) == first + seq!['&'] + second
        }),
{
    let whole = query_text(code, state);
    let first = "code"@ + seq!['='] + url_encoded(code);
    let second = "state"@ + seq!['='] + url_encoded(state);
    lemma_query_names();
    lemma_query_field("code"@, code);
    lemma_query_field("state"@, state);
    assert(whole =~= first + seq!['&'] + second);
    assert(!first.contains('|') && !second.contains('|'));
    assert forall|i: int| 0 <= i < whole.len() implies #[trigger] whole[i] != '|' by {
        if i < first.len() {
            assert(whole[i] == first[i]);
        } else if i > first.len() {
            assert(whole[i] == second[i - first.len() - 1]);
        }
    }
    lemma_split_none(whole, '|');
    assert(whole[0] == first[0] && whole.last() == second.last());
    lemma_trimmed_is(whole, 0, whole.len() as int);
    assert(whole.subrange(0, whole.len() as int) =~= whole);
}

/// A query begins with a letter that no JSON begins with.
proof fn lemma_query_begins_no_json(code: Seq<char>, state: Seq<char>)
    ensures
        trimmed(query_text(code, state)) == query_text(code, state),
        piped_pair(query_text(code, state)) is None,
        encode_utf8(query_text(code, state)).len() > 0,
        begins_no_json(encode_utf8(query_text(code, state))[0]),
{
    let whole = query_text(code, state);
    lemma_query_is_plain(code, state);
    lemma_query_names();
    assert(whole[0] == 'c');
    encode_utf8_first_scalar(whole);
    let bytes = encode_utf8(whole);
    assert(valid_first_scalar(bytes));
    assert(bytes[0] == 99) by {
        assert(decode_first_scalar(bytes) == 99);
        assert(length_of_first_scalar(bytes) == encode_scalar(99).len());
        assert(encode_scalar(99).len() == 1);
        let byte = bytes[0];
        assert(is_leading_byte_width_1(byte));
        assert(byte & 0x7f == byte) by (bit_vector)
            requires
                byte <= 0x7f,
        ;
    }
}

/// A code and a state in a query that JSON reads no pair in are read as the two.
proof fn lemma_query_is_read(code: Seq<char>, state: Seq<char>)
    requires
        trimmed(code).len() > 0,
        trimmed(state).len() > 0,
        json_pair(query_text(code, state)) is None,
    ensures
        submission(query_text(code, state)) == Ok::<(Seq<char>, Seq<char>), Fault>(
            (trimmed(code), trimmed(state)),
        ),
{
    let whole = query_text(code, state);
    let first = "code"@ + seq!['='] + url_encoded(code);
    let second = "state"@ + seq!['='] + url_encoded(state);
    lemma_query_names();
    lemma_query_field("code"@, code);
    lemma_query_field("state"@, state);
    lemma_query_is_plain(code, state);
    lemma_query_holds_names(code, state);
    // It splits into two fields, and each of them into a name and a value.
    lemma_split_once(first, '&', second);
    lemma_split_none(second, '&');
    let fields = split_at(whole, '&');
    assert(fields =~= seq![first, second]);
    assert(fields.last() == second && fields.drop_last() =~= seq![first]);
    assert(seq![first].last() == first);
    assert(last_value(fields, "state"@) == Some(state));
    assert(last_value(seq![first], "code"@) == Some(code));
    assert(last_value(fields, "code"@) == Some(code));
}

/// The names in a query, letter by letter.
proof fn lemma_query_names()
    ensures
        "code"@ == seq!['c', 'o', 'd', 'e'],
        "state"@ == seq!['s', 't', 'a', 't', 'e'],
        "code="@ == "code"@ + seq!['='],
        "state="@ == "state"@ + seq!['='],
        "&state="@ == seq!['&'] + "state"@ + seq!['='],
        "code"@ != "state"@,
{
    reveal_strlit("code=");
    reveal_strlit("&state=");
    reveal_strlit("state=");
    reveal_strlit("code");
    reveal_strlit("state");
    assert("code"@ =~= seq!['c', 'o', 'd', 'e']);
    assert("state"@ =~= seq!['s', 't', 'a', 't', 'e']);
    assert("code="@ =~= "code"@ + seq!['=']);
    assert("state="@ =~= "state"@ + seq!['=']);
    assert("&state="@ =~= seq!['&'] + "state"@ + seq!['=']);
    assert("code"@.len() != "state"@.len());
}

/// A query holds both of its names.
proof fn lemma_query_holds_names(code: Seq<char>, state: Seq<char>)
    ensures
        occurs(query_text(code, state), "code="@),
        occurs(query_text(code, state), "state="@),
{
    let whole = query_text(code, state);
    let at = 6 + url_encoded(code).len() as int;
    lemma_query_names();
    assert(whole.subrange(0, 5) =~= "code="@);
    assert(occurs_at(whole, "code="@, 0));
    assert(whole.subrange(at, at + 6) =~= "state="@);
    assert(occurs_at(whole, "state="@, at));
}

/// A name of small letters and underscores.
pub(crate) open spec fn query_name(name: Seq<char>) -> bool {
    name.len() > 0 && forall|i: int|
        0 <= i < name.len() ==> 'a' <= #[trigger] name[i] <= 'z' || name[i] == '_'
}

/// A field of a query splits into its name and its value, and into nothing else.
pub(crate) proof fn lemma_query_field(name: Seq<char>, value: Seq<char>)
    requires
        query_name(name),
    ensures
        ({
            let field = name + seq!['='] + url_encoded(value);
            &&& split_once_at(field, '=') == Some((name, url_encoded(value)))
            &&& !undecodable(field)
            &&& url_decoded(url_encoded(value)) == Some(value)
            &&& !field.contains('&')
            &&& !field.contains('|')
            &&& !white_space(field[0])
            &&& !white_space(field.last())
        }),
{
    let coded = url_encoded(value);
    let field = name + seq!['='] + coded;
    law_url_decoding_inverts_encoding(value);
    law_url_encoded_is_safe(value);
    assert(!name.contains('=')) by {
        if name.contains('=') {
            let i = choose|i: int| 0 <= i < name.len() && name[i] == '=';
            assert('a' <= name[i]);
        }
    }
    lemma_split_once(name, '=', coded);
    assert forall|i: int| 0 <= i < field.len() implies #[trigger] field[i] != '&' && field[i] != '|'
        && !white_space(field[i]) by {
        if i < name.len() {
            assert(field[i] == name[i]);
        } else if i > name.len() {
            assert(field[i] == coded[i - name.len() - 1]);
            assert(url_safe(coded[i - name.len() - 1]));
        }
    }
}

/// Whether every field of a query that has a value has one that names a text.
pub open spec fn values_name_texts(parts: Seq<Seq<char>>) -> bool {
    forall|i: int, name: Seq<char>, value: Seq<char>|
        0 <= i < parts.len() && #[trigger] parts[i] == #[trigger] named(name, value) && !name.contains(
            '=',
        ) ==> url_decoded(value) is Some
}

/// A name and a value, with `=` between them.
pub open spec fn named(name: Seq<char>, value: Seq<char>) -> Seq<char> {
    name + seq!['='] + value
}

/// Whether the last of the fields with this very name is at `at`, with a value that
/// names `text`.
pub open spec fn last_with_name(
    parts: Seq<Seq<char>>,
    name: Seq<char>,
    at: int,
    text: Seq<char>,
) -> bool {
    &&& 0 <= at < parts.len()
    &&& exists|value: Seq<char>|
        parts[at] == #[trigger] named(name, value) && url_decoded(value) == Some(text)
    &&& forall|i: int, value: Seq<char>|
        at < i < parts.len() ==> #[trigger] parts[i] != #[trigger] named(name, value)
}

/// Whether no field has this very name.
pub open spec fn none_with_name(parts: Seq<Seq<char>>, name: Seq<char>) -> bool {
    forall|i: int, value: Seq<char>|
        0 <= i < parts.len() ==> #[trigger] parts[i] != #[trigger] named(name, value)
}

/// A query is read as the value of its last field named `code` and that of its last
/// field named `state`, without white space around them. Fields with any other name,
/// and fields without a value, make no difference, wherever they stand.
pub proof fn law_query_is_read_by_name(
    parts: Seq<Seq<char>>,
    code_at: int,
    code: Seq<char>,
    state_at: int,
    state: Seq<char>,
)
    requires
        forall|i: int| 0 <= i < parts.len() ==> !(#[trigger] parts[i]).contains('&'),
        values_name_texts(parts),
        last_with_name(parts, "code"@, code_at, code),
        last_with_name(parts, "state"@, state_at, state),
    ensures
        query_pair(joined(parts, '&')) == Ok::<Option<(Seq<char>, Seq<char>)>, Fault>(
            if trimmed(code).len() > 0 && trimmed(state).len() > 0 {
                Some((trimmed(code), trimmed(state)))
            } else {
                None
            },
        ),
{
    let raw = joined(parts, '&');
    lemma_query_names();
    law_splitting_undoes_joining(parts, '&');
    lemma_values_decode(parts);
    assert(!"code"@.contains('=') && !"state"@.contains('='));
    lemma_last_value(parts, "code"@, code_at, code);
    lemma_last_value(parts, "state"@, state_at, state);
    lemma_name_occurs(parts, "code"@, code_at, code);
    lemma_name_occurs(parts, "state"@, state_at, state);
}

/// A query in which no field is named `code`, or none is named `state`, holds no pair.
pub proof fn law_query_needs_both_names(parts: Seq<Seq<char>>)
    requires
        parts.len() > 0,
        forall|i: int| 0 <= i < parts.len() ==> !(#[trigger] parts[i]).contains('&'),
        values_name_texts(parts),
        none_with_name(parts, "code"@) || none_with_name(parts, "state"@),
    ensures
        query_pair(joined(parts, '&')) == Ok::<Option<(Seq<char>, Seq<char>)>, Fault>(None),
{
    lemma_query_names();
    law_splitting_undoes_joining(parts, '&');
    lemma_values_decode(parts);
    assert(!"code"@.contains('=') && !"state"@.contains('='));
    if none_with_name(parts, "code"@) {
        lemma_no_value(parts, "code"@);
    } else {
        lemma_no_value(parts, "state"@);
    }
}

/// A query is at fault exactly where it holds `code=` and `state=` and a field in it,
/// of whatever name, has a value that names no text.
pub proof fn law_query_is_at_fault_for_its_values(parts: Seq<Seq<char>>)
    requires
        parts.len() > 0,
        forall|i: int| 0 <= i < parts.len() ==> !(#[trigger] parts[i]).contains('&'),
    ensures
        query_pair(joined(parts, '&')) is Err <==> occurs(joined(parts, '&'), "code="@) && occurs(
            joined(parts, '&'),
            "state="@,
        ) && !values_name_texts(parts),
        query_pair(joined(parts, '&')) matches Err(fault) ==> fault == Fault::BadRequest(
            "Invalid Duo token encoding"@,
        ),
{
    law_splitting_undoes_joining(parts, '&');
    if values_name_texts(parts) {
        lemma_values_decode(parts);
    } else {
        let (i, name, value) = choose|i: int, name: Seq<char>, value: Seq<char>|
            0 <= i < parts.len() && #[trigger] parts[i] == #[trigger] named(name, value)
                && !name.contains('=') && url_decoded(value) is None;
        lemma_split_once(name, '=', value);
        assert(undecodable(parts[i]));
    }
}

proof fn lemma_values_decode(parts: Seq<Seq<char>>)
    requires
        values_name_texts(parts),
    ensures
        forall|i: int| 0 <= i < parts.len() ==> !undecodable(#[trigger] parts[i]),
{
    assert forall|i: int| 0 <= i < parts.len() implies !undecodable(#[trigger] parts[i]) by {
        lemma_split_once_joins(parts[i], '=');
        if let Some((name, value)) = split_once_at(parts[i], '=') {
            assert(parts[i] == named(name, value));
        }
    }
}

proof fn lemma_no_value(parts: Seq<Seq<char>>, name: Seq<char>)
    requires
        none_with_name(parts, name),
    ensures
        last_value(parts, name) is None,
    decreases parts.len(),
{
    if parts.len() > 0 {
        let front = parts.drop_last();
        assert forall|i: int, value: Seq<char>| 0 <= i < front.len() implies #[trigger] front[i]
            != #[trigger] named(name, value) by {
            assert(parts[i] != named(name, value));
        }
        lemma_no_value(front, name);
        lemma_split_once_joins(parts.last(), '=');
        if let Some((key, value)) = split_once_at(parts.last(), '=') {
            assert(parts[parts.len() - 1] == named(key, value));
        }
    }
}

proof fn lemma_last_value(parts: Seq<Seq<char>>, name: Seq<char>, at: int, text: Seq<char>)
    requires
        !name.contains('='),
        last_with_name(parts, name, at, text),
    ensures
        last_value(parts, name) == Some(text),
    decreases parts.len(),
{
    if at == parts.len() - 1 {
        let value = choose|value: Seq<char>|
            parts[at] == #[trigger] named(name, value) && url_decoded(value) == Some(text);
        lemma_split_once(name, '=', value);
    } else {
        let front = parts.drop_last();
        assert(front[at] == parts[at]);
        assert forall|i: int, value: Seq<char>| at < i < front.len() implies #[trigger] front[i]
            != #[trigger] named(name, value) by {
            assert(parts[i] != named(name, value));
        }
        lemma_last_value(front, name, at, text);
        lemma_split_once_joins(parts.last(), '=');
        if let Some((key, value)) = split_once_at(parts.last(), '=') {
            assert(parts[parts.len() - 1] == named(key, value));
        }
    }
}

/// Each of some texts stands in the whole that they are joined to.
proof fn lemma_part_stands_in_joined(parts: Seq<Seq<char>>, at: int) -> (from: int)
    requires
        0 <= at < parts.len(),
    ensures
        0 <= from <= from + parts[at].len() <= joined(parts, '&').len(),
        joined(parts, '&').subrange(from, from + parts[at].len()) == parts[at],
    decreases parts.len(),
{
    let whole = joined(parts, '&');
    if parts.len() == 1 {
        assert(whole.subrange(0, whole.len() as int) =~= whole);
        0
    } else if at == 0 {
        assert(whole.subrange(0, parts[0].len() as int) =~= parts[0]);
        0
    } else {
        let rest = parts.drop_first();
        let from = lemma_part_stands_in_joined(rest, at - 1);
        let shifted = parts[0].len() + 1 + from;
        assert(rest[at - 1] == parts[at]);
        assert(whole.subrange(shifted, shifted + parts[at].len()) =~= joined(rest, '&').subrange(
            from,
            from + parts[at].len(),
        ));
        shifted
    }
}

proof fn lemma_name_occurs(parts: Seq<Seq<char>>, name: Seq<char>, at: int, text: Seq<char>)
    requires
        last_with_name(parts, name, at, text),
    ensures
        occurs(joined(parts, '&'), name + seq!['=']),
{
    let whole = joined(parts, '&');
    let value = choose|value: Seq<char>|
        parts[at] == #[trigger] named(name, value) && url_decoded(value) == Some(text);
    let from = lemma_part_stands_in_joined(parts, at);
    let needle = name + seq!['='];
    let part = whole.subrange(from, from + parts[at].len());
    assert(part.take(needle.len() as int) =~= needle);
    assert(whole.subrange(from, from + needle.len()) =~= part.take(needle.len() as int));
    assert(occurs_at(whole, needle, from));
}

/// A code and a state in an object are the texts of its members `code` and `state`,
/// without white space around them. `Code` and `State` count only where the object
/// has no member of the lower-case name, whatever that holds; and where either is
/// missing, is no text or is blank, there is no pair.
pub proof fn law_object_is_read_by_name(object: Map<Seq<char>, JsonView>)
    ensures
        ({
            let code = if object.contains_key("code"@) {
                Some(object["code"@])
            } else if object.contains_key("Code"@) {
                Some(object["Code"@])
            } else {
                None
            };
            let state = if object.contains_key("state"@) {
                Some(object["state"@])
            } else if object.contains_key("State"@) {
                Some(object["State"@])
            } else {
                None
            };
            member_pair(object) == match (code, state) {
                (Some(JsonView::Text(c)), Some(JsonView::Text(s))) => if trimmed(c).len() > 0
                    && trimmed(s).len() > 0 {
                    Some((trimmed(c), trimmed(s)))
                } else {
                    None
                },
                _ => None,
            }
        }),
{
}

/// The forms are tried in this order, and the first that gives a pair counts: what
/// stands before and after the first bar, if neither is blank; the members of the
/// object that the text is; the fields of the query that it is. A fault in the
/// query, or that no form gives a pair, is the answer only then.
pub proof fn law_forms_are_tried_in_order(
    two_factor_token: Seq<char>,
    head: Seq<char>,
    tail: Seq<char>,
)
    ensures
        ({
            let raw = trimmed(two_factor_token);
            let read = submission(two_factor_token);
            let barred = raw == head + seq!['|'] + tail && !head.contains('|');
            let blank_side = trimmed(head).len() == 0 || trimmed(tail).len() == 0;
            let object = json_members(encode_utf8(raw));
            let in_object = object is Some && member_pair(object->0) is Some;
            &&& barred && !blank_side ==> read == Ok::<(Seq<char>, Seq<char>), Fault>(
                (trimmed(head), trimmed(tail)),
            )
            &&& !raw.contains('|') || (barred && blank_side) ==> {
                &&& in_object ==> read == Ok::<(Seq<char>, Seq<char>), Fault>(member_pair(object->0)->0)
                &&& !in_object ==> match query_pair(raw) {
                    Ok(Some(pair)) => read == Ok::<(Seq<char>, Seq<char>), Fault>(pair),
                    Ok(None) => read == Err::<(Seq<char>, Seq<char>), Fault>(
                        Fault::BadRequest("Invalid Duo token format"@),
                    ),
                    Err(fault) => read == Err::<(Seq<char>, Seq<char>), Fault>(fault),
                }
            }
        }),
{
    let raw = trimmed(two_factor_token);
    if !raw.contains('|') {
        lemma_split_none(raw, '|');
    }
    if raw == head + seq!['|'] + tail && !head.contains('|') {
        lemma_split_once(head, '|', tail);
        assert(raw[head.len() as int] == '|');
    }
}

} // verus!
