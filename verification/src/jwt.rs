//! Signed tokens: a header and a payload, both JSON in base64, and the
//! signature of the two, joined by dots.
use vstd::prelude::*;
use vstd::utf8::*;

use crate::base64url::{
    b64url_bytes, b64url_decode, base64url, base64url_decoded, law_base64url_alphabet,
    law_base64url_decoding_inverts_encoding,
};
use crate::crypto::{
    ct_eq, hmac_sha256, hmac_sha512, law_signature_has_its_length, law_signature_is_hmac, sign_hs256, sign_hs512, signature, signature_length, Algorithm,
};
use crate::error::{bad_request, outcome, AppError, Fault};
use crate::json::{
    json_from_slice, json_members, json_to_vec, writable, JsonObject, JsonValue, JsonView,
};
use crate::json_text::{
    ascending, escaped, json_text, law_object_has_one_text, members_text, object_text,
    precedes, quoted, value_text,
};
use crate::text::{
    joined, law_joining_undoes_splitting, lemma_split_none, lemma_split_once, lemma_split_once_joins,
    split, split_at, split_once_at,
};

verus! {

/// How a header names the algorithm.
pub open spec fn algorithm_name(algorithm: Algorithm) -> Seq<char> {
    match algorithm {
        Algorithm::Hs256 => "HS256"@,
        Algorithm::Hs512 => "HS512"@,
    }
}

/// The header of a token.
pub open spec fn header(algorithm: Algorithm) -> Map<Seq<char>, JsonView> {
    Map::empty().insert("typ"@, JsonView::Text("JWT"@)).insert(
        "alg"@,
        JsonView::Text(algorithm_name(algorithm)),
    )
}

/// Two texts joined by a dot.
pub open spec fn dotted(a: Seq<char>, b: Seq<char>) -> Seq<char> {
    a + seq!['.'] + b
}

/// What is signed: the header and the payload.
pub open spec fn signing_input(
    algorithm: Algorithm,
    payload: Map<Seq<char>, JsonView>,
) -> Seq<char> {
    dotted(base64url(json_text(header(algorithm))), base64url(json_text(payload)))
}

/// The token that carries `payload`, signed with `secret`.
pub open spec fn token_text(
    algorithm: Algorithm,
    secret: Seq<char>,
    payload: Map<Seq<char>, JsonView>,
) -> Seq<char> {
    let input = signing_input(algorithm, payload);
    dotted(input, signature(algorithm, secret, input))
}

/// The bytes of a payload, given the signature that the token has to bear.
pub open spec fn payload_bytes(
    payload: Seq<char>,
    borne: Seq<char>,
    expected: Seq<char>,
) -> Result<Seq<u8>, Fault> {
    if borne != expected {
        Err(Fault::BadRequest("Invalid JWT signature"@))
    } else {
        match base64url_decoded(payload) {
            Some(bytes) => Ok(bytes),
            None => Err(Fault::BadRequest("Invalid JWT payload"@)),
        }
    }
}

/// What a token says to one who holds `secret`.
pub open spec fn token_claims(
    algorithm: Algorithm,
    secret: Seq<char>,
    token: Seq<char>,
) -> Result<Map<Seq<char>, JsonView>, Fault> {
    let parts = split_at(token, '.');
    if parts.len() != 3 {
        Err(Fault::BadRequest("Invalid JWT format"@))
    } else {
        match payload_bytes(
            parts[1],
            parts[2],
            signature(algorithm, secret, dotted(parts[0], parts[1])),
        ) {
            Err(fault) => Err(fault),
            Ok(bytes) => match json_members(bytes) {
                Some(claims) => Ok(claims),
                None => Err(Fault::BadRequest("Invalid JWT payload json"@)),
            },
        }
    }
}

/// The parts of a token.
#[derive(Debug)]
pub struct TokenParts {
    /// The header and the payload, as they were signed.
    pub signing_input: String,
    /// The payload, in base64.
    pub payload: String,
    /// The signature that the token bears.
    pub signature: String,
}

/// Joins two texts by a dot.
fn join(a: &str, b: &str) -> (joined: String)
    ensures
        joined@ == dotted(a@, b@),
{
    let mut joined = a.to_string();
    joined.append(".");
    joined.append(b);
    proof {
        reveal_strlit(".");
        assert("."@ =~= seq!['.']);
    }
    joined
}

/// Writes an object as JSON, in base64.
pub fn b64url_json(value: &JsonObject) -> (encoded: Result<String, AppError>)
    requires
        writable(value@),
    ensures
        outcome(encoded) == Ok::<Seq<char>, Fault>(base64url(json_text(value@))),
        json_members(json_text(value@)) == Some(value@),
{
    match json_to_vec(value) {
        Ok(bytes) => Ok(b64url_bytes(bytes.as_slice())),
        Err(_) => Err(AppError::Internal),
    }
}

/// The header of a token, by the name of its algorithm.
fn token_header(name: &str) -> (object: JsonObject)
    ensures
        object@ == Map::<Seq<char>, JsonView>::empty().insert("typ"@, JsonView::Text("JWT"@)).insert(
            "alg"@,
            JsonView::Text(name@),
        ),
        writable(object@),
{
    let mut object = JsonObject::new();
    object.set("typ", JsonValue::Text("JWT".to_string()));
    object.set("alg", JsonValue::Text(name.to_string()));
    object
}

/// Writes a token signed with HMAC and SHA-512. Whoever holds the secret reads
/// the payload back from it.
pub fn jwt_hs512(secret: &str, payload: JsonObject) -> (token: Result<String, AppError>)
    requires
        writable(payload@),
    ensures
        outcome(token) == Ok::<Seq<char>, Fault>(token_text(Algorithm::Hs512, secret@, payload@)),
        token_claims(
            Algorithm::Hs512,
            secret@,
            token_text(Algorithm::Hs512, secret@, payload@),
        ) == Ok::<Map<Seq<char>, JsonView>, Fault>(payload@),
        token is Ok,
        split_at(token->Ok_0@, '.').len() == 3,
        split_at(token->Ok_0@, '.')[2].len() == 86,
{
    let encoded_header = b64url_json(&token_header("HS512"))?;
    let encoded_payload = b64url_json(&payload)?;
    let signing_input = join(encoded_header.as_str(), encoded_payload.as_str());
    let signature = sign_hs512(secret, signing_input.as_str())?;
    proof {
        lemma_token_reads_back(Algorithm::Hs512, secret@, payload@);
        lemma_token_splits(Algorithm::Hs512, secret@, payload@);
    }
    Ok(join(signing_input.as_str(), signature.as_str()))
}

/// Writes a token signed with HMAC and SHA-256. Whoever holds the secret reads
/// the payload back from it.
pub fn jwt_hs256(secret: &str, payload: JsonObject) -> (token: Result<String, AppError>)
    requires
        writable(payload@),
    ensures
        outcome(token) == Ok::<Seq<char>, Fault>(token_text(Algorithm::Hs256, secret@, payload@)),
        token_claims(
            Algorithm::Hs256,
            secret@,
            token_text(Algorithm::Hs256, secret@, payload@),
        ) == Ok::<Map<Seq<char>, JsonView>, Fault>(payload@),
        token is Ok,
        split_at(token->Ok_0@, '.').len() == 3,
        split_at(token->Ok_0@, '.')[2].len() == 43,
{
    let encoded_header = b64url_json(&token_header("HS256"))?;
    let encoded_payload = b64url_json(&payload)?;
    let signing_input = join(encoded_header.as_str(), encoded_payload.as_str());
    let signature = sign_hs256(secret, signing_input.as_str())?;
    proof {
        lemma_token_reads_back(Algorithm::Hs256, secret@, payload@);
        lemma_token_splits(Algorithm::Hs256, secret@, payload@);
    }
    Ok(join(signing_input.as_str(), signature.as_str()))
}

/// Takes a token apart.
pub fn split_token(token: &str) -> (parts: Result<TokenParts, AppError>)
    ensures
        match parts {
            Ok(found) => {
                &&& split_at(token@, '.').len() == 3
                &&& found.signing_input@ == dotted(split_at(token@, '.')[0], split_at(token@, '.')[1])
                &&& found.payload@ == split_at(token@, '.')[1]
                &&& found.signature@ == split_at(token@, '.')[2]
            },
            Err(error) => {
                &&& split_at(token@, '.').len() != 3
                &&& error@ == Fault::BadRequest("Invalid JWT format"@)
            },
        },
{
    let parts = split(token, '.');
    let ghost texts = split_at(token@, '.');
    if parts.len() != 3 {
        return Err(bad_request("Invalid JWT format"));
    }
    assert(texts[0] == parts@[0]@ && texts[1] == parts@[1]@ && texts[2] == parts@[2]@);
    Ok(
        TokenParts {
            signing_input: join(parts[0], parts[1]),
            payload: parts[1].to_string(),
            signature: parts[2].to_string(),
        },
    )
}

/// The bytes of a token's payload, once the signature that it bears is the expected one.
pub fn open_payload(parts: &TokenParts, expected: &str) -> (bytes: Result<Vec<u8>, AppError>)
    ensures
        outcome(bytes) == payload_bytes(parts.payload@, parts.signature@, expected@),
{
    if !ct_eq(parts.signature.as_str(), expected) {
        return Err(bad_request("Invalid JWT signature"));
    }
    match b64url_decode(parts.payload.as_str()) {
        Ok(decoded) => {
            proof {
                law_base64url_decoding_inverts_encoding(decoded@);
            }
            Ok(decoded)
        },
        Err(_) => Err(bad_request("Invalid JWT payload")),
    }
}

/// The claims of a token, given the signature that it has to bear.
fn read_claims(parts: &TokenParts, expected: &str) -> (claims: Result<JsonObject, AppError>)
    ensures
        outcome(claims) == match payload_bytes(parts.payload@, parts.signature@, expected@) {
            Err(fault) => Err::<Map<Seq<char>, JsonView>, Fault>(fault),
            Ok(bytes) => match json_members(bytes) {
                Some(found) => Ok(found),
                None => Err(Fault::BadRequest("Invalid JWT payload json"@)),
            },
        },
{
    let payload = open_payload(parts, expected)?;
    match json_from_slice(payload.as_slice()) {
        Ok(claims) => Ok(claims),
        Err(_) => Err(bad_request("Invalid JWT payload json")),
    }
}

/// Reads a token that HMAC and SHA-512 have to have signed.
pub fn verify_jwt_hs512(secret: &str, token: &str) -> (claims: Result<JsonObject, AppError>)
    ensures
        outcome(claims) == token_claims(Algorithm::Hs512, secret@, token@),
        claims is Ok ==> split_at(token@, '.').len() == 3 && split_at(token@, '.')[2].len() == 86,
        split_at(token@, '.').len() == 3 && split_at(token@, '.')[2].len() != 86 ==> outcome(claims)
            == Err::<Map<Seq<char>, JsonView>, Fault>(Fault::BadRequest("Invalid JWT signature"@)),
{
    proof {
        if split_at(token@, '.').len() == 3 && split_at(token@, '.')[2].len() != 86 {
            law_ill_sized_signature_is_refused(Algorithm::Hs512, secret@, token@);
        }
    }
    let parts = split_token(token)?;
    let expected_sig = sign_hs512(secret, parts.signing_input.as_str())?;
    read_claims(&parts, expected_sig.as_str())
}

/// Reads a token that HMAC and SHA-256 have to have signed.
pub fn verify_jwt_hs256(secret: &str, token: &str) -> (claims: Result<JsonObject, AppError>)
    ensures
        outcome(claims) == token_claims(Algorithm::Hs256, secret@, token@),
        claims is Ok ==> split_at(token@, '.').len() == 3 && split_at(token@, '.')[2].len() == 43,
        split_at(token@, '.').len() == 3 && split_at(token@, '.')[2].len() != 43 ==> outcome(claims)
            == Err::<Map<Seq<char>, JsonView>, Fault>(Fault::BadRequest("Invalid JWT signature"@)),
{
    proof {
        if split_at(token@, '.').len() == 3 && split_at(token@, '.')[2].len() != 43 {
            law_ill_sized_signature_is_refused(Algorithm::Hs256, secret@, token@);
        }
    }
    let parts = split_token(token)?;
    let expected_sig = sign_hs256(secret, parts.signing_input.as_str())?;
    read_claims(&parts, expected_sig.as_str())
}

/// Base64 holds none of the characters that tokens and submissions are split at.
pub(crate) proof fn lemma_base64url_lacks(bytes: Seq<u8>, c: char)
    requires
        c == '.' || c == '|' || c == '&' || c == '=',
    ensures
        !base64url(bytes).contains(c),
{
    law_base64url_alphabet(bytes);
    if base64url(bytes).contains(c) {
        let i = choose|i: int| 0 <= i < base64url(bytes).len() && base64url(bytes)[i] == c;
        assert(crate::base64url::base64url_char(base64url(bytes)[i]));
    }
}

/// A signature is base64.
pub(crate) proof fn lemma_signature_is_base64url(
    algorithm: Algorithm,
    secret: Seq<char>,
    message: Seq<char>,
) -> (bytes: Seq<u8>)
    ensures
        signature(algorithm, secret, message) == base64url(bytes),
{
    let key = vstd::utf8::encode_utf8(secret);
    let text = vstd::utf8::encode_utf8(message);
    match algorithm {
        Algorithm::Hs256 => crate::crypto::hmac_sha256(key, text)@,
        Algorithm::Hs512 => crate::crypto::hmac_sha512(key, text)@,
    }
}

/// Three texts without dots, joined by dots, split into the three.
proof fn lemma_dotted_splits(a: Seq<char>, b: Seq<char>, c: Seq<char>)
    requires
        !a.contains('.'),
        !b.contains('.'),
        !c.contains('.'),
    ensures
        split_at(dotted(dotted(a, b), c), '.') == seq![a, b, c],
{
    assert(dotted(dotted(a, b), c) =~= a + seq!['.'] + dotted(b, c));
    lemma_split_once(a, '.', dotted(b, c));
    lemma_split_once(b, '.', c);
    lemma_split_none(c, '.');
    assert(split_at(dotted(b, c), '.') =~= seq![b, c]);
    assert(split_at(dotted(dotted(a, b), c), '.') =~= seq![a, b, c]);
}

/// A token splits into its header, its payload and its signature.
proof fn lemma_token_splits(
    algorithm: Algorithm,
    secret: Seq<char>,
    payload: Map<Seq<char>, JsonView>,
)
    ensures
        split_at(token_text(algorithm, secret, payload), '.') == seq![
            base64url(json_text(header(algorithm))),
            base64url(json_text(payload)),
            signature(algorithm, secret, signing_input(algorithm, payload)),
        ],
        signature(algorithm, secret, signing_input(algorithm, payload)).len() == signature_length(
            algorithm,
        ),
{
    let head = json_text(header(algorithm));
    let body = json_text(payload);
    let input = signing_input(algorithm, payload);
    let tag = lemma_signature_is_base64url(algorithm, secret, input);
    lemma_base64url_lacks(head, '.');
    lemma_base64url_lacks(body, '.');
    lemma_base64url_lacks(tag, '.');
    lemma_dotted_splits(base64url(head), base64url(body), base64url(tag));
    law_signature_has_its_length(algorithm, secret, input);
}

/// What was signed reads back.
proof fn lemma_token_reads_back(
    algorithm: Algorithm,
    secret: Seq<char>,
    payload: Map<Seq<char>, JsonView>,
)
    requires
        json_members(json_text(payload)) == Some(payload),
    ensures
        token_claims(algorithm, secret, token_text(algorithm, secret, payload)) == Ok::<
            Map<Seq<char>, JsonView>,
            Fault,
        >(payload),
{
    lemma_token_splits(algorithm, secret, payload);
    law_base64url_decoding_inverts_encoding(json_text(payload));
}

/// A token that is read bears the signature of what stands before it: nothing
/// that was not signed with the secret is ever taken for a claim.
pub proof fn law_token_read_is_signed(algorithm: Algorithm, secret: Seq<char>, token: Seq<char>)
    requires
        token_claims(algorithm, secret, token) is Ok,
    ensures
        exists|input: Seq<char>|
            token == #[trigger] dotted(input, signature(algorithm, secret, input)),
{
    let parts = split_at(token, '.');
    lemma_split_once_joins(token, '.');
    let (first, rest) = split_once_at(token, '.')->0;
    assert(parts == seq![first] + split_at(rest, '.'));
    lemma_split_once_joins(rest, '.');
    if split_once_at(rest, '.') is None {
        lemma_split_none(rest, '.');
    }
    let (second, third) = split_once_at(rest, '.')->0;
    assert(split_at(rest, '.') == seq![second] + split_at(third, '.'));
    lemma_split_once_joins(third, '.');
    assert(parts =~= seq![first, second] + split_at(third, '.'));
    if let Some((head, tail)) = split_once_at(third, '.') {
        lemma_split_not_empty(tail, '.');
        assert(parts.len() > 3);
    }
    assert(parts[0] == first && parts[1] == second && parts[2] == third);
    assert(token =~= dotted(dotted(first, second), third));
}

/// A token whose signature is longer or shorter than the algorithm makes them is
/// refused, one without any signature among them, whatever its payload is.
pub proof fn law_ill_sized_signature_is_refused(
    algorithm: Algorithm,
    secret: Seq<char>,
    token: Seq<char>,
)
    requires
        split_at(token, '.').len() == 3,
        split_at(token, '.')[2].len() != signature_length(algorithm),
    ensures
        token_claims(algorithm, secret, token) == Err::<Map<Seq<char>, JsonView>, Fault>(
            Fault::BadRequest("Invalid JWT signature"@),
        ),
{
    let parts = split_at(token, '.');
    law_signature_has_its_length(algorithm, secret, dotted(parts[0], parts[1]));
}

/// A token of one algorithm is refused under the other, whatever it says and
/// whatever the two secrets are.
pub proof fn law_algorithms_do_not_mix(
    signed: Algorithm,
    secret: Seq<char>,
    payload: Map<Seq<char>, JsonView>,
    expected: Algorithm,
    other: Seq<char>,
)
    requires
        signed != expected,
    ensures
        token_claims(expected, other, token_text(signed, secret, payload)) == Err::<
            Map<Seq<char>, JsonView>,
            Fault,
        >(Fault::BadRequest("Invalid JWT signature"@)),
{
    lemma_token_splits(signed, secret, payload);
    law_ill_sized_signature_is_refused(expected, other, token_text(signed, secret, payload));
}

/// A split text has at least one part.
proof fn lemma_split_not_empty(s: Seq<char>, sep: char)
    ensures
        split_at(s, sep).len() >= 1,
{
}

/// The keyed hash that an algorithm stands for.
pub open spec fn keyed_hash(algorithm: Algorithm, key: Seq<u8>, message: Seq<u8>) -> Seq<u8> {
    match algorithm {
        Algorithm::Hs256 => hmac_sha256(key, message)@,
        Algorithm::Hs512 => hmac_sha512(key, message)@,
    }
}

/// A token is three texts without dots, joined by dots: the base64 of a header that
/// names the algorithm, the base64 of the payload's JSON, and the base64 of the
/// keyed hash of the first two with the dot between them.
pub proof fn law_token_is_made_of_its_parts(
    algorithm: Algorithm,
    secret: Seq<char>,
    payload: Map<Seq<char>, JsonView>,
)
    ensures
        ({
            let parts = split_at(token_text(algorithm, secret, payload), '.');
            &&& parts.len() == 3
            &&& base64url_decoded(parts[0]) == Some(
                encode_utf8(
                    match algorithm {
                        Algorithm::Hs256 => "{\"alg\":\"HS256\",\"typ\":\"JWT\"}"@,
                        Algorithm::Hs512 => "{\"alg\":\"HS512\",\"typ\":\"JWT\"}"@,
                    },
                ),
            )
            &&& base64url_decoded(parts[1]) == Some(json_text(payload))
            &&& base64url_decoded(parts[2]) == Some(
                keyed_hash(
                    algorithm,
                    encode_utf8(secret),
                    encode_utf8(parts[0] + seq!['.'] + parts[1]),
                ),
            )
        }),
{
    lemma_token_splits(algorithm, secret, payload);
    lemma_header_text(algorithm);
    law_base64url_decoding_inverts_encoding(json_text(header(algorithm)));
    law_base64url_decoding_inverts_encoding(json_text(payload));
    law_signature_is_hmac(secret, signing_input(algorithm, payload));
}

/// The header of a token, letter by letter.
proof fn lemma_header_text(algorithm: Algorithm)
    ensures
        object_text(header(algorithm)) == match algorithm {
            Algorithm::Hs256 => "{\"alg\":\"HS256\",\"typ\":\"JWT\"}"@,
            Algorithm::Hs512 => "{\"alg\":\"HS512\",\"typ\":\"JWT\"}"@,
        },
{
    let object = header(algorithm);
    let keys = seq!["alg"@, "typ"@];
    let name = algorithm_name(algorithm);
    reveal_strlit("alg");
    reveal_strlit("typ");
    reveal_strlit("JWT");
    reveal_strlit("HS256");
    reveal_strlit("HS512");
    reveal_strlit("{\"alg\":\"HS256\",\"typ\":\"JWT\"}");
    reveal_strlit("{\"alg\":\"HS512\",\"typ\":\"JWT\"}");
    assert("alg"@[0] == 'a' && "typ"@[0] == 't');
    assert(keys[0] == "alg"@ && keys[1] == "typ"@);
    assert forall|key: Seq<char>| #[trigger] keys.contains(key) <==> object.contains_key(key) by {
        if object.contains_key(key) {
            assert(key == keys[0] || key == keys[1]);
        }
    }
    assert(precedes(keys[0], keys[1]));
    assert(ascending(keys));
    law_object_has_one_text(object, keys);
    lemma_plain_is_escaped("alg"@);
    lemma_plain_is_escaped("typ"@);
    lemma_plain_is_escaped("JWT"@);
    lemma_plain_is_escaped(name);
    assert(keys.drop_last() =~= seq!["alg"@]);
    assert(members_text(object, seq!["alg"@]) == quoted("alg"@) + seq![':'] + value_text(
        object["alg"@],
    ));
    assert(members_text(object, keys) == members_text(object, seq!["alg"@]) + seq![','] + (quoted(
        "typ"@,
    ) + seq![':'] + value_text(object["typ"@])));
    assert(object_text(object) =~= match algorithm {
        Algorithm::Hs256 => "{\"alg\":\"HS256\",\"typ\":\"JWT\"}"@,
        Algorithm::Hs512 => "{\"alg\":\"HS512\",\"typ\":\"JWT\"}"@,
    });
}

/// Letters and digits stand for themselves in JSON.
proof fn lemma_plain_is_escaped(text: Seq<char>)
    requires
        forall|i: int| 0 <= i < text.len() ==> '0' <= #[trigger] text[i] <= 'z' && text[i] != '\\',
    ensures
        escaped(text) == text,
    decreases text.len(),
{
    if text.len() > 0 {
        lemma_plain_is_escaped(text.drop_first());
        assert(escaped(text) =~= seq![text[0]] + text.drop_first());
        assert(escaped(text) =~= text);
    } else {
        assert(escaped(text) =~= text);
    }
}

/// A token of three parts is read as what its payload says, if its third part is
/// the base64 of the keyed hash of the first two with a dot between them; else it
/// is refused for its signature. A payload that is no base64, or no JSON, is
/// refused for that, but only under a good signature.
pub proof fn law_token_is_read_by_its_parts(
    algorithm: Algorithm,
    secret: Seq<char>,
    head: Seq<char>,
    payload: Seq<char>,
    tag: Seq<char>,
)
    requires
        !head.contains('.'),
        !payload.contains('.'),
        !tag.contains('.'),
    ensures
        ({
            let claims = token_claims(
                algorithm,
                secret,
                head + seq!['.'] + payload + seq!['.'] + tag,
            );
            let hash = keyed_hash(
                algorithm,
                encode_utf8(secret),
                encode_utf8(head + seq!['.'] + payload),
            );
            if base64url_decoded(tag) != Some(hash) {
                claims == Err::<Map<Seq<char>, JsonView>, Fault>(
                    Fault::BadRequest("Invalid JWT signature"@),
                )
            } else if base64url_decoded(payload) is None {
                claims == Err::<Map<Seq<char>, JsonView>, Fault>(
                    Fault::BadRequest("Invalid JWT payload"@),
                )
            } else if json_members(base64url_decoded(payload)->0) is None {
                claims == Err::<Map<Seq<char>, JsonView>, Fault>(
                    Fault::BadRequest("Invalid JWT payload json"@),
                )
            } else {
                claims == Ok::<Map<Seq<char>, JsonView>, Fault>(
                    json_members(base64url_decoded(payload)->0)->0,
                )
            }
        }),
{
    let token = head + seq!['.'] + payload + seq!['.'] + tag;
    let input = head + seq!['.'] + payload;
    let hash = keyed_hash(algorithm, encode_utf8(secret), encode_utf8(input));
    lemma_dotted_splits(head, payload, tag);
    assert(token =~= dotted(dotted(head, payload), tag));
    law_signature_is_hmac(secret, input);
    law_base64url_decoding_inverts_encoding(hash);
    assert(signature(algorithm, secret, dotted(head, payload)) == base64url(hash));
    if base64url_decoded(tag) == Some(hash) {
        assert(base64url(hash) == tag);
    }
}

/// A text that is not three parts joined by dots is no token.
pub proof fn law_other_shapes_are_no_tokens(
    algorithm: Algorithm,
    secret: Seq<char>,
    token: Seq<char>,
)
    requires
        forall|head: Seq<char>, payload: Seq<char>, tag: Seq<char>|
            #![trigger dotted(dotted(head, payload), tag)]
            token == head + seq!['.'] + payload + seq!['.'] + tag ==> head.contains('.')
                || payload.contains('.') || tag.contains('.'),
    ensures
        token_claims(algorithm, secret, token) == Err::<Map<Seq<char>, JsonView>, Fault>(
            Fault::BadRequest("Invalid JWT format"@),
        ),
{
    let parts = split_at(token, '.');
    law_joining_undoes_splitting(token, '.');
    if parts.len() == 3 {
        let rest = parts.drop_first();
        assert(joined(rest.drop_first(), '.') == parts[2]);
        assert(joined(rest, '.') == parts[1] + seq!['.'] + parts[2]);
        assert(token =~= dotted(dotted(parts[0], parts[1]), parts[2]));
        assert(token == parts[0] + seq!['.'] + parts[1] + seq!['.'] + parts[2]);
    }
}

} // verus!
