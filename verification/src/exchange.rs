//! The answer from Duo: the code that came back is exchanged for a token, and
//! the token tells who signed in.
use vstd::prelude::*;
use vstd::utf8::*;

use crate::base64url::{base64url, base64url_char, law_base64url_alphabet};
use crate::clock::{
    clock_reading, law_clock_keeps_its_range, random_uuid, utc_timestamp, uuid_v4_text,
};
use crate::config::{
    config_of, duo_api_host, duo_config, law_config_in_use_is_checked, looked_up,
    redirect_uri, redirect_uri_at, ConfigView, DuoConfig, Env,
};
use crate::crypto::{ct_eq, signature, Algorithm};
use crate::error::{bad_request, outcome, AppError, Fault};
use crate::json::{
    as_int, as_text, json_from_slice, json_members, member, or_else, text_of, JsonObject, JsonValue,
    JsonView,
};
use crate::json_text::json_text;
use crate::jwt::{
    dotted, header, jwt_hs512, lemma_signature_is_base64url, signing_input, token_claims, token_text,
    verify_jwt_hs512,
};
use crate::models::{Device, User};
use crate::percent::{field_texts, form_body, form_encode, form_field_reads, law_form_reads_back};
use crate::state::{
    law_state_admits_its_bearer_alone, state_claims, state_issued, state_verdict, verify_state_at,
    DUO_OIDC_EXPIRE_SECONDS,
};
use crate::submission::{law_piped_submission_is_read, parse_duo_two_factor_token, submission};
use crate::text::{lemma_trimmed_is, lowercase, same, split_at, to_lowercase, trimmed};

verus! {

/// How the client proves itself to the token endpoint.
pub const CLIENT_ASSERTION_TYPE: &'static str =
    "urn:ietf:params:oauth:client-assertion-type:jwt-bearer";

/// The address of Duo's token endpoint.
pub open spec fn token_url_at(host: Seq<char>) -> Seq<char> {
    "https://"@ + host + "/oauth/v1/token"@
}

/// What the client says of itself to the token endpoint.
pub open spec fn assertion_claims(config: ConfigView, now: i64, jti: Seq<char>) -> Map<
    Seq<char>,
    JsonView,
> {
    Map::empty().insert("iss"@, JsonView::Text(config.client_id)).insert(
        "sub"@,
        JsonView::Text(config.client_id),
    ).insert("aud"@, JsonView::Text(token_url_at(config.host))).insert(
        "exp"@,
        JsonView::Int((now + DUO_OIDC_EXPIRE_SECONDS) as i64),
    ).insert("iat"@, JsonView::Int(now)).insert("jti"@, JsonView::Text(jti))
}

/// The client's assertion, signed with the client secret.
pub open spec fn assertion_token(config: ConfigView, now: i64, jti: Seq<char>) -> Seq<char> {
    token_text(Algorithm::Hs512, config.client_secret, assertion_claims(config, now, jti))
}

/// The fields of the form that is posted to the token endpoint.
pub open spec fn exchange_fields(
    config: ConfigView,
    code: Seq<char>,
    assertion: Seq<char>,
) -> Seq<(Seq<char>, Seq<char>)> {
    seq![
        ("grant_type"@, "authorization_code"@),
        ("code"@, code),
        ("redirect_uri"@, redirect_uri_at(config.vault_url)),
        ("client_assertion_type"@, CLIENT_ASSERTION_TYPE@),
        ("client_assertion"@, assertion),
        ("client_id"@, config.client_id),
    ]
}

/// A [`PendingAuth`], as characters.
pub struct PendingView {
    pub url: Seq<char>,
    pub body: Seq<char>,
    pub client_id: Seq<char>,
    pub client_secret: Seq<char>,
}

/// The exchange of a code, with the client's assertion.
pub open spec fn exchange_of(
    config: ConfigView,
    code: Seq<char>,
    assertion: Seq<char>,
) -> PendingView {
    PendingView {
        url: token_url_at(config.host),
        body: form_body(exchange_fields(config, code, assertion)),
        client_id: config.client_id,
        client_secret: config.client_secret,
    }
}

/// The exchange that a submission leads to, by the clock when the state was
/// checked and when the assertion was made.
pub open spec fn pending_auth(
    env: Env,
    user: User,
    device: Device,
    two_factor_token: Seq<char>,
    state_now: i64,
    now: i64,
    jti: Seq<char>,
) -> Result<PendingView, Fault> {
    match submission(two_factor_token) {
        Err(fault) => Err(fault),
        Ok((code, state)) => match state_verdict(env, user, device, state, state_now) {
            Err(fault) => Err(fault),
            Ok(_) => match config_of(env) {
                Err(fault) => Err(fault),
                Ok(config) => Ok(exchange_of(config, code, assertion_token(config, now, jti))),
            },
        },
    }
}

/// `pending` is the exchange that a submission leads to, and the assertion in it
/// reads back, under the client secret, as what it says.
pub open spec fn exchange_opened(
    env: Env,
    user: User,
    device: Device,
    two_factor_token: Seq<char>,
    state_now: i64,
    now: i64,
    jti: Seq<char>,
    pending: Result<PendingView, Fault>,
) -> bool {
    &&& pending == pending_auth(env, user, device, two_factor_token, state_now, now, jti)
    &&& pending is Ok ==> {
        let config = config_of(env)->Ok_0;
        token_claims(Algorithm::Hs512, config.client_secret, assertion_token(config, now, jti))
            == Ok::<Map<Seq<char>, JsonView>, Fault>(assertion_claims(config, now, jti))
    }
}

/// The user that an identity token names.
pub open spec fn claimed_user(claims: Map<Seq<char>, JsonView>) -> Option<Seq<char>> {
    as_text(
        or_else(
            or_else(member(claims, "preferred_username"@), member(claims, "email"@)),
            member(claims, "sub"@),
        ),
    )
}

/// Whether an identity token is meant for the client and has not expired. One
/// that says nothing of its end does not expire.
pub open spec fn claims_hold(
    claims: Map<Seq<char>, JsonView>,
    client_id: Seq<char>,
    now: i64,
) -> bool {
    &&& as_text(member(claims, "aud"@)) == Some(client_id)
    &&& as_int(member(claims, "exp"@)) matches Some(exp) ==> now < exp
}

/// Whether an identity token is that of the user with the given address, but
/// for the case of letters. One that names no user is taken for the user's.
pub open spec fn claims_fit(
    claims: Map<Seq<char>, JsonView>,
    client_id: Seq<char>,
    email: Seq<char>,
    now: i64,
) -> bool {
    &&& claims_hold(claims, client_id, now)
    &&& claimed_user(claims) matches Some(name) ==> lowercase(name) == lowercase(email)
}

/// What came of the request to the token endpoint.
#[derive(Debug)]
pub enum TokenReply {
    /// No answer came.
    Failed,
    /// An answer came, with this status. The body is `None` where it could not be read.
    Answered { status: u16, body: Option<String> },
}

/// The identity token in the body of an answer.
pub open spec fn id_token_of(body: Option<Seq<char>>) -> Result<Seq<char>, Fault> {
    match body {
        None => Err(Fault::BadRequest("Invalid Duo token response"@)),
        Some(text) => match json_members(encode_utf8(text)) {
            None => Err(Fault::BadRequest("Invalid Duo token response"@)),
            Some(answer) => match as_text(member(answer, "id_token"@)) {
                None => Err(Fault::BadRequest("Duo response missing id_token"@)),
                Some(token) => Ok(token),
            },
        },
    }
}

/// Whether the exchange proves that the user signed in.
pub open spec fn reply_verdict(
    pending: PendingView,
    email: Seq<char>,
    reply: TokenReply,
    now: i64,
) -> Result<bool, Fault> {
    match reply {
        TokenReply::Failed => Err(Fault::BadRequest("Duo token exchange failed"@)),
        TokenReply::Answered { status, body } => if !(200 <= status < 300) {
            Ok(false)
        } else {
            match id_token_of(looked_up(body)) {
                Err(fault) => Err(fault),
                Ok(token) => match token_claims(Algorithm::Hs512, pending.client_secret, token) {
                    Err(_) => Ok(false),
                    Ok(claims) => Ok(claims_fit(claims, pending.client_id, email, now)),
                },
            }
        },
    }
}

/// What the token endpoint says of a refusal: the error and its description.
pub open spec fn refusal_in(answer: Map<Seq<char>, JsonView>) -> (Seq<char>, Seq<char>) {
    (
        match as_text(member(answer, "error"@)) {
            Some(text) => text,
            None => "<unknown>"@,
        },
        match as_text(member(answer, "error_description"@)) {
            Some(text) => text,
            None => ""@,
        },
    )
}

/// Why an exchange proves no sign-in.
#[derive(Debug)]
pub enum Refusal {
    /// The token endpoint did not grant the exchange; this is what it said.
    NotGranted { status: u16, error: String, description: String },
    /// The identity token is not to be read.
    Token(AppError),
    /// The identity token is meant for another client.
    Audience,
    /// The identity token has expired.
    Expired,
    /// The identity token names another user.
    User,
}

/// A [`Refusal`], with its texts as characters.
pub enum RefusalView {
    NotGranted { status: u16, error: Seq<char>, description: Seq<char> },
    Token(Fault),
    Audience,
    Expired,
    User,
}

impl View for Refusal {
    type V = RefusalView;

    open spec fn view(&self) -> RefusalView {
        match self {
            Refusal::NotGranted { status, error, description } => RefusalView::NotGranted {
                status: *status,
                error: error@,
                description: description@,
            },
            Refusal::Token(error) => RefusalView::Token(error@),
            Refusal::Audience => RefusalView::Audience,
            Refusal::Expired => RefusalView::Expired,
            Refusal::User => RefusalView::User,
        }
    }
}

/// An optional refusal, with its texts as characters.
pub open spec fn refusal_view(refusal: Option<Refusal>) -> Option<RefusalView> {
    match refusal {
        Some(found) => Some(found@),
        None => None,
    }
}

/// A judgement, with its texts as characters.
pub open spec fn judgement_view(judgement: Result<Option<Refusal>, AppError>) -> Result<
    Option<RefusalView>,
    Fault,
> {
    match judgement {
        Ok(refusal) => Ok(refusal_view(refusal)),
        Err(error) => Err(error@),
    }
}

/// What the body of an answer that grants nothing says. One that cannot be read,
/// or is no JSON, says nothing.
pub open spec fn refusal_text(body: Option<Seq<char>>) -> (Seq<char>, Seq<char>) {
    refusal_in(
        match body {
            Some(text) => match json_members(encode_utf8(text)) {
                Some(answer) => answer,
                None => Map::empty(),
            },
            None => Map::empty(),
        },
    )
}

/// Why an identity token is not to be taken, whoever it names: the first reason.
pub open spec fn claims_refusal(
    claims: Map<Seq<char>, JsonView>,
    client_id: Seq<char>,
    now: i64,
) -> Option<RefusalView> {
    if as_text(member(claims, "aud"@)) != Some(client_id) {
        Some(RefusalView::Audience)
    } else if as_int(member(claims, "exp"@)) matches Some(exp) && now >= exp {
        Some(RefusalView::Expired)
    } else {
        None
    }
}

/// Why an identity token is not to be taken for that of the user with the given
/// address: the first reason.
pub open spec fn fit_refusal(
    claims: Map<Seq<char>, JsonView>,
    client_id: Seq<char>,
    email: Seq<char>,
    now: i64,
) -> Option<RefusalView> {
    if claims_refusal(claims, client_id, now) is Some {
        claims_refusal(claims, client_id, now)
    } else if claimed_user(claims) matches Some(name) && lowercase(name) != lowercase(email) {
        Some(RefusalView::User)
    } else {
        None
    }
}

/// Why an exchange proves no sign-in, if it does not.
pub open spec fn reply_judgement(
    pending: PendingView,
    email: Seq<char>,
    reply: TokenReply,
    now: i64,
) -> Result<Option<RefusalView>, Fault> {
    match reply {
        TokenReply::Failed => Err(Fault::BadRequest("Duo token exchange failed"@)),
        TokenReply::Answered { status, body } => if !(200 <= status < 300) {
            let (error, description) = refusal_text(looked_up(body));
            Ok(Some(RefusalView::NotGranted { status, error, description }))
        } else {
            match id_token_of(looked_up(body)) {
                Err(fault) => Err(fault),
                Ok(token) => match token_claims(Algorithm::Hs512, pending.client_secret, token) {
                    Err(fault) => Ok(Some(RefusalView::Token(fault))),
                    Ok(claims) => Ok(fit_refusal(claims, pending.client_id, email, now)),
                },
            }
        },
    }
}

/// An exchange that waits for its answer.
pub struct PendingAuth {
    /// The address to post to.
    pub url: String,
    /// The form to post.
    pub body: String,
    /// The client that the identity token has to be meant for.
    pub client_id: String,
    /// The secret that the identity token has to be signed with.
    pub client_secret: String,
}

impl View for PendingAuth {
    type V = PendingView;

    open spec fn view(&self) -> PendingView {
        PendingView {
            url: self.url@,
            body: self.body@,
            client_id: self.client_id@,
            client_secret: self.client_secret@,
        }
    }
}

/// The address of Duo's token endpoint.
fn token_url(host: &str) -> (url: String)
    ensures
        url@ == token_url_at(host@),
{
    let mut url = "https://".to_string();
    url.append(host);
    url.append("/oauth/v1/token");
    url
}

/// Signs the client's assertion.
fn sign_assertion(config: &DuoConfig, now: i64, jti: &str) -> (assertion: Result<String, AppError>)
    requires
        now + DUO_OIDC_EXPIRE_SECONDS <= i64::MAX,
    ensures
        outcome(assertion) == Ok::<Seq<char>, Fault>(assertion_token(config@, now, jti@)),
        token_claims(
            Algorithm::Hs512,
            config@.client_secret,
            assertion_token(config@, now, jti@),
        ) == Ok::<Map<Seq<char>, JsonView>, Fault>(assertion_claims(config@, now, jti@)),
{
    let mut claims = JsonObject::new();
    claims.set("iss", JsonValue::Text(config.client_id.clone()));
    claims.set("sub", JsonValue::Text(config.client_id.clone()));
    claims.set("aud", JsonValue::Text(token_url(config.host.as_str())));
    claims.set("exp", JsonValue::Int(now + DUO_OIDC_EXPIRE_SECONDS));
    claims.set("iat", JsonValue::Int(now));
    claims.set("jti", JsonValue::Text(jti.to_string()));
    assert(claims@ == assertion_claims(config@, now, jti@));
    jwt_hs512(config.client_secret.as_str(), claims)
}

/// Writes the exchange of a code, with the client's assertion.
pub fn build_exchange(config: &DuoConfig, code: &str, assertion: &str) -> (pending: Result<
    PendingAuth,
    AppError,
>)
    ensures
        outcome(pending) == Ok::<PendingView, Fault>(exchange_of(config@, code@, assertion@)),
{
    let redirect = redirect_uri(config.vault_url.as_str());
    let fields: Vec<(&str, &str)> = vec![
        ("grant_type", "authorization_code"),
        ("code", code),
        ("redirect_uri", redirect.as_str()),
        ("client_assertion_type", CLIENT_ASSERTION_TYPE),
        ("client_assertion", assertion),
        ("client_id", config.client_id.as_str()),
    ];
    assert(field_texts(fields@) =~= exchange_fields(config@, code@, assertion@));
    match form_encode(&fields) {
        Ok(body) => Ok(
            PendingAuth {
                url: token_url(config.host.as_str()),
                body,
                client_id: config.client_id.clone(),
                client_secret: config.client_secret.clone(),
            },
        ),
        Err(_) => Err(AppError::Internal),
    }
}

/// Checks a submission and opens the exchange that it leads to, at given times,
/// under a given identifier.
pub fn begin_auth_response_at(
    env: &Env,
    user: &User,
    device: &Device,
    two_factor_token: &str,
    state_now: i64,
    now: i64,
    jti: &str,
) -> (pending: Result<PendingAuth, AppError>)
    requires
        now + DUO_OIDC_EXPIRE_SECONDS <= i64::MAX,
    ensures
        outcome(pending) == pending_auth(
            *env,
            *user,
            *device,
            two_factor_token@,
            state_now,
            now,
            jti@,
        ),
        exchange_opened(
            *env,
            *user,
            *device,
            two_factor_token@,
            state_now,
            now,
            jti@,
            outcome(pending),
        ),
{
    let (code, state) = parse_duo_two_factor_token(two_factor_token)?;
    verify_state_at(env, user, device, state.as_str(), state_now)?;
    let config = duo_config(env)?;
    let assertion = sign_assertion(&config, now, jti)?;
    build_exchange(&config, code.as_str(), assertion.as_str())
}

/// Checks a submission and opens the exchange that it leads to, now.
pub fn begin_auth_response(
    env: &Env,
    user: &User,
    device: &Device,
    two_factor_token: &str,
) -> (pending: Result<PendingAuth, AppError>)
    ensures
        exists|state_now: i64, now: i64, jti: Seq<char>|
            clock_reading(state_now) && clock_reading(now) && uuid_v4_text(jti)
                && #[trigger] exchange_opened(
                *env,
                *user,
                *device,
                two_factor_token@,
                state_now,
                now,
                jti,
                outcome(pending),
            ),
{
    let state_now: i64 = utc_timestamp();
    let now: i64 = utc_timestamp();
    let jti = random_uuid();
    proof {
        law_clock_keeps_its_range(now);
    }
    begin_auth_response_at(env, user, device, two_factor_token, state_now, now, jti.as_str())
}

/// The user that an identity token names.
pub fn named_user(claims: &JsonObject) -> (name: Option<&str>)
    ensures
        match name {
            Some(text) => claimed_user(claims@) == Some(text@),
            None => claimed_user(claims@) is None,
        },
{
    match claims.get("preferred_username") {
        Some(value) => text_of(Some(value)),
        None => match claims.get("email") {
            Some(value) => text_of(Some(value)),
            None => text_of(claims.get("sub")),
        },
    }
}

/// Checks whether an identity token is meant for the client and has not expired.
pub fn check_id_claims(claims: &JsonObject, client_id: &str, now: i64) -> (refusal: Option<Refusal>)
    ensures
        refusal_view(refusal) == claims_refusal(claims@, client_id@, now),
        refusal is None <==> claims_hold(claims@, client_id@, now),
{
    let meant = match claims.get_text("aud") {
        Some(audience) => same(audience, client_id),
        None => false,
    };
    if !meant {
        return Some(Refusal::Audience);
    }
    match claims.get_int("exp") {
        Some(exp) if now >= exp => Some(Refusal::Expired),
        _ => None,
    }
}

/// Checks whether an identity token is that of the user with the given address.
pub fn judge_id_claims(claims: &JsonObject, client_id: &str, email: &str, now: i64) -> (refusal: Option<
    Refusal,
>)
    ensures
        refusal_view(refusal) == fit_refusal(claims@, client_id@, email@, now),
        refusal is None <==> claims_fit(claims@, client_id@, email@, now),
{
    let refusal = check_id_claims(claims, client_id, now);
    if refusal.is_some() {
        return refusal;
    }
    match named_user(claims) {
        Some(name) => if ct_eq(to_lowercase(name).as_str(), to_lowercase(email).as_str()) {
            None
        } else {
            Some(Refusal::User)
        },
        None => None,
    }
}

/// The identity token in an answer of the token endpoint.
pub fn read_id_token(answer: &JsonObject) -> (token: Result<String, AppError>)
    ensures
        outcome(token) == match as_text(member(answer@, "id_token"@)) {
            Some(text) => Ok::<Seq<char>, Fault>(text),
            None => Err(Fault::BadRequest("Duo response missing id_token"@)),
        },
{
    match answer.get_text("id_token") {
        Some(text) => Ok(text.to_string()),
        None => Err(bad_request("Duo response missing id_token")),
    }
}

/// The identity token in the body of an answer.
fn id_token(body: &Option<String>) -> (token: Result<String, AppError>)
    ensures
        outcome(token) == id_token_of(looked_up(*body)),
{
    match body {
        Some(text) => match json_from_slice(text.as_str().as_bytes()) {
            Ok(answer) => read_id_token(&answer),
            Err(_) => Err(bad_request("Invalid Duo token response")),
        },
        None => Err(bad_request("Invalid Duo token response")),
    }
}

/// What the token endpoint says of a refusal.
pub fn read_refusal(answer: &JsonObject) -> (refusal: (String, String))
    ensures
        refusal@ == refusal_in(answer@),
{
    let error = match answer.get_text("error") {
        Some(text) => text.to_string(),
        None => "<unknown>".to_string(),
    };
    let description = match answer.get_text("error_description") {
        Some(text) => text.to_string(),
        None => "".to_string(),
    };
    (error, description)
}

/// What the body of an answer that grants nothing says.
pub fn describe_refusal(body: &Option<String>) -> (refusal: (String, String))
    ensures
        refusal@ == refusal_text(looked_up(*body)),
{
    match body {
        Some(text) => match json_from_slice(text.as_str().as_bytes()) {
            Ok(answer) => read_refusal(&answer),
            Err(_) => read_refusal(&JsonObject::new()),
        },
        None => read_refusal(&JsonObject::new()),
    }
}

/// Judges what came of an exchange, at a given time: why it proves no sign-in of
/// the user, if it does not.
pub fn judge_auth_response_at(pending: &PendingAuth, user: &User, reply: &TokenReply, now: i64) -> (
judgement: Result<Option<Refusal>, AppError>)
    ensures
        judgement_view(judgement) == reply_judgement(pending@, user.email@, *reply, now),
{
    match reply {
        TokenReply::Failed => Err(bad_request("Duo token exchange failed")),
        TokenReply::Answered { status, body } => {
            if *status < 200 || *status >= 300 {
                let (error, description) = describe_refusal(body);
                return Ok(Some(Refusal::NotGranted { status: *status, error, description }));
            }
            let token = id_token(body)?;
            match verify_jwt_hs512(pending.client_secret.as_str(), token.as_str()) {
                Ok(claims) => Ok(
                    judge_id_claims(&claims, pending.client_id.as_str(), user.email.as_str(), now),
                ),
                Err(error) => Ok(Some(Refusal::Token(error))),
            }
        },
    }
}

/// Judges what came of an exchange, now: why it proves no sign-in of the user,
/// if it does not.
pub fn judge_auth_response(pending: &PendingAuth, user: &User, reply: &TokenReply) -> (judgement:
    Result<Option<Refusal>, AppError>)
    ensures
        exists|now: i64|
            clock_reading(now) && judgement_view(judgement) == #[trigger] reply_judgement(
                pending@,
                user.email@,
                *reply,
                now,
            ),
{
    let now: i64 = utc_timestamp();
    judge_auth_response_at(pending, user, reply, now)
}

/// Judges what came of an exchange, at a given time: whether it proves that the
/// user signed in.
pub fn verify_auth_response_at(pending: &PendingAuth, user: &User, reply: &TokenReply, now: i64) -> (
verdict: Result<bool, AppError>)
    ensures
        outcome(verdict) == reply_verdict(pending@, user.email@, *reply, now),
{
    let refusal = judge_auth_response_at(pending, user, reply, now)?;
    Ok(refusal.is_none())
}

/// Judges what came of an exchange, now: whether it proves that the user signed in.
pub fn verify_auth_response(pending: &PendingAuth, user: &User, reply: &TokenReply) -> (verdict:
    Result<bool, AppError>)
    ensures
        exists|now: i64|
            clock_reading(now) && outcome(verdict) == #[trigger] reply_verdict(
                pending@,
                user.email@,
                *reply,
                now,
            ),
{
    let now: i64 = utc_timestamp();
    verify_auth_response_at(pending, user, reply, now)
}

/// An exchange is judged to prove no sign-in where a reason is found, and nowhere else.
pub proof fn law_refused_reply_has_a_reason(
    pending: PendingView,
    email: Seq<char>,
    reply: TokenReply,
    now: i64,
)
    ensures
        reply_verdict(pending, email, reply, now) == match reply_judgement(pending, email, reply, now) {
            Ok(refusal) => Ok::<bool, Fault>(refusal is None),
            Err(fault) => Err(fault),
        },
{
}

/// Whether the endpoint granted the exchange and the identity token in its answer
/// is signed with the client secret, is meant for the client, has not expired
/// and names no other user.
pub open spec fn reply_proves(
    pending: PendingView,
    email: Seq<char>,
    reply: TokenReply,
    now: i64,
) -> bool {
    reply matches TokenReply::Answered { status, body } && {
        let token = id_token_of(looked_up(body))->Ok_0;
        let claims = token_claims(Algorithm::Hs512, pending.client_secret, token)->Ok_0;
        &&& 200 <= status < 300
        &&& id_token_of(looked_up(body)) is Ok
        &&& token_claims(Algorithm::Hs512, pending.client_secret, token) is Ok
        &&& as_text(member(claims, "aud"@)) == Some(pending.client_id)
        &&& as_int(member(claims, "exp"@)) matches Some(exp) ==> now < exp
        &&& claimed_user(claims) matches Some(name) ==> lowercase(name) == lowercase(email)
    }
}

/// An answer is taken for a sign-in where it proves one, and nowhere else.
pub proof fn law_accepted_reply_is_proven(
    pending: PendingView,
    email: Seq<char>,
    reply: TokenReply,
    now: i64,
)
    ensures
        reply_verdict(pending, email, reply, now) == Ok::<bool, Fault>(true) <==> reply_proves(
            pending,
            email,
            reply,
            now,
        ),
{
}

/// A submission that cannot be read, a state that is refused and a configuration
/// that is faulty open no exchange: the first of these faults is the answer.
pub proof fn law_refusal_is_the_answer(
    env: Env,
    user: User,
    device: Device,
    two_factor_token: Seq<char>,
    state_now: i64,
    now: i64,
    jti: Seq<char>,
)
    ensures
        ({
            let pending = pending_auth(env, user, device, two_factor_token, state_now, now, jti);
            match submission(two_factor_token) {
                Err(fault) => pending == Err::<PendingView, Fault>(fault),
                Ok((_, state)) => match state_verdict(env, user, device, state, state_now) {
                    Err(fault) => pending == Err::<PendingView, Fault>(fault),
                    Ok(_) => config_of(env) matches Err(fault) ==> pending == Err::<
                        PendingView,
                        Fault,
                    >(fault),
                },
            }
        }),
{
}

/// An exchange is opened only for a state that is accepted from the user and
/// the device, and the code goes to a host of Duo's.
pub proof fn law_exchange_is_with_duo(
    env: Env,
    user: User,
    device: Device,
    two_factor_token: Seq<char>,
    state_now: i64,
    now: i64,
    jti: Seq<char>,
)
    requires
        pending_auth(env, user, device, two_factor_token, state_now, now, jti) is Ok,
    ensures
        submission(two_factor_token) is Ok,
        state_verdict(env, user, device, submission(two_factor_token)->Ok_0.1, state_now) is Ok,
        exists|host: Seq<char>|
            duo_api_host(host) && pending_auth(
                env,
                user,
                device,
                two_factor_token,
                state_now,
                now,
                jti,
            )->Ok_0.url == #[trigger] token_url_at(host),
{
    law_config_in_use_is_checked(env);
    let host = config_of(env)->Ok_0.host;
    assert(duo_api_host(host));
    assert(token_url_at(host) == token_url_at(host));
}

/// A state that was issued to a user and a device, and comes back from them
/// with a code before it expires, opens the exchange of that code.
pub proof fn law_issued_state_opens_exchange(
    env: Env,
    user: User,
    device: Device,
    issued: i64,
    jti: Seq<char>,
    state: Seq<char>,
    code: Seq<char>,
    state_now: i64,
    now: i64,
    assertion_jti: Seq<char>,
)
    requires
        issued + DUO_OIDC_EXPIRE_SECONDS <= i64::MAX,
        state_issued(env, user, device, issued, jti, Ok(state)),
        state_now < issued + DUO_OIDC_EXPIRE_SECONDS,
        !code.contains('|'),
        trimmed(code).len() > 0,
        config_of(env) is Ok,
    ensures
        pending_auth(
            env,
            user,
            device,
            code + seq!['|'] + state,
            state_now,
            now,
            assertion_jti,
        ) == Ok::<PendingView, Fault>(
            exchange_of(
                config_of(env)->Ok_0,
                trimmed(code),
                assertion_token(config_of(env)->Ok_0, now, assertion_jti),
            ),
        ),
{
    let secret = crate::config::state_secret_of(env)->Ok_0;
    lemma_token_is_solid(Algorithm::Hs256, secret, state_claims(user, device, issued, jti));
    law_piped_submission_is_read(code, state);
    law_state_admits_its_bearer_alone(user, device, issued, jti, user, device, state_now);
    assert(state_verdict(env, user, device, state, state_now) is Ok);
}

/// A token has no white space around it.
proof fn lemma_token_is_solid(
    algorithm: Algorithm,
    secret: Seq<char>,
    payload: Map<Seq<char>, JsonView>,
)
    ensures
        token_text(algorithm, secret, payload).len() > 0,
        trimmed(token_text(algorithm, secret, payload)) == token_text(algorithm, secret, payload),
{
    let token = token_text(algorithm, secret, payload);
    let input = signing_input(algorithm, payload);
    let head = base64url(json_text(header(algorithm)));
    let tail = signature(algorithm, secret, input);
    let tag = lemma_signature_is_base64url(algorithm, secret, input);
    law_base64url_alphabet(json_text(header(algorithm)));
    law_base64url_alphabet(tag);
    assert(token =~= head + seq!['.'] + dotted(base64url(json_text(payload)), tail));
    if head.len() > 0 {
        assert(token[0] == head[0] && base64url_char(head[0]));
    } else {
        assert(token[0] == '.');
    }
    if tail.len() > 0 {
        assert(token.last() == tail.last() && base64url_char(tail[tail.len() - 1]));
    } else {
        assert(token =~= input + seq!['.']);
        assert(token.last() == '.');
    }
    lemma_trimmed_is(token, 0, token.len() as int);
    assert(token.subrange(0, token.len() as int) =~= token);
}

/// The form that is posted has six fields, which read back as the kind of grant, the
/// code as it is, the way back to the vault, how the client proves itself, the
/// client's assertion and the client's id; and it goes to the token endpoint of the
/// configured host. The answer is judged by the configured client and secret.
pub proof fn law_exchange_posts_the_code(
    config: ConfigView,
    code: Seq<char>,
    assertion: Seq<char>,
)
    ensures
        ({
            let pending = exchange_of(config, code, assertion);
            let fields = split_at(pending.body, '&');
            &&& fields.len() == 6
            &&& form_field_reads(fields[0], "grant_type"@, "authorization_code"@)
            &&& form_field_reads(fields[1], "code"@, code)
            &&& form_field_reads(
                fields[2],
                "redirect_uri"@,
                config.vault_url + "/duo-redirect.html?client=web"@,
            )
            &&& form_field_reads(
                fields[3],
                "client_assertion_type"@,
                "urn:ietf:params:oauth:client-assertion-type:jwt-bearer"@,
            )
            &&& form_field_reads(fields[4], "client_assertion"@, assertion)
            &&& form_field_reads(fields[5], "client_id"@, config.client_id)
            &&& pending.url == "https://"@ + config.host + "/oauth/v1/token"@
            &&& pending.client_id == config.client_id
            &&& pending.client_secret == config.client_secret
        }),
{
    let fields = exchange_fields(config, code, assertion);
    law_form_reads_back(fields);
    let parts = split_at(form_body(fields), '&');
    assert(form_field_reads(parts[0], fields[0].0, fields[0].1));
    assert(form_field_reads(parts[1], fields[1].0, fields[1].1));
    assert(form_field_reads(parts[2], fields[2].0, fields[2].1));
    assert(form_field_reads(parts[3], fields[3].0, fields[3].1));
    assert(form_field_reads(parts[4], fields[4].0, fields[4].1));
    assert(form_field_reads(parts[5], fields[5].0, fields[5].1));
}

/// Whether an assertion says, to one who holds the client secret, that the client
/// speaks of itself to the token endpoint from `now` on for three hundred seconds,
/// under the given identifier, and nothing else.
pub open spec fn assertion_says(
    assertion: Seq<char>,
    config: ConfigView,
    now: i64,
    jti: Seq<char>,
) -> bool {
    &&& token_claims(Algorithm::Hs512, config.client_secret, assertion) matches Ok(claims)
    &&& as_text(member(claims, "iss"@)) == Some(config.client_id)
    &&& as_text(member(claims, "sub"@)) == Some(config.client_id)
    &&& as_text(member(claims, "aud"@)) == Some("https://"@ + config.host + "/oauth/v1/token"@)
    &&& as_int(member(claims, "exp"@)) matches Some(exp) && exp == now + 300
    &&& as_int(member(claims, "iat"@)) == Some(now)
    &&& as_text(member(claims, "jti"@)) == Some(jti)
    &&& forall|key: Seq<char>| #[trigger]
        member(claims, key) is Some ==> key == "iss"@ || key == "sub"@ || key == "aud"@ || key == "exp"@
            || key == "iat"@ || key == "jti"@
}

/// An exchange that is opened posts the code that was submitted, with an assertion of
/// the configured client made at `now`, to the token endpoint of the configured host.
pub proof fn law_opened_exchange_posts_the_submitted_code(
    env: Env,
    user: User,
    device: Device,
    two_factor_token: Seq<char>,
    state_now: i64,
    now: i64,
    jti: Seq<char>,
    pending: PendingView,
)
    requires
        now + 300 <= i64::MAX,
        exchange_opened(env, user, device, two_factor_token, state_now, now, jti, Ok(pending)),
    ensures
        submission(two_factor_token) is Ok,
        state_verdict(env, user, device, submission(two_factor_token)->Ok_0.1, state_now) is Ok,
        config_of(env) is Ok,
        exists|assertion: Seq<char>|
            form_field_reads(split_at(pending.body, '&')[4], "client_assertion"@, assertion)
                && #[trigger] assertion_says(assertion, config_of(env)->Ok_0, now, jti),
        ({
            let config = config_of(env)->Ok_0;
            let fields = split_at(pending.body, '&');
            &&& fields.len() == 6
            &&& form_field_reads(fields[0], "grant_type"@, "authorization_code"@)
            &&& form_field_reads(fields[1], "code"@, submission(two_factor_token)->Ok_0.0)
            &&& form_field_reads(
                fields[2],
                "redirect_uri"@,
                config.vault_url + "/duo-redirect.html?client=web"@,
            )
            &&& form_field_reads(
                fields[3],
                "client_assertion_type"@,
                "urn:ietf:params:oauth:client-assertion-type:jwt-bearer"@,
            )
            &&& form_field_reads(fields[5], "client_id"@, config.client_id)
            &&& pending.url == "https://"@ + config.host + "/oauth/v1/token"@
            &&& pending.client_id == config.client_id
            &&& pending.client_secret == config.client_secret
        }),
{
    let config = config_of(env)->Ok_0;
    let assertion = assertion_token(config, now, jti);
    law_exchange_posts_the_code(config, submission(two_factor_token)->Ok_0.0, assertion);
    law_assertion_claims_are_its_inputs(config, now, jti);
    assert(assertion_says(assertion, config, now, jti));
}

/// Each claim of an assertion is one of the values that it is made of, as it is, and
/// there is no other claim.
pub proof fn law_assertion_claims_are_its_inputs(config: ConfigView, now: i64, jti: Seq<char>)
    requires
        now + 300 <= i64::MAX,
    ensures
        ({
            let claims = assertion_claims(config, now, jti);
            &&& member(claims, "iss"@) == Some(JsonView::Text(config.client_id))
            &&& member(claims, "sub"@) == Some(JsonView::Text(config.client_id))
            &&& member(claims, "aud"@) == Some(
                JsonView::Text("https://"@ + config.host + "/oauth/v1/token"@),
            )
            &&& member(claims, "exp"@) == Some(JsonView::Int((now + 300) as i64))
            &&& member(claims, "iat"@) == Some(JsonView::Int(now))
            &&& member(claims, "jti"@) == Some(JsonView::Text(jti))
            &&& forall|key: Seq<char>| #[trigger]
                member(claims, key) is Some ==> key == "iss"@ || key == "sub"@ || key == "aud"@ || key
                    == "exp"@ || key == "iat"@ || key == "jti"@
        }),
{
    lemma_assertion_names();
}

/// An exchange is opened exactly where the submission is read, its state is accepted
/// and the configuration is in order.
pub proof fn law_exchange_is_opened_exactly(
    env: Env,
    user: User,
    device: Device,
    two_factor_token: Seq<char>,
    state_now: i64,
    now: i64,
    jti: Seq<char>,
)
    ensures
        pending_auth(env, user, device, two_factor_token, state_now, now, jti) is Ok <==> {
            &&& submission(two_factor_token) matches Ok((_, state))
            &&& state_verdict(env, user, device, state, state_now) is Ok
            &&& config_of(env) is Ok
        },
{
}

/// The names in an assertion differ.
proof fn lemma_assertion_names()
    ensures
        "iss"@ != "sub"@,
        "iss"@ != "aud"@,
        "iss"@ != "exp"@,
        "iss"@ != "iat"@,
        "iss"@ != "jti"@,
        "sub"@ != "aud"@,
        "sub"@ != "exp"@,
        "sub"@ != "iat"@,
        "sub"@ != "jti"@,
        "aud"@ != "exp"@,
        "aud"@ != "iat"@,
        "aud"@ != "jti"@,
        "exp"@ != "iat"@,
        "exp"@ != "jti"@,
        "iat"@ != "jti"@,
{
    reveal_strlit("iss");
    reveal_strlit("sub");
    reveal_strlit("aud");
    reveal_strlit("exp");
    reveal_strlit("iat");
    reveal_strlit("jti");
    assert("iss"@[0] == 'i' && "iat"@[0] == 'i' && "iss"@[1] != "iat"@[1]);
    assert("sub"@[0] == 's' && "aud"@[0] == 'a' && "exp"@[0] == 'e' && "jti"@[0] == 'j');
}

/// The user that an identity token names is the text of its member
/// `preferred_username`; where it has no such member, that of `email`; where it has
/// neither, that of `sub`. A member that is there and is no text names nobody.
pub proof fn law_user_is_named_by_the_first_member(claims: Map<Seq<char>, JsonView>)
    ensures
        ({
            let named = if claims.contains_key("preferred_username"@) {
                Some(claims["preferred_username"@])
            } else if claims.contains_key("email"@) {
                Some(claims["email"@])
            } else if claims.contains_key("sub"@) {
                Some(claims["sub"@])
            } else {
                None
            };
            claimed_user(claims) == match named {
                Some(JsonView::Text(name)) => Some(name),
                _ => None,
            }
        }),
{
}

/// An identity token that the configured client gets in a granted answer, signed with
/// the client secret and meant for the client, proves a sign-in before its end, if
/// it names the user or nobody, and no more from its end on; and at no time if it is
/// meant for another client or names another user.
pub proof fn law_sign_in_is_judged_by_the_clock(
    pending: PendingView,
    email: Seq<char>,
    status: u16,
    body: String,
    now: i64,
    answer: Map<Seq<char>, JsonView>,
    token: Seq<char>,
    claims: Map<Seq<char>, JsonView>,
)
    requires
        200 <= status < 300,
        json_members(encode_utf8(body@)) == Some(answer),
        answer.contains_key("id_token"@),
        answer["id_token"@] == JsonView::Text(token),
        token_claims(Algorithm::Hs512, pending.client_secret, token) == Ok::<
            Map<Seq<char>, JsonView>,
            Fault,
        >(claims),
    ensures
        ({
            let verdict = reply_verdict(
                pending,
                email,
                TokenReply::Answered { status, body: Some(body) },
                now,
            );
            let meant = claims.contains_key("aud"@) && claims["aud"@] == JsonView::Text(
                pending.client_id,
            );
            let ended = claims.contains_key("exp"@) && claims["exp"@] is Int && claims["exp"@]->Int_0
                <= now;
            let another = claimed_user(claims) is Some && lowercase(claimed_user(claims)->0)
                != lowercase(email);
            verdict == Ok::<bool, Fault>(meant && !ended && !another)
        }),
{
}

/// Every other answer, and none, is judged thus: no answer is a fault; one that grants
/// nothing proves nothing, whatever its body is; a granted one without a body that is
/// JSON, or without an identity token in it, is a fault; and one whose identity token
/// does not read under the client secret proves nothing.
pub proof fn law_other_replies_prove_nothing(
    pending: PendingView,
    email: Seq<char>,
    status: u16,
    body: Option<String>,
    now: i64,
)
    ensures
        reply_verdict(pending, email, TokenReply::Failed, now) == Err::<bool, Fault>(
            Fault::BadRequest("Duo token exchange failed"@),
        ),
        ({
            let verdict = reply_verdict(
                pending,
                email,
                TokenReply::Answered { status, body },
                now,
            );
            let answer = match body {
                Some(text) => json_members(encode_utf8(text@)),
                None => None,
            };
            let token = match answer {
                Some(members) => as_text(member(members, "id_token"@)),
                None => None,
            };
            let granted = 200 <= status < 300;
            &&& !granted ==> verdict == Ok::<bool, Fault>(false)
            &&& granted && answer is None ==> verdict == Err::<bool, Fault>(
                Fault::BadRequest("Invalid Duo token response"@),
            )
            &&& granted && answer is Some && token is None ==> verdict == Err::<bool, Fault>(
                Fault::BadRequest("Duo response missing id_token"@),
            )
            &&& granted && token is Some && token_claims(
                Algorithm::Hs512,
                pending.client_secret,
                token->0,
            ) is Err ==> verdict == Ok::<bool, Fault>(false)
        }),
{
}

/// A refusal gives the first reason there is: that the exchange was not granted, with
/// the status and what the answer says; that the identity token does not read, with
/// why; that it is meant for another client; that its end is past; that it names
/// another user.
pub proof fn law_refusal_gives_the_first_reason(
    pending: PendingView,
    email: Seq<char>,
    status: u16,
    body: Option<String>,
    now: i64,
)
    ensures
        ({
            let judgement = reply_judgement(
                pending,
                email,
                TokenReply::Answered { status, body },
                now,
            );
            let answer = match body {
                Some(text) => json_members(encode_utf8(text@)),
                None => None,
            };
            let granted = 200 <= status < 300;
            let said = |name: Seq<char>, otherwise: Seq<char>|
                match answer {
                    Some(members) => match as_text(member(members, name)) {
                        Some(text) => text,
                        None => otherwise,
                    },
                    None => otherwise,
                };
            &&& !granted ==> judgement == Ok::<Option<RefusalView>, Fault>(
                Some(
                    RefusalView::NotGranted {
                        status,
                        error: said("error"@, "<unknown>"@),
                        description: said("error_description"@, ""@),
                    },
                ),
            )
            &&& granted && answer is Some ==> (as_text(member(answer->0, "id_token"@)) matches Some(token)
                ==> match token_claims(Algorithm::Hs512, pending.client_secret, token) {
                Err(fault) => judgement == Ok::<Option<RefusalView>, Fault>(
                    Some(RefusalView::Token(fault)),
                ),
                Ok(claims) => {
                    let meant = as_text(member(claims, "aud"@)) == Some(pending.client_id);
                    let end = as_int(member(claims, "exp"@));
                    let ended = end is Some && end->0 <= now;
                    let another = claimed_user(claims) is Some && lowercase(claimed_user(claims)->0)
                        != lowercase(email);
                    judgement == Ok::<Option<RefusalView>, Fault>(
                        if !meant {
                            Some(RefusalView::Audience)
                        } else if ended {
                            Some(RefusalView::Expired)
                        } else if another {
                            Some(RefusalView::User)
                        } else {
                            None
                        },
                    )
                },
            })
        }),
{
}

/// An exchange that waits for its answer is seen field by field.
pub proof fn law_pending_is_seen_as_it_is(pending: PendingAuth)
    ensures
        pending@.url == pending.url@,
        pending@.body == pending.body@,
        pending@.client_id == pending.client_id@,
        pending@.client_secret == pending.client_secret@,
{
}

/// A refusal is seen as what it is.
pub proof fn law_refusal_is_seen_as_it_is(
    status: u16,
    error: String,
    description: String,
    fault: AppError,
)
    ensures
        (Refusal::NotGranted { status, error, description })@ == (RefusalView::NotGranted {
            status,
            error: error@,
            description: description@,
        }),
        Refusal::Token(fault)@ == RefusalView::Token(fault@),
        Refusal::Audience@ == RefusalView::Audience,
        Refusal::Expired@ == RefusalView::Expired,
        Refusal::User@ == RefusalView::User,
{
}

} // verus!
