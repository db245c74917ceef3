//! The redirect to Duo.
use vstd::prelude::*;

use crate::clock::{
    clock_reading, law_clock_keeps_its_range, random_uuid, utc_timestamp, uuid_v4_text,
};
use crate::config::{
    config_of, duo_config, redirect_uri, redirect_uri_at, ConfigView, DuoConfig, Env,
};
use crate::crypto::Algorithm;
use crate::error::{outcome, AppError, Fault};
use crate::json::{as_int, as_text, member, JsonObject, JsonValue, JsonView};
use crate::jwt::{jwt_hs512, token_claims, token_text};
use crate::models::{Device, User};
use crate::percent::{
    law_url_decoding_inverts_encoding, lemma_unreserved_stands_for_itself, url_decoded, url_encode,
    url_encoded,
};
use crate::state::{generate_state_at, state_issued, state_token, DUO_OIDC_EXPIRE_SECONDS};
use crate::submission::{lemma_query_field, query_name};
use crate::text::{lemma_split_none, lemma_split_once, split_at, split_once_at};

verus! {

/// What a request to Duo says.
pub open spec fn request_claims(
    config: ConfigView,
    state: Seq<char>,
    email: Seq<char>,
    now: i64,
) -> Map<Seq<char>, JsonView> {
    Map::empty().insert("response_type"@, JsonView::Text("code"@)).insert(
        "scope"@,
        JsonView::Text("openid"@),
    ).insert("exp"@, JsonView::Int((now + DUO_OIDC_EXPIRE_SECONDS) as i64)).insert(
        "client_id"@,
        JsonView::Text(config.client_id),
    ).insert("redirect_uri"@, JsonView::Text(redirect_uri_at(config.vault_url))).insert(
        "state"@,
        JsonView::Text(state),
    ).insert("duo_uname"@, JsonView::Text(email)).insert(
        "aud"@,
        JsonView::Text("https://"@ + config.host),
    ).insert("iss"@, JsonView::Text(config.client_id)).insert(
        "use_duo_code_attribute"@,
        JsonView::Bool(false),
    )
}

/// The request to Duo, signed with the client secret.
pub open spec fn request_token(
    config: ConfigView,
    state: Seq<char>,
    email: Seq<char>,
    now: i64,
) -> Seq<char> {
    token_text(Algorithm::Hs512, config.client_secret, request_claims(config, state, email, now))
}

/// The parameters of Duo's authorize page.
pub open spec fn authorize_query(
    config: ConfigView,
    state: Seq<char>,
    request: Seq<char>,
) -> Seq<char> {
    "response_type=code&client_id="@ + url_encoded(config.client_id) + "&redirect_uri="@
        + url_encoded(redirect_uri_at(config.vault_url)) + "&scope=openid&state="@ + url_encoded(
        state,
    ) + "&request="@ + url_encoded(request)
}

/// The address of Duo's authorize page.
pub open spec fn authorize_url(
    config: ConfigView,
    state: Seq<char>,
    request: Seq<char>,
) -> Seq<char> {
    "https://"@ + config.host + "/oauth/v1/authorize?"@ + authorize_query(config, state, request)
}

/// The address of the page of the web vault that leads the browser to Duo.
pub open spec fn redirect_url(
    config: ConfigView,
    state: Seq<char>,
    request: Seq<char>,
) -> Seq<char> {
    config.vault_url + "/duo-redirect.html?duoFramelessUrl="@ + url_encoded(
        authorize_url(config, state, request),
    )
}

/// The redirect for a user and a device, by the clock when the state and when
/// the request were made.
pub open spec fn auth_url(
    env: Env,
    user: User,
    device: Device,
    state_now: i64,
    jti: Seq<char>,
    now: i64,
) -> Result<Seq<char>, Fault> {
    match config_of(env) {
        Err(fault) => Err(fault),
        Ok(config) => match state_token(env, user, device, state_now, jti) {
            Err(fault) => Err(fault),
            Ok(state) => Ok(
                redirect_url(config, state, request_token(config, state, user.email@, now)),
            ),
        },
    }
}

/// `url` is the redirect for a user and a device. The state in it was issued to
/// them, and the request in it reads back, under the client secret, as what it says.
pub open spec fn auth_url_issued(
    env: Env,
    user: User,
    device: Device,
    state_now: i64,
    jti: Seq<char>,
    now: i64,
    url: Result<Seq<char>, Fault>,
) -> bool {
    &&& url == auth_url(env, user, device, state_now, jti, now)
    &&& url is Ok ==> {
        let config = config_of(env)->Ok_0;
        let state = state_token(env, user, device, state_now, jti)->Ok_0;
        &&& state_issued(env, user, device, state_now, jti, Ok(state))
        &&& token_claims(
            Algorithm::Hs512,
            config.client_secret,
            request_token(config, state, user.email@, now),
        ) == Ok::<Map<Seq<char>, JsonView>, Fault>(request_claims(config, state, user.email@, now))
    }
}

/// Writes the redirect that carries a state and a request.
pub fn build_redirect(config: &DuoConfig, state: &str, request: &str) -> (url: String)
    ensures
        url@ == redirect_url(config@, state@, request@),
{
    let redirect = redirect_uri(config.vault_url.as_str());
    let mut query = "response_type=code&client_id=".to_string();
    query.append(url_encode(config.client_id.as_str()).as_str());
    query.append("&redirect_uri=");
    query.append(url_encode(redirect.as_str()).as_str());
    query.append("&scope=openid&state=");
    query.append(url_encode(state).as_str());
    query.append("&request=");
    query.append(url_encode(request).as_str());
    let mut authorize = "https://".to_string();
    authorize.append(config.host.as_str());
    authorize.append("/oauth/v1/authorize?");
    authorize.append(query.as_str());
    let mut url = config.vault_url.clone();
    url.append("/duo-redirect.html?duoFramelessUrl=");
    url.append(url_encode(authorize.as_str()).as_str());
    url
}

/// Signs the request to Duo.
fn sign_request(config: &DuoConfig, state: &str, email: &str, now: i64) -> (request: Result<
    String,
    AppError,
>)
    requires
        now + DUO_OIDC_EXPIRE_SECONDS <= i64::MAX,
    ensures
        outcome(request) == Ok::<Seq<char>, Fault>(request_token(config@, state@, email@, now)),
        token_claims(
            Algorithm::Hs512,
            config@.client_secret,
            request_token(config@, state@, email@, now),
        ) == Ok::<Map<Seq<char>, JsonView>, Fault>(request_claims(config@, state@, email@, now)),
{
    let mut audience = "https://".to_string();
    audience.append(config.host.as_str());
    let mut claims = JsonObject::new();
    claims.set("response_type", JsonValue::Text("code".to_string()));
    claims.set("scope", JsonValue::Text("openid".to_string()));
    claims.set("exp", JsonValue::Int(now + DUO_OIDC_EXPIRE_SECONDS));
    claims.set("client_id", JsonValue::Text(config.client_id.clone()));
    claims.set("redirect_uri", JsonValue::Text(redirect_uri(config.vault_url.as_str())));
    claims.set("state", JsonValue::Text(state.to_string()));
    claims.set("duo_uname", JsonValue::Text(email.to_string()));
    claims.set("aud", JsonValue::Text(audience));
    claims.set("iss", JsonValue::Text(config.client_id.clone()));
    claims.set("use_duo_code_attribute", JsonValue::Bool(false));
    assert(claims@ == request_claims(config@, state@, email@, now));
    jwt_hs512(config.client_secret.as_str(), claims)
}

/// The redirect for a user and a device at given times, under a given identifier.
pub fn generate_auth_url_at(
    env: &Env,
    user: &User,
    device: &Device,
    state_now: i64,
    jti: &str,
    now: i64,
) -> (url: Result<String, AppError>)
    requires
        state_now + DUO_OIDC_EXPIRE_SECONDS <= i64::MAX,
        now + DUO_OIDC_EXPIRE_SECONDS <= i64::MAX,
    ensures
        outcome(url) == auth_url(*env, *user, *device, state_now, jti@, now),
        auth_url_issued(*env, *user, *device, state_now, jti@, now, outcome(url)),
{
    let config = duo_config(env)?;
    let state = generate_state_at(env, user, device, state_now, jti)?;
    let request = sign_request(&config, state.as_str(), user.email.as_str(), now)?;
    Ok(build_redirect(&config, state.as_str(), request.as_str()))
}

/// The redirect for a user and a device: the address of the page of the web
/// vault that leads the browser to Duo.
pub fn generate_auth_url(env: &Env, user: &User, device: &Device) -> (url: Result<String, AppError>)
    ensures
        exists|state_now: i64, jti: Seq<char>, now: i64|
            clock_reading(state_now) && uuid_v4_text(jti) && clock_reading(now)
                && #[trigger] auth_url_issued(
                *env,
                *user,
                *device,
                state_now,
                jti,
                now,
                outcome(url),
            ),
{
    let state_now: i64 = utc_timestamp();
    let jti = random_uuid();
    let now: i64 = utc_timestamp();
    proof {
        law_clock_keeps_its_range(state_now);
        law_clock_keeps_its_range(now);
    }
    generate_auth_url_at(env, user, device, state_now, jti.as_str(), now)
}

/// A faulty configuration leads to no redirect, whoever asks and whenever: its
/// fault is the answer.
pub proof fn law_faulty_config_yields_no_redirect(
    env: Env,
    user: User,
    device: Device,
    state_now: i64,
    jti: Seq<char>,
    now: i64,
)
    requires
        config_of(env) is Err,
    ensures
        auth_url(env, user, device, state_now, jti, now) == Err::<Seq<char>, Fault>(
            config_of(env)->Err_0,
        ),
{
}

/// Whether a field of a query reads as the given name and value.
pub open spec fn field_reads(field: Seq<char>, name: Seq<char>, value: Seq<char>) -> bool {
    split_once_at(field, '=') matches Some((key, coded)) && key == name && url_decoded(coded) == Some(
        value,
    )
}

/// The page of the web vault reads, from its parameter, the address of Duo's page.
pub proof fn law_redirect_carries_authorize_url(
    config: ConfigView,
    state: Seq<char>,
    request: Seq<char>,
)
    ensures
        exists|parameter: Seq<char>|
            redirect_url(config, state, request) == config.vault_url
                + "/duo-redirect.html?duoFramelessUrl="@ + parameter && #[trigger] url_decoded(parameter)
                == Some(authorize_url(config, state, request)),
{
    let target = authorize_url(config, state, request);
    law_url_decoding_inverts_encoding(target);
    assert(url_decoded(url_encoded(target)) == Some(target));
}

/// Duo's page reads, from its parameters, the client, the way back, the state
/// and the request that were put in.
pub proof fn law_authorize_query_carries_its_parameters(
    config: ConfigView,
    state: Seq<char>,
    request: Seq<char>,
)
    ensures
        ({
            let fields = split_at(authorize_query(config, state, request), '&');
            &&& fields.len() == 6
            &&& field_reads(fields[0], "response_type"@, "code"@)
            &&& field_reads(fields[1], "client_id"@, config.client_id)
            &&& field_reads(fields[2], "redirect_uri"@, redirect_uri_at(config.vault_url))
            &&& field_reads(fields[3], "scope"@, "openid"@)
            &&& field_reads(fields[4], "state"@, state)
            &&& field_reads(fields[5], "request"@, request)
        }),
{
    let query = authorize_query(config, state, request);
    let f0 = field_text("response_type"@, "code"@);
    let f1 = field_text("client_id"@, config.client_id);
    let f2 = field_text("redirect_uri"@, redirect_uri_at(config.vault_url));
    let f3 = field_text("scope"@, "openid"@);
    let f4 = field_text("state"@, state);
    let f5 = field_text("request"@, request);
    lemma_parameter_names();
    lemma_query_field("response_type"@, "code"@);
    lemma_query_field("client_id"@, config.client_id);
    lemma_query_field("redirect_uri"@, redirect_uri_at(config.vault_url));
    lemma_query_field("scope"@, "openid"@);
    lemma_query_field("state"@, state);
    lemma_query_field("request"@, request);
    lemma_authorize_query_fields(config, state, request);
    lemma_six_fields_split(f0, f1, f2, f3, f4, f5);
    assert(split_at(query, '&') == seq![f0, f1, f2, f3, f4, f5]);
}

/// Six fields without a separator, joined, split into the six.
proof fn lemma_six_fields_split(
    f0: Seq<char>,
    f1: Seq<char>,
    f2: Seq<char>,
    f3: Seq<char>,
    f4: Seq<char>,
    f5: Seq<char>,
)
    requires
        !f0.contains('&'),
        !f1.contains('&'),
        !f2.contains('&'),
        !f3.contains('&'),
        !f4.contains('&'),
        !f5.contains('&'),
    ensures
        split_at(
            f0 + seq!['&'] + (f1 + seq!['&'] + (f2 + seq!['&'] + (f3 + seq!['&'] + (f4 + seq!['&']
                + f5)))),
            '&',
        ) == seq![f0, f1, f2, f3, f4, f5],
{
    let r4 = f4 + seq!['&'] + f5;
    let r3 = f3 + seq!['&'] + r4;
    let r2 = f2 + seq!['&'] + r3;
    let r1 = f1 + seq!['&'] + r2;
    lemma_split_none(f5, '&');
    lemma_split_once(f4, '&', f5);
    assert(split_at(r4, '&') =~= seq![f4, f5]);
    lemma_split_once(f3, '&', r4);
    assert(split_at(r3, '&') =~= seq![f3, f4, f5]);
    lemma_split_once(f2, '&', r3);
    assert(split_at(r2, '&') =~= seq![f2, f3, f4, f5]);
    lemma_split_once(f1, '&', r2);
    assert(split_at(r1, '&') =~= seq![f1, f2, f3, f4, f5]);
    lemma_split_once(f0, '&', r1);
    assert(split_at(f0 + seq!['&'] + r1, '&') =~= seq![f0, f1, f2, f3, f4, f5]);
}

/// A field of a query.
spec fn field_text(name: Seq<char>, value: Seq<char>) -> Seq<char> {
    name + seq!['='] + url_encoded(value)
}

/// The parameters of Duo's page are six fields.
proof fn lemma_authorize_query_fields(config: ConfigView, state: Seq<char>, request: Seq<char>)
    ensures
        authorize_query(config, state, request) == field_text("response_type"@, "code"@) + seq!['&']
            + (field_text("client_id"@, config.client_id) + seq!['&'] + (field_text(
            "redirect_uri"@,
            redirect_uri_at(config.vault_url),
        ) + seq!['&'] + (field_text("scope"@, "openid"@) + seq!['&'] + (field_text("state"@, state)
            + seq!['&'] + field_text("request"@, request))))),
{
    reveal_strlit("response_type=code&client_id=");
    reveal_strlit("&redirect_uri=");
    reveal_strlit("&scope=openid&state=");
    reveal_strlit("&request=");
    reveal_strlit("response_type");
    reveal_strlit("code");
    reveal_strlit("client_id");
    reveal_strlit("redirect_uri");
    reveal_strlit("scope");
    reveal_strlit("openid");
    reveal_strlit("state");
    reveal_strlit("request");
    lemma_unreserved_stands_for_itself("code"@);
    lemma_unreserved_stands_for_itself("openid"@);
    assert("response_type=code&client_id="@ =~= "response_type"@ + seq!['='] + "code"@ + seq!['&']
        + "client_id"@ + seq!['=']);
    assert("&redirect_uri="@ =~= seq!['&'] + "redirect_uri"@ + seq!['=']);
    assert("&scope=openid&state="@ =~= seq!['&'] + "scope"@ + seq!['='] + "openid"@ + seq!['&']
        + "state"@ + seq!['=']);
    assert("&request="@ =~= seq!['&'] + "request"@ + seq!['=']);
    assert(authorize_query(config, state, request) =~= field_text("response_type"@, "code"@)
        + seq!['&'] + (field_text("client_id"@, config.client_id) + seq!['&'] + (field_text(
        "redirect_uri"@,
        redirect_uri_at(config.vault_url),
    ) + seq!['&'] + (field_text("scope"@, "openid"@) + seq!['&'] + (field_text("state"@, state)
        + seq!['&'] + field_text("request"@, request))))));
}

/// The names of the parameters of Duo's page are names of a query's fields.
proof fn lemma_parameter_names()
    ensures
        query_name("response_type"@),
        query_name("client_id"@),
        query_name("redirect_uri"@),
        query_name("scope"@),
        query_name("state"@),
        query_name("request"@),
{
    reveal_strlit("response_type");
    reveal_strlit("client_id");
    reveal_strlit("redirect_uri");
    reveal_strlit("scope");
    reveal_strlit("state");
    reveal_strlit("request");
}

/// Whether `url` is a page of the vault that reads, from its parameter, the address
/// of Duo's authorize page at `host`, with the parameters that Duo asks for: the
/// kind of answer, the client, the way back, the scope, the state and the request,
/// each once and as it is.
pub open spec fn leads_to_duo(
    url: Seq<char>,
    vault_url: Seq<char>,
    host: Seq<char>,
    client_id: Seq<char>,
    state: Seq<char>,
    request: Seq<char>,
) -> bool {
    exists|parameter: Seq<char>, query: Seq<char>|
        {
            let fields = #[trigger] split_at(query, '&');
            &&& url == vault_url + "/duo-redirect.html?duoFramelessUrl="@ + parameter
            &&& #[trigger] url_decoded(parameter) == Some(
                "https://"@ + host + "/oauth/v1/authorize?"@ + query,
            )
            &&& fields.len() == 6
            &&& field_reads(fields[0], "response_type"@, "code"@)
            &&& field_reads(fields[1], "client_id"@, client_id)
            &&& field_reads(
                fields[2],
                "redirect_uri"@,
                vault_url + "/duo-redirect.html?client=web"@,
            )
            &&& field_reads(fields[3], "scope"@, "openid"@)
            &&& field_reads(fields[4], "state"@, state)
            &&& field_reads(fields[5], "request"@, request)
        }
}

/// Whether a request says, to one who holds the client secret, what Duo asks of it,
/// and nothing else: the kind of answer, the scope, an end at `exp`, the client, the
/// way back, the state, the user by address, Duo's host and the client once more.
pub open spec fn request_says(
    request: Seq<char>,
    config: ConfigView,
    state: Seq<char>,
    email: Seq<char>,
    exp: int,
) -> bool {
    &&& token_claims(Algorithm::Hs512, config.client_secret, request) matches Ok(claims)
    &&& as_text(member(claims, "response_type"@)) == Some("code"@)
    &&& as_text(member(claims, "scope"@)) == Some("openid"@)
    &&& as_int(member(claims, "exp"@)) matches Some(end) && end == exp
    &&& as_text(member(claims, "client_id"@)) == Some(config.client_id)
    &&& as_text(member(claims, "redirect_uri"@)) == Some(
        config.vault_url + "/duo-redirect.html?client=web"@,
    )
    &&& as_text(member(claims, "state"@)) == Some(state)
    &&& as_text(member(claims, "duo_uname"@)) == Some(email)
    &&& as_text(member(claims, "aud"@)) == Some("https://"@ + config.host)
    &&& as_text(member(claims, "iss"@)) == Some(config.client_id)
    &&& member(claims, "use_duo_code_attribute"@) == Some(JsonView::Bool(false))
    &&& forall|key: Seq<char>| #[trigger]
        member(claims, key) is Some ==> key == "response_type"@ || key == "scope"@ || key == "exp"@
            || key == "client_id"@ || key == "redirect_uri"@ || key == "state"@ || key == "duo_uname"@
            || key == "aud"@ || key == "iss"@ || key == "use_duo_code_attribute"@
}

/// A redirect is a page of the vault, and its parameter is a page of the configured
/// host, reached over TLS.
pub proof fn law_addresses_are_of_the_vault_and_of_duo(
    config: ConfigView,
    state: Seq<char>,
    request: Seq<char>,
)
    ensures
        authorize_url(config, state, request) == "https://"@ + config.host + "/oauth/v1/authorize?"@
            + authorize_query(config, state, request),
        redirect_url(config, state, request) == config.vault_url
            + "/duo-redirect.html?duoFramelessUrl="@ + url_encoded(authorize_url(config, state, request)),
{
}

/// A redirect that is written for a state and a request leads to the configured host,
/// with the configured client, the state and the request.
pub proof fn law_written_redirect_leads_to_duo(
    config: ConfigView,
    state: Seq<char>,
    request: Seq<char>,
)
    ensures
        leads_to_duo(
            redirect_url(config, state, request),
            config.vault_url,
            config.host,
            config.client_id,
            state,
            request,
        ),
{
    let query = authorize_query(config, state, request);
    let target = "https://"@ + config.host + "/oauth/v1/authorize?"@ + query;
    let parameter = url_encoded(target);
    law_url_decoding_inverts_encoding(target);
    law_authorize_query_carries_its_parameters(config, state, request);
    law_addresses_are_of_the_vault_and_of_duo(config, state, request);
    assert(split_at(query, '&').len() == 6);
    assert(url_decoded(parameter) == Some(target));
}

/// A redirect leads to Duo by way of the vault, with a state that was issued to the
/// user and the device at `state_now`, and with a request that says the same state,
/// the user's address as it is, and an end three hundred seconds after `now`.
pub proof fn law_redirect_leads_to_duo(
    env: Env,
    user: User,
    device: Device,
    state_now: i64,
    jti: Seq<char>,
    now: i64,
    url: Seq<char>,
)
    requires
        now + 300 <= i64::MAX,
        auth_url_issued(env, user, device, state_now, jti, now, Ok(url)),
    ensures
        config_of(env) is Ok,
        exists|state: Seq<char>, request: Seq<char>|
            #[trigger] leads_to_duo(
                url,
                config_of(env)->Ok_0.vault_url,
                config_of(env)->Ok_0.host,
                config_of(env)->Ok_0.client_id,
                state,
                request,
            ) && state_issued(env, user, device, state_now, jti, Ok(state)) && request_says(
                request,
                config_of(env)->Ok_0,
                state,
                user.email@,
                now + 300,
            ),
{
    let config = config_of(env)->Ok_0;
    let state = state_token(env, user, device, state_now, jti)->Ok_0;
    let request = request_token(config, state, user.email@, now);
    law_written_redirect_leads_to_duo(config, state, request);
    law_request_claims_are_its_inputs(config, state, user.email@, now);
}

/// Each claim of a request is one of the values that it is made of, as it is, and
/// there is no other claim.
pub proof fn law_request_claims_are_its_inputs(
    config: ConfigView,
    state: Seq<char>,
    email: Seq<char>,
    now: i64,
)
    requires
        now + 300 <= i64::MAX,
    ensures
        ({
            let claims = request_claims(config, state, email, now);
            &&& member(claims, "response_type"@) == Some(JsonView::Text("code"@))
            &&& member(claims, "scope"@) == Some(JsonView::Text("openid"@))
            &&& member(claims, "exp"@) == Some(JsonView::Int((now + 300) as i64))
            &&& member(claims, "client_id"@) == Some(JsonView::Text(config.client_id))
            &&& member(claims, "redirect_uri"@) == Some(
                JsonView::Text(config.vault_url + "/duo-redirect.html?client=web"@),
            )
            &&& member(claims, "state"@) == Some(JsonView::Text(state))
            &&& member(claims, "duo_uname"@) == Some(JsonView::Text(email))
            &&& member(claims, "aud"@) == Some(JsonView::Text("https://"@ + config.host))
            &&& member(claims, "iss"@) == Some(JsonView::Text(config.client_id))
            &&& member(claims, "use_duo_code_attribute"@) == Some(JsonView::Bool(false))
            &&& forall|key: Seq<char>| #[trigger]
                member(claims, key) is Some ==> key == "response_type"@ || key == "scope"@ || key
                    == "exp"@ || key == "client_id"@ || key == "redirect_uri"@ || key == "state"@ || key
                    == "duo_uname"@ || key == "aud"@ || key == "iss"@ || key
                    == "use_duo_code_attribute"@
        }),
{
    lemma_request_names();
}

/// The names in a request differ.
proof fn lemma_request_names()
    ensures
        "scope"@ != "state"@,
        "exp"@ != "aud"@,
        "exp"@ != "iss"@,
        "aud"@ != "iss"@,
        "client_id"@ != "duo_uname"@,
        "response_type"@.len() == 13,
        "scope"@.len() == 5,
        "exp"@.len() == 3,
        "client_id"@.len() == 9,
        "redirect_uri"@.len() == 12,
        "state"@.len() == 5,
        "duo_uname"@.len() == 9,
        "aud"@.len() == 3,
        "iss"@.len() == 3,
        "use_duo_code_attribute"@.len() == 22,
{
    reveal_strlit("response_type");
    reveal_strlit("scope");
    reveal_strlit("exp");
    reveal_strlit("client_id");
    reveal_strlit("redirect_uri");
    reveal_strlit("state");
    reveal_strlit("duo_uname");
    reveal_strlit("aud");
    reveal_strlit("iss");
    reveal_strlit("use_duo_code_attribute");
    assert("scope"@[1] != "state"@[1]);
    assert("exp"@[0] != "aud"@[0] && "exp"@[0] != "iss"@[0] && "aud"@[0] != "iss"@[0]);
    assert("client_id"@[0] != "duo_uname"@[0]);
}

/// There is a redirect exactly where the configuration is in order and `JWT_SECRET` is
/// there. Of the two faults that of the configuration comes first.
pub proof fn law_redirect_needs_config_and_secret(
    env: Env,
    user: User,
    device: Device,
    state_now: i64,
    jti: Seq<char>,
    now: i64,
)
    ensures
        ({
            let url = auth_url(env, user, device, state_now, jti, now);
            &&& url is Ok <==> config_of(env) is Ok && env.jwt_secret is Ok
            &&& config_of(env) matches Err(fault) ==> url == Err::<Seq<char>, Fault>(fault)
            &&& config_of(env) is Ok ==> (env.jwt_secret matches Err(text) ==> url == Err::<
                Seq<char>,
                Fault,
            >(Fault::Worker(text@)))
        }),
{
}

} // verus!
