//! The state that travels through Duo and back: a token that ties the answer to
//! the user and the device that asked.
use vstd::prelude::*;

use crate::clock::{
    clock_reading, law_clock_keeps_its_range, random_uuid, utc_timestamp, uuid_v4_text,
};
use crate::config::{state_secret, state_secret_of, Env};
use crate::crypto::Algorithm;
use crate::error::{bad_request, outcome, AppError, Fault};
use crate::json::{as_int, as_text, member, JsonObject, JsonValue, JsonView};
use crate::jwt::{jwt_hs256, token_claims, token_text, verify_jwt_hs256};
use crate::models::{Device, User};
use crate::text::same;

verus! {

/// How long a state or a request to Duo may be used, in seconds.
pub const DUO_OIDC_EXPIRE_SECONDS: i64 = 300;

/// What a state says.
pub open spec fn state_claims(user: User, device: Device, now: i64, jti: Seq<char>) -> Map<
    Seq<char>,
    JsonView,
> {
    Map::empty().insert("user_id"@, JsonView::Text(user.id@)).insert(
        "email"@,
        JsonView::Text(user.email@),
    ).insert("device_identifier"@, JsonView::Text(device.identifier@)).insert(
        "exp"@,
        JsonView::Int((now + DUO_OIDC_EXPIRE_SECONDS) as i64),
    ).insert("jti"@, JsonView::Text(jti))
}

/// The state for a user and a device.
pub open spec fn state_token(
    env: Env,
    user: User,
    device: Device,
    now: i64,
    jti: Seq<char>,
) -> Result<Seq<char>, Fault> {
    match state_secret_of(env) {
        Ok(secret) => Ok(token_text(Algorithm::Hs256, secret, state_claims(user, device, now, jti))),
        Err(fault) => Err(fault),
    }
}

/// Whether what a state says fits the user, the device and the time.
pub open spec fn state_check(
    claims: Map<Seq<char>, JsonView>,
    user: User,
    device: Device,
    now: i64,
) -> Result<(), Fault> {
    match as_int(member(claims, "exp"@)) {
        None => Err(Fault::BadRequest("Invalid Duo state exp"@)),
        Some(exp) => if now >= exp {
            Err(Fault::BadRequest("Duo state expired"@))
        } else if as_text(member(claims, "user_id"@)) != Some(user.id@) {
            Err(Fault::BadRequest("Duo state user mismatch"@))
        } else if as_text(member(claims, "email"@)) != Some(user.email@) {
            Err(Fault::BadRequest("Duo state email mismatch"@))
        } else if as_text(member(claims, "device_identifier"@)) != Some(device.identifier@) {
            Err(Fault::BadRequest("Duo state device mismatch"@))
        } else {
            Ok(())
        },
    }
}

/// Whether a state is accepted from a user and a device at a time.
pub open spec fn state_verdict(
    env: Env,
    user: User,
    device: Device,
    state: Seq<char>,
    now: i64,
) -> Result<(), Fault> {
    match state_secret_of(env) {
        Err(fault) => Err(fault),
        Ok(secret) => match token_claims(Algorithm::Hs256, secret, state) {
            Err(fault) => Err(fault),
            Ok(claims) => state_check(claims, user, device, now),
        },
    }
}

/// `state` is the state for `user` and `device` at `now`; it reads back as what
/// it says, and whoever presents it later is judged by that.
pub open spec fn state_issued(
    env: Env,
    user: User,
    device: Device,
    now: i64,
    jti: Seq<char>,
    state: Result<Seq<char>, Fault>,
) -> bool {
    &&& state == state_token(env, user, device, now, jti)
    &&& state matches Ok(token) ==> token_claims(
        Algorithm::Hs256,
        state_secret_of(env)->Ok_0,
        token,
    ) == Ok::<Map<Seq<char>, JsonView>, Fault>(state_claims(user, device, now, jti))
    &&& state matches Ok(token) ==> forall|bearer: User, machine: Device, later: i64|
        #[trigger] state_verdict(env, bearer, machine, token, later) == state_check(
            state_claims(user, device, now, jti),
            bearer,
            machine,
            later,
        )
}

/// Issues the state for a user and a device, now.
pub fn generate_state(env: &Env, user: &User, device: &Device) -> (state: Result<String, AppError>)
    ensures
        exists|now: i64, jti: Seq<char>|
            clock_reading(now) && uuid_v4_text(jti) && #[trigger] state_issued(
                *env,
                *user,
                *device,
                now,
                jti,
                outcome(state),
            ),
{
    let now: i64 = utc_timestamp();
    let jti = random_uuid();
    proof {
        law_clock_keeps_its_range(now);
    }
    generate_state_at(env, user, device, now, jti.as_str())
}

/// Issues the state for a user and a device at a given time, under a given identifier.
pub fn generate_state_at(env: &Env, user: &User, device: &Device, now: i64, jti: &str) -> (state:
    Result<String, AppError>)
    requires
        now + DUO_OIDC_EXPIRE_SECONDS <= i64::MAX,
    ensures
        outcome(state) == state_token(*env, *user, *device, now, jti@),
        state_issued(*env, *user, *device, now, jti@, outcome(state)),
{
    let secret = state_secret(env)?;
    let mut claims = JsonObject::new();
    claims.set("user_id", JsonValue::Text(user.id.clone()));
    claims.set("email", JsonValue::Text(user.email.clone()));
    claims.set("device_identifier", JsonValue::Text(device.identifier.clone()));
    claims.set("exp", JsonValue::Int(now + DUO_OIDC_EXPIRE_SECONDS));
    claims.set("jti", JsonValue::Text(jti.to_string()));
    assert(claims@ == state_claims(*user, *device, now, jti@));
    jwt_hs256(secret, claims)
}

/// Whether a text claim is there and is `expected`.
fn claim_is(claims: &JsonObject, key: &str, expected: &str) -> (r: bool)
    ensures
        r == (as_text(member(claims@, key@)) == Some(expected@)),
{
    match claims.get_text(key) {
        Some(text) => same(text, expected),
        None => false,
    }
}

/// Checks what a state says against the user, the device and the time.
pub fn check_state(claims: &JsonObject, user: &User, device: &Device, now: i64) -> (checked: Result<
    (),
    AppError,
>)
    ensures
        outcome(checked) == state_check(claims@, *user, *device, now),
{
    let exp: i64 = match claims.get_int("exp") {
        Some(exp) => exp,
        None => return Err(bad_request("Invalid Duo state exp")),
    };
    if now >= exp {
        return Err(bad_request("Duo state expired"));
    }
    if !claim_is(claims, "user_id", user.id.as_str()) {
        return Err(bad_request("Duo state user mismatch"));
    }
    if !claim_is(claims, "email", user.email.as_str()) {
        return Err(bad_request("Duo state email mismatch"));
    }
    if !claim_is(claims, "device_identifier", device.identifier.as_str()) {
        return Err(bad_request("Duo state device mismatch"));
    }
    Ok(())
}

/// Checks a state that comes back, now.
pub fn verify_state(env: &Env, user: &User, device: &Device, state: &str) -> (checked: Result<
    (),
    AppError,
>)
    ensures
        exists|now: i64|
            clock_reading(now) && outcome(checked) == #[trigger] state_verdict(
                *env,
                *user,
                *device,
                state@,
                now,
            ),
{
    let now: i64 = utc_timestamp();
    verify_state_at(env, user, device, state, now)
}

/// Checks a state that comes back at a given time.
pub fn verify_state_at(env: &Env, user: &User, device: &Device, state: &str, now: i64) -> (checked:
    Result<(), AppError>)
    ensures
        outcome(checked) == state_verdict(*env, *user, *device, state@, now),
{
    let secret = state_secret(env)?;
    let claims = verify_jwt_hs256(secret, state)?;
    check_state(&claims, user, device, now)
}

/// A state is good for the user and the device that it was issued to and for no
/// other, and for as long as a request may be used and no longer.
pub proof fn law_state_admits_its_bearer_alone(
    user: User,
    device: Device,
    now: i64,
    jti: Seq<char>,
    bearer: User,
    machine: Device,
    later: i64,
)
    requires
        now + DUO_OIDC_EXPIRE_SECONDS <= i64::MAX,
    ensures
        state_check(state_claims(user, device, now, jti), bearer, machine, later) == (if later >= now
            + DUO_OIDC_EXPIRE_SECONDS {
            Err(Fault::BadRequest("Duo state expired"@))
        } else if bearer.id@ != user.id@ {
            Err(Fault::BadRequest("Duo state user mismatch"@))
        } else if bearer.email@ != user.email@ {
            Err(Fault::BadRequest("Duo state email mismatch"@))
        } else if machine.identifier@ != device.identifier@ {
            Err(Fault::BadRequest("Duo state device mismatch"@))
        } else {
            Ok::<(), Fault>(())
        }),
{
    lemma_state_names();
    let claims = state_claims(user, device, now, jti);
    assert(as_int(member(claims, "exp"@)) == Some((now + DUO_OIDC_EXPIRE_SECONDS) as i64));
    assert(as_text(member(claims, "user_id"@)) == Some(user.id@));
    assert(as_text(member(claims, "email"@)) == Some(user.email@));
    assert(as_text(member(claims, "device_identifier"@)) == Some(device.identifier@));
}

/// A state that was issued says, to one who holds `JWT_SECRET`, the user's id and
/// address and the device's identifier as they are, an end that lies three hundred
/// seconds after the issue, and its own identifier; and it says nothing else.
pub proof fn law_issued_state_says(
    env: Env,
    user: User,
    device: Device,
    now: i64,
    jti: Seq<char>,
    state: Seq<char>,
)
    requires
        now + 300 <= i64::MAX,
        state_issued(env, user, device, now, jti, Ok(state)),
    ensures
        env.jwt_secret is Ok,
        token_claims(Algorithm::Hs256, env.jwt_secret->Ok_0@, state) is Ok,
        ({
            let claims = token_claims(Algorithm::Hs256, env.jwt_secret->Ok_0@, state)->Ok_0;
            &&& as_text(member(claims, "user_id"@)) == Some(user.id@)
            &&& as_text(member(claims, "email"@)) == Some(user.email@)
            &&& as_text(member(claims, "device_identifier"@)) == Some(device.identifier@)
            &&& as_int(member(claims, "exp"@)) == Some((now + 300) as i64)
            &&& as_text(member(claims, "jti"@)) == Some(jti)
            &&& forall|key: Seq<char>| #[trigger]
                member(claims, key) is Some ==> key == "user_id"@ || key == "email"@ || key
                    == "device_identifier"@ || key == "exp"@ || key == "jti"@
        }),
{
    lemma_state_names();
}

/// The names in a state differ.
proof fn lemma_state_names()
    ensures
        "user_id"@ != "email"@,
        "user_id"@ != "device_identifier"@,
        "user_id"@ != "exp"@,
        "user_id"@ != "jti"@,
        "email"@ != "device_identifier"@,
        "email"@ != "exp"@,
        "email"@ != "jti"@,
        "device_identifier"@ != "exp"@,
        "device_identifier"@ != "jti"@,
        "exp"@ != "jti"@,
{
    reveal_strlit("user_id");
    reveal_strlit("email");
    reveal_strlit("device_identifier");
    reveal_strlit("exp");
    reveal_strlit("jti");
    assert("exp"@[0] != "jti"@[0]);
    assert("user_id"@.len() == 7 && "email"@.len() == 5 && "device_identifier"@.len() == 17
        && "exp"@.len() == 3 && "jti"@.len() == 3);
}

/// A state is accepted exactly where it reads, under `JWT_SECRET`, as claims with an
/// end that is still to come and with the user's id, the user's address and the
/// device's identifier, letter for letter.
pub proof fn law_state_is_accepted_exactly(
    env: Env,
    user: User,
    device: Device,
    state: Seq<char>,
    now: i64,
)
    ensures
        state_verdict(env, user, device, state, now) is Ok <==> {
            &&& env.jwt_secret is Ok
            &&& token_claims(Algorithm::Hs256, env.jwt_secret->Ok_0@, state) matches Ok(claims)
            &&& as_int(member(claims, "exp"@)) matches Some(exp)
            &&& now < exp
            &&& as_text(member(claims, "user_id"@)) == Some(user.id@)
            &&& as_text(member(claims, "email"@)) == Some(user.email@)
            &&& as_text(member(claims, "device_identifier"@)) == Some(device.identifier@)
        },
{
}

/// A state that is refused is refused for the first of these that holds: the
/// secret is missing, the token does not read, it has no end, the end is past, the
/// user's id, the user's address or the device's identifier is another.
pub proof fn law_state_is_refused_for_the_first_reason(
    env: Env,
    user: User,
    device: Device,
    state: Seq<char>,
    now: i64,
)
    ensures
        ({
            let verdict = state_verdict(env, user, device, state, now);
            match env.jwt_secret {
                Err(text) => verdict == Err::<(), Fault>(Fault::Worker(text@)),
                Ok(secret) => match token_claims(Algorithm::Hs256, secret@, state) {
                    Err(fault) => verdict == Err::<(), Fault>(fault),
                    Ok(claims) => {
                        let exp = as_int(member(claims, "exp"@));
                        let id_fits = as_text(member(claims, "user_id"@)) == Some(user.id@);
                        let email_fits = as_text(member(claims, "email"@)) == Some(user.email@);
                        &&& exp is None ==> verdict == Err::<(), Fault>(
                            Fault::BadRequest("Invalid Duo state exp"@),
                        )
                        &&& exp is Some && now >= exp->0 ==> verdict == Err::<(), Fault>(
                            Fault::BadRequest("Duo state expired"@),
                        )
                        &&& exp is Some && now < exp->0 && !id_fits ==> verdict == Err::<(), Fault>(
                            Fault::BadRequest("Duo state user mismatch"@),
                        )
                        &&& exp is Some && now < exp->0 && id_fits && !email_fits ==> verdict == Err::<
                            (),
                            Fault,
                        >(Fault::BadRequest("Duo state email mismatch"@))
                        &&& exp is Some && now < exp->0 && id_fits && email_fits && verdict is Err
                            ==> verdict == Err::<(), Fault>(
                            Fault::BadRequest("Duo state device mismatch"@),
                        )
                    },
                },
            }
        }),
{
}

/// Without `JWT_SECRET` no state is issued, and what the runtime said is the answer;
/// with it, one always is.
pub proof fn law_state_needs_its_secret(
    env: Env,
    user: User,
    device: Device,
    now: i64,
    jti: Seq<char>,
)
    ensures
        env.jwt_secret matches Err(text) ==> state_token(env, user, device, now, jti) == Err::<
            Seq<char>,
            Fault,
        >(Fault::Worker(text@)),
        env.jwt_secret is Ok ==> state_token(env, user, device, now, jti) is Ok,
{
}

} // verus!
