//! The configuration of the Duo application.
use vstd::prelude::*;
use vstd::utf8::*;

use crate::error::{bad_request, outcome, AppError, Fault};
use crate::text::{ends_with, starts_with, strip_end, trim, trim_end_matches, trimmed};

verus! {

/// What the runtime holds of the configuration. A lookup that failed is `None`.
pub struct Env {
    /// The variable `DUO_CLIENT_ID`.
    pub duo_client_id: Option<String>,
    /// The variable `DUO_IKEY`.
    pub duo_ikey: Option<String>,
    /// The secret `DUO_CLIENT_SECRET`.
    pub secret_duo_client_secret: Option<String>,
    /// The secret `DUO_SKEY`.
    pub secret_duo_skey: Option<String>,
    /// The variable `DUO_CLIENT_SECRET`.
    pub var_duo_client_secret: Option<String>,
    /// The variable `DUO_SKEY`.
    pub var_duo_skey: Option<String>,
    /// The variable `DUO_HOST`.
    pub duo_host: Option<String>,
    /// The variable `WEB_VAULT_URL`.
    pub web_vault_url: Option<String>,
    /// The variable `DOMAIN`.
    pub domain: Option<String>,
    /// The secret `JWT_SECRET`, or what the runtime said instead.
    pub jwt_secret: Result<String, String>,
}

/// The value of a lookup, as characters.
pub open spec fn looked_up(value: Option<String>) -> Option<Seq<char>> {
    match value {
        Some(text) => Some(text@),
        None => None,
    }
}

/// `first` if it is there, else `second`.
pub open spec fn first_of(first: Option<Seq<char>>, second: Option<Seq<char>>) -> Option<Seq<char>> {
    match first {
        Some(value) => Some(value),
        None => second,
    }
}

/// A setting without the white space around it, or a fault that says that it is missing.
pub open spec fn setting(value: Option<Seq<char>>, missing: Seq<char>) -> Result<Seq<char>, Fault> {
    match value {
        Some(text) => Ok(trimmed(text)),
        None => Err(Fault::BadRequest(missing)),
    }
}

/// The client id: `DUO_CLIENT_ID`, else `DUO_IKEY`.
pub open spec fn client_id_of(env: Env) -> Result<Seq<char>, Fault> {
    setting(
        first_of(looked_up(env.duo_client_id), looked_up(env.duo_ikey)),
        "DUO_CLIENT_ID/DUO_IKEY not configured"@,
    )
}

/// The client secret: `DUO_CLIENT_SECRET`, else `DUO_SKEY`, first among the
/// secrets, then among the variables.
pub open spec fn client_secret_of(env: Env) -> Result<Seq<char>, Fault> {
    setting(
        first_of(
            first_of(looked_up(env.secret_duo_client_secret), looked_up(env.secret_duo_skey)),
            first_of(looked_up(env.var_duo_client_secret), looked_up(env.var_duo_skey)),
        ),
        "DUO_CLIENT_SECRET/DUO_SKEY not configured"@,
    )
}

/// The host of Duo's API.
pub open spec fn host_of(env: Env) -> Result<Seq<char>, Fault> {
    setting(looked_up(env.duo_host), "DUO_HOST not configured"@)
}

/// The address of the web vault, without slashes at its end.
pub open spec fn vault_url_of(env: Env) -> Result<Seq<char>, Fault> {
    match first_of(looked_up(env.web_vault_url), looked_up(env.domain)) {
        Some(text) => Ok(strip_end(text, |c: char| c == '/')),
        None => Err(Fault::BadRequest("WEB_VAULT_URL/DOMAIN not configured"@)),
    }
}

/// Where Duo sends the browser back to.
pub open spec fn redirect_uri_at(vault_url: Seq<char>) -> Seq<char> {
    vault_url + "/duo-redirect.html?client=web"@
}

/// Whether a host is one of Duo's API hosts.
pub open spec fn duo_api_host(host: Seq<char>) -> bool {
    "api-"@.is_prefix_of(host) && (".duosecurity.com"@.is_suffix_of(host)
        || ".duofederal.com"@.is_suffix_of(host))
}

/// The first fault among the configured values, if there is one. Lengths are in bytes.
pub open spec fn config_check(
    client_id: Seq<char>,
    client_secret: Seq<char>,
    host: Seq<char>,
) -> Result<(), Fault> {
    if encode_utf8(client_id).len() != 20 {
        Err(Fault::BadRequest("Invalid Duo client id length; expected 20 characters"@))
    } else if encode_utf8(client_secret).len() != 40 {
        Err(Fault::BadRequest("Invalid Duo client secret length; expected 40 characters"@))
    } else if !duo_api_host(host) {
        Err(
            Fault::BadRequest(
                "Invalid Duo API host; expected api-*.duosecurity.com or api-*.duofederal.com"@,
            ),
        )
    } else {
        Ok(())
    }
}

/// A checked configuration, as characters.
pub struct ConfigView {
    pub client_id: Seq<char>,
    pub client_secret: Seq<char>,
    pub host: Seq<char>,
    pub vault_url: Seq<char>,
}

/// The configuration that `env` holds, or the first fault in it.
pub open spec fn config_of(env: Env) -> Result<ConfigView, Fault> {
    match client_id_of(env) {
        Err(fault) => Err(fault),
        Ok(client_id) => match client_secret_of(env) {
            Err(fault) => Err(fault),
            Ok(client_secret) => match host_of(env) {
                Err(fault) => Err(fault),
                Ok(host) => match config_check(client_id, client_secret, host) {
                    Err(fault) => Err(fault),
                    Ok(_) => match vault_url_of(env) {
                        Err(fault) => Err(fault),
                        Ok(vault_url) => Ok(
                            ConfigView { client_id, client_secret, host, vault_url },
                        ),
                    },
                },
            },
        },
    }
}

/// The secret that states are signed with, or the runtime's refusal.
pub open spec fn state_secret_of(env: Env) -> Result<Seq<char>, Fault> {
    match env.jwt_secret {
        Ok(secret) => Ok(secret@),
        Err(text) => Err(Fault::Worker(text@)),
    }
}

/// A checked configuration.
pub struct DuoConfig {
    pub client_id: String,
    pub client_secret: String,
    pub host: String,
    pub vault_url: String,
}

impl View for DuoConfig {
    type V = ConfigView;

    open spec fn view(&self) -> ConfigView {
        ConfigView {
            client_id: self.client_id@,
            client_secret: self.client_secret@,
            host: self.host@,
            vault_url: self.vault_url@,
        }
    }
}

/// Checks the configured values: the lengths that Duo gives to its identifiers,
/// and that the host is one of Duo's.
pub fn validate_duo_config_values(client_id: &str, client_secret: &str, host: &str) -> (checked:
    Result<(), AppError>)
    ensures
        outcome(checked) == config_check(client_id@, client_secret@, host@),
{
    if client_id.as_bytes().len() != 20 {
        return Err(bad_request("Invalid Duo client id length; expected 20 characters"));
    }
    if client_secret.as_bytes().len() != 40 {
        return Err(bad_request("Invalid Duo client secret length; expected 40 characters"));
    }
    if !starts_with(host, "api-") || !(ends_with(host, ".duosecurity.com") || ends_with(
        host,
        ".duofederal.com",
    )) {
        return Err(
            bad_request(
                "Invalid Duo API host; expected api-*.duosecurity.com or api-*.duofederal.com",
            ),
        );
    }
    Ok(())
}

/// `first` if it is there, else `second`.
fn first_set<'a>(first: &'a Option<String>, second: &'a Option<String>) -> (value: Option<&'a str>)
    ensures
        match value {
            Some(text) => first_of(looked_up(*first), looked_up(*second)) == Some(text@),
            None => first_of(looked_up(*first), looked_up(*second)) is None,
        },
{
    match first {
        Some(text) => Some(text.as_str()),
        None => match second {
            Some(text) => Some(text.as_str()),
            None => None,
        },
    }
}

/// The client id.
pub fn duo_client_id(env: &Env) -> (value: Result<String, AppError>)
    ensures
        outcome(value) == client_id_of(*env),
{
    match first_set(&env.duo_client_id, &env.duo_ikey) {
        Some(text) => Ok(trim(text).to_string()),
        None => Err(bad_request("DUO_CLIENT_ID/DUO_IKEY not configured")),
    }
}

/// The client secret.
pub fn duo_client_secret(env: &Env) -> (value: Result<String, AppError>)
    ensures
        outcome(value) == client_secret_of(*env),
{
    let found = match first_set(&env.secret_duo_client_secret, &env.secret_duo_skey) {
        Some(text) => Some(text),
        None => first_set(&env.var_duo_client_secret, &env.var_duo_skey),
    };
    match found {
        Some(text) => Ok(trim(text).to_string()),
        None => Err(bad_request("DUO_CLIENT_SECRET/DUO_SKEY not configured")),
    }
}

/// The host of Duo's API.
pub fn duo_host(env: &Env) -> (value: Result<String, AppError>)
    ensures
        outcome(value) == host_of(*env),
{
    match &env.duo_host {
        Some(text) => Ok(trim(text.as_str()).to_string()),
        None => Err(bad_request("DUO_HOST not configured")),
    }
}

/// The address of the web vault.
pub fn web_vault_url(env: &Env) -> (value: Result<String, AppError>)
    ensures
        outcome(value) == vault_url_of(*env),
{
    match first_set(&env.web_vault_url, &env.domain) {
        Some(text) => Ok(trim_end_matches(text, '/').to_string()),
        None => Err(bad_request("WEB_VAULT_URL/DOMAIN not configured")),
    }
}

/// Where Duo sends the browser back to. The address has to be registered with
/// Duo in this form.
pub fn duo_redirect_uri(env: &Env) -> (value: Result<String, AppError>)
    ensures
        outcome(value) == match vault_url_of(*env) {
            Ok(vault_url) => Ok::<Seq<char>, Fault>(redirect_uri_at(vault_url)),
            Err(fault) => Err(fault),
        },
{
    let vault_url = web_vault_url(env)?;
    Ok(redirect_uri(vault_url.as_str()))
}

/// Where Duo sends the browser back to, for a vault at the given address.
pub(crate) fn redirect_uri(vault_url: &str) -> (uri: String)
    ensures
        uri@ == redirect_uri_at(vault_url@),
{
    let mut uri = vault_url.to_string();
    uri.append("/duo-redirect.html?client=web");
    uri
}

/// Reads and checks the configuration.
pub fn duo_config(env: &Env) -> (config: Result<DuoConfig, AppError>)
    ensures
        outcome(config) == config_of(*env),
{
    let client_id = duo_client_id(env)?;
    let client_secret = duo_client_secret(env)?;
    let host = duo_host(env)?;
    validate_duo_config_values(client_id.as_str(), client_secret.as_str(), host.as_str())?;
    let vault_url = web_vault_url(env)?;
    Ok(DuoConfig { client_id, client_secret, host, vault_url })
}

/// The secret that states are signed with.
pub(crate) fn state_secret(env: &Env) -> (secret: Result<&str, AppError>)
    ensures
        match secret {
            Ok(text) => state_secret_of(*env) == Ok::<Seq<char>, Fault>(text@),
            Err(error) => state_secret_of(*env) == Err::<Seq<char>, Fault>(error@),
        },
{
    match &env.jwt_secret {
        Ok(secret) => Ok(secret.as_str()),
        Err(text) => Err(AppError::Worker(text.clone())),
    }
}

/// A configuration that is used has passed the checks: the identifiers have the
/// lengths that Duo gives them, and the host is one of Duo's.
pub proof fn law_config_in_use_is_checked(env: Env)
    requires
        config_of(env) is Ok,
    ensures
        encode_utf8(config_of(env)->Ok_0.client_id).len() == 20,
        encode_utf8(config_of(env)->Ok_0.client_secret).len() == 40,
        duo_api_host(config_of(env)->Ok_0.host),
{
}

/// The client id is `DUO_CLIENT_ID` where that is set, whatever `DUO_IKEY` holds,
/// else `DUO_IKEY`, without the white space around it; where neither is set, that
/// is the fault.
pub proof fn law_client_id_comes_from_its_names(env: Env)
    ensures
        env.duo_client_id matches Some(text) ==> client_id_of(env) == Ok::<Seq<char>, Fault>(
            trimmed(text@),
        ),
        env.duo_client_id is None ==> (env.duo_ikey matches Some(text) ==> client_id_of(env) == Ok::<
            Seq<char>,
            Fault,
        >(trimmed(text@))),
        env.duo_client_id is None && env.duo_ikey is None ==> client_id_of(env) == Err::<
            Seq<char>,
            Fault,
        >(Fault::BadRequest("DUO_CLIENT_ID/DUO_IKEY not configured"@)),
{
}

/// The client secret is the first that is set of the secrets `DUO_CLIENT_SECRET`
/// and `DUO_SKEY` and the variables of these names, without the white space around
/// it, whatever the later ones hold; where none is set, that is the fault.
pub proof fn law_client_secret_comes_from_its_names(env: Env)
    ensures
        env.secret_duo_client_secret matches Some(text) ==> client_secret_of(env) == Ok::<
            Seq<char>,
            Fault,
        >(trimmed(text@)),
        env.secret_duo_client_secret is None ==> (env.secret_duo_skey matches Some(text)
            ==> client_secret_of(env) == Ok::<Seq<char>, Fault>(trimmed(text@))),
        env.secret_duo_client_secret is None && env.secret_duo_skey is None ==> (
        env.var_duo_client_secret matches Some(text) ==> client_secret_of(env) == Ok::<
            Seq<char>,
            Fault,
        >(trimmed(text@))),
        env.secret_duo_client_secret is None && env.secret_duo_skey is None
            && env.var_duo_client_secret is None ==> (env.var_duo_skey matches Some(text)
            ==> client_secret_of(env) == Ok::<Seq<char>, Fault>(trimmed(text@))),
        env.secret_duo_client_secret is None && env.secret_duo_skey is None
            && env.var_duo_client_secret is None && env.var_duo_skey is None ==> client_secret_of(env)
            == Err::<Seq<char>, Fault>(
            Fault::BadRequest("DUO_CLIENT_SECRET/DUO_SKEY not configured"@),
        ),
{
}

/// The host is `DUO_HOST` without the white space around it.
pub proof fn law_host_comes_from_its_name(env: Env)
    ensures
        env.duo_host matches Some(text) ==> host_of(env) == Ok::<Seq<char>, Fault>(trimmed(text@)),
        env.duo_host is None ==> host_of(env) == Err::<Seq<char>, Fault>(
            Fault::BadRequest("DUO_HOST not configured"@),
        ),
{
}

/// Whether `url` is the text without the slashes at its end.
pub open spec fn without_slashes(text: Seq<char>, url: Seq<char>) -> bool {
    &&& url.len() > 0 ==> url.last() != '/'
    &&& url.is_prefix_of(text)
    &&& forall|i: int| url.len() <= i < text.len() ==> #[trigger] text[i] == '/'
}

/// The vault is at `WEB_VAULT_URL` where that is set, whatever `DOMAIN` holds, and
/// at `DOMAIN` only where it is not, in either case without the slashes at the
/// end; where neither is set, that is the fault.
pub proof fn law_vault_url_comes_from_its_names(env: Env)
    ensures
        env.web_vault_url matches Some(text) ==> vault_url_of(env) is Ok && without_slashes(
            text@,
            vault_url_of(env)->Ok_0,
        ),
        env.web_vault_url is None ==> (env.domain matches Some(text) ==> vault_url_of(env) is Ok
            && without_slashes(text@, vault_url_of(env)->Ok_0)),
        env.web_vault_url is None && env.domain is None ==> vault_url_of(env) == Err::<
            Seq<char>,
            Fault,
        >(Fault::BadRequest("WEB_VAULT_URL/DOMAIN not configured"@)),
{
    if let Some(text) = env.web_vault_url {
        lemma_slashes_stripped(text@);
    } else if let Some(text) = env.domain {
        lemma_slashes_stripped(text@);
    }
}

proof fn lemma_slashes_stripped(text: Seq<char>)
    ensures
        without_slashes(text, strip_end(text, |c: char| c == '/')),
    decreases text.len(),
{
    if text.len() > 0 && text.last() == '/' {
        lemma_slashes_stripped(text.drop_last());
        let url = strip_end(text.drop_last(), |c: char| c == '/');
        assert(url.is_prefix_of(text));
        assert forall|i: int| url.len() <= i < text.len() implies #[trigger] text[i] == '/' by {
            if i < text.len() - 1 {
                assert(text.drop_last()[i] == '/');
            }
        }
    }
}

/// The way back is a page of the vault, for the web client.
pub proof fn law_redirect_uri_is_of_the_vault(vault_url: Seq<char>)
    ensures
        redirect_uri_at(vault_url) == vault_url + "/duo-redirect.html?client=web"@,
{
}

/// Duo's hosts are those that begin with `api-` and go on, after anything, with
/// one of Duo's two domains.
pub proof fn law_duo_hosts_are_of_duo(host: Seq<char>)
    ensures
        duo_api_host(host) <==> exists|name: Seq<char>|
            host == #[trigger] ("api-"@ + name) + ".duosecurity.com"@ || host == ("api-"@ + name)
                + ".duofederal.com"@,
{
    reveal_strlit("api-");
    reveal_strlit(".duosecurity.com");
    reveal_strlit(".duofederal.com");
    if duo_api_host(host) {
        let domain = if ".duosecurity.com"@.is_suffix_of(host) {
            ".duosecurity.com"@
        } else {
            ".duofederal.com"@
        };
        let from = host.len() - domain.len();
        assert(host.skip(from) =~= domain);
        assert(host[from] == domain[0]);
        assert(host.take(4) =~= "api-"@);
        if from < 4 {
            assert(host[from] == "api-"@[from]);
        }
        let name = host.subrange(4, from);
        assert(host =~= ("api-"@ + name) + domain);
    }
    if exists|name: Seq<char>|
        host == #[trigger] ("api-"@ + name) + ".duosecurity.com"@ || host == ("api-"@ + name)
            + ".duofederal.com"@ {
        let name = choose|name: Seq<char>|
            host == #[trigger] ("api-"@ + name) + ".duosecurity.com"@ || host == ("api-"@ + name)
                + ".duofederal.com"@;
        assert("api-"@.is_prefix_of(host));
    }
}

/// The configured values pass exactly where the client id has twenty bytes, the
/// client secret has forty and the host is one of Duo's; else the first of the
/// three that is not so is the fault.
pub proof fn law_values_are_checked_in_order(
    client_id: Seq<char>,
    client_secret: Seq<char>,
    host: Seq<char>,
)
    ensures
        ({
            let checked = config_check(client_id, client_secret, host);
            let id_fits = encode_utf8(client_id).len() == 20;
            let secret_fits = encode_utf8(client_secret).len() == 40;
            &&& checked is Ok <==> id_fits && secret_fits && duo_api_host(host)
            &&& !id_fits ==> checked->Err_0 == Fault::BadRequest(
                "Invalid Duo client id length; expected 20 characters"@,
            )
            &&& id_fits && !secret_fits ==> checked->Err_0 == Fault::BadRequest(
                "Invalid Duo client secret length; expected 40 characters"@,
            )
            &&& id_fits && secret_fits && !duo_api_host(host) ==> checked->Err_0 == Fault::BadRequest(
                "Invalid Duo API host; expected api-*.duosecurity.com or api-*.duofederal.com"@,
            )
        }),
{
}

/// The configuration holds what each setting says, and is there exactly where
/// every setting is and the values pass; else the first fault is the answer, that
/// of the vault's address last.
pub proof fn law_config_is_what_the_settings_say(env: Env)
    ensures
        config_of(env) matches Ok(config) ==> client_id_of(env) == Ok::<Seq<char>, Fault>(
            config.client_id,
        ) && client_secret_of(env) == Ok::<Seq<char>, Fault>(config.client_secret) && host_of(env)
            == Ok::<Seq<char>, Fault>(config.host) && vault_url_of(env) == Ok::<Seq<char>, Fault>(
            config.vault_url,
        ),
        client_id_of(env) matches Err(fault) ==> config_of(env) == Err::<ConfigView, Fault>(fault),
        client_id_of(env) is Ok ==> (client_secret_of(env) matches Err(fault) ==> config_of(env) == Err::<
            ConfigView,
            Fault,
        >(fault)),
        client_id_of(env) is Ok && client_secret_of(env) is Ok ==> (host_of(env) matches Err(fault)
            ==> config_of(env) == Err::<ConfigView, Fault>(fault)),
        client_id_of(env) is Ok && client_secret_of(env) is Ok && host_of(env) is Ok ==> {
            let checked = config_check(
                client_id_of(env)->Ok_0,
                client_secret_of(env)->Ok_0,
                host_of(env)->Ok_0,
            );
            &&& checked matches Err(fault) ==> config_of(env) == Err::<ConfigView, Fault>(fault)
            &&& checked is Ok ==> (vault_url_of(env) matches Err(fault) ==> config_of(env) == Err::<
                ConfigView,
                Fault,
            >(fault))
            &&& checked is Ok && vault_url_of(env) is Ok ==> config_of(env) is Ok
        },
{
}

/// States are signed with `JWT_SECRET` as it is; where the runtime refuses it, what
/// the runtime said is the fault.
pub proof fn law_state_secret_comes_from_its_name(env: Env)
    ensures
        env.jwt_secret matches Ok(secret) ==> state_secret_of(env) == Ok::<Seq<char>, Fault>(secret@),
        env.jwt_secret matches Err(text) ==> state_secret_of(env) == Err::<Seq<char>, Fault>(
            Fault::Worker(text@),
        ),
{
}

/// A configuration is seen field by field.
pub proof fn law_config_is_seen_as_it_is(config: DuoConfig)
    ensures
        config@.client_id == config.client_id@,
        config@.client_secret == config.client_secret@,
        config@.host == config.host@,
        config@.vault_url == config.vault_url@,
{
}

} // verus!
