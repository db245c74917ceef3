//! Reading and checking the configuration.
use duo_auth::config::{
    duo_client_id, duo_client_secret, duo_config, duo_host, duo_redirect_uri,
    validate_duo_config_values, web_vault_url,
};
use duo_auth::{AppError, Env};

fn env() -> Env {
    Env {
        duo_client_id: Some("DIABCDEFGHIJKLMNOPQR".to_string()),
        duo_ikey: None,
        secret_duo_client_secret: Some("abcdefghijklmnopqrstuvwxyz0123456789ABCD".to_string()),
        secret_duo_skey: None,
        var_duo_client_secret: None,
        var_duo_skey: None,
        duo_host: Some("api-1234abcd.duosecurity.com".to_string()),
        web_vault_url: Some("https://vault.example.com/".to_string()),
        domain: None,
        jwt_secret: Ok("state-secret".to_string()),
    }
}

/// The text of a request that was refused.
fn refused<T>(result: Result<T, AppError>) -> String {
    match result {
        Err(AppError::BadRequest(text)) => text,
        Err(error) => panic!("another error: {:?}", error),
        Ok(_) => panic!("not refused"),
    }
}

const ID: &str = "DIABCDEFGHIJKLMNOPQR";
const SECRET: &str = "abcdefghijklmnopqrstuvwxyz0123456789ABCD";

#[test]
fn good_values_pass() {
    assert!(validate_duo_config_values(ID, SECRET, "api-1.duosecurity.com").is_ok());
    assert!(validate_duo_config_values(ID, SECRET, "api-1.duofederal.com").is_ok());
    assert!(validate_duo_config_values(ID, SECRET, "api-.duosecurity.com").is_ok());
}

#[test]
fn bad_lengths_are_refused() {
    assert_eq!(
        refused(validate_duo_config_values("short", SECRET, "api-1.duosecurity.com")),
        "Invalid Duo client id length; expected 20 characters"
    );
    assert_eq!(
        refused(validate_duo_config_values(ID, "", "api-1.duosecurity.com")),
        "Invalid Duo client secret length; expected 40 characters"
    );
    // Ten characters of two bytes.
    assert!(validate_duo_config_values("\u{e9}\u{e9}\u{e9}\u{e9}\u{e9}\u{e9}\u{e9}\u{e9}\u{e9}\u{e9}", SECRET, "api-1.duosecurity.com").is_ok());
}

#[test]
fn foreign_hosts_are_refused() {
    for host in ["", "duosecurity.com", "api-1.example.com", "xapi-1.duosecurity.com", "api-1.duosecurity.com.", "API-1.duosecurity.com"] {
        assert_eq!(
            refused(validate_duo_config_values(ID, SECRET, host)),
            "Invalid Duo API host; expected api-*.duosecurity.com or api-*.duofederal.com"
        );
    }
}

#[test]
fn the_first_fault_is_reported() {
    assert_eq!(
        refused(validate_duo_config_values("", "", "")),
        "Invalid Duo client id length; expected 20 characters"
    );
}

#[test]
fn client_id_falls_back_to_the_older_name() {
    let mut e = env();
    e.duo_client_id = None;
    e.duo_ikey = Some("  key \n".to_string());
    assert_eq!(duo_client_id(&e).unwrap(), "key");
    e.duo_client_id = Some("".to_string());
    assert_eq!(duo_client_id(&e).unwrap(), "");
    e.duo_client_id = None;
    e.duo_ikey = None;
    assert_eq!(refused(duo_client_id(&e)), "DUO_CLIENT_ID/DUO_IKEY not configured");
}

#[test]
fn client_secret_is_looked_up_in_order() {
    let mut e = env();
    e.secret_duo_client_secret = Some("a".to_string());
    e.secret_duo_skey = Some("b".to_string());
    e.var_duo_client_secret = Some("c".to_string());
    e.var_duo_skey = Some(" d ".to_string());
    assert_eq!(duo_client_secret(&e).unwrap(), "a");
    e.secret_duo_client_secret = None;
    assert_eq!(duo_client_secret(&e).unwrap(), "b");
    e.secret_duo_skey = None;
    assert_eq!(duo_client_secret(&e).unwrap(), "c");
    e.var_duo_client_secret = None;
    assert_eq!(duo_client_secret(&e).unwrap(), "d");
    e.var_duo_skey = None;
    assert_eq!(refused(duo_client_secret(&e)), "DUO_CLIENT_SECRET/DUO_SKEY not configured");
}

#[test]
fn host_is_trimmed() {
    let mut e = env();
    e.duo_host = Some(" api-x ".to_string());
    assert_eq!(duo_host(&e).unwrap(), "api-x");
    e.duo_host = None;
    assert_eq!(refused(duo_host(&e)), "DUO_HOST not configured");
}

#[test]
fn vault_url_loses_its_slashes_and_nothing_else() {
    let mut e = env();
    e.web_vault_url = None;
    e.domain = Some(" https://v.example.com/// ".to_string());
    assert_eq!(web_vault_url(&e).unwrap(), " https://v.example.com/// ");
    e.domain = Some("https://v.example.com///".to_string());
    assert_eq!(web_vault_url(&e).unwrap(), "https://v.example.com");
    assert_eq!(
        duo_redirect_uri(&e).unwrap(),
        "https://v.example.com/duo-redirect.html?client=web"
    );
    e.domain = None;
    assert_eq!(refused(web_vault_url(&e)), "WEB_VAULT_URL/DOMAIN not configured");
    assert_eq!(refused(duo_redirect_uri(&e)), "WEB_VAULT_URL/DOMAIN not configured");
}

#[test]
fn configuration_is_read_whole() {
    let config = duo_config(&env()).ok().unwrap();
    assert_eq!(config.client_id, ID);
    assert_eq!(config.client_secret, SECRET);
    assert_eq!(config.host, "api-1234abcd.duosecurity.com");
    assert_eq!(config.vault_url, "https://vault.example.com");
}

#[test]
fn values_are_checked_before_the_vault_is_looked_up() {
    let mut e = env();
    e.web_vault_url = None;
    assert_eq!(refused(duo_config(&e)), "WEB_VAULT_URL/DOMAIN not configured");
    e.duo_host = Some("example.com".to_string());
    assert_eq!(
        refused(duo_config(&e)),
        "Invalid Duo API host; expected api-*.duosecurity.com or api-*.duofederal.com"
    );
}
