//! The redirect to Duo.
use duo_auth::auth_url::{build_redirect, generate_auth_url_at};
use duo_auth::config::duo_config;
use duo_auth::exchange::begin_auth_response;
use duo_auth::jwt::verify_jwt_hs512;
use duo_auth::submission::parse_query;
use duo_auth::{generate_auth_url, AppError, Device, Env, User};

fn env() -> Env {
    Env {
        duo_client_id: Some("DIABCDEFGHIJKLMNOPQR".to_string()),
        duo_ikey: None,
        secret_duo_client_secret: Some("abcdefghijklmnopqrstuvwxyz0123456789ABCD".to_string()),
        secret_duo_skey: None,
        var_duo_client_secret: None,
        var_duo_skey: None,
        duo_host: Some("api-1234abcd.duosecurity.com".to_string()),
        web_vault_url: Some("https://vault.example.com/".to_string()),
        domain: None,
        jwt_secret: Ok("state-secret".to_string()),
    }
}

fn user() -> User {
    User { id: "u1".to_string(), email: "User@example.com".to_string() }
}

fn device() -> Device {
    Device { identifier: "dev-1".to_string() }
}

/// The text of a request that was refused.
fn refused<T>(result: Result<T, AppError>) -> String {
    match result {
        Err(AppError::BadRequest(text)) => text,
        Err(error) => panic!("another error: {:?}", error),
        Ok(_) => panic!("not refused"),
    }
}

const NOW: i64 = 1700000000;

#[test]
fn a_redirect_is_written() {
    let config = duo_config(&env()).ok().unwrap();
    assert_eq!(
        build_redirect(&config, "st/1", "rq=2"),
        "https://vault.example.com/duo-redirect.html?duoFramelessUrl=https%3A%2F%2Fapi-1234abcd.duosecurity.com%2Foauth%2Fv1%2Fauthorize%3Fresponse_type%3Dcode%26client_id%3DDIABCDEFGHIJKLMNOPQR%26redirect_uri%3Dhttps%253A%252F%252Fvault.example.com%252Fduo-redirect.html%253Fclient%253Dweb%26scope%3Dopenid%26state%3Dst%252F1%26request%3Drq%253D2"
    );
}

#[test]
fn the_whole_redirect_is_written() {
    assert_eq!(
        generate_auth_url_at(&env(), &user(), &device(), NOW, "j1", NOW + 5).unwrap(),
        "https://vault.example.com/duo-redirect.html?duoFramelessUrl=https%3A%2F%2Fapi-1234abcd.duosecurity.com%2Foauth%2Fv1%2Fauthorize%3Fresponse_type%3Dcode%26client_id%3DDIABCDEFGHIJKLMNOPQR%26redirect_uri%3Dhttps%253A%252F%252Fvault.example.com%252Fduo-redirect.html%253Fclient%253Dweb%26scope%3Dopenid%26state%3DeyJhbGciOiJIUzI1NiIsInR5cCI6IkpXVCJ9.eyJkZXZpY2VfaWRlbnRpZmllciI6ImRldi0xIiwiZW1haWwiOiJVc2VyQGV4YW1wbGUuY29tIiwiZXhwIjoxNzAwMDAwMzAwLCJqdGkiOiJqMSIsInVzZXJfaWQiOiJ1MSJ9.f7gvgGhWGvQehNoXjzocHXhKrnlh60Ir-63tdnci0uE%26request%3DeyJhbGciOiJIUzUxMiIsInR5cCI6IkpXVCJ9.eyJhdWQiOiJodHRwczovL2FwaS0xMjM0YWJjZC5kdW9zZWN1cml0eS5jb20iLCJjbGllbnRfaWQiOiJESUFCQ0RFRkdISUpLTE1OT1BRUiIsImR1b191bmFtZSI6IlVzZXJAZXhhbXBsZS5jb20iLCJleHAiOjE3MDAwMDAzMDUsImlzcyI6IkRJQUJDREVGR0hJSktMTU5PUFFSIiwicmVkaXJlY3RfdXJpIjoiaHR0cHM6Ly92YXVsdC5leGFtcGxlLmNvbS9kdW8tcmVkaXJlY3QuaHRtbD9jbGllbnQ9d2ViIiwicmVzcG9uc2VfdHlwZSI6ImNvZGUiLCJzY29wZSI6Im9wZW5pZCIsInN0YXRlIjoiZXlKaGJHY2lPaUpJVXpJMU5pSXNJblI1Y0NJNklrcFhWQ0o5LmV5SmtaWFpwWTJWZmFXUmxiblJwWm1sbGNpSTZJbVJsZGkweElpd2laVzFoYVd3aU9pSlZjMlZ5UUdWNFlXMXdiR1V1WTI5dElpd2laWGh3SWpveE56QXdNREF3TXpBd0xDSnFkR2tpT2lKcU1TSXNJblZ6WlhKZmFXUWlPaUoxTVNKOS5mN2d2Z0doV0d2UWVoTm9YanpvY0hYaEtybmxoNjBJci02M3RkbmNpMHVFIiwidXNlX2R1b19jb2RlX2F0dHJpYnV0ZSI6ZmFsc2V9.xxZRT15YEp7tOWhtzgC6gU0kXA3mjLgAmPMUTwe6Jb-n08PLqpvrqhcgDS3stuEl_0UBF_3tEbnGy-VSOiXDSQ"
    );
}

#[test]
fn faults_of_the_configuration_come_first() {
    let mut e = env();
    e.jwt_secret = Err("no such secret".to_string());
    assert!(matches!(
        generate_auth_url_at(&e, &user(), &device(), NOW, "j1", NOW),
        Err(AppError::Worker(text)) if text == "no such secret"
    ));
    e.duo_client_id = Some("short".to_string());
    assert_eq!(
        refused(generate_auth_url(&e, &user(), &device())),
        "Invalid Duo client id length; expected 20 characters"
    );
}

/// The value of a parameter, where every other one is in order.
fn parameter(url: &str, name: &str) -> String {
    let start = url.find(&format!("{}=", name)).unwrap() + name.len() + 1;
    let value = url[start..].split('&').next().unwrap();
    parse_query(&format!("code={}&state=x", value)).unwrap().unwrap().0
}

#[test]
fn a_redirect_of_the_moment_leads_back_in() {
    let url = generate_auth_url(&env(), &user(), &device()).unwrap();
    assert!(url.starts_with("https://vault.example.com/duo-redirect.html?duoFramelessUrl="));
    let target = parameter(&url, "duoFramelessUrl");
    assert!(target.starts_with(
        "https://api-1234abcd.duosecurity.com/oauth/v1/authorize?response_type=code&client_id=DIABCDEFGHIJKLMNOPQR&"
    ));
    let state = parameter(&target, "state");
    let request = parameter(&target, "request");
    let claims =
        verify_jwt_hs512("abcdefghijklmnopqrstuvwxyz0123456789ABCD", &request).unwrap();
    assert_eq!(claims.get_text("state"), Some(state.as_str()));
    assert_eq!(claims.get_text("duo_uname"), Some("User@example.com"));
    assert_eq!(
        parameter(&target, "redirect_uri"),
        "https://vault.example.com/duo-redirect.html?client=web"
    );
    let submitted = format!("code-1|{}", state);
    assert!(begin_auth_response(&env(), &user(), &device(), &submitted).is_ok());
    let stranger = User { id: "u2".to_string(), email: "User@example.com".to_string() };
    assert_eq!(
        refused(begin_auth_response(&env(), &stranger, &device(), &submitted)),
        "Duo state user mismatch"
    );
}
