//! Reading what the vault submits.
use duo_auth::json::{JsonObject, JsonValue};
use duo_auth::submission::{parse_duo_two_factor_token, parse_members, parse_piped, parse_query};
use duo_auth::AppError;

/// The text of a request that was refused.
fn refused<T>(result: Result<T, AppError>) -> String {
    match result {
        Err(AppError::BadRequest(text)) => text,
        Err(error) => panic!("another error: {:?}", error),
        Ok(_) => panic!("not refused"),
    }
}

fn pair(code: &str, state: &str) -> (String, String) {
    (code.to_string(), state.to_string())
}

#[test]
fn a_pair_with_a_bar_is_read() {
    assert_eq!(parse_duo_two_factor_token("abc|def").unwrap(), pair("abc", "def"));
    assert_eq!(parse_duo_two_factor_token(" \n abc | d e|f \t").unwrap(), pair("abc", "d e|f"));
    assert_eq!(parse_piped("a|b"), Some(pair("a", "b")));
    assert_eq!(parse_piped("a| "), None);
    assert_eq!(parse_piped("|b"), None);
    assert_eq!(parse_piped("ab"), None);
}

#[test]
fn json_is_read() {
    assert_eq!(
        parse_duo_two_factor_token("{\"code\":\" c \",\"state\":\"s\"}").unwrap(),
        pair("c", "s")
    );
    assert_eq!(
        parse_duo_two_factor_token(" {\"Code\":\"c\",\"State\":\"s\",\"x\":[1]} ").unwrap(),
        pair("c", "s")
    );
}

#[test]
fn a_bar_in_json_makes_a_pair_of_it() {
    assert_eq!(
        parse_duo_two_factor_token("{\"code\":\"a|b\",\"state\":\"s\"}").unwrap(),
        pair("{\"code\":\"a", "b\",\"state\":\"s\"}")
    );
}

#[test]
fn a_member_in_lower_case_hides_the_other() {
    let mut object = JsonObject::new();
    object.set("Code", JsonValue::Text("C".to_string()));
    object.set("State", JsonValue::Text("S".to_string()));
    assert_eq!(parse_members(&object), Some(pair("C", "S")));
    object.set("code", JsonValue::Text("c".to_string()));
    assert_eq!(parse_members(&object), Some(pair("c", "S")));
    object.set("code", JsonValue::Int(1));
    assert_eq!(parse_members(&object), None);
    object.set("code", JsonValue::Text("  ".to_string()));
    assert_eq!(parse_members(&object), None);
    assert_eq!(parse_members(&JsonObject::new()), None);
}

#[test]
fn a_query_is_read() {
    assert_eq!(
        parse_duo_two_factor_token("code=a%2Bb+c&x&y=1&state=%20s%7Ct%20").unwrap(),
        pair("a+b+c", "s|t")
    );
    assert_eq!(parse_query("state=s&code=c").unwrap(), Some(pair("c", "s")));
    assert_eq!(parse_query("code=1&code=2&state=3&state=4").unwrap(), Some(pair("2", "4")));
    assert_eq!(parse_query("code=a=b&state=%zz%4").unwrap(), Some(pair("a=b", "%zz%4")));
    assert_eq!(parse_query("code=%20&state=s").unwrap(), None);
    assert_eq!(parse_query("code=1").unwrap(), None);
    // Both words are there, but not as names.
    assert_eq!(parse_query("xcode=1&state=2").unwrap(), None);
}

#[test]
fn a_value_that_is_no_text_is_refused() {
    assert_eq!(
        refused(parse_duo_two_factor_token("code=%FF&state=s")),
        "Invalid Duo token encoding"
    );
    assert_eq!(
        refused(parse_duo_two_factor_token("code=c&state=s&other=%C3")),
        "Invalid Duo token encoding"
    );
}

#[test]
fn other_forms_are_refused() {
    for token in ["", "  ", "abc", "|", "a|", "{}", "{\"code\":\"c\"}", "[1]", "code=c", "code=&state="] {
        assert_eq!(refused(parse_duo_two_factor_token(token)), "Invalid Duo token format");
    }
}

#[test]
fn blank_pairs_fall_through_to_the_other_forms() {
    assert_eq!(parse_duo_two_factor_token("code=c&state=s&z=|").unwrap(), pair("c", "s"));
    assert_eq!(refused(parse_duo_two_factor_token("|code=c&state=s")), "Invalid Duo token format");
    assert_eq!(
        parse_duo_two_factor_token("x=1&code=c&state=s&z|").unwrap(),
        pair("c", "s")
    );
}

#[test]
fn white_space_around_makes_no_difference() {
    for token in ["a|b", "code=c&state=s", "{\"code\":\"c\",\"state\":\"s\"}"] {
        let padded = format!("\u{3000}\t{} \r\n", token);
        assert_eq!(
            parse_duo_two_factor_token(&padded).unwrap(),
            parse_duo_two_factor_token(token).unwrap()
        );
    }
}

#[test]
fn every_form_carries_a_code_and_a_state() {
    for (code, state) in [("c", "s"), ("a b&c=d", "x.y.z"), ("\"\\{}\n\u{1}\u{e9}", "%41+\u{1f600}"), ("{", "}")] {
        let mut object = serde_json::Map::new();
        object.insert("code".to_string(), serde_json::Value::from(code));
        object.insert("state".to_string(), serde_json::Value::from(state));
        let forms = [
            format!("{}|{}", code, state),
            serde_json::Value::Object(object).to_string(),
            format!("code={}&state={}", urlencoding::encode(code), urlencoding::encode(state)),
        ];
        for form in forms {
            for (left, right) in [("", ""), (" \n", "\t"), ("\u{3000}", "\u{2028} ")] {
                let token = format!("{}{}{}", left, form, right);
                assert_eq!(parse_duo_two_factor_token(&token).unwrap(), pair(code, state));
            }
        }
    }
}
