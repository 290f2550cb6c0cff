use minelaunch::routing::microsoft::auth_code_from_query;
use minelaunch::routing::{parse_query, route, Route};

#[test]
fn query_parameters_with_and_without_values() {
    let q = parse_query("code=abc&state=&flag");
    assert_eq!(q.get("code"), Some(Some("abc".to_string())));
    assert_eq!(q.get("state"), Some(Some("".to_string())));
    assert_eq!(q.get("flag"), Some(None));
    assert_eq!(q.get("missing"), None);
}

#[test]
fn later_parameters_override_earlier_ones() {
    let q = parse_query("a=1&b=2&a=3");
    assert_eq!(q.get("a"), Some(Some("3".to_string())));
    assert_eq!(q.get("b"), Some(Some("2".to_string())));
}

#[test]
fn parameters_without_a_name_are_read_from_the_first_word() {
    // the pattern finds its first word anywhere in the piece
    let q = parse_query("=x&&-");
    assert_eq!(q.get("x"), Some(None));
    assert_eq!(q.get(""), None);
}

#[test]
fn auth_code_is_read_from_the_redirect() {
    assert_eq!(auth_code_from_query("code=M.R3_BAY.abc&state="), Some("M.R3_BAY.abc".to_string()));
    assert_eq!(auth_code_from_query("error=access_denied"), None);
    assert_eq!(auth_code_from_query("code"), None);
}

#[test]
fn routes_by_path() {
    assert_eq!(route("/microsoft-auth"), Route::MicrosoftAuth);
    assert_eq!(route("/"), Route::NotFound);
    assert_eq!(route("/microsoft-auth/"), Route::NotFound);
}
