use backend::json::{json_quote, user_to_json, users_response_body, users_to_json};
use backend::users::{get_users, User};

#[test]
fn users_list_has_two_fixed_records() {
    let users = get_users();
    assert_eq!(users.len(), 2);
    assert_eq!(users[0].id, "1");
    assert_eq!(users[0].name, "Alice");
    assert_eq!(users[0].email, "alice@example.com");
    assert_eq!(users[1].id, "2");
    assert_eq!(users[1].name, "Bob");
    assert_eq!(users[1].email, "bob@example.com");
}

#[test]
fn response_body_is_exact() {
    assert_eq!(
        users_response_body(),
        "[{\"id\":\"1\",\"name\":\"Alice\",\"email\":\"alice@example.com\"},{\"id\":\"2\",\"name\":\"Bob\",\"email\":\"bob@example.com\"}]"
    );
}

#[test]
fn response_body_is_idempotent() {
    assert_eq!(users_response_body(), users_response_body());
}

#[test]
fn quoting_plain_strings() {
    assert_eq!(json_quote("plain"), "\"plain\"");
    assert_eq!(json_quote(""), "\"\"");
}

#[test]
fn quoting_escapes_quote_and_backslash() {
    assert_eq!(json_quote("a\"b"), "\"a\\\"b\"");
    assert_eq!(json_quote("a\\b"), "\"a\\\\b\"");
}

#[test]
fn quoting_escapes_short_controls() {
    assert_eq!(json_quote("a\nb\tc\rd"), "\"a\\nb\\tc\\rd\"");
    assert_eq!(json_quote("\u{8}\u{c}"), "\"\\b\\f\"");
}

#[test]
fn quoting_escapes_other_controls_as_hex() {
    assert_eq!(json_quote("\u{0}\u{1}\u{1f}"), "\"\\u0000\\u0001\\u001f\"");
}

#[test]
fn quoting_keeps_non_ascii() {
    assert_eq!(json_quote("h\u{e9}llo"), "\"h\u{e9}llo\"");
}

#[test]
fn user_object_is_exact() {
    let u = User {
        id: String::from("x"),
        name: String::from("N"),
        email: String::from("e@x"),
    };
    assert_eq!(user_to_json(&u), "{\"id\":\"x\",\"name\":\"N\",\"email\":\"e@x\"}");
}

#[test]
fn array_rendering_for_small_lists() {
    let empty: Vec<User> = Vec::new();
    assert_eq!(users_to_json(&empty), "[]");
    let one = vec![User {
        id: String::from("9"),
        name: String::from("Z"),
        email: String::from("z@z"),
    }];
    assert_eq!(users_to_json(&one), "[{\"id\":\"9\",\"name\":\"Z\",\"email\":\"z@z\"}]");
}
