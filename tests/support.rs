use hakuhyo::clock::{clock_text, format_timestamp};
use hakuhyo::config::Config;
use hakuhyo::endpoints::{current_user_url, gateway_endpoint, messages_url, post_message_url};
use hakuhyo::handshake::{encrypted_token_of, ticket_exchange_body};
use hakuhyo::json::parse_json;

#[test]
fn timestamps_show_the_shown_clock() {
    assert_eq!(format_timestamp("2024-01-01T00:00:00Z"), "09:00");
    assert_eq!(format_timestamp("2023-12-31T20:30:59+00:00"), "05:30");
    assert_eq!(format_timestamp("2024-05-05T12:07:00.123456+00:00"), "21:07");
    assert_eq!(format_timestamp("yesterday"), "??:??");
    assert_eq!(clock_text(0), "09:00");
    assert_eq!(clock_text(-32400), "00:00");
    assert_eq!(clock_text(-32401), "23:59");
    assert_eq!(clock_text(i64::MIN), clock_text(i64::MIN + 86400));
}

#[test]
fn settings_round_trip() {
    let c = Config { favorites: vec!["1".to_string(), "a\"b".to_string()] };
    let text = c.to_json_text();
    assert_eq!(text, r#"{"favorites":["1","a\"b"]}"#);
    assert_eq!(Config::from_json(&parse_json(&text).unwrap()), Some(c));
    assert_eq!(Config::default().to_json_text(), r#"{"favorites":[]}"#);
    assert_eq!(Config::from_json(&parse_json(r#"{"favorites":[1]}"#).unwrap()), None);
    assert_eq!(Config::from_json(&parse_json(r#"{}"#).unwrap()), None);
}

#[test]
fn endpoint_addresses() {
    assert_eq!(messages_url("42", 50), "https://discord.com/api/v10/channels/42/messages?limit=50");
    assert_eq!(messages_url("42", 200), "https://discord.com/api/v10/channels/42/messages?limit=100");
    assert_eq!(post_message_url("42"), "https://discord.com/api/v10/channels/42/messages");
    assert_eq!(gateway_endpoint(), "https://discord.com/api/v10/gateway");
    assert_eq!(current_user_url(), "https://discord.com/api/v10/users/@me");
}

#[test]
fn ticket_exchange_messages() {
    assert_eq!(ticket_exchange_body("T1"), r#"{"ticket":"T1"}"#);
    let answer = parse_json(r#"{"encrypted_token":"abc"}"#).unwrap();
    assert_eq!(encrypted_token_of(&answer).as_deref(), Some("abc"));
    assert_eq!(encrypted_token_of(&parse_json(r#"{"encrypted_token":1}"#).unwrap()), None);
}
