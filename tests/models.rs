use hakuhyo::json::{decimal_text, parse_json, quote, Json};
use hakuhyo::models::{
    Attachment, Channel, CreateMessagePayload, GatewayResponse, Guild, HelloData, IdentifyData,
    IdentifyProperties, Message, User,
};

fn attachment(content_type: Option<&str>) -> Attachment {
    Attachment {
        id: "1".to_string(),
        filename: "f.bin".to_string(),
        content_type: content_type.map(|s| s.to_string()),
        size: None,
        url: None,
        width: None,
        height: None,
    }
}

fn channel(t: u8, name: Option<&str>, recipients: Option<Vec<User>>) -> Channel {
    Channel {
        id: "c".to_string(),
        channel_type: t,
        guild_id: None,
        name: name.map(|s| s.to_string()),
        topic: None,
        recipients,
        recipient_ids: None,
    }
}

fn user(name: &str) -> User {
    User { id: "u".to_string(), username: name.to_string(), discriminator: "0".to_string(), avatar: None }
}

#[test]
fn attachment_display_text_by_media_type() {
    assert_eq!(attachment(Some("image/png")).display_text(), "[Image: f.bin]");
    assert_eq!(attachment(Some("video/mp4")).display_text(), "[Video: f.bin]");
    assert_eq!(attachment(Some("audio/ogg")).display_text(), "[Audio: f.bin]");
    assert_eq!(attachment(Some("application/pdf")).display_text(), "[File: f.bin]");
    assert_eq!(attachment(Some("image")).display_text(), "[File: f.bin]");
    assert_eq!(attachment(None).display_text(), "[File: f.bin]");
}

#[test]
fn channel_display_name() {
    assert_eq!(channel(0, Some("general"), None).display_name(), "general");
    assert_eq!(channel(1, None, Some(vec![user("ann"), user("bob")])).display_name(), "ann");
    assert_eq!(channel(1, None, Some(vec![])).display_name(), "Unknown");
    assert_eq!(channel(1, None, None).display_name(), "Unknown");
}

#[test]
fn channel_type_prefix_and_text_based() {
    let expected = [
        (0u8, "# ", true),
        (1, "@ ", true),
        (2, "\u{266a} ", false),
        (5, "! ", true),
        (10, "\u{a7} ", true),
        (11, "\u{bb} ", true),
        (12, "\u{b7} ", true),
        (15, "\u{25c6} ", true),
        (16, "\u{25a3} ", false),
        (3, "? ", false),
        (255, "? ", false),
    ];
    for (t, prefix, text) in expected {
        let c = channel(t, None, None);
        assert_eq!(c.type_prefix(), prefix);
        assert_eq!(c.is_text_based(), text);
    }
}

#[test]
fn records_decode_like_their_schema() {
    let j = parse_json(r#"{"id":"1","username":"ann","discriminator":"0001","avatar":"h"}"#).unwrap();
    assert_eq!(User::from_json(&j).unwrap().avatar.as_deref(), Some("h"));
    let j = parse_json(r#"{"id":"1","username":"ann","discriminator":"0001","avatar":3}"#).unwrap();
    assert_eq!(User::from_json(&j), None);
    let j = parse_json(r#"{"id":"c","type":1,"recipient_ids":["a","b"],"recipients":[{"id":"a","username":"x","discriminator":"1"}]}"#).unwrap();
    let c = Channel::from_json(&j).unwrap();
    assert_eq!(c.recipient_ids, Some(vec!["a".to_string(), "b".to_string()]));
    assert_eq!(c.recipients.unwrap()[0].username, "x");
    let j = parse_json(r#"{"id":"c","type":256}"#).unwrap();
    assert_eq!(Channel::from_json(&j), None);
    let j = parse_json(r#"{"id":"a","filename":"f","width":4294967296}"#).unwrap();
    assert_eq!(Attachment::from_json(&j), None);
    let j = parse_json(r#"{"id":"g","properties":{"name":"G","owner_id":"o","icon":"i"}}"#).unwrap();
    let g = Guild::from_ready_entry(&j).unwrap();
    assert_eq!((g.name.as_str(), g.icon.as_deref()), ("G", Some("i")));
    let j = parse_json(r#"{"url":"wss://gateway.discord.gg"}"#).unwrap();
    assert_eq!(GatewayResponse::from_json(&j).unwrap().url, "wss://gateway.discord.gg");
    let j = parse_json(r#"{"heartbeat_interval":45000}"#).unwrap();
    assert_eq!(HelloData::from_json(&j).unwrap().heartbeat_interval, 45000);
    let j = parse_json(r#"{"id":"m","channel_id":"c","author":{"id":"1","username":"a","discriminator":"0"},"content":"","timestamp":"t","attachments":[{"id":"x"}]}"#).unwrap();
    assert_eq!(Message::from_json(&j), None);
}

#[test]
fn bodies_are_written_as_json() {
    let p = CreateMessagePayload { content: "say \"hi\"\n".to_string() };
    let v: serde_json::Value = serde_json::from_str(&p.to_json_text()).unwrap();
    assert_eq!(v["content"], "say \"hi\"\n");
    let d = IdentifyData {
        token: "t".to_string(),
        intents: 513,
        properties: IdentifyProperties { os: "linux".to_string(), browser: "b".to_string(), device: "d".to_string() },
    };
    assert_eq!(
        d.to_json_text(),
        r#"{"token":"t","intents":513,"properties":{"os":"linux","browser":"b","device":"d"}}"#
    );
}

#[test]
fn text_helpers() {
    assert_eq!(quote("a\"b\\c"), r#""a\"b\\c""#);
    assert_eq!(quote("\u{1}\u{8}\t\n\u{c}\r\u{1f}/é"), r#""\u0001\b\t\n\f\r\u001f/é""#);
    assert_eq!(decimal_text(10), "10");
    assert_eq!(decimal_text(907), "907");
    assert_eq!(decimal_text(0), "0");
    assert_eq!(decimal_text(18446744073709551615), "18446744073709551615");
}

#[test]
fn parser_keeps_integers_and_marks_other_numbers() {
    let j = parse_json(r#"[1,-2,1.5,1e3,18446744073709551616,null,true,"s",{}]"#).unwrap();
    assert_eq!(
        j,
        Json::Array(vec![
            Json::UInt(1),
            Json::NegInt(-2),
            Json::Float,
            Json::Float,
            Json::Float,
            Json::Null,
            Json::Bool(true),
            Json::Str("s".to_string()),
            Json::Object(vec![]),
        ])
    );
    assert_eq!(parse_json("{} trailing"), None);
    let deep = "[".repeat(200) + &"]".repeat(200);
    assert_eq!(parse_json(&deep), None);
}
