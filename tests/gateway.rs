use hakuhyo::gateway::{
    gateway_url, handle_payload, heartbeat_frame, hello_step, GatewayClient, GatewayError, GatewayEvent,
    HelloStep, Identity, SessionContext, SessionPhase, SESSION_INTENTS,
};
use hakuhyo::json::{parse_json, Json};

fn frame(text: &str) -> Json {
    parse_json(text).expect("test frame is JSON")
}

fn connected_client() -> GatewayClient {
    let mut c = GatewayClient::new("tok".to_string(), Identity::UserAccount);
    assert_eq!(c.wait_for_hello(r#"{"op":10,"d":{"heartbeat_interval":41250}}"#), HelloStep::Interval(41250));
    assert!(c.send_identify().is_some());
    c
}

#[test]
fn hello_returns_carried_interval() {
    let mut c = GatewayClient::new("tok".to_string(), Identity::UserAccount);
    assert_eq!(c.wait_for_hello(r#"{"op":11}"#), HelloStep::Pending);
    assert_eq!(c.phase, SessionPhase::AwaitingHello);
    assert_eq!(c.wait_for_hello(r#"{"op":10,"d":{"heartbeat_interval":41250,"_trace":["x"]}}"#), HelloStep::Interval(41250));
    assert_eq!(c.phase, SessionPhase::Identifying);
    assert_eq!(c.heartbeat_interval, Some(41250));
    for n in [0u64, 1, 45000, u64::MAX] {
        let text = format!(r#"{{"op":10,"d":{{"heartbeat_interval":{}}}}}"#, n);
        assert_eq!(hello_step(parse_json(&text)), HelloStep::Interval(n));
    }
}

#[test]
fn hello_failures() {
    assert_eq!(hello_step(None), HelloStep::Failed(GatewayError::MalformedFrame));
    assert_eq!(hello_step(Some(frame(r#"{"d":{}}"#))), HelloStep::Failed(GatewayError::MalformedFrame));
    assert_eq!(hello_step(Some(frame(r#"{"op":10}"#))), HelloStep::Failed(GatewayError::MissingHelloData));
    assert_eq!(hello_step(Some(frame(r#"{"op":10,"d":null}"#))), HelloStep::Failed(GatewayError::MissingHelloData));
    assert_eq!(
        hello_step(Some(frame(r#"{"op":10,"d":{"heartbeat_interval":"41250"}}"#))),
        HelloStep::Failed(GatewayError::BadHelloData)
    );
    assert_eq!(
        hello_step(Some(frame(r#"{"op":10,"d":{"heartbeat_interval":-1}}"#))),
        HelloStep::Failed(GatewayError::BadHelloData)
    );
    let mut c = GatewayClient::new("tok".to_string(), Identity::UserAccount);
    assert_eq!(c.wait_for_hello("not json"), HelloStep::Failed(GatewayError::MalformedFrame));
    assert_eq!(c.phase, SessionPhase::Closed);
}

#[test]
fn identify_is_sent_once_after_hello() {
    let mut c = GatewayClient::new("tok\"en".to_string(), Identity::UserAccount);
    assert_eq!(c.intents, SESSION_INTENTS);
    assert_eq!(c.send_identify(), None);
    c.wait_for_hello(r#"{"op":10,"d":{"heartbeat_interval":5}}"#);
    let text = c.send_identify().expect("identify after hello");
    assert_eq!(c.phase, SessionPhase::Connected);
    assert_eq!(c.send_identify(), None);
    let v: serde_json::Value = serde_json::from_str(&text).unwrap();
    assert_eq!(v["op"], 2);
    assert_eq!(v["d"]["token"], "tok\"en");
    assert_eq!(v["d"]["capabilities"], 16381);
    assert_eq!(v["d"]["properties"]["os"], "Mac OS X");
    assert_eq!(v["d"]["client_state"]["user_settings_version"], -1);
}

#[test]
fn service_identify_names_intents() {
    let mut c = GatewayClient::new("bot-token".to_string(), Identity::Service);
    c.wait_for_hello(r#"{"op":10,"d":{"heartbeat_interval":5}}"#);
    let text = c.send_identify().unwrap();
    let v: serde_json::Value = serde_json::from_str(&text).unwrap();
    assert_eq!(v["op"], 2);
    assert_eq!(v["d"]["token"], "bot-token");
    assert_eq!(v["d"]["intents"], 37377);
    assert_eq!(v["d"]["properties"]["os"], "linux");
    assert_eq!(v["d"]["properties"]["device"], "hakuhyo");
}

#[test]
fn heartbeat_round_trip() {
    assert_eq!(heartbeat_frame(None), r#"{"op":1,"d":null}"#);
    assert_eq!(heartbeat_frame(Some(42)), r#"{"op":1,"d":42}"#);
    for seq in [None, Some(0u64), Some(7), Some(u64::MAX)] {
        let v: serde_json::Value = serde_json::from_str(&heartbeat_frame(seq)).unwrap();
        let obj = v.as_object().unwrap();
        assert_eq!(obj.len(), 2);
        assert_eq!(v["op"], 1);
        match seq {
            Some(n) => assert_eq!(v["d"].as_u64(), Some(n)),
            None => assert!(v["d"].is_null()),
        }
    }
    let mut c = connected_client();
    assert_eq!(c.heartbeat(), r#"{"op":1,"d":null}"#);
    c.handle_message(r#"{"op":0,"s":9,"t":"TYPING_START","d":{}}"#);
    assert_eq!(c.heartbeat(), r#"{"op":1,"d":9}"#);
}

#[test]
fn sequence_tracks_latest_and_maximum() {
    let mut ctx = SessionContext { last_sequence: None, session_id: None };
    let frames = [
        r#"{"op":0,"s":1,"t":"X","d":{}}"#,
        r#"{"op":11}"#,
        r#"{"op":0,"s":2,"t":"Y","d":null}"#,
        r#"{"op":0,"s":2,"t":"Y","d":{}}"#,
        r#"{"op":0,"s":5,"t":"MESSAGE_DELETE","d":{"id":"m","channel_id":"c"}}"#,
        r#"{"op":11,"s":null}"#,
    ];
    let mut max = None;
    for f in frames {
        let j = frame(f);
        handle_payload(&mut ctx, j);
        let v: serde_json::Value = serde_json::from_str(f).unwrap();
        if let Some(s) = v.get("s").and_then(|s| s.as_u64()) {
            max = Some(max.map_or(s, |m: u64| m.max(s)));
        }
        assert_eq!(ctx.last_sequence, max);
    }
    assert_eq!(ctx.last_sequence, Some(5));
}

#[test]
fn ignored_frames_change_nothing() {
    let mut c = connected_client();
    c.handle_message(r#"{"op":0,"s":3,"t":"READY","d":{"session_id":"abc","user":{"id":"1","username":"u","discriminator":"0"}}}"#);
    let seq = c.context.last_sequence;
    let sid = c.context.session_id.clone();
    assert_eq!(sid.as_deref(), Some("abc"));
    assert_eq!(c.handle_message(r#"{"op":11}"#), None);
    assert_eq!(c.handle_message(r#"{"op":11,"d":null}"#), None);
    assert_eq!(c.handle_message(r#"{"op":0,"t":"PRESENCE_UPDATE","d":{"user":{"id":"9"}}}"#), None);
    assert_eq!(c.context.last_sequence, seq);
    assert_eq!(c.context.session_id, sid);
}

#[test]
fn malformed_dispatch_is_dropped_and_session_continues() {
    let mut c = connected_client();
    assert_eq!(c.handle_message(r#"{"op":0,"t":"MESSAGE_CREATE","d":{"channel_id":"1"}}"#), None);
    assert_eq!(c.handle_message("{broken"), None);
    let ev = c.handle_message(
        r#"{"op":0,"s":4,"t":"MESSAGE_CREATE","d":{"id":"10","channel_id":"1","author":{"id":"2","username":"ann","discriminator":"0001"},"content":"hi","timestamp":"2024-01-01T00:00:00Z"}}"#,
    );
    match ev {
        Some(GatewayEvent::MessageCreate(m)) => {
            assert_eq!(m.id, "10");
            assert_eq!(m.channel_id, "1");
            assert_eq!(m.author.username, "ann");
            assert_eq!(m.content, "hi");
            assert!(m.attachments.is_empty());
            assert_eq!(m.edited_timestamp, None);
        }
        other => panic!("unexpected {:?}", other),
    }
    assert_eq!(c.context.last_sequence, Some(4));
    assert_eq!(c.phase, SessionPhase::Connected);
}

#[test]
fn ready_sets_session_id_once() {
    let mut ctx = SessionContext { last_sequence: None, session_id: None };
    let ready = |sid: &str| {
        frame(&format!(
            r#"{{"op":0,"s":1,"t":"READY","d":{{"session_id":"{}","user":{{"id":"1","username":"u","discriminator":"0"}},"guilds":[]}}}}"#,
            sid
        ))
    };
    let ev = handle_payload(&mut ctx, ready("first"));
    assert!(matches!(ev, Some(GatewayEvent::Ready(Json::Object(_)))));
    assert_eq!(ctx.session_id.as_deref(), Some("first"));
    handle_payload(&mut ctx, ready("second"));
    assert_eq!(ctx.session_id.as_deref(), Some("first"));
    let bad = frame(r#"{"op":0,"t":"READY","d":{"session_id":"x","user":{"id":"1"}}}"#);
    let mut fresh = SessionContext { last_sequence: None, session_id: None };
    assert_eq!(handle_payload(&mut fresh, bad), None);
    assert_eq!(fresh.session_id, None);
}

#[test]
fn guild_create_keeps_text_channels() {
    let mut ctx = SessionContext { last_sequence: None, session_id: None };
    let j = frame(
        r#"{"op":0,"t":"GUILD_CREATE","d":{"id":"g1","name":"Guild","owner_id":"o","icon":7,"channels":[
            {"id":"c1","type":0,"name":"general"},
            {"id":"c2","type":2,"name":"voice"},
            {"id":"c3","type":0,"guild_id":"other","name":"x"},
            {"id":5,"type":0},
            {"id":"c4","type":0,"name":null}
        ]}}"#,
    );
    match handle_payload(&mut ctx, j) {
        Some(GatewayEvent::GuildCreate { guild, channels }) => {
            assert_eq!(guild.id, "g1");
            assert_eq!(guild.name, "Guild");
            assert_eq!(guild.icon, None);
            assert_eq!(channels.len(), 3);
            assert_eq!(channels[0].id, "c1");
            assert_eq!(channels[0].guild_id.as_deref(), Some("g1"));
            assert_eq!(channels[1].guild_id.as_deref(), Some("other"));
            assert_eq!(channels[2].id, "c4");
            assert_eq!(channels[2].name, None);
        }
        other => panic!("unexpected {:?}", other),
    }
    let no_channels = frame(r#"{"op":0,"t":"GUILD_CREATE","d":{"id":"g1","name":"Guild","owner_id":"o"}}"#);
    assert_eq!(handle_payload(&mut ctx, no_channels), None);
}

#[test]
fn message_update_and_delete() {
    let mut ctx = SessionContext { last_sequence: None, session_id: None };
    let upd = frame(
        r#"{"op":0,"t":"MESSAGE_UPDATE","d":{"id":"10","channel_id":"1","author":{"id":"2","username":"ann","discriminator":"0001","avatar":null},"content":"edited","timestamp":"t","edited_timestamp":"t2","attachments":[{"id":"a","filename":"f.png","content_type":"image/png","size":12,"width":3}]}}"#,
    );
    match handle_payload(&mut ctx, upd) {
        Some(GatewayEvent::MessageUpdate(m)) => {
            assert_eq!(m.content, "edited");
            assert_eq!(m.edited_timestamp.as_deref(), Some("t2"));
            assert_eq!(m.attachments.len(), 1);
            assert_eq!(m.attachments[0].size, Some(12));
            assert_eq!(m.attachments[0].width, Some(3));
            assert_eq!(m.attachments[0].height, None);
        }
        other => panic!("unexpected {:?}", other),
    }
    let del = frame(r#"{"op":0,"t":"MESSAGE_DELETE","d":{"id":"10","channel_id":"1"}}"#);
    assert_eq!(
        handle_payload(&mut ctx, del),
        Some(GatewayEvent::MessageDelete { id: "10".to_string(), channel_id: "1".to_string() })
    );
    let del_bad = frame(r#"{"op":0,"t":"MESSAGE_DELETE","d":{"id":"10"}}"#);
    assert_eq!(handle_payload(&mut ctx, del_bad), None);
    let bad_attachments = frame(
        r#"{"op":0,"t":"MESSAGE_CREATE","d":{"id":"10","channel_id":"1","author":{"id":"2","username":"ann","discriminator":"0001"},"content":"x","timestamp":"t","attachments":null}}"#,
    );
    assert_eq!(handle_payload(&mut ctx, bad_attachments), None);
}

#[test]
fn url_names_version_and_encoding() {
    assert_eq!(gateway_url("wss://gateway.discord.gg"), "wss://gateway.discord.gg/?v=10&encoding=json");
}

#[test]
fn close_ends_session() {
    let mut c = connected_client();
    c.close();
    assert_eq!(c.phase, SessionPhase::Closed);
}
