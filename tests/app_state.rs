use hakuhyo::app_state::{AppEvent, AppState, Command, InputMode, Key};
use hakuhyo::json::parse_json;
use hakuhyo::models::{Channel, Guild, Message, User};

fn channel(id: &str, t: u8, name: &str, guild: Option<&str>) -> Channel {
    Channel {
        id: id.to_string(),
        channel_type: t,
        guild_id: guild.map(|g| g.to_string()),
        name: Some(name.to_string()),
        topic: None,
        recipients: None,
        recipient_ids: None,
    }
}

fn guild(id: &str, name: &str) -> Guild {
    Guild { id: id.to_string(), name: name.to_string(), icon: None, owner_id: "o".to_string() }
}

fn message(id: &str, channel: &str, content: &str) -> Message {
    Message {
        id: id.to_string(),
        channel_id: channel.to_string(),
        author: User { id: "u".to_string(), username: "ann".to_string(), discriminator: "0".to_string(), avatar: None },
        content: content.to_string(),
        timestamp: "t".to_string(),
        edited_timestamp: None,
        attachments: vec![],
    }
}

fn ids(app: &AppState, positions: &[usize]) -> Vec<String> {
    positions.iter().map(|p| app.discord.channels[*p].id.clone()).collect()
}

fn populated() -> AppState {
    let mut app = AppState::new();
    let cmd = app.update(AppEvent::GuildCreate {
        guild: guild("g1", "Rust Lovers"),
        channels: vec![
            channel("c1", 0, "zeta", Some("g1")),
            channel("c2", 0, "alpha", Some("g1")),
            channel("c3", 0, "Beta", Some("g1")),
        ],
    });
    assert_eq!(cmd, Command::LoadMessages("c3".to_string()));
    app
}

#[test]
fn channel_list_is_ordered_by_type_then_name() {
    let mut app = populated();
    app.update(AppEvent::GuildCreate { guild: guild("g2", "Other"), channels: vec![channel("v", 2, "aaa", Some("g2"))] });
    assert_eq!(ids(&app, &app.get_channel_list()), vec!["c3", "c2", "c1", "v"]);
}

#[test]
fn first_channel_prefers_favorites() {
    let mut app = AppState::new();
    app.load_favorites(vec!["c1".to_string()]);
    let cmd = app.update(AppEvent::GuildCreate {
        guild: guild("g1", "G"),
        channels: vec![channel("c1", 0, "zeta", None), channel("c2", 0, "alpha", None)],
    });
    assert_eq!(cmd, Command::LoadMessages("c1".to_string()));
    assert_eq!(app.ui.selected_channel.as_deref(), Some("c1"));
    assert_eq!(app.ui.selected_index, Some(0));
    let again = app.update(AppEvent::GuildCreate { guild: guild("g3", "H"), channels: vec![channel("c9", 0, "a", None)] });
    assert_eq!(again, Command::Nothing);
    assert_eq!(app.get_favorites(), &vec!["c1".to_string()]);
}

#[test]
fn favorites_toggle_and_navigation_wraps() {
    let mut app = populated();
    app.toggle_favorite();
    app.ui.selected_channel = Some("c1".to_string());
    app.toggle_favorite();
    assert_eq!(ids(&app, &app.get_favorite_channels()), vec!["c3", "c1"]);
    app.ui.selected_index = Some(0);
    assert_eq!(app.update(AppEvent::KeyPress(Key::Down)), Command::LoadMessages("c1".to_string()));
    assert_eq!(app.update(AppEvent::KeyPress(Key::Char('j'))), Command::LoadMessages("c3".to_string()));
    assert_eq!(app.update(AppEvent::KeyPress(Key::Up)), Command::LoadMessages("c1".to_string()));
    assert_eq!(app.ui.selected_index, Some(1));
    app.update(AppEvent::KeyPress(Key::Char('f')));
    assert_eq!(ids(&app, &app.get_favorite_channels()), vec!["c3"]);
}

#[test]
fn search_matches_names_and_guilds_case_aside() {
    let mut app = populated();
    app.update(AppEvent::GuildCreate { guild: guild("g2", "Other"), channels: vec![channel("d1", 0, "misc", Some("g2"))] });
    assert_eq!(ids(&app, &app.search_channels("BET")), vec!["c3"]);
    assert_eq!(ids(&app, &app.search_channels("lovers")), vec!["c3", "c2", "c1"]);
    assert!(app.search_channels("").is_empty());
    assert!(app.search_channels("nothing").is_empty());
}

#[test]
fn search_mode_keys() {
    let mut app = populated();
    assert_eq!(app.update(AppEvent::KeyPress(Key::Char('/'))), Command::Nothing);
    assert!(app.ui.search_mode);
    for c in "alp".chars() {
        app.update(AppEvent::KeyPress(Key::Char(c)));
    }
    app.update(AppEvent::KeyPress(Key::Backspace));
    assert_eq!(app.ui.search_buffer, "al");
    assert_eq!(app.update(AppEvent::KeyPress(Key::Down)), Command::LoadMessages("c2".to_string()));
    assert_eq!(app.update(AppEvent::KeyPress(Key::Enter)), Command::LoadMessages("c2".to_string()));
    assert!(!app.ui.search_mode);
    assert_eq!(app.ui.search_buffer, "");
}

#[test]
fn editing_sends_typed_text() {
    let mut app = populated();
    app.update(AppEvent::KeyPress(Key::Char('i')));
    assert_eq!(app.ui.input_mode, InputMode::Editing);
    assert_eq!(app.update(AppEvent::KeyPress(Key::Enter)), Command::Nothing);
    for c in "hey!".chars() {
        app.update(AppEvent::KeyPress(Key::Char(c)));
    }
    app.update(AppEvent::KeyPress(Key::Backspace));
    app.update(AppEvent::Input('?'));
    assert_eq!(
        app.update(AppEvent::KeyPress(Key::Enter)),
        Command::SendMessage { channel_id: "c3".to_string(), content: "hey?".to_string() }
    );
    assert_eq!(app.ui.input_buffer, "");
    app.update(AppEvent::KeyPress(Key::Esc));
    assert_eq!(app.ui.input_mode, InputMode::Normal);
}

#[test]
fn message_events_edit_the_selected_channel() {
    let mut app = populated();
    assert_eq!(app.get_current_messages(), None);
    app.update(AppEvent::MessagesLoaded { channel_id: "c3".to_string(), messages: vec![message("1", "c3", "a")] });
    app.update(AppEvent::MessageCreate(message("2", "c3", "b")));
    app.update(AppEvent::MessageCreate(message("3", "c3", "c")));
    app.update(AppEvent::MessageUpdate(message("2", "c3", "B")));
    app.update(AppEvent::MessageDelete { id: "1".to_string(), channel_id: "c3".to_string() });
    let shown: Vec<String> = app.get_current_messages().unwrap().iter().map(|m| m.content.clone()).collect();
    assert_eq!(shown, vec!["B", "c"]);
    assert_eq!(app.update(AppEvent::MessageSent(message("4", "c2", "x"))), Command::LoadMessages("c2".to_string()));
    assert_eq!(app.update(AppEvent::Tick), Command::Nothing);
    assert_eq!(app.update(AppEvent::Quit), Command::Nothing);
}

#[test]
fn ready_snapshot_fills_the_state() {
    let data = parse_json(
        r#"{"session_id":"s","user":{"id":"me","username":"me","discriminator":"0"},
            "users":[{"id":"u2","username":"bob","discriminator":"1"}],
            "guilds":[{"id":"g1","properties":{"name":"G","owner_id":"o"},"channels":[
                {"id":"c1","type":0,"name":"general"},{"id":"c2","type":2,"name":"voice"}]}],
            "private_channels":[{"id":"dm","type":1,"recipient_ids":["u2","missing"]}]}"#,
    )
    .unwrap();
    let mut app = AppState::new();
    let cmd = app.update(AppEvent::GatewayReady(data));
    assert!(app.discord.connected);
    assert_eq!(app.discord.current_user.as_ref().unwrap().id, "me");
    assert_eq!(app.discord.guilds.len(), 1);
    assert_eq!(ids(&app, &app.get_channel_list()), vec!["c1", "dm"]);
    let dm = app.discord.channels.iter().find(|c| c.id == "dm").unwrap();
    assert_eq!(dm.display_name(), "bob");
    assert_eq!(app.discord.channels[0].guild_id.as_deref(), Some("g1"));
    assert_eq!(cmd, Command::LoadMessages("c1".to_string()));
}

#[test]
fn default_state_is_empty() {
    let app = AppState::default();
    assert!(app.discord.channels.is_empty());
    assert!(!app.discord.connected);
    assert_eq!(app.ui.selected_channel, None);
    assert_eq!(app.ui.input_mode, InputMode::Normal);
}

#[test]
fn favorites_are_loaded_once_each() {
    let mut app = AppState::new();
    app.load_favorites(vec!["a".to_string(), "b".to_string(), "a".to_string()]);
    assert_eq!(app.get_favorites(), &vec!["a".to_string(), "b".to_string()]);
}

#[test]
fn stale_highlight_moves_to_an_existing_row() {
    let mut app = populated();
    app.load_favorites(vec!["c1".to_string(), "c2".to_string()]);
    app.ui.selected_index = Some(7);
    assert_eq!(app.update(AppEvent::KeyPress(Key::Up)), Command::LoadMessages("c1".to_string()));
    assert_eq!(app.ui.selected_index, Some(1));
    app.ui.selected_index = Some(7);
    assert_eq!(app.update(AppEvent::KeyPress(Key::Down)), Command::LoadMessages("c2".to_string()));
    assert_eq!(app.ui.selected_index, Some(0));
}
