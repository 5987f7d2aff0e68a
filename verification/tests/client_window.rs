use chat::chat_app::ChatApp;
use chat::models::{AppState, NetEvent, SelectedChat};
use chat::shared::{ChatEvent, ClientMessage};

fn s(x: &str) -> String {
    x.to_string()
}

fn message(user: &str, text: &str, recipient: Option<&str>) -> ChatEvent {
    ChatEvent::Message { user: s(user), text: s(text), recipient: recipient.map(s) }
}

fn connected_window(name: &str) -> ChatApp {
    let mut app = ChatApp::new();
    app.set_username_input(s(name));
    app.submit_login();
    app.handle_net_event(NetEvent::Connected);
    app
}

#[test]
fn new_window_is_on_the_login_screen() {
    let app = ChatApp::new();
    assert_eq!(app.state(), AppState::Login);
    assert!(!app.is_connected());
    assert!(app.history().is_empty());
    assert!(app.users().is_empty());
    assert!(*app.selected_chat() == SelectedChat::Global);
}

#[test]
fn public_messages_show_in_the_public_conversation_only() {
    let event = message("bob", "hi", None);
    assert!(ChatApp::should_show(&event, &SelectedChat::Global, "alice"));
    assert!(!ChatApp::should_show(&event, &SelectedChat::Private(s("bob")), "alice"));
}

#[test]
fn private_messages_show_in_their_conversation_only() {
    let to_me = message("bob", "psst", Some("alice"));
    let from_me = message("alice", "hey", Some("bob"));
    let others = message("bob", "x", Some("carol"));
    let with_bob = SelectedChat::Private(s("bob"));
    assert!(ChatApp::should_show(&to_me, &with_bob, "alice"));
    assert!(ChatApp::should_show(&from_me, &with_bob, "alice"));
    assert!(!ChatApp::should_show(&others, &with_bob, "alice"));
    assert!(!ChatApp::should_show(&to_me, &SelectedChat::Global, "alice"));
    assert!(!ChatApp::should_show(&to_me, &SelectedChat::Private(s("carol")), "alice"));
}

#[test]
fn arrivals_show_in_public_and_user_lists_nowhere() {
    let joined = ChatEvent::UserJoined(s("bob"));
    let left = ChatEvent::UserLeft(s("bob"));
    let list = ChatEvent::SyncUsers(vec![s("bob")]);
    assert!(ChatApp::should_show(&joined, &SelectedChat::Global, "alice"));
    assert!(ChatApp::should_show(&left, &SelectedChat::Global, "alice"));
    assert!(!ChatApp::should_show(&joined, &SelectedChat::Private(s("bob")), "alice"));
    assert!(!ChatApp::should_show(&list, &SelectedChat::Global, "alice"));
}

#[test]
fn events_format_as_lines() {
    let g = SelectedChat::Global;
    assert_eq!(ChatApp::format_message(&message("bob", "hi", None), &g, "alice"), "bob: hi");
    assert_eq!(
        ChatApp::format_message(&ChatEvent::UserJoined(s("bob")), &g, "alice"),
        "bob присоединился к чату"
    );
    assert_eq!(ChatApp::format_message(&ChatEvent::UserLeft(s("bob")), &g, "alice"), "bob покинул чат");
    assert_eq!(ChatApp::format_message(&ChatEvent::SyncUsers(vec![s("bob")]), &g, "alice"), "");
}

#[test]
fn login_trims_the_name_and_opens_the_chat() {
    let mut app = ChatApp::new();
    app.set_username_input(s("  alice \t"));
    let name = app.submit_login();
    assert_eq!(name, Some(s("alice")));
    assert_eq!(app.username().as_str(), "alice");
    assert_eq!(app.state(), AppState::Chat);
    assert_eq!(*app.history(), vec![message("⚙ Система", "Подключение к серверу...", None)]);
}

#[test]
fn login_with_a_blank_name_does_nothing() {
    let mut app = ChatApp::new();
    app.set_username_input(s(" \u{3000} "));
    assert_eq!(app.submit_login(), None);
    assert_eq!(app.state(), AppState::Login);
    assert!(app.history().is_empty());
}

#[test]
fn connect_resets_the_conversation() {
    let mut app = ChatApp::new();
    app.select_chat(SelectedChat::Private(s("bob")));
    app.set_username_input(s("alice"));
    app.submit_login();
    assert!(*app.selected_chat() == SelectedChat::Global);
    assert_eq!(app.username().as_str(), "alice");
}

#[test]
fn network_events_are_noted() {
    let mut app = connected_window("alice");
    assert!(app.is_connected());
    assert_eq!(app.history().last(), Some(&message("⚙ Система", "Подключение установлено", None)));
    let attention = app.handle_net_event(NetEvent::Chat(ChatEvent::SyncUsers(vec![s("alice"), s("bob")])));
    assert!(!attention);
    assert_eq!(*app.users(), vec![s("alice"), s("bob")]);
    assert!(app.handle_net_event(NetEvent::Chat(message("bob", "hi", None))));
    assert!(!app.handle_net_event(NetEvent::Chat(message("alice", "mine", None))));
    assert!(!app.handle_net_event(NetEvent::Disconnected));
    assert!(!app.is_connected());
    assert!(app.users().is_empty());
    assert_eq!(
        app.history().last(),
        Some(&message("⚙ Система", "Соединение разорвано. Переподключение...", None))
    );
    assert_eq!(app.history().len(), 6);
}

#[test]
fn typed_line_goes_to_the_open_conversation() {
    let mut app = connected_window("alice");
    app.set_current_msg(s(" hello "));
    assert_eq!(app.take_outgoing(), Some(ClientMessage { text: s(" hello "), recipient: None }));
    assert_eq!(app.current_msg().as_str(), "");
    app.select_chat(SelectedChat::Private(s("bob")));
    app.set_current_msg(s("psst"));
    assert_eq!(app.take_outgoing(), Some(ClientMessage { text: s("psst"), recipient: Some(s("bob")) }));
}

#[test]
fn blank_or_offline_lines_stay_in_the_field() {
    let mut app = connected_window("alice");
    app.set_current_msg(s("   "));
    assert_eq!(app.take_outgoing(), None);
    assert_eq!(app.current_msg().as_str(), "   ");
    app.handle_net_event(NetEvent::Disconnected);
    app.set_current_msg(s("later"));
    assert_eq!(app.take_outgoing(), None);
    assert_eq!(app.current_msg().as_str(), "later");
}

#[test]
fn side_panel_lists_everyone_but_me() {
    let mut app = connected_window("alice");
    app.handle_net_event(NetEvent::Chat(ChatEvent::SyncUsers(vec![s("bob"), s("alice"), s("carol")])));
    assert_eq!(app.peers(), vec![s("bob"), s("carol")]);
}

#[test]
fn visible_lines_follow_the_open_conversation() {
    let mut app = connected_window("alice");
    app.handle_net_event(NetEvent::Chat(ChatEvent::UserJoined(s("bob"))));
    app.handle_net_event(NetEvent::Chat(message("bob", "hi all", None)));
    app.handle_net_event(NetEvent::Chat(message("bob", "psst", Some("alice"))));
    app.handle_net_event(NetEvent::Chat(ChatEvent::SyncUsers(vec![s("alice"), s("bob")])));
    assert_eq!(
        app.visible_lines(),
        vec![
            s("⚙ Система: Подключение к серверу..."),
            s("⚙ Система: Подключение установлено"),
            s("bob присоединился к чату"),
            s("bob: hi all"),
        ]
    );
    app.select_chat(SelectedChat::Private(s("bob")));
    assert_eq!(app.visible_lines(), vec![s("bob: psst")]);
}

#[test]
fn selections_compare_by_user() {
    assert!(SelectedChat::Private(s("bob")) == SelectedChat::Private(s("bob")));
    assert!(SelectedChat::Private(s("bob")) != SelectedChat::Private(s("carol")));
    assert!(SelectedChat::Global != SelectedChat::Private(s("bob")));
}

#[test]
fn a_second_login_does_nothing() {
    let mut app = connected_window("alice");
    app.set_username_input(s("mallory"));
    let before = app.history().len();
    assert_eq!(app.submit_login(), None);
    assert_eq!(app.username().as_str(), "alice");
    assert_eq!(app.state(), AppState::Chat);
    assert_eq!(app.history().len(), before);
}

#[test]
fn nothing_is_sent_from_the_login_screen() {
    let mut app = ChatApp::new();
    app.handle_net_event(NetEvent::Connected);
    app.set_current_msg(s("hello"));
    assert_eq!(app.take_outgoing(), None);
    assert_eq!(app.current_msg().as_str(), "hello");
    assert_eq!(app.state(), AppState::Login);
}
