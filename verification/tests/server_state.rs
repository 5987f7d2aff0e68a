use chat::server::{AppState, Delivery, HISTORY_LIMIT};
use chat::shared::{ChatEvent, ClientMessage};

fn s(x: &str) -> String {
    x.to_string()
}

fn sync(to: &str, names: &[&str]) -> Delivery {
    Delivery { to: s(to), event: ChatEvent::SyncUsers(names.iter().map(|n| s(n)).collect()) }
}

fn joined(to: &str, name: &str) -> Delivery {
    Delivery { to: s(to), event: ChatEvent::UserJoined(s(name)) }
}

fn left(to: &str, name: &str) -> Delivery {
    Delivery { to: s(to), event: ChatEvent::UserLeft(s(name)) }
}

fn message(user: &str, text: &str, recipient: Option<&str>) -> ChatEvent {
    ChatEvent::Message { user: s(user), text: s(text), recipient: recipient.map(s) }
}

fn outgoing(text: &str, recipient: Option<&str>) -> ClientMessage {
    ClientMessage { text: s(text), recipient: recipient.map(s) }
}

#[test]
fn new_server_has_no_history() {
    let state = AppState::new();
    assert!(state.history_for("anyone").is_empty());
    assert!(!state.is_online("anyone"));
}

#[test]
fn first_user_is_told_the_user_list_only() {
    let mut state = AppState::new();
    let out = state.join("alice");
    assert_eq!(out, vec![sync("alice", &["alice"])]);
    assert!(state.is_online("alice"));
}

#[test]
fn second_user_is_announced_to_the_first() {
    let mut state = AppState::new();
    state.join("alice");
    let out = state.join("bob");
    assert_eq!(
        out,
        vec![
            sync("alice", &["alice", "bob"]),
            joined("alice", "bob"),
            sync("bob", &["alice", "bob"]),
        ]
    );
}

#[test]
fn joining_twice_lists_the_name_once() {
    let mut state = AppState::new();
    state.join("alice");
    let out = state.join("alice");
    assert_eq!(out, vec![sync("alice", &["alice"])]);
}

#[test]
fn public_message_goes_to_everyone_and_is_kept() {
    let mut state = AppState::new();
    state.join("alice");
    state.join("bob");
    let out = state.post("alice", outgoing("hi", None));
    let event = message("alice", "hi", None);
    assert_eq!(
        out,
        vec![
            Delivery { to: s("alice"), event: event.clone() },
            Delivery { to: s("bob"), event: event.clone() },
        ]
    );
    assert_eq!(state.history_for("carol"), vec![event]);
}

#[test]
fn private_message_goes_to_recipient_then_sender() {
    let mut state = AppState::new();
    state.join("alice");
    state.join("bob");
    state.join("carol");
    let out = state.post("alice", outgoing("psst", Some("bob")));
    let event = message("alice", "psst", Some("bob"));
    assert_eq!(
        out,
        vec![
            Delivery { to: s("bob"), event: event.clone() },
            Delivery { to: s("alice"), event: event.clone() },
        ]
    );
}

#[test]
fn private_message_to_someone_offline_returns_to_sender_only() {
    let mut state = AppState::new();
    state.join("alice");
    let out = state.post("alice", outgoing("anyone?", Some("ghost")));
    assert_eq!(out, vec![Delivery { to: s("alice"), event: message("alice", "anyone?", Some("ghost")) }]);
}

#[test]
fn private_message_to_oneself_arrives_twice() {
    let mut state = AppState::new();
    state.join("alice");
    let out = state.post("alice", outgoing("note", Some("alice")));
    let event = message("alice", "note", Some("alice"));
    assert_eq!(
        out,
        vec![
            Delivery { to: s("alice"), event: event.clone() },
            Delivery { to: s("alice"), event: event.clone() },
        ]
    );
}

#[test]
fn history_hides_private_messages_of_others() {
    let mut state = AppState::new();
    state.post("alice", outgoing("hello all", None));
    state.post("alice", outgoing("secret", Some("bob")));
    state.post("bob", outgoing("reply", Some("alice")));
    let public = message("alice", "hello all", None);
    let secret = message("alice", "secret", Some("bob"));
    let reply = message("bob", "reply", Some("alice"));
    assert_eq!(state.history_for("carol"), vec![public.clone()]);
    assert_eq!(state.history_for("alice"), vec![public.clone(), secret.clone(), reply.clone()]);
    assert_eq!(state.history_for("bob"), vec![public, secret, reply]);
}

#[test]
fn history_keeps_the_newest_fifty() {
    let mut state = AppState::new();
    for i in 0..(HISTORY_LIMIT + 7) {
        state.post("alice", outgoing(&format!("m{}", i), None));
    }
    let kept = state.history_for("bob");
    assert_eq!(kept.len(), 50);
    assert_eq!(kept[0], message("alice", "m7", None));
    assert_eq!(kept[49], message("alice", "m56", None));
}

#[test]
fn history_below_the_limit_keeps_everything() {
    let mut state = AppState::new();
    for i in 0..HISTORY_LIMIT {
        state.post("alice", outgoing(&format!("m{}", i), None));
    }
    let kept = state.history_for("bob");
    assert_eq!(kept.len(), 50);
    assert_eq!(kept[0], message("alice", "m0", None));
}

#[test]
fn leaving_tells_the_others() {
    let mut state = AppState::new();
    state.join("alice");
    state.join("bob");
    state.join("carol");
    let out = state.leave("bob");
    assert!(out.drop_connection);
    assert_eq!(
        out.notices,
        vec![
            left("alice", "bob"),
            sync("alice", &["alice", "carol"]),
            left("carol", "bob"),
            sync("carol", &["alice", "carol"]),
        ]
    );
    assert!(!state.is_online("bob"));
}

#[test]
fn a_connection_without_a_name_leaves_nothing() {
    let mut state = AppState::new();
    state.join("alice");
    let out = state.leave("");
    assert!(out.notices.is_empty());
    assert!(!out.drop_connection);
    assert!(state.is_online("alice"));
}

#[test]
fn join_then_leave_restores_the_users() {
    let mut state = AppState::new();
    state.join("alice");
    state.join("bob");
    let before = state.join("alice");
    state.join("dave");
    state.leave("dave");
    assert_eq!(state.join("alice"), before);
}

#[test]
fn last_user_leaving_tells_nobody() {
    let mut state = AppState::new();
    state.join("alice");
    let out = state.leave("alice");
    assert!(out.notices.is_empty());
    assert!(out.drop_connection);
    assert!(!state.is_online("alice"));
}

#[test]
fn a_message_from_a_nameless_connection_is_kept() {
    let mut state = AppState::new();
    state.join("alice");
    let out = state.post("", outgoing("who am i", None));
    assert_eq!(out, vec![Delivery { to: s("alice"), event: message("", "who am i", None) }]);
}
