use chat::link::{step, LinkAction, LinkEvent, LinkState, RECONNECT_DELAY_SECS};

#[test]
fn opening_reports_up_and_sends_the_nickname() {
    let (next, actions) = step(LinkState::Connecting, LinkEvent::Opened);
    assert_eq!(next, LinkState::Open);
    assert_eq!(actions, vec![LinkAction::ReportConnected, LinkAction::SendNickname]);
}

#[test]
fn failing_to_open_reports_down_and_retries() {
    let (next, actions) = step(LinkState::Connecting, LinkEvent::OpenFailed);
    assert_eq!(next, LinkState::Connecting);
    assert_eq!(actions, vec![LinkAction::ReportDisconnected, LinkAction::WaitThenRetry]);
    assert_eq!(RECONNECT_DELAY_SECS, 5);
}

#[test]
fn every_end_of_a_connection_reports_down_and_retries() {
    for event in [LinkEvent::WriteFailed, LinkEvent::WindowGone, LinkEvent::ServerGone] {
        let (next, actions) = step(LinkState::Open, event);
        assert_eq!(next, LinkState::Connecting);
        assert_eq!(actions, vec![LinkAction::ReportDisconnected, LinkAction::WaitThenRetry]);
    }
}

#[test]
fn an_open_connection_relays_both_ways() {
    assert_eq!(step(LinkState::Open, LinkEvent::ServerEvent), (LinkState::Open, vec![LinkAction::ReportChat]));
    assert_eq!(step(LinkState::Open, LinkEvent::WindowLine), (LinkState::Open, vec![LinkAction::SendLine]));
}

#[test]
fn impossible_events_change_nothing() {
    assert_eq!(step(LinkState::Open, LinkEvent::Opened), (LinkState::Open, vec![]));
    assert_eq!(step(LinkState::Connecting, LinkEvent::ServerGone), (LinkState::Connecting, vec![]));
    assert_eq!(step(LinkState::Connecting, LinkEvent::ServerEvent), (LinkState::Connecting, vec![]));
    assert_eq!(step(LinkState::Connecting, LinkEvent::WindowLine), (LinkState::Connecting, vec![]));
}

#[test]
fn a_run_keeps_its_actions_in_order() {
    let mut state = LinkState::Connecting;
    let mut actions_seen = Vec::new();
    for event in [
        LinkEvent::OpenFailed,
        LinkEvent::Opened,
        LinkEvent::ServerEvent,
        LinkEvent::WindowLine,
        LinkEvent::ServerGone,
        LinkEvent::ServerEvent,
        LinkEvent::Opened,
    ] {
        let (next, actions) = step(state, event);
        state = next;
        actions_seen.extend(actions);
    }
    assert_eq!(
        actions_seen,
        vec![
            LinkAction::ReportDisconnected,
            LinkAction::WaitThenRetry,
            LinkAction::ReportConnected,
            LinkAction::SendNickname,
            LinkAction::ReportChat,
            LinkAction::SendLine,
            LinkAction::ReportDisconnected,
            LinkAction::WaitThenRetry,
            LinkAction::ReportConnected,
            LinkAction::SendNickname,
        ]
    );
    assert_eq!(state, LinkState::Open);
}
