//! The client's connection to the server, as a state machine: the network
//! side reports what happened, and the machine says what to do next. It
//! connects, sends the nickname as the first frame, then relays chat events to
//! the window and the window's lines to the server until the connection ends,
//! and then tries again after a pause, forever.
use vstd::prelude::*;

verus! {

/// Seconds to wait before connecting again.
pub const RECONNECT_DELAY_SECS: u64 = 5;

/// Where the connection stands.
#[derive(Debug, Clone, Copy, PartialEq, Eq, Structural)]
pub enum LinkState {
    /// Trying to connect.
    Connecting,
    /// Connected and relaying.
    Open,
}

/// What happened to the connection.
#[derive(Debug, Clone, Copy, PartialEq, Eq, Structural)]
pub enum LinkEvent {
    /// The connection was established.
    Opened,
    /// The connection could not be established.
    OpenFailed,
    /// The server sent a chat event.
    ServerEvent,
    /// The window handed over a line to send.
    WindowLine,
    /// Writing to the server failed.
    WriteFailed,
    /// The window stopped handing over lines.
    WindowGone,
    /// The server stopped sending.
    ServerGone,
}

/// What the network side does next, in order.
#[derive(Debug, Clone, Copy, PartialEq, Eq, Structural)]
pub enum LinkAction {
    /// Tell the window that the connection is up.
    ReportConnected,
    /// Send the nickname to the server.
    SendNickname,
    /// Hand the server's chat event to the window.
    ReportChat,
    /// Send the window's line to the server.
    SendLine,
    /// Tell the window that the connection is down.
    ReportDisconnected,
    /// Wait [`RECONNECT_DELAY_SECS`] seconds, then connect again.
    WaitThenRetry,
}

/// The next state and the actions after `event` in `state`. An event that
/// cannot happen in a state changes nothing.
pub open spec fn link_step(state: LinkState, event: LinkEvent) -> (LinkState, Seq<LinkAction>) {
    match state {
        LinkState::Connecting => match event {
            LinkEvent::Opened => (
                LinkState::Open,
                seq![LinkAction::ReportConnected, LinkAction::SendNickname],
            ),
            LinkEvent::OpenFailed => (
                LinkState::Connecting,
                seq![LinkAction::ReportDisconnected, LinkAction::WaitThenRetry],
            ),
            _ => (state, Seq::empty()),
        },
        LinkState::Open => match event {
            LinkEvent::ServerEvent => (LinkState::Open, seq![LinkAction::ReportChat]),
            LinkEvent::WindowLine => (LinkState::Open, seq![LinkAction::SendLine]),
            LinkEvent::WriteFailed | LinkEvent::WindowGone | LinkEvent::ServerGone => (
                LinkState::Connecting,
                seq![LinkAction::ReportDisconnected, LinkAction::WaitThenRetry],
            ),
            _ => (state, Seq::empty()),
        },
    }
}

/// Takes one step of the connection's state machine.
pub fn step(state: LinkState, event: LinkEvent) -> (res: (LinkState, Vec<LinkAction>))
    ensures
        res.0 == link_step(state, event).0,
        res.1@ == link_step(state, event).1,
{
    let mut actions: Vec<LinkAction> = Vec::new();
    let next = match state {
        LinkState::Connecting => match event {
            LinkEvent::Opened => {
                actions.push(LinkAction::ReportConnected);
                actions.push(LinkAction::SendNickname);
                LinkState::Open
            },
            LinkEvent::OpenFailed => {
                actions.push(LinkAction::ReportDisconnected);
                actions.push(LinkAction::WaitThenRetry);
                LinkState::Connecting
            },
            _ => state,
        },
        LinkState::Open => match event {
            LinkEvent::ServerEvent => {
                actions.push(LinkAction::ReportChat);
                LinkState::Open
            },
            LinkEvent::WindowLine => {
                actions.push(LinkAction::SendLine);
                LinkState::Open
            },
            LinkEvent::WriteFailed | LinkEvent::WindowGone | LinkEvent::ServerGone => {
                actions.push(LinkAction::ReportDisconnected);
                actions.push(LinkAction::WaitThenRetry);
                LinkState::Connecting
            },
            _ => state,
        },
    };
    assert(actions@ =~= link_step(state, event).1);
    (next, actions)
}

/// The state and all the actions after a run of events from `state`.
pub open spec fn link_run(state: LinkState, events: Seq<LinkEvent>) -> (LinkState, Seq<LinkAction>)
    decreases events.len(),
{
    if events.len() == 0 {
        (state, Seq::empty())
    } else {
        let (mid, before) = link_run(state, events.drop_last());
        let (last, now) = link_step(mid, events.last());
        (last, before + now)
    }
}

/// The last report to the window among `actions` about the connection:
/// `Some(true)` for "connected", `Some(false)` for "disconnected", `None`
/// before any.
pub open spec fn last_report(actions: Seq<LinkAction>) -> Option<bool>
    decreases actions.len(),
{
    if actions.len() == 0 {
        None
    } else if actions.last() == LinkAction::ReportConnected {
        Some(true)
    } else if actions.last() == LinkAction::ReportDisconnected {
        Some(false)
    } else {
        last_report(actions.drop_last())
    }
}

/// Whether the nickname was sent since the connection was last reported up
/// or down.
pub open spec fn nickname_sent(actions: Seq<LinkAction>) -> bool
    decreases actions.len(),
{
    if actions.len() == 0 {
        false
    } else if actions.last() == LinkAction::SendNickname {
        true
    } else if actions.last() == LinkAction::ReportConnected || actions.last()
        == LinkAction::ReportDisconnected {
        false
    } else {
        nickname_sent(actions.drop_last())
    }
}

/// The order of the actions, read from the start: the window is never told
/// "connected" twice without "disconnected" in between; the nickname is sent
/// right after each "connected"; chat events reach the window, and the
/// window's lines reach the server, only while connected and after the
/// nickname; and every "disconnected" is followed by the pause.
pub open spec fn well_ordered(actions: Seq<LinkAction>) -> bool
    decreases actions.len(),
{
    if actions.len() == 0 {
        true
    } else {
        let before = actions.drop_last();
        let a = actions.last();
        &&& well_ordered(before)
        &&& a == LinkAction::ReportConnected ==> last_report(before) != Some(true)
        &&& a == LinkAction::SendNickname ==> before.len() > 0 && before.last()
            == LinkAction::ReportConnected
        &&& a == LinkAction::ReportChat ==> last_report(before) == Some(true) && nickname_sent(
            before,
        )
        &&& a == LinkAction::SendLine ==> last_report(before) == Some(true) && nickname_sent(
            before,
        )
        &&& a == LinkAction::WaitThenRetry ==> before.len() > 0 && before.last()
            == LinkAction::ReportDisconnected
    }
}

/// From the start, trying to connect, every run of events keeps the actions
/// in order (see [`well_ordered`]); the connection is open exactly when the
/// last report said "connected"; and a new attempt to connect starts only at
/// the start or right after the pause.
pub proof fn lemma_runs_are_well_ordered(events: Seq<LinkEvent>)
    ensures
        well_ordered(link_run(LinkState::Connecting, events).1),
        (link_run(LinkState::Connecting, events).0 == LinkState::Open) <==> last_report(
            link_run(LinkState::Connecting, events).1,
        ) == Some(true),
        link_run(LinkState::Connecting, events).0 == LinkState::Open ==> nickname_sent(
            link_run(LinkState::Connecting, events).1,
        ),
        link_run(LinkState::Connecting, events).0 == LinkState::Connecting && link_run(
            LinkState::Connecting,
            events,
        ).1.len() > 0 ==> link_run(LinkState::Connecting, events).1.last()
            == LinkAction::WaitThenRetry,
    decreases events.len(),
{
    if events.len() > 0 {
        let rest = events.drop_last();
        lemma_runs_are_well_ordered(rest);
        let (mid, before) = link_run(LinkState::Connecting, rest);
        let e = events.last();
        let (last, now) = link_step(mid, e);
        let all = before + now;
        assert(link_run(LinkState::Connecting, events) == (last, all));
        if now.len() == 0 {
            assert(all =~= before);
        } else if now.len() == 1 {
            assert(all =~= before.push(now[0]));
            assert(all.drop_last() =~= before);
            assert(mid == LinkState::Open);
            assert(last_report(all) == last_report(before));
            assert(nickname_sent(all) == nickname_sent(before));
            assert(well_ordered(all));
        } else {
            assert(now.len() == 2);
            let one = before.push(now[0]);
            assert(all.drop_last() =~= one);
            assert(one.drop_last() =~= before);
            assert(all.last() == now[1]);
            assert(one.last() == now[0]);
            if mid == LinkState::Connecting && e == LinkEvent::Opened {
                assert(now[0] == LinkAction::ReportConnected);
                assert(now[1] == LinkAction::SendNickname);
                assert(last_report(one) == Some(true));
                assert(well_ordered(one));
                assert(last_report(all) == last_report(one));
                assert(nickname_sent(all));
                assert(well_ordered(all));
            } else {
                assert(now[0] == LinkAction::ReportDisconnected);
                assert(now[1] == LinkAction::WaitThenRetry);
                assert(last_report(one) == Some(false));
                assert(well_ordered(one));
                assert(last_report(all) == last_report(one));
                assert(well_ordered(all));
            }
        }
    }
}

} // verus!
