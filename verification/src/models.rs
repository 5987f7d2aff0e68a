//! The client's small types: which conversation is open, what the network
//! reports, and which screen is shown.
use vstd::prelude::*;
use crate::shared::{ChatEvent, EventView};
use crate::text::str_equal;

verus! {

/// The conversation that the client shows: the public one, or the private one
/// with the named user.
#[derive(Debug, Clone)]
pub enum SelectedChat {
    Global,
    Private(String),
}

/// The mathematical value of a [`SelectedChat`].
pub enum SelectedView {
    Global,
    Private(Seq<char>),
}

impl View for SelectedChat {
    type V = SelectedView;

    open spec fn view(&self) -> SelectedView {
        match self {
            SelectedChat::Global => SelectedView::Global,
            SelectedChat::Private(user) => SelectedView::Private(user@),
        }
    }
}

impl PartialEq for SelectedChat {
    fn eq(&self, other: &Self) -> (res: bool) {
        match (self, other) {
            (SelectedChat::Global, SelectedChat::Global) => true,
            (SelectedChat::Private(a), SelectedChat::Private(b)) => str_equal(a.as_str(), b.as_str()),
            _ => false,
        }
    }
}

impl vstd::std_specs::cmp::PartialEqSpecImpl for SelectedChat {
    open spec fn obeys_eq_spec() -> bool {
        true
    }

    open spec fn eq_spec(&self, other: &Self) -> bool {
        self@ == other@
    }
}

/// What the network side reports to the window.
#[derive(Debug, Clone, PartialEq, Eq)]
pub enum NetEvent {
    Chat(ChatEvent),
    Connected,
    Disconnected,
}

/// The mathematical value of a [`NetEvent`].
pub enum NetEventView {
    Chat(EventView),
    Connected,
    Disconnected,
}

impl View for NetEvent {
    type V = NetEventView;

    open spec fn view(&self) -> NetEventView {
        match self {
            NetEvent::Chat(event) => NetEventView::Chat(event@),
            NetEvent::Connected => NetEventView::Connected,
            NetEvent::Disconnected => NetEventView::Disconnected,
        }
    }
}

/// The screen that the client shows.
#[derive(Debug, Clone, Copy, PartialEq, Eq, Structural)]
pub enum AppState {
    Login,
    Chat,
}

} // verus!
