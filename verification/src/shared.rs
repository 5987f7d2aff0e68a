//! The messages that the server and its clients exchange.
use vstd::prelude::*;

verus! {

/// An event that the server sends to a client.
#[derive(Debug, Clone, PartialEq, Eq)]
pub enum ChatEvent {
    /// A user connected.
    UserJoined(String),
    /// A user disconnected.
    UserLeft(String),
    /// A chat message: public when `recipient` is `None`, private otherwise.
    Message { user: String, text: String, recipient: Option<String> },
    /// The full list of users who are online.
    SyncUsers(Vec<String>),
}

/// A message that a client sends to the server.
#[derive(Debug, Clone, PartialEq, Eq)]
pub struct ClientMessage {
    pub text: String,
    pub recipient: Option<String>,
}

/// The mathematical value of a [`ChatEvent`]: every string taken as its characters.
pub enum EventView {
    UserJoined(Seq<char>),
    UserLeft(Seq<char>),
    Message { user: Seq<char>, text: Seq<char>, recipient: Option<Seq<char>> },
    SyncUsers(Seq<Seq<char>>),
}

impl View for ChatEvent {
    type V = EventView;

    open spec fn view(&self) -> EventView {
        match self {
            ChatEvent::UserJoined(name) => EventView::UserJoined(name@),
            ChatEvent::UserLeft(name) => EventView::UserLeft(name@),
            ChatEvent::Message { user, text, recipient } => EventView::Message {
                user: user@,
                text: text@,
                recipient: recipient.deep_view(),
            },
            ChatEvent::SyncUsers(names) => EventView::SyncUsers(names.deep_view()),
        }
    }
}

impl DeepView for ChatEvent {
    type V = EventView;

    open spec fn deep_view(&self) -> EventView {
        self@
    }
}

/// The mathematical value of a [`ClientMessage`].
pub struct ClientMessageView {
    pub text: Seq<char>,
    pub recipient: Option<Seq<char>>,
}

impl View for ClientMessage {
    type V = ClientMessageView;

    open spec fn view(&self) -> ClientMessageView {
        ClientMessageView { text: self.text@, recipient: self.recipient.deep_view() }
    }
}

/// Copies a list of names.
pub fn copy_names(names: &Vec<String>) -> (res: Vec<String>)
    ensures
        res.deep_view() == names.deep_view(),
{
    let mut res: Vec<String> = Vec::new();
    let n = names.len();
    for i in 0..n
        invariant
            n == names.len(),
            res.len() == i,
            forall|j: int| 0 <= j < i ==> #[trigger] res@[j]@ == names@[j]@,
    {
        res.push(names[i].clone());
    }
    assert(res.deep_view() =~= names.deep_view());
    res
}

/// Copies an optional name.
pub fn copy_optional_name(name: &Option<String>) -> (res: Option<String>)
    ensures
        res.deep_view() == name.deep_view(),
{
    match name {
        Some(n) => Some(n.clone()),
        None => None,
    }
}

impl ChatEvent {
    /// Returns an event equal to this one.
    pub fn duplicate(&self) -> (res: ChatEvent)
        ensures
            res@ == self@,
    {
        match self {
            ChatEvent::UserJoined(name) => ChatEvent::UserJoined(name.clone()),
            ChatEvent::UserLeft(name) => ChatEvent::UserLeft(name.clone()),
            ChatEvent::Message { user, text, recipient } => ChatEvent::Message {
                user: user.clone(),
                text: text.clone(),
                recipient: copy_optional_name(recipient),
            },
            ChatEvent::SyncUsers(names) => ChatEvent::SyncUsers(copy_names(names)),
        }
    }
}

} // verus!
