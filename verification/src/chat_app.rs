//! The client's state: the login screen, the conversation it shows, the users
//! it lists, and what it does with each event from the network and each line
//! that the user types.
use vstd::prelude::*;
use vstd::string::*;
use crate::models::{AppState, NetEvent, NetEventView, SelectedChat, SelectedView};
use crate::server::{posted_event, without_user};
use crate::shared::{ChatEvent, ClientMessage, ClientMessageView, EventView, copy_names};
use crate::text::{str_equal, trim, trimmed};

verus! {

/// The author shown on the client's own notices.
pub open spec fn system_user() -> Seq<char> {
    "⚙ Система"@
}

/// The notice shown when the client starts to connect.
pub open spec fn connecting_notice() -> Seq<char> {
    "Подключение к серверу..."@
}

/// The notice shown when the connection is up.
pub open spec fn connected_notice() -> Seq<char> {
    "Подключение установлено"@
}

/// The notice shown when the connection is lost.
pub open spec fn disconnected_notice() -> Seq<char> {
    "Соединение разорвано. Переподключение..."@
}

/// A notice of the client's own, shown as a public message.
pub open spec fn system_message(text: Seq<char>) -> EventView {
    EventView::Message { user: system_user(), text, recipient: None }
}

/// Whether `event` belongs in the conversation `selected`, for the user `me`:
/// a public message in the public conversation; a private message between
/// `me` and the other user in the private one; arrivals and departures in
/// the public one; a list of users nowhere.
pub open spec fn shown_in(event: EventView, selected: SelectedView, me: Seq<char>) -> bool {
    match event {
        EventView::Message { user, text: _, recipient } => match selected {
            SelectedView::Global => recipient is None,
            SelectedView::Private(other) => {
                ||| user == me && recipient == Some(other)
                ||| user == other && recipient == Some(me)
            },
        },
        EventView::UserJoined(_) => selected is Global,
        EventView::UserLeft(_) => selected is Global,
        EventView::SyncUsers(_) => false,
    }
}

/// The line of text that shows `event`.
pub open spec fn line_of(event: EventView) -> Seq<char> {
    match event {
        EventView::Message { user, text, recipient: _ } => user + ": "@ + text,
        EventView::UserJoined(name) => name + " присоединился к чату"@,
        EventView::UserLeft(name) => name + " покинул чат"@,
        EventView::SyncUsers(_) => Seq::empty(),
    }
}

/// The lines of the conversation `selected` in `history`, oldest first.
pub open spec fn shown_lines(history: Seq<EventView>, selected: SelectedView, me: Seq<char>) -> Seq<
    Seq<char>,
>
    decreases history.len(),
{
    if history.len() == 0 {
        Seq::empty()
    } else {
        let lines = shown_lines(history.drop_last(), selected, me);
        if shown_in(history.last(), selected, me) {
            lines.push(line_of(history.last()))
        } else {
            lines
        }
    }
}

/// Where a line typed in the conversation `selected` goes: to everyone, or to
/// the other user.
pub open spec fn recipient_of(selected: SelectedView) -> Option<Seq<char>> {
    match selected {
        SelectedView::Global => None,
        SelectedView::Private(user) => Some(user),
    }
}

/// The client's window.
#[derive(Debug)]
pub struct ChatApp {
    /// The screen shown.
    state: AppState,
    /// What is typed in the login field.
    username_input: String,
    /// The name under which the client connected.
    username: String,
    /// Whether the connection to the server is up.
    is_connected: bool,
    /// What is typed in the message field.
    current_msg: String,
    /// Every event received and every notice of the client's own, oldest first.
    history: Vec<ChatEvent>,
    /// The users online, as the server last listed them.
    users: Vec<String>,
    /// The conversation shown.
    selected_chat: SelectedChat,
}

/// The mathematical value of a [`ChatApp`].
#[verifier::ext_equal]
pub struct ChatAppView {
    pub state: AppState,
    pub username_input: Seq<char>,
    pub username: Seq<char>,
    pub is_connected: bool,
    pub current_msg: Seq<char>,
    pub history: Seq<EventView>,
    pub users: Seq<Seq<char>>,
    pub selected_chat: SelectedView,
}

impl View for ChatApp {
    type V = ChatAppView;

    closed spec fn view(&self) -> ChatAppView {
        ChatAppView {
            state: self.state,
            username_input: self.username_input@,
            username: self.username@,
            is_connected: self.is_connected,
            current_msg: self.current_msg@,
            history: self.history.deep_view(),
            users: self.users.deep_view(),
            selected_chat: self.selected_chat@,
        }
    }
}

impl ChatAppView {
    /// The window after it started to connect as `nickname`: the chat screen,
    /// the public conversation, and a notice that it is connecting.
    pub open spec fn connecting_as(self, nickname: Seq<char>) -> ChatAppView {
        ChatAppView {
            username: nickname,
            selected_chat: SelectedView::Global,
            state: AppState::Chat,
            history: self.history.push(system_message(connecting_notice())),
            ..self
        }
    }

    /// The window after the network reported `event`. A chat event is kept
    /// in the history, and a list of users replaces the one shown. A new
    /// connection and a lost one are noted in the history; a lost one also
    /// empties the list of users.
    pub open spec fn received(self, event: NetEventView) -> ChatAppView {
        match event {
            NetEventView::Chat(e) => ChatAppView {
                users: match e {
                    EventView::SyncUsers(names) => names,
                    _ => self.users,
                },
                history: self.history.push(e),
                ..self
            },
            NetEventView::Connected => ChatAppView {
                is_connected: true,
                history: self.history.push(system_message(connected_notice())),
                ..self
            },
            NetEventView::Disconnected => ChatAppView {
                is_connected: false,
                users: Seq::empty(),
                history: self.history.push(system_message(disconnected_notice())),
                ..self
            },
        }
    }

    /// The name that the login button starts a session with: on the login
    /// screen, the typed name without the white space at its ends, if that is
    /// not empty.
    pub open spec fn login_name(self) -> Option<Seq<char>> {
        if self.state == AppState::Login && trimmed(self.username_input).len() > 0 {
            Some(trimmed(self.username_input))
        } else {
            None
        }
    }

    /// The window after the login button.
    pub open spec fn after_login(self) -> ChatAppView {
        match self.login_name() {
            Some(name) => self.connecting_as(name),
            None => self,
        }
    }

    /// Whether the send button sends: on the chat screen, while connected,
    /// with more than white space typed.
    pub open spec fn can_send(self) -> bool {
        &&& self.state == AppState::Chat
        &&& self.is_connected
        &&& trimmed(self.current_msg).len() > 0
    }

    /// The message that the send button sends: the typed line, to the open
    /// conversation.
    pub open spec fn outgoing(self) -> ClientMessageView {
        ClientMessageView { text: self.current_msg, recipient: recipient_of(self.selected_chat) }
    }

    /// The window after the send button.
    pub open spec fn after_send(self) -> ChatAppView {
        if self.can_send() {
            ChatAppView { current_msg: Seq::empty(), ..self }
        } else {
            self
        }
    }

    /// Whether `event` is a message from someone else, for which the window
    /// asks for the user's attention when it is not focused.
    pub open spec fn draws_attention(self, event: NetEventView) -> bool {
        match event {
            NetEventView::Chat(EventView::Message { user, text: _, recipient: _ }) => user
                != self.username,
            _ => false,
        }
    }
}

/// A private message never shows in the public conversation, and a private
/// conversation shows only messages between its two users.
pub proof fn lemma_private_conversations(event: EventView, me: Seq<char>, other: Seq<char>)
    ensures
        event matches EventView::Message { recipient: Some(_), .. } ==> !shown_in(
            event,
            SelectedView::Global,
            me,
        ),
        shown_in(event, SelectedView::Private(other), me) ==> (event matches EventView::Message {
            user,
            recipient: Some(r),
            ..
        } && ((user == me && r == other) || (user == other && r == me))),
{
}

/// A line that the user `me` sends from the conversation `selected`, once the
/// server posts it, shows in that same conversation for `me`; a private one
/// also shows in the other user's conversation with `me`, and a public one in
/// everyone's public conversation.
pub proof fn lemma_sent_lines_come_back(me: Seq<char>, text: Seq<char>, selected: SelectedView)
    ensures
        shown_in(
            posted_event(me, ClientMessageView { text, recipient: recipient_of(selected) }),
            selected,
            me,
        ),
        selected matches SelectedView::Private(other) ==> shown_in(
            posted_event(me, ClientMessageView { text, recipient: recipient_of(selected) }),
            SelectedView::Private(me),
            other,
        ),
        selected is Global ==> forall|anyone: Seq<char>|
            shown_in(
                #[trigger] posted_event(me, ClientMessageView { text, recipient: recipient_of(selected) }),
                SelectedView::Global,
                anyone,
            ),
{
}

/// Every network event adds exactly one entry at the end of the history and
/// changes none of the earlier ones.
pub proof fn lemma_history_only_grows(app: ChatAppView, event: NetEventView)
    ensures
        app.received(event).history.len() == app.history.len() + 1,
        app.received(event).history.subrange(0, app.history.len() as int) == app.history,
        app.received(event).username == app.username,
        app.received(event).selected_chat == app.selected_chat,
        app.received(event).state == app.state,
{
    assert(app.received(event).history.subrange(0, app.history.len() as int) =~= app.history);
}

/// Once on the chat screen the window stays there under the same name: no
/// network event, login or send leads back to the login screen, and a second
/// login does nothing. (The setters of the typed fields and of the open
/// conversation change only their own field.) The login screen is left only through a login with a
/// name that is not blank.
pub proof fn lemma_chat_screen_is_final(app: ChatAppView, event: NetEventView)
    ensures
        app.state == AppState::Chat ==> {
            &&& app.received(event).state == AppState::Chat
            &&& app.received(event).username == app.username
            &&& app.after_login() == app
            &&& app.login_name() is None
            &&& app.after_send().state == AppState::Chat
            &&& app.after_send().username == app.username
        },
        app.state == AppState::Login ==> {
            &&& app.received(event).state == AppState::Login
            &&& app.after_send() == app
            &&& (app.after_login().state == AppState::Chat <==> app.login_name() is Some)
            &&& app.login_name() is Some ==> app.after_login().username == app.login_name()->0
        },
{
}

/// What each network event does to the window: a chat event is appended to
/// the history exactly as received, and a user list replaces the one shown;
/// a new connection is marked up and noted as "Подключение установлено"; a
/// lost one is marked down, empties the user list and is noted as
/// "Соединение разорвано. Переподключение...". Nothing else changes, and only
/// another user's message asks for attention.
pub proof fn lemma_network_events(app: ChatAppView, e: EventView)
    ensures
        app.received(NetEventView::Chat(e)).history == app.history.push(e),
        app.received(NetEventView::Chat(e)).history.last() == e,
        app.received(NetEventView::Chat(e)).is_connected == app.is_connected,
        e matches EventView::SyncUsers(names) ==> app.received(NetEventView::Chat(e)).users == names,
        !(e is SyncUsers) ==> app.received(NetEventView::Chat(e)).users == app.users,
        app.received(NetEventView::Connected).is_connected,
        app.received(NetEventView::Connected).users == app.users,
        app.received(NetEventView::Connected).history == app.history.push(
            EventView::Message {
                user: "⚙ Система"@,
                text: "Подключение установлено"@,
                recipient: None,
            },
        ),
        !app.received(NetEventView::Disconnected).is_connected,
        app.received(NetEventView::Disconnected).users == Seq::<Seq<char>>::empty(),
        app.received(NetEventView::Disconnected).history == app.history.push(
            EventView::Message {
                user: "⚙ Система"@,
                text: "Соединение разорвано. Переподключение..."@,
                recipient: None,
            },
        ),
        forall|user: Seq<char>, text: Seq<char>, r: Option<Seq<char>>|
            #[trigger] app.draws_attention(
                NetEventView::Chat(EventView::Message { user, text, recipient: r }),
            ) == (user != app.username),
        !app.draws_attention(NetEventView::Connected),
        !app.draws_attention(NetEventView::Disconnected),
        forall|n: Seq<char>| !#[trigger] app.draws_attention(NetEventView::Chat(EventView::UserJoined(n))),
        forall|n: Seq<char>| !#[trigger] app.draws_attention(NetEventView::Chat(EventView::UserLeft(n))),
        forall|ns: Seq<Seq<char>>|
            !#[trigger] app.draws_attention(NetEventView::Chat(EventView::SyncUsers(ns))),
{
}

/// The line that shows each event: "<user>: <text>" for a message, "<name>
/// присоединился к чату" for an arrival, "<name> покинул чат" for a departure,
/// and nothing for a user list.
pub proof fn lemma_lines(user: Seq<char>, text: Seq<char>, recipient: Option<Seq<char>>, names: Seq<Seq<char>>)
    ensures
        line_of(EventView::Message { user, text, recipient }) == user + ": "@ + text,
        line_of(EventView::UserJoined(user)) == user + " присоединился к чату"@,
        line_of(EventView::UserLeft(user)) == user + " покинул чат"@,
        line_of(EventView::SyncUsers(names)) == Seq::<char>::empty(),
{
}

/// Which conversation shows what: the public one shows every public message
/// and every arrival and departure; a private one shows the messages between
/// its two users in either direction and nothing else; no conversation shows
/// a user list.
pub proof fn lemma_what_each_conversation_shows(
    me: Seq<char>,
    other: Seq<char>,
    user: Seq<char>,
    text: Seq<char>,
    names: Seq<Seq<char>>,
)
    ensures
        shown_in(EventView::Message { user, text, recipient: None }, SelectedView::Global, me),
        shown_in(EventView::UserJoined(user), SelectedView::Global, me),
        shown_in(EventView::UserLeft(user), SelectedView::Global, me),
        !shown_in(EventView::UserJoined(user), SelectedView::Private(other), me),
        !shown_in(EventView::UserLeft(user), SelectedView::Private(other), me),
        !shown_in(EventView::Message { user, text, recipient: None }, SelectedView::Private(other), me),
        shown_in(
            EventView::Message { user: me, text, recipient: Some(other) },
            SelectedView::Private(other),
            me,
        ),
        shown_in(
            EventView::Message { user: other, text, recipient: Some(me) },
            SelectedView::Private(other),
            me,
        ),
        !shown_in(EventView::SyncUsers(names), SelectedView::Global, me),
        !shown_in(EventView::SyncUsers(names), SelectedView::Private(other), me),
{
}

/// The login button on the login screen, with a name that is not blank once
/// trimmed: the session starts under the trimmed name, on the chat screen, in
/// the public conversation, noting "Подключение к серверу...", and the
/// trimmed name goes to the network side. With a blank name, or on the chat
/// screen, nothing happens.
pub proof fn lemma_login(app: ChatAppView)
    ensures
        app.state == AppState::Login && trimmed(app.username_input).len() > 0 ==> {
            &&& app.login_name() == Some(trimmed(app.username_input))
            &&& app.after_login().state == AppState::Chat
            &&& app.after_login().username == trimmed(app.username_input)
            &&& app.after_login().selected_chat == SelectedView::Global
            &&& app.after_login().history == app.history.push(
                EventView::Message {
                    user: "⚙ Система"@,
                    text: "Подключение к серверу..."@,
                    recipient: None,
                },
            )
            &&& app.after_login().users == app.users
            &&& app.after_login().is_connected == app.is_connected
            &&& app.after_login().username_input == app.username_input
            &&& app.after_login().current_msg == app.current_msg
        },
        !(app.state == AppState::Login && trimmed(app.username_input).len() > 0) ==> {
            &&& app.login_name() is None
            &&& app.after_login() == app
        },
{
}

/// The send button: it sends exactly when the window is on the chat screen,
/// connected, with more than white space typed; the message is the typed line
/// as typed, to everyone from the public conversation and to the other user
/// from a private one; sending empties the field and changes nothing else.
pub proof fn lemma_send(app: ChatAppView, other: Seq<char>)
    ensures
        app.can_send() == (app.state == AppState::Chat && app.is_connected && trimmed(
            app.current_msg,
        ).len() > 0),
        app.outgoing().text == app.current_msg,
        app.selected_chat == SelectedView::Global ==> app.outgoing().recipient is None,
        app.selected_chat == SelectedView::Private(other) ==> app.outgoing().recipient == Some(
            other,
        ),
        app.can_send() ==> app.after_send() == (ChatAppView { current_msg: Seq::empty(), ..app }),
        !app.can_send() ==> app.after_send() == app,
{
}

/// The lines of a conversation are those of its events, in order: where
/// every event of the history belongs in the conversation, each event gives
/// one line, in the history's order; where none does, there are no lines.
pub proof fn lemma_lines_follow_history(history: Seq<EventView>, selected: SelectedView, me: Seq<char>)
    ensures
        (forall|i: int| 0 <= i < history.len() ==> shown_in(#[trigger] history[i], selected, me))
            ==> shown_lines(history, selected, me) == history.map_values(|e: EventView| line_of(e)),
        (forall|i: int| 0 <= i < history.len() ==> !shown_in(#[trigger] history[i], selected, me))
            ==> shown_lines(history, selected, me) == Seq::<Seq<char>>::empty(),
        shown_lines(history, selected, me).len() <= history.len(),
    decreases history.len(),
{
    if history.len() > 0 {
        let rest = history.drop_last();
        lemma_lines_follow_history(rest, selected, me);
        assert(history[history.len() - 1] == history.last());
        if forall|i: int| 0 <= i < history.len() ==> shown_in(#[trigger] history[i], selected, me) {
            assert forall|i: int| 0 <= i < rest.len() implies shown_in(#[trigger] rest[i], selected, me) by {
                assert(rest[i] == history[i]);
            }
            assert(rest.map_values(|e: EventView| line_of(e)).push(line_of(history.last()))
                =~= history.map_values(|e: EventView| line_of(e)));
        }
        if forall|i: int| 0 <= i < history.len() ==> !shown_in(#[trigger] history[i], selected, me) {
            assert forall|i: int| 0 <= i < rest.len() implies !shown_in(#[trigger] rest[i], selected, me) by {
                assert(rest[i] == history[i]);
            }
        }
    }
}

/// A notice of the client's own with the given text.
fn system_event(text: &str) -> (res: ChatEvent)
    ensures
        res@ == system_message(text@),
{
    ChatEvent::Message {
        user: String::from_str("⚙ Система"),
        text: String::from_str(text),
        recipient: None,
    }
}

impl ChatApp {
    /// A window on the login screen, with nothing typed, no connection and
    /// no history, showing the public conversation.
    pub fn new() -> (res: ChatApp)
        ensures
            res@.state == AppState::Login,
            res@.username_input == Seq::<char>::empty(),
            res@.username == Seq::<char>::empty(),
            !res@.is_connected,
            res@.current_msg == Seq::<char>::empty(),
            res@.history == Seq::<EventView>::empty(),
            res@.users == Seq::<Seq<char>>::empty(),
            res@.selected_chat == SelectedView::Global,
    {
        let res = ChatApp {
            state: AppState::Login,
            username_input: String::new(),
            username: String::new(),
            is_connected: false,
            current_msg: String::new(),
            history: Vec::new(),
            users: Vec::new(),
            selected_chat: SelectedChat::Global,
        };
        assert(res@.history =~= Seq::<EventView>::empty());
        assert(res@.users =~= Seq::<Seq<char>>::empty());
        res
    }

    /// The screen shown.
    pub fn state(&self) -> (res: AppState)
        ensures
            res == self@.state,
    {
        self.state
    }

    /// What is typed in the login field.
    pub fn username_input(&self) -> (res: &String)
        ensures
            res@ == self@.username_input,
    {
        &self.username_input
    }

    /// Replaces what is typed in the login field; nothing else changes.
    pub fn set_username_input(&mut self, text: String)
        ensures
            final(self)@ == (ChatAppView { username_input: text@, ..old(self)@ }),
    {
        let ghost before = self@;
        self.username_input = text;
        assert(self@ =~= (ChatAppView { username_input: text@, ..before }));
    }

    /// The name under which the session started (empty before).
    pub fn username(&self) -> (res: &String)
        ensures
            res@ == self@.username,
    {
        &self.username
    }

    /// Whether the connection to the server is up.
    pub fn is_connected(&self) -> (res: bool)
        ensures
            res == self@.is_connected,
    {
        self.is_connected
    }

    /// What is typed in the message field.
    pub fn current_msg(&self) -> (res: &String)
        ensures
            res@ == self@.current_msg,
    {
        &self.current_msg
    }

    /// Replaces what is typed in the message field; nothing else changes.
    pub fn set_current_msg(&mut self, text: String)
        ensures
            final(self)@ == (ChatAppView { current_msg: text@, ..old(self)@ }),
    {
        let ghost before = self@;
        self.current_msg = text;
        assert(self@ =~= (ChatAppView { current_msg: text@, ..before }));
    }

    /// Every event received and every notice of the client's own, oldest first.
    pub fn history(&self) -> (res: &Vec<ChatEvent>)
        ensures
            res.deep_view() == self@.history,
    {
        &self.history
    }

    /// The users online, as the server last listed them.
    pub fn users(&self) -> (res: &Vec<String>)
        ensures
            res.deep_view() == self@.users,
    {
        &self.users
    }

    /// The conversation shown.
    pub fn selected_chat(&self) -> (res: &SelectedChat)
        ensures
            res@ == self@.selected_chat,
    {
        &self.selected_chat
    }

    /// Opens the conversation `chat`; nothing else changes.
    pub fn select_chat(&mut self, chat: SelectedChat)
        ensures
            final(self)@ == (ChatAppView { selected_chat: chat@, ..old(self)@ }),
    {
        let ghost before = self@;
        self.selected_chat = chat;
        assert(self@ =~= (ChatAppView { selected_chat: chat@, ..before }));
    }

    /// Whether `event` belongs in the conversation `selected` of the user
    /// `my_username`.
    pub fn should_show(event: &ChatEvent, selected: &SelectedChat, my_username: &str) -> (res:
        bool)
        ensures
            res == shown_in(event@, selected@, my_username@),
    {
        match event {
            ChatEvent::Message { user, text: _, recipient } => match selected {
                SelectedChat::Global => recipient.is_none(),
                SelectedChat::Private(other) => {
                    let to_other = match recipient {
                        Some(r) => str_equal(r.as_str(), other.as_str()),
                        None => false,
                    };
                    let to_me = match recipient {
                        Some(r) => str_equal(r.as_str(), my_username),
                        None => false,
                    };
                    (str_equal(user.as_str(), my_username) && to_other) || (str_equal(
                        user.as_str(),
                        other.as_str(),
                    ) && to_me)
                },
            },
            ChatEvent::UserJoined(_) | ChatEvent::UserLeft(_) => match selected {
                SelectedChat::Global => true,
                SelectedChat::Private(_) => false,
            },
            ChatEvent::SyncUsers(_) => false,
        }
    }

    /// The line of text that shows `event`; the conversation and the user do
    /// not change it.
    pub fn format_message(event: &ChatEvent, _selected: &SelectedChat, _my_username: &str) -> (res:
        String)
        ensures
            res@ == line_of(event@),
    {
        match event {
            ChatEvent::Message { user, text, recipient: _ } => user.clone().concat(": ").concat(
                text.as_str(),
            ),
            ChatEvent::UserJoined(name) => name.clone().concat(" присоединился к чату"),
            ChatEvent::UserLeft(name) => name.clone().concat(" покинул чат"),
            ChatEvent::SyncUsers(_) => String::new(),
        }
    }

    /// Starts the session as `nickname`: the chat screen, the public
    /// conversation, and a notice that the client is connecting.
    fn connect(&mut self, nickname: String)
        ensures
            final(self)@ == old(self)@.connecting_as(nickname@),
    {
        let ghost before = self@;
        self.username = nickname;
        self.selected_chat = SelectedChat::Global;
        self.state = AppState::Chat;
        self.history.push(system_event("Подключение к серверу..."));
        assert(self@.history =~= before.history.push(system_message(connecting_notice())));
        assert(self@ =~= before.connecting_as(nickname@));
    }

    /// Takes in what the network reported. Returns whether the event is a
    /// message from someone else, for which the window asks for attention.
    pub fn handle_net_event(&mut self, event: NetEvent) -> (attention: bool)
        ensures
            final(self)@ == old(self)@.received(event@),
            attention == old(self)@.draws_attention(event@),
    {
        let ghost before = self@;
        let ghost ev = event@;
        match event {
            NetEvent::Chat(chat_event) => {
                let is_from_other = match &chat_event {
                    ChatEvent::Message { user, .. } => !str_equal(
                        user.as_str(),
                        self.username.as_str(),
                    ),
                    _ => false,
                };
                match &chat_event {
                    ChatEvent::SyncUsers(users) => {
                        self.users = copy_names(users);
                    },
                    _ => {},
                }
                let ghost e = chat_event@;
                self.history.push(chat_event);
                assert(self@.history =~= before.history.push(e));
                assert(self@ =~= before.received(ev));
                is_from_other
            },
            NetEvent::Connected => {
                self.is_connected = true;
                self.history.push(system_event("Подключение установлено"));
                assert(self@.history =~= before.history.push(system_message(connected_notice())));
                assert(self@ =~= before.received(ev));
                false
            },
            NetEvent::Disconnected => {
                self.is_connected = false;
                self.users.clear();
                self.history.push(system_event("Соединение разорвано. Переподключение..."));
                assert(self@.users =~= Seq::<Seq<char>>::empty());
                assert(self@.history =~= before.history.push(
                    system_message(disconnected_notice()),
                ));
                assert(self@ =~= before.received(ev));
                false
            },
        }
    }

    /// The login button: on the login screen, where the typed name, without
    /// the white space at its ends, is not empty, the session starts under it
    /// and the name is returned, for the network side to connect with.
    /// Otherwise, on the chat screen too, nothing changes.
    pub fn submit_login(&mut self) -> (res: Option<String>)
        ensures
            old(self)@.login_name() is Some ==> res is Some && res->0@ == old(
                self,
            )@.login_name()->0,
            old(self)@.login_name() is None ==> res is None,
            final(self)@ == old(self)@.after_login(),
    {
        match self.state {
            AppState::Chat => { return None; },
            AppState::Login => {},
        }
        let name = trim(self.username_input.as_str());
        if name.as_str().is_empty() {
            None
        } else {
            let res = name.clone();
            self.connect(name);
            Some(res)
        }
    }

    /// The send button: on the chat screen, while connected, where the typed
    /// line has more than white space, it is taken out of the field as a
    /// message to the open conversation, and the field is emptied. Otherwise
    /// nothing changes.
    pub fn take_outgoing(&mut self) -> (res: Option<ClientMessage>)
        ensures
            old(self)@.can_send() ==> res is Some && res->0@ == old(self)@.outgoing(),
            !old(self)@.can_send() ==> res is None,
            final(self)@ == old(self)@.after_send(),
    {
        match self.state {
            AppState::Login => { return None; },
            AppState::Chat => {},
        }
        if !self.is_connected {
            return None;
        }
        let t = trim(self.current_msg.as_str());
        if t.as_str().is_empty() {
            return None;
        }
        let ghost before = self@;
        let recipient = match &self.selected_chat {
            SelectedChat::Global => None,
            SelectedChat::Private(user) => Some(user.clone()),
        };
        let text = self.current_msg.clone();
        self.current_msg = String::new();
        let msg = ClientMessage { text, recipient };
        assert(self@ =~= (ChatAppView { current_msg: Seq::empty(), ..before }));
        Some(msg)
    }

    /// The users listed in the side panel: everyone online but the user
    /// itself, in the server's order.
    pub fn peers(&self) -> (res: Vec<String>)
        ensures
            res.deep_view() == without_user(self@.users, self@.username),
    {
        let ghost users = self@.users;
        let mut res: Vec<String> = Vec::new();
        let n = self.users.len();
        assert(res.deep_view() =~= without_user(users.take(0), self@.username));
        for i in 0..n
            invariant
                n == self.users.len(),
                users == self.users.deep_view(),
                res.deep_view() == without_user(users.take(i as int), self.username@),
        {
            let ghost prev = res.deep_view();
            assert(users.take(i + 1).drop_last() =~= users.take(i as int));
            if !str_equal(self.users[i].as_str(), self.username.as_str()) {
                res.push(self.users[i].clone());
                assert(res.deep_view() =~= prev.push(users[i as int]));
            }
        }
        assert(users.take(n as int) =~= users);
        res
    }

    /// The lines of the open conversation, oldest first.
    pub fn visible_lines(&self) -> (res: Vec<String>)
        ensures
            res@.map_values(|s: String| s@) == shown_lines(
                self@.history,
                self@.selected_chat,
                self@.username,
            ),
    {
        let ghost h = self@.history;
        let ghost sel = self@.selected_chat;
        let ghost me = self@.username;
        let mut res: Vec<String> = Vec::new();
        let n = self.history.len();
        assert(res@.map_values(|s: String| s@) =~= shown_lines(h.take(0), sel, me));
        for i in 0..n
            invariant
                n == self.history.len(),
                h == self.history.deep_view(),
                sel == self.selected_chat@,
                me == self.username@,
                res@.map_values(|s: String| s@) == shown_lines(h.take(i as int), sel, me),
        {
            let ghost prev = res@.map_values(|s: String| s@);
            assert(h.take(i + 1).drop_last() =~= h.take(i as int));
            let event = &self.history[i];
            assert(event@ == h[i as int]);
            if Self::should_show(event, &self.selected_chat, self.username.as_str()) {
                let line = Self::format_message(event, &self.selected_chat, self.username.as_str());
                res.push(line);
                assert(res@.map_values(|s: String| s@) =~= prev.push(line_of(h[i as int])));
            }
        }
        assert(h.take(n as int) =~= h);
        res
    }
}

} // verus!
