//! The server's bookkeeping: who is online, the recent public and private
//! history, and which events go to which connection when a user joins, posts
//! or leaves.
//!
//! The server keeps one connection per online name; every operation here
//! returns the events to hand to those connections, in order, as
//! [`Delivery`] values.
use std::collections::VecDeque;
use vstd::prelude::*;
use vstd::string::*;
use crate::shared::{
    ChatEvent, ClientMessage, ClientMessageView, EventView, copy_names, copy_optional_name,
};
use crate::text::str_equal;

verus! {

/// The number of messages that the server keeps for users who join later.
pub const HISTORY_LIMIT: usize = 50;

/// An event to send to the connection of the user named `to`.
#[derive(Debug, Clone, PartialEq, Eq)]
pub struct Delivery {
    pub to: String,
    pub event: ChatEvent,
}

/// What a closed connection leads to: the events to deliver, and whether the
/// channel kept for the departing name is to be dropped.
#[derive(Debug, Clone, PartialEq, Eq)]
pub struct Departure {
    pub notices: Vec<Delivery>,
    pub drop_connection: bool,
}

/// A delivery as a pair of the receiving name and the event.
pub type Notice = (Seq<char>, EventView);

impl View for Delivery {
    type V = Notice;

    open spec fn view(&self) -> Notice {
        (self.to@, self.event@)
    }
}

impl DeepView for Delivery {
    type V = Notice;

    open spec fn deep_view(&self) -> Notice {
        self@
    }
}

/// The shared state of the chat server.
pub struct AppState {
    users: Vec<String>,
    history: VecDeque<ChatEvent>,
}

/// The mathematical value of an [`AppState`]: the names online, in the order
/// in which they joined, and the kept messages, oldest first.
pub struct ServerView {
    pub users: Seq<Seq<char>>,
    pub history: Seq<EventView>,
}

impl View for AppState {
    type V = ServerView;

    closed spec fn view(&self) -> ServerView {
        ServerView { users: self.users.deep_view(), history: self.history.deep_view() }
    }
}

/// `users` after `name` joined: a name is listed once.
pub open spec fn with_user(users: Seq<Seq<char>>, name: Seq<char>) -> Seq<Seq<char>> {
    if users.contains(name) {
        users
    } else {
        users.push(name)
    }
}

/// `users` after `name` left.
pub open spec fn without_user(users: Seq<Seq<char>>, name: Seq<char>) -> Seq<Seq<char>>
    decreases users.len(),
{
    if users.len() == 0 {
        users
    } else {
        let kept = without_user(users.drop_last(), name);
        if users.last() != name {
            kept.push(users.last())
        } else {
            kept
        }
    }
}

/// What each of `conns` is told when `name` joins and `online` are online:
/// the list of users, then, for everyone but `name`, that `name` joined.
pub open spec fn join_notices(
    conns: Seq<Seq<char>>,
    online: Seq<Seq<char>>,
    name: Seq<char>,
) -> Seq<Notice>
    decreases conns.len(),
{
    if conns.len() == 0 {
        Seq::empty()
    } else {
        let u = conns.last();
        let told = join_notices(conns.drop_last(), online, name).push(
            (u, EventView::SyncUsers(online)),
        );
        if u != name {
            told.push((u, EventView::UserJoined(name)))
        } else {
            told
        }
    }
}

/// What each of `conns` is told when `name` left and `online` remain: that
/// `name` left, then the list of users.
pub open spec fn leave_notices(
    conns: Seq<Seq<char>>,
    online: Seq<Seq<char>>,
    name: Seq<char>,
) -> Seq<Notice>
    decreases conns.len(),
{
    if conns.len() == 0 {
        Seq::empty()
    } else {
        let u = conns.last();
        leave_notices(conns.drop_last(), online, name).push((u, EventView::UserLeft(name))).push(
            (u, EventView::SyncUsers(online)),
        )
    }
}

/// `event` sent to each of `conns`.
pub open spec fn broadcast_notices(conns: Seq<Seq<char>>, event: EventView) -> Seq<Notice>
    decreases conns.len(),
{
    if conns.len() == 0 {
        Seq::empty()
    } else {
        broadcast_notices(conns.drop_last(), event).push((conns.last(), event))
    }
}

/// A private `event` from `sender` to `recipient`: to the recipient, then
/// back to the sender, each only where that name is online.
pub open spec fn private_notices(
    online: Seq<Seq<char>>,
    sender: Seq<char>,
    recipient: Seq<char>,
    event: EventView,
) -> Seq<Notice> {
    let first: Seq<Notice> = if online.contains(recipient) {
        seq![(recipient, event)]
    } else {
        Seq::empty()
    };
    if online.contains(sender) {
        first.push((sender, event))
    } else {
        first
    }
}

/// The message that `sender` posts with `msg`.
pub open spec fn posted_event(sender: Seq<char>, msg: ClientMessageView) -> EventView {
    EventView::Message { user: sender, text: msg.text, recipient: msg.recipient }
}

/// Who is told of a message from `sender` while `online` are online.
pub open spec fn message_notices(
    online: Seq<Seq<char>>,
    sender: Seq<char>,
    msg: ClientMessageView,
) -> Seq<Notice> {
    match msg.recipient {
        Some(r) => private_notices(online, sender, r, posted_event(sender, msg)),
        None => broadcast_notices(online, posted_event(sender, msg)),
    }
}

/// The history after one more message was appended: the oldest message goes
/// when the history would exceed its limit.
pub open spec fn capped(h: Seq<EventView>) -> Seq<EventView> {
    if h.len() > HISTORY_LIMIT {
        h.drop_first()
    } else {
        h
    }
}

/// Whether the history shows `event` to `name`: every event but the private
/// messages of others.
pub open spec fn visible_to(name: Seq<char>, event: EventView) -> bool {
    match event {
        EventView::Message { user, text: _, recipient } => {
            ||| recipient is None
            ||| recipient == Some(name)
            ||| user == name
        },
        _ => true,
    }
}

/// The part of `history` that `name` is shown on joining.
pub open spec fn visible_history(history: Seq<EventView>, name: Seq<char>) -> Seq<EventView>
    decreases history.len(),
{
    if history.len() == 0 {
        history
    } else {
        let shown = visible_history(history.drop_last(), name);
        if visible_to(name, history.last()) {
            shown.push(history.last())
        } else {
            shown
        }
    }
}

/// Removing a name keeps every other name, drops that one, keeps the list
/// free of repeats, and changes nothing when the name was absent.
pub proof fn lemma_without_user(users: Seq<Seq<char>>, name: Seq<char>)
    ensures
        forall|x: Seq<char>|
            #[trigger] without_user(users, name).contains(x) <==> (users.contains(x) && x != name),
        users.no_duplicates() ==> without_user(users, name).no_duplicates(),
        !users.contains(name) ==> without_user(users, name) == users,
    decreases users.len(),
{
    if users.len() == 0 {
        assert(without_user(users, name) =~= users);
    } else {
        let rest = users.drop_last();
        let last = users.last();
        lemma_without_user(rest, name);
        let w = without_user(users, name);
        let wr = without_user(rest, name);
        assert forall|x: Seq<char>| #[trigger] w.contains(x) <==> (users.contains(x) && x != name) by {
            if users.contains(x) && x != name {
                let k = choose|k: int| 0 <= k < users.len() && users[k] == x;
                if k < rest.len() {
                    assert(rest[k] == x);
                    assert(wr.contains(x));
                    let m = choose|m: int| 0 <= m < wr.len() && wr[m] == x;
                    assert(w[m] == x);
                } else {
                    assert(w[w.len() - 1] == x);
                }
            }
            if w.contains(x) {
                let m = choose|m: int| 0 <= m < w.len() && w[m] == x;
                if m < wr.len() {
                    assert(wr[m] == x);
                    assert(wr.contains(x));
                    let k = choose|k: int| 0 <= k < rest.len() && rest[k] == x;
                    assert(users[k] == x);
                } else {
                    assert(x == last);
                    assert(users[users.len() - 1] == x);
                }
            }
        }
        if users.no_duplicates() {
            assert(rest.no_duplicates()) by {
                assert forall|a: int, b: int|
                    0 <= a < rest.len() && 0 <= b < rest.len() && a != b implies rest[a]
                    != rest[b] by {
                    assert(rest[a] == users[a] && rest[b] == users[b]);
                }
            }
            if last != name {
                assert(!rest.contains(last)) by {
                    if rest.contains(last) {
                        let k = choose|k: int| 0 <= k < rest.len() && rest[k] == last;
                        assert(users[k] == users[users.len() - 1]);
                    }
                }
                assert(!wr.contains(last));
                assert forall|a: int, b: int|
                    0 <= a < w.len() && 0 <= b < w.len() && a != b implies w[a] != w[b] by {
                    if a == wr.len() {
                        assert(wr.contains(w[b]));
                    } else if b == wr.len() {
                        assert(wr.contains(w[a]));
                    } else {
                        assert(w[a] == wr[a] && w[b] == wr[b]);
                    }
                }
            }
        }
        if !users.contains(name) {
            assert(!rest.contains(name)) by {
                if rest.contains(name) {
                    let k = choose|k: int| 0 <= k < rest.len() && rest[k] == name;
                    assert(users[k] == name);
                }
            }
            assert(last != name) by {
                assert(users[users.len() - 1] == last);
            }
            assert(w =~= users);
        }
    }
}

/// A user who joins under a name that is not online and then leaves leaves
/// the list of users as it was.
pub proof fn lemma_join_then_leave(users: Seq<Seq<char>>, name: Seq<char>)
    requires
        users.no_duplicates(),
        !users.contains(name),
    ensures
        without_user(with_user(users, name), name) == users,
{
    lemma_without_user(users, name);
    assert(users.push(name).drop_last() =~= users);
}

/// After a join the name is online; after a leave it is not, and nobody else
/// went offline.
pub proof fn lemma_join_and_leave_membership(users: Seq<Seq<char>>, name: Seq<char>)
    ensures
        with_user(users, name).contains(name),
        forall|x: Seq<char>| users.contains(x) ==> #[trigger] with_user(users, name).contains(x),
        !without_user(users, name).contains(name),
        forall|x: Seq<char>|
            users.contains(x) && x != name ==> #[trigger] without_user(users, name).contains(x),
{
    lemma_without_user(users, name);
    if !users.contains(name) {
        assert(users.push(name)[users.len() as int] == name);
        assert forall|x: Seq<char>| users.contains(x) implies #[trigger] with_user(
            users,
            name,
        ).contains(x) by {
            let k = choose|k: int| 0 <= k < users.len() && users[k] == x;
            assert(users.push(name)[k] == x);
        }
    }
}

/// The history never holds more than [`HISTORY_LIMIT`] messages; a new
/// message is always the last one kept, and the messages kept are the newest,
/// in the order in which they were posted.
pub proof fn lemma_history_keeps_newest(history: Seq<EventView>, event: EventView)
    requires
        history.len() <= HISTORY_LIMIT,
    ensures
        capped(history.push(event)).len() <= HISTORY_LIMIT,
        capped(history.push(event)).last() == event,
        capped(history.push(event)) == history.push(event).subrange(
            history.push(event).len() - capped(history.push(event)).len(),
            history.push(event).len() as int,
        ),
        history.len() < HISTORY_LIMIT ==> capped(history.push(event)) == history.push(event),
{
    let h = history.push(event);
    if h.len() > HISTORY_LIMIT {
        assert(h.drop_first() =~= h.subrange(1, h.len() as int));
    } else {
        assert(h =~= h.subrange(0, h.len() as int));
    }
}

/// The history that `name` receives holds exactly the kept events that are
/// not private messages between two other users, in their order.
pub proof fn lemma_history_privacy(history: Seq<EventView>, name: Seq<char>)
    ensures
        forall|e: EventView|
            #[trigger] visible_history(history, name).contains(e) <==> (history.contains(e)
                && visible_to(name, e)),
        visible_history(history, name).len() <= history.len(),
    decreases history.len(),
{
    if history.len() > 0 {
        let rest = history.drop_last();
        let last = history.last();
        lemma_history_privacy(rest, name);
        let v = visible_history(history, name);
        let vr = visible_history(rest, name);
        assert forall|e: EventView| #[trigger] v.contains(e) <==> (history.contains(e) && visible_to(
            name,
            e,
        )) by {
            if history.contains(e) && visible_to(name, e) {
                let k = choose|k: int| 0 <= k < history.len() && history[k] == e;
                if k < rest.len() {
                    assert(rest[k] == e);
                    assert(vr.contains(e));
                    let m = choose|m: int| 0 <= m < vr.len() && vr[m] == e;
                    assert(v[m] == e);
                } else {
                    assert(v[v.len() - 1] == e);
                }
            }
            if v.contains(e) {
                let m = choose|m: int| 0 <= m < v.len() && v[m] == e;
                if m < vr.len() {
                    assert(vr[m] == e);
                    assert(vr.contains(e));
                    let k = choose|k: int| 0 <= k < rest.len() && rest[k] == e;
                    assert(history[k] == e);
                } else {
                    assert(history[history.len() - 1] == e);
                }
            }
        }
    }
}

/// A private message is delivered to nobody but its recipient and its sender.
pub proof fn lemma_private_messages_stay_private(
    online: Seq<Seq<char>>,
    sender: Seq<char>,
    msg: ClientMessageView,
)
    requires
        msg.recipient is Some,
    ensures
        forall|i: int|
            0 <= i < message_notices(online, sender, msg).len() ==> {
                let to = (#[trigger] message_notices(online, sender, msg)[i]).0;
                to == msg.recipient->0 || to == sender
            },
        message_notices(online, sender, msg).len() <= 2,
{
}

/// A public message reaches every user online, once each, in the order in
/// which they joined.
pub proof fn lemma_public_messages_reach_everyone(conns: Seq<Seq<char>>, event: EventView)
    ensures
        broadcast_notices(conns, event).len() == conns.len(),
        forall|i: int|
            0 <= i < conns.len() ==> #[trigger] broadcast_notices(conns, event)[i] == (
                conns[i],
                event,
            ),
    decreases conns.len(),
{
    if conns.len() > 0 {
        lemma_public_messages_reach_everyone(conns.drop_last(), event);
    }
}

/// When `name` joins, every connection is told the new list of users, every
/// other connection is told that `name` joined, `name` itself is not, and
/// nothing goes to a name that is not online.
pub proof fn lemma_join_tells_everyone(conns: Seq<Seq<char>>, online: Seq<Seq<char>>, name: Seq<char>)
    ensures
        forall|u: Seq<char>|
            conns.contains(u) ==> #[trigger] join_notices(conns, online, name).contains(
                (u, EventView::SyncUsers(online)),
            ),
        forall|u: Seq<char>|
            conns.contains(u) && u != name ==> #[trigger] join_notices(conns, online, name).contains(
                (u, EventView::UserJoined(name)),
            ),
        !join_notices(conns, online, name).contains((name, EventView::UserJoined(name))),
        forall|i: int|
            0 <= i < join_notices(conns, online, name).len() ==> conns.contains(
                (#[trigger] join_notices(conns, online, name)[i]).0,
            ),
    decreases conns.len(),
{
    if conns.len() > 0 {
        let rest = conns.drop_last();
        let u0 = conns.last();
        lemma_join_tells_everyone(rest, online, name);
        let jr = join_notices(rest, online, name);
        let j = join_notices(conns, online, name);
        let sync = jr.push((u0, EventView::SyncUsers(online)));
        assert(j == if u0 != name { sync.push((u0, EventView::UserJoined(name))) } else { sync });
        assert forall|u: Seq<char>| conns.contains(u) implies #[trigger] j.contains(
            (u, EventView::SyncUsers(online)),
        ) by {
            let k = choose|k: int| 0 <= k < conns.len() && conns[k] == u;
            if k < rest.len() {
                assert(rest[k] == u);
                assert(jr.contains((u, EventView::SyncUsers(online))));
                let m = choose|m: int| 0 <= m < jr.len() && jr[m] == (u, EventView::SyncUsers(online));
                assert(sync[m] == jr[m]);
                assert(j[m] == jr[m]);
            } else {
                assert(j[jr.len() as int] == (u0, EventView::SyncUsers(online)));
            }
        }
        assert forall|u: Seq<char>| conns.contains(u) && u != name implies #[trigger] j.contains(
            (u, EventView::UserJoined(name)),
        ) by {
            let k = choose|k: int| 0 <= k < conns.len() && conns[k] == u;
            if k < rest.len() {
                assert(rest[k] == u);
                assert(jr.contains((u, EventView::UserJoined(name))));
                let m = choose|m: int| 0 <= m < jr.len() && jr[m] == (u, EventView::UserJoined(name));
                assert(sync[m] == jr[m]);
                assert(j[m] == jr[m]);
            } else {
                assert(j[jr.len() as int + 1] == (u0, EventView::UserJoined(name)));
            }
        }
        assert(!j.contains((name, EventView::UserJoined(name)))) by {
            if j.contains((name, EventView::UserJoined(name))) {
                let m = choose|m: int| 0 <= m < j.len() && j[m] == (name, EventView::UserJoined(name));
                if m < jr.len() {
                    assert(jr[m] == j[m]);
                }
            }
        }
        assert forall|i: int| 0 <= i < j.len() implies conns.contains((#[trigger] j[i]).0) by {
            if i < jr.len() {
                assert(j[i] == jr[i]);
                let k = choose|k: int| 0 <= k < rest.len() && rest[k] == jr[i].0;
                assert(conns[k] == rest[k]);
            } else {
                assert(j[i].0 == u0);
                assert(conns[conns.len() - 1] == u0);
            }
        }
    }
}

/// When `name` leaves, every remaining connection is told that `name` left
/// and the new list of users, and nothing goes to anyone else.
pub proof fn lemma_leave_tells_everyone(conns: Seq<Seq<char>>, online: Seq<Seq<char>>, name: Seq<char>)
    ensures
        forall|u: Seq<char>|
            conns.contains(u) ==> #[trigger] leave_notices(conns, online, name).contains(
                (u, EventView::UserLeft(name)),
            ),
        forall|u: Seq<char>|
            conns.contains(u) ==> #[trigger] leave_notices(conns, online, name).contains(
                (u, EventView::SyncUsers(online)),
            ),
        forall|i: int|
            0 <= i < leave_notices(conns, online, name).len() ==> conns.contains(
                (#[trigger] leave_notices(conns, online, name)[i]).0,
            ),
        leave_notices(conns, online, name).len() == 2 * conns.len(),
    decreases conns.len(),
{
    if conns.len() > 0 {
        let rest = conns.drop_last();
        let u0 = conns.last();
        lemma_leave_tells_everyone(rest, online, name);
        let lr = leave_notices(rest, online, name);
        let l = leave_notices(conns, online, name);
        let mid = lr.push((u0, EventView::UserLeft(name)));
        assert(l == mid.push((u0, EventView::SyncUsers(online))));
        assert forall|u: Seq<char>| conns.contains(u) implies #[trigger] l.contains(
            (u, EventView::UserLeft(name)),
        ) by {
            let k = choose|k: int| 0 <= k < conns.len() && conns[k] == u;
            if k < rest.len() {
                assert(rest[k] == u);
                assert(lr.contains((u, EventView::UserLeft(name))));
                let m = choose|m: int| 0 <= m < lr.len() && lr[m] == (u, EventView::UserLeft(name));
                assert(mid[m] == lr[m]);
                assert(l[m] == lr[m]);
            } else {
                assert(l[lr.len() as int] == (u0, EventView::UserLeft(name)));
            }
        }
        assert forall|u: Seq<char>| conns.contains(u) implies #[trigger] l.contains(
            (u, EventView::SyncUsers(online)),
        ) by {
            let k = choose|k: int| 0 <= k < conns.len() && conns[k] == u;
            if k < rest.len() {
                assert(rest[k] == u);
                assert(lr.contains((u, EventView::SyncUsers(online))));
                let m = choose|m: int|
                    0 <= m < lr.len() && lr[m] == (u, EventView::SyncUsers(online));
                assert(mid[m] == lr[m]);
                assert(l[m] == lr[m]);
            } else {
                assert(l[lr.len() as int + 1] == (u0, EventView::SyncUsers(online)));
            }
        }
        assert forall|i: int| 0 <= i < l.len() implies conns.contains((#[trigger] l[i]).0) by {
            if i < lr.len() {
                assert(l[i] == lr[i]);
                let k = choose|k: int| 0 <= k < rest.len() && rest[k] == lr[i].0;
                assert(conns[k] == rest[k]);
            } else {
                assert(l[i].0 == u0);
                assert(conns[conns.len() - 1] == u0);
            }
        }
    }
}

/// Where a private message goes: to the recipient when the recipient is
/// online, first, and back to the sender when the sender is online, and
/// nowhere else. Every delivery carries the message exactly as posted.
pub proof fn lemma_private_message_routing(
    online: Seq<Seq<char>>,
    sender: Seq<char>,
    text: Seq<char>,
    recipient: Seq<char>,
)
    ensures
        ({
            let msg = ClientMessageView { text, recipient: Some(recipient) };
            let event = EventView::Message { user: sender, text, recipient: Some(recipient) };
            let out = message_notices(online, sender, msg);
            &&& online.contains(recipient) <==> out.contains((recipient, event))
            &&& online.contains(sender) <==> out.contains((sender, event))
            &&& online.contains(recipient) ==> out.len() > 0 && out[0] == (recipient, event)
            &&& out.len() == (if online.contains(recipient) { 1int } else { 0int }) + (if online.contains(
                sender,
            ) {
                1int
            } else {
                0int
            })
            &&& forall|i: int|
                0 <= i < out.len() ==> (#[trigger] out[i]).1 == event && (out[i].0 == recipient
                    || out[i].0 == sender)
        }),
{
    let msg = ClientMessageView { text, recipient: Some(recipient) };
    let event = EventView::Message { user: sender, text, recipient: Some(recipient) };
    let out = message_notices(online, sender, msg);
    if online.contains(recipient) {
        assert(out[0] == (recipient, event));
    }
    if online.contains(sender) {
        assert(out[out.len() - 1] == (sender, event));
    }
}

/// Where a public message goes: to every user online, once each, in the
/// order in which they joined, carrying the message exactly as posted.
pub proof fn lemma_public_message_routing(online: Seq<Seq<char>>, sender: Seq<char>, text: Seq<char>)
    ensures
        ({
            let out = message_notices(online, sender, ClientMessageView { text, recipient: None });
            &&& out.len() == online.len()
            &&& forall|i: int|
                0 <= i < online.len() ==> #[trigger] out[i] == (
                    online[i],
                    EventView::Message { user: sender, text, recipient: None },
                )
        }),
{
    lemma_public_messages_reach_everyone(
        online,
        EventView::Message { user: sender, text, recipient: None },
    );
}

/// A join sends nothing but the user list to each connection and the news of
/// the arrival to each other connection: one list per connection, one arrival
/// per connection other than the newcomer's, and no other event.
pub proof fn lemma_join_sends_nothing_else(
    conns: Seq<Seq<char>>,
    online: Seq<Seq<char>>,
    name: Seq<char>,
)
    requires
        conns.no_duplicates(),
    ensures
        forall|i: int|
            0 <= i < join_notices(conns, online, name).len() ==> {
                let n = #[trigger] join_notices(conns, online, name)[i];
                ||| n.1 == EventView::SyncUsers(online)
                ||| n.1 == EventView::UserJoined(name) && n.0 != name
            },
        join_notices(conns, online, name).len() == 2 * conns.len() - (if conns.contains(name) {
            1int
        } else {
            0int
        }),
    decreases conns.len(),
{
    if conns.len() > 0 {
        let rest = conns.drop_last();
        let u0 = conns.last();
        assert(rest.no_duplicates()) by {
            assert forall|a: int, b: int|
                0 <= a < rest.len() && 0 <= b < rest.len() && a != b implies rest[a] != rest[b] by {
                assert(rest[a] == conns[a] && rest[b] == conns[b]);
            }
        }
        lemma_join_sends_nothing_else(rest, online, name);
        let jr = join_notices(rest, online, name);
        let j = join_notices(conns, online, name);
        let sync = jr.push((u0, EventView::SyncUsers(online)));
        assert(j == if u0 != name { sync.push((u0, EventView::UserJoined(name))) } else { sync });
        assert forall|i: int| 0 <= i < j.len() implies {
            let n = #[trigger] j[i];
            ||| n.1 == EventView::SyncUsers(online)
            ||| n.1 == EventView::UserJoined(name) && n.0 != name
        } by {
            if i < jr.len() {
                assert(sync[i] == jr[i]);
                assert(j[i] == jr[i]);
            }
        }
        if u0 == name {
            assert(!rest.contains(name)) by {
                if rest.contains(name) {
                    let k = choose|k: int| 0 <= k < rest.len() && rest[k] == name;
                    assert(conns[k] == conns[conns.len() - 1]);
                }
            }
            assert(conns[conns.len() - 1] == name);
        } else {
            assert(conns.contains(name) == rest.contains(name)) by {
                if conns.contains(name) {
                    let k = choose|k: int| 0 <= k < conns.len() && conns[k] == name;
                    assert(k < rest.len());
                    assert(rest[k] == name);
                }
                if rest.contains(name) {
                    let k = choose|k: int| 0 <= k < rest.len() && rest[k] == name;
                    assert(conns[k] == name);
                }
            }
        }
    }
}

/// What the history shows a user on joining: every public message, the
/// private messages that the user sent or received, and no private message
/// between two others. A history without private messages is shown whole.
pub proof fn lemma_history_shown_on_joining(history: Seq<EventView>, name: Seq<char>)
    ensures
        forall|user: Seq<char>, text: Seq<char>|
            history.contains(EventView::Message { user, text, recipient: None }) ==> #[trigger] visible_history(
                history,
                name,
            ).contains(EventView::Message { user, text, recipient: None }),
        forall|user: Seq<char>, text: Seq<char>, r: Seq<char>|
            history.contains(EventView::Message { user, text, recipient: Some(r) }) && (user == name
                || r == name) ==> #[trigger] visible_history(history, name).contains(
                EventView::Message { user, text, recipient: Some(r) },
            ),
        forall|user: Seq<char>, text: Seq<char>, r: Seq<char>|
            user != name && r != name ==> !#[trigger] visible_history(history, name).contains(
                EventView::Message { user, text, recipient: Some(r) },
            ),
        (forall|i: int|
            0 <= i < history.len() ==> (#[trigger] history[i] matches EventView::Message {
                recipient: None,
                ..
            })) ==> visible_history(history, name) == history,
    decreases history.len(),
{
    lemma_history_privacy(history, name);
    if history.len() > 0 {
        let rest = history.drop_last();
        lemma_history_shown_on_joining(rest, name);
        if forall|i: int|
            0 <= i < history.len() ==> (#[trigger] history[i] matches EventView::Message {
                recipient: None,
                ..
            }) {
            assert forall|i: int| 0 <= i < rest.len() implies (#[trigger] rest[i] matches EventView::Message {
                recipient: None,
                ..
            }) by {
                assert(rest[i] == history[i]);
            }
            assert(history[history.len() - 1] == history.last());
            assert(rest.push(history.last()) =~= history);
        }
    }
}

/// A name that joins is listed last, after everyone already online, in their
/// order; a name already online leaves the list as it is.
pub proof fn lemma_joining_lists_last(users: Seq<Seq<char>>, name: Seq<char>)
    ensures
        !users.contains(name) ==> {
            &&& with_user(users, name).len() == users.len() + 1
            &&& with_user(users, name).last() == name
            &&& with_user(users, name).subrange(0, users.len() as int) == users
        },
        users.contains(name) ==> with_user(users, name) == users,
{
    if !users.contains(name) {
        assert(users.push(name).subrange(0, users.len() as int) =~= users);
    }
}

/// A name that leaves is taken out of its place in the list, and everyone
/// else keeps their order.
pub proof fn lemma_leaving_keeps_order(users: Seq<Seq<char>>, name: Seq<char>, k: int)
    requires
        users.no_duplicates(),
        0 <= k < users.len(),
        users[k] == name,
    ensures
        without_user(users, name) == users.remove(k),
    decreases users.len(),
{
    let rest = users.drop_last();
    let last = users.last();
    if k == users.len() - 1 {
        assert(!rest.contains(name)) by {
            if rest.contains(name) {
                let m = choose|m: int| 0 <= m < rest.len() && rest[m] == name;
                assert(users[m] == users[k]);
            }
        }
        lemma_without_user(rest, name);
        assert(rest =~= users.remove(k));
    } else {
        assert(rest.no_duplicates()) by {
            assert forall|a: int, b: int|
                0 <= a < rest.len() && 0 <= b < rest.len() && a != b implies rest[a] != rest[b] by {
                assert(rest[a] == users[a] && rest[b] == users[b]);
            }
        }
        assert(rest[k] == name);
        lemma_leaving_keeps_order(rest, name, k);
        assert(last != name) by {
            assert(users[users.len() - 1] == last);
        }
        assert(rest.remove(k).push(last) =~= users.remove(k));
    }
}

impl AppState {
    /// Every name is online at most once, and the history keeps at most
    /// [`HISTORY_LIMIT`] messages. Every value of the type keeps this.
    #[verifier::type_invariant]
    pub open spec fn wf(&self) -> bool {
        &&& self@.users.no_duplicates()
        &&& self@.history.len() <= HISTORY_LIMIT
    }

    /// A server with nobody online and no history.
    pub fn new() -> (res: AppState)
        ensures
            res.wf(),
            res@.users == Seq::<Seq<char>>::empty(),
            res@.history == Seq::<EventView>::empty(),
    {
        let res = AppState { users: Vec::new(), history: VecDeque::new() };
        assert(res@.users =~= Seq::<Seq<char>>::empty());
        assert(res@.history =~= Seq::<EventView>::empty());
        res
    }

    /// Whether `name` is online.
    pub fn is_online(&self, name: &str) -> (res: bool)
        ensures
            res == self@.users.contains(name@),
    {
        let n = self.users.len();
        for i in 0..n
            invariant
                n == self.users.len(),
                self@ == (ServerView { users: self.users.deep_view(), history: self.history.deep_view() }),
                forall|j: int| 0 <= j < i ==> self@.users[j] != name@,
        {
            if str_equal(self.users[i].as_str(), name) {
                assert(self@.users[i as int] == name@);
                return true;
            }
        }
        false
    }

    /// `name` comes online: it is added to the users if it was not there, and
    /// every connection is told the new list of users and, but for `name`'s
    /// own, that `name` joined.
    pub fn join(&mut self, name: &str) -> (out: Vec<Delivery>)
        ensures
            final(self).wf(),
            final(self)@.users == with_user(old(self)@.users, name@),
            final(self)@.history == old(self)@.history,
            out.deep_view() == join_notices(final(self)@.users, final(self)@.users, name@),
    {
        proof {
            use_type_invariant(&*self);
        }
        if !self.is_online(name) {
            let ghost before = self@.users;
            let mut users: Vec<String> = Vec::new();
            std::mem::swap(&mut users, &mut self.users);
            users.push(String::from_str(name));
            assert(users.deep_view() =~= before.push(name@));
            assert forall|a: int, b: int|
                0 <= a < users.deep_view().len() && 0 <= b < users.deep_view().len() && a != b implies
                users.deep_view()[a] != users.deep_view()[b] by {
                if a == before.len() {
                    assert(users.deep_view()[b] == before[b]);
                } else if b == before.len() {
                    assert(users.deep_view()[a] == before[a]);
                }
            }
            self.users = users;
        }
        let ghost online = self@.users;
        let mut out: Vec<Delivery> = Vec::new();
        let n = self.users.len();
        assert(out.deep_view() =~= join_notices(online.take(0), online, name@));
        for i in 0..n
            invariant
                n == self.users.len(),
                online == self.users.deep_view(),
                out.deep_view() == join_notices(online.take(i as int), online, name@),
        {
            let ghost prev = out.deep_view();
            let ghost u = online[i as int];
            let to = self.users[i].clone();
            let everyone = copy_names(&self.users);
            out.push(Delivery { to, event: ChatEvent::SyncUsers(everyone) });
            assert(out.deep_view() =~= prev.push((u, EventView::SyncUsers(online))));
            if !str_equal(self.users[i].as_str(), name) {
                let ghost prev2 = out.deep_view();
                out.push(
                    Delivery { to: self.users[i].clone(), event: ChatEvent::UserJoined(String::from_str(name)) },
                );
                assert(out.deep_view() =~= prev2.push((u, EventView::UserJoined(name@))));
            }
            assert(online.take(i + 1).drop_last() =~= online.take(i as int));
        }
        assert(online.take(n as int) =~= online);
        out
    }

    /// `name`'s connection closed. A connection that never sent a name (the
    /// empty name) changes nothing and keeps its channel. Otherwise `name` is
    /// no longer online, the channel kept for `name` is to be dropped, and
    /// every remaining connection is told that `name` left, then the new list
    /// of users.
    pub fn leave(&mut self, name: &str) -> (out: Departure)
        ensures
            final(self).wf(),
            final(self)@.history == old(self)@.history,
            out.drop_connection == (name@.len() > 0),
            name@.len() == 0 ==> final(self)@.users == old(self)@.users && out.notices.deep_view()
                == Seq::<Notice>::empty(),
            name@.len() > 0 ==> final(self)@.users == without_user(old(self)@.users, name@)
                && out.notices.deep_view() == leave_notices(
                final(self)@.users,
                final(self)@.users,
                name@,
            ),
    {
        proof {
            use_type_invariant(&*self);
        }
        if name.is_empty() {
            let out: Vec<Delivery> = Vec::new();
            assert(out.deep_view() =~= Seq::<Notice>::empty());
            return Departure { notices: out, drop_connection: false };
        }
        let ghost before = self@.users;
        let mut kept: Vec<String> = Vec::new();
        let n = self.users.len();
        assert(kept.deep_view() =~= without_user(before.take(0), name@));
        for i in 0..n
            invariant
                n == self.users.len(),
                before == self.users.deep_view(),
                kept.deep_view() == without_user(before.take(i as int), name@),
        {
            let ghost prev = kept.deep_view();
            assert(before.take(i + 1).drop_last() =~= before.take(i as int));
            if !str_equal(self.users[i].as_str(), name) {
                kept.push(self.users[i].clone());
                assert(kept.deep_view() =~= prev.push(before[i as int]));
            }
        }
        assert(before.take(n as int) =~= before);
        proof {
            lemma_without_user(before, name@);
        }
        self.users = kept;
        let ghost online = self@.users;
        let mut out: Vec<Delivery> = Vec::new();
        let m = self.users.len();
        assert(out.deep_view() =~= leave_notices(online.take(0), online, name@));
        for i in 0..m
            invariant
                m == self.users.len(),
                online == self.users.deep_view(),
                out.deep_view() == leave_notices(online.take(i as int), online, name@),
        {
            let ghost prev = out.deep_view();
            let ghost u = online[i as int];
            out.push(
                Delivery { to: self.users[i].clone(), event: ChatEvent::UserLeft(String::from_str(name)) },
            );
            let everyone = copy_names(&self.users);
            out.push(Delivery { to: self.users[i].clone(), event: ChatEvent::SyncUsers(everyone) });
            assert(out.deep_view() =~= prev.push((u, EventView::UserLeft(name@))).push(
                (u, EventView::SyncUsers(online)),
            ));
            assert(online.take(i + 1).drop_last() =~= online.take(i as int));
        }
        assert(online.take(m as int) =~= online);
        Departure { notices: out, drop_connection: true }
    }

    /// `sender` posts `msg`. The message is appended to the history, which
    /// then drops its oldest message if it holds more than [`HISTORY_LIMIT`].
    /// A public message goes to every connection; a private one to the
    /// recipient and back to the sender, each where that name is online.
    pub fn post(&mut self, sender: &str, msg: ClientMessage) -> (out: Vec<Delivery>)
        ensures
            final(self).wf(),
            final(self)@.users == old(self)@.users,
            final(self)@.history == capped(old(self)@.history.push(posted_event(sender@, msg@))),
            out.deep_view() == message_notices(old(self)@.users, sender@, msg@),
    {
        broadcast use vstd::std_specs::vecdeque::group_vec_dequeue_axioms;

        let ghost m = msg@;
        let ghost before = self@.history;
        let ClientMessage { text, recipient } = msg;
        let event = ChatEvent::Message {
            user: String::from_str(sender),
            text,
            recipient: copy_optional_name(&recipient),
        };
        assert(event@ == posted_event(sender@, m));
        proof {
            use_type_invariant(&*self);
        }
        let mut history: VecDeque<ChatEvent> = VecDeque::new();
        std::mem::swap(&mut history, &mut self.history);
        history.push_back(event.duplicate());
        assert(history.deep_view() =~= before.push(event@));
        if history.len() > HISTORY_LIMIT {
            let _ = history.pop_front();
            assert(history.deep_view() =~= before.push(event@).drop_first());
        }
        self.history = history;
        let mut out: Vec<Delivery> = Vec::new();
        let ghost online = self@.users;
        match recipient {
            Some(r) => {
                if self.is_online(r.as_str()) {
                    out.push(Delivery { to: r, event: event.duplicate() });
                }
                let ghost first = out.deep_view();
                assert(first =~= (if online.contains(m.recipient->0) {
                    seq![(m.recipient->0, event@)]
                } else {
                    Seq::<Notice>::empty()
                }));
                if self.is_online(sender) {
                    out.push(Delivery { to: String::from_str(sender), event: event.duplicate() });
                    assert(out.deep_view() =~= first.push((sender@, event@)));
                }
            },
            None => {
                let n = self.users.len();
                assert(out.deep_view() =~= broadcast_notices(online.take(0), event@));
                for i in 0..n
                    invariant
                        n == self.users.len(),
                        online == self.users.deep_view(),
                        out.deep_view() == broadcast_notices(online.take(i as int), event@),
                {
                    let ghost prev = out.deep_view();
                    out.push(Delivery { to: self.users[i].clone(), event: event.duplicate() });
                    assert(out.deep_view() =~= prev.push((online[i as int], event@)));
                    assert(online.take(i + 1).drop_last() =~= online.take(i as int));
                }
                assert(online.take(n as int) =~= online);
            },
        }
        out
    }

    /// The history that `name` is sent on connecting: every kept event, oldest
    /// first, but for private messages that `name` neither sent nor received.
    pub fn history_for(&self, name: &str) -> (out: Vec<ChatEvent>)
        ensures
            out.deep_view() == visible_history(self@.history, name@),
    {
        broadcast use vstd::std_specs::vecdeque::group_vec_dequeue_axioms;

        let ghost h = self@.history;
        let mut out: Vec<ChatEvent> = Vec::new();
        let n = self.history.len();
        assert(out.deep_view() =~= visible_history(h.take(0), name@));
        for i in 0..n
            invariant
                n == self.history@.len(),
                h == self.history.deep_view(),
                out.deep_view() == visible_history(h.take(i as int), name@),
        {
            let ghost prev = out.deep_view();
            let event = &self.history[i];
            assert(event@ == h[i as int]);
            let shown = match event {
                ChatEvent::Message { user, text: _, recipient } => match recipient {
                    None => true,
                    Some(r) => str_equal(r.as_str(), name) || str_equal(user.as_str(), name),
                },
                _ => true,
            };
            assert(shown == visible_to(name@, h[i as int]));
            if shown {
                out.push(event.duplicate());
                assert(out.deep_view() =~= prev.push(h[i as int]));
            }
            assert(h.take(i + 1).drop_last() =~= h.take(i as int));
        }
        assert(h.take(n as int) =~= h);
        out
    }
}

} // verus!
