# chat

A small WebSocket chat: a server that keeps who is online and the last fifty
messages, and a windowed client with a public conversation and private ones.

- `src/` is the verified library.
  - `shared.rs`: the events the server sends (`ChatEvent`) and the messages a
    client sends (`ClientMessage`), with their mathematical views.
  - `server.rs`: the server's state (`AppState`) and what happens when a user
    joins, posts or leaves, including whom each event is delivered to, with
    the laws that hold of those operations.
  - `models.rs`, `chat_app.rs`: the client's state (`ChatApp`): which events a
    conversation shows and how, what each network event does, login and
    sending, with the laws of the client.
  - `link.rs`: the client's connection as a state machine: connect, send
    the nickname first, relay chat events and typed lines while connected,
    and try again after a pause.
  - `text.rs`: trimming white space and comparing strings.
- `app/` is the unverified shell: the axum server and its sockets, the egui
  window and its network thread, and the JSON form of the messages. Run it as
  `server` or `client`.

The window is drawn with eframe/egui 0.27, which Cargo.toml does not list:
add `eframe = "0.27"` under `[dependencies]` to build `app/client.rs`. The
window reads its font from `assets/font.ttf` at start-up and keeps egui's
default font when that file is absent.
