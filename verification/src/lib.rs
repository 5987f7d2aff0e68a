//! The verified core of a small chat: the events it exchanges, the server's
//! bookkeeping of users and history, and the client's view of a conversation.
pub mod shared;
pub mod text;
pub mod server;
pub mod models;
pub mod chat_app;
pub mod link;
