//! Ruggine, a chat in groups that are joined by invite.
//!
//! * [`messages`]: what clients and server say to each other.
//! * [`exchange`] deals with one message of a client; [`rules`] says how, [`world`] says what its
//!   requests mean, and [`laws`] and [`responses`] say what follows.
//! * [`state`] and [`connection`]: who is connected, and what to do about what arrives;
//!   [`session`] says what comes of all that arrives over a connection.
//! * [`server_laws`] says who hears of what the server does, and what becomes of failures.
//! * [`http`]: the HTTP API.
//! * [`clock`]: the time, and the CPU log.
//! * [`client`] and [`link`]: the client and its connection to the server; [`client_laws`] says
//!   what the client does about all that is typed and said.
//! * [`text`]: white space, words and numbers.
pub mod client;
pub mod client_laws;
pub mod clock;
pub mod connection;
pub mod exchange;
pub mod http;
pub mod laws;
pub mod link;
pub mod messages;
pub mod responses;
pub mod rules;
pub mod server_laws;
pub mod session;
pub mod state;
pub mod text;
pub mod world;
