//! The core of a server for editing text together: the state that the
//! connections share, the handling of each kind of message, and the
//! application of edits to the lines of a file.
//!
//! The library does no input or output. A caller reads a message from a
//! connection, hands it to [`connection::Connection::receive`] together with
//! the shared state, and writes what comes back to the recipients named.
//!
//! - [`types`]: the messages and their parts.
//! - [`edit`]: the edit of a document held as lines.
//! - [`registry`]: entries stored under string keys, in order.
//! - [`store`]: the shared state and its operations.
//! - [`delivery`]: who receives a message.
//! - [`dispatch`]: what each message does to the state, and what is sent.
//! - [`connection`]: what the server keeps for one connection.
//! - [`guarantees`]: what holds of the handling of messages, with proofs.
//! - [`color`], [`clock`]: the colour of a new user, and the time.
//! - [`model`]: views of lists and optional values.

pub mod clock;
pub mod color;
pub mod connection;
pub mod delivery;
pub mod dispatch;
pub mod edit;
pub mod guarantees;
pub mod model;
pub mod registry;
pub mod store;
pub mod types;
