//! Verified core of the runtime for trusted onelastleaf process plugins.
//!
//! The runtime owns the oll connection, protocol handshake, concurrent job
//! lifecycle, cooperative cancellation, host calls, structured logs, and
//! artifact transfer. This crate decides everything and performs nothing: each
//! module takes what happened (an envelope, the end of an action, bytes of a
//! source) and says what to do next. Sockets, tasks and clocks belong to whoever
//! drives it.
//!
//! - [`plugin`]: a plugin and its uniquely named actions.
//! - [`session`]: the handshake, the service of a ready session and its end.
//! - [`host`]: what an action can ask of its host, and what it returns.
//! - [`cancellation`]: the state that every action shares with its job.
//! - [`sender`]: numbering and addressing of outgoing messages.
//! - [`validation`] and [`value`]: which names, messages and values are accepted.
//! - [`protocol`]: the messages themselves.
//! - [`error`]: errors, and their form on the wire.
//! - [`foreign`]: what is taken on trust from other crates.

pub mod cancellation;
pub mod error;
pub mod foreign;
pub mod host;
pub mod plugin;
pub mod protocol;
pub mod sender;
pub mod session;
pub mod text;
pub mod validation;
pub mod value;

pub use cancellation::Cancellation;
pub use error::SdkError;
pub use host::{ActionContext, ActionResult, StoredArtifact};
pub use plugin::{Plugin, PluginBuilder};
