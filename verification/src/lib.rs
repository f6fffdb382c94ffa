//! Decision logic of a peer-to-peer messaging client's conversation list.
//!
//! The crate holds no I/O. A caller performs the work that takes time
//! (fetching a history, opening an event stream, waiting, unlocking the key
//! store) and hands the outcome to the types here, which decide what the
//! client's state becomes and what has to happen next.
//!
//! - [`watcher`]: the watcher of one conversation, a state machine that keeps
//!   the unread counter and the read watermark current.
//! - [`sidebar`]: the conversation list, one watcher per conversation, and
//!   the conversation on screen.
//! - [`unread`]: counting unread messages against a watermark.
//! - [`retry`]: the waits between attempts to open an event stream.
//! - [`conversation`], [`ident`]: the data that the above work on.
//! - [`title`]: whose name a conversation's row is titled with.
//! - [`unlock`]: the PIN prompt in front of the key store.

pub mod conversation;
pub mod ident;
pub mod retry;
pub mod sidebar;
pub mod title;
pub mod unlock;
pub mod unread;
pub mod watcher;
