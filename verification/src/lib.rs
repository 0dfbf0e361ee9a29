//! A verified core for a peer-to-peer content-sharing system: a replicated
//! directory/presence service with heartbeat liveness and queued grant
//! workflows, and the decision logic of the framed peer-to-peer transfer
//! protocol.

pub mod api;
pub mod directory;
pub mod errors;
pub mod fanout;
pub mod framing;
pub mod messages;
pub mod permissions;
pub mod seqs;
pub mod store;
pub mod transfer;
pub mod workflow;
