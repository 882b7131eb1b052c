//! Directory synchronisation and remote execution: content digests, folder
//! signatures and their difference, length-prefixed framing, and the state
//! machines of the two ends of a connection.

pub mod digest;
pub mod error;
pub mod framing;
pub mod initiator;
pub mod protocol;
pub mod relay;
pub mod responder;
pub mod session;
pub mod signature;
pub mod walk;
