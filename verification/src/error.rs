//! The kinds of failure that end the handling of one connection.

use vstd::prelude::*;

verus! {

/// Why a synchronisation stopped. Each is recoverable by the caller: it ends
/// one connection, never the running instance.
#[derive(Clone, Copy, Debug, PartialEq, Eq, Structural)]
pub enum SyncError {
    /// Connecting, reading, writing or flushing failed, or the peer went away.
    Network,
    /// The peer sent something that is no complete, well-formed message.
    Protocol,
    /// A file or directory could not be opened, read, written or created.
    Filesystem,
    /// The child process could not be started.
    Process,
}

} // verus!
