//! The messages that travel over the socket between host and worker.

use vstd::prelude::*;

verus! {

/// The environment variable through which the host tells a worker where its
/// socket is.
pub const SOCKET_ENV_VAR: &'static str = "IPC2_SOCKET_PATH";

/// A message from the host to a worker.
pub enum ServerSocketMessage<T> {
    /// A message that expects no answer.
    Unidirectional { data: T },
    /// A message that the worker answers with a response carrying `job_id`.
    Bidirectional { data: T, job_id: u32 },
}

/// A message from a worker to the host.
pub enum ClientSocketMessage<T> {
    /// The answer to the host's job `job_id`.
    Response { data: T, job_id: u32 },
}

} // verus!
