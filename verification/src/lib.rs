//! Inter-process communication between a host process and its worker
//! processes: length-prefixed message frames, the table of jobs that await
//! a response, the decisions of the host's and the worker's event loops,
//! and the pool of workers that a job set draws from.

pub mod external;
pub mod frame;
pub mod manager;
pub mod message;
pub mod server;
pub mod util;
pub mod worker;
pub mod workerset;
