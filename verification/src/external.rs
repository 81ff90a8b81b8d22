//! Outside types and calls that the library uses, with what is assumed of
//! them.

use vstd::prelude::*;

verus! {

/// `std::io::Error`, carried through unread.
#[verifier::external_type_specification]
#[verifier::external_body]
pub struct ExIoError(std::io::Error);

/// `bincode::ErrorKind` (a `bincode::Error` is a box of one), carried
/// through unread.
#[verifier::external_type_specification]
#[verifier::external_body]
pub struct ExBincodeErrorKind(bincode::ErrorKind);


/// `tokio::sync::oneshot::Sender`, the sending half of a one-shot channel;
/// carried through unread.
#[verifier::external_type_specification]
#[verifier::external_body]
#[verifier::reject_recursive_types(T)]
pub struct ExOneshotSender<T>(tokio::sync::oneshot::Sender<T>);

/// `tokio::sync::oneshot::Receiver`, the receiving half of a one-shot
/// channel; carried through unread.
#[verifier::external_type_specification]
#[verifier::external_body]
#[verifier::reject_recursive_types(T)]
pub struct ExOneshotReceiver<T>(tokio::sync::oneshot::Receiver<T>);


/// `tokio::sync::oneshot::error::RecvError`, what awaiting a one-shot
/// receiver gives when its sender was dropped. No function here uses it; it
/// is declared because it is the output of the receiver's `Future` impl,
/// which the receiver's declaration brings in.
#[verifier::external_type_specification]
#[verifier::external_body]
pub struct ExOneshotRecvError(tokio::sync::oneshot::error::RecvError);


/// Calls `tokio::sync::oneshot::channel`: a fresh one-shot channel, its
/// sending and its receiving half. Nothing is stated of the two halves; that
/// what is sent on the first arrives at the second is tokio's promise and is
/// not used by any proof.
#[verifier::external_body]
pub(crate) fn one_shot_channel<T>() -> (pair: (tokio::sync::oneshot::Sender<T>, tokio::sync::oneshot::Receiver<T>)) {
    tokio::sync::oneshot::channel()
}


/// `std::path::PathBuf`, carried through unread.
#[verifier::external_type_specification]
#[verifier::external_body]
pub struct ExPathBuf(std::path::PathBuf);

/// Calls `SystemTime::elapsed` on `SystemTime::UNIX_EPOCH`: the time since
/// the Unix epoch, or `None` where the clock reads earlier than the epoch.
/// What comes back depends on the clock; nothing is stated of it.
#[verifier::external_body]
pub(crate) fn time_since_unix_epoch() -> (elapsed: Option<core::time::Duration>) {
    std::time::SystemTime::UNIX_EPOCH.elapsed().ok()
}

/// `Duration::as_millis`: the whole milliseconds of a duration. The duration
/// is opaque here, so nothing is stated of the result.
pub assume_specification[ core::time::Duration::as_millis ](d: &core::time::Duration) -> (millis: u128);

/// Calls `num_cpus::get`: the number of logical cores available to this
/// process. It depends on the machine; its documentation and source
/// promise only that it is at least 1.
#[verifier::external_body]
pub(crate) fn logical_cpus() -> (n: usize)
    ensures
        n >= 1,
{
    num_cpus::get()
}

} // verus!
