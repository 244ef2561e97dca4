//! The trusted interface to the host platform.
//!
//! The pool delivers each task's outcome over a standard library channel and
//! draws randomized backoff delays from the process-wide generator. Neither
//! can be proved from within the library; each item here is believed on the
//! strength of the documented behaviour of the function its body calls, and
//! says no more than that behaviour supports.

use vstd::prelude::*;

use crate::python_pool::values::MyResult;
use crate::python_pool::values::PythonTaskResult;

verus! {

/// The sending half of a standard channel.
#[verifier::external_type_specification]
#[verifier::external_body]
#[verifier::reject_recursive_types(T)]
pub struct ExSender<T>(std::sync::mpsc::Sender<T>);

/// The receiving half of a standard channel.
#[verifier::external_type_specification]
#[verifier::external_body]
#[verifier::reject_recursive_types(T)]
pub struct ExReceiver<T>(std::sync::mpsc::Receiver<T>);

/// Relies on `std::sync::mpsc::channel`: creates a connected pair of channel
/// halves. Which values later travel between them depends on both threads,
/// so nothing is promised here; what the pool guarantees about deliveries is
/// stated where the halves are used.
#[verifier::external_body]
pub(crate) fn open_result_channel() -> (ends: (
    std::sync::mpsc::Sender<MyResult<PythonTaskResult>>,
    std::sync::mpsc::Receiver<MyResult<PythonTaskResult>>,
))
{
    std::sync::mpsc::channel()
}

/// Relies on `std::sync::mpsc::Sender::send`: moves `outcome` to the paired
/// receiver, failing exactly when that receiver has been dropped. Whether
/// the peer is still there depends on the other thread, so nothing is
/// promised of the flag.
#[verifier::external_body]
pub(crate) fn send_outcome(
    sender: &std::sync::mpsc::Sender<MyResult<PythonTaskResult>>,
    outcome: MyResult<PythonTaskResult>,
) -> (delivered: bool) {
    sender.send(outcome).is_ok()
}

/// Relies on `std::sync::mpsc::Receiver::recv`: blocks until a value arrives
/// or every sender has been dropped, and yields the value, or nothing on
/// disconnection. What arrives depends on the sending thread, so nothing is
/// promised of the observation.
#[verifier::external_body]
pub(crate) fn receive_outcome(
    receiver: &std::sync::mpsc::Receiver<MyResult<PythonTaskResult>>,
) -> (observed: Option<MyResult<PythonTaskResult>>) {
    receiver.recv().ok()
}

/// Relies on `rand::random`: a value drawn from the thread-local generator.
/// Nothing can be promised of a random value.
pub assume_specification<T>[ rand::random::<T> ]() -> (r: T)
    where
        rand::distributions::Standard: rand::distributions::Distribution<T>,
;

} // verus!
