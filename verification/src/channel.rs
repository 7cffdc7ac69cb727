//! The one-shot channels of `tokio` that carry a response to the task that
//! waits for it.

use bytes::Bytes;
use tokio::sync::oneshot;
use vstd::prelude::*;

verus! {

/// What is handed to the task that waits for a response: the error code of the
/// AMS header, and the bytes that follow the header.
#[derive(Debug)]
pub struct HandleData {
    pub ams_err: u32,
    pub payload: Bytes,
}

/// `tokio::sync::oneshot::Sender`: the sending half of a one-shot channel.
#[verifier::external_type_specification]
#[verifier::external_body]
#[verifier::reject_recursive_types(T)]
pub struct ExSender<T>(tokio::sync::oneshot::Sender<T>);

/// `tokio::sync::oneshot::Receiver`: the receiving half of a one-shot channel.
#[verifier::external_type_specification]
#[verifier::external_body]
#[verifier::reject_recursive_types(T)]
pub struct ExReceiver<T>(tokio::sync::oneshot::Receiver<T>);

/// `tokio::sync::oneshot::error::RecvError`: what awaiting a receiver gives
/// where the sender was dropped before it sent.
#[verifier::external_type_specification]
#[verifier::external_body]
pub struct ExRecvError(tokio::sync::oneshot::error::RecvError);

/// The two halves came out of one call of `oneshot::channel`.
pub uninterp spec fn same_channel(
    sender: oneshot::Sender<HandleData>,
    receiver: oneshot::Receiver<HandleData>,
) -> bool;

/// `oneshot::channel` makes the two halves of one new channel.
#[verifier::external_body]
pub(crate) fn channel() -> (halves: (oneshot::Sender<HandleData>, oneshot::Receiver<HandleData>))
    ensures
        same_channel(halves.0, halves.1),
{
    oneshot::channel()
}

/// `result` is what `Sender::send` may give for `data` on `sender`.
pub uninterp spec fn sent(
    sender: oneshot::Sender<HandleData>,
    data: HandleData,
    result: Result<(), HandleData>,
) -> bool;

/// `Sender::send` sends a value on its channel, and gives it back where the
/// receiver is gone. Whether it is gone is up to the task that holds it: nothing
/// says which of the two comes.
#[verifier::external_body]
pub(crate) fn send(sender: oneshot::Sender<HandleData>, data: HandleData) -> (result: Result<
    (),
    HandleData,
>)
    ensures
        sent(sender, data, result),
        result matches Err(back) ==> back == data,
{
    sender.send(data)
}

} // verus!
