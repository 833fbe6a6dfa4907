//! Channels between a controller and its systems: pairs of bounded tokio
//! queues with a cancellation token, and the line channels that stand in
//! for standard input and output.
use vstd::prelude::*;
use crate::subsys::Failure;

verus! {

#[verifier::external_type_specification]
#[verifier::external_body]
#[verifier::reject_recursive_types(T)]
pub struct ExSender<T>(tokio::sync::mpsc::Sender<T>);

#[verifier::external_type_specification]
#[verifier::external_body]
#[verifier::reject_recursive_types(T)]
pub struct ExReceiver<T>(tokio::sync::mpsc::Receiver<T>);

#[verifier::external_type_specification]
#[verifier::external_body]
#[verifier::reject_recursive_types(T)]
pub struct ExJoinHandle<T>(tokio::task::JoinHandle<T>);

#[verifier::external_type_specification]
#[verifier::external_body]
pub struct ExJoinError(tokio::task::JoinError);

#[verifier::external_type_specification]
#[verifier::external_body]
pub struct ExCancellationToken(tokio_util::sync::CancellationToken);

/// Calls `tokio::sync::mpsc::channel`, which panics on a capacity of 0 or
/// above `usize::MAX >> 3`; the two ends are opaque here.
#[verifier::external_body]
fn mpsc_channel<T>(size: usize) -> (tokio::sync::mpsc::Sender<T>, tokio::sync::mpsc::Receiver<T>)
    requires
        0 < size <= usize::MAX / 8,
{
    tokio::sync::mpsc::channel(size)
}

/// Calls `tokio_util::sync::CancellationToken::new`; the token is opaque here.
#[verifier::external_body]
fn new_cancellation_token() -> tokio_util::sync::CancellationToken {
    tokio_util::sync::CancellationToken::new()
}

/// A system's ends of its channel with the controller, and a token to
/// cancel it.
#[verifier::reject_recursive_types(TX)]
#[verifier::reject_recursive_types(RX)]
pub struct InternalChannel<TX, RX> {
    pub tx: tokio::sync::mpsc::Sender<TX>,
    pub rx: tokio::sync::mpsc::Receiver<RX>,
    pub cancel: tokio_util::sync::CancellationToken,
}

impl<TX, RX> InternalChannel<TX, RX> {
    /// One side's ends and the other side's, over two queues of `size`
    /// messages each: what one sends, the other receives.
    pub fn new_pair(size: usize) -> (r: (Self, (tokio::sync::mpsc::Sender<RX>, tokio::sync::mpsc::Receiver<TX>)))
        requires
            0 < size <= usize::MAX / 8,
    {
        let (left_tx, right_rx) = mpsc_channel::<TX>(size);
        let (right_tx, left_rx) = mpsc_channel::<RX>(size);
        let cancel = new_cancellation_token();
        (InternalChannel { tx: left_tx, rx: left_rx, cancel }, (right_tx, right_rx))
    }
}

/// The controller's ends of its channel with a running system, the token
/// to cancel it, and the system's task.
#[verifier::reject_recursive_types(TX)]
#[verifier::reject_recursive_types(RX)]
pub struct Channel<TX, RX> {
    pub tx: tokio::sync::mpsc::Sender<TX>,
    pub rx: tokio::sync::mpsc::Receiver<RX>,
    pub cancel: tokio_util::sync::CancellationToken,
    pub handle: tokio::task::JoinHandle<Result<(), Failure>>,
}

impl<TX, RX> Channel<TX, RX> {
    /// The controller's ends of a channel, with a fresh token.
    pub fn new(
        tuple: (tokio::sync::mpsc::Sender<TX>, tokio::sync::mpsc::Receiver<RX>),
        handle: tokio::task::JoinHandle<Result<(), Failure>>,
    ) -> (r: Self)
        ensures
            r.tx == tuple.0,
            r.rx == tuple.1,
            r.handle == handle,
    {
        let cancel = new_cancellation_token();
        Channel { tx: tuple.0, rx: tuple.1, cancel, handle }
    }
}

/// Lines in and out, over channels.
pub struct LineChannel {
    pub output: tokio::sync::mpsc::Sender<String>,
    pub input: tokio::sync::mpsc::Receiver<String>,
}

/// Where a system reads and writes its lines: standard input and output,
/// or a line channel.
pub enum SysIo {
    Stdio,
    LineChannel(LineChannel),
}

impl SysIo {
    /// Line channels over two queues of `size` lines: the system's side and
    /// the other side.
    pub fn new_channel(size: usize) -> (r: (Self, LineChannel))
        requires
            0 < size <= usize::MAX / 8,
        ensures
            r.0 is LineChannel,
    {
        let (left_tx, left_rx) = mpsc_channel::<String>(size);
        let (right_tx, right_rx) = mpsc_channel::<String>(size);
        (SysIo::LineChannel(LineChannel { output: left_tx, input: left_rx }), LineChannel { output: right_tx, input: right_rx })
    }

    pub fn is_stdio(&self) -> (b: bool)
        ensures
            b == (*self is Stdio),
    {
        matches!(self, SysIo::Stdio)
    }
}

} // verus!
