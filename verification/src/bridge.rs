//! The cross-runtime hand-off between the native executor and a foreign
//! cooperative event loop.
//!
//! Both directions of the bridge meet in a one-shot cell: the producing
//! side settles it exactly once with a value or an exception, the consuming
//! side observes that outcome unchanged.  A second attempt to settle a cell
//! is a bridge-invariant violation and fails loudly.  [`OneShotChannel`] is
//! the cell the foreign event loop awaits; [`OneShot`] is the native
//! sending half over the oneshot channel that native code awaits.

use vstd::prelude::*;

use crate::values::DiError;
use crate::values::DiErrorView;
use crate::values::HostException;
use crate::values::Value;

verus! {

/// The outcome a bridged computation delivers: the value it resolved to,
/// or the host exception it failed with, either carried across unchanged.
pub type BridgeOutcome = Result<Value, HostException>;

/// A one-shot cell's state: empty until settled once.
#[derive(Clone, Copy, PartialEq, Eq, Structural, Debug)]
pub enum ChannelState {
    Unset,
    SetValue(Value),
    SetException(HostException),
}

/// Settling a cell: only an unset cell accepts an outcome.
pub open spec fn spec_settle(state: ChannelState, outcome: BridgeOutcome) -> ChannelState {
    match state {
        ChannelState::Unset => match outcome {
            Ok(v) => ChannelState::SetValue(v),
            Err(e) => ChannelState::SetException(e),
        },
        _ => state,
    }
}

/// What awaiting a cell observes: nothing while it is unset, else the
/// outcome it was settled with.
pub open spec fn spec_observe(state: ChannelState) -> Option<BridgeOutcome> {
    match state {
        ChannelState::Unset => None,
        ChannelState::SetValue(v) => Some(Ok(v)),
        ChannelState::SetException(e) => Some(Err(e)),
    }
}

/// The hand-off cell awaited on the foreign event loop.  The native side
/// settles it (through the loop's thread-safe scheduling call); code on
/// the loop then observes the outcome.
pub struct OneShotChannel {
    state: ChannelState,
}

impl View for OneShotChannel {
    type V = ChannelState;

    closed spec fn view(&self) -> ChannelState {
        self.state
    }
}

impl OneShotChannel {
    pub fn new() -> (r: Self)
        ensures
            r@ == ChannelState::Unset,
    {
        OneShotChannel { state: ChannelState::Unset }
    }

    /// Settles the cell with a success value; a second settling attempt
    /// fails loudly and changes nothing.
    pub fn set(&mut self, value: Value) -> (r: Result<(), DiError>)
        ensures
            final(self)@ == spec_settle(old(self)@, Ok(value)),
            match r {
                Ok(()) => old(self)@ == ChannelState::Unset,
                Err(e) => old(self)@ != ChannelState::Unset && e@
                    == DiErrorView::ChannelAlreadySet,
            },
    {
        match self.state {
            ChannelState::Unset => {
                self.state = ChannelState::SetValue(value);
                Ok(())
            },
            _ => Err(DiError::ChannelAlreadySet),
        }
    }

    /// Settles the cell with an exception; a second settling attempt fails
    /// loudly and changes nothing.
    pub fn set_exception(&mut self, exception: HostException) -> (r: Result<(), DiError>)
        ensures
            final(self)@ == spec_settle(old(self)@, Err(exception)),
            match r {
                Ok(()) => old(self)@ == ChannelState::Unset,
                Err(e) => old(self)@ != ChannelState::Unset && e@
                    == DiErrorView::ChannelAlreadySet,
            },
    {
        match self.state {
            ChannelState::Unset => {
                self.state = ChannelState::SetException(exception);
                Ok(())
            },
            _ => Err(DiError::ChannelAlreadySet),
        }
    }

    /// Delivers the outcome of an awaited computation into the cell: a
    /// success through `set`, a failure through `set_exception`.
    pub fn set_result(&mut self, outcome: BridgeOutcome) -> (r: Result<(), DiError>)
        ensures
            final(self)@ == spec_settle(old(self)@, outcome),
            match r {
                Ok(()) => old(self)@ == ChannelState::Unset,
                Err(e) => old(self)@ != ChannelState::Unset && e@
                    == DiErrorView::ChannelAlreadySet,
            },
    {
        match outcome {
            Ok(v) => self.set(v),
            Err(e) => self.set_exception(e),
        }
    }

    /// What awaiting the cell observes so far.
    pub fn get(&self) -> (r: Option<BridgeOutcome>)
        ensures
            r == spec_observe(self@),
    {
        match self.state {
            ChannelState::Unset => None,
            ChannelState::SetValue(v) => Some(Ok(v)),
            ChannelState::SetException(e) => Some(Err(e)),
        }
    }
}

/// The bridge round trip is lossless: a computation's outcome, delivered
/// into a fresh cell, is observed exactly as it was produced — a value
/// arrives as that value, a failure is re-raised as the same exception.
pub proof fn lemma_bridge_round_trip(outcome: BridgeOutcome)
    ensures
        spec_observe(spec_settle(ChannelState::Unset, outcome)) == Some(outcome),
{
}

/// Once settled, a cell never changes again: later settling attempts are
/// refused and what is observed stays what was first delivered.
pub proof fn lemma_settle_once(outcome: BridgeOutcome, later: BridgeOutcome)
    ensures
        spec_settle(spec_settle(ChannelState::Unset, outcome), later) == spec_settle(
            ChannelState::Unset,
            outcome,
        ),
{
}

/// The two mutually exclusive cooperative runtimes a call can bridge to.
#[derive(Clone, Copy, PartialEq, Eq, Structural, Debug)]
pub enum DetectedRuntime {
    Asyncio,
    Trio,
}

/// The once-per-call runtime probe decision: a running event loop wins;
/// failing that, a cooperative scheduler token; finding neither is fatal
/// for that call.
pub fn detect_runtime(has_running_loop: bool, has_trio_token: bool) -> (r: Result<
    DetectedRuntime,
    DiError,
>)
    ensures
        match r {
            Ok(runtime) => match runtime {
                DetectedRuntime::Asyncio => has_running_loop,
                DetectedRuntime::Trio => !has_running_loop && has_trio_token,
            },
            Err(e) => !has_running_loop && !has_trio_token && e@
                == DiErrorView::NoRunningEventLoop,
        },
{
    if has_running_loop {
        Ok(DetectedRuntime::Asyncio)
    } else if has_trio_token {
        Ok(DetectedRuntime::Trio)
    } else {
        Err(DiError::NoRunningEventLoop)
    }
}

// --- The native sending half --------------------------------------------

/// Declares async_oneshot::Sender, the channel's sending half, for use in
/// signatures and fields.
#[verifier::external_type_specification]
#[verifier::external_body]
#[verifier::reject_recursive_types(T)]
pub struct ExSender<T>(async_oneshot::Sender<T>);

/// Declares async_oneshot::Receiver, the future the consuming side awaits.
#[verifier::external_type_specification]
#[verifier::external_body]
#[verifier::reject_recursive_types(T)]
pub struct ExReceiver<T>(async_oneshot::Receiver<T>);

/// Declares async_oneshot::Closed, the error of a send whose receiver is
/// gone.
#[verifier::external_type_specification]
#[verifier::external_body]
pub struct ExClosed(async_oneshot::Closed);

/// Relies on async_oneshot::oneshot: creates a connected sender/receiver
/// pair for a single message.
#[verifier::external_body]
fn new_channel() -> (r: (
    async_oneshot::Sender<BridgeOutcome>,
    async_oneshot::Receiver<BridgeOutcome>,
)) {
    async_oneshot::oneshot()
}

/// Relies on async_oneshot::Sender::send: the first call on a sender
/// stores the value for the receiving half and returns Ok; a later call,
/// or one made after the receiver was dropped, returns Err(Closed) and
/// delivers nothing.
#[verifier::external_body]
fn channel_send(
    sender: &mut async_oneshot::Sender<BridgeOutcome>,
    value: BridgeOutcome,
) -> (r: Result<(), ()>) {
    match sender.send(value) {
        Ok(()) => Ok(()),
        Err(_) => Err(()),
    }
}

/// The native sending half of the bridge: pushes a bridged outcome toward
/// the awaiting side.  Delivery happens at most once; a second attempt
/// fails loudly without touching the channel.
pub struct OneShot {
    sender: async_oneshot::Sender<BridgeOutcome>,
    done: bool,
}

impl OneShot {
    /// Whether this half has already attempted its one delivery.
    pub closed spec fn spec_done(&self) -> bool {
        self.done
    }

    /// A connected pair: the sending half and the receiver the other side
    /// awaits.
    pub fn new() -> (r: (OneShot, async_oneshot::Receiver<BridgeOutcome>))
        ensures
            !r.0.spec_done(),
    {
        let (sender, receiver) = new_channel();
        (OneShot { sender, done: false }, receiver)
    }

    /// Delivers the outcome; at most once.  After the first call the half
    /// is spent, and a repeat attempt fails loudly with the
    /// bridge-invariant error.  A delivery whose receiver is gone reports
    /// the closed channel.
    pub fn set_result(&mut self, outcome: BridgeOutcome) -> (r: Result<(), DiError>)
        ensures
            final(self).spec_done(),
            match r {
                Ok(()) => !old(self).spec_done(),
                Err(e) => (old(self).spec_done() && e@ == DiErrorView::ChannelAlreadySet) || (!old(
                    self,
                ).spec_done() && e@ == DiErrorView::ChannelClosed),
            },
    {
        if self.done {
            return Err(DiError::ChannelAlreadySet);
        }
        self.done = true;
        match channel_send(&mut self.sender, outcome) {
            Ok(()) => Ok(()),
            Err(()) => Err(DiError::ChannelClosed),
        }
    }

    /// Delivers a success value.
    pub fn set(&mut self, value: Value) -> (r: Result<(), DiError>)
        ensures
            final(self).spec_done(),
            match r {
                Ok(()) => !old(self).spec_done(),
                Err(e) => (old(self).spec_done() && e@ == DiErrorView::ChannelAlreadySet) || (!old(
                    self,
                ).spec_done() && e@ == DiErrorView::ChannelClosed),
            },
    {
        self.set_result(Ok(value))
    }

    /// Delivers a failure, carried as the same exception object.
    pub fn set_exception(&mut self, exception: HostException) -> (r: Result<(), DiError>)
        ensures
            final(self).spec_done(),
            match r {
                Ok(()) => !old(self).spec_done(),
                Err(e) => (old(self).spec_done() && e@ == DiErrorView::ChannelAlreadySet) || (!old(
                    self,
                ).spec_done() && e@ == DiErrorView::ChannelClosed),
            },
    {
        self.set_result(Err(exception))
    }
}

} // verus!
