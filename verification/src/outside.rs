//! The outside items the library calls: channels and wakers of `futures`, the timer of
//! `futures_timer`, the terminal size of `term_size`, and the few std items that vstd leaves
//! without a contract. Nothing here is proved; each contract is taken from the item's source
//! or documentation.
use vstd::prelude::*;
use futures::channel::mpsc;
use futures::channel::mpsc::{Receiver, Sender, TrySendError, UnboundedReceiver, UnboundedSender};
use futures::task::AtomicWaker;
use futures_timer::Delay;
use std::sync::Arc;
use std::task::{Context, Waker};
use std::time::Duration;

verus! {

#[verifier::external_type_specification]
#[verifier::external_body]
#[verifier::reject_recursive_types(T)]
pub struct ExSender<T>(mpsc::Sender<T>);

#[verifier::external_type_specification]
#[verifier::external_body]
#[verifier::reject_recursive_types(T)]
pub struct ExUnboundedSender<T>(mpsc::UnboundedSender<T>);

#[verifier::external_type_specification]
#[verifier::external_body]
#[verifier::reject_recursive_types(T)]
pub struct ExReceiver<T>(mpsc::Receiver<T>);

#[verifier::external_type_specification]
#[verifier::external_body]
#[verifier::reject_recursive_types(T)]
pub struct ExUnboundedReceiver<T>(mpsc::UnboundedReceiver<T>);

#[verifier::external_type_specification]
#[verifier::external_body]
#[verifier::reject_recursive_types(T)]
pub struct ExTrySendError<T>(mpsc::TrySendError<T>);

#[verifier::external_type_specification]
#[verifier::external_body]
pub struct ExAtomicWaker(AtomicWaker);

#[verifier::external_type_specification]
#[verifier::external_body]
pub struct ExDelay(Delay);

#[verifier::external_type_specification]
#[verifier::external_body]
pub struct ExContext<'a>(Context<'a>);

#[verifier::external_type_specification]
#[verifier::external_body]
pub struct ExWaker(Waker);

/// What one non-blocking read of a channel gave.
pub(crate) enum Received<T> {
    /// A message was waiting.
    Message(T),
    /// Every sender is gone and nothing is left to read.
    Closed,
    /// Nothing is waiting now, but more may come.
    Empty,
}

/// `Clone` of `futures::channel::mpsc::Sender`: another sender into the same channel.
pub assume_specification<T>[ <Sender<T> as Clone>::clone ](sender: &Sender<T>) -> Sender<T>;

/// `Clone` of `futures::channel::mpsc::UnboundedSender`: another sender into the same channel.
pub assume_specification<T>[ <UnboundedSender<T> as Clone>::clone ](
    sender: &UnboundedSender<T>,
) -> UnboundedSender<T>;

/// `futures::channel::mpsc::channel`: a bounded channel with `buffer` slots beyond one per
/// sender. Its source asserts that `buffer` is below a quarter of the address space, which
/// `requires` states; nothing is promised of the two ends.
#[verifier::external_body]
pub(crate) fn channel<T>(buffer: usize) -> (Sender<T>, Receiver<T>)
    requires
        buffer < usize::MAX / 4,
{
    mpsc::channel(buffer)
}

/// `futures::channel::mpsc::unbounded`: an unbounded channel. Nothing is promised of the two
/// ends.
#[verifier::external_body]
pub(crate) fn unbounded<T>() -> (UnboundedSender<T>, UnboundedReceiver<T>) {
    mpsc::unbounded()
}

/// `futures::channel::mpsc::Sender::try_send`. Whether it succeeds depends on the channel's
/// fill and on the receiver, so no clause states when it does.
#[verifier::external_body]
pub(crate) fn try_send<T>(sender: &mut Sender<T>, msg: T) -> Result<(), TrySendError<T>> {
    sender.try_send(msg)
}

/// `futures::channel::mpsc::UnboundedSender::unbounded_send`: `true` when the message was
/// queued. Its source fails only when the receiver is gone; no clause states that, since it
/// depends on the other end.
#[verifier::external_body]
pub(crate) fn unbounded_send<T>(sender: &UnboundedSender<T>, msg: T) -> bool {
    sender.unbounded_send(msg).is_ok()
}

/// `futures::channel::mpsc::Receiver::try_next`, one arm per outcome. What comes out depends
/// on the senders, so nothing is promised of it.
#[verifier::external_body]
#[allow(deprecated)]
pub(crate) fn try_next<T>(receiver: &mut Receiver<T>) -> Received<T> {
    match receiver.try_next() {
        Ok(Some(msg)) => Received::Message(msg),
        Ok(None) => Received::Closed,
        Err(_) => Received::Empty,
    }
}

/// `futures::channel::mpsc::UnboundedReceiver::try_next`, one arm per outcome. What comes out
/// depends on the senders, so nothing is promised of it.
#[verifier::external_body]
#[allow(deprecated)]
pub(crate) fn try_next_unbounded<T>(receiver: &mut UnboundedReceiver<T>) -> Received<T> {
    match receiver.try_next() {
        Ok(Some(msg)) => Received::Message(msg),
        Ok(None) => Received::Closed,
        Err(_) => Received::Empty,
    }
}

/// `futures::task::AtomicWaker::new`: a waker slot with no waker in it.
#[verifier::external_body]
pub(crate) fn atomic_waker_new() -> AtomicWaker {
    AtomicWaker::new()
}

/// `futures::task::AtomicWaker::register`: stores `waker` to be woken by the next `wake`.
#[verifier::external_body]
pub(crate) fn atomic_waker_register(slot: &AtomicWaker, waker: &Waker) {
    slot.register(waker)
}

/// `futures::task::AtomicWaker::wake`: wakes the stored waker, if any.
#[verifier::external_body]
pub(crate) fn atomic_waker_wake(slot: &AtomicWaker) {
    slot.wake()
}

/// `std::task::Context::waker`: the waker of the task being polled.
#[verifier::external_body]
pub(crate) fn context_waker<'a, 'b>(cx: &'a Context<'b>) -> &'a Waker {
    cx.waker()
}

/// `std::time::Duration::from_millis`.
#[verifier::external_body]
pub(crate) fn millis(ms: u64) -> Duration {
    Duration::from_millis(ms)
}

/// `futures_timer::Delay::new`: a timer that fires once `dur` has passed.
#[verifier::external_body]
pub(crate) fn delay_new(dur: Duration) -> Delay {
    Delay::new(dur)
}

/// `futures_timer::Delay::reset`: restarts the timer to fire `dur` from now.
#[verifier::external_body]
pub(crate) fn delay_reset(delay: &mut Delay, dur: Duration) {
    delay.reset(dur)
}

/// `<futures_timer::Delay as Future>::poll`: `true` once the timer has fired; when it has not,
/// the task's waker is registered with the timer. Its source panics if the global timer
/// thread has gone away; nothing here rules that out, as it depends on the process.
#[verifier::external_body]
pub(crate) fn delay_poll(delay: &mut Delay, cx: &mut Context) -> bool {
    std::future::Future::poll(std::pin::Pin::new(delay), cx).is_ready()
}

/// `term_size::dimensions`: the width and height of the terminal in characters, or `None`
/// when no standard stream is a terminal. Its source returns `Some` only when both are
/// non-zero, and both come from 16-bit fields.
#[verifier::external_body]
pub(crate) fn terminal_dimensions() -> (r: Option<(usize, usize)>)
    ensures
        r matches Some((w, h)) ==> 0 < w <= 65535 && 0 < h <= 65535,
{
    term_size::dimensions()
}

/// `std::sync::Arc::clone`: another pointer to the same value.
#[verifier::external_body]
pub(crate) fn arc_clone<T>(a: &Arc<T>) -> (r: Arc<T>)
    ensures
        r == *a,
{
    a.clone()
}

/// Calls a progress-text closure supplied by the caller (`FnMut::call_mut`): the result is one
/// that the closure gives for these arguments; which one is the caller's affair.
#[verifier::external_body]
pub(crate) fn call_text<F: FnMut(usize, usize) -> String>(f: &mut F, current: usize, total: usize) -> (r: String)
    ensures
        call_ensures(*old(f), (current, total), r),
{
    f(current, total)
}

} // verus!
