//! The outside types that run through the client, and tokio's channels with a
//! record of what was sent through them.

use serde_json::value::RawValue;
use tokio::sync::mpsc::{UnboundedReceiver, UnboundedSender};
use tokio::sync::oneshot;
use vstd::prelude::*;

verus! {

/// Declares `serde_json::value::RawValue`, a piece of JSON text. The client
/// carries it and never looks inside.
#[verifier::external_type_specification]
#[verifier::external_body]
pub struct ExRawValue(RawValue);

/// Declares `jsonrpsee::core::Error`. The client carries it and never looks
/// inside.
#[verifier::external_type_specification]
#[verifier::external_body]
pub struct ExJsonRpcError(jsonrpsee::core::Error);

/// Declares `tokio::sync::mpsc::UnboundedSender`.
#[verifier::external_type_specification]
#[verifier::external_body]
#[verifier::reject_recursive_types(T)]
pub struct ExUnboundedSender<T>(UnboundedSender<T>);

/// Declares `tokio::sync::mpsc::UnboundedReceiver`.
#[verifier::external_type_specification]
#[verifier::external_body]
#[verifier::reject_recursive_types(T)]
pub struct ExUnboundedReceiver<T>(UnboundedReceiver<T>);

/// Declares `tokio::sync::oneshot::Sender`.
#[verifier::external_type_specification]
#[verifier::external_body]
#[verifier::reject_recursive_types(T)]
pub struct ExOneshotSender<T>(oneshot::Sender<T>);

/// Declares `tokio::sync::oneshot::Receiver`.
#[verifier::external_type_specification]
#[verifier::external_body]
#[verifier::reject_recursive_types(T)]
pub struct ExOneshotReceiver<T>(oneshot::Receiver<T>);

/// Declares `tokio::sync::oneshot::error::RecvError`: the sending half of a
/// one-shot channel is gone and no value was sent.
#[verifier::external_type_specification]
#[verifier::external_body]
pub struct ExRecvError(oneshot::error::RecvError);

/// What became of one handle on the sending half of a channel.
#[verifier::ext_equal]
#[verifier::reject_recursive_types(T)]
pub struct SenderState<T> {
    /// The receiving half that the channel was made with.
    pub receiver: UnboundedReceiver<T>,
    /// What was sent through this handle, and whether the receiving half was
    /// still there to take it.
    pub sent: Seq<(T, bool)>,
    /// How many more handles were made from this one.
    pub shares: nat,
}

impl<T> SenderState<T> {
    /// A handle that nothing was done with.
    pub open spec fn fresh(receiver: UnboundedReceiver<T>) -> Self {
        SenderState { receiver, sent: Seq::empty(), shares: 0 }
    }

    /// The handle after one more message.
    pub open spec fn send(self, message: T, taken: bool) -> Self {
        SenderState { sent: self.sent.push((message, taken)), ..self }
    }

    /// The handle after one more handle was made from it.
    pub open spec fn share(self) -> Self {
        SenderState { shares: self.shares + 1, ..self }
    }

    /// The receiving half took the last message.
    pub open spec fn last_taken(self) -> bool {
        self.sent.last().1
    }

    /// `message` was sent through the handle, once, and nothing else was done
    /// with it.
    pub open spec fn sends(self, message: T, next: Self) -> bool {
        next == self.send(message, next.last_taken())
    }

    /// The messages that were sent through the handle.
    pub open spec fn messages(self) -> Seq<T> {
        self.sent.map_values(|sent: (T, bool)| sent.0)
    }
}

/// A handle on the sending half of an unbounded channel.
///
/// Its fields are private, and only `message_channel`, `share` and `send` set its
/// record: no verified function can send through it, or make another handle from
/// it, without that the record shows it.
#[verifier::reject_recursive_types(T)]
pub struct MessageSender<T> {
    tx: UnboundedSender<T>,
    record: Ghost<SenderState<T>>,
}

impl<T> View for MessageSender<T> {
    type V = SenderState<T>;

    closed spec fn view(&self) -> SenderState<T> {
        self.record@
    }
}

/// Makes a channel with `tokio::sync::mpsc::unbounded_channel`, which returns
/// its two halves: the one is the receiving half of the other, and nothing was
/// sent yet.
#[verifier::external_body]
pub(crate) fn message_channel<T>() -> (r: (MessageSender<T>, UnboundedReceiver<T>))
    ensures
        r.0@ == SenderState::fresh(r.1),
{
    let (tx, rx) = tokio::sync::mpsc::unbounded_channel();
    (MessageSender { tx, record: Ghost(arbitrary()) }, rx)
}

impl<T> MessageSender<T> {
    /// Calls `tokio::sync::mpsc::UnboundedSender::send` with `message`, once. It
    /// returns `Ok` where the receiving half takes the message, and that depends
    /// on the task that holds it. (With half of `usize::MAX` messages waiting
    /// tokio aborts the process.)
    #[verifier::external_body]
    pub(crate) fn send(&mut self, message: T) -> (taken: bool)
        ensures
            final(self)@ == old(self)@.send(message, taken),
    {
        self.tx.send(message).is_ok()
    }

    /// Calls `Clone` of `tokio::sync::mpsc::UnboundedSender`, once. A sender is a
    /// shared pointer to its channel, and the clone points to the same channel.
    #[verifier::external_body]
    pub(crate) fn share(&mut self) -> (r: MessageSender<T>)
        ensures
            final(self)@ == old(self)@.share(),
            r@ == SenderState::fresh(old(self)@.receiver),
    {
        MessageSender { tx: self.tx.clone(), record: Ghost(arbitrary()) }
    }

    /// The handle as tokio has it.
    pub closed spec fn spec_raw(self) -> UnboundedSender<T> {
        self.tx
    }

    /// The handle as tokio has it, for a driver to wait on.
    pub fn raw(&self) -> (r: &UnboundedSender<T>)
        ensures
            *r == self.spec_raw(),
    {
        &self.tx
    }
}

/// Evidence that the two halves of a one-shot channel belong together. Only
/// `answer_channel` makes one.
pub struct Halves<S, R> {
    sender: Ghost<S>,
    receiver: Ghost<R>,
}

impl<S, R> Halves<S, R> {
    /// The sending half.
    pub closed spec fn sender(self) -> S {
        self.sender@
    }

    /// The receiving half.
    pub closed spec fn receiver(self) -> R {
        self.receiver@
    }

    /// `sender` and `receiver` are the two halves of one channel.
    pub open spec fn is(self, sender: S, receiver: R) -> bool {
        self.sender() == sender && self.receiver() == receiver
    }
}

/// Evidence that a value was handed to a one-shot channel. Only `answer` makes
/// one, and as it uses up the sending half no second value can follow.
pub struct Handed<C, T> {
    taken: bool,
    channel: Ghost<C>,
    message: Ghost<T>,
}

impl<C, T> Handed<C, T> {
    /// The receiving half was still there to take the value.
    pub closed spec fn taken(self) -> bool {
        self.taken
    }

    /// The sending half that the value was handed to.
    pub closed spec fn channel(self) -> C {
        self.channel@
    }

    /// The value.
    pub closed spec fn message(self) -> T {
        self.message@
    }

    /// `message` was handed to `channel`.
    pub open spec fn is(self, channel: C, message: T) -> bool {
        self.channel() == channel && self.message() == message
    }

    /// Whether the receiving half was still there to take the value.
    pub fn is_taken(&self) -> (r: bool)
        ensures
            r == self.taken(),
    {
        self.taken
    }
}

/// Makes a channel for one answer with `tokio::sync::oneshot::channel`, which
/// returns its two halves, and with them the evidence that they belong together.
#[verifier::external_body]
pub(crate) fn answer_channel<T>() -> (r: (
    oneshot::Sender<T>,
    oneshot::Receiver<T>,
    Halves<oneshot::Sender<T>, oneshot::Receiver<T>>,
))
    ensures
        r.2.is(r.0, r.1),
{
    let (tx, rx) = oneshot::channel();
    (tx, rx, Halves { sender: Ghost(arbitrary()), receiver: Ghost(arbitrary()) })
}

/// Calls `tokio::sync::oneshot::Sender::send` with `value`, and returns the
/// evidence of that. Whether the value is taken depends on the task that holds
/// the receiving half.
#[verifier::external_body]
pub(crate) fn answer<T>(tx: oneshot::Sender<T>, value: T) -> (r: Handed<oneshot::Sender<T>, T>)
    ensures
        r.is(tx, value),
{
    let taken = tx.send(value).is_ok();
    Handed { taken, channel: Ghost(arbitrary()), message: Ghost(arbitrary()) }
}

/// Clones raw JSON with `Clone` of `Box<serde_json::value::RawValue>`, which
/// copies the text, and a `RawValue` is its text and nothing else.
#[verifier::external_body]
pub(crate) fn clone_raw(raw: &Box<RawValue>) -> (r: Box<RawValue>)
    ensures
        r == *raw,
{
    raw.clone()
}

} // verus!
