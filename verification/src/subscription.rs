//! Forwarding the notifications of one subscription until it ends.

use crate::channel::{message_channel, MessageSender, SenderState};
use crate::types::Notification;
use tokio::sync::mpsc::UnboundedReceiver;
use vstd::prelude::*;

verus! {

/// The channel through which the handlers report the end of a subscription.
pub struct Reports {
    tx: MessageSender<usize>,
}

impl View for Reports {
    type V = SenderState<usize>;

    closed spec fn view(&self) -> SenderState<usize> {
        self.tx@
    }
}

impl Reports {
    /// A new channel, and where its reports arrive.
    pub fn new() -> (r: (Reports, UnboundedReceiver<usize>))
        ensures
            r.0@ == SenderState::fresh(r.1),
    {
        let (tx, rx) = message_channel();
        (Reports { tx }, rx)
    }

    /// A handle for one more handler.
    pub fn share(&mut self) -> (r: MessageSender<usize>)
        ensures
            final(self)@ == old(self)@.share(),
            r@ == SenderState::fresh(old(self)@.receiver),
    {
        self.tx.share()
    }
}

/// The task that forwards the notifications of one subscription.
pub struct SubscriptionHandler {
    /// Where the notifications go.
    pub tx: MessageSender<Notification>,
    /// Where the background task is told of the end of the subscription.
    pub sub_closed: MessageSender<usize>,
    /// The number of the subscription.
    pub id: usize,
}

/// What a handler did so far.
#[verifier::ext_equal]
pub struct HandlerState {
    pub tx: SenderState<Notification>,
    pub sub_closed: SenderState<usize>,
    pub id: usize,
}

impl View for SubscriptionHandler {
    type V = HandlerState;

    open spec fn view(&self) -> HandlerState {
        HandlerState { tx: self.tx@, sub_closed: self.sub_closed@, id: self.id }
    }
}

/// What a handler sees while it waits.
#[derive(Debug)]
pub enum Notified {
    /// The next notification, or none because the subscription is closed.
    Next(Option<Notification>),
    /// The background task is gone.
    TaskGone,
}

/// How a handler goes on.
#[derive(Debug)]
pub enum HandlerStep {
    /// Wait for the next notification.
    Continue,
    /// The subscription ended; `sub_dropped` tells whether that was on this
    /// side of the connection.
    Done { sub_dropped: bool },
}

/// The handles that a handler gives back when it ended.
pub struct Finished {
    pub tx: MessageSender<Notification>,
    pub sub_closed: MessageSender<usize>,
}

/// How a handler goes on after it forwarded a notification, which the subscriber
/// took or did not take.
pub open spec fn step_after(taken: bool) -> HandlerStep {
    if taken {
        HandlerStep::Continue
    } else {
        HandlerStep::Done { sub_dropped: true }
    }
}

/// Whether a subscription that ended is to be removed: its subscriber dropped
/// it, or it was closed without that the connection was closed.
pub open spec fn remove_subscription(sub_dropped: bool, connection_lost: bool) -> bool {
    sub_dropped || !connection_lost
}

/// The reports after the end of the subscription `id`: with one more, if it is
/// to be removed.
pub open spec fn reports_end(
    reports: SenderState<usize>,
    next: SenderState<usize>,
    id: usize,
    remove: bool,
) -> bool {
    if remove {
        reports.sends(id, next)
    } else {
        next == reports
    }
}

impl HandlerState {
    /// The handler took `notified`, then is `next`, and goes on with `step`. A
    /// notification, whatever it says, was forwarded once.
    pub open spec fn handles(self, notified: Notified, next: HandlerState, step: HandlerStep) -> bool {
        &&& next.sub_closed == self.sub_closed
        &&& next.id == self.id
        &&& match notified {
            Notified::Next(Some(notif)) => {
                &&& self.tx.sends(notif, next.tx)
                &&& step == step_after(next.tx.last_taken())
            },
            Notified::Next(None) => {
                &&& next.tx == self.tx
                &&& step == (HandlerStep::Done { sub_dropped: false })
            },
            Notified::TaskGone => {
                &&& next.tx == self.tx
                &&& step == (HandlerStep::Done { sub_dropped: true })
            },
        }
    }
}

impl SubscriptionHandler {
    /// Starts to forward the notifications of the subscription `id` to `tx`.
    pub fn new(
        tx: MessageSender<Notification>,
        sub_closed: MessageSender<usize>,
        id: usize,
    ) -> (r: Self)
        ensures
            r@ == (HandlerState { tx: tx@, sub_closed: sub_closed@, id }),
    {
        SubscriptionHandler { tx, sub_closed, id }
    }

    /// Takes what the handler waited for. A notification is forwarded, and the
    /// handler goes on exactly if the subscriber still takes it.
    pub fn handle(&mut self, notified: Notified) -> (r: HandlerStep)
        ensures
            old(self)@.handles(notified, final(self)@, r),
    {
        match notified {
            Notified::Next(Some(notif)) => {
                if self.tx.send(notif) {
                    HandlerStep::Continue
                } else {
                    HandlerStep::Done { sub_dropped: true }
                }
            },
            Notified::Next(None) => HandlerStep::Done { sub_dropped: false },
            Notified::TaskGone => HandlerStep::Done { sub_dropped: true },
        }
    }

    /// Whether the connection that a subscription was opened on is lost, where
    /// `connected` tells whether it is up, or is none because nobody holds it any
    /// more.
    pub fn connection_lost(connected: Option<bool>) -> (r: bool)
        ensures
            r == (connected != Some(true)),
    {
        match connected {
            Some(connected) => !connected,
            None => true,
        }
    }

    /// Whether the background task is to be told that the subscription ended.
    pub fn is_removed(sub_dropped: bool, connection_lost: bool) -> (r: bool)
        ensures
            r == remove_subscription(sub_dropped, connection_lost),
    {
        sub_dropped || !connection_lost
    }

    /// Ends the handler. Sends a message to the background task if the
    /// subscription was dropped, or closed without that the connection was
    /// closed. `connection_lost` tells whether the connection that the
    /// subscription was opened on is down.
    pub fn finish(self, sub_dropped: bool, connection_lost: bool) -> (r: Finished)
        ensures
            r.tx@ == self@.tx,
            reports_end(
                self@.sub_closed,
                r.sub_closed@,
                self@.id,
                remove_subscription(sub_dropped, connection_lost),
            ),
    {
        let mut sub_closed = self.sub_closed;
        if Self::is_removed(sub_dropped, connection_lost) {
            sub_closed.send(self.id);
        }
        Finished { tx: self.tx, sub_closed }
    }
}

/// A handler that went from `states[0]` through all of `states`: it took `seen`,
/// one after the other, and went on until the last of `steps`.
pub open spec fn handler_run(
    states: Seq<HandlerState>,
    seen: Seq<Notified>,
    steps: Seq<HandlerStep>,
) -> bool {
    &&& states.len() == seen.len() + 1
    &&& steps.len() == seen.len()
    &&& forall|i: int|
        0 <= i < steps.len() ==> states[i].handles(seen[i], states[i + 1], #[trigger] steps[i])
    &&& forall|i: int| 0 <= i < steps.len() - 1 ==> #[trigger] steps[i] is Continue
}

/// The notifications among what a handler saw.
pub open spec fn notifications(seen: Seq<Notified>) -> Seq<Notification>
    decreases seen.len(),
{
    if seen.len() == 0 {
        Seq::empty()
    } else {
        match seen.last() {
            Notified::Next(Some(notif)) => notifications(seen.drop_last()).push(notif),
            _ => notifications(seen.drop_last()),
        }
    }
}

/// What a handler did before its last step.
proof fn lemma_run_before(
    states: Seq<HandlerState>,
    seen: Seq<Notified>,
    steps: Seq<HandlerStep>,
)
    requires
        handler_run(states, seen, steps),
        seen.len() > 0,
    ensures
        handler_run(states.drop_last(), seen.drop_last(), steps.drop_last()),
{
    let n = seen.len() - 1;
    let earlier = states.drop_last();
    assert forall|i: int| 0 <= i < n implies earlier[i].handles(
        seen.drop_last()[i],
        earlier[i + 1],
        #[trigger] steps.drop_last()[i],
    ) by {
        assert(states[i].handles(seen[i], states[i + 1], steps[i]));
    }
    assert forall|i: int| 0 <= i < n - 1 implies #[trigger] steps.drop_last()[i] is Continue by {
        assert(steps[i] is Continue);
    }
}

/// A handler forwards what the server sends, notification for notification and
/// in order, up to the one that ends it and nothing after it; an error among them
/// is forwarded as any other and ends nothing. Until it is ended it reports
/// nothing to the background task.
pub proof fn law_notifications_are_forwarded_in_order(
    states: Seq<HandlerState>,
    seen: Seq<Notified>,
    steps: Seq<HandlerStep>,
)
    requires
        handler_run(states, seen, steps),
    ensures
        states.last().tx.messages() == states[0].tx.messages() + notifications(seen),
        states.last().tx.receiver == states[0].tx.receiver,
        states.last().tx.shares == states[0].tx.shares,
        states.last().sub_closed == states[0].sub_closed,
        states.last().id == states[0].id,
        notifications(seen).len() >= seen.len() - 1,
        forall|i: int|
            0 <= i < notifications(seen).len() ==> seen[i] == Notified::Next(
                Some(#[trigger] notifications(seen)[i]),
            ),
    decreases seen.len(),
{
    if seen.len() == 0 {
        assert(states.last().tx.messages() =~= states[0].tx.messages() + notifications(seen));
    } else {
        let n = seen.len() - 1;
        lemma_run_before(states, seen, steps);
        law_notifications_are_forwarded_in_order(
            states.drop_last(),
            seen.drop_last(),
            steps.drop_last(),
        );
        assert(states[n].handles(seen[n], states[n + 1], steps[n]));
        let before = notifications(seen.drop_last());
        lemma_notifications_of_a_run(states, seen, steps);
        if let Notified::Next(Some(notif)) = seen[n] {
            assert(states[n + 1].tx.messages() =~= states[n].tx.messages().push(notif));
        }
        assert(states.last().tx.messages() =~= states[0].tx.messages() + notifications(seen));
        assert forall|i: int| 0 <= i < notifications(seen).len() implies seen[i] == Notified::Next(
            Some(#[trigger] notifications(seen)[i]),
        ) by {
            if i < n {
                assert(notifications(seen)[i] == before[i]);
                assert(seen.drop_last()[i] == seen[i]);
            }
        }
    }
}

/// All that a handler saw before the last step were notifications.
proof fn lemma_notifications_of_a_run(
    states: Seq<HandlerState>,
    seen: Seq<Notified>,
    steps: Seq<HandlerStep>,
)
    requires
        handler_run(states, seen, steps),
        seen.len() > 0,
    ensures
        notifications(seen.drop_last()).len() == seen.len() - 1,
    decreases seen.len(),
{
    let n = seen.len() - 1;
    if n > 0 {
        lemma_run_before(states, seen, steps);
        lemma_notifications_of_a_run(states.drop_last(), seen.drop_last(), steps.drop_last());
        assert(steps[n - 1] is Continue);
        assert(states[n - 1].handles(seen[n - 1], states[n], steps[n - 1]));
        assert(seen.drop_last().last() == seen[n - 1]);
    }
}

/// Over its whole life a handler reports the end of its subscription at most
/// once, after the last notification, and exactly if the subscription is to be
/// removed.
pub proof fn law_end_is_reported_once(
    states: Seq<HandlerState>,
    seen: Seq<Notified>,
    steps: Seq<HandlerStep>,
    sub_dropped: bool,
    connection_lost: bool,
    reports: SenderState<usize>,
)
    requires
        handler_run(states, seen, steps),
        steps.len() > 0,
        steps.last() == (HandlerStep::Done { sub_dropped }),
        reports_end(
            states.last().sub_closed,
            reports,
            states.last().id,
            remove_subscription(sub_dropped, connection_lost),
        ),
    ensures
        reports.messages() == if sub_dropped || !connection_lost {
            states[0].sub_closed.messages().push(states[0].id)
        } else {
            states[0].sub_closed.messages()
        },
        forall|i: int|
            0 <= i < states.len() ==> #[trigger] states[i].sub_closed == states[0].sub_closed,
{
    law_notifications_are_forwarded_in_order(states, seen, steps);
    assert(reports.messages() =~= if sub_dropped || !connection_lost {
        states[0].sub_closed.messages().push(states[0].id)
    } else {
        states[0].sub_closed.messages()
    });
    assert forall|i: int| 0 <= i < states.len() implies #[trigger] states[i].sub_closed
        == states[0].sub_closed by {
        lemma_reports_nothing(states, seen, steps, i);
    }
}

proof fn lemma_reports_nothing(
    states: Seq<HandlerState>,
    seen: Seq<Notified>,
    steps: Seq<HandlerStep>,
    i: int,
)
    requires
        handler_run(states, seen, steps),
        0 <= i < states.len(),
    ensures
        states[i].sub_closed == states[0].sub_closed,
    decreases i,
{
    if i > 0 {
        lemma_reports_nothing(states, seen, steps, i - 1);
        assert(states[i - 1].handles(seen[i - 1], states[i], steps[i - 1]));
    }
}

/// A handler whose stream ended with its connection says that it was not dropped,
/// and reports nothing over its whole life, whatever its number and whatever it
/// forwarded.
pub proof fn law_stream_lost_with_its_connection_is_never_reported(
    states: Seq<HandlerState>,
    seen: Seq<Notified>,
    steps: Seq<HandlerStep>,
    reports: SenderState<usize>,
)
    requires
        handler_run(states, seen, steps),
        seen.len() > 0,
        seen.last() == Notified::Next(None),
        reports_end(
            states.last().sub_closed,
            reports,
            states.last().id,
            remove_subscription(steps.last()->sub_dropped, true),
        ),
    ensures
        steps.last() == (HandlerStep::Done { sub_dropped: false }),
        reports == states[0].sub_closed,
{
    let n = seen.len() - 1;
    assert(states[n].handles(seen[n], states[n + 1], steps[n]));
    law_notifications_are_forwarded_in_order(states, seen, steps);
}

/// A handler that ended because its subscriber, or the task, is gone says that it was
/// dropped, and reports its number once over its whole life, whatever became of the
/// connection.
pub proof fn law_dropped_stream_is_reported_once(
    states: Seq<HandlerState>,
    seen: Seq<Notified>,
    steps: Seq<HandlerStep>,
    connection_lost: bool,
    reports: SenderState<usize>,
)
    requires
        handler_run(states, seen, steps),
        seen.len() > 0,
        seen.last() is TaskGone || (seen.last()->Next_0 is Some && !states.last().tx.sent.last().1),
        reports_end(
            states.last().sub_closed,
            reports,
            states.last().id,
            remove_subscription(steps.last()->sub_dropped, connection_lost),
        ),
    ensures
        steps.last() == (HandlerStep::Done { sub_dropped: true }),
        reports.sent.len() == states[0].sub_closed.sent.len() + 1,
        reports.sent.last().0 == states[0].id,
        reports.receiver == states[0].sub_closed.receiver,
{
    let n = seen.len() - 1;
    assert(states[n].handles(seen[n], states[n + 1], steps[n]));
    law_notifications_are_forwarded_in_order(states, seen, steps);
}

/// A subscription that was closed because the connection was closed is not
/// removed, whatever was counted of the reconnect by then: only its subscriber
/// can end it.
pub proof fn law_lost_connection_removes_no_subscription(sub_dropped: bool)
    ensures
        remove_subscription(sub_dropped, true) <==> sub_dropped,
{
}

/// A subscription that ends while the connection stays is removed.
pub proof fn law_subscription_that_ends_is_removed(sub_dropped: bool)
    ensures
        remove_subscription(sub_dropped, false),
{
}

/// Every handler ends with the background task, whatever it did before: it
/// forwards nothing more, and all that is left to it is to give back its handle on
/// the subscriber's channel.
pub proof fn law_handler_ends_with_the_task(
    handler: HandlerState,
    next: HandlerState,
    step: HandlerStep,
)
    requires
        handler.handles(Notified::TaskGone, next, step),
    ensures
        step is Done,
        next == handler,
{
}

/// A handler ends with the first notification that its subscriber does not take.
pub proof fn law_handler_ends_with_its_subscriber(
    handler: HandlerState,
    notif: Notification,
    next: HandlerState,
    step: HandlerStep,
)
    requires
        handler.handles(Notified::Next(Some(notif)), next, step),
    ensures
        step is Done <==> !next.tx.last_taken(),
        step is Done ==> step == (HandlerStep::Done { sub_dropped: true }),
{
}

} // verus!
