//! What holds of a whole session: the clients, their background task, the handlers
//! of the subscriptions, and everything that can happen to them.

use crate::background::{BackgroundTask, Event, Step, Stopped, TaskState};
use crate::channel::SenderState;
use crate::counter::CounterState;
use crate::dispatch::{PendingCall, PendingSubscription, SettledCall, SettledSubscription, Transmit};
use crate::reconnect::{
    transmits_all, Drained, Reconnect, ReconnectFailed, ReconnectPlan, ReconnectState, Reconnecting,
    Resubscribe, ResubscribeFailed, ResubscribeState, Resubscribed, Resubscribing, Resubscription,
};
use crate::subscription::remove_subscription;
use crate::types::{Closed, MethodResult, Notification, Op, Response, RpcError, SubscriptionState};
use tokio::sync::mpsc::UnboundedReceiver;
use vstd::multiset::Multiset;
use vstd::prelude::*;

verus! {

/// Where a session stands with its connection.
pub enum Phase {
    /// The connection is up, as far as the task knows.
    Connected,
    /// The connection is down and the dispatched operations are ending.
    Draining(Seq<(usize, Op)>),
    /// The reconnect is counted and the new connection is being set up.
    Connecting(Seq<(usize, Op)>),
    /// The new connection is up and these subscriptions are still to be opened
    /// again.
    Resubscribing(Seq<usize>),
    /// The task ended.
    Ended,
}

impl Phase {
    /// The operations that wait for the new connection, each with its number.
    pub open spec fn retry(self) -> Seq<(usize, Op)> {
        match self {
            Phase::Draining(retry) => retry,
            Phase::Connecting(retry) => retry,
            _ => Seq::empty(),
        }
    }
}

/// The channel of a subscriber, and what became of the handles on its sending half
/// that were made for handlers.
pub struct Subscriber {
    /// The receiving half, which the subscriber has.
    pub receiver: UnboundedReceiver<Notification>,
    /// The number of the subscription.
    pub id: usize,
    /// How many handlers were started, each with a handle.
    pub started: nat,
    /// How many handlers ended and gave their handle back.
    pub returned: nat,
}

/// A session as seen from outside: an operation is written with its number.
pub struct Session<C> {
    pub task: TaskState<C>,
    pub phase: Phase,
    /// The operations that are dispatched and have not ended.
    pub pending: Seq<(usize, Op)>,
    /// The operations that were taken from the clients.
    pub taken: Multiset<(usize, Op)>,
    /// The operations whose client was sent an answer, once for each answer.
    pub answered: Multiset<(usize, Op)>,
    /// The operations that went with the task when it ended.
    pub given_up: Multiset<(usize, Op)>,
    /// The subscribers, in the order in which their subscriptions were opened.
    pub subscribers: Seq<Subscriber>,
    /// For each open subscription its subscriber.
    pub subscriber_of: Map<usize, int>,
    /// The subscribers whose notifications a handler forwards, once for each
    /// handler that runs.
    pub running: Multiset<int>,
    /// The ends of subscriptions that were reported and that the task has not
    /// taken yet.
    pub reports: Seq<usize>,
    /// How many numbers the task went through.
    pub rounds: nat,
    /// The operations that were taken, in order: the round in which each was
    /// taken, and its number.
    pub history: Seq<(nat, usize)>,
}

/// A call of the task with an event: the task, and how it goes on.
pub struct Taken<C> {
    pub task: BackgroundTask<C>,
    pub step: Step<C>,
}

/// A call of a reconnect with how a dispatched operation ended: the reconnect, and
/// how it goes on.
pub struct Collected<C> {
    pub reconnect: Reconnect<C>,
    pub drained: Drained<C>,
}

/// Who hears how a dispatched operation ended.
pub enum Heard<C> {
    /// The task, which waits for events.
    Event(Taken<C>),
    /// The reconnect, which waits for the dispatched operations.
    Drain(Collected<C>),
}

/// Something that happens in a session, with the calls that are made when it does.
/// `C` is a connection and `S` the server's side of a subscription.
pub enum Happening<C, S> {
    /// The task takes an operation from a client.
    Take(Op, Taken<C>),
    /// The task is told that nothing is dispatched.
    NothingDispatched(Taken<C>),
    /// The call that is pending at the position given is settled by a reply.
    SettleCall(int, PendingCall, MethodResult, SettledCall, Heard<C>),
    /// The subscription that is pending at the position given is settled by a
    /// reply.
    SettleSubscription(
        int,
        PendingSubscription,
        Result<S, RpcError>,
        SettledSubscription<S>,
        Heard<C>,
    ),
    /// The task finds the connection terminated.
    Disconnect(Taken<C>),
    /// A handler of the subscriber given, for the subscription given, ends and
    /// gives back its handle on the subscriber's channel. It is told whether the
    /// subscription was dropped on this side, and whether the connection that it
    /// was opened on is lost.
    EndStream(int, usize, bool, bool),
    /// The task takes the next report of the end of a subscription.
    CloseSubscription(Taken<C>),
    /// Every dispatched operation ended, and the reconnect is counted.
    Restart(Collected<C>),
    /// The connection given is up, and the task goes on with the plan.
    Reconnect(Reconnecting<C>, C, ReconnectPlan<C>),
    /// The next subscription was opened again, with the server's side of it.
    Resubscribe(Resubscribing<C>, Resubscription<C>, S, Resubscribed<C, S>),
    /// Every subscription is open again, and the task waits for events.
    Done(Resubscribing<C>, BackgroundTask<C>),
    /// The task ends: no client is left, or the reconnect failed.
    Stop(Stopped<C>),
    /// A client reads the count of reconnects through its handle: the handle
    /// before and after, and what was read.
    ReadCount(CounterState, CounterState, usize),
}

/// A request as an operation with its number.
pub open spec fn numbered<C>(transmit: Transmit<C>) -> (usize, Op) {
    (transmit.dispatch.id(), transmit.dispatch.op())
}

impl<C: Clone> Session<C> {
    /// Nothing happened yet to `first`, which is a new task.
    pub open spec fn init(first: TaskState<C>) -> Self {
        Session {
            task: first,
            phase: Phase::Connected,
            pending: Seq::empty(),
            taken: Multiset::empty(),
            answered: Multiset::empty(),
            given_up: Multiset::empty(),
            subscribers: Seq::empty(),
            subscriber_of: Map::empty(),
            running: Multiset::empty(),
            reports: Seq::empty(),
            rounds: 0,
            history: Seq::empty(),
        }
    }

    /// The reconnect that waits for the new connection or for the dispatched
    /// operations.
    pub open spec fn reconnect(self) -> ReconnectState<C> {
        ReconnectState { task: self.task, retry: self.phase.retry() }
    }

    /// The reconnect that opens the subscriptions again.
    pub open spec fn resubscribing(self) -> ResubscribeState<C> {
        ResubscribeState { task: self.task, todo: self.phase->Resubscribing_0 }
    }

    /// The dispatched operations can end now.
    pub open spec fn settling(self) -> bool {
        self.phase is Connected || self.phase is Draining
    }

    /// `taken` is a call of the task with `event`, which it waits for.
    pub open spec fn takes(self, event: Event, taken: Taken<C>) -> bool {
        &&& self.phase is Connected
        &&& taken.task@ == self.task
        &&& call_ensures(
            BackgroundTask::<C>::background_task,
            (taken.task, event),
            taken.step,
        )
    }

    /// `collected` is a call of the reconnect with how a dispatched operation
    /// ended, or with that none is left.
    pub open spec fn collects(self, ended: Option<Response>, collected: Collected<C>) -> bool {
        &&& self.phase is Draining
        &&& collected.reconnect@ == self.reconnect()
        &&& call_ensures(
            Reconnect::<C>::drained,
            (collected.reconnect, ended),
            collected.drained,
        )
    }

    /// It is heard that a dispatched operation ended.
    pub open spec fn hears(self, response: Response, heard: Heard<C>) -> bool {
        match heard {
            Heard::Event(taken) => self.takes(Event::Response(Some(response)), taken),
            Heard::Drain(collected) => self.collects(Some(response), collected),
        }
    }

    /// `happening` can happen now.
    pub open spec fn enabled<S>(self, happening: Happening<C, S>) -> bool {
        match happening {
            Happening::Take(op, taken) => self.takes(Event::Message(Some(op)), taken),
            Happening::NothingDispatched(taken) => self.takes(Event::Response(None), taken),
            Happening::SettleCall(i, call, reply, settled, heard) => {
                &&& 0 <= i < self.pending.len()
                &&& self.pending[i] == (call.id, call.op())
                &&& call_ensures(PendingCall::settle, (call, reply), settled)
                &&& self.hears(settled.response, heard)
            },
            Happening::SettleSubscription(i, sub, reply, settled, heard) => {
                &&& 0 <= i < self.pending.len()
                &&& self.pending[i] == (sub.id, sub.op())
                &&& call_ensures(PendingSubscription::settle::<S>, (sub, reply), settled)
                &&& self.hears(settled.response, heard)
            },
            Happening::Disconnect(taken) => self.takes(Event::Disconnected, taken),
            Happening::EndStream(k, id, _, _) => {
                self.running.count(k) > 0 && self.subscribers[k].id == id
            },
            Happening::CloseSubscription(taken) => {
                &&& self.reports.len() > 0
                &&& self.takes(Event::SubscriptionClosed(Some(self.reports.first())), taken)
            },
            Happening::Restart(collected) => {
                &&& self.pending.len() == 0
                &&& self.collects(None, collected)
            },
            Happening::Reconnect(reconnecting, connection, plan) => {
                &&& self.phase is Connecting
                &&& reconnecting@ == self.reconnect()
                &&& call_ensures(
                    Reconnecting::<C>::reconnect,
                    (reconnecting, Ok(connection)),
                    Ok::<ReconnectPlan<C>, ReconnectFailed<C>>(plan),
                )
            },
            Happening::Resubscribe(resubscribing, sub, reply, opened) => {
                &&& self.phase is Resubscribing
                &&& resubscribing@ == self.resubscribing()
                &&& call_ensures(
                    Resubscribing::<C>::next,
                    (resubscribing,),
                    Resubscribe::Subscribe(sub),
                )
                &&& call_ensures(
                    Resubscription::<C>::resubscribed::<S>,
                    (sub, Ok(reply)),
                    Ok::<Resubscribed<C, S>, ResubscribeFailed<C>>(opened),
                )
            },
            Happening::Done(resubscribing, task) => {
                &&& self.phase is Resubscribing
                &&& resubscribing@ == self.resubscribing()
                &&& call_ensures(
                    Resubscribing::<C>::next,
                    (resubscribing,),
                    Resubscribe::Done(task),
                )
            },
            Happening::Stop(stopped) => {
                &&& self.phase is Connected || self.phase is Connecting || self.phase is Resubscribing
                &&& stopped@ == self.task
            },
            Happening::ReadCount(before, after, r) => {
                &&& before.cell == self.task.reconnect_cnt.cell
                &&& after == before.read(r)
                &&& r == self.task.reconnect_cnt.count()
            },
        }
    }

    /// The session after the task went on with `step`: it is where that step says.
    pub open spec fn take_step(self, step: Step<C>) -> Session<C> {
        match step {
            Step::Continue { task, .. } => Session { task: task@, rounds: self.rounds + 1, ..self },
            Step::Dispatch(task, _) => Session { task: task@, rounds: self.rounds + 1, ..self },
            Step::Reconnect(reconnect) => Session {
                task: reconnect@.task,
                phase: Phase::Draining(reconnect@.retry),
                ..self
            },
            Step::Stop(_) => self.stop(),
        }
    }

    /// The session after the reconnect went on with `drained`: it is where that
    /// says.
    pub open spec fn take_drained(self, drained: Drained<C>) -> Session<C> {
        match drained {
            Drained::Wait { reconnect, .. } => Session {
                task: reconnect@.task,
                phase: Phase::Draining(reconnect@.retry),
                ..self
            },
            Drained::Restart(reconnecting) => Session {
                task: reconnecting@.task,
                phase: Phase::Connecting(reconnecting@.retry),
                ..self
            },
        }
    }

    /// The session after the task ended.
    pub open spec fn stop(self) -> Session<C> {
        Session {
            task: TaskState { open: Map::empty(), ..self.task },
            phase: Phase::Ended,
            pending: Seq::empty(),
            given_up: self.given_up.add(self.pending.to_multiset()).add(
                self.phase.retry().to_multiset(),
            ),
            subscriber_of: Map::empty(),
            ..self
        }
    }

    /// The session after the operation that is pending at `i` was settled, with an
    /// answer to its client or without, and it was heard how it ended.
    pub open spec fn settle(
        self,
        i: int,
        response: Response,
        answered: bool,
        heard: Heard<C>,
    ) -> Session<C> {
        let s = Session {
            pending: self.pending.remove(i),
            answered: if answered {
                self.answered.insert(self.pending[i])
            } else {
                self.answered
            },
            ..self
        };
        let t = match heard {
            Heard::Event(taken) => s.take_step(taken.step),
            Heard::Drain(collected) => s.take_drained(collected.drained),
        };
        match response {
            Ok(Some((id, record))) => t.subscribe(id, record.tx@.receiver),
            _ => t,
        }
    }

    /// The session after the task, which waits for events, took one.
    pub open spec fn take_event(self, event: Event) -> Session<C> {
        if TaskState::<C>::reconnects(event) {
            Session { phase: Phase::Draining(TaskState::<C>::to_retry(event)), ..self }
        } else {
            Session { task: self.task.after(event), rounds: self.rounds + 1, ..self }
        }
    }

    /// The session after the operation that is pending at `i` ended, with an
    /// answer to its client or without.
    pub open spec fn end(self, i: int, response: Response, answered: bool) -> Session<C> {
        let s = Session {
            pending: self.pending.remove(i),
            answered: if answered {
                self.answered.insert(self.pending[i])
            } else {
                self.answered
            },
            ..self
        };
        let t = if self.phase is Draining {
            let drained = self.reconnect().drain(response);
            Session { task: drained.task, phase: Phase::Draining(drained.retry), ..s }
        } else {
            s.take_event(Event::Response(Some(response)))
        };
        match response {
            Ok(Some((id, record))) => t.subscribe(id, record@.tx.receiver),
            _ => t,
        }
    }

    /// The session after the subscription `id` was opened, and a handler started
    /// for its new subscriber.
    pub open spec fn subscribe(
        self,
        id: usize,
        receiver: UnboundedReceiver<Notification>,
    ) -> Session<C> {
        let k = self.subscribers.len() as int;
        Session {
            subscribers: self.subscribers.push(
                Subscriber { receiver, id, started: 1, returned: 0 },
            ),
            subscriber_of: self.subscriber_of.insert(id, k),
            running: self.running.insert(k),
            ..self
        }
    }

    /// The session after one more handler was started for a subscriber.
    pub open spec fn start_handler(self, k: int) -> Session<C> {
        let subscriber = self.subscribers[k];
        Session {
            subscribers: self.subscribers.update(
                k,
                Subscriber { started: subscriber.started + 1, ..subscriber },
            ),
            running: self.running.insert(k),
            ..self
        }
    }

    /// The session after a handler of a subscriber ended.
    pub open spec fn end_handler(self, k: int) -> Session<C> {
        let subscriber = self.subscribers[k];
        Session {
            subscribers: self.subscribers.update(
                k,
                Subscriber { returned: subscriber.returned + 1, ..subscriber },
            ),
            running: self.running.remove(k),
            ..self
        }
    }

    /// The session after `happening`: it is where the calls say that were made.
    pub open spec fn after<S>(self, happening: Happening<C, S>) -> Session<C> {
        match happening {
            Happening::Take(op, taken) => {
                let dispatched = numbered(taken.step->Dispatch_1);
                Session {
                    pending: self.pending.push(dispatched),
                    taken: self.taken.insert((self.task.id, op)),
                    history: self.history.push((self.rounds, dispatched.0)),
                    ..self.take_step(taken.step)
                }
            },
            Happening::NothingDispatched(taken) => self.take_step(taken.step),
            Happening::SettleCall(i, _, _, settled, heard) => self.settle(
                i,
                settled.response,
                settled.answer is Some,
                heard,
            ),
            Happening::SettleSubscription(i, _, _, settled, heard) => self.settle(
                i,
                settled.response,
                settled.answer is Some,
                heard,
            ),
            Happening::Disconnect(taken) => self.take_step(taken.step),
            Happening::EndStream(k, id, sub_dropped, connection_lost) => Session {
                reports: if remove_subscription(sub_dropped, connection_lost) {
                    self.reports.push(id)
                } else {
                    self.reports
                },
                ..self.end_handler(k)
            },
            Happening::CloseSubscription(taken) => Session {
                reports: self.reports.drop_first(),
                subscriber_of: self.subscriber_of.remove(self.reports.first()),
                ..self.take_step(taken.step)
            },
            Happening::Restart(collected) => self.take_drained(collected.drained),
            Happening::Reconnect(_, _, plan) => Session {
                task: plan.resubscribing@.task,
                pending: plan.dispatch@.map_values(|t: Transmit<C>| numbered(t)),
                phase: Phase::Resubscribing(plan.resubscribing@.todo),
                ..self
            },
            Happening::Resubscribe(_, _, _, opened) => Session {
                task: opened.resubscribing@.task,
                phase: Phase::Resubscribing(opened.resubscribing@.todo),
                ..self.start_handler(self.subscriber_of[opened.forward.id])
            },
            Happening::Done(_, task) => Session {
                task: task@,
                phase: Phase::Connected,
                rounds: self.rounds + 1,
                ..self
            },
            Happening::Stop(_) => self.stop(),
            Happening::ReadCount(_, _, _) => self,
        }
    }

    /// The session after `happening`, as what happens determines it.
    spec fn model<S>(self, happening: Happening<C, S>) -> Session<C> {
        match happening {
            Happening::Take(op, taken) => {
                let dispatched = numbered(taken.step->Dispatch_1);
                Session {
                    pending: self.pending.push(dispatched),
                    taken: self.taken.insert((self.task.id, op)),
                    history: self.history.push((self.rounds, dispatched.0)),
                    ..self.take_event(Event::Message(Some(op)))
                }
            },
            Happening::NothingDispatched(_) => self.take_event(Event::Response(None)),
            Happening::SettleCall(i, _, _, settled, _) => self.end(
                i,
                settled.response,
                settled.answer is Some,
            ),
            Happening::SettleSubscription(i, _, _, settled, _) => self.end(
                i,
                settled.response,
                settled.answer is Some,
            ),
            Happening::Disconnect(_) => self.take_event(Event::Disconnected),
            Happening::EndStream(k, id, sub_dropped, connection_lost) => Session {
                reports: if remove_subscription(sub_dropped, connection_lost) {
                    self.reports.push(id)
                } else {
                    self.reports
                },
                ..self.end_handler(k)
            },
            Happening::CloseSubscription(_) => Session {
                reports: self.reports.drop_first(),
                subscriber_of: self.subscriber_of.remove(self.reports.first()),
                ..self.take_event(Event::SubscriptionClosed(Some(self.reports.first())))
            },
            Happening::Restart(_) => Session {
                task: self.task.restarts(),
                phase: Phase::Connecting(self.phase.retry()),
                ..self
            },
            Happening::Reconnect(_, _, plan) => Session {
                task: plan.resubscribing@.task,
                pending: plan.dispatch@.map_values(|t: Transmit<C>| numbered(t)),
                phase: Phase::Resubscribing(plan.resubscribing@.todo),
                ..self
            },
            Happening::Resubscribe(_, _, _, opened) => Session {
                task: opened.resubscribing@.task,
                phase: Phase::Resubscribing(opened.resubscribing@.todo),
                ..self.start_handler(self.subscriber_of[opened.forward.id])
            },
            Happening::Done(_, _) => Session {
                task: self.task.next_number(),
                phase: Phase::Connected,
                rounds: self.rounds + 1,
                ..self
            },
            Happening::Stop(_) => self.stop(),
            Happening::ReadCount(_, _, _) => self,
        }
    }

    /// Every happening of `run` can happen when it does, starting from here.
    pub open spec fn runs<S>(self, run: Seq<Happening<C, S>>) -> bool
        decreases run.len(),
    {
        run.len() > 0 ==> {
            &&& self.runs(run.drop_last())
            &&& self.end_of(run.drop_last()).enabled(run.last())
        }
    }

    /// The session after `run`.
    pub open spec fn end_of<S>(self, run: Seq<Happening<C, S>>) -> Session<C>
        decreases run.len(),
    {
        if run.len() == 0 {
            self
        } else {
            self.end_of(run.drop_last()).after(run.last())
        }
    }
}

/// The calls leave the session where what happened says that it is.
proof fn lemma_after<C: Clone, S>(s: Session<C>, happening: Happening<C, S>)
    requires
        s.enabled(happening),
    ensures
        s.after(happening) == s.model(happening),
        s.is_model(happening),
{
    match happening {
        Happening::Resubscribe(resubscribing, _, _, _) => {
            assert(resubscribing@.todo.len() > 0);
        },
        _ => {},
    }
}

impl<C: Clone> Session<C> {
    /// What the calls that are made when `happening` happens have to do with the
    /// session.
    spec fn is_model<S>(self, happening: Happening<C, S>) -> bool {
        match happening {
            Happening::Take(op, taken) => {
                &&& self.phase is Connected
                &&& self.task.goes_on(Event::Message(Some(op)), taken.step)
            },
            Happening::SettleCall(_, call, reply, settled, _) => {
                &&& self.settling()
                &&& call.settles(reply, settled)
            },
            Happening::SettleSubscription(_, sub, reply, settled, _) => {
                &&& self.settling()
                &&& sub.settles(reply, settled)
            },
            Happening::Reconnect(_, connection, plan) => plan.plans(self.reconnect(), connection),
            Happening::Resubscribe(_, _, _, opened) => {
                &&& self.resubscribing().todo.len() > 0
                &&& opened.resubscribing@ == self.resubscribing().resubscribe()
                &&& opened.forward.id == self.resubscribing().next_id()
                &&& opened.forward.tx@ == SenderState::fresh(
                    self.task.open[opened.forward.id].tx.receiver,
                )
            },
            Happening::Done(_, _) => self.resubscribing().todo.len() == 0,
            _ => true,
        }
    }
}

// Every operation is answered.

impl<C: Clone> Session<C> {
    /// Every operation that was taken is dispatched, waits for the new
    /// connection, was answered or went with the task: one of the four, and once.
    pub open spec fn accounts_for_all(self) -> bool {
        self.taken == self.answered.add(self.given_up).add(self.pending.to_multiset()).add(
            self.phase.retry().to_multiset(),
        )
    }

    /// Nothing is dispatched over a connection that is not up yet, what is still
    /// to be opened again is open, and nothing is given up before the task ends.
    pub open spec fn in_phase(self) -> bool {
        &&& self.phase is Connecting || self.phase is Ended ==> self.pending.len() == 0
        &&& !(self.phase is Ended) ==> self.given_up.len() == 0
        &&& self.phase is Resubscribing ==> self.resubscribing().wf()
    }
}

/// What is opened again next is open.
proof fn lemma_next_is_open<C: Clone>(s: Session<C>)
    requires
        s.in_phase(),
        s.phase is Resubscribing,
        s.resubscribing().todo.len() > 0,
    ensures
        s.task.open.contains_key(s.resubscribing().next_id()),
{
    let todo = s.resubscribing().todo;
    assert(s.task.open.contains_key(todo[todo.len() - 1]));
}

/// One happening keeps the session in order.
proof fn lemma_step_in_phase<C: Clone, S>(s: Session<C>, happening: Happening<C, S>)
    requires
        s.in_phase(),
        s.enabled(happening),
    ensures
        s.after(happening).in_phase(),
{
    lemma_after(s, happening);
    let t = s.after(happening);
    match happening {
        Happening::Reconnect(_, _, plan) => {
            assert forall|i: int| 0 <= i < t.resubscribing().todo.len() implies t.task.open.contains_key(
                #[trigger] t.resubscribing().todo[i],
            ) by {
                let todo = plan.resubscribing@.todo;
                assert(todo.to_set().contains(todo[i]));
            }
        },
        Happening::Resubscribe(_, _, _, _) => {
            let before = s.resubscribing();
            let next = t.resubscribing();
            assert forall|i: int| 0 <= i < next.todo.len() implies next.task.open.contains_key(
                #[trigger] next.todo[i],
            ) by {
                assert(before.task.open.contains_key(before.todo[i]));
            }
        },
        _ => {},
    }
}

/// One happening keeps account of every operation.
proof fn lemma_step_accounts_for_all<C: Clone, S>(s: Session<C>, happening: Happening<C, S>)
    requires
        s.accounts_for_all(),
        s.in_phase(),
        s.enabled(happening),
    ensures
        s.after(happening).accounts_for_all(),
        s.after(happening).in_phase(),
{
    lemma_after(s, happening);
    broadcast use vstd::seq_lib::group_to_multiset_ensures;
    broadcast use vstd::multiset::group_multiset_axioms;

    lemma_step_in_phase(s, happening);
    let t = s.after(happening);
    let empty = Seq::<(usize, Op)>::empty();
    assert(empty.to_multiset() =~= Multiset::empty());
    match happening {
        Happening::Take(op, taken) => {
            assert(t.taken =~= t.answered.add(t.given_up).add(t.pending.to_multiset()).add(
                t.phase.retry().to_multiset(),
            ));
        },
        Happening::SettleCall(i, call, reply, settled, _) => {
            lemma_end_accounts_for_all(s, i, settled.response, settled.answer is Some);
        },
        Happening::SettleSubscription(i, sub, reply, settled, _) => {
            lemma_end_accounts_for_all(s, i, settled.response, settled.answer is Some);
        },
        Happening::Reconnect(_, connection, plan) => {
            lemma_transmits(plan.dispatch@, s.phase.retry(), connection);
            assert(s.pending =~= empty);
            assert(t.taken =~= t.answered.add(t.given_up).add(t.pending.to_multiset()).add(
                t.phase.retry().to_multiset(),
            ));
        },
        Happening::Stop(_) => {
            assert(t.pending =~= empty);
            assert(t.taken =~= t.answered.add(t.given_up).add(t.pending.to_multiset()).add(
                t.phase.retry().to_multiset(),
            ));
        },
        _ => {},
    }
}

/// What transmits `retry` is `retry`, request for request.
proof fn lemma_transmits<C: Clone>(
    dispatch: Seq<Transmit<C>>,
    retry: Seq<(usize, Op)>,
    connection: C,
)
    requires
        transmits_all(dispatch, retry, connection),
    ensures
        dispatch.map_values(|t: Transmit<C>| numbered(t)) == retry,
{
    assert forall|i: int| 0 <= i < retry.len() implies numbered(#[trigger] dispatch[i]) == retry[i] by {
        assert(dispatch[i].transmits(retry[i].1, retry[i].0, connection));
    }
    assert(dispatch.map_values(|t: Transmit<C>| numbered(t)) =~= retry);
}

/// An operation that ends keeps account of every operation, if it was either
/// answered or handed back.
proof fn lemma_end_accounts_for_all<C: Clone>(s: Session<C>, i: int, response: Response, answered: bool)
    requires
        s.accounts_for_all(),
        s.settling(),
        0 <= i < s.pending.len(),
        answered ==> response is Ok,
        !answered ==> response == Response::Err(
            Closed { op: s.pending[i].1, id: s.pending[i].0 },
        ),
    ensures
        s.end(i, response, answered).accounts_for_all(),
{
    broadcast use vstd::seq_lib::group_to_multiset_ensures;
    broadcast use vstd::multiset::group_multiset_axioms;

    let t = s.end(i, response, answered);
    let empty = Seq::<(usize, Op)>::empty();
    assert(empty.to_multiset() =~= Multiset::empty());
    assert(s.pending.contains(s.pending[i]));
    if !answered && s.phase is Connected {
        assert(t.phase.retry() =~= empty.push(s.pending[i]));
    }
    assert(t.taken =~= t.answered.add(t.given_up).add(t.pending.to_multiset()).add(
        t.phase.retry().to_multiset(),
    ));
}

/// However a session goes, every operation that was taken from a client is
/// dispatched, waits for the new connection, was answered or went with the task:
/// one of the four, and once. It keeps its number all the while.
pub proof fn law_every_operation_is_accounted_for<C: Clone, S>(
    first: TaskState<C>,
    run: Seq<Happening<C, S>>,
)
    requires
        Session::init(first).runs(run),
    ensures
        Session::init(first).end_of(run).accounts_for_all(),
        Session::init(first).end_of(run).in_phase(),
    decreases run.len(),
{
    broadcast use vstd::seq_lib::group_to_multiset_ensures;
    broadcast use vstd::multiset::group_multiset_axioms;

    if run.len() == 0 {
        let s = Session::init(first);
        let none = Multiset::<(usize, Op)>::empty();
        assert(s.pending.to_multiset() =~= none);
        assert(s.phase.retry().to_multiset() =~= none);
        assert(none.add(none).add(none).add(none) =~= none);
    } else {
        law_every_operation_is_accounted_for(first, run.drop_last());
        lemma_step_accounts_for_all(Session::init(first).end_of(run.drop_last()), run.last());
    }
}

/// A session that waits for nothing has answered every operation that was taken
/// from a client, and each once.
pub proof fn law_idle_session_answered_all<C: Clone, S>(
    first: TaskState<C>,
    run: Seq<Happening<C, S>>,
)
    requires
        Session::init(first).runs(run),
        Session::init(first).end_of(run).phase is Connected,
        Session::init(first).end_of(run).pending.len() == 0,
    ensures
        Session::init(first).end_of(run).answered == Session::init(first).end_of(run).taken,
{
    broadcast use vstd::multiset::group_multiset_axioms;
    broadcast use vstd::seq_lib::group_to_multiset_ensures;

    law_every_operation_is_accounted_for(first, run);
    let s = Session::init(first).end_of(run);
    let none = Multiset::<(usize, Op)>::empty();
    assert(s.pending.to_multiset() =~= none);
    assert(s.phase.retry().to_multiset() =~= none);
    assert(s.given_up =~= none) by {
        assert forall|x: (usize, Op)| #[trigger] s.given_up.count(x) == 0 by {
            if s.given_up.count(x) > 0 {
                assert(s.given_up.remove(x).len() + 1 == s.given_up.len());
            }
        }
    }
    assert(s.answered.add(none).add(none).add(none) =~= s.answered);
}

/// When the task ends, every operation that was taken from a client was answered
/// or went with the task, each once: and the client of one that went with the task
/// learns that it is gone.
pub proof fn law_ended_session_answered_or_gave_up<C: Clone, S>(
    first: TaskState<C>,
    run: Seq<Happening<C, S>>,
)
    requires
        Session::init(first).runs(run),
        Session::init(first).end_of(run).phase is Ended,
    ensures
        Session::init(first).end_of(run).taken == Session::init(first).end_of(run).answered.add(
            Session::init(first).end_of(run).given_up,
        ),
{
    broadcast use vstd::multiset::group_multiset_axioms;
    broadcast use vstd::seq_lib::group_to_multiset_ensures;

    law_every_operation_is_accounted_for(first, run);
    let s = Session::init(first).end_of(run);
    let none = Multiset::<(usize, Op)>::empty();
    assert(s.pending.to_multiset() =~= none);
    assert(s.phase.retry().to_multiset() =~= none);
    assert(s.answered.add(s.given_up).add(none).add(none) =~= s.answered.add(s.given_up));
}

/// The operations among `ended` that were handed back, in order, each with its
/// number.
pub open spec fn handed_back(ended: Seq<Response>) -> Seq<(usize, Op)>
    decreases ended.len(),
{
    if ended.len() == 0 {
        Seq::empty()
    } else {
        let before = handed_back(ended.drop_last());
        match ended.last() {
            Err(closed) => before.push((closed.id, closed.op)),
            _ => before,
        }
    }
}

/// The reconnect after all of `ended`, one after the other.
pub open spec fn drain_all<C>(reconnect: ReconnectState<C>, ended: Seq<Response>) -> ReconnectState<C>
    decreases ended.len(),
{
    if ended.len() == 0 {
        reconnect
    } else {
        drain_all(reconnect, ended.drop_last()).drain(ended.last())
    }
}

/// A reconnect transmits again what started it and then everything that was
/// handed back while it waited: all of it, in order, each operation whole, under
/// its own number and over the new connection, and nothing else.
pub proof fn law_reconnect_transmits_all_that_was_handed_back<C: Clone>(
    reconnect: ReconnectState<C>,
    ended: Seq<Response>,
    connection: C,
    plan: ReconnectPlan<C>,
)
    requires
        plan.plans(drain_all(reconnect, ended), connection),
    ensures
        plan.dispatch@.map_values(|t: Transmit<C>| numbered(t)) == reconnect.retry + handed_back(ended),
        forall|i: int|
            0 <= i < plan.dispatch@.len() ==> cloned(
                connection,
                (#[trigger] plan.dispatch@[i]).connection,
            ),
{
    lemma_drain_all_retry(reconnect, ended);
    let retry = drain_all(reconnect, ended).retry;
    lemma_transmits(plan.dispatch@, retry, connection);
    assert forall|i: int| 0 <= i < plan.dispatch@.len() implies cloned(
        connection,
        (#[trigger] plan.dispatch@[i]).connection,
    ) by {
        assert(plan.dispatch@[i].transmits(retry[i].1, retry[i].0, connection));
    }
}

proof fn lemma_drain_all_retry<C: Clone>(reconnect: ReconnectState<C>, ended: Seq<Response>)
    ensures
        drain_all(reconnect, ended).retry == reconnect.retry + handed_back(ended),
    decreases ended.len(),
{
    if ended.len() > 0 {
        lemma_drain_all_retry(reconnect, ended.drop_last());
    }
    assert(drain_all(reconnect, ended).retry =~= reconnect.retry + handed_back(ended));
}

/// The subscription of `ended`, if it opened one.
pub open spec fn opened_by(ended: Response) -> Option<usize> {
    match ended {
        Ok(Some((id, _))) => Some(id),
        _ => None,
    }
}

/// A subscription that was opened while a reconnect waited for the dispatched
/// operations, the last under its number, is opened again over the new
/// connection, once, and as it was.
pub proof fn law_drained_subscription_is_opened_again<C: Clone>(
    reconnect: ReconnectState<C>,
    ended: Seq<Response>,
    connection: C,
    plan: ReconnectPlan<C>,
    i: int,
)
    requires
        plan.plans(drain_all(reconnect, ended), connection),
        0 <= i < ended.len(),
        opened_by(ended[i]) is Some,
        forall|j: int| i < j < ended.len() ==> #[trigger] opened_by(ended[j]) != opened_by(ended[i]),
    ensures
        ended[i] matches Ok(Some((id, sub))) && {
            &&& plan.resubscribing@.todo.contains(id)
            &&& plan.resubscribing@.todo.no_duplicates()
            &&& plan.resubscribing@.task.open[id] == sub@
        },
{
    lemma_drained_subscription_is_open(reconnect, ended, i);
    let id = opened_by(ended[i])->0;
    assert(plan.resubscribing@.todo.to_set().contains(id));
}

proof fn lemma_drained_subscription_is_open<C: Clone>(
    reconnect: ReconnectState<C>,
    ended: Seq<Response>,
    i: int,
)
    requires
        0 <= i < ended.len(),
        opened_by(ended[i]) is Some,
        forall|j: int| i < j < ended.len() ==> #[trigger] opened_by(ended[j]) != opened_by(ended[i]),
    ensures
        ended[i] matches Ok(Some((id, sub))) && {
            &&& drain_all(reconnect, ended).task.open.contains_key(id)
            &&& drain_all(reconnect, ended).task.open[id] == sub@
        },
    decreases ended.len(),
{
    if i < ended.len() - 1 {
        let before = ended.drop_last();
        assert forall|j: int| i < j < before.len() implies #[trigger] opened_by(before[j])
            != opened_by(before[i]) by {
            assert(opened_by(ended[j]) != opened_by(ended[i]));
        }
        lemma_drained_subscription_is_open(reconnect, before, i);
        assert(opened_by(ended[ended.len() - 1]) != opened_by(ended[i]));
    }
}

// Numbers.

impl<C: Clone> Session<C> {
    /// No operation that is dispatched or waits has the number `id`.
    pub open spec fn no_operation_has(self, id: usize) -> bool {
        &&& forall|i: int| 0 <= i < self.pending.len() ==> (#[trigger] self.pending[i]).0 != id
        &&& forall|i: int|
            0 <= i < self.phase.retry().len() ==> (#[trigger] self.phase.retry()[i]).0 != id
    }

    /// Nothing that is dispatched, waits or is open has the number `id`.
    pub open spec fn is_free(self, id: usize) -> bool {
        self.no_operation_has(id) && !self.task.open.contains_key(id)
    }

    /// Whenever the task takes an operation in `run`, it gives it a number that
    /// is free.
    pub open spec fn takes_free_numbers<S>(self, run: Seq<Happening<C, S>>) -> bool
        decreases run.len(),
    {
        run.len() > 0 ==> {
            &&& self.takes_free_numbers(run.drop_last())
            &&& run.last() is Take ==> {
                let before = self.end_of(run.drop_last());
                before.is_free(before.task.id)
            }
        }
    }

    /// No two operations that are dispatched or wait have the same number, and
    /// none has the number of an open subscription.
    pub open spec fn numbers_are_distinct(self) -> bool {
        &&& forall|i: int, j: int|
            0 <= i < j < self.pending.len() ==> (#[trigger] self.pending[i]).0 != (
            #[trigger] self.pending[j]).0
        &&& forall|i: int, j: int|
            0 <= i < j < self.phase.retry().len() ==> (#[trigger] self.phase.retry()[i]).0 != (
            #[trigger] self.phase.retry()[j]).0
        &&& forall|i: int, j: int|
            0 <= i < self.pending.len() && 0 <= j < self.phase.retry().len() ==> (
            #[trigger] self.pending[i]).0 != (#[trigger] self.phase.retry()[j]).0
        &&& forall|i: int|
            0 <= i < self.pending.len() ==> !self.task.open.contains_key(
                (#[trigger] self.pending[i]).0,
            )
        &&& forall|i: int|
            0 <= i < self.phase.retry().len() ==> !self.task.open.contains_key(
                (#[trigger] self.phase.retry()[i]).0,
            )
    }

    /// The number of every operation that was taken is that of its round, and
    /// the next one is that of this round.
    pub open spec fn numbers_follow_rounds(self) -> bool {
        &&& self.task.id as int == self.rounds as int % (usize::MAX + 1)
        &&& forall|i: int|
            0 <= i < self.history.len() ==> {
                &&& (#[trigger] self.history[i]).0 < self.rounds
                &&& self.history[i].1 as int == self.history[i].0 as int % (usize::MAX + 1)
            }
        &&& forall|i: int, j: int|
            0 <= i < j < self.history.len() ==> (#[trigger] self.history[i]).0 < (
            #[trigger] self.history[j]).0
    }

    /// An operation was taken under the number `id`.
    pub open spec fn was_given(self, id: usize) -> bool {
        exists|i: int| 0 <= i < self.history.len() && (#[trigger] self.history[i]).1 == id
    }

    /// Every number that is in use is one under which an operation was taken.
    pub open spec fn numbers_were_given(self) -> bool {
        &&& forall|i: int| 0 <= i < self.pending.len() ==> self.was_given((#[trigger] self.pending[i]).0)
        &&& forall|i: int|
            0 <= i < self.phase.retry().len() ==> self.was_given((#[trigger] self.phase.retry()[i]).0)
        &&& forall|id: usize| #[trigger] self.task.open.contains_key(id) ==> self.was_given(id)
    }
}

/// Adding one and taking the remainder.
proof fn lemma_mod_succ(n: int, m: int)
    requires
        m > 1,
    ensures
        (n + 1) % m == if n % m == m - 1 {
            0
        } else {
            n % m + 1
        },
{
    vstd::arithmetic::div_mod::lemma_fundamental_div_mod(n, m);
    let q = n / m;
    let r = n % m;
    if r == m - 1 {
        assert(n + 1 == (q + 1) * m) by (nonlinear_arith)
            requires
                n == m * q + r,
                r == m - 1,
        ;
        vstd::arithmetic::div_mod::lemma_mod_multiples_basic(q + 1, m);
    } else {
        assert(n + 1 == q * m + (r + 1)) by (nonlinear_arith)
            requires
                n == m * q + r,
        ;
        vstd::arithmetic::div_mod::lemma_fundamental_div_mod_converse(n + 1, m, q, r + 1);
    }
}

/// Two numbers that are less than `m` apart have different remainders.
proof fn lemma_mod_apart(a: int, b: int, m: int)
    requires
        m > 0,
        0 < b - a < m,
    ensures
        a % m != b % m,
{
    vstd::arithmetic::div_mod::lemma_fundamental_div_mod(a, m);
    vstd::arithmetic::div_mod::lemma_fundamental_div_mod(b, m);
    if a % m == b % m {
        let p = a / m;
        let q = b / m;
        assert(m * (q - p) == b - a) by (nonlinear_arith)
            requires
                a == m * p + a % m,
                b == m * q + b % m,
                a % m == b % m,
        ;
        assert(false) by (nonlinear_arith)
            requires
                0 < m * (q - p) < m,
                m > 0,
        ;
    }
}

/// One happening keeps the numbers distinct, if an operation that is taken gets a
/// free one.
proof fn lemma_step_numbers<C: Clone, S>(s: Session<C>, happening: Happening<C, S>)
    requires
        s.numbers_are_distinct(),
        s.in_phase(),
        s.enabled(happening),
        happening is Take ==> s.is_free(s.task.id),
    ensures
        s.after(happening).numbers_are_distinct(),
        s.after(happening).in_phase(),
{
    lemma_after(s, happening);
    lemma_step_in_phase(s, happening);
    match happening {
        Happening::SettleCall(i, call, reply, settled, _) => {
            lemma_end_numbers(s, i, settled.response, settled.answer is Some);
        },
        Happening::SettleSubscription(i, sub, reply, settled, _) => {
            lemma_end_numbers(s, i, settled.response, settled.answer is Some);
        },
        Happening::Reconnect(_, connection, plan) => {
            lemma_transmits(plan.dispatch@, s.phase.retry(), connection);
        },
        Happening::Resubscribe(_, _, _, opened) => {
            lemma_next_is_open(s);
        },
        _ => {},
    }
}

proof fn lemma_end_numbers<C: Clone>(s: Session<C>, i: int, response: Response, answered: bool)
    requires
        s.numbers_are_distinct(),
        s.settling(),
        0 <= i < s.pending.len(),
        response matches Ok(Some((id, _))) ==> id == s.pending[i].0,
        response matches Err(closed) ==> closed.id == s.pending[i].0,
    ensures
        s.end(i, response, answered).numbers_are_distinct(),
{
    lemma_end_sequences(s, i, response, answered);
}

/// What an operation that ends does to what is dispatched and to what waits.
proof fn lemma_end_sequences<C: Clone>(s: Session<C>, i: int, response: Response, answered: bool)
    requires
        s.settling(),
        0 <= i < s.pending.len(),
    ensures
        ({
            let t = s.end(i, response, answered);
            &&& t.pending.len() == s.pending.len() - 1
            &&& forall|j: int|
                0 <= j < t.pending.len() ==> #[trigger] t.pending[j] == if j < i {
                    s.pending[j]
                } else {
                    s.pending[j + 1]
                }
            &&& t.phase.retry().len() == s.phase.retry().len() + if response is Err {
                1nat
            } else {
                0nat
            }
            &&& forall|j: int|
                0 <= j < s.phase.retry().len() ==> #[trigger] t.phase.retry()[j] == s.phase.retry()[j]
            &&& response matches Err(closed) ==> t.phase.retry().last() == (closed.id, closed.op)
        }),
{
}

/// As long as an operation that is taken gets a free number, no two of those that
/// are in use have the same.
pub proof fn law_numbers_are_distinct<C: Clone, S>(
    first: TaskState<C>,
    run: Seq<Happening<C, S>>,
)
    requires
        first.is_new(),
        Session::init(first).runs(run),
        Session::init(first).takes_free_numbers(run),
    ensures
        Session::init(first).end_of(run).numbers_are_distinct(),
        Session::init(first).end_of(run).in_phase(),
    decreases run.len(),
{
    if run.len() > 0 {
        law_numbers_are_distinct(first, run.drop_last());
        lemma_step_numbers(Session::init(first).end_of(run.drop_last()), run.last());
    }
}

/// Under the same condition a subscription that is opened does not take the place
/// of one that is open.
pub proof fn law_opening_displaces_no_subscription<C: Clone, S>(
    first: TaskState<C>,
    run: Seq<Happening<C, S>>,
    i: int,
    sub: PendingSubscription,
    opened: S,
    settled: SettledSubscription<S>,
    heard: Heard<C>,
)
    requires
        first.is_new(),
        Session::init(first).runs(run),
        Session::init(first).takes_free_numbers(run),
        Session::init(first).end_of(run).enabled(
            Happening::<C, S>::SettleSubscription(i, sub, Ok(opened), settled, heard),
        ),
    ensures
        !Session::init(first).end_of(run).task.open.contains_key(sub.id),
{
    lemma_after(
        Session::init(first).end_of(run),
        Happening::<C, S>::SettleSubscription(i, sub, Ok(opened), settled, heard),
    );
    law_numbers_are_distinct(first, run);
    let s = Session::init(first).end_of(run);
    assert(!s.task.open.contains_key(s.pending[i].0));
}

/// One happening keeps the numbers those of the rounds.
proof fn lemma_step_rounds<C: Clone, S>(s: Session<C>, happening: Happening<C, S>)
    requires
        s.numbers_follow_rounds(),
        s.in_phase(),
        s.enabled(happening),
    ensures
        s.after(happening).numbers_follow_rounds(),
        s.after(happening).in_phase(),
{
    lemma_after(s, happening);
    lemma_step_in_phase(s, happening);
    lemma_mod_succ(s.rounds as int, usize::MAX + 1);
}

proof fn lemma_numbers_follow_rounds<C: Clone, S>(
    first: TaskState<C>,
    run: Seq<Happening<C, S>>,
)
    requires
        first.is_new(),
        Session::init(first).runs(run),
    ensures
        Session::init(first).end_of(run).numbers_follow_rounds(),
        Session::init(first).end_of(run).in_phase(),
    decreases run.len(),
{
    if run.len() == 0 {
        vstd::arithmetic::div_mod::lemma_small_mod(0, (usize::MAX + 1) as nat);
    } else {
        lemma_numbers_follow_rounds(first, run.drop_last());
        lemma_step_rounds(Session::init(first).end_of(run.drop_last()), run.last());
    }
}

/// Any two operations that are taken at most `usize::MAX` rounds apart have
/// different numbers, however long the session is.
pub proof fn law_numbers_differ<C: Clone, S>(
    first: TaskState<C>,
    run: Seq<Happening<C, S>>,
    i: int,
    j: int,
)
    requires
        first.is_new(),
        Session::init(first).runs(run),
        0 <= i < j < Session::init(first).end_of(run).history.len(),
        Session::init(first).end_of(run).history[j].0 - Session::init(first).end_of(run).history[i].0
            <= usize::MAX,
    ensures
        Session::init(first).end_of(run).history[i].1 != Session::init(first).end_of(run).history[j].1,
{
    lemma_numbers_follow_rounds(first, run);
    let history = Session::init(first).end_of(run).history;
    assert(history[i].0 < history[j].0);
    lemma_mod_apart(history[i].0 as int, history[j].0 as int, usize::MAX + 1);
}

/// A number comes up again only after more than `usize::MAX` rounds.
pub proof fn law_number_comes_up_again_late<C: Clone, S>(
    first: TaskState<C>,
    run: Seq<Happening<C, S>>,
    i: int,
)
    requires
        first.is_new(),
        Session::init(first).runs(run),
        0 <= i < Session::init(first).end_of(run).history.len(),
        Session::init(first).end_of(run).rounds - Session::init(first).end_of(run).history[i].0
            <= usize::MAX,
    ensures
        Session::init(first).end_of(run).task.id != Session::init(first).end_of(run).history[i].1,
{
    lemma_numbers_follow_rounds(first, run);
    let s = Session::init(first).end_of(run);
    assert(s.history[i].0 < s.rounds);
    lemma_mod_apart(s.history[i].0 as int, s.rounds as int, usize::MAX + 1);
}

/// One happening keeps the numbers in use among those that were given.
proof fn lemma_step_given<C: Clone, S>(s: Session<C>, happening: Happening<C, S>)
    requires
        s.numbers_were_given(),
        s.in_phase(),
        s.enabled(happening),
    ensures
        s.after(happening).numbers_were_given(),
        s.after(happening).in_phase(),
{
    lemma_after(s, happening);
    lemma_step_in_phase(s, happening);
    let t = s.after(happening);
    assert forall|id: usize| s.was_given(id) implies #[trigger] t.was_given(id) by {
        let i = choose|i: int| 0 <= i < s.history.len() && (#[trigger] s.history[i]).1 == id;
        assert(t.history[i] == s.history[i]);
    }
    match happening {
        Happening::Take(op, taken) => {
            assert(t.history[s.history.len() as int].1 == s.task.id);
        },
        Happening::SettleCall(i, call, reply, settled, _) => {
            lemma_end_sequences(s, i, settled.response, settled.answer is Some);
            assert(s.was_given(s.pending[i].0));
        },
        Happening::SettleSubscription(i, sub, reply, settled, _) => {
            lemma_end_sequences(s, i, settled.response, settled.answer is Some);
            assert(s.was_given(s.pending[i].0));
        },
        Happening::Reconnect(_, connection, plan) => {
            lemma_transmits(plan.dispatch@, s.phase.retry(), connection);
        },
        Happening::Resubscribe(_, _, _, opened) => {
            lemma_next_is_open(s);
        },
        _ => {},
    }
}

/// Every number that is in use, by an operation or by an open subscription, is one
/// under which an operation was taken.
pub proof fn law_numbers_in_use_were_given<C: Clone, S>(
    first: TaskState<C>,
    run: Seq<Happening<C, S>>,
)
    requires
        first.is_new(),
        Session::init(first).runs(run),
    ensures
        Session::init(first).end_of(run).numbers_were_given(),
        Session::init(first).end_of(run).in_phase(),
    decreases run.len(),
{
    if run.len() > 0 {
        law_numbers_in_use_were_given(first, run.drop_last());
        lemma_step_given(Session::init(first).end_of(run.drop_last()), run.last());
    }
}

// Subscriptions.

/// A subscription that the server opened is open from then on, also where a
/// reconnect is under way: with what its subscriber asked for, and with its
/// notifications arriving where the subscriber was told.
pub proof fn law_opened_subscription_is_open<C: Clone, S>(
    s: Session<C>,
    i: int,
    sub: PendingSubscription,
    opened: S,
    settled: SettledSubscription<S>,
    heard: Heard<C>,
)
    requires
        s.enabled(Happening::<C, S>::SettleSubscription(i, sub, Ok(opened), settled, heard)),
    ensures
        ({
            let happening = Happening::<C, S>::SettleSubscription(i, sub, Ok(opened), settled, heard);
            let open = s.after(happening).task.open;
            let receiver = settled.forward->0.tx@.receiver;
            &&& open.contains_key(sub.id)
            &&& open[sub.id] == sub.retry(SenderState::fresh(receiver).share())
            &&& settled.answer matches Some(handed)
            &&& handed.is(sub.send_back, Ok(receiver))
        }),
{
    lemma_after(
        s,
        Happening::<C, S>::SettleSubscription(i, sub, Ok(opened), settled, heard),
    );
}

/// Only a report closes a subscription while the task is there, and it closes the
/// one that it names: no reconnect does, and no operation that ends.
pub proof fn law_only_a_report_closes_a_subscription<C: Clone, S>(
    s: Session<C>,
    happening: Happening<C, S>,
    id: usize,
)
    requires
        s.enabled(happening),
        s.task.open.contains_key(id),
    ensures
        !s.after(happening).task.open.contains_key(id) <==> {
            ||| happening is CloseSubscription && s.reports.first() == id
            ||| happening is Stop
        },
{
    lemma_after(s, happening);
}

/// `happening` neither reports the end of the subscription `id`, nor gives its
/// number to another operation, nor is the end of the task.
pub open spec fn leaves_alone<C, S>(happening: Happening<C, S>, id: usize) -> bool {
    match happening {
        Happening::EndStream(_, ended, sub_dropped, connection_lost) => {
            ended != id || !remove_subscription(sub_dropped, connection_lost)
        },
        Happening::Take(_, taken) => numbered(taken.step->Dispatch_1).0 != id,
        Happening::Stop(_) => false,
        _ => true,
    }
}

/// A subscription stays open as it is until its end is reported, its number comes
/// up again or the task ends, through any number of reconnects: that is until its subscriber
/// drops it, or until it ends on a connection that is not lost. When the loss of
/// the connection is noticed, and when the reconnect is counted, makes no
/// difference.
pub proof fn law_subscription_stays_open<C: Clone, S>(s: Session<C>, run: Seq<Happening<C, S>>, id: usize)
    requires
        s.runs(run),
        s.task.open.contains_key(id),
        s.no_operation_has(id),
        !s.reports.contains(id),
        forall|i: int| 0 <= i < run.len() ==> leaves_alone(#[trigger] run[i], id),
    ensures
        s.end_of(run).task.open.contains_key(id),
        s.end_of(run).task.open[id].same(s.task.open[id]),
        s.end_of(run).no_operation_has(id),
        !s.end_of(run).reports.contains(id),
    decreases run.len(),
{
    if run.len() > 0 {
        let before = run.drop_last();
        assert forall|i: int| 0 <= i < before.len() implies leaves_alone(
            #[trigger] before[i],
            id,
        ) by {
            assert(before[i] == run[i]);
        }
        law_subscription_stays_open(s, before, id);
        assert(leaves_alone(run[run.len() - 1], id));
        lemma_step_stays_open(s.end_of(before), run.last(), id);
    }
}

proof fn lemma_step_stays_open<C: Clone, S>(s: Session<C>, happening: Happening<C, S>, id: usize)
    requires
        s.enabled(happening),
        s.task.open.contains_key(id),
        s.no_operation_has(id),
        !s.reports.contains(id),
        leaves_alone(happening, id),
    ensures
        s.after(happening).task.open.contains_key(id),
        s.after(happening).task.open[id].same(s.task.open[id]),
        s.after(happening).no_operation_has(id),
        !s.after(happening).reports.contains(id),
{
    lemma_after(s, happening);
    match happening {
        Happening::SettleCall(i, _, _, settled, _) => {
            assert(s.pending[i].0 != id);
            lemma_end_sequences(s, i, settled.response, settled.answer is Some);
        },
        Happening::SettleSubscription(i, _, _, settled, _) => {
            assert(s.pending[i].0 != id);
            lemma_end_sequences(s, i, settled.response, settled.answer is Some);
        },
        Happening::Reconnect(_, connection, plan) => {
            lemma_transmits(plan.dispatch@, s.phase.retry(), connection);
        },
        Happening::EndStream(_, _, _, _) => {
            let reports = s.after(happening).reports;
            assert forall|j: int| 0 <= j < reports.len() implies #[trigger] reports[j] != id by {
                if j < s.reports.len() {
                    assert(s.reports.contains(s.reports[j]));
                }
            }
        },
        Happening::CloseSubscription(_) => {
            let reports = s.after(happening).reports;
            assert(s.reports.contains(s.reports[0]));
            assert forall|j: int| 0 <= j < reports.len() implies #[trigger] reports[j] != id by {
                assert(s.reports.contains(s.reports[j + 1]));
            }
        },
        _ => {},
    }
}

/// Every reconnect opens again, once, a subscription that was open at some time
/// before and whose end was not reported in between, nor did its number come up
/// again; and what it opens is what was open, with the notifications going where
/// they went.
pub proof fn law_open_subscription_is_opened_again<C: Clone, S>(
    s: Session<C>,
    run: Seq<Happening<C, S>>,
    reconnecting: Reconnecting<C>,
    connection: C,
    plan: ReconnectPlan<C>,
    id: usize,
)
    requires
        s.runs(run),
        s.end_of(run).enabled(Happening::<C, S>::Reconnect(reconnecting, connection, plan)),
        s.task.open.contains_key(id),
        s.no_operation_has(id),
        !s.reports.contains(id),
        forall|i: int| 0 <= i < run.len() ==> leaves_alone(#[trigger] run[i], id),
    ensures
        plan.resubscribing@.todo.contains(id),
        plan.resubscribing@.todo.no_duplicates(),
        plan.resubscribing@.task.open[id].same(s.task.open[id]),
{
    lemma_after(
        s.end_of(run),
        Happening::<C, S>::Reconnect(reconnecting, connection, plan),
    );
    law_subscription_stays_open(s, run, id);
    assert(plan.resubscribing@.todo.to_set().contains(id));
}

/// A subscription whose end was reported and taken is not open, and the reconnect
/// that follows does not open it again.
pub proof fn law_reported_subscription_is_not_opened_again<C: Clone, S>(
    s: Session<C>,
    taken: Taken<C>,
    connection: C,
    plan: ReconnectPlan<C>,
    retry: Seq<(usize, Op)>,
)
    requires
        s.enabled(Happening::<C, S>::CloseSubscription(taken)),
        plan.plans(
            (ReconnectState {
                task: s.after(Happening::<C, S>::CloseSubscription(taken)).task,
                retry,
            }),
            connection,
        ),
    ensures
        !plan.resubscribing@.todo.contains(s.reports.first()),
{
    lemma_after(s, Happening::<C, S>::CloseSubscription(taken));
    let todo = plan.resubscribing@.todo;
    if todo.contains(s.reports.first()) {
        assert(todo.to_set().contains(s.reports.first()));
    }
}

/// How often `run` opens the subscription `id` again.
pub open spec fn resubscribed_in<C, S>(run: Seq<Happening<C, S>>, id: usize) -> nat
    decreases run.len(),
{
    if run.len() == 0 {
        0
    } else {
        let earlier = resubscribed_in(run.drop_last(), id);
        match run.last() {
            Happening::Resubscribe(_, _, _, opened) => if opened.forward.id == id {
                earlier + 1
            } else {
                earlier
            },
            _ => earlier,
        }
    }
}

/// A reconnect ends well only after it opened every subscription again that it
/// set out to open, each exactly once, and no other.
pub proof fn law_reconnect_opens_every_subscription_again<C: Clone, S>(
    s: Session<C>,
    run: Seq<Happening<C, S>>,
    resubscribing: Resubscribing<C>,
    task: BackgroundTask<C>,
    id: usize,
)
    requires
        s.phase is Resubscribing,
        s.in_phase(),
        s.runs(run),
        forall|i: int| 0 <= i < run.len() ==> !(#[trigger] run[i] is Done || run[i] is Stop),
        s.end_of(run).enabled(Happening::<C, S>::Done(resubscribing, task)),
    ensures
        resubscribed_in(run, id) == if s.resubscribing().todo.contains(id) {
            1nat
        } else {
            0nat
        },
{
    lemma_after(s.end_of(run), Happening::<C, S>::Done(resubscribing, task));
    lemma_resubscribed(s, run, id);
    let todo = s.resubscribing().todo;
    assert(todo.skip(0) =~= todo);
}

/// What was opened again so far is what is not to be opened any more.
proof fn lemma_resubscribed<C: Clone, S>(s: Session<C>, run: Seq<Happening<C, S>>, id: usize)
    requires
        s.phase is Resubscribing,
        s.in_phase(),
        s.runs(run),
        forall|i: int| 0 <= i < run.len() ==> !(#[trigger] run[i] is Done || run[i] is Stop),
    ensures
        s.end_of(run).phase is Resubscribing,
        ({
            let todo = s.resubscribing().todo;
            let left = s.end_of(run).resubscribing().todo;
            &&& left.len() <= todo.len()
            &&& left == todo.take(left.len() as int)
            &&& resubscribed_in(run, id) == if todo.skip(left.len() as int).contains(id) {
                1nat
            } else {
                0nat
            }
        }),
    decreases run.len(),
{
    let todo = s.resubscribing().todo;
    if run.len() == 0 {
        assert(todo.take(todo.len() as int) =~= todo);
        assert(todo.skip(todo.len() as int).len() == 0);
    } else {
        let before = run.drop_last();
        assert forall|i: int| 0 <= i < before.len() implies !(#[trigger] before[i] is Done
            || before[i] is Stop) by {
            assert(before[i] == run[i]);
        }
        lemma_resubscribed(s, before, id);
        lemma_after(s.end_of(before), run.last());
        assert(!(run[run.len() - 1] is Done || run[run.len() - 1] is Stop));
        let mid = s.end_of(before).resubscribing().todo;
        let left = s.end_of(run).resubscribing().todo;
        if run.last() is Resubscribe {
            let n = mid.len() - 1;
            assert(left =~= todo.take(n));
            assert(mid.last() == todo[n]);
            let skipped = todo.skip(n);
            let later = todo.skip(n + 1);
            assert forall|j: int| 0 <= j < later.len() implies #[trigger] later[j] == skipped[j + 1]
                && later[j] != todo[n] by {
                assert(todo[n + 1 + j] != todo[n]);
            }
            assert(skipped[0] == todo[n]);
            if skipped.contains(id) && id != todo[n] {
                let j = choose|j: int| 0 <= j < skipped.len() && skipped[j] == id;
                assert(later[j - 1] == id);
            }
            if later.contains(id) {
                let j = choose|j: int| 0 <= j < later.len() && later[j] == id;
                assert(skipped[j + 1] == id);
            }
        }
    }
}

/// A subscription that is opened again goes on with the receiver that its
/// subscriber has, and opening it again puts nothing into it: a new handle that
/// nothing was sent through is all that the reconnect makes.
pub proof fn law_receiver_goes_on_over_a_reconnect<C: Clone, S>(
    s: Session<C>,
    resubscribing: Resubscribing<C>,
    sub: Resubscription<C>,
    reply: S,
    opened: Resubscribed<C, S>,
)
    requires
        s.in_phase(),
        s.enabled(Happening::<C, S>::Resubscribe(resubscribing, sub, reply, opened)),
    ensures
        ({
            let id = opened.forward.id;
            let open = s.after(Happening::<C, S>::Resubscribe(resubscribing, sub, reply, opened)).task.open;
            &&& s.task.open.contains_key(id)
            &&& open == s.task.open.insert(id, s.task.open[id].share())
            &&& open[id].same(s.task.open[id])
            &&& opened.forward.tx@ == SenderState::fresh(s.task.open[id].tx.receiver)
        }),
{
    lemma_after(s, Happening::<C, S>::Resubscribe(resubscribing, sub, reply, opened));
    lemma_next_is_open(s);
}

impl<C: Clone> Session<C> {
    /// The record of an open subscription leads to the subscriber.
    pub open spec fn has_record(self, k: int) -> bool {
        let id = self.subscribers[k].id;
        self.subscriber_of.contains_key(id) && self.subscriber_of[id] == k
    }

    /// How many handles there are on the channel of a subscriber: that of the
    /// record, and those that were made for handlers and not given back.
    pub open spec fn handles_on(self, k: int) -> int {
        let record: int = if self.has_record(k) {
            1
        } else {
            0
        };
        record + self.subscribers[k].started - self.subscribers[k].returned
    }

    /// Every open subscription has a subscriber. Its record leads to that
    /// subscriber's channel, nothing was ever sent through it, and the handles
    /// that were made from it are those of the handlers.
    pub open spec fn records_lead_to_subscribers(self) -> bool {
        &&& self.subscriber_of.dom() == self.task.open.dom()
        &&& forall|id: usize| #[trigger]
            self.task.open.contains_key(id) ==> {
                let k = self.subscriber_of[id];
                &&& 0 <= k < self.subscribers.len()
                &&& self.subscribers[k].id == id
                &&& self.task.open[id].tx == (SenderState {
                    receiver: self.subscribers[k].receiver,
                    sent: Seq::empty(),
                    shares: self.subscribers[k].started,
                })
            }
    }

    /// The handles that were made for the handlers of a subscriber and not given
    /// back are with the handlers that run.
    pub open spec fn handles_are_with_handlers(self) -> bool {
        &&& forall|k: int|
            0 <= k < self.subscribers.len() ==> (#[trigger] self.subscribers[k]).started
                - self.subscribers[k].returned == self.running.count(k)
        &&& forall|k: int| #[trigger]
            self.running.count(k) > 0 ==> 0 <= k < self.subscribers.len()
    }

    /// The session is in order, and so are the handles.
    pub open spec fn wf(self) -> bool {
        &&& self.in_phase()
        &&& self.records_lead_to_subscribers()
        &&& self.handles_are_with_handlers()
    }
}

proof fn lemma_step_wf<C: Clone, S>(s: Session<C>, happening: Happening<C, S>)
    requires
        s.wf(),
        s.enabled(happening),
    ensures
        s.after(happening).wf(),
{
    lemma_after(s, happening);
    broadcast use vstd::multiset::group_multiset_axioms;

    lemma_step_in_phase(s, happening);
    let t = s.after(happening);
    if happening is Resubscribe {
        lemma_next_is_open(s);
    }
    assert(t.subscriber_of.dom() =~= t.task.open.dom());
    assert forall|id: usize| #[trigger] t.task.open.contains_key(id) implies {
        let k = t.subscriber_of[id];
        &&& 0 <= k < t.subscribers.len()
        &&& t.subscribers[k].id == id
        &&& t.task.open[id].tx == (SenderState {
            receiver: t.subscribers[k].receiver,
            sent: Seq::empty(),
            shares: t.subscribers[k].started,
        })
    } by {
        if s.task.open.contains_key(id) {
            let k = s.subscriber_of[id];
            assert(0 <= k < s.subscribers.len());
        }
    }
}

proof fn lemma_wf<C: Clone, S>(
    first: TaskState<C>,
    run: Seq<Happening<C, S>>,
)
    requires
        first.is_new(),
        Session::init(first).runs(run),
    ensures
        Session::init(first).end_of(run).wf(),
    decreases run.len(),
{
    if run.len() > 0 {
        lemma_wf(first, run.drop_last());
        lemma_step_wf(Session::init(first).end_of(run.drop_last()), run.last());
    } else {
        assert(Session::init(first).subscriber_of.dom() =~= first.open.dom());
    }
}

/// The channel of a subscriber has no handles but that of the record, through
/// which nothing is ever sent, and one with each handler that runs: what a handler
/// was given it gives back.
pub proof fn law_handles_are_with_the_record_and_the_handlers<C: Clone, S>(
    first: TaskState<C>,
    run: Seq<Happening<C, S>>,
    k: int,
)
    requires
        first.is_new(),
        Session::init(first).runs(run),
        0 <= k < Session::init(first).end_of(run).subscribers.len(),
    ensures
        ({
            let s = Session::init(first).end_of(run);
            &&& s.wf()
            &&& s.handles_on(k) == s.running.count(k) + if s.has_record(k) {
                1nat
            } else {
                0nat
            }
        }),
{
    lemma_wf(first, run);
}

/// No subscription outlives the task: once the task ended, the channel of a
/// subscriber has no handles but those of the handlers that still run, and when
/// these have ended too it has none. Then the receiver ends, after what is queued
/// in it.
pub proof fn law_receivers_end_with_the_task<C: Clone, S>(
    first: TaskState<C>,
    run: Seq<Happening<C, S>>,
    k: int,
)
    requires
        first.is_new(),
        Session::init(first).runs(run),
        Session::init(first).end_of(run).phase is Ended,
        0 <= k < Session::init(first).end_of(run).subscribers.len(),
    ensures
        Session::init(first).end_of(run).handles_on(k) == Session::init(first).end_of(
            run,
        ).running.count(k),
        Session::init(first).end_of(run).running.len() == 0 ==> Session::init(first).end_of(
            run,
        ).handles_on(k) == 0,
{
    broadcast use vstd::multiset::group_multiset_axioms;

    law_handles_are_with_the_record_and_the_handlers(first, run, k);
    lemma_ended(first, run);
    let s = Session::init(first).end_of(run);
    if s.running.len() == 0 && s.running.count(k) > 0 {
        assert(s.running.remove(k).len() + 1 == s.running.len());
    }
}

/// A task that ended has no records.
proof fn lemma_ended<C: Clone, S>(
    first: TaskState<C>,
    run: Seq<Happening<C, S>>,
)
    requires
        Session::init(first).runs(run),
        Session::init(first).end_of(run).phase is Ended,
    ensures
        Session::init(first).end_of(run).subscriber_of == Map::<usize, int>::empty(),
    decreases run.len(),
{
    if run.len() > 0 {
        let s = Session::init(first).end_of(run.drop_last());
        lemma_after(s, run.last());
        if s.phase is Ended {
            lemma_ended(first, run.drop_last());
        }
    }
}

/// After the end of the task nothing happens but that handlers end and clients
/// read the count: no handler is started, and with each that ends one less runs.
pub proof fn law_handlers_run_out_after_the_task<C: Clone, S>(
    s: Session<C>,
    happening: Happening<C, S>,
)
    requires
        s.phase is Ended,
        s.enabled(happening),
    ensures
        s.after(happening).phase is Ended,
        happening is EndStream || happening is ReadCount,
        happening is EndStream ==> s.after(happening).running.len() + 1 == s.running.len(),
        happening is ReadCount ==> s.after(happening) == s,
{
    lemma_after(s, happening);
    broadcast use vstd::multiset::group_multiset_axioms;

}

/// `sub` is the subscription that `op` asked for.
pub open spec fn asked_for(op: Op, sub: SubscriptionState) -> bool {
    op matches Op::Subscription { subscribe_method, params, unsubscribe_method, .. } && {
        &&& sub.subscribe_method == subscribe_method
        &&& sub.params == params
        &&& sub.unsubscribe_method == unsubscribe_method
    }
}

impl<C: Clone> Session<C> {
    /// Every open subscription is one that a client asked for, under the number
    /// of the operation, and that client was told so.
    pub open spec fn open_as_asked(self) -> bool {
        forall|id: usize| #[trigger]
            self.task.open.contains_key(id) ==> exists|op: Op| #[trigger]
                self.answered.count((id, op)) > 0 && asked_for(op, self.task.open[id])
    }
}

/// Every open subscription is one that a client asked for, under the number of
/// the operation, and that client was told so.
pub proof fn law_open_subscriptions_are_as_asked<C: Clone, S>(
    first: TaskState<C>,
    run: Seq<Happening<C, S>>,
)
    requires
        first.is_new(),
        Session::init(first).runs(run),
    ensures
        Session::init(first).end_of(run).open_as_asked(),
        Session::init(first).end_of(run).in_phase(),
    decreases run.len(),
{
    broadcast use vstd::multiset::group_multiset_axioms;

    if run.len() > 0 {
        law_open_subscriptions_are_as_asked(first, run.drop_last());
        let s = Session::init(first).end_of(run.drop_last());
        let t = s.after(run.last());
        lemma_after(s, run.last());
        lemma_step_in_phase(s, run.last());
        if let Happening::Resubscribe(_, _, _, opened) = run.last() {
            lemma_next_is_open(s);
        }
        assert forall|id: usize| #[trigger] t.task.open.contains_key(id) implies exists|op: Op|
            #[trigger] t.answered.count((id, op)) > 0 && asked_for(op, t.task.open[id]) by {
            if s.task.open.contains_key(id) && t.task.open[id].same(s.task.open[id]) {
                let op = choose|op: Op| #[trigger]
                    s.answered.count((id, op)) > 0 && asked_for(op, s.task.open[id]);
                assert(t.answered.count((id, op)) > 0);
            } else {
                let sub = run.last()->SettleSubscription_1;
                assert(t.answered.count((id, sub.op())) > 0);
            }
        }
    }
}

// Reconnects.

/// The number of happenings of `run` that count a reconnect.
pub open spec fn restarts_in<C, S>(run: Seq<Happening<C, S>>) -> nat
    decreases run.len(),
{
    if run.len() == 0 {
        0
    } else {
        restarts_in(run.drop_last()) + if run.last() is Restart {
            1nat
        } else {
            0nat
        }
    }
}

/// How often in `run` the task acted on a lost connection.
pub open spec fn losses_in<C: Clone, S>(s: Session<C>, run: Seq<Happening<C, S>>) -> nat
    decreases run.len(),
{
    if run.len() == 0 {
        0
    } else {
        losses_in(s, run.drop_last()) + if s.end_of(run.drop_last()).phase is Connected && s.end_of(
            run,
        ).phase is Draining {
            1nat
        } else {
            0nat
        }
    }
}

/// Every lost connection is counted once, however many operations and
/// subscriptions it takes with it and however often it is tried to connect: when
/// the operations that were dispatched over it have ended. Nothing else is
/// counted.
pub proof fn law_lost_connections_are_counted_once<C: Clone, S>(
    first: TaskState<C>,
    run: Seq<Happening<C, S>>,
)
    requires
        first.is_new(),
        Session::init(first).runs(run),
    ensures
        losses_in(Session::init(first), run) == restarts_in(run) + if Session::init(first).end_of(
            run,
        ).phase is Draining {
            1nat
        } else {
            0nat
        },
        Session::init(first).end_of(run).task.reconnect_cnt == (CounterState {
            counted: restarts_in(run),
            ..first.reconnect_cnt
        }),
    decreases run.len(),
{
    if run.len() > 0 {
        law_lost_connections_are_counted_once(first, run.drop_last());
        lemma_after(Session::init(first).end_of(run.drop_last()), run.last());
    }
}

/// Every client, whichever handle it has on the count, reads the number of lost
/// connections that were counted by then, modulo the size of `usize`.
pub proof fn law_every_client_reads_the_count<C: Clone, S>(
    first: TaskState<C>,
    run: Seq<Happening<C, S>>,
    before: CounterState,
    after: CounterState,
    r: usize,
)
    requires
        first.is_new(),
        Session::init(first).runs(run),
        Session::init(first).end_of(run).enabled(Happening::<C, S>::ReadCount(before, after, r)),
    ensures
        r as int == restarts_in(run) as int % (usize::MAX + 1),
        !(Session::init(first).end_of(run).phase is Draining) ==> r as int == losses_in(
            Session::init(first),
            run,
        ) as int % (usize::MAX + 1),
{
    law_lost_connections_are_counted_once(first, run);
}

/// The connection of the last reconnect in `run`, or else `first`.
pub open spec fn last_connection<C, S>(first: C, run: Seq<Happening<C, S>>) -> C
    decreases run.len(),
{
    if run.len() == 0 {
        first
    } else {
        match run.last() {
            Happening::Reconnect(_, connection, _) => connection,
            _ => last_connection(first, run.drop_last()),
        }
    }
}

/// The task works on the connection of the last reconnect, and every reconnect
/// leads to where the first connection led, with the same pings.
pub proof fn law_task_works_on_the_last_connection<C: Clone, S>(
    first: TaskState<C>,
    run: Seq<Happening<C, S>>,
)
    requires
        Session::init(first).runs(run),
    ensures
        Session::init(first).end_of(run).task.connection == last_connection(first.connection, run),
        Session::init(first).end_of(run).task.url == first.url,
        Session::init(first).end_of(run).task.ping_config == first.ping_config,
    decreases run.len(),
{
    if run.len() > 0 {
        law_task_works_on_the_last_connection(first, run.drop_last());
        lemma_after(Session::init(first).end_of(run.drop_last()), run.last());
    }
}

/// Every operation that is taken goes over the connection of the last reconnect,
/// and over none that was before.
pub proof fn law_operations_go_over_the_last_connection<C: Clone, S>(
    first: TaskState<C>,
    run: Seq<Happening<C, S>>,
    op: Op,
    taken: Taken<C>,
)
    requires
        Session::init(first).runs(run),
        Session::init(first).end_of(run).enabled(Happening::<C, S>::Take(op, taken)),
    ensures
        taken.step matches Step::Dispatch(_, transmit) && transmit.transmits(
            op,
            Session::init(first).end_of(run).task.id,
            last_connection(first.connection, run),
        ),
{
    lemma_after(Session::init(first).end_of(run), Happening::<C, S>::Take(op, taken));
    law_task_works_on_the_last_connection(first, run);
}

} // verus!
