//! Setting up the connection anew.
//!
//! A reconnect goes through three states, and each is a type that only the one
//! before leads to: it collects how the dispatched operations ended, waits for the
//! new connection, and opens the subscriptions again, one after the other.

use crate::background::{BackgroundTask, Stopped, TaskState};
use crate::channel::SenderState;
use crate::connect::{ws_client, Connect};
use crate::dispatch::{dispatch_call, Forward, Transmit};
use crate::types::{
    record_state, Closed, Op, Response, RetrySubscription, RpcError, SubscribeRequest, SubscriptionState,
};
use vstd::prelude::*;

verus! {

/// A reconnect that still collects how the dispatched operations ended. They all
/// end, because their connection was terminated.
pub struct Reconnect<C> {
    task: BackgroundTask<C>,
    dispatch: Vec<(usize, Op)>,
}

/// A reconnect that waits for the new connection.
pub struct Reconnecting<C> {
    task: BackgroundTask<C>,
    dispatch: Vec<(usize, Op)>,
}

/// A reconnect that opens the subscriptions again.
pub struct Resubscribing<C> {
    task: BackgroundTask<C>,
    todo: Vec<usize>,
}

/// A reconnect that waits for one subscription to be opened again.
pub struct Resubscription<C> {
    task: BackgroundTask<C>,
    todo: Vec<usize>,
    id: usize,
}

/// A reconnect that did not set up a connection yet.
#[verifier::ext_equal]
pub struct ReconnectState<C> {
    pub task: TaskState<C>,
    /// The operations to transmit again, each with its number.
    pub retry: Seq<(usize, Op)>,
}

/// A reconnect over a new connection.
#[verifier::ext_equal]
pub struct ResubscribeState<C> {
    pub task: TaskState<C>,
    /// The subscriptions that are still to be opened again.
    pub todo: Seq<usize>,
}

/// How a reconnect that collects the dispatched operations goes on.
pub enum Drained<C> {
    /// Wait for the next operation to end. `dropped` is the record of a
    /// subscription that is not open any more.
    Wait { reconnect: Reconnect<C>, dropped: Option<RetrySubscription> },
    /// Every dispatched operation ended: set up the new connection.
    Restart(Reconnecting<C>),
}

/// What to do over the new connection.
pub struct ReconnectPlan<C> {
    /// What to transmit again, in this order.
    pub dispatch: Vec<Transmit<C>>,
    /// The subscriptions to open again.
    pub resubscribing: Resubscribing<C>,
}

/// The new connection could not be set up: what is given up with the task.
pub struct ReconnectFailed<C> {
    pub stopped: Stopped<C>,
    pub retry: Vec<(usize, Op)>,
    pub err: RpcError,
}

/// How a reconnect that opens the subscriptions again goes on.
pub enum Resubscribe<C> {
    /// Open this one.
    Subscribe(Resubscription<C>),
    /// Every subscription is open again: wait for the next event.
    Done(BackgroundTask<C>),
}

/// A subscription that was opened again.
pub struct Resubscribed<C, S> {
    /// The reconnect, to go on with.
    pub resubscribing: Resubscribing<C>,
    /// Where its notifications go.
    pub forward: Forward<S>,
}

/// A subscription could not be opened again: what is given up with the task.
pub struct ResubscribeFailed<C> {
    pub stopped: Stopped<C>,
    pub err: RpcError,
}

impl<C> View for Reconnect<C> {
    type V = ReconnectState<C>;

    closed spec fn view(&self) -> ReconnectState<C> {
        ReconnectState { task: self.task@, retry: self.dispatch@ }
    }
}

impl<C> View for Reconnecting<C> {
    type V = ReconnectState<C>;

    closed spec fn view(&self) -> ReconnectState<C> {
        ReconnectState { task: self.task@, retry: self.dispatch@ }
    }
}

impl<C> View for Resubscribing<C> {
    type V = ResubscribeState<C>;

    closed spec fn view(&self) -> ResubscribeState<C> {
        ResubscribeState { task: self.task@, todo: self.todo@ }
    }
}

impl<C> View for Resubscription<C> {
    type V = ResubscribeState<C>;

    /// The reconnect before it took the subscription to open.
    closed spec fn view(&self) -> ResubscribeState<C> {
        ResubscribeState { task: self.task@, todo: self.todo@.push(self.id) }
    }
}

impl<C> ReconnectState<C> {
    /// The reconnect after one more dispatched operation ended: an operation
    /// that was handed back is to be tried again, and a subscription that was
    /// opened is open.
    pub open spec fn drain(self, ended: Response) -> ReconnectState<C> {
        match ended {
            Ok(Some((id, sub))) => ReconnectState { task: self.task.opens(id, sub@), ..self },
            Ok(None) => self,
            Err(closed) => ReconnectState { retry: self.retry.push((closed.id, closed.op)), ..self },
        }
    }

    /// The subscription that is not open any more after one more dispatched
    /// operation ended.
    pub open spec fn dropped_by(self, ended: Response) -> Option<SubscriptionState> {
        match ended {
            Ok(Some((id, _))) => self.task.lookup(id),
            _ => None,
        }
    }
}

impl<C> ResubscribeState<C> {
    /// What is still to be opened again is open, and each is there once.
    pub open spec fn wf(self) -> bool {
        &&& self.todo.no_duplicates()
        &&& forall|i: int|
            0 <= i < self.todo.len() ==> self.task.open.contains_key(#[trigger] self.todo[i])
    }

    /// The subscription that is opened again next.
    pub open spec fn next_id(self) -> usize {
        self.todo.last()
    }

    /// The reconnect after the next subscription was opened again: one more
    /// handle was made from its record's sender, and nothing was sent through it.
    pub open spec fn resubscribe(self) -> ResubscribeState<C> {
        let id = self.next_id();
        ResubscribeState {
            task: self.task.opens(id, self.task.open[id].share()),
            todo: self.todo.drop_last(),
        }
    }
}

/// `dispatch` transmits every operation of `retry`, in order, under its own number
/// and over `connection`, and nothing else.
pub open spec fn transmits_all<C: Clone>(
    dispatch: Seq<Transmit<C>>,
    retry: Seq<(usize, Op)>,
    connection: C,
) -> bool {
    &&& dispatch.len() == retry.len()
    &&& forall|i: int|
        0 <= i < retry.len() ==> (#[trigger] dispatch[i]).transmits(retry[i].1, retry[i].0, connection)
}

impl<C: Clone> ReconnectPlan<C> {
    /// The plan is for a reconnect that stood at `reconnect` and got
    /// `connection`: it transmits every operation that waited over it, the task
    /// goes on with it, and every open subscription is opened again.
    pub open spec fn plans(self, reconnect: ReconnectState<C>, connection: C) -> bool {
        &&& transmits_all(self.dispatch@, reconnect.retry, connection)
        &&& self.resubscribing@.task == reconnect.task.connects(connection)
        &&& self.resubscribing@.todo.no_duplicates()
        &&& self.resubscribing@.todo.to_set() == reconnect.task.open.dom()
    }
}

impl<C> Reconnect<C> {
    /// Starts a reconnect of `task` after which the operations in `dispatch` are
    /// tried again.
    pub(crate) fn new(task: BackgroundTask<C>, dispatch: Vec<(usize, Op)>) -> (r: Self)
        ensures
            r@ == (ReconnectState { task: task@, retry: dispatch@ }),
    {
        Reconnect { task, dispatch }
    }

    /// Takes how a dispatched operation ended, or none because all of them ended:
    /// then the reconnect is counted and goes on to the new connection.
    pub fn drained(self, ended: Option<Response>) -> (r: Drained<C>)
        ensures
            match ended {
                Some(ended) => {
                    &&& r matches Drained::Wait { reconnect, dropped }
                    &&& reconnect@ == self@.drain(ended)
                    &&& record_state(dropped) == self@.dropped_by(ended)
                },
                None => {
                    &&& r matches Drained::Restart(reconnecting)
                    &&& reconnecting@ == (ReconnectState { task: self@.task.restarts(), ..self@ })
                },
            },
    {
        let mut task = self.task;
        let mut dispatch = self.dispatch;
        match ended {
            Some(Ok(Some((id, sub)))) => {
                let dropped = task.insert(id, sub);
                Drained::Wait { reconnect: Reconnect { task, dispatch }, dropped }
            },
            Some(Ok(None)) => Drained::Wait {
                reconnect: Reconnect { task, dispatch },
                dropped: None,
            },
            Some(Err(Closed { op, id })) => {
                dispatch.push((id, op));
                Drained::Wait { reconnect: Reconnect { task, dispatch }, dropped: None }
            },
            None => {
                task.count_restart();
                Drained::Restart(Reconnecting { task, dispatch })
            },
        }
    }
}

impl<C> Reconnecting<C> {
    /// The connection to set up: to where the first one led, with the same pings.
    pub fn connect(&self) -> (r: Connect<'_>)
        ensures
            r.url@ == self@.task.url,
            r.ping_interval == self@.task.ping_config.interval(),
    {
        ws_client(self.task.url(), self.task.ping_config())
    }
}

impl<C: Clone> Reconnecting<C> {
    /// Takes whether the new connection was set up. If it was, every operation
    /// that was handed back is transmitted again and every open subscription is
    /// opened again, over the new connection.
    pub fn reconnect(self, connected: Result<C, RpcError>) -> (r: Result<
        ReconnectPlan<C>,
        ReconnectFailed<C>,
    >)
        ensures
            match connected {
                Ok(connection) => r matches Ok(plan) && plan.plans(self@, connection),
                Err(err) => {
                    &&& r matches Err(failed)
                    &&& failed.stopped@ == self@.task
                    &&& failed.retry@ == self@.retry
                    &&& failed.err == err
                },
            },
    {
        match connected {
            Ok(connection) => {
                let mut task = self.task;
                let dispatch = redispatch(&connection, self.dispatch);
                let todo = task.subscription_ids();
                task.connect(connection);
                proof {
                    assert forall|i: int| 0 <= i < todo@.len() implies task@.open.contains_key(
                        #[trigger] todo@[i],
                    ) by {
                        assert(todo@.to_set().contains(todo@[i]));
                    }
                }
                Ok(ReconnectPlan { dispatch, resubscribing: Resubscribing { task, todo } })
            },
            Err(err) => Err(ReconnectFailed { stopped: self.task.stop(), retry: self.dispatch, err }),
        }
    }
}

/// Dispatches every operation of `retry` again, in order, under its own number and
/// over `connection`.
fn redispatch<C: Clone>(connection: &C, retry: Vec<(usize, Op)>) -> (r: Vec<Transmit<C>>)
    ensures
        transmits_all(r@, retry@, *connection),
{
    let mut r: Vec<Transmit<C>> = Vec::new();
    for (id, op) in it: retry
        invariant
            it.seq() == retry@,
            r@.len() == it.index(),
            forall|i: int|
                0 <= i < r@.len() ==> (#[trigger] r@[i]).transmits(retry@[i].1, retry@[i].0, *connection),
    {
        r.push(dispatch_call(connection, op, id));
    }
    r
}

impl<C> Resubscribing<C> {
    #[verifier::type_invariant]
    spec fn inv(self) -> bool {
        self@.wf()
    }

    /// The next subscription to open again, or the end of the reconnect, with
    /// which the event that started it takes its number.
    pub fn next(self) -> (r: Resubscribe<C>)
        ensures
            if self@.todo.len() > 0 {
                r matches Resubscribe::Subscribe(sub) && sub@ == self@
            } else {
                r matches Resubscribe::Done(task) && task@ == self@.task.next_number()
            },
    {
        proof {
            use_type_invariant(&self);
        }
        let mut task = self.task;
        let mut todo = self.todo;
        match todo.pop() {
            Some(id) => {
                assert(todo@.push(id) =~= self.todo@);
                Resubscribe::Subscribe(Resubscription { task, todo, id })
            },
            None => {
                task.take_number();
                Resubscribe::Done(task)
            },
        }
    }
}

impl<C> Resubscription<C> {
    #[verifier::type_invariant]
    spec fn inv(self) -> bool {
        self@.wf()
    }

    /// The number of the subscription.
    pub fn id(&self) -> (r: usize)
        ensures
            r == self@.next_id(),
    {
        self.id
    }

    /// The connection to open the subscription on.
    pub fn connection(&self) -> (r: &C)
        ensures
            *r == self@.task.connection,
    {
        self.task.connection()
    }

    /// What to put on the wire to open the subscription again.
    pub fn request(&self) -> (r: SubscribeRequest<'_>)
        ensures
            ({
                let sub = self@.task.open[self@.next_id()];
                &&& self@.task.open.contains_key(self@.next_id())
                &&& r.subscribe_method@ == sub.subscribe_method@
                &&& r.params == sub.params
                &&& r.unsubscribe_method@ == sub.unsubscribe_method@
            }),
    {
        proof {
            use_type_invariant(self);
            assert(self@.todo[self@.todo.len() - 1] == self.id);
        }
        self.task.record(self.id).unwrap().request()
    }

    /// Takes whether the subscription was opened again. If it was, its
    /// notifications go where they went before; if not, the reconnect failed.
    pub fn resubscribed<S>(self, reply: Result<S, RpcError>) -> (r: Result<
        Resubscribed<C, S>,
        ResubscribeFailed<C>,
    >)
        ensures
            match reply {
                Ok(sub) => {
                    &&& r matches Ok(opened)
                    &&& opened.resubscribing@ == self@.resubscribe()
                    &&& opened.forward.sub == sub
                    &&& opened.forward.id == self@.next_id()
                    &&& opened.forward.tx@ == SenderState::fresh(
                        self@.task.open[self@.next_id()].tx.receiver,
                    )
                },
                Err(err) => {
                    &&& r matches Err(failed)
                    &&& failed.stopped@ == self@.task
                    &&& failed.err == err
                },
            },
    {
        proof {
            use_type_invariant(&self);
            assert(self@.todo[self@.todo.len() - 1] == self.id);
        }
        let ghost before = self@;
        let mut task = self.task;
        match reply {
            Ok(sub) => {
                let id: usize = self.id;
                let mut record = task.remove(id).unwrap();
                let tx = record.tx.share();
                let _ = task.insert(id, record);
                proof {
                    let next = before.resubscribe();
                    assert(task@.open =~= next.task.open);
                    assert(self.todo@ =~= next.todo);
                    assert forall|i: int| 0 <= i < next.todo.len() implies next.task.open.contains_key(
                        #[trigger] next.todo[i],
                    ) by {
                        assert(before.todo[i] == next.todo[i]);
                    }
                    assert forall|i: int, j: int|
                        0 <= i < next.todo.len() && 0 <= j < next.todo.len() && i != j implies
                        next.todo[i] != next.todo[j] by {
                        assert(before.todo[i] != before.todo[j]);
                    }
                }
                let resubscribing = Resubscribing { task, todo: self.todo };
                Ok(Resubscribed { resubscribing, forward: Forward { sub, tx, id } })
            },
            Err(err) => Err(ResubscribeFailed { stopped: task.stop(), err }),
        }
    }
}

} // verus!
