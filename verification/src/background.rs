//! The background task: it dispatches what the clients ask for, keeps track of
//! the open subscriptions and reconnects.
//!
//! The task holds the connection that it works on, and what it takes to set up a
//! new one to the same place. It is a value that every step uses up and gives back in the state that
//! it is in: as it waits for the next event, or inside a reconnect. What is not
//! given back cannot happen.

use crate::connect::PingConfig;
use crate::counter::{wrapping_succ, CounterState, ReconnectCounter};
use crate::dispatch::{dispatch_call, Transmit};
use crate::reconnect::{Reconnect, ReconnectState};
use crate::types::{record_state, Closed, Op, Response, RetrySubscription, SubscriptionState};
use std::collections::HashMap;
use vstd::prelude::*;

verus! {

/// What the background task sees while it waits.
pub enum Event {
    /// The next operation from a client, or none because every client is gone.
    Message(Option<Op>),
    /// A dispatched operation ended. None where nothing was dispatched.
    Response(Option<Response>),
    /// The connection was terminated.
    Disconnected,
    /// A subscription ended. None where nobody can tell any more.
    SubscriptionClosed(Option<usize>),
}

/// How the background task goes on.
pub enum Step<C> {
    /// Wait for the next event. `dropped` is the record of a subscription that
    /// is not open any more.
    Continue { task: BackgroundTask<C>, dropped: Option<RetrySubscription> },
    /// Transmit this and wait for the next event.
    Dispatch(BackgroundTask<C>, Transmit<C>),
    /// Reconnect. The task comes back with the end of the reconnect.
    Reconnect(Reconnect<C>),
    /// Terminate the connection and end.
    Stop(Stopped<C>),
}

/// A task that ended. Nothing can be asked of it any more.
pub struct Stopped<C> {
    task: BackgroundTask<C>,
}

/// The state of the background task.
pub struct BackgroundTask<C> {
    connection: C,
    url: String,
    ping_config: PingConfig,
    reconnect_cnt: ReconnectCounter,
    open_subscriptions: HashMap<usize, RetrySubscription>,
    id: usize,
}

/// What the background task knows.
#[verifier::ext_equal]
pub struct TaskState<C> {
    /// The connection that operations go over.
    pub connection: C,
    /// Where every connection leads.
    pub url: Seq<char>,
    /// The pings of every connection.
    pub ping_config: PingConfig,
    /// The task's handle on the count of reconnects.
    pub reconnect_cnt: CounterState,
    /// The open subscriptions, each under the number of its operation.
    pub open: Map<usize, SubscriptionState>,
    /// The number of the next operation.
    pub id: usize,
}

/// The records of `subscriptions` as they stand.
pub open spec fn open_states(subscriptions: Map<usize, RetrySubscription>) -> Map<
    usize,
    SubscriptionState,
> {
    subscriptions.map_values(|sub: RetrySubscription| sub@)
}

impl<C> TaskState<C> {
    /// No subscription is open, nothing was dispatched and no reconnect counted.
    pub open spec fn is_new(self) -> bool {
        &&& self.open == Map::<usize, SubscriptionState>::empty()
        &&& self.id == 0
        &&& self.reconnect_cnt.counted == 0
    }

    /// The subscription `id`, if it is open.
    pub open spec fn lookup(self, id: usize) -> Option<SubscriptionState> {
        if self.open.contains_key(id) {
            Some(self.open[id])
        } else {
            None
        }
    }

    /// The state after the subscription `id` was opened.
    pub open spec fn opens(self, id: usize, sub: SubscriptionState) -> Self {
        TaskState { open: self.open.insert(id, sub), ..self }
    }

    /// The state after the next number was taken.
    pub open spec fn next_number(self) -> Self {
        TaskState { id: wrapping_succ(self.id), ..self }
    }

    /// The task ends with this event: no client is left, or nobody can report
    /// the end of a subscription.
    pub open spec fn stops(event: Event) -> bool {
        match event {
            Event::Message(None) => true,
            Event::SubscriptionClosed(None) => true,
            _ => false,
        }
    }

    /// A reconnect is needed because of this event.
    pub open spec fn reconnects(event: Event) -> bool {
        match event {
            Event::Response(Some(Err(_))) => true,
            Event::Disconnected => true,
            _ => false,
        }
    }

    /// The operations, each with its number, that are known to need another try
    /// when a reconnect starts because of this event.
    pub open spec fn to_retry(event: Event) -> Seq<(usize, Op)> {
        match event {
            Event::Response(Some(Err(closed))) => seq![(closed.id, closed.op)],
            _ => Seq::empty(),
        }
    }

    /// The open subscriptions after an event.
    pub open spec fn open_after(self, event: Event) -> Map<usize, SubscriptionState> {
        match event {
            Event::Response(Some(Ok(Some((id, sub))))) => self.open.insert(id, sub@),
            Event::SubscriptionClosed(Some(id)) => self.open.remove(id),
            _ => self.open,
        }
    }

    /// The subscription that is not open any more after an event.
    pub open spec fn dropped_by(self, event: Event) -> Option<SubscriptionState> {
        match event {
            Event::Response(Some(Ok(Some((id, _))))) => self.lookup(id),
            Event::SubscriptionClosed(Some(id)) => self.lookup(id),
            _ => None,
        }
    }

    /// The state after an event that neither ends the task nor starts a
    /// reconnect. Every such event takes a number.
    pub open spec fn after(self, event: Event) -> Self {
        TaskState { open: self.open_after(event), id: wrapping_succ(self.id), ..self }
    }

    /// The state after a reconnect was counted.
    pub open spec fn restarts(self) -> Self {
        TaskState { reconnect_cnt: self.reconnect_cnt.plus(1), ..self }
    }

    /// The state with a new connection.
    pub open spec fn connects(self, connection: C) -> Self {
        TaskState { connection, ..self }
    }
}

impl<C: Clone> TaskState<C> {
    /// `step` is how the task goes on after an event.
    pub open spec fn goes_on(self, event: Event, step: Step<C>) -> bool {
        if Self::stops(event) {
            step matches Step::Stop(stopped) && stopped@ == self
        } else if Self::reconnects(event) {
            &&& step matches Step::Reconnect(reconnect)
            &&& reconnect@ == (ReconnectState { task: self, retry: Self::to_retry(event) })
        } else {
            match event {
                Event::Message(Some(op)) => {
                    &&& step matches Step::Dispatch(task, transmit)
                    &&& task@ == self.after(event)
                    &&& transmit.transmits(op, self.id, self.connection)
                },
                _ => {
                    &&& step matches Step::Continue { task, dropped }
                    &&& task@ == self.after(event)
                    &&& record_state(dropped) == self.dropped_by(event)
                },
            }
        }
    }
}

impl<C> View for BackgroundTask<C> {
    type V = TaskState<C>;

    closed spec fn view(&self) -> TaskState<C> {
        TaskState {
            connection: self.connection,
            url: self.url@,
            ping_config: self.ping_config,
            reconnect_cnt: self.reconnect_cnt@,
            open: open_states(self.open_subscriptions@),
            id: self.id,
        }
    }
}

impl<C> View for Stopped<C> {
    type V = TaskState<C>;

    closed spec fn view(&self) -> TaskState<C> {
        self.task@
    }
}

impl<C> BackgroundTask<C> {
    /// A task that has seen nothing yet, with its first connection, what it takes
    /// to set up another one, and the count of reconnects.
    pub(crate) fn new(
        connection: C,
        url: String,
        ping_config: PingConfig,
        reconnect_cnt: ReconnectCounter,
    ) -> (r: Self)
        ensures
            r@ == (TaskState {
                connection,
                url: url@,
                ping_config,
                reconnect_cnt: reconnect_cnt@,
                open: Map::empty(),
                id: 0,
            }),
    {
        let r = BackgroundTask {
            connection,
            url,
            ping_config,
            reconnect_cnt,
            open_subscriptions: HashMap::new(),
            id: 0,
        };
        assert(r@.open =~= Map::empty());
        r
    }

    /// The connection that operations go over.
    pub fn connection(&self) -> (r: &C)
        ensures
            *r == self@.connection,
    {
        &self.connection
    }

    /// Where every connection leads.
    pub(crate) fn url(&self) -> (r: &str)
        ensures
            r@ == self@.url,
    {
        self.url.as_str()
    }

    /// The pings of every connection.
    pub(crate) fn ping_config(&self) -> (r: PingConfig)
        ensures
            r == self@.ping_config,
    {
        self.ping_config
    }

    /// Counts a reconnect.
    pub(crate) fn count_restart(&mut self)
        ensures
            final(self)@ == old(self)@.restarts(),
    {
        self.reconnect_cnt.inc();
    }

    /// Takes a new connection for the one that there was.
    pub(crate) fn connect(&mut self, connection: C)
        ensures
            final(self)@ == old(self)@.connects(connection),
    {
        self.connection = connection;
    }

    /// The open subscriptions, each under the number of its operation.
    pub fn open_subscriptions(&self) -> (r: &HashMap<usize, RetrySubscription>)
        ensures
            open_states(r@) == self@.open,
    {
        &self.open_subscriptions
    }

    /// Keeps the record of the subscription `id`, and gives up the one that was
    /// there.
    pub(crate) fn insert(&mut self, id: usize, sub: RetrySubscription) -> (r: Option<
        RetrySubscription,
    >)
        ensures
            final(self)@ == old(self)@.opens(id, sub@),
            record_state(r) == old(self)@.lookup(id),
    {
        broadcast use vstd::std_specs::hash::group_hash_axioms;

        let r = self.open_subscriptions.insert(id, sub);
        assert(self@.open =~= old(self)@.open.insert(id, sub@));
        r
    }

    /// Gives up the record of the subscription `id`.
    pub(crate) fn remove(&mut self, id: usize) -> (r: Option<RetrySubscription>)
        ensures
            final(self)@ == (TaskState { open: old(self)@.open.remove(id), ..old(self)@ }),
            record_state(r) == old(self)@.lookup(id),
    {
        broadcast use vstd::std_specs::hash::group_hash_axioms;

        let r = self.open_subscriptions.remove(&id);
        assert(self@.open =~= old(self)@.open.remove(id));
        r
    }

    /// The record of the subscription `id`.
    pub(crate) fn record(&self, id: usize) -> (r: Option<&RetrySubscription>)
        ensures
            r is Some <==> self@.open.contains_key(id),
            r matches Some(sub) ==> sub@ == self@.open[id],
    {
        broadcast use vstd::std_specs::hash::group_hash_axioms;

        self.open_subscriptions.get(&id)
    }

    /// Takes the next number.
    pub(crate) fn take_number(&mut self) -> (r: usize)
        ensures
            r == old(self)@.id,
            final(self)@ == old(self)@.next_number(),
    {
        let r: usize = self.id;
        self.id = r.wrapping_add(1);
        r
    }

    /// The numbers of the open subscriptions, each once.
    pub(crate) fn subscription_ids(&self) -> (r: Vec<usize>)
        ensures
            r@.no_duplicates(),
            r@.to_set() == self@.open.dom(),
    {
        broadcast use vstd::std_specs::hash::group_hash_axioms;

        let keys = self.open_subscriptions.keys();
        let ghost ids = vstd::std_specs::iter::IteratorSpec::remaining(&keys);
        let mut r: Vec<usize> = Vec::new();
        for id in it: keys
            invariant
                it.seq() == ids,
                r@ == ids.unref().take(it.index() as int),
        {
            r.push(*id);
        }
        assert(ids.unref().take(ids.len() as int) =~= ids.unref());
        assert(self@.open.dom() =~= self.open_subscriptions@.dom());
        r
    }

    /// Ends the task.
    pub(crate) fn stop(self) -> (r: Stopped<C>)
        ensures
            r@ == self@,
    {
        Stopped { task: self }
    }

}

impl<C: Clone> BackgroundTask<C> {
    /// Takes one event.
    pub fn background_task(self, event: Event) -> (r: Step<C>)
        ensures
            self@.goes_on(event, r),
    {
        let ghost seen = event;
        let mut task = self;
        match event {
            Event::Message(None) => Step::Stop(task.stop()),
            Event::Message(Some(op)) => {
                let id: usize = task.take_number();
                let transmit = dispatch_call(&task.connection, op, id);
                Step::Dispatch(task, transmit)
            },
            Event::Response(Some(Ok(Some((id, sub))))) => {
                let dropped = task.insert(id, sub);
                task.take_number();
                Step::Continue { task, dropped }
            },
            Event::Response(Some(Err(Closed { op, id }))) => {
                let dispatch = vec![(id, op)];
                assert(dispatch@ =~= TaskState::<C>::to_retry(seen));
                Step::Reconnect(Reconnect::new(task, dispatch))
            },
            Event::Response(_) => {
                task.take_number();
                Step::Continue { task, dropped: None }
            },
            Event::Disconnected => Step::Reconnect(Reconnect::new(task, vec![])),
            Event::SubscriptionClosed(None) => Step::Stop(task.stop()),
            Event::SubscriptionClosed(Some(id)) => {
                let dropped = task.remove(id);
                task.take_number();
                Step::Continue { task, dropped }
            },
        }
    }
}

} // verus!
