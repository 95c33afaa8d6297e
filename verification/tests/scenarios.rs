use reconnecting_jsonrpsee_ws_client::background::{BackgroundTask, Event, Step};
use reconnecting_jsonrpsee_ws_client::client::reply;
use reconnecting_jsonrpsee_ws_client::dispatch::{Dispatch, Forward, PendingSubscription};
use reconnecting_jsonrpsee_ws_client::reconnect::{Drained, Reconnect, Reconnecting, Resubscribe};
use reconnecting_jsonrpsee_ws_client::subscription::{HandlerStep, Notified, Reports, SubscriptionHandler};
use reconnecting_jsonrpsee_ws_client::{Notification, Op, PingConfig, ReconnectingWsClient, Response, RpcError};
use serde_json::value::RawValue;
use tokio::sync::mpsc::UnboundedReceiver;

fn raw(json: &str) -> Box<RawValue> {
    RawValue::from_string(json.to_string()).unwrap()
}

fn restart_needed() -> RpcError {
    RpcError::RestartNeeded("connection closed".to_string())
}

/// A client, and where its operations arrive.
struct Clients {
    client: ReconnectingWsClient,
    rx: UnboundedReceiver<Op>,
}

fn start() -> (Clients, BackgroundTask<()>) {
    let started =
        ReconnectingWsClient::new("ws://example.com".to_string(), PingConfig::Disabled, Ok(())).ok().unwrap();
    (Clients { client: started.client, rx: started.rx }, started.task)
}

fn next_dispatch(started: &mut Clients, task: BackgroundTask<()>) -> (BackgroundTask<()>, Dispatch) {
    let op = started.rx.try_recv().unwrap();
    match task.background_task(Event::Message(Some(op))) {
        Step::Dispatch(task, transmit) => (task, transmit.dispatch),
        _ => panic!("an operation is dispatched"),
    }
}

fn goes_on(task: BackgroundTask<()>, event: Event) -> BackgroundTask<()> {
    match task.background_task(event) {
        Step::Continue { task, .. } => task,
        _ => panic!("the task goes on"),
    }
}

/// The server answers like the one in the example: a call with "lo", and a
/// subscription by opening it.
fn serve(task: BackgroundTask<()>, dispatch: Dispatch) -> (BackgroundTask<()>, Option<Forward<()>>) {
    let (response, forward) = match dispatch {
        Dispatch::Call(call) => {
            assert_eq!(call.method, "say_hello");
            (call.settle(Ok(raw("\"lo\""))).response, None)
        }
        Dispatch::Subscription(sub) => {
            assert_eq!(sub.subscribe_method, "subscribe_lo");
            assert_eq!(sub.unsubscribe_method, "unsubscribe_lo");
            let settled = sub.settle(Ok(()));
            (settled.response, settled.forward)
        }
    };
    (goes_on(task, Event::Response(Some(response))), forward)
}

/// Subscribes and lets the server open the subscription.
fn subscribe(
    started: &mut Clients,
    task: BackgroundTask<()>,
) -> (BackgroundTask<()>, Forward<()>, UnboundedReceiver<Notification>) {
    let submitted = started
        .client
        .subscribe("subscribe_lo".to_string(), Ok(None), "unsubscribe_lo".to_string())
        .unwrap_or_else(|_| panic!("no parameters"));
    let (task, dispatch) = next_dispatch(started, task);
    let (task, forward) = serve(task, dispatch);
    (task, forward.unwrap(), reply(submitted.reply.unwrap().blocking_recv()).unwrap())
}

fn disconnected(task: BackgroundTask<()>) -> Reconnect<()> {
    match task.background_task(Event::Disconnected) {
        Step::Reconnect(reconnect) => reconnect,
        _ => panic!("a reconnect is due"),
    }
}

fn ends(reconnect: Reconnect<()>, response: Response) -> Reconnect<()> {
    match reconnect.drained(Some(response)) {
        Drained::Wait { reconnect, .. } => reconnect,
        Drained::Restart(_) => panic!("there is more to end"),
    }
}

fn restart(reconnect: Reconnect<()>) -> Reconnecting<()> {
    match reconnect.drained(None) {
        Drained::Restart(reconnecting) => reconnecting,
        Drained::Wait { .. } => panic!("nothing is left to end"),
    }
}

/// Connects and opens every subscription again.
fn connect(reconnecting: Reconnecting<()>) -> (BackgroundTask<()>, Vec<Dispatch>, Vec<Forward<()>>) {
    let plan = reconnecting.reconnect(Ok(())).ok().unwrap();
    let mut resubscribing = plan.resubscribing;
    let mut forwards = vec![];
    loop {
        match resubscribing.next() {
            Resubscribe::Done(task) => {
                let dispatch = plan.dispatch.into_iter().map(|transmit| transmit.dispatch).collect();
                return (task, dispatch, forwards);
            }
            Resubscribe::Subscribe(sub) => {
                assert_eq!(sub.request().subscribe_method, "subscribe_lo");
                let opened = sub.resubscribed(Ok(())).ok().unwrap();
                forwards.push(opened.forward);
                resubscribing = opened.resubscribing;
            }
        }
    }
}

#[test]
fn call_works() {
    let (mut started, task) = start();
    let submitted = started.client.request("say_hello".to_string(), Ok(None)).unwrap_or_else(|_| panic!("no parameters"));
    let (task, dispatch) = next_dispatch(&mut started, task);
    assert!(serve(task, dispatch).1.is_none());
    assert!(reply(submitted.reply.unwrap().blocking_recv()).is_ok());
}

#[test]
fn sub_works() {
    let (mut started, task) = start();
    let (_task, forward, mut sub) = subscribe(&mut started, task);
    let (mut reports, _closed) = Reports::new();
    let mut handler = SubscriptionHandler::new(forward.tx, reports.share(), forward.id);
    assert!(matches!(handler.handle(Notified::Next(Some(Ok(raw("0"))))), HandlerStep::Continue));
    assert!(sub.blocking_recv().is_some());
}

#[test]
fn reconn_sub_works() {
    let (mut started, task) = start();
    let (task, forward, mut sub) = subscribe(&mut started, task);
    let (mut reports, mut closed) = Reports::new();
    let before = SubscriptionHandler::new(forward.tx, reports.share(), forward.id);

    // The server stops and is started again.
    let reconnect = disconnected(task);
    let reconnecting = restart(reconnect);
    let (task, dispatch, mut forwards) = connect(reconnecting);
    assert!(dispatch.is_empty());
    assert_eq!(forwards.len(), 1);
    let forward = forwards.remove(0);
    assert_eq!(forward.id, 0);

    // The connection took the old subscription with it.
    let _ = before.finish(false, true);
    assert!(closed.try_recv().is_err());
    assert_eq!(task.open_subscriptions().len(), 1);

    // The subscription keeps running when the connection is established again.
    let mut after = SubscriptionHandler::new(forward.tx, reports.share(), forward.id);
    for _ in 0..10 {
        assert!(matches!(after.handle(Notified::Next(Some(Ok(raw("0"))))), HandlerStep::Continue));
        assert!(sub.blocking_recv().is_some());
    }

    assert_eq!(started.client.retry_count(), 1);
}

#[test]
fn a_stream_that_ends_before_the_reconnect_is_counted_is_kept() {
    let (mut started, task) = start();
    let (task, forward, mut sub) = subscribe(&mut started, task);
    let (mut reports, mut closed) = Reports::new();
    let mut before = SubscriptionHandler::new(forward.tx, reports.share(), forward.id);

    // The connection goes down: the handler is the first to see it, when the task
    // still waits and no reconnect is counted.
    assert_eq!(started.client.retry_count(), 0);
    let sub_dropped = match before.handle(Notified::Next(None)) {
        HandlerStep::Done { sub_dropped } => sub_dropped,
        HandlerStep::Continue => panic!("the subscription ended"),
    };
    let _ = before.finish(sub_dropped, true);
    assert!(closed.try_recv().is_err());

    let reconnect = disconnected(task);
    let reconnecting = restart(reconnect);
    let (task, _, mut forwards) = connect(reconnecting);
    assert_eq!(task.open_subscriptions().len(), 1);
    let forward = forwards.remove(0);
    let mut after = SubscriptionHandler::new(forward.tx, reports.share(), forward.id);
    assert!(matches!(after.handle(Notified::Next(Some(Ok(raw("0"))))), HandlerStep::Continue));
    assert!(sub.blocking_recv().is_some());
}

#[test]
fn a_stream_that_ends_on_a_connection_that_stays_is_not_opened_again() {
    let (mut started, task) = start();
    let (task, forward, mut sub) = subscribe(&mut started, task);
    let (mut reports, mut closed) = Reports::new();
    let handler = SubscriptionHandler::new(forward.tx, reports.share(), forward.id);
    let _ = handler.finish(false, false);
    let task = goes_on(task, Event::SubscriptionClosed(Some(closed.try_recv().unwrap())));
    assert!(sub.blocking_recv().is_none());
    let reconnect = disconnected(task);
    let reconnecting = restart(reconnect);
    assert!(connect(reconnecting).2.is_empty());
}

#[test]
fn reconn_calls_works() {
    let (mut started, task) = start();
    let submitted = started.client.request("say_hello".to_string(), Ok(None)).unwrap_or_else(|_| panic!("no parameters"));
    let mut rx = submitted.reply.unwrap();

    // The call is not replied and is still pending.
    let (task, call) = match next_dispatch(&mut started, task) {
        (task, Dispatch::Call(call)) => (task, call),
        (_, Dispatch::Subscription(_)) => panic!("a request is a call"),
    };
    assert!(rx.try_recv().is_err());

    // The server stops.
    let reconnect = disconnected(task);
    let reconnect = ends(reconnect, call.settle(Err(restart_needed())).response);
    assert!(rx.try_recv().is_err());

    // The server is started again and the call completes.
    let reconnecting = restart(reconnect);
    let (mut task, dispatch, _) = connect(reconnecting);
    assert_eq!(dispatch.len(), 1);
    for dispatch in dispatch {
        let (next, forward) = serve(task, dispatch);
        assert!(forward.is_none());
        task = next;
    }

    assert!(reply(rx.blocking_recv()).is_ok());
}

#[test]
fn subscriptions_outlive_two_reconnects_until_they_are_closed() {
    let (mut started, task) = start();
    let (task, _, mut first) = subscribe(&mut started, task);
    let (task, _, mut second) = subscribe(&mut started, task);
    let mut task = task;
    let mut forwards = vec![];
    for _ in 0..2 {
        let reconnect = disconnected(task);
        let reconnecting = restart(reconnect);
        let (next, dispatch, again) = connect(reconnecting);
        assert!(dispatch.is_empty());
        let mut ids: Vec<usize> = again.iter().map(|forward| forward.id).collect();
        ids.sort();
        assert_eq!(ids, vec![0, 2]);
        task = next;
        forwards = again;
    }
    assert_eq!(started.client.retry_count(), 2);

    let forward = forwards.iter().find(|forward| forward.id == 2).unwrap();
    forward.tx.raw().send(Ok(raw("0"))).unwrap();
    assert!(first.try_recv().is_err());
    assert!(second.try_recv().is_ok());

    let task = goes_on(task, Event::SubscriptionClosed(Some(2)));
    let reconnect = disconnected(task);
    let reconnecting = restart(reconnect);
    let (_, _, again) = connect(reconnecting);
    assert_eq!(again.len(), 1);
    assert_eq!(again[0].id, 0);
}

#[test]
fn a_subscription_that_opens_as_the_connection_goes_down_keeps_running() {
    let (mut started, task) = start();
    let submitted = started
        .client
        .subscribe("subscribe_lo".to_string(), Ok(None), "unsubscribe_lo".to_string())
        .unwrap_or_else(|_| panic!("no parameters"));
    let (task, pending): (BackgroundTask<()>, PendingSubscription) = match next_dispatch(&mut started, task) {
        (task, Dispatch::Subscription(sub)) => (task, sub),
        (_, Dispatch::Call(_)) => panic!("a subscription is no call"),
    };
    let reconnect = disconnected(task);
    let settled = pending.settle(Ok(()));
    let mut sub = reply(submitted.reply.unwrap().blocking_recv()).unwrap();
    let reconnect = ends(reconnect, settled.response);
    let reconnecting = restart(reconnect);
    let (task, _, mut forwards) = connect(reconnecting);
    assert_eq!(task.open_subscriptions().len(), 1);
    let forward = forwards.remove(0);
    assert_eq!(forward.id, 0);
    forward.tx.raw().send(Ok(raw("0"))).unwrap();
    assert_eq!(sub.try_recv().unwrap().unwrap().get(), "0");
}

#[test]
fn a_receiver_ends_with_the_task() {
    let (mut started, task) = start();
    let (task, forward, mut sub) = subscribe(&mut started, task);
    let (mut reports, closed) = Reports::new();
    let mut handler = SubscriptionHandler::new(forward.tx, reports.share(), forward.id);
    match task.background_task(Event::Message(None)) {
        Step::Stop(stopped) => drop(stopped),
        _ => panic!("no client is left"),
    }
    drop(closed);
    assert!(handler.sub_closed.raw().is_closed());
    assert!(matches!(handler.handle(Notified::TaskGone), HandlerStep::Done { sub_dropped: true }));
    drop(handler.finish(true, false));
    assert!(sub.blocking_recv().is_none());
}

#[test]
fn every_operation_is_answered_once() {
    let (mut started, mut task) = start();
    let mut replies = vec![];
    let mut dispatched = vec![];
    for _ in 0..3 {
        let submitted = started.client.request("say_hello".to_string(), Ok(None)).unwrap_or_else(|_| panic!("no parameters"));
        replies.push(submitted.reply.unwrap());
        match next_dispatch(&mut started, task) {
            (next, Dispatch::Call(call)) => {
                dispatched.push(call);
                task = next;
            }
            (_, Dispatch::Subscription(_)) => panic!("a request is a call"),
        }
    }

    // The first is answered, the second learns that the connection is gone, and
    // so does the third while the task reconnects.
    let mut calls = dispatched.into_iter();
    let (task, _) = serve(task, Dispatch::Call(calls.next().unwrap()));
    let response = calls.next().unwrap().settle(Err(restart_needed())).response;
    let reconnect = match task.background_task(Event::Response(Some(response))) {
        Step::Reconnect(reconnect) => reconnect,
        _ => panic!("a reconnect is due"),
    };
    let response = calls.next().unwrap().settle(Err(restart_needed())).response;
    let reconnect = ends(reconnect, response);
    let reconnecting = restart(reconnect);
    let (mut task, dispatch, _) = connect(reconnecting);

    let mut numbers = vec![];
    for dispatch in dispatch {
        match dispatch {
            Dispatch::Call(call) => {
                numbers.push(call.id);
                task = serve(task, Dispatch::Call(call)).0;
            }
            Dispatch::Subscription(_) => panic!("a call stays a call"),
        }
    }
    assert_eq!(numbers, vec![1, 2]);
    for rx in replies {
        assert_eq!(reply(rx.blocking_recv()).unwrap().get(), "\"lo\"");
    }
}
