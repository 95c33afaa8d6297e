use reconnecting_jsonrpsee_ws_client::background::{BackgroundTask, Event, Step};
use reconnecting_jsonrpsee_ws_client::dispatch::{dispatch_call, Dispatch, Forward, Transmit};
use reconnecting_jsonrpsee_ws_client::reconnect::{Drained, Reconnect, ReconnectPlan, Reconnecting, Resubscribe};
use reconnecting_jsonrpsee_ws_client::{
    Closed, Notification, Op, PingConfig, ReconnectingWsClient, Response, RetrySubscription, RpcError, RpcParams,
};
use serde_json::value::RawValue;
use tokio::sync::mpsc::UnboundedReceiver;
use std::time::Duration;
use tokio::sync::oneshot;

fn call(method: &str) -> Op {
    let (send_back, _rx) = oneshot::channel();
    Op::Call { method: method.to_string(), params: RpcParams(None), send_back }
}

fn subscription(method: &str) -> (RetrySubscription, UnboundedReceiver<Notification>) {
    let (send_back, mut answer) = oneshot::channel();
    let op = Op::Subscription {
        subscribe_method: method.to_string(),
        params: RpcParams(Some(RawValue::from_string("[7]".to_string()).unwrap())),
        unsubscribe_method: "unsubscribe_lo".to_string(),
        send_back,
    };
    match dispatch_call(&(), op, 0).dispatch {
        Dispatch::Subscription(sub) => {
            let record = sub.settle(Ok(())).response.ok().unwrap().unwrap().1;
            (record, answer.try_recv().unwrap().unwrap())
        }
        Dispatch::Call(_) => panic!("a subscription is no call"),
    }
}

fn new_task() -> BackgroundTask<&'static str> {
    let ping = PingConfig::Enabled(Duration::from_secs(6));
    ReconnectingWsClient::new("ws://example.com".to_string(), ping, Ok("first")).ok().unwrap().task
}

fn name(transmit: Transmit<&'static str>) -> (usize, String) {
    match transmit.dispatch {
        Dispatch::Call(call) => (call.id, call.method),
        Dispatch::Subscription(_) => panic!("a call is dispatched"),
    }
}

fn dispatched(task: BackgroundTask<&'static str>, op: Op) -> (BackgroundTask<&'static str>, (usize, String)) {
    match task.background_task(Event::Message(Some(op))) {
        Step::Dispatch(task, transmit) => (task, name(transmit)),
        _ => panic!("a call is dispatched"),
    }
}

fn goes_on(task: BackgroundTask<&'static str>, event: Event) -> (BackgroundTask<&'static str>, Option<RetrySubscription>) {
    match task.background_task(event) {
        Step::Continue { task, dropped } => (task, dropped),
        _ => panic!("the task goes on"),
    }
}

fn open(task: BackgroundTask<&'static str>, id: usize, sub: RetrySubscription) -> BackgroundTask<&'static str> {
    goes_on(task, Event::Response(Some(Ok(Some((id, sub)))))).0
}

fn reconnects(task: BackgroundTask<&'static str>, event: Event) -> Reconnect<&'static str> {
    match task.background_task(event) {
        Step::Reconnect(reconnect) => reconnect,
        _ => panic!("a reconnect is due"),
    }
}

/// Lets `ended` end, and then there is nothing left to end.
fn drain(reconnect: Reconnect<&'static str>, ended: Vec<Response>) -> Reconnecting<&'static str> {
    let mut reconnect = reconnect;
    for response in ended {
        reconnect = match reconnect.drained(Some(response)) {
            Drained::Wait { reconnect, .. } => reconnect,
            Drained::Restart(_) => panic!("there is more to end"),
        };
    }
    match reconnect.drained(None) {
        Drained::Restart(reconnecting) => reconnecting,
        Drained::Wait { .. } => panic!("nothing is left to end"),
    }
}

fn plan(reconnect: Reconnect<&'static str>, ended: Vec<Response>) -> ReconnectPlan<&'static str> {
    drain(reconnect, ended).reconnect(Ok("second")).ok().unwrap()
}

fn numbers(dispatch: Vec<Transmit<&'static str>>) -> Vec<(usize, String)> {
    dispatch.into_iter().map(name).collect()
}

/// Opens every subscription of the plan again.
fn resubscribe(plan: ReconnectPlan<&'static str>) -> (BackgroundTask<&'static str>, Vec<Forward<usize>>) {
    let mut resubscribing = plan.resubscribing;
    let mut forwards = vec![];
    loop {
        match resubscribing.next() {
            Resubscribe::Done(task) => return (task, forwards),
            Resubscribe::Subscribe(sub) => {
                let id = sub.id();
                let opened = sub.resubscribed(Ok(id)).ok().unwrap();
                forwards.push(opened.forward);
                resubscribing = opened.resubscribing;
            }
        }
    }
}

fn closed(method: &str, id: usize) -> Response {
    Err(Closed { op: call(method), id })
}

#[test]
fn every_event_takes_a_number() {
    let task = new_task();
    let (task, first) = dispatched(task, call("a"));
    assert_eq!(first, (0, "a".to_string()));
    let (task, second) = dispatched(task, call("b"));
    assert_eq!(second, (1, "b".to_string()));
    let (task, _) = goes_on(task, Event::Response(Some(Ok(None))));
    let (task, _) = goes_on(task, Event::Response(None));
    let (task, _) = goes_on(task, Event::SubscriptionClosed(Some(9)));
    let (task, third) = dispatched(task, call("c"));
    assert_eq!(third, (5, "c".to_string()));
    let (task, _) = resubscribe(plan(reconnects(task, Event::Disconnected), vec![]));
    let (_, fourth) = dispatched(task, call("d"));
    assert_eq!(fourth, (7, "d".to_string()));
}

#[test]
fn the_task_stops_when_every_client_is_gone() {
    assert!(matches!(new_task().background_task(Event::Message(None)), Step::Stop(_)));
}

#[test]
fn the_task_stops_when_nobody_reports_closed_subscriptions() {
    let step = new_task().background_task(Event::SubscriptionClosed(None));
    assert!(matches!(step, Step::Stop(_)));
}

#[test]
fn subscriptions_are_kept_until_they_are_closed() {
    let (sub, _rx) = subscription("subscribe_lo");
    let task = open(new_task(), 3, sub);
    assert_eq!(task.open_subscriptions().len(), 1);
    assert_eq!(task.open_subscriptions()[&3].subscribe_method, "subscribe_lo");
    let (task, dropped) = goes_on(task, Event::SubscriptionClosed(Some(4)));
    assert!(dropped.is_none());
    assert_eq!(task.open_subscriptions().len(), 1);
    let (task, dropped) = goes_on(task, Event::SubscriptionClosed(Some(3)));
    assert_eq!(dropped.unwrap().subscribe_method, "subscribe_lo");
    assert_eq!(task.open_subscriptions().len(), 0);
}

#[test]
fn a_subscription_under_the_same_number_takes_the_place_of_the_other() {
    let (first, _rx) = subscription("subscribe_lo");
    let (second, _rx2) = subscription("subscribe_hi");
    let task = open(new_task(), 3, first);
    let (task, dropped) = goes_on(task, Event::Response(Some(Ok(Some((3, second))))));
    assert_eq!(dropped.unwrap().subscribe_method, "subscribe_lo");
    assert_eq!(task.open_subscriptions()[&3].subscribe_method, "subscribe_hi");
}

#[test]
fn a_call_that_is_handed_back_starts_a_reconnect() {
    let event = Event::Response(Some(closed("a", 4)));
    let plan = plan(reconnects(new_task(), event), vec![]);
    assert_eq!(numbers(plan.dispatch), vec![(4, "a".to_string())]);
}

#[test]
fn a_reconnect_transmits_all_that_was_handed_back_in_order() {
    let reconnect = reconnects(new_task(), Event::Response(Some(closed("a", 4))));
    let plan = plan(reconnect, vec![closed("b", 2), Ok(None), closed("c", 3)]);
    assert_eq!(
        numbers(plan.dispatch),
        vec![(4, "a".to_string()), (2, "b".to_string()), (3, "c".to_string())]
    );
}

#[test]
fn a_disconnect_starts_a_reconnect_with_nothing_to_transmit() {
    let plan = plan(reconnects(new_task(), Event::Disconnected), vec![]);
    assert_eq!(numbers(plan.dispatch), vec![]);
    assert!(matches!(plan.resubscribing.next(), Resubscribe::Done(_)));
}

#[test]
fn operations_that_ended_well_are_not_transmitted_again() {
    let (sub, _rx) = subscription("subscribe_lo");
    let reconnect = reconnects(new_task(), Event::Disconnected);
    let ended = vec![Ok(None), Ok(Some((1, sub))), closed("a", 4)];
    let plan = plan(reconnect, ended);
    assert_eq!(numbers(plan.dispatch), vec![(4, "a".to_string())]);
}

#[test]
fn a_subscription_that_opened_while_the_task_reconnects_is_opened_again() {
    let (early, _rx) = subscription("subscribe_early");
    let (late, rx) = subscription("subscribe_late");
    let task = open(new_task(), 0, early);
    let plan = plan(reconnects(task, Event::Disconnected), vec![Ok(Some((1, late)))]);
    let (task, forwards) = resubscribe(plan);
    let mut ids: Vec<usize> = forwards.iter().map(|forward| forward.id).collect();
    ids.sort();
    assert_eq!(ids, vec![0, 1]);
    assert_eq!(task.open_subscriptions().len(), 2);
    assert_eq!(task.open_subscriptions()[&1].subscribe_method, "subscribe_late");
    let forward = forwards.iter().find(|forward| forward.id == 1).unwrap();
    let mut rx = rx;
    forward.tx.raw().send(Ok(RawValue::from_string("0".to_string()).unwrap())).unwrap();
    assert_eq!(rx.try_recv().unwrap().unwrap().get(), "0");
}

#[test]
fn a_reconnect_opens_every_subscription_again() {
    let mut task = new_task();
    let mut receivers = vec![];
    for id in [5, 1, 9] {
        let (sub, rx) = subscription("subscribe_lo");
        receivers.push(rx);
        task = open(task, id, sub);
    }
    let (task, _) = goes_on(task, Event::SubscriptionClosed(Some(1)));
    let (task, forwards) = resubscribe(plan(reconnects(task, Event::Disconnected), vec![]));
    assert_eq!(task.open_subscriptions().len(), 2);
    let mut ids: Vec<usize> = forwards.iter().map(|forward| forward.id).collect();
    ids.sort();
    assert_eq!(ids, vec![5, 9]);
    for forward in forwards {
        assert_eq!(forward.sub, forward.id);
        let record = &task.open_subscriptions()[&forward.id];
        assert!(forward.tx.raw().same_channel(record.tx.raw()));
    }
    // Nothing was put into a receiver.
    for mut rx in receivers {
        assert!(rx.try_recv().is_err());
    }
}

#[test]
fn a_subscription_is_opened_again_as_it_was_asked_for() {
    let (sub, _rx) = subscription("subscribe_lo");
    let task = open(new_task(), 2, sub);
    match plan(reconnects(task, Event::Disconnected), vec![]).resubscribing.next() {
        Resubscribe::Subscribe(sub) => {
            assert_eq!(sub.id(), 2);
            let request = sub.request();
            assert_eq!(request.subscribe_method, "subscribe_lo");
            assert_eq!(request.params.0.unwrap().get(), "[7]");
            assert_eq!(request.unsubscribe_method, "unsubscribe_lo");
        }
        Resubscribe::Done(_) => panic!("a subscription is to be opened again"),
    }
}

#[test]
fn the_first_subscription_that_cannot_be_opened_again_fails_the_reconnect() {
    let mut task = new_task();
    let mut receivers = vec![];
    for id in [5, 1] {
        let (sub, rx) = subscription("subscribe_lo");
        receivers.push(rx);
        task = open(task, id, sub);
    }
    match plan(reconnects(task, Event::Disconnected), vec![]).resubscribing.next() {
        Resubscribe::Subscribe(sub) => match sub.resubscribed::<()>(Err(RpcError::Custom("no".to_string()))) {
            Err(failed) => {
                assert!(matches!(failed.err, RpcError::Custom(text) if text == "no"));
                for rx in receivers.iter_mut() {
                    assert!(rx.try_recv().is_err());
                }
                drop(failed.stopped);
                for mut rx in receivers {
                    assert!(rx.blocking_recv().is_none());
                }
            }
            Ok(_) => panic!("the reconnect failed"),
        },
        Resubscribe::Done(_) => panic!("a subscription is to be opened again"),
    }
}

#[test]
fn a_reconnect_that_fails_gives_up_what_waited() {
    let reconnect = reconnects(new_task(), Event::Response(Some(closed("a", 4))));
    let reconnecting = drain(reconnect, vec![]);
    match reconnecting.reconnect(Err(RpcError::Custom("refused".to_string()))) {
        Err(failed) => {
            assert!(matches!(failed.err, RpcError::Custom(text) if text == "refused"));
            assert_eq!(failed.retry.len(), 1);
            assert_eq!(failed.retry[0].0, 4);
        }
        Ok(_) => panic!("the reconnect failed"),
    }
}

#[test]
fn a_reconnect_leads_to_where_the_first_connection_led() {
    let reconnecting = drain(reconnects(new_task(), Event::Disconnected), vec![]);
    let connect = reconnecting.connect();
    assert_eq!(connect.url, "ws://example.com");
    assert_eq!(connect.ping_interval, Some(Duration::from_secs(6)));
}

#[test]
fn operations_go_over_the_connection_of_the_last_reconnect() {
    let task = match new_task().background_task(Event::Message(Some(call("a")))) {
        Step::Dispatch(task, transmit) => {
            assert_eq!(transmit.connection, "first");
            task
        }
        _ => panic!("a call is dispatched"),
    };
    let (sub, _rx) = subscription("subscribe_lo");
    let task = open(task, 1, sub);
    let plan = plan(reconnects(task, Event::Disconnected), vec![closed("a", 0)]);
    assert_eq!(plan.dispatch.len(), 1);
    assert_eq!(plan.dispatch[0].connection, "second");
    let opened = match plan.resubscribing.next() {
        Resubscribe::Subscribe(sub) => {
            assert_eq!(*sub.connection(), "second");
            sub.resubscribed(Ok(())).ok().unwrap()
        }
        Resubscribe::Done(_) => panic!("a subscription is to be opened again"),
    };
    let task = match opened.resubscribing.next() {
        Resubscribe::Done(task) => task,
        Resubscribe::Subscribe(_) => panic!("every subscription is open again"),
    };
    assert_eq!(*task.connection(), "second");
    match task.background_task(Event::Message(Some(call("b")))) {
        Step::Dispatch(_, transmit) => assert_eq!(transmit.connection, "second"),
        _ => panic!("a call is dispatched"),
    }
}
