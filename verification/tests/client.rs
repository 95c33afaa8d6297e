use reconnecting_jsonrpsee_ws_client::background::{Event, Step};
use reconnecting_jsonrpsee_ws_client::client::{reply, ReconnectingWsClient, Started};
use reconnecting_jsonrpsee_ws_client::connect::{ws_client, PingConfig};
use reconnecting_jsonrpsee_ws_client::counter::ReconnectCounter;
use reconnecting_jsonrpsee_ws_client::reconnect::Drained;
use reconnecting_jsonrpsee_ws_client::{MethodResult, Op, RpcError, RpcParams, SubscriptionResult};
use serde_json::value::RawValue;
use std::time::Duration;
use tokio::sync::oneshot;

fn raw(json: &str) -> Box<RawValue> {
    RawValue::from_string(json.to_string()).unwrap()
}

fn connected<C>(connection: C) -> Started<C> {
    ReconnectingWsClient::new("ws://example.com".to_string(), PingConfig::Disabled, Ok(connection)).ok().unwrap()
}

fn is_client_dropped(err: &RpcError) -> bool {
    matches!(err, RpcError::Custom(text) if text == "Client is dropped")
}

#[test]
fn a_client_starts_when_it_is_connected() {
    let mut started = connected("connection");
    assert_eq!(*started.task.connection(), "connection");
    assert_eq!(started.task.open_subscriptions().len(), 0);
    assert_eq!(started.client.retry_count(), 0);
    assert!(!started.client.tx.raw().is_closed());
    drop(started.rx);
    assert!(started.client.tx.raw().is_closed());
}

#[test]
fn a_client_does_not_start_when_it_cannot_connect() {
    let refused = Err(RpcError::Custom("refused".to_string()));
    match ReconnectingWsClient::new::<()>("ws://example.com".to_string(), PingConfig::Disabled, refused) {
        Err(RpcError::Custom(text)) => assert_eq!(text, "refused"),
        _ => panic!("the error is handed on"),
    }
}

#[test]
fn a_request_reaches_the_background_task() {
    let mut started = connected(());
    let submitted = started.client.request("say_hello".to_string(), Ok(Some(raw("[1]")))).unwrap_or_else(|_| panic!("the parameters are fine"));
    let mut rx = submitted.reply.unwrap();
    match started.rx.try_recv().unwrap() {
        Op::Call { method, params, send_back } => {
            assert_eq!(method, "say_hello");
            assert_eq!(params.0.unwrap().get(), "[1]");
            send_back.send(Ok(raw("\"lo\""))).unwrap();
        }
        Op::Subscription { .. } => panic!("a request is a call"),
    }
    assert_eq!(rx.try_recv().unwrap().unwrap().get(), "\"lo\"");
    assert!(started.rx.try_recv().is_err());
}

#[test]
fn a_subscription_reaches_the_background_task() {
    let mut started = connected(());
    let submitted = started
        .client
        .subscribe("subscribe_lo".to_string(), Ok(None), "unsubscribe_lo".to_string())
        .unwrap_or_else(|_| panic!("the parameters are fine"));
    let mut rx = submitted.reply.unwrap();
    match started.rx.try_recv().unwrap() {
        Op::Subscription { subscribe_method, params, unsubscribe_method, send_back } => {
            assert_eq!(subscribe_method, "subscribe_lo");
            assert_eq!(unsubscribe_method, "unsubscribe_lo");
            assert!(params.0.is_none());
            send_back.send(Err(RpcError::Custom("no".to_string()))).unwrap();
        }
        Op::Call { .. } => panic!("a subscription is no call"),
    }
    assert!(rx.try_recv().unwrap().is_err());
    assert!(started.rx.try_recv().is_err());
}

#[test]
fn operations_arrive_once_each_and_in_order() {
    let mut started = connected(());
    for method in ["a", "b", "c"] {
        assert!(started.client.inner_request(method.to_string(), RpcParams(None)).reply.is_ok());
    }
    let mut arrived = vec![];
    while let Ok(op) = started.rx.try_recv() {
        match op {
            Op::Call { method, .. } => arrived.push(method),
            Op::Subscription { .. } => panic!("a request is a call"),
        }
    }
    assert_eq!(arrived, vec!["a", "b", "c"]);
}

#[test]
fn each_call_has_a_channel_of_its_own() {
    let mut started = connected(());
    let mut first = started.client.inner_request("a".to_string(), RpcParams(None)).reply.unwrap();
    let mut second = started.client.inner_request("b".to_string(), RpcParams(None)).reply.unwrap();
    let _ = started.rx.try_recv().unwrap();
    match started.rx.try_recv().unwrap() {
        Op::Call { send_back, .. } => send_back.send(Ok(raw("2"))).unwrap(),
        Op::Subscription { .. } => panic!("a request is a call"),
    }
    assert!(first.try_recv().is_err());
    assert_eq!(second.try_recv().unwrap().unwrap().get(), "2");
}

#[test]
fn parameters_that_do_not_serialise_are_refused_at_once() {
    let mut started = connected(());
    match started.client.request("m".to_string(), Err(RpcError::Custom("bad".to_string()))) {
        Err(RpcError::Custom(text)) => assert_eq!(text, "bad"),
        _ => panic!("the error is handed on"),
    }
    match started.client.subscribe("s".to_string(), Err(RpcError::Custom("worse".to_string())), "u".to_string()) {
        Err(RpcError::Custom(text)) => assert_eq!(text, "worse"),
        _ => panic!("the error is handed on"),
    }
    assert!(started.rx.try_recv().is_err());
}

#[test]
fn without_a_background_task_a_client_is_told_so() {
    let mut started = connected(());
    drop(started.rx);
    let call = started.client.inner_request("say_hello".to_string(), RpcParams(None));
    assert!(is_client_dropped(&call.reply.unwrap_err()));
    let sub = started.client.inner_subscribe("s".to_string(), RpcParams(None), "u".to_string());
    assert!(is_client_dropped(&sub.reply.unwrap_err()));
}

#[test]
fn an_answer_is_handed_on() {
    let (tx, rx) = oneshot::channel::<MethodResult>();
    tx.send(Ok(raw("5"))).unwrap();
    assert_eq!(reply(rx.blocking_recv()).unwrap().get(), "5");
    let (tx, rx) = oneshot::channel::<MethodResult>();
    tx.send(Err(RpcError::Custom("no".to_string()))).unwrap();
    assert!(matches!(reply(rx.blocking_recv()), Err(RpcError::Custom(text)) if text == "no"));
}

#[test]
fn a_background_task_that_ends_answers_nothing() {
    let (tx, rx) = oneshot::channel::<MethodResult>();
    drop(tx);
    assert!(is_client_dropped(&reply(rx.blocking_recv()).unwrap_err()));
    let (tx, rx) = oneshot::channel::<SubscriptionResult>();
    drop(tx);
    assert!(is_client_dropped(&reply(rx.blocking_recv()).unwrap_err()));
}

#[test]
fn clients_share_the_background_task() {
    let mut started = connected(());
    let mut other = started.client.share();
    assert!(other.tx.raw().same_channel(started.client.tx.raw()));
    let _ = other.inner_request("say_hello".to_string(), RpcParams(None));
    assert!(started.rx.try_recv().is_ok());
    assert!(started.rx.try_recv().is_err());
}

#[test]
fn every_client_reads_the_count_of_the_background_task() {
    let mut started = connected(());
    let mut other = started.client.share();
    assert_eq!(started.client.retry_count(), 0);
    assert_eq!(other.retry_count(), 0);
    let reconnect = match started.task.background_task(Event::Disconnected) {
        Step::Reconnect(reconnect) => reconnect,
        _ => panic!("a reconnect is due"),
    };
    let reconnecting = match reconnect.drained(None) {
        Drained::Restart(reconnecting) => reconnecting,
        Drained::Wait { .. } => panic!("nothing is left to end"),
    };
    assert_eq!(started.client.retry_count(), 1);
    assert_eq!(other.retry_count(), 1);
    assert_eq!(other.share().retry_count(), 1);

    // The reconnect fails. It stays counted.
    drop(reconnecting.reconnect(Err(RpcError::Custom("refused".to_string()))).err().unwrap());
    assert_eq!(started.client.retry_count(), 1);
    assert_eq!(other.retry_count(), 1);
}

#[test]
fn reconnects_are_counted() {
    let mut counter = ReconnectCounter::new();
    assert_eq!(counter.get(), 0);
    counter.inc();
    counter.inc();
    assert_eq!(counter.get(), 2);
}

#[test]
fn handles_on_a_count_share_it() {
    let mut counter = ReconnectCounter::new();
    counter.inc();
    let mut other = counter.share();
    assert_eq!(other.get(), 1);
    counter.inc();
    assert_eq!(other.get(), 2);
    other.inc();
    assert_eq!(counter.get(), 3);
    assert_eq!(other.share().get(), 3);
    assert_eq!(ReconnectCounter::new().get(), 0);
}

#[test]
fn pings_are_sent_where_they_are_enabled() {
    let connect = ws_client("ws://example.com", PingConfig::Enabled(Duration::from_secs(6)));
    assert_eq!(connect.url, "ws://example.com");
    assert_eq!(connect.ping_interval, Some(Duration::from_secs(6)));
    let connect = ws_client("ws://example.com", PingConfig::Disabled);
    assert_eq!(connect.url, "ws://example.com");
    assert_eq!(connect.ping_interval, None);
}
