use reconnecting_jsonrpsee_ws_client::dispatch::{dispatch_call, Dispatch, PendingCall, PendingSubscription};
use reconnecting_jsonrpsee_ws_client::{Closed, MethodResult, Op, RpcError, RpcParams, SubscriptionResult};
use serde_json::value::RawValue;
use tokio::sync::oneshot;

fn raw(json: &str) -> Box<RawValue> {
    RawValue::from_string(json.to_string()).unwrap()
}

fn restart_needed() -> RpcError {
    RpcError::RestartNeeded("connection reset".to_string())
}

fn call() -> (PendingCall, oneshot::Receiver<MethodResult>) {
    let (send_back, rx) = oneshot::channel();
    let op = Op::Call {
        method: "say_hello".to_string(),
        params: RpcParams(Some(raw("[1]"))),
        send_back,
    };
    match dispatch_call(&(), op, 7).dispatch {
        Dispatch::Call(call) => (call, rx),
        Dispatch::Subscription(_) => panic!("a call is dispatched as a call"),
    }
}

fn subscription() -> (PendingSubscription, oneshot::Receiver<SubscriptionResult>) {
    let (send_back, rx) = oneshot::channel();
    let op = Op::Subscription {
        subscribe_method: "subscribe_lo".to_string(),
        params: RpcParams(Some(raw("[2]"))),
        unsubscribe_method: "unsubscribe_lo".to_string(),
        send_back,
    };
    match dispatch_call(&(), op, 8).dispatch {
        Dispatch::Subscription(sub) => (sub, rx),
        Dispatch::Call(_) => panic!("a subscription is dispatched as a subscription"),
    }
}

#[test]
fn a_call_is_dispatched_as_asked() {
    let (call, _rx) = call();
    assert_eq!(call.id, 7);
    assert_eq!(call.method, "say_hello");
    let request = call.request();
    assert_eq!(request.method, "say_hello");
    assert_eq!(request.params.0.unwrap().get(), "[1]");
    assert_eq!(call.params.0.unwrap().get(), "[1]");
}

#[test]
fn a_request_goes_over_the_connection_given() {
    let (send_back, _rx) = oneshot::channel();
    let op = Op::Call { method: "say_hello".to_string(), params: RpcParams(None), send_back };
    assert_eq!(dispatch_call(&"connection", op, 7).connection, "connection");
}

#[test]
fn a_subscription_is_dispatched_as_asked() {
    let (sub, _rx) = subscription();
    assert_eq!(sub.id, 8);
    assert_eq!(sub.subscribe_method, "subscribe_lo");
    assert_eq!(sub.unsubscribe_method, "unsubscribe_lo");
    let request = sub.request();
    assert_eq!(request.subscribe_method, "subscribe_lo");
    assert_eq!(request.unsubscribe_method, "unsubscribe_lo");
    assert_eq!(request.params.0.unwrap().get(), "[2]");
    assert_eq!(sub.params.0.unwrap().get(), "[2]");
}

#[test]
fn the_result_of_a_call_goes_to_its_caller() {
    let (call, mut rx) = call();
    let settled = call.settle(Ok(raw("\"lo\"")));
    assert!(matches!(settled.response, Ok(None)));
    assert!(settled.answer.unwrap().is_taken());
    assert_eq!(rx.try_recv().unwrap().unwrap().get(), "\"lo\"");
}

#[test]
fn an_error_of_a_call_goes_to_its_caller() {
    let (call, mut rx) = call();
    let settled = call.settle(Err(RpcError::Other(jsonrpsee::core::Error::RequestTimeout)));
    assert!(matches!(settled.response, Ok(None)));
    assert!(settled.answer.is_some());
    assert!(matches!(
        rx.try_recv().unwrap(),
        Err(RpcError::Other(jsonrpsee::core::Error::RequestTimeout))
    ));
}

#[test]
fn a_custom_error_of_a_call_goes_to_its_caller() {
    let (call, mut rx) = call();
    let _ = call.settle(Err(RpcError::Custom("no".to_string())));
    match rx.try_recv().unwrap() {
        Err(RpcError::Custom(text)) => assert_eq!(text, "no"),
        _ => panic!("the error is handed on"),
    }
}

#[test]
fn a_call_whose_caller_is_gone_is_over() {
    let (call, rx) = call();
    drop(rx);
    let settled = call.settle(Ok(raw("1")));
    assert!(matches!(settled.response, Ok(None)));
    assert!(!settled.answer.unwrap().is_taken());
}

#[test]
fn a_call_on_a_closed_connection_is_handed_back() {
    let (call, mut rx) = call();
    let settled = call.settle(Err(restart_needed()));
    assert!(settled.answer.is_none());
    match settled.response {
        Err(Closed { op: Op::Call { method, params, send_back }, id }) => {
            assert_eq!(id, 7);
            assert_eq!(method, "say_hello");
            assert_eq!(params.0.unwrap().get(), "[1]");
            assert!(rx.try_recv().is_err());
            send_back.send(Ok(raw("3"))).unwrap();
            assert_eq!(rx.try_recv().unwrap().unwrap().get(), "3");
        }
        _ => panic!("the call is handed back"),
    }
}

#[test]
fn an_opened_subscription_has_a_channel_of_its_own() {
    let (sub, mut rx) = subscription();
    let settled = sub.settle(Ok("server side"));
    assert!(settled.answer.unwrap().is_taken());
    let mut notifications = rx.try_recv().unwrap().unwrap();
    let forward = settled.forward.unwrap();
    assert_eq!(forward.id, 8);
    assert_eq!(forward.sub, "server side");
    forward.tx.raw().send(Ok(raw("10"))).unwrap();
    match settled.response {
        Ok(Some((id, retry))) => {
            assert_eq!(id, 8);
            assert_eq!(retry.subscribe_method, "subscribe_lo");
            assert_eq!(retry.unsubscribe_method, "unsubscribe_lo");
            let request = retry.request();
            assert_eq!(request.subscribe_method, "subscribe_lo");
            assert_eq!(request.unsubscribe_method, "unsubscribe_lo");
            assert_eq!(request.params.0.unwrap().get(), "[2]");
            assert!(retry.tx.raw().same_channel(forward.tx.raw()));
            retry.tx.raw().send(Ok(raw("11"))).unwrap();
        }
        _ => panic!("the subscription is open"),
    }
    assert_eq!(notifications.try_recv().unwrap().unwrap().get(), "10");
    assert_eq!(notifications.try_recv().unwrap().unwrap().get(), "11");
}

#[test]
fn a_refused_subscription_is_answered() {
    let (sub, mut rx) = subscription();
    let settled = sub.settle::<()>(Err(RpcError::Other(jsonrpsee::core::Error::InvalidSubscriptionId)));
    assert!(matches!(settled.response, Ok(None)));
    assert!(settled.forward.is_none());
    assert!(matches!(
        rx.try_recv().unwrap(),
        Err(RpcError::Other(jsonrpsee::core::Error::InvalidSubscriptionId))
    ));
}

#[test]
fn a_subscription_on_a_closed_connection_is_handed_back() {
    let (sub, mut rx) = subscription();
    let settled = sub.settle::<()>(Err(restart_needed()));
    assert!(settled.answer.is_none());
    assert!(settled.forward.is_none());
    match settled.response {
        Err(Closed { op: Op::Subscription { subscribe_method, params, unsubscribe_method, .. }, id }) => {
            assert_eq!(id, 8);
            assert_eq!(subscribe_method, "subscribe_lo");
            assert_eq!(unsubscribe_method, "unsubscribe_lo");
            assert_eq!(params.0.unwrap().get(), "[2]");
            assert!(rx.try_recv().is_err());
        }
        _ => panic!("the subscription is handed back"),
    }
}

#[test]
fn an_operation_that_is_handed_back_can_be_dispatched_again() {
    let (call, mut rx) = call();
    let closed = call.settle(Err(restart_needed())).response.err().unwrap();
    match dispatch_call(&(), closed.op, closed.id).dispatch {
        Dispatch::Call(again) => {
            assert_eq!(again.id, 7);
            assert_eq!(again.method, "say_hello");
            let _ = again.settle(Ok(raw("\"lo\"")));
        }
        Dispatch::Subscription(_) => panic!("a call stays a call"),
    }
    assert_eq!(rx.try_recv().unwrap().unwrap().get(), "\"lo\"");
}

#[test]
fn params_are_put_on_the_wire_as_they_are() {
    assert!(RpcParams(None).to_rpc_params().unwrap().is_none());
    let params = RpcParams(Some(raw("[1, 2]")));
    assert_eq!(params.clone().to_rpc_params().unwrap().unwrap().get(), "[1, 2]");
}
