use reconnecting_jsonrpsee_ws_client::dispatch::{dispatch_call, Dispatch};
use reconnecting_jsonrpsee_ws_client::subscription::{HandlerStep, Notified, Reports, SubscriptionHandler};
use reconnecting_jsonrpsee_ws_client::{Notification, Op, RetrySubscription, RpcParams};
use serde_json::value::RawValue;
use tokio::sync::mpsc::UnboundedReceiver;
use tokio::sync::oneshot;

fn raw(json: &str) -> Box<RawValue> {
    RawValue::from_string(json.to_string()).unwrap()
}

struct Running {
    handler: SubscriptionHandler,
    record: RetrySubscription,
    rx: UnboundedReceiver<Notification>,
    closed: UnboundedReceiver<usize>,
}

/// A handler of the subscription 6, as the server opened it.
fn running() -> Running {
    let (send_back, mut answer) = oneshot::channel();
    let op = Op::Subscription {
        subscribe_method: "subscribe_lo".to_string(),
        params: RpcParams(None),
        unsubscribe_method: "unsubscribe_lo".to_string(),
        send_back,
    };
    let settled = match dispatch_call(&(), op, 6).dispatch {
        Dispatch::Subscription(sub) => sub.settle(Ok(())),
        Dispatch::Call(_) => panic!("a subscription is no call"),
    };
    let forward = settled.forward.unwrap();
    let record = settled.response.ok().unwrap().unwrap().1;
    let (mut reports, closed) = Reports::new();
    Running {
        handler: SubscriptionHandler::new(forward.tx, reports.share(), forward.id),
        record,
        rx: answer.try_recv().unwrap().unwrap(),
        closed,
    }
}

#[test]
fn notifications_are_forwarded() {
    let mut r = running();
    let step = r.handler.handle(Notified::Next(Some(Ok(raw("1")))));
    assert!(matches!(step, HandlerStep::Continue));
    assert_eq!(r.rx.try_recv().unwrap().unwrap().get(), "1");
    assert!(r.rx.try_recv().is_err());
    assert!(r.closed.try_recv().is_err());
}

#[test]
fn notifications_are_forwarded_once_each_and_in_order() {
    let mut r = running();
    let notifs: Vec<Notification> = vec![
        Ok(raw("1")),
        Err(jsonrpsee::core::Error::Custom("lagged".to_string())),
        Ok(raw("1")),
        Ok(raw("2")),
    ];
    for notif in notifs {
        assert!(matches!(r.handler.handle(Notified::Next(Some(notif))), HandlerStep::Continue));
    }
    assert!(matches!(r.handler.handle(Notified::Next(None)), HandlerStep::Done { sub_dropped: false }));
    let mut seen = vec![];
    while let Ok(notif) = r.rx.try_recv() {
        seen.push(match notif {
            Ok(json) => json.get().to_string(),
            Err(jsonrpsee::core::Error::Custom(text)) => text,
            Err(_) => panic!("no other error was sent"),
        });
    }
    assert_eq!(seen, vec!["1", "lagged", "1", "2"]);
    assert!(r.closed.try_recv().is_err());
}

#[test]
fn a_handler_ends_when_its_subscriber_is_gone() {
    let mut r = running();
    drop(r.rx);
    let step = r.handler.handle(Notified::Next(Some(Ok(raw("1")))));
    assert!(matches!(step, HandlerStep::Done { sub_dropped: true }));
}

#[test]
fn a_handler_ends_when_the_subscription_is_closed() {
    let mut r = running();
    let step = r.handler.handle(Notified::Next(None));
    assert!(matches!(step, HandlerStep::Done { sub_dropped: false }));
    assert!(r.rx.try_recv().is_err());
}

#[test]
fn a_handler_ends_when_the_background_task_is_gone() {
    let mut r = running();
    let step = r.handler.handle(Notified::TaskGone);
    assert!(matches!(step, HandlerStep::Done { sub_dropped: true }));
    assert!(r.rx.try_recv().is_err());
}

#[test]
fn a_connection_is_lost_unless_it_is_up() {
    assert!(!SubscriptionHandler::connection_lost(Some(true)));
    assert!(SubscriptionHandler::connection_lost(Some(false)));
    assert!(SubscriptionHandler::connection_lost(None));
}

#[test]
fn a_subscription_that_is_closed_without_the_connection_is_removed() {
    let mut r = running();
    assert!(SubscriptionHandler::is_removed(false, false));
    let _ = r.handler.finish(false, false);
    assert_eq!(r.closed.try_recv().unwrap(), 6);
    assert!(r.closed.try_recv().is_err());
}

#[test]
fn a_subscription_that_is_closed_with_the_connection_is_kept() {
    let mut r = running();
    assert!(!SubscriptionHandler::is_removed(false, true));
    let _ = r.handler.finish(false, true);
    assert!(r.closed.try_recv().is_err());
}

#[test]
fn a_subscription_that_is_dropped_is_removed_in_any_case() {
    for connection_lost in [false, true] {
        let mut r = running();
        assert!(SubscriptionHandler::is_removed(true, connection_lost));
        let _ = r.handler.finish(true, connection_lost);
        assert_eq!(r.closed.try_recv().unwrap(), 6);
        assert!(r.closed.try_recv().is_err());
    }
}

#[test]
fn a_report_to_a_background_task_that_is_gone_is_lost() {
    let r = running();
    drop(r.closed);
    let finished = r.handler.finish(true, false);
    assert!(finished.sub_closed.raw().is_closed());
}

#[test]
fn a_receiver_ends_with_the_record_and_the_handler() {
    let mut r = running();
    let finished = r.handler.finish(true, false);
    drop(r.record);
    assert!(matches!(r.rx.try_recv(), Err(tokio::sync::mpsc::error::TryRecvError::Empty)));
    drop(finished);
    assert!(matches!(r.rx.try_recv(), Err(tokio::sync::mpsc::error::TryRecvError::Disconnected)));
}

#[test]
fn reports_of_all_handlers_arrive_in_one_place() {
    let (mut reports, mut closed) = Reports::new();
    for id in [3, 1] {
        let r = running();
        let handler = SubscriptionHandler::new(r.handler.tx, reports.share(), id);
        let _ = handler.finish(true, true);
    }
    assert_eq!(closed.try_recv().unwrap(), 3);
    assert_eq!(closed.try_recv().unwrap(), 1);
    assert!(closed.try_recv().is_err());
    drop(reports);
    assert!(closed.blocking_recv().is_none());
}
