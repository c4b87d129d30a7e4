use rpc_registry::error::{CloseReason, Error};
use rpc_registry::json::{close_reason_json, notification_json, subscription_id_json, SubscriptionId};
use rpc_registry::resources::Resources;
use rpc_registry::subscription::{subscribe, unsubscribe, PipeEvent, PipeStep, SubscriptionKey, SubscriptionTable};

#[test]
fn subscribe_then_unsubscribe_once() {
    let mut table: SubscriptionTable<u8> = SubscriptionTable::new();
    let _sink = subscribe(&mut table, 1, SubscriptionId::Num(9), 0, "n");
    assert_eq!(table.len(), 1);
    assert!(unsubscribe(&mut table, 1, SubscriptionId::Num(9)));
    assert!(!unsubscribe(&mut table, 1, SubscriptionId::Num(9)));
    assert_eq!(table.len(), 0);
}

#[test]
fn keys_are_per_connection() {
    let mut table: SubscriptionTable<u8> = SubscriptionTable::new();
    let _a = subscribe(&mut table, 1, SubscriptionId::Str("x".to_string()), 1, "n");
    let _b = subscribe(&mut table, 2, SubscriptionId::Str("x".to_string()), 2, "n");
    assert_eq!(table.len(), 2);
    assert!(!unsubscribe(&mut table, 3, SubscriptionId::Str("x".to_string())));
    assert!(unsubscribe(&mut table, 2, SubscriptionId::Str("x".to_string())));
    let key = SubscriptionKey { conn_id: 1, sub_id: SubscriptionId::Str("x".to_string()) };
    assert!(table.contains(&key));
    assert_eq!(table.insert(key, 5), Some(1));
    assert_eq!(table.len(), 1);
}

#[test]
fn hi_subscription_pushes_one_answer() {
    let mut table: SubscriptionTable<()> = SubscriptionTable::new();
    let id = SubscriptionId::Num(4_000_000_001);
    assert_eq!(subscription_id_json(&id), "4000000001");
    let mut sink = subscribe(&mut table, 0, id.clone(), (), "hi");
    let msg = sink.send(&mut table, "\"one answer\"", false, false).unwrap();
    assert_eq!(
        msg,
        r#"{"jsonrpc":"2.0","method":"hi","params":{"subscription":4000000001,"result":"one answer"}}"#
    );
    assert!(unsubscribe(&mut table, 0, id));
}

#[test]
fn drop_without_close_sends_one_generic_close() {
    let mut table: SubscriptionTable<()> = SubscriptionTable::new();
    let mut sink = subscribe(&mut table, 0, SubscriptionId::Str("ab\"c".to_string()), (), "note");
    let last = sink.close_on_drop(&mut table).unwrap();
    assert_eq!(
        last,
        r#"{"jsonrpc":"2.0","method":"note","params":{"subscription":"ab\"c","result":{"reason":{"Server":"No close reason provided"}}}}"#
    );
    assert_eq!(table.len(), 0);
    assert_eq!(sink.close_on_drop(&mut table), None);
    assert!(sink.is_closed(false));
}

#[test]
fn send_on_closed_sink_fails_with_connection_reset() {
    let mut table: SubscriptionTable<()> = SubscriptionTable::new();
    let mut sink = subscribe(&mut table, 0, SubscriptionId::Num(1), (), "n");
    assert_eq!(
        sink.send(&mut table, "1", true, false),
        Err(Error::SubscriptionClosed(CloseReason::ConnectionReset))
    );
    assert_eq!(table.len(), 1);
    assert_eq!(sink.close(&mut table, &CloseReason::Unsubscribed).unwrap(),
        r#"{"jsonrpc":"2.0","method":"n","params":{"subscription":1,"result":{"reason":"Unsubscribed"}}}"#);
    assert_eq!(
        sink.send(&mut table, "1", false, false),
        Err(Error::SubscriptionClosed(CloseReason::ConnectionReset))
    );
}

#[test]
fn send_after_unsubscribe_closes_quietly() {
    let mut table: SubscriptionTable<()> = SubscriptionTable::new();
    let mut sink = subscribe(&mut table, 0, SubscriptionId::Num(1), (), "n");
    assert_eq!(
        sink.send(&mut table, "1", false, true),
        Err(Error::SubscriptionClosed(CloseReason::Unsubscribed))
    );
    assert_eq!(table.len(), 0);
    assert_eq!(sink.close(&mut table, &CloseReason::ConnectionReset), None);
}

#[test]
fn failed_write_closes_without_message() {
    let mut table: SubscriptionTable<()> = SubscriptionTable::new();
    let mut sink = subscribe(&mut table, 0, SubscriptionId::Num(1), (), "n");
    assert_eq!(sink.send_failed(&mut table), Error::SubscriptionClosed(CloseReason::ConnectionReset));
    assert_eq!(table.len(), 0);
    assert_eq!(sink.close_with_custom_message(&mut table, "bye"), None);
}

#[test]
fn custom_close_message() {
    let mut table: SubscriptionTable<()> = SubscriptionTable::new();
    let mut sink = subscribe(&mut table, 0, SubscriptionId::Num(2), (), "n");
    assert_eq!(
        sink.close_with_custom_message(&mut table, "bye").unwrap(),
        r#"{"jsonrpc":"2.0","method":"n","params":{"subscription":2,"result":{"reason":{"Server":"bye"}}}}"#
    );
    assert_eq!(close_reason_json(&CloseReason::ConnectionReset), r#"{"reason":"ConnectionReset"}"#);
}

#[test]
fn pipe_delivers_finite_stream_in_order() {
    let mut table: SubscriptionTable<()> = SubscriptionTable::new();
    let mut sink = subscribe(&mut table, 0, SubscriptionId::Num(3), (), "p");
    let mut out = Vec::new();
    for item in ["1", "2", "3"] {
        match sink.pipe_step(&mut table, PipeEvent::Item(item.to_string()), false, false) {
            PipeStep::Deliver(m) => out.push(m),
            PipeStep::Finished(_) => panic!("stopped early"),
        }
    }
    assert!(matches!(sink.pipe_step(&mut table, PipeEvent::StreamEnded, false, false), PipeStep::Finished(None)));
    let expected: Vec<String> = ["1", "2", "3"]
        .iter()
        .map(|r| notification_json("p", &SubscriptionId::Num(3), r))
        .collect();
    assert_eq!(out, expected);
    assert_eq!(out[0], r#"{"jsonrpc":"2.0","method":"p","params":{"subscription":3,"result":1}}"#);
    assert_eq!(table.len(), 1);
}

#[test]
fn pipe_stops_on_disconnect() {
    let mut table: SubscriptionTable<()> = SubscriptionTable::new();
    let mut sink = subscribe(&mut table, 0, SubscriptionId::Num(3), (), "p");
    assert!(matches!(
        sink.pipe_step(&mut table, PipeEvent::Item("1".to_string()), false, false),
        PipeStep::Deliver(_)
    ));
    match sink.pipe_step(&mut table, PipeEvent::Disconnected, false, false) {
        PipeStep::Finished(Some(m)) => assert_eq!(
            m,
            r#"{"jsonrpc":"2.0","method":"p","params":{"subscription":3,"result":{"reason":"ConnectionReset"}}}"#
        ),
        _ => panic!("expected a close message"),
    }
    assert!(matches!(
        sink.pipe_step(&mut table, PipeEvent::Item("2".to_string()), false, false),
        PipeStep::Finished(None)
    ));
    assert_eq!(table.len(), 0);
}

#[test]
fn zero_capacity_never_blocks() {
    let mut pool = Resources::new();
    pool.register("free", 0, 0).unwrap();
    pool.register("cpu", 1, 0).unwrap();
    let a = pool.claim(&vec![u16::MAX, 1]).unwrap();
    assert_eq!(a.units(), &vec![0u16, 1]);
    assert_eq!(pool.used(0), 0);
    assert_eq!(pool.claim(&vec![u16::MAX, 1]).err().unwrap(), Error::ResourceAtCapacity("cpu".to_string()));
    assert!(pool.claim(&vec![500, 0]).is_ok());
}

#[test]
fn pool_registration_errors() {
    let mut pool = Resources::new();
    pool.register("a", 1, 0).unwrap();
    assert_eq!(pool.register("a", 2, 0), Err(Error::ResourceNameAlreadyTaken("a".to_string())));
    for i in 1..8 {
        pool.register(&format!("r{}", i), 1, 0).unwrap();
    }
    assert_eq!(pool.register("last", 1, 0), Err(Error::MaxResourcesReached));
    assert_eq!(pool.position("r3"), Some(3));
    assert_eq!(pool.position("zz"), None);
    assert_eq!(pool.label(3), "r3");
    assert_eq!(pool.capacity(0), 1);
    assert_eq!(pool.defaults().len(), 8);
}
