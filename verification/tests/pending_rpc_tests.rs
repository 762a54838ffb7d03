use std::sync::mpsc;

use lightkeeper::error::ErrorKind;
use lightkeeper::pending_rpc::{
    deliver_response, fail_all_pending_rpcs, failure_notices, route_response, reply_matches, wait_not_sent, wait_timed_out,
    RESPONSE_TYPE_MISMATCH, rpc_result, Delivery, DeliveryOutcome, PendingRpcKind,
    PendingRpcTable, ReplyTag, RpcReceipt, UNEXPECTED_RESPONSE,
};

#[test]
fn reply_kinds_match() {
    assert!(reply_matches(&PendingRpcKind::ExecuteCommand, &ReplyTag::ExecuteCommand));
    assert!(reply_matches(&PendingRpcKind::WriteCachedFile, &ReplyTag::FileOpDone));
    assert!(reply_matches(&PendingRpcKind::RemoveCachedFile, &ReplyTag::FileOpDone));
    assert!(reply_matches(&PendingRpcKind::UpdateConfig, &ReplyTag::UpdateConfigOk));
    assert!(!reply_matches(&PendingRpcKind::Ack, &ReplyTag::Error));
    assert!(!reply_matches(&PendingRpcKind::Config, &ReplyTag::Ack));
}

#[test]
fn table_routes_each_reply_once() {
    let mut table: PendingRpcTable<u32> = PendingRpcTable::new();
    table.register(1, PendingRpcKind::Ack, 10);
    table.register(2, PendingRpcKind::Config, 20);
    assert_eq!(table.len(), 2);
    match table.take_for_response(1, PendingRpcKind::Ack) {
        Delivery::Matched(s) => assert_eq!(s, 10),
        _ => panic!("expected a match"),
    }
    assert!(matches!(table.take_for_response(1, PendingRpcKind::Ack), Delivery::Unknown));
    match table.take_for_response(2, PendingRpcKind::Ack) {
        Delivery::Mismatched(s) => assert_eq!(s, 20),
        _ => panic!("expected a mismatch"),
    }
    assert_eq!(table.len(), 0);
    assert_eq!(table.take(2), None);
}

#[test]
fn drain_gives_each_waiting_request_once() {
    let mut table: PendingRpcTable<u32> = PendingRpcTable::new();
    table.register(5, PendingRpcKind::Ack, 50);
    table.register(6, PendingRpcKind::GetSecret, 60);
    table.register(5, PendingRpcKind::Ack, 55);
    let mut drained = table.drain();
    drained.sort();
    assert_eq!(drained, vec![(5, 55), (6, 60)]);
    assert_eq!(table.len(), 0);
    assert!(!table.contains(5));
}

#[test]
fn deliver_and_fail_all_with_channels() {
    let mut table = PendingRpcTable::new();
    let (s1, r1) = mpsc::channel::<String>();
    let (s2, r2) = mpsc::channel::<String>();
    table.register(1, PendingRpcKind::ExecuteCommand, s1);
    table.register(2, PendingRpcKind::Ack, s2);

    let outcome = deliver_response(&mut table, 1, PendingRpcKind::ExecuteCommand, String::from("ok"), String::from("mismatch"));
    assert_eq!(outcome, DeliveryOutcome::Delivered { sent: true });
    assert_eq!(r1.recv().unwrap(), "ok");

    let unknown = deliver_response(&mut table, 9, PendingRpcKind::Ack, String::from("x"), String::from("y"));
    assert_eq!(unknown, DeliveryOutcome::UnknownRequest);

    assert_eq!(fail_all_pending_rpcs(&mut table, String::from("Disconnected from remote core")), 1);
    assert_eq!(r2.recv().unwrap(), "Disconnected from remote core");
    assert_eq!(table.len(), 0);

    let (s3, r3) = mpsc::channel::<String>();
    table.register(3, PendingRpcKind::Config, s3);
    let mismatched = deliver_response(&mut table, 3, PendingRpcKind::Ack, String::from("ack"), String::from("RPC response type mismatch"));
    assert_eq!(mismatched, DeliveryOutcome::Mismatched { sent: true });
    assert_eq!(r3.recv().unwrap(), "RPC response type mismatch");
}

#[test]
fn rpc_results_by_receipt() {
    assert_eq!(rpc_result(PendingRpcKind::Ack, RpcReceipt::Reply(ReplyTag::Ack)).ok(), Some(ReplyTag::Ack));
    let e = rpc_result(PendingRpcKind::Ack, RpcReceipt::Reply(ReplyTag::Config)).unwrap_err();
    assert_eq!(e.message, UNEXPECTED_RESPONSE);
    assert_eq!(e.kind, ErrorKind::Other);
    let e = rpc_result(
        PendingRpcKind::Config,
        RpcReceipt::ServerError { code: String::from("NotFound"), message: String::from("no such file") },
    )
    .unwrap_err();
    assert_eq!(e.message, "NotFound: no such file");
    let e = rpc_result(PendingRpcKind::Config, RpcReceipt::NoReply(String::from("timed out"))).unwrap_err();
    assert_eq!(e.kind, ErrorKind::ConnectionFailed);
    assert_eq!(e.message, "timed out");
}

#[test]
fn response_routed_to_its_request() {
    let mut table: PendingRpcTable<u8> = PendingRpcTable::new();
    table.register(1, PendingRpcKind::ExecuteCommand, 10);
    table.register(2, PendingRpcKind::Ack, 20);
    let r = route_response(&mut table, 1, PendingRpcKind::ExecuteCommand, "reply", "mismatch").unwrap();
    assert_eq!((r.sender, r.value, r.matched), (10, "reply", true));
    let r = route_response(&mut table, 2, PendingRpcKind::ExecuteCommand, "reply", "mismatch").unwrap();
    assert_eq!((r.sender, r.value, r.matched), (20, "mismatch", false));
    assert!(route_response(&mut table, 2, PendingRpcKind::Ack, "reply", "mismatch").is_none());
    assert_eq!(table.len(), 0);
}

#[test]
fn every_waiting_request_gets_the_failure() {
    let mut table: PendingRpcTable<u8> = PendingRpcTable::new();
    table.register(5, PendingRpcKind::Ack, 50);
    table.register(6, PendingRpcKind::ExecuteCommand, 60);
    let mut notices = failure_notices(&mut table, &String::from("Disconnected"));
    notices.sort_by_key(|n| n.0);
    assert_eq!(
        notices,
        vec![(5, 50, String::from("Disconnected")), (6, 60, String::from("Disconnected"))]
    );
    assert_eq!(table.len(), 0);
}

#[test]
fn failure_reaches_receivers() {
    let (tx, rx) = mpsc::channel::<String>();
    let mut table = PendingRpcTable::new();
    table.register(1, PendingRpcKind::Ack, tx.clone());
    table.register(2, PendingRpcKind::Ack, tx);
    assert_eq!(fail_all_pending_rpcs(&mut table, String::from("gone")), 2);
    assert_eq!(rx.recv().unwrap(), "gone");
    assert_eq!(rx.recv().unwrap(), "gone");
}

#[test]
fn mismatch_reply_reaches_receiver() {
    let (tx, rx) = mpsc::channel::<String>();
    let mut table = PendingRpcTable::new();
    table.register(4, PendingRpcKind::Ack, tx);
    deliver_response(&mut table, 4, PendingRpcKind::ExecuteCommand, String::from("ok"), String::from("mismatch"));
    assert_eq!(rx.recv().unwrap(), "mismatch");
}

#[test]
fn ended_waits_leave_no_entry() {
    let mut table: PendingRpcTable<u8> = PendingRpcTable::new();
    table.register(1, PendingRpcKind::Ack, 10);
    table.register(2, PendingRpcKind::Ack, 20);
    let e = wait_timed_out(&mut table, 1, "timed out waiting on channel");
    assert_eq!(e.kind, ErrorKind::ConnectionFailed);
    assert_eq!(e.message, "timed out waiting on channel");
    assert!(!table.contains(1));
    let (sender, e) = wait_not_sent(&mut table, 2, "Not connected to remote core");
    assert_eq!(sender, Some(20));
    assert_eq!(e.kind, ErrorKind::ConnectionFailed);
    assert_eq!(table.len(), 0);
    assert_eq!(RESPONSE_TYPE_MISMATCH, "RPC response type mismatch");
}
