use maelstrom_node::dedup::DedupStore;
use maelstrom_node::ledger::{DeliveryLedger, MsgCached, MsgCachedKey};
use maelstrom_node::node::MlstService;
use maelstrom_node::proto::{MlstAckBodyReq, MlstBodyBaseResp, MlstBodyReqBroadcast,
    MlstBodyReqEcho, MlstBodyReqInit, MlstBodyReqRead, MlstBodyReqTopology, MlstBodyType,
    MlstComm};

fn init_node(id: &str) -> MlstService {
    let mut service = MlstService::new();
    let out = service.process_init(
        Some(1),
        "c0".to_string(),
        MlstBodyReqInit {
            msg_id: 1,
            node_id: id.to_string(),
            node_ids: vec!["a".to_string(), "b".to_string(), "c".to_string()],
        },
    );
    assert_eq!(out.len(), 1);
    match &out[0].body {
        MlstBodyType::Resp(r) => match &r.body {
            MlstBodyBaseResp::Init(b) => assert_eq!(b.msg_type, "init_ok"),
            _ => panic!("wrong reply kind"),
        },
        MlstBodyType::Comm(_) => panic!("expected a response"),
    }
    service
}

fn full_topology() -> Vec<(String, Vec<String>)> {
    vec![
        ("a".to_string(), vec!["b".to_string(), "c".to_string()]),
        ("b".to_string(), vec!["a".to_string(), "c".to_string()]),
        ("c".to_string(), vec!["a".to_string(), "b".to_string()]),
    ]
}

fn set_topology(service: &mut MlstService) {
    let out = service.process_topology(
        Some(2),
        "c0".to_string(),
        &MlstBodyReqTopology { msg_id: 2, topology: full_topology() },
    );
    assert_eq!(out.len(), 1);
}

/// Feeds a relayed broadcast envelope to the node it addresses, the way the
/// transport would: the framed body is decoded and dispatched with no
/// envelope id, since a peer relay expects no reply.
fn deliver_relay(to: &mut MlstService, envelope: &MlstComm) -> Vec<MlstComm> {
    match &envelope.body {
        MlstBodyType::Comm(raw) => {
            let doc: serde_json::Value = serde_json::from_str(raw).unwrap();
            assert_eq!(doc["type"].as_str().unwrap(), "broadcast");
            let body = MlstBodyReqBroadcast {
                msg_id: doc["msg_id"].as_i64().unwrap(),
                message: doc["message"].as_i64().unwrap(),
            };
            to.process_broadcast(None, envelope.src.clone(), &body)
        }
        MlstBodyType::Resp(_) => panic!("not a relay"),
    }
}

#[test]
fn echo_round_trip() {
    let mut node = init_node("n1");
    let out = node.process_echo(
        Some(5),
        "c1".to_string(),
        MlstBodyReqEcho { msg_id: 20, echo: "hi".to_string() },
    );
    assert_eq!(out.len(), 1);
    assert_eq!(out[0].src, "n1");
    assert_eq!(out[0].dest, "c1");
    match &out[0].body {
        MlstBodyType::Resp(r) => {
            assert_eq!(r.in_reply_to, 20);
            match &r.body {
                MlstBodyBaseResp::Echo(b) => {
                    assert_eq!(b.msg_type, "echo_ok");
                    assert_eq!(b.echo, "hi");
                }
                _ => panic!("wrong reply kind"),
            }
        }
        MlstBodyType::Comm(_) => panic!("expected a response"),
    }
    assert!(node.get_messages().is_empty());
    assert_eq!(node.get_pending_ack_ids().len(), 0);
}

#[test]
fn three_node_convergence() {
    let mut a = init_node("a");
    let mut b = init_node("b");
    let mut c = init_node("c");
    set_topology(&mut a);
    set_topology(&mut b);
    set_topology(&mut c);

    let out = a.process_broadcast(
        Some(77),
        "c1".to_string(),
        &MlstBodyReqBroadcast { msg_id: 10, message: 42 },
    );
    assert_eq!(out.len(), 3);
    assert_eq!(out[0].dest, "b");
    assert_eq!(out[1].dest, "c");
    match &out[2].body {
        MlstBodyType::Resp(r) => {
            assert_eq!(r.in_reply_to, 10);
            match &r.body {
                MlstBodyBaseResp::Broadcast(bb) => assert_eq!(bb.msg_type, "broadcast_ok"),
                _ => panic!("wrong reply kind"),
            }
        }
        MlstBodyType::Comm(_) => panic!("expected the client reply"),
    }

    let out_b = deliver_relay(&mut b, &out[0]);
    let out_c = deliver_relay(&mut c, &out[1]);
    assert_eq!(out_b.len(), 1);
    assert_eq!(out_b[0].dest, "c");
    assert_eq!(out_c.len(), 1);
    assert_eq!(out_c[0].dest, "b");

    let out_c2 = deliver_relay(&mut c, &out_b[0]);
    let out_b2 = deliver_relay(&mut b, &out_c[0]);
    assert!(out_c2.is_empty());
    assert!(out_b2.is_empty());

    assert_eq!(a.get_messages(), vec![42]);
    assert_eq!(b.get_messages(), vec![42]);
    assert_eq!(c.get_messages(), vec![42]);

    let retry = a.repeat_unacked();
    assert_eq!(retry.len(), 2);
    for envelope in &retry {
        if envelope.dest == "b" {
            assert!(deliver_relay(&mut b, envelope).is_empty());
        } else {
            assert_eq!(envelope.dest, "c");
            assert!(deliver_relay(&mut c, envelope).is_empty());
        }
    }
    assert_eq!(a.get_messages(), vec![42]);
    assert_eq!(b.get_messages(), vec![42]);
    assert_eq!(c.get_messages(), vec![42]);

    for node in [&mut b, &mut c] {
        let out = node.process_read(Some(5), "c1".to_string(), MlstBodyReqRead { msg_id: 50 });
        match &out[0].body {
            MlstBodyType::Resp(r) => match &r.body {
                MlstBodyBaseResp::Read(body) => assert_eq!(body.messages, vec![42]),
                _ => panic!("wrong reply kind"),
            },
            MlstBodyType::Comm(_) => panic!("expected a response"),
        }
    }
}

#[test]
fn broadcast_idempotent() {
    let mut a = init_node("a");
    set_topology(&mut a);
    let first = a.process_broadcast(
        Some(7),
        "c1".to_string(),
        &MlstBodyReqBroadcast { msg_id: 10, message: 42 },
    );
    assert_eq!(first.len(), 3);
    let second = a.process_broadcast(
        None,
        "b".to_string(),
        &MlstBodyReqBroadcast { msg_id: 11, message: 42 },
    );
    assert!(second.is_empty());
    let third = a.process_broadcast(
        Some(8),
        "c1".to_string(),
        &MlstBodyReqBroadcast { msg_id: 12, message: 42 },
    );
    assert!(third.is_empty());
    assert_eq!(a.get_messages(), vec![42]);
}

#[test]
fn no_relay_back_to_sender() {
    let mut b = init_node("b");
    set_topology(&mut b);
    let out = b.process_broadcast(
        None,
        "a".to_string(),
        &MlstBodyReqBroadcast { msg_id: 4, message: 7 },
    );
    assert_eq!(out.len(), 1);
    assert_eq!(out[0].dest, "c");
    for envelope in &out {
        assert_ne!(envelope.dest, "a");
    }
}

#[test]
fn ledger_retry_and_acknowledge() {
    let mut node = init_node("a");
    let id1 = node.next_msg_id();
    node.await_communicate(id1, "b".to_string(), "payload-one".to_string());
    let id2 = node.next_msg_id();
    node.await_communicate(id2, "c".to_string(), "payload-two".to_string());

    let pass = node.repeat_unacked();
    assert_eq!(pass.len(), 2);
    assert_eq!(pass[0].src, "a");
    assert_eq!(pass[0].dest, "b");
    match &pass[0].body {
        MlstBodyType::Comm(s) => assert_eq!(s, "payload-one"),
        MlstBodyType::Resp(_) => panic!("expected a cached body"),
    }
    assert_eq!(pass[1].dest, "c");
    match &pass[1].body {
        MlstBodyType::Comm(s) => assert_eq!(s, "payload-two"),
        MlstBodyType::Resp(_) => panic!("expected a cached body"),
    }

    node.process_broadcast_ok(
        None,
        "b".to_string(),
        &MlstAckBodyReq { msg_id: 1, in_reply_to: id1 },
    );
    let pass = node.repeat_unacked();
    assert_eq!(pass.len(), 1);
    assert_eq!(pass[0].dest, "c");

    node.process_broadcast_ok(
        None,
        "b".to_string(),
        &MlstAckBodyReq { msg_id: 2, in_reply_to: id1 },
    );
    node.process_broadcast_ok(
        None,
        "x".to_string(),
        &MlstAckBodyReq { msg_id: 3, in_reply_to: 9999 },
    );
    assert_eq!(node.repeat_unacked().len(), 1);
}

#[test]
fn broadcast_tracks_every_relay() {
    let mut a = init_node("a");
    set_topology(&mut a);
    let out = a.process_broadcast(
        None,
        "c".to_string(),
        &MlstBodyReqBroadcast { msg_id: 4, message: 5 },
    );
    assert_eq!(out.len(), 1);
    assert_eq!(out[0].dest, "b");
    let retry = a.repeat_unacked();
    assert_eq!(retry.len(), 1);
    assert_eq!(retry[0].dest, "b");
    match (&retry[0].body, &out[0].body) {
        (MlstBodyType::Comm(resent), MlstBodyType::Comm(sent)) => assert_eq!(resent, sent),
        _ => panic!("expected cached bodies"),
    }
}

#[test]
fn topology_scoped_to_one_node() {
    let mut a = init_node("a");
    let mut b = init_node("b");
    set_topology(&mut a);
    assert_eq!(a.get_neighbor_ids(), vec!["b".to_string(), "c".to_string()]);
    assert!(b.get_neighbor_ids().is_empty());
    assert!(a.get_messages().is_empty());
    assert_eq!(a.get_pending_ack_ids().len(), 0);
}

#[test]
fn read_reports_applied_values() {
    let mut a = init_node("a");
    set_topology(&mut a);
    a.process_broadcast(None, "b".to_string(), &MlstBodyReqBroadcast { msg_id: 1, message: 3 });
    a.process_broadcast(None, "b".to_string(), &MlstBodyReqBroadcast { msg_id: 2, message: 5 });
    let out = a.process_read(Some(9), "c1".to_string(), MlstBodyReqRead { msg_id: 30 });
    assert_eq!(out.len(), 1);
    match &out[0].body {
        MlstBodyType::Resp(r) => {
            assert_eq!(r.in_reply_to, 30);
            match &r.body {
                MlstBodyBaseResp::Read(b) => {
                    assert_eq!(b.msg_type, "read_ok");
                    assert_eq!(b.messages, vec![3, 5]);
                }
                _ => panic!("wrong reply kind"),
            }
        }
        MlstBodyType::Comm(_) => panic!("expected a response"),
    }
}

#[test]
fn dedup_store_holds_each_value_once() {
    let mut store = DedupStore::new();
    assert!(!store.contains(4));
    store.insert(4);
    store.insert(4);
    store.insert(6);
    assert!(store.contains(4));
    assert!(store.contains(6));
    assert!(!store.contains(5));
    assert_eq!(store.len(), 2);
    assert_eq!(store.snapshot(), vec![4, 6]);
}

#[test]
fn ledger_last_write_wins() {
    let mut ledger = DeliveryLedger::new();
    ledger.track(
        MsgCachedKey { msg_id: 1, dest: "b".to_string() },
        MsgCached { msg_str: "first".to_string() },
    );
    ledger.track(
        MsgCachedKey { msg_id: 1, dest: "b".to_string() },
        MsgCached { msg_str: "second".to_string() },
    );
    assert_eq!(ledger.len(), 1);
    let pending = ledger.all_pending();
    assert_eq!(pending[0].0, "b");
    assert_eq!(pending[0].1, "second");
    ledger.acknowledge(1, &"c".to_string());
    assert_eq!(ledger.len(), 1);
    ledger.acknowledge(1, &"b".to_string());
    assert_eq!(ledger.len(), 0);
}
