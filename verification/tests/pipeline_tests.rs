//! End-to-end runs through the codec and the dispatcher, the way the process
//! around the library drives them: one JSON line in, envelopes out.

use maelstrom_node::codec::parse_request;
use maelstrom_node::node::MlstService;
use maelstrom_node::proto::{MlstBodyBaseResp, MlstBodyType, MlstComm};

fn dispatch_line(service: &mut MlstService, line: &str) -> Vec<MlstComm> {
    let req = parse_request(line).unwrap();
    service.dispatch_request(req.id, req.src, req.dest, req.body)
}

fn relay_as_line(envelope: &MlstComm) -> String {
    match &envelope.body {
        MlstBodyType::Comm(raw) => format!(
            "{{\"src\":\"{}\",\"dest\":\"{}\",\"body\":{}}}",
            envelope.src, envelope.dest, raw
        ),
        MlstBodyType::Resp(_) => panic!("not a relay"),
    }
}

#[test]
fn pipeline_init_echo_broadcast_read() {
    let mut a = MlstService::new();
    let mut b = MlstService::new();

    let out = dispatch_line(
        &mut a,
        "{\"id\":1,\"src\":\"c0\",\"dest\":\"a\",\"body\":{\"type\":\"init\",\"msg_id\":1,\
         \"node_id\":\"a\",\"node_ids\":[\"a\",\"b\"]}}",
    );
    assert_eq!(out.len(), 1);
    let out = dispatch_line(
        &mut b,
        "{\"id\":1,\"src\":\"c0\",\"dest\":\"b\",\"body\":{\"type\":\"init\",\"msg_id\":1,\
         \"node_id\":\"b\",\"node_ids\":[\"a\",\"b\"]}}",
    );
    assert_eq!(out.len(), 1);

    let out = dispatch_line(
        &mut a,
        "{\"id\":2,\"src\":\"c0\",\"dest\":\"a\",\"body\":{\"type\":\"echo\",\"msg_id\":2,\
         \"echo\":\"hi\"}}",
    );
    match &out[0].body {
        MlstBodyType::Resp(r) => match &r.body {
            MlstBodyBaseResp::Echo(body) => {
                assert_eq!(body.msg_type, "echo_ok");
                assert_eq!(body.echo, "hi");
            }
            _ => panic!("wrong reply kind"),
        },
        MlstBodyType::Comm(_) => panic!("expected a response"),
    }

    for (node, line) in [
        (
            &mut a,
            "{\"id\":3,\"src\":\"c0\",\"dest\":\"a\",\"body\":{\"type\":\"topology\",\
             \"msg_id\":3,\"topology\":{\"a\":[\"b\"],\"b\":[\"a\"]}}}",
        ),
        (
            &mut b,
            "{\"id\":3,\"src\":\"c0\",\"dest\":\"b\",\"body\":{\"type\":\"topology\",\
             \"msg_id\":3,\"topology\":{\"a\":[\"b\"],\"b\":[\"a\"]}}}",
        ),
    ] {
        let out = dispatch_line(node, line);
        assert_eq!(out.len(), 1);
    }
    assert_eq!(a.get_neighbor_ids(), vec!["b".to_string()]);
    assert_eq!(b.get_neighbor_ids(), vec!["a".to_string()]);

    let out = dispatch_line(
        &mut a,
        "{\"id\":4,\"src\":\"c0\",\"dest\":\"a\",\"body\":{\"type\":\"broadcast\",\"msg_id\":9,\
         \"message\":42}}",
    );
    assert_eq!(out.len(), 2);
    assert_eq!(out[0].dest, "b");
    let relay_line = relay_as_line(&out[0]);
    let out_b = dispatch_line(&mut b, &relay_line);
    // The relay came over without an envelope id, so b answers nobody and,
    // with a as its only neighbor, relays to nobody either.
    assert!(out_b.is_empty());
    assert_eq!(b.get_messages(), vec![42]);

    let out = dispatch_line(
        &mut a,
        "{\"id\":5,\"src\":\"c0\",\"dest\":\"a\",\"body\":{\"type\":\"read\",\"msg_id\":11}}",
    );
    match &out[0].body {
        MlstBodyType::Resp(r) => match &r.body {
            MlstBodyBaseResp::Read(body) => assert_eq!(body.messages, vec![42]),
            _ => panic!("wrong reply kind"),
        },
        MlstBodyType::Comm(_) => panic!("expected a response"),
    }

    // b acknowledges a's pending relay; a's retry passes go quiet.
    assert_eq!(a.repeat_unacked().len(), 1);
    let ack_line = "{\"src\":\"b\",\"dest\":\"a\",\"body\":{\"type\":\"broadcast_ok\",\
                    \"msg_id\":7,\"in_reply_to\":4}}";
    let out = dispatch_line(&mut a, ack_line);
    assert!(out.is_empty());
    assert_eq!(a.repeat_unacked().len(), 0);
}
