use maelstrom_node::codec::{frame_broadcast_body, i64_to_string, parse_request, MlstError};
use maelstrom_node::proto::MlstBodyBaseReq;

#[test]
fn decimal_small() {
    assert_eq!(i64_to_string(0), "0");
    assert_eq!(i64_to_string(9), "9");
    assert_eq!(i64_to_string(10), "10");
    assert_eq!(i64_to_string(123456789), "123456789");
}

#[test]
fn decimal_negative() {
    assert_eq!(i64_to_string(-1), "-1");
    assert_eq!(i64_to_string(-9042), "-9042");
    assert_eq!(i64_to_string(i64::MIN), "-9223372036854775808");
    assert_eq!(i64_to_string(i64::MAX), "9223372036854775807");
}

#[test]
fn framed_body_exact() {
    assert_eq!(
        frame_broadcast_body(5, 42),
        "{\"msg_id\":5,\"type\":\"broadcast\",\"message\":42}"
    );
    assert_eq!(
        frame_broadcast_body(17, -7),
        "{\"msg_id\":17,\"type\":\"broadcast\",\"message\":-7}"
    );
}

#[test]
fn framed_body_is_valid_json() {
    let body = frame_broadcast_body(3, 99);
    let doc: serde_json::Value = serde_json::from_str(&body).unwrap();
    assert_eq!(doc["msg_id"].as_i64(), Some(3));
    assert_eq!(doc["type"].as_str(), Some("broadcast"));
    assert_eq!(doc["message"].as_i64(), Some(99));
}

#[test]
fn parse_init() {
    let line = "{\"src\":\"c1\",\"dest\":\"n1\",\"body\":{\"type\":\"init\",\"msg_id\":1,\
                \"node_id\":\"n1\",\"node_ids\":[\"n1\",\"n2\"]}}";
    let req = parse_request(line).unwrap();
    assert_eq!(req.src, "c1");
    assert_eq!(req.dest, "n1");
    assert_eq!(req.id, None);
    match req.body {
        MlstBodyBaseReq::Init(b) => {
            assert_eq!(b.msg_id, 1);
            assert_eq!(b.node_id, "n1");
            assert_eq!(b.node_ids, vec!["n1".to_string(), "n2".to_string()]);
        }
        _ => panic!("wrong kind"),
    }
}

#[test]
fn parse_echo() {
    let line = "{\"id\":12,\"src\":\"c1\",\"dest\":\"n1\",\"body\":{\"type\":\"echo\",\
                \"msg_id\":7,\"echo\":\"hi\"}}";
    let req = parse_request(line).unwrap();
    assert_eq!(req.id, Some(12));
    match req.body {
        MlstBodyBaseReq::Echo(b) => {
            assert_eq!(b.msg_id, 7);
            assert_eq!(b.echo, "hi");
        }
        _ => panic!("wrong kind"),
    }
}

#[test]
fn parse_broadcast_and_ack() {
    let line = "{\"src\":\"c1\",\"dest\":\"n1\",\"body\":{\"type\":\"broadcast\",\"msg_id\":4,\
                \"message\":42}}";
    let req = parse_request(line).unwrap();
    match req.body {
        MlstBodyBaseReq::Broadcast(b) => {
            assert_eq!(b.msg_id, 4);
            assert_eq!(b.message, 42);
        }
        _ => panic!("wrong kind"),
    }
    let line = "{\"src\":\"n2\",\"dest\":\"n1\",\"body\":{\"type\":\"broadcast_ok\",\
                \"msg_id\":9,\"in_reply_to\":4}}";
    let req = parse_request(line).unwrap();
    match req.body {
        MlstBodyBaseReq::BroadcastOk(b) => {
            assert_eq!(b.msg_id, 9);
            assert_eq!(b.in_reply_to, 4);
        }
        _ => panic!("wrong kind"),
    }
}

#[test]
fn parse_topology_and_read() {
    let line = "{\"src\":\"c1\",\"dest\":\"a\",\"body\":{\"type\":\"topology\",\"msg_id\":2,\
                \"topology\":{\"a\":[\"b\",\"c\"],\"b\":[\"a\",\"c\"],\"c\":[\"a\",\"b\"]}}}";
    let req = parse_request(line).unwrap();
    match req.body {
        MlstBodyBaseReq::Topology(b) => {
            assert_eq!(b.msg_id, 2);
            let mut rows = b.topology.clone();
            rows.sort_by(|x, y| x.0.cmp(&y.0));
            assert_eq!(rows.len(), 3);
            assert_eq!(rows[0].0, "a");
            assert_eq!(rows[0].1, vec!["b".to_string(), "c".to_string()]);
            assert_eq!(rows[1].0, "b");
            assert_eq!(rows[1].1, vec!["a".to_string(), "c".to_string()]);
        }
        _ => panic!("wrong kind"),
    }
    let line = "{\"src\":\"c1\",\"dest\":\"a\",\"body\":{\"type\":\"read\",\"msg_id\":3}}";
    let req = parse_request(line).unwrap();
    match req.body {
        MlstBodyBaseReq::Read(b) => assert_eq!(b.msg_id, 3),
        _ => panic!("wrong kind"),
    }
}

#[test]
fn parse_malformed() {
    assert!(matches!(
        parse_request("this is not json"),
        Err(MlstError::MalformedEnvelope)
    ));
    assert!(matches!(
        parse_request("{\"dest\":\"n1\",\"body\":{\"type\":\"read\",\"msg_id\":3}}"),
        Err(MlstError::MalformedEnvelope)
    ));
    assert!(matches!(
        parse_request("{\"src\":\"c1\",\"dest\":\"n1\",\"body\":{\"type\":\"echo\",\"msg_id\":7}}"),
        Err(MlstError::MalformedEnvelope)
    ));
    assert!(matches!(
        parse_request("{\"src\":\"c1\",\"dest\":\"n1\",\"body\":{\"msg_id\":7}}"),
        Err(MlstError::MalformedEnvelope)
    ));
}

#[test]
fn parse_unknown_type() {
    assert!(matches!(
        parse_request(
            "{\"src\":\"c1\",\"dest\":\"n1\",\"body\":{\"type\":\"replicate\",\"msg_id\":7}}"
        ),
        Err(MlstError::UnknownMessageType)
    ));
}
