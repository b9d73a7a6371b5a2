//! The envelope codec. Decoding leans on serde_json to turn a line of text
//! into a structured value and then reads the envelope fields out of it;
//! encoding of the relayed broadcast body is done here directly, so the ledger
//! caches the exact text that goes on the wire.

use vstd::prelude::*;
use vstd::string::StringExecFns;
use crate::proto::{BodyView, MlstAckBodyReq, MlstBodyBaseReq, MlstBodyReqBroadcast,
    MlstBodyReqEcho, MlstBodyReqInit, MlstBodyReqRead, MlstBodyReqTopology, MlstReq, NodeId,
    ReqView};

verus! {

/// Why an inbound line was dropped.
#[derive(Debug)]
pub enum MlstError {
    /// A required field is absent or the body is not a keyed structure.
    MalformedEnvelope,
    /// The body's `type` names no kind this node handles.
    UnknownMessageType,
}

/// The decimal digit `d` as a character.
pub open spec fn digit_char(d: int) -> char {
    if d == 0 {
        '0'
    } else if d == 1 {
        '1'
    } else if d == 2 {
        '2'
    } else if d == 3 {
        '3'
    } else if d == 4 {
        '4'
    } else if d == 5 {
        '5'
    } else if d == 6 {
        '6'
    } else if d == 7 {
        '7'
    } else if d == 8 {
        '8'
    } else {
        '9'
    }
}

/// The decimal digits of `n`, most significant first.
pub open spec fn dec_digits(n: nat) -> Seq<char>
    decreases n,
{
    if n < 10 {
        seq![digit_char(n as int)]
    } else {
        dec_digits(n / 10).push(digit_char((n % 10) as int))
    }
}

/// The decimal text of `n`, with a leading minus sign when negative.
pub open spec fn dec_int(n: int) -> Seq<char> {
    if n < 0 {
        seq!['-'] + dec_digits((-n) as nat)
    } else {
        dec_digits(n as nat)
    }
}

/// The framed body of a relayed broadcast: the send's own id and the value.
pub open spec fn spec_broadcast_body(msg_id: int, message: int) -> Seq<char> {
    "{\"msg_id\":"@ + dec_int(msg_id) + ",\"type\":\"broadcast\",\"message\":"@ + dec_int(message)
        + "}"@
}

/// The decimal digit `d` as a one-character string.
fn digit_str(d: u64) -> (r: &'static str)
    requires
        d < 10,
    ensures
        r@ =~= seq![digit_char(d as int)],
{
    proof {
        reveal_strlit("0");
        reveal_strlit("1");
        reveal_strlit("2");
        reveal_strlit("3");
        reveal_strlit("4");
        reveal_strlit("5");
        reveal_strlit("6");
        reveal_strlit("7");
        reveal_strlit("8");
        reveal_strlit("9");
    }
    match d {
        0 => "0",
        1 => "1",
        2 => "2",
        3 => "3",
        4 => "4",
        5 => "5",
        6 => "6",
        7 => "7",
        8 => "8",
        _ => "9",
    }
}

/// Appends the decimal digits of `n` to `out`.
fn push_digits(n: u64, out: &mut String)
    ensures
        final(out)@ == old(out)@ + dec_digits(n as nat),
    decreases n,
{
    if n < 10 {
        out.append(digit_str(n));
        proof {
            assert(final(out)@ =~= old(out)@ + dec_digits(n as nat));
        }
    } else {
        proof {
            assert(n as int / 10 < n as int) by (nonlinear_arith)
                requires
                    n >= 10,
            ;
        }
        push_digits(n / 10, out);
        out.append(digit_str(n % 10));
        proof {
            assert(final(out)@ =~= old(out)@ + dec_digits(n as nat));
        }
    }
}

/// The decimal text of `n`.
pub fn i64_to_string(n: i64) -> (r: String)
    ensures
        r@ == dec_int(n as int),
{
    let mut s = String::new();
    if n < 0 {
        s.append("-");
        proof {
            reveal_strlit("-");
        }
        let m: u64 = if n == i64::MIN {
            9223372036854775808u64
        } else {
            (-n) as u64
        };
        proof {
            assert(m as int == -(n as int));
        }
        push_digits(m, &mut s);
        proof {
            assert(s@ =~= dec_int(n as int));
        }
    } else {
        push_digits(n as u64, &mut s);
        proof {
            assert(s@ =~= dec_int(n as int));
        }
    }
    s
}

/// Frames the body of a relayed broadcast as wire text.
pub fn frame_broadcast_body(msg_id: i64, message: i64) -> (r: String)
    ensures
        r@ == spec_broadcast_body(msg_id as int, message as int),
{
    let mut s = String::new();
    s.append("{\"msg_id\":");
    let id_text = i64_to_string(msg_id);
    s.append(id_text.as_str());
    s.append(",\"type\":\"broadcast\",\"message\":");
    let value_text = i64_to_string(message);
    s.append(value_text.as_str());
    s.append("}");
    proof {
        assert(s@ =~= spec_broadcast_body(msg_id as int, message as int));
    }
    s
}

/// The library's own picture of a decoded JSON document: exactly what the
/// protocol reads. A boolean, a float or an integer outside i64 plays no
/// part in any envelope, so all of those decode to `Other`.
pub enum JsonDoc {
    Null,
    Int(i64),
    Text(String),
    Items(Vec<JsonDoc>),
    Entries(Vec<(String, JsonDoc)>),
    Other,
}

/// The decoded form of a line of wire text: None for text that is not
/// well-formed JSON. The decode is a function of the text alone; what it is
/// on given text only the trusted decoder below says.
pub uninterp spec fn json_doc_of(s: Seq<char>) -> Option<JsonDoc>;

#[verifier::external_type_specification]
#[verifier::external_body]
pub struct ExJsonValue(serde_json::Value);

/// Relies on serde_json::Value's variants and serde_json::Number::as_i64:
/// converts a decoded value into the library's tree, variant for variant,
/// moving fields only. serde_json parses at most 128 levels deep, so this
/// recursion is bounded.
#[verifier::external_body]
fn json_to_doc(v: &serde_json::Value) -> JsonDoc {
    match v {
        serde_json::Value::Null => JsonDoc::Null,
        serde_json::Value::Bool(_) => JsonDoc::Other,
        serde_json::Value::Number(n) => match n.as_i64() {
            Some(i) => JsonDoc::Int(i),
            None => JsonDoc::Other,
        },
        serde_json::Value::String(s) => JsonDoc::Text(s.clone()),
        serde_json::Value::Array(items) => JsonDoc::Items(items.iter().map(json_to_doc).collect()),
        serde_json::Value::Object(entries) => JsonDoc::Entries(
            entries.iter().map(|(k, v)| (k.clone(), json_to_doc(v))).collect(),
        ),
    }
}

/// Relies on serde_json::from_str::<serde_json::Value>: decodes one JSON
/// document from text, or fails on text that is not well-formed JSON. The
/// result depends on the text alone, so it carries the name `json_doc_of`.
#[verifier::external_body]
fn json_parse(s: &str) -> (r: Option<JsonDoc>)
    ensures
        r == json_doc_of(s@),
{
    match serde_json::from_str::<serde_json::Value>(s) {
        Ok(v) => Some(json_to_doc(&v)),
        Err(_) => None,
    }
}

/// The value under `key`, first match first; a document's keys are unique,
/// serde_json keeping one entry per key.
pub open spec fn doc_lookup(entries: Seq<(String, JsonDoc)>, key: Seq<char>) -> Option<JsonDoc>
    decreases entries.len(),
{
    if entries.len() == 0 {
        None
    } else if entries[0].0@ == key {
        Some(entries[0].1)
    } else {
        doc_lookup(entries.drop_first(), key)
    }
}

/// The value under `key` of a keyed document; anything else has no fields.
pub open spec fn doc_field(doc: JsonDoc, key: Seq<char>) -> Option<JsonDoc> {
    match doc {
        JsonDoc::Entries(entries) => doc_lookup(entries@, key),
        _ => None,
    }
}

/// The text under `key`, if the field holds a string.
pub open spec fn spec_text_field(doc: JsonDoc, key: Seq<char>) -> Option<Seq<char>> {
    match doc_field(doc, key) {
        Some(JsonDoc::Text(s)) => Some(s@),
        _ => None,
    }
}

/// The integer under `key`, if the field holds one.
pub open spec fn spec_int_field(doc: JsonDoc, key: Seq<char>) -> Option<i64> {
    match doc_field(doc, key) {
        Some(JsonDoc::Int(i)) => Some(i),
        _ => None,
    }
}

/// The integer under an optional `key`: absent or null reads as None, an
/// integer as itself, anything else is malformed.
pub open spec fn spec_opt_int_field(doc: JsonDoc, key: Seq<char>) -> Result<
    Option<i64>,
    MlstError,
> {
    match doc_field(doc, key) {
        None => Ok(None),
        Some(JsonDoc::Null) => Ok(None),
        Some(JsonDoc::Int(i)) => Ok(Some(i)),
        Some(_) => Err(MlstError::MalformedEnvelope),
    }
}

/// The texts of a list whose items are all strings; None otherwise.
pub open spec fn spec_text_items(items: Seq<JsonDoc>) -> Option<Seq<Seq<char>>>
    decreases items.len(),
{
    if items.len() == 0 {
        Some(Seq::empty())
    } else {
        match items[0] {
            JsonDoc::Text(s) => match spec_text_items(items.drop_first()) {
                Some(rest) => Some(seq![s@] + rest),
                None => None,
            },
            _ => None,
        }
    }
}

/// The adjacency rows of a keyed document whose values are all lists of
/// strings; None otherwise.
pub open spec fn spec_row_entries(entries: Seq<(String, JsonDoc)>) -> Option<
    Seq<(Seq<char>, Seq<Seq<char>>)>,
>
    decreases entries.len(),
{
    if entries.len() == 0 {
        Some(Seq::empty())
    } else {
        match entries[0].1 {
            JsonDoc::Items(items) => match (spec_text_items(items@), spec_row_entries(
                entries.drop_first(),
            )) {
                (Some(row), Some(rest)) => Some(seq![(entries[0].0@, row)] + rest),
                _ => None,
            },
            _ => None,
        }
    }
}

/// What a request body decodes to: the typed body of its kind, read field by
/// field; `MalformedEnvelope` when a required field is absent or of the
/// wrong shape, `UnknownMessageType` when `type` names no kind this node
/// handles.
pub open spec fn spec_body(body: JsonDoc) -> Result<BodyView, MlstError> {
    match spec_text_field(body, "type"@) {
        None => Err(MlstError::MalformedEnvelope),
        Some(kind) => if kind == "init"@ {
            match (
                spec_int_field(body, "msg_id"@),
                spec_text_field(body, "node_id"@),
                doc_field(body, "node_ids"@),
            ) {
                (Some(msg_id), Some(node_id), Some(JsonDoc::Items(items))) => match spec_text_items(
                    items@,
                ) {
                    Some(node_ids) => Ok(BodyView::Init { msg_id, node_id, node_ids }),
                    None => Err(MlstError::MalformedEnvelope),
                },
                _ => Err(MlstError::MalformedEnvelope),
            }
        } else if kind == "echo"@ {
            match (spec_int_field(body, "msg_id"@), spec_text_field(body, "echo"@)) {
                (Some(msg_id), Some(echo)) => Ok(BodyView::Echo { msg_id, echo }),
                _ => Err(MlstError::MalformedEnvelope),
            }
        } else if kind == "topology"@ {
            match (spec_int_field(body, "msg_id"@), doc_field(body, "topology"@)) {
                (Some(msg_id), Some(JsonDoc::Entries(entries))) => match spec_row_entries(
                    entries@,
                ) {
                    Some(rows) => Ok(BodyView::Topology { msg_id, rows }),
                    None => Err(MlstError::MalformedEnvelope),
                },
                _ => Err(MlstError::MalformedEnvelope),
            }
        } else if kind == "broadcast"@ {
            match (spec_int_field(body, "msg_id"@), spec_int_field(body, "message"@)) {
                (Some(msg_id), Some(message)) => Ok(BodyView::Broadcast { msg_id, message }),
                _ => Err(MlstError::MalformedEnvelope),
            }
        } else if kind == "broadcast_ok"@ {
            match (spec_int_field(body, "msg_id"@), spec_int_field(body, "in_reply_to"@)) {
                (Some(msg_id), Some(in_reply_to)) => Ok(
                    BodyView::BroadcastOk { msg_id, in_reply_to },
                ),
                _ => Err(MlstError::MalformedEnvelope),
            }
        } else if kind == "read"@ {
            match spec_int_field(body, "msg_id"@) {
                Some(msg_id) => Ok(BodyView::Read { msg_id }),
                None => Err(MlstError::MalformedEnvelope),
            }
        } else {
            Err(MlstError::UnknownMessageType)
        },
    }
}

/// What a line of wire text decodes to: the typed envelope with its source,
/// destination, optional envelope id and body, or the error that drops it.
pub open spec fn spec_request(doc: Option<JsonDoc>) -> Result<ReqView, MlstError> {
    match doc {
        None => Err(MlstError::MalformedEnvelope),
        Some(d) => match (
            spec_text_field(d, "src"@),
            spec_text_field(d, "dest"@),
            spec_opt_int_field(d, "id"@),
            doc_field(d, "body"@),
        ) {
            (Some(src), Some(dest), Ok(id), Some(body)) => match spec_body(body) {
                Ok(b) => Ok(ReqView { id, src, dest, body: b }),
                Err(e) => Err(e),
            },
            _ => Err(MlstError::MalformedEnvelope),
        },
    }
}

/// Returns `true` when `s` reads as `lit`.
fn string_eq_lit(s: &String, lit: &str) -> (r: bool)
    ensures
        r == (s@ == lit@),
{
    s.eq(&lit.to_owned())
}

/// The entry under `key`, looked up as `doc_lookup` says.
fn doc_get<'a>(entries: &'a Vec<(String, JsonDoc)>, key: &str) -> (r: Option<&'a JsonDoc>)
    ensures
        match r {
            Some(d) => doc_lookup(entries@, key@) == Some(*d),
            None => doc_lookup(entries@, key@) is None,
        },
{
    let mut i: usize = 0;
    proof {
        assert(entries@.skip(0) =~= entries@);
    }
    while i < entries.len()
        invariant
            0 <= i <= entries@.len(),
            doc_lookup(entries@, key@) == doc_lookup(entries@.skip(i as int), key@),
        decreases entries@.len() - i,
    {
        proof {
            assert(entries@.skip(i as int)[0] == entries@[i as int]);
        }
        if string_eq_lit(&entries[i].0, key) {
            return Some(&entries[i].1);
        }
        proof {
            assert(entries@.skip(i as int).drop_first() =~= entries@.skip(i as int + 1));
        }
        i += 1;
    }
    proof {
        assert(entries@.skip(i as int).len() == 0);
    }
    None
}

/// The field under `key`, as `doc_field` says.
fn get_field<'a>(doc: &'a JsonDoc, key: &str) -> (r: Option<&'a JsonDoc>)
    ensures
        match r {
            Some(d) => doc_field(*doc, key@) == Some(*d),
            None => doc_field(*doc, key@) is None,
        },
{
    match doc {
        JsonDoc::Entries(entries) => doc_get(entries, key),
        _ => None,
    }
}

/// The text under `key`, as `spec_text_field` says.
fn get_text_field(doc: &JsonDoc, key: &str) -> (r: Option<String>)
    ensures
        match r {
            Some(s) => spec_text_field(*doc, key@) == Some(s@),
            None => spec_text_field(*doc, key@) is None,
        },
{
    match get_field(doc, key) {
        Some(JsonDoc::Text(s)) => Some(s.clone()),
        _ => None,
    }
}

/// The integer under `key`, as `spec_int_field` says.
fn get_int_field(doc: &JsonDoc, key: &str) -> (r: Option<i64>)
    ensures
        match r {
            Some(i) => spec_int_field(*doc, key@) == Some(i),
            None => spec_int_field(*doc, key@) is None,
        },
{
    match get_field(doc, key) {
        Some(JsonDoc::Int(i)) => Some(*i),
        _ => None,
    }
}

/// The optional integer under `key`, as `spec_opt_int_field` says.
fn get_opt_int_field(doc: &JsonDoc, key: &str) -> (r: Result<Option<i64>, MlstError>)
    ensures
        r == spec_opt_int_field(*doc, key@),
{
    match get_field(doc, key) {
        None => Ok(None),
        Some(JsonDoc::Null) => Ok(None),
        Some(JsonDoc::Int(i)) => Ok(Some(*i)),
        Some(_) => Err(MlstError::MalformedEnvelope),
    }
}

/// The strings of a list of items, as `spec_text_items` says.
fn parse_text_items(items: &Vec<JsonDoc>) -> (r: Option<Vec<String>>)
    ensures
        match r {
            Some(texts) => spec_text_items(items@) == Some(texts.deep_view()),
            None => spec_text_items(items@) is None,
        },
{
    let mut out: Vec<String> = Vec::new();
    let mut i: usize = 0;
    proof {
        assert(items@.skip(0) =~= items@);
        assert(out.deep_view() =~= Seq::<Seq<char>>::empty());
    }
    while i < items.len()
        invariant
            0 <= i <= items@.len(),
            out@.len() == i,
            match spec_text_items(items@.skip(i as int)) {
                Some(rest) => spec_text_items(items@) == Some(out.deep_view() + rest),
                None => spec_text_items(items@) is None,
            },
        decreases items@.len() - i,
    {
        proof {
            assert(items@.skip(i as int)[0] == items@[i as int]);
            assert(items@.skip(i as int).drop_first() =~= items@.skip(i as int + 1));
        }
        match &items[i] {
            JsonDoc::Text(s) => {
                let ghost prev = out.deep_view();
                out.push(s.clone());
                proof {
                    assert(out.deep_view() =~= prev.push(s@));
                    if spec_text_items(items@.skip(i as int + 1)) is Some {
                        let rest = spec_text_items(items@.skip(i as int + 1))->0;
                        assert(prev + (seq![s@] + rest) =~= out.deep_view() + rest);
                    }
                }
            },
            _ => {
                return None;
            },
        }
        i += 1;
    }
    proof {
        assert(items@.skip(i as int).len() == 0);
        assert(out.deep_view() + Seq::<Seq<char>>::empty() =~= out.deep_view());
    }
    Some(out)
}

/// The adjacency rows of a keyed document, as `spec_row_entries` says.
fn parse_rows(entries: &Vec<(String, JsonDoc)>) -> (r: Option<Vec<(NodeId, Vec<NodeId>)>>)
    ensures
        match r {
            Some(rows) => spec_row_entries(entries@) == Some(crate::proto::rows_view(rows@)),
            None => spec_row_entries(entries@) is None,
        },
{
    let mut out: Vec<(NodeId, Vec<NodeId>)> = Vec::new();
    let mut i: usize = 0;
    proof {
        assert(entries@.skip(0) =~= entries@);
        assert(crate::proto::rows_view(out@) =~= Seq::<(Seq<char>, Seq<Seq<char>>)>::empty());
    }
    while i < entries.len()
        invariant
            0 <= i <= entries@.len(),
            out@.len() == i,
            match spec_row_entries(entries@.skip(i as int)) {
                Some(rest) => spec_row_entries(entries@) == Some(
                    crate::proto::rows_view(out@) + rest,
                ),
                None => spec_row_entries(entries@) is None,
            },
        decreases entries@.len() - i,
    {
        proof {
            assert(entries@.skip(i as int)[0] == entries@[i as int]);
            assert(entries@.skip(i as int).drop_first() =~= entries@.skip(i as int + 1));
        }
        let row = match &entries[i].1 {
            JsonDoc::Items(items) => match parse_text_items(items) {
                Some(texts) => texts,
                None => {
                    return None;
                },
            },
            _ => {
                return None;
            },
        };
        let ghost prev = crate::proto::rows_view(out@);
        let ghost row_view = row.deep_view();
        let ghost key_view = entries@[i as int].0@;
        out.push((entries[i].0.clone(), row));
        proof {
            assert(crate::proto::rows_view(out@) =~= prev.push((key_view, row_view)));
            if spec_row_entries(entries@.skip(i as int + 1)) is Some {
                let rest = spec_row_entries(entries@.skip(i as int + 1))->0;
                assert(prev + (seq![(key_view, row_view)] + rest) =~= crate::proto::rows_view(out@)
                    + rest);
            }
        }
        i += 1;
    }
    proof {
        assert(entries@.skip(i as int).len() == 0);
        assert(crate::proto::rows_view(out@) + Seq::<(Seq<char>, Seq<Seq<char>>)>::empty()
            =~= crate::proto::rows_view(out@));
    }
    Some(out)
}

/// Reads a request body into its typed form, exactly as `spec_body` says.
fn parse_body(body: &JsonDoc) -> (r: Result<MlstBodyBaseReq, MlstError>)
    ensures
        match r {
            Ok(b) => spec_body(*body) == Ok::<BodyView, MlstError>(b@),
            Err(e) => spec_body(*body) == Err::<BodyView, MlstError>(e),
        },
{
    let kind = match get_text_field(body, "type") {
        Some(kind) => kind,
        None => {
            return Err(MlstError::MalformedEnvelope);
        },
    };
    if string_eq_lit(&kind, "init") {
        let msg_id = match get_int_field(body, "msg_id") {
            Some(v) => v,
            None => {
                return Err(MlstError::MalformedEnvelope);
            },
        };
        let node_id = match get_text_field(body, "node_id") {
            Some(v) => v,
            None => {
                return Err(MlstError::MalformedEnvelope);
            },
        };
        let node_ids = match get_field(body, "node_ids") {
            Some(JsonDoc::Items(items)) => match parse_text_items(items) {
                Some(v) => v,
                None => {
                    return Err(MlstError::MalformedEnvelope);
                },
            },
            _ => {
                return Err(MlstError::MalformedEnvelope);
            },
        };
        Ok(MlstBodyBaseReq::Init(MlstBodyReqInit { msg_id, node_id, node_ids }))
    } else if string_eq_lit(&kind, "echo") {
        let msg_id = match get_int_field(body, "msg_id") {
            Some(v) => v,
            None => {
                return Err(MlstError::MalformedEnvelope);
            },
        };
        let echo = match get_text_field(body, "echo") {
            Some(v) => v,
            None => {
                return Err(MlstError::MalformedEnvelope);
            },
        };
        Ok(MlstBodyBaseReq::Echo(MlstBodyReqEcho { msg_id, echo }))
    } else if string_eq_lit(&kind, "topology") {
        let msg_id = match get_int_field(body, "msg_id") {
            Some(v) => v,
            None => {
                return Err(MlstError::MalformedEnvelope);
            },
        };
        let topology = match get_field(body, "topology") {
            Some(JsonDoc::Entries(entries)) => match parse_rows(entries) {
                Some(v) => v,
                None => {
                    return Err(MlstError::MalformedEnvelope);
                },
            },
            _ => {
                return Err(MlstError::MalformedEnvelope);
            },
        };
        Ok(MlstBodyBaseReq::Topology(MlstBodyReqTopology { msg_id, topology }))
    } else if string_eq_lit(&kind, "broadcast") {
        let msg_id = match get_int_field(body, "msg_id") {
            Some(v) => v,
            None => {
                return Err(MlstError::MalformedEnvelope);
            },
        };
        let message = match get_int_field(body, "message") {
            Some(v) => v,
            None => {
                return Err(MlstError::MalformedEnvelope);
            },
        };
        Ok(MlstBodyBaseReq::Broadcast(MlstBodyReqBroadcast { msg_id, message }))
    } else if string_eq_lit(&kind, "broadcast_ok") {
        let msg_id = match get_int_field(body, "msg_id") {
            Some(v) => v,
            None => {
                return Err(MlstError::MalformedEnvelope);
            },
        };
        let in_reply_to = match get_int_field(body, "in_reply_to") {
            Some(v) => v,
            None => {
                return Err(MlstError::MalformedEnvelope);
            },
        };
        Ok(MlstBodyBaseReq::BroadcastOk(MlstAckBodyReq { msg_id, in_reply_to }))
    } else if string_eq_lit(&kind, "read") {
        let msg_id = match get_int_field(body, "msg_id") {
            Some(v) => v,
            None => {
                return Err(MlstError::MalformedEnvelope);
            },
        };
        Ok(MlstBodyBaseReq::Read(MlstBodyReqRead { msg_id }))
    } else {
        Err(MlstError::UnknownMessageType)
    }
}

/// Decodes one line of the transport into a typed inbound envelope, exactly
/// as `spec_request` says of the line's decoded document: a line that is no
/// JSON document, or misses a required field, is `MalformedEnvelope`; a body
/// whose `type` this node does not handle is `UnknownMessageType`.
pub fn parse_request(line: &str) -> (r: Result<MlstReq, MlstError>)
    ensures
        match r {
            Ok(req) => spec_request(json_doc_of(line@)) == Ok::<ReqView, MlstError>(req@),
            Err(e) => spec_request(json_doc_of(line@)) == Err::<ReqView, MlstError>(e),
        },
{
    let doc = match json_parse(line) {
        Some(doc) => doc,
        None => {
            return Err(MlstError::MalformedEnvelope);
        },
    };
    let src = match get_text_field(&doc, "src") {
        Some(v) => v,
        None => {
            return Err(MlstError::MalformedEnvelope);
        },
    };
    let dest = match get_text_field(&doc, "dest") {
        Some(v) => v,
        None => {
            return Err(MlstError::MalformedEnvelope);
        },
    };
    let id = match get_opt_int_field(&doc, "id") {
        Ok(v) => v,
        Err(e) => {
            return Err(e);
        },
    };
    let body_doc = match get_field(&doc, "body") {
        Some(d) => d,
        None => {
            return Err(MlstError::MalformedEnvelope);
        },
    };
    let body = match parse_body(body_doc) {
        Ok(b) => b,
        Err(e) => {
            return Err(e);
        },
    };
    Ok(MlstReq { id, src, dest, body })
}


} // verus!
