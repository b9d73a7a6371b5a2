//! Wire protocol data: the message bodies a node receives and sends, and the
//! outbound envelope. A body's kind is carried by the enum variant; the
//! `msg_type` field of a response is the string that names the kind on the
//! wire.

use vstd::prelude::*;

verus! {

/// Identifier of a node in the cluster.
pub type NodeId = String;

/// Correlation id assigned by the sender of a request.
pub type MsgId = i64;

/// Envelope-level id carried by a client request; a peer relay has none.
pub type CommId = i64;

/// A value being disseminated by broadcast.
pub type MsgType = i64;

/// The wire name of a message kind, such as `"echo_ok"`.
pub type MsgTypeType = String;

/// Body of an `init` request: assigns this node its id.
pub struct MlstBodyReqInit {
    pub msg_id: MsgId,
    pub node_id: NodeId,
    pub node_ids: Vec<NodeId>,
}

/// Body of an `echo` request.
pub struct MlstBodyReqEcho {
    pub msg_id: MsgId,
    pub echo: String,
}

/// Body of a `topology` request: the full adjacency map, one row per node.
pub struct MlstBodyReqTopology {
    pub msg_id: MsgId,
    pub topology: Vec<(NodeId, Vec<NodeId>)>,
}

/// Body of a `broadcast` request: the value to disseminate.
pub struct MlstBodyReqBroadcast {
    pub msg_id: MsgId,
    pub message: MsgType,
}

/// Body of a `read` request.
pub struct MlstBodyReqRead {
    pub msg_id: MsgId,
}

/// Body of a `broadcast_ok` acknowledgment: `in_reply_to` names the send it
/// acknowledges.
pub struct MlstAckBodyReq {
    pub msg_id: MsgId,
    pub in_reply_to: MsgId,
}

/// Every request body a node dispatches on, keyed by message kind.
pub enum MlstBodyBaseReq {
    Init(MlstBodyReqInit),
    Echo(MlstBodyReqEcho),
    Topology(MlstBodyReqTopology),
    Broadcast(MlstBodyReqBroadcast),
    BroadcastOk(MlstAckBodyReq),
    Read(MlstBodyReqRead),
}

/// Body of an `init_ok` response.
pub struct MlstBodyRespInit {
    pub msg_type: MsgTypeType,
}

/// Body of an `echo_ok` response: echoes the request's `echo` field.
pub struct MlstBodyRespEcho {
    pub msg_type: MsgTypeType,
    pub echo: String,
}

/// Body of a `topology_ok` response.
pub struct MlstBodyRespTopology {
    pub msg_type: MsgTypeType,
}

/// Body of a `broadcast_ok` response.
pub struct MlstBodyRespBroadcast {
    pub msg_type: MsgTypeType,
}

/// Body of a `read_ok` response: every value this node has applied.
pub struct MlstBodyRespRead {
    pub msg_type: MsgTypeType,
    pub messages: Vec<MsgType>,
}

/// Every response body a node sends.
pub enum MlstBodyBaseResp {
    Init(MlstBodyRespInit),
    Echo(MlstBodyRespEcho),
    Topology(MlstBodyRespTopology),
    Broadcast(MlstBodyRespBroadcast),
    Read(MlstBodyRespRead),
}

/// A response body together with its correlation ids.
pub struct MlstBodyResp {
    pub body: MlstBodyBaseResp,
    pub msg_id: Option<MsgId>,
    pub in_reply_to: MsgId,
}

/// The correlation id of an outbound communication, if it expects a reply.
pub struct MlstBodyComm {
    pub msg_id: Option<MsgId>,
}

/// The body slot of an outbound envelope: either a typed response or a
/// relayed body already framed as wire text.
pub enum MlstBodyType {
    Resp(MlstBodyResp),
    Comm(String),
}

/// An outbound envelope: who sends, who receives, and the body.
pub struct MlstComm {
    pub src: NodeId,
    pub dest: NodeId,
    pub body: MlstBodyType,
}

/// A parsed inbound envelope.
pub struct MlstReq {
    pub id: Option<CommId>,
    pub src: NodeId,
    pub dest: NodeId,
    pub body: MlstBodyBaseReq,
}

/// The mathematical content of a request body: every field as the plain
/// value it carries.
pub enum BodyView {
    Init { msg_id: MsgId, node_id: Seq<char>, node_ids: Seq<Seq<char>> },
    Echo { msg_id: MsgId, echo: Seq<char> },
    Topology { msg_id: MsgId, rows: Seq<(Seq<char>, Seq<Seq<char>>)> },
    Broadcast { msg_id: MsgId, message: MsgType },
    BroadcastOk { msg_id: MsgId, in_reply_to: MsgId },
    Read { msg_id: MsgId },
}

/// The mathematical content of a parsed inbound envelope.
pub struct ReqView {
    pub id: Option<CommId>,
    pub src: Seq<char>,
    pub dest: Seq<char>,
    pub body: BodyView,
}

/// The content of an adjacency list: each row's key and neighbors as
/// character sequences.
pub open spec fn rows_view(rows: Seq<(NodeId, Vec<NodeId>)>) -> Seq<(Seq<char>, Seq<Seq<char>>)> {
    rows.map_values(|row: (NodeId, Vec<NodeId>)| (row.0@, row.1.deep_view()))
}

impl View for MlstBodyBaseReq {
    type V = BodyView;

    open spec fn view(&self) -> BodyView {
        match self {
            MlstBodyBaseReq::Init(b) => BodyView::Init {
                msg_id: b.msg_id,
                node_id: b.node_id@,
                node_ids: b.node_ids.deep_view(),
            },
            MlstBodyBaseReq::Echo(b) => BodyView::Echo { msg_id: b.msg_id, echo: b.echo@ },
            MlstBodyBaseReq::Topology(b) => BodyView::Topology {
                msg_id: b.msg_id,
                rows: rows_view(b.topology@),
            },
            MlstBodyBaseReq::Broadcast(b) => BodyView::Broadcast {
                msg_id: b.msg_id,
                message: b.message,
            },
            MlstBodyBaseReq::BroadcastOk(b) => BodyView::BroadcastOk {
                msg_id: b.msg_id,
                in_reply_to: b.in_reply_to,
            },
            MlstBodyBaseReq::Read(b) => BodyView::Read { msg_id: b.msg_id },
        }
    }
}

impl View for MlstReq {
    type V = ReqView;

    open spec fn view(&self) -> ReqView {
        ReqView { id: self.id, src: self.src@, dest: self.dest@, body: self.body@ }
    }
}

} // verus!
