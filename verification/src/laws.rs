//! The protocol's guarantees, stated across the handlers' contracts and
//! proved once and for all: idempotent application, monotonic read-sets with
//! complete fan-out, no relay back to the sender, exact retry of the ledger,
//! and topology changes scoped to the node that received them.

use vstd::prelude::*;
use crate::dedup::{count_of, lemma_no_duplicates_count, no_duplicates};
use crate::ledger::{key_view, lemma_ledger_map_dom, lemma_ledger_map_index};
use crate::codec::{spec_body, spec_text_field, JsonDoc, MlstError};
use crate::node::{broadcast_ok_step, broadcast_step, dispatch_step, fanout_targets,
    is_relay_envelope, lemma_fanout_contains, lemma_fanout_pred, read_step, retry_outputs,
    spec_topology_row, topology_step, MlstService};
use crate::proto::{BodyView, CommId, MlstAckBodyReq, MlstBodyBaseReq, MlstBodyBaseResp,
    MlstBodyReqBroadcast, MlstBodyReqTopology, MlstBodyType, MlstComm};

verus! {

/// Idempotence: once a broadcast value is applied it stays applied exactly
/// once, and a later delivery of the same value — by any mix of client and
/// peer sends — changes nothing and sends nothing.
pub proof fn lemma_broadcast_idempotent(
    s0: MlstService,
    s1: MlstService,
    s2: MlstService,
    comm_id1: Option<CommId>,
    comm_id2: Option<CommId>,
    src1: Seq<char>,
    src2: Seq<char>,
    body1: MlstBodyReqBroadcast,
    body2: MlstBodyReqBroadcast,
    out1: Seq<MlstComm>,
    out2: Seq<MlstComm>,
)
    requires
        s0.wf(),
        broadcast_step(s0, s1, comm_id1, src1, body1, out1),
        broadcast_step(s1, s2, comm_id2, src2, body2, out2),
        body2.message == body1.message,
    ensures
        s1.messages@.contains(body1.message),
        count_of(s1.messages@, body1.message) == 1,
        s2 == s1,
        out2.len() == 0,
        count_of(s2.messages@, body1.message) == 1,
{
    if !s0.messages@.contains(body1.message) {
        assert(s1.messages@ == s0.messages@.push(body1.message));
        assert(s1.messages@[s1.messages@.len() - 1] == body1.message);
        assert(no_duplicates(s1.messages@));
    }
    lemma_no_duplicates_count(s1.messages@, body1.message);
}

/// A node never forgets: whatever request it handles, every value applied
/// before stays applied, in place.
pub proof fn lemma_messages_monotonic(
    pre: MlstService,
    post: MlstService,
    comm_id: Option<CommId>,
    src: Seq<char>,
    body: MlstBodyBaseReq,
    out: Seq<MlstComm>,
)
    requires
        dispatch_step(pre, post, comm_id, src, body, out),
    ensures
        pre.messages@.is_prefix_of(post.messages@),
{
    assert(pre.messages@.is_prefix_of(pre.messages@));
}

/// Convergence, the node's share of it: a value new to this node is relayed
/// to every neighbor but the sender, and each relay is in the ledger —
/// awaiting acknowledgment, so retry passes keep sending it — with exactly
/// the framed body that went out.
pub proof fn lemma_fanout_complete(
    pre: MlstService,
    post: MlstService,
    comm_id: Option<CommId>,
    src: Seq<char>,
    body: MlstBodyReqBroadcast,
    out: Seq<MlstComm>,
    neighbor: crate::proto::NodeId,
)
    requires
        broadcast_step(pre, post, comm_id, src, body, out),
        !pre.messages@.contains(body.message),
        pre.neighbor_ids@.contains(neighbor),
        neighbor@ != src,
    ensures
        post.messages@.contains(body.message),
        exists|i: int|
            0 <= i < out.len() && is_relay_envelope(
                #[trigger] out[i],
                pre.own_id(),
                neighbor@,
                pre.next_msg_id + i,
                body.message,
            ) && post.pending_ack_ids@.contains_key((pre.next_msg_id + i, neighbor@))
                && post.pending_ack_ids@[(pre.next_msg_id + i, neighbor@)]
                == crate::codec::spec_broadcast_body(pre.next_msg_id + i, body.message as int),
{
    assert(post.messages@[post.messages@.len() - 1] == body.message);
    lemma_fanout_contains(pre.neighbor_ids@, src, neighbor);
    let targets = fanout_targets(pre.neighbor_ids@, src);
    let i = choose|i: int| 0 <= i < targets.len() && targets[i] == neighbor;
    assert(is_relay_envelope(out[i], pre.own_id(), targets[i]@, pre.next_msg_id + i, body.message));
    assert(post.pending_ack_ids@.contains_key((pre.next_msg_id + i, targets[i]@)));
}

/// No self-loop: a relayed broadcast never goes back to the node it came
/// from — no relay envelope addresses the sender, and no new ledger entry
/// does either; only the typed `broadcast_ok` reply ever addresses it.
pub proof fn lemma_no_self_loop(
    pre: MlstService,
    post: MlstService,
    comm_id: Option<CommId>,
    src: Seq<char>,
    body: MlstBodyReqBroadcast,
    out: Seq<MlstComm>,
)
    requires
        broadcast_step(pre, post, comm_id, src, body, out),
    ensures
        forall|i: int|
            0 <= i < out.len() ==> ((#[trigger] out[i]).body matches MlstBodyType::Comm(b)
                ==> out[i].dest@ != src),
        forall|k: (int, Seq<char>)|
            #[trigger] post.pending_ack_ids@.contains_key(k)
                && !pre.pending_ack_ids@.contains_key(k) ==> k.1 != src,
{
    if !pre.messages@.contains(body.message) {
        lemma_fanout_pred(pre.neighbor_ids@, src);
        let targets = fanout_targets(pre.neighbor_ids@, src);
        assert forall|i: int|
            0 <= i < out.len() && ((#[trigger] out[i]).body matches MlstBodyType::Comm(
                b,
            )) implies out[i].dest@ != src by {
            if i < targets.len() {
                assert(is_relay_envelope(
                    out[i],
                    pre.own_id(),
                    targets[i]@,
                    pre.next_msg_id + i,
                    body.message,
                ));
            } else {
                assert(comm_id is Some && i == out.len() - 1);
                assert(out[i].body matches MlstBodyType::Resp(r));
            }
        }
        assert forall|k: (int, Seq<char>)|
            #[trigger] post.pending_ack_ids@.contains_key(k)
                && !pre.pending_ack_ids@.contains_key(k) implies k.1 != src by {
            let i = choose|i: int|
                0 <= i < targets.len() && k == (pre.next_msg_id + i, targets[i]@);
            assert(targets[i]@ != src);
        }
    }
}

/// Ledger correctness, the pending half: whatever the ledger maps `(id,
/// dest)` to, a retry pass sends exactly that cached body to exactly that
/// destination.
pub proof fn lemma_retry_resends_pending(
    s: MlstService,
    out: Seq<MlstComm>,
    id: int,
    dest: Seq<char>,
)
    requires
        s.wf(),
        retry_outputs(s, out),
        s.pending_ack_ids@.contains_key((id, dest)),
    ensures
        exists|i: int|
            0 <= i < out.len() && (#[trigger] out[i]).dest@ == dest && (out[i].body matches
            MlstBodyType::Comm(b) && b@ == s.pending_ack_ids@[(id, dest)]),
{
    lemma_ledger_map_dom(s.pending_ack_ids.entries@, (id, dest));
    let i = choose|i: int|
        0 <= i < s.pending_ack_ids.entries@.len() && key_view(s.pending_ack_ids.entries@[i].0) == (
        id,
        dest,
        );
    lemma_ledger_map_index(s.pending_ack_ids.entries@, i);
    assert(out[i].dest@ == dest && (out[i].body matches MlstBodyType::Comm(b) && b@
        == s.pending_ack_ids@[(id, dest)]));
}

/// Ledger correctness, the acknowledged half: after `broadcast_ok` for `(id,
/// src)`, no ledger entry carries that key, so no later retry pass sends it.
pub proof fn lemma_acknowledged_never_resent(
    pre: MlstService,
    post: MlstService,
    src: Seq<char>,
    ack: MlstAckBodyReq,
    out: Seq<MlstComm>,
)
    requires
        pre.wf(),
        post.wf(),
        broadcast_ok_step(pre, post, src, ack, out),
    ensures
        !post.pending_ack_ids@.contains_key((ack.in_reply_to as int, src)),
        forall|i: int|
            0 <= i < post.pending_ack_ids.entries@.len() ==> key_view(
                #[trigger] post.pending_ack_ids.entries@[i].0,
            ) != (ack.in_reply_to as int, src),
{
    assert forall|i: int|
        0 <= i < post.pending_ack_ids.entries@.len() implies key_view(
        #[trigger] post.pending_ack_ids.entries@[i].0,
    ) != (ack.in_reply_to as int, src) by {
        lemma_ledger_map_index(post.pending_ack_ids.entries@, i);
    }
}

/// An identity, once assigned, is immutable: every request but `init`
/// leaves it as it is.
pub proof fn lemma_identity_stable(
    pre: MlstService,
    post: MlstService,
    comm_id: Option<CommId>,
    src: Seq<char>,
    body: MlstBodyBaseReq,
    out: Seq<MlstComm>,
)
    requires
        dispatch_step(pre, post, comm_id, src, body, out),
        !(body is Init),
    ensures
        post.node_id == pre.node_id,
{
}

/// Message ids only grow, so no id this node assigns is ever reused.
pub proof fn lemma_msg_ids_monotonic(
    pre: MlstService,
    post: MlstService,
    comm_id: Option<CommId>,
    src: Seq<char>,
    body: MlstBodyBaseReq,
    out: Seq<MlstComm>,
)
    requires
        dispatch_step(pre, post, comm_id, src, body, out),
    ensures
        pre.next_msg_id <= post.next_msg_id,
{
}

/// A `read` reply is exact: its list is every applied value, each exactly
/// once, and in particular every value applied earlier is still reported —
/// the read-set only grows, so a node never un-converges.
pub proof fn lemma_read_reply_exact(
    pre: MlstService,
    post: MlstService,
    src: Seq<char>,
    body: crate::proto::MlstBodyReqRead,
    out: Seq<MlstComm>,
    value: crate::proto::MsgType,
)
    requires
        pre.wf(),
        read_step(pre, post, src, body, out),
    ensures
        out[0].body matches MlstBodyType::Resp(r) && r.body matches MlstBodyBaseResp::Read(b) && {
            &&& b.messages@ == pre.messages@
            &&& no_duplicates(b.messages@)
            &&& (pre.messages@.contains(value) ==> count_of(b.messages@, value) == 1)
        },
{
    lemma_no_duplicates_count(pre.messages@, value);
}

/// An unrecognized message kind decodes to `UnknownMessageType`: the codec
/// rejects it before any handler runs, so the message is dropped with no
/// state change and the receive loop goes on.
pub proof fn lemma_unknown_kind_rejected(body: JsonDoc, kind: Seq<char>)
    requires
        spec_text_field(body, "type"@) == Some(kind),
        kind != "init"@,
        kind != "echo"@,
        kind != "topology"@,
        kind != "broadcast"@,
        kind != "broadcast_ok"@,
        kind != "read"@,
    ensures
        spec_body(body) == Err::<BodyView, MlstError>(MlstError::UnknownMessageType),
{
}

/// Topology scoping: a topology message moves only the neighbor list of the
/// node that handled it — identity, read-set, counter and ledger stay as
/// they were — and any two nodes handed the same map each take exactly their
/// own row.
pub proof fn lemma_topology_scoped(
    a0: MlstService,
    a1: MlstService,
    b0: MlstService,
    b1: MlstService,
    src_a: Seq<char>,
    src_b: Seq<char>,
    body: MlstBodyReqTopology,
    out_a: Seq<MlstComm>,
    out_b: Seq<MlstComm>,
)
    requires
        topology_step(a0, a1, src_a, body, out_a),
        topology_step(b0, b1, src_b, body, out_b),
    ensures
        a1.node_id == a0.node_id,
        a1.messages == a0.messages,
        a1.pending_ack_ids == a0.pending_ack_ids,
        spec_topology_row(body.topology@, a0.own_id()) == Some(a1.neighbor_ids@),
        spec_topology_row(body.topology@, b0.own_id()) == Some(b1.neighbor_ids@),
{
}

} // verus!
