//! The node itself: its identity, neighbor list, deduplication store, message
//! id counter and delivery ledger, with one handler per inbound message kind
//! and one dispatch entry point. Handlers never perform transport work; they
//! return the envelopes to send, and the caller owns the channel.

use vstd::prelude::*;
use crate::codec::{frame_broadcast_body, spec_broadcast_body};
use crate::dedup::DedupStore;
use crate::ledger::{key_view, lemma_ledger_map_keys_bound, DeliveryLedger, MsgCached,
    MsgCachedKey};
use crate::proto::{CommId, MlstAckBodyReq, MlstBodyBaseReq, MlstBodyBaseResp, MlstBodyReqBroadcast,
    MlstBodyReqEcho, MlstBodyReqInit, MlstBodyReqRead, MlstBodyReqTopology, MlstBodyResp,
    MlstBodyRespBroadcast, MlstBodyRespEcho, MlstBodyRespInit, MlstBodyRespRead,
    MlstBodyRespTopology, MlstBodyType, MlstComm, MsgId, MsgType, NodeId};

verus! {

/// One gossip-broadcast node: every state store of the protocol in one place.
pub struct MlstService {
    /// This node's identity, assigned once by `init`.
    pub node_id: Option<NodeId>,
    /// The nodes this node fans broadcasts out to.
    pub neighbor_ids: Vec<NodeId>,
    /// Every broadcast value already applied.
    pub messages: DedupStore,
    /// The next unused message id; ids grow and are never reused.
    pub next_msg_id: MsgId,
    /// Every send awaiting acknowledgment.
    pub pending_ack_ids: DeliveryLedger,
}

impl MlstService {
    /// This node's id as a sequence of characters; meaningful once `init`
    /// has assigned one.
    pub open spec fn own_id(&self) -> Seq<char> {
        self.node_id->0@
    }

    /// The stores hold no duplicates and every ledger key was assigned by
    /// this node's counter.
    pub open spec fn wf(&self) -> bool {
        &&& self.messages.wf()
        &&& self.pending_ack_ids.wf()
        &&& 1 <= self.next_msg_id
        &&& forall|i: int|
            0 <= i < self.pending_ack_ids.entries@.len()
                ==> #[trigger] self.pending_ack_ids.entries@[i].0.msg_id < self.next_msg_id
    }

    /// Creates a node with no identity, no neighbors, nothing applied and
    /// nothing pending; ids start at 1.
    pub fn new() -> (r: MlstService)
        ensures
            r.wf(),
            r.node_id is None,
            r.neighbor_ids@.len() == 0,
            r.messages@ == Seq::<MsgType>::empty(),
            r.next_msg_id == 1,
            r.pending_ack_ids@ == Map::<(int, Seq<char>), Seq<char>>::empty(),
            r.pending_ack_ids.entries@.len() == 0,
    {
        MlstService {
            node_id: None,
            neighbor_ids: Vec::new(),
            messages: DedupStore::new(),
            next_msg_id: 1,
            pending_ack_ids: DeliveryLedger::new(),
        }
    }

    /// Hands out the next unused message id and moves the counter past it.
    pub fn next_msg_id(&mut self) -> (r: MsgId)
        requires
            old(self).wf(),
            old(self).next_msg_id < MsgId::MAX,
        ensures
            final(self).wf(),
            r == old(self).next_msg_id,
            final(self).next_msg_id == old(self).next_msg_id + 1,
            final(self).node_id == old(self).node_id,
            final(self).neighbor_ids == old(self).neighbor_ids,
            final(self).messages == old(self).messages,
            final(self).pending_ack_ids == old(self).pending_ack_ids,
    {
        let id = self.next_msg_id;
        self.next_msg_id = self.next_msg_id + 1;
        id
    }

    /// Records this node's identity.
    pub fn set_node_id(&mut self, value: NodeId)
        ensures
            final(self).node_id == Some(value),
            final(self).neighbor_ids == old(self).neighbor_ids,
            final(self).messages == old(self).messages,
            final(self).next_msg_id == old(self).next_msg_id,
            final(self).pending_ack_ids == old(self).pending_ack_ids,
            old(self).wf() ==> final(self).wf(),
    {
        self.node_id = Some(value);
    }

    /// This node's identity, if `init` has assigned one.
    pub fn get_node_id(&self) -> (r: &Option<NodeId>)
        ensures
            *r == self.node_id,
    {
        &self.node_id
    }

    /// Replaces the neighbor list; the last write wins.
    pub fn set_neighbor_ids(&mut self, values: Vec<NodeId>)
        ensures
            final(self).neighbor_ids == values,
            final(self).node_id == old(self).node_id,
            final(self).messages == old(self).messages,
            final(self).next_msg_id == old(self).next_msg_id,
            final(self).pending_ack_ids == old(self).pending_ack_ids,
            old(self).wf() ==> final(self).wf(),
    {
        self.neighbor_ids = values;
    }

    /// A copy of the neighbor list, safe to walk while the node moves on.
    pub fn get_neighbor_ids(&self) -> (r: Vec<NodeId>)
        ensures
            r@ == self.neighbor_ids@,
    {
        clone_node_ids(&self.neighbor_ids)
    }

    /// Marks a broadcast value as applied.
    pub fn store_message(&mut self, message: MsgType)
        requires
            old(self).wf(),
        ensures
            final(self).wf(),
            final(self).messages@ == if old(self).messages@.contains(message) {
                old(self).messages@
            } else {
                old(self).messages@.push(message)
            },
            final(self).messages@.contains(message),
            final(self).node_id == old(self).node_id,
            final(self).neighbor_ids == old(self).neighbor_ids,
            final(self).next_msg_id == old(self).next_msg_id,
            final(self).pending_ack_ids == old(self).pending_ack_ids,
    {
        self.messages.insert(message);
    }

    /// Whether a broadcast value was already applied.
    pub fn check_message(&self, message: &MsgType) -> (r: bool)
        ensures
            r == self.messages@.contains(*message),
    {
        self.messages.contains(*message)
    }

    /// A copy of every applied value, in the order of first application.
    pub fn get_messages(&self) -> (r: Vec<MsgType>)
        ensures
            r@ == self.messages@,
    {
        self.messages.snapshot()
    }

    /// Records a send as pending acknowledgment. The key must carry an id
    /// this node has already drawn from its counter.
    pub fn ack_await(&mut self, key: MsgCachedKey, msg_cached: MsgCached)
        requires
            old(self).wf(),
            key.msg_id < old(self).next_msg_id,
        ensures
            final(self).wf(),
            final(self).pending_ack_ids@ == old(self).pending_ack_ids@.insert(
                key_view(key),
                msg_cached.msg_str@,
            ),
            final(self).node_id == old(self).node_id,
            final(self).neighbor_ids == old(self).neighbor_ids,
            final(self).messages == old(self).messages,
            final(self).next_msg_id == old(self).next_msg_id,
    {
        self.pending_ack_ids.track(key, msg_cached);
    }

    /// Drops the pending send the key names; one already acknowledged, or
    /// never tracked, changes nothing.
    pub fn ack_delivered(&mut self, key: &MsgCachedKey)
        requires
            old(self).wf(),
        ensures
            final(self).wf(),
            final(self).pending_ack_ids@ == old(self).pending_ack_ids@.remove(key_view(*key)),
            final(self).node_id == old(self).node_id,
            final(self).neighbor_ids == old(self).neighbor_ids,
            final(self).messages == old(self).messages,
            final(self).next_msg_id == old(self).next_msg_id,
    {
        self.pending_ack_ids.acknowledge(key.msg_id, &key.dest);
    }

    /// The delivery ledger, read-only.
    pub fn get_pending_ack_ids(&self) -> (r: &DeliveryLedger)
        ensures
            *r == self.pending_ack_ids,
    {
        &self.pending_ack_ids
    }

    /// Caches the framed body of a send under `(msg_id, dest)` so retry
    /// passes re-send it until the acknowledgment arrives.
    pub fn await_communicate(&mut self, msg_id: MsgId, dest: NodeId, msg_str: String)
        requires
            old(self).wf(),
            msg_id < old(self).next_msg_id,
        ensures
            final(self).wf(),
            final(self).pending_ack_ids@ == old(self).pending_ack_ids@.insert(
                (msg_id as int, dest@),
                msg_str@,
            ),
            final(self).node_id == old(self).node_id,
            final(self).neighbor_ids == old(self).neighbor_ids,
            final(self).messages == old(self).messages,
            final(self).next_msg_id == old(self).next_msg_id,
    {
        let key = MsgCachedKey { msg_id, dest };
        let msg_cached = MsgCached { msg_str };
        self.ack_await(key, msg_cached);
    }

    /// Wraps a body in an outbound envelope carrying this node's id as
    /// source.
    pub fn communicate(&self, dest: NodeId, body: MlstBodyType) -> (r: MlstComm)
        requires
            self.node_id is Some,
        ensures
            r.src@ == self.own_id(),
            r.dest == dest,
            r.body == body,
    {
        let src = match &self.node_id {
            Some(id) => id.clone(),
            None => String::new(),
        };
        MlstComm { src, dest, body }
    }

    /// Builds the response to a request: a fresh id, the id replied to, and
    /// the body.
    pub fn reply(&mut self, in_reply_to: MsgId, dest: NodeId, body: MlstBodyBaseResp) -> (r:
        MlstComm)
        requires
            old(self).wf(),
            old(self).node_id is Some,
            old(self).next_msg_id < MsgId::MAX,
        ensures
            final(self).wf(),
            r.src@ == old(self).own_id(),
            r.dest == dest,
            r.body == MlstBodyType::Resp(
                MlstBodyResp { body, msg_id: Some(old(self).next_msg_id), in_reply_to },
            ),
            final(self).next_msg_id == old(self).next_msg_id + 1,
            final(self).node_id == old(self).node_id,
            final(self).neighbor_ids == old(self).neighbor_ids,
            final(self).messages == old(self).messages,
            final(self).pending_ack_ids == old(self).pending_ack_ids,
    {
        let msg_id = self.next_msg_id();
        let body_resp = MlstBodyResp { body, msg_id: Some(msg_id), in_reply_to };
        self.communicate(dest, MlstBodyType::Resp(body_resp))
    }

    /// Handles `init`: records the assigned identity and answers `init_ok`.
    pub fn process_init(&mut self, comm_id: Option<CommId>, src: NodeId, body: MlstBodyReqInit)
        -> (out: Vec<MlstComm>)
        requires
            old(self).wf(),
            old(self).next_msg_id < MsgId::MAX,
        ensures
            final(self).wf(),
            init_step(*old(self), *final(self), src@, body, out@),
    {
        self.set_node_id(body.node_id.clone());
        let resp = MlstBodyBaseResp::Init(MlstBodyRespInit { msg_type: "init_ok".to_owned() });
        let reply = self.reply(body.msg_id, src, resp);
        vec![reply]
    }

    /// Handles `echo`: answers `echo_ok` with the same text; no store moves.
    pub fn process_echo(&mut self, comm_id: Option<CommId>, src: NodeId, body: MlstBodyReqEcho)
        -> (out: Vec<MlstComm>)
        requires
            old(self).wf(),
            old(self).node_id is Some,
            old(self).next_msg_id < MsgId::MAX,
        ensures
            final(self).wf(),
            echo_step(*old(self), *final(self), src@, body, out@),
    {
        let resp = MlstBodyBaseResp::Echo(
            MlstBodyRespEcho { msg_type: "echo_ok".to_owned(), echo: body.echo.clone() },
        );
        let reply = self.reply(body.msg_id, src, resp);
        vec![reply]
    }

    /// Handles `read`: answers `read_ok` with every applied value; no store
    /// moves.
    pub fn process_read(&mut self, comm_id: Option<CommId>, src: NodeId, body: MlstBodyReqRead)
        -> (out: Vec<MlstComm>)
        requires
            old(self).wf(),
            old(self).node_id is Some,
            old(self).next_msg_id < MsgId::MAX,
        ensures
            final(self).wf(),
            read_step(*old(self), *final(self), src@, body, out@),
    {
        let snapshot = self.get_messages();
        let resp = MlstBodyBaseResp::Read(
            MlstBodyRespRead { msg_type: "read_ok".to_owned(), messages: snapshot },
        );
        let reply = self.reply(body.msg_id, src, resp);
        vec![reply]
    }

    /// Handles `topology`: takes this node's own adjacency row as the new
    /// neighbor list and answers `topology_ok`.
    pub fn process_topology(
        &mut self,
        comm_id: Option<CommId>,
        src: NodeId,
        body: &MlstBodyReqTopology,
    ) -> (out: Vec<MlstComm>)
        requires
            old(self).wf(),
            old(self).node_id is Some,
            old(self).next_msg_id < MsgId::MAX,
            spec_topology_row(body.topology@, old(self).own_id()) is Some,
        ensures
            final(self).wf(),
            topology_step(*old(self), *final(self), src@, *body, out@),
    {
        let own = match &self.node_id {
            Some(id) => id.clone(),
            None => String::new(),
        };
        let row = match topology_row(&body.topology, &own) {
            Some(row) => row,
            None => unreached(),
        };
        self.set_neighbor_ids(row);
        let resp = MlstBodyBaseResp::Topology(
            MlstBodyRespTopology { msg_type: "topology_ok".to_owned() },
        );
        let reply = self.reply(body.msg_id, src, resp);
        vec![reply]
    }

    /// Handles `broadcast_ok`: the acknowledged send leaves the ledger; a
    /// duplicate or unexpected acknowledgment changes nothing.
    pub fn process_broadcast_ok(
        &mut self,
        comm_id: Option<CommId>,
        src: NodeId,
        body: &MlstAckBodyReq,
    ) -> (out: Vec<MlstComm>)
        requires
            old(self).wf(),
        ensures
            final(self).wf(),
            broadcast_ok_step(*old(self), *final(self), src@, *body, out@),
    {
        let key = MsgCachedKey { msg_id: body.in_reply_to, dest: src };
        self.ack_delivered(&key);
        Vec::new()
    }

    /// Handles `broadcast`: a value seen before is dropped silently; a new
    /// value is applied, fanned out to every neighbor but the sender under a
    /// fresh id each — every relay tracked in the ledger with the exact
    /// framed body sent — and answered with `broadcast_ok` when the request
    /// came from a client, not when it was a peer relay.
    pub fn process_broadcast(
        &mut self,
        comm_id: Option<CommId>,
        src: NodeId,
        body: &MlstBodyReqBroadcast,
    ) -> (out: Vec<MlstComm>)
        requires
            old(self).wf(),
            old(self).node_id is Some,
            old(self).next_msg_id + old(self).neighbor_ids@.len() + 1 <= MsgId::MAX,
        ensures
            final(self).wf(),
            broadcast_step(*old(self), *final(self), comm_id, src@, *body, out@),
    {
        if self.check_message(&body.message) {
            return Vec::new();
        }
        self.store_message(body.message);
        let own = match &self.node_id {
            Some(id) => id.clone(),
            None => String::new(),
        };
        let neighbors = clone_node_ids(&self.neighbor_ids);
        let ghost pre = *old(self);
        let mut out: Vec<MlstComm> = Vec::new();
        let mut i: usize = 0;
        proof {
            lemma_fanout_empty(src@);
            assert(pre.neighbor_ids@.subrange(0, 0) =~= Seq::<NodeId>::empty());
            lemma_ledger_map_keys_bound(pre.pending_ack_ids.entries@, pre.next_msg_id as int);
        }
        while i < neighbors.len()
            invariant
                0 <= i <= neighbors@.len(),
                neighbors@ == pre.neighbor_ids@,
                pre.wf(),
                pre.node_id is Some,
                pre.next_msg_id + pre.neighbor_ids@.len() + 1 <= MsgId::MAX,
                forall|k: (int, Seq<char>)|
                    #[trigger] pre.pending_ack_ids@.contains_key(k) ==> k.0 < pre.next_msg_id,
                self.wf(),
                self.node_id == pre.node_id,
                self.neighbor_ids == pre.neighbor_ids,
                self.messages@ == pre.messages@.push(body.message),
                own@ == pre.own_id(),
                out@.len() == fanout_targets(pre.neighbor_ids@.subrange(0, i as int), src@).len(),
                self.next_msg_id == pre.next_msg_id + out@.len(),
                forall|j: int|
                    0 <= j < out@.len() ==> is_relay_envelope(
                        #[trigger] out@[j],
                        pre.own_id(),
                        fanout_targets(pre.neighbor_ids@.subrange(0, i as int), src@)[j]@,
                        pre.next_msg_id + j,
                        body.message,
                    ),
                forall|k: (int, Seq<char>)|
                    #[trigger] pre.pending_ack_ids@.contains_key(k)
                        ==> self.pending_ack_ids@.contains_key(k) && self.pending_ack_ids@[k]
                        == pre.pending_ack_ids@[k],
                forall|j: int|
                    0 <= j < out@.len() ==> self.pending_ack_ids@.contains_key(
                        (
                            pre.next_msg_id + j,
                            #[trigger] fanout_targets(
                                pre.neighbor_ids@.subrange(0, i as int),
                                src@,
                            )[j]@,
                        ),
                    ) && self.pending_ack_ids@[
                        (
                            pre.next_msg_id + j,
                            fanout_targets(pre.neighbor_ids@.subrange(0, i as int), src@)[j]@,
                        )
                    ] == spec_broadcast_body(pre.next_msg_id + j, body.message as int),
                forall|k: (int, Seq<char>)|
                    #[trigger] self.pending_ack_ids@.contains_key(k)
                        ==> pre.pending_ack_ids@.contains_key(k) || exists|j: int|
                        0 <= j < out@.len() && k == (
                            pre.next_msg_id + j,
                            fanout_targets(pre.neighbor_ids@.subrange(0, i as int), src@)[j]@,
                        ),
            decreases neighbors@.len() - i,
        {
            let ghost t_old = fanout_targets(pre.neighbor_ids@.subrange(0, i as int), src@);
            proof {
                assert(pre.neighbor_ids@.subrange(0, i as int + 1) =~= pre.neighbor_ids@.subrange(
                    0,
                    i as int,
                ).push(pre.neighbor_ids@[i as int]));
                lemma_fanout_push(
                    pre.neighbor_ids@.subrange(0, i as int),
                    pre.neighbor_ids@[i as int],
                    src@,
                );
            }
            let neighbor = &neighbors[i];
            if !(*neighbor == src) {
                proof {
                    lemma_fanout_len(pre.neighbor_ids@.subrange(0, i as int), src@);
                }
                let id = self.next_msg_id();
                let body_str = frame_broadcast_body(id, body.message);
                self.await_communicate(id, neighbor.clone(), body_str.clone());
                out.push(
                    MlstComm {
                        src: own.clone(),
                        dest: neighbor.clone(),
                        body: MlstBodyType::Comm(body_str),
                    },
                );
                proof {
                    let t_new = fanout_targets(
                        pre.neighbor_ids@.subrange(0, i as int + 1),
                        src@,
                    );
                    assert(t_new == t_old.push(pre.neighbor_ids@[i as int]));
                    assert(t_new[t_new.len() - 1] == pre.neighbor_ids@[i as int]);
                    assert(forall|j: int| 0 <= j < t_old.len() ==> t_new[j] == t_old[j]);
                }
            }
            i += 1;
        }
        proof {
            assert(pre.neighbor_ids@.subrange(0, pre.neighbor_ids@.len() as int)
                =~= pre.neighbor_ids@);
        }
        match comm_id {
            Some(_) => {
                let resp = MlstBodyBaseResp::Broadcast(
                    MlstBodyRespBroadcast { msg_type: "broadcast_ok".to_owned() },
                );
                proof {
                    lemma_fanout_len(pre.neighbor_ids@, src@);
                }
                let reply = self.reply(body.msg_id, src, resp);
                out.push(reply);
            },
            None => {},
        }
        out
    }

    /// One retry pass: an envelope per pending send, in ledger order, each
    /// carrying exactly the cached framed body to the recorded destination.
    pub fn repeat_unacked(&self) -> (out: Vec<MlstComm>)
        requires
            self.node_id is Some,
        ensures
            retry_outputs(*self, out@),
    {
        let pending = self.pending_ack_ids.all_pending();
        let mut out: Vec<MlstComm> = Vec::new();
        let mut i: usize = 0;
        while i < pending.len()
            invariant
                0 <= i <= pending@.len(),
                self.node_id is Some,
                pending@.len() == self.pending_ack_ids.entries@.len(),
                forall|j: int|
                    0 <= j < pending@.len() ==> (#[trigger] pending@[j]).0@
                        == self.pending_ack_ids.entries@[j].0.dest@ && pending@[j].1@
                        == self.pending_ack_ids.entries@[j].1.msg_str@,
                out@.len() == i,
                forall|j: int|
                    0 <= j < i ==> (#[trigger] out@[j]).src@ == self.own_id() && out@[j].dest@
                        == self.pending_ack_ids.entries@[j].0.dest@ && (out@[j].body matches
                    MlstBodyType::Comm(s) && s@ == self.pending_ack_ids.entries@[j].1.msg_str@),
            decreases pending@.len() - i,
        {
            let dest = pending[i].0.clone();
            let cached_body = pending[i].1.clone();
            out.push(self.communicate(dest, MlstBodyType::Comm(cached_body)));
            i += 1;
        }
        out
    }

    /// The one dispatch entry point: hands an inbound request to the handler
    /// of its kind and returns whatever that handler sends.
    pub fn dispatch_request(
        &mut self,
        comm_id: Option<CommId>,
        src: NodeId,
        dest: NodeId,
        body: MlstBodyBaseReq,
    ) -> (out: Vec<MlstComm>)
        requires
            old(self).wf(),
            !(body is Init) ==> old(self).node_id is Some,
            old(self).next_msg_id + old(self).neighbor_ids@.len() + 1 <= MsgId::MAX,
            body matches MlstBodyBaseReq::Topology(b) ==> spec_topology_row(
                b.topology@,
                old(self).own_id(),
            ) is Some,
        ensures
            final(self).wf(),
            dispatch_step(*old(self), *final(self), comm_id, src@, body, out@),
    {
        match body {
            MlstBodyBaseReq::Init(b) => self.process_init(comm_id, src, b),
            MlstBodyBaseReq::Echo(b) => self.process_echo(comm_id, src, b),
            MlstBodyBaseReq::Topology(b) => self.process_topology(comm_id, src, &b),
            MlstBodyBaseReq::Broadcast(b) => self.process_broadcast(comm_id, src, &b),
            MlstBodyBaseReq::BroadcastOk(b) => self.process_broadcast_ok(comm_id, src, &b),
            MlstBodyBaseReq::Read(b) => self.process_read(comm_id, src, b),
        }
    }
}

/// A fan-out reaches no more nodes than there are neighbors.
pub proof fn lemma_fanout_len(s: Seq<NodeId>, src: Seq<char>)
    ensures
        fanout_targets(s, src).len() <= s.len(),
    decreases s.len(),
{
    reveal(Seq::filter);
    if s.len() > 0 {
        lemma_fanout_len(s.drop_last(), src);
    }
}

/// Fanning a broadcast out to no neighbors sends nothing.
pub proof fn lemma_fanout_empty(src: Seq<char>)
    ensures
        fanout_targets(Seq::<NodeId>::empty(), src) == Seq::<NodeId>::empty(),
{
    reveal(Seq::filter);
}

/// Extending the neighbor list by one extends the fan-out by that neighbor
/// exactly when it is not the sender.
pub proof fn lemma_fanout_push(s: Seq<NodeId>, x: NodeId, src: Seq<char>)
    ensures
        fanout_targets(s.push(x), src) == if x@ != src {
            fanout_targets(s, src).push(x)
        } else {
            fanout_targets(s, src)
        },
{
    reveal(Seq::filter);
    assert(s.push(x).drop_last() =~= s);
    assert(s.push(x).last() == x);
}

/// The first row of `rows` keyed by `id`, copied out.
pub fn topology_row(rows: &Vec<(NodeId, Vec<NodeId>)>, id: &NodeId) -> (r: Option<Vec<NodeId>>)
    ensures
        match r {
            Some(row) => spec_topology_row(rows@, id@) == Some(row@),
            None => spec_topology_row(rows@, id@) is None,
        },
{
    let mut i: usize = 0;
    proof {
        assert(rows@.skip(0) =~= rows@);
    }
    while i < rows.len()
        invariant
            0 <= i <= rows@.len(),
            spec_topology_row(rows@, id@) == spec_topology_row(rows@.skip(i as int), id@),
        decreases rows@.len() - i,
    {
        proof {
            assert(rows@.skip(i as int)[0] == rows@[i as int]);
        }
        if rows[i].0 == *id {
            return Some(clone_node_ids(&rows[i].1));
        }
        proof {
            assert(rows@.skip(i as int).drop_first() =~= rows@.skip(i as int + 1));
        }
        i += 1;
    }
    proof {
        assert(rows@.skip(i as int).len() == 0);
    }
    None
}

/// The envelope is a response from `src_id` to `dest_id`, carrying the fresh
/// id `msg_id` and answering the request `in_reply_to`.
pub open spec fn is_reply_envelope(
    m: MlstComm,
    src_id: Seq<char>,
    dest_id: Seq<char>,
    msg_id: int,
    in_reply_to: MsgId,
) -> bool {
    &&& m.src@ == src_id
    &&& m.dest@ == dest_id
    &&& m.body matches MlstBodyType::Resp(r) && r.msg_id matches Some(m_id) && m_id == msg_id
        && r.in_reply_to == in_reply_to
}

/// The envelope relays the broadcast of `message` from `src_id` to `dest_id`
/// under the fresh id `msg_id`, with the body framed as wire text.
pub open spec fn is_relay_envelope(
    m: MlstComm,
    src_id: Seq<char>,
    dest_id: Seq<char>,
    msg_id: int,
    message: MsgType,
) -> bool {
    &&& m.src@ == src_id
    &&& m.dest@ == dest_id
    &&& m.body matches MlstBodyType::Comm(s) && s@ == spec_broadcast_body(msg_id, message as int)
}

/// The neighbors a broadcast received from `src` fans out to: every neighbor
/// but `src` itself, in list order.
pub open spec fn fanout_targets(neighbors: Seq<NodeId>, src: Seq<char>) -> Seq<NodeId> {
    neighbors.filter(|n: NodeId| n@ != src)
}

/// The row of `rows` whose key reads as `id`, first match first.
pub open spec fn spec_topology_row(rows: Seq<(NodeId, Vec<NodeId>)>, id: Seq<char>) -> Option<
    Seq<NodeId>,
>
    decreases rows.len(),
{
    if rows.len() == 0 {
        None
    } else if rows[0].0@ == id {
        Some(rows[0].1@)
    } else {
        spec_topology_row(rows.drop_first(), id)
    }
}

/// What handling `init` did: the identity is recorded and one `init_ok`
/// reply, sourced at the new identity, answers the request.
pub open spec fn init_step(
    pre: MlstService,
    post: MlstService,
    src: Seq<char>,
    body: MlstBodyReqInit,
    out: Seq<MlstComm>,
) -> bool {
    &&& post.node_id matches Some(n) && n@ == body.node_id@
    &&& post.neighbor_ids == pre.neighbor_ids
    &&& post.messages == pre.messages
    &&& post.pending_ack_ids == pre.pending_ack_ids
    &&& post.next_msg_id == pre.next_msg_id + 1
    &&& out.len() == 1
    &&& is_reply_envelope(out[0], body.node_id@, src, pre.next_msg_id as int, body.msg_id)
    &&& out[0].body matches MlstBodyType::Resp(r) && r.body matches MlstBodyBaseResp::Init(b)
        && b.msg_type@ == "init_ok"@
}

/// What handling `echo` did: no store changed, and one `echo_ok` reply hands
/// the request's `echo` text back.
pub open spec fn echo_step(
    pre: MlstService,
    post: MlstService,
    src: Seq<char>,
    body: MlstBodyReqEcho,
    out: Seq<MlstComm>,
) -> bool {
    &&& post.node_id == pre.node_id
    &&& post.neighbor_ids == pre.neighbor_ids
    &&& post.messages == pre.messages
    &&& post.pending_ack_ids == pre.pending_ack_ids
    &&& post.next_msg_id == pre.next_msg_id + 1
    &&& out.len() == 1
    &&& is_reply_envelope(out[0], pre.own_id(), src, pre.next_msg_id as int, body.msg_id)
    &&& out[0].body matches MlstBodyType::Resp(r) && r.body matches MlstBodyBaseResp::Echo(b)
        && b.msg_type@ == "echo_ok"@ && b.echo@ == body.echo@
}

/// What handling `topology` did: this node's own adjacency row, and nothing
/// else, becomes the neighbor list, and one `topology_ok` reply answers.
pub open spec fn topology_step(
    pre: MlstService,
    post: MlstService,
    src: Seq<char>,
    body: MlstBodyReqTopology,
    out: Seq<MlstComm>,
) -> bool {
    &&& post.node_id == pre.node_id
    &&& post.messages == pre.messages
    &&& post.pending_ack_ids == pre.pending_ack_ids
    &&& post.next_msg_id == pre.next_msg_id + 1
    &&& spec_topology_row(body.topology@, pre.own_id()) == Some(post.neighbor_ids@)
    &&& out.len() == 1
    &&& is_reply_envelope(out[0], pre.own_id(), src, pre.next_msg_id as int, body.msg_id)
    &&& out[0].body matches MlstBodyType::Resp(r) && r.body matches MlstBodyBaseResp::Topology(b)
        && b.msg_type@ == "topology_ok"@
}

/// What handling `read` did: no store changed, and one `read_ok` reply
/// carries every applied value.
pub open spec fn read_step(
    pre: MlstService,
    post: MlstService,
    src: Seq<char>,
    body: MlstBodyReqRead,
    out: Seq<MlstComm>,
) -> bool {
    &&& post.node_id == pre.node_id
    &&& post.neighbor_ids == pre.neighbor_ids
    &&& post.messages == pre.messages
    &&& post.pending_ack_ids == pre.pending_ack_ids
    &&& post.next_msg_id == pre.next_msg_id + 1
    &&& out.len() == 1
    &&& is_reply_envelope(out[0], pre.own_id(), src, pre.next_msg_id as int, body.msg_id)
    &&& out[0].body matches MlstBodyType::Resp(r) && r.body matches MlstBodyBaseResp::Read(b)
        && b.msg_type@ == "read_ok"@ && b.messages@ == pre.messages@
}

/// What handling `broadcast_ok` did: the acknowledged send, named by the id
/// it answers and the acknowledging node, left the ledger; nothing else
/// changed and nothing goes out.
pub open spec fn broadcast_ok_step(
    pre: MlstService,
    post: MlstService,
    src: Seq<char>,
    body: MlstAckBodyReq,
    out: Seq<MlstComm>,
) -> bool {
    &&& post.node_id == pre.node_id
    &&& post.neighbor_ids == pre.neighbor_ids
    &&& post.messages == pre.messages
    &&& post.next_msg_id == pre.next_msg_id
    &&& post.pending_ack_ids@ == pre.pending_ack_ids@.remove((body.in_reply_to as int, src))
    &&& out.len() == 0
}

/// What handling `broadcast` did. A value already applied changes nothing
/// and goes nowhere. A new value is applied, relayed once to every neighbor
/// but the sender under a fresh id each, each relay tracked in the ledger
/// under that id with exactly the framed body sent, and the ledger holds
/// nothing else new; a client request is answered with `broadcast_ok`, a
/// peer relay is not.
pub open spec fn broadcast_step(
    pre: MlstService,
    post: MlstService,
    comm_id: Option<CommId>,
    src: Seq<char>,
    body: MlstBodyReqBroadcast,
    out: Seq<MlstComm>,
) -> bool {
    if pre.messages@.contains(body.message) {
        &&& post == pre
        &&& out.len() == 0
    } else {
        let targets = fanout_targets(pre.neighbor_ids@, src);
        &&& post.node_id == pre.node_id
        &&& post.neighbor_ids == pre.neighbor_ids
        &&& post.messages@ == pre.messages@.push(body.message)
        &&& out.len() == targets.len() + if comm_id is Some {
            1int
        } else {
            0int
        }
        &&& post.next_msg_id == pre.next_msg_id + out.len()
        &&& forall|i: int|
            0 <= i < targets.len() ==> is_relay_envelope(
                #[trigger] out[i],
                pre.own_id(),
                targets[i]@,
                pre.next_msg_id + i,
                body.message,
            )
        &&& (comm_id is Some ==> is_reply_envelope(
            out.last(),
            pre.own_id(),
            src,
            pre.next_msg_id + targets.len() as int,
            body.msg_id,
        ) && (out.last().body matches MlstBodyType::Resp(r) && r.body
            matches MlstBodyBaseResp::Broadcast(b) && b.msg_type@ == "broadcast_ok"@))
        &&& forall|k: (int, Seq<char>)|
            pre.pending_ack_ids@.contains_key(k) ==> post.pending_ack_ids@.contains_key(k)
                && post.pending_ack_ids@[k] == pre.pending_ack_ids@[k]
        &&& forall|i: int|
            0 <= i < targets.len() ==> post.pending_ack_ids@.contains_key(
                (pre.next_msg_id + i, #[trigger] targets[i]@),
            ) && post.pending_ack_ids@[(pre.next_msg_id + i, targets[i]@)] == spec_broadcast_body(
                pre.next_msg_id + i,
                body.message as int,
            )
        &&& forall|k: (int, Seq<char>)|
            post.pending_ack_ids@.contains_key(k) ==> pre.pending_ack_ids@.contains_key(k)
                || exists|i: int| 0 <= i < targets.len() && k == (pre.next_msg_id + i, targets[i]@)
    }
}

/// What a retry pass sends, given the node it drains: one envelope per
/// pending send, in ledger order, each carrying exactly the cached body.
pub open spec fn retry_outputs(s: MlstService, out: Seq<MlstComm>) -> bool {
    &&& out.len() == s.pending_ack_ids.entries@.len()
    &&& forall|i: int|
        0 <= i < out.len() ==> (#[trigger] out[i]).src@ == s.own_id() && out[i].dest@
            == s.pending_ack_ids.entries@[i].0.dest@ && (out[i].body matches
        MlstBodyType::Comm(b) && b@ == s.pending_ack_ids.entries@[i].1.msg_str@)
}

/// What one dispatch did, by the kind of the request.
pub open spec fn dispatch_step(
    pre: MlstService,
    post: MlstService,
    comm_id: Option<CommId>,
    src: Seq<char>,
    body: MlstBodyBaseReq,
    out: Seq<MlstComm>,
) -> bool {
    match body {
        MlstBodyBaseReq::Init(b) => init_step(pre, post, src, b, out),
        MlstBodyBaseReq::Echo(b) => echo_step(pre, post, src, b, out),
        MlstBodyBaseReq::Topology(b) => topology_step(pre, post, src, b, out),
        MlstBodyBaseReq::Broadcast(b) => broadcast_step(pre, post, comm_id, src, b, out),
        MlstBodyBaseReq::BroadcastOk(b) => broadcast_ok_step(pre, post, src, b, out),
        MlstBodyBaseReq::Read(b) => read_step(pre, post, src, b, out),
    }
}

/// Every node a fan-out reaches is a neighbor other than the sender.
pub proof fn lemma_fanout_pred(s: Seq<NodeId>, src: Seq<char>)
    ensures
        forall|i: int|
            0 <= i < fanout_targets(s, src).len() ==> (#[trigger] fanout_targets(s, src)[i])@
                != src,
    decreases s.len(),
{
    reveal(Seq::filter);
    if s.len() > 0 {
        lemma_fanout_pred(s.drop_last(), src);
    }
}

/// Every neighbor other than the sender is reached by the fan-out.
pub proof fn lemma_fanout_contains(s: Seq<NodeId>, src: Seq<char>, x: NodeId)
    requires
        s.contains(x),
        x@ != src,
    ensures
        fanout_targets(s, src).contains(x),
    decreases s.len(),
{
    reveal(Seq::filter);
    if s.len() > 0 {
        if s.last() == x {
            assert(fanout_targets(s, src).last() == x);
        } else {
            let i = choose|i: int| 0 <= i < s.len() && s[i] == x;
            assert(s.drop_last()[i] == x);
            lemma_fanout_contains(s.drop_last(), src, x);
            let j = choose|j: int|
                0 <= j < fanout_targets(s.drop_last(), src).len() && fanout_targets(
                    s.drop_last(),
                    src,
                )[j] == x;
            assert(fanout_targets(s, src)[j] == x);
        }
    }
}

/// A copy of a list of node ids.
pub fn clone_node_ids(values: &Vec<NodeId>) -> (r: Vec<NodeId>)
    ensures
        r@ == values@,
{
    let mut out: Vec<NodeId> = Vec::new();
    let mut i: usize = 0;
    while i < values.len()
        invariant
            0 <= i <= values@.len(),
            out@ == values@.subrange(0, i as int),
        decreases values@.len() - i,
    {
        out.push(values[i].clone());
        i += 1;
    }
    proof {
        assert(out@ =~= values@);
    }
    out
}

} // verus!
