//! The delivery ledger: every send that still awaits an acknowledgment, keyed
//! by the id the sender assigned and the destination node. The ledger caches
//! the exact framed body that went out, so a retry pass re-sends it unchanged.

use vstd::prelude::*;
use vstd::map::*;
use crate::proto::{MsgId, NodeId};

verus! {

/// The exact framed body of a send awaiting acknowledgment.
pub struct MsgCached {
    pub msg_str: String,
}

/// Identifies a pending send: the id assigned at send time and the receiver.
pub struct MsgCachedKey {
    pub msg_id: MsgId,
    pub dest: NodeId,
}

/// The mathematical key of a ledger entry.
pub open spec fn key_view(k: MsgCachedKey) -> (int, Seq<char>) {
    (k.msg_id as int, k.dest@)
}

/// The mapping a sequence of ledger entries denotes; a later entry for the
/// same key wins.
pub open spec fn ledger_map_of(entries: Seq<(MsgCachedKey, MsgCached)>) -> Map<
    (int, Seq<char>),
    Seq<char>,
>
    decreases entries.len(),
{
    if entries.len() == 0 {
        Map::empty()
    } else {
        ledger_map_of(entries.drop_last()).insert(
            key_view(entries.last().0),
            entries.last().1.msg_str@,
        )
    }
}

/// No two entries share a key.
pub open spec fn unique_keys(entries: Seq<(MsgCachedKey, MsgCached)>) -> bool {
    forall|i: int, j: int|
        0 <= i < j < entries.len() ==> key_view(entries[i].0) != key_view(entries[j].0)
}

/// A key of the map is a key of some entry.
pub proof fn lemma_ledger_map_dom(entries: Seq<(MsgCachedKey, MsgCached)>, k: (int, Seq<char>))
    ensures
        ledger_map_of(entries).contains_key(k) <==> exists|i: int|
            0 <= i < entries.len() && key_view(entries[i].0) == k,
    decreases entries.len(),
{
    if entries.len() > 0 {
        lemma_ledger_map_dom(entries.drop_last(), k);
        if ledger_map_of(entries).contains_key(k) {
            if key_view(entries.last().0) == k {
                assert(key_view(entries[entries.len() - 1].0) == k);
            } else {
                let i = choose|i: int|
                    0 <= i < entries.drop_last().len() && key_view(entries.drop_last()[i].0) == k;
                assert(key_view(entries[i].0) == k);
            }
        }
        if exists|i: int| 0 <= i < entries.len() && key_view(entries[i].0) == k {
            let i = choose|i: int| 0 <= i < entries.len() && key_view(entries[i].0) == k;
            if i < entries.len() - 1 {
                assert(key_view(entries.drop_last()[i].0) == k);
            }
        }
    }
}

/// With unique keys, each entry is the one the map holds for its key.
pub proof fn lemma_ledger_map_index(entries: Seq<(MsgCachedKey, MsgCached)>, i: int)
    requires
        unique_keys(entries),
        0 <= i < entries.len(),
    ensures
        ledger_map_of(entries).contains_key(key_view(entries[i].0)),
        ledger_map_of(entries)[key_view(entries[i].0)] == entries[i].1.msg_str@,
    decreases entries.len(),
{
    lemma_ledger_map_dom(entries, key_view(entries[i].0));
    if i < entries.len() - 1 {
        assert(unique_keys(entries.drop_last()));
        assert(entries.drop_last()[i] == entries[i]);
        lemma_ledger_map_index(entries.drop_last(), i);
        assert(key_view(entries[i].0) != key_view(entries[entries.len() - 1].0));
    }
}

/// With unique keys, removing the entry at `i` removes exactly its key.
pub proof fn lemma_ledger_map_remove(entries: Seq<(MsgCachedKey, MsgCached)>, i: int)
    requires
        unique_keys(entries),
        0 <= i < entries.len(),
    ensures
        ledger_map_of(entries.remove(i)) == ledger_map_of(entries).remove(key_view(entries[i].0)),
    decreases entries.len(),
{
    let k = key_view(entries[i].0);
    if i == entries.len() - 1 {
        assert(entries.remove(i) =~= entries.drop_last());
        lemma_ledger_map_dom(entries.drop_last(), k);
        assert(!ledger_map_of(entries.drop_last()).contains_key(k)) by {
            if exists|j: int|
                0 <= j < entries.drop_last().len() && key_view(entries.drop_last()[j].0) == k {
                let j = choose|j: int|
                    0 <= j < entries.drop_last().len() && key_view(entries.drop_last()[j].0) == k;
                assert(key_view(entries[j].0) == key_view(entries[i].0));
            }
        }
        assert(ledger_map_of(entries.drop_last()) =~= ledger_map_of(entries).remove(k));
    } else {
        let shorter = entries.remove(i);
        assert(shorter.drop_last() =~= entries.drop_last().remove(i));
        assert(shorter.last() == entries.last());
        assert(unique_keys(entries.drop_last()));
        lemma_ledger_map_remove(entries.drop_last(), i);
        assert(key_view(entries[i].0) != key_view(entries[entries.len() - 1].0));
        assert(ledger_map_of(shorter) =~= ledger_map_of(entries).remove(k));
    }
}

/// A bound on every entry's id bounds every key of the map.
pub proof fn lemma_ledger_map_keys_bound(entries: Seq<(MsgCachedKey, MsgCached)>, bound: int)
    requires
        forall|i: int| 0 <= i < entries.len() ==> #[trigger] entries[i].0.msg_id < bound,
    ensures
        forall|k: (int, Seq<char>)| #[trigger] ledger_map_of(entries).contains_key(k) ==> k.0 < bound,
{
    assert forall|k: (int, Seq<char>)|
        #[trigger] ledger_map_of(entries).contains_key(k) implies k.0 < bound by {
        lemma_ledger_map_dom(entries, k);
        let i = choose|i: int| 0 <= i < entries.len() && key_view(entries[i].0) == k;
        assert(entries[i].0.msg_id < bound);
    }
}

/// The sends of this node that still await an acknowledgment.
pub struct DeliveryLedger {
    pub entries: Vec<(MsgCachedKey, MsgCached)>,
}

impl View for DeliveryLedger {
    type V = Map<(int, Seq<char>), Seq<char>>;

    open spec fn view(&self) -> Map<(int, Seq<char>), Seq<char>> {
        ledger_map_of(self.entries@)
    }
}

impl DeliveryLedger {
    /// Each pending send is recorded once.
    pub open spec fn wf(&self) -> bool {
        unique_keys(self.entries@)
    }

    /// Creates an empty ledger.
    pub fn new() -> (r: DeliveryLedger)
        ensures
            r@ == Map::<(int, Seq<char>), Seq<char>>::empty(),
            r.wf(),
            r.entries@.len() == 0,
    {
        DeliveryLedger { entries: Vec::new() }
    }

    /// The position of the entry for `(msg_id, dest)`, if one is pending.
    fn find(&self, msg_id: MsgId, dest: &NodeId) -> (r: Option<usize>)
        ensures
            match r {
                Some(i) => 0 <= i < self.entries@.len() && key_view(self.entries@[i as int].0)
                    == (msg_id as int, dest@),
                None => forall|i: int|
                    0 <= i < self.entries@.len() ==> key_view(self.entries@[i].0) != (
                    msg_id as int,
                    dest@,
                ),
            },
    {
        let mut i: usize = 0;
        while i < self.entries.len()
            invariant
                0 <= i <= self.entries@.len(),
                forall|j: int|
                    0 <= j < i ==> key_view(self.entries@[j].0) != (msg_id as int, dest@),
            decreases self.entries@.len() - i,
        {
            let entry_key = &self.entries[i].0;
            if entry_key.msg_id == msg_id && entry_key.dest == *dest {
                return Some(i);
            }
            i += 1;
        }
        None
    }

    /// Records a send as pending; a second record for the same key replaces
    /// the first (last write wins).
    pub fn track(&mut self, key: MsgCachedKey, value: MsgCached)
        requires
            old(self).wf(),
        ensures
            final(self).wf(),
            final(self)@ == old(self)@.insert(key_view(key), value.msg_str@),
            final(self).entries@.len() <= old(self).entries@.len() + 1,
            forall|i: int|
                0 <= i < final(self).entries@.len() ==> (#[trigger] final(self).entries@[i]) == (
                key,
                value,
            ) || exists|j: int|
                0 <= j < old(self).entries@.len() && final(self).entries@[i] == old(
                    self,
                ).entries@[j],
    {
        let ghost k = (key.msg_id as int, key.dest@);
        match self.find(key.msg_id, &key.dest) {
            Some(i) => {
                proof {
                    lemma_ledger_map_remove(self.entries@, i as int);
                }
                let ghost pre = self.entries@;
                self.entries.remove(i);
                proof {
                    assert(unique_keys(self.entries@)) by {
                        assert(forall|a: int, b: int|
                            0 <= a < b < self.entries@.len() ==> key_view(self.entries@[a].0)
                                != key_view(self.entries@[b].0)) by {
                            assert(forall|a: int|
                                0 <= a < self.entries@.len() ==> #[trigger] self.entries@[a]
                                    == if a < i { pre[a] } else { pre[a + 1] });
                        }
                    }
                    assert(forall|j: int|
                        0 <= j < self.entries@.len() ==> key_view(#[trigger] self.entries@[j].0)
                            != k) by {
                        assert(forall|a: int|
                            0 <= a < self.entries@.len() ==> #[trigger] self.entries@[a] == if a
                                < i {
                                pre[a]
                            } else {
                                pre[a + 1]
                            });
                    }
                }
                self.push_fresh(key, value);
                proof {
                    assert(final(self)@ =~= old(self)@.insert(k, value.msg_str@));
                }
            },
            None => {
                self.push_fresh(key, value);
            },
        }
    }

    /// Appends an entry whose key is not yet present.
    fn push_fresh(&mut self, key: MsgCachedKey, value: MsgCached)
        requires
            old(self).wf(),
            forall|i: int|
                0 <= i < old(self).entries@.len() ==> key_view(old(self).entries@[i].0)
                    != key_view(key),
        ensures
            final(self).wf(),
            final(self)@ == old(self)@.insert(key_view(key), value.msg_str@),
            final(self).entries@ == old(self).entries@.push((key, value)),
    {
        self.entries.push((key, value));
        proof {
            assert(self.entries@.drop_last() =~= old(self).entries@);
            assert(forall|a: int, b: int|
                0 <= a < b < self.entries@.len() ==> key_view(#[trigger] self.entries@[a].0)
                    != key_view(#[trigger] self.entries@[b].0)) by {
                assert(forall|a: int|
                    0 <= a < old(self).entries@.len() ==> #[trigger] self.entries@[a]
                        == old(self).entries@[a]);
            }
        }
    }

    /// Removes the pending send for `(msg_id, dest)`; removing one that is
    /// not pending changes nothing.
    pub fn acknowledge(&mut self, msg_id: MsgId, dest: &NodeId)
        requires
            old(self).wf(),
        ensures
            final(self).wf(),
            final(self)@ == old(self)@.remove((msg_id as int, dest@)),
            old(self)@.contains_key((msg_id as int, dest@)) ==> final(self).entries@.len() == old(
                self,
            ).entries@.len() - 1,
            !old(self)@.contains_key((msg_id as int, dest@)) ==> final(self).entries@ == old(
                self,
            ).entries@,
            forall|i: int|
                0 <= i < final(self).entries@.len() ==> exists|j: int|
                    0 <= j < old(self).entries@.len() && (#[trigger] final(self).entries@[i])
                        == old(self).entries@[j],
    {
        let ghost k = (msg_id as int, dest@);
        proof {
            lemma_ledger_map_dom(self.entries@, k);
        }
        match self.find(msg_id, dest) {
            Some(i) => {
                proof {
                    lemma_ledger_map_remove(self.entries@, i as int);
                }
                let ghost pre = self.entries@;
                self.entries.remove(i);
                proof {
                    assert(unique_keys(self.entries@)) by {
                        assert(forall|a: int|
                            0 <= a < self.entries@.len() ==> #[trigger] self.entries@[a] == if a
                                < i {
                                pre[a]
                            } else {
                                pre[a + 1]
                            });
                    }
                }
            },
            None => {
                proof {
                    assert(!old(self)@.contains_key(k));
                    assert(final(self)@ =~= old(self)@.remove(k));
                }
            },
        }
    }

    /// The destination and exact cached body of every pending send, in ledger
    /// order.
    pub fn all_pending(&self) -> (r: Vec<(NodeId, String)>)
        ensures
            r@.len() == self.entries@.len(),
            forall|i: int|
                0 <= i < r@.len() ==> #[trigger] r@[i].0@ == self.entries@[i].0.dest@ && r@[i].1@
                    == self.entries@[i].1.msg_str@,
    {
        let mut out: Vec<(NodeId, String)> = Vec::new();
        let mut i: usize = 0;
        while i < self.entries.len()
            invariant
                0 <= i <= self.entries@.len(),
                out@.len() == i,
                forall|j: int|
                    0 <= j < i ==> #[trigger] out@[j].0@ == self.entries@[j].0.dest@ && out@[j].1@
                        == self.entries@[j].1.msg_str@,
            decreases self.entries@.len() - i,
        {
            let dest = self.entries[i].0.dest.clone();
            let body = self.entries[i].1.msg_str.clone();
            out.push((dest, body));
            i += 1;
        }
        out
    }

    /// How many sends are pending.
    pub fn len(&self) -> (r: usize)
        ensures
            r == self.entries@.len(),
    {
        self.entries.len()
    }
}

} // verus!
