//! The deduplication store: the set of broadcast values this node has already
//! applied and forwarded. It grows monotonically and holds each value once,
//! which is what makes re-delivery of a broadcast idempotent.

use vstd::prelude::*;
use crate::proto::MsgType;

verus! {

/// How many times `v` occurs in `s`.
pub open spec fn count_of(s: Seq<MsgType>, v: MsgType) -> nat
    decreases s.len(),
{
    if s.len() == 0 {
        0
    } else {
        count_of(s.drop_last(), v) + if s.last() == v {
            1nat
        } else {
            0nat
        }
    }
}

/// `s` holds no value twice.
pub open spec fn no_duplicates(s: Seq<MsgType>) -> bool {
    forall|i: int, j: int| 0 <= i < j < s.len() ==> s[i] != s[j]
}

/// The set of values already applied by this node, each held exactly once.
pub struct DedupStore {
    pub items: Vec<MsgType>,
}

impl View for DedupStore {
    type V = Seq<MsgType>;

    open spec fn view(&self) -> Seq<MsgType> {
        self.items@
    }
}

impl DedupStore {
    /// The store never holds a value twice.
    pub open spec fn wf(&self) -> bool {
        no_duplicates(self@)
    }

    /// Creates an empty store.
    pub fn new() -> (r: DedupStore)
        ensures
            r@ == Seq::<MsgType>::empty(),
            r.wf(),
    {
        DedupStore { items: Vec::new() }
    }

    /// Returns `true` when `value` was already inserted.
    pub fn contains(&self, value: MsgType) -> (r: bool)
        ensures
            r == self@.contains(value),
    {
        let mut i: usize = 0;
        while i < self.items.len()
            invariant
                0 <= i <= self@.len(),
                forall|j: int| 0 <= j < i ==> self@[j] != value,
            decreases self@.len() - i,
        {
            if self.items[i] == value {
                return true;
            }
            i += 1;
        }
        false
    }

    /// Inserts `value`; a value already present is left as it is.
    pub fn insert(&mut self, value: MsgType)
        requires
            old(self).wf(),
        ensures
            final(self).wf(),
            final(self)@ == if old(self)@.contains(value) {
                old(self)@
            } else {
                old(self)@.push(value)
            },
            final(self)@.contains(value),
    {
        if !self.contains(value) {
            self.items.push(value);
            proof {
                assert(self@[self@.len() - 1] == value);
            }
        }
    }

    /// A copy of the stored values, in insertion order.
    pub fn snapshot(&self) -> (r: Vec<MsgType>)
        ensures
            r@ == self@,
    {
        let mut out: Vec<MsgType> = Vec::new();
        let mut i: usize = 0;
        while i < self.items.len()
            invariant
                0 <= i <= self@.len(),
                out@ == self@.subrange(0, i as int),
            decreases self@.len() - i,
        {
            out.push(self.items[i]);
            i += 1;
        }
        proof {
            assert(out@ =~= self@);
        }
        out
    }

    /// How many values the store holds.
    pub fn len(&self) -> (r: usize)
        ensures
            r == self@.len(),
    {
        self.items.len()
    }
}

/// A value that occurs does so at least once.
pub proof fn lemma_count_of_contains(s: Seq<MsgType>, v: MsgType)
    ensures
        s.contains(v) <==> count_of(s, v) >= 1,
    decreases s.len(),
{
    if s.len() > 0 {
        lemma_count_of_contains(s.drop_last(), v);
        if s.contains(v) && s.last() != v {
            let i = choose|i: int| 0 <= i < s.len() && s[i] == v;
            assert(s.drop_last()[i] == v);
        }
        if s.drop_last().contains(v) {
            let i = choose|i: int| 0 <= i < s.drop_last().len() && s.drop_last()[i] == v;
            assert(s[i] == v);
        }
    }
}

/// Without duplicates, a value occurs at most once.
pub proof fn lemma_no_duplicates_count(s: Seq<MsgType>, v: MsgType)
    requires
        no_duplicates(s),
    ensures
        count_of(s, v) <= 1,
        s.contains(v) ==> count_of(s, v) == 1,
    decreases s.len(),
{
    lemma_count_of_contains(s, v);
    if s.len() > 0 {
        assert(no_duplicates(s.drop_last()));
        lemma_no_duplicates_count(s.drop_last(), v);
        lemma_count_of_contains(s.drop_last(), v);
        if s.last() == v && s.drop_last().contains(v) {
            let i = choose|i: int| 0 <= i < s.drop_last().len() && s.drop_last()[i] == v;
            assert(s[i] == s[s.len() - 1]);
        }
    }
}

} // verus!
