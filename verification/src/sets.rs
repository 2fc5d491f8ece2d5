//! The sets that grow while a unit is translated: the spans and the
//! definitions that were met. Nothing is ever taken out of them, and putting
//! a member in again changes nothing.

use std::collections::HashSet;
use vstd::prelude::*;
use crate::ids::{DefId, HostSpan};

verus! {

broadcast use vstd::std_specs::hash::group_hash_axioms;

/// The number that stands for `span` in a hash set: its four fields as the
/// digits of a number to base 2^32.
pub open spec fn span_key(span: HostSpan) -> u128 {
    (((span.file as int * 0x1_0000_0000 + span.lo as int) * 0x1_0000_0000 + span.hi as int)
        * 0x1_0000_0000 + span.ctxt as int) as u128
}

/// The number that stands for `id` in a hash set: its two fields as the
/// digits of a number to base 2^32.
pub open spec fn def_id_key(id: DefId) -> u64 {
    (id.krate as int * 0x1_0000_0000 + id.index as int) as u64
}

/// Different spans have different keys.
pub proof fn lemma_span_key_injective(a: HostSpan, b: HostSpan)
    requires
        span_key(a) == span_key(b),
    ensures
        a == b,
{
}

/// Different definitions have different keys.
pub proof fn lemma_def_id_key_injective(a: DefId, b: DefId)
    requires
        def_id_key(a) == def_id_key(b),
    ensures
        a == b,
{
}

/// Computes the key of `span`.
fn key_of_span(span: HostSpan) -> (key: u128)
    ensures
        key == span_key(span),
{
    let file: u128 = span.file as u128;
    let lo: u128 = span.lo as u128;
    let hi: u128 = span.hi as u128;
    let ctxt: u128 = span.ctxt as u128;
    ((file * 0x1_0000_0000 + lo) * 0x1_0000_0000 + hi) * 0x1_0000_0000 + ctxt
}

/// Computes the key of `id`.
fn key_of_def_id(id: DefId) -> (key: u64)
    ensures
        key == def_id_key(id),
{
    let krate: u64 = id.krate as u64;
    let index: u64 = id.index as u64;
    krate * 0x1_0000_0000 + index
}

/// A set of host spans that remembers the order in which they came.
#[derive(Debug)]
pub struct SpanSet {
    pub keys: HashSet<u128>,
    pub items: Vec<HostSpan>,
}

impl View for SpanSet {
    type V = Set<HostSpan>;

    open spec fn view(&self) -> Set<HostSpan> {
        self.items@.to_set()
    }
}

impl SpanSet {
    /// Whether the set names each member once, and the hash set holds the
    /// keys of the members.
    pub open spec fn wf(&self) -> bool {
        &&& self.items@.no_duplicates()
        &&& forall|span: HostSpan|
            self.items@.contains(span) <==> #[trigger] self.keys@.contains(span_key(span))
    }

    /// The empty set.
    pub fn new() -> (set: SpanSet)
        ensures
            set.wf(),
            set@ == Set::<HostSpan>::empty(),
            set.items@ == Seq::<HostSpan>::empty(),
    {
        let set = SpanSet { keys: HashSet::new(), items: Vec::new() };
        assert(set@ =~= Set::<HostSpan>::empty());
        set
    }

    /// Whether `span` is a member.
    pub fn contains(&self, span: HostSpan) -> (found: bool)
        requires
            self.wf(),
        ensures
            found == self@.contains(span),
    {
        let key: u128 = key_of_span(span);
        self.keys.contains(&key)
    }

    /// The number of members.
    pub fn len(&self) -> (n: usize)
        ensures
            n == self.items@.len(),
    {
        self.items.len()
    }

    /// Makes `span` a member; where it is one, nothing changes. Says whether
    /// it is new.
    pub fn insert(&mut self, span: HostSpan) -> (added: bool)
        requires
            old(self).wf(),
        ensures
            final(self).wf(),
            final(self)@ == old(self)@.insert(span),
            added == !old(self)@.contains(span),
            added ==> final(self).items@ == old(self).items@.push(span),
            !added ==> final(self).items@ == old(self).items@,
    {
        let key: u128 = key_of_span(span);
        let ghost before = *self;
        if self.keys.insert(key) {
            self.items.push(span);
            proof {
                assert forall|other: HostSpan|
                    self.items@.contains(other) <==> #[trigger] self.keys@.contains(
                        span_key(other),
                    ) by {
                    if other == span {
                        assert(self.items@[before.items@.len() as int] == span);
                    } else {
                        if span_key(other) == span_key(span) {
                            lemma_span_key_injective(other, span);
                        }
                        if before.items@.contains(other) {
                            let k = choose|k: int|
                                0 <= k < before.items@.len() && before.items@[k] == other;
                            assert(self.items@[k] == other);
                        }
                        if self.items@.contains(other) {
                            let k = choose|k: int|
                                0 <= k < self.items@.len() && self.items@[k] == other;
                            assert(before.items@[k] == other);
                        }
                        assert(before.items@.contains(other) <==> before.keys@.contains(
                            span_key(other),
                        ));
                    }
                }
                assert forall|a: int, b: int|
                    0 <= a < self.items@.len() && 0 <= b < self.items@.len() && a
                        != b implies self.items@[a] != self.items@[b] by {
                    if a < before.items@.len() {
                        assert(before.items@.contains(self.items@[a]));
                    }
                    if b < before.items@.len() {
                        assert(before.items@.contains(self.items@[b]));
                    }
                }
                assert(self@ =~= before@.insert(span)) by {
                    assert forall|other: HostSpan| self@.contains(other) <==> before@.insert(
                        span,
                    ).contains(other) by {
                        if before.items@.contains(other) {
                            let k = choose|k: int|
                                0 <= k < before.items@.len() && before.items@[k] == other;
                            assert(self.items@[k] == other);
                        }
                        if other == span {
                            assert(self.items@[before.items@.len() as int] == span);
                        }
                        if self.items@.contains(other) && other != span {
                            let k = choose|k: int|
                                0 <= k < self.items@.len() && self.items@[k] == other;
                            assert(before.items@[k] == other);
                        }
                    }
                }
            }
            true
        } else {
            assert(self@ =~= before@.insert(span));
            false
        }
    }
}

/// A set of definitions that remembers the order in which they came.
#[derive(Debug)]
pub struct DefIdSet {
    pub keys: HashSet<u64>,
    pub items: Vec<DefId>,
}

impl View for DefIdSet {
    type V = Set<DefId>;

    open spec fn view(&self) -> Set<DefId> {
        self.items@.to_set()
    }
}

impl DefIdSet {
    /// Whether the set names each member once, and the hash set holds the
    /// keys of the members.
    pub open spec fn wf(&self) -> bool {
        &&& self.items@.no_duplicates()
        &&& forall|id: DefId|
            self.items@.contains(id) <==> #[trigger] self.keys@.contains(def_id_key(id))
    }

    /// The empty set.
    pub fn new() -> (set: DefIdSet)
        ensures
            set.wf(),
            set@ == Set::<DefId>::empty(),
            set.items@ == Seq::<DefId>::empty(),
    {
        let set = DefIdSet { keys: HashSet::new(), items: Vec::new() };
        assert(set@ =~= Set::<DefId>::empty());
        set
    }

    /// Whether `id` is a member.
    pub fn contains(&self, id: DefId) -> (found: bool)
        requires
            self.wf(),
        ensures
            found == self@.contains(id),
    {
        let key: u64 = key_of_def_id(id);
        self.keys.contains(&key)
    }

    /// The number of members.
    pub fn len(&self) -> (n: usize)
        ensures
            n == self.items@.len(),
    {
        self.items.len()
    }

    /// Makes `id` a member; where it is one, nothing changes. Says whether it
    /// is new.
    pub fn insert(&mut self, id: DefId) -> (added: bool)
        requires
            old(self).wf(),
        ensures
            final(self).wf(),
            final(self)@ == old(self)@.insert(id),
            added == !old(self)@.contains(id),
            added ==> final(self).items@ == old(self).items@.push(id),
            !added ==> final(self).items@ == old(self).items@,
    {
        let key: u64 = key_of_def_id(id);
        let ghost before = *self;
        if self.keys.insert(key) {
            self.items.push(id);
            proof {
                assert forall|other: DefId|
                    self.items@.contains(other) <==> #[trigger] self.keys@.contains(
                        def_id_key(other),
                    ) by {
                    if other == id {
                        assert(self.items@[before.items@.len() as int] == id);
                    } else {
                        if def_id_key(other) == def_id_key(id) {
                            lemma_def_id_key_injective(other, id);
                        }
                        if before.items@.contains(other) {
                            let k = choose|k: int|
                                0 <= k < before.items@.len() && before.items@[k] == other;
                            assert(self.items@[k] == other);
                        }
                        if self.items@.contains(other) {
                            let k = choose|k: int|
                                0 <= k < self.items@.len() && self.items@[k] == other;
                            assert(before.items@[k] == other);
                        }
                        assert(before.items@.contains(other) <==> before.keys@.contains(
                            def_id_key(other),
                        ));
                    }
                }
                assert forall|a: int, b: int|
                    0 <= a < self.items@.len() && 0 <= b < self.items@.len() && a
                        != b implies self.items@[a] != self.items@[b] by {
                    if a < before.items@.len() {
                        assert(before.items@.contains(self.items@[a]));
                    }
                    if b < before.items@.len() {
                        assert(before.items@.contains(self.items@[b]));
                    }
                }
                assert(self@ =~= before@.insert(id)) by {
                    assert forall|other: DefId| self@.contains(other) <==> before@.insert(
                        id,
                    ).contains(other) by {
                        if before.items@.contains(other) {
                            let k = choose|k: int|
                                0 <= k < before.items@.len() && before.items@[k] == other;
                            assert(self.items@[k] == other);
                        }
                        if other == id {
                            assert(self.items@[before.items@.len() as int] == id);
                        }
                        if self.items@.contains(other) && other != id {
                            let k = choose|k: int|
                                0 <= k < self.items@.len() && self.items@[k] == other;
                            assert(before.items@[k] == other);
                        }
                    }
                }
            }
            true
        } else {
            assert(self@ =~= before@.insert(id));
            false
        }
    }
}

/// Putting a member in twice is putting it in once, and the order in which
/// two members are put in does not show in the set.
pub proof fn lemma_insert_idempotent_commutative<T>(set: Set<T>, a: T, b: T)
    ensures
        set.insert(a).insert(a) == set.insert(a),
        set.insert(a).insert(b) == set.insert(b).insert(a),
{
    assert(set.insert(a).insert(a) =~= set.insert(a));
    assert(set.insert(a).insert(b) =~= set.insert(b).insert(a));
}

} // verus!
