//! Having every body once, and in a safe order.
//!
//! The host gives the body of a definition away once. Evaluating a constant
//! may ask for the bodies of other constants on its way. So all bodies are
//! asked for up front, constants first, then functions that may be evaluated
//! at compile time, then all others: no body is then asked for behind the
//! back of this pass. A body that cannot be had is replaced by one that holds
//! an error literal, and the pass goes on.

use std::collections::{HashMap, HashSet};
use itertools::Itertools;
use vstd::prelude::*;
use crate::ids::{ErrorGuaranteed, HostSpan, LocalDefId};
use crate::thir::{dummy_thir_body, error_expr, ExprId, Thir};

verus! {

broadcast use vstd::std_specs::hash::group_hash_axioms;

/// The kind of a definition.
#[derive(Debug, Clone, Copy, PartialEq, Eq, Hash, Structural)]
pub enum DefKind {
    Mod,
    Struct,
    Union,
    Enum,
    Variant,
    Trait,
    TyAlias,
    TyParam,
    Fn,
    Const,
    ConstParam,
    Static,
    Ctor,
    AssocFn,
    AssocConst,
    Macro,
    Impl,
    AnonConst,
    InlineConst,
    Closure,
}

/// How far a definition is a constant. The levels are in the order in which
/// bodies are asked for.
#[derive(Debug, Clone, Copy, PartialEq, Eq, Hash, Structural)]
pub enum ConstLevel {
    /// A constant, or a constant parameter.
    Const,
    /// A function that may be evaluated at compile time.
    ConstFn,
    /// Any other function or closure.
    NotConst,
}

/// What the host answers when it is asked for a body.
#[derive(Debug, PartialEq, Eq)]
pub enum BodyState {
    /// The expressions of the body, and its root.
    Ready(Thir, ExprId),
    /// The body does not type-check.
    TypeError,
    /// The body was given away before.
    Stolen,
}

/// What the host says of a definition that may own a body, before it is
/// asked for the body.
#[derive(Debug, Clone, Copy, PartialEq, Eq, Hash, Structural)]
pub struct BodyOwner {
    pub id: LocalDefId,
    pub kind: DefKind,
    /// The kind of the definition that this one stands directly in.
    pub parent_kind: DefKind,
    /// Whether this is a function that may be evaluated at compile time.
    pub is_const_fn: bool,
    pub span: HostSpan,
    /// Whether the definition has a body of its own.
    pub has_body: bool,
}

impl DefKind {
    /// Whether a definition of this kind is a function, a method, a
    /// constructor or a closure.
    pub open spec fn spec_is_fn_like(&self) -> bool {
        *self is Fn || *self is AssocFn || *self is Ctor || *self is Closure
    }

    /// Whether a definition of this kind is a function, a method, a
    /// constructor or a closure.
    #[verifier::when_used_as_spec(spec_is_fn_like)]
    pub fn is_fn_like(&self) -> (fn_like: bool)
        ensures
            fn_like == self.spec_is_fn_like(),
    {
        match self {
            DefKind::Fn | DefKind::AssocFn | DefKind::Ctor | DefKind::Closure => true,
            _ => false,
        }
    }

    /// Whether a definition of this kind is a constant that the program does
    /// not name: the length of an array type, an inline `const` block.
    pub open spec fn spec_is_anonymous_const(&self) -> bool {
        *self is AnonConst || *self is InlineConst
    }

    /// Whether a definition of this kind is a constant that the program does
    /// not name.
    #[verifier::when_used_as_spec(spec_is_anonymous_const)]
    pub fn is_anonymous_const(&self) -> (anonymous: bool)
        ensures
            anonymous == self.spec_is_anonymous_const(),
    {
        match self {
            DefKind::AnonConst | DefKind::InlineConst => true,
            _ => false,
        }
    }

    /// Whether a definition of this kind is a constant of any sort.
    pub open spec fn spec_is_constant(&self) -> bool {
        *self is Const || *self is ConstParam || *self is AssocConst || *self is AnonConst
            || *self is InlineConst
    }

    /// Whether a definition of this kind is a constant of any sort.
    #[verifier::when_used_as_spec(spec_is_constant)]
    pub fn is_constant(&self) -> (constant: bool)
        ensures
            constant == self.spec_is_constant(),
    {
        match self {
            DefKind::Const
            | DefKind::ConstParam
            | DefKind::AssocConst
            | DefKind::AnonConst
            | DefKind::InlineConst => true,
            _ => false,
        }
    }
}

impl ConstLevel {
    /// The place of this level in the order of extraction.
    pub open spec fn spec_rank(&self) -> u8 {
        match self {
            ConstLevel::Const => 0,
            ConstLevel::ConstFn => 1,
            ConstLevel::NotConst => 2,
        }
    }

    /// The place of this level in the order of extraction.
    #[verifier::when_used_as_spec(spec_rank)]
    pub fn rank(&self) -> (rank: u8)
        ensures
            rank == self.spec_rank(),
    {
        match self {
            ConstLevel::Const => 0,
            ConstLevel::ConstFn => 1,
            ConstLevel::NotConst => 2,
        }
    }
}

/// The level of the definition `owner`.
pub open spec fn level_of(owner: BodyOwner) -> ConstLevel {
    if owner.kind.spec_is_constant() {
        ConstLevel::Const
    } else if owner.is_const_fn {
        ConstLevel::ConstFn
    } else {
        ConstLevel::NotConst
    }
}

/// Whether the pass asks for the body of `owner`: it has one, and it is not
/// reached through another body. An unnamed constant is reached through the
/// body around it unless it stands directly in a function, a method, a
/// constructor or a closure.
pub open spec fn is_scheduled(owner: BodyOwner) -> bool {
    &&& owner.has_body
    &&& owner.kind.spec_is_anonymous_const() ==> owner.parent_kind.spec_is_fn_like()
}

/// The test for the definitions whose body the pass asks for.
pub open spec fn scheduled() -> spec_fn(BodyOwner) -> bool {
    |owner: BodyOwner| is_scheduled(owner)
}

/// The test for the definitions whose level has the rank `rank`.
pub open spec fn has_rank(rank: u8) -> spec_fn(BodyOwner) -> bool {
    |owner: BodyOwner| level_of(owner).spec_rank() == rank
}

/// The order in which the pass asks for bodies: the constants among the
/// scheduled definitions, then the functions that may be evaluated at compile
/// time, then all others, each group in the order of `owners`.
pub open spec fn schedule_of(owners: Seq<BodyOwner>) -> Seq<BodyOwner> {
    grouped(owners.filter(scheduled()))
}

impl BodyOwner {
    /// The level of this definition.
    pub fn const_level(&self) -> (level: ConstLevel)
        ensures
            level == level_of(*self),
    {
        if self.kind.is_constant() {
            ConstLevel::Const
        } else if self.is_const_fn {
            ConstLevel::ConstFn
        } else {
            ConstLevel::NotConst
        }
    }

    /// The rank of the level of this definition.
    pub fn level_rank(&self) -> (rank: u8)
        ensures
            rank == level_of(*self).spec_rank(),
            rank <= 2,
    {
        self.const_level().rank()
    }

    /// Whether the pass asks for the body of this definition.
    pub fn is_scheduled(&self) -> (wanted: bool)
        ensures
            wanted == is_scheduled(*self),
    {
        self.has_body && (!self.kind.is_anonymous_const() || self.parent_kind.is_fn_like())
    }
}

/// `Itertools::sorted_by_key` of the crate `itertools`, with the rank of the
/// level as the key. It is a stable sort: the result is in ascending order of
/// the key, and the items of one key are those of the input with that key,
/// in the order they had there.
#[verifier::external_body]
fn sorted_by_level(owners: Vec<BodyOwner>) -> (sorted: Vec<BodyOwner>)
    ensures
        forall|i: int, j: int|
            0 <= i <= j < sorted@.len() ==> level_of(sorted@[i]).spec_rank() <= level_of(
                sorted@[j],
            ).spec_rank(),
        forall|rank: u8| #[trigger]
            sorted@.filter(has_rank(rank)) == owners@.filter(has_rank(rank)),
{
    owners.into_iter().sorted_by_key(|owner| owner.level_rank()).collect()
}

/// Whether the ranks of `s` never go down.
#[verifier::opaque]
pub open spec fn ascending(s: Seq<BodyOwner>) -> bool {
    forall|i: int, j: int|
        0 <= i <= j < s.len() ==> level_of(#[trigger] s[i]).spec_rank() <= level_of(
            #[trigger] s[j],
        ).spec_rank()
}

/// No item of a sequence has a rank above the ranks of all its items.
proof fn lemma_none_above(t: Seq<BodyOwner>, bound: u8, rank: u8)
    requires
        forall|i: int| 0 <= i < t.len() ==> level_of(#[trigger] t[i]).spec_rank() <= bound,
        bound < rank,
    ensures
        t.filter(has_rank(rank)) == Seq::<BodyOwner>::empty(),
    decreases t.len(),
{
    if t.len() == 0 {
        t.lemma_filter_len(has_rank(rank));
        assert(t.filter(has_rank(rank)) =~= Seq::<BodyOwner>::empty());
    } else {
        let u = t.drop_last();
        assert(t =~= u.push(t.last()));
        assert forall|i: int| 0 <= i < u.len() implies level_of(#[trigger] u[i]).spec_rank()
            <= bound by {
            assert(u[i] == t[i]);
        }
        lemma_none_above(u, bound, rank);
        u.lemma_filter_push(t.last(), has_rank(rank));
        assert(!has_rank(rank)(t.last()));
    }
}

/// The items of `s` of rank 0, then those of rank 1, then those of rank 2.
#[verifier::opaque]
pub open spec fn grouped(s: Seq<BodyOwner>) -> Seq<BodyOwner> {
    s.filter(has_rank(0)) + s.filter(has_rank(1)) + s.filter(has_rank(2))
}

/// An item is added at the end of three sequences as it is added at the
/// end of the last of them that is not empty.
proof fn lemma_push_into_groups(a: Seq<BodyOwner>, b: Seq<BodyOwner>, c: Seq<BodyOwner>, x: BodyOwner)
    ensures
        (a + b + c).push(x) == a + b + c.push(x),
        c.len() == 0 ==> (a + b + c).push(x) == a + b.push(x) + c,
        b.len() == 0 && c.len() == 0 ==> (a + b + c).push(x) == a.push(x) + b + c,
{
    assert((a + b + c).push(x) =~= a + b + c.push(x));
    if c.len() == 0 {
        assert((a + b + c).push(x) =~= a + b.push(x) + c);
        if b.len() == 0 {
            assert((a + b + c).push(x) =~= a.push(x) + b + c);
        }
    }
}

/// Grouping keeps an item at the end whose rank is not below any other.
proof fn lemma_grouped_push(t: Seq<BodyOwner>, x: BodyOwner)
    requires
        forall|i: int|
            0 <= i < t.len() ==> level_of(#[trigger] t[i]).spec_rank() <= level_of(x).spec_rank(),
    ensures
        grouped(t.push(x)) == grouped(t).push(x),
{
    reveal(grouped);
    t.lemma_filter_push(x, has_rank(0));
    t.lemma_filter_push(x, has_rank(1));
    t.lemma_filter_push(x, has_rank(2));
    let r = level_of(x).spec_rank();
    lemma_push_into_groups(
        t.filter(has_rank(0)),
        t.filter(has_rank(1)),
        t.filter(has_rank(2)),
        x,
    );
    if r == 0 {
        lemma_none_above(t, 0, 1);
        lemma_none_above(t, 0, 2);
    } else if r == 1 {
        lemma_none_above(t, 1, 2);
    }
}

/// Grouping nothing gives nothing.
proof fn lemma_grouped_empty(e: Seq<BodyOwner>)
    requires
        e.len() == 0,
    ensures
        e == grouped(e),
{
    reveal(grouped);
    e.lemma_filter_len(has_rank(0));
    e.lemma_filter_len(has_rank(1));
    e.lemma_filter_len(has_rank(2));
    assert(e =~= grouped(e));
}

/// Every start of a sequence in ascending order of rank is its items of
/// rank 0, then those of rank 1, then those of rank 2.
proof fn lemma_ascending_is_grouped(s: Seq<BodyOwner>, n: int)
    requires
        ascending(s),
        0 <= n <= s.len(),
    ensures
        s.take(n) == grouped(s.take(n)),
    decreases n,
{
    if n == 0 {
        lemma_grouped_empty(s.take(0));
    } else {
        let t = s.take(n - 1);
        let x = s[n - 1];
        lemma_ascending_is_grouped(s, n - 1);
        assert forall|i: int| 0 <= i < t.len() implies level_of(#[trigger] t[i]).spec_rank()
            <= level_of(x).spec_rank() by {
            lemma_ascending_pair(s, i, n - 1);
        }
        lemma_grouped_push(t, x);
        assert(s.take(n) =~= t.push(x));
    }
}

/// In a sequence in ascending order, an item's rank is not above that of a
/// later one.
pub proof fn lemma_ascending_pair(s: Seq<BodyOwner>, i: int, j: int)
    requires
        ascending(s),
        0 <= i <= j < s.len(),
    ensures
        level_of(s[i]).spec_rank() <= level_of(s[j]).spec_rank(),
{
    reveal(ascending);
}

/// Puts the definitions whose body is to be asked for in the order in which
/// to ask.
pub fn schedule(owners: &Vec<BodyOwner>) -> (order: Vec<BodyOwner>)
    ensures
        order@ == schedule_of(owners@),
{
    let mut wanted: Vec<BodyOwner> = Vec::new();
    let mut i: usize = 0;
    proof {
        assert(owners@.take(0) =~= Seq::<BodyOwner>::empty());
        owners@.take(0).lemma_filter_len(scheduled());
        assert(wanted@ =~= owners@.take(0).filter(scheduled()));
    }
    while i < owners.len()
        invariant
            i <= owners.len(),
            wanted@ == owners@.take(i as int).filter(scheduled()),
        decreases owners.len() - i,
    {
        proof {
            assert(owners@.take(i + 1) =~= owners@.take(i as int).push(owners@[i as int]));
            owners@.take(i as int).lemma_filter_push(owners@[i as int], scheduled());
        }
        if owners[i].is_scheduled() {
            wanted.push(owners[i]);
        }
        i = i + 1;
    }
    let ghost all = wanted@;
    let sorted = sorted_by_level(wanted);
    proof {
        assert(owners@.take(i as int) =~= owners@);
        let s = sorted@;
        reveal(ascending);
        assert(ascending(s));
        lemma_ascending_is_grouped(s, s.len() as int);
        assert(s.take(s.len() as int) =~= s);
        assert(s.filter(has_rank(0)) == all.filter(has_rank(0)));
        assert(s.filter(has_rank(1)) == all.filter(has_rank(1)));
        assert(s.filter(has_rank(2)) == all.filter(has_rank(2)));
        reveal(grouped);
    }
    sorted
}

/// The body of a definition, extracted from the host.
#[derive(Debug, PartialEq, Eq)]
pub struct ExtractedBody {
    pub owner: LocalDefId,
    pub thir: Thir,
    pub root: ExprId,
}

/// Why a body could not be had.
#[derive(Debug, Clone, Copy, PartialEq, Eq, Hash, Structural)]
pub enum FailureCause {
    /// The body does not type-check.
    TypeError,
    /// The body was given away before the pass asked for it.
    Stolen,
}

/// The report of a body that could not be had. The error literal that stands
/// for the body goes with one such report.
#[derive(Debug, Clone, Copy, PartialEq, Eq, Hash, Structural)]
pub struct ExtractionFailure {
    pub owner: LocalDefId,
    pub span: HostSpan,
    pub cause: FailureCause,
}

/// What the host answers when it is asked for the body of `id`. Where
/// `answers` holds none, the body is not to be had any more.
pub open spec fn answer_for(answers: Map<u32, BodyState>, id: LocalDefId) -> BodyState {
    if answers.contains_key(id.index) {
        answers[id.index]
    } else {
        BodyState::Stolen
    }
}

/// Whether `body` is what asking for the body of `owner` gives: the body
/// that the host holds, or the error body where it holds none to give.
pub open spec fn extraction_of(answers: Map<u32, BodyState>, owner: BodyOwner, body: ExtractedBody)
    -> bool {
    &&& body.owner == owner.id
    &&& match answer_for(answers, owner.id) {
        BodyState::Ready(thir, root) => body.thir@ == thir@ && body.root == root,
        _ => body.thir@ == seq![error_expr(owner.span)] && body.root == (ExprId { index: 0 }),
    }
}

/// The report that asking for the body of `owner` gives rise to, if any.
pub open spec fn failure_of(answers: Map<u32, BodyState>, owner: BodyOwner) -> Option<
    ExtractionFailure,
> {
    match answer_for(answers, owner.id) {
        BodyState::TypeError => Some(
            ExtractionFailure { owner: owner.id, span: owner.span, cause: FailureCause::TypeError },
        ),
        BodyState::Stolen => Some(
            ExtractionFailure { owner: owner.id, span: owner.span, cause: FailureCause::Stolen },
        ),
        BodyState::Ready(_, _) => None,
    }
}

/// The identifiers of `owners`, in their order.
pub open spec fn owner_ids(owners: Seq<BodyOwner>) -> Seq<LocalDefId> {
    owners.map_values(|owner: BodyOwner| owner.id)
}

/// The definitions of `order` that the pass asks the host about: each
/// identifier where it comes first.
pub open spec fn visited(order: Seq<BodyOwner>) -> Seq<BodyOwner>
    decreases order.len(),
{
    if order.len() == 0 {
        order
    } else {
        let before = visited(order.drop_last());
        if owner_ids(before).contains(order.last().id) {
            before
        } else {
            before.push(order.last())
        }
    }
}

/// The test for the definitions whose body cannot be had.
pub open spec fn fails(answers: Map<u32, BodyState>) -> spec_fn(BodyOwner) -> bool {
    |owner: BodyOwner| failure_of(answers, owner) is Some
}

/// The reports for the definitions `owners`, in their order.
pub open spec fn failures_of(answers: Map<u32, BodyState>, owners: Seq<BodyOwner>) -> Seq<
    ExtractionFailure,
> {
    owners.filter(fails(answers)).map_values(
        |owner: BodyOwner| failure_of(answers, owner)->Some_0,
    )
}

/// The bodies that were extracted, by the definition that owns them, and the
/// order in which they were asked for. Nothing is ever taken out.
#[derive(Debug)]
pub struct BodyCache {
    pub bodies: HashMap<u32, ExtractedBody>,
    pub order: Vec<LocalDefId>,
}

impl BodyCache {
    /// Whether the cache names each of its bodies once: a definition is in
    /// `order` exactly if it has a body, and never twice.
    pub open spec fn wf(&self) -> bool {
        &&& self.order@.no_duplicates()
        &&& forall|id: LocalDefId|
            self.order@.contains(id) <==> #[trigger] self.bodies@.contains_key(id.index)
        &&& forall|index: u32| #[trigger]
            self.bodies@.contains_key(index) ==> self.bodies@[index].owner.index == index
    }

    /// The cache without any body.
    pub fn new() -> (cache: BodyCache)
        ensures
            cache.wf(),
            cache.bodies@ == Map::<u32, ExtractedBody>::empty(),
            cache.order@ == Seq::<LocalDefId>::empty(),
    {
        BodyCache { bodies: HashMap::new(), order: Vec::new() }
    }

    /// Whether the body of `id` is in the cache.
    pub fn contains(&self, id: LocalDefId) -> (found: bool)
        ensures
            found == self.bodies@.contains_key(id.index),
    {
        self.bodies.contains_key(&id.index)
    }

    /// The body of `id`, if it is in the cache.
    pub fn get(&self, id: LocalDefId) -> (found: Option<&ExtractedBody>)
        ensures
            found is Some <==> self.bodies@.contains_key(id.index),
            found is Some ==> *found->Some_0 == self.bodies@[id.index],
    {
        self.bodies.get(&id.index)
    }

    /// The number of bodies in the cache.
    pub fn len(&self) -> (n: usize)
        ensures
            n == self.order@.len(),
    {
        self.order.len()
    }

    /// Puts `body` in the cache unless its definition has a body there:
    /// putting a body in twice changes nothing. Says whether it went in.
    pub fn insert(&mut self, body: ExtractedBody) -> (added: bool)
        requires
            old(self).wf(),
        ensures
            final(self).wf(),
            added == !old(self).bodies@.contains_key(body.owner.index),
            added ==> final(self).bodies@ == old(self).bodies@.insert(body.owner.index, body)
                && final(self).order@ == old(self).order@.push(body.owner),
            !added ==> final(self).bodies@ == old(self).bodies@ && final(self).order@ == old(
                self,
            ).order@,
    {
        let id: LocalDefId = body.owner;
        if self.bodies.contains_key(&id.index) {
            false
        } else {
            let ghost before = *self;
            self.bodies.insert(id.index, body);
            self.order.push(id);
            proof {
                assert(!before.order@.contains(id));
                assert forall|other: LocalDefId|
                    self.order@.contains(other) <==> #[trigger] self.bodies@.contains_key(
                        other.index,
                    ) by {
                    if other == id {
                        assert(self.order@[before.order@.len() as int] == id);
                    } else {
                        if before.order@.contains(other) {
                            let k = choose|k: int|
                                0 <= k < before.order@.len() && before.order@[k] == other;
                            assert(self.order@[k] == other);
                        }
                        if self.order@.contains(other) {
                            let k = choose|k: int|
                                0 <= k < self.order@.len() && self.order@[k] == other;
                            assert(before.order@[k] == other);
                        }
                        assert(before.order@.contains(other) <==> before.bodies@.contains_key(
                            other.index,
                        ));
                    }
                }
                assert(self.order@.no_duplicates()) by {
                    assert forall|a: int, b: int|
                        0 <= a < self.order@.len() && 0 <= b < self.order@.len() && a
                            != b implies self.order@[a] != self.order@[b] by {
                        if a < before.order@.len() {
                            assert(before.order@.contains(self.order@[a]));
                        }
                        if b < before.order@.len() {
                            assert(before.order@.contains(self.order@[b]));
                        }
                    }
                }
            }
            true
        }
    }
}

/// The bodies of a unit and the reports of those that could not be had.
#[derive(Debug)]
pub struct Precomputed {
    pub bodies: BodyCache,
    pub failures: Vec<ExtractionFailure>,
}

/// Reads the answer of the host for the body of `owner`: a copy of the
/// body, or the error body, with its report, where there is none to have.
fn extract(owner: &BodyOwner, answers: &HashMap<u32, BodyState>) -> (out: (
    ExtractedBody,
    Option<ExtractionFailure>,
))
    ensures
        extraction_of(answers@, *owner, out.0),
        out.1 == failure_of(answers@, *owner),
{
    match answers.get(&owner.id.index) {
        Some(BodyState::Ready(thir, root)) => (
            ExtractedBody { owner: owner.id, thir: thir.clone(), root: *root },
            None,
        ),
        Some(BodyState::TypeError) => {
            let (thir, root) = dummy_thir_body(owner.span, ErrorGuaranteed);
            (
                ExtractedBody { owner: owner.id, thir, root },
                Some(
                    ExtractionFailure {
                        owner: owner.id,
                        span: owner.span,
                        cause: FailureCause::TypeError,
                    },
                ),
            )
        },
        _ => {
            let (thir, root) = dummy_thir_body(owner.span, ErrorGuaranteed);
            (
                ExtractedBody { owner: owner.id, thir, root },
                Some(
                    ExtractionFailure {
                        owner: owner.id,
                        span: owner.span,
                        cause: FailureCause::Stolen,
                    },
                ),
            )
        },
    }
}

/// The definitions to ask the host about, in the order in which to ask:
/// those of the schedule, each identifier where it comes first.
pub fn extraction_order(owners: &Vec<BodyOwner>) -> (order: Vec<BodyOwner>)
    ensures
        order@ == visited(schedule_of(owners@)),
{
    let plan = schedule(owners);
    let mut order: Vec<BodyOwner> = Vec::new();
    let mut seen: HashSet<u32> = HashSet::new();
    let mut i: usize = 0;
    proof {
        assert(plan@.take(0) =~= Seq::<BodyOwner>::empty());
    }
    while i < plan.len()
        invariant
            i <= plan.len(),
            order@ == visited(plan@.take(i as int)),
            forall|id: LocalDefId|
                owner_ids(order@).contains(id) <==> #[trigger] seen@.contains(id.index),
        decreases plan.len() - i,
    {
        let owner: BodyOwner = plan[i];
        let ghost before = order@;
        let ghost seen_before = seen@;
        proof {
            assert(plan@.take(i + 1).drop_last() =~= plan@.take(i as int));
            assert(plan@.take(i + 1).last() == owner);
        }
        if seen.insert(owner.id.index) {
            order.push(owner);
            proof {
                assert(owner_ids(order@) =~= owner_ids(before).push(owner.id));
                assert forall|id: LocalDefId|
                    owner_ids(order@).contains(id) <==> #[trigger] seen@.contains(id.index) by {
                    if id == owner.id {
                        assert(owner_ids(order@)[before.len() as int] == id);
                    } else {
                        if owner_ids(before).contains(id) {
                            let k = choose|k: int|
                                0 <= k < owner_ids(before).len() && owner_ids(before)[k] == id;
                            assert(owner_ids(order@)[k] == id);
                        }
                        if owner_ids(order@).contains(id) {
                            let k = choose|k: int|
                                0 <= k < owner_ids(order@).len() && owner_ids(order@)[k] == id;
                            assert(owner_ids(before)[k] == id);
                        }
                        assert(owner_ids(before).contains(id) <==> seen_before.contains(id.index));
                    }
                }
            }
        }
        i = i + 1;
    }
    proof {
        assert(plan@.take(i as int) =~= plan@);
    }
    order
}

/// Extracts the body of every definition of `owners` that has one of its
/// own, each once, in the order of `extraction_order`, from the answers
/// `answers` of the host.
///
/// A body that does not type-check, or that is not to be had any more, is
/// replaced by the error body and reported; the pass goes on with the next
/// definition.
pub fn precompute_local_thir_bodies(owners: &Vec<BodyOwner>, answers: &HashMap<u32, BodyState>) -> (out:
    Precomputed)
    ensures
        out.bodies.wf(),
        out.bodies.order@ == owner_ids(visited(schedule_of(owners@))),
        forall|k: int|
            0 <= k < out.bodies.order@.len() ==> extraction_of(
                answers@,
                visited(schedule_of(owners@))[k],
                #[trigger] out.bodies.bodies@[out.bodies.order@[k].index],
            ),
        out.failures@ == failures_of(answers@, visited(schedule_of(owners@))),
{
    let order = extraction_order(owners);
    let ghost failed = fails(answers@);
    let ghost report = |owner: BodyOwner| failure_of(answers@, owner)->Some_0;
    let mut bodies = BodyCache::new();
    let mut failures: Vec<ExtractionFailure> = Vec::new();
    let mut i: usize = 0;
    proof {
        lemma_visited_once(schedule_of(owners@));
        assert(order@.take(0) =~= Seq::<BodyOwner>::empty());
        order@.take(0).lemma_filter_len(failed);
        assert(failures@ =~= failures_of(answers@, order@.take(0)));
        assert(bodies.order@ =~= owner_ids(order@.take(0)));
    }
    while i < order.len()
        invariant
            i <= order.len(),
            owner_ids(order@).no_duplicates(),
            failed == fails(answers@),
            report == (|owner: BodyOwner| failure_of(answers@, owner)->Some_0),
            bodies.wf(),
            bodies.order@ == owner_ids(order@.take(i as int)),
            forall|k: int|
                0 <= k < i ==> extraction_of(
                    answers@,
                    order@[k],
                    #[trigger] bodies.bodies@[bodies.order@[k].index],
                ),
            failures@ == failures_of(answers@, order@.take(i as int)),
        decreases order.len() - i,
    {
        let owner: BodyOwner = order[i];
        let ghost before = order@.take(i as int);
        let ghost old_bodies = bodies;
        let (body, failure) = extract(&owner, answers);
        proof {
            assert(order@.take(i + 1) =~= before.push(owner));
            assert(owner_ids(before.push(owner)) =~= owner_ids(before).push(owner.id));
            before.lemma_filter_push(owner, failed);
            if bodies.bodies@.contains_key(owner.id.index) {
                let k = choose|k: int|
                    0 <= k < owner_ids(before).len() && owner_ids(before)[k] == owner.id;
                assert(owner_ids(order@)[k] == owner_ids(before)[k]);
                assert(owner_ids(order@)[i as int] == owner.id);
            }
        }
        bodies.insert(body);
        match failure {
            Some(f) => {
                proof {
                    assert(before.filter(failed).push(owner).map_values(report)
                        =~= before.filter(failed).map_values(report).push(f));
                }
                failures.push(f);
            },
            None => {},
        }
        proof {
            assert forall|k: int| 0 <= k < i + 1 implies extraction_of(
                answers@,
                order@[k],
                #[trigger] bodies.bodies@[bodies.order@[k].index],
            ) by {
                if k < i {
                    assert(old_bodies.order@[k] == bodies.order@[k]);
                    assert(old_bodies.order@.contains(bodies.order@[k]));
                    assert(bodies.order@[k].index != owner.id.index);
                    assert(extraction_of(
                        answers@,
                        order@[k],
                        old_bodies.bodies@[old_bodies.order@[k].index],
                    ));
                }
            }
        }
        i = i + 1;
    }
    proof {
        assert(order@.take(i as int) =~= order@);
    }
    Precomputed { bodies, failures }
}

/// A sequence holds what one of three parts of it holds.
proof fn lemma_concat_contains(a: Seq<BodyOwner>, b: Seq<BodyOwner>, c: Seq<BodyOwner>, x: BodyOwner)
    ensures
        (a + b + c).contains(x) <==> a.contains(x) || b.contains(x) || c.contains(x),
{
    let all = a + b + c;
    if all.contains(x) {
        let i = choose|i: int| 0 <= i < all.len() && all[i] == x;
        if i < a.len() {
            assert(a[i] == x);
        } else if i < a.len() + b.len() {
            assert(b[i - a.len()] == x);
        } else {
            assert(c[i - a.len() - b.len()] == x);
        }
    }
    if a.contains(x) {
        let i = choose|i: int| 0 <= i < a.len() && a[i] == x;
        assert(all[i] == x);
    }
    if b.contains(x) {
        let i = choose|i: int| 0 <= i < b.len() && b[i] == x;
        assert(all[a.len() + i] == x);
    }
    if c.contains(x) {
        let i = choose|i: int| 0 <= i < c.len() && c[i] == x;
        assert(all[a.len() + b.len() + i] == x);
    }
}

/// What passes a test is in the sequence exactly if it is among those that
/// pass.
proof fn lemma_filter_members(s: Seq<BodyOwner>, test: spec_fn(BodyOwner) -> bool, x: BodyOwner)
    ensures
        s.filter(test).contains(x) <==> s.contains(x) && test(x),
{
    if s.filter(test).contains(x) {
        let i = choose|i: int| 0 <= i < s.filter(test).len() && s.filter(test)[i] == x;
        s.lemma_filter_pred(test, i);
        s.lemma_filter_contains_rev(test, x);
    }
    if s.contains(x) && test(x) {
        let i = choose|i: int| 0 <= i < s.len() && s[i] == x;
        s.lemma_filter_contains(test, i);
    }
}

/// The schedule holds exactly the definitions of the unit whose body is to
/// be asked for.
pub proof fn lemma_schedule_members(owners: Seq<BodyOwner>, owner: BodyOwner)
    ensures
        schedule_of(owners).contains(owner) <==> owners.contains(owner) && is_scheduled(owner),
{
    reveal(grouped);
    let all = owners.filter(scheduled());
    lemma_concat_contains(
        all.filter(has_rank(0)),
        all.filter(has_rank(1)),
        all.filter(has_rank(2)),
        owner,
    );
    lemma_filter_members(all, has_rank(0), owner);
    lemma_filter_members(all, has_rank(1), owner);
    lemma_filter_members(all, has_rank(2), owner);
    lemma_filter_members(owners, scheduled(), owner);
}

/// In the schedule no rank goes down.
pub proof fn lemma_schedule_ascending(owners: Seq<BodyOwner>)
    ensures
        ascending(schedule_of(owners)),
{
    reveal(grouped);
    reveal(ascending);
    let all = owners.filter(scheduled());
    let a = all.filter(has_rank(0));
    let b = all.filter(has_rank(1));
    let c = all.filter(has_rank(2));
    let s = schedule_of(owners);
    assert forall|i: int| 0 <= i < s.len() implies level_of(#[trigger] s[i]).spec_rank() == (if i
        < a.len() {
        0u8
    } else if i < a.len() + b.len() {
        1u8
    } else {
        2u8
    }) by {
        if i < a.len() {
            all.lemma_filter_pred(has_rank(0), i);
        } else if i < a.len() + b.len() {
            all.lemma_filter_pred(has_rank(1), i - a.len());
        } else {
            all.lemma_filter_pred(has_rank(2), i - a.len() - b.len());
        }
    }
}

/// The bodies of constants are asked for before those of functions that may
/// be evaluated at compile time, and these before those of all other
/// functions, in whatever order the unit declares them.
pub proof fn lemma_schedule_order(owners: Seq<BodyOwner>, i: int, j: int)
    requires
        0 <= i < schedule_of(owners).len(),
        0 <= j < schedule_of(owners).len(),
        level_of(schedule_of(owners)[i]).spec_rank() < level_of(schedule_of(owners)[j]).spec_rank(),
    ensures
        i < j,
{
    lemma_schedule_ascending(owners);
    if j <= i {
        lemma_ascending_pair(schedule_of(owners), j, i);
    }
}

/// The definitions that are visited are definitions of the order, each
/// identifier of the order is visited, and none twice.
pub proof fn lemma_visited_once(order: Seq<BodyOwner>)
    ensures
        owner_ids(visited(order)).no_duplicates(),
        forall|k: int| 0 <= k < visited(order).len() ==> order.contains(#[trigger] visited(order)[k]),
        forall|i: int|
            0 <= i < order.len() ==> owner_ids(visited(order)).contains((#[trigger] order[i]).id),
    decreases order.len(),
{
    if order.len() > 0 {
        let t = order.drop_last();
        let x = order.last();
        let before = visited(t);
        let now = visited(order);
        lemma_visited_once(t);
        assert forall|k: int| 0 <= k < now.len() implies order.contains(#[trigger] now[k]) by {
            if k < before.len() {
                assert(now[k] == before[k]);
                assert(t.contains(before[k]));
                let i = choose|i: int| 0 <= i < t.len() && t[i] == before[k];
                assert(order[i] == now[k]);
            } else {
                assert(now[k] == x);
                assert(order[order.len() - 1] == x);
            }
        }
        if owner_ids(before).contains(x.id) {
            assert forall|i: int| 0 <= i < order.len() implies owner_ids(now).contains(
                (#[trigger] order[i]).id,
            ) by {
                if i < t.len() {
                    assert(t[i] == order[i]);
                }
            }
        } else {
            assert(owner_ids(now) =~= owner_ids(before).push(x.id));
            assert forall|i: int| 0 <= i < order.len() implies owner_ids(now).contains(
                (#[trigger] order[i]).id,
            ) by {
                if i < t.len() {
                    assert(t[i] == order[i]);
                    let k = choose|k: int|
                        0 <= k < owner_ids(before).len() && owner_ids(before)[k] == t[i].id;
                    assert(owner_ids(now)[k] == order[i].id);
                } else {
                    assert(owner_ids(now)[before.len() as int] == x.id);
                }
            }
            assert forall|a: int, b: int|
                0 <= a < owner_ids(now).len() && 0 <= b < owner_ids(now).len() && a
                    != b implies owner_ids(now)[a] != owner_ids(now)[b] by {
                if a < before.len() {
                    assert(owner_ids(before)[a] == owner_ids(now)[a]);
                }
                if b < before.len() {
                    assert(owner_ids(before)[b] == owner_ids(now)[b]);
                }
            }
        }
    }
}

/// The pass asks for every body of the unit once: the identifiers that it
/// visits are those of the definitions of the unit whose body is to be asked
/// for, and none comes twice.
pub proof fn lemma_every_body_once(owners: Seq<BodyOwner>)
    ensures
        owner_ids(visited(schedule_of(owners))).no_duplicates(),
        forall|id: LocalDefId| #[trigger]
            owner_ids(visited(schedule_of(owners))).contains(id) <==> exists|i: int|
                0 <= i < owners.len() && is_scheduled(#[trigger] owners[i]) && owners[i].id == id,
{
    let plan = schedule_of(owners);
    let seen = visited(plan);
    lemma_visited_once(plan);
    assert forall|id: LocalDefId| #[trigger] owner_ids(seen).contains(id) <==> exists|i: int|
        0 <= i < owners.len() && is_scheduled(#[trigger] owners[i]) && owners[i].id == id by {
        if owner_ids(seen).contains(id) {
            let k = choose|k: int| 0 <= k < owner_ids(seen).len() && owner_ids(seen)[k] == id;
            assert(plan.contains(seen[k]));
            lemma_schedule_members(owners, seen[k]);
            let i = choose|i: int| 0 <= i < owners.len() && owners[i] == seen[k];
            assert(is_scheduled(owners[i]) && owners[i].id == id);
        }
        if exists|i: int|
            0 <= i < owners.len() && is_scheduled(#[trigger] owners[i]) && owners[i].id == id {
            let i = choose|i: int|
                0 <= i < owners.len() && is_scheduled(#[trigger] owners[i]) && owners[i].id == id;
            lemma_schedule_members(owners, owners[i]);
            assert(owners.contains(owners[i]));
            let j = choose|j: int| 0 <= j < plan.len() && plan[j] == owners[i];
            assert(owner_ids(seen).contains(plan[j].id));
        }
    }
}

/// Where no identifier comes twice, every definition of the order is
/// visited, in its place.
pub proof fn lemma_visited_of_distinct(order: Seq<BodyOwner>)
    requires
        owner_ids(order).no_duplicates(),
    ensures
        visited(order) == order,
    decreases order.len(),
{
    if order.len() > 0 {
        let t = order.drop_last();
        let x = order.last();
        assert(owner_ids(t).no_duplicates()) by {
            assert forall|a: int, b: int|
                0 <= a < owner_ids(t).len() && 0 <= b < owner_ids(t).len() && a
                    != b implies owner_ids(t)[a] != owner_ids(t)[b] by {
                assert(owner_ids(order)[a] == owner_ids(t)[a]);
                assert(owner_ids(order)[b] == owner_ids(t)[b]);
            }
        }
        lemma_visited_of_distinct(t);
        if owner_ids(t).contains(x.id) {
            let k = choose|k: int| 0 <= k < owner_ids(t).len() && owner_ids(t)[k] == x.id;
            assert(owner_ids(order)[k] == x.id);
            assert(owner_ids(order)[order.len() - 1] == x.id);
        }
        assert(order =~= t.push(x));
    }
}

/// The bodies are asked for in the order of the levels: what is visited
/// keeps the order of the schedule.
pub proof fn lemma_visited_ascending(order: Seq<BodyOwner>)
    requires
        ascending(order),
    ensures
        ascending(visited(order)),
    decreases order.len(),
{
    if order.len() == 0 {
        reveal(ascending);
    } else {
        let t = order.drop_last();
        let x = order.last();
        let before = visited(t);
        let now = visited(order);
        assert(ascending(t)) by {
            assert forall|i: int, j: int| 0 <= i <= j < t.len() implies level_of(
                #[trigger] t[i],
            ).spec_rank() <= level_of(#[trigger] t[j]).spec_rank() by {
                lemma_ascending_pair(order, i, j);
            }
            reveal(ascending);
        }
        lemma_visited_ascending(t);
        lemma_visited_once(t);
        assert forall|i: int, j: int| 0 <= i <= j < now.len() implies level_of(
            #[trigger] now[i],
        ).spec_rank() <= level_of(#[trigger] now[j]).spec_rank() by {
            if j < before.len() {
                lemma_ascending_pair(before, i, j);
            } else if i < before.len() {
                assert(t.contains(before[i]));
                let k = choose|k: int| 0 <= k < t.len() && t[k] == before[i];
                lemma_ascending_pair(order, k, order.len() - 1);
            }
        }
        reveal(ascending);
    }
}

/// The host is asked for the bodies of constants before those of functions
/// that may be evaluated at compile time, and for these before those of all
/// other functions, in whatever order the unit declares them.
pub proof fn lemma_extraction_order(owners: Seq<BodyOwner>, i: int, j: int)
    requires
        0 <= i < visited(schedule_of(owners)).len(),
        0 <= j < visited(schedule_of(owners)).len(),
        level_of(visited(schedule_of(owners))[i]).spec_rank() < level_of(
            visited(schedule_of(owners))[j],
        ).spec_rank(),
    ensures
        i < j,
{
    lemma_schedule_ascending(owners);
    lemma_visited_ascending(schedule_of(owners));
    if j <= i {
        lemma_ascending_pair(visited(schedule_of(owners)), j, i);
    }
}

} // verus!
