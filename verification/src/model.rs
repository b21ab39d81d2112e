use vstd::prelude::*;

use crate::activity::Activity;
use crate::record::{Callback, MachineRecord, ParentLink};

verus! {

// ---------------------------------------------------------------------------
// Registry lookup
// ---------------------------------------------------------------------------

/// Whether some record carries the level identifier `id`.
pub open spec fn has_level(s: Seq<MachineRecord>, id: u64) -> bool {
    exists|i: int| 0 <= i < s.len() && s[i].id == id
}

/// The registry position of the level `id` (well defined when identifiers
/// are distinct and `has_level(s, id)` holds).
pub open spec fn level_index(s: Seq<MachineRecord>, id: u64) -> int {
    choose|i: int| 0 <= i < s.len() && s[i].id == id
}

// ---------------------------------------------------------------------------
// Well-formedness of the registry
// ---------------------------------------------------------------------------

/// No two records share a level identifier.
pub open spec fn distinct_ids(s: Seq<MachineRecord>) -> bool {
    forall|i: int, j: int| 0 <= i < j < s.len() ==> s[i].id != s[j].id
}

/// A substate's parent stands earlier in the registry, so the hierarchy is
/// acyclic and one pass in registration order ticks parents before children.
pub open spec fn parent_before_child(s: Seq<MachineRecord>, i: int) -> bool {
    s[i].parent matches Some(link) ==> link.index < i
}

/// Structural validity of the registry.
pub open spec fn well_formed(s: Seq<MachineRecord>) -> bool {
    distinct_ids(s) && (forall|i: int| 0 <= i < s.len() ==> #[trigger] parent_before_child(s, i))
}

// ---------------------------------------------------------------------------
// The between-tick invariant
// ---------------------------------------------------------------------------

/// Every queued internal transition has been consumed.
pub open spec fn quiescent(s: Seq<MachineRecord>) -> bool {
    forall|i: int| 0 <= i < s.len() ==> (#[trigger] s[i].pending) is None
}

/// A substate may be active only while its parent holds the value the
/// substate is keyed to.
pub open spec fn child_consistent(s: Seq<MachineRecord>, i: int) -> bool {
    s[i].parent matches Some(link) ==> (s[i].current is Active ==> s[link.index as int].current
        == Activity::Active(link.value))
}

/// The hierarchy invariant over the whole registry.
pub open spec fn consistent(s: Seq<MachineRecord>) -> bool {
    forall|i: int| 0 <= i < s.len() ==> #[trigger] child_consistent(s, i)
}

/// The state a registry is in between public calls: structurally valid,
/// no internal transition left queued, and the hierarchy invariant holds.
pub open spec fn settled(s: Seq<MachineRecord>) -> bool {
    well_formed(s) && quiescent(s) && consistent(s)
}

/// Every root level has run its forced initial activation.
pub open spec fn all_started(s: Seq<MachineRecord>) -> bool {
    forall|i: int| 0 <= i < s.len() ==> ((#[trigger] s[i].parent) is None ==> s[i].started)
}

/// No level has an outstanding user-facing request.
pub open spec fn no_user_requests(s: Seq<MachineRecord>) -> bool {
    forall|i: int| 0 <= i < s.len() ==> (#[trigger] s[i].user_pending) is None
}

// ---------------------------------------------------------------------------
// Registration and requests
// ---------------------------------------------------------------------------

/// The record a freshly registered root level starts with.
pub open spec fn spec_root_record(id: u64, default_value: u64) -> MachineRecord {
    MachineRecord {
        id,
        parent: None,
        default_value,
        current: Activity::Inactive,
        pending: None,
        user_pending: None,
        started: false,
    }
}

/// The record a freshly registered substate starts with.
pub open spec fn spec_child_record(
    id: u64,
    parent_index: usize,
    parent_value: u64,
    default_value: u64,
) -> MachineRecord {
    MachineRecord {
        id,
        parent: Some(ParentLink { index: parent_index, value: parent_value }),
        default_value,
        current: Activity::Inactive,
        pending: None,
        user_pending: None,
        started: false,
    }
}

/// The registry after `request(id, value)`: the level's user-facing request
/// is overwritten, so of several requests before a tick the last one wins.
pub open spec fn spec_request(s: Seq<MachineRecord>, id: u64, value: u64) -> Seq<MachineRecord> {
    let i = level_index(s, id);
    s.update(i, MachineRecord { user_pending: Some(value), ..s[i] })
}

// ---------------------------------------------------------------------------
// The tick, level by level
// ---------------------------------------------------------------------------

/// Whether a queued transition would make the level active.
pub open spec fn activating(p: Option<Activity>) -> bool {
    p matches Some(a) && a is Active
}

/// A root's forced initial activation: on its first tick it queues
/// `Active(v)`, where `v` is the user's request if one exists, else the
/// level's default value.
pub open spec fn spec_start_root(r: MachineRecord) -> MachineRecord {
    if r.parent is None && !r.started {
        MachineRecord {
            pending: Some(
                Activity::Active(
                    match r.user_pending {
                        Some(v) => v,
                        None => r.default_value,
                    },
                ),
            ),
            user_pending: None,
            started: true,
            ..r
        }
    } else {
        r
    }
}

/// Folds the user-facing request into the queued transition, but only while
/// the level is, or is about to become, active: a user request alone never
/// activates a substate behind its parent's back.
pub open spec fn spec_fold_user(r: MachineRecord) -> MachineRecord {
    if (r.current is Active || activating(r.pending)) && r.user_pending is Some {
        MachineRecord {
            pending: Some(
                Activity::Active(
                    match r.user_pending {
                        Some(v) => v,
                        None => r.default_value,
                    },
                ),
            ),
            user_pending: None,
            ..r
        }
    } else {
        r
    }
}

/// The at-most-one net transition a level performs this tick: the queued
/// activity, unless none is queued or it equals the current one.
pub open spec fn spec_transition(r: MachineRecord) -> Option<(Activity, Activity)> {
    match r.pending {
        None => None,
        Some(next) => if next == r.current {
            None
        } else {
            Some((r.current, next))
        },
    }
}

/// Consumes the queued activity and adopts it as current.  The queue is
/// always cleared in the tick that reads it.
pub open spec fn spec_consume(r: MachineRecord) -> MachineRecord {
    match r.pending {
        None => r,
        Some(next) => MachineRecord { current: next, pending: None, ..r },
    }
}

/// The callback batch one net transition fires: exit before transition
/// before enter.
pub open spec fn spec_batch(id: u64, t: Option<(Activity, Activity)>) -> Seq<Callback> {
    match t {
        None => Seq::<Callback>::empty(),
        Some(pair) => match (pair.0, pair.1) {
            (Activity::Active(a), Activity::Inactive) => seq![Callback::Exit { level: id, value: a }],
            (Activity::Active(a), Activity::Active(b)) => seq![
                Callback::Exit { level: id, value: a },
                Callback::Transition { level: id, from: a, to: b },
                Callback::Enter { level: id, value: b },
            ],
            (Activity::Inactive, Activity::Active(b)) => seq![
                Callback::Enter { level: id, value: b },
            ],
            (Activity::Inactive, Activity::Inactive) => Seq::<Callback>::empty(),
        },
    }
}

/// The hooks a parent's net transition applies to a child record keyed to
/// it.  Leaving the keyed value queues deactivation and discards the
/// child's user request; entering the keyed value queues activation with
/// the child's user request if one exists, else the child's default.
pub open spec fn spec_hook(
    child: MachineRecord,
    parent_index: int,
    t: Option<(Activity, Activity)>,
) -> MachineRecord {
    match (t, child.parent) {
        (Some(pair), Some(link)) => if link.index == parent_index {
            let after_exit = if pair.0 == Activity::Active(link.value) {
                MachineRecord { pending: Some(Activity::Inactive), user_pending: None, ..child }
            } else {
                child
            };
            if pair.1 == Activity::Active(link.value) {
                MachineRecord {
                    pending: Some(
                        Activity::Active(
                            match after_exit.user_pending {
                                Some(v) => v,
                                None => after_exit.default_value,
                            },
                        ),
                    ),
                    user_pending: None,
                    ..after_exit
                }
            } else {
                after_exit
            }
        } else {
            child
        },
        _ => child,
    }
}

/// One level's full tick step: its own record settles, its children later
/// in the registry receive the hooks, and the level's callback batch is
/// emitted.
pub open spec fn spec_level_step(s: Seq<MachineRecord>, i: int) -> (Seq<MachineRecord>, Seq<
    Callback,
>) {
    let armed = spec_fold_user(spec_start_root(s[i]));
    let t = spec_transition(armed);
    let stepped = spec_consume(armed);
    (
        Seq::new(
            s.len(),
            |j: int|
                if j == i {
                    stepped
                } else if j > i {
                    spec_hook(s[j], i, t)
                } else {
                    s[j]
                },
        ),
        spec_batch(s[i].id, t),
    )
}

/// The tick applied to the first `n` levels, in registration order.
pub open spec fn spec_tick_prefix(s: Seq<MachineRecord>, n: int) -> (Seq<MachineRecord>, Seq<
    Callback,
>)
    decreases n,
{
    if n <= 0 {
        (s, Seq::<Callback>::empty())
    } else {
        let prior = spec_tick_prefix(s, n - 1);
        let step = spec_level_step(prior.0, n - 1);
        (step.0, prior.1 + step.1)
    }
}

/// One full propagation cycle over the whole registry: at most one net
/// transition per level, parents before children, and the concatenation of
/// all callback batches in that order.
pub open spec fn spec_tick(s: Seq<MachineRecord>) -> (Seq<MachineRecord>, Seq<Callback>) {
    spec_tick_prefix(s, s.len() as int)
}

// ---------------------------------------------------------------------------
// Basic facts about the tick
// ---------------------------------------------------------------------------

/// The tick never registers or removes a level.
pub proof fn lemma_tick_prefix_len(s: Seq<MachineRecord>, n: int)
    requires
        0 <= n <= s.len(),
    ensures
        spec_tick_prefix(s, n).0.len() == s.len(),
    decreases n,
{
    if n > 0 {
        lemma_tick_prefix_len(s, n - 1);
    }
}

// ---------------------------------------------------------------------------
// The tick keeps the registry settled
// ---------------------------------------------------------------------------

/// A record that is certain to end the current tick inactive: either its
/// parent queued its deactivation (and discarded the user request that
/// could have overridden it), or it is inactive with nothing queued that
/// could activate it.
pub open spec fn deactivating(r: MachineRecord) -> bool {
    ||| (r.pending == Some(Activity::Inactive) && r.user_pending is None)
    ||| (r.current is Inactive && (r.pending is None || r.pending == Some(Activity::Inactive)))
}

/// What holds of a level not yet stepped this tick, after the first `n`
/// levels have stepped.  If its parent has stepped, either the parent
/// settled on the child's keyed value, or the child is certain to end the
/// tick inactive; if its parent has not stepped (or it is a root), nothing
/// has been queued for it yet and the hierarchy invariant still holds.
pub open spec fn mid_unprocessed(s: Seq<MachineRecord>, n: int, i: int) -> bool {
    match s[i].parent {
        None => s[i].pending is None,
        Some(link) => if link.index < n {
            s[link.index as int].current == Activity::Active(link.value) || deactivating(s[i])
        } else {
            s[i].pending is None && (s[i].current is Active ==> s[link.index as int].current
                == Activity::Active(link.value))
        },
    }
}

/// The invariant carried through a tick: levels already stepped are
/// quiescent and consistent with their (already final) parents, and levels
/// still to step satisfy `mid_unprocessed`.
pub open spec fn mid_tick(s: Seq<MachineRecord>, n: int) -> bool {
    &&& forall|i: int| 0 <= i < n && i < s.len() ==> (#[trigger] s[i].pending) is None
    &&& forall|i: int| 0 <= i < n && i < s.len() ==> #[trigger] child_consistent(s, i)
    &&& forall|i: int| n <= i < s.len() ==> #[trigger] mid_unprocessed(s, n, i)
}

/// Two registries of the same shape, position by position, are equally
/// well formed.
proof fn lemma_well_formed_same_shape(s: Seq<MachineRecord>, t: Seq<MachineRecord>)
    requires
        well_formed(s),
        t.len() == s.len(),
        forall|j: int| 0 <= j < s.len() ==> #[trigger] same_shape(t[j], s[j]),
    ensures
        well_formed(t),
{
    assert forall|i: int, j: int| 0 <= i < j < t.len() implies t[i].id != t[j].id by {
        assert(same_shape(t[i], s[i]));
        assert(same_shape(t[j], s[j]));
        assert(s[i].id != s[j].id);
    }
    assert forall|i: int| 0 <= i < t.len() implies #[trigger] parent_before_child(t, i) by {
        assert(same_shape(t[i], s[i]));
        assert(parent_before_child(s, i));
    }
}

/// One level's step keeps every record's shape.
proof fn lemma_level_step_shape(s: Seq<MachineRecord>, n: int)
    requires
        0 <= n < s.len(),
    ensures
        spec_level_step(s, n).0.len() == s.len(),
        forall|j: int| 0 <= j < s.len() ==> #[trigger] same_shape(spec_level_step(s, n).0[j], s[j]),
{
    let t = spec_level_step(s, n).0;
    assert forall|j: int| 0 <= j < s.len() implies #[trigger] same_shape(t[j], s[j]) by {}
}

/// One level's step carries the mid-tick invariant forward.
proof fn lemma_mid_step(s: Seq<MachineRecord>, n: int)
    requires
        well_formed(s),
        0 <= n < s.len(),
        mid_tick(s, n),
    ensures
        spec_level_step(s, n).0.len() == s.len(),
        well_formed(spec_level_step(s, n).0),
        mid_tick(spec_level_step(s, n).0, n + 1),
{
    let t = spec_level_step(s, n).0;
    let armed = spec_fold_user(spec_start_root(s[n]));
    let tr = spec_transition(armed);
    lemma_level_step_shape(s, n);
    lemma_well_formed_same_shape(s, t);

    assert forall|i: int| 0 <= i < n + 1 && i < t.len() implies (#[trigger] t[i].pending)
        is None by {
        if i < n {
            assert(s[i].pending is None);
        }
    }

    assert forall|i: int| 0 <= i < n + 1 && i < t.len() implies #[trigger] child_consistent(
        t,
        i,
    ) by {
        if i < n {
            assert(child_consistent(s, i));
            assert(parent_before_child(s, i));
        } else {
            match s[n].parent {
                None => {},
                Some(link) => {
                    assert(parent_before_child(s, n));
                    assert(mid_unprocessed(s, n, n));
                    if s[link.index as int].current != Activity::Active(link.value) {
                        assert(deactivating(s[n]));
                        assert(t[n].current is Inactive);
                    }
                },
            }
        }
    }

    assert forall|i: int| n + 1 <= i < t.len() implies #[trigger] mid_unprocessed(t, n + 1, i) by {
        assert(mid_unprocessed(s, n, i));
        assert(parent_before_child(s, i));
        match s[i].parent {
            None => {},
            Some(link) => {
                let p = link.index as int;
                if p < n {
                    // The parent stepped earlier; neither it nor this record
                    // changed at step n (this record's hook guard fails).
                    assert(t[i] == s[i]);
                    assert(t[p] == s[p]);
                } else if p == n {
                    match tr {
                        None => {
                            // No net transition: the parent kept its current
                            // value and the hook left this record alone.
                            assert(t[n].current == s[n].current);
                            assert(t[i] == s[i]);
                        },
                        Some(pair) => {
                            assert(pair.0 == s[n].current);
                            assert(pair.1 == t[n].current);
                            if t[n].current != Activity::Active(link.value) {
                                if pair.0 == Activity::Active(link.value) {
                                    // The parent left the keyed value: the
                                    // exit hook queued deactivation.
                                    assert(deactivating(t[i]));
                                } else {
                                    // The parent was never at the keyed
                                    // value: this record was already
                                    // inactive and stays untouched.
                                    assert(t[i] == s[i]);
                                    assert(s[i].current is Inactive);
                                }
                            }
                        },
                    }
                } else {
                    // The parent has not stepped yet: step n touched at most
                    // this record's queue via a hook whose guard fails, and
                    // the parent's current value is untouched by hooks.
                    assert(t[i] == s[i]);
                    assert(t[p].current == s[p].current);
                }
            },
        }
    }
}

/// After the first `n` levels of a tick, the mid-tick invariant holds.
proof fn lemma_mid_tick_prefix(s: Seq<MachineRecord>, n: int)
    requires
        settled(s),
        0 <= n <= s.len(),
    ensures
        spec_tick_prefix(s, n).0.len() == s.len(),
        well_formed(spec_tick_prefix(s, n).0),
        mid_tick(spec_tick_prefix(s, n).0, n),
    decreases n,
{
    if n == 0 {
        assert forall|i: int| 0 <= i < s.len() implies #[trigger] mid_unprocessed(s, 0, i) by {
            assert(s[i].pending is None);
            assert(child_consistent(s, i));
        }
    } else {
        lemma_mid_tick_prefix(s, n - 1);
        lemma_mid_step(spec_tick_prefix(s, n - 1).0, n - 1);
    }
}

/// A tick leaves the registry settled again: in particular, every queued
/// transition was consumed, and a substate is active only if its parent
/// ended the same tick active with the substate's keyed value.
pub proof fn lemma_tick_settled(s: Seq<MachineRecord>)
    requires
        settled(s),
    ensures
        spec_tick(s).0.len() == s.len(),
        settled(spec_tick(s).0),
{
    let n = s.len() as int;
    lemma_mid_tick_prefix(s, n);
    let t = spec_tick(s).0;
    assert forall|i: int| 0 <= i < t.len() implies (#[trigger] t[i].pending) is None by {}
    assert forall|i: int| 0 <= i < t.len() implies #[trigger] child_consistent(t, i) by {}
}

/// With distinct identifiers, `level_index` names exactly the position the
/// identifier was found at.
pub proof fn lemma_level_index_is(s: Seq<MachineRecord>, k: int)
    requires
        distinct_ids(s),
        0 <= k < s.len(),
    ensures
        has_level(s, s[k].id),
        level_index(s, s[k].id) == k,
{
    let id = s[k].id;
    assert(has_level(s, id));
    let i = level_index(s, id);
    if i < k {
        assert(s[i].id != s[k].id);
    } else if i > k {
        assert(s[k].id != s[i].id);
    }
}

/// Registering a fresh, inactive, quiescent record whose parent (if any)
/// already stands in the registry keeps the registry settled.
pub proof fn lemma_settled_push(s: Seq<MachineRecord>, r: MachineRecord)
    requires
        settled(s),
        r.pending is None,
        r.current is Inactive,
        r.parent matches Some(link) ==> link.index < s.len(),
        !has_level(s, r.id),
    ensures
        settled(s.push(r)),
{
    let t = s.push(r);
    assert forall|i: int, j: int| 0 <= i < j < t.len() implies t[i].id != t[j].id by {
        if j < s.len() {
            assert(s[i].id != s[j].id);
        } else if s[i].id == r.id {
            assert(has_level(s, r.id));
        }
    }
    assert forall|i: int| 0 <= i < t.len() implies #[trigger] parent_before_child(t, i) by {
        if i < s.len() {
            assert(parent_before_child(s, i));
        }
    }
    assert forall|i: int| 0 <= i < t.len() implies #[trigger] child_consistent(t, i) by {
        if i < s.len() {
            assert(child_consistent(s, i));
            assert(parent_before_child(s, i));
        }
    }
    assert forall|i: int| 0 <= i < t.len() implies (#[trigger] t[i].pending) is None by {
        if i < s.len() {
            assert(s[i].pending is None);
        }
    }
}

/// Overwriting one level's user-facing request keeps the registry settled:
/// requests are deferred, nothing else changes until the next tick.
pub proof fn lemma_settled_request(s: Seq<MachineRecord>, id: u64, value: u64)
    requires
        settled(s),
        has_level(s, id),
    ensures
        settled(spec_request(s, id, value)),
{
    let t = spec_request(s, id, value);
    let k = level_index(s, id);
    assert forall|i: int, j: int| 0 <= i < j < t.len() implies t[i].id != t[j].id by {
        assert(s[i].id != s[j].id);
    }
    assert forall|i: int| 0 <= i < t.len() implies #[trigger] parent_before_child(t, i) by {
        assert(parent_before_child(s, i));
    }
    assert forall|i: int| 0 <= i < t.len() implies #[trigger] child_consistent(t, i) by {
        assert(child_consistent(s, i));
        assert(parent_before_child(s, i));
    }
    assert forall|i: int| 0 <= i < t.len() implies (#[trigger] t[i].pending) is None by {
        assert(s[i].pending is None);
    }
}

/// The identity, hierarchy edge and default value of a record.
pub open spec fn same_shape(a: MachineRecord, b: MachineRecord) -> bool {
    a.id == b.id && a.parent == b.parent && a.default_value == b.default_value
}

} // verus!
