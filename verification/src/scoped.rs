use vstd::prelude::*;

use crate::activity::Activity;

verus! {

/// The identifiers, in order, of scoped items whose tag does not match the
/// current activity.
pub open spec fn stale_ids(current: Activity, scoped: Seq<(u64, u64)>) -> Seq<u64>
    decreases scoped.len(),
{
    if scoped.len() == 0 {
        Seq::<u64>::empty()
    } else {
        let rest = stale_ids(current, scoped.drop_last());
        let last = scoped.last();
        if current != Activity::Active(last.1) {
            rest.push(last.0)
        } else {
            rest
        }
    }
}

/// What a host should discard when it scopes items to state values: the
/// expected removals after a tick.
pub open spec fn spec_scoped_removals(
    state_changed: bool,
    current: Activity,
    scoped: Seq<(u64, u64)>,
) -> Seq<u64> {
    if state_changed {
        stale_ids(current, scoped)
    } else {
        Seq::<u64>::empty()
    }
}

/// Selects the scoped items a host should discard after a tick.
///
/// `scoped` pairs each item's identifier with the state value it is scoped
/// to.  When the level's state changed this tick, the result lists, in
/// order, every item tagged with anything other than the current activity
/// — in particular every item once the level is `Inactive`.  Without a
/// change nothing is listed.
pub fn scoped_removals(
    state_changed: bool,
    current: Activity,
    scoped: &Vec<(u64, u64)>,
) -> (r: Vec<u64>)
    ensures
        r@ == spec_scoped_removals(state_changed, current, scoped@),
{
    let mut out: Vec<u64> = Vec::new();
    if !state_changed {
        return out;
    }
    let n = scoped.len();
    for j in 0..n
        invariant
            n == scoped@.len(),
            out@ == stale_ids(current, scoped@.take(j as int)),
    {
        let pair = scoped[j];
        if !(current == Activity::Active(pair.1)) {
            out.push(pair.0);
        }
        proof {
            assert(scoped@.take(j as int + 1).drop_last() =~= scoped@.take(j as int));
            assert(scoped@.take(j as int + 1).last() == scoped@[j as int]);
        }
    }
    proof {
        assert(scoped@.take(n as int) =~= scoped@);
    }
    out
}

} // verus!
