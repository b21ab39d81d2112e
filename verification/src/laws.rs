use vstd::prelude::*;

use crate::activity::Activity;
use crate::model::{
    all_started, distinct_ids, has_level, lemma_level_index_is, lemma_tick_prefix_len,
    level_index, no_user_requests, settled, spec_level_step, spec_request, spec_tick,
    spec_tick_prefix,
};
use crate::record::{Callback, MachineRecord};

verus! {

/// A record that a tick passes over without effect: nothing queued, no user
/// request, and no forced initial activation left to run.
pub open spec fn idle(r: MachineRecord) -> bool {
    r.pending is None && r.user_pending is None && (r.parent is None ==> r.started)
}

/// Stepping an idle level changes nothing and fires nothing.
proof fn lemma_idle_step(s: Seq<MachineRecord>, i: int)
    requires
        0 <= i < s.len(),
        idle(s[i]),
    ensures
        spec_level_step(s, i).0 == s,
        spec_level_step(s, i).1 == Seq::<Callback>::empty(),
{
    assert(spec_level_step(s, i).0 =~= s);
}

/// A run of idle levels leaves the registry and the callback batch exactly
/// where the tick's earlier levels left them.
proof fn lemma_tick_prefix_idle_range(s: Seq<MachineRecord>, m: int, n: int)
    requires
        0 <= m <= n <= s.len(),
        forall|i: int| m <= i < n ==> idle(#[trigger] spec_tick_prefix(s, m).0[i]),
    ensures
        spec_tick_prefix(s, n).0 == spec_tick_prefix(s, m).0,
        spec_tick_prefix(s, n).1 == spec_tick_prefix(s, m).1,
    decreases n - m,
{
    if n > m {
        lemma_tick_prefix_idle_range(s, m, n - 1);
        let u = spec_tick_prefix(s, m).0;
        lemma_tick_prefix_len(s, m);
        assert(idle(u[n - 1]));
        lemma_idle_step(u, n - 1);
        assert(spec_tick_prefix(s, n).1 =~= spec_tick_prefix(s, m).1);
    }
}

/// Later levels only append to the callback batch: what the first `m`
/// levels fired stands unchanged at the front.
proof fn lemma_tick_prefix_events_extend(s: Seq<MachineRecord>, m: int, n: int)
    requires
        0 <= m <= n <= s.len(),
    ensures
        spec_tick_prefix(s, n).1.len() >= spec_tick_prefix(s, m).1.len(),
        forall|k: int|
            0 <= k < spec_tick_prefix(s, m).1.len() ==> #[trigger] spec_tick_prefix(s, n).1[k]
                == spec_tick_prefix(s, m).1[k],
    decreases n - m,
{
    if n > m {
        lemma_tick_prefix_events_extend(s, m, n - 1);
    }
}

/// Requesting the very activity a level already holds is idempotent: the
/// following tick fires no callback at all, and every machine record —
/// that level's and every other's — is exactly what it was before the
/// request.
pub proof fn lemma_request_current_is_noop(s: Seq<MachineRecord>, id: u64, v: u64)
    requires
        settled(s),
        all_started(s),
        no_user_requests(s),
        has_level(s, id),
        s[level_index(s, id)].current == Activity::Active(v),
    ensures
        spec_tick(spec_request(s, id, v)).0 == s,
        spec_tick(spec_request(s, id, v)).1 == Seq::<Callback>::empty(),
{
    let l = level_index(s, id);
    let s1 = spec_request(s, id, v);
    let n = s1.len() as int;
    assert(0 <= l < s.len() && s[l].id == id);
    assert(s[l].pending is None);
    assert(s[l].user_pending is None);
    assert(s[l].parent is None ==> s[l].started);
    assert forall|i: int| 0 <= i < l implies idle(#[trigger] spec_tick_prefix(s1, 0).0[i]) by {
        assert(s[i].pending is None);
        assert(s[i].user_pending is None);
        assert(s[i].parent is None ==> s[i].started);
    }
    lemma_tick_prefix_idle_range(s1, 0, l);
    assert(spec_level_step(s1, l).0 =~= s);
    assert(spec_level_step(s1, l).1 =~= Seq::<Callback>::empty());
    assert(spec_tick_prefix(s1, l + 1).0 == s);
    assert(spec_tick_prefix(s1, l + 1).1 =~= Seq::<Callback>::empty());
    assert forall|i: int| l + 1 <= i < n implies idle(
        #[trigger] spec_tick_prefix(s1, l + 1).0[i],
    ) by {
        assert(s[i].pending is None);
        assert(s[i].user_pending is None);
    }
    lemma_tick_prefix_idle_range(s1, l + 1, n);
}

/// On a compound transition `Active(a)` to `Active(b)` the level's exit,
/// transition and enter callbacks open the tick's batch, strictly in that
/// order.
pub proof fn lemma_double_transition_order(s: Seq<MachineRecord>, id: u64, a: u64, b: u64)
    requires
        settled(s),
        all_started(s),
        no_user_requests(s),
        has_level(s, id),
        s[level_index(s, id)].current == Activity::Active(a),
        b != a,
    ensures
        spec_tick(spec_request(s, id, b)).1.len() >= 3,
        spec_tick(spec_request(s, id, b)).1[0] == (Callback::Exit { level: id, value: a }),
        spec_tick(spec_request(s, id, b)).1[1] == (Callback::Transition {
            level: id,
            from: a,
            to: b,
        }),
        spec_tick(spec_request(s, id, b)).1[2] == (Callback::Enter { level: id, value: b }),
{
    let l = level_index(s, id);
    let s1 = spec_request(s, id, b);
    let n = s1.len() as int;
    assert(0 <= l < s.len() && s[l].id == id);
    assert(s[l].pending is None);
    assert(s[l].user_pending is None);
    assert(s[l].parent is None ==> s[l].started);
    assert forall|i: int| 0 <= i < l implies idle(#[trigger] spec_tick_prefix(s1, 0).0[i]) by {
        assert(s[i].pending is None);
        assert(s[i].user_pending is None);
        assert(s[i].parent is None ==> s[i].started);
    }
    lemma_tick_prefix_idle_range(s1, 0, l);
    let batch = spec_level_step(s1, l).1;
    assert(batch =~= seq![
        Callback::Exit { level: id, value: a },
        Callback::Transition { level: id, from: a, to: b },
        Callback::Enter { level: id, value: b },
    ]);
    assert(spec_tick_prefix(s1, l + 1).1 =~= batch);
    lemma_tick_prefix_events_extend(s1, l + 1, n);
}

/// Of two requests to the same level before a tick, only the second is
/// kept: the states after "request `v1`, then request `v2`" and after
/// "request `v2`" alone are identical, so no callback of the following
/// tick can ever observe `v1`.
pub proof fn lemma_request_overwrites(s: Seq<MachineRecord>, id: u64, v1: u64, v2: u64)
    requires
        distinct_ids(s),
        has_level(s, id),
    ensures
        spec_request(spec_request(s, id, v1), id, v2) == spec_request(s, id, v2),
{
    let l = level_index(s, id);
    let s1 = spec_request(s, id, v1);
    assert(s1[l].id == id);
    assert forall|i: int, j: int| 0 <= i < j < s1.len() implies s1[i].id != s1[j].id by {
        assert(s[i].id != s[j].id);
    }
    lemma_level_index_is(s1, l);
    assert(spec_request(s1, id, v2) =~= spec_request(s, id, v2));
}

} // verus!
