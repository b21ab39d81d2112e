use vstd::prelude::*;

use crate::activity::Activity;
use crate::model::{
    activating, consistent, distinct_ids, has_level, lemma_level_index_is, lemma_settled_push,
    lemma_settled_request, level_index, settled, spec_batch, spec_child_record, spec_consume,
    spec_fold_user, spec_hook, spec_level_step, spec_request, spec_root_record, spec_start_root,
    spec_tick, spec_tick_prefix, spec_transition,
};
use crate::record::{Callback, ConfigError, MachineRecord, ParentLink, RequestError};

verus! {

/// A root's forced initial activation (a no-op for substates and for roots
/// that have already started).
fn start_root_step(rec: MachineRecord) -> (r: MachineRecord)
    ensures
        r == spec_start_root(rec),
{
    if rec.parent.is_none() && !rec.started {
        let v = match rec.user_pending {
            Some(v) => v,
            None => rec.default_value,
        };
        MachineRecord {
            pending: Some(Activity::Active(v)),
            user_pending: None,
            started: true,
            ..rec
        }
    } else {
        rec
    }
}

/// Folds the user-facing request into the queued transition while the level
/// is, or is about to become, active.
fn fold_user_step(rec: MachineRecord) -> (r: MachineRecord)
    ensures
        r == spec_fold_user(rec),
{
    let about_to_activate = match rec.pending {
        Some(Activity::Active(_)) => true,
        _ => false,
    };
    proof {
        assert(about_to_activate == activating(rec.pending));
    }
    if (rec.current.is_active() || about_to_activate) && rec.user_pending.is_some() {
        let v = match rec.user_pending {
            Some(v) => v,
            None => rec.default_value,
        };
        MachineRecord { pending: Some(Activity::Active(v)), user_pending: None, ..rec }
    } else {
        rec
    }
}

/// Consumes the queued activity: the settled record, and the net transition
/// if the queued activity differs from the current one.
fn consume_step(rec: MachineRecord) -> (r: (MachineRecord, Option<(Activity, Activity)>))
    ensures
        r.0 == spec_consume(rec),
        r.1 == spec_transition(rec),
{
    match rec.pending {
        None => (rec, None),
        Some(next) => {
            let stepped = MachineRecord { current: next, pending: None, ..rec };
            if next == rec.current {
                (stepped, None)
            } else {
                (stepped, Some((rec.current, next)))
            }
        },
    }
}

/// Applies a parent's net transition to one child record.
fn hook_step(
    child: MachineRecord,
    parent_index: usize,
    exited: Activity,
    entered: Activity,
) -> (r: MachineRecord)
    ensures
        r == spec_hook(child, parent_index as int, Some((exited, entered))),
{
    let link = match child.parent {
        Some(link) => link,
        None => {
            return child;
        },
    };
    if link.index != parent_index {
        return child;
    }
    let mut out = child;
    if exited == Activity::Active(link.value) {
        out = MachineRecord { pending: Some(Activity::Inactive), user_pending: None, ..out };
    }
    if entered == Activity::Active(link.value) {
        let v = match out.user_pending {
            Some(v) => v,
            None => out.default_value,
        };
        out = MachineRecord { pending: Some(Activity::Active(v)), user_pending: None, ..out };
    }
    out
}

/// Appends the callback batch of one net transition: exit, then transition,
/// then enter.
fn push_batch(events: &mut Vec<Callback>, id: u64, exited: Activity, entered: Activity)
    ensures
        final(events)@ == old(events)@ + spec_batch(id, Some((exited, entered))),
{
    match (exited, entered) {
        (Activity::Active(a), Activity::Inactive) => {
            events.push(Callback::Exit { level: id, value: a });
        },
        (Activity::Active(a), Activity::Active(b)) => {
            events.push(Callback::Exit { level: id, value: a });
            events.push(Callback::Transition { level: id, from: a, to: b });
            events.push(Callback::Enter { level: id, value: b });
        },
        (Activity::Inactive, Activity::Active(b)) => {
            events.push(Callback::Enter { level: id, value: b });
        },
        (Activity::Inactive, Activity::Inactive) => {},
    }
}

/// The registry of state levels, ticked as one forest.
///
/// Levels are appended in registration order; a substate's parent must
/// already be registered, so a single pass over the registry visits every
/// parent before its children.
pub struct Propagator {
    levels: Vec<MachineRecord>,
}

impl View for Propagator {
    type V = Seq<MachineRecord>;

    closed spec fn view(&self) -> Seq<MachineRecord> {
        self.levels@
    }
}

impl Propagator {
    /// An empty registry.
    pub fn new() -> (p: Propagator)
        ensures
            p@ == Seq::<MachineRecord>::empty(),
            settled(p@),
    {
        Propagator { levels: Vec::new() }
    }

    /// The number of registered levels.
    pub fn level_count(&self) -> (n: usize)
        ensures
            n == self@.len(),
    {
        self.levels.len()
    }

    /// Scans the registry for a level identifier.
    fn find(&self, id: u64) -> (r: Option<usize>)
        requires
            distinct_ids(self@),
        ensures
            match r {
                Some(k) => k < self@.len() && self@[k as int].id == id && has_level(self@, id)
                    && level_index(self@, id) == k,
                None => !has_level(self@, id),
            },
    {
        let n = self.levels.len();
        for k in 0..n
            invariant
                n == self@.len(),
                distinct_ids(self@),
                forall|j: int| 0 <= j < k ==> self@[j].id != id,
        {
            if self.levels[k].id == id {
                proof {
                    lemma_level_index_is(self@, k as int);
                }
                return Some(k);
            }
        }
        None
    }

    /// Registers a root level under a fresh identifier.  The level starts
    /// `Inactive`; its forced initial activation runs on the next tick.
    pub fn register_root(&mut self, id: u64, default_value: u64) -> (r: Result<(), ConfigError>)
        requires
            settled(old(self)@),
        ensures
            settled(final(self)@),
            match r {
                Ok(()) => !has_level(old(self)@, id) && final(self)@ == old(self)@.push(
                    spec_root_record(id, default_value),
                ),
                Err(e) => e == ConfigError::DuplicateRegistration && has_level(old(self)@, id)
                    && final(self)@ == old(self)@,
            },
    {
        if self.find(id).is_some() {
            return Err(ConfigError::DuplicateRegistration);
        }
        let rec = MachineRecord {
            id,
            parent: None,
            default_value,
            current: Activity::Inactive,
            pending: None,
            user_pending: None,
            started: false,
        };
        proof {
            lemma_settled_push(self@, spec_root_record(id, default_value));
        }
        self.levels.push(rec);
        Ok(())
    }

    /// Registers a substate under a fresh identifier, keyed to one value of
    /// an already registered parent level.  The level starts `Inactive` and
    /// is activated and deactivated by its parent's transitions alone.
    pub fn register_substate(
        &mut self,
        id: u64,
        parent_id: u64,
        parent_value: u64,
        default_value: u64,
    ) -> (r: Result<(), ConfigError>)
        requires
            settled(old(self)@),
        ensures
            settled(final(self)@),
            match r {
                Ok(()) => !has_level(old(self)@, id) && has_level(old(self)@, parent_id)
                    && final(self)@ == old(self)@.push(
                    spec_child_record(
                        id,
                        level_index(old(self)@, parent_id) as usize,
                        parent_value,
                        default_value,
                    ),
                ),
                Err(ConfigError::DuplicateRegistration) => has_level(old(self)@, id)
                    && final(self)@ == old(self)@,
                Err(ConfigError::UnknownParent) => !has_level(old(self)@, id)
                    && !has_level(old(self)@, parent_id) && final(self)@ == old(self)@,
            },
    {
        if self.find(id).is_some() {
            return Err(ConfigError::DuplicateRegistration);
        }
        let parent_index = match self.find(parent_id) {
            Some(k) => k,
            None => {
                return Err(ConfigError::UnknownParent);
            },
        };
        let rec = MachineRecord {
            id,
            parent: Some(ParentLink { index: parent_index, value: parent_value }),
            default_value,
            current: Activity::Inactive,
            pending: None,
            user_pending: None,
            started: false,
        };
        proof {
            lemma_settled_push(
                self@,
                spec_child_record(id, parent_index, parent_value, default_value),
            );
        }
        self.levels.push(rec);
        Ok(())
    }

    /// Queues a user-facing request to take `value` on a later tick.  Of
    /// several requests before a tick, the last one wins; no history is
    /// kept.  A request to an inactive substate is held until its parent
    /// next activates it, and is discarded when the parent leaves the
    /// substate's keyed value.
    pub fn request(&mut self, id: u64, value: u64) -> (r: Result<(), RequestError>)
        requires
            settled(old(self)@),
        ensures
            settled(final(self)@),
            match r {
                Ok(()) => has_level(old(self)@, id) && final(self)@ == spec_request(
                    old(self)@,
                    id,
                    value,
                ) && final(self)@[level_index(old(self)@, id)].user_pending == Some(value),
                Err(e) => e == RequestError::UnknownLevel && !has_level(old(self)@, id)
                    && final(self)@ == old(self)@,
            },
    {
        let k = match self.find(id) {
            Some(k) => k,
            None => {
                return Err(RequestError::UnknownLevel);
            },
        };
        proof {
            lemma_settled_request(self@, id, value);
        }
        let rec = self.levels[k];
        self.levels.set(k, MachineRecord { user_pending: Some(value), ..rec });
        Ok(())
    }

    /// Runs one propagation cycle: every level, in registration order
    /// (parents before their children), applies at most one net transition,
    /// and the ordered callback batches are returned for the host to run.
    ///
    /// The returned order commits to: within one level, exit before
    /// transition before enter; across levels, the parent's whole batch
    /// before any child's — in particular a parent's exit is observed
    /// before the exits of the substates it thereby deactivates.
    ///
    /// Requests made by the host while it runs the callbacks are honored on
    /// a later tick, never re-entrantly within this one.
    pub fn tick(&mut self) -> (events: Vec<Callback>)
        requires
            settled(old(self)@),
        ensures
            final(self)@ == spec_tick(old(self)@).0,
            events@ == spec_tick(old(self)@).1,
            settled(final(self)@),
            consistent(final(self)@),
    {
        let ghost s0 = self@;
        let mut events: Vec<Callback> = Vec::new();
        let n = self.levels.len();
        for i in 0..n
            invariant
                n == self@.len(),
                n == s0.len(),
                self@ == spec_tick_prefix(s0, i as int).0,
                events@ == spec_tick_prefix(s0, i as int).1,
        {
            let ghost s_prev = self@;
            let rec = self.levels[i];
            let armed = fold_user_step(start_root_step(rec));
            let (stepped, transition) = consume_step(armed);
            self.levels.set(i, stepped);
            match transition {
                None => {
                    proof {
                        assert(self@ =~= spec_level_step(s_prev, i as int).0);
                        assert(events@ =~= spec_tick_prefix(s0, i as int + 1).1);
                    }
                },
                Some((exited, entered)) => {
                    push_batch(&mut events, rec.id, exited, entered);
                    let mut j = i + 1;
                    while j < n
                        invariant
                            n == self@.len(),
                            n == s_prev.len(),
                            i < j <= n,
                            self@[i as int] == stepped,
                            forall|k: int| 0 <= k < i ==> self@[k] == s_prev[k],
                            forall|k: int|
                                i < k < j ==> self@[k] == spec_hook(
                                    s_prev[k],
                                    i as int,
                                    Some((exited, entered)),
                                ),
                            forall|k: int| j <= k < n ==> self@[k] == s_prev[k],
                        decreases n - j,
                    {
                        let child = self.levels[j];
                        let hooked = hook_step(child, i, exited, entered);
                        self.levels.set(j, hooked);
                        j += 1;
                    }
                    proof {
                        assert(self@ =~= spec_level_step(s_prev, i as int).0);
                        assert(events@ =~= spec_tick_prefix(s0, i as int + 1).1);
                    }
                },
            }
        }
        proof {
            crate::model::lemma_tick_settled(s0);
        }
        events
    }

    /// Whether the level currently holds a value.  An unregistered
    /// identifier is reported as not active.
    pub fn is_active(&self, id: u64) -> (r: bool)
        requires
            settled(self@),
        ensures
            r == (has_level(self@, id) && self@[level_index(self@, id)].current is Active),
    {
        match self.find(id) {
            Some(k) => self.levels[k].current.is_active(),
            None => false,
        }
    }

    /// The value the level currently holds, if it is registered and active.
    pub fn current_value(&self, id: u64) -> (r: Option<u64>)
        requires
            settled(self@),
        ensures
            match r {
                Some(v) => has_level(self@, id) && self@[level_index(self@, id)].current
                    == Activity::Active(v),
                None => !has_level(self@, id) || self@[level_index(self@, id)].current
                    is Inactive,
            },
    {
        match self.find(id) {
            Some(k) => self.levels[k].current.value(),
            None => None,
        }
    }
}

} // verus!
