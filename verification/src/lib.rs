//! A hierarchical state propagator.
//!
//! The crate maintains a forest of state machines ("levels").  Each level
//! holds one [`Activity`]: either `Inactive` or `Active(value)`.  A level may
//! be registered as a substate of a parent level, keyed to one parent value;
//! the substate may only be active while its parent holds that value.
//!
//! Hosts queue transitions with `request` and drive the forest with `tick`,
//! which applies at most one pending transition per level, parents before
//! children, and returns the ordered batch of lifecycle callbacks (`Exit`,
//! `Transition`, `Enter`) for the host to run.

mod activity;
mod laws;
mod model;
mod propagator;
mod record;
mod scoped;

pub use activity::Activity;
pub use laws::{
    lemma_double_transition_order, lemma_request_current_is_noop, lemma_request_overwrites,
};
pub use model::{
    all_started, child_consistent, consistent, distinct_ids, has_level, lemma_tick_settled,
    level_index, no_user_requests, quiescent, settled, spec_batch, spec_child_record,
    spec_consume, spec_fold_user, spec_hook, spec_level_step, spec_request, spec_root_record,
    spec_start_root, spec_tick, spec_tick_prefix, spec_transition, well_formed,
};
pub use propagator::Propagator;
pub use record::{Callback, ConfigError, MachineRecord, ParentLink, RequestError};
pub use scoped::{scoped_removals, spec_scoped_removals, stale_ids};
