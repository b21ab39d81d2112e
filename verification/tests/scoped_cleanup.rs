//! Scoped cleanup: items tagged with a state value are discarded once the
//! level's state has changed away from their tag.

use state_hierarchy::{scoped_removals, Activity, Propagator};

const MY_STATE: u64 = 1;
const A: u64 = 0;
const B: u64 = 1;

#[test]
fn no_state_change() {
    let mut p = Propagator::new();
    p.register_root(MY_STATE, A).unwrap();
    p.tick();
    let scoped = vec![(100, A)];

    let current = Activity::Active(p.current_value(MY_STATE).unwrap());
    let removals = scoped_removals(false, current, &scoped);

    assert!(removals.is_empty());
}

#[test]
fn state_changed_entity_removed() {
    let mut p = Propagator::new();
    p.register_root(MY_STATE, A).unwrap();
    p.tick();
    let scoped = vec![(100, A)];

    p.request(MY_STATE, B).unwrap();
    let changed = !p.tick().is_empty();
    let current = Activity::Active(p.current_value(MY_STATE).unwrap());
    let removals = scoped_removals(changed, current, &scoped);

    assert_eq!(removals, vec![100]);
}

#[test]
fn only_stale_tags_are_removed() {
    let scoped = vec![(1, A), (2, B), (3, A), (4, B)];
    assert_eq!(scoped_removals(true, Activity::Active(B), &scoped), vec![1, 3]);
    assert_eq!(scoped_removals(true, Activity::Active(A), &scoped), vec![2, 4]);
    assert_eq!(scoped_removals(true, Activity::Inactive, &scoped), vec![1, 2, 3, 4]);
    assert_eq!(scoped_removals(false, Activity::Inactive, &scoped), Vec::<u64>::new());
}
