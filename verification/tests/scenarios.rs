//! End-to-end scenarios over one root and one substate: activation order,
//! deactivation order, idempotent and overwritten requests, and the exact
//! callback batches a tick returns.

use state_hierarchy::{Callback, Propagator};

const R: u64 = 10;
const S: u64 = 20;

const A: u64 = 1;
const B: u64 = 2;
const C: u64 = 3;

const X: u64 = 1;
const Y: u64 = 2;

fn setup() -> Propagator {
    let mut p = Propagator::new();
    p.register_root(R, A).unwrap();
    p.register_substate(S, R, B, X).unwrap();
    p
}

#[test]
fn first_tick_defaults() {
    let mut p = setup();

    let events = p.tick();

    assert_eq!(p.current_value(R), Some(A));
    assert_eq!(p.current_value(S), None);
    assert_eq!(events, vec![Callback::Enter { level: R, value: A }]);
}

#[test]
fn parent_enter_activates_child() {
    let mut p = setup();
    p.request(R, B).unwrap();

    let events = p.tick();

    // First activation: no exit anywhere, and the parent's enter callback
    // comes before the child's.
    assert_eq!(p.current_value(R), Some(B));
    assert_eq!(p.current_value(S), Some(X));
    assert_eq!(
        events,
        vec![
            Callback::Enter { level: R, value: B },
            Callback::Enter { level: S, value: X },
        ]
    );
}

#[test]
fn parent_exit_deactivates_child() {
    let mut p = setup();
    p.request(R, B).unwrap();
    p.tick();

    p.request(R, A).unwrap();
    let events = p.tick();

    // The committed order: the parent's whole batch, exit first, comes
    // before the exit of the substate it deactivates.
    assert_eq!(p.current_value(R), Some(A));
    assert_eq!(p.current_value(S), None);
    assert_eq!(
        events,
        vec![
            Callback::Exit { level: R, value: B },
            Callback::Transition { level: R, from: B, to: A },
            Callback::Enter { level: R, value: A },
            Callback::Exit { level: S, value: X },
        ]
    );
}

#[test]
fn overwritten_request_fires_once() {
    let mut p = setup();
    p.request(R, B).unwrap();
    p.request(S, X).unwrap();
    p.request(S, Y).unwrap();

    let events = p.tick();

    // Only the second request to the substate is observed, never the first.
    assert_eq!(p.current_value(S), Some(Y));
    assert_eq!(
        events,
        vec![
            Callback::Enter { level: R, value: B },
            Callback::Enter { level: S, value: Y },
        ]
    );
}

#[test]
fn request_current_value_ticks_silently() {
    let mut p = setup();
    p.tick();

    p.request(R, A).unwrap();
    let events = p.tick();

    assert_eq!(events, vec![]);
    assert_eq!(p.current_value(R), Some(A));
}

#[test]
fn second_request_overwrites_first() {
    let mut p = setup();
    p.tick();

    p.request(R, C).unwrap();
    p.request(R, B).unwrap();
    let events = p.tick();

    // One net transition, to the second value; the first is never observed.
    assert_eq!(p.current_value(R), Some(B));
    assert_eq!(
        events,
        vec![
            Callback::Exit { level: R, value: A },
            Callback::Transition { level: R, from: A, to: B },
            Callback::Enter { level: R, value: B },
            Callback::Enter { level: S, value: X },
        ]
    );
}

#[test]
fn request_to_inactive_child_is_held() {
    let mut p = setup();
    p.tick();

    // The substate is inactive: a user request alone must not activate it.
    p.request(S, Y).unwrap();
    let events = p.tick();
    assert_eq!(events, vec![]);
    assert_eq!(p.current_value(S), None);

    // It is honored when the parent next activates the substate.
    p.request(R, B).unwrap();
    p.tick();
    assert_eq!(p.current_value(S), Some(Y));
}

#[test]
fn held_request_discarded_on_deactivation() {
    let mut p = setup();
    p.request(R, B).unwrap();
    p.tick();

    // Queue a substate value, but deactivate the substate the same tick:
    // the parent's exit hook wins and the request is discarded.
    p.request(S, Y).unwrap();
    p.request(R, A).unwrap();
    p.tick();
    assert_eq!(p.current_value(S), None);

    // Reactivating later starts from the default again.
    p.request(R, B).unwrap();
    p.tick();
    assert_eq!(p.current_value(S), Some(X));
}

#[test]
fn double_transition_callback_order() {
    let mut p = setup();
    p.request(R, B).unwrap();
    p.tick();
    p.request(S, Y).unwrap();

    let events = p.tick();

    assert_eq!(
        events,
        vec![
            Callback::Exit { level: S, value: X },
            Callback::Transition { level: S, from: X, to: Y },
            Callback::Enter { level: S, value: Y },
        ]
    );
}
