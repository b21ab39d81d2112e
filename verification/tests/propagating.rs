//! Two flat levels wired together by host callbacks: entering one value of
//! the major level requests a minor value, leaving it requests the minor
//! default back.  The host reacts to the returned callback batches between
//! ticks, so a queued reaction lands on the following tick.

use state_hierarchy::{Callback, Propagator};

const MAJOR: u64 = 1;
const MINOR: u64 = 2;

const A: u64 = 0;
const B: u64 = 1;

const NONE: u64 = 0;
const C: u64 = 1;

fn setup() -> Propagator {
    let mut p = Propagator::new();
    p.register_root(MAJOR, A).unwrap();
    p.register_root(MINOR, NONE).unwrap();
    p
}

/// The host's callback handlers: entering `B` on the major level requests
/// `C` on the minor one (and, when asked to, `A` back on the major one);
/// leaving `B` requests `NONE` on the minor one.
fn react(p: &mut Propagator, events: &[Callback], major_a_on_enter_b: bool) {
    for event in events {
        match *event {
            Callback::Enter { level, value } if level == MAJOR && value == B => {
                p.request(MINOR, C).unwrap();
                if major_a_on_enter_b {
                    p.request(MAJOR, A).unwrap();
                }
            }
            Callback::Exit { level, value } if level == MAJOR && value == B => {
                p.request(MINOR, NONE).unwrap();
            }
            _ => {}
        }
    }
}

#[test]
fn default_state() {
    let mut p = setup();
    p.tick();

    assert_eq!(p.current_value(MAJOR), Some(A));
    assert_eq!(p.current_value(MINOR), Some(NONE));
}

#[test]
fn change_major_state_to_b() {
    let mut p = setup();
    p.tick();
    p.request(MAJOR, B).unwrap();

    for _ in 0..2 {
        let events = p.tick();
        react(&mut p, &events, false);
    }

    assert_eq!(p.current_value(MAJOR), Some(B));
    assert_eq!(p.current_value(MINOR), Some(C));
}

#[test]
fn change_major_state_to_b_then_a() {
    let mut p = setup();
    p.tick();
    p.request(MAJOR, B).unwrap();

    for _ in 0..3 {
        let events = p.tick();
        react(&mut p, &events, true);
    }

    assert_eq!(p.current_value(MAJOR), Some(A));
    assert_eq!(p.current_value(MINOR), Some(NONE));
}
