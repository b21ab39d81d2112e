//! The menu/gameplay hierarchy: a root level with a substate keyed to one
//! of its values, driven through activation, user requests and deactivation.

use state_hierarchy::Propagator;

const APP_STATE: u64 = 1;
const GAMEPLAY_STATE: u64 = 2;

const MAIN_MENU: u64 = 0;
const GAMEPLAY: u64 = 1;

const PLAYING: u64 = 0;
const PAUSED: u64 = 1;

fn setup() -> Propagator {
    let mut p = Propagator::new();
    p.register_root(APP_STATE, MAIN_MENU).unwrap();
    p.register_substate(GAMEPLAY_STATE, APP_STATE, GAMEPLAY, PLAYING).unwrap();
    p
}

fn assert_active(p: &Propagator, level: u64, value: u64) {
    assert_eq!(p.current_value(level), Some(value));
    assert!(p.is_active(level));
}

fn assert_inactive(p: &Propagator, level: u64) {
    assert_eq!(p.current_value(level), None);
    assert!(!p.is_active(level));
}

#[test]
fn inactive() {
    let p = setup();

    // No tick

    assert_inactive(&p, APP_STATE);
    assert_inactive(&p, GAMEPLAY_STATE);
}

#[test]
fn mainmenu() {
    let mut p = setup();
    // No request, `MAIN_MENU` is the default for `APP_STATE`.

    p.tick();

    assert_active(&p, APP_STATE, MAIN_MENU);
    assert_inactive(&p, GAMEPLAY_STATE);
}

#[test]
fn playing() {
    let mut p = setup();
    // Start `APP_STATE` in `GAMEPLAY`; `PLAYING` is the substate default.
    p.request(APP_STATE, GAMEPLAY).unwrap();

    p.tick();

    assert_active(&p, APP_STATE, GAMEPLAY);
    assert_active(&p, GAMEPLAY_STATE, PLAYING);
}

#[test]
fn paused() {
    let mut p = setup();
    // Start `APP_STATE` in `GAMEPLAY` and `GAMEPLAY_STATE` in `PAUSED`.
    p.request(APP_STATE, GAMEPLAY).unwrap();
    p.request(GAMEPLAY_STATE, PAUSED).unwrap();

    p.tick();

    assert_active(&p, APP_STATE, GAMEPLAY);
    assert_active(&p, GAMEPLAY_STATE, PAUSED);
}

#[test]
fn mainmenu_to_playing() {
    let mut p = setup();
    p.tick();

    assert_active(&p, APP_STATE, MAIN_MENU);
    assert_inactive(&p, GAMEPLAY_STATE);

    p.request(APP_STATE, GAMEPLAY).unwrap();
    p.tick();

    assert_active(&p, APP_STATE, GAMEPLAY);
    assert_active(&p, GAMEPLAY_STATE, PLAYING);
}

#[test]
fn mainmenu_to_paused() {
    let mut p = setup();
    p.tick();

    assert_active(&p, APP_STATE, MAIN_MENU);
    assert_inactive(&p, GAMEPLAY_STATE);

    p.request(APP_STATE, GAMEPLAY).unwrap();
    p.request(GAMEPLAY_STATE, PAUSED).unwrap();
    p.tick();

    assert_active(&p, APP_STATE, GAMEPLAY);
    assert_active(&p, GAMEPLAY_STATE, PAUSED);
}

#[test]
fn paused_to_mainmenu() {
    let mut p = setup();
    p.request(APP_STATE, GAMEPLAY).unwrap();
    p.request(GAMEPLAY_STATE, PAUSED).unwrap();
    p.tick();

    assert_active(&p, APP_STATE, GAMEPLAY);
    assert_active(&p, GAMEPLAY_STATE, PAUSED);

    p.request(APP_STATE, MAIN_MENU).unwrap();
    p.tick();

    assert_active(&p, APP_STATE, MAIN_MENU);
    assert_inactive(&p, GAMEPLAY_STATE);
}
