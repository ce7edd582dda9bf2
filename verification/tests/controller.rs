use cleo::controller::{press_select, request_update, update_pads, ControllerState, PadAction, PadUpdater};

fn idle_pad() -> ControllerState {
    ControllerState {
        left_stick_x: 0,
        left_stick_y: 0,
        right_stick_x: 0,
        right_stick_y: 0,
        left_shoulder_1: 0,
        left_shoulder_2: 0,
        right_shoulder_1: 0,
        right_shoulder_2: 0,
        dpad_up: 0,
        dpad_down: 0,
        dpad_left: 0,
        dpad_right: 0,
        start: 0,
        select: 0,
        button_square: 0,
        button_triangle: 0,
        button_cross: 0,
        button_circle: 0,
        shock_button_l: 0,
        shock_button_r: 0,
        chat_indicated: 0,
        ped_walk: 0,
        vehicle_mouse_look: 0,
        radio_track_skip: 0,
    }
}

#[test]
fn unchanged_state_is_refreshed_every_eleventh_update() {
    let pad = idle_pad();
    let mut u = PadUpdater::new();
    for k in 0..10 {
        assert_eq!(update_pads(&mut u, &pad, &pad), PadAction::Skip);
        assert_eq!(u.counter, k + 1);
    }
    assert_eq!(update_pads(&mut u, &pad, &pad), PadAction::Forward { toggle_menu: false });
    assert_eq!(u.counter, 0);
}

#[test]
fn changed_state_is_forwarded_at_once() {
    let before = idle_pad();
    let mut after = idle_pad();
    after.button_cross = 255;
    let mut u = PadUpdater::new();
    assert_eq!(update_pads(&mut u, &before, &after), PadAction::Forward { toggle_menu: false });
    assert_eq!(u.counter, 0);
}

#[test]
fn select_toggles_the_menu() {
    let before = idle_pad();
    let mut after = idle_pad();
    press_select(&mut after, true);
    assert_eq!(after.select, 255);
    let mut u = PadUpdater::new();
    assert_eq!(update_pads(&mut u, &before, &after), PadAction::Forward { toggle_menu: true });
}

#[test]
fn requested_update_ignores_held_select() {
    let mut pad = idle_pad();
    press_select(&mut pad, true);
    let mut u = PadUpdater::new();
    request_update(&mut u);
    assert_eq!(u.counter, 1000);
    assert_eq!(update_pads(&mut u, &pad, &pad), PadAction::Forward { toggle_menu: false });
    assert_eq!(u.counter, 0);
}

#[test]
fn select_not_pressed_leaves_state() {
    let mut pad = idle_pad();
    press_select(&mut pad, false);
    assert_eq!(pad, idle_pad());
}
