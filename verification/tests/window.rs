use zeshicast::window::{ui_start, UiStart, WindowStart};

#[test]
fn daemon_builds_hidden_and_holds_once() {
    assert_eq!(
        ui_start(true, false, false),
        UiStart { take_hold: true, build: true, window: WindowStart::Hide }
    );
    assert_eq!(
        ui_start(true, true, false),
        UiStart { take_hold: false, build: true, window: WindowStart::Hide }
    );
}

#[test]
fn normal_start_presents_and_existing_window_is_kept() {
    assert_eq!(
        ui_start(false, false, false),
        UiStart { take_hold: false, build: true, window: WindowStart::Present }
    );
    assert_eq!(
        ui_start(false, false, true),
        UiStart { take_hold: false, build: false, window: WindowStart::Keep }
    );
    assert_eq!(
        ui_start(true, true, true),
        UiStart { take_hold: false, build: false, window: WindowStart::Keep }
    );
}
