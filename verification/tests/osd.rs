use zeshicast::osd::{
    layout_osd_text, notification_dwell_ms, notification_osd_texts, osd_icon, osd_step, OsdAction,
    OsdEvent, OsdState,
};

fn hidden() -> OsdState {
    OsdState { generation: 0, visible: false, revealed: false, hovered: false }
}

#[test]
fn a_late_timer_never_hides_a_newer_toast() {
    let mut st = hidden();
    let first = osd_step(&mut st, OsdEvent::Show { dwell_ms: 850 });
    assert_eq!(first, OsdAction::StartDwell { generation: 1, delay_ms: 850 });
    let second = osd_step(&mut st, OsdEvent::Show { dwell_ms: 850 });
    assert_eq!(second, OsdAction::StartDwell { generation: 2, delay_ms: 850 });
    assert_eq!(osd_step(&mut st, OsdEvent::DwellElapsed(1)), OsdAction::Nothing);
    assert!(st.visible && st.revealed);
    assert_eq!(
        osd_step(&mut st, OsdEvent::DwellElapsed(2)),
        OsdAction::StartFade { generation: 2, delay_ms: 240 }
    );
    assert!(st.visible && !st.revealed);
    assert_eq!(osd_step(&mut st, OsdEvent::FadeElapsed(2)), OsdAction::Nothing);
    assert!(!st.visible);
}

#[test]
fn hovered_toast_stays_and_dismiss_fades_it() {
    let mut st = hidden();
    osd_step(&mut st, OsdEvent::Show { dwell_ms: 4500 });
    osd_step(&mut st, OsdEvent::Hover(true));
    assert_eq!(osd_step(&mut st, OsdEvent::DwellElapsed(1)), OsdAction::Nothing);
    assert!(st.revealed);
    assert_eq!(
        osd_step(&mut st, OsdEvent::Hover(false)),
        OsdAction::StartDwell { generation: 1, delay_ms: 1800 }
    );
    assert!(!st.hovered);
    osd_step(&mut st, OsdEvent::Hover(true));
    assert_eq!(
        osd_step(&mut st, OsdEvent::Dismiss),
        OsdAction::StartFade { generation: 2, delay_ms: 240 }
    );
    assert!(!st.revealed && !st.hovered);
    assert_eq!(osd_step(&mut st, OsdEvent::Dismiss), OsdAction::Nothing);
    let mut wrap = OsdState { generation: u64::MAX, visible: true, revealed: true, hovered: false };
    assert_eq!(osd_step(&mut wrap, OsdEvent::Dismiss), OsdAction::Nothing);
    assert_eq!(wrap.generation, 0);
}

#[test]
fn toast_dwell_and_texts() {
    assert_eq!(notification_dwell_ms(100), 1500);
    assert_eq!(notification_dwell_ms(5000), 5000);
    assert_eq!(notification_dwell_ms(60_000), 30_000);
    assert_eq!(notification_dwell_ms(0), 8000);
    assert_eq!(notification_dwell_ms(-1), 4500);
    assert_eq!(
        notification_osd_texts("  ", " Saved ", "\n"),
        ("Notification".to_string(), "Saved".to_string(), String::new())
    );
    assert_eq!(layout_osd_text(" de ").as_deref(), Some("DE"));
    assert_eq!(layout_osd_text("  "), None);
}

#[test]
fn toast_icon_sources() {
    let icon = osd_icon(" Firefox ", "file:///tmp/a.png");
    assert_eq!(icon.file.as_deref(), Some("/tmp/a.png"));
    assert_eq!(icon.theme_name.as_deref(), Some("file:///tmp/a.png"));
    assert_eq!(icon.letter_name, "Firefox");
    let icon = osd_icon("", "/usr/share/icons/x.svg");
    assert_eq!(icon.file.as_deref(), Some("/usr/share/icons/x.svg"));
    assert_eq!(icon.letter_name, "App");
    let icon = osd_icon("Mail", "mail-unread");
    assert_eq!(icon.file, None);
    assert_eq!(icon.theme_name.as_deref(), Some("mail-unread"));
    let icon = osd_icon("Mail", "  ");
    assert_eq!(icon.file, None);
    assert_eq!(icon.theme_name, None);
}
