use zeshicast::icons::fa_glyph;
use zeshicast::keys::{handle_key, handle_view_key, key_command, Key, KeyCommand, SelectionList};
use zeshicast::navigation::{view_chrome, LauncherView, NavigationStack};
use zeshicast::numbers::{decimal_string, format_duration};
use zeshicast::selection::{action_index_for_row, move_selection, select_first_action_row};
use zeshicast::style::{css_font_family, css_settings, render_css};

#[test]
fn duration_labels() {
    assert_eq!(format_duration(0), "0m");
    assert_eq!(format_duration(59), "0m");
    assert_eq!(format_duration(3_600), "1h 0m");
    assert_eq!(format_duration(3_660), "1h 1m");
    assert_eq!(format_duration(86_400 + 2 * 3_600 + 5 * 60 + 9), "1d 2h 5m");
    assert_eq!(decimal_string(1234567890), "1234567890");
    assert_eq!(decimal_string(u64::MAX), "18446744073709551615");
}

#[test]
fn font_family_is_sanitized() {
    assert_eq!(css_font_family("  Fira Code; color: red  "), "Fira Code color red");
    assert_eq!(css_font_family("<>{}"), "Outfit, Inter, Noto Sans, sans-serif");
    assert_eq!(css_font_family("Inter, sans-serif"), "Inter, sans-serif");
}

#[test]
fn css_settings_and_template() {
    let s = css_settings(None, Some("18"), Some("comfortable"), Some("dark"));
    assert_eq!(s.font_family, "Outfit, Inter, Noto Sans, sans-serif");
    assert_eq!(s.font_size, 18);
    assert_eq!(s.subtitle_size, 15);
    assert_eq!(s.search_size, 20);
    assert_eq!(s.panel_title_size, 16);
    assert_eq!(s.dashboard_clock_size, 64);
    assert_eq!(s.row_height, 52);
    assert_eq!(s.prefer_dark, Some(true));

    let d = css_settings(Some("Mono"), Some("40"), None, Some("light"));
    assert_eq!(d.font_size, 15);
    assert_eq!(d.subtitle_size, 12);
    assert_eq!(d.row_height, 44);
    assert_eq!(d.prefer_dark, Some(false));
    let small = css_settings(None, Some("12"), Some("compact"), Some("system"));
    assert_eq!(small.subtitle_size, 11);
    assert_eq!(small.prefer_dark, None);

    let css = render_css(
        "a{font:__FONT_FAMILY__ __FONT_SIZE__px}b{h:__ROW_HEIGHT__}c{__SEARCH_SIZE__ __SUBTITLE_SIZE__ __PANEL_TITLE_SIZE__ __DASHBOARD_CLOCK_SIZE__}",
        &d,
    );
    assert_eq!(css, "a{font:Mono 15px}b{h:44}c{17 12 13 64}");
}

#[test]
fn glyphs_for_icon_names() {
    assert_eq!(fa_glyph("folder-symbolic"), "\u{f07b}");
    assert_eq!(fa_glyph("application-x-executable-symbolic"), "\u{f144}");
    assert_eq!(fa_glyph("search-symbolic"), "\u{f002}");
    assert_eq!(fa_glyph("no-such-icon"), "\u{f111}");
}

#[test]
fn selection_skips_headers() {
    let rows = [false, true, true, false, true];
    assert_eq!(move_selection(&rows, None, 1), Some(1));
    assert_eq!(move_selection(&rows, Some(2), 1), Some(4));
    assert_eq!(move_selection(&rows, Some(4), 1), None);
    assert_eq!(move_selection(&rows, Some(4), -1), Some(2));
    assert_eq!(move_selection(&rows, Some(1), -1), None);
    assert_eq!(move_selection(&rows, Some(2), 0), Some(2));
    assert_eq!(move_selection(&[], None, 0), None);
    assert_eq!(select_first_action_row(&rows), Some(1));
    assert_eq!(select_first_action_row(&[false, false]), None);
    assert_eq!(action_index_for_row(&rows, 0), None);
    assert_eq!(action_index_for_row(&rows, 1), Some(0));
    assert_eq!(action_index_for_row(&rows, 4), Some(2));
    assert_eq!(action_index_for_row(&rows, 9), None);
}

#[test]
fn navigation_history() {
    let mut nav = NavigationStack::new();
    assert_eq!(nav.current(), LauncherView::Root);
    assert_eq!(nav.pop(), None);
    nav.push(LauncherView::Clipboard);
    nav.push(LauncherView::Clipboard);
    nav.push(LauncherView::Actions);
    assert_eq!(nav.current(), LauncherView::Actions);
    assert_eq!(nav.pop(), Some(LauncherView::Clipboard));
    assert_eq!(nav.pop(), Some(LauncherView::Root));
    assert_eq!(nav.pop(), None);
    nav.push(LauncherView::Media);
    nav.reset();
    assert_eq!(nav.current(), LauncherView::Root);
    assert_eq!(LauncherView::ScriptOutput.name(), "script-output");
    assert_eq!(LauncherView::ScriptOutput.back_label(), "Output");
    assert_eq!(LauncherView::Actions.back_label(), "");
}

#[test]
fn root_shortcuts() {
    assert_eq!(handle_key(Key::Escape, false), KeyCommand::Finish);
    assert_eq!(handle_key(Key::Return, true), KeyCommand::CopySelected);
    assert_eq!(handle_key(Key::KeypadEnter, false), KeyCommand::RunSelected);
    assert_eq!(handle_key(Key::Char('k'), true), KeyCommand::OpenActionPanel);
    assert_eq!(handle_key(Key::Char('k'), false), KeyCommand::Proceed);
    assert_eq!(handle_key(Key::Char(','), true), KeyCommand::OpenPreferences);
    assert_eq!(
        handle_key(Key::Down, false),
        KeyCommand::MoveSelection(SelectionList::Results, true)
    );
}

#[test]
fn view_keys() {
    assert_eq!(handle_view_key(LauncherView::Media, Key::Escape, false, true), KeyCommand::Back);
    assert_eq!(
        handle_view_key(LauncherView::Clipboard, Key::Delete, true, true),
        KeyCommand::ClearClipboardHistory
    );
    assert_eq!(
        handle_view_key(LauncherView::Clipboard, Key::Delete, false, true),
        KeyCommand::DeleteClipboardItem
    );
    assert_eq!(
        handle_view_key(LauncherView::AiChat, Key::Return, false, false),
        KeyCommand::Proceed
    );
    assert_eq!(
        handle_view_key(LauncherView::AiChat, Key::Return, false, true),
        KeyCommand::ShowRoot
    );
    assert_eq!(
        handle_view_key(LauncherView::Snippets, Key::Char('E'), true, true),
        KeyCommand::EditSnippet
    );
    assert_eq!(
        handle_view_key(LauncherView::Dashboard, Key::Up, false, true),
        KeyCommand::RefreshDashboard
    );
    assert_eq!(
        key_command(LauncherView::Network, Key::Up, false, true),
        KeyCommand::MoveSelection(SelectionList::Network, false)
    );
    assert_eq!(key_command(LauncherView::Root, Key::Char('d'), true, true), KeyCommand::OpenDashboard);
}

#[test]
fn window_chrome_follows_the_view() {
    let root = view_chrome(LauncherView::Root);
    assert!(root.root_controls);
    assert!(root.back_button.is_none());
    let monitor = view_chrome(LauncherView::SystemMonitor);
    assert!(!monitor.root_controls);
    assert_eq!(monitor.back_button.as_deref(), Some("\u{2039}  System Monitor"));
}

#[test]
fn font_family_is_stable_under_a_second_filter() {
    let r = css_font_family("  Fira Code; color: red  ");
    assert_eq!(css_font_family(&r), r);
    assert_eq!(css_font_family("Outfit, Inter"), "Outfit, Inter");
    let d = css_font_family("");
    assert_eq!(css_font_family(&d), d);
}
