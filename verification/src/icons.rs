//! Font Awesome glyphs for the symbolic icon names used by the launcher.
use vstd::prelude::*;

use crate::text::{chars_of, seq_eq};

verus! {

/// The Font Awesome 6 Solid glyph for a GTK symbolic icon name; a circle for
/// names without one of their own.
pub open spec fn fa_glyph_text(n: Seq<char>) -> Seq<char> {
    if n == "system-run-symbolic"@ || n == "application-x-executable-symbolic"@ {
        "\u{f144}"@
    } else if n == "utilities-terminal-symbolic"@ {
        "\u{f120}"@
    } else if n == "applications-engineering-symbolic"@ {
        "\u{f121}"@
    } else if n == "folder-symbolic"@ {
        "\u{f07b}"@
    } else if n == "folder-open-symbolic"@ {
        "\u{f07c}"@
    } else if n == "text-x-script-symbolic"@ || n == "document-edit-symbolic"@ {
        "\u{f15c}"@
    } else if n == "media-playback-start-symbolic"@ {
        "\u{f04b}"@
    } else if n == "media-playback-pause-symbolic"@ {
        "\u{f04c}"@
    } else if n == "media-playback-stop-symbolic"@ {
        "\u{f04d}"@
    } else if n == "media-skip-backward-symbolic"@ {
        "\u{f04a}"@
    } else if n == "media-skip-forward-symbolic"@ {
        "\u{f04e}"@
    } else if n == "audio-volume-high-symbolic"@ {
        "\u{f028}"@
    } else if n == "audio-volume-medium-symbolic"@ {
        "\u{f027}"@
    } else if n == "audio-volume-muted-symbolic"@ {
        "\u{f6a9}"@
    } else if n == "audio-input-microphone-symbolic"@ {
        "\u{f130}"@
    } else if n == "microphone-sensitivity-muted-symbolic"@ {
        "\u{f131}"@
    } else if n == "multimedia-volume-control-symbolic"@ {
        "\u{f9c2}"@
    } else if n == "network-wireless-symbolic"@ {
        "\u{f1eb}"@
    } else if n == "network-wired-symbolic"@ {
        "\u{f796}"@
    } else if n == "nm-device-wireless"@ {
        "\u{f1eb}"@
    } else if n == "network-vpn-symbolic"@ {
        "\u{f023}"@
    } else if n == "utilities-system-monitor-symbolic"@ {
        "\u{f201}"@
    } else if n == "view-dashboard-symbolic"@ {
        "\u{f3fd}"@
    } else if n == "drive-harddisk-symbolic"@ {
        "\u{f0a0}"@
    } else if n == "media-flash-symbolic"@ {
        "\u{f538}"@
    } else if n == "battery-good-symbolic"@ || n == "battery-full-symbolic"@ {
        "\u{f240}"@
    } else if n == "battery-low-symbolic"@ {
        "\u{f243}"@
    } else if n == "appointment-soon-symbolic"@ || n == "clock-symbolic"@ {
        "\u{f017}"@
    } else if n == "weather-clear-symbolic"@ {
        "\u{f185}"@
    } else if n == "process-stop-symbolic"@ {
        "\u{f05e}"@
    } else if n == "preferences-system-notifications-symbolic"@ {
        "\u{f0f3}"@
    } else if n == "notifications-disabled-symbolic"@ {
        "\u{f1f6}"@
    } else if n == "edit-copy-symbolic"@ {
        "\u{f0c5}"@
    } else if n == "edit-paste-symbolic"@ {
        "\u{f0ea}"@
    } else if n == "edit-delete-symbolic"@ {
        "\u{f1f8}"@
    } else if n == "edit-clear-symbolic"@ {
        "\u{f12d}"@
    } else if n == "view-pin-symbolic"@ {
        "\u{f08d}"@
    } else if n == "insert-link-symbolic"@ {
        "\u{f0c1}"@
    } else if n == "input-keyboard-symbolic"@ {
        "\u{f11c}"@
    } else if n == "system-search-symbolic"@ || n == "search-symbolic"@ {
        "\u{f002}"@
    } else if n == "face-smile-symbolic"@ {
        "\u{f118}"@
    } else if n == "accessories-calculator-symbolic"@ {
        "\u{f1ec}"@
    } else if n == "emblem-web-symbolic"@ || n == "emblem-shared-symbolic"@ {
        "\u{f0c1}"@
    } else if n == "insert-text-symbolic"@ {
        "\u{f031}"@
    } else if n == "system-lock-screen-symbolic"@ {
        "\u{f023}"@
    } else if n == "system-shutdown-symbolic"@ {
        "\u{f011}"@
    } else if n == "system-suspend-symbolic"@ {
        "\u{f186}"@
    } else if n == "view-list-symbolic"@ {
        "\u{f0ca}"@
    } else if n == "document-open-recent-symbolic"@ {
        "\u{f1da}"@
    } else {
        "\u{f111}"@
    }
}

/// The Font Awesome 6 Solid glyph for a GTK symbolic icon name.
pub fn fa_glyph(icon_name: &str) -> (g: &'static str)
    ensures
        g@ == fa_glyph_text(icon_name@),
{
    let n = chars_of(icon_name);
    if seq_eq(&n, &chars_of("system-run-symbolic")) || seq_eq(&n, &chars_of("application-x-executable-symbolic")) {
        "\u{f144}"
    } else if seq_eq(&n, &chars_of("utilities-terminal-symbolic")) {
        "\u{f120}"
    } else if seq_eq(&n, &chars_of("applications-engineering-symbolic")) {
        "\u{f121}"
    } else if seq_eq(&n, &chars_of("folder-symbolic")) {
        "\u{f07b}"
    } else if seq_eq(&n, &chars_of("folder-open-symbolic")) {
        "\u{f07c}"
    } else if seq_eq(&n, &chars_of("text-x-script-symbolic")) || seq_eq(&n, &chars_of("document-edit-symbolic")) {
        "\u{f15c}"
    } else if seq_eq(&n, &chars_of("media-playback-start-symbolic")) {
        "\u{f04b}"
    } else if seq_eq(&n, &chars_of("media-playback-pause-symbolic")) {
        "\u{f04c}"
    } else if seq_eq(&n, &chars_of("media-playback-stop-symbolic")) {
        "\u{f04d}"
    } else if seq_eq(&n, &chars_of("media-skip-backward-symbolic")) {
        "\u{f04a}"
    } else if seq_eq(&n, &chars_of("media-skip-forward-symbolic")) {
        "\u{f04e}"
    } else if seq_eq(&n, &chars_of("audio-volume-high-symbolic")) {
        "\u{f028}"
    } else if seq_eq(&n, &chars_of("audio-volume-medium-symbolic")) {
        "\u{f027}"
    } else if seq_eq(&n, &chars_of("audio-volume-muted-symbolic")) {
        "\u{f6a9}"
    } else if seq_eq(&n, &chars_of("audio-input-microphone-symbolic")) {
        "\u{f130}"
    } else if seq_eq(&n, &chars_of("microphone-sensitivity-muted-symbolic")) {
        "\u{f131}"
    } else if seq_eq(&n, &chars_of("multimedia-volume-control-symbolic")) {
        "\u{f9c2}"
    } else if seq_eq(&n, &chars_of("network-wireless-symbolic")) {
        "\u{f1eb}"
    } else if seq_eq(&n, &chars_of("network-wired-symbolic")) {
        "\u{f796}"
    } else if seq_eq(&n, &chars_of("nm-device-wireless")) {
        "\u{f1eb}"
    } else if seq_eq(&n, &chars_of("network-vpn-symbolic")) {
        "\u{f023}"
    } else if seq_eq(&n, &chars_of("utilities-system-monitor-symbolic")) {
        "\u{f201}"
    } else if seq_eq(&n, &chars_of("view-dashboard-symbolic")) {
        "\u{f3fd}"
    } else if seq_eq(&n, &chars_of("drive-harddisk-symbolic")) {
        "\u{f0a0}"
    } else if seq_eq(&n, &chars_of("media-flash-symbolic")) {
        "\u{f538}"
    } else if seq_eq(&n, &chars_of("battery-good-symbolic")) || seq_eq(&n, &chars_of("battery-full-symbolic")) {
        "\u{f240}"
    } else if seq_eq(&n, &chars_of("battery-low-symbolic")) {
        "\u{f243}"
    } else if seq_eq(&n, &chars_of("appointment-soon-symbolic")) || seq_eq(&n, &chars_of("clock-symbolic")) {
        "\u{f017}"
    } else if seq_eq(&n, &chars_of("weather-clear-symbolic")) {
        "\u{f185}"
    } else if seq_eq(&n, &chars_of("process-stop-symbolic")) {
        "\u{f05e}"
    } else if seq_eq(&n, &chars_of("preferences-system-notifications-symbolic")) {
        "\u{f0f3}"
    } else if seq_eq(&n, &chars_of("notifications-disabled-symbolic")) {
        "\u{f1f6}"
    } else if seq_eq(&n, &chars_of("edit-copy-symbolic")) {
        "\u{f0c5}"
    } else if seq_eq(&n, &chars_of("edit-paste-symbolic")) {
        "\u{f0ea}"
    } else if seq_eq(&n, &chars_of("edit-delete-symbolic")) {
        "\u{f1f8}"
    } else if seq_eq(&n, &chars_of("edit-clear-symbolic")) {
        "\u{f12d}"
    } else if seq_eq(&n, &chars_of("view-pin-symbolic")) {
        "\u{f08d}"
    } else if seq_eq(&n, &chars_of("insert-link-symbolic")) {
        "\u{f0c1}"
    } else if seq_eq(&n, &chars_of("input-keyboard-symbolic")) {
        "\u{f11c}"
    } else if seq_eq(&n, &chars_of("system-search-symbolic")) || seq_eq(&n, &chars_of("search-symbolic")) {
        "\u{f002}"
    } else if seq_eq(&n, &chars_of("face-smile-symbolic")) {
        "\u{f118}"
    } else if seq_eq(&n, &chars_of("accessories-calculator-symbolic")) {
        "\u{f1ec}"
    } else if seq_eq(&n, &chars_of("emblem-web-symbolic")) || seq_eq(&n, &chars_of("emblem-shared-symbolic")) {
        "\u{f0c1}"
    } else if seq_eq(&n, &chars_of("insert-text-symbolic")) {
        "\u{f031}"
    } else if seq_eq(&n, &chars_of("system-lock-screen-symbolic")) {
        "\u{f023}"
    } else if seq_eq(&n, &chars_of("system-shutdown-symbolic")) {
        "\u{f011}"
    } else if seq_eq(&n, &chars_of("system-suspend-symbolic")) {
        "\u{f186}"
    } else if seq_eq(&n, &chars_of("view-list-symbolic")) {
        "\u{f0ca}"
    } else if seq_eq(&n, &chars_of("document-open-recent-symbolic")) {
        "\u{f1da}"
    } else {
        "\u{f111}"
    }
}

} // verus!
