//! The on-screen displays: the keyboard-layout badge and the notification
//! toast. Each display counts its shows; a timer acts only when no newer
//! show or dismissal happened since it was started, so a late timer never
//! hides a newer toast.
use vstd::prelude::*;

use crate::text::{chars_of, slice_chars, string_of, to_uppercase, trim, trim_range, uppercase};

verus! {

/// How long the layout badge stays before it fades, in milliseconds.
pub const LAYOUT_VISIBLE_MS: u64 = 850;

/// How long the fade takes, with a margin, before the window is hidden.
pub const FADE_WAIT_MS: u64 = 240;

/// How long a toast stays after the pointer leaves it, in milliseconds.
pub const HOVER_LEAVE_MS: u64 = 1800;

/// The state of a display.
#[derive(Debug, Clone, Copy, PartialEq, Eq, Structural)]
pub struct OsdState {
    /// The number of shows and dismissals, wrapping.
    pub generation: u64,
    /// Whether the window is on screen.
    pub visible: bool,
    /// Whether the content is faded in.
    pub revealed: bool,
    /// Whether the pointer rests on the toast; a hovered toast stays.
    pub hovered: bool,
}

/// What happens to a display.
#[derive(Debug, Clone, Copy, PartialEq, Eq, Structural)]
pub enum OsdEvent {
    /// It is shown, staying `dwell_ms` before it fades.
    Show { dwell_ms: u64 },
    /// The dwell timer started at the given generation ran out.
    DwellElapsed(u64),
    /// The fade timer started at the given generation ran out.
    FadeElapsed(u64),
    /// The toast is dismissed by hand.
    Dismiss,
    /// The pointer entered (`true`) or left the toast; on leaving, the toast
    /// is given a new dwell.
    Hover(bool),
}

/// What the display asks of the event loop.
#[derive(Debug, Clone, Copy, PartialEq, Eq, Structural)]
pub enum OsdAction {
    Nothing,
    /// Start the dwell timer for this generation.
    StartDwell { generation: u64, delay_ms: u64 },
    /// Start the fade timer for this generation.
    StartFade { generation: u64, delay_ms: u64 },
}

/// `g + 1`, wrapping.
pub open spec fn next_generation(g: u64) -> u64 {
    if g == u64::MAX {
        0
    } else {
        (g + 1) as u64
    }
}

/// The state after `ev` and the timer it starts.
pub open spec fn osd_next(st: OsdState, ev: OsdEvent) -> (OsdState, OsdAction) {
    match ev {
        OsdEvent::Show { dwell_ms } => {
            let g = next_generation(st.generation);
            (
                OsdState { generation: g, visible: true, revealed: true, ..st },
                OsdAction::StartDwell { generation: g, delay_ms: dwell_ms },
            )
        },
        OsdEvent::DwellElapsed(g) => if g == st.generation && !st.hovered {
            (
                OsdState { revealed: false, ..st },
                OsdAction::StartFade { generation: g, delay_ms: FADE_WAIT_MS },
            )
        } else {
            (st, OsdAction::Nothing)
        },
        OsdEvent::FadeElapsed(g) => if g == st.generation {
            (OsdState { visible: false, ..st }, OsdAction::Nothing)
        } else {
            (st, OsdAction::Nothing)
        },
        OsdEvent::Dismiss => if !st.revealed {
            (st, OsdAction::Nothing)
        } else {
            let g = next_generation(st.generation);
            (
                OsdState { generation: g, revealed: false, hovered: false, ..st },
                if g > 0 {
                    OsdAction::StartFade { generation: g, delay_ms: FADE_WAIT_MS }
                } else {
                    OsdAction::Nothing
                },
            )
        },
        OsdEvent::Hover(h) => (
            OsdState { hovered: h, ..st },
            if !h && st.generation > 0 {
                OsdAction::StartDwell { generation: st.generation, delay_ms: HOVER_LEAVE_MS }
            } else {
                OsdAction::Nothing
            },
        ),
    }
}

/// Applies `ev` to the display and returns the timer to start.
pub fn osd_step(st: &mut OsdState, ev: OsdEvent) -> (a: OsdAction)
    ensures
        (*final(st), a) == osd_next(*old(st), ev),
{
    match ev {
        OsdEvent::Show { dwell_ms } => {
            st.generation = st.generation.wrapping_add(1);
            st.visible = true;
            st.revealed = true;
            OsdAction::StartDwell { generation: st.generation, delay_ms: dwell_ms }
        },
        OsdEvent::DwellElapsed(g) => {
            if g == st.generation && !st.hovered {
                st.revealed = false;
                OsdAction::StartFade { generation: g, delay_ms: FADE_WAIT_MS }
            } else {
                OsdAction::Nothing
            }
        },
        OsdEvent::FadeElapsed(g) => {
            if g == st.generation {
                st.visible = false;
            }
            OsdAction::Nothing
        },
        OsdEvent::Dismiss => {
            if !st.revealed {
                return OsdAction::Nothing;
            }
            st.generation = st.generation.wrapping_add(1);
            st.revealed = false;
            st.hovered = false;
            if st.generation > 0 {
                OsdAction::StartFade { generation: st.generation, delay_ms: FADE_WAIT_MS }
            } else {
                OsdAction::Nothing
            }
        },
        OsdEvent::Hover(h) => {
            st.hovered = h;
            if !h && st.generation > 0 {
                OsdAction::StartDwell { generation: st.generation, delay_ms: HOVER_LEAVE_MS }
            } else {
                OsdAction::Nothing
            }
        },
    }
}

/// A timer started before the latest show or dismissal does nothing.
pub proof fn lemma_stale_timer_is_ignored(st: OsdState, g: u64)
    requires
        g != st.generation,
    ensures
        osd_next(st, OsdEvent::DwellElapsed(g)) == (st, OsdAction::Nothing),
        osd_next(st, OsdEvent::FadeElapsed(g)) == (st, OsdAction::Nothing),
{
}

/// A new show outlives the timers of the show before it: after showing
/// again, the earlier dwell and fade timers leave the display on screen.
pub proof fn lemma_show_outlives_earlier_timers(st: OsdState, dwell_ms: u64)
    ensures
        ({
            let shown = osd_next(st, OsdEvent::Show { dwell_ms }).0;
            &&& shown.visible && shown.revealed
            &&& osd_next(shown, OsdEvent::DwellElapsed(st.generation)).0 == shown
            &&& osd_next(shown, OsdEvent::FadeElapsed(st.generation)).0 == shown
        }),
{
}

/// A shown display goes away in its own time: the dwell timer it starts
/// fades it unless hovered, and the fade timer that follows hides it.
pub proof fn lemma_show_then_timers_hide(st: OsdState, dwell_ms: u64)
    requires
        !st.hovered,
    ensures
        ({
            let (shown, a) = osd_next(st, OsdEvent::Show { dwell_ms });
            let (faded, b) = osd_next(shown, OsdEvent::DwellElapsed(shown.generation));
            let (hidden, c) = osd_next(faded, OsdEvent::FadeElapsed(shown.generation));
            &&& a == OsdAction::StartDwell { generation: shown.generation, delay_ms: dwell_ms }
            &&& !faded.revealed && faded.visible
            &&& b == OsdAction::StartFade { generation: shown.generation, delay_ms: FADE_WAIT_MS }
            &&& !hidden.visible && !hidden.revealed
        }),
{
}

/// A toast that was hovered at its deadline still goes: when the pointer
/// leaves, a new dwell starts, and when it runs out the toast fades.
pub proof fn lemma_hovered_toast_goes_after_leaving(st: OsdState)
    requires
        st.hovered,
        st.generation > 0,
    ensures
        ({
            let (left, a) = osd_next(st, OsdEvent::Hover(false));
            let (faded, b) = osd_next(left, OsdEvent::DwellElapsed(st.generation));
            &&& a == OsdAction::StartDwell { generation: st.generation, delay_ms: HOVER_LEAVE_MS }
            &&& !faded.revealed
            &&& b == OsdAction::StartFade { generation: st.generation, delay_ms: FADE_WAIT_MS }
        }),
{
}

/// How long a notification toast stays: the requested time held to 1.5 to 30
/// seconds, 8 seconds when 0 is asked for, 4.5 seconds by default.
pub open spec fn dwell_for(expire_timeout_ms: i32) -> u64 {
    if expire_timeout_ms > 0 {
        if expire_timeout_ms < 1500 {
            1500
        } else if expire_timeout_ms > 30_000 {
            30_000
        } else {
            expire_timeout_ms as u64
        }
    } else if expire_timeout_ms == 0 {
        8_000
    } else {
        4_500
    }
}

/// How long a notification toast stays for the requested expiry.
pub fn notification_dwell_ms(expire_timeout_ms: i32) -> (ms: u64)
    ensures
        ms == dwell_for(expire_timeout_ms),
{
    if expire_timeout_ms > 0 {
        if expire_timeout_ms < 1500 {
            1500
        } else if expire_timeout_ms > 30_000 {
            30_000
        } else {
            expire_timeout_ms as u64
        }
    } else if expire_timeout_ms == 0 {
        8_000
    } else {
        4_500
    }
}

/// `s` trimmed.
fn trimmed(s: &str) -> (r: Vec<char>)
    ensures
        r@ == trim(s@),
{
    let c = chars_of(s);
    let (lo, hi) = trim_range(&c);
    slice_chars(&c, lo, hi)
}

/// `trim(s)`, or `d` when that is empty.
pub open spec fn trimmed_or(s: Seq<char>, d: Seq<char>) -> Seq<char> {
    if trim(s).len() == 0 {
        d
    } else {
        trim(s)
    }
}

/// The texts of a notification toast: the application (`Notification` when
/// unnamed), the summary and the body, each trimmed; an empty summary or
/// body is hidden.
pub fn notification_osd_texts(app_name: &str, summary: &str, body: &str) -> (r: (
    String,
    String,
    String,
))
    ensures
        r.0@ == trimmed_or(app_name@, "Notification"@),
        r.1@ == trim(summary@),
        r.2@ == trim(body@),
{
    let app = trimmed(app_name);
    let shown_app = if app.len() == 0 {
        "Notification".to_owned()
    } else {
        string_of(&app)
    };
    (shown_app, string_of(&trimmed(summary)), string_of(&trimmed(body)))
}

/// The text of the layout badge: the layout code, trimmed and in upper case;
/// no badge for a blank code.
pub fn layout_osd_text(code: &str) -> (r: Option<String>)
    ensures
        r is None <==> trim(code@).len() == 0,
        r matches Some(t) ==> t@ == uppercase(trim(code@)),
{
    let c = trimmed(code);
    if c.len() == 0 {
        None
    } else {
        let s = string_of(&c);
        Some(to_uppercase(s.as_str()))
    }
}

/// Where the toast's icon may come from, in order: a file, an icon of the
/// theme, else a letter icon.
pub struct OsdIcon {
    /// The file to show, when the icon names one (`/…` or `file://…`).
    pub file: Option<String>,
    /// The theme icon to show, when the icon is not blank.
    pub theme_name: Option<String>,
    /// The name whose letter is drawn.
    pub letter_name: String,
}

/// `s` without the prefix `p`, when it has it.
pub open spec fn strip_prefix_of(s: Seq<char>, p: Seq<char>) -> Seq<char> {
    if crate::text::starts_with(s, p) {
        s.skip(p.len() as int)
    } else {
        s
    }
}

/// Where the toast's icon may come from, for the notification's icon
/// `app_icon` and application `app_name`.
pub fn osd_icon(app_name: &str, app_icon: &str) -> (r: OsdIcon)
    ensures
        ({
            let icon = trim(app_icon@);
            &&& r.theme_name is Some <==> icon.len() > 0
            &&& r.theme_name matches Some(t) ==> t@ == icon
            &&& r.file is Some <==> (icon.len() > 0 && (icon[0] == '/' || crate::text::starts_with(
                icon,
                "file://"@,
            )))
            &&& r.file matches Some(f) ==> f@ == strip_prefix_of(icon, "file://"@)
            &&& r.letter_name@ == trimmed_or(app_name@, "App"@)
        }),
{
    let icon = trimmed(app_icon);
    let name = trimmed(app_name);
    let letter_name = if name.len() == 0 {
        "App".to_owned()
    } else {
        string_of(&name)
    };
    if icon.len() == 0 {
        return OsdIcon { file: None, theme_name: None, letter_name };
    }
    let scheme = chars_of("file://");
    let has_scheme = scheme.len() <= icon.len() && crate::text::matches_at(&icon, &scheme, 0);
    proof {
        assert(icon@.skip(0) =~= icon@);
        assert(icon@.subrange(0, scheme.len() as int) =~= icon@.take(scheme.len() as int));
    }
    let file = if has_scheme {
        Some(string_of(&slice_chars(&icon, scheme.len(), icon.len())))
    } else if icon[0] == '/' {
        Some(string_of(&icon))
    } else {
        None
    };
    proof {
        assert(icon@.subrange(scheme.len() as int, icon.len() as int) =~= icon@.skip(
            scheme.len() as int,
        ));
    }
    OsdIcon { file, theme_name: Some(string_of(&icon)), letter_name }
}

} // verus!
