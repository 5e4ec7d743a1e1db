//! The text of the status chips, dashboard cards and list rows that show
//! system state: which interface is reported, how a level is written, when a
//! chip is hidden or highlighted.
use vstd::prelude::*;

use crate::numbers::{decimal_chars, decimal_text, duration_text, format_duration};
use crate::preferences::opt_view;
use crate::text::{chars_of, extend_all, seq_eq, string_of, to_uppercase, uppercase};

verus! {

/// A network interface as the views read it.
pub struct NetworkInterface {
    pub name: String,
    pub state: String,
    pub is_wireless: bool,
    pub ipv4_addresses: Vec<String>,
    pub ipv6_addresses: Vec<String>,
}

/// A chip of the status strip: its text and whether it is highlighted.
pub struct Chip {
    pub text: String,
    pub active: bool,
}

/// An interface other than the loopback one.
pub open spec fn is_external(x: NetworkInterface) -> bool {
    x.name@ != "lo"@
}

/// An interface whose link is up.
pub open spec fn is_up(x: NetworkInterface) -> bool {
    x.state@ == "up"@
}

/// The first external interface of `s`, up if `up` is set.
pub open spec fn first_interface(s: Seq<NetworkInterface>, up: bool) -> Option<int>
    decreases s.len(),
{
    if s.len() == 0 {
        None
    } else if is_external(s[0]) && (!up || is_up(s[0])) {
        Some(0)
    } else {
        match first_interface(s.drop_first(), up) {
            Some(i) => Some(i + 1),
            None => None,
        }
    }
}

/// The interface a view reports: the first external one that is up, else the
/// first external one.
pub open spec fn selected_interface(s: Seq<NetworkInterface>) -> Option<int> {
    match first_interface(s, true) {
        Some(i) => Some(i),
        None => first_interface(s, false),
    }
}

/// `first_interface` lies inside the sequence.
pub proof fn lemma_first_interface_bounds(s: Seq<NetworkInterface>, up: bool)
    ensures
        first_interface(s, up) matches Some(i) ==> 0 <= i < s.len(),
    decreases s.len(),
{
    if s.len() > 0 {
        lemma_first_interface_bounds(s.drop_first(), up);
    }
}

/// Whether the interface is external, and up if `up` is set.
fn interface_matches(x: &NetworkInterface, up: bool) -> (r: bool)
    ensures
        r == (is_external(*x) && (!up || is_up(*x))),
{
    let lo = chars_of("lo");
    let external = !seq_eq(&chars_of(x.name.as_str()), &lo);
    if !external {
        return false;
    }
    if !up {
        return true;
    }
    seq_eq(&chars_of(x.state.as_str()), &chars_of("up"))
}

/// Index of the first external interface, up if `up` is set.
fn find_interface(ifaces: &[NetworkInterface], up: bool) -> (r: Option<usize>)
    ensures
        r matches Some(i) ==> first_interface(ifaces@, up) == Some(i as int),
        r is None ==> first_interface(ifaces@, up) is None,
{
    let mut i: usize = 0;
    assert(ifaces@.skip(0) =~= ifaces@);
    while i < ifaces.len()
        invariant
            i <= ifaces.len(),
            first_interface(ifaces@, up) == crate::text::offset(
                first_interface(ifaces@.skip(i as int), up),
                i as int,
            ),
        decreases ifaces.len() - i,
    {
        if interface_matches(&ifaces[i], up) {
            return Some(i);
        }
        assert(ifaces@.skip(i as int).drop_first() =~= ifaces@.skip(i + 1));
        i = i + 1;
    }
    None
}

/// Index of the interface that a view reports, if any.
pub fn select_interface(ifaces: &[NetworkInterface]) -> (r: Option<usize>)
    ensures
        r matches Some(i) ==> selected_interface(ifaces@) == Some(i as int) && i < ifaces.len(),
        r is None ==> selected_interface(ifaces@) is None,
{
    proof {
        lemma_first_interface_bounds(ifaces@, true);
        lemma_first_interface_bounds(ifaces@, false);
    }
    match find_interface(ifaces, true) {
        Some(i) => Some(i),
        None => find_interface(ifaces, false),
    }
}

/// `{v}%`.
pub open spec fn percent_text(v: nat) -> Seq<char> {
    decimal_text(v) + "%"@
}

/// `v` followed by `%`.
fn percent_string(prefix: &str, v: u64) -> (s: String)
    ensures
        s@ == prefix@ + percent_text(v as nat),
{
    let mut out = chars_of(prefix);
    extend_all(&mut out, &decimal_chars(v));
    extend_all(&mut out, &chars_of("%"));
    string_of(&out)
}

/// The text of the network chip for the interface `x`.
pub open spec fn network_chip_text(x: NetworkInterface) -> Seq<char> {
    "\u{273b}  "@ + if x.is_wireless {
        "Wi-Fi"@
    } else {
        "Ethernet"@
    }
}

/// The network chip: hidden without an external interface, else the kind of
/// the reported link, highlighted while it is up.
pub fn network_chip(ifaces: &[NetworkInterface]) -> (r: Option<Chip>)
    ensures
        r is None <==> selected_interface(ifaces@) is None,
        r matches Some(c) ==> {
            let x = ifaces@[selected_interface(ifaces@)->0];
            &&& c.text@ == network_chip_text(x)
            &&& c.active == is_up(x)
        },
{
    match select_interface(ifaces) {
        None => None,
        Some(i) => {
            let x = &ifaces[i];
            let label = if x.is_wireless {
                "Wi-Fi"
            } else {
                "Ethernet"
            };
            let mut out = chars_of("\u{273b}  ");
            extend_all(&mut out, &chars_of(label));
            let up = seq_eq(&chars_of(x.state.as_str()), &chars_of("up"));
            Some(Chip { text: string_of(&out), active: up })
        },
    }
}

/// Whether the status is the given word.
fn status_is(status: Option<&str>, word: &str) -> (r: bool)
    ensures
        r == (opt_view(status) == Some(word@)),
{
    match status {
        Some(s) => seq_eq(&chars_of(s), &chars_of(word)),
        None => false,
    }
}

/// The text of the battery chip.
pub open spec fn battery_chip_text(capacity: Option<u32>, status: Option<Seq<char>>) -> Seq<char> {
    (if status == Some("Charging"@) {
        "\u{26a1}  "@
    } else {
        "\u{2666}  "@
    }) + match capacity {
        Some(v) => percent_text(v as nat),
        None => "?"@,
    }
}

/// The battery chip of the primary battery: its charge, a bolt while it
/// charges (then highlighted), `?` for an unknown charge.
pub fn battery_chip(capacity: Option<u32>, status: Option<&str>) -> (c: Chip)
    ensures
        c.text@ == battery_chip_text(capacity, opt_view(status)),
        c.active == (opt_view(status) == Some("Charging"@)),
{
    let charging = status_is(status, "Charging");
    let icon = if charging {
        "\u{26a1}  "
    } else {
        "\u{2666}  "
    };
    let text = match capacity {
        Some(v) => percent_string(icon, v as u64),
        None => {
            let mut out = chars_of(icon);
            extend_all(&mut out, &chars_of("?"));
            string_of(&out)
        },
    };
    Chip { text, active: charging }
}

/// The text of the audio chip.
pub open spec fn audio_chip_text(muted: bool, volume: u32) -> Seq<char> {
    if muted {
        "\u{2669}  Muted"@
    } else {
        "\u{2669}  "@ + percent_text(volume as nat)
    }
}

/// The audio chip of the default output: its volume, or `Muted`; highlighted
/// unless muted.
pub fn audio_chip(muted: bool, volume: u32) -> (c: Chip)
    ensures
        c.text@ == audio_chip_text(muted, volume),
        c.active == !muted,
{
    let text = if muted {
        "\u{2669}  Muted".to_owned()
    } else {
        percent_string("\u{2669}  ", volume as u64)
    };
    Chip { text, active: !muted }
}

/// The first of `a` and `b` that is present, else `d`.
pub open spec fn first_present_or(a: Option<Seq<char>>, b: Option<Seq<char>>, d: Seq<char>) -> Seq<
    char,
> {
    match a {
        Some(x) => x,
        None => match b {
            Some(y) => y,
            None => d,
        },
    }
}

/// `s` cut to its first `keep` characters and an ellipsis when it is longer
/// than `limit` characters.
pub open spec fn shortened(s: Seq<char>, limit: nat, keep: nat) -> Seq<char> {
    if s.len() > limit {
        s.take(keep as int) + "\u{2026}"@
    } else {
        s
    }
}

/// The characters of `s`, or of `d` when `s` is absent.
fn chars_or(s: Option<&str>, d: &str) -> (v: Vec<char>)
    ensures
        v@ == match opt_view(s) {
            Some(x) => x,
            None => d@,
        },
{
    match s {
        Some(x) => chars_of(x),
        None => chars_of(d),
    }
}

/// The sign and spacing that begin the media chip.
pub open spec fn media_sign(playing: bool) -> Seq<char> {
    if playing {
        "\u{25b6}  "@
    } else {
        "\u{23f8}  "@
    }
}

/// The text of the media chip.
pub open spec fn media_chip_text(
    title: Option<Seq<char>>,
    artist: Option<Seq<char>>,
    status: Option<Seq<char>>,
) -> Seq<char> {
    media_sign(status == Some("Playing"@)) + shortened(first_present_or(title, artist, "Media"@), 18, 16)
}

/// The media chip of an active player: the track title (else the artist),
/// cut after 16 characters when longer than 18, with a play or pause sign;
/// highlighted while playing.
pub fn media_chip(title: Option<&str>, artist: Option<&str>, status: Option<&str>) -> (c: Chip)
    ensures
        c.text@ == media_chip_text(opt_view(title), opt_view(artist), opt_view(status)),
        c.active == (opt_view(status) == Some("Playing"@)),
{
    let playing = status_is(status, "Playing");
    let name = match title {
        Some(t) => chars_of(t),
        None => chars_or(artist, "Media"),
    };
    let mut out = if playing {
        chars_of("\u{25b6}  ")
    } else {
        chars_of("\u{23f8}  ")
    };
    if name.len() > 18 {
        let mut k: usize = 0;
        while k < 16
            invariant
                k <= 16 < name.len(),
                out@ == media_sign(playing) + name@.take(k as int),
            decreases 16 - k,
        {
            assert(name@.take(k + 1) =~= name@.take(k as int).push(name@[k as int]));
            out.push(name[k]);
            k = k + 1;
        }
        out.push('\u{2026}');
    } else {
        extend_all(&mut out, &name);
    }
    proof {
        reveal_strlit("\u{2026}");
    }
    assert(out@ =~= media_chip_text(opt_view(title), opt_view(artist), opt_view(status)));
    Chip { text: string_of(&out), active: playing }
}

/// The keyboard-layout chip: hidden without a layout code, else the code in
/// upper case, always highlighted.
pub fn keyboard_chip(code: Option<&str>) -> (r: Option<Chip>)
    ensures
        r is None <==> (code is None || code->0@.len() == 0),
        r matches Some(c) ==> c.text@ == "\u{2328}  "@ + uppercase(code->0@) && c.active,
{
    match code {
        None => None,
        Some(c) => {
            if c.unicode_len() == 0 {
                None
            } else {
                let mut out = chars_of("\u{2328}  ");
                let upper = to_uppercase(c);
                extend_all(&mut out, &chars_of(upper.as_str()));
                Some(Chip { text: string_of(&out), active: true })
            }
        },
    }
}

/// The sound output that the dashboard reports.
pub struct AudioOutput {
    pub muted: bool,
    pub volume_percent: u32,
    pub name: Option<String>,
}

/// The view of an optional owned string.
pub open spec fn opt_string(v: Option<String>) -> Option<Seq<char>> {
    match v {
        Some(s) => Some(s@),
        None => None,
    }
}

/// The address shown for an interface: its first IPv4 address, else its
/// first IPv6 address, else none.
pub open spec fn shown_address(x: NetworkInterface) -> Seq<char> {
    if x.ipv4_addresses.len() > 0 {
        x.ipv4_addresses@[0]@
    } else if x.ipv6_addresses.len() > 0 {
        x.ipv6_addresses@[0]@
    } else {
        Seq::empty()
    }
}

/// ` · ` with the spacing the views use between two facts.
pub open spec fn dot_sep() -> Seq<char> {
    "  \u{b7}  "@
}

/// The value and the line under it of the dashboard's network card.
pub open spec fn dashboard_network_spec(s: Seq<NetworkInterface>) -> (Seq<char>, Seq<char>) {
    match selected_interface(s) {
        None => ("Disconnected"@, Seq::empty()),
        Some(i) => {
            let x = s[i];
            let address = shown_address(x);
            (
                if is_up(x) {
                    "Connected"@
                } else {
                    x.state@
                },
                if address.len() == 0 {
                    x.name@
                } else {
                    x.name@ + dot_sep() + address
                },
            )
        },
    }
}

/// The dashboard's network card: `Connected` or the link state of the
/// reported interface, and its name with its address; `Disconnected` without
/// an external interface.
pub fn dashboard_network_text(ifaces: &[NetworkInterface]) -> (r: (String, String))
    ensures
        (r.0@, r.1@) == dashboard_network_spec(ifaces@),
{
    match select_interface(ifaces) {
        None => ("Disconnected".to_owned(), String::new()),
        Some(i) => {
            let x = &ifaces[i];
            let up = seq_eq(&chars_of(x.state.as_str()), &chars_of("up"));
            let status = if up {
                "Connected".to_owned()
            } else {
                string_of(&chars_of(x.state.as_str()))
            };
            let address = if x.ipv4_addresses.len() > 0 {
                chars_of(x.ipv4_addresses[0].as_str())
            } else if x.ipv6_addresses.len() > 0 {
                chars_of(x.ipv6_addresses[0].as_str())
            } else {
                Vec::new()
            };
            let mut sub = chars_of(x.name.as_str());
            if address.len() > 0 {
                extend_all(&mut sub, &chars_of("  \u{b7}  "));
                extend_all(&mut sub, &address);
            }
            assert(address@ == shown_address(*x));
            (status, string_of(&sub))
        },
    }
}

/// The dashboard's battery value: the charge, or a dash when unknown.
pub fn dashboard_battery_text(capacity: Option<u32>) -> (r: String)
    ensures
        r@ == match capacity {
            Some(v) => percent_text(v as nat),
            None => "\u{2014}"@,
        },
{
    proof {
        reveal_strlit("");
    }
    match capacity {
        Some(v) => percent_string("", v as u64),
        None => "\u{2014}".to_owned(),
    }
}

/// The value and the line under it of the dashboard's audio card.
pub open spec fn dashboard_audio_spec(
    output: Option<(bool, u32, Option<Seq<char>>)>,
    input_volume: Option<u32>,
) -> (Seq<char>, Seq<char>) {
    match output {
        None => ("No device"@, Seq::empty()),
        Some((muted, volume, name)) => {
            let n = match name {
                Some(x) => x,
                None => "Built-in Output"@,
            };
            (
                if muted {
                    "Muted"@
                } else {
                    percent_text(volume as nat)
                },
                (if n.len() > 22 {
                    n.take(20)
                } else {
                    n
                }) + match input_volume {
                    Some(v) => dot_sep() + "mic "@ + percent_text(v as nat),
                    None => Seq::empty(),
                },
            )
        },
    }
}

/// The output as the audio specification reads it.
pub open spec fn output_view(o: Option<&AudioOutput>) -> Option<(bool, u32, Option<Seq<char>>)> {
    match o {
        Some(x) => Some((x.muted, x.volume_percent, opt_string(x.name))),
        None => None,
    }
}

/// The dashboard's audio card: the output volume or `Muted`, and the output's
/// name (cut to 20 characters when longer than 22) with the microphone level.
pub fn dashboard_audio_text(output: Option<&AudioOutput>, input_volume: Option<u32>) -> (r: (
    String,
    String,
))
    ensures
        (r.0@, r.1@) == dashboard_audio_spec(output_view(output), input_volume),
{
    match output {
        None => ("No device".to_owned(), String::new()),
        Some(o) => {
            proof {
                reveal_strlit("");
            }
            let status = if o.muted {
                "Muted".to_owned()
            } else {
                percent_string("", o.volume_percent as u64)
            };
            assert(status@ == if o.muted {
                "Muted"@
            } else {
                percent_text(o.volume_percent as nat)
            });
            let name = match &o.name {
                Some(x) => chars_of(x.as_str()),
                None => chars_of("Built-in Output"),
            };
            let mut sub: Vec<char> = Vec::new();
            if name.len() > 22 {
                let mut k: usize = 0;
                while k < 20
                    invariant
                        k <= 20 < name.len(),
                        sub@ == name@.take(k as int),
                    decreases 20 - k,
                {
                    assert(name@.take(k + 1) =~= name@.take(k as int).push(name@[k as int]));
                    sub.push(name[k]);
                    k = k + 1;
                }
            } else {
                extend_all(&mut sub, &name);
            }
            if let Some(v) = input_volume {
                extend_all(&mut sub, &chars_of("  \u{b7}  "));
                extend_all(&mut sub, &chars_of(percent_string("mic ", v as u64).as_str()));
            }
            (status, string_of(&sub))
        },
    }
}

/// The present and non-empty text of `o`.
pub open spec fn non_empty(o: Option<Seq<char>>) -> Option<Seq<char>> {
    match o {
        Some(x) => if x.len() > 0 {
            Some(x)
        } else {
            None
        },
        None => None,
    }
}

/// The value and the line under it of the dashboard's media card.
pub open spec fn dashboard_media_spec(
    active: bool,
    title: Option<Seq<char>>,
    artist: Option<Seq<char>>,
    player: Option<Seq<char>>,
) -> (Seq<char>, Seq<char>) {
    if !active {
        ("No player"@, Seq::empty())
    } else {
        let p = first_present_or(player, None, "MPRIS"@);
        (
            first_present_or(title, None, "Unknown track"@),
            match non_empty(artist) {
                Some(a) => a + dot_sep() + p,
                None => p,
            },
        )
    }
}

/// The dashboard's media card: the track title and `artist · player`, or
/// `No player` when no player is active.
pub fn dashboard_media_text(
    active: bool,
    title: Option<&str>,
    artist: Option<&str>,
    player: Option<&str>,
) -> (r: (String, String))
    ensures
        (r.0@, r.1@) == dashboard_media_spec(active, opt_view(title), opt_view(artist), opt_view(player)),
{
    if !active {
        return ("No player".to_owned(), String::new());
    }
    let t = chars_or(title, "Unknown track");
    let p = chars_or(player, "MPRIS");
    let mut sub: Vec<char> = Vec::new();
    match artist {
        Some(a) => {
            if a.unicode_len() > 0 {
                extend_all(&mut sub, &chars_of(a));
                extend_all(&mut sub, &chars_of("  \u{b7}  "));
            }
        },
        None => {},
    }
    extend_all(&mut sub, &p);
    (string_of(&t), string_of(&sub))
}

/// The dashboard's notification card.
pub open spec fn dashboard_notification_spec(
    available: bool,
    backend: Option<Seq<char>>,
    count: Option<u64>,
    dnd: Option<bool>,
) -> Seq<char> {
    if !available {
        "not detected"@
    } else {
        first_present_or(backend, None, "notifications"@) + "  "@ + match count {
            Some(c) => decimal_text(c as nat) + " history"@,
            None => "unknown history"@,
        } + "  "@ + match dnd {
            Some(true) => "DND on"@,
            Some(false) => "DND off"@,
            None => "DND unknown"@,
        }
    }
}

/// The dashboard's notification card: the backend, the size of its history
/// and the do-not-disturb state; `not detected` without a backend.
pub fn dashboard_notification_text(
    available: bool,
    backend: Option<&str>,
    count: Option<u64>,
    dnd: Option<bool>,
) -> (r: String)
    ensures
        r@ == dashboard_notification_spec(available, opt_view(backend), count, dnd),
{
    if !available {
        return "not detected".to_owned();
    }
    let mut out = chars_or(backend, "notifications");
    extend_all(&mut out, &chars_of("  "));
    match count {
        Some(c) => {
            extend_all(&mut out, &decimal_chars(c));
            extend_all(&mut out, &chars_of(" history"));
        },
        None => extend_all(&mut out, &chars_of("unknown history")),
    }
    extend_all(&mut out, &chars_of("  "));
    let d = match dnd {
        Some(true) => "DND on",
        Some(false) => "DND off",
        None => "DND unknown",
    };
    extend_all(&mut out, &chars_of(d));
    string_of(&out)
}

/// The header of the notifications view.
pub struct NotificationHeader {
    /// The backend's name.
    pub backend: String,
    /// Whether do-not-disturb is on; its badge is shown only then.
    pub dnd_on: bool,
    /// The badge text.
    pub dnd_text: String,
    /// The message shown in place of an empty history.
    pub message: Option<String>,
}

/// The header of the notifications view: the backend (`No backend` when
/// unknown), a `DND On` badge, and for an empty history either `All caught
/// up ✓` or, without a backend, `No notification backend detected`.
pub fn notification_header(
    backend: Option<&str>,
    dnd: Option<bool>,
    available: bool,
    has_history: bool,
) -> (h: NotificationHeader)
    ensures
        h.backend@ == first_present_or(opt_view(backend), None, "No backend"@),
        h.dnd_on == (dnd == Some(true)),
        h.dnd_text@ == (if dnd == Some(true) {
            "DND On"@
        } else {
            Seq::empty()
        }),
        h.message matches Some(m) ==> !has_history && m@ == (if available {
            "All caught up \u{2713}"@
        } else {
            "No notification backend detected"@
        }),
        h.message is None ==> has_history,
{
    let dnd_on = match dnd {
        Some(v) => v,
        None => false,
    };
    let message = if has_history {
        None
    } else if available {
        Some("All caught up \u{2713}".to_owned())
    } else {
        Some("No notification backend detected".to_owned())
    };
    NotificationHeader {
        backend: string_of(&chars_or(backend, "No backend")),
        dnd_on,
        dnd_text: if dnd_on {
            "DND On".to_owned()
        } else {
            String::new()
        },
        message,
    }
}

/// The line under a Wi-Fi network and the label of its button.
pub open spec fn wifi_row_spec(active: bool, security: Option<Seq<char>>, signal: Option<u32>) -> (
    Seq<char>,
    Seq<char>,
) {
    let sig = match signal {
        Some(v) => v,
        None => 0,
    };
    (
        (if active {
            "Connected"@
        } else {
            first_present_or(security, None, "Open"@)
        }) + dot_sep() + percent_text(sig as nat),
        if active {
            "Disconnect"@
        } else {
            "Connect"@
        },
    )
}

/// A Wi-Fi row: `Connected · {signal}%` for the active network, else its
/// security (`Open` when none) and signal; the button disconnects the active
/// network and connects the others.
pub fn wifi_row_text(active: bool, security: Option<&str>, signal: Option<u32>) -> (r: (
    String,
    String,
))
    ensures
        (r.0@, r.1@) == wifi_row_spec(active, opt_view(security), signal),
{
    let sig = match signal {
        Some(v) => v,
        None => 0,
    };
    let mut out = if active {
        chars_of("Connected")
    } else {
        chars_or(security, "Open")
    };
    extend_all(&mut out, &chars_of("  \u{b7}  "));
    extend_all(&mut out, &chars_of(percent_string("", sig as u64).as_str()));
    proof {
        reveal_strlit("");
    }
    let button = if active {
        "Disconnect".to_owned()
    } else {
        "Connect".to_owned()
    };
    (string_of(&out), button)
}

/// The line under the track title in the media view: album and player, or
/// whichever of them is there.
pub open spec fn media_meta_spec(album: Option<Seq<char>>, player: Option<Seq<char>>) -> Seq<char> {
    let p = first_present_or(player, None, Seq::empty());
    match non_empty(album) {
        Some(a) => if p.len() > 0 {
            a + dot_sep() + p
        } else {
            a
        },
        None => p,
    }
}

/// The line under the track title in the media view.
pub fn media_meta_text(album: Option<&str>, player: Option<&str>) -> (r: String)
    ensures
        r@ == media_meta_spec(opt_view(album), opt_view(player)),
{
    proof {
        reveal_strlit("");
    }
    let p = chars_or(player, "");
    let mut out: Vec<char> = Vec::new();
    match album {
        Some(a) => {
            if a.unicode_len() > 0 {
                extend_all(&mut out, &chars_of(a));
                if p.len() > 0 {
                    extend_all(&mut out, &chars_of("  \u{b7}  "));
                    extend_all(&mut out, &p);
                }
            } else {
                extend_all(&mut out, &p);
            }
        },
        None => extend_all(&mut out, &p),
    }
    string_of(&out)
}

/// `n < 60` with two digits.
pub open spec fn two_digits(n: nat) -> Seq<char> {
    if n < 10 {
        "0"@ + decimal_text(n)
    } else {
        decimal_text(n)
    }
}

/// A track position of `seconds` as `m:ss`.
pub open spec fn track_time_text(seconds: nat) -> Seq<char> {
    decimal_text(seconds / 60) + ":"@ + two_digits(seconds % 60)
}

/// A track position in whole seconds as `m:ss`.
pub fn track_time(seconds: u64) -> (r: String)
    ensures
        r@ == track_time_text(seconds as nat),
{
    let mut out = decimal_chars(seconds / 60);
    extend_all(&mut out, &chars_of(":"));
    let rest = seconds % 60;
    if rest < 10 {
        extend_all(&mut out, &chars_of("0"));
    }
    extend_all(&mut out, &decimal_chars(rest));
    string_of(&out)
}

/// The line under an active VPN connection.
pub fn vpn_subtitle(kind: &str) -> (r: String)
    ensures
        r@ == kind@ + " active"@,
{
    let mut out = chars_of(kind);
    extend_all(&mut out, &chars_of(" active"));
    string_of(&out)
}

/// What follows the hottest zone's temperature: the number of zones, when
/// there are several.
pub fn zones_suffix(zones: u64) -> (r: String)
    ensures
        r@ == (if zones > 1 {
            "  ("@ + decimal_text(zones as nat) + " zones)"@
        } else {
            Seq::empty()
        }),
{
    if zones > 1 {
        let mut out = chars_of("  (");
        extend_all(&mut out, &decimal_chars(zones));
        extend_all(&mut out, &chars_of(" zones)"));
        string_of(&out)
    } else {
        String::new()
    }
}

/// A count in decimal, or `unknown` in its place.
pub fn count_label(count: Option<u64>, unknown: &str) -> (r: String)
    ensures
        r@ == match count {
            Some(c) => decimal_text(c as nat),
            None => unknown@,
        },
{
    match count {
        Some(c) => string_of(&decimal_chars(c)),
        None => string_of(&chars_of(unknown)),
    }
}

/// An uptime as `format_duration` writes it, or `unknown` in its place.
pub fn uptime_label(seconds: Option<u64>, unknown: &str) -> (r: String)
    ensures
        r@ == match seconds {
            Some(t) => duration_text(t as nat),
            None => unknown@,
        },
{
    match seconds {
        Some(t) => format_duration(t),
        None => string_of(&chars_of(unknown)),
    }
}

/// A shortened title never runs past its limit: the media chip shows at most
/// 17 characters of a title, the dashboard at most 22 of a device name.
pub proof fn lemma_shortened_fits(s: Seq<char>, limit: nat, keep: nat)
    requires
        keep < limit,
    ensures
        shortened(s, limit, keep).len() <= limit,
        s.len() <= limit ==> shortened(s, limit, keep) == s,
        s.len() > limit ==> shortened(s, limit, keep).take(keep as int) == s.take(keep as int),
{
    if s.len() > limit {
        reveal_strlit("\u{2026}");
        assert(shortened(s, limit, keep).take(keep as int) =~= s.take(keep as int));
    }
}

/// Where the media view takes the album art from.
#[derive(Debug, Clone, Copy, PartialEq, Eq, Structural)]
pub enum ArtSource {
    /// The art shown is already that of the track.
    Unchanged,
    /// No usable art: the note glyph stands in its place.
    Placeholder,
    /// A local file, loaded at once.
    File,
    /// A remote image, fetched in the background.
    Remote,
}

/// Where the art at `url` comes from, when `shown` is the art on display.
pub open spec fn art_source_of(shown: Option<Seq<char>>, url: Option<Seq<char>>) -> ArtSource {
    if shown == url {
        ArtSource::Unchanged
    } else {
        match url {
            None => ArtSource::Placeholder,
            Some(u) => if crate::text::starts_with(u, "file://"@) {
                ArtSource::File
            } else if crate::text::starts_with(u, "http://"@) || crate::text::starts_with(
                u,
                "https://"@,
            ) {
                ArtSource::Remote
            } else {
                ArtSource::Placeholder
            },
        }
    }
}

/// Whether `s` begins with `p`.
fn begins_with(s: &Vec<char>, p: &str) -> (r: bool)
    ensures
        r == crate::text::starts_with(s@, p@),
{
    let pc = chars_of(p);
    if pc.len() > s.len() {
        return false;
    }
    let r = crate::text::matches_at(s, &pc, 0);
    assert(s@.skip(0) =~= s@);
    assert(s@.subrange(0, pc.len() as int) =~= s@.take(pc.len() as int));
    r
}

/// Where the media view takes the art at `url` from: nothing to do when it
/// is shown already, a file for `file://`, a fetch for `http(s)://`, else
/// the placeholder.
pub fn art_source(shown: Option<&str>, url: Option<&str>) -> (r: ArtSource)
    ensures
        r == art_source_of(opt_view(shown), opt_view(url)),
{
    let same = match (shown, url) {
        (None, None) => true,
        (Some(a), Some(b)) => seq_eq(&chars_of(a), &chars_of(b)),
        _ => false,
    };
    if same {
        return ArtSource::Unchanged;
    }
    match url {
        None => ArtSource::Placeholder,
        Some(u) => {
            let c = chars_of(u);
            if begins_with(&c, "file://") {
                ArtSource::File
            } else if begins_with(&c, "http://") || begins_with(&c, "https://") {
                ArtSource::Remote
            } else {
                ArtSource::Placeholder
            }
        },
    }
}

/// The characters of `s` before the first `c`.
pub open spec fn before_char(s: Seq<char>, c: char) -> Seq<char>
    decreases s.len(),
{
    if s.len() == 0 || s[0] == c {
        Seq::empty()
    } else {
        seq![s[0]] + before_char(s.drop_first(), c)
    }
}

/// A wired link counts as connected when its state is `up`, in any case, and
/// it has an IPv4 address.
pub open spec fn wired_connected(state: Seq<char>, ipv4: Seq<Seq<char>>) -> bool {
    crate::text::ascii_lower(state) == "up"@ && ipv4.len() > 0
}

/// A wired interface's row: whether it is connected, and the line under its
/// name — `Connected · {address}` with the address's prefix length dropped,
/// else `Disconnected`.
pub fn ethernet_row_text(state: &str, ipv4_addresses: &[String]) -> (r: (bool, String))
    ensures
        r.0 == wired_connected(state@, crate::root_list::string_seq(ipv4_addresses@)),
        r.1@ == if r.0 {
            "Connected"@ + dot_sep() + before_char(ipv4_addresses@[0]@, '/')
        } else {
            "Disconnected"@
        },
{
    let st = chars_of(state);
    let lower = crate::text::ascii_lower_range(&st, 0, st.len());
    assert(st@.subrange(0, st.len() as int) =~= st@);
    let connected = seq_eq(&lower, &chars_of("up")) && ipv4_addresses.len() > 0;
    if !connected {
        return (false, "Disconnected".to_owned());
    }
    let ip = chars_of(ipv4_addresses[0].as_str());
    let mut out = chars_of("Connected  \u{b7}  ");
    let ghost start = out@;
    let mut i: usize = 0;
    assert(ip@.skip(0) =~= ip@);
    while i < ip.len() && ip[i] != '/'
        invariant
            i <= ip.len(),
            out@ + before_char(ip@.skip(i as int), '/') == start + before_char(ip@, '/'),
        decreases ip.len() - i,
    {
        assert(ip@.skip(i as int).drop_first() =~= ip@.skip(i + 1));
        out.push(ip[i]);
        i = i + 1;
    }
    assert(before_char(ip@.skip(i as int), '/') =~= Seq::<char>::empty());
    proof {
        reveal_strlit("Connected  \u{b7}  ");
        reveal_strlit("Connected");
        reveal_strlit("  \u{b7}  ");
        assert("Connected  \u{b7}  "@ =~= "Connected"@ + dot_sep());
    }
    (true, string_of(&out))
}

/// The line under an audio stream: its id, else `application stream`.
pub fn stream_subtitle(id: Option<u32>) -> (r: String)
    ensures
        r@ == match id {
            Some(i) => "stream "@ + decimal_text(i as nat),
            None => "application stream"@,
        },
{
    match id {
        Some(i) => {
            let mut out = chars_of("stream ");
            extend_all(&mut out, &decimal_chars(i as u64));
            string_of(&out)
        },
        None => "application stream".to_owned(),
    }
}

/// The volume shown beside an audio stream: `muted`, its level, or `--`.
pub fn stream_volume_text(muted: bool, volume: Option<u32>) -> (r: String)
    ensures
        r@ == if muted {
            "muted"@
        } else {
            match volume {
                Some(v) => percent_text(v as nat),
                None => "--"@,
            }
        },
{
    proof {
        reveal_strlit("");
    }
    if muted {
        "muted".to_owned()
    } else {
        match volume {
            Some(v) => percent_string("", v as u64),
            None => "--".to_owned(),
        }
    }
}

} // verus!
