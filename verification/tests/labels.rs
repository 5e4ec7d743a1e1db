use zeshicast::labels::{
    ethernet_row_text, stream_subtitle, stream_volume_text,
    art_source, ArtSource,
    audio_chip, battery_chip, count_label, dashboard_audio_text, dashboard_battery_text,
    dashboard_media_text, dashboard_network_text, dashboard_notification_text, keyboard_chip,
    media_chip, media_meta_text, network_chip, notification_header, select_interface,
    track_time, uptime_label, vpn_subtitle, wifi_row_text, zones_suffix, AudioOutput,
    NetworkInterface,
};

fn iface(name: &str, state: &str, wireless: bool, v4: &[&str], v6: &[&str]) -> NetworkInterface {
    NetworkInterface {
        name: name.to_string(),
        state: state.to_string(),
        is_wireless: wireless,
        ipv4_addresses: v4.iter().map(|s| s.to_string()).collect(),
        ipv6_addresses: v6.iter().map(|s| s.to_string()).collect(),
    }
}

#[test]
fn reported_interface_prefers_an_external_link_that_is_up() {
    let ifaces = vec![
        iface("lo", "up", false, &["127.0.0.1"], &[]),
        iface("enp3s0", "down", false, &[], &[]),
        iface("wlan0", "up", true, &["192.168.1.7"], &[]),
    ];
    assert_eq!(select_interface(&ifaces), Some(2));
    let down_only = vec![iface("lo", "up", false, &[], &[]), iface("eth0", "down", false, &[], &[])];
    assert_eq!(select_interface(&down_only), Some(1));
    assert_eq!(select_interface(&[iface("lo", "up", false, &[], &[])]), None);
    assert_eq!(select_interface(&[]), None);
}

#[test]
fn network_chip_names_the_link_kind() {
    let wifi = vec![iface("wlan0", "up", true, &[], &[])];
    let chip = network_chip(&wifi).unwrap();
    assert_eq!(chip.text, "\u{273b}  Wi-Fi");
    assert!(chip.active);
    let wired = vec![iface("eth0", "down", false, &[], &[])];
    let chip = network_chip(&wired).unwrap();
    assert_eq!(chip.text, "\u{273b}  Ethernet");
    assert!(!chip.active);
    assert!(network_chip(&[iface("lo", "up", false, &[], &[])]).is_none());
}

#[test]
fn battery_chip_shows_charge_and_bolt_while_charging() {
    let chip = battery_chip(Some(87), Some("Charging"));
    assert_eq!(chip.text, "\u{26a1}  87%");
    assert!(chip.active);
    let chip = battery_chip(None, Some("Discharging"));
    assert_eq!(chip.text, "\u{2666}  ?");
    assert!(!chip.active);
}

#[test]
fn audio_chip_shows_volume_or_muted() {
    let chip = audio_chip(false, 40);
    assert_eq!(chip.text, "\u{2669}  40%");
    assert!(chip.active);
    let chip = audio_chip(true, 40);
    assert_eq!(chip.text, "\u{2669}  Muted");
    assert!(!chip.active);
}

#[test]
fn media_chip_cuts_long_titles_by_characters() {
    let chip = media_chip(Some("Короткая"), None, Some("Playing"));
    assert_eq!(chip.text, "\u{25b6}  Короткая");
    assert!(chip.active);
    let chip = media_chip(Some("Очень длинное название песни"), None, Some("Paused"));
    assert_eq!(chip.text, "\u{23f8}  Очень длинное на\u{2026}");
    assert!(!chip.active);
    let chip = media_chip(None, Some("Artist"), None);
    assert_eq!(chip.text, "\u{23f8}  Artist");
    let chip = media_chip(None, None, None);
    assert_eq!(chip.text, "\u{23f8}  Media");
    let eighteen = "abcdefghijklmnopqr";
    let chip = media_chip(Some(eighteen), None, None);
    assert_eq!(chip.text, format!("\u{23f8}  {eighteen}"));
}

#[test]
fn keyboard_chip_upper_cases_the_layout() {
    let chip = keyboard_chip(Some("us")).unwrap();
    assert_eq!(chip.text, "\u{2328}  US");
    assert!(chip.active);
    assert!(keyboard_chip(Some("")).is_none());
    assert!(keyboard_chip(None).is_none());
}

#[test]
fn dashboard_network_card_shows_state_and_address() {
    let ifaces = vec![iface("wlan0", "up", true, &["10.0.0.2"], &["fe80::1"])];
    assert_eq!(
        dashboard_network_text(&ifaces),
        ("Connected".to_string(), "wlan0  \u{b7}  10.0.0.2".to_string())
    );
    let v6 = vec![iface("eth0", "dormant", false, &[], &["fe80::1"])];
    assert_eq!(
        dashboard_network_text(&v6),
        ("dormant".to_string(), "eth0  \u{b7}  fe80::1".to_string())
    );
    let bare = vec![iface("eth0", "up", false, &[], &[])];
    assert_eq!(dashboard_network_text(&bare), ("Connected".to_string(), "eth0".to_string()));
    assert_eq!(dashboard_network_text(&[]), ("Disconnected".to_string(), String::new()));
}

#[test]
fn dashboard_battery_and_audio_cards() {
    assert_eq!(dashboard_battery_text(Some(55)), "55%");
    assert_eq!(dashboard_battery_text(None), "\u{2014}");
    let out = AudioOutput { muted: false, volume_percent: 65, name: None };
    assert_eq!(
        dashboard_audio_text(Some(&out), Some(30)),
        ("65%".to_string(), "Built-in Output  \u{b7}  mic 30%".to_string())
    );
    let long = AudioOutput {
        muted: true,
        volume_percent: 10,
        name: Some("Family 17h HD Audio Controller Speaker".to_string()),
    };
    assert_eq!(
        dashboard_audio_text(Some(&long), None),
        ("Muted".to_string(), "Family 17h HD Audio ".to_string())
    );
    assert_eq!(dashboard_audio_text(None, Some(5)), ("No device".to_string(), String::new()));
}

#[test]
fn dashboard_media_and_notification_cards() {
    assert_eq!(
        dashboard_media_text(true, Some("Song"), Some("Band"), Some("spotify")),
        ("Song".to_string(), "Band  \u{b7}  spotify".to_string())
    );
    assert_eq!(
        dashboard_media_text(true, None, Some(""), None),
        ("Unknown track".to_string(), "MPRIS".to_string())
    );
    assert_eq!(dashboard_media_text(false, Some("Song"), None, None), ("No player".to_string(), String::new()));
    assert_eq!(
        dashboard_notification_text(true, Some("mako"), Some(4), Some(false)),
        "mako  4 history  DND off"
    );
    assert_eq!(
        dashboard_notification_text(true, None, None, None),
        "notifications  unknown history  DND unknown"
    );
    assert_eq!(dashboard_notification_text(false, Some("mako"), Some(4), Some(true)), "not detected");
}

#[test]
fn notification_header_texts() {
    let h = notification_header(None, Some(true), true, false);
    assert_eq!(h.backend, "No backend");
    assert!(h.dnd_on);
    assert_eq!(h.dnd_text, "DND On");
    assert_eq!(h.message.as_deref(), Some("All caught up \u{2713}"));
    let h = notification_header(Some("swaync"), None, false, false);
    assert_eq!(h.backend, "swaync");
    assert!(!h.dnd_on);
    assert_eq!(h.dnd_text, "");
    assert_eq!(h.message.as_deref(), Some("No notification backend detected"));
    assert!(notification_header(Some("swaync"), Some(false), true, true).message.is_none());
}

#[test]
fn wifi_rows_and_media_texts() {
    assert_eq!(
        wifi_row_text(true, Some("WPA2"), Some(72)),
        ("Connected  \u{b7}  72%".to_string(), "Disconnect".to_string())
    );
    assert_eq!(
        wifi_row_text(false, None, None),
        ("Open  \u{b7}  0%".to_string(), "Connect".to_string())
    );
    assert_eq!(media_meta_text(Some("Album"), Some("mpv")), "Album  \u{b7}  mpv");
    assert_eq!(media_meta_text(Some("Album"), None), "Album");
    assert_eq!(media_meta_text(Some(""), Some("mpv")), "mpv");
    assert_eq!(media_meta_text(None, None), "");
    assert_eq!(track_time(0), "0:00");
    assert_eq!(track_time(65), "1:05");
    assert_eq!(track_time(3599), "59:59");
    assert_eq!(track_time(3600), "60:00");
    assert_eq!(vpn_subtitle("wireguard"), "wireguard active");
    assert_eq!(zones_suffix(3), "  (3 zones)");
    assert_eq!(zones_suffix(1), "");
    assert_eq!(count_label(Some(312), "unknown"), "312");
    assert_eq!(count_label(None, "\u{2014}"), "\u{2014}");
    assert_eq!(uptime_label(Some(90_061), "unknown"), "1d 1h 1m");
    assert_eq!(uptime_label(None, "unknown"), "unknown");
}

#[test]
fn album_art_source_follows_the_url() {
    assert_eq!(art_source(Some("file:///a.png"), Some("file:///a.png")), ArtSource::Unchanged);
    assert_eq!(art_source(None, None), ArtSource::Unchanged);
    assert_eq!(art_source(Some("file:///a.png"), None), ArtSource::Placeholder);
    assert_eq!(art_source(None, Some("file:///b.png")), ArtSource::File);
    assert_eq!(art_source(None, Some("https://x/y.jpg")), ArtSource::Remote);
    assert_eq!(art_source(None, Some("http://x/y.jpg")), ArtSource::Remote);
    assert_eq!(art_source(None, Some("data:image/png")), ArtSource::Placeholder);
}

#[test]
fn wired_rows_and_audio_streams() {
    let v4 = vec!["192.168.0.5/24".to_string()];
    assert_eq!(ethernet_row_text("UP", &v4), (true, "Connected  \u{b7}  192.168.0.5".to_string()));
    assert_eq!(ethernet_row_text("up", &["10.1.1.1".to_string()]), (true, "Connected  \u{b7}  10.1.1.1".to_string()));
    assert_eq!(ethernet_row_text("up", &[]), (false, "Disconnected".to_string()));
    assert_eq!(ethernet_row_text("down", &v4), (false, "Disconnected".to_string()));
    assert_eq!(stream_subtitle(Some(42)), "stream 42");
    assert_eq!(stream_subtitle(None), "application stream");
    assert_eq!(stream_volume_text(true, Some(80)), "muted");
    assert_eq!(stream_volume_text(false, Some(80)), "80%");
    assert_eq!(stream_volume_text(false, None), "--");
}
