use zeshicast::clipboard::{
    capture_route, clipboard_detail_text, decode_clipboard_text, frame_clipboard_record,
    image_cache_name, is_new_entry, CaptureRoute,
};

#[test]
fn clipboard_text_accepts_plain_and_multiline() {
    assert_eq!(decode_clipboard_text(b"hello").as_deref(), Some("hello"));
    assert_eq!(
        decode_clipboard_text(b"line one\nline two").as_deref(),
        Some("line one\nline two")
    );
}

#[test]
fn clipboard_text_rejects_blank_and_binary() {
    assert!(decode_clipboard_text(b"   \n").is_none());
    // Invalid UTF-8 (e.g. an image fragment).
    assert!(decode_clipboard_text(&[0xff, 0xfe, 0x00]).is_none());
    // Valid UTF-8 but carrying binary control bytes.
    assert!(decode_clipboard_text(b"PNG\x01\x02data").is_none());
    // Valid UTF-8 carrying PNG chunk identifiers or magic headers
    assert!(decode_clipboard_text(b"IHDR").is_none());
    assert!(decode_clipboard_text(b"IEND").is_none());
    assert!(decode_clipboard_text(b"\x89PNG\r\n\x1a\n").is_none());
    assert!(decode_clipboard_text(b"\xff\xd8\xff\xe0").is_none());
    assert!(decode_clipboard_text(b"GIF89a").is_none());
}

#[test]
fn clipboard_text_keeps_tabs_and_unicode() {
    assert_eq!(decode_clipboard_text("a\tb\r\nc".as_bytes()).as_deref(), Some("a\tb\r\nc"));
    assert_eq!(decode_clipboard_text("héllo ✓".as_bytes()).as_deref(), Some("héllo ✓"));
    assert!(decode_clipboard_text("\u{85}x".as_bytes()).is_none());
    assert!(decode_clipboard_text(b"").is_none());
    assert_eq!(decode_clipboard_text(b"xxIDATyy").as_deref(), Some("xxIDATyy"));
}

#[test]
fn prose_naming_image_chunks_is_kept_but_bare_names_are_not() {
    assert_eq!(decode_clipboard_text(b"the IDAT chunk").as_deref(), Some("the IDAT chunk"));
    assert_eq!(decode_clipboard_text(b"GIF89a is old").as_deref(), Some("GIF89a is old"));
    assert!(decode_clipboard_text(b"IDAT").is_none());
    assert!(decode_clipboard_text(b"  GIF87a\n").is_none());
}

#[test]
fn watcher_record_drops_terminator_and_cut_character() {
    let r = frame_clipboard_record(b"copied\0");
    assert!(r.terminated);
    assert_eq!(r.text.as_deref(), Some("copied"));

    // A record cut inside a two-byte character keeps the text before it.
    let mut cut = b"caf".to_vec();
    cut.push(0xc3);
    let r = frame_clipboard_record(&cut);
    assert!(!r.terminated);
    assert_eq!(r.text.as_deref(), Some("caf"));

    let r = frame_clipboard_record(b"\0");
    assert!(r.terminated);
    assert!(r.text.is_none());
}

#[test]
fn detail_text_is_cut_at_1400_characters() {
    let short = "a".repeat(1400);
    assert_eq!(clipboard_detail_text(&short), short);
    let long = "b".repeat(1401);
    assert_eq!(clipboard_detail_text(&long), format!("{}\n...", "b".repeat(1400)));
}

#[test]
fn clipboard_changes_are_routed_and_deduplicated() {
    assert_eq!(capture_route(false, false, false, true), CaptureRoute::Skip);
    assert_eq!(capture_route(true, true, true, true), CaptureRoute::Skip);
    assert_eq!(capture_route(true, false, true, true), CaptureRoute::Image);
    assert_eq!(capture_route(true, false, true, false), CaptureRoute::Skip);
    assert_eq!(capture_route(true, false, false, false), CaptureRoute::Text);
    assert!(!is_new_entry(Some("same"), "same"));
    assert!(is_new_entry(Some("old"), "new"));
    assert!(is_new_entry(None, "new"));
}

#[test]
fn image_cache_names_are_sixteen_hex_digits() {
    assert_eq!(image_cache_name(0), "0000000000000000.png");
    assert_eq!(image_cache_name(0xdead_beef), "00000000deadbeef.png");
    assert_eq!(image_cache_name(u64::MAX), "ffffffffffffffff.png");
    assert_eq!(image_cache_name(0x0123_4567_89ab_cdef), format!("{:016x}.png", 0x0123_4567_89ab_cdefu64));
}
