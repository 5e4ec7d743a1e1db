//! Filtering of clipboard captures: which byte chunks are kept as text, how
//! a watcher record is framed, and how long entries are shown.
use vstd::prelude::*;
use vstd::utf8::{decode_utf8, valid_utf8};

use crate::text::{
    chars_of, extend_all, seq_eq, slice_chars, string_of,
    trim, trim_range,
};

verus! {

/// Calls `std::str::from_utf8`. The contract claims that it succeeds exactly
/// on valid UTF-8, and then gives the characters that the bytes encode.
#[verifier::external_body]
fn decode_utf8_bytes(bytes: &[u8]) -> (r: Option<String>)
    ensures
        r is Some <==> valid_utf8(bytes@),
        r matches Some(s) ==> s@ == decode_utf8(bytes@),
{
    match std::str::from_utf8(bytes) {
        Ok(s) => Some(s.to_owned()),
        Err(_) => None,
    }
}

/// Calls `std::str::from_utf8`, and `Utf8Error::valid_up_to` when it fails.
/// The contract claims that the result is the length of the longest prefix of
/// `bytes` that is valid UTF-8.
#[verifier::external_body]
fn valid_utf8_prefix_len(bytes: &[u8]) -> (n: usize)
    ensures
        n <= bytes.len(),
        valid_utf8(bytes@.take(n as int)),
        forall|k: int| n < k <= bytes.len() ==> !valid_utf8(#[trigger] bytes@.take(k)),
{
    match std::str::from_utf8(bytes) {
        Ok(_) => bytes.len(),
        Err(error) => error.valid_up_to(),
    }
}

/// `c` is a control character (general category Cc, `char::is_control`).
pub open spec fn is_control(c: char) -> bool {
    (c as u32) <= 0x1f || (0x7f <= (c as u32) && (c as u32) <= 0x9f)
}

/// `c` is a control character other than tab, line feed and carriage return.
pub open spec fn is_binary_control(c: char) -> bool {
    is_control(c) && c != '\t' && c != '\n' && c != '\r'
}

/// The names of image data that can survive as valid UTF-8: the PNG chunk
/// names `IHDR`, `IDAT`, `IEND` and the GIF signatures `GIF87a`, `GIF89a`.
pub open spec fn binary_markers() -> Seq<Seq<char>> {
    seq!["IHDR"@, "IDAT"@, "IEND"@, "GIF87a"@, "GIF89a"@]
}

/// `t` is, apart from surrounding whitespace, one of the image names alone.
pub open spec fn is_binary_marker(t: Seq<char>) -> bool {
    exists|i: int| 0 <= i < binary_markers().len() && trim(t) == #[trigger] binary_markers()[i]
}

/// The text of a clipboard chunk: kept only when it is valid UTF-8, not
/// blank, free of control characters other than tab and line breaks, and
/// not a bare image name.
pub open spec fn clipboard_text(bytes: Seq<u8>) -> Option<Seq<char>> {
    if !valid_utf8(bytes) {
        None
    } else {
        let t = decode_utf8(bytes);
        if trim(t).len() == 0 || (exists|i: int| 0 <= i < t.len() && is_binary_control(
            #[trigger] t[i],
        )) || is_binary_marker(t) {
            None
        } else {
            Some(t)
        }
    }
}

/// Whether `t` holds a control character other than tab and line breaks.
fn has_binary_control(t: &[char]) -> (r: bool)
    ensures
        r == exists|i: int| 0 <= i < t.len() && is_binary_control(#[trigger] t@[i]),
{
    let mut i: usize = 0;
    while i < t.len()
        invariant
            i <= t.len(),
            forall|k: int| 0 <= k < i ==> !is_binary_control(#[trigger] t@[k]),
        decreases t.len() - i,
    {
        let c = t[i];
        let u = c as u32;
        if (u <= 0x1f || (0x7f <= u && u <= 0x9f)) && c != '\t' && c != '\n' && c != '\r' {
            assert(is_binary_control(t@[i as int]));
            return true;
        }
        i = i + 1;
    }
    false
}

/// Accepts a clipboard chunk only if it is text: valid UTF-8, not blank, no
/// binary control characters, and not a bare image name.
pub fn decode_clipboard_text(bytes: &[u8]) -> (r: Option<String>)
    ensures
        match r {
            Some(s) => clipboard_text(bytes@) == Some(s@),
            None => clipboard_text(bytes@) is None,
        },
{
    let text = match decode_utf8_bytes(bytes) {
        Some(s) => s,
        None => return None,
    };
    let chars = chars_of(text.as_str());
    let (lo, hi) = trim_range(&chars);
    if lo == hi {
        return None;
    }
    if has_binary_control(&chars) {
        return None;
    }
    let bare = slice_chars(&chars, lo, hi);
    let ihdr = seq_eq(&bare, &chars_of("IHDR"));
    let idat = seq_eq(&bare, &chars_of("IDAT"));
    let iend = seq_eq(&bare, &chars_of("IEND"));
    let gif87 = seq_eq(&bare, &chars_of("GIF87a"));
    let gif89 = seq_eq(&bare, &chars_of("GIF89a"));
    proof {
        let ms = binary_markers();
        assert(bare@ == trim(chars@));
        if ihdr {
            assert(trim(chars@) == ms[0]);
        }
        if idat {
            assert(trim(chars@) == ms[1]);
        }
        if iend {
            assert(trim(chars@) == ms[2]);
        }
        if gif87 {
            assert(trim(chars@) == ms[3]);
        }
        if gif89 {
            assert(trim(chars@) == ms[4]);
        }
        if is_binary_marker(chars@) {
            let i = choose|i: int| 0 <= i < ms.len() && trim(chars@) == #[trigger] ms[i];
            assert(i == 0 || i == 1 || i == 2 || i == 3 || i == 4);
        }
    }
    if ihdr || idat || iend || gif87 || gif89 {
        return None;
    }
    Some(text)
}

/// One record read from the clipboard watcher: the text it carries, if any,
/// and whether it ended with the NUL terminator (else it was cut short).
pub struct ClipboardRecord {
    pub text: Option<String>,
    pub terminated: bool,
}

/// The payload of a record: `buf` without its terminating NUL byte.
pub open spec fn record_payload(buf: Seq<u8>) -> Seq<u8> {
    if buf.len() > 0 && buf.last() == 0 {
        buf.drop_last()
    } else {
        buf
    }
}

/// The length of the longest valid UTF-8 prefix of `b`.
pub open spec fn valid_prefix_len(b: Seq<u8>, n: int) -> bool {
    0 <= n <= b.len() && valid_utf8(b.take(n)) && forall|k: int|
        n < k <= b.len() ==> !valid_utf8(#[trigger] b.take(k))
}

/// Frames one record read from the watcher: the NUL terminator is dropped, a
/// record cut short inside a character is trimmed to its last valid boundary,
/// and the rest is filtered like any clipboard chunk.
pub fn frame_clipboard_record(buf: &[u8]) -> (r: ClipboardRecord)
    ensures
        r.terminated == (buf@.len() > 0 && buf@.last() == 0),
        exists|n: int|
            valid_prefix_len(record_payload(buf@), n) && match r.text {
                Some(s) => clipboard_text(record_payload(buf@).take(n)) == Some(s@),
                None => clipboard_text(record_payload(buf@).take(n)) is None,
            },
{
    let terminated = buf.len() > 0 && buf[buf.len() - 1] == 0;
    let end = if terminated {
        buf.len() - 1
    } else {
        buf.len()
    };
    let mut payload: Vec<u8> = Vec::new();
    let mut i: usize = 0;
    while i < end
        invariant
            i <= end <= buf.len(),
            payload@ == buf@.take(i as int),
        decreases end - i,
    {
        payload.push(buf[i]);
        i = i + 1;
        assert(payload@ =~= buf@.take(i as int));
    }
    assert(payload@ =~= record_payload(buf@));
    let n = valid_utf8_prefix_len(&payload);
    let mut prefix: Vec<u8> = Vec::new();
    let mut j: usize = 0;
    while j < n
        invariant
            j <= n <= payload.len(),
            prefix@ == payload@.take(j as int),
        decreases n - j,
    {
        prefix.push(payload[j]);
        j = j + 1;
        assert(prefix@ =~= payload@.take(j as int));
    }
    let text = decode_clipboard_text(&prefix);
    assert(valid_prefix_len(record_payload(buf@), n as int));
    ClipboardRecord { text, terminated }
}

/// How many characters of a clipboard entry the detail pane shows.
pub open spec fn max_detail_chars() -> nat {
    1400
}

/// The detail text of a clipboard entry: the value itself, or its first 1400
/// characters followed by a line with `...`.
pub open spec fn detail_text(value: Seq<char>) -> Seq<char> {
    if value.len() <= max_detail_chars() {
        value
    } else {
        value.take(max_detail_chars() as int) + seq!['\n', '.', '.', '.']
    }
}

/// The text shown in the detail pane for a clipboard entry.
pub fn clipboard_detail_text(value: &str) -> (r: String)
    ensures
        r@ == detail_text(value@),
{
    let chars = chars_of(value);
    if chars.len() <= 1400 {
        return value.to_owned();
    }
    let mut shown = slice_chars(&chars, 0, 1400);
    shown.push('\n');
    shown.push('.');
    shown.push('.');
    shown.push('.');
    assert(shown@ =~= chars@.take(1400) + seq!['\n', '.', '.', '.']);
    string_of(&shown)
}

/// What becomes of a clipboard change.
#[derive(Debug, Clone, Copy, PartialEq, Eq, Structural)]
pub enum CaptureRoute {
    /// Nothing is recorded.
    Skip,
    /// The image is stored and recorded.
    Image,
    /// The text is read and recorded.
    Text,
}

/// What becomes of a clipboard change: nothing while the history is off or
/// private; an image when the clipboard offers one (if images are captured,
/// else nothing); else the text.
pub fn capture_route(
    history_enabled: bool,
    private_mode: bool,
    offers_image: bool,
    capture_images: bool,
) -> (r: CaptureRoute)
    ensures
        r == if !history_enabled || private_mode {
            CaptureRoute::Skip
        } else if offers_image {
            if capture_images {
                CaptureRoute::Image
            } else {
                CaptureRoute::Skip
            }
        } else {
            CaptureRoute::Text
        },
{
    if !history_enabled || private_mode {
        CaptureRoute::Skip
    } else if offers_image {
        if capture_images {
            CaptureRoute::Image
        } else {
            CaptureRoute::Skip
        }
    } else {
        CaptureRoute::Text
    }
}

/// Whether `value` is recorded after `last`: only a change is recorded.
pub fn is_new_entry(last: Option<&str>, value: &str) -> (r: bool)
    ensures
        r == (crate::preferences::opt_view(last) != Some(value@)),
{
    match last {
        Some(l) => !seq_eq(&chars_of(l), &chars_of(value)),
        None => true,
    }
}

/// The lower-case hexadecimal digit for `d < 16`.
pub open spec fn hex_char(d: nat) -> char {
    if d < 10 {
        ((48 + d) as u32) as char
    } else {
        ((87 + d) as u32) as char
    }
}

/// The last `n` hexadecimal digits of `v`, zero-padded.
pub open spec fn hex_digits(v: nat, n: nat) -> Seq<char>
    decreases n,
{
    if n == 0 {
        Seq::empty()
    } else {
        hex_digits(v / 16, (n - 1) as nat).push(hex_char(v % 16))
    }
}

/// The digit for `d < 16`.
fn hex_digit(d: u64) -> (c: char)
    requires
        d < 16,
    ensures
        c == hex_char(d as nat),
{
    let digits = ['0', '1', '2', '3', '4', '5', '6', '7', '8', '9', 'a', 'b', 'c', 'd', 'e', 'f'];
    let c = digits[d as usize];
    assert(c == hex_char(d as nat)) by {
        assert(d == 0 || d == 1 || d == 2 || d == 3 || d == 4 || d == 5 || d == 6 || d == 7 || d
            == 8 || d == 9 || d == 10 || d == 11 || d == 12 || d == 13 || d == 14 || d == 15);
    }
    c
}

/// The cache file of a clipboard image whose content hashes to `hash`: the
/// hash in 16 lower-case hexadecimal digits, then `.png`, so that identical
/// images share one file.
pub fn image_cache_name(hash: u64) -> (r: String)
    ensures
        r@ == hex_digits(hash as nat, 16) + ".png"@,
{
    let mut digits: Vec<char> = Vec::new();
    let mut k: usize = 0;
    let mut v: u64 = hash;
    assert(pow16(0) == 1);
    assert(hash as nat / 1 == hash as nat);
    // The digits come out last first; they are put in order afterwards.
    while k < 16
        invariant
            k <= 16,
            digits@.len() == k,
            v as nat == hash as nat / pow16(k as nat),
            forall|i: int| 0 <= i < k ==> #[trigger] digits@[i] == hex_char(
                (hash as nat / pow16(i as nat)) % 16,
            ),
        decreases 16 - k,
    {
        digits.push(hex_digit(v % 16));
        proof {
            lemma_pow16_step(hash as nat, k as nat);
        }
        v = v / 16;
        k = k + 1;
    }
    let mut out: Vec<char> = Vec::new();
    let mut j: usize = 16;
    while j > 0
        invariant
            j <= 16,
            digits@.len() == 16,
            forall|i: int| 0 <= i < 16 ==> #[trigger] digits@[i] == hex_char(
                (hash as nat / pow16(i as nat)) % 16,
            ),
            out@ == hex_digits(hash as nat / pow16(j as nat), (16 - j) as nat),
        decreases j,
    {
        j = j - 1;
        proof {
            lemma_pow16_step(hash as nat, j as nat);
        }
        out.push(digits[j]);
    }
    assert(hash as nat / pow16(0) == hash as nat);
    extend_all(&mut out, &chars_of(".png"));
    string_of(&out)
}

/// `16^n`.
pub open spec fn pow16(n: nat) -> nat
    decreases n,
{
    if n == 0 {
        1
    } else {
        16 * pow16((n - 1) as nat)
    }
}

/// Dividing by `16^(k+1)` is dividing by `16^k`, then by 16.
proof fn lemma_pow16_step(v: nat, k: nat)
    ensures
        pow16(k) > 0,
        v / pow16(k + 1) == (v / pow16(k)) / 16,
{
    lemma_pow16_positive(k);
    assert(pow16(k + 1) == 16 * pow16(k));
    vstd::arithmetic::div_mod::lemma_div_denominator(v as int, pow16(k) as int, 16);
    assert(pow16(k) * 16 == 16 * pow16(k)) by (nonlinear_arith);
}

/// `16^k` is positive.
proof fn lemma_pow16_positive(k: nat)
    ensures
        pow16(k) > 0,
    decreases k,
{
    if k > 0 {
        lemma_pow16_positive((k - 1) as nat);
    }
}

} // verus!
