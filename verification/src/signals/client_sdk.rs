//! Parsers for the client-SDK request headers (bot / browser-integrity signals).
use vstd::prelude::*;
use crate::text;

verus! {

/// Longest accepted device fingerprint hash, in characters.
pub const MAX_FINGERPRINT_LEN: usize = 128;

/// Longest accepted JA3 value, in characters.
pub const MAX_JA3_LEN: usize = 512;

/// Largest accepted screen dimension.
pub const MAX_SCREEN_DIMENSION: u32 = 16384;

/// `"true" | "1" | "yes"` → true, `"false" | "0" | "no"` → false
/// (case-insensitive, surrounding white space ignored), anything else → none.
pub open spec fn spec_parse_bool(value: Seq<char>) -> Option<bool> {
    let v = text::lower(text::trim(value));
    if v == "true"@ || v == "1"@ || v == "yes"@ {
        Some(true)
    } else if v == "false"@ || v == "0"@ || v == "no"@ {
        Some(false)
    } else {
        None
    }
}

/// Parses a boolean header value.
pub fn parse_bool(value: &str) -> (r: Option<bool>)
    ensures
        r == spec_parse_bool(value@),
{
    let t = text::trimmed_chars(value);
    let v = text::lower_vec(&t);
    let v_true = text::chars_of("true");
    let v_one = text::chars_of("1");
    let v_yes = text::chars_of("yes");
    let v_false = text::chars_of("false");
    let v_zero = text::chars_of("0");
    let v_no = text::chars_of("no");
    if text::chars_eq(&v, &v_true) || text::chars_eq(&v, &v_one) || text::chars_eq(&v, &v_yes) {
        Some(true)
    } else if text::chars_eq(&v, &v_false) || text::chars_eq(&v, &v_zero) || text::chars_eq(&v, &v_no) {
        Some(false)
    } else {
        None
    }
}

/// A dimension accepted by [`parse_screen_resolution`]: a `u32` in `1..=16384`.
pub open spec fn spec_dimension(s: Seq<char>) -> Option<nat> {
    match text::parse_unsigned(text::trim(s), 0xffff_ffff) {
        Some(n) => if 1 <= n <= MAX_SCREEN_DIMENSION { Some(n) } else { None },
        None => None,
    }
}

/// `"WIDTHxHEIGHT"` (separator `x`, or `X` when there is no `x`), each part a
/// `u32` in `1..=16384` after trimming; rendered back as `"{w}x{h}"`.
pub open spec fn spec_parse_screen_resolution(value: Seq<char>) -> Option<Seq<char>> {
    match spec_resolution_parts(text::trim(value)) {
        Some((w, h)) => match (spec_dimension(w), spec_dimension(h)) {
            (Some(wn), Some(hn)) => Some(text::decimal(wn) + "x"@ + text::decimal(hn)),
            _ => None,
        },
        None => None,
    }
}

fn parse_dimension(v: &[char]) -> (r: Option<u32>)
    ensures
        match spec_dimension(v@) {
            Some(n) => r is Some && r->0 as nat == n,
            None => r is None,
        },
{
    let (a, b) = text::trim_bounds(v);
    let t = text::slice_vec(v, a, b);
    match text::parse_unsigned_exec(&t, 0xffff_ffff) {
        Some(n) => if 1 <= n && n <= 16384 { Some(n as u32) } else { None },
        None => None,
    }
}

/// The two sides of a resolution string, split at the first `x` (or `X`).
pub open spec fn spec_resolution_parts(t: Seq<char>) -> Option<(Seq<char>, Seq<char>)> {
    match text::split_once(t, 'x') {
        Some(p) => Some(p),
        None => text::split_once(t, 'X'),
    }
}

fn split_at_char(t: &[char], i: usize) -> (r: (Vec<char>, Vec<char>))
    requires
        i < t@.len(),
    ensures
        r.0@ == t@.subrange(0, i as int),
        r.1@ == t@.subrange(i + 1, t@.len() as int),
{
    let n = t.len();
    (text::slice_vec(t, 0, i), text::slice_vec(t, i + 1, n))
}

fn resolution_parts(t: &[char]) -> (r: Option<(Vec<char>, Vec<char>)>)
    ensures
        match spec_resolution_parts(t@) {
            Some(p) => r matches Some((a, b)) && a@ == p.0 && b@ == p.1,
            None => r is None,
        },
{
    match text::find_char(t, 'x') {
        Some(i) => Some(split_at_char(t, i)),
        None => match text::find_char(t, 'X') {
            Some(i) => Some(split_at_char(t, i)),
            None => None,
        },
    }
}

fn render_resolution(w: u32, h: u32) -> (r: String)
    ensures
        r@ == text::decimal(w as nat) + "x"@ + text::decimal(h as nat),
{
    let mut out = text::decimal_string(w as u64);
    text::push_char(&mut out, 'x');
    let hs = text::decimal_string(h as u64);
    text::push_str(&mut out, hs.as_str());
    proof {
        reveal_strlit("x");
        assert(out@ =~= text::decimal(w as nat) + "x"@ + text::decimal(h as nat));
    }
    out
}

/// Parses a screen resolution header into its canonical `"{w}x{h}"` form.
pub fn parse_screen_resolution(value: &str) -> (r: Option<String>)
    ensures
        match spec_parse_screen_resolution(value@) {
            Some(s) => r is Some && r->0@ == s,
            None => r is None,
        },
{
    let t = text::trimmed_chars(value);
    let (w, h) = match resolution_parts(&t) {
        Some(p) => p,
        None => return None,
    };
    let wn = match parse_dimension(&w) {
        Some(n) => n,
        None => return None,
    };
    let hn = match parse_dimension(&h) {
        Some(n) => n,
        None => return None,
    };
    Some(render_resolution(wn, hn))
}

/// Characters accepted in a device fingerprint hash.
pub open spec fn all_hex(s: Seq<char>) -> bool {
    forall|i: int| 0 <= i < s.len() ==> text::is_ascii_hexdigit(#[trigger] s[i])
}

/// Characters accepted in a JA3 value: hex digits, `,` and `-`.
pub open spec fn all_ja3(s: Seq<char>) -> bool {
    forall|i: int| 0 <= i < s.len() ==> (text::is_ascii_hexdigit(#[trigger] s[i]) || s[i] == ',' || s[i] == '-')
}

/// A non-empty run of at most 128 hex digits (after trimming), lowercased.
pub open spec fn spec_parse_fingerprint_hash(value: Seq<char>) -> Option<Seq<char>> {
    let t = text::trim(value);
    if t.len() == 0 || t.len() > MAX_FINGERPRINT_LEN || !all_hex(t) {
        None
    } else {
        Some(text::lower(t))
    }
}

/// A non-empty run of at most 512 hex digits, commas and dashes (after
/// trimming), lowercased; accepts both the raw JA3 string and its MD5 hash.
pub open spec fn spec_parse_ja3(value: Seq<char>) -> Option<Seq<char>> {
    let t = text::trim(value);
    if t.len() == 0 || t.len() > MAX_JA3_LEN || !all_ja3(t) {
        None
    } else {
        Some(text::lower(t))
    }
}

fn is_hex_exec(c: char) -> (r: bool)
    ensures
        r == text::is_ascii_hexdigit(c),
{
    ('0' <= c && c <= '9') || ('a' <= c && c <= 'f') || ('A' <= c && c <= 'F')
}

/// Parses a device fingerprint hash header.
pub fn parse_fingerprint_hash(value: &str) -> (r: Option<String>)
    ensures
        match spec_parse_fingerprint_hash(value@) {
            Some(s) => r is Some && r->0@ == s,
            None => r is None,
        },
{
    let t = text::trimmed_chars(value);
    if t.len() == 0 || t.len() > MAX_FINGERPRINT_LEN {
        return None;
    }
    let mut i: usize = 0;
    while i < t.len()
        invariant
            i <= t@.len(),
            t@ == text::trim(value@),
            forall|j: int| 0 <= j < i ==> text::is_ascii_hexdigit(#[trigger] t@[j]),
        decreases t@.len() - i,
    {
        if !is_hex_exec(t[i]) {
            assert(!text::is_ascii_hexdigit(t@[i as int]));
            return None;
        }
        i = i + 1;
    }
    let lower = text::lower_vec(&t);
    Some(text::string_from(&lower))
}

/// Parses a TLS JA3 fingerprint header.
pub fn parse_ja3(value: &str) -> (r: Option<String>)
    ensures
        match spec_parse_ja3(value@) {
            Some(s) => r is Some && r->0@ == s,
            None => r is None,
        },
{
    let t = text::trimmed_chars(value);
    if t.len() == 0 || t.len() > MAX_JA3_LEN {
        return None;
    }
    let mut i: usize = 0;
    while i < t.len()
        invariant
            i <= t@.len(),
            t@ == text::trim(value@),
            forall|j: int| 0 <= j < i ==> (text::is_ascii_hexdigit(#[trigger] t@[j]) || t@[j] == ',' || t@[j] == '-'),
        decreases t@.len() - i,
    {
        let c = t[i];
        if !(is_hex_exec(c) || c == ',' || c == '-') {
            assert(!(text::is_ascii_hexdigit(t@[i as int]) || t@[i as int] == ',' || t@[i as int] == '-'));
            return None;
        }
        i = i + 1;
    }
    let lower = text::lower_vec(&t);
    Some(text::string_from(&lower))
}

} // verus!
