//! Credential-breach lookup in the k-anonymity style of HaveIBeenPwned's
//! Pwned Passwords range API: only the first five hex characters of a
//! password's SHA-1 leave the host, and the range response is matched
//! locally against the remaining 35.
use vstd::prelude::*;
use crate::text;

verus! {

/// The SHA-1 digest of the UTF-8 encoding of `text`.
pub uninterp spec fn sha1_digest(text: Seq<char>) -> Seq<u8>;

/// SHA-1 of a string's bytes (`sha1::Sha1::digest`): 20 bytes, named by
/// [`sha1_digest`].
#[verifier::external_body]
fn sha1_bytes(text: &str) -> (r: Vec<u8>)
    ensures
        r@ == sha1_digest(text@),
        r@.len() == 20,
{
    <sha1::Sha1 as sha1::Digest>::digest(text.as_bytes()).to_vec()
}

/// The upper-case hexadecimal digit of a value below 16.
pub open spec fn hex_digit_upper(d: int) -> char {
    if d < 10 { ((d + 48) as u32) as char } else { ((d + 55) as u32) as char }
}

/// Two upper-case hexadecimal digits per byte (`format!("{b:02X}")`).
pub open spec fn hex_upper(bytes: Seq<u8>) -> Seq<char>
    decreases bytes.len(),
{
    if bytes.len() == 0 {
        Seq::empty()
    } else {
        hex_upper(bytes.drop_last()).push(hex_digit_upper(bytes.last() as int / 16))
            .push(hex_digit_upper(bytes.last() as int % 16))
    }
}

fn hex_digit_exec(d: u8) -> (c: char)
    requires
        d < 16,
    ensures
        c == hex_digit_upper(d as int),
{
    if d < 10 {
        (d + 48) as char
    } else {
        (d + 55) as char
    }
}

proof fn lemma_hex_upper_len(bytes: Seq<u8>)
    ensures
        hex_upper(bytes).len() == 2 * bytes.len(),
    decreases bytes.len(),
{
    if bytes.len() > 0 {
        lemma_hex_upper_len(bytes.drop_last());
    }
}

/// Upper-case hexadecimal text of a byte string.
pub fn upper_hex(bytes: &[u8]) -> (r: String)
    ensures
        r@ == hex_upper(bytes@),
{
    let mut r = String::new();
    let mut i: usize = 0;
    while i < bytes.len()
        invariant
            i <= bytes.len(),
            r@ == hex_upper(bytes@.take(i as int)),
        decreases bytes.len() - i,
    {
        let b = bytes[i];
        text::push_char(&mut r, hex_digit_exec(b / 16));
        text::push_char(&mut r, hex_digit_exec(b % 16));
        proof {
            assert(bytes@.take(i as int + 1).drop_last() =~= bytes@.take(i as int));
        }
        i = i + 1;
    }
    assert(bytes@.take(bytes.len() as int) =~= bytes@);
    r
}

/// The 40-character upper-case hex SHA-1 of a password.
pub open spec fn password_hash_hex(password: Seq<char>) -> Seq<char> {
    hex_upper(sha1_digest(password))
}

/// Hash a password with SHA-1 and split the upper-case hex digest into the
/// five-character prefix sent to the range API and the 35-character suffix
/// compared locally.
pub fn sha1_prefix_and_suffix(password: &str) -> (r: (String, String))
    ensures
        r.0@ == password_hash_hex(password@).take(5),
        r.1@ == password_hash_hex(password@).skip(5),
        r.0@.len() == 5,
        r.1@.len() == 35,
        password_hash_hex(password@).len() == 40,
{
    let digest = sha1_bytes(password);
    let hex = upper_hex(&digest);
    proof {
        lemma_hex_upper_len(digest@);
    }
    let chars = text::chars_of(hex.as_str());
    let prefix = text::slice_vec(&chars, 0, 5);
    let suffix = text::slice_vec(&chars, 5, chars.len());
    (text::string_from(&prefix), text::string_from(&suffix))
}

/// The lines of a text: the pieces between `\n` characters.
#[verifier::opaque]
pub open spec fn split_lines(s: Seq<char>) -> Seq<Seq<char>>
    decreases s.len(),
{
    match text::first_index_of(s, '\n') {
        Some(i) => if 0 <= i < s.len() {
            seq![s.take(i)] + split_lines(s.skip(i + 1))
        } else {
            seq![s]
        },
        None => seq![s],
    }
}

/// The count on the first line whose hash part matches `key`
/// (case-insensitively): `None` when no line matches or its count does not
/// parse as a `u64`.
#[verifier::opaque]
pub open spec fn hibp_lookup(lines: Seq<Seq<char>>, key: Seq<char>) -> Option<nat>
    decreases lines.len(),
{
    if lines.len() == 0 {
        None
    } else {
        match text::split_once(text::trim(lines[0]), ':') {
            Some((hash, count)) => if text::lower(hash) == key {
                text::parse_unsigned(text::trim(count), 0xffff_ffff_ffff_ffff)
            } else {
                hibp_lookup(lines.drop_first(), key)
            },
            None => hibp_lookup(lines.drop_first(), key),
        }
    }
}

/// What a range response body says of a suffix.
pub open spec fn spec_hibp_body_contains(body: Seq<char>, suffix: Seq<char>) -> Option<nat> {
    hibp_lookup(split_lines(body), text::lower(text::upper(text::trim(suffix))))
}

/// The first occurrence of `c` at or after `start`.
fn find_char_from(v: &[char], start: usize, c: char) -> (r: Option<usize>)
    requires
        start <= v@.len(),
    ensures
        match r {
            Some(e) => start <= e < v@.len() && text::first_index_of(v@.skip(start as int), c) == Some(e - start),
            None => text::first_index_of(v@.skip(start as int), c) is None,
        },
{
    let mut i: usize = start;
    let ghost s = v@.skip(start as int);
    while i < v.len()
        invariant
            start <= i <= v.len(),
            s == v@.skip(start as int),
            forall|j: int| 0 <= j < i - start ==> s[j] != c,
        decreases v.len() - i,
    {
        if v[i] == c {
            proof {
                let k = (i - start) as int;
                assert(s[k] == c);
                let m = choose|m: int| 0 <= m < s.len() && s[m] == c && forall|j: int| 0 <= j < m ==> s[j] != c;
                if m < k {
                } else if m > k {
                    assert(s[k] != c);
                }
            }
            return Some(i);
        }
        i = i + 1;
    }
    None
}

/// What one line says: `Some(result)` when its hash part matches `key` (the
/// result being the parsed count), `None` when the scan goes on.
#[verifier::opaque]
pub open spec fn line_verdict(line: Seq<char>, key: Seq<char>) -> Option<Option<nat>> {
    match text::split_once(text::trim(line), ':') {
        Some((hash, count)) => if text::lower(hash) == key {
            Some(text::parse_unsigned(text::trim(count), 0xffff_ffff_ffff_ffff))
        } else {
            None
        },
        None => None,
    }
}

fn check_line(line: &[char], key: &[char]) -> (r: Option<Option<u64>>)
    ensures
        match line_verdict(line@, key@) {
            Some(Some(n)) => r is Some && r->0 is Some && r->0->0 as nat == n,
            Some(None) => r is Some && r->0 is None,
            None => r is None,
        },
{
    reveal(line_verdict);
    let (a, b) = text::trim_bounds(line);
    let trimmed = text::slice_vec(line, a, b);
    match text::find_char(&trimmed, ':') {
        Some(k) => {
            let hash = text::slice_vec(&trimmed, 0, k);
            let lh = text::lower_vec(&hash);
            if text::chars_eq(&lh, key) {
                let count = text::slice_vec(&trimmed, k + 1, trimmed.len());
                let (ca, cb) = text::trim_bounds(&count);
                let ct = text::slice_vec(&count, ca, cb);
                Some(text::parse_unsigned_exec(&ct, 0xffff_ffff_ffff_ffff))
            } else {
                None
            }
        },
        None => None,
    }
}

proof fn lemma_lookup_step(lines: Seq<Seq<char>>, key: Seq<char>)
    requires
        lines.len() > 0,
    ensures
        hibp_lookup(lines, key) == match line_verdict(lines[0], key) {
            Some(v) => v,
            None => hibp_lookup(lines.drop_first(), key),
        },
{
    reveal(hibp_lookup);
    reveal(line_verdict);
}

/// Parse a range response body (`SUFFIX:COUNT` per line) and return the
/// count for `suffix`, if present. White space and `\r` are tolerated.
pub fn hibp_body_contains(body: &str, suffix: &str) -> (r: Option<u64>)
    ensures
        match spec_hibp_body_contains(body@, suffix@) {
            Some(n) => r is Some && r->0 as nat == n,
            None => r is None,
        },
{
    let t = text::trimmed_chars(suffix);
    let up = text::upper_vec(&t);
    let key = text::lower_vec(&up);
    let chars = text::chars_of(body);
    let mut pos: usize = 0;
    assert(chars@.skip(0) =~= chars@);
    loop
        invariant
            pos <= chars@.len(),
            key@ == text::lower(text::upper(text::trim(suffix@))),
            chars@ == body@,
            hibp_lookup(split_lines(chars@.skip(pos as int)), key@) == spec_hibp_body_contains(body@, suffix@),
        decreases chars@.len() - pos,
    {
        let ghost rest = chars@.skip(pos as int);
        let found = find_char_from(&chars, pos, '\n');
        let end = match found {
            Some(e) => e,
            None => chars.len(),
        };
        let line = text::slice_vec(&chars, pos, end);
        proof {
            assert(line@ =~= rest.take(end - pos));
            lemma_split_step(rest, line@, (end - pos) as int);
            lemma_lookup_step(split_lines(rest), key@);
            if found is Some {
                assert(rest.skip(end - pos + 1) =~= chars@.skip(end as int + 1));
            }
        }
        let verdict = check_line(&line, &key);
        match verdict {
            Some(v) => return v,
            None => {},
        }
        match found {
            Some(_) => {
                assert(end < chars.len());
                pos = end + 1;
            },
            None => {
                proof {
                    reveal(hibp_lookup);
                }
                return None;
            },
        }
    }
}

proof fn lemma_split_step(rest: Seq<char>, line: Seq<char>, k: int)
    requires
        0 <= k <= rest.len(),
        line == rest.take(k),
        match text::first_index_of(rest, '\n') {
            Some(i) => i == k && k < rest.len(),
            None => k == rest.len(),
        },
    ensures
        split_lines(rest).len() > 0,
        split_lines(rest)[0] == line,
        text::first_index_of(rest, '\n') is Some ==> split_lines(rest).drop_first() == split_lines(rest.skip(k + 1)),
        text::first_index_of(rest, '\n') is None ==> split_lines(rest).drop_first().len() == 0,
{
    reveal(split_lines);
    match text::first_index_of(rest, '\n') {
        Some(i) => {
            assert((seq![rest.take(i)] + split_lines(rest.skip(i + 1))).drop_first() =~= split_lines(rest.skip(i + 1)));
        },
        None => {
            assert(rest.take(k) =~= rest);
        },
    }
}

/// An in-memory set of known-compromised password hashes (upper-case
/// 40-character SHA-1 hex), each held once.
#[derive(Debug)]
pub struct StaticBreachChecker {
    hashes: Vec<String>,
}

/// A valid SHA-1 hex digest: 40 hexadecimal digits.
pub open spec fn is_sha1_hex(s: Seq<char>) -> bool {
    s.len() == 40 && forall|i: int| 0 <= i < s.len() ==> text::is_ascii_hexdigit(#[trigger] s[i])
}

impl StaticBreachChecker {
    /// The set of hashes held.
    pub closed spec fn hash_set(&self) -> Set<Seq<char>> {
        text::strings_view(self.hashes@).to_set()
    }

    /// Every hash is held once.
    pub closed spec fn wf(&self) -> bool {
        text::strings_view(self.hashes@).no_duplicates()
    }

    /// An empty checker.
    pub fn new() -> (r: Self)
        ensures
            r.wf(),
            r.hash_set() == Set::<Seq<char>>::empty(),
    {
        let r = StaticBreachChecker { hashes: Vec::new() };
        assert(text::strings_view(r.hashes@) =~= Seq::<Seq<char>>::empty());
        r
    }

    fn position(&self, h: &[char]) -> (r: Option<usize>)
        ensures
            match r {
                Some(i) => i < self.hashes@.len() && self.hashes@[i as int]@ == h@,
                None => !text::strings_view(self.hashes@).contains(h@),
            },
    {
        let mut i: usize = 0;
        while i < self.hashes.len()
            invariant
                i <= self.hashes@.len(),
                forall|j: int| 0 <= j < i ==> self.hashes@[j]@ != h@,
            decreases self.hashes.len() - i,
        {
            let c = text::chars_of(self.hashes[i].as_str());
            if text::chars_eq(&c, h) {
                return Some(i);
            }
            i = i + 1;
        }
        proof {
            if text::strings_view(self.hashes@).contains(h@) {
                let j = choose|j: int| 0 <= j < self.hashes@.len() && text::strings_view(self.hashes@)[j] == h@;
                assert(self.hashes@[j]@ == h@);
            }
        }
        None
    }

    /// Add a hash unless it is already held.
    fn insert(&mut self, h: &[char])
        requires
            old(self).wf(),
        ensures
            final(self).wf(),
            final(self).hash_set() == old(self).hash_set().insert(h@),
    {
        let found = self.position(h);
        if found.is_none() {
            let ghost before = text::strings_view(self.hashes@);
            self.hashes.push(text::string_from(h));
            proof {
                let after = text::strings_view(self.hashes@);
                assert(after =~= before.push(h@));
                assert forall|x: Seq<char>| after.contains(x) <==> before.contains(x) || x == h@ by {
                    if before.contains(x) {
                        let j = choose|j: int| 0 <= j < before.len() && before[j] == x;
                        assert(after[j] == x);
                    }
                    if x == h@ {
                        assert(after[before.len() as int] == x);
                    }
                    if after.contains(x) {
                        let j = choose|j: int| 0 <= j < after.len() && after[j] == x;
                        if j < before.len() {
                            assert(before[j] == x);
                        }
                    }
                }
                assert(after.to_set() =~= before.to_set().insert(h@));
            }
        } else {
            proof {
                let i = found->0 as int;
                assert(text::strings_view(self.hashes@)[i] == h@);
                assert(self.hash_set().contains(h@));
                assert(self.hash_set() =~= self.hash_set().insert(h@));
            }
        }
    }

    /// Build from SHA-1 hex strings: each is trimmed and upper-cased; entries
    /// that are not 40 hex digits are dropped.
    pub fn from_hashes<const N: usize>(items: [&str; N]) -> (r: Self)
        ensures
            r.wf(),
            forall|h: Seq<char>| #[trigger] r.hash_set().contains(h) <==>
                exists|i: int| 0 <= i < N && h == text::upper(text::trim(items@[i]@)) && is_sha1_hex(h),
    {
        let mut r = Self::new();
        let mut i: usize = 0;
        while i < N
            invariant
                i <= N,
                r.wf(),
                forall|h: Seq<char>| #[trigger] r.hash_set().contains(h) <==>
                    exists|j: int| 0 <= j < i && h == text::upper(text::trim(items@[j]@)) && is_sha1_hex(h),
            decreases N - i,
        {
            let t = text::trimmed_chars(items[i]);
            let u = text::upper_vec(&t);
            let mut ok = u.len() == 40;
            let mut k: usize = 0;
            while k < u.len()
                invariant
                    k <= u@.len(),
                    ok ==> u@.len() == 40 && forall|j: int| 0 <= j < k ==> text::is_ascii_hexdigit(#[trigger] u@[j]),
                    !ok ==> !is_sha1_hex(u@),
                decreases u.len() - k,
            {
                let c = u[k];
                if !((c >= '0' && c <= '9') || (c >= 'a' && c <= 'f') || (c >= 'A' && c <= 'F')) {
                    ok = false;
                }
                k = k + 1;
            }
            let ghost before = r.hash_set();
            if ok {
                r.insert(&u);
            }
            proof {
                assert forall|h: Seq<char>| #[trigger] r.hash_set().contains(h) <==>
                    exists|j: int| 0 <= j < i + 1 && h == text::upper(text::trim(items@[j]@)) && is_sha1_hex(h) by {
                    if exists|j: int| 0 <= j < i + 1 && h == text::upper(text::trim(items@[j]@)) && is_sha1_hex(h) {
                        let j = choose|j: int| 0 <= j < i + 1 && h == text::upper(text::trim(items@[j]@)) && is_sha1_hex(h);
                        if j < i {
                            assert(before.contains(h));
                        }
                    }
                }
            }
            i = i + 1;
        }
        r
    }

    /// Build from plaintext passwords by hashing each one.
    pub fn from_plaintext<const N: usize>(items: [&str; N]) -> (r: Self)
        ensures
            r.wf(),
            forall|h: Seq<char>| #[trigger] r.hash_set().contains(h) <==>
                exists|i: int| 0 <= i < N && h == password_hash_hex(items@[i]@),
    {
        let mut r = Self::new();
        let mut i: usize = 0;
        while i < N
            invariant
                i <= N,
                r.wf(),
                forall|h: Seq<char>| #[trigger] r.hash_set().contains(h) <==>
                    exists|j: int| 0 <= j < i && h == password_hash_hex(items@[j]@),
            decreases N - i,
        {
            let (p, s) = sha1_prefix_and_suffix(items[i]);
            let mut full = p;
            text::push_str(&mut full, s.as_str());
            let fc = text::chars_of(full.as_str());
            proof {
                assert(fc@ =~= password_hash_hex(items@[i as int]@));
            }
            let ghost before = r.hash_set();
            r.insert(&fc);
            proof {
                assert forall|h: Seq<char>| #[trigger] r.hash_set().contains(h) <==>
                    exists|j: int| 0 <= j < i + 1 && h == password_hash_hex(items@[j]@) by {
                    if exists|j: int| 0 <= j < i + 1 && h == password_hash_hex(items@[j]@) {
                        let j = choose|j: int| 0 <= j < i + 1 && h == password_hash_hex(items@[j]@);
                        if j < i {
                            assert(before.contains(h));
                        }
                    }
                }
            }
            i = i + 1;
        }
        r
    }

    /// Number of distinct hashes held.
    pub fn len(&self) -> (r: usize)
        requires
            self.wf(),
        ensures
            r == self.hash_set().len(),
    {
        proof {
            text::strings_view(self.hashes@).unique_seq_to_set();
        }
        self.hashes.len()
    }

    /// Whether no hash is held.
    pub fn is_empty(&self) -> (r: bool)
        requires
            self.wf(),
        ensures
            r == (self.hash_set().len() == 0),
    {
        self.len() == 0
    }

    /// Whether the password's hash is in the set.
    pub fn is_breached(&self, password: &str) -> (r: bool)
        ensures
            r == self.hash_set().contains(password_hash_hex(password@)),
    {
        let (p, s) = sha1_prefix_and_suffix(password);
        let mut full = p;
        text::push_str(&mut full, s.as_str());
        let fc = text::chars_of(full.as_str());
        proof {
            assert(fc@ =~= password_hash_hex(password@));
        }
        let found = self.position(&fc);
        proof {
            if let Some(i) = found {
                assert(text::strings_view(self.hashes@)[i as int] == fc@);
            }
        }
        found.is_some()
    }
}

/// A checker that never reports a breach.
#[derive(Debug, Clone, Copy)]
pub struct NoopBreachChecker;

impl NoopBreachChecker {
    /// Always false.
    pub fn is_breached(&self, password: &str) -> (r: bool)
        ensures
            !r,
    {
        false
    }
}


/// A checker holding the hashes of some plaintext passwords (as
/// `from_plaintext` builds it) reports each of those passwords as breached.
pub proof fn lemma_listed_password_breached(c: StaticBreachChecker, items: Seq<Seq<char>>, i: int)
    requires
        0 <= i < items.len(),
        forall|h: Seq<char>| #[trigger] c.hash_set().contains(h) <==>
            exists|j: int| 0 <= j < items.len() && h == password_hash_hex(items[j]),
    ensures
        c.hash_set().contains(password_hash_hex(items[i])),
{
}

} // verus!
