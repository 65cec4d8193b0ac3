//! Page-text detectors: the status classifier and the slot extractor.
//!
//! Both work on the lowercase form of the page text. Keyword sets are tested
//! in strict priority order (full, then open, then closed); the slot count is
//! read from the first accepted `X / Y` ratio, preferring one that follows the
//! first "engag" stem.

use vstd::prelude::*;

verus! {

/// Coarse status of a registration page.
///
/// `Error` is never produced by the classifier itself; the engine assigns it
/// on transport failures.
#[derive(Debug, Clone, Copy, PartialEq, Eq, Structural)]
pub enum Status {
    Unknown,
    Closed,
    Open,
    Full,
    Error,
}

/// The lowercase form of a text, as `str::to_lowercase` computes it.
pub uninterp spec fn lower_of(s: Seq<char>) -> Seq<char>;

/// Relies on `str::to_lowercase`: the lowercase form of a string depends on
/// its characters alone; the result's characters are collected one for one.
#[verifier::external_body]
fn lower_chars(s: &str) -> (r: Vec<char>)
    ensures
        r@ == lower_of(s@),
{
    s.to_lowercase().chars().collect()
}

/// The keyword `k` occurs in `h` starting at position `i`.
pub open spec fn substring_at(h: Seq<char>, k: Seq<char>, i: int) -> bool {
    0 <= i && i + k.len() <= h.len() && h.subrange(i, i + k.len() as int) == k
}

/// The keyword `k` occurs somewhere in `h`.
pub open spec fn has_substring(h: Seq<char>, k: Seq<char>) -> bool {
    exists|i: int| substring_at(h, k, i)
}

/// Does `h` start with the keyword `k` at position `i`?
fn matches_at(h: &Vec<char>, k: &str, i: usize) -> (r: bool)
    requires
        i + k@.len() <= h@.len(),
    ensures
        r == substring_at(h@, k@, i as int),
{
    let klen = k.unicode_len();
    let n = h.len();
    let mut j: usize = 0;
    while j < klen
        invariant
            j <= klen,
            klen == k@.len(),
            n == h@.len(),
            i + klen <= n,
            forall|q: int| 0 <= q < j ==> h@[i + q] == k@[q],
        decreases klen - j,
    {
        if h[i + j] != k.get_char(j) {
            proof {
                assert(!substring_at(h@, k@, i as int)) by {
                    if substring_at(h@, k@, i as int) {
                        assert(h@.subrange(i as int, i + klen as int)[j as int] == k@[j as int]);
                        assert(h@[i + j] == k@[j as int]);
                    }
                }
            }
            return false;
        }
        j += 1;
    }
    proof {
        assert(h@.subrange(i as int, i + klen as int) =~= k@);
    }
    true
}

/// Case-exact containment check of the keyword `k` in the text `h`.
pub(crate) fn contains_key(h: &Vec<char>, k: &str) -> (r: bool)
    ensures
        r == has_substring(h@, k@),
{
    let klen = k.unicode_len();
    let hlen = h.len();
    if klen == 0 {
        proof {
            assert(h@.subrange(0, 0) =~= k@);
            assert(substring_at(h@, k@, 0));
        }
        return true;
    }
    if klen > hlen {
        proof {
            assert(!has_substring(h@, k@)) by {
                if has_substring(h@, k@) {
                    let i = choose|i: int| substring_at(h@, k@, i);
                    assert(i + k@.len() <= h@.len());
                }
            }
        }
        return false;
    }
    let last = hlen - klen;
    let mut i: usize = 0;
    while i <= last
        invariant
            klen == k@.len(),
            hlen == h@.len(),
            1 <= klen <= hlen,
            last == hlen - klen,
            i <= last + 1,
            forall|q: int| 0 <= q < i ==> !substring_at(h@, k@, q),
        decreases last + 1 - i,
    {
        if matches_at(h, k, i) {
            return true;
        }
        i += 1;
    }
    proof {
        assert(!has_substring(h@, k@)) by {
            if has_substring(h@, k@) {
                let q = choose|q: int| substring_at(h@, k@, q);
                assert(q + k@.len() <= h@.len());
                assert(q <= last as int);
                assert(!substring_at(h@, k@, q));
            }
        }
    }
    false
}

/// The keywords whose presence marks a page as full (waiting list, no room left).
pub open spec fn is_full_keyword(k: Seq<char>) -> bool {
    ||| k == "complet"@
    ||| k == "complète"@
    ||| k == "plus de place"@
    ||| k == "liste d'attente"@
    ||| k == "full"@
}

/// The keywords whose presence marks a page as open for registration.
pub open spec fn is_open_keyword(k: Seq<char>) -> bool {
    ||| k == "engager"@
    ||| k == "engagement ouvert"@
    ||| k == "ouvert"@
    ||| k == "inscription ouverte"@
    ||| k == "inscriptions ouvertes"@
}

/// The keywords whose presence marks a page as not yet open.
pub open spec fn is_closed_keyword(k: Seq<char>) -> bool {
    ||| k == "engagement fermé"@
    ||| k == "fermé"@
    ||| k == "ouverture le"@
    ||| k == "ouvre le"@
    ||| k == "pas encore ouvert"@
}

/// Any keyword of any of the three sets.
pub open spec fn is_any_keyword(k: Seq<char>) -> bool {
    is_full_keyword(k) || is_open_keyword(k) || is_closed_keyword(k)
}

/// The text contains some full-keyword.
pub open spec fn matches_full(h: Seq<char>) -> bool {
    ||| has_substring(h, "complet"@)
    ||| has_substring(h, "complète"@)
    ||| has_substring(h, "plus de place"@)
    ||| has_substring(h, "liste d'attente"@)
    ||| has_substring(h, "full"@)
}

/// The text contains some open-keyword.
pub open spec fn matches_open(h: Seq<char>) -> bool {
    ||| has_substring(h, "engager"@)
    ||| has_substring(h, "engagement ouvert"@)
    ||| has_substring(h, "ouvert"@)
    ||| has_substring(h, "inscription ouverte"@)
    ||| has_substring(h, "inscriptions ouvertes"@)
}

/// The text contains some closed-keyword.
pub open spec fn matches_closed(h: Seq<char>) -> bool {
    ||| has_substring(h, "engagement fermé"@)
    ||| has_substring(h, "fermé"@)
    ||| has_substring(h, "ouverture le"@)
    ||| has_substring(h, "ouvre le"@)
    ||| has_substring(h, "pas encore ouvert"@)
}

/// Classification of an already-lowercased text: keyword sets in strict
/// priority order, full first, then open, then closed; no match is Unknown.
pub open spec fn spec_status_of(h: Seq<char>) -> Status {
    if matches_full(h) {
        Status::Full
    } else if matches_open(h) {
        Status::Open
    } else if matches_closed(h) {
        Status::Closed
    } else {
        Status::Unknown
    }
}

/// Classify a text that is already lowercase (the classifier's whole logic,
/// reachable without the lowercasing step).
pub fn classify_chars(h: &Vec<char>) -> (r: Status)
    ensures
        r == spec_status_of(h@),
{
    if contains_key(h, "complet") || contains_key(h, "complète") || contains_key(h, "plus de place")
        || contains_key(h, "liste d'attente") || contains_key(h, "full") {
        return Status::Full;
    }
    if contains_key(h, "engager") || contains_key(h, "engagement ouvert") || contains_key(h, "ouvert")
        || contains_key(h, "inscription ouverte") || contains_key(h, "inscriptions ouvertes") {
        return Status::Open;
    }
    if contains_key(h, "engagement fermé") || contains_key(h, "fermé") || contains_key(h, "ouverture le")
        || contains_key(h, "ouvre le") || contains_key(h, "pas encore ouvert") {
        return Status::Closed;
    }
    Status::Unknown
}

/// Classify a page: lowercase the text, then test the keyword sets in
/// priority order.
pub fn detect_status_from_html(html: &str) -> (r: Status)
    ensures
        r == spec_status_of(lower_of(html@)),
{
    let h = lower_chars(html);
    classify_chars(&h)
}

/// Law: any full-keyword in the text forces the classification Full, whatever
/// else the text contains.
pub proof fn lemma_full_keyword_wins(t: Seq<char>, k: Seq<char>)
    requires
        is_full_keyword(k),
        has_substring(t, k),
    ensures
        spec_status_of(t) == Status::Full,
{
}

/// Law: a text containing no keyword of any set classifies as Unknown.
pub proof fn lemma_no_keyword_unknown(t: Seq<char>)
    requires
        forall|k: Seq<char>| is_any_keyword(k) ==> !(#[trigger] has_substring(t, k)),
    ensures
        spec_status_of(t) == Status::Unknown,
{
    assert(!has_substring(t, "complet"@));
    assert(!has_substring(t, "complète"@));
    assert(!has_substring(t, "plus de place"@));
    assert(!has_substring(t, "liste d'attente"@));
    assert(!has_substring(t, "full"@));
    assert(!has_substring(t, "engager"@));
    assert(!has_substring(t, "engagement ouvert"@));
    assert(!has_substring(t, "ouvert"@));
    assert(!has_substring(t, "inscription ouverte"@));
    assert(!has_substring(t, "inscriptions ouvertes"@));
    assert(!has_substring(t, "engagement fermé"@));
    assert(!has_substring(t, "fermé"@));
    assert(!has_substring(t, "ouverture le"@));
    assert(!has_substring(t, "ouvre le"@));
    assert(!has_substring(t, "pas encore ouvert"@));
}

/// ASCII decimal digit.
pub open spec fn is_digit_char(c: char) -> bool {
    48 <= c as u32 && c as u32 <= 57
}

/// Numeric value of an ASCII decimal digit.
pub open spec fn digit_value(c: char) -> int {
    c as u32 - 48
}

/// ASCII whitespace, as the ratio pattern allows around the slash.
pub open spec fn is_space_char(c: char) -> bool {
    c == ' ' || c == '\t' || c == '\n' || c == '\u{c}' || c == '\r'
}

/// Greedy digit-run parser: accumulates from `acc`; the whole parse aborts
/// once the accumulated value would pass `i32::MAX`. Returns the value and
/// the position just after the run.
pub open spec fn read_int_from(t: Seq<char>, i: int, acc: int) -> Option<(int, int)>
    decreases t.len() - i,
{
    if i < t.len() && is_digit_char(t[i]) {
        let acc2 = acc * 10 + digit_value(t[i]);
        if acc2 > i32::MAX as int {
            None
        } else {
            read_int_from(t, i + 1, acc2)
        }
    } else {
        Some((acc, i))
    }
}

/// Bounds of the digit-run parser: the end position stays within the text and
/// moves past at least one digit, and the value stays within `i32` range.
pub proof fn lemma_read_int_bounds(t: Seq<char>, i: int, acc: int)
    requires
        0 <= i <= t.len(),
        0 <= acc,
    ensures
        (match read_int_from(t, i, acc) {
            Some((v, e)) => {
                &&& i <= e <= t.len()
                &&& 0 <= v
                &&& (acc <= i32::MAX as int ==> v <= i32::MAX as int)
                &&& ((i < t.len() && is_digit_char(t[i])) ==> e >= i + 1)
            },
            None => true,
        }),
    decreases t.len() - i,
{
    if i < t.len() && is_digit_char(t[i]) {
        let acc2 = acc * 10 + digit_value(t[i]);
        if acc2 <= i32::MAX as int {
            lemma_read_int_bounds(t, i + 1, acc2);
        }
    }
}

/// First position at or after `i` that does not hold ASCII whitespace.
pub open spec fn skip_spaces(t: Seq<char>, i: int) -> int
    decreases t.len() - i,
{
    if i < t.len() && is_space_char(t[i]) {
        skip_spaces(t, i + 1)
    } else {
        i
    }
}

pub proof fn lemma_skip_spaces_bounds(t: Seq<char>, i: int)
    requires
        0 <= i <= t.len(),
    ensures
        i <= skip_spaces(t, i) <= t.len(),
    decreases t.len() - i,
{
    if i < t.len() && is_space_char(t[i]) {
        lemma_skip_spaces_bounds(t, i + 1);
    }
}

/// The ratio scan from position `i`: find a digit run `X`, optional spaces, a
/// slash, optional spaces, a digit run `Y`; accept the first candidate with
/// `Y >= X` and return `Y - X`; skip a rejected candidate and continue just
/// after it; abort on a digit run past `i32::MAX`.
pub open spec fn scan_ratio_spec(t: Seq<char>, i: int) -> Option<int>
    decreases t.len() - i,
        via scan_ratio_decreases
{
    if i >= t.len() {
        None
    } else if i < 0 {
        None
    } else if !is_digit_char(t[i]) {
        scan_ratio_spec(t, i + 1)
    } else {
        match read_int_from(t, i, 0) {
            None => None,
            Some((x, j)) => {
                let m = skip_spaces(t, j);
                if m >= t.len() {
                    None
                } else if t[m] != '/' {
                    scan_ratio_spec(t, m)
                } else {
                    let p = skip_spaces(t, m + 1);
                    if p >= t.len() {
                        None
                    } else if !is_digit_char(t[p]) {
                        scan_ratio_spec(t, p)
                    } else {
                        match read_int_from(t, p, 0) {
                            None => None,
                            Some((y, k)) => if y >= x {
                                Some(y - x)
                            } else {
                                scan_ratio_spec(t, k)
                            },
                        }
                    }
                }
            },
        }
    }
}

#[via_fn]
proof fn scan_ratio_decreases(t: Seq<char>, i: int) {
    if 0 <= i && i < t.len() && is_digit_char(t[i]) {
        lemma_read_int_bounds(t, i, 0);
        match read_int_from(t, i, 0) {
            Some((x, j)) => {
                lemma_skip_spaces_bounds(t, j);
                let m = skip_spaces(t, j);
                if m < t.len() && t[m] == '/' {
                    lemma_skip_spaces_bounds(t, m + 1);
                    let p = skip_spaces(t, m + 1);
                    if p < t.len() && is_digit_char(t[p]) {
                        lemma_read_int_bounds(t, p, 0);
                    }
                }
            },
            None => {},
        }
    }
}

/// Position of the first occurrence of `k` at or after `i` in `t`.
pub open spec fn find_from(t: Seq<char>, k: Seq<char>, i: int) -> Option<int>
    decreases t.len() - i,
        via find_from_decreases
{
    if i + k.len() > t.len() {
        None
    } else if substring_at(t, k, i) {
        Some(i)
    } else {
        find_from(t, k, i + 1)
    }
}

#[via_fn]
proof fn find_from_decreases(t: Seq<char>, k: Seq<char>, i: int) {
    if k.len() == 0 && 0 <= i && i + k.len() <= t.len() {
        assert(t.subrange(i, i + k.len() as int) =~= k);
        assert(substring_at(t, k, i));
    }
}

/// The slot count read from a lowercased page: a ratio after the first
/// "engag" stem wins; otherwise the first ratio of the whole text.
pub open spec fn spec_slots_of(t: Seq<char>) -> Option<int> {
    match find_from(t, "engag"@, 0) {
        Some(idx) => match scan_ratio_spec(t, idx) {
            Some(v) => Some(v),
            None => scan_ratio_spec(t, 0),
        },
        None => scan_ratio_spec(t, 0),
    }
}

/// Spec image of an optional machine integer.
pub open spec fn opt_i32_view(o: Option<i32>) -> Option<int> {
    match o {
        Some(v) => Some(v as int),
        None => None,
    }
}

/// Is there an ASCII digit at position `i`?
fn digit_at(chars: &Vec<char>, i: usize) -> (r: bool)
    ensures
        r == (i < chars@.len() && is_digit_char(chars@[i as int])),
{
    if i < chars.len() {
        let u = chars[i] as u32;
        48 <= u && u <= 57
    } else {
        false
    }
}

/// Is there ASCII whitespace at position `i`?
fn space_at(chars: &Vec<char>, i: usize) -> (r: bool)
    ensures
        r == (i < chars@.len() && is_space_char(chars@[i as int])),
{
    if i < chars.len() {
        let c = chars[i];
        c == ' ' || c == '\t' || c == '\n' || c == '\u{c}' || c == '\r'
    } else {
        false
    }
}

/// Read a digit run starting at `start`; the whole parse aborts once the
/// accumulated value passes `i32::MAX`.
pub fn read_int(chars: &Vec<char>, start: usize) -> (r: Option<(i32, usize)>)
    ensures
        (match r {
            Some((v, e)) => read_int_from(chars@, start as int, 0) == Some((v as int, e as int))
                && 0 <= v,
            None => read_int_from(chars@, start as int, 0) is None,
        }),
{
    let n = chars.len();
    if start >= n {
        return Some((0, start));
    }
    let mut i = start;
    let mut val: i64 = 0;
    while digit_at(chars, i)
        invariant
            start <= i <= n,
            n == chars@.len(),
            0 <= val <= i32::MAX as i64,
            read_int_from(chars@, start as int, 0) == read_int_from(chars@, i as int, val as int),
        decreases n - i,
    {
        let u = chars[i] as u32;
        let d = (u - 48) as i64;
        val = val * 10 + d;
        if val > 2147483647i64 {
            return None;
        }
        i += 1;
    }
    Some((val as i32, i))
}

/// First position at or after `start` without ASCII whitespace.
fn skip_spaces_exec(chars: &Vec<char>, start: usize) -> (r: usize)
    requires
        start as int <= chars@.len(),
    ensures
        r as int == skip_spaces(chars@, start as int),
        start <= r,
        r as int <= chars@.len(),
{
    let n = chars.len();
    let mut i = start;
    while space_at(chars, i)
        invariant
            start <= i <= n,
            n == chars@.len(),
            skip_spaces(chars@, start as int) == skip_spaces(chars@, i as int),
        decreases n - i,
    {
        i += 1;
    }
    i
}

/// Scan for the first `X / Y` ratio from `start`; return `Y - X` for the
/// first candidate with `Y >= X`; skip rejected candidates; abort the scan on
/// a digit run past `i32::MAX`.
pub fn parse_first_ratio(chars: &Vec<char>, start: usize) -> (r: Option<i32>)
    ensures
        opt_i32_view(r) == scan_ratio_spec(chars@, start as int),
{
    let n = chars.len();
    let mut i = start;
    if i >= n {
        return None;
    }
    while i < n
        invariant
            i <= n,
            n == chars@.len(),
            scan_ratio_spec(chars@, start as int) == scan_ratio_spec(chars@, i as int),
        decreases n - i,
    {
        if !digit_at(chars, i) {
            i += 1;
            continue;
        }
        proof {
            lemma_read_int_bounds(chars@, i as int, 0);
        }
        match read_int(chars, i) {
            None => {
                return None;
            },
            Some((x, j)) => {
                let m = skip_spaces_exec(chars, j);
                if m >= n {
                    return None;
                }
                if chars[m] != '/' {
                    proof {
                        assert(scan_ratio_spec(chars@, i as int) == scan_ratio_spec(
                            chars@,
                            m as int,
                        ));
                    }
                    i = m;
                    continue;
                }
                let p = skip_spaces_exec(chars, m + 1);
                if p >= n {
                    return None;
                }
                if !digit_at(chars, p) {
                    proof {
                        assert(scan_ratio_spec(chars@, i as int) == scan_ratio_spec(
                            chars@,
                            p as int,
                        ));
                    }
                    i = p;
                    continue;
                }
                proof {
                    lemma_read_int_bounds(chars@, p as int, 0);
                }
                match read_int(chars, p) {
                    None => {
                        return None;
                    },
                    Some((y, k)) => {
                        if y >= x {
                            return Some(y - x);
                        }
                        proof {
                            assert(scan_ratio_spec(chars@, i as int) == scan_ratio_spec(
                                chars@,
                                k as int,
                            ));
                        }
                        i = k;
                    },
                }
            },
        }
    }
    None
}

/// Position of the first occurrence of the keyword `k` in `h`.
fn find_key(h: &Vec<char>, k: &str) -> (r: Option<usize>)
    requires
        k@.len() >= 1,
    ensures
        (match r {
            Some(i) => find_from(h@, k@, 0) == Some(i as int) && i as int + k@.len() <= h@.len(),
            None => find_from(h@, k@, 0) is None,
        }),
{
    let klen = k.unicode_len();
    let hlen = h.len();
    if klen > hlen {
        return None;
    }
    let last = hlen - klen;
    let mut i: usize = 0;
    while i <= last
        invariant
            klen == k@.len(),
            hlen == h@.len(),
            1 <= klen <= hlen,
            last == hlen - klen,
            i <= last + 1,
            find_from(h@, k@, 0) == find_from(h@, k@, i as int),
        decreases last + 1 - i,
    {
        if matches_at(h, k, i) {
            return Some(i);
        }
        i += 1;
    }
    None
}

/// Extract the remaining-slots count from an already-lowercased text (the
/// extractor's whole logic, reachable without the lowercasing step).
pub fn extract_slots(chars: &Vec<char>) -> (r: Option<i32>)
    ensures
        opt_i32_view(r) == spec_slots_of(chars@),
{
    proof {
        reveal_strlit("engag");
    }
    match find_key(chars, "engag") {
        Some(idx) => match parse_first_ratio(chars, idx) {
            Some(v) => Some(v),
            None => parse_first_ratio(chars, 0),
        },
        None => parse_first_ratio(chars, 0),
    }
}

/// Extract "slots remaining" as `Y - X` from the first accepted ratio of the
/// lowercased page, preferring a ratio that follows the first "engag" stem.
pub fn detect_slots_from_html(html: &str) -> (r: Option<i32>)
    ensures
        opt_i32_view(r) == spec_slots_of(lower_of(html@)),
{
    let h = lower_chars(html);
    extract_slots(&h)
}

/// The ratio scan passes over a digit-free stretch unchanged.
pub proof fn lemma_scan_over_nondigits(t: Seq<char>, a: int, b: int)
    requires
        0 <= a <= b <= t.len(),
        forall|q: int| a <= q < b ==> !is_digit_char(#[trigger] t[q]),
    ensures
        scan_ratio_spec(t, a) == scan_ratio_spec(t, b),
    decreases b - a,
{
    if a < b {
        lemma_scan_over_nondigits(t, a + 1, b);
    }
}

/// Law: when the first digit of the text starts a ratio `X / Y` with
/// `Y >= X`, the extractor's scan accepts it and returns `Y - X`.
pub proof fn lemma_first_ratio_accepted(
    t: Seq<char>,
    i: int,
    x: int,
    j: int,
    m: int,
    p: int,
    y: int,
    k: int,
)
    requires
        0 <= i < t.len(),
        is_digit_char(t[i]),
        forall|q: int| 0 <= q < i ==> !is_digit_char(#[trigger] t[q]),
        read_int_from(t, i, 0) == Some((x, j)),
        m == skip_spaces(t, j),
        m < t.len(),
        t[m] == '/',
        p == skip_spaces(t, m + 1),
        p < t.len(),
        is_digit_char(t[p]),
        read_int_from(t, p, 0) == Some((y, k)),
        y >= x,
    ensures
        scan_ratio_spec(t, 0) == Some(y - x),
{
    lemma_scan_over_nondigits(t, 0, i);
}

/// Law: a candidate ratio with `Y < X` is skipped; scanning continues just
/// after the rejected candidate.
pub proof fn lemma_ratio_skipped(
    t: Seq<char>,
    i: int,
    x: int,
    j: int,
    m: int,
    p: int,
    y: int,
    k: int,
)
    requires
        0 <= i < t.len(),
        is_digit_char(t[i]),
        read_int_from(t, i, 0) == Some((x, j)),
        m == skip_spaces(t, j),
        m < t.len(),
        t[m] == '/',
        p == skip_spaces(t, m + 1),
        p < t.len(),
        is_digit_char(t[p]),
        read_int_from(t, p, 0) == Some((y, k)),
        y < x,
    ensures
        scan_ratio_spec(t, i) == scan_ratio_spec(t, k),
{
}

/// Law: the classifier itself never yields Error; that status is the
/// engine's, reserved for transport and read failures.
pub proof fn lemma_classifier_never_errors(t: Seq<char>)
    ensures
        spec_status_of(t) != Status::Error,
{
}

/// An accepted ratio is `Y - X` with `Y >= X`, so the scan never yields a
/// negative count, and both runs stay within `i32` range.
pub proof fn lemma_scan_nonnegative(t: Seq<char>, i: int)
    ensures
        (match scan_ratio_spec(t, i) {
            Some(v) => 0 <= v <= i32::MAX as int,
            None => true,
        }),
    decreases t.len() - i,
{
    if i >= t.len() || i < 0 {
    } else if !is_digit_char(t[i]) {
        lemma_scan_nonnegative(t, i + 1);
    } else {
        lemma_read_int_bounds(t, i, 0);
        match read_int_from(t, i, 0) {
            None => {},
            Some((x, j)) => {
                lemma_skip_spaces_bounds(t, j);
                let m = skip_spaces(t, j);
                if m >= t.len() {
                } else if t[m] != '/' {
                    lemma_scan_nonnegative(t, m);
                } else {
                    lemma_skip_spaces_bounds(t, m + 1);
                    let p = skip_spaces(t, m + 1);
                    if p >= t.len() {
                    } else if !is_digit_char(t[p]) {
                        lemma_scan_nonnegative(t, p);
                    } else {
                        lemma_read_int_bounds(t, p, 0);
                        match read_int_from(t, p, 0) {
                            None => {},
                            Some((y, k)) => {
                                if y < x {
                                    lemma_scan_nonnegative(t, k);
                                }
                            },
                        }
                    }
                }
            },
        }
    }
}

/// Law: the slot count, when present, is a non-negative number of remaining
/// places.
pub proof fn lemma_slots_nonnegative(t: Seq<char>)
    ensures
        (match spec_slots_of(t) {
            Some(v) => 0 <= v <= i32::MAX as int,
            None => true,
        }),
{
    lemma_scan_nonnegative(t, 0);
    match find_from(t, "engag"@, 0) {
        Some(idx) => lemma_scan_nonnegative(t, idx),
        None => {},
    }
}

/// Law: a ratio found after the first "engag" stem takes precedence over any
/// ratio occurring earlier in the text.
pub proof fn lemma_engag_stem_preferred(t: Seq<char>, idx: int, v: int)
    requires
        find_from(t, "engag"@, 0) == Some(idx),
        scan_ratio_spec(t, idx) == Some(v),
    ensures
        spec_slots_of(t) == Some(v),
{
}

} // verus!
