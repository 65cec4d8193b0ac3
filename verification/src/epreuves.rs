//! Event links scraped from a contest page.
//!
//! Anchors are matched by a fixed grammar; kept links are those whose href
//! mentions an event page, made absolute against the site's origin, with
//! duplicate URLs dropped.

use vstd::prelude::*;
use crate::detect::{contains_key, has_substring};

verus! {

/// One event link: its display label and its absolute URL.
#[derive(Debug, Clone)]
pub struct Epreuve {
    pub label: String,
    pub url: String,
}

/// Mathematical image of an `Epreuve`.
pub ghost struct EpreuveV {
    pub label: Seq<char>,
    pub url: Seq<char>,
}

impl View for Epreuve {
    type V = EpreuveV;

    open spec fn view(&self) -> EpreuveV {
        EpreuveV { label: self.label@, url: self.url@ }
    }
}

/// Spec image of a vector of event links.
pub open spec fn epreuves_view(v: Seq<Epreuve>) -> Seq<EpreuveV> {
    v.map_values(|e: Epreuve| e@)
}

/// Spec image of a vector of capture pairs.
pub open spec fn pairs_view(v: Seq<(String, String)>) -> Seq<(Seq<char>, Seq<char>)> {
    v.map_values(|p: (String, String)| (p.0@, p.1@))
}

/// The capture pairs of the anchor grammar
/// `<a[^>]+href="([^"]+)"[^>]*>([^<]+)</a>` in a page, in match order: for
/// each match, its href and its link text, both trimmed.
pub uninterp spec fn anchor_captures_of(s: Seq<char>) -> Seq<(Seq<char>, Seq<char>)>;

/// Relies on `regex::Regex::captures_iter` with the anchor grammar above and
/// on `str::trim`: the capture pairs depend on the page text alone.
#[verifier::external_body]
fn anchor_captures(html: &str) -> (r: Vec<(String, String)>)
    ensures
        pairs_view(r@) == anchor_captures_of(html@),
{
    let re = regex::Regex::new(r#"<a[^>]+href="([^"]+)"[^>]*>([^<]+)</a>"#).unwrap();
    re.captures_iter(html).map(
        |cap| (cap[1].trim().to_string(), cap[2].trim().to_string()),
    ).collect()
}

/// An anchor is kept when its href mentions an event page.
pub open spec fn spec_keeps(href: Seq<char>) -> bool {
    has_substring(href, "epreuve"@) || has_substring(href, "epreuves"@)
}

/// Does the text start with "http"?
pub open spec fn starts_with_http(s: Seq<char>) -> bool {
    s.len() >= 4 && s[0] == 'h' && s[1] == 't' && s[2] == 't' && s[3] == 'p'
}

/// Absolute URL of a kept href: kept as is when already absolute, else
/// prefixed with the site's origin.
pub open spec fn spec_full_url(href: Seq<char>) -> Seq<char> {
    if starts_with_http(href) {
        href
    } else {
        "https://ffecompet.ffe.com"@ + href
    }
}

/// Some collected entry already carries this URL.
pub open spec fn has_url(s: Seq<EpreuveV>, u: Seq<char>) -> bool {
    exists|i: int| 0 <= i < s.len() && #[trigger] s[i].url == u
}

/// Fold the capture pairs into entries: keep event links, absolutize their
/// URLs, drop duplicate URLs, order kept.
pub open spec fn spec_collect(caps: Seq<(Seq<char>, Seq<char>)>) -> Seq<EpreuveV>
    decreases caps.len(),
{
    if caps.len() == 0 {
        Seq::empty()
    } else {
        let pre = spec_collect(caps.drop_last());
        let href = caps.last().0;
        let text = caps.last().1;
        if spec_keeps(href) {
            let full = spec_full_url(href);
            if !has_url(pre, full) {
                pre.push(EpreuveV { label: text, url: full })
            } else {
                pre
            }
        } else {
            pre
        }
    }
}

/// The event links of a page: the anchor captures, filtered, absolutized and
/// deduplicated.
pub open spec fn spec_parse_epreuves(t: Seq<char>) -> Seq<EpreuveV> {
    spec_collect(anchor_captures_of(t))
}

/// The characters of a string, collected one for one.
fn str_chars(s: &str) -> (r: Vec<char>)
    ensures
        r@ == s@,
{
    let n = s.unicode_len();
    let mut r: Vec<char> = Vec::new();
    let mut i: usize = 0;
    proof {
        assert(r@ =~= s@.subrange(0, 0));
    }
    while i < n
        invariant
            i <= n,
            n == s@.len(),
            r@ == s@.subrange(0, i as int),
        decreases n - i,
    {
        r.push(s.get_char(i));
        proof {
            assert(r@ =~= s@.subrange(0, i + 1));
        }
        i += 1;
    }
    proof {
        assert(s@.subrange(0, n as int) =~= s@);
    }
    r
}

/// Does the text start with "http"?
fn starts_http_exec(hv: &Vec<char>) -> (r: bool)
    ensures
        r == starts_with_http(hv@),
{
    if hv.len() < 4 {
        return false;
    }
    hv[0] == 'h' && hv[1] == 't' && hv[2] == 't' && hv[3] == 'p'
}

/// Is the URL already among the collected entries?
fn url_present(out: &Vec<Epreuve>, u: &String) -> (r: bool)
    ensures
        r == has_url(epreuves_view(out@), u@),
{
    let n = out.len();
    let mut j: usize = 0;
    while j < n
        invariant
            j <= n,
            n == out.len(),
            forall|q: int| 0 <= q < j ==> #[trigger] out@[q]@.url != u@,
        decreases n - j,
    {
        if crate::models::string_eq(&out[j].url, u) {
            proof {
                assert(epreuves_view(out@)[j as int].url == u@);
            }
            return true;
        }
        j += 1;
    }
    proof {
        assert(!has_url(epreuves_view(out@), u@)) by {
            if has_url(epreuves_view(out@), u@) {
                let q = choose|q: int|
                    0 <= q < epreuves_view(out@).len() && #[trigger] epreuves_view(
                        out@,
                    )[q].url == u@;
                assert(out@[q]@.url != u@);
            }
        }
    }
    false
}

/// Extract the event links of a contest page: anchors matched by the fixed
/// grammar, kept when their href mentions an event page, absolutized against
/// the site's origin, duplicate URLs dropped, order of first appearance kept.
pub fn parse_epreuves(html: &str) -> (r: Vec<Epreuve>)
    ensures
        epreuves_view(r@) == spec_parse_epreuves(html@),
{
    let caps = anchor_captures(html);
    let n = caps.len();
    let mut out: Vec<Epreuve> = Vec::new();
    let mut i: usize = 0;
    proof {
        assert(pairs_view(caps@).subrange(0, 0) =~= Seq::<(Seq<char>, Seq<char>)>::empty());
        assert(epreuves_view(out@) =~= spec_collect(pairs_view(caps@).subrange(0, 0)));
    }
    while i < n
        invariant
            i <= n,
            n == caps.len(),
            pairs_view(caps@) == anchor_captures_of(html@),
            epreuves_view(out@) == spec_collect(pairs_view(caps@).subrange(0, i as int)),
        decreases n - i,
    {
        let ghost pre = pairs_view(caps@).subrange(0, i as int);
        let ghost cur = pairs_view(caps@).subrange(0, i + 1);
        proof {
            assert(cur.drop_last() =~= pre);
            assert(cur.last() == pairs_view(caps@)[i as int]);
        }
        let hv = str_chars(caps[i].0.as_str());
        if contains_key(&hv, "epreuve") || contains_key(&hv, "epreuves") {
            let full: String = if starts_http_exec(&hv) {
                caps[i].0.clone()
            } else {
                String::from_str("https://ffecompet.ffe.com").concat(caps[i].0.as_str())
            };
            if !url_present(&out, &full) {
                out.push(Epreuve { label: caps[i].1.clone(), url: full });
                proof {
                    assert(epreuves_view(out@) =~= spec_collect(cur));
                }
            } else {
                proof {
                    assert(epreuves_view(out@) =~= spec_collect(cur));
                }
            }
        } else {
            proof {
                assert(epreuves_view(out@) =~= spec_collect(cur));
            }
        }
        i += 1;
    }
    proof {
        assert(pairs_view(caps@).subrange(0, n as int) =~= pairs_view(caps@));
    }
    out
}

} // verus!
