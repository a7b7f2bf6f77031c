//! Mail-derived URL monitor: URL extraction and scoring.
//!
//! Message bodies arrive as byte strings from a mail-reading collaborator
//! outside this crate.  `extract_urls` finds the URL-shaped substrings: a
//! `http://` or `https://` scheme, one character that is not whitespace nor
//! one of `/ $ . ? #`, one character that is not a newline, then the longest
//! run without whitespace; matches are taken leftmost and non-overlapping.
//! `scan_urls` gives each URL a placeholder heuristic score: a fixed higher
//! score when it contains "login", a fixed lower score otherwise.

use vstd::prelude::*;
use crate::text::contains_bytes;
use crate::text::contains_seq;
use crate::text::copy_bytes;
use crate::text::matches_at;

verus! {

/// Score of a URL that contains "login".
pub const LOGIN_URL_SCORE: u8 = 70;

/// Score of every other URL.
pub const PLAIN_URL_SCORE: u8 = 30;

/// ASCII whitespace, as URL extraction breaks on it.
pub open spec fn is_space(b: u8) -> bool {
    b == 32 || b == 9 || b == 10 || b == 11 || b == 12 || b == 13
}

/// The bytes of "http://".
pub open spec fn http_prefix() -> Seq<u8> {
    seq![104u8, 116u8, 116u8, 112u8, 58u8, 47u8, 47u8]
}

/// The bytes of "https://".
pub open spec fn https_prefix() -> Seq<u8> {
    seq![104u8, 116u8, 116u8, 112u8, 115u8, 58u8, 47u8, 47u8]
}

/// The bytes of "login".
pub open spec fn kw_login() -> Seq<u8> {
    seq![108u8, 111u8, 103u8, 105u8, 110u8]
}

/// The views of a sequence of byte vectors.
pub open spec fn views_of(s: Seq<Vec<u8>>) -> Seq<Seq<u8>> {
    s.map_values(|v: Vec<u8>| v@)
}

/// Scheme length of a URL starting at `i`: 8 for `https://`, 7 for
/// `http://` (a text carrying `https://` never also matches `http://`
/// there, since its fifth byte is `s`, not `:`).
pub open spec fn scheme_len_at(s: Seq<u8>, i: int) -> Option<int> {
    if i + 8 <= s.len() && s.subrange(i, i + 8) == https_prefix() {
        Some(8int)
    } else if i + 7 <= s.len() && s.subrange(i, i + 7) == http_prefix() {
        Some(7int)
    } else {
        None
    }
}

/// Bytes that may not follow the scheme: whitespace and `/ $ . ? #`.
pub open spec fn bad_first(b: u8) -> bool {
    is_space(b) || b == 47 || b == 36 || b == 46 || b == 63 || b == 35
}

/// End of the maximal whitespace-free run starting at `j`.
pub open spec fn run_end(s: Seq<u8>, j: int) -> int
    decreases s.len() - j when 0 <= j <= s.len()
{
    if j >= s.len() {
        j
    } else if is_space(s[j]) {
        j
    } else {
        run_end(s, j + 1)
    }
}

pub proof fn lemma_run_end_bounds(s: Seq<u8>, j: int)
    requires
        0 <= j <= s.len(),
    ensures
        j <= run_end(s, j) <= s.len(),
    decreases s.len() - j,
{
    if j < s.len() && !is_space(s[j]) {
        lemma_run_end_bounds(s, j + 1);
    }
}

/// End of the URL match starting exactly at `i`, if one starts there: the
/// scheme, a first character outside the excluded set, a second character
/// that is not a newline, then everything up to the next whitespace.
pub open spec fn match_end(s: Seq<u8>, i: int) -> Option<int> {
    match scheme_len_at(s, i) {
        Some(sl) => {
            let p = i + sl;
            if p + 2 <= s.len() && !bad_first(s[p]) && s[p + 1] != 10 {
                Some(run_end(s, p + 2))
            } else {
                None
            }
        },
        None => None,
    }
}

pub proof fn lemma_match_end_bounds(s: Seq<u8>, i: int)
    requires
        0 <= i <= s.len(),
        match_end(s, i) is Some,
    ensures
        i < match_end(s, i)->Some_0 <= s.len(),
{
    let sl = scheme_len_at(s, i)->Some_0;
    lemma_run_end_bounds(s, i + sl + 2);
}

/// Every URL match from position `i` on, leftmost first, non-overlapping:
/// the search resumes at the end of each match.
pub open spec fn urls_from(s: Seq<u8>, i: int) -> Seq<Seq<u8>>
    decreases s.len() - i when 0 <= i <= s.len()
    via urls_from_decreases
{
    if i >= s.len() {
        Seq::empty()
    } else {
        match match_end(s, i) {
            Some(e) => seq![s.subrange(i, e)] + urls_from(s, e),
            None => urls_from(s, i + 1),
        }
    }
}

#[via_fn]
proof fn urls_from_decreases(s: Seq<u8>, i: int) {
    if 0 <= i < s.len() && match_end(s, i) is Some {
        lemma_match_end_bounds(s, i);
    }
}

/// Every URL match in `s`.
pub open spec fn urls_of(s: Seq<u8>) -> Seq<Seq<u8>> {
    urls_from(s, 0)
}

/// Every URL match over a sequence of bodies, in order.
pub open spec fn urls_of_all(bodies: Seq<Seq<u8>>) -> Seq<Seq<u8>>
    decreases bodies.len(),
{
    if bodies.len() == 0 {
        Seq::empty()
    } else {
        urls_of_all(bodies.drop_last()) + urls_of(bodies.last())
    }
}

/// The placeholder heuristic score of one URL.
pub open spec fn url_score_spec(u: Seq<u8>) -> int {
    if contains_seq(u, kw_login()) {
        LOGIN_URL_SCORE as int
    } else {
        PLAIN_URL_SCORE as int
    }
}

/// The largest score among scored URLs (zero when there are none).
pub open spec fn max_url_score(s: Seq<(Seq<u8>, u8)>) -> int
    decreases s.len(),
{
    if s.len() == 0 {
        0
    } else {
        let m = max_url_score(s.drop_last());
        if s.last().1 > m {
            s.last().1 as int
        } else {
            m
        }
    }
}

fn http_prefix_vec() -> (r: Vec<u8>)
    ensures
        r@ == http_prefix(),
{
    let r: Vec<u8> = vec![104u8, 116u8, 116u8, 112u8, 58u8, 47u8, 47u8];
    proof {
        assert(r@ =~= http_prefix());
    }
    r
}

fn https_prefix_vec() -> (r: Vec<u8>)
    ensures
        r@ == https_prefix(),
{
    let r: Vec<u8> = vec![104u8, 116u8, 116u8, 112u8, 115u8, 58u8, 47u8, 47u8];
    proof {
        assert(r@ =~= https_prefix());
    }
    r
}

fn kw_login_vec() -> (r: Vec<u8>)
    ensures
        r@ == kw_login(),
{
    let r: Vec<u8> = vec![108u8, 111u8, 103u8, 105u8, 110u8];
    proof {
        assert(r@ =~= kw_login());
    }
    r
}

fn is_space_byte(b: u8) -> (r: bool)
    ensures
        r == is_space(b),
{
    b == 32 || b == 9 || b == 10 || b == 11 || b == 12 || b == 13
}

fn bad_first_byte(b: u8) -> (r: bool)
    ensures
        r == bad_first(b),
{
    is_space_byte(b) || b == 47 || b == 36 || b == 46 || b == 63 || b == 35
}

/// A copy of `s[from..to]`.
fn copy_range(s: &Vec<u8>, from: usize, to: usize) -> (r: Vec<u8>)
    requires
        from <= to <= s@.len(),
    ensures
        r@ == s@.subrange(from as int, to as int),
{
    let mut out: Vec<u8> = Vec::new();
    let mut i: usize = from;
    while i < to
        invariant
            from <= i <= to <= s@.len(),
            out@ == s@.subrange(from as int, i as int),
        decreases to - i,
    {
        out.push(s[i]);
        proof {
            assert(out@ =~= s@.subrange(from as int, i + 1 as int));
        }
        i = i + 1;
    }
    proof {
        assert(out@ =~= s@.subrange(from as int, to as int));
    }
    out
}

fn match_end_exec(s: &Vec<u8>, i: usize) -> (r: Option<usize>)
    requires
        i <= s@.len(),
    ensures
        match_end(s@, i as int) == match r {
            Some(e) => Some(e as int),
            None => None::<int>,
        },
        r matches Some(e) ==> i < e <= s@.len(),
{
    let s_len: usize = s.len();
    let https = https_prefix_vec();
    let http = http_prefix_vec();
    let sl: usize = if s_len - i >= 8 && matches_at(s, &https, i) {
        8
    } else if s_len - i >= 7 && matches_at(s, &http, i) {
        7
    } else {
        proof {
            if i + 8 <= s@.len() {
                assert(s@.subrange(i as int, i as int + https_prefix().len() as int)
                    == s@.subrange(i as int, i + 8));
            }
            if i + 7 <= s@.len() {
                assert(s@.subrange(i as int, i as int + http_prefix().len() as int)
                    == s@.subrange(i as int, i + 7));
            }
        }
        return None;
    };
    let p: usize = i + sl;
    if p <= s_len - 2 && !bad_first_byte(s[p]) && s[p + 1] != 10 {
        // Maximal whitespace-free run from p + 2.
        let mut k: usize = p + 2;
        while k < s_len && !is_space_byte(s[k])
            invariant
                s_len == s@.len(),
                p + 2 <= k <= s@.len(),
                run_end(s@, p + 2) == run_end(s@, k as int),
            decreases s@.len() - k,
        {
            k = k + 1;
        }
        proof {
            lemma_match_end_bounds(s@, i as int);
        }
        Some(k)
    } else {
        None
    }
}

/// All URL matches in one body, leftmost first, non-overlapping.
pub fn find_urls(body: &Vec<u8>) -> (r: Vec<Vec<u8>>)
    ensures
        views_of(r@) == urls_of(body@),
{
    let mut out: Vec<Vec<u8>> = Vec::new();
    proof {
        assert(views_of(out@) + urls_from(body@, 0) =~= urls_of(body@));
    }
    let mut i: usize = 0;
    while i < body.len()
        invariant
            i <= body@.len(),
            views_of(out@) + urls_from(body@, i as int) == urls_of(body@),
        decreases body@.len() - i,
    {
        let ghost out_before = out@;
        match match_end_exec(body, i) {
            Some(e) => {
                let piece = copy_range(body, i, e);
                out.push(piece);
                proof {
                    assert(views_of(out@) =~= views_of(out_before).push(
                        body@.subrange(i as int, e as int),
                    ));
                    assert(views_of(out@) + urls_from(body@, e as int) =~= views_of(out_before)
                        + urls_from(body@, i as int));
                }
                i = e;
            },
            None => {
                i = i + 1;
            },
        }
    }
    proof {
        assert(urls_from(body@, body@.len() as int) =~= Seq::<Seq<u8>>::empty());
        assert(views_of(out@) + urls_from(body@, body@.len() as int) =~= views_of(out@));
    }
    out
}

/// Mail-derived URL monitor: connection settings for the mail collaborator.
pub struct EmailMonitor {
    pub username: String,
    pub password: String,
    pub imap_server: String,
}

impl EmailMonitor {
    pub fn new(username: String, password: String, imap_server: String) -> (r: EmailMonitor)
        ensures
            r.username@ == username@,
            r.password@ == password@,
            r.imap_server@ == imap_server@,
    {
        EmailMonitor { username, password, imap_server }
    }

    /// Every URL-shaped substring of the given message bodies, in order.
    pub fn extract_urls(&self, emails: Vec<Vec<u8>>) -> (r: Vec<Vec<u8>>)
        ensures
            views_of(r@) == urls_of_all(views_of(emails@)),
    {
        let mut out: Vec<Vec<u8>> = Vec::new();
        proof {
            assert(views_of(out@) =~= urls_of_all(views_of(emails@.subrange(0, 0))));
        }
        let mut i: usize = 0;
        while i < emails.len()
            invariant
                i <= emails@.len(),
                views_of(out@) == urls_of_all(views_of(emails@.subrange(0, i as int))),
            decreases emails@.len() - i,
        {
            let ghost out_before = out@;
            let mut urls = find_urls(&emails[i]);
            let ghost urls_v = urls@;
            out.append(&mut urls);
            proof {
                assert(views_of(out@) =~= views_of(out_before) + views_of(urls_v));
                assert(views_of(emails@.subrange(0, i as int + 1)).drop_last() =~= views_of(
                    emails@.subrange(0, i as int),
                ));
                assert(views_of(emails@.subrange(0, i as int + 1)).last() == emails@[i as int]@);
            }
            i = i + 1;
        }
        proof {
            assert(emails@.subrange(0, emails@.len() as int) =~= emails@);
        }
        out
    }

    /// Score each URL: `LOGIN_URL_SCORE` when it contains "login",
    /// `PLAIN_URL_SCORE` otherwise.
    pub fn scan_urls(&self, urls: Vec<Vec<u8>>) -> (r: Vec<(Vec<u8>, u8)>)
        ensures
            r@.len() == urls@.len(),
            forall|k: int| 0 <= k < urls@.len() ==> (#[trigger] r@[k]).0@ == urls@[k]@,
            forall|k: int| 0 <= k < urls@.len() ==> (#[trigger] r@[k]).1 == url_score_spec(
                urls@[k]@,
            ),
    {
        let login = kw_login_vec();
        let mut out: Vec<(Vec<u8>, u8)> = Vec::new();
        let mut i: usize = 0;
        while i < urls.len()
            invariant
                i <= urls@.len(),
                out@.len() == i,
                login@ == kw_login(),
                forall|k: int| 0 <= k < i ==> (#[trigger] out@[k]).0@ == urls@[k]@,
                forall|k: int| 0 <= k < i ==> (#[trigger] out@[k]).1 == url_score_spec(
                    urls@[k]@,
                ),
            decreases urls@.len() - i,
        {
            let u = &urls[i];
            let score: u8 = if contains_bytes(u, &login) {
                LOGIN_URL_SCORE
            } else {
                PLAIN_URL_SCORE
            };
            out.push((copy_bytes(u), score));
            i = i + 1;
        }
        out
    }
}

/// The 1-based sequence number of the first message to fetch so that the
/// most recent `limit` messages (or all of them, if fewer) are covered.
pub fn fetch_range_start(total_messages: u32, limit: u32) -> (r: u32)
    requires
        limit >= 1,
    ensures
        r == if total_messages > limit {
            total_messages - limit + 1
        } else {
            1
        },
{
    if total_messages > limit {
        total_messages - limit + 1
    } else {
        1
    }
}

} // verus!
