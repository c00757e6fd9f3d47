//! Authentication against the history page: extracting the secure session
//! identifier from the raw cookie, sanitising the cookie for the request,
//! and building the hashed authorisation header.

use sha1::Digest;
use vstd::prelude::*;

use crate::errors::Error;
use crate::text::{
    chars_to_string, contains_seq, dec_rep, find_seq, find_seq_from, matches_at, push_char,
    str_to_chars, u64_to_string,
};

verus! {

use vstd::string::StringExecFns;

/// The position of the first place at or after `i` where the session-id
/// marker matches and is followed by at least one value character, or -1.
pub open spec fn sapisid_start_from(s: Seq<char>, i: int) -> int
    decreases s.len() - i,
{
    if i < 0 || i + 18 > s.len() {
        -1
    } else if matches_at(s, "__Secure-3PAPISID="@, i) && i + 18 < s.len() && s[i + 18] != ';' {
        i
    } else {
        sapisid_start_from(s, i + 1)
    }
}

/// The end of a cookie value starting at `j`: the first `;` at or after
/// `j`, or the end of the cookie.
pub open spec fn value_end_from(s: Seq<char>, j: int) -> int
    decreases s.len() - j,
{
    if j < 0 || j >= s.len() {
        s.len() as int
    } else if s[j] == ';' {
        j
    } else {
        value_end_from(s, j + 1)
    }
}

/// The secure session identifier carried by the cookie, if any: the
/// non-empty run of value characters after the first usable marker.
pub open spec fn spec_sapisid(s: Seq<char>) -> Option<Seq<char>> {
    let p = sapisid_start_from(s, 0);
    if p < 0 {
        None
    } else {
        Some(s.subrange(p + 18, value_end_from(s, p + 18)))
    }
}

proof fn lemma_sapisid_start_at(s: Seq<char>, start: int, p: int)
    requires
        0 <= start <= p,
        matches_at(s, "__Secure-3PAPISID="@, p) && p + 18 < s.len() && s[p + 18] != ';',
        forall|j: int|
            start <= j < p ==> !(matches_at(s, "__Secure-3PAPISID="@, j) && j + 18 < s.len()
                && s[j + 18] != ';'),
    ensures
        sapisid_start_from(s, start) == p,
    decreases p - start,
{
    reveal_strlit("__Secure-3PAPISID=");
    if start < p {
        lemma_sapisid_start_at(s, start + 1, p);
    }
}

proof fn lemma_sapisid_start_none(s: Seq<char>, start: int)
    requires
        0 <= start,
        forall|j: int|
            start <= j ==> !(matches_at(s, "__Secure-3PAPISID="@, j) && j + 18 < s.len() && s[j
                + 18] != ';'),
    ensures
        sapisid_start_from(s, start) == -1,
    decreases s.len() - start,
{
    reveal_strlit("__Secure-3PAPISID=");
    if start + 18 <= s.len() {
        lemma_sapisid_start_none(s, start + 1);
    }
}

proof fn lemma_value_end_at(s: Seq<char>, start: int, e: int)
    requires
        0 <= start <= e <= s.len(),
        forall|j: int| start <= j < e ==> s[j] != ';',
        e < s.len() ==> s[e] == ';',
    ensures
        value_end_from(s, start) == e,
    decreases e - start,
{
    if start < e {
        lemma_value_end_at(s, start + 1, e);
    }
}

/// Extracts the secure session identifier from the raw cookie: the value
/// of the first usable `__Secure-3PAPISID=` entry. A cookie without one
/// cannot authenticate, which is reported as an authentication error.
pub fn extract_sapisid(cookie: &str) -> (r: Result<String, Error>)
    ensures
        r matches Ok(v) ==> spec_sapisid(cookie@) == Some(v@),
        r is Err ==> spec_sapisid(cookie@) is None,
        r matches Err(e) ==> (e matches Error::YouTubeAuth { reason } && reason@
            == "Cookie missing __Secure-3PAPISID"@),
{
    proof {
        reveal_strlit("__Secure-3PAPISID=");
    }
    let chars = str_to_chars(cookie);
    let total = chars.len();
    let marker = str_to_chars("__Secure-3PAPISID=");
    let mut search_from: usize = 0;
    loop
        invariant
            chars@ == cookie@,
            marker@ == "__Secure-3PAPISID="@,
            total == cookie@.len(),
            search_from <= cookie@.len() + 1,
            forall|j: int|
                0 <= j < search_from ==> !(matches_at(cookie@, "__Secure-3PAPISID="@, j) && j + 18
                    < cookie@.len() && cookie@[j + 18] != ';'),
        decreases cookie@.len() + 1 - search_from,
    {
        proof {
            reveal_strlit("__Secure-3PAPISID=");
        }
        let p = match find_seq_from(chars.as_slice(), marker.as_slice(), search_from) {
            Some(p) => p,
            None => {
                proof {
                    lemma_sapisid_start_none(cookie@, 0);
                }
                return Err(
                    Error::YouTubeAuth { reason: "Cookie missing __Secure-3PAPISID".to_owned() },
                );
            },
        };
        let value_start = p + 18;
        if value_start < total && chars[value_start] != ';' {
            // The value runs to the next `;` or to the end of the cookie.
            let mut e: usize = value_start;
            while e < total && chars[e] != ';'
                invariant
                    chars@ == cookie@,
                    total == cookie@.len(),
                    value_start <= e <= total,
                    forall|j: int| value_start <= j < e ==> cookie@[j] != ';',
                decreases total - e,
            {
                e = e + 1;
            }
            proof {
                lemma_sapisid_start_at(cookie@, 0, p as int);
                lemma_value_end_at(cookie@, value_start as int, e as int);
            }
            let value = chars_to_string(
                vstd::slice::slice_subrange(chars.as_slice(), value_start, e),
            );
            return Ok(value);
        }
        search_from = p + 1;
    }
}

/// A character the sanitised cookie keeps: printable ASCII.
pub open spec fn is_printable_ascii(c: char) -> bool {
    32 <= c as u32 <= 126
}

/// Drops every character outside the printable ASCII range.
pub open spec fn keep_printable(s: Seq<char>) -> Seq<char> {
    s.filter(|c: char| is_printable_ascii(c))
}

/// Collapses every run of spaces to a single space.
pub open spec fn collapse_spaces(s: Seq<char>) -> Seq<char>
    decreases s.len(),
{
    if s.len() == 0 {
        Seq::<char>::empty()
    } else if s.last() == ' ' && s.len() >= 2 && s[s.len() - 2] == ' ' {
        collapse_spaces(s.drop_last())
    } else {
        collapse_spaces(s.drop_last()).push(s.last())
    }
}

/// How many spaces `s` starts with.
pub open spec fn lead_spaces(s: Seq<char>) -> int
    decreases s.len(),
{
    if s.len() == 0 || s[0] != ' ' {
        0
    } else {
        1 + lead_spaces(s.drop_first())
    }
}

/// How many spaces `s` ends with.
pub open spec fn trail_spaces(s: Seq<char>) -> int
    decreases s.len(),
{
    if s.len() == 0 || s.last() != ' ' {
        0
    } else {
        1 + trail_spaces(s.drop_last())
    }
}

/// Removes leading and trailing spaces.
pub open spec fn trim_spaces(s: Seq<char>) -> Seq<char> {
    if lead_spaces(s) == s.len() {
        Seq::<char>::empty()
    } else {
        s.subrange(lead_spaces(s), s.len() - trail_spaces(s))
    }
}

/// What sanitising does to a cookie: keep printable ASCII, collapse runs
/// of whitespace, trim, and make sure a consent entry is present.
pub open spec fn spec_sanitize(s: Seq<char>) -> Seq<char> {
    let t = trim_spaces(collapse_spaces(keep_printable(s)));
    if contains_seq(t, "SOCS="@) {
        t
    } else {
        t + "; SOCS=CAI"@
    }
}

proof fn lemma_lead_spaces_at(s: Seq<char>, f: int)
    requires
        0 <= f <= s.len(),
        forall|j: int| 0 <= j < f ==> s[j] == ' ',
        f < s.len() ==> s[f] != ' ',
    ensures
        lead_spaces(s) == f,
    decreases f,
{
    if f == 0 {
    } else {
        assert(s[0] == ' ');
        lemma_lead_spaces_at(s.drop_first(), f - 1);
    }
}

proof fn lemma_trail_spaces_at(s: Seq<char>, t: int)
    requires
        0 <= t <= s.len(),
        forall|j: int| s.len() - t <= j < s.len() ==> s[j] == ' ',
        t < s.len() ==> s[s.len() - t - 1] != ' ',
    ensures
        trail_spaces(s) == t,
    decreases t,
{
    if t == 0 {
    } else {
        assert(s.last() == ' ');
        lemma_trail_spaces_at(s.drop_last(), t - 1);
    }
}

/// Sanitises the raw cookie for the request: keeps printable ASCII only,
/// collapses runs of whitespace to single spaces, trims, and appends the
/// consent entry if none is present — without it the server rejects the
/// request.
pub fn sanitize_cookie(cookie: &str) -> (r: String)
    ensures
        r@ == spec_sanitize(cookie@),
{
    let chars = str_to_chars(cookie);
    let ghost s = cookie@;

    // Keep printable ASCII only.
    let mut printable: Vec<char> = Vec::new();
    let mut i: usize = 0;
    proof {
        assert(s.take(0) =~= Seq::<char>::empty());
        assert(keep_printable(s.take(0)) =~= Seq::<char>::empty()) by {
            reveal(Seq::filter);
        }
    }
    while i < chars.len()
        invariant
            chars@ == s,
            i <= s.len(),
            printable@ == keep_printable(s.take(i as int)),
        decreases s.len() - i,
    {
        let c = chars[i];
        let cv = c as u32;
        proof {
            let p = |c: char| is_printable_ascii(c);
            assert(s.take(i + 1).drop_last() =~= s.take(i as int));
            assert(s.take(i + 1).last() == s[i as int]);
            reveal(Seq::filter);
            if p(s[i as int]) {
                assert(s.take(i + 1).filter(p) =~= s.take(i as int).filter(p).push(s[i as int]));
            } else {
                assert(s.take(i + 1).filter(p) =~= s.take(i as int).filter(p));
            }
        }
        if 32 <= cv && cv <= 126 {
            printable.push(c);
        }
        i = i + 1;
    }
    proof {
        assert(s.take(s.len() as int) =~= s);
    }

    // Collapse runs of spaces to single spaces.
    let ghost ps = printable@;
    let mut collapsed: Vec<char> = Vec::new();
    let mut j: usize = 0;
    proof {
        assert(ps.take(0) =~= Seq::<char>::empty());
    }
    while j < printable.len()
        invariant
            printable@ == ps,
            j <= ps.len(),
            collapsed@ == collapse_spaces(ps.take(j as int)),
        decreases ps.len() - j,
    {
        let c = printable[j];
        proof {
            assert(ps.take(j + 1).drop_last() =~= ps.take(j as int));
            assert(ps.take(j + 1).last() == ps[j as int]);
        }
        if !(c == ' ' && j >= 1 && printable[j - 1] == ' ') {
            collapsed.push(c);
        }
        j = j + 1;
    }
    proof {
        assert(ps.take(ps.len() as int) =~= ps);
    }

    // Trim leading and trailing spaces.
    let ghost cs = collapsed@;
    let total = collapsed.len();
    let mut lead: usize = 0;
    while lead < total && collapsed[lead] == ' '
        invariant
            collapsed@ == cs,
            total == cs.len(),
            lead <= total,
            forall|m: int| 0 <= m < lead ==> cs[m] == ' ',
        decreases total - lead,
    {
        lead = lead + 1;
    }
    let trimmed: Vec<char> = if lead == total {
        proof {
            lemma_lead_spaces_at(cs, lead as int);
        }
        Vec::new()
    } else {
        let mut trail: usize = 0;
        while total - 1 - trail > lead && collapsed[total - 1 - trail] == ' '
            invariant
                collapsed@ == cs,
                total == cs.len(),
                lead < total,
                cs[lead as int] != ' ',
                trail < total - lead,
                forall|m: int| cs.len() - trail <= m < cs.len() ==> cs[m] == ' ',
            decreases total - lead - trail,
        {
            trail = trail + 1;
        }
        proof {
            lemma_lead_spaces_at(cs, lead as int);
            if cs[total - 1 - trail] == ' ' {
                assert(total - 1 - trail == lead);
                assert(false);
            }
            lemma_trail_spaces_at(cs, trail as int);
        }
        let mut part: Vec<char> = Vec::new();
        let mut m: usize = lead;
        while m < total - trail
            invariant
                collapsed@ == cs,
                total == cs.len(),
                lead <= m <= total - trail,
                trail <= total,
                part@ == cs.subrange(lead as int, m as int),
            decreases total - trail - m,
        {
            part.push(collapsed[m]);
            proof {
                assert(part@ =~= cs.subrange(lead as int, m + 1));
            }
            m = m + 1;
        }
        part
    };
    proof {
        assert(trimmed@ == trim_spaces(collapse_spaces(keep_printable(s))));
    }

    // Make sure a consent entry is present.
    let socs = str_to_chars("SOCS=");
    let mut out = chars_to_string(trimmed.as_slice());
    match find_seq(trimmed.as_slice(), socs.as_slice()) {
        Some(_) => out,
        None => {
            out.append("; SOCS=CAI");
            out
        },
    }
}

/// The forty hex digits of the SHA-1 digest of a text.
pub uninterp spec fn sha1_hex_of(input: Seq<char>) -> Seq<char>;

/// Relies on the `sha1` crate's `Digest` implementation, rendered in lower
/// hex: the digest of the input's UTF-8 bytes, a function of the input
/// alone; SHA-1 digests are twenty bytes, so forty hex digits.
#[verifier::external_body]
fn sha1_hex(input: &str) -> (r: String)
    ensures
        r@ == sha1_hex_of(input@),
        r@.len() == 40,
{
    let mut hasher = sha1::Sha1::new();
    hasher.update(input.as_bytes());
    format!("{:x}", hasher.finalize())
}

/// The text whose digest authenticates a request: timestamp, session
/// identifier, and the music origin.
pub open spec fn spec_hash_input(sapisid: Seq<char>, timestamp: nat) -> Seq<char> {
    dec_rep(timestamp) + " "@ + sapisid + " https://music.youtube.com"@
}

/// The authorisation header value for a session identifier at a moment.
pub open spec fn spec_auth_header(sapisid: Seq<char>, timestamp: nat) -> Seq<char> {
    "SAPISIDHASH "@ + dec_rep(timestamp) + "_"@ + sha1_hex_of(spec_hash_input(sapisid, timestamp))
}

/// Builds the `SAPISIDHASH` authorisation header: the timestamp and the
/// digest of timestamp, session identifier and origin.
pub fn build_auth_header(sapisid: &str, timestamp: u64) -> (r: String)
    ensures
        r@ == spec_auth_header(sapisid@, timestamp as nat),
{
    let ts = u64_to_string(timestamp);
    let mut hash_input = ts.clone();
    hash_input.append(" ");
    hash_input.append(sapisid);
    hash_input.append(" https://music.youtube.com");
    let hash = sha1_hex(hash_input.as_str());
    let mut out = "SAPISIDHASH ".to_owned();
    out.append(ts.as_str());
    out.append("_");
    out.append(hash.as_str());
    out
}

/// Judges the history page's answer: a success status (2xx) carries the
/// page; anything else means the credentials were rejected, an
/// authentication error that retrying cannot mend.
pub fn auth_outcome(status: u16) -> (r: Result<(), Error>)
    ensures
        (200 <= status < 300) <==> r is Ok,
        !(200 <= status < 300) ==> (r matches Err(Error::YouTubeAuth { reason }) && reason@
            == "HTTP "@ + dec_rep(status as nat)),
{
    if 200 <= status && status < 300 {
        Ok(())
    } else {
        let mut reason = "HTTP ".to_owned();
        let digits = u64_to_string(status as u64);
        reason.append(digits.as_str());
        Err(Error::YouTubeAuth { reason })
    }
}

} // verus!
