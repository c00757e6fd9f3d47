//! Small text building blocks shared across the crate: decimal rendering of
//! integers, conversions between `String` and `Vec<char>`, and substring
//! search over character slices.

use vstd::prelude::*;

verus! {

use vstd::std_specs::iter::IteratorSpec;
use vstd::string::StringExecFns;

/// The digit character for a value below ten.
pub open spec fn digit_char(d: nat) -> char {
    if d == 0 {
        '0'
    } else if d == 1 {
        '1'
    } else if d == 2 {
        '2'
    } else if d == 3 {
        '3'
    } else if d == 4 {
        '4'
    } else if d == 5 {
        '5'
    } else if d == 6 {
        '6'
    } else if d == 7 {
        '7'
    } else if d == 8 {
        '8'
    } else {
        '9'
    }
}

/// The usual decimal rendering of `n`, most significant digit first, with no
/// leading zeros (except for `n == 0` itself).
pub open spec fn dec_rep(n: nat) -> Seq<char>
    decreases n,
{
    if n < 10 {
        seq![digit_char(n)]
    } else {
        dec_rep(n / 10) + seq![digit_char(n % 10)]
    }
}

fn digit_str(d: u64) -> (r: &'static str)
    requires
        d < 10,
    ensures
        r@ == seq![digit_char(d as nat)],
{
    proof {
        reveal_strlit("0");
        reveal_strlit("1");
        reveal_strlit("2");
        reveal_strlit("3");
        reveal_strlit("4");
        reveal_strlit("5");
        reveal_strlit("6");
        reveal_strlit("7");
        reveal_strlit("8");
        reveal_strlit("9");
    }
    match d {
        0 => "0",
        1 => "1",
        2 => "2",
        3 => "3",
        4 => "4",
        5 => "5",
        6 => "6",
        7 => "7",
        8 => "8",
        _ => "9",
    }
}

/// Renders `n` in decimal.
pub fn u64_to_string(n: u64) -> (r: String)
    ensures
        r@ == dec_rep(n as nat),
    decreases n,
{
    if n < 10 {
        digit_str(n).to_owned()
    } else {
        let mut prefix = u64_to_string(n / 10);
        prefix.append(digit_str(n % 10));
        prefix
    }
}

/// Relies on `String::push`: appends one character to the end of the string.
#[verifier::external_body]
pub(crate) fn push_char(s: &mut String, c: char)
    ensures
        final(s)@ == old(s)@ + seq![c],
{
    s.push(c);
}

/// The characters of `s`, as an indexable vector.
pub fn str_to_chars(s: &str) -> (r: Vec<char>)
    ensures
        r@ == s@,
{
    broadcast use vstd::string::group_string_axioms;

    let mut out: Vec<char> = Vec::new();
    let mut it = s.chars();
    loop
        invariant
            it.obeys_prophetic_iter_laws(),
            it.decrease() is Some,
            out@ + it.remaining() == s@,
        decreases it.decrease()->0,
    {
        match it.next() {
            Some(c) => {
                out.push(c);
            },
            None => {
                proof {
                    assert(out@ =~= s@);
                }
                return out;
            },
        }
    }
}

/// The string holding exactly the characters of `cs`.
pub fn chars_to_string(cs: &[char]) -> (r: String)
    ensures
        r@ == cs@,
{
    let mut out = String::new();
    let mut i: usize = 0;
    while i < cs.len()
        invariant
            i <= cs@.len(),
            out@ == cs@.take(i as int),
        decreases cs@.len() - i,
    {
        push_char(&mut out, cs[i]);
        proof {
            assert(out@ =~= cs@.take(i as int + 1));
        }
        i = i + 1;
    }
    proof {
        assert(out@ =~= cs@);
    }
    out
}

/// Whether `c` is a decimal digit.
pub open spec fn is_dec_digit(c: char) -> bool {
    48 <= c as u32 <= 57
}

/// The value of a decimal digit character.
pub open spec fn digit_value(c: char) -> int {
    c as u32 - 48
}

/// `s` is one or more decimal digits and nothing else.
pub open spec fn all_digits(s: Seq<char>) -> bool {
    s.len() > 0 && forall|i: int| 0 <= i < s.len() ==> is_dec_digit(#[trigger] s[i])
}

/// The number the digit string `s` denotes.
pub open spec fn dec_value(s: Seq<char>) -> int
    decreases s.len(),
{
    if s.len() == 0 {
        0
    } else {
        dec_value(s.drop_last()) * 10 + digit_value(s.last())
    }
}

/// What parsing an unsigned decimal accepts: an optional leading `+`, then
/// digits only, denoting a value that fits.
pub open spec fn spec_parse_u64(s: Seq<char>) -> Option<u64> {
    let body = if s.len() > 0 && s[0] == '+' {
        s.drop_first()
    } else {
        s
    };
    if all_digits(body) && dec_value(body) <= u64::MAX {
        Some(dec_value(body) as u64)
    } else {
        None
    }
}

proof fn lemma_dec_value_take_step(s: Seq<char>, j: int)
    requires
        0 <= j < s.len(),
    ensures
        dec_value(s.take(j + 1)) == dec_value(s.take(j)) * 10 + digit_value(s[j]),
{
    assert(s.take(j + 1).drop_last() =~= s.take(j));
    assert(s.take(j + 1).last() == s[j]);
}

proof fn lemma_dec_value_nonneg(s: Seq<char>)
    requires
        forall|i: int| 0 <= i < s.len() ==> is_dec_digit(#[trigger] s[i]),
    ensures
        dec_value(s) >= 0,
    decreases s.len(),
{
    if s.len() > 0 {
        assert(s.drop_last() =~= s.take(s.len() - 1));
        lemma_dec_value_nonneg(s.drop_last());
    }
}

proof fn lemma_dec_value_prefix_le(s: Seq<char>, j: int)
    requires
        0 <= j <= s.len(),
        forall|i: int| 0 <= i < s.len() ==> is_dec_digit(#[trigger] s[i]),
    ensures
        dec_value(s.take(j)) <= dec_value(s),
    decreases s.len() - j,
{
    if j == s.len() {
        assert(s.take(j) =~= s);
    } else {
        lemma_dec_value_take_step(s, j);
        assert(forall|i: int| 0 <= i < j ==> is_dec_digit(#[trigger] s.take(j)[i]));
        lemma_dec_value_nonneg(s.take(j));
        lemma_dec_value_prefix_le(s, j + 1);
    }
}

/// Parses an unsigned decimal as the standard library's integer parsing
/// does: an optional leading `+`, then one or more digits, rejecting
/// anything else and values that do not fit.
pub fn parse_u64(s: &str) -> (r: Option<u64>)
    ensures
        r == spec_parse_u64(s@),
{
    let chars = str_to_chars(s);
    let start: usize = if chars.len() > 0 && chars[0] == '+' {
        1
    } else {
        0
    };
    let ghost body = if s@.len() > 0 && s@[0] == '+' {
        s@.drop_first()
    } else {
        s@
    };
    proof {
        assert(body =~= s@.skip(start as int));
    }
    if start >= chars.len() {
        return None;
    }
    let mut acc: u64 = 0;
    let mut i: usize = start;
    proof {
        assert(body.take(0) =~= Seq::<char>::empty());
    }
    while i < chars.len()
        invariant
            chars@ == s@,
            body == s@.skip(start as int),
            body == (if s@.len() > 0 && s@[0] == '+' {
                s@.drop_first()
            } else {
                s@
            }),
            start == (if s@.len() > 0 && s@[0] == '+' {
                1int
            } else {
                0int
            }),
            start <= i <= s@.len(),
            acc == dec_value(body.take(i - start)),
            forall|m: int| 0 <= m < i - start ==> is_dec_digit(#[trigger] body[m]),
        decreases s@.len() - i,
    {
        let c = chars[i];
        let cv = c as u32;
        proof {
            assert(body[i - start] == s@[i as int]);
        }
        if cv < 48 || cv > 57 {
            proof {
                assert(!is_dec_digit(body[i - start]));
                assert(!all_digits(body));
            }
            return None;
        }
        let d: u64 = (cv - 48) as u64;
        let ghost j = i - start;
        proof {
            lemma_dec_value_take_step(body, j);
        }
        let shifted = match acc.checked_mul(10) {
            Some(v) => v,
            None => {
                proof {
                    if all_digits(body) {
                        lemma_dec_value_prefix_le(body, j + 1);
                        lemma_dec_value_nonneg(body.take(j));
                        assert(dec_value(body) > u64::MAX);
                    }
                }
                return None;
            },
        };
        let widened = match shifted.checked_add(d) {
            Some(v) => v,
            None => {
                proof {
                    if all_digits(body) {
                        lemma_dec_value_prefix_le(body, j + 1);
                        assert(dec_value(body) > u64::MAX);
                    }
                }
                return None;
            },
        };
        acc = widened;
        i = i + 1;
    }
    proof {
        assert(body.take(s@.len() - start) =~= body);
        assert(all_digits(body));
        lemma_dec_value_nonneg(body);
    }
    Some(acc)
}

/// Whether a character counts as whitespace, in the Unicode sense.
pub uninterp spec fn is_space_char(c: char) -> bool;

/// Relies on `char::is_whitespace`: whether the character has the Unicode
/// `White_Space` property, a function of the character alone.
#[verifier::external_body]
fn char_is_whitespace(c: char) -> (r: bool)
    ensures
        r == is_space_char(c),
{
    c.is_whitespace()
}

/// `s` holds nothing but whitespace (an empty `s` is blank).
pub open spec fn is_blank(s: Seq<char>) -> bool {
    forall|i: int| 0 <= i < s.len() ==> is_space_char(#[trigger] s[i])
}

/// Whether the string trims down to nothing.
pub fn str_is_blank(s: &str) -> (r: bool)
    ensures
        r == is_blank(s@),
{
    let chars = str_to_chars(s);
    let mut i: usize = 0;
    while i < chars.len()
        invariant
            chars@ == s@,
            i <= s@.len(),
            forall|m: int| 0 <= m < i ==> is_space_char(#[trigger] s@[m]),
        decreases s@.len() - i,
    {
        if !char_is_whitespace(chars[i]) {
            return false;
        }
        i = i + 1;
    }
    true
}

/// `needle` occurs in `haystack` starting at position `i`.
pub open spec fn matches_at(haystack: Seq<char>, needle: Seq<char>, i: int) -> bool {
    &&& 0 <= i
    &&& i + needle.len() <= haystack.len()
    &&& haystack.subrange(i, i + needle.len()) == needle
}

/// `needle` occurs somewhere in `haystack`.
pub open spec fn contains_seq(haystack: Seq<char>, needle: Seq<char>) -> bool {
    exists|i: int| matches_at(haystack, needle, i)
}

fn check_match_at(haystack: &[char], needle: &[char], i: usize) -> (r: bool)
    requires
        i + needle@.len() <= haystack@.len(),
    ensures
        r == matches_at(haystack@, needle@, i as int),
{
    let hay_len: usize = haystack.len();
    let mut j: usize = 0;
    while j < needle.len()
        invariant
            j <= needle@.len(),
            hay_len == haystack@.len(),
            i + needle@.len() <= haystack@.len(),
            forall|k: int| 0 <= k < j ==> haystack@[i + k] == needle@[k],
        decreases needle@.len() - j,
    {
        if haystack[i + j] != needle[j] {
            proof {
                let hs = haystack@.subrange(i as int, i + needle@.len());
                assert(hs[j as int] != needle@[j as int]);
            }
            return false;
        }
        j = j + 1;
    }
    proof {
        assert(haystack@.subrange(i as int, i + needle@.len()) =~= needle@);
    }
    true
}

/// The position of the first occurrence of `needle` in `haystack`, if any.
pub fn find_seq(haystack: &[char], needle: &[char]) -> (r: Option<usize>)
    ensures
        match r {
            Some(i) => matches_at(haystack@, needle@, i as int) && forall|j: int|
                0 <= j < i ==> !matches_at(haystack@, needle@, j),
            None => !contains_seq(haystack@, needle@),
        },
{
    if needle.len() > haystack.len() {
        return None;
    }
    let last_start: usize = haystack.len() - needle.len();
    let mut i: usize = 0;
    loop
        invariant
            needle@.len() <= haystack@.len(),
            last_start == haystack@.len() - needle@.len(),
            i <= last_start,
            forall|j: int| 0 <= j < i ==> !matches_at(haystack@, needle@, j),
        decreases last_start - i,
    {
        if check_match_at(haystack, needle, i) {
            return Some(i);
        }
        if i == last_start {
            return None;
        }
        i = i + 1;
    }
}

/// The position of the first occurrence of `needle` in `haystack` at or
/// after position `from`, if any.
pub fn find_seq_from(haystack: &[char], needle: &[char], from: usize) -> (r: Option<usize>)
    ensures
        match r {
            Some(i) => from <= i && matches_at(haystack@, needle@, i as int) && forall|j: int|
                from <= j < i ==> !matches_at(haystack@, needle@, j),
            None => forall|j: int| from <= j ==> !matches_at(haystack@, needle@, j),
        },
{
    if needle.len() > haystack.len() {
        return None;
    }
    let last_start: usize = haystack.len() - needle.len();
    if from > last_start {
        return None;
    }
    let mut i: usize = from;
    loop
        invariant
            needle@.len() <= haystack@.len(),
            last_start == haystack@.len() - needle@.len(),
            from <= i <= last_start,
            forall|j: int| from <= j < i ==> !matches_at(haystack@, needle@, j),
        decreases last_start - i,
    {
        if check_match_at(haystack, needle, i) {
            return Some(i);
        }
        if i == last_start {
            return None;
        }
        i = i + 1;
    }
}

/// The position of the last occurrence of `needle` in `haystack`, if any.
pub fn rfind_seq(haystack: &[char], needle: &[char]) -> (r: Option<usize>)
    ensures
        match r {
            Some(i) => matches_at(haystack@, needle@, i as int) && forall|j: int|
                i < j ==> !matches_at(haystack@, needle@, j),
            None => !contains_seq(haystack@, needle@),
        },
{
    if needle.len() > haystack.len() {
        return None;
    }
    let last_start: usize = haystack.len() - needle.len();
    let mut i: usize = last_start;
    loop
        invariant
            needle@.len() <= haystack@.len(),
            last_start == haystack@.len() - needle@.len(),
            i <= last_start,
            forall|j: int| i < j ==> !matches_at(haystack@, needle@, j),
        decreases i + 1,
    {
        if check_match_at(haystack, needle, i) {
            return Some(i);
        }
        if i == 0 {
            return None;
        }
        i = i - 1;
    }
}

/// The position of the first occurrence of `needle` in `haystack` at or
/// after `i`, or -1.
pub open spec fn spec_find_from(h: Seq<char>, n: Seq<char>, i: int) -> int
    decreases h.len() - i,
{
    if i < 0 || i + n.len() > h.len() {
        -1
    } else if n.len() == 0 {
        i
    } else if matches_at(h, n, i) {
        i
    } else {
        spec_find_from(h, n, i + 1)
    }
}

/// Establishes `spec_find_from` from a found first match.
pub proof fn lemma_spec_find_found(h: Seq<char>, n: Seq<char>, start: int, p: int)
    requires
        0 <= start <= p,
        n.len() > 0,
        matches_at(h, n, p),
        forall|j: int| start <= j < p ==> !matches_at(h, n, j),
    ensures
        spec_find_from(h, n, start) == p,
    decreases p - start,
{
    if start < p {
        assert(!matches_at(h, n, start));
        lemma_spec_find_found(h, n, start + 1, p);
    }
}

/// Establishes `spec_find_from` from an exhausted search.
pub proof fn lemma_spec_find_none(h: Seq<char>, n: Seq<char>, start: int)
    requires
        0 <= start,
        n.len() > 0,
        forall|j: int| start <= j ==> !matches_at(h, n, j),
    ensures
        spec_find_from(h, n, start) == -1,
    decreases h.len() - start,
{
    if start + n.len() <= h.len() {
        assert(!matches_at(h, n, start));
        lemma_spec_find_none(h, n, start + 1);
    }
}

/// The position of the last occurrence of `needle` in `haystack` at or
/// before `i`, or -1.
pub open spec fn spec_rfind_upto(h: Seq<char>, n: Seq<char>, i: int) -> int
    decreases i + 1,
{
    if i < 0 {
        -1
    } else if i + n.len() <= h.len() && matches_at(h, n, i) {
        i
    } else {
        spec_rfind_upto(h, n, i - 1)
    }
}

/// The position of the last occurrence of `needle` in `haystack`, or -1.
pub open spec fn spec_rfind(h: Seq<char>, n: Seq<char>) -> int {
    spec_rfind_upto(h, n, h.len() - n.len())
}

/// Establishes `spec_rfind_upto` from a found last match.
pub proof fn lemma_spec_rfind_found(h: Seq<char>, n: Seq<char>, start: int, p: int)
    requires
        p <= start,
        matches_at(h, n, p),
        forall|j: int| p < j <= start ==> !matches_at(h, n, j),
    ensures
        spec_rfind_upto(h, n, start) == p,
    decreases start - p,
{
    if p < start {
        assert(!matches_at(h, n, start));
        lemma_spec_rfind_found(h, n, start - 1, p);
    }
}

/// Establishes `spec_rfind_upto` from an exhausted search.
pub proof fn lemma_spec_rfind_none(h: Seq<char>, n: Seq<char>, start: int)
    requires
        forall|j: int| j <= start ==> !matches_at(h, n, j),
    ensures
        spec_rfind_upto(h, n, start) == -1,
    decreases start + 1,
{
    if start >= 0 {
        assert(!matches_at(h, n, start));
        lemma_spec_rfind_none(h, n, start - 1);
    }
}

/// Whether two strings hold the same characters.
pub fn str_eq(a: &str, b: &str) -> (r: bool)
    ensures
        r == (a@ == b@),
{
    let ac = str_to_chars(a);
    let bc = str_to_chars(b);
    if ac.len() != bc.len() {
        return false;
    }
    let mut i: usize = 0;
    while i < ac.len()
        invariant
            ac@ == a@,
            bc@ == b@,
            a@.len() == b@.len(),
            i <= a@.len(),
            forall|m: int| 0 <= m < i ==> a@[m] == b@[m],
        decreases a@.len() - i,
    {
        if ac[i] != bc[i] {
            return false;
        }
        i = i + 1;
    }
    proof {
        assert(a@ =~= b@);
    }
    true
}

/// `s` with every (non-overlapping, left to right) occurrence of the pair
/// `c1 c2` replaced by the single character `rep`.
pub open spec fn spec_replace_two(s: Seq<char>, c1: char, c2: char, rep: char) -> Seq<char>
    decreases s.len(),
{
    if s.len() == 0 {
        Seq::<char>::empty()
    } else if s.len() >= 2 && s[0] == c1 && s[1] == c2 {
        seq![rep] + spec_replace_two(s.skip(2), c1, c2, rep)
    } else {
        seq![s[0]] + spec_replace_two(s.skip(1), c1, c2, rep)
    }
}

/// Replaces every occurrence of the pair `c1 c2` with `rep`, scanning left
/// to right without overlap.
pub fn replace_two(s: &[char], c1: char, c2: char, rep: char) -> (r: Vec<char>)
    ensures
        r@ == spec_replace_two(s@, c1, c2, rep),
{
    let mut out: Vec<char> = Vec::new();
    let mut i: usize = 0;
    proof {
        assert(s@.skip(0) =~= s@);
    }
    while i < s.len()
        invariant
            i <= s@.len(),
            spec_replace_two(s@, c1, c2, rep) == out@ + spec_replace_two(
                s@.skip(i as int),
                c1,
                c2,
                rep,
            ),
        decreases s@.len() - i,
    {
        proof {
            assert(s@.skip(i as int)[0] == s@[i as int]);
            if i + 1 < s@.len() {
                assert(s@.skip(i as int)[1] == s@[i + 1]);
            }
            assert(s@.skip(i as int).skip(1) =~= s@.skip(i + 1));
            if i + 2 <= s@.len() {
                assert(s@.skip(i as int).skip(2) =~= s@.skip(i + 2));
            }
        }
        if i + 1 < s.len() && s[i] == c1 && s[i + 1] == c2 {
            out.push(rep);
            i = i + 2;
        } else {
            out.push(s[i]);
            i = i + 1;
        }
    }
    proof {
        assert(s@.skip(s@.len() as int) =~= Seq::<char>::empty());
        assert(out@ =~= out@ + spec_replace_two(s@.skip(s@.len() as int), c1, c2, rep));
    }
    out
}

/// The position of the last occurrence of the character `c` strictly
/// before position `end`, or -1.
pub open spec fn spec_rfind_char_before(h: Seq<char>, c: char, end: int) -> int
    decreases end,
{
    if end <= 0 || end > h.len() {
        -1
    } else if h[end - 1] == c {
        end - 1
    } else {
        spec_rfind_char_before(h, c, end - 1)
    }
}

/// Establishes `spec_rfind_char_before` from a found last occurrence.
pub proof fn lemma_rfind_char_found(h: Seq<char>, c: char, end: int, p: int)
    requires
        0 <= p < end <= h.len(),
        h[p] == c,
        forall|j: int| p < j < end ==> h[j] != c,
    ensures
        spec_rfind_char_before(h, c, end) == p,
    decreases end - p,
{
    if p < end - 1 {
        lemma_rfind_char_found(h, c, end - 1, p);
    }
}

/// Establishes `spec_rfind_char_before` from an exhausted search.
pub proof fn lemma_rfind_char_none(h: Seq<char>, c: char, end: int)
    requires
        end <= h.len(),
        forall|j: int| 0 <= j < end ==> h[j] != c,
    ensures
        spec_rfind_char_before(h, c, end) == -1,
    decreases end,
{
    if end > 0 {
        lemma_rfind_char_none(h, c, end - 1);
    }
}

/// The position of the last occurrence of the character `c` strictly before
/// position `end`, if any.
pub fn rfind_char_before(haystack: &[char], c: char, end: usize) -> (r: Option<usize>)
    requires
        end <= haystack@.len(),
    ensures
        match r {
            Some(i) => i < end && haystack@[i as int] == c && forall|j: int|
                i < j < end ==> haystack@[j] != c,
            None => forall|j: int| 0 <= j < end ==> haystack@[j] != c,
        },
{
    let mut i: usize = end;
    while i > 0
        invariant
            i <= end <= haystack@.len(),
            forall|j: int| i <= j < end ==> haystack@[j] != c,
        decreases i,
    {
        i = i - 1;
        if haystack[i] == c {
            return Some(i);
        }
    }
    None
}

} // verus!
