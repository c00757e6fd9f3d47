//! Scraping the history page: isolating the embedded data object with a
//! string-aware balanced-brace scanner, decoding its escapes, walking the
//! recovered tree, and resolving shelf labels to calendar dates.
//!
//! Every fallible stage yields a distinct, named failure; nothing here
//! panics on malformed input.

use vstd::prelude::*;

use crate::errors::Error;
use crate::model::{Scrobble, Track};
use crate::providers::within_days;
use crate::text::{
    chars_to_string, contains_seq, dec_rep, digit_value, find_seq, is_dec_digit,
    lemma_rfind_char_found, lemma_rfind_char_none, lemma_spec_find_found, lemma_spec_find_none,
    lemma_spec_rfind_found, lemma_spec_rfind_none, replace_two, rfind_char_before, rfind_seq,
    spec_find_from, spec_replace_two, spec_rfind, spec_rfind_char_before, str_eq, str_to_chars,
    u64_to_string,
};

use super::dates::{
    date_valid, days_in_month, midday_timestamp, prev_day, spec_days_in_month,
    spec_midday_timestamp, spec_prev_day, CivilDate,
};

verus! {

use vstd::string::StringExecFns;

/// Where the embedded data ends: the scanner runs from `i` with the given
/// nesting depth and string state, and stops at the closing brace that
/// returns the depth to zero — brace characters inside quoted strings,
/// and escaped characters, never affect the depth. -1 when the text ends
/// first.
pub open spec fn spec_scan_end(
    h: Seq<char>,
    i: int,
    depth: int,
    in_string: bool,
    escaped: bool,
) -> int
    decreases h.len() - i,
{
    if i < 0 || i >= h.len() {
        -1
    } else {
        let c = h[i];
        if in_string {
            if escaped {
                spec_scan_end(h, i + 1, depth, true, false)
            } else if c == '\\' {
                spec_scan_end(h, i + 1, depth, true, true)
            } else if c == '"' {
                spec_scan_end(h, i + 1, depth, false, false)
            } else {
                spec_scan_end(h, i + 1, depth, true, false)
            }
        } else {
            if c == '"' {
                spec_scan_end(h, i + 1, depth, true, false)
            } else if c == '{' {
                spec_scan_end(h, i + 1, depth + 1, false, false)
            } else if c == '}' {
                if depth == 1 {
                    i
                } else {
                    spec_scan_end(h, i + 1, depth - 1, false, false)
                }
            } else {
                spec_scan_end(h, i + 1, depth, false, false)
            }
        }
    }
}

/// The position of the brace that closes the object starting at `start`,
/// or -1.
pub open spec fn spec_balanced_end(h: Seq<char>, start: int) -> int {
    spec_scan_end(h, start, 0, false, false)
}

/// Isolates a balanced object literal: from `start`, characters are
/// scanned with a nesting depth and a string-literal state (brace
/// characters inside quoted strings, respecting backslash escapes, do not
/// affect the depth) until the depth returns to zero. `None` when the text
/// ends first.
pub fn extract_balanced_json(html: &str, start: usize) -> (r: Option<String>)
    ensures
        spec_balanced_end(html@, start as int) >= 0 ==> (r matches Some(v) && v@
            == html@.subrange(start as int, spec_balanced_end(html@, start as int) + 1)),
        spec_balanced_end(html@, start as int) < 0 ==> r is None,
{
    let chars = str_to_chars(html);
    let length = chars.len();
    let mut index = start;
    let mut depth: i128 = 0;
    let mut in_string: bool = false;
    let mut escape: bool = false;
    while index < length
        invariant
            chars@ == html@,
            length == html@.len(),
            start <= index,
            index <= length || index == start,
            -(index as int) <= depth <= index as int,
            !in_string ==> !escape,
            spec_balanced_end(html@, start as int) == spec_scan_end(
                html@,
                index as int,
                depth as int,
                in_string,
                escape,
            ),
        decreases length - index,
    {
        let ghost pre_i = index as int;
        let ghost pre_depth = depth as int;
        let ghost pre_in = in_string;
        let ghost pre_esc = escape;
        let character = chars[index];
        if in_string {
            if escape {
                escape = false;
            } else if character == '\\' {
                escape = true;
            } else if character == '"' {
                in_string = false;
            }
        } else {
            if character == '"' {
                in_string = true;
            } else if character == '{' {
                depth = depth + 1;
            } else if character == '}' {
                if depth == 1 {
                    let piece = vstd::slice::slice_subrange(chars.as_slice(), start, index + 1);
                    return Some(chars_to_string(piece));
                }
                depth = depth - 1;
            }
        }
        index = index + 1;
        proof {
            assert(spec_scan_end(html@, pre_i, pre_depth, pre_in, pre_esc) == spec_scan_end(
                html@,
                index as int,
                depth as int,
                in_string,
                escape,
            ));
        }
    }
    None
}

/// Whether `c` is a hexadecimal digit.
pub open spec fn is_hex_digit(c: char) -> bool {
    (48 <= c as u32 <= 57) || (97 <= c as u32 <= 102) || (65 <= c as u32 <= 70)
}

/// The value of a hexadecimal digit.
pub open spec fn hex_value(c: char) -> int {
    if 48 <= c as u32 <= 57 {
        c as u32 - 48
    } else if 97 <= c as u32 <= 102 {
        c as u32 - 87
    } else {
        c as u32 - 55
    }
}

fn hex_digit_value(c: char) -> (r: Option<u8>)
    ensures
        r matches Some(v) ==> is_hex_digit(c) && v == hex_value(c),
        r is None ==> !is_hex_digit(c),
{
    let cv = c as u32;
    if 48 <= cv && cv <= 57 {
        Some((cv - 48) as u8)
    } else if 97 <= cv && cv <= 102 {
        Some((cv - 87) as u8)
    } else if 65 <= cv && cv <= 70 {
        Some((cv - 55) as u8)
    } else {
        None
    }
}

/// What decoding the `\xHH` escapes yields: each such four-character
/// escape becomes the character with that code; everything else is kept.
pub open spec fn spec_decode_entities(s: Seq<char>) -> Seq<char>
    decreases s.len(),
{
    if s.len() == 0 {
        Seq::<char>::empty()
    } else if s.len() > 3 && s[0] == '\\' && s[1] == 'x' && is_hex_digit(s[2]) && is_hex_digit(
        s[3],
    ) {
        seq![((hex_value(s[2]) * 16 + hex_value(s[3])) as u8) as char] + spec_decode_entities(
            s.skip(4),
        )
    } else {
        seq![s[0]] + spec_decode_entities(s.skip(1))
    }
}

/// Decodes the `\xHH` hex-escape sequences of the embedded object text.
pub fn decode_html_entities(input: &str) -> (r: String)
    ensures
        r@ == spec_decode_entities(input@),
{
    let chars = str_to_chars(input);
    let mut out: Vec<char> = Vec::new();
    let mut i: usize = 0;
    proof {
        assert(input@.skip(0) =~= input@);
    }
    while i < chars.len()
        invariant
            chars@ == input@,
            i <= input@.len(),
            spec_decode_entities(input@) == out@ + spec_decode_entities(input@.skip(i as int)),
        decreases input@.len() - i,
    {
        let ghost s = input@;
        proof {
            assert(s.skip(i as int)[0] == s[i as int]);
            if i + 3 < s.len() {
                assert(s.skip(i as int)[1] == s[i + 1]);
                assert(s.skip(i as int)[2] == s[i + 2]);
                assert(s.skip(i as int)[3] == s[i + 3]);
            }
            assert(s.skip(i as int).skip(1) =~= s.skip(i + 1));
            if i + 4 <= s.len() {
                assert(s.skip(i as int).skip(4) =~= s.skip(i + 4));
            }
        }
        if chars[i] == '\\' && chars.len() - i > 3 && chars[i + 1] == 'x' {
            let h1 = hex_digit_value(chars[i + 2]);
            let h2 = hex_digit_value(chars[i + 3]);
            match (h1, h2) {
                (Some(a), Some(b)) => {
                    let byte_val: u8 = a * 16 + b;
                    out.push(byte_val as char);
                    i = i + 4;
                },
                _ => {
                    out.push(chars[i]);
                    i = i + 1;
                },
            }
        } else {
            out.push(chars[i]);
            i = i + 1;
        }
    }
    proof {
        assert(input@.skip(input@.len() as int) =~= Seq::<char>::empty());
        assert(out@ =~= out@ + spec_decode_entities(input@.skip(input@.len() as int)));
    }
    chars_to_string(out.as_slice())
}

/// The raw JSON recovered from the `data:` field: the quote and backslash
/// escapes undone, quotes first.
pub open spec fn spec_unescape(raw: Seq<char>) -> Seq<char> {
    spec_replace_two(spec_replace_two(raw, '\\', '\'', '\''), '\\', '\\', '\\')
}

/// What isolating the embedded data yields, stage by stage: the marker is
/// located; the last opening brace before it starts the object; the
/// balanced scan closes it; its hex escapes are decoded; the `data:` field
/// and its closing quote delimit the raw JSON, whose escapes are undone.
/// Any stage failing yields nothing.
pub open spec fn spec_extract_data(html: Seq<char>) -> Option<Seq<char>> {
    let mpos = spec_find_from(
        html,
        "});ytcfg.set({'YTMUSIC_INITIAL_DATA': initialData});"@,
        0,
    );
    if mpos < 0 {
        None
    } else {
        let bpos = spec_rfind_char_before(html, '{', mpos);
        if bpos < 0 {
            None
        } else {
            let end = spec_balanced_end(html, bpos);
            if end < 0 {
                None
            } else {
                let decoded = spec_decode_entities(html.subrange(bpos, end + 1));
                let dpos = spec_find_from(decoded, ", data: '"@, 0);
                if dpos < 0 {
                    None
                } else {
                    let rest = decoded.skip(dpos + 9);
                    let cpos = spec_rfind(rest, "'}"@);
                    if cpos < 0 {
                        None
                    } else {
                        Some(spec_unescape(rest.take(cpos)))
                    }
                }
            }
        }
    }
}

fn structure_failure() -> (r: Error)
    ensures
        r matches Error::YouTubeScraping { detail } && detail@
            == "Expected structure not found in JSON"@,
{
    Error::YouTubeScraping { detail: "Expected structure not found in JSON".to_owned() }
}

fn scraping_failure() -> (r: Error)
    ensures
        r matches Error::YouTubeScraping { detail } && detail@
            == "No YouTube Music data found in HTML"@,
{
    Error::YouTubeScraping { detail: "No YouTube Music data found in HTML".to_owned() }
}

/// Locates the embedded data object in the page and recovers the raw JSON
/// of its `data:` field. A page in which any structural expectation fails
/// yields a scraping error, never a panic or an empty success.
fn extract_json_from_html(html: &str) -> (r: Result<String, Error>)
    ensures
        r matches Ok(v) ==> spec_extract_data(html@) == Some(v@),
        r is Err <==> spec_extract_data(html@) is None,
        r matches Err(e) ==> (e matches Error::YouTubeScraping { detail } && detail@
            == "No YouTube Music data found in HTML"@),
{
    proof {
        reveal_strlit("});ytcfg.set({'YTMUSIC_INITIAL_DATA': initialData});");
        reveal_strlit(", data: '");
        reveal_strlit("'}");
    }
    let chars = str_to_chars(html);
    let marker = str_to_chars("});ytcfg.set({'YTMUSIC_INITIAL_DATA': initialData});");
    let mpos = match find_seq(chars.as_slice(), marker.as_slice()) {
        Some(p) => {
            proof {
                lemma_spec_find_found(
                    html@,
                    "});ytcfg.set({'YTMUSIC_INITIAL_DATA': initialData});"@,
                    0,
                    p as int,
                );
            }
            p
        },
        None => {
            proof {
                lemma_spec_find_none(
                    html@,
                    "});ytcfg.set({'YTMUSIC_INITIAL_DATA': initialData});"@,
                    0,
                );
            }
            return Err(scraping_failure());
        },
    };
    let bpos = match rfind_char_before(chars.as_slice(), '{', mpos) {
        Some(b) => {
            proof {
                lemma_rfind_char_found(html@, '{', mpos as int, b as int);
            }
            b
        },
        None => {
            proof {
                lemma_rfind_char_none(html@, '{', mpos as int);
            }
            return Err(scraping_failure());
        },
    };
    let object_text = match extract_balanced_json(html, bpos) {
        Some(o) => o,
        None => {
            return Err(scraping_failure());
        },
    };
    let decoded = decode_html_entities(object_text.as_str());
    let dchars = str_to_chars(decoded.as_str());
    let dlen = dchars.len();
    let data_marker = str_to_chars(", data: '");
    let dpos = match find_seq(dchars.as_slice(), data_marker.as_slice()) {
        Some(p) => {
            proof {
                lemma_spec_find_found(decoded@, ", data: '"@, 0, p as int);
            }
            p
        },
        None => {
            proof {
                lemma_spec_find_none(decoded@, ", data: '"@, 0);
            }
            return Err(scraping_failure());
        },
    };
    let json_start = dpos + 9;
    let rest = vstd::slice::slice_subrange(dchars.as_slice(), json_start, dlen);
    proof {
        assert(rest@ =~= decoded@.skip(json_start as int));
    }
    let closing = str_to_chars("'}");
    let cpos = match rfind_seq(rest, closing.as_slice()) {
        Some(c) => {
            proof {
                lemma_spec_rfind_found(rest@, "'}"@, rest@.len() - 2, c as int);
            }
            c
        },
        None => {
            proof {
                lemma_spec_rfind_none(rest@, "'}"@, rest@.len() - 2);
            }
            return Err(scraping_failure());
        },
    };
    let raw = vstd::slice::slice_subrange(rest, 0, cpos);
    proof {
        assert(raw@ =~= decoded@.skip(json_start as int).take(cpos as int));
    }
    let unquoted = replace_two(raw, '\\', '\'', '\'');
    let unescaped = replace_two(unquoted.as_slice(), '\\', '\\', '\\');
    Ok(chars_to_string(unescaped.as_slice()))
}

/// The recovered tree, as plain data the walk can be verified over.
/// Number values are never read by the walk and are not kept.
#[derive(Debug)]
pub enum Json {
    Null,
    Bool(bool),
    Number,
    Text(String),
    Arr(Vec<Json>),
    Obj(Vec<(String, Json)>),
}

/// Relies on `serde_json::Value` being a plain parsed tree; declared so
/// the conversion's signature can carry it. Nothing is assumed of it.
#[verifier::external_type_specification]
#[verifier::external_body]
pub struct ExValue(serde_json::Value);

/// The tree a text denotes as JSON, if it is JSON.
pub uninterp spec fn spec_parsed_json(s: Seq<char>) -> Option<Json>;

/// Relies on `serde_json::from_str::<Value>`: whether a text parses as
/// JSON, and the tree it denotes, depend on the text alone. An error
/// carries `serde_json`'s own message, of which nothing is stated.
#[verifier::external_body]
fn parse_json(s: &str) -> (r: Result<Json, String>)
    ensures
        r matches Ok(j) ==> spec_parsed_json(s@) == Some(j),
        r is Err <==> spec_parsed_json(s@) is None,
{
    match serde_json::from_str::<serde_json::Value>(s) {
        Ok(v) => Ok(convert_json(&v)),
        Err(e) => Err(e.to_string()),
    }
}

/// Relies on `serde_json::Value`'s shape: carries each parsed node over
/// into the crate's own tree, one variant for one, moving only what the
/// walk reads.
#[verifier::external_body]
fn convert_json(v: &serde_json::Value) -> Json {
    match v {
        serde_json::Value::Null => Json::Null,
        serde_json::Value::Bool(b) => Json::Bool(*b),
        serde_json::Value::Number(_) => Json::Number,
        serde_json::Value::String(s) => Json::Text(s.clone()),
        serde_json::Value::Array(a) => Json::Arr(a.iter().map(convert_json).collect()),
        serde_json::Value::Object(m) => Json::Obj(
            m.iter().map(|(k, x)| (k.clone(), convert_json(x))).collect(),
        ),
    }
}

/// The value under `key` in an object's entries, first match.
pub open spec fn spec_lookup(entries: Seq<(String, Json)>, key: Seq<char>) -> Option<Json>
    decreases entries.len(),
{
    if entries.len() == 0 {
        None
    } else if entries[0].0@ == key {
        Some(entries[0].1)
    } else {
        spec_lookup(entries.drop_first(), key)
    }
}

/// The member of an object under `key`, if the node is an object that has
/// it.
pub open spec fn spec_get(j: Json, key: Seq<char>) -> Option<Json> {
    match j {
        Json::Obj(entries) => spec_lookup(entries@, key),
        _ => None,
    }
}

/// The element of an array at `i`, if the node is an array that long.
pub open spec fn spec_at(j: Json, i: int) -> Option<Json> {
    match j {
        Json::Arr(items) => if 0 <= i < items@.len() {
            Some(items@[i])
        } else {
            None
        },
        _ => None,
    }
}

/// The characters of a text node.
pub open spec fn spec_text(j: Json) -> Option<Seq<char>> {
    match j {
        Json::Text(s) => Some(s@),
        _ => None,
    }
}

/// The elements of an array node.
pub open spec fn spec_arr(j: Json) -> Option<Seq<Json>> {
    match j {
        Json::Arr(items) => Some(items@),
        _ => None,
    }
}

impl Json {
    /// The member under `key`, if this node is an object that has it.
    pub fn get<'a>(&'a self, key: &str) -> (r: Option<&'a Json>)
        ensures
            r matches Some(v) ==> spec_get(*self, key@) == Some(*v),
            r is None ==> spec_get(*self, key@) is None,
    {
        match self {
            Json::Obj(entries) => {
                let ghost all = entries@;
                let mut i: usize = 0;
                proof {
                    assert(all.skip(0) =~= all);
                }
                while i < entries.len()
                    invariant
                        entries@ == all,
                        i <= all.len(),
                        spec_get(*self, key@) == spec_lookup(all, key@),
                        spec_lookup(all, key@) == spec_lookup(all.skip(i as int), key@),
                    decreases all.len() - i,
                {
                    proof {
                        assert(all.skip(i as int)[0] == all[i as int]);
                        assert(all.skip(i as int).drop_first() =~= all.skip(i + 1));
                    }
                    if str_eq(entries[i].0.as_str(), key) {
                        proof {
                            assert(spec_lookup(all.skip(i as int), key@) == Some(all[i as int].1));
                        }
                        return Some(&entries[i].1);
                    }
                    i = i + 1;
                }
                proof {
                    assert(all.skip(all.len() as int) =~= Seq::<(String, Json)>::empty());
                }
                None
            },
            _ => None,
        }
    }

    /// The element at `i`, if this node is an array that long.
    pub fn at(&self, i: usize) -> (r: Option<&Json>)
        ensures
            r matches Some(v) ==> spec_at(*self, i as int) == Some(*v),
            r is None ==> spec_at(*self, i as int) is None,
    {
        match self {
            Json::Arr(items) => {
                if i < items.len() {
                    Some(&items[i])
                } else {
                    None
                }
            },
            _ => None,
        }
    }

    /// The text of this node, if it is a text node.
    pub fn as_text(&self) -> (r: Option<&String>)
        ensures
            r matches Some(v) ==> spec_text(*self) == Some(v@),
            r is None ==> spec_text(*self) is None,
    {
        match self {
            Json::Text(s) => Some(s),
            _ => None,
        }
    }

    /// The elements of this node, if it is an array.
    pub fn as_items(&self) -> (r: Option<&Vec<Json>>)
        ensures
            r matches Some(v) ==> spec_arr(*self) == Some(v@),
            r is None ==> spec_arr(*self) is None,
    {
        match self {
            Json::Arr(items) => Some(items),
            _ => None,
        }
    }
}

/// The shelf list of the page: the fixed path page, tab, section list.
pub open spec fn spec_shelves(root: Json) -> Option<Seq<Json>> {
    match spec_get(root, "contents"@) {
        None => None,
        Some(a) => match spec_get(a, "singleColumnBrowseResultsRenderer"@) {
            None => None,
            Some(b) => match spec_get(b, "tabs"@) {
                None => None,
                Some(c) => match spec_at(c, 0) {
                    None => None,
                    Some(d) => match spec_get(d, "tabRenderer"@) {
                        None => None,
                        Some(e) => match spec_get(e, "content"@) {
                            None => None,
                            Some(f) => match spec_get(f, "sectionListRenderer"@) {
                                None => None,
                                Some(g) => match spec_get(g, "contents"@) {
                                    None => None,
                                    Some(h) => spec_arr(h),
                                },
                            },
                        },
                    },
                },
            },
        },
    }
}

/// Walks the fixed path from the page root to its shelf list; a missing or
/// mistyped path is a structural scraping error.
pub fn navigate_to_shelves<'a>(json: &'a Json) -> (r: Result<&'a Vec<Json>, Error>)
    ensures
        r matches Ok(v) ==> spec_shelves(*json) == Some(v@),
        r is Err <==> spec_shelves(*json) is None,
        r matches Err(e) ==> (e matches Error::YouTubeScraping { detail } && detail@
            == "Expected structure not found in JSON"@),
{
    let a = match json.get("contents") {
        Some(v) => v,
        None => {
            return Err(structure_failure());
        },
    };
    let b = match a.get("singleColumnBrowseResultsRenderer") {
        Some(v) => v,
        None => {
            return Err(structure_failure());
        },
    };
    let c = match b.get("tabs") {
        Some(v) => v,
        None => {
            return Err(structure_failure());
        },
    };
    let d = match c.at(0) {
        Some(v) => v,
        None => {
            return Err(structure_failure());
        },
    };
    let e = match d.get("tabRenderer") {
        Some(v) => v,
        None => {
            return Err(structure_failure());
        },
    };
    let f = match e.get("content") {
        Some(v) => v,
        None => {
            return Err(structure_failure());
        },
    };
    let g = match f.get("sectionListRenderer") {
        Some(v) => v,
        None => {
            return Err(structure_failure());
        },
    };
    let h = match g.get("contents") {
        Some(v) => v,
        None => {
            return Err(structure_failure());
        },
    };
    match h.as_items() {
        Some(v) => Ok(v),
        None => Err(structure_failure()),
    }
}

/// The Unicode lowercase mapping of a text.
pub uninterp spec fn lower_of(s: Seq<char>) -> Seq<char>;

/// Relies on `str::to_lowercase`: the Unicode lowercase mapping, a
/// function of the characters alone.
#[verifier::external_body]
fn lowercase(s: &str) -> (r: String)
    ensures
        r@ == lower_of(s@),
{
    s.to_lowercase()
}

/// Whether the text contains the marker.
fn text_contains(haystack: &[char], needle: &str) -> (r: bool)
    ensures
        r == contains_seq(haystack@, needle@),
{
    let needle_chars = str_to_chars(needle);
    match find_seq(haystack, needle_chars.as_slice()) {
        Some(p) => {
            proof {
                assert(crate::text::matches_at(haystack@, needle@, p as int));
            }
            true
        },
        None => false,
    }
}

/// A number rendered with at least two digits.
pub open spec fn pad2(n: nat) -> Seq<char> {
    if n < 10 {
        "0"@ + dec_rep(n)
    } else {
        dec_rep(n)
    }
}

/// A number rendered with at least four digits.
pub open spec fn pad4(n: nat) -> Seq<char> {
    if n < 10 {
        "000"@ + dec_rep(n)
    } else if n < 100 {
        "00"@ + dec_rep(n)
    } else if n < 1000 {
        "0"@ + dec_rep(n)
    } else {
        dec_rep(n)
    }
}

/// A date rendered as `YYYY-MM-DD`.
pub open spec fn spec_date_text(d: CivilDate) -> Seq<char> {
    pad4(d.year as nat) + "-"@ + pad2(d.month as nat) + "-"@ + pad2(d.day as nat)
}

/// Renders a date as `YYYY-MM-DD`.
fn format_civil_date(d: CivilDate) -> (r: String)
    requires
        date_valid(d),
    ensures
        r@ == spec_date_text(d),
{
    let mut out = String::new();
    if d.year < 10 {
        out.append("000");
    } else if d.year < 100 {
        out.append("00");
    } else if d.year < 1000 {
        out.append("0");
    }
    let year_digits = u64_to_string(d.year as u64);
    out.append(year_digits.as_str());
    out.append("-");
    if d.month < 10 {
        out.append("0");
    }
    let month_digits = u64_to_string(d.month as u64);
    out.append(month_digits.as_str());
    out.append("-");
    if d.day < 10 {
        out.append("0");
    }
    let day_digits = u64_to_string(d.day as u64);
    out.append(day_digits.as_str());
    proof {
        assert(out@ =~= spec_date_text(d));
    }
    out
}

/// What a shelf label resolves to: a "today" keyword in any recognised
/// locale gives the current date, a "yesterday" keyword the prior one, and
/// anything else is kept as it stands, to be read as an explicit date.
pub open spec fn spec_resolve_shelf_date(label: Seq<char>, today: CivilDate) -> Seq<char> {
    let low = lower_of(label);
    if contains_seq(low, "today"@) || contains_seq(low, "hoy"@) || contains_seq(low, "hoje"@)
        || contains_seq(low, "oggi"@) || contains_seq(low, "aujourd'hui"@) {
        spec_date_text(today)
    } else if contains_seq(low, "yesterday"@) || contains_seq(low, "ayer"@) || contains_seq(
        low,
        "ontem"@,
    ) || contains_seq(low, "ieri"@) || contains_seq(low, "hier"@) {
        spec_date_text(spec_prev_day(today))
    } else {
        label
    }
}

/// Resolves a shelf label against the local calendar date: recognised
/// "today" and "yesterday" keywords (in several locales) become explicit
/// dates; any other label is returned as it stands.
pub fn resolve_shelf_date(label: &str, today: CivilDate) -> (r: String)
    requires
        date_valid(today),
        today.year >= 1,
    ensures
        r@ == spec_resolve_shelf_date(label@, today),
{
    let lowered = lowercase(label);
    let low_chars = str_to_chars(lowered.as_str());
    let lc = low_chars.as_slice();
    if text_contains(lc, "today") || text_contains(lc, "hoy") || text_contains(lc, "hoje")
        || text_contains(lc, "oggi") || text_contains(lc, "aujourd'hui") {
        format_civil_date(today)
    } else if text_contains(lc, "yesterday") || text_contains(lc, "ayer") || text_contains(
        lc,
        "ontem",
    ) || text_contains(lc, "ieri") || text_contains(lc, "hier") {
        format_civil_date(prev_day(today))
    } else {
        label.to_owned()
    }
}

/// The calendar date an explicit `YYYY-MM-DD` label denotes, if it is one.
pub open spec fn spec_date_of_label(s: Seq<char>) -> Option<CivilDate> {
    if s.len() == 10 && s[4] == '-' && s[7] == '-' && is_dec_digit(s[0]) && is_dec_digit(s[1])
        && is_dec_digit(s[2]) && is_dec_digit(s[3]) && is_dec_digit(s[5]) && is_dec_digit(s[6])
        && is_dec_digit(s[8]) && is_dec_digit(s[9]) {
        let y = digit_value(s[0]) * 1000 + digit_value(s[1]) * 100 + digit_value(s[2]) * 10
            + digit_value(s[3]);
        let m = digit_value(s[5]) * 10 + digit_value(s[6]);
        let d = digit_value(s[8]) * 10 + digit_value(s[9]);
        if 1 <= m <= 12 && 1 <= d <= spec_days_in_month(y, m) {
            Some(CivilDate { year: y as i64, month: m as u8, day: d as u8 })
        } else {
            None
        }
    } else {
        None
    }
}

/// The timestamp a shelf-date text denotes: an explicit `YYYY-MM-DD` is
/// anchored at midday UTC; a recognised "last week" phrase falls back to
/// four days before `now`; anything else resolves to nothing, silently
/// excluding the shelf's items.
pub open spec fn spec_parse_shelf_date(s: Seq<char>, now: int) -> Option<int> {
    match spec_date_of_label(s) {
        Some(d) => Some(spec_midday_timestamp(d)),
        None => {
            let low = lower_of(s);
            if contains_seq(low, "last week"@) || contains_seq(low, "última semana"@)
                || contains_seq(low, "semana passada"@) {
                Some(now - 345600)
            } else {
                None
            }
        },
    }
}

/// Reads a shelf-date text: an explicit `YYYY-MM-DD` date, anchored at
/// midday UTC, or a recognised "last week" phrase, four days before `now`.
pub fn parse_shelf_date(shelf_date: &str, now: i64) -> (r: Option<i64>)
    requires
        now >= i64::MIN + 345600,
    ensures
        r matches Some(v) ==> spec_parse_shelf_date(shelf_date@, now as int) == Some(v as int),
        r is None ==> spec_parse_shelf_date(shelf_date@, now as int) is None,
{
    let chars = str_to_chars(shelf_date);
    if chars.len() == 10 && chars[4] == '-' && chars[7] == '-' {
        let c0 = chars[0] as u32;
        let c1 = chars[1] as u32;
        let c2 = chars[2] as u32;
        let c3 = chars[3] as u32;
        let c5 = chars[5] as u32;
        let c6 = chars[6] as u32;
        let c8 = chars[8] as u32;
        let c9 = chars[9] as u32;
        let all_digits_there = 48 <= c0 && c0 <= 57 && 48 <= c1 && c1 <= 57 && 48 <= c2 && c2 <= 57
            && 48 <= c3 && c3 <= 57 && 48 <= c5 && c5 <= 57 && 48 <= c6 && c6 <= 57 && 48 <= c8
            && c8 <= 57 && 48 <= c9 && c9 <= 57;
        if all_digits_there {
            let y: i64 = (chars[0] as u32 - 48) as i64 * 1000 + (chars[1] as u32 - 48) as i64 * 100
                + (chars[2] as u32 - 48) as i64 * 10 + (chars[3] as u32 - 48) as i64;
            let m: u8 = ((chars[5] as u32 - 48) * 10 + (chars[6] as u32 - 48)) as u8;
            let d: u8 = ((chars[8] as u32 - 48) * 10 + (chars[9] as u32 - 48)) as u8;
            if 1 <= m && m <= 12 && 1 <= d && d <= days_in_month(y, m) {
                let date = CivilDate { year: y, month: m, day: d };
                proof {
                    assert(spec_date_of_label(shelf_date@) == Some(date));
                }
                return Some(midday_timestamp(date));
            }
        }
    }
    proof {
        assert(spec_date_of_label(shelf_date@) is None);
    }
    let lowered = lowercase(shelf_date);
    let low_chars = str_to_chars(lowered.as_str());
    let lc = low_chars.as_slice();
    if text_contains(lc, "last week") || text_contains(lc, "última semana") || text_contains(
        lc,
        "semana passada",
    ) {
        Some(now - 345600)
    } else {
        None
    }
}

/// A history item in the making: raw extraction decoupled from the
/// canonical play-event shape.
#[derive(Debug)]
pub struct HistoryItem {
    pub title: String,
    pub artist: String,
    pub played_at: i64,
}

/// The mathematical content of a history item.
pub open spec fn hview(h: HistoryItem) -> (Seq<char>, Seq<char>, int) {
    (h.title@, h.artist@, h.played_at as int)
}

/// The mathematical content of a history-item sequence.
pub open spec fn views_of(items: Seq<HistoryItem>) -> Seq<(Seq<char>, Seq<char>, int)> {
    items.map_values(|h: HistoryItem| hview(h))
}

/// The view of an optional owned text.
pub open spec fn opt_view(o: Option<String>) -> Option<Seq<char>> {
    match o {
        Some(s) => Some(s@),
        None => None,
    }
}

/// The `text` member of a run, when it is a text node.
pub open spec fn spec_text_field(j: Json) -> Option<Seq<char>> {
    match spec_get(j, "text"@) {
        Some(t) => spec_text(t),
        None => None,
    }
}

/// The page type a run's browse endpoint points at, if any.
pub open spec fn spec_page_type(ep: Json) -> Option<Seq<char>> {
    match spec_get(ep, "browseEndpoint"@) {
        Some(b) => match spec_get(b, "browseEndpointContextSupportedConfigs"@) {
            Some(c) => match spec_get(c, "browseEndpointContextMusicConfig"@) {
                Some(m) => match spec_get(m, "pageType"@) {
                    Some(p) => spec_text(p),
                    None => None,
                },
                None => None,
            },
            None => None,
        },
        None => None,
    }
}

/// What one text run does to the (title, artist) pair being collected: a
/// run whose navigation target is a watch action sets the title; one whose
/// target is an artist page sets the artist; anything else changes
/// nothing.
pub open spec fn spec_run_step(
    st: (Option<Seq<char>>, Option<Seq<char>>),
    run: Json,
) -> (Option<Seq<char>>, Option<Seq<char>>) {
    match spec_get(run, "navigationEndpoint"@) {
        Some(ep) => {
            if spec_get(ep, "watchEndpoint"@) is Some {
                (spec_text_field(run), st.1)
            } else if spec_page_type(ep) == Some("MUSIC_PAGE_TYPE_ARTIST"@) {
                (st.0, spec_text_field(run))
            } else {
                st
            }
        },
        None => st,
    }
}

/// The (title, artist) pair after all runs, in order.
pub open spec fn spec_scan_runs(
    runs: Seq<Json>,
    st: (Option<Seq<char>>, Option<Seq<char>>),
) -> (Option<Seq<char>>, Option<Seq<char>>)
    decreases runs.len(),
{
    if runs.len() == 0 {
        st
    } else {
        spec_scan_runs(runs.drop_first(), spec_run_step(st, runs[0]))
    }
}

/// The text runs of one flexible column, if the column has the expected
/// shape.
pub open spec fn spec_runs_of_column(col: Json) -> Option<Seq<Json>> {
    match spec_get(col, "musicResponsiveListItemFlexColumnRenderer"@) {
        Some(r) => match spec_get(r, "text"@) {
            Some(t) => match spec_get(t, "runs"@) {
                Some(rs) => spec_arr(rs),
                None => None,
            },
            None => None,
        },
        None => None,
    }
}

/// The (title, artist) pair after all columns; a column without the
/// expected shape aborts the whole item.
pub open spec fn spec_scan_columns(
    cols: Seq<Json>,
    st: (Option<Seq<char>>, Option<Seq<char>>),
) -> Option<(Option<Seq<char>>, Option<Seq<char>>)>
    decreases cols.len(),
{
    if cols.len() == 0 {
        Some(st)
    } else {
        match spec_runs_of_column(cols[0]) {
            None => None,
            Some(rs) => spec_scan_columns(cols.drop_first(), spec_scan_runs(rs, st)),
        }
    }
}

/// The collected (title, artist) pair of a list item, scanned across its
/// flexible columns.
pub open spec fn spec_item_fields(item: Json) -> Option<
    (Option<Seq<char>>, Option<Seq<char>>),
> {
    match spec_get(item, "flexColumns"@) {
        Some(fc) => match spec_arr(fc) {
            Some(cols) => spec_scan_columns(
                cols,
                (Option::<Seq<char>>::None, Option::<Seq<char>>::None),
            ),
            None => None,
        },
        None => None,
    }
}

/// What a list item yields under a shelf date: its title (mandatory), its
/// artist (a fixed sentinel when absent), and the resolved timestamp.
pub open spec fn spec_item_views(item: Json, shelf_date: Seq<char>, now: int) -> Option<
    (Seq<char>, Seq<char>, int),
> {
    match spec_item_fields(item) {
        None => None,
        Some(st) => match spec_parse_shelf_date(shelf_date, now) {
            None => None,
            Some(ts) => match st.0 {
                None => None,
                Some(title) => Some(
                    (
                        title,
                        match st.1 {
                            Some(a) => a,
                            None => "Unknown Artist"@,
                        },
                        ts,
                    ),
                ),
            },
        },
    }
}

fn get_text_field(run: &Json) -> (r: Option<String>)
    ensures
        opt_view(r) == spec_text_field(*run),
{
    match run.get("text") {
        Some(t) => match t.as_text() {
            Some(s) => Some(s.clone()),
            None => None,
        },
        None => None,
    }
}

fn page_type_is_artist(endpoint: &Json) -> (r: bool)
    ensures
        r == (spec_page_type(*endpoint) == Some("MUSIC_PAGE_TYPE_ARTIST"@)),
{
    match endpoint.get("browseEndpoint") {
        Some(b) => match b.get("browseEndpointContextSupportedConfigs") {
            Some(c) => match c.get("browseEndpointContextMusicConfig") {
                Some(m) => match m.get("pageType") {
                    Some(p) => match p.as_text() {
                        Some(s) => str_eq(s.as_str(), "MUSIC_PAGE_TYPE_ARTIST"),
                        None => false,
                    },
                    None => false,
                },
                None => false,
            },
            None => false,
        },
        None => false,
    }
}

/// Scans a list item's flexible columns for its two role-tagged text runs
/// and resolves the shelf date: an item missing a title is dropped; a
/// missing artist falls back to a sentinel; a shelf date that resolves to
/// nothing silently excludes the item.
pub fn parse_list_item(list_item: &Json, shelf_date: &str, now: i64) -> (r: Option<HistoryItem>)
    requires
        now >= i64::MIN + 345600,
    ensures
        r matches Some(h) ==> spec_item_views(*list_item, shelf_date@, now as int) == Some(
            hview(h),
        ),
        r is None ==> spec_item_views(*list_item, shelf_date@, now as int) is None,
{
    let fc = match list_item.get("flexColumns") {
        Some(f) => f,
        None => {
            return None;
        },
    };
    let cols = match fc.as_items() {
        Some(c) => c,
        None => {
            return None;
        },
    };
    let mut title: Option<String> = None;
    let mut artist: Option<String> = None;
    let ghost allc = cols@;
    let ghost init = (Option::<Seq<char>>::None, Option::<Seq<char>>::None);
    let mut ci: usize = 0;
    proof {
        assert(allc.skip(0) =~= allc);
    }
    while ci < cols.len()
        invariant
            cols@ == allc,
            ci <= allc.len(),
            init == (Option::<Seq<char>>::None, Option::<Seq<char>>::None),
            spec_item_fields(*list_item) == spec_scan_columns(allc, init),
            spec_scan_columns(allc, init) == spec_scan_columns(
                allc.skip(ci as int),
                (opt_view(title), opt_view(artist)),
            ),
        decreases allc.len() - ci,
    {
        proof {
            assert(allc.skip(ci as int)[0] == allc[ci as int]);
            assert(allc.skip(ci as int).drop_first() =~= allc.skip(ci + 1));
        }
        let col = &cols[ci];
        let renderer = match col.get("musicResponsiveListItemFlexColumnRenderer") {
            Some(v) => v,
            None => {
                return None;
            },
        };
        let text_node = match renderer.get("text") {
            Some(v) => v,
            None => {
                return None;
            },
        };
        let runs = match text_node.get("runs") {
            Some(v) => v,
            None => {
                return None;
            },
        };
        let run_items = match runs.as_items() {
            Some(v) => v,
            None => {
                return None;
            },
        };
        let ghost allr = run_items@;
        let ghost st_entry = (opt_view(title), opt_view(artist));
        let mut rj: usize = 0;
        proof {
            assert(allr.skip(0) =~= allr);
        }
        while rj < run_items.len()
            invariant
                run_items@ == allr,
                rj <= allr.len(),
                spec_scan_runs(allr, st_entry) == spec_scan_runs(
                    allr.skip(rj as int),
                    (opt_view(title), opt_view(artist)),
                ),
            decreases allr.len() - rj,
        {
            proof {
                assert(allr.skip(rj as int)[0] == allr[rj as int]);
                assert(allr.skip(rj as int).drop_first() =~= allr.skip(rj + 1));
            }
            let ghost pre_st = (opt_view(title), opt_view(artist));
            let run = &run_items[rj];
            match run.get("navigationEndpoint") {
                Some(endpoint) => {
                    match endpoint.get("watchEndpoint") {
                        Some(_) => {
                            title = get_text_field(run);
                        },
                        None => {
                            if page_type_is_artist(endpoint) {
                                artist = get_text_field(run);
                            }
                        },
                    }
                },
                None => {},
            }
            proof {
                assert((opt_view(title), opt_view(artist)) == spec_run_step(
                    pre_st,
                    allr[rj as int],
                ));
            }
            rj = rj + 1;
        }
        proof {
            assert(allr.skip(allr.len() as int) =~= Seq::<Json>::empty());
        }
        ci = ci + 1;
    }
    proof {
        assert(allc.skip(allc.len() as int) =~= Seq::<Json>::empty());
        assert(spec_item_fields(*list_item) == Some((opt_view(title), opt_view(artist))));
    }
    let timestamp = match parse_shelf_date(shelf_date, now) {
        Some(t) => t,
        None => {
            return None;
        },
    };
    match title {
        Some(t) => Some(
            HistoryItem {
                title: t,
                artist: match artist {
                    Some(a) => a,
                    None => "Unknown Artist".to_owned(),
                },
                played_at: timestamp,
            },
        ),
        None => None,
    }
}

/// The heading text of a shelf, a fixed fallback when it has none.
pub open spec fn spec_label_of(renderer: Json) -> Seq<char> {
    match spec_get(renderer, "title"@) {
        Some(t) => match spec_get(t, "runs"@) {
            Some(rs) => match spec_at(rs, 0) {
                Some(r0) => match spec_get(r0, "text"@) {
                    Some(tx) => match spec_text(tx) {
                        Some(s) => s,
                        None => "Unknown"@,
                    },
                    None => "Unknown"@,
                },
                None => "Unknown"@,
            },
            None => "Unknown"@,
        },
        None => "Unknown"@,
    }
}

fn shelf_label(renderer: &Json) -> (r: String)
    ensures
        r@ == spec_label_of(*renderer),
{
    match renderer.get("title") {
        Some(t) => match t.get("runs") {
            Some(rs) => match rs.at(0) {
                Some(r0) => match r0.get("text") {
                    Some(tx) => match tx.as_text() {
                        Some(s) => s.clone(),
                        None => "Unknown".to_owned(),
                    },
                    None => "Unknown".to_owned(),
                },
                None => "Unknown".to_owned(),
            },
            None => "Unknown".to_owned(),
        },
        None => "Unknown".to_owned(),
    }
}

/// What a shelf's line items yield under a shelf date, in order.
pub open spec fn spec_items_views(items: Seq<Json>, date_text: Seq<char>, now: int) -> Seq<
    (Seq<char>, Seq<char>, int),
>
    decreases items.len(),
{
    if items.len() == 0 {
        Seq::<(Seq<char>, Seq<char>, int)>::empty()
    } else {
        spec_items_views(items.drop_last(), date_text, now) + (match spec_get(
            items.last(),
            "musicResponsiveListItemRenderer"@,
        ) {
            Some(li) => match spec_item_views(li, date_text, now) {
                Some(v) => seq![v],
                None => Seq::<(Seq<char>, Seq<char>, int)>::empty(),
            },
            None => Seq::<(Seq<char>, Seq<char>, int)>::empty(),
        })
    }
}

/// What one shelf yields: its label resolved to a date text, and its line
/// items scanned under it. A shelf without the expected shape yields
/// nothing.
pub open spec fn spec_shelf_views(shelf: Json, today: CivilDate, now: int) -> Seq<
    (Seq<char>, Seq<char>, int),
> {
    match spec_get(shelf, "musicShelfRenderer"@) {
        None => Seq::<(Seq<char>, Seq<char>, int)>::empty(),
        Some(renderer) => {
            let date_text = spec_resolve_shelf_date(spec_label_of(renderer), today);
            match spec_get(renderer, "contents"@) {
                None => Seq::<(Seq<char>, Seq<char>, int)>::empty(),
                Some(c) => match spec_arr(c) {
                    None => Seq::<(Seq<char>, Seq<char>, int)>::empty(),
                    Some(items) => spec_items_views(items, date_text, now),
                },
            }
        },
    }
}

/// What all shelves yield, in order.
pub open spec fn spec_all_views(shelves: Seq<Json>, today: CivilDate, now: int) -> Seq<
    (Seq<char>, Seq<char>, int),
>
    decreases shelves.len(),
{
    if shelves.len() == 0 {
        Seq::<(Seq<char>, Seq<char>, int)>::empty()
    } else {
        spec_all_views(shelves.drop_last(), today, now) + spec_shelf_views(
            shelves.last(),
            today,
            now,
        )
    }
}

/// Walks every shelf: resolves its label to a date, scans its line items,
/// and collects the history items they yield.
pub fn extract_items_from_shelves(shelves: &Vec<Json>, today: CivilDate, now: i64) -> (r: Vec<
    HistoryItem,
>)
    requires
        date_valid(today),
        today.year >= 1,
        now >= i64::MIN + 345600,
    ensures
        views_of(r@) == spec_all_views(shelves@, today, now as int),
{
    let ghost alls = shelves@;
    let mut out: Vec<HistoryItem> = Vec::new();
    let mut si: usize = 0;
    proof {
        assert(alls.take(0) =~= Seq::<Json>::empty());
        assert(views_of(out@) =~= spec_all_views(
            alls.take(0),
            today,
            now as int,
        ));
    }
    while si < shelves.len()
        invariant
            shelves@ == alls,
            si <= alls.len(),
            date_valid(today),
            today.year >= 1,
            now >= i64::MIN + 345600,
            views_of(out@) == spec_all_views(alls.take(si as int), today, now as int),
        decreases alls.len() - si,
    {
        proof {
            assert(alls.take(si + 1).drop_last() =~= alls.take(si as int));
            assert(alls.take(si + 1).last() == alls[si as int]);
        }
        let shelf = &shelves[si];
        match shelf.get("musicShelfRenderer") {
            Some(renderer) => {
                let label = shelf_label(renderer);
                let shelf_date = resolve_shelf_date(label.as_str(), today);
                match renderer.get("contents") {
                    Some(c) => {
                        match c.as_items() {
                            Some(items) => {
                                let ghost alli = items@;
                                let mut ii: usize = 0;
                                proof {
                                    assert(alli.take(0) =~= Seq::<Json>::empty());
                                    assert(spec_items_views(
                                        alli.take(0),
                                        shelf_date@,
                                        now as int,
                                    ) =~= Seq::<(Seq<char>, Seq<char>, int)>::empty());
                                }
                                while ii < items.len()
                                    invariant
                                        items@ == alli,
                                        ii <= alli.len(),
                                        now >= i64::MIN + 345600,
                                        views_of(out@) == spec_all_views(
                                            alls.take(si as int),
                                            today,
                                            now as int,
                                        ) + spec_items_views(
                                            alli.take(ii as int),
                                            shelf_date@,
                                            now as int,
                                        ),
                                    decreases alli.len() - ii,
                                {
                                    proof {
                                        assert(alli.take(ii + 1).drop_last() =~= alli.take(
                                            ii as int,
                                        ));
                                        assert(alli.take(ii + 1).last() == alli[ii as int]);
                                    }
                                    let item = &items[ii];
                                    match item.get("musicResponsiveListItemRenderer") {
                                        Some(list_item) => {
                                            match parse_list_item(
                                                list_item,
                                                shelf_date.as_str(),
                                                now,
                                            ) {
                                                Some(history_item) => {
                                                    let ghost hv = hview(history_item);
                                                    proof {
                                                        assert(spec_get(
                                                            alli[ii as int],
                                                            "musicResponsiveListItemRenderer"@,
                                                        ) == Some(*list_item));
                                                        assert(spec_item_views(
                                                            *list_item,
                                                            shelf_date@,
                                                            now as int,
                                                        ) == Some(hv));
                                                        assert(spec_items_views(
                                                            alli.take(ii + 1),
                                                            shelf_date@,
                                                            now as int,
                                                        ) =~= spec_items_views(
                                                            alli.take(ii as int),
                                                            shelf_date@,
                                                            now as int,
                                                        ) + seq![hv]);
                                                    }
                                                    let ghost pre_out = out@;
                                                    out.push(history_item);
                                                    proof {
                                                        let target = spec_all_views(
                                                            alls.take(si as int),
                                                            today,
                                                            now as int,
                                                        ) + spec_items_views(
                                                            alli.take(ii + 1),
                                                            shelf_date@,
                                                            now as int,
                                                        );
                                                        let pre_map = views_of(pre_out);
                                                        let new_map = views_of(out@);
                                                        assert(pre_map.len() == pre_out.len());
                                                        assert(new_map.len() == out@.len());
                                                        assert(out@.len() == pre_out.len() + 1);
                                                        assert(target.len() == pre_map.len() + 1);
                                                        assert forall|m: int|
                                                            0 <= m < new_map.len() implies new_map[m]
                                                            == target[m] by {
                                                            if m < pre_out.len() {
                                                                assert(out@[m] == pre_out[m]);
                                                                assert(new_map[m] == pre_map[m]);
                                                            } else {
                                                                assert(out@[m] == out@.last());
                                                                assert(new_map[m] == hv);
                                                            }
                                                        }
                                                        assert(new_map =~= target);
                                                    }
                                                },
                                                None => {
                                                    proof {
                                                        assert(views_of(out@) =~= spec_all_views(
                                                            alls.take(si as int),
                                                            today,
                                                            now as int,
                                                        ) + spec_items_views(
                                                            alli.take(ii + 1),
                                                            shelf_date@,
                                                            now as int,
                                                        ));
                                                    }
                                                },
                                            }
                                        },
                                        None => {
                                            proof {
                                                assert(views_of(out@) =~= spec_all_views(
                                                    alls.take(si as int),
                                                    today,
                                                    now as int,
                                                ) + spec_items_views(
                                                    alli.take(ii + 1),
                                                    shelf_date@,
                                                    now as int,
                                                ));
                                            }
                                        },
                                    }
                                    ii = ii + 1;
                                }
                                proof {
                                    assert(alli.take(alli.len() as int) =~= alli);
                                    assert(views_of(out@) =~= spec_all_views(alls.take(si + 1), today, now as int));
                                }
                            },
                            None => {
                                proof {
                                    assert(views_of(out@) =~= spec_all_views(alls.take(si + 1), today, now as int));
                                }
                            },
                        }
                    },
                    None => {
                        proof {
                            assert(views_of(out@) =~= spec_all_views(
                                alls.take(si + 1),
                                today,
                                now as int,
                            ));
                        }
                    },
                }
            },
            None => {
                proof {
                    assert(views_of(out@) =~= spec_all_views(
                        alls.take(si + 1),
                        today,
                        now as int,
                    ));
                }
            },
        }
        si = si + 1;
    }
    proof {
        assert(alls.take(alls.len() as int) =~= alls);
    }
    out
}

/// The mathematical content of a play event, title first like `hview`.
pub open spec fn sview(s: Scrobble) -> (Seq<char>, Seq<char>, int) {
    (s.track.title@, s.track.artist@, s.played_at as int)
}

/// The play events of the items whose resolved timestamp lies within the
/// requested window, in order.
pub open spec fn spec_filter_items(items: Seq<HistoryItem>, days: u64, now: int) -> Seq<
    Scrobble,
> {
    items.filter(|h: HistoryItem| h.played_at >= now - days * 86400).map_values(
        |h: HistoryItem| Scrobble {
            track: Track { artist: h.artist, title: h.title },
            played_at: h.played_at,
        },
    )
}

/// Keeps the items whose resolved timestamp lies within the last `days`
/// days measured from `now`, as play events.
pub fn filter_items_by_date(items: Vec<HistoryItem>, days: u64, now: i64) -> (r: Vec<Scrobble>)
    requires
        days * 86400 <= i64::MAX,
        now - days * 86400 >= i64::MIN,
    ensures
        r@ == spec_filter_items(items@, days, now as int),
{
    let ghost all = items@;
    let mut out: Vec<Scrobble> = Vec::new();
    let mut i: usize = 0;
    proof {
        assert(all.take(0) =~= Seq::<HistoryItem>::empty());
        assert(spec_filter_items(all.take(0), days, now as int) =~= Seq::<Scrobble>::empty()) by {
            reveal(Seq::filter);
        }
    }
    while i < items.len()
        invariant
            items@ == all,
            i <= all.len(),
            days * 86400 <= i64::MAX,
            now - days * 86400 >= i64::MIN,
            out@ == spec_filter_items(all.take(i as int), days, now as int),
        decreases all.len() - i,
    {
        let item = &items[i];
        let copy = HistoryItem {
            title: item.title.clone(),
            artist: item.artist.clone(),
            played_at: item.played_at,
        };
        proof {
            assert(copy == all[i as int]);
            let p = |h: HistoryItem| h.played_at >= now - days * 86400;
            assert(all.take(i + 1).drop_last() =~= all.take(i as int));
            assert(all.take(i + 1).last() == all[i as int]);
            reveal(Seq::filter);
            if p(all[i as int]) {
                assert(all.take(i + 1).filter(p) =~= all.take(i as int).filter(p).push(
                    all[i as int],
                ));
            } else {
                assert(all.take(i + 1).filter(p) =~= all.take(i as int).filter(p));
            }
        }
        if within_days(now, copy.played_at, days) {
            out.push(
                Scrobble {
                    track: Track { artist: copy.artist, title: copy.title },
                    played_at: copy.played_at,
                },
            );
            proof {
                assert(out@ =~= spec_filter_items(all.take(i + 1), days, now as int));
            }
        } else {
            proof {
                assert(out@ =~= spec_filter_items(all.take(i + 1), days, now as int));
            }
        }
        i = i + 1;
    }
    proof {
        assert(all.take(all.len() as int) =~= all);
    }
    out
}

/// Parses the recovered JSON text and walks it down to history items. A
/// text that is not JSON, or a tree without the expected path, is a
/// structural scraping error.
pub fn parse_json_to_items(json_string: &str, today: CivilDate, now: i64) -> (r: Result<
    Vec<HistoryItem>,
    Error,
>)
    requires
        date_valid(today),
        today.year >= 1,
        now >= i64::MIN + 345600,
    ensures
        spec_parsed_json(json_string@) is None ==> (r matches Err(e) && e is YouTubeScraping),
        (spec_parsed_json(json_string@) matches Some(root) && spec_shelves(root) is None) ==> (r
            matches Err(Error::YouTubeScraping { detail }) && detail@
            == "Expected structure not found in JSON"@),
        spec_parsed_json(json_string@) matches Some(root) ==> (spec_shelves(root) matches Some(sh)
            ==> (r matches Ok(v) && views_of(v@) == spec_all_views(sh, today, now as int))),
{
    let root = match parse_json(json_string) {
        Ok(j) => j,
        Err(msg) => {
            let mut detail = "Invalid JSON: ".to_owned();
            detail.append(msg.as_str());
            return Err(Error::YouTubeScraping { detail });
        },
    };
    let shelves = match navigate_to_shelves(&root) {
        Ok(s) => s,
        Err(e) => {
            return Err(e);
        },
    };
    Ok(extract_items_from_shelves(shelves, today, now))
}

/// The views of the play events one run of the scraper yields from a page,
/// when every stage succeeds.
pub open spec fn spec_history_views(
    html: Seq<char>,
    days: u64,
    today: CivilDate,
    now: int,
) -> Option<Seq<(Seq<char>, Seq<char>, int)>> {
    match spec_extract_data(html) {
        None => None,
        Some(txt) => match spec_parsed_json(txt) {
            None => None,
            Some(root) => match spec_shelves(root) {
                None => None,
                Some(sh) => Some(
                    spec_all_views(sh, today, now).filter(
                        |t: (Seq<char>, Seq<char>, int)| t.2 >= now - days * 86400,
                    ),
                ),
            },
        },
    }
}

proof fn lemma_filter_map_views(items: Seq<HistoryItem>, days: u64, now: int)
    ensures
        views_of(items).filter(|t: (Seq<char>, Seq<char>, int)| t.2 >= now - days * 86400)
            == spec_filter_items(items, days, now).map_values(|s: Scrobble| sview(s)),
    decreases items.len(),
{
    reveal(Seq::filter);
    let pt = |t: (Seq<char>, Seq<char>, int)| t.2 >= now - days * 86400;
    let ph = |h: HistoryItem| h.played_at >= now - days * 86400;
    let fs = |h: HistoryItem| Scrobble {
        track: Track { artist: h.artist, title: h.title },
        played_at: h.played_at,
    };
    if items.len() == 0 {
        assert(views_of(items) =~= Seq::<(Seq<char>, Seq<char>, int)>::empty());
        assert(views_of(items).filter(pt) =~= Seq::<(Seq<char>, Seq<char>, int)>::empty());
        assert(items.filter(ph) =~= Seq::<HistoryItem>::empty());
        assert(spec_filter_items(items, days, now).map_values(|s: Scrobble| sview(s)) =~= Seq::<
            (Seq<char>, Seq<char>, int),
        >::empty());
    } else {
        let prefix = items.drop_last();
        let last = items.last();
        lemma_filter_map_views(prefix, days, now);
        assert(views_of(items).drop_last() =~= views_of(prefix));
        assert(views_of(items).last() == hview(last));
        if ph(last) {
            assert(items.filter(ph) =~= prefix.filter(ph).push(last));
            assert(views_of(items).filter(pt) =~= views_of(prefix).filter(pt).push(hview(last)));
            assert(spec_filter_items(items, days, now) =~= spec_filter_items(
                prefix,
                days,
                now,
            ).push(fs(last)));
            assert(spec_filter_items(items, days, now).map_values(|s: Scrobble| sview(s))
                =~= spec_filter_items(prefix, days, now).map_values(|s: Scrobble| sview(s)).push(
                sview(fs(last))));
            assert(sview(fs(last)) == hview(last));
        } else {
            assert(items.filter(ph) =~= prefix.filter(ph));
            assert(views_of(items).filter(pt) =~= views_of(prefix).filter(pt));
            assert(spec_filter_items(items, days, now) =~= spec_filter_items(prefix, days, now));
        }
    }
}

/// Scrapes a history page: recovers the embedded JSON, walks it into
/// history items, and keeps the plays of the requested window, measured
/// against `now`. A page lacking the known marker yields a structural
/// scraping error, never a panic or an empty success; so does a page whose
/// data is not JSON or lacks the expected path.
pub fn parse_history_html(html: &str, days: u64, today: CivilDate, now: i64) -> (r: Result<
    Vec<Scrobble>,
    Error,
>)
    requires
        date_valid(today),
        today.year >= 1,
        days * 86400 <= i64::MAX,
        now - days * 86400 >= i64::MIN,
        now >= i64::MIN + 345600,
    ensures
        r is Ok <==> spec_history_views(html@, days, today, now as int) is Some,
        r matches Ok(v) ==> v@.map_values(|s: Scrobble| sview(s)) == spec_history_views(
            html@,
            days,
            today,
            now as int,
        )->0,
        r matches Err(e) ==> e is YouTubeScraping,
        spec_extract_data(html@) is None ==> (r matches Err(
            Error::YouTubeScraping { detail },
        ) && detail@ == "No YouTube Music data found in HTML"@),
        (spec_extract_data(html@) matches Some(txt) && spec_parsed_json(txt) matches Some(root)
            && spec_shelves(root) is None) ==> (r matches Err(Error::YouTubeScraping { detail })
            && detail@ == "Expected structure not found in JSON"@),
{
    let json_string = match extract_json_from_html(html) {
        Ok(v) => v,
        Err(e) => {
            return Err(e);
        },
    };
    let history_items = match parse_json_to_items(json_string.as_str(), today, now) {
        Ok(v) => v,
        Err(e) => {
            return Err(e);
        },
    };
    let ghost items_view = history_items@;
    let scrobbles = filter_items_by_date(history_items, days, now);
    proof {
        lemma_filter_map_views(items_view, days, now as int);
    }
    Ok(scrobbles)
}

} // verus!
