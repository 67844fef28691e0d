//! Scanners for the tokens of the format: layout, keys, string values and
//! comments.
use vstd::prelude::*;

use crate::grammar::{
    comment_at, comments_from, is_key_char, is_layout, is_unicode_whitespace, key_at,
    key_run_end, line_search, quote_search, skip_layout, text_at, trim, trim_end, trim_start,
};
use crate::model::{texts_view, VdfValue};
use crate::text::{chars_of, rest_of, string_of};

verus! {

/// Whether `c` is whitespace that separates tokens.
pub fn is_layout_char(c: char) -> (r: bool)
    ensures
        r == is_layout(c),
{
    c == ' ' || c == '\t' || c == '\r' || c == '\n'
}

/// Whether `c` may stand in a key.
pub fn is_key_character(c: char) -> (r: bool)
    ensures
        r == is_key_char(c),
{
    ('a' <= c && c <= 'z') || ('A' <= c && c <= 'Z') || ('0' <= c && c <= '9') || c == '_'
        || c == '-'
}

/// Whether `c` has the Unicode `White_Space` property.
pub fn is_whitespace_char(c: char) -> (r: bool)
    ensures
        r == is_unicode_whitespace(c),
{
    let v = c as u32;
    (0x09 <= v && v <= 0x0d) || v == 0x20 || v == 0x85 || v == 0xa0 || v == 0x1680 || (0x2000
        <= v && v <= 0x200a) || v == 0x2028 || v == 0x2029 || v == 0x202f || v == 0x205f || v
        == 0x3000
}

/// The first position at or after `i` that holds no layout character.
pub fn skip_layout_from(s: &Vec<char>, i: usize) -> (r: usize)
    requires
        i <= s.len(),
    ensures
        r as int == skip_layout(s@, i as int),
        i <= r <= s.len(),
{
    let mut j = i;
    while j < s.len() && is_layout_char(s[j])
        invariant
            i <= j <= s.len(),
            skip_layout(s@, j as int) == skip_layout(s@, i as int),
        decreases s.len() - j,
    {
        j = j + 1;
    }
    j
}

fn key_run_end_from(s: &Vec<char>, i: usize) -> (r: usize)
    requires
        i <= s.len(),
    ensures
        r as int == key_run_end(s@, i as int),
        i <= r <= s.len(),
{
    let mut j = i;
    while j < s.len() && is_key_character(s[j])
        invariant
            i <= j <= s.len(),
            key_run_end(s@, j as int) == key_run_end(s@, i as int),
        decreases s.len() - j,
    {
        j = j + 1;
    }
    j
}

fn quote_search_from(s: &Vec<char>, i: usize) -> (r: usize)
    requires
        i <= s.len(),
    ensures
        r as int == quote_search(s@, i as int),
        i <= r <= s.len(),
{
    let mut j = i;
    while j < s.len() && s[j] != '"'
        invariant
            i <= j <= s.len(),
            quote_search(s@, j as int) == quote_search(s@, i as int),
        decreases s.len() - j,
    {
        j = j + 1;
    }
    j
}

fn line_search_from(s: &Vec<char>, i: usize) -> (r: usize)
    requires
        i <= s.len(),
    ensures
        r as int == line_search(s@, i as int),
        i <= r <= s.len(),
{
    let mut j = i;
    while j < s.len() && s[j] != '\n' && s[j] != '\r'
        invariant
            i <= j <= s.len(),
            line_search(s@, j as int) == line_search(s@, i as int),
        decreases s.len() - j,
    {
        j = j + 1;
    }
    j
}

/// The bounds of `s[lo..hi]` without its surrounding Unicode whitespace.
pub fn trim_span(s: &Vec<char>, lo: usize, hi: usize) -> (r: (usize, usize))
    requires
        lo <= hi <= s.len(),
    ensures
        lo <= r.0 <= r.1 <= hi,
        s@.subrange(r.0 as int, r.1 as int) == trim(s@.subrange(lo as int, hi as int)),
{
    let mut a = lo;
    while a < hi && is_whitespace_char(s[a])
        invariant
            lo <= a <= hi <= s.len(),
            trim_start(s@.subrange(a as int, hi as int)) == trim_start(
                s@.subrange(lo as int, hi as int),
            ),
        decreases hi - a,
    {
        assert(s@.subrange(a as int, hi as int).drop_first() =~= s@.subrange(
            a + 1,
            hi as int,
        ));
        a = a + 1;
    }
    assert(trim_start(s@.subrange(a as int, hi as int)) == s@.subrange(a as int, hi as int));
    let mut b = hi;
    while b > a && is_whitespace_char(s[b - 1])
        invariant
            lo <= a <= b <= hi <= s.len(),
            trim_end(s@.subrange(a as int, b as int)) == trim_end(
                s@.subrange(a as int, hi as int),
            ),
        decreases b - a,
    {
        assert(s@.subrange(a as int, b as int).drop_last() =~= s@.subrange(
            a as int,
            b - 1,
        ));
        b = b - 1;
    }
    (a, b)
}

/// A key at position `i` of `s`, with the position after it.
pub fn scan_key(s: &Vec<char>, i: usize) -> (r: Option<(String, usize)>)
    requires
        i <= s.len(),
    ensures
        match r {
            Some((k, e)) => key_at(s@, i as int) == Some((k@, e as int)) && i < e <= s.len(),
            None => key_at(s@, i as int) is None,
        },
{
    if i < s.len() && s[i] == '"' {
        let e = key_run_end_from(s, i + 1);
        if e > i + 1 && e < s.len() && s[e] == '"' {
            Some((string_of(s, i + 1, e), e + 1))
        } else {
            None
        }
    } else {
        None
    }
}

/// A string value at position `i` of `s`, with the position after it.
pub fn scan_text(s: &Vec<char>, i: usize) -> (r: Option<(String, usize)>)
    requires
        i <= s.len(),
    ensures
        match r {
            Some((t, e)) => text_at(s@, i as int) == Some((t@, e as int)) && i < e <= s.len(),
            None => text_at(s@, i as int) is None,
        },
{
    let p = skip_layout_from(s, i);
    if p < s.len() && s[p] == '"' {
        let e = quote_search_from(s, p + 1);
        if e < s.len() {
            Some((string_of(s, p + 1, e), e + 1))
        } else {
            None
        }
    } else {
        None
    }
}

/// A comment at position `i` of `s`, with the position after it.
pub fn scan_comment(s: &Vec<char>, i: usize) -> (r: Option<(String, usize)>)
    requires
        i <= s.len(),
    ensures
        match r {
            Some((c, e)) => comment_at(s@, i as int) == Some((c@, e as int)) && i < e <= s.len(),
            None => comment_at(s@, i as int) is None,
        },
{
    let p = skip_layout_from(s, i);
    if p < s.len() && p + 1 < s.len() && s[p] == '/' && s[p + 1] == '/' {
        let e = line_search_from(s, p + 2);
        let next: usize;
        if e < s.len() && s[e] == '\n' {
            next = e + 1;
        } else if e < s.len() && e + 1 < s.len() && s[e] == '\r' && s[e + 1] == '\n' {
            next = e + 2;
        } else {
            return None;
        }
        let (a, b) = trim_span(s, p + 2, e);
        Some((string_of(s, a, b), skip_layout_from(s, next)))
    } else {
        None
    }
}

/// The comments that follow one another from position `i` of `s`, with the
/// position after them.
pub fn scan_comments(s: &Vec<char>, i: usize) -> (r: (Vec<String>, usize))
    requires
        i <= s.len(),
    ensures
        texts_view(r.0@) == comments_from(s@, i as int).0,
        r.1 as int == comments_from(s@, i as int).1,
        i <= r.1 <= s.len(),
        r.0@.len() > 0 ==> i < r.1,
{
    let mut out: Vec<String> = Vec::new();
    let mut j = i;
    loop
        invariant
            i <= j <= s.len(),
            comments_from(s@, i as int).0 == texts_view(out@) + comments_from(s@, j as int).0,
            comments_from(s@, i as int).1 == comments_from(s@, j as int).1,
            out@.len() > 0 ==> i < j,
        ensures
            out@.len() > 0 ==> i < j,
            texts_view(out@) == comments_from(s@, i as int).0,
            j as int == comments_from(s@, i as int).1,
            i <= j <= s.len(),
        decreases s.len() - j,
    {
        match scan_comment(s, j) {
            Some((c, e)) => {
                let ghost old_out = out@;
                out.push(c);
                assert(texts_view(out@) =~= texts_view(old_out).push(c@));
                assert(texts_view(old_out) + comments_from(s@, j as int).0 =~= texts_view(out@)
                    + comments_from(s@, e as int).0);
                j = e;
            },
            None => {
                assert(texts_view(out@) + comments_from(s@, j as int).0 =~= texts_view(out@));
                break ;
            },
        }
    }
    (out, j)
}

} // verus!

verus! {

/// Recognises a key at the start of `input`: `"`, one or more ASCII letters,
/// digits, `_` or `-`, and `"`. Returns what follows it and the key.
pub fn key(input: &str) -> (r: Option<(&str, String)>)
    ensures
        match key_at(input@, 0) {
            Some((k, e)) => r matches Some((rest, t)) && t@ == k && rest@ == input@.subrange(
                e,
                input@.len() as int,
            ),
            None => r is None,
        },
{
    let s = chars_of(input);
    match scan_key(&s, 0) {
        Some((k, e)) => Some((rest_of(input, e), k)),
        None => None,
    }
}

/// Recognises a string value at the start of `input`, after optional layout:
/// `"`, any characters but `"`, and `"`. Returns what follows it and the value.
pub fn vdf_value_string(input: &str) -> (r: Option<(&str, VdfValue)>)
    ensures
        match text_at(input@, 0) {
            Some((t, e)) => r matches Some((rest, v)) && v.view() == crate::model::ValueModel::Text(
                t,
            ) && rest@ == input@.subrange(e, input@.len() as int),
            None => r is None,
        },
{
    let s = chars_of(input);
    match scan_text(&s, 0) {
        Some((t, e)) => Some((rest_of(input, e), VdfValue::String(t))),
        None => None,
    }
}

/// Recognises a line comment at the start of `input`, after optional layout:
/// `//`, the rest of the line and its line ending, then optional layout.
/// Returns what follows it and the comment's text without surrounding
/// whitespace.
pub fn comment(input: &str) -> (r: Option<(&str, String)>)
    ensures
        match comment_at(input@, 0) {
            Some((c, e)) => r matches Some((rest, t)) && t@ == c && rest@ == input@.subrange(
                e,
                input@.len() as int,
            ),
            None => r is None,
        },
{
    let s = chars_of(input);
    match scan_comment(&s, 0) {
        Some((c, e)) => Some((rest_of(input, e), c)),
        None => None,
    }
}

} // verus!
