//! The grammar of the format, as functions from a character sequence and a
//! start position to what is recognised there and where it ends.
use vstd::prelude::*;

use crate::model::{AttrModel, ValueModel};

verus! {

/// Whitespace that separates tokens: space, tab, carriage return, line feed.
pub open spec fn is_layout(c: char) -> bool {
    c == ' ' || c == '\t' || c == '\r' || c == '\n'
}

/// Characters allowed in a key: ASCII letters and digits, `_` and `-`.
pub open spec fn is_key_char(c: char) -> bool {
    ('a' <= c && c <= 'z') || ('A' <= c && c <= 'Z') || ('0' <= c && c <= '9') || c == '_'
        || c == '-'
}

/// Characters with the Unicode `White_Space` property.
pub open spec fn is_unicode_whitespace(c: char) -> bool {
    let v = c as u32;
    (0x09 <= v && v <= 0x0d) || v == 0x20 || v == 0x85 || v == 0xa0 || v == 0x1680 || (0x2000
        <= v && v <= 0x200a) || v == 0x2028 || v == 0x2029 || v == 0x202f || v == 0x205f || v
        == 0x3000
}

/// `t` without its leading Unicode whitespace.
pub open spec fn trim_start(t: Seq<char>) -> Seq<char>
    decreases t.len(),
{
    if t.len() > 0 && is_unicode_whitespace(t[0]) {
        trim_start(t.drop_first())
    } else {
        t
    }
}

/// `t` without its trailing Unicode whitespace.
pub open spec fn trim_end(t: Seq<char>) -> Seq<char>
    decreases t.len(),
{
    if t.len() > 0 && is_unicode_whitespace(t.last()) {
        trim_end(t.drop_last())
    } else {
        t
    }
}

pub open spec fn trim(t: Seq<char>) -> Seq<char> {
    trim_end(trim_start(t))
}

/// The first position at or after `i` that holds no layout character.
pub open spec fn skip_layout(s: Seq<char>, i: int) -> int
    decreases s.len() - i,
{
    if 0 <= i < s.len() && is_layout(s[i]) {
        skip_layout(s, i + 1)
    } else {
        i
    }
}

/// The first position at or after `i` that holds no key character.
pub open spec fn key_run_end(s: Seq<char>, i: int) -> int
    decreases s.len() - i,
{
    if 0 <= i < s.len() && is_key_char(s[i]) {
        key_run_end(s, i + 1)
    } else {
        i
    }
}

/// The first position at or after `i` that holds `"`, or the end.
pub open spec fn quote_search(s: Seq<char>, i: int) -> int
    decreases s.len() - i,
{
    if 0 <= i < s.len() && s[i] != '"' {
        quote_search(s, i + 1)
    } else {
        i
    }
}

/// The first position at or after `i` that holds a line feed or a carriage
/// return, or the end.
pub open spec fn line_search(s: Seq<char>, i: int) -> int
    decreases s.len() - i,
{
    if 0 <= i < s.len() && s[i] != '\n' && s[i] != '\r' {
        line_search(s, i + 1)
    } else {
        i
    }
}

/// A key at `i`: `"`, one or more key characters, `"`.
pub open spec fn key_at(s: Seq<char>, i: int) -> Option<(Seq<char>, int)> {
    if 0 <= i < s.len() && s[i] == '"' {
        let e = key_run_end(s, i + 1);
        if e > i + 1 && e < s.len() && s[e] == '"' {
            Some((s.subrange(i + 1, e), e + 1))
        } else {
            None
        }
    } else {
        None
    }
}

/// A string value after optional layout: `"`, any characters but `"`, `"`.
pub open spec fn text_at(s: Seq<char>, i: int) -> Option<(Seq<char>, int)> {
    let p = skip_layout(s, i);
    if 0 <= p < s.len() && s[p] == '"' {
        let e = quote_search(s, p + 1);
        if e < s.len() {
            Some((s.subrange(p + 1, e), e + 1))
        } else {
            None
        }
    } else {
        None
    }
}

/// A comment after optional layout: `//`, the rest of the line, and a line
/// ending (`\n` or `\r\n`), followed by optional layout. Its text is the rest
/// of the line, trimmed.
pub open spec fn comment_at(s: Seq<char>, i: int) -> Option<(Seq<char>, int)> {
    let p = skip_layout(s, i);
    if 0 <= p && p + 1 < s.len() && s[p] == '/' && s[p + 1] == '/' {
        let e = line_search(s, p + 2);
        let text = trim(s.subrange(p + 2, e));
        if e < s.len() && s[e] == '\n' {
            Some((text, skip_layout(s, e + 1)))
        } else if e + 1 < s.len() && s[e] == '\r' && s[e + 1] == '\n' {
            Some((text, skip_layout(s, e + 2)))
        } else {
            None
        }
    } else {
        None
    }
}

/// As many comments as follow one another from `i`.
pub open spec fn comments_from(s: Seq<char>, i: int) -> (Seq<Seq<char>>, int)
    decreases s.len() - i,
{
    match comment_at(s, i) {
        Some((c, e)) => if i < e <= s.len() {
            let (rest, end) = comments_from(s, e);
            (seq![c] + rest, end)
        } else {
            (seq![], i)
        },
        None => (seq![], i),
    }
}

/// Whether some attribute of `m` has key `k`.
pub open spec fn has_key(m: Seq<AttrModel>, k: Seq<char>) -> bool {
    exists|j: int| 0 <= j < m.len() && (#[trigger] m[j]).key == k
}

/// No two attributes of `m` share a key.
pub open spec fn keys_unique(m: Seq<AttrModel>) -> bool {
    forall|i: int, j: int|
        0 <= i < m.len() && 0 <= j < m.len() && i != j ==> (#[trigger] m[i]).key != (#[trigger] m[j]).key
}

/// The attribute of `m` with key `k`, if there is one.
pub open spec fn lookup(m: Seq<AttrModel>, k: Seq<char>) -> Option<AttrModel> {
    if has_key(m, k) {
        Some(m[choose|j: int| 0 <= j < m.len() && (#[trigger] m[j]).key == k])
    } else {
        None
    }
}

/// `a` put into the block `m`: it takes the place of the attribute with the
/// same key, or comes last if there is none.
pub open spec fn insert_attr(m: Seq<AttrModel>, a: AttrModel) -> Seq<AttrModel> {
    if has_key(m, a.key) {
        m.update(choose|j: int| 0 <= j < m.len() && (#[trigger] m[j]).key == a.key, a)
    } else {
        m.push(a)
    }
}

/// The block made of `attrs` in order: a later attribute replaces an earlier
/// one with the same key.
pub open spec fn fold_attrs(attrs: Seq<AttrModel>) -> Seq<AttrModel>
    decreases attrs.len(),
{
    if attrs.len() == 0 {
        seq![]
    } else {
        insert_attr(fold_attrs(attrs.drop_last()), attrs.last())
    }
}

/// The attribute that only carries comments.
pub open spec fn placeholder(before: Seq<Seq<char>>, after: Option<Seq<char>>) -> AttrModel {
    AttrModel {
        comments_before: before,
        comment_after: after,
        key: seq![],
        value: ValueModel::Text(seq![]),
    }
}

/// An attribute at `i`: leading comments, layout, an optional key with its
/// value, an optional trailing comment. It is absent when none of the three
/// parts is there.
pub open spec fn attr_at(s: Seq<char>, i: int) -> Option<(AttrModel, int)>
    decreases s.len() - i, 0int,
{
    let (before, after_comments) = comments_from(s, i);
    let key_start = skip_layout(s, after_comments);
    let pair: Option<(Seq<char>, ValueModel, int)> = match key_at(s, key_start) {
        Some((k, after_key)) => {
            let value_start = skip_layout(s, after_key);
            if i < value_start <= s.len() {
                match value_at(s, value_start) {
                    Some((v, value_end)) => Some((k, v, value_end)),
                    None => None,
                }
            } else {
                None
            }
        },
        None => None,
    };
    let tail = match pair {
        Some((_, _, value_end)) => value_end,
        None => key_start,
    };
    let after = comment_at(s, tail);
    let end = match after {
        Some((_, e)) => e,
        None => tail,
    };
    let after_text = match after {
        Some((c, _)) => Some(c),
        None => None,
    };
    match pair {
        Some((k, v, _)) => Some(
            (
                AttrModel { comments_before: before, comment_after: after_text, key: k, value: v },
                end,
            ),
        ),
        None => if before.len() == 0 && after is None {
            None
        } else {
            Some((placeholder(before, after_text), end))
        },
    }
}

/// A value at `i`: a string value, or else a block.
pub open spec fn value_at(s: Seq<char>, i: int) -> Option<(ValueModel, int)>
    decreases s.len() - i, 1int,
{
    match text_at(s, i) {
        Some((t, e)) => Some((ValueModel::Text(t), e)),
        None => block_at(s, i),
    }
}

/// A block at `i`: comments and layout, `{`, layout, attributes, layout, `}`,
/// layout.
pub open spec fn block_at(s: Seq<char>, i: int) -> Option<(ValueModel, int)>
    decreases s.len() - i, 0int,
{
    let p = skip_layout(s, comments_from(s, i).1);
    if 0 <= i <= p < s.len() && s[p] == '{' {
        let q = skip_layout(s, p + 1);
        if p < q <= s.len() {
            let (attrs, r) = attrs_from(s, q);
            let c = skip_layout(s, r);
            if 0 <= c < s.len() && s[c] == '}' {
                Some((ValueModel::Block(fold_attrs(attrs)), skip_layout(s, c + 1)))
            } else {
                None
            }
        } else {
            None
        }
    } else {
        None
    }
}

/// As many attributes as follow one another from `i`.
pub open spec fn attrs_from(s: Seq<char>, i: int) -> (Seq<AttrModel>, int)
    decreases s.len() - i, 1int,
{
    match attr_at(s, i) {
        Some((a, e)) => if i < e <= s.len() {
            let (rest, end) = attrs_from(s, e);
            (seq![a] + rest, end)
        } else {
            (seq![], i)
        },
        None => (seq![], i),
    }
}

} // verus!

verus! {

/// The line and the column, both counted from one, of position `i`.
pub open spec fn line_col(s: Seq<char>, i: int) -> (int, int)
    decreases i,
{
    if i <= 0 {
        (1, 1)
    } else {
        let (l, c) = line_col(s, i - 1);
        if s[i - 1] == '\n' {
            (l + 1, 1)
        } else {
            (l, c + 1)
        }
    }
}

/// The attributes that follow one another in a block's body at `i`, layout
/// around them included.
pub open spec fn content_at(s: Seq<char>, i: int) -> (Seq<AttrModel>, int) {
    let (attrs, e) = attrs_from(s, skip_layout(s, i));
    (attrs, skip_layout(s, e))
}

} // verus!
