//! The recursive-descent parser: attributes, values and blocks.
use vstd::prelude::*;

use crate::error::VdfError;
use crate::grammar::{
    attr_at, attrs_from, block_at, content_at, line_col, fold_attrs, has_key, insert_attr, keys_unique, skip_layout,
    value_at,
};
use crate::lexer::{scan_comment, scan_comments, scan_key, scan_text, skip_layout_from};
use crate::text::{chars_of, rest_of};
use crate::model::{attrs_view, lemma_attrs_view, AttrModel, VdfAttribute, VdfValue};

verus! {

/// What a document must start with.
pub const ATTRIBUTE_EXPECTED: &'static str = "a quoted key with its value, or a // comment";

proof fn lemma_attrs_view_push(v: Seq<VdfAttribute>, a: VdfAttribute)
    ensures
        attrs_view(v.push(a)) == attrs_view(v).push(a.view()),
{
    assert(v.push(a).drop_last() =~= v);
}

proof fn lemma_attrs_view_update(v: Seq<VdfAttribute>, j: int, a: VdfAttribute)
    requires
        0 <= j < v.len(),
    ensures
        attrs_view(v.update(j, a)) == attrs_view(v).update(j, a.view()),
{
    lemma_attrs_view(v);
    lemma_attrs_view(v.update(j, a));
    assert(attrs_view(v.update(j, a)) =~= attrs_view(v).update(j, a.view()));
}

/// Putting an attribute into a block keeps its keys unique.
pub proof fn lemma_insert_keeps_unique(m: Seq<AttrModel>, a: AttrModel)
    requires
        keys_unique(m),
    ensures
        keys_unique(insert_attr(m, a)),
{
}

proof fn lemma_fold_push(attrs: Seq<AttrModel>, a: AttrModel)
    ensures
        fold_attrs(attrs.push(a)) == insert_attr(fold_attrs(attrs), a),
{
    assert(attrs.push(a).drop_last() =~= attrs);
}

/// Puts `a` into `block`, in place of the attribute with the same key if there
/// is one, else at the end.
fn insert_into_block(block: &mut Vec<VdfAttribute>, a: VdfAttribute)
    requires
        keys_unique(attrs_view(old(block)@)),
    ensures
        attrs_view(final(block)@) == insert_attr(attrs_view(old(block)@), a.view()),
        keys_unique(attrs_view(final(block)@)),
{
    proof {
        lemma_attrs_view(block@);
        lemma_insert_keeps_unique(attrs_view(block@), a.view());
    }
    let ghost m = attrs_view(block@);
    let mut j: usize = 0;
    while j < block.len()
        invariant
            j <= block.len(),
            block@ == old(block)@,
            m == attrs_view(block@),
            m.len() == block.len(),
            keys_unique(m),
            keys_unique(insert_attr(m, a.view())),
            forall|l: int| 0 <= l < j ==> (#[trigger] m[l]).key != a.key@,
        decreases block.len() - j,
    {
        proof {
            lemma_attrs_view(block@);
            assert(m[j as int] == block@[j as int].view());
        }
        if block[j].key == a.key {
            proof {
                assert(m[j as int].key == a.view().key);
                assert(has_key(m, a.view().key));
                let c = choose|c: int| 0 <= c < m.len() && (#[trigger] m[c]).key == a.view().key;
                assert(c == j);
                lemma_attrs_view_update(block@, j as int, a);
            }
            block.set(j, a);
            return ;
        }
        j = j + 1;
    }
    proof {
        assert(!has_key(m, a.view().key));
        lemma_attrs_view_push(block@, a);
    }
    block.push(a);
}

/// An attribute at position `i` of `s`, with the position after it.
pub fn parse_attr(s: &Vec<char>, i: usize) -> (r: Option<(VdfAttribute, usize)>)
    requires
        i <= s.len(),
    ensures
        match r {
            Some((a, e)) => attr_at(s@, i as int) == Some((a.view(), e as int)) && i < e <= s.len(),
            None => attr_at(s@, i as int) is None,
        },
    decreases s.len() - i, 0int,
{
    let (before, after_comments) = scan_comments(s, i);
    let key_start = skip_layout_from(s, after_comments);
    let mut pair: Option<(String, VdfValue, usize)> = None;
    match scan_key(s, key_start) {
        Some((k, after_key)) => {
            let value_start = skip_layout_from(s, after_key);
            match parse_value(s, value_start) {
                Some((v, value_end)) => {
                    pair = Some((k, v, value_end));
                },
                None => {},
            }
        },
        None => {},
    }
    let tail = match &pair {
        Some((_, _, value_end)) => *value_end,
        None => key_start,
    };
    let after = scan_comment(s, tail);
    let (after_text, end) = match after {
        Some((c, e)) => (Some(c), e),
        None => (None, tail),
    };
    match pair {
        Some((k, v, _)) => Some(
            (
                VdfAttribute { comments_before: before, comment_after: after_text, key: k, value: v },
                end,
            ),
        ),
        None => if before.len() == 0 && after_text.is_none() {
            None
        } else {
            Some(
                (
                    VdfAttribute {
                        comments_before: before,
                        comment_after: after_text,
                        key: String::new(),
                        value: VdfValue::String(String::new()),
                    },
                    end,
                ),
            )
        },
    }
}

/// A value at position `i` of `s`, with the position after it.
pub fn parse_value(s: &Vec<char>, i: usize) -> (r: Option<(VdfValue, usize)>)
    requires
        i <= s.len(),
    ensures
        match r {
            Some((v, e)) => value_at(s@, i as int) == Some((v.view(), e as int)) && i < e <= s.len(),
            None => value_at(s@, i as int) is None,
        },
    decreases s.len() - i, 1int,
{
    match scan_text(s, i) {
        Some((t, e)) => Some((VdfValue::String(t), e)),
        None => parse_block(s, i),
    }
}

/// A block at position `i` of `s`, with the position after it.
pub fn parse_block(s: &Vec<char>, i: usize) -> (r: Option<(VdfValue, usize)>)
    requires
        i <= s.len(),
    ensures
        match r {
            Some((v, e)) => block_at(s@, i as int) == Some((v.view(), e as int)) && i < e <= s.len(),
            None => block_at(s@, i as int) is None,
        },
    decreases s.len() - i, 0int,
{
    let (_, after_comments) = scan_comments(s, i);
    let p = skip_layout_from(s, after_comments);
    if p < s.len() && s[p] == '{' {
        let q = skip_layout_from(s, p + 1);
        let mut block: Vec<VdfAttribute> = Vec::new();
        let mut j = q;
        let ghost parsed: Seq<AttrModel> = seq![];
        loop
            invariant
                q <= j <= s.len(),
                i < q,
                attrs_from(s@, q as int).0 == parsed + attrs_from(s@, j as int).0,
                attrs_from(s@, q as int).1 == attrs_from(s@, j as int).1,
                attrs_view(block@) == fold_attrs(parsed),
                keys_unique(attrs_view(block@)),
            ensures
                q <= j <= s.len(),
                attrs_from(s@, q as int).0 == parsed,
                attrs_from(s@, q as int).1 == j,
                attrs_view(block@) == fold_attrs(parsed),
            decreases s.len() - j,
        {
            match parse_attr(s, j) {
                Some((a, e)) => {
                    proof {
                        lemma_fold_push(parsed, a.view());
                        assert(parsed + attrs_from(s@, j as int).0 =~= parsed.push(a.view())
                            + attrs_from(s@, e as int).0);
                        parsed = parsed.push(a.view());
                    }
                    insert_into_block(&mut block, a);
                    j = e;
                },
                None => {
                    assert(parsed + attrs_from(s@, j as int).0 =~= parsed);
                    break ;
                },
            }
        }
        let c = skip_layout_from(s, j);
        if c < s.len() && s[c] == '}' {
            let e = skip_layout_from(s, c + 1);
            Some((VdfValue::Block(block), e))
        } else {
            None
        }
    } else {
        None
    }
}

} // verus!

verus! {

/// Where parsing a document fails: the line and column of position `i`.
fn line_and_column(s: &Vec<char>, i: usize) -> (r: (usize, usize))
    requires
        i <= s.len(),
        i < usize::MAX,
    ensures
        (r.0 as int, r.1 as int) == line_col(s@, i as int),
{
    let mut line: usize = 1;
    let mut column: usize = 1;
    let mut j: usize = 0;
    while j < i
        invariant
            j <= i <= s.len(),
            i < usize::MAX,
            (line as int, column as int) == line_col(s@, j as int),
            1 <= line <= j + 1,
            1 <= column <= j + 1,
        decreases i - j,
    {
        if s[j] == '\n' {
            line = line + 1;
            column = 1;
        } else {
            column = column + 1;
        }
        j = j + 1;
    }
    (line, column)
}

/// Recognises one attribute at the start of `input`: leading comments, an
/// optional key with its value, an optional trailing comment. Returns what
/// follows it and the attribute.
pub fn attribute(input: &str) -> (r: Option<(&str, VdfAttribute)>)
    ensures
        match attr_at(input@, 0) {
            Some((a, e)) => r matches Some((rest, t)) && t.view() == a && rest@ == input@.subrange(
                e,
                input@.len() as int,
            ),
            None => r is None,
        },
{
    let s = chars_of(input);
    match parse_attr(&s, 0) {
        Some((a, e)) => Some((rest_of(input, e), a)),
        None => None,
    }
}

/// Recognises a block at the start of `input`: optional comments, `{`, the
/// attributes, `}`. A later attribute replaces an earlier one with the same
/// key. Returns what follows it and the block.
pub fn vdf_value_block(input: &str) -> (r: Option<(&str, VdfValue)>)
    ensures
        match block_at(input@, 0) {
            Some((b, e)) => r matches Some((rest, v)) && v.view() == b && rest@ == input@.subrange(
                e,
                input@.len() as int,
            ),
            None => r is None,
        },
{
    let s = chars_of(input);
    match parse_block(&s, 0) {
        Some((v, e)) => Some((rest_of(input, e), v)),
        None => None,
    }
}

/// The attributes that follow one another at the start of `input`, in the
/// order they appear, with what follows them.
pub fn block_content(input: &str) -> (r: (&str, Vec<VdfAttribute>))
    ensures
        attrs_view(r.1@) == content_at(input@, 0).0,
        r.0@ == input@.subrange(content_at(input@, 0).1, input@.len() as int),
{
    let s = chars_of(input);
    let q = skip_layout_from(&s, 0);
    let mut attrs: Vec<VdfAttribute> = Vec::new();
    let mut j = q;
    loop
        invariant
            q <= j <= s.len(),
            s@ == input@,
            q as int == skip_layout(s@, 0),
            attrs_from(s@, q as int).0 == attrs_view(attrs@) + attrs_from(s@, j as int).0,
            attrs_from(s@, q as int).1 == attrs_from(s@, j as int).1,
        ensures
            q <= j <= s.len(),
            attrs_from(s@, q as int).0 == attrs_view(attrs@),
            attrs_from(s@, q as int).1 == j,
        decreases s.len() - j,
    {
        match parse_attr(&s, j) {
            Some((a, e)) => {
                proof {
                    lemma_attrs_view_push(attrs@, a);
                    assert(attrs_view(attrs@) + attrs_from(s@, j as int).0 =~= attrs_view(
                        attrs@,
                    ).push(a.view()) + attrs_from(s@, e as int).0);
                }
                attrs.push(a);
                j = e;
            },
            None => {
                assert(attrs_view(attrs@) + attrs_from(s@, j as int).0 =~= attrs_view(attrs@));
                break ;
            },
        }
    }
    let end = skip_layout_from(&s, j);
    (rest_of(input, end), attrs)
}

/// Parses a whole document as one attribute, the root. What follows the root
/// is not looked at. Where the text does not start with an attribute, the
/// error gives the first position that holds no layout.
pub fn parse_vdf_text(text: &str) -> (r: Result<VdfAttribute, VdfError>)
    ensures
        match attr_at(text@, 0) {
            Some((a, _)) => r matches Ok(t) && t.view() == a,
            None => r matches Err(VdfError::Parse { position, line, column, expected })
                && position as int == skip_layout(text@, 0) && (position < usize::MAX ==> (
                line as int,
                column as int,
            ) == line_col(text@, position as int)) && expected@ == ATTRIBUTE_EXPECTED@,
        },
{
    let s = chars_of(text);
    match parse_attr(&s, 0) {
        Some((a, _)) => Ok(a),
        None => {
            let position = skip_layout_from(&s, 0);
            let (line, column) = if position < usize::MAX {
                line_and_column(&s, position)
            } else {
                (usize::MAX, usize::MAX)
            };
            Err(
                VdfError::Parse {
                    position,
                    line,
                    column,
                    expected: String::from_str(ATTRIBUTE_EXPECTED),
                },
            )
        },
    }
}

} // verus!
