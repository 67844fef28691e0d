//! Properties of the grammar that relate several of its parts, proved.
use vstd::prelude::*;

use crate::grammar::{
    attr_at, attrs_from, block_at, comment_at, comments_from, fold_attrs, has_key, insert_attr,
    is_key_char, is_layout, key_at, key_run_end, keys_unique, line_search, lookup, placeholder,
    quote_search, skip_layout, text_at, trim,
};
use crate::model::{AttrModel, ValueModel};
use crate::parser::lemma_insert_keeps_unique;

verus! {

proof fn lemma_key_run(s: Seq<char>, j: int)
    requires
        0 <= j <= s.len(),
    ensures
        j <= key_run_end(s, j) <= s.len(),
        forall|m: int| j <= m < key_run_end(s, j) ==> is_key_char(#[trigger] s[m]),
        key_run_end(s, j) < s.len() ==> !is_key_char(s[key_run_end(s, j)]),
    decreases s.len() - j,
{
    if j < s.len() && is_key_char(s[j]) {
        lemma_key_run(s, j + 1);
    }
}

proof fn lemma_quote_search(s: Seq<char>, j: int, e: int)
    requires
        0 <= j <= e <= s.len(),
        forall|m: int| j <= m < e ==> #[trigger] s[m] != '"',
        e < s.len() ==> s[e] == '"',
    ensures
        quote_search(s, j) == e,
    decreases e - j,
{
    if j < e {
        lemma_quote_search(s, j + 1, e);
    }
}

proof fn lemma_line_search(s: Seq<char>, j: int, e: int)
    requires
        0 <= j <= e <= s.len(),
        forall|m: int| j <= m < e ==> #[trigger] s[m] != '\n' && s[m] != '\r',
        e < s.len() ==> s[e] == '\n' || s[e] == '\r',
    ensures
        line_search(s, j) == e,
    decreases e - j,
{
    if j < e {
        lemma_line_search(s, j + 1, e);
    }
}

proof fn lemma_key_run_to(s: Seq<char>, j: int, e: int)
    requires
        0 <= j <= e <= s.len(),
        forall|m: int| j <= m < e ==> is_key_char(#[trigger] s[m]),
        e < s.len() ==> !is_key_char(s[e]),
    ensures
        key_run_end(s, j) == e,
    decreases e - j,
{
    if j < e {
        lemma_key_run_to(s, j + 1, e);
    }
}

/// A non-empty run of ASCII letters, digits, `_` and `-` between quotes reads
/// as a key that is exactly that run, and the whole input is consumed.
pub proof fn law_quoted_key(k: Seq<char>)
    requires
        k.len() > 0,
        forall|i: int| 0 <= i < k.len() ==> is_key_char(#[trigger] k[i]),
    ensures
        key_at(seq!['"'] + k + seq!['"'], 0) == Some((k, k.len() as int + 2)),
{
    let s = seq!['"'] + k + seq!['"'];
    assert forall|m: int| 1 <= m < k.len() as int + 1 implies is_key_char(#[trigger] s[m]) by {
        assert(s[m] == k[m - 1]);
    }
    lemma_key_run_to(s, 1, k.len() as int + 1);
    assert(s.subrange(1, k.len() as int + 1) =~= k);
}

/// Between quotes, an empty span, or one that holds a character that keys do
/// not allow (whitespace, say) but no quote, is not a key.
pub proof fn law_quoted_non_key(k: Seq<char>)
    requires
        forall|i: int| 0 <= i < k.len() ==> #[trigger] k[i] != '"',
        k.len() == 0 || exists|i: int| 0 <= i < k.len() && !is_key_char(#[trigger] k[i]),
    ensures
        key_at(seq!['"'] + k + seq!['"'], 0) is None,
{
    let s = seq!['"'] + k + seq!['"'];
    lemma_key_run(s, 1);
    let e = key_run_end(s, 1);
    if e > 1 && e < s.len() && s[e] == '"' {
        if e <= k.len() {
            assert(s[e] == k[e - 1]);
        } else {
            let i = choose|i: int| 0 <= i < k.len() && !is_key_char(#[trigger] k[i]);
            assert(s[i + 1] == k[i]);
        }
    }
}

/// Any text without a quote, between quotes, reads as a string value that is
/// exactly that text; `""` gives the empty text.
pub proof fn law_quoted_text(t: Seq<char>)
    requires
        forall|i: int| 0 <= i < t.len() ==> #[trigger] t[i] != '"',
    ensures
        text_at(seq!['"'] + t + seq!['"'], 0) == Some((t, t.len() as int + 2)),
{
    let s = seq!['"'] + t + seq!['"'];
    assert(skip_layout(s, 0) == 0);
    assert forall|m: int| 1 <= m < t.len() as int + 1 implies #[trigger] s[m] != '"' by {
        assert(s[m] == t[m - 1]);
    }
    lemma_quote_search(s, 1, t.len() as int + 1);
    assert(s.subrange(1, t.len() as int + 1) =~= t);
}

/// `//`, a text without line endings, and a line ending read as a comment whose
/// text is the text trimmed; without the line ending there is no comment.
pub proof fn law_comment_line(t: Seq<char>)
    requires
        forall|i: int| 0 <= i < t.len() ==> #[trigger] t[i] != '\n' && t[i] != '\r',
    ensures
        comment_at(seq!['/', '/'] + t + seq!['\n'], 0) == Some((trim(t), t.len() as int + 3)),
        comment_at(seq!['/', '/'] + t + seq!['\r', '\n'], 0) == Some((trim(t), t.len() as int + 4)),
        comment_at(seq!['/', '/'] + t, 0) is None,
{
    let s1 = seq!['/', '/'] + t + seq!['\n'];
    let s2 = seq!['/', '/'] + t + seq!['\r', '\n'];
    let s3 = seq!['/', '/'] + t;
    assert(skip_layout(s1, 0) == 0);
    assert(skip_layout(s2, 0) == 0);
    assert(skip_layout(s3, 0) == 0);
    assert forall|m: int| 2 <= m < t.len() as int + 2 implies #[trigger] s1[m] != '\n' && s1[m] != '\r' by {
        assert(s1[m] == t[m - 2]);
    }
    assert forall|m: int| 2 <= m < t.len() as int + 2 implies #[trigger] s2[m] != '\n' && s2[m] != '\r' by {
        assert(s2[m] == t[m - 2]);
    }
    assert forall|m: int| 2 <= m < t.len() as int + 2 implies #[trigger] s3[m] != '\n' && s3[m] != '\r' by {
        assert(s3[m] == t[m - 2]);
    }
    lemma_line_search(s1, 2, t.len() as int + 2);
    lemma_line_search(s2, 2, t.len() as int + 2);
    lemma_line_search(s3, 2, t.len() as int + 2);
    assert(s1.subrange(2, t.len() as int + 2) =~= t);
    assert(s2.subrange(2, t.len() as int + 2) =~= t);
    assert(skip_layout(s1, t.len() as int + 3) == t.len() as int + 3);
    assert(skip_layout(s2, t.len() as int + 4) == t.len() as int + 4);
}

proof fn lemma_lookup_at(m: Seq<AttrModel>, j: int)
    requires
        keys_unique(m),
        0 <= j < m.len(),
    ensures
        lookup(m, m[j].key) == Some(m[j]),
{
    assert(has_key(m, m[j].key));
}

proof fn lemma_lookup_insert(m: Seq<AttrModel>, a: AttrModel, k: Seq<char>)
    requires
        keys_unique(m),
    ensures
        lookup(insert_attr(m, a), k) == if k == a.key {
            Some(a)
        } else {
            lookup(m, k)
        },
{
    let n = insert_attr(m, a);
    lemma_insert_keeps_unique(m, a);
    let at = if has_key(m, a.key) {
        choose|j: int| 0 <= j < m.len() && (#[trigger] m[j]).key == a.key
    } else {
        m.len() as int
    };
    assert(n[at] == a);
    if k == a.key {
        lemma_lookup_at(n, at);
    } else if has_key(m, k) {
        let j = choose|j: int| 0 <= j < m.len() && (#[trigger] m[j]).key == k;
        assert(n[j] == m[j]);
        lemma_lookup_at(m, j);
        lemma_lookup_at(n, j);
    } else {
        assert forall|j: int| 0 <= j < n.len() implies (#[trigger] n[j]).key != k by {
            if j != at {
                assert(n[j] == m[j]);
            }
        }
    }
}

proof fn lemma_fold_unique(attrs: Seq<AttrModel>)
    ensures
        keys_unique(fold_attrs(attrs)),
    decreases attrs.len(),
{
    if attrs.len() > 0 {
        lemma_fold_unique(attrs.drop_last());
        lemma_insert_keeps_unique(fold_attrs(attrs.drop_last()), attrs.last());
    }
}

/// In a block whose attributes `i` and `j > i` share a key, the block keeps
/// under that key only the last attribute that has it, and keys stay unique.
pub proof fn law_later_key_wins(attrs: Seq<AttrModel>, i: int, j: int)
    requires
        0 <= i < j < attrs.len(),
        attrs[i].key == attrs[j].key,
        forall|l: int| j < l < attrs.len() ==> (#[trigger] attrs[l]).key != attrs[j].key,
    ensures
        lookup(fold_attrs(attrs), attrs[i].key) == Some(attrs[j]),
        keys_unique(fold_attrs(attrs)),
    decreases attrs.len(),
{
    let d = attrs.drop_last();
    lemma_fold_unique(attrs);
    lemma_fold_unique(d);
    lemma_lookup_insert(fold_attrs(d), attrs.last(), attrs[j].key);
    if j < attrs.len() - 1 {
        assert forall|l: int| j < l < d.len() implies (#[trigger] d[l]).key != d[j].key by {
            assert(d[l] == attrs[l]);
        }
        law_later_key_wins(d, i, j);
    }
}

/// A block whose body is a single comment line reads as a block with one
/// attribute: the one that only carries that comment.
pub proof fn law_comment_only_block(t: Seq<char>)
    requires
        forall|i: int| 0 <= i < t.len() ==> #[trigger] t[i] != '\n' && t[i] != '\r',
    ensures
        block_at(seq!['{', '/', '/'] + t + seq!['\n', '}'], 0) == Some(
            (
                ValueModel::Block(seq![placeholder(seq![trim(t)], None)]),
                t.len() as int + 5,
            ),
        ),
{
    let s = seq!['{', '/', '/'] + t + seq!['\n', '}'];
    let e = t.len() as int + 4;
    assert(s[0] == '{');
    assert(skip_layout(s, 0) == 0);
    assert(comment_at(s, 0) is None);
    assert(comments_from(s, 0) == (Seq::<Seq<char>>::empty(), 0int));
    assert(skip_layout(s, 1) == 1);
    assert forall|m: int| 3 <= m < t.len() as int + 3 implies #[trigger] s[m] != '\n' && s[m] != '\r' by {
        assert(s[m] == t[m - 3]);
    }
    lemma_line_search(s, 3, t.len() as int + 3);
    assert(s.subrange(3, t.len() as int + 3) =~= t);
    assert(s[e] == '}');
    assert(skip_layout(s, e) == e);
    assert(comment_at(s, 1) == Some((trim(t), e)));
    assert(comment_at(s, e) is None);
    assert(comments_from(s, e) == (Seq::<Seq<char>>::empty(), e));
    assert(comments_from(s, 1) == (seq![trim(t)], e)) by {
        assert(seq![trim(t)] + Seq::<Seq<char>>::empty() =~= seq![trim(t)]);
    }
    assert(key_at(s, e) is None);
    let a = placeholder(seq![trim(t)], None);
    assert(attr_at(s, 1) == Some((a, e)));
    assert(comments_from(s, e).0.len() == 0);
    assert(attr_at(s, e) is None);
    assert(attrs_from(s, e) == (Seq::<AttrModel>::empty(), e));
    assert(attrs_from(s, 1) == (seq![a], e)) by {
        assert(seq![a] + Seq::<AttrModel>::empty() =~= seq![a]);
    }
    assert(skip_layout(s, e + 1) == e + 1);
    assert(fold_attrs(seq![a]) == seq![a]) by {
        assert(seq![a].drop_last() =~= Seq::<AttrModel>::empty());
        assert(fold_attrs(Seq::<AttrModel>::empty()) =~= Seq::<AttrModel>::empty());
        assert(seq![a].last() == a);
        assert(!has_key(Seq::<AttrModel>::empty(), a.key));
        assert(Seq::<AttrModel>::empty().push(a) =~= seq![a]);
    }
}

} // verus!
