//! The parse tree and its mathematical model.
use vstd::prelude::*;

use crate::error::VdfError;

verus! {

/// The model of a value: a text, or a block of attributes whose keys are
/// unique and which keeps the order in which keys first appeared.
pub enum ValueModel {
    Text(Seq<char>),
    Block(Seq<AttrModel>),
}

/// The model of an attribute.
pub struct AttrModel {
    pub comments_before: Seq<Seq<char>>,
    pub comment_after: Option<Seq<char>>,
    pub key: Seq<char>,
    pub value: ValueModel,
}

/// A value: a quoted string, or a block of named attributes.
#[derive(Debug, PartialEq)]
pub enum VdfValue {
    String(String),
    Block(Vec<VdfAttribute>),
}

/// One key/value entry with the comments that precede it and the comment that
/// trails it. An attribute that only carries comments has an empty key and an
/// empty string value.
#[derive(Debug, PartialEq)]
pub struct VdfAttribute {
    pub comments_before: Vec<String>,
    pub comment_after: Option<String>,
    pub key: String,
    pub value: VdfValue,
}

/// The texts held by an optional `String`.
pub open spec fn opt_text_view(o: Option<String>) -> Option<Seq<char>> {
    match o {
        Some(t) => Some(t@),
        None => None,
    }
}

/// The texts held by a sequence of `String`s.
pub open spec fn texts_view(v: Seq<String>) -> Seq<Seq<char>> {
    v.map_values(|t: String| t@)
}

impl VdfValue {
    pub open spec fn view(&self) -> ValueModel
        decreases self,
    {
        match self {
            VdfValue::String(t) => ValueModel::Text(t@),
            VdfValue::Block(v) => ValueModel::Block(attrs_view(v@)),
        }
    }
}

impl VdfAttribute {
    pub open spec fn view(&self) -> AttrModel
        decreases self,
    {
        AttrModel {
            comments_before: texts_view(self.comments_before@),
            comment_after: opt_text_view(self.comment_after),
            key: self.key@,
            value: self.value.view(),
        }
    }
}

impl VdfValue {
    /// The text of a string value. Only a string value can be turned into a
    /// `String`.
    pub fn into_string(self) -> (r: String)
        requires
            self is String,
        ensures
            self matches VdfValue::String(t) && r@ == t@,
    {
        match self {
            VdfValue::String(t) => t,
            VdfValue::Block(_) => String::new(),
        }
    }
}

impl VdfAttribute {
    /// The first attribute with key `key` in this attribute's block. Fails
    /// with `ValueNotFound(key, self.key)` where there is none, or where this
    /// attribute holds a string.
    pub fn get_string_value(&self, key: &str) -> (r: Result<&VdfAttribute, VdfError>)
        ensures
            match self.value {
                VdfValue::Block(v) => match r {
                    Ok(a) => exists|j: int|
                        0 <= j < v@.len() && *a == v@[j] && v@[j].key@ == key@ && forall|l: int|
                            0 <= l < j ==> (#[trigger] v@[l]).key@ != key@,
                    Err(e) => (forall|j: int| 0 <= j < v@.len() ==> (#[trigger] v@[j]).key@ != key@)
                        && (e matches VdfError::ValueNotFound(k, b) && k@ == key@ && b@
                        == self.key@),
                },
                VdfValue::String(_) => r matches Err(VdfError::ValueNotFound(k, b)) && k@ == key@
                    && b@ == self.key@,
            },
    {
        match &self.value {
            VdfValue::Block(v) => {
                let wanted = String::from_str(key);
                let mut j: usize = 0;
                while j < v.len()
                    invariant
                        j <= v.len(),
                        wanted@ == key@,
                        self.value == VdfValue::Block(*v),
                        forall|l: int| 0 <= l < j ==> (#[trigger] v@[l]).key@ != key@,
                    decreases v.len() - j,
                {
                    if v[j].key == wanted {
                        let found = &v[j];
                        return Ok(found);
                    }
                    j = j + 1;
                }
                Err(VdfError::ValueNotFound(wanted, self.key.clone()))
            },
            VdfValue::String(_) => Err(
                VdfError::ValueNotFound(String::from_str(key), self.key.clone()),
            ),
        }
    }
}

/// The models of a sequence of attributes.
pub open spec fn attrs_view(s: Seq<VdfAttribute>) -> Seq<AttrModel>
    decreases s,
{
    if s.len() == 0 {
        Seq::empty()
    } else {
        attrs_view(s.drop_last()).push(s.last().view())
    }
}

/// `attrs_view` maps each attribute to its model, one for one.
pub proof fn lemma_attrs_view(s: Seq<VdfAttribute>)
    ensures
        attrs_view(s).len() == s.len(),
        forall|i: int| 0 <= i < s.len() ==> #[trigger] attrs_view(s)[i] == s[i].view(),
    decreases s.len(),
{
    if s.len() > 0 {
        lemma_attrs_view(s.drop_last());
    }
}

} // verus!
