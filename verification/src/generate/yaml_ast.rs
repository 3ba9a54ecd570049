//! The recursive value that the YAML reader produces.

use vstd::prelude::*;
use crate::text::{left, str_eq};

verus! {

/// A YAML value of the supported subset.
#[derive(Debug, PartialEq)]
pub enum YamlValue {
    /// A scalar string value, plain or quoted.
    Scalar(String),
    /// An ordered mapping of string keys to values.
    Mapping(Vec<(String, YamlValue)>),
    /// A sequence of values.
    Sequence(Vec<YamlValue>),
}

pub ghost enum YamlView {
    Scalar(Seq<char>),
    Mapping(Seq<(Seq<char>, YamlView)>),
    Sequence(Seq<YamlView>),
}

/// The views of a sequence of values.
pub open spec fn yamls_view(s: Seq<YamlValue>) -> Seq<YamlView>
    decreases s,
{
    Seq::new(s.len(), |i: int| if 0 <= i < s.len() { s[i].model() } else { arbitrary() })
}

/// The views of a sequence of key/value pairs.
pub open spec fn yaml_pairs_view(s: Seq<(String, YamlValue)>) -> Seq<(Seq<char>, YamlView)>
    decreases s,
{
    Seq::new(
        s.len(),
        |i: int| if 0 <= i < s.len() { (s[i].0@, s[i].1.model()) } else { arbitrary() },
    )
}

impl YamlValue {
    pub open spec fn model(self) -> YamlView
        decreases self,
    {
        match self {
            YamlValue::Scalar(s) => YamlView::Scalar(s@),
            YamlValue::Mapping(pairs) => YamlView::Mapping(yaml_pairs_view(pairs@)),
            YamlValue::Sequence(items) => YamlView::Sequence(yamls_view(items@)),
        }
    }
}

impl View for YamlValue {
    type V = YamlView;

    open spec fn view(&self) -> YamlView {
        self.model()
    }
}

pub broadcast proof fn lemma_yamls_view_push(s: Seq<YamlValue>, x: YamlValue)
    ensures
        #[trigger] yamls_view(s.push(x)) == yamls_view(s).push(x@),
{
    assert(yamls_view(s.push(x)) =~= yamls_view(s).push(x@));
}

pub broadcast proof fn lemma_yamls_view_empty()
    ensures
        #[trigger] yamls_view(Seq::<YamlValue>::empty()) == Seq::<YamlView>::empty(),
{
    assert(yamls_view(Seq::<YamlValue>::empty()) =~= Seq::<YamlView>::empty());
}

pub broadcast proof fn lemma_yaml_pairs_view_push(s: Seq<(String, YamlValue)>, x: (String, YamlValue))
    ensures
        #[trigger] yaml_pairs_view(s.push(x)) == yaml_pairs_view(s).push((x.0@, x.1@)),
{
    assert(yaml_pairs_view(s.push(x)) =~= yaml_pairs_view(s).push((x.0@, x.1@)));
}

pub broadcast proof fn lemma_yaml_pairs_view_empty()
    ensures
        #[trigger] yaml_pairs_view(Seq::<(String, YamlValue)>::empty()) == Seq::<
            (Seq<char>, YamlView),
        >::empty(),
{
    assert(yaml_pairs_view(Seq::<(String, YamlValue)>::empty()) =~= Seq::<
        (Seq<char>, YamlView),
    >::empty());
}

pub broadcast group group_yaml_views {
    lemma_yamls_view_push,
    lemma_yamls_view_empty,
    lemma_yaml_pairs_view_push,
    lemma_yaml_pairs_view_empty,
}

/// The value under the first key `key` from `i` on.
pub open spec fn lookup(pairs: Seq<(Seq<char>, YamlView)>, key: Seq<char>, i: int) -> Option<
    YamlView,
>
    decreases left(pairs.len(), i),
{
    if 0 <= i < pairs.len() {
        if pairs[i].0 == key {
            Some(pairs[i].1)
        } else {
            lookup(pairs, key, i + 1)
        }
    } else {
        None
    }
}

/// The value under `key` in a mapping; nothing in any other value.
pub open spec fn get_spec(v: YamlView, key: Seq<char>) -> Option<YamlView> {
    match v {
        YamlView::Mapping(pairs) => lookup(pairs, key, 0),
        _ => None,
    }
}

/// The text of a scalar.
pub open spec fn scalar_spec(v: YamlView) -> Option<Seq<char>> {
    match v {
        YamlView::Scalar(s) => Some(s),
        _ => None,
    }
}

impl YamlValue {
    /// The text of a scalar.
    pub fn as_scalar(&self) -> (r: Option<&str>)
        ensures
            match r {
                Some(s) => self@ == YamlView::Scalar(s@),
                None => !(self@ is Scalar),
            },
    {
        match self {
            YamlValue::Scalar(s) => Some(s.as_str()),
            _ => None,
        }
    }

    /// The pairs of a mapping.
    pub fn as_mapping(&self) -> (r: Option<&[(String, YamlValue)]>)
        ensures
            match r {
                Some(m) => self@ == YamlView::Mapping(yaml_pairs_view(m@)),
                None => !(self@ is Mapping),
            },
    {
        match self {
            YamlValue::Mapping(m) => Some(m.as_slice()),
            _ => None,
        }
    }

    /// The items of a sequence.
    pub fn as_sequence(&self) -> (r: Option<&[YamlValue]>)
        ensures
            match r {
                Some(s) => self@ == YamlView::Sequence(yamls_view(s@)),
                None => !(self@ is Sequence),
            },
    {
        match self {
            YamlValue::Sequence(s) => Some(s.as_slice()),
            _ => None,
        }
    }

    /// The pairs of a mapping.
    pub fn pairs(&self) -> (r: Option<&Vec<(String, YamlValue)>>)
        ensures
            match r {
                Some(m) => self@ == YamlView::Mapping(yaml_pairs_view(m@)) && *self
                    == YamlValue::Mapping(*m),
                None => !(self@ is Mapping),
            },
    {
        match self {
            YamlValue::Mapping(m) => Some(m),
            _ => None,
        }
    }

    /// The items of a sequence.
    pub fn items(&self) -> (r: Option<&Vec<YamlValue>>)
        ensures
            match r {
                Some(s) => self@ == YamlView::Sequence(yamls_view(s@)) && *self
                    == YamlValue::Sequence(*s),
                None => !(self@ is Sequence),
            },
    {
        match self {
            YamlValue::Sequence(s) => Some(s),
            _ => None,
        }
    }

    /// Looks up a key in a mapping: the value of the first pair under that key.
    pub fn get(&self, key: &str) -> (r: Option<&YamlValue>)
        ensures
            match r {
                Some(v) => get_spec(self@, key@) == Some(v@),
                None => get_spec(self@, key@).is_none(),
            },
    {
        match self {
            YamlValue::Mapping(pairs) => {
                let ghost vs = yaml_pairs_view(pairs@);
                let mut i: usize = 0;
                while i < pairs.len()
                    invariant
                        i <= pairs.len(),
                        lookup(vs, key@, i as int) == lookup(vs, key@, 0),
                    decreases pairs.len() - i,
                {
                    if str_eq(pairs[i].0.as_str(), key) {
                        return Some(&pairs[i].1);
                    }
                    i += 1;
                }
                None
            },
            _ => None,
        }
    }
}

} // verus!
