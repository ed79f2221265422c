//! A YAML document tree, as a compose file is read.
use vstd::prelude::*;
use crate::text::str_eq;

verus! {

/// A YAML value. Mappings keep their entries in document order.
#[derive(Debug)]
pub enum YamlValue {
    Null,
    Bool(bool),
    /// A number, in its textual form.
    Number(String),
    String(String),
    Sequence(Vec<YamlValue>),
    Mapping(Vec<(YamlValue, YamlValue)>),
    /// A tagged value: the tag and the value it applies to.
    Tagged(String, Box<YamlValue>),
}

/// The value under any tags.
pub open spec fn untag(v: YamlValue) -> YamlValue
    decreases v,
{
    match v {
        YamlValue::Tagged(_, inner) => untag(*inner),
        _ => v,
    }
}

/// The text of a string value (under any tags).
pub open spec fn yaml_str(v: YamlValue) -> Option<Seq<char>> {
    match untag(v) {
        YamlValue::String(s) => Some(s@),
        _ => None,
    }
}

/// The items of a sequence value (under any tags).
pub open spec fn yaml_items(v: YamlValue) -> Option<Seq<YamlValue>> {
    match untag(v) {
        YamlValue::Sequence(items) => Some(items@),
        _ => None,
    }
}

/// The entries of a mapping value (under any tags).
pub open spec fn yaml_entries(v: YamlValue) -> Option<Seq<(YamlValue, YamlValue)>> {
    match untag(v) {
        YamlValue::Mapping(m) => Some(m@),
        _ => None,
    }
}

/// The value of the first entry whose key is the string `key`.
pub open spec fn entries_get(m: Seq<(YamlValue, YamlValue)>, key: Seq<char>) -> Option<YamlValue>
    decreases m.len(),
{
    if m.len() == 0 {
        None
    } else if (m[0].0 matches YamlValue::String(s) && s@ == key) {
        Some(m[0].1)
    } else {
        entries_get(m.drop_first(), key)
    }
}

/// The value under string key `key` of a mapping value (under any tags).
pub open spec fn yaml_get(v: YamlValue, key: Seq<char>) -> Option<YamlValue> {
    match yaml_entries(v) {
        Some(m) => entries_get(m, key),
        None => None,
    }
}

impl YamlValue {
    /// The value under any tags.
    pub fn untagged(&self) -> (r: &YamlValue)
        ensures
            *r == untag(*self),
        decreases self,
    {
        match self {
            YamlValue::Tagged(_, inner) => inner.untagged(),
            _ => self,
        }
    }

    /// The text of a string value.
    pub fn as_str(&self) -> (r: Option<&String>)
        ensures
            match r {
                Some(s) => yaml_str(*self) == Some(s@),
                None => yaml_str(*self) is None,
            },
    {
        match self.untagged() {
            YamlValue::String(s) => Some(s),
            _ => None,
        }
    }

    /// The items of a sequence value.
    pub fn as_sequence(&self) -> (r: Option<&Vec<YamlValue>>)
        ensures
            match r {
                Some(items) => yaml_items(*self) == Some(items@),
                None => yaml_items(*self) is None,
            },
    {
        match self.untagged() {
            YamlValue::Sequence(items) => Some(items),
            _ => None,
        }
    }

    /// The entries of a mapping value.
    pub fn as_mapping(&self) -> (r: Option<&Vec<(YamlValue, YamlValue)>>)
        ensures
            match r {
                Some(m) => yaml_entries(*self) == Some(m@),
                None => yaml_entries(*self) is None,
            },
    {
        match self.untagged() {
            YamlValue::Mapping(m) => Some(m),
            _ => None,
        }
    }

    /// The value under string key `key`, when this is a mapping.
    pub fn get(&self, key: &str) -> (r: Option<&YamlValue>)
        ensures
            match r {
                Some(v) => yaml_get(*self, key@) == Some(*v),
                None => yaml_get(*self, key@) is None,
            },
    {
        match self.as_mapping() {
            Some(m) => {
                let mut i: usize = 0;
                assert(m@.skip(0) =~= m@);
                while i < m.len()
                    invariant
                        i <= m.len(),
                        yaml_entries(*self) == Some(m@),
                        entries_get(m@, key@) == entries_get(m@.skip(i as int), key@),
                    decreases m.len() - i,
                {
                    let ghost rest = m@.skip(i as int);
                    assert(rest[0] == m@[i as int]);
                    assert(rest.drop_first() =~= m@.skip(i + 1));
                    if let YamlValue::String(s) = &m[i].0 {
                        if str_eq(s.as_str(), key) {
                            assert(entries_get(rest, key@) == Some(rest[0].1));
                            return Some(&m[i].1);
                        }
                    }
                    i = i + 1;
                }
                assert(m@.skip(i as int) =~= Seq::<(YamlValue, YamlValue)>::empty());
                None
            },
            None => None,
        }
    }
}

} // verus!
