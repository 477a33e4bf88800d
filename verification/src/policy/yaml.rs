use vstd::prelude::*;

use crate::text::str_eq;

verus! {

/// A YAML number as the YAML reader gave it.
#[derive(Debug)]
pub enum YamlNumber {
    /// A non-negative integer
    PosInt(u64),
    /// A negative integer
    NegInt(i64),
    /// A floating-point number, by its text
    Float(String),
}

/// A YAML value: the structure of a parsed YAML document.
#[derive(Debug)]
pub enum YamlValue {
    /// `null` or an empty value
    Null,
    /// A boolean
    Bool(bool),
    /// A number
    Number(YamlNumber),
    /// A string
    String(String),
    /// A sequence of values
    Sequence(Vec<YamlValue>),
    /// A mapping, as its entries in document order
    Mapping(Vec<(YamlValue, YamlValue)>),
    /// A value with a `!tag`
    Tagged(String, Box<YamlValue>),
}

/// The key `k` of a mapping entry is the string `key`.
pub open spec fn key_is(k: YamlValue, key: Seq<char>) -> bool {
    match k {
        YamlValue::String(s) => s@ == key,
        _ => false,
    }
}

/// The value that a mapping holds under the string key `key`: the first entry with it.
pub open spec fn spec_mapping_get(entries: Seq<(YamlValue, YamlValue)>, key: Seq<char>) -> Option<
    YamlValue,
>
    decreases entries.len(),
{
    if entries.len() == 0 {
        None
    } else if key_is(entries[0].0, key) {
        Some(entries[0].1)
    } else {
        spec_mapping_get(entries.drop_first(), key)
    }
}

/// The value under any `!tag`s.
pub open spec fn untagged(v: YamlValue) -> YamlValue
    decreases v,
{
    match v {
        YamlValue::Tagged(_, inner) => untagged(*inner),
        _ => v,
    }
}

impl YamlValue {
    /// The value under any `!tag`s.
    pub fn untag_ref(&self) -> (r: &YamlValue)
        ensures
            *r == untagged(*self),
        decreases self,
    {
        match self {
            YamlValue::Tagged(_, inner) => inner.untag_ref(),
            _ => self,
        }
    }

    /// The entries of a mapping (under any tags), or `None` for any other value.
    pub fn as_mapping(&self) -> (r: Option<&Vec<(YamlValue, YamlValue)>>)
        ensures
            match untagged(*self) {
                YamlValue::Mapping(m) => r == Some(&m),
                _ => r is None,
            },
    {
        match self.untag_ref() {
            YamlValue::Mapping(m) => Some(m),
            _ => None,
        }
    }

    /// The text of a string value (under any tags), or `None` for any other value.
    pub fn as_str(&self) -> (r: Option<&str>)
        ensures
            match untagged(*self) {
                YamlValue::String(s) => r is Some && r->0@ == s@,
                _ => r is None,
            },
    {
        match self.untag_ref() {
            YamlValue::String(s) => Some(s.as_str()),
            _ => None,
        }
    }
}

/// Look up the string key `key` in the entries of a mapping.
pub fn mapping_get<'a>(entries: &'a Vec<(YamlValue, YamlValue)>, key: &str) -> (r: Option<
    &'a YamlValue,
>)
    ensures
        r == match spec_mapping_get(entries@, key@) {
            Some(v) => Some(&v),
            None => None::<&YamlValue>,
        },
{
    let mut i: usize = 0;
    assert(entries@.subrange(0, entries.len() as int) =~= entries@);
    while i < entries.len()
        invariant
            i <= entries.len(),
            spec_mapping_get(entries@, key@) == spec_mapping_get(
                entries@.subrange(i as int, entries.len() as int),
                key@,
            ),
        decreases entries.len() - i,
    {
        let ghost rest = entries@.subrange(i as int, entries.len() as int);
        assert(rest.drop_first() =~= entries@.subrange(i + 1, entries.len() as int));
        let hit = match &entries[i].0 {
            YamlValue::String(s) => str_eq(s.as_str(), key),
            _ => false,
        };
        if hit {
            return Some(&entries[i].1);
        }
        i = i + 1;
    }
    None
}

} // verus!
