//! Values of data documents (JSON, TOML, YAML) as the readers of
//! `package.json`, `pyproject.toml` and workflow files see them.

use vstd::prelude::*;

verus! {

/// A value of a data document. Mapping entries keep the order of the
/// document; a document's parser never gives a mapping two equal keys.
#[derive(Debug)]
pub enum DataValue {
    Null,
    Bool(bool),
    /// A number, written as its parser writes it.
    Number(String),
    /// A string.
    Text(String),
    Sequence(Vec<DataValue>),
    /// The entries of a mapping (a JSON object, a TOML table), in order.
    Mapping(Vec<(DataValue, DataValue)>),
    /// A YAML value with a `!tag`: the tag and the value.
    Tagged(String, Box<DataValue>),
    /// Another scalar (a TOML date or time), written as its parser writes it.
    Other(String),
}

/// The value under any tags.
pub open spec fn untagged(v: DataValue) -> DataValue
    decreases v,
{
    match v {
        DataValue::Tagged(_, inner) => untagged(*inner),
        _ => v,
    }
}

/// The entries of `v` when it is a mapping (under any tags).
pub open spec fn mapping_of(v: DataValue) -> Option<Seq<(DataValue, DataValue)>> {
    match untagged(v) {
        DataValue::Mapping(m) => Some(m@),
        _ => None,
    }
}

/// The elements of `v` when it is a sequence (under any tags).
pub open spec fn sequence_of(v: DataValue) -> Option<Seq<DataValue>> {
    match untagged(v) {
        DataValue::Sequence(s) => Some(s@),
        _ => None,
    }
}

/// The string `v` holds (under any tags).
pub open spec fn text_of_value(v: DataValue) -> Option<Seq<char>> {
    match untagged(v) {
        DataValue::Text(s) => Some(s@),
        _ => None,
    }
}

/// `k` is the string key `key` (with no tag).
pub open spec fn is_key(k: DataValue, key: Seq<char>) -> bool {
    k matches DataValue::Text(s) && s@ == key
}

/// The value of the first entry whose key is the string `key`.
pub open spec fn lookup(entries: Seq<(DataValue, DataValue)>, key: Seq<char>) -> Option<DataValue>
    decreases entries.len(),
{
    if entries.len() == 0 {
        None
    } else if is_key(entries[0].0, key) {
        Some(entries[0].1)
    } else {
        lookup(entries.drop_first(), key)
    }
}

/// An entry under another key, inserted anywhere among the entries, does not
/// change what a key looks up.
pub proof fn lemma_lookup_ignores_other_key(
    entries: Seq<(DataValue, DataValue)>,
    i: int,
    extra: (DataValue, DataValue),
    key: Seq<char>,
)
    requires
        0 <= i <= entries.len(),
        !is_key(extra.0, key),
    ensures
        lookup(entries.insert(i, extra), key) == lookup(entries, key),
    decreases i,
{
    let e = entries.insert(i, extra);
    if i == 0 {
        assert(e[0] == extra);
        assert(e.drop_first() =~= entries);
    } else {
        assert(e[0] == entries[0]);
        if !is_key(entries[0].0, key) {
            lemma_lookup_ignores_other_key(entries.drop_first(), i - 1, extra, key);
            assert(e.drop_first() =~= entries.drop_first().insert(i - 1, extra));
        }
    }
}

/// The value under the string key `key` of `v`, when `v` is a mapping.
pub open spec fn member(v: DataValue, key: Seq<char>) -> Option<DataValue> {
    match mapping_of(v) {
        Some(m) => lookup(m, key),
        None => None,
    }
}

/// The value under any tags.
pub fn untag(v: &DataValue) -> (r: &DataValue)
    ensures
        *r == untagged(*v),
    decreases v,
{
    match v {
        DataValue::Tagged(_, inner) => untag(&**inner),
        _ => v,
    }
}

impl DataValue {
    /// The entries of this value when it is a mapping.
    pub fn as_mapping(&self) -> (r: Option<&Vec<(DataValue, DataValue)>>)
        ensures
            match r {
                Some(m) => mapping_of(*self) == Some(m@),
                None => mapping_of(*self) is None,
            },
    {
        match untag(self) {
            DataValue::Mapping(m) => Some(m),
            _ => None,
        }
    }

    /// The elements of this value when it is a sequence.
    pub fn as_sequence(&self) -> (r: Option<&Vec<DataValue>>)
        ensures
            match r {
                Some(s) => sequence_of(*self) == Some(s@),
                None => sequence_of(*self) is None,
            },
    {
        match untag(self) {
            DataValue::Sequence(s) => Some(s),
            _ => None,
        }
    }

    /// The string this value holds.
    pub fn as_str(&self) -> (r: Option<&str>)
        ensures
            match r {
                Some(s) => text_of_value(*self) == Some(s@),
                None => text_of_value(*self) is None,
            },
    {
        match untag(self) {
            DataValue::Text(s) => Some(s.as_str()),
            _ => None,
        }
    }

    /// The value under the string key `key`, when this value is a mapping.
    pub fn get(&self, key: &str) -> (r: Option<&DataValue>)
        ensures
            match r {
                Some(v) => member(*self, key@) == Some(*v),
                None => member(*self, key@) is None,
            },
    {
        match self.as_mapping() {
            Some(m) => mapping_get(m, key),
            None => None,
        }
    }
}

/// The value of the first entry of `entries` whose key is the string `key`.
pub fn mapping_get<'a>(entries: &'a Vec<(DataValue, DataValue)>, key: &str) -> (r: Option<
    &'a DataValue,
>)
    ensures
        match r {
            Some(v) => lookup(entries@, key@) == Some(*v),
            None => lookup(entries@, key@) is None,
        },
{
    let wanted = key.to_owned();
    let mut i: usize = 0;
    assert(entries@.skip(0) =~= entries@);
    while i < entries.len()
        invariant
            i <= entries@.len(),
            wanted@ == key@,
            lookup(entries@, key@) == lookup(entries@.skip(i as int), key@),
        decreases entries.len() - i,
    {
        assert(entries@.skip(i as int)[0] == entries@[i as int]);
        let found = match &entries[i].0 {
            DataValue::Text(s) => s.eq(&wanted),
            _ => false,
        };
        if found {
            return Some(&entries[i].1);
        }
        assert(entries@.skip(i as int).drop_first() =~= entries@.skip(i + 1));
        i = i + 1;
    }
    None
}

} // verus!
