//! Values read from YAML files.

use crate::error::{text_result, Error};
use crate::text::{chars_of, split, split_spec, str_eq, string_of, views};
use vstd::prelude::*;

verus! {

/// A YAML document, as far as a key path can lead into it.
#[derive(Debug)]
pub enum YamlValue {
    Null,
    /// A string, or a number or a boolean in the form it is written in.
    Scalar(String),
    Sequence,
    /// The entries whose keys are strings, in the order of the document.
    Mapping(Vec<(String, YamlValue)>),
    /// A value under a tag.
    Tagged(Box<YamlValue>),
}

/// The value without the tags around it.
pub open spec fn untag_spec(v: YamlValue) -> YamlValue
    decreases v,
{
    match v {
        YamlValue::Tagged(inner) => untag_spec(*inner),
        _ => v,
    }
}

/// The value of the first entry from `from` on whose key is `key`.
pub open spec fn entry_from(entries: Seq<(String, YamlValue)>, from: int, key: Seq<char>) -> Option<
    YamlValue,
>
    decreases entries.len() - from,
{
    if from < 0 || from >= entries.len() {
        None
    } else if entries[from].0@ == key {
        Some(entries[from].1)
    } else {
        entry_from(entries, from + 1, key)
    }
}

/// What stands under `key` in a value: the entry of a mapping, with tags
/// around the mapping looked through; nothing in any other value.
pub open spec fn child_spec(v: YamlValue, key: Seq<char>) -> Option<YamlValue> {
    match untag_spec(v) {
        YamlValue::Mapping(entries) => entry_from(entries@, 0, key),
        _ => None,
    }
}

/// Where the keys `parts` lead, from `at` on, starting at `v`.
pub open spec fn descend_spec(v: YamlValue, parts: Seq<Seq<char>>, at: int) -> Option<YamlValue>
    decreases parts.len() - at,
{
    if at < 0 || at >= parts.len() {
        Some(v)
    } else {
        match child_spec(v, parts[at]) {
            Some(c) => descend_spec(c, parts, at + 1),
            None => None,
        }
    }
}

/// The value that a key path names in a document. The path is cut at its
/// dots and followed key by key through the mappings; it must end at a
/// scalar.
pub open spec fn file_value_spec(doc: YamlValue, key_path: Seq<char>) -> Result<Seq<char>, Error> {
    match descend_spec(doc, split_spec(key_path, '.'), 0) {
        None => Err(Error::KeyPathNotFound),
        Some(YamlValue::Scalar(s)) => Ok(s@),
        Some(_) => Err(Error::NotAScalar),
    }
}

/// The value without the tags around it.
fn untag(v: &YamlValue) -> (r: &YamlValue)
    ensures
        *r == untag_spec(*v),
    decreases v,
{
    match v {
        YamlValue::Tagged(inner) => untag(inner),
        _ => v,
    }
}

/// What stands under `key` in a value.
fn child<'a>(v: &'a YamlValue, key: &str) -> (r: Option<&'a YamlValue>)
    ensures
        r matches Some(c) ==> child_spec(*v, key@) == Some(*c),
        r is None ==> child_spec(*v, key@) is None,
{
    match untag(v) {
        YamlValue::Mapping(entries) => {
            let mut i: usize = 0;
            while i < entries.len()
                invariant
                    i <= entries@.len(),
                    child_spec(*v, key@) == entry_from(entries@, i as int, key@),
                decreases entries@.len() - i,
            {
                if str_eq(entries[i].0.as_str(), key) {
                    return Some(&entries[i].1);
                }
                i += 1;
            }
            None
        },
        _ => None,
    }
}

/// Reads the value that a key path names in a YAML document: a string, a
/// number or a boolean, in the form it is written in.
pub fn get_file_value(doc: &YamlValue, key_path: &str) -> (r: Result<String, Error>)
    ensures
        text_result(r) == file_value_spec(*doc, key_path@),
{
    let path = chars_of(key_path);
    let parts = split(path.as_slice(), '.');
    let mut current: &YamlValue = doc;
    let mut i: usize = 0;
    while i < parts.len()
        invariant
            i <= parts@.len(),
            views(parts@) == split_spec(key_path@, '.'),
            descend_spec(*doc, views(parts@), 0) == descend_spec(*current, views(parts@), i as int),
        decreases parts@.len() - i,
    {
        let part = string_of(parts[i].as_slice());
        assert(views(parts@)[i as int] == parts@[i as int]@);
        match child(current, part.as_str()) {
            Some(c) => {
                current = c;
            },
            None => {
                return Err(Error::KeyPathNotFound);
            },
        }
        i += 1;
    }
    match current {
        YamlValue::Scalar(s) => Ok(s.clone()),
        _ => Err(Error::NotAScalar),
    }
}

} // verus!
