//! Values fetched from secrets of the cluster.

use crate::crypto::b64::{base64_decode, base64_decode_spec};
use crate::crypto::field::{string_from_utf8, utf8_text};
use crate::error::{text_result, Error};
use crate::text::{chars_of, str_eq, string_of};
use vstd::prelude::*;

verus! {

/// The entry of the first pair from `from` on whose key is `key`.
pub open spec fn data_entry_from(
    data: Seq<(String, Option<String>)>,
    from: int,
    key: Seq<char>,
) -> Option<Option<String>>
    decreases data.len() - from,
{
    if from < 0 || from >= data.len() {
        None
    } else if data[from].0@ == key {
        Some(data[from].1)
    } else {
        data_entry_from(data, from + 1, key)
    }
}

/// `s` without its line feeds.
pub open spec fn without_line_feeds(s: Seq<char>) -> Seq<char>
    decreases s.len(),
{
    if s.len() == 0 {
        seq![]
    } else if s.last() == '\n' {
        without_line_feeds(s.drop_last())
    } else {
        without_line_feeds(s.drop_last()).push(s.last())
    }
}

/// The value of `key` in the data of a cluster secret: the entry, without
/// line feeds, decoded from base64 and read as UTF-8. `data` is `None` where
/// the secret has no data; an entry is `None` where it is no string.
pub open spec fn secret_value_spec(
    data: Option<Vec<(String, Option<String>)>>,
    key: Seq<char>,
) -> Result<Seq<char>, Error> {
    match data {
        None => Err(Error::SecretWithoutData),
        Some(entries) => entry_value_spec(data_entry_from(entries@, 0, key)),
    }
}

/// The value that an entry of the data holds.
pub open spec fn entry_value_spec(entry: Option<Option<String>>) -> Result<Seq<char>, Error> {
    match entry {
        None => Err(Error::SecretKeyNotFound),
        Some(None) => Err(Error::SecretKeyNotFound),
        Some(Some(text)) => match base64_decode_spec(without_line_feeds(text@)) {
            None => Err(Error::InvalidBase64),
            Some(bytes) => match utf8_text(bytes) {
                None => Err(Error::InvalidUtf8),
                Some(s) => Ok(s),
            },
        },
    }
}

/// `s` without its line feeds.
fn strip_line_feeds(s: &str) -> (r: String)
    ensures
        r@ == without_line_feeds(s@),
{
    let chars = chars_of(s);
    let mut out: Vec<char> = Vec::new();
    let mut i: usize = 0;
    assert(chars@.take(0) =~= Seq::<char>::empty());
    while i < chars.len()
        invariant
            i <= chars@.len(),
            out@ == without_line_feeds(chars@.take(i as int)),
        decreases chars@.len() - i,
    {
        assert(chars@.take(i + 1).drop_last() == chars@.take(i as int));
        assert(chars@.take(i + 1).last() == chars@[i as int]);
        if chars[i] != '\n' {
            out.push(chars[i]);
        }
        i += 1;
    }
    assert(chars@.take(chars@.len() as int) == chars@);
    string_of(out.as_slice())
}

/// Reads the value of `key` from the data of a cluster secret.
pub fn get_k8s_secret(data: &Option<Vec<(String, Option<String>)>>, key: &str) -> (r: Result<
    String,
    Error,
>)
    ensures
        text_result(r) == secret_value_spec(*data, key@),
{
    let entries = match data {
        Some(e) => e,
        None => {
            return Err(Error::SecretWithoutData);
        },
    };
    let mut i: usize = 0;
    while i < entries.len()
        invariant
            i <= entries@.len(),
            secret_value_spec(*data, key@) == entry_value_spec(
                data_entry_from(entries@, i as int, key@),
            ),
        decreases entries@.len() - i,
    {
        if str_eq(entries[i].0.as_str(), key) {
            let text = match &entries[i].1 {
                Some(t) => t,
                None => {
                    return Err(Error::SecretKeyNotFound);
                },
            };
            let clean = strip_line_feeds(text.as_str());
            let bytes = match base64_decode(clean.as_str()) {
                Some(b) => b,
                None => {
                    return Err(Error::InvalidBase64);
                },
            };
            return match string_from_utf8(bytes) {
                Some(s) => Ok(s),
                None => Err(Error::InvalidUtf8),
            };
        }
        i += 1;
    }
    Err(Error::SecretKeyNotFound)
}

} // verus!
