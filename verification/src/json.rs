//! JSON text.
//!
//! The crate writes and reads three small kinds of JSON text: a quoted string, a list of
//! strings, and a document that it passes on without looking inside.

use crate::crypto::hex_digit;
use crate::text::{opt_view, texts_view};
use vstd::prelude::*;

verus! {

/// A character as JSON writes it in a string: the quote, the backslash and the control
/// characters below the space are escaped.
pub open spec fn escape(c: char) -> Seq<char> {
    let u = c as int;
    if c == '"' || c == '\\' {
        seq!['\\', c]
    } else if u == 0x8 {
        seq!['\\', 'b']
    } else if u == 0x9 {
        seq!['\\', 't']
    } else if u == 0xa {
        seq!['\\', 'n']
    } else if u == 0xc {
        seq!['\\', 'f']
    } else if u == 0xd {
        seq!['\\', 'r']
    } else if u < 0x20 {
        seq!['\\', 'u', '0', '0', hex_digit(u / 16), hex_digit(u % 16)]
    } else {
        seq![c]
    }
}

/// The characters of a string as JSON writes them.
pub open spec fn escaped(s: Seq<char>) -> Seq<char>
    decreases s.len(),
{
    if s.len() == 0 {
        Seq::empty()
    } else {
        escaped(s.drop_last()) + escape(s.last())
    }
}

/// A string as JSON writes it, quoted and escaped.
pub open spec fn quoted(s: Seq<char>) -> Seq<char> {
    seq!['"'] + escaped(s) + seq!['"']
}

/// Strings as JSON writes them, with commas in between.
pub open spec fn items_text(list: Seq<Seq<char>>) -> Seq<char>
    decreases list.len(),
{
    if list.len() == 0 {
        Seq::empty()
    } else if list.len() == 1 {
        quoted(list[0])
    } else {
        items_text(list.drop_last()) + seq![','] + quoted(list.last())
    }
}

/// A list of strings as JSON writes it.
pub open spec fn list_text(list: Seq<Seq<char>>) -> Seq<char> {
    seq!['['] + items_text(list) + seq![']']
}

/// The list of strings that a JSON text holds, if it holds one.
pub uninterp spec fn list_in(text: Seq<char>) -> Option<Seq<Seq<char>>>;

/// A JSON document written anew without white space, its keys in order; none where the text
/// is not a JSON document.
pub uninterp spec fn compact(text: Seq<char>) -> Option<Seq<char>>;

/// `serde_json::to_string` of a string: the string in quotes, with the quote, the backslash
/// and the control characters escaped and every other character as it is. It does not fail
/// on a string.
#[verifier::external_body]
pub(crate) fn quote(s: &str) -> (r: String)
    ensures
        r@ == quoted(s@),
{
    serde_json::to_string(s).unwrap_or_default()
}

/// `serde_json::to_string` of a list of strings: each quoted and escaped, with commas in
/// between, in square brackets, without white space. It does not fail on strings, and
/// `serde_json::from_str` gives back the list that was written.
#[verifier::external_body]
pub(crate) fn write_list(list: &Vec<String>) -> (r: Option<String>)
    ensures
        r is Some,
        opt_view(r) == Some(list_text(texts_view(list@))),
        r matches Some(text) ==> list_in(text@) == Some(texts_view(list@)),
{
    serde_json::to_string(list).ok()
}

/// `serde_json::from_str` to a list of strings; none where the text is anything else.
#[verifier::external_body]
pub(crate) fn read_list(text: &str) -> (r: Option<Vec<String>>)
    ensures
        r is Some <==> list_in(text@) is Some,
        r matches Some(list) ==> list_in(text@) == Some(texts_view(list@)),
{
    serde_json::from_str(text).ok()
}

/// `serde_json::from_str` to a `Value`, and `Value::to_string` of it.
#[verifier::external_body]
pub(crate) fn rewrite(text: &str) -> (r: Option<String>)
    ensures
        opt_view(r) == compact(text@),
{
    serde_json::from_str::<serde_json::Value>(text).ok().map(|v| v.to_string())
}

} // verus!
