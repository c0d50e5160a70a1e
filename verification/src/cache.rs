//! Deciding whether a cache file is worth loading.
use vstd::prelude::*;
use crate::text::{chars_of, is_white_space, is_whitespace_char};

verus! {

/// The top level of a JSON document: `null`, an array of some length, or
/// anything else.
#[derive(Debug, PartialEq, Eq, Clone, Copy, Structural)]
pub enum JsonTop {
    Null,
    Array(usize),
    Other,
}

/// The top level of the JSON document `text`, as serde_json reads it; `None`
/// when serde_json rejects the text.
pub uninterp spec fn json_top(text: Seq<char>) -> Option<JsonTop>;

/// Reads `text` with serde_json (`serde_json::from_str::<serde_json::Value>`)
/// and reports its top level. The contract names the outcome `json_top(text)`
/// and says nothing about which texts serde_json accepts.
#[verifier::external_body]
fn parse_json_top(text: &str) -> (top: Option<JsonTop>)
    ensures
        top == json_top(text@),
{
    match serde_json::from_str::<serde_json::Value>(text) {
        Ok(serde_json::Value::Null) => Some(JsonTop::Null),
        Ok(serde_json::Value::Array(items)) => Some(JsonTop::Array(items.len())),
        Ok(_) => Some(JsonTop::Other),
        Err(_) => None,
    }
}

/// All characters of `s` are white space (so trimming leaves nothing).
pub open spec fn all_white(s: Seq<char>) -> bool {
    forall|i: int| 0 <= i < s.len() ==> is_white_space(#[trigger] s[i])
}

/// A parsed document is worth loading when it is JSON and is neither `null`
/// nor an empty array.
pub open spec fn top_worth_loading(top: Option<JsonTop>) -> bool {
    match top {
        Some(JsonTop::Null) => false,
        Some(JsonTop::Array(n)) => n != 0,
        Some(JsonTop::Other) => true,
        None => false,
    }
}

/// A document is worth loading when it is not blank and its top level is
/// worth loading.
pub open spec fn worth_loading(text: Seq<char>) -> bool {
    !all_white(text) && top_worth_loading(json_top(text))
}

/// Whether a document whose top level serde_json read as `top` (`None` when
/// it was rejected) is worth loading.
pub fn json_top_worth_loading(top: Option<JsonTop>) -> (ok: bool)
    ensures
        ok == top_worth_loading(top),
{
    match top {
        Some(JsonTop::Null) => false,
        Some(JsonTop::Array(len)) => len != 0,
        Some(JsonTop::Other) => true,
        None => false,
    }
}

/// Whether a cache file with content `content` (`None` when it could not be
/// read) holds data worth loading.
pub fn is_json_valid_and_not_empty(content: Option<&str>) -> (ok: bool)
    ensures
        ok == match content {
            None => false,
            Some(text) => worth_loading(text@),
        },
{
    match content {
        None => false,
        Some(text) => {
            let cs = chars_of(text);
            let n = cs.len();
            let mut blank = true;
            for i in 0..n
                invariant
                    n == cs@.len(),
                    cs@ == text@,
                    blank == (forall|k: int| 0 <= k < i ==> is_white_space(#[trigger] text@[k])),
            {
                if !is_whitespace_char(cs[i]) {
                    blank = false;
                }
            }
            if blank {
                return false;
            }
            json_top_worth_loading(parse_json_top(text))
        },
    }
}

} // verus!
