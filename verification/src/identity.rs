//! Conversation identity: a stable identifier is derived from an inbound
//! header value by replacing every character outside `[a-zA-Z0-9]` with `-`
//! and truncating to 48 code points.

use vstd::prelude::*;
use vstd::string::StrSliceExecFns;

use crate::text::{eq_ignore_ascii_case, first_x_chars, is_ascii_alnum, is_ascii_alnum_char,
    str_ieq};

verus! {

/// Each character kept when alphanumeric, replaced by `-` otherwise.
pub open spec fn normalize_spec(s: Seq<char>) -> Seq<char> {
    s.map_values(
        |c: char|
            if is_ascii_alnum_char(c) {
                c
            } else {
                '-'
            },
    )
}

/// The derived conversation identifier: normalized, then truncated to 48
/// code points.
pub open spec fn conversation_id_spec(h: Seq<char>) -> Seq<char> {
    if normalize_spec(h).len() <= 48 {
        normalize_spec(h)
    } else {
        normalize_spec(h).take(48)
    }
}

/// Replace every character outside `[a-zA-Z0-9]` with `-`.
pub fn alpha_numeric(s: &str) -> (r: String)
    ensures
        r@ == normalize_spec(s@),
{
    let n = s.unicode_len();
    let mut out = String::new();
    let mut i: usize = 0;
    while i < n
        invariant
            n == s@.len(),
            i <= n,
            out@ == normalize_spec(s@.take(i as int)),
        decreases n - i,
    {
        let c = s.get_char(i);
        let d = if is_ascii_alnum(c) {
            c
        } else {
            '-'
        };
        out.push(d);
        proof {
            assert(normalize_spec(s@.take(i + 1)) =~= normalize_spec(s@.take(i as int)).push(d));
        }
        i = i + 1;
    }
    proof {
        assert(s@.take(n as int) == s@);
    }
    out
}

/// Derive the conversation identifier from one header value.
pub fn conversation_id(h: &str) -> (r: String)
    ensures
        r@ == conversation_id_spec(h@),
{
    let normalized = alpha_numeric(h);
    first_x_chars(normalized.as_str(), 48)
}

/// The value of the first header named `x-conversation-name` (ASCII case
/// folded); empty when no header matches.
pub open spec fn conversation_header_value(headers: Seq<(String, String)>) -> Seq<char>
    decreases headers.len(),
{
    if headers.len() == 0 {
        Seq::<char>::empty()
    } else if str_ieq(headers[0].0@, "x-conversation-name"@) {
        headers[0].1@
    } else {
        conversation_header_value(headers.drop_first())
    }
}

/// Scan the inbound headers and derive the conversation identifier from the
/// first `x-conversation-name` value; an absent header yields the empty
/// identifier.
pub fn conversation_id_from_headers(headers: &Vec<(String, String)>) -> (r: String)
    ensures
        r@ == conversation_id_spec(conversation_header_value(headers@)),
{
    let n = headers.len();
    let mut i: usize = 0;
    proof {
        assert(headers@.skip(0) =~= headers@);
    }
    while i < n
        invariant
            n == headers@.len(),
            i <= n,
            conversation_header_value(headers@) == conversation_header_value(
                headers@.skip(i as int),
            ),
            forall|j: int| 0 <= j < i ==> !str_ieq(headers@[j].0@, "x-conversation-name"@),
        decreases n - i,
    {
        proof {
            assert(headers@.skip(i as int)[0] == headers@[i as int]);
        }
        if eq_ignore_ascii_case(headers[i].0.as_str(), "x-conversation-name") {
            return conversation_id(headers[i].1.as_str());
        }
        proof {
            assert(headers@.skip(i as int).drop_first() =~= headers@.skip(i + 1));
        }
        i = i + 1;
    }
    proof {
        assert(headers@.skip(n as int) =~= Seq::<(String, String)>::empty());
    }
    let empty = String::new();
    proof {
        assert(conversation_id_spec(Seq::<char>::empty()) =~= Seq::<char>::empty());
    }
    empty
}

/// Identity normalization: for any header value, the derived conversation
/// identifier contains only ASCII alphanumerics and `-`, and is at most 48
/// code points long.
pub proof fn lemma_conversation_id_normalized(h: Seq<char>)
    ensures
        conversation_id_spec(h).len() <= 48,
        forall|i: int|
            0 <= i < conversation_id_spec(h).len() ==> is_ascii_alnum_char(
                #[trigger] conversation_id_spec(h)[i],
            ) || conversation_id_spec(h)[i] == '-',
{
    let id = conversation_id_spec(h);
    assert forall|i: int| 0 <= i < id.len() implies is_ascii_alnum_char(#[trigger] id[i])
        || id[i] == '-' by {
        assert(id[i] == normalize_spec(h)[i]);
    }
}

} // verus!
