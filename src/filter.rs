//! The pre-parse content filter: which raw feed items are posts worth
//! decoding.

use vstd::prelude::*;
use crate::chars::chars_of;
use crate::json::{Json, field};

verus! {

/// The prefix of `systemPostTypeClass` that marks a post of the platform itself.
pub const SYSTEM_POST_PREFIX: &'static str = "Daycare.";

/// Whether `s` starts with `prefix`.
pub open spec fn starts_with(s: Seq<char>, prefix: Seq<char>) -> bool {
    prefix.len() <= s.len() && s.subrange(0, prefix.len() as int) == prefix
}

/// Whether a raw feed item is a meta post: its `systemPostTypeClass` is a
/// string that starts with the administrative prefix.
pub open spec fn is_meta_item(j: Json) -> bool {
    match field(j, "systemPostTypeClass"@) {
        Json::Str(class) => starts_with(class@, SYSTEM_POST_PREFIX@),
        _ => false,
    }
}

/// Whether a raw feed item has a body: one that is neither `null` (or absent)
/// nor the empty string.
pub open spec fn has_body(j: Json) -> bool {
    match field(j, "body"@) {
        Json::Null => false,
        Json::Str(body) => body@.len() > 0,
        _ => true,
    }
}

/// Whether the pre-parse filter lets a raw feed item through to be decoded.
pub open spec fn is_content(j: Json) -> bool {
    !is_meta_item(j) && has_body(j)
}

/// Whether `s` starts with `prefix`.
pub fn has_prefix(s: &str, prefix: &str) -> (r: bool)
    ensures
        r == starts_with(s@, prefix@),
{
    let cs = chars_of(s);
    let ps = chars_of(prefix);
    if ps.len() > cs.len() {
        return false;
    }
    let mut i: usize = 0;
    while i < ps.len()
        invariant
            ps@ == prefix@,
            cs@ == s@,
            ps@.len() <= cs@.len(),
            i <= ps@.len(),
            forall|k: int| 0 <= k < i ==> cs@[k] == ps@[k],
        decreases ps.len() - i,
    {
        if cs[i] != ps[i] {
            proof {
                assert(cs@.subrange(0, ps@.len() as int)[i as int] != ps@[i as int]);
            }
            return false;
        }
        i = i + 1;
    }
    proof {
        assert(cs@.subrange(0, ps@.len() as int) =~= ps@);
    }
    true
}

/// The pre-parse filter: false for meta posts of the platform (closures,
/// notices) and for items without a body (invitations). It never fails: an
/// absent `systemPostTypeClass` is an ordinary post.
pub fn is_content_item(item: &Json) -> (r: bool)
    ensures
        r == is_content(*item),
{
    let meta = match item.get("systemPostTypeClass") {
        Some(Json::Str(class)) => has_prefix(class.as_str(), SYSTEM_POST_PREFIX),
        _ => false,
    };
    if meta {
        return false;
    }
    match item.get("body") {
        None => false,
        Some(Json::Null) => false,
        Some(Json::Str(body)) => body.as_str().unicode_len() > 0,
        Some(_) => true,
    }
}

} // verus!
