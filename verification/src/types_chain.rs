use vstd::prelude::*;
use vstd::string::StrSliceExecFns;
use crate::content_type::ContentType;
use crate::content_type::chain_num;
use crate::content_type::chain_pop;
use crate::content_type::chain_push;
use crate::content_type::chain_render;
use crate::content_type::chain_subtype;
use crate::content_type::lemma_parse_offsets_wf;
use crate::content_type::lemma_wrap_unwrap_render;
use crate::content_type::parse_offsets;
use crate::header::HeaderSeq;
use crate::header::ReadHeader;
use crate::header::content_type_key;
use crate::header::lookup;
use crate::message::Request;
use crate::message::Response;
use crate::text::find_from;
use crate::text::str_eq;

verus! {

/// A character http header values accept: horizontal tab, or anything from
/// space upward except DEL.
pub open spec fn valid_header_char(c: char) -> bool {
    c == '\t' || (c as u32 >= 32 && c as u32 != 127)
}

/// Whether a rendered chain is a syntactically valid header value.
pub open spec fn valid_header_value(s: Seq<char>) -> bool {
    forall|i: int| 0 <= i < s.len() ==> valid_header_char(#[trigger] s[i])
}

pub fn is_valid_header_value(s: &str) -> (r: bool)
    ensures
        r == valid_header_value(s@),
{
    let n = s.unicode_len();
    let mut i: usize = 0;
    while i < n
        invariant
            i <= n,
            n == s@.len(),
            forall|k: int| 0 <= k < i ==> valid_header_char(#[trigger] s@[k]),
        decreases n - i,
    {
        let c = s.get_char(i);
        let v = c as u32;
        if !(c == '\t' || (v >= 32 && v != 127)) {
            return false;
        }
        i = i + 1;
    }
    true
}

/// What unwrapping a tag from a raw content-type string yields: the
/// rendered chain with that tag popped, provided the string's last tag is
/// exactly `tag` and the remainder is a valid header value.
pub open spec fn spec_unwrap_ct(ct: Seq<char>, tag: Seq<char>) -> Option<Seq<char>> {
    let offs = parse_offsets(ct);
    if chain_num(offs) > 0 && chain_subtype(ct, offs, chain_num(offs) - 1) == tag {
        let rem = chain_render(chain_pop(ct, offs).0, chain_pop(ct, offs).1);
        if valid_header_value(rem) {
            Some(rem)
        } else {
            None
        }
    } else {
        None
    }
}

/// What wrapping a tag onto a raw content-type string yields: the rendered
/// chain with that tag pushed, provided the result is a valid header value.
pub open spec fn spec_wrap_ct(ct: Seq<char>, tag: Seq<char>) -> Option<Seq<char>> {
    let s1 = chain_push(ct, parse_offsets(ct), tag);
    let rend = chain_render(s1.0, s1.1);
    if valid_header_value(rend) {
        Some(rend)
    } else {
        None
    }
}

/// Unwrapping over a header list: read `Content-Type` first; absence means
/// there is nothing to unwrap.
pub open spec fn spec_unwrap_type(hs: HeaderSeq, tag: Seq<char>) -> Option<Seq<char>> {
    match lookup(hs, content_type_key()) {
        Some(ct) => spec_unwrap_ct(ct, tag),
        None => None,
    }
}

/// Wrapping over a header list: wrapping needs a pre-existing type to
/// extend.
pub open spec fn spec_wrap_type(hs: HeaderSeq, tag: Seq<char>) -> Option<Seq<char>> {
    match lookup(hs, content_type_key()) {
        Some(ct) => spec_wrap_ct(ct, tag),
        None => None,
    }
}

/// Core of the unwrap protocol on a raw content-type string.
pub fn unwrap_type_str(mimetype: &str, subtype: &str) -> (r: Option<String>)
    ensures
        (match r {
            Some(v) => spec_unwrap_ct(mimetype@, subtype@) == Some(v@),
            None => spec_unwrap_ct(mimetype@, subtype@) is None,
        }),
{
    let mut ct = ContentType::new(mimetype);
    let tag_matches = match ct.last_subtype() {
        Some(t) => str_eq(t, subtype),
        None => false,
    };
    if tag_matches {
        ct.pop_subtype();
        let rendered = ct.as_ref();
        if is_valid_header_value(rendered) {
            return Some(rendered.to_owned());
        }
    }
    None
}

/// Core of the wrap protocol on a raw content-type string.
pub fn wrap_type_str(mimetype: &str, subtype: &str) -> (r: Option<String>)
    ensures
        (match r {
            Some(v) => spec_wrap_ct(mimetype@, subtype@) == Some(v@),
            None => spec_wrap_ct(mimetype@, subtype@) is None,
        }),
{
    let mut ct = ContentType::new(mimetype);
    ct.push_subtype(subtype);
    let rendered = ct.as_ref();
    if is_valid_header_value(rendered) {
        Some(rendered.to_owned())
    } else {
        None
    }
}

/// Asking a message for its content type with the last chain tag removed,
/// when that tag is `subtype`.
pub trait UnwrapType: ReadHeader {
    fn unwrap_type(&self, subtype: &str) -> (r: Option<String>)
        ensures
            (match r {
                Some(v) => spec_unwrap_type(self.hdrs(), subtype@) == Some(v@),
                None => spec_unwrap_type(self.hdrs(), subtype@) is None,
            }),
    ;
}

/// Asking a message for its content type with `subtype` appended to the
/// chain.
pub trait WrapType: ReadHeader {
    fn wrap_type(&self, subtype: &str) -> (r: Option<String>)
        ensures
            (match r {
                Some(v) => spec_wrap_type(self.hdrs(), subtype@) == Some(v@),
                None => spec_wrap_type(self.hdrs(), subtype@) is None,
            }),
    ;
}

impl<T> UnwrapType for Request<T> {
    fn unwrap_type(&self, subtype: &str) -> (r: Option<String>) {
        match self.get_header_str("Content-Type") {
            Some(mimetype) => unwrap_type_str(mimetype, subtype),
            None => None,
        }
    }
}

impl<T> UnwrapType for Response<T> {
    fn unwrap_type(&self, subtype: &str) -> (r: Option<String>) {
        match self.get_header_str("Content-Type") {
            Some(mimetype) => unwrap_type_str(mimetype, subtype),
            None => None,
        }
    }
}

impl<T> WrapType for Request<T> {
    fn wrap_type(&self, subtype: &str) -> (r: Option<String>) {
        match self.get_header_str("Content-Type") {
            Some(mimetype) => wrap_type_str(mimetype, subtype),
            None => None,
        }
    }
}

impl<T> WrapType for Response<T> {
    fn wrap_type(&self, subtype: &str) -> (r: Option<String>) {
        match self.get_header_str("Content-Type") {
            Some(mimetype) => wrap_type_str(mimetype, subtype),
            None => None,
        }
    }
}

/// Law (the content-type half of the auto-type round trip): wrap a tag
/// that holds no `+` onto a message's content type and store the result;
/// unwrapping the same tag from the stored value yields exactly the
/// content type the message started with.
pub proof fn lemma_auto_type_round_trip(hs: HeaderSeq, hs2: HeaderSeq, tag: Seq<char>)
    requires
        find_from(tag, '+', 0) == tag.len(),
        spec_wrap_type(hs, tag) is Some,
        lookup(hs2, content_type_key()) == Some(spec_wrap_type(hs, tag)->Some_0),
    ensures
        spec_unwrap_type(hs2, tag) == lookup(hs, content_type_key()),
{
    let ct = lookup(hs, content_type_key())->Some_0;
    let offs = parse_offsets(ct);
    lemma_parse_offsets_wf(ct);
    lemma_wrap_unwrap_render(ct, tag);
    let s1 = chain_push(ct, offs, tag);
    let w = chain_render(s1.0, s1.1);
    assert(valid_header_value(w));
    // the original string is a prefix of the wrapped one, so it is a valid
    // header value too
    assert forall|i: int| 0 <= i < ct.len() implies valid_header_char(#[trigger] ct[i]) by {
        assert(w[i] == ct[i]);
    }
    let offs2 = parse_offsets(w);
    assert(chain_render(chain_pop(w, offs2).0, chain_pop(w, offs2).1) == ct);
}

} // verus!
