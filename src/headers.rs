use vstd::prelude::*;

use crate::json::{key_index, lemma_key_index, set_key, strings_view, contains_string};
use crate::text::{find_char, first_index};

verus! {

/// Whether `c` may stand in an HTTP header name (an RFC 7230 token character).
pub open spec fn is_header_name_char(c: char) -> bool {
    ||| 'a' <= c <= 'z'
    ||| 'A' <= c <= 'Z'
    ||| '0' <= c <= '9'
    ||| c == '!' || c == '"' || c == '#' || c == '$' || c == '%' || c == '&' || c == '\''
    ||| c == '*' || c == '+' || c == '-' || c == '.' || c == '^' || c == '_' || c == '`'
    ||| c == '|' || c == '~'
}

/// Whether `s` is a header name that the HTTP types accept.
pub open spec fn is_header_name(s: Seq<char>) -> bool {
    &&& 0 < s.len() <= 65535
    &&& forall|i: int| 0 <= i < s.len() ==> is_header_name_char(#[trigger] s[i])
}

/// Whether `c` may stand in an HTTP header value: tab, or any character from
/// space upwards but DEL.
pub open spec fn is_header_value_char(c: char) -> bool {
    c == '\t' || (c as u32 >= 32 && c as u32 != 127)
}

/// Whether `s` is a header value that the HTTP types accept.
pub open spec fn is_header_value(s: Seq<char>) -> bool {
    forall|i: int| 0 <= i < s.len() ==> is_header_value_char(#[trigger] s[i])
}

/// `c` with an ASCII upper-case letter made lower case.
pub open spec fn ascii_lower_char(c: char) -> char {
    if 'A' <= c <= 'Z' {
        ((c as u32) + 32) as char
    } else {
        c
    }
}

/// `s` with its ASCII upper-case letters made lower case.
pub open spec fn ascii_lower(s: Seq<char>) -> Seq<char> {
    s.map_values(|c: char| ascii_lower_char(c))
}

/// Relies on `HeaderName::from_str` (http, re-exported by reqwest): it accepts
/// 1 to 65535 token characters and normalizes them to lower case.
#[verifier::external_body]
pub(crate) fn normalize_header_name(s: &str) -> (r: Option<String>)
    ensures
        r is Some <==> is_header_name(s@),
        r matches Some(n) ==> n@ == ascii_lower(s@),
{
    match <reqwest::header::HeaderName as std::str::FromStr>::from_str(s) {
        Ok(n) => Some(n.as_str().to_string()),
        Err(_) => None,
    }
}

/// Relies on `HeaderValue::from_str` (http, re-exported by reqwest): it
/// accepts a text exactly when every byte is a tab or at least 32 and not 127.
#[verifier::external_body]
pub(crate) fn is_valid_header_value(s: &str) -> (r: bool)
    ensures
        r == is_header_value(s@),
{
    reqwest::header::HeaderValue::from_str(s).is_ok()
}

/// The name/value pairs of a header list.
pub open spec fn header_pairs(h: Seq<(String, String)>) -> Seq<(Seq<char>, Seq<char>)> {
    h.map_values(|p: (String, String)| (p.0@, p.1@))
}

/// The name under which the content type is held.
pub open spec fn content_type_name() -> Seq<char> {
    seq!['c', 'o', 'n', 't', 'e', 'n', 't', '-', 't', 'y', 'p', 'e']
}

/// The content type that a request without one is given.
pub open spec fn json_media_type() -> Seq<char> {
    seq!['a', 'p', 'p', 'l', 'i', 'c', 'a', 't', 'i', 'o', 'n', '/', 'j', 's', 'o', 'n']
}

/// The media type of a header list: the value of its `content-type` header
/// up to the first `;`, if it has one.
pub open spec fn media_type_of(h: Seq<(Seq<char>, Seq<char>)>) -> Option<Seq<char>> {
    let i = key_index(h, content_type_name());
    if i < h.len() {
        Some(h[i].1.subrange(0, first_index(h[i].1, ';')))
    } else {
        None
    }
}

/// Position of the header named `k`, or the number of headers when none is.
fn header_position(h: &Vec<(String, String)>, k: &String) -> (r: usize)
    ensures
        r as int == key_index(header_pairs(h@), k@),
        r <= h@.len(),
{
    let mut i: usize = 0;
    while i < h.len()
        invariant
            i <= h@.len(),
            forall|j: int| 0 <= j < i ==> header_pairs(h@)[j].0 != k@,
        decreases h@.len() - i,
    {
        if h[i].0 == *k {
            proof {
                lemma_key_index(header_pairs(h@), k@, i as int);
            }
            return i;
        }
        i = i + 1;
    }
    proof {
        lemma_key_index(header_pairs(h@), k@, i as int);
    }
    i
}

/// Sets header `k` to `v`, in place when it is present, else at the end.
pub fn set_header(h: &mut Vec<(String, String)>, k: String, v: String)
    ensures
        header_pairs(final(h)@) == set_key(header_pairs(old(h)@), k@, v@),
{
    let i = header_position(h, &k);
    if i < h.len() {
        let ghost e = (k@, v@);
        h[i] = (k, v);
        proof {
            assert(header_pairs(h@) =~= header_pairs(old(h)@).update(i as int, e));
        }
    } else {
        h.push((k, v));
        proof {
            assert(header_pairs(h@) =~= header_pairs(old(h)@).push((k@, v@)));
        }
    }
}

/// Adds `content-type: application/json` when no content type is set.
pub fn default_content_type(h: &mut Vec<(String, String)>)
    ensures
        header_pairs(final(h)@) == with_default_content_type(header_pairs(old(h)@)),
{
    let name = String::from_str("content-type");
    proof {
        reveal_strlit("content-type");
        assert(name@ =~= content_type_name());
    }
    let i = header_position(h, &name);
    if i >= h.len() {
        let value = String::from_str("application/json");
        proof {
            reveal_strlit("application/json");
            assert(value@ =~= json_media_type());
        }
        h.push((name, value));
        proof {
            assert(header_pairs(h@) =~= header_pairs(old(h)@).push((content_type_name(), json_media_type())));
        }
    }
}

/// `h` with `content-type: application/json` added when it has no content type.
pub open spec fn with_default_content_type(h: Seq<(Seq<char>, Seq<char>)>) -> Seq<(Seq<char>, Seq<char>)> {
    if key_index(h, content_type_name()) < h.len() {
        h
    } else {
        h.push((content_type_name(), json_media_type()))
    }
}

/// The media type of a header list: its `content-type` up to the first `;`.
pub fn get_content_type(h: &Vec<(String, String)>) -> (r: Option<String>)
    ensures
        match r {
            Some(t) => media_type_of(header_pairs(h@)) == Some(t@),
            None => media_type_of(header_pairs(h@)) is None,
        },
{
    let name = String::from_str("content-type");
    proof {
        reveal_strlit("content-type");
        assert(name@ =~= content_type_name());
    }
    let i = header_position(h, &name);
    if i < h.len() {
        let v = h[i].1.as_str();
        let end = find_char(v, ';');
        assert(header_pairs(h@)[i as int].1 == v@);
        Some(v.substring_char(0, end).to_string())
    } else {
        None
    }
}

/// The lines `name:value` of the headers whose names are not in `skip`, in order.
pub open spec fn header_lines(h: Seq<(Seq<char>, Seq<char>)>, skip: Seq<Seq<char>>) -> Seq<char>
    decreases h.len(),
{
    if h.len() == 0 {
        seq![]
    } else {
        let rest = header_lines(h.drop_last(), skip);
        if skip.contains(h.last().0) {
            rest
        } else {
            rest + h.last().0 + seq![':'] + h.last().1 + seq!['\n']
        }
    }
}

/// The header block of a response: a `name:value` line for each header not
/// named in `skip`, then a blank line. Values are given as they are to be shown.
pub fn get_header_text(h: &Vec<(String, String)>, skip: &Vec<String>) -> (r: String)
    ensures
        r@ == header_lines(header_pairs(h@), strings_view(skip@)) + seq!['\n'],
{
    let mut out = String::new();
    let mut i: usize = 0;
    while i < h.len()
        invariant
            i <= h@.len(),
            out@ == header_lines(header_pairs(h@.subrange(0, i as int)), strings_view(skip@)),
        decreases h@.len() - i,
    {
        proof {
            reveal_strlit(":");
            reveal_strlit("\n");
            let pre = h@.subrange(0, i as int);
            let next = h@.subrange(0, i + 1);
            assert(header_pairs(next).drop_last() =~= header_pairs(pre));
            assert(header_pairs(next).last() == (h@[i as int].0@, h@[i as int].1@));
        }
        if !contains_string(skip, &h[i].0) {
            out.append(h[i].0.as_str());
            out.append(":");
            out.append(h[i].1.as_str());
            out.append("\n");
        }
        i = i + 1;
    }
    proof {
        reveal_strlit("\n");
    }
    assert(h@.subrange(0, h@.len() as int) =~= h@);
    out.append("\n");
    out
}

/// The status line of a response: protocol version, a space, the status.
pub fn get_status_text(version: &String, status: &String) -> (r: String)
    ensures
        r@ == version@ + seq![' '] + status@,
{
    proof {
        reveal_strlit(" ");
    }
    let mut out = version.clone();
    out.append(" ");
    out.append(status.as_str());
    out
}

} // verus!
