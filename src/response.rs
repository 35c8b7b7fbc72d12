use vstd::prelude::*;

use crate::error::Error;
use crate::headers::{get_content_type, header_lines, header_pairs, is_header_value, json_media_type, media_type_of};
use crate::json::{filter_json, pretty_text, strings_view, without_top_keys, JsonValue, JsonView};
use crate::profile::option_view;

verus! {

/// Which headers and which top-level body keys are left out before two
/// responses are compared.
#[derive(Debug, Clone, Default, PartialEq, Eq)]
pub struct ResponseProfile {
    pub skip_headers: Vec<String>,
    pub skip_body: Vec<String>,
}

impl ResponseProfile {
    pub fn new(skip_headers: Vec<String>, skip_body: Vec<String>) -> (r: ResponseProfile)
        ensures
            r.skip_headers == skip_headers,
            r.skip_body == skip_body,
    {
        ResponseProfile { skip_headers, skip_body }
    }
}

/// How the HTTP types show a header value: quoted, with `"` and bytes that
/// are not visible ASCII escaped.
pub uninterp spec fn header_value_debug(v: Seq<char>) -> Seq<char>;

/// Whether every character of `v` is a tab or visible ASCII other than `"`.
pub open spec fn is_plain_header_value(v: Seq<char>) -> bool {
    forall|i: int| 0 <= i < v.len() ==> ((' ' <= #[trigger] v[i] <= '~' && v[i] != '"') || v[i] == '\t')
}

/// Relies on `HeaderValue::from_str` and `HeaderValue`'s `Debug` (http,
/// re-exported by reqwest): a legal value is shown between quotes, a value
/// of plain characters as it is.
#[verifier::external_body]
fn show_header_value(v: &str) -> (r: Option<String>)
    ensures
        r is Some <==> is_header_value(v@),
        r matches Some(t) ==> t@ == header_value_debug(v@),
        r matches Some(t) ==> (is_plain_header_value(v@) ==> t@ == seq!['"'] + v@ + seq!['"']),
{
    let h = reqwest::header::HeaderValue::from_str(v).ok()?;
    Some(format!("{:?}", h))
}

/// The headers with each value as the HTTP types show it; `None` when a value
/// is not a legal header value.
pub open spec fn shown_headers(h: Seq<(Seq<char>, Seq<char>)>) -> Option<Seq<(Seq<char>, Seq<char>)>>
    decreases h.len(),
{
    if h.len() == 0 {
        Some(seq![])
    } else {
        match shown_headers(h.drop_last()) {
            None => None,
            Some(rest) => if is_header_value(h.last().1) {
                Some(rest.push((h.last().0, header_value_debug(h.last().1))))
            } else {
                None
            },
        }
    }
}

/// The body of a response as it is compared: for a JSON media type, the
/// decoded body without the top-level keys in `skip`, pretty-printed (an
/// error when it did not decode); for any other, the raw text.
pub open spec fn body_text_of(
    media: Option<Seq<char>>,
    raw: Seq<char>,
    parsed: Option<JsonView>,
    skip: Seq<Seq<char>>,
) -> Result<Seq<char>, Error> {
    if media == Some(json_media_type()) {
        match parsed {
            Some(v) => Ok(pretty_text(without_top_keys(v, skip))),
            None => Err(Error::MalformedBody),
        }
    } else {
        Ok(raw)
    }
}

/// The comparable text of a response: the status line, a `name:value` line for
/// each header not skipped, a blank line, then the body text and a newline.
pub open spec fn response_text_of(
    status: Seq<char>,
    h: Seq<(Seq<char>, Seq<char>)>,
    raw: Seq<char>,
    parsed: Option<JsonView>,
    skip_headers: Seq<Seq<char>>,
    skip_body: Seq<Seq<char>>,
) -> Result<Seq<char>, Error> {
    match shown_headers(h) {
        None => Err(Error::InvalidHeader),
        Some(shown) => match body_text_of(media_type_of(h), raw, parsed, skip_body) {
            Err(e) => Err(e),
            Ok(b) => Ok(status + seq!['\n'] + header_lines(shown, skip_headers) + seq!['\n'] + b + seq!['\n']),
        },
    }
}

/// The header list with each value shown as the HTTP types show it; `None`
/// when a value is not a legal header value.
pub fn show_headers(h: &Vec<(String, String)>) -> (r: Option<Vec<(String, String)>>)
    ensures
        match r {
            Some(s) => shown_headers(header_pairs(h@)) == Some(header_pairs(s@)),
            None => shown_headers(header_pairs(h@)) is None,
        },
{
    let mut out: Vec<(String, String)> = Vec::new();
    let mut i: usize = 0;
    while i < h.len()
        invariant
            i <= h@.len(),
            shown_headers(header_pairs(h@.subrange(0, i as int))) == Some(header_pairs(out@)),
        decreases h@.len() - i,
    {
        proof {
            let next = h@.subrange(0, i + 1);
            assert(header_pairs(next).drop_last() =~= header_pairs(h@.subrange(0, i as int)));
        }
        match show_header_value(h[i].1.as_str()) {
            Some(t) => {
                let ghost prev = out@;
                out.push((h[i].0.clone(), t));
                proof {
                    assert(header_pairs(out@) =~= header_pairs(prev).push((h@[i as int].0@, t@)));
                }
            },
            None => {
                proof {
                    lemma_shown_headers_stay_failed(header_pairs(h@), i as int + 1);
                }
                return None;
            },
        }
        i = i + 1;
    }
    assert(h@.subrange(0, h@.len() as int) =~= h@);
    Some(out)
}

pub proof fn lemma_shown_headers_stay_failed(h: Seq<(Seq<char>, Seq<char>)>, i: int)
    requires
        0 <= i <= h.len(),
        shown_headers(h.subrange(0, i)) is None,
    ensures
        shown_headers(h) is None,
    decreases h.len() - i,
{
    if i < h.len() {
        assert(h.subrange(0, i + 1).drop_last() =~= h.subrange(0, i));
        lemma_shown_headers_stay_failed(h, i + 1);
    } else {
        assert(h.subrange(0, i) =~= h);
    }
}

/// The body of a response as it is compared. `parsed` is the body decoded as
/// JSON, where it decodes.
pub fn get_body_text(
    media: &Option<String>,
    raw: &String,
    parsed: &Option<JsonValue>,
    skip_body: &Vec<String>,
) -> (r: Result<String, Error>)
    ensures
        match r {
            Ok(t) => body_text_of(option_string_view(*media), raw@, option_view(*parsed), strings_view(skip_body@))
                == Ok::<Seq<char>, Error>(t@),
            Err(e) => body_text_of(option_string_view(*media), raw@, option_view(*parsed), strings_view(skip_body@))
                == Err::<Seq<char>, Error>(e),
        },
{
    let json = String::from_str("application/json");
    proof {
        reveal_strlit("application/json");
        assert(json@ =~= json_media_type());
    }
    let is_json = match media {
        Some(m) => *m == json,
        None => false,
    };
    if is_json {
        match parsed {
            Some(v) => Ok(filter_json(v, skip_body)),
            None => Err(Error::MalformedBody),
        }
    } else {
        Ok(raw.clone())
    }
}

/// The view of an optional string.
pub open spec fn option_string_view(s: Option<String>) -> Option<Seq<char>> {
    match s {
        Some(t) => Some(t@),
        None => None,
    }
}

/// The comparable text of a response with status line `status`, headers `h`
/// (values as received), raw body `raw` and that body decoded as JSON where
/// it decodes.
pub fn get_text(
    status: &String,
    h: &Vec<(String, String)>,
    raw: &String,
    parsed: &Option<JsonValue>,
    profile: &ResponseProfile,
) -> (r: Result<String, Error>)
    ensures
        match r {
            Ok(t) => response_text_of(status@, header_pairs(h@), raw@, option_view(*parsed),
                strings_view(profile.skip_headers@), strings_view(profile.skip_body@)) == Ok::<Seq<char>, Error>(t@),
            Err(e) => response_text_of(status@, header_pairs(h@), raw@, option_view(*parsed),
                strings_view(profile.skip_headers@), strings_view(profile.skip_body@)) == Err::<Seq<char>, Error>(e),
        },
{
    let shown = match show_headers(h) {
        Some(s) => s,
        None => return Err(Error::InvalidHeader),
    };
    let media = get_content_type(h);
    let body = get_body_text(&media, raw, parsed, &profile.skip_body)?;
    proof {
        reveal_strlit("\n");
    }
    let mut out = status.clone();
    out.append("\n");
    let head = crate::headers::get_header_text(&shown, &profile.skip_headers);
    out.append(head.as_str());
    out.append(body.as_str());
    out.append("\n");
    proof {
        let shown_v = header_pairs(shown@);
        let lines = header_lines(shown_v, strings_view(profile.skip_headers@));
        assert(out@ =~= status@ + seq!['\n'] + lines + seq!['\n'] + body@ + seq!['\n']);
        assert(option_string_view(media) == media_type_of(header_pairs(h@)));
    }
    Ok(out)
}

} // verus!
