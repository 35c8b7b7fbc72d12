use vstd::prelude::*;

use crate::cli::{pairs_view, ExtraArgs};
use crate::error::Error;
use crate::headers::{
    ascii_lower, default_content_type, get_content_type, header_pairs, is_header_name,
    is_header_value, is_valid_header_value, media_type_of, normalize_header_name, set_header,
    with_default_content_type,
};
use crate::json::{
    compact_text, entries_view, key_index, lemma_entries_view, override_json, parse_override_value,
    set_entry, set_key, JsonValue, JsonView,
};

verus! {

/// A named HTTP request: method, URL, query object, headers and body object.
/// The URL is held as it is written out; `params` and `body`, when present,
/// are to be JSON objects, an absent one standing for an empty object.
#[derive(Debug)]
pub struct RequestProfile {
    pub method: String,
    pub url: String,
    pub params: Option<JsonValue>,
    pub headers: Vec<(String, String)>,
    pub body: Option<JsonValue>,
}

/// The mathematical value of a `RequestProfile`.
pub struct ProfileView {
    pub method: Seq<char>,
    pub url: Seq<char>,
    pub params: Option<JsonView>,
    pub headers: Seq<(Seq<char>, Seq<char>)>,
    pub body: Option<JsonView>,
}

/// The view of an optional JSON value.
pub open spec fn option_view(v: Option<JsonValue>) -> Option<JsonView> {
    match v {
        Some(j) => Some(j@),
        None => None,
    }
}

impl RequestProfile {
    pub open spec fn view(&self) -> ProfileView {
        ProfileView {
            method: self.method@,
            url: self.url@,
            params: option_view(self.params),
            headers: header_pairs(self.headers@),
            body: option_view(self.body),
        }
    }
}

/// Whether an optional value is absent or an object.
pub open spec fn is_object_or_absent(v: Option<JsonView>) -> bool {
    match v {
        Some(j) => j is Object,
        None => true,
    }
}

/// The entries of an optional object; none when it is absent.
pub open spec fn object_entries(v: Option<JsonView>) -> Seq<(Seq<char>, JsonView)> {
    match v {
        Some(JsonView::Object(o)) => o,
        _ => seq![],
    }
}

/// Whether a profile is well formed: `params` and `body` absent or objects.
pub open spec fn profile_valid(p: ProfileView) -> bool {
    is_object_or_absent(p.params) && is_object_or_absent(p.body)
}

/// Header overrides applied in order to `h`: each name is normalized to lower
/// case and set to its value. `None` when a name or value is not a legal header.
pub open spec fn apply_header_overrides(
    h: Seq<(Seq<char>, Seq<char>)>,
    ov: Seq<(Seq<char>, Seq<char>)>,
) -> Option<Seq<(Seq<char>, Seq<char>)>>
    decreases ov.len(),
{
    if ov.len() == 0 {
        Some(h)
    } else {
        match apply_header_overrides(h, ov.drop_last()) {
            None => None,
            Some(prev) => {
                let (k, v) = ov.last();
                if is_header_name(k) && is_header_value(v) {
                    Some(set_key(prev, ascii_lower(k), v))
                } else {
                    None
                }
            },
        }
    }
}

/// Query or body overrides applied in order to the entries `o`: each key is
/// set to its value read as a JSON scalar, or else as a string.
pub open spec fn apply_value_overrides(
    o: Seq<(Seq<char>, JsonView)>,
    ov: Seq<(Seq<char>, Seq<char>)>,
) -> Seq<(Seq<char>, JsonView)>
    decreases ov.len(),
{
    if ov.len() == 0 {
        o
    } else {
        set_key(apply_value_overrides(o, ov.drop_last()), ov.last().0, override_json(ov.last().1))
    }
}

pub open spec fn form_media_type() -> Seq<char> {
    seq![
        'a', 'p', 'p', 'l', 'i', 'c', 'a', 't', 'i', 'o', 'n', '/', 'x', '-', 'w', 'w', 'w', '-',
        'f', 'o', 'r', 'm', '-', 'u', 'r', 'l', 'e', 'n', 'c', 'o', 'd', 'e', 'd',
    ]
}

pub open spec fn multipart_media_type() -> Seq<char> {
    seq![
        'm', 'u', 'l', 't', 'i', 'p', 'a', 'r', 't', '/', 'f', 'o', 'r', 'm', '-', 'd', 'a', 't', 'a',
    ]
}

/// The form encoding of the JSON value written as the text `json`, as the
/// URL-encoded serializer writes it, or `None` where it refuses the value.
pub uninterp spec fn form_encoding_of(json: Seq<char>) -> Option<Seq<char>>;

/// The query string of the JSON value written as the text `json`, as the
/// query-string serializer writes it, or `None` where it refuses the value.
pub uninterp spec fn query_encoding_of(json: Seq<char>) -> Option<Seq<char>>;

/// The URL `url` with its query replaced by `query`, as the URL parser writes
/// it out, or `None` when `url` does not parse.
pub uninterp spec fn url_with_query_of(url: Seq<char>, query: Seq<char>) -> Option<Seq<char>>;

/// The URL `s` without its query, and its decoded query pairs in order, or
/// `None` when `s` does not parse as a URL.
pub uninterp spec fn url_split_of(s: Seq<char>) -> Option<(Seq<char>, Seq<(Seq<char>, Seq<char>)>)>;

/// Relies on `serde_json::from_str` into `serde_json::Value`, then
/// `serde_urlencoded::to_string` on that value.
#[verifier::external_body]
fn encode_form(json: &str) -> (r: Option<String>)
    ensures
        match r {
            Some(t) => form_encoding_of(json@) == Some(t@),
            None => form_encoding_of(json@) is None,
        },
{
    let v: serde_json::Value = serde_json::from_str(json).ok()?;
    serde_urlencoded::to_string(&v).ok()
}

/// Relies on `serde_json::from_str` into `serde_json::Value`, then
/// `serde_qs::to_string` on that value.
#[verifier::external_body]
fn encode_query(json: &str) -> (r: Option<String>)
    ensures
        match r {
            Some(t) => query_encoding_of(json@) == Some(t@),
            None => query_encoding_of(json@) is None,
        },
{
    let v: serde_json::Value = serde_json::from_str(json).ok()?;
    serde_qs::to_string(&v).ok()
}

/// Relies on `Url::parse`, `Url::set_query` and the URL's serialization
/// (url, re-exported by reqwest).
#[verifier::external_body]
fn replace_url_query(url: &str, query: &str) -> (r: Option<String>)
    ensures
        match r {
            Some(t) => url_with_query_of(url@, query@) == Some(t@),
            None => url_with_query_of(url@, query@) is None,
        },
{
    let mut u = reqwest::Url::parse(url).ok()?;
    u.set_query(Some(query));
    Some(u.to_string())
}

/// Relies on `Url::parse`, `Url::query_pairs`, `Url::set_query` and the URL's
/// serialization (url, re-exported by reqwest).
#[verifier::external_body]
fn split_url(s: &str) -> (r: Option<(String, Vec<(String, String)>)>)
    ensures
        match r {
            Some((u, q)) => url_split_of(s@) == Some((u@, pairs_view(q@))),
            None => url_split_of(s@) is None,
        },
{
    let mut u = reqwest::Url::parse(s).ok()?;
    let pairs = u.query_pairs().map(|(k, v)| (k.into_owned(), v.into_owned())).collect();
    u.set_query(None);
    Some((u.to_string(), pairs))
}

/// The body text for media type `media`: compact JSON for `application/json`,
/// the form encoding for `application/x-www-form-urlencoded` and
/// `multipart/form-data`, else an unsupported content type.
pub open spec fn encoded_body(media: Seq<char>, body: JsonView) -> Result<Seq<char>, Error> {
    if media == crate::headers::json_media_type() {
        Ok(compact_text(body))
    } else if media == form_media_type() || media == multipart_media_type() {
        match form_encoding_of(compact_text(body)) {
            Some(t) => Ok(t),
            None => Err(Error::UnencodableBody),
        }
    } else {
        Err(Error::UnsupportedContentType)
    }
}

/// What merging profile `p` with the header, query and body overrides `hs`,
/// `qs`, `bs` gives: the final headers, the query object and the body text.
pub open spec fn merge(
    p: ProfileView,
    hs: Seq<(Seq<char>, Seq<char>)>,
    qs: Seq<(Seq<char>, Seq<char>)>,
    bs: Seq<(Seq<char>, Seq<char>)>,
) -> Result<(Seq<(Seq<char>, Seq<char>)>, JsonView, Seq<char>), Error> {
    if !is_object_or_absent(p.params) {
        Err(Error::ParamsNotObject)
    } else if !is_object_or_absent(p.body) {
        Err(Error::BodyNotObject)
    } else {
        match apply_header_overrides(p.headers, hs) {
            None => Err(Error::InvalidHeader),
            Some(h) => {
                let h2 = with_default_content_type(h);
                let q = JsonView::Object(apply_value_overrides(object_entries(p.params), qs));
                let b = JsonView::Object(apply_value_overrides(object_entries(p.body), bs));
                match media_type_of(h2) {
                    None => Err(Error::UnsupportedContentType),
                    Some(m) => match encoded_body(m, b) {
                        Ok(t) => Ok((h2, q, t)),
                        Err(e) => Err(e),
                    },
                }
            },
        }
    }
}

/// `merge` of a profile with the overrides held in `args`.
pub open spec fn merge_args(p: ProfileView, args: ExtraArgs) -> Result<(Seq<(Seq<char>, Seq<char>)>, JsonView, Seq<char>), Error> {
    merge(p, pairs_view(args.headers@), pairs_view(args.query@), pairs_view(args.body@))
}

pub proof fn lemma_header_overrides_stay_failed(
    h: Seq<(Seq<char>, Seq<char>)>,
    ov: Seq<(Seq<char>, Seq<char>)>,
    i: int,
)
    requires
        0 <= i <= ov.len(),
        apply_header_overrides(h, ov.subrange(0, i)) is None,
    ensures
        apply_header_overrides(h, ov) is None,
    decreases ov.len() - i,
{
    if i < ov.len() {
        assert(ov.subrange(0, i + 1).drop_last() =~= ov.subrange(0, i));
        lemma_header_overrides_stay_failed(h, ov, i + 1);
    } else {
        assert(ov.subrange(0, i) =~= ov);
    }
}

/// The header overrides applied to a copy of `h`.
fn apply_headers(h: &Vec<(String, String)>, ov: &Vec<(String, String)>) -> (r: Option<Vec<(String, String)>>)
    ensures
        match r {
            Some(out) => apply_header_overrides(header_pairs(h@), pairs_view(ov@)) == Some(header_pairs(out@)),
            None => apply_header_overrides(header_pairs(h@), pairs_view(ov@)) is None,
        },
{
    let mut out: Vec<(String, String)> = Vec::new();
    let mut j: usize = 0;
    while j < h.len()
        invariant
            j <= h@.len(),
            out@ == h@.subrange(0, j as int),
        decreases h@.len() - j,
    {
        out.push((h[j].0.clone(), h[j].1.clone()));
        proof {
            assert(out@ =~= h@.subrange(0, j + 1));
        }
        j = j + 1;
    }
    assert(h@.subrange(0, h@.len() as int) =~= h@);
    let ghost base = header_pairs(h@);
    let ghost ovs = pairs_view(ov@);
    let mut i: usize = 0;
    while i < ov.len()
        invariant
            i <= ov@.len(),
            base == header_pairs(h@),
            ovs == pairs_view(ov@),
            apply_header_overrides(base, ovs.subrange(0, i as int)) == Some(header_pairs(out@)),
        decreases ov@.len() - i,
    {
        proof {
            assert(ovs.subrange(0, i + 1).drop_last() =~= ovs.subrange(0, i as int));
            assert(ovs.subrange(0, i + 1).last() == (ov@[i as int].0@, ov@[i as int].1@));
        }
        let name = normalize_header_name(ov[i].0.as_str());
        match name {
            None => {
                proof {
                    lemma_header_overrides_stay_failed(base, ovs, i + 1);
                }
                return None;
            },
            Some(n) => {
                if !is_valid_header_value(ov[i].1.as_str()) {
                    proof {
                        lemma_header_overrides_stay_failed(base, ovs, i + 1);
                    }
                    return None;
                }
                set_header(&mut out, n, ov[i].1.clone());
            },
        }
        i = i + 1;
    }
    assert(ovs.subrange(0, ov@.len() as int) =~= ovs);
    Some(out)
}

/// The entries of an optional object with the value overrides applied.
fn apply_values(v: &Option<JsonValue>, ov: &Vec<(String, String)>) -> (r: Vec<(String, JsonValue)>)
    requires
        is_object_or_absent(option_view(*v)),
    ensures
        entries_view(r@) == apply_value_overrides(object_entries(option_view(*v)), pairs_view(ov@)),
{
    let mut out: Vec<(String, JsonValue)> = match v {
        Some(JsonValue::Object(o)) => crate::json::copy_entries(o),
        _ => Vec::new(),
    };
    let ghost base = object_entries(option_view(*v));
    let ghost ovs = pairs_view(ov@);
    assert(entries_view(out@) == apply_value_overrides(base, ovs.subrange(0, 0)));
    let mut i: usize = 0;
    while i < ov.len()
        invariant
            i <= ov@.len(),
            base == object_entries(option_view(*v)),
            ovs == pairs_view(ov@),
            entries_view(out@) == apply_value_overrides(base, ovs.subrange(0, i as int)),
        decreases ov@.len() - i,
    {
        proof {
            assert(ovs.subrange(0, i + 1).drop_last() =~= ovs.subrange(0, i as int));
            assert(ovs.subrange(0, i + 1).last() == (ov@[i as int].0@, ov@[i as int].1@));
        }
        let value = parse_override_value(&ov[i].1);
        set_entry(&mut out, ov[i].0.clone(), value);
        i = i + 1;
    }
    assert(ovs.subrange(0, ov@.len() as int) =~= ovs);
    out
}

/// The body text for media type `media`.
fn encode_body(media: &String, body: &JsonValue) -> (r: Result<String, Error>)
    ensures
        match r {
            Ok(t) => encoded_body(media@, body@) == Ok::<Seq<char>, Error>(t@),
            Err(e) => encoded_body(media@, body@) == Err::<Seq<char>, Error>(e),
        },
{
    let json = String::from_str("application/json");
    let form = String::from_str("application/x-www-form-urlencoded");
    let multipart = String::from_str("multipart/form-data");
    proof {
        reveal_strlit("application/json");
        reveal_strlit("application/x-www-form-urlencoded");
        reveal_strlit("multipart/form-data");
        assert(json@ =~= crate::headers::json_media_type());
        assert(form@ =~= form_media_type());
        assert(multipart@ =~= multipart_media_type());
    }
    if *media == json {
        Ok(body.to_json_text())
    } else if *media == form || *media == multipart {
        let text = body.to_json_text();
        match encode_form(text.as_str()) {
            Some(t) => Ok(t),
            None => Err(Error::UnencodableBody),
        }
    } else {
        Err(Error::UnsupportedContentType)
    }
}

impl RequestProfile {
    /// A profile from its parts.
    pub fn new(
        method: String,
        url: String,
        params: Option<JsonValue>,
        headers: Vec<(String, String)>,
        body: Option<JsonValue>,
    ) -> (r: RequestProfile)
        ensures
            r.method == method,
            r.url == url,
            r.params == params,
            r.headers == headers,
            r.body == body,
    {
        RequestProfile { method, url, params, headers, body }
    }

    /// Checks that `params` and `body` are absent or JSON objects.
    pub fn validate(&self) -> (r: Result<(), Error>)
        ensures
            r is Ok <==> profile_valid(self@),
            r == Err::<(), Error>(Error::ParamsNotObject) <==> !is_object_or_absent(self@.params),
            r == Err::<(), Error>(Error::BodyNotObject) <==> is_object_or_absent(self@.params)
                && !is_object_or_absent(self@.body),
    {
        if let Some(p) = &self.params {
            if !p.is_object() {
                return Err(Error::ParamsNotObject);
            }
        }
        if let Some(b) = &self.body {
            if !b.is_object() {
                return Err(Error::BodyNotObject);
            }
        }
        Ok(())
    }

    /// Merges the profile with the overrides: the final headers, the query
    /// object and the encoded body.
    pub fn generate(&self, args: &ExtraArgs) -> (r: Result<(Vec<(String, String)>, JsonValue, String), Error>)
        ensures
            match r {
                Ok((h, q, t)) => merge_args(self@, *args) == Ok::<_, Error>((header_pairs(h@), q@, t@)),
                Err(e) => merge_args(self@, *args) == Err::<(Seq<(Seq<char>, Seq<char>)>, JsonView, Seq<char>), Error>(e),
            },
    {
        self.validate()?;
        let mut headers = match apply_headers(&self.headers, &args.headers) {
            Some(h) => h,
            None => return Err(Error::InvalidHeader),
        };
        default_content_type(&mut headers);
        let query = JsonValue::Object(apply_values(&self.params, &args.query));
        let body = JsonValue::Object(apply_values(&self.body, &args.body));
        let media = match get_content_type(&headers) {
            Some(m) => m,
            None => return Err(Error::UnsupportedContentType),
        };
        let text = encode_body(&media, &body)?;
        Ok((headers, query, text))
    }
}

/// The URL of the request that `merge_args(p, args)` describes: the profile's
/// URL as it is when the query object is empty, else with its query replaced
/// by the encoded query object.
pub open spec fn url_of(p: ProfileView, args: ExtraArgs) -> Result<Seq<char>, Error> {
    match merge_args(p, args) {
        Err(e) => Err(e),
        Ok((_, q, _)) => if object_entries(Some(q)).len() == 0 {
            Ok(p.url)
        } else {
            match query_encoding_of(compact_text(q)) {
                None => Err(Error::UnencodableQuery),
                Some(t) => match url_with_query_of(p.url, t) {
                    None => Err(Error::InvalidUrl),
                    Some(u) => Ok(u),
                },
            }
        },
    }
}

/// The profile that a bare URL describes: `GET`, the URL without its query,
/// each query pair lifted into `params` (read as a JSON scalar where it is
/// one), no headers and no body.
pub open spec fn profile_of_url(s: Seq<char>) -> Option<ProfileView> {
    match url_split_of(s) {
        None => None,
        Some((u, pairs)) => Some(
            ProfileView {
                method: seq!['G', 'E', 'T'],
                url: u,
                params: Some(JsonView::Object(apply_value_overrides(seq![], pairs))),
                headers: seq![],
                body: None,
            },
        ),
    }
}

impl RequestProfile {
    /// The URL that a request built from this profile and `args` goes to.
    pub fn get_url(&self, args: &ExtraArgs) -> (r: Result<String, Error>)
        ensures
            match r {
                Ok(u) => url_of(self@, *args) == Ok::<Seq<char>, Error>(u@),
                Err(e) => url_of(self@, *args) == Err::<Seq<char>, Error>(e),
            },
    {
        let (_, query, _) = self.generate(args)?;
        let empty = match &query {
            JsonValue::Object(o) => {
                proof {
                    lemma_entries_view(o@);
                }
                o.len() == 0
            },
            _ => true,
        };
        if empty {
            return Ok(self.url.clone());
        }
        let text = query.to_json_text();
        let encoded = match encode_query(text.as_str()) {
            Some(t) => t,
            None => return Err(Error::UnencodableQuery),
        };
        match replace_url_query(self.url.as_str(), encoded.as_str()) {
            Some(u) => Ok(u),
            None => Err(Error::InvalidUrl),
        }
    }

    /// The profile that a bare URL describes; fails when `s` is not a URL.
    pub fn from_url(s: &str) -> (r: Result<RequestProfile, Error>)
        ensures
            match r {
                Ok(p) => profile_of_url(s@) == Some(p@),
                Err(e) => profile_of_url(s@) is None && e == Error::InvalidUrl,
            },
    {
        let (url, pairs) = match split_url(s) {
            Some(parts) => parts,
            None => return Err(Error::InvalidUrl),
        };
        let params = JsonValue::Object(apply_values(&None, &pairs));
        let method = String::from_str("GET");
        proof {
            reveal_strlit("GET");
        }
        let r = RequestProfile::new(method, url, Some(params), Vec::new(), None);
        assert(r@.headers =~= seq![]);
        assert(r@.method =~= seq!['G', 'E', 'T']);
        Ok(r)
    }
}

impl std::str::FromStr for RequestProfile {
    type Err = Error;

    fn from_str(s: &str) -> Result<RequestProfile, Error> {
        RequestProfile::from_url(s)
    }
}

/// After setting key `k`, looking `k` up finds the new value.
pub proof fn lemma_set_key_lookup<V>(o: Seq<(Seq<char>, V)>, k: Seq<char>, v: V)
    ensures
        key_index(set_key(o, k, v), k) < set_key(o, k, v).len(),
        set_key(o, k, v)[key_index(set_key(o, k, v), k)] == (k, v),
{
    let i = key_index(o, k);
    crate::json::lemma_key_index_found(o, k);
    let r = set_key(o, k, v);
    assert forall|j: int| 0 <= j < i implies r[j].0 != k by {}
    crate::json::lemma_key_index(r, k, i);
}

/// Merging with no overrides keeps the profile's own query object and body:
/// the query object is `params` (an empty object when absent) and the body
/// text is the encoding of `body` (likewise), under the profile's headers with
/// the default content type.
pub proof fn lemma_merge_without_overrides(p: ProfileView)
    requires
        profile_valid(p),
    ensures
        ({
            let h = with_default_content_type(p.headers);
            let b = JsonView::Object(object_entries(p.body));
            match merge(p, seq![], seq![], seq![]) {
                Ok((h2, q, t)) => h2 == h && q == JsonView::Object(object_entries(p.params))
                    && (media_type_of(h) matches Some(m) && encoded_body(m, b) == Ok::<Seq<char>, Error>(t)),
                Err(e) => (media_type_of(h) matches Some(m) && encoded_body(m, b) == Err::<Seq<char>, Error>(e)),
            }
        }),
{
    let h = with_default_content_type(p.headers);
    lemma_default_content_type_set(p.headers);
}

/// After the default, a header list always has a content type.
pub proof fn lemma_default_content_type_set(h: Seq<(Seq<char>, Seq<char>)>)
    ensures
        media_type_of(with_default_content_type(h)) is Some,
{
    let n = crate::headers::content_type_name();
    if key_index(h, n) >= h.len() {
        let h2 = h.push((n, crate::headers::json_media_type()));
        crate::json::lemma_key_index_found(h, n);
        assert forall|j: int| 0 <= j < h.len() implies h2[j].0 != n by {}
        crate::json::lemma_key_index(h2, n, h.len() as int);
    }
}

/// A header override that sets the content type to the form type, given
/// last, wins over the default: the body comes out form-encoded, never as
/// JSON.
pub proof fn lemma_content_type_override_wins(
    p: ProfileView,
    hs: Seq<(Seq<char>, Seq<char>)>,
    qs: Seq<(Seq<char>, Seq<char>)>,
    bs: Seq<(Seq<char>, Seq<char>)>,
)
    requires
        profile_valid(p),
        hs.len() > 0,
        is_header_name(hs.last().0),
        ascii_lower(hs.last().0) == crate::headers::content_type_name(),
        hs.last().1 == form_media_type(),
    ensures
        merge(p, hs, qs, bs) matches Ok((h, q, t)) ==> {
            &&& media_type_of(h) == Some(form_media_type())
            &&& form_encoding_of(compact_text(JsonView::Object(apply_value_overrides(object_entries(p.body), bs))))
                == Some(t)
        },
{
    let f = form_media_type();
    assert(is_header_value(f));
    if let Some(prev) = apply_header_overrides(p.headers, hs.drop_last()) {
        let n = crate::headers::content_type_name();
        let h = set_key(prev, n, f);
        lemma_set_key_lookup(prev, n, f);
        assert(with_default_content_type(h) == h);
        crate::text::lemma_first_index(f, ';', f.len() as int);
        assert(f.subrange(0, f.len() as int) =~= f);
        assert(f != crate::headers::json_media_type());
    }
}

/// With no query overrides and no query object of its own, a profile's URL
/// comes back as it is, with no query attached.
pub proof fn lemma_url_unchanged_without_params(p: ProfileView, args: ExtraArgs)
    requires
        object_entries(p.params).len() == 0,
        args.query@.len() == 0,
        merge_args(p, args) is Ok,
    ensures
        url_of(p, args) == Ok::<Seq<char>, Error>(p.url),
{
    assert(pairs_view(args.query@) =~= seq![]);
}

/// The value held under key `k`, if any.
pub open spec fn lookup<V>(o: Seq<(Seq<char>, V)>, k: Seq<char>) -> Option<V> {
    let i = key_index(o, k);
    if i < o.len() {
        Some(o[i].1)
    } else {
        None
    }
}

/// The value of the last override with key `k`, if any.
pub open spec fn last_override(ov: Seq<(Seq<char>, Seq<char>)>, k: Seq<char>) -> Option<Seq<char>>
    decreases ov.len(),
{
    if ov.len() == 0 {
        None
    } else if ov.last().0 == k {
        Some(ov.last().1)
    } else {
        last_override(ov.drop_last(), k)
    }
}

/// Setting one key leaves the value under every other key as it was.
pub proof fn lemma_set_key_other<V>(o: Seq<(Seq<char>, V)>, k: Seq<char>, v: V, other: Seq<char>)
    requires
        other != k,
    ensures
        lookup(set_key(o, k, v), other) == lookup(o, other),
{
    let r = set_key(o, k, v);
    crate::json::lemma_key_index_found(o, other);
    crate::json::lemma_key_index_found(o, k);
    let j = key_index(o, other);
    assert forall|m: int| 0 <= m < j implies r[m].0 != other by {}
    if j < o.len() {
        crate::json::lemma_key_index(r, other, j);
    } else {
        assert forall|m: int| 0 <= m < r.len() implies r[m].0 != other by {}
        crate::json::lemma_key_index(r, other, r.len() as int);
    }
}

/// Overrides of one kind apply in input order, so under each key the last
/// override wins; a key that no override names keeps the profile's value.
pub proof fn lemma_last_override_wins(o: Seq<(Seq<char>, JsonView)>, ov: Seq<(Seq<char>, Seq<char>)>, k: Seq<char>)
    ensures
        lookup(apply_value_overrides(o, ov), k) == match last_override(ov, k) {
            Some(v) => Some(override_json(v)),
            None => lookup(o, k),
        },
    decreases ov.len(),
{
    if ov.len() > 0 {
        lemma_last_override_wins(o, ov.drop_last(), k);
        let prev = apply_value_overrides(o, ov.drop_last());
        if ov.last().0 == k {
            lemma_set_key_lookup(prev, k, override_json(ov.last().1));
        } else {
            lemma_set_key_other(prev, ov.last().0, override_json(ov.last().1), k);
        }
    }
}

} // verus!
