use vstd::prelude::*;

verus! {

/// Every way a command of this library can fail.
#[derive(Debug, Clone, Copy, PartialEq, Eq, Structural)]
pub enum Error {
    /// A `key=value` override token is malformed.
    InvalidOverride,
    /// The named profile is absent from the loaded document.
    ProfileNotFound,
    /// A profile's `params` are present but not a JSON object.
    ParamsNotObject,
    /// A profile's `body` is present but not a JSON object.
    BodyNotObject,
    /// A header name or value of an override is not a legal HTTP header.
    InvalidHeader,
    /// The negotiated content type has no body encoder.
    UnsupportedContentType,
    /// The body cannot be written in the negotiated encoding.
    UnencodableBody,
    /// The query object cannot be written as a query string.
    UnencodableQuery,
    /// The profile's URL cannot be parsed.
    InvalidUrl,
    /// A response body that claims to be JSON is not.
    MalformedBody,
    /// Text cannot be highlighted: the theme is unknown or a line fails.
    Highlight,
}

} // verus!
