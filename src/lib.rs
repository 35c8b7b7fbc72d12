//! Request-profile engine: override classification, request merging,
//! response reduction and response diffing.
pub mod cli;
pub mod config;
pub mod diff;
pub mod error;
pub mod headers;
pub mod highlight;
pub mod json;
pub mod profile;
pub mod response;
pub mod text;

pub use cli::{parse_key_value, ExtraArgs, KeyVal, KeyValType};
pub use config::{is_default, DiffConfig, DiffProfile, RequestConfig, ValidateConfig};
pub use diff::{diff_text, ChangeKind, DiffLine};
pub use error::Error;
pub use headers::{get_content_type, get_header_text, get_status_text};
pub use highlight::highlight_text;
pub use json::{empty_json_value, filter_json, JsonValue};
pub use profile::RequestProfile;
pub use response::{get_body_text, get_text, show_headers, ResponseProfile};
