//! A verified static-file-serving core: the engine that turns an HTTP
//! request (method, path, `Accept-Encoding`, `Range`) plus a server
//! configuration into a concrete response — status, headers, and a plan
//! for the body bytes.
//!
//! The crate performs no I/O of its own. Paths and header values are
//! carried as bytes; whenever the engine needs the filesystem it emits a
//! probe for a path and is handed back what that path holds. A thin
//! unverified shell accepts connections, answers the probes, and streams
//! the bytes the response plan names.
//!
//! What is proved, beyond each function's exact behavior: every path the
//! engine probes or serves stays under the configured root, whatever the
//! request path's `..` segments try; a directory target falls back to
//! its index document and nothing else; unsupported methods are refused
//! before any probe; HEAD responses carry exactly the GET headers plus
//! the range advertisement, with an empty body; and a replayed request
//! reproduces its responses step for step.
pub mod bytes_util;
pub mod encodings;
pub mod engine;
pub mod laws;
pub mod numbers;
pub mod paths;
pub mod ranges;
pub mod response;

pub use encodings::{AvailableEncodings, Encoding, get_encoded_ext, get_encodings};
pub use engine::{
    Engine, FileStatus, Method, RangeDecision, ResponseOutcome, ResponseParams, Step,
};
pub use paths::{add_extension, resolve_under_root};
pub use ranges::{
    ByteRange, build_content_range_header_str, get_ranges, get_start_end, get_window_range,
};
pub use response::{BodyPlan, HeaderName, ResponsePlan, build_plan};
