//! Request-path decoding, safe file lookup, routing decisions and connection
//! state machines for a small static-file HTTP server, with their contracts.
//!
//! Paths are read by Unix rules (`/` is the only separator, there are no
//! prefix components): the library serves from Unix file systems only, and
//! the server program refuses to build for other targets.
//!
//! The library decides; its caller performs the I/O. Every filesystem step,
//! socket event and timer is handed to a state machine or a decision function
//! here, which says what to do next and what to answer.

mod bindings;
pub mod cli;
pub mod laws;
pub mod lookup;
pub mod metrics;
pub mod path;
pub mod reply;
pub mod request_path;
pub mod routing;
pub mod server;

pub use cli::{check_listen_addr, parse_duration, Timeout};
pub use lookup::{start_lookup, LookupStep, ResolvedFile};
pub use metrics::{status_class, InFlightRequest};
pub use path::validate_relative_path;
pub use reply::{
    map_file_error, probe_response, text_response, ReplyBody, ResponseOutcome,
    DEFAULT_INDEX_HTML,
};
pub use request_path::{candidate_paths, decode_percent_path, hex_value, ResolveError};
pub use routing::{lookup_response, readiness_response, route_request, Method, RouteStep, ServerStatus};
pub use server::{
    AcceptAction, AcceptEvent, AcceptLoop, ConnectionAction, ConnectionEvent, ConnectionState,
    DEFAULT_DRAIN_TIMEOUT_SECS, READINESS_DRAIN_WINDOW_MILLIS,
};
