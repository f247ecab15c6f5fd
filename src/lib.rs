//! A client-side gRPC transport core, verified: the single-slot channel
//! holder, how calls end and what they do to it, retry budgets, connection
//! planning and shared SSH tunnels, streamed requests and responses, the
//! `process-id` telemetry header, and the reading of proto service files.

pub mod channel;
pub mod connect_url;
pub mod connector;
pub mod param_type;
pub mod proto_file;
pub mod proto_tokens;
pub mod retry;
pub mod server_stream;
pub mod stream_name;
pub mod streamed_request;
pub mod streamed_response;
pub mod telemetry;
pub mod text;
