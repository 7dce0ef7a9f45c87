//! Progress-tracking and graph-composition core of a dataflow engine.
//!
//! A dataflow computation is a graph of operator nodes ("scopes") joined by
//! typed channels.  Each worker tracks, per logical timestamp, how many
//! messages have been produced and consumed on every edge; when every ledger
//! nets to zero, a timestamp has retired and the workers can agree that the
//! epoch is complete without a central coordinator.
//!
//! The modules here hold that accounting core: sparse per-timestamp delta
//! ledgers ([`count_map`]), the fan-out port and counting observers that sit
//! on the send path ([`port`]), the graph builder that owns scopes, edges and
//! the counter arena ([`graph`]), the stream handle used to wire operators
//! together ([`stream`]), and the reference merge operator ([`concat`]).
//! The driver loop and the message transport consume this core from outside.

pub mod concat;
pub mod count_map;
pub mod graph;
pub mod port;
pub mod stream;
pub mod timestamp;
