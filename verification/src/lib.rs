//! A PowerDNS "remote backend" protocol core: a line-delimited JSON
//! request/reply codec, the per-connection protocol state machine, and a
//! shared counter store, all verified. The surrounding process (sockets,
//! timers, logging) lives outside this library and drives it with plain
//! values: byte lines in, byte lines out.

pub mod conn;
pub mod json;
pub mod query;
pub mod reply;
pub mod state;

pub use conn::{respond, step, CloseKind, ConnAction, ConnEvent, ConnState};
pub use json::{parse_json, JsonValue};
pub use query::{
    decode_query, DecodeError, DirectBackendCmdParams, GetAllDomainsParams, GetDomainInfoParams,
    InitializeParams, ListParams, LookupParams, Query,
};
pub use reply::{decode_reply, encode_reply, InitializeReply, LookupReply, Reply};
pub use state::{CounterMap, State};
