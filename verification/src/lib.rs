//! Client-side dispatch core of an RPC framework: server selection, a
//! create-once connection cache, and the failure policy applied to each call.

pub mod cache;
pub mod dispatcher;
pub mod error;
pub mod modes;
pub mod policy;
pub mod runs;
pub mod server_key;

pub use cache::ConnectionCache;
pub use dispatcher::{ClientSelector, Directive, Opt, ServiceDiscovery, XClient};
pub use error::CallError;
pub use modes::{FailMode, SelectMode};
pub use policy::{Action, CallState, Phase, Slot};
pub use server_key::{parse_server_key, Endpoint};
