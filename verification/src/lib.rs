//! Client-side coordination layer for a transactional graph store reached
//! over RPC: a session that owns a pool of endpoints and the current
//! credential, and a transaction type that enforces the optimistic
//! concurrency-control lifecycle (start-timestamp tracking, conflict-metadata
//! accumulation, single-retry credential refresh, and a strict
//! commit-or-abort state machine).

mod api;
mod client;
mod codec;
mod errors;
mod transport;
mod txn;

pub use api::Assigned;
pub use api::CallOption;
pub use api::Check;
pub use api::Jwt;
pub use api::LoginRequest;
pub use api::Mutation;
pub use api::Operation;
pub use api::Payload;
pub use api::Request;
pub use api::Response;
pub use api::TxnContext;
pub use api::Version;
pub use client::Dgraph;
pub use codec::encode_jwt;
pub use codec::parse_jwt;
pub use errors::DgraphError;
pub use errors::GrpcError;
pub use transport::CallKind;
pub use transport::CallRecord;
pub use transport::DgraphClient;
pub use txn::Txn;
