//! The error taxonomy of the client: local state-machine violations,
//! credential problems, and wrapped transport failures.

use vstd::prelude::*;

verus! {

/// Status code an endpoint reports when the session's credential has
/// expired; the one code the retry policy reacts to.
pub const STATUS_UNAUTHENTICATED: u32 = 16;

/// Status code the endpoint model reports when it has no reply left for a
/// call, standing for an unreachable server.
pub const STATUS_UNAVAILABLE: u32 = 14;

/// Status code used for a login reply whose credential payload could not be
/// decoded.
pub const STATUS_INTERNAL: u32 = 13;

/// A transport-level failure. The coordination logic reads exactly one
/// thing out of such a failure: its status code, which decides whether the
/// failure means "credential expired" (and so is worth one refresh-and-retry
/// round) or anything else.
#[derive(Clone, Copy, Debug, PartialEq, Eq, Structural)]
pub struct GrpcError {
    pub code: u32,
}

impl GrpcError {
    /// True when this failure reports an expired credential.
    pub open spec fn is_unauthenticated(self) -> bool {
        self.code == STATUS_UNAUTHENTICATED
    }
}

/// The error type for all public operations of the library.
///
/// Transport failures are wrapped into `GrpcError`; every other variant is
/// detected locally, before any call leaves the client.
#[derive(Clone, Copy, Debug, PartialEq, Eq, Structural)]
pub enum DgraphError {
    /// A mutation was attempted, or a commit requested, on a read-only
    /// transaction.
    TxnReadOnly,
    /// An operation was attempted on a transaction that has already been
    /// committed or discarded.
    TxnFinished,
    /// A successful query reply carried no transaction context to merge.
    EmptyTxn,
    /// Reserved: a mutation reply without a transaction context.
    MissingTxnContext,
    /// Best-effort reads were requested on a transaction that is not
    /// read-only.
    WriteTxnBestEffort,
    /// A reply reported a start timestamp different from the one this
    /// transaction already runs under.
    StartTsMismatch,
    /// A credential refresh was requested but no refresh token is held.
    JwtRefreshTokenEmpty,
    /// A transport failure, carried unchanged.
    GrpcError(GrpcError),
}

impl From<GrpcError> for DgraphError {
    fn from(err: GrpcError) -> (r: Self) {
        DgraphError::GrpcError(err)
    }
}

impl vstd::std_specs::convert::FromSpecImpl<GrpcError> for DgraphError {
    open spec fn obeys_from_spec() -> bool {
        true
    }

    open spec fn from_spec(err: GrpcError) -> Self {
        DgraphError::GrpcError(err)
    }
}

} // verus!
