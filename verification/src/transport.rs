//! The endpoint model. A `DgraphClient` stands for one server connection:
//! it replays a pre-arranged queue of replies for each call kind and
//! records every call it receives. The coordination logic above is
//! verified against the exact contract of each exchange: the `calls` log
//! carries the fields the lifecycle guarantees are counted over, and the
//! ghost per-kind request logs carry every dispatched payload whole, so a
//! contract can pin exactly what was sent — credentials, query text,
//! variables, flags, and the full transaction context with its
//! accumulated keys and predicates.

use vstd::prelude::*;

use crate::api::Assigned;
use crate::api::CallOption;
use crate::api::Check;
use crate::api::LoginRequest;
use crate::api::Mutation;
use crate::api::Operation;
use crate::api::Payload;
use crate::api::Request;
use crate::api::Response;
use crate::api::TxnContext;
use crate::api::Version;
use crate::errors::GrpcError;
use crate::errors::STATUS_UNAVAILABLE;

verus! {

/// Which remote procedure a recorded call used.
#[derive(Clone, Copy, Debug, PartialEq, Eq, Structural)]
pub enum CallKind {
    Login,
    Query,
    Mutate,
    Alter,
    CommitOrAbort,
    CheckVersion,
}

/// What an endpoint records of one call for runtime inspection: the
/// procedure and the few fields the transaction lifecycle is counted
/// over. The whole payload stands in the ghost request logs beside it.
#[derive(Clone, Copy, Debug, PartialEq, Eq, Structural)]
pub struct CallRecord {
    pub kind: CallKind,
    /// The start timestamp stamped on a query or commit-or-abort call.
    pub start_ts: u64,
    /// The abort flag of a commit-or-abort call.
    pub aborted: bool,
    /// How many mutations a query call carried.
    pub mutation_count: usize,
    /// The commit-now flag of a query call.
    pub commit_now: bool,
    /// Whether a login call used a refresh token rather than a password.
    pub refresh: bool,
}

/// The record of a query call.
pub open spec fn query_record(req: Request) -> CallRecord {
    CallRecord {
        kind: CallKind::Query,
        start_ts: req.start_ts,
        aborted: false,
        mutation_count: req.mutations@.len() as usize,
        commit_now: req.commit_now,
        refresh: false,
    }
}

/// The record of a login call.
pub open spec fn login_record(req: LoginRequest) -> CallRecord {
    CallRecord {
        kind: CallKind::Login,
        start_ts: 0,
        aborted: false,
        mutation_count: 0,
        commit_now: false,
        refresh: req.refresh_token@.len() > 0,
    }
}

/// The record of a commit-or-abort call.
pub open spec fn commit_or_abort_record(ctx: TxnContext) -> CallRecord {
    CallRecord {
        kind: CallKind::CommitOrAbort,
        start_ts: ctx.start_ts,
        aborted: ctx.aborted,
        mutation_count: 0,
        commit_now: false,
        refresh: false,
    }
}

/// The record of a bare mutate call.
pub open spec fn mutate_record(commit_now: bool) -> CallRecord {
    CallRecord {
        kind: CallKind::Mutate,
        start_ts: 0,
        aborted: false,
        mutation_count: 1,
        commit_now,
        refresh: false,
    }
}

/// The record of an administrative call.
pub open spec fn alter_record() -> CallRecord {
    CallRecord {
        kind: CallKind::Alter,
        start_ts: 0,
        aborted: false,
        mutation_count: 0,
        commit_now: false,
        refresh: false,
    }
}

/// The record of a version probe.
pub open spec fn check_version_record() -> CallRecord {
    CallRecord {
        kind: CallKind::CheckVersion,
        start_ts: 0,
        aborted: false,
        mutation_count: 0,
        commit_now: false,
        refresh: false,
    }
}

/// The reply an endpoint gives for the front of a reply queue: the first
/// queued reply, or an unavailable-server failure when the queue is empty.
pub open spec fn head_reply<T>(q: Seq<Result<T, GrpcError>>) -> Result<T, GrpcError> {
    if q.len() > 0 {
        q[0]
    } else {
        Err(GrpcError { code: STATUS_UNAVAILABLE })
    }
}

/// A reply queue after its front was handed out.
pub open spec fn tail_reply<T>(q: Seq<Result<T, GrpcError>>) -> Seq<Result<T, GrpcError>> {
    if q.len() > 0 {
        q.skip(1)
    } else {
        q
    }
}

/// One endpoint: a handle standing for a single server connection.
///
/// Each call kind has its own reply queue, consumed front to back; every
/// call is appended to `calls` in the order it was made, whatever its
/// kind, and the full request of each call is appended to that kind's
/// ghost log. An exhausted queue answers with an unavailable-server
/// failure.
pub struct DgraphClient {
    pub login_replies: Vec<Result<Response, GrpcError>>,
    pub query_replies: Vec<Result<Response, GrpcError>>,
    pub mutate_replies: Vec<Result<Assigned, GrpcError>>,
    pub alter_replies: Vec<Result<Payload, GrpcError>>,
    pub commit_replies: Vec<Result<TxnContext, GrpcError>>,
    pub version_replies: Vec<Result<Version, GrpcError>>,
    pub calls: Vec<CallRecord>,
    pub login_sent: Ghost<Seq<LoginRequest>>,
    pub query_sent: Ghost<Seq<Request>>,
    pub mutate_sent: Ghost<Seq<Mutation>>,
    pub alter_sent: Ghost<Seq<Operation>>,
    pub commit_sent: Ghost<Seq<TxnContext>>,
    pub version_sent: Ghost<Seq<Check>>,
}

/// How one login call with request `req` changes an endpoint: the call is
/// recorded, the request is logged whole, and the front login reply is
/// consumed; nothing else moves.
pub open spec fn client_login_step(pre: DgraphClient, post: DgraphClient, req: LoginRequest) -> bool {
    &&& post.calls@ == pre.calls@.push(login_record(req))
    &&& post.login_sent@ == pre.login_sent@.push(req)
    &&& post.login_replies@ == tail_reply(pre.login_replies@)
    &&& post.query_replies == pre.query_replies
    &&& post.mutate_replies == pre.mutate_replies
    &&& post.alter_replies == pre.alter_replies
    &&& post.commit_replies == pre.commit_replies
    &&& post.version_replies == pre.version_replies
    &&& post.query_sent@ == pre.query_sent@
    &&& post.mutate_sent@ == pre.mutate_sent@
    &&& post.alter_sent@ == pre.alter_sent@
    &&& post.commit_sent@ == pre.commit_sent@
    &&& post.version_sent@ == pre.version_sent@
}

/// How one query call with request `req` changes an endpoint.
pub open spec fn client_query_step(pre: DgraphClient, post: DgraphClient, req: Request) -> bool {
    &&& post.calls@ == pre.calls@.push(query_record(req))
    &&& post.query_sent@ == pre.query_sent@.push(req)
    &&& post.query_replies@ == tail_reply(pre.query_replies@)
    &&& post.login_replies == pre.login_replies
    &&& post.mutate_replies == pre.mutate_replies
    &&& post.alter_replies == pre.alter_replies
    &&& post.commit_replies == pre.commit_replies
    &&& post.version_replies == pre.version_replies
    &&& post.login_sent@ == pre.login_sent@
    &&& post.mutate_sent@ == pre.mutate_sent@
    &&& post.alter_sent@ == pre.alter_sent@
    &&& post.commit_sent@ == pre.commit_sent@
    &&& post.version_sent@ == pre.version_sent@
}

/// How one bare mutate call changes an endpoint.
pub open spec fn client_mutate_step(pre: DgraphClient, post: DgraphClient, mu: Mutation) -> bool {
    &&& post.calls@ == pre.calls@.push(mutate_record(mu.commit_now))
    &&& post.mutate_sent@ == pre.mutate_sent@.push(mu)
    &&& post.mutate_replies@ == tail_reply(pre.mutate_replies@)
    &&& post.login_replies == pre.login_replies
    &&& post.query_replies == pre.query_replies
    &&& post.alter_replies == pre.alter_replies
    &&& post.commit_replies == pre.commit_replies
    &&& post.version_replies == pre.version_replies
    &&& post.login_sent@ == pre.login_sent@
    &&& post.query_sent@ == pre.query_sent@
    &&& post.alter_sent@ == pre.alter_sent@
    &&& post.commit_sent@ == pre.commit_sent@
    &&& post.version_sent@ == pre.version_sent@
}

/// How one administrative call with operation `op` changes an endpoint.
pub open spec fn client_alter_step(pre: DgraphClient, post: DgraphClient, op: Operation) -> bool {
    &&& post.calls@ == pre.calls@.push(alter_record())
    &&& post.alter_sent@ == pre.alter_sent@.push(op)
    &&& post.alter_replies@ == tail_reply(pre.alter_replies@)
    &&& post.login_replies == pre.login_replies
    &&& post.query_replies == pre.query_replies
    &&& post.mutate_replies == pre.mutate_replies
    &&& post.commit_replies == pre.commit_replies
    &&& post.version_replies == pre.version_replies
    &&& post.login_sent@ == pre.login_sent@
    &&& post.query_sent@ == pre.query_sent@
    &&& post.mutate_sent@ == pre.mutate_sent@
    &&& post.commit_sent@ == pre.commit_sent@
    &&& post.version_sent@ == pre.version_sent@
}

/// How one commit-or-abort call carrying `ctx` changes an endpoint: the
/// context travels whole, accumulated keys and predicates included.
pub open spec fn client_commit_step(pre: DgraphClient, post: DgraphClient, ctx: TxnContext) -> bool {
    &&& post.calls@ == pre.calls@.push(commit_or_abort_record(ctx))
    &&& post.commit_sent@ == pre.commit_sent@.push(ctx)
    &&& post.commit_replies@ == tail_reply(pre.commit_replies@)
    &&& post.login_replies == pre.login_replies
    &&& post.query_replies == pre.query_replies
    &&& post.mutate_replies == pre.mutate_replies
    &&& post.alter_replies == pre.alter_replies
    &&& post.version_replies == pre.version_replies
    &&& post.login_sent@ == pre.login_sent@
    &&& post.query_sent@ == pre.query_sent@
    &&& post.mutate_sent@ == pre.mutate_sent@
    &&& post.alter_sent@ == pre.alter_sent@
    &&& post.version_sent@ == pre.version_sent@
}

/// How one version probe changes an endpoint.
pub open spec fn client_version_step(pre: DgraphClient, post: DgraphClient, c: Check) -> bool {
    &&& post.calls@ == pre.calls@.push(check_version_record())
    &&& post.version_sent@ == pre.version_sent@.push(c)
    &&& post.version_replies@ == tail_reply(pre.version_replies@)
    &&& post.login_replies == pre.login_replies
    &&& post.query_replies == pre.query_replies
    &&& post.mutate_replies == pre.mutate_replies
    &&& post.alter_replies == pre.alter_replies
    &&& post.commit_replies == pre.commit_replies
    &&& post.login_sent@ == pre.login_sent@
    &&& post.query_sent@ == pre.query_sent@
    &&& post.mutate_sent@ == pre.mutate_sent@
    &&& post.alter_sent@ == pre.alter_sent@
    &&& post.commit_sent@ == pre.commit_sent@
}

impl DgraphClient {
    /// A fresh endpoint: no queued replies, no recorded calls.
    pub fn new() -> (r: DgraphClient)
        ensures
            r.login_replies@ == Seq::<Result<Response, GrpcError>>::empty(),
            r.query_replies@ == Seq::<Result<Response, GrpcError>>::empty(),
            r.mutate_replies@ == Seq::<Result<Assigned, GrpcError>>::empty(),
            r.alter_replies@ == Seq::<Result<Payload, GrpcError>>::empty(),
            r.commit_replies@ == Seq::<Result<TxnContext, GrpcError>>::empty(),
            r.version_replies@ == Seq::<Result<Version, GrpcError>>::empty(),
            r.calls@ == Seq::<CallRecord>::empty(),
            r.login_sent@ == Seq::<LoginRequest>::empty(),
            r.query_sent@ == Seq::<Request>::empty(),
            r.mutate_sent@ == Seq::<Mutation>::empty(),
            r.alter_sent@ == Seq::<Operation>::empty(),
            r.commit_sent@ == Seq::<TxnContext>::empty(),
            r.version_sent@ == Seq::<Check>::empty(),
    {
        DgraphClient {
            login_replies: Vec::new(),
            query_replies: Vec::new(),
            mutate_replies: Vec::new(),
            alter_replies: Vec::new(),
            commit_replies: Vec::new(),
            version_replies: Vec::new(),
            calls: Vec::new(),
            login_sent: Ghost(Seq::empty()),
            query_sent: Ghost(Seq::empty()),
            mutate_sent: Ghost(Seq::empty()),
            alter_sent: Ghost(Seq::empty()),
            commit_sent: Ghost(Seq::empty()),
            version_sent: Ghost(Seq::empty()),
        }
    }

    pub fn login_opt(&mut self, req: &LoginRequest, opt: CallOption) -> (r: Result<
        Response,
        GrpcError,
    >)
        ensures
            r == head_reply(old(self).login_replies@),
            client_login_step(*old(self), *final(self), *req),
    {
        let _ = opt;
        let refresh = req.refresh_token.len() > 0;
        self.calls.push(
            CallRecord {
                kind: CallKind::Login,
                start_ts: 0,
                aborted: false,
                mutation_count: 0,
                commit_now: false,
                refresh,
            },
        );
        proof {
            self.login_sent@ = self.login_sent@.push(*req);
        }
        if self.login_replies.len() > 0 {
            let r = self.login_replies.remove(0);
            proof {
                assert(final(self).login_replies@ =~= tail_reply(old(self).login_replies@));
            }
            r
        } else {
            Err(GrpcError { code: STATUS_UNAVAILABLE })
        }
    }

    pub fn login(&mut self, req: &LoginRequest) -> (r: Result<Response, GrpcError>)
        ensures
            r == head_reply(old(self).login_replies@),
            client_login_step(*old(self), *final(self), *req),
    {
        self.login_opt(req, CallOption::default())
    }

    pub fn query_opt(&mut self, req: &Request, opt: CallOption) -> (r: Result<Response, GrpcError>)
        ensures
            r == head_reply(old(self).query_replies@),
            client_query_step(*old(self), *final(self), *req),
    {
        let _ = opt;
        self.calls.push(
            CallRecord {
                kind: CallKind::Query,
                start_ts: req.start_ts,
                aborted: false,
                mutation_count: req.mutations.len(),
                commit_now: req.commit_now,
                refresh: false,
            },
        );
        proof {
            self.query_sent@ = self.query_sent@.push(*req);
        }
        if self.query_replies.len() > 0 {
            let r = self.query_replies.remove(0);
            proof {
                assert(final(self).query_replies@ =~= tail_reply(old(self).query_replies@));
            }
            r
        } else {
            Err(GrpcError { code: STATUS_UNAVAILABLE })
        }
    }

    pub fn query(&mut self, req: &Request) -> (r: Result<Response, GrpcError>)
        ensures
            r == head_reply(old(self).query_replies@),
            client_query_step(*old(self), *final(self), *req),
    {
        self.query_opt(req, CallOption::default())
    }

    pub fn mutate_opt(&mut self, req: &Mutation, opt: CallOption) -> (r: Result<
        Assigned,
        GrpcError,
    >)
        ensures
            r == head_reply(old(self).mutate_replies@),
            client_mutate_step(*old(self), *final(self), *req),
    {
        let _ = opt;
        self.calls.push(
            CallRecord {
                kind: CallKind::Mutate,
                start_ts: 0,
                aborted: false,
                mutation_count: 1,
                commit_now: req.commit_now,
                refresh: false,
            },
        );
        proof {
            self.mutate_sent@ = self.mutate_sent@.push(*req);
        }
        if self.mutate_replies.len() > 0 {
            let r = self.mutate_replies.remove(0);
            proof {
                assert(final(self).mutate_replies@ =~= tail_reply(old(self).mutate_replies@));
            }
            r
        } else {
            Err(GrpcError { code: STATUS_UNAVAILABLE })
        }
    }

    pub fn mutate(&mut self, req: &Mutation) -> (r: Result<Assigned, GrpcError>)
        ensures
            r == head_reply(old(self).mutate_replies@),
            client_mutate_step(*old(self), *final(self), *req),
    {
        self.mutate_opt(req, CallOption::default())
    }

    pub fn alter_opt(&mut self, req: &Operation, opt: CallOption) -> (r: Result<Payload, GrpcError>)
        ensures
            r == head_reply(old(self).alter_replies@),
            client_alter_step(*old(self), *final(self), *req),
    {
        let _ = opt;
        self.calls.push(
            CallRecord {
                kind: CallKind::Alter,
                start_ts: 0,
                aborted: false,
                mutation_count: 0,
                commit_now: false,
                refresh: false,
            },
        );
        proof {
            self.alter_sent@ = self.alter_sent@.push(*req);
        }
        if self.alter_replies.len() > 0 {
            let r = self.alter_replies.remove(0);
            proof {
                assert(final(self).alter_replies@ =~= tail_reply(old(self).alter_replies@));
            }
            r
        } else {
            Err(GrpcError { code: STATUS_UNAVAILABLE })
        }
    }

    pub fn alter(&mut self, req: &Operation) -> (r: Result<Payload, GrpcError>)
        ensures
            r == head_reply(old(self).alter_replies@),
            client_alter_step(*old(self), *final(self), *req),
    {
        self.alter_opt(req, CallOption::default())
    }

    pub fn commit_or_abort_opt(&mut self, req: &TxnContext, opt: CallOption) -> (r: Result<
        TxnContext,
        GrpcError,
    >)
        ensures
            r == head_reply(old(self).commit_replies@),
            client_commit_step(*old(self), *final(self), *req),
    {
        let _ = opt;
        self.calls.push(
            CallRecord {
                kind: CallKind::CommitOrAbort,
                start_ts: req.start_ts,
                aborted: req.aborted,
                mutation_count: 0,
                commit_now: false,
                refresh: false,
            },
        );
        proof {
            self.commit_sent@ = self.commit_sent@.push(*req);
        }
        if self.commit_replies.len() > 0 {
            let r = self.commit_replies.remove(0);
            proof {
                assert(final(self).commit_replies@ =~= tail_reply(old(self).commit_replies@));
            }
            r
        } else {
            Err(GrpcError { code: STATUS_UNAVAILABLE })
        }
    }

    pub fn commit_or_abort(&mut self, req: &TxnContext) -> (r: Result<TxnContext, GrpcError>)
        ensures
            r == head_reply(old(self).commit_replies@),
            client_commit_step(*old(self), *final(self), *req),
    {
        self.commit_or_abort_opt(req, CallOption::default())
    }

    pub fn check_version_opt(&mut self, req: &Check, opt: CallOption) -> (r: Result<
        Version,
        GrpcError,
    >)
        ensures
            r == head_reply(old(self).version_replies@),
            client_version_step(*old(self), *final(self), *req),
    {
        let _ = opt;
        self.calls.push(
            CallRecord {
                kind: CallKind::CheckVersion,
                start_ts: 0,
                aborted: false,
                mutation_count: 0,
                commit_now: false,
                refresh: false,
            },
        );
        proof {
            self.version_sent@ = self.version_sent@.push(*req);
        }
        if self.version_replies.len() > 0 {
            let r = self.version_replies.remove(0);
            proof {
                assert(final(self).version_replies@ =~= tail_reply(old(self).version_replies@));
            }
            r
        } else {
            Err(GrpcError { code: STATUS_UNAVAILABLE })
        }
    }

    pub fn check_version(&mut self, req: &Check) -> (r: Result<Version, GrpcError>)
        ensures
            r == head_reply(old(self).version_replies@),
            client_version_step(*old(self), *final(self), *req),
    {
        self.check_version_opt(req, CallOption::default())
    }

    /// Queue the reply the endpoint will give to its next unanswered login.
    pub fn expect_login(&mut self, reply: Result<Response, GrpcError>)
        ensures
            final(self).login_replies@ == old(self).login_replies@.push(reply),
            final(self).query_replies == old(self).query_replies,
            final(self).mutate_replies == old(self).mutate_replies,
            final(self).alter_replies == old(self).alter_replies,
            final(self).commit_replies == old(self).commit_replies,
            final(self).version_replies == old(self).version_replies,
            final(self).calls == old(self).calls,
            sent_logs_unchanged(*old(self), *final(self)),
    {
        self.login_replies.push(reply);
    }

    /// Queue the reply the endpoint will give to its next unanswered query.
    pub fn expect_query(&mut self, reply: Result<Response, GrpcError>)
        ensures
            final(self).query_replies@ == old(self).query_replies@.push(reply),
            final(self).login_replies == old(self).login_replies,
            final(self).mutate_replies == old(self).mutate_replies,
            final(self).alter_replies == old(self).alter_replies,
            final(self).commit_replies == old(self).commit_replies,
            final(self).version_replies == old(self).version_replies,
            final(self).calls == old(self).calls,
            sent_logs_unchanged(*old(self), *final(self)),
    {
        self.query_replies.push(reply);
    }

    /// Queue the reply the endpoint will give to its next unanswered
    /// bare mutate call.
    pub fn expect_mutate(&mut self, reply: Result<Assigned, GrpcError>)
        ensures
            final(self).mutate_replies@ == old(self).mutate_replies@.push(reply),
            final(self).login_replies == old(self).login_replies,
            final(self).query_replies == old(self).query_replies,
            final(self).alter_replies == old(self).alter_replies,
            final(self).commit_replies == old(self).commit_replies,
            final(self).version_replies == old(self).version_replies,
            final(self).calls == old(self).calls,
            sent_logs_unchanged(*old(self), *final(self)),
    {
        self.mutate_replies.push(reply);
    }

    /// Queue the reply the endpoint will give to its next unanswered
    /// administrative call.
    pub fn expect_alter(&mut self, reply: Result<Payload, GrpcError>)
        ensures
            final(self).alter_replies@ == old(self).alter_replies@.push(reply),
            final(self).login_replies == old(self).login_replies,
            final(self).query_replies == old(self).query_replies,
            final(self).mutate_replies == old(self).mutate_replies,
            final(self).commit_replies == old(self).commit_replies,
            final(self).version_replies == old(self).version_replies,
            final(self).calls == old(self).calls,
            sent_logs_unchanged(*old(self), *final(self)),
    {
        self.alter_replies.push(reply);
    }

    /// Queue the reply the endpoint will give to its next unanswered
    /// commit-or-abort call.
    pub fn expect_commit_or_abort(&mut self, reply: Result<TxnContext, GrpcError>)
        ensures
            final(self).commit_replies@ == old(self).commit_replies@.push(reply),
            final(self).login_replies == old(self).login_replies,
            final(self).query_replies == old(self).query_replies,
            final(self).mutate_replies == old(self).mutate_replies,
            final(self).alter_replies == old(self).alter_replies,
            final(self).version_replies == old(self).version_replies,
            final(self).calls == old(self).calls,
            sent_logs_unchanged(*old(self), *final(self)),
    {
        self.commit_replies.push(reply);
    }

    /// Queue the reply the endpoint will give to its next unanswered
    /// version probe.
    pub fn expect_check_version(&mut self, reply: Result<Version, GrpcError>)
        ensures
            final(self).version_replies@ == old(self).version_replies@.push(reply),
            final(self).login_replies == old(self).login_replies,
            final(self).query_replies == old(self).query_replies,
            final(self).mutate_replies == old(self).mutate_replies,
            final(self).alter_replies == old(self).alter_replies,
            final(self).commit_replies == old(self).commit_replies,
            final(self).calls == old(self).calls,
            sent_logs_unchanged(*old(self), *final(self)),
    {
        self.version_replies.push(reply);
    }
}

/// No request reached the endpoint: every ghost request log is as it was.
pub open spec fn sent_logs_unchanged(pre: DgraphClient, post: DgraphClient) -> bool {
    &&& post.login_sent@ == pre.login_sent@
    &&& post.query_sent@ == pre.query_sent@
    &&& post.mutate_sent@ == pre.mutate_sent@
    &&& post.alter_sent@ == pre.alter_sent@
    &&& post.commit_sent@ == pre.commit_sent@
    &&& post.version_sent@ == pre.version_sent@
}

/// A pool change that touches at most the endpoint at `i`.
pub open spec fn pool_frame(pre: Seq<DgraphClient>, post: Seq<DgraphClient>, i: int) -> bool {
    &&& post.len() == pre.len()
    &&& forall|j: int| 0 <= j < pre.len() && j != i ==> post[j] == pre[j]
}

/// Borrow the endpoint at `i` of a pool for one exchange.
pub(crate) fn endpoint_at(dc: &mut Vec<DgraphClient>, i: usize) -> (c: &mut DgraphClient)
    requires
        i < old(dc)@.len(),
    ensures
        *c == old(dc)@[i as int],
        final(dc)@ == old(dc)@.update(i as int, *final(c)),
{
    &mut dc[i]
}

} // verus!
