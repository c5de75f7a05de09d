//! The transaction: one logical unit of work against the store. It tracks
//! the server-assigned start timestamp, accumulates conflict keys and
//! predicates by plain append, rejects illegal operations locally before
//! anything reaches an endpoint, retries once after a credential refresh,
//! and moves to `finished` exactly once, never back.

use vstd::prelude::*;

use crate::api::Mutation;
use crate::api::Request;
use crate::api::Response;
use crate::api::TxnContext;
use crate::client::lemma_refresh_is_single_login;
use crate::client::lemma_refresh_succeeds_when_replies_parse;
use crate::client::login_head_parses;
use crate::client::refresh_transition;
use crate::client::Dgraph;
use crate::errors::DgraphError;
use crate::errors::GrpcError;
use crate::transport::client_commit_step;
use crate::transport::client_query_step;
use crate::transport::commit_or_abort_record;
use crate::transport::endpoint_at;
use crate::transport::head_reply;
use crate::transport::pool_frame;
use crate::transport::tail_reply;
use crate::transport::DgraphClient;
use vstd::string::StringExecFns;

verus! {

/// One transaction. It is pinned to the session endpoint chosen at its
/// creation; every call takes the owning session, through which the
/// endpoint is reached and the credential refreshed.
pub struct Txn {
    /// The accumulated optimistic-concurrency metadata.
    pub context: TxnContext,
    /// Set exactly once, by commit, discard, or the caller's final
    /// cleanup; no operation is permitted afterwards.
    pub finished: bool,
    /// A read-only transaction rejects mutations and commits locally.
    pub read_only: bool,
    /// Relaxes timestamp freshness on queries of a read-only transaction.
    pub best_effort: bool,
    /// Whether a mutation was ever dispatched, so that finishing must
    /// reconcile with the server.
    pub mutated: bool,
    /// The index of the session endpoint this transaction uses.
    pub client: usize,
}

/// Merging is legal when the local start timestamp is unset or agrees
/// with the reply's.
pub open spec fn merge_ok(c: TxnContext, src: TxnContext) -> bool {
    c.start_ts == 0 || c.start_ts == src.start_ts
}

/// The start timestamp after a merge: adopted when unset, kept otherwise.
pub open spec fn merged_start_ts(c: TxnContext, src: TxnContext) -> u64 {
    if c.start_ts == 0 {
        src.start_ts
    } else {
        c.start_ts
    }
}

/// A context after a legal merge: the timestamp resolved, every key and
/// predicate of the reply appended in order, duplicates kept, and the
/// abort flag untouched.
pub open spec fn ctx_merged(pre: TxnContext, post: TxnContext, src: TxnContext) -> bool {
    &&& post.start_ts == merged_start_ts(pre, src)
    &&& post.keys@ == pre.keys@ + src.keys@
    &&& post.preds@ == pre.preds@ + src.preds@
    &&& post.aborted == pre.aborted
}

/// How one merge changes a transaction: a legal merge accumulates and
/// succeeds; an illegal one fails with `StartTsMismatch` and changes
/// nothing, the local timestamp included.
pub open spec fn merge_transition(
    pre: Txn,
    post: Txn,
    src: TxnContext,
    r: Result<(), DgraphError>,
) -> bool {
    if merge_ok(pre.context, src) {
        &&& r is Ok
        &&& ctx_merged(pre.context, post.context, src)
        &&& post == (Txn { context: post.context, ..pre })
    } else {
        &&& r == Err::<(), DgraphError>(DgraphError::StartTsMismatch)
        &&& post == pre
    }
}

/// A transaction with its abort flag raised, as discard marks it before
/// finishing.
pub open spec fn abort_marked(t: Txn) -> Txn {
    Txn { context: TxnContext { aborted: true, ..t.context }, ..t }
}

/// One commit-or-abort attempt: the endpoint at `i` answers one recorded
/// commit-or-abort call carrying `ctx`.
pub open spec fn coa_attempt_step(
    pre: Seq<DgraphClient>,
    post: Seq<DgraphClient>,
    i: int,
    ctx: TxnContext,
) -> bool {
    &&& 0 <= i < pre.len()
    &&& pool_frame(pre, post, i)
    &&& client_commit_step(pre[i], post[i], ctx)
}

/// One query attempt: the endpoint at `i` answers one recorded query call
/// carrying `req`.
pub open spec fn query_attempt_step(
    pre: Seq<DgraphClient>,
    post: Seq<DgraphClient>,
    i: int,
    req: Request,
) -> bool {
    &&& 0 <= i < pre.len()
    &&& pool_frame(pre, post, i)
    &&& client_query_step(pre[i], post[i], req)
}

/// How finishing changes a transaction and its session. Finishing an
/// already finished transaction succeeds at once and touches nothing.
/// Otherwise `finished` is set before anything else, so a failed call
/// never leaves the transaction re-enterable; a transaction that never
/// mutated finishes without any call; one that did sends its context to
/// its endpoint, with one refresh-and-retry on an expired credential.
pub open spec fn finish_transition(
    pre_t: Txn,
    post_t: Txn,
    pre_d: Dgraph,
    post_d: Dgraph,
    r: Result<(), DgraphError>,
) -> bool {
    if pre_t.finished {
        &&& r is Ok
        &&& post_t == pre_t
        &&& post_d == pre_d
    } else {
        &&& post_t == (Txn { finished: true, ..pre_t })
        &&& if !pre_t.mutated {
            &&& r is Ok
            &&& post_d == pre_d
        } else {
            let i = pre_t.client as int;
            match head_reply(pre_d.dc@[i].commit_replies@) {
                Ok(c) => {
                    &&& coa_attempt_step(pre_d.dc@, post_d.dc@, i, pre_t.context)
                    &&& post_d.jwt == pre_d.jwt
                    &&& r is Ok
                },
                Err(e) => {
                    if !e.is_unauthenticated() {
                        &&& coa_attempt_step(pre_d.dc@, post_d.dc@, i, pre_t.context)
                        &&& post_d.jwt == pre_d.jwt
                        &&& r == Err::<(), DgraphError>(DgraphError::GrpcError(e))
                    } else {
                        exists|mid: Dgraph, mid2: Dgraph, rr: Result<(), DgraphError>|
                            #![trigger refresh_transition(mid, mid2, rr)]
                            {
                                &&& coa_attempt_step(pre_d.dc@, mid.dc@, i, pre_t.context)
                                &&& mid.jwt == pre_d.jwt
                                &&& refresh_transition(mid, mid2, rr)
                                &&& match rr {
                                    Ok(u) => {
                                        &&& coa_attempt_step(mid2.dc@, post_d.dc@, i, pre_t.context)
                                        &&& post_d.jwt == mid2.jwt
                                        &&& r == (match head_reply(mid2.dc@[i].commit_replies@) {
                                            Ok(c2) => Ok::<(), DgraphError>(()),
                                            Err(e2) => Err::<(), DgraphError>(
                                                DgraphError::GrpcError(e2),
                                            ),
                                        })
                                    },
                                    Err(le) => {
                                        &&& post_d == mid2
                                        &&& r == Err::<(), DgraphError>(le)
                                    },
                                }
                            }
                    }
                },
            }
        }
    }
}

/// How a discard changes a transaction and its session: the abort flag is
/// raised, then the transaction finishes. Discarding a finished
/// transaction is a no-op success.
pub open spec fn discard_transition(
    pre_t: Txn,
    post_t: Txn,
    pre_d: Dgraph,
    post_d: Dgraph,
    r: Result<(), DgraphError>,
) -> bool {
    finish_transition(abort_marked(pre_t), post_t, pre_d, post_d, r)
}

/// How a successful query reply is absorbed: with `commit_now` the
/// transaction finishes on the spot; then the reply's context is merged.
/// A reply without a context, or one whose start timestamp disagrees,
/// surfaces an error, but the finish already happened.
pub open spec fn absorb_response(
    pre_t: Txn,
    post_t: Txn,
    resp: Response,
    commit_now: bool,
    r: Result<Response, DgraphError>,
) -> bool {
    let t1 = Txn { finished: pre_t.finished || commit_now, ..pre_t };
    match resp.txn {
        Some(src) => {
            if merge_ok(t1.context, src) {
                &&& r == Ok::<Response, DgraphError>(resp)
                &&& ctx_merged(t1.context, post_t.context, src)
                &&& post_t == (Txn { context: post_t.context, ..t1 })
            } else {
                &&& r == Err::<Response, DgraphError>(DgraphError::StartTsMismatch)
                &&& post_t == t1
            }
        },
        None => {
            &&& r == Err::<Response, DgraphError>(DgraphError::EmptyTxn)
            &&& post_t == t1
        },
    }
}

/// The implicit discard after a decisive failure: the transaction is
/// discarded against the session as it then stood, and whatever that
/// discard itself returned was swallowed.
pub open spec fn swallowed_discard(t1: Txn, post_t: Txn, pre_d: Dgraph, post_d: Dgraph) -> bool {
    exists|dr: Result<(), DgraphError>|
        #![trigger discard_transition(t1, post_t, pre_d, post_d, dr)]
        discard_transition(t1, post_t, pre_d, post_d, dr)
}

/// One more failed query attempt on the endpoint at `i`, followed by the
/// swallowed implicit discard.
pub open spec fn aborted_after_query(
    t1: Txn,
    post_t: Txn,
    pre_d: Dgraph,
    post_d: Dgraph,
    i: int,
    reqs: Request,
) -> bool {
    exists|mid: Dgraph|
        #![trigger swallowed_discard(t1, post_t, mid, post_d)]
        {
            &&& query_attempt_step(pre_d.dc@, mid.dc@, i, reqs)
            &&& mid.jwt == pre_d.jwt
            &&& swallowed_discard(t1, post_t, mid, post_d)
        }
}

/// What follows a first attempt that reported an expired credential: one
/// credential refresh, then either one retry of the same request (whose
/// reply is absorbed, or whose failure triggers the implicit discard and
/// is surfaced), or, when the refresh itself failed, the implicit discard
/// and the refresh error surfaced.
pub open spec fn refresh_and_retry(
    t1: Txn,
    post_t: Txn,
    mid: Dgraph,
    post_d: Dgraph,
    i: int,
    reqs: Request,
    r: Result<Response, DgraphError>,
) -> bool {
    exists|mid2: Dgraph, rr: Result<(), DgraphError>|
        #![trigger refresh_transition(mid, mid2, rr)]
        {
            &&& refresh_transition(mid, mid2, rr)
            &&& match rr {
                Ok(u) => match head_reply(mid2.dc@[i].query_replies@) {
                    Ok(resp) => {
                        &&& query_attempt_step(mid2.dc@, post_d.dc@, i, reqs)
                        &&& post_d.jwt == mid2.jwt
                        &&& absorb_response(t1, post_t, resp, reqs.commit_now, r)
                    },
                    Err(e2) => {
                        &&& r == Err::<Response, DgraphError>(DgraphError::GrpcError(e2))
                        &&& aborted_after_query(t1, post_t, mid2, post_d, i, reqs)
                    },
                },
                Err(le) => {
                    &&& r == Err::<Response, DgraphError>(le)
                    &&& swallowed_discard(t1, post_t, mid2, post_d)
                },
            }
        }
}

/// How one request changes a transaction and its session. A finished
/// transaction rejects the call; a mutation on a read-only transaction is
/// rejected; both locally, touching neither session nor request. Otherwise
/// the mutation flag is set when mutations are carried, the request is
/// stamped with the local start timestamp, and one query attempt is made
/// on the transaction's endpoint: a reply is absorbed; an
/// expired-credential failure earns exactly one refresh and one retry; any
/// decisive failure triggers an implicit discard, whose own outcome is
/// swallowed, and is surfaced unchanged.
pub open spec fn do_request_transition(
    pre_t: Txn,
    post_t: Txn,
    pre_d: Dgraph,
    post_d: Dgraph,
    req0: Request,
    req1: Request,
    r: Result<Response, DgraphError>,
) -> bool {
    if pre_t.finished {
        &&& r == Err::<Response, DgraphError>(DgraphError::TxnFinished)
        &&& post_t == pre_t
        &&& post_d == pre_d
        &&& req1 == req0
    } else if req0.mutations@.len() > 0 && pre_t.read_only {
        &&& r == Err::<Response, DgraphError>(DgraphError::TxnReadOnly)
        &&& post_t == pre_t
        &&& post_d == pre_d
        &&& req1 == req0
    } else {
        let t1 = Txn { mutated: pre_t.mutated || req0.mutations@.len() > 0, ..pre_t };
        let reqs = Request { start_ts: pre_t.context.start_ts, ..req0 };
        let i = pre_t.client as int;
        &&& req1 == reqs
        &&& attempted_request(t1, post_t, pre_d, post_d, i, reqs, r)
    }
}

/// The one query attempt of a request that passed the local checks, and
/// everything that can follow it.
pub open spec fn attempted_request(
    t1: Txn,
    post_t: Txn,
    pre_d: Dgraph,
    post_d: Dgraph,
    i: int,
    reqs: Request,
    r: Result<Response, DgraphError>,
) -> bool {
    match head_reply(pre_d.dc@[i].query_replies@) {
        Ok(resp) => {
            &&& query_attempt_step(pre_d.dc@, post_d.dc@, i, reqs)
            &&& post_d.jwt == pre_d.jwt
            &&& absorb_response(t1, post_t, resp, reqs.commit_now, r)
        },
        Err(e) => {
            if !e.is_unauthenticated() {
                &&& r == Err::<Response, DgraphError>(DgraphError::GrpcError(e))
                &&& aborted_after_query(t1, post_t, pre_d, post_d, i, reqs)
            } else {
                exists|mid: Dgraph|
                    #![trigger refresh_and_retry(t1, post_t, mid, post_d, i, reqs, r)]
                    {
                        &&& query_attempt_step(pre_d.dc@, mid.dc@, i, reqs)
                        &&& mid.jwt == pre_d.jwt
                        &&& refresh_and_retry(t1, post_t, mid, post_d, i, reqs, r)
                    }
            }
        },
    }
}

/// After an expired-credential failure, a refresh that itself failed, and
/// the swallowed implicit discard, the whole request transition holds.
proof fn lemma_request_refresh_failed(
    pre_t: Txn,
    post_t: Txn,
    pre_d: Dgraph,
    mid: Dgraph,
    mid2: Dgraph,
    post_d: Dgraph,
    req0: Request,
    req1: Request,
    e: GrpcError,
    le: DgraphError,
    dr: Result<(), DgraphError>,
    r: Result<Response, DgraphError>,
)
    requires
        !pre_t.finished,
        !(req0.mutations@.len() > 0 && pre_t.read_only),
        req1 == (Request { start_ts: pre_t.context.start_ts, ..req0 }),
        head_reply(pre_d.dc@[pre_t.client as int].query_replies@) == Err::<Response, GrpcError>(e),
        e.is_unauthenticated(),
        query_attempt_step(pre_d.dc@, mid.dc@, pre_t.client as int, req1),
        mid.jwt == pre_d.jwt,
        refresh_transition(mid, mid2, Err(le)),
        discard_transition(
            Txn { mutated: pre_t.mutated || req0.mutations@.len() > 0, ..pre_t },
            post_t,
            mid2,
            post_d,
            dr,
        ),
        r == Err::<Response, DgraphError>(le),
    ensures
        do_request_transition(pre_t, post_t, pre_d, post_d, req0, req1, r),
{
    let t1 = Txn { mutated: pre_t.mutated || req0.mutations@.len() > 0, ..pre_t };
    let i = pre_t.client as int;
    assert(swallowed_discard(t1, post_t, mid2, post_d));
    assert(refresh_and_retry(t1, post_t, mid, post_d, i, req1, r));
}

/// After an expired-credential failure, a successful refresh, a second
/// attempt that failed, and the swallowed implicit discard, the whole
/// request transition holds.
proof fn lemma_request_retry_failed(
    pre_t: Txn,
    post_t: Txn,
    pre_d: Dgraph,
    mid: Dgraph,
    mid2: Dgraph,
    mid3: Dgraph,
    post_d: Dgraph,
    req0: Request,
    req1: Request,
    e: GrpcError,
    e2: GrpcError,
    dr: Result<(), DgraphError>,
    r: Result<Response, DgraphError>,
)
    requires
        !pre_t.finished,
        !(req0.mutations@.len() > 0 && pre_t.read_only),
        req1 == (Request { start_ts: pre_t.context.start_ts, ..req0 }),
        head_reply(pre_d.dc@[pre_t.client as int].query_replies@) == Err::<Response, GrpcError>(e),
        e.is_unauthenticated(),
        query_attempt_step(pre_d.dc@, mid.dc@, pre_t.client as int, req1),
        mid.jwt == pre_d.jwt,
        refresh_transition(mid, mid2, Ok(())),
        head_reply(mid2.dc@[pre_t.client as int].query_replies@) == Err::<Response, GrpcError>(e2),
        query_attempt_step(mid2.dc@, mid3.dc@, pre_t.client as int, req1),
        mid3.jwt == mid2.jwt,
        discard_transition(
            Txn { mutated: pre_t.mutated || req0.mutations@.len() > 0, ..pre_t },
            post_t,
            mid3,
            post_d,
            dr,
        ),
        r == Err::<Response, DgraphError>(DgraphError::GrpcError(e2)),
    ensures
        do_request_transition(pre_t, post_t, pre_d, post_d, req0, req1, r),
{
    let t1 = Txn { mutated: pre_t.mutated || req0.mutations@.len() > 0, ..pre_t };
    let i = pre_t.client as int;
    assert(swallowed_discard(t1, post_t, mid3, post_d));
    assert(aborted_after_query(t1, post_t, mid2, post_d, i, req1));
    assert(refresh_and_retry(t1, post_t, mid, post_d, i, req1, r));
}

/// After an expired-credential failure, a successful refresh and a second
/// attempt whose reply was absorbed, the whole request transition holds.
proof fn lemma_request_retry_absorbed(
    pre_t: Txn,
    post_t: Txn,
    pre_d: Dgraph,
    mid: Dgraph,
    mid2: Dgraph,
    post_d: Dgraph,
    req0: Request,
    req1: Request,
    e: GrpcError,
    resp: Response,
    r: Result<Response, DgraphError>,
)
    requires
        !pre_t.finished,
        !(req0.mutations@.len() > 0 && pre_t.read_only),
        req1 == (Request { start_ts: pre_t.context.start_ts, ..req0 }),
        head_reply(pre_d.dc@[pre_t.client as int].query_replies@) == Err::<Response, GrpcError>(e),
        e.is_unauthenticated(),
        query_attempt_step(pre_d.dc@, mid.dc@, pre_t.client as int, req1),
        mid.jwt == pre_d.jwt,
        refresh_transition(mid, mid2, Ok(())),
        head_reply(mid2.dc@[pre_t.client as int].query_replies@) == Ok::<Response, GrpcError>(
            resp,
        ),
        query_attempt_step(mid2.dc@, post_d.dc@, pre_t.client as int, req1),
        post_d.jwt == mid2.jwt,
        absorb_response(
            Txn { mutated: pre_t.mutated || req0.mutations@.len() > 0, ..pre_t },
            post_t,
            resp,
            req1.commit_now,
            r,
        ),
    ensures
        do_request_transition(pre_t, post_t, pre_d, post_d, req0, req1, r),
{
    let t1 = Txn { mutated: pre_t.mutated || req0.mutations@.len() > 0, ..pre_t };
    let i = pre_t.client as int;
    assert(refresh_and_retry(t1, post_t, mid, post_d, i, req1, r));
}

/// A request as the query entry points build it: the given text and
/// variables, the transaction's read flags and timestamp, no mutations.
pub open spec fn fresh_query_request(
    req: Request,
    t: Txn,
    query: Seq<char>,
    vars: Seq<(String, String)>,
) -> bool {
    &&& req.query@ == query
    &&& req.vars@ == vars
    &&& req.start_ts == t.context.start_ts
    &&& req.read_only == t.read_only
    &&& req.best_effort == t.best_effort
    &&& req.mutations@.len() == 0
    &&& req.commit_now == false
}

/// A request as the mutate entry point builds it: the one mutation and
/// its own commit-now flag, nothing else set.
pub open spec fn fresh_mutation_request(req: Request, mu: Mutation) -> bool {
    &&& req.query@.len() == 0
    &&& req.vars@.len() == 0
    &&& req.start_ts == 0
    &&& req.read_only == false
    &&& req.best_effort == false
    &&& req.mutations@ == seq![mu]
    &&& req.commit_now == mu.commit_now
}

impl Txn {
    /// Ask for best-effort reads: legal only on a read-only transaction;
    /// on any other it fails with `WriteTxnBestEffort` and changes
    /// nothing.
    pub fn best_effort(&mut self) -> (r: Result<(), DgraphError>)
        ensures
            old(self).read_only ==> r is Ok && *final(self) == (Txn {
                best_effort: true,
                ..*old(self)
            }),
            !old(self).read_only ==> r == Err::<(), DgraphError>(DgraphError::WriteTxnBestEffort)
                && *final(self) == *old(self),
    {
        if !self.read_only {
            return Err(DgraphError::WriteTxnBestEffort);
        }
        self.best_effort = true;
        Ok(())
    }

    /// Run a query without variables.
    pub fn query(&mut self, dgraph: &mut Dgraph, query: &str) -> (r: Result<Response, DgraphError>)
        requires
            old(dgraph).wf(),
            old(self).client < old(dgraph).dc@.len(),
        ensures
            final(dgraph).wf(),
            final(dgraph).dc@.len() == old(dgraph).dc@.len(),
            final(self).client == old(self).client,
            exists|req0: Request, req1: Request|
                #![trigger do_request_transition(*old(self), *final(self), *old(dgraph), *final(dgraph), req0, req1, r)]
                {
                    &&& fresh_query_request(req0, *old(self), query@, Seq::<(String, String)>::empty())
                    &&& do_request_transition(
                        *old(self),
                        *final(self),
                        *old(dgraph),
                        *final(dgraph),
                        req0,
                        req1,
                        r,
                    )
                },
    {
        self.query_with_vars(dgraph, query, Vec::new())
    }

    /// Run a query with variables.
    pub fn query_with_vars(
        &mut self,
        dgraph: &mut Dgraph,
        query: &str,
        vars: Vec<(String, String)>,
    ) -> (r: Result<Response, DgraphError>)
        requires
            old(dgraph).wf(),
            old(self).client < old(dgraph).dc@.len(),
        ensures
            final(dgraph).wf(),
            final(dgraph).dc@.len() == old(dgraph).dc@.len(),
            final(self).client == old(self).client,
            exists|req0: Request, req1: Request|
                #![trigger do_request_transition(*old(self), *final(self), *old(dgraph), *final(dgraph), req0, req1, r)]
                {
                    &&& fresh_query_request(req0, *old(self), query@, vars@)
                    &&& do_request_transition(
                        *old(self),
                        *final(self),
                        *old(dgraph),
                        *final(dgraph),
                        req0,
                        req1,
                        r,
                    )
                },
    {
        let mut request = Request {
            query: String::from_str(query),
            vars,
            start_ts: self.context.start_ts,
            read_only: self.read_only,
            best_effort: self.best_effort,
            mutations: Vec::new(),
            commit_now: false,
        };
        let ghost req0 = request;
        let r = self.do_request(dgraph, &mut request);
        proof {
            let ghost req1 = request;
            assert(fresh_query_request(req0, *old(self), query@, req0.vars@));
            assert(do_request_transition(
                *old(self),
                *self,
                *old(dgraph),
                *dgraph,
                req0,
                req1,
                r,
            ));
        }
        r
    }

    /// Run one mutation, committing with it when the mutation asks to.
    pub fn mutate(&mut self, dgraph: &mut Dgraph, mu: Mutation) -> (r: Result<
        Response,
        DgraphError,
    >)
        requires
            old(dgraph).wf(),
            old(self).client < old(dgraph).dc@.len(),
        ensures
            final(dgraph).wf(),
            final(dgraph).dc@.len() == old(dgraph).dc@.len(),
            final(self).client == old(self).client,
            exists|req0: Request, req1: Request|
                #![trigger do_request_transition(*old(self), *final(self), *old(dgraph), *final(dgraph), req0, req1, r)]
                {
                    &&& fresh_mutation_request(req0, mu)
                    &&& do_request_transition(
                        *old(self),
                        *final(self),
                        *old(dgraph),
                        *final(dgraph),
                        req0,
                        req1,
                        r,
                    )
                },
    {
        let commit_now = mu.commit_now;
        let mut request = Request::new();
        request.mutations.push(mu);
        request.commit_now = commit_now;
        proof {
            assert(request.mutations@ =~= seq![mu]);
        }
        let ghost req0 = request;
        let r = self.do_request(dgraph, &mut request);
        proof {
            let ghost req1 = request;
            assert(fresh_mutation_request(req0, mu));
            assert(do_request_transition(
                *old(self),
                *self,
                *old(dgraph),
                *dgraph,
                req0,
                req1,
                r,
            ));
        }
        r
    }

    /// The unified request path; see `do_request_transition` for the full
    /// account of what it does.
    pub fn do_request(&mut self, dgraph: &mut Dgraph, request: &mut Request) -> (r: Result<
        Response,
        DgraphError,
    >)
        requires
            old(dgraph).wf(),
            old(self).client < old(dgraph).dc@.len(),
        ensures
            final(dgraph).wf(),
            final(dgraph).dc@.len() == old(dgraph).dc@.len(),
            final(self).client == old(self).client,
            old(self).finished ==> r == Err::<Response, DgraphError>(DgraphError::TxnFinished)
                && *final(self) == *old(self) && *final(dgraph) == *old(dgraph) && *final(request)
                == *old(request),
            !old(self).finished && old(request).mutations@.len() > 0 && old(self).read_only ==> r
                == Err::<Response, DgraphError>(DgraphError::TxnReadOnly)
                && *final(self) == *old(self) && *final(dgraph) == *old(dgraph)
                && *final(request) == *old(request),
            do_request_transition(
                *old(self),
                *final(self),
                *old(dgraph),
                *final(dgraph),
                *old(request),
                *final(request),
                r,
            ),
    {
        if self.finished {
            return Err(DgraphError::TxnFinished);
        }
        if request.mutations.len() > 0 {
            if self.read_only {
                return Err(DgraphError::TxnReadOnly);
            }
            self.mutated = true;
        }
        request.start_ts = self.context.start_ts;
        let ghost t1 = *self;
        let c = endpoint_at(&mut dgraph.dc, self.client);
        let first = c.query(request);
        let ghost d1 = *dgraph;
        match first {
            Ok(resp) => {
                let cn = request.commit_now;
                let ghost gresp = resp;
                let r = self.absorb(resp, cn);
                proof {
                    let i = t1.client as int;
                    assert(query_attempt_step(old(dgraph).dc@, d1.dc@, i, *request));
                    assert(*dgraph == d1);
                    assert(dgraph.jwt == old(dgraph).jwt);
                    assert(absorb_response(t1, *self, gresp, cn, r));
                    assert(*request == (Request {
                        start_ts: old(self).context.start_ts,
                        ..*old(request)
                    }));
                    assert(head_reply(old(dgraph).dc@[i].query_replies@) == Ok::<
                        Response,
                        crate::errors::GrpcError,
                    >(gresp));
                    assert(t1 == (Txn {
                        mutated: old(self).mutated || old(request).mutations@.len() > 0,
                        ..*old(self)
                    }));
                    assert(do_request_transition(
                        *old(self),
                        *self,
                        *old(dgraph),
                        *dgraph,
                        *old(request),
                        *request,
                        r,
                    ));
                }
                return r;
            },
            Err(err) => {
                if dgraph.is_jwt_expired(&err) {
                    let ghost mid = *dgraph;
                    match dgraph.retry_login() {
                        Ok(u) => {
                            let ghost mid2 = *dgraph;
                            let c2 = endpoint_at(&mut dgraph.dc, self.client);
                            let second = c2.query(request);
                            let ghost d2 = *dgraph;
                            match second {
                                Ok(resp) => {
                                    let cn = request.commit_now;
                                    let ghost gresp2 = resp;
                                    let r = self.absorb(resp, cn);
                                    proof {
                                        let i = t1.client as int;
                                        assert(query_attempt_step(old(dgraph).dc@, mid.dc@, i, *request));
                                        assert(query_attempt_step(mid2.dc@, d2.dc@, i, *request));
                                        assert(*dgraph == d2);
                                        assert(mid.jwt == old(dgraph).jwt);
                                        lemma_request_retry_absorbed(
                                            *old(self),
                                            *self,
                                            *old(dgraph),
                                            mid,
                                            mid2,
                                            *dgraph,
                                            *old(request),
                                            *request,
                                            err,
                                            gresp2,
                                            r,
                                        );
                                    }
                                    return r;
                                },
                                Err(e2) => {
                                    let ghost mid3 = *dgraph;
                                    let dr = self.discard(dgraph);
                                    proof {
                                        let i = t1.client as int;
                                        assert(query_attempt_step(old(dgraph).dc@, mid.dc@, i, *request));
                                        assert(query_attempt_step(mid2.dc@, mid3.dc@, i, *request));
                                        assert(mid.jwt == old(dgraph).jwt);
                                        assert(mid3.jwt == mid2.jwt);
                                        lemma_request_retry_failed(
                                            *old(self),
                                            *self,
                                            *old(dgraph),
                                            mid,
                                            mid2,
                                            mid3,
                                            *dgraph,
                                            *old(request),
                                            *request,
                                            err,
                                            e2,
                                            dr,
                                            Err(DgraphError::GrpcError(e2)),
                                        );
                                    }
                                    return Err(DgraphError::GrpcError(e2));
                                },
                            }
                        },
                        Err(le) => {
                            let ghost mid2 = *dgraph;
                            let dr = self.discard(dgraph);
                            proof {
                                let i = t1.client as int;
                                assert(query_attempt_step(old(dgraph).dc@, mid.dc@, i, *request));
                                assert(mid.jwt == old(dgraph).jwt);
                                lemma_request_refresh_failed(
                                    *old(self),
                                    *self,
                                    *old(dgraph),
                                    mid,
                                    mid2,
                                    *dgraph,
                                    *old(request),
                                    *request,
                                    err,
                                    le,
                                    dr,
                                    Err(le),
                                );
                            }
                            return Err(le);
                        },
                    }
                } else {
                    let ghost mid = *dgraph;
                    let dr = self.discard(dgraph);
                    proof {
                        let i = t1.client as int;
                        assert(discard_transition(t1, *self, mid, *dgraph, dr));
                        assert(swallowed_discard(t1, *self, mid, *dgraph));
                        assert(query_attempt_step(old(dgraph).dc@, mid.dc@, i, *request));
                        assert(aborted_after_query(t1, *self, *old(dgraph), *dgraph, i, *request));
                    }
                    return Err(DgraphError::GrpcError(err));
                }
            },
        }
    }

    /// Absorb a successful reply: finish on the spot when the request
    /// asked to commit with it, then merge the reply's context.
    fn absorb(&mut self, resp: Response, commit_now: bool) -> (r: Result<Response, DgraphError>)
        ensures
            absorb_response(*old(self), *final(self), resp, commit_now, r),
    {
        if commit_now {
            self.finished = true;
        }
        match &resp.txn {
            Some(src) => {
                let mr = self.merge_context(src);
                match mr {
                    Ok(u) => {},
                    Err(e) => {
                        return Err(e);
                    },
                }
            },
            None => {
                return Err(DgraphError::EmptyTxn);
            },
        }
        Ok(resp)
    }

    /// Commit the transaction: rejected locally when already finished or
    /// read-only; otherwise it finishes with the abort flag as it stands.
    pub fn commit(self, dgraph: &mut Dgraph) -> (r: Result<(), DgraphError>)
        requires
            old(dgraph).wf(),
            self.client < old(dgraph).dc@.len(),
        ensures
            final(dgraph).wf(),
            final(dgraph).dc@.len() == old(dgraph).dc@.len(),
            self.finished ==> r == Err::<(), DgraphError>(DgraphError::TxnFinished)
                && *final(dgraph) == *old(dgraph),
            !self.finished && self.read_only ==> r == Err::<(), DgraphError>(
                DgraphError::TxnReadOnly,
            ) && *final(dgraph) == *old(dgraph),
            !self.finished && !self.read_only ==> exists|post_t: Txn|
                #![trigger finish_transition(self, post_t, *old(dgraph), *final(dgraph), r)]
                finish_transition(self, post_t, *old(dgraph), *final(dgraph), r),
    {
        let mut txn = self;
        if txn.finished {
            return Err(DgraphError::TxnFinished);
        }
        if txn.read_only {
            return Err(DgraphError::TxnReadOnly);
        }
        let r = txn.commit_or_abort(dgraph);
        proof {
            assert(finish_transition(self, txn, *old(dgraph), *dgraph, r));
        }
        r
    }

    /// Discard the transaction: raise the abort flag, then finish.
    /// Idempotent: on a finished transaction it is a no-op success.
    pub fn discard(&mut self, dgraph: &mut Dgraph) -> (r: Result<(), DgraphError>)
        requires
            old(dgraph).wf(),
            old(self).client < old(dgraph).dc@.len(),
        ensures
            final(dgraph).wf(),
            final(dgraph).dc@.len() == old(dgraph).dc@.len(),
            final(self).client == old(self).client,
            discard_transition(*old(self), *final(self), *old(dgraph), *final(dgraph), r),
    {
        self.context.aborted = true;
        self.commit_or_abort(dgraph)
    }

    /// Finish the transaction; see `finish_transition` for the full
    /// account. Shared by commit and discard.
    pub fn commit_or_abort(&mut self, dgraph: &mut Dgraph) -> (r: Result<(), DgraphError>)
        requires
            old(dgraph).wf(),
            old(self).client < old(dgraph).dc@.len(),
        ensures
            final(dgraph).wf(),
            final(dgraph).dc@.len() == old(dgraph).dc@.len(),
            final(self).client == old(self).client,
            finish_transition(*old(self), *final(self), *old(dgraph), *final(dgraph), r),
    {
        if self.finished {
            return Ok(());
        }
        self.finished = true;
        if !self.mutated {
            return Ok(());
        }
        let c = endpoint_at(&mut dgraph.dc, self.client);
        let first = c.commit_or_abort(&self.context);
        match first {
            Ok(c1) => Ok(()),
            Err(err) => {
                if dgraph.is_jwt_expired(&err) {
                    let ghost mid = *dgraph;
                    match dgraph.retry_login() {
                        Err(le) => Err(le),
                        Ok(u) => {
                            let ghost mid2 = *dgraph;
                            let c2 = endpoint_at(&mut dgraph.dc, self.client);
                            let second = c2.commit_or_abort(&self.context);
                            match second {
                                Ok(c3) => Ok(()),
                                Err(e2) => Err(DgraphError::GrpcError(e2)),
                            }
                        },
                    }
                } else {
                    Err(DgraphError::GrpcError(err))
                }
            },
        }
    }

    /// Merge a reply's context into the local one; see `merge_transition`.
    pub fn merge_context(&mut self, src: &TxnContext) -> (r: Result<(), DgraphError>)
        ensures
            merge_transition(*old(self), *final(self), *src, r),
    {
        if self.context.start_ts == 0 {
            self.context.start_ts = src.start_ts;
        }
        if self.context.start_ts != src.start_ts {
            return Err(DgraphError::StartTsMismatch);
        }
        append_strings(&mut self.context.keys, &src.keys);
        append_strings(&mut self.context.preds, &src.preds);
        Ok(())
    }
}

/// Append every element of `src` onto `dst`, in order.
fn append_strings(dst: &mut Vec<String>, src: &Vec<String>)
    ensures
        final(dst)@ == old(dst)@ + src@,
{
    let mut k: usize = 0;
    while k < src.len()
        invariant
            k <= src@.len(),
            dst@ == old(dst)@ + src@.take(k as int),
        decreases src@.len() - k,
    {
        let s = src[k].clone();
        dst.push(s);
        k = k + 1;
        proof {
            assert(src@.take(k as int) =~= src@.take(k - 1).push(src@[k - 1]));
        }
    }
    proof {
        assert(src@.take(src@.len() as int) =~= src@);
    }
}

/// Whatever set the finished flag — commit, discard, or a commit-now
/// request — any later request is rejected with `TxnFinished`, and
/// neither the transaction, the session, nor the request is touched.
pub proof fn lemma_finished_rejects(
    pre_t: Txn,
    post_t: Txn,
    pre_d: Dgraph,
    post_d: Dgraph,
    req0: Request,
    req1: Request,
    r: Result<Response, DgraphError>,
)
    requires
        pre_t.finished,
        do_request_transition(pre_t, post_t, pre_d, post_d, req0, req1, r),
    ensures
        r == Err::<Response, DgraphError>(DgraphError::TxnFinished),
        post_t == pre_t,
        post_d == pre_d,
        req1 == req0,
{
}

/// A request that carries mutations on a read-only transaction is
/// rejected with `TxnReadOnly` before anything reaches an endpoint: the
/// session, and with it every call log, stands untouched.
pub proof fn lemma_read_only_rejects(
    pre_t: Txn,
    post_t: Txn,
    pre_d: Dgraph,
    post_d: Dgraph,
    req0: Request,
    req1: Request,
    r: Result<Response, DgraphError>,
)
    requires
        !pre_t.finished,
        pre_t.read_only,
        req0.mutations@.len() > 0,
        do_request_transition(pre_t, post_t, pre_d, post_d, req0, req1, r),
    ensures
        r == Err::<Response, DgraphError>(DgraphError::TxnReadOnly),
        post_t == pre_t,
        post_d == pre_d,
        req1 == req0,
{
}

/// Finishing a transaction that never mutated — whether by commit or by
/// discard — succeeds without one commit-or-abort call: the session, and
/// with it every call log, stands untouched.
pub proof fn lemma_unmutated_finish_quiet(
    pre_t: Txn,
    post_t: Txn,
    pre_d: Dgraph,
    post_d: Dgraph,
    r: Result<(), DgraphError>,
)
    requires
        !pre_t.mutated,
        finish_transition(pre_t, post_t, pre_d, post_d, r),
    ensures
        r is Ok,
        post_d == pre_d,
{
}

/// A request that asked to commit with it and succeeded leaves the
/// transaction finished on the spot; by `lemma_finished_rejects` (and the
/// commit contract) every later call then fails with `TxnFinished`.
pub proof fn lemma_commit_now_finishes(
    pre_t: Txn,
    post_t: Txn,
    pre_d: Dgraph,
    post_d: Dgraph,
    req0: Request,
    req1: Request,
    r: Result<Response, DgraphError>,
)
    requires
        req0.commit_now,
        r is Ok,
        do_request_transition(pre_t, post_t, pre_d, post_d, req0, req1, r),
    ensures
        post_t.finished,
{
    if pre_t.finished {
        assert(false);
    } else if req0.mutations@.len() > 0 && pre_t.read_only {
        assert(false);
    } else {
        let t1 = Txn { mutated: pre_t.mutated || req0.mutations@.len() > 0, ..pre_t };
        let reqs = Request { start_ts: pre_t.context.start_ts, ..req0 };
        let i = pre_t.client as int;
        match head_reply(pre_d.dc@[i].query_replies@) {
            Ok(resp) => {
                assert(absorb_response(t1, post_t, resp, reqs.commit_now, r));
            },
            Err(e) => {
                if !e.is_unauthenticated() {
                    assert(false);
                } else {
                    let mid = choose|mid: Dgraph|
                        #![trigger refresh_and_retry(t1, post_t, mid, post_d, i, reqs, r)]
                        {
                            &&& query_attempt_step(pre_d.dc@, mid.dc@, i, reqs)
                            &&& mid.jwt == pre_d.jwt
                            &&& refresh_and_retry(t1, post_t, mid, post_d, i, reqs, r)
                        };
                    let (mid2, rr) = choose|mid2: Dgraph, rr: Result<(), DgraphError>|
                        #![trigger refresh_transition(mid, mid2, rr)]
                        {
                            &&& refresh_transition(mid, mid2, rr)
                            &&& match rr {
                                Ok(u) => match head_reply(mid2.dc@[i].query_replies@) {
                                    Ok(resp) => {
                                        &&& query_attempt_step(mid2.dc@, post_d.dc@, i, reqs)
                                        &&& post_d.jwt == mid2.jwt
                                        &&& absorb_response(t1, post_t, resp, reqs.commit_now, r)
                                    },
                                    Err(e2) => {
                                        &&& r == Err::<Response, DgraphError>(
                                            DgraphError::GrpcError(e2),
                                        )
                                        &&& aborted_after_query(t1, post_t, mid2, post_d, i, reqs)
                                    },
                                },
                                Err(le) => {
                                    &&& r == Err::<Response, DgraphError>(le)
                                    &&& swallowed_discard(t1, post_t, mid2, post_d)
                                },
                            }
                        };
                    match rr {
                        Ok(u) => {
                            match head_reply(mid2.dc@[i].query_replies@) {
                                Ok(resp) => {
                                    assert(absorb_response(t1, post_t, resp, reqs.commit_now, r));
                                },
                                Err(e2) => {
                                    assert(false);
                                },
                            }
                        },
                        Err(le) => {
                            assert(false);
                        },
                    }
                }
            },
        }
    }
}

/// Exactly one endpoint of the pool received exactly one more login; no
/// other endpoint's login log moved.
pub open spec fn single_login_somewhere(pre: Seq<DgraphClient>, post: Seq<DgraphClient>) -> bool {
    exists|j: int|
        #![auto]
        {
            &&& 0 <= j < pre.len()
            &&& post[j].login_sent@.len() == pre[j].login_sent@.len() + 1
            &&& forall|k: int|
                0 <= k < pre.len() && k != j ==> post[k].login_sent@ == pre[k].login_sent@
        }
}

/// Recovering from an expired credential costs exactly one refresh and
/// one retry. When the first attempt failed with an expired credential
/// and the call nonetheless succeeded, the transaction's endpoint
/// received the stamped request exactly twice and no other query reached
/// any endpoint; exactly one endpoint received exactly one login; no
/// commit-or-abort was dispatched anywhere, so no discard was issued; and
/// the transaction finished only if the request asked to commit with it.
pub proof fn lemma_expired_credential_recovery_is_single_retry(
    pre_t: Txn,
    post_t: Txn,
    pre_d: Dgraph,
    post_d: Dgraph,
    req0: Request,
    req1: Request,
    e: GrpcError,
    r: Result<Response, DgraphError>,
)
    requires
        do_request_transition(pre_t, post_t, pre_d, post_d, req0, req1, r),
        !pre_t.finished,
        !(req0.mutations@.len() > 0 && pre_t.read_only),
        head_reply(pre_d.dc@[pre_t.client as int].query_replies@) == Err::<Response, GrpcError>(e),
        e.is_unauthenticated(),
        r is Ok,
    ensures
        post_d.dc@.len() == pre_d.dc@.len(),
        post_d.dc@[pre_t.client as int].query_sent@ == pre_d.dc@[pre_t.client as int].query_sent@
            + seq![req1, req1],
        forall|k: int|
            0 <= k < pre_d.dc@.len() && k != pre_t.client as int ==> #[trigger] post_d.dc@[k].query_sent@
                == pre_d.dc@[k].query_sent@,
        single_login_somewhere(pre_d.dc@, post_d.dc@),
        forall|k: int|
            0 <= k < pre_d.dc@.len() ==> #[trigger] post_d.dc@[k].commit_sent@
                == pre_d.dc@[k].commit_sent@,
        post_t.finished == req1.commit_now,
        post_t.context.aborted == pre_t.context.aborted,
{
    let t1 = Txn { mutated: pre_t.mutated || req0.mutations@.len() > 0, ..pre_t };
    let reqs = Request { start_ts: pre_t.context.start_ts, ..req0 };
    let i = pre_t.client as int;
    let mid = choose|mid: Dgraph|
        #![trigger refresh_and_retry(t1, post_t, mid, post_d, i, reqs, r)]
        {
            &&& query_attempt_step(pre_d.dc@, mid.dc@, i, reqs)
            &&& mid.jwt == pre_d.jwt
            &&& refresh_and_retry(t1, post_t, mid, post_d, i, reqs, r)
        };
    let (mid2, rr) = choose|mid2: Dgraph, rr: Result<(), DgraphError>|
        #![trigger refresh_transition(mid, mid2, rr)]
        {
            &&& refresh_transition(mid, mid2, rr)
            &&& match rr {
                Ok(u) => match head_reply(mid2.dc@[i].query_replies@) {
                    Ok(resp) => {
                        &&& query_attempt_step(mid2.dc@, post_d.dc@, i, reqs)
                        &&& post_d.jwt == mid2.jwt
                        &&& absorb_response(t1, post_t, resp, reqs.commit_now, r)
                    },
                    Err(e2) => {
                        &&& r == Err::<Response, DgraphError>(DgraphError::GrpcError(e2))
                        &&& aborted_after_query(t1, post_t, mid2, post_d, i, reqs)
                    },
                },
                Err(le) => {
                    &&& r == Err::<Response, DgraphError>(le)
                    &&& swallowed_discard(t1, post_t, mid2, post_d)
                },
            }
        };
    match rr {
        Err(le) => {
            assert(false);
        },
        Ok(u) => {
            if mid.jwt.refresh_jwt@.len() == 0 {
                assert(false);
            }
            match head_reply(mid2.dc@[i].query_replies@) {
                Err(e2) => {
                    assert(false);
                },
                Ok(resp) => {
                    lemma_refresh_is_single_login(mid, mid2, Ok(()));
                    let j = choose|j: int|
                        #![auto]
                        {
                            &&& 0 <= j < mid.dc@.len()
                            &&& mid2.dc@[j].login_sent@.len() == mid.dc@[j].login_sent@.len() + 1
                            &&& mid2.dc@[j].query_sent@ == mid.dc@[j].query_sent@
                            &&& mid2.dc@[j].commit_sent@ == mid.dc@[j].commit_sent@
                            &&& mid2.dc@[j].query_replies@ == mid.dc@[j].query_replies@
                            &&& mid2.dc@[j].login_replies@ == tail_reply(
                                mid.dc@[j].login_replies@,
                            )
                            &&& forall|k: int|
                                0 <= k < mid.dc@.len() && k != j ==> mid2.dc@[k] == mid.dc@[k]
                        };
                    assert(mid2.dc@[i].query_sent@ == mid.dc@[i].query_sent@);
                    assert(post_d.dc@[i].query_sent@ =~= pre_d.dc@[i].query_sent@ + seq![
                        reqs,
                        reqs,
                    ]);
                    assert forall|k: int|
                        0 <= k < pre_d.dc@.len() && k != i implies #[trigger] post_d.dc@[k].query_sent@
                        == pre_d.dc@[k].query_sent@ by {
                        assert(mid.dc@[k] == pre_d.dc@[k]);
                        if k != j {
                            assert(mid2.dc@[k] == mid.dc@[k]);
                        }
                        assert(post_d.dc@[k] == mid2.dc@[k]);
                    };
                    assert(mid.dc@[j].login_sent@ == pre_d.dc@[j].login_sent@);
                    assert(post_d.dc@[j].login_sent@ == mid2.dc@[j].login_sent@);
                    assert(post_d.dc@[j].login_sent@.len() == pre_d.dc@[j].login_sent@.len() + 1);
                    assert forall|k: int|
                        0 <= k < pre_d.dc@.len() && k != j implies post_d.dc@[k].login_sent@
                        == pre_d.dc@[k].login_sent@ by {
                        assert(mid.dc@[k].login_sent@ == pre_d.dc@[k].login_sent@);
                        assert(mid2.dc@[k] == mid.dc@[k]);
                        assert(post_d.dc@[k].login_sent@ == mid2.dc@[k].login_sent@);
                    };
                    assert(single_login_somewhere(pre_d.dc@, post_d.dc@));
                    assert forall|k: int|
                        0 <= k < pre_d.dc@.len() implies #[trigger] post_d.dc@[k].commit_sent@
                        == pre_d.dc@[k].commit_sent@ by {
                        assert(mid.dc@[k].commit_sent@ == pre_d.dc@[k].commit_sent@);
                        assert(mid2.dc@[k].commit_sent@ == mid.dc@[k].commit_sent@);
                        assert(post_d.dc@[k].commit_sent@ == mid2.dc@[k].commit_sent@);
                    };
                    match resp.txn {
                        Some(src) => {
                            if !merge_ok(t1.context, src) {
                                assert(false);
                            }
                        },
                        None => {
                            assert(false);
                        },
                    }
                },
            }
        },
    }
}

/// An expired credential that survives the one refresh and the one retry
/// is surfaced without further attempts. With a refresh token stored and
/// every endpoint's next login reply decodable, a transaction whose
/// endpoint answers a mutation-free request with two expired-credential
/// failures in a row observes the second failure; its endpoint received
/// the stamped request exactly twice — never a third time — and exactly
/// one endpoint received exactly one login; the implicit discard ran,
/// leaving the transaction finished and aborted, and, the transaction
/// never having mutated, no commit-or-abort reached any endpoint.
pub proof fn lemma_expired_credential_failure_stops_after_one_retry(
    pre_t: Txn,
    post_t: Txn,
    pre_d: Dgraph,
    post_d: Dgraph,
    req0: Request,
    req1: Request,
    e1: GrpcError,
    e2: GrpcError,
    r: Result<Response, DgraphError>,
)
    requires
        do_request_transition(pre_t, post_t, pre_d, post_d, req0, req1, r),
        !pre_t.finished,
        !pre_t.mutated,
        req0.mutations@.len() == 0,
        pre_d.dc@[pre_t.client as int].query_replies@.len() >= 2,
        pre_d.dc@[pre_t.client as int].query_replies@[0] == Err::<Response, GrpcError>(e1),
        pre_d.dc@[pre_t.client as int].query_replies@[1] == Err::<Response, GrpcError>(e2),
        e1.is_unauthenticated(),
        e2.is_unauthenticated(),
        pre_d.jwt.refresh_jwt@.len() > 0,
        forall|j: int| 0 <= j < pre_d.dc@.len() ==> #[trigger] login_head_parses(pre_d.dc@[j]),
    ensures
        r == Err::<Response, DgraphError>(DgraphError::GrpcError(e2)),
        post_t.finished,
        post_t.context.aborted,
        post_d.dc@.len() == pre_d.dc@.len(),
        post_d.dc@[pre_t.client as int].query_sent@ == pre_d.dc@[pre_t.client as int].query_sent@
            + seq![req1, req1],
        forall|k: int|
            0 <= k < pre_d.dc@.len() && k != pre_t.client as int ==> #[trigger] post_d.dc@[k].query_sent@
                == pre_d.dc@[k].query_sent@,
        single_login_somewhere(pre_d.dc@, post_d.dc@),
        forall|k: int|
            0 <= k < pre_d.dc@.len() ==> #[trigger] post_d.dc@[k].commit_sent@
                == pre_d.dc@[k].commit_sent@,
{
    let t1 = Txn { mutated: pre_t.mutated || req0.mutations@.len() > 0, ..pre_t };
    let reqs = Request { start_ts: pre_t.context.start_ts, ..req0 };
    let i = pre_t.client as int;
    assert(head_reply(pre_d.dc@[i].query_replies@) == Err::<Response, GrpcError>(e1));
    let mid = choose|mid: Dgraph|
        #![trigger refresh_and_retry(t1, post_t, mid, post_d, i, reqs, r)]
        {
            &&& query_attempt_step(pre_d.dc@, mid.dc@, i, reqs)
            &&& mid.jwt == pre_d.jwt
            &&& refresh_and_retry(t1, post_t, mid, post_d, i, reqs, r)
        };
    let (mid2, rr) = choose|mid2: Dgraph, rr: Result<(), DgraphError>|
        #![trigger refresh_transition(mid, mid2, rr)]
        {
            &&& refresh_transition(mid, mid2, rr)
            &&& match rr {
                Ok(u) => match head_reply(mid2.dc@[i].query_replies@) {
                    Ok(resp) => {
                        &&& query_attempt_step(mid2.dc@, post_d.dc@, i, reqs)
                        &&& post_d.jwt == mid2.jwt
                        &&& absorb_response(t1, post_t, resp, reqs.commit_now, r)
                    },
                    Err(e2x) => {
                        &&& r == Err::<Response, DgraphError>(DgraphError::GrpcError(e2x))
                        &&& aborted_after_query(t1, post_t, mid2, post_d, i, reqs)
                    },
                },
                Err(le) => {
                    &&& r == Err::<Response, DgraphError>(le)
                    &&& swallowed_discard(t1, post_t, mid2, post_d)
                },
            }
        };
    assert forall|k: int| 0 <= k < mid.dc@.len() implies #[trigger] login_head_parses(
        mid.dc@[k],
    ) by {
        if k == i {
            assert(client_query_step(pre_d.dc@[i], mid.dc@[i], reqs));
        } else {
            assert(mid.dc@[k] == pre_d.dc@[k]);
        }
        assert(login_head_parses(pre_d.dc@[k]));
        assert(mid.dc@[k].login_replies@ == pre_d.dc@[k].login_replies@);
    };
    lemma_refresh_succeeds_when_replies_parse(mid, mid2, rr);
    assert(rr is Ok);
    lemma_refresh_is_single_login(mid, mid2, rr);
    let j = choose|j: int|
        #![auto]
        {
            &&& 0 <= j < mid.dc@.len()
            &&& mid2.dc@[j].login_sent@.len() == mid.dc@[j].login_sent@.len() + 1
            &&& mid2.dc@[j].query_sent@ == mid.dc@[j].query_sent@
            &&& mid2.dc@[j].commit_sent@ == mid.dc@[j].commit_sent@
            &&& mid2.dc@[j].query_replies@ == mid.dc@[j].query_replies@
            &&& mid2.dc@[j].login_replies@ == tail_reply(mid.dc@[j].login_replies@)
            &&& forall|k: int| 0 <= k < mid.dc@.len() && k != j ==> mid2.dc@[k] == mid.dc@[k]
        };
    assert(mid.dc@[i].query_replies@ == tail_reply(pre_d.dc@[i].query_replies@));
    assert(mid2.dc@[i].query_replies@ == mid.dc@[i].query_replies@);
    assert(head_reply(mid2.dc@[i].query_replies@) == Err::<Response, GrpcError>(e2)) by {
        assert(tail_reply(pre_d.dc@[i].query_replies@) == pre_d.dc@[i].query_replies@.skip(1));
        assert(pre_d.dc@[i].query_replies@.skip(1)[0] == pre_d.dc@[i].query_replies@[1]);
    };
    let mid3 = choose|mid3: Dgraph|
        #![trigger swallowed_discard(t1, post_t, mid3, post_d)]
        {
            &&& query_attempt_step(mid2.dc@, mid3.dc@, i, reqs)
            &&& mid3.jwt == mid2.jwt
            &&& swallowed_discard(t1, post_t, mid3, post_d)
        };
    let dr = choose|dr: Result<(), DgraphError>|
        #![trigger discard_transition(t1, post_t, mid3, post_d, dr)]
        discard_transition(t1, post_t, mid3, post_d, dr);
    assert(!abort_marked(t1).finished && !abort_marked(t1).mutated);
    assert(post_d == mid3);
    assert(mid2.dc@[i].query_sent@ == mid.dc@[i].query_sent@);
    assert(post_d.dc@[i].query_sent@ =~= pre_d.dc@[i].query_sent@ + seq![reqs, reqs]);
    assert forall|k: int|
        0 <= k < pre_d.dc@.len() && k != i implies #[trigger] post_d.dc@[k].query_sent@
        == pre_d.dc@[k].query_sent@ by {
        assert(mid.dc@[k] == pre_d.dc@[k]);
        if k != j {
            assert(mid2.dc@[k] == mid.dc@[k]);
        }
        assert(post_d.dc@[k] == mid3.dc@[k] && mid3.dc@[k] == mid2.dc@[k]);
    };
    assert(mid.dc@[j].login_sent@ == pre_d.dc@[j].login_sent@);
    assert(post_d.dc@[j].login_sent@ == mid2.dc@[j].login_sent@);
    assert(post_d.dc@[j].login_sent@.len() == pre_d.dc@[j].login_sent@.len() + 1);
    assert forall|k: int|
        0 <= k < pre_d.dc@.len() && k != j implies post_d.dc@[k].login_sent@
        == pre_d.dc@[k].login_sent@ by {
        assert(mid.dc@[k].login_sent@ == pre_d.dc@[k].login_sent@);
        assert(mid2.dc@[k] == mid.dc@[k]);
        assert(post_d.dc@[k].login_sent@ == mid2.dc@[k].login_sent@);
    };
    assert(single_login_somewhere(pre_d.dc@, post_d.dc@));
    assert forall|k: int|
        0 <= k < pre_d.dc@.len() implies #[trigger] post_d.dc@[k].commit_sent@
        == pre_d.dc@[k].commit_sent@ by {
        assert(mid.dc@[k].commit_sent@ == pre_d.dc@[k].commit_sent@);
        assert(mid2.dc@[k].commit_sent@ == mid.dc@[k].commit_sent@);
        assert(post_d.dc@[k].commit_sent@ == mid2.dc@[k].commit_sent@);
    };
}

/// The cleanup that an owner's final discard performs on an active,
/// mutated transaction: when its endpoint answers the call, exactly one
/// commit-or-abort record is appended to that endpoint's log, carrying
/// the transaction's context with the abort flag raised.
pub proof fn lemma_discard_sends_abort(
    pre_t: Txn,
    post_t: Txn,
    pre_d: Dgraph,
    post_d: Dgraph,
    r: Result<(), DgraphError>,
)
    requires
        !pre_t.finished,
        pre_t.mutated,
        head_reply(pre_d.dc@[pre_t.client as int].commit_replies@) is Ok,
        discard_transition(pre_t, post_t, pre_d, post_d, r),
    ensures
        r is Ok,
        post_t.finished,
        post_d.dc@[pre_t.client as int].calls@ == pre_d.dc@[pre_t.client as int].calls@.push(
            commit_or_abort_record(TxnContext { aborted: true, ..pre_t.context }),
        ),
        commit_or_abort_record(TxnContext { aborted: true, ..pre_t.context }).aborted,
{
}

/// Two merges in a row accumulate: the keys and predicates of both
/// replies stand appended after the starting ones, in call order, however
/// the appends are grouped, duplicates kept.
pub proof fn lemma_merge_accumulates(
    c0: TxnContext,
    c1: TxnContext,
    c2: TxnContext,
    s1: TxnContext,
    s2: TxnContext,
)
    requires
        ctx_merged(c0, c1, s1),
        ctx_merged(c1, c2, s2),
    ensures
        c2.keys@ == (c0.keys@ + s1.keys@) + s2.keys@,
        c2.keys@ == c0.keys@ + (s1.keys@ + s2.keys@),
        c2.preds@ == (c0.preds@ + s1.preds@) + s2.preds@,
        c2.preds@ == c0.preds@ + (s1.preds@ + s2.preds@),
{
    assert((c0.keys@ + s1.keys@) + s2.keys@ =~= c0.keys@ + (s1.keys@ + s2.keys@));
    assert((c0.preds@ + s1.preds@) + s2.preds@ =~= c0.preds@ + (s1.preds@ + s2.preds@));
}

} // verus!
