//! The session: a non-empty pool of endpoints and the one credential shared
//! by every transaction derived from it. The session picks an endpoint
//! uniformly at random per call, owns the login and credential-refresh
//! flows, and retries an administrative call exactly once after a refresh
//! when the server reports an expired credential.

use vstd::prelude::*;

use crate::api::Jwt;
use crate::api::LoginRequest;
use crate::api::TxnContext;
use crate::api::Operation;
use crate::api::Payload;
use crate::api::Response;
use crate::codec::parse_jwt;
use crate::codec::spec_parse_jwt;
use crate::errors::DgraphError;
use crate::errors::GrpcError;
use crate::errors::STATUS_INTERNAL;
use crate::errors::STATUS_UNAUTHENTICATED;
use crate::transport::client_alter_step;
use crate::transport::client_login_step;
use crate::transport::endpoint_at;
use crate::transport::head_reply;
use crate::transport::pool_frame;
use crate::transport::tail_reply;
use crate::transport::DgraphClient;
use crate::txn::Txn;

verus! {

/// Relies on rand's `Rng::gen_range` over `0..len`: a uniform draw below
/// `len`. It panics only on an empty range, which the precondition rules
/// out.
#[verifier::external_body]
fn random_below(len: usize) -> (r: usize)
    requires
        len > 0,
    ensures
        r < len,
{
    rand::Rng::gen_range(&mut rand::thread_rng(), 0..len)
}

/// An exact copy of a byte string.
fn copy_bytes(v: &Vec<u8>) -> (r: Vec<u8>)
    ensures
        r@ == v@,
{
    let mut out: Vec<u8> = Vec::new();
    let mut i: usize = 0;
    while i < v.len()
        invariant
            i <= v@.len(),
            out@ == v@.take(i as int),
        decreases v@.len() - i,
    {
        out.push(v[i]);
        i = i + 1;
        proof {
            assert(v@.take(i as int) =~= v@.take(i - 1).push(v@[i - 1]));
        }
    }
    proof {
        assert(v@.take(v@.len() as int) =~= v@);
    }
    out
}

/// What one login exchange makes of the credential: a reply that decodes
/// replaces it wholesale; a reply that does not decode, or a transport
/// failure, leaves it untouched and surfaces an error.
pub open spec fn login_outcome(
    reply: Result<Response, GrpcError>,
    jwt0: Jwt,
    jwt1: Jwt,
    r: Result<(), DgraphError>,
) -> bool {
    match reply {
        Ok(resp) => match spec_parse_jwt(resp.json@) {
            Some(tokens) => {
                &&& r is Ok
                &&& jwt1.access_jwt@ == tokens.0
                &&& jwt1.refresh_jwt@ == tokens.1
            },
            None => {
                &&& r == Err::<(), DgraphError>(
                    DgraphError::GrpcError(GrpcError { code: STATUS_INTERNAL }),
                )
                &&& jwt1 == jwt0
            },
        },
        Err(e) => {
            &&& r == Err::<(), DgraphError>(DgraphError::GrpcError(e))
            &&& jwt1 == jwt0
        },
    }
}

/// The session.
pub struct Dgraph {
    /// The credential every transaction of this session presents;
    /// replaced wholesale on login or refresh.
    pub jwt: Jwt,
    /// The endpoint pool; never empty.
    pub dc: Vec<DgraphClient>,
}

/// How a password login changes a session: some endpoint answers one
/// recorded login call that carries exactly the given user id and
/// password and no refresh token, and the credential follows the reply.
pub open spec fn login_transition(
    pre: Dgraph,
    post: Dgraph,
    userid: String,
    password: String,
    r: Result<(), DgraphError>,
) -> bool {
    exists|i: int|
        #![auto]
        {
            &&& 0 <= i < pre.dc@.len()
            &&& pool_frame(pre.dc@, post.dc@, i)
            &&& exists|req: LoginRequest|
                #![trigger client_login_step(pre.dc@[i], post.dc@[i], req)]
                {
                    &&& req.userid == userid
                    &&& req.password == password
                    &&& req.refresh_token@.len() == 0
                    &&& client_login_step(pre.dc@[i], post.dc@[i], req)
                }
            &&& login_outcome(head_reply(pre.dc@[i].login_replies@), pre.jwt, post.jwt, r)
        }
}

/// How a credential refresh changes a session: with no refresh token it
/// fails locally and changes nothing; otherwise some endpoint answers one
/// recorded refresh login that carries exactly the stored refresh token
/// and no user id or password, and the credential follows the reply.
pub open spec fn refresh_transition(pre: Dgraph, post: Dgraph, r: Result<(), DgraphError>) -> bool {
    if pre.jwt.refresh_jwt@.len() == 0 {
        r == Err::<(), DgraphError>(DgraphError::JwtRefreshTokenEmpty) && post == pre
    } else {
        exists|i: int|
            #![auto]
            {
                &&& 0 <= i < pre.dc@.len()
                &&& pool_frame(pre.dc@, post.dc@, i)
                &&& exists|req: LoginRequest|
                    #![trigger client_login_step(pre.dc@[i], post.dc@[i], req)]
                    {
                        &&& req.userid@.len() == 0
                        &&& req.password@.len() == 0
                        &&& req.refresh_token@ == pre.jwt.refresh_jwt@
                        &&& client_login_step(pre.dc@[i], post.dc@[i], req)
                    }
                &&& login_outcome(head_reply(pre.dc@[i].login_replies@), pre.jwt, post.jwt, r)
            }
    }
}

/// Whether an endpoint's next login reply is a success whose payload
/// decodes to a credential.
pub open spec fn login_head_parses(c: DgraphClient) -> bool {
    match head_reply(c.login_replies@) {
        Ok(resp) => spec_parse_jwt(resp.json@) is Some,
        Err(e) => false,
    }
}

/// A refresh that finds a stored token reaches exactly one endpoint: one
/// login request lands there and nothing else moves anywhere, the chosen
/// endpoint's other logs and its query queue included.
pub proof fn lemma_refresh_is_single_login(pre: Dgraph, post: Dgraph, r: Result<(), DgraphError>)
    requires
        refresh_transition(pre, post, r),
        pre.jwt.refresh_jwt@.len() > 0,
    ensures
        post.dc@.len() == pre.dc@.len(),
        exists|j: int|
            #![auto]
            {
                &&& 0 <= j < pre.dc@.len()
                &&& post.dc@[j].login_sent@.len() == pre.dc@[j].login_sent@.len() + 1
                &&& post.dc@[j].query_sent@ == pre.dc@[j].query_sent@
                &&& post.dc@[j].commit_sent@ == pre.dc@[j].commit_sent@
                &&& post.dc@[j].query_replies@ == pre.dc@[j].query_replies@
                &&& post.dc@[j].login_replies@ == tail_reply(pre.dc@[j].login_replies@)
                &&& forall|k: int| 0 <= k < pre.dc@.len() && k != j ==> post.dc@[k] == pre.dc@[k]
            },
{
    let j = choose|i: int|
        #![auto]
        {
            &&& 0 <= i < pre.dc@.len()
            &&& pool_frame(pre.dc@, post.dc@, i)
            &&& exists|req: LoginRequest|
                #![trigger client_login_step(pre.dc@[i], post.dc@[i], req)]
                {
                    &&& req.userid@.len() == 0
                    &&& req.password@.len() == 0
                    &&& req.refresh_token@ == pre.jwt.refresh_jwt@
                    &&& client_login_step(pre.dc@[i], post.dc@[i], req)
                }
            &&& login_outcome(head_reply(pre.dc@[i].login_replies@), pre.jwt, post.jwt, r)
        };
    let req = choose|req: LoginRequest|
        #![trigger client_login_step(pre.dc@[j], post.dc@[j], req)]
        {
            &&& req.userid@.len() == 0
            &&& req.password@.len() == 0
            &&& req.refresh_token@ == pre.jwt.refresh_jwt@
            &&& client_login_step(pre.dc@[j], post.dc@[j], req)
        };
    assert(post.dc@[j].login_sent@ == pre.dc@[j].login_sent@.push(req));
}

/// A refresh is owed success: with a token stored and every endpoint's
/// next login reply decodable, it cannot fail.
pub proof fn lemma_refresh_succeeds_when_replies_parse(
    pre: Dgraph,
    post: Dgraph,
    r: Result<(), DgraphError>,
)
    requires
        refresh_transition(pre, post, r),
        pre.jwt.refresh_jwt@.len() > 0,
        forall|j: int| 0 <= j < pre.dc@.len() ==> #[trigger] login_head_parses(pre.dc@[j]),
    ensures
        r is Ok,
{
    let j = choose|i: int|
        #![auto]
        {
            &&& 0 <= i < pre.dc@.len()
            &&& pool_frame(pre.dc@, post.dc@, i)
            &&& exists|req: LoginRequest|
                #![trigger client_login_step(pre.dc@[i], post.dc@[i], req)]
                {
                    &&& req.userid@.len() == 0
                    &&& req.password@.len() == 0
                    &&& req.refresh_token@ == pre.jwt.refresh_jwt@
                    &&& client_login_step(pre.dc@[i], post.dc@[i], req)
                }
            &&& login_outcome(head_reply(pre.dc@[i].login_replies@), pre.jwt, post.jwt, r)
        };
    assert(login_head_parses(pre.dc@[j]));
}

/// One administrative attempt: the endpoint at `i` answers one recorded
/// administrative call carrying exactly the given operation.
pub open spec fn alter_attempt_step(
    pre: Seq<DgraphClient>,
    post: Seq<DgraphClient>,
    i: int,
    op: Operation,
) -> bool {
    &&& 0 <= i < pre.len()
    &&& pool_frame(pre, post, i)
    &&& client_alter_step(pre[i], post[i], op)
}

/// How an administrative operation changes a session: one attempt on a
/// chosen endpoint; on an expired-credential failure, one refresh and one
/// retry on the same endpoint; any other failure, or a failure surviving
/// the retry, is surfaced wrapped.
pub open spec fn alter_transition(
    pre: Dgraph,
    post: Dgraph,
    op: Operation,
    r: Result<Payload, DgraphError>,
) -> bool {
    exists|i: int|
        #![trigger pre.dc@[i]]
        {
            &&& 0 <= i < pre.dc@.len()
            &&& match head_reply(pre.dc@[i].alter_replies@) {
                Ok(p) => {
                    &&& alter_attempt_step(pre.dc@, post.dc@, i, op)
                    &&& post.jwt == pre.jwt
                    &&& r == Ok::<Payload, DgraphError>(p)
                },
                Err(e) => {
                    if !e.is_unauthenticated() {
                        &&& alter_attempt_step(pre.dc@, post.dc@, i, op)
                        &&& post.jwt == pre.jwt
                        &&& r == Err::<Payload, DgraphError>(DgraphError::GrpcError(e))
                    } else {
                        exists|mid: Dgraph, mid2: Dgraph, rr: Result<(), DgraphError>|
                            #![trigger refresh_transition(mid, mid2, rr)]
                            {
                                &&& alter_attempt_step(pre.dc@, mid.dc@, i, op)
                                &&& mid.jwt == pre.jwt
                                &&& refresh_transition(mid, mid2, rr)
                                &&& match rr {
                                    Ok(u) => {
                                        &&& alter_attempt_step(mid2.dc@, post.dc@, i, op)
                                        &&& post.jwt == mid2.jwt
                                        &&& r == (match head_reply(mid2.dc@[i].alter_replies@) {
                                            Ok(p) => Ok::<Payload, DgraphError>(p),
                                            Err(e2) => Err::<Payload, DgraphError>(
                                                DgraphError::GrpcError(e2),
                                            ),
                                        })
                                    },
                                    Err(le) => {
                                        &&& post == mid2
                                        &&& r == Err::<Payload, DgraphError>(le)
                                    },
                                }
                            }
                    }
                },
            }
        }
}

impl Dgraph {
    /// A session is well formed when its endpoint pool is non-empty.
    pub open spec fn wf(self) -> bool {
        self.dc@.len() > 0
    }

    /// A session over the given endpoints. Constructing one with an empty
    /// pool is a programmer error, ruled out up front.
    pub fn new(clients: Vec<DgraphClient>) -> (r: Dgraph)
        requires
            clients@.len() > 0,
        ensures
            r.dc == clients,
            r.jwt.access_jwt@.len() == 0,
            r.jwt.refresh_jwt@.len() == 0,
            r.wf(),
    {
        Dgraph { jwt: Jwt::new(), dc: clients }
    }

    /// The index of an endpoint chosen uniformly at random; `None` only on
    /// an empty pool.
    pub fn any_client(&self) -> (r: Option<usize>)
        ensures
            r is Some <==> self.dc@.len() > 0,
            r matches Some(i) ==> i < self.dc@.len(),
    {
        if self.dc.len() == 0 {
            None
        } else {
            Some(random_below(self.dc.len()))
        }
    }

    /// Whether a transport failure means the session's credential expired;
    /// the one decision that triggers refresh-and-retry anywhere in the
    /// client.
    pub fn is_jwt_expired(&self, grpc_error: &GrpcError) -> (r: bool)
        ensures
            r == grpc_error.is_unauthenticated(),
    {
        grpc_error.code == STATUS_UNAUTHENTICATED
    }

    /// Log in with a user id and password: one login call on a random
    /// endpoint; a reply that decodes replaces the stored credential.
    pub fn login(&mut self, userid: String, password: String) -> (r: Result<(), DgraphError>)
        requires
            old(self).wf(),
        ensures
            final(self).wf(),
            final(self).dc@.len() == old(self).dc@.len(),
            login_transition(*old(self), *final(self), userid, password, r),
    {
        let i = random_below(self.dc.len());
        let req = LoginRequest { userid, password, refresh_token: Vec::new() };
        let c = endpoint_at(&mut self.dc, i);
        let reply = c.login(&req);
        let r: Result<(), DgraphError> = match reply {
            Ok(resp) => match parse_jwt(&resp.json) {
                Some(jwt) => {
                    self.jwt = jwt;
                    Ok(())
                },
                None => Err(DgraphError::GrpcError(GrpcError { code: STATUS_INTERNAL })),
            },
            Err(e) => Err(DgraphError::GrpcError(e)),
        };
        proof {
            let wi = i as int;
            assert(pool_frame(old(self).dc@, self.dc@, wi));
            assert(client_login_step(old(self).dc@[wi], self.dc@[wi], req));
            assert(req.userid == userid && req.password == password);
            assert(req.refresh_token@.len() == 0);
            assert(login_outcome(
                head_reply(old(self).dc@[wi].login_replies@),
                old(self).jwt,
                self.jwt,
                r,
            ));
        }
        r
    }

    /// Obtain a fresh credential with the stored refresh token: fails
    /// locally with `JwtRefreshTokenEmpty` when none is held; otherwise one
    /// refresh login on a random endpoint.
    pub fn retry_login(&mut self) -> (r: Result<(), DgraphError>)
        requires
            old(self).wf(),
        ensures
            final(self).wf(),
            final(self).dc@.len() == old(self).dc@.len(),
            refresh_transition(*old(self), *final(self), r),
    {
        if self.jwt.refresh_jwt.len() == 0 {
            return Err(DgraphError::JwtRefreshTokenEmpty);
        }
        let refresh_token = copy_bytes(&self.jwt.refresh_jwt);
        let i = random_below(self.dc.len());
        let req = LoginRequest { userid: String::new(), password: String::new(), refresh_token };
        let c = endpoint_at(&mut self.dc, i);
        let reply = c.login(&req);
        let r: Result<(), DgraphError> = match reply {
            Ok(resp) => match parse_jwt(&resp.json) {
                Some(jwt) => {
                    self.jwt = jwt;
                    Ok(())
                },
                None => Err(DgraphError::GrpcError(GrpcError { code: STATUS_INTERNAL })),
            },
            Err(e) => Err(DgraphError::GrpcError(e)),
        };
        proof {
            let wi = i as int;
            assert(pool_frame(old(self).dc@, self.dc@, wi));
            assert(client_login_step(old(self).dc@[wi], self.dc@[wi], req));
            assert(req.userid@.len() == 0 && req.password@.len() == 0);
            assert(req.refresh_token@ == old(self).jwt.refresh_jwt@);
            assert(login_outcome(
                head_reply(old(self).dc@[wi].login_replies@),
                old(self).jwt,
                self.jwt,
                r,
            ));
        }
        r
    }

    /// A fresh transaction bound to this session, pinned to a random
    /// endpoint, with a zero start timestamp and every flag down.
    pub fn new_txn(&self) -> (t: Txn)
        requires
            self.wf(),
        ensures
            t.client < self.dc@.len(),
            t.context.start_ts == 0,
            t.context.keys@ == Seq::<String>::empty(),
            t.context.preds@ == Seq::<String>::empty(),
            !t.context.aborted,
            !t.finished,
            !t.read_only,
            !t.best_effort,
            !t.mutated,
    {
        Txn {
            context: TxnContext::new(),
            finished: false,
            read_only: false,
            best_effort: false,
            mutated: false,
            client: random_below(self.dc.len()),
        }
    }

    /// A fresh read-only transaction: as `new_txn`, with the read-only
    /// flag up.
    pub fn new_readonly_txn(&self) -> (t: Txn)
        requires
            self.wf(),
        ensures
            t.client < self.dc@.len(),
            t.context.start_ts == 0,
            t.context.keys@ == Seq::<String>::empty(),
            t.context.preds@ == Seq::<String>::empty(),
            !t.context.aborted,
            !t.finished,
            t.read_only,
            !t.best_effort,
            !t.mutated,
    {
        let mut txn = self.new_txn();
        txn.read_only = true;
        txn
    }

    /// Send a schema or administrative operation: one attempt on a random
    /// endpoint; on an expired credential, one refresh and one retry on the
    /// same endpoint; anything else is surfaced.
    pub fn alter(&mut self, op: &Operation) -> (r: Result<Payload, DgraphError>)
        requires
            old(self).wf(),
        ensures
            final(self).wf(),
            final(self).dc@.len() == old(self).dc@.len(),
            alter_transition(*old(self), *final(self), *op, r),
    {
        let ghost pre = *old(self);
        let i = random_below(self.dc.len());
        let c = endpoint_at(&mut self.dc, i);
        let first = c.alter(op);
        match first {
            Ok(p) => Ok(p),
            Err(err) => {
                if self.is_jwt_expired(&err) {
                    let ghost mid = *self;
                    match self.retry_login() {
                        Err(le) => Err(le),
                        Ok(u) => {
                            let ghost mid2 = *self;
                            let c2 = endpoint_at(&mut self.dc, i);
                            let second = c2.alter(op);
                            match second {
                                Ok(p) => Ok(p),
                                Err(e2) => Err(DgraphError::GrpcError(e2)),
                            }
                        },
                    }
                } else {
                    Err(DgraphError::GrpcError(err))
                }
            },
        }
    }
}

} // verus!
