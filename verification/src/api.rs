//! The request and reply shapes exchanged with an endpoint, held as plain
//! values: the coordination logic only reads timestamps, flags and
//! conflict metadata out of them and moves every payload through as opaque
//! bytes.

use vstd::prelude::*;

verus! {

/// The session credential: an opaque access token plus a refresh token.
/// Replaced wholesale on login or refresh, never merged.
#[derive(Clone, Debug, PartialEq, Eq)]
pub struct Jwt {
    pub access_jwt: Vec<u8>,
    pub refresh_jwt: Vec<u8>,
}

impl Jwt {
    pub fn new() -> (r: Jwt)
        ensures
            r.access_jwt@ == Seq::<u8>::empty(),
            r.refresh_jwt@ == Seq::<u8>::empty(),
    {
        Jwt { access_jwt: Vec::new(), refresh_jwt: Vec::new() }
    }
}

/// A login call: either a user id with a password, or a refresh token.
#[derive(Clone, Debug, PartialEq, Eq)]
pub struct LoginRequest {
    pub userid: String,
    pub password: String,
    pub refresh_token: Vec<u8>,
}

/// The optimistic-concurrency metadata of one transaction: the server's
/// start timestamp, the conflict keys and predicates touched so far
/// (accumulated by plain append, duplicates kept), and the abort flag.
#[derive(Clone, Debug, PartialEq, Eq)]
pub struct TxnContext {
    pub start_ts: u64,
    pub keys: Vec<String>,
    pub preds: Vec<String>,
    pub aborted: bool,
}

impl TxnContext {
    pub fn new() -> (r: TxnContext)
        ensures
            r.start_ts == 0,
            r.keys@ == Seq::<String>::empty(),
            r.preds@ == Seq::<String>::empty(),
            !r.aborted,
    {
        TxnContext { start_ts: 0, keys: Vec::new(), preds: Vec::new(), aborted: false }
    }
}

/// One write: payloads to set and to delete, in JSON or N-Quad form, and
/// whether the server should commit the transaction atomically with this
/// write.
#[derive(Clone, Debug, PartialEq, Eq)]
pub struct Mutation {
    pub set_json: Vec<u8>,
    pub delete_json: Vec<u8>,
    pub set_nquads: Vec<u8>,
    pub del_nquads: Vec<u8>,
    pub commit_now: bool,
}

impl Mutation {
    pub fn new() -> (r: Mutation)
        ensures
            r.set_json@ == Seq::<u8>::empty(),
            r.delete_json@ == Seq::<u8>::empty(),
            r.set_nquads@ == Seq::<u8>::empty(),
            r.del_nquads@ == Seq::<u8>::empty(),
            !r.commit_now,
    {
        Mutation {
            set_json: Vec::new(),
            delete_json: Vec::new(),
            set_nquads: Vec::new(),
            del_nquads: Vec::new(),
            commit_now: false,
        }
    }
}

/// One query-or-mutate call: the query text with its variables, the start
/// timestamp the transaction runs under, the read flags, and any mutations
/// carried along.
#[derive(Clone, Debug, PartialEq, Eq)]
pub struct Request {
    pub query: String,
    pub vars: Vec<(String, String)>,
    pub start_ts: u64,
    pub read_only: bool,
    pub best_effort: bool,
    pub mutations: Vec<Mutation>,
    pub commit_now: bool,
}

impl Request {
    pub fn new() -> (r: Request)
        ensures
            r.query@ == Seq::<char>::empty(),
            r.vars@ == Seq::<(String, String)>::empty(),
            r.start_ts == 0,
            !r.read_only,
            !r.best_effort,
            r.mutations@ == Seq::<Mutation>::empty(),
            !r.commit_now,
    {
        Request {
            query: String::new(),
            vars: Vec::new(),
            start_ts: 0,
            read_only: false,
            best_effort: false,
            mutations: Vec::new(),
            commit_now: false,
        }
    }
}

/// A query-or-mutate reply: the result payload, moved through opaquely,
/// and the server-side transaction context to merge locally.
#[derive(Clone, Debug, PartialEq, Eq)]
pub struct Response {
    pub json: Vec<u8>,
    pub txn: Option<TxnContext>,
}

/// The reply to a bare mutate call: assigned blank-node ids and the
/// server-side transaction context.
#[derive(Clone, Debug, PartialEq, Eq)]
pub struct Assigned {
    pub uids: Vec<(String, String)>,
    pub context: Option<TxnContext>,
}

/// A schema or administrative operation.
#[derive(Clone, Debug, PartialEq, Eq)]
pub struct Operation {
    pub schema: String,
    pub drop_attr: String,
    pub drop_all: bool,
}

/// The opaque reply payload of an administrative operation.
#[derive(Clone, Debug, PartialEq, Eq)]
pub struct Payload {
    pub data: Vec<u8>,
}

/// The (empty) request of a version probe.
#[derive(Clone, Debug, PartialEq, Eq)]
pub struct Check {}

/// The reply of a version probe.
#[derive(Clone, Debug, PartialEq, Eq)]
pub struct Version {
    pub tag: String,
}

/// Per-call options. The coordination logic carries none, so the type
/// holds no data; it keeps the two-step shape of each endpoint method,
/// where the plain form fills in the default options.
#[derive(Clone, Copy, Debug, PartialEq, Eq, Structural)]
pub struct CallOption {}

impl Default for CallOption {
    fn default() -> (r: CallOption)
        ensures
            r == (CallOption {  }),
    {
        CallOption {  }
    }
}

} // verus!
