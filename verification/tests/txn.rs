use dgraph::{
    encode_jwt, CallKind, Dgraph, DgraphClient, DgraphError, GrpcError, Jwt, Mutation, Request,
    Response, TxnContext,
};

const UNAUTHENTICATED: u32 = 16;

fn context(start_ts: u64) -> TxnContext {
    TxnContext {
        start_ts,
        keys: Vec::new(),
        preds: Vec::new(),
        aborted: false,
    }
}

fn uid_reply(uid: &str, start_ts: u64) -> Result<Response, GrpcError> {
    let json = format!(r#"{{"uids":[{{"uid":"{}"}}]}}"#, uid);
    Ok(Response {
        json: json.into_bytes(),
        txn: Some(context(start_ts)),
    })
}

fn one_endpoint_session(client: DgraphClient) -> Dgraph {
    Dgraph::new(vec![client])
}

#[test]
fn it_runs_simple_query() {
    let uid = "0x1";
    let mut client = DgraphClient::new();
    client.expect_query(uid_reply(uid, 1));
    let mut dgraph = one_endpoint_session(client);

    let query = format!(
        r#"{{
            uids(func: uid({})) {{
                uid,
            }}
        }}"#,
        uid
    );
    let mut txn = dgraph.new_readonly_txn();
    let resp = txn.query(&mut dgraph, &query);
    let json = resp.unwrap().json;

    assert_eq!(json, format!(r#"{{"uids":[{{"uid":"{}"}}]}}"#, uid).into_bytes());
}

#[test]
fn it_runs_query_with_vars() {
    let uid = "0x1";
    let mut client = DgraphClient::new();
    client.expect_query(uid_reply(uid, 1));
    let mut dgraph = one_endpoint_session(client);

    let query = r#"query all($a: string){
        uids(func: uid($a)) {
            uid,
        }
    }"#
    .to_string();
    let vars = vec![("$a".to_string(), uid.to_string())];
    let mut txn = dgraph.new_readonly_txn();
    let resp = txn.query_with_vars(&mut dgraph, &query, vars);
    let json = resp.unwrap().json;

    assert_eq!(json, format!(r#"{{"uids":[{{"uid":"{}"}}]}}"#, uid).into_bytes());
}

#[test]
fn it_returns_error_if_mandatory_var_is_omitted() {
    // The server answers such a query with a plain RPC failure.
    let mut client = DgraphClient::new();
    client.expect_query(Err(GrpcError { code: 2 }));
    let mut dgraph = one_endpoint_session(client);

    let query = r#"query all($a: string!){
        uids(func: eq(name, $a)) {
            uid
        }
    }"#
    .to_string();
    let vars = Vec::new();
    let mut txn = dgraph.new_readonly_txn();
    let resp = txn.query_with_vars(&mut dgraph, &query, vars);

    let error_matched = match resp.unwrap_err() {
        DgraphError::GrpcError(_) => true,
        _ => false,
    };
    assert!(error_matched);
}

#[test]
fn it_runs_multiple_queries_in_a_single_transaction() {
    let uid = "0x1";
    let mut client = DgraphClient::new();
    client.expect_query(uid_reply(uid, 5));
    client.expect_query(uid_reply(uid, 5));
    let mut dgraph = one_endpoint_session(client);

    let query = format!(
        r#"{{
            uids(func: uid({})) {{
                uid,
            }}
        }}"#,
        uid
    );
    let mut txn = dgraph.new_readonly_txn();
    let resp1 = txn.query(&mut dgraph, &query);
    let resp2 = txn.query(&mut dgraph, &query);

    assert!(resp1.is_ok());
    assert!(resp2.is_ok());
}

#[test]
fn it_commits_a_mutation() {
    let mut client = DgraphClient::new();
    client.expect_query(uid_reply("0x1", 7));
    client.expect_commit_or_abort(Ok(context(7)));
    let mut dgraph = one_endpoint_session(client);

    let mut txn = dgraph.new_txn();
    let mut mutation = Mutation::new();

    mutation.set_json = br#"{"name": "Alice"}"#.to_vec();
    txn.mutate(&mut dgraph, mutation).unwrap();
    let result = txn.commit(&mut dgraph);

    assert_eq!(result.is_ok(), true);
}

#[test]
fn it_returns_error_if_autocommited_mutation_is_commited_again() {
    let mut client = DgraphClient::new();
    client.expect_query(uid_reply("0x1", 7));
    let mut dgraph = one_endpoint_session(client);

    let mut txn = dgraph.new_txn();
    let mut mutation = Mutation {
        commit_now: true,
        ..Mutation::new()
    };

    mutation.set_json = br#"{"name": "Alice"}"#.to_vec();
    txn.mutate(&mut dgraph, mutation).unwrap();
    assert!(txn.finished);
    let result = txn.commit(&mut dgraph);

    let error_matched = match result.unwrap_err() {
        DgraphError::TxnFinished => true,
        _ => false,
    };
    assert!(error_matched);
}

#[test]
fn it_does_not_allow_mutation_in_readonly_transaction() {
    let mut client = DgraphClient::new();
    client.expect_query(uid_reply("0x1", 7));
    let mut dgraph = one_endpoint_session(client);

    let mut txn = dgraph.new_readonly_txn();
    let mut mutation = Mutation::new();

    mutation.set_json = br#"{"name": "Alice"}"#.to_vec();
    let result = txn.mutate(&mut dgraph, mutation);

    let error_matched = match result.unwrap_err() {
        DgraphError::TxnReadOnly => true,
        _ => false,
    };
    assert!(error_matched);
    // Rejected locally: the endpoint saw no call at all.
    assert_eq!(dgraph.dc[0].calls.len(), 0);
}

#[test]
fn it_does_nothing_if_autocommited_mutation_is_discarded() {
    let mut client = DgraphClient::new();
    client.expect_query(uid_reply("0x1", 7));
    let mut dgraph = one_endpoint_session(client);

    let mut txn = dgraph.new_txn();
    let mut mutation = Mutation {
        commit_now: true,
        ..Mutation::new()
    };

    mutation.set_json = br#"{"name": "Alice"}"#.to_vec();
    txn.mutate(&mut dgraph, mutation).unwrap();
    let result = txn.discard(&mut dgraph);

    assert_eq!(result.is_ok(), true);
    // Only the mutation's own call reached the endpoint.
    assert_eq!(dgraph.dc[0].calls.len(), 1);
    assert_eq!(dgraph.dc[0].calls[0].kind, CallKind::Query);
}

#[test]
fn it_does_not_commit_discarded_transaction() {
    let mut client = DgraphClient::new();
    client.expect_query(uid_reply("0x1", 7));
    client.expect_commit_or_abort(Ok(context(7)));
    let mut dgraph = one_endpoint_session(client);

    let mut txn = dgraph.new_txn();
    let mut mutation = Mutation::new();

    mutation.set_json = br#"{"name": "Alice"}"#.to_vec();
    txn.mutate(&mut dgraph, mutation).unwrap();
    let _ = txn.discard(&mut dgraph);
    let result = txn.commit(&mut dgraph);

    let error_matched = match result.unwrap_err() {
        DgraphError::TxnFinished => true,
        _ => false,
    };
    assert!(error_matched);
}

#[test]
fn it_runs_query_through_do_request() {
    let uid = "0x1";
    let mut client = DgraphClient::new();
    client.expect_query(uid_reply(uid, 1));
    let mut dgraph = one_endpoint_session(client);

    let query = format!(
        r#"{{
            uids(func: uid({})) {{
                uid,
            }}
        }}"#,
        uid
    );
    let mut request = Request {
        query,
        ..Request::new()
    };

    let mut txn = dgraph.new_readonly_txn();
    let resp = txn.do_request(&mut dgraph, &mut request);
    let json = resp.unwrap().json;

    assert_eq!(json, format!(r#"{{"uids":[{{"uid":"{}"}}]}}"#, uid).into_bytes());
}

#[test]
fn it_runs_query_and_mutation_without_variables_through_do_request() {
    let mut client = DgraphClient::new();
    client.expect_query(uid_reply("0x1", 9));
    client.expect_commit_or_abort(Ok(context(9)));
    let mut dgraph = one_endpoint_session(client);

    let mut txn = dgraph.new_txn();
    let uid = "0x1";
    let query = format!(
        r#"{{
            uids(func: uid({})) {{
                uid,
            }}
        }}"#,
        uid
    );
    let mut mutation = Mutation::new();
    mutation.set_json = br#"{"name": "Alice"}"#.to_vec();

    let mut request = Request {
        query,
        mutations: vec![mutation],
        ..Request::new()
    };

    let resp = txn.do_request(&mut dgraph, &mut request);
    assert!(resp.is_ok());
    let result = txn.commit(&mut dgraph);

    assert!(result.is_ok());
}

#[test]
fn it_runs_query_and_mutation_through_do_request() {
    let mut client = DgraphClient::new();
    client.expect_query(uid_reply("0x1", 9));
    client.expect_commit_or_abort(Ok(context(9)));
    let mut dgraph = one_endpoint_session(client);

    let mut txn = dgraph.new_txn();
    let uid = "0x1";
    let query = format!(
        r#"{{
            u as var(func: uid({})) {{
                uid,
            }}
        }}"#,
        uid
    );
    let mut mutation = Mutation::new();
    mutation.set_nquads = br#"uid(u) <name> "Alice" ."#.to_vec();

    let mut request = Request {
        query,
        mutations: vec![mutation],
        ..Request::new()
    };

    let _ = txn.do_request(&mut dgraph, &mut request);
    let result = txn.commit(&mut dgraph);

    assert!(result.is_ok());
}

#[test]
fn best_effort_needs_read_only() {
    let client = DgraphClient::new();
    let mut dgraph = one_endpoint_session(client);

    let mut txn = dgraph.new_txn();
    let result = txn.best_effort();

    let error_matched = match result.unwrap_err() {
        DgraphError::WriteTxnBestEffort => true,
        _ => false,
    };
    assert!(error_matched);
    assert!(!txn.best_effort);

    let mut ro = dgraph.new_readonly_txn();
    assert!(ro.best_effort().is_ok());
    assert!(ro.best_effort);
}

#[test]
fn merge_appends_keys_and_predicates_with_duplicates() {
    let client = DgraphClient::new();
    let dgraph = one_endpoint_session(client);
    let mut txn = dgraph.new_txn();

    let src1 = TxnContext {
        start_ts: 5,
        keys: vec!["a".to_string(), "b".to_string()],
        preds: vec!["a".to_string(), "b".to_string()],
        aborted: false,
    };
    let src2 = TxnContext {
        start_ts: 5,
        keys: vec!["b".to_string(), "c".to_string()],
        preds: vec!["b".to_string(), "c".to_string()],
        aborted: false,
    };
    txn.merge_context(&src1).unwrap();
    txn.merge_context(&src2).unwrap();

    let expected = vec![
        "a".to_string(),
        "b".to_string(),
        "b".to_string(),
        "c".to_string(),
    ];
    assert_eq!(txn.context.keys, expected);
    assert_eq!(txn.context.preds, expected);
    assert_eq!(txn.context.start_ts, 5);
}

#[test]
fn merge_rejects_start_timestamp_change() {
    let client = DgraphClient::new();
    let dgraph = one_endpoint_session(client);
    let mut txn = dgraph.new_txn();

    txn.merge_context(&context(5)).unwrap();
    let result = txn.merge_context(&TxnContext {
        start_ts: 7,
        keys: vec!["k".to_string()],
        preds: Vec::new(),
        aborted: false,
    });

    let error_matched = match result.unwrap_err() {
        DgraphError::StartTsMismatch => true,
        _ => false,
    };
    assert!(error_matched);
    assert_eq!(txn.context.start_ts, 5);
    assert_eq!(txn.context.keys.len(), 0);
}

#[test]
fn query_reply_without_context_is_rejected() {
    let mut client = DgraphClient::new();
    client.expect_query(Ok(Response {
        json: b"{}".to_vec(),
        txn: None,
    }));
    let mut dgraph = one_endpoint_session(client);

    let mut txn = dgraph.new_readonly_txn();
    let result = txn.query(&mut dgraph, "schema {}");

    let error_matched = match result.unwrap_err() {
        DgraphError::EmptyTxn => true,
        _ => false,
    };
    assert!(error_matched);
}

#[test]
fn one_refresh_and_one_retry_recover_an_expired_credential() {
    let mut client = DgraphClient::new();
    client.expect_query(Err(GrpcError {
        code: UNAUTHENTICATED,
    }));
    client.expect_query(uid_reply("0x1", 3));
    let fresh = Jwt {
        access_jwt: b"new-access".to_vec(),
        refresh_jwt: b"new-refresh".to_vec(),
    };
    client.expect_login(Ok(Response {
        json: encode_jwt(&fresh),
        txn: None,
    }));
    let mut dgraph = one_endpoint_session(client);
    dgraph.jwt = Jwt {
        access_jwt: b"old-access".to_vec(),
        refresh_jwt: b"old-refresh".to_vec(),
    };

    let mut txn = dgraph.new_readonly_txn();
    let resp = txn.query(&mut dgraph, "schema {}");

    assert!(resp.is_ok());
    let kinds: Vec<CallKind> = dgraph.dc[0].calls.iter().map(|c| c.kind).collect();
    assert_eq!(kinds, vec![CallKind::Query, CallKind::Login, CallKind::Query]);
    assert!(dgraph.dc[0].calls[1].refresh);
    assert_eq!(dgraph.jwt, fresh);
}

#[test]
fn a_second_expired_credential_failure_is_surfaced_without_more_retries() {
    let mut client = DgraphClient::new();
    client.expect_query(Err(GrpcError {
        code: UNAUTHENTICATED,
    }));
    client.expect_query(Err(GrpcError {
        code: UNAUTHENTICATED,
    }));
    let fresh = Jwt {
        access_jwt: b"new-access".to_vec(),
        refresh_jwt: b"new-refresh".to_vec(),
    };
    client.expect_login(Ok(Response {
        json: encode_jwt(&fresh),
        txn: None,
    }));
    let mut dgraph = one_endpoint_session(client);
    dgraph.jwt = Jwt {
        access_jwt: b"old-access".to_vec(),
        refresh_jwt: b"old-refresh".to_vec(),
    };

    let mut txn = dgraph.new_readonly_txn();
    let resp = txn.query(&mut dgraph, "schema {}");

    assert_eq!(
        resp.unwrap_err(),
        DgraphError::GrpcError(GrpcError {
            code: UNAUTHENTICATED
        })
    );
    // Exactly one refresh and one retry: three calls, never more.
    let kinds: Vec<CallKind> = dgraph.dc[0].calls.iter().map(|c| c.kind).collect();
    assert_eq!(kinds, vec![CallKind::Query, CallKind::Login, CallKind::Query]);
    assert!(txn.finished);
}

#[test]
fn refresh_failure_without_token_is_surfaced_and_txn_discarded() {
    let mut client = DgraphClient::new();
    client.expect_query(Err(GrpcError {
        code: UNAUTHENTICATED,
    }));
    let mut dgraph = one_endpoint_session(client);

    let mut txn = dgraph.new_readonly_txn();
    let resp = txn.query(&mut dgraph, "schema {}");

    let error_matched = match resp.unwrap_err() {
        DgraphError::JwtRefreshTokenEmpty => true,
        _ => false,
    };
    assert!(error_matched);
    assert!(txn.finished);
    assert!(txn.context.aborted);
}

#[test]
fn abandoned_mutated_transaction_sends_one_abort() {
    let mut client = DgraphClient::new();
    client.expect_query(uid_reply("0x1", 7));
    client.expect_commit_or_abort(Ok(context(7)));
    let mut dgraph = one_endpoint_session(client);

    let mut txn = dgraph.new_txn();
    let mut mutation = Mutation::new();
    mutation.set_json = br#"{"name": "Alice"}"#.to_vec();
    txn.mutate(&mut dgraph, mutation).unwrap();

    // The owner's cleanup path: no explicit commit ever ran.
    let _ = txn.discard(&mut dgraph);

    let aborts: Vec<&dgraph::CallRecord> = dgraph.dc[0]
        .calls
        .iter()
        .filter(|c| c.kind == CallKind::CommitOrAbort)
        .collect();
    assert_eq!(aborts.len(), 1);
    assert!(aborts[0].aborted);
    assert_eq!(aborts[0].start_ts, 7);
}

#[test]
fn unmutated_transaction_finishes_without_contacting_the_server() {
    let client = DgraphClient::new();
    let mut dgraph = one_endpoint_session(client);

    let txn = dgraph.new_txn();
    let result = txn.commit(&mut dgraph);

    assert!(result.is_ok());
    assert_eq!(dgraph.dc[0].calls.len(), 0);

    let mut txn2 = dgraph.new_txn();
    assert!(txn2.discard(&mut dgraph).is_ok());
    assert_eq!(dgraph.dc[0].calls.len(), 0);
}

#[test]
fn finished_transaction_rejects_every_call() {
    let mut client = DgraphClient::new();
    client.expect_query(uid_reply("0x1", 7));
    let mut dgraph = one_endpoint_session(client);

    let mut txn = dgraph.new_txn();
    let mut mutation = Mutation {
        commit_now: true,
        ..Mutation::new()
    };
    mutation.set_json = br#"{"name": "Alice"}"#.to_vec();
    txn.mutate(&mut dgraph, mutation).unwrap();

    let queried = txn.query(&mut dgraph, "schema {}");
    let error_matched = match queried.unwrap_err() {
        DgraphError::TxnFinished => true,
        _ => false,
    };
    assert!(error_matched);
    // Discard after finishing stays an idempotent no-op success.
    assert!(txn.discard(&mut dgraph).is_ok());
}
