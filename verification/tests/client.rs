use dgraph::{encode_jwt, Dgraph, DgraphClient, GrpcError, Jwt, Operation, Payload, Response};

const UNAUTHENTICATED: u32 = 16;

fn ok_query_reply(start_ts: u64) -> Result<Response, GrpcError> {
    Ok(Response {
        json: b"{}".to_vec(),
        txn: Some(dgraph::TxnContext {
            start_ts,
            keys: Vec::new(),
            preds: Vec::new(),
            aborted: false,
        }),
    })
}

fn is_connected(dgraph: &mut Dgraph) -> bool {
    let q = "schema {}".to_string();
    let mut txn = dgraph.new_readonly_txn();
    let response = txn.query(dgraph, &q);

    response.is_ok()
}

#[test]
fn it_connects() {
    let mut client = DgraphClient::new();
    client.expect_query(ok_query_reply(1));
    let mut dgraph = Dgraph::new(vec![client]);

    assert_eq!(is_connected(&mut dgraph), true);
}

#[test]
fn it_does_not_connect_to_wrong_url() {
    // An endpoint with no reply queued answers as an unreachable server.
    let client = DgraphClient::new();
    let mut dgraph = Dgraph::new(vec![client]);

    assert_eq!(is_connected(&mut dgraph), false);
}

#[test]
fn it_alters_schema() {
    let mut client = DgraphClient::new();
    client.expect_alter(Ok(Payload { data: Vec::new() }));
    let mut dgraph = Dgraph::new(vec![client]);

    let result = dgraph.alter(&Operation {
        schema: "something: string .".to_string(),
        drop_attr: String::new(),
        drop_all: false,
    });

    assert_eq!(result.is_ok(), true);
}

#[test]
#[should_panic]
fn it_does_not_alter_without_client() {
    let mut dgraph = Dgraph::new(Vec::new());
    let _ = dgraph.alter(&Operation {
        schema: "something: string .".to_string(),
        drop_attr: String::new(),
        drop_all: false,
    });
}

#[test]
#[should_panic]
fn it_does_not_crate_transaction_without_client() {
    let dgraph = Dgraph::new(Vec::new());
    dgraph.new_txn();
}

#[test]
fn it_retries_alter_once_after_credential_refresh() {
    let mut client = DgraphClient::new();
    client.expect_alter(Err(GrpcError {
        code: UNAUTHENTICATED,
    }));
    client.expect_alter(Ok(Payload { data: Vec::new() }));
    let fresh = Jwt {
        access_jwt: b"new-access".to_vec(),
        refresh_jwt: b"new-refresh".to_vec(),
    };
    client.expect_login(Ok(Response {
        json: encode_jwt(&fresh),
        txn: None,
    }));
    let mut dgraph = Dgraph::new(vec![client]);
    dgraph.jwt = Jwt {
        access_jwt: b"old-access".to_vec(),
        refresh_jwt: b"old-refresh".to_vec(),
    };

    let result = dgraph.alter(&Operation {
        schema: "something: string .".to_string(),
        drop_attr: String::new(),
        drop_all: false,
    });

    assert!(result.is_ok());
    assert_eq!(dgraph.jwt, fresh);
    let kinds: Vec<dgraph::CallKind> = dgraph.dc[0].calls.iter().map(|c| c.kind).collect();
    assert_eq!(
        kinds,
        vec![
            dgraph::CallKind::Alter,
            dgraph::CallKind::Login,
            dgraph::CallKind::Alter
        ]
    );
    assert!(dgraph.dc[0].calls[1].refresh);
}

#[test]
fn it_surfaces_alter_failure_that_is_not_credential_expiry() {
    let mut client = DgraphClient::new();
    client.expect_alter(Err(GrpcError { code: 2 }));
    let mut dgraph = Dgraph::new(vec![client]);

    let result = dgraph.alter(&Operation {
        schema: "something: string .".to_string(),
        drop_attr: String::new(),
        drop_all: false,
    });

    assert_eq!(
        result.unwrap_err(),
        dgraph::DgraphError::GrpcError(GrpcError { code: 2 })
    );
    // No refresh, no second attempt.
    assert_eq!(dgraph.dc[0].calls.len(), 1);
}

#[test]
fn it_replaces_credential_on_login() {
    let issued = Jwt {
        access_jwt: b"access-token".to_vec(),
        refresh_jwt: b"refresh-token".to_vec(),
    };
    let mut client = DgraphClient::new();
    client.expect_login(Ok(Response {
        json: encode_jwt(&issued),
        txn: None,
    }));
    let mut dgraph = Dgraph::new(vec![client]);

    let result = dgraph.login("groot".to_string(), "password".to_string());

    assert!(result.is_ok());
    assert_eq!(dgraph.jwt, issued);
    assert_eq!(dgraph.dc[0].calls.len(), 1);
    assert!(!dgraph.dc[0].calls[0].refresh);
}

#[test]
fn it_rejects_login_reply_that_does_not_decode() {
    let mut client = DgraphClient::new();
    client.expect_login(Ok(Response {
        json: b"not a credential".to_vec(),
        txn: None,
    }));
    let mut dgraph = Dgraph::new(vec![client]);

    let result = dgraph.login("groot".to_string(), "password".to_string());

    assert_eq!(
        result.unwrap_err(),
        dgraph::DgraphError::GrpcError(GrpcError { code: 13 })
    );
    assert_eq!(dgraph.jwt, Jwt::new());
}

#[test]
fn it_refuses_refresh_without_refresh_token() {
    let client = DgraphClient::new();
    let mut dgraph = Dgraph::new(vec![client]);

    let result = dgraph.retry_login();

    assert_eq!(result.unwrap_err(), dgraph::DgraphError::JwtRefreshTokenEmpty);
    assert_eq!(dgraph.dc[0].calls.len(), 0);
}

#[test]
fn any_client_picks_an_index_inside_the_pool() {
    let clients = vec![DgraphClient::new(), DgraphClient::new(), DgraphClient::new()];
    let dgraph = Dgraph::new(clients);
    for _ in 0..32 {
        let picked = dgraph.any_client().unwrap();
        assert!(picked < 3);
    }
}

#[test]
fn endpoint_replays_replies_in_order_and_records_calls() {
    let mut client = DgraphClient::new();
    client.expect_check_version(Ok(dgraph::Version {
        tag: "v1.0.0".to_string(),
    }));
    client.expect_mutate(Ok(dgraph::Assigned {
        uids: vec![("blank-0".to_string(), "0x2".to_string())],
        context: None,
    }));

    let version = client.check_version(&dgraph::Check {}).unwrap();
    assert_eq!(version.tag, "v1.0.0");

    let mut mutation = dgraph::Mutation::new();
    mutation.set_json = br#"{"name": "Alice"}"#.to_vec();
    mutation.commit_now = true;
    let assigned = client
        .mutate_opt(&mutation, dgraph::CallOption::default())
        .unwrap();
    assert_eq!(assigned.uids[0].1, "0x2");

    // A third call finds nothing queued: the unreachable-server failure.
    assert_eq!(
        client.check_version(&dgraph::Check {}).unwrap_err(),
        GrpcError { code: 14 }
    );

    assert_eq!(client.calls.len(), 3);
    assert_eq!(client.calls[0].kind, dgraph::CallKind::CheckVersion);
    assert_eq!(client.calls[1].kind, dgraph::CallKind::Mutate);
    assert!(client.calls[1].commit_now);
    assert_eq!(client.calls[2].kind, dgraph::CallKind::CheckVersion);
}

#[test]
fn it_classifies_only_unauthenticated_as_expired() {
    let client = DgraphClient::new();
    let dgraph = Dgraph::new(vec![client]);

    assert!(dgraph.is_jwt_expired(&GrpcError {
        code: UNAUTHENTICATED
    }));
    assert!(!dgraph.is_jwt_expired(&GrpcError { code: 2 }));
    assert!(!dgraph.is_jwt_expired(&GrpcError { code: 14 }));
}
