use diesel_rds::connection::RdsConnection;
use diesel_rds::error::RdsError;
use diesel_rds::transaction_manager::{RdsTransactionManager, TransactionOp, TransactionStep};

#[derive(Default, Debug, PartialEq)]
struct Tally {
    remote_begin: usize,
    remote_commit: usize,
    remote_rollback: usize,
    statements: Vec<String>,
}

fn run(conn: &mut RdsConnection, op: TransactionOp, tally: &mut Tally) {
    match conn.transaction_step(op).unwrap() {
        TransactionStep::RemoteBegin => {
            tally.remote_begin += 1;
            conn.begin_transaction(Ok(String::from("token-1"))).unwrap();
        }
        TransactionStep::RemoteCommit => {
            tally.remote_commit += 1;
            conn.commit_transaction(Ok(())).unwrap();
        }
        TransactionStep::RemoteRollback => {
            tally.remote_rollback += 1;
            conn.rollback_transaction(Ok(())).unwrap();
        }
        TransactionStep::Statement(sql) => {
            tally.statements.push(sql);
            conn.savepoint_step_done(op, Ok(())).unwrap();
        }
    }
}

fn depth(conn: &RdsConnection) -> u32 {
    conn.transaction_manager().get_transaction_depth()
}

fn connection() -> RdsConnection {
    RdsConnection::new(String::from("arn:r"), String::from("arn:s"), None, None)
}

#[test]
fn nested_rollback_then_commit() {
    let mut conn = connection();
    let mut tally = Tally::default();
    run(&mut conn, TransactionOp::Begin, &mut tally);
    assert_eq!(depth(&conn), 1);
    run(&mut conn, TransactionOp::Begin, &mut tally);
    assert_eq!(depth(&conn), 2);
    run(&mut conn, TransactionOp::Rollback, &mut tally);
    assert_eq!(depth(&conn), 1);
    run(&mut conn, TransactionOp::Commit, &mut tally);
    assert_eq!(depth(&conn), 0);
    assert_eq!(tally.remote_begin, 1);
    assert_eq!(tally.remote_commit, 1);
    assert_eq!(tally.remote_rollback, 0);
    assert_eq!(
        tally.statements,
        vec![
            String::from("SAVEPOINT diesel_savepoint_1"),
            String::from("ROLLBACK TO SAVEPOINT diesel_savepoint_1"),
        ]
    );
    assert!(conn.end_request().is_err());
}

#[test]
fn triple_begin_triple_commit() {
    let mut conn = connection();
    let mut tally = Tally::default();
    for _ in 0..3 {
        run(&mut conn, TransactionOp::Begin, &mut tally);
    }
    assert_eq!(depth(&conn), 3);
    for _ in 0..3 {
        run(&mut conn, TransactionOp::Commit, &mut tally);
    }
    assert_eq!(depth(&conn), 0);
    assert_eq!(tally.remote_begin, 1);
    assert_eq!(tally.remote_commit, 1);
    assert_eq!(
        tally.statements,
        vec![
            String::from("SAVEPOINT diesel_savepoint_1"),
            String::from("SAVEPOINT diesel_savepoint_2"),
            String::from("RELEASE SAVEPOINT diesel_savepoint_2"),
            String::from("RELEASE SAVEPOINT diesel_savepoint_1"),
        ]
    );
}

#[test]
fn rollback_or_commit_without_transaction_fails() {
    let mut conn = connection();
    assert_eq!(conn.transaction_step(TransactionOp::Rollback), Err(RdsError::TransactionStateError));
    assert_eq!(conn.transaction_step(TransactionOp::Commit), Err(RdsError::TransactionStateError));
    assert_eq!(conn.rollback_transaction(Ok(())), Err(RdsError::TransactionStateError));
    assert_eq!(conn.commit_transaction(Ok(())), Err(RdsError::TransactionStateError));
    assert_eq!(RdsTransactionManager::new().step(TransactionOp::Commit), Err(RdsError::TransactionStateError));
}

#[test]
fn refused_begin_leaves_depth() {
    let mut conn = connection();
    assert_eq!(conn.begin_transaction(Err(RdsError::ExecutionFailure(String::from("service down")))), Err(RdsError::AlreadyInTransaction));
    assert_eq!(depth(&conn), 0);
    assert_eq!(conn.transaction_step(TransactionOp::Begin), Ok(TransactionStep::RemoteBegin));
}

#[test]
fn failed_steps_leave_depth_and_token() {
    let mut conn = connection();
    conn.begin_transaction(Ok(String::from("tok"))).unwrap();
    assert_eq!(conn.savepoint_step_done(TransactionOp::Begin, Err(RdsError::ExecutionFailure(String::from("service down")))), Err(RdsError::ExecutionFailure(String::from("service down"))));
    assert_eq!(depth(&conn), 1);
    assert_eq!(conn.commit_transaction(Err(RdsError::ExecutionFailure(String::from("service down")))), Err(RdsError::ExecutionFailure(String::from("service down"))));
    assert_eq!(depth(&conn), 1);
    let end = conn.end_request().unwrap();
    assert_eq!(end.transaction_id, "tok");
    assert_eq!(end.resource_arn, "arn:r");
    assert_eq!(end.secret_arn, "arn:s");
    assert_eq!(conn.execute_request("SELECT 1").transaction_id.as_deref(), Some("tok"));
    conn.rollback_transaction(Ok(())).unwrap();
    assert_eq!(depth(&conn), 0);
    assert_eq!(conn.execute_request("SELECT 1").transaction_id, None);
}

#[test]
fn begin_request_carries_routing() {
    let conn = RdsConnection::new(String::from("r"), String::from("s"), Some(String::from("d")), Some(String::from("sc")));
    let req = conn.begin_request();
    assert_eq!(req.resource_arn, "r");
    assert_eq!(req.secret_arn, "s");
    assert_eq!(req.database.as_deref(), Some("d"));
    assert_eq!(req.schema.as_deref(), Some("sc"));
}

#[test]
fn manager_records_outcomes() {
    let mut tm = RdsTransactionManager::new();
    assert_eq!(tm.rollback_transaction(Ok(())), Err(RdsError::TransactionStateError));
    assert_eq!(tm.commit_transaction(Ok(())), Err(RdsError::TransactionStateError));
    tm.begin_transaction(Ok(())).unwrap();
    tm.begin_transaction(Ok(())).unwrap();
    tm.begin_transaction(Ok(())).unwrap();
    assert_eq!(tm.get_transaction_depth(), 3);
    assert_eq!(
        tm.step(TransactionOp::Rollback),
        Ok(TransactionStep::Statement(String::from("ROLLBACK TO SAVEPOINT diesel_savepoint_2")))
    );
    let failure = Err(RdsError::ExecutionFailure(String::from("lost")));
    assert_eq!(tm.rollback_transaction(failure.clone()), failure);
    assert_eq!(tm.get_transaction_depth(), 3);
    tm.rollback_transaction(Ok(())).unwrap();
    assert_eq!(tm.get_transaction_depth(), 2);
    assert_eq!(
        tm.step(TransactionOp::Commit),
        Ok(TransactionStep::Statement(String::from("RELEASE SAVEPOINT diesel_savepoint_1")))
    );
    tm.commit_transaction(Ok(())).unwrap();
    assert_eq!(tm.get_transaction_depth(), 1);
    assert_eq!(tm.step(TransactionOp::Commit), Ok(TransactionStep::RemoteCommit));
    tm.commit_transaction(Ok(())).unwrap();
    assert_eq!(tm.get_transaction_depth(), 0);
}

#[test]
fn savepoint_names_past_nine_levels() {
    let mut tm = RdsTransactionManager::new();
    for _ in 0..12 {
        tm.begin_transaction(Ok(())).unwrap();
    }
    assert_eq!(
        tm.step(TransactionOp::Begin),
        Ok(TransactionStep::Statement(String::from("SAVEPOINT diesel_savepoint_12")))
    );
}
