use diesel_rds::connection::{QueryPiece, RdsConnection};
use diesel_rds::error::RdsError;
use diesel_rds::query_builder::RdsQueryBuilder;
use diesel_rds::types::{Field, RdsTypes};

#[test]
fn identifier_with_quote_is_escaped() {
    let mut qb = RdsQueryBuilder::new();
    assert!(qb.push_identifier("a\"b").is_ok());
    assert_eq!(qb.finish(), "\"a\"\"b\"");
}

#[test]
fn identifier_edge_cases() {
    let mut qb = RdsQueryBuilder::new();
    qb.push_identifier("").unwrap();
    qb.push_sql(" ");
    qb.push_identifier("\"\"").unwrap();
    qb.push_sql(" ");
    qb.push_identifier("plain name").unwrap();
    assert_eq!(qb.finish(), "\"\" \"\"\"\"\"\" \"plain name\"");
}

#[test]
fn placeholders_are_numbered_in_order() {
    let mut qb = RdsQueryBuilder::new();
    qb.push_sql("SELECT * FROM t WHERE a = ");
    qb.push_bind_param();
    qb.push_sql(" AND b = ");
    qb.push_bind_param();
    assert_eq!(qb.finish(), "SELECT * FROM t WHERE a = $1 AND b = $2");
}

#[test]
fn placeholders_past_nine() {
    let mut qb = RdsQueryBuilder::new();
    for _ in 0..12 {
        qb.push_bind_param();
        qb.push_sql(",");
    }
    assert_eq!(qb.finish(), "$1,$2,$3,$4,$5,$6,$7,$8,$9,$10,$11,$12,");
}

#[test]
fn prepared_query_pairs_placeholders_and_parameters() {
    let conn = RdsConnection::new(
        String::from("arn:resource"),
        String::from("arn:secret"),
        Some(String::from("db")),
        None,
    );
    let pieces = vec![
        QueryPiece::Sql(String::from("SELECT ")),
        QueryPiece::Identifier(String::from("na\"me")),
        QueryPiece::Sql(String::from(" FROM t WHERE id = ")),
        QueryPiece::Bind(RdsTypes::Long, Some(7i32.to_be_bytes().to_vec())),
        QueryPiece::Sql(String::from(" AND label = ")),
        QueryPiece::Bind(RdsTypes::String, Some(b"x".to_vec())),
    ];
    let req = conn.prepare_query(&pieces).unwrap();
    assert_eq!(req.sql, "SELECT \"na\"\"me\" FROM t WHERE id = $1 AND label = $2");
    assert_eq!(req.parameters.len(), 2);
    assert!(matches!(req.parameters[0], Field::Long(7)));
    assert!(matches!(&req.parameters[1], Field::Text(s) if s == "x"));
    assert_eq!(req.transaction_id, None);
    assert_eq!(req.resource_arn, "arn:resource");
    assert_eq!(req.secret_arn, "arn:secret");
    assert_eq!(req.database.as_deref(), Some("db"));
    assert!(req.include_result_metadata);
    assert!(req.continue_after_timeout);
}

#[test]
fn prepared_query_with_unencoded_bind_uses_default() {
    let conn = RdsConnection::new(String::from("r"), String::from("s"), None, None);
    let pieces = vec![QueryPiece::Sql(String::from("x = ")), QueryPiece::Bind(RdsTypes::Long, None)];
    let req = conn.prepare_query(&pieces).unwrap();
    assert_eq!(req.sql, "x = $1");
    assert!(matches!(req.parameters[0], Field::Long(0)));
}

#[test]
fn prepared_query_rejects_malformed_bind() {
    let conn = RdsConnection::new(String::from("r"), String::from("s"), None, None);
    let pieces = vec![QueryPiece::Bind(RdsTypes::Long, Some(vec![1, 2, 3]))];
    assert_eq!(conn.prepare_query(&pieces).unwrap_err(), RdsError::MalformedBind);
}

#[test]
fn raw_statement_request() {
    let conn = RdsConnection::new(String::from("r"), String::from("s"), None, Some(String::from("public")));
    let req = conn.execute_request("DELETE FROM t");
    assert_eq!(req.sql, "DELETE FROM t");
    assert!(req.parameters.is_empty());
    assert_eq!(req.transaction_id, None);
    assert_eq!(req.schema.as_deref(), Some("public"));
    assert!(req.include_result_metadata);
    assert!(req.continue_after_timeout);
}
