//! The connection: it assembles the requests sent to the SQL service, keeps
//! the transaction token together with the nesting depth, and reads the
//! responses.

use vstd::prelude::*;

use crate::error::{DecodeError, RdsError};
use crate::query_builder::{placeholder, quote_identifier, RdsQueryBuilder};
use crate::row::{build_record, record_spec, ColumnMetadata, FieldDecl, Value, ValueView};
use crate::transaction_manager::{
    depth_after, step_for, RdsTransactionManager, StepView, TransactionOp, TransactionStep,
};
use crate::types::{bytes_to_field, Field, FieldView, RdsTypes};

verus! {

/// The request that opens a transaction on the service.
#[derive(Debug, Clone)]
pub struct BeginTransactionRequest {
    pub database: Option<String>,
    pub resource_arn: String,
    pub schema: Option<String>,
    pub secret_arn: String,
}

/// The request that commits or rolls back the transaction of a token.
#[derive(Debug, Clone)]
pub struct EndTransactionRequest {
    pub resource_arn: String,
    pub secret_arn: String,
    pub transaction_id: String,
}

/// The request that runs one SQL statement.
#[derive(Debug, Clone)]
pub struct ExecuteStatementRequest {
    pub sql: String,
    pub parameters: Vec<Field>,
    pub transaction_id: Option<String>,
    pub database: Option<String>,
    pub resource_arn: String,
    pub schema: Option<String>,
    pub secret_arn: String,
    pub include_result_metadata: bool,
    pub continue_after_timeout: bool,
}

/// What the service answers to a statement.
#[derive(Debug, Clone)]
pub struct ExecuteStatementResponse {
    pub number_of_records_updated: Option<i64>,
    pub column_metadata: Option<Vec<ColumnMetadata>>,
    pub records: Option<Vec<Vec<Field>>>,
}

/// One piece of a statement as a query renders it.
#[derive(Debug, Clone)]
pub enum QueryPiece {
    /// SQL text, taken as it is.
    Sql(String),
    /// An identifier, to be quoted.
    Identifier(String),
    /// A bind value: its type tag and its encoded bytes, `None` for a value
    /// that was never encoded.
    Bind(RdsTypes, Option<Vec<u8>>),
}

/// The encoded bytes of a bind value; none stands for the empty encoding.
pub open spec fn bind_bytes(b: Option<Vec<u8>>) -> Seq<u8> {
    match b {
        Some(v) => v@,
        None => Seq::empty(),
    }
}

/// How many bind values the pieces hold.
pub open spec fn bind_count(ps: Seq<QueryPiece>) -> nat
    decreases ps.len(),
{
    if ps.len() == 0 {
        0
    } else {
        bind_count(ps.drop_last()) + if ps.last() is Bind {
            1nat
        } else {
            0nat
        }
    }
}

/// The SQL text of the pieces: text as it is, identifiers quoted, and the
/// `k`-th bind value as the placeholder `$k`.
pub open spec fn render_sql(ps: Seq<QueryPiece>) -> Seq<char>
    decreases ps.len(),
{
    if ps.len() == 0 {
        Seq::empty()
    } else {
        render_sql(ps.drop_last()) + match ps.last() {
            QueryPiece::Sql(s) => s@,
            QueryPiece::Identifier(s) => quote_identifier(s@),
            QueryPiece::Bind(_, _) => placeholder(bind_count(ps.drop_last()) + 1),
        }
    }
}

/// The numbers of the placeholders in the SQL text of the pieces, in the order
/// in which they stand.
pub open spec fn placeholder_numbers(ps: Seq<QueryPiece>) -> Seq<nat>
    decreases ps.len(),
{
    if ps.len() == 0 {
        Seq::empty()
    } else if ps.last() is Bind {
        placeholder_numbers(ps.drop_last()).push(bind_count(ps.drop_last()) + 1)
    } else {
        placeholder_numbers(ps.drop_last())
    }
}

/// The cells that the bind values of the pieces are sent as, in order; `None`
/// where one of them is malformed.
pub open spec fn render_parameters(ps: Seq<QueryPiece>) -> Option<Seq<FieldView>>
    decreases ps.len(),
{
    if ps.len() == 0 {
        Some(Seq::empty())
    } else {
        match render_parameters(ps.drop_last()) {
            None => None,
            Some(fs) => match ps.last() {
                QueryPiece::Bind(t, b) => match bytes_to_field(t, bind_bytes(b)) {
                    Some(f) => Some(fs.push(f)),
                    None => None,
                },
                _ => Some(fs),
            },
        }
    }
}

/// The placeholders of a rendered statement are `$1`, `$2`, ... up to the
/// number of its bind values, in this order, and the `i`-th parameter sent is
/// the `i`-th bind value, so that it binds to the placeholder `$i`.
pub proof fn lemma_placeholders_match_parameters(ps: Seq<QueryPiece>)
    ensures
        placeholder_numbers(ps) == Seq::new(bind_count(ps), |i: int| (i + 1) as nat),
        render_parameters(ps) matches Some(fs) ==> fs.len() == bind_count(ps),
    decreases ps.len(),
{
    if ps.len() > 0 {
        lemma_placeholders_match_parameters(ps.drop_last());
        assert(placeholder_numbers(ps) =~= Seq::new(bind_count(ps), |i: int| (i + 1) as nat));
    }
}

/// The bind values of the pieces are at most as many as the pieces.
proof fn lemma_bind_count_bound(ps: Seq<QueryPiece>)
    ensures
        bind_count(ps) <= ps.len(),
    decreases ps.len(),
{
    if ps.len() > 0 {
        lemma_bind_count_bound(ps.drop_last());
    }
}

/// A prefix of pieces with malformed bind values makes the whole malformed.
proof fn lemma_malformed_persists(ps: Seq<QueryPiece>, k: int)
    requires
        0 <= k <= ps.len(),
        render_parameters(ps.subrange(0, k)) is None,
    ensures
        render_parameters(ps) is None,
    decreases ps.len() - k,
{
    if k < ps.len() {
        assert(ps.subrange(0, k + 1).drop_last() == ps.subrange(0, k));
        lemma_malformed_persists(ps, k + 1);
    } else {
        assert(ps.subrange(0, k) == ps);
    }
}

/// The count of affected rows that a response reports, `0` where it reports none.
pub fn rows_affected(response: &ExecuteStatementResponse) -> (r: usize)
    ensures
        r == (match response.number_of_records_updated {
            Some(n) => n,
            None => 0,
        }) as usize,
{
    match response.number_of_records_updated {
        Some(n) => #[verifier::truncate] (n as usize),
        None => 0,
    }
}

/// Whether a response holds at least one row.
pub open spec fn has_rows(response: ExecuteStatementResponse) -> bool {
    response.records matches Some(rows) && rows@.len() > 0
}

/// The records that a response reads as, with the fields that `decl`
/// declares: none where it holds no rows, an error where it holds rows but no
/// column descriptors, and else each row read by column name, or the failure
/// of the first row that cannot be.
pub open spec fn records_spec(response: ExecuteStatementResponse, decl: Seq<FieldDecl>) -> Result<
    Seq<Seq<ValueView>>,
    RdsError,
> {
    if !has_rows(response) {
        Ok(Seq::empty())
    } else {
        match response.column_metadata {
            None => Err(RdsError::MissingColumnMetadata),
            Some(meta) => rows_spec(meta@, response.records.unwrap()@, decl),
        }
    }
}

/// The column descriptors to read the rows of a response with: none where it
/// holds no rows, `MissingColumnMetadata` where it holds rows without them.
pub fn named_rows(response: &ExecuteStatementResponse) -> (r: Result<
    Option<&Vec<ColumnMetadata>>,
    RdsError,
>)
    ensures
        !has_rows(*response) ==> r == Ok::<Option<&Vec<ColumnMetadata>>, RdsError>(None),
        has_rows(*response) ==> match response.column_metadata {
            None => r == Err::<Option<&Vec<ColumnMetadata>>, RdsError>(
                RdsError::MissingColumnMetadata,
            ),
            Some(meta) => r == Ok::<Option<&Vec<ColumnMetadata>>, RdsError>(Some(&meta)),
        },
{
    let rows_present = match &response.records {
        Some(rows) => rows.len() > 0,
        None => false,
    };
    if !rows_present {
        return Ok(None);
    }
    match &response.column_metadata {
        None => Err(RdsError::MissingColumnMetadata),
        Some(meta) => Ok(Some(meta)),
    }
}

/// Each row read by column name, or the failure of the first that cannot be.
pub open spec fn rows_spec(meta: Seq<ColumnMetadata>, rows: Seq<Vec<Field>>, decl: Seq<FieldDecl>) -> Result<
    Seq<Seq<ValueView>>,
    RdsError,
>
    decreases rows.len(),
{
    if rows.len() == 0 {
        Ok(Seq::empty())
    } else {
        match rows_spec(meta, rows.drop_last(), decl) {
            Err(e) => Err(e),
            Ok(rs) => match record_spec(meta, rows.last()@, decl) {
                Err(e) => Err(RdsError::DeserializationError(e)),
                Ok(r) => Ok(rs.push(r)),
            },
        }
    }
}

/// Rows that fail on a prefix fail the same way as a whole.
proof fn lemma_rows_failure_persists(
    meta: Seq<ColumnMetadata>,
    rows: Seq<Vec<Field>>,
    decl: Seq<FieldDecl>,
    k: int,
)
    requires
        0 <= k <= rows.len(),
        rows_spec(meta, rows.subrange(0, k), decl) is Err,
    ensures
        rows_spec(meta, rows, decl) == rows_spec(meta, rows.subrange(0, k), decl),
    decreases rows.len() - k,
{
    if k < rows.len() {
        assert(rows.subrange(0, k + 1).drop_last() == rows.subrange(0, k));
        lemma_rows_failure_persists(meta, rows, decl, k + 1);
    } else {
        assert(rows.subrange(0, k) == rows);
    }
}

/// The view of decoded records.
pub open spec fn records_view(rs: Seq<Vec<Value>>) -> Seq<Seq<ValueView>> {
    rs.map_values(|r: Vec<Value>| r@.map_values(|x: Value| x@))
}

/// Reads the rows of a response into records with the fields that `decl`
/// declares.
pub fn query_by_name(response: &ExecuteStatementResponse, decl: &Vec<FieldDecl>) -> (r: Result<
    Vec<Vec<Value>>,
    RdsError,
>)
    ensures
        match records_spec(*response, decl@) {
            Ok(rs) => r matches Ok(xs) && records_view(xs@) == rs,
            Err(e) => r == Err::<Vec<Vec<Value>>, RdsError>(e),
        },
{
    let empty_out: Vec<Vec<Value>> = Vec::new();
    proof {
        assert(records_view(empty_out@) =~= Seq::<Seq<ValueView>>::empty());
    }
    match &response.records {
        None => Ok(empty_out),
        Some(rows) => if rows.len() == 0 {
            Ok(empty_out)
        } else {
            match &response.column_metadata {
            None => Err(RdsError::MissingColumnMetadata),
            Some(meta) => {
                let mut out: Vec<Vec<Value>> = Vec::new();
                let mut k: usize = 0;
                while k < rows.len()
                    invariant
                        k <= rows@.len(),
                        response.records == Some(*rows),
                        response.column_metadata == Some(*meta),
                        rows_spec(meta@, rows@.subrange(0, k as int), decl@) matches Ok(rs)
                            && records_view(out@) == rs,
                    decreases rows@.len() - k,
                {
                    proof {
                        assert(rows@.subrange(0, k + 1).drop_last() == rows@.subrange(0, k as int));
                        assert(rows@.subrange(0, k + 1).last() == rows@[k as int]);
                    }
                    match build_record(meta, &rows[k], decl) {
                        Ok(rec) => {
                            let ghost before = out@;
                            out.push(rec);
                            proof {
                                assert(records_view(out@) =~= records_view(before).push(
                                    rec@.map_values(|x: Value| x@),
                                ));
                            }
                        },
                        Err(e) => {
                            proof {
                                assert(record_spec(meta@, rows@[k as int]@, decl@) == Err::<
                                    Seq<ValueView>,
                                    DecodeError,
                                >(e));
                                assert(rows_spec(meta@, rows@.subrange(0, k + 1), decl@) == Err::<
                                    Seq<Seq<ValueView>>,
                                    RdsError,
                                >(RdsError::DeserializationError(e)));
                                lemma_rows_failure_persists(meta@, rows@, decl@, k + 1);
                            }
                            return Err(RdsError::DeserializationError(e));
                        },
                    }
                    k = k + 1;
                }
                proof {
                    assert(rows@.subrange(0, k as int) == rows@);
                }
                Ok(out)
            },
            }
        },
    }
}

/// A connection to the SQL service. It holds the routing identifiers, the
/// nesting depth of transactions and the token of the open transaction: a
/// token is held exactly while the depth is above 0.
pub struct RdsConnection {
    transaction_manager: RdsTransactionManager,
    transaction_id: Option<String>,
    database: Option<String>,
    resource_arn: String,
    schema: Option<String>,
    secret_arn: String,
}

impl RdsConnection {
    /// A token is held exactly while a transaction is open.
    pub closed spec fn wf(&self) -> bool {
        self.transaction_id is Some <==> self.transaction_manager.depth() > 0
    }

    /// A well-formed connection holds a token exactly while a transaction is
    /// open.
    pub proof fn lemma_token_iff_open(&self)
        requires
            self.wf(),
        ensures
            self.token() is Some <==> self.depth() > 0,
    {
    }

    /// The nesting depth of transactions.
    pub closed spec fn depth(&self) -> nat {
        self.transaction_manager.depth()
    }

    /// The token of the open transaction.
    pub closed spec fn token(&self) -> Option<String> {
        self.transaction_id
    }

    /// The identifier of the database resource.
    pub closed spec fn resource(&self) -> String {
        self.resource_arn
    }

    /// The identifier of the secret that grants access.
    pub closed spec fn secret(&self) -> String {
        self.secret_arn
    }

    /// The target database, if any.
    pub closed spec fn database(&self) -> Option<String> {
        self.database
    }

    /// The target schema, if any.
    pub closed spec fn schema(&self) -> Option<String> {
        self.schema
    }

    /// A connection with the given routing and no open transaction.
    pub fn new(resource_arn: String, secret_arn: String, database: Option<String>, schema: Option<
        String,
    >) -> (r: Self)
        ensures
            r.wf(),
            r.depth() == 0,
            r.token() is None,
            r.resource() == resource_arn,
            r.secret() == secret_arn,
            r.database() == database,
            r.schema() == schema,
    {
        RdsConnection {
            transaction_manager: RdsTransactionManager::new(),
            transaction_id: None,
            database,
            resource_arn,
            schema,
            secret_arn,
        }
    }

    /// The transaction manager of this connection.
    pub fn transaction_manager(&self) -> (r: &RdsTransactionManager)
        ensures
            r.depth() == self.depth(),
    {
        &self.transaction_manager
    }

    /// The step that carries out `op` now, or `TransactionStateError` where
    /// `op` commits or rolls back and no transaction is open.
    pub fn transaction_step(&self, op: TransactionOp) -> (r: Result<TransactionStep, RdsError>)
        ensures
            match step_for(op, self.depth()) {
                Some(v) => r matches Ok(s) && s@ == v,
                None => r == Err::<TransactionStep, RdsError>(RdsError::TransactionStateError),
            },
    {
        self.transaction_manager.step(op)
    }

    /// The request that opens a transaction with this connection's routing.
    pub fn begin_request(&self) -> (r: BeginTransactionRequest)
        ensures
            r.database == self.database(),
            r.resource_arn == self.resource(),
            r.schema == self.schema(),
            r.secret_arn == self.secret(),
    {
        BeginTransactionRequest {
            database: self.database.clone(),
            resource_arn: self.resource_arn.clone(),
            schema: self.schema.clone(),
            secret_arn: self.secret_arn.clone(),
        }
    }

    /// The request that commits or rolls back the open transaction, or
    /// `TransactionStateError` where none is open.
    pub fn end_request(&self) -> (r: Result<EndTransactionRequest, RdsError>)
        ensures
            match self.token() {
                Some(t) => r matches Ok(q) && q.transaction_id == t && q.resource_arn == self.resource()
                    && q.secret_arn == self.secret(),
                None => r == Err::<EndTransactionRequest, RdsError>(RdsError::TransactionStateError),
            },
    {
        match &self.transaction_id {
            Some(t) => Ok(
                EndTransactionRequest {
                    resource_arn: self.resource_arn.clone(),
                    secret_arn: self.secret_arn.clone(),
                    transaction_id: t.clone(),
                },
            ),
            None => Err(RdsError::TransactionStateError),
        }
    }

    /// Records the service's answer to the request of `begin_request`: on a
    /// token the transaction is open at depth 1; a refusal is reported as
    /// `AlreadyInTransaction` and changes nothing.
    pub fn begin_transaction(&mut self, response: Result<String, RdsError>) -> (r: Result<(), RdsError>)
        requires
            old(self).wf(),
            old(self).depth() == 0,
        ensures
            final(self).wf(),
            final(self).resource() == old(self).resource(),
            final(self).secret() == old(self).secret(),
            final(self).database() == old(self).database(),
            final(self).schema() == old(self).schema(),
            match response {
                Ok(t) => r is Ok && final(self).depth() == 1 && final(self).token() == Some(t),
                Err(_) => r == Err::<(), RdsError>(RdsError::AlreadyInTransaction)
                    && final(self).depth() == 0 && final(self).token() is None,
            },
    {
        match response {
            Ok(t) => {
                let _ = self.transaction_manager.change_transaction_depth(TransactionOp::Begin, Ok(()));
                self.transaction_id = Some(t);
                Ok(())
            },
            Err(_) => Err(RdsError::AlreadyInTransaction),
        }
    }

    /// Ends the open transaction once the service answered a commit or a
    /// rollback of it: on success the token is dropped and the depth is 0; a
    /// failure is handed back as it came and changes nothing. Without
    /// an open transaction it reports `TransactionStateError`.
    fn end_transaction(&mut self, response: Result<(), RdsError>) -> (r: Result<(), RdsError>)
        requires
            old(self).wf(),
        ensures
            final(self).wf(),
            final(self).resource() == old(self).resource(),
            final(self).secret() == old(self).secret(),
            final(self).database() == old(self).database(),
            final(self).schema() == old(self).schema(),
            old(self).token() is None ==> r == Err::<(), RdsError>(RdsError::TransactionStateError)
                && final(self).depth() == old(self).depth() && final(self).token() == old(self).token(),
            old(self).token() is Some ==> match response {
                Ok(_) => r is Ok && final(self).depth() == 0 && final(self).token() is None,
                Err(e) => r == Err::<(), RdsError>(e) && final(self).depth() == old(self).depth()
                    && final(self).token() == old(self).token(),
            },
    {
        if self.transaction_id.is_none() {
            return Err(RdsError::TransactionStateError);
        }
        match response {
            Ok(_) => {
                self.transaction_manager = RdsTransactionManager::new();
                self.transaction_id = None;
                Ok(())
            },
            Err(e) => Err(e),
        }
    }

    /// Records the service's answer to a rollback of the open transaction, as
    /// `end_transaction` says.
    pub fn rollback_transaction(&mut self, response: Result<(), RdsError>) -> (r: Result<(), RdsError>)
        requires
            old(self).wf(),
        ensures
            final(self).wf(),
            final(self).resource() == old(self).resource(),
            final(self).secret() == old(self).secret(),
            final(self).database() == old(self).database(),
            final(self).schema() == old(self).schema(),
            old(self).token() is None ==> r == Err::<(), RdsError>(RdsError::TransactionStateError)
                && final(self).depth() == old(self).depth() && final(self).token() == old(self).token(),
            old(self).token() is Some ==> match response {
                Ok(_) => r is Ok && final(self).depth() == 0 && final(self).token() is None,
                Err(e) => r == Err::<(), RdsError>(e) && final(self).depth() == old(self).depth()
                    && final(self).token() == old(self).token(),
            },
    {
        self.end_transaction(response)
    }

    /// Records the service's answer to a commit of the open transaction, as
    /// `end_transaction` says.
    pub fn commit_transaction(&mut self, response: Result<(), RdsError>) -> (r: Result<(), RdsError>)
        requires
            old(self).wf(),
        ensures
            final(self).wf(),
            final(self).resource() == old(self).resource(),
            final(self).secret() == old(self).secret(),
            final(self).database() == old(self).database(),
            final(self).schema() == old(self).schema(),
            old(self).token() is None ==> r == Err::<(), RdsError>(RdsError::TransactionStateError)
                && final(self).depth() == old(self).depth() && final(self).token() == old(self).token(),
            old(self).token() is Some ==> match response {
                Ok(_) => r is Ok && final(self).depth() == 0 && final(self).token() is None,
                Err(e) => r == Err::<(), RdsError>(e) && final(self).depth() == old(self).depth()
                    && final(self).token() == old(self).token(),
            },
    {
        self.end_transaction(response)
    }

    /// Records how the savepoint statement of `op` went: on success the depth
    /// moves on as `depth_after` says, on failure it stays; the outcome is
    /// handed back. The token stays as it is.
    pub fn savepoint_step_done(&mut self, op: TransactionOp, outcome: Result<(), RdsError>) -> (r:
        Result<(), RdsError>)
        requires
            old(self).wf(),
            step_for(op, old(self).depth()) matches Some(StepView::Statement(_)),
            op == TransactionOp::Begin ==> old(self).depth() < u32::MAX,
        ensures
            final(self).wf(),
            r == outcome,
            final(self).token() == old(self).token(),
            final(self).resource() == old(self).resource(),
            final(self).secret() == old(self).secret(),
            final(self).database() == old(self).database(),
            final(self).schema() == old(self).schema(),
            final(self).depth() == if outcome is Ok {
                depth_after(op, old(self).depth())
            } else {
                old(self).depth()
            },
    {
        self.transaction_manager.change_transaction_depth(op, outcome)
    }

    /// The request that runs the SQL text `sql` as it is, inside the open
    /// transaction if there is one.
    pub fn execute_request(&self, sql: &str) -> (r: ExecuteStatementRequest)
        ensures
            r.sql@ == sql@,
            r.parameters@.len() == 0,
            r.transaction_id == self.token(),
            r.database == self.database(),
            r.resource_arn == self.resource(),
            r.schema == self.schema(),
            r.secret_arn == self.secret(),
            r.include_result_metadata,
            r.continue_after_timeout,
    {
        ExecuteStatementRequest {
            sql: sql.to_owned(),
            parameters: Vec::new(),
            transaction_id: self.transaction_id.clone(),
            database: self.database.clone(),
            resource_arn: self.resource_arn.clone(),
            schema: self.schema.clone(),
            secret_arn: self.secret_arn.clone(),
            include_result_metadata: true,
            continue_after_timeout: true,
        }
    }

    /// The request that runs the statement of `pieces`: its SQL text with
    /// numbered placeholders and its bind values as parameters in the same
    /// order, inside the open transaction if there is one; `MalformedBind`
    /// where a bind value's bytes do not fit its type.
    pub fn prepare_query(&self, pieces: &Vec<QueryPiece>) -> (r: Result<ExecuteStatementRequest, RdsError>)
        requires
            pieces@.len() < u32::MAX,
        ensures
            match render_parameters(pieces@) {
                Some(fs) => r matches Ok(q) && q.sql@ == render_sql(pieces@)
                    && q.parameters@.map_values(|f: Field| f@) == fs
                    && q.transaction_id == self.token() && q.database == self.database()
                    && q.resource_arn == self.resource() && q.schema == self.schema()
                    && q.secret_arn == self.secret() && q.include_result_metadata
                    && q.continue_after_timeout,
                None => r == Err::<ExecuteStatementRequest, RdsError>(RdsError::MalformedBind),
            },
    {
        let mut qb = RdsQueryBuilder::new();
        let mut params: Vec<Field> = Vec::new();
        let mut k: usize = 0;
        while k < pieces.len()
            invariant
                k <= pieces@.len(),
                pieces@.len() < u32::MAX,
                qb.text() == render_sql(pieces@.subrange(0, k as int)),
                qb.bind_count() == bind_count(pieces@.subrange(0, k as int)),
                render_parameters(pieces@.subrange(0, k as int)) matches Some(fs) && params@.map_values(
                    |f: Field| f@,
                ) == fs,
            decreases pieces@.len() - k,
        {
            let ghost pre = pieces@.subrange(0, k as int);
            let ghost next = pieces@.subrange(0, k + 1);
            proof {
                assert(next.drop_last() == pre);
                assert(next.last() == pieces@[k as int]);
                lemma_bind_count_bound(pre);
            }
            match &pieces[k] {
                QueryPiece::Sql(s) => {
                    qb.push_sql(s.as_str());
                },
                QueryPiece::Identifier(s) => {
                    let _ = qb.push_identifier(s.as_str());
                },
                QueryPiece::Bind(t, b) => {
                    let bytes = match b {
                        Some(v) => v.clone(),
                        None => Vec::new(),
                    };
                    match t.read_bytes(bytes) {
                        Ok(f) => {
                            qb.push_bind_param();
                            let ghost before = params@;
                            params.push(f);
                            proof {
                                assert(params@.map_values(|f: Field| f@) =~= before.map_values(
                                    |f: Field| f@,
                                ).push(f@));
                            }
                        },
                        Err(e) => {
                            proof {
                                lemma_malformed_persists(pieces@, k + 1);
                            }
                            return Err(e);
                        },
                    }
                },
            }
            k = k + 1;
        }
        proof {
            assert(pieces@.subrange(0, k as int) == pieces@);
        }
        let sql = qb.finish();
        Ok(
            ExecuteStatementRequest {
                sql,
                parameters: params,
                transaction_id: self.transaction_id.clone(),
                database: self.database.clone(),
                resource_arn: self.resource_arn.clone(),
                schema: self.schema.clone(),
                secret_arn: self.secret_arn.clone(),
                include_result_metadata: true,
                continue_after_timeout: true,
            },
        )
    }
}

} // verus!
