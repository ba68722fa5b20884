//! Nesting of transactions: the outermost level is the service's transaction
//! token, the inner levels are savepoints inside it.

use vstd::prelude::*;
use vstd::string::*;

use crate::error::RdsError;
use crate::query_builder::{append_decimal, decimal, lemma_decimal_injective};

verus! {

/// What the caller asks of the transaction nesting.
#[derive(Debug, Clone, Copy, PartialEq, Eq, Structural)]
pub enum TransactionOp {
    Begin,
    Commit,
    Rollback,
}

/// The work that carries out one transaction operation.
#[derive(Debug, Clone, PartialEq, Eq)]
pub enum TransactionStep {
    /// Ask the service for a transaction token.
    RemoteBegin,
    /// Commit the service's transaction.
    RemoteCommit,
    /// Roll the service's transaction back.
    RemoteRollback,
    /// Run this SQL statement inside the open transaction.
    Statement(String),
}

/// A step with its statement as a sequence.
pub enum StepView {
    RemoteBegin,
    RemoteCommit,
    RemoteRollback,
    Statement(Seq<char>),
}

impl View for TransactionStep {
    type V = StepView;

    open spec fn view(&self) -> StepView {
        match self {
            TransactionStep::RemoteBegin => StepView::RemoteBegin,
            TransactionStep::RemoteCommit => StepView::RemoteCommit,
            TransactionStep::RemoteRollback => StepView::RemoteRollback,
            TransactionStep::Statement(s) => StepView::Statement(s@),
        }
    }
}

/// The name of the savepoint that marks nesting level `level`.
pub open spec fn savepoint_name(level: nat) -> Seq<char> {
    "diesel_savepoint_"@ + decimal(level)
}

/// The statement that opens the savepoint of level `level`.
pub open spec fn create_savepoint_sql(level: nat) -> Seq<char> {
    "SAVEPOINT "@ + savepoint_name(level)
}

/// The statement that undoes everything after the savepoint of level `level`.
pub open spec fn rollback_savepoint_sql(level: nat) -> Seq<char> {
    "ROLLBACK TO SAVEPOINT "@ + savepoint_name(level)
}

/// The statement that keeps the work after the savepoint of level `level`.
pub open spec fn release_savepoint_sql(level: nat) -> Seq<char> {
    "RELEASE SAVEPOINT "@ + savepoint_name(level)
}

/// The step that carries out `op` at depth `d`; `None` where no transaction
/// is open to commit or roll back.
pub open spec fn step_for(op: TransactionOp, d: nat) -> Option<StepView> {
    match op {
        TransactionOp::Begin => if d == 0 {
            Some(StepView::RemoteBegin)
        } else {
            Some(StepView::Statement(create_savepoint_sql(d)))
        },
        TransactionOp::Rollback => if d == 0 {
            None
        } else if d == 1 {
            Some(StepView::RemoteRollback)
        } else {
            Some(StepView::Statement(rollback_savepoint_sql((d - 1) as nat)))
        },
        TransactionOp::Commit => if d == 0 {
            None
        } else if d == 1 {
            Some(StepView::RemoteCommit)
        } else {
            Some(StepView::Statement(release_savepoint_sql((d - 1) as nat)))
        },
    }
}

/// The depth after `op` succeeded at depth `d`.
pub open spec fn depth_after(op: TransactionOp, d: nat) -> nat {
    match op {
        TransactionOp::Begin => d + 1,
        TransactionOp::Rollback => (d - 1) as nat,
        TransactionOp::Commit => if d <= 1 {
            0
        } else {
            (d - 1) as nat
        },
    }
}

/// The SQL text `prefix` followed by the decimal spelling of `level`.
fn numbered_statement(prefix: &str, level: u32) -> (r: String)
    ensures
        r@ == prefix@ + decimal(level as nat),
{
    let mut s = String::from_str(prefix);
    append_decimal(&mut s, level);
    s
}

/// Tracks how deeply transactions are nested on one connection.
#[derive(Debug, Default)]
pub struct RdsTransactionManager {
    transaction_depth: u32,
}

impl RdsTransactionManager {
    /// The nesting depth: 0 where no transaction is open.
    pub closed spec fn depth(&self) -> nat {
        self.transaction_depth as nat
    }

    /// A manager with no open transaction.
    pub fn new() -> (r: Self)
        ensures
            r.depth() == 0,
    {
        RdsTransactionManager { transaction_depth: 0 }
    }

    /// The nesting depth.
    pub fn get_transaction_depth(&self) -> (r: u32)
        ensures
            r as nat == self.depth(),
    {
        self.transaction_depth
    }

    /// The step that carries out `op` now, or `TransactionStateError` where
    /// `op` commits or rolls back and no transaction is open.
    pub fn step(&self, op: TransactionOp) -> (r: Result<TransactionStep, RdsError>)
        ensures
            match step_for(op, self.depth()) {
                Some(v) => r matches Ok(s) && s@ == v,
                None => r == Err::<TransactionStep, RdsError>(RdsError::TransactionStateError),
            },
    {
        proof {
            reveal_strlit("SAVEPOINT diesel_savepoint_");
            reveal_strlit("ROLLBACK TO SAVEPOINT diesel_savepoint_");
            reveal_strlit("RELEASE SAVEPOINT diesel_savepoint_");
            reveal_strlit("SAVEPOINT ");
            reveal_strlit("ROLLBACK TO SAVEPOINT ");
            reveal_strlit("RELEASE SAVEPOINT ");
            reveal_strlit("diesel_savepoint_");
        }
        let d = self.transaction_depth;
        match op {
            TransactionOp::Begin => {
                if d == 0 {
                    Ok(TransactionStep::RemoteBegin)
                } else {
                    let s = numbered_statement("SAVEPOINT diesel_savepoint_", d);
                    proof {
                        assert(s@ == create_savepoint_sql(d as nat));
                    }
                    Ok(TransactionStep::Statement(s))
                }
            },
            TransactionOp::Rollback => {
                if d == 0 {
                    Err(RdsError::TransactionStateError)
                } else if d == 1 {
                    Ok(TransactionStep::RemoteRollback)
                } else {
                    let s = numbered_statement("ROLLBACK TO SAVEPOINT diesel_savepoint_", d - 1);
                    proof {
                        assert(s@ == rollback_savepoint_sql((d - 1) as nat));
                    }
                    Ok(TransactionStep::Statement(s))
                }
            },
            TransactionOp::Commit => {
                if d == 0 {
                    Err(RdsError::TransactionStateError)
                } else if d == 1 {
                    Ok(TransactionStep::RemoteCommit)
                } else {
                    let s = numbered_statement("RELEASE SAVEPOINT diesel_savepoint_", d - 1);
                    proof {
                        assert(s@ == release_savepoint_sql((d - 1) as nat));
                    }
                    Ok(TransactionStep::Statement(s))
                }
            },
        }
    }

    /// Records how the step of `op` went. On success the depth moves on as
    /// `depth_after` says; on failure it stays and the failure is handed back.
    pub fn change_transaction_depth(&mut self, op: TransactionOp, outcome: Result<(), RdsError>) -> (r:
        Result<(), RdsError>)
        requires
            step_for(op, old(self).depth()) is Some,
            op == TransactionOp::Begin ==> old(self).depth() < u32::MAX,
        ensures
            r == outcome,
            final(self).depth() == if outcome is Ok {
                depth_after(op, old(self).depth())
            } else {
                old(self).depth()
            },
    {
        if outcome.is_ok() {
            match op {
                TransactionOp::Begin => {
                    self.transaction_depth = self.transaction_depth + 1;
                },
                TransactionOp::Rollback => {
                    self.transaction_depth = self.transaction_depth - 1;
                },
                TransactionOp::Commit => {
                    if self.transaction_depth <= 1 {
                        self.transaction_depth = 0;
                    } else {
                        self.transaction_depth = self.transaction_depth - 1;
                    }
                },
            }
        }
        outcome
    }

    /// Records how the step of a begin went: one level deeper on success,
    /// unchanged on failure.
    pub fn begin_transaction(&mut self, outcome: Result<(), RdsError>) -> (r: Result<(), RdsError>)
        requires
            old(self).depth() < u32::MAX,
        ensures
            r == outcome,
            final(self).depth() == if outcome is Ok {
                old(self).depth() + 1
            } else {
                old(self).depth()
            },
    {
        self.change_transaction_depth(TransactionOp::Begin, outcome)
    }

    /// Records how the step of a rollback went: one level up on success,
    /// unchanged on failure; `TransactionStateError` where none is open.
    pub fn rollback_transaction(&mut self, outcome: Result<(), RdsError>) -> (r: Result<(), RdsError>)
        ensures
            old(self).depth() == 0 ==> r == Err::<(), RdsError>(RdsError::TransactionStateError)
                && final(self).depth() == 0,
            old(self).depth() > 0 ==> r == outcome && final(self).depth() == if outcome is Ok {
                (old(self).depth() - 1) as nat
            } else {
                old(self).depth()
            },
    {
        if self.transaction_depth == 0 {
            return Err(RdsError::TransactionStateError);
        }
        self.change_transaction_depth(TransactionOp::Rollback, outcome)
    }

    /// Records how the step of a commit went: on success the outermost level
    /// ends at depth 0 and an inner one goes one level up; unchanged on
    /// failure; `TransactionStateError` where none is open.
    pub fn commit_transaction(&mut self, outcome: Result<(), RdsError>) -> (r: Result<(), RdsError>)
        ensures
            old(self).depth() == 0 ==> r == Err::<(), RdsError>(RdsError::TransactionStateError)
                && final(self).depth() == 0,
            old(self).depth() > 0 ==> r == outcome && final(self).depth() == if outcome is Ok {
                (old(self).depth() - 1) as nat
            } else {
                old(self).depth()
            },
    {
        if self.transaction_depth == 0 {
            return Err(RdsError::TransactionStateError);
        }
        self.change_transaction_depth(TransactionOp::Commit, outcome)
    }
}

/// A savepoint that `begin` opens at depth `d` is the one that `rollback`
/// and `commit` at depth `d + 1` go back to or release.
pub proof fn lemma_savepoints_pair_up(d: nat)
    requires
        d >= 1,
    ensures
        step_for(TransactionOp::Begin, d) == Some(StepView::Statement(create_savepoint_sql(d))),
        step_for(TransactionOp::Rollback, d + 1) == Some(StepView::Statement(rollback_savepoint_sql(d))),
        step_for(TransactionOp::Commit, d + 1) == Some(StepView::Statement(release_savepoint_sql(d))),
        depth_after(TransactionOp::Rollback, depth_after(TransactionOp::Begin, d)) == d,
        depth_after(TransactionOp::Commit, depth_after(TransactionOp::Begin, d)) == d,
{
}

/// The savepoints of different levels have different names, so those of the
/// levels open at one time never collide.
pub proof fn lemma_savepoint_names_distinct(a: nat, b: nat)
    requires
        a != b,
    ensures
        savepoint_name(a) != savepoint_name(b),
{
    if savepoint_name(a) == savepoint_name(b) {
        let p = "diesel_savepoint_"@;
        assert(savepoint_name(a).subrange(p.len() as int, savepoint_name(a).len() as int) == decimal(a));
        assert(savepoint_name(b).subrange(p.len() as int, savepoint_name(b).len() as int) == decimal(b));
        lemma_decimal_injective(a, b);
    }
}

/// Only the outermost level talks to the service: a begin at depth 0, and a
/// commit or rollback at depth 1, are remote; every other step is a statement.
pub proof fn lemma_remote_only_at_outermost(op: TransactionOp, d: nat)
    requires
        step_for(op, d) is Some,
    ensures
        (step_for(op, d) matches Some(StepView::Statement(_))) <==> (if op == TransactionOp::Begin {
            d != 0
        } else {
            d != 1
        }),
{
}

} // verus!
