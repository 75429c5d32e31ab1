use vstd::prelude::*;
use crate::requests::SignupError;

verus! {

/// One statement of the bootstrap transaction against a database.
#[derive(Debug, Clone, Copy, PartialEq, Eq, Structural)]
pub enum TxStep {
    /// Open the transaction.
    Begin,
    /// Mark the invite used where it is unused; yields its row or none.
    Redeem,
    /// Insert the user; yields the user's id.
    InsertUser,
    /// Insert the personal team; yields the team's id.
    InsertTeam,
    /// Insert the admin membership.
    AddMember,
    /// Insert the wrapped team key.
    GrantKey,
    /// Commit the transaction.
    Commit,
}

/// How the database answered a step.
#[derive(Debug, Clone, Copy, PartialEq, Eq, Structural)]
pub enum TxEvent {
    /// The statement succeeded (for `Redeem`: a row was updated).
    Done,
    /// `Redeem` updated no row: the code is unknown or used.
    NoRow,
    /// The statement or the connection failed.
    Failed,
}

/// What the driver of the transaction does next.
#[derive(Debug, Clone, Copy, PartialEq, Eq, Structural)]
pub enum TxAction {
    /// Run this step.
    Run(TxStep),
    /// Roll back everything done so far and answer with this error.
    Rollback(SignupError),
    /// No transaction is open: answer with this error.
    Abort(SignupError),
    /// The account exists: answer "created".
    Created,
}

/// The step that follows `s` when it succeeds, if any.
pub open spec fn step_after(s: TxStep) -> Option<TxStep> {
    match s {
        TxStep::Begin => Some(TxStep::Redeem),
        TxStep::Redeem => Some(TxStep::InsertUser),
        TxStep::InsertUser => Some(TxStep::InsertTeam),
        TxStep::InsertTeam => Some(TxStep::AddMember),
        TxStep::AddMember => Some(TxStep::GrantKey),
        TxStep::GrantKey => Some(TxStep::Commit),
        TxStep::Commit => None,
    }
}

/// Decides what follows step `s` answered by `e`. A rejected invite is
/// `Forbidden`, every other failure `Internal`; a failure inside the open
/// transaction rolls it back, so nothing is kept unless the commit succeeds.
pub fn next_action(s: TxStep, e: TxEvent) -> (r: TxAction)
    ensures
        e == TxEvent::Done && s != TxStep::Commit ==> r == TxAction::Run(step_after(s)->Some_0),
        e == TxEvent::Done && s == TxStep::Commit ==> r == TxAction::Created,
        s == TxStep::Redeem && e == TxEvent::NoRow ==> r == TxAction::Rollback(SignupError::Forbidden),
        e != TxEvent::Done && !(s == TxStep::Redeem && e == TxEvent::NoRow) ==> r == (
        if s == TxStep::Begin || s == TxStep::Commit {
            TxAction::Abort(SignupError::Internal)
        } else {
            TxAction::Rollback(SignupError::Internal)
        }),
{
    match e {
        TxEvent::Done => match s {
            TxStep::Begin => TxAction::Run(TxStep::Redeem),
            TxStep::Redeem => TxAction::Run(TxStep::InsertUser),
            TxStep::InsertUser => TxAction::Run(TxStep::InsertTeam),
            TxStep::InsertTeam => TxAction::Run(TxStep::AddMember),
            TxStep::AddMember => TxAction::Run(TxStep::GrantKey),
            TxStep::GrantKey => TxAction::Run(TxStep::Commit),
            TxStep::Commit => TxAction::Created,
        },
        _ => match s {
            TxStep::Redeem => if e == TxEvent::NoRow {
                TxAction::Rollback(SignupError::Forbidden)
            } else {
                TxAction::Rollback(SignupError::Internal)
            },
            TxStep::Begin | TxStep::Commit => TxAction::Abort(SignupError::Internal),
            _ => TxAction::Rollback(SignupError::Internal),
        },
    }
}

} // verus!
