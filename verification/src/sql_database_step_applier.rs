//! The plan of applying a migration: which statement is run next, and what is done when one
//! fails. Where the engine can take structural changes back, the whole migration runs in
//! one transaction and a failure leaves the database as it was. Where it cannot, what ran
//! before a failure stays applied, and the failure says how much that is.

use crate::sql_migration_connector::SqlFamily;
use vstd::prelude::*;
use vstd::string::StringExecFns;

verus! {

/// Whether the engines of the family can take structural changes back. MySQL cannot.
pub open spec fn has_transactional_ddl(family: SqlFamily) -> bool {
    family != SqlFamily::Mysql
}

/// A failed statement, the error of the database, and the number of statements of the
/// migration that stay applied.
#[derive(Clone, Debug, PartialEq, Eq)]
pub struct ApplyFailure {
    pub statement: String,
    pub error: String,
    pub applied: usize,
}

pub struct ApplyFailureView {
    pub statement: Seq<char>,
    pub error: Seq<char>,
    pub applied: nat,
}

impl DeepView for ApplyFailure {
    type V = ApplyFailureView;

    open spec fn deep_view(&self) -> ApplyFailureView {
        ApplyFailureView {
            statement: self.statement@,
            error: self.error@,
            applied: self.applied as nat,
        }
    }
}

#[derive(Clone, Debug, PartialEq, Eq)]
pub enum ApplyState {
    /// The transaction is being opened.
    Beginning,
    /// The statement at `position` is running.
    Running { position: usize },
    /// The transaction is being committed.
    Committing,
    /// The transaction is being taken back after a failure.
    RollingBack { failure: ApplyFailure },
    /// Every statement is applied.
    Finished,
    Failed { failure: ApplyFailure },
}

pub enum ApplyStateView {
    Beginning,
    Running { position: nat },
    Committing,
    RollingBack { failure: ApplyFailureView },
    Finished,
    Failed { failure: ApplyFailureView },
}

impl DeepView for ApplyState {
    type V = ApplyStateView;

    open spec fn deep_view(&self) -> ApplyStateView {
        match self {
            ApplyState::Beginning => ApplyStateView::Beginning,
            ApplyState::Running { position } => ApplyStateView::Running {
                position: *position as nat,
            },
            ApplyState::Committing => ApplyStateView::Committing,
            ApplyState::RollingBack { failure } => ApplyStateView::RollingBack {
                failure: failure.deep_view(),
            },
            ApplyState::Finished => ApplyStateView::Finished,
            ApplyState::Failed { failure } => ApplyStateView::Failed {
                failure: failure.deep_view(),
            },
        }
    }
}

/// What the database answered to the last action.
#[derive(Clone, Debug, PartialEq, Eq)]
pub enum ApplyEvent {
    Succeeded,
    Failed { error: String },
}

pub enum ApplyEventView {
    Succeeded,
    Failed { error: Seq<char> },
}

impl DeepView for ApplyEvent {
    type V = ApplyEventView;

    open spec fn deep_view(&self) -> ApplyEventView {
        match self {
            ApplyEvent::Succeeded => ApplyEventView::Succeeded,
            ApplyEvent::Failed { error } => ApplyEventView::Failed { error: error@ },
        }
    }
}

#[derive(Clone, Debug, PartialEq, Eq)]
pub enum ApplyAction {
    /// Open a transaction.
    Begin,
    /// Run the statement.
    Execute { statement: String },
    /// Commit the transaction.
    Commit,
    /// Take the transaction back.
    RollBack,
    /// Nothing is left to do.
    Done,
    /// Report the failure that the new state holds.
    Report,
    /// The migration was over before.
    Ignore,
}

pub enum ApplyActionView {
    Begin,
    Execute { statement: Seq<char> },
    Commit,
    RollBack,
    Done,
    Report,
    Ignore,
}

impl DeepView for ApplyAction {
    type V = ApplyActionView;

    open spec fn deep_view(&self) -> ApplyActionView {
        match self {
            ApplyAction::Begin => ApplyActionView::Begin,
            ApplyAction::Execute { statement } => ApplyActionView::Execute {
                statement: statement@,
            },
            ApplyAction::Commit => ApplyActionView::Commit,
            ApplyAction::RollBack => ApplyActionView::RollBack,
            ApplyAction::Done => ApplyActionView::Done,
            ApplyAction::Report => ApplyActionView::Report,
            ApplyAction::Ignore => ApplyActionView::Ignore,
        }
    }
}

/// What follows when every statement before `position` is applied.
pub open spec fn continued(
    family: SqlFamily,
    statements: Seq<Seq<char>>,
    position: nat,
) -> (ApplyStateView, ApplyActionView) {
    if position < statements.len() {
        (
            ApplyStateView::Running { position },
            ApplyActionView::Execute { statement: statements[position as int] },
        )
    } else if has_transactional_ddl(family) {
        (ApplyStateView::Committing, ApplyActionView::Commit)
    } else {
        (ApplyStateView::Finished, ApplyActionView::Done)
    }
}

/// How applying starts: with a transaction where the engine has one for structural changes.
pub open spec fn started(family: SqlFamily, statements: Seq<Seq<char>>) -> (
    ApplyStateView,
    ApplyActionView,
) {
    if has_transactional_ddl(family) {
        (ApplyStateView::Beginning, ApplyActionView::Begin)
    } else {
        continued(family, statements, 0)
    }
}

pub open spec fn failed_on(statement: Seq<char>, error: Seq<char>, applied: nat) -> (
    ApplyStateView,
    ApplyActionView,
) {
    (
        ApplyStateView::Failed { failure: ApplyFailureView { statement, error, applied } },
        ApplyActionView::Report,
    )
}

/// The state that follows `state` on `event`, and what is done next.
pub open spec fn advanced(
    family: SqlFamily,
    statements: Seq<Seq<char>>,
    state: ApplyStateView,
    event: ApplyEventView,
) -> (ApplyStateView, ApplyActionView) {
    match (state, event) {
        (ApplyStateView::Beginning, ApplyEventView::Succeeded) => continued(family, statements, 0),
        (ApplyStateView::Beginning, ApplyEventView::Failed { error }) => failed_on(
            "BEGIN"@,
            error,
            0,
        ),
        (ApplyStateView::Running { position }, ApplyEventView::Succeeded) => if position
            < statements.len() {
            continued(family, statements, position + 1)
        } else {
            (state, ApplyActionView::Ignore)
        },
        (ApplyStateView::Running { position }, ApplyEventView::Failed { error }) => if position
            >= statements.len() {
            (state, ApplyActionView::Ignore)
        } else if has_transactional_ddl(family) {
            (
                ApplyStateView::RollingBack {
                    failure: ApplyFailureView {
                        statement: statements[position as int],
                        error,
                        applied: 0,
                    },
                },
                ApplyActionView::RollBack,
            )
        } else {
            failed_on(statements[position as int], error, position)
        },
        (ApplyStateView::Committing, ApplyEventView::Succeeded) => (
            ApplyStateView::Finished,
            ApplyActionView::Done,
        ),
        (ApplyStateView::Committing, ApplyEventView::Failed { error }) => failed_on(
            "COMMIT"@,
            error,
            0,
        ),
        (ApplyStateView::RollingBack { failure }, _) => (
            ApplyStateView::Failed { failure },
            ApplyActionView::Report,
        ),
        _ => (state, ApplyActionView::Ignore),
    }
}

/// Whether the engines of the family can take structural changes back.
pub fn supports_transactional_ddl(family: SqlFamily) -> (supported: bool)
    ensures
        supported == has_transactional_ddl(family),
{
    match family {
        SqlFamily::Mysql => false,
        _ => true,
    }
}

/// What follows when every statement before `position` is applied.
pub fn continue_at(family: SqlFamily, statements: &Vec<String>, position: usize) -> (next: (
    ApplyState,
    ApplyAction,
))
    ensures
        (next.0.deep_view(), next.1.deep_view()) == continued(
            family,
            statements.deep_view(),
            position as nat,
        ),
{
    if position < statements.len() {
        (
            ApplyState::Running { position },
            ApplyAction::Execute { statement: statements[position].clone() },
        )
    } else if supports_transactional_ddl(family) {
        (ApplyState::Committing, ApplyAction::Commit)
    } else {
        (ApplyState::Finished, ApplyAction::Done)
    }
}

/// Starts to apply the statements of a migration.
pub fn start(family: SqlFamily, statements: &Vec<String>) -> (next: (ApplyState, ApplyAction))
    ensures
        (next.0.deep_view(), next.1.deep_view()) == started(family, statements.deep_view()),
{
    if supports_transactional_ddl(family) {
        (ApplyState::Beginning, ApplyAction::Begin)
    } else {
        continue_at(family, statements, 0)
    }
}

/// Moves on by what the database answered.
pub fn advance(
    family: SqlFamily,
    statements: &Vec<String>,
    state: ApplyState,
    event: ApplyEvent,
) -> (next: (ApplyState, ApplyAction))
    ensures
        (next.0.deep_view(), next.1.deep_view()) == advanced(
            family,
            statements.deep_view(),
            state.deep_view(),
            event.deep_view(),
        ),
{
    match (state, event) {
        (ApplyState::Beginning, ApplyEvent::Succeeded) => continue_at(family, statements, 0),
        (ApplyState::Beginning, ApplyEvent::Failed { error }) => (
            ApplyState::Failed {
                failure: ApplyFailure { statement: String::from_str("BEGIN"), error, applied: 0 },
            },
            ApplyAction::Report,
        ),
        (ApplyState::Running { position }, ApplyEvent::Succeeded) => {
            if position < statements.len() {
                continue_at(family, statements, position + 1)
            } else {
                (ApplyState::Running { position }, ApplyAction::Ignore)
            }
        },
        (ApplyState::Running { position }, ApplyEvent::Failed { error }) => {
            if position >= statements.len() {
                (ApplyState::Running { position }, ApplyAction::Ignore)
            } else if supports_transactional_ddl(family) {
                (
                    ApplyState::RollingBack {
                        failure: ApplyFailure {
                            statement: statements[position].clone(),
                            error,
                            applied: 0,
                        },
                    },
                    ApplyAction::RollBack,
                )
            } else {
                (
                    ApplyState::Failed {
                        failure: ApplyFailure {
                            statement: statements[position].clone(),
                            error,
                            applied: position,
                        },
                    },
                    ApplyAction::Report,
                )
            }
        },
        (ApplyState::Committing, ApplyEvent::Succeeded) => (
            ApplyState::Finished,
            ApplyAction::Done,
        ),
        (ApplyState::Committing, ApplyEvent::Failed { error }) => (
            ApplyState::Failed {
                failure: ApplyFailure { statement: String::from_str("COMMIT"), error, applied: 0 },
            },
            ApplyAction::Report,
        ),
        (ApplyState::RollingBack { failure }, _) => (
            ApplyState::Failed { failure },
            ApplyAction::Report,
        ),
        (state, _) => (state, ApplyAction::Ignore),
    }
}

/// A failure of a statement names that statement and the error of the database. With
/// transactional structural changes nothing of the migration stays applied; without them,
/// the statements before the failed one do.
pub proof fn lemma_failure_is_told(
    family: SqlFamily,
    statements: Seq<Seq<char>>,
    position: nat,
    error: Seq<char>,
)
    requires
        position < statements.len(),
    ensures
        ({
            let failed = advanced(
                family,
                statements,
                ApplyStateView::Running { position },
                ApplyEventView::Failed { error },
            );
            let told = ApplyFailureView {
                statement: statements[position as int],
                error,
                applied: if has_transactional_ddl(family) {
                    0
                } else {
                    position
                },
            };
            if has_transactional_ddl(family) {
                failed == (
                    ApplyStateView::RollingBack { failure: told },
                    ApplyActionView::RollBack,
                ) && forall|event: ApplyEventView|
                    advanced(family, statements, failed.0, event) == (
                        ApplyStateView::Failed { failure: told },
                        ApplyActionView::Report,
                    )
            } else {
                failed == (ApplyStateView::Failed { failure: told }, ApplyActionView::Report)
            }
        }),
{
}

/// Statements run in order: after the statement at `position` the next one runs, and
/// nothing runs once the migration is over.
pub proof fn lemma_statements_run_in_order(
    family: SqlFamily,
    statements: Seq<Seq<char>>,
    position: nat,
)
    requires
        position + 1 < statements.len(),
    ensures
        advanced(
            family,
            statements,
            ApplyStateView::Running { position },
            ApplyEventView::Succeeded,
        ) == (
            ApplyStateView::Running { position: position + 1 },
            ApplyActionView::Execute { statement: statements[position as int + 1] },
        ),
        forall|event: ApplyEventView| #[trigger]
            advanced(family, statements, ApplyStateView::Finished, event) == (
                ApplyStateView::Finished,
                ApplyActionView::Ignore,
            ),
{
}

} // verus!
