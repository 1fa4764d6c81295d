//! The life cycle of a connector: unconnected, connecting, identified, ready. Each event of
//! the outside world moves the connector to its next state and tells the caller what to do
//! next. A failure is final.

use crate::sql_migration_connector::{
    connector_error_of, descriptor_fits, probe_statement, validate_database_str, ConnectionInfo,
    ConnectionInfoView, ConnectorError, ConnectorErrorView, ErrorKind, ErrorKindView, SqlError,
    SqlErrorView, SqlFamily, CONNECTION_TIMEOUT_SECONDS,
};
use vstd::prelude::*;
use vstd::string::StringExecFns;

verus! {

#[derive(Clone, Debug, PartialEq, Eq)]
pub enum ConnectorState {
    /// Nothing was asked for yet.
    Unconnected,
    /// The connection is being opened and probed.
    Connecting,
    /// The connection answered; the facts about the database are being loaded.
    Identified { connection: ConnectionInfo },
    /// The connector serves requests.
    Ready { family: SqlFamily, schema_name: String },
    /// The connector could not be brought up.
    Failed { error: ConnectorError },
}

pub enum ConnectorStateView {
    Unconnected,
    Connecting,
    Identified { connection: ConnectionInfoView },
    Ready { family: SqlFamily, schema_name: Seq<char> },
    Failed { error: ConnectorErrorView },
}

impl DeepView for ConnectorState {
    type V = ConnectorStateView;

    open spec fn deep_view(&self) -> ConnectorStateView {
        match self {
            ConnectorState::Unconnected => ConnectorStateView::Unconnected,
            ConnectorState::Connecting => ConnectorStateView::Connecting,
            ConnectorState::Identified { connection } => ConnectorStateView::Identified {
                connection: connection.deep_view(),
            },
            ConnectorState::Ready { family, schema_name } => ConnectorStateView::Ready {
                family: *family,
                schema_name: schema_name@,
            },
            ConnectorState::Failed { error } => ConnectorStateView::Failed {
                error: error.deep_view(),
            },
        }
    }
}

#[derive(Clone, Debug, PartialEq, Eq)]
pub enum ConnectorEvent {
    /// A connector was asked for.
    Requested { database_str: String, provider: String },
    /// The driver could not read the connection descriptor.
    DescriptorRejected,
    /// The connection was opened and answered the probe.
    Connected { connection: ConnectionInfo },
    /// The connection did not answer within the timeout.
    TimedOut,
    /// The driver reported an error.
    DriverFailed { error: SqlError, connection: ConnectionInfo },
    /// The facts about the database were loaded.
    Described,
}

pub enum ConnectorEventView {
    Requested { database_str: Seq<char>, provider: Seq<char> },
    DescriptorRejected,
    Connected { connection: ConnectionInfoView },
    TimedOut,
    DriverFailed { error: SqlErrorView, connection: ConnectionInfoView },
    Described,
}

impl DeepView for ConnectorEvent {
    type V = ConnectorEventView;

    open spec fn deep_view(&self) -> ConnectorEventView {
        match self {
            ConnectorEvent::Requested { database_str, provider } => ConnectorEventView::Requested {
                database_str: database_str@,
                provider: provider@,
            },
            ConnectorEvent::DescriptorRejected => ConnectorEventView::DescriptorRejected,
            ConnectorEvent::Connected { connection } => ConnectorEventView::Connected {
                connection: connection.deep_view(),
            },
            ConnectorEvent::TimedOut => ConnectorEventView::TimedOut,
            ConnectorEvent::DriverFailed { error, connection } => ConnectorEventView::DriverFailed {
                error: error.deep_view(),
                connection: connection.deep_view(),
            },
            ConnectorEvent::Described => ConnectorEventView::Described,
        }
    }
}

#[derive(Clone, Debug, PartialEq, Eq)]
pub enum ConnectorAction {
    /// Open the connection and run the probe, both within the timeout.
    Connect { probe: String, timeout_seconds: u64 },
    /// Load the facts about the database.
    Describe,
    /// Hand out the components of the connector.
    Serve,
    /// Report the error that the new state holds.
    Report,
    /// The event does not concern the connector in its state.
    Ignore,
}

pub enum ConnectorActionView {
    Connect { probe: Seq<char>, timeout_seconds: u64 },
    Describe,
    Serve,
    Report,
    Ignore,
}

impl DeepView for ConnectorAction {
    type V = ConnectorActionView;

    open spec fn deep_view(&self) -> ConnectorActionView {
        match self {
            ConnectorAction::Connect { probe, timeout_seconds } => ConnectorActionView::Connect {
                probe: probe@,
                timeout_seconds: *timeout_seconds,
            },
            ConnectorAction::Describe => ConnectorActionView::Describe,
            ConnectorAction::Serve => ConnectorActionView::Serve,
            ConnectorAction::Report => ConnectorActionView::Report,
            ConnectorAction::Ignore => ConnectorActionView::Ignore,
        }
    }
}

pub open spec fn failed_with(kind: ErrorKindView) -> (ConnectorStateView, ConnectorActionView) {
    (
        ConnectorStateView::Failed {
            error: ConnectorErrorView { kind, user_facing_error: None },
        },
        ConnectorActionView::Report,
    )
}

/// The state that follows `state` on `event`, and what the caller has to do then.
pub open spec fn transition(state: ConnectorStateView, event: ConnectorEventView) -> (
    ConnectorStateView,
    ConnectorActionView,
) {
    match (state, event) {
        (
            ConnectorStateView::Unconnected,
            ConnectorEventView::Requested { database_str, provider },
        ) => if descriptor_fits(database_str, provider) {
            (
                ConnectorStateView::Connecting,
                ConnectorActionView::Connect {
                    probe: probe_statement(),
                    timeout_seconds: CONNECTION_TIMEOUT_SECONDS,
                },
            )
        } else {
            failed_with(ErrorKindView::InvalidDatabaseUrl)
        },
        (ConnectorStateView::Connecting, ConnectorEventView::DescriptorRejected) => failed_with(
            ErrorKindView::InvalidDatabaseUrl,
        ),
        (ConnectorStateView::Connecting, ConnectorEventView::TimedOut) => failed_with(
            ErrorKindView::ConnectTimeout,
        ),
        (ConnectorStateView::Connecting, ConnectorEventView::Connected { connection }) => (
            ConnectorStateView::Identified { connection },
            ConnectorActionView::Describe,
        ),
        (
            ConnectorStateView::Connecting,
            ConnectorEventView::DriverFailed { error, connection },
        ) => (
            ConnectorStateView::Failed { error: connector_error_of(error, connection) },
            ConnectorActionView::Report,
        ),
        (
            ConnectorStateView::Identified { .. },
            ConnectorEventView::DriverFailed { error, connection },
        ) => (
            ConnectorStateView::Failed { error: connector_error_of(error, connection) },
            ConnectorActionView::Report,
        ),
        (ConnectorStateView::Identified { connection }, ConnectorEventView::Described) => (
            ConnectorStateView::Ready {
                family: connection.family(),
                schema_name: connection.schema_name(),
            },
            ConnectorActionView::Serve,
        ),
        _ => (state, ConnectorActionView::Ignore),
    }
}

/// Moves the connector on by one event.
pub fn step(state: ConnectorState, event: ConnectorEvent) -> (next: (
    ConnectorState,
    ConnectorAction,
))
    ensures
        (next.0.deep_view(), next.1.deep_view()) == transition(
            state.deep_view(),
            event.deep_view(),
        ),
{
    match (state, event) {
        (ConnectorState::Unconnected, ConnectorEvent::Requested { database_str, provider }) => {
            match validate_database_str(database_str.as_str(), provider.as_str()) {
                Ok(()) => (
                    ConnectorState::Connecting,
                    ConnectorAction::Connect {
                        probe: String::from_str("SELECT 1"),
                        timeout_seconds: CONNECTION_TIMEOUT_SECONDS,
                    },
                ),
                Err(error) => (ConnectorState::Failed { error }, ConnectorAction::Report),
            }
        },
        (ConnectorState::Connecting, ConnectorEvent::DescriptorRejected) => (
            ConnectorState::Failed {
                error: ConnectorError {
                    kind: ErrorKind::InvalidDatabaseUrl,
                    user_facing_error: None,
                },
            },
            ConnectorAction::Report,
        ),
        (ConnectorState::Connecting, ConnectorEvent::TimedOut) => (
            ConnectorState::Failed {
                error: ConnectorError { kind: ErrorKind::ConnectTimeout, user_facing_error: None },
            },
            ConnectorAction::Report,
        ),
        (ConnectorState::Connecting, ConnectorEvent::Connected { connection }) => (
            ConnectorState::Identified { connection },
            ConnectorAction::Describe,
        ),
        (ConnectorState::Connecting, ConnectorEvent::DriverFailed { error, connection }) => (
            ConnectorState::Failed { error: error.into_connector_error(&connection) },
            ConnectorAction::Report,
        ),
        (ConnectorState::Identified { .. }, ConnectorEvent::DriverFailed { error, connection }) => (
            ConnectorState::Failed { error: error.into_connector_error(&connection) },
            ConnectorAction::Report,
        ),
        (ConnectorState::Identified { connection }, ConnectorEvent::Described) => {
            let family = connection.sql_family();
            let schema_name = String::from_str(connection.schema_name());
            (ConnectorState::Ready { family, schema_name }, ConnectorAction::Serve)
        },
        (state, _) => (state, ConnectorAction::Ignore),
    }
}

/// A connection is opened only for a descriptor that fits the declared provider, and a
/// connector gets ready only once its database was identified.
pub proof fn lemma_transition_guards(state: ConnectorStateView, event: ConnectorEventView)
    ensures
        transition(state, event).1 is Connect ==> state is Unconnected && (
        event matches ConnectorEventView::Requested { database_str, provider } && descriptor_fits(
            database_str,
            provider,
        )),
        transition(state, event).0 is Ready ==> state is Identified || state is Ready,
        state is Failed ==> transition(state, event) == (state, ConnectorActionView::Ignore),
        state is Ready ==> transition(state, event) == (state, ConnectorActionView::Ignore),
{
}

} // verus!
