use schema_migrate::sql_migration_connector::lifecycle::{
    step, ConnectorAction, ConnectorEvent, ConnectorState,
};
use schema_migrate::sql_migration_connector::{
    catch, create_database_statement, initialize_step, reset_step, scheme_part,
    validate_database_str, ConnectionInfo, ConnectorError, ErrorKind, InitializeStep, ResetStep,
    SqlError, SqlFamily,
    CONNECTION_TIMEOUT_SECONDS,
};

fn invalid_url() -> ConnectorError {
    ConnectorError { kind: ErrorKind::InvalidDatabaseUrl, user_facing_error: None }
}

fn postgres_connection() -> ConnectionInfo {
    ConnectionInfo::Postgres { schema: "public".to_string(), location: "localhost:5432".to_string() }
}

#[test]
fn a_postgres_descriptor_does_not_fit_mysql() {
    assert_eq!(validate_database_str("postgres://user:pw@localhost:5432/db", "mysql"), Err(invalid_url()));

    let next = step(
        ConnectorState::Unconnected,
        ConnectorEvent::Requested {
            database_str: "postgres://user:pw@localhost:5432/db".to_string(),
            provider: "mysql".to_string(),
        },
    );
    assert_eq!(next, (ConnectorState::Failed { error: invalid_url() }, ConnectorAction::Report));
}

#[test]
fn each_family_takes_its_own_schemes() {
    assert_eq!(validate_database_str("mysql://root@localhost:3306/db", "mysql"), Ok(()));
    assert_eq!(validate_database_str("postgres://localhost/db", "postgres"), Ok(()));
    assert_eq!(validate_database_str("postgresql://localhost/db", "postgres"), Ok(()));
    assert_eq!(validate_database_str("postgres://localhost/db", "postgresql"), Ok(()));
    assert_eq!(validate_database_str("postgresql://localhost/db", "postgresql"), Ok(()));
    assert_eq!(validate_database_str("file:dev.db", "sqlite"), Ok(()));
    assert_eq!(validate_database_str("sqlite:dev.db", "sqlite"), Ok(()));

    assert_eq!(validate_database_str("mysql://localhost/db", "postgres"), Err(invalid_url()));
    assert_eq!(validate_database_str("file:dev.db", "mysql"), Err(invalid_url()));
    assert_eq!(validate_database_str("mysql://localhost/db", "sqlite"), Err(invalid_url()));
    assert_eq!(validate_database_str("postgre://localhost/db", "postgres"), Err(invalid_url()));
    assert_eq!(validate_database_str("MYSQL://localhost/db", "mysql"), Err(invalid_url()));
    assert_eq!(validate_database_str("mysql://localhost/db", "oracle"), Err(invalid_url()));
    assert_eq!(validate_database_str("", "mysql"), Err(invalid_url()));
}

#[test]
fn the_scheme_ends_at_the_first_colon() {
    assert_eq!(scheme_part("postgres://a:b@c"), "postgres");
    assert_eq!(scheme_part("file:dev.db"), "file");
    assert_eq!(scheme_part("no-colon"), "no-colon");
    assert_eq!(scheme_part(":x"), "");
    assert_eq!(scheme_part(""), "");
    assert_eq!(scheme_part("d\u{e9}j\u{e0}:vu"), "d\u{e9}j\u{e0}");
}

#[test]
fn a_database_is_created_by_one_statement() {
    assert_eq!(
        create_database_statement(SqlFamily::Postgres, "shop"),
        Some("CREATE DATABASE \"shop\"".to_string())
    );
    assert_eq!(create_database_statement(SqlFamily::Mysql, "shop"), Some("CREATE DATABASE `shop`".to_string()));
    assert_eq!(create_database_statement(SqlFamily::Sqlite, "shop"), None);
}

#[test]
fn initializing_creates_the_schema_only_if_absent() {
    assert_eq!(
        initialize_step(&postgres_connection(), "public"),
        InitializeStep::Execute { statement: "CREATE SCHEMA IF NOT EXISTS \"public\";".to_string() }
    );
    assert_eq!(
        initialize_step(
            &ConnectionInfo::Mysql { database: "shop".to_string(), location: "localhost:3306".to_string() },
            "shop"
        ),
        InitializeStep::Execute {
            statement: "CREATE SCHEMA IF NOT EXISTS `shop` DEFAULT CHARACTER SET latin1;".to_string()
        }
    );
    let sqlite = ConnectionInfo::Sqlite { file_path: "/tmp/db/dev.db".to_string(), db_name: "dev".to_string() };
    assert_eq!(
        initialize_step(&sqlite, "dev"),
        InitializeStep::CreateParentDirectory { file_path: "/tmp/db/dev.db".to_string() }
    );
    assert_eq!(initialize_step(&sqlite, "dev"), initialize_step(&sqlite, "dev"));
}

#[test]
fn a_connection_knows_its_family_and_schema() {
    let sqlite = ConnectionInfo::Sqlite { file_path: "dev.db".to_string(), db_name: "dev".to_string() };
    let mysql = ConnectionInfo::Mysql { database: "shop".to_string(), location: "db:3306".to_string() };
    assert_eq!(postgres_connection().connector_type(), "postgresql");
    assert_eq!(mysql.connector_type(), "mysql");
    assert_eq!(sqlite.connector_type(), "sqlite");
    assert_eq!(postgres_connection().sql_family(), SqlFamily::Postgres);
    assert_eq!(postgres_connection().schema_name(), "public");
    assert_eq!(mysql.schema_name(), "shop");
    assert_eq!(sqlite.schema_name(), "dev");
    assert_eq!(sqlite.database_location(), "dev.db");
    assert_eq!(mysql.database_location(), "db:3306");
}

#[test]
fn driver_errors_are_wrapped() {
    let connection = postgres_connection();
    assert_eq!(catch(&connection, Ok::<u8, SqlError>(7)), Ok(7));
    assert_eq!(
        catch::<u8>(&connection, Err(SqlError::ConnectTimeout)),
        Err(ConnectorError { kind: ErrorKind::ConnectTimeout, user_facing_error: None })
    );
    assert_eq!(
        catch::<u8>(&connection, Err(SqlError::ConnectionError { cause: "refused".to_string() })),
        Err(ConnectorError {
            kind: ErrorKind::ConnectionError {
                location: "localhost:5432".to_string(),
                cause: "refused".to_string()
            },
            user_facing_error: None,
        })
    );
    assert_eq!(
        catch::<u8>(
            &connection,
            Err(SqlError::QueryError { statement: Some("SELECT 1".to_string()), cause: "syntax".to_string() })
        ),
        Err(ConnectorError {
            kind: ErrorKind::QueryError {
                statement: Some("SELECT 1".to_string()),
                cause: "syntax".to_string()
            },
            user_facing_error: None,
        })
    );
}

#[test]
fn a_connector_gets_ready_in_three_steps() {
    let (state, action) = step(
        ConnectorState::Unconnected,
        ConnectorEvent::Requested {
            database_str: "postgresql://localhost:5432/db".to_string(),
            provider: "postgres".to_string(),
        },
    );
    assert_eq!(state, ConnectorState::Connecting);
    assert_eq!(action, ConnectorAction::Connect { probe: "SELECT 1".to_string(), timeout_seconds: 10 });
    assert_eq!(CONNECTION_TIMEOUT_SECONDS, 10);

    let (state, action) = step(state, ConnectorEvent::Connected { connection: postgres_connection() });
    assert_eq!(state, ConnectorState::Identified { connection: postgres_connection() });
    assert_eq!(action, ConnectorAction::Describe);

    let (state, action) = step(state, ConnectorEvent::Described);
    let ready = ConnectorState::Ready { family: SqlFamily::Postgres, schema_name: "public".to_string() };
    assert_eq!(state, ready);
    assert_eq!(action, ConnectorAction::Serve);

    assert_eq!(step(state, ConnectorEvent::TimedOut), (ready, ConnectorAction::Ignore));
}

#[test]
fn a_timeout_is_told_apart_from_other_failures() {
    assert_eq!(
        step(ConnectorState::Connecting, ConnectorEvent::TimedOut),
        (
            ConnectorState::Failed {
                error: ConnectorError { kind: ErrorKind::ConnectTimeout, user_facing_error: None }
            },
            ConnectorAction::Report
        )
    );
    assert_eq!(
        step(
            ConnectorState::Connecting,
            ConnectorEvent::DriverFailed {
                error: SqlError::ConnectionError { cause: "no route".to_string() },
                connection: postgres_connection()
            }
        ),
        (
            ConnectorState::Failed {
                error: ConnectorError {
                    kind: ErrorKind::ConnectionError {
                        location: "localhost:5432".to_string(),
                        cause: "no route".to_string()
                    },
                    user_facing_error: None
                }
            },
            ConnectorAction::Report
        )
    );
    assert_eq!(
        step(ConnectorState::Connecting, ConnectorEvent::DescriptorRejected),
        (ConnectorState::Failed { error: invalid_url() }, ConnectorAction::Report)
    );
}

#[test]
fn events_out_of_turn_are_ignored() {
    assert_eq!(
        step(ConnectorState::Unconnected, ConnectorEvent::Described),
        (ConnectorState::Unconnected, ConnectorAction::Ignore)
    );
    assert_eq!(
        step(ConnectorState::Unconnected, ConnectorEvent::Connected { connection: postgres_connection() }),
        (ConnectorState::Unconnected, ConnectorAction::Ignore)
    );
    let failed = ConnectorState::Failed { error: invalid_url() };
    assert_eq!(
        step(
            failed.clone(),
            ConnectorEvent::Requested { database_str: "mysql://x".to_string(), provider: "mysql".to_string() }
        ),
        (failed, ConnectorAction::Ignore)
    );
    assert_eq!(
        step(
            ConnectorState::Identified { connection: postgres_connection() },
            ConnectorEvent::DriverFailed { error: SqlError::ConnectTimeout, connection: postgres_connection() }
        ),
        (
            ConnectorState::Failed {
                error: ConnectorError { kind: ErrorKind::ConnectTimeout, user_facing_error: None }
            },
            ConnectorAction::Report
        )
    );
}

#[test]
fn resetting_drops_the_working_schema() {
    assert_eq!(
        reset_step(&postgres_connection(), "public"),
        ResetStep::Execute { statement: "DROP SCHEMA IF EXISTS \"public\" CASCADE;".to_string() }
    );
    assert_eq!(
        reset_step(
            &ConnectionInfo::Mysql { database: "shop".to_string(), location: "localhost:3306".to_string() },
            "shop"
        ),
        ResetStep::Execute { statement: "DROP DATABASE IF EXISTS `shop`;".to_string() }
    );
    assert_eq!(
        reset_step(
            &ConnectionInfo::Sqlite { file_path: "/tmp/db/dev.db".to_string(), db_name: "dev".to_string() },
            "dev"
        ),
        ResetStep::DeleteFile { file_path: "/tmp/db/dev.db".to_string() }
    );
}
