//! The decisions of the SQL migration connector: which connection descriptors a database
//! family accepts, which statements set a database up, how driver errors are reported, and
//! the life cycle from an unconnected connector to a ready one. Connecting and running the
//! statements is left to the caller.

pub mod lifecycle;

use vstd::prelude::*;
use vstd::string::{StrSliceExecFns, StringExecFns};

verus! {

/// The seconds that opening a connection and probing it may take together.
pub const CONNECTION_TIMEOUT_SECONDS: u64 = 10;

/// The statement that probes a fresh connection.
pub open spec fn probe_statement() -> Seq<char> {
    "SELECT 1"@
}

/// One of the supported families of SQL databases.
#[derive(Clone, Copy, Debug, PartialEq, Eq, Structural)]
pub enum SqlFamily {
    Postgres,
    Mysql,
    Sqlite,
}

impl SqlFamily {
    pub open spec fn name(self) -> Seq<char> {
        match self {
            SqlFamily::Postgres => "postgresql"@,
            SqlFamily::Mysql => "mysql"@,
            SqlFamily::Sqlite => "sqlite"@,
        }
    }

    /// The name of the family.
    pub fn as_str(self) -> (name: &'static str)
        ensures
            name@ == self.name(),
    {
        match self {
            SqlFamily::Postgres => "postgresql",
            SqlFamily::Mysql => "mysql",
            SqlFamily::Sqlite => "sqlite",
        }
    }
}

/// What is known of a connection once its descriptor has been read.
#[derive(Clone, Debug, PartialEq, Eq)]
pub enum ConnectionInfo {
    Postgres { schema: String, location: String },
    Mysql { database: String, location: String },
    Sqlite { file_path: String, db_name: String },
}

pub enum ConnectionInfoView {
    Postgres { schema: Seq<char>, location: Seq<char> },
    Mysql { database: Seq<char>, location: Seq<char> },
    Sqlite { file_path: Seq<char>, db_name: Seq<char> },
}

impl DeepView for ConnectionInfo {
    type V = ConnectionInfoView;

    open spec fn deep_view(&self) -> ConnectionInfoView {
        match self {
            ConnectionInfo::Postgres { schema, location } => ConnectionInfoView::Postgres {
                schema: schema@,
                location: location@,
            },
            ConnectionInfo::Mysql { database, location } => ConnectionInfoView::Mysql {
                database: database@,
                location: location@,
            },
            ConnectionInfo::Sqlite { file_path, db_name } => ConnectionInfoView::Sqlite {
                file_path: file_path@,
                db_name: db_name@,
            },
        }
    }
}

impl ConnectionInfoView {
    pub open spec fn family(self) -> SqlFamily {
        match self {
            ConnectionInfoView::Postgres { .. } => SqlFamily::Postgres,
            ConnectionInfoView::Mysql { .. } => SqlFamily::Mysql,
            ConnectionInfoView::Sqlite { .. } => SqlFamily::Sqlite,
        }
    }

    /// What item names are prefixed with in queries: the schema on Postgres, the database
    /// on MySQL, the name the file is attached as on SQLite.
    pub open spec fn schema_name(self) -> Seq<char> {
        match self {
            ConnectionInfoView::Postgres { schema, .. } => schema,
            ConnectionInfoView::Mysql { database, .. } => database,
            ConnectionInfoView::Sqlite { db_name, .. } => db_name,
        }
    }

    /// Where the database is, without credentials: host and port, or the file.
    pub open spec fn location(self) -> Seq<char> {
        match self {
            ConnectionInfoView::Postgres { location, .. } => location,
            ConnectionInfoView::Mysql { location, .. } => location,
            ConnectionInfoView::Sqlite { file_path, .. } => file_path,
        }
    }
}

impl ConnectionInfo {
    /// The family of the database.
    pub fn sql_family(&self) -> (family: SqlFamily)
        ensures
            family == self.deep_view().family(),
    {
        match self {
            ConnectionInfo::Postgres { .. } => SqlFamily::Postgres,
            ConnectionInfo::Mysql { .. } => SqlFamily::Mysql,
            ConnectionInfo::Sqlite { .. } => SqlFamily::Sqlite,
        }
    }

    /// What item names are prefixed with in queries.

    pub fn schema_name(&self) -> (name: &str)
        ensures
            name@ == self.deep_view().schema_name(),
    {
        match self {
            ConnectionInfo::Postgres { schema, .. } => schema.as_str(),
            ConnectionInfo::Mysql { database, .. } => database.as_str(),
            ConnectionInfo::Sqlite { db_name, .. } => db_name.as_str(),
        }
    }

    /// Where the database is, without credentials.

    pub fn database_location(&self) -> (location: &str)
        ensures
            location@ == self.deep_view().location(),
    {
        match self {
            ConnectionInfo::Postgres { location, .. } => location.as_str(),
            ConnectionInfo::Mysql { location, .. } => location.as_str(),
            ConnectionInfo::Sqlite { file_path, .. } => file_path.as_str(),
        }
    }

    /// The name of the connector for this connection.
    pub fn connector_type(&self) -> (name: &'static str)
        ensures
            name@ == self.deep_view().family().name(),
    {
        self.sql_family().as_str()
    }
}

/// Why an operation of the connector failed.
#[derive(Clone, Debug, PartialEq, Eq)]
pub enum ErrorKind {
    /// The connection descriptor does not fit the declared database family.
    InvalidDatabaseUrl,
    /// The database did not answer within the connection timeout.
    ConnectTimeout,
    /// The database could not be reached.
    ConnectionError { location: String, cause: String },
    /// The database rejected a statement.
    QueryError { statement: Option<String>, cause: String },
}

pub enum ErrorKindView {
    InvalidDatabaseUrl,
    ConnectTimeout,
    ConnectionError { location: Seq<char>, cause: Seq<char> },
    QueryError { statement: Option<Seq<char>>, cause: Seq<char> },
}

impl DeepView for ErrorKind {
    type V = ErrorKindView;

    open spec fn deep_view(&self) -> ErrorKindView {
        match self {
            ErrorKind::InvalidDatabaseUrl => ErrorKindView::InvalidDatabaseUrl,
            ErrorKind::ConnectTimeout => ErrorKindView::ConnectTimeout,
            ErrorKind::ConnectionError { location, cause } => ErrorKindView::ConnectionError {
                location: location@,
                cause: cause@,
            },
            ErrorKind::QueryError { statement, cause } => ErrorKindView::QueryError {
                statement: statement.deep_view(),
                cause: cause@,
            },
        }
    }
}

/// An error of the connector, as its callers see it.
#[derive(Clone, Debug, PartialEq, Eq)]
pub struct ConnectorError {
    pub kind: ErrorKind,
    pub user_facing_error: Option<String>,
}

pub struct ConnectorErrorView {
    pub kind: ErrorKindView,
    pub user_facing_error: Option<Seq<char>>,
}

impl DeepView for ConnectorError {
    type V = ConnectorErrorView;

    open spec fn deep_view(&self) -> ConnectorErrorView {
        ConnectorErrorView {
            kind: self.kind.deep_view(),
            user_facing_error: self.user_facing_error.deep_view(),
        }
    }
}

/// An error of the database driver, as plain values.
#[derive(Clone, Debug, PartialEq, Eq)]
pub enum SqlError {
    ConnectTimeout,
    ConnectionError { cause: String },
    QueryError { statement: Option<String>, cause: String },
}

pub enum SqlErrorView {
    ConnectTimeout,
    ConnectionError { cause: Seq<char> },
    QueryError { statement: Option<Seq<char>>, cause: Seq<char> },
}

impl DeepView for SqlError {
    type V = SqlErrorView;

    open spec fn deep_view(&self) -> SqlErrorView {
        match self {
            SqlError::ConnectTimeout => SqlErrorView::ConnectTimeout,
            SqlError::ConnectionError { cause } => SqlErrorView::ConnectionError { cause: cause@ },
            SqlError::QueryError { statement, cause } => SqlErrorView::QueryError {
                statement: statement.deep_view(),
                cause: cause@,
            },
        }
    }
}

/// The connector error that stands for a driver error on a given connection. The driver
/// error is always wrapped; a connection error names the location of the database.
pub open spec fn connector_error_of(
    error: SqlErrorView,
    connection: ConnectionInfoView,
) -> ConnectorErrorView {
    ConnectorErrorView {
        kind: match error {
            SqlErrorView::ConnectTimeout => ErrorKindView::ConnectTimeout,
            SqlErrorView::ConnectionError { cause } => ErrorKindView::ConnectionError {
                location: connection.location(),
                cause,
            },
            SqlErrorView::QueryError { statement, cause } => ErrorKindView::QueryError {
                statement,
                cause,
            },
        },
        user_facing_error: None,
    }
}

impl SqlError {
    /// Wraps the driver error for the callers of the connector.
    pub fn into_connector_error(self, connection_info: &ConnectionInfo) -> (error: ConnectorError)
        ensures
            error.deep_view() == connector_error_of(
                self.deep_view(),
                connection_info.deep_view(),
            ),
    {
        let kind = match self {
            SqlError::ConnectTimeout => ErrorKind::ConnectTimeout,
            SqlError::ConnectionError { cause } => ErrorKind::ConnectionError {
                location: String::from_str(connection_info.database_location()),
                cause,
            },
            SqlError::QueryError { statement, cause } => ErrorKind::QueryError { statement, cause },
        };
        ConnectorError { kind, user_facing_error: None }
    }
}

/// Hands a result through, with a driver error wrapped for the callers of the connector.
pub fn catch<O>(connection_info: &ConnectionInfo, outcome: Result<O, SqlError>) -> (caught: Result<
    O,
    ConnectorError,
>)
    ensures
        match outcome {
            Ok(value) => caught == Ok::<O, ConnectorError>(value),
            Err(sql_error) => caught matches Err(error) && error.deep_view() == connector_error_of(
                sql_error.deep_view(),
                connection_info.deep_view(),
            ),
        },
{
    match outcome {
        Ok(o) => Ok(o),
        Err(sql_error) => Err(sql_error.into_connector_error(connection_info)),
    }
}

/// `i` is the position of the first colon of `text`, or its length where it has none.
pub open spec fn is_scheme_end(text: Seq<char>, i: int) -> bool {
    &&& 0 <= i <= text.len()
    &&& forall|j: int| 0 <= j < i ==> text[j] != ':'
    &&& i < text.len() ==> text[i] == ':'
}

/// What a connection descriptor holds before its first colon.
pub open spec fn scheme_of(text: Seq<char>) -> Seq<char> {
    text.take(choose|i: int| is_scheme_end(text, i))
}

/// The prefix of `text` of the length of `prefix` is `prefix`.
pub open spec fn begins_with(text: Seq<char>, prefix: Seq<char>) -> bool {
    prefix.len() <= text.len() && text.take(prefix.len() as int) == prefix
}

/// Whether the scheme of a connection descriptor fits the declared provider: `mysql` takes
/// the scheme `mysql`; `postgres` and `postgresql` take every scheme that begins with
/// `postgres`; `sqlite` takes `file` and `sqlite`.
pub open spec fn descriptor_fits(database_str: Seq<char>, provider: Seq<char>) -> bool {
    let scheme = scheme_of(database_str);
    ||| provider == "mysql"@ && scheme == "mysql"@
    ||| (provider == "postgresql"@ || provider == "postgres"@) && begins_with(
        scheme,
        "postgres"@,
    )
    ||| provider == "sqlite"@ && (scheme == "file"@ || scheme == "sqlite"@)
}

/// Whether two texts are the same.
pub fn same_text(a: &str, b: &str) -> (same: bool)
    ensures
        same == (a@ == b@),
{
    String::from_str(a) == String::from_str(b)
}

/// Whether `text` begins with `prefix`.
pub fn text_begins_with(text: &str, prefix: &str) -> (begins: bool)
    ensures
        begins == begins_with(text@, prefix@),
{
    let prefix_len = prefix.unicode_len();
    if prefix_len <= text.unicode_len() {
        same_text(text.substring_char(0, prefix_len), prefix)
    } else {
        false
    }
}

/// The part of a connection descriptor before its first colon.
pub fn scheme_part(database_str: &str) -> (scheme: &str)
    ensures
        scheme@ == scheme_of(database_str@),
{
    let len = database_str.unicode_len();
    let mut i: usize = 0;
    while i < len && database_str.get_char(i) != ':'
        invariant
            i <= len,
            len == database_str@.len(),
            forall|j: int| 0 <= j < i ==> database_str@[j] != ':',
        decreases len - i,
    {
        i = i + 1;
    }
    proof {
        assert(is_scheme_end(database_str@, i as int));
        let chosen = choose|k: int| is_scheme_end(database_str@, k);
        assert(is_scheme_end(database_str@, chosen));
        if chosen < i {
            assert(database_str@[chosen] != ':');
        }
        if i < chosen {
            assert(database_str@[i as int] == ':');
        }
    }
    database_str.substring_char(0, i)
}

/// Accepts a connection descriptor whose scheme fits the declared provider, and rejects
/// every other one as an invalid database URL.
pub fn validate_database_str(database_str: &str, provider: &str) -> (checked: Result<
    (),
    ConnectorError,
>)
    ensures
        checked is Ok <==> descriptor_fits(database_str@, provider@),
        checked matches Err(error) ==> error.deep_view() == (ConnectorErrorView {
            kind: ErrorKindView::InvalidDatabaseUrl,
            user_facing_error: None,
        }),
{
    let scheme = scheme_part(database_str);
    let fits = if same_text(provider, "mysql") {
        same_text(scheme, "mysql")
    } else if same_text(provider, "postgresql") || same_text(provider, "postgres") {
        text_begins_with(scheme, "postgres")
    } else if same_text(provider, "sqlite") {
        same_text(scheme, "file") || same_text(scheme, "sqlite")
    } else {
        false
    };
    proof {
        reveal_strlit("mysql");
        reveal_strlit("postgresql");
        reveal_strlit("postgres");
        reveal_strlit("sqlite");
        assert("mysql"@.len() == 5);
        assert("postgresql"@.len() == 10);
        assert("postgres"@.len() == 8);
        assert("sqlite"@.len() == 6);
        assert("mysql"@ != "postgresql"@);
        assert("mysql"@ != "postgres"@);
        assert("mysql"@ != "sqlite"@);
        assert("sqlite"@ != "postgresql"@);
        assert("sqlite"@ != "postgres"@);
    }
    if fits {
        Ok(())
    } else {
        Err(ConnectorError { kind: ErrorKind::InvalidDatabaseUrl, user_facing_error: None })
    }
}

/// The statement that creates a database, where the family has one: SQLite creates its file
/// on first use.
pub open spec fn create_database_statement_of(family: SqlFamily, db_name: Seq<char>) -> Option<
    Seq<char>,
> {
    match family {
        SqlFamily::Postgres => Some("CREATE DATABASE \""@ + db_name + "\""@),
        SqlFamily::Sqlite => None,
        SqlFamily::Mysql => Some("CREATE DATABASE `"@ + db_name + "`"@),
    }
}

/// The statement that creates the database `db_name`.
pub fn create_database_statement(family: SqlFamily, db_name: &str) -> (statement: Option<String>)
    ensures
        statement.deep_view() == create_database_statement_of(family, db_name@),
{
    match family {
        SqlFamily::Postgres => {
            let mut query = String::from_str("CREATE DATABASE \"");
            query.append(db_name);
            query.append("\"");
            Some(query)
        },
        SqlFamily::Sqlite => None,
        SqlFamily::Mysql => {
            let mut query = String::from_str("CREATE DATABASE `");
            query.append(db_name);
            query.append("`");
            Some(query)
        },
    }
}

/// What setting up the working schema of a connection takes.
#[derive(Clone, Debug, PartialEq, Eq)]
pub enum InitializeStep {
    /// The directory of the database file has to exist.
    CreateParentDirectory { file_path: String },
    /// The statement has to be run.
    Execute { statement: String },
}

pub enum InitializeStepView {
    CreateParentDirectory { file_path: Seq<char> },
    Execute { statement: Seq<char> },
}

impl DeepView for InitializeStep {
    type V = InitializeStepView;

    open spec fn deep_view(&self) -> InitializeStepView {
        match self {
            InitializeStep::CreateParentDirectory { file_path } => {
                InitializeStepView::CreateParentDirectory { file_path: file_path@ }
            },
            InitializeStep::Execute { statement } => InitializeStepView::Execute {
                statement: statement@,
            },
        }
    }
}

/// Setting up creates the schema only where it is absent, so that it can be repeated.
pub open spec fn initialize_step_of(
    connection: ConnectionInfoView,
    schema_name: Seq<char>,
) -> InitializeStepView {
    match connection {
        ConnectionInfoView::Sqlite { file_path, .. } => InitializeStepView::CreateParentDirectory {
            file_path,
        },
        ConnectionInfoView::Postgres { .. } => InitializeStepView::Execute {
            statement: "CREATE SCHEMA IF NOT EXISTS \""@ + schema_name + "\";"@,
        },
        ConnectionInfoView::Mysql { .. } => InitializeStepView::Execute {
            statement: "CREATE SCHEMA IF NOT EXISTS `"@ + schema_name
                + "` DEFAULT CHARACTER SET latin1;"@,
        },
    }
}

/// What has to be done to set up the working schema `schema_name` of a connection.
pub fn initialize_step(connection_info: &ConnectionInfo, schema_name: &str) -> (step:
    InitializeStep)
    ensures
        step.deep_view() == initialize_step_of(connection_info.deep_view(), schema_name@),
{
    match connection_info {
        ConnectionInfo::Sqlite { file_path, .. } => InitializeStep::CreateParentDirectory {
            file_path: file_path.clone(),
        },
        ConnectionInfo::Postgres { .. } => {
            let mut schema_sql = String::from_str("CREATE SCHEMA IF NOT EXISTS \"");
            schema_sql.append(schema_name);
            schema_sql.append("\";");
            InitializeStep::Execute { statement: schema_sql }
        },
        ConnectionInfo::Mysql { .. } => {
            let mut schema_sql = String::from_str("CREATE SCHEMA IF NOT EXISTS `");
            schema_sql.append(schema_name);
            schema_sql.append("` DEFAULT CHARACTER SET latin1;");
            InitializeStep::Execute { statement: schema_sql }
        },
    }
}

/// What clearing the working schema of a connection takes.
#[derive(Clone, Debug, PartialEq, Eq)]
pub enum ResetStep {
    /// The database file has to be deleted.
    DeleteFile { file_path: String },
    /// The statement has to be run.
    Execute { statement: String },
}

pub enum ResetStepView {
    DeleteFile { file_path: Seq<char> },
    Execute { statement: Seq<char> },
}

impl DeepView for ResetStep {
    type V = ResetStepView;

    open spec fn deep_view(&self) -> ResetStepView {
        match self {
            ResetStep::DeleteFile { file_path } => ResetStepView::DeleteFile {
                file_path: file_path@,
            },
            ResetStep::Execute { statement } => ResetStepView::Execute { statement: statement@ },
        }
    }
}

/// Clearing drops the working schema with all that it holds, where it is there.
pub open spec fn reset_step_of(
    connection: ConnectionInfoView,
    schema_name: Seq<char>,
) -> ResetStepView {
    match connection {
        ConnectionInfoView::Sqlite { file_path, .. } => ResetStepView::DeleteFile { file_path },
        ConnectionInfoView::Postgres { .. } => ResetStepView::Execute {
            statement: "DROP SCHEMA IF EXISTS \""@ + schema_name + "\" CASCADE;"@,
        },
        ConnectionInfoView::Mysql { .. } => ResetStepView::Execute {
            statement: "DROP DATABASE IF EXISTS `"@ + schema_name + "`;"@,
        },
    }
}

/// What has to be done to clear the working schema `schema_name` of a connection. All that
/// the schema holds is lost.
pub fn reset_step(connection_info: &ConnectionInfo, schema_name: &str) -> (step: ResetStep)
    ensures
        step.deep_view() == reset_step_of(connection_info.deep_view(), schema_name@),
{
    match connection_info {
        ConnectionInfo::Sqlite { file_path, .. } => ResetStep::DeleteFile {
            file_path: file_path.clone(),
        },
        ConnectionInfo::Postgres { .. } => {
            let mut statement = String::from_str("DROP SCHEMA IF EXISTS \"");
            statement.append(schema_name);
            statement.append("\" CASCADE;");
            ResetStep::Execute { statement }
        },
        ConnectionInfo::Mysql { .. } => {
            let mut statement = String::from_str("DROP DATABASE IF EXISTS `");
            statement.append(schema_name);
            statement.append("`;");
            ResetStep::Execute { statement }
        },
    }
}

} // verus!
