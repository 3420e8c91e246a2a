//! From a request to the pipeline that serves it.

use vstd::prelude::*;
use vstd::string::StringExecFns;
use crate::auth::AuthMiddleware;
use crate::auth::admitted;
use crate::commands::mysqldump_data;
use crate::commands::mysqldump_data_stage;
use crate::commands::mysqldump_schema;
use crate::commands::mysqldump_schema_stage;
use crate::commands::pg_dump;
use crate::commands::pg_dump_stage;
use crate::commands::tables_of;
use crate::dump_query::DumpQuery;
use crate::pipeline::Pipeline;
use crate::pipeline::Policy;
use crate::pipeline::StageView;
use crate::pipeline::stage_views;
use crate::settings::Connection;
use crate::settings::ConnectionKind;
use crate::settings::Settings;
use crate::settings::find_connection;
use crate::text::join2;

verus! {

/// Status of a response that carries the frame stream.
pub const STATUS_OK: u16 = 200;

/// Status of the response to a request without a valid key.
pub const STATUS_UNAUTHORIZED: u16 = 401;

/// Status of the response to a request for something that is not configured.
pub const STATUS_NOT_FOUND: u16 = 404;

/// Why a request was turned down before any process was started.
#[derive(Debug, Clone, Copy, PartialEq, Eq, Structural)]
pub enum SetupError {
    /// The key header is missing or holds no configured key.
    InvalidApiKey,
    /// No connection is configured under the identifier.
    UnknownConnection,
    /// Neither the request nor the connection names a database.
    MissingDatabase,
}

/// The text that tells a client why its request was turned down.
pub open spec fn setup_message(error: SetupError, connection_id: Seq<char>) -> Seq<char> {
    match error {
        SetupError::InvalidApiKey => "invalid api key"@,
        SetupError::UnknownConnection => "no database connection "@ + connection_id,
        SetupError::MissingDatabase => "no database name provided"@,
    }
}

impl SetupError {
    /// The status of the response that reports this error.
    pub fn status(&self) -> (code: u16)
        ensures
            code == match *self {
                SetupError::InvalidApiKey => 401u16,
                SetupError::UnknownConnection => 404u16,
                SetupError::MissingDatabase => 404u16,
            },
    {
        match self {
            SetupError::InvalidApiKey => STATUS_UNAUTHORIZED,
            SetupError::UnknownConnection => STATUS_NOT_FOUND,
            SetupError::MissingDatabase => STATUS_NOT_FOUND,
        }
    }

    /// The body of the response that reports this error.
    pub fn message(&self, connection_id: &str) -> (text: String)
        ensures
            text@ == setup_message(*self, connection_id@),
    {
        match self {
            SetupError::InvalidApiKey => String::from_str("invalid api key"),
            SetupError::UnknownConnection => join2("no database connection ", connection_id),
            SetupError::MissingDatabase => String::from_str("no database name provided"),
        }
    }
}

/// The database that a request is about: the one it names, or else the
/// connection's own.
pub open spec fn resolved_dbname(conn: Connection, dbname: Option<&str>) -> Option<Seq<char>> {
    match dbname {
        Some(name) => Some(name@),
        None => match conn.dbname {
            Some(name) => Some(name@),
            None => None,
        },
    }
}

/// The stages that dump a database over a connection: one for Postgres;
/// for MySQL the table definitions first and then the rows.
pub open spec fn planned_stages(
    conn: Connection,
    dbname: Seq<char>,
    excluded: Seq<Seq<char>>,
) -> Seq<StageView> {
    match conn.kind {
        ConnectionKind::Postgres => seq![pg_dump_stage(conn, dbname, excluded)],
        ConnectionKind::MySql => seq![
            mysqldump_schema_stage(conn, dbname),
            mysqldump_data_stage(conn, dbname, excluded),
        ],
    }
}

/// The rule by which the stages for a connection follow one another.
pub open spec fn planned_policy(conn: Connection) -> Policy {
    match conn.kind {
        ConnectionKind::Postgres => Policy::SingleStage,
        ConnectionKind::MySql => Policy::SequentialOnSuccess,
    }
}

/// What becomes of a request, before any process is started.
pub open spec fn setup_outcome(
    settings: Settings,
    api_key: Option<&str>,
    connection_id: Seq<char>,
    dbname: Option<&str>,
) -> Result<(Connection, Seq<char>), SetupError> {
    if !admitted(settings, api_key) {
        Err(SetupError::InvalidApiKey)
    } else {
        match find_connection(settings.connections@, connection_id) {
            None => Err(SetupError::UnknownConnection),
            Some(conn) => match resolved_dbname(conn, dbname) {
                None => Err(SetupError::MissingDatabase),
                Some(name) => Ok((conn, name)),
            },
        }
    }
}

/// Builds the pipeline for a dump over a connection.
pub fn build_pipeline(conn: &Connection, dbname: &str, query: DumpQuery) -> (p: Pipeline)
    ensures
        p.wf(),
        p.policy == planned_policy(*conn),
        stage_views(p.stages@) == planned_stages(
            *conn,
            dbname@,
            tables_of(query.exclude_table_data),
        ),
{
    match conn.kind {
        ConnectionKind::Postgres => Pipeline::single(
            pg_dump(conn, dbname, query.exclude_table_data),
        ),
        ConnectionKind::MySql => Pipeline::sequential(
            mysqldump_schema(conn, dbname),
            mysqldump_data(conn, dbname, query.exclude_table_data),
        ),
    }
}

/// Decides what to do with a dump request.
///
/// The request is turned down, in this order, where its key is not a
/// configured one, where no connection has its identifier, and where no
/// database is named. Otherwise the pipeline for the connection's kind
/// comes back, with nothing started yet.
pub fn plan_dump(
    settings: &Settings,
    api_key: Option<&str>,
    connection_id: &str,
    dbname: Option<&str>,
    query: DumpQuery,
) -> (r: Result<Pipeline, SetupError>)
    ensures
        match setup_outcome(*settings, api_key, connection_id@, dbname) {
            Err(e) => r == Err::<Pipeline, SetupError>(e),
            Ok((conn, name)) => r.is_ok() && r.unwrap().wf() && r.unwrap().policy
                == planned_policy(conn) && stage_views(r.unwrap().stages@) == planned_stages(
                conn,
                name,
                tables_of(query.exclude_table_data),
            ),
        },
{
    let auth = AuthMiddleware;
    if !auth.admits(settings, api_key) {
        return Err(SetupError::InvalidApiKey);
    }
    let conn: &Connection = match settings.connection(connection_id) {
        Some(conn) => conn,
        None => {
            return Err(SetupError::UnknownConnection);
        },
    };
    match dbname {
        Some(name) => Ok(build_pipeline(conn, name, query)),
        None => match &conn.dbname {
            Some(name) => Ok(build_pipeline(conn, name.as_str(), query)),
            None => Err(SetupError::MissingDatabase),
        },
    }
}

} // verus!
