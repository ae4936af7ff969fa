//! The calls into rusqlite through which the tables are kept on disk. What a
//! query reads depends on the file, so none of these states what comes back
//! beyond its type.
use vstd::prelude::*;
use crate::timestamp::Timestamp;

verus! {

#[verifier::external_type_specification]
#[verifier::external_body]
pub struct ExConnection(rusqlite::Connection);

#[verifier::external_type_specification]
#[verifier::external_body]
pub struct ExSqlError(rusqlite::Error);

#[verifier::external_type_specification]
#[verifier::external_body]
pub struct ExStatement<'conn>(rusqlite::Statement<'conn>);

#[verifier::external_type_specification]
#[verifier::external_body]
pub struct ExRows<'stmt>(rusqlite::Rows<'stmt>);

#[verifier::external_type_specification]
#[verifier::external_body]
pub struct ExRow<'stmt>(rusqlite::Row<'stmt>);

/// A value bound to a statement parameter.
pub enum SqlParam {
    Null,
    Int(i64),
    Text(String),
    Time(Timestamp),
}

pub enum SqlParamView {
    Null,
    Int(i64),
    Text(Seq<char>),
    Time((i64, u32)),
}

impl View for SqlParam {
    type V = SqlParamView;

    open spec fn view(&self) -> SqlParamView {
        match self {
            SqlParam::Null => SqlParamView::Null,
            SqlParam::Int(i) => SqlParamView::Int(*i),
            SqlParam::Text(s) => SqlParamView::Text(s@),
            SqlParam::Time(t) => SqlParamView::Time(t@),
        }
    }
}

pub open spec fn params_view(v: Seq<SqlParam>) -> Seq<SqlParamView> {
    v.map_values(|p: SqlParam| p@)
}

/// Which of the library's statements a statement is.
#[derive(Clone, Copy, Debug, PartialEq, Eq, Structural)]
pub enum StmtKind {
    FeedUpdate,
    FeedInsert,
    FeedMetadata,
    FeedDelete,
    ArticleUpdate,
    ArticleInsert,
    MarkAllRead,
    MarkRead,
    Prune,
}

/// A statement and the values bound to its parameters `?1`, `?2`, ... in
/// order.
pub struct SqlStatement {
    pub kind: StmtKind,
    pub sql: String,
    pub params: Vec<SqlParam>,
}

pub struct StatementView {
    pub kind: StmtKind,
    pub sql: Seq<char>,
    pub params: Seq<SqlParamView>,
}

impl View for SqlStatement {
    type V = StatementView;

    open spec fn view(&self) -> StatementView {
        StatementView { kind: self.kind, sql: self.sql@, params: params_view(self.params@) }
    }
}

/// rusqlite `Connection::open`: opens (or creates) the database at `path`;
/// `:memory:` names a fresh database in memory.
#[verifier::external_body]
pub(crate) fn open(path: &str) -> (r: Result<rusqlite::Connection, rusqlite::Error>) {
    rusqlite::Connection::open(path)
}

/// rusqlite `Connection::execute_batch`: runs the statements of `sql`.
#[verifier::external_body]
pub(crate) fn execute_batch(conn: &rusqlite::Connection, sql: &str) -> (r: Result<(), rusqlite::Error>) {
    conn.execute_batch(sql)
}

/// rusqlite `Connection::last_insert_rowid`: the rowid of the last row that
/// an `INSERT` on this connection created.
#[verifier::external_body]
pub(crate) fn last_insert_rowid(conn: &rusqlite::Connection) -> (r: i64) {
    conn.last_insert_rowid()
}

/// rusqlite `Connection::prepare`.
#[verifier::external_body]
pub(crate) fn prepare<'c>(conn: &'c rusqlite::Connection, sql: &str) -> (r: Result<rusqlite::Statement<'c>, rusqlite::Error>) {
    conn.prepare(sql)
}

/// rusqlite `Statement::query` with no parameters.
#[verifier::external_body]
pub(crate) fn query_rows<'s>(stmt: &'s mut rusqlite::Statement<'_>) -> (r: Result<rusqlite::Rows<'s>, rusqlite::Error>) {
    stmt.query([])
}

/// rusqlite `Rows::next`: the next row of the result, `None` at its end.
#[verifier::external_body]
pub(crate) fn next_row<'r, 's>(rows: &'r mut rusqlite::Rows<'s>) -> (r: Result<Option<&'r rusqlite::Row<'s>>, rusqlite::Error>) {
    rows.next()
}

/// rusqlite `Row::get` of an `i64` column.
#[verifier::external_body]
pub(crate) fn column_i64(row: &rusqlite::Row<'_>, idx: usize) -> (r: Result<i64, rusqlite::Error>) {
    row.get(idx)
}

/// rusqlite `Row::get` of a `String` column.
#[verifier::external_body]
pub(crate) fn column_text(row: &rusqlite::Row<'_>, idx: usize) -> (r: Result<String, rusqlite::Error>) {
    row.get(idx)
}

/// rusqlite `Row::get` of an `Option<String>` column.
#[verifier::external_body]
pub(crate) fn column_opt_text(row: &rusqlite::Row<'_>, idx: usize) -> (r: Result<Option<String>, rusqlite::Error>) {
    row.get(idx)
}

/// rusqlite `Row::get` of a `bool` column.
#[verifier::external_body]
pub(crate) fn column_bool(row: &rusqlite::Row<'_>, idx: usize) -> (r: Result<bool, rusqlite::Error>) {
    row.get(idx)
}

/// rusqlite `Row::get` of an `Option<DateTime<Utc>>` column, taken apart
/// into seconds and nanoseconds with chrono's `timestamp` and
/// `timestamp_subsec_nanos`, which chrono documents to round-trip through
/// `from_timestamp`; so the result meets `Timestamp`'s invariant.
#[verifier::external_body]
pub(crate) fn column_opt_time(row: &rusqlite::Row<'_>, idx: usize) -> (r: Result<Option<Timestamp>, rusqlite::Error>) {
    let v: Option<chrono::DateTime<chrono::Utc>> = row.get(idx)?;
    Ok(v.map(|d| Timestamp { secs: d.timestamp(), nanos: d.timestamp_subsec_nanos() }))
}

} // verus!
