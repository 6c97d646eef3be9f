//! What query execution computes before it calls the server: the command
//! that asks for the result schema, the `$sql` aggregation pipeline, and the
//! server-side time limit.
use vstd::prelude::*;
use crate::cursor::Row;
use crate::value::DocumentValue;

verus! {

/// Why a query cannot be run.
#[derive(Clone, Copy, Debug, PartialEq, Eq, Structural)]
pub enum QueryError {
    /// No database was selected for the connection.
    NoDatabase,
}

/// The database a query runs against: the connection's current database.
pub fn require_database(current_db: Option<String>) -> (r: Result<String, QueryError>)
    ensures
        match current_db {
            Some(d) => r matches Ok(x) && x@ == d@,
            None => r == Err::<String, QueryError>(QueryError::NoDatabase),
        },
{
    match current_db {
        Some(d) => Ok(d),
        None => Err(QueryError::NoDatabase),
    }
}

/// The server-side time limit, in milliseconds, for a query timeout given in
/// milliseconds: none for no timeout and for a timeout of zero.
pub open spec fn time_limit_spec(query_timeout: Option<u32>) -> Option<u64> {
    match query_timeout {
        Some(i) => if i > 0 {
            Some(i as u64)
        } else {
            None
        },
        None => None,
    }
}

/// The server-side time limit, in milliseconds, for a query timeout.
pub fn time_limit_ms(query_timeout: Option<u32>) -> (r: Option<u64>)
    ensures
        r == time_limit_spec(query_timeout),
{
    match query_timeout {
        Some(i) => if i > 0 {
            Some(i as u64)
        } else {
            None
        },
        None => None,
    }
}

/// Whether a row holds exactly the fields named and valued as given.
pub open spec fn row_is(row: Seq<(String, DocumentValue)>, keys: Seq<Seq<char>>) -> bool {
    &&& row.len() == keys.len()
    &&& forall|i: int| 0 <= i < row.len() ==> (#[trigger] row[i]).0@ == keys[i]
}

/// The command `{"sqlGetResultSchema": 1, "query": query, "schemaVersion": 1}`.
pub fn result_schema_command(query: &str) -> (r: Row)
    ensures
        row_is(r@, seq!["sqlGetResultSchema"@, "query"@, "schemaVersion"@]),
        r@[0].1 == DocumentValue::Int32(1),
        r@[1].1 matches DocumentValue::String(q) && q@ == query@,
        r@[2].1 == DocumentValue::Int32(1),
{
    let mut r: Row = Vec::new();
    r.push(("sqlGetResultSchema".to_owned(), DocumentValue::Int32(1)));
    r.push(("query".to_owned(), DocumentValue::String(query.to_owned())));
    r.push(("schemaVersion".to_owned(), DocumentValue::Int32(1)));
    r
}

/// The aggregation pipeline `[{"$sql": {"statement": statement}}]`.
pub fn sql_pipeline(statement: &str) -> (r: Vec<Row>)
    ensures
        r@.len() == 1,
        row_is(r@[0]@, seq!["$sql"@]),
        r@[0]@[0].1 matches DocumentValue::Document(f) && row_is(f@, seq!["statement"@]) && (
        f@[0].1 matches DocumentValue::String(s) && s@ == statement@),
{
    let mut inner: Row = Vec::new();
    inner.push(("statement".to_owned(), DocumentValue::String(statement.to_owned())));
    let mut stage: Row = Vec::new();
    stage.push(("$sql".to_owned(), DocumentValue::Document(inner)));
    let mut r: Vec<Row> = Vec::new();
    r.push(stage);
    r
}

} // verus!
