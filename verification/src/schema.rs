//! The statements by which a store of transfers is set up and read: one
//! column per field of a transfer, ordered by time stamp.

use vstd::prelude::*;
use vstd::string::StringExecFns;

verus! {

/// The text of `create_table_statement` for a table of the given name.
pub open spec fn create_table_text(table: Seq<char>) -> Seq<char> {
    "CREATE TABLE IF NOT EXISTS "@ + table
        + " (ts UInt64, `from` String, `to` String, amount Int32, usd_price Int32) ENGINE = MergeTree() ORDER BY ts"@
}

/// The text of `select_all_statement` for a table of the given name.
pub open spec fn select_all_text(table: Seq<char>) -> Seq<char> {
    "SELECT * FROM "@ + table
}

/// The statement that creates the table `table` unless it exists.
pub fn create_table_statement(table: &str) -> (ddl: String)
    ensures
        ddl@ == create_table_text(table@),
{
    let mut ddl: String = String::from_str("CREATE TABLE IF NOT EXISTS ");
    ddl.append(table);
    ddl.append(
        " (ts UInt64, `from` String, `to` String, amount Int32, usd_price Int32) ENGINE = MergeTree() ORDER BY ts",
    );
    ddl
}

/// The statement that reads every transfer of the table `table`.
pub fn select_all_statement(table: &str) -> (query: String)
    ensures
        query@ == select_all_text(table@),
{
    let mut query: String = String::from_str("SELECT * FROM ");
    query.append(table);
    query
}

} // verus!
