//! The SQL statements that create, fill and reset the tick tables. They are
//! built here and run by whoever holds the database connection.

use vstd::prelude::*;

use crate::decimal::{dec, write_decimal};
use crate::tick::Tick;

verus! {

/// A text with each single quote doubled, as SQL writes it inside a literal.
pub open spec fn sql_escaped(s: Seq<char>) -> Seq<char>
    decreases s.len(),
{
    if s.len() == 0 {
        Seq::empty()
    } else if s.last() == '\'' {
        sql_escaped(s.drop_last()) + seq!['\'', '\'']
    } else {
        sql_escaped(s.drop_last()).push(s.last())
    }
}

/// The statement that bulk-loads the text rows (`timestamp, bid, ask`) of the file
/// `filename` into `table_name`. The file name is written as a quoted literal.
pub open spec fn copy_statement(filename: Seq<char>, table_name: Seq<char>) -> Seq<char> {
    "COPY "@ + table_name + "(tick_time, bid, ask) FROM '"@ + sql_escaped(filename) + "' WITH (FORMAT csv, DELIMITER ',')"@
}

/// Writes `s` with each single quote doubled.
pub fn escape_sql(s: &str) -> (r: String)
    ensures
        r@ == sql_escaped(s@),
{
    let n = s.unicode_len();
    let mut out = String::new();
    let mut i: usize = 0;
    while i < n
        invariant
            n == s@.len(),
            i <= n,
            out@ == sql_escaped(s@.subrange(0, i as int)),
        decreases n - i,
    {
        let c = s.get_char(i);
        let ghost p = s@.subrange(0, i + 1);
        assert(p.drop_last() =~= s@.subrange(0, i as int));
        assert(p.last() == c);
        assert(s@.subrange(i as int, i + 1) =~= seq![c]);
        let ghost before = out@;
        if c == '\'' {
            out = out.concat("''");
            assert(sql_escaped(p) == sql_escaped(p.drop_last()) + seq!['\'', '\'']);
            proof {
                reveal_strlit("''");
            }
            assert("''"@ =~= seq!['\'', '\'']);
        } else {
            out = out.concat(s.substring_char(i, i + 1));
            assert(sql_escaped(p) == sql_escaped(p.drop_last()).push(c));
        }
        assert(out@ =~= sql_escaped(p));
        i = i + 1;
    }
    assert(s@.subrange(0, n as int) =~= s@);
    out
}

/// The statement that creates the tick table `table_name` where it is missing.
pub open spec fn create_statement(table_name: Seq<char>) -> Seq<char> {
    "CREATE TABLE IF NOT EXISTS "@ + table_name + "\n    (\n      tick_time BIGINT NOT NULL PRIMARY KEY UNIQUE,\n      bid BIGINT NOT NULL,\n      ask BIGINT NOT NULL\n    )\n    WITH (\n      OIDS=FALSE\n    );"@
}

/// The statement that hands the table `table_name` to the user `pg_user`.
pub open spec fn owner_statement(table_name: Seq<char>, pg_user: Seq<char>) -> Seq<char> {
    "ALTER TABLE "@ + table_name + "\n      OWNER TO "@ + pg_user + ";"@
}

/// The statement that drops every table and gives a fresh schema to `pg_user`.
pub open spec fn reset_statement(pg_user: Seq<char>) -> Seq<char> {
    "DROP SCHEMA public CASCADE;\n        CREATE SCHEMA public AUTHORIZATION "@ + pg_user + ";\n        ALTER SCHEMA public OWNER TO "@ + pg_user + ";\n        GRANT ALL ON SCHEMA public TO "@ + pg_user + ";"@
}

/// The statement that stores `t` in the table `table`.
pub open spec fn insert_statement(table: Seq<char>, t: Tick) -> Seq<char> {
    "INSERT INTO "@ + table + " (tick_time, bid, ask) VALUES ("@ + dec(t.timestamp as nat) + ", "@
        + dec(t.bid as nat) + ", "@ + dec(t.ask as nat) + ");"@
}

/// The query that reads the ticks of `symbol` from `start` on, oldest first.
pub open spec fn select_statement(symbol: Seq<char>, start: u64) -> Seq<char> {
    "SELECT tick_time, bid, ask FROM ticks_"@ + symbol + " WHERE tick_time >= "@ + dec(start as nat)
        + " ORDER BY tick_time;"@
}

/// The query that reads the ticks of `symbol` from `start_time` on (from the
/// beginning where there is none), oldest first.
pub fn select_ticks(symbol: &str, start_time: Option<u64>) -> (r: String)
    ensures
        r@ == select_statement(symbol@, match start_time {
            Some(t) => t,
            None => 0,
        }),
{
    let start = match start_time {
        Some(t) => t,
        None => 0,
    };
    String::from_str("SELECT tick_time, bid, ask FROM ticks_").concat(symbol).concat(" WHERE tick_time >= ").concat(
        write_decimal(start).as_str(),
    ).concat(" ORDER BY tick_time;")
}

/// The statement that bulk-loads the text rows of `filename` into `table_name`.
pub fn csv_to_tick_table(filename: &str, table_name: &str) -> (r: String)
    ensures
        r@ == copy_statement(filename@, table_name@),
{
    String::from_str("COPY ").concat(table_name).concat("(tick_time, bid, ask) FROM '").concat(
        escape_sql(filename).as_str(),
    ).concat("' WITH (FORMAT csv, DELIMITER ',')")
}

/// The statements that create the table of the ticks of `symbol`, `ticks_<symbol>`,
/// where it is missing, and hand it to `pg_user`.
pub fn init_tick_table(symbol: &str, pg_user: &str) -> (r: Vec<String>)
    ensures
        r@.len() == 2,
        r@[0]@ == create_statement("ticks_"@ + symbol@),
        r@[1]@ == owner_statement("ticks_"@ + symbol@, pg_user@),
{
    let table = String::from_str("ticks_").concat(symbol);
    tick_table_inner(table.as_str(), pg_user)
}

/// The statements that create the table of historical ticks `table_name` where it
/// is missing, and hand it to `pg_user`.
pub fn init_hist_data_table(table_name: &str, pg_user: &str) -> (r: Vec<String>)
    ensures
        r@.len() == 2,
        r@[0]@ == create_statement(table_name@),
        r@[1]@ == owner_statement(table_name@, pg_user@),
{
    tick_table_inner(table_name, pg_user)
}

/// The statements that create the tick table `table_name` where it is missing,
/// and hand it to `pg_user`.
pub fn tick_table_inner(table_name: &str, pg_user: &str) -> (r: Vec<String>)
    ensures
        r@.len() == 2,
        r@[0]@ == create_statement(table_name@),
        r@[1]@ == owner_statement(table_name@, pg_user@),
{
    let create = String::from_str("CREATE TABLE IF NOT EXISTS ").concat(table_name).concat("\n    (\n      tick_time BIGINT NOT NULL PRIMARY KEY UNIQUE,\n      bid BIGINT NOT NULL,\n      ask BIGINT NOT NULL\n    )\n    WITH (\n      OIDS=FALSE\n    );");
    let owner = String::from_str("ALTER TABLE ").concat(table_name).concat("\n      OWNER TO ").concat(pg_user).concat(";");
    let mut r: Vec<String> = Vec::new();
    r.push(create);
    r.push(owner);
    r
}

/// The statements that drop every table and give a fresh schema to `pg_user`.
pub fn reset_db(pg_user: &str) -> (r: String)
    ensures
        r@ == reset_statement(pg_user@),
{
    String::from_str("DROP SCHEMA public CASCADE;\n        CREATE SCHEMA public AUTHORIZATION ").concat(pg_user).concat(";\n        ALTER SCHEMA public OWNER TO ").concat(pg_user).concat(";\n        GRANT ALL ON SCHEMA public TO ").concat(pg_user).concat(
        ";",
    )
}

impl Tick {
    /// The statement that stores this tick in the table of `symbol`, `ticks_<symbol>`,
    /// which must exist.
    pub fn store(&self, symbol: &str) -> (r: String)
        ensures
            r@ == insert_statement("ticks_"@ + symbol@, *self),
    {
        let table = String::from_str("ticks_").concat(symbol);
        self.store_table(table.as_str())
    }

    /// The statement that stores this tick in the table `table`, which must exist.
    pub fn store_table(&self, table: &str) -> (r: String)
        ensures
            r@ == insert_statement(table@, *self),
    {
        String::from_str("INSERT INTO ").concat(table).concat(" (tick_time, bid, ask) VALUES (").concat(
            write_decimal(self.timestamp).as_str(),
        ).concat(", ").concat(write_decimal(self.bid as u64).as_str()).concat(", ").concat(
            write_decimal(self.ask as u64).as_str(),
        ).concat(");")
    }
}

} // verus!
