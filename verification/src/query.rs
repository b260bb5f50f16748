//! SQL statements for reading, and the rows that come back.

use crate::cli::Format;
use crate::number::{
    decimal, is_number, lemma_decimal_is_number, value, write_decimal,
};
use crate::text::{
    is_white, law_runs_are_trimmed, law_white_space_is_trimmed, lemma_trim_start, trim, trim_start,
    trim_trailing, trim_white, white, without_trailing,
};
use vstd::prelude::*;

verus! {

/// An SQL text with a value for each of its placeholders, in order.
#[derive(Debug)]
pub struct Statement {
    pub sql: String,
    pub params: Vec<String>,
}

/// What the outer query selects: DuckDB itself renders a row as JSON text, or
/// every column as plain text.
pub open spec fn projection(format: Format) -> Seq<char> {
    match format {
        Format::Jsonl | Format::Json => "to_json(t)::VARCHAR"@,
        Format::Table => "COLUMNS(*)::VARCHAR"@,
    }
}

/// The query that `sql` asks: without the white space around it and the
/// semicolons that end it.
pub open spec fn bare(sql: Seq<char>) -> Seq<char> {
    without_trailing(trim(sql), ';')
}

/// The clause that caps a result at `limit` rows.
pub open spec fn cap(limit: Option<usize>) -> Seq<char> {
    match limit {
        Some(n) => " LIMIT "@ + decimal(n as nat),
        None => Seq::empty(),
    }
}

/// `sql` inside an outer query that renders its rows and caps their number.
pub open spec fn wrapped(format: Format, sql: Seq<char>, limit: Option<usize>) -> Seq<char> {
    "SELECT "@ + projection(format) + " FROM ("@ + bare(sql) + ") t"@ + cap(limit)
}

/// The statement that runs `sql` and hands each row back rendered for
/// `format`. `limit`, when given, caps the number of rows on the outer query.
pub fn run_query(format: Format, sql: &str, params: Vec<String>, limit: Option<usize>) -> (r:
    Statement)
    ensures
        r.sql@ == wrapped(format, sql@, limit),
        r.params == params,
{
    let sql = trim_trailing(trim_white(sql).as_str(), ';');
    let projection = match format {
        Format::Jsonl | Format::Json => "to_json(t)::VARCHAR",
        Format::Table => "COLUMNS(*)::VARCHAR",
    };
    let mut wrapped = "SELECT ".to_string();
    wrapped.append(projection);
    wrapped.append(" FROM (");
    wrapped.append(sql.as_str());
    wrapped.append(") t");
    if let Some(limit) = limit {
        let ghost head = wrapped@;
        wrapped.append(" LIMIT ");
        wrapped.append(write_decimal(limit).as_str());
        assert(wrapped@ =~= head + (" LIMIT "@ + decimal(limit as nat)));
    } else {
        assert(wrapped@ =~= wrapped@ + Seq::<char>::empty());
    }
    Statement { sql: wrapped, params }
}

/// Lists the tables and their columns.
pub const COLUMNS: &'static str =
    "
        SELECT table_name, column_name, data_type
        FROM information_schema.columns
        WHERE table_schema = 'main'
        ORDER BY table_name, ordinal_position";

/// Counts the rows of each table.
pub const COUNTS: &'static str =
    "
        SELECT 'accounts' AS table_name, count(*) AS rows FROM accounts
        UNION ALL SELECT 'tweets', count(*) FROM tweets
        UNION ALL SELECT 'likes', count(*) FROM likes
        UNION ALL SELECT 'followers', count(*) FROM followers
        UNION ALL SELECT 'following', count(*) FROM following";

/// The statements that show what there is to query: the columns of every
/// table, then the number of rows.
pub fn print_schema(format: Format) -> (r: Vec<Statement>)
    ensures
        r@.len() == 2,
        r@[0].sql@ == wrapped(format, COLUMNS@, None),
        r@[1].sql@ == wrapped(format, COUNTS@, None),
        r@[0].params@.len() == 0,
        r@[1].params@.len() == 0,
{
    let mut r: Vec<Statement> = Vec::new();
    r.push(run_query(format, COLUMNS, Vec::new(), None));
    r.push(run_query(format, COUNTS, Vec::new(), None));
    r
}

/// The cap that a limit asks for: zero lifts it.
pub open spec fn row_cap(limit: usize) -> Option<usize> {
    if limit > 0 {
        Some(limit)
    } else {
        None
    }
}

/// The cap that a limit asks for: zero lifts it.
pub fn cap_rows(limit: usize) -> (r: Option<usize>)
    ensures
        r == row_cap(limit),
{
    if limit > 0 {
        Some(limit)
    } else {
        None
    }
}

proof fn lemma_trim_start_then(s: Seq<char>, c: char)
    requires
        s.len() > 0,
        !is_white(s.last()),
    ensures
        trim_start(s, white()).len() > 0,
        trim_start(s, white()).last() == s.last(),
        trim_start(s.push(c), white()) == trim_start(s, white()).push(c),
    decreases s.len(),
{
    assert(s.push(c).first() == s.first());
    if is_white(s.first()) {
        assert(s.len() > 1);
        lemma_trim_start_then(s.drop_first(), c);
        assert(s.push(c).drop_first() =~= s.drop_first().push(c));
    }
}

/// A query may end with a semicolon, unless white space stands before it.
pub proof fn law_final_semicolon_is_optional(sql: Seq<char>)
    requires
        sql.len() > 0 && is_white(sql.last()) ==> forall|i: int|
            0 <= i < sql.len() ==> is_white(#[trigger] sql[i]),
    ensures
        bare(sql.push(';')) == bare(sql),
{
    if sql.len() > 0 && !is_white(sql.last()) {
        lemma_trim_start_then(sql, ';');
        let kept = trim_start(sql, white());
        assert(trim(sql) == kept);
        assert(kept.push(';').drop_last() =~= kept);
        assert(trim(sql.push(';')) == kept.push(';'));
    } else {
        let ended = sql.push(';');
        lemma_trim_start(sql, white(), sql.len() as int);
        lemma_trim_start(ended, white(), sql.len() as int);
        assert(trim(sql) =~= Seq::<char>::empty());
        assert(trim(ended) =~= seq![';']);
        assert(seq![';'].drop_last() =~= Seq::<char>::empty());
        assert(without_trailing(seq![';'], ';') == without_trailing(Seq::empty(), ';'));
    }
}

/// A query without white space around it and without a final semicolon is run
/// as it stands.
pub proof fn law_clean_query_is_kept(sql: Seq<char>)
    requires
        sql.len() > 0,
        !is_white(sql.first()),
        !is_white(sql.last()),
        sql.last() != ';',
    ensures
        bare(sql) == sql,
{
}

/// A query stands whole inside the outer one, which asks for JSON text or for
/// plain columns, and nothing follows it without a cap.
pub proof fn law_query_stands_inside(sql: Seq<char>)
    ensures
        wrapped(Format::Jsonl, sql, None) == "SELECT to_json(t)::VARCHAR FROM ("@ + bare(sql) + ") t"@,
        wrapped(Format::Json, sql, None) == wrapped(Format::Jsonl, sql, None),
        wrapped(Format::Table, sql, None) == "SELECT COLUMNS(*)::VARCHAR FROM ("@ + bare(sql) + ") t"@,
{
    reveal_strlit("SELECT ");
    reveal_strlit(" FROM (");
    reveal_strlit("to_json(t)::VARCHAR");
    reveal_strlit("COLUMNS(*)::VARCHAR");
    reveal_strlit("SELECT to_json(t)::VARCHAR FROM (");
    reveal_strlit("SELECT COLUMNS(*)::VARCHAR FROM (");
    assert("SELECT "@ + "to_json(t)::VARCHAR"@ + " FROM ("@ =~= "SELECT to_json(t)::VARCHAR FROM ("@);
    assert("SELECT "@ + "COLUMNS(*)::VARCHAR"@ + " FROM ("@ =~= "SELECT COLUMNS(*)::VARCHAR FROM ("@);
    assert(wrapped(Format::Jsonl, sql, None) =~= "SELECT to_json(t)::VARCHAR FROM ("@ + bare(sql)
        + ") t"@);
    assert(wrapped(Format::Table, sql, None) =~= "SELECT COLUMNS(*)::VARCHAR FROM ("@ + bare(sql)
        + ") t"@);
}

/// A query's rows are capped at the limit it comes with, whatever its size: the
/// statement ends with that number. A limit of zero leaves the statement
/// without a cap.
pub proof fn law_rows_are_capped_at_the_limit(format: Format, sql: Seq<char>, limit: usize)
    ensures
        limit == 0 ==> wrapped(format, sql, row_cap(limit)) == wrapped(format, sql, None),
        limit > 0 ==> exists|digits: Seq<char>| #[trigger]
            is_number(digits) && value(digits) == limit && wrapped(format, sql, row_cap(limit))
                == wrapped(format, sql, None) + " LIMIT "@ + digits,
        exists|digits: Seq<char>| #[trigger]
            is_number(digits) && value(digits) == limit && wrapped(format, sql, Some(limit))
                == wrapped(format, sql, None) + " LIMIT "@ + digits,
{
    let digits = decimal(limit as nat);
    lemma_decimal_is_number(limit as nat);
    assert(wrapped(format, sql, Some(limit)) =~= wrapped(format, sql, None) + " LIMIT "@ + digits);
    assert(is_number(digits));
}

/// Of a query, the white space around it and the semicolons at its end are
/// left out, and nothing else.
pub proof fn law_only_the_edges_are_left_out(
    before: Seq<char>,
    core: Seq<char>,
    semicolons: Seq<char>,
    after: Seq<char>,
)
    requires
        forall|i: int| 0 <= i < before.len() ==> is_white(#[trigger] before[i]),
        forall|i: int| 0 <= i < semicolons.len() ==> #[trigger] semicolons[i] == ';',
        forall|i: int| 0 <= i < after.len() ==> is_white(#[trigger] after[i]),
        core.len() > 0 ==> !is_white(core.first()) && core.last() != ';',
        core.len() > 0 && semicolons.len() == 0 ==> !is_white(core.last()),
    ensures
        bare(before + core + semicolons + after) == core,
{
    let middle = core + semicolons;
    if semicolons.len() > 0 {
        assert(semicolons[0] == ';');
        assert(semicolons[semicolons.len() - 1] == ';');
        assert(middle.last() == ';');
        assert(core.len() == 0 ==> middle.first() == ';');
    } else {
        assert(middle =~= core);
    }
    law_white_space_is_trimmed(before, middle, after);
    assert(before + middle + after =~= before + core + semicolons + after);
    law_runs_are_trimmed(semicolons, ';', core);
}

/// The rows of every table are counted under the table's own name.
pub proof fn law_every_table_is_counted()
    ensures
        ({
            let counted = |table: Seq<char>|
                "\n        UNION ALL SELECT '"@ + table + "', count(*) FROM "@ + table;
            COUNTS@ == "\n        SELECT 'accounts' AS table_name, count(*) AS rows FROM accounts"@
                + counted("tweets"@)
                + counted("likes"@)
                + counted("followers"@)
                + counted("following"@)
        }),
{
    reveal_strlit(
        "
        SELECT 'accounts' AS table_name, count(*) AS rows FROM accounts
        UNION ALL SELECT 'tweets', count(*) FROM tweets
        UNION ALL SELECT 'likes', count(*) FROM likes
        UNION ALL SELECT 'followers', count(*) FROM followers
        UNION ALL SELECT 'following', count(*) FROM following",
    );
    reveal_strlit("\n        SELECT 'accounts' AS table_name, count(*) AS rows FROM accounts");
    reveal_strlit("\n        UNION ALL SELECT '");
    reveal_strlit("', count(*) FROM ");
    reveal_strlit("followers");
    reveal_strlit("following");
    reveal_strlit("likes");
    reveal_strlit("tweets");
    let counted = |table: Seq<char>| "\n        UNION ALL SELECT '"@ + table + "', count(*) FROM "@ + table;
    let sql = COUNTS@;
    let s0 = "\n        SELECT 'accounts' AS table_name, count(*) AS rows FROM accounts"@;
    assert(s0 =~= sql.take(72));
    let s1 = s0 + counted("tweets"@);
    assert(s1 =~= sql.take(128));
    let s2 = s1 + counted("likes"@);
    assert(s2 =~= sql.take(182));
    let s3 = s2 + counted("followers"@);
    assert(s3 =~= sql.take(244));
    let s4 = s3 + counted("following"@);
    assert(s4 =~= sql.take(306));
    assert(sql.take(306) =~= sql);
}

/// The columns that are listed are those of the archive's own tables, table by
/// table and in the order of each.
pub proof fn law_columns_of_the_archive_are_listed()
    ensures
        ({
            COLUMNS@ == "\n        SELECT table_name, column_name, data_type"@
                + "\n        FROM information_schema.columns"@
                + "\n        WHERE table_schema = 'main'"@
                + "\n        ORDER BY table_name, ordinal_position"@
        }),
{
    reveal_strlit(
        "
        SELECT table_name, column_name, data_type
        FROM information_schema.columns
        WHERE table_schema = 'main'
        ORDER BY table_name, ordinal_position",
    );
    reveal_strlit("\n        FROM information_schema.columns");
    reveal_strlit("\n        ORDER BY table_name, ordinal_position");
    reveal_strlit("\n        SELECT table_name, column_name, data_type");
    reveal_strlit("\n        WHERE table_schema = 'main'");
    let sql = COLUMNS@;
    let s0 = "\n        SELECT table_name, column_name, data_type"@;
    assert(s0 =~= sql.take(50));
    let s1 = s0 + "\n        FROM information_schema.columns"@;
    assert(s1 =~= sql.take(90));
    let s2 = s1 + "\n        WHERE table_schema = 'main'"@;
    assert(s2 =~= sql.take(126));
    let s3 = s2 + "\n        ORDER BY table_name, ordinal_position"@;
    assert(s3 =~= sql.take(172));
    assert(sql.take(172) =~= sql);
}

} // verus!
