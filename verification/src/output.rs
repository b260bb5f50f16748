//! Rows on their way out.

use crate::cli::Format;
use crate::json::{json_value, parse_json, pretty_json, values_to_pretty_json};
use crate::table::{
    grid, law_one_line_per_record, lemma_line_breaks_add, lemma_no_line_break, line_breaks, table,
    write_table,
};
use crate::text::{lemma_texts_push, texts};
use vstd::prelude::*;

verus! {

/// Why a row could not be written.
#[derive(Debug)]
pub enum QueryError {
    /// The row has no cell where one was expected.
    MissingCell,
    /// The row's text is not JSON.
    Json(serde_json::Error),
}

/// The cells of a row; `None` stands for NULL.
pub type Row = Seq<Option<Seq<char>>>;

/// The texts of the cells of a row.
pub open spec fn row_of(cells: Seq<Option<String>>) -> Row {
    cells.map_values(
        |cell: Option<String>|
            match cell {
                Some(text) => Some(text@),
                None => None,
            },
    )
}

/// A text on one line: a space in place of each line break.
pub open spec fn on_one_line(s: Seq<char>) -> Seq<char> {
    s.map_values(|c: char| if c == '\n' { ' ' } else { c })
}

/// What a table shows for a cell: nothing for NULL.
pub open spec fn shown(cell: Option<Seq<char>>) -> Seq<char> {
    match cell {
        Some(text) => on_one_line(text),
        None => Seq::empty(),
    }
}

/// The first `n` cells of a row, as a table shows them.
pub open spec fn table_record(row: Row, n: nat) -> Seq<Seq<char>> {
    Seq::new(n, |i: int| shown(row[i]))
}

/// Whether a row can be written: a JSON row is one cell of text, which for
/// [`Format::Json`] has to be JSON, and a table row has a cell for each column.
pub open spec fn writable(format: Format, columns: nat, row: Row) -> bool {
    match format {
        Format::Jsonl => row.len() > 0 && row[0] is Some,
        Format::Json => row.len() > 0 && row[0] is Some && json_value(row[0]->0) is Ok,
        Format::Table => row.len() >= columns,
    }
}

/// Why a row that is not writable is refused: text that is not JSON comes with
/// the reason, anything else lacks a cell.
pub open spec fn refusal(format: Format, row: Row) -> QueryError {
    if format == Format::Json && row.len() > 0 && row[0] is Some {
        QueryError::Json(json_value(row[0]->0)->Err_0)
    } else {
        QueryError::MissingCell
    }
}

/// What is written as soon as a row arrives.
pub open spec fn at_once(format: Format, row: Row) -> Seq<char> {
    match format {
        Format::Jsonl => row[0]->0 + "\n"@,
        _ => Seq::empty(),
    }
}

/// The JSON values of rows.
pub open spec fn row_values(rows: Seq<Row>) -> Seq<serde_json::Value> {
    rows.map_values(|row: Row| json_value(row[0]->0)->Ok_0)
}

/// The records of a table's rows.
pub open spec fn row_records(rows: Seq<Row>, columns: nat) -> Seq<Seq<Seq<char>>> {
    rows.map_values(|row: Row| table_record(row, columns))
}

/// What is written after the last row.
pub open spec fn at_the_end(format: Format, columns: Seq<Seq<char>>, rows: Seq<Row>) -> Seq<char> {
    match format {
        Format::Jsonl => Seq::empty(),
        Format::Json => pretty_json(row_values(rows)) + "\n"@,
        Format::Table => table(columns, row_records(rows, columns.len())),
    }
}

/// Puts a text on one line.
pub fn replace_line_breaks(s: &str) -> (r: String)
    ensures
        r@ == on_one_line(s@),
{
    let mut r = String::new();
    for c in it: s.chars()
        invariant
            it.seq() == s@,
            r@ == on_one_line(s@.take(it.index() as int)),
    {
        let shown = if c == '\n' { ' ' } else { c };
        assert(on_one_line(s@.take(it.index() + 1)) =~= on_one_line(
            s@.take(it.index() as int),
        ).push(shown));
        r.push(shown);
    }
    assert(s@.take(s@.len() as int) =~= s@);
    r
}

/// The record that a table shows for a row.
fn to_record(row: &Vec<Option<String>>, columns: usize) -> (r: Vec<String>)
    requires
        columns <= row@.len(),
    ensures
        texts(r@) == table_record(row_of(row@), columns as nat),
{
    let mut r: Vec<String> = Vec::new();
    let ghost all = table_record(row_of(row@), columns as nat);
    let mut i: usize = 0;
    while i < columns
        invariant
            i <= columns <= row@.len(),
            all == table_record(row_of(row@), columns as nat),
            texts(r@) == all.take(i as int),
        decreases columns - i,
    {
        let cell = match &row[i] {
            Some(text) => replace_line_breaks(text.as_str()),
            None => String::new(),
        };
        proof {
            assert(cell@ == all[i as int]);
            lemma_texts_push(r@, cell);
            assert(all.take(i + 1) =~= all.take(i as int).push(cell@));
        }
        r.push(cell);
        i += 1;
    }
    assert(all.take(i as int) =~= all);
    r
}

/// Keeps a record that was read from JSON text, or hands the error on.
pub fn keep_record(
    records: &mut Vec<serde_json::Value>,
    parsed: Result<serde_json::Value, serde_json::Error>,
) -> (r: Result<(), QueryError>)
    ensures
        parsed matches Ok(value) ==> r is Ok && final(records)@ == old(records)@.push(value),
        parsed matches Err(error) ==> r == Err::<(), QueryError>(QueryError::Json(error)),
        parsed is Err ==> final(records)@ == old(records)@,
{
    match parsed {
        Ok(value) => {
            records.push(value);
            Ok(())
        },
        Err(error) => Err(QueryError::Json(error)),
    }
}

/// Rows being written in one format. [`Output::accept`] and
/// [`Output::finish`] hand back the text to write, in order.
pub struct Output {
    format: Format,
    columns: Vec<String>,
    records: Vec<serde_json::Value>,
    cells: Vec<Vec<String>>,
    rows: Ghost<Seq<Row>>,
}

impl Output {
    /// The format that the rows are written in.
    pub closed spec fn format(self) -> Format {
        self.format
    }

    /// The column names.
    pub closed spec fn columns(self) -> Seq<Seq<char>> {
        texts(self.columns@)
    }

    /// The rows accepted so far.
    pub closed spec fn rows(self) -> Seq<Row> {
        self.rows@
    }

    /// What is kept of the rows accepted so far.
    pub closed spec fn wf(self) -> bool {
        &&& self.format == Format::Json ==> self.records@ == row_values(self.rows@)
        &&& self.format == Format::Table ==> grid(self.cells@) == row_records(
            self.rows@,
            self.columns@.len(),
        )
    }

    /// Starts writing rows with the given columns.
    pub fn new(format: Format, columns: Vec<String>) -> (r: Output)
        ensures
            r.wf(),
            r.format() == format,
            r.columns() == texts(columns@),
            r.rows() == Seq::<Row>::empty(),
    {
        let r = Output {
            format,
            columns,
            records: Vec::new(),
            cells: Vec::new(),
            rows: Ghost(Seq::empty()),
        };
        assert(r.records@ =~= row_values(r.rows@));
        assert(grid(r.cells@) =~= row_records(r.rows@, r.columns@.len()));
        r
    }

    /// Takes the next row and returns what to write right away.
    pub fn accept(&mut self, row: Vec<Option<String>>) -> (r: Result<String, QueryError>)
        requires
            old(self).wf(),
        ensures
            final(self).wf(),
            final(self).format() == old(self).format(),
            final(self).columns() == old(self).columns(),
            r is Ok <==> writable(old(self).format(), old(self).columns().len(), row_of(row@)),
            r matches Ok(text) ==> {
                &&& text@ == at_once(old(self).format(), row_of(row@))
                &&& final(self).rows() == old(self).rows().push(row_of(row@))
            },
            r matches Err(error) ==> {
                &&& final(self).rows() == old(self).rows()
                &&& error == refusal(old(self).format(), row_of(row@))
            },
    {
        let ghost new_row = row_of(row@);
        match self.format {
            Format::Jsonl => {
                if row.len() == 0 {
                    return Err(QueryError::MissingCell);
                }
                match &row[0] {
                    Some(json) => {
                        let mut line = json.clone();
                        line.append("\n");
                        self.rows = Ghost(self.rows@.push(new_row));
                        Ok(line)
                    },
                    None => Err(QueryError::MissingCell),
                }
            },
            Format::Json => {
                if row.len() == 0 {
                    return Err(QueryError::MissingCell);
                }
                match &row[0] {
                    Some(json) => {
                        match keep_record(&mut self.records, parse_json(json.as_str())) {
                            Ok(()) => {
                                self.rows = Ghost(self.rows@.push(new_row));
                                assert(self.records@ =~= row_values(self.rows@));
                                Ok(String::new())
                            },
                            Err(error) => Err(error),
                        }
                    },
                    None => Err(QueryError::MissingCell),
                }
            },
            Format::Table => {
                if row.len() < self.columns.len() {
                    return Err(QueryError::MissingCell);
                }
                let record = to_record(&row, self.columns.len());
                proof {
                    let n = self.columns@.len();
                    assert(grid(self.cells@.push(record)) =~= grid(self.cells@).push(texts(record@)));
                    assert(row_records(self.rows@.push(new_row), n) =~= row_records(
                        self.rows@,
                        n,
                    ).push(table_record(new_row, n)));
                }
                self.cells.push(record);
                self.rows = Ghost(self.rows@.push(new_row));
                Ok(String::new())
            },
        }
    }

    /// Returns what to write after the last row.
    pub fn finish(&self) -> (r: String)
        requires
            self.wf(),
        ensures
            r@ == at_the_end(self.format(), self.columns(), self.rows()),
            self.format() == Format::Json && self.rows().len() == 0 ==> r@ == seq!['[', ']', '\n'],
    {
        match self.format {
            Format::Jsonl => String::new(),
            Format::Json => {
                let mut text = values_to_pretty_json(&self.records).unwrap();
                proof {
                    reveal_strlit("\n");
                }
                text.append("\n");
                text
            },
            Format::Table => {
                assert forall|k: int| 0 <= k < self.cells@.len() implies #[trigger] self.cells@[k]@.len()
                    >= self.columns@.len() by {
                    let records = row_records(self.rows@, self.columns@.len());
                    assert(grid(self.cells@).len() == records.len());
                    assert(grid(self.cells@)[k] == texts(self.cells@[k]@));
                    assert(records[k] == table_record(self.rows@[k], self.columns@.len()));
                }
                write_table(&self.columns, &self.cells)
            },
        }
    }
}

/// Everything that is written for rows, one after the other.
pub open spec fn emitted(format: Format, rows: Seq<Row>) -> Seq<char>
    decreases rows.len(),
{
    if rows.len() == 0 {
        Seq::empty()
    } else {
        emitted(format, rows.drop_last()) + at_once(format, rows.last())
    }
}

/// Everything that is written for a query's result.
pub open spec fn written(format: Format, columns: Seq<Seq<char>>, rows: Seq<Row>) -> Seq<char> {
    emitted(format, rows) + at_the_end(format, columns, rows)
}

/// JSON Lines hold one line for each row, as long as no row's text has a line
/// break of its own.
pub proof fn law_one_json_line_per_row(columns: Seq<Seq<char>>, rows: Seq<Row>)
    requires
        forall|i: int|
            0 <= i < rows.len() ==> writable(Format::Jsonl, columns.len(), #[trigger] rows[i])
                && !(rows[i][0]->0).contains('\n'),
    ensures
        line_breaks(written(Format::Jsonl, columns, rows)) == rows.len(),
    decreases rows.len(),
{
    reveal_strlit("\n");
    let text = written(Format::Jsonl, columns, rows);
    assert(text =~= emitted(Format::Jsonl, rows));
    if rows.len() > 0 {
        let front = rows.drop_last();
        assert forall|i: int| 0 <= i < front.len() implies writable(
            Format::Jsonl,
            columns.len(),
            #[trigger] front[i],
        ) && !(front[i][0]->0).contains('\n') by {
            assert(front[i] == rows[i]);
        }
        law_one_json_line_per_row(columns, front);
        assert(written(Format::Jsonl, columns, front) =~= emitted(Format::Jsonl, front));
        let last = rows[rows.len() - 1];
        lemma_no_line_break(last[0]->0);
        lemma_line_breaks_add(last[0]->0, "\n"@);
        lemma_line_breaks_add(emitted(Format::Jsonl, front), at_once(Format::Jsonl, last));
        assert("\n"@.drop_last() =~= Seq::<char>::empty());
        assert(line_breaks("\n"@.drop_last()) == 0);
    }
}

proof fn lemma_emitted_nothing(format: Format, rows: Seq<Row>)
    requires
        format != Format::Jsonl,
    ensures
        emitted(format, rows) == Seq::<char>::empty(),
    decreases rows.len(),
{
    if rows.len() > 0 {
        lemma_emitted_nothing(format, rows.drop_last());
        assert(emitted(format, rows) =~= Seq::<char>::empty());
    }
}

/// A table holds one line for each row below the two of its heading, whatever
/// the cells hold, as long as no column name has a line break.
pub proof fn law_one_table_line_per_row(columns: Seq<Seq<char>>, rows: Seq<Row>)
    requires
        forall|i: int| 0 <= i < columns.len() ==> !(#[trigger] columns[i]).contains('\n'),
    ensures
        line_breaks(written(Format::Table, columns, rows)) == rows.len() + 2,
{
    lemma_emitted_nothing(Format::Table, rows);
    let records = row_records(rows, columns.len());
    assert(written(Format::Table, columns, rows) =~= table(columns, records));
    assert forall|k: int| 0 <= k < records.len() implies columns.len() <= (
    #[trigger] records[k]).len() && forall|i: int|
        0 <= i < columns.len() ==> !(#[trigger] records[k][i]).contains('\n') by {
        assert(records[k] == table_record(rows[k], columns.len()));
    }
    law_one_line_per_record(columns, records);
}

/// A row has its cells in their places: a text where there is one, and NULL
/// where there is none.
pub proof fn law_cells_are_taken_as_they_are(cells: Seq<Option<String>>)
    ensures
        row_of(cells).len() == cells.len(),
        forall|i: int|
            0 <= i < cells.len() ==> match #[trigger] cells[i] {
                Some(text) => row_of(cells)[i] == Some(text@),
                None => row_of(cells)[i] is None,
            },
{
}

/// Only line breaks change when a text is put on one line, and each becomes a
/// space.
pub proof fn law_only_line_breaks_change(s: Seq<char>)
    ensures
        on_one_line(s).len() == s.len(),
        forall|i: int|
            0 <= i < s.len() ==> on_one_line(s)[i] == if #[trigger] s[i] == '\n' {
                ' '
            } else {
                s[i]
            },
{
}

/// A row is refused for lack of a cell, or for text that is not JSON where JSON
/// is asked for, and for nothing else.
pub proof fn law_rows_are_refused_for_a_reason(columns: nat, row: Row)
    ensures
        writable(Format::Jsonl, columns, row) <==> row.len() > 0 && row[0] is Some,
        writable(Format::Json, columns, row) <==> row.len() > 0 && (row[0] matches Some(text)
            && json_value(text) is Ok),
        writable(Format::Table, columns, row) <==> columns <= row.len(),
        refusal(Format::Jsonl, row) == QueryError::MissingCell,
        refusal(Format::Table, row) == QueryError::MissingCell,
        row.len() == 0 || row[0] is None ==> refusal(Format::Json, row) == QueryError::MissingCell,
        row.len() > 0 ==> (row[0] matches Some(text) ==> (json_value(text) matches Err(error)
            ==> refusal(Format::Json, row) == QueryError::Json(error))),
{
}

/// JSON Lines are the rows' texts, each on its line and written as soon as it
/// is there: a further row adds its line and changes nothing before it.
pub proof fn law_json_lines_are_the_rows(columns: Seq<Seq<char>>, rows: Seq<Row>, row: Row, json: Seq<char>)
    requires
        row.len() > 0,
        row[0] == Some(json),
    ensures
        written(Format::Jsonl, columns, Seq::empty()) == Seq::<char>::empty(),
        written(Format::Jsonl, columns, rows.push(row)) == written(Format::Jsonl, columns, rows)
            + json + "\n"@,
        at_once(Format::Jsonl, row) == json + "\n"@,
        at_the_end(Format::Jsonl, columns, rows) == Seq::<char>::empty(),
{
    assert(rows.push(row).drop_last() =~= rows);
    assert(written(Format::Jsonl, columns, Seq::empty()) =~= Seq::<char>::empty());
    assert(written(Format::Jsonl, columns, rows.push(row)) =~= written(Format::Jsonl, columns, rows)
        + json + "\n"@);
}

/// JSON output is one array of all rows' values in their order, and a line
/// break. Nothing is written before the last row is there.
pub proof fn law_json_holds_every_row(
    columns: Seq<Seq<char>>,
    rows: Seq<Row>,
    values: Seq<serde_json::Value>,
)
    requires
        values.len() == rows.len(),
        forall|i: int|
            0 <= i < rows.len() ==> (#[trigger] rows[i]).len() > 0 && (rows[i][0] matches Some(text)
                && json_value(text) == Ok::<serde_json::Value, serde_json::Error>(values[i])),
    ensures
        written(Format::Json, columns, rows) == pretty_json(values) + "\n"@,
        forall|i: int|
            0 <= i < rows.len() ==> at_once(Format::Json, #[trigger] rows[i]) == Seq::<char>::empty(),
{
    lemma_emitted_nothing(Format::Json, rows);
    assert forall|i: int| 0 <= i < rows.len() implies row_values(rows)[i] == values[i] by {
        assert(rows[i].len() > 0);
    }
    assert(row_values(rows) =~= values);
    assert(written(Format::Json, columns, rows) =~= pretty_json(values) + "\n"@);
}

/// A table shows the cells of every row in their order, as many as there are
/// columns: a text on one line, nothing for NULL.
pub proof fn law_table_holds_every_cell(
    columns: Seq<Seq<char>>,
    rows: Seq<Row>,
    cells: Seq<Seq<Seq<char>>>,
)
    requires
        cells.len() == rows.len(),
        forall|k: int| 0 <= k < rows.len() ==> (#[trigger] cells[k]).len() == columns.len(),
        forall|k: int, i: int|
            0 <= k < rows.len() && 0 <= i < columns.len() ==> #[trigger] cells[k][i]
                == match rows[k][i] {
                Some(text) => on_one_line(text),
                None => Seq::empty(),
            },
    ensures
        written(Format::Table, columns, rows) == table(columns, cells),
{
    lemma_emitted_nothing(Format::Table, rows);
    let records = row_records(rows, columns.len());
    assert forall|k: int| 0 <= k < rows.len() implies records[k] == cells[k] by {
        assert(cells[k].len() == columns.len());
        assert forall|i: int| 0 <= i < columns.len() implies records[k][i] == cells[k][i] by {}
        assert(records[k] =~= cells[k]);
    }
    assert(records =~= cells);
    assert(written(Format::Table, columns, rows) =~= table(columns, cells));
}

} // verus!
