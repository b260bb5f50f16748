use twarq::cli::{plan, Command, Format, Plan};
use twarq::output::{replace_line_breaks, Output, QueryError};
use twarq::query::{cap_rows, print_schema, run_query};
use twarq::table::write_table;

fn strings(values: &[&str]) -> Vec<String> {
    values.iter().map(|v| v.to_string()).collect()
}

fn cells(values: &[Option<&str>]) -> Vec<Option<String>> {
    values.iter().map(|v| v.map(|v| v.to_string())).collect()
}

fn write(format: Format, columns: &[&str], rows: &[Vec<Option<String>>]) -> String {
    let mut output = Output::new(format, strings(columns));
    let mut text = String::new();
    for row in rows {
        text.push_str(&output.accept(row.clone()).unwrap());
    }
    text.push_str(&output.finish());
    text
}

fn read(command: Command) -> (Vec<(String, Vec<String>)>, Format) {
    match plan(command) {
        Plan::Read { statements, format } => (
            statements.into_iter().map(|s| (s.sql, s.params)).collect(),
            format,
        ),
        _ => panic!("not a read"),
    }
}

#[test]
fn query_is_wrapped() {
    let statement = run_query(Format::Jsonl, "  SELECT 1 ;; \n", Vec::new(), None);
    assert_eq!(statement.sql, "SELECT to_json(t)::VARCHAR FROM (SELECT 1 ) t");
    let statement = run_query(Format::Table, "SELECT 1;", Vec::new(), Some(5));
    assert_eq!(
        statement.sql,
        "SELECT COLUMNS(*)::VARCHAR FROM (SELECT 1) t LIMIT 5"
    );
    let statement = run_query(Format::Json, "\u{3000};", strings(&["x"]), None);
    assert_eq!(statement.sql, "SELECT to_json(t)::VARCHAR FROM () t");
    assert_eq!(statement.params, ["x"]);
}

#[test]
fn final_semicolon_is_optional() {
    let sql = |s: &str| run_query(Format::Jsonl, s, Vec::new(), None).sql;
    assert_eq!(sql("SELECT ';'"), "SELECT to_json(t)::VARCHAR FROM (SELECT ';') t");
    assert_eq!(sql("SELECT 1;"), sql("SELECT 1"));
    assert_eq!(sql(";"), sql(""));
    assert_eq!(sql(" ;"), sql(" "));
}

#[test]
fn query_applies_limit_cap() {
    let sql = "SELECT id FROM tweets ORDER BY id";
    let query = |limit: usize| {
        read(Command::Query {
            sql: sql.to_string(),
            limit,
            format: Format::Jsonl,
        })
        .0
    };
    assert_eq!(
        query(100),
        [(
            format!("SELECT to_json(t)::VARCHAR FROM ({sql}) t LIMIT 100"),
            Vec::new()
        )]
    );
    assert_eq!(
        query(1)[0].0,
        format!("SELECT to_json(t)::VARCHAR FROM ({sql}) t LIMIT 1")
    );
    assert_eq!(
        query(0)[0].0,
        format!("SELECT to_json(t)::VARCHAR FROM ({sql}) t")
    );
    assert_eq!(cap_rows(0), None);
    assert_eq!(cap_rows(7), Some(7));
}

#[test]
fn schema_lists_tables() {
    let (statements, format) = read(Command::Schema {
        format: Format::Table,
    });
    assert!(format == Format::Table);
    assert_eq!(statements.len(), 2);
    let output = &statements[1].0;
    for table in ["accounts", "tweets", "likes", "followers", "following"] {
        assert!(output.contains(table), "missing {table} in:\n{output}");
    }
    assert!(statements[0]
        .0
        .starts_with("SELECT COLUMNS(*)::VARCHAR FROM (SELECT table_name, column_name, data_type\n"));
    assert!(statements[0].0.ends_with("ordinal_position) t"));
    assert_eq!(print_schema(Format::Jsonl).len(), 2);
}

#[test]
fn only_import_writes() {
    let import = plan(Command::Import {
        archives: vec![std::path::PathBuf::from("alice.zip")],
        verbose: true,
    });
    assert!(!import.read_only());
    assert!(matches!(
        import,
        Plan::Import { archives, verbose: true } if archives == [std::path::PathBuf::from("alice.zip")]
    ));
    assert!(plan(Command::Mcp { http: None }).read_only());
    let serve = plan(Command::Mcp {
        http: Some("127.0.0.1:8080".to_string()),
    });
    assert!(matches!(serve, Plan::Serve { http: Some(addr) } if addr == "127.0.0.1:8080"));
    assert!(plan(Command::Schema {
        format: Format::Json
    })
    .read_only());
}

#[test]
fn table_format_aligns_columns() {
    let output = write(
        Format::Table,
        &["username"],
        &[cells(&[Some("alice")]), cells(&[Some("bob")])],
    );
    assert_eq!(output, "username\n--------\nalice\nbob\n");
}

#[test]
fn table_columns_are_aligned() {
    let output = write(
        Format::Table,
        &["id", "text", "n"],
        &[
            cells(&[Some("1001"), Some("旅行の\n写真"), Some("2")]),
            cells(&[Some("7"), None, None]),
            cells(&[Some("8"), Some("longer than that"), Some("10")]),
        ],
    );
    assert_eq!(
        output,
        "id    text              n\n\
         ----  ----------------  --\n\
         1001  旅行の 写真            2\n\
         7\n\
         8     longer than that  10\n"
    );
}

#[test]
fn table_without_columns_or_rows() {
    assert_eq!(write_table(&Vec::new(), &Vec::new()), "\n\n");
    assert_eq!(
        write_table(&strings(&["a", "bc"]), &Vec::new()),
        "a  bc\n-  --\n"
    );
    assert_eq!(
        write_table(&strings(&["a"]), &vec![strings(&["x", "left out"])]),
        "a\n-\nx\n"
    );
}

#[test]
fn jsonl_writes_each_row_at_once() {
    let mut output = Output::new(Format::Jsonl, strings(&["t"]));
    assert_eq!(output.accept(cells(&[Some("{\"id\":1}")])).unwrap(), "{\"id\":1}\n");
    // JSON Lines are passed on as DuckDB wrote them.
    assert_eq!(output.accept(cells(&[Some("not json")])).unwrap(), "not json\n");
    assert_eq!(output.finish(), "");
}

#[test]
fn json_is_one_indented_array() {
    let output = write(
        Format::Json,
        &["t"],
        &[
            cells(&[Some("{\"id\":\"1\",\"urls\":[]}")]),
            cells(&[Some("{\"id\":\"2\",\"urls\":[\"a\"]}")]),
        ],
    );
    assert_eq!(
        output,
        "[\n  {\n    \"id\": \"1\",\n    \"urls\": []\n  },\n  {\n    \"id\": \"2\",\n    \"urls\": [\n      \"a\"\n    ]\n  }\n]\n"
    );
    assert_eq!(write(Format::Json, &["t"], &[]), "[]\n");
}

#[test]
fn rows_that_cannot_be_written() {
    let mut output = Output::new(Format::Json, strings(&["t"]));
    assert!(matches!(
        output.accept(cells(&[Some("{\"id\":")])),
        Err(QueryError::Json(_))
    ));
    assert!(matches!(output.accept(cells(&[None])), Err(QueryError::MissingCell)));
    assert!(matches!(output.accept(cells(&[])), Err(QueryError::MissingCell)));
    assert_eq!(output.finish(), "[]\n");

    let mut output = Output::new(Format::Jsonl, strings(&["t"]));
    assert!(matches!(output.accept(cells(&[None])), Err(QueryError::MissingCell)));
    assert!(matches!(output.accept(cells(&[])), Err(QueryError::MissingCell)));

    let mut output = Output::new(Format::Table, strings(&["a", "b"]));
    assert!(matches!(
        output.accept(cells(&[Some("x")])),
        Err(QueryError::MissingCell)
    ));
    assert_eq!(output.finish(), "a  b\n-  -\n");
}

#[test]
fn line_breaks_become_spaces() {
    assert_eq!(replace_line_breaks("a\nb\r\nc\n"), "a b\r c ");
    assert_eq!(replace_line_breaks(""), "");
}

#[test]
fn kept_records_come_out_again() {
    let mut records = Vec::new();
    let value = serde_json::Value::from(3);
    assert!(twarq::output::keep_record(&mut records, Ok(value.clone())).is_ok());
    let error = serde_json::from_str::<serde_json::Value>("{").unwrap_err();
    assert!(matches!(
        twarq::output::keep_record(&mut records, Err(error)),
        Err(QueryError::Json(_))
    ));
    assert_eq!(records, [value]);
}
