//! What the command line asks for.

use crate::query::{cap_rows, print_schema, row_cap, run_query, wrapped, Statement, COLUMNS, COUNTS};
use crate::search::{bindings, filters, run, search_sql};
use crate::text::texts;
use vstd::prelude::*;

verus! {

/// A path of the file system.
#[verifier::external_type_specification]
#[verifier::external_body]
pub struct ExPathBuf(std::path::PathBuf);

/// The DuckDB file that is used when none is named.
pub const DEFAULT_DB: &'static str = "twarq.duckdb";

/// The rows that a search returns when it does not say how many.
pub const SEARCH_LIMIT: usize = 20;

/// The rows that a query returns when it does not say how many.
pub const QUERY_LIMIT: usize = 100;

/// How rows are written out.
#[derive(Clone, Copy, Debug, PartialEq, Eq, Structural)]
pub enum Format {
    /// One JSON object per line.
    Jsonl,
    /// One JSON array of objects, indented.
    Json,
    /// Columns aligned for reading.
    Table,
}

/// A search over tweets or likes.
#[derive(Debug)]
pub struct SearchArgs {
    /// Keywords: all of them have to occur, as substrings, in either case.
    pub keywords: Vec<String>,
    /// Only tweets or likes of the account with this username.
    pub account: Option<String>,
    /// Search likes instead of tweets.
    pub likes: bool,
    /// Only tweets on or after this date.
    pub since: Option<String>,
    /// Only tweets on or before this date.
    pub until: Option<String>,
    /// Only tweets mentioning this screen name.
    pub mentions: Option<String>,
    /// Only replies to this screen name.
    pub reply_to: Option<String>,
    /// Only tweets with attached media.
    pub has_media: bool,
    /// Only tweets containing a link.
    pub has_url: bool,
    /// Exclude retweets.
    pub no_retweets: bool,
    /// Include deleted tweets.
    pub include_deleted: bool,
    /// Show only deleted tweets.
    pub only_deleted: bool,
    /// Oldest first; otherwise newest first.
    pub oldest_first: bool,
    /// The largest number of rows to return.
    pub limit: usize,
    /// How the rows are written out.
    pub format: Format,
}

/// The texts and switches of a [`SearchArgs`].
#[verifier::ext_equal]
pub struct Search {
    pub keywords: Seq<Seq<char>>,
    pub account: Option<Seq<char>>,
    pub likes: bool,
    pub since: Option<Seq<char>>,
    pub until: Option<Seq<char>>,
    pub mentions: Option<Seq<char>>,
    pub reply_to: Option<Seq<char>>,
    pub has_media: bool,
    pub has_url: bool,
    pub no_retweets: bool,
    pub include_deleted: bool,
    pub only_deleted: bool,
    pub oldest_first: bool,
    pub limit: nat,
    pub format: Format,
}

/// The text that an optional string holds.
pub open spec fn optional_text(s: Option<String>) -> Option<Seq<char>> {
    match s {
        Some(s) => Some(s@),
        None => None,
    }
}

impl View for SearchArgs {
    type V = Search;

    open spec fn view(&self) -> Search {
        Search {
            keywords: texts(self.keywords@),
            account: optional_text(self.account),
            likes: self.likes,
            since: optional_text(self.since),
            until: optional_text(self.until),
            mentions: optional_text(self.mentions),
            reply_to: optional_text(self.reply_to),
            has_media: self.has_media,
            has_url: self.has_url,
            no_retweets: self.no_retweets,
            include_deleted: self.include_deleted,
            only_deleted: self.only_deleted,
            oldest_first: self.oldest_first,
            limit: self.limit as nat,
            format: self.format,
        }
    }
}

/// A command line.
#[derive(Debug)]
pub struct Cli {
    /// The DuckDB file.
    pub db: std::path::PathBuf,
    /// What to do with it.
    pub command: Command,
}

/// What the command line asks for.
#[derive(Debug)]
pub enum Command {
    /// Import X archive ZIP files.
    Import {
        /// The archives.
        archives: Vec<std::path::PathBuf>,
        /// Print progress for each file.
        verbose: bool,
    },
    /// Search tweets or likes by keyword and filters.
    Search(SearchArgs),
    /// Run a read-only SQL query.
    Query {
        /// The query.
        sql: String,
        /// The largest number of rows to return; zero lifts the cap.
        limit: usize,
        /// How the rows are written out.
        format: Format,
    },
    /// Serve the archive to MCP clients.
    Mcp {
        /// The address to serve HTTP on; standard input and output without
        /// one.
        http: Option<String>,
    },
    /// Show the tables, columns and row counts.
    Schema {
        /// How the rows are written out.
        format: Format,
    },
}

/// What a command comes down to.
#[derive(Debug)]
pub enum Plan {
    /// Import these archives, one after the other.
    Import { archives: Vec<std::path::PathBuf>, verbose: bool },
    /// Run these statements, and write the rows of each.
    Read { statements: Vec<Statement>, format: Format },
    /// Serve MCP clients, at this address or on standard input and output.
    Serve { http: Option<String> },
}

/// Whether `statement` reads what `sql` asks for, with at most `limit` rows and
/// no values bound.
pub open spec fn reads(statement: Statement, format: Format, sql: Seq<char>, limit: Option<usize>) -> bool {
    statement.sql@ == wrapped(format, sql, limit) && statement.params@.len() == 0
}

/// Whether `plan` is what `command` comes down to.
pub open spec fn planned(command: Command, plan: Plan) -> bool {
    match (command, plan) {
        (Command::Import { archives, verbose }, Plan::Import { archives: a, verbose: v }) => {
            a == archives && v == verbose
        },
        (Command::Search(args), Plan::Read { statements, format }) => {
            &&& format == args.format && statements@.len() == 1
            &&& statements@[0].sql@ == wrapped(format, search_sql(args@), None)
            &&& texts(statements@[0].params@) == bindings(filters(args@))
        },
        (Command::Query { sql, limit, format: f }, Plan::Read { statements, format }) => {
            &&& format == f && statements@.len() == 1
            &&& reads(statements@[0], format, sql@, row_cap(limit))
        },
        (Command::Mcp { http: h }, Plan::Serve { http }) => http == h,
        (Command::Schema { format: f }, Plan::Read { statements, format }) => {
            &&& format == f && statements@.len() == 2
            &&& reads(statements@[0], format, COLUMNS@, None)
            &&& reads(statements@[1], format, COUNTS@, None)
        },
        _ => false,
    }
}

/// Works out what a command comes down to.
pub fn plan(command: Command) -> (r: Plan)
    ensures
        planned(command, r),
{
    match command {
        Command::Import { archives, verbose } => Plan::Import { archives, verbose },
        Command::Search(args) => {
            let mut statements: Vec<Statement> = Vec::new();
            statements.push(run(&args));
            Plan::Read { statements, format: args.format }
        },
        Command::Query { sql, limit, format } => {
            let mut statements: Vec<Statement> = Vec::new();
            statements.push(run_query(format, sql.as_str(), Vec::new(), cap_rows(limit)));
            Plan::Read { statements, format }
        },
        Command::Mcp { http } => Plan::Serve { http },
        Command::Schema { format } => Plan::Read { statements: print_schema(format), format },
    }
}

impl Plan {
    /// Whether the database is opened read-only. Only an import writes to it;
    /// every other command is a reader.
    pub fn read_only(&self) -> (r: bool)
        ensures
            r == !(self is Import),
    {
        match self {
            Plan::Import { .. } => false,
            _ => true,
        }
    }
}

/// Only an import may write to the database.
pub proof fn law_only_import_writes(command: Command, plan: Plan)
    requires
        planned(command, plan),
    ensures
        plan is Import <==> command is Import,
{
}

/// Every command comes down to what it asks for, with its own arguments: an
/// import to its archives, a search to its one statement, a query to its one
/// statement with at most as many rows as its limit, the schema to its two
/// statements, a server to its address.
pub proof fn law_commands_keep_their_arguments(command: Command, plan: Plan)
    requires
        planned(command, plan),
    ensures
        command matches Command::Import { archives, verbose } ==> plan == (Plan::Import {
            archives,
            verbose,
        }),
        command matches Command::Mcp { http } ==> plan == (Plan::Serve { http }),
        command matches Command::Search(args) ==> {
            &&& plan matches Plan::Read { statements, format }
            &&& format == args.format && statements@.len() == 1
            &&& statements@[0].sql@ == wrapped(args.format, search_sql(args@), None)
            &&& texts(statements@[0].params@) == bindings(filters(args@))
        },
        command matches Command::Query { sql, limit, format: asked } ==> {
            &&& plan matches Plan::Read { statements, format }
            &&& format == asked && statements@.len() == 1
            &&& limit == 0 ==> statements@[0].sql@ == wrapped(asked, sql@, None)
            &&& limit > 0 ==> statements@[0].sql@ == wrapped(asked, sql@, Some(limit))
            &&& statements@[0].params@.len() == 0
        },
        command matches Command::Schema { format: asked } ==> {
            &&& plan matches Plan::Read { statements, format }
            &&& format == asked && statements@.len() == 2
            &&& statements@[0].sql@ == wrapped(asked, COLUMNS@, None)
            &&& statements@[1].sql@ == wrapped(asked, COUNTS@, None)
            &&& statements@[0].params@.len() == 0
            &&& statements@[1].params@.len() == 0
        },
{
}

/// An optional text is there exactly when it was given, and is the one given.
pub proof fn law_optional_texts_are_kept(s: Option<String>)
    ensures
        s is None ==> optional_text(s) is None,
        s matches Some(text) ==> optional_text(s) == Some(text@),
{
}

/// What is used where the command line names nothing: the database file, and
/// the rows of a search and of a query.
pub proof fn law_defaults()
    ensures
        DEFAULT_DB@ == "twarq.duckdb"@,
        SEARCH_LIMIT == 20,
        QUERY_LIMIT == 100,
{
}

} // verus!
