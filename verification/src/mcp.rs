//! The tools that the MCP server offers.

use crate::cli::{optional_text, Format, Search, SearchArgs, QUERY_LIMIT, SEARCH_LIMIT};
use crate::number::{is_number, value};
use crate::query::{cap_rows, print_schema, row_cap, run_query, wrapped, Statement, COLUMNS, COUNTS};
use crate::search::{bindings, filters, run, search_sql};
use crate::text::texts;
use vstd::prelude::*;

verus! {

/// What the server tells a client about itself.
pub const INSTRUCTIONS: &'static str =
    "Searches X (Twitter) archives imported into a local DuckDB database. \
             The database is opened read-only. Use search_tweets or search_likes \
             for keyword search; for anything else, call schema to see the tables \
             (accounts, tweets, likes, followers, following) and run SQL with query.";

/// A call of the tool that searches tweets.
#[derive(Debug)]
pub struct SearchTweetsParams {
    /// Keywords: all of them have to occur, as substrings, in either case.
    pub keywords: Vec<String>,
    /// Only tweets of the account with this username.
    pub account: Option<String>,
    /// Only tweets on or after this date.
    pub since: Option<String>,
    /// Only tweets on or before this date.
    pub until: Option<String>,
    /// Only tweets mentioning this screen name.
    pub mentions: Option<String>,
    /// Only replies to this screen name.
    pub reply_to: Option<String>,
    /// Only tweets with attached media.
    pub has_media: bool,
    /// Only tweets containing a link.
    pub has_url: bool,
    /// Exclude retweets.
    pub no_retweets: bool,
    /// Include deleted tweets.
    pub include_deleted: bool,
    /// Show only deleted tweets.
    pub only_deleted: bool,
    /// Oldest first; otherwise newest first.
    pub oldest_first: bool,
    /// The largest number of rows to return.
    pub limit: Option<usize>,
}

/// A call of the tool that searches likes.
#[derive(Debug)]
pub struct SearchLikesParams {
    /// Keywords, matched against the liked tweet's text.
    pub keywords: Vec<String>,
    /// Only likes of the account with this username.
    pub account: Option<String>,
    /// Oldest first; otherwise newest first.
    pub oldest_first: bool,
    /// The largest number of rows to return.
    pub limit: Option<usize>,
}

/// A call of the tool that runs SQL.
#[derive(Debug)]
pub struct QueryParams {
    /// The query.
    pub sql: String,
    /// The largest number of rows to return; zero lifts the cap.
    pub limit: Option<usize>,
}

/// The limit that was given, or the usual one.
pub open spec fn limit_or(limit: Option<usize>, usual: usize) -> usize {
    match limit {
        Some(n) => n,
        None => usual,
    }
}

/// The limit that was given, or the usual one.
fn given_limit(limit: Option<usize>, usual: usize) -> (r: usize)
    ensures
        r == limit_or(limit, usual),
{
    match limit {
        Some(n) => n,
        None => usual,
    }
}

impl SearchTweetsParams {
    /// The search that a call asks for.
    pub open spec fn search(self) -> Search {
        Search {
            keywords: texts(self.keywords@),
            account: optional_text(self.account),
            likes: false,
            since: optional_text(self.since),
            until: optional_text(self.until),
            mentions: optional_text(self.mentions),
            reply_to: optional_text(self.reply_to),
            has_media: self.has_media,
            has_url: self.has_url,
            no_retweets: self.no_retweets,
            include_deleted: self.include_deleted,
            only_deleted: self.only_deleted,
            oldest_first: self.oldest_first,
            limit: limit_or(self.limit, SEARCH_LIMIT) as nat,
            format: Format::Jsonl,
        }
    }

    /// The search that a call asks for.
    pub fn into_args(self) -> (r: SearchArgs)
        ensures
            r@ == self.search(),
    {
        SearchArgs {
            keywords: self.keywords,
            account: self.account,
            likes: false,
            since: self.since,
            until: self.until,
            mentions: self.mentions,
            reply_to: self.reply_to,
            has_media: self.has_media,
            has_url: self.has_url,
            no_retweets: self.no_retweets,
            include_deleted: self.include_deleted,
            only_deleted: self.only_deleted,
            oldest_first: self.oldest_first,
            limit: given_limit(self.limit, SEARCH_LIMIT),
            format: Format::Jsonl,
        }
    }
}

impl SearchLikesParams {
    /// The search that a call asks for.
    pub open spec fn search(self) -> Search {
        Search {
            keywords: texts(self.keywords@),
            account: optional_text(self.account),
            likes: true,
            since: None,
            until: None,
            mentions: None,
            reply_to: None,
            has_media: false,
            has_url: false,
            no_retweets: false,
            include_deleted: false,
            only_deleted: false,
            oldest_first: self.oldest_first,
            limit: limit_or(self.limit, SEARCH_LIMIT) as nat,
            format: Format::Jsonl,
        }
    }

    /// The search that a call asks for.
    pub fn into_args(self) -> (r: SearchArgs)
        ensures
            r@ == self.search(),
    {
        SearchArgs {
            keywords: self.keywords,
            account: self.account,
            likes: true,
            since: None,
            until: None,
            mentions: None,
            reply_to: None,
            has_media: false,
            has_url: false,
            no_retweets: false,
            include_deleted: false,
            only_deleted: false,
            oldest_first: self.oldest_first,
            limit: given_limit(self.limit, SEARCH_LIMIT),
            format: Format::Jsonl,
        }
    }
}

/// The statement for a search of archived tweets.
pub fn search_tweets(params: SearchTweetsParams) -> (r: Statement)
    ensures
        r.sql@ == wrapped(Format::Jsonl, search_sql(params.search()), None),
        texts(r.params@) == bindings(filters(params.search())),
{
    run(&params.into_args())
}

/// The statement for a search of liked tweets.
pub fn search_likes(params: SearchLikesParams) -> (r: Statement)
    ensures
        r.sql@ == wrapped(Format::Jsonl, search_sql(params.search()), None),
        texts(r.params@) == bindings(filters(params.search())),
{
    run(&params.into_args())
}

/// The statement for a read-only SQL query.
pub fn query(params: QueryParams) -> (r: Statement)
    ensures
        r.sql@ == wrapped(
            Format::Jsonl,
            params.sql@,
            row_cap(limit_or(params.limit, QUERY_LIMIT)),
        ),
        r.params@.len() == 0,
{
    let limit = given_limit(params.limit, QUERY_LIMIT);
    run_query(Format::Jsonl, params.sql.as_str(), Vec::new(), cap_rows(limit))
}

/// The statements that show what there is to query.
pub fn schema() -> (r: Vec<Statement>)
    ensures
        r@.len() == 2,
        r@[0].sql@ == wrapped(Format::Jsonl, COLUMNS@, None),
        r@[1].sql@ == wrapped(Format::Jsonl, COUNTS@, None),
        r@[0].params@.len() == 0,
        r@[1].params@.len() == 0,
{
    print_schema(Format::Jsonl)
}

/// What a tool call answers.
#[derive(Debug)]
pub struct ToolReply {
    pub text: String,
    pub is_error: bool,
}

/// Turns the outcome of a tool call into its answer. A failure (bad SQL, say)
/// is answered as a tool-level error, so that the calling model sees the
/// message instead of an opaque protocol error.
pub fn call(outcome: Result<String, String>) -> (r: ToolReply)
    ensures
        r.is_error <==> outcome is Err,
        r.text@ == match outcome {
            Ok(text) => text@,
            Err(message) => message@,
        },
{
    match outcome {
        Ok(text) => ToolReply { text, is_error: false },
        Err(message) => ToolReply { text: message, is_error: true },
    }
}

/// Asking for likes through the server is the search over likes of the command
/// line: none of the options on tweets has a part in it.
pub proof fn law_like_tool_searches_likes(params: SearchLikesParams, search: Search)
    requires
        search.likes,
        search.keywords == texts(params.keywords@),
        search.account == optional_text(params.account),
        search.oldest_first == params.oldest_first,
        search.limit == limit_or(params.limit, SEARCH_LIMIT),
    ensures
        search_sql(search) == search_sql(params.search()),
        bindings(filters(search)) == bindings(filters(params.search())),
{
    crate::search_laws::law_likes_ignore_tweet_options(search, params.search());
}

/// Asking for tweets through the server is the search over tweets of the
/// command line with the same options, each of them taken as it is given, and
/// with twenty rows unless the call says otherwise.
pub proof fn law_tweet_tool_searches_tweets(params: SearchTweetsParams, args: SearchArgs)
    requires
        !args.likes,
        args.keywords == params.keywords,
        args.account == params.account,
        args.since == params.since,
        args.until == params.until,
        args.mentions == params.mentions,
        args.reply_to == params.reply_to,
        args.has_media == params.has_media,
        args.has_url == params.has_url,
        args.no_retweets == params.no_retweets,
        args.include_deleted == params.include_deleted,
        args.only_deleted == params.only_deleted,
        args.oldest_first == params.oldest_first,
        params.limit matches Some(n) ==> args.limit == n,
        params.limit is None ==> args.limit == 20,
        args.format == Format::Jsonl,
    ensures
        params.search() == args@,
        search_sql(params.search()) == search_sql(args@),
        bindings(filters(params.search())) == bindings(filters(args@)),
        params.search().include_deleted == params.include_deleted,
        params.search().only_deleted == params.only_deleted,
        params.search().has_media == params.has_media,
        params.search().has_url == params.has_url,
        params.search().no_retweets == params.no_retweets,
        params.search().oldest_first == params.oldest_first,
        params.search().limit == args.limit,
{
    assert(params.search() =~= args@);
}

/// Asking for likes through the server is the search over likes of the command
/// line with the same keywords, account and order, and with twenty rows unless
/// the call says otherwise.
pub proof fn law_like_tool_takes_its_options(params: SearchLikesParams, args: SearchArgs)
    requires
        args.likes,
        args.keywords == params.keywords,
        args.account == params.account,
        args.oldest_first == params.oldest_first,
        params.limit matches Some(n) ==> args.limit == n,
        params.limit is None ==> args.limit == 20,
    ensures
        search_sql(params.search()) == search_sql(args@),
        bindings(filters(params.search())) == bindings(filters(args@)),
{
    crate::search_laws::law_likes_ignore_tweet_options(params.search(), args@);
}

/// A query through the server is capped at the limit that the call names, at a
/// hundred rows if it names none, and not at all if it names zero.
pub proof fn law_query_tool_caps_at_the_limit(params: QueryParams, limit: usize)
    requires
        params.limit matches Some(n) ==> limit == n,
        params.limit is None ==> limit == 100,
    ensures
        ({
            let plain = wrapped(Format::Jsonl, params.sql@, None);
            let capped = wrapped(
                Format::Jsonl,
                params.sql@,
                row_cap(limit_or(params.limit, QUERY_LIMIT)),
            );
            &&& limit == 0 ==> capped == plain
            &&& limit > 0 ==> exists|digits: Seq<char>| #[trigger]
                is_number(digits) && value(digits) == limit && capped == plain + " LIMIT "@ + digits
        }),
{
    crate::query::law_rows_are_capped_at_the_limit(Format::Jsonl, params.sql@, limit);
}

} // verus!
