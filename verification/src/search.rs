//! Searches over tweets and likes.

use crate::cli::{Search, SearchArgs};
use crate::number::{decimal, write_decimal};
use crate::query::{run_query, wrapped, Statement};
use crate::text::{join, join_strings, texts, trim_leading, without_leading};
use vstd::prelude::*;

verus! {

/// The tweet query up to its condition.
pub const TWEETS: &'static str =
    "SELECT t.id, a.username, t.created_at, t.text, t.in_reply_to_screen_name,
                t.favorite_count, t.retweet_count, t.urls, t.media_urls, t.deleted
         FROM tweets t JOIN accounts a USING (account_id)
         WHERE ";

/// The like query up to its condition.
pub const LIKES: &'static str =
    "SELECT l.tweet_id, a.username, l.text, l.url
         FROM likes l JOIN accounts a USING (account_id)
         WHERE ";

/// One condition that a search puts on its rows.
pub enum Filter {
    /// The text holds this keyword.
    Keyword(Seq<char>),
    /// The row belongs to the account with this username.
    Account(Seq<char>),
    /// The tweet is from this day or a later one.
    Since(Seq<char>),
    /// The tweet is from this day or an earlier one.
    Until(Seq<char>),
    /// The tweet mentions this screen name.
    Mentions(Seq<char>),
    /// The tweet replies to this screen name.
    ReplyTo(Seq<char>),
    /// The tweet has media attached.
    HasMedia,
    /// The tweet contains a link.
    HasUrl,
    /// The tweet is not a retweet.
    NotRetweet,
    /// The tweet is deleted.
    Deleted,
    /// The tweet is not deleted.
    NotDeleted,
}

/// `keyword` as a pattern that matches `keyword` itself: a backslash stands
/// before each character that a pattern would otherwise read as a wildcard,
/// and before each backslash.
pub open spec fn literal(keyword: Seq<char>) -> Seq<char>
    decreases keyword.len(),
{
    if keyword.len() == 0 {
        Seq::empty()
    } else {
        let c = keyword.last();
        let rest = literal(keyword.drop_last());
        if c == '%' || c == '_' || c == '\\' {
            rest.push('\\').push(c)
        } else {
            rest.push(c)
        }
    }
}

impl Filter {
    /// The SQL condition, over likes or over tweets.
    pub open spec fn condition(self, likes: bool) -> Seq<char> {
        match self {
            Filter::Keyword(_) => if likes {
                "l.text ILIKE '%' || ? || '%' ESCAPE '\\'"@
            } else {
                "t.text ILIKE '%' || ? || '%' ESCAPE '\\'"@
            },
            Filter::Account(_) => "a.username = ?"@,
            Filter::Since(_) => "t.created_at >= ?::TIMESTAMP"@,
            Filter::Until(_) => "t.created_at < ?::TIMESTAMP + INTERVAL 1 DAY"@,
            Filter::Mentions(_) => "list_contains(t.mentions, ?)"@,
            Filter::ReplyTo(_) => "t.in_reply_to_screen_name = ?"@,
            Filter::HasMedia => "len(t.media_urls) > 0"@,
            Filter::HasUrl => "len(t.urls) > 0"@,
            Filter::NotRetweet => "t.text NOT LIKE 'RT @%'"@,
            Filter::Deleted => "t.deleted"@,
            Filter::NotDeleted => "NOT t.deleted"@,
        }
    }

    /// The values for the condition's placeholders.
    pub open spec fn bound(self) -> Seq<Seq<char>> {
        match self {
            Filter::Keyword(keyword) => seq![literal(keyword)],
            Filter::Account(name) => seq![name],
            Filter::Since(day) => seq![day],
            Filter::Until(day) => seq![day],
            Filter::Mentions(name) => seq![name],
            Filter::ReplyTo(name) => seq![name],
            _ => Seq::empty(),
        }
    }
}

/// Escapes the wildcards of a keyword.
pub fn escape_keyword(keyword: &str) -> (r: String)
    ensures
        r@ == literal(keyword@),
{
    let mut r = String::new();
    for c in it: keyword.chars()
        invariant
            it.seq() == keyword@,
            r@ == literal(keyword@.take(it.index() as int)),
    {
        assert(keyword@.take(it.index() + 1).drop_last() == keyword@.take(it.index() as int));
        if c == '%' || c == '_' || c == '\\' {
            r.push('\\');
        }
        r.push(c);
    }
    assert(keyword@.take(keyword@.len() as int) == keyword@);
    r
}

/// All conditions together; without any, every row qualifies.
pub open spec fn conjunction(conditions: Seq<Seq<char>>) -> Seq<char> {
    if conditions.len() == 0 {
        "TRUE"@
    } else {
        join(conditions, " AND "@)
    }
}

/// Joins the conditions of a search into one.
pub fn where_clause(conditions: &[String]) -> (r: String)
    ensures
        r@ == conjunction(texts(conditions@)),
{
    if conditions.len() == 0 {
        "TRUE".to_string()
    } else {
        join_strings(conditions, " AND ")
    }
}

/// The filter for a switch that is on.
pub open spec fn switched(on: bool, filter: Filter) -> Seq<Filter> {
    if on {
        seq![filter]
    } else {
        Seq::empty()
    }
}

/// One filter for each keyword.
pub open spec fn keyword_filters(search: Search) -> Seq<Filter> {
    search.keywords.map_values(|keyword: Seq<char>| Filter::Keyword(keyword))
}

/// The filter for a username, which may be written with an `@` before it.
pub open spec fn account_filter(search: Search) -> Seq<Filter> {
    match search.account {
        Some(name) => seq![Filter::Account(without_leading(name, '@'))],
        None => Seq::empty(),
    }
}

/// The filter for the first day of a search.
pub open spec fn since_filter(search: Search) -> Seq<Filter> {
    match search.since {
        Some(day) => seq![Filter::Since(day)],
        None => Seq::empty(),
    }
}

/// The filter for the last day of a search.
pub open spec fn until_filter(search: Search) -> Seq<Filter> {
    match search.until {
        Some(day) => seq![Filter::Until(day)],
        None => Seq::empty(),
    }
}

/// The filter for a mentioned screen name, with or without an `@`.
pub open spec fn mentions_filter(search: Search) -> Seq<Filter> {
    match search.mentions {
        Some(name) => seq![Filter::Mentions(without_leading(name, '@'))],
        None => Seq::empty(),
    }
}

/// The filter for a screen name that was replied to, with or without an `@`.
pub open spec fn reply_filter(search: Search) -> Seq<Filter> {
    match search.reply_to {
        Some(name) => seq![Filter::ReplyTo(without_leading(name, '@'))],
        None => Seq::empty(),
    }
}

/// The filters that tweets and likes share.
pub open spec fn common_filters(search: Search) -> Seq<Filter> {
    keyword_filters(search) + account_filter(search)
}

/// The filters of a search, in the order of their conditions. A search over
/// tweets leaves deleted tweets out unless they are asked for.
pub open spec fn filters(search: Search) -> Seq<Filter> {
    if search.likes {
        common_filters(search)
    } else {
        common_filters(search) + since_filter(search) + until_filter(search) + mentions_filter(
            search,
        ) + reply_filter(search) + switched(search.has_media, Filter::HasMedia) + switched(
            search.has_url,
            Filter::HasUrl,
        ) + switched(search.no_retweets, Filter::NotRetweet) + switched(
            search.only_deleted,
            Filter::Deleted,
        ) + switched(!search.only_deleted && !search.include_deleted, Filter::NotDeleted)
    }
}

/// The conditions of the filters, in order.
pub open spec fn conditions(filters: Seq<Filter>, likes: bool) -> Seq<Seq<char>> {
    filters.map_values(|filter: Filter| filter.condition(likes))
}

/// The values that the filters bind, in order.
pub open spec fn bindings(filters: Seq<Filter>) -> Seq<Seq<char>>
    decreases filters.len(),
{
    if filters.len() == 0 {
        Seq::empty()
    } else {
        bindings(filters.drop_last()) + filters.last().bound()
    }
}

/// The direction of an ordering.
pub open spec fn direction(oldest_first: bool) -> Seq<char> {
    if oldest_first {
        "ASC"@
    } else {
        "DESC"@
    }
}

/// The query of a search: tweets ordered by time, likes by the number that
/// their tweet's ID is.
pub open spec fn search_sql(search: Search) -> Seq<char> {
    let condition = conjunction(conditions(filters(search), search.likes));
    if search.likes {
        LIKES@ + condition + "\n         ORDER BY try_cast(l.tweet_id AS UBIGINT) "@ + direction(
            search.oldest_first,
        ) + " NULLS LAST\n         LIMIT "@ + decimal(search.limit)
    } else {
        TWEETS@ + condition + "\n         ORDER BY t.created_at "@ + direction(search.oldest_first)
            + "\n         LIMIT "@ + decimal(search.limit)
    }
}

/// Conditions under construction, with the values that they bind.
struct Clauses {
    conditions: Vec<String>,
    params: Vec<String>,
}

impl Clauses {
    /// The conditions and values are those of `filters`.
    spec fn hold(self, filters: Seq<Filter>, likes: bool) -> bool {
        &&& texts(self.conditions@) == conditions(filters, likes)
        &&& texts(self.params@) == bindings(filters)
    }

    /// Adds a condition without a placeholder, if it is switched on.
    fn switch(
        &mut self,
        on: bool,
        condition: &str,
        Ghost(filters): Ghost<Seq<Filter>>,
        Ghost(filter): Ghost<Filter>,
        Ghost(likes): Ghost<bool>,
    )
        requires
            old(self).hold(filters, likes),
            condition@ == filter.condition(likes),
            filter.bound() == Seq::<Seq<char>>::empty(),
        ensures
            final(self).hold(filters + switched(on, filter), likes),
    {
        if on {
            self.conditions.push(condition.to_string());
            proof {
                lemma_filter_added(filters, filter, likes);
                assert(filters + switched(on, filter) =~= filters.push(filter));
                assert(texts(self.conditions@) =~= conditions(filters, likes).push(condition@));
                assert(bindings(filters) + filter.bound() =~= bindings(filters));
            }
        } else {
            assert(filters + switched(on, filter) =~= filters);
        }
    }

    /// Adds a condition with one placeholder, if there is a value for it.
    fn bind(
        &mut self,
        condition: &str,
        value: Option<String>,
        Ghost(filters): Ghost<Seq<Filter>>,
        Ghost(added): Ghost<Seq<Filter>>,
        Ghost(likes): Ghost<bool>,
    )
        requires
            old(self).hold(filters, likes),
            value is None ==> added.len() == 0,
            value matches Some(text) ==> added.len() == 1 && added[0].condition(likes) == condition@
                && added[0].bound() == seq![text@],
        ensures
            final(self).hold(filters + added, likes),
    {
        if let Some(value) = value {
            self.conditions.push(condition.to_string());
            self.params.push(value);
            proof {
                lemma_filter_added(filters, added[0], likes);
                assert(filters + added =~= filters.push(added[0]));
                assert(texts(self.conditions@) =~= conditions(filters, likes).push(condition@));
                assert(texts(self.params@) =~= bindings(filters) + added[0].bound());
            }
        } else {
            assert(filters + added =~= filters);
        }
    }
}

proof fn lemma_filter_added(filters: Seq<Filter>, filter: Filter, likes: bool)
    ensures
        conditions(filters.push(filter), likes) == conditions(filters, likes).push(
            filter.condition(likes),
        ),
        bindings(filters.push(filter)) == bindings(filters) + filter.bound(),
{
    assert(filters.push(filter).drop_last() =~= filters);
    assert(conditions(filters.push(filter), likes) =~= conditions(filters, likes).push(
        filter.condition(likes),
    ));
}

/// Removes the `@` that a screen name may be written with.
fn screen_name(name: &Option<String>) -> (r: Option<String>)
    ensures
        r is Some <==> name is Some,
        r matches Some(r) ==> r@ == without_leading(name->0@, '@'),
{
    match name {
        Some(name) => Some(trim_leading(name.as_str(), '@')),
        None => None,
    }
}

/// The conditions that tweets and likes share.
fn common_clauses(args: &SearchArgs) -> (r: Clauses)
    ensures
        r.hold(common_filters(args@), args.likes),
{
    let likes = args.likes;
    let mut clauses = Clauses { conditions: Vec::new(), params: Vec::new() };
    let condition = if likes {
        "l.text ILIKE '%' || ? || '%' ESCAPE '\\'"
    } else {
        "t.text ILIKE '%' || ? || '%' ESCAPE '\\'"
    };
    let ghost keywords = keyword_filters(args@);
    assert(texts(clauses.conditions@) =~= conditions(keywords.take(0), likes));
    assert(texts(clauses.params@) =~= bindings(keywords.take(0)));
    let mut i: usize = 0;
    while i < args.keywords.len()
        invariant
            likes == args.likes,
            i <= args.keywords@.len(),
            keywords == keyword_filters(args@),
            clauses.hold(keywords.take(i as int), likes),
            condition@ == Filter::Keyword(Seq::empty()).condition(likes),
        decreases args.keywords@.len() - i,
    {
        let keyword = escape_keyword(args.keywords[i].as_str());
        let ghost added = seq![keywords[i as int]];
        clauses.bind(condition, Some(keyword), Ghost(keywords.take(i as int)), Ghost(added), Ghost(likes));
        assert(keywords.take(i + 1) =~= keywords.take(i as int) + added);
        i += 1;
    }
    assert(keywords.take(i as int) =~= keywords);
    clauses.bind(
        "a.username = ?",
        screen_name(&args.account),
        Ghost(keywords),
        Ghost(account_filter(args@)),
        Ghost(likes),
    );
    clauses
}

/// The statement of a search.
pub fn run(args: &SearchArgs) -> (r: Statement)
    ensures
        r.sql@ == wrapped(args.format, search_sql(args@), None),
        texts(r.params@) == bindings(filters(args@)),
{
    let mut clauses = common_clauses(args);
    if args.likes {
        return search_likes(args, clauses.conditions, clauses.params);
    }
    let ghost search = args@;
    let ghost done0 = common_filters(search);
    let ghost done1 = done0 + since_filter(search);
    let ghost done2 = done1 + until_filter(search);
    let ghost done3 = done2 + mentions_filter(search);
    let ghost done4 = done3 + reply_filter(search);
    let ghost done5 = done4 + switched(search.has_media, Filter::HasMedia);
    let ghost done6 = done5 + switched(search.has_url, Filter::HasUrl);
    let ghost done7 = done6 + switched(search.no_retweets, Filter::NotRetweet);
    let ghost done8 = done7 + switched(search.only_deleted, Filter::Deleted);
    clauses.bind(
        "t.created_at >= ?::TIMESTAMP",
        args.since.clone(),
        Ghost(done0),
        Ghost(since_filter(search)),
        Ghost(false),
    );
    // Inclusive of the whole end day when a bare date is given.
    clauses.bind(
        "t.created_at < ?::TIMESTAMP + INTERVAL 1 DAY",
        args.until.clone(),
        Ghost(done1),
        Ghost(until_filter(search)),
        Ghost(false),
    );
    clauses.bind(
        "list_contains(t.mentions, ?)",
        screen_name(&args.mentions),
        Ghost(done2),
        Ghost(mentions_filter(search)),
        Ghost(false),
    );
    clauses.bind(
        "t.in_reply_to_screen_name = ?",
        screen_name(&args.reply_to),
        Ghost(done3),
        Ghost(reply_filter(search)),
        Ghost(false),
    );
    clauses.switch(
        args.has_media,
        "len(t.media_urls) > 0",
        Ghost(done4),
        Ghost(Filter::HasMedia),
        Ghost(false),
    );
    clauses.switch(
        args.has_url,
        "len(t.urls) > 0",
        Ghost(done5),
        Ghost(Filter::HasUrl),
        Ghost(false),
    );
    clauses.switch(
        args.no_retweets,
        "t.text NOT LIKE 'RT @%'",
        Ghost(done6),
        Ghost(Filter::NotRetweet),
        Ghost(false),
    );
    clauses.switch(
        args.only_deleted,
        "t.deleted",
        Ghost(done7),
        Ghost(Filter::Deleted),
        Ghost(false),
    );
    clauses.switch(
        !args.only_deleted && !args.include_deleted,
        "NOT t.deleted",
        Ghost(done8),
        Ghost(Filter::NotDeleted),
        Ghost(false),
    );
    assert(clauses.hold(filters(search), false));

    let mut sql = TWEETS.to_string();
    sql.append(where_clause(clauses.conditions.as_slice()).as_str());
    sql.append("\n         ORDER BY t.created_at ");
    sql.append(if args.oldest_first { "ASC" } else { "DESC" });
    sql.append("\n         LIMIT ");
    sql.append(write_decimal(args.limit).as_str());
    run_query(args.format, sql.as_str(), clauses.params, None)
}

/// The statement of a search over likes. Likes carry no timestamp; tweet IDs
/// are snowflakes, so their numeric value approximates recency.
fn search_likes(args: &SearchArgs, conditions: Vec<String>, params: Vec<String>) -> (r: Statement)
    requires
        args.likes,
        texts(conditions@) == self::conditions(filters(args@), true),
    ensures
        r.sql@ == wrapped(args.format, search_sql(args@), None),
        r.params == params,
{
    let mut sql = LIKES.to_string();
    sql.append(where_clause(conditions.as_slice()).as_str());
    sql.append("\n         ORDER BY try_cast(l.tweet_id AS UBIGINT) ");
    sql.append(if args.oldest_first { "ASC" } else { "DESC" });
    sql.append(" NULLS LAST\n         LIMIT ");
    sql.append(write_decimal(args.limit).as_str());
    run_query(args.format, sql.as_str(), params, None)
}

} // verus!
