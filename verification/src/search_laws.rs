//! What holds of every search.

use crate::cli::{Format, Search, SearchArgs};
use crate::number::{
    decimal, is_digit, is_number, law_decimal_tells_numbers_apart, lemma_decimal_is_number, value,
};
use crate::query::{bare, cap, projection, wrapped};
use crate::search::{
    account_filter, bindings, common_filters, conditions, conjunction, direction, filters,
    keyword_filters, literal, mentions_filter, reply_filter, search_sql, since_filter, switched,
    until_filter, Filter, LIKES, TWEETS,
};
use crate::text::{join, law_parts_are_joined_in_order, occurs_at, without_leading};
use vstd::prelude::*;

verus! {

/// How many placeholders an SQL text holds.
pub open spec fn placeholders(sql: Seq<char>) -> nat
    decreases sql.len(),
{
    if sql.len() == 0 {
        0
    } else {
        placeholders(sql.drop_last()) + if sql.last() == '?' {
            1nat
        } else {
            0nat
        }
    }
}

proof fn lemma_placeholders_add(a: Seq<char>, b: Seq<char>)
    ensures
        placeholders(a + b) == placeholders(a) + placeholders(b),
    decreases b.len(),
{
    if b.len() == 0 {
        assert(a + b == a);
    } else {
        lemma_placeholders_add(a, b.drop_last());
        assert((a + b).drop_last() == a + b.drop_last());
    }
}

proof fn lemma_no_placeholder(s: Seq<char>)
    requires
        forall|i: int| 0 <= i < s.len() ==> s[i] != '?',
    ensures
        placeholders(s) == 0,
    decreases s.len(),
{
    if s.len() > 0 {
        lemma_no_placeholder(s.drop_last());
    }
}

proof fn lemma_one_placeholder(s: Seq<char>, k: int)
    requires
        0 <= k < s.len(),
        s[k] == '?',
        forall|i: int| 0 <= i < s.len() && i != k ==> s[i] != '?',
    ensures
        placeholders(s) == 1,
{
    let before = s.take(k);
    let mark = s.subrange(k, k + 1);
    let after = s.skip(k + 1);
    assert(s == before + mark + after);
    lemma_placeholders_add(before + mark, after);
    lemma_placeholders_add(before, mark);
    lemma_no_placeholder(before);
    lemma_no_placeholder(after);
    lemma_no_placeholder(mark.drop_last());
    assert(mark.last() == '?');
}

/// A condition has one placeholder for each value that its filter binds.
proof fn lemma_condition_placeholders(filter: Filter, likes: bool)
    ensures
        placeholders(filter.condition(likes)) == filter.bound().len(),
{
    reveal_strlit("l.text ILIKE '%' || ? || '%' ESCAPE '\\'");
    reveal_strlit("t.text ILIKE '%' || ? || '%' ESCAPE '\\'");
    reveal_strlit("a.username = ?");
    reveal_strlit("t.created_at >= ?::TIMESTAMP");
    reveal_strlit("t.created_at < ?::TIMESTAMP + INTERVAL 1 DAY");
    reveal_strlit("list_contains(t.mentions, ?)");
    reveal_strlit("t.in_reply_to_screen_name = ?");
    reveal_strlit("len(t.media_urls) > 0");
    reveal_strlit("len(t.urls) > 0");
    reveal_strlit("t.text NOT LIKE 'RT @%'");
    reveal_strlit("t.deleted");
    reveal_strlit("NOT t.deleted");
    let s = filter.condition(likes);
    match filter {
        Filter::Keyword(_) => lemma_one_placeholder(s, 20),
        Filter::Account(_) => lemma_one_placeholder(s, 13),
        Filter::Since(_) => lemma_one_placeholder(s, 16),
        Filter::Until(_) => lemma_one_placeholder(s, 15),
        Filter::Mentions(_) => lemma_one_placeholder(s, 26),
        Filter::ReplyTo(_) => lemma_one_placeholder(s, 28),
        _ => lemma_no_placeholder(s),
    }
}

proof fn lemma_conditions_placeholders(filters: Seq<Filter>, likes: bool)
    ensures
        placeholders(join(conditions(filters, likes), " AND "@)) == bindings(filters).len(),
    decreases filters.len(),
{
    let all = conditions(filters, likes);
    let sep = " AND "@;
    if filters.len() > 0 {
        let rest = filters.drop_last();
        lemma_conditions_placeholders(rest, likes);
        assert(all.drop_last() == conditions(rest, likes));
        let gap = if all.len() == 1 { Seq::<char>::empty() } else { sep };
        reveal_strlit(" AND ");
        lemma_no_placeholder(gap);
        lemma_condition_placeholders(filters.last(), likes);
        lemma_placeholders_add(join(all.drop_last(), sep) + gap, all.last());
        lemma_placeholders_add(join(all.drop_last(), sep), gap);
    }
}

proof fn lemma_search_placeholders(search: Search)
    ensures
        placeholders(search_sql(search)) == bindings(filters(search)).len(),
{
    let condition = conjunction(conditions(filters(search), search.likes));
    lemma_conditions_placeholders(filters(search), search.likes);
    reveal_strlit("TRUE");
    lemma_no_placeholder("TRUE"@);
    assert(placeholders(condition) == bindings(filters(search)).len());
    lemma_decimal_is_number(search.limit);
    assert forall|i: int| 0 <= i < decimal(search.limit).len() implies decimal(search.limit)[i]
        != '?' by {
        assert(is_digit(decimal(search.limit)[i]));
    }
    lemma_no_placeholder(decimal(search.limit));
    reveal_strlit("ASC");
    reveal_strlit("DESC");
    lemma_no_placeholder(direction(search.oldest_first));
    if search.likes {
        reveal_strlit(
            "SELECT l.tweet_id, a.username, l.text, l.url
         FROM likes l JOIN accounts a USING (account_id)
         WHERE ",
        );
        reveal_strlit("\n         ORDER BY try_cast(l.tweet_id AS UBIGINT) ");
        reveal_strlit(" NULLS LAST\n         LIMIT ");
        let order = "\n         ORDER BY try_cast(l.tweet_id AS UBIGINT) "@;
        let limit = " NULLS LAST\n         LIMIT "@;
        lemma_no_placeholder(LIKES@);
        lemma_no_placeholder(order);
        lemma_no_placeholder(limit);
        let a = LIKES@ + condition;
        let b = a + order;
        let c = b + direction(search.oldest_first);
        let d = c + limit;
        lemma_placeholders_add(LIKES@, condition);
        lemma_placeholders_add(a, order);
        lemma_placeholders_add(b, direction(search.oldest_first));
        lemma_placeholders_add(c, limit);
        lemma_placeholders_add(d, decimal(search.limit));
    } else {
        reveal_strlit(
            "SELECT t.id, a.username, t.created_at, t.text, t.in_reply_to_screen_name,
                t.favorite_count, t.retweet_count, t.urls, t.media_urls, t.deleted
         FROM tweets t JOIN accounts a USING (account_id)
         WHERE ",
        );
        reveal_strlit("\n         ORDER BY t.created_at ");
        reveal_strlit("\n         LIMIT ");
        let order = "\n         ORDER BY t.created_at "@;
        let limit = "\n         LIMIT "@;
        lemma_no_placeholder(TWEETS@);
        lemma_no_placeholder(order);
        lemma_no_placeholder(limit);
        let a = TWEETS@ + condition;
        let b = a + order;
        let c = b + direction(search.oldest_first);
        let d = c + limit;
        lemma_placeholders_add(TWEETS@, condition);
        lemma_placeholders_add(a, order);
        lemma_placeholders_add(b, direction(search.oldest_first));
        lemma_placeholders_add(c, limit);
        lemma_placeholders_add(d, decimal(search.limit));
    }
}

/// Nothing of a search's query is trimmed away when it is wrapped.
pub proof fn law_search_is_wrapped_whole(search: Search)
    ensures
        bare(search_sql(search)) == search_sql(search),
{
    let sql = search_sql(search);
    reveal_strlit(
        "SELECT l.tweet_id, a.username, l.text, l.url
         FROM likes l JOIN accounts a USING (account_id)
         WHERE ",
    );
    reveal_strlit(
        "SELECT t.id, a.username, t.created_at, t.text, t.in_reply_to_screen_name,
                t.favorite_count, t.retweet_count, t.urls, t.media_urls, t.deleted
         FROM tweets t JOIN accounts a USING (account_id)
         WHERE ",
    );
    let head = if search.likes { LIKES@ } else { TWEETS@ };
    assert(head[0] == 'S');
    assert(sql[0] == head[0]);
    lemma_decimal_is_number(search.limit);
    let digits = decimal(search.limit);
    assert(is_digit(digits[digits.len() - 1]));
    assert(sql.last() == digits.last());
}

/// Every placeholder of a search's statement has its value, and there is no
/// value without a placeholder.
pub proof fn law_every_placeholder_is_bound(search: Search, format: Format)
    ensures
        placeholders(wrapped(format, search_sql(search), None)) == bindings(filters(search)).len(),
{
    let sql = search_sql(search);
    law_search_is_wrapped_whole(search);
    lemma_search_placeholders(search);
    reveal_strlit("SELECT ");
    reveal_strlit("to_json(t)::VARCHAR");
    reveal_strlit("COLUMNS(*)::VARCHAR");
    reveal_strlit(" FROM (");
    reveal_strlit(") t");
    lemma_no_placeholder("SELECT "@);
    lemma_no_placeholder(projection(format));
    lemma_no_placeholder(" FROM ("@);
    lemma_no_placeholder(") t"@);
    lemma_no_placeholder(cap(None));
    let a = "SELECT "@ + projection(format);
    let b = a + " FROM ("@;
    let c = b + sql;
    let d = c + ") t"@;
    lemma_placeholders_add("SELECT "@, projection(format));
    lemma_placeholders_add(a, " FROM ("@);
    lemma_placeholders_add(b, sql);
    lemma_placeholders_add(c, ") t"@);
    lemma_placeholders_add(d, cap(None));
}

/// Whether two searches use the same options, with whatever texts.
pub open spec fn same_shape(a: Search, b: Search) -> bool {
    &&& a.keywords.len() == b.keywords.len()
    &&& a.account is Some == b.account is Some
    &&& a.likes == b.likes
    &&& a.since is Some == b.since is Some
    &&& a.until is Some == b.until is Some
    &&& a.mentions is Some == b.mentions is Some
    &&& a.reply_to is Some == b.reply_to is Some
    &&& a.has_media == b.has_media
    &&& a.has_url == b.has_url
    &&& a.no_retweets == b.no_retweets
    &&& a.include_deleted == b.include_deleted
    &&& a.only_deleted == b.only_deleted
    &&& a.oldest_first == b.oldest_first
    &&& a.limit == b.limit
}

proof fn lemma_conditions_add(a: Seq<Filter>, b: Seq<Filter>, likes: bool)
    ensures
        conditions(a + b, likes) == conditions(a, likes) + conditions(b, likes),
{
    assert(conditions(a + b, likes) =~= conditions(a, likes) + conditions(b, likes));
}

proof fn lemma_tweet_conditions(search: Search)
    requires
        !search.likes,
    ensures
        conditions(filters(search), false) == conditions(common_filters(search), false)
            + conditions(since_filter(search), false) + conditions(until_filter(search), false)
            + conditions(mentions_filter(search), false) + conditions(reply_filter(search), false)
            + conditions(switched(search.has_media, Filter::HasMedia), false) + conditions(
            switched(search.has_url, Filter::HasUrl),
            false,
        ) + conditions(switched(search.no_retweets, Filter::NotRetweet), false) + conditions(
            switched(search.only_deleted, Filter::Deleted),
            false,
        ) + conditions(
            switched(!search.only_deleted && !search.include_deleted, Filter::NotDeleted),
            false,
        ),
{
    let a = common_filters(search);
    let b = a + since_filter(search);
    let c = b + until_filter(search);
    let d = c + mentions_filter(search);
    let e = d + reply_filter(search);
    let f = e + switched(search.has_media, Filter::HasMedia);
    let g = f + switched(search.has_url, Filter::HasUrl);
    let h = g + switched(search.no_retweets, Filter::NotRetweet);
    let i = h + switched(search.only_deleted, Filter::Deleted);
    lemma_conditions_add(a, since_filter(search), false);
    lemma_conditions_add(b, until_filter(search), false);
    lemma_conditions_add(c, mentions_filter(search), false);
    lemma_conditions_add(d, reply_filter(search), false);
    lemma_conditions_add(e, switched(search.has_media, Filter::HasMedia), false);
    lemma_conditions_add(f, switched(search.has_url, Filter::HasUrl), false);
    lemma_conditions_add(g, switched(search.no_retweets, Filter::NotRetweet), false);
    lemma_conditions_add(h, switched(search.only_deleted, Filter::Deleted), false);
    lemma_conditions_add(
        i,
        switched(!search.only_deleted && !search.include_deleted, Filter::NotDeleted),
        false,
    );
}

proof fn lemma_common_conditions(a: Search, b: Search)
    requires
        same_shape(a, b),
    ensures
        conditions(common_filters(a), a.likes) == conditions(common_filters(b), a.likes),
{
    let likes = a.likes;
    lemma_conditions_add(keyword_filters(a), account_filter(a), likes);
    lemma_conditions_add(keyword_filters(b), account_filter(b), likes);
    assert(conditions(keyword_filters(a), likes) =~= conditions(keyword_filters(b), likes));
    assert(conditions(account_filter(a), likes) =~= conditions(account_filter(b), likes));
}

proof fn lemma_option_conditions(a: Search, b: Search)
    requires
        same_shape(a, b),
    ensures
        conditions(since_filter(a), false) == conditions(since_filter(b), false),
        conditions(until_filter(a), false) == conditions(until_filter(b), false),
        conditions(mentions_filter(a), false) == conditions(mentions_filter(b), false),
        conditions(reply_filter(a), false) == conditions(reply_filter(b), false),
{
}

proof fn lemma_same_conditions(a: Search, b: Search)
    requires
        same_shape(a, b),
    ensures
        conditions(filters(a), a.likes) == conditions(filters(b), b.likes),
{
    lemma_common_conditions(a, b);
    if !a.likes {
        lemma_tweet_conditions(a);
        lemma_tweet_conditions(b);
        lemma_option_conditions(a, b);
    }
}

/// The texts of a search go into the values alone: its SQL depends only on
/// which options are used.
pub proof fn law_sql_holds_no_search_text(a: Search, b: Search)
    requires
        same_shape(a, b),
    ensures
        search_sql(a) == search_sql(b),
{
    lemma_same_conditions(a, b);
}

/// A search over likes is decided by its keywords, account, order and limit:
/// the options on tweets have no effect on it.
pub proof fn law_likes_ignore_tweet_options(a: Search, b: Search)
    requires
        a.likes && b.likes,
        a.keywords == b.keywords,
        a.account == b.account,
        a.oldest_first == b.oldest_first,
        a.limit == b.limit,
    ensures
        search_sql(a) == search_sql(b),
        bindings(filters(a)) == bindings(filters(b)),
{
}

/// Whether a filter is about deletion.
spec fn mentions_deletion(filters: Seq<Filter>) -> bool {
    exists|i: int|
        0 <= i < filters.len() && (#[trigger] filters[i] == Filter::Deleted || filters[i]
            == Filter::NotDeleted)
}

proof fn lemma_mentions_deletion_add(a: Seq<Filter>, b: Seq<Filter>)
    ensures
        mentions_deletion(a + b) ==> mentions_deletion(a) || mentions_deletion(b),
{
    if mentions_deletion(a + b) {
        let i = choose|i: int|
            0 <= i < (a + b).len() && (#[trigger] (a + b)[i] == Filter::Deleted || (a + b)[i]
                == Filter::NotDeleted);
        if i < a.len() {
            assert(a[i] == (a + b)[i]);
        } else {
            assert(b[i - a.len()] == (a + b)[i]);
        }
    }
}

/// A search over tweets leaves deleted tweets out exactly when neither option
/// asks for them, and shows nothing else exactly when that is asked for.
pub proof fn law_deleted_tweets_on_request(search: Search)
    requires
        !search.likes,
    ensures
        filters(search).contains(Filter::NotDeleted) <==> !search.include_deleted
            && !search.only_deleted,
        filters(search).contains(Filter::Deleted) <==> search.only_deleted,
{
    let a = common_filters(search);
    let b = a + since_filter(search);
    let c = b + until_filter(search);
    let d = c + mentions_filter(search);
    let e = d + reply_filter(search);
    let f = e + switched(search.has_media, Filter::HasMedia);
    let g = f + switched(search.has_url, Filter::HasUrl);
    let h = g + switched(search.no_retweets, Filter::NotRetweet);
    lemma_mentions_deletion_add(keyword_filters(search), account_filter(search));
    lemma_mentions_deletion_add(a, since_filter(search));
    lemma_mentions_deletion_add(b, until_filter(search));
    lemma_mentions_deletion_add(c, mentions_filter(search));
    lemma_mentions_deletion_add(d, reply_filter(search));
    lemma_mentions_deletion_add(e, switched(search.has_media, Filter::HasMedia));
    lemma_mentions_deletion_add(f, switched(search.has_url, Filter::HasUrl));
    lemma_mentions_deletion_add(g, switched(search.no_retweets, Filter::NotRetweet));
    assert(!mentions_deletion(h));
    let deleted = switched(search.only_deleted, Filter::Deleted);
    let kept = switched(!search.only_deleted && !search.include_deleted, Filter::NotDeleted);
    let fs = h + deleted + kept;
    assert(fs == filters(search));
    assert forall|i: int| 0 <= i < h.len() implies fs[i] != Filter::Deleted && fs[i]
        != Filter::NotDeleted by {
        assert(fs[i] == h[i]);
    }
    if search.only_deleted {
        assert(fs[h.len() as int] == Filter::Deleted);
    } else if !search.include_deleted {
        assert(fs[h.len() as int] == Filter::NotDeleted);
    }
}

/// All keywords have to match: each has a condition of its own, and the
/// conditions are joined with AND.
pub proof fn law_keywords_are_all_required(search: Search, i: int)
    requires
        0 <= i < search.keywords.len(),
    ensures
        filters(search).contains(Filter::Keyword(search.keywords[i])),
        conjunction(conditions(filters(search), search.likes)) == join(
            conditions(filters(search), search.likes),
            " AND "@,
        ),
{
    assert(filters(search)[i] == Filter::Keyword(search.keywords[i]));
}

/// Whether two searches have the same filters, one by one.
spec fn same_filters(a: Search, b: Search) -> bool {
    &&& a.likes == b.likes
    &&& a.keywords == b.keywords
    &&& account_filter(a) == account_filter(b)
    &&& since_filter(a) == since_filter(b)
    &&& until_filter(a) == until_filter(b)
    &&& mentions_filter(a) == mentions_filter(b)
    &&& reply_filter(a) == reply_filter(b)
    &&& a.has_media == b.has_media
    &&& a.has_url == b.has_url
    &&& a.no_retweets == b.no_retweets
    &&& a.include_deleted == b.include_deleted
    &&& a.only_deleted == b.only_deleted
}

proof fn lemma_same_filters(a: Search, b: Search)
    requires
        same_filters(a, b),
    ensures
        filters(a) == filters(b),
{
    assert(common_filters(a) == common_filters(b));
}

/// A username or screen name may be written with an `@` before it.
pub proof fn law_at_sign_is_optional(search: Search, name: Seq<char>)
    ensures
        filters(Search { account: Some(seq!['@'] + name), ..search }) == filters(
            Search { account: Some(name), ..search },
        ),
        filters(Search { mentions: Some(seq!['@'] + name), ..search }) == filters(
            Search { mentions: Some(name), ..search },
        ),
        filters(Search { reply_to: Some(seq!['@'] + name), ..search }) == filters(
            Search { reply_to: Some(name), ..search },
        ),
{
    let written = seq!['@'] + name;
    assert(written.drop_first() =~= name);
    assert(without_leading(written, '@') == without_leading(name, '@'));
    lemma_same_filters(
        Search { account: Some(written), ..search },
        Search { account: Some(name), ..search },
    );
    lemma_same_filters(
        Search { mentions: Some(written), ..search },
        Search { mentions: Some(name), ..search },
    );
    lemma_same_filters(
        Search { reply_to: Some(written), ..search },
        Search { reply_to: Some(name), ..search },
    );
}

/// Whether `text` matches `pattern` in the sense of SQL's LIKE with the
/// backslash as escape character: `%` matches any run of characters, `_` any
/// one character, a character after a backslash itself.
pub open spec fn like(pattern: Seq<char>, text: Seq<char>) -> bool
    decreases pattern.len(), text.len(),
{
    if pattern.len() == 0 {
        text.len() == 0
    } else if pattern.first() == '%' {
        like(pattern.skip(1), text) || (text.len() > 0 && like(pattern, text.skip(1)))
    } else if pattern.first() == '\\' {
        pattern.len() > 1 && text.len() > 0 && text.first() == pattern[1] && like(
            pattern.skip(2),
            text.skip(1),
        )
    } else {
        text.len() > 0 && (pattern.first() == '_' || text.first() == pattern.first()) && like(
            pattern.skip(1),
            text.skip(1),
        )
    }
}

/// Whether `word` stands in `text` as a substring.
pub open spec fn occurs_in(word: Seq<char>, text: Seq<char>) -> bool {
    exists|at: int| 0 <= at && #[trigger] occurs_at(text, at, word)
}

proof fn lemma_literal_from_the_front(word: Seq<char>)
    requires
        word.len() > 0,
    ensures
        literal(word) == literal(seq![word.first()]) + literal(word.drop_first()),
    decreases word.len(),
{
    reveal_with_fuel(literal, 2);
    let first = seq![word.first()];
    if word.len() == 1 {
        assert(word =~= first);
        assert(literal(word.drop_first()) =~= Seq::<char>::empty());
        assert(literal(first) + Seq::<char>::empty() =~= literal(first));
    } else {
        lemma_literal_from_the_front(word.drop_last());
        assert(word.drop_last().drop_first() =~= word.drop_first().drop_last());
        assert(word.drop_last().first() == word.first());
        assert(literal(word) =~= literal(first) + literal(word.drop_first()));
    }
}

/// What a pattern that begins with a keyword, taken literally, matches.
proof fn lemma_like_literal(word: Seq<char>, rest: Seq<char>, text: Seq<char>)
    ensures
        like(literal(word) + rest, text) <==> occurs_at(text, 0, word) && like(
            rest,
            text.skip(word.len() as int),
        ),
    decreases word.len(),
{
    if word.len() == 0 {
        assert(literal(word) + rest =~= rest);
        assert(text.subrange(0, 0) =~= word);
        assert(text.skip(0) =~= text);
    } else {
        reveal_with_fuel(literal, 2);
        lemma_literal_from_the_front(word);
        let c = word.first();
        let tail = word.drop_first();
        let pattern = literal(word) + rest;
        let head = literal(seq![c]);
        assert(seq![c].drop_last() =~= Seq::<char>::empty());
        let special = c == '%' || c == '_' || c == '\\';
        assert(head =~= if special { seq!['\\', c] } else { seq![c] });
        assert(pattern =~= head + (literal(tail) + rest));
        assert(pattern.skip(head.len() as int) =~= literal(tail) + rest);
        assert(pattern.first() == head[0]);
        if special {
            assert(pattern[1] == c);
        }
        if text.len() > 0 {
            let after = text.skip(1);
            lemma_like_literal(tail, rest, after);
            if text.len() >= word.len() {
                assert(after.skip(tail.len() as int) =~= text.skip(word.len() as int));
            }
            if occurs_at(text, 0, word) {
                assert(text.subrange(0, word.len() as int)[0] == c);
                assert(after.subrange(0, tail.len() as int) =~= text.subrange(
                    0,
                    word.len() as int,
                ).drop_first());
            }
            if text.first() == c && occurs_at(after, 0, tail) {
                assert(text.subrange(0, word.len() as int) =~= seq![c] + after.subrange(
                    0,
                    tail.len() as int,
                ));
                assert(word =~= seq![c] + tail);
            }
        }
    }
}

proof fn lemma_like_anything(text: Seq<char>)
    ensures
        like(seq!['%'], text),
    decreases text.len(),
{
    reveal_with_fuel(like, 2);
    assert(seq!['%'].skip(1) =~= Seq::<char>::empty());
    if text.len() > 0 {
        lemma_like_anything(text.skip(1));
    }
}

proof fn lemma_like_somewhere(rest: Seq<char>, text: Seq<char>)
    ensures
        like(seq!['%'] + rest, text) <==> exists|at: int|
            0 <= at <= text.len() && #[trigger] like(rest, text.skip(at)),
    decreases text.len(),
{
    let pattern = seq!['%'] + rest;
    assert(pattern.skip(1) =~= rest);
    assert(pattern.first() == '%');
    assert(text.skip(0) =~= text);
    if like(rest, text) {
        assert(like(rest, text.skip(0)));
    }
    if text.len() > 0 {
        let after = text.skip(1);
        lemma_like_somewhere(rest, after);
        if like(pattern, text) && !like(rest, text) {
            let at = choose|at: int| 0 <= at <= after.len() && #[trigger] like(rest, after.skip(at));
            assert(after.skip(at) =~= text.skip(at + 1));
            assert(like(rest, text.skip(at + 1)));
        }
        if exists|at: int| 0 <= at <= text.len() && #[trigger] like(rest, text.skip(at)) {
            let at = choose|at: int| 0 <= at <= text.len() && #[trigger] like(rest, text.skip(at));
            if at > 0 {
                assert(text.skip(at) =~= after.skip(at - 1));
                assert(like(rest, after.skip(at - 1)));
            }
        }
    }
}

/// The pattern that a keyword's condition compares with.
pub open spec fn keyword_pattern(keyword: Seq<char>) -> Seq<char> {
    seq!['%'] + literal(keyword) + seq!['%']
}

/// A keyword is a plain substring: the pattern that its condition builds
/// matches exactly the texts in which the keyword occurs, whatever characters
/// it holds.
pub proof fn law_keyword_is_a_substring(keyword: Seq<char>, text: Seq<char>)
    ensures
        like(keyword_pattern(keyword), text) <==> occurs_in(keyword, text),
{
    let rest = literal(keyword) + seq!['%'];
    let pattern = keyword_pattern(keyword);
    assert(pattern =~= seq!['%'] + rest);
    lemma_like_somewhere(rest, text);
    if like(pattern, text) {
        let at = choose|at: int| 0 <= at <= text.len() && #[trigger] like(rest, text.skip(at));
        lemma_like_literal(keyword, seq!['%'], text.skip(at));
        assert(text.skip(at).subrange(0, keyword.len() as int) =~= text.subrange(
            at,
            at + keyword.len(),
        ));
        assert(occurs_at(text, at, keyword));
    }
    if occurs_in(keyword, text) {
        let at = choose|at: int| 0 <= at && #[trigger] occurs_at(text, at, keyword);
        let tail = text.skip(at);
        assert(tail.subrange(0, keyword.len() as int) =~= text.subrange(at, at + keyword.len()));
        lemma_like_literal(keyword, seq!['%'], tail);
        lemma_like_anything(tail.skip(keyword.len() as int));
        assert(like(rest, text.skip(at)));
    }
}

proof fn lemma_literal_folds(keyword: Seq<char>, fold: spec_fn(char) -> char)
    requires
        forall|c: char|
            #![trigger fold(c)]
            (c == '%' || c == '_' || c == '\\' || fold(c) == '%' || fold(c) == '_' || fold(c)
                == '\\') ==> fold(c) == c,
    ensures
        literal(keyword).map_values(fold) == literal(keyword.map_values(fold)),
    decreases keyword.len(),
{
    let folded = keyword.map_values(fold);
    if keyword.len() > 0 {
        let c = keyword.last();
        lemma_literal_folds(keyword.drop_last(), fold);
        assert(folded.drop_last() =~= keyword.drop_last().map_values(fold));
        assert(folded.last() == fold(c));
        assert(fold('\\') == '\\');
        assert(literal(keyword).map_values(fold) =~= literal(folded));
    } else {
        assert(literal(keyword).map_values(fold) =~= literal(folded));
    }
}

/// Keywords match in either case: where letters are folded before the
/// comparison, in pattern and text alike, the keyword still matches exactly
/// the texts in which it occurs up to that folding. `fold` may be any folding
/// that leaves the pattern characters alone.
pub proof fn law_keyword_matches_in_either_case(
    keyword: Seq<char>,
    text: Seq<char>,
    fold: spec_fn(char) -> char,
)
    requires
        forall|c: char|
            #![trigger fold(c)]
            (c == '%' || c == '_' || c == '\\' || fold(c) == '%' || fold(c) == '_' || fold(c)
                == '\\') ==> fold(c) == c,
    ensures
        like(keyword_pattern(keyword).map_values(fold), text.map_values(fold)) <==> occurs_in(
            keyword.map_values(fold),
            text.map_values(fold),
        ),
{
    lemma_literal_folds(keyword, fold);
    assert(fold('%') == '%');
    assert(keyword_pattern(keyword).map_values(fold) =~= keyword_pattern(keyword.map_values(fold)));
    law_keyword_is_a_substring(keyword.map_values(fold), text.map_values(fold));
}

proof fn lemma_contains_add(a: Seq<Filter>, b: Seq<Filter>, filter: Filter)
    ensures
        (a + b).contains(filter) <==> a.contains(filter) || b.contains(filter),
{
    let all = a + b;
    if all.contains(filter) {
        let i = choose|i: int| 0 <= i < all.len() && all[i] == filter;
        if i < a.len() {
            assert(a[i] == filter);
        } else {
            assert(b[i - a.len()] == filter);
        }
    }
    if a.contains(filter) {
        let i = choose|i: int| 0 <= i < a.len() && a[i] == filter;
        assert(all[i] == filter);
    }
    if b.contains(filter) {
        let i = choose|i: int| 0 <= i < b.len() && b[i] == filter;
        assert(all[a.len() + i] == filter);
    }
}

proof fn lemma_one_filter(one: Filter, filter: Filter)
    ensures
        seq![one].contains(filter) <==> filter == one,
{
    assert(seq![one][0] == one);
}

proof fn lemma_keyword_filters(search: Search, filter: Filter)
    ensures
        keyword_filters(search).contains(filter) <==> (filter matches Filter::Keyword(keyword)
            && search.keywords.contains(keyword)),
{
    let fs = keyword_filters(search);
    if fs.contains(filter) {
        let i = choose|i: int| 0 <= i < fs.len() && fs[i] == filter;
        assert(search.keywords.contains(search.keywords[i]));
    }
    if let Filter::Keyword(keyword) = filter {
        if search.keywords.contains(keyword) {
            let i = choose|i: int| 0 <= i < search.keywords.len() && search.keywords[i] == keyword;
            assert(fs[i] == filter);
        }
    }
}

proof fn lemma_switched(on: bool, switch: Filter, filter: Filter)
    ensures
        switched(on, switch).contains(filter) <==> on && filter == switch,
{
    if on {
        lemma_one_filter(switch, filter);
    }
}

proof fn lemma_text_filters(search: Search, filter: Filter)
    ensures
        account_filter(search).contains(filter) <==> (search.account matches Some(name) && filter
            == Filter::Account(without_leading(name, '@'))),
        since_filter(search).contains(filter) <==> (search.since matches Some(day) && filter
            == Filter::Since(day)),
        until_filter(search).contains(filter) <==> (search.until matches Some(day) && filter
            == Filter::Until(day)),
        mentions_filter(search).contains(filter) <==> (search.mentions matches Some(name) && filter
            == Filter::Mentions(without_leading(name, '@'))),
        reply_filter(search).contains(filter) <==> (search.reply_to matches Some(name) && filter
            == Filter::ReplyTo(without_leading(name, '@'))),
{
    if let Some(name) = search.account {
        lemma_one_filter(Filter::Account(without_leading(name, '@')), filter);
    }
    if let Some(day) = search.since {
        lemma_one_filter(Filter::Since(day), filter);
    }
    if let Some(day) = search.until {
        lemma_one_filter(Filter::Until(day), filter);
    }
    if let Some(name) = search.mentions {
        lemma_one_filter(Filter::Mentions(without_leading(name, '@')), filter);
    }
    if let Some(name) = search.reply_to {
        lemma_one_filter(Filter::ReplyTo(without_leading(name, '@')), filter);
    }
}

proof fn lemma_filters_split(search: Search, filter: Filter)
    ensures
        search.likes ==> (filters(search).contains(filter) <==> keyword_filters(search).contains(
            filter,
        ) || account_filter(search).contains(filter)),
        !search.likes ==> (filters(search).contains(filter) <==> keyword_filters(search).contains(
            filter,
        ) || account_filter(search).contains(filter) || since_filter(search).contains(filter)
            || until_filter(search).contains(filter) || mentions_filter(search).contains(filter)
            || reply_filter(search).contains(filter) || switched(
            search.has_media,
            Filter::HasMedia,
        ).contains(filter) || switched(search.has_url, Filter::HasUrl).contains(filter) || switched(
            search.no_retweets,
            Filter::NotRetweet,
        ).contains(filter) || switched(search.only_deleted, Filter::Deleted).contains(filter)
            || switched(
            !search.only_deleted && !search.include_deleted,
            Filter::NotDeleted,
        ).contains(filter)),
{
    let a = common_filters(search);
    let b = a + since_filter(search);
    let c = b + until_filter(search);
    let d = c + mentions_filter(search);
    let e = d + reply_filter(search);
    let f = e + switched(search.has_media, Filter::HasMedia);
    let g = f + switched(search.has_url, Filter::HasUrl);
    let h = g + switched(search.no_retweets, Filter::NotRetweet);
    let i = h + switched(search.only_deleted, Filter::Deleted);
    let kept = !search.only_deleted && !search.include_deleted;
    lemma_contains_add(keyword_filters(search), account_filter(search), filter);
    lemma_contains_add(a, since_filter(search), filter);
    lemma_contains_add(b, until_filter(search), filter);
    lemma_contains_add(c, mentions_filter(search), filter);
    lemma_contains_add(d, reply_filter(search), filter);
    lemma_contains_add(e, switched(search.has_media, Filter::HasMedia), filter);
    lemma_contains_add(f, switched(search.has_url, Filter::HasUrl), filter);
    lemma_contains_add(g, switched(search.no_retweets, Filter::NotRetweet), filter);
    lemma_contains_add(h, switched(search.only_deleted, Filter::Deleted), filter);
    lemma_contains_add(i, switched(kept, Filter::NotDeleted), filter);
}

proof fn lemma_filters_len(search: Search)
    ensures
        filters(search).len() == search.keywords.len() + one_if(search.account is Some) + if search.likes {
            0
        } else {
            one_if(search.since is Some) + one_if(search.until is Some) + one_if(
                search.mentions is Some,
            ) + one_if(search.reply_to is Some) + one_if(search.has_media) + one_if(search.has_url)
                + one_if(search.no_retweets) + one_if(search.only_deleted || !search.include_deleted)
        },
{
    assert(account_filter(search).len() == one_if(search.account is Some));
    assert(since_filter(search).len() == one_if(search.since is Some));
    assert(until_filter(search).len() == one_if(search.until is Some));
    assert(mentions_filter(search).len() == one_if(search.mentions is Some));
    assert(reply_filter(search).len() == one_if(search.reply_to is Some));
}

/// Every option of a search has its filter, whatever the other options are: a
/// filter is there exactly when its own option asks for it, and there is no
/// filter beyond. Only keywords and the account filter likes.
pub proof fn law_filters_are_the_options(search: Search, filter: Filter)
    ensures
        filters(search).contains(filter) <==> match filter {
            Filter::Keyword(keyword) => search.keywords.contains(keyword),
            Filter::Account(name) => search.account matches Some(given) && name == without_leading(
                given,
                '@',
            ),
            Filter::Since(day) => !search.likes && search.since == Some(day),
            Filter::Until(day) => !search.likes && search.until == Some(day),
            Filter::Mentions(name) => !search.likes && (search.mentions matches Some(given) && name
                == without_leading(given, '@')),
            Filter::ReplyTo(name) => !search.likes && (search.reply_to matches Some(given) && name
                == without_leading(given, '@')),
            Filter::HasMedia => !search.likes && search.has_media,
            Filter::HasUrl => !search.likes && search.has_url,
            Filter::NotRetweet => !search.likes && search.no_retweets,
            Filter::Deleted => !search.likes && search.only_deleted,
            Filter::NotDeleted => !search.likes && !search.only_deleted && !search.include_deleted,
        },
        filters(search).len() == search.keywords.len() + one_if(search.account is Some) + if search.likes {
            0
        } else {
            one_if(search.since is Some) + one_if(search.until is Some) + one_if(
                search.mentions is Some,
            ) + one_if(search.reply_to is Some) + one_if(search.has_media) + one_if(search.has_url)
                + one_if(search.no_retweets) + one_if(search.only_deleted || !search.include_deleted)
        },
{
    lemma_filters_split(search, filter);
    lemma_keyword_filters(search, filter);
    lemma_text_filters(search, filter);
    lemma_switched(search.has_media, Filter::HasMedia, filter);
    lemma_switched(search.has_url, Filter::HasUrl, filter);
    lemma_switched(search.no_retweets, Filter::NotRetweet, filter);
    lemma_switched(search.only_deleted, Filter::Deleted, filter);
    lemma_switched(
        !search.only_deleted && !search.include_deleted,
        Filter::NotDeleted,
        filter,
    );
    lemma_filters_len(search);
}

/// Every keyword has a filter of its own, in the order of the keywords.
pub proof fn law_keywords_come_first(search: Search, i: int)
    requires
        0 <= i < search.keywords.len(),
    ensures
        i < filters(search).len(),
        filters(search)[i] == Filter::Keyword(search.keywords[i]),
{
}

/// What each filter asks of a row, whatever value it compares with.
pub proof fn law_conditions_ask_for_their_filter(text: Seq<char>, likes: bool)
    ensures
        Filter::Keyword(text).condition(true) == "l.text ILIKE '%' || ? || '%' ESCAPE '\\'"@,
        Filter::Keyword(text).condition(false) == "t.text ILIKE '%' || ? || '%' ESCAPE '\\'"@,
        Filter::Account(text).condition(likes) == "a.username = ?"@,
        Filter::Since(text).condition(false) == "t.created_at >= ?::TIMESTAMP"@,
        Filter::Until(text).condition(false) == "t.created_at < ?::TIMESTAMP + INTERVAL 1 DAY"@,
        Filter::Mentions(text).condition(false) == "list_contains(t.mentions, ?)"@,
        Filter::ReplyTo(text).condition(false) == "t.in_reply_to_screen_name = ?"@,
        Filter::HasMedia.condition(false) == "len(t.media_urls) > 0"@,
        Filter::HasUrl.condition(false) == "len(t.urls) > 0"@,
        Filter::NotRetweet.condition(false) == "t.text NOT LIKE 'RT @%'"@,
        Filter::Deleted.condition(false) == "t.deleted"@,
        Filter::NotDeleted.condition(false) == "NOT t.deleted"@,
{
}

/// The values of a search go to the conditions that they belong to: conditions
/// and values follow the filters one by one, a filter with a value binds just
/// that value, and a switch binds none.
pub proof fn law_values_belong_to_their_conditions(
    a: Seq<Filter>,
    b: Seq<Filter>,
    filter: Filter,
    likes: bool,
)
    ensures
        conditions(a, likes).len() == a.len(),
        forall|i: int|
            0 <= i < a.len() ==> conditions(a, likes)[i] == (#[trigger] a[i]).condition(likes),
        bindings(Seq::empty()) == Seq::<Seq<char>>::empty(),
        bindings(a + b) == bindings(a) + bindings(b),
        bindings(seq![filter]) == match filter {
            Filter::Keyword(keyword) => seq![literal(keyword)],
            Filter::Account(value) => seq![value],
            Filter::Since(value) => seq![value],
            Filter::Until(value) => seq![value],
            Filter::Mentions(value) => seq![value],
            Filter::ReplyTo(value) => seq![value],
            _ => Seq::empty(),
        },
{
    lemma_bindings_add(a, b);
    let one = seq![filter];
    assert(one.drop_last() =~= Seq::<Filter>::empty());
    assert(bindings(one.drop_last()) =~= Seq::<Seq<char>>::empty());
    assert(bindings(one) =~= filter.bound());
}

proof fn lemma_bindings_add(a: Seq<Filter>, b: Seq<Filter>)
    ensures
        bindings(a + b) == bindings(a) + bindings(b),
    decreases b.len(),
{
    if b.len() == 0 {
        assert(a + b =~= a);
        assert(bindings(a) + bindings(b) =~= bindings(a));
    } else {
        lemma_bindings_add(a, b.drop_last());
        assert((a + b).drop_last() =~= a + b.drop_last());
        assert(bindings(a + b) =~= bindings(a) + bindings(b));
    }
}

/// A keyword is escaped character by character: pattern characters and the
/// backslash get a backslash before them, any other character is left alone.
pub proof fn law_keywords_are_escaped_by_character(a: Seq<char>, b: Seq<char>, c: char)
    ensures
        literal(Seq::empty()) == Seq::<char>::empty(),
        literal(a + b) == literal(a) + literal(b),
        c == '%' || c == '_' || c == '\\' ==> literal(seq![c]) == seq!['\\', c],
        c != '%' && c != '_' && c != '\\' ==> literal(seq![c]) == seq![c],
    decreases b.len(),
{
    reveal_with_fuel(literal, 2);
    assert(seq![c].drop_last() =~= Seq::<char>::empty());
    assert(seq![c].last() == c);
    assert(literal(seq![c]) =~= if c == '%' || c == '_' || c == '\\' {
        seq!['\\', c]
    } else {
        seq![c]
    });
    if b.len() == 0 {
        assert(a + b =~= a);
        assert(literal(a) + literal(b) =~= literal(a));
    } else {
        law_keywords_are_escaped_by_character(a, b.drop_last(), c);
        assert((a + b).drop_last() =~= a + b.drop_last());
        assert((a + b).last() == b.last());
        assert(literal(a + b) =~= literal(a) + literal(b));
    }
}

/// One, if it holds.
pub open spec fn one_if(holds: bool) -> nat {
    if holds {
        1
    } else {
        0
    }
}

/// A search's query asks for the rows that meet all its conditions, in the
/// order that was asked for, newest first unless it says otherwise, and for as
/// many rows as its limit says, over tweets and over likes alike.
pub proof fn law_query_asks_for_the_search(search: Search)
    ensures
        exists|digits: Seq<char>| #[trigger]
            is_number(digits) && value(digits) == search.limit && search_sql(search) == (if search.likes {
                LIKES@
            } else {
                TWEETS@
            }) + (if filters(search).len() == 0 {
                "TRUE"@
            } else {
                join(conditions(filters(search), search.likes), " AND "@)
            }) + (if search.likes {
                "\n         ORDER BY try_cast(l.tweet_id AS UBIGINT) "@
            } else {
                "\n         ORDER BY t.created_at "@
            }) + (if search.oldest_first {
                "ASC"@
            } else {
                "DESC"@
            }) + (if search.likes {
                " NULLS LAST"@
            } else {
                Seq::empty()
            }) + "\n         LIMIT "@ + digits,
{
    let digits = decimal(search.limit);
    lemma_decimal_is_number(search.limit);
    reveal_strlit(" NULLS LAST");
    reveal_strlit("\n         LIMIT ");
    reveal_strlit(" NULLS LAST\n         LIMIT ");
    assert(" NULLS LAST"@ + "\n         LIMIT "@ =~= " NULLS LAST\n         LIMIT "@);
    let condition = conjunction(conditions(filters(search), search.likes));
    if search.likes {
        let head = LIKES@ + condition + "\n         ORDER BY try_cast(l.tweet_id AS UBIGINT) "@
            + direction(search.oldest_first);
        assert(head + " NULLS LAST\n         LIMIT "@ + digits =~= head + " NULLS LAST"@
            + "\n         LIMIT "@ + digits);
    } else {
        let head = TWEETS@ + condition + "\n         ORDER BY t.created_at "@ + direction(
            search.oldest_first,
        );
        assert(head + "\n         LIMIT "@ + digits =~= head + Seq::empty() + "\n         LIMIT "@
            + digits);
    }
    assert(is_number(digits));
}

proof fn lemma_last_word(a: Seq<char>, x: Seq<char>, b: Seq<char>, y: Seq<char>)
    requires
        a.push(' ') + x == b.push(' ') + y,
        !x.contains(' '),
        !y.contains(' '),
    ensures
        x == y,
{
    let s = a.push(' ') + x;
    let t = b.push(' ') + y;
    assert(s.len() == t.len());
    assert(s.len() == a.len() + 1 + x.len());
    assert(t.len() == b.len() + 1 + y.len());
    if a.len() < b.len() {
        assert(t[b.len() as int] == ' ');
        assert(s[b.len() as int] == x[b.len() - a.len() - 1]);
        assert(x.contains(' '));
    } else if b.len() < a.len() {
        assert(s[a.len() as int] == ' ');
        assert(t[a.len() as int] == y[a.len() - b.len() - 1]);
        assert(y.contains(' '));
    } else {
        assert(x =~= s.skip(a.len() as int + 1));
        assert(y =~= t.skip(b.len() as int + 1));
    }
}

proof fn lemma_ends_with_limit(search: Search) -> (head: Seq<char>)
    ensures
        search_sql(search) == head.push(' ') + decimal(search.limit),
        !decimal(search.limit).contains(' '),
{
    reveal_strlit("\n         LIMIT ");
    reveal_strlit(" NULLS LAST\n         LIMIT ");
    let digits = decimal(search.limit);
    let sql = search_sql(search);
    lemma_decimal_is_number(search.limit);
    let head = sql.take(sql.len() - digits.len() - 1);
    assert(sql =~= head.push(' ') + digits);
    if digits.contains(' ') {
        let i = choose|i: int| 0 <= i < digits.len() && digits[i] == ' ';
        assert(is_digit(digits[i]));
    }
    head
}

/// No two limits make the same query, whatever else the searches ask for.
pub proof fn law_limit_is_told_by_the_query(a: Search, b: Search)
    requires
        search_sql(a) == search_sql(b),
    ensures
        a.limit == b.limit,
{
    let x = lemma_ends_with_limit(a);
    let y = lemma_ends_with_limit(b);
    lemma_last_word(x, decimal(a.limit), y, decimal(b.limit));
    law_decimal_tells_numbers_apart(a.limit, b.limit);
}

/// The arguments of a search are taken as they are given, every one of them.
pub proof fn law_arguments_are_taken_as_given(args: SearchArgs)
    ensures
        args@.keywords.len() == args.keywords@.len(),
        forall|i: int|
            0 <= i < args.keywords@.len() ==> args@.keywords[i] == (#[trigger] args.keywords@[i])@,
        args@.account is Some == args.account is Some,
        args.account matches Some(text) ==> args@.account == Some(text@),
        args@.since is Some == args.since is Some,
        args.since matches Some(text) ==> args@.since == Some(text@),
        args@.until is Some == args.until is Some,
        args.until matches Some(text) ==> args@.until == Some(text@),
        args@.mentions is Some == args.mentions is Some,
        args.mentions matches Some(text) ==> args@.mentions == Some(text@),
        args@.reply_to is Some == args.reply_to is Some,
        args.reply_to matches Some(text) ==> args@.reply_to == Some(text@),
        args@.likes == args.likes,
        args@.has_media == args.has_media,
        args@.has_url == args.has_url,
        args@.no_retweets == args.no_retweets,
        args@.include_deleted == args.include_deleted,
        args@.only_deleted == args.only_deleted,
        args@.oldest_first == args.oldest_first,
        args@.limit == args.limit,
        args@.format == args.format,
{
}

/// Conditions are all required: one stands for itself, two lists of conditions
/// are joined by AND, and without any every row qualifies.
pub proof fn law_conditions_are_joined_by_and(
    a: Seq<Seq<char>>,
    b: Seq<Seq<char>>,
    condition: Seq<char>,
)
    ensures
        conjunction(Seq::empty()) == "TRUE"@,
        conjunction(seq![condition]) == condition,
        a.len() > 0 && b.len() > 0 ==> conjunction(a + b) == conjunction(a) + " AND "@ + conjunction(
            b,
        ),
{
    law_parts_are_joined_in_order(a, b, condition, " AND "@);
}

} // verus!
