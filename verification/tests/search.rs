use twarq::cli::{plan, Command, Format, Plan, SearchArgs};
use twarq::output::Output;
use twarq::query::Statement;
use twarq::search::{escape_keyword, run, where_clause};

const TWEETS_HEAD: &str = "SELECT to_json(t)::VARCHAR FROM (SELECT t.id, a.username, t.created_at, t.text, t.in_reply_to_screen_name,
                t.favorite_count, t.retweet_count, t.urls, t.media_urls, t.deleted
         FROM tweets t JOIN accounts a USING (account_id)
         WHERE ";

fn search() -> SearchArgs {
    SearchArgs {
        keywords: Vec::new(),
        account: None,
        likes: false,
        since: None,
        until: None,
        mentions: None,
        reply_to: None,
        has_media: false,
        has_url: false,
        no_retweets: false,
        include_deleted: false,
        only_deleted: false,
        oldest_first: false,
        limit: 20,
        format: Format::Jsonl,
    }
}

fn text(s: &str) -> Option<String> {
    Some(s.to_string())
}

fn placeholders(sql: &str) -> usize {
    sql.matches('?').count()
}

#[test]
fn search_without_options() {
    let statement = run(&search());
    assert_eq!(
        statement.sql,
        format!("{TWEETS_HEAD}NOT t.deleted\n         ORDER BY t.created_at DESC\n         LIMIT 20) t")
    );
    assert!(statement.params.is_empty());
}

#[test]
fn search_keyword_and_account() {
    let mut args = search();
    args.keywords = vec!["旅行".to_string(), "京都".to_string()];
    args.account = text("alice");
    let statement = run(&args);
    assert_eq!(
        statement.sql,
        format!(
            "{TWEETS_HEAD}t.text ILIKE '%' || ? || '%' ESCAPE '\\' AND t.text ILIKE '%' || ? || '%' ESCAPE '\\' AND a.username = ? AND NOT t.deleted\n         ORDER BY t.created_at DESC\n         LIMIT 20) t"
        )
    );
    assert_eq!(statement.params, ["旅行", "京都", "alice"]);
}

/// The statement that a search command comes down to.
fn planned(args: SearchArgs) -> Statement {
    match plan(Command::Search(args)) {
        Plan::Read {
            mut statements,
            format: Format::Jsonl,
        } => {
            assert_eq!(statements.len(), 1);
            statements.remove(0)
        }
        _ => panic!("not a read"),
    }
}

/// The lines that these rows are written as, read as JSON again.
fn written(rows: &[&str]) -> Vec<serde_json::Value> {
    let mut output = Output::new(Format::Jsonl, vec!["t".to_string()]);
    let mut text = String::new();
    for row in rows {
        text.push_str(&output.accept(vec![Some(row.to_string())]).unwrap());
    }
    text.push_str(&output.finish());
    text.lines()
        .map(|line| serde_json::from_str(line).unwrap())
        .collect()
}

#[test]
fn search_spans_accounts() {
    let mut args = search();
    args.keywords = vec!["旅行".to_string()];
    let statement = planned(args);
    assert_eq!(
        statement.sql,
        format!(
            "{TWEETS_HEAD}t.text ILIKE '%' || ? || '%' ESCAPE '\\' AND NOT t.deleted\n         ORDER BY t.created_at DESC\n         LIMIT 20) t"
        )
    );
    assert_eq!(statement.params, ["旅行"]);
    // Rows of every account come out as they come in.
    let rows = written(&["{\"username\":\"bob\"}", "{\"username\":\"alice\"}"]);
    assert_eq!(rows.len(), 2);
    let usernames: Vec<&str> = rows
        .iter()
        .map(|r| r["username"].as_str().unwrap())
        .collect();
    assert_eq!(usernames, ["bob", "alice"]);

    let mut args = search();
    args.keywords = vec!["旅行".to_string()];
    args.account = Some("alice".to_string());
    let statement = planned(args);
    assert_eq!(
        statement.sql,
        format!(
            "{TWEETS_HEAD}t.text ILIKE '%' || ? || '%' ESCAPE '\\' AND a.username = ? AND NOT t.deleted\n         ORDER BY t.created_at DESC\n         LIMIT 20) t"
        )
    );
    assert_eq!(statement.params, ["旅行", "alice"]);
    let row = "{\"id\":\"1001\",\"created_at\":\"2018-09-24 03:35:21\",\"urls\":[\"https://example.com/travel\"]}";
    let rows = written(&[row]);
    assert_eq!(rows.len(), 1);
    assert_eq!(rows[0]["id"], "1001");
    assert_eq!(rows[0]["created_at"], "2018-09-24 03:35:21");
    assert_eq!(rows[0]["urls"][0], "https://example.com/travel");
}

#[test]
fn search_filters() {
    let mut args = search();
    args.reply_to = text("@carol");
    let statement = run(&args);
    assert!(statement
        .sql
        .contains("WHERE t.in_reply_to_screen_name = ? AND NOT t.deleted\n"));
    assert_eq!(statement.params, ["carol"]);

    let mut args = search();
    args.has_media = true;
    let statement = run(&args);
    assert!(statement
        .sql
        .contains("WHERE len(t.media_urls) > 0 AND NOT t.deleted\n"));
    assert!(statement.params.is_empty());

    // Deleted tweets are excluded unless asked for.
    let mut args = search();
    args.keywords = vec!["過去".to_string()];
    assert!(run(&args).sql.contains(" AND NOT t.deleted\n"));
    let mut args = search();
    args.only_deleted = true;
    assert!(run(&args).sql.contains("WHERE t.deleted\n"));

    let mut args = search();
    args.since = text("2018-09-25");
    args.until = text("2018-09-25");
    let statement = run(&args);
    assert!(statement.sql.contains(
        "WHERE t.created_at >= ?::TIMESTAMP AND t.created_at < ?::TIMESTAMP + INTERVAL 1 DAY AND NOT t.deleted\n"
    ));
    assert_eq!(statement.params, ["2018-09-25", "2018-09-25"]);
}

#[test]
fn search_with_every_option() {
    let mut args = search();
    args.keywords = vec!["a".to_string()];
    args.account = text("@@bob");
    args.since = text("2020-01-01");
    args.until = text("2020-12-31");
    args.mentions = text("@dave");
    args.reply_to = text("erin@");
    args.has_media = true;
    args.has_url = true;
    args.no_retweets = true;
    args.include_deleted = true;
    args.oldest_first = true;
    args.limit = 50;
    args.format = Format::Table;
    let statement = run(&args);
    assert!(statement
        .sql
        .starts_with("SELECT COLUMNS(*)::VARCHAR FROM (SELECT t.id, "));
    assert!(statement.sql.ends_with(
        "WHERE t.text ILIKE '%' || ? || '%' ESCAPE '\\' AND a.username = ? AND t.created_at >= ?::TIMESTAMP AND t.created_at < ?::TIMESTAMP + INTERVAL 1 DAY AND list_contains(t.mentions, ?) AND t.in_reply_to_screen_name = ? AND len(t.media_urls) > 0 AND len(t.urls) > 0 AND t.text NOT LIKE 'RT @%'\n         ORDER BY t.created_at ASC\n         LIMIT 50) t"
    ));
    assert_eq!(
        statement.params,
        ["a", "bob", "2020-01-01", "2020-12-31", "dave", "erin@"]
    );
    assert_eq!(placeholders(&statement.sql), statement.params.len());
}

#[test]
fn search_including_all_has_no_condition() {
    let mut args = search();
    args.include_deleted = true;
    assert!(run(&args).sql.contains("WHERE TRUE\n"));
}

#[test]
fn only_deleted_wins_over_include_deleted() {
    let mut args = search();
    args.include_deleted = true;
    args.only_deleted = true;
    let sql = run(&args).sql;
    assert!(sql.contains("WHERE t.deleted\n"));
}

#[test]
fn search_likes() {
    let mut args = search();
    args.likes = true;
    args.keywords = vec!["旅行".to_string()];
    let statement = run(&args);
    assert_eq!(
        statement.sql,
        "SELECT to_json(t)::VARCHAR FROM (SELECT l.tweet_id, a.username, l.text, l.url
         FROM likes l JOIN accounts a USING (account_id)
         WHERE l.text ILIKE '%' || ? || '%' ESCAPE '\\'
         ORDER BY try_cast(l.tweet_id AS UBIGINT) DESC NULLS LAST
         LIMIT 20) t"
    );
    assert_eq!(statement.params, ["旅行"]);
    // The same tweet liked from two accounts yields one row per account.
    let rows = written(&[
        "{\"tweet_id\":\"2001\",\"username\":\"alice\"}",
        "{\"tweet_id\":\"2001\",\"username\":\"bob\"}",
    ]);
    assert_eq!(rows.len(), 2);
    assert!(rows.iter().all(|r| r["tweet_id"] == "2001"));

    let mut args = search();
    args.likes = true;
    args.account = text("bob");
    let statement = planned(args);
    assert_eq!(
        statement.sql,
        "SELECT to_json(t)::VARCHAR FROM (SELECT l.tweet_id, a.username, l.text, l.url
         FROM likes l JOIN accounts a USING (account_id)
         WHERE a.username = ?
         ORDER BY try_cast(l.tweet_id AS UBIGINT) DESC NULLS LAST
         LIMIT 20) t"
    );
    assert_eq!(statement.params, ["bob"]);
    let rows = written(&["{\"url\":\"https://x.com/i/web/status/2001\"}"]);
    assert_eq!(rows.len(), 1);
    assert_eq!(rows[0]["url"], "https://x.com/i/web/status/2001");
}

#[test]
fn likes_oldest_first() {
    let mut args = search();
    args.likes = true;
    args.oldest_first = true;
    let statement = run(&args);
    assert!(statement.sql.contains("WHERE TRUE\n"));
    assert!(statement
        .sql
        .contains("ORDER BY try_cast(l.tweet_id AS UBIGINT) ASC NULLS LAST\n"));
    assert!(statement.params.is_empty());
}

#[test]
fn likes_ignore_tweet_options() {
    let mut plain = search();
    plain.likes = true;
    let mut odd = search();
    odd.likes = true;
    odd.since = text("2020-01-01");
    odd.has_url = true;
    odd.only_deleted = true;
    assert_eq!(run(&plain).sql, run(&odd).sql);
    assert_eq!(run(&plain).params, run(&odd).params);
}

#[test]
fn sql_does_not_hold_the_texts() {
    let mut one = search();
    one.keywords = vec!["one".to_string()];
    one.account = text("alice");
    let mut two = search();
    two.keywords = vec!["'; DROP TABLE tweets; --".to_string()];
    two.account = text("?");
    assert_eq!(run(&one).sql, run(&two).sql);
    assert_eq!(run(&two).params, ["'; DROP TABLE tweets; --", "?"]);
}

#[test]
fn keywords_are_taken_literally() {
    assert_eq!(escape_keyword("旅行"), "旅行");
    assert_eq!(escape_keyword("100%"), "100\\%");
    assert_eq!(escape_keyword("a_b\\c"), "a\\_b\\\\c");
    assert_eq!(escape_keyword(""), "");
    let mut args = search();
    args.keywords = vec!["100%".to_string()];
    assert_eq!(run(&args).params, ["100\\%"]);
}

#[test]
fn where_clause_joins_conditions() {
    assert_eq!(where_clause(&[]), "TRUE");
    assert_eq!(where_clause(&["a".to_string()]), "a");
    assert_eq!(
        where_clause(&["a".to_string(), "b".to_string(), "c".to_string()]),
        "a AND b AND c"
    );
}
