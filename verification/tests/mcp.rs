use twarq::cli::{plan, Command, Format, Plan, SearchArgs};
use twarq::mcp::{
    call, query, schema, search_likes, search_tweets, QueryParams, SearchLikesParams,
    SearchTweetsParams, INSTRUCTIONS,
};
use twarq::output::Output;
use twarq::search::run;

fn args(likes: bool, limit: usize) -> SearchArgs {
    SearchArgs {
        keywords: vec!["旅行".to_string()],
        account: Some("alice".to_string()),
        likes,
        since: None,
        until: None,
        mentions: None,
        reply_to: None,
        has_media: false,
        has_url: false,
        no_retweets: false,
        include_deleted: false,
        only_deleted: false,
        oldest_first: false,
        limit,
        format: Format::Jsonl,
    }
}

fn tweets(limit: Option<usize>) -> SearchTweetsParams {
    SearchTweetsParams {
        keywords: vec!["旅行".to_string()],
        account: Some("alice".to_string()),
        since: None,
        until: None,
        mentions: None,
        reply_to: None,
        has_media: false,
        has_url: false,
        no_retweets: false,
        include_deleted: false,
        only_deleted: false,
        oldest_first: false,
        limit,
    }
}

#[test]
fn tweet_tool_is_the_tweet_search() {
    let statement = search_tweets(tweets(None));
    let expected = run(&args(false, 20));
    assert_eq!(statement.sql, expected.sql);
    assert_eq!(statement.params, expected.params);
    assert_eq!(search_tweets(tweets(Some(0))).sql, run(&args(false, 0)).sql);
}

#[test]
fn tweet_tool_passes_every_option_on() {
    let params = SearchTweetsParams {
        keywords: Vec::new(),
        account: None,
        since: Some("a".to_string()),
        until: Some("b".to_string()),
        mentions: Some("c".to_string()),
        reply_to: Some("d".to_string()),
        has_media: true,
        has_url: true,
        no_retweets: true,
        include_deleted: true,
        only_deleted: true,
        oldest_first: true,
        limit: Some(3),
    };
    let args = params.into_args();
    assert_eq!(args.since.as_deref(), Some("a"));
    assert_eq!(args.until.as_deref(), Some("b"));
    assert_eq!(args.mentions.as_deref(), Some("c"));
    assert_eq!(args.reply_to.as_deref(), Some("d"));
    assert!(args.has_media && args.has_url && args.no_retweets);
    assert!(args.include_deleted && args.only_deleted && args.oldest_first);
    assert!(!args.likes);
    assert_eq!(args.limit, 3);
}

#[test]
fn like_tool_is_the_like_search() {
    let statement = search_likes(SearchLikesParams {
        keywords: vec!["旅行".to_string()],
        account: Some("alice".to_string()),
        oldest_first: false,
        limit: None,
    });
    let expected = run(&args(true, 20));
    assert_eq!(statement.sql, expected.sql);
    assert_eq!(statement.params, expected.params);
}

#[test]
fn query_tool_caps_rows() {
    let sql = |limit| {
        query(QueryParams {
            sql: "SELECT 1".to_string(),
            limit,
        })
        .sql
    };
    assert_eq!(sql(None), "SELECT to_json(t)::VARCHAR FROM (SELECT 1) t LIMIT 100");
    assert_eq!(sql(Some(5)), "SELECT to_json(t)::VARCHAR FROM (SELECT 1) t LIMIT 5");
    assert_eq!(sql(Some(0)), "SELECT to_json(t)::VARCHAR FROM (SELECT 1) t");
}

#[test]
fn schema_tool_reads_json_lines() {
    let statements = schema();
    assert_eq!(statements.len(), 2);
    for statement in statements {
        assert!(statement.sql.starts_with("SELECT to_json(t)::VARCHAR FROM (SELECT "));
        assert!(statement.params.is_empty());
    }
}

/// The reply to a call whose statement gave these rows.
fn reply(rows: &[&str]) -> Vec<serde_json::Value> {
    let mut output = Output::new(Format::Jsonl, vec!["t".to_string()]);
    let mut text = String::new();
    for row in rows {
        text.push_str(&output.accept(vec![Some(row.to_string())]).unwrap());
    }
    text.push_str(&output.finish());
    let reply = call(Ok(text));
    assert!(!reply.is_error);
    reply
        .text
        .lines()
        .map(|line| serde_json::from_str(line).unwrap())
        .collect()
}

#[test]
fn mcp_serves_tools() {
    for name in ["query", "schema", "search_likes", "search_tweets"] {
        assert!(INSTRUCTIONS.contains(name));
    }

    let statement = search_tweets(tweets(None));
    assert!(statement.sql.contains(
        "WHERE t.text ILIKE '%' || ? || '%' ESCAPE '\\' AND a.username = ? AND NOT t.deleted\n"
    ));
    assert_eq!(statement.params, ["旅行", "alice"]);
    let rows = reply(&["{\"id\":\"1001\"}"]);
    assert_eq!(rows.len(), 1);
    assert_eq!(rows[0]["id"], "1001");

    // Bad SQL surfaces as a tool-level error with a readable message.
    let statement = query(QueryParams {
        sql: "SELECT nope".to_string(),
        limit: None,
    });
    assert_eq!(
        statement.sql,
        "SELECT to_json(t)::VARCHAR FROM (SELECT nope) t LIMIT 100"
    );
    assert!(statement.params.is_empty());
    let message = "Binder Error: Referenced column \"nope\" not found";
    let reply = call(Err(message.to_string()));
    assert!(reply.is_error);
    assert_eq!(reply.text, message);
}

#[test]
fn mcp_serves_tools_over_http() {
    let served = plan(Command::Mcp {
        http: Some("127.0.0.1:8080".to_string()),
    });
    assert!(served.read_only());
    assert!(matches!(served, Plan::Serve { http: Some(addr) } if addr == "127.0.0.1:8080"));

    let statement = search_likes(SearchLikesParams {
        keywords: vec!["旅行".to_string()],
        account: Some("bob".to_string()),
        oldest_first: false,
        limit: None,
    });
    assert_eq!(
        statement.sql,
        "SELECT to_json(t)::VARCHAR FROM (SELECT l.tweet_id, a.username, l.text, l.url
         FROM likes l JOIN accounts a USING (account_id)
         WHERE l.text ILIKE '%' || ? || '%' ESCAPE '\\' AND a.username = ?
         ORDER BY try_cast(l.tweet_id AS UBIGINT) DESC NULLS LAST
         LIMIT 20) t"
    );
    assert_eq!(statement.params, ["旅行", "bob"]);
    let rows = reply(&["{\"tweet_id\":\"2001\"}"]);
    assert_eq!(rows.len(), 1);
    assert_eq!(rows[0]["tweet_id"], "2001");
}

#[test]
fn failures_are_tool_errors() {
    let reply = call(Ok("{\"id\":1}\n".to_string()));
    assert!(!reply.is_error);
    assert_eq!(reply.text, "{\"id\":1}\n");
    let reply = call(Err("Binder Error: nope".to_string()));
    assert!(reply.is_error);
    assert_eq!(reply.text, "Binder Error: nope");
}

#[test]
fn instructions_name_the_tools() {
    assert!(INSTRUCTIONS.starts_with(
        "Searches X (Twitter) archives imported into a local DuckDB database. The database is opened read-only."
    ));
    for tool in ["search_tweets", "search_likes", "schema", "query"] {
        assert!(INSTRUCTIONS.contains(tool));
    }
}
