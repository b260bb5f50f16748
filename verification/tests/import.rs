use twarq::archive::{data_json, DataKind, ImportError};
use twarq::cli::Format;
use twarq::import::{
    progress, skip_line, skip_notice, summary, warning, ImportAction, ImportEvent, ImportState, Stats,
};
use twarq::json::{json_list, parse_list};
use twarq::query::run_query;
use twarq::staging::{
    account_statement, stage_follow, stage_like, stage_tweet, staging, Account, Cell, Entities,
    ExtendedEntities, Follow, Hashtag, Like, Media, Tweet, Url, UserMention, SCHEMA, STAGE_TWEETS,
};

fn account(account_id: &str, username: &str, display_name: &str) -> Account {
    Account {
        account_id: account_id.to_string(),
        username: username.to_string(),
        account_display_name: display_name.to_string(),
    }
}

fn tweet(id: &str, text: &str, created_at: &str) -> Tweet {
    Tweet {
        id_str: id.to_string(),
        full_text: text.to_string(),
        created_at: created_at.to_string(),
        retweet_count: "1".to_string(),
        favorite_count: "2".to_string(),
        source: "<a href=\"https://example.com\">app</a>".to_string(),
        lang: "ja".to_string(),
        in_reply_to_status_id_str: None,
        in_reply_to_user_id_str: None,
        in_reply_to_screen_name: None,
        entities: Entities {
            hashtags: Vec::new(),
            user_mentions: Vec::new(),
            urls: Vec::new(),
        },
        extended_entities: ExtendedEntities { media: Vec::new() },
    }
}

/// Runs an import on an archive given by its entries: name, accounts, rows and
/// skipped rows. Returns what was done, and the report or the error.
fn import(entries: &[(&str, &[&str], usize, usize)]) -> (Vec<String>, Result<(String, Option<String>), String>) {
    let mut done = Vec::new();
    let (mut state, mut action) = ImportState::start(entries.len());
    loop {
        let event = match action {
            ImportAction::ReadName(i) => {
                done.push(format!("name {i}"));
                ImportEvent::Name(entries[i].0.to_string())
            }
            ImportAction::ReadAccount { index, name } => {
                done.push(format!("account {index} {name}"));
                ImportEvent::Accounts(entries[index].1.iter().map(|n| account("111", n, "")).collect())
            }
            ImportAction::Begin(statement) => {
                done.push(format!("begin {}", statement.params.join(",")));
                ImportEvent::Begun
            }
            ImportAction::Load { index, name, kind, account_id } => {
                done.push(format!("load {index} {name} {kind:?} for {account_id}"));
                ImportEvent::Loaded {
                    rows: entries[index].2,
                    skipped: entries[index].3,
                }
            }
            ImportAction::Commit => {
                done.push("commit".to_string());
                ImportEvent::Committed
            }
            ImportAction::Report { summary, warning } => return (done, Ok((summary, warning))),
            ImportAction::Fail(error) => {
                assert!(matches!(error, ImportError::NoAccount));
                return (done, Err(error.message()));
            }
        };
        (state, action) = state.step(event);
    }
}

#[test]
fn import_goes_through_all_entries() {
    let (done, outcome) = import(&[
        ("data/tweets.js", &[], 2, 0),
        ("data/account.js", &["alice"], 0, 0),
        ("data/readme.txt", &[], 0, 0),
        ("data/deleted-tweets.js", &[], 1, 0),
        ("data/like.js", &[], 2, 0),
        ("data/follower.js", &[], 1, 0),
        ("data/following.js", &[], 3, 0),
        ("data/tweets-part1.js", &[], 5, 0),
    ]);
    assert_eq!(
        done,
        [
            "name 0",
            "name 1",
            "account 1 data/account.js",
            "begin 111,alice,",
            "name 0",
            "load 0 data/tweets.js Tweets for 111",
            "name 1",
            "name 2",
            "name 3",
            "load 3 data/deleted-tweets.js DeletedTweets for 111",
            "name 4",
            "load 4 data/like.js Likes for 111",
            "name 5",
            "load 5 data/follower.js Followers for 111",
            "name 6",
            "load 6 data/following.js Following for 111",
            "name 7",
            "load 7 data/tweets-part1.js Tweets for 111",
            "commit",
        ]
    );
    assert_eq!(
        outcome,
        Ok((
            "@alice: imported 7 tweets (1 deleted), 2 likes, 1 followers, 3 following".to_string(),
            None
        ))
    );
}

#[test]
fn import_counts_skipped_tweets() {
    let (_, outcome) = import(&[
        ("data/account.js", &["carol", "dave"], 0, 0),
        ("data/tweets.js", &[], 2, 1),
        ("data/deleted-tweets.js", &[], 3, 2),
    ]);
    assert_eq!(
        outcome,
        Ok((
            "@carol: imported 1 tweets (1 deleted), 0 likes, 0 followers, 0 following".to_string(),
            Some("Warning: skipped 3 rows (run with --verbose for details)".to_string())
        ))
    );
}

#[test]
fn import_without_an_account_fails() {
    let message = Err("no account.js found; not an X archive?".to_string());
    assert_eq!(import(&[]), (Vec::new(), message.clone()));
    let (done, outcome) = import(&[("data/tweets.js", &[], 2, 0), ("x", &[], 0, 0)]);
    assert_eq!(done, ["name 0", "name 1"]);
    assert_eq!(outcome, message);
    // The first entry for the account decides.
    let (done, outcome) = import(&[("account.js", &[], 0, 0), ("data/account.js", &["a"], 0, 0)]);
    assert_eq!(done, ["name 0", "account 0 account.js"]);
    assert_eq!(outcome, message);
}

#[test]
fn stats_add_up() {
    let mut stats = Stats::default();
    stats.record(DataKind::Tweets, 10, 3);
    stats.record(DataKind::DeletedTweets, 4, 4);
    stats.record(DataKind::Likes, 5, 0);
    stats.record(DataKind::Followers, 6, 0);
    stats.record(DataKind::Following, 7, 0);
    stats.record(DataKind::Tweets, 1, 0);
    assert_eq!(
        (stats.tweets, stats.deleted_tweets, stats.likes, stats.followers, stats.following, stats.skipped),
        (8, 0, 5, 6, 7, 7)
    );
    assert_eq!(
        summary("alice", &stats),
        "@alice: imported 8 tweets (0 deleted), 5 likes, 6 followers, 7 following"
    );
    assert_eq!(
        warning(&stats).as_deref(),
        Some("Warning: skipped 7 rows (run with --verbose for details)")
    );
    assert_eq!(warning(&Stats::default()), None);
}

#[test]
fn only_fitting_events_are_accepted() {
    let (state, _) = ImportState::start(1);
    assert!(state.accepts(&ImportEvent::Name("x".to_string())));
    assert!(!state.accepts(&ImportEvent::Begun));
    assert!(!state.accepts(&ImportEvent::Committed));
    let stats = Stats {
        likes: usize::MAX,
        ..Stats::default()
    };
    assert!(stats.has_room(DataKind::Likes, 0, 0));
    assert!(!stats.has_room(DataKind::Likes, 1, 0));
    assert!(stats.has_room(DataKind::Tweets, 1, 1));
    assert!(!stats.has_room(DataKind::Tweets, 1, 2));
}

#[test]
fn progress_lines() {
    assert_eq!(progress("data/tweets.js", DataKind::Tweets, 2), "data/tweets.js: 2 tweets");
    assert_eq!(progress("d", DataKind::DeletedTweets, 1), "d: 1 deleted tweets");
    assert_eq!(progress("d", DataKind::Likes, 0), "d: 0 likes");
    assert_eq!(progress("d", DataKind::Followers, 12), "d: 12 followers");
    assert_eq!(progress("d", DataKind::Following, 3), "d: 3 following");
}

#[test]
fn skipped_tweets_are_named() {
    assert_eq!(
        skip_notice("1201", "Mon Sep 24 03:35:21 +0900 2018"),
        "skipping tweet 1201: unparseable created_at \"Mon Sep 24 03:35:21 +0900 2018\""
    );
    assert_eq!(
        skip_notice("1", "a\"\n"),
        "skipping tweet 1: unparseable created_at \"a\\\"\\n\""
    );
    assert_eq!(skip_line("1", "x"), "skipping tweet 1: unparseable created_at x");
}

#[test]
fn tweets_are_staged() {
    let mut t = tweet("1001", "旅行の写真 #travel", "Mon Sep 24 03:35:21 +0000 2018");
    t.entities.hashtags.push(Hashtag {
        text: "travel".to_string(),
    });
    for url in ["https://example.com/travel", "", "https://example.com/b"] {
        t.entities.urls.push(Url {
            expanded_url: url.to_string(),
        });
    }
    t.entities.user_mentions.push(UserMention {
        screen_name: "carol".to_string(),
    });
    for (url, media_type) in [
        ("https://pbs.twimg.com/1.jpg", "photo"),
        ("https://pbs.twimg.com/2.mp4", "video"),
    ] {
        t.extended_entities.media.push(Media {
            media_url_https: url.to_string(),
            media_type: media_type.to_string(),
        });
    }
    t.in_reply_to_status_id_str = Some("999".to_string());
    t.in_reply_to_user_id_str = Some("333".to_string());
    t.in_reply_to_screen_name = Some("carol".to_string());
    t.favorite_count = "many".to_string();
    let row = stage_tweet(&t);
    assert_eq!(row.id, "1001");
    assert_eq!(row.text, "旅行の写真 #travel");
    assert_eq!(row.created_at, "Mon Sep 24 03:35:21 +0000 2018");
    assert_eq!((row.retweet_count, row.favorite_count), (1, 0));
    assert_eq!(row.source, "<a href=\"https://example.com\">app</a>");
    assert_eq!(row.lang, "ja");
    assert_eq!(row.in_reply_to_status_id.as_deref(), Some("999"));
    assert_eq!(row.in_reply_to_user_id.as_deref(), Some("333"));
    assert_eq!(row.in_reply_to_screen_name.as_deref(), Some("carol"));
    assert_eq!(row.urls, "[\"https://example.com/travel\",\"https://example.com/b\"]");
    assert_eq!(row.hashtags, "[\"travel\"]");
    assert_eq!(row.mentions, "[\"carol\"]");
    assert_eq!(
        row.media_urls,
        "[\"https://pbs.twimg.com/1.jpg\",\"https://pbs.twimg.com/2.mp4\"]"
    );
    assert_eq!(row.media_types, "[\"photo\",\"video\"]");
}

#[test]
fn tweets_without_entities_are_staged() {
    let row = stage_tweet(&tweet("1", "", "x"));
    assert_eq!(row.in_reply_to_status_id, None);
    assert_eq!(row.in_reply_to_user_id, None);
    assert_eq!(row.in_reply_to_screen_name, None);
    for list in [row.urls, row.hashtags, row.mentions, row.media_urls, row.media_types] {
        assert_eq!(list, "[]");
    }
}

#[test]
fn likes_and_follows_are_staged() {
    let like = Like {
        tweet_id: "2002".to_string(),
        full_text: Some("another liked tweet".to_string()),
        expanded_url: None,
    };
    assert_eq!(
        stage_like(&like),
        [Some("2002".to_string()), Some("another liked tweet".to_string()), None]
    );
    let follow = Follow {
        account_id: "501".to_string(),
        user_link: "https://twitter.com/intent/user?user_id=501".to_string(),
    };
    assert_eq!(
        stage_follow(&follow),
        [
            Some("501".to_string()),
            Some("https://twitter.com/intent/user?user_id=501".to_string())
        ]
    );
}

#[test]
fn lists_keep_every_character() {
    let list = vec![
        "\"quoted\" \\ / \u{8}\t\n\u{c}\r\u{0}\u{1f}\u{7f}".to_string(),
        "旅行, [1]".to_string(),
        "".to_string(),
    ];
    let json = json_list(&list);
    assert_eq!(
        json,
        "[\"\\\"quoted\\\" \\\\ / \\b\\t\\n\\f\\r\\u0000\\u001f\u{7f}\",\"旅行, [1]\",\"\"]"
    );
    assert_eq!(parse_list(&json), Some(list));
    assert_eq!(json_list(&Vec::new()), "[]");
    assert_ne!(
        json_list(&vec!["a,b".to_string()]),
        json_list(&vec!["a".to_string(), "b".to_string()])
    );
}

#[test]
fn lists_read_back() {
    let every: String = (0..=0x2ffu32).filter_map(char::from_u32).collect();
    for list in [
        Vec::new(),
        vec!["".to_string()],
        vec![every, "\u{d7ff}\u{e000}\u{10ffff}".to_string()],
    ] {
        assert_eq!(parse_list(&json_list(&list)), Some(list));
    }
    assert_eq!(parse_list(" [ \"a\" , \"\\u65c5\" ] "), Some(vec!["a".to_string(), "旅".to_string()]));
    for text in ["", "[", "[1]", "{}", "\"a\"", "[\"a\"] x", "[\"a\",]"] {
        assert_eq!(parse_list(text), None, "{text}");
    }
}

#[test]
fn staging_binds_what_it_inserts() {
    for kind in [
        DataKind::Tweets,
        DataKind::DeletedTweets,
        DataKind::Likes,
        DataKind::Followers,
        DataKind::Following,
    ] {
        let staging = staging(kind);
        let bound = 1 + usize::from(staging.deleted.is_some());
        assert_eq!(staging.insert.matches('?').count(), bound);
        assert!(staging.insert.starts_with("INSERT OR IGNORE INTO "));
        assert!(staging.insert.contains(staging.table));
        assert!(staging
            .create
            .starts_with(&format!("CREATE OR REPLACE TEMP TABLE {} (", staging.table)));
        assert_eq!(staging.drop, format!("DROP TABLE {}", staging.table));
        assert_eq!(staging.skipped.is_some(), staging.deleted.is_some());
    }
    assert_eq!(staging(DataKind::Tweets).deleted, Some(false));
    assert_eq!(staging(DataKind::DeletedTweets).deleted, Some(true));
    assert!(staging(DataKind::Following).insert.contains("INTO following (account_id, following_id, user_link)"));
    assert!(staging(DataKind::Followers).insert.contains("INTO followers (account_id, follower_id, user_link)"));
}

#[test]
fn accounts_are_replaced() {
    let statement = account_statement(&account("111", "alice", "Alice"));
    assert_eq!(
        statement.sql,
        "INSERT OR REPLACE INTO accounts (account_id, username, display_name) VALUES (?, ?, ?)"
    );
    assert_eq!(statement.params, ["111", "alice", "Alice"]);
}

#[test]
fn tables_have_their_keys() {
    for table in ["accounts", "tweets", "likes", "followers", "following"] {
        assert!(SCHEMA.contains(&format!("CREATE TABLE IF NOT EXISTS {table} (")));
    }
    for key in [
        "account_id VARCHAR PRIMARY KEY",
        "PRIMARY KEY (account_id, id)",
        "PRIMARY KEY (account_id, tweet_id)",
        "PRIMARY KEY (account_id, follower_id)",
        "PRIMARY KEY (account_id, following_id)",
    ] {
        assert!(SCHEMA.contains(key), "{key}");
    }
}

#[test]
fn entry_order_does_not_matter() {
    let entries: [(&str, &[&str], usize, usize); 5] = [
        ("data/account.js", &["alice"], 0, 0),
        ("data/tweets.js", &[], 4, 1),
        ("data/deleted-tweets.js", &[], 3, 2),
        ("data/like.js", &[], 2, 0),
        ("data/tweets-part1.js", &[], 5, 0),
    ];
    let expected = Ok((
        "@alice: imported 8 tweets (1 deleted), 2 likes, 0 followers, 0 following".to_string(),
        Some("Warning: skipped 3 rows (run with --verbose for details)".to_string()),
    ));
    for turn in 0..entries.len() {
        let mut turned = entries;
        turned.rotate_left(turn);
        assert_eq!(import(&turned).1, expected);
        turned.reverse();
        assert_eq!(import(&turned).1, expected);
    }
    // Without an account it fails in any order.
    let mut without = [entries[1], entries[3]];
    let failed = import(&without).1;
    assert!(failed.is_err());
    without.reverse();
    assert_eq!(import(&without).1, failed);
}

#[test]
fn counts_fit_their_column() {
    let mut t = tweet("1", "", "Mon Sep 24 04:00:00 +0000 2018");
    for (text, stored) in [
        ("3000000000", 0),
        ("2147483648", 0),
        ("2147483647", 2147483647),
        ("-2147483648", -2147483648),
        ("-2147483649", 0),
        ("9223372036854775807", 0),
        ("1", 1),
        ("many", 0),
    ] {
        t.retweet_count = text.to_string();
        t.favorite_count = text.to_string();
        let row = stage_tweet(&t);
        assert_eq!((row.retweet_count, row.favorite_count), (stored, stored), "{text}");
    }
}

#[test]
fn cells_follow_the_columns() {
    let mut t = tweet("1001", "body", "Mon Sep 24 03:35:21 +0000 2018");
    t.in_reply_to_status_id_str = Some("999".to_string());
    t.in_reply_to_screen_name = Some("carol".to_string());
    t.entities.urls.push(Url {
        expanded_url: "https://example.com".to_string(),
    });
    t.entities.hashtags.push(Hashtag {
        text: "travel".to_string(),
    });
    t.entities.user_mentions.push(UserMention {
        screen_name: "dave".to_string(),
    });
    t.extended_entities.media.push(Media {
        media_url_https: "https://pbs.twimg.com/1.jpg".to_string(),
        media_type: "photo".to_string(),
    });
    let text = |s: &str| Cell::Text(Some(s.to_string()));
    let expected = [
        ("id VARCHAR", text("1001")),
        ("text VARCHAR", text("body")),
        ("created_at VARCHAR", text("Mon Sep 24 03:35:21 +0000 2018")),
        ("retweet_count BIGINT", Cell::Number(1)),
        ("favorite_count BIGINT", Cell::Number(2)),
        ("source VARCHAR", text("<a href=\"https://example.com\">app</a>")),
        ("lang VARCHAR", text("ja")),
        ("in_reply_to_status_id VARCHAR", text("999")),
        ("in_reply_to_user_id VARCHAR", Cell::Text(None)),
        ("in_reply_to_screen_name VARCHAR", text("carol")),
        ("urls VARCHAR", text("[\"https://example.com\"]")),
        ("hashtags VARCHAR", text("[\"travel\"]")),
        ("mentions VARCHAR", text("[\"dave\"]")),
        ("media_urls VARCHAR", text("[\"https://pbs.twimg.com/1.jpg\"]")),
        ("media_types VARCHAR", text("[\"photo\"]")),
    ];
    let (columns, cells): (Vec<&str>, Vec<Cell>) = expected.into_iter().unzip();
    assert_eq!(stage_tweet(&t).into_cells(), cells);
    assert_eq!(
        STAGE_TWEETS,
        format!(
            "CREATE OR REPLACE TEMP TABLE staged_tweets (\n            {})",
            columns.join(",\n            ")
        )
    );
}

#[test]
fn reimport_adds_no_duplicates() {
    let alice: [(&str, &[&str], usize, usize); 6] = [
        ("data/account.js", &["alice"], 0, 0),
        ("data/tweets.js", &[], 2, 0),
        ("data/deleted-tweets.js", &[], 1, 0),
        ("data/like.js", &[], 2, 0),
        ("data/follower.js", &[], 1, 0),
        ("data/following.js", &[], 1, 0),
    ];
    // The second import does what the first did, under the same account.
    let first = import(&alice);
    assert_eq!(import(&alice), first);
    assert_eq!(
        first.1,
        Ok((
            "@alice: imported 2 tweets (1 deleted), 2 likes, 1 followers, 1 following".to_string(),
            None
        ))
    );
    // A row that is there already is left alone.
    for (kind, insert, key) in [
        (DataKind::Tweets, "INSERT OR IGNORE INTO tweets\n", "PRIMARY KEY (account_id, id)"),
        (DataKind::DeletedTweets, "INSERT OR IGNORE INTO tweets\n", "PRIMARY KEY (account_id, id)"),
        (DataKind::Likes, "INSERT OR IGNORE INTO likes ", "PRIMARY KEY (account_id, tweet_id)"),
        (DataKind::Followers, "INSERT OR IGNORE INTO followers ", "PRIMARY KEY (account_id, follower_id)"),
        (DataKind::Following, "INSERT OR IGNORE INTO following ", "PRIMARY KEY (account_id, following_id)"),
    ] {
        assert!(staging(kind).insert.starts_with(insert));
        assert!(SCHEMA.contains(key));
    }
    for table in ["tweets", "likes"] {
        let sql = format!("SELECT count(*) AS n FROM {table}");
        assert_eq!(
            run_query(Format::Jsonl, &sql, Vec::new(), Some(100)).sql,
            format!("SELECT to_json(t)::VARCHAR FROM ({sql}) t LIMIT 100")
        );
    }
}

#[test]
fn import_skips_malformed_rows_within_transaction() {
    let content = "window.YTD.tweets.part0 = [ {}, {} ]";
    assert_eq!(data_json(content, "data/tweets.js").unwrap(), "[ {}, {} ]");

    // Both rows are staged; the insert leaves the malformed one behind.
    let bad = stage_tweet(&tweet("1201", "壊れた日付", "Mon Sep 24 03:35:21 +0900 2018"));
    assert_eq!((bad.id.as_str(), bad.text.as_str()), ("1201", "壊れた日付"));
    assert_eq!(bad.created_at, "Mon Sep 24 03:35:21 +0900 2018");
    let good = stage_tweet(&tweet("1202", "正常なツイート", "Mon Sep 24 04:00:00 +0000 2018"));
    assert_eq!((good.id.as_str(), good.text.as_str()), ("1202", "正常なツイート"));
    assert_eq!(good.created_at, "Mon Sep 24 04:00:00 +0000 2018");
    let staging = staging(DataKind::Tweets);
    let readable = "WHERE try_strptime(created_at, '%a %b %d %H:%M:%S +0000 %Y') IS ";
    assert!(staging.insert.ends_with(&format!("{readable}NOT NULL")));
    assert!(staging.skipped.unwrap().ends_with(&format!("{readable}NULL")));
    assert_eq!(
        skip_notice(&bad.id, &bad.created_at),
        "skipping tweet 1201: unparseable created_at \"Mon Sep 24 03:35:21 +0900 2018\""
    );

    // The transaction goes on to its commit.
    let (done, outcome) = import(&[
        ("data/account.js", &["carol"], 0, 0),
        ("data/tweets.js", &[], 2, 1),
    ]);
    assert_eq!(
        done,
        [
            "name 0",
            "account 0 data/account.js",
            "begin 111,carol,",
            "name 0",
            "name 1",
            "load 1 data/tweets.js Tweets for 111",
            "commit",
        ]
    );
    assert_eq!(
        outcome,
        Ok((
            "@carol: imported 1 tweets (0 deleted), 0 likes, 0 followers, 0 following".to_string(),
            Some("Warning: skipped 1 rows (run with --verbose for details)".to_string())
        ))
    );
}
