use twarq::archive::{base_name, data_json, data_kind, is_account_file, is_data_file, DataKind, ImportError};

#[test]
fn is_data_file_matches_parts() {
    assert!(is_data_file("tweets.js", "tweets"));
    assert!(is_data_file("tweets-part1.js", "tweets"));
    assert!(is_data_file("tweets-part12.js", "tweets"));
    assert!(!is_data_file("deleted-tweets.js", "tweets"));
    assert!(!is_data_file("tweets-part.js", "tweets"));
    assert!(!is_data_file("tweetsx.js", "tweets"));
    assert!(is_data_file("deleted-tweets.js", "deleted-tweets"));
}

#[test]
fn is_data_file_needs_digits_and_extension() {
    assert!(!is_data_file("tweets-part1", "tweets"));
    assert!(!is_data_file("tweets-part1x.js", "tweets"));
    assert!(!is_data_file("tweets-part-1.js", "tweets"));
    assert!(!is_data_file("tweets-part\u{0661}.js", "tweets"));
    assert!(!is_data_file("tweets", "tweets"));
    assert!(!is_data_file("tweet", "tweets"));
    assert!(!is_data_file("tweets.json", "tweets"));
    assert!(is_data_file("tweets-part007.js", "tweets"));
    assert!(is_data_file(".js", ""));
    assert!(is_data_file("-part3.js", ""));
}

#[test]
fn base_name_is_the_last_segment() {
    assert_eq!(base_name("data/tweets.js"), "tweets.js");
    assert_eq!(base_name("a/b/c.js"), "c.js");
    assert_eq!(base_name("tweets.js"), "tweets.js");
    assert_eq!(base_name("data/"), "");
    assert_eq!(base_name(""), "");
    assert_eq!(base_name("旅行/写真.js"), "写真.js");
}

#[test]
fn kinds_are_told_apart() {
    assert_eq!(data_kind("data/tweets.js"), Some(DataKind::Tweets));
    assert_eq!(data_kind("data/tweets-part1.js"), Some(DataKind::Tweets));
    assert_eq!(data_kind("data/deleted-tweets.js"), Some(DataKind::DeletedTweets));
    assert_eq!(data_kind("data/like.js"), Some(DataKind::Likes));
    assert_eq!(data_kind("data/follower.js"), Some(DataKind::Followers));
    assert_eq!(data_kind("data/following-part2.js"), Some(DataKind::Following));
    assert_eq!(data_kind("data/account.js"), None);
    assert_eq!(data_kind("data/tweets.js/readme.txt"), None);
    assert_eq!(data_kind("data/tweet-headers.js"), None);
}

#[test]
fn account_file_is_found_by_its_base_name() {
    assert!(is_account_file("data/account.js"));
    assert!(is_account_file("account.js"));
    assert!(!is_account_file("data/account-suspension.js"));
    assert!(!is_account_file("account.js/x"));
}

#[test]
fn data_json_strips_the_assignment() {
    assert_eq!(
        data_json("window.YTD.like.part0 = [ {\"like\": [] } ]", "data/like.js").unwrap(),
        "[ {\"like\": [] } ]"
    );
    assert_eq!(data_json("旅行[1]", "x").unwrap(), "[1]");
    assert_eq!(data_json("[", "x").unwrap(), "[");
}

#[test]
fn data_json_without_an_array_is_an_error() {
    let error = data_json("window.YTD.like.part0 = {}", "data/like.js").unwrap_err();
    assert!(matches!(error, ImportError::NoArray { .. }));
    assert_eq!(error.message(), "invalid data/like.js format: no JSON array found");
    assert_eq!(ImportError::NoAccount.message(), "no account.js found; not an X archive?");
    let name = "data/like.js".to_string();
    assert_eq!(ImportError::BadJson { name }.message(), "failed to parse data/like.js");
}
