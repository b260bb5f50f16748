//! Rows on their way into the database.
//!
//! Rows go through a staging table rather than through an INSERT of their own:
//! appending them and then converting the whole batch in one INSERT ... SELECT
//! is what keeps an import fast.

use crate::archive::{data_file, kind_of, last_segment, law_kind_is_decided_by_the_name, DataKind};
use crate::cli::optional_text;
use crate::json::{json_array, json_list, law_json_list_reads_back, read_array};
use crate::number::{count_of, integer, parse_count};
use crate::output::row_of;
use crate::query::Statement;
use crate::text::{lemma_texts_push, texts};
use vstd::prelude::*;

verus! {

/// The account that an archive belongs to.
#[derive(Debug)]
pub struct Account {
    pub account_id: String,
    pub username: String,
    pub account_display_name: String,
}

/// A hashtag in a tweet.
#[derive(Debug)]
pub struct Hashtag {
    pub text: String,
}

/// A user mentioned in a tweet.
#[derive(Debug)]
pub struct UserMention {
    pub screen_name: String,
}

/// A link in a tweet.
#[derive(Debug)]
pub struct Url {
    pub expanded_url: String,
}

/// An image or video attached to a tweet.
#[derive(Debug)]
pub struct Media {
    pub media_url_https: String,
    pub media_type: String,
}

/// What a tweet's text refers to.
#[derive(Debug)]
pub struct Entities {
    pub hashtags: Vec<Hashtag>,
    pub user_mentions: Vec<UserMention>,
    pub urls: Vec<Url>,
}

/// All media of a tweet.
#[derive(Debug)]
pub struct ExtendedEntities {
    pub media: Vec<Media>,
}

/// A tweet as the archive holds it.
#[derive(Debug)]
pub struct Tweet {
    pub id_str: String,
    pub full_text: String,
    pub created_at: String,
    pub retweet_count: String,
    pub favorite_count: String,
    pub source: String,
    pub lang: String,
    pub in_reply_to_status_id_str: Option<String>,
    pub in_reply_to_user_id_str: Option<String>,
    pub in_reply_to_screen_name: Option<String>,
    pub entities: Entities,
    // Multi-photo tweets list every image only here; the entities hold just
    // the first one.
    pub extended_entities: ExtendedEntities,
}

/// A like as the archive holds it.
#[derive(Debug)]
pub struct Like {
    pub tweet_id: String,
    pub full_text: Option<String>,
    pub expanded_url: Option<String>,
}

/// A follower, or an account that is followed, as the archive holds it.
#[derive(Debug)]
pub struct Follow {
    pub account_id: String,
    pub user_link: String,
}

/// A tweet as the staging table holds it. Lists are JSON text.
#[derive(Debug)]
pub struct StagedTweet {
    pub id: String,
    pub text: String,
    pub created_at: String,
    pub retweet_count: i64,
    pub favorite_count: i64,
    pub source: String,
    pub lang: String,
    pub in_reply_to_status_id: Option<String>,
    pub in_reply_to_user_id: Option<String>,
    pub in_reply_to_screen_name: Option<String>,
    pub urls: String,
    pub hashtags: String,
    pub mentions: String,
    pub media_urls: String,
    pub media_types: String,
}

/// The links of a tweet, in order; those without an address are left out.
pub open spec fn links(urls: Seq<Url>) -> Seq<Seq<char>>
    decreases urls.len(),
{
    if urls.len() == 0 {
        Seq::empty()
    } else {
        let link = urls.last().expanded_url@;
        if link.len() == 0 {
            links(urls.drop_last())
        } else {
            links(urls.drop_last()).push(link)
        }
    }
}

/// The hashtags of a tweet, in order.
pub open spec fn tags(hashtags: Seq<Hashtag>) -> Seq<Seq<char>> {
    hashtags.map_values(|hashtag: Hashtag| hashtag.text@)
}

/// The screen names that a tweet mentions, in order.
pub open spec fn names(mentions: Seq<UserMention>) -> Seq<Seq<char>> {
    mentions.map_values(|mention: UserMention| mention.screen_name@)
}

/// The addresses of a tweet's media, in order.
pub open spec fn media_urls(media: Seq<Media>) -> Seq<Seq<char>> {
    media.map_values(|m: Media| m.media_url_https@)
}

/// The types of a tweet's media, in order.
pub open spec fn media_types(media: Seq<Media>) -> Seq<Seq<char>> {
    media.map_values(|m: Media| m.media_type@)
}

/// Whether `n` fits the columns for counts, which are INTEGER.
pub open spec fn fits_column(n: int) -> bool {
    i32::MIN <= n <= i32::MAX
}

/// The count that is stored for the archive's text `s`: zero for one that does
/// not fit its column, since an error on insert would poison the transaction of
/// the whole archive.
pub open spec fn stored_count(s: Seq<char>) -> int {
    if fits_column(count_of(s)) {
        count_of(s)
    } else {
        0
    }
}

/// Reads the count that is stored for the archive's text `s`.
fn read_count(s: &str) -> (r: i64)
    ensures
        r == stored_count(s@),
{
    let count = parse_count(s);
    if i32::MIN as i64 <= count && count <= i32::MAX as i64 {
        count
    } else {
        0
    }
}

/// Whether `row` is what the staging table holds of `tweet`.
pub open spec fn stages(tweet: Tweet, row: StagedTweet) -> bool {
    &&& row.id@ == tweet.id_str@
    &&& row.text@ == tweet.full_text@
    &&& row.created_at@ == tweet.created_at@
    &&& row.retweet_count == stored_count(tweet.retweet_count@)
    &&& row.favorite_count == stored_count(tweet.favorite_count@)
    &&& row.source@ == tweet.source@
    &&& row.lang@ == tweet.lang@
    &&& optional_text(row.in_reply_to_status_id) == optional_text(tweet.in_reply_to_status_id_str)
    &&& optional_text(row.in_reply_to_user_id) == optional_text(tweet.in_reply_to_user_id_str)
    &&& optional_text(row.in_reply_to_screen_name) == optional_text(tweet.in_reply_to_screen_name)
    &&& row.urls@ == json_array(links(tweet.entities.urls@))
    &&& row.hashtags@ == json_array(tags(tweet.entities.hashtags@))
    &&& row.mentions@ == json_array(names(tweet.entities.user_mentions@))
    &&& row.media_urls@ == json_array(media_urls(tweet.extended_entities.media@))
    &&& row.media_types@ == json_array(media_types(tweet.extended_entities.media@))
}

fn link_list(urls: &Vec<Url>) -> (r: Vec<String>)
    ensures
        texts(r@) == links(urls@),
{
    let mut r: Vec<String> = Vec::new();
    let mut i: usize = 0;
    assert(texts(r@) =~= links(urls@.take(0)));
    while i < urls.len()
        invariant
            i <= urls@.len(),
            texts(r@) == links(urls@.take(i as int)),
        decreases urls@.len() - i,
    {
        assert(urls@.take(i + 1).drop_last() =~= urls@.take(i as int));
        let link = urls[i].expanded_url.clone();
        if !link.as_str().is_empty() {
            proof {
                lemma_texts_push(r@, link);
            }
            r.push(link);
        }
        i += 1;
    }
    assert(urls@.take(i as int) =~= urls@);
    r
}

fn tag_list(hashtags: &Vec<Hashtag>) -> (r: Vec<String>)
    ensures
        texts(r@) == tags(hashtags@),
{
    let mut r: Vec<String> = Vec::new();
    let mut i: usize = 0;
    while i < hashtags.len()
        invariant
            i <= hashtags@.len(),
            texts(r@) == tags(hashtags@).take(i as int),
        decreases hashtags@.len() - i,
    {
        let tag = hashtags[i].text.clone();
        proof {
            lemma_texts_push(r@, tag);
            assert(tags(hashtags@).take(i + 1) =~= tags(hashtags@).take(i as int).push(tag@));
        }
        r.push(tag);
        i += 1;
    }
    assert(tags(hashtags@).take(i as int) =~= tags(hashtags@));
    r
}

fn name_list(mentions: &Vec<UserMention>) -> (r: Vec<String>)
    ensures
        texts(r@) == names(mentions@),
{
    let mut r: Vec<String> = Vec::new();
    let mut i: usize = 0;
    while i < mentions.len()
        invariant
            i <= mentions@.len(),
            texts(r@) == names(mentions@).take(i as int),
        decreases mentions@.len() - i,
    {
        let name = mentions[i].screen_name.clone();
        proof {
            lemma_texts_push(r@, name);
            assert(names(mentions@).take(i + 1) =~= names(mentions@).take(i as int).push(name@));
        }
        r.push(name);
        i += 1;
    }
    assert(names(mentions@).take(i as int) =~= names(mentions@));
    r
}

fn media_lists(media: &Vec<Media>) -> (r: (Vec<String>, Vec<String>))
    ensures
        texts(r.0@) == media_urls(media@),
        texts(r.1@) == media_types(media@),
{
    let mut urls: Vec<String> = Vec::new();
    let mut types: Vec<String> = Vec::new();
    let mut i: usize = 0;
    while i < media.len()
        invariant
            i <= media@.len(),
            texts(urls@) == media_urls(media@).take(i as int),
            texts(types@) == media_types(media@).take(i as int),
        decreases media@.len() - i,
    {
        let url = media[i].media_url_https.clone();
        let kind = media[i].media_type.clone();
        proof {
            lemma_texts_push(urls@, url);
            lemma_texts_push(types@, kind);
            assert(media_urls(media@).take(i + 1) =~= media_urls(media@).take(i as int).push(url@));
            assert(media_types(media@).take(i + 1) =~= media_types(media@).take(i as int).push(
                kind@,
            ));
        }
        urls.push(url);
        types.push(kind);
        i += 1;
    }
    assert(media_urls(media@).take(i as int) =~= media_urls(media@));
    assert(media_types(media@).take(i as int) =~= media_types(media@));
    (urls, types)
}

/// The row of the staging table for a tweet.
pub fn stage_tweet(tweet: &Tweet) -> (r: StagedTweet)
    ensures
        stages(*tweet, r),
{
    let (media_urls, media_types) = media_lists(&tweet.extended_entities.media);
    StagedTweet {
        id: tweet.id_str.clone(),
        text: tweet.full_text.clone(),
        created_at: tweet.created_at.clone(),
        retweet_count: read_count(tweet.retweet_count.as_str()),
        favorite_count: read_count(tweet.favorite_count.as_str()),
        source: tweet.source.clone(),
        lang: tweet.lang.clone(),
        in_reply_to_status_id: tweet.in_reply_to_status_id_str.clone(),
        in_reply_to_user_id: tweet.in_reply_to_user_id_str.clone(),
        in_reply_to_screen_name: tweet.in_reply_to_screen_name.clone(),
        urls: json_list(&link_list(&tweet.entities.urls)),
        hashtags: json_list(&tag_list(&tweet.entities.hashtags)),
        mentions: json_list(&name_list(&tweet.entities.user_mentions)),
        media_urls: json_list(&media_urls),
        media_types: json_list(&media_types),
    }
}

/// A value for a column of the staging table for tweets.
#[derive(Debug, PartialEq, Eq)]
pub enum Cell {
    /// A text, or NULL.
    Text(Option<String>),
    /// A number.
    Number(i64),
}

/// The text or number of a [`Cell`].
pub enum CellValue {
    Text(Option<Seq<char>>),
    Number(int),
}

impl View for Cell {
    type V = CellValue;

    open spec fn view(&self) -> CellValue {
        match *self {
            Cell::Text(text) => CellValue::Text(optional_text(text)),
            Cell::Number(n) => CellValue::Number(n as int),
        }
    }
}

/// The values of cells.
pub open spec fn cell_values(cells: Seq<Cell>) -> Seq<CellValue> {
    cells.map_values(|cell: Cell| cell@)
}

impl StagedTweet {
    /// The row's values, in the order of the columns of [`STAGE_TWEETS`].
    pub open spec fn values(self) -> Seq<CellValue> {
        seq![
            CellValue::Text(Some(self.id@)),
            CellValue::Text(Some(self.text@)),
            CellValue::Text(Some(self.created_at@)),
            CellValue::Number(self.retweet_count as int),
            CellValue::Number(self.favorite_count as int),
            CellValue::Text(Some(self.source@)),
            CellValue::Text(Some(self.lang@)),
            CellValue::Text(optional_text(self.in_reply_to_status_id)),
            CellValue::Text(optional_text(self.in_reply_to_user_id)),
            CellValue::Text(optional_text(self.in_reply_to_screen_name)),
            CellValue::Text(Some(self.urls@)),
            CellValue::Text(Some(self.hashtags@)),
            CellValue::Text(Some(self.mentions@)),
            CellValue::Text(Some(self.media_urls@)),
            CellValue::Text(Some(self.media_types@)),
        ]
    }

    /// The row's cells, in the order of the columns of [`STAGE_TWEETS`].
    pub fn into_cells(self) -> (r: Vec<Cell>)
        ensures
            cell_values(r@) == self.values(),
    {
        let ghost values = self.values();
        let r = vec![
            Cell::Text(Some(self.id)),
            Cell::Text(Some(self.text)),
            Cell::Text(Some(self.created_at)),
            Cell::Number(self.retweet_count),
            Cell::Number(self.favorite_count),
            Cell::Text(Some(self.source)),
            Cell::Text(Some(self.lang)),
            Cell::Text(self.in_reply_to_status_id),
            Cell::Text(self.in_reply_to_user_id),
            Cell::Text(self.in_reply_to_screen_name),
            Cell::Text(Some(self.urls)),
            Cell::Text(Some(self.hashtags)),
            Cell::Text(Some(self.mentions)),
            Cell::Text(Some(self.media_urls)),
            Cell::Text(Some(self.media_types)),
        ];
        assert(cell_values(r@) =~= values);
        r
    }
}

/// The row of the staging table for a like: the tweet's ID, its text and its
/// address, the latter two as far as they are known.
pub fn stage_like(like: &Like) -> (r: Vec<Option<String>>)
    ensures
        row_of(r@) == seq![
            Some(like.tweet_id@),
            optional_text(like.full_text),
            optional_text(like.expanded_url),
        ],
{
    let r = vec![Some(like.tweet_id.clone()), like.full_text.clone(), like.expanded_url.clone()];
    assert(row_of(r@) =~= seq![
        Some(like.tweet_id@),
        optional_text(like.full_text),
        optional_text(like.expanded_url),
    ]);
    r
}

/// The row of the staging table for a follower or an account that is followed:
/// the user's ID and a link to the user.
pub fn stage_follow(follow: &Follow) -> (r: Vec<Option<String>>)
    ensures
        row_of(r@) == seq![Some(follow.account_id@), Some(follow.user_link@)],
{
    let r = vec![Some(follow.account_id.clone()), Some(follow.user_link.clone())];
    assert(row_of(r@) =~= seq![Some(follow.account_id@), Some(follow.user_link@)]);
    r
}

/// The tables of the database. There is no full-text index on purpose: a
/// tokenizer that goes by white space finds nothing in Japanese text, and a
/// substring scan is fast enough.
pub const SCHEMA: &'static str =
    "
    CREATE TABLE IF NOT EXISTS accounts (
        account_id VARCHAR PRIMARY KEY,
        username VARCHAR,
        display_name VARCHAR
    );
    CREATE TABLE IF NOT EXISTS tweets (
        account_id VARCHAR,
        id VARCHAR,
        text TEXT,
        created_at TIMESTAMP,
        retweet_count INTEGER,
        favorite_count INTEGER,
        source TEXT,
        lang VARCHAR,
        deleted BOOLEAN,
        in_reply_to_status_id VARCHAR,
        in_reply_to_user_id VARCHAR,
        in_reply_to_screen_name VARCHAR,
        urls VARCHAR[],
        hashtags VARCHAR[],
        mentions VARCHAR[],
        media_urls VARCHAR[],
        media_types VARCHAR[],
        PRIMARY KEY (account_id, id)
    );
    CREATE TABLE IF NOT EXISTS likes (
        account_id VARCHAR,
        tweet_id VARCHAR,
        text TEXT,
        url TEXT,
        PRIMARY KEY (account_id, tweet_id)
    );
    CREATE TABLE IF NOT EXISTS followers (
        account_id VARCHAR,
        follower_id VARCHAR,
        user_link TEXT,
        PRIMARY KEY (account_id, follower_id)
    );
    CREATE TABLE IF NOT EXISTS following (
        account_id VARCHAR,
        following_id VARCHAR,
        user_link TEXT,
        PRIMARY KEY (account_id, following_id)
    );";

/// The staging table for tweets.
pub const STAGE_TWEETS: &'static str =
    "CREATE OR REPLACE TEMP TABLE staged_tweets (
            id VARCHAR,
            text VARCHAR,
            created_at VARCHAR,
            retweet_count BIGINT,
            favorite_count BIGINT,
            source VARCHAR,
            lang VARCHAR,
            in_reply_to_status_id VARCHAR,
            in_reply_to_user_id VARCHAR,
            in_reply_to_screen_name VARCHAR,
            urls VARCHAR,
            hashtags VARCHAR,
            mentions VARCHAR,
            media_urls VARCHAR,
            media_types VARCHAR)";

/// The staging table for likes.
pub const STAGE_LIKES: &'static str =
    "CREATE OR REPLACE TEMP TABLE staged_likes (tweet_id VARCHAR, text VARCHAR, url VARCHAR)";

/// The staging table for followers and following.
pub const STAGE_FOLLOWS: &'static str =
    "CREATE OR REPLACE TEMP TABLE staged_follows (follow_id VARCHAR, user_link VARCHAR)";

/// Stores an account. A newer archive of the same account wins, picking up
/// renames.
pub const INSERT_ACCOUNT: &'static str =
    "INSERT OR REPLACE INTO accounts (account_id, username, display_name) VALUES (?, ?, ?)";

/// Moves staged tweets into their table. A tweet whose time cannot be read is
/// left behind without an error: an error would poison the transaction of the
/// whole archive. The offset is matched literally, since archive timestamps are
/// always +0000.
pub const INSERT_TWEETS: &'static str =
    "INSERT OR IGNORE INTO tweets
           (account_id, id, text, created_at, retweet_count, favorite_count,
            source, lang, deleted, in_reply_to_status_id, in_reply_to_user_id,
            in_reply_to_screen_name, urls, hashtags, mentions, media_urls, media_types)
         SELECT ?, id, text, try_strptime(created_at, '%a %b %d %H:%M:%S +0000 %Y'),
                retweet_count, favorite_count, source, lang, ?,
                in_reply_to_status_id, in_reply_to_user_id, in_reply_to_screen_name,
                from_json(urls::JSON, '[\"VARCHAR\"]'), from_json(hashtags::JSON, '[\"VARCHAR\"]'),
                from_json(mentions::JSON, '[\"VARCHAR\"]'), from_json(media_urls::JSON, '[\"VARCHAR\"]'),
                from_json(media_types::JSON, '[\"VARCHAR\"]')
         FROM staged_tweets
         WHERE try_strptime(created_at, '%a %b %d %H:%M:%S +0000 %Y') IS NOT NULL";

/// Moves staged likes into their table.
pub const INSERT_LIKES: &'static str =
    "INSERT OR IGNORE INTO likes (account_id, tweet_id, text, url)
         SELECT ?, tweet_id, text, url FROM staged_likes";

/// Moves staged followers into their table.
pub const INSERT_FOLLOWERS: &'static str =
    "INSERT OR IGNORE INTO followers (account_id, follower_id, user_link)
                 SELECT ?, follow_id, user_link FROM staged_follows";

/// Moves staged accounts that are followed into their table.
pub const INSERT_FOLLOWING: &'static str =
    "INSERT OR IGNORE INTO following (account_id, following_id, user_link)
                 SELECT ?, follow_id, user_link FROM staged_follows";

/// Lists the staged tweets that are left behind.
pub const SKIPPED_TWEETS: &'static str =
    "SELECT id, created_at FROM staged_tweets
         WHERE try_strptime(created_at, '%a %b %d %H:%M:%S +0000 %Y') IS NULL";

/// How the rows of a data file get into their table.
#[derive(Debug)]
pub struct Staging {
    /// Creates the staging table.
    pub create: &'static str,
    /// The name of the staging table.
    pub table: &'static str,
    /// Moves the staged rows into their table. The first value it binds is the
    /// account's ID.
    pub insert: &'static str,
    /// The second value that `insert` binds, for tweets: whether they are
    /// deleted.
    pub deleted: Option<bool>,
    /// Lists the rows that were left behind, for tweets.
    pub skipped: Option<&'static str>,
    /// Drops the staging table.
    pub drop: &'static str,
}

/// The statement that moves staged rows of a kind into their table.
pub open spec fn insert_sql(kind: DataKind) -> Seq<char> {
    match kind {
        DataKind::Tweets | DataKind::DeletedTweets => INSERT_TWEETS@,
        DataKind::Likes => INSERT_LIKES@,
        DataKind::Followers => INSERT_FOLLOWERS@,
        DataKind::Following => INSERT_FOLLOWING@,
    }
}

/// The statement that creates the staging table of a kind.
pub open spec fn stage_sql(kind: DataKind) -> Seq<char> {
    match kind {
        DataKind::Tweets | DataKind::DeletedTweets => STAGE_TWEETS@,
        DataKind::Likes => STAGE_LIKES@,
        DataKind::Followers | DataKind::Following => STAGE_FOLLOWS@,
    }
}

/// The staging table of a kind.
pub open spec fn stage_table(kind: DataKind) -> Seq<char> {
    match kind {
        DataKind::Tweets | DataKind::DeletedTweets => "staged_tweets"@,
        DataKind::Likes => "staged_likes"@,
        DataKind::Followers | DataKind::Following => "staged_follows"@,
    }
}

/// Whether the tweets of a kind are deleted; `None` for a kind that holds no
/// tweets.
pub open spec fn deletion(kind: DataKind) -> Option<bool> {
    match kind {
        DataKind::Tweets => Some(false),
        DataKind::DeletedTweets => Some(true),
        _ => None,
    }
}

/// The way into the database for a kind of data.
pub fn staging(kind: DataKind) -> (r: Staging)
    ensures
        r.create@ == stage_sql(kind),
        r.table@ == stage_table(kind),
        r.insert@ == insert_sql(kind),
        r.deleted == deletion(kind),
        r.drop@ == "DROP TABLE "@ + stage_table(kind),
        r.skipped is Some <==> deletion(kind) is Some,
        r.skipped matches Some(sql) ==> sql@ == SKIPPED_TWEETS@,
{
    match kind {
        DataKind::Tweets => tweet_staging(false),
        DataKind::DeletedTweets => tweet_staging(true),
        DataKind::Likes => {
            proof {
                reveal_strlit("DROP TABLE ");
                reveal_strlit("staged_likes");
                reveal_strlit("DROP TABLE staged_likes");
                assert("DROP TABLE staged_likes"@ =~= "DROP TABLE "@ + "staged_likes"@);
            }
            Staging {
                create: STAGE_LIKES,
                table: "staged_likes",
                insert: INSERT_LIKES,
                deleted: None,
                skipped: None,
                drop: "DROP TABLE staged_likes",
            }
        },
        DataKind::Followers => follow_staging(INSERT_FOLLOWERS),
        DataKind::Following => follow_staging(INSERT_FOLLOWING),
    }
}

fn tweet_staging(deleted: bool) -> (r: Staging)
    ensures
        r.create@ == STAGE_TWEETS@,
        r.table@ == "staged_tweets"@,
        r.insert@ == INSERT_TWEETS@,
        r.deleted == Some(deleted),
        r.skipped matches Some(sql) && sql@ == SKIPPED_TWEETS@,
        r.drop@ == "DROP TABLE "@ + "staged_tweets"@,
{
    proof {
        reveal_strlit("DROP TABLE ");
        reveal_strlit("staged_tweets");
        reveal_strlit("DROP TABLE staged_tweets");
        assert("DROP TABLE staged_tweets"@ =~= "DROP TABLE "@ + "staged_tweets"@);
    }
    Staging {
        create: STAGE_TWEETS,
        table: "staged_tweets",
        insert: INSERT_TWEETS,
        deleted: Some(deleted),
        skipped: Some(SKIPPED_TWEETS),
        drop: "DROP TABLE staged_tweets",
    }
}

/// Followers and following differ only in the target table.
fn follow_staging(insert: &'static str) -> (r: Staging)
    ensures
        r.create@ == STAGE_FOLLOWS@,
        r.table@ == "staged_follows"@,
        r.insert@ == insert@,
        r.deleted is None,
        r.skipped is None,
        r.drop@ == "DROP TABLE "@ + "staged_follows"@,
{
    proof {
        reveal_strlit("DROP TABLE ");
        reveal_strlit("staged_follows");
        reveal_strlit("DROP TABLE staged_follows");
        assert("DROP TABLE staged_follows"@ =~= "DROP TABLE "@ + "staged_follows"@);
    }
    Staging {
        create: STAGE_FOLLOWS,
        table: "staged_follows",
        insert,
        deleted: None,
        skipped: None,
        drop: "DROP TABLE staged_follows",
    }
}

/// The texts that an account's row holds.
pub open spec fn account_values(account: Account) -> Seq<Seq<char>> {
    seq![account.account_id@, account.username@, account.account_display_name@]
}

/// The statement that stores an account.
pub fn account_statement(account: &Account) -> (r: Statement)
    ensures
        r.sql@ == INSERT_ACCOUNT@,
        texts(r.params@) == account_values(*account),
{
    let params = vec![
        account.account_id.clone(),
        account.username.clone(),
        account.account_display_name.clone(),
    ];
    assert(texts(params@) =~= account_values(*account));
    Statement { sql: INSERT_ACCOUNT.to_string(), params }
}

/// Tweets are stored as deleted exactly when they come from a file of deleted
/// tweets.
pub proof fn law_deleted_tweets_are_marked(name: Seq<char>)
    ensures
        (kind_of(name) is Some && deletion(kind_of(name)->0) == Some(true)) <==> data_file(
            last_segment(name),
            DataKind::DeletedTweets.stem(),
        ),
{
    law_kind_is_decided_by_the_name(name, DataKind::DeletedTweets);
}

/// Every staged count fits its column, whatever the archive says: no count can
/// make the insert fail and take the rows around it along.
pub proof fn law_staged_counts_fit(tweet: Tweet, row: StagedTweet)
    requires
        stages(tweet, row),
    ensures
        fits_column(row.retweet_count as int),
        fits_column(row.favorite_count as int),
{
}

/// The media lists of a tweet belong together: the same place in both lists
/// speaks of the same item.
pub proof fn law_media_lists_correspond(media: Seq<Media>)
    ensures
        media_urls(media).len() == media.len(),
        media_types(media).len() == media.len(),
        forall|i: int|
            0 <= i < media.len() ==> media_urls(media)[i] == (#[trigger] media[i]).media_url_https@
                && media_types(media)[i] == media[i].media_type@,
{
}

/// Staged links are never empty.
pub proof fn law_links_have_an_address(urls: Seq<Url>)
    ensures
        forall|i: int| 0 <= i < links(urls).len() ==> (#[trigger] links(urls)[i]).len() > 0,
        forall|i: int|
            0 <= i < urls.len() && (#[trigger] urls[i]).expanded_url@.len() > 0 ==> links(
                urls,
            ).contains(urls[i].expanded_url@),
    decreases urls.len(),
{
    if urls.len() > 0 {
        let front = urls.drop_last();
        law_links_have_an_address(front);
        assert forall|i: int|
            0 <= i < urls.len() && (#[trigger] urls[i]).expanded_url@.len() > 0 implies links(
            urls,
        ).contains(urls[i].expanded_url@) by {
            let link = urls[i].expanded_url@;
            if i < front.len() {
                assert(front[i] == urls[i]);
                let k = choose|k: int| 0 <= k < links(front).len() && links(front)[k] == link;
                assert(links(urls)[k] == link);
            } else {
                assert(links(urls)[links(urls).len() - 1] == link);
            }
        }
    }
}

/// No hashtag, mention or media item of a tweet is lost: each staged list has
/// as many elements as the tweet has such items, and holds the item's text at
/// the item's place.
pub proof fn law_staged_lists_are_complete(tweet: Tweet, row: StagedTweet)
    requires
        stages(tweet, row),
    ensures
        ({
            let mentions = tweet.entities.user_mentions@;
            &&& read_array(row.mentions@) matches Some(list)
            &&& list.len() == mentions.len()
            &&& forall|i: int|
                0 <= i < mentions.len() ==> list[i] == (#[trigger] mentions[i]).screen_name@
        }),
        ({
            let hashtags = tweet.entities.hashtags@;
            &&& read_array(row.hashtags@) matches Some(list)
            &&& list.len() == hashtags.len()
            &&& forall|i: int|
                0 <= i < hashtags.len() ==> list[i] == (#[trigger] hashtags[i]).text@
        }),
        ({
            let media = tweet.extended_entities.media@;
            &&& read_array(row.media_urls@) matches Some(urls)
            &&& read_array(row.media_types@) matches Some(types)
            &&& urls.len() == media.len()
            &&& types.len() == media.len()
            &&& forall|i: int|
                0 <= i < media.len() ==> urls[i] == (#[trigger] media[i]).media_url_https@
                    && types[i] == media[i].media_type@
        }),
        read_array(row.urls@) == Some(links(tweet.entities.urls@)),
{
    law_json_list_reads_back(names(tweet.entities.user_mentions@));
    law_json_list_reads_back(tags(tweet.entities.hashtags@));
    law_json_list_reads_back(media_urls(tweet.extended_entities.media@));
    law_json_list_reads_back(media_types(tweet.extended_entities.media@));
    law_json_list_reads_back(links(tweet.entities.urls@));
}

/// Links are kept in order, one by one: a link without an address is left out,
/// any other link is there, whatever stands around it.
pub proof fn law_links_are_kept_in_order(a: Seq<Url>, b: Seq<Url>, url: Url)
    ensures
        links(Seq::empty()) == Seq::<Seq<char>>::empty(),
        links(a + b) == links(a) + links(b),
        url.expanded_url@.len() == 0 ==> links(seq![url]) == Seq::<Seq<char>>::empty(),
        url.expanded_url@.len() > 0 ==> links(seq![url]) == seq![url.expanded_url@],
    decreases b.len(),
{
    let one = seq![url];
    assert(one.drop_last() =~= Seq::<Url>::empty());
    assert(one.last() == url);
    assert(links(one.drop_last()) =~= Seq::<Seq<char>>::empty());
    if url.expanded_url@.len() > 0 {
        assert(links(one) =~= seq![url.expanded_url@]);
    }
    if b.len() == 0 {
        assert(a + b =~= a);
        assert(links(a) + links(b) =~= links(a));
    } else {
        law_links_are_kept_in_order(a, b.drop_last(), url);
        assert((a + b).drop_last() =~= a + b.drop_last());
        assert((a + b).last() == b.last());
        assert(links(a + b) =~= links(a) + links(b));
    }
}

/// A tweet's texts are staged as they are, and NULL stands where the archive
/// has none.
pub proof fn law_texts_are_staged_as_they_are(tweet: Tweet, row: StagedTweet)
    requires
        stages(tweet, row),
    ensures
        row.id@ == tweet.id_str@,
        row.text@ == tweet.full_text@,
        row.created_at@ == tweet.created_at@,
        row.source@ == tweet.source@,
        row.lang@ == tweet.lang@,
        row.in_reply_to_status_id is Some == tweet.in_reply_to_status_id_str is Some,
        row.in_reply_to_status_id is Some ==> row.in_reply_to_status_id->0@
            == tweet.in_reply_to_status_id_str->0@,
        row.in_reply_to_user_id is Some == tweet.in_reply_to_user_id_str is Some,
        row.in_reply_to_user_id is Some ==> row.in_reply_to_user_id->0@
            == tweet.in_reply_to_user_id_str->0@,
        row.in_reply_to_screen_name is Some == tweet.in_reply_to_screen_name is Some,
        row.in_reply_to_screen_name is Some ==> row.in_reply_to_screen_name->0@
            == tweet.in_reply_to_screen_name->0@,
{
}

/// A tweet's counts are staged as the integers that the archive writes, as
/// long as they fit 32 bits; any other text is staged as zero.
pub proof fn law_counts_are_staged_as_written(tweet: Tweet, row: StagedTweet)
    requires
        stages(tweet, row),
    ensures
        ({
            let n = integer(tweet.retweet_count@);
            if n is Some && -0x8000_0000 <= n->0 <= 0x7fff_ffff {
                row.retweet_count == n->0
            } else {
                row.retweet_count == 0
            }
        }),
        ({
            let n = integer(tweet.favorite_count@);
            if n is Some && -0x8000_0000 <= n->0 <= 0x7fff_ffff {
                row.favorite_count == n->0
            } else {
                row.favorite_count == 0
            }
        }),
{
}

/// The cells of a staged tweet are its values, one for each column of the
/// staging table and in their order.
pub proof fn law_cells_are_the_row(row: StagedTweet, cells: Seq<Cell>)
    requires
        cell_values(cells) == row.values(),
    ensures
        cells.len() == 15,
        cells[0] matches Cell::Text(Some(text)) && text@ == row.id@,
        cells[1] matches Cell::Text(Some(text)) && text@ == row.text@,
        cells[2] matches Cell::Text(Some(text)) && text@ == row.created_at@,
        cells[3] == Cell::Number(row.retweet_count),
        cells[4] == Cell::Number(row.favorite_count),
        cells[5] matches Cell::Text(Some(text)) && text@ == row.source@,
        cells[6] matches Cell::Text(Some(text)) && text@ == row.lang@,
        cells[7] matches Cell::Text(text) && optional_text(text) == optional_text(
            row.in_reply_to_status_id,
        ),
        cells[8] matches Cell::Text(text) && optional_text(text) == optional_text(
            row.in_reply_to_user_id,
        ),
        cells[9] matches Cell::Text(text) && optional_text(text) == optional_text(
            row.in_reply_to_screen_name,
        ),
        cells[10] matches Cell::Text(Some(text)) && text@ == row.urls@,
        cells[11] matches Cell::Text(Some(text)) && text@ == row.hashtags@,
        cells[12] matches Cell::Text(Some(text)) && text@ == row.mentions@,
        cells[13] matches Cell::Text(Some(text)) && text@ == row.media_urls@,
        cells[14] matches Cell::Text(Some(text)) && text@ == row.media_types@,
{
    let values = cell_values(cells);
    assert(values.len() == 15);
    assert forall|i: int| 0 <= i < 15 implies values[i] == (#[trigger] cells[i])@ by {}
    assert(values[0] == cells[0]@ && values[1] == cells[1]@ && values[2] == cells[2]@);
    assert(values[3] == cells[3]@ && values[4] == cells[4]@ && values[5] == cells[5]@);
    assert(values[6] == cells[6]@ && values[7] == cells[7]@ && values[8] == cells[8]@);
    assert(values[9] == cells[9]@ && values[10] == cells[10]@ && values[11] == cells[11]@);
    assert(values[12] == cells[12]@ && values[13] == cells[13]@ && values[14] == cells[14]@);
}

/// An account is stored under its ID, with its username and display name.
pub proof fn law_account_is_stored_by_its_fields(account: Account, statement: Statement)
    requires
        texts(statement.params@) == account_values(account),
    ensures
        statement.params@.len() == 3,
        statement.params@[0]@ == account.account_id@,
        statement.params@[1]@ == account.username@,
        statement.params@[2]@ == account.account_display_name@,
{
    let values = texts(statement.params@);
    assert(values.len() == 3);
    assert(values[0] == statement.params@[0]@);
    assert(values[1] == statement.params@[1]@);
    assert(values[2] == statement.params@[2]@);
}

/// Likes go from their staging table into their own, column by column, under
/// the account; one that is there already is left alone.
pub proof fn law_likes_go_to_their_columns()
    ensures
        ({
            let columns = "tweet_id, text, url"@;
            INSERT_LIKES@ == "INSERT OR IGNORE INTO likes (account_id, "@
                + columns
                + ")\n         SELECT ?, "@
                + columns
                + " FROM staged_likes"@
        }),
{
    reveal_strlit(
        "INSERT OR IGNORE INTO likes (account_id, tweet_id, text, url)
         SELECT ?, tweet_id, text, url FROM staged_likes",
    );
    reveal_strlit(" FROM staged_likes");
    reveal_strlit(")\n         SELECT ?, ");
    reveal_strlit("INSERT OR IGNORE INTO likes (account_id, ");
    reveal_strlit("tweet_id, text, url");
    let columns = "tweet_id, text, url"@;
    let sql = INSERT_LIKES@;
    let s0 = "INSERT OR IGNORE INTO likes (account_id, "@;
    assert(s0 =~= sql.take(41));
    let s1 = s0 + columns;
    assert(s1 =~= sql.take(60));
    let s2 = s1 + ")\n         SELECT ?, "@;
    assert(s2 =~= sql.take(81));
    let s3 = s2 + columns;
    assert(s3 =~= sql.take(100));
    let s4 = s3 + " FROM staged_likes"@;
    assert(s4 =~= sql.take(118));
    assert(sql.take(118) =~= sql);
}

/// Followers go from the staging table into their own, under the account; one
/// that is there already is left alone.
pub proof fn law_followers_go_to_their_columns()
    ensures
        ({
            INSERT_FOLLOWERS@ == "INSERT OR IGNORE INTO followers (account_id, follower_id, user_link)\n"@
                + "                 SELECT ?, follow_id, user_link FROM staged_follows"@
        }),
{
    reveal_strlit(
        "INSERT OR IGNORE INTO followers (account_id, follower_id, user_link)
                 SELECT ?, follow_id, user_link FROM staged_follows",
    );
    reveal_strlit("                 SELECT ?, follow_id, user_link FROM staged_follows");
    reveal_strlit("INSERT OR IGNORE INTO followers (account_id, follower_id, user_link)\n");
    let sql = INSERT_FOLLOWERS@;
    let s0 = "INSERT OR IGNORE INTO followers (account_id, follower_id, user_link)\n"@;
    assert(s0 =~= sql.take(69));
    let s1 = s0 + "                 SELECT ?, follow_id, user_link FROM staged_follows"@;
    assert(s1 =~= sql.take(136));
    assert(sql.take(136) =~= sql);
}

/// Followed users go from the staging table into their own, under the account;
/// one that is there already is left alone.
pub proof fn law_following_go_to_their_columns()
    ensures
        ({
            INSERT_FOLLOWING@ == "INSERT OR IGNORE INTO following (account_id, following_id, user_link)\n"@
                + "                 SELECT ?, follow_id, user_link FROM staged_follows"@
        }),
{
    reveal_strlit(
        "INSERT OR IGNORE INTO following (account_id, following_id, user_link)
                 SELECT ?, follow_id, user_link FROM staged_follows",
    );
    reveal_strlit("                 SELECT ?, follow_id, user_link FROM staged_follows");
    reveal_strlit("INSERT OR IGNORE INTO following (account_id, following_id, user_link)\n");
    let sql = INSERT_FOLLOWING@;
    let s0 = "INSERT OR IGNORE INTO following (account_id, following_id, user_link)\n"@;
    assert(s0 =~= sql.take(70));
    let s1 = s0 + "                 SELECT ?, follow_id, user_link FROM staged_follows"@;
    assert(s1 =~= sql.take(137));
    assert(sql.take(137) =~= sql);
}

/// Tweets go from their staging table into their own, each column to the column
/// of its name, under the account and marked as deleted or not; lists are read
/// from their JSON text. A tweet whose time can be read is stored, unless it is
/// there already.
pub proof fn law_tweets_go_to_their_columns()
    ensures
        ({
            let time = "try_strptime(created_at, '%a %b %d %H:%M:%S +0000 %Y')"@;
            let list = |name: Seq<char>| "from_json("@ + name + "::JSON, '[\"VARCHAR\"]')"@;
            INSERT_TWEETS@ == "INSERT OR IGNORE INTO tweets\n           (account_id, id, text, created_at, retweet_count, favorite_count,\n"@
                + "            source, lang, deleted, in_reply_to_status_id, in_reply_to_user_id,\n"@
                + "            in_reply_to_screen_name, urls, hashtags, mentions, media_urls, media_types)\n"@
                + "         SELECT ?, id, text, "@
                + time
                + ",\n                retweet_count, favorite_count, source, lang, ?,\n"@
                + "                in_reply_to_status_id, in_reply_to_user_id, in_reply_to_screen_name,\n                "@
                + list("urls"@)
                + ", "@
                + list("hashtags"@)
                + ",\n                "@
                + list("mentions"@)
                + ", "@
                + list("media_urls"@)
                + ",\n                "@
                + list("media_types"@)
                + "\n         FROM staged_tweets\n         WHERE "@
                + time
                + " IS NOT NULL"@
        }),
{
    reveal_strlit(
        "INSERT OR IGNORE INTO tweets
           (account_id, id, text, created_at, retweet_count, favorite_count,
            source, lang, deleted, in_reply_to_status_id, in_reply_to_user_id,
            in_reply_to_screen_name, urls, hashtags, mentions, media_urls, media_types)
         SELECT ?, id, text, try_strptime(created_at, '%a %b %d %H:%M:%S +0000 %Y'),
                retweet_count, favorite_count, source, lang, ?,
                in_reply_to_status_id, in_reply_to_user_id, in_reply_to_screen_name,
                from_json(urls::JSON, '[\"VARCHAR\"]'), from_json(hashtags::JSON, '[\"VARCHAR\"]'),
                from_json(mentions::JSON, '[\"VARCHAR\"]'), from_json(media_urls::JSON, '[\"VARCHAR\"]'),
                from_json(media_types::JSON, '[\"VARCHAR\"]')
         FROM staged_tweets
         WHERE try_strptime(created_at, '%a %b %d %H:%M:%S +0000 %Y') IS NOT NULL",
    );
    reveal_strlit("\n         FROM staged_tweets\n         WHERE ");
    reveal_strlit("                in_reply_to_status_id, in_reply_to_user_id, in_reply_to_screen_name,\n                ");
    reveal_strlit("            in_reply_to_screen_name, urls, hashtags, mentions, media_urls, media_types)\n");
    reveal_strlit("            source, lang, deleted, in_reply_to_status_id, in_reply_to_user_id,\n");
    reveal_strlit("         SELECT ?, id, text, ");
    reveal_strlit(" IS NOT NULL");
    reveal_strlit(",\n                ");
    reveal_strlit(",\n                retweet_count, favorite_count, source, lang, ?,\n");
    reveal_strlit(", ");
    reveal_strlit("::JSON, '[\"VARCHAR\"]')");
    reveal_strlit("INSERT OR IGNORE INTO tweets\n           (account_id, id, text, created_at, retweet_count, favorite_count,\n");
    reveal_strlit("from_json(");
    reveal_strlit("hashtags");
    reveal_strlit("media_types");
    reveal_strlit("media_urls");
    reveal_strlit("mentions");
    reveal_strlit("try_strptime(created_at, '%a %b %d %H:%M:%S +0000 %Y')");
    reveal_strlit("urls");
    let time = "try_strptime(created_at, '%a %b %d %H:%M:%S +0000 %Y')"@;
    let list = |name: Seq<char>| "from_json("@ + name + "::JSON, '[\"VARCHAR\"]')"@;
    let sql = INSERT_TWEETS@;
    let s0 = "INSERT OR IGNORE INTO tweets\n           (account_id, id, text, created_at, retweet_count, favorite_count,\n"@;
    assert(s0 =~= sql.take(106));
    let s1 = s0 + "            source, lang, deleted, in_reply_to_status_id, in_reply_to_user_id,\n"@;
    assert(s1 =~= sql.take(185));
    let s2 = s1 + "            in_reply_to_screen_name, urls, hashtags, mentions, media_urls, media_types)\n"@;
    assert(s2 =~= sql.take(273));
    let s3 = s2 + "         SELECT ?, id, text, "@;
    assert(s3 =~= sql.take(302));
    let s4 = s3 + time;
    assert(s4 =~= sql.take(356));
    let s5 = s4 + ",\n                retweet_count, favorite_count, source, lang, ?,\n"@;
    assert(s5 =~= sql.take(422));
    let s6 = s5 + "                in_reply_to_status_id, in_reply_to_user_id, in_reply_to_screen_name,\n                "@;
    assert(s6 =~= sql.take(523));
    let s7 = s6 + list("urls"@);
    assert(s7 =~= sql.take(559));
    let s8 = s7 + ", "@;
    assert(s8 =~= sql.take(561));
    let s9 = s8 + list("hashtags"@);
    assert(s9 =~= sql.take(601));
    let s10 = s9 + ",\n                "@;
    assert(s10 =~= sql.take(619));
    let s11 = s10 + list("mentions"@);
    assert(s11 =~= sql.take(659));
    let s12 = s11 + ", "@;
    assert(s12 =~= sql.take(661));
    let s13 = s12 + list("media_urls"@);
    assert(s13 =~= sql.take(703));
    let s14 = s13 + ",\n                "@;
    assert(s14 =~= sql.take(721));
    let s15 = s14 + list("media_types"@);
    assert(s15 =~= sql.take(764));
    let s16 = s15 + "\n         FROM staged_tweets\n         WHERE "@;
    assert(s16 =~= sql.take(808));
    let s17 = s16 + time;
    assert(s17 =~= sql.take(862));
    let s18 = s17 + " IS NOT NULL"@;
    assert(s18 =~= sql.take(874));
    assert(sql.take(874) =~= sql);
}

/// The tweets that are listed as skipped are those that the insert leaves behind:
/// the ones whose time cannot be read by the same test.
pub proof fn law_skipped_tweets_are_those_left_behind()
    ensures
        ({
            let time = "try_strptime(created_at, '%a %b %d %H:%M:%S +0000 %Y')"@;
            SKIPPED_TWEETS@ == "SELECT id, created_at FROM staged_tweets\n         WHERE "@
                + time
                + " IS NULL"@
        }),
{
    reveal_strlit(
        "SELECT id, created_at FROM staged_tweets
         WHERE try_strptime(created_at, '%a %b %d %H:%M:%S +0000 %Y') IS NULL",
    );
    reveal_strlit(" IS NULL");
    reveal_strlit("SELECT id, created_at FROM staged_tweets\n         WHERE ");
    reveal_strlit("try_strptime(created_at, '%a %b %d %H:%M:%S +0000 %Y')");
    let time = "try_strptime(created_at, '%a %b %d %H:%M:%S +0000 %Y')"@;
    let sql = SKIPPED_TWEETS@;
    let s0 = "SELECT id, created_at FROM staged_tweets\n         WHERE "@;
    assert(s0 =~= sql.take(56));
    let s1 = s0 + time;
    assert(s1 =~= sql.take(110));
    let s2 = s1 + " IS NULL"@;
    assert(s2 =~= sql.take(118));
    assert(sql.take(118) =~= sql);
}

/// Each kind of data has its own way into the database: its staging table, its
/// insert, and for tweets whether they are deleted.
pub proof fn law_kinds_have_their_own_way()
    ensures
        insert_sql(DataKind::Tweets) == INSERT_TWEETS@ && insert_sql(DataKind::DeletedTweets)
            == INSERT_TWEETS@,
        insert_sql(DataKind::Likes) == INSERT_LIKES@,
        insert_sql(DataKind::Followers) == INSERT_FOLLOWERS@,
        insert_sql(DataKind::Following) == INSERT_FOLLOWING@,
        stage_table(DataKind::Tweets) == "staged_tweets"@ && stage_table(DataKind::DeletedTweets)
            == "staged_tweets"@,
        stage_table(DataKind::Likes) == "staged_likes"@,
        stage_table(DataKind::Followers) == "staged_follows"@ && stage_table(DataKind::Following)
            == "staged_follows"@,
        stage_sql(DataKind::Tweets) == STAGE_TWEETS@ && stage_sql(DataKind::DeletedTweets)
            == STAGE_TWEETS@,
        stage_sql(DataKind::Likes) == "CREATE OR REPLACE TEMP TABLE staged_likes (tweet_id VARCHAR, text VARCHAR, url VARCHAR)"@,
        stage_sql(DataKind::Followers)
            == "CREATE OR REPLACE TEMP TABLE staged_follows (follow_id VARCHAR, user_link VARCHAR)"@
            && stage_sql(DataKind::Following) == stage_sql(DataKind::Followers),
        deletion(DataKind::Tweets) == Some(false) && deletion(DataKind::DeletedTweets) == Some(true),
        deletion(DataKind::Likes) is None && deletion(DataKind::Followers) is None && deletion(
            DataKind::Following,
        ) is None,
{
}

/// The database has a table for accounts, keyed by their ID, and one for each
/// kind of row, keyed by the account and the row's own ID.
pub proof fn law_tables_are_keyed_by_account()
    ensures
        ({
            let table = |name: Seq<char>, columns: Seq<char>, rest: Seq<char>|
                "\n    CREATE TABLE IF NOT EXISTS "@ + name + " (\n        "@ + columns
                    + ",\n        "@ + rest + "\n    );"@;
            SCHEMA@ == table("accounts"@,
                "account_id VARCHAR PRIMARY KEY"@,
                "username VARCHAR,\n        display_name VARCHAR"@)
                + table("tweets"@,
                    "account_id VARCHAR,
        id VARCHAR,
        text TEXT,
        created_at TIMESTAMP,
        retweet_count INTEGER,
        favorite_count INTEGER,
        source TEXT,
        lang VARCHAR,
        deleted BOOLEAN,
        in_reply_to_status_id VARCHAR,
        in_reply_to_user_id VARCHAR,
        in_reply_to_screen_name VARCHAR,
        urls VARCHAR[],
        hashtags VARCHAR[],
        mentions VARCHAR[],
        media_urls VARCHAR[],
        media_types VARCHAR[]"@,
                    "PRIMARY KEY (account_id, id)"@)
                + table("likes"@,
                    "account_id VARCHAR,\n        tweet_id VARCHAR,\n        text TEXT,\n        url TEXT"@,
                    "PRIMARY KEY (account_id, tweet_id)"@)
                + table("followers"@,
                    "account_id VARCHAR,\n        follower_id VARCHAR,\n        user_link TEXT"@,
                    "PRIMARY KEY (account_id, follower_id)"@)
                + table("following"@,
                    "account_id VARCHAR,\n        following_id VARCHAR,\n        user_link TEXT"@,
                    "PRIMARY KEY (account_id, following_id)"@)
        }),
{
    reveal_strlit(
        "
    CREATE TABLE IF NOT EXISTS accounts (
        account_id VARCHAR PRIMARY KEY,
        username VARCHAR,
        display_name VARCHAR
    );
    CREATE TABLE IF NOT EXISTS tweets (
        account_id VARCHAR,
        id VARCHAR,
        text TEXT,
        created_at TIMESTAMP,
        retweet_count INTEGER,
        favorite_count INTEGER,
        source TEXT,
        lang VARCHAR,
        deleted BOOLEAN,
        in_reply_to_status_id VARCHAR,
        in_reply_to_user_id VARCHAR,
        in_reply_to_screen_name VARCHAR,
        urls VARCHAR[],
        hashtags VARCHAR[],
        mentions VARCHAR[],
        media_urls VARCHAR[],
        media_types VARCHAR[],
        PRIMARY KEY (account_id, id)
    );
    CREATE TABLE IF NOT EXISTS likes (
        account_id VARCHAR,
        tweet_id VARCHAR,
        text TEXT,
        url TEXT,
        PRIMARY KEY (account_id, tweet_id)
    );
    CREATE TABLE IF NOT EXISTS followers (
        account_id VARCHAR,
        follower_id VARCHAR,
        user_link TEXT,
        PRIMARY KEY (account_id, follower_id)
    );
    CREATE TABLE IF NOT EXISTS following (
        account_id VARCHAR,
        following_id VARCHAR,
        user_link TEXT,
        PRIMARY KEY (account_id, following_id)
    );",
    );
    reveal_strlit("\n    );");
    reveal_strlit("\n    CREATE TABLE IF NOT EXISTS ");
    reveal_strlit(" (\n        ");
    reveal_strlit(",\n        ");
    reveal_strlit("PRIMARY KEY (account_id, follower_id)");
    reveal_strlit("PRIMARY KEY (account_id, following_id)");
    reveal_strlit("PRIMARY KEY (account_id, id)");
    reveal_strlit("PRIMARY KEY (account_id, tweet_id)");
    reveal_strlit("account_id VARCHAR PRIMARY KEY");
    reveal_strlit("account_id VARCHAR,\n        follower_id VARCHAR,\n        user_link TEXT");
    reveal_strlit("account_id VARCHAR,\n        following_id VARCHAR,\n        user_link TEXT");
    reveal_strlit("account_id VARCHAR,
        id VARCHAR,
        text TEXT,
        created_at TIMESTAMP,
        retweet_count INTEGER,
        favorite_count INTEGER,
        source TEXT,
        lang VARCHAR,
        deleted BOOLEAN,
        in_reply_to_status_id VARCHAR,
        in_reply_to_user_id VARCHAR,
        in_reply_to_screen_name VARCHAR,
        urls VARCHAR[],
        hashtags VARCHAR[],
        mentions VARCHAR[],
        media_urls VARCHAR[],
        media_types VARCHAR[]");
    reveal_strlit("account_id VARCHAR,\n        tweet_id VARCHAR,\n        text TEXT,\n        url TEXT");
    reveal_strlit("accounts");
    reveal_strlit("followers");
    reveal_strlit("following");
    reveal_strlit("likes");
    reveal_strlit("tweets");
    reveal_strlit("username VARCHAR,\n        display_name VARCHAR");
    let table = |name: Seq<char>, columns: Seq<char>, rest: Seq<char>|
        "\n    CREATE TABLE IF NOT EXISTS "@ + name + " (\n        "@ + columns
            + ",\n        "@ + rest + "\n    );"@;
    let sql = SCHEMA@;
    let s0 = table("accounts"@,
        "account_id VARCHAR PRIMARY KEY"@,
        "username VARCHAR,\n        display_name VARCHAR"@);
    assert(s0 =~= sql.take(144));
    let s1 = s0 + table("tweets"@,
        "account_id VARCHAR,
        id VARCHAR,
        text TEXT,
        created_at TIMESTAMP,
        retweet_count INTEGER,
        favorite_count INTEGER,
        source TEXT,
        lang VARCHAR,
        deleted BOOLEAN,
        in_reply_to_status_id VARCHAR,
        in_reply_to_user_id VARCHAR,
        in_reply_to_screen_name VARCHAR,
        urls VARCHAR[],
        hashtags VARCHAR[],
        mentions VARCHAR[],
        media_urls VARCHAR[],
        media_types VARCHAR[]"@,
        "PRIMARY KEY (account_id, id)"@);
    assert(s1 =~= sql.take(714));
    let s2 = s1 + table("likes"@,
        "account_id VARCHAR,\n        tweet_id VARCHAR,\n        text TEXT,\n        url TEXT"@,
        "PRIMARY KEY (account_id, tweet_id)"@);
    assert(s2 =~= sql.take(894));
    let s3 = s2 + table("followers"@,
        "account_id VARCHAR,\n        follower_id VARCHAR,\n        user_link TEXT"@,
        "PRIMARY KEY (account_id, follower_id)"@);
    assert(s3 =~= sql.take(1071));
    let s4 = s3 + table("following"@,
        "account_id VARCHAR,\n        following_id VARCHAR,\n        user_link TEXT"@,
        "PRIMARY KEY (account_id, following_id)"@);
    assert(s4 =~= sql.take(1250));
    assert(sql.take(1250) =~= sql);
}

} // verus!
