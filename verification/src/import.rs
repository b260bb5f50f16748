//! The course of an import.
//!
//! An archive is a list of entries in no particular order. The account has to
//! be known before any row can be stored, so the entries are gone through
//! twice: first up to the entry that describes the account, then all of them
//! inside one transaction.

use crate::archive::{data_kind, is_account_entry, is_account_file, kind_of, DataKind, ImportError};
use crate::number::{decimal, write_decimal};
use crate::query::Statement;
use crate::staging::{account_statement, account_values, Account, INSERT_ACCOUNT};
use crate::text::texts;
use vstd::prelude::*;

verus! {

/// How many rows of each kind an import has stored.
#[derive(Clone, Copy, Debug, PartialEq, Eq, Structural)]
pub struct Stats {
    pub tweets: usize,
    pub deleted_tweets: usize,
    pub likes: usize,
    pub followers: usize,
    pub following: usize,
    pub skipped: usize,
}

/// The numbers of a [`Stats`].
pub struct Counts {
    pub tweets: nat,
    pub deleted_tweets: nat,
    pub likes: nat,
    pub followers: nat,
    pub following: nat,
    pub skipped: nat,
}

impl View for Stats {
    type V = Counts;

    open spec fn view(&self) -> Counts {
        Counts {
            tweets: self.tweets as nat,
            deleted_tweets: self.deleted_tweets as nat,
            likes: self.likes as nat,
            followers: self.followers as nat,
            following: self.following as nat,
            skipped: self.skipped as nat,
        }
    }
}

impl Counts {
    /// Nothing stored yet.
    pub open spec fn zero() -> Counts {
        Counts { tweets: 0, deleted_tweets: 0, likes: 0, followers: 0, following: 0, skipped: 0 }
    }

    /// The numbers after a file of `rows` rows, `skipped` of which could not be
    /// stored.
    pub open spec fn plus(self, kind: DataKind, rows: nat, skipped: nat) -> Counts {
        let stored = (rows - skipped) as nat;
        match kind {
            DataKind::Tweets => Counts {
                tweets: self.tweets + stored,
                skipped: self.skipped + skipped,
                ..self
            },
            DataKind::DeletedTweets => Counts {
                deleted_tweets: self.deleted_tweets + stored,
                skipped: self.skipped + skipped,
                ..self
            },
            DataKind::Likes => Counts { likes: self.likes + rows, ..self },
            DataKind::Followers => Counts { followers: self.followers + rows, ..self },
            DataKind::Following => Counts { following: self.following + rows, ..self },
        }
    }

    /// Whether every number fits a `usize`.
    pub open spec fn fits(self) -> bool {
        &&& self.tweets <= usize::MAX
        &&& self.deleted_tweets <= usize::MAX
        &&& self.likes <= usize::MAX
        &&& self.followers <= usize::MAX
        &&& self.following <= usize::MAX
        &&& self.skipped <= usize::MAX
    }
}

impl Default for Stats {
    fn default() -> (r: Stats)
        ensures
            r@ == Counts::zero(),
    {
        Stats { tweets: 0, deleted_tweets: 0, likes: 0, followers: 0, following: 0, skipped: 0 }
    }
}

impl Stats {
    /// Tells whether a file of `rows` rows, `skipped` of which could not be
    /// stored, can be added.
    pub fn has_room(&self, kind: DataKind, rows: usize, skipped: usize) -> (r: bool)
        ensures
            r == (skipped <= rows && self@.plus(kind, rows as nat, skipped as nat).fits()),
    {
        if skipped > rows {
            return false;
        }
        match kind {
            DataKind::Tweets => self.tweets <= usize::MAX - (rows - skipped) && self.skipped
                <= usize::MAX - skipped,
            DataKind::DeletedTweets => self.deleted_tweets <= usize::MAX - (rows - skipped)
                && self.skipped <= usize::MAX - skipped,
            DataKind::Likes => self.likes <= usize::MAX - rows,
            DataKind::Followers => self.followers <= usize::MAX - rows,
            DataKind::Following => self.following <= usize::MAX - rows,
        }
    }

    /// Adds a file of `rows` rows, `skipped` of which could not be stored.
    /// Only tweets can be skipped.
    pub fn record(&mut self, kind: DataKind, rows: usize, skipped: usize)
        requires
            skipped <= rows,
            old(self)@.plus(kind, rows as nat, skipped as nat).fits(),
        ensures
            final(self)@ == old(self)@.plus(kind, rows as nat, skipped as nat),
    {
        match kind {
            DataKind::Tweets => {
                self.tweets = self.tweets + (rows - skipped);
                self.skipped = self.skipped + skipped;
            },
            DataKind::DeletedTweets => {
                self.deleted_tweets = self.deleted_tweets + (rows - skipped);
                self.skipped = self.skipped + skipped;
            },
            DataKind::Likes => {
                self.likes = self.likes + rows;
            },
            DataKind::Followers => {
                self.followers = self.followers + rows;
            },
            DataKind::Following => {
                self.following = self.following + rows;
            },
        }
    }
}

/// The line that sums up an import.
pub open spec fn summary_text(username: Seq<char>, counts: Counts) -> Seq<char> {
    "@"@ + username + ": imported "@ + decimal(counts.tweets) + " tweets ("@ + decimal(
        counts.deleted_tweets,
    ) + " deleted), "@ + decimal(counts.likes) + " likes, "@ + decimal(counts.followers)
        + " followers, "@ + decimal(counts.following) + " following"@
}

/// The line that sums up an import.
pub fn summary(username: &str, stats: &Stats) -> (r: String)
    ensures
        r@ == summary_text(username@, stats@),
{
    let mut r = "@".to_string();
    r.append(username);
    r.append(": imported ");
    r.append(write_decimal(stats.tweets).as_str());
    r.append(" tweets (");
    r.append(write_decimal(stats.deleted_tweets).as_str());
    r.append(" deleted), ");
    r.append(write_decimal(stats.likes).as_str());
    r.append(" likes, ");
    r.append(write_decimal(stats.followers).as_str());
    r.append(" followers, ");
    r.append(write_decimal(stats.following).as_str());
    r.append(" following");
    r
}

/// The warning about skipped rows; `None` when there are none.
pub open spec fn warning_text(counts: Counts) -> Option<Seq<char>> {
    if counts.skipped > 0 {
        Some(
            "Warning: skipped "@ + decimal(counts.skipped)
                + " rows (run with --verbose for details)"@,
        )
    } else {
        None
    }
}

/// The warning about skipped rows; `None` when there are none.
pub fn warning(stats: &Stats) -> (r: Option<String>)
    ensures
        r is Some <==> warning_text(stats@) is Some,
        r matches Some(text) ==> warning_text(stats@) == Some(text@),
{
    if stats.skipped > 0 {
        let mut r = "Warning: skipped ".to_string();
        r.append(write_decimal(stats.skipped).as_str());
        r.append(" rows (run with --verbose for details)");
        Some(r)
    } else {
        None
    }
}

/// What the progress line calls the rows of a kind.
pub open spec fn rows_called(kind: DataKind) -> Seq<char> {
    match kind {
        DataKind::Tweets => " tweets"@,
        DataKind::DeletedTweets => " deleted tweets"@,
        DataKind::Likes => " likes"@,
        DataKind::Followers => " followers"@,
        DataKind::Following => " following"@,
    }
}

/// The progress line for a data file.
pub fn progress(name: &str, kind: DataKind, rows: usize) -> (r: String)
    ensures
        r@ == name@ + ": "@ + decimal(rows as nat) + rows_called(kind),
{
    let mut r = name.to_string();
    r.append(": ");
    r.append(write_decimal(rows).as_str());
    r.append(
        match kind {
            DataKind::Tweets => " tweets",
            DataKind::DeletedTweets => " deleted tweets",
            DataKind::Likes => " likes",
            DataKind::Followers => " followers",
            DataKind::Following => " following",
        },
    );
    r
}

/// The text of `{:?}` for a string: quoted, with escapes where needed.
pub uninterp spec fn debug_text(s: Seq<char>) -> Seq<char>;

/// Calls the `Debug` formatting of `str`. Its text depends on the string
/// alone.
#[verifier::external_body]
fn debug_quoted(s: &str) -> (r: String)
    ensures
        r@ == debug_text(s@),
{
    format!("{s:?}")
}

/// The line about a skipped tweet, with its time already quoted.
pub fn skip_line(id: &str, quoted: &str) -> (r: String)
    ensures
        r@ == "skipping tweet "@ + id@ + ": unparseable created_at "@ + quoted@,
{
    let mut r = "skipping tweet ".to_string();
    r.append(id);
    r.append(": unparseable created_at ");
    r.append(quoted);
    r
}

/// The line about a skipped tweet.
pub fn skip_notice(id: &str, created_at: &str) -> (r: String)
    ensures
        r@ == "skipping tweet "@ + id@ + ": unparseable created_at "@ + debug_text(created_at@),
{
    skip_line(id, debug_quoted(created_at).as_str())
}

/// Where an import stands.
#[derive(Debug)]
pub enum ImportState {
    /// Looking for the account; the name of entry `next` was asked for.
    Finding { entries: usize, next: usize },
    /// The account's entry is being read.
    ReadingAccount { entries: usize },
    /// The account is known and is being stored.
    Beginning { entries: usize, account: Account },
    /// Going through all entries; the name of entry `next` was asked for.
    Scanning { entries: usize, next: usize, account: Account, stats: Stats },
    /// The data file that is entry `next` is being stored.
    Loading { entries: usize, next: usize, account: Account, stats: Stats, kind: DataKind },
    /// Everything is stored and is being committed.
    Committing { account: Account, stats: Stats },
    /// Over, one way or the other.
    Done,
}

/// What happened outside.
#[derive(Debug)]
pub enum ImportEvent {
    /// The name of the entry that was asked for.
    Name(String),
    /// The accounts that the account's entry lists.
    Accounts(Vec<Account>),
    /// The transaction has begun and the account is stored.
    Begun,
    /// A data file of so many rows went in; some of its tweets were skipped.
    Loaded { rows: usize, skipped: usize },
    /// The transaction is committed.
    Committed,
}

/// What to do next.
#[derive(Debug)]
pub enum ImportAction {
    /// Tell the name of this entry.
    ReadName(usize),
    /// Read the accounts that this entry lists.
    ReadAccount { index: usize, name: String },
    /// Begin a transaction and store the account with this statement.
    Begin(Statement),
    /// Store the rows of this data file, under this account's ID.
    Load { index: usize, name: String, kind: DataKind, account_id: String },
    /// Commit the transaction.
    Commit,
    /// Report success.
    Report { summary: String, warning: Option<String> },
    /// Give up.
    Fail(ImportError),
}

/// Whether `event` is what an import in this state waits for.
pub open spec fn expects(state: ImportState, event: ImportEvent) -> bool {
    match (state, event) {
        (ImportState::Finding { .. }, ImportEvent::Name(_)) => true,
        (ImportState::ReadingAccount { .. }, ImportEvent::Accounts(_)) => true,
        (ImportState::Beginning { .. }, ImportEvent::Begun) => true,
        (ImportState::Scanning { .. }, ImportEvent::Name(_)) => true,
        (ImportState::Loading { stats, kind, .. }, ImportEvent::Loaded { rows, skipped }) => {
            skipped <= rows && stats@.plus(kind, rows as nat, skipped as nat).fits()
        },
        (ImportState::Committing { .. }, ImportEvent::Committed) => true,
        _ => false,
    }
}

/// Whether an import whose entries up to `next` are stored goes on as it
/// should: with the next entry, or after the last one with the commit.
pub open spec fn goes_on(
    entries: usize,
    next: usize,
    account: Account,
    counts: Counts,
    state: ImportState,
    action: ImportAction,
) -> bool {
    if next + 1 < entries {
        &&& state matches ImportState::Scanning { entries: e, next: n, account: a, stats: s }
        &&& e == entries && n == next + 1 && a == account && s@ == counts
        &&& action == ImportAction::ReadName((next + 1) as usize)
    } else {
        &&& state matches ImportState::Committing { account: a, stats: s }
        &&& a == account && s@ == counts
        &&& action == ImportAction::Commit
    }
}

/// Whether an import gave up for want of an account.
pub open spec fn gives_up(state: ImportState, action: ImportAction) -> bool {
    state == ImportState::Done && action == ImportAction::Fail(ImportError::NoAccount)
}

/// Whether `after` and `action` are what follows when `event` happens in
/// `before`.
pub open spec fn follows(
    before: ImportState,
    event: ImportEvent,
    after: ImportState,
    action: ImportAction,
) -> bool {
    match (before, event) {
        (ImportState::Finding { entries, next }, ImportEvent::Name(name)) => {
            if is_account_entry(name@) {
                &&& after == ImportState::ReadingAccount { entries }
                &&& action == ImportAction::ReadAccount { index: next, name }
            } else if next + 1 < entries {
                &&& after == ImportState::Finding { entries, next: (next + 1) as usize }
                &&& action == ImportAction::ReadName((next + 1) as usize)
            } else {
                gives_up(after, action)
            }
        },
        (ImportState::ReadingAccount { entries }, ImportEvent::Accounts(accounts)) => {
            if accounts@.len() > 0 {
                &&& after == ImportState::Beginning { entries, account: accounts@[0] }
                &&& action matches ImportAction::Begin(statement)
                &&& statement.sql@ == INSERT_ACCOUNT@
                &&& texts(statement.params@) == account_values(accounts@[0])
            } else {
                gives_up(after, action)
            }
        },
        (ImportState::Beginning { entries, account }, ImportEvent::Begun) => {
            &&& after matches ImportState::Scanning { entries: e, next, account: a, stats }
            &&& e == entries && next == 0 && a == account && stats@ == Counts::zero()
            &&& action == ImportAction::ReadName(0)
        },
        (ImportState::Scanning { entries, next, account, stats }, ImportEvent::Name(name)) => {
            match kind_of(name@) {
                Some(kind) => {
                    &&& after == ImportState::Loading { entries, next, account, stats, kind }
                    &&& action matches ImportAction::Load { index, name: n, kind: k, account_id }
                    &&& index == next && n == name && k == kind
                    &&& account_id@ == account.account_id@
                },
                None => goes_on(entries, next, account, stats@, after, action),
            }
        },
        (
            ImportState::Loading { entries, next, account, stats, kind },
            ImportEvent::Loaded { rows, skipped },
        ) => goes_on(
            entries,
            next,
            account,
            stats@.plus(kind, rows as nat, skipped as nat),
            after,
            action,
        ),
        (ImportState::Committing { account, stats }, ImportEvent::Committed) => {
            &&& after == ImportState::Done
            &&& action matches ImportAction::Report { summary, warning }
            &&& summary@ == summary_text(account.username@, stats@)
            &&& crate::cli::optional_text(warning) == warning_text(stats@)
        },
        _ => false,
    }
}

fn go_on(entries: usize, next: usize, account: Account, stats: Stats) -> (r: (
    ImportState,
    ImportAction,
))
    ensures
        goes_on(entries, next, account, stats@, r.0, r.1),
{
    if next < entries && next + 1 < entries {
        (
            ImportState::Scanning { entries, next: next + 1, account, stats },
            ImportAction::ReadName(next + 1),
        )
    } else {
        (ImportState::Committing { account, stats }, ImportAction::Commit)
    }
}

impl ImportState {
    /// Starts the import of an archive with this many entries.
    pub fn start(entries: usize) -> (r: (ImportState, ImportAction))
        ensures
            entries > 0 ==> r.0 == (ImportState::Finding { entries, next: 0 }) && r.1
                == ImportAction::ReadName(0),
            entries == 0 ==> gives_up(r.0, r.1),
    {
        if entries > 0 {
            (ImportState::Finding { entries, next: 0 }, ImportAction::ReadName(0))
        } else {
            (ImportState::Done, ImportAction::Fail(ImportError::NoAccount))
        }
    }

    /// Tells whether `event` is what the import waits for.
    pub fn accepts(&self, event: &ImportEvent) -> (r: bool)
        ensures
            r == expects(*self, *event),
    {
        match (self, event) {
            (ImportState::Finding { .. }, ImportEvent::Name(_)) => true,
            (ImportState::ReadingAccount { .. }, ImportEvent::Accounts(_)) => true,
            (ImportState::Beginning { .. }, ImportEvent::Begun) => true,
            (ImportState::Scanning { .. }, ImportEvent::Name(_)) => true,
            (ImportState::Loading { stats, kind, .. }, ImportEvent::Loaded { rows, skipped }) => {
                stats.has_room(*kind, *rows, *skipped)
            },
            (ImportState::Committing { .. }, ImportEvent::Committed) => true,
            _ => false,
        }
    }

    /// Takes in what happened and says what to do next.
    pub fn step(self, event: ImportEvent) -> (r: (ImportState, ImportAction))
        requires
            expects(self, event),
        ensures
            follows(self, event, r.0, r.1),
    {
        match (self, event) {
            (ImportState::Finding { entries, next }, ImportEvent::Name(name)) => {
                if is_account_file(name.as_str()) {
                    (
                        ImportState::ReadingAccount { entries },
                        ImportAction::ReadAccount { index: next, name },
                    )
                } else if next < entries && next + 1 < entries {
                    (
                        ImportState::Finding { entries, next: next + 1 },
                        ImportAction::ReadName(next + 1),
                    )
                } else {
                    (ImportState::Done, ImportAction::Fail(ImportError::NoAccount))
                }
            },
            (ImportState::ReadingAccount { entries }, ImportEvent::Accounts(accounts)) => {
                let mut accounts = accounts;
                if accounts.len() > 0 {
                    let account = accounts.remove(0);
                    let statement = account_statement(&account);
                    (ImportState::Beginning { entries, account }, ImportAction::Begin(statement))
                } else {
                    (ImportState::Done, ImportAction::Fail(ImportError::NoAccount))
                }
            },
            (ImportState::Beginning { entries, account }, ImportEvent::Begun) => {
                let stats = Stats::default();
                (
                    ImportState::Scanning { entries, next: 0, account, stats },
                    ImportAction::ReadName(0),
                )
            },
            (ImportState::Scanning { entries, next, account, stats }, ImportEvent::Name(name)) => {
                match data_kind(name.as_str()) {
                    Some(kind) => {
                        let account_id = account.account_id.clone();
                        (
                            ImportState::Loading { entries, next, account, stats, kind },
                            ImportAction::Load { index: next, name, kind, account_id },
                        )
                    },
                    None => go_on(entries, next, account, stats),
                }
            },
            (
                ImportState::Loading { entries, next, account, stats, kind },
                ImportEvent::Loaded { rows, skipped },
            ) => {
                let mut stats = stats;
                stats.record(kind, rows, skipped);
                go_on(entries, next, account, stats)
            },
            (ImportState::Committing { account, stats }, ImportEvent::Committed) => {
                let summary = summary(account.username.as_str(), &stats);
                let warning = warning(&stats);
                (ImportState::Done, ImportAction::Report { summary, warning })
            },
            _ => {
                assert(false);
                (ImportState::Done, ImportAction::Fail(ImportError::NoAccount))
            },
        }
    }
}

} // verus!
