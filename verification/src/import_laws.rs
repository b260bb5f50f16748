//! What holds of every import.

use crate::archive::{is_account_entry, kind_of, last_segment, DataKind, ImportError};
use crate::number::decimal;
use crate::cli::optional_text;
use crate::import::{
    expects, follows, gives_up, rows_called, summary_text, warning_text, Counts, ImportAction,
    ImportEvent, ImportState, Stats,
};
use crate::staging::{account_values, Account, INSERT_ACCOUNT};
use crate::text::texts;
use vstd::multiset::Multiset;
use vstd::prelude::*;

verus! {

/// What an archive holds, entry by entry: the entry's name, the accounts that
/// it lists if it is read as the account's entry, and the number of rows, and
/// of skipped rows, that it has if it is read as a data file.
pub struct Archive {
    pub names: Seq<Seq<char>>,
    pub accounts: Seq<Seq<Account>>,
    pub rows: Seq<nat>,
    pub skipped: Seq<nat>,
}

/// One entry of an [`Archive`].
pub struct Entry {
    pub name: Seq<char>,
    pub accounts: Seq<Account>,
    pub rows: nat,
    pub skipped: nat,
}

impl Entry {
    /// The first account that the entry lists, if any.
    pub open spec fn account(self) -> Option<Account> {
        if self.accounts.len() > 0 {
            Some(self.accounts[0])
        } else {
            None
        }
    }

    /// The username of the first account that the entry lists, if any.
    pub open spec fn username(self) -> Option<Seq<char>> {
        if self.accounts.len() > 0 {
            Some(self.accounts[0].username@)
        } else {
            None
        }
    }
}

impl Archive {
    /// The entries, in the order in which the archive holds them.
    pub open spec fn entries(self) -> Seq<Entry> {
        Seq::new(
            self.names.len(),
            |i: int|
                Entry {
                    name: self.names[i],
                    accounts: self.accounts[i],
                    rows: self.rows[i],
                    skipped: self.skipped[i],
                },
        )
    }

    /// Whether all entries that describe an account describe the same one.
    pub open spec fn agrees_on_account(self) -> bool {
        forall|i: int, j: int|
            0 <= i < self.names.len() && 0 <= j < self.names.len() && is_account_entry(
                self.names[i],
            ) && is_account_entry(self.names[j]) ==> (#[trigger] self.entries()[i]).account() == (
            #[trigger] self.entries()[j]).account()
    }

    /// Whether all entries that describe an account give it the same username.
    /// An ordinary archive has one such entry.
    pub open spec fn agrees_on_username(self) -> bool {
        forall|i: int, j: int|
            0 <= i < self.names.len() && 0 <= j < self.names.len() && is_account_entry(
                self.names[i],
            ) && is_account_entry(self.names[j]) ==> (#[trigger] self.entries()[i]).username() == (
            #[trigger] self.entries()[j]).username()
    }

    /// Every entry is described, and no more rows are skipped than there are.
    pub open spec fn wf(self) -> bool {
        &&& self.accounts.len() == self.names.len()
        &&& self.rows.len() == self.names.len()
        &&& self.skipped.len() == self.names.len()
        &&& forall|i: int| 0 <= i < self.names.len() ==> #[trigger] self.skipped[i] <= self.rows[i]
    }

    /// Whether entry `i` is the first to describe the account.
    pub open spec fn describes_account(self, i: int) -> bool {
        &&& 0 <= i < self.names.len()
        &&& is_account_entry(self.names[i])
        &&& forall|j: int| 0 <= j < i ==> !is_account_entry(#[trigger] self.names[j])
    }

    /// Whether the archive belongs to `account`: the first account that the
    /// first entry for it lists.
    pub open spec fn belongs_to(self, account: Account) -> bool {
        exists|i: int|
            #[trigger] self.describes_account(i) && self.accounts[i].len() > 0 && account
                == self.accounts[i][0]
    }

    /// The rows of the first `n` entries, by kind.
    pub open spec fn totals(self, n: nat) -> Counts
        decreases n,
    {
        if n == 0 {
            Counts::zero()
        } else {
            let before = self.totals((n - 1) as nat);
            match kind_of(self.names[n - 1]) {
                Some(kind) => before.plus(kind, self.rows[n - 1], self.skipped[n - 1]),
                None => before,
            }
        }
    }

    /// The data files among the first `n` entries.
    pub open spec fn data_entries(self, n: nat) -> Seq<nat>
        decreases n,
    {
        if n == 0 {
            Seq::empty()
        } else {
            let before = self.data_entries((n - 1) as nat);
            if kind_of(self.names[n - 1]) is Some {
                before.push((n - 1) as nat)
            } else {
                before
            }
        }
    }
}

/// Whether `event` is the outcome of carrying out `action` on the archive.
pub open spec fn answers(archive: Archive, action: ImportAction, event: ImportEvent) -> bool {
    match (action, event) {
        (ImportAction::ReadName(i), ImportEvent::Name(name)) => i < archive.names.len() && name@
            == archive.names[i as int],
        (ImportAction::ReadAccount { index, .. }, ImportEvent::Accounts(accounts)) => {
            index < archive.names.len() && accounts@ == archive.accounts[index as int]
        },
        (ImportAction::Begin(_), ImportEvent::Begun) => true,
        (ImportAction::Load { index, .. }, ImportEvent::Loaded { rows, skipped }) => {
            index < archive.names.len() && rows == archive.rows[index as int] && skipped
                == archive.skipped[index as int]
        },
        (ImportAction::Commit, ImportEvent::Committed) => true,
        _ => false,
    }
}

/// Whether an import of the archive stands where it should when it is in
/// `state` and waits for the outcome of `action`.
pub open spec fn on_course(archive: Archive, state: ImportState, action: ImportAction) -> bool {
    let len = archive.names.len();
    match (state, action) {
        (ImportState::Finding { entries, next }, ImportAction::ReadName(i)) => {
            &&& entries == len && i == next && next < entries
            &&& forall|j: int| 0 <= j < next ==> !is_account_entry(#[trigger] archive.names[j])
        },
        (ImportState::ReadingAccount { entries }, ImportAction::ReadAccount { index, name }) => {
            &&& entries == len
            &&& archive.describes_account(index as int)
            &&& name@ == archive.names[index as int]
        },
        (ImportState::Beginning { entries, account }, ImportAction::Begin(statement)) => {
            &&& entries == len && len > 0
            &&& archive.belongs_to(account)
            &&& statement.sql@ == INSERT_ACCOUNT@
            &&& texts(statement.params@) == account_values(account)
        },
        (ImportState::Scanning { entries, next, account, stats }, ImportAction::ReadName(i)) => {
            &&& entries == len && i == next && next < entries
            &&& archive.belongs_to(account)
            &&& stats@ == archive.totals(next as nat)
        },
        (
            ImportState::Loading { entries, next, account, stats, kind },
            ImportAction::Load { index, name, kind: k, account_id },
        ) => {
            &&& entries == len && index == next && next < entries && k == kind
            &&& name@ == archive.names[next as int]
            &&& account_id@ == account.account_id@
            &&& kind_of(archive.names[next as int]) == Some(kind)
            &&& archive.belongs_to(account)
            &&& stats@ == archive.totals(next as nat)
        },
        (ImportState::Committing { account, stats }, ImportAction::Commit) => {
            &&& archive.belongs_to(account)
            &&& stats@ == archive.totals(len)
        },
        (ImportState::Done, ImportAction::Report { summary, warning }) => {
            &&& exists|account: Account| #[trigger]
                archive.belongs_to(account) && summary@ == summary_text(
                    account.username@,
                    archive.totals(len),
                )
            &&& optional_text(warning) == warning_text(archive.totals(len))
        },
        (ImportState::Done, ImportAction::Fail(error)) => {
            &&& error == ImportError::NoAccount
            &&& forall|account: Account| !archive.belongs_to(account)
        },
        _ => false,
    }
}

/// An import starts on course.
pub proof fn law_import_starts_on_course(archive: Archive, state: ImportState, action: ImportAction)
    requires
        archive.wf(),
        archive.names.len() <= usize::MAX,
        ({
            let entries = archive.names.len() as usize;
            &&& entries > 0 ==> state == (ImportState::Finding { entries, next: 0 }) && action
                == ImportAction::ReadName(0)
            &&& entries == 0 ==> gives_up(state, action)
        }),
    ensures
        on_course(archive, state, action),
{
}

proof fn lemma_one_owner(archive: Archive, i: int, j: int)
    requires
        archive.describes_account(i),
        archive.describes_account(j),
    ensures
        i == j,
{
    if i < j {
        assert(!is_account_entry(archive.names[i]));
    } else if j < i {
        assert(!is_account_entry(archive.names[j]));
    }
}

/// An import stays on course: no row is stored before the account is known,
/// and what is counted is what the archive holds. It gives up only on an
/// archive that belongs to no account.
pub proof fn law_import_stays_on_course(
    archive: Archive,
    before: ImportState,
    asked: ImportAction,
    event: ImportEvent,
    after: ImportState,
    action: ImportAction,
)
    requires
        archive.wf(),
        on_course(archive, before, asked),
        answers(archive, asked, event),
        expects(before, event),
        follows(before, event, after, action),
    ensures
        on_course(archive, after, action),
{
    match (before, event) {
        (ImportState::Finding { entries, next }, ImportEvent::Name(name)) => {
            if is_account_entry(name@) {
                assert(archive.describes_account(next as int));
            } else if next + 1 >= entries {
                assert forall|account: Account| !archive.belongs_to(account) by {
                    if archive.belongs_to(account) {
                        let i = choose|i: int|
                            #[trigger] archive.describes_account(i) && archive.accounts[i].len() > 0
                                && account == archive.accounts[i][0];
                        assert(is_account_entry(archive.names[i]));
                    }
                }
            }
        },
        (ImportState::ReadingAccount { entries }, ImportEvent::Accounts(accounts)) => {
            if let ImportAction::ReadAccount { index, name } = asked {
                assert(archive.describes_account(index as int));
                if accounts@.len() > 0 {
                    assert(archive.belongs_to(accounts@[0]));
                } else {
                    assert forall|account: Account| !archive.belongs_to(account) by {
                        if archive.belongs_to(account) {
                            let i = choose|i: int|
                                #[trigger] archive.describes_account(i) && archive.accounts[i].len()
                                    > 0 && account == archive.accounts[i][0];
                            lemma_one_owner(archive, i, index as int);
                        }
                    }
                }
            }
        },
        _ => {},
    }
}

/// A run of an import, moment by moment: its states, what was asked for in
/// each of them, and the events that led from one to the next.
pub struct Run {
    pub states: Seq<ImportState>,
    pub actions: Seq<ImportAction>,
    pub events: Seq<ImportEvent>,
}

impl Run {
    /// Whether this is a run on the archive, from its start on.
    pub open spec fn is_on(self, archive: Archive) -> bool {
        let entries = archive.names.len() as usize;
        &&& archive.names.len() <= usize::MAX
        &&& self.states.len() == self.events.len() + 1
        &&& self.actions.len() == self.events.len() + 1
        &&& entries > 0 ==> self.states[0] == (ImportState::Finding { entries, next: 0 })
            && self.actions[0] == ImportAction::ReadName(0)
        &&& entries == 0 ==> gives_up(self.states[0], self.actions[0])
        &&& forall|i: int|
            0 <= i < self.events.len() ==> {
                &&& answers(archive, self.actions[i], #[trigger] self.events[i])
                &&& expects(self.states[i], self.events[i])
                &&& follows(
                    self.states[i],
                    self.events[i],
                    self.states[i + 1],
                    self.actions[i + 1],
                )
            }
    }
}

/// The entries at these places.
pub open spec fn entries_at(archive: Archive, places: Seq<nat>) -> Seq<Entry> {
    places.map_values(|i: nat| archive.entries()[i as int])
}

/// The places of the entries that were stored, in order, by the first `n`
/// actions.
pub open spec fn loads(actions: Seq<ImportAction>, n: nat) -> Seq<nat>
    decreases n,
{
    if n == 0 {
        Seq::empty()
    } else {
        let before = loads(actions, (n - 1) as nat);
        match actions[n - 1] {
            ImportAction::Load { index, .. } => before.push(index as nat),
            _ => before,
        }
    }
}

/// The number of entries that have been dealt with, counting the one that is
/// being stored.
spec fn dealt_with(archive: Archive, state: ImportState, action: ImportAction) -> nat {
    match (state, action) {
        (ImportState::Scanning { next, .. }, _) => next as nat,
        (ImportState::Loading { next, .. }, _) => (next + 1) as nat,
        (ImportState::Committing { .. }, _) => archive.names.len(),
        (ImportState::Done, ImportAction::Report { .. }) => archive.names.len(),
        _ => 0,
    }
}

proof fn lemma_run(archive: Archive, run: Run, k: nat)
    requires
        archive.wf(),
        run.is_on(archive),
        k <= run.events.len(),
    ensures
        on_course(archive, run.states[k as int], run.actions[k as int]),
        loads(run.actions, k + 1) == archive.data_entries(
            dealt_with(archive, run.states[k as int], run.actions[k as int]),
        ),
    decreases k,
{
    if k == 0 {
        law_import_starts_on_course(archive, run.states[0], run.actions[0]);
        assert(loads(run.actions, 0) == Seq::<nat>::empty());
    } else {
        let i = k - 1;
        lemma_run(archive, run, i as nat);
        let event = run.events[i];
        law_import_stays_on_course(
            archive,
            run.states[i],
            run.actions[i],
            event,
            run.states[i + 1],
            run.actions[i + 1],
        );
        let before = dealt_with(archive, run.states[i], run.actions[i]);
        let after = dealt_with(archive, run.states[k as int], run.actions[k as int]);
        assert(archive.data_entries(0) == Seq::<nat>::empty());
        match run.states[i] {
            ImportState::Scanning { next, .. } => {
                assert(after == next + 1);
            },
            _ => {
                assert(after == before);
            },
        }
    }
}

/// A run that reports success has stored every data file of the archive once,
/// in order, and its report names the archive's account and counts the
/// archive's rows.
pub proof fn law_report_is_exact(archive: Archive, run: Run)
    requires
        archive.wf(),
        run.is_on(archive),
        run.actions.last() is Report,
    ensures
        loads(run.actions, run.actions.len()) == archive.data_entries(archive.names.len()),
        exists|account: Account| #[trigger]
            archive.belongs_to(account) && run.actions.last()->summary@ == summary_text(
                account.username@,
                archive.totals(archive.names.len()),
            ),
        optional_text(run.actions.last()->warning) == warning_text(
            archive.totals(archive.names.len()),
        ),
{
    lemma_run(archive, run, run.events.len());
}

/// An archive belongs to one account.
pub proof fn law_archive_has_one_account(archive: Archive, a: Account, b: Account)
    requires
        archive.belongs_to(a),
        archive.belongs_to(b),
    ensures
        a == b,
{
    let i = choose|i: int|
        #[trigger] archive.describes_account(i) && archive.accounts[i].len() > 0 && a
            == archive.accounts[i][0];
    let j = choose|j: int|
        #[trigger] archive.describes_account(j) && archive.accounts[j].len() > 0 && b
            == archive.accounts[j][0];
    lemma_one_owner(archive, i, j);
}

/// Whatever a run stores is keyed by the account that the archive belongs to.
pub proof fn law_rows_are_keyed_by_the_account(archive: Archive, run: Run, k: int)
    requires
        archive.wf(),
        run.is_on(archive),
        0 <= k < run.actions.len(),
    ensures
        run.actions[k] is Load || run.actions[k] is Begin ==> exists|account: Account| #[trigger]
            archive.belongs_to(account) && match run.actions[k] {
                ImportAction::Load { account_id, .. } => account_id@ == account.account_id@,
                ImportAction::Begin(statement) => texts(statement.params@) == account_values(
                    account,
                ),
                _ => true,
            },
{
    lemma_run(archive, run, k as nat);
}

/// A run fails only on an archive without an account, and nothing was stored
/// by then: neither the account nor any data file, and no transaction was begun.
pub proof fn law_failure_stores_nothing(archive: Archive, run: Run)
    requires
        archive.wf(),
        run.is_on(archive),
        run.actions.last() is Fail,
    ensures
        run.actions.last() == ImportAction::Fail(ImportError::NoAccount),
        forall|account: Account| !archive.belongs_to(account),
        loads(run.actions, run.actions.len()) == Seq::<nat>::empty(),
        forall|k: int|
            0 <= k < run.actions.len() ==> !((#[trigger] run.actions[k]) is Begin)
                && !(run.actions[k] is Load) && !(run.actions[k] is Commit),
{
    lemma_run(archive, run, run.events.len());
    assert forall|k: int| 0 <= k < run.actions.len() implies !((#[trigger] run.actions[k]) is Begin)
        && !(run.actions[k] is Load) && !(run.actions[k] is Commit) by {
        lemma_run(archive, run, k as nat);
    }
}

/// The numbers after one more entry.
spec fn tally() -> spec_fn(Counts, Entry) -> Counts {
    |counts: Counts, entry: Entry|
        match kind_of(entry.name) {
            Some(kind) => counts.plus(kind, entry.rows, entry.skipped),
            None => counts,
        }
}

proof fn lemma_totals_are_a_fold(archive: Archive, n: nat)
    requires
        n <= archive.names.len(),
    ensures
        archive.totals(n) == archive.entries().take(n as int).fold_left(Counts::zero(), tally()),
    decreases n,
{
    let entries = archive.entries();
    if n > 0 {
        lemma_totals_are_a_fold(archive, (n - 1) as nat);
        assert(entries.take(n as int).drop_last() =~= entries.take(n - 1));
        assert(entries.take(n as int).last() == entries[n - 1]);
    }
}

proof fn lemma_totals_in_any_order(a: Archive, b: Archive)
    requires
        a.entries().to_multiset() == b.entries().to_multiset(),
    ensures
        a.totals(a.names.len()) == b.totals(b.names.len()),
{
    lemma_totals_are_a_fold(a, a.names.len());
    lemma_totals_are_a_fold(b, b.names.len());
    assert(a.entries().take(a.names.len() as int) =~= a.entries());
    assert(b.entries().take(b.names.len() as int) =~= b.entries());
    vstd::seq_lib::lemma_fold_left_permutation(a.entries(), b.entries(), tally(), Counts::zero());
}

proof fn lemma_first_account_entry(archive: Archive, i: int) -> (first: int)
    requires
        0 <= i < archive.names.len(),
        is_account_entry(archive.names[i]),
    ensures
        archive.describes_account(first),
    decreases i,
{
    if exists|j: int| 0 <= j < i && is_account_entry(#[trigger] archive.names[j]) {
        let j = choose|j: int| 0 <= j < i && is_account_entry(#[trigger] archive.names[j]);
        lemma_first_account_entry(archive, j)
    } else {
        i
    }
}

/// The data files after one more entry.
spec fn collect() -> spec_fn(Multiset<Entry>, Entry) -> Multiset<Entry> {
    |files: Multiset<Entry>, entry: Entry|
        if kind_of(entry.name) is Some {
            files.insert(entry)
        } else {
            files
        }
}

proof fn lemma_data_entries_are_a_fold(archive: Archive, n: nat)
    requires
        n <= archive.names.len(),
    ensures
        entries_at(archive, archive.data_entries(n)).to_multiset() == archive.entries().take(
            n as int,
        ).fold_left(Multiset::empty(), collect()),
    decreases n,
{
    broadcast use vstd::seq_lib::group_to_multiset_ensures;

    let entries = archive.entries();
    let places = archive.data_entries(n);
    if n > 0 {
        let before = archive.data_entries((n - 1) as nat);
        lemma_data_entries_are_a_fold(archive, (n - 1) as nat);
        assert(entries.take(n as int).drop_last() =~= entries.take(n - 1));
        assert(entries.take(n as int).last() == entries[n - 1]);
        if kind_of(archive.names[n - 1]) is Some {
            assert(entries_at(archive, places) =~= entries_at(archive, before).push(entries[n - 1]));
        }
    } else {
        assert(entries_at(archive, places) =~= Seq::<Entry>::empty());
        assert(entries_at(archive, places).to_multiset() =~= Multiset::<Entry>::empty());
        assert(entries.take(0) =~= Seq::<Entry>::empty());
    }
}

proof fn lemma_data_entries_in_any_order(a: Archive, b: Archive)
    requires
        a.entries().to_multiset() == b.entries().to_multiset(),
    ensures
        entries_at(a, a.data_entries(a.names.len())).to_multiset() == entries_at(
            b,
            b.data_entries(b.names.len()),
        ).to_multiset(),
{
    lemma_data_entries_are_a_fold(a, a.names.len());
    lemma_data_entries_are_a_fold(b, b.names.len());
    assert(a.entries().take(a.names.len() as int) =~= a.entries());
    assert(b.entries().take(b.names.len() as int) =~= b.entries());
    let f = collect();
    assert forall|x: Entry, y: Entry, v: Multiset<Entry>| #[trigger] f(f(v, x), y) == f(
        f(v, y),
        x,
    ) by {
        assert(f(f(v, x), y) =~= f(f(v, y), x));
    }
    vstd::seq_lib::lemma_fold_left_permutation(a.entries(), b.entries(), f, Multiset::empty());
}

/// The first entry of `b` that describes an account, and its place in `a`.
proof fn lemma_first_entry_elsewhere(a: Archive, b: Archive, i: int) -> (r: (int, int))
    requires
        a.entries().to_multiset() == b.entries().to_multiset(),
        a.describes_account(i),
    ensures
        b.describes_account(r.0),
        0 <= r.1 < a.names.len(),
        a.entries()[r.1] == b.entries()[r.0],
{
    broadcast use vstd::seq_lib::group_to_multiset_ensures;

    let entry = a.entries()[i];
    assert(a.entries().contains(entry));
    assert(b.entries().to_multiset().count(entry) > 0);
    let k = choose|k: int| 0 <= k < b.entries().len() && b.entries()[k] == entry;
    let first = lemma_first_account_entry(b, k);
    let other = b.entries()[first];
    assert(b.entries().contains(other));
    assert(a.entries().to_multiset().count(other) > 0);
    let j = choose|j: int| 0 <= j < a.entries().len() && a.entries()[j] == other;
    (first, j)
}

proof fn lemma_same_username(a: Archive, b: Archive, owner: Account) -> (found: Account)
    requires
        a.entries().to_multiset() == b.entries().to_multiset(),
        a.agrees_on_username(),
        a.belongs_to(owner),
    ensures
        b.belongs_to(found),
        found.username@ == owner.username@,
{
    let i = choose|i: int|
        #[trigger] a.describes_account(i) && a.accounts[i].len() > 0 && owner == a.accounts[i][0];
    let (first, j) = lemma_first_entry_elsewhere(a, b, i);
    assert(a.entries()[i].username() == a.entries()[j].username());
    assert(b.belongs_to(b.accounts[first][0]));
    b.accounts[first][0]
}

proof fn lemma_agreement_in_any_order(a: Archive, b: Archive)
    requires
        a.entries().to_multiset() == b.entries().to_multiset(),
        a.agrees_on_username(),
    ensures
        b.agrees_on_username(),
{
    broadcast use vstd::seq_lib::group_to_multiset_ensures;

    assert forall|i: int, j: int|
        0 <= i < b.names.len() && 0 <= j < b.names.len() && is_account_entry(b.names[i])
            && is_account_entry(b.names[j]) implies (#[trigger] b.entries()[i]).username() == (
    #[trigger] b.entries()[j]).username() by {
        let x = b.entries()[i];
        let y = b.entries()[j];
        assert(b.entries().contains(x) && b.entries().contains(y));
        assert(a.entries().to_multiset().count(x) > 0);
        assert(a.entries().to_multiset().count(y) > 0);
        let m = choose|m: int| 0 <= m < a.entries().len() && a.entries()[m] == x;
        let n = choose|n: int| 0 <= n < a.entries().len() && a.entries()[n] == y;
        assert(a.entries()[m].username() == a.entries()[n].username());
    }
}

/// The order of an archive's entries does not matter to whom it belongs. Where
/// several entries describe an account, they have to agree on it.
pub proof fn law_account_in_any_order(a: Archive, b: Archive, account: Account)
    requires
        a.entries().to_multiset() == b.entries().to_multiset(),
        a.agrees_on_account(),
        a.belongs_to(account),
    ensures
        b.belongs_to(account),
{
    let i = choose|i: int|
        #[trigger] a.describes_account(i) && a.accounts[i].len() > 0 && account
            == a.accounts[i][0];
    let (first, j) = lemma_first_entry_elsewhere(a, b, i);
    assert(a.entries()[i].account() == a.entries()[j].account());
    assert(b.entries()[first].account() == Some(account));
}

/// The order of an archive's entries does not matter: two runs on the same
/// entries store the same data files and come to the same outcome, with the
/// same summary and warning. Where several entries describe an account, they
/// have to agree on its username; where they agree on the whole account, both
/// archives belong to the same one.
pub proof fn law_entry_order_does_not_matter(a: Archive, b: Archive, run_a: Run, run_b: Run)
    requires
        a.wf(),
        b.wf(),
        a.entries().to_multiset() == b.entries().to_multiset(),
        a.agrees_on_username(),
        run_a.is_on(a),
        run_b.is_on(b),
        run_a.states.last() is Done,
        run_b.states.last() is Done,
    ensures
        run_a.actions.last() is Report <==> run_b.actions.last() is Report,
        run_a.actions.last() is Fail <==> run_b.actions.last() is Fail,
        run_a.actions.last() is Report ==> {
            &&& run_a.actions.last()->summary@ == run_b.actions.last()->summary@
            &&& optional_text(run_a.actions.last()->warning) == optional_text(
                run_b.actions.last()->warning,
            )
        },
        entries_at(a, loads(run_a.actions, run_a.actions.len())).to_multiset() == entries_at(
            b,
            loads(run_b.actions, run_b.actions.len()),
        ).to_multiset(),
        a.agrees_on_account() ==> forall|account: Account| #[trigger]
            a.belongs_to(account) <==> b.belongs_to(account),
{
    lemma_run(a, run_a, run_a.events.len());
    lemma_run(b, run_b, run_b.events.len());
    lemma_totals_in_any_order(a, b);
    lemma_data_entries_in_any_order(a, b);
    if run_a.actions.last() is Report {
        let owner = choose|account: Account| #[trigger]
            a.belongs_to(account) && run_a.actions.last()->summary@ == summary_text(
                account.username@,
                a.totals(a.names.len()),
            );
        let found = lemma_same_username(a, b, owner);
        let other = choose|account: Account| #[trigger]
            b.belongs_to(account) && run_b.actions.last()->summary@ == summary_text(
                account.username@,
                b.totals(b.names.len()),
            );
        law_archive_has_one_account(b, found, other);
        if a.agrees_on_account() {
            law_account_in_any_order(a, b, owner);
            assert forall|account: Account| #[trigger]
                a.belongs_to(account) <==> b.belongs_to(account) by {
                if a.belongs_to(account) {
                    law_archive_has_one_account(a, account, owner);
                }
                if b.belongs_to(account) {
                    law_archive_has_one_account(b, account, owner);
                }
            }
        }
    } else if run_b.actions.last() is Report {
        let owner = choose|account: Account| #[trigger] b.belongs_to(account);
        lemma_agreement_in_any_order(a, b);
        let found = lemma_same_username(b, a, owner);
        assert(a.belongs_to(found));
    } else {
        assert(entries_at(a, Seq::<nat>::empty()) =~= entries_at(b, Seq::<nat>::empty()));
    }
}

/// How far an import is from its end.
pub open spec fn distance(state: ImportState) -> nat {
    match state {
        ImportState::Finding { entries, next } => (3 * entries + 5 - next) as nat,
        ImportState::ReadingAccount { entries } => (2 * entries + 4) as nat,
        ImportState::Beginning { entries, .. } => (2 * entries + 3) as nat,
        ImportState::Scanning { entries, next, .. } => (2 * (entries - next) + 2) as nat,
        ImportState::Loading { entries, next, .. } => (2 * (entries - next) + 1) as nat,
        ImportState::Committing { .. } => 1,
        ImportState::Done => 0,
    }
}

/// Every step brings an import closer to its end.
pub proof fn law_import_comes_to_an_end(
    archive: Archive,
    before: ImportState,
    asked: ImportAction,
    event: ImportEvent,
    after: ImportState,
    action: ImportAction,
)
    requires
        on_course(archive, before, asked),
        follows(before, event, after, action),
    ensures
        distance(after) < distance(before),
{
}

proof fn lemma_totals_grow(archive: Archive, n: nat, m: nat)
    requires
        archive.wf(),
        n <= m <= archive.names.len(),
        archive.totals(m).fits(),
    ensures
        archive.totals(n).fits(),
    decreases m,
{
    if n < m {
        let last = (m - 1) as nat;
        assert(archive.skipped[last as int] <= archive.rows[last as int]);
        assert(archive.totals(last).fits());
        lemma_totals_grow(archive, n, last);
    }
}

/// Carrying out what an import asks for always brings an event that it waits
/// for, as long as the archive's row counts fit.
pub proof fn law_answers_are_expected(
    archive: Archive,
    state: ImportState,
    action: ImportAction,
    event: ImportEvent,
)
    requires
        archive.wf(),
        archive.totals(archive.names.len()).fits(),
        on_course(archive, state, action),
        answers(archive, action, event),
    ensures
        expects(state, event),
{
    if let ImportState::Loading { next, .. } = state {
        assert(archive.skipped[next as int] <= archive.rows[next as int]);
        lemma_totals_grow(archive, (next + 1) as nat, archive.names.len());
    }
}

/// Every row of a data file is counted, under its own kind and no other: as
/// stored, or as skipped, and only tweets can be skipped.
pub proof fn law_every_row_is_counted(counts: Counts, kind: DataKind, rows: nat, skipped: nat)
    requires
        skipped <= rows,
    ensures
        ({
            let after = counts.plus(kind, rows, skipped);
            let stored = rows - skipped;
            &&& after.tweets == counts.tweets + if kind == DataKind::Tweets { stored } else { 0 }
            &&& after.deleted_tweets == counts.deleted_tweets
                + if kind == DataKind::DeletedTweets { stored } else { 0 }
            &&& after.likes == counts.likes + if kind == DataKind::Likes { rows } else { 0 }
            &&& after.followers == counts.followers + if kind == DataKind::Followers { rows } else { 0 }
            &&& after.following == counts.following + if kind == DataKind::Following { rows } else { 0 }
            &&& after.skipped == counts.skipped
                + if kind == DataKind::Tweets || kind == DataKind::DeletedTweets {
                skipped
            } else {
                0
            }
        }),
        ({
            let zero = Counts::zero();
            zero.tweets == 0 && zero.deleted_tweets == 0 && zero.likes == 0 && zero.followers == 0
                && zero.following == 0 && zero.skipped == 0
        }),
{
}

/// The numbers of an import are those it has counted, and there is room as long
/// as each of them fits.
pub proof fn law_numbers_are_those_counted(stats: Stats, counts: Counts)
    ensures
        stats@.tweets == stats.tweets,
        stats@.deleted_tweets == stats.deleted_tweets,
        stats@.likes == stats.likes,
        stats@.followers == stats.followers,
        stats@.following == stats.following,
        stats@.skipped == stats.skipped,
        counts.fits() <==> counts.tweets <= usize::MAX && counts.deleted_tweets <= usize::MAX
            && counts.likes <= usize::MAX && counts.followers <= usize::MAX && counts.following
            <= usize::MAX && counts.skipped <= usize::MAX,
{
}

/// The archive's totals are gone through entry by entry: an entry that is no
/// data file changes nothing, and a data file adds its rows under its kind.
pub proof fn law_totals_add_up(archive: Archive, n: nat)
    requires
        n < archive.names.len(),
    ensures
        archive.totals(0) == Counts::zero(),
        kind_of(archive.names[n as int]) is None ==> archive.totals(n + 1) == archive.totals(n),
        kind_of(archive.names[n as int]) matches Some(kind) ==> archive.totals(n + 1)
            == archive.totals(n).plus(kind, archive.rows[n as int], archive.skipped[n as int]),
{
}

/// The report names the account and tells each number under its own name; the
/// warning is there exactly when something was skipped, and tells how much.
pub proof fn law_report_tells_every_number(username: Seq<char>, counts: Counts)
    ensures
        summary_text(username, counts) == "@"@ + username + ": imported "@ + decimal(counts.tweets)
            + " tweets ("@ + decimal(counts.deleted_tweets) + " deleted), "@ + decimal(counts.likes)
            + " likes, "@ + decimal(counts.followers) + " followers, "@ + decimal(counts.following)
            + " following"@,
        counts.skipped == 0 ==> warning_text(counts) is None,
        counts.skipped > 0 ==> warning_text(counts) == Some(
            "Warning: skipped "@ + decimal(counts.skipped)
                + " rows (run with --verbose for details)"@,
        ),
        rows_called(DataKind::Tweets) == " tweets"@,
        rows_called(DataKind::DeletedTweets) == " deleted tweets"@,
        rows_called(DataKind::Likes) == " likes"@,
        rows_called(DataKind::Followers) == " followers"@,
        rows_called(DataKind::Following) == " following"@,
{
}

/// The account is looked for entry by entry, up to the first entry named
/// account.js, which is the one that is read. If none is, the import gives up.
pub proof fn law_first_account_entry_is_read(
    entries: usize,
    next: usize,
    name: String,
    after: ImportState,
    action: ImportAction,
)
    requires
        follows(ImportState::Finding { entries, next }, ImportEvent::Name(name), after, action),
    ensures
        last_segment(name@) == "account.js"@ ==> action == (ImportAction::ReadAccount {
            index: next,
            name,
        }) && after == (ImportState::ReadingAccount { entries }),
        last_segment(name@) != "account.js"@ && next + 1 < entries ==> action
            == ImportAction::ReadName((next + 1) as usize) && after == (ImportState::Finding {
            entries,
            next: (next + 1) as usize,
        }),
        last_segment(name@) != "account.js"@ && next + 1 >= entries ==> action
            == ImportAction::Fail(ImportError::NoAccount) && after == ImportState::Done,
{
}

/// The first account that the entry lists is the one that is stored, and the
/// one that all entries are then gone through for, from the first on and with
/// nothing counted yet. An entry that lists none ends the import.
pub proof fn law_first_account_is_stored(
    entries: usize,
    accounts: Vec<Account>,
    after: ImportState,
    action: ImportAction,
    last: ImportState,
    asked: ImportAction,
)
    requires
        follows(ImportState::ReadingAccount { entries }, ImportEvent::Accounts(accounts), after, action),
        accounts@.len() > 0 ==> follows(after, ImportEvent::Begun, last, asked),
    ensures
        accounts@.len() == 0 ==> action == ImportAction::Fail(ImportError::NoAccount) && after
            == ImportState::Done,
        accounts@.len() > 0 ==> {
            let account = accounts@[0];
            &&& after == (ImportState::Beginning { entries, account })
            &&& action matches ImportAction::Begin(statement)
            &&& statement.sql@ == INSERT_ACCOUNT@
            &&& texts(statement.params@) == seq![
                account.account_id@,
                account.username@,
                account.account_display_name@,
            ]
            &&& asked == ImportAction::ReadName(0)
            &&& last matches ImportState::Scanning { entries: e, next, account: a, stats }
            &&& e == entries && next == 0 && a == account
            &&& stats.tweets == 0 && stats.deleted_tweets == 0 && stats.likes == 0
            &&& stats.followers == 0 && stats.following == 0 && stats.skipped == 0
        },
{
}

/// Every data file is loaded, as the kind that its name says and for the
/// account, and no other entry is.
pub proof fn law_data_files_are_loaded(
    entries: usize,
    next: usize,
    account: Account,
    stats: Stats,
    name: String,
    after: ImportState,
    action: ImportAction,
)
    requires
        follows(
            ImportState::Scanning { entries, next, account, stats },
            ImportEvent::Name(name),
            after,
            action,
        ),
    ensures
        action is Load <==> kind_of(name@) is Some,
        action matches ImportAction::Load { index, name: file, kind, account_id } ==> {
            &&& index == next && file == name && kind_of(name@) == Some(kind)
            &&& account_id@ == account.account_id@
            &&& after == (ImportState::Loading { entries, next, account, stats, kind })
        },
{
}

/// After an entry comes the next one, and after the last one the commit, with
/// the account and the numbers kept: those of before for an entry that is no
/// data file, and with the file's rows added for one that is.
pub proof fn law_entries_follow_one_another(
    entries: usize,
    next: usize,
    account: Account,
    stats: Stats,
    name: String,
    kind: DataKind,
    rows: usize,
    skipped: usize,
    after: ImportState,
    action: ImportAction,
    counts: Counts,
)
    requires
        (kind_of(name@) is None && counts == stats@ && follows(
            ImportState::Scanning { entries, next, account, stats },
            ImportEvent::Name(name),
            after,
            action,
        )) || (counts == stats@.plus(kind, rows as nat, skipped as nat) && follows(
            ImportState::Loading { entries, next, account, stats, kind },
            ImportEvent::Loaded { rows, skipped },
            after,
            action,
        )),
    ensures
        next + 1 < entries ==> {
            &&& action == ImportAction::ReadName((next + 1) as usize)
            &&& after matches ImportState::Scanning { entries: e, next: n, account: a, stats: s }
            &&& e == entries && n == next + 1 && a == account && s@ == counts
        },
        next + 1 >= entries ==> {
            &&& action == ImportAction::Commit
            &&& after matches ImportState::Committing { account: a, stats: s }
            &&& a == account && s@ == counts
        },
{
}

/// What was committed is reported, for the account and with the numbers that
/// were kept, and the import is over.
pub proof fn law_commit_is_reported(
    account: Account,
    stats: Stats,
    after: ImportState,
    action: ImportAction,
)
    requires
        follows(
            ImportState::Committing { account, stats },
            ImportEvent::Committed,
            after,
            action,
        ),
    ensures
        after == ImportState::Done,
        action matches ImportAction::Report { summary, warning } && summary@ == summary_text(
            account.username@,
            stats@,
        ) && optional_text(warning) == warning_text(stats@),
{
}

/// An import waits for the outcome of what it asked for, and for nothing else;
/// rows are taken as long as they can be counted. One that gives up is over, and
/// says that there is no account.
pub proof fn law_each_state_waits_for_its_event(
    state: ImportState,
    event: ImportEvent,
    action: ImportAction,
)
    ensures
        expects(state, event) <==> match state {
            ImportState::Finding { .. } => event is Name,
            ImportState::ReadingAccount { .. } => event is Accounts,
            ImportState::Beginning { .. } => event is Begun,
            ImportState::Scanning { .. } => event is Name,
            ImportState::Loading { stats, kind, .. } => event matches ImportEvent::Loaded {
                rows,
                skipped,
            } && skipped <= rows && stats@.plus(kind, rows as nat, skipped as nat).fits(),
            ImportState::Committing { .. } => event is Committed,
            ImportState::Done => false,
        },
        gives_up(state, action) <==> state == ImportState::Done && action == ImportAction::Fail(
            ImportError::NoAccount,
        ),
{
}

} // verus!
