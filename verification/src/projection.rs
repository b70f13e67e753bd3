//! The read-model projection: consumes committed events and mutates the
//! derived tables — current account balances, ledger entries, issued checks.
//!
//! All row mutations for a single event apply together: `apply` either
//! changes nothing (an already-applied sequence number is redelivered) or
//! performs the event's whole multi-row update.  Delivery is at-least-once,
//! so the projection tracks the last applied sequence number per aggregate
//! and skips events it has already applied; redelivery therefore leaves the
//! tables exactly as a single delivery does.

use vstd::prelude::*;
use crate::events::{EventView, StoredEvent, StoredEventView, balance_of};

verus! {

/// One row of the `accounts` table: the current balance of one account.
pub struct AccountRow {
    pub id: String,
    pub balance: i64,
}

#[verifier::ext_equal]
pub struct AccountRowView {
    pub id: Seq<char>,
    pub balance: int,
}

impl View for AccountRow {
    type V = AccountRowView;

    open spec fn view(&self) -> AccountRowView {
        AccountRowView { id: self.id@, balance: self.balance as int }
    }
}

/// One row of the `ledger_entries` table: one money movement.
pub struct LedgerEntryRow {
    /// Surrogate key; assigned in insertion order starting at 1.
    pub id: u64,
    pub account_id: String,
    pub description: String,
    pub amount: i64,
}

#[verifier::ext_equal]
pub struct LedgerEntryView {
    pub id: int,
    pub account_id: Seq<char>,
    pub description: Seq<char>,
    pub amount: int,
}

impl View for LedgerEntryRow {
    type V = LedgerEntryView;

    open spec fn view(&self) -> LedgerEntryView {
        LedgerEntryView {
            id: self.id as int,
            account_id: self.account_id@,
            description: self.description@,
            amount: self.amount as int,
        }
    }
}

impl Clone for LedgerEntryRow {
    /// Cloning a ledger row preserves its model exactly.
    fn clone(&self) -> (r: Self)
        ensures
            r@ == self@,
    {
        LedgerEntryRow {
            id: self.id,
            account_id: self.account_id.clone(),
            description: self.description.clone(),
            amount: self.amount,
        }
    }
}

/// One row of the `checks` table: one issued check.
pub struct CheckRow {
    /// Surrogate key; assigned in insertion order starting at 1.
    pub id: u64,
    pub account_id: String,
    pub check_number: String,
}

#[verifier::ext_equal]
pub struct CheckRowView {
    pub id: int,
    pub account_id: Seq<char>,
    pub check_number: Seq<char>,
}

impl View for CheckRow {
    type V = CheckRowView;

    open spec fn view(&self) -> CheckRowView {
        CheckRowView {
            id: self.id as int,
            account_id: self.account_id@,
            check_number: self.check_number@,
        }
    }
}

impl Clone for CheckRow {
    /// Cloning a check row preserves its model exactly.
    fn clone(&self) -> (r: Self)
        ensures
            r@ == self@,
    {
        CheckRow {
            id: self.id,
            account_id: self.account_id.clone(),
            check_number: self.check_number.clone(),
        }
    }
}

/// The last-applied sequence number the projection remembers for one
/// aggregate; its dedup key against redelivery.
pub struct AppliedMark {
    pub account_id: String,
    pub sequence: u64,
}

#[verifier::ext_equal]
pub struct AppliedMarkView {
    pub account_id: Seq<char>,
    pub sequence: int,
}

impl View for AppliedMark {
    type V = AppliedMarkView;

    open spec fn view(&self) -> AppliedMarkView {
        AppliedMarkView { account_id: self.account_id@, sequence: self.sequence as int }
    }
}

/// The models of the rows of each table.
pub open spec fn account_row_views(s: Seq<AccountRow>) -> Seq<AccountRowView> {
    s.map_values(|r: AccountRow| r@)
}

pub open spec fn ledger_row_views(s: Seq<LedgerEntryRow>) -> Seq<LedgerEntryView> {
    s.map_values(|r: LedgerEntryRow| r@)
}

pub open spec fn check_row_views(s: Seq<CheckRow>) -> Seq<CheckRowView> {
    s.map_values(|r: CheckRow| r@)
}

pub open spec fn applied_mark_views(s: Seq<AppliedMark>) -> Seq<AppliedMarkView> {
    s.map_values(|r: AppliedMark| r@)
}

/// The checks rows that belong to one account, in insertion order.
pub open spec fn checks_of(rows: Seq<CheckRowView>, id: Seq<char>) -> Seq<CheckRowView> {
    rows.filter(|c: CheckRowView| c.account_id == id)
}

/// The ledger rows that belong to one account, in insertion order.
pub open spec fn ledger_of(rows: Seq<LedgerEntryView>, id: Seq<char>) -> Seq<LedgerEntryView> {
    rows.filter(|e: LedgerEntryView| e.account_id == id)
}

/// The mathematical model of the whole read model.
#[verifier::ext_equal]
pub struct ReadModelView {
    pub accounts: Seq<AccountRowView>,
    pub ledger_entries: Seq<LedgerEntryView>,
    pub checks: Seq<CheckRowView>,
    pub applied: Seq<AppliedMarkView>,
}

impl ReadModelView {
    pub open spec fn has_account(self, id: Seq<char>) -> bool {
        exists|i: int| 0 <= i < self.accounts.len() && (#[trigger] self.accounts[i]).id == id
    }

    pub open spec fn account_index(self, id: Seq<char>) -> int {
        choose|i: int| 0 <= i < self.accounts.len() && (#[trigger] self.accounts[i]).id == id
    }

    /// The current balance the `accounts` table shows for one account, or
    /// `None` while no row exists yet.
    pub open spec fn account_balance(self, id: Seq<char>) -> Option<int> {
        if self.has_account(id) {
            Some(self.accounts[self.account_index(id)].balance)
        } else {
            None
        }
    }

    /// Sets the account's row to the given balance, inserting the row if the
    /// account has none yet.
    pub open spec fn upsert_account(self, id: Seq<char>, balance: int) -> ReadModelView {
        if self.has_account(id) {
            ReadModelView {
                accounts: self.accounts.update(
                    self.account_index(id),
                    AccountRowView { id, balance },
                ),
                ..self
            }
        } else {
            ReadModelView { accounts: self.accounts.push(AccountRowView { id, balance }), ..self }
        }
    }

    /// Appends one ledger row; its surrogate key is the insertion position,
    /// counted from 1.
    pub open spec fn append_ledger(
        self,
        account_id: Seq<char>,
        description: Seq<char>,
        amount: int,
    ) -> ReadModelView {
        ReadModelView {
            ledger_entries: self.ledger_entries.push(
                LedgerEntryView {
                    id: self.ledger_entries.len() as int + 1,
                    account_id,
                    description,
                    amount,
                },
            ),
            ..self
        }
    }

    /// Appends one check row; its surrogate key is the insertion position,
    /// counted from 1.
    pub open spec fn append_check(self, account_id: Seq<char>, check_number: Seq<char>) -> ReadModelView {
        ReadModelView {
            checks: self.checks.push(
                CheckRowView { id: self.checks.len() as int + 1, account_id, check_number },
            ),
            ..self
        }
    }

    pub open spec fn has_mark(self, id: Seq<char>) -> bool {
        exists|i: int| 0 <= i < self.applied.len() && (#[trigger] self.applied[i]).account_id == id
    }

    pub open spec fn mark_index(self, id: Seq<char>) -> int {
        choose|i: int| 0 <= i < self.applied.len() && (#[trigger] self.applied[i]).account_id == id
    }

    /// The last sequence number applied for one aggregate; 0 before any event
    /// of that aggregate was applied.
    pub open spec fn last_applied(self, id: Seq<char>) -> int {
        if self.has_mark(id) {
            self.applied[self.mark_index(id)].sequence
        } else {
            0
        }
    }

    /// Remembers that all sequence numbers up to `sequence` have been applied
    /// for this aggregate.
    pub open spec fn mark_applied(self, id: Seq<char>, sequence: int) -> ReadModelView {
        if self.has_mark(id) {
            ReadModelView {
                applied: self.applied.update(
                    self.mark_index(id),
                    AppliedMarkView { account_id: id, sequence },
                ),
                ..self
            }
        } else {
            ReadModelView {
                applied: self.applied.push(AppliedMarkView { account_id: id, sequence }),
                ..self
            }
        }
    }

    /// The event's whole multi-row update, unconditionally:
    /// - `AccountOpened`: insert the account row with balance 0.
    /// - `CustomerDepositedMoney`: set the balance, append a "deposit" ledger
    ///   row.
    /// - `CustomerWithdrewCash`: set the balance, append an "atm_withdrawal"
    ///   ledger row.
    /// - `CustomerWroteCheck`: set the balance, append a ledger row described
    ///   by the check number, and append a check row.
    ///
    /// The balance written is the absolute balance the event carries, so this
    /// update is idempotent by construction; the appended rows get their
    /// dedup from the sequence-number tracking in `project_event`.
    pub open spec fn apply_rows(self, e: StoredEventView) -> ReadModelView {
        match e.payload {
            EventView::AccountOpened { account_id } => self.upsert_account(account_id, 0),
            EventView::CustomerDepositedMoney { amount, balance } => self.upsert_account(
                e.aggregate_id,
                balance,
            ).append_ledger(e.aggregate_id, "deposit"@, amount),
            EventView::CustomerWithdrewCash { amount, balance } => self.upsert_account(
                e.aggregate_id,
                balance,
            ).append_ledger(e.aggregate_id, "atm_withdrawal"@, amount),
            EventView::CustomerWroteCheck { check_number, amount, balance } => self.upsert_account(
                e.aggregate_id,
                balance,
            ).append_ledger(e.aggregate_id, check_number, amount).append_check(
                e.aggregate_id,
                check_number,
            ),
        }
    }

    /// One at-least-once delivery of a committed event: a sequence number at
    /// or below the last applied one is skipped; a fresh one performs the
    /// event's row updates and advances the last-applied mark.
    pub open spec fn project_event(self, e: StoredEventView) -> ReadModelView {
        if e.sequence <= self.last_applied(e.aggregate_id) {
            self
        } else {
            self.apply_rows(e).mark_applied(e.aggregate_id, e.sequence)
        }
    }

    /// Account rows and applied marks are keyed by account id.
    pub open spec fn wf(self) -> bool {
        &&& forall|i: int, j: int|
            0 <= i < j < self.accounts.len() ==> (#[trigger] self.accounts[i]).id != (
            #[trigger] self.accounts[j]).id
        &&& forall|i: int, j: int|
            0 <= i < j < self.applied.len() ==> (#[trigger] self.applied[i]).account_id != (
            #[trigger] self.applied[j]).account_id
    }

    /// With unique account ids, a position whose row carries the id is the
    /// position `account_index` names.
    pub proof fn lemma_account_index_unique(self, id: Seq<char>, i: int)
        requires
            self.wf(),
            0 <= i < self.accounts.len(),
            self.accounts[i].id == id,
        ensures
            self.has_account(id),
            self.account_index(id) == i,
    {
        assert(self.has_account(id));
        let j = self.account_index(id);
        if j != i {
            if i < j {
                assert(self.accounts[i].id != self.accounts[j].id);
            } else {
                assert(self.accounts[j].id != self.accounts[i].id);
            }
        }
    }

    /// With unique mark ids, a position whose mark carries the id is the
    /// position `mark_index` names.
    pub proof fn lemma_mark_index_unique(self, id: Seq<char>, i: int)
        requires
            self.wf(),
            0 <= i < self.applied.len(),
            self.applied[i].account_id == id,
        ensures
            self.has_mark(id),
            self.mark_index(id) == i,
    {
        assert(self.has_mark(id));
        let j = self.mark_index(id);
        if j != i {
            if i < j {
                assert(self.applied[i].account_id != self.applied[j].account_id);
            } else {
                assert(self.applied[j].account_id != self.applied[i].account_id);
            }
        }
    }

    /// Row updates preserve key uniqueness.
    pub proof fn lemma_project_preserves_wf(self, e: StoredEventView)
        requires
            self.wf(),
        ensures
            self.project_event(e).wf(),
    {
    }

    /// After marking, the last applied sequence number for that aggregate is
    /// the one just marked, and no other aggregate's mark changes.
    pub proof fn lemma_mark_applied_reads_back(self, id: Seq<char>, sequence: int)
        requires
            self.wf(),
        ensures
            self.mark_applied(id, sequence).last_applied(id) == sequence,
            forall|id2: Seq<char>|
                id2 != id ==> #[trigger] self.mark_applied(id, sequence).last_applied(id2)
                    == self.last_applied(id2),
    {
        let post = self.mark_applied(id, sequence);
        self.lemma_mark_applied_preserves_wf(id, sequence);
        if self.has_mark(id) {
            let i = self.mark_index(id);
            assert(post.applied[i].account_id == id);
            post.lemma_mark_index_unique(id, i);
        } else {
            let n = self.applied.len() as int;
            assert(post.applied[n].account_id == id);
            post.lemma_mark_index_unique(id, n);
        }
        assert forall|id2: Seq<char>| id2 != id implies #[trigger] post.last_applied(id2)
            == self.last_applied(id2) by {
            if post.has_mark(id2) {
                let j = post.mark_index(id2);
                assert(post.applied[j].account_id == id2);
                assert(self.applied[j] == post.applied[j]);
                self.lemma_mark_index_unique(id2, j);
            } else if self.has_mark(id2) {
                let j = self.mark_index(id2);
                assert(post.applied[j].account_id == id2);
                assert(post.has_mark(id2));
            }
        }
    }

    /// Upserting preserves key uniqueness: an existing row keeps its id, a
    /// new row's id was not present.
    pub proof fn lemma_upsert_preserves_wf(self, id: Seq<char>, balance: int)
        requires
            self.wf(),
        ensures
            self.upsert_account(id, balance).wf(),
    {
    }

    /// Marking preserves key uniqueness: an existing mark keeps its id, a new
    /// mark's id was not present.
    pub proof fn lemma_mark_applied_preserves_wf(self, id: Seq<char>, sequence: int)
        requires
            self.wf(),
        ensures
            self.mark_applied(id, sequence).wf(),
    {
    }

    /// Applying the rows of an event never touches the applied marks, and
    /// marking never touches the tables.
    pub proof fn lemma_apply_rows_marks_unchanged(self, e: StoredEventView)
        ensures
            self.apply_rows(e).applied == self.applied,
            self.apply_rows(e).has_mark(e.aggregate_id) == self.has_mark(e.aggregate_id),
            self.apply_rows(e).last_applied(e.aggregate_id) == self.last_applied(e.aggregate_id),
    {
    }

    /// After an upsert, the account's row shows the written balance, and no
    /// other account's row changes.
    pub proof fn lemma_upsert_reads_back(self, id: Seq<char>, balance: int)
        requires
            self.wf(),
        ensures
            self.upsert_account(id, balance).account_balance(id) == Some(balance),
            forall|id2: Seq<char>|
                id2 != id ==> #[trigger] self.upsert_account(id, balance).account_balance(id2)
                    == self.account_balance(id2),
    {
        let post = self.upsert_account(id, balance);
        self.lemma_upsert_preserves_wf(id, balance);
        if self.has_account(id) {
            let i = self.account_index(id);
            assert(post.accounts[i].id == id);
            post.lemma_account_index_unique(id, i);
        } else {
            let n = self.accounts.len() as int;
            assert(post.accounts[n].id == id);
            post.lemma_account_index_unique(id, n);
        }
        assert forall|id2: Seq<char>| id2 != id implies #[trigger] post.account_balance(id2)
            == self.account_balance(id2) by {
            if post.has_account(id2) {
                let j = post.account_index(id2);
                assert(post.accounts[j].id == id2);
                assert(self.accounts[j] == post.accounts[j]);
                self.lemma_account_index_unique(id2, j);
            } else if self.has_account(id2) {
                let j = self.account_index(id2);
                assert(post.accounts[j].id == id2);
                assert(post.has_account(id2));
            }
        }
    }

    /// What the `accounts` table shows depends on that table alone.
    pub proof fn lemma_balance_from_rows(self, other: ReadModelView, id: Seq<char>)
        requires
            self.wf(),
            other.accounts == self.accounts,
        ensures
            other.account_balance(id) == self.account_balance(id),
    {
        if other.has_account(id) {
            let j = other.account_index(id);
            assert(self.accounts[j].id == id);
            self.lemma_account_index_unique(id, j);
        } else if self.has_account(id) {
            let j = self.account_index(id);
            assert(other.accounts[j].id == id);
            assert(other.has_account(id));
        }
    }

    /// The last-applied sequence numbers depend on the marks alone.
    pub proof fn lemma_marks_from_applied(self, other: ReadModelView, id: Seq<char>)
        requires
            self.wf(),
            other.applied == self.applied,
        ensures
            other.last_applied(id) == self.last_applied(id),
    {
        if other.has_mark(id) {
            let j = other.mark_index(id);
            assert(self.applied[j].account_id == id);
            self.lemma_mark_index_unique(id, j);
        } else if self.has_mark(id) {
            let j = self.mark_index(id);
            assert(other.applied[j].account_id == id);
            assert(other.has_mark(id));
        }
    }

    /// Delivering a fresh event (its sequence number above the last applied
    /// one) shows the event's carried balance for its aggregate, advances that
    /// aggregate's last-applied mark to the event's sequence number, and
    /// leaves every other aggregate's balance and mark unchanged.
    pub proof fn lemma_project_fresh(self, e: StoredEventView)
        requires
            self.wf(),
            e.sequence > self.last_applied(e.aggregate_id),
            e.payload matches EventView::AccountOpened { account_id } ==> account_id
                == e.aggregate_id,
        ensures
            self.project_event(e).account_balance(e.aggregate_id) == Some(balance_of(e.payload)),
            self.project_event(e).last_applied(e.aggregate_id) == e.sequence,
            forall|id2: Seq<char>|
                id2 != e.aggregate_id ==> #[trigger] self.project_event(e).account_balance(id2)
                    == self.account_balance(id2),
            forall|id2: Seq<char>|
                id2 != e.aggregate_id ==> #[trigger] self.project_event(e).last_applied(id2)
                    == self.last_applied(id2),
    {
        let id = e.aggregate_id;
        let up = self.upsert_account(id, balance_of(e.payload));
        let rows = self.apply_rows(e);
        assert(rows.accounts == up.accounts);
        self.lemma_upsert_preserves_wf(id, balance_of(e.payload));
        self.lemma_upsert_reads_back(id, balance_of(e.payload));
        let post = rows.mark_applied(id, e.sequence);
        assert(post.accounts == up.accounts);
        up.lemma_balance_from_rows(post, id);
        assert(rows.applied == self.applied);
        assert(rows.wf());
        rows.lemma_mark_applied_reads_back(id, e.sequence);
        assert(post.last_applied(id) == e.sequence);
        self.lemma_marks_from_applied(rows, id);
        assert forall|id2: Seq<char>| id2 != id implies #[trigger] post.account_balance(id2)
            == self.account_balance(id2) by {
            up.lemma_balance_from_rows(post, id2);
        }
        assert forall|id2: Seq<char>| id2 != id implies #[trigger] post.last_applied(id2)
            == self.last_applied(id2) by {
            self.lemma_marks_from_applied(rows, id2);
            assert(post.last_applied(id2) == rows.last_applied(id2));
        }
    }

    /// Idempotence of the projection: redelivering a committed event any
    /// number of times leaves the tables exactly as a single delivery does.
    pub proof fn lemma_projection_idempotent(self, e: StoredEventView)
        requires
            self.wf(),
        ensures
            self.project_event(e).project_event(e) == self.project_event(e),
    {
        let once = self.project_event(e);
        if e.sequence <= self.last_applied(e.aggregate_id) {
        } else {
            let rows = self.apply_rows(e);
            self.lemma_apply_rows_marks_unchanged(e);
            assert(rows.wf());
            rows.lemma_mark_applied_reads_back(e.aggregate_id, e.sequence);
            assert(once.last_applied(e.aggregate_id) == e.sequence);
        }
    }
}


/// The read model itself: the derived tables, held in insertion order.
pub struct ReadModel {
    pub accounts: Vec<AccountRow>,
    pub ledger_entries: Vec<LedgerEntryRow>,
    pub checks: Vec<CheckRow>,
    pub applied: Vec<AppliedMark>,
}

impl View for ReadModel {
    type V = ReadModelView;

    open spec fn view(&self) -> ReadModelView {
        ReadModelView {
            accounts: account_row_views(self.accounts@),
            ledger_entries: ledger_row_views(self.ledger_entries@),
            checks: check_row_views(self.checks@),
            applied: applied_mark_views(self.applied@),
        }
    }
}

impl ReadModel {
    /// Key uniqueness of the underlying tables.
    pub open spec fn wf(self) -> bool {
        self@.wf()
    }

    /// Empty tables: no account row, no ledger entry, no check, nothing
    /// applied yet.
    pub fn new() -> (r: ReadModel)
        ensures
            r.wf(),
            r@.accounts == Seq::<AccountRowView>::empty(),
            r@.ledger_entries == Seq::<LedgerEntryView>::empty(),
            r@.checks == Seq::<CheckRowView>::empty(),
            r@.applied == Seq::<AppliedMarkView>::empty(),
    {
        let r = ReadModel {
            accounts: Vec::new(),
            ledger_entries: Vec::new(),
            checks: Vec::new(),
            applied: Vec::new(),
        };
        proof {
            assert(r@.accounts =~~= Seq::<AccountRowView>::empty());
            assert(r@.ledger_entries =~~= Seq::<LedgerEntryView>::empty());
            assert(r@.checks =~~= Seq::<CheckRowView>::empty());
            assert(r@.applied =~~= Seq::<AppliedMarkView>::empty());
        }
        r
    }

    /// Finds the position of an account's row, if it has one.
    fn find_account(&self, id: &String) -> (r: Option<usize>)
        requires
            self.wf(),
        ensures
            match r {
                Some(i) => {
                    &&& (i as int) < self@.accounts.len()
                    &&& self@.accounts[i as int].id == id@
                    &&& self@.has_account(id@)
                    &&& self@.account_index(id@) == i as int
                },
                None => !self@.has_account(id@),
            },
    {
        let mut i: usize = 0;
        while i < self.accounts.len()
            invariant
                self.wf(),
                i <= self.accounts@.len(),
                forall|j: int| 0 <= j < i ==> (#[trigger] self@.accounts[j]).id != id@,
            decreases self.accounts@.len() - i,
        {
            if self.accounts[i].id == *id {
                proof {
                    self@.lemma_account_index_unique(id@, i as int);
                }
                return Some(i);
            }
            i = i + 1;
        }
        proof {
            if self@.has_account(id@) {
                let j = self@.account_index(id@);
                assert(self@.accounts[j].id == id@);
            }
        }
        None
    }

    /// Finds the position of an aggregate's applied mark, if it has one.
    fn find_mark(&self, id: &String) -> (r: Option<usize>)
        requires
            self.wf(),
        ensures
            match r {
                Some(i) => {
                    &&& (i as int) < self@.applied.len()
                    &&& self@.applied[i as int].account_id == id@
                    &&& self@.has_mark(id@)
                    &&& self@.mark_index(id@) == i as int
                },
                None => !self@.has_mark(id@),
            },
    {
        let mut i: usize = 0;
        while i < self.applied.len()
            invariant
                self.wf(),
                i <= self.applied@.len(),
                forall|j: int| 0 <= j < i ==> (#[trigger] self@.applied[j]).account_id != id@,
            decreases self.applied@.len() - i,
        {
            if self.applied[i].account_id == *id {
                proof {
                    self@.lemma_mark_index_unique(id@, i as int);
                }
                return Some(i);
            }
            i = i + 1;
        }
        proof {
            if self@.has_mark(id@) {
                let j = self@.mark_index(id@);
                assert(self@.applied[j].account_id == id@);
            }
        }
        None
    }

    /// Sets one account's balance, inserting the row if missing.
    fn upsert_account(&mut self, id: &String, balance: i64)
        requires
            old(self).wf(),
        ensures
            final(self)@ == old(self)@.upsert_account(id@, balance as int),
            final(self).wf(),
    {
        let ghost pre = self@;
        match self.find_account(id) {
            Some(i) => {
                self.accounts[i].balance = balance;
                proof {
                    assert(self@.accounts =~~= pre.accounts.update(
                        pre.account_index(id@),
                        AccountRowView { id: id@, balance: balance as int },
                    ));
                    assert(self@ =~~= pre.upsert_account(id@, balance as int));
                }
            },
            None => {
                self.accounts.push(AccountRow { id: id.clone(), balance });
                proof {
                    assert(self@.accounts =~~= pre.accounts.push(
                        AccountRowView { id: id@, balance: balance as int },
                    ));
                    assert(self@ =~~= pre.upsert_account(id@, balance as int));
                }
            },
        }
        proof {
            pre.lemma_upsert_preserves_wf(id@, balance as int);
        }
    }

    /// Remembers the last applied sequence number for one aggregate.
    fn set_mark(&mut self, id: &String, sequence: u64)
        requires
            old(self).wf(),
        ensures
            final(self)@ == old(self)@.mark_applied(id@, sequence as int),
            final(self).wf(),
    {
        let ghost pre = self@;
        match self.find_mark(id) {
            Some(i) => {
                self.applied[i].sequence = sequence;
                proof {
                    assert(self@.applied =~~= pre.applied.update(
                        pre.mark_index(id@),
                        AppliedMarkView { account_id: id@, sequence: sequence as int },
                    ));
                    assert(self@ =~~= pre.mark_applied(id@, sequence as int));
                }
            },
            None => {
                self.applied.push(AppliedMark { account_id: id.clone(), sequence });
                proof {
                    assert(self@.applied =~~= pre.applied.push(
                        AppliedMarkView { account_id: id@, sequence: sequence as int },
                    ));
                    assert(self@ =~~= pre.mark_applied(id@, sequence as int));
                }
            },
        }
        proof {
            pre.lemma_mark_applied_preserves_wf(id@, sequence as int);
        }
    }

    /// Appends one ledger row with the next surrogate key.
    fn push_ledger(&mut self, account_id: &String, description: String, amount: i64)
        requires
            old(self).wf(),
            old(self)@.ledger_entries.len() < u64::MAX,
        ensures
            final(self)@ == old(self)@.append_ledger(account_id@, description@, amount as int),
            final(self).wf(),
    {
        let ghost pre = self@;
        proof {
            assert(self.ledger_entries@.len() == pre.ledger_entries.len());
        }
        let id: u64 = (self.ledger_entries.len() as u64) + 1;
        self.ledger_entries.push(
            LedgerEntryRow { id, account_id: account_id.clone(), description, amount },
        );
        proof {
            assert(self@.ledger_entries =~~= pre.append_ledger(
                account_id@,
                description@,
                amount as int,
            ).ledger_entries);
            assert(self@ =~~= pre.append_ledger(account_id@, description@, amount as int));
        }
    }

    /// Appends one check row with the next surrogate key.
    fn push_check(&mut self, account_id: &String, check_number: String)
        requires
            old(self).wf(),
            old(self)@.checks.len() < u64::MAX,
        ensures
            final(self)@ == old(self)@.append_check(account_id@, check_number@),
            final(self).wf(),
    {
        let ghost pre = self@;
        proof {
            assert(self.checks@.len() == pre.checks.len());
        }
        let id: u64 = (self.checks.len() as u64) + 1;
        self.checks.push(CheckRow { id, account_id: account_id.clone(), check_number });
        proof {
            assert(self@.checks =~~= pre.append_check(account_id@, check_number@).checks);
            assert(self@ =~~= pre.append_check(account_id@, check_number@));
        }
    }

    /// One at-least-once delivery of a committed event.
    ///
    /// A sequence number at or below the last applied one for its aggregate
    /// changes nothing; a fresh one performs the event's whole multi-row
    /// update — balance upsert, ledger append, check append, as the variant
    /// demands — and advances the last-applied mark, all together.
    pub fn apply(&mut self, event: &StoredEvent)
        requires
            old(self).wf(),
            old(self)@.ledger_entries.len() < u64::MAX,
            old(self)@.checks.len() < u64::MAX,
        ensures
            final(self)@ == old(self)@.project_event(event@),
            final(self).wf(),
    {
        let ghost pre = self@;
        let last: u64 = match self.find_mark(&event.aggregate_id) {
            Some(i) => self.applied[i].sequence,
            None => 0,
        };
        if event.sequence <= last {
            return;
        }
        match &event.payload {
            crate::events::BankAccountEvent::AccountOpened { account_id } => {
                self.upsert_account(account_id, 0);
            },
            crate::events::BankAccountEvent::CustomerDepositedMoney { amount, balance } => {
                self.upsert_account(&event.aggregate_id, *balance);
                self.push_ledger(&event.aggregate_id, deposit_description(), *amount);
            },
            crate::events::BankAccountEvent::CustomerWithdrewCash { amount, balance } => {
                self.upsert_account(&event.aggregate_id, *balance);
                self.push_ledger(&event.aggregate_id, withdrawal_description(), *amount);
            },
            crate::events::BankAccountEvent::CustomerWroteCheck {
                check_number,
                amount,
                balance,
            } => {
                self.upsert_account(&event.aggregate_id, *balance);
                self.push_ledger(&event.aggregate_id, check_number.clone(), *amount);
                self.push_check(&event.aggregate_id, check_number.clone());
            },
        }
        proof {
            assert(self@ == pre.apply_rows(event@));
        }
        self.set_mark(&event.aggregate_id, event.sequence);
        proof {
            assert(self@ == pre.project_event(event@));
        }
    }
}

/// The tables after a batch of committed events is delivered, in commit
/// order.
pub open spec fn project_all(m: ReadModelView, events: Seq<StoredEventView>) -> ReadModelView
    decreases events.len(),
{
    if events.len() == 0 {
        m
    } else {
        project_all(m, events.drop_last()).project_event(events.last())
    }
}

impl ReadModel {
    /// The projection dispatcher: delivers newly committed events of one
    /// aggregate to the projection, one at a time, preserving commit order.
    pub fn dispatch(&mut self, events: &Vec<StoredEvent>)
        requires
            old(self).wf(),
            old(self)@.ledger_entries.len() + events@.len() < u64::MAX,
            old(self)@.checks.len() + events@.len() < u64::MAX,
        ensures
            final(self)@ == project_all(old(self)@, crate::events::stored_views(events@)),
            final(self).wf(),
    {
        let ghost all = crate::events::stored_views(events@);
        let mut i: usize = 0;
        proof {
            assert(all.take(0) =~= Seq::<StoredEventView>::empty());
        }
        while i < events.len()
            invariant
                i <= events@.len(),
                all == crate::events::stored_views(events@),
                all.len() == events@.len(),
                self@ == project_all(old(self)@, all.take(i as int)),
                self.wf(),
                self@.ledger_entries.len() <= old(self)@.ledger_entries.len() + i,
                self@.checks.len() <= old(self)@.checks.len() + i,
                old(self)@.ledger_entries.len() + events@.len() < u64::MAX,
                old(self)@.checks.len() + events@.len() < u64::MAX,
            decreases events@.len() - i,
        {
            self.apply(&events[i]);
            i = i + 1;
            proof {
                assert(all.take(i as int).drop_last() =~= all.take(i as int - 1));
                assert(all.take(i as int).last() == events@[i as int - 1]@);
            }
        }
        proof {
            assert(all.take(all.len() as int) == all);
        }
    }
}

/// The ledger description of a deposit.
fn deposit_description() -> (r: String)
    ensures
        r@ == "deposit"@,
{
    "deposit".to_owned()
}

/// The ledger description of a cash withdrawal.
fn withdrawal_description() -> (r: String)
    ensures
        r@ == "atm_withdrawal"@,
{
    "atm_withdrawal".to_owned()
}


/// A row list's model with one more row is the model with the row's model
/// appended.
proof fn lemma_check_row_views_push(s: Seq<CheckRow>, r: CheckRow)
    ensures
        check_row_views(s.push(r)) == check_row_views(s).push(r@),
{
    assert(check_row_views(s.push(r)) =~~= check_row_views(s).push(r@));
}

proof fn lemma_ledger_row_views_push(s: Seq<LedgerEntryRow>, r: LedgerEntryRow)
    ensures
        ledger_row_views(s.push(r)) == ledger_row_views(s).push(r@),
{
    assert(ledger_row_views(s.push(r)) =~~= ledger_row_views(s).push(r@));
}

impl ReadModel {
    /// The current balance of one account, or `None` while the account has no
    /// row yet.
    pub fn account_balance(&self, account_id: &String) -> (r: Option<i64>)
        requires
            self.wf(),
        ensures
            match r {
                Some(b) => self@.account_balance(account_id@) == Some(b as int),
                None => self@.account_balance(account_id@) is None,
            },
    {
        match self.find_account(account_id) {
            Some(i) => Some(self.accounts[i].balance),
            None => None,
        }
    }

    /// The checks issued by one account, in insertion order.
    pub fn checks_for(&self, account_id: &String) -> (r: Vec<CheckRow>)
        requires
            self.wf(),
        ensures
            check_row_views(r@) == checks_of(self@.checks, account_id@),
    {
        let mut r: Vec<CheckRow> = Vec::new();
        let mut i: usize = 0;
        proof {
            reveal_with_fuel(Seq::<CheckRowView>::filter, 2);
            assert(check_row_views(r@) =~~= checks_of(self@.checks.take(0), account_id@));
        }
        while i < self.checks.len()
            invariant
                self.checks@.len() == self@.checks.len(),
                i <= self.checks@.len(),
                check_row_views(r@) == checks_of(self@.checks.take(i as int), account_id@),
            decreases self.checks@.len() - i,
        {
            let ghost rows = self@.checks;
            proof {
                reveal_with_fuel(Seq::<CheckRowView>::filter, 2);
                assert(rows.take(i as int + 1).drop_last() =~~= rows.take(i as int));
                assert(rows.take(i as int + 1).last() == rows[i as int]);
            }
            if self.checks[i].account_id == *account_id {
                let ghost pre = r@;
                r.push(self.checks[i].clone());
                proof {
                    reveal_with_fuel(Seq::<CheckRowView>::filter, 2);
                    lemma_check_row_views_push(pre, r@[r@.len() - 1]);
                    assert(check_row_views(r@) =~~= checks_of(
                        rows.take(i as int + 1),
                        account_id@,
                    ));
                }
            } else {
                proof {
                    reveal_with_fuel(Seq::<CheckRowView>::filter, 2);
                    assert(check_row_views(r@) =~~= checks_of(
                        rows.take(i as int + 1),
                        account_id@,
                    ));
                }
            }
            i = i + 1;
        }
        proof {
            assert(self@.checks.take(self@.checks.len() as int) == self@.checks);
        }
        r
    }

    /// The ledger entries of one account, in insertion order.
    pub fn ledger_entries_for(&self, account_id: &String) -> (r: Vec<LedgerEntryRow>)
        requires
            self.wf(),
        ensures
            ledger_row_views(r@) == ledger_of(self@.ledger_entries, account_id@),
    {
        let mut r: Vec<LedgerEntryRow> = Vec::new();
        let mut i: usize = 0;
        proof {
            reveal_with_fuel(Seq::<LedgerEntryView>::filter, 2);
            assert(ledger_row_views(r@) =~~= ledger_of(
                self@.ledger_entries.take(0),
                account_id@,
            ));
        }
        while i < self.ledger_entries.len()
            invariant
                self.ledger_entries@.len() == self@.ledger_entries.len(),
                i <= self.ledger_entries@.len(),
                ledger_row_views(r@) == ledger_of(self@.ledger_entries.take(i as int), account_id@),
            decreases self.ledger_entries@.len() - i,
        {
            let ghost rows = self@.ledger_entries;
            proof {
                reveal_with_fuel(Seq::<LedgerEntryView>::filter, 2);
                assert(rows.take(i as int + 1).drop_last() =~~= rows.take(i as int));
                assert(rows.take(i as int + 1).last() == rows[i as int]);
            }
            if self.ledger_entries[i].account_id == *account_id {
                let ghost pre = r@;
                r.push(self.ledger_entries[i].clone());
                proof {
                    reveal_with_fuel(Seq::<LedgerEntryView>::filter, 2);
                    lemma_ledger_row_views_push(pre, r@[r@.len() - 1]);
                    assert(ledger_row_views(r@) =~~= ledger_of(
                        rows.take(i as int + 1),
                        account_id@,
                    ));
                }
            } else {
                proof {
                    reveal_with_fuel(Seq::<LedgerEntryView>::filter, 2);
                    assert(ledger_row_views(r@) =~~= ledger_of(
                        rows.take(i as int + 1),
                        account_id@,
                    ));
                }
            }
            i = i + 1;
        }
        proof {
            assert(self@.ledger_entries.take(self@.ledger_entries.len() as int)
                == self@.ledger_entries);
        }
        r
    }
}

} // verus!
