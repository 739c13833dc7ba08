//! The escrow contract: escrows held for a customer and a merchant, and the
//! administrator-driven migration procedure that walks every escrow once.
//!
//! A migration is begun by the administrator, which records how many escrows
//! exist; each escrow is then migrated once (singly or in batches), and the
//! migration can be completed only after all of them were. While a migration
//! is in progress no escrow can be created.

use vstd::prelude::*;
use crate::address::Address;
use crate::counting::{
    count_true,
    lemma_count_true_le_len,
    lemma_count_true_push,
    lemma_count_true_set,
    lemma_count_true_all_clear,
    lemma_count_true_full,
};

verus! {

/// Errors of the escrow contract.
#[derive(Debug, Clone, Copy, PartialEq, Eq)]
pub enum Error {
    /// The caller is not the contract's administrator.
    NotAnAdmin,
    /// Escrows cannot be created while a migration is in progress.
    ContractPaused,
    /// The escrowed amount must be positive.
    InvalidAmount,
    /// No escrow has the given id.
    EscrowNotFound,
    /// A migration is already in progress.
    MigrationInProgress,
    /// No migration is in progress.
    MigrationNotStarted,
    /// The escrow was already migrated in the current migration.
    AlreadyMigrated,
    /// Some escrow has not been migrated yet.
    MigrationIncomplete,
}

/// Progress of the current (or last) migration.
#[derive(Debug, Clone, Copy, PartialEq, Eq)]
pub struct MigrationStatus {
    /// A migration has begun and has not been completed.
    pub in_progress: bool,
    /// Number of escrows that existed when the migration began.
    pub total_count: u64,
    /// Number of escrows migrated so far.
    pub migrated_count: u64,
    /// Ledger time at which the migration began.
    pub started_at: u64,
    /// Ledger time at which the migration was completed.
    pub completed_at: Option<u64>,
}

/// The status before any migration has begun.
pub open spec fn initial_status() -> MigrationStatus {
    MigrationStatus {
        in_progress: false,
        total_count: 0,
        migrated_count: 0,
        started_at: 0,
        completed_at: None,
    }
}

/// An escrow: funds of `customer`, in `token`, held for `merchant`.
#[derive(Debug)]
pub struct Escrow {
    pub id: u64,
    pub customer: Address,
    pub merchant: Address,
    pub amount: i128,
    pub token: Address,
    pub timeout: u64,
    pub hold_period: u64,
    pub dispute_period: u64,
    pub auto_release: bool,
    /// Ledger time at which the escrow was created.
    pub created_at: u64,
}

/// What an escrow holds, with addresses by their encodings.
pub struct EscrowRecord {
    pub id: u64,
    pub customer: Seq<u8>,
    pub merchant: Seq<u8>,
    pub amount: i128,
    pub token: Seq<u8>,
    pub timeout: u64,
    pub hold_period: u64,
    pub dispute_period: u64,
    pub auto_release: bool,
    pub created_at: u64,
}

impl View for Escrow {
    type V = EscrowRecord;

    open spec fn view(&self) -> EscrowRecord {
        EscrowRecord {
            id: self.id,
            customer: self.customer@,
            merchant: self.merchant@,
            amount: self.amount,
            token: self.token@,
            timeout: self.timeout,
            hold_period: self.hold_period,
            dispute_period: self.dispute_period,
            auto_release: self.auto_release,
            created_at: self.created_at,
        }
    }
}

/// The state of the escrow contract: `escrows[i]` has id `i + 1`, and
/// `migrated[i]` tells whether it was migrated in the current migration.
pub struct EscrowState {
    pub admin: Seq<u8>,
    pub escrows: Seq<EscrowRecord>,
    pub migrated: Seq<bool>,
    pub migration: MigrationStatus,
}

impl EscrowState {
    /// The invariant that every operation keeps.
    pub open spec fn wf(self) -> bool {
        &&& self.migrated.len() == self.escrows.len()
        &&& self.escrows.len() <= u64::MAX
        &&& forall|i: int| 0 <= i < self.escrows.len() ==> #[trigger] self.escrows[i].id == i + 1
        &&& self.migration.migrated_count == count_true(self.migrated)
        &&& self.migration.migrated_count <= self.migration.total_count
        &&& self.migration.total_count <= self.escrows.len()
        &&& self.migration.in_progress ==> self.migration.total_count == self.escrows.len()
    }

    pub open spec fn is_admin(self, caller: Seq<u8>) -> bool {
        caller == self.admin
    }

    /// Whether `id` names an existing escrow.
    pub open spec fn has_escrow(self, id: u64) -> bool {
        1 <= id <= self.escrows.len()
    }

    /// Whether escrow `id` was migrated in the current migration.
    pub open spec fn is_migrated(self, id: u64) -> bool {
        self.has_escrow(id) && self.migrated[id - 1]
    }

    /// Every existing escrow has been migrated.
    pub open spec fn all_migrated(self) -> bool {
        forall|i: int| 0 <= i < self.migrated.len() ==> #[trigger] self.migrated[i]
    }

    /// What creating an escrow of `amount` answers.
    pub open spec fn create_result(self, amount: i128) -> Result<u64, Error> {
        if self.migration.in_progress {
            Err(Error::ContractPaused)
        } else if amount <= 0 {
            Err(Error::InvalidAmount)
        } else {
            Ok((self.escrows.len() + 1) as u64)
        }
    }

    /// The state with `rec` appended as a new, unmigrated escrow.
    pub open spec fn with_escrow(self, rec: EscrowRecord) -> EscrowState {
        EscrowState {
            escrows: self.escrows.push(rec),
            migrated: self.migrated.push(false),
            ..self
        }
    }

    /// The outcome of beginning a migration at time `now`.
    pub open spec fn begin_outcome(self, caller: Seq<u8>, now: u64) -> (EscrowState, Result<(), Error>) {
        if !self.is_admin(caller) {
            (self, Err(Error::NotAnAdmin))
        } else if self.migration.in_progress {
            (self, Err(Error::MigrationInProgress))
        } else {
            (
                EscrowState {
                    migrated: Seq::new(self.escrows.len(), |i: int| false),
                    migration: MigrationStatus {
                        in_progress: true,
                        total_count: self.escrows.len() as u64,
                        migrated_count: 0,
                        started_at: now,
                        completed_at: None,
                    },
                    ..self
                },
                Ok(()),
            )
        }
    }

    /// The state with escrow `id` marked as migrated.
    pub open spec fn mark(self, id: u64) -> EscrowState {
        EscrowState {
            migrated: self.migrated.update(id - 1, true),
            migration: MigrationStatus {
                migrated_count: (self.migration.migrated_count + 1) as u64,
                ..self.migration
            },
            ..self
        }
    }

    /// The outcome of migrating escrow `id`.
    pub open spec fn migrate_outcome(self, caller: Seq<u8>, id: u64) -> (EscrowState, Result<(), Error>) {
        if !self.is_admin(caller) {
            (self, Err(Error::NotAnAdmin))
        } else if !self.migration.in_progress {
            (self, Err(Error::MigrationNotStarted))
        } else if !self.has_escrow(id) {
            (self, Err(Error::EscrowNotFound))
        } else if self.is_migrated(id) {
            (self, Err(Error::AlreadyMigrated))
        } else {
            (self.mark(id), Ok(()))
        }
    }

    /// Migrates escrow `id` if it exists and is not migrated yet; otherwise
    /// leaves the state as it is.
    pub open spec fn migrate_if_pending(self, id: u64) -> EscrowState {
        if self.has_escrow(id) && !self.is_migrated(id) {
            self.mark(id)
        } else {
            self
        }
    }

    /// The state after `migrate_if_pending` on each of `ids`, in order.
    pub open spec fn migrate_all(self, ids: Seq<u64>) -> EscrowState
        decreases ids.len(),
    {
        if ids.len() == 0 {
            self
        } else {
            self.migrate_all(ids.drop_last()).migrate_if_pending(ids.last())
        }
    }

    /// The outcome of migrating the escrows `ids` in one batch: those that
    /// exist and are not migrated yet are migrated, the others are skipped,
    /// and the number migrated is answered.
    pub open spec fn batch_outcome(self, caller: Seq<u8>, ids: Seq<u64>) -> (EscrowState, Result<u64, Error>) {
        if !self.is_admin(caller) {
            (self, Err(Error::NotAnAdmin))
        } else if !self.migration.in_progress {
            (self, Err(Error::MigrationNotStarted))
        } else {
            let post = self.migrate_all(ids);
            (post, Ok((post.migration.migrated_count - self.migration.migrated_count) as u64))
        }
    }

    /// The outcome of completing the migration at time `now`.
    pub open spec fn complete_outcome(self, caller: Seq<u8>, now: u64) -> (EscrowState, Result<(), Error>) {
        if !self.is_admin(caller) {
            (self, Err(Error::NotAnAdmin))
        } else if !self.migration.in_progress {
            (self, Err(Error::MigrationNotStarted))
        } else if self.migration.migrated_count < self.migration.total_count {
            (self, Err(Error::MigrationIncomplete))
        } else {
            (
                EscrowState {
                    migration: MigrationStatus {
                        in_progress: false,
                        completed_at: Some(now),
                        ..self.migration
                    },
                    ..self
                },
                Ok(()),
            )
        }
    }
}

/// Marking a pending escrow keeps the invariant and raises the count by one.
pub proof fn lemma_mark_wf(s: EscrowState, id: u64)
    requires
        s.wf(),
        s.migration.in_progress,
        s.has_escrow(id),
        !s.is_migrated(id),
    ensures
        s.mark(id).wf(),
        s.migration.migrated_count < s.migration.total_count,
{
    lemma_count_true_set(s.migrated, id - 1);
    lemma_count_true_le_len(s.migrated.update(id - 1, true));
    lemma_count_true_full(s.migrated);
}

/// Migrating a batch keeps the invariant and never lowers the count.
pub proof fn lemma_migrate_all_wf(s: EscrowState, ids: Seq<u64>)
    requires
        s.wf(),
        s.migration.in_progress,
    ensures
        s.migrate_all(ids).wf(),
        s.migrate_all(ids).migration.in_progress,
        s.migrate_all(ids).admin == s.admin,
        s.migrate_all(ids).escrows == s.escrows,
        s.migrate_all(ids).migration.total_count == s.migration.total_count,
        s.migrate_all(ids).migration.started_at == s.migration.started_at,
        s.migrate_all(ids).migration.completed_at == s.migration.completed_at,
        s.migrate_all(ids).migration.migrated_count >= s.migration.migrated_count,
    decreases ids.len(),
{
    if ids.len() > 0 {
        lemma_migrate_all_wf(s, ids.drop_last());
        let t = s.migrate_all(ids.drop_last());
        if t.has_escrow(ids.last()) && !t.is_migrated(ids.last()) {
            lemma_mark_wf(t, ids.last());
        }
    }
}

/// The escrow contract.
pub struct EscrowContract {
    admin: Address,
    escrows: Vec<Escrow>,
    migrated: Vec<bool>,
    migration: MigrationStatus,
}

impl View for EscrowContract {
    type V = EscrowState;

    closed spec fn view(&self) -> EscrowState {
        EscrowState {
            admin: self.admin@,
            escrows: self.escrows@.map_values(|e: Escrow| e@),
            migrated: self.migrated@,
            migration: self.migration,
        }
    }
}

impl EscrowContract {
    /// A fresh contract administered by `admin`, with no escrow and no
    /// migration.
    pub fn initialize(admin: Address) -> (c: EscrowContract)
        ensures
            c@.wf(),
            c@.admin == admin@,
            c@.escrows.len() == 0,
            c@.migration == initial_status(),
    {
        let c = EscrowContract {
            admin,
            escrows: Vec::new(),
            migrated: Vec::new(),
            migration: MigrationStatus {
                in_progress: false,
                total_count: 0,
                migrated_count: 0,
                started_at: 0,
                completed_at: None,
            },
        };
        proof {
            assert(c@.escrows =~= Seq::<EscrowRecord>::empty());
            assert(c@.migrated =~= Seq::<bool>::empty());
        }
        c
    }

    /// Rebuilds a contract from its stored parts; `None` when the parts do
    /// not form a consistent state.
    pub fn restore(
        admin: Address,
        escrows: Vec<Escrow>,
        migrated: Vec<bool>,
        migration: MigrationStatus,
    ) -> (r: Option<EscrowContract>)
        ensures
            r is Some <==> (EscrowState {
                admin: admin@,
                escrows: escrows@.map_values(|e: Escrow| e@),
                migrated: migrated@,
                migration,
            }).wf(),
            r matches Some(c) ==> c@ == (EscrowState {
                admin: admin@,
                escrows: escrows@.map_values(|e: Escrow| e@),
                migrated: migrated@,
                migration,
            }),
    {
        let ghost s = EscrowState {
            admin: admin@,
            escrows: escrows@.map_values(|e: Escrow| e@),
            migrated: migrated@,
            migration,
        };
        let n = escrows.len();
        if migrated.len() != n {
            return None;
        }
        let mut i: usize = 0;
        let mut count: u64 = 0;
        while i < n
            invariant
                n == escrows@.len(),
                n == migrated@.len(),
                i <= n,
                s.escrows == escrows@.map_values(|e: Escrow| e@),
                s.migrated == migrated@,
                forall|j: int| 0 <= j < i ==> #[trigger] s.escrows[j].id == j + 1,
                count == count_true(migrated@.take(i as int)),
            decreases n - i,
        {
            if escrows[i].id != i as u64 + 1 {
                proof {
                    assert(s.escrows[i as int].id == escrows@[i as int].id);
                }
                return None;
            }
            proof {
                assert(migrated@.take(i + 1) =~= migrated@.take(i as int).push(migrated@[i as int]));
                lemma_count_true_push(migrated@.take(i as int), migrated@[i as int]);
                lemma_count_true_le_len(migrated@.take(i as int));
            }
            if migrated[i] {
                count = count + 1;
            }
            i = i + 1;
        }
        proof {
            assert(migrated@.take(n as int) =~= migrated@);
        }
        if count != migration.migrated_count || migration.migrated_count > migration.total_count
            || migration.total_count > n as u64 || (migration.in_progress && migration.total_count
            != n as u64) {
            return None;
        }
        Some(EscrowContract { admin, escrows, migrated, migration })
    }

    /// The stored parts of the contract: administrator, escrows, migration
    /// flags and migration status.
    pub fn into_parts(self) -> (r: (Address, Vec<Escrow>, Vec<bool>, MigrationStatus))
        ensures
            self@ == (EscrowState {
                admin: r.0@,
                escrows: r.1@.map_values(|e: Escrow| e@),
                migrated: r.2@,
                migration: r.3,
            }),
    {
        (self.admin, self.escrows, self.migrated, self.migration)
    }

    fn is_admin(&self, caller: &Address) -> (r: bool)
        ensures
            r == self@.is_admin(caller@),
    {
        self.admin.same_as(caller)
    }

    /// Creates an escrow at ledger time `now` and answers its id; refused
    /// while a migration is in progress.
    pub fn create_escrow(
        &mut self,
        customer: Address,
        merchant: Address,
        amount: i128,
        token: Address,
        timeout: u64,
        hold_period: u64,
        dispute_period: u64,
        auto_release: bool,
        now: u64,
    ) -> (r: Result<u64, Error>)
        requires
            old(self)@.wf(),
            old(self)@.escrows.len() < u64::MAX,
        ensures
            final(self)@.wf(),
            r == old(self)@.create_result(amount),
            r is Err ==> final(self)@ == old(self)@,
            r is Ok ==> final(self)@ == old(self)@.with_escrow(
                EscrowRecord {
                    id: (old(self)@.escrows.len() + 1) as u64,
                    customer: customer@,
                    merchant: merchant@,
                    amount,
                    token: token@,
                    timeout,
                    hold_period,
                    dispute_period,
                    auto_release,
                    created_at: now,
                },
            ),
    {
        if self.migration.in_progress {
            return Err(Error::ContractPaused);
        }
        if amount <= 0 {
            return Err(Error::InvalidAmount);
        }
        let id = self.escrows.len() as u64 + 1;
        let e = Escrow {
            id,
            customer,
            merchant,
            amount,
            token,
            timeout,
            hold_period,
            dispute_period,
            auto_release,
            created_at: now,
        };
        let ghost pre = self@;
        self.escrows.push(e);
        self.migrated.push(false);
        proof {
            assert(self@.escrows =~= pre.escrows.push(e@));
            lemma_count_true_push(pre.migrated, false);
        }
        Ok(id)
    }

    /// Begins a migration at ledger time `now`.
    pub fn begin_migration(&mut self, caller: &Address, now: u64) -> (r: Result<(), Error>)
        requires
            old(self)@.wf(),
        ensures
            final(self)@.wf(),
            (final(self)@, r) == old(self)@.begin_outcome(caller@, now),
    {
        if !self.is_admin(caller) {
            return Err(Error::NotAnAdmin);
        }
        if self.migration.in_progress {
            return Err(Error::MigrationInProgress);
        }
        let n = self.escrows.len();
        let mut flags: Vec<bool> = Vec::new();
        let mut i: usize = 0;
        while i < n
            invariant
                i <= n,
                flags@ =~= Seq::new(i as nat, |j: int| false),
            decreases n - i,
        {
            flags.push(false);
            i = i + 1;
        }
        self.migrated = flags;
        self.migration = MigrationStatus {
            in_progress: true,
            total_count: n as u64,
            migrated_count: 0,
            started_at: now,
            completed_at: None,
        };
        proof {
            lemma_count_true_all_clear(n as nat);
            assert(self@.migrated =~= Seq::new(old(self)@.escrows.len(), |j: int| false));
        }
        Ok(())
    }

    /// Migrates escrow `id` if it exists and is pending.
    fn migrate_if_pending(&mut self, id: u64)
        requires
            old(self)@.wf(),
            old(self)@.migration.in_progress,
        ensures
            final(self)@ == old(self)@.migrate_if_pending(id),
    {
        if 1 <= id && id <= self.escrows.len() as u64 {
            let idx = (id - 1) as usize;
            if !self.migrated[idx] {
                proof {
                    lemma_mark_wf(self@, id);
                }
                self.migrated.set(idx, true);
                self.migration.migrated_count = self.migration.migrated_count + 1;
            }
        }
    }

    /// Migrates escrow `id`.
    pub fn migrate_escrow(&mut self, caller: &Address, id: u64) -> (r: Result<(), Error>)
        requires
            old(self)@.wf(),
        ensures
            final(self)@.wf(),
            (final(self)@, r) == old(self)@.migrate_outcome(caller@, id),
    {
        if !self.is_admin(caller) {
            return Err(Error::NotAnAdmin);
        }
        if !self.migration.in_progress {
            return Err(Error::MigrationNotStarted);
        }
        if id < 1 || id > self.escrows.len() as u64 {
            return Err(Error::EscrowNotFound);
        }
        if self.migrated[(id - 1) as usize] {
            return Err(Error::AlreadyMigrated);
        }
        proof {
            lemma_mark_wf(self@, id);
        }
        self.migrate_if_pending(id);
        Ok(())
    }

    /// Migrates the escrows `ids` in one batch, skipping those that do not
    /// exist or were already migrated, and answers how many were migrated.
    pub fn migrate_escrow_batch(&mut self, caller: &Address, ids: &Vec<u64>) -> (r: Result<u64, Error>)
        requires
            old(self)@.wf(),
        ensures
            final(self)@.wf(),
            (final(self)@, r) == old(self)@.batch_outcome(caller@, ids@),
    {
        if !self.is_admin(caller) {
            return Err(Error::NotAnAdmin);
        }
        if !self.migration.in_progress {
            return Err(Error::MigrationNotStarted);
        }
        let ghost s0 = self@;
        let start = self.migration.migrated_count;
        let n = ids.len();
        let mut i: usize = 0;
        while i < n
            invariant
                n == ids.len(),
                i <= n,
                s0.wf(),
                s0.migration.in_progress,
                start == s0.migration.migrated_count,
                self@ == s0.migrate_all(ids@.take(i as int)),
            decreases n - i,
        {
            proof {
                lemma_migrate_all_wf(s0, ids@.take(i as int));
            }
            self.migrate_if_pending(ids[i]);
            proof {
                assert(ids@.take(i + 1).drop_last() =~= ids@.take(i as int));
            }
            i = i + 1;
        }
        proof {
            assert(ids@.take(n as int) =~= ids@);
            lemma_migrate_all_wf(s0, ids@);
        }
        Ok(self.migration.migrated_count - start)
    }

    /// Completes the migration at ledger time `now`; refused until every
    /// escrow has been migrated.
    pub fn complete_migration(&mut self, caller: &Address, now: u64) -> (r: Result<(), Error>)
        requires
            old(self)@.wf(),
        ensures
            final(self)@.wf(),
            (final(self)@, r) == old(self)@.complete_outcome(caller@, now),
    {
        if !self.is_admin(caller) {
            return Err(Error::NotAnAdmin);
        }
        if !self.migration.in_progress {
            return Err(Error::MigrationNotStarted);
        }
        if self.migration.migrated_count < self.migration.total_count {
            return Err(Error::MigrationIncomplete);
        }
        self.migration.in_progress = false;
        self.migration.completed_at = Some(now);
        Ok(())
    }

    /// The progress of the current (or last) migration.
    pub fn get_migration_status(&self) -> (r: MigrationStatus)
        ensures
            r == self@.migration,
    {
        self.migration
    }

    /// The number of escrows created so far.
    pub fn escrow_count(&self) -> (r: u64)
        ensures
            r == self@.escrows.len(),
    {
        proof {
            assert(self@.escrows.len() == self.escrows@.len());
        }
        self.escrows.len() as u64
    }

    /// The escrow with id `id`, if there is one.
    pub fn get_escrow(&self, id: u64) -> (r: Option<&Escrow>)
        requires
            self@.wf(),
        ensures
            r is Some <==> self@.has_escrow(id),
            r matches Some(e) ==> e@ == self@.escrows[id - 1],
    {
        if 1 <= id && id <= self.escrows.len() as u64 {
            Some(&self.escrows[(id - 1) as usize])
        } else {
            None
        }
    }

    /// Whether escrow `id` was migrated in the current migration; `None`
    /// when there is no such escrow.
    pub fn is_migrated(&self, id: u64) -> (r: Option<bool>)
        requires
            self@.wf(),
        ensures
            r is Some <==> self@.has_escrow(id),
            r matches Some(b) ==> b == self@.is_migrated(id),
    {
        if 1 <= id && id <= self.escrows.len() as u64 {
            Some(self.migrated[(id - 1) as usize])
        } else {
            None
        }
    }
}

} // verus!
