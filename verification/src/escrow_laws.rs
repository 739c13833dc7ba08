//! Properties of the escrow contract that span its operations.

use vstd::prelude::*;
use crate::counting::{count_true, lemma_count_true_full};
use crate::escrow::{EscrowRecord, EscrowState, Error, MigrationStatus};

verus! {

/// Which escrows a batch leaves migrated: exactly those that were migrated
/// before, and the existing ones whose id is in the batch.
pub proof fn law_batch_marks_exactly(s: EscrowState, ids: Seq<u64>)
    requires
        s.wf(),
        s.migration.in_progress,
    ensures
        s.migrate_all(ids).escrows == s.escrows,
        forall|id: u64| #[trigger] s.migrate_all(ids).is_migrated(id) <==> (s.is_migrated(id) || (
        s.has_escrow(id) && ids.contains(id))),
    decreases ids.len(),
{
    if ids.len() > 0 {
        let d = ids.drop_last();
        let x = ids.last();
        law_batch_marks_exactly(s, d);
        crate::escrow::lemma_migrate_all_wf(s, d);
        let t = s.migrate_all(d);
        assert(s.migrate_all(ids) == t.migrate_if_pending(x));
        assert forall|id: u64| #[trigger] s.migrate_all(ids).is_migrated(id) <==> (s.is_migrated(id) || (
        s.has_escrow(id) && ids.contains(id))) by {
            assert(t.is_migrated(id) <==> (s.is_migrated(id) || (s.has_escrow(id) && d.contains(id))));
            if ids.contains(id) && !d.contains(id) {
                let k = choose|k: int| 0 <= k < ids.len() && ids[k] == id;
                if k < ids.len() - 1 {
                    assert(d[k] == id);
                }
            }
            if d.contains(id) {
                let k = choose|k: int| 0 <= k < d.len() && d[k] == id;
                assert(ids[k] == id);
            }
            assert(ids[ids.len() - 1] == x);
        }
    }
}

/// Every migration step asked by someone other than the administrator is
/// refused as such and changes nothing.
pub proof fn law_only_admin_migrates(s: EscrowState, caller: Seq<u8>, id: u64, ids: Seq<u64>, now: u64)
    requires
        !s.is_admin(caller),
    ensures
        s.begin_outcome(caller, now) == (s, Err::<(), Error>(Error::NotAnAdmin)),
        s.migrate_outcome(caller, id) == (s, Err::<(), Error>(Error::NotAnAdmin)),
        s.batch_outcome(caller, ids) == (s, Err::<u64, Error>(Error::NotAnAdmin)),
        s.complete_outcome(caller, now) == (s, Err::<(), Error>(Error::NotAnAdmin)),
{
}

/// Without a migration in progress, the administrator's migration steps are
/// refused as not started and change nothing.
pub proof fn law_steps_need_begin(s: EscrowState, caller: Seq<u8>, id: u64, ids: Seq<u64>, now: u64)
    requires
        s.is_admin(caller),
        !s.migration.in_progress,
    ensures
        s.migrate_outcome(caller, id) == (s, Err::<(), Error>(Error::MigrationNotStarted)),
        s.batch_outcome(caller, ids) == (s, Err::<u64, Error>(Error::MigrationNotStarted)),
        s.complete_outcome(caller, now) == (s, Err::<(), Error>(Error::MigrationNotStarted)),
{
}

/// A created escrow is found under the id that creation answered, holding
/// what it was created with, and is not migrated; earlier escrows are
/// unchanged.
pub proof fn law_created_escrow_read_back(s: EscrowState, rec: EscrowRecord, id: u64)
    requires
        s.escrows.len() < u64::MAX,
        s.migrated.len() == s.escrows.len(),
    ensures
        ({
            let t = s.with_escrow(rec);
            let new_id = (s.escrows.len() + 1) as u64;
            &&& t.has_escrow(new_id)
            &&& t.escrows[new_id - 1] == rec
            &&& !t.is_migrated(new_id)
            &&& s.has_escrow(id) ==> t.escrows[id - 1] == s.escrows[id - 1] && t.is_migrated(id)
                == s.is_migrated(id)
        }),
{
}

/// Creating an escrow is refused while a migration is in progress.
pub proof fn law_create_blocked_during_migration(s: EscrowState, amount: i128)
    requires
        s.migration.in_progress,
    ensures
        s.create_result(amount) == Err::<u64, Error>(Error::ContractPaused),
{
}

/// Beginning a migration records the number of existing escrows, the time,
/// and a count of zero, and leaves no escrow migrated.
pub proof fn law_begin_counts_existing(s: EscrowState, caller: Seq<u8>, now: u64)
    requires
        s.wf(),
        s.is_admin(caller),
        !s.migration.in_progress,
    ensures
        s.begin_outcome(caller, now).1 == Ok::<(), Error>(()),
        s.begin_outcome(caller, now).0.migration == (MigrationStatus {
            in_progress: true,
            total_count: s.escrows.len() as u64,
            migrated_count: 0,
            started_at: now,
            completed_at: None,
        }),
        forall|id: u64| !(#[trigger] s.begin_outcome(caller, now).0.is_migrated(id)),
{
}

/// Migrating an escrow a second time is refused as already migrated, and
/// changes nothing.
pub proof fn law_double_migration_refused(s: EscrowState, caller: Seq<u8>, id: u64)
    requires
        s.wf(),
        s.migrate_outcome(caller, id).1 is Ok,
    ensures
        s.migrate_outcome(caller, id).0.migrate_outcome(caller, id) == (
            s.migrate_outcome(caller, id).0,
            Err::<(), Error>(Error::AlreadyMigrated),
        ),
{
}

/// A migration completes exactly when the administrator asks for it while
/// it is in progress and every escrow has been migrated.
pub proof fn law_complete_iff_all_migrated(s: EscrowState, caller: Seq<u8>, now: u64)
    requires
        s.wf(),
    ensures
        s.complete_outcome(caller, now).1 is Ok <==> (s.is_admin(caller) && s.migration.in_progress
            && s.all_migrated()),
{
    lemma_count_true_full(s.migrated);
}

/// Once a migration is completed, escrows can be created again, with the
/// next id.
pub proof fn law_create_allowed_after_completion(
    s: EscrowState,
    caller: Seq<u8>,
    now: u64,
    amount: i128,
)
    requires
        s.wf(),
        s.complete_outcome(caller, now).1 is Ok,
        amount > 0,
    ensures
        s.complete_outcome(caller, now).0.create_result(amount) == Ok::<u64, Error>(
            (s.escrows.len() + 1) as u64,
        ),
{
}

/// A batch answers the number of escrows it migrated, and running the same
/// batch again migrates nothing and answers zero.
pub proof fn law_batch_idempotent(s: EscrowState, caller: Seq<u8>, ids: Seq<u64>)
    requires
        s.wf(),
        s.batch_outcome(caller, ids).1 is Ok,
    ensures
        s.batch_outcome(caller, ids).1 == Ok::<u64, Error>(
            (count_true(s.batch_outcome(caller, ids).0.migrated) - count_true(s.migrated)) as u64,
        ),
        s.batch_outcome(caller, ids).0.batch_outcome(caller, ids) == (
            s.batch_outcome(caller, ids).0,
            Ok::<u64, Error>(0),
        ),
{
    let t = s.migrate_all(ids);
    crate::escrow::lemma_migrate_all_wf(s, ids);
    law_batch_marks_exactly(s, ids);
    law_batch_marks_exactly(t, ids);
    let u = t.migrate_all(ids);
    crate::escrow::lemma_migrate_all_wf(t, ids);
    assert(u.migrated =~= t.migrated) by {
        assert forall|i: int| 0 <= i < u.migrated.len() implies u.migrated[i] == t.migrated[i] by {
            let id = (i + 1) as u64;
            assert(u.is_migrated(id) == t.is_migrated(id));
        }
    }
    assert(u.migration == t.migration);
}

/// Beginning a migration, migrating the ids `1..=n` of all `n` existing
/// escrows (in one batch), and completing it succeeds.
pub proof fn law_full_migration_completes(
    s: EscrowState,
    caller: Seq<u8>,
    start: u64,
    end: u64,
)
    requires
        s.wf(),
        s.is_admin(caller),
        !s.migration.in_progress,
    ensures
        ({
            let t = s.begin_outcome(caller, start).0;
            let ids = Seq::new(s.escrows.len(), |i: int| (i + 1) as u64);
            let u = t.batch_outcome(caller, ids).0;
            u.complete_outcome(caller, end).1 is Ok
        }),
{
    let t = s.begin_outcome(caller, start).0;
    let ids = Seq::new(s.escrows.len(), |i: int| (i + 1) as u64);
    crate::counting::lemma_count_true_all_clear(s.escrows.len());
    assert(t.wf());
    crate::escrow::lemma_migrate_all_wf(t, ids);
    law_batch_marks_exactly(t, ids);
    let u = t.migrate_all(ids);
    assert forall|i: int| 0 <= i < u.migrated.len() implies #[trigger] u.migrated[i] by {
        let id = (i + 1) as u64;
        assert(ids[i] == id);
        assert(ids.contains(id));
        assert(u.is_migrated(id));
    }
    law_complete_iff_all_migrated(u, caller, end);
}

/// While a migration is in progress, beginning another is refused, however
/// far the running one has got, and changes nothing.
pub proof fn law_begin_refused_during_migration(s: EscrowState, caller: Seq<u8>, now: u64)
    requires
        s.migration.in_progress,
    ensures
        s.begin_outcome(caller, now).0 == s,
        s.begin_outcome(caller, now).1 == Err::<(), Error>(
            if s.is_admin(caller) {
                Error::MigrationInProgress
            } else {
                Error::NotAnAdmin
            },
        ),
{
}

/// Completing a migration changes nothing but `in_progress` (now false) and
/// `completed_at` (now the time of completion): the escrows, their migrated
/// flags and the counts are kept. A refused completion changes nothing.
pub proof fn law_complete_keeps_progress(s: EscrowState, caller: Seq<u8>, now: u64)
    ensures
        ({
            let (t, r) = s.complete_outcome(caller, now);
            &&& r is Ok ==> {
                &&& t.admin == s.admin
                &&& t.escrows == s.escrows
                &&& t.migrated == s.migrated
                &&& t.migration.in_progress == false
                &&& t.migration.completed_at == Some(now)
                &&& t.migration.total_count == s.migration.total_count
                &&& t.migration.migrated_count == s.migration.migrated_count
                &&& t.migration.started_at == s.migration.started_at
                &&& forall|id: u64| t.is_migrated(id) == s.is_migrated(id)
            }
            &&& r is Err ==> t == s
        }),
{
}

/// Migrating one escrow succeeds exactly when the administrator asks during
/// a migration for an existing escrow not migrated yet; it then marks that
/// escrow alone and raises the count by one, leaving everything else.
/// A refused step changes nothing.
pub proof fn law_migrate_one(s: EscrowState, caller: Seq<u8>, id: u64)
    requires
        s.wf(),
    ensures
        ({
            let (t, r) = s.migrate_outcome(caller, id);
            &&& r is Ok <==> (s.is_admin(caller) && s.migration.in_progress && s.has_escrow(id)
                && !s.is_migrated(id))
            &&& r is Ok ==> {
                &&& t.is_migrated(id)
                &&& forall|other: u64| other != id ==> t.is_migrated(other) == s.is_migrated(other)
                &&& t.escrows == s.escrows
                &&& t.admin == s.admin
                &&& t.migration.migrated_count == s.migration.migrated_count + 1
                &&& t.migration.total_count == s.migration.total_count
                &&& t.migration.in_progress
                &&& t.migration.started_at == s.migration.started_at
                &&& t.migration.completed_at == s.migration.completed_at
            }
            &&& r is Err ==> t == s
        }),
{
    if s.has_escrow(id) && !s.is_migrated(id) && s.migration.in_progress {
        crate::escrow::lemma_mark_wf(s, id);
    }
}

/// A batch is accepted exactly when the administrator asks during a
/// migration; it answers by how much the migrated count rose and keeps the
/// other parts of the status and the escrows.
pub proof fn law_batch_accounting(s: EscrowState, caller: Seq<u8>, ids: Seq<u64>)
    requires
        s.wf(),
    ensures
        ({
            let (t, r) = s.batch_outcome(caller, ids);
            &&& r is Ok <==> (s.is_admin(caller) && s.migration.in_progress)
            &&& r is Ok ==> {
                &&& t.migration.migrated_count == s.migration.migrated_count + r->Ok_0
                &&& t.migration.total_count == s.migration.total_count
                &&& t.migration.in_progress
                &&& t.migration.started_at == s.migration.started_at
                &&& t.migration.completed_at == s.migration.completed_at
                &&& t.escrows == s.escrows
                &&& t.admin == s.admin
            }
            &&& r is Err ==> t == s
        }),
{
    if s.migration.in_progress {
        crate::escrow::lemma_migrate_all_wf(s, ids);
    }
}

/// Creating an escrow succeeds exactly outside a migration and for a
/// positive amount, answering the next id; it leaves the administrator, the
/// migration status and the flags of earlier escrows as they were.
pub proof fn law_create_escrow(s: EscrowState, amount: i128, rec: EscrowRecord)
    requires
        s.wf(),
        s.escrows.len() < u64::MAX,
    ensures
        s.create_result(amount) is Ok <==> (!s.migration.in_progress && amount > 0),
        s.create_result(amount) is Ok ==> s.create_result(amount) == Ok::<u64, Error>(
            (s.escrows.len() + 1) as u64,
        ),
        s.with_escrow(rec).admin == s.admin,
        s.with_escrow(rec).migration == s.migration,
        s.with_escrow(rec).escrows.len() == s.escrows.len() + 1,
        s.with_escrow(rec).migrated.len() == s.escrows.len() + 1,
        forall|id: u64| s.has_escrow(id) ==> #[trigger] s.with_escrow(rec).is_migrated(id) == s.is_migrated(id),
{
}

} // verus!
