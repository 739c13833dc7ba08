//! Properties of the payment contract that span its operations.

use vstd::prelude::*;
use crate::fees::law_split_conserves;
use crate::forward_map::ForwardRecord;
use crate::payment::{Error, FeeView, PaymentRecord, PaymentState, PaymentStatus, SettlementView, forward_bps_valid};

verus! {

/// Only the administrator sets the fee rules and completes payments; anyone
/// else is refused as such and changes nothing.
pub proof fn law_only_admin_settles(s: PaymentState, caller: Seq<u8>, f: FeeView, id: u64)
    requires
        !s.is_admin(caller),
    ensures
        s.set_fee_outcome(caller, f) == (s, Err::<(), Error>(Error::NotAnAdmin)),
        s.complete_outcome(caller, id) == (s, Err::<SettlementView, Error>(Error::NotAnAdmin)),
{
}

/// A created payment is found under the id that creation answered, holding
/// what it was created with; earlier payments are unchanged.
pub proof fn law_created_payment_read_back(s: PaymentState, rec: PaymentRecord, id: u64)
    requires
        s.payments.len() < u64::MAX,
    ensures
        ({
            let t = s.with_payment(rec);
            let new_id = (s.payments.len() + 1) as u64;
            &&& t.has_payment(new_id)
            &&& t.payments[new_id - 1] == rec
            &&& s.has_payment(id) ==> t.payments[id - 1] == s.payments[id - 1]
        }),
{
}

/// After a merchant's forwarding rule is set, reading it gives back exactly
/// the target and rate that were set, marked active; the rules of other
/// merchants are unchanged, and the target has no rule of its own.
pub proof fn law_forward_read_back(
    s: PaymentState,
    merchant: Seq<u8>,
    forward_to: Seq<u8>,
    bps: u32,
    other: Seq<u8>,
)
    requires
        s.set_forward_outcome(merchant, forward_to, bps).1 is Ok,
        other != merchant,
    ensures
        ({
            let t = s.set_forward_outcome(merchant, forward_to, bps).0;
            &&& t.forward_result(merchant) == Ok::<ForwardRecord, Error>(
                ForwardRecord { merchant, forward_to, forward_bps: bps, active: true },
            )
            &&& t.forward_result(other) == s.forward_result(other)
            &&& t.forward_result(forward_to) == Err::<ForwardRecord, Error>(Error::ForwardConfigNotFound)
        }),
{
}

/// A rate outside 1..=10000 basis points is refused and changes nothing.
pub proof fn law_forward_bps_bounds(s: PaymentState, merchant: Seq<u8>, forward_to: Seq<u8>, bps: u32)
    requires
        !forward_bps_valid(bps),
    ensures
        s.set_forward_outcome(merchant, forward_to, bps) == (s, Err::<(), Error>(Error::InvalidForwardBps)),
{
}

/// Forwarding to an address that forwards itself, or to oneself, is refused
/// as a loop and changes nothing.
pub proof fn law_forward_loop_refused(s: PaymentState, merchant: Seq<u8>, forward_to: Seq<u8>, bps: u32)
    requires
        forward_bps_valid(bps),
        s.forwards.contains_key(forward_to) || forward_to == merchant,
    ensures
        s.set_forward_outcome(merchant, forward_to, bps) == (s, Err::<(), Error>(Error::ForwardLoop)),
{
}

/// Setting a merchant's rule twice leaves the second one.
pub proof fn law_latest_forward_wins(
    s: PaymentState,
    merchant: Seq<u8>,
    to1: Seq<u8>,
    bps1: u32,
    to2: Seq<u8>,
    bps2: u32,
)
    requires
        s.set_forward_outcome(merchant, to1, bps1).1 is Ok,
        s.set_forward_outcome(merchant, to1, bps1).0.set_forward_outcome(merchant, to2, bps2).1 is Ok,
    ensures
        s.set_forward_outcome(merchant, to1, bps1).0.set_forward_outcome(merchant, to2, bps2).0.forward_result(
            merchant,
        ) == Ok::<ForwardRecord, Error>(
            ForwardRecord { merchant, forward_to: to2, forward_bps: bps2, active: true },
        ),
{
}

/// Removing a merchant's rule makes reading it, and removing it again,
/// answer that there is none; a rule can then be set anew.
pub proof fn law_remove_forward(s: PaymentState, merchant: Seq<u8>, forward_to: Seq<u8>, bps: u32)
    requires
        s.remove_forward_outcome(merchant).1 is Ok,
    ensures
        ({
            let t = s.remove_forward_outcome(merchant).0;
            &&& t.forward_result(merchant) == Err::<ForwardRecord, Error>(Error::ForwardConfigNotFound)
            &&& t.remove_forward_outcome(merchant) == (t, Err::<(), Error>(Error::ForwardConfigNotFound))
            &&& t.set_forward_outcome(merchant, forward_to, bps).1 is Ok ==> t.set_forward_outcome(
                merchant,
                forward_to,
                bps,
            ).0.forward_result(merchant) == Ok::<ForwardRecord, Error>(
                ForwardRecord { merchant, forward_to, forward_bps: bps, active: true },
            )
        }),
{
}

/// Completing a payment splits its amount, without loss, into the fee, the
/// forwarded part and the merchant's part, none negative; the payment is
/// then completed and cannot be completed again.
pub proof fn law_completion_conserves(s: PaymentState, caller: Seq<u8>, id: u64)
    requires
        s.wf(),
        s.complete_outcome(caller, id).1 is Ok,
    ensures
        ({
            let (t, r) = s.complete_outcome(caller, id);
            let st = r->Ok_0;
            &&& st.fee >= 0 && st.forward_amount >= 0 && st.merchant_amount >= 0
            &&& st.fee + st.forward_amount + st.merchant_amount == s.payments[id - 1].amount
            &&& t.payments[id - 1].status == PaymentStatus::Completed
            &&& t.complete_outcome(caller, id) == (t, Err::<SettlementView, Error>(Error::PaymentNotPending))
        }),
{
    let p = s.payments[id - 1];
    law_split_conserves(p.amount as int, s.fee_rules(), s.forward_bps_of(p.merchant));
    if s.forwards.contains_key(p.merchant) {
        assert(forward_bps_valid(s.forwards[p.merchant].forward_bps));
    }
}

/// Removing succeeds exactly when the merchant has a forwarding rule,
/// whatever its rate or target; the merchant then has none and every other
/// merchant keeps its own. A refused removal changes nothing.
pub proof fn law_remove_iff_present(s: PaymentState, merchant: Seq<u8>, other: Seq<u8>)
    requires
        other != merchant,
    ensures
        ({
            let (t, r) = s.remove_forward_outcome(merchant);
            &&& r is Ok <==> s.forwards.contains_key(merchant)
            &&& r is Ok ==> !t.forwards.contains_key(merchant) && t.forward_result(other) == s.forward_result(
                other,
            ) && t.payments == s.payments && t.fee == s.fee && t.admin == s.admin
            &&& r is Err ==> t == s && r == Err::<(), Error>(Error::ForwardConfigNotFound)
        }),
{
}

/// Setting a forwarding rule succeeds exactly when the rate is between 1
/// and 10000 basis points and the target is neither the merchant nor an
/// address with a rule of its own, whatever rule the merchant had before;
/// it then holds the new target and rate and nothing else changes.
pub proof fn law_set_forward_iff(
    s: PaymentState,
    merchant: Seq<u8>,
    forward_to: Seq<u8>,
    bps: u32,
    other: Seq<u8>,
)
    requires
        other != merchant,
    ensures
        ({
            let (t, r) = s.set_forward_outcome(merchant, forward_to, bps);
            &&& r is Ok <==> (1 <= bps <= 10000 && forward_to != merchant && !s.forwards.contains_key(
                forward_to,
            ))
            &&& r is Ok ==> {
                &&& t.forwards.contains_key(merchant)
                &&& t.forwards[merchant].forward_to == forward_to
                &&& t.forwards[merchant].forward_bps == bps
                &&& t.forwards[merchant].merchant == merchant
                &&& t.forwards[merchant].active
                &&& t.forward_result(other) == s.forward_result(other)
                &&& t.payments == s.payments && t.fee == s.fee && t.admin == s.admin
            }
            &&& r is Err ==> t == s
            &&& !(1 <= bps <= 10000) ==> r == Err::<(), Error>(Error::InvalidForwardBps)
            &&& (1 <= bps <= 10000 && (forward_to == merchant || s.forwards.contains_key(forward_to)))
                ==> r == Err::<(), Error>(Error::ForwardLoop)
        }),
{
}

/// Reading a merchant's rule answers it exactly when there is one.
pub proof fn law_forward_result(s: PaymentState, merchant: Seq<u8>)
    ensures
        s.forward_result(merchant) is Ok <==> s.forwards.contains_key(merchant),
        s.forwards.contains_key(merchant) ==> s.forward_result(merchant) == Ok::<ForwardRecord, Error>(
            s.forwards[merchant],
        ),
        !s.forwards.contains_key(merchant) ==> s.forward_result(merchant) == Err::<ForwardRecord, Error>(
            Error::ForwardConfigNotFound,
        ),
{
}

/// Setting fee rules succeeds exactly for the administrator and acceptable
/// rules, which then are the rules in force; nothing else changes.
pub proof fn law_set_fee(s: PaymentState, caller: Seq<u8>, f: FeeView)
    ensures
        ({
            let (t, r) = s.set_fee_outcome(caller, f);
            &&& r is Ok <==> (s.is_admin(caller) && f.fee_bps <= 10000 && 0 <= f.min_fee <= f.max_fee)
            &&& r is Ok ==> t.fee == Some(f) && t.payments == s.payments && t.forwards == s.forwards
                && t.admin == s.admin
            &&& r is Err ==> t == s
        }),
{
}

/// Completing a payment succeeds exactly when the administrator asks for an
/// existing pending payment. It then marks that payment completed, leaves
/// everything else, and answers: the fee of its amount under the rules in
/// force, paid to the treasury of active rules; `forward_bps` basis points
/// (rounded down) of the rest to the merchant's forwarding target, when the
/// merchant forwards; and the remainder to the merchant.
pub proof fn law_completion_settles(s: PaymentState, caller: Seq<u8>, id: u64)
    requires
        s.wf(),
    ensures
        ({
            let (t, r) = s.complete_outcome(caller, id);
            let p = s.payments[id - 1];
            let fee = crate::fees::fee_of(p.amount as int, s.fee_rules());
            &&& r is Ok <==> (s.is_admin(caller) && s.has_payment(id) && p.status
                == PaymentStatus::Pending)
            &&& r is Ok ==> {
                let st = r->Ok_0;
                &&& st.fee == fee
                &&& s.forwards.contains_key(p.merchant) ==> {
                    &&& st.forward_to == Some(s.forwards[p.merchant].forward_to)
                    &&& st.forward_amount == (p.amount - fee) * (s.forwards[p.merchant].forward_bps
                        as int) / 10000
                }
                &&& !s.forwards.contains_key(p.merchant) ==> st.forward_to is None && st.forward_amount
                    == 0
                &&& st.merchant_amount == p.amount - st.fee - st.forward_amount
                &&& st.treasury == match s.fee {
                    Some(f) => if f.active {
                        Some(f.treasury)
                    } else {
                        None
                    },
                    None => None,
                }
                &&& t.payments.len() == s.payments.len()
                &&& t.payments[id - 1].status == PaymentStatus::Completed
                &&& t.payments[id - 1].amount == p.amount
                &&& t.payments[id - 1].merchant == p.merchant
                &&& forall|j: int| 0 <= j < s.payments.len() && j != id - 1 ==> #[trigger] t.payments[j]
                    == s.payments[j]
                &&& t.fee == s.fee && t.forwards == s.forwards && t.admin == s.admin
            }
            &&& r is Err ==> t == s
        }),
{
    if s.has_payment(id) {
        let p = s.payments[id - 1];
        law_split_conserves(p.amount as int, s.fee_rules(), s.forward_bps_of(p.merchant));
        if s.forwards.contains_key(p.merchant) {
            assert(forward_bps_valid(s.forwards[p.merchant].forward_bps));
        }
    }
}

/// Creating a payment succeeds exactly for a positive amount and answers
/// the next id; the new payment is appended and nothing else changes.
pub proof fn law_create_payment(s: PaymentState, amount: i128, rec: PaymentRecord)
    ensures
        s.create_result(amount) is Ok <==> amount > 0,
        amount > 0 ==> s.create_result(amount) == Ok::<u64, Error>((s.payments.len() + 1) as u64),
        amount <= 0 ==> s.create_result(amount) == Err::<u64, Error>(Error::InvalidAmount),
        s.with_payment(rec).payments.len() == s.payments.len() + 1,
        s.with_payment(rec).payments.last() == rec,
        s.with_payment(rec).fee == s.fee,
        s.with_payment(rec).forwards == s.forwards,
        s.with_payment(rec).admin == s.admin,
{
}

} // verus!
