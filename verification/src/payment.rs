//! The payment contract: payments from customers to merchants, completed by
//! the administrator, with a platform fee and optional per-merchant
//! forwarding of part of what the merchant receives.
//!
//! A merchant's forwarding rule sends `forward_bps` basis points (1 to
//! 10000) of its share of each completed payment on to another address. A
//! rule may not point at the merchant itself, nor at an address that
//! forwards in turn.

use vstd::prelude::*;
use crate::address::Address;
use crate::fees::{FeeRules, Split, fee_rules_valid, split_of, split_payment, law_split_conserves};
use crate::forward_map::{
    ForwardRecord,
    distinct_merchants,
    has_entry,
    forward_map,
    lemma_entry,
    lemma_no_entry,
    lemma_push,
    lemma_replace,
    lemma_delete,
};

verus! {

/// Errors of the payment contract.
#[derive(Debug, Clone, Copy, PartialEq, Eq)]
pub enum Error {
    /// The caller is not the contract's administrator.
    NotAnAdmin,
    /// A payment amount must be positive.
    InvalidAmount,
    /// Fee rate above 100%, or fee bounds negative or out of order.
    InvalidFeeConfig,
    /// No payment has the given id.
    PaymentNotFound,
    /// The payment is not pending.
    PaymentNotPending,
    /// A forwarding rate must be between 1 and 10000 basis points.
    InvalidForwardBps,
    /// The forwarding target is the merchant itself or forwards in turn.
    ForwardLoop,
    /// The merchant has no forwarding rule.
    ForwardConfigNotFound,
}

/// Currency a payment is denominated in.
#[derive(Debug, Clone, Copy, PartialEq, Eq)]
pub enum Currency {
    XLM,
    USDC,
    EURC,
}

/// Lifecycle of a payment.
#[derive(Debug, Clone, Copy, PartialEq, Eq)]
pub enum PaymentStatus {
    Pending,
    Completed,
}

/// The platform fee: `fee_bps` basis points of each payment, raised to
/// `min_fee` and lowered to `max_fee`, paid to `treasury`; charged only
/// while `active`.
#[derive(Debug, PartialEq, Eq)]
pub struct FeeConfig {
    pub fee_bps: u32,
    pub min_fee: i128,
    pub max_fee: i128,
    pub treasury: Address,
    pub fee_token: Address,
    pub active: bool,
}

pub struct FeeView {
    pub fee_bps: u32,
    pub min_fee: i128,
    pub max_fee: i128,
    pub treasury: Seq<u8>,
    pub fee_token: Seq<u8>,
    pub active: bool,
}

impl FeeView {
    pub open spec fn rules(self) -> FeeRules {
        FeeRules { fee_bps: self.fee_bps, min_fee: self.min_fee, max_fee: self.max_fee, active: self.active }
    }
}

impl View for FeeConfig {
    type V = FeeView;

    open spec fn view(&self) -> FeeView {
        FeeView {
            fee_bps: self.fee_bps,
            min_fee: self.min_fee,
            max_fee: self.max_fee,
            treasury: self.treasury@,
            fee_token: self.fee_token@,
            active: self.active,
        }
    }
}

impl Clone for FeeConfig {
    fn clone(&self) -> (r: FeeConfig)
        ensures
            r@ == self@,
    {
        FeeConfig {
            fee_bps: self.fee_bps,
            min_fee: self.min_fee,
            max_fee: self.max_fee,
            treasury: self.treasury.duplicate(),
            fee_token: self.fee_token.duplicate(),
            active: self.active,
        }
    }
}

/// A payment of `amount` in `token` from `customer` to `merchant`.
#[derive(Debug)]
pub struct Payment {
    pub id: u64,
    pub customer: Address,
    pub merchant: Address,
    pub amount: i128,
    pub token: Address,
    pub currency: Currency,
    pub status: PaymentStatus,
    /// Ledger time at which the payment was created.
    pub created_at: u64,
    /// Ledger time after which the payment expires.
    pub expires_at: u64,
    pub metadata: String,
}

pub struct PaymentRecord {
    pub id: u64,
    pub customer: Seq<u8>,
    pub merchant: Seq<u8>,
    pub amount: i128,
    pub token: Seq<u8>,
    pub currency: Currency,
    pub status: PaymentStatus,
    pub created_at: u64,
    pub expires_at: u64,
    pub metadata: Seq<char>,
}

impl View for Payment {
    type V = PaymentRecord;

    open spec fn view(&self) -> PaymentRecord {
        PaymentRecord {
            id: self.id,
            customer: self.customer@,
            merchant: self.merchant@,
            amount: self.amount,
            token: self.token@,
            currency: self.currency,
            status: self.status,
            created_at: self.created_at,
            expires_at: self.expires_at,
            metadata: self.metadata@,
        }
    }
}

/// A merchant's forwarding rule.
#[derive(Debug, PartialEq, Eq)]
pub struct PaymentForwardConfig {
    pub merchant: Address,
    pub forward_to: Address,
    pub forward_bps: u32,
    pub active: bool,
}

impl View for PaymentForwardConfig {
    type V = ForwardRecord;

    open spec fn view(&self) -> ForwardRecord {
        ForwardRecord {
            merchant: self.merchant@,
            forward_to: self.forward_to@,
            forward_bps: self.forward_bps,
            active: self.active,
        }
    }
}

impl Clone for PaymentForwardConfig {
    fn clone(&self) -> (r: PaymentForwardConfig)
        ensures
            r@ == self@,
    {
        PaymentForwardConfig {
            merchant: self.merchant.duplicate(),
            forward_to: self.forward_to.duplicate(),
            forward_bps: self.forward_bps,
            active: self.active,
        }
    }
}

/// The transfers that complete a payment: `fee` to `treasury` (present when
/// a fee is charged), `forward_amount` to `forward_to` (present when the
/// merchant forwards), and `merchant_amount` to the merchant.
#[derive(Debug)]
pub struct Settlement {
    pub fee: i128,
    pub treasury: Option<Address>,
    pub forward_to: Option<Address>,
    pub forward_amount: i128,
    pub merchant_amount: i128,
}

pub struct SettlementView {
    pub fee: i128,
    pub treasury: Option<Seq<u8>>,
    pub forward_to: Option<Seq<u8>>,
    pub forward_amount: i128,
    pub merchant_amount: i128,
}

pub open spec fn address_option_view(a: Option<Address>) -> Option<Seq<u8>> {
    match a {
        Some(x) => Some(x@),
        None => None,
    }
}

impl View for Settlement {
    type V = SettlementView;

    open spec fn view(&self) -> SettlementView {
        SettlementView {
            fee: self.fee,
            treasury: address_option_view(self.treasury),
            forward_to: address_option_view(self.forward_to),
            forward_amount: self.forward_amount,
            merchant_amount: self.merchant_amount,
        }
    }
}

/// The state of the payment contract: `payments[i]` has id `i + 1`, and
/// `forwards` maps each forwarding merchant to its rule.
pub struct PaymentState {
    pub admin: Seq<u8>,
    pub fee: Option<FeeView>,
    pub payments: Seq<PaymentRecord>,
    pub forwards: Map<Seq<u8>, ForwardRecord>,
}

/// Whether `bps` is an acceptable forwarding rate.
pub open spec fn forward_bps_valid(bps: u32) -> bool {
    1 <= bps <= 10000
}

impl PaymentState {
    /// The invariant that every operation keeps.
    pub open spec fn wf(self) -> bool {
        &&& match self.fee {
            Some(f) => fee_rules_valid(f.rules()),
            None => true,
        }
        &&& self.payments.len() <= u64::MAX
        &&& forall|i: int| 0 <= i < self.payments.len() ==> #[trigger] self.payments[i].id == i + 1
        &&& forall|i: int| 0 <= i < self.payments.len() ==> #[trigger] self.payments[i].amount > 0
        &&& forall|k: Seq<u8>|
            #[trigger] self.forwards.contains_key(k) ==> self.forwards[k].merchant == k
                && forward_bps_valid(self.forwards[k].forward_bps) && self.forwards[k].active
    }

    pub open spec fn is_admin(self, caller: Seq<u8>) -> bool {
        caller == self.admin
    }

    pub open spec fn has_payment(self, id: u64) -> bool {
        1 <= id <= self.payments.len()
    }

    pub open spec fn fee_rules(self) -> Option<FeeRules> {
        match self.fee {
            Some(f) => Some(f.rules()),
            None => None,
        }
    }

    /// The outcome of setting the fee rules.
    pub open spec fn set_fee_outcome(self, caller: Seq<u8>, f: FeeView) -> (PaymentState, Result<(), Error>) {
        if !self.is_admin(caller) {
            (self, Err(Error::NotAnAdmin))
        } else if !fee_rules_valid(f.rules()) {
            (self, Err(Error::InvalidFeeConfig))
        } else {
            (PaymentState { fee: Some(f), ..self }, Ok(()))
        }
    }

    /// What creating a payment of `amount` answers.
    pub open spec fn create_result(self, amount: i128) -> Result<u64, Error> {
        if amount <= 0 {
            Err(Error::InvalidAmount)
        } else {
            Ok((self.payments.len() + 1) as u64)
        }
    }

    pub open spec fn with_payment(self, p: PaymentRecord) -> PaymentState {
        PaymentState { payments: self.payments.push(p), ..self }
    }

    /// The forwarding rate of `merchant`, if it forwards.
    pub open spec fn forward_bps_of(self, merchant: Seq<u8>) -> Option<u32> {
        if self.forwards.contains_key(merchant) {
            Some(self.forwards[merchant].forward_bps)
        } else {
            None
        }
    }

    /// The transfers that complete payment `id`.
    pub open spec fn settlement_of(self, id: u64) -> SettlementView {
        let p = self.payments[id - 1];
        let (fee, fwd, kept) = split_of(p.amount as int, self.fee_rules(), self.forward_bps_of(p.merchant));
        SettlementView {
            fee: fee as i128,
            treasury: match self.fee {
                Some(f) => if f.active {
                    Some(f.treasury)
                } else {
                    None
                },
                None => None,
            },
            forward_to: if self.forwards.contains_key(p.merchant) {
                Some(self.forwards[p.merchant].forward_to)
            } else {
                None
            },
            forward_amount: fwd as i128,
            merchant_amount: kept as i128,
        }
    }

    /// The outcome of completing payment `id`.
    pub open spec fn complete_outcome(self, caller: Seq<u8>, id: u64) -> (PaymentState, Result<SettlementView, Error>) {
        if !self.is_admin(caller) {
            (self, Err(Error::NotAnAdmin))
        } else if !self.has_payment(id) {
            (self, Err(Error::PaymentNotFound))
        } else if self.payments[id - 1].status != PaymentStatus::Pending {
            (self, Err(Error::PaymentNotPending))
        } else {
            (
                PaymentState {
                    payments: self.payments.update(
                        id - 1,
                        PaymentRecord { status: PaymentStatus::Completed, ..self.payments[id - 1] },
                    ),
                    ..self
                },
                Ok(self.settlement_of(id)),
            )
        }
    }

    /// The outcome of giving `merchant` the forwarding rule `forward_to`,
    /// `bps`; an existing rule of the merchant is replaced.
    pub open spec fn set_forward_outcome(self, merchant: Seq<u8>, forward_to: Seq<u8>, bps: u32) -> (PaymentState, Result<(), Error>) {
        if !forward_bps_valid(bps) {
            (self, Err(Error::InvalidForwardBps))
        } else if forward_to == merchant || self.forwards.contains_key(forward_to) {
            (self, Err(Error::ForwardLoop))
        } else {
            (
                PaymentState {
                    forwards: self.forwards.insert(
                        merchant,
                        ForwardRecord { merchant, forward_to, forward_bps: bps, active: true },
                    ),
                    ..self
                },
                Ok(()),
            )
        }
    }

    /// The outcome of removing the forwarding rule of `merchant`.
    pub open spec fn remove_forward_outcome(self, merchant: Seq<u8>) -> (PaymentState, Result<(), Error>) {
        if !self.forwards.contains_key(merchant) {
            (self, Err(Error::ForwardConfigNotFound))
        } else {
            (PaymentState { forwards: self.forwards.remove(merchant), ..self }, Ok(()))
        }
    }

    /// What asking for the forwarding rule of `merchant` answers.
    pub open spec fn forward_result(self, merchant: Seq<u8>) -> Result<ForwardRecord, Error> {
        if self.forwards.contains_key(merchant) {
            Ok(self.forwards[merchant])
        } else {
            Err(Error::ForwardConfigNotFound)
        }
    }
}

/// The rules held in a list of forwarding configurations.
pub open spec fn forward_records(v: Vec<PaymentForwardConfig>) -> Seq<ForwardRecord> {
    v@.map_values(|c: PaymentForwardConfig| c@)
}

/// The records of a list of payments.
pub open spec fn payment_records(v: Vec<Payment>) -> Seq<PaymentRecord> {
    v@.map_values(|p: Payment| p@)
}

/// The state made of stored parts.
pub open spec fn parts_state(
    admin: Address,
    fee: Option<FeeConfig>,
    payments: Vec<Payment>,
    forwards: Vec<PaymentForwardConfig>,
) -> PaymentState {
    PaymentState {
        admin: admin@,
        fee: match fee {
            Some(f) => Some(f@),
            None => None,
        },
        payments: payment_records(payments),
        forwards: forward_map(forward_records(forwards)),
    }
}

/// Giving a merchant a valid rule keeps the state well formed.
proof fn lemma_wf_insert_forward(st: PaymentState, m: Seq<u8>, rec: ForwardRecord)
    requires
        st.wf(),
        rec.merchant == m,
        forward_bps_valid(rec.forward_bps),
        rec.active,
    ensures
        (PaymentState { forwards: st.forwards.insert(m, rec), ..st }).wf(),
{
    let t = PaymentState { forwards: st.forwards.insert(m, rec), ..st };
    assert forall|k: Seq<u8>| #[trigger] t.forwards.contains_key(k) implies t.forwards[k].merchant == k
        && forward_bps_valid(t.forwards[k].forward_bps) && t.forwards[k].active by {
        if k != m {
            assert(st.forwards.contains_key(k));
        }
    }
}

/// Removing a merchant's rule keeps the state well formed.
proof fn lemma_wf_remove_forward(st: PaymentState, m: Seq<u8>)
    requires
        st.wf(),
    ensures
        (PaymentState { forwards: st.forwards.remove(m), ..st }).wf(),
{
    let t = PaymentState { forwards: st.forwards.remove(m), ..st };
    assert forall|k: Seq<u8>| #[trigger] t.forwards.contains_key(k) implies t.forwards[k].merchant == k
        && forward_bps_valid(t.forwards[k].forward_bps) && t.forwards[k].active by {
        assert(st.forwards.contains_key(k));
    }
}

/// Whether payment `i` of a list has id `i + 1` and a positive amount,
/// for every `i`.
fn payments_consistent(payments: &Vec<Payment>) -> (r: bool)
    ensures
        r == ((forall|j: int|
            0 <= j < payments@.len() ==> #[trigger] payment_records(*payments)[j].id == j + 1) && (
        forall|j: int| 0 <= j < payments@.len() ==> #[trigger] payment_records(*payments)[j].amount > 0)),
{
    let ghost ps = payment_records(*payments);
    let n = payments.len();
    let mut i: usize = 0;
    while i < n
        invariant
            n == payments@.len(),
            i <= n,
            ps == payment_records(*payments),
            forall|j: int| 0 <= j < i ==> #[trigger] ps[j].id == j + 1,
            forall|j: int| 0 <= j < i ==> #[trigger] ps[j].amount > 0,
        decreases n - i,
    {
        if payments[i].id != i as u64 + 1 || payments[i].amount <= 0 {
            assert(!(ps[i as int].id == i + 1 && ps[i as int].amount > 0));
            return false;
        }
        i = i + 1;
    }
    true
}

/// Whether a list of forwarding rules has valid, active rates and no
/// merchant twice.
fn forwards_consistent(forwards: &Vec<PaymentForwardConfig>) -> (r: bool)
    ensures
        r == (distinct_merchants(forward_records(*forwards)) && (forall|x: int|
            0 <= x < forwards@.len() ==> forward_bps_valid(
                #[trigger] forward_records(*forwards)[x].forward_bps,
            )) && (forall|x: int|
            0 <= x < forwards@.len() ==> #[trigger] forward_records(*forwards)[x].active)),
{
    let ghost fs = forward_records(*forwards);
    let n = forwards.len();
    let mut a: usize = 0;
    while a < n
        invariant
            n == forwards@.len(),
            a <= n,
            fs == forward_records(*forwards),
            forall|x: int| 0 <= x < a ==> forward_bps_valid(#[trigger] fs[x].forward_bps),
            forall|x: int| 0 <= x < a ==> #[trigger] fs[x].active,
            forall|x: int, y: int|
                0 <= x < a && 0 <= y < a && x != y ==> #[trigger] fs[x].merchant != #[trigger] fs[y].merchant,
        decreases n - a,
    {
        if forwards[a].forward_bps < 1 || forwards[a].forward_bps > 10000 || !forwards[a].active {
            assert(!(forward_bps_valid(fs[a as int].forward_bps) && fs[a as int].active));
            return false;
        }
        let mut b: usize = 0;
        while b < a
            invariant
                n == forwards@.len(),
                b <= a < n,
                fs == forward_records(*forwards),
                forall|y: int| 0 <= y < b ==> #[trigger] fs[y].merchant != fs[a as int].merchant,
            decreases a - b,
        {
            if forwards[b].merchant.same_as(&forwards[a].merchant) {
                assert(fs[b as int].merchant == fs[a as int].merchant);
                return false;
            }
            b = b + 1;
        }
        a = a + 1;
    }
    true
}

/// The payment contract.
pub struct PaymentContract {
    admin: Address,
    fee: Option<FeeConfig>,
    payments: Vec<Payment>,
    forwards: Vec<PaymentForwardConfig>,
}

impl View for PaymentContract {
    type V = PaymentState;

    closed spec fn view(&self) -> PaymentState {
        parts_state(self.admin, self.fee, self.payments, self.forwards)
    }
}

impl PaymentContract {
    closed spec fn forward_seq(&self) -> Seq<ForwardRecord> {
        forward_records(self.forwards)
    }

    /// The contract's own invariant: its state is well formed and no
    /// merchant has two forwarding rules.
    pub closed spec fn inv(&self) -> bool {
        &&& self@.wf()
        &&& distinct_merchants(self.forward_seq())
    }

    /// A fresh contract administered by `admin`, with no fee, no payment and
    /// no forwarding rule.
    pub fn initialize(admin: Address) -> (c: PaymentContract)
        ensures
            c.inv(),
            c@.admin == admin@,
            c@.fee is None,
            c@.payments.len() == 0,
            c@.forwards.is_empty(),
    {
        let c = PaymentContract { admin, fee: None, payments: Vec::new(), forwards: Vec::new() };
        proof {
            assert(c@.payments =~= Seq::<PaymentRecord>::empty());
            assert(c.forward_seq() =~= Seq::<ForwardRecord>::empty());
            assert(c@.forwards =~= Map::<Seq<u8>, ForwardRecord>::empty());
        }
        c
    }

    /// Rebuilds a contract from its stored parts; `None` when the parts do
    /// not form a consistent state (in particular, when a merchant has two
    /// forwarding rules).
    pub fn restore(
        admin: Address,
        fee: Option<FeeConfig>,
        payments: Vec<Payment>,
        forwards: Vec<PaymentForwardConfig>,
    ) -> (r: Option<PaymentContract>)
        ensures
            r is Some <==> parts_state(admin, fee, payments, forwards).wf() && distinct_merchants(
                forward_records(forwards),
            ),
            r matches Some(c) ==> c.inv() && c@ == parts_state(admin, fee, payments, forwards),
    {
        let ghost st = parts_state(admin, fee, payments, forwards);
        let ghost fs = forward_records(forwards);
        let fee_ok = match &fee {
            Some(f) => f.fee_bps <= 10000 && 0 <= f.min_fee && f.min_fee <= f.max_fee,
            None => true,
        };
        let payments_ok = payments_consistent(&payments);
        let forwards_ok = forwards_consistent(&forwards);
        // Reading the length bounds it by the machine word.
        let _payment_count = payments.len();
        proof {
            if st.wf() && distinct_merchants(fs) {
                assert forall|x: int| #![trigger fs[x]] 0 <= x < fs.len() implies fs[x].active
                    && forward_bps_valid(fs[x].forward_bps) by {
                    lemma_entry(fs, x);
                    assert(st.forwards.contains_key(fs[x].merchant));
                }
                assert forall|j: int| 0 <= j < payments@.len() implies #[trigger] payment_records(
                    payments,
                )[j].id == j + 1 by {
                    assert(st.payments[j].id == j + 1);
                }
                assert forall|j: int| 0 <= j < payments@.len() implies #[trigger] payment_records(
                    payments,
                )[j].amount > 0 by {
                    assert(st.payments[j].amount > 0);
                }
                assert(forall|x: int|
                    0 <= x < forwards@.len() ==> forward_bps_valid(#[trigger] fs[x].forward_bps));
                assert(forall|x: int| 0 <= x < forwards@.len() ==> #[trigger] fs[x].active);
            }
        }
        if !(fee_ok && payments_ok && forwards_ok) {
            return None;
        }
        let c = PaymentContract { admin, fee, payments, forwards };
        proof {
            assert(c.forward_seq() == fs);
            assert forall|k: Seq<u8>| #[trigger] st.forwards.contains_key(k) implies st.forwards[k].merchant
                == k && forward_bps_valid(st.forwards[k].forward_bps) && st.forwards[k].active by {
                let x = choose|x: int| 0 <= x < fs.len() && #[trigger] fs[x].merchant == k;
                lemma_entry(fs, x);
            }
        }
        Some(c)
    }

    /// The stored parts of the contract: administrator, fee rules, payments
    /// and forwarding rules.
    pub fn into_parts(self) -> (r: (Address, Option<FeeConfig>, Vec<Payment>, Vec<PaymentForwardConfig>))
        requires
            self.inv(),
        ensures
            parts_state(r.0, r.1, r.2, r.3) == self@,
            parts_state(r.0, r.1, r.2, r.3).wf(),
            distinct_merchants(forward_records(r.3)),
    {
        (self.admin, self.fee, self.payments, self.forwards)
    }

    /// The contract's state is well formed.
    pub proof fn lemma_inv_wf(&self)
        requires
            self.inv(),
        ensures
            self@.wf(),
    {
    }

    fn is_admin(&self, caller: &Address) -> (r: bool)
        ensures
            r == self@.is_admin(caller@),
    {
        self.admin.same_as(caller)
    }

    /// Sets the fee rules.
    pub fn set_fee_config(&mut self, caller: &Address, config: FeeConfig) -> (r: Result<(), Error>)
        requires
            old(self).inv(),
        ensures
            final(self).inv(),
            (final(self)@, r) == old(self)@.set_fee_outcome(caller@, config@),
    {
        if !self.is_admin(caller) {
            return Err(Error::NotAnAdmin);
        }
        if !(config.fee_bps <= 10000 && 0 <= config.min_fee && config.min_fee <= config.max_fee) {
            return Err(Error::InvalidFeeConfig);
        }
        self.fee = Some(config);
        proof {
            assert(self.forward_seq() == old(self).forward_seq());
        }
        Ok(())
    }

    /// Creates a payment at ledger time `now`, expiring `expiration` seconds
    /// later, and answers its id.
    pub fn create_payment(
        &mut self,
        customer: Address,
        merchant: Address,
        amount: i128,
        token: Address,
        currency: Currency,
        expiration: u64,
        metadata: String,
        now: u64,
    ) -> (r: Result<u64, Error>)
        requires
            old(self).inv(),
            old(self)@.payments.len() < u64::MAX,
        ensures
            final(self).inv(),
            r == old(self)@.create_result(amount),
            r is Err ==> final(self)@ == old(self)@,
            r is Ok ==> final(self)@ == old(self)@.with_payment(
                PaymentRecord {
                    id: (old(self)@.payments.len() + 1) as u64,
                    customer: customer@,
                    merchant: merchant@,
                    amount,
                    token: token@,
                    currency,
                    status: PaymentStatus::Pending,
                    created_at: now,
                    expires_at: if now + expiration <= u64::MAX {
                        (now + expiration) as u64
                    } else {
                        u64::MAX
                    },
                    metadata: metadata@,
                },
            ),
    {
        if amount <= 0 {
            return Err(Error::InvalidAmount);
        }
        let id = self.payments.len() as u64 + 1;
        let p = Payment {
            id,
            customer,
            merchant,
            amount,
            token,
            currency,
            status: PaymentStatus::Pending,
            created_at: now,
            expires_at: now.saturating_add(expiration),
            metadata,
        };
        let ghost pre = self@;
        self.payments.push(p);
        proof {
            assert(self@.payments =~= pre.payments.push(p@));
            assert(self.forward_seq() == old(self).forward_seq());
        }
        Ok(id)
    }

    /// Index of the forwarding rule of `merchant`, if it has one.
    fn find_forward(&self, merchant: &Address) -> (r: Option<usize>)
        ensures
            r matches Some(i) ==> i < self.forwards@.len() && self.forward_seq()[i as int].merchant
                == merchant@,
            r is None ==> !has_entry(self.forward_seq(), merchant@),
    {
        let n = self.forwards.len();
        let mut i: usize = 0;
        while i < n
            invariant
                n == self.forwards@.len(),
                i <= n,
                forall|j: int| 0 <= j < i ==> self.forward_seq()[j].merchant != merchant@,
            decreases n - i,
        {
            if self.forwards[i].merchant.same_as(merchant) {
                return Some(i);
            }
            i = i + 1;
        }
        None
    }

    /// Gives `merchant` the forwarding rule (`forward_to`, `forward_bps`),
    /// replacing the one it had.
    pub fn set_payment_forward(&mut self, merchant: &Address, forward_to: Address, forward_bps: u32) -> (r: Result<(), Error>)
        requires
            old(self).inv(),
        ensures
            final(self).inv(),
            (final(self)@, r) == old(self)@.set_forward_outcome(merchant@, forward_to@, forward_bps),
    {
        if forward_bps < 1 || forward_bps > 10000 {
            return Err(Error::InvalidForwardBps);
        }
        if forward_to.same_as(merchant) {
            return Err(Error::ForwardLoop);
        }
        let target = self.find_forward(&forward_to);
        if target.is_some() {
            proof {
                let i = target.unwrap() as int;
                lemma_entry(self.forward_seq(), i);
            }
            return Err(Error::ForwardLoop);
        }
        proof {
            lemma_no_entry(self.forward_seq(), forward_to@);
        }
        let config = PaymentForwardConfig {
            merchant: merchant.duplicate(),
            forward_to,
            forward_bps,
            active: true,
        };
        let ghost s = self.forward_seq();
        let ghost c = config@;
        proof {
            lemma_wf_insert_forward(old(self)@, merchant@, c);
        }
        match self.find_forward(merchant) {
            Some(i) => {
                self.forwards.set(i, config);
                proof {
                    assert(self.forward_seq() =~= s.update(i as int, c));
                    lemma_replace(s, i as int, c);
                }
            },
            None => {
                self.forwards.push(config);
                proof {
                    assert(self.forward_seq() =~= s.push(c));
                    lemma_push(s, c);
                }
            },
        }
        Ok(())
    }

    /// Removes the forwarding rule of `merchant`.
    pub fn remove_payment_forward(&mut self, merchant: &Address) -> (r: Result<(), Error>)
        requires
            old(self).inv(),
        ensures
            final(self).inv(),
            (final(self)@, r) == old(self)@.remove_forward_outcome(merchant@),
    {
        match self.find_forward(merchant) {
            Some(i) => {
                let ghost s = self.forward_seq();
                proof {
                    lemma_entry(s, i as int);
                }
                self.forwards.remove(i);
                proof {
                    assert(self.forward_seq() =~= s.remove(i as int));
                    lemma_delete(s, i as int);
                    lemma_wf_remove_forward(old(self)@, merchant@);
                }
                Ok(())
            },
            None => {
                proof {
                    lemma_no_entry(self.forward_seq(), merchant@);
                }
                Err(Error::ForwardConfigNotFound)
            },
        }
    }

    /// The forwarding rule of `merchant`.
    pub fn get_forward_config(&self, merchant: &Address) -> (r: Result<PaymentForwardConfig, Error>)
        requires
            self.inv(),
        ensures
            match r {
                Ok(c) => self@.forward_result(merchant@) == Ok::<ForwardRecord, Error>(c@),
                Err(e) => self@.forward_result(merchant@) == Err::<ForwardRecord, Error>(e),
            },
    {
        match self.find_forward(merchant) {
            Some(i) => {
                proof {
                    lemma_entry(self.forward_seq(), i as int);
                }
                Ok(self.forwards[i].clone())
            },
            None => {
                proof {
                    lemma_no_entry(self.forward_seq(), merchant@);
                }
                Err(Error::ForwardConfigNotFound)
            },
        }
    }

    /// Completes payment `id` and answers the transfers that settle it.
    pub fn complete_payment(&mut self, caller: &Address, id: u64) -> (r: Result<Settlement, Error>)
        requires
            old(self).inv(),
        ensures
            final(self).inv(),
            final(self)@ == old(self)@.complete_outcome(caller@, id).0,
            match r {
                Ok(s) => old(self)@.complete_outcome(caller@, id).1 == Ok::<SettlementView, Error>(s@),
                Err(e) => old(self)@.complete_outcome(caller@, id).1 == Err::<SettlementView, Error>(e),
            },
    {
        if !self.is_admin(caller) {
            return Err(Error::NotAnAdmin);
        }
        if id < 1 || id > self.payments.len() as u64 {
            return Err(Error::PaymentNotFound);
        }
        let idx = (id - 1) as usize;
        match self.payments[idx].status {
            PaymentStatus::Pending => {},
            _ => {
                return Err(Error::PaymentNotPending);
            },
        }
        let amount = self.payments[idx].amount;
        let ghost pre = self@;
        let (forward_bps, forward_to) = match self.find_forward(&self.payments[idx].merchant) {
            Some(i) => {
                proof {
                    lemma_entry(self.forward_seq(), i as int);
                }
                (Some(self.forwards[i].forward_bps), Some(self.forwards[i].forward_to.duplicate()))
            },
            None => {
                proof {
                    lemma_no_entry(self.forward_seq(), self.payments@[idx as int].merchant@);
                }
                (None, None)
            },
        };
        let (rules, treasury) = match &self.fee {
            Some(f) => (
                Some(FeeRules { fee_bps: f.fee_bps, min_fee: f.min_fee, max_fee: f.max_fee, active: f.active }),
                if f.active {
                    Some(f.treasury.duplicate())
                } else {
                    None
                },
            ),
            None => (None, None),
        };
        let split: Split = split_payment(amount, rules, forward_bps);
        proof {
            law_split_conserves(amount as int, rules, forward_bps);
        }
        self.payments[idx].status = PaymentStatus::Completed;
        proof {
            assert(self@.payments =~= pre.payments.update(
                idx as int,
                PaymentRecord { status: PaymentStatus::Completed, ..pre.payments[idx as int] },
            ));
            assert(self.forward_seq() == old(self).forward_seq());
        }
        Ok(
            Settlement {
                fee: split.fee,
                treasury,
                forward_to,
                forward_amount: split.forward_amount,
                merchant_amount: split.merchant_amount,
            },
        )
    }

    /// Payment `id`.
    pub fn get_payment(&self, id: u64) -> (r: &Payment)
        requires
            self.inv(),
            self@.has_payment(id),
        ensures
            r@ == self@.payments[id - 1],
    {
        // Reading the length bounds it by the machine word.
        let _count = self.payments.len();
        let idx = (id - 1) as usize;
        &self.payments[idx]
    }

    /// The number of payments created so far.
    pub fn payment_count(&self) -> (r: u64)
        requires
            self.inv(),
        ensures
            r == self@.payments.len(),
    {
        self.payments.len() as u64
    }
}

} // verus!
