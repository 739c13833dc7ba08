use payment_contracts::address::Address;
use payment_contracts::escrow::{Escrow, EscrowContract, MigrationStatus};
use payment_contracts::payment::{
    Currency, FeeConfig, Payment, PaymentContract, PaymentForwardConfig, PaymentStatus,
};

fn address(tag: u8) -> Address {
    Address::new(vec![tag; 32])
}

fn escrow(id: u64) -> Escrow {
    Escrow {
        id,
        customer: address(2),
        merchant: address(3),
        amount: 10,
        token: address(4),
        timeout: 1000,
        hold_period: 0,
        dispute_period: 0,
        auto_release: false,
        created_at: 0,
    }
}

fn status(in_progress: bool, total: u64, migrated: u64) -> MigrationStatus {
    MigrationStatus {
        in_progress,
        total_count: total,
        migrated_count: migrated,
        started_at: 0,
        completed_at: None,
    }
}

#[test]
fn escrow_state_round_trips() {
    let admin = address(1);
    let mut c = EscrowContract::initialize(admin.clone());
    c.create_escrow(address(2), address(3), 10, address(4), 1000, 0, 0, false, 0).unwrap();
    c.create_escrow(address(2), address(3), 20, address(4), 1000, 0, 0, false, 0).unwrap();
    c.begin_migration(&admin, 7).unwrap();
    c.migrate_escrow(&admin, 2).unwrap();
    let (a, escrows, flags, st) = c.into_parts();
    assert_eq!(a, admin);
    assert_eq!(escrows.len(), 2);
    assert_eq!(flags, vec![false, true]);
    assert_eq!(st, MigrationStatus { in_progress: true, total_count: 2, migrated_count: 1, started_at: 7, completed_at: None });
    let mut c = EscrowContract::restore(a, escrows, flags, st).unwrap();
    c.migrate_escrow(&admin, 1).unwrap();
    c.complete_migration(&admin, 8).unwrap();
    assert_eq!(c.get_migration_status().completed_at, Some(8));
}

#[test]
fn inconsistent_escrow_state_is_refused() {
    // ids out of sequence
    assert!(EscrowContract::restore(address(1), vec![escrow(2)], vec![false], status(false, 0, 0)).is_none());
    // flags and escrows of different lengths
    assert!(EscrowContract::restore(address(1), vec![escrow(1)], vec![], status(false, 0, 0)).is_none());
    // count disagreeing with the flags
    assert!(EscrowContract::restore(address(1), vec![escrow(1)], vec![true], status(false, 1, 0)).is_none());
    // more migrated than counted at the start
    assert!(EscrowContract::restore(address(1), vec![escrow(1)], vec![true], status(false, 0, 1)).is_none());
    // a migration in progress must count every escrow
    assert!(EscrowContract::restore(address(1), vec![escrow(1), escrow(2)], vec![false, false], status(true, 1, 0)).is_none());
    // consistent
    assert!(EscrowContract::restore(address(1), vec![escrow(1), escrow(2)], vec![true, false], status(false, 1, 1)).is_some());
}

fn payment(id: u64, amount: i128) -> Payment {
    Payment {
        id,
        customer: address(2),
        merchant: address(3),
        amount,
        token: address(4),
        currency: Currency::USDC,
        status: PaymentStatus::Pending,
        created_at: 0,
        expires_at: 3600,
        metadata: String::from("m"),
    }
}

fn rule(merchant: u8, target: u8, bps: u32, active: bool) -> PaymentForwardConfig {
    PaymentForwardConfig { merchant: address(merchant), forward_to: address(target), forward_bps: bps, active }
}

fn fee(bps: u32, min_fee: i128, max_fee: i128) -> FeeConfig {
    FeeConfig { fee_bps: bps, min_fee, max_fee, treasury: address(8), fee_token: address(4), active: true }
}

#[test]
fn payment_state_round_trips() {
    let admin = address(1);
    let mut c = PaymentContract::initialize(admin.clone());
    c.set_fee_config(&admin, fee(100, 0, 100)).unwrap();
    c.create_payment(address(2), address(3), 1000, address(4), Currency::USDC, 60, String::from("x"), 5).unwrap();
    c.set_payment_forward(&address(3), address(6), 5000).unwrap();
    let (a, f, payments, forwards) = c.into_parts();
    assert_eq!(a, admin);
    assert_eq!(f.as_ref().map(|f| f.fee_bps), Some(100));
    assert_eq!(payments.len(), 1);
    assert_eq!(forwards, vec![rule(3, 6, 5000, true)]);
    let mut c = PaymentContract::restore(a, f, payments, forwards).unwrap();
    let s = c.complete_payment(&admin, 1).unwrap();
    assert_eq!((s.fee, s.forward_amount, s.merchant_amount), (10, 495, 495));
}

#[test]
fn inconsistent_payment_state_is_refused() {
    let a = address(1);
    assert!(PaymentContract::restore(a.clone(), Some(fee(10001, 0, 1)), vec![], vec![]).is_none());
    assert!(PaymentContract::restore(a.clone(), Some(fee(1, 5, 1)), vec![], vec![]).is_none());
    assert!(PaymentContract::restore(a.clone(), None, vec![payment(2, 5)], vec![]).is_none());
    assert!(PaymentContract::restore(a.clone(), None, vec![payment(1, 0)], vec![]).is_none());
    assert!(PaymentContract::restore(a.clone(), None, vec![], vec![rule(3, 4, 0, true)]).is_none());
    assert!(PaymentContract::restore(a.clone(), None, vec![], vec![rule(3, 4, 10, false)]).is_none());
    assert!(PaymentContract::restore(a.clone(), None, vec![], vec![rule(3, 4, 10, true), rule(3, 5, 10, true)]).is_none());
    let c = PaymentContract::restore(
        a,
        Some(fee(1, 0, 5)),
        vec![payment(1, 5), payment(2, 6)],
        vec![rule(3, 4, 10, true), rule(5, 4, 20, true)],
    )
    .unwrap();
    assert_eq!(c.payment_count(), 2);
    assert_eq!(c.get_forward_config(&address(5)).unwrap().forward_bps, 20);
}
