use payment_contracts::address::Address;
use payment_contracts::fees::{share_of, split_payment, FeeRules};
use payment_contracts::payment::{
    Currency, Error, FeeConfig, PaymentContract, PaymentStatus,
};

fn address(tag: u8) -> Address {
    Address::new(vec![tag; 32])
}

fn fee(bps: u32, min_fee: i128, max_fee: i128, active: bool) -> FeeConfig {
    FeeConfig {
        fee_bps: bps,
        min_fee,
        max_fee,
        treasury: address(50),
        fee_token: address(51),
        active,
    }
}

fn pay(c: &mut PaymentContract, merchant: &Address, amount: i128) -> Result<u64, Error> {
    c.create_payment(
        address(2),
        merchant.clone(),
        amount,
        address(5),
        Currency::XLM,
        60,
        String::from("order"),
        1000,
    )
}

#[test]
fn payment_fields_and_ids() {
    let admin = address(1);
    let mut c = PaymentContract::initialize(admin);
    let merchant = address(3);
    assert_eq!(pay(&mut c, &merchant, 10), Ok(1));
    assert_eq!(pay(&mut c, &merchant, 20), Ok(2));
    assert_eq!(c.payment_count(), 2);
    let p = c.get_payment(2);
    assert_eq!(p.id, 2);
    assert_eq!(p.amount, 20);
    assert_eq!(p.merchant, merchant);
    assert_eq!(p.currency, Currency::XLM);
    assert_eq!(p.status, PaymentStatus::Pending);
    assert_eq!(p.created_at, 1000);
    assert_eq!(p.expires_at, 1060);
    assert_eq!(p.metadata, "order");
}

#[test]
fn expiry_saturates() {
    let mut c = PaymentContract::initialize(address(1));
    let id = c
        .create_payment(address(2), address(3), 5, address(5), Currency::EURC, 3600, String::new(), u64::MAX - 10)
        .unwrap();
    assert_eq!(c.get_payment(id).expires_at, u64::MAX);
}

#[test]
fn non_positive_payment_is_refused() {
    let mut c = PaymentContract::initialize(address(1));
    assert_eq!(pay(&mut c, &address(3), 0), Err(Error::InvalidAmount));
    assert_eq!(pay(&mut c, &address(3), -1), Err(Error::InvalidAmount));
    assert_eq!(c.payment_count(), 0);
}

#[test]
fn fee_config_is_checked() {
    let admin = address(1);
    let mut c = PaymentContract::initialize(admin.clone());
    assert_eq!(c.set_fee_config(&address(9), fee(100, 0, 10, true)), Err(Error::NotAnAdmin));
    assert_eq!(c.set_fee_config(&admin, fee(10001, 0, 10, true)), Err(Error::InvalidFeeConfig));
    assert_eq!(c.set_fee_config(&admin, fee(100, -1, 10, true)), Err(Error::InvalidFeeConfig));
    assert_eq!(c.set_fee_config(&admin, fee(100, 11, 10, true)), Err(Error::InvalidFeeConfig));
    assert_eq!(c.set_fee_config(&admin, fee(10000, 10, 10, true)), Ok(()));
}

#[test]
fn completion_errors() {
    let admin = address(1);
    let mut c = PaymentContract::initialize(admin.clone());
    let id = pay(&mut c, &address(3), 100).unwrap();
    assert_eq!(c.complete_payment(&address(9), id).unwrap_err(), Error::NotAnAdmin);
    assert_eq!(c.complete_payment(&admin, 0).unwrap_err(), Error::PaymentNotFound);
    assert_eq!(c.complete_payment(&admin, 2).unwrap_err(), Error::PaymentNotFound);
    let s = c.complete_payment(&admin, id).unwrap();
    // No fee rules and no forwarding: the merchant gets everything.
    assert_eq!(s.fee, 0);
    assert_eq!(s.treasury, None);
    assert_eq!(s.forward_to, None);
    assert_eq!(s.forward_amount, 0);
    assert_eq!(s.merchant_amount, 100);
    assert_eq!(c.complete_payment(&admin, id).unwrap_err(), Error::PaymentNotPending);
    assert_eq!(c.get_payment(id).status, PaymentStatus::Completed);
}

#[test]
fn fee_bounds_apply() {
    let admin = address(1);
    let merchant = address(3);
    // raised to the minimum
    let mut c = PaymentContract::initialize(admin.clone());
    c.set_fee_config(&admin, fee(100, 5, 1000, true)).unwrap();
    let id = pay(&mut c, &merchant, 100).unwrap();
    let s = c.complete_payment(&admin, id).unwrap();
    assert_eq!((s.fee, s.merchant_amount), (5, 95));
    assert_eq!(s.treasury, Some(address(50)));
    // lowered to the maximum
    let id = pay(&mut c, &merchant, 1_000_000).unwrap();
    let s = c.complete_payment(&admin, id).unwrap();
    assert_eq!((s.fee, s.merchant_amount), (1000, 999_000));
    // never more than the payment
    c.set_fee_config(&admin, fee(100, 50, 60, true)).unwrap();
    let id = pay(&mut c, &merchant, 7).unwrap();
    let s = c.complete_payment(&admin, id).unwrap();
    assert_eq!((s.fee, s.merchant_amount), (7, 0));
    // inactive rules charge nothing
    c.set_fee_config(&admin, fee(100, 50, 60, false)).unwrap();
    let id = pay(&mut c, &merchant, 7).unwrap();
    let s = c.complete_payment(&admin, id).unwrap();
    assert_eq!((s.fee, s.merchant_amount), (0, 7));
    assert_eq!(s.treasury, None);
}

#[test]
fn forwarding_rounds_down_and_conserves() {
    let admin = address(1);
    let merchant = address(3);
    let target = address(4);
    let mut c = PaymentContract::initialize(admin.clone());
    c.set_fee_config(&admin, fee(100, 0, i128::MAX, true)).unwrap();
    c.set_payment_forward(&merchant, target.clone(), 3333).unwrap();
    let id = pay(&mut c, &merchant, 999).unwrap();
    let s = c.complete_payment(&admin, id).unwrap();
    assert_eq!(s.fee, 9);
    assert_eq!(s.forward_amount, 329);
    assert_eq!(s.merchant_amount, 661);
    assert_eq!(s.fee + s.forward_amount + s.merchant_amount, 999);
    assert_eq!(s.forward_to, Some(target.clone()));

    // Forwarding everything leaves the merchant nothing.
    c.set_payment_forward(&merchant, target, 10000).unwrap();
    let id = pay(&mut c, &merchant, 1000).unwrap();
    let s = c.complete_payment(&admin, id).unwrap();
    assert_eq!((s.fee, s.forward_amount, s.merchant_amount), (10, 990, 0));
}

#[test]
fn self_forward_is_a_loop_and_rules_are_per_merchant() {
    let mut c = PaymentContract::initialize(address(1));
    let a = address(3);
    let b = address(4);
    let t = address(6);
    assert_eq!(c.set_payment_forward(&a, a.clone(), 100), Err(Error::ForwardLoop));
    c.set_payment_forward(&a, t.clone(), 100).unwrap();
    c.set_payment_forward(&b, t.clone(), 200).unwrap();
    c.remove_payment_forward(&a).unwrap();
    assert_eq!(c.remove_payment_forward(&a), Err(Error::ForwardConfigNotFound));
    let kept = c.get_forward_config(&b).unwrap();
    assert_eq!(kept.merchant, b);
    assert_eq!(kept.forward_to, t);
    assert_eq!(kept.forward_bps, 200);
    // `t` has no rule, `a` has none any more, so `t` may forward to `a`.
    assert_eq!(c.set_payment_forward(&t, a.clone(), 1), Ok(()));
    // ... and now nobody may forward to `t`.
    assert_eq!(c.set_payment_forward(&a, t, 1), Err(Error::ForwardLoop));
}

#[test]
fn share_of_is_exact_without_overflow() {
    assert_eq!(share_of(1_000_000, 2500), 250_000);
    assert_eq!(share_of(999, 100), 9);
    assert_eq!(share_of(0, 10000), 0);
    assert_eq!(share_of(i128::MAX, 10000), i128::MAX);
    assert_eq!(share_of(i128::MAX, 5000), i128::MAX / 2);
    assert_eq!(share_of(i128::MAX, 0), 0);
}

#[test]
fn split_payment_directly() {
    let rules = FeeRules { fee_bps: 100, min_fee: 0, max_fee: i128::MAX, active: true };
    let s = split_payment(1_000_000, Some(rules), Some(2500));
    assert_eq!((s.fee, s.forward_amount, s.merchant_amount), (10_000, 247_500, 742_500));
    let s = split_payment(1_000_000, None, None);
    assert_eq!((s.fee, s.forward_amount, s.merchant_amount), (0, 0, 1_000_000));
    let s = split_payment(i128::MAX, Some(rules), Some(10000));
    assert_eq!(s.fee + s.forward_amount, i128::MAX);
    assert_eq!(s.merchant_amount, 0);
}
