use payment_contracts::address::Address;
use payment_contracts::payment::{
    Currency, Error, FeeConfig, PaymentContract, PaymentStatus,
};

fn address(tag: u8) -> Address {
    let mut bytes = vec![tag; 32];
    bytes[0] = b'G';
    Address::new(bytes)
}

fn setup_env() -> (PaymentContract, Address, Address, Address, Address, Address) {
    let admin = address(1);
    let customer = address(2);
    let merchant = address(3);
    let forward_to = address(4);
    let token = address(5);

    // Initialize contract
    let mut contract = PaymentContract::initialize(admin.clone());

    // Set up fee config
    let fee_config = FeeConfig {
        fee_bps: 100,
        min_fee: 0,
        max_fee: i128::MAX,
        treasury: admin.clone(),
        fee_token: token.clone(),
        active: true,
    };
    contract.set_fee_config(&admin, fee_config).unwrap();

    (contract, admin, customer, merchant, forward_to, token)
}

fn create_test_payment(
    contract: &mut PaymentContract,
    customer: &Address,
    merchant: &Address,
    amount: i128,
    token: &Address,
) -> u64 {
    let payment_id = contract
        .create_payment(
            customer.clone(),
            merchant.clone(),
            amount,
            token.clone(),
            Currency::USDC,
            3600,
            String::from("test metadata"),
            0,
        )
        .unwrap();
    payment_id
}

#[test]
fn test_set_payment_forward_valid() {
    let (mut contract, _admin, _customer, merchant, forward_to, _token) = setup_env();

    let result = contract.set_payment_forward(
        &merchant,
        forward_to.clone(),
        5000, // 50%
    );

    assert!(result.is_ok());

    // Verify the forward config was stored
    let config = contract.get_forward_config(&merchant).unwrap();
    assert_eq!(config.merchant, merchant);
    assert_eq!(config.forward_to, forward_to);
    assert_eq!(config.forward_bps, 5000);
    assert!(config.active);
}

#[test]
fn test_set_payment_forward_invalid_bps_zero() {
    let (mut contract, _admin, _customer, merchant, forward_to, _token) = setup_env();

    let result = contract.set_payment_forward(
        &merchant,
        forward_to,
        0, // Invalid: must be between 1 and 10000
    );

    assert_eq!(result, Err(Error::InvalidForwardBps));
}

#[test]
fn test_set_payment_forward_invalid_bps_too_high() {
    let (mut contract, _admin, _customer, merchant, forward_to, _token) = setup_env();

    let result = contract.set_payment_forward(
        &merchant,
        forward_to,
        10001, // Invalid: must be between 1 and 10000
    );

    assert_eq!(result, Err(Error::InvalidForwardBps));
}

#[test]
fn test_set_payment_forward_loop_detection() {
    let (mut contract, _admin, _customer, merchant, forward_to, _token) = setup_env();

    // Set up a forward config for forward_to
    contract
        .set_payment_forward(&forward_to, address(6), 5000)
        .unwrap();

    // Try to set merchant to forward to forward_to (which already has a forward)
    let result = contract.set_payment_forward(&merchant, forward_to, 5000);

    assert_eq!(result, Err(Error::ForwardLoop));
}

#[test]
fn test_set_payment_forward_valid_bps_boundaries() {
    let (mut contract, _admin, _customer, merchant, forward_to, _token) = setup_env();

    // Test minimum valid value (1)
    let result1 = contract.set_payment_forward(&merchant, forward_to.clone(), 1);
    assert!(result1.is_ok());

    // Remove and test maximum valid value (10000)
    contract.remove_payment_forward(&merchant).unwrap();

    let result2 = contract.set_payment_forward(&merchant, forward_to, 10000);
    assert!(result2.is_ok());
}

#[test]
fn test_remove_payment_forward_success() {
    let (mut contract, _admin, _customer, merchant, forward_to, _token) = setup_env();

    // First, set a forward config
    contract.set_payment_forward(&merchant, forward_to, 5000).unwrap();

    // Verify it exists
    assert!(contract.get_forward_config(&merchant).is_ok());

    // Remove it
    let result = contract.remove_payment_forward(&merchant);
    assert!(result.is_ok());

    // Verify it's gone
    let config = contract.get_forward_config(&merchant);
    assert_eq!(config, Err(Error::ForwardConfigNotFound));
}

#[test]
fn test_remove_payment_forward_not_found() {
    let (mut contract, _admin, _customer, merchant, _forward_to, _token) = setup_env();

    // Try to remove a forward config that doesn't exist
    let result = contract.remove_payment_forward(&merchant);

    assert_eq!(result, Err(Error::ForwardConfigNotFound));
}

#[test]
fn test_get_forward_config_not_found() {
    let (contract, _admin, _customer, merchant, _forward_to, _token) = setup_env();

    // Try to get a forward config that doesn't exist
    let result = contract.get_forward_config(&merchant);

    assert_eq!(result, Err(Error::ForwardConfigNotFound));
}

#[test]
fn test_payment_forward_on_completion() {
    let (mut contract, admin, customer, merchant, forward_to, token) = setup_env();

    // Create a forward config
    contract.set_payment_forward(&merchant, forward_to, 5000).unwrap(); // 50%

    // Create a payment
    let payment_id = create_test_payment(&mut contract, &customer, &merchant, 1000000, &token);

    // Complete the payment - this should trigger forwarding
    let result = contract.complete_payment(&admin, payment_id);

    assert!(result.is_ok());

    // Verify payment is completed
    let payment = contract.get_payment(payment_id);
    assert_eq!(payment.status, PaymentStatus::Completed);
}

#[test]
fn test_payment_forward_calculation() {
    let (mut contract, admin, customer, merchant, forward_to, token) = setup_env();

    // Create a forward config with 25% (2500 bps)
    contract.set_payment_forward(&merchant, forward_to.clone(), 2500).unwrap();

    // Create a payment with 1,000,000 units
    let payment_id = create_test_payment(&mut contract, &customer, &merchant, 1000000, &token);

    // Complete the payment
    let settlement = contract.complete_payment(&admin, payment_id).unwrap();

    // The merchant should receive: 1,000,000 * (1 - 0.01) = 990,000 (after 1% fee)
    // Then forward: 990,000 * 0.25 = 247,500 to forward_to
    // So merchant keeps: 990,000 - 247,500 = 742,500
    assert_eq!(settlement.fee, 10000);
    assert_eq!(settlement.treasury, Some(admin));
    assert_eq!(settlement.forward_to, Some(forward_to));
    assert_eq!(settlement.forward_amount, 247500);
    assert_eq!(settlement.merchant_amount, 742500);
}

#[test]
fn test_payment_forward_multiple_updates() {
    let (mut contract, _admin, _customer, merchant, forward_to, _token) = setup_env();

    let new_forward_to = address(7);

    // Set initial forward config
    contract.set_payment_forward(&merchant, forward_to, 5000).unwrap();

    // Update with new forward_to
    contract
        .set_payment_forward(&merchant, new_forward_to.clone(), 7500) // Change to 75%
        .unwrap();

    // Verify the updated config
    let config = contract.get_forward_config(&merchant).unwrap();
    assert_eq!(config.forward_to, new_forward_to);
    assert_eq!(config.forward_bps, 7500);
}

#[test]
fn test_payment_forward_with_minimal_bps() {
    let (mut contract, _admin, _customer, merchant, forward_to, _token) = setup_env();

    // Set with minimal bps (1 = 0.01%)
    let result = contract.set_payment_forward(&merchant, forward_to, 1);

    assert!(result.is_ok());

    let config = contract.get_forward_config(&merchant).unwrap();
    assert_eq!(config.forward_bps, 1);
}

#[test]
fn test_payment_forward_with_full_bps() {
    let (mut contract, _admin, _customer, merchant, forward_to, _token) = setup_env();

    // Set with full bps (10000 = 100%)
    let result = contract.set_payment_forward(&merchant, forward_to, 10000);

    assert!(result.is_ok());

    let config = contract.get_forward_config(&merchant).unwrap();
    assert_eq!(config.forward_bps, 10000);
}

#[test]
fn test_payment_forward_config_persistence() {
    let (mut contract, _admin, _customer, merchant, forward_to, _token) = setup_env();

    // Set a forward config
    contract.set_payment_forward(&merchant, forward_to.clone(), 5000).unwrap();

    // Get it multiple times to ensure it persists
    let config1 = contract.get_forward_config(&merchant).unwrap();
    let config2 = contract.get_forward_config(&merchant).unwrap();

    assert_eq!(config1, config2);
    assert_eq!(config1.forward_to, forward_to);
}

#[test]
fn test_remove_and_readd_forward_config() {
    let (mut contract, _admin, _customer, merchant, forward_to, _token) = setup_env();

    // Set initial config
    contract.set_payment_forward(&merchant, forward_to, 5000).unwrap();

    // Remove it
    contract.remove_payment_forward(&merchant).unwrap();

    // Verify it's gone
    assert_eq!(
        contract.get_forward_config(&merchant),
        Err(Error::ForwardConfigNotFound)
    );

    // Re-add it with different settings
    let new_forward_to = address(8);
    contract
        .set_payment_forward(&merchant, new_forward_to.clone(), 7500)
        .unwrap();

    // Verify the new config
    let config = contract.get_forward_config(&merchant).unwrap();
    assert_eq!(config.forward_to, new_forward_to);
    assert_eq!(config.forward_bps, 7500);
}
