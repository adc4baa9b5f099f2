use tfn_launchpad::common::consts::ONE;
use tfn_launchpad::common::errors::LaunchpadError;
use tfn_launchpad::common::types::{Address, Payment, TokenId};
use tfn_launchpad::contract::TFNLaunchpadContract;

const T0: u64 = 1_000;

fn address(tag: u8) -> Address {
    Address::new(vec![tag; 32])
}

fn token(name: &str) -> TokenId {
    TokenId::new(name.as_bytes().to_vec())
}

fn dao() -> Address {
    address(1)
}

fn owner() -> Address {
    address(9)
}

fn usdc(amount: u128) -> Payment {
    Payment { token: token("USDC-c76f1f"), amount }
}

fn sale_tokens(amount: u128) -> Payment {
    Payment { token: token("SALE-0a1b2c"), amount }
}

fn active_contract() -> TFNLaunchpadContract {
    let mut c = TFNLaunchpadContract::init();
    c.config.set_main_dao(dao(), token("GOV-000001")).unwrap();
    c.config.set_dex(address(2)).unwrap();
    c.config.set_digital_identity(address(3));
    c.config.set_state_active().unwrap();
    c
}

fn open_with(
    c: &mut TFNLaunchpadContract,
    kyc: bool,
    price: u128,
    min: u128,
    max: u128,
) -> Result<u64, LaunchpadError> {
    c.new_launchpad(
        &dao(),
        owner(),
        vec![],
        kyc,
        token("SALE-0a1b2c"),
        token("USDC-c76f1f"),
        price,
        min,
        max,
        T0 + 10,
        T0 + 100,
        T0,
    )
}

/// A launchpad at one payment unit per unit, bounds 10..=100, 500 deposited.
fn stocked() -> (TFNLaunchpadContract, u64) {
    let mut c = active_contract();
    let id = open_with(&mut c, false, ONE, 10, 100).unwrap();
    c.add_tokens(id, &sale_tokens(500), T0 + 1).unwrap();
    (c, id)
}

fn snapshot(c: &TFNLaunchpadContract) -> String {
    format!("{:?}", c)
}

#[test]
fn activation_needs_the_three_addresses() {
    let mut c = TFNLaunchpadContract::init();
    assert_eq!(c.config.set_state_active(), Err(LaunchpadError::DaoNotSet));
    c.config.set_main_dao(dao(), token("GOV-000001")).unwrap();
    assert_eq!(c.config.set_state_active(), Err(LaunchpadError::DexNotSet));
    c.config.set_dex(address(2)).unwrap();
    assert_eq!(c.config.set_state_active(), Err(LaunchpadError::DigitalIdentityNotSet));
    c.config.set_digital_identity(address(3));
    assert_eq!(c.config.set_state_active(), Ok(()));
}

#[test]
fn dao_and_dex_are_set_once() {
    let mut c = TFNLaunchpadContract::init();
    c.config.set_main_dao(dao(), token("GOV-000001")).unwrap();
    assert_eq!(
        c.config.set_main_dao(address(5), token("GOV-000002")),
        Err(LaunchpadError::DaoAlreadySet)
    );
    assert_eq!(c.config.main_dao, Some(dao()));
    assert_eq!(c.config.governance_token, Some(token("GOV-000001")));
    c.config.set_dex(address(2)).unwrap();
    assert_eq!(c.config.set_dex(address(6)), Err(LaunchpadError::DexAlreadySet));
    assert_eq!(c.config.dex_sc, Some(address(2)));
}

#[test]
fn first_identity_contract_and_platform_stay() {
    let mut c = TFNLaunchpadContract::init();
    c.config.set_digital_identity(address(3));
    c.config.set_digital_identity(address(4));
    assert_eq!(c.config.digital_identity, Some(address(3)));
    c.config.set_platform(address(5));
    c.config.set_platform(address(6));
    assert_eq!(c.config.platform, Some(address(5)));
}

#[test]
fn paused_contract_refuses_every_operation() {
    let (mut c, id) = stocked();
    c.config.set_state_inactive();
    let before = snapshot(&c);
    assert_eq!(open_with(&mut c, false, ONE, 1, 2), Err(LaunchpadError::NotActive));
    assert_eq!(c.add_tokens(id, &sale_tokens(1), T0 + 1), Err(LaunchpadError::NotActive));
    assert_eq!(c.cancel_launchpad(id, &owner()), Err(LaunchpadError::NotActive));
    assert_eq!(c.whitelist_user(id, &owner(), address(7)), Err(LaunchpadError::NotActive));
    assert_eq!(c.buy(id, &address(7), &usdc(10), T0 + 20), Err(LaunchpadError::NotActive));
    assert_eq!(c.settlement(id, T0 + 101), Err(LaunchpadError::NotActive));
    assert_eq!(c.deploy_franchise(id, T0 + 101, address(40)), Err(LaunchpadError::NotActive));
    assert_eq!(snapshot(&c), before);
}

#[test]
fn only_the_main_dao_opens_launchpads() {
    let mut c = active_contract();
    let r = c.new_launchpad(
        &owner(),
        owner(),
        vec![],
        false,
        token("SALE-0a1b2c"),
        token("USDC-c76f1f"),
        ONE,
        1,
        2,
        T0 + 10,
        T0 + 100,
        T0,
    );
    assert_eq!(r, Err(LaunchpadError::OnlyMainDao));
    assert_eq!(c.config.last_launchpad_id(), 0);
}

#[test]
fn new_launchpad_rejects_bad_parameters_in_order() {
    let mut c = active_contract();
    // Zero price comes before the inverted bounds.
    assert_eq!(open_with(&mut c, false, 0, 5, 4), Err(LaunchpadError::InvalidPrice));
    assert_eq!(open_with(&mut c, false, 1, 5, 4), Err(LaunchpadError::InvalidQuota));
    assert_eq!(open_with(&mut c, false, 1, 5, 5), Ok(0));
    assert_eq!(open_with(&mut c, false, 1, 5, 5), Err(LaunchpadError::TokenAlreadyLaunched));
    assert_eq!(c.config.last_launchpad_id(), 1);
}

#[test]
fn new_launchpad_rejects_bad_windows() {
    let mut c = active_contract();
    let mut open = |start: u64, end: u64, now: u64| {
        c.new_launchpad(
            &dao(),
            owner(),
            vec![],
            false,
            token("SALE-0a1b2c"),
            token("USDC-c76f1f"),
            ONE,
            1,
            2,
            start,
            end,
            now,
        )
    };
    // The start must lie in the future.
    assert_eq!(open(T0, T0 + 100, T0), Err(LaunchpadError::InvalidWindow));
    assert_eq!(open(T0 - 1, T0 + 100, T0), Err(LaunchpadError::InvalidWindow));
    // The end must lie after the start.
    assert_eq!(open(T0 + 10, T0 + 10, T0), Err(LaunchpadError::InvalidWindow));
    assert_eq!(open(T0 + 10, T0 + 9, T0), Err(LaunchpadError::InvalidWindow));
    assert_eq!(open(T0 + 1, T0 + 2, T0), Ok(0));
}

#[test]
fn unknown_ids_are_not_found() {
    let (mut c, id) = stocked();
    let other = id + 1;
    assert_eq!(c.add_tokens(other, &sale_tokens(1), T0 + 1), Err(LaunchpadError::SaleNotFound));
    assert_eq!(c.cancel_launchpad(other, &owner()), Err(LaunchpadError::SaleNotFound));
    assert_eq!(
        c.whitelist_user(other, &owner(), address(7)),
        Err(LaunchpadError::SaleNotFound)
    );
    assert_eq!(c.buy(other, &address(7), &usdc(10), T0 + 20), Err(LaunchpadError::SaleNotFound));
    assert_eq!(c.settlement(other, T0 + 101), Err(LaunchpadError::SaleNotFound));
    assert_eq!(
        c.deploy_franchise(u64::MAX, T0 + 101, address(40)),
        Err(LaunchpadError::SaleNotFound)
    );
    assert_eq!(c.config.launchpads(other), None);
    assert_eq!(c.config.only_launchpad_owner(other, &owner()), Err(LaunchpadError::SaleNotFound));
}

#[test]
fn cancelled_id_in_the_middle_is_not_found() {
    let mut c = active_contract();
    let first = open_with(&mut c, false, ONE, 1, 2).unwrap();
    let second = c
        .new_launchpad(
            &dao(),
            owner(),
            vec![],
            false,
            token("NEXT-0a1b2c"),
            token("USDC-c76f1f"),
            ONE,
            1,
            2,
            T0 + 10,
            T0 + 100,
            T0,
        )
        .unwrap();
    assert_eq!((first, second), (0, 1));
    c.cancel_launchpad(first, &owner()).unwrap();
    // The id is not the last one: it stays empty and is not given out again.
    assert_eq!(c.config.last_launchpad_id(), 2);
    assert_eq!(c.buy(first, &address(7), &usdc(1), T0 + 20), Err(LaunchpadError::SaleNotFound));
    assert_eq!(open_with(&mut c, false, ONE, 1, 2), Ok(2));
}

#[test]
fn tokens_are_added_only_before_the_end_and_only_the_token_sold() {
    let (mut c, id) = stocked();
    assert_eq!(c.add_tokens(id, &sale_tokens(1), T0 + 100), Err(LaunchpadError::WindowClosed));
    assert_eq!(c.add_tokens(id, &sale_tokens(1), T0 + 101), Err(LaunchpadError::WindowClosed));
    assert_eq!(c.add_tokens(id, &usdc(1), T0 + 50), Err(LaunchpadError::WrongToken));
    // The window is tested before the token.
    assert_eq!(c.add_tokens(id, &usdc(1), T0 + 100), Err(LaunchpadError::WindowClosed));
    assert_eq!(c.config.launchpads(id).unwrap().amount, 500);
    // While the window is open, too.
    assert_eq!(c.add_tokens(id, &sale_tokens(1), T0 + 99), Ok(()));
    assert_eq!(c.config.launchpads(id).unwrap().amount, 501);
}

#[test]
fn deposit_beyond_128_bits_is_refused() {
    let (mut c, id) = stocked();
    assert_eq!(
        c.add_tokens(id, &sale_tokens(u128::MAX - 499), T0 + 1),
        Err(LaunchpadError::AmountOverflow)
    );
    assert_eq!(c.add_tokens(id, &sale_tokens(u128::MAX - 500), T0 + 1), Ok(()));
    assert_eq!(c.config.launchpads(id).unwrap().amount, u128::MAX);
}

#[test]
fn only_the_owner_cancels_and_approves() {
    let (mut c, id) = stocked();
    assert_eq!(c.cancel_launchpad(id, &dao()), Err(LaunchpadError::OnlyLaunchpadOwner));
    assert_eq!(
        c.whitelist_user(id, &address(7), address(7)),
        Err(LaunchpadError::OnlyLaunchpadOwner)
    );
    assert_eq!(
        c.config.only_launchpad_owner(id, &address(7)),
        Err(LaunchpadError::OnlyLaunchpadOwner)
    );
    assert_eq!(c.config.only_launchpad_owner(id, &owner()), Ok(()));
    assert!(c.config.launchpads(id).is_some());
    assert_eq!(c.config.whitelisted_users(id), vec![]);
}

#[test]
fn no_cancelling_after_sales() {
    let (mut c, id) = stocked();
    c.buy(id, &address(7), &usdc(10), T0 + 20).unwrap();
    assert_eq!(c.cancel_launchpad(id, &owner()), Err(LaunchpadError::CannotCancelAfterSales));
    assert!(c.config.launchpads(id).is_some());
}

#[test]
fn no_cancelling_after_settlement() {
    let (mut c, id) = stocked();
    let paid = c.deploy_franchise(id, T0 + 101, address(40)).unwrap();
    assert_eq!(paid.payments, vec![sale_tokens(500)]);
    // What was left went out with the settlement: it is not refunded too.
    assert_eq!(c.cancel_launchpad(id, &owner()), Err(LaunchpadError::AlreadySettled));
    assert!(c.config.launchpads(id).unwrap().deployed);
}

#[test]
fn purchase_checks_come_in_order() {
    let mut c = active_contract();
    let id = open_with(&mut c, true, ONE, 10, 100).unwrap();
    c.add_tokens(id, &sale_tokens(50), T0 + 1).unwrap();
    let buyer = address(7);
    let before = snapshot(&c);
    // Outside the window, whatever else is wrong.
    assert_eq!(c.buy(id, &buyer, &sale_tokens(1), T0 + 9), Err(LaunchpadError::SaleInactive));
    assert_eq!(c.buy(id, &buyer, &sale_tokens(1), T0 + 101), Err(LaunchpadError::SaleInactive));
    // Inside it: the token, then the approval, then the bounds, then the stock.
    assert_eq!(c.buy(id, &buyer, &sale_tokens(1), T0 + 10), Err(LaunchpadError::WrongToken));
    assert_eq!(c.buy(id, &buyer, &usdc(1), T0 + 10), Err(LaunchpadError::NotWhitelisted));
    assert_eq!(snapshot(&c), before);
    c.whitelist_user(id, &owner(), address(7)).unwrap();
    let before = snapshot(&c);
    assert_eq!(c.buy(id, &buyer, &usdc(9), T0 + 10), Err(LaunchpadError::BelowMinimum));
    assert_eq!(c.buy(id, &buyer, &usdc(101), T0 + 10), Err(LaunchpadError::AboveMaximum));
    assert_eq!(c.buy(id, &buyer, &usdc(51), T0 + 10), Err(LaunchpadError::InsufficientInventory));
    assert_eq!(snapshot(&c), before);
    // Both ends of the window and both bounds are inclusive.
    assert_eq!(c.buy(id, &buyer, &usdc(10), T0 + 10).unwrap().amount, 10);
    assert_eq!(c.buy(id, &buyer, &usdc(40), T0 + 100).unwrap().amount, 40);
    assert_eq!(c.config.user_participation(&buyer, id), 50);
}

#[test]
fn minimum_binds_the_first_purchase_only() {
    let (mut c, id) = stocked();
    let buyer = address(7);
    assert_eq!(c.buy(id, &buyer, &usdc(9), T0 + 20), Err(LaunchpadError::BelowMinimum));
    assert_eq!(c.buy(id, &buyer, &usdc(10), T0 + 20).unwrap().amount, 10);
    // With what the buyer holds, one more unit clears the minimum.
    assert_eq!(c.buy(id, &buyer, &usdc(1), T0 + 21).unwrap().amount, 1);
    assert_eq!(c.buy(id, &buyer, &usdc(89), T0 + 22).unwrap().amount, 89);
    assert_eq!(c.buy(id, &buyer, &usdc(1), T0 + 23), Err(LaunchpadError::AboveMaximum));
    assert_eq!(c.config.user_participation(&buyer, id), 100);
}

#[test]
fn approval_is_asked_only_where_enforced_and_is_idempotent() {
    let mut c = active_contract();
    let id = open_with(&mut c, true, ONE, 1, 100).unwrap();
    c.add_tokens(id, &sale_tokens(50), T0 + 1).unwrap();
    assert!(!c.config.is_whitelisted(id, &address(7)));
    assert_eq!(c.buy(id, &address(7), &usdc(1), T0 + 20), Err(LaunchpadError::NotWhitelisted));
    c.whitelist_user(id, &owner(), address(7)).unwrap();
    c.whitelist_user(id, &owner(), address(7)).unwrap();
    c.whitelist_user(id, &owner(), address(8)).unwrap();
    assert_eq!(c.config.whitelisted_users(id), vec![address(7), address(8)]);
    assert!(c.config.is_whitelisted(id, &address(7)));
    assert!(!c.config.is_whitelisted(id, &address(6)));
    assert_eq!(c.buy(id, &address(7), &usdc(1), T0 + 20).unwrap().amount, 1);
    assert_eq!(c.buy(id, &address(6), &usdc(1), T0 + 20), Err(LaunchpadError::NotWhitelisted));

    let (mut open_sale, id) = stocked();
    assert!(open_sale.config.is_whitelisted(id, &address(6)));
    assert!(!open_sale.config.is_whitelisted(id + 1, &address(6)));
    assert_eq!(open_sale.buy(id, &address(6), &usdc(10), T0 + 20).unwrap().amount, 10);
}

#[test]
fn quotient_beyond_128_bits_is_above_maximum() {
    let mut c = active_contract();
    let id = open_with(&mut c, false, 1, 0, u128::MAX).unwrap();
    c.add_tokens(id, &sale_tokens(u128::MAX), T0 + 1).unwrap();
    // At a price of 1 for 10^18 units, this payment asks for more than 2^128.
    assert_eq!(
        c.buy(id, &address(7), &usdc(u128::MAX / 2), T0 + 20),
        Err(LaunchpadError::AboveMaximum)
    );
    assert_eq!(c.buy(id, &address(7), &usdc(3), T0 + 20).unwrap().amount, 3 * ONE);
}

#[test]
fn raised_total_beyond_128_bits_is_refused() {
    let mut c = active_contract();
    // So dear that a payment of 2^127 buys half a whole token.
    let id = open_with(&mut c, false, u128::MAX, 0, u128::MAX).unwrap();
    c.add_tokens(id, &sale_tokens(u128::MAX), T0 + 1).unwrap();
    let half: u128 = 1 << 127;
    assert_eq!(c.buy(id, &address(7), &usdc(half), T0 + 20).unwrap().amount, ONE / 2);
    assert_eq!(c.buy(id, &address(7), &usdc(half), T0 + 20), Err(LaunchpadError::AmountOverflow));
    assert_eq!(c.config.launchpads(id).unwrap().total_raised, half);
    assert_eq!(c.buy(id, &address(7), &usdc(half - 1), T0 + 20).unwrap().amount, ONE / 2 - 1);
    assert_eq!(c.config.launchpads(id).unwrap().total_raised, u128::MAX);
    assert_eq!(c.config.launchpads(id).unwrap().total_sold, ONE - 1);
}

#[test]
fn upgrade_is_for_the_owner_and_the_dao() {
    let c = active_contract();
    let contract_owner = address(50);
    assert_eq!(
        c.upgrade_franchise(&address(7), &contract_owner, None),
        Err(LaunchpadError::OnlyOwnerOrDao)
    );
    assert_eq!(c.upgrade_franchise(&contract_owner, &contract_owner, None), Ok(vec![]));
    let args = vec![vec![1u8, 2], vec![]];
    assert_eq!(c.upgrade_franchise(&dao(), &contract_owner, Some(args.clone())), Ok(args));
    let unset = TFNLaunchpadContract::init();
    assert_eq!(
        unset.upgrade_franchise(&dao(), &contract_owner, None),
        Err(LaunchpadError::OnlyOwnerOrDao)
    );
}
