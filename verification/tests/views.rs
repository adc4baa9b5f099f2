use tfn_launchpad::common::config::{Launchpad, LaunchpadView, Status};
use tfn_launchpad::common::consts::ONE;
use tfn_launchpad::common::errors::LaunchpadError;
use tfn_launchpad::common::types::{Address, Payment, TokenId};
use tfn_launchpad::contract::TFNLaunchpadContract;

const T0: u64 = 1_000;

fn address(tag: u8) -> Address {
    Address::new(vec![tag; 32])
}

fn token(name: &str) -> TokenId {
    TokenId::new(name.as_bytes().to_vec())
}

fn dao() -> Address {
    address(1)
}

fn owner() -> Address {
    address(9)
}

fn pay(name: &str, amount: u128) -> Payment {
    Payment { token: token(name), amount }
}

fn active_contract() -> TFNLaunchpadContract {
    let mut c = TFNLaunchpadContract::init();
    c.config.set_main_dao(dao(), token("GOV-000001")).unwrap();
    c.config.set_dex(address(2)).unwrap();
    c.config.set_digital_identity(address(3));
    c.config.set_state_active().unwrap();
    c
}

fn open(
    c: &mut TFNLaunchpadContract,
    kyc: bool,
    sold: &str,
    paid: &str,
    start: u64,
    end: u64,
) -> u64 {
    c.new_launchpad(&dao(), owner(), vec![], kyc, token(sold), token(paid), ONE, 0, 1000, start, end, T0)
        .unwrap()
}

/// Five launchpads, the one under id 1 cancelled:
///   id 0  AAA for USDC  window [T0+10, T0+20]   100 deposited,  30 sold
///   id 2  CCC for WEGLD window [T0+10, T0+200]  100 deposited, 100 sold
///   id 3  DDD for USDC  window [T0+50, T0+300]  100 deposited,   5 sold, approval asked
///   id 4  EEE for USDC  window [T0+400, T0+500] nothing deposited
fn populated() -> TFNLaunchpadContract {
    let mut c = active_contract();
    assert_eq!(open(&mut c, false, "AAA-000000", "USDC-c76f1f", T0 + 10, T0 + 20), 0);
    assert_eq!(open(&mut c, false, "BBB-000000", "USDC-c76f1f", T0 + 10, T0 + 20), 1);
    assert_eq!(open(&mut c, false, "CCC-000000", "WEGLD-bd4d79", T0 + 10, T0 + 200), 2);
    assert_eq!(open(&mut c, true, "DDD-000000", "USDC-c76f1f", T0 + 50, T0 + 300), 3);
    assert_eq!(open(&mut c, false, "EEE-000000", "USDC-c76f1f", T0 + 400, T0 + 500), 4);
    c.cancel_launchpad(1, &owner()).unwrap();
    c.add_tokens(0, &pay("AAA-000000", 100), T0 + 1).unwrap();
    c.add_tokens(2, &pay("CCC-000000", 100), T0 + 1).unwrap();
    c.add_tokens(3, &pay("DDD-000000", 100), T0 + 1).unwrap();
    c.whitelist_user(3, &owner(), address(7)).unwrap();
    c.buy(0, &address(7), &pay("USDC-c76f1f", 30), T0 + 15).unwrap();
    c.buy(2, &address(8), &pay("WEGLD-bd4d79", 100), T0 + 15).unwrap();
    c.buy(3, &address(7), &pay("USDC-c76f1f", 5), T0 + 60).unwrap();
    c
}

fn ids(list: &[Launchpad]) -> Vec<u64> {
    list.iter().map(|l| l.id).collect()
}

fn view_ids(list: &[LaunchpadView]) -> Vec<u64> {
    list.iter().map(|v| v.launchpad.id).collect()
}

#[test]
fn empty_contract_lists_nothing() {
    let c = TFNLaunchpadContract::init();
    assert_eq!(c.config.last_launchpad_id(), 0);
    assert_eq!(c.config.get_all_launchpads(0, 0, &address(7), None, T0), vec![]);
    assert_eq!(c.config.get_all_launchpads(0, 10, &address(7), Some(Status::Active), T0), vec![]);
    assert_eq!(c.config.get_launchpads_count(None, T0), 0);
    assert_eq!(c.config.get_launchpads_count(Some(Status::Pending), T0), 0);
    assert_eq!(c.config.get_all_launchpads_since(0, T0), vec![]);
    assert_eq!(c.config.get_active_launchpads(T0), vec![]);
    assert_eq!(c.config.get_ended_launchpads_not_deployed(T0), vec![]);
    assert_eq!(c.config.get_total_raised(), Ok(vec![]));
    assert!(!c.config.is_token_launched(&token("AAA-000000")));
    assert_eq!(c.config.token_launchpad_id(&token("AAA-000000")), None);
    assert_eq!(c.config.launchpads(0), None);
    assert_eq!(c.config.launchpad_users(0), vec![]);
    assert_eq!(c.config.whitelisted_users(0), vec![]);
    assert_eq!(c.config.user_launchpads(&address(7)), Vec::<u64>::new());
    assert_eq!(c.config.user_participation(&address(7), 0), 0);
    assert_eq!(c.config.deployed_launchpads(&address(40)), None);
    assert_eq!(c.config.get_ended_launchpad(&address(40)), None);
}

#[test]
fn all_launchpads_skip_cancelled_ids() {
    let c = populated();
    assert_eq!(c.config.last_launchpad_id(), 5);
    let all = c.config.get_all_launchpads(0, 0, &address(7), None, T0 + 100);
    assert_eq!(view_ids(&all), vec![0, 2, 3, 4]);
    let phases: Vec<Status> = all.iter().map(|v| v.launchpad.status).collect();
    assert_eq!(phases, vec![Status::Ended, Status::Active, Status::Active, Status::Pending]);
}

#[test]
fn all_launchpads_show_what_the_address_holds() {
    let c = populated();
    let all = c.config.get_all_launchpads(0, 0, &address(7), None, T0 + 100);
    let bought: Vec<u128> = all.iter().map(|v| v.bought).collect();
    assert_eq!(bought, vec![30, 0, 5, 0]);
    let whitelisted: Vec<bool> = all.iter().map(|v| v.whitelisted).collect();
    assert_eq!(whitelisted, vec![true, true, true, true]);
    let other = c.config.get_all_launchpads(0, 0, &address(8), None, T0 + 100);
    assert_eq!(other.iter().map(|v| v.bought).collect::<Vec<u128>>(), vec![0, 100, 0, 0]);
    // Launchpad 3 asks for approval, which only address 7 has.
    assert_eq!(
        other.iter().map(|v| v.whitelisted).collect::<Vec<bool>>(),
        vec![true, true, false, true]
    );
    assert_eq!(other[1].launchpad.total_sold, 100);
    assert_eq!(other[1].launchpad.total_raised, 100);
    assert_eq!(other[1].launchpad.token, token("CCC-000000"));
}

#[test]
fn pages_count_the_launchpads_kept() {
    let c = populated();
    let page = |start: u64, end: u64| {
        view_ids(&c.config.get_all_launchpads(start, end, &address(7), None, T0 + 100))
    };
    // Places 0, 1, 2, 3 hold ids 0, 2, 3, 4.
    assert_eq!(page(0, 1), vec![0, 2]);
    assert_eq!(page(1, 2), vec![2, 3]);
    assert_eq!(page(1, 1), vec![2]);
    assert_eq!(page(3, 3), vec![4]);
    assert_eq!(page(2, 100), vec![3, 4]);
    assert_eq!(page(4, 100), Vec::<u64>::new());
    assert_eq!(page(2, 1), Vec::<u64>::new());
    // From 0 to 0 is the whole list, not its first place.
    assert_eq!(page(0, 0), vec![0, 2, 3, 4]);
}

#[test]
fn pages_are_cut_before_the_phase_filter() {
    let c = populated();
    let page = |start: u64, end: u64, status: Status| {
        view_ids(&c.config.get_all_launchpads(start, end, &address(7), Some(status), T0 + 100))
    };
    assert_eq!(page(0, 0, Status::Active), vec![2, 3]);
    assert_eq!(page(0, 0, Status::Ended), vec![0]);
    assert_eq!(page(0, 0, Status::Pending), vec![4]);
    assert_eq!(page(0, 0, Status::Deployed), Vec::<u64>::new());
    // The place is that among all launchpads kept, whatever their phase.
    assert_eq!(page(0, 1, Status::Active), vec![2]);
    assert_eq!(page(2, 3, Status::Active), vec![3]);
    assert_eq!(page(1, 3, Status::Ended), Vec::<u64>::new());
}

#[test]
fn count_by_phase() {
    let mut c = populated();
    assert_eq!(c.config.get_launchpads_count(None, T0 + 100), 4);
    assert_eq!(c.config.get_launchpads_count(Some(Status::Pending), T0), 4);
    assert_eq!(c.config.get_launchpads_count(Some(Status::Active), T0 + 100), 2);
    assert_eq!(c.config.get_launchpads_count(Some(Status::Ended), T0 + 100), 1);
    assert_eq!(c.config.get_launchpads_count(Some(Status::Pending), T0 + 100), 1);
    assert_eq!(c.config.get_launchpads_count(Some(Status::Deployed), T0 + 100), 0);
    c.deploy_franchise(0, T0 + 100, address(40)).unwrap();
    assert_eq!(c.config.get_launchpads_count(Some(Status::Deployed), T0 + 100), 1);
    assert_eq!(c.config.get_launchpads_count(Some(Status::Ended), T0 + 100), 0);
    assert_eq!(c.config.get_launchpads_count(Some(Status::Ended), T0 + 1000), 3);
}

#[test]
fn since_goes_by_the_end_of_the_window() {
    let c = populated();
    assert_eq!(ids(&c.config.get_all_launchpads_since(0, T0 + 100)), vec![0, 2, 3, 4]);
    assert_eq!(ids(&c.config.get_all_launchpads_since(T0 + 19, T0 + 100)), vec![0, 2, 3, 4]);
    assert_eq!(ids(&c.config.get_all_launchpads_since(T0 + 20, T0 + 100)), vec![2, 3, 4]);
    assert_eq!(ids(&c.config.get_all_launchpads_since(T0 + 300, T0 + 100)), vec![4]);
    assert_eq!(ids(&c.config.get_all_launchpads_since(T0 + 500, T0 + 100)), Vec::<u64>::new());
    let listed = c.config.get_all_launchpads_since(T0 + 20, T0 + 250);
    let phases: Vec<Status> = listed.iter().map(|l| l.status).collect();
    assert_eq!(phases, vec![Status::Ended, Status::Active, Status::Pending]);
}

#[test]
fn active_needs_the_window_and_tokens_left() {
    let c = populated();
    // Launchpad 2 is sold out, launchpad 4 has nothing deposited.
    assert_eq!(ids(&c.config.get_active_launchpads(T0 + 15)), vec![0]);
    assert_eq!(ids(&c.config.get_active_launchpads(T0 + 60)), vec![3]);
    assert_eq!(ids(&c.config.get_active_launchpads(T0 + 450)), Vec::<u64>::new());
    assert_eq!(ids(&c.config.get_active_launchpads(T0)), Vec::<u64>::new());
}

#[test]
fn ended_and_not_deployed() {
    let mut c = populated();
    // Before any window: all are pending, none has ended.
    assert_eq!(ids(&c.config.get_ended_launchpads_not_deployed(T0)), Vec::<u64>::new());
    // Launchpads 0 and 2 are inside their windows, 2 sold out: neither has
    // ended. Launchpads 3 and 4 have not begun.
    assert_eq!(ids(&c.config.get_ended_launchpads_not_deployed(T0 + 15)), Vec::<u64>::new());
    // The last second of a window is still inside it.
    assert_eq!(ids(&c.config.get_ended_launchpads_not_deployed(T0 + 20)), Vec::<u64>::new());
    assert_eq!(ids(&c.config.get_ended_launchpads_not_deployed(T0 + 21)), vec![0]);
    assert_eq!(ids(&c.config.get_ended_launchpads_not_deployed(T0 + 60)), vec![0]);
    assert_eq!(ids(&c.config.get_ended_launchpads_not_deployed(T0 + 250)), vec![0, 2]);
    assert_eq!(ids(&c.config.get_ended_launchpads_not_deployed(T0 + 450)), vec![0, 2, 3]);
    assert_eq!(ids(&c.config.get_ended_launchpads_not_deployed(T0 + 1000)), vec![0, 2, 3, 4]);
    for l in c.config.get_ended_launchpads_not_deployed(T0 + 250) {
        assert_eq!(l.get_status(T0 + 250), Status::Ended);
        assert!(!l.deployed && l.end_time < T0 + 250);
    }
    c.deploy_franchise(0, T0 + 1000, address(40)).unwrap();
    c.deploy_franchise(3, T0 + 1000, address(41)).unwrap();
    assert_eq!(ids(&c.config.get_ended_launchpads_not_deployed(T0 + 1000)), vec![2, 4]);
    assert_eq!(ids(&c.config.get_ended_launchpads_not_deployed(T0 + 250)), vec![2]);
}

#[test]
fn a_launchpad_not_begun_is_not_ended() {
    let mut c = active_contract();
    open(&mut c, false, "AAA-000000", "USDC-c76f1f", T0 + 10, T0 + 100);
    assert_eq!(ids(&c.config.get_ended_launchpads_not_deployed(T0 + 5)), Vec::<u64>::new());
    assert_eq!(ids(&c.config.get_ended_launchpads_not_deployed(T0 + 50)), Vec::<u64>::new());
    assert_eq!(ids(&c.config.get_ended_launchpads_not_deployed(T0 + 101)), vec![0]);
}

#[test]
fn total_raised_is_grouped_by_payment_token() {
    let mut c = populated();
    assert_eq!(
        c.config.get_total_raised(),
        Ok(vec![pay("USDC-c76f1f", 35), pay("WEGLD-bd4d79", 100)])
    );
    // Settled launchpads count too; a token with nothing raised is listed.
    c.deploy_franchise(0, T0 + 1000, address(40)).unwrap();
    open(&mut c, false, "FFF-000000", "HTM-f51d55", T0 + 10, T0 + 20);
    assert_eq!(
        c.config.get_total_raised(),
        Ok(vec![pay("USDC-c76f1f", 35), pay("WEGLD-bd4d79", 100), pay("HTM-f51d55", 0)])
    );
}

#[test]
fn total_raised_beyond_128_bits_is_refused() {
    let mut c = active_contract();
    let half: u128 = 1 << 127;
    for (id, sold) in ["AAA-000000", "BBB-000000"].iter().enumerate() {
        c.new_launchpad(
            &dao(),
            owner(),
            vec![],
            false,
            token(sold),
            token("USDC-c76f1f"),
            u128::MAX,
            0,
            u128::MAX,
            T0 + 10,
            T0 + 20,
            T0,
        )
        .unwrap();
        c.add_tokens(id as u64, &pay(sold, ONE), T0 + 1).unwrap();
    }
    c.buy(0, &address(7), &pay("USDC-c76f1f", half), T0 + 15).unwrap();
    c.buy(1, &address(7), &pay("USDC-c76f1f", half - 1), T0 + 15).unwrap();
    assert_eq!(c.config.get_total_raised(), Ok(vec![pay("USDC-c76f1f", u128::MAX)]));
    c.buy(1, &address(7), &pay("USDC-c76f1f", 1), T0 + 15).unwrap();
    assert_eq!(c.config.get_total_raised(), Err(LaunchpadError::AmountOverflow));
}

#[test]
fn token_index_follows_the_launchpads_kept() {
    let c = populated();
    assert!(c.config.is_token_launched(&token("AAA-000000")));
    assert!(!c.config.is_token_launched(&token("BBB-000000")));
    assert!(c.config.is_token_launched(&token("EEE-000000")));
    assert!(!c.config.is_token_launched(&token("USDC-c76f1f")));
    assert_eq!(c.config.token_launchpad_id(&token("CCC-000000")), Some(2));
    assert_eq!(c.config.token_launchpad_id(&token("BBB-000000")), None);
}

#[test]
fn buyers_and_their_launchpads() {
    let mut c = populated();
    assert_eq!(c.config.launchpad_users(0), vec![address(7)]);
    assert_eq!(c.config.launchpad_users(1), vec![]);
    assert_eq!(c.config.launchpad_users(2), vec![address(8)]);
    assert_eq!(c.config.user_launchpads(&address(7)), vec![0, 3]);
    assert_eq!(c.config.user_launchpads(&address(8)), vec![2]);
    assert_eq!(c.config.user_launchpads(&address(6)), Vec::<u64>::new());
    assert_eq!(c.config.user_participation(&address(7), 0), 30);
    assert_eq!(c.config.user_participation(&address(7), 1), 0);
    assert_eq!(c.config.user_participation(&address(7), 2), 0);
    assert_eq!(c.config.user_participation(&address(7), 3), 5);
    c.buy(0, &address(6), &pay("USDC-c76f1f", 1), T0 + 16).unwrap();
    c.buy(0, &address(7), &pay("USDC-c76f1f", 2), T0 + 17).unwrap();
    // A buyer keeps the place of the first purchase.
    assert_eq!(c.config.launchpad_users(0), vec![address(7), address(6)]);
    assert_eq!(c.config.user_participation(&address(7), 0), 32);
    assert_eq!(c.config.user_launchpads(&address(6)), vec![0]);
}

#[test]
fn deployed_franchises_lead_to_their_launchpads() {
    let mut c = populated();
    c.deploy_franchise(0, T0 + 1000, address(40)).unwrap();
    c.deploy_franchise(3, T0 + 1000, address(41)).unwrap();
    assert_eq!(c.config.deployed_launchpads(&address(40)), Some(0));
    assert_eq!(c.config.deployed_launchpads(&address(41)), Some(3));
    assert_eq!(c.config.deployed_launchpads(&address(42)), None);
    assert_eq!(c.config.get_ended_launchpad(&address(41)).unwrap().token, token("DDD-000000"));
    // An address that is recorded again stands for the later launchpad.
    c.deploy_franchise(2, T0 + 1000, address(40)).unwrap();
    assert_eq!(c.config.deployed_launchpads(&address(40)), Some(2));
    assert_eq!(c.config.deployed_launchpads.len(), 2);
}

#[test]
fn clearing_removes_the_launchpads_and_pauses() {
    let mut c = populated();
    c.deploy_franchise(0, T0 + 1000, address(40)).unwrap();
    c.clear_storage();
    assert_eq!(c.config.last_launchpad_id(), 0);
    assert_eq!(c.config.get_launchpads_count(None, T0), 0);
    assert!(!c.config.is_token_launched(&token("AAA-000000")));
    assert_eq!(c.config.user_launchpads(&address(7)), Vec::<u64>::new());
    assert_eq!(c.config.main_dao, Some(dao()));
    // The record of franchises stays, its launchpad is gone.
    assert_eq!(c.config.deployed_launchpads(&address(40)), Some(0));
    assert_eq!(c.config.get_ended_launchpad(&address(40)), None);
    assert_eq!(
        c.buy(0, &address(7), &pay("USDC-c76f1f", 1), T0 + 15),
        Err(LaunchpadError::NotActive)
    );
    c.config.set_state_active().unwrap();
    assert_eq!(open(&mut c, false, "AAA-000000", "USDC-c76f1f", T0 + 10, T0 + 20), 0);
}
