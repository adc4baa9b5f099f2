use tfn_launchpad::common::config::{
    ConfigModule, Launchpad, LaunchpadBook, Participant, State, Status,
};
use tfn_launchpad::common::consts::ONE;
use tfn_launchpad::common::sound::distinct_addresses;
use tfn_launchpad::common::types::{bytes_copy, bytes_eq, Address, Payment, TokenId};
use tfn_launchpad::contract::TFNLaunchpadContract;

const T0: u64 = 1_000;

fn address(tag: u8) -> Address {
    Address::new(vec![tag; 32])
}

fn token(name: &str) -> TokenId {
    TokenId::new(name.as_bytes().to_vec())
}

fn record(id: u64, sold: &str) -> Launchpad {
    Launchpad {
        id,
        owner: address(9),
        details: vec![],
        kyc_enforced: false,
        token: token(sold),
        amount: 100,
        payment_token: token("USDC-c76f1f"),
        price: ONE,
        min_buy_amount: 10,
        max_buy_amount: 50,
        start_time: T0 + 10,
        end_time: T0 + 100,
        total_raised: 30,
        total_sold: 30,
        deployed: false,
        status: Status::Pending,
    }
}

fn book(id: u64, sold: &str) -> LaunchpadBook {
    LaunchpadBook {
        launchpad: record(id, sold),
        whitelisted_users: vec![address(7)],
        users: vec![
            Participant { user: address(7), bought: 10 },
            Participant { user: address(8), bought: 20 },
        ],
    }
}

fn contract_of(launchpads: Vec<Option<LaunchpadBook>>) -> ConfigModule {
    ConfigModule {
        state: State::Active,
        main_dao: Some(address(1)),
        platform: None,
        digital_identity: Some(address(3)),
        governance_token: Some(token("GOV-000001")),
        dex_sc: Some(address(2)),
        launchpads,
        deployed_launchpads: vec![],
    }
}

fn sound_with(change: impl FnOnce(&mut LaunchpadBook)) -> bool {
    let mut b = book(1, "BBB-000000");
    change(&mut b);
    contract_of(vec![Some(book(0, "AAA-000000")), Some(b)]).is_sound()
}

#[test]
fn byte_strings_compare_by_content() {
    assert!(bytes_eq(&vec![], &vec![]));
    assert!(bytes_eq(&vec![1, 2, 3], &vec![1, 2, 3]));
    assert!(!bytes_eq(&vec![1, 2, 3], &vec![1, 2, 4]));
    assert!(!bytes_eq(&vec![1, 2, 3], &vec![1, 2]));
    assert!(!bytes_eq(&vec![], &vec![0]));
    assert_eq!(bytes_copy(&vec![9, 8, 7]), vec![9, 8, 7]);
    assert_eq!(bytes_copy(&vec![]), Vec::<u8>::new());
    assert!(address(1).same_as(&address(1).clone()));
    assert!(!address(1).same_as(&address(2)));
    assert!(token("AAA-000000").same_as(&token("AAA-000000").clone()));
    assert!(!token("AAA-000000").same_as(&token("AAA-000001")));
    let p = Payment { token: token("AAA-000000"), amount: 5 };
    assert_eq!(p.clone(), p);
    assert_eq!(record(3, "AAA-000000").clone(), record(3, "AAA-000000"));
}

#[test]
fn distinct_addresses_finds_repeats() {
    assert!(distinct_addresses(&vec![]));
    assert!(distinct_addresses(&vec![address(1)]));
    assert!(distinct_addresses(&vec![address(1), address(2), address(3)]));
    assert!(!distinct_addresses(&vec![address(1), address(2), address(1)]));
    assert!(!distinct_addresses(&vec![address(2), address(2)]));
}

#[test]
fn new_contract_is_sound() {
    assert!(ConfigModule::new().is_sound());
    assert!(TFNLaunchpadContract::init().config.is_sound());
    assert_eq!(ConfigModule::new().state, State::Inactive);
    assert!(contract_of(vec![]).is_sound());
    assert!(contract_of(vec![None, None]).is_sound());
}

#[test]
fn state_put_together_by_hand_is_tested() {
    assert!(contract_of(vec![Some(book(0, "AAA-000000")), None, Some(book(2, "CCC-000000"))])
        .is_sound());
    assert!(sound_with(|_| {}));
    // A launchpad under another id than its own.
    assert!(!contract_of(vec![None, Some(book(0, "AAA-000000"))]).is_sound());
    // Two launchpads of one token.
    assert!(!contract_of(vec![Some(book(0, "AAA-000000")), Some(book(1, "AAA-000000"))])
        .is_sound());
    assert!(!sound_with(|b| b.launchpad.price = 0));
    assert!(!sound_with(|b| b.launchpad.min_buy_amount = 51));
    assert!(!sound_with(|b| b.launchpad.end_time = b.launchpad.start_time));
    // More sold than deposited.
    assert!(!sound_with(|b| b.launchpad.amount = 29));
    // Sold is not what the buyers hold.
    assert!(!sound_with(|b| b.launchpad.total_sold = 31));
    assert!(!sound_with(|b| b.users[0].bought = 11));
    assert!(!sound_with(|b| b.users[1].bought = u128::MAX));
    // A buyer outside the bounds.
    assert!(!sound_with(|b| {
        b.users[0].bought = 9;
        b.users[1].bought = 21;
    }));
    assert!(!sound_with(|b| {
        b.launchpad.amount = 1000;
        b.launchpad.total_sold = 61;
        b.users[1].bought = 51;
    }));
    // A buyer or an approved address listed twice.
    assert!(!sound_with(|b| b.users[1].user = address(7)));
    assert!(!sound_with(|b| b.whitelisted_users.push(address(7))));
    assert!(sound_with(|b| b.whitelisted_users.push(address(8))));
}

/// A fixed sequence of calls, accepted and refused, after each of which the
/// invariants are tested on the values.
#[test]
fn invariants_hold_along_a_sequence_of_calls() {
    let dao = address(1);
    let owner = address(9);
    let mut c = TFNLaunchpadContract::init();
    c.config.set_main_dao(dao.clone(), token("GOV-000001")).unwrap();
    c.config.set_dex(address(2)).unwrap();
    c.config.set_digital_identity(address(3));
    c.config.set_state_active().unwrap();
    let sold = ["AAA-000000", "BBB-000000", "CCC-000000"];
    for name in sold {
        c.new_launchpad(
            &dao,
            owner.clone(),
            vec![],
            false,
            token(name),
            token("USDC-c76f1f"),
            3 * ONE,
            2,
            40,
            T0 + 10,
            T0 + 100,
            T0,
        )
        .unwrap();
    }
    // What each launchpad should have raised, by the purchases accepted.
    let mut accepted = [0u128; 3];
    let mut delivered = [0u128; 3];
    let mut step: u64 = 0;
    let mut refused: u32 = 0;
    for round in 0..60u64 {
        let id = round % 3;
        let i = id as usize;
        let buyer = address(10 + (round % 4) as u8);
        if round % 7 == 0 {
            let _ = c.add_tokens(id, &Payment { token: token(sold[i]), amount: 25 }, T0 + step);
        }
        let paid: u128 = (round as u128 * 7) % 50;
        let r = c.buy(id, &buyer, &Payment { token: token("USDC-c76f1f"), amount: paid }, T0 + step);
        match r {
            Ok(t) => {
                assert_eq!(t.amount, paid / 3);
                assert_eq!(t.to, buyer);
                assert_eq!(t.token, token(sold[i]));
                accepted[i] += paid;
                delivered[i] += t.amount;
            }
            Err(_) => refused += 1,
        }
        step += 2;
        assert!(c.config.is_sound());
        for k in 0..3u64 {
            let l = c.config.launchpads(k).unwrap();
            assert!(l.total_sold <= l.amount);
            assert_eq!(l.total_raised, accepted[k as usize]);
            assert_eq!(l.total_sold, delivered[k as usize]);
            let mut held: u128 = 0;
            for user in c.config.launchpad_users(k) {
                let bought = c.config.user_participation(&user, k);
                assert!(bought <= l.max_buy_amount);
                assert!(bought >= l.min_buy_amount);
                held += bought;
            }
            assert_eq!(held, l.total_sold);
        }
    }
    // Something was bought and something was refused.
    assert!(delivered.iter().all(|d| *d > 0));
    assert!(refused > 0);
    let tokens: Vec<TokenId> = (0..3).map(|k| c.config.launchpads(k).unwrap().token).collect();
    assert!(tokens[0] != tokens[1] && tokens[1] != tokens[2] && tokens[0] != tokens[2]);
}

#[test]
fn status_goes_by_window_flag_and_time_alone() {
    let mut a = record(0, "AAA-000000");
    let mut b = record(7, "BBB-000000");
    b.amount = 0;
    b.total_sold = 0;
    b.status = Status::Ended;
    for deployed in [false, true] {
        a.deployed = deployed;
        b.deployed = deployed;
        for now in [0, T0 + 9, T0 + 10, T0 + 50, T0 + 100, T0 + 101, u64::MAX] {
            assert_eq!(a.get_status(now), b.get_status(now));
            assert_eq!(a.get_status(now), a.get_status(now));
        }
    }
    a.deployed = false;
    assert_eq!(a.get_status(T0 + 9), Status::Pending);
    assert_eq!(a.get_status(T0 + 10), Status::Active);
    assert_eq!(a.get_status(T0 + 100), Status::Active);
    assert_eq!(a.get_status(T0 + 101), Status::Ended);
    a.deployed = true;
    assert_eq!(a.get_status(T0 + 9), Status::Pending);
    assert_eq!(a.get_status(T0 + 100), Status::Active);
    assert_eq!(a.get_status(T0 + 101), Status::Deployed);
    // Active for purchases also asks for tokens left.
    assert!(a.is_active(T0 + 10));
    assert!(!a.is_active(T0 + 9));
    assert!(!a.is_active(T0 + 101));
    a.total_sold = a.amount;
    assert!(!a.is_active(T0 + 10));
    assert_eq!(a.get_status(T0 + 10), Status::Active);
}

#[test]
fn settled_stays_settled_whatever_follows() {
    let dao = address(1);
    let owner = address(9);
    let mut c = TFNLaunchpadContract::init();
    c.config.set_main_dao(dao.clone(), token("GOV-000001")).unwrap();
    c.config.set_dex(address(2)).unwrap();
    c.config.set_digital_identity(address(3));
    c.config.set_state_active().unwrap();
    c.new_launchpad(
        &dao,
        owner.clone(),
        vec![],
        false,
        token("AAA-000000"),
        token("USDC-c76f1f"),
        ONE,
        1,
        40,
        T0 + 10,
        T0 + 100,
        T0,
    )
    .unwrap();
    c.add_tokens(0, &Payment { token: token("AAA-000000"), amount: 25 }, T0 + 5).unwrap();
    c.deploy_franchise(0, T0 + 101, address(40)).unwrap();
    let _ = c.whitelist_user(0, &owner, address(7));
    let _ = c.cancel_launchpad(0, &owner);
    let _ = c.add_tokens(0, &Payment { token: token("AAA-000000"), amount: 25 }, T0 + 102);
    let _ = c.buy(0, &address(7), &Payment { token: token("USDC-c76f1f"), amount: 5 }, T0 + 102);
    c.config.set_state_inactive();
    c.config.set_state_active().unwrap();
    assert!(c.config.launchpads(0).unwrap().deployed);
    assert!(c.deploy_franchise(0, T0 + 103, address(41)).is_err());
    assert!(c.settlement(0, T0 + 103).is_err());
    assert!(c.config.is_sound());
}
