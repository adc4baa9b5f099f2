use crate::common::consts::ONE;
use crate::common::errors::LaunchpadError;
use crate::common::ledger::{
    find_user, is_first_of, DeploymentSpec, Ledger, Participation, SaleBook,
};
use crate::common::listing::LaunchpadViewSpec;
use crate::common::math::mul_div_floor;
use crate::common::preserve::lemma_same_launchpads;
use crate::common::types::{
    address_opt, addresses, bytes_copy, contains_address, token_opt, Address, TokenId,
};
use vstd::prelude::*;

verus! {

/// Whether the contract takes calls (`Active`) or is paused (`Inactive`).
#[derive(Clone, Copy, Debug, PartialEq, Eq, Structural)]
pub enum State {
    Inactive,
    Active,
}

/// The phase of a launchpad, derived from the time and its settled flag.
#[derive(Clone, Copy, Debug, PartialEq, Eq, Structural)]
pub enum Status {
    Pending,
    Active,
    Ended,
    Deployed,
}

/// The phase of a launchpad with the given window and settled flag at time
/// `now`. Nothing else enters into it.
pub open spec fn status_of(start_time: u64, end_time: u64, deployed: bool, now: u64) -> Status {
    if now < start_time {
        Status::Pending
    } else if now <= end_time {
        Status::Active
    } else if deployed {
        Status::Deployed
    } else {
        Status::Ended
    }
}

/// The launched tokens, in base units, that `payment` buys at `price`. The
/// quotient is rounded down. The whole payment is kept all the same: what
/// the rounding leaves unspent is not given back.
pub open spec fn token_amount(payment: nat, price: nat) -> nat
    recommends
        price > 0,
{
    mul_div_floor(payment, ONE as nat, price)
}

/// The mathematical value of a [`Launchpad`]: one fixed-price sale of
/// `amount` units of `token` against `payment_token`.
pub struct Sale {
    pub id: nat,
    pub owner: Seq<u8>,
    pub details: Seq<u8>,
    pub kyc_enforced: bool,
    pub token: Seq<u8>,
    /// Units of `token` deposited for sale.
    pub amount: nat,
    pub payment_token: Seq<u8>,
    /// Units of `payment_token` asked for `ONE` units of `token`.
    pub price: nat,
    /// Bounds, both inclusive, on what one buyer holds over the whole sale.
    pub min_buy_amount: nat,
    pub max_buy_amount: nat,
    /// The window, both ends inclusive, in seconds.
    pub start_time: u64,
    pub end_time: u64,
    pub total_raised: nat,
    pub total_sold: nat,
    /// Set once, when the sale is settled.
    pub deployed: bool,
    /// The phase last written into the record; never read by a rule.
    pub status: Status,
}

impl Sale {
    /// Inside the window and with tokens left to sell.
    pub open spec fn is_active(self, now: u64) -> bool {
        self.start_time <= now && now <= self.end_time && self.total_sold < self.amount
    }

    /// The phase at time `now`.
    pub open spec fn status_at(self, now: u64) -> Status {
        status_of(self.start_time, self.end_time, self.deployed, now)
    }

    /// The record with its phase at time `now` written into `status`.
    pub open spec fn with_status(self, now: u64) -> Sale {
        Sale { status: self.status_at(now), ..self }
    }

    /// What holds of every record that the contract keeps.
    pub open spec fn valid(self) -> bool {
        &&& self.price > 0
        &&& self.min_buy_amount <= self.max_buy_amount
        &&& self.start_time < self.end_time
        &&& self.total_sold <= self.amount
    }
}

/// The record of one launchpad.
#[derive(Debug, PartialEq, Eq)]
pub struct Launchpad {
    pub id: u64,
    pub owner: Address,
    /// Descriptive payload, carried along and never interpreted.
    pub details: Vec<u8>,
    pub kyc_enforced: bool,
    pub token: TokenId,
    pub amount: u128,
    pub payment_token: TokenId,
    pub price: u128,
    pub min_buy_amount: u128,
    pub max_buy_amount: u128,
    pub start_time: u64,
    pub end_time: u64,
    pub total_raised: u128,
    pub total_sold: u128,
    pub deployed: bool,
    pub status: Status,
}

impl View for Launchpad {
    type V = Sale;

    open spec fn view(&self) -> Sale {
        Sale {
            id: self.id as nat,
            owner: self.owner@,
            details: self.details@,
            kyc_enforced: self.kyc_enforced,
            token: self.token@,
            amount: self.amount as nat,
            payment_token: self.payment_token@,
            price: self.price as nat,
            min_buy_amount: self.min_buy_amount as nat,
            max_buy_amount: self.max_buy_amount as nat,
            start_time: self.start_time,
            end_time: self.end_time,
            total_raised: self.total_raised as nat,
            total_sold: self.total_sold as nat,
            deployed: self.deployed,
            status: self.status,
        }
    }
}

impl Clone for Launchpad {
    fn clone(&self) -> (r: Self)
        ensures
            r@ == self@,
    {
        Launchpad {
            id: self.id,
            owner: self.owner.clone(),
            details: bytes_copy(&self.details),
            kyc_enforced: self.kyc_enforced,
            token: self.token.clone(),
            amount: self.amount,
            payment_token: self.payment_token.clone(),
            price: self.price,
            min_buy_amount: self.min_buy_amount,
            max_buy_amount: self.max_buy_amount,
            start_time: self.start_time,
            end_time: self.end_time,
            total_raised: self.total_raised,
            total_sold: self.total_sold,
            deployed: self.deployed,
            status: self.status,
        }
    }
}

impl Launchpad {
    /// Whether a purchase can be taken at `current_timestamp`: the window is
    /// open and tokens are left.
    pub fn is_active(&self, current_timestamp: u64) -> (r: bool)
        ensures
            r == self@.is_active(current_timestamp),
    {
        current_timestamp >= self.start_time && current_timestamp <= self.end_time
            && self.total_sold < self.amount
    }

    /// The phase at `current_timestamp`, from the window and the settled
    /// flag alone.
    pub fn get_status(&self, current_timestamp: u64) -> (s: Status)
        ensures
            s == status_of(self.start_time, self.end_time, self.deployed, current_timestamp),
            s == self@.status_at(current_timestamp),
    {
        if current_timestamp < self.start_time {
            Status::Pending
        } else if current_timestamp <= self.end_time {
            Status::Active
        } else if self.deployed {
            Status::Deployed
        } else {
            Status::Ended
        }
    }
}

/// One buyer of a launchpad with what the buyer holds.
#[derive(Debug, PartialEq, Eq)]
pub struct Participant {
    pub user: Address,
    pub bought: u128,
}

impl View for Participant {
    type V = Participation;

    open spec fn view(&self) -> Participation {
        Participation { user: self.user@, bought: self.bought as nat }
    }
}

/// The values of a list of buyers, in order.
pub open spec fn participations(v: Seq<Participant>) -> Seq<Participation> {
    Seq::new(v.len(), |i: int| v[i]@)
}

/// The place of `user` among `users`, if it has one.
pub fn find_participant(users: &Vec<Participant>, user: &Address) -> (r: Option<usize>)
    ensures
        match r {
            Some(i) => find_user(participations(users@), user@) == Some(i as int) && i
                < users.len(),
            None => find_user(participations(users@), user@) is None,
        },
{
    let mut i: usize = 0;
    while i < users.len()
        invariant
            i <= users.len(),
            forall|k: int| 0 <= k < i ==> participations(users@)[k].user != user@,
        decreases users.len() - i,
    {
        if users[i].user.same_as(user) {
            proof {
                let s = participations(users@);
                assert(is_first_of(s, user@, i as int));
                let j = choose|j: int| is_first_of(s, user@, j);
                assert(j == i);
            }
            return Some(i);
        }
        i += 1;
    }
    proof {
        let s = participations(users@);
        assert(forall|j: int| !is_first_of(s, user@, j));
    }
    None
}

/// A launchpad with its approved addresses and its buyers.
#[derive(Debug, PartialEq, Eq)]
pub struct LaunchpadBook {
    pub launchpad: Launchpad,
    pub whitelisted_users: Vec<Address>,
    pub users: Vec<Participant>,
}

impl View for LaunchpadBook {
    type V = SaleBook;

    open spec fn view(&self) -> SaleBook {
        SaleBook {
            sale: self.launchpad@,
            whitelisted_users: addresses(self.whitelisted_users@),
            users: participations(self.users@),
        }
    }
}

impl LaunchpadBook {
    /// What `user` holds in this launchpad: zero before the first purchase.
    pub fn bought(&self, user: &Address) -> (r: u128)
        ensures
            r == self@.bought(user@),
    {
        match find_participant(&self.users, user) {
            Some(i) => self.users[i].bought,
            None => 0,
        }
    }

    /// Whether `user` may buy in this launchpad.
    pub fn is_whitelisted(&self, user: &Address) -> (r: bool)
        ensures
            r == self@.is_whitelisted(user@),
    {
        !self.launchpad.kyc_enforced || contains_address(&self.whitelisted_users, user)
    }
}

/// A launchpad as one address sees it: what the address holds in it,
/// whether it may buy, and the record with its phase at the time of asking.
#[derive(Debug, PartialEq, Eq)]
pub struct LaunchpadView {
    pub bought: u128,
    pub whitelisted: bool,
    pub launchpad: Launchpad,
}

impl View for LaunchpadView {
    type V = LaunchpadViewSpec;

    open spec fn view(&self) -> LaunchpadViewSpec {
        LaunchpadViewSpec {
            bought: self.bought as nat,
            whitelisted: self.whitelisted,
            launchpad: self.launchpad@,
        }
    }
}

/// The values of a list of records, in order.
pub open spec fn sales(v: Seq<Launchpad>) -> Seq<Sale> {
    Seq::new(v.len(), |i: int| v[i]@)
}

/// The values of a page of launchpads, in order.
pub open spec fn launchpad_views(v: Seq<LaunchpadView>) -> Seq<LaunchpadViewSpec> {
    Seq::new(v.len(), |i: int| v[i]@)
}

/// The values of the launchpads kept, by id.
pub open spec fn books(v: Seq<Option<LaunchpadBook>>) -> Seq<Option<SaleBook>> {
    Seq::new(
        v.len(),
        |i: int|
            match v[i] {
                Some(b) => Some(b@),
                None => None,
            },
    )
}

/// The address of a deployed franchise with the id of its launchpad.
#[derive(Debug, PartialEq, Eq)]
pub struct Deployment {
    pub address: Address,
    pub id: u64,
}

impl View for Deployment {
    type V = DeploymentSpec;

    open spec fn view(&self) -> DeploymentSpec {
        DeploymentSpec { address: self.address@, id: self.id as nat }
    }
}

/// The values of the deployments recorded, in order.
pub open spec fn deployments(v: Seq<Deployment>) -> Seq<DeploymentSpec> {
    Seq::new(v.len(), |i: int| v[i]@)
}

/// Everything the contract keeps: its settings, the launchpads by id, and
/// the franchises deployed. Its view is the [`Ledger`].
#[derive(Debug, PartialEq, Eq)]
pub struct ConfigModule {
    pub state: State,
    pub main_dao: Option<Address>,
    pub platform: Option<Address>,
    pub digital_identity: Option<Address>,
    pub governance_token: Option<TokenId>,
    pub dex_sc: Option<Address>,
    pub launchpads: Vec<Option<LaunchpadBook>>,
    pub deployed_launchpads: Vec<Deployment>,
}

impl View for ConfigModule {
    type V = Ledger;

    open spec fn view(&self) -> Ledger {
        Ledger {
            state: self.state,
            main_dao: address_opt(self.main_dao),
            platform: address_opt(self.platform),
            digital_identity: address_opt(self.digital_identity),
            governance_token: token_opt(self.governance_token),
            dex_sc: address_opt(self.dex_sc),
            launchpads: books(self.launchpads@),
            deployed_launchpads: deployments(self.deployed_launchpads@),
        }
    }
}

impl ConfigModule {
    /// Whether the contract is in a state that its operations keep: see
    /// [`Ledger::inv`].
    pub open spec fn wf(&self) -> bool {
        self@.inv()
    }

    /// Whether `caller` is the main DAO.
    pub fn only_dao(&self, caller: &Address) -> (r: bool)
        ensures
            r == (self@.main_dao == Some(caller@)),
    {
        match &self.main_dao {
            Some(dao) => dao.same_as(caller),
            None => false,
        }
    }

    /// Whether launchpad `id` is kept and `caller` owns it: else the reason.
    pub fn only_launchpad_owner(&self, id: u64, caller: &Address) -> (r: Result<
        (),
        LaunchpadError,
    >)
        ensures
            r == (if !self@.has(id as nat) {
                Err::<(), LaunchpadError>(LaunchpadError::SaleNotFound)
            } else if caller@ != self@.sale(id as nat).owner {
                Err(LaunchpadError::OnlyLaunchpadOwner)
            } else {
                Ok(())
            }),
    {
        if id >= self.launchpads.len() as u64 {
            return Err(LaunchpadError::SaleNotFound);
        }
        match &self.launchpads[id as usize] {
            None => Err(LaunchpadError::SaleNotFound),
            Some(book) => {
                if book.launchpad.owner.same_as(caller) {
                    Ok(())
                } else {
                    Err(LaunchpadError::OnlyLaunchpadOwner)
                }
            },
        }
    }

    /// Lets the contract take calls, once the main DAO, the exchange and the
    /// digital-identity contract are set.
    pub fn set_state_active(&mut self) -> (r: Result<(), LaunchpadError>)
        ensures
            r == old(self)@.set_state_active_result(),
            final(self)@ == old(self)@.set_state_active(),
            old(self).wf() ==> final(self).wf(),
    {
        if self.main_dao.is_none() {
            return Err(LaunchpadError::DaoNotSet);
        }
        if self.dex_sc.is_none() {
            return Err(LaunchpadError::DexNotSet);
        }
        if self.digital_identity.is_none() {
            return Err(LaunchpadError::DigitalIdentityNotSet);
        }
        self.state = State::Active;
        proof {
            if old(self).wf() {
                lemma_same_launchpads(old(self)@, self@);
            }
        }
        Ok(())
    }

    /// Pauses the contract.
    pub fn set_state_inactive(&mut self)
        ensures
            final(self)@ == old(self)@.set_state_inactive(),
            old(self).wf() ==> final(self).wf(),
    {
        self.state = State::Inactive;
        proof {
            if old(self).wf() {
                lemma_same_launchpads(old(self)@, self@);
            }
        }
    }

    /// Makes `caller` the main DAO, with the token that it governs by. The
    /// main DAO is set once: a second request is refused.
    pub fn set_main_dao(&mut self, caller: Address, governance_token: TokenId) -> (r: Result<
        (),
        LaunchpadError,
    >)
        ensures
            r == (if old(self)@.main_dao is None {
                Ok::<(), LaunchpadError>(())
            } else {
                Err(LaunchpadError::DaoAlreadySet)
            }),
            final(self)@ == old(self)@.set_main_dao(caller@, governance_token@),
            old(self).wf() ==> final(self).wf(),
    {
        if self.main_dao.is_some() {
            return Err(LaunchpadError::DaoAlreadySet);
        }
        self.main_dao = Some(caller);
        self.governance_token = Some(governance_token);
        proof {
            if old(self).wf() {
                lemma_same_launchpads(old(self)@, self@);
            }
        }
        Ok(())
    }

    /// Sets the digital-identity contract, unless one is set: then nothing
    /// changes.
    pub fn set_digital_identity(&mut self, address: Address)
        ensures
            final(self)@ == old(self)@.set_digital_identity(address@),
            old(self).wf() ==> final(self).wf(),
    {
        if self.digital_identity.is_some() {
            return ;
        }
        self.digital_identity = Some(address);
        proof {
            if old(self).wf() {
                lemma_same_launchpads(old(self)@, self@);
            }
        }
    }

    /// Sets the exchange. It is set once: a second request is refused.
    pub fn set_dex(&mut self, address: Address) -> (r: Result<(), LaunchpadError>)
        ensures
            r == (if old(self)@.dex_sc is None {
                Ok::<(), LaunchpadError>(())
            } else {
                Err(LaunchpadError::DexAlreadySet)
            }),
            final(self)@ == old(self)@.set_dex(address@),
            old(self).wf() ==> final(self).wf(),
    {
        if self.dex_sc.is_some() {
            return Err(LaunchpadError::DexAlreadySet);
        }
        self.dex_sc = Some(address);
        proof {
            if old(self).wf() {
                lemma_same_launchpads(old(self)@, self@);
            }
        }
        Ok(())
    }

    /// Keeps the platform's address, unless one is kept: then nothing
    /// changes.
    pub fn set_platform(&mut self, address: Address)
        ensures
            final(self)@ == old(self)@.set_platform(address@),
            old(self).wf() ==> final(self).wf(),
    {
        if self.platform.is_some() {
            return ;
        }
        self.platform = Some(address);
        proof {
            if old(self).wf() {
                lemma_same_launchpads(old(self)@, self@);
            }
        }
    }

    /// The contract before its first call: paused, nothing set, no launchpad.
    pub fn new() -> (c: ConfigModule)
        ensures
            c@ == Ledger::init(),
            c.wf(),
    {
        let c = ConfigModule {
            state: State::Inactive,
            main_dao: None,
            platform: None,
            digital_identity: None,
            governance_token: None,
            dex_sc: None,
            launchpads: Vec::new(),
            deployed_launchpads: Vec::new(),
        };
        assert(c@.launchpads =~= Seq::empty());
        assert(c@.deployed_launchpads =~= Seq::empty());
        c
    }
}

} // verus!
