use crate::common::config::{token_amount, Sale, State, Status};
use crate::common::errors::LaunchpadError;
use crate::common::types::{PaymentSpec, SettlementSpec, TransferSpec};
use vstd::prelude::*;

verus! {

/// What one buyer holds in one launchpad.
pub struct Participation {
    pub user: Seq<u8>,
    pub bought: nat,
}

/// Whether `i` is the first place of `user` in `users`.
pub open spec fn is_first_of(users: Seq<Participation>, user: Seq<u8>, i: int) -> bool {
    &&& 0 <= i < users.len()
    &&& users[i].user == user
    &&& forall|k: int| 0 <= k < i ==> users[k].user != user
}

/// The first place of `user` in `users`, if it has one.
pub open spec fn find_user(users: Seq<Participation>, user: Seq<u8>) -> Option<int> {
    if exists|i: int| is_first_of(users, user, i) {
        Some(choose|i: int| is_first_of(users, user, i))
    } else {
        None
    }
}

/// What the buyers in `users` hold together.
pub open spec fn held_total(users: Seq<Participation>) -> nat
    decreases users.len(),
{
    if users.len() == 0 {
        0
    } else {
        held_total(users.drop_last()) + users.last().bought
    }
}

/// A launchpad with what the contract keeps beside its record: the
/// addresses approved to buy, and the buyers with what each holds, both in
/// the order in which they came.
pub struct SaleBook {
    pub sale: Sale,
    pub whitelisted_users: Seq<Seq<u8>>,
    pub users: Seq<Participation>,
}

impl SaleBook {
    /// Whether `user` may buy: always where the launchpad asks for no
    /// approval, else only when on its list.
    pub open spec fn is_whitelisted(self, user: Seq<u8>) -> bool {
        !self.sale.kyc_enforced || self.whitelisted_users.contains(user)
    }

    /// What `user` holds: zero before the first purchase.
    pub open spec fn bought(self, user: Seq<u8>) -> nat {
        match find_user(self.users, user) {
            Some(i) => self.users[i].bought,
            None => 0,
        }
    }

    /// The buyers with `amount` more for `user`.
    pub open spec fn credit(self, user: Seq<u8>, amount: nat) -> Seq<Participation> {
        match find_user(self.users, user) {
            Some(i) => self.users.update(
                i,
                Participation { user, bought: self.users[i].bought + amount },
            ),
            None => self.users.push(Participation { user, bought: amount }),
        }
    }

    /// The approved addresses with `user` among them.
    pub open spec fn approve(self, user: Seq<u8>) -> Seq<Seq<u8>> {
        if self.whitelisted_users.contains(user) {
            self.whitelisted_users
        } else {
            self.whitelisted_users.push(user)
        }
    }

    /// What holds of every launchpad that the contract keeps: a sound
    /// record, no address listed twice, every buyer within the bounds, and
    /// what was sold is what the buyers hold together.
    pub open spec fn valid(self) -> bool {
        &&& self.sale.valid()
        &&& held_total(self.users) == self.sale.total_sold
        &&& forall|i: int, j: int|
            0 <= i < j < self.whitelisted_users.len() ==> self.whitelisted_users[i]
                != self.whitelisted_users[j]
        &&& forall|i: int, j: int|
            0 <= i < j < self.users.len() ==> (#[trigger] self.users[i]).user != (
            #[trigger] self.users[j]).user
        &&& forall|i: int|
            0 <= i < self.users.len() ==> self.sale.min_buy_amount <= (
            #[trigger] self.users[i]).bought <= self.sale.max_buy_amount
    }
}

/// A franchise address with the launchpad it was deployed for.
pub struct DeploymentSpec {
    pub address: Seq<u8>,
    pub id: nat,
}

/// Whether `i` is the first place of `address` in `list`.
pub open spec fn is_first_deployment(list: Seq<DeploymentSpec>, address: Seq<u8>, i: int) -> bool {
    &&& 0 <= i < list.len()
    &&& list[i].address == address
    &&& forall|k: int| 0 <= k < i ==> list[k].address != address
}

/// The launchpad for which the franchise at `address` was deployed, by the
/// list of deployments.
pub open spec fn deployed_id(list: Seq<DeploymentSpec>, address: Seq<u8>) -> Option<nat> {
    if exists|i: int| is_first_deployment(list, address, i) {
        Some(list[choose|i: int| is_first_deployment(list, address, i)].id)
    } else {
        None
    }
}

/// The list of deployments with `address` standing for launchpad `id`: an
/// address that is listed keeps its place.
pub open spec fn record_deployment(list: Seq<DeploymentSpec>, address: Seq<u8>, id: nat) -> Seq<
    DeploymentSpec,
> {
    if exists|i: int| is_first_deployment(list, address, i) {
        list.update(
            choose|i: int| is_first_deployment(list, address, i),
            DeploymentSpec { address, id },
        )
    } else {
        list.push(DeploymentSpec { address, id })
    }
}

/// The mathematical value of the whole contract.
pub struct Ledger {
    pub state: State,
    pub main_dao: Option<Seq<u8>>,
    pub platform: Option<Seq<u8>>,
    pub digital_identity: Option<Seq<u8>>,
    pub governance_token: Option<Seq<u8>>,
    pub dex_sc: Option<Seq<u8>>,
    /// The launchpads by id; `None` where a launchpad was cancelled. The
    /// length is the next id to give out.
    pub launchpads: Seq<Option<SaleBook>>,
    /// The franchises deployed, in the order of their deployment.
    pub deployed_launchpads: Seq<DeploymentSpec>,
}

/// The payments due when `sale` is settled: what was raised, then what was
/// left unsold, each only if it is not zero.
pub open spec fn settlement_payments(sale: Sale) -> Seq<PaymentSpec> {
    let raised = if sale.total_raised > 0 {
        seq![PaymentSpec { token: sale.payment_token, amount: sale.total_raised }]
    } else {
        Seq::<PaymentSpec>::empty()
    };
    if sale.amount > sale.total_sold {
        raised.push(
            PaymentSpec { token: sale.token, amount: (sale.amount - sale.total_sold) as nat },
        )
    } else {
        raised
    }
}

/// The launchpad that `owner` asks for, as it is first written under `id`.
pub open spec fn new_sale(
    id: nat,
    owner: Seq<u8>,
    details: Seq<u8>,
    kyc_enforced: bool,
    token: Seq<u8>,
    payment_token: Seq<u8>,
    price: nat,
    min_buy_amount: nat,
    max_buy_amount: nat,
    start_time: u64,
    end_time: u64,
) -> Sale {
    Sale {
        id,
        owner,
        details,
        kyc_enforced,
        token,
        amount: 0,
        payment_token,
        price,
        min_buy_amount,
        max_buy_amount,
        start_time,
        end_time,
        total_raised: 0,
        total_sold: 0,
        deployed: false,
        status: Status::Pending,
    }
}

impl Ledger {
    /// The contract before its first call.
    pub open spec fn init() -> Ledger {
        Ledger {
            state: State::Inactive,
            main_dao: None,
            platform: None,
            digital_identity: None,
            governance_token: None,
            dex_sc: None,
            launchpads: Seq::empty(),
            deployed_launchpads: Seq::empty(),
        }
    }

    /// The next id to give out.
    pub open spec fn last_launchpad_id(self) -> nat {
        self.launchpads.len()
    }

    /// Whether a launchpad is kept under `id`.
    pub open spec fn has(self, id: nat) -> bool {
        id < self.launchpads.len() && self.launchpads[id as int] is Some
    }

    pub open spec fn book(self, id: nat) -> SaleBook
        recommends
            self.has(id),
    {
        self.launchpads[id as int]->0
    }

    pub open spec fn sale(self, id: nat) -> Sale
        recommends
            self.has(id),
    {
        self.book(id).sale
    }

    /// Whether a launchpad that is kept sells `token`.
    pub open spec fn token_launched(self, token: Seq<u8>) -> bool {
        exists|id: nat| #[trigger] self.has(id) && self.sale(id).token == token
    }

    /// The ledger with `book` under `id`.
    pub open spec fn with_book(self, id: nat, book: SaleBook) -> Ledger
        recommends
            id < self.launchpads.len(),
    {
        Ledger { launchpads: self.launchpads.update(id as int, Some(book)), ..self }
    }

    /// What holds of the contract at all times: each launchpad is sound and
    /// stands under its own id, and no two of them sell the same token.
    pub open spec fn inv(self) -> bool {
        &&& forall|id: nat| #[trigger]
            self.has(id) ==> self.book(id).valid() && self.sale(id).id == id
        &&& forall|i: nat, j: nat|
            #[trigger] self.has(i) && #[trigger] self.has(j) && i != j ==> self.sale(i).token
                != self.sale(j).token
    }

    // ---- new_launchpad ----

    /// The answer to a request of `caller` at time `now` to open the
    /// launchpad `sale`: the errors in the order in which they are tested,
    /// else the id given to it.
    pub open spec fn new_launchpad_result(self, caller: Seq<u8>, sale: Sale, now: u64) -> Result<
        nat,
        LaunchpadError,
    > {
        if self.state != State::Active {
            Err(LaunchpadError::NotActive)
        } else if self.main_dao != Some(caller) {
            Err(LaunchpadError::OnlyMainDao)
        } else if sale.price == 0 {
            Err(LaunchpadError::InvalidPrice)
        } else if sale.min_buy_amount > sale.max_buy_amount {
            Err(LaunchpadError::InvalidQuota)
        } else if sale.start_time <= now || sale.end_time <= sale.start_time {
            Err(LaunchpadError::InvalidWindow)
        } else if self.token_launched(sale.token) {
            Err(LaunchpadError::TokenAlreadyLaunched)
        } else {
            Ok(self.launchpads.len())
        }
    }

    /// The contract after that request.
    pub open spec fn new_launchpad(self, caller: Seq<u8>, sale: Sale, now: u64) -> Ledger {
        if self.new_launchpad_result(caller, sale, now) is Ok {
            Ledger {
                launchpads: self.launchpads.push(
                    Some(
                        SaleBook {
                            sale,
                            whitelisted_users: Seq::empty(),
                            users: Seq::empty(),
                        },
                    ),
                ),
                ..self
            }
        } else {
            self
        }
    }

    // ---- add_tokens ----

    /// The answer to a deposit of `payment` into launchpad `id` at `now`.
    pub open spec fn add_tokens_result(self, id: nat, payment: PaymentSpec, now: u64) -> Result<
        (),
        LaunchpadError,
    > {
        if self.state != State::Active {
            Err(LaunchpadError::NotActive)
        } else if !self.has(id) {
            Err(LaunchpadError::SaleNotFound)
        } else if now >= self.sale(id).end_time {
            Err(LaunchpadError::WindowClosed)
        } else if payment.token != self.sale(id).token {
            Err(LaunchpadError::WrongToken)
        } else if self.sale(id).amount + payment.amount > u128::MAX {
            Err(LaunchpadError::AmountOverflow)
        } else {
            Ok(())
        }
    }

    /// The contract after that deposit.
    pub open spec fn add_tokens(self, id: nat, payment: PaymentSpec, now: u64) -> Ledger {
        if self.add_tokens_result(id, payment, now) is Ok {
            self.with_book(
                id,
                SaleBook {
                    sale: Sale { amount: self.sale(id).amount + payment.amount, ..self.sale(id) },
                    ..self.book(id)
                },
            )
        } else {
            self
        }
    }

    // ---- cancel_launchpad ----

    /// The answer to a request of `caller` to cancel launchpad `id`: on
    /// success the refund of the deposit to the owner, if there is one.
    pub open spec fn cancel_launchpad_result(self, id: nat, caller: Seq<u8>) -> Result<
        Option<TransferSpec>,
        LaunchpadError,
    > {
        if self.state != State::Active {
            Err(LaunchpadError::NotActive)
        } else if !self.has(id) {
            Err(LaunchpadError::SaleNotFound)
        } else if caller != self.sale(id).owner {
            Err(LaunchpadError::OnlyLaunchpadOwner)
        } else if self.sale(id).total_sold > 0 {
            Err(LaunchpadError::CannotCancelAfterSales)
        } else if self.sale(id).deployed {
            Err(LaunchpadError::AlreadySettled)
        } else if self.sale(id).amount > 0 {
            Ok(
                Some(
                    TransferSpec {
                        to: self.sale(id).owner,
                        token: self.sale(id).token,
                        amount: self.sale(id).amount,
                    },
                ),
            )
        } else {
            Ok(None)
        }
    }

    /// The contract after that request: the launchpad is gone with its
    /// lists, and its id is given out again if it was the last one given.
    pub open spec fn cancel_launchpad(self, id: nat, caller: Seq<u8>) -> Ledger {
        if self.cancel_launchpad_result(id, caller) is Ok {
            if id + 1 == self.launchpads.len() {
                Ledger { launchpads: self.launchpads.drop_last(), ..self }
            } else {
                Ledger { launchpads: self.launchpads.update(id as int, None), ..self }
            }
        } else {
            self
        }
    }

    // ---- whitelist_user ----

    /// The answer to a request of `caller` to approve a buyer of launchpad
    /// `id`.
    pub open spec fn whitelist_user_result(self, id: nat, caller: Seq<u8>) -> Result<
        (),
        LaunchpadError,
    > {
        if self.state != State::Active {
            Err(LaunchpadError::NotActive)
        } else if !self.has(id) {
            Err(LaunchpadError::SaleNotFound)
        } else if caller != self.sale(id).owner {
            Err(LaunchpadError::OnlyLaunchpadOwner)
        } else {
            Ok(())
        }
    }

    /// The contract after `caller` asked to approve `user` as a buyer of
    /// launchpad `id`.
    pub open spec fn whitelist_user(self, id: nat, caller: Seq<u8>, user: Seq<u8>) -> Ledger {
        if self.whitelist_user_result(id, caller) is Ok {
            self.with_book(
                id,
                SaleBook { whitelisted_users: self.book(id).approve(user), ..self.book(id) },
            )
        } else {
            self
        }
    }

    // ---- buy ----

    /// The tokens that `payment` buys in launchpad `id`.
    pub open spec fn bought_for(self, id: nat, payment: PaymentSpec) -> nat
        recommends
            self.has(id),
    {
        token_amount(payment.amount, self.sale(id).price)
    }

    /// The answer to a purchase by `caller`, who sends `payment`, in
    /// launchpad `id` at `now`: the errors in the order in which they are
    /// tested, else the tokens to hand to the buyer.
    pub open spec fn buy_result(self, id: nat, caller: Seq<u8>, payment: PaymentSpec, now: u64)
        -> Result<TransferSpec, LaunchpadError> {
        if self.state != State::Active {
            Err(LaunchpadError::NotActive)
        } else if !self.has(id) {
            Err(LaunchpadError::SaleNotFound)
        } else if !self.sale(id).is_active(now) {
            Err(LaunchpadError::SaleInactive)
        } else if payment.token != self.sale(id).payment_token {
            Err(LaunchpadError::WrongToken)
        } else if !self.book(id).is_whitelisted(caller) {
            Err(LaunchpadError::NotWhitelisted)
        } else if self.book(id).bought(caller) + self.bought_for(id, payment) < self.sale(
            id,
        ).min_buy_amount {
            Err(LaunchpadError::BelowMinimum)
        } else if self.book(id).bought(caller) + self.bought_for(id, payment) > self.sale(
            id,
        ).max_buy_amount {
            Err(LaunchpadError::AboveMaximum)
        } else if self.sale(id).total_sold + self.bought_for(id, payment) > self.sale(id).amount {
            Err(LaunchpadError::InsufficientInventory)
        } else if self.sale(id).total_raised + payment.amount > u128::MAX {
            Err(LaunchpadError::AmountOverflow)
        } else {
            Ok(
                TransferSpec {
                    to: caller,
                    token: self.sale(id).token,
                    amount: self.bought_for(id, payment),
                },
            )
        }
    }

    /// The contract after that purchase: the whole payment is added to what
    /// was raised, and the tokens bought to what was sold and to what the
    /// buyer holds.
    pub open spec fn buy(self, id: nat, caller: Seq<u8>, payment: PaymentSpec, now: u64)
        -> Ledger {
        if self.buy_result(id, caller, payment, now) is Ok {
            self.with_book(
                id,
                SaleBook {
                    sale: Sale {
                        total_raised: self.sale(id).total_raised + payment.amount,
                        total_sold: self.sale(id).total_sold + self.bought_for(id, payment),
                        ..self.sale(id)
                    },
                    users: self.book(id).credit(caller, self.bought_for(id, payment)),
                    ..self.book(id)
                },
            )
        } else {
            self
        }
    }

    // ---- deploy_franchise ----

    /// The answer to a request to settle launchpad `id` at `now`: on
    /// success what is paid out.
    pub open spec fn settlement(self, id: nat, now: u64) -> Result<
        SettlementSpec,
        LaunchpadError,
    > {
        if self.state != State::Active {
            Err(LaunchpadError::NotActive)
        } else if !self.has(id) {
            Err(LaunchpadError::SaleNotFound)
        } else if now <= self.sale(id).end_time {
            Err(LaunchpadError::WindowNotEnded)
        } else if self.sale(id).deployed {
            Err(LaunchpadError::AlreadySettled)
        } else {
            Ok(
                SettlementSpec {
                    owner: self.sale(id).owner,
                    token: self.sale(id).token,
                    details: self.sale(id).details,
                    payments: settlement_payments(self.sale(id)),
                },
            )
        }
    }

    /// The contract after launchpad `id` was settled at `now` into the
    /// franchise at `address`.
    pub open spec fn deploy_franchise(self, id: nat, now: u64, address: Seq<u8>) -> Ledger {
        if self.settlement(id, now) is Ok {
            Ledger {
                deployed_launchpads: record_deployment(self.deployed_launchpads, address, id),
                ..self.with_book(
                    id,
                    SaleBook { sale: Sale { deployed: true, ..self.sale(id) }, ..self.book(id) },
                )
            }
        } else {
            self
        }
    }

    // ---- administration ----

    /// The contract with every launchpad gone, and paused.
    pub open spec fn clear_storage(self) -> Ledger {
        Ledger { launchpads: Seq::empty(), state: State::Inactive, ..self }
    }

    /// The answer to a request to take calls again.
    pub open spec fn set_state_active_result(self) -> Result<(), LaunchpadError> {
        if self.main_dao is None {
            Err(LaunchpadError::DaoNotSet)
        } else if self.dex_sc is None {
            Err(LaunchpadError::DexNotSet)
        } else if self.digital_identity is None {
            Err(LaunchpadError::DigitalIdentityNotSet)
        } else {
            Ok(())
        }
    }

    pub open spec fn set_state_active(self) -> Ledger {
        if self.set_state_active_result() is Ok {
            Ledger { state: State::Active, ..self }
        } else {
            self
        }
    }

    pub open spec fn set_state_inactive(self) -> Ledger {
        Ledger { state: State::Inactive, ..self }
    }

    /// The contract after `caller` made itself the main DAO, with the token
    /// that it governs by: both are set together, and only once.
    pub open spec fn set_main_dao(self, caller: Seq<u8>, governance_token: Seq<u8>) -> Ledger {
        if self.main_dao is None {
            Ledger { main_dao: Some(caller), governance_token: Some(governance_token), ..self }
        } else {
            self
        }
    }

    /// The contract after a request to set the digital-identity contract:
    /// the first one stays.
    pub open spec fn set_digital_identity(self, address: Seq<u8>) -> Ledger {
        if self.digital_identity is None {
            Ledger { digital_identity: Some(address), ..self }
        } else {
            self
        }
    }

    /// The contract after a request to set the exchange: only once.
    pub open spec fn set_dex(self, address: Seq<u8>) -> Ledger {
        if self.dex_sc is None {
            Ledger { dex_sc: Some(address), ..self }
        } else {
            self
        }
    }

    /// The contract after the platform's address was learnt: the first one
    /// stays.
    pub open spec fn set_platform(self, address: Seq<u8>) -> Ledger {
        if self.platform is None {
            Ledger { platform: Some(address), ..self }
        } else {
            self
        }
    }
}

} // verus!
