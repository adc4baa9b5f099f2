use crate::common::config::{
    deployments, find_participant, ConfigModule, Deployment, Launchpad, LaunchpadBook,
    Participant, Sale, State, Status,
};
use crate::common::consts::ONE;
use crate::common::errors::{answers, LaunchpadError};
use crate::common::ledger::{
    find_user, is_first_deployment, new_sale, record_deployment, settlement_payments, Ledger,
    SaleBook,
};
use crate::common::math::mul_div;
use crate::common::preserve::{
    lemma_add_tokens_inv, lemma_buy_inv, lemma_cancel_launchpad_inv, lemma_deploy_franchise_inv,
    lemma_new_launchpad_inv, lemma_whitelist_user_inv,
};
use crate::common::types::{
    bytes_copy, contains_address, payments, Address, Payment, Settlement, TokenId, Transfer,
    TransferSpec,
};
use vstd::prelude::*;

verus! {

/// The launchpad contract: the settings and launchpads it keeps, with the
/// operations that change them.
#[derive(Debug, PartialEq, Eq)]
pub struct TFNLaunchpadContract {
    pub config: ConfigModule,
}

impl View for TFNLaunchpadContract {
    type V = Ledger;

    open spec fn view(&self) -> Ledger {
        self.config@
    }
}

/// Whether the answer `r` is the id `expected`, or the error `expected`.
pub open spec fn answers_id(
    r: Result<u64, LaunchpadError>,
    expected: Result<nat, LaunchpadError>,
) -> bool {
    match r {
        Ok(id) => expected == Ok::<nat, LaunchpadError>(id as nat),
        Err(e) => expected == Err::<nat, LaunchpadError>(e),
    }
}

/// Whether the answer `r` is the refund `expected`, if there is one, or the
/// error `expected`.
pub open spec fn answers_refund(
    r: Result<Option<Transfer>, LaunchpadError>,
    expected: Result<Option<TransferSpec>, LaunchpadError>,
) -> bool {
    match r {
        Ok(Some(t)) => expected == Ok::<Option<TransferSpec>, LaunchpadError>(Some(t@)),
        Ok(None) => expected == Ok::<Option<TransferSpec>, LaunchpadError>(None),
        Err(e) => expected == Err::<Option<TransferSpec>, LaunchpadError>(e),
    }
}

impl TFNLaunchpadContract {
    /// Whether the contract is in a state that its operations keep: see
    /// [`Ledger::inv`]. It is so from [`TFNLaunchpadContract::init`] on.
    pub open spec fn wf(&self) -> bool {
        self.config.wf()
    }

    /// The contract before its first call.
    pub fn init() -> (c: TFNLaunchpadContract)
        ensures
            c@ == Ledger::init(),
            c.wf(),
    {
        TFNLaunchpadContract { config: ConfigModule::new() }
    }


    /// Opens a launchpad for `owner` on the request of `caller`, which must
    /// be the main DAO, at time `now`. The launchpad starts with nothing to
    /// sell: tokens are added afterwards. The answer is its id.
    pub fn new_launchpad(
        &mut self,
        caller: &Address,
        owner: Address,
        details: Vec<u8>,
        kyc_enforced: bool,
        token: TokenId,
        payment_token: TokenId,
        price: u128,
        min_buy_amount: u128,
        max_buy_amount: u128,
        start_time: u64,
        end_time: u64,
        now: u64,
    ) -> (r: Result<u64, LaunchpadError>)
        requires
            old(self).wf(),
        ensures
            final(self).wf(),
            ({
                let sale = new_sale(
                    old(self)@.last_launchpad_id(),
                    owner@,
                    details@,
                    kyc_enforced,
                    token@,
                    payment_token@,
                    price as nat,
                    min_buy_amount as nat,
                    max_buy_amount as nat,
                    start_time,
                    end_time,
                );
                &&& final(self)@ == old(self)@.new_launchpad(caller@, sale, now)
                &&& answers_id(r, old(self)@.new_launchpad_result(caller@, sale, now))
            }),
    {
        if self.config.state != State::Active {
            return Err(LaunchpadError::NotActive);
        }
        if !self.config.only_dao(caller) {
            return Err(LaunchpadError::OnlyMainDao);
        }
        if price == 0 {
            return Err(LaunchpadError::InvalidPrice);
        }
        if min_buy_amount > max_buy_amount {
            return Err(LaunchpadError::InvalidQuota);
        }
        if start_time <= now || end_time <= start_time {
            return Err(LaunchpadError::InvalidWindow);
        }
        if self.config.is_token_launched(&token) {
            return Err(LaunchpadError::TokenAlreadyLaunched);
        }
        let id: u64 = self.config.launchpads.len() as u64;
        let launchpad = Launchpad {
            id,
            owner,
            details,
            kyc_enforced,
            token,
            amount: 0,
            payment_token,
            price,
            min_buy_amount,
            max_buy_amount,
            start_time,
            end_time,
            total_raised: 0,
            total_sold: 0,
            deployed: false,
            status: Status::Pending,
        };
        proof {
            lemma_new_launchpad_inv(old(self)@, caller@, launchpad@, now);
        }
        let book = LaunchpadBook { launchpad, whitelisted_users: Vec::new(), users: Vec::new() };
        assert(book@.whitelisted_users =~= Seq::empty());
        assert(book@.users =~= Seq::empty());
        self.config.launchpads.push(Some(book));
        assert(self@.launchpads =~= old(self)@.launchpads.push(Some(book@)));
        Ok(id)
    }

    /// Adds the tokens of `payment` to what launchpad `id` has to sell, at
    /// time `now`: as long as its window has not ended, and only its own
    /// token.
    pub fn add_tokens(&mut self, id: u64, payment: &Payment, now: u64) -> (r: Result<
        (),
        LaunchpadError,
    >)
        requires
            old(self).wf(),
        ensures
            final(self).wf(),
            final(self)@ == old(self)@.add_tokens(id as nat, payment@, now),
            r == old(self)@.add_tokens_result(id as nat, payment@, now),
    {
        if self.config.state != State::Active {
            return Err(LaunchpadError::NotActive);
        }
        if id >= self.config.launchpads.len() as u64 {
            return Err(LaunchpadError::SaleNotFound);
        }
        let idx: usize = id as usize;
        let book = match &self.config.launchpads[idx] {
            None => {
                return Err(LaunchpadError::SaleNotFound);
            },
            Some(book) => book,
        };
        assert(self@.has(id as nat) && self@.book(id as nat) == book@);
        if book.launchpad.end_time <= now {
            return Err(LaunchpadError::WindowClosed);
        }
        if !payment.token.same_as(&book.launchpad.token) {
            return Err(LaunchpadError::WrongToken);
        }
        if payment.amount > u128::MAX - book.launchpad.amount {
            return Err(LaunchpadError::AmountOverflow);
        }
        match &mut self.config.launchpads[idx] {
            Some(book) => {
                book.launchpad.amount = book.launchpad.amount + payment.amount;
            },
            None => {},
        }
        proof {
            lemma_add_tokens_inv(old(self)@, id as nat, payment@, now);
            assert(self@.launchpads =~= old(self)@.add_tokens(id as nat, payment@, now).launchpads);
        }
        Ok(())
    }

    /// Cancels launchpad `id` on the request of `caller`, its owner, as long
    /// as nothing was sold and it was not settled: what was left unsold is
    /// paid out once, by the one or by the other. The launchpad is removed
    /// with its lists, and its token can be launched again. The answer is
    /// the refund of the tokens deposited, if there are any.
    pub fn cancel_launchpad(&mut self, id: u64, caller: &Address) -> (r: Result<
        Option<Transfer>,
        LaunchpadError,
    >)
        requires
            old(self).wf(),
        ensures
            final(self).wf(),
            final(self)@ == old(self)@.cancel_launchpad(id as nat, caller@),
            answers_refund(r, old(self)@.cancel_launchpad_result(id as nat, caller@)),
    {
        if self.config.state != State::Active {
            return Err(LaunchpadError::NotActive);
        }
        match self.config.only_launchpad_owner(id, caller) {
            Err(e) => {
                return Err(e);
            },
            Ok(()) => {},
        }
        assert(id < self.config.launchpads.len());
        let idx: usize = id as usize;
        let book = match &self.config.launchpads[idx] {
            None => {
                return Err(LaunchpadError::SaleNotFound);
            },
            Some(book) => book,
        };
        assert(self@.book(id as nat) == book@);
        if book.launchpad.total_sold > 0 {
            return Err(LaunchpadError::CannotCancelAfterSales);
        }
        if book.launchpad.deployed {
            return Err(LaunchpadError::AlreadySettled);
        }
        let refund = if book.launchpad.amount > 0 {
            Some(
                Transfer {
                    to: book.launchpad.owner.clone(),
                    token: book.launchpad.token.clone(),
                    amount: book.launchpad.amount,
                },
            )
        } else {
            None
        };
        if idx + 1 == self.config.launchpads.len() {
            self.config.launchpads.pop();
        } else {
            self.config.launchpads[idx] = None;
        }
        proof {
            lemma_cancel_launchpad_inv(old(self)@, id as nat, caller@);
            assert(self@.launchpads =~= old(self)@.cancel_launchpad(id as nat, caller@).launchpads);
        }
        Ok(refund)
    }

    /// Approves `user` as a buyer of launchpad `id`, on the request of
    /// `caller`, its owner. Approving twice changes nothing more.
    pub fn whitelist_user(&mut self, id: u64, caller: &Address, user: Address) -> (r: Result<
        (),
        LaunchpadError,
    >)
        requires
            old(self).wf(),
        ensures
            final(self).wf(),
            final(self)@ == old(self)@.whitelist_user(id as nat, caller@, user@),
            r == old(self)@.whitelist_user_result(id as nat, caller@),
    {
        if self.config.state != State::Active {
            return Err(LaunchpadError::NotActive);
        }
        match self.config.only_launchpad_owner(id, caller) {
            Err(e) => {
                return Err(e);
            },
            Ok(()) => {},
        }
        assert(id < self.config.launchpads.len());
        let idx: usize = id as usize;
        match &mut self.config.launchpads[idx] {
            Some(book) => {
                if !contains_address(&book.whitelisted_users, &user) {
                    book.whitelisted_users.push(user);
                    assert(book@.whitelisted_users =~= old(self)@.book(id as nat).approve(user@));
                }
            },
            None => {},
        }
        proof {
            lemma_whitelist_user_inv(old(self)@, id as nat, caller@, user@);
            assert(self@.launchpads =~= old(self)@.whitelist_user(
                id as nat,
                caller@,
                user@,
            ).launchpads);
        }
        Ok(())
    }

    /// A purchase in launchpad `id` by `caller`, who sends `payment`, at time
    /// `now`.
    pub fn buy(&mut self, id: u64, caller: &Address, payment: &Payment, now: u64) -> (r: Result<
        Transfer,
        LaunchpadError,
    >)
        requires
            old(self).wf(),
        ensures
            final(self).wf(),
            final(self)@ == old(self)@.buy(id as nat, caller@, payment@, now),
            answers(r, old(self)@.buy_result(id as nat, caller@, payment@, now)),
    {
        if self.config.state != State::Active {
            return Err(LaunchpadError::NotActive);
        }
        if id >= self.config.launchpads.len() as u64 {
            return Err(LaunchpadError::SaleNotFound);
        }
        let idx: usize = id as usize;
        let book = match &self.config.launchpads[idx] {
            None => {
                return Err(LaunchpadError::SaleNotFound);
            },
            Some(book) => book,
        };
        assert(self@.has(id as nat) && self@.book(id as nat) == book@);
        if !book.launchpad.is_active(now) {
            return Err(LaunchpadError::SaleInactive);
        }
        if !payment.token.same_as(&book.launchpad.payment_token) {
            return Err(LaunchpadError::WrongToken);
        }
        if book.launchpad.kyc_enforced && !contains_address(&book.whitelisted_users, caller) {
            return Err(LaunchpadError::NotWhitelisted);
        }
        let place = find_participant(&book.users, caller);
        let held: u128 = match place {
            Some(i) => book.users[i].bought,
            None => 0,
        };
        assert(held == book@.bought(caller@));
        let room: u128 = book.launchpad.amount - book.launchpad.total_sold;
        // A quotient beyond 128 bits clears every minimum and exceeds every
        // maximum.
        let bought: u128 = match mul_div(payment.amount, ONE, book.launchpad.price) {
            Some(b) => b,
            None => {
                return Err(LaunchpadError::AboveMaximum);
            },
        };
        if bought < book.launchpad.min_buy_amount && held < book.launchpad.min_buy_amount - bought {
            return Err(LaunchpadError::BelowMinimum);
        }
        if bought > book.launchpad.max_buy_amount || held > book.launchpad.max_buy_amount - bought {
            return Err(LaunchpadError::AboveMaximum);
        }
        if bought > room {
            return Err(LaunchpadError::InsufficientInventory);
        }
        if payment.amount > u128::MAX - book.launchpad.total_raised {
            return Err(LaunchpadError::AmountOverflow);
        }
        let transfer = Transfer {
            to: caller.clone(),
            token: book.launchpad.token.clone(),
            amount: bought,
        };
        match &mut self.config.launchpads[idx] {
            Some(book) => {
                record_purchase(book, place, caller, payment.amount, bought);
            },
            None => {},
        }
        proof {
            lemma_buy_inv(old(self)@, id as nat, caller@, payment@, now);
            assert(self@.launchpads =~= old(self)@.buy(
                id as nat,
                caller@,
                payment@,
                now,
            ).launchpads);
            assert(self@.deployed_launchpads =~= old(self)@.deployed_launchpads);
        }
        Ok(transfer)
    }

    /// What settling launchpad `id` at time `now` would pay out, or why it
    /// cannot be settled. Nothing is changed.
    pub fn settlement(&self, id: u64, now: u64) -> (r: Result<Settlement, LaunchpadError>)
        ensures
            answers(r, self@.settlement(id as nat, now)),
    {
        if self.config.state != State::Active {
            return Err(LaunchpadError::NotActive);
        }
        if id >= self.config.launchpads.len() as u64 {
            return Err(LaunchpadError::SaleNotFound);
        }
        let book = match &self.config.launchpads[id as usize] {
            None => {
                return Err(LaunchpadError::SaleNotFound);
            },
            Some(book) => book,
        };
        assert(self@.has(id as nat) && self@.book(id as nat) == book@);
        let launchpad = &book.launchpad;
        if launchpad.end_time >= now {
            return Err(LaunchpadError::WindowNotEnded);
        }
        if launchpad.deployed {
            return Err(LaunchpadError::AlreadySettled);
        }
        let mut due: Vec<Payment> = Vec::new();
        if launchpad.total_raised > 0 {
            due.push(
                Payment { token: launchpad.payment_token.clone(), amount: launchpad.total_raised },
            );
        }
        if launchpad.amount > launchpad.total_sold {
            due.push(
                Payment {
                    token: launchpad.token.clone(),
                    amount: launchpad.amount - launchpad.total_sold,
                },
            );
        }
        assert(payments(due@) =~= settlement_payments(launchpad@));
        Ok(
            Settlement {
                owner: launchpad.owner.clone(),
                token: launchpad.token.clone(),
                details: bytes_copy(&launchpad.details),
                payments: due,
            },
        )
    }

    /// Settles launchpad `id` at time `now` into the franchise deployed at
    /// `new_address`: the launchpad is marked, the franchise is recorded, and
    /// the answer holds what is to be paid out. A launchpad is settled at
    /// most once.
    pub fn deploy_franchise(&mut self, id: u64, now: u64, new_address: Address) -> (r: Result<
        Settlement,
        LaunchpadError,
    >)
        requires
            old(self).wf(),
        ensures
            final(self).wf(),
            final(self)@ == old(self)@.deploy_franchise(id as nat, now, new_address@),
            answers(r, old(self)@.settlement(id as nat, now)),
    {
        let settlement = match self.settlement(id, now) {
            Err(e) => {
                return Err(e);
            },
            Ok(s) => s,
        };
        assert(self@.has(id as nat));
        assert(id < self.config.launchpads.len());
        let idx: usize = id as usize;
        match &mut self.config.launchpads[idx] {
            Some(book) => {
                book.launchpad.deployed = true;
            },
            None => {},
        }
        note_deployment(&mut self.config.deployed_launchpads, new_address, id);
        proof {
            lemma_deploy_franchise_inv(old(self)@, id as nat, now, new_address@);
            assert(self@.launchpads =~= old(self)@.deploy_franchise(
                id as nat,
                now,
                new_address@,
            ).launchpads);
        }
        Ok(settlement)
    }

    /// Whether `caller` may have a franchise upgraded: the contract's
    /// `owner` and the main DAO may. The answer holds the arguments to hand
    /// to the upgrade: those given, else none.
    pub fn upgrade_franchise(
        &self,
        caller: &Address,
        owner: &Address,
        args: Option<Vec<Vec<u8>>>,
    ) -> (r: Result<Vec<Vec<u8>>, LaunchpadError>)
        ensures
            match r {
                Ok(v) => (caller@ == owner@ || self@.main_dao == Some(caller@)) && (match args {
                    Some(a) => v == a,
                    None => v@.len() == 0,
                }),
                Err(e) => e == LaunchpadError::OnlyOwnerOrDao && !(caller@ == owner@
                    || self@.main_dao == Some(caller@)),
            },
    {
        if !(caller.same_as(owner) || self.config.only_dao(caller)) {
            return Err(LaunchpadError::OnlyOwnerOrDao);
        }
        match args {
            Some(a) => Ok(a),
            None => Ok(Vec::new()),
        }
    }

    /// Removes every launchpad with its lists and pauses the contract. The
    /// settings and the record of deployed franchises stay.
    pub fn clear_storage(&mut self)
        ensures
            final(self)@ == old(self)@.clear_storage(),
            final(self).wf(),
    {
        self.config.launchpads = Vec::new();
        self.config.state = State::Inactive;
        assert(self@.launchpads =~= Seq::empty());
    }
}

/// Writes a purchase into the book of its launchpad.
fn record_purchase(
    book: &mut LaunchpadBook,
    place: Option<usize>,
    caller: &Address,
    paid: u128,
    bought: u128,
)
    requires
        match place {
            Some(i) => find_user(old(book)@.users, caller@) == Some(i as int) && i < old(
                book,
            ).users.len(),
            None => find_user(old(book)@.users, caller@) is None,
        },
        old(book).launchpad.total_raised + paid <= u128::MAX,
        old(book).launchpad.total_sold + bought <= u128::MAX,
        old(book)@.bought(caller@) + bought <= u128::MAX,
    ensures
        final(book)@ == (SaleBook {
            sale: Sale {
                total_raised: old(book)@.sale.total_raised + paid as nat,
                total_sold: old(book)@.sale.total_sold + bought as nat,
                ..old(book)@.sale
            },
            users: old(book)@.credit(caller@, bought as nat),
            ..old(book)@
        }),
{
    book.launchpad.total_raised = book.launchpad.total_raised + paid;
    book.launchpad.total_sold = book.launchpad.total_sold + bought;
    match place {
        Some(i) => {
            let held: u128 = book.users[i].bought;
            book.users[i].bought = held + bought;
        },
        None => {
            book.users.push(Participant { user: caller.clone(), bought });
        },
    }
    assert(book@.users =~= old(book)@.credit(caller@, bought as nat));
}

/// Records that the franchise at `address` stands for launchpad `id`.
fn note_deployment(list: &mut Vec<Deployment>, address: Address, id: u64)
    ensures
        deployments(final(list)@) == record_deployment(
            deployments(old(list)@),
            address@,
            id as nat,
        ),
{
    let ghost before = deployments(list@);
    let mut i: usize = 0;
    while i < list.len()
        invariant
            i <= list.len(),
            list@ == old(list)@,
            before == deployments(list@),
            forall|k: int| 0 <= k < i ==> before[k].address != address@,
        decreases list.len() - i,
    {
        if list[i].address.same_as(&address) {
            proof {
                assert(before[i as int].address == address@);
                assert(is_first_deployment(before, address@, i as int));
                let j = choose|j: int| is_first_deployment(before, address@, j);
                assert(j == i);
            }
            list[i].id = id;
            assert(deployments(list@) =~= record_deployment(before, address@, id as nat));
            return ;
        }
        i += 1;
    }
    assert(forall|j: int| !is_first_deployment(before, address@, j));
    list.push(Deployment { address, id });
    assert(deployments(list@) =~= record_deployment(before, address@, id as nat));
}

} // verus!
