use crate::common::config::{status_of, token_amount, Sale, State, Status};
use crate::common::consts::ONE;
use crate::common::errors::LaunchpadError;
use crate::common::ledger::{
    deployed_id, held_total, is_first_deployment, new_sale, record_deployment,
    settlement_payments, DeploymentSpec, Ledger, SaleBook,
};
use crate::common::listing::pick_ended;
use crate::common::preserve::{
    lemma_add_tokens_inv, lemma_buy_inv, lemma_cancel_launchpad_inv, lemma_credit,
    lemma_deploy_franchise_inv, lemma_find_user, lemma_new_launchpad_inv, lemma_same_launchpads,
    lemma_whitelist_user_inv,
};
use crate::common::types::{PaymentSpec, SettlementSpec, TransferSpec};
use vstd::prelude::*;

verus! {

/// One call of the contract, with what the host hands to it.
pub enum Op {
    SetStateActive,
    SetStateInactive,
    SetMainDao { caller: Seq<u8>, governance_token: Seq<u8> },
    SetDigitalIdentity { address: Seq<u8> },
    SetDex { address: Seq<u8> },
    SetPlatform { address: Seq<u8> },
    ClearStorage,
    NewLaunchpad {
        caller: Seq<u8>,
        owner: Seq<u8>,
        details: Seq<u8>,
        kyc_enforced: bool,
        token: Seq<u8>,
        payment_token: Seq<u8>,
        price: nat,
        min_buy_amount: nat,
        max_buy_amount: nat,
        start_time: u64,
        end_time: u64,
        now: u64,
    },
    AddTokens { id: nat, payment: PaymentSpec, now: u64 },
    CancelLaunchpad { id: nat, caller: Seq<u8> },
    WhitelistUser { id: nat, caller: Seq<u8>, user: Seq<u8> },
    Buy { id: nat, caller: Seq<u8>, payment: PaymentSpec, now: u64 },
    DeployFranchise { id: nat, now: u64, address: Seq<u8> },
}

/// The launchpad that a `NewLaunchpad` call asks for in the state `l`.
pub open spec fn asked_sale(l: Ledger, op: Op) -> Sale
    recommends
        op is NewLaunchpad,
{
    new_sale(
        l.last_launchpad_id(),
        op->owner,
        op->details,
        op->kyc_enforced,
        op->token,
        op->payment_token,
        op->price,
        op->min_buy_amount,
        op->max_buy_amount,
        op->start_time,
        op->end_time,
    )
}

/// The contract after the call `op`: what the operation of that name leaves.
pub open spec fn apply(l: Ledger, op: Op) -> Ledger {
    match op {
        Op::SetStateActive => l.set_state_active(),
        Op::SetStateInactive => l.set_state_inactive(),
        Op::SetMainDao { caller, governance_token } => l.set_main_dao(caller, governance_token),
        Op::SetDigitalIdentity { address } => l.set_digital_identity(address),
        Op::SetDex { address } => l.set_dex(address),
        Op::SetPlatform { address } => l.set_platform(address),
        Op::ClearStorage => l.clear_storage(),
        Op::NewLaunchpad { caller, now, .. } => l.new_launchpad(caller, asked_sale(l, op), now),
        Op::AddTokens { id, payment, now } => l.add_tokens(id, payment, now),
        Op::CancelLaunchpad { id, caller } => l.cancel_launchpad(id, caller),
        Op::WhitelistUser { id, caller, user } => l.whitelist_user(id, caller, user),
        Op::Buy { id, caller, payment, now } => l.buy(id, caller, payment, now),
        Op::DeployFranchise { id, now, address } => l.deploy_franchise(id, now, address),
    }
}

/// The contract after the calls `ops`, made one after the other.
pub open spec fn run(l: Ledger, ops: Seq<Op>) -> Ledger
    decreases ops.len(),
{
    if ops.len() == 0 {
        l
    } else {
        apply(run(l, ops.drop_last()), ops.last())
    }
}

/// Whether the call `op`, made in the state `l`, opens a launchpad under
/// `id`.
pub open spec fn opens(l: Ledger, op: Op, id: nat) -> bool {
    op matches Op::NewLaunchpad { caller, now, .. } && l.new_launchpad_result(
        caller,
        asked_sale(l, op),
        now,
    ) == Ok::<nat, LaunchpadError>(id)
}

/// What the call `op`, made in the state `l`, pays into launchpad `id`: the
/// payment of a purchase that is accepted, and nothing for any other call.
pub open spec fn paid_into(l: Ledger, op: Op, id: nat) -> nat {
    match op {
        Op::Buy { id: i, caller, payment, now } => if i == id && l.buy_result(
            i,
            caller,
            payment,
            now,
        ) is Ok {
            payment.amount
        } else {
            0
        },
        _ => 0,
    }
}

/// The sum of the payments of the purchases that were accepted for the
/// launchpad under `id` over the calls `ops`, counted from the call that
/// opened it.
pub open spec fn accepted_payments(l: Ledger, ops: Seq<Op>, id: nat) -> nat
    decreases ops.len(),
{
    if ops.len() == 0 {
        0
    } else {
        let before = run(l, ops.drop_last());
        if opens(before, ops.last(), id) {
            0
        } else {
            accepted_payments(l, ops.drop_last(), id) + paid_into(before, ops.last(), id)
        }
    }
}

/// Whether the call `op`, made in the state `l`, is refused.
pub open spec fn refused(l: Ledger, op: Op) -> bool {
    match op {
        Op::SetStateActive => l.set_state_active_result() is Err,
        Op::SetStateInactive => false,
        Op::SetMainDao { .. } => l.main_dao is Some,
        Op::SetDigitalIdentity { .. } => false,
        Op::SetDex { .. } => l.dex_sc is Some,
        Op::SetPlatform { .. } => false,
        Op::ClearStorage => false,
        Op::NewLaunchpad { caller, now, .. } => l.new_launchpad_result(
            caller,
            asked_sale(l, op),
            now,
        ) is Err,
        Op::AddTokens { id, payment, now } => l.add_tokens_result(id, payment, now) is Err,
        Op::CancelLaunchpad { id, caller } => l.cancel_launchpad_result(id, caller) is Err,
        Op::WhitelistUser { id, caller, .. } => l.whitelist_user_result(id, caller) is Err,
        Op::Buy { id, caller, payment, now } => l.buy_result(id, caller, payment, now) is Err,
        Op::DeployFranchise { id, now, .. } => l.settlement(id, now) is Err,
    }
}

/// A call that is refused changes nothing.
pub proof fn law_refused_changes_nothing(l: Ledger, op: Op)
    requires
        refused(l, op),
    ensures
        apply(l, op) == l,
{
}

/// As long as a launchpad is kept, a call changes nothing of what it was
/// opened with, takes nothing from its totals or from what a buyer holds,
/// and neither unsettles it nor withdraws an approval.
pub proof fn law_record_only_grows(l: Ledger, op: Op, id: nat, user: Seq<u8>)
    requires
        l.inv(),
        l.has(id),
        apply(l, op).has(id),
    ensures
        apply(l, op).sale(id).id == l.sale(id).id,
        apply(l, op).sale(id).owner == l.sale(id).owner,
        apply(l, op).sale(id).details == l.sale(id).details,
        apply(l, op).sale(id).kyc_enforced == l.sale(id).kyc_enforced,
        apply(l, op).sale(id).token == l.sale(id).token,
        apply(l, op).sale(id).payment_token == l.sale(id).payment_token,
        apply(l, op).sale(id).price == l.sale(id).price,
        apply(l, op).sale(id).min_buy_amount == l.sale(id).min_buy_amount,
        apply(l, op).sale(id).max_buy_amount == l.sale(id).max_buy_amount,
        apply(l, op).sale(id).start_time == l.sale(id).start_time,
        apply(l, op).sale(id).end_time == l.sale(id).end_time,
        apply(l, op).sale(id).amount >= l.sale(id).amount,
        apply(l, op).sale(id).total_raised >= l.sale(id).total_raised,
        apply(l, op).sale(id).total_sold >= l.sale(id).total_sold,
        l.sale(id).deployed ==> apply(l, op).sale(id).deployed,
        apply(l, op).book(id).bought(user) >= l.book(id).bought(user),
        l.book(id).is_whitelisted(user) ==> apply(l, op).book(id).is_whitelisted(user),
{
    match op {
        Op::Buy { id: i, caller, payment, now } => {
            if i == id && l.buy_result(i, caller, payment, now) is Ok {
                lemma_credit(l.book(id), caller, l.bought_for(id, payment));
            }
        },
        Op::WhitelistUser { id: i, caller, user: approved } => {
            if i == id && l.whitelist_user_result(i, caller) is Ok {
                let before = l.book(id).whitelisted_users;
                if before.contains(user) && !before.contains(approved) {
                    let k = choose|k: int| 0 <= k < before.len() && before[k] == user;
                    assert(before.push(approved)[k] == user);
                }
            }
        },
        _ => {},
    }
}

/// Every call keeps the contract sound.
pub proof fn law_call_keeps_sound(l: Ledger, op: Op)
    requires
        l.inv(),
    ensures
        apply(l, op).inv(),
{
    match op {
        Op::SetStateActive => lemma_same_launchpads(l, apply(l, op)),
        Op::SetStateInactive => lemma_same_launchpads(l, apply(l, op)),
        Op::SetMainDao { .. } => lemma_same_launchpads(l, apply(l, op)),
        Op::SetDigitalIdentity { .. } => lemma_same_launchpads(l, apply(l, op)),
        Op::SetDex { .. } => lemma_same_launchpads(l, apply(l, op)),
        Op::SetPlatform { .. } => lemma_same_launchpads(l, apply(l, op)),
        Op::ClearStorage => {},
        Op::NewLaunchpad { caller, now, .. } => lemma_new_launchpad_inv(
            l,
            caller,
            asked_sale(l, op),
            now,
        ),
        Op::AddTokens { id, payment, now } => lemma_add_tokens_inv(l, id, payment, now),
        Op::CancelLaunchpad { id, caller } => lemma_cancel_launchpad_inv(l, id, caller),
        Op::WhitelistUser { id, caller, user } => lemma_whitelist_user_inv(l, id, caller, user),
        Op::Buy { id, caller, payment, now } => lemma_buy_inv(l, id, caller, payment, now),
        Op::DeployFranchise { id, now, address } => lemma_deploy_franchise_inv(
            l,
            id,
            now,
            address,
        ),
    }
}

/// Whatever calls are made, in whatever order and with whatever arguments,
/// the contract stays sound.
pub proof fn law_always_sound(ops: Seq<Op>)
    ensures
        run(Ledger::init(), ops).inv(),
    decreases ops.len(),
{
    if ops.len() > 0 {
        law_always_sound(ops.drop_last());
        law_call_keeps_sound(run(Ledger::init(), ops.drop_last()), ops.last());
    }
}

/// Whatever calls were made, no launchpad has sold more than was deposited
/// into it.
pub proof fn law_never_oversold(ops: Seq<Op>, id: nat)
    requires
        run(Ledger::init(), ops).has(id),
    ensures
        run(Ledger::init(), ops).sale(id).total_sold <= run(Ledger::init(), ops).sale(id).amount,
{
    law_always_sound(ops);
}

/// Whatever calls were made, what a launchpad has sold is what its buyers
/// hold together.
pub proof fn law_sold_is_sum_of_holdings(ops: Seq<Op>, id: nat)
    requires
        run(Ledger::init(), ops).has(id),
    ensures
        run(Ledger::init(), ops).sale(id).total_sold == held_total(
            run(Ledger::init(), ops).book(id).users,
        ),
{
    law_always_sound(ops);
}

/// Whatever calls were made, what a launchpad has raised is the sum of the
/// payments of the purchases accepted for it.
pub proof fn law_raised_is_sum_of_payments(ops: Seq<Op>, id: nat)
    requires
        run(Ledger::init(), ops).has(id),
    ensures
        run(Ledger::init(), ops).sale(id).total_raised == accepted_payments(
            Ledger::init(),
            ops,
            id,
        ),
    decreases ops.len(),
{
    if ops.len() > 0 {
        let before = run(Ledger::init(), ops.drop_last());
        let op = ops.last();
        if !opens(before, op, id) {
            assert(before.has(id));
            law_raised_is_sum_of_payments(ops.drop_last(), id);
        }
    }
}

/// Whatever calls were made, what a buyer holds in a launchpad is never
/// above the maximum, and not below the minimum once the buyer has bought.
pub proof fn law_holdings_within_bounds(ops: Seq<Op>, id: nat, user: Seq<u8>)
    requires
        run(Ledger::init(), ops).has(id),
    ensures
        run(Ledger::init(), ops).book(id).bought(user) <= run(Ledger::init(), ops).sale(
            id,
        ).max_buy_amount,
        run(Ledger::init(), ops).book(id).bought(user) == 0 || run(Ledger::init(), ops).book(
            id,
        ).bought(user) >= run(Ledger::init(), ops).sale(id).min_buy_amount,
{
    law_always_sound(ops);
    let book = run(Ledger::init(), ops).book(id);
    assert(book.valid());
    lemma_find_user(book.users, user);
}

/// Whatever calls were made, no two launchpads that are kept sell the same
/// token.
pub proof fn law_tokens_unique(ops: Seq<Op>, i: nat, j: nat)
    requires
        run(Ledger::init(), ops).has(i),
        run(Ledger::init(), ops).has(j),
        i != j,
    ensures
        run(Ledger::init(), ops).sale(i).token != run(Ledger::init(), ops).sale(j).token,
{
    law_always_sound(ops);
}

/// A launchpad that is settled stays settled, with its window, under every
/// call but the clearing of the storage.
pub proof fn law_settled_stays(l: Ledger, op: Op, id: nat)
    requires
        l.has(id),
        l.sale(id).deployed,
        !(op is ClearStorage),
    ensures
        apply(l, op).has(id),
        apply(l, op).sale(id).deployed,
        apply(l, op).sale(id).end_time == l.sale(id).end_time,
{
}

/// Whether the storage is cleared by none of the calls.
pub open spec fn never_cleared(ops: Seq<Op>) -> bool {
    forall|k: int| 0 <= k < ops.len() ==> !(#[trigger] ops[k] is ClearStorage)
}

/// A launchpad is settled once: after it was settled, whatever calls follow
/// short of clearing the storage, a request to settle it is refused and
/// pays nothing out; it is refused as settled already whenever the contract
/// takes calls and the time of the request is past the window, as every
/// time is that is not before the time of the settlement.
pub proof fn law_settled_once(
    l: Ledger,
    id: nat,
    now: u64,
    address: Seq<u8>,
    ops: Seq<Op>,
    later: u64,
)
    requires
        l.settlement(id, now) is Ok,
        never_cleared(ops),
    ensures
        run(l.deploy_franchise(id, now, address), ops).settlement(id, later) is Err,
        run(l.deploy_franchise(id, now, address), ops).state == State::Active && later > l.sale(
            id,
        ).end_time ==> run(l.deploy_franchise(id, now, address), ops).settlement(id, later)
            == Err::<SettlementSpec, LaunchpadError>(LaunchpadError::AlreadySettled),
        now > l.sale(id).end_time,
{
    lemma_settled_through(l.deploy_franchise(id, now, address), ops, id);
}

/// A settled launchpad is still kept and settled, with its window, after
/// calls that do not clear the storage.
proof fn lemma_settled_through(l: Ledger, ops: Seq<Op>, id: nat)
    requires
        l.has(id),
        l.sale(id).deployed,
        never_cleared(ops),
    ensures
        run(l, ops).has(id),
        run(l, ops).sale(id).deployed,
        run(l, ops).sale(id).end_time == l.sale(id).end_time,
    decreases ops.len(),
{
    if ops.len() > 0 {
        assert(never_cleared(ops.drop_last())) by {
            assert forall|k: int| 0 <= k < ops.drop_last().len() implies !(
            #[trigger] ops.drop_last()[k] is ClearStorage) by {
                assert(ops.drop_last()[k] == ops[k]);
            }
        }
        lemma_settled_through(l, ops.drop_last(), id);
        assert(!(ops[ops.len() - 1] is ClearStorage));
        law_settled_stays(run(l, ops.drop_last()), ops.last(), id);
    }
}

/// The list of ended launchpads holds records in the phase `Ended` only: of
/// each, the window is over and it is not settled. A launchpad that has not
/// begun is never listed, nor one inside its window.
pub proof fn law_ended_list_holds_the_ended(l: Ledger, now: u64, s: Sale)
    requires
        l.ended_launchpads_not_deployed(now).contains(s),
    ensures
        s.status_at(now) == Status::Ended,
        now > s.end_time,
        !s.deployed,
        exists|id: nat| #[trigger] l.has(id) && l.sale(id) == s,
{
    l.launchpads.lemma_filter_map_contains(pick_ended(now), s);
    let b = choose|b: Option<SaleBook>| #[trigger]
        l.launchpads.contains(b) && pick_ended(now)(b) == Some(s);
    let i = choose|i: int| 0 <= i < l.launchpads.len() && l.launchpads[i] == b;
    assert(l.has(i as nat) && l.sale(i as nat) == s);
}

/// A launchpad that is kept and in the phase `Ended` is in the list of
/// ended launchpads.
pub proof fn law_ended_list_holds_every_ended(l: Ledger, now: u64, id: nat)
    requires
        l.has(id),
        l.sale(id).status_at(now) == Status::Ended,
    ensures
        l.ended_launchpads_not_deployed(now).contains(l.sale(id)),
{
    let whole = l.launchpads;
    let f = pick_ended(now);
    let n = id as int;
    whole.lemma_filter_map_take_succ(f, n);
    let upto = whole.take(n + 1).filter_map(f);
    assert(upto[upto.len() - 1] == l.sale(id));
    lemma_filter_map_of_prefix(whole, f, n + 1);
    assert(whole.filter_map(f)[upto.len() - 1] == l.sale(id));
}

/// What `filter_map` picks from the first places of a sequence is the
/// beginning of what it picks from all of it.
proof fn lemma_filter_map_of_prefix<A, B>(s: Seq<A>, f: spec_fn(A) -> Option<B>, n: int)
    requires
        0 <= n <= s.len(),
    ensures
        s.take(n).filter_map(f).len() <= s.filter_map(f).len(),
        s.take(n).filter_map(f) == s.filter_map(f).take(s.take(n).filter_map(f).len() as int),
    decreases s.len() - n,
{
    if n == s.len() {
        assert(s.take(n) =~= s);
        assert(s.filter_map(f).take(s.filter_map(f).len() as int) =~= s.filter_map(f));
    } else {
        s.lemma_filter_map_take_succ(f, n);
        lemma_filter_map_of_prefix(s, f, n + 1);
        let short = s.take(n).filter_map(f);
        let long = s.take(n + 1).filter_map(f);
        let all = s.filter_map(f);
        assert(short =~= long.take(short.len() as int));
        assert(short =~= all.take(short.len() as int));
    }
}

// ---- what single calls answer ----

/// A deposit of the launchpad's own token before the end of its window is
/// taken: it is added to what the launchpad has to sell and changes neither
/// what was sold nor what was raised, so that no more is sold than was
/// deposited. Left out: a paused contract (`NotActive`) and a total beyond
/// 128 bits (`AmountOverflow`), on both of which nothing changes.
pub proof fn law_deposit_adds_to_stock(l: Ledger, id: nat, payment: PaymentSpec, now: u64)
    requires
        l.inv(),
        l.state == State::Active,
        l.has(id),
        now < l.sale(id).end_time,
        payment.token == l.sale(id).token,
        l.sale(id).amount + payment.amount <= u128::MAX,
    ensures
        l.add_tokens_result(id, payment, now) is Ok,
        l.add_tokens(id, payment, now).has(id),
        l.add_tokens(id, payment, now).sale(id).amount == l.sale(id).amount + payment.amount,
        l.add_tokens(id, payment, now).sale(id).total_sold == l.sale(id).total_sold,
        l.add_tokens(id, payment, now).sale(id).total_raised == l.sale(id).total_raised,
        l.add_tokens(id, payment, now).sale(id).total_sold <= l.add_tokens(
            id,
            payment,
            now,
        ).sale(id).amount,
{
}

/// A token that a kept launchpad sells is not launched again: the request
/// is refused, whatever else it asks for, and nothing changes. It is refused
/// as `TokenAlreadyLaunched` where nothing else is wrong with it: the
/// contract takes calls, the main DAO asks, and the price, the bounds and
/// the window are valid.
pub proof fn law_token_launched_once(l: Ledger, caller: Seq<u8>, sale: Sale, now: u64)
    requires
        l.token_launched(sale.token),
    ensures
        l.new_launchpad_result(caller, sale, now) is Err,
        l.new_launchpad(caller, sale, now) == l,
        l.state == State::Active && l.main_dao == Some(caller) && sale.price > 0
            && sale.min_buy_amount <= sale.max_buy_amount && now < sale.start_time
            < sale.end_time ==> l.new_launchpad_result(caller, sale, now) == Err::<
            nat,
            LaunchpadError,
        >(LaunchpadError::TokenAlreadyLaunched),
{
}

/// A request for a launchpad with nothing wrong with it is granted: the
/// launchpad gets the next id, starts with nothing deposited, sold or
/// raised, and its token is then launched. Left out: a paused contract
/// (`NotActive`) and a caller other than the main DAO (`OnlyMainDao`).
pub proof fn law_valid_request_is_granted(l: Ledger, caller: Seq<u8>, sale: Sale, now: u64)
    requires
        l.state == State::Active,
        l.main_dao == Some(caller),
        sale.price > 0,
        sale.min_buy_amount <= sale.max_buy_amount,
        now < sale.start_time < sale.end_time,
        !l.token_launched(sale.token),
    ensures
        l.new_launchpad_result(caller, sale, now) == Ok::<nat, LaunchpadError>(
            l.last_launchpad_id(),
        ),
        l.new_launchpad(caller, sale, now).has(l.last_launchpad_id()),
        l.new_launchpad(caller, sale, now).sale(l.last_launchpad_id()) == sale,
        l.new_launchpad(caller, sale, now).token_launched(sale.token),
        l.new_launchpad(caller, sale, now).last_launchpad_id() == l.last_launchpad_id() + 1,
{
    let m = l.new_launchpad(caller, sale, now);
    assert(m.has(l.last_launchpad_id()) && m.sale(l.last_launchpad_id()).token == sale.token);
}

/// After a launchpad was cancelled its token is launched no more, and a
/// request of the main DAO to launch it again, valid otherwise, is granted:
/// the new launchpad starts with nothing deposited, sold or raised. Left
/// out: a caller other than the main DAO (`OnlyMainDao`).
pub proof fn law_cancelled_token_is_free_again(
    l: Ledger,
    id: nat,
    owner: Seq<u8>,
    dao: Seq<u8>,
    sale: Sale,
    now: u64,
)
    requires
        l.inv(),
        l.cancel_launchpad_result(id, owner) is Ok,
        l.main_dao == Some(dao),
        sale == new_sale(
            l.cancel_launchpad(id, owner).last_launchpad_id(),
            sale.owner,
            sale.details,
            sale.kyc_enforced,
            l.sale(id).token,
            sale.payment_token,
            sale.price,
            sale.min_buy_amount,
            sale.max_buy_amount,
            sale.start_time,
            sale.end_time,
        ),
        sale.price > 0,
        sale.min_buy_amount <= sale.max_buy_amount,
        now < sale.start_time < sale.end_time,
    ensures
        !l.cancel_launchpad(id, owner).has(id),
        !l.cancel_launchpad(id, owner).token_launched(l.sale(id).token),
        l.cancel_launchpad(id, owner).new_launchpad_result(dao, sale, now) == Ok::<
            nat,
            LaunchpadError,
        >(sale.id),
        l.cancel_launchpad(id, owner).new_launchpad(dao, sale, now).has(sale.id),
        l.cancel_launchpad(id, owner).new_launchpad(dao, sale, now).sale(sale.id) == sale,
        sale.token == l.sale(id).token && sale.amount == 0 && sale.total_sold == 0
            && sale.total_raised == 0,
        l.cancel_launchpad(id, owner).new_launchpad(dao, sale, now).token_launched(
            l.sale(id).token,
        ),
{
    let m = l.cancel_launchpad(id, owner);
    assert forall|k: nat| #[trigger] m.has(k) implies m.sale(k).token != l.sale(id).token by {
        assert(l.has(k) && l.has(id) && k != id);
    }
    law_valid_request_is_granted(m, dao, sale, now);
}

/// Outside the window no purchase is taken, and none from a launchpad with
/// nothing left to sell: the answer is `SaleInactive` and nothing changes.
/// Left out: a paused contract (`NotActive`).
pub proof fn law_no_purchase_outside_the_window(
    l: Ledger,
    id: nat,
    caller: Seq<u8>,
    payment: PaymentSpec,
    now: u64,
)
    requires
        l.state == State::Active,
        l.has(id),
        now < l.sale(id).start_time || now > l.sale(id).end_time || l.sale(id).total_sold
            >= l.sale(id).amount,
    ensures
        l.buy_result(id, caller, payment, now) == Err::<TransferSpec, LaunchpadError>(
            LaunchpadError::SaleInactive,
        ),
        l.buy(id, caller, payment, now) == l,
{
}

/// A purchase that is accepted hands out the quotient, rounded down, and
/// keeps the whole payment: a payment worth less than one unit buys nothing
/// and is credited all the same.
pub proof fn law_payment_is_credited_in_full(
    l: Ledger,
    id: nat,
    caller: Seq<u8>,
    payment: PaymentSpec,
    now: u64,
)
    requires
        l.inv(),
        l.buy_result(id, caller, payment, now) is Ok,
    ensures
        l.buy_result(id, caller, payment, now)->Ok_0.amount == token_amount(
            payment.amount,
            l.sale(id).price,
        ),
        l.buy_result(id, caller, payment, now)->Ok_0.to == caller,
        l.buy_result(id, caller, payment, now)->Ok_0.token == l.sale(id).token,
        l.buy(id, caller, payment, now).sale(id).total_raised == l.sale(id).total_raised
            + payment.amount,
        l.buy(id, caller, payment, now).sale(id).total_sold == l.sale(id).total_sold
            + token_amount(payment.amount, l.sale(id).price),
        l.buy(id, caller, payment, now).book(id).bought(caller) == l.book(id).bought(caller)
            + token_amount(payment.amount, l.sale(id).price),
        payment.amount * ONE < l.sale(id).price ==> l.buy_result(
            id,
            caller,
            payment,
            now,
        )->Ok_0.amount == 0 && l.buy(id, caller, payment, now).sale(id).total_sold == l.sale(
            id,
        ).total_sold,
{
    lemma_credit(l.book(id), caller, l.bought_for(id, payment));
    if payment.amount * ONE < l.sale(id).price {
        vstd::arithmetic::div_mod::lemma_basic_div(
            payment.amount * ONE as int,
            l.sale(id).price as int,
        );
    }
}

/// A purchase that brings what the buyer holds to exactly the maximum is
/// accepted, and the buyer then holds the maximum. Left out: a paused
/// contract (`NotActive`) and a raised total beyond 128 bits
/// (`AmountOverflow`).
pub proof fn law_purchase_up_to_the_maximum(
    l: Ledger,
    id: nat,
    caller: Seq<u8>,
    payment: PaymentSpec,
    now: u64,
)
    requires
        l.inv(),
        l.state == State::Active,
        l.has(id),
        l.sale(id).is_active(now),
        payment.token == l.sale(id).payment_token,
        l.book(id).is_whitelisted(caller),
        l.book(id).bought(caller) + l.bought_for(id, payment) == l.sale(id).max_buy_amount,
        l.sale(id).total_sold + l.bought_for(id, payment) <= l.sale(id).amount,
        l.sale(id).total_raised + payment.amount <= u128::MAX,
    ensures
        l.buy_result(id, caller, payment, now) is Ok,
        l.buy(id, caller, payment, now).book(id).bought(caller) == l.sale(id).max_buy_amount,
{
    assert(l.book(id).valid());
    lemma_credit(l.book(id), caller, l.bought_for(id, payment));
}

/// A buyer who holds the maximum gets nothing more: a payment worth one
/// unit or more is refused with `AboveMaximum`, and nothing changes. Left
/// out: a paused contract (`NotActive`).
pub proof fn law_nothing_beyond_the_maximum(
    l: Ledger,
    id: nat,
    caller: Seq<u8>,
    payment: PaymentSpec,
    now: u64,
)
    requires
        l.inv(),
        l.state == State::Active,
        l.has(id),
        l.sale(id).is_active(now),
        payment.token == l.sale(id).payment_token,
        l.book(id).is_whitelisted(caller),
        l.book(id).bought(caller) == l.sale(id).max_buy_amount,
        l.bought_for(id, payment) >= 1,
    ensures
        l.buy_result(id, caller, payment, now) == Err::<TransferSpec, LaunchpadError>(
            LaunchpadError::AboveMaximum,
        ),
        l.buy(id, caller, payment, now) == l,
{
    assert(l.book(id).valid());
}

/// Where a launchpad has tokens left but fewer than a purchase takes, the
/// purchase is refused with `InsufficientInventory` though it is within the
/// buyer's bounds, and nothing changes. Left out: a paused contract
/// (`NotActive`).
pub proof fn law_not_more_than_is_left(
    l: Ledger,
    id: nat,
    caller: Seq<u8>,
    payment: PaymentSpec,
    now: u64,
)
    requires
        l.state == State::Active,
        l.has(id),
        l.sale(id).is_active(now),
        payment.token == l.sale(id).payment_token,
        l.book(id).is_whitelisted(caller),
        l.sale(id).min_buy_amount <= l.book(id).bought(caller) + l.bought_for(id, payment)
            <= l.sale(id).max_buy_amount,
        l.sale(id).total_sold + l.bought_for(id, payment) > l.sale(id).amount,
    ensures
        l.buy_result(id, caller, payment, now) == Err::<TransferSpec, LaunchpadError>(
            LaunchpadError::InsufficientInventory,
        ),
        l.buy(id, caller, payment, now) == l,
{
}

/// A launchpad that is not settled is settled on a request after its
/// window: the answer names the owner and holds what was raised, in the
/// payment token, and what was left unsold, in the token sold, each once and
/// only if it is not zero; the launchpad is then marked settled and nothing
/// else of its record changes. Left out: a paused contract (`NotActive`).
pub proof fn law_settlement_pays_out(l: Ledger, id: nat, now: u64, address: Seq<u8>)
    requires
        l.inv(),
        l.state == State::Active,
        l.has(id),
        now > l.sale(id).end_time,
        !l.sale(id).deployed,
    ensures
        l.settlement(id, now) is Ok,
        l.settlement(id, now)->Ok_0.owner == l.sale(id).owner,
        l.settlement(id, now)->Ok_0.token == l.sale(id).token,
        l.settlement(id, now)->Ok_0.payments == settlement_payments(l.sale(id)),
        l.settlement(id, now)->Ok_0.payments.len() == (if l.sale(id).total_raised > 0 {
            1nat
        } else {
            0nat
        }) + (if l.sale(id).amount > l.sale(id).total_sold {
            1nat
        } else {
            0nat
        }),
        l.sale(id).total_raised > 0 ==> l.settlement(id, now)->Ok_0.payments[0] == (PaymentSpec {
            token: l.sale(id).payment_token,
            amount: l.sale(id).total_raised,
        }),
        l.sale(id).amount > l.sale(id).total_sold ==> l.settlement(id, now)->Ok_0.payments.last()
            == (PaymentSpec {
            token: l.sale(id).token,
            amount: (l.sale(id).amount - l.sale(id).total_sold) as nat,
        }),
        l.deploy_franchise(id, now, address).has(id),
        l.deploy_franchise(id, now, address).sale(id) == (Sale {
            deployed: true,
            ..l.sale(id)
        }),
        deployed_id(l.deploy_franchise(id, now, address).deployed_launchpads, address) == Some(id),
{
    let list = l.deployed_launchpads;
    let after = record_deployment(list, address, id);
    if exists|i: int| is_first_deployment(list, address, i) {
        let i = choose|i: int| is_first_deployment(list, address, i);
        assert(is_first_deployment(after, address, i));
    } else {
        assert(is_first_deployment(after, address, list.len() as int)) by {
            assert forall|k: int| 0 <= k < list.len() implies after[k].address != address by {
                if list[k].address == address {
                    lemma_some_first_deployment(list, address, k);
                }
            }
        }
    }
    let j = choose|j: int| is_first_deployment(after, address, j);
    assert(after[j].address == address);
    if exists|i: int| is_first_deployment(list, address, i) {
        let i = choose|i: int| is_first_deployment(list, address, i);
        if j < i {
            assert(list[j].address != address);
        } else if i < j {
            assert(after[i].address != address);
        }
    } else {
        if j < list.len() {
            assert(after[j] == list[j]);
            lemma_some_first_deployment(list, address, j);
        }
    }
}

/// An address with a place in the list of deployments has a first place.
proof fn lemma_some_first_deployment(list: Seq<DeploymentSpec>, address: Seq<u8>, k: int)
    requires
        0 <= k < list.len(),
        list[k].address == address,
    ensures
        exists|i: int| is_first_deployment(list, address, i),
    decreases k,
{
    if exists|j: int| 0 <= j < k && list[j].address == address {
        let j = choose|j: int| 0 <= j < k && list[j].address == address;
        lemma_some_first_deployment(list, address, j);
    } else {
        assert(is_first_deployment(list, address, k));
    }
}

/// A launchpad that is settled is not settled again: every further request,
/// at whatever time, is refused, pays nothing out and changes nothing. It is
/// refused as `AlreadySettled` where the contract takes calls and the time
/// is past the window; on a paused contract the answer is `NotActive`, and
/// at a time inside or before the window `WindowNotEnded`, as the order of
/// the tests has it.
pub proof fn law_settled_is_refused(l: Ledger, id: nat, now: u64, address: Seq<u8>)
    requires
        l.has(id),
        l.sale(id).deployed,
    ensures
        l.settlement(id, now) is Err,
        l.deploy_franchise(id, now, address) == l,
        l.state == State::Active && now > l.sale(id).end_time ==> l.settlement(id, now) == Err::<
            SettlementSpec,
            LaunchpadError,
        >(LaunchpadError::AlreadySettled),
{
}

/// Before the end of its window, and in its last second, a launchpad is not
/// settled: the request is refused with `WindowNotEnded` and nothing
/// changes. Left out: a paused contract (`NotActive`).
pub proof fn law_not_settled_before_the_end(l: Ledger, id: nat, now: u64, address: Seq<u8>)
    requires
        l.state == State::Active,
        l.has(id),
        now <= l.sale(id).end_time,
    ensures
        l.settlement(id, now) == Err::<SettlementSpec, LaunchpadError>(
            LaunchpadError::WindowNotEnded,
        ),
        l.deploy_franchise(id, now, address) == l,
{
}

/// The phase depends on the window, the settled flag and the time alone:
/// two records that agree on these are in the same phase.
pub proof fn law_status_pure(a: Sale, b: Sale, now: u64)
    requires
        a.start_time == b.start_time,
        a.end_time == b.end_time,
        a.deployed == b.deployed,
    ensures
        a.status_at(now) == b.status_at(now),
        a.status_at(now) == status_of(a.start_time, a.end_time, a.deployed, now),
{
}

/// The four phases follow one another in time: before the window, inside
/// it, and after it, settled or not.
pub proof fn law_status_by_time(s: Sale, now: u64)
    ensures
        s.status_at(now) == Status::Pending <==> now < s.start_time,
        s.status_at(now) == Status::Active <==> s.start_time <= now <= s.end_time,
        s.status_at(now) == Status::Deployed <==> s.start_time <= now && now > s.end_time
            && s.deployed,
        s.status_at(now) == Status::Ended <==> s.start_time <= now && now > s.end_time
            && !s.deployed,
{
}

} // verus!
