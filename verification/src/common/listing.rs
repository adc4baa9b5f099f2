use crate::common::config::{Sale, Status};
use crate::common::ledger::{find_user, Ledger, SaleBook};
use crate::common::types::PaymentSpec;
use vstd::prelude::*;

verus! {

/// The mathematical value of a [`crate::common::config::LaunchpadView`]: a
/// launchpad as one address sees it.
pub struct LaunchpadViewSpec {
    pub bought: nat,
    pub whitelisted: bool,
    pub launchpad: Sale,
}

/// Picks the launchpads that are kept.
pub open spec fn pick_kept() -> spec_fn(Option<SaleBook>) -> Option<SaleBook> {
    |b: Option<SaleBook>| b
}

/// Picks the record of each launchpad that is kept.
pub open spec fn pick_sale() -> spec_fn(Option<SaleBook>) -> Option<Sale> {
    |b: Option<SaleBook>|
        match b {
            Some(b) => Some(b.sale),
            None => None,
        }
}

/// Picks the records that can take a purchase at `now`.
pub open spec fn pick_active(now: u64) -> spec_fn(Option<SaleBook>) -> Option<Sale> {
    |b: Option<SaleBook>|
        match b {
            Some(b) => if b.sale.is_active(now) {
                Some(b.sale)
            } else {
                None
            },
            None => None,
        }
}

/// Picks the records in the phase `Ended` at `now`: the window is over and
/// the launchpad is not settled.
pub open spec fn pick_ended(now: u64) -> spec_fn(Option<SaleBook>) -> Option<Sale> {
    |b: Option<SaleBook>|
        match b {
            Some(b) => if b.sale.status_at(now) == Status::Ended {
                Some(b.sale)
            } else {
                None
            },
            None => None,
        }
}

/// Picks the records whose window ends after `timestamp`, each with its
/// phase at `now`.
pub open spec fn pick_since(timestamp: u64, now: u64) -> spec_fn(Option<SaleBook>) -> Option<
    Sale,
> {
    |b: Option<SaleBook>|
        match b {
            Some(b) => if b.sale.end_time > timestamp {
                Some(b.sale.with_status(now))
            } else {
                None
            },
            None => None,
        }
}

/// Whether a launchpad in phase `found` passes the filter `wanted`: no
/// filter passes every phase.
pub open spec fn status_passes(wanted: Option<Status>, found: Status) -> bool {
    match wanted {
        Some(s) => s == found,
        None => true,
    }
}

/// Picks the records whose phase at `now` passes the filter `status`.
pub open spec fn pick_status(status: Option<Status>, now: u64) -> spec_fn(Option<SaleBook>)
    -> Option<Sale> {
    |b: Option<SaleBook>|
        match b {
            Some(b) => if status_passes(status, b.sale.status_at(now)) {
                Some(b.sale)
            } else {
                None
            },
            None => None,
        }
}

/// Whether the place `k` passes the window from `start_idx` to `end_idx`,
/// both inclusive: the window from 0 to 0 passes every place.
pub open spec fn place_passes(start_idx: u64, end_idx: u64, k: int) -> bool {
    (start_idx == 0 && end_idx == 0) || (start_idx <= k && k <= end_idx)
}

/// What a page of launchpads is asked by.
pub struct Query {
    pub start_idx: u64,
    pub end_idx: u64,
    pub address: Seq<u8>,
    pub status: Option<Status>,
    pub now: u64,
}

impl Query {
    /// The launchpad of `book` as the asking address sees it at the time of
    /// asking.
    pub open spec fn show(self, book: SaleBook) -> LaunchpadViewSpec {
        LaunchpadViewSpec {
            bought: book.bought(self.address),
            whitelisted: book.is_whitelisted(self.address),
            launchpad: book.sale.with_status(self.now),
        }
    }

    /// Picks, from launchpads paired with their places, those that pass both
    /// filters.
    pub open spec fn pick(self) -> spec_fn((int, SaleBook)) -> Option<LaunchpadViewSpec> {
        |p: (int, SaleBook)|
            if status_passes(self.status, p.1.sale.status_at(self.now)) && place_passes(
                self.start_idx,
                self.end_idx,
                p.0,
            ) {
                Some(self.show(p.1))
            } else {
                None
            }
    }
}

/// Each item with its place, counted from 0.
pub open spec fn numbered(s: Seq<SaleBook>) -> Seq<(int, SaleBook)> {
    Seq::new(s.len(), |k: int| (k, s[k]))
}

/// Each place of the list of launchpads with its id.
pub open spec fn with_ids(launchpads: Seq<Option<SaleBook>>) -> Seq<(int, Option<SaleBook>)> {
    Seq::new(launchpads.len(), |i: int| (i, launchpads[i]))
}

/// Picks the ids of the launchpads in which `user` has bought.
pub open spec fn pick_bought_by(user: Seq<u8>) -> spec_fn((int, Option<SaleBook>)) -> Option<
    nat,
> {
    |p: (int, Option<SaleBook>)|
        match p.1 {
            Some(b) => if find_user(b.users, user) is Some {
                Some(p.0 as nat)
            } else {
                None
            },
            None => None,
        }
}

/// What was raised in `token` over all of `sales`.
pub open spec fn raised_in(sales: Seq<Sale>, token: Seq<u8>) -> nat
    decreases sales.len(),
{
    if sales.len() == 0 {
        0
    } else {
        raised_in(sales.drop_last(), token) + if sales.last().payment_token == token {
            sales.last().total_raised
        } else {
            0
        }
    }
}

/// The payment tokens of `sales`, each once, in the order in which they
/// first occur.
pub open spec fn payment_tokens(sales: Seq<Sale>) -> Seq<Seq<u8>>
    decreases sales.len(),
{
    if sales.len() == 0 {
        Seq::empty()
    } else {
        let before = payment_tokens(sales.drop_last());
        if before.contains(sales.last().payment_token) {
            before
        } else {
            before.push(sales.last().payment_token)
        }
    }
}

/// For each payment token of `sales`, what was raised in it.
pub open spec fn raised_by_token(sales: Seq<Sale>) -> Seq<PaymentSpec> {
    Seq::new(
        payment_tokens(sales).len(),
        |i: int|
            PaymentSpec {
                token: payment_tokens(sales)[i],
                amount: raised_in(sales, payment_tokens(sales)[i]),
            },
    )
}

/// What `filter_map` gives for a sequence with one more item.
pub proof fn lemma_filter_map_push<A, B>(s: Seq<A>, e: A, f: spec_fn(A) -> Option<B>)
    ensures
        s.push(e).filter_map(f) == s.filter_map(f) + (match f(e) {
            Some(b) => seq![b],
            None => Seq::empty(),
        }),
{
    let t = s.push(e);
    t.lemma_filter_map_take_succ(f, s.len() as int);
    assert(t.take(s.len() as int + 1) =~= t);
    assert(t.take(s.len() as int) =~= s);
}

/// No payment token is listed twice.
pub proof fn lemma_payment_tokens_distinct(s: Seq<Sale>)
    ensures
        forall|i: int, j: int|
            0 <= i < j < payment_tokens(s).len() ==> payment_tokens(s)[i] != payment_tokens(s)[j],
    decreases s.len(),
{
    if s.len() > 0 {
        lemma_payment_tokens_distinct(s.drop_last());
        let before = payment_tokens(s.drop_last());
        let now = payment_tokens(s);
        assert forall|i: int, j: int| 0 <= i < j < now.len() implies now[i] != now[j] by {
            if j < before.len() {
                assert(now[i] == before[i] && now[j] == before[j]);
            } else {
                assert(now == before.push(s.last().payment_token));
                assert(now[i] == before[i]);
                assert(!before.contains(now[j]));
            }
        }
    }
}

/// What one more record adds to what was raised in `token`.
pub proof fn lemma_raised_in_push(s: Seq<Sale>, x: Sale, token: Seq<u8>)
    ensures
        raised_in(s.push(x), token) == raised_in(s, token) + if x.payment_token == token {
            x.total_raised
        } else {
            0
        },
{
    assert(s.push(x).drop_last() =~= s);
}

/// Nothing was raised in a token that is not listed.
pub proof fn lemma_unlisted_raised_nothing(s: Seq<Sale>, token: Seq<u8>)
    requires
        !payment_tokens(s).contains(token),
    ensures
        raised_in(s, token) == 0,
    decreases s.len(),
{
    if s.len() > 0 {
        let before = payment_tokens(s.drop_last());
        if before.contains(token) {
            let k = choose|k: int| 0 <= k < before.len() && before[k] == token;
            assert(payment_tokens(s)[k] == token);
        }
        if s.last().payment_token == token && !before.contains(token) {
            assert(payment_tokens(s) == before.push(token));
            assert(payment_tokens(s)[before.len() as int] == token);
        }
        lemma_unlisted_raised_nothing(s.drop_last(), token);
    }
}

impl Ledger {
    /// The launchpads kept, in the order of their ids.
    pub open spec fn kept(self) -> Seq<SaleBook> {
        self.launchpads.filter_map(pick_kept())
    }

    /// The records of the launchpads kept, in the order of their ids.
    pub open spec fn sales(self) -> Seq<Sale> {
        self.launchpads.filter_map(pick_sale())
    }

    /// The buyers of launchpad `id`, in the order of their first purchase.
    pub open spec fn launchpad_users(self, id: nat) -> Seq<Seq<u8>> {
        if self.has(id) {
            Seq::new(self.book(id).users.len(), |i: int| self.book(id).users[i].user)
        } else {
            Seq::empty()
        }
    }

    /// The addresses approved for launchpad `id`, in the order of their
    /// approval.
    pub open spec fn whitelisted_users(self, id: nat) -> Seq<Seq<u8>> {
        if self.has(id) {
            self.book(id).whitelisted_users
        } else {
            Seq::empty()
        }
    }

    /// What `user` holds in launchpad `id`.
    pub open spec fn user_participation(self, user: Seq<u8>, id: nat) -> nat {
        if self.has(id) {
            self.book(id).bought(user)
        } else {
            0
        }
    }

    /// The ids of the launchpads in which `user` has bought, ascending.
    pub open spec fn user_launchpads(self, user: Seq<u8>) -> Seq<nat> {
        with_ids(self.launchpads).filter_map(pick_bought_by(user))
    }

    /// The page that `q` asks for: the launchpads kept are numbered in the
    /// order of their ids, and those that pass both filters are shown.
    pub open spec fn all_launchpads(self, q: Query) -> Seq<LaunchpadViewSpec> {
        numbered(self.kept()).filter_map(q.pick())
    }

    /// How many launchpads are in a phase that passes `status` at `now`.
    pub open spec fn launchpads_count(self, status: Option<Status>, now: u64) -> nat {
        self.launchpads.filter_map(pick_status(status, now)).len()
    }

    /// The records whose window ends after `timestamp`, with their phase at
    /// `now`.
    pub open spec fn all_launchpads_since(self, timestamp: u64, now: u64) -> Seq<Sale> {
        self.launchpads.filter_map(pick_since(timestamp, now))
    }

    /// The records that can take a purchase at `now`.
    pub open spec fn active_launchpads(self, now: u64) -> Seq<Sale> {
        self.launchpads.filter_map(pick_active(now))
    }

    /// The records in the phase `Ended` at `now`: those whose window is over
    /// and that are not settled.
    pub open spec fn ended_launchpads_not_deployed(self, now: u64) -> Seq<Sale> {
        self.launchpads.filter_map(pick_ended(now))
    }

    /// What was raised, by payment token, over every launchpad kept,
    /// whatever its phase.
    pub open spec fn total_raised(self) -> Seq<PaymentSpec> {
        raised_by_token(self.sales())
    }
}

} // verus!
