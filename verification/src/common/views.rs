use crate::common::config::{
    find_participant, launchpad_views, sales, ConfigModule, Launchpad, LaunchpadView, Status,
};
use crate::common::errors::LaunchpadError;
use crate::common::ledger::{deployed_id, is_first_deployment};
use crate::common::listing::{
    lemma_filter_map_push, lemma_payment_tokens_distinct, lemma_raised_in_push,
    lemma_unlisted_raised_nothing, numbered, payment_tokens, pick_active, pick_bought_by,
    pick_ended, pick_kept, pick_sale, pick_since, pick_status, raised_by_token, raised_in,
    status_passes, with_ids, Query,
};
use crate::common::types::{addresses, payments, Address, Payment, TokenId};
use vstd::prelude::*;

verus! {

/// The place of `token` in a list of payments, if it has one.
fn find_payment(list: &Vec<Payment>, token: &TokenId) -> (r: Option<usize>)
    ensures
        match r {
            Some(j) => j < list.len() && list@[j as int].token@ == token@,
            None => forall|k: int| 0 <= k < list.len() ==> list@[k].token@ != token@,
        },
{
    let mut j: usize = 0;
    while j < list.len()
        invariant
            j <= list.len(),
            forall|k: int| 0 <= k < j ==> list@[k].token@ != token@,
        decreases list.len() - j,
    {
        if list[j].token.same_as(token) {
            return Some(j);
        }
        j += 1;
    }
    None
}

/// Whether a launchpad in phase `found` passes the filter `wanted`.
fn status_ok(wanted: Option<Status>, found: Status) -> (r: bool)
    ensures
        r == status_passes(wanted, found),
{
    match wanted {
        Some(s) => s == found,
        None => true,
    }
}

impl ConfigModule {
    /// The next id to give out: one more than the highest id in use, or
    /// than the highest ever given if that one was cancelled out of turn.
    pub fn last_launchpad_id(&self) -> (n: u64)
        ensures
            n == self@.last_launchpad_id(),
    {
        self.launchpads.len() as u64
    }

    /// Whether a launchpad that is kept sells `token`.
    pub fn is_token_launched(&self, token: &TokenId) -> (r: bool)
        ensures
            r == self@.token_launched(token@),
    {
        let mut i: usize = 0;
        while i < self.launchpads.len()
            invariant
                i <= self.launchpads.len(),
                forall|k: nat| k < i && #[trigger] self@.has(k) ==> self@.sale(k).token != token@,
            decreases self.launchpads.len() - i,
        {
            match &self.launchpads[i] {
                Some(book) => {
                    if book.launchpad.token.same_as(token) {
                        assert(self@.has(i as nat) && self@.sale(i as nat).token == token@);
                        return true;
                    }
                },
                None => {},
            }
            i += 1;
        }
        false
    }

    /// The launchpads that can take a purchase at `now`, in the order of
    /// their ids.
    pub fn get_active_launchpads(&self, now: u64) -> (out: Vec<Launchpad>)
        ensures
            sales(out@) == self@.active_launchpads(now),
    {
        let mut out: Vec<Launchpad> = Vec::new();
        let mut i: usize = 0;
        while i < self.launchpads.len()
            invariant
                i <= self.launchpads.len(),
                sales(out@) == self@.launchpads.take(i as int).filter_map(pick_active(now)),
            decreases self.launchpads.len() - i,
        {
            proof {
                self@.launchpads.lemma_filter_map_take_succ(pick_active(now), i as int);
            }
            match &self.launchpads[i] {
                Some(book) => {
                    if book.launchpad.is_active(now) {
                        out.push(book.launchpad.clone());
                    }
                },
                None => {},
            }
            assert(sales(out@) =~= self@.launchpads.take(i + 1).filter_map(pick_active(now)));
            i += 1;
        }
        assert(self@.launchpads.take(i as int) =~= self@.launchpads);
        out
    }

    /// The launchpads in the phase `Ended` at `now`, in the order of their
    /// ids: those whose window is over and that are not settled. A launchpad
    /// that has not begun is not among them, nor one inside its window,
    /// sold out or not.
    pub fn get_ended_launchpads_not_deployed(&self, now: u64) -> (out: Vec<Launchpad>)
        ensures
            sales(out@) == self@.ended_launchpads_not_deployed(now),
    {
        let mut out: Vec<Launchpad> = Vec::new();
        let mut i: usize = 0;
        while i < self.launchpads.len()
            invariant
                i <= self.launchpads.len(),
                sales(out@) == self@.launchpads.take(i as int).filter_map(pick_ended(now)),
            decreases self.launchpads.len() - i,
        {
            proof {
                self@.launchpads.lemma_filter_map_take_succ(pick_ended(now), i as int);
            }
            match &self.launchpads[i] {
                Some(book) => {
                    if book.launchpad.get_status(now) == Status::Ended {
                        out.push(book.launchpad.clone());
                    }
                },
                None => {},
            }
            assert(sales(out@) =~= self@.launchpads.take(i + 1).filter_map(pick_ended(now)));
            i += 1;
        }
        assert(self@.launchpads.take(i as int) =~= self@.launchpads);
        out
    }

    /// The launchpads whose window ends after `timestamp`, in the order of
    /// their ids, each with its phase at `now`.
    pub fn get_all_launchpads_since(&self, timestamp: u64, now: u64) -> (out: Vec<Launchpad>)
        ensures
            sales(out@) == self@.all_launchpads_since(timestamp, now),
    {
        let mut out: Vec<Launchpad> = Vec::new();
        let mut i: usize = 0;
        while i < self.launchpads.len()
            invariant
                i <= self.launchpads.len(),
                sales(out@) == self@.launchpads.take(i as int).filter_map(
                    pick_since(timestamp, now),
                ),
            decreases self.launchpads.len() - i,
        {
            proof {
                self@.launchpads.lemma_filter_map_take_succ(pick_since(timestamp, now), i as int);
            }
            match &self.launchpads[i] {
                Some(book) => {
                    if book.launchpad.end_time > timestamp {
                        let mut launchpad = book.launchpad.clone();
                        launchpad.status = launchpad.get_status(now);
                        out.push(launchpad);
                    }
                },
                None => {},
            }
            assert(sales(out@) =~= self@.launchpads.take(i + 1).filter_map(
                pick_since(timestamp, now),
            ));
            i += 1;
        }
        assert(self@.launchpads.take(i as int) =~= self@.launchpads);
        out
    }

    /// How many launchpads are, at `now`, in the phase `status`; how many
    /// are kept at all where `status` is `None`.
    pub fn get_launchpads_count(&self, status: Option<Status>, now: u64) -> (count: u64)
        ensures
            count == self@.launchpads_count(status, now),
    {
        let mut count: u64 = 0;
        let mut i: usize = 0;
        while i < self.launchpads.len()
            invariant
                i <= self.launchpads.len(),
                count <= i,
                count == self@.launchpads.take(i as int).filter_map(pick_status(status, now)).len(),
            decreases self.launchpads.len() - i,
        {
            proof {
                self@.launchpads.lemma_filter_map_take_succ(pick_status(status, now), i as int);
            }
            match &self.launchpads[i] {
                Some(book) => {
                    if status_ok(status, book.launchpad.get_status(now)) {
                        count += 1;
                    }
                },
                None => {},
            }
            i += 1;
        }
        assert(self@.launchpads.take(i as int) =~= self@.launchpads);
        count
    }

    /// A page of the launchpads as `address` sees them at `now`. The
    /// launchpads kept are numbered from 0 in the order of their ids; the
    /// page holds those numbered from `start_idx` to `end_idx`, both
    /// inclusive (all of them where both are 0), that are in the phase
    /// `status` (in any phase where `status` is `None`).
    pub fn get_all_launchpads(
        &self,
        start_idx: u64,
        end_idx: u64,
        address: &Address,
        status: Option<Status>,
        now: u64,
    ) -> (out: Vec<LaunchpadView>)
        ensures
            launchpad_views(out@) == self@.all_launchpads(
                Query { start_idx, end_idx, address: address@, status, now },
            ),
    {
        let ghost q = Query { start_idx, end_idx, address: address@, status, now };
        let all_indexes: bool = start_idx == 0 && end_idx == 0;
        let mut out: Vec<LaunchpadView> = Vec::new();
        let mut real_idx: u64 = 0;
        let mut i: usize = 0;
        assert(numbered(self@.launchpads.take(0).filter_map(pick_kept())) =~= Seq::empty());
        while i < self.launchpads.len()
            invariant
                i <= self.launchpads.len(),
                q == (Query { start_idx, end_idx, address: address@, status, now }),
                all_indexes == (start_idx == 0 && end_idx == 0),
                real_idx <= i,
                real_idx == self@.launchpads.take(i as int).filter_map(pick_kept()).len(),
                launchpad_views(out@) == numbered(
                    self@.launchpads.take(i as int).filter_map(pick_kept()),
                ).filter_map(q.pick()),
            decreases self.launchpads.len() - i,
        {
            let ghost before = self@.launchpads.take(i as int).filter_map(pick_kept());
            proof {
                self@.launchpads.lemma_filter_map_take_succ(pick_kept(), i as int);
            }
            match &self.launchpads[i] {
                Some(book) => {
                    proof {
                        let after = self@.launchpads.take(i + 1).filter_map(pick_kept());
                        assert(after =~= before.push(book@));
                        assert(numbered(after) =~= numbered(before).push(
                            (real_idx as int, book@),
                        ));
                        lemma_filter_map_push(
                            numbered(before),
                            (real_idx as int, book@),
                            q.pick(),
                        );
                    }
                    let found: Status = book.launchpad.get_status(now);
                    let status_fits: bool = status_ok(status, found);
                    let idx_fits: bool = all_indexes || (real_idx >= start_idx && real_idx
                        <= end_idx);
                    if status_fits && idx_fits {
                        let mut launchpad = book.launchpad.clone();
                        launchpad.status = found;
                        out.push(
                            LaunchpadView {
                                bought: book.bought(address),
                                whitelisted: book.is_whitelisted(address),
                                launchpad,
                            },
                        );
                    }
                    real_idx += 1;
                },
                None => {},
            }
            assert(launchpad_views(out@) =~= numbered(
                self@.launchpads.take(i + 1).filter_map(pick_kept()),
            ).filter_map(q.pick()));
            i += 1;
        }
        assert(self@.launchpads.take(i as int) =~= self@.launchpads);
        out
    }

    /// What was raised, by payment token, over every launchpad kept,
    /// whatever its phase: the tokens in the order in which the launchpads
    /// first name them. `AmountOverflow` where one of the totals does not
    /// fit in 128 bits.
    pub fn get_total_raised(&self) -> (r: Result<Vec<Payment>, LaunchpadError>)
        ensures
            match r {
                Ok(v) => payments(v@) == self@.total_raised(),
                Err(e) => e == LaunchpadError::AmountOverflow && exists|k: int|
                    0 <= k < self@.total_raised().len() && (#[trigger] self@.total_raised()[k]).amount
                        > u128::MAX,
            },
    {
        let mut raised: Vec<Payment> = Vec::new();
        let mut fits: bool = true;
        let ghost mut over: Seq<u8> = Seq::empty();
        let mut i: usize = 0;
        assert(payments(raised@) =~= raised_by_token(
            self@.launchpads.take(0).filter_map(pick_sale()),
        ));
        while i < self.launchpads.len()
            invariant
                i <= self.launchpads.len(),
                fits ==> payments(raised@) == raised_by_token(
                    self@.launchpads.take(i as int).filter_map(pick_sale()),
                ),
                !fits ==> payment_tokens(
                    self@.launchpads.take(i as int).filter_map(pick_sale()),
                ).contains(over) && raised_in(
                    self@.launchpads.take(i as int).filter_map(pick_sale()),
                    over,
                ) > u128::MAX,
            decreases self.launchpads.len() - i,
        {
            let ghost before = self@.launchpads.take(i as int).filter_map(pick_sale());
            let ghost after = self@.launchpads.take(i + 1).filter_map(pick_sale());
            proof {
                self@.launchpads.lemma_filter_map_take_succ(pick_sale(), i as int);
            }
            match &self.launchpads[i] {
                Some(book) => {
                    let launchpad = &book.launchpad;
                    proof {
                        assert(after =~= before.push(launchpad@));
                        assert(after.drop_last() =~= before);
                        lemma_payment_tokens_distinct(before);
                        if !fits {
                            let k = choose|k: int|
                                0 <= k < payment_tokens(before).len() && payment_tokens(before)[k]
                                    == over;
                            assert(payment_tokens(after)[k] == over);
                            lemma_raised_in_push(before, launchpad@, over);
                        }
                    }
                    if fits {
                        match find_payment(&raised, &launchpad.payment_token) {
                            Some(j) => {
                                assert(payments(raised@)[j as int].token == launchpad@.payment_token);
                                assert(payment_tokens(before)[j as int] == launchpad@.payment_token);
                                assert(payment_tokens(after) == payment_tokens(before));
                                if launchpad.total_raised > u128::MAX - raised[j].amount {
                                    fits = false;
                                    proof {
                                        over = launchpad@.payment_token;
                                        assert(payments(raised@)[j as int].amount == raised_in(
                                            before,
                                            over,
                                        ));
                                        lemma_raised_in_push(before, launchpad@, over);
                                    }
                                } else {
                                    let ghost old_raised = payments(raised@);
                                    let sum: u128 = raised[j].amount + launchpad.total_raised;
                                    raised[j].amount = sum;
                                    proof {
                                        let now = payments(raised@);
                                        let want = raised_by_token(after);
                                        assert(now.len() == want.len());
                                        assert forall|k: int| 0 <= k < now.len() implies now[k]
                                            == want[k] by {
                                            lemma_raised_in_push(
                                                before,
                                                launchpad@,
                                                payment_tokens(before)[k],
                                            );
                                            assert(old_raised[k].token == payment_tokens(before)[k]);
                                            if k != j {
                                                assert(now[k] == old_raised[k]);
                                            }
                                        }
                                        assert(now =~= want);
                                    }
                                }
                            },
                            None => {
                                proof {
                                    assert forall|k: int|
                                        0 <= k < payment_tokens(before).len() implies payment_tokens(
                                        before,
                                    )[k] != launchpad@.payment_token by {
                                        assert(payments(raised@)[k].token
                                            != launchpad@.payment_token);
                                    }
                                    lemma_unlisted_raised_nothing(before, launchpad@.payment_token);
                                }
                                let ghost old_raised = payments(raised@);
                                raised.push(
                                    Payment {
                                        token: launchpad.payment_token.clone(),
                                        amount: launchpad.total_raised,
                                    },
                                );
                                proof {
                                    let now = payments(raised@);
                                    let want = raised_by_token(after);
                                    assert(!payment_tokens(before).contains(
                                        launchpad@.payment_token,
                                    ));
                                    assert(payment_tokens(after) == payment_tokens(before).push(
                                        launchpad@.payment_token,
                                    ));
                                    assert(now.len() == want.len());
                                    assert forall|k: int| 0 <= k < now.len() implies now[k]
                                        == want[k] by {
                                        lemma_raised_in_push(
                                            before,
                                            launchpad@,
                                            payment_tokens(after)[k],
                                        );
                                        if k < old_raised.len() {
                                            assert(now[k] == old_raised[k]);
                                            assert(old_raised[k].token == payment_tokens(before)[k]);
                                        }
                                    }
                                    assert(now =~= want);
                                }
                            },
                        }
                    }
                },
                None => {
                    assert(after =~= before);
                },
            }
            i += 1;
        }
        assert(self@.launchpads.take(i as int) =~= self@.launchpads);
        if fits {
            Ok(raised)
        } else {
            proof {
                let tokens = payment_tokens(self@.sales());
                let k = choose|k: int| 0 <= k < tokens.len() && tokens[k] == over;
                assert(self@.total_raised()[k].amount > u128::MAX);
            }
            Err(LaunchpadError::AmountOverflow)
        }
    }

    /// The launchpad for which the franchise at `address` was deployed, if
    /// that address is recorded and the launchpad is still kept.
    pub fn get_ended_launchpad(&self, address: &Address) -> (r: Option<Launchpad>)
        ensures
            match r {
                Some(l) => deployed_id(self@.deployed_launchpads, address@) matches Some(id)
                    && self@.has(id) && l@ == self@.sale(id),
                None => !(deployed_id(self@.deployed_launchpads, address@) matches Some(id)
                    && self@.has(id)),
            },
    {
        match self.deployed_launchpads(address) {
            None => None,
            Some(id) => self.launchpads(id),
        }
    }

    /// The id of the launchpad for which the franchise at `address` was
    /// deployed.
    pub fn deployed_launchpads(&self, address: &Address) -> (r: Option<u64>)
        ensures
            match r {
                Some(id) => deployed_id(self@.deployed_launchpads, address@) == Some(id as nat),
                None => deployed_id(self@.deployed_launchpads, address@) is None,
            },
    {
        let ghost list = self@.deployed_launchpads;
        let mut i: usize = 0;
        while i < self.deployed_launchpads.len()
            invariant
                i <= self.deployed_launchpads.len(),
                list == self@.deployed_launchpads,
                forall|k: int| 0 <= k < i ==> list[k].address != address@,
            decreases self.deployed_launchpads.len() - i,
        {
            if self.deployed_launchpads[i].address.same_as(address) {
                proof {
                    assert(list[i as int].address == address@);
                    assert(is_first_deployment(list, address@, i as int));
                    let j = choose|j: int| is_first_deployment(list, address@, j);
                    assert(j == i);
                }
                return Some(self.deployed_launchpads[i].id);
            }
            i += 1;
        }
        assert(forall|j: int| !is_first_deployment(list, address@, j));
        None
    }

    /// The id of the launchpad that sells `token`, if one is kept: of the
    /// first one, in a state where several do.
    pub fn token_launchpad_id(&self, token: &TokenId) -> (r: Option<u64>)
        ensures
            match r {
                Some(id) => self@.has(id as nat) && self@.sale(id as nat).token == token@
                    && forall|k: nat|
                    k < id && #[trigger] self@.has(k) ==> self@.sale(k).token != token@,
                None => !self@.token_launched(token@),
            },
    {
        let mut i: usize = 0;
        while i < self.launchpads.len()
            invariant
                i <= self.launchpads.len(),
                forall|k: nat| k < i && #[trigger] self@.has(k) ==> self@.sale(k).token != token@,
            decreases self.launchpads.len() - i,
        {
            match &self.launchpads[i] {
                Some(book) => {
                    if book.launchpad.token.same_as(token) {
                        assert(self@.has(i as nat) && self@.sale(i as nat).token == token@);
                        return Some(i as u64);
                    }
                },
                None => {},
            }
            i += 1;
        }
        None
    }

    /// The buyers of launchpad `id`, in the order of their first purchase;
    /// none where no such launchpad is kept.
    pub fn launchpad_users(&self, id: u64) -> (out: Vec<Address>)
        ensures
            addresses(out@) == self@.launchpad_users(id as nat),
    {
        let mut out: Vec<Address> = Vec::new();
        if id >= self.launchpads.len() as u64 {
            assert(addresses(out@) =~= Seq::empty());
            return out;
        }
        match &self.launchpads[id as usize] {
            Some(book) => {
                let mut i: usize = 0;
                while i < book.users.len()
                    invariant
                        i <= book.users.len(),
                        out.len() == i,
                        forall|k: int| 0 <= k < i ==> out@[k]@ == book@.users[k].user,
                    decreases book.users.len() - i,
                {
                    out.push(book.users[i].user.clone());
                    i += 1;
                }
                assert(self@.book(id as nat) == book@);
                assert(addresses(out@) =~= self@.launchpad_users(id as nat));
            },
            None => {
                assert(addresses(out@) =~= Seq::empty());
            },
        }
        out
    }

    /// The addresses approved for launchpad `id`, in the order of their
    /// approval; none where no such launchpad is kept.
    pub fn whitelisted_users(&self, id: u64) -> (out: Vec<Address>)
        ensures
            addresses(out@) == self@.whitelisted_users(id as nat),
    {
        let mut out: Vec<Address> = Vec::new();
        if id >= self.launchpads.len() as u64 {
            assert(addresses(out@) =~= Seq::empty());
            return out;
        }
        match &self.launchpads[id as usize] {
            Some(book) => {
                let mut i: usize = 0;
                while i < book.whitelisted_users.len()
                    invariant
                        i <= book.whitelisted_users.len(),
                        out.len() == i,
                        forall|k: int| 0 <= k < i ==> out@[k]@ == book@.whitelisted_users[k],
                    decreases book.whitelisted_users.len() - i,
                {
                    out.push(book.whitelisted_users[i].clone());
                    i += 1;
                }
                assert(self@.book(id as nat) == book@);
                assert(addresses(out@) =~= self@.whitelisted_users(id as nat));
            },
            None => {
                assert(addresses(out@) =~= Seq::empty());
            },
        }
        out
    }

    /// Whether `user` may buy in launchpad `id`: `false` where no such
    /// launchpad is kept.
    pub fn is_whitelisted(&self, id: u64, user: &Address) -> (r: bool)
        ensures
            r == (self@.has(id as nat) && self@.book(id as nat).is_whitelisted(user@)),
    {
        if id >= self.launchpads.len() as u64 {
            return false;
        }
        match &self.launchpads[id as usize] {
            Some(book) => book.is_whitelisted(user),
            None => false,
        }
    }

    /// What `user` holds in launchpad `id`: zero where the user never bought
    /// or no such launchpad is kept.
    pub fn user_participation(&self, user: &Address, id: u64) -> (r: u128)
        ensures
            r == self@.user_participation(user@, id as nat),
    {
        if id >= self.launchpads.len() as u64 {
            return 0;
        }
        match &self.launchpads[id as usize] {
            Some(book) => book.bought(user),
            None => 0,
        }
    }

    /// The ids of the launchpads kept in which `user` has bought, ascending.
    pub fn user_launchpads(&self, user: &Address) -> (out: Vec<u64>)
        ensures
            out@.map_values(|id: u64| id as nat) == self@.user_launchpads(user@),
    {
        let ghost all = with_ids(self@.launchpads);
        let ghost f = pick_bought_by(user@);
        let mut out: Vec<u64> = Vec::new();
        let mut i: usize = 0;
        assert(out@.map_values(|id: u64| id as nat) =~= all.take(0).filter_map(f));
        while i < self.launchpads.len()
            invariant
                i <= self.launchpads.len(),
                all == with_ids(self@.launchpads),
                f == pick_bought_by(user@),
                out@.map_values(|id: u64| id as nat) == all.take(i as int).filter_map(f),
            decreases self.launchpads.len() - i,
        {
            proof {
                all.lemma_filter_map_take_succ(f, i as int);
            }
            match &self.launchpads[i] {
                Some(book) => {
                    if find_participant(&book.users, user).is_some() {
                        out.push(i as u64);
                    }
                },
                None => {},
            }
            assert(out@.map_values(|id: u64| id as nat) =~= all.take(i + 1).filter_map(f));
            i += 1;
        }
        assert(all.take(i as int) =~= all);
        out
    }

    /// The record of launchpad `id`, if it is kept.
    pub fn launchpads(&self, id: u64) -> (r: Option<Launchpad>)
        ensures
            match r {
                Some(l) => self@.has(id as nat) && l@ == self@.sale(id as nat),
                None => !self@.has(id as nat),
            },
    {
        if id >= self.launchpads.len() as u64 {
            return None;
        }
        match &self.launchpads[id as usize] {
            Some(book) => Some(book.launchpad.clone()),
            None => None,
        }
    }
}

} // verus!
