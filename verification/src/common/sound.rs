use crate::common::config::{participations, ConfigModule, LaunchpadBook, Participant};
use crate::common::ledger::{held_total, Participation};
use crate::common::types::{addresses, Address};
use vstd::prelude::*;

verus! {

/// The buyers up to a place hold no more than all of them.
proof fn lemma_held_total_grows(users: Seq<Participation>, n: int)
    requires
        0 <= n <= users.len(),
    ensures
        held_total(users.take(n)) <= held_total(users),
    decreases users.len() - n,
{
    if n < users.len() {
        assert(users.take(n + 1).drop_last() =~= users.take(n));
        lemma_held_total_grows(users, n + 1);
    } else {
        assert(users.take(n) =~= users);
    }
}

/// Whether no address stands twice in the list.
pub fn distinct_addresses(list: &Vec<Address>) -> (r: bool)
    ensures
        r == (forall|i: int, j: int|
            0 <= i < j < list.len() ==> addresses(list@)[i] != addresses(list@)[j]),
{
    let ghost s = addresses(list@);
    let mut j: usize = 0;
    while j < list.len()
        invariant
            j <= list.len(),
            s == addresses(list@),
            forall|a: int, b: int| 0 <= a < b < j ==> s[a] != s[b],
        decreases list.len() - j,
    {
        let mut i: usize = 0;
        while i < j
            invariant
                i <= j < list.len(),
                s == addresses(list@),
                forall|a: int| 0 <= a < i ==> s[a] != s[j as int],
            decreases j - i,
        {
            if list[i].same_as(&list[j]) {
                assert(s[i as int] == s[j as int]);
                return false;
            }
            i += 1;
        }
        j += 1;
    }
    true
}

/// Whether no buyer stands twice in the list.
fn distinct_users(list: &Vec<Participant>) -> (r: bool)
    ensures
        r == (forall|i: int, j: int|
            0 <= i < j < list.len() ==> (#[trigger] participations(list@)[i]).user != (
            #[trigger] participations(list@)[j]).user),
{
    let ghost s = participations(list@);
    let mut j: usize = 0;
    while j < list.len()
        invariant
            j <= list.len(),
            s == participations(list@),
            forall|a: int, b: int| 0 <= a < b < j ==> (#[trigger] s[a]).user != (#[trigger] s[b]).user,
        decreases list.len() - j,
    {
        let mut i: usize = 0;
        while i < j
            invariant
                i <= j < list.len(),
                s == participations(list@),
                forall|a: int| 0 <= a < i ==> (#[trigger] s[a]).user != s[j as int].user,
            decreases j - i,
        {
            if list[i].user.same_as(&list[j].user) {
                assert(s[i as int].user == s[j as int].user);
                return false;
            }
            i += 1;
        }
        j += 1;
    }
    true
}

impl LaunchpadBook {
    /// Whether every buyer holds an amount within the bounds of the
    /// launchpad.
    fn holdings_within_bounds(&self) -> (r: bool)
        ensures
            r == (forall|i: int|
                0 <= i < self@.users.len() ==> self@.sale.min_buy_amount <= (
                #[trigger] self@.users[i]).bought <= self@.sale.max_buy_amount),
    {
        let mut i: usize = 0;
        while i < self.users.len()
            invariant
                i <= self.users.len(),
                forall|k: int|
                    0 <= k < i ==> self@.sale.min_buy_amount <= (#[trigger] self@.users[k]).bought
                        <= self@.sale.max_buy_amount,
            decreases self.users.len() - i,
        {
            let held: u128 = self.users[i].bought;
            if held < self.launchpad.min_buy_amount || held > self.launchpad.max_buy_amount {
                assert(self@.users[i as int].bought == held);
                return false;
            }
            i += 1;
        }
        true
    }

    /// Whether what was sold is what the buyers hold together.
    fn holdings_add_up(&self) -> (r: bool)
        ensures
            r == (held_total(self@.users) == self@.sale.total_sold),
    {
        let ghost users = self@.users;
        let mut sum: u128 = 0;
        let mut i: usize = 0;
        assert(users.take(0) =~= Seq::empty());
        while i < self.users.len()
            invariant
                i <= self.users.len(),
                users == self@.users,
                sum == held_total(users.take(i as int)),
                sum <= self.launchpad.total_sold,
            decreases self.users.len() - i,
        {
            let held: u128 = self.users[i].bought;
            proof {
                assert(users.take(i + 1).drop_last() =~= users.take(i as int));
                assert(users.take(i + 1).last().bought == held);
                lemma_held_total_grows(users, i + 1);
            }
            if held > self.launchpad.total_sold - sum {
                return false;
            }
            sum = sum + held;
            i += 1;
        }
        assert(users.take(i as int) =~= users);
        sum == self.launchpad.total_sold
    }

    /// Whether the launchpad with its lists is as the contract keeps them:
    /// see [`crate::common::ledger::SaleBook::valid`].
    pub fn is_valid(&self) -> (r: bool)
        ensures
            r == self@.valid(),
    {
        let l = &self.launchpad;
        let record: bool = l.price > 0 && l.min_buy_amount <= l.max_buy_amount && l.start_time
            < l.end_time && l.total_sold <= l.amount;
        assert(record == self@.sale.valid());
        let approved: bool = distinct_addresses(&self.whitelisted_users);
        assert(self@.whitelisted_users == addresses(self.whitelisted_users@));
        let buyers: bool = distinct_users(&self.users);
        assert(self@.users == participations(self.users@));
        let bounds: bool = self.holdings_within_bounds();
        let adds_up: bool = self.holdings_add_up();
        record && approved && buyers && bounds && adds_up
    }
}

impl ConfigModule {
    /// Whether each launchpad kept is valid and stands under its own id.
    fn launchpads_valid(&self) -> (r: bool)
        ensures
            r == (forall|id: nat| #[trigger]
                self@.has(id) ==> self@.book(id).valid() && self@.sale(id).id == id),
    {
        let mut i: usize = 0;
        while i < self.launchpads.len()
            invariant
                i <= self.launchpads.len(),
                forall|id: nat|
                    id < i && #[trigger] self@.has(id) ==> self@.book(id).valid() && self@.sale(
                        id,
                    ).id == id,
            decreases self.launchpads.len() - i,
        {
            match &self.launchpads[i] {
                Some(book) => {
                    assert(self@.has(i as nat) && self@.book(i as nat) == book@);
                    if !book.is_valid() || book.launchpad.id != i as u64 {
                        return false;
                    }
                },
                None => {},
            }
            i += 1;
        }
        true
    }

    /// Whether no two launchpads kept sell the same token.
    fn tokens_unique(&self) -> (r: bool)
        ensures
            r == (forall|i: nat, j: nat|
                #[trigger] self@.has(i) && #[trigger] self@.has(j) && i != j ==> self@.sale(i).token
                    != self@.sale(j).token),
    {
        let mut j: usize = 0;
        while j < self.launchpads.len()
            invariant
                j <= self.launchpads.len(),
                forall|a: nat, b: nat|
                    a < j && b < j && #[trigger] self@.has(a) && #[trigger] self@.has(b) && a != b
                        ==> self@.sale(a).token != self@.sale(b).token,
            decreases self.launchpads.len() - j,
        {
            match &self.launchpads[j] {
                Some(later) => {
                    assert(self@.has(j as nat) && self@.book(j as nat) == later@);
                    let mut i: usize = 0;
                    while i < j
                        invariant
                            i <= j < self.launchpads.len(),
                            self@.has(j as nat),
                            self@.book(j as nat) == later@,
                            forall|a: nat|
                                a < i && #[trigger] self@.has(a) ==> self@.sale(a).token
                                    != later@.sale.token,
                        decreases j - i,
                    {
                        match &self.launchpads[i] {
                            Some(earlier) => {
                                if earlier.launchpad.token.same_as(&later.launchpad.token) {
                                    assert(self@.has(i as nat) && self@.has(j as nat));
                                    assert(self@.sale(i as nat).token == self@.sale(j as nat).token);
                                    return false;
                                }
                            },
                            None => {},
                        }
                        i += 1;
                    }
                },
                None => {},
            }
            j += 1;
        }
        true
    }

    /// Whether the contract is in a state that its operations keep. A state
    /// that was put together by hand is to be tested with this before an
    /// operation is called on it.
    pub fn is_sound(&self) -> (r: bool)
        ensures
            r == self.wf(),
    {
        self.launchpads_valid() && self.tokens_unique()
    }
}

} // verus!
