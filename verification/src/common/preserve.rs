use crate::common::config::Sale;
use crate::common::ledger::{
    find_user, held_total, is_first_of, Ledger, Participation, SaleBook,
};
use crate::common::types::PaymentSpec;
use vstd::prelude::*;

verus! {

/// `find_user` gives the first place of the user, and `None` only where the
/// user has no place.
pub proof fn lemma_find_user(users: Seq<Participation>, user: Seq<u8>)
    ensures
        match find_user(users, user) {
            Some(i) => is_first_of(users, user, i),
            None => forall|k: int| 0 <= k < users.len() ==> (#[trigger] users[k]).user != user,
        },
{
    if find_user(users, user) is None {
        assert forall|k: int| 0 <= k < users.len() implies (#[trigger] users[k]).user != user by {
            if users[k].user == user {
                lemma_some_first(users, user, k);
            }
        }
    }
}

/// A user with a place has a first place.
proof fn lemma_some_first(users: Seq<Participation>, user: Seq<u8>, k: int)
    requires
        0 <= k < users.len(),
        users[k].user == user,
    ensures
        exists|i: int| is_first_of(users, user, i),
    decreases k,
{
    if exists|j: int| 0 <= j < k && users[j].user == user {
        let j = choose|j: int| 0 <= j < k && users[j].user == user;
        lemma_some_first(users, user, j);
    } else {
        assert(is_first_of(users, user, k));
    }
}

/// One more buyer adds what that buyer holds.
pub proof fn lemma_held_total_push(users: Seq<Participation>, p: Participation)
    ensures
        held_total(users.push(p)) == held_total(users) + p.bought,
{
    assert(users.push(p).drop_last() =~= users);
}

/// Changing what one buyer holds changes the total by as much.
pub proof fn lemma_held_total_update(users: Seq<Participation>, i: int, p: Participation)
    requires
        0 <= i < users.len(),
    ensures
        held_total(users.update(i, p)) + users[i].bought == held_total(users) + p.bought,
    decreases users.len(),
{
    let after = users.update(i, p);
    if i == users.len() - 1 {
        assert(after.drop_last() =~= users.drop_last());
    } else {
        assert(after.drop_last() =~= users.drop_last().update(i, p));
        lemma_held_total_update(users.drop_last(), i, p);
    }
}

/// A ledger with the same launchpads as a sound one is sound.
pub proof fn lemma_same_launchpads(a: Ledger, b: Ledger)
    requires
        a.inv(),
        a.launchpads == b.launchpads,
    ensures
        b.inv(),
{
    assert forall|id: nat| #[trigger] b.has(id) implies b.book(id).valid() && b.sale(id).id
        == id by {
        assert(a.has(id));
    }
    assert forall|i: nat, j: nat| #[trigger] b.has(i) && #[trigger] b.has(j) && i != j implies b.sale(
        i,
    ).token != b.sale(j).token by {
        assert(a.has(i) && a.has(j));
    }
}

/// Replacing a launchpad by a sound one with the same id and token keeps
/// the ledger sound.
pub proof fn lemma_with_book(l: Ledger, id: nat, book: SaleBook)
    requires
        l.inv(),
        l.has(id),
        book.valid(),
        book.sale.id == id,
        book.sale.token == l.sale(id).token,
    ensures
        l.with_book(id, book).inv(),
        l.with_book(id, book).has(id),
        l.with_book(id, book).book(id) == book,
{
    let m = l.with_book(id, book);
    assert forall|k: nat| #[trigger] m.has(k) implies m.book(k).valid() && m.sale(k).id == k by {
        if k != id {
            assert(l.has(k));
        }
    }
    assert forall|i: nat, j: nat| #[trigger] m.has(i) && #[trigger] m.has(j) && i != j implies m.sale(
        i,
    ).token != m.sale(j).token by {
        assert(l.has(i) && l.has(j));
    }
}

/// Crediting a buyer keeps every other buyer's holding, and no buyer is
/// then listed twice.
pub proof fn lemma_credit(book: SaleBook, user: Seq<u8>, amount: nat)
    requires
        book.valid(),
        book.sale.min_buy_amount <= book.bought(user) + amount <= book.sale.max_buy_amount,
        book.sale.total_sold + amount <= book.sale.amount,
    ensures
        (SaleBook {
            sale: Sale { total_sold: book.sale.total_sold + amount, ..book.sale },
            users: book.credit(user, amount),
            ..book
        }).valid(),
        (SaleBook { users: book.credit(user, amount), ..book }).bought(user) == book.bought(user)
            + amount,
        forall|other: Seq<u8>|
            other != user ==> (SaleBook { users: book.credit(user, amount), ..book }).bought(
                other,
            ) == book.bought(other),
{
    let after = SaleBook { users: book.credit(user, amount), ..book };
    let sold = SaleBook {
        sale: Sale { total_sold: book.sale.total_sold + amount, ..book.sale },
        users: book.credit(user, amount),
        ..book
    };
    lemma_find_user(book.users, user);
    match find_user(book.users, user) {
        Some(i) => {
            lemma_held_total_update(
                book.users,
                i,
                Participation { user, bought: book.users[i].bought + amount },
            );
        },
        None => {
            lemma_held_total_push(book.users, Participation { user, bought: amount });
        },
    }
    assert(held_total(sold.users) == sold.sale.total_sold);
    match find_user(book.users, user) {
        Some(i) => {
            assert(after.users.len() == book.users.len());
            assert forall|k: int| 0 <= k < after.users.len() implies (#[trigger] after.users[k]).user
                == book.users[k].user by {}
            assert(is_first_of(after.users, user, i));
        },
        None => {
            let i = book.users.len() as int;
            assert(after.users[i].user == user);
            assert forall|k: int| 0 <= k < i implies (#[trigger] after.users[k]).user
                == book.users[k].user by {}
            assert(is_first_of(after.users, user, i));
        },
    }
    lemma_find_user(after.users, user);
    let i = find_user(after.users, user)->0;
    assert forall|x: int, y: int| 0 <= x < y < after.users.len() implies (
    #[trigger] after.users[x]).user != (#[trigger] after.users[y]).user by {
        if y < book.users.len() {
            assert(book.users[x].user != book.users[y].user);
        } else {
            assert(book.users[x].user != user);
        }
    }
    assert forall|k: int| 0 <= k < after.users.len() implies after.sale.min_buy_amount <= (
    #[trigger] after.users[k]).bought <= after.sale.max_buy_amount by {
        if k < book.users.len() && k != i {
            assert(after.users[k] == book.users[k]);
        }
    }
    assert(sold.users == after.users);
    assert(sold.valid());
    assert forall|other: Seq<u8>| other != user implies after.bought(other) == book.bought(
        other,
    ) by {
        lemma_find_user(book.users, other);
        lemma_find_user(after.users, other);
        match find_user(book.users, other) {
            Some(j) => {
                assert(after.users[j] == book.users[j]);
                assert(is_first_of(after.users, other, j)) by {
                    assert forall|k: int| 0 <= k < j implies after.users[k].user != other by {
                        assert(book.users[k].user != other);
                    }
                }
                lemma_first_is_found(after.users, other, j);
            },
            None => {
                if find_user(after.users, other) is Some {
                    let j = find_user(after.users, other)->0;
                    if j < book.users.len() {
                        assert(book.users[j].user == other);
                    }
                }
            },
        }
    }
}

/// The first place of a user is what `find_user` gives.
pub proof fn lemma_first_is_found(users: Seq<Participation>, user: Seq<u8>, i: int)
    requires
        is_first_of(users, user, i),
    ensures
        find_user(users, user) == Some(i),
{
    let j = choose|j: int| is_first_of(users, user, j);
    assert(is_first_of(users, user, j));
    if j < i {
        assert(users[j].user != user);
    } else if i < j {
        assert(users[i].user != user);
    }
}

/// A purchase keeps the ledger sound.
pub proof fn lemma_buy_inv(l: Ledger, id: nat, caller: Seq<u8>, payment: PaymentSpec, now: u64)
    requires
        l.inv(),
    ensures
        l.buy(id, caller, payment, now).inv(),
{
    if l.buy_result(id, caller, payment, now) is Ok {
        let book = l.book(id);
        let amount = l.bought_for(id, payment);
        lemma_credit(book, caller, amount);
        let after = SaleBook {
            sale: Sale {
                total_raised: book.sale.total_raised + payment.amount,
                total_sold: book.sale.total_sold + amount,
                ..book.sale
            },
            users: book.credit(caller, amount),
            ..book
        };
        let mid = SaleBook {
            sale: Sale { total_sold: book.sale.total_sold + amount, ..book.sale },
            users: book.credit(caller, amount),
            ..book
        };
        assert(mid.valid());
        assert(after.valid()) by {
            assert(after.users == mid.users);
            assert(after.whitelisted_users == mid.whitelisted_users);
        }
        lemma_with_book(l, id, after);
    }
}

/// A new launchpad keeps the ledger sound.
pub proof fn lemma_new_launchpad_inv(l: Ledger, caller: Seq<u8>, sale: Sale, now: u64)
    requires
        l.inv(),
        sale.id == l.launchpads.len(),
        sale.total_sold == 0,
    ensures
        l.new_launchpad(caller, sale, now).inv(),
{
    let m = l.new_launchpad(caller, sale, now);
    if l.new_launchpad_result(caller, sale, now) is Ok {
        let n = l.launchpads.len();
        assert forall|k: nat| #[trigger] m.has(k) implies m.book(k).valid() && m.sale(k).id
            == k by {
            if k < n {
                assert(l.has(k));
            } else {
                assert(m.book(k).users =~= Seq::empty());
                assert(held_total(m.book(k).users) == 0);
            }
        }
        assert forall|i: nat, j: nat| #[trigger]
            m.has(i) && #[trigger] m.has(j) && i != j implies m.sale(i).token != m.sale(
            j,
        ).token by {
            if i < n {
                assert(l.has(i));
            }
            if j < n {
                assert(l.has(j));
            }
        }
    }
}

/// A deposit keeps the ledger sound.
pub proof fn lemma_add_tokens_inv(l: Ledger, id: nat, payment: PaymentSpec, now: u64)
    requires
        l.inv(),
    ensures
        l.add_tokens(id, payment, now).inv(),
{
    if l.add_tokens_result(id, payment, now) is Ok {
        let book = SaleBook {
            sale: Sale { amount: l.sale(id).amount + payment.amount, ..l.sale(id) },
            ..l.book(id)
        };
        assert(book.valid()) by {
            assert(l.book(id).valid());
        }
        lemma_with_book(l, id, book);
    }
}

/// Cancelling a launchpad keeps the ledger sound.
pub proof fn lemma_cancel_launchpad_inv(l: Ledger, id: nat, caller: Seq<u8>)
    requires
        l.inv(),
    ensures
        l.cancel_launchpad(id, caller).inv(),
{
    let m = l.cancel_launchpad(id, caller);
    if l.cancel_launchpad_result(id, caller) is Ok {
        assert forall|k: nat| #[trigger] m.has(k) implies m.book(k).valid() && m.sale(k).id
            == k by {
            assert(l.has(k));
        }
        assert forall|i: nat, j: nat| #[trigger]
            m.has(i) && #[trigger] m.has(j) && i != j implies m.sale(i).token != m.sale(
            j,
        ).token by {
            assert(l.has(i) && l.has(j));
        }
    }
}

/// Approving a buyer keeps the ledger sound.
pub proof fn lemma_whitelist_user_inv(l: Ledger, id: nat, caller: Seq<u8>, user: Seq<u8>)
    requires
        l.inv(),
    ensures
        l.whitelist_user(id, caller, user).inv(),
{
    if l.whitelist_user_result(id, caller) is Ok {
        let old_book = l.book(id);
        let book = SaleBook { whitelisted_users: old_book.approve(user), ..old_book };
        assert(old_book.valid());
        assert(book.valid()) by {
            assert forall|i: int, j: int|
                0 <= i < j < book.whitelisted_users.len() implies book.whitelisted_users[i]
                != book.whitelisted_users[j] by {
                if j < old_book.whitelisted_users.len() {
                } else {
                    assert(!old_book.whitelisted_users.contains(user));
                    assert(old_book.whitelisted_users[i] != user);
                }
            }
        }
        lemma_with_book(l, id, book);
    }
}

/// Settling a launchpad keeps the ledger sound.
pub proof fn lemma_deploy_franchise_inv(l: Ledger, id: nat, now: u64, address: Seq<u8>)
    requires
        l.inv(),
    ensures
        l.deploy_franchise(id, now, address).inv(),
{
    if l.settlement(id, now) is Ok {
        let book = SaleBook { sale: Sale { deployed: true, ..l.sale(id) }, ..l.book(id) };
        assert(book.valid()) by {
            assert(l.book(id).valid());
        }
        lemma_with_book(l, id, book);
        lemma_same_launchpads(l.with_book(id, book), l.deploy_franchise(id, now, address));
    }
}

} // verus!
