use vstd::prelude::*;

verus! {

/// Tells whether two byte strings hold the same bytes.
pub fn bytes_eq(a: &Vec<u8>, b: &Vec<u8>) -> (r: bool)
    ensures
        r == (a@ == b@),
{
    if a.len() != b.len() {
        return false;
    }
    let mut i: usize = 0;
    while i < a.len()
        invariant
            a.len() == b.len(),
            i <= a.len(),
            forall|k: int| 0 <= k < i ==> a@[k] == b@[k],
        decreases a.len() - i,
    {
        if a[i] != b[i] {
            return false;
        }
        i += 1;
    }
    assert(a@ =~= b@);
    true
}

/// A copy of a byte string.
pub fn bytes_copy(a: &Vec<u8>) -> (r: Vec<u8>)
    ensures
        r@ == a@,
{
    let mut r: Vec<u8> = Vec::new();
    let mut i: usize = 0;
    while i < a.len()
        invariant
            i <= a.len(),
            r@ == a@.subrange(0, i as int),
        decreases a.len() - i,
    {
        r.push(a[i]);
        assert(r@ =~= a@.subrange(0, i + 1));
        i += 1;
    }
    assert(a@.subrange(0, a.len() as int) =~= a@);
    r
}

/// An account address, held as its raw bytes. Its view is the byte string.
#[derive(Debug, PartialEq, Eq)]
pub struct Address {
    pub bytes: Vec<u8>,
}

impl View for Address {
    type V = Seq<u8>;

    open spec fn view(&self) -> Seq<u8> {
        self.bytes@
    }
}

impl Clone for Address {
    fn clone(&self) -> (r: Self)
        ensures
            r@ == self@,
    {
        Address { bytes: bytes_copy(&self.bytes) }
    }
}

impl Address {
    pub fn new(bytes: Vec<u8>) -> (a: Address)
        ensures
            a@ == bytes@,
    {
        Address { bytes }
    }

    /// Whether both addresses are the same account.
    pub fn same_as(&self, other: &Address) -> (r: bool)
        ensures
            r == (self@ == other@),
    {
        bytes_eq(&self.bytes, &other.bytes)
    }
}

/// The identifier of a fungible token, held as its raw bytes. Its view is
/// the byte string.
#[derive(Debug, PartialEq, Eq)]
pub struct TokenId {
    pub bytes: Vec<u8>,
}

impl View for TokenId {
    type V = Seq<u8>;

    open spec fn view(&self) -> Seq<u8> {
        self.bytes@
    }
}

impl Clone for TokenId {
    fn clone(&self) -> (r: Self)
        ensures
            r@ == self@,
    {
        TokenId { bytes: bytes_copy(&self.bytes) }
    }
}

impl TokenId {
    pub fn new(bytes: Vec<u8>) -> (t: TokenId)
        ensures
            t@ == bytes@,
    {
        TokenId { bytes }
    }

    /// Whether both identifiers name the same token.
    pub fn same_as(&self, other: &TokenId) -> (r: bool)
        ensures
            r == (self@ == other@),
    {
        bytes_eq(&self.bytes, &other.bytes)
    }
}

/// The mathematical value of a [`Payment`].
pub struct PaymentSpec {
    pub token: Seq<u8>,
    pub amount: nat,
}

/// An amount of one token: what a caller sends along, or what is owed.
#[derive(Debug, PartialEq, Eq)]
pub struct Payment {
    pub token: TokenId,
    pub amount: u128,
}

impl View for Payment {
    type V = PaymentSpec;

    open spec fn view(&self) -> PaymentSpec {
        PaymentSpec { token: self.token@, amount: self.amount as nat }
    }
}

impl Clone for Payment {
    fn clone(&self) -> (r: Self)
        ensures
            r@ == self@,
    {
        Payment { token: self.token.clone(), amount: self.amount }
    }
}

/// The mathematical value of a [`Transfer`].
pub struct TransferSpec {
    pub to: Seq<u8>,
    pub token: Seq<u8>,
    pub amount: nat,
}

/// An order to the host: send `amount` of `token` to `to`.
#[derive(Debug, PartialEq, Eq)]
pub struct Transfer {
    pub to: Address,
    pub token: TokenId,
    pub amount: u128,
}

impl View for Transfer {
    type V = TransferSpec;

    open spec fn view(&self) -> TransferSpec {
        TransferSpec { to: self.to@, token: self.token@, amount: self.amount as nat }
    }
}

/// The mathematical value of a [`Settlement`].
pub struct SettlementSpec {
    pub owner: Seq<u8>,
    pub token: Seq<u8>,
    pub details: Seq<u8>,
    pub payments: Seq<PaymentSpec>,
}

/// What a launchpad pays out when it is settled: the payments are due to
/// `owner`, for whom the franchise of `token` is deployed.
#[derive(Debug, PartialEq, Eq)]
pub struct Settlement {
    pub owner: Address,
    pub token: TokenId,
    pub details: Vec<u8>,
    pub payments: Vec<Payment>,
}

impl View for Settlement {
    type V = SettlementSpec;

    open spec fn view(&self) -> SettlementSpec {
        SettlementSpec {
            owner: self.owner@,
            token: self.token@,
            details: self.details@,
            payments: payments(self.payments@),
        }
    }
}

/// The byte strings of a list of addresses, in order.
pub open spec fn addresses(v: Seq<Address>) -> Seq<Seq<u8>> {
    Seq::new(v.len(), |i: int| v[i]@)
}

/// The byte string of an address that may be unset.
pub open spec fn address_opt(a: Option<Address>) -> Option<Seq<u8>> {
    match a {
        Some(a) => Some(a@),
        None => None,
    }
}

/// The byte string of a token identifier that may be unset.
pub open spec fn token_opt(t: Option<TokenId>) -> Option<Seq<u8>> {
    match t {
        Some(t) => Some(t@),
        None => None,
    }
}

/// The values of a list of payments, in order.
pub open spec fn payments(v: Seq<Payment>) -> Seq<PaymentSpec> {
    Seq::new(v.len(), |i: int| v[i]@)
}

/// Whether a list of addresses holds `a`.
pub fn contains_address(list: &Vec<Address>, a: &Address) -> (r: bool)
    ensures
        r == addresses(list@).contains(a@),
{
    let mut i: usize = 0;
    while i < list.len()
        invariant
            i <= list.len(),
            forall|k: int| 0 <= k < i ==> list@[k]@ != a@,
        decreases list.len() - i,
    {
        if list[i].same_as(a) {
            assert(addresses(list@)[i as int] == a@);
            return true;
        }
        i += 1;
    }
    false
}

} // verus!
