use vstd::prelude::*;

verus! {

/// Why an operation was rejected. A rejected operation changes nothing.
#[derive(Clone, Copy, Debug, PartialEq, Eq, Structural)]
pub enum LaunchpadError {
    /// The contract is paused.
    NotActive,
    /// The caller is not the main DAO.
    OnlyMainDao,
    /// The caller is not the owner of the launchpad.
    OnlyLaunchpadOwner,
    /// The caller is neither the contract's owner nor the main DAO.
    OnlyOwnerOrDao,
    /// The main DAO has not been set yet.
    DaoNotSet,
    /// The main DAO was set before.
    DaoAlreadySet,
    /// The exchange has not been set yet.
    DexNotSet,
    /// The exchange was set before.
    DexAlreadySet,
    /// The digital-identity contract has not been set yet.
    DigitalIdentityNotSet,
    /// The price is zero.
    InvalidPrice,
    /// The minimum buy amount exceeds the maximum.
    InvalidQuota,
    /// The window does not start in the future or does not end after its start.
    InvalidWindow,
    /// A live launchpad already sells this token.
    TokenAlreadyLaunched,
    /// No launchpad has this id.
    SaleNotFound,
    /// The window has ended: no more tokens can be added.
    WindowClosed,
    /// The token presented is not the one expected.
    WrongToken,
    /// Tokens were sold already: the launchpad can no longer be cancelled.
    CannotCancelAfterSales,
    /// The launchpad is outside its window or has nothing left to sell.
    SaleInactive,
    /// The launchpad asks for whitelisting and the buyer is not on its list.
    NotWhitelisted,
    /// The buyer's total would stay under the minimum.
    BelowMinimum,
    /// The buyer's total would exceed the maximum.
    AboveMaximum,
    /// The launchpad has fewer tokens left than the purchase takes.
    InsufficientInventory,
    /// The window has not ended yet.
    WindowNotEnded,
    /// The launchpad was settled before.
    AlreadySettled,
    /// A total would no longer fit in 128 bits.
    AmountOverflow,
}

/// Whether the answer `r` of an operation is the answer `expected` of its
/// rule: the same error, or a value with the expected view.
pub open spec fn answers<T: View>(
    r: Result<T, LaunchpadError>,
    expected: Result<T::V, LaunchpadError>,
) -> bool {
    match r {
        Ok(v) => expected == Ok::<T::V, LaunchpadError>(v@),
        Err(e) => expected == Err::<T::V, LaunchpadError>(e),
    }
}

} // verus!
