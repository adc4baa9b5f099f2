use vstd::prelude::*;

verus! {

/// Base units in one whole launched token (18 decimals). A price is the
/// number of payment-token base units asked for this many base units.
pub const ONE: u128 = 1_000_000_000_000_000_000;

} // verus!
