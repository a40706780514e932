//! The wallet capability: anything that can say what its balance is.

use vstd::prelude::*;

verus! {

/// A holder of funds. The balance is a function of the wallet's state, and
/// asking for it changes nothing.
pub trait Wallet {
    /// The balance that `balance` reports, in satoshis.
    spec fn balance_of(&self) -> u64;

    fn balance(&self) -> (amount: u64)
        ensures
            amount == self.balance_of(),
    ;
}

/// A wallet that is one stored amount.
pub struct TestWallet {
    pub confirmed: u64,
}

impl Wallet for TestWallet {
    open spec fn balance_of(&self) -> u64 {
        self.confirmed
    }

    fn balance(&self) -> (amount: u64) {
        self.confirmed
    }
}

} // verus!
