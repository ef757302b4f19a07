//! Money attached to a command, and money the host is asked to pay out.

use vstd::prelude::*;

verus! {

/// An amount of one denomination, as attached to a command.
#[derive(Clone, Debug, PartialEq, Eq)]
pub struct Coin {
    pub denom: String,
    pub amount: u128,
}

/// Mathematical view of a [`Coin`].
pub struct CoinView {
    pub denom: Seq<char>,
    pub amount: u128,
}

impl View for Coin {
    type V = CoinView;

    open spec fn view(&self) -> CoinView {
        CoinView { denom: self.denom@, amount: self.amount }
    }
}

/// Views of the coins of a payment, in order.
pub open spec fn funds_view(funds: Seq<Coin>) -> Seq<CoinView> {
    Seq::new(funds.len(), |i: int| funds[i]@)
}

/// The denomination in which the game is played.
pub open spec fn game_denom() -> Seq<char> {
    "uscrt"@
}

/// An instruction to the host: pay `amount` to `to`.
#[derive(Clone, Debug, PartialEq, Eq)]
pub struct Payout {
    pub to: String,
    pub amount: u128,
}

/// Mathematical view of a [`Payout`].
pub struct PayoutView {
    pub to: Seq<char>,
    pub amount: u128,
}

impl View for Payout {
    type V = PayoutView;

    open spec fn view(&self) -> PayoutView {
        PayoutView { to: self.to@, amount: self.amount }
    }
}

} // verus!
