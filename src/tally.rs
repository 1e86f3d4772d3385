//! The counters of the portfolio summary, folded over the simulated tickers.
use vstd::prelude::*;

verus! {

pub struct TallyView {
    pub stocks: nat,
    pub trades: nat,
    pub wins: nat,
}

/// Tickers processed, and trades and winning trades over all of them.
pub struct Tally {
    stocks: usize,
    trades: usize,
    wins: usize,
}

impl View for Tally {
    type V = TallyView;

    closed spec fn view(&self) -> TallyView {
        TallyView { stocks: self.stocks as nat, trades: self.trades as nat, wins: self.wins as nat }
    }
}

impl Tally {
    /// No ticker processed yet.
    pub fn new() -> (r: Tally)
        ensures
            r@ == (TallyView { stocks: 0, trades: 0, wins: 0 }),
    {
        Tally { stocks: 0, trades: 0, wins: 0 }
    }

    /// Counts one more processed ticker with its trades and wins. A ticker
    /// without trades still counts as processed.
    pub fn add(&mut self, trades: usize, wins: usize)
        requires
            old(self)@.stocks < usize::MAX,
            old(self)@.trades + trades <= usize::MAX,
            old(self)@.wins + wins <= usize::MAX,
        ensures
            final(self)@ == (TallyView {
                stocks: old(self)@.stocks + 1,
                trades: old(self)@.trades + trades as nat,
                wins: old(self)@.wins + wins as nat,
            }),
    {
        self.stocks = self.stocks + 1;
        self.trades = self.trades + trades;
        self.wins = self.wins + wins;
    }

    pub fn stocks(&self) -> (r: usize)
        ensures
            r == self@.stocks,
    {
        self.stocks
    }

    pub fn trades(&self) -> (r: usize)
        ensures
            r == self@.trades,
    {
        self.trades
    }

    pub fn wins(&self) -> (r: usize)
        ensures
            r == self@.wins,
    {
        self.wins
    }
}

} // verus!
