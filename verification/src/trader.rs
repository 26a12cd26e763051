//! The trading-cycle orchestrator.
//!
//! A `Trader` owns the two ladder configurations and the timing parameters,
//! and decides the strict clear / fetch / compute-and-place / sleep cycle.
//! Every decision is a pure function here: the caller performs the exchange
//! calls, the retry cooldowns and the sleeps, and feeds the results back.

use vstd::prelude::*;
use crate::dec::Dec;
use crate::strategy::{
    OrderSpec,
    Strategy,
    StrategyError,
    amounts_ok,
    degenerate,
    orders_view,
    prices_ok,
    spec_amounts,
    spec_ladder,
    spec_prices,
};

verus! {

/// An order the exchange reports open, tagged by side, known by identity.
#[derive(Clone, Copy, Debug, PartialEq, Eq, Structural)]
pub enum OpenOrder {
    Bid { id: u64 },
    Ask { id: u64 },
}

/// A cancellation the caller must issue, through the side's cancel call.
#[derive(Clone, Copy, Debug, PartialEq, Eq, Structural)]
pub enum CancelCommand {
    CancelBid { id: u64 },
    CancelAsk { id: u64 },
}

/// An order placement the caller must issue, through the side's create call.
#[derive(Clone, Copy, Debug, PartialEq, Eq, Structural)]
pub enum PlaceCommand {
    PlaceBid { amount: Dec, price: Dec },
    PlaceAsk { amount: Dec, price: Dec },
}

/// A fresh order-book snapshot, best price first on each side; an entry is
/// a `(price, size)` pair.
#[derive(Clone, Debug)]
pub struct OrderBook {
    pub bids: Vec<(Dec, Dec)>,
    pub asks: Vec<(Dec, Dec)>,
}

/// The orders one cycle places: the bid ladder, then the ask ladder.
#[derive(Clone, Debug)]
pub struct TradePlan {
    pub bids: Vec<OrderSpec>,
    pub asks: Vec<OrderSpec>,
}

/// How a finite clear phase ended.
#[derive(Clone, Debug)]
pub struct ClearTrace {
    /// Every cancellation issued, one per reported open order, in order.
    pub cancels: Vec<CancelCommand>,
    /// Listings fetched, the final empty one included.
    pub polls: usize,
}

/// The side-appropriate cancellation for an open order.
pub open spec fn cancel_of(o: OpenOrder) -> CancelCommand {
    match o {
        OpenOrder::Bid { id } => CancelCommand::CancelBid { id },
        OpenOrder::Ask { id } => CancelCommand::CancelAsk { id },
    }
}

/// The cancellations for one listing of open orders, in listed order.
pub open spec fn cancels_of(orders: Seq<OpenOrder>) -> Seq<CancelCommand> {
    Seq::new(orders.len(), |j: int| cancel_of(orders[j]))
}

/// The cancellations the clear phase issues over its first `rounds`
/// listings, in order.
pub open spec fn spec_cancels(listings: Seq<Seq<OpenOrder>>, rounds: int) -> Seq<CancelCommand>
    decreases rounds,
{
    if rounds <= 0 {
        Seq::empty()
    } else {
        spec_cancels(listings, rounds - 1) + cancels_of(listings[rounds - 1])
    }
}

/// The listings of a scripted exchange, as sequences.
pub open spec fn listings_view(listings: Seq<Vec<OpenOrder>>) -> Seq<Seq<OpenOrder>> {
    listings.map_values(|l: Vec<OpenOrder>| l@)
}

/// The error a failed ladder build reports.
pub open spec fn ladder_err(s: Strategy) -> StrategyError {
    if degenerate(s) {
        StrategyError::Degenerate
    } else {
        StrategyError::Overflow
    }
}

/// A strategy builds its ladder from this reference price without error.
pub open spec fn ladder_ok(s: Strategy, start: int) -> bool {
    prices_ok(s, start) && amounts_ok(s)
}

/// Maps a listing of open orders to the cancellations to issue: one per
/// order, side-appropriate, in listed order.
pub fn cancel_commands(orders: &Vec<OpenOrder>) -> (r: Vec<CancelCommand>)
    ensures
        r@ == cancels_of(orders@),
{
    let mut out: Vec<CancelCommand> = Vec::new();
    let mut k: usize = 0;
    while k < orders.len()
        invariant
            0 <= k <= orders@.len(),
            out@.len() == k,
            forall|j: int| 0 <= j < k ==> #[trigger] out@[j] == cancel_of(orders@[j]),
        decreases orders@.len() - k,
    {
        match orders[k] {
            OpenOrder::Bid { id } => {
                out.push(CancelCommand::CancelBid { id });
            },
            OpenOrder::Ask { id } => {
                out.push(CancelCommand::CancelAsk { id });
            },
        }
        k = k + 1;
    }
    proof {
        assert(out@ =~= cancels_of(orders@));
    }
    out
}

/// Declarative trading configuration and timing; the exchange capability
/// itself stays with the caller.
#[derive(Clone, Copy, Debug, PartialEq, Eq, Structural)]
pub struct Trader {
    pub sleep_for: u64,
    pub cooldown: u64,
    pub bids_config: Strategy,
    pub asks_config: Strategy,
}

impl Trader {
    /// Builds a trader; a bid-side strategy must walk prices down and an
    /// ask-side strategy up.
    pub fn new(sleep: u64, cool: u64, bids: Strategy, asks: Strategy) -> (r: Trader)
        requires
            bids.price_delta.v() < 0,
            asks.price_delta.v() > 0,
        ensures
            r == (Trader { sleep_for: sleep, cooldown: cool, bids_config: bids, asks_config: asks }),
    {
        Trader { sleep_for: sleep, cooldown: cool, bids_config: bids, asks_config: asks }
    }

    /// The placements for a computed bid ladder, in rung order.
    pub fn place_bids(&self, orders: &Vec<OrderSpec>) -> (r: Vec<PlaceCommand>)
        ensures
            r@.len() == orders@.len(),
            forall|j: int|
                0 <= j < orders@.len() ==> r@[j] == (PlaceCommand::PlaceBid {
                    amount: (#[trigger] orders@[j]).amount,
                    price: orders@[j].price,
                }),
    {
        let mut out: Vec<PlaceCommand> = Vec::new();
        let mut k: usize = 0;
        while k < orders.len()
            invariant
                0 <= k <= orders@.len(),
                out@.len() == k,
                forall|j: int|
                    0 <= j < k ==> out@[j] == (PlaceCommand::PlaceBid {
                        amount: (#[trigger] orders@[j]).amount,
                        price: orders@[j].price,
                    }),
            decreases orders@.len() - k,
        {
            let o = orders[k];
            out.push(PlaceCommand::PlaceBid { amount: o.amount, price: o.price });
            k = k + 1;
        }
        out
    }

    /// The placements for a computed ask ladder, in rung order.
    pub fn place_asks(&self, orders: &Vec<OrderSpec>) -> (r: Vec<PlaceCommand>)
        ensures
            r@.len() == orders@.len(),
            forall|j: int|
                0 <= j < orders@.len() ==> r@[j] == (PlaceCommand::PlaceAsk {
                    amount: (#[trigger] orders@[j]).amount,
                    price: orders@[j].price,
                }),
    {
        let mut out: Vec<PlaceCommand> = Vec::new();
        let mut k: usize = 0;
        while k < orders.len()
            invariant
                0 <= k <= orders@.len(),
                out@.len() == k,
                forall|j: int|
                    0 <= j < k ==> out@[j] == (PlaceCommand::PlaceAsk {
                        amount: (#[trigger] orders@[j]).amount,
                        price: orders@[j].price,
                    }),
            decreases orders@.len() - k,
        {
            let o = orders[k];
            out.push(PlaceCommand::PlaceAsk { amount: o.amount, price: o.price });
            k = k + 1;
        }
        out
    }

    /// Replays the clear phase over the listings successive polls of the
    /// exchange would report: each non-empty listing has every order
    /// cancelled, side-appropriately and in order, and the phase ends at
    /// the first empty listing.  `None` when no listed poll comes back
    /// empty, as the live phase would still be polling.
    pub fn clear_all_orders(&self, listings: &Vec<Vec<OpenOrder>>) -> (r: Option<ClearTrace>)
        ensures
            (match r {
                Some(t) => {
                    &&& 1 <= t.polls <= listings@.len()
                    &&& listings@[t.polls - 1]@.len() == 0
                    &&& forall|j: int| 0 <= j < t.polls - 1 ==> (#[trigger] listings@[j])@.len() > 0
                    &&& t.cancels@ == spec_cancels(listings_view(listings@), t.polls - 1)
                },
                None => forall|j: int| 0 <= j < listings@.len() ==> (#[trigger] listings@[j])@.len() > 0,
            }),
    {
        let ghost lview = listings_view(listings@);
        let mut cancels: Vec<CancelCommand> = Vec::new();
        let mut k: usize = 0;
        while k < listings.len()
            invariant
                0 <= k <= listings@.len(),
                lview == listings_view(listings@),
                cancels@ == spec_cancels(lview, k as int),
                forall|j: int| 0 <= j < k ==> (#[trigger] listings@[j])@.len() > 0,
            decreases listings@.len() - k,
        {
            let listing = &listings[k];
            if listing.len() == 0 {
                return Some(ClearTrace { cancels, polls: k + 1 });
            }
            let mut cc = cancel_commands(listing);
            let ghost prev = cancels@;
            let mut m: usize = 0;
            while m < cc.len()
                invariant
                    0 <= m <= cc@.len(),
                    cc@ == cancels_of(listings@[k as int]@),
                    k < listings@.len(),
                    cancels@ == prev + cc@.take(m as int),
                decreases cc@.len() - m,
            {
                cancels.push(cc[m]);
                proof {
                    assert(prev + cc@.take(m as int + 1) =~= (prev + cc@.take(m as int)).push(
                        cc@[m as int],
                    ));
                }
                m = m + 1;
            }
            proof {
                assert(cc@.take(cc@.len() as int) =~= cc@);
                assert(lview[k as int] == listings@[k as int]@);
                assert(cancels@ =~= spec_cancels(lview, k as int + 1));
            }
            k = k + 1;
        }
        None
    }

    /// Plans one cycle's placements from a fresh order book: the bid ladder
    /// from the best bid, the ask ladder from the best ask, each through its
    /// side's strategy.  An error reports the first side that fails.
    pub fn trade(&self, book: &OrderBook) -> (r: Result<TradePlan, StrategyError>)
        requires
            book.bids@.len() > 0,
            book.asks@.len() > 0,
            self.bids_config.total_amount.v() >= 0,
            self.asks_config.total_amount.v() >= 0,
            self.bids_config.price_delta.v() != i64::MIN,
            self.asks_config.price_delta.v() != i64::MIN,
        ensures
            (match r {
                Ok(p) => {
                    &&& ladder_ok(self.bids_config, book.bids@[0].0.v())
                    &&& ladder_ok(self.asks_config, book.asks@[0].0.v())
                    &&& orders_view(p.bids@) == spec_ladder(
                        spec_amounts(self.bids_config),
                        spec_prices(self.bids_config, book.bids@[0].0.v()),
                        self.bids_config.min_size.v(),
                    )
                    &&& orders_view(p.asks@) == spec_ladder(
                        spec_amounts(self.asks_config),
                        spec_prices(self.asks_config, book.asks@[0].0.v()),
                        self.asks_config.min_size.v(),
                    )
                },
                Err(e) => {
                    &&& !(ladder_ok(self.bids_config, book.bids@[0].0.v()) && ladder_ok(
                        self.asks_config,
                        book.asks@[0].0.v(),
                    ))
                    &&& e == (if !ladder_ok(self.bids_config, book.bids@[0].0.v()) {
                        ladder_err(self.bids_config)
                    } else {
                        ladder_err(self.asks_config)
                    })
                },
            }),
    {
        let best_bid = book.bids[0].0;
        let best_ask = book.asks[0].0;
        let bids = match self.bids_config.build_orders(best_bid) {
            Ok(b) => b,
            Err(e) => {
                return Err(e);
            },
        };
        let asks = match self.asks_config.build_orders(best_ask) {
            Ok(a) => a,
            Err(e) => {
                return Err(e);
            },
        };
        Ok(TradePlan { bids, asks })
    }
}

} // verus!
