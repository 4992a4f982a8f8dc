//! What the site shows: stores, articles, and each store's price of an
//! article with its rank among the stores.
use vstd::prelude::*;

verus! {

/// A store.
#[derive(Debug, Clone)]
pub struct Butik {
    pub id: u32,
    pub name: String,
}

/// A store's price of an article, and its rank among the stores' prices of
/// that article (1 for the cheapest). The price type is the caller's.
#[derive(Debug, Clone, Copy)]
pub struct ButikPrice<P> {
    pub rank: u16,
    pub price: P,
}

/// An article, with one price slot per store.
#[derive(Debug)]
pub struct Commodity<P> {
    pub id: u32,
    pub name: String,
    pub unit: String,
    pub butik_prices: Vec<Option<ButikPrice<P>>>,
}

/// The number of stores that an article has a price slot for.
pub const BUTIK_SLOTS: usize = 6;

impl<P> Commodity<P> {
    /// An article with an empty price slot for each store.
    pub fn new(id: u32, name: String, unit: String) -> (c: Self)
        ensures
            c.id == id,
            c.name == name,
            c.unit == unit,
            c.butik_prices@ == Seq::new(BUTIK_SLOTS as nat, |i: int| None::<ButikPrice<P>>),
    {
        let mut butik_prices: Vec<Option<ButikPrice<P>>> = Vec::new();
        let mut i: usize = 0;
        while i < BUTIK_SLOTS
            invariant
                i <= BUTIK_SLOTS,
                butik_prices@ == Seq::new(i as nat, |j: int| None::<ButikPrice<P>>),
            decreases BUTIK_SLOTS - i,
        {
            butik_prices.push(None);
            i = i + 1;
        }
        Commodity { id, name, unit, butik_prices }
    }
}

} // verus!
