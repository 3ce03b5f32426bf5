//! Pieces of a stream request: the tariffs a stream is sold at and the gifts
//! sent to it.

use std::time::Duration;
use vstd::prelude::*;

verus! {

/// A price plan. The prices are optional; `duration` is how long a
/// purchase lasts.
#[derive(Debug, PartialEq, Eq)]
pub struct Tariff {
    pub id: Option<i64>,
    pub client_price: Option<i64>,
    pub price: Option<i64>,
    pub duration: Duration,
    pub description: String,
}

impl Clone for Tariff {
    fn clone(&self) -> (t: Self)
        ensures
            t == *self,
    {
        Tariff {
            id: self.id,
            client_price: self.client_price,
            price: self.price,
            duration: self.duration,
            description: self.description.clone(),
        }
    }
}

/// A gift sent to a stream.
#[derive(Debug, Clone, PartialEq, Eq)]
pub struct Gift {
    pub id: i64,
    pub price: i64,
    pub description: String,
}

} // verus!
