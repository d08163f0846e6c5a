//! Finding a controller by its hardware address.

use crate::address::RawMacAddress;
use crate::wled_net::PhysicalWled;
use std::collections::HashMap;
use vstd::prelude::*;

verus! {

/// The controllers that are known, each under its hardware address.  No two
/// controllers stand under one address.
pub struct Dispatcher {
    constituents: HashMap<RawMacAddress, PhysicalWled>,
}

impl View for Dispatcher {
    type V = Map<RawMacAddress, PhysicalWled>;

    closed spec fn view(&self) -> Map<RawMacAddress, PhysicalWled> {
        self.constituents@
    }
}

impl Dispatcher {
    /// A dispatcher that knows no controller.
    pub fn new() -> (r: Dispatcher)
        ensures
            r@ == Map::<RawMacAddress, PhysicalWled>::empty(),
    {
        Dispatcher { constituents: HashMap::new() }
    }
}

} // verus!
