//! Comparisons of balances with balances and with amounts, by their units.
use crate::types::{Amount, Balance};
use core::cmp::Ordering;
use vstd::prelude::*;
use vstd::std_specs::cmp::{PartialEqSpecImpl, PartialOrdSpecImpl};

verus! {

/// The ordering of two unit counts.
pub open spec fn order_of(a: u128, b: u128) -> Ordering {
    if a < b {
        Ordering::Less
    } else if a == b {
        Ordering::Equal
    } else {
        Ordering::Greater
    }
}

impl PartialEq for Balance {
    fn eq(&self, other: &Balance) -> (r: bool) {
        self.0 == other.0
    }
}

impl PartialEqSpecImpl for Balance {
    open spec fn obeys_eq_spec() -> bool {
        true
    }

    open spec fn eq_spec(&self, other: &Balance) -> bool {
        self.0 == other.0
    }
}

impl PartialOrd for Balance {
    fn partial_cmp(&self, other: &Balance) -> (r: Option<Ordering>) {
        if self.0 < other.0 {
            Some(Ordering::Less)
        } else if self.0 == other.0 {
            Some(Ordering::Equal)
        } else {
            Some(Ordering::Greater)
        }
    }
}

impl PartialOrdSpecImpl for Balance {
    open spec fn obeys_partial_cmp_spec() -> bool {
        true
    }

    open spec fn partial_cmp_spec(&self, other: &Balance) -> Option<Ordering> {
        Some(order_of(self.0, other.0))
    }
}

impl PartialEq<Amount> for Balance {
    fn eq(&self, other: &Amount) -> (r: bool) {
        self.0 == other.wide()
    }
}

impl PartialEqSpecImpl<Amount> for Balance {
    open spec fn obeys_eq_spec() -> bool {
        true
    }

    open spec fn eq_spec(&self, other: &Amount) -> bool {
        self.0 == other.units()
    }
}

impl PartialOrd<Amount> for Balance {
    fn partial_cmp(&self, other: &Amount) -> (r: Option<Ordering>) {
        let units = other.wide();
        if self.0 < units {
            Some(Ordering::Less)
        } else if self.0 == units {
            Some(Ordering::Equal)
        } else {
            Some(Ordering::Greater)
        }
    }
}

impl PartialOrdSpecImpl<Amount> for Balance {
    open spec fn obeys_partial_cmp_spec() -> bool {
        true
    }

    open spec fn partial_cmp_spec(&self, other: &Amount) -> Option<Ordering> {
        Some(order_of(self.0, other.wide_units()))
    }
}

} // verus!
