//! The value types of the engine: client identifiers, positive amounts and
//! non-negative balances, both in fixed-point units of one ten-thousandth.
use crate::decimal::{decimal_digits, decimal_string, four_digits, push_decimal, push_four_digits};
use std::marker::PhantomData;
use std::rc::Rc;
use vstd::prelude::*;

verus! {

/// A zero-sized marker that keeps the values holding it on one thread.
#[derive(Debug, Default, Clone, Copy, PartialEq, Eq, Hash)]
pub struct NotSend(PhantomData<Rc<()>>);

impl NotSend {
    /// The marker; all values of the type are alike.
    pub fn new() -> Self {
        NotSend(PhantomData)
    }
}

/// The number of decimal places an amount or balance carries.
pub const DECIMAL_PRECISION: u32 = 4;

/// The number of units in one whole currency unit: ten to the `DECIMAL_PRECISION`.
pub const SCALE: u64 = 10_000;

/// The identifier of a client.
#[derive(Debug, PartialEq, Eq, Hash, Copy, Clone, Structural)]
pub struct ClientId(pub u16);

impl ClientId {
    /// The client identifier as decimal text.
    pub fn to_string(&self) -> (s: String)
        ensures
            s@ == decimal_digits(self.0 as nat),
    {
        decimal_string(self.0 as u128)
    }
}

/// A strictly positive amount, in units of one ten-thousandth.
#[derive(Debug, PartialEq, Eq, Hash, Copy, Clone)]
pub struct Amount(u64);

impl Amount {
    #[verifier::type_invariant]
    spec fn positive(self) -> bool {
        self.0 > 0
    }

    /// The number of units of the amount.
    pub closed spec fn units(self) -> u64 {
        self.0
    }

    /// The amount of `units` units (meaningful for `units > 0`).
    pub closed spec fn of_units(units: u64) -> Amount {
        Amount(units)
    }

    /// `of_units` gives an amount of the units asked for.
    pub broadcast proof fn lemma_of_units(units: u64)
        ensures
            #[trigger] Amount::of_units(units).units() == units,
    {
    }

    /// An amount is determined by its units.
    pub broadcast proof fn lemma_units_determine(a: Amount)
        ensures
            #[trigger] Amount::of_units(a.units()) == a,
    {
    }

    /// The number of units, widened to a balance's width.
    pub open spec fn wide_units(self) -> u128 {
        self.units() as u128
    }

    /// The amount of `units` units; `None` where `units` is zero.
    pub fn new(units: u64) -> (r: Option<Amount>)
        ensures
            units == 0 ==> r is None,
            units != 0 ==> r == Some(Amount::of_units(units)) && r->0.units() == units,
    {
        if units == 0 {
            None
        } else {
            Some(Amount(units))
        }
    }

    /// The number of units of the amount, which is never zero.
    pub fn get(&self) -> (r: u64)
        ensures
            r == self.units(),
            r > 0,
    {
        proof {
            use_type_invariant(self);
        }
        self.0
    }

    /// The number of units of the amount, widened to a balance's width.
    pub fn wide(&self) -> (r: u128)
        ensures
            r == self.units(),
            r > 0,
    {
        proof {
            use_type_invariant(self);
        }
        self.0 as u128
    }

    /// The number of units as decimal text.
    pub fn to_string(&self) -> (s: String)
        ensures
            s@ == decimal_digits(self.units() as nat),
    {
        decimal_string(self.0 as u128)
    }
}

/// A non-negative balance, in units of one ten-thousandth.
#[derive(Debug, Eq, Hash, Copy, Clone)]
pub struct Balance(pub u128);

/// The text of a balance of `units` units: the whole part, a point, and
/// exactly four fractional digits.
pub open spec fn balance_text(units: nat) -> Seq<char> {
    decimal_digits(units / (SCALE as nat)) + seq!['.'] + four_digits(units % (SCALE as nat))
}

impl Balance {
    /// The balance as decimal text with exactly four fractional digits.
    pub fn to_string(&self) -> (s: String)
        ensures
            s@ == balance_text(self.0 as nat),
    {
        let mut s = String::new();
        self.push_text(&mut s);
        s
    }

    /// Appends the text of the balance to `s`.
    pub fn push_text(&self, s: &mut String)
        ensures
            final(s)@ == old(s)@ + balance_text(self.0 as nat),
    {
        let scale: u128 = SCALE as u128;
        push_decimal(s, self.0 / scale);
        proof { reveal_strlit("."); }
        s.append(".");
        push_four_digits(s, self.0 % scale);
    }

    /// Adds `amount` to the balance.
    pub fn add_amount(&mut self, amount: Amount)
        requires
            old(self).0 + amount.units() <= u128::MAX,
        ensures
            final(self).0 == old(self).0 + amount.units(),
    {
        self.0 = self.0 + amount.wide();
    }

    /// Subtracts `amount` from the balance, which holds at least that much.
    pub fn sub_amount(&mut self, amount: Amount)
        requires
            old(self).0 >= amount.units(),
        ensures
            final(self).0 == old(self).0 - amount.units(),
    {
        self.0 = self.0 - amount.wide();
    }
}

} // verus!
