//! The order of colors: by alpha first, then red, then green, then blue.

use core::cmp::Ordering;
use vstd::prelude::*;
use vstd::std_specs::cmp::PartialOrdSpecImpl;
use crate::color::Color;

verus! {

impl Color {
    /// Whether this color comes before `other`: at the first channel in which
    /// the two differ, in the order alpha, red, green, blue, this one is the
    /// smaller.
    pub open spec fn precedes(self, other: Color) -> bool {
        ||| self.a < other.a
        ||| self.a == other.a && self.r < other.r
        ||| self.a == other.a && self.r == other.r && self.g < other.g
        ||| self.a == other.a && self.r == other.r && self.g == other.g && self.b < other.b
    }

    /// Of two colors exactly one thing holds: the first comes before the
    /// second, or they are equal, or the second comes before the first.
    pub proof fn lemma_order_is_total(self, other: Color)
        ensures
            self.precedes(other) || self == other || other.precedes(self),
            !(self.precedes(other) && self == other),
            !(self.precedes(other) && other.precedes(self)),
    {
    }

    /// Coming before is transitive.
    pub proof fn lemma_order_is_transitive(self, middle: Color, other: Color)
        requires
            self.precedes(middle),
            middle.precedes(other),
        ensures
            self.precedes(other),
    {
    }
}

impl PartialOrd for Color {
    fn partial_cmp(&self, other: &Color) -> (order: Option<Ordering>) {
        if self.a != other.a {
            if self.a < other.a {
                Some(Ordering::Less)
            } else {
                Some(Ordering::Greater)
            }
        } else if self.r != other.r {
            if self.r < other.r {
                Some(Ordering::Less)
            } else {
                Some(Ordering::Greater)
            }
        } else if self.g != other.g {
            if self.g < other.g {
                Some(Ordering::Less)
            } else {
                Some(Ordering::Greater)
            }
        } else if self.b != other.b {
            if self.b < other.b {
                Some(Ordering::Less)
            } else {
                Some(Ordering::Greater)
            }
        } else {
            Some(Ordering::Equal)
        }
    }
}

impl PartialOrdSpecImpl for Color {
    open spec fn obeys_partial_cmp_spec() -> bool {
        true
    }

    open spec fn partial_cmp_spec(&self, other: &Color) -> Option<Ordering> {
        if self.precedes(*other) {
            Some(Ordering::Less)
        } else if other.precedes(*self) {
            Some(Ordering::Greater)
        } else {
            Some(Ordering::Equal)
        }
    }
}

} // verus!
