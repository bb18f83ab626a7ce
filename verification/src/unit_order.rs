//! The order of unit values as the comparison operators see it.
//!
//! Values are compared by their least and then by their greatest number of
//! units, so that two values that differ may rank together; variable units
//! come after every value.

use crate::units::{key_le, UnitType, UnitTypeSimple, Units};
use core::cmp::Ordering;
use vstd::prelude::*;
use vstd::std_specs::cmp::PartialOrdSpecImpl;

verus! {

impl PartialOrd for UnitTypeSimple {
    fn partial_cmp(&self, other: &UnitTypeSimple) -> (r: Option<Ordering>) {
        let a = self.min_value().thousandths;
        let b = other.min_value().thousandths;
        let c = self.max_value().thousandths;
        let d = other.max_value().thousandths;
        if a < b || (a == b && c < d) {
            Some(Ordering::Less)
        } else if b < a || (a == b && d < c) {
            Some(Ordering::Greater)
        } else {
            Some(Ordering::Equal)
        }
    }
}

impl PartialOrdSpecImpl for UnitTypeSimple {
    open spec fn obeys_partial_cmp_spec() -> bool {
        true
    }

    open spec fn partial_cmp_spec(&self, other: &UnitTypeSimple) -> Option<Ordering> {
        if !key_le(*other, *self) {
            Some(Ordering::Less)
        } else if !key_le(*self, *other) {
            Some(Ordering::Greater)
        } else {
            Some(Ordering::Equal)
        }
    }
}

impl PartialOrd for UnitType {
    fn partial_cmp(&self, other: &UnitType) -> (r: Option<Ordering>) {
        if self.is_less(other) {
            Some(Ordering::Less)
        } else if other.is_less(self) {
            Some(Ordering::Greater)
        } else {
            Some(Ordering::Equal)
        }
    }
}

impl PartialOrdSpecImpl for UnitType {
    open spec fn obeys_partial_cmp_spec() -> bool {
        true
    }

    open spec fn partial_cmp_spec(&self, other: &UnitType) -> Option<Ordering> {
        if self@.lt(other@) {
            Some(Ordering::Less)
        } else if other@.lt(self@) {
            Some(Ordering::Greater)
        } else {
            Some(Ordering::Equal)
        }
    }
}

impl PartialOrd for Units {
    fn partial_cmp(&self, other: &Units) -> (r: Option<Ordering>) {
        if self.is_less(other) {
            Some(Ordering::Less)
        } else if other.is_less(self) {
            Some(Ordering::Greater)
        } else {
            Some(Ordering::Equal)
        }
    }
}

impl PartialOrdSpecImpl for Units {
    open spec fn obeys_partial_cmp_spec() -> bool {
        true
    }

    open spec fn partial_cmp_spec(&self, other: &Units) -> Option<Ordering> {
        if self@.lt(other@) {
            Some(Ordering::Less)
        } else if other@.lt(self@) {
            Some(Ordering::Greater)
        } else {
            Some(Ordering::Equal)
        }
    }
}

} // verus!
