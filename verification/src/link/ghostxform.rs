//! The transform from host time to the time of a session.

use vstd::prelude::*;

use crate::link::duration::Duration;
use crate::link::ieee::{same_number, same_number_spec};

verus! {

/// A line from host time to ghost time. The slope is held as the bit pattern of a
/// floating-point number.
#[derive(Clone, Copy, Debug)]
pub struct GhostXForm {
    pub slope_bits: u64,
    pub intercept: Duration,
}

/// Whether two transforms compare equal: equal intercepts, and slopes that are equal numbers.
pub open spec fn same_x_form(a: GhostXForm, b: GhostXForm) -> bool {
    same_number_spec(a.slope_bits, b.slope_bits) && a.intercept == b.intercept
}

/// The transform that stands for no transform: slope zero, intercept zero.
pub open spec fn no_x_form() -> GhostXForm {
    GhostXForm { slope_bits: 0, intercept: Duration::empty() }
}

impl Default for GhostXForm {
    fn default() -> (x: GhostXForm)
        ensures
            x == no_x_form(),
    {
        GhostXForm { slope_bits: 0, intercept: Duration::zero() }
    }
}

impl PartialEq for GhostXForm {
    fn eq(&self, other: &GhostXForm) -> (r: bool) {
        same_number(self.slope_bits, other.slope_bits) && self.intercept == other.intercept
    }
}

impl vstd::std_specs::cmp::PartialEqSpecImpl for GhostXForm {
    open spec fn obeys_eq_spec() -> bool {
        true
    }

    open spec fn eq_spec(&self, other: &GhostXForm) -> bool {
        same_x_form(*self, *other)
    }
}

} // verus!
