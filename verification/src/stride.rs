//! The stride counter of a task and its wraparound-safe ordering.

use core::cmp::Ordering;
use vstd::prelude::*;
use vstd::std_specs::cmp::PartialEqSpecImpl;
use vstd::std_specs::cmp::PartialOrdSpecImpl;

verus! {

/// The largest stride step: a task of priority `p` advances by
/// `BIG_STRIDE / p` each time it is scheduled in.
pub const BIG_STRIDE: u16 = 65535;

/// Half the counter's range. Two strides further apart than this are taken
/// to have wrapped, and their order is inverted.
pub const STRIDE_REVERSE: u16 = BIG_STRIDE / 2;

/// A 16-bit counter that only ever grows, modulo its width.
#[derive(Clone, Copy, Debug)]
pub struct Stride {
    pub value: u16,
}

/// The order of two raw stride values: by raw difference, inverted once the
/// difference exceeds half the range.
pub open spec fn stride_order(a: u16, b: u16) -> Ordering {
    if a == b {
        Ordering::Equal
    } else if a < b {
        if b - a > STRIDE_REVERSE {
            Ordering::Greater
        } else {
            Ordering::Less
        }
    } else {
        if a - b > STRIDE_REVERSE {
            Ordering::Less
        } else {
            Ordering::Greater
        }
    }
}

/// Whether stride `a` is ordered strictly after stride `b`.
pub open spec fn stride_after(a: u16, b: u16) -> bool {
    stride_order(a, b) == Ordering::Greater
}

/// The plain numeric order of two raw values.
pub open spec fn numeric_order(a: u16, b: u16) -> Ordering {
    if a == b {
        Ordering::Equal
    } else if a < b {
        Ordering::Less
    } else {
        Ordering::Greater
    }
}

/// The opposite of an order.
pub open spec fn flipped(o: Ordering) -> Ordering {
    match o {
        Ordering::Less => Ordering::Greater,
        Ordering::Equal => Ordering::Equal,
        Ordering::Greater => Ordering::Less,
    }
}

/// The distance between two raw values.
pub open spec fn stride_gap(a: u16, b: u16) -> int {
    if a <= b {
        b - a
    } else {
        a - b
    }
}

/// The stride after one more step of `step`, wrapping at the counter's width.
pub open spec fn stride_advance(value: u16, step: u16) -> u16 {
    ((value + step) % 0x10000) as u16
}

/// The step by which a task of the given priority advances.
pub open spec fn stride_step(priority: u16) -> int {
    BIG_STRIDE as int / priority as int
}

impl PartialOrdSpecImpl for Stride {
    open spec fn obeys_partial_cmp_spec() -> bool {
        true
    }

    open spec fn partial_cmp_spec(&self, other: &Stride) -> Option<Ordering> {
        Some(stride_order(self.value, other.value))
    }
}

impl PartialOrd for Stride {
    fn partial_cmp(&self, other: &Stride) -> (r: Option<Ordering>) {
        if self.value < other.value {
            if other.value - self.value > STRIDE_REVERSE {
                Some(Ordering::Greater)
            } else {
                Some(Ordering::Less)
            }
        } else if self.value > other.value {
            if self.value - other.value > STRIDE_REVERSE {
                Some(Ordering::Less)
            } else {
                Some(Ordering::Greater)
            }
        } else {
            Some(Ordering::Equal)
        }
    }
}

impl PartialEqSpecImpl for Stride {
    open spec fn obeys_eq_spec() -> bool {
        true
    }

    open spec fn eq_spec(&self, other: &Stride) -> bool {
        self.value == other.value
    }
}

impl PartialEq for Stride {
    fn eq(&self, other: &Stride) -> (r: bool) {
        self.value == other.value
    }
}

impl Stride {
    /// A stride that has not advanced yet.
    pub fn new() -> (s: Stride)
        ensures
            s.value == 0,
    {
        Stride { value: 0 }
    }

    /// Whether this stride is ordered strictly after `other`.
    pub fn is_after(&self, other: &Stride) -> (r: bool)
        ensures
            r == stride_after(self.value, other.value),
    {
        *self > *other
    }

    /// Advances the stride by the step of `priority`, wrapping around.
    pub fn advance(&mut self, priority: u16)
        requires
            priority > 0,
        ensures
            final(self).value == stride_advance(old(self).value, (BIG_STRIDE / priority) as u16),
    {
        self.value = self.value.wrapping_add(BIG_STRIDE / priority);
    }
}

/// Every stride compares equal to itself, and to nothing else.
pub proof fn stride_order_reflexive(a: u16, b: u16)
    ensures
        stride_order(a, a) == Ordering::Equal,
        stride_order(a, b) == Ordering::Equal <==> a == b,
{
}

/// Strides no further apart than half the range are ordered as their raw
/// values are.
pub proof fn stride_order_near(a: u16, b: u16)
    requires
        stride_gap(a, b) <= STRIDE_REVERSE,
    ensures
        stride_order(a, b) == numeric_order(a, b),
{
}

/// Strides further apart than half the range are ordered against their raw
/// values.
pub proof fn stride_order_far(a: u16, b: u16)
    requires
        stride_gap(a, b) > STRIDE_REVERSE,
    ensures
        stride_order(a, b) == flipped(numeric_order(a, b)),
{
}

/// Swapping the two sides flips the order.
pub proof fn stride_order_antisymmetric(a: u16, b: u16)
    ensures
        stride_order(b, a) == flipped(stride_order(a, b)),
{
}

/// A stride that has advanced by a step of at most half the range is
/// ordered after the stride it started from: in the wraparound order,
/// strides never decrease.
pub proof fn stride_advance_moves_forward(value: u16, step: u16)
    requires
        0 < step <= STRIDE_REVERSE,
    ensures
        stride_order(value, stride_advance(value, step)) == Ordering::Less,
{
}

/// A stride that has advanced by a step of at most half the range is
/// ordered after the stride it started from.
pub proof fn advanced_stride_is_after(value: u16, step: u16)
    requires
        0 < step <= STRIDE_REVERSE,
    ensures
        stride_after(stride_advance(value, step), value),
        !stride_after(value, stride_advance(value, step)),
{
}

/// The step of a priority of 2 or more is positive and at most half the
/// range.
pub proof fn step_is_at_most_half(priority: u16)
    requires
        priority >= 2,
    ensures
        0 < BIG_STRIDE / priority <= STRIDE_REVERSE,
{
    let step = BIG_STRIDE / priority;
    assert(0 < step <= 32767) by (nonlinear_arith)
        requires
            step == 65535int / (priority as int),
            2 <= priority <= 65535,
    ;
}

/// The step shrinks as the priority grows: a task of higher priority
/// advances more slowly and is therefore scheduled more often.
pub proof fn stride_step_inverse_to_priority(p: u16, q: u16)
    requires
        0 < p <= q,
    ensures
        stride_step(q) <= stride_step(p),
        p * stride_step(p) <= BIG_STRIDE,
        BIG_STRIDE < p * stride_step(p) + p,
{
    let sp = stride_step(p);
    let sq = stride_step(q);
    assert(p * sp <= 65535 && 65535 < p * sp + p && q * sq <= 65535 && 65535 < q * sq + q
        && sp >= 0 && sq >= 0) by (nonlinear_arith)
        requires
            sp == 65535int / (p as int),
            sq == 65535int / (q as int),
            0 < p <= q,
    ;
    assert(sq <= sp) by (nonlinear_arith)
        requires
            p * sp <= 65535,
            65535 < p * sp + p,
            q * sq <= 65535,
            0 < p <= q,
            sp >= 0,
            sq >= 0,
    ;
}

} // verus!
