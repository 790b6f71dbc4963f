//! The counter store itself: one signed 32-bit value behind three operations.

use vstd::prelude::*;

use crate::model;

verus! {

/// The sole entity of the service: a signed 32-bit counter. It starts at
/// zero and is only ever changed one unit at a time; at the ends of the
/// `i32` range it wraps around, two's-complement style.
pub struct Counter {
    value: i32,
}

impl View for Counter {
    type V = int;

    closed spec fn view(&self) -> int {
        self.value as int
    }
}

impl Counter {
    /// A fresh counter, holding zero.
    pub fn new() -> (c: Counter)
        ensures
            c@ == 0,
    {
        Counter { value: 0 }
    }

    /// Adds one to the value, wrapping at `i32::MAX`.
    pub fn increment(&mut self)
        ensures
            final(self)@ == model::wrap_inc(old(self)@),
    {
        if self.value == i32::MAX {
            self.value = i32::MIN;
        } else {
            self.value = self.value + 1;
        }
    }

    /// Subtracts one from the value, wrapping at `i32::MIN`.
    pub fn decrement(&mut self)
        ensures
            final(self)@ == model::wrap_dec(old(self)@),
    {
        if self.value == i32::MIN {
            self.value = i32::MAX;
        } else {
            self.value = self.value - 1;
        }
    }

    /// Reads the current value. A pure read: `&self`, and the result is
    /// exactly the view, so repeated reads with no mutation in between all
    /// return the same value.
    pub fn get_value(&self) -> (v: i32)
        ensures
            v as int == self@,
    {
        self.value
    }
}

impl Default for Counter {
    /// The default counter is the fresh one: value zero.
    fn default() -> (c: Counter)
        ensures
            c@ == 0,
    {
        Counter::new()
    }
}

/// The value always fits in the `i32` range.
pub proof fn lemma_view_in_range(c: &Counter)
    ensures
        i32::MIN <= c@ <= i32::MAX,
{
}

} // verus!
