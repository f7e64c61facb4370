//! Read-only views derived from a reactive cell through a projection.
//!
//! A [`Derived`] view has no storage of its own: reading it applies the
//! projection to the source cell's current value, and observing it registers
//! an observer on the source cell, so derived and direct observers share one
//! notification pass and one registration order.
use vstd::prelude::*;
use crate::cell::{Reactive, Runtime};

verus! {

/// A pure map from a cell's value to the value a view presents.
pub trait Projection<T, U> {
    /// `output` is what the projection gives for `input`.
    spec fn projects(&self, input: T, output: U) -> bool;

    fn project(&self, input: &T) -> (output: U)
        ensures
            self.projects(*input, output),
    ;
}

/// A view of `source` through `projection`.
#[derive(Clone, Copy, Debug)]
pub struct Derived<P> {
    pub source: Reactive,
    pub projection: P,
}

impl Reactive {
    /// A view of this cell through `projection`. Nothing is evaluated yet.
    pub fn derive<P>(self, projection: P) -> (d: Derived<P>)
        ensures
            d.source == self,
            d.projection == projection,
    {
        Derived { source: self, projection }
    }
}

impl<P> Derived<P> {
    /// The projection of the source's current value, computed on each call.
    pub fn value<T, U>(&self, rt: &Runtime<T>) -> (v: U)
        where
            P: Projection<T, U>,
        requires
            rt.wf(),
            rt@.contains(self.source),
        ensures
            self.projection.projects(rt@.value_of(self.source), v),
    {
        self.projection.project(self.source.value(rt))
    }

    /// Registers an observer of the view. The observer sits on the source
    /// cell's list, so it is notified in the source's pass, in the order of
    /// registration against the source.
    pub fn add_observer<T>(&self, rt: &mut Runtime<T>) -> (key: usize)
        requires
            old(rt).wf(),
            old(rt)@.contains(self.source),
            old(rt)@.next_key < usize::MAX,
        ensures
            final(rt).wf(),
            key == old(rt)@.next_key,
            final(rt)@ == old(rt)@.after_observe(self.source),
    {
        self.source.add_observer(rt)
    }
}

/// The character of a decimal digit.
pub open spec fn digit_char(d: nat) -> char {
    if d == 0 { '0' }
    else if d == 1 { '1' }
    else if d == 2 { '2' }
    else if d == 3 { '3' }
    else if d == 4 { '4' }
    else if d == 5 { '5' }
    else if d == 6 { '6' }
    else if d == 7 { '7' }
    else if d == 8 { '8' }
    else { '9' }
}

/// The decimal digits of `n`, most significant first, without leading zeros.
pub open spec fn digits(n: nat) -> Seq<char>
    decreases n,
{
    if n < 10 {
        seq![digit_char(n)]
    } else {
        digits(n / 10).push(digit_char(n % 10))
    }
}

/// The decimal text of an integer: a minus sign for negatives, then digits.
pub open spec fn decimal(n: int) -> Seq<char> {
    if n < 0 {
        seq!['-'] + digits((-n) as nat)
    } else {
        digits(n as nat)
    }
}

/// Relies on `ToString` for `i64` (through its `Display`): an optional minus
/// sign followed by the decimal digits, with no leading zeros.
#[verifier::external_body]
fn i64_to_string(n: i64) -> (r: String)
    ensures
        r@ == decimal(n as int),
{
    n.to_string()
}

/// The projection of an integer onto its decimal text.
#[derive(Clone, Copy, Debug, PartialEq, Eq)]
pub struct DecimalText;

impl Projection<i64, String> for DecimalText {
    open spec fn projects(&self, input: i64, output: String) -> bool {
        output@ == decimal(input as int)
    }

    fn project(&self, input: &i64) -> (output: String) {
        i64_to_string(*input)
    }
}

} // verus!
