//! Properties that relate several operations of the reactive engine, stated
//! over the abstract model that the operations' contracts use.
use vstd::prelude::*;
use crate::cell::{keys_ordered_below, Model, Reactive};
use crate::derived::{Derived, Projection};

verus! {

/// A mutation of a cell notifies each of its observers exactly once, in the
/// order they were registered: the pass holds no key twice, keys grow with
/// registration time, and registering an observer puts it last in the pass of
/// its cell while leaving the passes of other cells alone.
pub proof fn lemma_pass_in_registration_order<T>(m: Model<T>, c: Reactive)
    requires
        m.wf(),
        m.contains(c),
    ensures
        m.pass(c).no_duplicates(),
        forall|i: int, j: int| 0 <= i < j < m.pass(c).len() ==> m.pass(c)[i] < m.pass(c)[j],
        m.next_key < usize::MAX ==> m.after_observe(c).pass(c) == m.pass(c).push(
            m.next_key as usize,
        ),
        forall|d: Reactive|
            m.contains(d) && d.index != c.index ==> #[trigger] m.after_observe(c).pass(d)
                == m.pass(d),
{
    assert(keys_ordered_below(m.cells[c.index as int].observers, m.next_key));
    let p = m.pass(c);
    assert forall|i: int, j: int| 0 <= i < p.len() && 0 <= j < p.len() && i != j implies p[i]
        != p[j] by {
        if i < j {
            assert(p[i] < p[j]);
        } else {
            assert(p[j] < p[i]);
        }
    }
}

/// A derived view read after a mutation of its source presents the
/// projection of the new value, whichever of `set`, `update` or
/// `update_inplace_unchecked` made it: each leaves the runtime at
/// `after_set` of the value it stored.
pub proof fn lemma_derived_reads_new_value<T, U, P: Projection<T, U>>(
    m: Model<T>,
    d: Derived<P>,
    v: T,
    u: U,
)
    requires
        m.contains(d.source),
    ensures
        m.after_set(d.source, v).contains(d.source),
        m.after_set(d.source, v).value_of(d.source) == v,
        d.projection.projects(m.after_set(d.source, v).value_of(d.source), u)
            <==> d.projection.projects(v, u),
{
}

/// Two handles on one cell, such as a handle and its clone, act alike: the
/// same value is read, the same observers are notified, and a mutation or a
/// registration through either leaves the same runtime.
pub proof fn lemma_shared_handles_agree<T>(m: Model<T>, a: Reactive, b: Reactive, v: T)
    requires
        a.index == b.index,
        m.contains(a),
    ensures
        m.value_of(a) == m.value_of(b),
        m.pass(a) == m.pass(b),
        m.after_set(a, v) == m.after_set(b, v),
        m.after_observe(a) == m.after_observe(b),
{
}

/// An observer registered now is absent from every pass of this runtime and
/// of any earlier state of it, so it is told of no mutation made before its
/// registration; from then on it is in the pass of its cell.
pub proof fn lemma_no_retroactive_notification<T>(m: Model<T>, earlier: Model<T>, c: Reactive)
    requires
        m.wf(),
        earlier.wf(),
        earlier.next_key <= m.next_key,
        m.contains(c),
        m.next_key < usize::MAX,
    ensures
        forall|d: Reactive| #[trigger]
            earlier.contains(d) ==> !earlier.pass(d).contains(m.next_key as usize),
        forall|d: Reactive| #[trigger]
            m.contains(d) ==> !m.pass(d).contains(m.next_key as usize),
        m.after_observe(c).pass(c).contains(m.next_key as usize),
        m.after_observe(c).wf() ==> m.after_observe(c).after_set(c, m.value_of(c)).pass(c).contains(
            m.next_key as usize,
        ),
{
    assert forall|d: Reactive| #[trigger] earlier.contains(d) implies !earlier.pass(d).contains(
        m.next_key as usize,
    ) by {
        assert(keys_ordered_below(earlier.cells[d.index as int].observers, earlier.next_key));
    }
    assert forall|d: Reactive| #[trigger] m.contains(d) implies !m.pass(d).contains(
        m.next_key as usize,
    ) by {
        assert(keys_ordered_below(m.cells[d.index as int].observers, m.next_key));
    }
    let p = m.after_observe(c).pass(c);
    assert(p[p.len() - 1] == m.next_key as usize);
}

/// An in-place edit and an `update` that store the same new value leave the
/// same runtime and notify the same observers in the same order, so their
/// observers see identical sequences of values.
pub proof fn lemma_inplace_matches_update<T>(
    m: Model<T>,
    c: Reactive,
    by_update: Model<T>,
    in_place: Model<T>,
)
    requires
        m.contains(c),
        by_update == m.after_set(c, by_update.value_of(c)),
        in_place == m.after_set(c, in_place.value_of(c)),
        by_update.value_of(c) == in_place.value_of(c),
    ensures
        by_update == in_place,
        by_update.pass(c) == m.pass(c),
        in_place.pass(c) == m.pass(c),
{
}

} // verus!
