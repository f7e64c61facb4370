//! Reactive cells kept in a runtime arena.
//!
//! A [`Reactive`] handle is an index into a [`Runtime`]: copying or cloning
//! the handle never duplicates the stored value or its observer list, so every
//! handle on one cell sees the same state. Observers are identified by keys
//! that the runtime hands out in increasing order; a mutation returns the keys
//! to notify, in registration order, and the caller invokes its callbacks with
//! the cell's new value, which it reads back through [`Reactive::value`].
//!
//! All mutations take the runtime by `&mut`, so an observer or an in-place
//! edit can never hold a borrow of the stored value across another mutation:
//! reentrant mutation is ruled out by the borrow checker rather than detected
//! at run time.
use vstd::prelude::*;

verus! {

/// The abstract state of one cell: its value and the keys of its observers,
/// in the order they were registered.
pub struct CellModel<T> {
    pub value: T,
    pub observers: Seq<usize>,
}

/// The abstract state of a runtime: its cells, and the key that the next
/// registered observer will receive.
pub struct Model<T> {
    pub cells: Seq<CellModel<T>>,
    pub next_key: nat,
}

/// Keys strictly increase along the sequence and stay below `bound`.
pub open spec fn keys_ordered_below(keys: Seq<usize>, bound: nat) -> bool {
    &&& forall|i: int, j: int| 0 <= i < j < keys.len() ==> keys[i] < keys[j]
    &&& forall|i: int| 0 <= i < keys.len() ==> keys[i] < bound
}

impl<T> Model<T> {
    pub open spec fn contains(self, c: Reactive) -> bool {
        c.index < self.cells.len()
    }

    pub open spec fn value_of(self, c: Reactive) -> T {
        self.cells[c.index as int].value
    }

    /// The observers notified, in order, when cell `c` is mutated.
    pub open spec fn pass(self, c: Reactive) -> Seq<usize> {
        self.cells[c.index as int].observers
    }

    pub open spec fn wf(self) -> bool {
        &&& self.next_key <= usize::MAX
        &&& self.cells.len() <= usize::MAX
        &&& forall|i: int|
            0 <= i < self.cells.len() ==> keys_ordered_below(
                #[trigger] self.cells[i].observers,
                self.next_key,
            )
    }

    pub open spec fn after_create(self, initial: T) -> Model<T> {
        Model {
            cells: self.cells.push(CellModel { value: initial, observers: Seq::empty() }),
            next_key: self.next_key,
        }
    }

    pub open spec fn after_set(self, c: Reactive, v: T) -> Model<T> {
        Model {
            cells: self.cells.update(
                c.index as int,
                CellModel { value: v, observers: self.pass(c) },
            ),
            next_key: self.next_key,
        }
    }

    pub open spec fn after_observe(self, c: Reactive) -> Model<T> {
        Model {
            cells: self.cells.update(
                c.index as int,
                CellModel {
                    value: self.value_of(c),
                    observers: self.pass(c).push(self.next_key as usize),
                },
            ),
            next_key: self.next_key + 1,
        }
    }
}

/// A handle on a cell of a [`Runtime`]. Handles are plain indices: a clone
/// refers to the very same cell.
#[derive(Clone, Copy, Debug, PartialEq, Eq, Structural)]
pub struct Reactive {
    pub index: usize,
}

/// The storage shared by all handles: one value and one observer list per
/// cell, and the counter from which observer keys are drawn.
pub struct Runtime<T> {
    values: Vec<T>,
    observers: Vec<Vec<usize>>,
    next_key: usize,
}

impl<T> View for Runtime<T> {
    type V = Model<T>;

    closed spec fn view(&self) -> Model<T> {
        Model {
            cells: Seq::new(
                self.values@.len(),
                |i: int| CellModel { value: self.values@[i], observers: self.observers@[i]@ },
            ),
            next_key: self.next_key as nat,
        }
    }
}

impl<T> Runtime<T> {
    pub closed spec fn wf(&self) -> bool {
        &&& self.values@.len() == self.observers@.len()
        &&& self@.wf()
    }

    /// A well-formed runtime has a well-formed model.
    pub proof fn lemma_view_wf(&self)
        requires
            self.wf(),
        ensures
            self@.wf(),
    {
    }

    /// Whether `c` is a cell of this runtime.
    pub fn holds(&self, c: Reactive) -> (b: bool)
        requires
            self.wf(),
        ensures
            b == self@.contains(c),
    {
        c.index < self.values.len()
    }

    /// The key that the next registered observer will receive.
    pub fn next_key(&self) -> (k: usize)
        ensures
            k == self@.next_key,
    {
        self.next_key
    }

    /// An empty runtime: no cells, and no observer registered yet.
    pub fn new() -> (rt: Self)
        ensures
            rt.wf(),
            rt@.cells.len() == 0,
            rt@.next_key == 0,
    {
        let rt = Runtime { values: Vec::new(), observers: Vec::new(), next_key: 0 };
        assert(rt@.cells =~= Seq::<CellModel<T>>::empty());
        rt
    }
}

impl Reactive {
    /// Creates a cell holding `initial`, with no observers.
    pub fn new<T>(rt: &mut Runtime<T>, initial: T) -> (c: Reactive)
        requires
            old(rt).wf(),
            old(rt)@.cells.len() < usize::MAX,
        ensures
            final(rt).wf(),
            c.index == old(rt)@.cells.len(),
            final(rt)@ == old(rt)@.after_create(initial),
    {
        let c = Reactive { index: rt.values.len() };
        rt.values.push(initial);
        rt.observers.push(Vec::new());
        proof {
            let m = rt@;
            assert(m.cells =~= old(rt)@.after_create(initial).cells);
            assert forall|i: int| 0 <= i < m.cells.len() implies keys_ordered_below(
                #[trigger] m.cells[i].observers,
                m.next_key,
            ) by {
                if i < old(rt)@.cells.len() {
                    assert(m.cells[i] == old(rt)@.cells[i]);
                }
            }
        }
        c
    }

    /// The cell's current value. Reading has no effect on the runtime.
    pub fn value<'a, T>(&self, rt: &'a Runtime<T>) -> (v: &'a T)
        requires
            rt.wf(),
            rt@.contains(*self),
        ensures
            *v == rt@.value_of(*self),
    {
        &rt.values[self.index]
    }

    /// Replaces the value unconditionally and returns the observers to notify,
    /// in registration order, each exactly once.
    pub fn set<T>(&self, rt: &mut Runtime<T>, new_value: T) -> (pass: Vec<usize>)
        requires
            old(rt).wf(),
            old(rt)@.contains(*self),
        ensures
            final(rt).wf(),
            final(rt)@ == old(rt)@.after_set(*self, new_value),
            pass@ == old(rt)@.pass(*self),
    {
        let ghost before = rt@;
        rt.values.set(self.index, new_value);
        let pass = rt.observers[self.index].clone();
        proof {
            assert(rt@.cells =~= before.after_set(*self, new_value).cells);
            assert forall|i: int| 0 <= i < rt@.cells.len() implies keys_ordered_below(
                #[trigger] rt@.cells[i].observers,
                rt@.next_key,
            ) by {
                assert(rt@.cells[i].observers == before.cells[i].observers);
            }
        }
        pass
    }

    /// Applies `f` to the current value and stores the result, with a single
    /// notification pass.
    pub fn update<T, F: FnOnce(&T) -> T>(&self, rt: &mut Runtime<T>, f: F) -> (pass: Vec<usize>)
        requires
            old(rt).wf(),
            old(rt)@.contains(*self),
            f.requires((&old(rt)@.value_of(*self),)),
        ensures
            final(rt).wf(),
            f.ensures((&old(rt)@.value_of(*self),), final(rt)@.value_of(*self)),
            final(rt)@ == old(rt)@.after_set(*self, final(rt)@.value_of(*self)),
            pass@ == old(rt)@.pass(*self),
    {
        let new_value = f(&rt.values[self.index]);
        self.set(rt, new_value)
    }

    /// Edits the value in place through `f`, then returns the observers to
    /// notify with the edited value. The edit receives the only live borrow of
    /// the value: the runtime stays mutably borrowed until it returns.
    pub fn update_inplace_unchecked<T, F: FnOnce(&mut T)>(&self, rt: &mut Runtime<T>, f: F) -> (pass: Vec<usize>)
        requires
            old(rt).wf(),
            old(rt)@.contains(*self),
            forall|v: &mut T| *v == old(rt)@.value_of(*self) ==> #[trigger] f.requires((v,)),
        ensures
            final(rt).wf(),
            exists|r: &mut T|
                *r == old(rt)@.value_of(*self) && *final(r) == final(rt)@.value_of(*self)
                    && #[trigger] f.ensures((r,), ()),
            final(rt)@ == old(rt)@.after_set(*self, final(rt)@.value_of(*self)),
            pass@ == old(rt)@.pass(*self),
    {
        let ghost before = rt@;
        let slot = &mut rt.values[self.index];
        f(slot);
        let pass = rt.observers[self.index].clone();
        proof {
            assert(rt@.cells =~= before.after_set(*self, rt@.value_of(*self)).cells);
            assert forall|i: int| 0 <= i < rt@.cells.len() implies keys_ordered_below(
                #[trigger] rt@.cells[i].observers,
                rt@.next_key,
            ) by {
                assert(rt@.cells[i].observers == before.cells[i].observers);
            }
        }
        pass
    }

    /// Registers a new observer on the cell and returns its key. The observer
    /// is notified of later mutations only: nothing is delivered on attach.
    pub fn add_observer<T>(&self, rt: &mut Runtime<T>) -> (key: usize)
        requires
            old(rt).wf(),
            old(rt)@.contains(*self),
            old(rt)@.next_key < usize::MAX,
        ensures
            final(rt).wf(),
            key == old(rt)@.next_key,
            final(rt)@ == old(rt)@.after_observe(*self),
    {
        let ghost before = rt@;
        let key = rt.next_key;
        rt.observers[self.index].push(key);
        rt.next_key = key + 1;
        proof {
            assert(rt@.cells =~= before.after_observe(*self).cells);
            assert forall|i: int| 0 <= i < rt@.cells.len() implies keys_ordered_below(
                #[trigger] rt@.cells[i].observers,
                rt@.next_key,
            ) by {
                if i != self.index {
                    assert(rt@.cells[i].observers == before.cells[i].observers);
                }
            }
        }
        key
    }
}

} // verus!
