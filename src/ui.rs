//! A closed set of UI components over an integer counter, and their
//! rendering described as data.
//!
//! Rendering does not touch a document itself: it returns the operations a
//! host must perform, in order, and registers on the runtime the observer
//! through which each dynamic text node is kept up to date.
use vstd::prelude::*;
use crate::cell::{Model, Reactive, Runtime};
use crate::derived::{decimal, DecimalText, Derived, Projection};

verus! {

/// The in-place edit a button applies to its cell.
#[derive(Clone, Copy, Debug, PartialEq, Eq, Structural)]
pub enum Step {
    Increment,
    Decrement,
}

pub open spec fn stepped(v: int, step: Step) -> int {
    match step {
        Step::Increment => v + 1,
        Step::Decrement => v - 1,
    }
}

/// What a click does: edit `cell` in place by `step`.
#[derive(Clone, Copy, Debug, PartialEq, Eq, Structural)]
pub struct Action {
    pub cell: Reactive,
    pub step: Step,
}

impl Action {
    /// The edited value still fits in an `i64`.
    pub open spec fn fits(&self, m: Model<i64>) -> bool {
        i64::MIN <= stepped(m.value_of(self.cell) as int, self.step) <= i64::MAX
    }

    /// Whether the action can be performed without overflow.
    pub fn can_perform(&self, rt: &Runtime<i64>) -> (ok: bool)
        requires
            rt.wf(),
            rt@.contains(self.cell),
        ensures
            ok == self.fits(rt@),
    {
        let v = *self.cell.value(rt);
        match self.step {
            Step::Increment => v < i64::MAX,
            Step::Decrement => v > i64::MIN,
        }
    }

    /// Applies the step to the cell in place and returns the observers to
    /// notify, in registration order.
    pub fn perform(&self, rt: &mut Runtime<i64>) -> (pass: Vec<usize>)
        requires
            old(rt).wf(),
            old(rt)@.contains(self.cell),
            self.fits(old(rt)@),
        ensures
            final(rt).wf(),
            final(rt)@ == old(rt)@.after_set(
                self.cell,
                stepped(old(rt)@.value_of(self.cell) as int, self.step) as i64,
            ),
            pass@ == old(rt)@.pass(self.cell),
    {
        match self.step {
            Step::Increment => {
                let increment = |v: &mut i64|
                    requires *old(v) < i64::MAX,
                    ensures *final(v) == *old(v) + 1,
                { *v = *v + 1; };
                self.cell.update_inplace_unchecked(rt, increment)
            },
            Step::Decrement => {
                let decrement = |v: &mut i64|
                    requires *old(v) > i64::MIN,
                    ensures *final(v) == *old(v) - 1,
                { *v = *v - 1; };
                self.cell.update_inplace_unchecked(rt, decrement)
            },
        }
    }
}

/// One node of a user interface.
pub enum Component<P> {
    Button { label: String, onclick: Action },
    Text { text: String },
    /// Text that follows a derived view of a cell.
    DynText { view: Derived<P> },
}

/// Components rendered one after the other.
pub struct Group<P> {
    pub components: Vec<Component<P>>,
}

/// One operation for the host document.
#[derive(Debug, PartialEq, Eq)]
pub enum RenderOp {
    /// Show a button that performs `onclick` when clicked.
    Button { label: String, onclick: Action },
    /// Append a text node that never changes.
    Text { text: String },
    /// Append a text node showing `text` now; whenever observer `observer`
    /// (registered on `source`) is notified, show the view's new value.
    DynText { text: String, source: Reactive, observer: usize },
}

/// The runtime once the dynamic texts of `comps` have registered their
/// observers, in order.
pub open spec fn mounted<P>(m: Model<i64>, comps: Seq<Component<P>>) -> Model<i64>
    decreases comps.len(),
{
    if comps.len() == 0 {
        m
    } else {
        let before = mounted(m, comps.drop_last());
        match comps.last() {
            Component::DynText { view } => before.after_observe(view.source),
            _ => before,
        }
    }
}

/// `op` is the rendering of `c` on the runtime `before`.
pub open spec fn renders_as<P: Projection<i64, String>>(
    c: Component<P>,
    op: RenderOp,
    before: Model<i64>,
) -> bool {
    match c {
        Component::Button { label, onclick } => op == (RenderOp::Button { label, onclick }),
        Component::Text { text } => op == (RenderOp::Text { text }),
        Component::DynText { view: d } => match op {
            RenderOp::DynText { text, source, observer } => {
                &&& source == d.source
                &&& observer == before.next_key
                &&& d.projection.projects(before.value_of(d.source), text)
            },
            _ => false,
        },
    }
}

/// Every dynamic text of `comps` reads a cell of `m`.
pub open spec fn sources_in<P>(m: Model<i64>, comps: Seq<Component<P>>) -> bool {
    forall|i: int|
        0 <= i < comps.len() ==> match #[trigger] comps[i] {
            Component::DynText { view } => m.contains(view.source),
            _ => true,
        }
}

/// Registering the dynamic texts of `comps` keeps the cells and their values,
/// and uses one key per dynamic text at most.
pub proof fn lemma_mounted_keeps_values<P>(m: Model<i64>, comps: Seq<Component<P>>)
    requires
        m.wf(),
        sources_in(m, comps),
        m.next_key + comps.len() < usize::MAX,
    ensures
        mounted(m, comps).wf(),
        mounted(m, comps).cells.len() == m.cells.len(),
        mounted(m, comps).next_key <= m.next_key + comps.len(),
        forall|c: Reactive| #[trigger]
            m.contains(c) ==> mounted(m, comps).value_of(c) == m.value_of(c),
    decreases comps.len(),
{
    if comps.len() > 0 {
        let rest = comps.drop_last();
        assert forall|i: int| 0 <= i < rest.len() implies match #[trigger] rest[i] {
            Component::DynText { view } => m.contains(view.source),
            _ => true,
        } by {
            assert(rest[i] == comps[i]);
        }
        lemma_mounted_keeps_values(m, rest);
        let before = mounted(m, rest);
        match comps.last() {
            Component::DynText { view } => {
                assert(comps[comps.len() - 1] == comps.last());
                lemma_observe_keeps_wf(before, view.source);
            },
            _ => {},
        }
    }
}

/// Registering an observer keeps a runtime well formed.
pub proof fn lemma_observe_keeps_wf(m: Model<i64>, c: Reactive)
    requires
        m.wf(),
        m.contains(c),
        m.next_key < usize::MAX,
    ensures
        m.after_observe(c).wf(),
{
    let n = m.after_observe(c);
    assert forall|i: int| 0 <= i < n.cells.len() implies crate::cell::keys_ordered_below(
        #[trigger] n.cells[i].observers,
        n.next_key,
    ) by {
        assert(crate::cell::keys_ordered_below(m.cells[i].observers, m.next_key));
    }
}

impl<P: Projection<i64, String>> Group<P> {
    /// Renders the components in order. A dynamic text shows its view's
    /// current value and registers an observer on the view's source, which
    /// is how later changes reach it.
    pub fn render(&self, rt: &mut Runtime<i64>) -> (ops: Vec<RenderOp>)
        requires
            old(rt).wf(),
            sources_in(old(rt)@, self.components@),
            old(rt)@.next_key + self.components@.len() < usize::MAX,
        ensures
            final(rt).wf(),
            final(rt)@ == mounted(old(rt)@, self.components@),
            ops@.len() == self.components@.len(),
            forall|i: int|
                0 <= i < ops@.len() ==> renders_as(
                    #[trigger] self.components@[i],
                    ops@[i],
                    mounted(old(rt)@, self.components@.take(i)),
                ),
    {
        let ghost start = rt@;
        proof {
            rt.lemma_view_wf();
        }
        let mut ops: Vec<RenderOp> = Vec::new();
        let mut i: usize = 0;
        while i < self.components.len()
            invariant
                rt.wf(),
                0 <= i <= self.components@.len(),
                start.wf(),
                sources_in(start, self.components@),
                start.next_key + self.components@.len() < usize::MAX,
                rt@ == mounted(start, self.components@.take(i as int)),
                ops@.len() == i,
                forall|j: int|
                    0 <= j < i ==> renders_as(
                        #[trigger] self.components@[j],
                        ops@[j],
                        mounted(start, self.components@.take(j)),
                    ),
            decreases self.components@.len() - i,
        {
            let ghost prefix = self.components@.take(i as int);
            let ghost next = self.components@.take(i + 1);
            proof {
                assert(next.drop_last() =~= prefix);
                assert(next.last() == self.components@[i as int]);
                assert forall|j: int| 0 <= j < prefix.len() implies match #[trigger] prefix[j] {
                    Component::DynText { view } => start.contains(view.source),
                    _ => true,
                } by {
                    assert(prefix[j] == self.components@[j]);
                }
                lemma_mounted_keeps_values(start, prefix);
            }
            let op = match &self.components[i] {
                Component::Button { label, onclick } => RenderOp::Button {
                    label: label.clone(),
                    onclick: *onclick,
                },
                Component::Text { text } => RenderOp::Text { text: text.clone() },
                Component::DynText { view } => {
                    let shown = view.value(rt);
                    let observer = view.add_observer(rt);
                    RenderOp::DynText { text: shown, source: view.source, observer }
                },
            };
            ops.push(op);
            i = i + 1;
        }
        proof {
            assert(self.components@.take(i as int) =~= self.components@);
        }
        ops
    }
}

/// The counter demonstration after its two renders, with everything a host
/// needs to carry out the document operations and later clicks.
pub struct CounterDemo {
    pub runtime: Runtime<i64>,
    pub counter: Reactive,
    pub ui: Group<DecimalText>,
    /// The operations of the render before the counter is set.
    pub first_render: Vec<RenderOp>,
    /// The observers notified when the counter is set to ten.
    pub notified: Vec<usize>,
    /// The operations of the render after the counter is set.
    pub second_render: Vec<RenderOp>,
}

/// A counter starting at zero, shown as decimal text beside a "+" and a "-"
/// button that edit it in place; the UI is rendered, the counter set to ten,
/// and the UI rendered again.
pub fn custom_main() -> (demo: CounterDemo)
    ensures
        demo.runtime.wf(),
        demo.runtime@.contains(demo.counter),
        demo.runtime@.value_of(demo.counter) == 10,
        demo.runtime@.pass(demo.counter) == seq![0usize, 1usize],
        demo.ui.components@.len() == 3,
        demo.ui.components@[0] == (Component::DynText {
            view: Derived { source: demo.counter, projection: DecimalText },
        }),
        demo.ui.components@[1] matches Component::Button { label, onclick }
            && label@ == seq!['+'] && onclick == (Action { cell: demo.counter, step: Step::Increment }),
        demo.ui.components@[2] matches Component::Button { label, onclick }
            && label@ == seq!['-'] && onclick == (Action { cell: demo.counter, step: Step::Decrement }),
        demo.first_render@.len() == 3,
        demo.first_render@[0] matches RenderOp::DynText { text, source, observer }
            && text@ == decimal(0) && source == demo.counter && observer == 0,
        demo.first_render@[1] matches RenderOp::Button { label, onclick }
            && label@ == seq!['+'] && onclick == (Action { cell: demo.counter, step: Step::Increment }),
        demo.first_render@[2] matches RenderOp::Button { label, onclick }
            && label@ == seq!['-'] && onclick == (Action { cell: demo.counter, step: Step::Decrement }),
        demo.notified@ == seq![0usize],
        demo.second_render@.len() == 3,
        demo.second_render@[0] matches RenderOp::DynText { text, source, observer }
            && text@ == decimal(10) && source == demo.counter && observer == 1,
        demo.second_render@[1] == demo.first_render@[1],
        demo.second_render@[2] == demo.first_render@[2],
{
    let mut runtime: Runtime<i64> = Runtime::new();
    let counter = Reactive::new(&mut runtime, 0i64);
    let shown = counter.derive(DecimalText);
    proof {
        reveal_strlit("+");
        reveal_strlit("-");
    }
    let mut components: Vec<Component<DecimalText>> = Vec::new();
    components.push(Component::DynText { view: shown });
    components.push(
        Component::Button {
            label: "+".to_owned(),
            onclick: Action { cell: counter, step: Step::Increment },
        },
    );
    components.push(
        Component::Button {
            label: "-".to_owned(),
            onclick: Action { cell: counter, step: Step::Decrement },
        },
    );
    let ui = Group { components };
    let ghost m0 = runtime@;
    let first_render = ui.render(&mut runtime);
    proof {
        assert(ui.components@.take(0) =~= Seq::<Component<DecimalText>>::empty());
        assert(ui.components@.take(1).drop_last() =~= ui.components@.take(0));
        assert(ui.components@.take(2).drop_last() =~= ui.components@.take(1));
        assert(ui.components@.take(3).drop_last() =~= ui.components@.take(2));
        assert(ui.components@.take(3) =~= ui.components@);
        assert(renders_as(ui.components@[0], first_render@[0], mounted(m0, ui.components@.take(0))));
        assert(renders_as(ui.components@[1], first_render@[1], mounted(m0, ui.components@.take(1))));
        assert(renders_as(ui.components@[2], first_render@[2], mounted(m0, ui.components@.take(2))));
    }
    let notified = counter.set(&mut runtime, 10);
    let ghost m1 = runtime@;
    let second_render = ui.render(&mut runtime);
    proof {
        assert(renders_as(ui.components@[0], second_render@[0], mounted(m1, ui.components@.take(0))));
        assert(renders_as(ui.components@[1], second_render@[1], mounted(m1, ui.components@.take(1))));
        assert(renders_as(ui.components@[2], second_render@[2], mounted(m1, ui.components@.take(2))));
    }
    CounterDemo { runtime, counter, ui, first_render, notified, second_render }
}

} // verus!
