use reactive_ui::cell::{Reactive, Runtime};
use reactive_ui::derived::{DecimalText, Projection};
use reactive_ui::ui::{custom_main, Action, Component, Group, RenderOp, Step};

/// Delivers the cell's current value to the observers of a pass that the
/// log tracks, in the order of the pass.
fn deliver(rt: &Runtime<i64>, cell: Reactive, pass: &[usize], watched: &[usize], log: &mut Vec<(usize, i64)>) {
    for key in pass {
        if watched.contains(key) {
            log.push((*key, *cell.value(rt)));
        }
    }
}

#[test]
fn inplace_edits_then_derived_text() {
    let mut rt: Runtime<i64> = Runtime::new();
    let c = Reactive::new(&mut rt, 0);
    let recorder = c.add_observer(&mut rt);
    let mut seen: Vec<i64> = Vec::new();
    let pass = c.update_inplace_unchecked(&mut rt, |v: &mut i64| *v += 1);
    for key in pass {
        if key == recorder {
            seen.push(*c.value(&rt));
        }
    }
    let pass = c.update_inplace_unchecked(&mut rt, |v: &mut i64| *v -= 1);
    for key in pass {
        if key == recorder {
            seen.push(*c.value(&rt));
        }
    }
    assert_eq!(seen, vec![1, 0]);

    let text = c.derive(DecimalText);
    let text_observer = text.add_observer(&mut rt);
    let mut texts: Vec<String> = Vec::new();
    for key in c.set(&mut rt, 10) {
        if key == text_observer {
            texts.push(text.value(&rt));
        }
    }
    assert_eq!(texts, vec!["10".to_string()]);
}

#[test]
fn set_notifies_in_registration_order_once_each() {
    let mut rt: Runtime<i64> = Runtime::new();
    let c = Reactive::new(&mut rt, 3);
    let other = Reactive::new(&mut rt, 4);
    let a = c.add_observer(&mut rt);
    let x = other.add_observer(&mut rt);
    let b = c.add_observer(&mut rt);
    let d = c.derive(DecimalText).add_observer(&mut rt);
    let pass = c.set(&mut rt, 7);
    assert_eq!(pass, vec![a, b, d]);
    assert!(!pass.contains(&x));
    assert_eq!(*c.value(&rt), 7);
    assert_eq!(*other.value(&rt), 4);
    assert_eq!(other.set(&mut rt, 5), vec![x]);
}

#[test]
fn set_without_observers_notifies_nobody() {
    let mut rt: Runtime<String> = Runtime::new();
    let c = Reactive::new(&mut rt, "a".to_string());
    assert!(c.set(&mut rt, "b".to_string()).is_empty());
    assert_eq!(c.value(&rt), "b");
}

#[test]
fn derived_value_follows_every_mutation() {
    let mut rt: Runtime<i64> = Runtime::new();
    let c = Reactive::new(&mut rt, 42);
    let d = c.derive(DecimalText);
    assert_eq!(d.value(&rt), "42");
    c.set(&mut rt, -7);
    assert_eq!(d.value(&rt), "-7");
    c.update(&mut rt, |v: &i64| v * 3);
    assert_eq!(d.value(&rt), "-21");
    c.update_inplace_unchecked(&mut rt, |v: &mut i64| *v = 100);
    assert_eq!(d.value(&rt), "100");
}

#[test]
fn cloned_handle_shares_the_cell() {
    let mut rt: Runtime<i64> = Runtime::new();
    let original = Reactive::new(&mut rt, 1);
    let copy = original.clone();
    let k1 = original.add_observer(&mut rt);
    let k2 = copy.add_observer(&mut rt);
    let through_copy = copy.set(&mut rt, 9);
    assert_eq!(*original.value(&rt), 9);
    let through_original = original.set(&mut rt, 9);
    assert_eq!(through_copy, through_original);
    assert_eq!(through_copy, vec![k1, k2]);
}

#[test]
fn late_observer_sees_only_later_mutations() {
    let mut rt: Runtime<i64> = Runtime::new();
    let c = Reactive::new(&mut rt, 0);
    let early = c.add_observer(&mut rt);
    let mut passes: Vec<Vec<usize>> = Vec::new();
    passes.push(c.set(&mut rt, 1));
    passes.push(c.update(&mut rt, |v: &i64| v + 1));
    let late = c.add_observer(&mut rt);
    assert!(passes.iter().all(|p| !p.contains(&late)));
    let next = c.set(&mut rt, 3);
    assert_eq!(next, vec![early, late]);
    let mut log: Vec<(usize, i64)> = Vec::new();
    deliver(&rt, c, &next, &[late], &mut log);
    assert_eq!(log, vec![(late, 3)]);
}

#[test]
fn inplace_and_update_notify_the_same_values() {
    let steps: [i64; 3] = [5, -2, 11];
    let mut by_update: Vec<(usize, i64)> = Vec::new();
    let mut in_place: Vec<(usize, i64)> = Vec::new();

    let mut rt1: Runtime<i64> = Runtime::new();
    let c1 = Reactive::new(&mut rt1, 1);
    let o1 = c1.add_observer(&mut rt1);
    let mut rt2: Runtime<i64> = Runtime::new();
    let c2 = Reactive::new(&mut rt2, 1);
    let o2 = c2.add_observer(&mut rt2);
    for s in steps {
        let p1 = c1.update(&mut rt1, |v: &i64| v * 2 + s);
        deliver(&rt1, c1, &p1, &[o1], &mut by_update);
        let p2 = c2.update_inplace_unchecked(&mut rt2, |v: &mut i64| *v = *v * 2 + s);
        deliver(&rt2, c2, &p2, &[o2], &mut in_place);
    }
    assert_eq!(by_update, in_place);
    assert_eq!(by_update, vec![(0, 7), (0, 12), (0, 35)]);
}

#[test]
fn decimal_text_of_integers() {
    assert_eq!(DecimalText.project(&0), "0");
    assert_eq!(DecimalText.project(&10), "10");
    assert_eq!(DecimalText.project(&-5), "-5");
    assert_eq!(DecimalText.project(&i64::MAX), "9223372036854775807");
    assert_eq!(DecimalText.project(&i64::MIN), "-9223372036854775808");
}

#[test]
fn button_actions_edit_in_place() {
    let mut rt: Runtime<i64> = Runtime::new();
    let c = Reactive::new(&mut rt, 0);
    let k = c.add_observer(&mut rt);
    let plus = Action { cell: c, step: Step::Increment };
    let minus = Action { cell: c, step: Step::Decrement };
    assert_eq!(plus.perform(&mut rt), vec![k]);
    assert_eq!(plus.perform(&mut rt), vec![k]);
    assert_eq!(*c.value(&rt), 2);
    assert_eq!(minus.perform(&mut rt), vec![k]);
    assert_eq!(*c.value(&rt), 1);
}

#[test]
fn button_actions_refuse_overflow() {
    let mut rt: Runtime<i64> = Runtime::new();
    let top = Reactive::new(&mut rt, i64::MAX);
    let bottom = Reactive::new(&mut rt, i64::MIN);
    assert!(!Action { cell: top, step: Step::Increment }.can_perform(&rt));
    assert!(Action { cell: top, step: Step::Decrement }.can_perform(&rt));
    assert!(!Action { cell: bottom, step: Step::Decrement }.can_perform(&rt));
    assert!(Action { cell: bottom, step: Step::Increment }.can_perform(&rt));
}

#[test]
fn render_lists_operations_and_registers_dynamic_text() {
    let mut rt: Runtime<i64> = Runtime::new();
    let c = Reactive::new(&mut rt, 5);
    let before = c.add_observer(&mut rt);
    let group = Group {
        components: vec![
            Component::Text { text: "count: ".to_string() },
            Component::DynText { view: c.derive(DecimalText) },
            Component::Button {
                label: "+1".to_string(),
                onclick: Action { cell: c, step: Step::Increment },
            },
        ],
    };
    let ops = group.render(&mut rt);
    assert_eq!(
        ops,
        vec![
            RenderOp::Text { text: "count: ".to_string() },
            RenderOp::DynText { text: "5".to_string(), source: c, observer: before + 1 },
            RenderOp::Button {
                label: "+1".to_string(),
                onclick: Action { cell: c, step: Step::Increment },
            },
        ]
    );
    assert_eq!(c.set(&mut rt, 6), vec![before, before + 1]);
}

#[test]
fn render_of_empty_group_does_nothing() {
    let mut rt: Runtime<i64> = Runtime::new();
    let c = Reactive::new(&mut rt, 5);
    let group: Group<DecimalText> = Group { components: Vec::new() };
    assert!(group.render(&mut rt).is_empty());
    assert!(c.set(&mut rt, 1).is_empty());
}

#[test]
fn counter_demo_renders_twice_around_a_set() {
    let demo = custom_main();
    assert_eq!(*demo.counter.value(&demo.runtime), 10);
    assert_eq!(demo.notified, vec![0]);
    assert_eq!(
        demo.first_render,
        vec![
            RenderOp::DynText { text: "0".to_string(), source: demo.counter, observer: 0 },
            RenderOp::Button {
                label: "+".to_string(),
                onclick: Action { cell: demo.counter, step: Step::Increment },
            },
            RenderOp::Button {
                label: "-".to_string(),
                onclick: Action { cell: demo.counter, step: Step::Decrement },
            },
        ]
    );
    assert_eq!(
        demo.second_render[0],
        RenderOp::DynText { text: "10".to_string(), source: demo.counter, observer: 1 }
    );
    assert_eq!(demo.second_render[1..], demo.first_render[1..]);
}

#[test]
fn runtime_reports_cells_and_next_key() {
    let mut rt: Runtime<i64> = Runtime::new();
    assert_eq!(rt.next_key(), 0);
    let c = Reactive::new(&mut rt, 1);
    assert!(rt.holds(c));
    assert!(!rt.holds(Reactive { index: 1 }));
    let k = c.add_observer(&mut rt);
    assert_eq!(k, 0);
    assert_eq!(rt.next_key(), 1);
    c.set(&mut rt, 2);
    assert_eq!(rt.next_key(), 1);
}
