use swayevents::delta::{DeltaBits, OutputDelta};
use swayevents::matcher::display_matches;
use swayevents::output::{Mode, Output, Rect};
use swayevents::registry::{OutputChange, Outputs};
use swayevents::triggers::{Action, Event, OnOutputAdded, OnOutputChanged, Triggers};

fn sample(id: Option<i64>) -> Output {
    Output {
        id,
        name: "eDP-1".to_owned(),
        make: "Dell".to_owned(),
        model: "U2720Q".to_owned(),
        serial: "ABC123".to_owned(),
        active: true,
        dpms: true,
        primary: false,
        scale: Some(1.0f64.to_bits()),
        subpixel_hinting: Some("rgb".to_owned()),
        transform: Some("normal".to_owned()),
        current_workspace: Some("1".to_owned()),
        modes: vec![Mode { width: 3840, height: 2160, refresh: 60000 }],
        current_mode: Some(Mode { width: 3840, height: 2160, refresh: 60000 }),
        rect: Rect { x: 0, y: 0, width: 3840, height: 2160 },
        focus: vec![7],
        focused: true,
    }
}

#[test]
fn diff_single_attribute_sets_only_that_bit() {
    let a = sample(Some(1));
    let mut b = a.duplicate();
    b.scale = Some(2.0f64.to_bits());
    let d = OutputDelta::between(&a, &b);
    assert!(d.0.scale);
    let mut expected = DeltaBits::none();
    expected.scale = true;
    assert_eq!(d.0, expected);
}

#[test]
fn diff_equal_records_is_empty() {
    let a = sample(Some(1));
    let b = a.duplicate();
    let d = OutputDelta::between(&a, &b);
    assert!(!d.is_some());
    assert!(d.same_specs());
}

#[test]
fn full_identity_replacement_yields_removed_then_added() {
    let a = sample(Some(1));
    let mut reg = Outputs::new(&vec![a.duplicate()]);
    let mut b = a.duplicate();
    b.make = "Eizo".to_owned();
    b.model = "EV2785".to_owned();
    b.serial = "ZZ9".to_owned();
    let events = reg.update(&vec![b.duplicate()]);
    assert_eq!(events.len(), 2);
    assert!(matches!(&events[0], OutputChange::Removed(o) if o.make == "Dell"));
    assert!(matches!(&events[1], OutputChange::Added(o) if o.make == "Eizo"));
}

#[test]
fn serial_only_change_still_replaces() {
    let a = sample(Some(1));
    let mut reg = Outputs::new(&vec![a.duplicate()]);
    let mut b = a.duplicate();
    b.serial = "OTHER".to_owned();
    let events = reg.update(&vec![b.duplicate()]);
    assert_eq!(events.len(), 2);
    assert!(matches!(&events[0], OutputChange::Removed(o) if o.serial == "ABC123"));
    assert!(matches!(&events[1], OutputChange::Added(o) if o.serial == "OTHER"));
}

#[test]
fn nonidentity_change_yields_one_changed_event() {
    let a = sample(Some(1));
    let mut reg = Outputs::new(&vec![a.duplicate()]);
    let mut b = a.duplicate();
    b.scale = Some(2.0f64.to_bits());
    b.rect = Rect { x: 0, y: 0, width: 1920, height: 1080 };
    let events = reg.update(&vec![b.duplicate()]);
    assert_eq!(events.len(), 1);
    match &events[0] {
        OutputChange::Changed(o, d) => {
            assert_eq!(o.scale, Some(2.0f64.to_bits()));
            let mut expected = DeltaBits::none();
            expected.scale = true;
            expected.rect = true;
            assert_eq!(d.0, expected);
        }
        other => panic!("expected Changed, got {:?}", other),
    }
}

#[test]
fn absent_identifiers_all_yield_removed() {
    let a = sample(Some(1));
    let mut b = sample(Some(2));
    b.name = "DP-3".to_owned();
    let mut reg = Outputs::new(&vec![a.duplicate(), b.duplicate()]);
    assert_eq!(reg.len(), 2);
    let events = reg.update(&vec![]);
    assert_eq!(events.len(), 2);
    let mut removed_ids = Vec::new();
    for ev in &events {
        match ev {
            OutputChange::Removed(o) => removed_ids.push(o.id),
            other => panic!("expected Removed, got {:?}", other),
        }
    }
    removed_ids.sort();
    assert_eq!(removed_ids, vec![Some(1), Some(2)]);
    assert_eq!(reg.len(), 0);
}

#[test]
fn outputs_without_identifier_are_invisible() {
    let ghostless = sample(None);
    let reg0 = Outputs::new(&vec![ghostless.duplicate()]);
    assert_eq!(reg0.len(), 0);
    let mut reg = Outputs::new(&vec![sample(Some(1))]);
    let events = reg.update(&vec![sample(Some(1)), ghostless.duplicate()]);
    assert!(events.is_empty());
    assert_eq!(reg.len(), 1);
}

#[test]
fn matcher_accepts_exact_forms_only() {
    let o = sample(Some(1));
    assert!(display_matches(&o, &"eDP-1".to_owned()));
    assert!(display_matches(&o, &"Dell".to_owned()));
    assert!(display_matches(&o, &"U2720Q".to_owned()));
    assert!(display_matches(&o, &"Dell U2720Q".to_owned()));
    assert!(display_matches(&o, &"Dell U2720Q ABC123".to_owned()));
    assert!(!display_matches(&o, &"DellU2720Q".to_owned()));
    assert!(!display_matches(&o, &"Dell U2720".to_owned()));
    assert!(!display_matches(&o, &"Dell U2720Q ABC12".to_owned()));
    assert!(!display_matches(&o, &"".to_owned()));
}

#[test]
fn changed_trigger_fires_on_intersecting_delta() {
    let mut scale_only = DeltaBits::none();
    scale_only.scale = true;
    let t = OnOutputChanged {
        display: None,
        changes_to: Some(scale_only),
        exec_path: "reconfigure".to_owned(),
        args: vec![],
    };
    let o = sample(Some(1));
    let mut d_scale = DeltaBits::none();
    d_scale.scale = true;
    assert!(t.applies(&o, &d_scale));
    let mut d_scale_rect = DeltaBits::none();
    d_scale_rect.scale = true;
    d_scale_rect.rect = true;
    assert!(t.applies(&o, &d_scale_rect));
    let mut d_rect = DeltaBits::none();
    d_rect.rect = true;
    assert!(!t.applies(&o, &d_rect));
}

#[test]
fn unfiltered_trigger_fires_for_every_output() {
    let triggers = Triggers {
        on_output_added: vec![
            OnOutputAdded { display: None, exec_path: "a".to_owned(), args: vec![] },
            OnOutputAdded {
                display: Some("NoSuchDisplay".to_owned()),
                exec_path: "b".to_owned(),
                args: vec![],
            },
        ],
        on_output_removed: vec![],
        on_output_changed: vec![],
    };
    let idx = triggers.matching_added(&sample(Some(1)));
    assert_eq!(idx, vec![0]);
    let mut other = sample(Some(2));
    other.name = "HDMI-A-1".to_owned();
    other.make = "Acme".to_owned();
    let idx2 = triggers.matching_added(&other);
    assert_eq!(idx2, vec![0]);
}

#[test]
fn handle_routes_events_to_their_lists() {
    let triggers = Triggers {
        on_output_added: vec![OnOutputAdded {
            display: None,
            exec_path: "a".to_owned(),
            args: vec![],
        }],
        on_output_removed: vec![],
        on_output_changed: vec![],
    };
    match triggers.handle(Event::Output(OutputChange::Added(sample(Some(1))))) {
        Action::RunAdded(idx, out) => {
            assert_eq!(idx, vec![0]);
            assert_eq!(out.name, "eDP-1");
        }
        other => panic!("expected RunAdded, got {:?}", other),
    }
    match triggers.handle(Event::Output(OutputChange::Removed(sample(Some(1))))) {
        Action::RunRemoved(idx, _) => assert!(idx.is_empty()),
        other => panic!("expected RunRemoved, got {:?}", other),
    }
    assert!(matches!(triggers.handle(Event::ConfigUpdate), Action::ReloadConfig));
}

#[test]
fn default_config_holds_two_placeholder_entries() {
    let t = Triggers::default_config();
    assert_eq!(t.on_output_added.len(), 2);
    assert_eq!(t.on_output_added[0].exec_path, "HI");
    assert!(t.on_output_added[0].display.is_none());
    assert!(t.on_output_added[0].args.is_empty());
    assert_eq!(t.on_output_added[1].exec_path, "HI");
    assert!(t.on_output_removed.is_empty());
    assert!(t.on_output_changed.is_empty());
}

#[test]
fn end_to_end_initial_load_then_scale_change() {
    let first = sample(Some(1));
    let mut reg = Outputs::new(&vec![first.duplicate()]);
    assert_eq!(reg.len(), 1);
    let held = reg.get(1).expect("id 1 must be registered");
    assert_eq!(held.name, "eDP-1");
    assert!(reg.get(2).is_none());

    let mut second = first.duplicate();
    second.scale = Some(1.5f64.to_bits());
    let events = reg.update(&vec![second.duplicate()]);
    assert_eq!(events.len(), 1);
    match &events[0] {
        OutputChange::Changed(o, d) => {
            let mut expected = DeltaBits::none();
            expected.scale = true;
            assert_eq!(d.0, expected);
            assert_eq!(o.scale, Some(1.5f64.to_bits()));
        }
        other => panic!("expected Changed, got {:?}", other),
    }
    assert_eq!(reg.len(), 1);
    assert_eq!(reg.get(1).unwrap().scale, Some(1.5f64.to_bits()));
}

#[test]
fn matcher_checks_exact_byte_layout_even_with_spaces_inside_fields() {
    let mut o = sample(Some(1));
    o.make = "A B".to_owned();
    o.model = "C".to_owned();
    // the concatenation "make model" is exactly "A B C"; nothing is
    // disambiguated beyond the byte layout
    assert!(display_matches(&o, &"A B C".to_owned()));
    assert!(display_matches(&o, &"A B".to_owned()));
    assert!(!display_matches(&o, &"A  B C".to_owned()));
}

#[test]
fn handle_routes_changed_events_with_delta_filter() {
    let mut scale_only = DeltaBits::none();
    scale_only.scale = true;
    let triggers = Triggers {
        on_output_added: vec![],
        on_output_removed: vec![],
        on_output_changed: vec![
            OnOutputChanged {
                display: None,
                changes_to: Some(scale_only),
                exec_path: "a".to_owned(),
                args: vec![],
            },
            OnOutputChanged {
                display: None,
                changes_to: None,
                exec_path: "b".to_owned(),
                args: vec![],
            },
        ],
    };
    let mut d = DeltaBits::none();
    d.rect = true;
    let ev = Event::Output(OutputChange::Changed(sample(Some(1)), OutputDelta(d)));
    match triggers.handle(ev) {
        Action::RunChanged(idx, out) => {
            assert_eq!(idx, vec![1]);
            assert_eq!(out.name, "eDP-1");
        }
        other => panic!("expected RunChanged, got {:?}", other),
    }
}

#[test]
fn duplicate_id_in_one_query_is_added_then_diffed() {
    let a = sample(Some(5));
    let mut b = a.duplicate();
    b.scale = Some(2.0f64.to_bits());
    let mut reg = Outputs::new(&vec![]);
    let events = reg.update(&vec![a.duplicate(), b.duplicate()]);
    assert_eq!(events.len(), 2);
    assert!(matches!(&events[0], OutputChange::Added(_)));
    assert!(matches!(&events[1], OutputChange::Changed(_, _)));
    assert_eq!(reg.len(), 1);
}
