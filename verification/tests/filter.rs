use rtl_action::event::Event;
use rtl_action::filter::{process_line, EventFilter, IntakeOutcome};

fn sample_event() -> Event {
    Event {
        time: String::from("2019-12-11 15:21:51"),
        model: String::from("Proove-Security"),
        group: 1,
        unit: 2,
        id: 3,
        channel: 4,
        state: true,
    }
}

#[test]
fn filter_unset_constraints_forward_everything() {
    let f = EventFilter::unrestricted();
    assert!(f.matches(&sample_event()));
    let f = EventFilter { group: None, unit: None, id: None, channel: None };
    assert!(f.matches(&sample_event()));
}

#[test]
fn filter_matching_constraints_forward() {
    let f = EventFilter { group: Some(1), unit: Some(2), id: Some(3), channel: Some(4) };
    assert!(f.matches(&sample_event()));
    let f = EventFilter { group: Some(1), unit: None, id: Some(3), channel: None };
    assert!(f.matches(&sample_event()));
}

#[test]
fn filter_any_mismatching_constraint_drops() {
    let f = EventFilter { group: Some(9), unit: None, id: None, channel: None };
    assert!(!f.matches(&sample_event()));
    let f = EventFilter { group: None, unit: Some(9), id: None, channel: None };
    assert!(!f.matches(&sample_event()));
    let f = EventFilter { group: None, unit: None, id: Some(9), channel: None };
    assert!(!f.matches(&sample_event()));
    let f = EventFilter { group: None, unit: None, id: None, channel: Some(9) };
    assert!(!f.matches(&sample_event()));
    let f = EventFilter { group: Some(1), unit: Some(2), id: Some(3), channel: Some(9) };
    assert!(!f.matches(&sample_event()));
}

#[test]
fn intake_forwards_drops_and_fails() {
    let line = "{\"time\":\"t\",\"model\":\"m\",\"id\":3,\"channel\":4,\"state\":\"ON\",\"unit\":2,\"group\":1}";
    let forward_all = EventFilter::unrestricted();
    match process_line(line, &forward_all) {
        IntakeOutcome::Forward(e) => {
            assert_eq!(e.id, 3);
            assert_eq!(e.state, true);
        },
        _ => panic!("expected the event to be forwarded"),
    }

    let off_target = EventFilter { group: Some(7), unit: None, id: None, channel: None };
    assert!(matches!(process_line(line, &off_target), IntakeOutcome::Dropped));

    assert!(matches!(
        process_line("not json", &forward_all),
        IntakeOutcome::Failed(_)
    ));
}
