use rtl_action::action::{action_env, classify_exit, u32_to_decimal, ExitKind};
use rtl_action::event::Event;

#[test]
fn decimal_rendering() {
    assert_eq!(u32_to_decimal(0), "0");
    assert_eq!(u32_to_decimal(7), "7");
    assert_eq!(u32_to_decimal(10), "10");
    assert_eq!(u32_to_decimal(305), "305");
    assert_eq!(u32_to_decimal(4294967295), "4294967295");
}

#[test]
fn environment_of_an_event() {
    let e = Event {
        time: String::from("2019-12-11 15:21:51"),
        model: String::from("Proove-Security"),
        group: 1,
        unit: 2,
        id: 3,
        channel: 4,
        state: true,
    };
    let env = action_env(&e);
    let expected = vec![
        ("TIME", "2019-12-11 15:21:51"),
        ("MODEL", "Proove-Security"),
        ("GROUP", "1"),
        ("UNIT", "2"),
        ("ID", "3"),
        ("CHANNEL", "4"),
        ("STATE", "1"),
    ];
    assert_eq!(env.len(), expected.len());
    for ((name, value), (expected_name, expected_value)) in env.iter().zip(expected.iter()) {
        assert_eq!(name, expected_name);
        assert_eq!(value, expected_value);
    }

    let off = Event { state: false, ..e };
    let env = action_env(&off);
    assert_eq!(env[6].0, "STATE");
    assert_eq!(env[6].1, "0");
}

#[test]
fn exit_classification() {
    assert_eq!(classify_exit(Some(0), None), ExitKind::CleanExit);
    assert_eq!(classify_exit(Some(3), None), ExitKind::ExitedWithCode(3));
    assert_eq!(classify_exit(None, Some(9)), ExitKind::KilledBySignal(9));
    assert_eq!(classify_exit(None, None), ExitKind::UnknownCondition);
    assert_eq!(classify_exit(Some(1), Some(2)), ExitKind::UnknownCondition);
}
