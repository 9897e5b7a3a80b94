use rtl_action::event::decode_event;

#[test]
fn test_decode() {
    const SAMPLE: &str = "{\"time\" : \"2019-12-11 15:21:51\", \"model\" : \"Proove-Security\", \"id\" : 3, \"channel\" : 4, \"state\" : \"ON\", \"unit\" : 2, \"group\" : 1}";
    let event = decode_event(SAMPLE).expect("failed to parse JSON");
    assert_eq!(event.time, "2019-12-11 15:21:51");
    assert_eq!(event.model, "Proove-Security");
    assert_eq!(event.group, 1);
    assert_eq!(event.unit, 2);
    assert_eq!(event.id, 3);
    assert_eq!(event.channel, 4);
    assert_eq!(event.state, true);
}

#[test]
fn decode_state_on() {
    let line = "{\"time\":\"2019-12-11 15:21:51\",\"model\":\"Proove-Security\",\"id\":3,\"channel\":4,\"state\":\"ON\",\"unit\":2,\"group\":1}";
    let event = decode_event(line).expect("line must decode");
    assert_eq!(event.state, true);
    assert_eq!(event.time, "2019-12-11 15:21:51");
    assert_eq!(event.model, "Proove-Security");
    assert_eq!(event.group, 1);
    assert_eq!(event.unit, 2);
    assert_eq!(event.id, 3);
    assert_eq!(event.channel, 4);
}

#[test]
fn decode_state_off() {
    let line = "{\"time\":\"2019-12-11 15:21:51\",\"model\":\"Proove-Security\",\"id\":3,\"channel\":4,\"state\":\"OFF\",\"unit\":2,\"group\":1}";
    let event = decode_event(line).expect("line must decode");
    assert_eq!(event.state, false);
}

#[test]
fn decode_state_unrecognized() {
    let line = "{\"time\":\"2019-12-11 15:21:51\",\"model\":\"Proove-Security\",\"id\":3,\"channel\":4,\"state\":\"MAYBE\",\"unit\":2,\"group\":1}";
    assert!(decode_event(line).is_err());
}

#[test]
fn decode_missing_field() {
    let line = "{\"time\":\"t\",\"model\":\"m\",\"id\":3,\"channel\":4,\"state\":\"ON\",\"unit\":2}";
    assert!(decode_event(line).is_err());
}

#[test]
fn decode_duplicate_field() {
    let line = "{\"time\":\"t\",\"model\":\"m\",\"id\":3,\"id\":5,\"channel\":4,\"state\":\"ON\",\"unit\":2,\"group\":1}";
    assert!(decode_event(line).is_err());
}

#[test]
fn decode_unknown_field() {
    let line = "{\"time\":\"t\",\"model\":\"m\",\"id\":3,\"channel\":4,\"state\":\"ON\",\"unit\":2,\"group\":1,\"extra\":7}";
    assert!(decode_event(line).is_err());
}

#[test]
fn decode_empty_and_non_object() {
    assert!(decode_event("").is_err());
    assert!(decode_event("   ").is_err());
    assert!(decode_event("[]").is_err());
    assert!(decode_event("dingdong").is_err());
}

#[test]
fn decode_trailing_garbage() {
    let line = "{\"time\":\"t\",\"model\":\"m\",\"id\":3,\"channel\":4,\"state\":\"ON\",\"unit\":2,\"group\":1} x";
    assert!(decode_event(line).is_err());
}

#[test]
fn decode_number_limits() {
    let line = "{\"time\":\"t\",\"model\":\"m\",\"id\":4294967295,\"channel\":0,\"state\":\"ON\",\"unit\":2,\"group\":1}";
    let event = decode_event(line).expect("u32::MAX must decode");
    assert_eq!(event.id, 4294967295);
    assert_eq!(event.channel, 0);

    let too_big = "{\"time\":\"t\",\"model\":\"m\",\"id\":4294967296,\"channel\":0,\"state\":\"ON\",\"unit\":2,\"group\":1}";
    assert!(decode_event(too_big).is_err());

    let leading_zero = "{\"time\":\"t\",\"model\":\"m\",\"id\":01,\"channel\":0,\"state\":\"ON\",\"unit\":2,\"group\":1}";
    assert!(decode_event(leading_zero).is_err());

    let negative = "{\"time\":\"t\",\"model\":\"m\",\"id\":-1,\"channel\":0,\"state\":\"ON\",\"unit\":2,\"group\":1}";
    assert!(decode_event(negative).is_err());
}

#[test]
fn decode_string_escapes() {
    let line = "{\"time\":\"a\\\"b\\\\c\\nd\",\"model\":\"x\\ty\",\"id\":3,\"channel\":4,\"state\":\"ON\",\"unit\":2,\"group\":1}";
    let event = decode_event(line).expect("escapes must decode");
    assert_eq!(event.time, "a\"b\\c\nd");
    assert_eq!(event.model, "x\ty");
}

#[test]
fn decode_unsupported_escape() {
    let line = "{\"time\":\"a\\u0041\",\"model\":\"m\",\"id\":3,\"channel\":4,\"state\":\"ON\",\"unit\":2,\"group\":1}";
    assert!(decode_event(line).is_err());

    let unterminated = "{\"time\":\"abc,\"model\":\"m\"}";
    assert!(decode_event(unterminated).is_err());
}

#[test]
fn decode_key_order_and_whitespace() {
    let line = " \t {\"state\" : \"OFF\" , \"group\":1,\"unit\":2,\"id\":3,\"channel\":4,\"model\":\"m\",\"time\":\"t\"} \r ";
    let event = decode_event(line).expect("any key order must decode");
    assert_eq!(event.state, false);
    assert_eq!(event.time, "t");
    assert_eq!(event.model, "m");
}
