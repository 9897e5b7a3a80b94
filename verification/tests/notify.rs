use rtl_action::notify::{
    ding_dong_line, is_trigger_line, read_step, write_step, Channel, Message, RecvOutcome, Source,
    WriteAction, FANOUT_CAPACITY,
};

fn peer_message(tag: &str) -> Message {
    Message::DingDong(Source::Socket(String::from(tag)))
}

fn delivered_tag(r: RecvOutcome) -> String {
    match r {
        RecvOutcome::Message(Message::DingDong(Source::Socket(tag))) => tag,
        _ => panic!("expected a delivered peer message"),
    }
}

#[test]
fn fan_out_delivers_to_every_subscriber_in_order() {
    let mut ch = Channel::new();
    let mut subs = vec![ch.subscribe(), ch.subscribe(), ch.subscribe()];

    ch.publish(peer_message("first"));
    ch.publish(Message::DingDong(Source::Internal));
    ch.publish(peer_message("third"));

    for sub in subs.iter_mut() {
        assert_eq!(delivered_tag(ch.recv(sub)), "first");
        assert!(matches!(
            ch.recv(sub),
            RecvOutcome::Message(Message::DingDong(Source::Internal))
        ));
        assert_eq!(delivered_tag(ch.recv(sub)), "third");
        // Exactly once each: nothing further is delivered.
        assert!(matches!(ch.recv(sub), RecvOutcome::Pending));
    }
}

#[test]
fn subscriber_sees_only_messages_after_subscription() {
    let mut ch = Channel::new();
    ch.publish(peer_message("before"));
    let mut sub = ch.subscribe();
    assert!(matches!(ch.recv(&mut sub), RecvOutcome::Pending));
    ch.publish(peer_message("after"));
    assert_eq!(delivered_tag(ch.recv(&mut sub)), "after");
}

#[test]
fn lagging_subscriber_resynchronizes_instead_of_stalling() {
    let mut ch = Channel::new();
    let mut sub = ch.subscribe();

    // Publish past the retention window; the publisher is never blocked.
    let published = FANOUT_CAPACITY + 5;
    for i in 0..published {
        ch.publish(peer_message(&i.to_string()));
    }

    // The slow subscriber observes how much it lost, then continues from the
    // oldest retained message.
    match ch.recv(&mut sub) {
        RecvOutcome::Lagged(missed) => assert_eq!(missed, 5),
        _ => panic!("a subscriber beyond the window must observe lag"),
    }
    assert_eq!(delivered_tag(ch.recv(&mut sub)), "5");
    assert_eq!(delivered_tag(ch.recv(&mut sub)), "6");

    // Lag is absorbed by the write loop, not turned into a disconnect.
    assert_eq!(write_step(&RecvOutcome::Lagged(5)), WriteAction::Skip);
}

#[test]
fn exactly_at_the_window_boundary_no_lag() {
    let mut ch = Channel::new();
    let mut sub = ch.subscribe();
    for i in 0..FANOUT_CAPACITY {
        ch.publish(peer_message(&i.to_string()));
    }
    assert_eq!(delivered_tag(ch.recv(&mut sub)), "0");
}

#[test]
fn closed_channel_drains_then_stops() {
    let mut ch = Channel::new();
    let mut sub = ch.subscribe();
    ch.publish(peer_message("last"));
    ch.close();
    assert_eq!(delivered_tag(ch.recv(&mut sub)), "last");
    assert!(matches!(ch.recv(&mut sub), RecvOutcome::Closed));
    assert_eq!(write_step(&RecvOutcome::Closed), WriteAction::Stop);
}

#[test]
fn write_step_actions() {
    assert_eq!(
        write_step(&RecvOutcome::Message(Message::DingDong(Source::Internal))),
        WriteAction::Send
    );
    assert_eq!(write_step(&RecvOutcome::Lagged(3)), WriteAction::Skip);
    assert_eq!(write_step(&RecvOutcome::Closed), WriteAction::Stop);
    assert_eq!(write_step(&RecvOutcome::Pending), WriteAction::Wait);
}

#[test]
fn protocol_lines() {
    assert!(is_trigger_line(&String::from("dingdong")));
    assert!(!is_trigger_line(&String::from("dingdong\n")));
    assert!(!is_trigger_line(&String::from("ding")));
    assert!(!is_trigger_line(&String::from("")));

    match read_step(&String::from("dingdong"), String::from("peer:1")) {
        Some(Message::DingDong(Source::Socket(tag))) => assert_eq!(tag, "peer:1"),
        _ => panic!("the trigger line must publish a peer-tagged message"),
    }
    assert!(read_step(&String::from("anything else"), String::from("peer:1")).is_none());

    assert_eq!(ding_dong_line(), "dingdong\n");
}
