use liver::message::Message;

#[test]
fn control_verbs_parse_without_payload() {
    assert!(matches!(Message::parse("toggle:".to_string()), Some(Message::Toggle)));
    assert!(matches!(Message::parse("pause:".to_string()), Some(Message::Pause)));
    assert!(matches!(Message::parse("play:".to_string()), Some(Message::Play)));
    assert!(matches!(Message::parse("exit:".to_string()), Some(Message::Exit)));
    // a verb with no colon at all still parses
    assert!(matches!(Message::parse("toggle".to_string()), Some(Message::Toggle)));
}

#[test]
fn set_with_empty_class_parses_the_shorthand() {
    let m = Message::parse("set::idle\n".to_string());
    assert!(matches!(m, Some(Message::SetMotion(p)) if p.0 == "" && p.1 == "idle"));
    let m = Message::parse("set:idle".to_string());
    assert!(matches!(m, Some(Message::SetMotion(p)) if p.0 == "" && p.1 == "idle"));
}

#[test]
fn set_and_queue_carry_class_and_name() {
    let m = Message::parse("set:tap:wave".to_string());
    assert!(matches!(m, Some(Message::SetMotion(p)) if p.0 == "tap" && p.1 == "wave"));
    let m = Message::parse("queue:tap:bow\n".to_string());
    assert!(matches!(m, Some(Message::QueueMotion(p)) if p.0 == "tap" && p.1 == "bow"));
    // the shorthand without a class
    let m = Message::parse("queue:bow".to_string());
    assert!(matches!(m, Some(Message::QueueMotion(p)) if p.0 == "" && p.1 == "bow"));
}

#[test]
fn malformed_messages_are_dropped() {
    assert!(Message::parse("bogus\n".to_string()).is_none());
    assert!(Message::parse("".to_string()).is_none());
    assert!(Message::parse("set".to_string()).is_none());
    assert!(Message::parse("queue".to_string()).is_none());
    assert!(Message::parse("TOGGLE:".to_string()).is_none());
}

#[test]
fn encode_writes_the_wire_grammar() {
    let m = Message::SetMotion(("tap".to_string(), "wave".to_string()));
    assert_eq!(m.encode(), "set:tap:wave");
    let m = Message::QueueMotion(("".to_string(), "idle".to_string()));
    assert_eq!(m.encode(), "queue::idle");
    assert_eq!(Message::Toggle.encode(), "toggle:");
    assert_eq!(Message::Exit.encode(), "exit:");
}

#[test]
fn encoded_messages_parse_back() {
    let m = Message::SetMotion(("tap".to_string(), "wave".to_string()));
    let back = Message::parse(m.encode());
    assert!(matches!(back, Some(Message::SetMotion(p)) if p.0 == "tap" && p.1 == "wave"));
    let back = Message::parse(Message::Pause.encode());
    assert!(matches!(back, Some(Message::Pause)));
}
