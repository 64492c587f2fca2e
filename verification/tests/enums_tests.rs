use little_rust::enums::{Message, Point, State};

#[test]
fn test_match_message_call() {
    let mut state = State {
        quit: false,
        position: Point { x: 0, y: 0 },
        color: (0, 0, 0),
    };
    state.process(Message::ChangeColor((255, 0, 255)));
    state.process(Message::Echo(String::from("hello world")));
    state.process(Message::Move { x: 10, y: 15 });
    state.process(Message::Quit);

    assert_eq!(state.color, (255, 0, 255));
    assert_eq!(state.position.x, 10);
    assert_eq!(state.position.y, 15);
}

#[test]
fn echo_leaves_state_and_returns_text() {
    let mut state = State { quit: false, position: Point { x: 1, y: 2 }, color: (3, 4, 5) };
    let echoed = state.process(Message::Echo(String::from("hello world")));
    assert_eq!(echoed, Some(String::from("hello world")));
    assert_eq!(state.color, (3, 4, 5));
    assert_eq!(state.position, Point { x: 1, y: 2 });
    assert!(!state.quit);
    assert_eq!(state.process(Message::Quit), None);
    assert!(state.quit);
}
