use podsim::action::Action;

#[test]
fn test_action_new() {
    let a = Action::new(200, -14);
    assert_eq!(a.thrust, 200);
    assert_eq!(a.angle, -14);
}

#[test]
fn test_action_parse_basic() {
    assert_eq!(Action::parse("200,-14"), Action::new(200, -14));
    assert_eq!(Action::parse("0,0"), Action::new(0, 0));
    assert_eq!(Action::parse("116,18"), Action::new(116, 18));
    assert_eq!(Action::parse("+5,+7"), Action::new(5, 7));
}

#[test]
fn test_action_parse_lenient_defaults() {
    // A missing or invalid field defaults to zero, never failing the parse.
    assert_eq!(Action::parse(""), Action::new(0, 0));
    assert_eq!(Action::parse("200"), Action::new(200, 0));
    assert_eq!(Action::parse("abc,12"), Action::new(0, 12));
    assert_eq!(Action::parse("12,abc"), Action::new(12, 0));
    assert_eq!(Action::parse(","), Action::new(0, 0));
    assert_eq!(Action::parse("300,5"), Action::new(0, 5));
    assert_eq!(Action::parse("5,40000"), Action::new(5, 0));
    assert_eq!(Action::parse("5,-40000"), Action::new(5, 0));
    assert_eq!(Action::parse("5,-19,44"), Action::new(5, -19));
    assert_eq!(Action::parse(" 5,5"), Action::new(0, 5));
    assert_eq!(Action::parse("5, 5"), Action::new(5, 0));
}

#[test]
fn test_action_encode() {
    assert_eq!(Action::new(200, -14).encode(), "200,-14");
    assert_eq!(Action::new(0, 0).encode(), "0,0");
    assert_eq!(Action::new(7, 18).encode(), "7,18");
    assert_eq!(Action::new(255, -32768).encode(), "255,-32768");
}

#[test]
fn test_action_from_command_list() {
    // Replay logs are semicolon-separated action encodings.
    let command = "200,-14;200,-1;0,18;116,18";
    let actions: Vec<Action> = command.split(';').map(Action::from).collect();
    assert_eq!(
        actions,
        vec![
            Action::new(200, -14),
            Action::new(200, -1),
            Action::new(0, 18),
            Action::new(116, 18),
        ]
    );
}

#[test]
fn test_action_round_trip() {
    let cases = vec![
        Action::new(0, 0),
        Action::new(1, -1),
        Action::new(200, 18),
        Action::new(200, -18),
        Action::new(255, 32767),
        Action::new(255, -32768),
        Action::new(100, 360),
        Action::new(42, -270),
    ];
    for a in cases {
        let text = a.encode();
        assert_eq!(Action::parse(text.as_str()), a);
    }
}
