use podsim::checkpoint::CheckPoint;
use podsim::course::build_course;
use podsim::course::course_from_text;
use podsim::course::parse_course_text;
use podsim::game_manager::GameManager;
use podsim::jsonio::course_from_json;

#[test]
fn test_parse_course_text_pairs() {
    assert_eq!(
        parse_course_text("10353 1986;2757 4659;3358 2838"),
        vec![(10353, 1986), (2757, 4659), (3358, 2838)]
    );
    // A field that does not parse is skipped; a segment with fewer than two
    // numbers contributes nothing; extra numbers are ignored.
    assert_eq!(parse_course_text("1 x 2;3;4 5 6"), vec![(1, 2), (4, 5)]);
    assert_eq!(parse_course_text(""), Vec::<(i32, i32)>::new());
    assert_eq!(parse_course_text("-7 -8"), vec![(-7, -8)]);
}

#[test]
fn test_build_course_layout() {
    let lap = vec![
        CheckPoint::from_i32(10353, 1986),
        CheckPoint::from_i32(2757, 4659),
        CheckPoint::from_i32(3358, 2838),
    ];
    let course = build_course(lap);
    let expected = vec![
        CheckPoint::from_i32(2757, 4659),
        CheckPoint::from_i32(3358, 2838),
        CheckPoint::from_i32(10353, 1986),
        CheckPoint::from_i32(2757, 4659),
        CheckPoint::from_i32(3358, 2838),
        CheckPoint::from_i32(10353, 1986),
        CheckPoint::from_i32(2757, 4659),
        CheckPoint::from_i32(3358, 2838),
        CheckPoint::from_i32(10353, 1986),
        CheckPoint::from_i32(59986, -4059),
    ];
    assert_eq!(course, expected);
}

#[test]
fn test_course_from_text_end_to_end() {
    // The terminal checkpoint is extrapolated 50000 units past the last
    // real checkpoint, and the initial pod sits on the second-to-last
    // checkpoint with the rounded heading toward the first.
    let course = course_from_text("10353 1986;2757 4659;3358 2838").unwrap();
    assert_eq!(course.len(), 10);
    assert_eq!(course[9], CheckPoint::from_i32(59986, -4059));

    let game = GameManager::from_course_text("10353 1986;2757 4659;3358 2838").unwrap();
    assert_eq!(game.pod.x, 10353);
    assert_eq!(game.pod.y, 1986);
    assert_eq!(game.pod.angle, 161);
    assert_eq!(game.max_turn, 600);
}

#[test]
fn test_course_from_text_rejects_short_or_degenerate() {
    // Fewer than two checkpoints.
    assert!(course_from_text("").is_none());
    assert!(course_from_text("5 5").is_none());
    // The two checkpoints the terminal is extrapolated from coincide.
    assert!(course_from_text("1 1;2 2;1 1").is_none());
    // A coordinate out of the supported range.
    assert!(course_from_text("0 0;99999999 0").is_none());
}

#[test]
fn test_from_course_text_rejects_coincident_start() {
    // The start (second-to-last checkpoint) coincides with the first
    // target, so no initial heading exists.
    assert!(GameManager::from_course_text("1 1;1 1;2 2").is_none());
    assert!(GameManager::from_course_text("1 1;2 2;3 3").is_some());
}

#[test]
fn test_course_from_json_envelope() {
    let content = "{\"testIn\": \"10353 1986;2757 4659;3358 2838\"}";
    let course = course_from_json(content).unwrap();
    assert_eq!(course.len(), 10);
    assert_eq!(course[0], CheckPoint::from_i32(2757, 4659));
    assert_eq!(course[9], CheckPoint::from_i32(59986, -4059));

    let game = GameManager::from_course_json(content).unwrap();
    assert_eq!(game.pod.x, 10353);
    assert_eq!(game.pod.y, 1986);
    assert_eq!(game.pod.angle, 161);
}

#[test]
fn test_course_from_json_rejects_bad_envelopes() {
    // Not JSON at all.
    assert!(course_from_json("10353 1986;2757 4659").is_none());
    // No testIn field.
    assert!(course_from_json("{\"other\": \"1 1;2 2\"}").is_none());
    // The field is not a string.
    assert!(course_from_json("{\"testIn\": 42}").is_none());
    // A usable envelope with an unusable course.
    assert!(course_from_json("{\"testIn\": \"5 5\"}").is_none());
}
