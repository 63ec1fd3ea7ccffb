use podsim::action::Action;
use podsim::checkpoint::CheckPoint;
use podsim::game_manager::get_initial_pod;
use podsim::game_manager::GameManager;

const COURSE_TEXT: &str = "10353 1986;2757 4659;3358 2838";

#[test]
fn game_manager_test_start_position() {
    let game = GameManager::from_course_text(COURSE_TEXT).unwrap();

    assert_eq!(game.pod.x, 10353);
    assert_eq!(game.pod.y, 1986);
    assert_eq!(game.pod.angle, 161);
    assert_eq!(game.pod.vx, 0);
    assert_eq!(game.pod.vy, 0);
    assert_eq!(game.pod.next_checkpoint_id, 0);
}

#[test]
fn game_manager_test_checkpoint_list() {
    let game = GameManager::from_course_text(COURSE_TEXT).unwrap();

    let expected = vec![
        CheckPoint::from_i32(2757, 4659),
        CheckPoint::from_i32(3358, 2838),
        CheckPoint::from_i32(10353, 1986),
        CheckPoint::from_i32(2757, 4659),
        CheckPoint::from_i32(3358, 2838),
        CheckPoint::from_i32(10353, 1986),
        CheckPoint::from_i32(2757, 4659),
        CheckPoint::from_i32(3358, 2838),
        CheckPoint::from_i32(10353, 1986),
        CheckPoint::from_i32(59986, -4059),
    ];

    assert_eq!(game.checkpoints, expected);
}

#[test]
fn game_manager_test_apply_move() {
    let checkpoints = vec![
        CheckPoint::from_i32(800, 0),
        CheckPoint::from_i32(2200, 0),
        CheckPoint::from_i32(3600, 0),
    ];
    let mut game = GameManager::from_checkpoints(checkpoints);

    assert_eq!(game.turn, 0);

    let (mut done, mut _t) = game.apply_action(&Action::new(1, 0));
    assert_eq!(game.turn, 1);
    assert!(!done);

    for _ in 0..598 {
        (done, _t) = game.apply_action(&Action::new(1, 0));
    }
    assert_eq!(game.turn, 599);
    assert!(!done);

    (done, _t) = game.apply_action(&Action::new(1, 0));
    assert_eq!(game.turn, 600);
    assert!(done);
}

#[test]
fn game_manager_test_apply_moves() {
    let checkpoints = vec![
        CheckPoint::from_i32(800, 0),
        CheckPoint::from_i32(2200, 0),
        CheckPoint::from_i32(3600, 0),
    ];
    let mut game = GameManager::from_checkpoints(checkpoints);

    assert_eq!(game.turn, 0);

    let (done, _t) = game.apply_action(&Action::new(1, 0));
    assert_eq!(game.turn, 1);
    assert!(!done);

    let actions = vec![Action::new(1, 0); 598];
    let done = game.apply_actions(&actions);
    assert_eq!(game.turn, 599);
    assert!(!done);

    let (done, _t) = game.apply_action(&Action::new(1, 0));
    assert_eq!(game.turn, 600);
    assert!(done);
}

#[test]
fn test_clone() {
    // Create a new game manager
    let mut game = GameManager::from_course_text(COURSE_TEXT).unwrap();

    // Assert initial values
    assert_eq!(game.pod.x, 10353);
    assert_eq!(game.pod.y, 1986);
    assert_eq!(game.pod.angle, 161);

    // Apply the action
    game.apply_action(&Action::new(200, 0));

    // Assert values after action
    assert_eq!(game.pod.x, 10163);
    assert_eq!(game.pod.y, 2051);

    // Now clone the game
    let game2 = game.clone_manager();

    assert_eq!(game.pod.x, game2.pod.x);
    assert_eq!(game.pod.y, game2.pod.y);
    assert!(!std::ptr::eq(&game, &game2));
}

#[test]
fn test_clone_independence() {
    // Mutating the original must leave the clone's recorded pod state
    // unchanged.
    let mut game = GameManager::from_course_text(COURSE_TEXT).unwrap();
    let clone = game.clone_manager();
    let (cx, cy, cvx, cvy) = (clone.pod.x, clone.pod.y, clone.pod.vx, clone.pod.vy);

    game.apply_action(&Action::new(200, 0));
    assert!(game.pod.x != cx || game.pod.vx != cvx);

    assert_eq!(clone.pod.x, cx);
    assert_eq!(clone.pod.y, cy);
    assert_eq!(clone.pod.vx, cvx);
    assert_eq!(clone.pod.vy, cvy);
    assert_eq!(clone.turn, 0);
    assert!(!clone.done);
}

#[test]
fn main_test_start_position() {
    let checkpoints = podsim::course::course_from_text(COURSE_TEXT).unwrap();
    let pod = get_initial_pod(&checkpoints);

    assert_eq!(pod.x, 10353);
    assert_eq!(pod.y, 1986);
    assert_eq!(pod.angle, 161);
    assert_eq!(pod.vx, 0);
    assert_eq!(pod.vy, 0);
    assert_eq!(pod.next_checkpoint_id, 0);
}

#[test]
fn main_test_checkpoint_list() {
    let checkpoints = podsim::course::course_from_text(COURSE_TEXT).unwrap();

    let expected = vec![
        CheckPoint::from_i32(2757, 4659),
        CheckPoint::from_i32(3358, 2838),
        CheckPoint::from_i32(10353, 1986),
        CheckPoint::from_i32(2757, 4659),
        CheckPoint::from_i32(3358, 2838),
        CheckPoint::from_i32(10353, 1986),
        CheckPoint::from_i32(2757, 4659),
        CheckPoint::from_i32(3358, 2838),
        CheckPoint::from_i32(10353, 1986),
        CheckPoint::from_i32(59986, -4059),
    ];

    assert_eq!(checkpoints, expected);
}

#[test]
fn main_test_apply_move() {
    let checkpoints = vec![
        CheckPoint::from_i32(800, 0),
        CheckPoint::from_i32(2200, 0),
        CheckPoint::from_i32(3600, 0),
    ];
    let mut game = GameManager::from_checkpoints(checkpoints);

    assert_eq!(game.turn, 0);

    let (done, _t) = game.apply_action(&Action::new(1, 0));
    assert_eq!(game.turn, 1);
    assert!(!done);

    for _ in 0..598 {
        game.apply_action(&Action::new(1, 0));
    }
    assert_eq!(game.turn, 599);
    assert!(!game.done);

    let (done, _t) = game.apply_action(&Action::new(1, 0));
    assert_eq!(game.turn, 600);
    assert!(done);
}

#[test]
fn main_test_apply_moves() {
    let checkpoints = vec![
        CheckPoint::from_i32(800, 0),
        CheckPoint::from_i32(2200, 0),
        CheckPoint::from_i32(3600, 0),
    ];
    let mut game = GameManager::from_checkpoints(checkpoints);

    assert_eq!(game.turn, 0);

    game.apply_action(&Action::new(1, 0));
    assert_eq!(game.turn, 1);
    assert!(!game.done);

    let actions: Vec<Action> = (0..598).map(|_| Action::new(1, 0)).collect();
    game.apply_actions(&actions);
    assert_eq!(game.turn, 599);
    assert!(!game.done);

    game.apply_action(&Action::new(1, 0));
    assert_eq!(game.turn, 600);
    assert!(game.done);
}

#[test]
fn test_win_by_terminal_checkpoint() {
    // A simple steering policy (turn toward the target, coast while badly
    // misaligned) reaches the last checkpoint well before the turn cap, so
    // the episode ends by the win condition, not the cap.
    let checkpoints = vec![
        CheckPoint::from_i32(12000, 0),
        CheckPoint::from_i32(20000, 0),
        CheckPoint::from_i32(35000, 0),
    ];
    let mut game = GameManager::from_checkpoints(checkpoints);
    let last = game.checkpoints.len() - 1;
    let mut ended = false;
    for _ in 0..600 {
        let target = game.checkpoints[game.pod.next_checkpoint_id];
        let tp = podsim::point::Point { x: target.x, y: target.y };
        let d: i16 = if game.pod.x == tp.x && game.pod.y == tp.y {
            0
        } else {
            game.pod.diff_angle(&tp)
        };
        let a = d.clamp(-18, 18);
        let t: u8 = if d > 90 || d < -90 { 0 } else { 200 };
        let (done, _) = game.apply_action(&Action::new(t, a));
        if done {
            ended = true;
            break;
        }
    }
    assert!(ended);
    assert_eq!(game.turn, 34);
    assert!(game.turn < 600);
    assert_eq!(game.pod.next_checkpoint_id, last);
}

#[test]
fn test_replay_determinism() {
    // Forty turns of full thrust straight ahead from the standard start:
    // the first checkpoint is swept on turn 11 at fraction 185/1000, and
    // the full final state is reproduced exactly.
    let mut game = GameManager::from_course_text(COURSE_TEXT).unwrap();
    let mut crossings = 0;
    let mut first_cross: Option<(usize, u16)> = None;
    for _ in 0..40 {
        let (_, t) = game.apply_action(&Action::new(200, 0));
        if let Some(frac) = t {
            crossings += 1;
            if first_cross.is_none() {
                first_cross = Some((game.turn, frac));
            }
        }
    }
    assert_eq!(crossings, 1);
    assert_eq!(first_cross, Some((11, 185)));
    assert_eq!(game.pod.x, -32830);
    assert_eq!(game.pod.y, 16773);
    assert_eq!(game.pod.vx, -1065);
    assert_eq!(game.pod.vy, 363);
    assert_eq!(game.pod.angle, 161);
    assert_eq!(game.pod.next_checkpoint_id, 1);
    assert_eq!(game.turn, 40);
    assert!(!game.done);
}

#[test]
fn test_reset_restores_start() {
    let mut game = GameManager::from_course_text(COURSE_TEXT).unwrap();
    game.apply_action(&Action::new(200, 0));
    assert!(game.pod.x != 10353 || game.turn != 0);
    game.reset();
    assert_eq!(game.pod.x, 10353);
    assert_eq!(game.pod.y, 1986);
    assert_eq!(game.pod.angle, 161);
    assert_eq!(game.turn, 0);
    assert!(!game.done);
}
