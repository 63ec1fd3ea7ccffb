use podsim::action::Action;
use podsim::checkpoint::CheckPoint;
use podsim::pod::Pod;
use podsim::point::Point;

fn checkpoint(x: i32, y: i32) -> CheckPoint {
    CheckPoint::from_i32(x, y)
}

fn pod(x: i64, y: i64, _r: i32, vx: i64, vy: i64, angle: u16, next_id: usize) -> Pod {
    Pod::new(x, y, vx, vy, angle, next_id)
}

#[test]
fn pod_test_apply_moves() {
    let mut pod = pod(0, 0, 0, 0, 0, 0, 0);
    let checkpoints = vec![checkpoint(0, 1000)];
    let moves = vec![
        Action {
            thrust: 200,
            angle: 0
        };
        10
    ];

    assert_eq!(pod.vx, 0);
    assert_eq!(pod.vy, 0);

    pod.apply_moves(&moves, &checkpoints);

    assert_eq!(pod.vx, 907);
    assert_eq!(pod.vy, 0);
}

#[test]
fn test_vmax_right() {
    let mut pod = pod(0, 0, 0, 0, 0, 0, 0);
    let checkpoints = vec![checkpoint(0, 1000)];
    let speeds = vec![
        170, 314, 436, 540, 629, 704, 768, 822, 868, 907, 940, 969, 993, 1014, 1031, 1046, 1059,
    ];

    for &speed in &speeds {
        let mv = Action {
            thrust: 200,
            angle: 0,
        };
        pod.apply_move(&mv, &checkpoints);
        assert_eq!(pod.vx, speed as i64);
        assert_eq!(pod.vy, 0);
    }
}

#[test]
fn test_vmax_left() {
    let mut pod = pod(0, 0, 0, 0, 0, 0, 0);
    let checkpoints = vec![checkpoint(0, 1000)];
    let mv = Action {
        thrust: 200,
        angle: 180,
    };

    pod.apply_move(&mv, &checkpoints);

    assert_eq!(pod.angle, 18);
    assert_eq!(pod.vx, 161);
    assert_eq!(pod.vy, 52);
}

#[test]
fn test_friction() {
    let mut pod = pod(0, 0, 0, 150, 0, 0, 0);
    let checkpoints = vec![checkpoint(0, 1000)];
    let mv = Action {
        thrust: 0,
        angle: 180,
    };

    pod.apply_move(&mv, &checkpoints);

    assert_eq!(pod.vx, 127);
}

#[test]
fn test_rotation() {
    let mut pod = pod(0, 0, 0, 0, 0, 0, 0);
    let checkpoints = vec![checkpoint(0, 10000)];

    assert_eq!(pod.angle, 0);

    pod.apply_move(
        &Action {
            thrust: 200,
            angle: 90,
        },
        &checkpoints,
    );
    assert_eq!(pod.angle, 18);

    pod.apply_move(
        &Action {
            thrust: 200,
            angle: 30,
        },
        &checkpoints,
    );
    assert_eq!(pod.angle, 36);

    pod.apply_move(
        &Action {
            thrust: 200,
            angle: -30,
        },
        &checkpoints,
    );
    assert_eq!(pod.angle, 18);

    pod.apply_move(
        &Action {
            thrust: 200,
            angle: -18,
        },
        &checkpoints,
    );
    assert_eq!(pod.angle, 0);

    pod.apply_move(
        &Action {
            thrust: 200,
            angle: 15,
        },
        &checkpoints,
    );
    assert_eq!(pod.angle, 15);
}

#[test]
fn test_rotation_2() {
    let mut pod = pod(0, 0, 0, 5, 5, 45, 0);
    let checkpoints = vec![checkpoint(0, 10000)];

    pod.apply_move(
        &Action {
            thrust: 200,
            angle: -30,
        },
        &checkpoints,
    );
    assert_eq!(pod.angle, 27);

    pod.apply_move(
        &Action {
            thrust: 200,
            angle: -30,
        },
        &checkpoints,
    );
    assert_eq!(pod.angle, 9);

    pod.apply_move(
        &Action {
            thrust: 200,
            angle: -30,
        },
        &checkpoints,
    );
    assert_eq!(pod.angle, 351);

    pod.apply_move(
        &Action {
            thrust: 200,
            angle: 10,
        },
        &checkpoints,
    );
    assert_eq!(pod.angle, 1);

    pod.apply_move(
        &Action {
            thrust: 200,
            angle: -1,
        },
        &checkpoints,
    );
    assert_eq!(pod.angle, 0);
}

#[test]
fn test_cross_checkpoint_1() {
    let mut pod = pod(0, 0, 0, 500, 0, 0, 0);
    let checkpoints = vec![checkpoint(350, 600), checkpoint(0, 100000)];

    pod.apply_move(
        &Action {
            thrust: 200,
            angle: 0,
        },
        &checkpoints,
    );
    assert_eq!(pod.x, 700);
    assert_eq!(pod.next_checkpoint_id, 1);
}

#[test]
fn test_cross_checkpoint_2() {
    let mut pod = pod(0, 0, 0, 500, 0, 0, 0);
    let checkpoints = vec![checkpoint(350, 599), checkpoint(0, 100000)];

    pod.apply_move(
        &Action {
            thrust: 200,
            angle: 0,
        },
        &checkpoints,
    );
    assert_eq!(pod.x, 700);
    assert_eq!(pod.next_checkpoint_id, 1);
}

#[test]
fn test_cross_checkpoint_3() {
    let mut pod = pod(0, 0, 0, 500, 0, 0, 1);
    let checkpoints = vec![checkpoint(0, 599), checkpoint(0, 10000)];

    pod.apply_move(
        &Action {
            thrust: 200,
            angle: 0,
        },
        &checkpoints,
    );
    assert_eq!(pod.x, 700);
    assert_eq!(pod.next_checkpoint_id, 1);
}

#[test]
fn test_cross_checkpoint_4() {
    let mut pod = pod(0, 0, 0, 500, 0, 0, 0);
    let checkpoints = vec![checkpoint(700, 599), checkpoint(0, 10000)];

    pod.apply_move(
        &Action {
            thrust: 200,
            angle: 0,
        },
        &checkpoints,
    );
    assert_eq!(pod.x, 700);
    assert_eq!(pod.next_checkpoint_id, 1);
}

#[test]
fn test_cross_checkpoint_5() {
    let mut pod = pod(150, 0, 0, 127, 0, 0, 0);
    let checkpoints = vec![checkpoint(800, 0), checkpoint(0, 10000)];

    pod.apply_move(
        &Action {
            thrust: 200,
            angle: 0,
        },
        &checkpoints,
    );
    assert_eq!(pod.x, 477);
    assert_eq!(pod.next_checkpoint_id, 1);
}

#[test]
fn test_cross_checkpoint_6() {
    let mut pod = pod(150, 0, 0, 1100, 0, 0, 0);
    let checkpoints = vec![checkpoint(800, 50), checkpoint(0, 10000)];

    pod.apply_move(
        &Action {
            thrust: 200,
            angle: 0,
        },
        &checkpoints,
    );
    assert_eq!(pod.x, 1450);
    assert_eq!(pod.next_checkpoint_id, 1);
}

#[test]
fn test_cross_checkpoint_7() {
    let mut pod = pod(1450, 0, 0, -1100, 0, 180, 0);
    let checkpoints = vec![checkpoint(800, 50), checkpoint(0, 10000)];

    pod.apply_move(
        &Action {
            thrust: 200,
            angle: 0,
        },
        &checkpoints,
    );
    assert_eq!(pod.x, 150);
    assert_eq!(pod.next_checkpoint_id, 1);
}

#[test]
fn test_cross_fraction_midway() {
    // From (0,0) with within-turn velocity 700 along +x, the checkpoint at
    // (350, 600) with radius 600 is first entered exactly halfway.
    let mut pod = pod(0, 0, 0, 500, 0, 0, 0);
    let checkpoints = vec![checkpoint(350, 600), checkpoint(0, 100000)];
    let t = pod.apply_move(
        &Action {
            thrust: 200,
            angle: 0,
        },
        &checkpoints,
    );
    assert_eq!(t, Some(500));
}

#[test]
fn test_no_cross_when_stationary() {
    let mut pod = pod(0, 0, 0, 0, 0, 0, 0);
    let checkpoints = vec![checkpoint(0, 0)];
    let t = pod.apply_move(
        &Action {
            thrust: 0,
            angle: 0,
        },
        &checkpoints,
    );
    assert_eq!(t, None);
    assert_eq!(pod.next_checkpoint_id, 0);
}

#[test]
fn test_speed() {
    let p = pod(0, 0, 0, 3, 4, 0, 0);
    assert_eq!(p.speed(), 5);
    let p = pod(0, 0, 0, 3, 5, 0, 0);
    assert_eq!(p.speed(), 5);
}

#[test]
fn test_clone_pod_copies_all_fields() {
    let p = pod(12, -7, 0, 3, 4, 270, 2);
    let c = p.clone_pod();
    assert_eq!(p, c);
}

#[test]
fn test_get_angle_quadrants() {
    let p = pod(0, 0, 0, 0, 0, 0, 0);
    assert_eq!(p.get_angle(&Point::from_i32(100, 0)), 0);
    assert_eq!(p.get_angle(&Point::from_i32(0, 100)), 90);
    assert_eq!(p.get_angle(&Point::from_i32(-100, 0)), 180);
    assert_eq!(p.get_angle(&Point::from_i32(0, -100)), 270);
    assert_eq!(p.get_angle(&Point::from_i32(100, 100)), 45);
    assert_eq!(p.get_angle(&Point::from_i32(100, -100)), 315);
}

#[test]
fn test_diff_angle_directions() {
    let p = pod(0, 0, 0, 0, 0, 0, 0);
    assert_eq!(p.diff_angle(&Point::from_i32(0, 100)), 90);
    assert_eq!(p.diff_angle(&Point::from_i32(0, -100)), -90);
    let p = pod(0, 0, 0, 0, 0, 350, 0);
    assert_eq!(p.diff_angle(&Point::from_i32(100, 0)), 10);
}

#[test]
fn test_output_target() {
    let p = pod(100, 200, 0, 0, 0, 0, 0);
    let (px, py, thrust) = p.output(&Action::new(150, 0));
    assert_eq!(px, 100100);
    assert_eq!(py, 200);
    assert_eq!(thrust, 150);

    let (px, py, _) = p.output(&Action::new(150, 90));
    assert_eq!(px, 100);
    assert_eq!(py, 100200);
}

#[test]
fn test_output_periodic_heading() {
    // The aim direction is periodic in whole circles: the extreme deltas
    // reduce to 7 and 352 degrees.
    let p = pod(0, 0, 0, 0, 0, 0, 0);
    let (px, py, thrust) = p.output(&Action::new(10, 32767));
    assert_eq!((px, py, thrust), (99254, 12186, 10));
    let (px, py, _) = p.output(&Action::new(10, -32768));
    assert_eq!((px, py), (99026, -13917));
}

#[test]
fn test_rotation_clamp_large_deltas() {
    // A delta beyond the clamp turns the pod by exactly 18 degrees.
    let mut p = pod(0, 0, 0, 0, 0, 100, 0);
    let checkpoints = vec![checkpoint(0, 10000)];
    p.apply_move(&Action::new(0, 32767), &checkpoints);
    assert_eq!(p.angle, 118);
    p.apply_move(&Action::new(0, -32768), &checkpoints);
    assert_eq!(p.angle, 100);
}

#[test]
fn test_friction_decay_to_rest() {
    // With zero thrust the speed shrinks every turn and reaches zero.
    let mut p = pod(0, 0, 0, 1000, -800, 0, 0);
    let checkpoints = vec![checkpoint(0, 10000)];
    let mut last: i64 = 1000 * 1000 + 800 * 800;
    for _ in 0..60 {
        p.apply_move(&Action::new(0, 0), &checkpoints);
        let sq = p.vx * p.vx + p.vy * p.vy;
        if last > 0 {
            assert!(sq < last);
        }
        last = sq;
    }
    assert_eq!(p.vx, 0);
    assert_eq!(p.vy, 0);
}

#[test]
fn test_terminal_velocity_fixed_point() {
    // Under constant full thrust along +x the velocity climbs monotonically
    // and settles at 1127.
    let mut p = pod(0, 0, 0, 0, 0, 0, 0);
    let checkpoints = vec![checkpoint(0, 1000000)];
    let mut last: i64 = -1;
    for _ in 0..40 {
        p.apply_move(&Action::new(200, 0), &checkpoints);
        assert!(p.vx >= last);
        last = p.vx;
    }
    assert_eq!(p.vx, 1127);
    assert_eq!(p.vy, 0);
}
