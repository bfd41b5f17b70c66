use endless_chase::components::{Car, Player};
use endless_chase::geometry::Position;
use endless_chase::resources::{Input, Paused};
use endless_chase::systems::player::push_out;
use endless_chase::systems::PlayerSystem;
use endless_chase::units::{AREA_WIDTH, WORLD_LIMIT};

fn steer(horizontal: i64, vertical: i64) -> Input {
    Input { horizontal, vertical, shoot: false }
}

fn player_at(x: i64, y: i64) -> Option<Player> {
    Some(Player { position: Position { x, y }, ..Player::new() })
}

fn touching_car_at(x: i64, y: i64) -> Car {
    Car { position: Position { x, y }, is_player_touching: true, ..Car::new() }
}

#[test]
fn steering_up_moves_up() {
    let mut player = player_at(3_000, -2_000);
    PlayerSystem.run(Paused::Unpaused, &mut player, &steer(0, 1_000), &Vec::new());
    assert_eq!(player.unwrap().position, Position { x: 3_000, y: 8_000 });
}

#[test]
fn only_the_direction_of_the_axes_counts() {
    let mut gentle = player_at(0, 0);
    let mut full = player_at(0, 0);
    PlayerSystem.run(Paused::Unpaused, &mut gentle, &steer(-3, 0), &Vec::new());
    PlayerSystem.run(Paused::Unpaused, &mut full, &steer(-1_000, 0), &Vec::new());
    assert_eq!(gentle, full);
    assert_eq!(full.unwrap().position, Position { x: -10_000, y: 0 });
}

#[test]
fn diagonal_step_is_no_longer_than_the_speed() {
    let mut player = player_at(0, 0);
    PlayerSystem.run(Paused::Unpaused, &mut player, &steer(1_000, 1_000), &Vec::new());
    let end = player.unwrap().position;
    assert_eq!(end, Position { x: 7_071, y: 7_071 });
    assert!(end.x * end.x + end.y * end.y <= 10_000 * 10_000);
}

#[test]
fn the_shortest_axes_give_the_same_step_as_the_longest() {
    for (h, v) in [(1, 1), (1, 2), (-3, 1), (0, -1), (2, -7)] {
        let mut short = player_at(0, 0);
        let mut long = player_at(0, 0);
        PlayerSystem.run(Paused::Unpaused, &mut short, &steer(h, v), &Vec::new());
        PlayerSystem.run(Paused::Unpaused, &mut long, &steer(1_000 * h, 1_000 * v), &Vec::new());
        assert_eq!(short, long);
        let end = short.unwrap().position;
        assert!(end.x * end.x + end.y * end.y <= 10_000 * 10_000);
        assert!((end.x.abs() + 1) * (end.x.abs() + 1) + (end.y.abs() + 1) * (end.y.abs() + 1) > 10_000 * 10_000);
    }
    let mut player = player_at(0, 0);
    PlayerSystem.run(Paused::Unpaused, &mut player, &steer(1, 2), &Vec::new());
    assert_eq!(player.unwrap().position, Position { x: 4_472, y: 8_944 });
}

#[test]
fn slow_player_takes_half_the_step() {
    let mut player = player_at(0, 0);
    player.as_mut().unwrap().slow_down();
    PlayerSystem.run(Paused::Unpaused, &mut player, &steer(0, -1_000), &Vec::new());
    assert_eq!(player.unwrap().position, Position { x: 0, y: -5_000 });
}

#[test]
fn stopped_player_stays() {
    let mut player = player_at(12, 34);
    player.as_mut().unwrap().stop();
    PlayerSystem.run(Paused::Unpaused, &mut player, &steer(1_000, 1_000), &Vec::new());
    assert_eq!(player.unwrap().position, Position { x: 12, y: 34 });
}

#[test]
fn resting_axes_leave_the_player_in_place() {
    let mut player = player_at(100_000, 200_000);
    PlayerSystem.run(Paused::Unpaused, &mut player, &steer(0, 0), &Vec::new());
    assert_eq!(player.unwrap().position, Position { x: 100_000, y: 200_000 });
}

#[test]
fn movement_is_clamped_at_the_right_edge() {
    let mut player = player_at(755_000, 0);
    PlayerSystem.run(Paused::Unpaused, &mut player, &steer(1_000, 0), &Vec::new());
    assert_eq!(player.unwrap().position, Position { x: AREA_WIDTH, y: 0 });
}

#[test]
fn movement_is_clamped_at_the_left_edge() {
    let mut player = player_at(-759_999, 5);
    PlayerSystem.run(Paused::Unpaused, &mut player, &steer(-1_000, 0), &Vec::new());
    assert_eq!(player.unwrap().position, Position { x: -AREA_WIDTH, y: 5 });
}

#[test]
fn a_player_outside_the_area_is_brought_back_even_at_rest() {
    let mut player = player_at(900_000, 0);
    PlayerSystem.run(Paused::Unpaused, &mut player, &steer(0, 0), &Vec::new());
    assert_eq!(player.unwrap().position.x, AREA_WIDTH);
}

#[test]
fn movement_stays_in_the_area_for_many_inputs() {
    let axes = [-1_000, -700, -1, 0, 1, 333, 1_000];
    let starts = [-AREA_WIDTH, -759_000, -5, 0, 400_000, 759_999, AREA_WIDTH];
    for &h in axes.iter() {
        for &v in axes.iter() {
            for &x in starts.iter() {
                let mut player = player_at(x, 7_000_000);
                PlayerSystem.run(Paused::Unpaused, &mut player, &steer(h, v), &Vec::new());
                let end = player.unwrap().position;
                assert!(-AREA_WIDTH <= end.x && end.x <= AREA_WIDTH);
            }
        }
    }
}

#[test]
fn vertical_movement_is_not_clamped_by_the_area() {
    let mut player = player_at(0, 5_000_000_000);
    PlayerSystem.run(Paused::Unpaused, &mut player, &steer(0, 1_000), &Vec::new());
    assert_eq!(player.unwrap().position.y, 5_000_010_000);
}

#[test]
fn the_world_ends_at_its_limit() {
    let mut player = player_at(0, WORLD_LIMIT - 3);
    PlayerSystem.run(Paused::Unpaused, &mut player, &steer(0, 1_000), &Vec::new());
    assert_eq!(player.unwrap().position.y, WORLD_LIMIT);
}

#[test]
fn paused_game_moves_nobody() {
    let mut player = player_at(1, 2);
    PlayerSystem.run(Paused::Paused, &mut player, &steer(1_000, 0), &Vec::new());
    assert_eq!(player.unwrap().position, Position { x: 1, y: 2 });
}

#[test]
fn no_player_is_no_trouble() {
    let mut player: Option<Player> = None;
    PlayerSystem.run(Paused::Unpaused, &mut player, &steer(1_000, 0), &vec![touching_car_at(0, 0)]);
    assert_eq!(player, None);
}

#[test]
fn movement_keeps_speed_and_car_flag() {
    let mut player = Some(Player { position: Position { x: 0, y: 0 }, speed: 2_000_000, is_in_car: true });
    PlayerSystem.run(Paused::Unpaused, &mut player, &steer(0, 1_000), &Vec::new());
    let after = player.unwrap();
    assert_eq!(after.speed, 2_000_000);
    assert!(after.is_in_car);
    assert_eq!(after.position, Position { x: 0, y: 20_000 });
}

#[test]
fn a_touching_car_pushes_the_player_back_to_its_border() {
    let mut player = player_at(-215_000, 0);
    PlayerSystem.run(Paused::Unpaused, &mut player, &steer(1_000, 0), &vec![touching_car_at(0, 0)]);
    assert_eq!(player.unwrap().position, Position { x: -210_000, y: 0 });
}

#[test]
fn a_car_that_touches_nobody_blocks_nobody() {
    let car = Car { is_player_touching: false, ..Car::new() };
    let mut player = player_at(-215_000, 0);
    PlayerSystem.run(Paused::Unpaused, &mut player, &steer(1_000, 0), &vec![car]);
    assert_eq!(player.unwrap().position, Position { x: -205_000, y: 0 });
}

#[test]
fn a_player_at_rest_is_not_pushed_out_of_a_car() {
    let mut player = player_at(0, 0);
    PlayerSystem.run(Paused::Unpaused, &mut player, &steer(0, 0), &vec![touching_car_at(0, 0)]);
    assert_eq!(player.unwrap().position, Position { x: 0, y: 0 });
}

#[test]
fn the_last_touching_car_is_the_one_that_blocks() {
    let far = touching_car_at(0, 10_000_000);
    let near = touching_car_at(0, 0);
    let mut player = player_at(0, -145_000);
    PlayerSystem.run(Paused::Unpaused, &mut player, &steer(0, 1_000), &vec![far, near]);
    assert_eq!(player.unwrap().position, Position { x: 0, y: -140_000 });
    let mut player = player_at(0, -145_000);
    PlayerSystem.run(Paused::Unpaused, &mut player, &steer(0, 1_000), &vec![near, far]);
    assert_eq!(player.unwrap().position, Position { x: 0, y: -135_000 });
}

#[test]
fn a_car_with_its_hitbox_off_blocks_nobody() {
    let mut car = touching_car_at(0, 0);
    car.deactivate_hitbox();
    let mut player = player_at(-5_000, 0);
    PlayerSystem.run(Paused::Unpaused, &mut player, &steer(1_000, 0), &vec![car]);
    assert_eq!(player.unwrap().position, Position { x: 5_000, y: 0 });
}

#[test]
fn a_car_across_the_edge_can_push_the_player_out_of_the_area() {
    let mut player = player_at(755_000, 0);
    PlayerSystem.run(Paused::Unpaused, &mut player, &steer(-1_000, 0), &vec![touching_car_at(800_000, 0)]);
    assert_eq!(player.unwrap().position, Position { x: 1_010_000, y: 0 });
}

#[test]
fn push_out_walks_in_whole_steps() {
    let car = touching_car_at(0, 0);
    let end = push_out(Position { x: 0, y: 0 }, (7, -7), &car);
    assert_eq!(end, Position { x: 140_000, y: -140_000 });
    let end = push_out(Position { x: 1, y: 0 }, (-3, 0), &car);
    assert_eq!(end, Position { x: -210_002, y: 0 });
}

#[test]
fn push_out_leaves_a_player_outside_the_box_alone() {
    let car = touching_car_at(0, 0);
    let start = Position { x: 210_000, y: 0 };
    assert_eq!(push_out(start, (-10, 0), &car), start);
}
