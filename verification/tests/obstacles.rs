use endless_chase::components::{Car, Dog, Mud, Player};
use endless_chase::geometry::Position;
use endless_chase::placement::{needed_top, BACKGROUND_HEIGHT, BACKGROUND_WIDTH};
use endless_chase::random::{share_of, Roll};
use endless_chase::resources::Paused;
use endless_chase::systems::obstacles::{spawn_point, OBSTACLE_CREATION_HEIGHT};
use endless_chase::systems::ObstacleRandomizationSystem;

const HALF: u32 = 0x8000_0000;

fn player_at(x: i64, y: i64) -> Option<Player> {
    Some(Player { position: Position { x, y }, ..Player::new() })
}

fn roll(across: u32, ahead: u32) -> Roll {
    Roll { across, ahead }
}

#[test]
fn a_roll_takes_its_share_of_an_extent() {
    assert_eq!(share_of(0, 1_440_000), 0);
    assert_eq!(share_of(HALF, 1_440_000), 720_000);
    assert_eq!(share_of(u32::MAX, 1_440_000), 1_439_999);
    assert_eq!(share_of(0x4000_0000, 1_500_000), 375_000);
    assert_eq!(share_of(u32::MAX, 0), 0);
    assert_eq!(share_of(u32::MAX, u32::MAX), u32::MAX - 1);
}

#[test]
fn spawn_point_spreads_over_the_width_and_one_tile_height() {
    assert_eq!(spawn_point(0, roll(0, 0)), Position { x: -750_000, y: 0 });
    assert_eq!(spawn_point(0, roll(HALF, HALF)), Position { x: 0, y: 720_000 });
    assert_eq!(spawn_point(2_000_000, roll(u32::MAX, u32::MAX)), Position { x: 749_999, y: 3_439_999 });
    assert_eq!(spawn_point(-10, roll(HALF, 0)), Position { x: 0, y: -10 });
}

#[test]
fn spawn_point_stops_at_the_worlds_edge() {
    let top = spawn_point(i64::MAX, roll(HALF, u32::MAX));
    assert_eq!(top, Position { x: 0, y: 1_000_000_000_000_000 });
    let bottom = spawn_point(i64::MIN, roll(HALF, 0));
    assert_eq!(bottom, Position { x: 0, y: -1_000_000_000_000_000 });
}

#[test]
fn no_obstacles_before_the_creation_height() {
    let mut muds = Vec::new();
    let mut cars = Vec::new();
    let mut dogs = vec![Dog { position: Position { x: 0, y: 900_000_000 }, ..Dog::new() }];
    let player = player_at(0, OBSTACLE_CREATION_HEIGHT);
    ObstacleRandomizationSystem.run_with(
        Paused::Unpaused, &player, &mut muds, &mut cars, &mut dogs,
        roll(1, 2), roll(3, 4), roll(5, 6),
    );
    assert!(muds.is_empty() && cars.is_empty());
    assert_eq!(dogs.len(), 1);
    ObstacleRandomizationSystem.run(Paused::Unpaused, &player, &mut muds, &mut cars, &mut dogs);
    assert!(muds.is_empty() && cars.is_empty());
    assert_eq!(dogs.len(), 1);
}

#[test]
fn first_obstacles_appear_above_the_grid_line_below_the_player() {
    let mut muds = Vec::new();
    let mut cars = Vec::new();
    let mut dogs = Vec::new();
    ObstacleRandomizationSystem.run_with(
        Paused::Unpaused, &player_at(0, 1_500_000), &mut muds, &mut cars, &mut dogs,
        roll(0, 0), roll(HALF, HALF), roll(u32::MAX, u32::MAX),
    );
    assert_eq!(muds, vec![Mud { position: Position { x: -750_000, y: 0 }, ..Mud::new() }]);
    assert_eq!(cars, vec![Car { position: Position { x: 0, y: 720_000 }, ..Car::new() }]);
    assert_eq!(dogs, vec![Dog { position: Position { x: 749_999, y: 1_439_999 }, ..Dog::new() }]);
}

#[test]
fn the_next_obstacle_is_set_above_the_highest() {
    let low = Mud { position: Position { x: 5, y: 1_200_000 }, ..Mud::new() };
    let high = Mud { position: Position { x: -5, y: 2_000_000 }, ..Mud::new() };
    let mut muds = vec![high, low];
    let mut cars = Vec::new();
    let mut dogs = Vec::new();
    ObstacleRandomizationSystem.run_with(
        Paused::Unpaused, &player_at(0, 1_500_000), &mut muds, &mut cars, &mut dogs,
        roll(HALF, 0x4000_0000), roll(0, 0), roll(0, 0),
    );
    assert_eq!(muds.len(), 3);
    assert_eq!(muds[0], high);
    assert_eq!(muds[1], low);
    assert_eq!(muds[2].position, Position { x: 0, y: 2_360_000 });
}

#[test]
fn no_obstacle_is_due_while_one_is_a_tile_height_ahead() {
    let ahead = Car { position: Position { x: 0, y: 1_500_000 + BACKGROUND_HEIGHT }, ..Car::new() };
    let mut muds = Vec::new();
    let mut cars = vec![ahead];
    let mut dogs = Vec::new();
    ObstacleRandomizationSystem.run_with(
        Paused::Unpaused, &player_at(0, 1_500_000), &mut muds, &mut cars, &mut dogs,
        roll(0, 0), roll(0, 0), roll(0, 0),
    );
    assert_eq!(cars, vec![ahead]);
    assert_eq!(muds.len(), 1);
    assert_eq!(needed_top(&cars, 1_500_000), None);
    assert_eq!(needed_top(&cars, 1_500_001), Some(1_500_000 + BACKGROUND_HEIGHT));
}

#[test]
fn obstacles_far_behind_are_taken_away() {
    let behind = Dog { position: Position { x: 0, y: 1_000_000 }, ..Dog::new() };
    let near = Dog { position: Position { x: 0, y: 9_000_000 }, ..Dog::new() };
    let mut muds = Vec::new();
    let mut cars = Vec::new();
    let mut dogs = vec![behind, near];
    ObstacleRandomizationSystem.run_with(
        Paused::Unpaused, &player_at(0, 7_000_000), &mut muds, &mut cars, &mut dogs,
        roll(0, 0), roll(0, 0), roll(0, 0),
    );
    assert_eq!(dogs, vec![near]);
}

#[test]
fn without_a_player_all_obstacles_go() {
    let mut muds = vec![Mud::new()];
    let mut cars = vec![Car::new(), Car::new()];
    let mut dogs = vec![Dog::new()];
    ObstacleRandomizationSystem.run(Paused::Unpaused, &None, &mut muds, &mut cars, &mut dogs);
    assert!(muds.is_empty() && cars.is_empty() && dogs.is_empty());
}

#[test]
fn paused_obstacles_stay() {
    let mut muds = vec![Mud::new()];
    let mut cars = vec![Car::new()];
    let mut dogs = vec![Dog::new()];
    ObstacleRandomizationSystem.run(Paused::Paused, &None, &mut muds, &mut cars, &mut dogs);
    ObstacleRandomizationSystem.run(Paused::Paused, &player_at(0, 90_000_000), &mut muds, &mut cars, &mut dogs);
    assert_eq!((muds.len(), cars.len(), dogs.len()), (1, 1, 1));
}

#[test]
fn rolled_obstacles_land_in_the_band_ahead() {
    let mut seen = Vec::new();
    for _ in 0..200 {
        let mut muds = Vec::new();
        let mut cars = Vec::new();
        let mut dogs = Vec::new();
        let player = player_at(0, 3_000_000);
        ObstacleRandomizationSystem.run(Paused::Unpaused, &player, &mut muds, &mut cars, &mut dogs);
        assert_eq!((muds.len(), cars.len(), dogs.len()), (1, 1, 1));
        for position in [muds[0].position, cars[0].position, dogs[0].position] {
            assert!(-BACKGROUND_WIDTH / 2 <= position.x && position.x < BACKGROUND_WIDTH / 2);
            assert!(1_440_000 <= position.y && position.y < 2_880_000);
        }
        assert_eq!(muds[0], Mud { position: muds[0].position, ..Mud::new() });
        assert_eq!(dogs[0], Dog { position: dogs[0].position, ..Dog::new() });
        seen.push(muds[0].position);
        seen.push(cars[0].position);
    }
    // The dice do not always fall alike.
    assert!(seen.iter().any(|position| *position != seen[0]));
}

#[test]
fn obstacles_keep_coming_on_a_long_run() {
    let mut muds = Vec::new();
    let mut cars = Vec::new();
    let mut dogs = Vec::new();
    let mut y = 0;
    for _ in 0..3_000 {
        ObstacleRandomizationSystem.run(Paused::Unpaused, &player_at(0, y), &mut muds, &mut cars, &mut dogs);
        if y > OBSTACLE_CREATION_HEIGHT + 3 * BACKGROUND_HEIGHT {
            assert!(muds.iter().any(|mud| mud.position.y - y >= 0));
            assert!(muds.len() < 40);
        }
        y += 20_000;
    }
}
