use endless_chase::components::{Enemy, Mud, Player};
use endless_chase::geometry::Position;
use endless_chase::resources::{Input, Paused};
use endless_chase::systems::{EnemyMovementSystem, MudSystem, PlayerSystem};

#[test]
fn player_moves_ten_units_right() {
    let mut player = Some(Player::new());
    let input = Input { horizontal: 1_000, vertical: 0, shoot: false };
    PlayerSystem.run(Paused::Unpaused, &mut player, &input, &Vec::new());
    assert_eq!(player.unwrap().position, Position { x: 10_000, y: 0 });
}

#[test]
fn enemy_closes_in_by_twelve_units() {
    let player = Some(Player::new());
    let mut enemy = Some(Enemy { position: Position { x: 0, y: 500_000 }, ..Enemy::new() });
    let lost = EnemyMovementSystem.run(Paused::Unpaused, &player, &mut enemy);
    assert!(!lost);
    assert_eq!(enemy.unwrap().speed(500_000), 1_200_000);
    assert_eq!(enemy.unwrap().position, Position { x: 0, y: 488_000 });
}

#[test]
fn mud_touches_player_inside_its_box_only() {
    let mud = Mud { width: 60_000, height: 40_000, ..Mud::new() };
    let mut muds = vec![mud];
    let inside = Some(Player { position: Position { x: 50_000, y: 30_000 }, ..Player::new() });
    MudSystem.run(Paused::Unpaused, &mut muds, &inside, &None);
    assert!(muds[0].is_player_touching);
    let outside = Some(Player { position: Position { x: 70_000, y: 30_000 }, ..Player::new() });
    MudSystem.run(Paused::Unpaused, &mut muds, &outside, &None);
    assert!(!muds[0].is_player_touching);
}
