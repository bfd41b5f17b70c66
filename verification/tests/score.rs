use endless_chase::components::{Car, Dog, Enemy, Mud, Player};
use endless_chase::geometry::Position;
use endless_chase::resources::content::{pick_sprite, resolve};
use endless_chase::resources::controls::{ARROWS_LABEL, WASD_LABEL};
use endless_chase::resources::prefabs::{CarPrefab, DogPrefab, EnemyPrefab, MudPrefab, PlayerPrefab};
use endless_chase::resources::{
    to_centimetres, ContentError, Controls, HighScore, Input, Paused, QuitToMenu,
};
use endless_chase::states::{handle_event, start_run, update, Transition};
use endless_chase::systems::{ScoreTrackingSystem, TestSystem};

fn player_at(x: i64, y: i64) -> Option<Player> {
    Some(Player { position: Position { x, y }, ..Player::new() })
}

#[test]
fn score_starts_at_zero() {
    let score = HighScore::new();
    assert_eq!(score.get_score(), 0);
    assert_eq!(score.get_high_score(), 0);
    assert_eq!(HighScore::default().get_high_score(), 0);
}

#[test]
fn score_is_the_farthest_height_in_centimetres() {
    let mut score = HighScore::new();
    score.max(250_000);
    assert_eq!(score.get_score(), 250);
    score.max(100_000);
    assert_eq!(score.get_score(), 250);
    score.max(250_499);
    assert_eq!(score.get_score(), 250);
    score.max(250_500);
    assert_eq!(score.get_score(), 251);
    score.max(250_600);
    assert_eq!(score.get_score(), 251);
    score.max(251_499);
    assert_eq!(score.get_score(), 251);
    assert_eq!(score.get_high_score(), 251);
}

#[test]
fn the_exact_distances_are_kept() {
    let mut score = HighScore::new();
    score.max(250_600);
    assert_eq!(score.get_distance(), 250_600);
    assert_eq!(score.get_max_distance(), 250_600);
    score.reset();
    score.max(17);
    assert_eq!(score.get_distance(), 17);
    assert_eq!(score.get_max_distance(), 250_600);
    score.max(i64::MAX);
    assert_eq!(score.get_distance(), i64::MAX);
    assert_eq!(score.get_score(), 9_223_372_036_854_776);
}

#[test]
fn centimetres_round_to_the_nearest() {
    assert_eq!(to_centimetres(0), 0);
    assert_eq!(to_centimetres(499), 0);
    assert_eq!(to_centimetres(500), 1);
    assert_eq!(to_centimetres(1_499), 1);
    assert_eq!(to_centimetres(1_500), 2);
}

#[test]
fn a_paused_game_keeps_its_score() {
    let mut score = HighScore::new();
    assert_eq!(ScoreTrackingSystem.run(Paused::Unpaused, &player_at(0, 100_000), &mut score), 100);
    assert_eq!(ScoreTrackingSystem.run(Paused::Paused, &player_at(0, 900_000), &mut score), 100);
    assert_eq!(score.get_distance(), 100_000);
    assert_eq!(score.get_max_distance(), 100_000);
    assert_eq!(ScoreTrackingSystem.run(Paused::Paused, &None, &mut score), 100);
    assert_eq!(ScoreTrackingSystem.run(Paused::Unpaused, &player_at(0, 900_000), &mut score), 900);
}

#[test]
fn heights_below_the_start_do_not_count() {
    let mut score = HighScore::new();
    score.max(-5_000_000);
    assert_eq!(score.get_score(), 0);
    assert_eq!(score.get_high_score(), 0);
}

#[test]
fn reset_clears_the_run_and_keeps_the_record() {
    let mut score = HighScore::new();
    score.max(7_000_000);
    score.reset();
    assert_eq!(score.get_score(), 0);
    assert_eq!(score.get_high_score(), 7_000);
    score.max(3_000_000);
    assert_eq!(score.get_score(), 3_000);
    assert_eq!(score.get_high_score(), 7_000);
    score.max(8_000_000);
    assert_eq!(score.get_high_score(), 8_000);
}

#[test]
fn high_score_never_falls_tick_over_tick() {
    let mut score = HighScore::new();
    let mut last = 0;
    let mut y: i64 = 0;
    for tick in 0..2_000 {
        y += if tick % 7 < 4 { 20_000 } else { -25_000 };
        if tick % 500 == 499 {
            score.reset();
            assert_eq!(score.get_score(), 0);
        }
        let shown = ScoreTrackingSystem.run(Paused::Unpaused, &player_at(0, y), &mut score);
        assert_eq!(shown, score.get_score());
        assert!(score.get_high_score() >= last);
        assert!(score.get_score() <= score.get_high_score());
        last = score.get_high_score();
    }
}

#[test]
fn score_system_reads_the_players_height() {
    let mut score = HighScore::new();
    assert_eq!(ScoreTrackingSystem.run(Paused::Unpaused, &player_at(700_000, 123_456), &mut score), 123);
    assert_eq!(ScoreTrackingSystem.run(Paused::Unpaused, &None, &mut score), 123);
    assert_eq!(ScoreTrackingSystem.run(Paused::Unpaused, &player_at(0, 5_000), &mut score), 123);
    assert_eq!(score.get_high_score(), 123);
}

#[test]
fn a_run_starts_from_zero_whatever_came_before() {
    let mut score = HighScore::new();
    score.max(9_999_000);
    let mut quit = QuitToMenu(true);
    start_run(&mut score, &mut quit);
    assert_eq!(score.get_score(), 0);
    assert_eq!(score.get_high_score(), 9_999);
    assert_eq!(quit, QuitToMenu(false));
}

#[test]
fn a_pending_catch_ends_the_game() {
    assert_eq!(update(0), Transition::Stay);
    assert_eq!(update(1), Transition::GameOver);
    assert_eq!(update(3), Transition::GameOver);
}

#[test]
fn events_are_answered_in_order() {
    let mut quit = QuitToMenu(true);
    assert_eq!(handle_event(true, true, &mut quit), Transition::Quit);
    assert_eq!(quit, QuitToMenu(true));
    assert_eq!(handle_event(false, true, &mut quit), Transition::Pause);
    assert_eq!(quit, QuitToMenu(true));
    assert_eq!(handle_event(false, false, &mut quit), Transition::Pop);
    assert_eq!(quit, QuitToMenu(false));
    assert_eq!(handle_event(false, false, &mut quit), Transition::Stay);
    assert_eq!(quit, QuitToMenu(false));
}

#[test]
fn defaults_are_unpaused_and_no_quit() {
    assert_eq!(Paused::default(), Paused::Unpaused);
    assert_eq!(QuitToMenu::default(), QuitToMenu(false));
    assert_eq!(Input::default(), Input { horizontal: 0, vertical: 0, shoot: false });
    assert_eq!(Input::new(), Input::default());
}

#[test]
fn controls_switch_back_and_forth() {
    assert_eq!(Controls::default(), Controls::Arrows);
    assert_eq!(Controls::Arrows.successor(), Controls::Wasd);
    assert_eq!(Controls::Wasd.successor(), Controls::Arrows);
    assert_eq!(Controls::Arrows.successor().successor(), Controls::Arrows);
}

#[test]
fn controls_are_labelled() {
    assert_eq!(Controls::Arrows.get_button_label(), "Controls: Arrow keys");
    assert_eq!(Controls::Wasd.get_button_label(), "Controls: WASD");
    assert_eq!(ARROWS_LABEL, "Controls: Arrow keys");
    assert_eq!(WASD_LABEL, "Controls: WASD");
}

#[test]
fn templates_set_down_fresh_components() {
    let mut player = player_at(5, 5);
    PlayerPrefab.add_to_entity(&mut player);
    assert_eq!(player, Some(Player::new()));
    let mut enemy = None;
    EnemyPrefab.add_to_entity(&mut enemy);
    assert_eq!(enemy, Some(Enemy::new()));
    let mut car = None;
    CarPrefab.add_to_entity(&mut car);
    assert_eq!(car, Some(Car::new()));
    let mut mud = None;
    MudPrefab.add_to_entity(&mut mud);
    assert_eq!(mud, Some(Mud::new()));
    let mut dog = None;
    DogPrefab.add_to_entity(&mut dog);
    assert_eq!(dog, Some(Dog::new()));
}

#[test]
fn test_system_moves_by_the_bare_axes_and_answers_the_shot() {
    let mut player = player_at(10, 20);
    let calm = Input { horizontal: 300, vertical: -1_000, shoot: false };
    assert_eq!(TestSystem.run(&mut player, &calm), None);
    assert_eq!(player.unwrap().position, Position { x: 310, y: -980 });
    let firing = Input { horizontal: 0, vertical: 0, shoot: true };
    assert_eq!(TestSystem.run(&mut player, &firing), Some("PEW!"));
    assert_eq!(player.unwrap().position, Position { x: 310, y: -980 });
    let mut nobody: Option<Player> = None;
    assert_eq!(TestSystem.run(&mut nobody, &firing), None);
}

#[test]
fn a_sprite_is_picked_only_from_a_sheet_that_holds_it() {
    assert_eq!(pick_sprite(Some(3), 0), Some(0));
    assert_eq!(pick_sprite(Some(3), 2), Some(2));
    assert_eq!(pick_sprite(Some(3), 3), None);
    assert_eq!(pick_sprite(Some(0), 0), None);
    assert_eq!(pick_sprite(None, 0), None);
}

#[test]
fn a_missing_sprite_is_an_error() {
    assert_eq!(resolve::<u8, u8>(None, Some(2)), Err(ContentError::MissingSprite));
    assert_eq!(resolve::<u8, u8>(None, None), Err(ContentError::MissingSprite));
}

#[test]
fn a_missing_prefab_is_an_error() {
    assert_eq!(resolve::<u8, &str>(Some(1), None), Err(ContentError::MissingPrefab));
}

#[test]
fn sprite_and_prefab_are_handed_on_when_both_are_found() {
    assert_eq!(resolve(Some(7u8), Some("mud")), Ok((7u8, "mud")));
}
