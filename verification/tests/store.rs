use space_invaders::config::{
    COLUMN_GAP, ENEMY_COUNT, ENEMY_PER_ROW, ENEMY_ROWS, PLAYGROUND_HEIGHT, PLAYGROUND_WIDTH, ROW_GAP,
    SCALE, STARTING_HEALTH,
};
use space_invaders::entity::{Bullet, Direction, Enemy, Player};
use space_invaders::geometry::Position;
use space_invaders::setup::enemy_grid_position;
use space_invaders::store::{Game, PlayerTest};

#[test]
fn a_new_store_is_empty() {
    let game = Game::new(PlayerTest::Always);
    assert_eq!(game.player(), None);
    assert_eq!(game.health(), 0);
    assert_eq!(game.enemies().len(), 0);
    assert_eq!(game.bullets().len(), 0);
    assert_eq!(game.enemy_direction(), Direction::Negative);
    assert_eq!(game.player_test(), PlayerTest::Always);
    assert_eq!(game.next_id(), 0);
}

#[test]
fn entities_get_identifiers_in_turn() {
    let mut game = Game::new(PlayerTest::SkipResolved);
    assert_eq!(game.spawn_enemy(Position::new(1, 2)), 0);
    assert_eq!(game.spawn_bullet(Position::new(3, 4)), 1);
    assert_eq!(game.spawn_enemy(Position::new(5, 6)), 2);
    assert_eq!(game.next_id(), 3);
    assert_eq!(game.enemies().len(), 2);
    assert_eq!(game.enemies()[0], Enemy { id: 0, position: Position { x: 1, z: 2 } });
    assert_eq!(game.enemies()[1], Enemy { id: 2, position: Position { x: 5, z: 6 } });
    assert_eq!(game.bullets().len(), 1);
    assert_eq!(game.bullets()[0], Bullet { id: 1, position: Position { x: 3, z: 4 } });
}

#[test]
fn there_is_one_player_at_most() {
    let mut game = Game::new(PlayerTest::SkipResolved);
    game.spawn_player(Position::new(0, -1_500_000), 3);
    assert_eq!(game.player(), Some(Player { position: Position { x: 0, z: -1_500_000 }, health: 3 }));
    assert_eq!(game.health(), 3);
    game.spawn_player(Position::new(7, 8), 5);
    assert_eq!(game.player(), Some(Player { position: Position { x: 7, z: 8 }, health: 5 }));
    assert_eq!(game.health(), 5);
    assert_eq!(game.next_id(), 0);
}

#[test]
fn despawn_removes_the_one_entity() {
    let mut game = Game::new(PlayerTest::SkipResolved);
    let a = game.spawn_enemy(Position::new(1, 0));
    let b = game.spawn_enemy(Position::new(2, 0));
    let c = game.spawn_enemy(Position::new(3, 0));
    let x = game.spawn_bullet(Position::new(4, 0));
    let y = game.spawn_bullet(Position::new(5, 0));
    assert!(game.despawn_enemy(b));
    assert_eq!(game.enemies().len(), 2);
    assert_eq!(game.enemies()[0].id, a);
    assert_eq!(game.enemies()[1].id, c);
    assert!(!game.despawn_enemy(b));
    assert!(!game.despawn_enemy(x));
    assert_eq!(game.enemies().len(), 2);
    assert!(game.despawn_bullet(x));
    assert_eq!(game.bullets().len(), 1);
    assert_eq!(game.bullets()[0], Bullet { id: y, position: Position { x: 5, z: 0 } });
    assert!(!game.despawn_bullet(x));
    assert!(!game.despawn_bullet(a));
    assert!(game.despawn_bullet(y));
    assert_eq!(game.bullets().len(), 0);
    assert_eq!(game.next_id(), 5);
}

#[test]
fn the_constants_fit_together() {
    assert_eq!(SCALE, 1_000_000);
    assert_eq!(PLAYGROUND_WIDTH, 10 * SCALE);
    assert_eq!(PLAYGROUND_HEIGHT, 10 * SCALE);
    assert_eq!(ENEMY_COUNT, 20);
    assert_eq!(ENEMY_PER_ROW, 5);
    assert_eq!(ENEMY_ROWS * ENEMY_PER_ROW, ENEMY_COUNT);
    assert_eq!(COLUMN_GAP * ENEMY_PER_ROW as i64, PLAYGROUND_WIDTH / 2);
    assert_eq!(ROW_GAP * ENEMY_ROWS as i64, PLAYGROUND_HEIGHT / 2);
    assert_eq!(STARTING_HEALTH, 3);
}

#[test]
fn the_grid_has_five_columns_and_four_rows() {
    assert_eq!(enemy_grid_position(0), Position { x: -4_000_000, z: 9_000_000 });
    assert_eq!(enemy_grid_position(1), Position { x: -3_000_000, z: 9_000_000 });
    assert_eq!(enemy_grid_position(4), Position { x: 0, z: 9_000_000 });
    assert_eq!(enemy_grid_position(5), Position { x: -4_000_000, z: 7_750_000 });
    assert_eq!(enemy_grid_position(12), Position { x: -2_000_000, z: 6_500_000 });
    assert_eq!(enemy_grid_position(19), Position { x: 0, z: 5_250_000 });
}

#[test]
fn setup_places_the_player_and_the_formation() {
    let game = Game::setup(PlayerTest::SkipResolved);
    assert_eq!(game.player(), Some(Player { position: Position { x: 0, z: -1_500_000 }, health: 3 }));
    assert_eq!(game.enemies().len(), 20);
    assert_eq!(game.bullets().len(), 0);
    assert_eq!(game.enemy_direction(), Direction::Negative);
    assert_eq!(game.player_test(), PlayerTest::SkipResolved);
    assert_eq!(game.next_id(), 20);
    let mut i: u64 = 0;
    for e in game.enemies().iter() {
        assert_eq!(e.id, i);
        assert_eq!(e.position, enemy_grid_position(i));
        assert!(-4_500_000 < e.position.x && e.position.x < 4_500_000);
        assert!(0 <= e.position.z && e.position.z <= 10_000_000);
        i += 1;
    }
    assert_eq!(Game::setup(PlayerTest::Always).player_test(), PlayerTest::Always);
}

#[test]
fn the_game_is_over_when_the_players_health_is_spent() {
    let mut game = Game::new(PlayerTest::SkipResolved);
    assert!(!game.is_over());
    game.spawn_player(Position::new(0, 0), 1);
    assert!(!game.is_over());
    game.spawn_bullet(Position::new(0, 0));
    game.check_collision();
    assert_eq!(game.health(), 0);
    assert!(game.is_over());
}
