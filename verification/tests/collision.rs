use space_invaders::collision::{bullet_hits_player, find_first_hit};
use space_invaders::entity::{Bullet, Enemy, Player};
use space_invaders::geometry::Position;
use space_invaders::store::{Game, PlayerTest};

fn enemy(id: u64, x: i64, z: i64) -> Enemy {
    Enemy { id, position: Position::new(x, z) }
}

fn bullet(id: u64, x: i64, z: i64) -> Bullet {
    Bullet { id, position: Position::new(x, z) }
}

#[test]
fn collision_removal() {
    for test in [PlayerTest::SkipResolved, PlayerTest::Always] {
        let mut game = Game::new(test);
        game.spawn_enemy(Position::new(0, 0));
        game.spawn_bullet(Position::new(0, 0));
        game.check_collision();
        assert_eq!(game.enemies().len(), 0);
        assert_eq!(game.bullets().len(), 0);
    }
}

#[test]
fn non_collision() {
    for test in [PlayerTest::SkipResolved, PlayerTest::Always] {
        let mut game = Game::new(test);
        let e = game.spawn_enemy(Position::new(0, 0));
        let b = game.spawn_bullet(Position::new(2_000_000, 0));
        for _ in 0..3 {
            game.check_collision();
            assert_eq!(game.enemies().len(), 1);
            assert_eq!(game.enemies()[0], enemy(e, 0, 0));
            assert_eq!(game.bullets().len(), 1);
            assert_eq!(game.bullets()[0], bullet(b, 2_000_000, 0));
        }
    }
}

#[test]
fn a_bullet_that_touches_the_corner_of_an_enemy_hits_it() {
    let mut game = Game::new(PlayerTest::SkipResolved);
    game.spawn_enemy(Position::new(0, 0));
    game.spawn_bullet(Position::new(300_000, -400_000));
    game.check_collision();
    assert_eq!(game.enemies().len(), 0);
    assert_eq!(game.bullets().len(), 0);
    let mut game = Game::new(PlayerTest::SkipResolved);
    game.spawn_enemy(Position::new(0, 0));
    game.spawn_bullet(Position::new(300_001, -400_000));
    game.check_collision();
    assert_eq!(game.enemies().len(), 1);
    assert_eq!(game.bullets().len(), 1);
}

#[test]
fn find_first_hit_gives_the_first_of_the_enemies_hit() {
    let enemies = vec![enemy(0, -2_000_000, 0), enemy(1, 100_000, 0), enemy(2, 0, 0), enemy(3, 0, 100_000)];
    assert_eq!(find_first_hit(&enemies, &bullet(9, 0, 0)), 1);
    assert_eq!(find_first_hit(&enemies, &bullet(9, -2_000_000, 0)), 0);
    assert_eq!(find_first_hit(&enemies, &bullet(9, -200_000, 0)), 1);
    assert_eq!(find_first_hit(&enemies, &bullet(9, -200_001, 0)), 2);
    assert_eq!(find_first_hit(&enemies, &bullet(9, 0, 500_000)), 3);
    assert_eq!(find_first_hit(&enemies, &bullet(9, 3_000_000, 0)), 4);
    assert_eq!(find_first_hit(&vec![], &bullet(9, 0, 0)), 0);
}

#[test]
fn a_bullet_takes_out_only_the_first_enemy_that_it_hits() {
    let mut game = Game::new(PlayerTest::SkipResolved);
    let a = game.spawn_enemy(Position::new(3_000_000, 0));
    let _b = game.spawn_enemy(Position::new(100_000, 0));
    let c = game.spawn_enemy(Position::new(-100_000, 0));
    game.spawn_bullet(Position::new(0, 0));
    game.check_collision();
    assert_eq!(game.bullets().len(), 0);
    assert_eq!(game.enemies().len(), 2);
    assert_eq!(game.enemies()[0], enemy(a, 3_000_000, 0));
    assert_eq!(game.enemies()[1], enemy(c, -100_000, 0));
}

#[test]
fn the_second_bullet_meets_the_enemies_that_the_first_has_left() {
    // both bullets overlap the one enemy: the first takes it out and the
    // second finds nothing
    let mut game = Game::new(PlayerTest::SkipResolved);
    game.spawn_enemy(Position::new(0, 0));
    let _first = game.spawn_bullet(Position::new(0, 0));
    let second = game.spawn_bullet(Position::new(50_000, 0));
    game.check_collision();
    assert_eq!(game.enemies().len(), 0);
    assert_eq!(game.bullets().len(), 1);
    assert_eq!(game.bullets()[0], bullet(second, 50_000, 0));
    // with two enemies there, each bullet takes one
    let mut game = Game::new(PlayerTest::SkipResolved);
    game.spawn_enemy(Position::new(0, 0));
    game.spawn_enemy(Position::new(0, 100_000));
    game.spawn_bullet(Position::new(0, 0));
    game.spawn_bullet(Position::new(50_000, 0));
    game.check_collision();
    assert_eq!(game.enemies().len(), 0);
    assert_eq!(game.bullets().len(), 0);
}

#[test]
fn bullet_hits_player_tests_the_players_box() {
    let player = Some(Player { position: Position::new(0, -1_500_000), health: 3 });
    assert!(bullet_hits_player(&bullet(0, 0, -1_500_000), &player));
    assert!(bullet_hits_player(&bullet(0, 550_000, -850_000), &player));
    assert!(!bullet_hits_player(&bullet(0, 550_001, -850_000), &player));
    assert!(!bullet_hits_player(&bullet(0, 550_000, -849_999), &player));
    assert!(!bullet_hits_player(&bullet(0, 0, -500_000), &player));
    assert!(!bullet_hits_player(&bullet(0, 0, -1_500_000), &None));
}

#[test]
fn health_monotonicity() {
    let mut game = Game::new(PlayerTest::SkipResolved);
    game.spawn_player(Position::new(0, -1_500_000), 3);
    game.spawn_bullet(Position::new(0, -1_500_000));
    game.spawn_bullet(Position::new(3_000_000, -1_500_000));
    game.check_collision();
    assert_eq!(game.health(), 2);
    assert_eq!(game.bullets().len(), 1);
    assert_eq!(game.bullets()[0].position, Position { x: 3_000_000, z: -1_500_000 });
    game.check_collision();
    assert_eq!(game.health(), 2);
    game.spawn_bullet(Position::new(100_000, -1_400_000));
    game.spawn_bullet(Position::new(-100_000, -1_600_000));
    game.check_collision();
    assert_eq!(game.health(), 0);
    assert_eq!(game.bullets().len(), 1);
    assert_eq!(
        game.player(),
        Some(Player { position: Position { x: 0, z: -1_500_000 }, health: 0 })
    );
}

#[test]
fn health_stays_at_zero() {
    let mut game = Game::new(PlayerTest::SkipResolved);
    game.spawn_player(Position::new(0, 0), 1);
    game.spawn_bullet(Position::new(0, 0));
    game.spawn_bullet(Position::new(0, 0));
    game.spawn_bullet(Position::new(0, 0));
    game.check_collision();
    assert_eq!(game.health(), 0);
    assert_eq!(game.bullets().len(), 0);
    game.spawn_bullet(Position::new(0, 0));
    game.check_collision();
    assert_eq!(game.health(), 0);
    assert_eq!(game.bullets().len(), 0);
}

#[test]
fn a_bullet_on_an_enemy_and_the_player_with_the_player_test_skipped() {
    let mut game = Game::new(PlayerTest::SkipResolved);
    game.spawn_player(Position::new(0, 0), 3);
    game.spawn_enemy(Position::new(600_000, 0));
    game.spawn_bullet(Position::new(400_000, 0));
    game.check_collision();
    assert_eq!(game.enemies().len(), 0);
    assert_eq!(game.bullets().len(), 0);
    assert_eq!(game.health(), 3);
}

#[test]
fn a_bullet_on_an_enemy_and_the_player_with_the_player_always_tested() {
    let mut game = Game::new(PlayerTest::Always);
    game.spawn_player(Position::new(0, 0), 3);
    game.spawn_enemy(Position::new(600_000, 0));
    game.spawn_bullet(Position::new(400_000, 0));
    game.check_collision();
    assert_eq!(game.enemies().len(), 0);
    assert_eq!(game.bullets().len(), 0);
    assert_eq!(game.health(), 2);
}

#[test]
fn the_two_player_tests_agree_on_a_bullet_that_hits_one_thing() {
    for test in [PlayerTest::SkipResolved, PlayerTest::Always] {
        let mut game = Game::new(test);
        game.spawn_player(Position::new(0, 0), 3);
        game.spawn_enemy(Position::new(3_000_000, 5_000_000));
        game.spawn_bullet(Position::new(3_000_000, 5_000_000));
        game.spawn_bullet(Position::new(0, 0));
        game.spawn_bullet(Position::new(-3_000_000, 5_000_000));
        game.check_collision();
        assert_eq!(game.enemies().len(), 0);
        assert_eq!(game.health(), 2);
        assert_eq!(game.bullets().len(), 1);
        assert_eq!(game.bullets()[0].position, Position { x: -3_000_000, z: 5_000_000 });
        assert_eq!(game.player_test(), test);
    }
}

#[test]
fn collisions_without_bullets_or_without_enemies_change_nothing() {
    let mut game = Game::new(PlayerTest::Always);
    game.spawn_player(Position::new(0, -1_500_000), 3);
    game.spawn_enemy(Position::new(0, 9_000_000));
    game.check_collision();
    assert_eq!(game.enemies().len(), 1);
    assert_eq!(game.health(), 3);
    let mut game = Game::new(PlayerTest::Always);
    game.spawn_player(Position::new(0, -1_500_000), 3);
    game.spawn_bullet(Position::new(0, 5_000_000));
    game.check_collision();
    assert_eq!(game.bullets().len(), 1);
    assert_eq!(game.health(), 3);
    let mut game = Game::new(PlayerTest::Always);
    game.check_collision();
    assert_eq!(game.bullets().len(), 0);
    assert_eq!(game.enemies().len(), 0);
    assert_eq!(game.player(), None);
}

#[test]
fn without_a_player_bullets_only_meet_enemies() {
    let mut game = Game::new(PlayerTest::Always);
    game.spawn_enemy(Position::new(0, 0));
    game.spawn_bullet(Position::new(0, 0));
    game.spawn_bullet(Position::new(0, -1_500_000));
    game.check_collision();
    assert_eq!(game.enemies().len(), 0);
    assert_eq!(game.bullets().len(), 1);
    assert_eq!(game.health(), 0);
    assert_eq!(game.player(), None);
}

#[test]
fn the_pass_keeps_the_direction_and_the_next_identifier() {
    let mut game = Game::new(PlayerTest::SkipResolved);
    game.spawn_enemy(Position::new(0, 0));
    game.spawn_bullet(Position::new(0, 0));
    let next = game.next_id();
    let direction = game.enemy_direction();
    game.check_collision();
    assert_eq!(game.next_id(), next);
    assert_eq!(game.enemy_direction(), direction);
}
