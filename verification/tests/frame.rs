use space_invaders::entity::{Direction, Player};
use space_invaders::frame::FrameInput;
use space_invaders::geometry::Position;
use space_invaders::input::{ButtonState, KeyCode, KeyboardInput};
use space_invaders::store::{Game, PlayerTest};

fn press_fire() -> KeyboardInput {
    KeyboardInput { key_code: KeyCode::Space, state: ButtonState::Pressed }
}

fn release_fire() -> KeyboardInput {
    KeyboardInput { key_code: KeyCode::Space, state: ButtonState::Released }
}

fn idle(dt: u64) -> FrameInput {
    FrameInput { left: false, right: false, events: vec![], dt }
}

#[test]
fn a_frame_runs_the_steps_in_order() {
    let mut game = Game::new(PlayerTest::SkipResolved);
    game.spawn_player(Position::new(0, -1_500_000), 3);
    game.spawn_enemy(Position::new(-4_400_000, 9_000_000));
    game.spawn_bullet(Position::new(0, 9_900_000));
    let input = FrameInput { left: true, right: false, events: vec![press_fire()], dt: 100_000 };
    assert!(game.can_fire(&input.events));
    game.tick(&input);
    // the player has moved before the bullet was fired, and the new bullet
    // has flown for the frame; the old one has left the playfield
    assert_eq!(game.player(), Some(Player { position: Position { x: 300_000, z: -1_500_000 }, health: 3 }));
    assert_eq!(game.bullets().len(), 1);
    assert_eq!(game.bullets()[0].position, Position { x: 300_000, z: 0 });
    assert_eq!(game.bullets()[0].id, 2);
    assert_eq!(game.enemies()[0].position, Position { x: -4_700_000, z: 9_000_000 });
    assert_eq!(game.enemy_direction(), Direction::Positive);
    assert_eq!(game.next_id(), 3);
}

#[test]
fn a_held_fire_key_fires_once_whatever_the_frame_time() {
    for dt in [0u64, 1, 16_667, 100_000, 1_000_000] {
        let mut game = Game::new(PlayerTest::SkipResolved);
        game.spawn_player(Position::new(0, -1_500_000), 3);
        game.tick(&FrameInput { left: false, right: false, events: vec![press_fire()], dt });
        assert_eq!(game.bullets().len(), 1);
        assert_eq!(game.bullets()[0].id, 0);
        assert_eq!(game.bullets()[0].position, Position { x: 0, z: -500_000 + 5 * dt as i64 });
        assert_eq!(game.next_id(), 1);
        // the key is held: the frames that follow bring no press, and
        // no identifier is taken for another bullet
        game.tick(&idle(dt));
        assert_eq!(game.next_id(), 1);
        assert!(game.bullets().len() <= 1);
        game.tick(&FrameInput { left: false, right: false, events: vec![release_fire()], dt });
        assert_eq!(game.next_id(), 1);
        assert!(game.bullets().len() <= 1);
    }
}

#[test]
fn a_bullet_fired_late_in_a_long_frame_is_gone_at_once() {
    let mut game = Game::new(PlayerTest::SkipResolved);
    game.spawn_player(Position::new(0, -1_500_000), 3);
    game.tick(&FrameInput { left: false, right: false, events: vec![press_fire()], dt: 2_100_001 });
    assert_eq!(game.bullets().len(), 0);
    assert_eq!(game.next_id(), 1);
}

#[test]
fn a_shot_from_the_opening_scene_takes_out_an_enemy() {
    let mut game = Game::setup(PlayerTest::SkipResolved);
    let frame: u64 = 50_000;
    game.tick(&FrameInput { left: false, right: false, events: vec![press_fire()], dt: frame });
    assert_eq!(game.bullets().len(), 1);
    let mut frames = 1;
    while game.bullets().len() == 1 && frames < 200 {
        game.tick(&idle(frame));
        frames += 1;
    }
    // the bullet is gone, and one enemy with it
    assert_eq!(game.bullets().len(), 0);
    assert_eq!(game.health(), 3);
    assert_eq!(game.enemies().len(), 19);
    let mut seen = [false; 20];
    for e in game.enemies().iter() {
        assert!(e.id < 20);
        assert!(!seen[e.id as usize]);
        seen[e.id as usize] = true;
    }
}

#[test]
fn health_never_rises_over_a_run_of_frames() {
    for test in [PlayerTest::SkipResolved, PlayerTest::Always] {
        let mut game = Game::setup(test);
        game.spawn_bullet(Position::new(0, -1_500_000));
        game.spawn_bullet(Position::new(0, -3_000_000));
        let mut last = game.health();
        let mut lowest = last;
        for i in 0..120u64 {
            let events = if i % 7 == 0 { vec![press_fire()] } else { vec![] };
            let input = FrameInput { left: i % 3 == 0, right: i % 5 == 0, events, dt: 16_667 + 1_000 * (i % 4) };
            assert!(game.can_fire(&input.events));
            game.tick(&input);
            let now = game.health();
            assert!(now <= last);
            last = now;
            if now < lowest {
                lowest = now;
            }
            match game.player() {
                Some(p) => assert!(-4_500_000 <= p.position.x && p.position.x <= 4_500_000),
                None => panic!("the player is gone"),
            }
        }
        // the first bullet hit at once, the second when it reached the player
        assert_eq!(lowest, 1);
    }
}

#[test]
fn a_frame_without_time_or_input_changes_nothing_at_rest() {
    let mut game = Game::setup(PlayerTest::SkipResolved);
    game.tick(&idle(0));
    assert_eq!(game.player(), Some(Player { position: Position { x: 0, z: -1_500_000 }, health: 3 }));
    assert_eq!(game.enemies().len(), 20);
    assert_eq!(game.enemies()[0].position, Position { x: -4_000_000, z: 9_000_000 });
    assert_eq!(game.enemy_direction(), Direction::Negative);
    assert_eq!(game.bullets().len(), 0);
}

#[test]
fn a_frame_on_an_empty_store_does_nothing() {
    let mut game = Game::new(PlayerTest::Always);
    game.tick(&FrameInput { left: true, right: true, events: vec![press_fire(), press_fire()], dt: 1_000_000 });
    assert_eq!(game.player(), None);
    assert_eq!(game.enemies().len(), 0);
    assert_eq!(game.bullets().len(), 0);
    assert_eq!(game.enemy_direction(), Direction::Negative);
    assert_eq!(game.next_id(), 0);
}

#[test]
fn the_formation_sweeps_from_side_to_side() {
    let mut game = Game::setup(PlayerTest::SkipResolved);
    let mut turns = 0;
    let mut direction = game.enemy_direction();
    for _ in 0..400 {
        game.tick(&idle(16_667));
        if game.enemy_direction() != direction {
            turns += 1;
            direction = game.enemy_direction();
        }
        for e in game.enemies().iter() {
            assert!(-4_600_000 < e.position.x && e.position.x < 4_600_000);
        }
    }
    // 400 frames are 6.67 s at 3 units a second: 20 units of travel, with
    // half a unit to the first turn and 5 between turns
    assert_eq!(turns, 4);
    assert_eq!(game.enemies().len(), 20);
}
