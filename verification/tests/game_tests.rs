use grid_game::game::Direction;
use grid_game::game::GameScreen;
use grid_game::screen::InputEvent;
use grid_game::screen::Key;
use grid_game::screen::ScreenState;

#[test]
fn move_right_from_origin() {
    let mut gs = GameScreen::new();
    let r = gs.handle_input(&InputEvent::KeyPress(Key::D));
    assert_eq!(gs.player.x, 1);
    assert_eq!(gs.player.y, 0);
    assert_eq!(gs.player.facing.unwrap().to_string(), "FACING: RIGHT");
    assert_eq!(gs.popups.len(), 0);
    assert!(r.is_none());
}

#[test]
fn boundary_blocks_at_right_edge() {
    let mut gs = GameScreen::new();
    for _ in 0..4 {
        gs.try_move_player(1, 0);
    }
    assert_eq!((gs.player.x, gs.player.y), (4, 0));
    gs.try_move_player(1, 0);
    assert_eq!((gs.player.x, gs.player.y), (4, 0));
    assert_eq!(gs.player.facing, Some(Direction::Right));
    assert_eq!(gs.popups.len(), 1);
    assert_eq!(gs.popups[0].message, "Boundary in the way");
    assert_eq!(gs.popups[0].remaining, 2);
    assert!(gs.popups[0].active);
}

#[test]
fn boundary_blocks_on_every_edge() {
    let cases: Vec<(i32, i32)> = vec![(0, 1), (0, -1), (-1, 0), (1, 0)];
    for (dx, dy) in cases {
        let mut gs = GameScreen::new();
        for _ in 0..4 {
            gs.try_move_player(dx, dy);
        }
        assert_eq!((gs.player.x, gs.player.y), (4 * dx, 4 * dy));
        assert_eq!(gs.popups.len(), 0);
        gs.try_move_player(dx, dy);
        assert_eq!((gs.player.x, gs.player.y), (4 * dx, 4 * dy));
        assert_eq!(gs.popups.len(), 1);
        assert_eq!(gs.popups[0].message, "Boundary in the way");
    }
}

#[test]
fn obstacle_blocks_silently() {
    let mut gs = GameScreen::new();
    gs.try_move_player(1, 0);
    gs.try_move_player(0, 1);
    gs.try_move_player(0, 1);
    assert_eq!((gs.player.x, gs.player.y), (1, 2));
    gs.add_obstacle(1, 1);
    gs.try_move_player(0, -1);
    assert_eq!((gs.player.x, gs.player.y), (1, 2));
    assert_eq!(gs.player.facing.unwrap().to_string(), "FACING: DOWN");
    assert_eq!(gs.popups.len(), 0);
}

#[test]
fn facing_turns_even_when_blocked() {
    let mut gs = GameScreen::new();
    gs.add_obstacle(1, 0);
    gs.try_move_player(1, 0);
    assert_eq!((gs.player.x, gs.player.y), (0, 0));
    assert_eq!(gs.player.facing, Some(Direction::Right));
    assert_eq!(gs.popups.len(), 0);
    gs.try_move_player(0, 1);
    assert_eq!((gs.player.x, gs.player.y), (0, 1));
    assert_eq!(gs.player.facing, Some(Direction::Up));
}

#[test]
fn zero_step_keeps_facing() {
    let mut gs = GameScreen::new();
    gs.try_move_player(0, 1);
    assert_eq!(gs.player.facing, Some(Direction::Up));
    gs.try_move_player(0, 0);
    assert_eq!(gs.player.facing, Some(Direction::Up));
    assert_eq!((gs.player.x, gs.player.y), (0, 1));
    assert_eq!(gs.popups.len(), 0);
}

#[test]
fn popup_expires_after_two_updates() {
    let mut gs = GameScreen::new();
    for _ in 0..4 {
        gs.try_move_player(-1, 0);
    }
    gs.try_move_player(-1, 0);
    assert_eq!(gs.popups.len(), 1);
    let r = gs.update();
    assert!(r.is_none());
    assert_eq!(gs.popups.len(), 1);
    assert!(gs.popups[0].active);
    assert_eq!(gs.popups[0].remaining, 1);
    gs.update();
    assert_eq!(gs.popups.len(), 0);
}

#[test]
fn popups_expire_independently_in_order() {
    let mut gs = GameScreen::new();
    for _ in 0..4 {
        gs.try_move_player(-1, 0);
    }
    gs.try_move_player(-1, 0);
    gs.update();
    gs.try_move_player(-1, 0);
    assert_eq!(gs.popups.len(), 2);
    assert_eq!(gs.popups[0].remaining, 1);
    assert_eq!(gs.popups[1].remaining, 2);
    gs.update();
    assert_eq!(gs.popups.len(), 1);
    assert_eq!(gs.popups[0].remaining, 1);
    gs.update();
    assert_eq!(gs.popups.len(), 0);
}

#[test]
fn initial_board_layout() {
    let gs = GameScreen::new();
    assert_eq!((gs.player.x, gs.player.y), (0, 0));
    assert!(gs.player.movable);
    assert_eq!(gs.player.facing, Some(Direction::Right));
    assert_eq!(gs.grid_scale, 30);
    assert_eq!(gs.popups.len(), 0);
    assert_eq!(gs.obstacles.len(), 48);
    assert!(gs.has_obstacle(2, 2));
    assert!(gs.has_obstacle(-2, 2));
    assert!(gs.has_obstacle(2, -2));
    assert!(gs.has_obstacle(-2, -2));
    assert!(gs.has_obstacle(5, 0));
    assert!(gs.has_obstacle(-5, 3));
    assert!(gs.has_obstacle(3, 5));
    assert!(gs.has_obstacle(0, -5));
    assert!(!gs.has_obstacle(0, 0));
    assert!(!gs.has_obstacle(1, 1));
    for o in &gs.obstacles {
        assert!(!o.movable);
        assert!(o.facing.is_none());
    }
    // Each corner is pushed once per boundary loop, other ring cells once.
    let corner_entries = gs.obstacles.iter().filter(|o| o.x == -5 && o.y == -5).count();
    assert_eq!(corner_entries, 2);
    let edge_entries = gs.obstacles.iter().filter(|o| o.x == 0 && o.y == 5).count();
    assert_eq!(edge_entries, 1);
}

#[test]
fn grid_to_screen_is_affine() {
    let gs = GameScreen::new();
    assert_eq!(gs.grid_to_screen(0, 0, 800, 600), (400, 300));
    assert_eq!(gs.grid_to_screen(0, 0, 800, 600), (400, 300));
    assert_eq!(gs.grid_to_screen(1, 0, 800, 600), (430, 300));
    assert_eq!(gs.grid_to_screen(0, 1, 800, 600), (400, 270));
    assert_eq!(gs.grid_to_screen(-5, -5, 800, 600), (250, 450));
    let low = gs.grid_to_screen(2, 2, 640, 480);
    let high = gs.grid_to_screen(3, 3, 640, 480);
    assert!(low.0 < high.0);
    assert!(low.1 > high.1);
}

#[test]
fn direction_labels() {
    assert_eq!(Direction::Up.to_string(), "FACING: UP");
    assert_eq!(Direction::Down.to_string(), "FACING: DOWN");
    assert_eq!(Direction::Left.to_string(), "FACING: LEFT");
    assert_eq!(Direction::Right.to_string(), "FACING: RIGHT");
}

#[test]
fn escape_requests_pause() {
    let mut gs = GameScreen::new();
    let r = gs.handle_input(&InputEvent::KeyPress(Key::Escape));
    assert_eq!(r, Some(ScreenState::Pause));
    assert_eq!((gs.player.x, gs.player.y), (0, 0));
}

#[test]
fn other_input_is_inert() {
    let mut gs = GameScreen::new();
    assert!(gs.handle_input(&InputEvent::KeyPress(Key::Other)).is_none());
    assert!(gs.handle_input(&InputEvent::KeyRelease(Key::W)).is_none());
    assert!(gs.handle_input(&InputEvent::MouseMove).is_none());
    assert_eq!((gs.player.x, gs.player.y), (0, 0));
    assert_eq!(gs.popups.len(), 0);
}
