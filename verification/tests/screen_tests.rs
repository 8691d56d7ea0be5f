use grid_game::game::GameScreen;
use grid_game::screen::InputEvent;
use grid_game::screen::Key;
use grid_game::screen::PauseScreen;
use grid_game::screen::Screen;
use grid_game::screen::ScreenManager;
use grid_game::screen::ScreenState;

fn game_entry(mgr: &ScreenManager) -> &GameScreen {
    for entry in &mgr.screens {
        if entry.0 == ScreenState::Game {
            if let Screen::Game(g) = &entry.1 {
                return g;
            }
        }
    }
    panic!("no game screen registered");
}

#[test]
fn escape_switches_to_registered_pause() {
    let mut mgr = ScreenManager::new();
    mgr.add_screen(ScreenState::Game, Screen::Game(GameScreen::new()));
    mgr.add_screen(ScreenState::Pause, Screen::Pause(PauseScreen::new()));
    assert_eq!(mgr.active, Some(ScreenState::Game));
    mgr.handle_input(&InputEvent::KeyPress(Key::Escape));
    assert_eq!(mgr.active, Some(ScreenState::Pause));
    // Once paused, input no longer reaches the game screen.
    mgr.handle_input(&InputEvent::KeyPress(Key::D));
    assert_eq!(game_entry(&mgr).player.x, 0);
}

#[test]
fn escape_without_pause_keeps_active_screen() {
    let mut mgr = ScreenManager::new();
    mgr.add_screen(ScreenState::Game, Screen::Game(GameScreen::new()));
    mgr.handle_input(&InputEvent::KeyPress(Key::Escape));
    assert_eq!(mgr.active, Some(ScreenState::Game));
    mgr.handle_input(&InputEvent::KeyPress(Key::D));
    assert_eq!(game_entry(&mgr).player.x, 1);
}

#[test]
fn first_registration_becomes_active() {
    let mut mgr = ScreenManager::new();
    assert!(mgr.active.is_none());
    mgr.add_screen(ScreenState::Pause, Screen::Pause(PauseScreen::new()));
    assert_eq!(mgr.active, Some(ScreenState::Pause));
    mgr.add_screen(ScreenState::Game, Screen::Game(GameScreen::new()));
    assert_eq!(mgr.active, Some(ScreenState::Pause));
}

#[test]
fn add_screen_overwrites_same_key() {
    let mut mgr = ScreenManager::new();
    mgr.add_screen(ScreenState::Game, Screen::Game(GameScreen::new()));
    let mut moved = GameScreen::new();
    moved.try_move_player(1, 0);
    mgr.add_screen(ScreenState::Game, Screen::Game(moved));
    assert_eq!(mgr.screens.len(), 1);
    assert_eq!(game_entry(&mgr).player.x, 1);
}

#[test]
fn manager_forwards_moves_to_active_game() {
    let mut mgr = ScreenManager::new();
    mgr.add_screen(ScreenState::Game, Screen::Game(GameScreen::new()));
    mgr.handle_input(&InputEvent::KeyPress(Key::W));
    mgr.handle_input(&InputEvent::KeyPress(Key::W));
    let g = game_entry(&mgr);
    assert_eq!((g.player.x, g.player.y), (0, 2));
}

#[test]
fn manager_update_advances_popups() {
    let mut mgr = ScreenManager::new();
    let mut gs = GameScreen::new();
    for _ in 0..4 {
        gs.try_move_player(0, 1);
    }
    gs.try_move_player(0, 1);
    assert_eq!(gs.popups.len(), 1);
    mgr.add_screen(ScreenState::Game, Screen::Game(gs));
    mgr.update();
    assert_eq!(game_entry(&mgr).popups.len(), 1);
    mgr.update();
    assert_eq!(game_entry(&mgr).popups.len(), 0);
    assert_eq!(mgr.active, Some(ScreenState::Game));
}

#[test]
fn update_without_screens_is_inert() {
    let mut mgr = ScreenManager::new();
    mgr.update();
    mgr.handle_input(&InputEvent::KeyPress(Key::D));
    assert!(mgr.active.is_none());
    assert_eq!(mgr.screens.len(), 0);
}

#[test]
fn pause_screen_is_inert() {
    let mut p = PauseScreen::new();
    assert!(p.update().is_none());
    assert!(p.handle_input(&InputEvent::KeyPress(Key::Escape)).is_none());
    assert!(p.handle_input(&InputEvent::KeyPress(Key::W)).is_none());
}
