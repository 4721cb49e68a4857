use boulder_dash::game::{Game, GameCommand, TickOutcome};
use boulder_dash::level::Level;
use boulder_dash::{Input, Object, State};

fn game(texts: &[&str]) -> Game {
    let levels = texts.iter().map(|t| Level::parse(t).unwrap()).collect();
    Game::new(false, 1000, levels)
}

#[test]
fn game_waits_for_first_direction() {
    let mut g = game(&["#p g#"]);
    assert_eq!(g.on_timer(), TickOutcome::Waiting);
    assert_eq!(g.on_input(Input::D), GameCommand::Redraw);
    assert_eq!(g.on_timer(), TickOutcome::Ticked);
    assert_eq!(*g.get_level().get_object((2, 0)), Object::Player);
}

#[test]
fn game_advances_and_finishes() {
    let mut g = game(&["#pg#", "#pg#"]);
    g.on_input(Input::Right);
    assert_eq!(g.on_timer(), TickOutcome::Advanced);
    assert_eq!(g.get_level_idx(), 1);
    g.on_input(Input::Right);
    assert_eq!(g.on_timer(), TickOutcome::Finished);
    assert_eq!(*g.get_level().get_state(), Some(State::Win));
}

#[test]
fn game_delay_and_pause() {
    let mut g = game(&["#p#"]);
    g.on_input(Input::Period);
    assert_eq!(g.get_delay_ms(), 1000);
    g.on_input(Input::Comma);
    assert_eq!(g.get_delay_ms(), 950);
    g.on_input(Input::Period);
    assert_eq!(g.get_delay_ms(), 1000);
    g.on_input(Input::Space);
    assert!(g.get_pause());
    assert_eq!(g.on_input(Input::Unknown), GameCommand::Idle);
    assert_eq!(g.on_input(Input::Q), GameCommand::Quit);
    assert_eq!(g.on_input(Input::R), GameCommand::Reload);
}

#[test]
fn game_paused_ticks_only_with_direction() {
    let mut g = game(&["#p  #"]);
    g.on_input(Input::Right);
    g.on_timer();
    g.on_input(Input::Esc);
    assert_eq!(g.on_timer(), TickOutcome::Waiting);
    g.on_input(Input::Right);
    assert_eq!(g.on_timer(), TickOutcome::Ticked);
    assert_eq!(*g.get_level().get_player_pos(), (3, 0));
}

#[test]
fn game_reload_level() {
    let mut g = game(&["#p #"]);
    g.on_input(Input::Right);
    g.on_timer();
    g.reload_level(Level::parse("#p #").unwrap());
    assert_eq!(*g.get_level().get_player_pos(), (1, 0));
    assert_eq!(g.get_damaged().len(), 4);
}

#[test]
fn game_status_lines() {
    let mut g = game(&["#pg#", "#pgg#"]);
    assert_eq!(g.get_status(), "Score: 0/1\nDelay: 1000ms\nPaused: no");
    g.on_input(Input::Space);
    g.on_input(Input::Comma);
    assert_eq!(g.get_status(), "Score: 0/1\nDelay: 950ms\nPaused: yes");
    g.on_input(Input::Right);
    g.on_timer();
    g.on_input(Input::Right);
    g.on_timer();
    assert_eq!(g.get_status(), "Score: 1/2\nDelay: 950ms\nPaused: yes");
    g.on_input(Input::Right);
    assert_eq!(g.on_timer(), TickOutcome::Finished);
    assert_eq!(g.get_status(), "You have won!");
}

#[test]
fn game_status_lost() {
    let mut g = game(&["#r#\n#p#"]);
    g.on_input(Input::Left);
    assert_eq!(g.on_timer(), TickOutcome::Finished);
    assert_eq!(g.get_status(), "You have lost!");
}
