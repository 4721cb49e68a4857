use boulder_dash::level::Level;
use boulder_dash::objects::{get_placeholder, parse, Object};
use boulder_dash::{Direction, Input, State};

fn level(text: &str) -> Level {
    match Level::parse(text) {
        Ok(level) => level,
        Err(e) => panic!("{e}"),
    }
}

fn glyphs(level: &Level) -> Vec<String> {
    level
        .get_objects()
        .iter()
        .map(|row| row.iter().map(|o| o.char()).collect())
        .collect()
}

#[test]
fn scenario_collect_and_win() {
    let mut l = level("#####\n#p g#\n#####");
    assert_eq!(*l.get_max_score(), 1);
    assert_eq!(*l.get_score(), 0);
    l.tick(Some(Direction::Right));
    assert_eq!(*l.get_player_pos(), (2, 1));
    assert_eq!(*l.get_state(), None);
    l.tick(Some(Direction::Right));
    assert_eq!(*l.get_score(), 1);
    assert_eq!(*l.get_state(), Some(State::Win));
    assert_eq!(*l.get_player_pos(), (3, 1));
    assert_eq!(*l.get_object((3, 1)), Object::Player);
}

#[test]
fn scenario_crush_and_lose() {
    let mut l = level("#####\n# r #\n# p #\n#####");
    l.tick(None);
    assert_eq!(*l.get_state(), Some(State::Lose));
    assert_eq!(*l.get_object((2, 2)), Object::Rock);
    assert_eq!(*l.get_object((2, 1)), Object::Void);
    let players = l.get_objects().iter().flatten().filter(|o| o.player()).count();
    assert_eq!(players, 0);
}

#[test]
fn scenario_push() {
    let mut l = level("# rp  #");
    assert_eq!(*l.get_player_pos(), (3, 0));
    l.tick(Some(Direction::Left));
    assert_eq!(*l.get_object((1, 0)), Object::Rock);
    assert_eq!(*l.get_object((2, 0)), Object::Player);
    assert_eq!(*l.get_object((3, 0)), Object::Void);
    assert_eq!(*l.get_player_pos(), (2, 0));
    assert_eq!(*l.get_state(), None);
}

#[test]
fn scenario_blocked_push() {
    let mut l = level("##rp  #");
    l.get_damaged();
    l.tick(Some(Direction::Left));
    assert!(l.get_damaged().is_empty());
    assert_eq!(glyphs(&l), vec!["##rp  #".to_string()]);
    assert_eq!(*l.get_player_pos(), (3, 0));
}

#[test]
fn no_push_upwards() {
    let mut l = level("###\n#r#\n#p#\n###");
    // the rock right above the player crushes it when the player pushes up
    l.tick(Some(Direction::Up));
    assert_eq!(*l.get_state(), Some(State::Lose));
}

#[test]
fn ended_level_stays() {
    let mut l = level("#####\n#pg #\n#####");
    l.tick(Some(Direction::Right));
    assert_eq!(*l.get_state(), Some(State::Win));
    let before = glyphs(&l);
    l.get_damaged();
    l.tick(Some(Direction::Right));
    l.tick(Some(Direction::Left));
    assert_eq!(*l.get_state(), Some(State::Win));
    assert_eq!(glyphs(&l), before);
    assert!(l.get_damaged().is_empty());
}

#[test]
fn drain_twice() {
    let mut l = level("#p#\n###");
    let first = l.get_damaged();
    assert_eq!(first, vec![(0, 0), (1, 0), (2, 0), (0, 1), (1, 1), (2, 1)]);
    assert!(l.get_damaged().is_empty());
}

#[test]
fn damaged_after_move() {
    let mut l = level("#p #");
    l.get_damaged();
    l.tick(Some(Direction::Right));
    assert_eq!(l.get_damaged(), vec![(1, 0), (2, 0)]);
    assert!(l.get_damaged().is_empty());
}

#[test]
fn parse_round_trip() {
    let text = "#####\n#pdg#\n# r #\n#####";
    let l = level(text);
    let lines: Vec<String> = text.lines().map(|s| s.to_string()).collect();
    assert_eq!(glyphs(&l), lines);
    assert_eq!(*l.get_max_score(), 1);
    assert_eq!(*l.get_player_pos(), (1, 1));
}

#[test]
fn parse_crlf_and_final_newline() {
    let l = level("#p#\r\n# #\n");
    assert_eq!(glyphs(&l), vec!["#p#".to_string(), "# #".to_string()]);
}

#[test]
fn parse_ragged_rows() {
    let l = level("#\n#p #\n\n##");
    assert_eq!(l.get_objects().len(), 4);
    assert_eq!(l.get_objects()[0].len(), 1);
    assert_eq!(l.get_objects()[1].len(), 4);
    assert_eq!(l.get_objects()[2].len(), 0);
    assert_eq!(l.get_objects()[3].len(), 2);
}

#[test]
fn parse_error_names_character() {
    match Level::parse("#p#\n#x?") {
        Ok(_) => panic!("expected an error"),
        Err(e) => assert_eq!(e, "Can't parse char `x`"),
    }
}

#[test]
fn parse_error_on_trailing_carriage_return() {
    assert!(Level::parse("#p#\r").is_err());
}

#[test]
fn parse_without_player() {
    let l = level("###\n# #");
    assert_eq!(*l.get_player_pos(), (0, 0));
}

#[test]
fn parse_empty() {
    let l = level("");
    assert!(l.get_objects().is_empty());
    assert_eq!(*l.get_max_score(), 0);
}

#[test]
fn gem_counts_toward_max_score() {
    let l = level("#ggg#\n#p g#");
    assert_eq!(*l.get_max_score(), 4);
    assert_eq!(*l.get_score(), 0);
}

#[test]
fn gem_without_win_until_last() {
    let mut l = level("#####\n#pgg#\n#####");
    l.tick(Some(Direction::Right));
    assert_eq!(*l.get_score(), 1);
    assert_eq!(*l.get_state(), None);
    l.tick(Some(Direction::Right));
    assert_eq!(*l.get_score(), 2);
    assert_eq!(*l.get_state(), Some(State::Win));
}

#[test]
fn dirt_breaks_without_score() {
    let mut l = level("#####\n#pdg#\n#####");
    l.tick(Some(Direction::Right));
    assert_eq!(*l.get_object((2, 1)), Object::Player);
    assert_eq!(*l.get_score(), 0);
    assert_eq!(*l.get_state(), None);
}

#[test]
fn wall_blocks_player() {
    let mut l = level("###\n#p#\n###");
    l.get_damaged();
    l.tick(Some(Direction::Up));
    assert_eq!(*l.get_player_pos(), (1, 1));
    assert!(l.get_damaged().is_empty());
}

#[test]
fn rock_falls_one_cell_per_tick() {
    let mut l = level("#####\n#r p#\n#   #\n#   #\n#####");
    l.tick(None);
    assert_eq!(*l.get_object((1, 1)), Object::Void);
    assert_eq!(*l.get_object((1, 2)), Object::Rock);
    l.tick(None);
    assert_eq!(*l.get_object((1, 3)), Object::Rock);
    l.tick(None);
    assert_eq!(*l.get_object((1, 3)), Object::Rock);
}

#[test]
fn rock_slides_left_first() {
    let mut l = level("#####\n# r #\n# # #\n#p  #\n#####");
    l.tick(None);
    assert_eq!(*l.get_object((1, 2)), Object::Rock);
    assert_eq!(*l.get_object((2, 1)), Object::Void);
}

#[test]
fn rock_slides_right_when_left_blocked() {
    let mut l = level("#####\n##r #\n#d# #\n#p  #\n#####");
    l.tick(None);
    assert_eq!(*l.get_object((3, 2)), Object::Rock);
    assert_eq!(*l.get_object((2, 1)), Object::Void);
}

#[test]
fn rock_on_rock_stays_when_sides_blocked() {
    let mut l = level("#####\n##r##\n##r##\n#p#d#\n#####");
    l.tick(None);
    assert_eq!(*l.get_object((2, 1)), Object::Rock);
    assert_eq!(*l.get_object((2, 2)), Object::Rock);
}

#[test]
fn rock_follows_digging_player() {
    // breaking dirt skips the crush check; the rock then falls next to the
    // player's head and crushes it on the following tick
    let mut l = level("###\n#r#\n#p#\n#d#\n###");
    l.tick(Some(Direction::Down));
    assert_eq!(*l.get_state(), None);
    assert_eq!(*l.get_player_pos(), (1, 3));
    assert_eq!(*l.get_object((1, 2)), Object::Rock);
    assert_eq!(*l.get_object((1, 1)), Object::Void);
    l.tick(None);
    assert_eq!(*l.get_state(), Some(State::Lose));
    assert_eq!(*l.get_object((1, 3)), Object::Rock);
}

#[test]
fn direction_apply_to_saturates() {
    assert_eq!(Direction::Up.apply_to(&(3, 0)), (3, 0));
    assert_eq!(Direction::Left.apply_to(&(0, 4)), (0, 4));
    assert_eq!(Direction::Down.apply_to(&(3, 4)), (3, 5));
    assert_eq!(Direction::Right.apply_to(&(3, 4)), (4, 4));
    assert_eq!(Direction::Right.apply_to(&(usize::MAX, 4)), (usize::MAX, 4));
}

#[test]
fn direction_from_input() {
    assert_eq!(Direction::from_input(&Input::W), Some(Direction::Up));
    assert_eq!(Direction::from_input(&Input::Up), Some(Direction::Up));
    assert_eq!(Direction::from_input(&Input::S), Some(Direction::Down));
    assert_eq!(Direction::from_input(&Input::A), Some(Direction::Left));
    assert_eq!(Direction::from_input(&Input::Right), Some(Direction::Right));
    assert_eq!(Direction::from_input(&Input::Space), None);
}

#[test]
fn object_labels() {
    assert_eq!(Object::Gem.name(), "gem");
    assert_eq!(Object::Player.name(), "player");
    assert_eq!(Object::Wall.emoji(), '\u{1F9F1}');
    assert_eq!(Object::Void.char(), ' ');
    assert_eq!(get_placeholder(), Object::Void);
    assert_eq!(Object::get_void(), Object::Void);
    assert_eq!(Object::all_objects().len(), 6);
    assert!(Object::Rock.can_be_moved());
    assert!(Object::Dirt.can_be_broken());
    assert!(!Object::Wall.can_be_broken());
}

#[test]
fn object_parse() {
    assert_eq!(parse('r'), Ok(Object::Rock));
    assert_eq!(parse('p'), Ok(Object::Player));
    assert_eq!(parse('O'), Err("Can't parse char `O`".to_string()));
    assert_eq!(Object::new('d'), Some(Object::Dirt));
    assert_eq!(Object::new('+'), None);
}

#[test]
fn score_and_single_player_hold_while_playing() {
    let mut l = level("#######\n#p g r#\n# dgr #\n#g    #\n#######");
    let moves = [
        Some(Direction::Right),
        Some(Direction::Right),
        Some(Direction::Down),
        None,
        Some(Direction::Left),
        Some(Direction::Down),
        Some(Direction::Left),
        Some(Direction::Left),
        None,
    ];
    for dir in moves {
        l.tick(dir);
        assert!(l.get_score() <= l.get_max_score());
        let players = l.get_objects().iter().flatten().filter(|o| o.player()).count();
        if *l.get_state() == Some(State::Lose) {
            assert_eq!(players, 0);
        } else {
            assert_eq!(players, 1);
            assert_eq!(*l.get_object(*l.get_player_pos()), Object::Player);
        }
    }
}

#[test]
fn damaged_cells_listed_once() {
    let mut l = level("#p  #");
    l.get_damaged();
    l.tick(Some(Direction::Right));
    l.tick(Some(Direction::Left));
    assert_eq!(l.get_damaged(), vec![(1, 0), (2, 0)]);
}
