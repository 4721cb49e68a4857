use boulder_dash::editor::{command_of, Editor, EditorCommand};
use boulder_dash::{Input, Object};

fn glyphs(e: &Editor) -> Vec<String> {
    e.get_objects()
        .iter()
        .map(|row| row.iter().map(|o| o.char()).collect())
        .collect()
}

#[test]
fn editor_loads_trimmed_text() {
    let mut e = Editor::new("lvl.txt", "\n##\n#p\n\n").unwrap();
    assert_eq!(glyphs(&e), vec!["##".to_string(), "#p".to_string()]);
    assert_eq!(e.get_file_name(), "lvl.txt");
    assert_eq!(*e.get_cursor(), (0, 0));
    assert_eq!(e.get_damaged(), vec![(0, 0), (1, 0), (0, 1), (1, 1)]);
    assert!(e.get_damaged().is_empty());
}

#[test]
fn editor_empty_text_gives_one_void() {
    let mut e = Editor::new("lvl.txt", "  \n").unwrap();
    assert_eq!(glyphs(&e), vec![" ".to_string()]);
    assert_eq!(e.get_damaged(), vec![(0, 0)]);
}

#[test]
fn editor_rejects_unknown_character() {
    match Editor::new("lvl.txt", "#z") {
        Ok(_) => panic!("expected an error"),
        Err(e) => assert_eq!(e, "Can't parse char `z`"),
    }
}

#[test]
fn editor_moves_grows_and_draws() {
    let mut e = Editor::new("lvl.txt", "#").unwrap();
    e.get_damaged();
    e.edit(Input::Space);
    assert!(e.get_pen_down());
    // the pen draws the first object of the palette where the cursor is
    assert_eq!(*e.get_object((0, 0)), Object::Gem);
    e.edit(Input::Period);
    assert_eq!(e.get_current_object(), 1);
    e.edit(Input::D);
    assert_eq!(*e.get_cursor(), (1, 0));
    assert_eq!(*e.get_object((1, 0)), Object::Wall);
    e.edit(Input::Down);
    assert_eq!(*e.get_cursor(), (1, 1));
    // a pen that stays down draws again on every key
    assert_eq!(glyphs(&e), vec!["##".to_string(), " #".to_string()]);
    e.edit(Input::Comma);
    e.edit(Input::Comma);
    assert_eq!(e.get_current_object(), 5);
}

#[test]
fn editor_to_text() {
    let mut e = Editor::new("lvl.txt", "#p \n # ").unwrap();
    assert_eq!(e.to_text(), "#p\n#");
    e.reload("##").unwrap();
    assert_eq!(e.to_text(), "##");
    assert!(e.reload("?").is_err());
    assert_eq!(e.to_text(), "##");
}

#[test]
fn editor_commands() {
    assert_eq!(command_of(Input::Q), EditorCommand::SaveAndQuit);
    assert_eq!(command_of(Input::Quit), EditorCommand::SaveAndQuit);
    assert_eq!(command_of(Input::R), EditorCommand::Reload);
    assert_eq!(command_of(Input::Esc), EditorCommand::Save);
    assert_eq!(command_of(Input::Unknown), EditorCommand::Skip);
    assert_eq!(command_of(Input::Left), EditorCommand::Edit);
}

#[test]
fn input_from_char() {
    assert_eq!(Input::from_char('w'), Input::W);
    assert_eq!(Input::from_char('r'), Input::S);
    assert_eq!(Input::from_char('p'), Input::R);
    assert_eq!(Input::from_char('x'), Input::Unknown);
}

#[test]
fn editor_status_lines() {
    let mut e = Editor::new("lvl.txt", "#").unwrap();
    assert_eq!(
        e.get_status(),
        "Pen up\nCursor pos: (0, 0)\n[gem] wall dirt rock void player"
    );
    for _ in 0..12 {
        e.edit(Input::D);
    }
    e.edit(Input::Space);
    e.edit(Input::Comma);
    assert_eq!(
        e.get_status(),
        "Pen down\nCursor pos: (12, 0)\ngem wall dirt rock void [player]"
    );
}
