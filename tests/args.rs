use boulder_dash::args::{AppMode, Config, ProgramMode};

fn args(list: &[&str]) -> Vec<String> {
    list.iter().map(|s| s.to_string()).collect()
}

#[test]
fn config_defaults_with_level() {
    let c = Config::new(&args(&["-l", "a.txt"])).unwrap().unwrap();
    assert!(!c.pause);
    assert_eq!(c.size, 30);
    assert_eq!(c.delay_ms, 1000);
    assert_eq!(c.app_mode, AppMode::Tui);
    assert_eq!(c.program_mode, ProgramMode::Game);
    assert_eq!(c.level_paths, vec!["a.txt".to_string()]);
}

#[test]
fn config_all_options() {
    let c = Config::new(&args(&[
        "--pause", "-s", "+40", "--delay", "250", "-m", "GUI", "--run", "e", "-l", "x", "--level",
        "y",
    ]))
    .unwrap()
    .unwrap();
    assert!(c.pause);
    assert_eq!(c.size, 40);
    assert_eq!(c.delay_ms, 250);
    assert_eq!(c.app_mode, AppMode::Gui);
    assert_eq!(c.program_mode, ProgramMode::Editor);
    assert_eq!(c.level_paths, vec!["x".to_string(), "y".to_string()]);
}

#[test]
fn config_help() {
    assert_eq!(Config::new(&args(&["-h", "--bogus"])), Ok(None));
    assert_eq!(Config::new(&args(&["--help"])), Ok(None));
}

#[test]
fn config_errors() {
    assert_eq!(
        Config::new(&args(&[])),
        Err("Provide at least one level path!".to_string())
    );
    assert_eq!(
        Config::new(&args(&["-x"])),
        Err("Unrecognized option `-x`!".to_string())
    );
    assert_eq!(
        Config::new(&args(&["-l"])),
        Err("Missing value for `-l`!".to_string())
    );
    assert_eq!(
        Config::new(&args(&["-m", "web", "-l", "a"])),
        Err("Can't parse `web` as a valid display mode!".to_string())
    );
    assert_eq!(
        Config::new(&args(&["-r", "x", "-l", "a"])),
        Err("Can't parse `x` as a valid program mode!".to_string())
    );
    assert!(Config::new(&args(&["-s", "70000", "-l", "a"])).is_err());
    assert!(Config::new(&args(&["-d", "-5", "-l", "a"])).is_err());
    assert!(Config::new(&args(&["-d", "", "-l", "a"])).is_err());
}

#[test]
fn modes_from_str() {
    assert_eq!(AppMode::from_str("Cli"), Ok(AppMode::Cli));
    assert_eq!(AppMode::from_str("tui"), Ok(AppMode::Tui));
    assert_eq!(ProgramMode::from_str("B"), Ok(ProgramMode::Game));
    assert_eq!(ProgramMode::from_str("EDITOR"), Ok(ProgramMode::Editor));
    assert!(ProgramMode::from_str("edit").is_err());
}

#[test]
fn config_default() {
    let c = Config::default();
    assert_eq!(c.size, 30);
    assert!(c.level_paths.is_empty());
}
