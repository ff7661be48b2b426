use shelly::handler::{command_name, find_handler, handler_search, HandlerChoice, LocateError};

#[test]
fn command_name_takes_first_token() {
    assert_eq!(command_name("cargo build"), Some("cargo".to_string()));
    assert_eq!(command_name("  ls  -la "), Some("ls".to_string()));
    assert_eq!(command_name("echo"), Some("echo".to_string()));
    assert_eq!(command_name(""), None);
    assert_eq!(command_name("   "), None);
}

#[test]
fn search_builds_overlay_paths() {
    let s = handler_search("cargo build", Some("/home/u"), "/tmp").unwrap();
    assert_eq!(s.cmd_name, "cargo");
    assert_eq!(s.home_path, Some("/home/u/.shelly/cargo.ts".to_string()));
    assert_eq!(s.cwd_path, ".shelly/cargo.ts");
    assert!(s.builtin);
    assert_eq!(s.builtin_path, "/tmp/cargo.ts");

    let s = handler_search("npm install", None, "/tmp").unwrap();
    assert_eq!(s.home_path, None);
    assert!(!s.builtin);
}

#[test]
fn empty_command_is_an_error() {
    assert_eq!(handler_search("  ", Some("/home/u"), "/tmp").unwrap_err(),
        LocateError::EmptyCommand);
    assert!(find_handler("", None, "/tmp", false, false).is_err());
    assert_eq!(LocateError::EmptyCommand.message(), "Empty command");
}

#[test]
fn home_overlay_wins_over_everything() {
    let choice = find_handler("cargo build", Some("/home/u"), "/tmp", true, true).unwrap();
    assert_eq!(choice, Some(HandlerChoice::Existing {
        path: "/home/u/.shelly/cargo.ts".to_string(),
    }));
}

#[test]
fn cwd_overlay_wins_over_builtin() {
    let choice = find_handler("cargo build", Some("/home/u"), "/tmp", false, true).unwrap();
    assert_eq!(choice, Some(HandlerChoice::Existing { path: ".shelly/cargo.ts".to_string() }));
}

#[test]
fn builtin_answers_when_no_overlay_exists() {
    let choice = find_handler("cargo build", Some("/home/u"), "/tmp", false, false).unwrap();
    assert_eq!(choice, Some(HandlerChoice::Builtin { path: "/tmp/cargo.ts".to_string() }));
}

#[test]
fn unknown_command_without_overlays_has_no_handler() {
    let choice = find_handler("npm install", Some("/home/u"), "/tmp", false, false).unwrap();
    assert_eq!(choice, None);
}
