use game_server_utils::session::{
    has_session_command, is_session_open, send_ctrl_c_command, send_input_command,
    send_newline_command, start_session_command, InMemoryBackend, SessionError,
};

fn bytes(s: &str) -> Vec<u8> {
    s.as_bytes().to_vec()
}

#[test]
fn start_session_command_text() {
    let c = start_session_command(&String::from("terraria"), &String::from("/srv/games/terraria"));
    assert_eq!(c.command, "tmux new -d -s terraria");
    assert_eq!(c.working_dir.as_deref(), Some("/srv/games/terraria"));
    assert!(c.envs.is_empty());
}

#[test]
fn has_session_command_text() {
    let c = has_session_command(&String::from("factorio"));
    assert_eq!(c.command, "tmux has-session -t factorio");
    assert!(c.working_dir.is_none());
}

#[test]
fn send_input_command_quotes_the_input() {
    let c = send_input_command(&String::from("minecraft-world1"), &String::from("/stop"));
    assert_eq!(c.command, "tmux send -t minecraft-world1 '/stop'");
}

#[test]
fn send_newline_command_text() {
    let c = send_newline_command(&String::from("csgo"));
    assert_eq!(c.command, "tmux send -t csgo ENTER");
}

#[test]
fn send_ctrl_c_command_text() {
    let c = send_ctrl_c_command(&String::from("csgo"));
    assert_eq!(c.command, "tmux send-keys -t csgo C-c");
}

#[test]
fn listing_scan_finds_full_lines_only() {
    let listing = bytes("alpha\nterraria\nbeta");
    assert!(is_session_open(&listing, &bytes("terraria")));
    assert!(is_session_open(&listing, &bytes("alpha")));
    assert!(is_session_open(&listing, &bytes("beta")));
    assert!(!is_session_open(&listing, &bytes("terra")));
    assert!(!is_session_open(&listing, &bytes("erraria")));
    assert!(!is_session_open(&listing, &bytes("gamma")));
}

#[test]
fn listing_scan_on_empty_listing() {
    assert!(!is_session_open(&Vec::new(), &bytes("terraria")));
}

#[test]
fn listing_scan_handles_a_trailing_newline() {
    let listing = bytes("alpha\nterraria\n");
    assert!(is_session_open(&listing, &bytes("terraria")));
    assert!(!is_session_open(&listing, &bytes("gamma")));
}

#[test]
fn session_stays_open_until_exited() {
    let name = String::from("minecraft");
    let mut backend = InMemoryBackend::new();
    assert!(!backend.is_session_open(&name));
    assert!(backend.start_session(&name, &String::from("/srv")).is_ok());
    assert!(backend.is_session_open(&name));
    assert!(backend.send_input_newline(&name, &String::from("/say hello")).is_ok());
    assert!(backend.is_session_open(&name));
    assert!(backend.send_ctrl_c(&name).is_ok());
    assert!(backend.is_session_open(&name));
    assert!(backend.exit_session(&name).is_ok());
    assert!(!backend.is_session_open(&name));
}

#[test]
fn send_input_logs_text_without_a_newline() {
    let name = String::from("terraria");
    let mut backend = InMemoryBackend::new();
    backend.start_session(&name, &String::from("/srv")).unwrap();
    backend.send_input(&name, &String::from("say hi")).unwrap();
    let events = backend.events();
    assert_eq!(events.len(), 1);
    match &events[0] {
        game_server_utils::session::SessionEvent::Input { session, text } => {
            assert_eq!(session, &name);
            assert_eq!(text, "say hi");
        },
        _ => panic!("send_input logs exactly the injected text"),
    }
}

#[test]
fn send_input_newline_logs_both_events() {
    let name = String::from("terraria");
    let mut backend = InMemoryBackend::new();
    backend.start_session(&name, &String::from("/srv")).unwrap();
    backend.send_input_newline(&name, &String::from("exit")).unwrap();
    let events = backend.events();
    assert_eq!(events.len(), 2);
    assert!(matches!(&events[0],
        game_server_utils::session::SessionEvent::Input { text, .. } if text == "exit"));
    assert!(matches!(&events[1],
        game_server_utils::session::SessionEvent::Newline { envs, .. } if envs.is_empty()));
}

#[test]
fn send_input_newline_with_env_carries_the_overrides() {
    let name = String::from("garrys");
    let mut backend = InMemoryBackend::new();
    backend.start_session(&name, &String::from("/srv")).unwrap();
    let envs = vec![(String::from("STEAM_WEB_API_KEY"), String::from("key"))];
    backend
        .send_input_newline_with_env(&name, &String::from("./srcds_run"), envs)
        .unwrap();
    let events = backend.events();
    assert_eq!(events.len(), 2);
    match &events[1] {
        game_server_utils::session::SessionEvent::Newline { envs, .. } => {
            assert_eq!(envs.len(), 1);
            assert_eq!(envs[0].0, "STEAM_WEB_API_KEY");
        },
        _ => panic!("the newline keystroke carries the overrides"),
    }
}

#[test]
fn guards_on_a_closed_session() {
    let name = String::from("ut");
    let backend = InMemoryBackend::new();
    assert!(!backend.is_session_open(&name));
    match backend.ensure_session_is_open(&name) {
        Err(SessionError::SessionNotOpen { session }) => assert_eq!(session, name),
        _ => panic!("a closed session must violate the is-open guard"),
    }
    assert!(backend.ensure_session_not_open(&name).is_ok());
}

#[test]
fn guards_on_an_open_session() {
    let name = String::from("ut");
    let mut backend = InMemoryBackend::new();
    backend.start_session(&name, &String::from("/srv")).unwrap();
    assert!(backend.ensure_session_is_open(&name).is_ok());
    match backend.ensure_session_not_open(&name) {
        Err(SessionError::SessionAlreadyOpen { session }) => assert_eq!(session, name),
        _ => panic!("an open session must violate the not-open guard"),
    }
}

#[test]
fn starting_a_session_twice_is_a_collision() {
    let name = String::from("cod");
    let mut backend = InMemoryBackend::new();
    assert!(backend.start_session(&name, &String::from("/srv")).is_ok());
    match backend.start_session(&name, &String::from("/srv")) {
        Err(SessionError::SessionSpawnError { session }) => assert_eq!(session, name),
        _ => panic!("a second session with the same name must collide"),
    }
}

#[test]
fn sending_to_a_closed_session_fails() {
    let name = String::from("garrys");
    let mut backend = InMemoryBackend::new();
    match backend.send_input_newline(&name, &String::from("exit")) {
        Err(SessionError::NoSuchSession { session }) => assert_eq!(session, name),
        _ => panic!("input to a closed session must fail"),
    }
    assert!(backend.events().is_empty());
}

#[test]
fn two_sessions_are_independent() {
    let a = String::from("terraria");
    let b = String::from("factorio");
    let mut backend = InMemoryBackend::new();
    backend.start_session(&a, &String::from("/srv/a")).unwrap();
    backend.start_session(&b, &String::from("/srv/b")).unwrap();
    assert!(backend.is_session_open(&a));
    assert!(backend.is_session_open(&b));
    backend.exit_session(&a).unwrap();
    assert!(!backend.is_session_open(&a));
    assert!(backend.is_session_open(&b));
}
