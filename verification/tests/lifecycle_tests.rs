use game_server_utils::backup::Timestamp;
use game_server_utils::lifecycle::{
    run_steps, BackupPlan, BackupSource, GamePlan, GameServer, LifecycleError, StopSignal, Step,
};
use game_server_utils::process::Cmd;
use game_server_utils::session::{InMemoryBackend, SessionEvent};

fn bytes(s: &str) -> Vec<u8> {
    s.as_bytes().to_vec()
}

fn stamp() -> Timestamp {
    Timestamp { year: 2024, month: 3, day: 7, hour: 9, minute: 5 }
}

fn factorio_like_plan() -> GamePlan {
    GamePlan {
        session_name: String::from("factorio"),
        game_dir: String::from("/srv/games/factorio"),
        deploys: vec![game_server_utils::lifecycle::DeploySpec {
            source: String::from("/templates/factorio-server-settings.json"),
            dest: String::from("/srv/games/factorio/config/custom-server-config.json"),
            secrets: vec![(bytes("password"), bytes("hunter2"))],
        }],
        launch_input: String::from("/srv/games/factorio/bin/x64/factorio --start-server-load-latest"),
        launch_envs: Vec::new(),
        stop_signal: StopSignal::CtrlC,
        settle_seconds: 5,
        backup_on_shutdown: true,
        backup: Some(BackupPlan {
            source: BackupSource::FixedFile {
                path: String::from("/srv/games/factorio/saves/world.zip"),
                extension: String::from("zip"),
            },
            target_dir: String::from("/var/lib/backup/factorio"),
            save_name: String::from("factorio"),
            save_command: None,
            save_wait_seconds: 0,
        }),
        update_command: Some(Cmd::new(String::from("steamcmd +app_update 12345 +quit"))),
        update_settle_seconds: 10,
    }
}

fn deploy_template(backend: &mut InMemoryBackend) {
    backend.write_file(
        &String::from("/templates/factorio-server-settings.json"),
        bytes("{ \"game_password\": \"{{ password }}\" }"),
    );
    backend.write_file(&String::from("/srv/games/factorio/saves/world.zip"), bytes("savedata"));
}

fn launch_inputs(backend: &InMemoryBackend, launch: &str) -> usize {
    backend
        .events()
        .iter()
        .filter(|e| match e {
            SessionEvent::Input { text, .. } => text == launch,
            _ => false,
        })
        .count()
}

#[test]
fn startup_deploys_opens_and_launches_once() {
    let server = GameServer { plan: factorio_like_plan() };
    let name = server.session_name();
    let mut backend = InMemoryBackend::new();
    deploy_template(&mut backend);

    let steps = server.startup(backend.is_session_open(&name)).expect("closed session starts");
    assert!(run_steps(&mut backend, &steps).is_ok());

    assert!(backend.is_session_open(&name));
    let deployed = backend
        .read_file(&String::from("/srv/games/factorio/config/custom-server-config.json"))
        .expect("config deployed");
    assert_eq!(deployed, &bytes("{ \"game_password\": \"hunter2\" }"));
    assert_eq!(launch_inputs(&backend, &server.plan.launch_input), 1);
}

#[test]
fn startup_on_an_open_session_aborts_before_deploying() {
    let server = GameServer { plan: factorio_like_plan() };
    let name = server.session_name();
    let mut backend = InMemoryBackend::new();
    deploy_template(&mut backend);
    let steps = server.startup(backend.is_session_open(&name)).unwrap();
    run_steps(&mut backend, &steps).unwrap();
    let events_before = backend.events().len();

    // the session is now open: a second startup is refused up front
    match server.startup(backend.is_session_open(&name)) {
        Err(LifecycleError::SessionAlreadyOpen { session }) => assert_eq!(session, name),
        _ => panic!("startup on an open session must be refused"),
    }
    // nothing was deployed or injected by the refused call
    assert_eq!(backend.events().len(), events_before);
    assert_eq!(launch_inputs(&backend, &server.plan.launch_input), 1);
}

#[test]
fn shutdown_signals_waits_backs_up_and_exits() {
    let server = GameServer { plan: factorio_like_plan() };
    let name = server.session_name();
    let mut backend = InMemoryBackend::new();
    deploy_template(&mut backend);
    let steps = server.startup(backend.is_session_open(&name)).unwrap();
    run_steps(&mut backend, &steps).unwrap();
    let events_before = backend.events().len();

    let steps = server
        .shutdown(backend.is_session_open(&name), &stamp(), &None)
        .expect("open session shuts down");
    assert!(run_steps(&mut backend, &steps).is_ok());

    // stop signal first
    assert!(matches!(
        &backend.events()[events_before],
        SessionEvent::Interrupt { session } if session == &name
    ));
    // the configured settle delay was waited
    assert_eq!(backend.sleeps(), &vec![5]);
    // the save was backed up under the stamped name
    let backup = backend
        .read_file(&String::from("/var/lib/backup/factorio/factorio_2024-03-07_09-05.zip"))
        .expect("backup written");
    assert_eq!(backup, &bytes("savedata"));
    // the exit closed the session
    assert!(!backend.is_session_open(&name));
    match backend.events().last() {
        Some(SessionEvent::Newline { session, .. }) => assert_eq!(session, &name),
        _ => panic!("the exit ends with a newline"),
    }
}

#[test]
fn shutdown_on_a_closed_session_is_refused() {
    let server = GameServer { plan: factorio_like_plan() };
    let name = server.session_name();
    let backend = InMemoryBackend::new();
    match server.shutdown(backend.is_session_open(&name), &stamp(), &None) {
        Err(LifecycleError::SessionNotOpen { session }) => assert_eq!(session, name),
        _ => panic!("shutdown on a closed session must be refused"),
    }
}

#[test]
fn update_on_a_closed_session_skips_the_shutdown() {
    let server = GameServer { plan: factorio_like_plan() };
    let name = server.session_name();
    let mut backend = InMemoryBackend::new();
    deploy_template(&mut backend);

    let steps = server
        .update(backend.is_session_open(&name), &stamp(), &None)
        .expect("update is supported");
    // the internal shutdown is skipped: the update client runs first
    assert!(matches!(&steps[0], Step::RunCommand { .. }));
    assert!(run_steps(&mut backend, &steps).is_ok());

    // the update client ran, and startup relaunched the server
    assert_eq!(backend.commands().len(), 1);
    assert_eq!(backend.commands()[0].command, "steamcmd +app_update 12345 +quit");
    assert!(backend.is_session_open(&name));
    assert_eq!(launch_inputs(&backend, &server.plan.launch_input), 1);
}

#[test]
fn update_on_an_open_session_shuts_down_first() {
    let server = GameServer { plan: factorio_like_plan() };
    let name = server.session_name();
    let mut backend = InMemoryBackend::new();
    deploy_template(&mut backend);
    let steps = server.startup(backend.is_session_open(&name)).unwrap();
    run_steps(&mut backend, &steps).unwrap();

    let steps = server
        .update(backend.is_session_open(&name), &stamp(), &None)
        .expect("update is supported");
    assert!(matches!(&steps[0], Step::SendCtrlC { .. }));
    assert!(run_steps(&mut backend, &steps).is_ok());

    // settle after the stop, then the update settle delay
    assert_eq!(backend.sleeps(), &vec![5, 10]);
    assert_eq!(backend.commands().len(), 1);
    assert!(backend.is_session_open(&name));
}

#[test]
fn backup_without_the_capability_is_not_implemented() {
    let mut plan = factorio_like_plan();
    plan.backup = None;
    let server = GameServer { plan };
    match server.backup(false, &stamp(), &None) {
        Err(LifecycleError::NotImplemented { operation, session }) => {
            assert_eq!(operation, "backup");
            assert_eq!(session, "factorio");
        },
        _ => panic!("backup without a plan must be NotImplemented"),
    }
}

#[test]
fn update_without_the_capability_is_not_implemented() {
    let mut plan = factorio_like_plan();
    plan.update_command = None;
    let server = GameServer { plan };
    match server.update(false, &stamp(), &None) {
        Err(LifecycleError::NotImplemented { operation, session }) => {
            assert_eq!(operation, "update");
            assert_eq!(session, "factorio");
        },
        _ => panic!("update without a command must be NotImplemented"),
    }
}

#[test]
fn backup_flushes_the_save_when_the_session_is_open() {
    let mut plan = factorio_like_plan();
    plan.backup = Some(BackupPlan {
        source: BackupSource::FixedFile {
            path: String::from("/worlds/Atlantis.wld"),
            extension: String::from("wld"),
        },
        target_dir: String::from("/var/lib/backup/terraria"),
        save_name: String::from("Atlantis"),
        save_command: Some(String::from("save")),
        save_wait_seconds: 5,
    });
    let server = GameServer { plan };
    let steps = server.backup(true, &stamp(), &None).unwrap();
    assert!(matches!(&steps[0], Step::SendInput { input, .. } if input == "save"));
    assert!(matches!(&steps[1], Step::Sleep { seconds: 5 }));
    assert!(matches!(&steps[2], Step::RemoveFile { .. }));
    assert!(
        matches!(&steps[3], Step::CopyFile { source, dest }
            if source == "/worlds/Atlantis.wld"
            && dest == "/var/lib/backup/terraria/Atlantis_2024-03-07_09-05.wld")
    );

    // with the session closed, the flush is skipped
    let steps = server.backup(false, &stamp(), &None).unwrap();
    assert!(matches!(&steps[0], Step::RemoveFile { .. }));
    assert_eq!(steps.len(), 2);
}

#[test]
fn newest_file_backup_without_a_save_archives_nothing() {
    let mut plan = factorio_like_plan();
    plan.backup = Some(BackupPlan {
        source: BackupSource::NewestFile {
            directory: String::from("/srv/games/factorio/saves"),
            extension: String::from("zip"),
        },
        target_dir: String::from("/var/lib/backup/factorio"),
        save_name: String::from("factorio"),
        save_command: None,
        save_wait_seconds: 0,
    });
    let server = GameServer { plan };
    let steps = server.backup(false, &stamp(), &None).unwrap();
    assert!(steps.is_empty());

    let steps = server
        .backup(false, &stamp(), &Some(String::from("/srv/games/factorio/saves/latest.zip")))
        .unwrap();
    assert_eq!(steps.len(), 2);
    assert!(matches!(&steps[1], Step::CopyFile { source, .. }
        if source == "/srv/games/factorio/saves/latest.zip"));
}

#[test]
fn a_missing_template_stops_the_startup_steps() {
    let server = GameServer { plan: factorio_like_plan() };
    let name = server.session_name();
    let mut backend = InMemoryBackend::new();
    // the template was never written: the deploy step fails first
    let steps = server.startup(backend.is_session_open(&name)).expect("closed session starts");
    assert!(run_steps(&mut backend, &steps).is_err());
    // the failure stopped the sequence before the session was created
    assert!(!backend.is_session_open(&name));
    assert!(backend.events().is_empty());
}

#[test]
fn directory_backup_archives_with_tar() {
    let mut plan = factorio_like_plan();
    plan.session_name = String::from("minecraft-world1");
    plan.backup = Some(BackupPlan {
        source: BackupSource::Directory { path: String::from("/srv/games/minecraft/world1") },
        target_dir: String::from("/var/lib/backup/minecraft/world1"),
        save_name: String::from("minecraft-world1"),
        save_command: Some(String::from("/save-all flush")),
        save_wait_seconds: 60,
    });
    let server = GameServer { plan };
    let steps = server.backup(false, &stamp(), &None).unwrap();
    assert_eq!(steps.len(), 2);
    match &steps[1] {
        Step::RunCommand { command } => {
            assert_eq!(
                command.command,
                "tar -I zstd -cvf /var/lib/backup/minecraft/world1/minecraft-world1_2024-03-07_09-05.tar.zst /srv/games/minecraft/world1"
            );
        },
        _ => panic!("a directory backup runs tar"),
    }
}
