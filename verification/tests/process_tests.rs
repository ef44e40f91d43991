use game_server_utils::decimal::{padded_decimal, u64_to_string};
use game_server_utils::process::{Cmd, CmdError, CmdOutput, OutputMode};

fn finished(exit_code: Option<i32>) -> CmdOutput {
    CmdOutput { exit_code, stdout: Vec::new(), stderr: Vec::new() }
}

#[test]
fn cmd_new_has_piped_defaults() {
    let c = Cmd::new(String::from("echo hi"));
    assert_eq!(c.command, "echo hi");
    assert!(c.working_dir.is_none());
    assert!(c.envs.is_empty());
    assert!(matches!(c.output_mode, OutputMode::Piped));
}

#[test]
fn cmd_builders_set_their_fields() {
    let c = Cmd::new(String::from("steamcmd +quit"))
        .cwd(String::from("/srv/games"))
        .env(String::from("KEY"), String::from("value"))
        .env(String::from("OTHER"), String::from("second"))
        .io_passthrough();
    assert_eq!(c.command, "steamcmd +quit");
    assert_eq!(c.working_dir.as_deref(), Some("/srv/games"));
    assert_eq!(c.envs.len(), 2);
    assert_eq!(c.envs[0].0, "KEY");
    assert_eq!(c.envs[0].1, "value");
    assert_eq!(c.envs[1].0, "OTHER");
    assert!(matches!(c.output_mode, OutputMode::Inherited));
}

#[test]
fn run_success_passes_zero_exit_through() {
    let c = Cmd::new(String::from("true"));
    let out = CmdOutput { exit_code: Some(0), stdout: b"hello".to_vec(), stderr: Vec::new() };
    let r = c.run_success(out);
    match r {
        Ok(out) => {
            assert_eq!(out.exit_code, Some(0));
            assert_eq!(out.stdout, b"hello".to_vec());
        },
        Err(_) => panic!("zero exit must pass through"),
    }
}

#[test]
fn run_success_reports_nonzero_exit_with_command_and_status() {
    let c = Cmd::new(String::from("tmux has-session -t minecraft"));
    let r = c.run_success(finished(Some(3)));
    match r {
        Err(e) => {
            match &e {
                CmdError::NonZeroExit { command, exit_code } => {
                    assert_eq!(command, "tmux has-session -t minecraft");
                    assert_eq!(*exit_code, Some(3));
                },
                _ => panic!("expected NonZeroExit"),
            }
            let msg = e.message();
            assert!(msg.contains("tmux has-session -t minecraft"));
            assert!(msg.contains("3"));
        },
        Ok(_) => panic!("non-zero exit must fail"),
    }
}

#[test]
fn run_success_reports_signal_termination() {
    let c = Cmd::new(String::from("sleep 100"));
    let r = c.run_success(finished(None));
    let e = r.err().expect("signal termination must fail");
    let msg = e.message();
    assert!(msg.contains("sleep 100"));
    assert!(msg.contains("terminated by signal"));
}

#[test]
fn message_renders_negative_exit_codes() {
    let e = CmdError::NonZeroExit { command: String::from("cmd"), exit_code: Some(-7) };
    assert!(e.message().contains("-7"));
}

#[test]
fn spawn_failure_message_names_the_command() {
    let e = CmdError::SpawnFailed { command: String::from("nonexistent-binary --flag") };
    assert!(e.message().contains("nonexistent-binary --flag"));
}

#[test]
fn u64_to_string_renders_decimals() {
    assert_eq!(u64_to_string(0), "0");
    assert_eq!(u64_to_string(42), "42");
    assert_eq!(u64_to_string(10), "10");
    assert_eq!(u64_to_string(18446744073709551615), "18446744073709551615");
}

#[test]
fn padded_decimal_pads_with_zeros() {
    assert_eq!(padded_decimal(7, 2), "07");
    assert_eq!(padded_decimal(123, 2), "123");
    assert_eq!(padded_decimal(0, 4), "0000");
    assert_eq!(padded_decimal(2024, 4), "2024");
}
