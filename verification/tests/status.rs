use ssh_router::actions::CLI_DEPLOY_PATH;
use ssh_router::status::{default_shell_state, sshd_status, SshdProbe, Status, SERVICE_RUNNING};

#[test]
fn sshd_states() {
    assert_eq!(sshd_status(&SshdProbe::Unavailable), (false, "Not installed".to_string()));
    assert_eq!(sshd_status(&SshdProbe::State(SERVICE_RUNNING)), (true, "Running".to_string()));
    assert_eq!(sshd_status(&SshdProbe::State(1)), (false, "Stopped".to_string()));
}

#[test]
fn default_shell_detection() {
    assert_eq!(default_shell_state(None), (String::new(), false));
    assert_eq!(
        default_shell_state(Some("C:\\ProgramData\\ssh\\ssh-router-cli.exe\0")),
        (CLI_DEPLOY_PATH.to_string(), true)
    );
    assert_eq!(
        default_shell_state(Some("c:\\programdata\\SSH\\SSH-ROUTER-CLI.EXE")),
        ("c:\\programdata\\SSH\\SSH-ROUTER-CLI.EXE".to_string(), true)
    );
    assert_eq!(
        default_shell_state(Some("C:\\Windows\\System32\\cmd.exe\0\0")),
        ("C:\\Windows\\System32\\cmd.exe".to_string(), false)
    );
}

#[test]
fn status_from_probes() {
    let s = Status::from_probes(true, Some(CLI_DEPLOY_PATH), false, &SshdProbe::State(SERVICE_RUNNING));
    assert!(s.cli_deployed);
    assert_eq!(s.cli_path, CLI_DEPLOY_PATH);
    assert!(s.default_shell_set);
    assert_eq!(s.default_shell_value, CLI_DEPLOY_PATH);
    assert!(!s.config_exists);
    assert!(s.sshd_running);
    assert_eq!(s.sshd_status, "Running");
}
