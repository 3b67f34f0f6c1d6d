use ssh_router::config::Config;

#[test]
fn test_default_config_has_three_routes() {
    let config = Config::default_config();
    assert_eq!(config.routes.len(), 3);
}

#[test]
fn test_default_config_has_exactly_one_default() {
    let config = Config::default_config();
    let defaults: Vec<_> = config.routes.iter().filter(|r| r.default).collect();
    assert_eq!(defaults.len(), 1);
    assert_eq!(defaults[0].port, 22);
}

#[test]
fn default_config_field_values() {
    let c = Config::default_config();
    assert_eq!(c.routes[0].shell, "C:\\Program Files\\PowerShell\\7\\pwsh.exe");
    assert_eq!(c.routes[0].command_template, "\"{shell}\" -File \"{tmpfile}\"");
    assert_eq!(c.routes[0].tmp_file_ext, ".ps1");
    assert_eq!(c.routes[1].port, 2222);
    assert_eq!(c.routes[1].command_template, "\"{shell}\" -l -c '. \"{tmpfile}\"'");
    assert_eq!(c.routes[2].port, 2223);
    assert_eq!(c.routes[2].shell, "wsl.exe");
    assert_eq!(
        c.routes[2].interactive_template,
        "wsl.exe -d Ubuntu -- bash -lc 'cd /home/thirking && exec bash -l'"
    );
    assert_eq!(
        c.sftp_command,
        "cmd.exe /c \"C:\\Windows\\System32\\OpenSSH\\sftp-server.exe\""
    );
}

#[test]
fn default_config_can_be_saved() {
    let c = Config::default_config();
    assert_eq!(c.count_defaults(), 1);
    assert!(c.validate_single_default().is_ok());
}

#[test]
fn config_without_default_is_refused() {
    let mut c = Config::default_config();
    c.routes[0].default = false;
    assert_eq!(
        c.validate_single_default().unwrap_err(),
        "必须恰好有一条默认路由，当前有 0 条"
    );
}

#[test]
fn config_with_two_defaults_is_refused() {
    let mut c = Config::default_config();
    c.routes[1].default = true;
    assert_eq!(
        c.validate_single_default().unwrap_err(),
        "必须恰好有一条默认路由，当前有 2 条"
    );
}

#[test]
fn empty_config_is_refused() {
    let mut c = Config::default_config();
    c.routes.clear();
    assert_eq!(c.count_defaults(), 0);
    assert!(c.validate_single_default().is_err());
}
