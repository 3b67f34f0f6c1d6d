use ssh_router::actions::{
    config_copy_script, install_cli_script, restart_sshd_script, set_default_shell_script,
};

#[test]
fn config_copy_script_text() {
    let expected = r#"$src = "C:\T\ssh-router-config-tmp.json"
$dst = "C:\ProgramData\ssh\ssh-router.json"
if (-not (Test-Path "C:\ProgramData\ssh")) {
    New-Item -ItemType Directory -Path "C:\ProgramData\ssh" -Force
}
Copy-Item $src $dst -Force
Remove-Item $src -Force
"#;
    assert_eq!(config_copy_script("C:\\T\\ssh-router-config-tmp.json"), expected);
}

#[test]
fn install_cli_script_text() {
    let expected = r#"$src = "C:\App\ssh-router-cli.exe"
$dst = "C:\ProgramData\ssh\ssh-router-cli.exe"
if (-not (Test-Path "C:\ProgramData\ssh")) {
    New-Item -ItemType Directory -Path "C:\ProgramData\ssh" -Force
}
Copy-Item $src $dst -Force
"#;
    assert_eq!(install_cli_script("C:\\App\\ssh-router-cli.exe"), expected);
}

#[test]
fn fixed_action_scripts() {
    assert_eq!(
        set_default_shell_script(),
        "Set-ItemProperty -Path \"HKLM:\\SOFTWARE\\OpenSSH\" -Name \"DefaultShell\" -Value \"C:\\ProgramData\\ssh\\ssh-router-cli.exe\"\n"
    );
    assert_eq!(restart_sshd_script(), "Restart-Service sshd -Force\n");
}
