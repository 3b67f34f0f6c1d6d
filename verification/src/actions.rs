//! The administrative actions of the tray application, each a PowerShell script run
//! with administrator rights: saving the configuration, installing the CLI, making it
//! the OpenSSH default shell and restarting sshd.
use vstd::prelude::*;
use vstd::string::*;

verus! {

/// Where the routing configuration lives.
pub const CONFIG_PATH: &'static str = "C:\\ProgramData\\ssh\\ssh-router.json";

/// Where the routing CLI is deployed.
pub const CLI_DEPLOY_PATH: &'static str = "C:\\ProgramData\\ssh\\ssh-router-cli.exe";

/// File name (in the temp directory) of the configuration JSON waiting to be copied.
pub const CONFIG_TEMP_FILE_NAME: &'static str = "ssh-router-config-tmp.json";

/// File name of the CLI inside the application's resource directory.
pub const BUNDLED_CLI_FILE_NAME: &'static str = "ssh-router-cli.exe";

/// The script that moves the configuration file at `src` to its place, creating the
/// directory when needed.
pub open spec fn config_copy_script_text(src: Seq<char>) -> Seq<char> {
    "$src = \""@ + src
        + "\"\n$dst = \"C:\\ProgramData\\ssh\\ssh-router.json\"\nif (-not (Test-Path \"C:\\ProgramData\\ssh\")) {\n    New-Item -ItemType Directory -Path \"C:\\ProgramData\\ssh\" -Force\n}\nCopy-Item $src $dst -Force\nRemove-Item $src -Force\n"@
}

/// The script that moves the configuration file at `src` to its place.
pub fn config_copy_script(src: &str) -> (s: String)
    ensures
        s@ == config_copy_script_text(src@),
{
    let mut s = String::from_str("$src = \"");
    s.append(src);
    s.append(
        "\"\n$dst = \"C:\\ProgramData\\ssh\\ssh-router.json\"\nif (-not (Test-Path \"C:\\ProgramData\\ssh\")) {\n    New-Item -ItemType Directory -Path \"C:\\ProgramData\\ssh\" -Force\n}\nCopy-Item $src $dst -Force\nRemove-Item $src -Force\n",
    );
    s
}

/// The script that copies the CLI at `src` to its deployed place, creating the
/// directory when needed.
pub open spec fn install_cli_script_text(src: Seq<char>) -> Seq<char> {
    "$src = \""@ + src
        + "\"\n$dst = \"C:\\ProgramData\\ssh\\ssh-router-cli.exe\"\nif (-not (Test-Path \"C:\\ProgramData\\ssh\")) {\n    New-Item -ItemType Directory -Path \"C:\\ProgramData\\ssh\" -Force\n}\nCopy-Item $src $dst -Force\n"@
}

/// The script that copies the CLI at `src` to its deployed place.
pub fn install_cli_script(src: &str) -> (s: String)
    ensures
        s@ == install_cli_script_text(src@),
{
    let mut s = String::from_str("$src = \"");
    s.append(src);
    s.append(
        "\"\n$dst = \"C:\\ProgramData\\ssh\\ssh-router-cli.exe\"\nif (-not (Test-Path \"C:\\ProgramData\\ssh\")) {\n    New-Item -ItemType Directory -Path \"C:\\ProgramData\\ssh\" -Force\n}\nCopy-Item $src $dst -Force\n",
    );
    s
}

/// The script that makes the deployed CLI the OpenSSH default shell.
pub fn set_default_shell_script() -> (s: String)
    ensures
        s@
            == "Set-ItemProperty -Path \"HKLM:\\SOFTWARE\\OpenSSH\" -Name \"DefaultShell\" -Value \"C:\\ProgramData\\ssh\\ssh-router-cli.exe\"\n"@,
{
    String::from_str(
        "Set-ItemProperty -Path \"HKLM:\\SOFTWARE\\OpenSSH\" -Name \"DefaultShell\" -Value \"C:\\ProgramData\\ssh\\ssh-router-cli.exe\"\n",
    )
}

/// The script that restarts the sshd service.
pub fn restart_sshd_script() -> (s: String)
    ensures
        s@ == "Restart-Service sshd -Force\n"@,
{
    String::from_str("Restart-Service sshd -Force\n")
}

} // verus!
