use ssh_router::config::Config;
use ssh_router::routing::{
    is_sftp_command, match_route, parse_u16_decimal, port_number_of, render_template,
};

#[test]
fn test_is_sftp_command() {
    assert!(is_sftp_command("C:\\Windows\\System32\\OpenSSH\\sftp-server.exe"));
    assert!(!is_sftp_command("uname -s"));
}

#[test]
fn test_match_route_exact_port() {
    let config = Config::default_config();
    let route = match_route(&config, "2222").unwrap();
    assert_eq!(route.port, 2222);
    assert_eq!(route.name, "Git Bash");
}

#[test]
fn test_match_route_fallback_default() {
    let config = Config::default_config();
    let route = match_route(&config, "9999").unwrap();
    assert_eq!(route.port, 22);
    assert_eq!(route.name, "PowerShell");
}

#[test]
fn test_match_route_no_default_returns_none() {
    let mut config = Config::default_config();
    for route in &mut config.routes {
        route.default = false;
    }
    assert!(match_route(&config, "9999").is_none());
}

#[test]
fn test_match_route_empty_port() {
    let config = Config::default_config();
    let route = match_route(&config, "").unwrap();
    assert_eq!(route.port, 22);
}

#[test]
fn test_render_template_with_shell_only() {
    let result = render_template("\"{shell}\" -l", "pwsh.exe", None, None);
    assert_eq!(result, "\"pwsh.exe\" -l");
}

#[test]
fn test_render_template_with_tmpfile() {
    let result = render_template(
        "\"{shell}\" -File \"{tmpfile}\"",
        "pwsh.exe",
        Some("C:\\tmp\\ssh-cmd-123.ps1"),
        None,
    );
    assert_eq!(result, "\"pwsh.exe\" -File \"C:\\tmp\\ssh-cmd-123.ps1\"");
}

#[test]
fn test_render_template_with_tmpfile_wsl() {
    let result = render_template(
        "wsl.exe -- bash -c '. \"{tmpfile_wsl}\"'",
        "wsl.exe",
        None,
        Some("/mnt/c/tmp/ssh-cmd-123.sh"),
    );
    assert_eq!(result, "wsl.exe -- bash -c '. \"/mnt/c/tmp/ssh-cmd-123.sh\"'");
}

#[test]
fn test_render_template_all_placeholders() {
    let result = render_template(
        "{shell} {tmpfile} {tmpfile_wsl}",
        "bash",
        Some("C:\\f.sh"),
        Some("/mnt/c/f.sh"),
    );
    assert_eq!(result, "bash C:\\f.sh /mnt/c/f.sh");
}

#[test]
fn render_leaves_placeholders_without_value_in_place() {
    let result = render_template("{shell} {tmpfile} {tmpfile_wsl}", "sh", None, None);
    assert_eq!(result, "sh {tmpfile} {tmpfile_wsl}");
}

#[test]
fn render_replaces_every_occurrence() {
    let result = render_template("{shell}{shell} x {shell}", "a", None, None);
    assert_eq!(result, "aa x a");
}

#[test]
fn render_plain_template_is_unchanged() {
    let result = render_template("exec bash -l", "x", Some("y"), Some("z"));
    assert_eq!(result, "exec bash -l");
}

#[test]
fn render_inserted_shell_text_is_seen_by_later_placeholders() {
    let result = render_template("{shell}", "{tmpfile}", Some("T"), None);
    assert_eq!(result, "T");
}

#[test]
fn render_default_wsl_command_template() {
    let config = Config::default_config();
    let route = &config.routes[2];
    let result = render_template(
        &route.command_template,
        &route.shell,
        Some("C:\\t\\ssh-cmd-x.sh"),
        Some("/mnt/c/t/ssh-cmd-x.sh"),
    );
    assert_eq!(
        result,
        "wsl.exe -d Ubuntu -- bash -c 'cd /home/thirking && . \"/mnt/c/t/ssh-cmd-x.sh\"'"
    );
}

#[test]
fn sftp_detected_anywhere_in_command() {
    assert!(is_sftp_command("cmd /c sftp-server"));
    assert!(is_sftp_command("sftp-server"));
    assert!(!is_sftp_command("sftp-serve"));
    assert!(!is_sftp_command(""));
}

#[test]
fn parse_port_accepts_decimal_u16() {
    assert_eq!(parse_u16_decimal("2222"), Some(2222));
    assert_eq!(parse_u16_decimal("+22"), Some(22));
    assert_eq!(parse_u16_decimal("0022"), Some(22));
    assert_eq!(parse_u16_decimal("65535"), Some(65535));
    assert_eq!(parse_u16_decimal("0"), Some(0));
}

#[test]
fn parse_port_rejects_other_text() {
    assert_eq!(parse_u16_decimal(""), None);
    assert_eq!(parse_u16_decimal("+"), None);
    assert_eq!(parse_u16_decimal("-1"), None);
    assert_eq!(parse_u16_decimal("65536"), None);
    assert_eq!(parse_u16_decimal("99999999999"), None);
    assert_eq!(parse_u16_decimal("22 "), None);
    assert_eq!(parse_u16_decimal(" 22"), None);
    assert_eq!(parse_u16_decimal("2x2"), None);
    assert_eq!(parse_u16_decimal("++2"), None);
}

#[test]
fn parse_port_agrees_with_std_parse() {
    for s in ["", "+", "0", "1", "22", "+9", "65535", "65536", "-0", "7a", "00000065535", "٣"] {
        assert_eq!(parse_u16_decimal(s), s.parse::<u16>().ok(), "input {s:?}");
    }
}

#[test]
fn unparsable_port_counts_as_zero() {
    assert_eq!(port_number_of("ssh"), 0);
    assert_eq!(port_number_of("2223"), 2223);
}

#[test]
fn exact_port_wins_over_default() {
    let config = Config::default_config();
    assert_eq!(match_route(&config, "22").unwrap().name, "PowerShell");
    assert_eq!(match_route(&config, "2223").unwrap().name, "WSL Ubuntu");
    assert_eq!(match_route(&config, "+2223").unwrap().name, "WSL Ubuntu");
}

#[test]
fn first_default_is_used_when_several() {
    let mut config = Config::default_config();
    config.routes[2].default = true;
    assert_eq!(match_route(&config, "1").unwrap().port, 22);
    config.routes[0].default = false;
    assert_eq!(match_route(&config, "1").unwrap().port, 2223);
}

#[test]
fn route_with_port_zero_catches_unparsable_ports() {
    let mut config = Config::default_config();
    config.routes[1].port = 0;
    assert_eq!(match_route(&config, "not-a-port").unwrap().name, "Git Bash");
}

#[test]
fn duplicate_ports_take_the_first() {
    let mut config = Config::default_config();
    config.routes[2].port = 2222;
    assert_eq!(match_route(&config, "2222").unwrap().name, "Git Bash");
}
