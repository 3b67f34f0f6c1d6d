use ssh_router::elevate::{
    extract_json_value, interpret_elevated_result, poll_step, runas_parameters,
    shell_execute_outcome, with_utf8_bom, wrapper_script, PollStep, RESULT_TIMEOUT_MS,
    TIMEOUT_MESSAGE,
};

#[test]
fn test_extract_json_value_string() {
    let json = r#"{"success": true, "message": "操作成功"}"#;
    assert_eq!(extract_json_value(json, "message"), Some("操作成功".to_string()));
}

#[test]
fn test_extract_json_value_boolean() {
    let json = r#"{"success": true, "message": "ok"}"#;
    assert_eq!(extract_json_value(json, "success"), Some("true".to_string()));
}

#[test]
fn test_extract_json_value_missing() {
    let json = r#"{"success": true}"#;
    assert_eq!(extract_json_value(json, "message"), None);
}

#[test]
fn test_extract_json_value_with_spaces() {
    let json = r#"{"success":  true,  "message":  "done"}"#;
    assert_eq!(extract_json_value(json, "message"), Some("done".to_string()));
}

#[test]
fn extract_value_edge_cases() {
    // A value without a closing quote or delimiter is not found.
    assert_eq!(extract_json_value(r#"{"message": "open"#, "message"), None);
    assert_eq!(extract_json_value(r#"{"n": 12"#, "n"), None);
    // Numbers end at the closing brace.
    assert_eq!(extract_json_value(r#"{"n":12}"#, "n"), Some("12".to_string()));
    // Multi-line output of ConvertTo-Json.
    let json = "{\r\n    \"message\":  \"OK\",\r\n    \"success\":  true\r\n}";
    assert_eq!(extract_json_value(json, "message"), Some("OK".to_string()));
    assert_eq!(extract_json_value(json, "success"), Some("true".to_string()));
    // The first occurrence of the key is used.
    assert_eq!(extract_json_value(r#"{"k": "a", "k": "b"}"#, "k"), Some("a".to_string()));
    // An empty string value.
    assert_eq!(extract_json_value(r#"{"k": ""}"#, "k"), Some(String::new()));
}

#[test]
fn string_value_is_read_back() {
    for (key, value) in [("message", "done"), ("k", ""), ("名字", "值 with spaces")] {
        let json = format!("{{\"{key}\": \"{value}\"}}");
        assert_eq!(extract_json_value(&json, key), Some(value.to_string()));
    }
}

#[test]
fn elevated_success_result() {
    let content = "\u{feff}{\r\n    \"message\":  \"OK\",\r\n    \"success\":  true\r\n}\r\n";
    assert_eq!(interpret_elevated_result(content), Ok("OK".to_string()));
    let content = "\u{feff}{\"message\":  \"OK\", \"success\":  true}";
    assert_eq!(interpret_elevated_result(content), Ok("OK".to_string()));
    let content = "{\"success\":\t\r\n true, \"message\": \"tabs\"}";
    assert_eq!(interpret_elevated_result(content), Ok("tabs".to_string()));
    let content = "\u{feff}{\"success\": true, \"message\": \"OK\"}\n";
    assert_eq!(interpret_elevated_result(content), Ok("OK".to_string()));
    let content = "{\"success\":true,\"message\":\"done\"}";
    assert_eq!(interpret_elevated_result(content), Ok("done".to_string()));
}

#[test]
fn elevated_failure_result() {
    let content = "{\"success\": false, \"message\": \"Access denied\"}";
    assert_eq!(interpret_elevated_result(content), Err("Access denied".to_string()));
}

#[test]
fn elevated_failure_with_two_spaces() {
    let content = "\u{feff}{\r\n    \"message\":  \"Access denied\",\r\n    \"success\":  false\r\n}";
    assert_eq!(interpret_elevated_result(content), Err("Access denied".to_string()));
}

#[test]
fn timeout_message_says_action_may_still_run() {
    assert_eq!(TIMEOUT_MESSAGE, "操作可能仍在进行中，请检查状态");
}

#[test]
fn elevated_result_without_message() {
    assert_eq!(interpret_elevated_result("{\"success\": true}"), Ok("未知结果".to_string()));
    assert_eq!(interpret_elevated_result(""), Err("未知结果".to_string()));
}

#[test]
fn poll_decisions() {
    assert!(matches!(poll_step(true, 0), PollStep::ResultReady));
    assert!(matches!(poll_step(true, 100_000), PollStep::ResultReady));
    assert!(matches!(poll_step(false, 0), PollStep::Wait));
    assert!(matches!(poll_step(false, RESULT_TIMEOUT_MS - 1), PollStep::Wait));
    assert!(matches!(poll_step(false, RESULT_TIMEOUT_MS), PollStep::TimedOut));
}

#[test]
fn shell_execute_codes() {
    assert!(shell_execute_outcome(33).is_ok());
    assert_eq!(
        shell_execute_outcome(5).unwrap_err(),
        "ShellExecuteW failed, error code: 5"
    );
    assert_eq!(
        shell_execute_outcome(32).unwrap_err(),
        "ShellExecuteW failed, error code: 32"
    );
}

#[test]
fn wrapper_script_text() {
    let s = wrapper_script("C:\\T\\a.ps1", "C:\\T\\r.json");
    let expected = r#"$ErrorActionPreference = "Stop"
try {
    & "C:\T\a.ps1"
    $result = @{ success = $true; message = "OK" } | ConvertTo-Json
} catch {
    $result = @{ success = $false; message = $_.Exception.Message } | ConvertTo-Json
}
$result | Out-File -FilePath "C:\T\r.json" -Encoding UTF8
"#;
    assert_eq!(s, expected);
}

#[test]
fn runas_parameters_text() {
    assert_eq!(
        runas_parameters("C:\\T\\w.ps1"),
        "-ExecutionPolicy Bypass -NoProfile -WindowStyle Hidden -File \"C:\\T\\w.ps1\""
    );
}

#[test]
fn bom_prefixed_bytes() {
    assert_eq!(with_utf8_bom(""), vec![0xEF, 0xBB, 0xBF]);
    let mut expected = vec![0xEF, 0xBB, 0xBF];
    expected.extend_from_slice("Write-Host 你好".as_bytes());
    assert_eq!(with_utf8_bom("Write-Host 你好"), expected);
}
