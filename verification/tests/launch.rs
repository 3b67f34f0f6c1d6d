use ssh_router::launch::{is_job_handle, launch_exit_code, to_wide, unknown_error_text};

#[test]
fn wide_strings() {
    assert_eq!(to_wide(""), vec![0]);
    assert_eq!(to_wide("ab"), vec![0x61, 0x62, 0]);
    let s = "cmd 你好 😀";
    let mut expected: Vec<u16> = s.encode_utf16().collect();
    expected.push(0);
    assert_eq!(to_wide(s), expected);
}

#[test]
fn job_handles() {
    assert!(!is_job_handle(0));
    assert!(is_job_handle(42));
    assert!(is_job_handle(-1));
}

#[test]
fn exit_codes() {
    assert_eq!(launch_exit_code(false, Some(0)), 1);
    assert_eq!(launch_exit_code(true, None), 1);
    assert_eq!(launch_exit_code(true, Some(0)), 0);
    assert_eq!(launch_exit_code(true, Some(127)), 127);
}

#[test]
fn unknown_error_texts() {
    assert_eq!(unknown_error_text(0), "error 0");
    assert_eq!(unknown_error_text(1314), "error 1314");
    assert_eq!(unknown_error_text(10), "error 10");
    assert_eq!(unknown_error_text(u32::MAX), "error 4294967295");
}
