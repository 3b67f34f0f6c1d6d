use ssh_router::wsl::to_wsl_path;

#[test]
fn test_drive_letter_path() {
    assert_eq!(to_wsl_path(r"C:\Users\test"), "/mnt/c/Users/test");
}

#[test]
fn test_lowercase_drive() {
    assert_eq!(to_wsl_path(r"D:\foo\bar"), "/mnt/d/foo/bar");
}

#[test]
fn test_no_drive_letter() {
    assert_eq!(to_wsl_path(r"foo\bar\baz"), "foo/bar/baz");
}

#[test]
fn test_already_slash() {
    assert_eq!(to_wsl_path(r"C:/Users/test"), "/mnt/c/Users/test");
}

#[test]
fn wsl_path_edge_cases() {
    assert_eq!(to_wsl_path(""), "");
    assert_eq!(to_wsl_path("C:"), "/mnt/c");
    assert_eq!(to_wsl_path("c:\\"), "/mnt/c/");
    assert_eq!(to_wsl_path("é:\\x"), "é:/x");
    assert_eq!(to_wsl_path("1:\\x"), "/mnt/1/x");
    assert_eq!(to_wsl_path("\\\\server\\share"), "//server/share");
}

#[test]
fn wsl_path_backslash_drive_keeps_its_backslash() {
    assert_eq!(to_wsl_path("\\:a\\b"), "/mnt/\\a/b");
}

#[test]
fn wsl_path_of_default_temp_dir() {
    assert_eq!(
        to_wsl_path("C:\\Users\\me\\AppData\\Local\\Temp\\ssh-cmd-1.sh"),
        "/mnt/c/Users/me/AppData/Local/Temp/ssh-cmd-1.sh"
    );
}

#[test]
fn wsl_path_of_a_wsl_path_is_unchanged() {
    for w in ["C:\\Users\\x\\f.sh", "relative\\dir", "/mnt/c/tmp", "D:"] {
        let once = to_wsl_path(w);
        assert_eq!(to_wsl_path(&once), once);
    }
}
