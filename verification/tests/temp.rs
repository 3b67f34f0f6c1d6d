use ssh_router::temp::{
    after_create_attempt, is_temp_script, script_file_name, script_file_name_from_random,
    should_remove_entry, CreateOutcome, CreateStep, CREATE_ATTEMPTS, STALE_AFTER_NANOS,
};

const HOUR_NANOS: u128 = 60 * 60 * 1_000_000_000;

#[test]
fn script_names_have_prefix_uuid_and_extension() {
    let random = *uuid::Uuid::new_v4().as_bytes();
    let name = script_file_name_from_random(random, ".sh");
    let guid = name.strip_prefix("ssh-cmd-").unwrap().strip_suffix(".sh").unwrap();
    let parsed = uuid::Uuid::parse_str(guid).expect("temp script name should contain a GUID");
    assert_eq!(parsed.get_version_num(), 4);
    assert_eq!(guid, parsed.hyphenated().to_string());
}

#[test]
fn script_name_from_zero_bytes_sets_version_and_variant() {
    assert_eq!(
        script_file_name_from_random([0u8; 16], ".sh"),
        "ssh-cmd-00000000-0000-4000-8000-000000000000.sh"
    );
}

#[test]
fn script_name_from_all_ones_clears_version_and_variant_bits() {
    assert_eq!(
        script_file_name_from_random([0xffu8; 16], ".ps1"),
        "ssh-cmd-ffffffff-ffff-4fff-bfff-ffffffffffff.ps1"
    );
}

#[test]
fn script_name_spells_the_bytes_in_order() {
    let bytes = [
        0x01, 0x23, 0x45, 0x67, 0x89, 0xab, 0xcd, 0xef, 0x01, 0x23, 0x45, 0x67, 0x89, 0xab, 0xcd,
        0xef,
    ];
    assert_eq!(
        script_file_name_from_random(bytes, ".sh"),
        "ssh-cmd-01234567-89ab-4def-8123-456789abcdef.sh"
    );
}

#[test]
fn fresh_script_names_differ() {
    let a = script_file_name_from_random(*uuid::Uuid::new_v4().as_bytes(), ".ps1");
    let b = script_file_name_from_random(*uuid::Uuid::new_v4().as_bytes(), ".ps1");
    assert_ne!(a, b);
    assert!(is_temp_script(&a) && is_temp_script(&b));
}

#[test]
fn script_file_name_composition() {
    assert_eq!(script_file_name("u", ".sh"), "ssh-cmd-u.sh");
}

#[test]
fn temp_script_name_recognition() {
    assert!(is_temp_script("ssh-cmd-expired.sh"));
    assert!(is_temp_script("ssh-cmd-fresh.ps1"));
    assert!(is_temp_script("ssh-cmd-.sh"));
    assert!(!is_temp_script("other-file.sh"));
    assert!(!is_temp_script("ssh-cmd-x.txt"));
    assert!(!is_temp_script("ssh-cmd-"));
    assert!(!is_temp_script("keep.sh"));
}

#[test]
fn cleanup_removes_only_expired_scripts() {
    let stale = 24 * HOUR_NANOS;
    assert_eq!(STALE_AFTER_NANOS, stale);
    assert!(should_remove_entry("ssh-cmd-expired.sh", Some(true), Some(25 * HOUR_NANOS), stale));
    assert!(!should_remove_entry("other-file.sh", Some(true), Some(25 * HOUR_NANOS), stale));
    assert!(!should_remove_entry("ssh-cmd-fresh.ps1", Some(true), Some(23 * HOUR_NANOS), stale));
    assert!(!should_remove_entry("ssh-cmd-edge.ps1", Some(true), Some(stale), stale));
}

#[test]
fn cleanup_skips_unreadable_or_non_files() {
    let stale = STALE_AFTER_NANOS;
    let old = stale * 2;
    assert!(!should_remove_entry("ssh-cmd-dir.sh", Some(false), Some(old), stale));
    assert!(!should_remove_entry("ssh-cmd-x.sh", None, Some(old), stale));
    assert!(!should_remove_entry("ssh-cmd-x.sh", Some(true), None, stale));
}

#[test]
fn create_retries_only_taken_names_and_only_so_often() {
    assert!(matches!(after_create_attempt(1, CreateOutcome::Created), CreateStep::Done));
    assert!(matches!(after_create_attempt(1, CreateOutcome::Failed), CreateStep::Fail));
    assert!(matches!(after_create_attempt(1, CreateOutcome::AlreadyExists), CreateStep::TryAgain));
    assert!(matches!(
        after_create_attempt(CREATE_ATTEMPTS - 1, CreateOutcome::AlreadyExists),
        CreateStep::TryAgain
    ));
    assert!(matches!(
        after_create_attempt(CREATE_ATTEMPTS, CreateOutcome::AlreadyExists),
        CreateStep::GiveUp
    ));
}
