use agentbox::mounts::infra::{
    find_target_mount, is_expected_bind_mount_in, mount_privilege_status, parse_mount_privileges,
    parse_mount_table, parse_mountinfo_line, unescape_mount_field, MountEntry, MountPrivilegeStatus,
};
use agentbox::shared::error::{Error, InfraMountError};

fn unescape(raw: &str) -> Vec<u8> {
    unescape_mount_field(raw).unwrap()
}

#[test]
fn unescape_normal_text() {
    assert_eq!(String::from_utf8(unescape("hello")).unwrap(), "hello");
}

#[test]
fn unescape_space_octal() {
    assert_eq!(String::from_utf8(unescape("hello\\040world")).unwrap(), "hello world");
}

#[test]
fn unescape_tab_octal() {
    assert_eq!(String::from_utf8(unescape("a\\011b")).unwrap(), "a\tb");
}

#[test]
fn unescape_backslash_octal() {
    assert_eq!(String::from_utf8(unescape("a\\134b")).unwrap(), "a\\b");
}

#[test]
fn unescape_incomplete_octal_treated_as_literal() {
    assert_eq!(String::from_utf8(unescape("a\\04x")).unwrap(), "a\\04x");
}

#[test]
fn unescape_lone_backslash_at_end() {
    assert_eq!(String::from_utf8(unescape("trail\\")).unwrap(), "trail\\");
}

#[test]
fn unescape_non_ascii_utf8_bytes() {
    assert_eq!(String::from_utf8(unescape("caf\\303\\251")).unwrap(), "café");
}

#[test]
fn unescape_invalid_utf8_returns_error() {
    let bytes = unescape("bad\\377byte");
    assert!(String::from_utf8(bytes).is_err());
}

#[test]
fn unescape_out_of_range_octal_is_literal() {
    assert_eq!(String::from_utf8(unescape("x\\777")).unwrap(), "x\\777");
    assert_eq!(unescape("é"), vec![0xc3, 0xa9]);
}

#[test]
fn parse_mountinfo_line_rejects_missing_separator() {
    let error = parse_mountinfo_line(3, "36 35 0:31 / /rw rw").expect_err("missing separator");
    assert_eq!(error.message(), "invalid mount table entry at line 3: missing ` - ` separator");
}

#[test]
fn parse_mountinfo_line_rejects_too_few_fields() {
    let error = parse_mountinfo_line(5, "36 35 0:31 / - ext4 /dev/root rw").expect_err("too few left fields");
    assert_eq!(
        error.message(),
        "invalid mount table entry at line 5: too few left fields: expected at least 6, got 4"
    );

    let error = parse_mountinfo_line(6, "36 35 0:31 / / rw - ext4").expect_err("too few right fields");
    assert_eq!(
        error.message(),
        "invalid mount table entry at line 6: too few right fields: expected at least 3, got 1"
    );
}

#[test]
fn parse_mountinfo_line_rejects_invalid_utf8_decoded_path() {
    let line = "36 35 0:31 /bad\\377 /target rw - ext4 /dev/root rw";
    let error = parse_mountinfo_line(8, line).expect_err("invalid utf8 path");
    assert!(error
        .message()
        .contains("invalid mount table entry at line 8: decoded root field is not valid UTF-8"));
}

#[test]
fn parse_mountinfo_line_rejects_invalid_mount_id() {
    let error = parse_mountinfo_line(2, "x1 35 0:31 / / rw - ext4 /dev/root rw").expect_err("bad id");
    assert_eq!(
        error.message(),
        "invalid mount table entry at line 2: invalid mount ID `x1`: invalid digit found in string"
    );
}

#[test]
fn parse_mountinfo_line_parses_valid_entries() {
    let line = "36 35 0:31 /source\\040dir /target\\040dir rw - ext4 /dev/root rw";
    let entry = parse_mountinfo_line(1, line).expect("parse mountinfo line");
    assert_eq!(entry.mount_id, 36);
    assert_eq!(entry.mount_source, "/dev/root");
    assert_eq!(entry.device_id, "0:31");
    assert_eq!(entry.source_root, "/source dir");
    assert_eq!(entry.mount_point, "/target dir");
    assert_eq!(entry.filesystem_type, "ext4");
}

#[test]
fn parse_mount_table_preserves_raw_bind_sources_within_non_root_filesystems() {
    let contents = &[
        "62 33 0:51 / /home rw,nodev,relatime shared:58 - zfs pool/home rw\n",
        "6412 62 0:51 /nos/Projects/context/forge/ai /home/nos/Projects/repos/forge/ai rw,nodev,relatime shared:58 - zfs pool/home rw\n"
    ]
    .concat();

    let entries = parse_mount_table(contents).expect("parse mount table");

    assert_eq!(entries.len(), 2);
    assert_eq!(entries[0].preferred_source, "/");
    assert_eq!(entries[1].preferred_source, "/nos/Projects/context/forge/ai");
    assert_eq!(entries[1].mount_point, "/home/nos/Projects/repos/forge/ai");
}

#[test]
fn parse_mount_table_preserves_raw_bind_sources_within_btrfs_subvolumes() {
    let contents = &[
        "29 1 0:29 /@ / rw,relatime - btrfs /dev/nvme0n1p2 rw,subvolid=256,subvol=/@\n",
        "30 29 0:29 /@home /home rw,relatime - btrfs /dev/nvme0n1p2 rw,subvolid=257,subvol=/@home\n",
        "31 30 0:29 /@home/nos/Projects/context/forge/ai /home/nos/Projects/repos/forge/ai rw,relatime - btrfs /dev/nvme0n1p2 rw,subvolid=257,subvol=/@home\n"
    ]
    .concat();

    let entries = parse_mount_table(contents).expect("parse mount table");

    assert_eq!(entries.len(), 3);
    assert_eq!(entries[0].preferred_source, "/@");
    assert_eq!(entries[1].preferred_source, "/@home");
    assert_eq!(entries[2].preferred_source, "/@home/nos/Projects/context/forge/ai");
    assert_eq!(entries[2].mount_point, "/home/nos/Projects/repos/forge/ai");
}

#[test]
fn parse_mount_table_does_not_alias_same_filesystem_root_through_other_mounts() {
    let contents = &[
        "29 1 0:29 / / rw,relatime - ext4 /dev/root rw\n",
        "30 1 0:29 / /mnt/root rw,relatime - ext4 /dev/root rw\n",
        "31 29 0:29 /home/nos/context/demo /workspace/target rw,relatime - ext4 /dev/root rw\n"
    ]
    .concat();

    let entries = parse_mount_table(contents).expect("parse mount table");

    assert_eq!(entries.len(), 3);
    assert_eq!(entries[2].source_aliases, vec!["/home/nos/context/demo".to_string()]);
    assert_eq!(entries[2].preferred_source, "/home/nos/context/demo");
    assert!(entries[2].matches_source("/home/nos/context/demo"));
    assert!(!entries[2].matches_source("/mnt/root/home/nos/context/demo"));
}

#[test]
fn parse_mount_table_does_not_alias_parent_btrfs_subvolume_paths() {
    let contents = &[
        "29 1 0:29 /@home /home rw,relatime - btrfs /dev/root rw,subvol=/@home\n",
        "30 29 0:29 /@home/nos/Projects /mnt/projects rw,relatime - btrfs /dev/root rw,subvol=/@home\n",
        "31 29 0:29 /@home/nos/Projects/context/demo /workspace/target rw,relatime - btrfs /dev/root rw,subvol=/@home\n"
    ]
    .concat();

    let entries = parse_mount_table(contents).expect("parse mount table");

    assert_eq!(entries.len(), 3);
    assert_eq!(entries[2].source_aliases, vec!["/@home/nos/Projects/context/demo".to_string()]);
    assert_eq!(entries[2].preferred_source, "/@home/nos/Projects/context/demo");
    assert!(!entries[2].matches_source("/home/nos/Projects/context/demo"));
    assert!(!entries[2].matches_source("/mnt/projects/context/demo"));
}

#[test]
fn parse_mount_table_does_not_alias_same_device_mounts_with_different_sources() {
    let contents = &[
        "29 1 0:29 / /home rw,relatime - zfs pool/home rw\n",
        "30 29 0:29 / /home/nos rw,relatime - zfs pool/home/nos rw\n",
        "31 30 0:29 /context/demo /workspace/target rw,relatime - zfs pool/home/nos rw\n"
    ]
    .concat();

    let entries = parse_mount_table(contents).expect("parse mount table");

    assert_eq!(entries.len(), 3);
    assert_eq!(entries[2].source_aliases, vec!["/context/demo".to_string()]);
    assert_eq!(entries[2].preferred_source, "/context/demo");
    assert!(entries[2].matches_source("/context/demo"));
    assert!(!entries[2].matches_source("/home/nos/context/demo"));
    assert!(!entries[2].matches_source("/home/context/demo"));
}

#[test]
fn parse_mount_table_rejects_unparseable_rows() {
    let contents = &[
        "36 35 0:31 /source\\040dir /target\\040dir rw - ext4 /dev/root rw\n",
        "36 35 0:31 /bad\\377 /ignored rw - ext4 /dev/root rw\n",
        "not a valid mountinfo row"
    ]
    .concat();

    let error = parse_mount_table(contents).expect_err("malformed mount table should fail");
    assert!(error
        .message()
        .contains("invalid mount table entry at line 2: decoded root field is not valid UTF-8"));
}

#[test]
fn parse_mount_table_handles_empty_text_and_crlf_lines() {
    assert!(parse_mount_table("").expect("empty table").is_empty());
    let entries = parse_mount_table("36 35 0:31 / /t rw - ext4 /dev/root rw\r\n").expect("crlf table");
    assert_eq!(entries.len(), 1);
    assert_eq!(entries[0].mount_point, "/t");
}

#[test]
fn parse_mount_privileges_reports_cap_sys_admin_from_cap_eff() {
    let status = parse_mount_privileges("Name:\tagentbox\nCapEff:\t0000000000200000\n");
    assert!(matches!(status, MountPrivilegeStatus::HasCapSysAdmin));
}

#[test]
fn parse_mount_privileges_distinguishes_missing_capability() {
    let status = parse_mount_privileges("Name:\tagentbox\nCapEff:\t0000000000000000\n");
    assert!(matches!(status, MountPrivilegeStatus::MissingCapSysAdmin));
}

#[test]
fn parse_mount_privileges_reports_unknown_for_bad_status_data() {
    let status = parse_mount_privileges("Name:\tagentbox\nCapEff:\tnot-hex\n");
    assert!(matches!(status, MountPrivilegeStatus::Unknown { .. }));
}

#[test]
fn parse_mount_privileges_reports_unknown_details() {
    match parse_mount_privileges("Name:\tagentbox\n") {
        MountPrivilegeStatus::Unknown { details } => {
            assert_eq!(details, "missing `CapEff:` field in `/proc/self/status`")
        }
        other => panic!("unexpected {other:?}"),
    }
    match parse_mount_privileges("CapEff:\n") {
        MountPrivilegeStatus::Unknown { details } => {
            assert_eq!(details, "missing capability value in `CapEff:` field")
        }
        other => panic!("unexpected {other:?}"),
    }
    match parse_mount_privileges("CapEff:\tzz\n") {
        MountPrivilegeStatus::Unknown { details } => {
            assert_eq!(details, "failed to parse `CapEff` value `zz`: invalid digit found in string")
        }
        other => panic!("unexpected {other:?}"),
    }
    assert!(matches!(
        parse_mount_privileges("CapEff:\t000001ffffffffff\n"),
        MountPrivilegeStatus::HasCapSysAdmin
    ));
}

#[test]
fn mount_privilege_status_matches_linux_probe_contract() {
    let read_failed = mount_privilege_status(Err("permission denied".to_string()));
    assert!(!matches!(
        read_failed,
        MountPrivilegeStatus::Unknown { ref details } if details.is_empty()
    ));
    let from_status = mount_privilege_status(Ok("Name:\tagentbox\nCapEff:\t0000000000200000\n".to_string()));
    assert!(!matches!(
        from_status,
        MountPrivilegeStatus::Unknown { ref details } if details.is_empty()
    ));
}

#[test]
fn find_target_mount_and_expected_bind_helpers_match_exact_entries() {
    let mounts = vec![MountEntry {
        mount_id: 42,
        preferred_source: "/workspace/source".to_string(),
        source_aliases: vec!["/workspace/source".to_string()],
        mount_point: "/workspace/target".to_string(),
        filesystem_type: "bind".to_string(),
    }];

    assert!(find_target_mount(&mounts, "/workspace/target").is_some());
    assert!(is_expected_bind_mount_in(&mounts, "/workspace/source", "/workspace/target"));
    assert!(!is_expected_bind_mount_in(&mounts, "/mnt/root/workspace/source", "/workspace/target"));
    assert!(!is_expected_bind_mount_in(&mounts, "/workspace/other", "/workspace/target"));
}

#[test]
fn malformed_mount_table_error_keeps_line_number() {
    let error = parse_mount_table("36 35 0:31 / /t rw - ext4 /dev/root rw\nbroken\n").expect_err("broken row");
    assert!(matches!(
        error,
        Error::InfraMount(InfraMountError::MalformedMountTableEntry { line_no: 2, .. })
    ));
}
