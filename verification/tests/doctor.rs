use agentbox::inspection::doctor::{
    doctor_findings, DirectoryCheck, DoctorProbe, Severity, WorkspaceDirectory,
};
use agentbox::mounts::infra::MountPrivilegeStatus;

fn views(probe: &DoctorProbe) -> Vec<(Severity, String)> {
    doctor_findings(probe).findings.into_iter().map(|f| (f.severity, f.message)).collect()
}

fn dir(path: &str, check: DirectoryCheck) -> WorkspaceDirectory {
    WorkspaceDirectory { path: path.to_string(), check }
}

#[test]
fn healthy_workspace_needs_no_changes() {
    let probe = DoctorProbe {
        manifest_error: None,
        directories: vec![dir("/w/repos", DirectoryCheck::Present), dir("/w/context", DirectoryCheck::Present)],
        ownership_error: None,
        mount_table_error: None,
        privileges: MountPrivilegeStatus::HasCapSysAdmin,
    };
    assert_eq!(views(&probe), vec![(Severity::Note, "no changes required".to_string())]);
    assert_eq!(doctor_findings(&probe).error_count(), 0);
}

#[test]
fn findings_follow_the_order_of_the_checks() {
    let probe = DoctorProbe {
        manifest_error: Some("bad manifest".to_string()),
        directories: vec![
            dir("/w/repos", DirectoryCheck::Missing),
            dir("/w/context", DirectoryCheck::Created),
            dir("/w/other", DirectoryCheck::CreateFailed { message: "denied".to_string() }),
        ],
        ownership_error: Some("bad receipts".to_string()),
        mount_table_error: Some("no mountinfo".to_string()),
        privileges: MountPrivilegeStatus::MissingCapSysAdmin,
    };
    assert_eq!(
        views(&probe),
        vec![
            (Severity::Error, "bad manifest".to_string()),
            (Severity::Error, "missing workspace directory `/w/repos`".to_string()),
            (Severity::Fixed, "created `/w/context`".to_string()),
            (Severity::Error, "denied".to_string()),
            (Severity::Warning, "bad receipts".to_string()),
            (Severity::Warning, "mount table unavailable: no mountinfo".to_string()),
            (Severity::Warning, "process lacks CAP_SYS_ADMIN; bind mounts will fail".to_string()),
        ]
    );
    assert_eq!(doctor_findings(&probe).error_count(), 3);
}

#[test]
fn unknown_privileges_are_a_note_and_fixes_count_as_changes() {
    let probe = DoctorProbe {
        manifest_error: None,
        directories: vec![dir("/w/repos", DirectoryCheck::Created)],
        ownership_error: None,
        mount_table_error: None,
        privileges: MountPrivilegeStatus::Unknown { details: "no status".to_string() },
    };
    assert_eq!(
        views(&probe),
        vec![
            (Severity::Fixed, "created `/w/repos`".to_string()),
            (Severity::Note, "no status".to_string()),
        ]
    );
}
