use agentbox::inspection::doctor::{DoctorReport, Finding, Severity};
use agentbox::inspection::status_view::{
    AggregateMountState, MountStatus, RegisteredMountStatus, RepoStatus,
};
use agentbox::mounts::mount::MountOutcome;
use agentbox::mounts::unmount::UnmountOutcome;
use agentbox::output::{
    render_doctor_report, render_mount_list, render_mount_outcome, render_repo_show,
    render_unmount_outcome, render_workspace_status, should_warn_about_reused_context,
    OutputFormat,
};
use agentbox::shared::types::{CloneSource, RelativePath, RepoId};

fn status(mount_state: AggregateMountState, mounts: Vec<MountStatus>) -> RepoStatus {
    RepoStatus {
        repo_id: RepoId::new("demo").expect("valid repo id"),
        source: CloneSource::new("file:///tmp/source").expect("valid source"),
        context_root: "/tmp/workspace/context/demo".to_string(),
        repo_root: "/tmp/workspace/repos/demo".to_string(),
        materialized: true,
        mount_state,
        mounts,
    }
}

fn mount_status(active: bool, conflicting_mount: bool, inspection_unavailable: bool) -> MountStatus {
    MountStatus {
        source: "/tmp/workspace/context/demo/ctx".to_string(),
        target: "/tmp/workspace/repos/demo/target".to_string(),
        active,
        conflicting_mount,
        inspection_unavailable,
    }
}

#[test]
fn render_repo_show_reports_unavailable_mount_inspection() {
    let status = status(AggregateMountState::Unknown, vec![mount_status(false, false, true)]);
    let rendered = render_repo_show(OutputFormat::Human, &status).expect("render repo");
    assert!(rendered.contains("mount_state: unknown"));
    assert!(rendered.contains("note: mount table could not be read; mount state is unknown"));
    assert!(rendered.contains("(inspection=unavailable)"));
}

#[test]
fn render_workspace_status_reports_conflicted_state() {
    let statuses = vec![status(AggregateMountState::Conflicted, vec![])];
    let rendered = render_workspace_status(OutputFormat::Human, &statuses).expect("render status");
    assert!(rendered.contains("mounted=conflicted"));
}

#[test]
fn render_repo_show_reports_conflicted_state() {
    let status = status(AggregateMountState::Conflicted, vec![mount_status(false, true, false)]);
    let rendered = render_repo_show(OutputFormat::Human, &status).expect("render repo");
    assert!(rendered.contains("mount_state: conflicted"));
    assert!(rendered.contains("(active=false, conflict=true)"));
}

#[test]
fn render_doctor_report_formats_all_severities() {
    let report = DoctorReport {
        findings: vec![
            Finding { severity: Severity::Error, message: "missing manifest".to_string() },
            Finding { severity: Severity::Warning, message: "mount table unavailable".to_string() },
            Finding { severity: Severity::Fixed, message: "created context root".to_string() },
            Finding { severity: Severity::Note, message: "no changes required".to_string() },
        ],
    };
    let rendered = render_doctor_report(OutputFormat::Human, &report).expect("render doctor report");
    assert!(rendered.contains("ERROR: missing manifest"));
    assert!(rendered.contains("WARN: mount table unavailable"));
    assert!(rendered.contains("FIXED: created context root"));
    assert!(rendered.contains("NOTE: no changes required"));
    assert_eq!(report.error_count(), 1);
}

#[test]
fn render_mount_list_reports_empty_state() {
    let rendered = render_mount_list(OutputFormat::Human, &[]).expect("render mount list");
    assert_eq!(rendered, "No mounts registered.\n");
}

#[test]
fn render_mount_list_reports_runtime_fields() {
    let mounts = vec![RegisteredMountStatus {
        repo_id: RepoId::new("demo").expect("valid repo id"),
        repo_path: RelativePath::new(".loki", "repo path").expect("valid repo path"),
        context_path: RelativePath::new("ai", "context path").expect("valid context path"),
        source: "/tmp/workspace/context/demo/ai".to_string(),
        target: "/tmp/workspace/repos/demo/.loki".to_string(),
        materialized: false,
        active: false,
        conflicting_mount: false,
        inspection_unavailable: false,
    }];
    let rendered = render_mount_list(OutputFormat::Human, &mounts).expect("render mount");
    assert!(rendered.contains("demo\trepo_path=.loki\tcontext_path=ai"));
    assert!(rendered.contains("materialized=false"));
    assert!(rendered.contains("active=false"));
    assert!(rendered.contains("conflict=false"));
    assert_eq!(
        rendered,
        "demo\trepo_path=.loki\tcontext_path=ai\tmaterialized=false\tactive=false\tconflict=false\n"
    );
}

#[test]
fn render_mount_list_marks_unavailable_inspection() {
    let mounts = vec![RegisteredMountStatus {
        repo_id: RepoId::new("demo").unwrap(),
        repo_path: RelativePath::new("t", "repo path").unwrap(),
        context_path: RelativePath::new("c", "context path").unwrap(),
        source: "/s".to_string(),
        target: "/t".to_string(),
        materialized: true,
        active: false,
        conflicting_mount: false,
        inspection_unavailable: true,
    }];
    let rendered = render_mount_list(OutputFormat::Human, &mounts).unwrap();
    assert_eq!(
        rendered,
        "demo\trepo_path=t\tcontext_path=c\tmaterialized=true\tactive=false\tconflict=false\tinspection=unavailable\n"
    );
}

#[test]
fn json_format_is_left_to_the_serializer() {
    assert!(render_workspace_status(OutputFormat::Json, &[]).is_none());
    assert!(render_mount_list(OutputFormat::Json, &[]).is_none());
    assert!(render_doctor_report(OutputFormat::Json, &DoctorReport { findings: vec![] }).is_none());
    assert_eq!(OutputFormat::from_json_flag(true), OutputFormat::Json);
    assert_eq!(OutputFormat::from_json_flag(false), OutputFormat::Human);
}

#[test]
fn render_mount_outcome_formats_both_variants() {
    let mounted = render_mount_outcome(&MountOutcome::Mounted {
        source: "/context/demo/ctx".to_string(),
        target: "/repos/demo/target".to_string(),
    });
    let already_mounted = render_mount_outcome(&MountOutcome::AlreadyMounted {
        source: "/context/demo/ctx".to_string(),
        target: "/repos/demo/target".to_string(),
    });
    assert_eq!(mounted, "Mounted `/context/demo/ctx` -> `/repos/demo/target`");
    assert_eq!(already_mounted, "Already mounted `/context/demo/ctx` -> `/repos/demo/target`");
}

#[test]
fn render_unmount_outcome_formats_both_variants() {
    let unmounted = render_unmount_outcome(&UnmountOutcome::Unmounted {
        target: "/repos/demo/target".to_string(),
    });
    let already_unmounted = render_unmount_outcome(&UnmountOutcome::AlreadyUnmounted {
        target: "/repos/demo/target".to_string(),
    });
    assert_eq!(unmounted, "Unmounted `/repos/demo/target`");
    assert_eq!(already_unmounted, "Already unmounted `/repos/demo/target`");
}

#[test]
fn reused_context_warning_only_without_template() {
    assert!(should_warn_about_reused_context(false, true));
    assert!(!should_warn_about_reused_context(true, true));
    assert!(!should_warn_about_reused_context(false, false));
}
