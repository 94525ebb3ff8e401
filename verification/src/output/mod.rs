//! Human-readable output: status lines of tab-separated `key=value` fields,
//! severity-prefixed doctor findings, and the messages of each command.
//!
//! Machine-readable (JSON) output is produced outside the library; the
//! renderers return `None` for it.
use vstd::prelude::*;

use crate::inspection::doctor::{DoctorReport, Finding, Severity};
use crate::inspection::status_view::{
    mount_state_label, AggregateMountState, MountStatus, RegisteredMountStatus, RepoStatus,
};
use crate::mounts::mount::MountOutcome;
use crate::mounts::unmount::UnmountOutcome;
use crate::shared::text::append_str;

verus! {

/// How command output is rendered.
#[derive(Debug, Clone, Copy, PartialEq, Eq, Structural)]
pub enum OutputFormat {
    Human,
    Json,
}

impl OutputFormat {
    /// JSON when `--json` was given, human-readable text otherwise.
    pub fn from_json_flag(json: bool) -> (r: OutputFormat)
        ensures
            r == (if json {
                OutputFormat::Json
            } else {
                OutputFormat::Human
            }),
    {
        if json {
            OutputFormat::Json
        } else {
            OutputFormat::Human
        }
    }
}

pub open spec fn bool_text(b: bool) -> Seq<char> {
    if b {
        "true"@
    } else {
        "false"@
    }
}

fn append_bool(out: &mut String, b: bool)
    ensures
        final(out)@ == old(out)@ + bool_text(b),
{
    if b {
        append_str(out, "true");
    } else {
        append_str(out, "false");
    }
}

// ---------------------------------------------------------------------------
// Doctor
// ---------------------------------------------------------------------------

pub open spec fn severity_label(s: Severity) -> Seq<char> {
    match s {
        Severity::Error => "ERROR"@,
        Severity::Warning => "WARN"@,
        Severity::Fixed => "FIXED"@,
        Severity::Note => "NOTE"@,
    }
}

/// One line per finding: its severity label, a colon, and its message.
pub open spec fn doctor_text(fs: Seq<Finding>) -> Seq<char>
    decreases fs.len(),
{
    if fs.len() == 0 {
        Seq::empty()
    } else {
        doctor_text(fs.drop_last()) + severity_label(fs.last().severity) + ": "@ + fs.last().message@
            + "\n"@
    }
}

/// The findings of a health check, one per line (human format only).
pub fn render_doctor_report(format: OutputFormat, report: &DoctorReport) -> (r: Option<String>)
    ensures
        format == OutputFormat::Json ==> r is None,
        format == OutputFormat::Human ==> (r matches Some(s) && s@ == doctor_text(report.findings@)),
{
    if format == OutputFormat::Json {
        return None;
    }
    let mut output = String::new();
    let mut i: usize = 0;
    proof {
        assert(report.findings@.take(0) =~= Seq::<Finding>::empty());
    }
    while i < report.findings.len()
        invariant
            i <= report.findings.len(),
            output@ == doctor_text(report.findings@.take(i as int)),
        decreases report.findings.len() - i,
    {
        let finding = &report.findings[i];
        let label = match finding.severity {
            Severity::Error => "ERROR",
            Severity::Warning => "WARN",
            Severity::Fixed => "FIXED",
            Severity::Note => "NOTE",
        };
        let ghost before = output@;
        append_str(&mut output, label);
        append_str(&mut output, ": ");
        append_str(&mut output, finding.message.as_str());
        append_str(&mut output, "\n");
        proof {
            assert(report.findings@.take(i + 1).drop_last() =~= report.findings@.take(i as int));
            assert(report.findings@.take(i + 1).last() == *finding);
            assert(label@ == severity_label(finding.severity));
            assert(output@ =~= before + severity_label(finding.severity) + ": "@ + finding.message@
                + "\n"@);
        }
        i = i + 1;
    }
    proof {
        assert(report.findings@.take(report.findings.len() as int) =~= report.findings@);
    }
    Some(output)
}

// ---------------------------------------------------------------------------
// Status
// ---------------------------------------------------------------------------

pub open spec fn status_line(s: RepoStatus) -> Seq<char> {
    s.repo_id@ + "\tsource="@ + s.source@ + "\tmaterialized="@ + bool_text(s.materialized)
        + "\tmounted="@ + mount_state_label(s.mount_state) + "\n"@
}

pub open spec fn status_lines(ss: Seq<RepoStatus>) -> Seq<char>
    decreases ss.len(),
{
    if ss.len() == 0 {
        Seq::empty()
    } else {
        status_lines(ss.drop_last()) + status_line(ss.last())
    }
}

/// The status of each repo, one line each (human format only).
pub fn render_workspace_status(format: OutputFormat, statuses: &[RepoStatus]) -> (r: Option<String>)
    ensures
        format == OutputFormat::Json ==> r is None,
        format == OutputFormat::Human && statuses@.len() == 0 ==> (r matches Some(s) && s@
            == "No repos registered.\n"@),
        format == OutputFormat::Human && statuses@.len() > 0 ==> (r matches Some(s) && s@
            == status_lines(statuses@)),
{
    if format == OutputFormat::Json {
        return None;
    }
    if statuses.len() == 0 {
        let mut s = String::new();
        append_str(&mut s, "No repos registered.\n");
        proof {
            assert(s@ =~= "No repos registered.\n"@);
        }
        return Some(s);
    }
    let mut output = String::new();
    let mut i: usize = 0;
    proof {
        assert(statuses@.take(0) =~= Seq::<RepoStatus>::empty());
    }
    while i < statuses.len()
        invariant
            i <= statuses.len(),
            output@ == status_lines(statuses@.take(i as int)),
        decreases statuses.len() - i,
    {
        let status = &statuses[i];
        let ghost before = output@;
        append_str(&mut output, status.repo_id.as_str());
        append_str(&mut output, "\tsource=");
        append_str(&mut output, status.source.as_str());
        append_str(&mut output, "\tmaterialized=");
        append_bool(&mut output, status.materialized);
        append_str(&mut output, "\tmounted=");
        append_str(&mut output, status.mount_state.label());
        append_str(&mut output, "\n");
        proof {
            assert(statuses@.take(i + 1).drop_last() =~= statuses@.take(i as int));
            assert(statuses@.take(i + 1).last() == *status);
            assert(output@ =~= before + status_line(*status));
        }
        i = i + 1;
    }
    proof {
        assert(statuses@.take(statuses.len() as int) =~= statuses@);
    }
    Some(output)
}

pub open spec fn mount_status_line(m: MountStatus) -> Seq<char> {
    if m.inspection_unavailable {
        m.source@ + " -> "@ + m.target@ + " (inspection=unavailable)\n"@
    } else {
        m.source@ + " -> "@ + m.target@ + " (active="@ + bool_text(m.active) + ", conflict="@
            + bool_text(m.conflicting_mount) + ")\n"@
    }
}

pub open spec fn mount_status_lines(ms: Seq<MountStatus>) -> Seq<char>
    decreases ms.len(),
{
    if ms.len() == 0 {
        Seq::empty()
    } else {
        mount_status_lines(ms.drop_last()) + mount_status_line(ms.last())
    }
}

/// The detailed status of one repo.
pub open spec fn repo_show_text(s: RepoStatus) -> Seq<char> {
    "repo_id: "@ + s.repo_id@ + "\n"@ + "source: "@ + s.source@ + "\n"@ + "context_root: "@
        + s.context_root@ + "\n"@ + "repo_root: "@ + s.repo_root@ + "\n"@ + "materialized: "@
        + bool_text(s.materialized) + "\n"@ + "mount_state: "@ + mount_state_label(s.mount_state)
        + "\n"@ + (if s.mount_state == AggregateMountState::Unknown {
        "note: mount table could not be read; mount state is unknown\n"@
    } else {
        Seq::empty()
    }) + (if s.mounts@.len() == 0 {
        "mounts: <none>\n"@
    } else {
        "mounts:\n"@ + mount_status_lines(s.mounts@)
    })
}

/// The detailed status of one repo (human format only).
#[verifier::rlimit(30)]
pub fn render_repo_show(format: OutputFormat, status: &RepoStatus) -> (r: Option<String>)
    ensures
        format == OutputFormat::Json ==> r is None,
        format == OutputFormat::Human ==> (r matches Some(s) && s@ == repo_show_text(*status)),
{
    if format == OutputFormat::Json {
        return None;
    }
    let mut output = String::new();
    append_str(&mut output, "repo_id: ");
    append_str(&mut output, status.repo_id.as_str());
    append_str(&mut output, "\n");
    append_str(&mut output, "source: ");
    append_str(&mut output, status.source.as_str());
    append_str(&mut output, "\n");
    append_str(&mut output, "context_root: ");
    append_str(&mut output, status.context_root.as_str());
    append_str(&mut output, "\n");
    append_str(&mut output, "repo_root: ");
    append_str(&mut output, status.repo_root.as_str());
    append_str(&mut output, "\n");
    append_str(&mut output, "materialized: ");
    append_bool(&mut output, status.materialized);
    append_str(&mut output, "\n");
    append_str(&mut output, "mount_state: ");
    append_str(&mut output, status.mount_state.label());
    append_str(&mut output, "\n");
    let ghost head = output@;
    if status.mount_state == AggregateMountState::Unknown {
        append_str(&mut output, "note: mount table could not be read; mount state is unknown\n");
    }
    let ghost with_note = output@;
    if status.mounts.len() == 0 {
        append_str(&mut output, "mounts: <none>\n");
    } else {
        append_str(&mut output, "mounts:\n");
        let ghost start = output@;
        let mut i: usize = 0;
        proof {
            assert(status.mounts@.take(0) =~= Seq::<MountStatus>::empty());
            assert(output@ =~= start + mount_status_lines(status.mounts@.take(0)));
        }
        while i < status.mounts.len()
            invariant
                i <= status.mounts.len(),
                output@ == start + mount_status_lines(status.mounts@.take(i as int)),
            decreases status.mounts.len() - i,
        {
            let mount = &status.mounts[i];
            let ghost before = output@;
            append_str(&mut output, mount.source.as_str());
            append_str(&mut output, " -> ");
            append_str(&mut output, mount.target.as_str());
            if mount.inspection_unavailable {
                append_str(&mut output, " (inspection=unavailable)\n");
            } else {
                append_str(&mut output, " (active=");
                append_bool(&mut output, mount.active);
                append_str(&mut output, ", conflict=");
                append_bool(&mut output, mount.conflicting_mount);
                append_str(&mut output, ")\n");
            }
            proof {
                assert(status.mounts@.take(i + 1).drop_last() =~= status.mounts@.take(i as int));
                assert(status.mounts@.take(i + 1).last() == *mount);
                assert(output@ =~= start + mount_status_lines(status.mounts@.take(i as int))
                    + mount_status_line(*mount));
            }
            i = i + 1;
        }
        proof {
            assert(status.mounts@.take(status.mounts.len() as int) =~= status.mounts@);
        }
    }
    proof {
        assert(output@ =~= repo_show_text(*status));
    }
    Some(output)
}

pub open spec fn mount_list_paths(m: RegisteredMountStatus) -> Seq<char> {
    m.repo_id@ + "\trepo_path="@ + m.repo_path@ + "\tcontext_path="@ + m.context_path@
}

pub open spec fn mount_list_flags(m: RegisteredMountStatus) -> Seq<char> {
    "\tmaterialized="@ + bool_text(m.materialized) + "\tactive="@ + bool_text(m.active)
        + "\tconflict="@ + bool_text(m.conflicting_mount)
}

pub open spec fn mount_list_line(m: RegisteredMountStatus) -> Seq<char> {
    mount_list_paths(m) + mount_list_flags(m) + (if m.inspection_unavailable {
        "\tinspection=unavailable"@
    } else {
        Seq::empty()
    }) + "\n"@
}

pub open spec fn mount_list_lines(ms: Seq<RegisteredMountStatus>) -> Seq<char>
    decreases ms.len(),
{
    if ms.len() == 0 {
        Seq::empty()
    } else {
        mount_list_lines(ms.drop_last()) + mount_list_line(ms.last())
    }
}

fn append_mount_list_line(output: &mut String, m: &RegisteredMountStatus)
    ensures
        final(output)@ == old(output)@ + mount_list_line(*m),
{
    let ghost before = output@;
    append_str(output, m.repo_id.as_str());
    append_str(output, "\trepo_path=");
    append_str(output, m.repo_path.as_str());
    append_str(output, "\tcontext_path=");
    append_str(output, m.context_path.as_str());
    proof {
        assert(output@ =~= before + mount_list_paths(*m));
    }
    let ghost mid = output@;
    append_str(output, "\tmaterialized=");
    append_bool(output, m.materialized);
    append_str(output, "\tactive=");
    append_bool(output, m.active);
    append_str(output, "\tconflict=");
    append_bool(output, m.conflicting_mount);
    proof {
        assert(output@ =~= mid + mount_list_flags(*m));
    }
    let ghost flags = output@;
    if m.inspection_unavailable {
        append_str(output, "\tinspection=unavailable");
    }
    append_str(output, "\n");
    proof {
        assert(output@ =~= before + mount_list_line(*m));
    }
}

/// The registered mounts, one line each (human format only).
pub fn render_mount_list(format: OutputFormat, mounts: &[RegisteredMountStatus]) -> (r: Option<String>)
    ensures
        format == OutputFormat::Json ==> r is None,
        format == OutputFormat::Human && mounts@.len() == 0 ==> (r matches Some(s) && s@
            == "No mounts registered.\n"@),
        format == OutputFormat::Human && mounts@.len() > 0 ==> (r matches Some(s) && s@
            == mount_list_lines(mounts@)),
{
    if format == OutputFormat::Json {
        return None;
    }
    if mounts.len() == 0 {
        let mut s = String::new();
        append_str(&mut s, "No mounts registered.\n");
        proof {
            assert(s@ =~= "No mounts registered.\n"@);
        }
        return Some(s);
    }
    let mut output = String::new();
    let mut i: usize = 0;
    proof {
        assert(mounts@.take(0) =~= Seq::<RegisteredMountStatus>::empty());
    }
    while i < mounts.len()
        invariant
            i <= mounts.len(),
            output@ == mount_list_lines(mounts@.take(i as int)),
        decreases mounts.len() - i,
    {
        let m = &mounts[i];
        append_mount_list_line(&mut output, m);
        proof {
            assert(mounts@.take(i + 1).drop_last() =~= mounts@.take(i as int));
            assert(mounts@.take(i + 1).last() == *m);
        }
        i = i + 1;
    }
    proof {
        assert(mounts@.take(mounts.len() as int) =~= mounts@);
    }
    Some(output)
}

// ---------------------------------------------------------------------------
// Command messages
// ---------------------------------------------------------------------------

/// The message for a mount outcome.
pub fn render_mount_outcome(outcome: &MountOutcome) -> (r: String)
    ensures
        match outcome {
            MountOutcome::Mounted { source, target } => r@ == "Mounted `"@ + source@ + "` -> `"@
                + target@ + "`"@,
            MountOutcome::AlreadyMounted { source, target } => r@ == "Already mounted `"@ + source@
                + "` -> `"@ + target@ + "`"@,
        },
{
    let mut out = String::new();
    match outcome {
        MountOutcome::Mounted { source, target } => {
            append_str(&mut out, "Mounted `");
            append_str(&mut out, source.as_str());
            append_str(&mut out, "` -> `");
            append_str(&mut out, target.as_str());
            append_str(&mut out, "`");
            proof {
                assert(out@ =~= "Mounted `"@ + source@ + "` -> `"@ + target@ + "`"@);
            }
        },
        MountOutcome::AlreadyMounted { source, target } => {
            append_str(&mut out, "Already mounted `");
            append_str(&mut out, source.as_str());
            append_str(&mut out, "` -> `");
            append_str(&mut out, target.as_str());
            append_str(&mut out, "`");
            proof {
                assert(out@ =~= "Already mounted `"@ + source@ + "` -> `"@ + target@ + "`"@);
            }
        },
    }
    out
}

/// The message for an unmount outcome.
pub fn render_unmount_outcome(outcome: &UnmountOutcome) -> (r: String)
    ensures
        match outcome {
            UnmountOutcome::Unmounted { target } => r@ == "Unmounted `"@ + target@ + "`"@,
            UnmountOutcome::AlreadyUnmounted { target } => r@ == "Already unmounted `"@ + target@
                + "`"@,
        },
{
    let mut out = String::new();
    match outcome {
        UnmountOutcome::Unmounted { target } => {
            append_str(&mut out, "Unmounted `");
            append_str(&mut out, target.as_str());
            append_str(&mut out, "`");
            proof {
                assert(out@ =~= "Unmounted `"@ + target@ + "`"@);
            }
        },
        UnmountOutcome::AlreadyUnmounted { target } => {
            append_str(&mut out, "Already unmounted `");
            append_str(&mut out, target.as_str());
            append_str(&mut out, "`");
            proof {
                assert(out@ =~= "Already unmounted `"@ + target@ + "`"@);
            }
        },
    }
    out
}

/// Whether attaching should warn that an existing context directory was
/// kept without its mounts: only when no template is applied.
pub fn should_warn_about_reused_context(has_template: bool, context_root_exists: bool) -> (r: bool)
    ensures
        r == (!has_template && context_root_exists),
{
    !has_template && context_root_exists
}


} // verus!
