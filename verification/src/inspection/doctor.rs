//! Findings of a workspace health check: what the checks read is handed
//! in, and the findings are decided here.
use vstd::prelude::*;

use crate::mounts::infra::{MountPrivilegeStatus, MountPrivilegeView};
use crate::shared::text::append_str;

verus! {

/// How serious a finding is.
#[derive(Debug, Clone, Copy, PartialEq, Eq, Structural)]
pub enum Severity {
    Error,
    Warning,
    Fixed,
    Note,
}

/// One finding of a health check.
#[derive(Debug)]
pub struct Finding {
    pub severity: Severity,
    pub message: String,
}

/// The findings of a health check, in order.
#[derive(Debug)]
pub struct DoctorReport {
    pub findings: Vec<Finding>,
}

/// The number of error findings.
pub open spec fn count_errors(fs: Seq<Finding>) -> nat
    decreases fs.len(),
{
    if fs.len() == 0 {
        0
    } else {
        count_errors(fs.drop_last()) + if fs.last().severity == Severity::Error {
            1nat
        } else {
            0nat
        }
    }
}

proof fn lemma_count_errors_bounded(fs: Seq<Finding>)
    ensures
        count_errors(fs) <= fs.len(),
    decreases fs.len(),
{
    if fs.len() > 0 {
        lemma_count_errors_bounded(fs.drop_last());
    }
}

impl DoctorReport {
    /// The number of error findings.
    pub fn error_count(&self) -> (r: usize)
        ensures
            r == count_errors(self.findings@),
    {
        let mut n: usize = 0;
        let mut i: usize = 0;
        while i < self.findings.len()
            invariant
                i <= self.findings.len(),
                n == count_errors(self.findings@.take(i as int)),
            decreases self.findings.len() - i,
        {
            proof {
                assert(self.findings@.take(i + 1).drop_last() =~= self.findings@.take(i as int));
                lemma_count_errors_bounded(self.findings@.take(i as int));
            }
            if self.findings[i].severity == Severity::Error {
                n = n + 1;
            }
            i = i + 1;
        }
        proof {
            assert(self.findings@.take(i as int) =~= self.findings@);
        }
        n
    }
}

/// What was found of one workspace directory.
#[derive(Debug)]
pub enum DirectoryCheck {
    /// It exists.
    Present,
    /// It does not exist and was not to be created.
    Missing,
    /// It did not exist and was created.
    Created,
    /// It did not exist and creating it failed with this message.
    CreateFailed { message: String },
}

/// A workspace directory and what was found of it.
#[derive(Debug)]
pub struct WorkspaceDirectory {
    pub path: String,
    pub check: DirectoryCheck,
}

/// What the checks of a health check read.
#[derive(Debug)]
pub struct DoctorProbe {
    /// Why the manifest could not be read or validated, if it could not.
    pub manifest_error: Option<String>,
    /// The workspace directories, in order.
    pub directories: Vec<WorkspaceDirectory>,
    /// Why the receipts could not be read, if they could not.
    pub ownership_error: Option<String>,
    /// Why the mount table could not be read, if it could not.
    pub mount_table_error: Option<String>,
    /// Whether the process may create mounts.
    pub privileges: MountPrivilegeStatus,
}

/// A finding as a severity and a message.
pub open spec fn finding_views(fs: Seq<Finding>) -> Seq<(Severity, Seq<char>)> {
    fs.map_values(|f: Finding| (f.severity, f.message@))
}

/// The finding about one workspace directory, if any.
pub open spec fn directory_finding(d: WorkspaceDirectory) -> Seq<(Severity, Seq<char>)> {
    match d.check {
        DirectoryCheck::Present => Seq::empty(),
        DirectoryCheck::Missing => seq![(Severity::Error, "missing workspace directory `"@ + d.path@ + "`"@)],
        DirectoryCheck::Created => seq![(Severity::Fixed, "created `"@ + d.path@ + "`"@)],
        DirectoryCheck::CreateFailed { message } => seq![(Severity::Error, message@)],
    }
}

/// The findings about the workspace directories, in order.
pub open spec fn directory_findings(ds: Seq<WorkspaceDirectory>) -> Seq<(Severity, Seq<char>)>
    decreases ds.len(),
{
    if ds.len() == 0 {
        Seq::empty()
    } else {
        directory_findings(ds.drop_last()) + directory_finding(ds.last())
    }
}

/// An optional finding of this severity with this message.
pub open spec fn optional_finding(sev: Severity, message: Option<Seq<char>>) -> Seq<(Severity, Seq<char>)> {
    match message {
        Some(m) => seq![(sev, m)],
        None => Seq::empty(),
    }
}

/// The view of an optional message.
pub open spec fn message_view(m: Option<String>) -> Option<Seq<char>> {
    match m {
        Some(s) => Some(s@),
        None => None,
    }
}

/// The message about an unreadable mount table, if it was unreadable.
pub open spec fn mount_table_message(m: Option<String>) -> Option<Seq<char>> {
    match m {
        Some(s) => Some("mount table unavailable: "@ + s@),
        None => None,
    }
}

/// The finding about the mount privileges, if any.
pub open spec fn privilege_finding(p: MountPrivilegeView) -> Seq<(Severity, Seq<char>)> {
    match p {
        MountPrivilegeView::HasCapSysAdmin => Seq::empty(),
        MountPrivilegeView::MissingCapSysAdmin => seq![
            (Severity::Warning, "process lacks CAP_SYS_ADMIN; bind mounts will fail"@),
        ],
        MountPrivilegeView::Unknown(details) => seq![(Severity::Note, details)],
    }
}

/// The findings of a health check, in the order of the checks: the
/// manifest (an error), each workspace directory, the receipts (a
/// warning), the mount table (a warning) and the mount privileges; a
/// single note that nothing needs changing when there is none.
pub open spec fn doctor_findings_spec(p: DoctorProbe) -> Seq<(Severity, Seq<char>)> {
    let found = optional_finding(Severity::Error, message_view(p.manifest_error)) + directory_findings(
        p.directories@,
    ) + optional_finding(Severity::Warning, message_view(p.ownership_error)) + optional_finding(
        Severity::Warning,
        match p.mount_table_error {
            Some(m) => Some("mount table unavailable: "@ + m@),
            None => None,
        },
    ) + privilege_finding(p.privileges@);
    if found.len() == 0 {
        seq![(Severity::Note, "no changes required"@)]
    } else {
        found
    }
}

fn push_finding(out: &mut Vec<Finding>, severity: Severity, message: String)
    ensures
        finding_views(final(out)@) == finding_views(old(out)@).push((severity, message@)),
{
    let ghost before = finding_views(out@);
    out.push(Finding { severity, message });
    proof {
        assert(finding_views(out@) =~= before.push((severity, message@)));
    }
}

/// A message made of a prefix, a path and a closing back-quote.
fn quoted_message(prefix: &str, path: &str) -> (r: String)
    ensures
        r@ == prefix@ + path@ + "`"@,
{
    let mut m = String::new();
    append_str(&mut m, prefix);
    append_str(&mut m, path);
    append_str(&mut m, "`");
    proof {
        assert(m@ =~= prefix@ + path@ + "`"@);
    }
    m
}

/// The findings of a health check from what its checks read.
pub fn doctor_findings(probe: &DoctorProbe) -> (r: DoctorReport)
    ensures
        finding_views(r.findings@) == doctor_findings_spec(*probe),
{
    let mut out: Vec<Finding> = Vec::new();
    proof {
        assert(finding_views(out@) =~= Seq::<(Severity, Seq<char>)>::empty());
    }
    if let Some(m) = &probe.manifest_error {
        push_finding(&mut out, Severity::Error, m.clone());
    }
    let ghost head = finding_views(out@);
    proof {
        assert(head =~= optional_finding(Severity::Error, message_view(probe.manifest_error)));
        assert(probe.directories@.take(0) =~= Seq::<WorkspaceDirectory>::empty());
        assert(head + directory_findings(probe.directories@.take(0)) =~= head);
    }
    let mut i: usize = 0;
    while i < probe.directories.len()
        invariant
            i <= probe.directories.len(),
            finding_views(out@) == head + directory_findings(probe.directories@.take(i as int)),
        decreases probe.directories.len() - i,
    {
        let d = &probe.directories[i];
        let ghost before = finding_views(out@);
        proof {
            assert(probe.directories@.take(i + 1).drop_last() =~= probe.directories@.take(i as int));
            assert(probe.directories@.take(i + 1).last() == *d);
        }
        match &d.check {
            DirectoryCheck::Present => {},
            DirectoryCheck::Missing => {
                let m = quoted_message("missing workspace directory `", d.path.as_str());
                push_finding(&mut out, Severity::Error, m);
            },
            DirectoryCheck::Created => {
                let m = quoted_message("created `", d.path.as_str());
                push_finding(&mut out, Severity::Fixed, m);
            },
            DirectoryCheck::CreateFailed { message } => {
                push_finding(&mut out, Severity::Error, message.clone());
            },
        }
        proof {
            assert(finding_views(out@) =~= before + directory_finding(*d));
            assert(finding_views(out@) =~= head + directory_findings(probe.directories@.take(i + 1)));
        }
        i = i + 1;
    }
    proof {
        assert(probe.directories@.take(i as int) =~= probe.directories@);
    }
    let ghost mid = finding_views(out@);
    if let Some(m) = &probe.ownership_error {
        push_finding(&mut out, Severity::Warning, m.clone());
    }
    proof {
        assert(finding_views(out@) =~= mid + optional_finding(Severity::Warning, message_view(probe.ownership_error)));
    }
    let ghost mid2 = finding_views(out@);
    if let Some(m) = &probe.mount_table_error {
        let mut text = String::new();
        append_str(&mut text, "mount table unavailable: ");
        append_str(&mut text, m.as_str());
        push_finding(&mut out, Severity::Warning, text);
    }
    proof {
        assert(finding_views(out@) =~= mid2 + optional_finding(
            Severity::Warning,
            mount_table_message(probe.mount_table_error),
        ));
    }
    let ghost mid3 = finding_views(out@);
    match &probe.privileges {
        MountPrivilegeStatus::HasCapSysAdmin => {},
        MountPrivilegeStatus::MissingCapSysAdmin => {
            let mut text = String::new();
            append_str(&mut text, "process lacks CAP_SYS_ADMIN; bind mounts will fail");
            push_finding(&mut out, Severity::Warning, text);
        },
        MountPrivilegeStatus::Unknown { details } => {
            push_finding(&mut out, Severity::Note, details.clone());
        },
    }
    proof {
        assert(finding_views(out@) =~= mid3 + privilege_finding(probe.privileges@));
    }
    if out.len() == 0 {
        let mut text = String::new();
        append_str(&mut text, "no changes required");
        push_finding(&mut out, Severity::Note, text);
    }
    DoctorReport { findings: out }
}

} // verus!
