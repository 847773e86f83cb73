//! System prerequisite diagnostics: what each observation of the system
//! means for running zfswatch, and the report that collects them.
//!
//! Observing the system (running `zpool --version`, `lsmod` or `kextstat`,
//! reading the effective user id, looking at the target disk) happens
//! outside; the functions here turn the observations into checks.
use vstd::prelude::*;

use crate::config::Platform;
use crate::error::Result;
use crate::text::{
    concat2, concat3, contains, decimal, decimal_string, lines, lines_of, lowercase,
    starts_with, str_contains, str_starts_with, str_to_string, to_lowercase, trim, trimmed, occurs_at,
};

verus! {

/// Result of a single prerequisite check.
#[derive(Debug, Clone, PartialEq)]
pub enum CheckStatus {
    Passed,
    Warning(String),
    Error(String),
}

/// A single diagnostic check.
#[derive(Debug, Clone, PartialEq)]
pub struct PrerequisiteCheck {
    pub name: String,
    pub description: String,
    pub status: CheckStatus,
    pub fix_hint: Option<String>,
}

/// Complete diagnostic report.
#[derive(Debug, Clone, PartialEq)]
pub struct DiagnosticReport {
    pub platform: String,
    pub checks: Vec<PrerequisiteCheck>,
    pub overall_ok: bool,
}

/// A check's status as plain values.
pub enum StatusView {
    Passed,
    Warning(Seq<char>),
    Error(Seq<char>),
}

pub open spec fn status_view(s: CheckStatus) -> StatusView {
    match s {
        CheckStatus::Passed => StatusView::Passed,
        CheckStatus::Warning(m) => StatusView::Warning(m@),
        CheckStatus::Error(m) => StatusView::Error(m@),
    }
}

pub open spec fn hint_view(h: Option<String>) -> Option<Seq<char>> {
    match h {
        Some(s) => Some(s@),
        None => None,
    }
}

/// The check holds exactly these texts.
pub open spec fn check_is(
    c: PrerequisiteCheck,
    name: Seq<char>,
    description: Seq<char>,
    status: StatusView,
    hint: Option<Seq<char>>,
) -> bool {
    c.name@ == name && c.description@ == description && status_view(c.status) == status && hint_view(
        c.fix_hint,
    ) == hint
}

pub open spec fn is_error(c: PrerequisiteCheck) -> bool {
    c.status is Error
}

pub open spec fn is_issue(c: PrerequisiteCheck) -> bool {
    !(c.status is Passed)
}

/// Whether any of the checks failed.
pub open spec fn has_error(cs: Seq<PrerequisiteCheck>) -> bool {
    exists|i: int| 0 <= i < cs.len() && is_error(#[trigger] cs[i])
}

/// The checks that need attention, in order.
pub open spec fn issues_of(cs: Seq<PrerequisiteCheck>) -> Seq<PrerequisiteCheck>
    decreases cs.len(),
{
    if cs.len() == 0 {
        Seq::empty()
    } else if is_issue(cs.last()) {
        issues_of(cs.drop_last()).push(cs.last())
    } else {
        issues_of(cs.drop_last())
    }
}

pub open spec fn count_ok(cs: Seq<PrerequisiteCheck>) -> nat
    decreases cs.len(),
{
    if cs.len() == 0 {
        0
    } else {
        count_ok(cs.drop_last()) + if cs.last().status is Passed {
            1nat
        } else {
            0nat
        }
    }
}

pub open spec fn count_warnings(cs: Seq<PrerequisiteCheck>) -> nat
    decreases cs.len(),
{
    if cs.len() == 0 {
        0
    } else {
        count_warnings(cs.drop_last()) + if cs.last().status is Warning {
            1nat
        } else {
            0nat
        }
    }
}

pub open spec fn count_errors(cs: Seq<PrerequisiteCheck>) -> nat
    decreases cs.len(),
{
    if cs.len() == 0 {
        0
    } else {
        count_errors(cs.drop_last()) + if cs.last().status is Error {
            1nat
        } else {
            0nat
        }
    }
}

/// Every check is counted once: as passed, as a warning or as an error;
/// the issues are the warnings and the errors; a report has a failed check
/// exactly when it counts an error.
pub proof fn law_counts_cover_checks(cs: Seq<PrerequisiteCheck>)
    ensures
        count_ok(cs) + count_warnings(cs) + count_errors(cs) == cs.len(),
        issues_of(cs).len() == count_warnings(cs) + count_errors(cs),
        has_error(cs) <==> count_errors(cs) > 0,
    decreases cs.len(),
{
    if cs.len() > 0 {
        let d = cs.drop_last();
        law_counts_cover_checks(d);
        if has_error(cs) && !has_error(d) {
            let i = choose|i: int| 0 <= i < cs.len() && is_error(#[trigger] cs[i]);
            if i < d.len() {
                assert(d[i] == cs[i]);
            }
        }
        if has_error(d) {
            let i = choose|i: int| 0 <= i < d.len() && is_error(#[trigger] d[i]);
            assert(cs[i] == d[i]);
        }
        if is_error(cs.last()) {
            assert(is_error(cs[cs.len() - 1]));
        }
    } else {
        assert(!has_error(cs));
    }
}

/// A warning never blocks: adding one leaves the report's failed checks as
/// they were.
pub proof fn law_warning_does_not_block(cs: Seq<PrerequisiteCheck>, c: PrerequisiteCheck)
    requires
        !(c.status is Error),
    ensures
        has_error(cs.push(c)) == has_error(cs),
{
    let after = cs.push(c);
    if has_error(after) {
        let i = choose|i: int| 0 <= i < after.len() && is_error(#[trigger] after[i]);
        assert(i < cs.len());
        assert(cs[i] == after[i]);
    }
    if has_error(cs) {
        let i = choose|i: int| 0 <= i < cs.len() && is_error(#[trigger] cs[i]);
        assert(after[i] == cs[i]);
    }
}

impl DiagnosticReport {
    /// The report agrees with its checks: it is overall OK exactly when no
    /// check failed.
    pub open spec fn wf(&self) -> bool {
        self.overall_ok == !has_error(self.checks@)
    }

    /// An empty report for the platform described by `platform`.
    pub fn new(platform: String) -> (r: Self)
        ensures
            r.platform == platform,
            r.checks@.len() == 0,
            r.overall_ok,
            r.wf(),
    {
        DiagnosticReport { platform, checks: Vec::new(), overall_ok: true }
    }

    /// Appends a check; a failed check makes the report not OK, a warning
    /// does not.
    pub fn add(&mut self, check: PrerequisiteCheck)
        ensures
            final(self).checks@ == old(self).checks@.push(check),
            final(self).overall_ok == (old(self).overall_ok && !is_error(check)),
            final(self).platform == old(self).platform,
            old(self).wf() ==> final(self).wf(),
    {
        let ghost before = self.checks@;
        if matches!(check.status, CheckStatus::Error(_)) {
            self.overall_ok = false;
        }
        self.checks.push(check);
        proof {
            let after = self.checks@;
            if has_error(after) && !has_error(before) {
                let i = choose|i: int| 0 <= i < after.len() && is_error(#[trigger] after[i]);
                if i < before.len() {
                    assert(after[i] == before[i]);
                }
            }
            if has_error(before) {
                let i = choose|i: int| 0 <= i < before.len() && is_error(#[trigger] before[i]);
                assert(after[i] == before[i]);
            }
            if is_error(check) {
                assert(after[before.len() as int] == check);
            }
        }
    }

    /// Returns only the checks that need attention.
    pub fn issues(&self) -> (r: Vec<&PrerequisiteCheck>)
        ensures
            r@.map_values(|c: &PrerequisiteCheck| *c) == issues_of(self.checks@),
    {
        let mut r: Vec<&PrerequisiteCheck> = Vec::new();
        let mut i: usize = 0;
        while i < self.checks.len()
            invariant
                i <= self.checks@.len(),
                r@.map_values(|c: &PrerequisiteCheck| *c) == issues_of(
                    self.checks@.subrange(0, i as int),
                ),
            decreases self.checks@.len() - i,
        {
            let c = &self.checks[i];
            let ghost before = r@;
            proof {
                let pre = self.checks@.subrange(0, i + 1);
                assert(pre.drop_last() == self.checks@.subrange(0, i as int));
                assert(pre.last() == *c);
            }
            if !matches!(c.status, CheckStatus::Passed) {
                r.push(c);
                assert(r@.map_values(|c: &PrerequisiteCheck| *c) =~= before.map_values(
                    |c: &PrerequisiteCheck| *c,
                ).push(*c));
            }
            i += 1;
        }
        assert(self.checks@.subrange(0, self.checks@.len() as int) == self.checks@);
        r
    }

    /// How many checks passed, warned and failed.
    pub fn counts(&self) -> (r: (usize, usize, usize))
        ensures
            r.0 == count_ok(self.checks@),
            r.1 == count_warnings(self.checks@),
            r.2 == count_errors(self.checks@),
    {
        let mut ok: usize = 0;
        let mut warn: usize = 0;
        let mut err: usize = 0;
        let mut i: usize = 0;
        while i < self.checks.len()
            invariant
                i <= self.checks@.len(),
                ok == count_ok(self.checks@.subrange(0, i as int)),
                warn == count_warnings(self.checks@.subrange(0, i as int)),
                err == count_errors(self.checks@.subrange(0, i as int)),
                ok + warn + err == i,
            decreases self.checks@.len() - i,
        {
            proof {
                let pre = self.checks@.subrange(0, i + 1);
                assert(pre.drop_last() == self.checks@.subrange(0, i as int));
            }
            match &self.checks[i].status {
                CheckStatus::Passed => ok += 1,
                CheckStatus::Warning(_) => warn += 1,
                CheckStatus::Error(_) => err += 1,
            }
            i += 1;
        }
        assert(self.checks@.subrange(0, self.checks@.len() as int) == self.checks@);
        (ok, warn, err)
    }

    /// The closing verdict of the printed report.
    pub open spec fn verdict_text(&self) -> Seq<char> {
        if self.overall_ok && count_errors(self.checks@) == 0 {
            "Status: Ready to use zfswatch!"@
        } else if count_errors(self.checks@) == 0 {
            "Status: Usable with warnings"@
        } else {
            "Status: BLOCKED \u{2014} fix errors above before using zfswatch"@
        }
    }

    /// A consistent report is either ready to use or blocked: the verdict
    /// "usable with warnings" needs a report that is not OK yet has no failed
    /// check.
    pub proof fn law_verdict_of_consistent_report(&self)
        requires
            self.wf(),
        ensures
            self.verdict_text() == if count_errors(self.checks@) == 0 {
                "Status: Ready to use zfswatch!"@
            } else {
                "Status: BLOCKED \u{2014} fix errors above before using zfswatch"@
            },
    {
        law_counts_cover_checks(self.checks@);
    }

    /// The lines of the printed report.
    pub open spec fn report_lines(&self) -> Seq<Seq<char>> {
        seq![
            "zfswatch System Diagnostic Report"@,
            "=================================="@,
            "Platform: "@ + self.platform@,
            Seq::empty(),
        ] + checks_lines(self.checks@) + seq![
            "Summary: "@ + decimal(count_ok(self.checks@)) + " passed, "@ + decimal(
                count_warnings(self.checks@),
            ) + " warnings, "@ + decimal(count_errors(self.checks@)) + " errors"@,
            self.verdict_text(),
        ]
    }

    /// The report as the lines to print: a header with the platform, each
    /// check with its icon, message and fix, a summary of the counts and
    /// the verdict.
    pub fn render(&self) -> (r: Vec<String>)
        ensures
            crate::text::views(r@) == self.report_lines(),
    {
        let mut r: Vec<String> = Vec::new();
        crate::command::push_str(&mut r, "zfswatch System Diagnostic Report");
        crate::command::push_str(&mut r, "==================================");
        let p = concat2("Platform: ", self.platform.as_str());
        crate::command::push_str(&mut r, p.as_str());
        crate::command::push_str(&mut r, "");
        proof {
            reveal_strlit("");
            assert(""@ =~= Seq::<char>::empty());
        }
        let ghost head = crate::text::views(r@);
        assert(head =~= seq![
            "zfswatch System Diagnostic Report"@,
            "=================================="@,
            "Platform: "@ + self.platform@,
            Seq::<char>::empty(),
        ]);
        let mut i: usize = 0;
        while i < self.checks.len()
            invariant
                i <= self.checks@.len(),
                crate::text::views(r@) == head + checks_lines(self.checks@.subrange(0, i as int)),
            decreases self.checks@.len() - i,
        {
            let ghost before = crate::text::views(r@);
            push_check_lines(&mut r, &self.checks[i]);
            proof {
                let pre = self.checks@.subrange(0, i + 1);
                assert(pre.drop_last() == self.checks@.subrange(0, i as int));
                assert(pre.last() == self.checks@[i as int]);
                assert(crate::text::views(r@) =~= head + checks_lines(pre));
            }
            i += 1;
        }
        assert(self.checks@.subrange(0, self.checks@.len() as int) == self.checks@);
        let (ok, warn, err) = self.counts();
        let a = decimal_string(ok as u64);
        let b = decimal_string(warn as u64);
        let c = decimal_string(err as u64);
        let s1 = concat3("Summary: ", a.as_str(), " passed, ");
        let s2 = concat3(s1.as_str(), b.as_str(), " warnings, ");
        let s3 = concat3(s2.as_str(), c.as_str(), " errors");
        assert(s3@ =~= "Summary: "@ + decimal(count_ok(self.checks@)) + " passed, "@ + decimal(
            count_warnings(self.checks@),
        ) + " warnings, "@ + decimal(count_errors(self.checks@)) + " errors"@);
        let ghost before_summary = crate::text::views(r@);
        crate::command::push_str(&mut r, s3.as_str());
        let ghost after_summary = crate::text::views(r@);
        if self.overall_ok && err == 0 {
            crate::command::push_str(&mut r, "Status: Ready to use zfswatch!");
        } else if err == 0 {
            crate::command::push_str(&mut r, "Status: Usable with warnings");
        } else {
            crate::command::push_str(
                &mut r,
                "Status: BLOCKED \u{2014} fix errors above before using zfswatch",
            );
        }
        assert(crate::text::views(r@) == after_summary.push(self.verdict_text()));
        assert(crate::text::views(r@) =~= self.report_lines());
        r
    }
}

/// The icon a check is printed with.
pub open spec fn icon_of(s: CheckStatus) -> Seq<char> {
    match s {
        CheckStatus::Passed => "\u{2713}"@,
        CheckStatus::Warning(_) => "\u{26a0}"@,
        CheckStatus::Error(_) => "\u{2717}"@,
    }
}

/// The line that explains a warning or an error.
pub open spec fn status_lines(s: CheckStatus) -> Seq<Seq<char>> {
    match s {
        CheckStatus::Passed => Seq::empty(),
        CheckStatus::Warning(m) => seq!["  Warning: "@ + m@],
        CheckStatus::Error(m) => seq!["  Error: "@ + m@],
    }
}

/// The line with the fix, if there is one.
pub open spec fn hint_lines(h: Option<String>) -> Seq<Seq<char>> {
    match h {
        Some(h) => seq!["  Fix: "@ + h@],
        None => Seq::empty(),
    }
}

/// The printed lines of one check.
pub open spec fn check_lines(c: PrerequisiteCheck) -> Seq<Seq<char>> {
    seq![icon_of(c.status) + " "@ + c.name@] + status_lines(c.status) + hint_lines(c.fix_hint)
        + seq![Seq::empty()]
}

pub open spec fn checks_lines(cs: Seq<PrerequisiteCheck>) -> Seq<Seq<char>>
    decreases cs.len(),
{
    if cs.len() == 0 {
        Seq::empty()
    } else {
        checks_lines(cs.drop_last()) + check_lines(cs.last())
    }
}

fn push_check_lines(r: &mut Vec<String>, c: &PrerequisiteCheck)
    ensures
        crate::text::views(final(r)@) == crate::text::views(old(r)@) + check_lines(*c),
{
    let ghost base = crate::text::views(r@);
    let icon = match &c.status {
        CheckStatus::Passed => "\u{2713}",
        CheckStatus::Warning(_) => "\u{26a0}",
        CheckStatus::Error(_) => "\u{2717}",
    };
    assert(icon@ == icon_of(c.status));
    let first = concat3(icon, " ", c.name.as_str());
    crate::command::push_str(r, first.as_str());
    let ghost l0 = first@;
    assert(crate::text::views(r@) == base + seq![l0]);
    match &c.status {
        CheckStatus::Passed => {},
        CheckStatus::Warning(m) => {
            let l = concat2("  Warning: ", m.as_str());
            crate::command::push_str(r, l.as_str());
        },
        CheckStatus::Error(m) => {
            let l = concat2("  Error: ", m.as_str());
            crate::command::push_str(r, l.as_str());
        },
    }
    assert(crate::text::views(r@) =~= base + seq![l0] + status_lines(c.status));
    let ghost mid = crate::text::views(r@);
    match &c.fix_hint {
        Some(h) => {
            let l = concat2("  Fix: ", h.as_str());
            crate::command::push_str(r, l.as_str());
        },
        None => {},
    }
    assert(crate::text::views(r@) =~= mid + hint_lines(c.fix_hint));
    let ghost mid2 = crate::text::views(r@);
    crate::command::push_str(r, "");
    proof {
        reveal_strlit("");
        assert(""@ =~= Seq::<char>::empty());
    }
    assert(crate::text::views(r@) =~= mid2 + seq![Seq::<char>::empty()]);
    assert(crate::text::views(r@) =~= base + check_lines(*c));
}

/// What running `zpool --version` came to.
#[derive(Debug, Clone, PartialEq, Eq)]
pub enum ToolProbe {
    /// It ran and succeeded.
    Succeeded,
    /// It ran and failed.
    Failed,
    /// It could not be run; the error's text.
    Missing(String),
}

/// What looking at the target disk found.
#[derive(Debug, Clone, PartialEq, Eq)]
pub enum DiskProbe {
    /// A block or character device.
    Special,
    /// Something that is not a device.
    NotSpecial,
    /// Nothing could be read there; the error's text.
    Inaccessible(String),
}

/// Everything the diagnostics look at.
#[derive(Debug, Clone, PartialEq, Eq)]
pub struct SystemObservations {
    pub platform: Platform,
    /// Operating system and architecture, e.g. "linux x86_64".
    pub platform_label: String,
    pub euid: u32,
    pub zpool: ToolProbe,
    pub kernel_module_loaded: bool,
    /// The first line of the output of a successful `zpool --version`.
    pub version_output: Option<String>,
    /// The target disk, and what was found there.
    pub disk: Option<(String, DiskProbe)>,
}

/// The installation hint for each platform.
pub open spec fn install_hint_text(p: Platform) -> Seq<char> {
    match p {
        Platform::MacOs => "brew install --cask openzfs"@,
        Platform::Linux => "sudo apt install zfsutils-linux zfs-dkms  (or equivalent for your distro)"@,
        Platform::Other => "Install OpenZFS for your platform"@,
    }
}

/// Returns a platform-specific installation hint.
pub fn platform_install_hint(platform: Platform) -> (r: String)
    ensures
        r@ == install_hint_text(platform),
{
    match platform {
        Platform::MacOs => str_to_string("brew install --cask openzfs"),
        Platform::Linux => str_to_string(
            "sudo apt install zfsutils-linux zfs-dkms  (or equivalent for your distro)",
        ),
        Platform::Other => str_to_string("Install OpenZFS for your platform"),
    }
}

/// Whether the output of `kextstat -l` lists a ZFS extension: some line
/// contains "zfs" in any case.
pub open spec fn kext_listed_spec(stdout: Seq<char>) -> bool {
    exists|i: int| 0 <= i < lines(stdout).len() && contains(lowercase(#[trigger] lines(stdout)[i]), "zfs"@)
}

/// Whether the output of `lsmod` lists the `zfs` module: some line starts
/// with "zfs ".
pub open spec fn module_listed_spec(stdout: Seq<char>) -> bool {
    exists|i: int| 0 <= i < lines(stdout).len() && starts_with(#[trigger] lines(stdout)[i], "zfs "@)
}

pub fn kext_listed(stdout: &str) -> (r: bool)
    ensures
        r == kext_listed_spec(stdout@),
{
    let ls = lines_of(stdout);
    let ghost lv = lines(stdout@);
    let mut i: usize = 0;
    while i < ls.len()
        invariant
            i <= ls@.len(),
            crate::text::views(ls@) == lv,
            lv == lines(stdout@),
            forall|j: int| 0 <= j < i ==> !contains(lowercase(#[trigger] lv[j]), "zfs"@),
        decreases ls@.len() - i,
    {
        let low = to_lowercase(ls[i].as_str());
        assert(ls@[i as int]@ == lv[i as int]);
        if str_contains(low.as_str(), "zfs") {
            return true;
        }
        i += 1;
    }
    false
}

pub fn module_listed(stdout: &str) -> (r: bool)
    ensures
        r == module_listed_spec(stdout@),
{
    let ls = lines_of(stdout);
    let ghost lv = lines(stdout@);
    let mut i: usize = 0;
    while i < ls.len()
        invariant
            i <= ls@.len(),
            crate::text::views(ls@) == lv,
            lv == lines(stdout@),
            forall|j: int| 0 <= j < i ==> !starts_with(#[trigger] lv[j], "zfs "@),
        decreases ls@.len() - i,
    {
        assert(ls@[i as int]@ == lv[i as int]);
        if str_starts_with(ls[i].as_str(), "zfs ") {
            return true;
        }
        i += 1;
    }
    false
}

/// The first line of `stdout`, trimmed, if there is one.
pub open spec fn first_line_spec(stdout: Seq<char>) -> Option<Seq<char>> {
    if lines(stdout).len() > 0 {
        Some(trim(lines(stdout)[0]))
    } else {
        None
    }
}

pub fn first_line_trimmed(stdout: &str) -> (r: Option<String>)
    ensures
        hint_view(r) == first_line_spec(stdout@),
{
    let ls = lines_of(stdout);
    if ls.len() > 0 {
        assert(ls@[0]@ == lines(stdout@)[0]);
        Some(trimmed(ls[0].as_str()))
    } else {
        None
    }
}

/// The version check's verdict on the version `zpool` reported.
pub open spec fn version_check_spec(c: PrerequisiteCheck, p: Platform, out: Option<Seq<char>>) -> bool {
    match out {
        Some(v) => if contains(v, "2.3"@) || contains(v, "2.2"@) {
            check_is(c, "ZFS Version"@, "ZFS version for cross-platform compatibility"@, StatusView::Passed, None)
        } else {
            check_is(
                c,
                "ZFS Version"@,
                "ZFS version for cross-platform compatibility"@,
                StatusView::Warning("ZFS version "@ + v + " \u{2014} verify cross-platform compatibility"@),
                Some("Version "@ + v + " detected. For macOS \u{2194} Linux pool portability, use OpenZFS 2.2.x or 2.3.x on both platforms."@),
            )
        },
        None => check_is(
            c,
            "ZFS Version"@,
            "ZFS version for cross-platform compatibility"@,
            StatusView::Error("Unable to determine ZFS version"@),
            Some(install_hint_text(p)),
        ),
    }
}

/// A version that names the 2.2 or 2.3 series passes the version check,
/// whatever surrounds the series in the text ("zfs-2.2.4", "2.3.0-1") and on
/// every platform: the status is `Passed` and no hint is given, so the hint
/// that points to 2.2.x and 2.3.x never comes with such a version.
pub proof fn law_portable_versions_pass(
    c: PrerequisiteCheck,
    p: Platform,
    before: Seq<char>,
    series: Seq<char>,
    after: Seq<char>,
)
    requires
        series == "2.2"@ || series == "2.3"@,
        version_check_spec(c, p, Some(before + series + after)),
    ensures
        status_view(c.status) == StatusView::Passed,
        c.fix_hint is None,
{
    let v = before + series + after;
    assert(v.subrange(before.len() as int, before.len() + series.len() as int) =~= series);
    assert(occurs_at(v, series, before.len() as int));
}

/// A version that names neither series is only warned about: the status is
/// a warning and the hint points to the portable series.
pub proof fn law_other_versions_are_warned_about(c: PrerequisiteCheck, p: Platform, v: Seq<char>)
    requires
        !contains(v, "2.2"@),
        !contains(v, "2.3"@),
        version_check_spec(c, p, Some(v)),
    ensures
        status_view(c.status) is Warning,
        c.fix_hint matches Some(h) && contains(h@, "2.2.x or 2.3.x"@),
{
    reveal_strlit("2.2.x or 2.3.x");
    let tail = " detected. For macOS \u{2194} Linux pool portability, use OpenZFS 2.2.x or 2.3.x on both platforms."@;
    reveal_strlit(" detected. For macOS \u{2194} Linux pool portability, use OpenZFS 2.2.x or 2.3.x on both platforms.");
    let h = "Version "@ + v + tail;
    let at = h.len() - 33;
    assert(h.subrange(at, at + 14) =~= "2.2.x or 2.3.x"@);
    assert(occurs_at(h, "2.2.x or 2.3.x"@, at));
}

/// The tools check for what running `zpool --version` came to.
pub open spec fn tools_check_spec(c: PrerequisiteCheck, platform: Platform, probe: ToolProbe) -> bool {
    match probe {
        ToolProbe::Succeeded => check_is(
            c,
            "ZFS Tools"@,
            "ZFS userland CLI tools (zpool, zfs)"@,
            StatusView::Passed,
            None,
        ),
        ToolProbe::Failed => check_is(
            c,
            "ZFS Tools"@,
            "ZFS userland CLI tools (zpool, zfs)"@,
            StatusView::Error("zpool command found but returned an error"@),
            Some(install_hint_text(platform)),
        ),
        ToolProbe::Missing(e) => check_is(
            c,
            "ZFS Tools"@,
            "ZFS userland CLI tools (zpool, zfs)"@,
            StatusView::Error("zpool not found: "@ + e@),
            Some(install_hint_text(platform)),
        ),
    }
}

/// The kernel support check for whether the module or extension is loaded.
pub open spec fn module_check_spec(c: PrerequisiteCheck, platform: Platform, loaded: bool) -> bool {
    match platform {
        Platform::MacOs => if loaded {
            check_is(
                c,
                "ZFS Kernel Extension"@,
                "OpenZFS kernel extension loaded"@,
                StatusView::Passed,
                None,
            )
        } else {
            check_is(
                c,
                "ZFS Kernel Extension"@,
                "OpenZFS kernel extension loaded"@,
                StatusView::Error("ZFS kernel extension not loaded"@),
                Some(
                    "macOS: Install 'brew install --cask openzfs', then approve in System Settings \u{2192} Privacy & Security, then reboot."@,
                ),
            )
        },
        Platform::Linux => if loaded {
            check_is(
                c,
                "ZFS Kernel Module"@,
                "ZFS kernel modules (zfs, spl) loaded"@,
                StatusView::Passed,
                None,
            )
        } else {
            check_is(
                c,
                "ZFS Kernel Module"@,
                "ZFS kernel modules (zfs, spl) loaded"@,
                StatusView::Error("ZFS kernel module not loaded"@),
                Some("Linux: sudo apt install zfs-dkms zfsutils-linux && sudo modprobe zfs"@),
            )
        },
        Platform::Other => check_is(
            c,
            "ZFS Kernel Support"@,
            "ZFS kernel module/extension"@,
            StatusView::Error("Unsupported platform"@),
            Some("zfswatch only supports macOS and Linux"@),
        ),
    }
}

/// The privileges check for the effective user id `euid`.
pub open spec fn privileges_check_spec(c: PrerequisiteCheck, euid: u32) -> bool {
    if euid == 0 {
        check_is(
            c,
            "Root Privileges"@,
            "Running with root privileges (required for ZFS)"@,
            StatusView::Passed,
            None,
        )
    } else {
        check_is(
            c,
            "Root Privileges"@,
            "Running with root privileges (required for ZFS)"@,
            StatusView::Warning(
                "Running as UID "@ + decimal(euid as nat) + " \u{2014} ZFS operations require root"@,
            ),
            Some("Run with: sudo zfswatch <command>"@),
        )
    }
}

/// The disk check for what looking at `disk` found.
pub open spec fn disk_check_spec(c: PrerequisiteCheck, disk: Seq<char>, probe: DiskProbe) -> bool {
    match probe {
        DiskProbe::Special => check_is(
            c,
            "Disk "@ + disk,
            "Target disk "@ + disk + " exists"@,
            StatusView::Passed,
            None,
        ),
        DiskProbe::NotSpecial => check_is(
            c,
            "Disk "@ + disk,
            "Target disk "@ + disk + " exists"@,
            StatusView::Warning(disk + " exists but is not a block device"@),
            Some("Verify the correct device path (e.g. /dev/disk5 or /dev/sdb)"@),
        ),
        DiskProbe::Inaccessible(e) => check_is(
            c,
            "Disk "@ + disk,
            "Target disk "@ + disk + " exists"@,
            StatusView::Error(disk + " not accessible: "@ + e@),
            Some(
                "Verify the device path and permissions. On macOS, try /dev/disk5. On Linux, /dev/sdX or /dev/nvme0n1."@,
            ),
        ),
    }
}

/// Platform-agnostic prerequisite checker: each check judges an observation.
pub trait PrerequisiteChecker {
    /// Run all diagnostic checks and return a report.
    fn check_all(&self, obs: &SystemObservations) -> Result<DiagnosticReport>;

    /// Check if ZFS userland tools are installed.
    fn check_zfs_tools(&self, platform: Platform, probe: &ToolProbe) -> Result<PrerequisiteCheck>;

    /// Check if ZFS kernel module/extension is loaded.
    fn check_kernel_module(&self, platform: Platform, loaded: bool) -> Result<PrerequisiteCheck>;

    /// Check if running with required privileges.
    fn check_privileges(&self, euid: u32) -> Result<PrerequisiteCheck>;

    /// Check target disk availability.
    fn check_disk(&self, disk: &str, probe: &DiskProbe) -> Result<PrerequisiteCheck>;

    /// Check ZFS version and cross-platform compatibility.
    fn check_zfs_version(&self, platform: Platform, version_output: &Option<String>) -> Result<
        PrerequisiteCheck,
    >;
}

/// The checker for the real system.
pub struct SystemPrerequisiteChecker;

impl SystemPrerequisiteChecker {
    pub fn new() -> Self {
        SystemPrerequisiteChecker
    }
}

fn check(name: &str, description: &str, status: CheckStatus, fix_hint: Option<String>) -> (c:
    PrerequisiteCheck)
    ensures
        c.name@ == name@,
        c.description@ == description@,
        c.status == status,
        c.fix_hint == fix_hint,
{
    PrerequisiteCheck {
        name: str_to_string(name),
        description: str_to_string(description),
        status,
        fix_hint,
    }
}

impl PrerequisiteChecker for SystemPrerequisiteChecker {
    fn check_all(&self, obs: &SystemObservations) -> (r: Result<DiagnosticReport>)
        ensures
            r matches Ok(rep) && rep.wf() && rep.platform@ == obs.platform_label@
                && rep.checks@.len() == (if obs.disk is Some {
                5int
            } else {
                4int
            }) && privileges_check_spec(rep.checks@[0], obs.euid) && tools_check_spec(
                rep.checks@[1],
                obs.platform,
                obs.zpool,
            ) && module_check_spec(rep.checks@[2], obs.platform, obs.kernel_module_loaded)
                && version_check_spec(rep.checks@[3], obs.platform, hint_view(obs.version_output))
                && (obs.disk matches Some(d) ==> disk_check_spec(rep.checks@[4], d.0@, d.1)),
    {
        let mut report = DiagnosticReport::new(obs.platform_label.clone());
        let c = self.check_privileges(obs.euid)?;
        report.add(c);
        let c = self.check_zfs_tools(obs.platform, &obs.zpool)?;
        report.add(c);
        let c = self.check_kernel_module(obs.platform, obs.kernel_module_loaded)?;
        report.add(c);
        let c = self.check_zfs_version(obs.platform, &obs.version_output)?;
        report.add(c);
        match &obs.disk {
            Some((path, probe)) => {
                let c = self.check_disk(path.as_str(), probe)?;
                report.add(c);
            },
            None => {},
        }
        Ok(report)
    }

    fn check_zfs_tools(&self, platform: Platform, probe: &ToolProbe) -> (r: Result<
        PrerequisiteCheck,
    >)
        ensures
            r matches Ok(c) && tools_check_spec(c, platform, *probe),

    {
        let name = "ZFS Tools";
        let desc = "ZFS userland CLI tools (zpool, zfs)";
        match probe {
            ToolProbe::Succeeded => Ok(check(name, desc, CheckStatus::Passed, None)),
            ToolProbe::Failed => Ok(
                check(
                    name,
                    desc,
                    CheckStatus::Error(str_to_string("zpool command found but returned an error")),
                    Some(platform_install_hint(platform)),
                ),
            ),
            ToolProbe::Missing(e) => Ok(
                check(
                    name,
                    desc,
                    CheckStatus::Error(concat2("zpool not found: ", e.as_str())),
                    Some(platform_install_hint(platform)),
                ),
            ),
        }
    }

    fn check_kernel_module(&self, platform: Platform, loaded: bool) -> (r: Result<
        PrerequisiteCheck,
    >)
        ensures
            r matches Ok(c) && module_check_spec(c, platform, loaded),

    {
        match platform {
            Platform::MacOs => {
                let name = "ZFS Kernel Extension";
                let desc = "OpenZFS kernel extension loaded";
                if loaded {
                    Ok(check(name, desc, CheckStatus::Passed, None))
                } else {
                    Ok(
                        check(
                            name,
                            desc,
                            CheckStatus::Error(str_to_string("ZFS kernel extension not loaded")),
                            Some(
                                str_to_string(
                                    "macOS: Install 'brew install --cask openzfs', then approve in System Settings \u{2192} Privacy & Security, then reboot.",
                                ),
                            ),
                        ),
                    )
                }
            },
            Platform::Linux => {
                let name = "ZFS Kernel Module";
                let desc = "ZFS kernel modules (zfs, spl) loaded";
                if loaded {
                    Ok(check(name, desc, CheckStatus::Passed, None))
                } else {
                    Ok(
                        check(
                            name,
                            desc,
                            CheckStatus::Error(str_to_string("ZFS kernel module not loaded")),
                            Some(
                                str_to_string(
                                    "Linux: sudo apt install zfs-dkms zfsutils-linux && sudo modprobe zfs",
                                ),
                            ),
                        ),
                    )
                }
            },
            Platform::Other => Ok(
                check(
                    "ZFS Kernel Support",
                    "ZFS kernel module/extension",
                    CheckStatus::Error(str_to_string("Unsupported platform")),
                    Some(str_to_string("zfswatch only supports macOS and Linux")),
                ),
            ),
        }
    }

    fn check_privileges(&self, euid: u32) -> (r: Result<PrerequisiteCheck>)
        ensures
            r matches Ok(c) && privileges_check_spec(c, euid),

    {
        let name = "Root Privileges";
        let desc = "Running with root privileges (required for ZFS)";
        if euid == 0 {
            Ok(check(name, desc, CheckStatus::Passed, None))
        } else {
            let uid = decimal_string(euid as u64);
            Ok(
                check(
                    name,
                    desc,
                    CheckStatus::Warning(
                        concat3("Running as UID ", uid.as_str(), " \u{2014} ZFS operations require root"),
                    ),
                    Some(str_to_string("Run with: sudo zfswatch <command>")),
                ),
            )
        }
    }

    fn check_disk(&self, disk: &str, probe: &DiskProbe) -> (r: Result<PrerequisiteCheck>)
        ensures
            r matches Ok(c) && disk_check_spec(c, disk@, *probe),

    {
        let name = concat2("Disk ", disk);
        let desc = concat3("Target disk ", disk, " exists");
        let status = match probe {
            DiskProbe::Special => CheckStatus::Passed,
            DiskProbe::NotSpecial => CheckStatus::Warning(
                concat2(disk, " exists but is not a block device"),
            ),
            DiskProbe::Inaccessible(e) => CheckStatus::Error(
                concat3(disk, " not accessible: ", e.as_str()),
            ),
        };
        let fix_hint = match probe {
            DiskProbe::Special => None,
            DiskProbe::NotSpecial => Some(
                str_to_string("Verify the correct device path (e.g. /dev/disk5 or /dev/sdb)"),
            ),
            DiskProbe::Inaccessible(_) => Some(
                str_to_string(
                    "Verify the device path and permissions. On macOS, try /dev/disk5. On Linux, /dev/sdX or /dev/nvme0n1.",
                ),
            ),
        };
        Ok(PrerequisiteCheck { name, description: desc, status, fix_hint })
    }

    fn check_zfs_version(&self, platform: Platform, version_output: &Option<String>) -> (r: Result<
        PrerequisiteCheck,
    >)
        ensures
            r matches Ok(c) && version_check_spec(c, platform, hint_view(*version_output)),
    {
        let name = "ZFS Version";
        let desc = "ZFS version for cross-platform compatibility";
        match version_output {
            Some(version) => {
                let v = version.as_str();
                if str_contains(v, "2.3") || str_contains(v, "2.2") {
                    Ok(check(name, desc, CheckStatus::Passed, None))
                } else {
                    let hint = concat3(
                        "Version ",
                        v,
                        " detected. For macOS \u{2194} Linux pool portability, use OpenZFS 2.2.x or 2.3.x on both platforms.",
                    );
                    let status = CheckStatus::Warning(
                        concat3("ZFS version ", v, " \u{2014} verify cross-platform compatibility"),
                    );
                    Ok(check(name, desc, status, Some(hint)))
                }
            },
            None => Ok(
                check(
                    name,
                    desc,
                    CheckStatus::Error(str_to_string("Unable to determine ZFS version")),
                    Some(platform_install_hint(platform)),
                ),
            ),
        }
    }
}

} // verus!
