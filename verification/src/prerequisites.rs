//! The prerequisite checks that come before the first install step: from
//! what the host reports of each prerequisite, whether the install may
//! begin, and what is said about the checks that could not be made. The
//! host is asked by the caller.
use vstd::prelude::*;
use vstd::string::*;
use crate::config::{Prerequisite, PrerequisiteView};
use crate::error::{ErrorView, LynxError};
use crate::progress::{EventView, ProgressEvent};
use crate::text::{chars_of, concat, concat3, decimal, decimal_string};

verus! {

/// What the host reports about one prerequisite.
#[derive(Debug, Clone)]
pub enum PrerequisiteReport {
    /// The installed version (of .NET, or of the operating system), or
    /// `None` where nothing is installed
    Version(Option<String>),
    /// Whether the component (the Visual C++ redistributable) is installed
    Installed(bool),
    /// The free space where the app is installed, in MB
    FreeMb(u64),
    /// The exit code of the check command, or `None` where it could not run
    /// or ended without one
    ExitCode(Option<i32>),
    /// The host cannot tell
    Unknown,
}

/// The mathematical value of a `PrerequisiteReport`.
pub enum ReportView {
    Version(Option<Seq<char>>),
    Installed(bool),
    FreeMb(int),
    ExitCode(Option<int>),
    Unknown,
}

impl View for PrerequisiteReport {
    type V = ReportView;

    open spec fn view(&self) -> ReportView {
        match self {
            PrerequisiteReport::Version(v) => ReportView::Version(
                match v {
                    Some(s) => Some(s@),
                    None => None,
                },
            ),
            PrerequisiteReport::Installed(b) => ReportView::Installed(*b),
            PrerequisiteReport::FreeMb(m) => ReportView::FreeMb(*m as int),
            PrerequisiteReport::ExitCode(c) => ReportView::ExitCode(
                match c {
                    Some(x) => Some(*x as int),
                    None => None,
                },
            ),
            PrerequisiteReport::Unknown => ReportView::Unknown,
        }
    }
}

// ─────────────────────────────────────────────
//  Versions
// ─────────────────────────────────────────────

/// The largest part value that still takes another digit: parts stay
/// below 10^18.
pub open spec fn part_limit() -> int {
    100_000_000_000_000_000
}

/// Reading a dotted version from position `i` of `s`, with `cur` the part
/// read so far (`started` where it has a digit) and `acc` the parts before
/// it. `None` where a part is empty, a character is neither a digit nor a
/// dot, or a part reaches 10^18.
pub open spec fn parse_version_from(s: Seq<char>, i: int, cur: int, started: bool, acc: Seq<int>) -> Option<Seq<int>>
    decreases s.len() - i,
{
    if i < 0 || i >= s.len() {
        if started {
            Some(acc.push(cur))
        } else {
            None
        }
    } else if s[i] == '.' {
        if started {
            parse_version_from(s, i + 1, 0, false, acc.push(cur))
        } else {
            None
        }
    } else if '0' <= s[i] <= '9' && cur < part_limit() {
        parse_version_from(s, i + 1, cur * 10 + (s[i] as int - '0' as int), true, acc)
    } else {
        None
    }
}

/// The numbers of a dotted version such as `10.0.19045`.
pub open spec fn version_numbers(s: Seq<char>) -> Option<Seq<int>> {
    parse_version_from(s, 0, 0, false, Seq::empty())
}

/// `have` is at least `need` from part `i` on, comparing part by part and
/// reading a missing part as 0.
pub open spec fn at_least_from(have: Seq<int>, need: Seq<int>, i: int) -> bool
    decreases have.len() + need.len() - i,
{
    if i < 0 || (i >= have.len() && i >= need.len()) {
        true
    } else {
        let a = if i < have.len() { have[i] } else { 0 };
        let b = if i < need.len() { need[i] } else { 0 };
        if a != b {
            a > b
        } else {
            at_least_from(have, need, i + 1)
        }
    }
}

/// The version `have` is at least `need`; a version that cannot be read is
/// never enough, nor is any version for a minimum that cannot be read.
pub open spec fn version_at_least(have: Seq<char>, need: Seq<char>) -> bool {
    match (version_numbers(have), version_numbers(need)) {
        (Some(h), Some(n)) => at_least_from(h, n, 0),
        _ => false,
    }
}

fn parse_version(s: &str) -> (r: Option<Vec<u64>>)
    ensures
        match r {
            Some(v) => version_numbers(s@) == Some(v@.map_values(|x: u64| x as int)),
            None => version_numbers(s@) is None,
        },
{
    let cs = chars_of(s);
    let n = cs.len();
    let mut acc: Vec<u64> = Vec::new();
    let mut cur: u64 = 0;
    let mut started = false;
    let mut i: usize = 0;
    assert(acc@.map_values(|x: u64| x as int) =~= Seq::<int>::empty());
    while i < n
        invariant
            n == cs@.len(),
            cs@ == s@,
            i <= n,
            cur < 1_000_000_000_000_000_000,
            version_numbers(s@) == parse_version_from(s@, i as int, cur as int, started, acc@.map_values(|x: u64| x as int)),
        decreases n - i,
    {
        let c = cs[i];
        if c == '.' {
            if !started {
                return None;
            }
            let ghost before = acc@.map_values(|x: u64| x as int);
            acc.push(cur);
            assert(acc@.map_values(|x: u64| x as int) =~= before.push(cur as int));
            cur = 0;
            started = false;
        } else if '0' <= c && c <= '9' && cur < 100_000_000_000_000_000 {
            let d = (c as u32 - '0' as u32) as u64;
            assert(d == c as int - '0' as int);
            cur = cur * 10 + d;
            started = true;
        } else {
            return None;
        }
        i = i + 1;
    }
    if !started {
        return None;
    }
    let ghost before = acc@.map_values(|x: u64| x as int);
    acc.push(cur);
    assert(acc@.map_values(|x: u64| x as int) =~= before.push(cur as int));
    Some(acc)
}

fn at_least(have: &Vec<u64>, need: &Vec<u64>) -> (r: bool)
    ensures
        r == at_least_from(have@.map_values(|x: u64| x as int), need@.map_values(|x: u64| x as int), 0),
{
    let ghost h = have@.map_values(|x: u64| x as int);
    let ghost nd = need@.map_values(|x: u64| x as int);
    let m = if have.len() > need.len() { have.len() } else { need.len() };
    let mut i: usize = 0;
    while i < m
        invariant
            m == (if have@.len() > need@.len() { have@.len() } else { need@.len() }),
            i <= m,
            h == have@.map_values(|x: u64| x as int),
            nd == need@.map_values(|x: u64| x as int),
            at_least_from(h, nd, 0) == at_least_from(h, nd, i as int),
        decreases m - i,
    {
        let a: u64 = if i < have.len() { have[i] } else { 0 };
        let b: u64 = if i < need.len() { need[i] } else { 0 };
        if a != b {
            return a > b;
        }
        i = i + 1;
    }
    true
}

/// Whether the version `have` is at least `need`.
pub fn version_is_at_least(have: &str, need: &str) -> (r: bool)
    ensures
        r == version_at_least(have@, need@),
{
    match (parse_version(have), parse_version(need)) {
        (Some(h), Some(n)) => at_least(&h, &n),
        _ => false,
    }
}

// ─────────────────────────────────────────────
//  Verdicts
// ─────────────────────────────────────────────

/// What a prerequisite is called in messages.
pub open spec fn prerequisite_label(p: PrerequisiteView) -> Seq<char> {
    match p {
        PrerequisiteView::DotNet { minimum_version, .. } => ".NET "@ + minimum_version,
        PrerequisiteView::VcRedist { year, arch, .. } => "Visual C++ "@ + year + " redistributable ("@ + arch + ")"@,
        PrerequisiteView::OsVersion { minimum } => "OS version "@ + minimum,
        PrerequisiteView::DiskSpace { required_mb } => decimal(required_mb as nat) + " MB of free disk space"@,
        PrerequisiteView::Custom { label, .. } => label,
    }
}

/// What a report says of a prerequisite.
pub enum Verdict {
    /// It is met
    Met,
    /// The report cannot tell
    Unchecked,
    /// It is not met, for this reason
    Unmet(Seq<char>),
}

/// The verdict on `p` from what the host reports. A version, an
/// installation, the free space or the check command's exit code decides;
/// a report of another kind, or `Unknown`, leaves the prerequisite
/// unchecked (an operating system that reports no version too).
pub open spec fn verdict(p: PrerequisiteView, r: ReportView) -> Verdict {
    match (p, r) {
        (PrerequisiteView::DotNet { minimum_version, .. }, ReportView::Version(v)) => match v {
            Some(have) => if version_at_least(have, minimum_version) {
                Verdict::Met
            } else {
                Verdict::Unmet(prerequisite_label(p) + " or later is required"@)
            },
            None => Verdict::Unmet(prerequisite_label(p) + " or later is required"@),
        },
        (PrerequisiteView::OsVersion { minimum }, ReportView::Version(v)) => match v {
            Some(have) => if version_at_least(have, minimum) {
                Verdict::Met
            } else {
                Verdict::Unmet(prerequisite_label(p) + " or later is required"@)
            },
            None => Verdict::Unchecked,
        },
        (PrerequisiteView::VcRedist { .. }, ReportView::Installed(b)) => if b {
            Verdict::Met
        } else {
            Verdict::Unmet(prerequisite_label(p) + " is required"@)
        },
        (PrerequisiteView::DiskSpace { required_mb }, ReportView::FreeMb(free)) => if free >= required_mb {
            Verdict::Met
        } else {
            Verdict::Unmet(prerequisite_label(p) + " is required"@)
        },
        (PrerequisiteView::Custom { expected_exit_code, error_message, .. }, ReportView::ExitCode(c)) => match c {
            Some(code) => if code == expected_exit_code {
                Verdict::Met
            } else {
                Verdict::Unmet(error_message)
            },
            None => Verdict::Unmet(error_message),
        },
        _ => Verdict::Unchecked,
    }
}

/// The report on the `i`-th prerequisite: `Unknown` where there is none.
pub open spec fn report_at(reports: Seq<PrerequisiteReport>, i: int) -> ReportView {
    if 0 <= i < reports.len() {
        reports[i]@
    } else {
        ReportView::Unknown
    }
}

/// Checking the prerequisites from the `i`-th on: the warnings about the
/// ones that could not be checked, or the failure of the first that is not
/// met.
pub open spec fn checks_from(ps: Seq<PrerequisiteView>, reports: Seq<PrerequisiteReport>, i: int) -> Result<
    Seq<EventView>,
    ErrorView,
>
    decreases ps.len() - i,
{
    if i < 0 || i >= ps.len() {
        Ok(Seq::empty())
    } else {
        match verdict(ps[i], report_at(reports, i)) {
            Verdict::Met => checks_from(ps, reports, i + 1),
            Verdict::Unchecked => match checks_from(ps, reports, i + 1) {
                Ok(w) => Ok(
                    seq![EventView::Warning { message: "Could not check prerequisite: "@ + prerequisite_label(ps[i]) }]
                        + w,
                ),
                Err(e) => Err(e),
            },
            Verdict::Unmet(reason) => Err(ErrorView::StepFailed { step: "Prerequisites"@, reason }),
        }
    }
}

fn label_of(p: &Prerequisite) -> (r: String)
    ensures
        r@ == prerequisite_label(p@),
{
    match p {
        Prerequisite::DotNet { minimum_version, .. } => concat(".NET ", minimum_version.as_str()),
        Prerequisite::VcRedist { year, arch, .. } => {
            let mut s = concat3("Visual C++ ", year.as_str(), " redistributable (");
            s.append(arch.as_str());
            s.append(")");
            s
        },
        Prerequisite::OsVersion { minimum } => concat("OS version ", minimum.as_str()),
        Prerequisite::DiskSpace { required_mb } => {
            let n = decimal_string(*required_mb);
            concat(n.as_str(), " MB of free disk space")
        },
        Prerequisite::Custom { label, .. } => label.clone(),
    }
}

/// The verdict on one prerequisite: `Ok(true)` where it is met,
/// `Ok(false)` where it cannot be checked, and the reason where it is not
/// met.
fn judge(p: &Prerequisite, r: &PrerequisiteReport) -> (out: Result<bool, String>)
    ensures
        match verdict(p@, r@) {
            Verdict::Met => out == Ok::<bool, String>(true),
            Verdict::Unchecked => out == Ok::<bool, String>(false),
            Verdict::Unmet(reason) => out matches Err(m) && m@ == reason,
        },
{
    match (p, r) {
        (Prerequisite::DotNet { minimum_version, .. }, PrerequisiteReport::Version(v)) => {
            let ok = match v {
                Some(have) => version_is_at_least(have.as_str(), minimum_version.as_str()),
                None => false,
            };
            if ok {
                Ok(true)
            } else {
                let l = label_of(p);
                Err(concat(l.as_str(), " or later is required"))
            }
        },
        (Prerequisite::OsVersion { minimum }, PrerequisiteReport::Version(v)) => match v {
            Some(have) => if version_is_at_least(have.as_str(), minimum.as_str()) {
                Ok(true)
            } else {
                let l = label_of(p);
                Err(concat(l.as_str(), " or later is required"))
            },
            None => Ok(false),
        },
        (Prerequisite::VcRedist { .. }, PrerequisiteReport::Installed(b)) => if *b {
            Ok(true)
        } else {
            let l = label_of(p);
            Err(concat(l.as_str(), " is required"))
        },
        (Prerequisite::DiskSpace { required_mb }, PrerequisiteReport::FreeMb(free)) => if *free >= *required_mb {
            Ok(true)
        } else {
            let l = label_of(p);
            Err(concat(l.as_str(), " is required"))
        },
        (Prerequisite::Custom { expected_exit_code, error_message, .. }, PrerequisiteReport::ExitCode(c)) => match c {
            Some(code) => if *code == *expected_exit_code {
                Ok(true)
            } else {
                Err(error_message.clone())
            },
            None => Err(error_message.clone()),
        },
        _ => Ok(false),
    }
}

/// Whether the install may begin, from what the host reports of each
/// prerequisite (the `i`-th report is about the `i`-th prerequisite; a
/// missing report is `Unknown`): the warnings to show about the
/// prerequisites that could not be checked, or, where one is not met, the
/// `StepFailed` error of the first such with its reason.
pub fn check_prerequisites(prerequisites: &Vec<Prerequisite>, reports: &Vec<PrerequisiteReport>) -> (r: Result<
    Vec<ProgressEvent>,
    LynxError,
>)
    ensures
        match checks_from(prerequisites@.map_values(|p: Prerequisite| p@), reports@, 0) {
            Ok(w) => r matches Ok(v) && v@.map_values(|e: ProgressEvent| e@) == w,
            Err(e) => r matches Err(x) && x@ == e,
        },
{
    let ghost ps = prerequisites@.map_values(|p: Prerequisite| p@);
    let n = prerequisites.len();
    let mut warnings: Vec<ProgressEvent> = Vec::new();
    let mut i: usize = 0;
    assert(warnings@.map_values(|e: ProgressEvent| e@) + Seq::<EventView>::empty() =~= Seq::<EventView>::empty());
    while i < n
        invariant
            n == prerequisites@.len(),
            ps == prerequisites@.map_values(|p: Prerequisite| p@),
            i <= n,
            checks_from(ps, reports@, 0) == match checks_from(ps, reports@, i as int) {
                Ok(w) => Ok(warnings@.map_values(|e: ProgressEvent| e@) + w),
                Err(e) => Err::<Seq<EventView>, ErrorView>(e),
            },
        decreases n - i,
    {
        let p = &prerequisites[i];
        assert(ps[i as int] == p@);
        let verdict = if i < reports.len() {
            judge(p, &reports[i])
        } else {
            judge(p, &PrerequisiteReport::Unknown)
        };
        assert(report_at(reports@, i as int) == if i < reports.len() {
            reports@[i as int]@
        } else {
            ReportView::Unknown
        });
        match verdict {
            Ok(true) => {},
            Ok(false) => {
                let l = label_of(p);
                let message = concat("Could not check prerequisite: ", l.as_str());
                let ghost before = warnings@.map_values(|e: ProgressEvent| e@);
                let ev = ProgressEvent::Warning { message };
                warnings.push(ev);
                proof {
                    assert(warnings@.map_values(|e: ProgressEvent| e@) =~= before.push(ev@));
                    match checks_from(ps, reports@, i + 1) {
                        Ok(w) => {
                            assert(before + (seq![ev@] + w) =~= before.push(ev@) + w);
                        },
                        Err(_) => {},
                    }
                }
            },
            Err(reason) => {
                return Err(LynxError::StepFailed { step: String::from_str("Prerequisites"), reason });
            },
        }
        i = i + 1;
    }
    assert(warnings@.map_values(|e: ProgressEvent| e@) + Seq::<EventView>::empty() =~= warnings@.map_values(
        |e: ProgressEvent| e@,
    ));
    Ok(warnings)
}

proof fn lemma_at_least_from_refl(h: Seq<int>, i: int)
    requires
        0 <= i,
    ensures
        at_least_from(h, h, i),
    decreases h.len() + h.len() - i,
{
    if i < h.len() {
        lemma_at_least_from_refl(h, i + 1);
    }
}

proof fn lemma_at_least_from_trans(a: Seq<int>, b: Seq<int>, c: Seq<int>, i: int)
    requires
        0 <= i,
        at_least_from(a, b, i),
        at_least_from(b, c, i),
    ensures
        at_least_from(a, c, i),
    decreases a.len() + b.len() + c.len() - i,
{
    if i < a.len() || i < b.len() || i < c.len() {
        let x = if i < a.len() { a[i] } else { 0 };
        let y = if i < b.len() { b[i] } else { 0 };
        let z = if i < c.len() { c[i] } else { 0 };
        if x == y && y == z {
            if !(i >= a.len() && i >= c.len()) {
                lemma_at_least_from_trans(a, b, c, i + 1);
            } else {
                lemma_at_least_from_zeros(a, c, i);
            }
        }
    }
}

proof fn lemma_at_least_from_zeros(a: Seq<int>, c: Seq<int>, i: int)
    requires
        0 <= i,
        i >= a.len() && i >= c.len(),
    ensures
        at_least_from(a, c, i),
{
}

proof fn lemma_at_least_from_total(a: Seq<int>, b: Seq<int>, i: int)
    requires
        0 <= i,
    ensures
        at_least_from(a, b, i) || at_least_from(b, a, i),
    decreases a.len() + b.len() - i,
{
    if i < a.len() || i < b.len() {
        lemma_at_least_from_total(a, b, i + 1);
    }
}

/// Versions are compared as an order: every readable version is at least
/// itself, of two readable versions one is at least the other, and a
/// version at least a second one that is at least a third is at least the
/// third. So a newer installed version never fails a minimum that an older
/// one meets.
pub proof fn lemma_version_order(a: Seq<char>, b: Seq<char>, c: Seq<char>)
    ensures
        version_numbers(a) is Some ==> version_at_least(a, a),
        version_numbers(a) is Some && version_numbers(b) is Some ==> version_at_least(a, b) || version_at_least(b, a),
        version_at_least(a, b) && version_at_least(b, c) ==> version_at_least(a, c),
{
    if let Some(h) = version_numbers(a) {
        lemma_at_least_from_refl(h, 0);
        if let Some(n) = version_numbers(b) {
            lemma_at_least_from_total(h, n, 0);
        }
    }
    if version_at_least(a, b) && version_at_least(b, c) {
        lemma_at_least_from_trans(
            version_numbers(a)->Some_0,
            version_numbers(b)->Some_0,
            version_numbers(c)->Some_0,
            0,
        );
    }
}

/// What decides each kind of prerequisite: the free space must reach the
/// requirement, the check command must exit with the expected code (a
/// command that does not run fails with the prerequisite's own message),
/// the Visual C++ redistributable must be installed, and .NET must be
/// installed in a version at least the minimum; a report that does not
/// speak of the prerequisite leaves it unchecked.
pub proof fn lemma_verdict_law(p: PrerequisiteView, r: ReportView)
    ensures
        match (p, r) {
            (PrerequisiteView::DiskSpace { required_mb }, ReportView::FreeMb(free)) => verdict(p, r) is Met <==> free
                >= required_mb,
            (PrerequisiteView::Custom { expected_exit_code, error_message, .. }, ReportView::ExitCode(Some(code))) =>
                if code == expected_exit_code {
                verdict(p, r) is Met
            } else {
                verdict(p, r) == Verdict::Unmet(error_message)
            },
            (PrerequisiteView::Custom { error_message, .. }, ReportView::ExitCode(None)) => verdict(p, r)
                == Verdict::Unmet(error_message),
            (PrerequisiteView::VcRedist { .. }, ReportView::Installed(b)) => verdict(p, r) is Met <==> b,
            (PrerequisiteView::DotNet { minimum_version, .. }, ReportView::Version(v)) => verdict(p, r) is Met <==> (
            v matches Some(have) && version_at_least(have, minimum_version)),
            (PrerequisiteView::OsVersion { minimum }, ReportView::Version(Some(have))) => verdict(p, r) is Met <==> version_at_least(
                have,
                minimum,
            ),
            _ => true,
        },
        r is Unknown ==> verdict(p, r) is Unchecked,
{
}

/// The check lets the install begin exactly when no prerequisite is unmet;
/// otherwise it fails with the reason of the first unmet one, under the
/// step `Prerequisites`. A prerequisite that is met adds nothing, one that
/// is unchecked adds one warning.
pub proof fn lemma_prerequisites_law(ps: Seq<PrerequisiteView>, reports: Seq<PrerequisiteReport>, i: int)
    requires
        0 <= i <= ps.len(),
    ensures
        checks_from(ps, reports, i) is Ok <==> forall|j: int| i <= j < ps.len() ==> !(#[trigger] verdict(
            ps[j],
            report_at(reports, j),
        ) is Unmet),
        match checks_from(ps, reports, i) {
            Err(e) => exists|j: int|
                i <= j < ps.len() && (#[trigger] verdict(ps[j], report_at(reports, j)) matches Verdict::Unmet(reason)
                    && e == ErrorView::StepFailed { step: "Prerequisites"@, reason }) && forall|m: int|
                    i <= m < j ==> !(#[trigger] verdict(ps[m], report_at(reports, m)) is Unmet),
            Ok(w) => w.len() <= ps.len() - i,
        },
    decreases ps.len() - i,
{
    if i < ps.len() {
        lemma_prerequisites_law(ps, reports, i + 1);
        let v = verdict(ps[i], report_at(reports, i));
        if let Verdict::Unmet(reason) = v {
            assert(checks_from(ps, reports, i) == Err::<Seq<EventView>, ErrorView>(
                ErrorView::StepFailed { step: "Prerequisites"@, reason },
            ));
        }
        if checks_from(ps, reports, i) is Ok {
            assert forall|j: int| i <= j < ps.len() implies !(#[trigger] verdict(ps[j], report_at(reports, j)) is Unmet) by {
                if j > i {
                }
            }
        }
        if let Err(e) = checks_from(ps, reports, i) {
            if !(v is Unmet) {
                let j = choose|j: int|
                    i + 1 <= j < ps.len() && (#[trigger] verdict(ps[j], report_at(reports, j)) matches Verdict::Unmet(
                        reason,
                    ) && e == ErrorView::StepFailed { step: "Prerequisites"@, reason }) && forall|m: int|
                        i + 1 <= m < j ==> !(#[trigger] verdict(ps[m], report_at(reports, m)) is Unmet);
                assert(forall|m: int| i <= m < j ==> !(#[trigger] verdict(ps[m], report_at(reports, m)) is Unmet));
            }
        }
    }
}

} // verus!
