//! The summary boxes: the one part of a page that computes rather than lists. The Dashboard's
//! box spells out the header's counters; the Disaster Recovery box adds the bounded sampler's
//! tallies to four counters.

use vstd::prelude::*;
use crate::ascii::{decimal, decimal_string, str_eq};

verus! {

/// How a value is coloured.
#[derive(Debug, Clone, Copy, PartialEq, Eq, Structural)]
pub enum Role {
    Neutral,
    Good,
    Off,
    Warn,
    Error,
    Pending,
    Muted,
}

/// The header's seven counters, each unknown until the poller could read it.
#[derive(Debug, Clone, Copy, PartialEq, Eq, Default, Structural)]
pub struct Stats {
    pub clusters: Option<u64>,
    pub hosts: Option<u64>,
    pub vms: Option<u64>,
    pub vms_on: Option<u64>,
    pub alerts_critical: Option<u64>,
    pub alerts_warning: Option<u64>,
    pub tasks_running: Option<u64>,
    /// Whether the last cycle failed and these are the previous one's numbers.
    pub stale: bool,
}

/// The machines not powered on: unknown when either count is.
pub open spec fn vms_off_spec(s: Stats) -> Option<u64> {
    match (s.vms, s.vms_on) {
        (Some(all), Some(on)) => Some(if all > on { (all - on) as u64 } else { 0 }),
        _ => None,
    }
}

impl Stats {
    /// The machines not powered on: unknown when either count is.
    pub fn vms_off(&self) -> (r: Option<u64>)
        ensures
            r == vms_off_spec(*self),
    {
        match (self.vms, self.vms_on) {
            (Some(all), Some(on)) => Some(if all > on { all - on } else { 0 }),
            _ => None,
        }
    }
}

/// The Disaster Recovery sampler's last cycle: four counters, and how the VMs it sampled
/// stand.
#[derive(Debug, Clone, Copy, PartialEq, Eq, Default, Structural)]
pub struct Sample {
    pub policies: Option<u64>,
    pub plans: Option<u64>,
    pub recovery_points: Option<u64>,
    pub jobs: Option<u64>,
    pub sampled: u64,
    pub in_sync: u64,
    pub syncing: u64,
    pub out_of_sync: u64,
    /// Whether the endpoint the tallies come from is served at all.
    pub available: bool,
}

/// A right-hand column line: `label` dim, `value` in its role's colour.
#[derive(Debug, Clone, PartialEq, Eq)]
pub struct SummaryLine {
    pub label: String,
    pub value: String,
    pub role: Role,
}

impl SummaryLine {
    pub fn new(label: &str, value: String, role: Role) -> (r: SummaryLine)
        ensures
            r.label@ == label@,
            r.value@ == value@,
            r.role == role,
    {
        SummaryLine { label: label.to_string(), value, role }
    }
}

/// A line as values.
pub open spec fn line_view(l: SummaryLine) -> (Seq<char>, Seq<char>, Role) {
    (l.label@, l.value@, l.role)
}

/// The lines as values.
pub open spec fn lines_view(v: Seq<SummaryLine>) -> Seq<(Seq<char>, Seq<char>, Role)> {
    v.map_values(|l: SummaryLine| line_view(l))
}

/// A counter as it is printed: the number, or `-` when it could not be read.
pub open spec fn shown(c: Option<u64>) -> Seq<char> {
    match c {
        Some(n) => decimal(n as nat),
        None => "-"@,
    }
}

/// A counter as it is printed: the number, or `-` when it could not be read.
pub fn show(c: Option<u64>) -> (r: String)
    ensures
        r@ == shown(c),
{
    match c {
        Some(n) => decimal_string(n),
        None => "-".to_string(),
    }
}

/// The role of a line that only matters when its count is above zero.
pub open spec fn alarm(c: Option<u64>, role: Role) -> Role {
    match c {
        Some(n) if n > 0 => role,
        _ => Role::Muted,
    }
}

/// The page whose summary the sampler feeds.
pub const DISASTER_RECOVERY: &'static str = "disaster-recovery";

/// The page whose summary the stats poller feeds.
pub const DASHBOARD: &'static str = "dashboard";

/// The Dashboard's box: the header's counters with their totals spelled out. `-` wherever the
/// poller could not answer; the alert and task lines warn only when there is something to
/// warn about.
pub open spec fn dashboard_spec(s: Stats) -> Seq<(Seq<char>, Seq<char>, Role)> {
    seq![
        ("Clusters"@, shown(s.clusters), Role::Neutral),
        ("Hosts"@, shown(s.hosts), Role::Neutral),
        ("Virtual machines"@, shown(s.vms), Role::Neutral),
        ("  powered on"@, shown(s.vms_on), Role::Good),
        ("  powered off"@, shown(vms_off_spec(s)), Role::Off),
        ("Critical alerts"@, shown(s.alerts_critical), alarm(s.alerts_critical, Role::Error)),
        ("Warning alerts"@, shown(s.alerts_warning), alarm(s.alerts_warning, Role::Warn)),
        ("Running tasks"@, shown(s.tasks_running), alarm(s.tasks_running, Role::Pending)),
    ]
}

/// A sampler tally: its number and role when the endpoint is served, a muted `-` when not.
pub open spec fn tally_spec(s: Sample, n: u64, role: Role) -> (Seq<char>, Role) {
    if s.available { (decimal(n as nat), role) } else { ("-"@, Role::Muted) }
}

/// The Disaster Recovery box: four counters, the number of VMs sampled - always printed, `0`
/// until the first cycle lands, and labelled as a sample so it never claims to be a census -
/// and the three tallies, which are `-` when the endpoint is not served.
pub open spec fn disaster_recovery_spec(s: Sample) -> Seq<(Seq<char>, Seq<char>, Role)> {
    seq![
        ("Policies"@, shown(s.policies), Role::Neutral),
        ("Recovery plans"@, shown(s.plans), Role::Neutral),
        ("Recovery points"@, shown(s.recovery_points), Role::Neutral),
        ("Recovery jobs"@, shown(s.jobs), Role::Neutral),
        ("Sampled VMs"@, decimal(s.sampled as nat), Role::Neutral),
        ("  in sync"@, tally_spec(s, s.in_sync, Role::Good).0, tally_spec(s, s.in_sync, Role::Good).1),
        ("  syncing"@, tally_spec(s, s.syncing, Role::Pending).0, tally_spec(s, s.syncing, Role::Pending).1),
        (
            "  out of sync"@,
            tally_spec(s, s.out_of_sync, if s.out_of_sync > 0 { Role::Error } else { Role::Muted }).0,
            tally_spec(s, s.out_of_sync, if s.out_of_sync > 0 { Role::Error } else { Role::Muted }).1,
        ),
    ]
}

/// The box for page `id`: the Dashboard's, the Disaster Recovery page's, or nothing for a page
/// that declares none.
pub open spec fn build_spec(id: Seq<char>, stats: Stats, sample: Sample) -> Seq<(Seq<char>, Seq<char>, Role)> {
    if id == DISASTER_RECOVERY@ {
        disaster_recovery_spec(sample)
    } else if id == DASHBOARD@ {
        dashboard_spec(stats)
    } else {
        Seq::empty()
    }
}

/// The box for page `id`, from the counters and the sampler's last cycle.
pub fn build(id: &str, stats: &Stats, sample: &Sample) -> (r: Vec<SummaryLine>)
    ensures
        lines_view(r@) == build_spec(id@, *stats, *sample),
{
    if str_eq(id, DISASTER_RECOVERY) {
        disaster_recovery(sample)
    } else if str_eq(id, DASHBOARD) {
        dashboard(stats)
    } else {
        let r: Vec<SummaryLine> = Vec::new();
        proof {
            assert(lines_view(r@) =~= Seq::empty());
        }
        r
    }
}

/// A counter whose role depends on it being above zero.
fn alarm_role(c: Option<u64>, role: Role) -> (r: Role)
    ensures
        r == alarm(c, role),
{
    match c {
        Some(n) => if n > 0 { role } else { Role::Muted },
        None => Role::Muted,
    }
}

fn dashboard(s: &Stats) -> (r: Vec<SummaryLine>)
    ensures
        lines_view(r@) == dashboard_spec(*s),
{
    let mut r: Vec<SummaryLine> = Vec::new();
    r.push(SummaryLine::new("Clusters", show(s.clusters), Role::Neutral));
    r.push(SummaryLine::new("Hosts", show(s.hosts), Role::Neutral));
    r.push(SummaryLine::new("Virtual machines", show(s.vms), Role::Neutral));
    r.push(SummaryLine::new("  powered on", show(s.vms_on), Role::Good));
    r.push(SummaryLine::new("  powered off", show(s.vms_off()), Role::Off));
    r.push(SummaryLine::new("Critical alerts", show(s.alerts_critical), alarm_role(s.alerts_critical, Role::Error)));
    r.push(SummaryLine::new("Warning alerts", show(s.alerts_warning), alarm_role(s.alerts_warning, Role::Warn)));
    r.push(SummaryLine::new("Running tasks", show(s.tasks_running), alarm_role(s.tasks_running, Role::Pending)));
    proof {
        assert(lines_view(r@) =~= dashboard_spec(*s));
    }
    r
}

/// A sampler tally as it is printed.
fn tally(s: &Sample, label: &str, n: u64, role: Role) -> (r: SummaryLine)
    ensures
        r.label@ == label@,
        (r.value@, r.role) == tally_spec(*s, n, role),
{
    if s.available {
        SummaryLine::new(label, decimal_string(n), role)
    } else {
        SummaryLine::new(label, "-".to_string(), Role::Muted)
    }
}

fn disaster_recovery(s: &Sample) -> (r: Vec<SummaryLine>)
    ensures
        lines_view(r@) == disaster_recovery_spec(*s),
{
    let mut r: Vec<SummaryLine> = Vec::new();
    r.push(SummaryLine::new("Policies", show(s.policies), Role::Neutral));
    r.push(SummaryLine::new("Recovery plans", show(s.plans), Role::Neutral));
    r.push(SummaryLine::new("Recovery points", show(s.recovery_points), Role::Neutral));
    r.push(SummaryLine::new("Recovery jobs", show(s.jobs), Role::Neutral));
    r.push(SummaryLine::new("Sampled VMs", decimal_string(s.sampled), Role::Neutral));
    r.push(tally(s, "  in sync", s.in_sync, Role::Good));
    r.push(tally(s, "  syncing", s.syncing, Role::Pending));
    let out_role = if s.out_of_sync > 0 { Role::Error } else { Role::Muted };
    r.push(tally(s, "  out of sync", s.out_of_sync, out_role));
    proof {
        assert(lines_view(r@) =~= disaster_recovery_spec(*s));
    }
    r
}

} // verus!
