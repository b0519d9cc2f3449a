use nutsh_tui::summary::{build, show, Role, Sample, Stats, DASHBOARD, DISASTER_RECOVERY};

fn line(label: &str, value: &str, role: Role) -> (String, String, Role) {
    (label.to_string(), value.to_string(), role)
}

fn built(stats: Stats) -> Vec<(String, String, Role)> {
    build(DASHBOARD, &stats, &Sample::default()).into_iter().map(|l| (l.label, l.value, l.role)).collect()
}

fn sampled(sample: Sample) -> Vec<(String, String, Role)> {
    build(DISASTER_RECOVERY, &Stats::default(), &sample).into_iter().map(|l| (l.label, l.value, l.role)).collect()
}

#[test]
fn the_dashboard_lines_carry_the_roles_the_counters_are_for() {
    assert_eq!(
        built(Stats {
            clusters: Some(2),
            hosts: Some(8),
            vms: Some(31),
            vms_on: Some(29),
            alerts_critical: Some(1),
            alerts_warning: Some(4),
            tasks_running: Some(2),
            stale: false,
        }),
        vec![
            line("Clusters", "2", Role::Neutral),
            line("Hosts", "8", Role::Neutral),
            line("Virtual machines", "31", Role::Neutral),
            line("  powered on", "29", Role::Good),
            line("  powered off", "2", Role::Off),
            line("Critical alerts", "1", Role::Error),
            line("Warning alerts", "4", Role::Warn),
            line("Running tasks", "2", Role::Pending),
        ]
    );
    // Nothing wrong is not a warning, and nothing running is not pending.
    assert_eq!(
        built(Stats { alerts_critical: Some(0), alerts_warning: Some(0), tasks_running: Some(0), ..Default::default() })[5..],
        [
            line("Critical alerts", "0", Role::Muted),
            line("Warning alerts", "0", Role::Muted),
            line("Running tasks", "0", Role::Muted),
        ]
    );
    // Before the first cycle, and wherever the counter could not be read: every value is a
    // dash, and the three conditional lines are muted rather than alarming.
    assert_eq!(
        built(Stats::default()),
        vec![
            line("Clusters", "-", Role::Neutral),
            line("Hosts", "-", Role::Neutral),
            line("Virtual machines", "-", Role::Neutral),
            line("  powered on", "-", Role::Good),
            line("  powered off", "-", Role::Off),
            line("Critical alerts", "-", Role::Muted),
            line("Warning alerts", "-", Role::Muted),
            line("Running tasks", "-", Role::Muted),
        ]
    );
}

#[test]
fn the_sampler_box_dashes_its_tallies_when_the_endpoint_is_not_served() {
    let s = Sample {
        policies: Some(3),
        plans: None,
        recovery_points: Some(120),
        jobs: Some(0),
        sampled: 40,
        in_sync: 30,
        syncing: 6,
        out_of_sync: 4,
        available: true,
    };
    assert_eq!(
        sampled(s),
        vec![
            line("Policies", "3", Role::Neutral),
            line("Recovery plans", "-", Role::Neutral),
            line("Recovery points", "120", Role::Neutral),
            line("Recovery jobs", "0", Role::Neutral),
            line("Sampled VMs", "40", Role::Neutral),
            line("  in sync", "30", Role::Good),
            line("  syncing", "6", Role::Pending),
            line("  out of sync", "4", Role::Error),
        ]
    );
    let off = sampled(Sample { available: false, ..s });
    assert_eq!(off[4], line("Sampled VMs", "40", Role::Neutral), "the sample size always prints");
    assert_eq!(off[5..], [line("  in sync", "-", Role::Muted), line("  syncing", "-", Role::Muted), line("  out of sync", "-", Role::Muted)]);
    let clean = sampled(Sample { out_of_sync: 0, ..s });
    assert_eq!(clean[7], line("  out of sync", "0", Role::Muted));
}

#[test]
fn a_page_without_a_summary_builds_nothing() {
    assert!(build("vms", &Stats::default(), &Sample::default()).is_empty());
    assert_eq!(show(None), "-");
    assert_eq!(show(Some(1234)), "1234");
    assert_eq!(Stats { vms: Some(3), vms_on: Some(5), ..Default::default() }.vms_off(), Some(0));
}
