use lightkeeper::enums::Criticality;
use lightkeeper::error::LkError;
use lightkeeper::frontend::{
    count_criticalities, monitor_column_header, plan_host_update, split_verification_requests, AlertSpan, HostUpdatePlan,
};

#[test]
fn key_errors_become_verification_requests() {
    let errors = vec![
        LkError::other("disk full"),
        LkError::host_key_unverified("ssh", "Unknown host key", "SHA256:abc"),
        LkError::other("timeout"),
    ];
    let (requests, others) = split_verification_requests(errors);
    assert_eq!(requests.len(), 1);
    assert_eq!(requests[0].source_id, "ssh");
    assert_eq!(requests[0].message, "Unknown host key");
    assert_eq!(requests[0].key_id, "SHA256:abc");
    assert_eq!(others.len(), 2);
    assert_eq!(others[0].message, "disk full");
    assert_eq!(others[1].message, "timeout");
}

#[test]
fn column_headers() {
    assert_eq!(monitor_column_header("Load", ""), "Load");
    assert_eq!(monitor_column_header("Memory", "MiB"), "Memory (MiB)");
}

#[test]
fn criticality_counts() {
    let latest = vec![
        Some(Criticality::Critical),
        Some(Criticality::Normal),
        None,
        Some(Criticality::Normal),
        Some(Criticality::Info),
        Some(Criticality::Warning),
    ];
    let counts = count_criticalities(&latest);
    assert_eq!(counts.critical, 1);
    assert_eq!(counts.error, 0);
    assert_eq!(counts.warning, 1);
    assert_eq!(counts.normal, 2);
    assert_eq!(counts.no_data, 1);
}

#[test]
fn host_update_with_history_compares_last_two() {
    let p = plan_host_update(Some((4, 1, true)), false);
    assert_eq!(
        p,
        HostUpdatePlan { alert: Some(AlertSpan { previous: Some(2), current: 0 }), chart_insert: true, refresh_monitors: false }
    );
}

#[test]
fn host_update_with_short_history_has_no_previous() {
    let p = plan_host_update(Some((1, 3, false)), false);
    assert_eq!(p.alert, Some(AlertSpan { previous: None, current: 2 }));
    assert!(!p.chart_insert);
}

#[test]
fn host_update_without_new_values() {
    assert_eq!(plan_host_update(Some((5, 0, true)), false).alert, None);
    assert_eq!(
        plan_host_update(None, true),
        HostUpdatePlan { alert: None, chart_insert: false, refresh_monitors: true }
    );
}
