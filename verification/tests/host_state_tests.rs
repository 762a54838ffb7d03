use lightkeeper::enums::{Criticality, HostStatus};
use lightkeeper::host::{Host, IpAddress};
use lightkeeper::configuration::{HostSetting, HostSettings, Hosts};
use lightkeeper::host_state::{
    host_states_for, receiver_step, HostState, MonitorValue, ReceiverStep, StateUpdate, StateUpdateMessage, UpdateOutcome,
    UpdateSource,
};
use lightkeeper::keyed::KeyedList;

type State = HostState<&'static str, &'static str>;

fn state() -> State {
    HostState::from_host(Host::empty("web", &Vec::new()), HostStatus::Unknown)
}

fn monitor(id: u64, monitor_id: &str, critical: bool, c: Criticality, point: &'static str) -> StateUpdate<&'static str, &'static str> {
    StateUpdate::Monitor {
        invocation_id: id,
        monitor_id: monitor_id.to_string(),
        category: String::from("host"),
        is_critical: critical,
        value: MonitorValue { criticality: c, point },
    }
}

#[test]
fn first_values_start_histories_and_status_is_pending() {
    let mut s = state();
    let r = s.apply(monitor(0, "ping", true, Criticality::NoData, "initial"), 1);
    assert_eq!(r, UpdateOutcome { new_monitor_value: false, new_command_result: false });
    assert_eq!(s.status, HostStatus::Pending);
    assert_eq!(s.monitor_data.get("ping").unwrap().values.len(), 1);
}

#[test]
fn invocations_tracked_until_value_arrives() {
    let mut s = state();
    s.apply(monitor(0, "ping", true, Criticality::NoData, "initial"), 1);
    s.apply(monitor(7, "ping", true, Criticality::NoData, "pending"), 2);
    assert_eq!(s.monitor_invocations.len(), 1);
    assert_eq!(s.monitor_invocations.get(&7).unwrap().time, 2);
    s.apply(monitor(7, "ping", true, Criticality::NoData, "again"), 3);
    assert_eq!(s.monitor_invocations.get(&7).unwrap().time, 2);
    let r = s.apply(monitor(7, "ping", true, Criticality::Normal, "up"), 4);
    assert!(r.new_monitor_value);
    assert!(s.monitor_invocations.is_empty());
    assert_eq!(s.status, HostStatus::Up);
    let r = s.apply(monitor(8, "ping", true, Criticality::Critical, "down"), 5);
    assert!(r.new_monitor_value);
    assert_eq!(s.status, HostStatus::Down);
}

#[test]
fn history_keeps_four_latest_values() {
    let mut s = state();
    s.apply(monitor(0, "load", false, Criticality::NoData, "v0"), 0);
    for (i, p) in ["v1", "v2", "v3", "v4", "v5"].iter().enumerate() {
        s.apply(monitor(i as u64 + 1, "load", false, Criticality::Normal, p), 0);
    }
    let values: Vec<&str> = s.monitor_data.get("load").unwrap().values.iter().map(|v| v.point).collect();
    assert_eq!(values, vec!["v2", "v3", "v4", "v5"]);
}

#[test]
fn unknown_monitor_value_is_not_new() {
    let mut s = state();
    let r = s.apply(monitor(3, "missing", false, Criticality::Normal, "x"), 0);
    assert!(!r.new_monitor_value);
    assert!(s.monitor_data.get("missing").is_none());
}

#[test]
fn command_results_and_progress() {
    let mut s = state();
    let start = StateUpdate::Command {
        invocation_id: 5,
        command_id: String::from("update"),
        category: String::from("packages"),
        criticality: Criticality::NoData,
        progress: 0,
        result: "pending",
    };
    assert_eq!(s.apply(start, 10), UpdateOutcome { new_monitor_value: false, new_command_result: false });
    assert_eq!(s.command_invocations.get(&5).unwrap().category, "packages");
    let partial = StateUpdate::Command {
        invocation_id: 5,
        command_id: String::from("update"),
        category: String::from("packages"),
        criticality: Criticality::Normal,
        progress: 40,
        result: "partial",
    };
    assert!(s.apply(partial, 11).new_command_result);
    assert_eq!(s.command_invocations.get(&5).unwrap().progress, 40);
    assert_eq!(s.command_results.get("update").unwrap().0, "partial");
    let done = StateUpdate::Command {
        invocation_id: 5,
        command_id: String::from("update"),
        category: String::from("packages"),
        criticality: Criticality::Normal,
        progress: 100,
        result: "done",
    };
    s.apply(done, 12);
    assert!(s.command_invocations.is_empty());
    assert_eq!(s.command_results.get("update").unwrap().0, "done");
}

#[test]
fn platform_info_initializes_host() {
    let mut s = state();
    s.apply(StateUpdate::PlatformInfo { invocation_id: 1, address: Some(IpAddress::V4(10, 0, 0, 9)), from_cache: true }, 0);
    assert!(s.just_initialized_from_cache);
    assert!(!s.is_initialized);
    s.apply(StateUpdate::PlatformInfo { invocation_id: 2, address: Some(IpAddress::V4(10, 0, 0, 9)), from_cache: false }, 0);
    assert!(s.just_initialized);
    assert!(s.is_initialized);
    assert_eq!(s.host.get_address(), "10.0.0.9");
    s.apply(StateUpdate::Empty { invocation_id: 3, source: UpdateSource::Other }, 0);
    assert!(!s.just_initialized);
    assert!(s.is_initialized);
}

#[test]
fn host_states_from_configuration() {
    let mut hosts = Hosts { hosts: KeyedList::new(), certificate_monitors: Vec::new() };
    let mut web = HostSettings::new_default();
    web.address = String::from("10.0.0.5");
    hosts.hosts.insert(String::from("web"), web);
    hosts.hosts.insert(String::from("bad name"), HostSettings::new_default());
    hosts.hosts.insert(String::from("_cert"), HostSettings::new_default());
    let states: KeyedList<State> = host_states_for(&hosts, "_cert");
    assert_eq!(states.len(), 2);
    let web = states.get("web").unwrap();
    assert_eq!(web.host.get_address(), "10.0.0.5");
    assert_eq!(web.host.settings, vec![HostSetting::UseSudo]);
    assert_eq!(web.status, HostStatus::Unknown);
    let cert = states.get("_cert").unwrap();
    assert!(cert.host.settings.is_empty());
    assert!(states.get("bad name").is_none());
}

#[test]
fn stop_message_stops_receiver() {
    let m: StateUpdateMessage<u8, u8> = StateUpdateMessage::stop();
    assert!(m.stop);
    assert!(m.host_name.is_empty() && m.data_point.is_none() && m.command_result.is_none());
    assert_eq!(receiver_step(&m, true), ReceiverStep::Stop);
    let mut update: StateUpdateMessage<u8, u8> = StateUpdateMessage::stop();
    update.stop = false;
    update.host_name = String::from("web");
    assert_eq!(receiver_step(&update, false), ReceiverStep::Skip);
    assert_eq!(receiver_step(&update, true), ReceiverStep::Apply);
}
