//! What is known of each host while it is monitored: the latest values of
//! its monitors, the results of its commands, the invocations still under
//! way, and its status. Every update from the monitors and commands goes
//! through `HostState::apply`.

use vstd::prelude::*;
use std::collections::HashMap;
use crate::enums::{Criticality, HostStatus};
use crate::host::{Host, IpAddress};
use crate::keyed::KeyedList;
use crate::display_options::DisplayOptions;
use crate::error::LkError;

verus! {

broadcast use vstd::std_specs::hash::group_hash_axioms;

/// How many values of each monitor are kept.
pub const DATA_POINT_BUFFER_SIZE: usize = 4;

/// A monitored value: its criticality, and the value itself (which this
/// module only keeps).
#[derive(Debug)]
pub struct MonitorValue<P> {
    pub criticality: Criticality,
    pub point: P,
}

/// The latest values of one monitor, oldest first.
#[derive(Debug)]
pub struct MonitorHistory<P> {
    /// Whether the host is down when this monitor is at the critical level.
    pub is_critical: bool,
    pub category: String,
    pub values: Vec<MonitorValue<P>>,
}

pub struct MonitorHistoryView<P> {
    pub is_critical: bool,
    pub category: Seq<char>,
    pub values: Seq<MonitorValue<P>>,
}

impl<P> View for MonitorHistory<P> {
    type V = MonitorHistoryView<P>;

    open spec fn view(&self) -> MonitorHistoryView<P> {
        MonitorHistoryView { is_critical: self.is_critical, category: self.category@, values: self.values@ }
    }
}

/// A value kept as it is.
#[derive(Debug)]
pub struct Kept<T>(pub T);

impl<T> View for Kept<T> {
    type V = T;

    open spec fn view(&self) -> T {
        self.0
    }
}

/// An invocation under way.
#[derive(Debug)]
pub struct InvocationDetails {
    pub invocation_id: u64,
    /// When it started, in milliseconds since the Unix epoch.
    pub time: i64,
    pub category: String,
    /// Percent done.
    pub progress: u8,
}

/// What kind of module an update comes from.
#[derive(PartialEq, Eq, Structural, Clone, Copy, Debug)]
pub enum UpdateSource {
    Monitor,
    Command,
    Other,
}

/// One update of a host's state.
#[derive(Debug)]
pub enum StateUpdate<P, R> {
    /// The host's platform information arrived: the host's address in it
    /// (`None` when it could not be read), and whether it came from the
    /// cache.
    PlatformInfo { invocation_id: u64, address: Option<IpAddress>, from_cache: bool },
    /// A value of a monitor. Invocation 0 brings a monitor's first value,
    /// which starts its history.
    Monitor {
        invocation_id: u64,
        monitor_id: String,
        category: String,
        is_critical: bool,
        value: MonitorValue<P>,
    },
    /// A result of a command, possibly a partial one.
    Command {
        invocation_id: u64,
        command_id: String,
        category: String,
        criticality: Criticality,
        progress: u8,
        result: R,
    },
    /// An update with neither a value nor a result: the invocation is over.
    Empty { invocation_id: u64, source: UpdateSource },
}

/// Whether a monitor's latest value is at `c`.
pub open spec fn latest_is<P>(h: MonitorHistoryView<P>, c: Criticality) -> bool {
    h.values.len() > 0 && h.values.last().criticality == c
}

/// Whether monitor `k` is a critical one whose latest value is at `c`.
pub open spec fn critical_at<P>(monitors: Map<Seq<char>, MonitorHistoryView<P>>, k: Seq<char>, c: Criticality) -> bool {
    monitors.contains_key(k) && monitors[k].is_critical && latest_is(monitors[k], c)
}

/// Whether every value of every monitor is still without data.
pub open spec fn only_pending<P>(monitors: Map<Seq<char>, MonitorHistoryView<P>>) -> bool {
    forall|k: Seq<char>| #[trigger] monitors.contains_key(k) ==> all_pending(monitors[k])
}

/// Whether every value of a monitor is still without data.
pub open spec fn all_pending<P>(h: MonitorHistoryView<P>) -> bool {
    forall|i: int| 0 <= i < h.values.len() ==> #[trigger] h.values[i].criticality == Criticality::NoData
}

/// A host's status: down when a critical monitor is at the critical level;
/// pending while a critical monitor has no data yet, or while no monitor
/// has any data; up otherwise.
pub open spec fn status_of<P>(monitors: Map<Seq<char>, MonitorHistoryView<P>>) -> HostStatus {
    if exists|k: Seq<char>| #[trigger] critical_at(monitors, k, Criticality::Critical) {
        HostStatus::Down
    } else if (exists|k: Seq<char>| #[trigger] critical_at(monitors, k, Criticality::NoData)) || only_pending(monitors) {
        HostStatus::Pending
    } else {
        HostStatus::Up
    }
}

/// `values` with `v` added, the oldest dropped beyond the buffer size.
pub open spec fn with_value<P>(values: Seq<MonitorValue<P>>, v: MonitorValue<P>) -> Seq<MonitorValue<P>> {
    if values.len() + 1 > DATA_POINT_BUFFER_SIZE {
        values.push(v).drop_first()
    } else {
        values.push(v)
    }
}

/// `after` is `before` with invocation `id` started, unless one with that
/// id was already under way.
pub open spec fn started(
    before: Map<u64, InvocationDetails>,
    after: Map<u64, InvocationDetails>,
    id: u64,
    category: Seq<char>,
    now: i64,
) -> bool {
    if before.contains_key(id) {
        after == before
    } else {
        &&& after.contains_key(id)
        &&& after.remove(id) == before
        &&& after[id].invocation_id == id
        &&& after[id].time == now
        &&& after[id].category@ == category
        &&& after[id].progress == 0
    }
}

/// A host's state.
#[derive(Debug)]
pub struct HostState<P, R> {
    pub host: Host,
    pub status: HostStatus,
    /// Real-time platform information arrived with the last update.
    pub just_initialized: bool,
    /// Platform information from the cache arrived with the last update.
    pub just_initialized_from_cache: bool,
    pub is_initialized: bool,
    pub monitor_data: KeyedList<MonitorHistory<P>>,
    pub command_results: KeyedList<Kept<R>>,
    pub monitor_invocations: HashMap<u64, InvocationDetails>,
    pub command_invocations: HashMap<u64, InvocationDetails>,
}

/// Whether the latest value of a history is at `c` (a history with no
/// values has none).
fn latest_at<P>(h: &MonitorHistory<P>, c: Criticality) -> (r: bool)
    ensures
        r == latest_is(h@, c),
{
    let n = h.values.len();
    n > 0 && h.values[n - 1].criticality == c
}

/// Whether every value of a history is without data.
fn history_pending<P>(h: &MonitorHistory<P>) -> (r: bool)
    ensures
        r == all_pending(h@),
{
    let mut i: usize = 0;
    while i < h.values.len()
        invariant
            i <= h.values@.len(),
            forall|j: int| 0 <= j < i ==> #[trigger] h.values@[j].criticality == Criticality::NoData,
        decreases h.values@.len() - i,
    {
        if h.values[i].criticality != Criticality::NoData {
            return false;
        }
        i = i + 1;
    }
    true
}

/// The status the monitors give a host.
pub fn monitors_status<P>(monitors: &KeyedList<MonitorHistory<P>>) -> (r: HostStatus)
    ensures
        r == status_of(monitors@),
{
    let n = monitors.len();
    let ghost ks = monitors.keys();
    let mut down = false;
    let mut pending_critical = false;
    let mut all_without_data = true;
    let mut i: usize = 0;
    while i < n
        invariant
            n == ks.len(),
            ks == monitors.keys(),
            monitors.consistent(),
            i <= n,
            down == exists|j: int| 0 <= j < i && #[trigger] critical_at(monitors@, ks[j], Criticality::Critical),
            pending_critical == exists|j: int| 0 <= j < i && #[trigger] critical_at(monitors@, ks[j], Criticality::NoData),
            all_without_data == forall|j: int| 0 <= j < i ==> all_pending(#[trigger] monitors@[ks[j]]),
        decreases n - i,
    {
        let h = monitors.value_at(i);
        proof {
            assert(monitors@[ks[i as int]] == monitors.vals()[i as int]);
            assert(monitors@.contains_key(ks[i as int]));
            assert(critical_at(monitors@, ks[i as int], Criticality::Critical) == (h.is_critical && latest_is(h@, Criticality::Critical)));
            assert(critical_at(monitors@, ks[i as int], Criticality::NoData) == (h.is_critical && latest_is(h@, Criticality::NoData)));
        }
        if h.is_critical && latest_at(h, Criticality::Critical) {
            down = true;
        }
        if h.is_critical && latest_at(h, Criticality::NoData) {
            pending_critical = true;
        }
        if !history_pending(h) {
            all_without_data = false;
        }
        i = i + 1;
    }
    proof {
        let m = monitors@;
        assert((exists|k: Seq<char>| #[trigger] critical_at(m, k, Criticality::Critical)) == down) by {
            if exists|k: Seq<char>| #[trigger] critical_at(m, k, Criticality::Critical) {
                let k = choose|k: Seq<char>| #[trigger] critical_at(m, k, Criticality::Critical);
                let j = ks.index_of(k);
                assert(ks[j] == k);
                assert(critical_at(m, ks[j], Criticality::Critical));
            }
        }
        assert((exists|k: Seq<char>| #[trigger] critical_at(m, k, Criticality::NoData)) == pending_critical) by {
            if exists|k: Seq<char>| #[trigger] critical_at(m, k, Criticality::NoData) {
                let k = choose|k: Seq<char>| #[trigger] critical_at(m, k, Criticality::NoData);
                let j = ks.index_of(k);
                assert(ks[j] == k);
                assert(critical_at(m, ks[j], Criticality::NoData));
            }
        }
        assert(only_pending(m) == all_without_data) by {
            if all_without_data {
                assert forall|k: Seq<char>| #[trigger] m.contains_key(k) implies all_pending(m[k]) by {
                    let j = ks.index_of(k);
                    assert(ks[j] == k);
                }
            }
            if only_pending(m) {
                assert forall|j: int| 0 <= j < n implies all_pending(#[trigger] m[ks[j]]) by {
                    assert(m.contains_key(ks[j]));
                }
            }
        }
    }
    if down {
        HostStatus::Down
    } else if pending_critical || all_without_data {
        HostStatus::Pending
    } else {
        HostStatus::Up
    }
}

/// What an update brought that the user interface is to hear of.
#[derive(PartialEq, Eq, Structural, Clone, Copy, Debug)]
pub struct UpdateOutcome {
    /// A monitor got a new value.
    pub new_monitor_value: bool,
    /// A command got a result.
    pub new_command_result: bool,
}

/// The history of a monitor after `v` was added to it.
pub open spec fn history_with<P>(h: MonitorHistoryView<P>, v: MonitorValue<P>) -> MonitorHistoryView<P> {
    MonitorHistoryView { values: with_value(h.values, v), ..h }
}

impl<P, R> HostState<P, R> {
    /// The state of a host nothing is known of yet.
    pub fn from_host(host: Host, status: HostStatus) -> (s: HostState<P, R>)
        ensures
            s.host == host,
            s.status == status,
            !s.just_initialized && !s.just_initialized_from_cache && !s.is_initialized,
            s.monitor_data@ == Map::<Seq<char>, MonitorHistoryView<P>>::empty(),
            s.command_results@ == Map::<Seq<char>, R>::empty(),
            s.monitor_invocations@ == Map::<u64, InvocationDetails>::empty(),
            s.command_invocations@ == Map::<u64, InvocationDetails>::empty(),
    {
        HostState {
            host,
            status,
            just_initialized: false,
            just_initialized_from_cache: false,
            is_initialized: false,
            monitor_data: KeyedList::new(),
            command_results: KeyedList::new(),
            monitor_invocations: HashMap::new(),
            command_invocations: HashMap::new(),
        }
    }

    /// Applies one update at time `now`, and sets the status the monitors
    /// then give.
    pub fn apply(&mut self, update: StateUpdate<P, R>, now: i64) -> (r: UpdateOutcome)
        ensures
            final(self).host.name == old(self).host.name,
            final(self).host.fqdn == old(self).host.fqdn,
            final(self).host.settings == old(self).host.settings,
            final(self).status == status_of(final(self).monitor_data@),
            match update {
                StateUpdate::PlatformInfo { invocation_id, address, from_cache } => {
                    &&& final(self).monitor_invocations@ == old(self).monitor_invocations@.remove(invocation_id)
                    &&& final(self).command_invocations@ == old(self).command_invocations@
                    &&& final(self).monitor_data@ == old(self).monitor_data@
                    &&& final(self).command_results@ == old(self).command_results@
                    &&& r == UpdateOutcome { new_monitor_value: false, new_command_result: false }
                    &&& match address {
                        Some(a) => {
                            &&& final(self).host.ip_address == a
                            &&& final(self).just_initialized == !from_cache
                            &&& final(self).just_initialized_from_cache == from_cache
                            &&& final(self).is_initialized == (old(self).is_initialized || !from_cache)
                        },
                        None => {
                            &&& final(self).host.ip_address == old(self).host.ip_address
                            &&& !final(self).just_initialized && !final(self).just_initialized_from_cache
                            &&& final(self).is_initialized == old(self).is_initialized
                        },
                    }
                },
                StateUpdate::Monitor { invocation_id, monitor_id, category, is_critical, value } => {
                    &&& final(self).host.ip_address == old(self).host.ip_address
                    &&& !final(self).just_initialized && !final(self).just_initialized_from_cache
                    &&& final(self).is_initialized == old(self).is_initialized
                    &&& final(self).command_invocations@ == old(self).command_invocations@
                    &&& final(self).command_results@ == old(self).command_results@
                    &&& !r.new_command_result
                    &&& if invocation_id == 0 {
                        &&& final(self).monitor_data@ == old(self).monitor_data@.insert(
                            monitor_id@,
                            MonitorHistoryView { is_critical, category: category@, values: seq![value] },
                        )
                        &&& final(self).monitor_invocations@ == old(self).monitor_invocations@
                        &&& !r.new_monitor_value
                    } else if value.criticality == Criticality::NoData {
                        &&& final(self).monitor_data@ == old(self).monitor_data@
                        &&& started(old(self).monitor_invocations@, final(self).monitor_invocations@, invocation_id, category@, now)
                        &&& !r.new_monitor_value
                    } else {
                        &&& final(self).monitor_invocations@ == old(self).monitor_invocations@.remove(invocation_id)
                        &&& r.new_monitor_value == old(self).monitor_data@.contains_key(monitor_id@)
                        &&& final(self).monitor_data@ == if old(self).monitor_data@.contains_key(monitor_id@) {
                            old(self).monitor_data@.insert(monitor_id@, history_with(old(self).monitor_data@[monitor_id@], value))
                        } else {
                            old(self).monitor_data@
                        }
                    }
                },
                StateUpdate::Command { invocation_id, command_id, category, criticality, progress, result } => {
                    &&& final(self).host.ip_address == old(self).host.ip_address
                    &&& !final(self).just_initialized && !final(self).just_initialized_from_cache
                    &&& final(self).is_initialized == old(self).is_initialized
                    &&& final(self).monitor_invocations@ == old(self).monitor_invocations@
                    &&& final(self).monitor_data@ == old(self).monitor_data@
                    &&& !r.new_monitor_value
                    &&& if criticality == Criticality::NoData {
                        &&& started(old(self).command_invocations@, final(self).command_invocations@, invocation_id, category@, now)
                        &&& final(self).command_results@ == old(self).command_results@
                        &&& !r.new_command_result
                    } else {
                        &&& final(self).command_results@ == old(self).command_results@.insert(command_id@, result)
                        &&& r.new_command_result
                        &&& if progress < 100 {
                            if old(self).command_invocations@.contains_key(invocation_id) {
                                &&& final(self).command_invocations@.contains_key(invocation_id)
                                &&& final(self).command_invocations@.remove(invocation_id) == old(self).command_invocations@.remove(invocation_id)
                                &&& final(self).command_invocations@[invocation_id].progress == progress
                                &&& final(self).command_invocations@[invocation_id].invocation_id == old(self).command_invocations@[invocation_id].invocation_id
                                &&& final(self).command_invocations@[invocation_id].time == old(self).command_invocations@[invocation_id].time
                                &&& final(self).command_invocations@[invocation_id].category == old(self).command_invocations@[invocation_id].category
                            } else {
                                final(self).command_invocations@ == old(self).command_invocations@
                            }
                        } else {
                            final(self).command_invocations@ == old(self).command_invocations@.remove(invocation_id)
                        }
                    }
                },
                StateUpdate::Empty { invocation_id, source } => {
                    &&& final(self).host.ip_address == old(self).host.ip_address
                    &&& !final(self).just_initialized && !final(self).just_initialized_from_cache
                    &&& final(self).is_initialized == old(self).is_initialized
                    &&& final(self).monitor_data@ == old(self).monitor_data@
                    &&& final(self).command_results@ == old(self).command_results@
                    &&& r == UpdateOutcome { new_monitor_value: false, new_command_result: false }
                    &&& final(self).monitor_invocations@ == if source == UpdateSource::Monitor {
                        old(self).monitor_invocations@.remove(invocation_id)
                    } else {
                        old(self).monitor_invocations@
                    }
                    &&& final(self).command_invocations@ == if source == UpdateSource::Command {
                        old(self).command_invocations@.remove(invocation_id)
                    } else {
                        old(self).command_invocations@
                    }
                },
            },
    {
        self.just_initialized = false;
        self.just_initialized_from_cache = false;
        let mut outcome = UpdateOutcome { new_monitor_value: false, new_command_result: false };
        match update {
            StateUpdate::PlatformInfo { invocation_id, address, from_cache } => {
                self.monitor_invocations.remove(&invocation_id);
                match address {
                    Some(a) => {
                        self.host.ip_address = a;
                        if !from_cache {
                            self.just_initialized = true;
                            self.is_initialized = true;
                        } else {
                            self.just_initialized_from_cache = true;
                        }
                    },
                    None => {},
                }
            },
            StateUpdate::Monitor { invocation_id, monitor_id, category, is_critical, value } => {
                if invocation_id == 0 {
                    let mut values: Vec<MonitorValue<P>> = Vec::new();
                    values.push(value);
                    let history = MonitorHistory { is_critical, category, values };
                    assert(history@.values =~= seq![history@.values[0]]);
                    self.monitor_data.insert(monitor_id, history);
                } else if value.criticality == Criticality::NoData {
                    Self::start_invocation(&mut self.monitor_invocations, invocation_id, category, now);
                } else {
                    self.monitor_invocations.remove(&invocation_id);
                    let ghost before = self.monitor_data@;
                    match self.monitor_data.remove(monitor_id.as_str()) {
                        Some(history) => {
                            let mut history = history;
                            history.values.push(value);
                            if history.values.len() > DATA_POINT_BUFFER_SIZE {
                                history.values.remove(0);
                            }
                            self.monitor_data.insert(monitor_id, history);
                            outcome.new_monitor_value = true;
                            proof {
                                assert(self.monitor_data@ =~= before.insert(monitor_id@, self.monitor_data@[monitor_id@]));
                            }
                        },
                        None => {
                            assert(self.monitor_data@ =~= before);
                        },
                    }
                }
            },
            StateUpdate::Command { invocation_id, command_id, category, criticality, progress, result } => {
                if criticality == Criticality::NoData {
                    Self::start_invocation(&mut self.command_invocations, invocation_id, category, now);
                } else {
                    if progress < 100 {
                        let ghost before = self.command_invocations@;
                        match self.command_invocations.remove(&invocation_id) {
                            Some(details) => {
                                let mut details = details;
                                details.progress = progress;
                                self.command_invocations.insert(invocation_id, details);
                                assert(self.command_invocations@.remove(invocation_id) =~= before.remove(invocation_id));
                            },
                            None => {
                                assert(self.command_invocations@ =~= before);
                            },
                        }
                    } else {
                        self.command_invocations.remove(&invocation_id);
                    }
                    self.command_results.insert(command_id, Kept(result));
                    outcome.new_command_result = true;
                }
            },
            StateUpdate::Empty { invocation_id, source } => {
                match source {
                    UpdateSource::Command => {
                        self.command_invocations.remove(&invocation_id);
                    },
                    UpdateSource::Monitor => {
                        self.monitor_invocations.remove(&invocation_id);
                    },
                    UpdateSource::Other => {},
                }
            },
        }
        self.status = monitors_status(&self.monitor_data);
        outcome
    }

    /// Records that invocation `id` started, unless it is already under way.
    fn start_invocation(invocations: &mut HashMap<u64, InvocationDetails>, id: u64, category: String, now: i64)
        ensures
            started(old(invocations)@, final(invocations)@, id, category@, now),
    {
        if !invocations.contains_key(&id) {
            let ghost before = invocations@;
            invocations.insert(id, InvocationDetails { invocation_id: id, time: now, category, progress: 0 });
            assert(invocations@.remove(id) =~= before);
        }
    }
}

/// A monitor keeps its latest values, at most the buffer size of them, and
/// the newest value is the last one.
pub proof fn law_history_keeps_latest_values<P>(values: Seq<MonitorValue<P>>, v: MonitorValue<P>)
    requires
        values.len() <= DATA_POINT_BUFFER_SIZE,
    ensures
        1 <= with_value(values, v).len() <= DATA_POINT_BUFFER_SIZE,
        with_value(values, v).last() == v,
        with_value(values, v).drop_last() == if values.len() == DATA_POINT_BUFFER_SIZE {
            values.drop_first()
        } else {
            values
        },
{
    if values.len() == DATA_POINT_BUFFER_SIZE {
        assert(values.push(v).drop_first().drop_last() =~= values.drop_first());
    } else {
        assert(values.push(v).drop_last() =~= values);
    }
}

impl<P, R> View for HostState<P, R> {
    type V = HostState<P, R>;

    open spec fn view(&self) -> HostState<P, R> {
        *self
    }
}

/// Whether `state` is the initial state of a host named `name` at the
/// given address, with sudo in use, as a configuration lists it.
pub open spec fn initial_state_of<P, R>(state: HostState<P, R>, name: Seq<char>, address: Seq<char>, fqdn: Seq<char>) -> bool {
    &&& state.host.name@ == name
    &&& state.host.fqdn@ == fqdn
    &&& state.host.ip_address == match crate::host::ipv4_of(address) {
        Some(a) => a,
        None => crate::host::unspecified_address(),
    }
    &&& crate::keyed::views_of(state.host.settings@) == seq![crate::configuration::HostSetting::UseSudo]
    &&& state.status == HostStatus::Unknown
    &&& state.monitor_data@ == Map::<Seq<char>, MonitorHistoryView<P>>::empty()
    &&& state.monitor_invocations@ == Map::<u64, InvocationDetails>::empty()
    &&& state.command_invocations@ == Map::<u64, InvocationDetails>::empty()
}

/// The hosts monitored under a configuration: the host that certificate
/// monitoring runs on (no address, no settings), and each configured host
/// with a valid name (letters, digits and `-`), sudo in use. A configured
/// host that has the name of the certificate-monitoring host is left out.
pub fn host_states_for<P, R>(hosts: &crate::configuration::Hosts, cert_monitor_host_id: &str) -> (r: KeyedList<HostState<P, R>>)
    ensures
        r@.contains_key(cert_monitor_host_id@),
        r@[cert_monitor_host_id@].host.name@ == cert_monitor_host_id@,
        r@[cert_monitor_host_id@].host.fqdn@.len() == 0,
        r@[cert_monitor_host_id@].host.ip_address == crate::host::unspecified_address(),
        r@[cert_monitor_host_id@].host.settings@.len() == 0,
        r@[cert_monitor_host_id@].status == HostStatus::Unknown,
        forall|k: Seq<char>| k != cert_monitor_host_id@ ==> (#[trigger] r@.contains_key(k) <==> hosts.hosts@.contains_key(k)
            && crate::text::alphanumeric_with(k, "-"@)),
        forall|k: Seq<char>| k != cert_monitor_host_id@ && #[trigger] r@.contains_key(k) ==> initial_state_of(
            r@[k],
            k,
            hosts.hosts@[k].address,
            hosts.hosts@[k].fqdn,
        ),
{
    let mut states: KeyedList<HostState<P, R>> = KeyedList::new();
    let no_settings: Vec<crate::configuration::HostSetting> = Vec::new();
    let cert_host = Host::empty(cert_monitor_host_id, &no_settings);
    assert(cert_host.settings@.len() == crate::keyed::views_of(cert_host.settings@).len());
    assert(crate::keyed::views_of(no_settings@).len() == 0);
    states.insert(cert_monitor_host_id.to_string(), HostState::from_host(cert_host, HostStatus::Unknown));
    let n = hosts.hosts.len();
    let ghost ks = hosts.hosts.keys();
    let mut i: usize = 0;
    while i < n
        invariant
            n == ks.len(),
            ks == hosts.hosts.keys(),
            hosts.hosts.consistent(),
            i <= n,
            states@.contains_key(cert_monitor_host_id@),
            states@[cert_monitor_host_id@].host.name@ == cert_monitor_host_id@,
            states@[cert_monitor_host_id@].host.fqdn@.len() == 0,
            states@[cert_monitor_host_id@].host.ip_address == crate::host::unspecified_address(),
            states@[cert_monitor_host_id@].host.settings@.len() == 0,
            states@[cert_monitor_host_id@].status == HostStatus::Unknown,
            forall|k: Seq<char>| k != cert_monitor_host_id@ ==> (#[trigger] states@.contains_key(k) <==> exists|j: int|
                0 <= j < i && ks[j] == k && crate::text::alphanumeric_with(k, "-"@)),
            forall|k: Seq<char>| k != cert_monitor_host_id@ && #[trigger] states@.contains_key(k) ==> initial_state_of(
                states@[k],
                k,
                hosts.hosts@[k].address,
                hosts.hosts@[k].fqdn,
            ),
        decreases n - i,
    {
        let name = hosts.hosts.key_at(i);
        let config = hosts.hosts.value_at(i);
        proof {
            assert(hosts.hosts@[ks[i as int]] == hosts.hosts.vals()[i as int]);
        }
        let sudo = vec![crate::configuration::HostSetting::UseSudo];
        let ghost before = states@;
        if !crate::enums::str_equals(name.as_str(), cert_monitor_host_id) {
            match Host::new(name.as_str(), config.address.as_str(), config.fqdn.as_str(), &sudo) {
                Ok(host) => {
                    proof {
                        assert(crate::keyed::views_of(sudo@) =~= seq![crate::configuration::HostSetting::UseSudo]);
                    }
                    states.insert(name.clone(), HostState::from_host(host, HostStatus::Unknown));
                },
                Err(_) => {},
            }
        }
        proof {
            assert forall|k: Seq<char>| k != cert_monitor_host_id@ implies (#[trigger] states@.contains_key(k) <==> exists|j: int|
                0 <= j < i + 1 && ks[j] == k && crate::text::alphanumeric_with(k, "-"@)) by {
                if k == name@ {
                    assert(ks[i as int] == k);
                } else if exists|j: int| 0 <= j < i + 1 && ks[j] == k && crate::text::alphanumeric_with(k, "-"@) {
                    let j = choose|j: int| 0 <= j < i + 1 && ks[j] == k && crate::text::alphanumeric_with(k, "-"@);
                    assert(j != i);
                }
            }
        }
        i = i + 1;
    }
    proof {
        assert forall|k: Seq<char>| k != cert_monitor_host_id@ implies (#[trigger] states@.contains_key(k) <==> hosts.hosts@.contains_key(k)
            && crate::text::alphanumeric_with(k, "-"@)) by {
            if hosts.hosts@.contains_key(k) && crate::text::alphanumeric_with(k, "-"@) {
                let j = ks.index_of(k);
                assert(ks[j] == k);
            }
        }
    }
    states
}


/// A message to the receiver of host state updates: what a monitor or a
/// command produced on a host, or the request to stop receiving.
#[derive(Debug)]
pub struct StateUpdateMessage<P, R> {
    pub host_name: String,
    pub display_options: DisplayOptions,
    /// Id of the module that produced the update.
    pub module_id: String,
    /// Only used with monitors.
    pub data_point: Option<P>,
    /// Only used with commands.
    pub command_result: Option<R>,
    pub errors: Vec<LkError>,
    /// Identifies the asynchronous request the update answers.
    pub invocation_id: u64,
    /// Stops the receiver.
    pub stop: bool,
}

impl<P, R> StateUpdateMessage<P, R> {
    /// The message that stops the receiver; everything else is empty.
    pub fn stop() -> (m: StateUpdateMessage<P, R>)
        ensures
            m.stop,
            m.host_name@.len() == 0,
            m.module_id@.len() == 0,
            m.data_point is None,
            m.command_result is None,
            m.errors@.len() == 0,
            m.invocation_id == 0,
    {
        StateUpdateMessage {
            host_name: String::new(),
            display_options: DisplayOptions::default(),
            module_id: String::new(),
            data_point: None,
            command_result: None,
            errors: Vec::new(),
            invocation_id: 0,
            stop: true,
        }
    }
}

/// What the receiver of state updates does with a message.
#[derive(Debug, Clone, Copy, PartialEq, Eq, Structural)]
pub enum ReceiverStep {
    /// Stop receiving.
    Stop,
    /// Pass over it: its host is no longer monitored (it may just have
    /// been removed).
    Skip,
    /// Apply it to its host's state.
    Apply,
}

/// Decides what the receiver does with a message, given whether its host
/// is known.
pub fn receiver_step<P, R>(message: &StateUpdateMessage<P, R>, host_known: bool) -> (r: ReceiverStep)
    ensures
        r == (if message.stop {
            ReceiverStep::Stop
        } else if !host_known {
            ReceiverStep::Skip
        } else {
            ReceiverStep::Apply
        }),
{
    if message.stop {
        ReceiverStep::Stop
    } else if !host_known {
        ReceiverStep::Skip
    } else {
        ReceiverStep::Apply
    }
}


/// A host is down exactly when one of its monitors that is marked critical
/// has its latest value at the critical level: a monitor not marked
/// critical never brings the host down, whatever its value.
pub proof fn law_down_only_by_critical_monitors<P>(monitors: Map<Seq<char>, MonitorHistoryView<P>>)
    ensures
        status_of(monitors) == HostStatus::Down <==> exists|k: Seq<char>| #[trigger] monitors.contains_key(k)
            && monitors[k].is_critical && monitors[k].values.len() > 0 && monitors[k].values.last().criticality
            == Criticality::Critical,
{
    if status_of(monitors) == HostStatus::Down {
        let k = choose|k: Seq<char>| #[trigger] critical_at(monitors, k, Criticality::Critical);
        assert(monitors.contains_key(k));
    }
    if exists|k: Seq<char>| #[trigger] monitors.contains_key(k) && monitors[k].is_critical && monitors[k].values.len()
        > 0 && monitors[k].values.last().criticality == Criticality::Critical {
        let k = choose|k: Seq<char>| #[trigger] monitors.contains_key(k) && monitors[k].is_critical
            && monitors[k].values.len() > 0 && monitors[k].values.last().criticality == Criticality::Critical;
        assert(critical_at(monitors, k, Criticality::Critical));
    }
}

/// Adding a monitor that is not marked critical, at any value, never turns
/// a host that is not down into a down one.
pub proof fn law_noncritical_monitor_never_downs_host<P>(
    monitors: Map<Seq<char>, MonitorHistoryView<P>>,
    k: Seq<char>,
    h: MonitorHistoryView<P>,
)
    requires
        !h.is_critical,
        status_of(monitors) != HostStatus::Down,
        !monitors.contains_key(k),
    ensures
        status_of(monitors.insert(k, h)) != HostStatus::Down,
{
    let m2 = monitors.insert(k, h);
    if status_of(m2) == HostStatus::Down {
        let j = choose|j: Seq<char>| #[trigger] critical_at(m2, j, Criticality::Critical);
        assert(j != k);
        assert(critical_at(monitors, j, Criticality::Critical));
    }
}

} // verus!
