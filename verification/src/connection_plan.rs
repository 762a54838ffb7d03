//! Which hosts keep their open connections when the configuration is
//! reloaded: those whose connector settings did not change and that are
//! still configured; the rest are connected anew.

use vstd::prelude::*;
use crate::config_editor::contains_text;
use crate::configuration::{ConfigGroup, ConnectorConfig, ConnectorConfigView, Hosts};
use crate::enums::str_equals;
use crate::keyed::{views_of, KeyedList};

verus! {

/// Whether two sets of settings are the same.
pub fn same_settings(a: &KeyedList<String>, b: &KeyedList<String>) -> (r: bool)
    ensures
        r == (a@ == b@),
{
    let n = a.len();
    let m = b.len();
    proof {
        a.lemma_view_len();
        b.lemma_view_len();
    }
    if n != m {
        return false;
    }
    let mut i: usize = 0;
    while i < n
        invariant
            n == a.keys().len(),
            a.consistent(),
            b.consistent(),
            i <= n,
            forall|j: int| 0 <= j < i ==> #[trigger] b@.contains_key(a.keys()[j]) && b@[a.keys()[j]] == a@[a.keys()[j]],
        decreases n - i,
    {
        let key = a.key_at(i);
        let value = a.value_at(i);
        match b.get(key.as_str()) {
            Some(other) => {
                if !str_equals(value.as_str(), other.as_str()) {
                    return false;
                }
                assert(other@ == value@);
            },
            None => {
                return false;
            },
        }
        i = i + 1;
    }
    proof {
        assert forall|k: Seq<char>| #[trigger] a@.contains_key(k) implies b@.contains_key(k) && b@[k] == a@[k] by {
            let j = a.keys().index_of(k);
            assert(a.keys()[j] == k);
        }
        assert(a@.dom().subset_of(b@.dom()));
        vstd::set_lib::lemma_subset_equality(a@.dom(), b@.dom());
        assert(a@ =~= b@);
    }
    true
}

/// Whether two sets of connectors are configured the same.
pub fn same_connectors(a: &KeyedList<ConnectorConfig>, b: &KeyedList<ConnectorConfig>) -> (r: bool)
    ensures
        r == (a@ == b@),
{
    let n = a.len();
    let m = b.len();
    proof {
        a.lemma_view_len();
        b.lemma_view_len();
    }
    if n != m {
        return false;
    }
    let mut i: usize = 0;
    while i < n
        invariant
            n == a.keys().len(),
            a.consistent(),
            b.consistent(),
            i <= n,
            forall|j: int| 0 <= j < i ==> #[trigger] b@.contains_key(a.keys()[j]) && b@[a.keys()[j]] == a@[a.keys()[j]],
        decreases n - i,
    {
        let key = a.key_at(i);
        let value = a.value_at(i);
        match b.get(key.as_str()) {
            Some(other) => {
                if !same_settings(&value.settings, &other.settings) {
                    return false;
                }
                assert(a@[a.keys()[i as int]] == value@);
                assert(other@ == b@[key@]);
                assert(other@.settings == value@.settings);
                assert(other@ == value@);
            },
            None => {
                return false;
            },
        }
        proof {
            let ghost k = a.keys()[i as int];
            assert(b@.contains_key(k) && b@[k] == a@[k]);
            assert forall|j: int| 0 <= j < i + 1 implies #[trigger] b@.contains_key(a.keys()[j]) && b@[a.keys()[j]] == a@[a.keys()[j]] by {
                if j == i {
                    assert(a.keys()[j] == k);
                }
            }
        }
        i = i + 1;
    }
    proof {
        assert forall|k: Seq<char>| #[trigger] a@.contains_key(k) implies b@.contains_key(k) && b@[k] == a@[k] by {
            let j = a.keys().index_of(k);
            assert(a.keys()[j] == k);
        }
        vstd::set_lib::lemma_subset_equality(a@.dom(), b@.dom());
        assert(a@ =~= b@);
    }
    true
}

/// Whether a host's connector settings differ from those it was connected
/// with.
pub open spec fn connectors_changed(
    previous: Map<Seq<char>, ConnectorConfigViewMap>,
    current: Map<Seq<char>, ConnectorConfigViewMap>,
    host: Seq<char>,
) -> bool {
    previous.contains_key(host) && current.contains_key(host) && previous[host] != current[host]
}

/// Connectors of a host by id.
pub type ConnectorConfigViewMap = Map<Seq<char>, ConnectorConfigView>;

/// The connected hosts, in order, that keep their connections: their
/// connectors did not change, and they are still configured or are the
/// host that is always kept.
pub open spec fn kept_hosts(
    connected: Seq<Seq<char>>,
    previous: Map<Seq<char>, ConnectorConfigViewMap>,
    current: Map<Seq<char>, ConnectorConfigViewMap>,
    always_kept: Seq<char>,
) -> Seq<Seq<char>>
    decreases connected.len(),
{
    if connected.len() == 0 {
        connected
    } else {
        let earlier = kept_hosts(connected.drop_last(), previous, current, always_kept);
        let h = connected.last();
        if !connectors_changed(previous, current, h) && (current.contains_key(h) || h == always_kept) {
            earlier.push(h)
        } else {
            earlier
        }
    }
}

/// The configured hosts, in order, that are not among `kept`.
pub open spec fn hosts_to_connect(hosts: Seq<Seq<char>>, kept: Seq<Seq<char>>) -> Seq<Seq<char>>
    decreases hosts.len(),
{
    if hosts.len() == 0 {
        hosts
    } else if kept.contains(hosts.last()) {
        hosts_to_connect(hosts.drop_last(), kept)
    } else {
        hosts_to_connect(hosts.drop_last(), kept).push(hosts.last())
    }
}

/// Effective connectors of each host.
pub open spec fn connectors_by_host(groups: Map<Seq<char>, crate::configuration::ConfigGroupView>) -> Map<
    Seq<char>,
    ConnectorConfigViewMap,
> {
    groups.map_values(|g: crate::configuration::ConfigGroupView| g.connectors)
}

/// Effective connectors of each configured host.
pub open spec fn host_connectors(hosts: Map<Seq<char>, crate::configuration::HostSettingsView>) -> Map<
    Seq<char>,
    ConnectorConfigViewMap,
> {
    hosts.map_values(|h: crate::configuration::HostSettingsView| h.effective.connectors)
}

/// What a reload does with connections.
#[derive(Debug)]
pub struct ConnectionPlan {
    /// Nothing was connected yet: every host is connected, and the host
    /// that is always kept is set up too.
    pub first_time: bool,
    /// Hosts whose connections stay open; the connections of the other
    /// connected hosts are closed.
    pub kept: Vec<String>,
    /// Hosts to connect.
    pub to_connect: Vec<String>,
}

/// Decides which connections a reload keeps. `connected` are the hosts
/// with open connections, `previous` the effective configurations they were
/// connected with, and `always_kept` the host that is not configured but
/// keeps its connection (certificate monitoring).
pub fn plan_connections(
    connected: &Vec<String>,
    previous: &KeyedList<ConfigGroup>,
    hosts: &Hosts,
    always_kept: &str,
) -> (r: ConnectionPlan)
    ensures
        r.first_time == (connected@.len() == 0),
        r.first_time ==> views_of(r.kept@) == Seq::<Seq<char>>::empty() && views_of(r.to_connect@) == hosts.hosts.keys(),
        !r.first_time ==> views_of(r.kept@) == kept_hosts(
            views_of(connected@),
            connectors_by_host(previous@),
            host_connectors(hosts.hosts@),
            always_kept@,
        ),
        !r.first_time ==> views_of(r.to_connect@) == hosts_to_connect(hosts.hosts.keys(), views_of(r.kept@)),
{
    let mut kept: Vec<String> = Vec::new();
    let first_time = connected.len() == 0;
    if !first_time {
        let ghost conn = views_of(connected@);
        let ghost prev = connectors_by_host(previous@);
        let ghost cur = host_connectors(hosts.hosts@);
        let mut i: usize = 0;
        while i < connected.len()
            invariant
                i <= connected.len(),
                conn == views_of(connected@),
                prev == connectors_by_host(previous@),
                cur == host_connectors(hosts.hosts@),
                views_of(kept@) == kept_hosts(conn.take(i as int), prev, cur, always_kept@),
            decreases connected.len() - i,
        {
            let host = &connected[i];
            assert(conn.take(i + 1).drop_last() =~= conn.take(i as int));
            assert(conn.take(i + 1).last() == host@);
            let current = hosts.hosts.get(host.as_str());
            let changed = match (previous.get(host.as_str()), &current) {
                (Some(before), Some(now)) => !same_connectors(&before.connectors, &now.effective.connectors),
                _ => false,
            };
            let present = current.is_some() || str_equals(host.as_str(), always_kept);
            if !changed && present {
                let ghost before = views_of(kept@);
                kept.push(host.clone());
                assert(views_of(kept@) =~= before.push(host@));
            }
            i = i + 1;
        }
        assert(conn.take(connected.len() as int) =~= conn);
    } else {
        assert(views_of(kept@) =~= Seq::<Seq<char>>::empty());
    }
    let n = hosts.hosts.len();
    let mut to_connect: Vec<String> = Vec::new();
    let mut j: usize = 0;
    while j < n
        invariant
            n == hosts.hosts.keys().len(),
            j <= n,
            first_time ==> views_of(kept@) == Seq::<Seq<char>>::empty(),
            views_of(to_connect@) == hosts_to_connect(hosts.hosts.keys().take(j as int), views_of(kept@)),
        decreases n - j,
    {
        let host = hosts.hosts.key_at(j);
        assert(hosts.hosts.keys().take(j + 1).drop_last() =~= hosts.hosts.keys().take(j as int));
        assert(hosts.hosts.keys().take(j + 1).last() == host@);
        if !contains_text(&kept, host.as_str()) {
            let ghost before = views_of(to_connect@);
            to_connect.push(host.clone());
            assert(views_of(to_connect@) =~= before.push(host@));
        }
        j = j + 1;
    }
    assert(hosts.hosts.keys().take(n as int) =~= hosts.hosts.keys());
    proof {
        if first_time {
            lemma_nothing_kept_connects_all(hosts.hosts.keys());
        }
    }
    ConnectionPlan { first_time, kept, to_connect }
}

proof fn lemma_nothing_kept_connects_all(hosts: Seq<Seq<char>>)
    ensures
        hosts_to_connect(hosts, Seq::empty()) == hosts,
    decreases hosts.len(),
{
    if hosts.len() > 0 {
        lemma_nothing_kept_connects_all(hosts.drop_last());
        assert(hosts.drop_last().push(hosts.last()) =~= hosts);
    }
}


/// Every configured host is either kept or connected anew, never both, and
/// only configured hosts are connected.
pub proof fn law_reload_partitions_hosts(hosts: Seq<Seq<char>>, kept: Seq<Seq<char>>)
    ensures
        forall|h: Seq<char>| #[trigger] hosts.contains(h) ==> (hosts_to_connect(hosts, kept).contains(h) <==> !kept.contains(h)),
        forall|h: Seq<char>| #[trigger] hosts_to_connect(hosts, kept).contains(h) ==> hosts.contains(h),
    decreases hosts.len(),
{
    if hosts.len() > 0 {
        let rest = hosts.drop_last();
        law_reload_partitions_hosts(rest, kept);
        let earlier = hosts_to_connect(rest, kept);
        assert forall|h: Seq<char>| #[trigger] hosts.contains(h) implies (hosts_to_connect(hosts, kept).contains(h) <==> !kept.contains(h)) by {
            let i = hosts.index_of(h);
            if i < hosts.len() - 1 {
                assert(rest[i] == h);
                assert(rest.contains(h));
            }
            if !kept.contains(hosts.last()) {
                assert(earlier.push(hosts.last())[earlier.len() as int] == hosts.last());
                if earlier.contains(h) {
                    let k = earlier.index_of(h);
                    assert(earlier.push(hosts.last())[k] == h);
                }
                if earlier.push(hosts.last()).contains(h) && h != hosts.last() {
                    let k = earlier.push(hosts.last()).index_of(h);
                    assert(earlier[k] == h);
                }
            }
        }
        assert forall|h: Seq<char>| #[trigger] hosts_to_connect(hosts, kept).contains(h) implies hosts.contains(h) by {
            if earlier.contains(h) {
                let k = rest.index_of(h);
                assert(hosts[k] == h);
            } else {
                assert(hosts[hosts.len() - 1] == h) by {
                    let k = earlier.push(hosts.last()).index_of(h);
                    if k < earlier.len() {
                        assert(earlier[k] == h);
                    }
                }
            }
        }
    }
}

/// A connected host whose connectors did not change and that is still
/// configured keeps its connection across a reload.
pub proof fn law_unchanged_host_is_kept(
    connected: Seq<Seq<char>>,
    previous: Map<Seq<char>, ConnectorConfigViewMap>,
    current: Map<Seq<char>, ConnectorConfigViewMap>,
    always_kept: Seq<char>,
    host: Seq<char>,
)
    requires
        connected.contains(host),
        current.contains_key(host),
        !connectors_changed(previous, current, host),
    ensures
        kept_hosts(connected, previous, current, always_kept).contains(host),
    decreases connected.len(),
{
    let rest = connected.drop_last();
    let earlier = kept_hosts(rest, previous, current, always_kept);
    if connected.last() == host {
        assert(earlier.push(host)[earlier.len() as int] == host);
    } else {
        let i = connected.index_of(host);
        assert(rest[i] == host);
        law_unchanged_host_is_kept(rest, previous, current, always_kept, host);
        let k = earlier.index_of(host);
        let h = connected.last();
        if !connectors_changed(previous, current, h) && (current.contains_key(h) || h == always_kept) {
            assert(earlier.push(h)[k] == host);
        }
    }
}

/// A host whose connectors changed is connected anew: it is never kept.
pub proof fn law_changed_host_reconnects(
    connected: Seq<Seq<char>>,
    previous: Map<Seq<char>, ConnectorConfigViewMap>,
    current: Map<Seq<char>, ConnectorConfigViewMap>,
    always_kept: Seq<char>,
    host: Seq<char>,
)
    requires
        connectors_changed(previous, current, host),
    ensures
        !kept_hosts(connected, previous, current, always_kept).contains(host),
    decreases connected.len(),
{
    if connected.len() > 0 {
        let rest = connected.drop_last();
        let earlier = kept_hosts(rest, previous, current, always_kept);
        law_changed_host_reconnects(rest, previous, current, always_kept, host);
        let h = connected.last();
        if !connectors_changed(previous, current, h) && (current.contains_key(h) || h == always_kept) {
            if earlier.push(h).contains(host) {
                let k = earlier.push(h).index_of(host);
                if k < earlier.len() {
                    assert(earlier[k] == host);
                }
            }
        }
    }
}

} // verus!
