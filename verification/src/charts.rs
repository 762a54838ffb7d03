//! Which charts a host has: the configured chart categories that draw at
//! least one monitor enabled on the host, and the monitors of one chart.

use vstd::prelude::*;
use crate::config_editor::contains_text;
use crate::configuration::{ChartCategory, DisplayOptions, HostSettings, HostSettingsView, Hosts};
use crate::enums::str_equals;
use crate::keyed::{sorted_keys, views_of};

verus! {

/// Whether a monitor is enabled on a host (a monitor whose enabled flag is
/// unset is).
pub open spec fn monitor_enabled(host: HostSettingsView, monitor_id: Seq<char>) -> bool {
    host.effective.monitors.contains_key(monitor_id) && match host.effective.monitors[monitor_id].enabled {
        Some(b) => b,
        None => true,
    }
}

/// Whether a chart draws at least one monitor enabled on the host.
pub open spec fn chart_drawn(host: HostSettingsView, chart: ChartCategory) -> bool {
    exists|i: int| 0 <= i < chart.monitors@.len() && #[trigger] monitor_enabled(host, chart.monitors@[i]@)
}

/// The names of the charts among the first `n` that the host has, in order.
pub open spec fn drawn_charts(host: HostSettingsView, charts: Seq<ChartCategory>, n: nat) -> Seq<Seq<char>>
    decreases n,
{
    if n == 0 {
        Seq::empty()
    } else if chart_drawn(host, charts[n - 1]) {
        drawn_charts(host, charts, (n - 1) as nat).push(charts[n - 1].name@)
    } else {
        drawn_charts(host, charts, (n - 1) as nat)
    }
}

/// Whether monitor `monitor_id` is enabled on `host`.
fn is_monitor_enabled(host: &HostSettings, monitor_id: &str) -> (r: bool)
    ensures
        r == monitor_enabled(host@, monitor_id@),
{
    match host.effective.monitors.get(monitor_id) {
        Some(m) => match m.enabled {
            Some(b) => b,
            None => true,
        },
        None => false,
    }
}

/// Whether a chart draws at least one monitor enabled on the host.
fn is_chart_drawn(host: &HostSettings, chart: &ChartCategory) -> (r: bool)
    ensures
        r == chart_drawn(host@, *chart),
{
    let mut i: usize = 0;
    while i < chart.monitors.len()
        invariant
            i <= chart.monitors@.len(),
            forall|j: int| 0 <= j < i ==> !#[trigger] monitor_enabled(host@, chart.monitors@[j]@),
        decreases chart.monitors@.len() - i,
    {
        if is_monitor_enabled(host, chart.monitors[i].as_str()) {
            return true;
        }
        i = i + 1;
    }
    false
}

/// The charts a host has, in the configured order: those that draw at least
/// one monitor enabled on it. The host must be configured.
pub fn chart_categories(hosts: &Hosts, display_options: &DisplayOptions, host_id: &str) -> (r: Vec<String>)
    requires
        hosts.hosts@.contains_key(host_id@),
    ensures
        views_of(r@) == drawn_charts(
            hosts.hosts@[host_id@],
            display_options.chart_categories@,
            display_options.chart_categories@.len(),
        ),
{
    let host = match hosts.hosts.get(host_id) {
        Some(h) => h,
        None => {
            return Vec::new();
        },
    };
    let charts = &display_options.chart_categories;
    let mut names: Vec<String> = Vec::new();
    let mut i: usize = 0;
    while i < charts.len()
        invariant
            host@ == hosts.hosts@[host_id@],
            i <= charts@.len(),
            views_of(names@) == drawn_charts(host@, charts@, i as nat),
        decreases charts@.len() - i,
    {
        if is_chart_drawn(host, &charts[i]) {
            let ghost before = views_of(names@);
            names.push(charts[i].name.clone());
            assert(views_of(names@) =~= before.push(charts@[i as int].name@));
        }
        i = i + 1;
    }
    names
}

/// The monitors a chart draws: those of the first chart named `name`, none
/// when there is no such chart.
pub open spec fn chart_monitors(charts: Seq<ChartCategory>, name: Seq<char>) -> Seq<Seq<char>>
    decreases charts.len(),
{
    if charts.len() == 0 {
        Seq::empty()
    } else if charts[0].name@ == name {
        views_of(charts[0].monitors@)
    } else {
        chart_monitors(charts.drop_first(), name)
    }
}

/// The monitors of a chart's configuration, as found by name.
fn find_chart_monitors(charts: &Vec<ChartCategory>, name: &str) -> (r: Vec<String>)
    ensures
        views_of(r@) == chart_monitors(charts@, name@),
{
    let mut i: usize = 0;
    assert(charts@.skip(0) =~= charts@);
    while i < charts.len()
        invariant
            i <= charts@.len(),
            chart_monitors(charts@, name@) == chart_monitors(charts@.skip(i as int), name@),
        decreases charts@.len() - i,
    {
        let ghost rest = charts@.skip(i as int);
        assert(rest[0] == charts@[i as int]);
        if str_equals(charts[i].name.as_str(), name) {
            return crate::keyed::deep_copy_vec(&charts[i].monitors);
        }
        assert(rest.drop_first() =~= charts@.skip(i + 1));
        i = i + 1;
    }
    assert(charts@.skip(i as int) =~= Seq::<ChartCategory>::empty());
    Vec::new()
}

/// The monitors of a host that a chart draws, in id order; none for an
/// unknown host.
pub fn chart_category_monitor_ids(hosts: &Hosts, display_options: &DisplayOptions, host_id: &str, category_id: &str) -> (r: Vec<
    String,
>)
    ensures
        !hosts.hosts@.contains_key(host_id@) ==> r@.len() == 0,
        hosts.hosts@.contains_key(host_id@) ==> ({
            let host = hosts.hosts@[host_id@];
            &&& sorted_keys(views_of(r@))
            &&& forall|k: Seq<char>| #[trigger] views_of(r@).contains(k) <==> monitor_enabled(host, k) && chart_monitors(
                display_options.chart_categories@,
                category_id@,
            ).contains(k)
        }),
{
    let host = match hosts.hosts.get(host_id) {
        Some(h) => h,
        None => {
            return Vec::new();
        },
    };
    let wanted = find_chart_monitors(&display_options.chart_categories, category_id);
    let ghost wv = views_of(wanted@);
    let monitors = &host.effective.monitors;
    let n = monitors.len();
    let ghost ks = monitors.keys();
    let mut out: Vec<String> = Vec::new();
    let mut i: usize = 0;
    while i < n
        invariant
            n == ks.len(),
            ks == monitors.keys(),
            monitors.consistent(),
            wv == views_of(wanted@),
            i <= n,
            sorted_keys(views_of(out@)),
            forall|x: int| 0 <= x < views_of(out@).len() ==> exists|y: int| 0 <= y < i && ks[y] == #[trigger] views_of(out@)[x],
            forall|k: Seq<char>| #[trigger] views_of(out@).contains(k) <==> exists|y: int|
                0 <= y < i && ks[y] == k && monitor_enabled(host@, k) && wv.contains(k),
        decreases n - i,
    {
        let id = monitors.key_at(i);
        let ghost before = views_of(out@);
        assert(monitors@.contains_key(ks[i as int]));
        if is_monitor_enabled(host, id.as_str()) && contains_text(&wanted, id.as_str()) {
            out.push(id.clone());
            proof {
                let now = views_of(out@);
                assert(now =~= before.push(id@));
                assert forall|x: int, y: int| 0 <= x < y < now.len() implies crate::text::text_less(#[trigger] now[x], #[trigger] now[y]) by {
                    if y == now.len() - 1 {
                        let z = choose|z: int| 0 <= z < i && ks[z] == #[trigger] before[x];
                        assert(now[x] == before[x]);
                        assert(sorted_keys(ks));
                        assert(crate::text::text_less(ks[z], ks[i as int]));
                    } else {
                        assert(now[x] == before[x] && now[y] == before[y]);
                    }
                }
                assert forall|x: int| 0 <= x < now.len() implies exists|y: int| 0 <= y < i + 1 && ks[y] == #[trigger] now[x] by {
                    if x < before.len() {
                        assert(now[x] == before[x]);
                    } else {
                        assert(ks[i as int] == now[x]);
                    }
                }
                assert forall|k: Seq<char>| #[trigger] now.contains(k) <==> exists|y: int|
                    0 <= y < i + 1 && ks[y] == k && monitor_enabled(host@, k) && wv.contains(k) by {
                    if now.contains(k) {
                        if k == id@ {
                            assert(ks[i as int] == k);
                        } else {
                            let x = now.index_of(k);
                            assert(before[x] == k);
                            assert(before.contains(k));
                        }
                    }
                    if exists|y: int| 0 <= y < i + 1 && ks[y] == k && monitor_enabled(host@, k) && wv.contains(k) {
                        let y = choose|y: int| 0 <= y < i + 1 && ks[y] == k && monitor_enabled(host@, k) && wv.contains(k);
                        if y == i {
                            assert(now[now.len() - 1] == k);
                        } else {
                            assert(before.contains(k));
                            let x = before.index_of(k);
                            assert(now[x] == k);
                        }
                    }
                }
            }
        } else {
            proof {
                assert forall|k: Seq<char>| #[trigger] before.contains(k) <==> exists|y: int|
                    0 <= y < i + 1 && ks[y] == k && monitor_enabled(host@, k) && wv.contains(k) by {
                    if exists|y: int| 0 <= y < i + 1 && ks[y] == k && monitor_enabled(host@, k) && wv.contains(k) {
                        let y = choose|y: int| 0 <= y < i + 1 && ks[y] == k && monitor_enabled(host@, k) && wv.contains(k);
                        if y == i {
                            assert(k == id@);
                            assert(false);
                        }
                    }
                }
            }
        }
        i = i + 1;
    }
    proof {
        assert forall|k: Seq<char>| #[trigger] views_of(out@).contains(k) <==> monitor_enabled(host@, k) && wv.contains(k) by {
            if monitor_enabled(host@, k) && wv.contains(k) {
                assert(monitors@.contains_key(k));
                let y = ks.index_of(k);
                assert(ks[y] == k);
            }
        }
    }
    out
}

/// A change of a monitored value's criticality, as the metrics service
/// records it.
#[derive(Debug)]
pub struct AlertEvent {
    pub time: i64,
    pub host_id: String,
    pub monitor_id: String,
    pub entry_id: String,
    pub label: String,
    pub value: String,
    pub from_level: u8,
    pub to_level: u8,
}

/// An entry of the alert history the user interface shows: the levels by
/// name.
#[derive(Debug)]
pub struct AlertHistoryItem {
    pub time: i64,
    pub host_id: String,
    pub monitor_id: String,
    pub entry_id: String,
    pub label: String,
    pub value: String,
    pub from_level: String,
    pub to_level: String,
}

/// Most entries the alert history shows.
pub const ALERT_HISTORY_LENGTH: usize = 100;

/// The name of a criticality level, or its number when it names none.
pub open spec fn level_name(level: u8) -> Seq<char> {
    match level {
        0 => "NotAvailable"@,
        1 => "Ignore"@,
        2 => "Normal"@,
        3 => "Info"@,
        4 => "NoData"@,
        5 => "Warning"@,
        6 => "Error"@,
        7 => "Critical"@,
        _ => crate::text::decimal_text(level as int),
    }
}

/// The shown entry of an alert event.
pub open spec fn history_item_of(e: AlertEvent, item: AlertHistoryItem) -> bool {
    &&& item.time == e.time
    &&& item.host_id@ == e.host_id@
    &&& item.monitor_id@ == e.monitor_id@
    &&& item.entry_id@ == e.entry_id@
    &&& item.label@ == e.label@
    &&& item.value@ == e.value@
    &&& item.from_level@ == level_name(e.from_level)
    &&& item.to_level@ == level_name(e.to_level)
}

fn level_text(level: u8) -> (r: String)
    ensures
        r@ == level_name(level),
{
    match crate::enums::Criticality::try_from(level) {
        Ok(c) => c.to_text(),
        Err(()) => {
            let mut t = String::new();
            crate::text::append_decimal(&mut t, level as i64);
            t
        },
    }
}

/// The alert history to show: the newest events first, at most the
/// history length of them.
pub fn alert_history(events: &Vec<AlertEvent>) -> (r: Vec<AlertHistoryItem>)
    ensures
        r@.len() == if events@.len() < ALERT_HISTORY_LENGTH { events@.len() } else { ALERT_HISTORY_LENGTH as nat },
        forall|i: int| 0 <= i < r@.len() ==> history_item_of(events@[events@.len() - 1 - i], #[trigger] r@[i]),
{
    let n = events.len();
    let count = if n < ALERT_HISTORY_LENGTH { n } else { ALERT_HISTORY_LENGTH };
    let mut items: Vec<AlertHistoryItem> = Vec::new();
    let mut i: usize = 0;
    while i < count
        invariant
            n == events@.len(),
            count <= n,
            count == if n < ALERT_HISTORY_LENGTH { n } else { ALERT_HISTORY_LENGTH },
            i <= count,
            items@.len() == i,
            forall|j: int| 0 <= j < i ==> history_item_of(events@[n - 1 - j], #[trigger] items@[j]),
        decreases count - i,
    {
        let e = &events[n - 1 - i];
        let item = AlertHistoryItem {
            time: e.time,
            host_id: e.host_id.clone(),
            monitor_id: e.monitor_id.clone(),
            entry_id: e.entry_id.clone(),
            label: e.label.clone(),
            value: e.value.clone(),
            from_level: level_text(e.from_level),
            to_level: level_text(e.to_level),
        };
        items.push(item);
        i = i + 1;
    }
    items
}


/// A monitored value as the metrics service stores it: a label, and the
/// values grouped under it.
#[derive(Debug)]
pub struct MetricNode {
    pub label: String,
    pub children: Vec<MetricNode>,
}

/// Label of a value under `parent`: the two joined by a slash, or the
/// value's own label where either is empty.
pub open spec fn joined_label(parent: Seq<char>, label: Seq<char>) -> Seq<char> {
    if parent.len() == 0 || label.len() == 0 {
        label
    } else {
        parent + "/"@ + label
    }
}

/// Labels of the series stored for a value: one per leaf, in order.
pub open spec fn leaf_labels(node: MetricNode, parent: Seq<char>) -> Seq<Seq<char>>
    decreases node, 1int,
{
    let label = joined_label(parent, node.label@);
    if node.children@.len() == 0 {
        seq![label]
    } else {
        labels_of_children(node.children@, label)
    }
}

/// Labels of the series of each value of `children`, one after another.
pub open spec fn labels_of_children(children: Seq<MetricNode>, parent: Seq<char>) -> Seq<Seq<char>>
    decreases children, 0int,
{
    if children.len() == 0 {
        Seq::empty()
    } else {
        labels_of_children(children.drop_last(), parent) + leaf_labels(children.last(), parent)
    }
}

fn join_label(parent: &String, label: &String) -> (r: String)
    ensures
        r@ == joined_label(parent@, label@),
{
    if parent.as_str().is_empty() || label.as_str().is_empty() {
        label.clone()
    } else {
        let mut r = parent.clone();
        crate::text::append_text(&mut r, "/");
        crate::text::append_text(&mut r, label.as_str());
        proof {
            reveal_strlit("/");
        }
        r
    }
}

fn collect_labels(node: &MetricNode, parent: &String, out: &mut Vec<String>)
    ensures
        views_of(final(out)@) == views_of(old(out)@) + leaf_labels(*node, parent@),
    decreases node, 1int,
{
    let label = join_label(parent, &node.label);
    if node.children.len() == 0 {
        out.push(label);
        proof {
            assert(views_of(out@) =~= views_of(old(out)@) + seq![label@]);
        }
    } else {
        let n = node.children.len();
        let mut i: usize = 0;
        while i < n
            invariant
                n == node.children@.len(),
                i <= n,
                views_of(out@) == views_of(old(out)@) + labels_of_children(node.children@.take(i as int), label@),
            decreases n - i,
        {
            collect_labels(&node.children[i], &label, out);
            proof {
                let t = node.children@.take(i as int + 1);
                assert(t.drop_last() =~= node.children@.take(i as int));
                assert(t.last() == node.children@[i as int]);
            }
            i = i + 1;
        }
        proof {
            assert(node.children@.take(n as int) =~= node.children@);
        }
    }
}

/// The labels of the series stored for a value, one per leaf value in
/// order, each joined to the labels above it.
pub fn metric_labels(node: &MetricNode) -> (r: Vec<String>)
    ensures
        views_of(r@) == leaf_labels(*node, Seq::empty()),
{
    let mut out: Vec<String> = Vec::new();
    let parent = String::new();
    collect_labels(node, &parent, &mut out);
    proof {
        assert(views_of(Seq::<String>::empty()) =~= Seq::<Seq<char>>::empty());
        assert(views_of(out@) =~= leaf_labels(*node, Seq::empty()));
    }
    out
}

} // verus!
