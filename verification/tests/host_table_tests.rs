use lightkeeper::host_table::{HostRowEntry, HostTable, SelectionChange};
use lightkeeper::keyed::KeyedList;

fn hosts() -> KeyedList<HostRowEntry> {
    let mut h = KeyedList::new();
    for (id, fqdn, ip) in [
        ("web", "web.example.com", "10.0.0.1"),
        ("Db", "db.example.com", "10.0.0.2"),
        ("_cert-monitor", "", "0.0.0.0"),
        ("alpha", "alpha.lan", "192.168.1.5"),
    ] {
        h.insert(id.to_string(), HostRowEntry { fqdn: fqdn.to_string(), ip_address: ip.to_string() });
    }
    h
}

#[test]
fn rows_sorted_by_lowercase_without_internal_hosts() {
    let mut t = HostTable::new();
    assert!(!t.update_rows(&hosts()));
    assert_eq!(t.rows, vec!["alpha", "Db", "web"]);
    assert_eq!(t.selected_row, -1);
}

#[test]
fn search_matches_id_name_or_address() {
    let mut t = HostTable::new();
    t.set_filter("EXAMPLE", &hosts());
    assert_eq!(t.search_filter, "example");
    assert_eq!(t.rows, vec!["Db", "web"]);
    t.set_filter("192.168", &hosts());
    assert_eq!(t.rows, vec!["alpha"]);
    t.set_filter("db", &hosts());
    assert_eq!(t.rows, vec!["Db"]);
    t.set_filter("cert", &hosts());
    assert!(t.rows.is_empty());
}

#[test]
fn selection_follows_host_across_updates() {
    let mut t = HostTable::new();
    t.update_rows(&hosts());
    assert_eq!(t.toggle_row(2), SelectionChange::Activated);
    assert_eq!(t.selected_host_id(), "web");
    assert!(t.set_filter("web", &hosts()));
    assert_eq!(t.selected_row, 0);
    assert_eq!(t.selected_host_id(), "web");
    assert!(!t.set_filter("alpha", &hosts()));
    assert_eq!(t.selected_row, -1);
    assert_eq!(t.selected_host_id(), "");
}

#[test]
fn toggling_rows() {
    let mut t = HostTable::new();
    t.update_rows(&hosts());
    assert_eq!(t.toggle_row(1), SelectionChange::Activated);
    assert_eq!(t.toggle_row(0), SelectionChange::Moved);
    assert_eq!(t.selected_row, 0);
    assert_eq!(t.toggle_row(0), SelectionChange::Deactivated);
    assert_eq!(t.selected_row, -1);
}
