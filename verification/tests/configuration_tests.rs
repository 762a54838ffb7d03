use lightkeeper::configuration::{
    config_setup, join, retired_file_name, CommandConfig, ConfigSetup, ConfigGroup, Configuration, CustomCommandConfig, DisplayOptions, Groups, HostSetting,
    HostSettings, Hosts, MonitorConfig, Preferences, CURRENT_SCHEMA_VERSION, MAIN_CONFIG_FILE,
};
use lightkeeper::keyed::KeyedList;

fn settings(pairs: &[(&str, &str)]) -> KeyedList<String> {
    let mut list = KeyedList::new();
    for (k, v) in pairs {
        list.insert(k.to_string(), v.to_string());
    }
    list
}

fn monitor(enabled: Option<bool>, pairs: &[(&str, &str)]) -> MonitorConfig {
    let mut m = MonitorConfig::new_default();
    m.enabled = enabled;
    m.settings = settings(pairs);
    m
}

fn group_with_monitor(id: &str, m: MonitorConfig) -> ConfigGroup {
    let mut g = ConfigGroup::new_default();
    g.monitors.insert(id.to_string(), m);
    g
}

fn preferences() -> Preferences {
    Preferences {
        use_sandbox_mode: false,
        refresh_hosts_on_start: true,
        use_remote_editor: false,
        sudo_remote_editor: true,
        remote_text_editor: String::from("vim"),
        text_editor: String::from("kate"),
        terminal: String::from("xterm"),
        terminal_args: vec![String::from("-e")],
        close_to_tray: true,
        show_monitor_notifications: true,
        show_charts: false,
    }
}

fn display_options(show_status_bar: bool, style: &str) -> DisplayOptions {
    DisplayOptions {
        qtquick_style: style.to_string(),
        hide_info_notifications: false,
        categories: KeyedList::new(),
        show_status_bar,
        chart_categories: Vec::new(),
    }
}

#[test]
fn module_defaults() {
    assert_eq!(MonitorConfig::default_version(), "latest");
    assert_eq!(MonitorConfig::default_enabled(), Some(true));
    assert!(MonitorConfig::is_enabled(&None));
    assert!(MonitorConfig::is_enabled(&Some(true)));
    assert!(!MonitorConfig::is_enabled(&Some(false)));
    assert_eq!(CommandConfig::default_version(), "latest");
    assert!(DisplayOptions::default_to_true());
    assert_eq!(HostSettings::default_address(), "0.0.0.0");
    assert!(HostSettings::is_default_address(&String::from("0.0.0.0")));
    assert!(!HostSettings::is_default_address(&String::from("10.0.0.1")));
    assert!(Configuration::version_is_latest("latest"));
    assert!(!Configuration::version_is_latest("0.0.1"));
    assert_eq!(HostSetting::default_value(), HostSetting::UseSudo);
}

#[test]
fn second_group_overrides_first() {
    let first = group_with_monitor("load", monitor(Some(true), &[("a", "1"), ("b", "1")]));
    let second = group_with_monitor("load", monitor(Some(false), &[("b", "2"), ("c", "2")]));
    let merged = Configuration::merge_group_config(&first, &second);
    let load = merged.monitors.get("load").unwrap();
    assert_eq!(load.enabled, Some(false));
    assert_eq!(load.settings.get("a"), Some(&String::from("1")));
    assert_eq!(load.settings.get("b"), Some(&String::from("2")));
    assert_eq!(load.settings.get("c"), Some(&String::from("2")));
    assert_eq!(load.version, "latest");
}

#[test]
fn merging_an_empty_group_changes_nothing() {
    let mut first = group_with_monitor("uptime", monitor(None, &[("x", "y")]));
    first.custom_commands.push(CustomCommandConfig {
        name: String::from("hello"),
        description: String::from("d"),
        command: String::from("echo hi"),
    });
    let merged = Configuration::merge_group_config(&first, &ConfigGroup::new_default());
    assert_eq!(merged.monitors.get("uptime").unwrap().settings.get("x"), Some(&String::from("y")));
    assert_eq!(merged.custom_commands.len(), 1);
}

#[test]
fn effective_config_takes_groups_in_order_then_overrides() {
    let mut groups: KeyedList<ConfigGroup> = KeyedList::new();
    groups.insert(String::from("linux"), group_with_monitor("load", monitor(Some(true), &[("limit", "1")])));
    groups.insert(String::from("big"), group_with_monitor("load", monitor(Some(true), &[("limit", "8")])));

    let mut host = HostSettings::new_default();
    host.groups = vec![String::from("linux"), String::from("big"), String::from("missing")];
    let effective = Configuration::get_effective_group_config(&host, &groups);
    assert_eq!(effective.monitors.get("load").unwrap().settings.get("limit"), Some(&String::from("8")));

    host.overrides = group_with_monitor("load", monitor(Some(false), &[("limit", "3")]));
    let effective = Configuration::get_effective_group_config(&host, &groups);
    let load = effective.monitors.get("load").unwrap();
    assert_eq!(load.settings.get("limit"), Some(&String::from("3")));
    assert_eq!(load.enabled, Some(false));
}

#[test]
fn invalid_group_references_are_reported() {
    let mut groups = Groups { groups: KeyedList::new() };
    groups.groups.insert(String::from("linux"), ConfigGroup::new_default());
    let mut hosts = Hosts { hosts: KeyedList::new(), certificate_monitors: Vec::new() };
    let mut a = HostSettings::new_default();
    a.groups = vec![String::from("linux"), String::from("docker")];
    let mut b = HostSettings::new_default();
    b.groups = vec![String::from("nginx")];
    hosts.hosts.insert(String::from("a"), a);
    hosts.hosts.insert(String::from("b"), b);
    assert_eq!(Configuration::invalid_group_references(&hosts, &groups), vec![String::from("docker"), String::from("nginx")]);
    assert_eq!(
        Configuration::check_group_references(&hosts, &groups),
        Err(String::from("Invalid group references: docker, nginx"))
    );
    groups.groups.insert(String::from("docker"), ConfigGroup::new_default());
    groups.groups.insert(String::from("nginx"), ConfigGroup::new_default());
    assert_eq!(Configuration::check_group_references(&hosts, &groups), Ok(()));
}

#[test]
fn apply_group_configs_folds_old_settings_into_overrides() {
    let mut groups = Groups { groups: KeyedList::new() };
    groups.groups.insert(String::from("linux"), group_with_monitor("load", monitor(Some(true), &[("limit", "1")])));
    let mut host = HostSettings::new_default();
    host.groups = vec![String::from("linux")];
    host.monitors.insert(String::from("load"), monitor(Some(true), &[("limit", "5")]));
    host.settings = vec![HostSetting::UseSudo];
    let mut hosts = Hosts { hosts: KeyedList::new(), certificate_monitors: vec![String::from("example.com")] };
    hosts.hosts.insert(String::from("h"), host);

    Configuration::apply_group_configs(&mut hosts, &groups);
    let h = hosts.hosts.get("h").unwrap();
    assert_eq!(h.monitors.len(), 0);
    assert!(h.settings.is_empty());
    assert_eq!(h.overrides.monitors.get("load").unwrap().settings.get("limit"), Some(&String::from("5")));
    assert_eq!(h.effective.monitors.get("load").unwrap().settings.get("limit"), Some(&String::from("5")));
    assert_eq!(h.effective.host_settings, vec![HostSetting::UseSudo]);
    assert_eq!(hosts.certificate_monitors, vec![String::from("example.com")]);

    let saved = Configuration::hosts_for_saving(&hosts);
    let s = saved.hosts.get("h").unwrap();
    assert_eq!(s.effective.monitors.len(), 0);
    assert_eq!(s.overrides.monitors.get("load").unwrap().settings.get("limit"), Some(&String::from("5")));
}

#[test]
fn schema_upgrade_adds_nixos_group_once() {
    let mut defaults = Groups { groups: KeyedList::new() };
    defaults.groups.insert(String::from("nixos"), group_with_monitor("nixos-rebuild", monitor(None, &[])));
    let mut main = Configuration { preferences: preferences(), display_options: display_options(true, "Fusion"), schema_version: None };
    let mut groups = Groups { groups: KeyedList::new() };
    assert!(Configuration::is_schema_outdated(main.schema_version));
    Configuration::upgrade_schema(&mut main, &mut groups, &defaults);
    assert_eq!(main.schema_version, Some(CURRENT_SCHEMA_VERSION));
    assert!(groups.groups.contains_key("nixos"));
    assert!(!Configuration::is_schema_outdated(main.schema_version));

    let mut own = Groups { groups: KeyedList::new() };
    own.groups.insert(String::from("nixos"), ConfigGroup::new_default());
    let mut old = Configuration { preferences: preferences(), display_options: display_options(true, "Fusion"), schema_version: Some(1) };
    Configuration::upgrade_schema(&mut old, &mut own, &defaults);
    assert_eq!(own.groups.get("nixos").unwrap().monitors.len(), 0);
    assert_eq!(old.schema_version, Some(2));
}

#[test]
fn display_options_come_from_defaults_except_status_bar() {
    let mut main = Configuration { preferences: preferences(), display_options: display_options(false, "Custom"), schema_version: Some(2) };
    Configuration::apply_default_display_options(&mut main, display_options(true, "Fusion"));
    assert!(!main.display_options.show_status_bar);
    assert_eq!(main.display_options.qtquick_style, "Fusion");
}

#[test]
fn join_texts_with_separator() {
    assert_eq!(join(&vec![String::from("a"), String::from("b"), String::from("c")], ", "), "a, b, c");
    assert_eq!(join(&Vec::new(), ", "), "");
    assert_eq!(join(&vec![String::from("one")], " "), "one");
}

#[test]
fn config_setup_on_first_run_and_old_layout() {
    assert_eq!(config_setup(false, false), ConfigSetup::WriteInitial);
    assert_eq!(config_setup(false, true), ConfigSetup::WriteInitial);
    assert_eq!(config_setup(true, true), ConfigSetup::ReplaceOldLayout);
    assert_eq!(config_setup(true, false), ConfigSetup::UseExisting);
    assert_eq!(retired_file_name("hosts.yml"), "hosts.yml.old");
    assert_eq!(MAIN_CONFIG_FILE, "config.yml");
}

#[test]
fn group_merge_takes_second_monitor_version() {
    let mut a = monitor(Some(true), &[("k", "1")]);
    a.version = String::from("0.0.1");
    let mut b = monitor(None, &[]);
    b.version = String::from("0.0.2");
    let merged = Configuration::merge_group_config(&group_with_monitor("m", a), &group_with_monitor("m", b));
    let m = merged.monitors.get("m").unwrap();
    assert_eq!(m.version, "0.0.2");
    assert_eq!(m.settings.get("k"), Some(&String::from("1")));
    assert_eq!(m.enabled, None);
}
