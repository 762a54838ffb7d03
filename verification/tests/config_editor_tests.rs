use lightkeeper::config_editor::{choose_text_editor, terminal_args_text, ConfigEditor, PreferenceValues};
use lightkeeper::configuration::{
    ConfigGroup, Configuration, CustomCommandConfig, DisplayOptions, Groups, HostSettings, Hosts, Preferences,
};
use lightkeeper::keyed::KeyedList;

fn preferences() -> Preferences {
    Preferences {
        use_sandbox_mode: false,
        refresh_hosts_on_start: true,
        use_remote_editor: false,
        sudo_remote_editor: true,
        remote_text_editor: String::from("nano"),
        text_editor: String::from("code"),
        terminal: String::from("konsole"),
        terminal_args: vec![String::from("-e")],
        close_to_tray: false,
        show_monitor_notifications: false,
        show_charts: true,
    }
}

fn editor() -> ConfigEditor {
    let main = Configuration {
        preferences: preferences(),
        display_options: DisplayOptions {
            qtquick_style: String::new(),
            hide_info_notifications: false,
            categories: KeyedList::new(),
            show_status_bar: true,
            chart_categories: Vec::new(),
        },
        schema_version: Some(2),
    };
    let hosts = Hosts { hosts: KeyedList::new(), certificate_monitors: Vec::new() };
    let mut groups = Groups { groups: KeyedList::new() };
    groups.groups.insert(String::from("linux"), ConfigGroup::new_default());
    groups.groups.insert(String::from("docker"), ConfigGroup::new_default());
    groups.groups.insert(String::from("defaults"), ConfigGroup::new_default());
    let defaults = Groups { groups: KeyedList::new() };
    let (editor, upgraded) = ConfigEditor::new(main, hosts, groups, &defaults);
    assert!(!upgraded);
    editor
}

fn no_values() -> PreferenceValues {
    PreferenceValues {
        refresh_hosts_on_start: None,
        use_remote_editor: None,
        remote_text_editor: None,
        sudo_remote_editor: None,
        text_editor: None,
        terminal: None,
        terminal_args: None,
        close_to_tray: None,
        show_monitor_notifications: None,
        show_charts: None,
        show_status_bar: None,
    }
}

#[test]
fn new_host_gets_default_groups() {
    let mut e = editor();
    e.add_host("web1");
    let host = e.hosts_config.hosts.get("web1").unwrap();
    assert_eq!(host.groups, vec!["defaults", "linux", "systemd-service", "docker", "docker-compose"]);
    assert_eq!(host.address, "0.0.0.0");
    e.remove_host("web1");
    assert!(!e.hosts_config.hosts.contains_key("web1"));
}

#[test]
fn certificate_monitors_are_unique() {
    let mut e = editor();
    assert!(e.add_certificate_monitor("example.com"));
    assert!(!e.add_certificate_monitor("example.com"));
    assert!(e.add_certificate_monitor("example.org"));
    assert_eq!(e.hosts_config.certificate_monitors, vec!["example.com", "example.org"]);
    e.remove_certificate_monitor("example.com");
    assert_eq!(e.hosts_config.certificate_monitors, vec!["example.org"]);
}

#[test]
fn sandbox_mode_restricts_editor_and_terminal() {
    let mut e = editor();
    assert!(e.set_sandboxed(true));
    assert_eq!(e.main_config.preferences.text_editor, "internal");
    assert_eq!(e.main_config.preferences.terminal, "internal");
    assert!(e.main_config.preferences.terminal_args.is_empty());
    assert!(!e.set_sandboxed(true));
    assert!(e.set_sandboxed(false));
    assert_eq!(e.main_config.preferences.text_editor, "internal");

    assert_eq!(choose_text_editor(true, "vim"), "internal");
    assert_eq!(choose_text_editor(true, "internal-simple"), "internal-simple");
    assert_eq!(choose_text_editor(false, "vim"), "vim");
}

#[test]
fn show_charts_reports_changes() {
    let mut e = editor();
    assert!(!e.set_show_charts(true));
    assert!(e.set_show_charts(false));
    assert!(!e.main_config.preferences.show_charts);
}

#[test]
fn preferences_dialog_defaults_and_round_trip() {
    let mut e = editor();
    e.set_preferences(no_values());
    let p = &e.main_config.preferences;
    assert!(!p.refresh_hosts_on_start);
    assert_eq!(p.remote_text_editor, "vim");
    assert_eq!(p.text_editor, "kate");
    assert_eq!(p.terminal, "xterm");
    assert_eq!(p.terminal_args, vec!["-e"]);
    assert!(p.close_to_tray);
    assert!(p.show_monitor_notifications);
    assert!(!p.show_charts);
    assert!(e.main_config.display_options.show_status_bar);

    let mut values = no_values();
    values.terminal_args = Some(String::from("--hold -e"));
    values.text_editor = Some(String::from("gedit"));
    e.set_preferences(values);
    assert_eq!(e.main_config.preferences.terminal_args, vec!["--hold", "-e"]);
    assert_eq!(terminal_args_text(&e.main_config.preferences), "--hold -e");
    assert_eq!(e.main_config.preferences.text_editor, "gedit");

    e.main_config.preferences.use_sandbox_mode = true;
    let mut sandboxed = no_values();
    sandboxed.text_editor = Some(String::from("gedit"));
    e.set_preferences(sandboxed);
    assert_eq!(e.main_config.preferences.text_editor, "internal");
}

#[test]
fn host_dialog_cancel_restores() {
    let mut e = editor();
    e.add_host("a");
    e.begin_host_configuration();
    e.add_host("b");
    e.remove_host("a");
    e.cancel_host_configuration();
    assert!(e.hosts_config.hosts.contains_key("a"));
    assert!(!e.hosts_config.hosts.contains_key("b"));
    assert!(e.hosts_config_backup.is_none());

    e.begin_host_configuration();
    e.add_host("c");
    e.end_host_configuration();
    assert!(e.hosts_config.hosts.contains_key("c"));
}

#[test]
fn host_settings_rename_keeps_custom_commands() {
    let mut e = editor();
    e.add_host("old");
    e.update_custom_commands(
        "old",
        vec![CustomCommandConfig { name: String::from("df"), description: String::new(), command: String::from("df -h") }],
    );
    let mut new_settings = HostSettings::new_default();
    new_settings.address = String::from("10.1.1.1");
    new_settings.fqdn = String::from("new.example.com");
    e.set_host_settings("old", "new", new_settings);
    assert!(!e.hosts_config.hosts.contains_key("old"));
    let host = e.hosts_config.hosts.get("new").unwrap();
    assert_eq!(host.address, "10.1.1.1");
    assert_eq!(host.fqdn, "new.example.com");
    assert_eq!(host.overrides.custom_commands.len(), 1);
    assert_eq!(host.groups.len(), 5);
}

#[test]
fn groups_listing() {
    let mut e = editor();
    assert_eq!(e.all_groups(), vec!["defaults", "docker", "linux"]);
    e.add_host("h");
    e.update_host_groups("h", vec![String::from("linux")]);
    assert_eq!(e.selected_groups("h"), vec!["linux"]);
    assert_eq!(e.available_groups("h"), vec!["defaults", "docker"]);
    assert_eq!(e.available_groups("unknown"), vec!["defaults", "docker", "linux"]);
    assert!(e.selected_groups("unknown").is_empty());
    e.add_group("zfs");
    e.remove_group("docker");
    assert_eq!(e.all_groups(), vec!["defaults", "linux", "zfs"]);
}

#[test]
fn example_custom_command_is_hidden() {
    let mut e = editor();
    e.add_host("h");
    e.update_custom_commands(
        "h",
        vec![
            CustomCommandConfig { name: String::from("example-command"), description: String::new(), command: String::from("ls -l ~") },
            CustomCommandConfig { name: String::from("mine"), description: String::new(), command: String::from("ls -l ~") },
        ],
    );
    let shown = e.custom_commands("h");
    assert_eq!(shown.len(), 1);
    assert_eq!(shown[0].name, "mine");
    assert!(e.custom_commands("missing").is_empty());
}

#[test]
fn group_modules_and_helper() {
    let mut e = editor();
    e.add_group_monitor("linux", "uptime");
    e.add_group_command("linux", "docker-restart");
    e.add_group_connector("linux", "ssh");
    let g = e.groups_config.groups.get("linux").unwrap();
    assert!(g.monitors.contains_key("uptime"));
    assert!(g.commands.contains_key("docker-restart"));
    assert!(g.connectors.contains_key("ssh"));
    e.ignore_from_config_helper("linux", vec![String::from("c")], vec![String::from("m")], Vec::new());
    let g = e.groups_config.groups.get("linux").unwrap();
    assert_eq!(g.config_helper.ignored_commands, vec!["c"]);
    assert_eq!(g.config_helper.ignored_monitors, vec!["m"]);
    e.ignore_from_config_helper("nothing", vec![String::from("c")], Vec::new(), Vec::new());
    assert!(!e.groups_config.groups.contains_key("nothing"));
}

#[test]
fn outdated_schema_is_upgraded_on_open() {
    let main = Configuration {
        preferences: preferences(),
        display_options: DisplayOptions {
            qtquick_style: String::new(),
            hide_info_notifications: false,
            categories: KeyedList::new(),
            show_status_bar: true,
            chart_categories: Vec::new(),
        },
        schema_version: None,
    };
    let mut defaults = Groups { groups: KeyedList::new() };
    defaults.groups.insert(String::from("nixos"), ConfigGroup::new_default());
    let (e, upgraded) = ConfigEditor::new(
        main,
        Hosts { hosts: KeyedList::new(), certificate_monitors: Vec::new() },
        Groups { groups: KeyedList::new() },
        &defaults,
    );
    assert!(upgraded);
    assert_eq!(e.main_config.schema_version, Some(2));
    assert!(e.groups_config.groups.contains_key("nixos"));
}

fn setting(key: &str, value: &str, enabled: bool) -> lightkeeper::config_editor::ModuleSetting {
    lightkeeper::config_editor::ModuleSetting {
        key: key.to_string(),
        value: value.to_string(),
        description: String::new(),
        enabled,
    }
}

#[test]
fn group_dialog_replaces_modules() {
    let mut e = editor();
    e.add_group_monitor("linux", "old-monitor");
    let monitors = vec![(String::from("load"), vec![setting("limit", "4", true), setting("unused", "x", false)])];
    let connectors = vec![(String::from("ssh"), vec![setting("port", "22", true), setting("port", "2222", true)])];
    let commands: Vec<(String, Vec<lightkeeper::config_editor::ModuleSetting>)> = Vec::new();
    e.update_group_modules("linux", &connectors, &monitors, &commands);
    let g = e.groups_config.groups.get("linux").unwrap();
    assert!(!g.monitors.contains_key("old-monitor"));
    let load = g.monitors.get("load").unwrap();
    assert_eq!(load.settings.get("limit"), Some(&String::from("4")));
    assert!(!load.settings.contains_key("unused"));
    assert_eq!(load.enabled, Some(true));
    assert_eq!(g.connectors.get("ssh").unwrap().settings.get("port"), Some(&String::from("2222")));
    assert_eq!(g.commands.len(), 0);
}

#[test]
fn configuration_helper_suggestions() {
    let mut e = editor();
    e.add_group_monitor("linux", "uptime");
    e.ignore_from_config_helper("linux", vec![String::from("ignored-cmd")], Vec::new(), Vec::new());
    let mut default_group = ConfigGroup::new_default();
    default_group.monitors.insert(String::from("uptime"), lightkeeper::configuration::MonitorConfig::new_default());
    default_group.monitors.insert(String::from("load"), lightkeeper::configuration::MonitorConfig::new_default());
    default_group.commands.insert(String::from("ignored-cmd"), lightkeeper::configuration::CommandConfig::new_default());
    default_group.commands.insert(String::from("reboot"), lightkeeper::configuration::CommandConfig::new_default());
    default_group.commands.insert(String::from("undocumented"), lightkeeper::configuration::CommandConfig::new_default());
    let mut commands: KeyedList<String> = KeyedList::new();
    commands.insert(String::from("reboot"), String::from("Reboot the host"));
    commands.insert(String::from("ignored-cmd"), String::from("Ignored"));
    commands.insert(String::from("undocumented"), String::new());
    let mut monitors: KeyedList<String> = KeyedList::new();
    monitors.insert(String::from("load"), String::from("Load average"));
    monitors.insert(String::from("uptime"), String::from("Uptime"));
    let connectors: KeyedList<String> = KeyedList::new();
    let suggested = e.compare_to_default("linux", &default_group, &commands, &monitors, &connectors);
    assert_eq!(suggested, vec!["Command: reboot,Reboot the host", "Monitor: load,Load average"]);
    assert!(e.compare_to_default("missing", &default_group, &commands, &monitors, &connectors).is_empty());
}
