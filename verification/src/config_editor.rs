//! Edits that the configuration dialogs make to the loaded configuration:
//! hosts, their groups and custom commands, certificate monitors, groups and
//! their modules, and the preferences with rules of their own. Each edit
//! that has to be saved says so; writing the files is the application's.

use vstd::prelude::*;
use crate::configuration::{
    CommandConfigView, ConnectorConfigView, MonitorConfigView,
    default_command_view, default_connector_view, default_monitor_view,
    default_group_view, default_host_view, CommandConfig, Configuration,
    ConfigGroup, ConfigGroupView, ConnectorConfig, CustomCommandConfig, CustomCommandView, Groups,
    HostSettings, HostSettingsView, Hosts, MonitorConfig, Preferences, INTERNAL, INTERNAL_SIMPLE,
    CURRENT_SCHEMA_VERSION, schema_or_first, upgraded_groups, join, join_texts,
};
use crate::enums::str_equals;
use crate::text::{append_text, char_index, split_on, split_on_char};
use crate::keyed::{deep_copy_vec, views_of, DeepCopy, KeyedList};

verus! {

/// The groups a newly added host belongs to.
pub open spec fn new_host_groups() -> Seq<Seq<char>> {
    seq!["defaults"@, "linux"@, "systemd-service"@, "docker"@, "docker-compose"@]
}

/// A newly added host: the default settings in the new-host groups.
pub open spec fn new_host_view() -> HostSettingsView {
    HostSettingsView { groups: new_host_groups(), ..default_host_view() }
}

/// `s` without any element equal to `x`, the others in order.
pub open spec fn without_text(s: Seq<Seq<char>>, x: Seq<char>) -> Seq<Seq<char>>
    decreases s.len(),
{
    if s.len() == 0 {
        s
    } else if s.last() == x {
        without_text(s.drop_last(), x)
    } else {
        without_text(s.drop_last(), x).push(s.last())
    }
}

/// Editor choices that sandbox mode accepts.
pub open spec fn sandbox_editor(editor: Seq<char>) -> bool {
    editor == INTERNAL@ || editor == INTERNAL_SIMPLE@
}

/// The text editor kept when `requested` is chosen: in sandbox mode only
/// the built-in editors are allowed, anything else becomes `internal`.
pub open spec fn chosen_text_editor(sandboxed: bool, requested: Seq<char>) -> Seq<char> {
    if sandboxed && !sandbox_editor(requested) {
        INTERNAL@
    } else {
        requested
    }
}

/// The text editor setting that results from choosing `requested`.
pub fn choose_text_editor(sandboxed: bool, requested: &str) -> (r: String)
    ensures
        r@ == chosen_text_editor(sandboxed, requested@),
{
    if sandboxed && !str_equals(requested, INTERNAL) && !str_equals(requested, INTERNAL_SIMPLE) {
        INTERNAL.to_string()
    } else {
        requested.to_string()
    }
}

/// Whether a custom command is the example that older default
/// configurations contained; it is not shown.
pub open spec fn is_example_command(c: CustomCommandView) -> bool {
    c.name == "example-command"@ && c.command == "ls -l ~"@
}

/// The custom commands shown for editing: all but the old example.
pub open spec fn shown_custom_commands(s: Seq<CustomCommandView>) -> Seq<CustomCommandView>
    decreases s.len(),
{
    if s.len() == 0 {
        s
    } else if is_example_command(s.last()) {
        shown_custom_commands(s.drop_last())
    } else {
        shown_custom_commands(s.drop_last()).push(s.last())
    }
}

/// The texts of `s` that are not in `excluded`, in order.
pub open spec fn texts_not_in(s: Seq<Seq<char>>, excluded: Seq<Seq<char>>) -> Seq<Seq<char>>
    decreases s.len(),
{
    if s.len() == 0 {
        s
    } else if excluded.contains(s.last()) {
        texts_not_in(s.drop_last(), excluded)
    } else {
        texts_not_in(s.drop_last(), excluded).push(s.last())
    }
}

/// Whether `list` holds a text equal to `s`.
pub fn contains_text(list: &Vec<String>, s: &str) -> (r: bool)
    ensures
        r == views_of(list@).contains(s@),
{
    let mut i: usize = 0;
    while i < list.len()
        invariant
            i <= list.len(),
            forall|j: int| 0 <= j < i ==> list@[j]@ != s@,
        decreases list.len() - i,
    {
        if str_equals(list[i].as_str(), s) {
            assert(views_of(list@)[i as int] == s@);
            return true;
        }
        i = i + 1;
    }
    proof {
        if views_of(list@).contains(s@) {
            let j = choose|j: int| 0 <= j < views_of(list@).len() && views_of(list@)[j] == s@;
            assert(list@[j]@ == s@);
        }
    }
    false
}

/// The configuration being edited, with a copy of the hosts taken when a
/// host dialog opens.
#[derive(Debug)]
pub struct ConfigEditor {
    pub main_config: Configuration,
    pub hosts_config: Hosts,
    pub hosts_config_backup: Option<Hosts>,
    pub groups_config: Groups,
}

impl ConfigEditor {
    /// Starts editing a loaded configuration. An outdated schema is upgraded
    /// first (with groups from `default_groups`); the result says whether
    /// that happened, since the upgraded files then need saving.
    pub fn new(main_config: Configuration, hosts_config: Hosts, groups_config: Groups, default_groups: &Groups) -> (r: (
        ConfigEditor,
        bool,
    ))
        requires
            schema_or_first(main_config.schema_version) < CURRENT_SCHEMA_VERSION
                ==> default_groups.groups@.contains_key("nixos"@),
        ensures
            r.1 == (schema_or_first(main_config.schema_version) < CURRENT_SCHEMA_VERSION),
            r.1 ==> r.0.main_config.schema_version == Some(CURRENT_SCHEMA_VERSION)
                && r.0.groups_config.groups@ == upgraded_groups(groups_config.groups@, default_groups.groups@),
            !r.1 ==> r.0.main_config == main_config && r.0.groups_config == groups_config,
            r.0.main_config.preferences == main_config.preferences,
            r.0.main_config.display_options == main_config.display_options,
            r.0.hosts_config == hosts_config,
            r.0.hosts_config_backup is None,
    {
        let mut main_config = main_config;
        let mut groups_config = groups_config;
        let outdated = Configuration::is_schema_outdated(main_config.schema_version);
        if outdated {
            Configuration::upgrade_schema(&mut main_config, &mut groups_config, default_groups);
        }
        (ConfigEditor { main_config, hosts_config, hosts_config_backup: None, groups_config }, outdated)
    }

    /// Adds a host in the new-host groups, replacing one of the same name.
    pub fn add_host(&mut self, host_name: &str)
        ensures
            final(self).hosts_config.hosts@ == old(self).hosts_config.hosts@.insert(host_name@, new_host_view()),
            final(self).hosts_config.certificate_monitors == old(self).hosts_config.certificate_monitors,
            final(self).main_config == old(self).main_config,
            final(self).groups_config == old(self).groups_config,
            final(self).hosts_config_backup == old(self).hosts_config_backup,
    {
        let mut host = HostSettings::new_default();
        let mut groups: Vec<String> = Vec::new();
        groups.push("defaults".to_string());
        groups.push("linux".to_string());
        groups.push("systemd-service".to_string());
        groups.push("docker".to_string());
        groups.push("docker-compose".to_string());
        host.groups = groups;
        assert(views_of(host.groups@) =~= new_host_groups());
        self.hosts_config.hosts.insert(host_name.to_string(), host);
    }

    /// Removes a host.
    pub fn remove_host(&mut self, host_name: &str)
        ensures
            final(self).hosts_config.hosts@ == old(self).hosts_config.hosts@.remove(host_name@),
            final(self).hosts_config.certificate_monitors == old(self).hosts_config.certificate_monitors,
            final(self).main_config == old(self).main_config,
            final(self).groups_config == old(self).groups_config,
            final(self).hosts_config_backup == old(self).hosts_config_backup,
    {
        self.hosts_config.hosts.remove(host_name);
    }

    /// Adds a domain to the certificate monitors unless it is there; says
    /// whether it was added (and the hosts file needs saving).
    pub fn add_certificate_monitor(&mut self, domain: &str) -> (added: bool)
        ensures
            added == !views_of(old(self).hosts_config.certificate_monitors@).contains(domain@),
            added ==> views_of(final(self).hosts_config.certificate_monitors@) == views_of(
                old(self).hosts_config.certificate_monitors@,
            ).push(domain@),
            !added ==> final(self).hosts_config.certificate_monitors == old(self).hosts_config.certificate_monitors,
            final(self).hosts_config.hosts == old(self).hosts_config.hosts,
            final(self).main_config == old(self).main_config,
            final(self).groups_config == old(self).groups_config,
            final(self).hosts_config_backup == old(self).hosts_config_backup,
    {
        if contains_text(&self.hosts_config.certificate_monitors, domain) {
            return false;
        }
        let ghost before = self.hosts_config.certificate_monitors@;
        self.hosts_config.certificate_monitors.push(domain.to_string());
        assert(views_of(self.hosts_config.certificate_monitors@) =~= views_of(before).push(domain@));
        true
    }

    /// Removes every occurrence of a domain from the certificate monitors.
    pub fn remove_certificate_monitor(&mut self, domain: &str)
        ensures
            views_of(final(self).hosts_config.certificate_monitors@) == without_text(
                views_of(old(self).hosts_config.certificate_monitors@),
                domain@,
            ),
            final(self).hosts_config.hosts == old(self).hosts_config.hosts,
            final(self).main_config == old(self).main_config,
            final(self).groups_config == old(self).groups_config,
            final(self).hosts_config_backup == old(self).hosts_config_backup,
    {
        let ghost all = views_of(self.hosts_config.certificate_monitors@);
        let mut kept: Vec<String> = Vec::new();
        let mut i: usize = 0;
        while i < self.hosts_config.certificate_monitors.len()
            invariant
                i <= self.hosts_config.certificate_monitors.len(),
                all == views_of(self.hosts_config.certificate_monitors@),
                views_of(kept@) == without_text(all.take(i as int), domain@),
            decreases self.hosts_config.certificate_monitors.len() - i,
        {
            let ghost prev = kept@;
            assert(all.take(i + 1).drop_last() =~= all.take(i as int));
            let monitor = &self.hosts_config.certificate_monitors[i];
            if !str_equals(monitor.as_str(), domain) {
                kept.push(monitor.clone());
                assert(views_of(kept@) =~= views_of(prev).push(all[i as int]));
            }
            i = i + 1;
        }
        assert(all.take(all.len() as int) =~= all);
        self.hosts_config.certificate_monitors = kept;
    }

    /// Sets whether charts are shown; says whether it changed (and the main
    /// configuration needs saving).
    pub fn set_show_charts(&mut self, show_charts: bool) -> (changed: bool)
        ensures
            changed == (old(self).main_config.preferences.show_charts != show_charts),
            final(self).main_config.preferences == (Preferences { show_charts, ..old(self).main_config.preferences }),
            final(self).main_config.display_options == old(self).main_config.display_options,
            final(self).main_config.schema_version == old(self).main_config.schema_version,
            final(self).hosts_config == old(self).hosts_config,
            final(self).groups_config == old(self).groups_config,
            final(self).hosts_config_backup == old(self).hosts_config_backup,
    {
        if self.main_config.preferences.show_charts != show_charts {
            self.main_config.preferences.show_charts = show_charts;
            true
        } else {
            false
        }
    }

    /// Switches sandbox mode; says whether it changed (and the main
    /// configuration needs saving). Entering it restricts the text editor to
    /// the built-in ones and the terminal to the built-in one, without
    /// arguments.
    pub fn set_sandboxed(&mut self, use_sandbox_mode: bool) -> (changed: bool)
        ensures
            changed == (old(self).main_config.preferences.use_sandbox_mode != use_sandbox_mode),
            final(self).main_config.preferences.use_sandbox_mode == use_sandbox_mode,
            changed && use_sandbox_mode ==> {
                &&& final(self).main_config.preferences.text_editor@ == chosen_text_editor(
                    true,
                    old(self).main_config.preferences.text_editor@,
                )
                &&& final(self).main_config.preferences.terminal@ == INTERNAL@
                &&& final(self).main_config.preferences.terminal_args@.len() == 0
            },
            !(changed && use_sandbox_mode) ==> final(self).main_config.preferences == (Preferences {
                use_sandbox_mode,
                ..old(self).main_config.preferences
            }),
            final(self).main_config.preferences == (Preferences {
                use_sandbox_mode,
                text_editor: final(self).main_config.preferences.text_editor,
                terminal: final(self).main_config.preferences.terminal,
                terminal_args: final(self).main_config.preferences.terminal_args,
                ..old(self).main_config.preferences
            }),
            final(self).main_config.display_options == old(self).main_config.display_options,
            final(self).main_config.schema_version == old(self).main_config.schema_version,
            final(self).hosts_config == old(self).hosts_config,
            final(self).groups_config == old(self).groups_config,
            final(self).hosts_config_backup == old(self).hosts_config_backup,
    {
        if self.main_config.preferences.use_sandbox_mode == use_sandbox_mode {
            return false;
        }
        self.main_config.preferences.use_sandbox_mode = use_sandbox_mode;
        if use_sandbox_mode {
            let editor = choose_text_editor(true, self.main_config.preferences.text_editor.as_str());
            self.main_config.preferences.text_editor = editor;
            self.main_config.preferences.terminal = INTERNAL.to_string();
            self.main_config.preferences.terminal_args = Vec::new();
        }
        true
    }

    /// Keeps a copy of the hosts, to go back to if the host dialog is
    /// cancelled.
    pub fn begin_host_configuration(&mut self)
        ensures
            final(self).hosts_config_backup matches Some(b) && b.hosts@ == old(self).hosts_config.hosts@
                && views_of(b.certificate_monitors@) == views_of(old(self).hosts_config.certificate_monitors@),
            final(self).hosts_config == old(self).hosts_config,
            final(self).main_config == old(self).main_config,
            final(self).groups_config == old(self).groups_config,
    {
        let backup = Hosts {
            hosts: self.hosts_config.hosts.deep_copy_list(),
            certificate_monitors: deep_copy_vec(&self.hosts_config.certificate_monitors),
        };
        self.hosts_config_backup = Some(backup);
    }

    /// Goes back to the hosts as they were when the dialog opened. Only
    /// after `begin_host_configuration`.
    pub fn cancel_host_configuration(&mut self)
        requires
            old(self).hosts_config_backup is Some,
        ensures
            final(self).hosts_config == old(self).hosts_config_backup->0,
            final(self).hosts_config_backup is None,
            final(self).main_config == old(self).main_config,
            final(self).groups_config == old(self).groups_config,
    {
        let backup = self.hosts_config_backup.take();
        match backup {
            Some(hosts) => {
                self.hosts_config = hosts;
            },
            None => {},
        }
    }

    /// Keeps the edited hosts (which then need saving) and drops the copy.
    pub fn end_host_configuration(&mut self)
        ensures
            final(self).hosts_config_backup is None,
            final(self).hosts_config == old(self).hosts_config,
            final(self).main_config == old(self).main_config,
            final(self).groups_config == old(self).groups_config,
    {
        self.hosts_config_backup = None;
    }

    /// Applies the host dialog: renames the host when the name changed, and
    /// takes address, FQDN and overrides from `new_settings`, keeping the
    /// host's own custom commands (they are edited elsewhere). A renamed
    /// host must exist.
    pub fn set_host_settings(&mut self, old_host_name: &str, new_host_name: &str, new_settings: HostSettings)
        requires
            old_host_name@ != new_host_name@ ==> old(self).hosts_config.hosts@.contains_key(old_host_name@),
        ensures
            ({
                let renamed = if old_host_name@ != new_host_name@ {
                    old(self).hosts_config.hosts@.remove(old_host_name@).insert(
                        new_host_name@,
                        old(self).hosts_config.hosts@[old_host_name@],
                    )
                } else {
                    old(self).hosts_config.hosts@
                };
                final(self).hosts_config.hosts@ == if renamed.contains_key(new_host_name@) {
                    renamed.insert(
                        new_host_name@,
                        HostSettingsView {
                            address: new_settings@.address,
                            fqdn: new_settings@.fqdn,
                            overrides: ConfigGroupView {
                                custom_commands: renamed[new_host_name@].overrides.custom_commands,
                                ..new_settings@.overrides
                            },
                            ..renamed[new_host_name@]
                        },
                    )
                } else {
                    renamed
                }
            }),
            final(self).hosts_config.certificate_monitors == old(self).hosts_config.certificate_monitors,
            final(self).main_config == old(self).main_config,
            final(self).groups_config == old(self).groups_config,
            final(self).hosts_config_backup == old(self).hosts_config_backup,
    {
        if !str_equals(old_host_name, new_host_name) {
            let moved = self.hosts_config.hosts.remove(old_host_name);
            match moved {
                Some(host) => {
                    self.hosts_config.hosts.insert(new_host_name.to_string(), host);
                },
                None => {},
            }
        }
        let ghost renamed = self.hosts_config.hosts@;
        let current = self.hosts_config.hosts.remove(new_host_name);
        match current {
            Some(host) => {
                let mut overrides = new_settings.overrides;
                overrides.custom_commands = host.overrides.custom_commands;
                let updated = HostSettings {
                    address: new_settings.address,
                    fqdn: new_settings.fqdn,
                    overrides,
                    ..host
                };
                self.hosts_config.hosts.insert(new_host_name.to_string(), updated);
                proof {
                    assert(renamed.remove(new_host_name@).insert(new_host_name@, updated@) =~= renamed.insert(
                        new_host_name@,
                        updated@,
                    ));
                }
            },
            None => {
                proof {
                    assert(renamed.remove(new_host_name@) =~= renamed);
                }
            },
        }
    }

    /// Names of all groups, in order.
    pub fn all_groups(&self) -> (r: Vec<String>)
        ensures
            views_of(r@) == self.groups_config.groups.keys(),
    {
        let n = self.groups_config.groups.len();
        let mut names: Vec<String> = Vec::new();
        let mut i: usize = 0;
        while i < n
            invariant
                n == self.groups_config.groups.keys().len(),
                i <= n,
                views_of(names@) == self.groups_config.groups.keys().take(i as int),
            decreases n - i,
        {
            let ghost prev = names@;
            let name = self.groups_config.groups.key_at(i);
            names.push(name.clone());
            assert(views_of(names@) =~= views_of(prev).push(name@));
            assert(self.groups_config.groups.keys().take(i + 1) =~= self.groups_config.groups.keys().take(i as int).push(name@));
            i = i + 1;
        }
        assert(self.groups_config.groups.keys().take(n as int) =~= self.groups_config.groups.keys());
        names
    }

    /// Adds an empty group, replacing one of the same name.
    pub fn add_group(&mut self, group_name: &str)
        ensures
            final(self).groups_config.groups@ == old(self).groups_config.groups@.insert(group_name@, default_group_view()),
            final(self).hosts_config == old(self).hosts_config,
            final(self).main_config == old(self).main_config,
            final(self).hosts_config_backup == old(self).hosts_config_backup,
    {
        self.groups_config.groups.insert(group_name.to_string(), ConfigGroup::new_default());
    }

    /// Removes a group.
    pub fn remove_group(&mut self, group_name: &str)
        ensures
            final(self).groups_config.groups@ == old(self).groups_config.groups@.remove(group_name@),
            final(self).hosts_config == old(self).hosts_config,
            final(self).main_config == old(self).main_config,
            final(self).hosts_config_backup == old(self).hosts_config_backup,
    {
        self.groups_config.groups.remove(group_name);
    }

    /// The groups of a host (none for an unknown host).
    pub fn selected_groups(&self, host_name: &str) -> (r: Vec<String>)
        ensures
            views_of(r@) == if self.hosts_config.hosts@.contains_key(host_name@) {
                self.hosts_config.hosts@[host_name@].groups
            } else {
                Seq::empty()
            },
    {
        match self.hosts_config.hosts.get(host_name) {
            Some(host) => deep_copy_vec(&host.groups),
            None => {
                let r: Vec<String> = Vec::new();
                assert(views_of(r@) =~= Seq::<Seq<char>>::empty());
                r
            },
        }
    }

    /// The groups a host is not in, in order.
    pub fn available_groups(&self, host_name: &str) -> (r: Vec<String>)
        ensures
            views_of(r@) == texts_not_in(
                self.groups_config.groups.keys(),
                if self.hosts_config.hosts@.contains_key(host_name@) {
                    self.hosts_config.hosts@[host_name@].groups
                } else {
                    Seq::empty()
                },
            ),
    {
        let selected = self.selected_groups(host_name);
        let ghost excluded = views_of(selected@);
        let n = self.groups_config.groups.len();
        let mut available: Vec<String> = Vec::new();
        let mut i: usize = 0;
        while i < n
            invariant
                n == self.groups_config.groups.keys().len(),
                i <= n,
                excluded == views_of(selected@),
                views_of(available@) == texts_not_in(self.groups_config.groups.keys().take(i as int), excluded),
            decreases n - i,
        {
            let ghost prev = available@;
            let name = self.groups_config.groups.key_at(i);
            assert(self.groups_config.groups.keys().take(i + 1).drop_last() =~= self.groups_config.groups.keys().take(i as int));
            if !contains_text(&selected, name.as_str()) {
                available.push(name.clone());
                assert(views_of(available@) =~= views_of(prev).push(name@));
            }
            i = i + 1;
        }
        assert(self.groups_config.groups.keys().take(n as int) =~= self.groups_config.groups.keys());
        available
    }

    /// Sets the groups of a host, which must exist.
    pub fn update_host_groups(&mut self, host_name: &str, groups: Vec<String>)
        requires
            old(self).hosts_config.hosts@.contains_key(host_name@),
        ensures
            final(self).hosts_config.hosts@ == old(self).hosts_config.hosts@.insert(
                host_name@,
                HostSettingsView { groups: views_of(groups@), ..old(self).hosts_config.hosts@[host_name@] },
            ),
            final(self).hosts_config.certificate_monitors == old(self).hosts_config.certificate_monitors,
            final(self).main_config == old(self).main_config,
            final(self).groups_config == old(self).groups_config,
            final(self).hosts_config_backup == old(self).hosts_config_backup,
    {
        let ghost before = self.hosts_config.hosts@;
        match self.hosts_config.hosts.remove(host_name) {
            Some(host) => {
                let updated = HostSettings { groups, ..host };
                self.hosts_config.hosts.insert(host_name.to_string(), updated);
                assert(before.remove(host_name@).insert(host_name@, updated@) =~= before.insert(host_name@, updated@));
            },
            None => {},
        }
    }

    /// The custom commands of a host's effective configuration, as edited
    /// in the dialog: all but the old example command (none for an unknown
    /// host).
    pub fn custom_commands(&self, host_name: &str) -> (r: Vec<CustomCommandConfig>)
        ensures
            views_of(r@) == if self.hosts_config.hosts@.contains_key(host_name@) {
                shown_custom_commands(self.hosts_config.hosts@[host_name@].effective.custom_commands)
            } else {
                Seq::empty()
            },
    {
        let mut shown: Vec<CustomCommandConfig> = Vec::new();
        match self.hosts_config.hosts.get(host_name) {
            Some(host) => {
                let commands = &host.effective.custom_commands;
                let ghost all = views_of(commands@);
                let mut i: usize = 0;
                while i < commands.len()
                    invariant
                        i <= commands.len(),
                        all == views_of(commands@),
                        views_of(shown@) == shown_custom_commands(all.take(i as int)),
                    decreases commands.len() - i,
                {
                    let ghost prev = shown@;
                    let command = &commands[i];
                    assert(all.take(i + 1).drop_last() =~= all.take(i as int));
                    assert(all[i as int] == command@);
                    let example = str_equals(command.name.as_str(), "example-command")
                        && str_equals(command.command.as_str(), "ls -l ~");
                    if !example {
                        shown.push(command.deep_copy());
                        assert(views_of(shown@) =~= views_of(prev).push(command@));
                    }
                    i = i + 1;
                }
                assert(all.take(all.len() as int) =~= all);
                shown
            },
            None => {
                assert(views_of(shown@) =~= Seq::<CustomCommandView>::empty());
                shown
            },
        }
    }

    /// Sets the custom commands of a host, which must exist, both in its
    /// overrides and in its effective configuration.
    pub fn update_custom_commands(&mut self, host_name: &str, custom_commands: Vec<CustomCommandConfig>)
        requires
            old(self).hosts_config.hosts@.contains_key(host_name@),
        ensures
            ({
                let h = old(self).hosts_config.hosts@[host_name@];
                final(self).hosts_config.hosts@ == old(self).hosts_config.hosts@.insert(
                    host_name@,
                    HostSettingsView {
                        overrides: ConfigGroupView { custom_commands: views_of(custom_commands@), ..h.overrides },
                        effective: ConfigGroupView { custom_commands: views_of(custom_commands@), ..h.effective },
                        ..h
                    },
                )
            }),
            final(self).hosts_config.certificate_monitors == old(self).hosts_config.certificate_monitors,
            final(self).main_config == old(self).main_config,
            final(self).groups_config == old(self).groups_config,
            final(self).hosts_config_backup == old(self).hosts_config_backup,
    {
        let ghost before = self.hosts_config.hosts@;
        match self.hosts_config.hosts.remove(host_name) {
            Some(host) => {
                let mut updated = host;
                updated.overrides.custom_commands = deep_copy_vec(&custom_commands);
                updated.effective.custom_commands = custom_commands;
                self.hosts_config.hosts.insert(host_name.to_string(), updated);
                assert(before.remove(host_name@).insert(host_name@, updated@) =~= before.insert(host_name@, updated@));
            },
            None => {},
        }
    }

    /// Records which modules the configuration helper should no longer
    /// suggest for a group; nothing happens for an unknown group.
    pub fn ignore_from_config_helper(
        &mut self,
        group_name: &str,
        commands: Vec<String>,
        monitors: Vec<String>,
        connectors: Vec<String>,
    )
        ensures
            old(self).groups_config.groups@.contains_key(group_name@) ==> final(self).groups_config.groups@
                == old(self).groups_config.groups@.insert(
                group_name@,
                ConfigGroupView {
                    config_helper: crate::configuration::ConfigHelperView {
                        ignored_commands: views_of(commands@),
                        ignored_monitors: views_of(monitors@),
                        ignored_connectors: views_of(connectors@),
                    },
                    ..old(self).groups_config.groups@[group_name@]
                },
            ),
            !old(self).groups_config.groups@.contains_key(group_name@) ==> final(self).groups_config
                == old(self).groups_config,
            final(self).hosts_config == old(self).hosts_config,
            final(self).main_config == old(self).main_config,
            final(self).hosts_config_backup == old(self).hosts_config_backup,
    {
        if !self.groups_config.groups.contains_key(group_name) {
            return;
        }
        let ghost before = self.groups_config.groups@;
        match self.groups_config.groups.remove(group_name) {
            Some(group) => {
                let mut updated = group;
                updated.config_helper.ignored_commands = commands;
                updated.config_helper.ignored_monitors = monitors;
                updated.config_helper.ignored_connectors = connectors;
                self.groups_config.groups.insert(group_name.to_string(), updated);
                assert(before.remove(group_name@).insert(group_name@, updated@) =~= before.insert(group_name@, updated@));
            },
            None => {},
        }
    }

    /// Adds a monitor with default settings to a group, which must exist.
    pub fn add_group_monitor(&mut self, group_name: &str, monitor_name: &str)
        requires
            old(self).groups_config.groups@.contains_key(group_name@),
        ensures
            ({
                let g = old(self).groups_config.groups@[group_name@];
                final(self).groups_config.groups@ == old(self).groups_config.groups@.insert(
                    group_name@,
                    ConfigGroupView { monitors: g.monitors.insert(monitor_name@, default_monitor_view()), ..g },
                )
            }),
            final(self).hosts_config == old(self).hosts_config,
            final(self).main_config == old(self).main_config,
            final(self).hosts_config_backup == old(self).hosts_config_backup,
    {
        let ghost before = self.groups_config.groups@;
        match self.groups_config.groups.remove(group_name) {
            Some(group) => {
                let mut updated = group;
                updated.monitors.insert(monitor_name.to_string(), MonitorConfig::new_default());
                self.groups_config.groups.insert(group_name.to_string(), updated);
                assert(before.remove(group_name@).insert(group_name@, updated@) =~= before.insert(group_name@, updated@));
            },
            None => {},
        }
    }

    /// Adds a command with default settings to a group, which must exist.
    pub fn add_group_command(&mut self, group_name: &str, command_name: &str)
        requires
            old(self).groups_config.groups@.contains_key(group_name@),
        ensures
            ({
                let g = old(self).groups_config.groups@[group_name@];
                final(self).groups_config.groups@ == old(self).groups_config.groups@.insert(
                    group_name@,
                    ConfigGroupView { commands: g.commands.insert(command_name@, default_command_view()), ..g },
                )
            }),
            final(self).hosts_config == old(self).hosts_config,
            final(self).main_config == old(self).main_config,
            final(self).hosts_config_backup == old(self).hosts_config_backup,
    {
        let ghost before = self.groups_config.groups@;
        match self.groups_config.groups.remove(group_name) {
            Some(group) => {
                let mut updated = group;
                updated.commands.insert(command_name.to_string(), CommandConfig::new_default());
                self.groups_config.groups.insert(group_name.to_string(), updated);
                assert(before.remove(group_name@).insert(group_name@, updated@) =~= before.insert(group_name@, updated@));
            },
            None => {},
        }
    }

    /// Adds a connector with default settings to a group, which must exist.
    pub fn add_group_connector(&mut self, group_name: &str, connector_name: &str)
        requires
            old(self).groups_config.groups@.contains_key(group_name@),
        ensures
            ({
                let g = old(self).groups_config.groups@[group_name@];
                final(self).groups_config.groups@ == old(self).groups_config.groups@.insert(
                    group_name@,
                    ConfigGroupView { connectors: g.connectors.insert(connector_name@, default_connector_view()), ..g },
                )
            }),
            final(self).hosts_config == old(self).hosts_config,
            final(self).main_config == old(self).main_config,
            final(self).hosts_config_backup == old(self).hosts_config_backup,
    {
        let ghost before = self.groups_config.groups@;
        match self.groups_config.groups.remove(group_name) {
            Some(group) => {
                let mut updated = group;
                updated.connectors.insert(connector_name.to_string(), ConnectorConfig::new_default());
                self.groups_config.groups.insert(group_name.to_string(), updated);
                assert(before.remove(group_name@).insert(group_name@, updated@) =~= before.insert(group_name@, updated@));
            },
            None => {},
        }
    }

    /// Takes the preferences from the dialog: each value that is missing
    /// gets its default, the text editor follows the sandbox rule, and the
    /// terminal arguments are split at spaces. The main configuration then
    /// needs saving.
    pub fn set_preferences(&mut self, values: PreferenceValues)
        ensures
            ({
                let p = final(self).main_config.preferences;
                let sandboxed = old(self).main_config.preferences.use_sandbox_mode;
                &&& p.use_sandbox_mode == sandboxed
                &&& p.refresh_hosts_on_start == bool_or(values.refresh_hosts_on_start, false)
                &&& p.use_remote_editor == bool_or(values.use_remote_editor, false)
                &&& p.remote_text_editor@ == text_or(values.remote_text_editor, "vim"@)
                &&& p.sudo_remote_editor == bool_or(values.sudo_remote_editor, false)
                &&& p.text_editor@ == chosen_text_editor(sandboxed, text_or(values.text_editor, "kate"@))
                &&& p.terminal@ == text_or(values.terminal, "xterm"@)
                &&& views_of(p.terminal_args@) == split_on(text_or(values.terminal_args, "-e"@), ' ')
                &&& p.close_to_tray == bool_or(values.close_to_tray, true)
                &&& p.show_monitor_notifications == bool_or(values.show_monitor_notifications, true)
                &&& p.show_charts == bool_or(values.show_charts, false)
            }),
            final(self).main_config.display_options.show_status_bar == bool_or(values.show_status_bar, true),
            final(self).main_config.display_options.qtquick_style == old(self).main_config.display_options.qtquick_style,
            final(self).main_config.display_options.hide_info_notifications
                == old(self).main_config.display_options.hide_info_notifications,
            final(self).main_config.display_options.categories == old(self).main_config.display_options.categories,
            final(self).main_config.display_options.chart_categories
                == old(self).main_config.display_options.chart_categories,
            final(self).main_config.schema_version == old(self).main_config.schema_version,
            final(self).hosts_config == old(self).hosts_config,
            final(self).groups_config == old(self).groups_config,
            final(self).hosts_config_backup == old(self).hosts_config_backup,
    {
        let sandboxed = self.main_config.preferences.use_sandbox_mode;
        let requested_editor = text_value_or(&values.text_editor, "kate");
        let terminal_args = text_value_or(&values.terminal_args, "-e");
        let p = &mut self.main_config.preferences;
        p.refresh_hosts_on_start = bool_value_or(values.refresh_hosts_on_start, false);
        p.use_remote_editor = bool_value_or(values.use_remote_editor, false);
        p.remote_text_editor = text_value_or(&values.remote_text_editor, "vim");
        p.sudo_remote_editor = bool_value_or(values.sudo_remote_editor, false);
        p.text_editor = choose_text_editor(sandboxed, requested_editor.as_str());
        p.terminal = text_value_or(&values.terminal, "xterm");
        p.terminal_args = split_on_char(terminal_args.as_str(), ' ');
        p.close_to_tray = bool_value_or(values.close_to_tray, true);
        p.show_monitor_notifications = bool_value_or(values.show_monitor_notifications, true);
        p.show_charts = bool_value_or(values.show_charts, false);
        self.main_config.display_options.show_status_bar = bool_value_or(values.show_status_bar, true);
    }
}

/// Preference values handed over by the preferences dialog; any may be
/// missing.
#[derive(Debug)]
pub struct PreferenceValues {
    pub refresh_hosts_on_start: Option<bool>,
    pub use_remote_editor: Option<bool>,
    pub remote_text_editor: Option<String>,
    pub sudo_remote_editor: Option<bool>,
    pub text_editor: Option<String>,
    pub terminal: Option<String>,
    /// Arguments separated by spaces.
    pub terminal_args: Option<String>,
    pub close_to_tray: Option<bool>,
    pub show_monitor_notifications: Option<bool>,
    pub show_charts: Option<bool>,
    pub show_status_bar: Option<bool>,
}

/// A flag, or `default` when it is missing.
pub open spec fn bool_or(value: Option<bool>, default: bool) -> bool {
    match value {
        Some(b) => b,
        None => default,
    }
}

/// A text, or `default` when it is missing.
pub open spec fn text_or(value: Option<String>, default: Seq<char>) -> Seq<char> {
    match value {
        Some(s) => s@,
        None => default,
    }
}

fn bool_value_or(value: Option<bool>, default: bool) -> (r: bool)
    ensures
        r == bool_or(value, default),
{
    match value {
        Some(b) => b,
        None => default,
    }
}

fn text_value_or(value: &Option<String>, default: &str) -> (r: String)
    ensures
        r@ == text_or(*value, default@),
{
    match value {
        Some(s) => s.clone(),
        None => default.to_string(),
    }
}

/// The terminal arguments as the preferences dialog shows them: joined
/// with spaces.
pub fn terminal_args_text(preferences: &Preferences) -> (r: String)
    ensures
        r@ == join_texts(views_of(preferences.terminal_args@), " "@),
{
    join(&preferences.terminal_args, " ")
}

proof fn lemma_join_prepend(a: Seq<char>, rest: Seq<Seq<char>>, sep: Seq<char>)
    requires
        rest.len() > 0,
    ensures
        join_texts(seq![a] + rest, sep) == a + sep + join_texts(rest, sep),
    decreases rest.len(),
{
    let whole = seq![a] + rest;
    if rest.len() == 1 {
        assert(whole.drop_last() =~= seq![a]);
        assert(whole.last() == rest[0]);
        assert(join_texts(seq![a], sep) == a);
        assert(join_texts(whole, sep) == join_texts(whole.drop_last(), sep) + sep + whole.last());
        assert(join_texts(rest, sep) == rest[0]);
    } else {
        assert(join_texts(whole, sep) == join_texts(whole.drop_last(), sep) + sep + whole.last());
        assert(join_texts(rest, sep) == join_texts(rest.drop_last(), sep) + sep + rest.last());
        assert(whole.drop_last() =~= seq![a] + rest.drop_last());
        lemma_join_prepend(a, rest.drop_last(), sep);
        assert(whole.last() == rest.last());
        assert(a + sep + join_texts(rest.drop_last(), sep) + sep + rest.last() =~= a + sep + (join_texts(rest.drop_last(), sep) + sep + rest.last()));
    }
}

proof fn lemma_char_index_hit(s: Seq<char>, c: char)
    ensures
        char_index(s, c) <= s.len(),
        char_index(s, c) < s.len() ==> s[char_index(s, c) as int] == c,
    decreases s.len(),
{
    if s.len() > 0 && s[0] != c {
        lemma_char_index_hit(s.drop_first(), c);
    }
}

proof fn lemma_split_nonempty(s: Seq<char>, c: char)
    ensures
        split_on(s, c).len() > 0,
    decreases s.len(),
{
}

/// Splitting a text at a character and joining the pieces with that
/// character gives the text back: terminal arguments set from the dialog's
/// text show as the same text.
pub proof fn law_split_then_join(s: Seq<char>, c: char)
    ensures
        join_texts(split_on(s, c), seq![c]) == s,
    decreases s.len(),
{
    let k = char_index(s, c);
    lemma_char_index_hit(s, c);
    if k < s.len() {
        let rest = s.skip(k + 1 as int);
        law_split_then_join(rest, c);
        lemma_split_nonempty(rest, c);
        lemma_join_prepend(s.take(k as int), split_on(rest, c), seq![c]);
        assert(s.take(k as int) + seq![c] + rest =~= s);
    }
}

/// The terminal arguments set from a text show as that same text.
pub proof fn law_terminal_args_round_trip(text: Seq<char>)
    ensures
        join_texts(split_on(text, ' '), " "@) == text,
{
    reveal_strlit(" ");
    assert(" "@ =~= seq![' ']);
    law_split_then_join(text, ' ');
}

/// Cancelling the host dialog gives back the hosts as they were when it
/// opened, whatever was edited in between: opening keeps a copy equal to
/// the hosts then (`begin_host_configuration`), and cancelling puts that
/// copy back (`cancel_host_configuration`).
pub proof fn law_cancel_restores_hosts(at_open: Hosts, copy: Hosts, after_cancel: Hosts)
    requires
        copy.hosts@ == at_open.hosts@,
        views_of(copy.certificate_monitors@) == views_of(at_open.certificate_monitors@),
        after_cancel == copy,
    ensures
        after_cancel.hosts@ == at_open.hosts@,
        views_of(after_cancel.certificate_monitors@) == views_of(at_open.certificate_monitors@),
{
}

/// In sandbox mode only the built-in editors can be chosen, whatever is
/// requested; outside it the request is kept.
pub proof fn law_sandbox_keeps_builtin_editors(requested: Seq<char>)
    ensures
        sandbox_editor(chosen_text_editor(true, requested)),
        chosen_text_editor(false, requested) == requested,
        sandbox_editor(requested) ==> chosen_text_editor(true, requested) == requested,
{
}

/// One setting of a module as the group dialog edits it.
#[derive(Debug)]
pub struct ModuleSetting {
    pub key: String,
    pub value: String,
    pub description: String,
    /// Whether the group sets this setting at all.
    pub enabled: bool,
}

/// The settings a group keeps from the dialog: the enabled ones, a later
/// entry for the same key winning.
pub open spec fn enabled_settings(settings: Seq<ModuleSetting>) -> Map<Seq<char>, Seq<char>>
    decreases settings.len(),
{
    if settings.len() == 0 {
        Map::empty()
    } else if settings.last().enabled {
        enabled_settings(settings.drop_last()).insert(settings.last().key@, settings.last().value@)
    } else {
        enabled_settings(settings.drop_last())
    }
}

/// Collects the enabled settings.
pub fn settings_from_dialog(settings: &Vec<ModuleSetting>) -> (r: KeyedList<String>)
    ensures
        r@ == enabled_settings(settings@),
{
    let mut result: KeyedList<String> = KeyedList::new();
    let mut i: usize = 0;
    while i < settings.len()
        invariant
            i <= settings.len(),
            result@ == enabled_settings(settings@.take(i as int)),
        decreases settings.len() - i,
    {
        assert(settings@.take(i + 1).drop_last() =~= settings@.take(i as int));
        let setting = &settings[i];
        if setting.enabled {
            result.insert(setting.key.clone(), setting.value.clone());
        }
        i = i + 1;
    }
    assert(settings@.take(settings.len() as int) =~= settings@);
    result
}

/// Monitors as the group dialog sets them: each listed module with default
/// version and state and the enabled settings; a later entry for the same
/// module wins.
pub open spec fn monitors_from_dialog(list: Seq<(String, Vec<ModuleSetting>)>) -> Map<Seq<char>, MonitorConfigView>
    decreases list.len(),
{
    if list.len() == 0 {
        Map::empty()
    } else {
        monitors_from_dialog(list.drop_last()).insert(
            list.last().0@,
            MonitorConfigView { settings: enabled_settings(list.last().1@), ..default_monitor_view() },
        )
    }
}

/// Commands as the group dialog sets them.
pub open spec fn commands_from_dialog(list: Seq<(String, Vec<ModuleSetting>)>) -> Map<Seq<char>, CommandConfigView>
    decreases list.len(),
{
    if list.len() == 0 {
        Map::empty()
    } else {
        commands_from_dialog(list.drop_last()).insert(
            list.last().0@,
            CommandConfigView { settings: enabled_settings(list.last().1@), ..default_command_view() },
        )
    }
}

/// Connectors as the group dialog sets them.
pub open spec fn connectors_from_dialog(list: Seq<(String, Vec<ModuleSetting>)>) -> Map<Seq<char>, ConnectorConfigView>
    decreases list.len(),
{
    if list.len() == 0 {
        Map::empty()
    } else {
        connectors_from_dialog(list.drop_last()).insert(
            list.last().0@,
            ConnectorConfigView { settings: enabled_settings(list.last().1@) },
        )
    }
}

fn monitors_of_dialog(list: &Vec<(String, Vec<ModuleSetting>)>) -> (r: KeyedList<MonitorConfig>)
    ensures
        r@ == monitors_from_dialog(list@),
{
    let mut result: KeyedList<MonitorConfig> = KeyedList::new();
    let mut i: usize = 0;
    while i < list.len()
        invariant
            i <= list.len(),
            result@ == monitors_from_dialog(list@.take(i as int)),
        decreases list.len() - i,
    {
        assert(list@.take(i + 1).drop_last() =~= list@.take(i as int));
        let mut module = MonitorConfig::new_default();
        module.settings = settings_from_dialog(&list[i].1);
        result.insert(list[i].0.clone(), module);
        i = i + 1;
    }
    assert(list@.take(list.len() as int) =~= list@);
    result
}

fn commands_of_dialog(list: &Vec<(String, Vec<ModuleSetting>)>) -> (r: KeyedList<CommandConfig>)
    ensures
        r@ == commands_from_dialog(list@),
{
    let mut result: KeyedList<CommandConfig> = KeyedList::new();
    let mut i: usize = 0;
    while i < list.len()
        invariant
            i <= list.len(),
            result@ == commands_from_dialog(list@.take(i as int)),
        decreases list.len() - i,
    {
        assert(list@.take(i + 1).drop_last() =~= list@.take(i as int));
        let mut module = CommandConfig::new_default();
        module.settings = settings_from_dialog(&list[i].1);
        result.insert(list[i].0.clone(), module);
        i = i + 1;
    }
    assert(list@.take(list.len() as int) =~= list@);
    result
}

fn connectors_of_dialog(list: &Vec<(String, Vec<ModuleSetting>)>) -> (r: KeyedList<ConnectorConfig>)
    ensures
        r@ == connectors_from_dialog(list@),
{
    let mut result: KeyedList<ConnectorConfig> = KeyedList::new();
    let mut i: usize = 0;
    while i < list.len()
        invariant
            i <= list.len(),
            result@ == connectors_from_dialog(list@.take(i as int)),
        decreases list.len() - i,
    {
        assert(list@.take(i + 1).drop_last() =~= list@.take(i as int));
        let mut module = ConnectorConfig::new_default();
        module.settings = settings_from_dialog(&list[i].1);
        result.insert(list[i].0.clone(), module);
        i = i + 1;
    }
    assert(list@.take(list.len() as int) =~= list@);
    result
}

impl ConfigEditor {
    /// Replaces the modules of a group, which must exist, by those of the
    /// group dialog: each listed module with default version and state and
    /// its enabled settings. The group's other parts stay.
    pub fn update_group_modules(
        &mut self,
        group_name: &str,
        connector_settings: &Vec<(String, Vec<ModuleSetting>)>,
        monitor_settings: &Vec<(String, Vec<ModuleSetting>)>,
        command_settings: &Vec<(String, Vec<ModuleSetting>)>,
    )
        requires
            old(self).groups_config.groups@.contains_key(group_name@),
        ensures
            final(self).groups_config.groups@ == old(self).groups_config.groups@.insert(
                group_name@,
                ConfigGroupView {
                    monitors: monitors_from_dialog(monitor_settings@),
                    commands: commands_from_dialog(command_settings@),
                    connectors: connectors_from_dialog(connector_settings@),
                    ..old(self).groups_config.groups@[group_name@]
                },
            ),
            final(self).hosts_config == old(self).hosts_config,
            final(self).main_config == old(self).main_config,
            final(self).hosts_config_backup == old(self).hosts_config_backup,
    {
        let ghost before = self.groups_config.groups@;
        match self.groups_config.groups.remove(group_name) {
            Some(group) => {
                let mut updated = group;
                updated.connectors = connectors_of_dialog(connector_settings);
                updated.monitors = monitors_of_dialog(monitor_settings);
                updated.commands = commands_of_dialog(command_settings);
                self.groups_config.groups.insert(group_name.to_string(), updated);
                assert(before.remove(group_name@).insert(group_name@, updated@) =~= before.insert(group_name@, updated@));
            },
            None => {},
        }
    }
}

/// The suggestions of one kind: each module of the defaults, in order,
/// that the group lacks, has not set aside, and that has a description, as
/// `label id,description`.
pub open spec fn suggestions(
    label: Seq<char>,
    default_ids: Seq<Seq<char>>,
    present: Set<Seq<char>>,
    ignored: Seq<Seq<char>>,
    descriptions: Map<Seq<char>, Seq<char>>,
) -> Seq<Seq<char>>
    decreases default_ids.len(),
{
    if default_ids.len() == 0 {
        Seq::empty()
    } else {
        let earlier = suggestions(label, default_ids.drop_last(), present, ignored, descriptions);
        let id = default_ids.last();
        if !present.contains(id) && !ignored.contains(id) && descriptions.contains_key(id) && descriptions[id].len() > 0 {
            earlier.push(label + id + ","@ + descriptions[id])
        } else {
            earlier
        }
    }
}

fn push_suggestions<T: View>(
    out: &mut Vec<String>,
    label: &str,
    defaults: &KeyedList<T>,
    present: &KeyedList<T>,
    ignored: &Vec<String>,
    descriptions: &KeyedList<String>,
)
    ensures
        views_of(final(out)@) == views_of(old(out)@) + suggestions(
            label@,
            defaults.keys(),
            present@.dom(),
            views_of(ignored@),
            descriptions@,
        ),
{
    let n = defaults.len();
    let ghost start = views_of(out@);
    let mut i: usize = 0;
    while i < n
        invariant
            n == defaults.keys().len(),
            i <= n,
            views_of(out@) == start + suggestions(label@, defaults.keys().take(i as int), present@.dom(), views_of(ignored@), descriptions@),
        decreases n - i,
    {
        let id = defaults.key_at(i);
        assert(defaults.keys().take(i + 1).drop_last() =~= defaults.keys().take(i as int));
        assert(defaults.keys().take(i + 1).last() == id@);
        if !present.contains_key(id.as_str()) && !contains_text(ignored, id.as_str()) {
            match descriptions.get(id.as_str()) {
                Some(description) => {
                    if !description.as_str().is_empty() {
                        let ghost prev = views_of(out@);
                        let mut line = label.to_string();
                        append_text(&mut line, id.as_str());
                        append_text(&mut line, ",");
                        append_text(&mut line, description.as_str());
                        out.push(line);
                        assert(views_of(out@) =~= prev.push(label@ + id@ + ","@ + descriptions@[id@]));
                    }
                },
                None => {},
            }
        }
        i = i + 1;
    }
    assert(defaults.keys().take(n as int) =~= defaults.keys());
}

impl ConfigEditor {
    /// What the configuration helper suggests for a group, given the
    /// group's default version: the modules there that the group lacks, has
    /// not set aside and that have a description, commands first, then
    /// monitors, then connectors. Nothing for an unknown group.
    pub fn compare_to_default(
        &self,
        group_name: &str,
        default_group: &ConfigGroup,
        command_descriptions: &KeyedList<String>,
        monitor_descriptions: &KeyedList<String>,
        connector_descriptions: &KeyedList<String>,
    ) -> (r: Vec<String>)
        ensures
            !self.groups_config.groups@.contains_key(group_name@) ==> r@.len() == 0,
            self.groups_config.groups@.contains_key(group_name@) ==> ({
                let g = self.groups_config.groups@[group_name@];
                views_of(r@) == suggestions(
                    "Command: "@,
                    default_group.commands.keys(),
                    g.commands.dom(),
                    g.config_helper.ignored_commands,
                    command_descriptions@,
                ) + suggestions(
                    "Monitor: "@,
                    default_group.monitors.keys(),
                    g.monitors.dom(),
                    g.config_helper.ignored_monitors,
                    monitor_descriptions@,
                ) + suggestions(
                    "Connector: "@,
                    default_group.connectors.keys(),
                    g.connectors.dom(),
                    g.config_helper.ignored_connectors,
                    connector_descriptions@,
                )
            }),
    {
        let mut result: Vec<String> = Vec::new();
        match self.groups_config.groups.get(group_name) {
            Some(group) => {
                assert(views_of(result@) =~= Seq::<Seq<char>>::empty());
                push_suggestions(&mut result, "Command: ", &default_group.commands, &group.commands, &group.config_helper.ignored_commands, command_descriptions);
                push_suggestions(&mut result, "Monitor: ", &default_group.monitors, &group.monitors, &group.config_helper.ignored_monitors, monitor_descriptions);
                push_suggestions(&mut result, "Connector: ", &default_group.connectors, &group.connectors, &group.config_helper.ignored_connectors, connector_descriptions);
            },
            None => {},
        }
        result
    }
}

} // verus!
