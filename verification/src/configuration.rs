//! Configuration model: hosts, groups of module settings, and how the
//! groups of a host merge into its effective configuration.

use vstd::prelude::*;
use crate::keyed::{KeyedList, DeepCopy, views_of, deep_copy_vec, append_copies};
use crate::enums::str_equals;

verus! {

/// Value of `version` that means "the newest version of the module".
pub const LATEST_VERSION: &'static str = "latest";
/// Name of the built-in editor and terminal in the preferences.
pub const INTERNAL: &'static str = "internal";
/// Text editor preference that selects the simple built-in editor.
pub const INTERNAL_SIMPLE: &'static str = "internal-simple";
/// Schema version that the configuration files are upgraded to.
pub const CURRENT_SCHEMA_VERSION: u16 = 2;

/// Per-host switches.
#[derive(Clone, Copy, Debug, PartialEq, Eq, Structural)]
pub enum HostSetting {
    /// No setting (named `none` in the configuration files).
    Unset,
    /// Use sudo for commands that require higher privileges.
    UseSudo,
}

impl View for HostSetting {
    type V = HostSetting;

    open spec fn view(&self) -> HostSetting {
        *self
    }
}

impl DeepCopy for HostSetting {
    fn deep_copy(&self) -> (r: HostSetting) {
        *self
    }
}

impl HostSetting {
    /// The default setting, `UseSudo`.
    pub fn default_value() -> (s: HostSetting)
        ensures
            s == HostSetting::UseSudo,
    {
        HostSetting::UseSudo
    }
}

/// Settings of one monitoring module.
#[derive(Debug)]
pub struct MonitorConfig {
    pub version: String,
    pub enabled: Option<bool>,
    pub is_critical: Option<bool>,
    pub settings: KeyedList<String>,
}

pub struct MonitorConfigView {
    pub version: Seq<char>,
    pub enabled: Option<bool>,
    pub is_critical: Option<bool>,
    pub settings: Map<Seq<char>, Seq<char>>,
}

impl View for MonitorConfig {
    type V = MonitorConfigView;

    open spec fn view(&self) -> MonitorConfigView {
        MonitorConfigView {
            version: self.version@,
            enabled: self.enabled,
            is_critical: self.is_critical,
            settings: self.settings@,
        }
    }
}

impl DeepCopy for MonitorConfig {
    fn deep_copy(&self) -> (r: MonitorConfig) {
        MonitorConfig {
            version: self.version.clone(),
            enabled: self.enabled,
            is_critical: self.is_critical,
            settings: self.settings.deep_copy_list(),
        }
    }
}

/// A monitor's configuration when none is given: latest version, enabled,
/// no criticality override, no settings.
pub open spec fn default_monitor_view() -> MonitorConfigView {
    MonitorConfigView {
        version: LATEST_VERSION@,
        enabled: Some(true),
        is_critical: None,
        settings: Map::empty(),
    }
}

impl MonitorConfig {
    pub fn default_version() -> (s: String)
        ensures
            s@ == LATEST_VERSION@,
    {
        LATEST_VERSION.to_string()
    }

    pub fn default_enabled() -> (e: Option<bool>)
        ensures
            e == Some(true),
    {
        Some(true)
    }

    /// A monitor is enabled unless it is explicitly disabled.
    pub fn is_enabled(enabled: &Option<bool>) -> (r: bool)
        ensures
            r == match *enabled {
                Some(b) => b,
                None => true,
            },
    {
        match enabled {
            Some(b) => *b,
            None => true,
        }
    }

    pub fn new_default() -> (m: MonitorConfig)
        ensures
            m@ == default_monitor_view(),
    {
        let m = MonitorConfig {
            version: MonitorConfig::default_version(),
            enabled: MonitorConfig::default_enabled(),
            is_critical: None,
            settings: KeyedList::new(),
        };
        assert(m@.settings =~= Map::<Seq<char>, Seq<char>>::empty());
        m
    }
}

/// Settings of one command module.
#[derive(Debug)]
pub struct CommandConfig {
    pub version: String,
    pub settings: KeyedList<String>,
}

pub struct CommandConfigView {
    pub version: Seq<char>,
    pub settings: Map<Seq<char>, Seq<char>>,
}

impl View for CommandConfig {
    type V = CommandConfigView;

    open spec fn view(&self) -> CommandConfigView {
        CommandConfigView { version: self.version@, settings: self.settings@ }
    }
}

impl DeepCopy for CommandConfig {
    fn deep_copy(&self) -> (r: CommandConfig) {
        CommandConfig { version: self.version.clone(), settings: self.settings.deep_copy_list() }
    }
}

/// A command's configuration when none is given.
pub open spec fn default_command_view() -> CommandConfigView {
    CommandConfigView { version: LATEST_VERSION@, settings: Map::empty() }
}

impl CommandConfig {
    pub fn default_version() -> (s: String)
        ensures
            s@ == LATEST_VERSION@,
    {
        LATEST_VERSION.to_string()
    }

    pub fn new_default() -> (c: CommandConfig)
        ensures
            c@ == default_command_view(),
    {
        let c = CommandConfig { version: CommandConfig::default_version(), settings: KeyedList::new() };
        assert(c@.settings =~= Map::<Seq<char>, Seq<char>>::empty());
        c
    }
}

/// Settings of one connector module.
#[derive(Debug)]
pub struct ConnectorConfig {
    pub settings: KeyedList<String>,
}

pub struct ConnectorConfigView {
    pub settings: Map<Seq<char>, Seq<char>>,
}

impl View for ConnectorConfig {
    type V = ConnectorConfigView;

    open spec fn view(&self) -> ConnectorConfigView {
        ConnectorConfigView { settings: self.settings@ }
    }
}

impl DeepCopy for ConnectorConfig {
    fn deep_copy(&self) -> (r: ConnectorConfig) {
        ConnectorConfig { settings: self.settings.deep_copy_list() }
    }
}

pub open spec fn default_connector_view() -> ConnectorConfigView {
    ConnectorConfigView { settings: Map::empty() }
}

impl ConnectorConfig {
    pub fn new_default() -> (c: ConnectorConfig)
        ensures
            c@ == default_connector_view(),
    {
        let c = ConnectorConfig { settings: KeyedList::new() };
        assert(c@.settings =~= Map::<Seq<char>, Seq<char>>::empty());
        c
    }
}

/// How a module's configuration from a later group combines with the one
/// gathered so far.
pub trait ModuleConfig: DeepCopy {
    spec fn merged(base: Option<<Self as View>::V>, new: <Self as View>::V) -> <Self as View>::V;

    fn merge_with(base: Option<&Self>, new: &Self) -> (r: Self)
        ensures
            r@ == Self::merged(
                match base {
                    Some(b) => Some(b@),
                    None => None,
                },
                new@,
            );
}

/// Sets every entry of `source` in `target`, replacing values of keys that
/// `target` already has (`HashMap::extend`).
pub fn extend_settings(target: &mut KeyedList<String>, source: &KeyedList<String>)
    ensures
        final(target)@ == old(target)@.union_prefer_right(source@),
{
    let n = source.len();
    let ghost t0 = target@;
    let mut i: usize = 0;
    while i < n
        invariant
            n == source.keys().len(),
            source.consistent(),
            i <= n,
            forall|k: Seq<char>| #[trigger] target@.contains_key(k) <==> (t0.contains_key(k) || exists|j: int| 0 <= j < i && source.keys()[j] == k),
            forall|k: Seq<char>| #[trigger] target@.contains_key(k) ==> target@[k] == (
                if exists|j: int| 0 <= j < i && source.keys()[j] == k { source@[k] } else { t0[k] }),
        decreases n - i,
    {
        let k = source.key_at(i).clone();
        let v = source.value_at(i).clone();
        let ghost kv = k@;
        target.insert(k, v);
        proof {
            assert(source.keys()[i as int] == kv);
            assert forall|k2: Seq<char>| #[trigger] target@.contains_key(k2) <==> (t0.contains_key(k2) || exists|j: int| 0 <= j < i + 1 && source.keys()[j] == k2) by {
                if k2 == kv {
                    assert(source.keys()[i as int] == k2);
                }
            }
            assert forall|k2: Seq<char>| #[trigger] target@.contains_key(k2) implies target@[k2] == (
                if exists|j: int| 0 <= j < i + 1 && source.keys()[j] == k2 { source@[k2] } else { t0[k2] }) by {
                if k2 == kv {
                    assert(source.keys()[i as int] == k2);
                } else {
                    if exists|j: int| 0 <= j < i + 1 && source.keys()[j] == k2 {
                        let j = choose|j: int| 0 <= j < i + 1 && source.keys()[j] == k2;
                        assert(j < i);
                    }
                }
            }
        }
        i = i + 1;
    }
    proof {
        assert forall|k: Seq<char>| #![auto] target@.contains_key(k) == t0.union_prefer_right(source@).contains_key(k) by {
            if source@.contains_key(k) {
                let j = source.keys().index_of(k);
                assert(source.keys()[j] == k);
            }
        }
        assert forall|k: Seq<char>| #[trigger] target@.contains_key(k) implies target@[k] == t0.union_prefer_right(source@)[k] by {
            if source@.contains_key(k) {
                let j = source.keys().index_of(k);
                assert(source.keys()[j] == k);
            }
        }
        assert(target@ =~= t0.union_prefer_right(source@));
    }
}


/// The merged monitor: settings start from what was gathered so far (or the
/// defaults) and the new settings are laid over them; the new version,
/// `enabled` and `is_critical` replace the old ones.
pub open spec fn merged_monitor(base: Option<MonitorConfigView>, new: MonitorConfigView) -> MonitorConfigView {
    let b = match base {
        Some(b) => b,
        None => default_monitor_view(),
    };
    MonitorConfigView {
        version: new.version,
        enabled: new.enabled,
        is_critical: new.is_critical,
        settings: b.settings.union_prefer_right(new.settings),
    }
}

/// The merged command: settings laid over, version taken from the new one.
pub open spec fn merged_command(base: Option<CommandConfigView>, new: CommandConfigView) -> CommandConfigView {
    let b = match base {
        Some(b) => b,
        None => default_command_view(),
    };
    CommandConfigView { version: new.version, settings: b.settings.union_prefer_right(new.settings) }
}

/// The merged connector: settings laid over.
pub open spec fn merged_connector(base: Option<ConnectorConfigView>, new: ConnectorConfigView) -> ConnectorConfigView {
    let b = match base {
        Some(b) => b,
        None => default_connector_view(),
    };
    ConnectorConfigView { settings: b.settings.union_prefer_right(new.settings) }
}

impl ModuleConfig for MonitorConfig {
    open spec fn merged(base: Option<MonitorConfigView>, new: MonitorConfigView) -> MonitorConfigView {
        merged_monitor(base, new)
    }

    fn merge_with(base: Option<&MonitorConfig>, new: &MonitorConfig) -> (r: MonitorConfig) {
        let mut merged = match base {
            Some(b) => b.deep_copy(),
            None => MonitorConfig::new_default(),
        };
        extend_settings(&mut merged.settings, &new.settings);
        merged.version = new.version.clone();
        merged.enabled = new.enabled;
        merged.is_critical = new.is_critical;
        merged
    }
}

impl ModuleConfig for CommandConfig {
    open spec fn merged(base: Option<CommandConfigView>, new: CommandConfigView) -> CommandConfigView {
        merged_command(base, new)
    }

    fn merge_with(base: Option<&CommandConfig>, new: &CommandConfig) -> (r: CommandConfig) {
        let mut merged = match base {
            Some(b) => b.deep_copy(),
            None => CommandConfig::new_default(),
        };
        extend_settings(&mut merged.settings, &new.settings);
        merged.version = new.version.clone();
        merged
    }
}

impl ModuleConfig for ConnectorConfig {
    open spec fn merged(base: Option<ConnectorConfigView>, new: ConnectorConfigView) -> ConnectorConfigView {
        merged_connector(base, new)
    }

    fn merge_with(base: Option<&ConnectorConfig>, new: &ConnectorConfig) -> (r: ConnectorConfig) {
        let mut merged = match base {
            Some(b) => b.deep_copy(),
            None => ConnectorConfig::new_default(),
        };
        extend_settings(&mut merged.settings, &new.settings);
        merged
    }
}

/// Modules of `first` with those of `second` merged over them.
pub open spec fn merge_modules<T: ModuleConfig>(
    first: Map<Seq<char>, <T as View>::V>,
    second: Map<Seq<char>, <T as View>::V>,
) -> Map<Seq<char>, <T as View>::V> {
    Map::new(
        |k: Seq<char>| first.contains_key(k) || second.contains_key(k),
        |k: Seq<char>|
            if second.contains_key(k) {
                T::merged(if first.contains_key(k) { Some(first[k]) } else { None }, second[k])
            } else {
                first[k]
            },
    )
}

/// Merges the module configurations of `second` over those of `first`.
pub fn merge_module_lists<T: ModuleConfig>(first: &KeyedList<T>, second: &KeyedList<T>) -> (r: KeyedList<T>)
    ensures
        r@ == merge_modules::<T>(first@, second@),
{
    let mut result = first.deep_copy_list();
    let n = second.len();
    let mut i: usize = 0;
    while i < n
        invariant
            n == second.keys().len(),
            second.consistent(),
            i <= n,
            forall|k: Seq<char>| #[trigger] result@.contains_key(k) <==> (first@.contains_key(k) || exists|j: int| 0 <= j < i && second.keys()[j] == k),
            forall|k: Seq<char>| #[trigger] result@.contains_key(k) ==> result@[k] == (
                if exists|j: int| 0 <= j < i && second.keys()[j] == k {
                    T::merged(if first@.contains_key(k) { Some(first@[k]) } else { None }, second@[k])
                } else {
                    first@[k]
                }),
        decreases n - i,
    {
        let id = second.key_at(i);
        let new = second.value_at(i);
        let merged = T::merge_with(first.get(id.as_str()), new);
        let ghost kv = id@;
        result.insert(id.clone(), merged);
        proof {
            assert(second.keys()[i as int] == kv);
            assert forall|k2: Seq<char>| #[trigger] result@.contains_key(k2) <==> (first@.contains_key(k2) || exists|j: int| 0 <= j < i + 1 && second.keys()[j] == k2) by {
                if k2 == kv {
                    assert(second.keys()[i as int] == k2);
                }
            }
            assert forall|k2: Seq<char>| #[trigger] result@.contains_key(k2) implies result@[k2] == (
                if exists|j: int| 0 <= j < i + 1 && second.keys()[j] == k2 {
                    T::merged(if first@.contains_key(k2) { Some(first@[k2]) } else { None }, second@[k2])
                } else {
                    first@[k2]
                }) by {
                if k2 == kv {
                    assert(second.keys()[i as int] == k2);
                } else {
                    if exists|j: int| 0 <= j < i + 1 && second.keys()[j] == k2 {
                        let j = choose|j: int| 0 <= j < i + 1 && second.keys()[j] == k2;
                        assert(j < i);
                    }
                }
            }
        }
        i = i + 1;
    }
    proof {
        let m = merge_modules::<T>(first@, second@);
        assert forall|k: Seq<char>| #![auto] result@.contains_key(k) == m.contains_key(k) by {
            if second@.contains_key(k) {
                let j = second.keys().index_of(k);
                assert(second.keys()[j] == k);
            }
        }
        assert forall|k: Seq<char>| #[trigger] result@.contains_key(k) implies result@[k] == m[k] by {
            if second@.contains_key(k) {
                let j = second.keys().index_of(k);
                assert(second.keys()[j] == k);
            }
        }
        assert(result@ =~= m);
    }
    result
}


/// A command defined by the user for a host.
#[derive(Debug)]
pub struct CustomCommandConfig {
    pub name: String,
    pub description: String,
    pub command: String,
}

pub struct CustomCommandView {
    pub name: Seq<char>,
    pub description: Seq<char>,
    pub command: Seq<char>,
}

impl View for CustomCommandConfig {
    type V = CustomCommandView;

    open spec fn view(&self) -> CustomCommandView {
        CustomCommandView { name: self.name@, description: self.description@, command: self.command@ }
    }
}

impl DeepCopy for CustomCommandConfig {
    fn deep_copy(&self) -> (r: CustomCommandConfig) {
        CustomCommandConfig {
            name: self.name.clone(),
            description: self.description.clone(),
            command: self.command.clone(),
        }
    }
}

/// Modules that the configuration helper should not suggest.
#[derive(Debug)]
pub struct ConfigHelperData {
    pub ignored_commands: Vec<String>,
    pub ignored_monitors: Vec<String>,
    pub ignored_connectors: Vec<String>,
}

pub struct ConfigHelperView {
    pub ignored_commands: Seq<Seq<char>>,
    pub ignored_monitors: Seq<Seq<char>>,
    pub ignored_connectors: Seq<Seq<char>>,
}

impl View for ConfigHelperData {
    type V = ConfigHelperView;

    open spec fn view(&self) -> ConfigHelperView {
        ConfigHelperView {
            ignored_commands: views_of(self.ignored_commands@),
            ignored_monitors: views_of(self.ignored_monitors@),
            ignored_connectors: views_of(self.ignored_connectors@),
        }
    }
}

impl DeepCopy for ConfigHelperData {
    fn deep_copy(&self) -> (r: ConfigHelperData) {
        ConfigHelperData {
            ignored_commands: deep_copy_vec(&self.ignored_commands),
            ignored_monitors: deep_copy_vec(&self.ignored_monitors),
            ignored_connectors: deep_copy_vec(&self.ignored_connectors),
        }
    }
}

pub open spec fn default_helper_view() -> ConfigHelperView {
    ConfigHelperView { ignored_commands: Seq::empty(), ignored_monitors: Seq::empty(), ignored_connectors: Seq::empty() }
}

impl ConfigHelperData {
    pub fn new_default() -> (c: ConfigHelperData)
        ensures
            c@ == default_helper_view(),
    {
        let c = ConfigHelperData { ignored_commands: Vec::new(), ignored_monitors: Vec::new(), ignored_connectors: Vec::new() };
        assert(c@.ignored_commands =~= Seq::<Seq<char>>::empty());
        assert(c@.ignored_monitors =~= Seq::<Seq<char>>::empty());
        assert(c@.ignored_connectors =~= Seq::<Seq<char>>::empty());
        c
    }
}

/// A group of module configurations that hosts can belong to.
#[derive(Debug)]
pub struct ConfigGroup {
    pub monitors: KeyedList<MonitorConfig>,
    pub commands: KeyedList<CommandConfig>,
    pub custom_commands: Vec<CustomCommandConfig>,
    pub connectors: KeyedList<ConnectorConfig>,
    pub host_settings: Vec<HostSetting>,
    pub config_helper: ConfigHelperData,
}

pub struct ConfigGroupView {
    pub monitors: Map<Seq<char>, MonitorConfigView>,
    pub commands: Map<Seq<char>, CommandConfigView>,
    pub custom_commands: Seq<CustomCommandView>,
    pub connectors: Map<Seq<char>, ConnectorConfigView>,
    pub host_settings: Seq<HostSetting>,
    pub config_helper: ConfigHelperView,
}

impl View for ConfigGroup {
    type V = ConfigGroupView;

    open spec fn view(&self) -> ConfigGroupView {
        ConfigGroupView {
            monitors: self.monitors@,
            commands: self.commands@,
            custom_commands: views_of(self.custom_commands@),
            connectors: self.connectors@,
            host_settings: views_of(self.host_settings@),
            config_helper: self.config_helper@,
        }
    }
}

impl DeepCopy for ConfigGroup {
    fn deep_copy(&self) -> (r: ConfigGroup) {
        ConfigGroup {
            monitors: self.monitors.deep_copy_list(),
            commands: self.commands.deep_copy_list(),
            custom_commands: deep_copy_vec(&self.custom_commands),
            connectors: self.connectors.deep_copy_list(),
            host_settings: deep_copy_vec(&self.host_settings),
            config_helper: self.config_helper.deep_copy(),
        }
    }
}

/// A group with nothing in it.
pub open spec fn default_group_view() -> ConfigGroupView {
    ConfigGroupView {
        monitors: Map::empty(),
        commands: Map::empty(),
        custom_commands: Seq::empty(),
        connectors: Map::empty(),
        host_settings: Seq::empty(),
        config_helper: default_helper_view(),
    }
}

impl ConfigGroup {
    pub fn new_default() -> (g: ConfigGroup)
        ensures
            g@ == default_group_view(),
    {
        let g = ConfigGroup {
            monitors: KeyedList::new(),
            commands: KeyedList::new(),
            custom_commands: Vec::new(),
            connectors: KeyedList::new(),
            host_settings: Vec::new(),
            config_helper: ConfigHelperData::new_default(),
        };
        assert(g@.monitors =~= Map::<Seq<char>, MonitorConfigView>::empty());
        assert(g@.commands =~= Map::<Seq<char>, CommandConfigView>::empty());
        assert(g@.connectors =~= Map::<Seq<char>, ConnectorConfigView>::empty());
        assert(g@.custom_commands =~= Seq::<CustomCommandView>::empty());
        assert(g@.host_settings =~= Seq::<HostSetting>::empty());
        g
    }
}

/// `second` merged over `first`: module settings are laid over each other
/// module by module (see `merged_monitor` and its kin), custom commands are
/// appended, host settings of `second` replace those of `first` when it has
/// any, and the configuration helper data of `first` is kept.
pub open spec fn merge_group_view(first: ConfigGroupView, second: ConfigGroupView) -> ConfigGroupView {
    ConfigGroupView {
        monitors: merge_modules::<MonitorConfig>(first.monitors, second.monitors),
        commands: merge_modules::<CommandConfig>(first.commands, second.commands),
        custom_commands: first.custom_commands + second.custom_commands,
        connectors: merge_modules::<ConnectorConfig>(first.connectors, second.connectors),
        host_settings: if second.host_settings.len() > 0 { second.host_settings } else { first.host_settings },
        config_helper: first.config_helper,
    }
}

/// Merges configuration groups; the second overwrites conflicting contents of the first.
fn merge_groups(first_config: &ConfigGroup, second_config: &ConfigGroup) -> (r: ConfigGroup)
    ensures
        r@ == merge_group_view(first_config@, second_config@),
{
    let mut custom_commands = deep_copy_vec(&first_config.custom_commands);
    append_copies(&mut custom_commands, &second_config.custom_commands);
    let host_settings = if second_config.host_settings.len() > 0 {
        deep_copy_vec(&second_config.host_settings)
    } else {
        deep_copy_vec(&first_config.host_settings)
    };
    ConfigGroup {
        monitors: merge_module_lists(&first_config.monitors, &second_config.monitors),
        commands: merge_module_lists(&first_config.commands, &second_config.commands),
        custom_commands: custom_commands,
        connectors: merge_module_lists(&first_config.connectors, &second_config.connectors),
        host_settings: host_settings,
        config_helper: first_config.config_helper.deep_copy(),
    }
}


/// Merging over an empty group changes nothing.
pub proof fn law_merge_empty_right(a: ConfigGroupView)
    ensures
        merge_group_view(a, default_group_view()) == a,
{
    let r = merge_group_view(a, default_group_view());
    assert(r.monitors =~= a.monitors);
    assert(r.commands =~= a.commands);
    assert(r.connectors =~= a.connectors);
    assert(r.custom_commands =~= a.custom_commands);
}

/// The documented rule of merging: what the second group sets wins. Every
/// setting that the second group gives a module is the merged module's
/// setting, the second group's version, `enabled` and `is_critical` of a
/// monitor and version of a command are taken, and modules and settings that only the
/// first group has are kept as they were.
pub proof fn law_second_overrides_first(first: ConfigGroupView, second: ConfigGroupView)
    ensures
        ({
            let r = merge_group_view(first, second);
            &&& forall|m: Seq<char>, k: Seq<char>|
                #![trigger r.monitors[m].settings[k]]
                second.monitors.contains_key(m) && second.monitors[m].settings.contains_key(k)
                    ==> r.monitors.contains_key(m) && r.monitors[m].settings.contains_key(k)
                        && r.monitors[m].settings[k] == second.monitors[m].settings[k]
            &&& forall|m: Seq<char>| #[trigger] second.monitors.contains_key(m)
                    ==> r.monitors[m].enabled == second.monitors[m].enabled
                        && r.monitors[m].is_critical == second.monitors[m].is_critical
                        && r.monitors[m].version == second.monitors[m].version
            &&& forall|m: Seq<char>, k: Seq<char>|
                #![trigger r.commands[m].settings[k]]
                second.commands.contains_key(m) && second.commands[m].settings.contains_key(k)
                    ==> r.commands.contains_key(m) && r.commands[m].settings.contains_key(k)
                        && r.commands[m].settings[k] == second.commands[m].settings[k]
            &&& forall|m: Seq<char>| #[trigger] second.commands.contains_key(m)
                    ==> r.commands[m].version == second.commands[m].version
            &&& forall|m: Seq<char>, k: Seq<char>|
                #![trigger r.connectors[m].settings[k]]
                second.connectors.contains_key(m) && second.connectors[m].settings.contains_key(k)
                    ==> r.connectors.contains_key(m) && r.connectors[m].settings.contains_key(k)
                        && r.connectors[m].settings[k] == second.connectors[m].settings[k]
            &&& forall|m: Seq<char>| #[trigger] first.monitors.contains_key(m) && !second.monitors.contains_key(m)
                    ==> r.monitors.contains_key(m) && r.monitors[m] == first.monitors[m]
            &&& forall|m: Seq<char>| #[trigger] first.commands.contains_key(m) && !second.commands.contains_key(m)
                    ==> r.commands.contains_key(m) && r.commands[m] == first.commands[m]
            &&& forall|m: Seq<char>| #[trigger] first.connectors.contains_key(m) && !second.connectors.contains_key(m)
                    ==> r.connectors.contains_key(m) && r.connectors[m] == first.connectors[m]
        }),
{
}

proof fn lemma_union_assoc(a: Map<Seq<char>, Seq<char>>, b: Map<Seq<char>, Seq<char>>, c: Map<Seq<char>, Seq<char>>)
    ensures
        a.union_prefer_right(b).union_prefer_right(c) == a.union_prefer_right(b.union_prefer_right(c)),
{
    assert(a.union_prefer_right(b).union_prefer_right(c) =~= a.union_prefer_right(b.union_prefer_right(c)));
}

proof fn lemma_union_empty(a: Map<Seq<char>, Seq<char>>)
    ensures
        Map::<Seq<char>, Seq<char>>::empty().union_prefer_right(a) == a,
{
    assert(Map::<Seq<char>, Seq<char>>::empty().union_prefer_right(a) =~= a);
}

/// Module merges that can be regrouped.
pub open spec fn merge_regroupable<T: ModuleConfig>() -> bool {
    &&& forall|x: Option<<T as View>::V>, z: <T as View>::V| #[trigger] T::merged(x, T::merged(None, z)) == T::merged(x, z)
    &&& forall|x: Option<<T as View>::V>, y: <T as View>::V, z: <T as View>::V|
        #[trigger] T::merged(Some(T::merged(x, y)), z) == T::merged(x, T::merged(Some(y), z))
}

proof fn lemma_monitor_regroupable()
    ensures
        merge_regroupable::<MonitorConfig>(),
{
    assert forall|x: Option<MonitorConfigView>, z: MonitorConfigView|
        #[trigger] merged_monitor(x, merged_monitor(None, z)) == merged_monitor(x, z) by {
        lemma_union_empty(z.settings);
    }
    assert forall|x: Option<MonitorConfigView>, y: MonitorConfigView, z: MonitorConfigView|
        #[trigger] merged_monitor(Some(merged_monitor(x, y)), z) == merged_monitor(x, merged_monitor(Some(y), z)) by {
        let b = match x { Some(b) => b, None => default_monitor_view() };
        lemma_union_assoc(b.settings, y.settings, z.settings);
    }
}

proof fn lemma_command_regroupable()
    ensures
        merge_regroupable::<CommandConfig>(),
{
    assert forall|x: Option<CommandConfigView>, z: CommandConfigView|
        #[trigger] merged_command(x, merged_command(None, z)) == merged_command(x, z) by {
        lemma_union_empty(z.settings);
    }
    assert forall|x: Option<CommandConfigView>, y: CommandConfigView, z: CommandConfigView|
        #[trigger] merged_command(Some(merged_command(x, y)), z) == merged_command(x, merged_command(Some(y), z)) by {
        let b = match x { Some(b) => b, None => default_command_view() };
        lemma_union_assoc(b.settings, y.settings, z.settings);
    }
}

proof fn lemma_connector_regroupable()
    ensures
        merge_regroupable::<ConnectorConfig>(),
{
    assert forall|x: Option<ConnectorConfigView>, z: ConnectorConfigView|
        #[trigger] merged_connector(x, merged_connector(None, z)) == merged_connector(x, z) by {
        lemma_union_empty(z.settings);
    }
    assert forall|x: Option<ConnectorConfigView>, y: ConnectorConfigView, z: ConnectorConfigView|
        #[trigger] merged_connector(Some(merged_connector(x, y)), z) == merged_connector(x, merged_connector(Some(y), z)) by {
        let b = match x { Some(b) => b, None => default_connector_view() };
        lemma_union_assoc(b.settings, y.settings, z.settings);
    }
}

proof fn lemma_merge_modules_assoc<T: ModuleConfig>(
    a: Map<Seq<char>, <T as View>::V>,
    b: Map<Seq<char>, <T as View>::V>,
    c: Map<Seq<char>, <T as View>::V>,
)
    requires
        merge_regroupable::<T>(),
    ensures
        merge_modules::<T>(merge_modules::<T>(a, b), c) == merge_modules::<T>(a, merge_modules::<T>(b, c)),
{
    let l = merge_modules::<T>(merge_modules::<T>(a, b), c);
    let r = merge_modules::<T>(a, merge_modules::<T>(b, c));
    assert forall|k: Seq<char>| #[trigger] l.contains_key(k) implies l[k] == r[k] by {
        let xa = if a.contains_key(k) { Some(a[k]) } else { None };
        if c.contains_key(k) && b.contains_key(k) {
            assert(T::merged(Some(T::merged(xa, b[k])), c[k]) == T::merged(xa, T::merged(Some(b[k]), c[k])));
        } else if c.contains_key(k) {
            assert(T::merged(xa, T::merged(None, c[k])) == T::merged(xa, c[k]));
        }
    }
    assert(l =~= r);
}

/// Merging is associative: merging three groups one after another gives the
/// same as merging the last two first and then merging that over the first.
pub proof fn law_merge_associative(a: ConfigGroupView, b: ConfigGroupView, c: ConfigGroupView)
    ensures
        merge_group_view(merge_group_view(a, b), c) == merge_group_view(a, merge_group_view(b, c)),
{
    lemma_monitor_regroupable();
    lemma_command_regroupable();
    lemma_connector_regroupable();
    lemma_merge_modules_assoc::<MonitorConfig>(a.monitors, b.monitors, c.monitors);
    lemma_merge_modules_assoc::<CommandConfig>(a.commands, b.commands, c.commands);
    lemma_merge_modules_assoc::<ConnectorConfig>(a.connectors, b.connectors, c.connectors);
    let l = merge_group_view(merge_group_view(a, b), c);
    let r = merge_group_view(a, merge_group_view(b, c));
    assert(l.custom_commands =~= r.custom_commands);
}


/// One category of monitors and commands in the user interface.
#[derive(Debug)]
pub struct Category {
    pub priority: u16,
    pub icon: Option<String>,
    pub color: Option<String>,
    pub command_order: Option<Vec<String>>,
    pub monitor_order: Option<Vec<String>>,
    pub collapsible_commands: Option<Vec<String>>,
}

pub struct CategoryView {
    pub priority: u16,
    pub icon: Option<Seq<char>>,
    pub color: Option<Seq<char>>,
    pub command_order: Option<Seq<Seq<char>>>,
    pub monitor_order: Option<Seq<Seq<char>>>,
    pub collapsible_commands: Option<Seq<Seq<char>>>,
}

pub open spec fn opt_text_view(o: Option<String>) -> Option<Seq<char>> {
    match o {
        Some(s) => Some(s@),
        None => None,
    }
}

pub open spec fn opt_texts_view(o: Option<Vec<String>>) -> Option<Seq<Seq<char>>> {
    match o {
        Some(v) => Some(views_of(v@)),
        None => None,
    }
}

impl View for Category {
    type V = CategoryView;

    open spec fn view(&self) -> CategoryView {
        CategoryView {
            priority: self.priority,
            icon: opt_text_view(self.icon),
            color: opt_text_view(self.color),
            command_order: opt_texts_view(self.command_order),
            monitor_order: opt_texts_view(self.monitor_order),
            collapsible_commands: opt_texts_view(self.collapsible_commands),
        }
    }
}

/// A chart and the monitors drawn in it.
#[derive(Debug)]
pub struct ChartCategory {
    pub name: String,
    pub monitors: Vec<String>,
}

/// Display options of the configuration file.
#[derive(Debug)]
pub struct DisplayOptions {
    pub qtquick_style: String,
    pub hide_info_notifications: bool,
    pub categories: KeyedList<Category>,
    pub show_status_bar: bool,
    pub chart_categories: Vec<ChartCategory>,
}

impl DisplayOptions {
    /// Default of the options that are on unless set otherwise.
    pub fn default_to_true() -> (b: bool)
        ensures
            b,
    {
        true
    }
}

/// User preferences.
#[derive(Debug)]
pub struct Preferences {
    pub use_sandbox_mode: bool,
    pub refresh_hosts_on_start: bool,
    pub use_remote_editor: bool,
    pub sudo_remote_editor: bool,
    pub remote_text_editor: String,
    /// Command to run when launching a text editor. "internal" is a special value that uses the internal editor.
    pub text_editor: String,
    /// Command to run when launching a terminal. "internal" is a special value that uses the internal terminal.
    pub terminal: String,
    pub terminal_args: Vec<String>,
    pub close_to_tray: bool,
    pub show_monitor_notifications: bool,
    pub show_charts: bool,
}

/// Main configuration.
#[derive(Debug)]
pub struct Configuration {
    pub preferences: Preferences,
    pub display_options: DisplayOptions,
    pub schema_version: Option<u16>,
}

/// Configuration of one host.
#[derive(Debug)]
pub struct HostSettings {
    pub groups: Vec<String>,
    pub address: String,
    pub fqdn: String,
    pub overrides: ConfigGroup,
    /// Effective configuration after merging everything. Not stored in the configuration file.
    pub effective: ConfigGroup,
    /// Deprecated.
    pub monitors: KeyedList<MonitorConfig>,
    /// Deprecated.
    pub commands: KeyedList<CommandConfig>,
    /// Deprecated.
    pub connectors: KeyedList<ConnectorConfig>,
    /// Deprecated.
    pub settings: Vec<HostSetting>,
}

pub struct HostSettingsView {
    pub groups: Seq<Seq<char>>,
    pub address: Seq<char>,
    pub fqdn: Seq<char>,
    pub overrides: ConfigGroupView,
    pub effective: ConfigGroupView,
    pub monitors: Map<Seq<char>, MonitorConfigView>,
    pub commands: Map<Seq<char>, CommandConfigView>,
    pub connectors: Map<Seq<char>, ConnectorConfigView>,
    pub settings: Seq<HostSetting>,
}

impl View for HostSettings {
    type V = HostSettingsView;

    open spec fn view(&self) -> HostSettingsView {
        HostSettingsView {
            groups: views_of(self.groups@),
            address: self.address@,
            fqdn: self.fqdn@,
            overrides: self.overrides@,
            effective: self.effective@,
            monitors: self.monitors@,
            commands: self.commands@,
            connectors: self.connectors@,
            settings: views_of(self.settings@),
        }
    }
}

impl DeepCopy for HostSettings {
    fn deep_copy(&self) -> (r: HostSettings) {
        HostSettings {
            groups: deep_copy_vec(&self.groups),
            address: self.address.clone(),
            fqdn: self.fqdn.clone(),
            overrides: self.overrides.deep_copy(),
            effective: self.effective.deep_copy(),
            monitors: self.monitors.deep_copy_list(),
            commands: self.commands.deep_copy_list(),
            connectors: self.connectors.deep_copy_list(),
            settings: deep_copy_vec(&self.settings),
        }
    }
}

/// A host in no group, at the default address, with nothing configured.
pub open spec fn default_host_view() -> HostSettingsView {
    HostSettingsView {
        groups: Seq::empty(),
        address: default_address_view(),
        fqdn: Seq::empty(),
        overrides: default_group_view(),
        effective: default_group_view(),
        monitors: Map::empty(),
        commands: Map::empty(),
        connectors: Map::empty(),
        settings: Seq::empty(),
    }
}

/// The address used when none is configured.
pub open spec fn default_address_view() -> Seq<char> {
    "0.0.0.0"@
}

impl HostSettings {
    pub fn default_address() -> (s: String)
        ensures
            s@ == default_address_view(),
    {
        "0.0.0.0".to_string()
    }

    pub fn is_default_address(address: &String) -> (r: bool)
        ensures
            r == (address@ == default_address_view()),
    {
        str_equals(address.as_str(), "0.0.0.0")
    }

    /// Settings with no groups, the default address and nothing else.
    pub fn new_default() -> (h: HostSettings)
        ensures
            h@ == default_host_view(),
    {
        let h = HostSettings {
            groups: Vec::new(),
            address: HostSettings::default_address(),
            fqdn: String::new(),
            overrides: ConfigGroup::new_default(),
            effective: ConfigGroup::new_default(),
            monitors: KeyedList::new(),
            commands: KeyedList::new(),
            connectors: KeyedList::new(),
            settings: Vec::new(),
        };
        assert(h@.groups =~= Seq::<Seq<char>>::empty());
        assert(h@.settings =~= Seq::<HostSetting>::empty());
        h
    }
}

/// All configuration groups by name.
#[derive(Debug)]
pub struct Groups {
    pub groups: KeyedList<ConfigGroup>,
}

/// All hosts by name, and the addresses whose certificates are monitored.
#[derive(Debug)]
pub struct Hosts {
    pub hosts: KeyedList<HostSettings>,
    pub certificate_monitors: Vec<String>,
}

/// The old per-host module settings, as a group.
pub open spec fn deprecated_overrides(h: HostSettingsView) -> ConfigGroupView {
    ConfigGroupView {
        monitors: h.monitors,
        commands: h.commands,
        custom_commands: Seq::empty(),
        connectors: h.connectors,
        host_settings: h.settings,
        config_helper: default_helper_view(),
    }
}

/// The groups named in `names`, merged in order over an empty group; names
/// of groups that do not exist are skipped.
pub open spec fn fold_groups(names: Seq<Seq<char>>, all: Map<Seq<char>, ConfigGroupView>) -> ConfigGroupView
    decreases names.len(),
{
    if names.len() == 0 {
        default_group_view()
    } else {
        let acc = fold_groups(names.drop_last(), all);
        if all.contains_key(names.last()) {
            merge_group_view(acc, all[names.last()])
        } else {
            acc
        }
    }
}

/// Effective configuration of a host: its groups in order, then its old
/// per-host settings, then its overrides.
pub open spec fn effective_group_view(h: HostSettingsView, all: Map<Seq<char>, ConfigGroupView>) -> ConfigGroupView {
    merge_group_view(fold_groups(h.groups, all), merge_group_view(deprecated_overrides(h), h.overrides))
}

/// A copy of `list` made of plain copies.
fn copy_modules<T: DeepCopy>(list: &KeyedList<T>) -> (r: KeyedList<T>)
    ensures
        r@ == list@,
{
    list.deep_copy_list()
}

impl Configuration {
    /// Merges configuration groups, second parameter will overwrite conflicting contents from first.
    pub fn merge_group_config(first_config: &ConfigGroup, second_config: &ConfigGroup) -> (r: ConfigGroup)
        ensures
            r@ == merge_group_view(first_config@, second_config@),
    {
        merge_groups(first_config, second_config)
    }

    /// The old per-host settings of `host_config` as a group.
    fn deprecated_overrides_of(host_config: &HostSettings) -> (r: ConfigGroup)
        ensures
            r@ == deprecated_overrides(host_config@),
    {
        let r = ConfigGroup {
            commands: copy_modules(&host_config.commands),
            monitors: copy_modules(&host_config.monitors),
            connectors: copy_modules(&host_config.connectors),
            custom_commands: Vec::new(),
            host_settings: deep_copy_vec(&host_config.settings),
            config_helper: ConfigHelperData::new_default(),
        };
        assert(r@.custom_commands =~= Seq::<CustomCommandView>::empty());
        r
    }

    /// Merges config groups to form the final, effective config.
    pub fn get_effective_group_config(host_config: &HostSettings, all_groups: &KeyedList<ConfigGroup>) -> (r: ConfigGroup)
        ensures
            r@ == effective_group_view(host_config@, all_groups@),
    {
        let mut effective_config = ConfigGroup::new_default();
        let mut i: usize = 0;
        let ghost names = host_config@.groups;
        while i < host_config.groups.len()
            invariant
                i <= host_config.groups.len(),
                names == views_of(host_config.groups@),
                effective_config@ == fold_groups(names.take(i as int), all_groups@),
            decreases host_config.groups.len() - i,
        {
            proof {
                assert(names.take(i + 1).drop_last() =~= names.take(i as int));
                assert(names.take(i + 1).last() == host_config.groups@[i as int]@);
            }
            match all_groups.get(host_config.groups[i].as_str()) {
                Some(group_config) => {
                    effective_config = merge_groups(&effective_config, group_config);
                },
                None => {},
            }
            i = i + 1;
        }
        assert(names.take(host_config.groups.len() as int) =~= names);
        let old_overrides = Configuration::deprecated_overrides_of(host_config);
        let all_overrides = merge_groups(&old_overrides, &host_config.overrides);
        merge_groups(&effective_config, &all_overrides)
    }

    pub fn is_schema_outdated(schema_version: Option<u16>) -> (r: bool)
        ensures
            r == match schema_version {
                Some(v) => v < CURRENT_SCHEMA_VERSION,
                None => true,
            },
    {
        match schema_version {
            Some(version) => version < CURRENT_SCHEMA_VERSION,
            None => true,
        }
    }

    pub fn version_is_latest(version: &str) -> (r: bool)
        ensures
            r == (version@ == LATEST_VERSION@),
    {
        str_equals(version, LATEST_VERSION)
    }
}

/// Host overrides win over every group: each setting that a host's
/// overrides give a module is the module's setting in the effective
/// configuration.
pub proof fn law_overrides_win_over_groups(h: HostSettingsView, all: Map<Seq<char>, ConfigGroupView>)
    ensures
        ({
            let e = effective_group_view(h, all);
            &&& forall|m: Seq<char>, k: Seq<char>|
                #![trigger e.monitors[m].settings[k]]
                h.overrides.monitors.contains_key(m) && h.overrides.monitors[m].settings.contains_key(k)
                    ==> e.monitors.contains_key(m) && e.monitors[m].settings[k] == h.overrides.monitors[m].settings[k]
            &&& forall|m: Seq<char>, k: Seq<char>|
                #![trigger e.commands[m].settings[k]]
                h.overrides.commands.contains_key(m) && h.overrides.commands[m].settings.contains_key(k)
                    ==> e.commands.contains_key(m) && e.commands[m].settings[k] == h.overrides.commands[m].settings[k]
            &&& forall|m: Seq<char>, k: Seq<char>|
                #![trigger e.connectors[m].settings[k]]
                h.overrides.connectors.contains_key(m) && h.overrides.connectors[m].settings.contains_key(k)
                    ==> e.connectors.contains_key(m) && e.connectors[m].settings[k] == h.overrides.connectors[m].settings[k]
        }),
{
    let o = merge_group_view(deprecated_overrides(h), h.overrides);
    law_second_overrides_first(deprecated_overrides(h), h.overrides);
    law_second_overrides_first(fold_groups(h.groups, all), o);
}


/// A host as it is kept after reading: effective configuration computed,
/// old per-host settings folded into the overrides and then cleared.
pub open spec fn finalized_host(h: HostSettingsView, all: Map<Seq<char>, ConfigGroupView>) -> HostSettingsView {
    HostSettingsView {
        groups: h.groups,
        address: h.address,
        fqdn: h.fqdn,
        overrides: merge_group_view(deprecated_overrides(h), h.overrides),
        effective: effective_group_view(h, all),
        monitors: Map::empty(),
        commands: Map::empty(),
        connectors: Map::empty(),
        settings: Seq::empty(),
    }
}

/// Group names that `names` refers to and that `all` does not have, in order.
pub open spec fn missing_groups(names: Seq<Seq<char>>, all: Map<Seq<char>, ConfigGroupView>) -> Seq<Seq<char>>
    decreases names.len(),
{
    if names.len() == 0 {
        Seq::empty()
    } else if all.contains_key(names.last()) {
        missing_groups(names.drop_last(), all)
    } else {
        missing_groups(names.drop_last(), all).push(names.last())
    }
}

/// Invalid group references of all hosts, host by host in the given order.
pub open spec fn invalid_references(hosts: Seq<HostSettingsView>, all: Map<Seq<char>, ConfigGroupView>) -> Seq<Seq<char>>
    decreases hosts.len(),
{
    if hosts.len() == 0 {
        Seq::empty()
    } else {
        invalid_references(hosts.drop_last(), all) + missing_groups(hosts.last().groups, all)
    }
}

/// Texts joined with a separator between them.
pub open spec fn join_texts(list: Seq<Seq<char>>, sep: Seq<char>) -> Seq<char>
    decreases list.len(),
{
    if list.len() == 0 {
        Seq::empty()
    } else if list.len() == 1 {
        list[0]
    } else {
        join_texts(list.drop_last(), sep) + sep + list.last()
    }
}

/// `list` joined with `sep` (`join`).
pub fn join(list: &Vec<String>, sep: &str) -> (r: String)
    ensures
        r@ == join_texts(views_of(list@), sep@),
{
    let mut r = String::new();
    let ghost vs = views_of(list@);
    let mut i: usize = 0;
    while i < list.len()
        invariant
            i <= list.len(),
            vs == views_of(list@),
            r@ == join_texts(vs.take(i as int), sep@),
        decreases list.len() - i,
    {
        proof {
            assert(vs.take(i + 1).drop_last() =~= vs.take(i as int));
        }
        if i != 0 {
            crate::text::append_text(&mut r, sep);
        }
        crate::text::append_text(&mut r, list[i].as_str());
        proof {
            if i == 0 {
                assert(r@ =~= vs.take(1)[0]);
            }
        }
        i = i + 1;
    }
    assert(vs.take(list.len() as int) =~= vs);
    r
}

impl Configuration {
    /// Group names that hosts refer to but that are not defined, host by
    /// host in host-name order.
    pub fn invalid_group_references(hosts: &Hosts, groups: &Groups) -> (r: Vec<String>)
        ensures
            views_of(r@) == invalid_references(hosts.hosts.vals(), groups.groups@),
    {
        let n = hosts.hosts.len();
        let mut r: Vec<String> = Vec::new();
        let mut i: usize = 0;
        while i < n
            invariant
                n == hosts.hosts.keys().len(),
                hosts.hosts.consistent(),
                i <= n,
                views_of(r@) == invalid_references(hosts.hosts.vals().take(i as int), groups.groups@),
            decreases n - i,
        {
            let host = hosts.hosts.value_at(i);
            let ghost before = views_of(r@);
            let mut j: usize = 0;
            while j < host.groups.len()
                invariant
                    j <= host.groups.len(),
                    views_of(r@) == before + missing_groups(views_of(host.groups@).take(j as int), groups.groups@),
                decreases host.groups.len() - j,
            {
                let ghost gs = views_of(host.groups@);
                proof {
                    assert(gs.take(j + 1).drop_last() =~= gs.take(j as int));
                    assert(gs.take(j + 1).last() == host.groups@[j as int]@);
                }
                if !groups.groups.contains_key(host.groups[j].as_str()) {
                    let ghost prev = r@;
                    r.push(host.groups[j].clone());
                    proof {
                        assert(views_of(r@) =~= views_of(prev).push(host.groups@[j as int]@));
                    }
                }
                j = j + 1;
            }
            proof {
                let hv = hosts.hosts.vals();
                assert(views_of(host.groups@).take(host.groups.len() as int) =~= views_of(host.groups@));
                assert(hv.take(i + 1).drop_last() =~= hv.take(i as int));
                assert(hv.take(i + 1).last() == host@);
            }
            i = i + 1;
        }
        assert(hosts.hosts.vals().take(n as int) =~= hosts.hosts.vals());
        r
    }

    /// Fails with "Invalid group references: a, b" when hosts refer to
    /// groups that do not exist.
    pub fn check_group_references(hosts: &Hosts, groups: &Groups) -> (r: Result<(), String>)
        ensures
            invalid_references(hosts.hosts.vals(), groups.groups@).len() == 0 ==> r is Ok,
            invalid_references(hosts.hosts.vals(), groups.groups@).len() > 0 ==> (r matches Err(m)
                && m@ == "Invalid group references: "@ + join_texts(invalid_references(hosts.hosts.vals(), groups.groups@), ", "@)),
    {
        let invalid = Configuration::invalid_group_references(hosts, groups);
        if invalid.len() == 0 {
            Ok(())
        } else {
            let mut message = "Invalid group references: ".to_string();
            let joined = join(&invalid, ", ");
            crate::text::append_text(&mut message, joined.as_str());
            Err(message)
        }
    }

    /// Computes every host's effective configuration from the groups, folds
    /// the old per-host settings into its overrides and clears them.
    pub fn apply_group_configs(hosts: &mut Hosts, groups: &Groups)
        ensures
            final(hosts).certificate_monitors@ == old(hosts).certificate_monitors@,
            final(hosts).hosts@.dom() == old(hosts).hosts@.dom(),
            forall|k: Seq<char>| #[trigger] final(hosts).hosts@.contains_key(k)
                ==> final(hosts).hosts@[k] == finalized_host(old(hosts).hosts@[k], groups.groups@),
    {
        let n = hosts.hosts.len();
        let ghost old_map = hosts.hosts@;
        let mut result: KeyedList<HostSettings> = KeyedList::new();
        let mut i: usize = 0;
        while i < n
            invariant
                n == hosts.hosts.keys().len(),
                hosts.hosts.consistent(),
                hosts.hosts@ == old_map,
                i <= n,
                forall|k: Seq<char>| #[trigger] result@.contains_key(k) <==> exists|j: int| 0 <= j < i && hosts.hosts.keys()[j] == k,
                forall|k: Seq<char>| #[trigger] result@.contains_key(k) ==> result@[k] == finalized_host(old_map[k], groups.groups@),
            decreases n - i,
        {
            let key = hosts.hosts.key_at(i).clone();
            let host = hosts.hosts.value_at(i);
            let old_overrides = Configuration::deprecated_overrides_of(host);
            let new_host = HostSettings {
                groups: deep_copy_vec(&host.groups),
                address: host.address.clone(),
                fqdn: host.fqdn.clone(),
                overrides: merge_groups(&old_overrides, &host.overrides),
                effective: Configuration::get_effective_group_config(host, &groups.groups),
                monitors: KeyedList::new(),
                commands: KeyedList::new(),
                connectors: KeyedList::new(),
                settings: Vec::new(),
            };
            let ghost kv = key@;
            proof {
                assert(new_host@.settings =~= Seq::<HostSetting>::empty());
                assert(hosts.hosts.keys()[i as int] == kv);
                assert(old_map[kv] == host@);
                assert(new_host@ =~= finalized_host(old_map[kv], groups.groups@));
            }
            result.insert(key, new_host);
            proof {
                assert forall|k2: Seq<char>| #[trigger] result@.contains_key(k2) <==> exists|j: int| 0 <= j < i + 1 && hosts.hosts.keys()[j] == k2 by {
                    if k2 == kv {
                        assert(hosts.hosts.keys()[i as int] == k2);
                    }
                }
            }
            i = i + 1;
        }
        proof {
            assert forall|k: Seq<char>| #![auto] result@.contains_key(k) == old_map.contains_key(k) by {
                if old_map.contains_key(k) {
                    let j = hosts.hosts.keys().index_of(k);
                    assert(hosts.hosts.keys()[j] == k);
                }
            }
            assert(result@.dom() =~= old_map.dom());
        }
        hosts.hosts = result;
    }
}


impl Configuration {
    /// The hosts as they are saved: the effective configuration of each is
    /// computed on load, so it is left empty.
    pub fn hosts_for_saving(hosts: &Hosts) -> (r: Hosts)
        ensures
            views_of(r.certificate_monitors@) == views_of(hosts.certificate_monitors@),
            r.hosts@.dom() == hosts.hosts@.dom(),
            forall|k: Seq<char>| #[trigger] r.hosts@.contains_key(k)
                ==> r.hosts@[k] == (HostSettingsView { effective: default_group_view(), ..hosts.hosts@[k] }),
    {
        let n = hosts.hosts.len();
        let ghost old_map = hosts.hosts@;
        let mut result: KeyedList<HostSettings> = KeyedList::new();
        let mut i: usize = 0;
        while i < n
            invariant
                n == hosts.hosts.keys().len(),
                hosts.hosts.consistent(),
                hosts.hosts@ == old_map,
                i <= n,
                forall|k: Seq<char>| #[trigger] result@.contains_key(k) <==> exists|j: int| 0 <= j < i && hosts.hosts.keys()[j] == k,
                forall|k: Seq<char>| #[trigger] result@.contains_key(k)
                    ==> result@[k] == (HostSettingsView { effective: default_group_view(), ..old_map[k] }),
            decreases n - i,
        {
            let key = hosts.hosts.key_at(i).clone();
            let host = hosts.hosts.value_at(i);
            let mut saved = host.deep_copy();
            saved.effective = ConfigGroup::new_default();
            let ghost kv = key@;
            proof {
                assert(hosts.hosts.keys()[i as int] == kv);
                assert(old_map[kv] == host@);
            }
            result.insert(key, saved);
            proof {
                assert forall|k2: Seq<char>| #[trigger] result@.contains_key(k2) <==> exists|j: int| 0 <= j < i + 1 && hosts.hosts.keys()[j] == k2 by {
                    if k2 == kv {
                        assert(hosts.hosts.keys()[i as int] == k2);
                    }
                }
            }
            i = i + 1;
        }
        proof {
            assert forall|k: Seq<char>| #![auto] result@.contains_key(k) == old_map.contains_key(k) by {
                if old_map.contains_key(k) {
                    let j = hosts.hosts.keys().index_of(k);
                    assert(hosts.hosts.keys()[j] == k);
                }
            }
            assert(result@.dom() =~= old_map.dom());
        }
        Hosts { hosts: result, certificate_monitors: deep_copy_vec(&hosts.certificate_monitors) }
    }
}

/// Schema version that a configuration without one is taken to have.
pub open spec fn schema_or_first(v: Option<u16>) -> u16 {
    match v {
        Some(v) => v,
        None => 1,
    }
}

/// Groups after the schema upgrade: a configuration older than schema 2
/// gets the default `nixos` group unless it already has one.
pub open spec fn upgraded_groups(
    groups: Map<Seq<char>, ConfigGroupView>,
    defaults: Map<Seq<char>, ConfigGroupView>,
) -> Map<Seq<char>, ConfigGroupView> {
    if groups.contains_key("nixos"@) {
        groups
    } else {
        groups.insert("nixos"@, defaults["nixos"@])
    }
}

/// Upgrading groups that were already upgraded changes nothing.
pub proof fn law_upgrade_idempotent(
    groups: Map<Seq<char>, ConfigGroupView>,
    defaults: Map<Seq<char>, ConfigGroupView>,
)
    ensures
        upgraded_groups(upgraded_groups(groups, defaults), defaults) == upgraded_groups(groups, defaults),
{
}

impl Configuration {
    /// Helps keep the configuration up-to-date. `default_groups` are the
    /// groups of the default configuration; upgrades take groups from there.
    pub fn upgrade_schema(main_config: &mut Configuration, groups_config: &mut Groups, default_groups: &Groups)
        requires
            schema_or_first(old(main_config).schema_version) < CURRENT_SCHEMA_VERSION
                ==> default_groups.groups@.contains_key("nixos"@),
        ensures
            final(main_config).preferences == old(main_config).preferences,
            final(main_config).display_options == old(main_config).display_options,
            schema_or_first(old(main_config).schema_version) < CURRENT_SCHEMA_VERSION ==> {
                &&& final(main_config).schema_version == Some(CURRENT_SCHEMA_VERSION)
                &&& final(groups_config).groups@ == upgraded_groups(old(groups_config).groups@, default_groups.groups@)
            },
            schema_or_first(old(main_config).schema_version) >= CURRENT_SCHEMA_VERSION ==> {
                &&& final(main_config).schema_version == old(main_config).schema_version
                &&& final(groups_config).groups@ == old(groups_config).groups@
            },
    {
        let mut schema_version: u16 = match main_config.schema_version {
            Some(v) => v,
            None => 1,
        };
        let old_version = schema_version;
        let ghost g0 = groups_config.groups@;
        while schema_version < CURRENT_SCHEMA_VERSION
            invariant
                old_version <= schema_version <= CURRENT_SCHEMA_VERSION || schema_version == old_version,
                old_version < CURRENT_SCHEMA_VERSION ==> default_groups.groups@.contains_key("nixos"@),
                schema_version <= 1 ==> groups_config.groups@ == g0,
                schema_version > 1 && old_version <= 1 ==> groups_config.groups@ == upgraded_groups(g0, default_groups.groups@),
                old_version > 1 ==> groups_config.groups@ == g0,
            decreases CURRENT_SCHEMA_VERSION - schema_version,
        {
            if schema_version == 1 {
                if !groups_config.groups.contains_key("nixos") {
                    match default_groups.groups.get("nixos") {
                        Some(nixos) => {
                            groups_config.groups.insert("nixos".to_string(), nixos.deep_copy());
                        },
                        None => {},
                    }
                }
            }
            schema_version = schema_version + 1;
        }
        if old_version < schema_version {
            main_config.schema_version = Some(schema_version);
        }
    }

    /// Display options are not user-configurable apart from the status bar:
    /// everything but `show_status_bar` comes from `defaults`.
    pub fn apply_default_display_options(main_config: &mut Configuration, defaults: DisplayOptions)
        ensures
            final(main_config).preferences == old(main_config).preferences,
            final(main_config).schema_version == old(main_config).schema_version,
            final(main_config).display_options.show_status_bar == old(main_config).display_options.show_status_bar,
            final(main_config).display_options.qtquick_style == defaults.qtquick_style,
            final(main_config).display_options.hide_info_notifications == defaults.hide_info_notifications,
            final(main_config).display_options.categories == defaults.categories,
            final(main_config).display_options.chart_categories == defaults.chart_categories,
    {
        let mut actual_display_options = defaults;
        actual_display_options.show_status_bar = main_config.display_options.show_status_bar;
        main_config.display_options = actual_display_options;
    }
}

/// File of the main configuration.
pub const MAIN_CONFIG_FILE: &'static str = "config.yml";
/// File of the hosts.
pub const HOSTS_FILE: &'static str = "hosts.yml";
/// File of the groups.
pub const GROUPS_FILE: &'static str = "groups.yml";
/// File of the groups in the first configuration layout.
pub const OLD_TEMPLATES_FILE: &'static str = "templates.yml";

/// What reading the configuration starts with.
#[derive(PartialEq, Eq, Structural, Clone, Copy, Debug)]
pub enum ConfigSetup {
    /// First run: write the initial configuration files.
    WriteInitial,
    /// The first configuration layout is there: set the main, hosts and
    /// templates files aside (renamed with `.old`) and write the initial
    /// files.
    ReplaceOldLayout,
    /// Read the files that are there.
    UseExisting,
}

/// Decides how reading the configuration starts, given whether the main
/// file and the old templates file exist.
pub fn config_setup(main_exists: bool, old_templates_exist: bool) -> (r: ConfigSetup)
    ensures
        !main_exists ==> r == ConfigSetup::WriteInitial,
        main_exists && old_templates_exist ==> r == ConfigSetup::ReplaceOldLayout,
        main_exists && !old_templates_exist ==> r == ConfigSetup::UseExisting,
{
    if !main_exists {
        ConfigSetup::WriteInitial
    } else if old_templates_exist {
        ConfigSetup::ReplaceOldLayout
    } else {
        ConfigSetup::UseExisting
    }
}

/// The name a file of the old layout is set aside under.
pub fn retired_file_name(file_name: &str) -> (r: String)
    ensures
        r@ == file_name@ + ".old"@,
{
    let mut name = file_name.to_string();
    crate::text::append_text(&mut name, ".old");
    name
}


/// Host settings follow the same rule as the rest of a merge: when the
/// second group gives any, they are the merged group's, whatever the first
/// group had; when it gives none, the first group's are kept.
pub proof fn law_second_host_settings_win(first: ConfigGroupView, second: ConfigGroupView)
    ensures
        second.host_settings.len() > 0 ==> merge_group_view(first, second).host_settings == second.host_settings,
        second.host_settings.len() == 0 ==> merge_group_view(first, second).host_settings == first.host_settings,
{
}

} // verus!
