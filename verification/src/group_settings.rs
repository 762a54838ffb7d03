//! What the group dialog shows of modules: the modules of a group, the
//! settings of one of them next to the settings the module offers, the
//! settings a host's groups give it, and the modules not yet chosen.

use vstd::prelude::*;
use vstd::relations::sorted_by;
use crate::config_editor::{contains_text, texts_not_in, ConfigEditor, ModuleSetting};
use crate::configuration::{
    default_group_view, default_host_view, effective_group_view, CommandConfig, ConfigGroup, ConfigGroupView,
    Configuration, ConnectorConfig, HostSettings, HostSettingsView, MonitorConfig,
};
use crate::keyed::{deep_copy_vec, lemma_sorted_no_duplicates, sorted_keys, views_of, DeepCopy, KeyedList};
use crate::sorting::{lemma_keyed_leq_total, lemma_sort_keeps_elements, lowercase_order, sort_by_lowercase, sort_texts, text_order};

verus! {

/// The three kinds of modules a group configures.
#[derive(PartialEq, Eq, Structural, Clone, Copy, Debug)]
pub enum ModuleKind {
    Monitor,
    Command,
    Connector,
}

/// Module configurations that carry settings.
pub trait HasSettings: View + Sized {
    spec fn settings_view(v: Self::V) -> Map<Seq<char>, Seq<char>>;

    fn settings_list(&self) -> (r: &KeyedList<String>)
        ensures
            r@ == Self::settings_view(self@);
}

impl HasSettings for MonitorConfig {
    open spec fn settings_view(v: crate::configuration::MonitorConfigView) -> Map<Seq<char>, Seq<char>> {
        v.settings
    }

    fn settings_list(&self) -> (r: &KeyedList<String>) {
        &self.settings
    }
}

impl HasSettings for CommandConfig {
    open spec fn settings_view(v: crate::configuration::CommandConfigView) -> Map<Seq<char>, Seq<char>> {
        v.settings
    }

    fn settings_list(&self) -> (r: &KeyedList<String>) {
        &self.settings
    }
}

impl HasSettings for ConnectorConfig {
    open spec fn settings_view(v: crate::configuration::ConnectorConfigView) -> Map<Seq<char>, Seq<char>> {
        v.settings
    }

    fn settings_list(&self) -> (r: &KeyedList<String>) {
        &self.settings
    }
}

/// A group by name; an unknown group is an empty one.
pub open spec fn group_or_default(groups: Map<Seq<char>, ConfigGroupView>, name: Seq<char>) -> ConfigGroupView {
    if groups.contains_key(name) {
        groups[name]
    } else {
        default_group_view()
    }
}

/// The settings of each module of a kind in a group, by module id.
pub open spec fn settings_by_module(g: ConfigGroupView, kind: ModuleKind) -> Map<Seq<char>, Map<Seq<char>, Seq<char>>> {
    match kind {
        ModuleKind::Monitor => g.monitors.map_values(|c: crate::configuration::MonitorConfigView| c.settings),
        ModuleKind::Command => g.commands.map_values(|c: crate::configuration::CommandConfigView| c.settings),
        ModuleKind::Connector => g.connectors.map_values(|c: crate::configuration::ConnectorConfigView| c.settings),
    }
}

/// The settings of one module; none for a module the group lacks.
pub open spec fn module_settings(g: ConfigGroupView, kind: ModuleKind, module_id: Seq<char>) -> Map<Seq<char>, Seq<char>> {
    let all = settings_by_module(g, kind);
    if all.contains_key(module_id) {
        all[module_id]
    } else {
        Map::empty()
    }
}

/// The keys of the settings the dialog shows, in order.
pub open spec fn setting_keys(settings: Seq<ModuleSetting>) -> Seq<Seq<char>> {
    settings.map_values(|m: ModuleSetting| m.key@)
}

/// The settings map of a module in `modules`, if the module is there.
fn find_settings<'a, T: HasSettings>(modules: &'a KeyedList<T>, module_id: &str) -> (r: Option<&'a KeyedList<String>>)
    ensures
        r is Some == modules@.contains_key(module_id@),
        r matches Some(s) ==> s@ == T::settings_view(modules@[module_id@]),
{
    match modules.get(module_id) {
        Some(m) => Some(m.settings_list()),
        None => None,
    }
}

/// The ids of `modules`, by lowercase form.
fn ids_by_lowercase<T: View>(modules: &KeyedList<T>) -> (r: Vec<String>)
    ensures
        sorted_by(views_of(r@), lowercase_order()),
        views_of(r@).no_duplicates(),
        forall|k: Seq<char>| #[trigger] views_of(r@).contains(k) <==> modules@.contains_key(k),
{
    let keys = modules.key_list();
    let _n = modules.len();
    proof {
        lemma_sorted_no_duplicates(views_of(keys@));
        lemma_keyed_leq_total(|s: Seq<char>| crate::text::spec_to_lowercase(s));
        lemma_sort_keeps_elements(views_of(keys@), lowercase_order());
    }
    sort_by_lowercase(&keys)
}

impl ConfigEditor {
    /// Ids of a group's modules of a kind, by lowercase form; none for an
    /// unknown group.
    pub fn group_module_ids(&self, group_name: &str, kind: ModuleKind) -> (r: Vec<String>)
        ensures
            sorted_by(views_of(r@), lowercase_order()),
            views_of(r@).no_duplicates(),
            forall|k: Seq<char>| #[trigger] views_of(r@).contains(k) <==> settings_by_module(
                group_or_default(self.groups_config.groups@, group_name@),
                kind,
            ).contains_key(k),
    {
        match self.groups_config.groups.get(group_name) {
            Some(g) => match kind {
                ModuleKind::Monitor => ids_by_lowercase(&g.monitors),
                ModuleKind::Command => ids_by_lowercase(&g.commands),
                ModuleKind::Connector => ids_by_lowercase(&g.connectors),
            },
            None => {
                let empty: KeyedList<MonitorConfig> = KeyedList::new();
                ids_by_lowercase(&empty)
            },
        }
    }
}

/// What the dialog shows for the setting `key` of a module whose settings
/// are `settings` and whose description of the setting is `description`.
pub open spec fn shown_setting(m: ModuleSetting, settings: Map<Seq<char>, Seq<char>>, description: Seq<char>) -> bool {
    &&& m.description@ == description
    &&& m.enabled == settings.contains_key(m.key@)
    &&& m.value@ == if settings.contains_key(m.key@) { settings[m.key@] } else { Seq::empty() }
}

/// The settings of a module of a kind, given the map from module id to
/// settings and one id.
fn settings_of_kind<'a>(g: &'a ConfigGroup, kind: ModuleKind, module_id: &str) -> (r: Option<&'a KeyedList<String>>)
    ensures
        r is Some == settings_by_module(g@, kind).contains_key(module_id@),
        r matches Some(s) ==> s@ == settings_by_module(g@, kind)[module_id@],
{
    match kind {
        ModuleKind::Monitor => find_settings(&g.monitors, module_id),
        ModuleKind::Command => find_settings(&g.commands, module_id),
        ModuleKind::Connector => find_settings(&g.connectors, module_id),
    }
}

/// One dialog row per setting that the module offers (`descriptions`, by
/// setting key), by lowercase form of the key; each with the group's value,
/// or an empty one that is switched off where the group does not set it.
fn settings_rows(descriptions: &KeyedList<String>, settings: &KeyedList<String>) -> (r: Vec<ModuleSetting>)
    ensures
        sorted_by(setting_keys(r@), lowercase_order()),
        setting_keys(r@).no_duplicates(),
        forall|k: Seq<char>| #[trigger] setting_keys(r@).contains(k) <==> descriptions@.contains_key(k),
        forall|i: int| 0 <= i < r@.len() ==> shown_setting(#[trigger] r@[i], settings@, descriptions@[r@[i].key@]),
{
    let keys = ids_by_lowercase(descriptions);
    let ghost ks = views_of(keys@);
    let mut rows: Vec<ModuleSetting> = Vec::new();
    let mut i: usize = 0;
    while i < keys.len()
        invariant
            ks == views_of(keys@),
            forall|k: Seq<char>| #[trigger] ks.contains(k) <==> descriptions@.contains_key(k),
            i <= keys.len(),
            setting_keys(rows@) == ks.take(i as int),
            forall|j: int| 0 <= j < rows@.len() ==> shown_setting(#[trigger] rows@[j], settings@, descriptions@[rows@[j].key@]),
        decreases keys.len() - i,
    {
        let key = &keys[i];
        let description = match descriptions.get(key.as_str()) {
            Some(d) => d.clone(),
            None => String::new(),
        };
        let row = match settings.get(key.as_str()) {
            Some(v) => ModuleSetting { key: key.clone(), value: v.clone(), description, enabled: true },
            None => ModuleSetting { key: key.clone(), value: String::new(), description, enabled: false },
        };
        proof {
            assert(descriptions@.contains_key(key@)) by {
                assert(ks[i as int] == key@);
                assert(ks.contains(ks[i as int]));
            }
        }
        let ghost before = rows@;
        rows.push(row);
        assert(setting_keys(rows@) =~= setting_keys(before).push(key@));
        assert(ks.take(i + 1) =~= ks.take(i as int).push(ks[i as int]));
        i = i + 1;
    }
    assert(ks.take(keys.len() as int) =~= ks);
    rows
}

impl ConfigEditor {
    /// The settings of a group's module as the group dialog lists them: one
    /// row per setting the module offers (`descriptions`, by setting key),
    /// by lowercase form of the key, with the group's value where it sets
    /// one and switched off otherwise.
    pub fn group_module_settings(
        &self,
        group_name: &str,
        kind: ModuleKind,
        module_id: &str,
        descriptions: &KeyedList<String>,
    ) -> (r: Vec<ModuleSetting>)
        ensures
            sorted_by(setting_keys(r@), lowercase_order()),
            setting_keys(r@).no_duplicates(),
            forall|k: Seq<char>| #[trigger] setting_keys(r@).contains(k) <==> descriptions@.contains_key(k),
            forall|i: int| 0 <= i < r@.len() ==> shown_setting(
                #[trigger] r@[i],
                module_settings(group_or_default(self.groups_config.groups@, group_name@), kind, module_id@),
                descriptions@[r@[i].key@],
            ),
    {
        let found = match self.groups_config.groups.get(group_name) {
            Some(g) => settings_of_kind(g, kind, module_id),
            None => None,
        };
        match found {
            Some(settings) => settings_rows(descriptions, settings),
            None => {
                let empty: KeyedList<String> = KeyedList::new();
                proof {
                    let g = group_or_default(self.groups_config.groups@, group_name@);
                    assert(module_settings(g, kind, module_id@) =~= Map::<Seq<char>, Seq<char>>::empty());
                }
                settings_rows(descriptions, &empty)
            },
        }
    }
}

/// Ids of the modules of `all_ids` that are not among `selected`, in text
/// order.
pub fn unselected_module_ids(all_ids: &Vec<String>, selected: &Vec<String>) -> (r: Vec<String>)
    ensures
        views_of(r@) == texts_not_in(views_of(all_ids@), views_of(selected@)).sort_by(text_order()),
{
    let ghost all = views_of(all_ids@);
    let ghost excluded = views_of(selected@);
    let mut kept: Vec<String> = Vec::new();
    let mut i: usize = 0;
    while i < all_ids.len()
        invariant
            all == views_of(all_ids@),
            excluded == views_of(selected@),
            i <= all_ids.len(),
            views_of(kept@) == texts_not_in(all.take(i as int), excluded),
        decreases all_ids.len() - i,
    {
        assert(all.take(i + 1).drop_last() =~= all.take(i as int));
        assert(all.take(i + 1).last() == all_ids@[i as int]@);
        if !contains_text(selected, all_ids[i].as_str()) {
            let ghost before = views_of(kept@);
            kept.push(all_ids[i].clone());
            assert(views_of(kept@) =~= before.push(all_ids@[i as int]@));
        }
        i = i + 1;
    }
    assert(all.take(all_ids.len() as int) =~= all);
    sort_texts(&kept)
}

/// Rows that list `settings` as they are: every setting once, in key order,
/// switched on, without description.
pub open spec fn plain_rows(rows: Seq<ModuleSetting>, settings: Map<Seq<char>, Seq<char>>) -> bool {
    &&& sorted_keys(setting_keys(rows))
    &&& forall|k: Seq<char>| #[trigger] setting_keys(rows).contains(k) <==> settings.contains_key(k)
    &&& forall|i: int| 0 <= i < rows.len() ==> shown_setting(#[trigger] rows[i], settings, Seq::empty())
}

/// The rows of a module's own settings.
fn rows_of_settings(settings: &KeyedList<String>) -> (r: Vec<ModuleSetting>)
    ensures
        plain_rows(r@, settings@),
{
    let n = settings.len();
    let mut rows: Vec<ModuleSetting> = Vec::new();
    let mut i: usize = 0;
    while i < n
        invariant
            n == settings.keys().len(),
            settings.consistent(),
            i <= n,
            setting_keys(rows@) == settings.keys().take(i as int),
            forall|j: int| 0 <= j < rows@.len() ==> shown_setting(#[trigger] rows@[j], settings@, Seq::empty()),
        decreases n - i,
    {
        let key = settings.key_at(i);
        let value = settings.value_at(i);
        let row = ModuleSetting { key: key.clone(), value: value.clone(), description: String::new(), enabled: true };
        proof {
            assert(settings.keys().contains(key@));
            assert(settings@[settings.keys()[i as int]] == settings.vals()[i as int]);
        }
        let ghost before = rows@;
        rows.push(row);
        assert(setting_keys(rows@) =~= setting_keys(before).push(key@));
        assert(settings.keys().take(i + 1) =~= settings.keys().take(i as int).push(settings.keys()[i as int]));
        i = i + 1;
    }
    proof {
        assert(settings.keys().take(n as int) =~= settings.keys());
        assert forall|i: int, j: int| 0 <= i < j < setting_keys(rows@).len() implies crate::text::text_less(
            #[trigger] setting_keys(rows@)[i],
            #[trigger] setting_keys(rows@)[j],
        ) by {
            assert(setting_keys(rows@)[i] == settings.keys()[i] && setting_keys(rows@)[j] == settings.keys()[j]);
        }
    }
    rows
}

/// The rows of every module of `modules`, by module id.
fn rows_by_module<T: HasSettings>(modules: &KeyedList<T>) -> (r: KeyedList<Vec<ModuleSetting>>)
    ensures
        r@.dom() == modules@.dom(),
        forall|m: Seq<char>| #[trigger] r@.contains_key(m) ==> plain_rows(r@[m], T::settings_view(modules@[m])),
{
    let n = modules.len();
    let mut r: KeyedList<Vec<ModuleSetting>> = KeyedList::new();
    let mut i: usize = 0;
    while i < n
        invariant
            n == modules.keys().len(),
            modules.consistent(),
            i <= n,
            forall|m: Seq<char>| #[trigger] r@.contains_key(m) <==> exists|j: int| 0 <= j < i && modules.keys()[j] == m,
            forall|m: Seq<char>| #[trigger] r@.contains_key(m) ==> plain_rows(r@[m], T::settings_view(modules@[m])),
        decreases n - i,
    {
        let id = modules.key_at(i);
        let module = modules.value_at(i);
        let rows = rows_of_settings(module.settings_list());
        proof {
            assert(modules@[modules.keys()[i as int]] == modules.vals()[i as int]);
        }
        r.insert(id.clone(), rows);
        proof {
            assert forall|m: Seq<char>| #[trigger] r@.contains_key(m) <==> exists|j: int| 0 <= j < i + 1 && modules.keys()[j] == m by {
                if m == id@ {
                    assert(modules.keys()[i as int] == m);
                }
            }
        }
        i = i + 1;
    }
    proof {
        assert forall|m: Seq<char>| #[trigger] r@.dom().contains(m) <==> modules@.dom().contains(m) by {
            if modules@.contains_key(m) {
                assert(modules.keys().contains(m));
                let j = modules.keys().index_of(m);
                assert(modules.keys()[j] == m);
            }
        }
        assert(r@.dom() =~= modules@.dom());
    }
    r
}

/// A host by name; an unknown host has the default settings.
pub open spec fn host_or_default(hosts: Map<Seq<char>, HostSettingsView>, name: Seq<char>) -> HostSettingsView {
    if hosts.contains_key(name) {
        hosts[name]
    } else {
        default_host_view()
    }
}

/// The configuration a host would have in the groups `groups`.
pub open spec fn effective_with_groups(editor: ConfigEditor, host_name: Seq<char>, groups: Seq<Seq<char>>) -> ConfigGroupView {
    effective_group_view(
        HostSettingsView { groups, ..host_or_default(editor.hosts_config.hosts@, host_name) },
        editor.groups_config.groups@,
    )
}

impl ConfigEditor {
    /// The settings of each module of a kind that a host would get in the
    /// groups `group_list`, as the dialog lists them: by module id, each
    /// module's settings in key order.
    pub fn effective_module_settings(&self, host_name: &str, group_list: &Vec<String>, kind: ModuleKind) -> (r: KeyedList<
        Vec<ModuleSetting>,
    >)
        ensures
            r@.dom() == settings_by_module(effective_with_groups(*self, host_name@, views_of(group_list@)), kind).dom(),
            forall|m: Seq<char>| #[trigger] r@.contains_key(m) ==> plain_rows(
                r@[m],
                settings_by_module(effective_with_groups(*self, host_name@, views_of(group_list@)), kind)[m],
            ),
    {
        let mut host = match self.hosts_config.hosts.get(host_name) {
            Some(h) => h.deep_copy(),
            None => HostSettings::new_default(),
        };
        host.groups = deep_copy_vec(group_list);
        let ghost h0 = host_or_default(self.hosts_config.hosts@, host_name@);
        assert(host@ == HostSettingsView { groups: views_of(group_list@), ..h0 });
        let effective = Configuration::get_effective_group_config(&host, &self.groups_config.groups);
        match kind {
            ModuleKind::Monitor => rows_by_module(&effective.monitors),
            ModuleKind::Command => rows_by_module(&effective.commands),
            ModuleKind::Connector => rows_by_module(&effective.connectors),
        }
    }
}

} // verus!
