//! The decisions of installing, enabling and restoring plugins: what an
//! import preview shows and when it is refused, where a package is kept,
//! and how an installed plugin's record changes. Files, storage and the
//! registry are the caller's to change, as each decision says.
use vstd::prelude::*;

use crate::actions::{
    ActionDescriptor, DescriptorView, ManagedPluginStatus, ManagedPluginSummary, PluginDescriptor, PluginImportPreview,
    PluginKind, PluginView,
};
use crate::packages::{added_capabilities, added_capabilities_of};
use crate::paths::{path_outcome, same_path};
use crate::registry::{entries_descriptors, next_generation, registration_problem, registry_error_text, PluginRegistry, RegistryEventView, RegistryView};
use crate::plugin::{Capability, PluginId};
use crate::provider::{copy_opt, copy_strings, opt_view, strings_view};
use crate::text::{chars_of, concat, copy_string, str_eq, string_from_range};

verus! {

/// Copies a list of capabilities.
fn copy_capabilities(c: &[Capability]) -> (r: Vec<Capability>)
    ensures
        r@ == c@,
{
    let mut out: Vec<Capability> = Vec::new();
    let mut i: usize = 0;
    while i < c.len()
        invariant
            i <= c@.len(),
            out@ == c@.take(i as int),
        decreases c.len() - i,
    {
        out.push(c[i]);
        proof {
            assert(c@.take(i + 1) =~= c@.take(i as int).push(c@[i as int]));
        }
        i += 1;
    }
    assert(c@.take(i as int) =~= c@);
    out
}

/// Whether `s` is a copy of `t`.
pub open spec fn same_summary(s: ManagedPluginSummary, t: ManagedPluginSummary) -> bool {
    &&& s.kind == t.kind
    &&& s.id@ == t.id@
    &&& s.name@ == t.name@
    &&& s.version@ == t.version@
    &&& s.source_path@ == t.source_path@
    &&& s.install_path@ == t.install_path@
    &&& s.package_hash@ == t.package_hash@
    &&& s.generation == t.generation
    &&& s.status == t.status
    &&& s.granted_capabilities@ == t.granted_capabilities@
    &&& strings_view(s.actions@) == strings_view(t.actions@)
    &&& opt_view(s.last_error) == opt_view(t.last_error)
}

/// Copies a plugin summary.
pub fn copy_summary(s: &ManagedPluginSummary) -> (r: ManagedPluginSummary)
    ensures
        same_summary(r, *s),
{
    ManagedPluginSummary {
        kind: s.kind,
        id: s.id.clone(),
        name: copy_string(&s.name),
        version: copy_string(&s.version),
        source_path: copy_string(&s.source_path),
        install_path: copy_string(&s.install_path),
        package_hash: copy_string(&s.package_hash),
        generation: s.generation,
        status: s.status,
        granted_capabilities: copy_capabilities(s.granted_capabilities.as_slice()),
        actions: copy_strings(&s.actions),
        last_error: copy_opt(&s.last_error),
    }
}

/// One more, saturating.
pub open spec fn following(g: u64) -> u64 {
    if g == u64::MAX {
        g
    } else {
        (g + 1) as u64
    }
}

/// One more, saturating.
fn following_generation(g: u64) -> (r: u64)
    ensures
        r == following(g),
{
    if g == u64::MAX {
        g
    } else {
        g + 1
    }
}

/// Why a plugin that is not installed cannot be changed.
pub open spec fn not_installed_text(id: Seq<char>) -> Seq<char> {
    "plugin '"@ + id + "' is not installed"@
}

/// Why a plugin that is not installed cannot be changed.
pub fn not_installed(id: &PluginId) -> (r: String)
    ensures
        r@ == not_installed_text(id@),
{
    let head = concat("plugin '", id.as_str());
    concat(head.as_str(), "' is not installed")
}

/// What moving a plugin's enable switch does.
pub enum EnableStep {
    /// The plugin already is as asked.
    Unchanged,
    /// Store this record and take the plugin's actions out.
    Disable(ManagedPluginSummary),
    /// Store this record and activate the package, once its files are
    /// found unchanged.
    Enable(ManagedPluginSummary),
}

/// What moving the enable switch of the installed plugin `installed` to
/// `enabled` does, the registry at `registry_generation`.
pub fn plan_enable(
    installed: Option<&ManagedPluginSummary>,
    id: &PluginId,
    enabled: bool,
    registry_generation: u64,
) -> (r: Result<EnableStep, String>)
    ensures
        match installed {
            None => r matches Err(m) && m@ == not_installed_text(id@),
            Some(s) => if enabled == (s.status == ManagedPluginStatus::Enabled) {
                r matches Ok(EnableStep::Unchanged)
            } else if !enabled {
                r matches Ok(EnableStep::Disable(d)) && same_summary(
                    d,
                    ManagedPluginSummary {
                        status: ManagedPluginStatus::Disabled,
                        generation: following(registry_generation),
                        ..*s
                    },
                )
            } else {
                r matches Ok(EnableStep::Enable(d)) && same_summary(
                    d,
                    ManagedPluginSummary {
                        status: ManagedPluginStatus::Enabled,
                        generation: following(registry_generation),
                        last_error: None,
                        ..*s
                    },
                )
            },
        },
{
    let s = match installed {
        None => {
            return Err(not_installed(id));
        },
        Some(s) => s,
    };
    if enabled == (s.status == ManagedPluginStatus::Enabled) {
        return Ok(EnableStep::Unchanged);
    }
    let mut d = copy_summary(s);
    d.generation = following_generation(registry_generation);
    if !enabled {
        d.status = ManagedPluginStatus::Disabled;
        Ok(EnableStep::Disable(d))
    } else {
        d.status = ManagedPluginStatus::Enabled;
        d.last_error = None;
        Ok(EnableStep::Enable(d))
    }
}

/// Refuses to enable a plugin whose managed files no longer hash to what
/// was installed.
pub fn check_unchanged(found_hash: &str, installed_hash: &str) -> (r: Result<(), String>)
    ensures
        r is Ok <==> found_hash@ == installed_hash@,
        r matches Err(m) ==> m@ == "managed files changed; choose Reload to preview and confirm them"@,
{
    if str_eq(found_hash, installed_hash) {
        Ok(())
    } else {
        Err("managed files changed; choose Reload to preview and confirm them".to_owned())
    }
}

/// What restoring an installed plugin at startup does.
#[derive(Debug)]
pub enum StartupStep {
    /// A disabled plugin stays as stored.
    KeepDisabled,
    /// Activate the package found on disk.
    Activate,
    /// The plugin is listed as faulted with this error.
    Fault(String),
}

/// What restoring a plugin at startup does: a disabled one stays; an
/// enabled one activates when its files are found and hash as stored, and
/// faults otherwise.
pub fn startup_step(enabled: bool, found: Result<&str, &str>, stored_hash: &str) -> (r: StartupStep)
    ensures
        !enabled ==> r is KeepDisabled,
        enabled ==> match found {
            Ok(h) => if h@ == stored_hash@ {
                r is Activate
            } else {
                r matches StartupStep::Fault(m) && m@
                    == "managed package content changed; choose Reload to review it"@
            },
            Err(e) => r matches StartupStep::Fault(m) && m@ == e@,
        },
{
    if !enabled {
        return StartupStep::KeepDisabled;
    }
    match found {
        Ok(h) => if str_eq(h, stored_hash) {
            StartupStep::Activate
        } else {
            StartupStep::Fault("managed package content changed; choose Reload to review it".to_owned())
        },
        Err(e) => StartupStep::Fault(e.to_owned()),
    }
}

/// Whether a registered plugin has the ID `id`.
pub fn registry_reserves(plugins: &Vec<PluginDescriptor>, id: &PluginId) -> (r: bool)
    ensures
        r == exists|k: int| 0 <= k < plugins@.len() && (#[trigger] plugins@[k])@.id == id@,
{
    let mut i: usize = 0;
    while i < plugins.len()
        invariant
            i <= plugins.len(),
            forall|k: int| 0 <= k < i ==> (#[trigger] plugins@[k])@.id != id@,
        decreases plugins.len() - i,
    {
        if plugins[i].id().same(id) {
            return true;
        }
        i += 1;
    }
    false
}

/// The installed record, if any.
pub open spec fn record_of(installed: Option<&ManagedPluginSummary>) -> Option<ManagedPluginSummary> {
    match installed {
        Some(s) => Some(*s),
        None => None,
    }
}

/// What comparing the installed plugin's path with `path` may give, as
/// `path_outcome` says; anything when nothing is installed.
pub open spec fn installed_path_outcome(installed: Option<ManagedPluginSummary>, path: Seq<char>, same: bool) -> bool {
    match installed {
        Some(s) => path_outcome(s.install_path@, path, same),
        None => true,
    }
}

/// Why an import is refused: the ID belongs to a package that is not
/// managed here, or the very same package is installed from elsewhere
/// (`same_place` tells whether its install path is the source path).
pub open spec fn import_refusal(
    installed: Option<ManagedPluginSummary>,
    reserved: bool,
    id: Seq<char>,
    package_hash: Seq<char>,
    same_place: bool,
) -> Option<Seq<char>> {
    match installed {
        None => if reserved {
            Some("plugin ID '"@ + id + "' is reserved by an existing package"@)
        } else {
            None
        },
        Some(s) => if s.package_hash@ == package_hash && !same_place {
            Some("this exact plugin package is already installed"@)
        } else {
            None
        },
    }
}

/// What a package offers to the import preview.
pub struct PackageOffer {
    pub plugin: PluginDescriptor,
    pub version: String,
    pub kind: PluginKind,
    pub package_hash: String,
    pub network_scopes: Vec<String>,
    pub action_names: Vec<String>,
}

/// The preview of importing `offer` from `source_path` under `token`, over
/// the installed plugin of its ID, if any; refused as `import_refusal` says,
/// the installed path compared with the source path by their components.
/// `reserved` says whether a package not managed here registers its ID.
pub fn preview_import(
    token: String,
    offer: PackageOffer,
    source_path: String,
    installed: Option<&ManagedPluginSummary>,
    reserved: bool,
) -> (r: Result<PluginImportPreview, String>)
    ensures
        ({
            exists|same: bool| #[trigger] installed_path_outcome(record_of(installed), source_path@, same) && match import_refusal(
                record_of(installed),
                reserved,
                offer.plugin@.id,
                offer.package_hash@,
                same,
            ) {
                Some(m) => r matches Err(e) && e@ == m,
                None => r matches Ok(p) && {
                    &&& p.token@ == token@
                    &&& p.id@ == offer.plugin@.id
                    &&& p.name@ == offer.plugin@.display_name
                    &&& p.version@ == offer.version@
                    &&& p.kind == offer.kind
                    &&& p.source_path@ == source_path@
                    &&& p.package_hash@ == offer.package_hash@
                    &&& p.requested_capabilities@ == offer.plugin@.requested_capabilities
                    &&& p.added_capabilities@ == added_capabilities_of(
                        offer.plugin@.requested_capabilities,
                        match installed {
                            Some(s) => s.granted_capabilities@,
                            None => Seq::empty(),
                        },
                    )
                    &&& strings_view(p.network_scopes@) == strings_view(offer.network_scopes@)
                    &&& strings_view(p.actions@) == strings_view(offer.action_names@)
                    &&& opt_view(p.replaces_version) == match installed {
                        Some(s) => Some(s.version@),
                        None => None,
                    }
                },
            }
        }),
{
    let id = offer.plugin.id().clone();
    let same = match installed {
        Some(s) => same_path(s.install_path.as_str(), source_path.as_str()),
        None => true,
    };
    assert(installed_path_outcome(record_of(installed), source_path@, same));
    match installed {
        None => if reserved {
            let head = concat("plugin ID '", id.as_str());
            return Err(concat(head.as_str(), "' is reserved by an existing package"));
        },
        Some(s) => if str_eq(s.package_hash.as_str(), offer.package_hash.as_str()) && !same {
            return Err("this exact plugin package is already installed".to_owned());
        },
    }
    let requested = copy_capabilities(offer.plugin.requested_capabilities());
    let none: Vec<Capability> = Vec::new();
    let added = match installed {
        Some(s) => added_capabilities(offer.plugin.requested_capabilities(), s.granted_capabilities.as_slice()),
        None => added_capabilities(offer.plugin.requested_capabilities(), none.as_slice()),
    };
    Ok(
        PluginImportPreview {
            token,
            id,
            name: offer.plugin.display_name().to_owned(),
            version: offer.version,
            kind: offer.kind,
            source_path,
            package_hash: offer.package_hash,
            requested_capabilities: requested,
            added_capabilities: added,
            network_scopes: offer.network_scopes,
            actions: offer.action_names,
            replaces_version: match installed {
                Some(s) => Some(copy_string(&s.version)),
                None => None,
            },
        },
    )
}

/// The directory a package is kept in under its plugin's directory: its
/// version and the first 12 characters of its hash.
pub open spec fn managed_directory_text(version: Seq<char>, package_hash: Seq<char>) -> Seq<char> {
    version + "-"@ + package_hash.take(12)
}

/// The directory a package is kept in under its plugin's directory.
pub fn managed_directory(version: &str, package_hash: &str) -> (r: String)
    requires
        package_hash@.len() >= 12,
    ensures
        r@ == managed_directory_text(version@, package_hash@),
{
    let hv = chars_of(package_hash);
    let short = string_from_range(&hv, 0, 12);
    let head = concat(version, "-");
    let r = concat(head.as_str(), short.as_str());
    assert(r@ =~= managed_directory_text(version@, package_hash@));
    r
}

/// Whether confirming an import reuses the files already installed: the
/// same package at the same place, the paths compared by their
/// components.
pub fn reuses_installed(installed: Option<&ManagedPluginSummary>, package_hash: &str, final_path: &str) -> (r: bool)
    ensures
        exists|same: bool| #[trigger] installed_path_outcome(
            record_of(installed),
            final_path@,
            same,
        ) && r == (installed matches Some(s) && s.package_hash@ == package_hash@ && same),
{
    match installed {
        Some(s) => {
            let same = same_path(s.install_path.as_str(), final_path);
            assert(installed_path_outcome(Some(*s), final_path@, same));
            str_eq(s.package_hash.as_str(), package_hash) && same
        },
        None => {
            assert(installed_path_outcome(None, final_path@, false));
            false
        },
    }
}


/// Whether `s` records the package `plugin` of `kind` and `version`, with
/// `actions`, installed from `source` at `install` as `hash` in
/// `generation`: enabled, granted what it asks for, with no error.
pub open spec fn records_install(
    s: ManagedPluginSummary,
    kind: PluginKind,
    plugin: PluginView,
    version: Seq<char>,
    actions: Seq<DescriptorView>,
    source: Seq<char>,
    install: Seq<char>,
    hash: Seq<char>,
    generation: u64,
) -> bool {
    &&& s.kind == kind
    &&& s.id@ == plugin.id
    &&& s.name@ == plugin.display_name
    &&& s.version@ == version
    &&& s.source_path@ == source
    &&& s.install_path@ == install
    &&& s.package_hash@ == hash
    &&& s.generation == generation
    &&& s.status == ManagedPluginStatus::Enabled
    &&& s.granted_capabilities@ == plugin.requested_capabilities
    &&& strings_view(s.actions@) == actions.map_values(|d: DescriptorView| d.display_name)
    &&& s.last_error is None
}

/// The record of a package just installed: enabled, granted the
/// capabilities it asks for, listing its actions by name.
pub fn installed_summary(
    kind: PluginKind,
    plugin: &PluginDescriptor,
    version: &str,
    actions: &Vec<ActionDescriptor>,
    source_path: &str,
    install_path: &str,
    package_hash: &str,
    generation: u64,
) -> (r: ManagedPluginSummary)
    ensures
        records_install(
            r,
            kind,
            plugin@,
            version@,
            crate::actions::descriptors_view(actions@),
            source_path@,
            install_path@,
            package_hash@,
            generation,
        ),
{
    let ghost dv = crate::actions::descriptors_view(actions@);
    let mut names: Vec<String> = Vec::new();
    let mut i: usize = 0;
    while i < actions.len()
        invariant
            i <= actions@.len(),
            dv == crate::actions::descriptors_view(actions@),
            strings_view(names@) == dv.take(i as int).map_values(|d: DescriptorView| d.display_name),
        decreases actions.len() - i,
    {
        let ghost before = names@;
        names.push(actions[i].display_name().to_owned());
        proof {
            assert(dv.take(i + 1) =~= dv.take(i as int).push(dv[i as int]));
            assert(strings_view(names@) =~= strings_view(before).push(actions@[i as int]@.display_name));
            assert(dv.take(i + 1).map_values(|d: DescriptorView| d.display_name) =~= dv.take(i as int).map_values(
                |d: DescriptorView| d.display_name,
            ).push(dv[i as int].display_name));
        }
        i += 1;
    }
    assert(dv.take(i as int) =~= dv);
    ManagedPluginSummary {
        kind,
        id: plugin.id().clone(),
        name: plugin.display_name().to_owned(),
        version: version.to_owned(),
        source_path: source_path.to_owned(),
        install_path: install_path.to_owned(),
        package_hash: package_hash.to_owned(),
        generation,
        status: ManagedPluginStatus::Enabled,
        granted_capabilities: copy_capabilities(plugin.requested_capabilities()),
        actions: names,
        last_error: None,
    }
}

/// What confirming an import does, once its files are in place: whether
/// the installed files are reused, the generation the package gets, the
/// record to save, whether it replaces an installed plugin, and the old
/// files to remove afterwards.
pub struct ConfirmPlan {
    pub reuse_existing: bool,
    pub generation: u64,
    pub record: ManagedPluginSummary,
    pub replacing: bool,
    pub remove_old_files: Option<String>,
}

/// Plans confirming the import of `plugin` (of `kind`, `version` and
/// `actions`) from `source_path` into `final_path` as `package_hash`, where
/// `installed` is the plugin's current record and `destination_exists`
/// tells whether `final_path` is taken. Refused when the destination is
/// taken by anything but the same package.
pub fn plan_confirm(
    installed: Option<&ManagedPluginSummary>,
    destination_exists: bool,
    kind: PluginKind,
    plugin: &PluginDescriptor,
    version: &str,
    actions: &Vec<ActionDescriptor>,
    package_hash: &str,
    source_path: &str,
    final_path: &str,
    registry_generation: u64,
) -> (r: Result<ConfirmPlan, String>)
    ensures
        exists|same: bool| #[trigger] installed_path_outcome(
            record_of(installed),
            final_path@,
            same,
        ) && ({
            let reuse = installed matches Some(s) && s.package_hash@ == package_hash@ && same;
            let generation = if registry_generation == u64::MAX {
                u64::MAX
            } else {
                (registry_generation + 1) as u64
            };
            if destination_exists && !reuse {
                r matches Err(e) && e@ == "the managed destination already exists"@
            } else {
                r matches Ok(p) && {
                    &&& p.reuse_existing == reuse
                    &&& p.generation == generation
                    &&& records_install(
                        p.record,
                        kind,
                        plugin@,
                        version@,
                        crate::actions::descriptors_view(actions@),
                        source_path@,
                        final_path@,
                        package_hash@,
                        generation,
                    )
                    &&& p.replacing == installed is Some
                    &&& match installed {
                        Some(s) => if !same {
                            p.remove_old_files matches Some(x) && x@ == s.install_path@
                        } else {
                            p.remove_old_files is None
                        },
                        None => p.remove_old_files is None,
                    }
                }
            }
        }),
{
    let same = match installed {
        Some(s) => same_path(s.install_path.as_str(), final_path),
        None => true,
    };
    assert(installed_path_outcome(record_of(installed), final_path@, same));
    let reuse = match installed {
        Some(s) => str_eq(s.package_hash.as_str(), package_hash) && same,
        None => false,
    };
    if destination_exists && !reuse {
        return Err("the managed destination already exists".to_string());
    }
    let generation = registry_generation.saturating_add(1);
    let record = installed_summary(
        kind,
        plugin,
        version,
        actions,
        source_path,
        final_path,
        package_hash,
        generation,
    );
    let remove_old_files = match installed {
        Some(s) => if same {
            None
        } else {
            Some(copy_string(&s.install_path))
        },
        None => None,
    };
    Ok(ConfirmPlan { reuse_existing: reuse, generation, record, replacing: installed.is_some(), remove_old_files })
}


/// Refuses a script runtime's activation that does not give one handler
/// and one controller for each of the package's `actions`.
pub fn check_activation_size(handlers: usize, controllers: usize, actions: usize) -> (r: Result<(), String>)
    ensures
        r is Ok <==> (handlers == actions && controllers == actions),
        r matches Err(m) ==> m@ == "script runtime returned an incomplete action activation"@,
{
    if handlers != actions || controllers != actions {
        Err("script runtime returned an incomplete action activation".to_string())
    } else {
        Ok(())
    }
}

/// Registers an activated package `plugin` with its `registrations`,
/// expecting the registry to reach the generation `expected` that the
/// install was planned with: the registry's refusal as text, or a refusal
/// when the registry reached another generation (the package stays
/// registered then).
pub fn register_activation<H>(
    registry: &mut PluginRegistry<H>,
    plugin: PluginDescriptor,
    registrations: Vec<(ActionDescriptor, H)>,
    expected: u64,
) -> (r: Result<(), String>)
    requires
        old(registry).well_formed(),
    ensures
        final(registry).well_formed(),
        match registration_problem(
            old(registry)@.plugins,
            old(registry)@.actions,
            plugin@,
            entries_descriptors(registrations@),
        ) {
            Some(e) => (r matches Err(m) && m@ == registry_error_text(e)) && final(registry)@ == old(registry)@
                && final(registry).events() == old(registry).events() && final(registry).handlers() == old(
                registry,
            ).handlers(),
            None => final(registry)@ == (RegistryView {
                generation: next_generation(old(registry)@.generation),
                plugins: old(registry)@.plugins.push(plugin@),
                actions: old(registry)@.actions + entries_descriptors(registrations@),
            }) && final(registry).events() == old(registry).events().push(
                RegistryEventView::PackageRegistered {
                    plugin_id: plugin@.id,
                    generation: next_generation(old(registry)@.generation),
                },
            ) && final(registry).handlers() == old(registry).handlers() + registrations@.map_values(
                |e: (ActionDescriptor, H)| e.1,
            ) && if next_generation(old(registry)@.generation) == expected {
                r is Ok
            } else {
                r matches Err(m) && m@ == "plugin registry generation changed during activation"@
            },
        },
{
    match registry.register_package(plugin, registrations) {
        Err(e) => Err(e.to_string()),
        Ok(actual) => if actual != expected {
            Err("plugin registry generation changed during activation".to_string())
        } else {
            Ok(())
        },
    }
}


/// Which files to remove when confirming an import fails.
pub enum FilesCleanup {
    /// The staged copy, when the installed files were being reused.
    Staging,
    /// The files moved to this managed directory.
    Managed(String),
}

/// How a failed confirmation is undone: the record to save again (the
/// plugin's previous one), whether to remove the new record instead, and
/// the files to remove.
pub struct Rollback {
    pub restore: Option<ManagedPluginSummary>,
    pub remove_record: bool,
    pub cleanup: FilesCleanup,
}

/// How to undo confirming `plan` when activating the package fails, where
/// `installed` was the plugin's record before: the previous record and its
/// grants come back, or the new record goes when there was none; the staged
/// copy goes when the installed files were reused, else the managed files.
pub fn plan_rollback(installed: Option<&ManagedPluginSummary>, plan: &ConfirmPlan) -> (r: Rollback)
    ensures
        match installed {
            Some(s) => r.restore matches Some(x) && same_summary(x, *s) && !r.remove_record,
            None => r.restore is None && r.remove_record,
        },
        if plan.reuse_existing {
            r.cleanup is Staging
        } else {
            r.cleanup matches FilesCleanup::Managed(p) && p@ == plan.record.install_path@
        },
{
    let cleanup = if plan.reuse_existing {
        FilesCleanup::Staging
    } else {
        FilesCleanup::Managed(copy_string(&plan.record.install_path))
    };
    match installed {
        Some(s) => Rollback { restore: Some(copy_summary(s)), remove_record: false, cleanup },
        None => Rollback { restore: None, remove_record: true, cleanup },
    }
}

} // verus!
