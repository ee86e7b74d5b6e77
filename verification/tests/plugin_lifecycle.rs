use lexwisp::actions::{ActionDescriptor, ManagedPluginStatus, ManagedPluginSummary, PluginDescriptor, PluginKind};
use lexwisp::plugin::{ActionId, Capability, PluginId};
use lexwisp::plugin_lifecycle::{
    check_unchanged, managed_directory, plan_confirm, plan_enable, preview_import, registry_reserves,
    reuses_installed, startup_step, EnableStep, PackageOffer, StartupStep,
};

fn id() -> PluginId {
    PluginId::parse("org.example.tools").expect("plugin ID")
}

fn installed(status: ManagedPluginStatus) -> ManagedPluginSummary {
    ManagedPluginSummary {
        kind: PluginKind::Script,
        id: id(),
        name: "Tools".into(),
        version: "1.0.0".into(),
        source_path: "C:/src/tools".into(),
        install_path: "C:/plugins/org.example.tools/1.0.0-0123456789ab".into(),
        package_hash: "0123456789abcdef".into(),
        generation: 4,
        status,
        granted_capabilities: vec![Capability::AiInvoke],
        actions: vec!["Run".into()],
        last_error: Some("old failure".into()),
    }
}

fn offer(hash: &str) -> PackageOffer {
    PackageOffer {
        plugin: PluginDescriptor::new(id(), "Tools".into(), vec![Capability::AiInvoke, Capability::NetworkRequest]),
        version: "1.1.0".into(),
        kind: PluginKind::Script,
        package_hash: hash.into(),
        network_scopes: vec!["https://api.example.com:443 GET /".into()],
        action_names: vec!["Run".into(), "Summarize".into()],
    }
}

#[test]
fn enabling_and_disabling_change_the_stored_record() {
    assert!(matches!(plan_enable(None, &id(), true, 3), Err(m) if m == "plugin 'org.example.tools' is not installed"));
    let enabled = installed(ManagedPluginStatus::Enabled);
    assert!(matches!(plan_enable(Some(&enabled), &id(), true, 3), Ok(EnableStep::Unchanged)));
    match plan_enable(Some(&enabled), &id(), false, 3) {
        Ok(EnableStep::Disable(d)) => {
            assert_eq!(d.status, ManagedPluginStatus::Disabled);
            assert_eq!(d.generation, 4);
            assert_eq!(d.last_error.as_deref(), Some("old failure"));
        }
        _ => panic!("disabling an enabled plugin"),
    }
    let faulted = installed(ManagedPluginStatus::Faulted);
    match plan_enable(Some(&faulted), &id(), true, u64::MAX) {
        Ok(EnableStep::Enable(d)) => {
            assert_eq!(d.status, ManagedPluginStatus::Enabled);
            assert_eq!(d.generation, u64::MAX);
            assert!(d.last_error.is_none());
            assert_eq!(d.name, "Tools");
        }
        _ => panic!("enabling a faulted plugin"),
    }
    assert!(check_unchanged("abc", "abc").is_ok());
    assert_eq!(
        check_unchanged("abc", "abd").unwrap_err(),
        "managed files changed; choose Reload to preview and confirm them"
    );
}

#[test]
fn startup_restores_only_unchanged_enabled_packages() {
    assert!(matches!(startup_step(false, Err("missing"), "h"), StartupStep::KeepDisabled));
    assert!(matches!(startup_step(true, Ok("h"), "h"), StartupStep::Activate));
    assert!(matches!(
        startup_step(true, Ok("g"), "h"),
        StartupStep::Fault(m) if m == "managed package content changed; choose Reload to review it"
    ));
    assert!(matches!(startup_step(true, Err("no manifest"), "h"), StartupStep::Fault(m) if m == "no manifest"));
}

#[test]
fn previews_show_added_capabilities_and_the_replaced_version() {
    let current = installed(ManagedPluginStatus::Enabled);
    let preview = preview_import("t1".into(), offer("fedcba9876543210"), "C:/src/tools".into(), Some(&current), false)
        .expect("an update");
    assert_eq!(preview.token, "t1");
    assert_eq!(preview.version, "1.1.0");
    assert_eq!(preview.requested_capabilities, vec![Capability::AiInvoke, Capability::NetworkRequest]);
    assert_eq!(preview.added_capabilities, vec![Capability::NetworkRequest]);
    assert_eq!(preview.replaces_version.as_deref(), Some("1.0.0"));
    assert_eq!(preview.actions, vec!["Run".to_string(), "Summarize".to_string()]);

    let fresh = preview_import("t2".into(), offer("fedcba9876543210"), "C:/src/tools".into(), None, false)
        .expect("a new plugin");
    assert_eq!(fresh.added_capabilities, fresh.requested_capabilities);
    assert!(fresh.replaces_version.is_none());
}

#[test]
fn previews_refuse_reserved_ids_and_duplicate_packages() {
    assert_eq!(
        preview_import("t".into(), offer("h"), "C:/src".into(), None, true).unwrap_err(),
        "plugin ID 'org.example.tools' is reserved by an existing package"
    );
    let current = installed(ManagedPluginStatus::Enabled);
    assert_eq!(
        preview_import("t".into(), offer("0123456789abcdef"), "C:/elsewhere".into(), Some(&current), false).unwrap_err(),
        "this exact plugin package is already installed"
    );
    let plugins = vec![PluginDescriptor::new(id(), "Tools".into(), Vec::new())];
    assert!(registry_reserves(&plugins, &id()));
    assert!(!registry_reserves(&plugins, &PluginId::parse("org.example.other").expect("ID")));
}

#[test]
fn packages_are_kept_by_version_and_short_hash() {
    assert_eq!(managed_directory("1.1.0", "fedcba9876543210ffff"), "1.1.0-fedcba987654");
    let current = installed(ManagedPluginStatus::Enabled);
    assert!(reuses_installed(Some(&current), "0123456789abcdef", "C:/plugins/org.example.tools/1.0.0-0123456789ab"));
    assert!(!reuses_installed(Some(&current), "0123456789abcdef", "C:/plugins/other"));
    assert!(!reuses_installed(None, "0123456789abcdef", "x"));
}

#[test]
fn confirming_an_import_plans_the_record_and_the_cleanup() {
    let plugin = PluginDescriptor::new(id(), "Tools".into(), vec![Capability::AiInvoke]);
    let actions = vec![
        ActionDescriptor::new(id(), ActionId::parse("run").expect("action ID"), "Run".into()),
        ActionDescriptor::new(id(), ActionId::parse("sum").expect("action ID"), "Summarize".into()),
    ];
    let old = installed(ManagedPluginStatus::Enabled);
    let target = "C:/plugins/org.example.tools/1.1.0-fedcba987654";

    assert!(matches!(
        plan_confirm(Some(&old), true, PluginKind::Script, &plugin, "1.1.0", &actions, "fedcba9876543210", "C:/src/tools", target, 7),
        Err(m) if m == "the managed destination already exists"
    ));

    let plan = plan_confirm(Some(&old), false, PluginKind::Script, &plugin, "1.1.0", &actions, "fedcba9876543210", "C:/src/tools", target, 7)
        .expect("a new destination");
    assert!(!plan.reuse_existing && plan.replacing);
    assert_eq!(plan.generation, 8);
    assert_eq!(plan.remove_old_files.as_deref(), Some("C:/plugins/org.example.tools/1.0.0-0123456789ab"));
    assert_eq!(plan.record.install_path, target);
    assert_eq!(plan.record.version, "1.1.0");
    assert_eq!(plan.record.status, ManagedPluginStatus::Enabled);
    assert_eq!(plan.record.actions, ["Run", "Summarize"]);
    assert_eq!(plan.record.granted_capabilities, [Capability::AiInvoke]);
    assert!(plan.record.last_error.is_none());

    let same = plan_confirm(Some(&old), true, PluginKind::Script, &plugin, "1.0.0", &actions, "0123456789abcdef", "C:/src/tools", &old.install_path, u64::MAX)
        .expect("the same package reuses its files");
    assert!(same.reuse_existing && same.remove_old_files.is_none());
    assert_eq!(same.generation, u64::MAX);

    let fresh = plan_confirm(None, false, PluginKind::Script, &plugin, "1.1.0", &actions, "fedcba9876543210", "C:/src/tools", target, 0)
        .expect("first install");
    assert!(!fresh.replacing && fresh.remove_old_files.is_none());
    assert_eq!(fresh.generation, 1);
}

#[test]
fn install_paths_are_compared_by_their_components() {
    let mut current = installed(ManagedPluginStatus::Enabled);
    current.install_path = "plugins/org.example.tools/1.0.0-0123456789ab".into();
    assert!(reuses_installed(Some(&current), "0123456789abcdef", "plugins/org.example.tools/1.0.0-0123456789ab/"));
    assert!(reuses_installed(Some(&current), "0123456789abcdef", "plugins/./org.example.tools//1.0.0-0123456789ab"));
    assert!(!reuses_installed(Some(&current), "0123456789abcdef", "plugins/org.example.tools/1.1.0-0123456789ab"));
    assert!(preview_import(
        "t".into(),
        offer("0123456789abcdef"),
        "plugins/org.example.tools/1.0.0-0123456789ab/".into(),
        Some(&current),
        false
    )
    .is_ok());
}

#[test]
fn activation_covers_every_action_at_the_planned_generation() {
    assert_eq!(lexwisp::plugin_lifecycle::check_activation_size(2, 2, 2), Ok(()));
    assert_eq!(
        lexwisp::plugin_lifecycle::check_activation_size(1, 2, 2),
        Err("script runtime returned an incomplete action activation".to_string())
    );
    let mut registry: lexwisp::registry::PluginRegistry<()> = lexwisp::registry::PluginRegistry::new();
    let plugin = || PluginDescriptor::new(id(), "Tools".into(), Vec::new());
    let action = || ActionDescriptor::new(id(), ActionId::parse("run").expect("action ID"), "Run".into());
    assert_eq!(
        lexwisp::plugin_lifecycle::register_activation(&mut registry, plugin(), vec![(action(), ())], 5),
        Err("plugin registry generation changed during activation".to_string())
    );
    assert_eq!(registry.generation(), 1);
    assert_eq!(
        lexwisp::plugin_lifecycle::register_activation(&mut registry, plugin(), vec![(action(), ())], 2),
        Err("plugin 'org.example.tools' is already registered".to_string())
    );
    let other = PluginId::parse("org.example.other").expect("plugin ID");
    assert_eq!(
        lexwisp::plugin_lifecycle::register_activation(
            &mut registry,
            PluginDescriptor::new(other.clone(), "Other".into(), Vec::new()),
            vec![(ActionDescriptor::new(other, ActionId::parse("go").expect("action ID"), "Go".into()), ())],
            2
        ),
        Ok(())
    );
}

#[test]
fn a_failed_confirmation_is_undone() {
    let plugin = PluginDescriptor::new(id(), "Tools".into(), vec![Capability::AiInvoke]);
    let actions = vec![ActionDescriptor::new(id(), ActionId::parse("run").expect("action ID"), "Run".into())];
    let old = installed(ManagedPluginStatus::Enabled);
    let target = "C:/plugins/org.example.tools/1.1.0-fedcba987654";
    let plan = plan_confirm(Some(&old), false, PluginKind::Script, &plugin, "1.1.0", &actions, "fedcba9876543210", "C:/src/tools", target, 7)
        .expect("plans");
    let back = lexwisp::plugin_lifecycle::plan_rollback(Some(&old), &plan);
    assert_eq!(back.restore.expect("the old record").version, "1.0.0");
    assert!(!back.remove_record);
    assert!(matches!(back.cleanup, lexwisp::plugin_lifecycle::FilesCleanup::Managed(p) if p == target));
    let fresh = plan_confirm(None, false, PluginKind::Script, &plugin, "1.1.0", &actions, "fedcba9876543210", "C:/src/tools", target, 7)
        .expect("plans");
    let back = lexwisp::plugin_lifecycle::plan_rollback(None, &fresh);
    assert!(back.restore.is_none() && back.remove_record);
}

#[test]
fn each_registered_action_keeps_its_own_handler() {
    let mut registry: lexwisp::registry::PluginRegistry<u32> = lexwisp::registry::PluginRegistry::new();
    let run = ActionId::parse("run").expect("action ID");
    let sum = ActionId::parse("sum").expect("action ID");
    let registrations = vec![
        (ActionDescriptor::new(id(), run.clone(), "Run".into()), 1),
        (ActionDescriptor::new(id(), sum.clone(), "Summarize".into()), 2),
    ];
    assert_eq!(
        lexwisp::plugin_lifecycle::register_activation(
            &mut registry,
            PluginDescriptor::new(id(), "Tools".into(), Vec::new()),
            registrations,
            1
        ),
        Ok(())
    );
    assert_eq!(registry.handler(&run), Some(&1));
    assert_eq!(registry.handler(&sum), Some(&2));
}
