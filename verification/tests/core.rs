use lexwisp::ids::ConversationId;
use lexwisp::plugin::{ActionId, Capability, PluginId, QualifiedActionId};
use lexwisp::settings::{AppSettings, DismissPolicy, LaunchMode, LaunchRoute, SettingsError};

#[test]
fn generated_ids_are_stable_uuid_strings() {
    let id = ConversationId::new();
    assert_eq!(ConversationId::parse(&id.to_string()), Ok(id));
}

#[test]
fn plugin_ids_require_reverse_dns_shape() {
    assert!(PluginId::parse("org.lexwisp.fixture").is_ok());
    assert!(PluginId::parse("Fixture").is_err());
    assert!(PluginId::parse("org..fixture").is_err());
}

#[test]
fn action_ids_are_stable_ascii_tokens() {
    assert!(ActionId::parse("open-settings").is_ok());
    assert!(ActionId::parse("Open Settings").is_err());
}

#[test]
fn default_settings_are_valid() {
    assert_eq!(AppSettings::default().validate(), Ok(()));
}

#[test]
fn excessive_popup_retention_is_rejected() {
    let settings = AppSettings::default().with_popup_retention_seconds(601);
    assert!(matches!(settings.validate(), Err(SettingsError::Invalid(_))));
}

#[test]
fn all_launch_modes_have_explicit_selection_and_no_selection_routes() {
    for mode in LaunchMode::ALL {
        let settings = AppSettings::default()
            .with_launch_mode(mode)
            .with_default_action_id(Some("org.lexwisp.polish/polish".into()));
        assert_eq!(settings.launch_route(false), LaunchRoute::QuickAsk);
        match mode {
            LaunchMode::ActionPalette => {
                assert_eq!(settings.launch_route(true), LaunchRoute::ActionPalette)
            }
            LaunchMode::TranslateSelection => assert_eq!(
                settings.launch_route(true),
                LaunchRoute::Automatic("org.lexwisp.translate/translate".into())
            ),
            LaunchMode::DefaultAction => assert_eq!(
                settings.launch_route(true),
                LaunchRoute::Automatic("org.lexwisp.polish/polish".into())
            ),
        }
    }
    assert_eq!(
        AppSettings::default()
            .with_launch_mode(LaunchMode::DefaultAction)
            .launch_route(true),
        LaunchRoute::MissingDefaultAction
    );
}

#[test]
fn parsed_uuid_keeps_its_text_and_bad_text_names_the_type() {
    let text = "67e55044-10b1-426f-9247-bb680e5fe0c8";
    assert_eq!(ConversationId::parse(text).unwrap().as_str(), text);
    let error = ConversationId::parse("not-a-uuid").unwrap_err();
    assert!(error.starts_with("invalid ConversationId: "));
    assert!(error.len() > "invalid ConversationId: ".len());
}

#[test]
fn plugin_id_errors_quote_the_rejected_text() {
    let error = PluginId::parse("Fixture").unwrap_err();
    assert_eq!(error.to_string(), "'Fixture' is not a valid reverse-DNS plugin ID");
    let error = ActionId::parse("Open Settings").unwrap_err();
    assert_eq!(error.to_string(), "'Open Settings' is not a valid action ID");
}

#[test]
fn qualified_action_ids_round_trip() {
    let id = QualifiedActionId::parse("org.lexwisp.polish/polish").unwrap();
    assert_eq!(id.plugin_id().as_str(), "org.lexwisp.polish");
    assert_eq!(id.action_id().as_str(), "polish");
    assert_eq!(id.to_string(), "org.lexwisp.polish/polish");
    assert!(QualifiedActionId::parse("org.lexwisp.polish").is_err());
}

#[test]
fn capability_names_round_trip_on_every_capability() {
    for name in [
        "ai.invoke",
        "network.request",
        "selection.read",
        "clipboard.read",
        "clipboard.write",
        "window.read",
        "storage.read",
        "storage.write",
    ] {
        let capability = Capability::parse_manifest(name).unwrap();
        assert_eq!(capability.manifest_name(), name);
    }
    assert_eq!(
        Capability::parse_manifest("disk.write").unwrap_err(),
        "unknown capability 'disk.write'"
    );
}

#[test]
fn the_data_directory_holds_the_settings_file() {
    let store = lexwisp::config::ConfigStore::at("LexWisp/settings.toml".to_string());
    assert_eq!(store.path(), "LexWisp/settings.toml");
    assert_eq!(store.data_directory().as_deref(), Some("LexWisp"));
    assert_eq!(
        lexwisp::config::ConfigStore::at("/home/u/LexWisp/settings.toml".to_string()).data_directory().as_deref(),
        Some("/home/u/LexWisp")
    );
}

#[test]
fn dismiss_overrides_read_back_what_was_written() {
    let base = AppSettings::default().with_dismiss_override("org.example.b/run", Some(DismissPolicy::Continue));
    let set = base.clone().with_dismiss_override("org.example.a/run", Some(DismissPolicy::Cancel));
    assert_eq!(set.dismiss_override("org.example.a/run"), Some(DismissPolicy::Cancel));
    assert_eq!(set.dismiss_override("org.example.b/run"), Some(DismissPolicy::Continue));
    let cleared = set.with_dismiss_override("org.example.a/run", None);
    assert_eq!(cleared.dismiss_override("org.example.a/run"), None);
    assert_eq!(cleared.dismiss_override("org.example.b/run"), Some(DismissPolicy::Continue));
}

#[test]
fn dismiss_overrides_are_kept_in_action_order() {
    let one = AppSettings::default()
        .with_dismiss_override("org.example.b/run", Some(DismissPolicy::Continue))
        .with_dismiss_override("org.example.a/run", Some(DismissPolicy::Cancel));
    let other = AppSettings::default()
        .with_dismiss_override("org.example.a/run", Some(DismissPolicy::Cancel))
        .with_dismiss_override("org.example.b/run", Some(DismissPolicy::Continue));
    assert!(one == other);
    let cleared = one.with_dismiss_override("org.example.b/run", None);
    assert!(cleared == AppSettings::default().with_dismiss_override("org.example.a/run", Some(DismissPolicy::Cancel)));
}

#[test]
fn the_data_directory_of_slash_paths() {
    let parent = |p: &str| lexwisp::config::ConfigStore::at(p.to_string()).data_directory();
    assert_eq!(parent("a/b/settings.toml").as_deref(), Some("a/b"));
    assert_eq!(parent("settings.toml").as_deref(), Some(""));
    assert_eq!(parent("/settings.toml").as_deref(), Some("/"));
    assert_eq!(parent("dir//./settings.toml/").as_deref(), Some("dir"));
    assert_eq!(parent("./settings.toml").as_deref(), Some("."));
    assert_eq!(parent("/"), None);
}
