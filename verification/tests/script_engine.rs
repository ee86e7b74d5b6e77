use lexwisp::plugin::PluginId;
use lexwisp::script_engine::ScriptEngineBooks;

fn id(s: &str) -> PluginId {
    PluginId::parse(s).expect("plugin ID")
}

#[test]
fn a_plugin_runs_one_invocation_at_a_time() {
    let mut books = ScriptEngineBooks::new();
    let plugin = id("org.example.script-text");
    assert_eq!(books.start_check(&plugin, "run"), Err("script plugin is not active".to_string()));
    books.load(plugin.clone(), 7, vec!["run".to_string()]);
    assert_eq!(books.start_check(&plugin, "other"), Err("script handler 'other' is not exported".to_string()));
    assert_eq!(books.start_check(&plugin, "run"), Ok(7));
    books.begin("inv-1".into(), plugin.clone(), 7);
    assert_eq!(
        books.start_check(&plugin, "run"),
        Err("this script plugin already has an active invocation".to_string())
    );
    assert!(books.finish("inv-1"));
    assert!(!books.finish("inv-1"));
    assert_eq!(books.start_check(&plugin, "run"), Ok(7));
}

#[test]
fn unloading_ends_the_invocations_of_that_load_only() {
    let mut books = ScriptEngineBooks::new();
    let a = id("org.example.a");
    let b = id("org.example.b");
    books.load(a.clone(), 1, vec!["run".to_string()]);
    books.load(b.clone(), 2, vec!["run".to_string()]);
    books.begin("a-1".into(), a.clone(), 1);
    books.begin("b-1".into(), b.clone(), 2);
    assert!(books.unload(&a, 9).is_empty());
    assert_eq!(books.start_check(&a, "run"), Err("this script plugin already has an active invocation".to_string()));
    assert_eq!(books.unload(&a, 1), ["a-1"]);
    assert_eq!(books.start_check(&a, "run"), Err("script plugin is not active".to_string()));
    assert_eq!(books.start_check(&b, "run"), Err("this script plugin already has an active invocation".to_string()));
    books.load(a.clone(), 3, vec!["go".to_string()]);
    assert_eq!(books.start_check(&a, "go"), Ok(3));
}
