use lexwisp::script_modules::{final_output, resolve_module, ScriptReturn};

fn modules() -> Vec<String> {
    ["org.example.x/1/main.js", "org.example.x/1/modules/text.js", "org.example.x/1/lib/a.js"]
        .iter()
        .map(|s| s.to_string())
        .collect()
}

#[test]
fn relative_imports_resolve_inside_the_package() {
    let m = modules();
    assert_eq!(
        resolve_module("org.example.x/1/main.js", "./modules/text.js", &m).as_deref(),
        Some("org.example.x/1/modules/text.js")
    );
    assert_eq!(
        resolve_module("org.example.x/1/modules/text.js", "../lib/a.js", &m).as_deref(),
        Some("org.example.x/1/lib/a.js")
    );
    assert_eq!(
        resolve_module("org.example.x/1/main.js", "./modules//./text.js", &m).as_deref(),
        Some("org.example.x/1/modules/text.js")
    );
    assert_eq!(resolve_module("org.example.x/1/main.js", "../escape.js", &m), None);
    assert_eq!(resolve_module("org.example.x/1/main.js", "modules/text.js", &m), None);
    assert_eq!(resolve_module("org.example.x/1/main.js", "./missing.js", &m), None);
}

#[test]
fn a_handler_return_decides_the_final_text() {
    assert_eq!(final_output(ScriptReturn::Plain("HELLO".into()), 0), Ok("HELLO".to_string()));
    assert_eq!(final_output(ScriptReturn::Text("done".into()), 0), Ok("done".to_string()));
    assert_eq!(final_output(ScriptReturn::Complete, 12), Ok(String::new()));
    assert_eq!(
        final_output(ScriptReturn::Text("more".into()), 12),
        Err("a script cannot both append streamed output and return final text".to_string())
    );
    assert_eq!(
        final_output(ScriptReturn::Plain("x".repeat(2097153)), 0),
        Err("script output exceeds 2 MiB".to_string())
    );
    assert_eq!(final_output(ScriptReturn::Complete, 2097153), Err("script output exceeds 2 MiB".to_string()));
    assert_eq!(
        final_output(ScriptReturn::Nothing, 0),
        Err("script returned undefined; return a text result or { type: 'complete' }".to_string())
    );
    assert_eq!(
        final_output(ScriptReturn::OtherType, 0),
        Err("script result must be text, { type: 'text', text }, or { type: 'complete' }".to_string())
    );
}
