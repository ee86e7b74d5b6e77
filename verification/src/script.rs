//! Script packages: a TOML manifest whose actions call exported functions of
//! a JavaScript module, with capabilities and network rules of their own.
use vstd::prelude::*;

use crate::actions::{
    ActionDescriptor, ActionInputSource, ActionKindView, ActionOutputPolicy, ActionParameter,
    DefinitionView, DescriptorView, ParameterView, PluginDescriptor, PluginView,
    ScriptActionDefinition, descriptors_view, parameters_view,
};
use crate::declarative::{
    Entries, ManifestOutput, OutputSpec, decode_output, dismiss_named, manifest_keys,
    output_policy, output_spec, parameter_keys, parameter_kind_named, parse_dismiss,
    parse_parameter_kind, parse_sources, quote_after, quoted_after, source_fn,
};
use crate::plugin::{
    ActionId, Capability, PluginId, action_id_error_text, capability_named, plugin_id_error_text,
    valid_plugin_id, valid_token,
};
use crate::provider::{copy_opt, copy_strings, opt_view, strings_view};
use crate::text::{
    ascii_lower, ascii_upper, concat, copy_string, decimal, i64_text, is_ascii_alnum, str_eq,
    to_ascii_lower, to_ascii_upper,
};
use crate::toml_tree::{
    TomlValue, TomlView, check_known, entries_view, field_bool, field_opt_u16, field_str,
    field_strings, field_table, field_tables, field_u32, get_bool, get_field, get_opt_u16, get_str,
    get_strings, get_table, get_tables, get_u32, lemma_map_ok_ends, lemma_map_ok_step, map_ok,
    names_view, require_known, table_get, tables_view,
};

verus! {

/// The text a parameter default stands for: strings as they are, booleans,
/// integers and floats as their display text, anything else empty.
pub open spec fn scalar_text(v: TomlView) -> Seq<char> {
    match v {
        TomlView::String(s) => s,
        TomlView::Boolean(b) => if b {
            "true"@
        } else {
            "false"@
        },
        TomlView::Integer(i) => decimal(i as int),
        TomlView::Float(s) => s,
        _ => Seq::empty(),
    }
}

/// The default of a parameter table, as text.
pub open spec fn default_text(t: Entries) -> Option<Seq<char>> {
    match table_get(t, "default"@) {
        None => None,
        Some(v) => Some(scalar_text(v)),
    }
}

/// Reads the default of a parameter table as text.
fn get_default_text(t: &Vec<(String, TomlValue)>) -> (r: Option<String>)
    ensures
        opt_view(r) == default_text(entries_view(t@)),
{
    match get_field(t, "default") {
        None => None,
        Some(TomlValue::String(s)) => Some(copy_string(s)),
        Some(TomlValue::Boolean(b)) => if *b {
            Some("true".to_string())
        } else {
            Some("false".to_string())
        },
        Some(TomlValue::Integer(i)) => Some(i64_text(*i)),
        Some(TomlValue::Float(s)) => Some(copy_string(s)),
        Some(_) => Some(String::new()),
    }
}

/// The model of a declared script parameter, its default already as text.
pub struct ScriptParamSpec {
    pub key: Seq<char>,
    pub label: Seq<char>,
    pub kind: Seq<char>,
    pub required: bool,
    pub default: Option<Seq<char>>,
    pub choices: Seq<Seq<char>>,
}

/// Decoding a script parameter table.
pub open spec fn script_param_spec(t: Entries) -> Result<ScriptParamSpec, Seq<char>> {
    let known = check_known(t, parameter_keys());
    let key = field_str(t, "key"@);
    let label = field_str(t, "label"@);
    let kind = field_str(t, "kind"@);
    let required = field_bool(t, "required"@);
    let choices = field_strings(t, "choices"@, false);
    if known is Err {
        Err(known->Err_0)
    } else if key is Err {
        Err(key->Err_0)
    } else if label is Err {
        Err(label->Err_0)
    } else if kind is Err {
        Err(kind->Err_0)
    } else if required is Err {
        Err(required->Err_0)
    } else if choices is Err {
        Err(choices->Err_0)
    } else {
        Ok(
            ScriptParamSpec {
                key: key->Ok_0,
                label: label->Ok_0,
                kind: kind->Ok_0,
                required: required->Ok_0,
                default: default_text(t),
                choices: choices->Ok_0,
            },
        )
    }
}

/// `script_param_spec`, as a function value.
pub open spec fn script_param_spec_fn() -> spec_fn(Entries) -> Result<ScriptParamSpec, Seq<char>> {
    |t: Entries| script_param_spec(t)
}

/// A decoded script parameter table.
pub struct ScriptManifestParameter {
    pub key: String,
    pub label: String,
    pub kind: String,
    pub required: bool,
    pub default: Option<String>,
    pub choices: Vec<String>,
}

impl View for ScriptManifestParameter {
    type V = ScriptParamSpec;

    open spec fn view(&self) -> ScriptParamSpec {
        ScriptParamSpec {
            key: self.key@,
            label: self.label@,
            kind: self.kind@,
            required: self.required,
            default: opt_view(self.default),
            choices: strings_view(self.choices@),
        }
    }
}

/// Decodes a script parameter table.
fn decode_script_parameter(t: &Vec<(String, TomlValue)>) -> (r: Result<ScriptManifestParameter, String>)
    ensures
        match script_param_spec(entries_view(t@)) {
            Ok(p) => r matches Ok(x) && x@ == p,
            Err(e) => r matches Err(x) && x@ == e,
        },
{
    let keys = ["key", "label", "kind", "required", "default", "choices"];
    assert(names_view(keys@) =~= parameter_keys());
    if let Err(e) = require_known(t, &keys) {
        return Err(e);
    }
    let key = match get_str(t, "key") {
        Ok(v) => v,
        Err(e) => return Err(e),
    };
    let label = match get_str(t, "label") {
        Ok(v) => v,
        Err(e) => return Err(e),
    };
    let kind = match get_str(t, "kind") {
        Ok(v) => v,
        Err(e) => return Err(e),
    };
    let required = match get_bool(t, "required") {
        Ok(v) => v,
        Err(e) => return Err(e),
    };
    let choices = match get_strings(t, "choices", false) {
        Ok(v) => v,
        Err(e) => return Err(e),
    };
    let default = get_default_text(t);
    Ok(ScriptManifestParameter { key, label, kind, required, default, choices })
}

/// The models of decoded script parameters.
pub open spec fn script_params_view(p: Seq<ScriptManifestParameter>) -> Seq<ScriptParamSpec> {
    p.map_values(|x: ScriptManifestParameter| x@)
}

/// Decodes a list of script parameter tables.
fn decode_script_parameters(ts: &Vec<&Vec<(String, TomlValue)>>) -> (r: Result<
    Vec<ScriptManifestParameter>,
    String,
>)
    ensures
        match map_ok(tables_view(ts@), script_param_spec_fn()) {
            Ok(p) => r matches Ok(x) && script_params_view(x@) == p,
            Err(e) => r matches Err(x) && x@ == e,
        },
{
    let ghost tv = tables_view(ts@);
    let mut out: Vec<ScriptManifestParameter> = Vec::new();
    let mut i: usize = 0;
    proof {
        lemma_map_ok_ends(tv, script_param_spec_fn());
        assert(script_params_view(out@) =~= Seq::<ScriptParamSpec>::empty());
    }
    while i < ts.len()
        invariant
            i <= ts.len(),
            tv == tables_view(ts@),
            map_ok(tv.take(i as int), script_param_spec_fn()) == Ok::<_, Seq<char>>(
                script_params_view(out@),
            ),
        decreases ts.len() - i,
    {
        proof {
            lemma_map_ok_step(tv, script_param_spec_fn(), i as int);
            assert(tv[i as int] == entries_view(ts@[i as int]@));
        }
        match decode_script_parameter(ts[i]) {
            Ok(p) => {
                let ghost before = out@;
                out.push(p);
                assert(script_params_view(out@) =~= script_params_view(before).push(p@));
            },
            Err(e) => return Err(e),
        }
        i += 1;
    }
    proof {
        lemma_map_ok_ends(tv, script_param_spec_fn());
    }
    Ok(out)
}

/// The model of a declared script action, before the package rules.
pub struct ScriptActionSpec {
    pub id: Seq<char>,
    pub name: Seq<char>,
    pub handler: Seq<char>,
    pub input_kind: Seq<char>,
    pub allowed_sources: Seq<Seq<char>>,
    pub dismiss_policy: Seq<char>,
    pub parameters: Seq<ScriptParamSpec>,
    pub output: OutputSpec,
}

/// The keys of a script action table.
pub open spec fn script_action_keys() -> Seq<Seq<char>> {
    seq![
        "id"@,
        "name"@,
        "handler"@,
        "input_kind"@,
        "allowed_sources"@,
        "dismiss_policy"@,
        "parameters"@,
        "output"@,
    ]
}

/// Decoding a script action table.
pub open spec fn script_action_spec(t: Entries) -> Result<ScriptActionSpec, Seq<char>> {
    let known = check_known(t, script_action_keys());
    let id = field_str(t, "id"@);
    let name = field_str(t, "name"@);
    let handler = field_str(t, "handler"@);
    let input_kind = field_str(t, "input_kind"@);
    let sources = field_strings(t, "allowed_sources"@, true);
    let dismiss = field_str(t, "dismiss_policy"@);
    let params = match field_tables(t, "parameters"@, false) {
        Err(e) => Err(e),
        Ok(ts) => map_ok(ts, script_param_spec_fn()),
    };
    let output = match field_table(t, "output"@) {
        Err(e) => Err(e),
        Ok(o) => output_spec(o),
    };
    if known is Err {
        Err(known->Err_0)
    } else if id is Err {
        Err(id->Err_0)
    } else if name is Err {
        Err(name->Err_0)
    } else if handler is Err {
        Err(handler->Err_0)
    } else if input_kind is Err {
        Err(input_kind->Err_0)
    } else if sources is Err {
        Err(sources->Err_0)
    } else if dismiss is Err {
        Err(dismiss->Err_0)
    } else if params is Err {
        Err(params->Err_0)
    } else if output is Err {
        Err(output->Err_0)
    } else {
        Ok(
            ScriptActionSpec {
                id: id->Ok_0,
                name: name->Ok_0,
                handler: handler->Ok_0,
                input_kind: input_kind->Ok_0,
                allowed_sources: sources->Ok_0,
                dismiss_policy: dismiss->Ok_0,
                parameters: params->Ok_0,
                output: output->Ok_0,
            },
        )
    }
}

/// `script_action_spec`, as a function value.
pub open spec fn script_action_spec_fn() -> spec_fn(Entries) -> Result<ScriptActionSpec, Seq<char>> {
    |t: Entries| script_action_spec(t)
}

/// A decoded script action table.
pub struct ScriptManifestAction {
    pub id: String,
    pub name: String,
    pub handler: String,
    pub input_kind: String,
    pub allowed_sources: Vec<String>,
    pub dismiss_policy: String,
    pub parameters: Vec<ScriptManifestParameter>,
    pub output: ManifestOutput,
}

impl View for ScriptManifestAction {
    type V = ScriptActionSpec;

    open spec fn view(&self) -> ScriptActionSpec {
        ScriptActionSpec {
            id: self.id@,
            name: self.name@,
            handler: self.handler@,
            input_kind: self.input_kind@,
            allowed_sources: strings_view(self.allowed_sources@),
            dismiss_policy: self.dismiss_policy@,
            parameters: script_params_view(self.parameters@),
            output: self.output@,
        }
    }
}

/// Decodes the parameter tables held by the field `parameters`.
fn decode_script_parameters_field(t: &Vec<(String, TomlValue)>) -> (r: Result<
    Vec<ScriptManifestParameter>,
    String,
>)
    ensures
        match field_tables(entries_view(t@), "parameters"@, false) {
            Err(e) => r matches Err(x) && x@ == e,
            Ok(ts) => match map_ok(ts, script_param_spec_fn()) {
                Ok(p) => r matches Ok(x) && script_params_view(x@) == p,
                Err(e) => r matches Err(x) && x@ == e,
            },
        },
{
    match get_tables(t, "parameters", false) {
        Err(e) => Err(e),
        Ok(ts) => decode_script_parameters(&ts),
    }
}

/// Decodes a script action table.
fn decode_script_action(t: &Vec<(String, TomlValue)>) -> (r: Result<ScriptManifestAction, String>)
    ensures
        match script_action_spec(entries_view(t@)) {
            Ok(a) => r matches Ok(x) && x@ == a,
            Err(e) => r matches Err(x) && x@ == e,
        },
{
    let keys = [
        "id",
        "name",
        "handler",
        "input_kind",
        "allowed_sources",
        "dismiss_policy",
        "parameters",
        "output",
    ];
    assert(names_view(keys@) =~= script_action_keys());
    if let Err(e) = require_known(t, &keys) {
        return Err(e);
    }
    let id = match get_str(t, "id") {
        Ok(v) => v,
        Err(e) => return Err(e),
    };
    let name = match get_str(t, "name") {
        Ok(v) => v,
        Err(e) => return Err(e),
    };
    let handler = match get_str(t, "handler") {
        Ok(v) => v,
        Err(e) => return Err(e),
    };
    let input_kind = match get_str(t, "input_kind") {
        Ok(v) => v,
        Err(e) => return Err(e),
    };
    let allowed_sources = match get_strings(t, "allowed_sources", true) {
        Ok(v) => v,
        Err(e) => return Err(e),
    };
    let dismiss_policy = match get_str(t, "dismiss_policy") {
        Ok(v) => v,
        Err(e) => return Err(e),
    };
    let parameters = match decode_script_parameters_field(t) {
        Ok(v) => v,
        Err(e) => return Err(e),
    };
    let output = match get_table(t, "output") {
        Ok(o) => match decode_output(o) {
            Ok(v) => v,
            Err(e) => return Err(e),
        },
        Err(e) => return Err(e),
    };
    Ok(
        ScriptManifestAction {
            id,
            name,
            handler,
            input_kind,
            allowed_sources,
            dismiss_policy,
            parameters,
            output,
        },
    )
}

/// The models of decoded script actions.
pub open spec fn script_actions_view(a: Seq<ScriptManifestAction>) -> Seq<ScriptActionSpec> {
    a.map_values(|x: ScriptManifestAction| x@)
}

/// Decodes a list of script action tables.
fn decode_script_actions(ts: &Vec<&Vec<(String, TomlValue)>>) -> (r: Result<
    Vec<ScriptManifestAction>,
    String,
>)
    ensures
        match map_ok(tables_view(ts@), script_action_spec_fn()) {
            Ok(a) => r matches Ok(x) && script_actions_view(x@) == a,
            Err(e) => r matches Err(x) && x@ == e,
        },
{
    let ghost tv = tables_view(ts@);
    let mut out: Vec<ScriptManifestAction> = Vec::new();
    let mut i: usize = 0;
    proof {
        lemma_map_ok_ends(tv, script_action_spec_fn());
        assert(script_actions_view(out@) =~= Seq::<ScriptActionSpec>::empty());
    }
    while i < ts.len()
        invariant
            i <= ts.len(),
            tv == tables_view(ts@),
            map_ok(tv.take(i as int), script_action_spec_fn()) == Ok::<_, Seq<char>>(
                script_actions_view(out@),
            ),
        decreases ts.len() - i,
    {
        proof {
            lemma_map_ok_step(tv, script_action_spec_fn(), i as int);
            assert(tv[i as int] == entries_view(ts@[i as int]@));
        }
        match decode_script_action(ts[i]) {
            Ok(a) => {
                let ghost before = out@;
                out.push(a);
                assert(script_actions_view(out@) =~= script_actions_view(before).push(a@));
            },
            Err(e) => return Err(e),
        }
        i += 1;
    }
    proof {
        lemma_map_ok_ends(tv, script_action_spec_fn());
    }
    Ok(out)
}

/// The model of a declared network rule.
pub struct RuleSpec {
    pub scheme: Seq<char>,
    pub host: Seq<char>,
    pub port: Option<u16>,
    pub methods: Seq<Seq<char>>,
    pub path_prefixes: Seq<Seq<char>>,
}

/// The keys of a network rule table.
pub open spec fn rule_keys() -> Seq<Seq<char>> {
    seq!["scheme"@, "host"@, "port"@, "methods"@, "path_prefixes"@]
}

/// Decoding a network rule table.
pub open spec fn rule_spec(t: Entries) -> Result<RuleSpec, Seq<char>> {
    let known = check_known(t, rule_keys());
    let scheme = field_str(t, "scheme"@);
    let host = field_str(t, "host"@);
    let port = field_opt_u16(t, "port"@);
    let methods = field_strings(t, "methods"@, true);
    let prefixes = field_strings(t, "path_prefixes"@, false);
    if known is Err {
        Err(known->Err_0)
    } else if scheme is Err {
        Err(scheme->Err_0)
    } else if host is Err {
        Err(host->Err_0)
    } else if port is Err {
        Err(port->Err_0)
    } else if methods is Err {
        Err(methods->Err_0)
    } else if prefixes is Err {
        Err(prefixes->Err_0)
    } else {
        Ok(
            RuleSpec {
                scheme: scheme->Ok_0,
                host: host->Ok_0,
                port: port->Ok_0,
                methods: methods->Ok_0,
                path_prefixes: prefixes->Ok_0,
            },
        )
    }
}

/// `rule_spec`, as a function value.
pub open spec fn rule_spec_fn() -> spec_fn(Entries) -> Result<RuleSpec, Seq<char>> {
    |t: Entries| rule_spec(t)
}

/// A network rule as a manifest declares it.
#[derive(Debug)]
pub struct ManifestNetworkRule {
    pub scheme: String,
    pub host: String,
    pub port: Option<u16>,
    pub methods: Vec<String>,
    pub path_prefixes: Vec<String>,
}

impl View for ManifestNetworkRule {
    type V = RuleSpec;

    open spec fn view(&self) -> RuleSpec {
        RuleSpec {
            scheme: self.scheme@,
            host: self.host@,
            port: self.port,
            methods: strings_view(self.methods@),
            path_prefixes: strings_view(self.path_prefixes@),
        }
    }
}

/// Decodes a network rule table.
fn decode_rule(t: &Vec<(String, TomlValue)>) -> (r: Result<ManifestNetworkRule, String>)
    ensures
        match rule_spec(entries_view(t@)) {
            Ok(x) => r matches Ok(y) && y@ == x,
            Err(e) => r matches Err(y) && y@ == e,
        },
{
    let keys = ["scheme", "host", "port", "methods", "path_prefixes"];
    assert(names_view(keys@) =~= rule_keys());
    if let Err(e) = require_known(t, &keys) {
        return Err(e);
    }
    let scheme = match get_str(t, "scheme") {
        Ok(v) => v,
        Err(e) => return Err(e),
    };
    let host = match get_str(t, "host") {
        Ok(v) => v,
        Err(e) => return Err(e),
    };
    let port = match get_opt_u16(t, "port") {
        Ok(v) => v,
        Err(e) => return Err(e),
    };
    let methods = match get_strings(t, "methods", true) {
        Ok(v) => v,
        Err(e) => return Err(e),
    };
    let path_prefixes = match get_strings(t, "path_prefixes", false) {
        Ok(v) => v,
        Err(e) => return Err(e),
    };
    Ok(ManifestNetworkRule { scheme, host, port, methods, path_prefixes })
}

/// The models of decoded network rules.
pub open spec fn manifest_rules_view(a: Seq<ManifestNetworkRule>) -> Seq<RuleSpec> {
    a.map_values(|x: ManifestNetworkRule| x@)
}

/// Decodes a list of network rule tables.
fn decode_rules(ts: &Vec<&Vec<(String, TomlValue)>>) -> (r: Result<Vec<ManifestNetworkRule>, String>)
    ensures
        match map_ok(tables_view(ts@), rule_spec_fn()) {
            Ok(a) => r matches Ok(x) && manifest_rules_view(x@) == a,
            Err(e) => r matches Err(x) && x@ == e,
        },
{
    let ghost tv = tables_view(ts@);
    let mut out: Vec<ManifestNetworkRule> = Vec::new();
    let mut i: usize = 0;
    proof {
        lemma_map_ok_ends(tv, rule_spec_fn());
        assert(manifest_rules_view(out@) =~= Seq::<RuleSpec>::empty());
    }
    while i < ts.len()
        invariant
            i <= ts.len(),
            tv == tables_view(ts@),
            map_ok(tv.take(i as int), rule_spec_fn()) == Ok::<_, Seq<char>>(
                manifest_rules_view(out@),
            ),
        decreases ts.len() - i,
    {
        proof {
            lemma_map_ok_step(tv, rule_spec_fn(), i as int);
            assert(tv[i as int] == entries_view(ts@[i as int]@));
        }
        match decode_rule(ts[i]) {
            Ok(a) => {
                let ghost before = out@;
                out.push(a);
                assert(manifest_rules_view(out@) =~= manifest_rules_view(before).push(a@));
            },
            Err(e) => return Err(e),
        }
        i += 1;
    }
    proof {
        lemma_map_ok_ends(tv, rule_spec_fn());
    }
    Ok(out)
}

/// The model of a script manifest's `[plugin]` section.
pub struct ScriptPluginSpec {
    pub id: Seq<char>,
    pub name: Seq<char>,
    pub version: Seq<char>,
    pub kind: Seq<char>,
    pub host_api: Seq<char>,
    pub entry: Seq<char>,
}

/// The keys of a script `[plugin]` section.
pub open spec fn script_plugin_keys() -> Seq<Seq<char>> {
    seq!["id"@, "name"@, "version"@, "kind"@, "host_api"@, "entry"@]
}

/// Decoding a script `[plugin]` section.
pub open spec fn script_plugin_spec(t: Entries) -> Result<ScriptPluginSpec, Seq<char>> {
    let known = check_known(t, script_plugin_keys());
    let id = field_str(t, "id"@);
    let name = field_str(t, "name"@);
    let version = field_str(t, "version"@);
    let kind = field_str(t, "kind"@);
    let host_api = field_str(t, "host_api"@);
    let entry = field_str(t, "entry"@);
    if known is Err {
        Err(known->Err_0)
    } else if id is Err {
        Err(id->Err_0)
    } else if name is Err {
        Err(name->Err_0)
    } else if version is Err {
        Err(version->Err_0)
    } else if kind is Err {
        Err(kind->Err_0)
    } else if host_api is Err {
        Err(host_api->Err_0)
    } else if entry is Err {
        Err(entry->Err_0)
    } else {
        Ok(
            ScriptPluginSpec {
                id: id->Ok_0,
                name: name->Ok_0,
                version: version->Ok_0,
                kind: kind->Ok_0,
                host_api: host_api->Ok_0,
                entry: entry->Ok_0,
            },
        )
    }
}

/// A decoded script `[plugin]` section.
pub struct ScriptManifestPlugin {
    pub id: String,
    pub name: String,
    pub version: String,
    pub kind: String,
    pub host_api: String,
    pub entry: String,
}

impl View for ScriptManifestPlugin {
    type V = ScriptPluginSpec;

    open spec fn view(&self) -> ScriptPluginSpec {
        ScriptPluginSpec {
            id: self.id@,
            name: self.name@,
            version: self.version@,
            kind: self.kind@,
            host_api: self.host_api@,
            entry: self.entry@,
        }
    }
}

/// Decodes the `[plugin]` section of a script manifest.
fn decode_script_plugin(t: &Vec<(String, TomlValue)>) -> (r: Result<ScriptManifestPlugin, String>)
    ensures
        match script_plugin_spec(entries_view(t@)) {
            Ok(p) => r matches Ok(x) && x@ == p,
            Err(e) => r matches Err(x) && x@ == e,
        },
{
    let keys = ["id", "name", "version", "kind", "host_api", "entry"];
    assert(names_view(keys@) =~= script_plugin_keys());
    if let Err(e) = require_known(t, &keys) {
        return Err(e);
    }
    let id = match get_str(t, "id") {
        Ok(v) => v,
        Err(e) => return Err(e),
    };
    let name = match get_str(t, "name") {
        Ok(v) => v,
        Err(e) => return Err(e),
    };
    let version = match get_str(t, "version") {
        Ok(v) => v,
        Err(e) => return Err(e),
    };
    let kind = match get_str(t, "kind") {
        Ok(v) => v,
        Err(e) => return Err(e),
    };
    let host_api = match get_str(t, "host_api") {
        Ok(v) => v,
        Err(e) => return Err(e),
    };
    let entry = match get_str(t, "entry") {
        Ok(v) => v,
        Err(e) => return Err(e),
    };
    Ok(ScriptManifestPlugin { id, name, version, kind, host_api, entry })
}

/// The model of a script `[capabilities]` section.
pub struct ScriptCapsSpec {
    pub required: Seq<Seq<char>>,
    pub optional: Seq<Seq<char>>,
    pub network: Seq<RuleSpec>,
}

/// Decoding a script `[capabilities]` section; every field defaults.
pub open spec fn script_caps_spec(t: Entries) -> Result<ScriptCapsSpec, Seq<char>> {
    let known = check_known(t, seq!["required"@, "optional"@, "network"@]);
    let required = field_strings(t, "required"@, false);
    let optional = field_strings(t, "optional"@, false);
    let network = match field_tables(t, "network"@, false) {
        Err(e) => Err(e),
        Ok(ts) => map_ok(ts, rule_spec_fn()),
    };
    if known is Err {
        Err(known->Err_0)
    } else if required is Err {
        Err(required->Err_0)
    } else if optional is Err {
        Err(optional->Err_0)
    } else if network is Err {
        Err(network->Err_0)
    } else {
        Ok(
            ScriptCapsSpec {
                required: required->Ok_0,
                optional: optional->Ok_0,
                network: network->Ok_0,
            },
        )
    }
}

/// A decoded script `[capabilities]` section.
pub struct ScriptCapabilities {
    pub required: Vec<String>,
    pub optional: Vec<String>,
    pub network: Vec<ManifestNetworkRule>,
}

impl View for ScriptCapabilities {
    type V = ScriptCapsSpec;

    open spec fn view(&self) -> ScriptCapsSpec {
        ScriptCapsSpec {
            required: strings_view(self.required@),
            optional: strings_view(self.optional@),
            network: manifest_rules_view(self.network@),
        }
    }
}

/// Decodes the `[capabilities]` section of a script manifest.
fn decode_script_caps(t: &Vec<(String, TomlValue)>) -> (r: Result<ScriptCapabilities, String>)
    ensures
        match script_caps_spec(entries_view(t@)) {
            Ok(c) => r matches Ok(x) && x@ == c,
            Err(e) => r matches Err(x) && x@ == e,
        },
{
    let keys = ["required", "optional", "network"];
    assert(names_view(keys@) =~= seq!["required"@, "optional"@, "network"@]);
    if let Err(e) = require_known(t, &keys) {
        return Err(e);
    }
    let required = match get_strings(t, "required", false) {
        Ok(v) => v,
        Err(e) => return Err(e),
    };
    let optional = match get_strings(t, "optional", false) {
        Ok(v) => v,
        Err(e) => return Err(e),
    };
    let network = match get_tables(t, "network", false) {
        Ok(ts) => match decode_rules(&ts) {
            Ok(v) => v,
            Err(e) => return Err(e),
        },
        Err(e) => return Err(e),
    };
    Ok(ScriptCapabilities { required, optional, network })
}

/// The model of a decoded script manifest.
pub struct ScriptManifestSpec {
    pub schema_version: u32,
    pub plugin: ScriptPluginSpec,
    pub capabilities: ScriptCapsSpec,
    pub actions: Seq<ScriptActionSpec>,
}

/// Decoding a script manifest's document.
pub open spec fn script_manifest_spec(t: Entries) -> Result<ScriptManifestSpec, Seq<char>> {
    let known = check_known(t, manifest_keys());
    let schema = field_u32(t, "schema_version"@);
    let plugin = match field_table(t, "plugin"@) {
        Err(e) => Err(e),
        Ok(p) => script_plugin_spec(p),
    };
    let caps = match field_table(t, "capabilities"@) {
        Err(e) => Err(e),
        Ok(c) => script_caps_spec(c),
    };
    let actions = match field_tables(t, "actions"@, true) {
        Err(e) => Err(e),
        Ok(ts) => map_ok(ts, script_action_spec_fn()),
    };
    if known is Err {
        Err(known->Err_0)
    } else if schema is Err {
        Err(schema->Err_0)
    } else if plugin is Err {
        Err(plugin->Err_0)
    } else if caps is Err {
        Err(caps->Err_0)
    } else if actions is Err {
        Err(actions->Err_0)
    } else {
        Ok(
            ScriptManifestSpec {
                schema_version: schema->Ok_0,
                plugin: plugin->Ok_0,
                capabilities: caps->Ok_0,
                actions: actions->Ok_0,
            },
        )
    }
}

/// A decoded script manifest.
pub struct ScriptManifestDocument {
    pub schema_version: u32,
    pub plugin: ScriptManifestPlugin,
    pub capabilities: ScriptCapabilities,
    pub actions: Vec<ScriptManifestAction>,
}

impl View for ScriptManifestDocument {
    type V = ScriptManifestSpec;

    open spec fn view(&self) -> ScriptManifestSpec {
        ScriptManifestSpec {
            schema_version: self.schema_version,
            plugin: self.plugin@,
            capabilities: self.capabilities@,
            actions: script_actions_view(self.actions@),
        }
    }
}

/// Decodes a script manifest's document, unknown fields denied.
pub fn decode_script_manifest(t: &Vec<(String, TomlValue)>) -> (r: Result<ScriptManifestDocument, String>)
    ensures
        match script_manifest_spec(entries_view(t@)) {
            Ok(m) => r matches Ok(x) && x@ == m,
            Err(e) => r matches Err(x) && x@ == e,
        },
{
    let keys = ["schema_version", "plugin", "capabilities", "actions"];
    assert(names_view(keys@) =~= manifest_keys());
    if let Err(e) = require_known(t, &keys) {
        return Err(e);
    }
    let schema_version = match get_u32(t, "schema_version") {
        Ok(v) => v,
        Err(e) => return Err(e),
    };
    let plugin = match get_table(t, "plugin") {
        Ok(p) => match decode_script_plugin(p) {
            Ok(v) => v,
            Err(e) => return Err(e),
        },
        Err(e) => return Err(e),
    };
    let capabilities = match get_table(t, "capabilities") {
        Ok(c) => match decode_script_caps(c) {
            Ok(v) => v,
            Err(e) => return Err(e),
        },
        Err(e) => return Err(e),
    };
    let actions = match get_tables(t, "actions", true) {
        Ok(ts) => match decode_script_actions(&ts) {
            Ok(v) => v,
            Err(e) => return Err(e),
        },
        Err(e) => return Err(e),
    };
    Ok(ScriptManifestDocument { schema_version, plugin, capabilities, actions })
}

/// A path that starts with `/`.
pub open spec fn rooted(p: Seq<char>) -> bool {
    p.len() > 0 && p[0] == '/'
}

/// A method a network rule may allow.
pub open spec fn allowed_method(m: Seq<char>) -> bool {
    m == "GET"@ || m == "POST"@ || m == "PUT"@ || m == "PATCH"@ || m == "DELETE"@
}

/// A declared network rule under the rules: scheme `http` or `https`, a
/// host that is not empty, holds no `/`, `:` or `@` and is not `localhost`
/// (both compared in lowercase), at least one method, every method (in
/// uppercase) among GET, POST, PUT, PATCH and DELETE, and every path prefix
/// starting with `/`. The rule keeps the lowercased scheme and host and the
/// uppercased methods.
pub open spec fn network_rule(r: RuleSpec) -> Result<RuleSpec, Seq<char>> {
    let scheme = ascii_lower(r.scheme);
    let host = ascii_lower(r.host);
    let methods = r.methods.map_values(|m: Seq<char>| ascii_upper(m));
    if scheme != "https"@ && scheme != "http"@ {
        Err("network rules support only http and https"@)
    } else if host.len() == 0 || host.contains('/') || host.contains(':') || host.contains('@')
        || host == "localhost"@ {
        Err("network rule host is invalid"@)
    } else if methods.len() == 0 || exists|i: int|
        0 <= i < methods.len() && !allowed_method(#[trigger] methods[i]) {
        Err("network rule contains an unsupported method"@)
    } else if exists|i: int| 0 <= i < r.path_prefixes.len() && !rooted(#[trigger] r.path_prefixes[i]) {
        Err("network path prefixes must start with '/'"@)
    } else {
        Ok(
            RuleSpec {
                scheme,
                host,
                port: r.port,
                methods,
                path_prefixes: r.path_prefixes,
            },
        )
    }
}

/// `network_rule`, as a function value.
pub open spec fn network_rule_fn() -> spec_fn(RuleSpec) -> Result<RuleSpec, Seq<char>> {
    |r: RuleSpec| network_rule(r)
}

/// A network rule a script package may use.
#[derive(Debug)]
pub struct ScriptNetworkRule {
    pub scheme: String,
    pub host: String,
    pub port: Option<u16>,
    pub methods: Vec<String>,
    pub path_prefixes: Vec<String>,
}

impl View for ScriptNetworkRule {
    type V = RuleSpec;

    open spec fn view(&self) -> RuleSpec {
        RuleSpec {
            scheme: self.scheme@,
            host: self.host@,
            port: self.port,
            methods: strings_view(self.methods@),
            path_prefixes: strings_view(self.path_prefixes@),
        }
    }
}

impl Clone for ScriptNetworkRule {
    fn clone(&self) -> (r: Self)
        ensures
            r@ == self@,
    {
        ScriptNetworkRule {
            scheme: copy_string(&self.scheme),
            host: copy_string(&self.host),
            port: self.port,
            methods: copy_strings(&self.methods),
            path_prefixes: copy_strings(&self.path_prefixes),
        }
    }
}

impl PartialEq for ScriptNetworkRule {
    fn eq(&self, other: &Self) -> (r: bool) {
        str_eq(self.scheme.as_str(), other.scheme.as_str()) && str_eq(
            self.host.as_str(),
            other.host.as_str(),
        ) && self.port == other.port && crate::provider::same_strings(
            &self.methods,
            &other.methods,
        ) && crate::provider::same_strings(&self.path_prefixes, &other.path_prefixes)
    }
}

impl vstd::std_specs::cmp::PartialEqSpecImpl for ScriptNetworkRule {
    open spec fn obeys_eq_spec() -> bool {
        true
    }

    open spec fn eq_spec(&self, other: &Self) -> bool {
        self@ == other@
    }
}

impl Eq for ScriptNetworkRule {
}

/// Whether a host is refused: empty, holding `/`, `:` or `@`, or `localhost`.
fn host_refused(host: &str) -> (r: bool)
    ensures
        r == (host@.len() == 0 || host@.contains('/') || host@.contains(':') || host@.contains('@')
            || host@ == "localhost"@),
{
    let v = crate::text::chars_of(host);
    v.len() == 0 || crate::text::chars_contain(&v, '/') || crate::text::chars_contain(&v, ':')
        || crate::text::chars_contain(&v, '@') || str_eq(host, "localhost")
}

/// Whether `m` is a method a rule may allow.
fn method_allowed(m: &str) -> (r: bool)
    ensures
        r == allowed_method(m@),
{
    str_eq(m, "GET") || str_eq(m, "POST") || str_eq(m, "PUT") || str_eq(m, "PATCH") || str_eq(
        m,
        "DELETE",
    )
}

/// The strings of `v`, each in ASCII uppercase.
fn upper_all(v: &Vec<String>) -> (r: Vec<String>)
    ensures
        strings_view(r@) == strings_view(v@).map_values(|m: Seq<char>| ascii_upper(m)),
{
    let ghost up = strings_view(v@).map_values(|m: Seq<char>| ascii_upper(m));
    let mut out: Vec<String> = Vec::new();
    let mut i: usize = 0;
    while i < v.len()
        invariant
            i <= v.len(),
            up == strings_view(v@).map_values(|m: Seq<char>| ascii_upper(m)),
            strings_view(out@) == up.take(i as int),
        decreases v.len() - i,
    {
        let m = to_ascii_upper(v[i].as_str());
        let ghost before = out@;
        out.push(m);
        assert(strings_view(out@) =~= strings_view(before).push(m@));
        assert(up[i as int] == ascii_upper(v@[i as int]@));
        assert(up.take(i + 1) =~= up.take(i as int).push(up[i as int]));
        i += 1;
    }
    assert(up.take(v.len() as int) =~= up);
    out
}

/// Whether every string of `v` is an allowed method.
fn all_allowed(v: &Vec<String>) -> (r: bool)
    ensures
        r == forall|i: int|
            0 <= i < strings_view(v@).len() ==> allowed_method(#[trigger] strings_view(v@)[i]),
{
    let mut k: usize = 0;
    while k < v.len()
        invariant
            k <= v.len(),
            forall|j: int| 0 <= j < k ==> allowed_method(#[trigger] strings_view(v@)[j]),
        decreases v.len() - k,
    {
        if !method_allowed(v[k].as_str()) {
            assert(!allowed_method(strings_view(v@)[k as int]));
            return false;
        }
        k += 1;
    }
    true
}

/// Whether every string of `v` starts with `/`.
fn all_rooted(v: &Vec<String>) -> (r: bool)
    ensures
        r == forall|i: int| 0 <= i < strings_view(v@).len() ==> rooted(#[trigger] strings_view(v@)[i]),
{
    let mut j: usize = 0;
    while j < v.len()
        invariant
            j <= v.len(),
            forall|q: int| 0 <= q < j ==> rooted(#[trigger] strings_view(v@)[q]),
        decreases v.len() - j,
    {
        let c = crate::text::chars_of(v[j].as_str());
        assert(strings_view(v@)[j as int] == c@);
        if c.len() == 0 || c[0] != '/' {
            assert(!rooted(strings_view(v@)[j as int]));
            return false;
        }
        assert(rooted(strings_view(v@)[j as int]));
        j += 1;
    }
    true
}

/// Checks a declared network rule and normalises it.
pub fn validate_network_rule(rule: ManifestNetworkRule) -> (r: Result<ScriptNetworkRule, String>)
    ensures
        match network_rule(rule@) {
            Ok(x) => r matches Ok(y) && y@ == x,
            Err(e) => r matches Err(y) && y@ == e,
        },
{
    let scheme = to_ascii_lower(rule.scheme.as_str());
    if !str_eq(scheme.as_str(), "https") && !str_eq(scheme.as_str(), "http") {
        return Err("network rules support only http and https".to_string());
    }
    let host = to_ascii_lower(rule.host.as_str());
    if host_refused(host.as_str()) {
        return Err("network rule host is invalid".to_string());
    }
    let methods = upper_all(&rule.methods);
    if methods.len() == 0 || !all_allowed(&methods) {
        assert(strings_view(methods@).len() == methods@.len());
        return Err("network rule contains an unsupported method".to_string());
    }
    if !all_rooted(&rule.path_prefixes) {
        return Err("network path prefixes must start with '/'".to_string());
    }
    assert(strings_view(methods@).len() == methods@.len());
    Ok(ScriptNetworkRule { scheme, host, port: rule.port, methods, path_prefixes: rule.path_prefixes })
}

/// A parameter key: 1 to 64 ASCII letters, digits, `_` or `-`.
pub open spec fn parameter_key_ok(s: Seq<char>) -> bool {
    &&& 0 < s.len() <= 64
    &&& forall|i: int| 0 <= i < s.len() ==> is_ascii_alnum(#[trigger] s[i]) || s[i] == '_' || s[i] == '-'
}

/// Whether `value` is a valid parameter key.
pub fn valid_parameter_key(value: &str) -> (r: bool)
    ensures
        r == parameter_key_ok(value@),
{
    let v = crate::text::chars_of(value);
    if v.len() == 0 || v.len() > 64 {
        return false;
    }
    let mut i: usize = 0;
    while i < v.len()
        invariant
            i <= v.len(),
            v@ == value@,
            0 < v@.len() <= 64,
            forall|j: int| 0 <= j < i ==> is_ascii_alnum(#[trigger] v@[j]) || v@[j] == '_' || v@[j] == '-',
        decreases v.len() - i,
    {
        let c = v[i];
        if !(('a' <= c && c <= 'z') || ('A' <= c && c <= 'Z') || ('0' <= c && c <= '9') || c == '_'
            || c == '-') {
            assert(!(is_ascii_alnum(v@[i as int]) || v@[i as int] == '_' || v@[i as int] == '-'));
            return false;
        }
        i += 1;
    }
    true
}

/// An exported function name: an ASCII letter or `_`, then ASCII letters,
/// digits or `_`.
pub open spec fn export_name_ok(s: Seq<char>) -> bool {
    &&& s.len() > 0
    &&& (crate::text::is_ascii_lower(s[0]) || crate::text::is_ascii_upper(s[0]) || s[0] == '_')
    &&& forall|i: int| 1 <= i < s.len() ==> is_ascii_alnum(#[trigger] s[i]) || s[i] == '_'
}

/// Whether `value` names an exported function.
pub fn valid_export_name(value: &str) -> (r: bool)
    ensures
        r == export_name_ok(value@),
{
    let v = crate::text::chars_of(value);
    if v.len() == 0 {
        return false;
    }
    let c0 = v[0];
    if !(('a' <= c0 && c0 <= 'z') || ('A' <= c0 && c0 <= 'Z') || c0 == '_') {
        return false;
    }
    let mut i: usize = 1;
    while i < v.len()
        invariant
            1 <= i <= v.len(),
            v@ == value@,
            forall|j: int| 1 <= j < i ==> is_ascii_alnum(#[trigger] v@[j]) || v@[j] == '_',
        decreases v.len() - i,
    {
        let c = v[i];
        if !(('a' <= c && c <= 'z') || ('A' <= c && c <= 'Z') || ('0' <= c && c <= '9') || c == '_') {
            assert(!(is_ascii_alnum(v@[i as int]) || v@[i as int] == '_'));
            return false;
        }
        i += 1;
    }
    true
}

/// A declared script parameter under the rules: a valid key, a known kind,
/// and a default that is a scalar.
pub open spec fn script_parameter(p: ScriptParamSpec) -> Result<ParameterView, Seq<char>> {
    if !parameter_key_ok(p.key) {
        Err(quoted_after("invalid parameter key '"@, p.key))
    } else {
        match parameter_kind_named(p.kind) {
            None => Err(quoted_after("unknown parameter kind '"@, p.kind)),
            Some(k) => if p.default == Some(Seq::<char>::empty()) {
                Err("parameter defaults must be scalar values"@)
            } else {
                Ok(
                    ParameterView {
                        key: p.key,
                        label: p.label,
                        kind: k,
                        required: p.required,
                        default_value: p.default,
                        choices: p.choices,
                    },
                )
            },
        }
    }
}

/// `script_parameter`, as a function value.
pub open spec fn script_parameter_fn() -> spec_fn(ScriptParamSpec) -> Result<ParameterView, Seq<char>> {
    |p: ScriptParamSpec| script_parameter(p)
}

/// Checks one declared script parameter.
fn parse_parameter(p: &ScriptManifestParameter) -> (r: Result<ActionParameter, String>)
    ensures
        match script_parameter(p@) {
            Ok(x) => r matches Ok(y) && y@ == x,
            Err(e) => r matches Err(y) && y@ == e,
        },
{
    if !valid_parameter_key(p.key.as_str()) {
        return Err(quote_after("invalid parameter key '", p.key.as_str()));
    }
    let kind = match parse_parameter_kind(p.kind.as_str()) {
        Some(k) => k,
        None => return Err(quote_after("unknown parameter kind '", p.kind.as_str())),
    };
    if let Some(d) = &p.default {
        if d.as_str().unicode_len() == 0 {
            assert(d@ =~= Seq::<char>::empty());
            return Err("parameter defaults must be scalar values".to_string());
        }
    }
    Ok(
        ActionParameter {
            key: copy_string(&p.key),
            label: copy_string(&p.label),
            kind,
            required: p.required,
            default_value: copy_opt(&p.default),
            choices: copy_strings(&p.choices),
        },
    )
}

/// Checks the parameters of a script action, stopping at the first error.
fn parse_parameters(ps: &Vec<ScriptManifestParameter>) -> (r: Result<Vec<ActionParameter>, String>)
    ensures
        match map_ok(script_params_view(ps@), script_parameter_fn()) {
            Ok(x) => r matches Ok(y) && parameters_view(y@) == x,
            Err(e) => r matches Err(y) && y@ == e,
        },
{
    let ghost pv = script_params_view(ps@);
    let mut out: Vec<ActionParameter> = Vec::new();
    let mut i: usize = 0;
    proof {
        lemma_map_ok_ends(pv, script_parameter_fn());
        assert(parameters_view(out@) =~= Seq::<ParameterView>::empty());
    }
    while i < ps.len()
        invariant
            i <= ps.len(),
            pv == script_params_view(ps@),
            map_ok(pv.take(i as int), script_parameter_fn()) == Ok::<_, Seq<char>>(
                parameters_view(out@),
            ),
        decreases ps.len() - i,
    {
        proof {
            lemma_map_ok_step(pv, script_parameter_fn(), i as int);
        }
        match parse_parameter(&ps[i]) {
            Ok(p) => {
                let ghost before = out@;
                out.push(p);
                assert(parameters_view(out@) =~= parameters_view(before).push(p@));
            },
            Err(e) => return Err(e),
        }
        i += 1;
    }
    proof {
        lemma_map_ok_ends(pv, script_parameter_fn());
    }
    Ok(out)
}

/// A declared script action under the rules: text input and output, an
/// exported handler name, known sources and dismiss policy, valid
/// parameters and a valid action ID.
pub open spec fn script_action(a: ScriptActionSpec, plugin_id: Seq<char>) -> Result<
    DescriptorView,
    Seq<char>,
> {
    if a.input_kind != "text"@ || a.output.format != "text"@ {
        Err("script actions currently support text input and output only"@)
    } else if !export_name_ok(a.handler) {
        Err(quoted_after("invalid exported handler '"@, a.handler))
    } else {
        match map_ok(a.allowed_sources, source_fn()) {
            Err(e) => Err(e),
            Ok(sources) => match dismiss_named(a.dismiss_policy) {
                None => Err(quoted_after("unknown dismiss policy '"@, a.dismiss_policy)),
                Some(dismiss) => match map_ok(a.parameters, script_parameter_fn()) {
                    Err(e) => Err(e),
                    Ok(params) => if valid_token(a.id) {
                        Ok(
                            DescriptorView {
                                plugin_id,
                                id: a.id,
                                display_name: a.name,
                                kind: ActionKindView::Script(
                                    DefinitionView {
                                        body: a.handler,
                                        parameters: params,
                                        allowed_sources: sources,
                                        dismiss_policy: dismiss,
                                        output: output_policy(a.output),
                                    },
                                ),
                            },
                        )
                    } else {
                        Err(action_id_error_text(a.id))
                    },
                },
            },
        }
    }
}

/// `script_action` for one package, as a function value.
pub open spec fn script_action_fn(plugin_id: Seq<char>) -> spec_fn(ScriptActionSpec) -> Result<
    DescriptorView,
    Seq<char>,
> {
    |a: ScriptActionSpec| script_action(a, plugin_id)
}

/// Builds one script action of the package `plugin_id`.
fn build_script_action(a: &ScriptManifestAction, plugin_id: &PluginId) -> (r: Result<
    ActionDescriptor,
    String,
>)
    ensures
        match script_action(a@, plugin_id@) {
            Ok(d) => r matches Ok(x) && x@ == d,
            Err(e) => r matches Err(x) && x@ == e,
        },
{
    if !str_eq(a.input_kind.as_str(), "text") || !str_eq(a.output.format.as_str(), "text") {
        return Err("script actions currently support text input and output only".to_string());
    }
    if !valid_export_name(a.handler.as_str()) {
        return Err(quote_after("invalid exported handler '", a.handler.as_str()));
    }
    let allowed_sources = match parse_sources(&a.allowed_sources) {
        Ok(v) => v,
        Err(e) => return Err(e),
    };
    let dismiss_policy = match parse_dismiss(a.dismiss_policy.as_str()) {
        Some(d) => d,
        None => return Err(quote_after("unknown dismiss policy '", a.dismiss_policy.as_str())),
    };
    let parameters = match parse_parameters(&a.parameters) {
        Ok(v) => v,
        Err(e) => return Err(e),
    };
    let id = match ActionId::parse(a.id.as_str()) {
        Ok(id) => id,
        Err(error) => return Err(error.to_string()),
    };
    let definition = ScriptActionDefinition {
        handler: copy_string(&a.handler),
        parameters,
        allowed_sources,
        dismiss_policy,
        output: ActionOutputPolicy {
            allow_copy: a.output.allow_copy,
            allow_favorite: a.output.allow_favorite,
            allow_replace: a.output.allow_replace,
        },
    };
    Ok(ActionDescriptor::script(plugin_id.clone(), id, copy_string(&a.name), definition))
}

/// The capabilities a list of names requests, each once, in first-seen
/// order; an unknown name is an error.
pub open spec fn capabilities_of(names: Seq<Seq<char>>) -> Result<Seq<Capability>, Seq<char>>
    decreases names.len(),
{
    if names.len() == 0 {
        Ok(Seq::empty())
    } else {
        match capabilities_of(names.drop_last()) {
            Err(e) => Err(e),
            Ok(prefix) => match capability_named(names.last()) {
                None => Err("unknown capability '"@ + names.last() + "'"@),
                Some(c) => if prefix.contains(c) {
                    Ok(prefix)
                } else {
                    Ok(prefix.push(c))
                },
            },
        }
    }
}

/// An error found in a prefix of the names stays the error of all of them.
proof fn lemma_capabilities_err(names: Seq<Seq<char>>, n: int)
    requires
        0 <= n <= names.len(),
        capabilities_of(names.take(n)) is Err,
    ensures
        capabilities_of(names) == capabilities_of(names.take(n)),
    decreases names.len() - n,
{
    if n < names.len() {
        assert(names.take(n + 1).drop_last() =~= names.take(n));
        lemma_capabilities_err(names, n + 1);
    } else {
        assert(names.take(n) =~= names);
    }
}

/// Whether `caps` holds `c`.
fn holds_capability(caps: &Vec<Capability>, c: Capability) -> (r: bool)
    ensures
        r == caps@.contains(c),
{
    let mut i: usize = 0;
    while i < caps.len()
        invariant
            i <= caps.len(),
            forall|j: int| 0 <= j < i ==> caps@[j] != c,
        decreases caps.len() - i,
    {
        if caps[i] == c {
            return true;
        }
        i += 1;
    }
    false
}

/// Copies a declared network rule.
fn copy_rule(r: &ManifestNetworkRule) -> (c: ManifestNetworkRule)
    ensures
        c@ == r@,
{
    ManifestNetworkRule {
        scheme: copy_string(&r.scheme),
        host: copy_string(&r.host),
        port: r.port,
        methods: copy_strings(&r.methods),
        path_prefixes: copy_strings(&r.path_prefixes),
    }
}

/// The capabilities that `names` request.
fn parse_capabilities(names: &Vec<String>) -> (r: Result<Vec<Capability>, String>)
    ensures
        match capabilities_of(strings_view(names@)) {
            Ok(x) => r matches Ok(y) && y@ == x,
            Err(e) => r matches Err(y) && y@ == e,
        },
{
    let ghost nv = strings_view(names@);
    let mut caps: Vec<Capability> = Vec::new();
    let mut i: usize = 0;
    assert(nv.take(0) =~= Seq::<Seq<char>>::empty());
    while i < names.len()
        invariant
            i <= names.len(),
            nv == strings_view(names@),
            capabilities_of(nv.take(i as int)) == Ok::<_, Seq<char>>(caps@),
        decreases names.len() - i,
    {
        assert(nv.take(i + 1).drop_last() =~= nv.take(i as int));
        assert(nv.take(i + 1).last() == names@[i as int]@);
        match Capability::parse_manifest(names[i].as_str()) {
            Ok(c) => {
                if !holds_capability(&caps, c) {
                    caps.push(c);
                }
            },
            Err(e) => {
                proof {
                    lemma_capabilities_err(nv, i + 1);
                }
                return Err(e);
            },
        }
        i += 1;
    }
    assert(nv.take(names.len() as int) =~= nv);
    Ok(caps)
}

/// `a` followed by `b`.
fn chain_strings(a: &Vec<String>, b: &Vec<String>) -> (r: Vec<String>)
    ensures
        strings_view(r@) == strings_view(a@) + strings_view(b@),
{
    let mut out = copy_strings(a);
    let mut i: usize = 0;
    while i < b.len()
        invariant
            i <= b.len(),
            strings_view(out@) == strings_view(a@) + strings_view(b@).take(i as int),
        decreases b.len() - i,
    {
        let ghost before = out@;
        out.push(copy_string(&b[i]));
        assert(strings_view(out@) =~= strings_view(before).push(b@[i as int]@));
        assert(strings_view(b@).take(i + 1) =~= strings_view(b@).take(i as int).push(
            b@[i as int]@,
        ));
        assert(strings_view(out@) =~= strings_view(a@) + strings_view(b@).take(i + 1));
        i += 1;
    }
    assert(strings_view(b@).take(b.len() as int) =~= strings_view(b@));
    out
}

/// The model of a script package definition.
pub struct ScriptPackageView {
    pub plugin: PluginView,
    pub version: Seq<char>,
    pub entry: Seq<char>,
    pub actions: Seq<DescriptorView>,
    pub network_rules: Seq<RuleSpec>,
}

/// The models of a list of rules.
pub open spec fn rules_view(r: Seq<ScriptNetworkRule>) -> Seq<RuleSpec> {
    r.map_values(|x: ScriptNetworkRule| x@)
}

/// What a script package declares, once its manifest has been checked.
#[derive(Debug)]
pub struct ScriptPackageDefinition {
    pub plugin: PluginDescriptor,
    pub version: String,
    pub entry: String,
    pub actions: Vec<ActionDescriptor>,
    pub network_rules: Vec<ScriptNetworkRule>,
}

impl View for ScriptPackageDefinition {
    type V = ScriptPackageView;

    open spec fn view(&self) -> ScriptPackageView {
        ScriptPackageView {
            plugin: self.plugin@,
            version: self.version@,
            entry: self.entry@,
            actions: descriptors_view(self.actions@),
            network_rules: rules_view(self.network_rules@),
        }
    }
}

/// What the `semver` crate makes of a version requirement and a version:
/// whether the requirement, as `VersionReq::parse` reads it, matches the
/// version `major.minor.patch`, or the text of the parse error.
pub uninterp spec fn requirement_matches(requirement: Seq<char>, major: u64, minor: u64, patch: u64) -> Result<
    bool,
    Seq<char>,
>;

/// Parses `requirement` with `semver::VersionReq::parse` and asks the
/// result's `matches` about `Version::new(major, minor, patch)`. The
/// contract names the outcome and claims no more of it.
#[verifier::external_body]
fn version_requirement_matches(requirement: &str, major: u64, minor: u64, patch: u64) -> (r: Result<
    bool,
    String,
>)
    ensures
        match r {
            Ok(b) => requirement_matches(requirement@, major, minor, patch) == Ok::<bool, Seq<char>>(b),
            Err(e) => requirement_matches(requirement@, major, minor, patch) == Err::<bool, Seq<char>>(
                e@,
            ),
        },
{
    match semver::VersionReq::parse(requirement) {
        Ok(req) => Ok(req.matches(&semver::Version::new(major, minor, patch))),
        Err(error) => Err(error.to_string()),
    }
}

/// What the `semver` crate makes of a version: the text that the parsed
/// `Version` displays as, or the text of the parse error.
pub uninterp spec fn normalized_version(text: Seq<char>) -> Result<Seq<char>, Seq<char>>;

/// Parses `text` with `semver::Version::parse` and displays the result. The
/// contract names the outcome and claims no more of it.
#[verifier::external_body]
fn parse_version(text: &str) -> (r: Result<String, String>)
    ensures
        match r {
            Ok(v) => normalized_version(text@) == Ok::<Seq<char>, Seq<char>>(v@),
            Err(e) => normalized_version(text@) == Err::<Seq<char>, Seq<char>>(e@),
        },
{
    match semver::Version::parse(text) {
        Ok(version) => Ok(version.to_string()),
        Err(error) => Err(error.to_string()),
    }
}

/// The first checks of a decoded script manifest, given what `semver` made
/// of its Host API requirement (against 1.0.0) and of its version: schema 1
/// and kind `script`, a requirement that parses and includes 1.0, a
/// version that parses, and an entry that is a package-relative `.js`
/// path. Gives the normalised version and the entry.
pub open spec fn script_head(
    m: ScriptManifestSpec,
    host_api: Result<bool, Seq<char>>,
    version: Result<Seq<char>, Seq<char>>,
) -> Result<(Seq<char>, Seq<char>), Seq<char>> {
    if m.schema_version != 1 || m.plugin.kind != "script"@ {
        Err("script packages require schema_version = 1 and kind = 'script'"@)
    } else {
        match host_api {
            Err(e) => Err("invalid Host API requirement: "@ + e),
            Ok(false) => Err("script package Host API must include 1.0"@),
            Ok(true) => match version {
                Err(e) => Err("invalid plugin version: "@ + e),
                Ok(v) => if crate::paths::js_path_ok(m.plugin.entry) {
                    Ok((v, m.plugin.entry))
                } else {
                    Err("script entry must be a package-relative .js path"@)
                },
            },
        }
    }
}

/// The rest of a script manifest's checks, once its entry module has been
/// found: the requested capabilities (each once), network rules only with
/// `network.request`, valid rules, a valid plugin ID, valid actions and at
/// least one of them.
pub open spec fn script_body(m: ScriptManifestSpec, version: Seq<char>, entry: Seq<char>) -> Result<
    ScriptPackageView,
    Seq<char>,
> {
    match capabilities_of(m.capabilities.required + m.capabilities.optional) {
        Err(e) => Err(e),
        Ok(caps) => if m.capabilities.network.len() > 0 && !caps.contains(
            Capability::NetworkRequest,
        ) {
            Err("network rules require the network.request capability"@)
        } else {
            match map_ok(m.capabilities.network, network_rule_fn()) {
                Err(e) => Err(e),
                Ok(rules) => if !valid_plugin_id(m.plugin.id) {
                    Err(plugin_id_error_text(m.plugin.id))
                } else {
                    match map_ok(m.actions, script_action_fn(m.plugin.id)) {
                        Err(e) => Err(e),
                        Ok(actions) => if actions.len() == 0 {
                            Err("script package has no actions"@)
                        } else {
                            Ok(
                                ScriptPackageView {
                                    plugin: PluginView {
                                        id: m.plugin.id,
                                        display_name: m.plugin.name,
                                        requested_capabilities: caps,
                                    },
                                    version,
                                    entry,
                                    actions,
                                    network_rules: rules,
                                },
                            )
                        },
                    }
                },
            }
        },
    }
}

/// `invalid script manifest: ` and what went wrong.
pub open spec fn invalid_manifest(e: Seq<char>) -> Seq<char> {
    "invalid script manifest: "@ + e
}

/// What a script manifest's text gives up to its entry module: the
/// document that the `toml` crate reads, decoded with unknown fields
/// denied, then `script_head` on what `semver` makes of it.
pub open spec fn script_manifest_outcome(text: Seq<char>) -> Result<
    (ScriptManifestSpec, Seq<char>, Seq<char>),
    Seq<char>,
> {
    match crate::toml_tree::toml_document(text) {
        Err(e) => Err(invalid_manifest(e)),
        Ok(t) => match script_manifest_spec(t) {
            Err(e) => Err(invalid_manifest(e)),
            Ok(m) => match script_head(
                m,
                requirement_matches(m.plugin.host_api, 1, 0, 0),
                normalized_version(m.plugin.version),
            ) {
                Err(e) => Err(e),
                Ok((v, entry)) => Ok((m, v, entry)),
            },
        },
    }
}

/// A script manifest that passed its first checks: the decoded document,
/// the normalised version and the entry module path.
pub struct ScriptManifest {
    pub document: ScriptManifestDocument,
    pub version: String,
    pub entry: String,
}

impl ScriptManifest {
    /// Applies the first checks to a decoded manifest, given what `semver`
    /// made of its Host API requirement and of its version.
    pub fn check(
        document: ScriptManifestDocument,
        host_api: Result<bool, String>,
        version: Result<String, String>,
    ) -> (r: Result<Self, String>)
        ensures
            match script_head(
                document@,
                match host_api {
                    Ok(b) => Ok(b),
                    Err(e) => Err(e@),
                },
                match version {
                    Ok(v) => Ok(v@),
                    Err(e) => Err(e@),
                },
            ) {
                Ok((v, entry)) => r matches Ok(x) && x.document@ == document@ && x.version@ == v
                    && x.entry@ == entry,
                Err(e) => r matches Err(x) && x@ == e,
            },
    {
        if document.schema_version != 1 || !str_eq(document.plugin.kind.as_str(), "script") {
            return Err("script packages require schema_version = 1 and kind = 'script'".to_string());
        }
        match host_api {
            Err(e) => return Err(concat("invalid Host API requirement: ", e.as_str())),
            Ok(false) => return Err("script package Host API must include 1.0".to_string()),
            Ok(true) => {},
        }
        let version = match version {
            Err(e) => return Err(concat("invalid plugin version: ", e.as_str())),
            Ok(v) => v,
        };
        let entry = match crate::paths::validate_relative_js_path(document.plugin.entry.as_str()) {
            Ok(p) => p,
            Err(e) => return Err(e),
        };
        Ok(ScriptManifest { document, version, entry })
    }

    /// Reads a script manifest's text and applies its first checks.
    pub fn parse(text: &str) -> (r: Result<Self, String>)
        ensures
            match script_manifest_outcome(text@) {
                Ok((m, v, entry)) => r matches Ok(x) && x.document@ == m && x.version@ == v
                    && x.entry@ == entry,
                Err(e) => r matches Err(x) && x@ == e,
            },
    {
        let table = match crate::toml_tree::parse_toml_document(text) {
            Ok(t) => t,
            Err(e) => return Err(concat("invalid script manifest: ", e.as_str())),
        };
        let document = match decode_script_manifest(&table) {
            Ok(d) => d,
            Err(e) => return Err(concat("invalid script manifest: ", e.as_str())),
        };
        let host_api = version_requirement_matches(document.plugin.host_api.as_str(), 1, 0, 0);
        let version = parse_version(document.plugin.version.as_str());
        Self::check(document, host_api, version)
    }

    /// The package-relative path of the entry module.
    pub fn entry(&self) -> (r: &str)
        ensures
            r@ == self.entry@,
    {
        self.entry.as_str()
    }

    /// Applies the rest of the checks and gives the package definition.
    pub fn into_definition(self) -> (r: Result<ScriptPackageDefinition, String>)
        ensures
            match script_body(self.document@, self.version@, self.entry@) {
                Ok(d) => r matches Ok(x) && x@ == d,
                Err(e) => r matches Err(x) && x@ == e,
            },
    {
        let ghost body = script_body(self.document@, self.version@, self.entry@);
        let m = self.document;
        let names = chain_strings(&m.capabilities.required, &m.capabilities.optional);
        let caps = match parse_capabilities(&names) {
            Ok(c) => c,
            Err(e) => return Err(e),
        };
        if m.capabilities.network.len() > 0 && !holds_capability(&caps, Capability::NetworkRequest) {
            return Err("network rules require the network.request capability".to_string());
        }
        let ghost nv = manifest_rules_view(m.capabilities.network@);
        assert(nv == m@.capabilities.network);
        let mut rules: Vec<ScriptNetworkRule> = Vec::new();
        proof {
            lemma_map_ok_ends(nv, network_rule_fn());
            assert(rules_view(rules@) =~= Seq::<RuleSpec>::empty());
        }
        let mut i: usize = 0;
        while i < m.capabilities.network.len()
            invariant
                i <= m.capabilities.network.len(),
                nv == manifest_rules_view(m.capabilities.network@),
                body == script_body(self.document@, self.version@, self.entry@),
                map_ok(nv, network_rule_fn()) is Err ==> body == Err::<ScriptPackageView, Seq<char>>(
                    map_ok(nv, network_rule_fn())->Err_0,
                ),
                map_ok(nv.take(i as int), network_rule_fn()) == Ok::<_, Seq<char>>(
                    rules_view(rules@),
                ),
            decreases m.capabilities.network.len() - i,
        {
            proof {
                lemma_map_ok_step(nv, network_rule_fn(), i as int);
            }
            let rule = copy_rule(&m.capabilities.network[i]);
            match validate_network_rule(rule) {
                Ok(x) => {
                    let ghost before = rules@;
                    rules.push(x);
                    assert(rules_view(rules@) =~= rules_view(before).push(x@));
                },
                Err(e) => return Err(e),
            }
            i += 1;
        }
        proof {
            lemma_map_ok_ends(nv, network_rule_fn());
        }
        let plugin_id = match PluginId::parse(m.plugin.id.as_str()) {
            Ok(id) => id,
            Err(error) => return Err(error.to_string()),
        };
        let ghost av = script_actions_view(m.actions@);
        let ghost f = script_action_fn(m.plugin.id@);
        let mut actions: Vec<ActionDescriptor> = Vec::new();
        proof {
            lemma_map_ok_ends(av, f);
            assert(descriptors_view(actions@) =~= Seq::<DescriptorView>::empty());
        }
        let mut k: usize = 0;
        while k < m.actions.len()
            invariant
                k <= m.actions.len(),
                av == script_actions_view(m.actions@),
                body == script_body(self.document@, self.version@, self.entry@),
                f == script_action_fn(m.plugin.id@),
                plugin_id@ == m.plugin.id@,
                map_ok(av, f) is Err ==> body == Err::<ScriptPackageView, Seq<char>>(
                    map_ok(av, f)->Err_0,
                ),
                map_ok(av.take(k as int), f) == Ok::<_, Seq<char>>(descriptors_view(actions@)),
            decreases m.actions.len() - k,
        {
            proof {
                lemma_map_ok_step(av, f, k as int);
            }
            match build_script_action(&m.actions[k], &plugin_id) {
                Ok(d) => {
                    let ghost before = actions@;
                    actions.push(d);
                    assert(descriptors_view(actions@) =~= descriptors_view(before).push(d@));
                },
                Err(e) => return Err(e),
            }
            k += 1;
        }
        proof {
            lemma_map_ok_ends(av, f);
        }
        if actions.len() == 0 {
            return Err("script package has no actions".to_string());
        }
        let plugin = PluginDescriptor::new(plugin_id, m.plugin.name, caps);
        Ok(
            ScriptPackageDefinition {
                plugin,
                version: self.version,
                entry: self.entry,
                actions,
                network_rules: rules,
            },
        )
    }
}

/// An HTTP request a script asks the host to make.
#[derive(Clone, Debug)]
pub struct ScriptHttpRequest {
    pub method: String,
    pub url: String,
    pub headers: Vec<(String, String)>,
    pub body: Option<Vec<u8>>,
}

/// A call a script makes into the host.
#[derive(Clone, Debug)]
pub enum ScriptHostCall {
    Ai { system: Option<String>, input: String },
    Http(ScriptHttpRequest),
    StorageGet { key: String },
    StorageSet { key: String, value: String },
    StorageDelete { key: String },
}

} // verus!
