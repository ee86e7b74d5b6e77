//! Declarative packages: a TOML manifest whose actions send a prompt to the
//! model. Decoding follows the manifest schema with unknown fields denied;
//! then the package rules decide what the manifest may ask for.
use vstd::prelude::*;

use crate::actions::{
    ActionDescriptor, ActionInputSource, ActionKindView, ActionOutputPolicy, ActionParameter,
    DeclarativeActionDefinition, DefinitionView, DescriptorView, ParameterKind, ParameterView,
    PluginDescriptor, PluginView, descriptors_view, parameters_view,
};
use crate::plugin::{
    ActionId, Capability, PluginId, action_id_error_text, plugin_id_error_text, valid_plugin_id,
    valid_token,
};
use crate::provider::{opt_view, strings_view};
use crate::settings::DismissPolicy;
use crate::text::{concat, copy_string, str_eq, trim, trim_str};
use crate::toml_tree::{
    TomlValue, TomlView, check_known, entries_view, field_bool, field_opt_str, field_str,
    field_strings, field_table, field_tables, field_u32, get_bool, get_opt_str, get_str,
    get_strings, get_table, get_tables, get_u32, lemma_map_ok_ends, lemma_map_ok_step, map_ok,
    names_view, parse_toml_document, require_known, tables_view, toml_document,
};

verus! {

/// Table entries, as the decoders see them.
pub type Entries = Seq<(Seq<char>, TomlView)>;

/// The model of an action's output section.
pub struct OutputSpec {
    pub format: Seq<char>,
    pub allow_copy: bool,
    pub allow_favorite: bool,
    pub allow_replace: bool,
}

/// The keys of an output section.
pub open spec fn output_keys() -> Seq<Seq<char>> {
    seq!["format"@, "allow_copy"@, "allow_favorite"@, "allow_replace"@]
}

/// Decoding an output section.
pub open spec fn output_spec(t: Entries) -> Result<OutputSpec, Seq<char>> {
    let known = check_known(t, output_keys());
    let format = field_str(t, "format"@);
    let copy = field_bool(t, "allow_copy"@);
    let favorite = field_bool(t, "allow_favorite"@);
    let replace = field_bool(t, "allow_replace"@);
    if known is Err {
        Err(known->Err_0)
    } else if format is Err {
        Err(format->Err_0)
    } else if copy is Err {
        Err(copy->Err_0)
    } else if favorite is Err {
        Err(favorite->Err_0)
    } else if replace is Err {
        Err(replace->Err_0)
    } else {
        Ok(
            OutputSpec {
                format: format->Ok_0,
                allow_copy: copy->Ok_0,
                allow_favorite: favorite->Ok_0,
                allow_replace: replace->Ok_0,
            },
        )
    }
}

/// A decoded output section.
pub struct ManifestOutput {
    pub format: String,
    pub allow_copy: bool,
    pub allow_favorite: bool,
    pub allow_replace: bool,
}

impl View for ManifestOutput {
    type V = OutputSpec;

    open spec fn view(&self) -> OutputSpec {
        OutputSpec {
            format: self.format@,
            allow_copy: self.allow_copy,
            allow_favorite: self.allow_favorite,
            allow_replace: self.allow_replace,
        }
    }
}

/// Decodes an output section.
pub fn decode_output(t: &Vec<(String, TomlValue)>) -> (r: Result<ManifestOutput, String>)
    ensures
        match output_spec(entries_view(t@)) {
            Ok(o) => r matches Ok(x) && x@ == o,
            Err(e) => r matches Err(x) && x@ == e,
        },
{
    let keys = ["format", "allow_copy", "allow_favorite", "allow_replace"];
    assert(names_view(keys@) =~= output_keys());
    if let Err(e) = require_known(t, &keys) {
        return Err(e);
    }
    let format = match get_str(t, "format") {
        Ok(v) => v,
        Err(e) => return Err(e),
    };
    let allow_copy = match get_bool(t, "allow_copy") {
        Ok(v) => v,
        Err(e) => return Err(e),
    };
    let allow_favorite = match get_bool(t, "allow_favorite") {
        Ok(v) => v,
        Err(e) => return Err(e),
    };
    let allow_replace = match get_bool(t, "allow_replace") {
        Ok(v) => v,
        Err(e) => return Err(e),
    };
    Ok(ManifestOutput { format, allow_copy, allow_favorite, allow_replace })
}

/// The model of a declared parameter, before its kind is checked.
pub struct ParamSpec {
    pub key: Seq<char>,
    pub label: Seq<char>,
    pub kind: Seq<char>,
    pub required: bool,
    pub default: Option<Seq<char>>,
    pub choices: Seq<Seq<char>>,
}

/// The keys of a parameter table.
pub open spec fn parameter_keys() -> Seq<Seq<char>> {
    seq!["key"@, "label"@, "kind"@, "required"@, "default"@, "choices"@]
}

/// Decoding a parameter table.
pub open spec fn param_spec(t: Entries) -> Result<ParamSpec, Seq<char>> {
    let known = check_known(t, parameter_keys());
    let key = field_str(t, "key"@);
    let label = field_str(t, "label"@);
    let kind = field_str(t, "kind"@);
    let required = field_bool(t, "required"@);
    let default = field_opt_str(t, "default"@);
    let choices = field_strings(t, "choices"@, false);
    if known is Err {
        Err(known->Err_0)
    } else if key is Err {
        Err(key->Err_0)
    } else if label is Err {
        Err(label->Err_0)
    } else if kind is Err {
        Err(kind->Err_0)
    } else if required is Err {
        Err(required->Err_0)
    } else if default is Err {
        Err(default->Err_0)
    } else if choices is Err {
        Err(choices->Err_0)
    } else {
        Ok(
            ParamSpec {
                key: key->Ok_0,
                label: label->Ok_0,
                kind: kind->Ok_0,
                required: required->Ok_0,
                default: default->Ok_0,
                choices: choices->Ok_0,
            },
        )
    }
}

/// Decoding a parameter table, as a function value.
pub open spec fn param_spec_fn() -> spec_fn(Entries) -> Result<ParamSpec, Seq<char>> {
    |t: Entries| param_spec(t)
}

/// A decoded parameter table.
pub struct ManifestParameter {
    pub key: String,
    pub label: String,
    pub kind: String,
    pub required: bool,
    pub default: Option<String>,
    pub choices: Vec<String>,
}

impl View for ManifestParameter {
    type V = ParamSpec;

    open spec fn view(&self) -> ParamSpec {
        ParamSpec {
            key: self.key@,
            label: self.label@,
            kind: self.kind@,
            required: self.required,
            default: opt_view(self.default),
            choices: strings_view(self.choices@),
        }
    }
}

/// Decodes a parameter table.
fn decode_parameter(t: &Vec<(String, TomlValue)>) -> (r: Result<ManifestParameter, String>)
    ensures
        match param_spec(entries_view(t@)) {
            Ok(p) => r matches Ok(x) && x@ == p,
            Err(e) => r matches Err(x) && x@ == e,
        },
{
    let keys = ["key", "label", "kind", "required", "default", "choices"];
    assert(names_view(keys@) =~= parameter_keys());
    if let Err(e) = require_known(t, &keys) {
        return Err(e);
    }
    let key = match get_str(t, "key") {
        Ok(v) => v,
        Err(e) => return Err(e),
    };
    let label = match get_str(t, "label") {
        Ok(v) => v,
        Err(e) => return Err(e),
    };
    let kind = match get_str(t, "kind") {
        Ok(v) => v,
        Err(e) => return Err(e),
    };
    let required = match get_bool(t, "required") {
        Ok(v) => v,
        Err(e) => return Err(e),
    };
    let default = match get_opt_str(t, "default") {
        Ok(v) => v,
        Err(e) => return Err(e),
    };
    let choices = match get_strings(t, "choices", false) {
        Ok(v) => v,
        Err(e) => return Err(e),
    };
    Ok(ManifestParameter { key, label, kind, required, default, choices })
}

/// The models of decoded parameters.
pub open spec fn manifest_params_view(p: Seq<ManifestParameter>) -> Seq<ParamSpec> {
    p.map_values(|x: ManifestParameter| x@)
}

/// Decodes a list of parameter tables.
fn decode_parameters(ts: &Vec<&Vec<(String, TomlValue)>>) -> (r: Result<Vec<ManifestParameter>, String>)
    ensures
        match map_ok(tables_view(ts@), param_spec_fn()) {
            Ok(p) => r matches Ok(x) && manifest_params_view(x@) == p,
            Err(e) => r matches Err(x) && x@ == e,
        },
{
    let ghost tv = tables_view(ts@);
    let mut out: Vec<ManifestParameter> = Vec::new();
    let mut i: usize = 0;
    proof {
        lemma_map_ok_ends(tv, param_spec_fn());
        assert(manifest_params_view(out@) =~= Seq::<ParamSpec>::empty());
    }
    while i < ts.len()
        invariant
            i <= ts.len(),
            tv == tables_view(ts@),
            map_ok(tv.take(i as int), param_spec_fn()) == Ok::<_, Seq<char>>(
                manifest_params_view(out@),
            ),
        decreases ts.len() - i,
    {
        proof {
            lemma_map_ok_step(tv, param_spec_fn(), i as int);
            assert(tv[i as int] == entries_view(ts@[i as int]@));
        }
        match decode_parameter(ts[i]) {
            Ok(p) => {
                let ghost before = out@;
                out.push(p);
                assert(manifest_params_view(out@) =~= manifest_params_view(before).push(p@));
            },
            Err(e) => return Err(e),
        }
        i += 1;
    }
    proof {
        lemma_map_ok_ends(tv, param_spec_fn());
    }
    Ok(out)
}

/// The model of a declared declarative action, before the package rules.
pub struct DeclActionSpec {
    pub id: Seq<char>,
    pub name: Seq<char>,
    pub input_kind: Seq<char>,
    pub allowed_sources: Seq<Seq<char>>,
    pub prompt: Seq<char>,
    pub model_profile: Seq<char>,
    pub dismiss_policy: Seq<char>,
    pub parameters: Seq<ParamSpec>,
    pub output: OutputSpec,
}

/// The keys of a declarative action table.
pub open spec fn decl_action_keys() -> Seq<Seq<char>> {
    seq![
        "id"@,
        "name"@,
        "input_kind"@,
        "allowed_sources"@,
        "prompt"@,
        "model_profile"@,
        "dismiss_policy"@,
        "parameters"@,
        "output"@,
    ]
}

/// Decoding a declarative action table.
pub open spec fn decl_action_spec(t: Entries) -> Result<DeclActionSpec, Seq<char>> {
    let known = check_known(t, decl_action_keys());
    let id = field_str(t, "id"@);
    let name = field_str(t, "name"@);
    let input_kind = field_str(t, "input_kind"@);
    let sources = field_strings(t, "allowed_sources"@, true);
    let prompt = field_str(t, "prompt"@);
    let profile = field_str(t, "model_profile"@);
    let dismiss = field_str(t, "dismiss_policy"@);
    let params = match field_tables(t, "parameters"@, false) {
        Err(e) => Err(e),
        Ok(ts) => map_ok(ts, param_spec_fn()),
    };
    let output = match field_table(t, "output"@) {
        Err(e) => Err(e),
        Ok(o) => output_spec(o),
    };
    if known is Err {
        Err(known->Err_0)
    } else if id is Err {
        Err(id->Err_0)
    } else if name is Err {
        Err(name->Err_0)
    } else if input_kind is Err {
        Err(input_kind->Err_0)
    } else if sources is Err {
        Err(sources->Err_0)
    } else if prompt is Err {
        Err(prompt->Err_0)
    } else if profile is Err {
        Err(profile->Err_0)
    } else if dismiss is Err {
        Err(dismiss->Err_0)
    } else if params is Err {
        Err(params->Err_0)
    } else if output is Err {
        Err(output->Err_0)
    } else {
        Ok(
            DeclActionSpec {
                id: id->Ok_0,
                name: name->Ok_0,
                input_kind: input_kind->Ok_0,
                allowed_sources: sources->Ok_0,
                prompt: prompt->Ok_0,
                model_profile: profile->Ok_0,
                dismiss_policy: dismiss->Ok_0,
                parameters: params->Ok_0,
                output: output->Ok_0,
            },
        )
    }
}

/// Decoding a declarative action table, as a function value.
pub open spec fn decl_action_spec_fn() -> spec_fn(Entries) -> Result<DeclActionSpec, Seq<char>> {
    |t: Entries| decl_action_spec(t)
}

/// A decoded declarative action table.
pub struct DeclManifestAction {
    pub id: String,
    pub name: String,
    pub input_kind: String,
    pub allowed_sources: Vec<String>,
    pub prompt: String,
    pub model_profile: String,
    pub dismiss_policy: String,
    pub parameters: Vec<ManifestParameter>,
    pub output: ManifestOutput,
}

impl View for DeclManifestAction {
    type V = DeclActionSpec;

    open spec fn view(&self) -> DeclActionSpec {
        DeclActionSpec {
            id: self.id@,
            name: self.name@,
            input_kind: self.input_kind@,
            allowed_sources: strings_view(self.allowed_sources@),
            prompt: self.prompt@,
            model_profile: self.model_profile@,
            dismiss_policy: self.dismiss_policy@,
            parameters: manifest_params_view(self.parameters@),
            output: self.output@,
        }
    }
}

/// Decodes a list of parameter tables held by the field `parameters`.
fn decode_parameters_field(t: &Vec<(String, TomlValue)>) -> (r: Result<Vec<ManifestParameter>, String>)
    ensures
        match field_tables(entries_view(t@), "parameters"@, false) {
            Err(e) => r matches Err(x) && x@ == e,
            Ok(ts) => match map_ok(ts, param_spec_fn()) {
                Ok(p) => r matches Ok(x) && manifest_params_view(x@) == p,
                Err(e) => r matches Err(x) && x@ == e,
            },
        },
{
    match get_tables(t, "parameters", false) {
        Err(e) => Err(e),
        Ok(ts) => decode_parameters(&ts),
    }
}

/// Decodes a declarative action table.
fn decode_decl_action(t: &Vec<(String, TomlValue)>) -> (r: Result<DeclManifestAction, String>)
    ensures
        match decl_action_spec(entries_view(t@)) {
            Ok(a) => r matches Ok(x) && x@ == a,
            Err(e) => r matches Err(x) && x@ == e,
        },
{
    let keys = [
        "id",
        "name",
        "input_kind",
        "allowed_sources",
        "prompt",
        "model_profile",
        "dismiss_policy",
        "parameters",
        "output",
    ];
    assert(names_view(keys@) =~= decl_action_keys());
    if let Err(e) = require_known(t, &keys) {
        return Err(e);
    }
    let id = match get_str(t, "id") {
        Ok(v) => v,
        Err(e) => return Err(e),
    };
    let name = match get_str(t, "name") {
        Ok(v) => v,
        Err(e) => return Err(e),
    };
    let input_kind = match get_str(t, "input_kind") {
        Ok(v) => v,
        Err(e) => return Err(e),
    };
    let allowed_sources = match get_strings(t, "allowed_sources", true) {
        Ok(v) => v,
        Err(e) => return Err(e),
    };
    let prompt = match get_str(t, "prompt") {
        Ok(v) => v,
        Err(e) => return Err(e),
    };
    let model_profile = match get_str(t, "model_profile") {
        Ok(v) => v,
        Err(e) => return Err(e),
    };
    let dismiss_policy = match get_str(t, "dismiss_policy") {
        Ok(v) => v,
        Err(e) => return Err(e),
    };
    let parameters = match decode_parameters_field(t) {
        Ok(v) => v,
        Err(e) => return Err(e),
    };
    let output = match get_table(t, "output") {
        Ok(o) => match decode_output(o) {
            Ok(v) => v,
            Err(e) => return Err(e),
        },
        Err(e) => return Err(e),
    };
    Ok(
        DeclManifestAction {
            id,
            name,
            input_kind,
            allowed_sources,
            prompt,
            model_profile,
            dismiss_policy,
            parameters,
            output,
        },
    )
}

/// The models of decoded declarative actions.
pub open spec fn decl_actions_view(a: Seq<DeclManifestAction>) -> Seq<DeclActionSpec> {
    a.map_values(|x: DeclManifestAction| x@)
}

/// Decodes a list of declarative action tables.
fn decode_decl_actions(ts: &Vec<&Vec<(String, TomlValue)>>) -> (r: Result<Vec<DeclManifestAction>, String>)
    ensures
        match map_ok(tables_view(ts@), decl_action_spec_fn()) {
            Ok(a) => r matches Ok(x) && decl_actions_view(x@) == a,
            Err(e) => r matches Err(x) && x@ == e,
        },
{
    let ghost tv = tables_view(ts@);
    let mut out: Vec<DeclManifestAction> = Vec::new();
    let mut i: usize = 0;
    proof {
        lemma_map_ok_ends(tv, decl_action_spec_fn());
        assert(decl_actions_view(out@) =~= Seq::<DeclActionSpec>::empty());
    }
    while i < ts.len()
        invariant
            i <= ts.len(),
            tv == tables_view(ts@),
            map_ok(tv.take(i as int), decl_action_spec_fn()) == Ok::<_, Seq<char>>(
                decl_actions_view(out@),
            ),
        decreases ts.len() - i,
    {
        proof {
            lemma_map_ok_step(tv, decl_action_spec_fn(), i as int);
            assert(tv[i as int] == entries_view(ts@[i as int]@));
        }
        match decode_decl_action(ts[i]) {
            Ok(a) => {
                let ghost before = out@;
                out.push(a);
                assert(decl_actions_view(out@) =~= decl_actions_view(before).push(a@));
            },
            Err(e) => return Err(e),
        }
        i += 1;
    }
    proof {
        lemma_map_ok_ends(tv, decl_action_spec_fn());
    }
    Ok(out)
}

/// The model of a manifest's `[plugin]` section.
pub struct PluginSpec {
    pub id: Seq<char>,
    pub name: Seq<char>,
    pub version: Seq<char>,
    pub kind: Seq<char>,
    pub host_api: Seq<char>,
}

/// The keys of a declarative `[plugin]` section.
pub open spec fn decl_plugin_keys() -> Seq<Seq<char>> {
    seq!["id"@, "name"@, "version"@, "kind"@, "host_api"@]
}

/// Decoding a declarative `[plugin]` section.
pub open spec fn decl_plugin_spec(t: Entries) -> Result<PluginSpec, Seq<char>> {
    let known = check_known(t, decl_plugin_keys());
    let id = field_str(t, "id"@);
    let name = field_str(t, "name"@);
    let version = field_str(t, "version"@);
    let kind = field_str(t, "kind"@);
    let host_api = field_str(t, "host_api"@);
    if known is Err {
        Err(known->Err_0)
    } else if id is Err {
        Err(id->Err_0)
    } else if name is Err {
        Err(name->Err_0)
    } else if version is Err {
        Err(version->Err_0)
    } else if kind is Err {
        Err(kind->Err_0)
    } else if host_api is Err {
        Err(host_api->Err_0)
    } else {
        Ok(
            PluginSpec {
                id: id->Ok_0,
                name: name->Ok_0,
                version: version->Ok_0,
                kind: kind->Ok_0,
                host_api: host_api->Ok_0,
            },
        )
    }
}

/// A decoded `[plugin]` section.
pub struct ManifestPlugin {
    pub id: String,
    pub name: String,
    pub version: String,
    pub kind: String,
    pub host_api: String,
}

impl View for ManifestPlugin {
    type V = PluginSpec;

    open spec fn view(&self) -> PluginSpec {
        PluginSpec {
            id: self.id@,
            name: self.name@,
            version: self.version@,
            kind: self.kind@,
            host_api: self.host_api@,
        }
    }
}

/// Decodes the `[plugin]` section of a declarative manifest.
fn decode_decl_plugin(t: &Vec<(String, TomlValue)>) -> (r: Result<ManifestPlugin, String>)
    ensures
        match decl_plugin_spec(entries_view(t@)) {
            Ok(p) => r matches Ok(x) && x@ == p,
            Err(e) => r matches Err(x) && x@ == e,
        },
{
    let keys = ["id", "name", "version", "kind", "host_api"];
    assert(names_view(keys@) =~= decl_plugin_keys());
    if let Err(e) = require_known(t, &keys) {
        return Err(e);
    }
    let id = match get_str(t, "id") {
        Ok(v) => v,
        Err(e) => return Err(e),
    };
    let name = match get_str(t, "name") {
        Ok(v) => v,
        Err(e) => return Err(e),
    };
    let version = match get_str(t, "version") {
        Ok(v) => v,
        Err(e) => return Err(e),
    };
    let kind = match get_str(t, "kind") {
        Ok(v) => v,
        Err(e) => return Err(e),
    };
    let host_api = match get_str(t, "host_api") {
        Ok(v) => v,
        Err(e) => return Err(e),
    };
    Ok(ManifestPlugin { id, name, version, kind, host_api })
}

/// The model of a declarative `[capabilities]` section.
pub struct CapsSpec {
    pub required: Seq<Seq<char>>,
    pub optional: Seq<Seq<char>>,
}

/// Decoding a declarative `[capabilities]` section: `required` must be
/// there, `optional` defaults to empty.
pub open spec fn decl_caps_spec(t: Entries) -> Result<CapsSpec, Seq<char>> {
    let known = check_known(t, seq!["required"@, "optional"@]);
    let required = field_strings(t, "required"@, true);
    let optional = field_strings(t, "optional"@, false);
    if known is Err {
        Err(known->Err_0)
    } else if required is Err {
        Err(required->Err_0)
    } else if optional is Err {
        Err(optional->Err_0)
    } else {
        Ok(CapsSpec { required: required->Ok_0, optional: optional->Ok_0 })
    }
}

/// A decoded declarative `[capabilities]` section.
pub struct DeclCapabilities {
    pub required: Vec<String>,
    pub optional: Vec<String>,
}

impl View for DeclCapabilities {
    type V = CapsSpec;

    open spec fn view(&self) -> CapsSpec {
        CapsSpec { required: strings_view(self.required@), optional: strings_view(self.optional@) }
    }
}

/// Decodes the `[capabilities]` section of a declarative manifest.
fn decode_decl_caps(t: &Vec<(String, TomlValue)>) -> (r: Result<DeclCapabilities, String>)
    ensures
        match decl_caps_spec(entries_view(t@)) {
            Ok(c) => r matches Ok(x) && x@ == c,
            Err(e) => r matches Err(x) && x@ == e,
        },
{
    let keys = ["required", "optional"];
    assert(names_view(keys@) =~= seq!["required"@, "optional"@]);
    if let Err(e) = require_known(t, &keys) {
        return Err(e);
    }
    let required = match get_strings(t, "required", true) {
        Ok(v) => v,
        Err(e) => return Err(e),
    };
    let optional = match get_strings(t, "optional", false) {
        Ok(v) => v,
        Err(e) => return Err(e),
    };
    Ok(DeclCapabilities { required, optional })
}

/// The model of a decoded declarative manifest.
pub struct DeclManifestSpec {
    pub schema_version: u32,
    pub plugin: PluginSpec,
    pub capabilities: CapsSpec,
    pub actions: Seq<DeclActionSpec>,
}

/// The top-level keys of a manifest.
pub open spec fn manifest_keys() -> Seq<Seq<char>> {
    seq!["schema_version"@, "plugin"@, "capabilities"@, "actions"@]
}

/// Decoding a declarative manifest's document.
pub open spec fn decl_manifest_spec(t: Entries) -> Result<DeclManifestSpec, Seq<char>> {
    let known = check_known(t, manifest_keys());
    let schema = field_u32(t, "schema_version"@);
    let plugin = match field_table(t, "plugin"@) {
        Err(e) => Err(e),
        Ok(p) => decl_plugin_spec(p),
    };
    let caps = match field_table(t, "capabilities"@) {
        Err(e) => Err(e),
        Ok(c) => decl_caps_spec(c),
    };
    let actions = match field_tables(t, "actions"@, true) {
        Err(e) => Err(e),
        Ok(ts) => map_ok(ts, decl_action_spec_fn()),
    };
    if known is Err {
        Err(known->Err_0)
    } else if schema is Err {
        Err(schema->Err_0)
    } else if plugin is Err {
        Err(plugin->Err_0)
    } else if caps is Err {
        Err(caps->Err_0)
    } else if actions is Err {
        Err(actions->Err_0)
    } else {
        Ok(
            DeclManifestSpec {
                schema_version: schema->Ok_0,
                plugin: plugin->Ok_0,
                capabilities: caps->Ok_0,
                actions: actions->Ok_0,
            },
        )
    }
}

/// A decoded declarative manifest.
pub struct DeclManifest {
    pub schema_version: u32,
    pub plugin: ManifestPlugin,
    pub capabilities: DeclCapabilities,
    pub actions: Vec<DeclManifestAction>,
}

impl View for DeclManifest {
    type V = DeclManifestSpec;

    open spec fn view(&self) -> DeclManifestSpec {
        DeclManifestSpec {
            schema_version: self.schema_version,
            plugin: self.plugin@,
            capabilities: self.capabilities@,
            actions: decl_actions_view(self.actions@),
        }
    }
}

/// Decodes a declarative manifest's document, unknown fields denied.
pub fn decode_decl_manifest(t: &Vec<(String, TomlValue)>) -> (r: Result<DeclManifest, String>)
    ensures
        match decl_manifest_spec(entries_view(t@)) {
            Ok(m) => r matches Ok(x) && x@ == m,
            Err(e) => r matches Err(x) && x@ == e,
        },
{
    let keys = ["schema_version", "plugin", "capabilities", "actions"];
    assert(names_view(keys@) =~= manifest_keys());
    if let Err(e) = require_known(t, &keys) {
        return Err(e);
    }
    let schema_version = match get_u32(t, "schema_version") {
        Ok(v) => v,
        Err(e) => return Err(e),
    };
    let plugin = match get_table(t, "plugin") {
        Ok(p) => match decode_decl_plugin(p) {
            Ok(v) => v,
            Err(e) => return Err(e),
        },
        Err(e) => return Err(e),
    };
    let capabilities = match get_table(t, "capabilities") {
        Ok(c) => match decode_decl_caps(c) {
            Ok(v) => v,
            Err(e) => return Err(e),
        },
        Err(e) => return Err(e),
    };
    let actions = match get_tables(t, "actions", true) {
        Ok(ts) => match decode_decl_actions(&ts) {
            Ok(v) => v,
            Err(e) => return Err(e),
        },
        Err(e) => return Err(e),
    };
    Ok(DeclManifest { schema_version, plugin, capabilities, actions })
}

/// `head` + `value` + `'`.
pub open spec fn quoted_after(head: Seq<char>, value: Seq<char>) -> Seq<char> {
    head + value + "'"@
}

/// Builds `head` + `value` + `'`.
pub fn quote_after(head: &str, value: &str) -> (r: String)
    ensures
        r@ == quoted_after(head@, value@),
{
    let a = concat(head, value);
    concat(a.as_str(), "'")
}

/// The input source a manifest names.
pub open spec fn source_named(s: Seq<char>) -> Option<ActionInputSource> {
    if s == "selection"@ {
        Some(ActionInputSource::Selection)
    } else if s == "manual"@ {
        Some(ActionInputSource::Manual)
    } else if s == "clipboard"@ {
        Some(ActionInputSource::Clipboard)
    } else {
        None
    }
}

/// An input source name, or the error for an unknown one.
pub open spec fn source_of(s: Seq<char>) -> Result<ActionInputSource, Seq<char>> {
    match source_named(s) {
        Some(x) => Ok(x),
        None => Err(quoted_after("unknown action source '"@, s)),
    }
}

/// `source_of`, as a function value.
pub open spec fn source_fn() -> spec_fn(Seq<char>) -> Result<ActionInputSource, Seq<char>> {
    |s: Seq<char>| source_of(s)
}

/// Reads an input source name.
pub fn parse_source(s: &str) -> (r: Result<ActionInputSource, String>)
    ensures
        match source_of(s@) {
            Ok(x) => r == Ok::<ActionInputSource, String>(x),
            Err(e) => r matches Err(x) && x@ == e,
        },
{
    if str_eq(s, "selection") {
        Ok(ActionInputSource::Selection)
    } else if str_eq(s, "manual") {
        Ok(ActionInputSource::Manual)
    } else if str_eq(s, "clipboard") {
        Ok(ActionInputSource::Clipboard)
    } else {
        Err(quote_after("unknown action source '", s))
    }
}

/// Reads a list of input source names, stopping at the first unknown one.
pub fn parse_sources(v: &Vec<String>) -> (r: Result<Vec<ActionInputSource>, String>)
    ensures
        match map_ok(strings_view(v@), source_fn()) {
            Ok(x) => r matches Ok(y) && y@ == x,
            Err(e) => r matches Err(y) && y@ == e,
        },
{
    let ghost sv = strings_view(v@);
    let mut out: Vec<ActionInputSource> = Vec::new();
    let mut i: usize = 0;
    proof {
        lemma_map_ok_ends(sv, source_fn());
    }
    while i < v.len()
        invariant
            i <= v.len(),
            sv == strings_view(v@),
            map_ok(sv.take(i as int), source_fn()) == Ok::<_, Seq<char>>(out@),
        decreases v.len() - i,
    {
        proof {
            lemma_map_ok_step(sv, source_fn(), i as int);
        }
        match parse_source(v[i].as_str()) {
            Ok(x) => out.push(x),
            Err(e) => return Err(e),
        }
        i += 1;
    }
    proof {
        lemma_map_ok_ends(sv, source_fn());
    }
    Ok(out)
}

/// The dismiss policy a manifest names.
pub open spec fn dismiss_named(s: Seq<char>) -> Option<DismissPolicy> {
    if s == "cancel"@ {
        Some(DismissPolicy::Cancel)
    } else if s == "continue"@ {
        Some(DismissPolicy::Continue)
    } else {
        None
    }
}

/// Reads a dismiss policy name.
pub fn parse_dismiss(s: &str) -> (r: Option<DismissPolicy>)
    ensures
        r == dismiss_named(s@),
{
    if str_eq(s, "cancel") {
        Some(DismissPolicy::Cancel)
    } else if str_eq(s, "continue") {
        Some(DismissPolicy::Continue)
    } else {
        None
    }
}

/// The parameter kind a manifest names.
pub open spec fn parameter_kind_named(s: Seq<char>) -> Option<ParameterKind> {
    if s == "text"@ {
        Some(ParameterKind::Text)
    } else if s == "enum"@ {
        Some(ParameterKind::Enum)
    } else if s == "boolean"@ {
        Some(ParameterKind::Boolean)
    } else if s == "number"@ {
        Some(ParameterKind::Number)
    } else {
        None
    }
}

/// Reads a parameter kind name.
pub fn parse_parameter_kind(s: &str) -> (r: Option<ParameterKind>)
    ensures
        r == parameter_kind_named(s@),
{
    if str_eq(s, "text") {
        Some(ParameterKind::Text)
    } else if str_eq(s, "enum") {
        Some(ParameterKind::Enum)
    } else if str_eq(s, "boolean") {
        Some(ParameterKind::Boolean)
    } else if str_eq(s, "number") {
        Some(ParameterKind::Number)
    } else {
        None
    }
}

/// A declared parameter of a declarative action, its kind checked.
pub open spec fn decl_parameter(p: ParamSpec) -> Result<ParameterView, Seq<char>> {
    match parameter_kind_named(p.kind) {
        None => Err(quoted_after("unknown parameter kind '"@, p.kind)),
        Some(k) => Ok(
            ParameterView {
                key: p.key,
                label: p.label,
                kind: k,
                required: p.required,
                default_value: p.default,
                choices: p.choices,
            },
        ),
    }
}

/// `decl_parameter`, as a function value.
pub open spec fn decl_parameter_fn() -> spec_fn(ParamSpec) -> Result<ParameterView, Seq<char>> {
    |p: ParamSpec| decl_parameter(p)
}

/// Checks the parameters of a declarative action, stopping at the first
/// unknown kind.
fn decl_parameters(ps: &Vec<ManifestParameter>) -> (r: Result<Vec<ActionParameter>, String>)
    ensures
        match map_ok(manifest_params_view(ps@), decl_parameter_fn()) {
            Ok(x) => r matches Ok(y) && parameters_view(y@) == x,
            Err(e) => r matches Err(y) && y@ == e,
        },
{
    let ghost pv = manifest_params_view(ps@);
    let mut out: Vec<ActionParameter> = Vec::new();
    let mut i: usize = 0;
    proof {
        lemma_map_ok_ends(pv, decl_parameter_fn());
        assert(parameters_view(out@) =~= Seq::<ParameterView>::empty());
    }
    while i < ps.len()
        invariant
            i <= ps.len(),
            pv == manifest_params_view(ps@),
            map_ok(pv.take(i as int), decl_parameter_fn()) == Ok::<_, Seq<char>>(
                parameters_view(out@),
            ),
        decreases ps.len() - i,
    {
        proof {
            lemma_map_ok_step(pv, decl_parameter_fn(), i as int);
        }
        let p = &ps[i];
        let kind = match parse_parameter_kind(p.kind.as_str()) {
            Some(k) => k,
            None => return Err(quote_after("unknown parameter kind '", p.kind.as_str())),
        };
        let parameter = ActionParameter {
            key: copy_string(&p.key),
            label: copy_string(&p.label),
            kind,
            required: p.required,
            default_value: crate::provider::copy_opt(&p.default),
            choices: crate::provider::copy_strings(&p.choices),
        };
        let ghost before = out@;
        out.push(parameter);
        assert(parameters_view(out@) =~= parameters_view(before).push(parameter@));
        i += 1;
    }
    proof {
        lemma_map_ok_ends(pv, decl_parameter_fn());
    }
    Ok(out)
}

/// The output policy of a decoded output section.
pub open spec fn output_policy(o: OutputSpec) -> ActionOutputPolicy {
    ActionOutputPolicy {
        allow_copy: o.allow_copy,
        allow_favorite: o.allow_favorite,
        allow_replace: o.allow_replace,
    }
}

/// A declared declarative action under the package rules: text input, the
/// package's prompt, the `Fast` profile and text output; known sources,
/// dismiss policy and parameter kinds; a valid action ID.
pub open spec fn decl_action(
    a: DeclActionSpec,
    plugin_id: Seq<char>,
    prompt_name: Seq<char>,
    prompt: Seq<char>,
) -> Result<DescriptorView, Seq<char>> {
    if a.input_kind != "text"@ || a.prompt != prompt_name || a.model_profile != "Fast"@
        || a.output.format != "text"@ {
        Err("unsupported declarative action input, prompt, profile, or output"@)
    } else {
        match map_ok(a.allowed_sources, source_fn()) {
            Err(e) => Err(e),
            Ok(sources) => match dismiss_named(a.dismiss_policy) {
                None => Err(quoted_after("unknown dismiss policy '"@, a.dismiss_policy)),
                Some(dismiss) => match map_ok(a.parameters, decl_parameter_fn()) {
                    Err(e) => Err(e),
                    Ok(params) => if valid_token(a.id) {
                        Ok(
                            DescriptorView {
                                plugin_id,
                                id: a.id,
                                display_name: a.name,
                                kind: ActionKindView::Declarative(
                                    DefinitionView {
                                        body: prompt,
                                        parameters: params,
                                        allowed_sources: sources,
                                        dismiss_policy: dismiss,
                                        output: output_policy(a.output),
                                    },
                                ),
                            },
                        )
                    } else {
                        Err(action_id_error_text(a.id))
                    },
                },
            },
        }
    }
}

/// `decl_action` for one package, as a function value.
pub open spec fn decl_action_fn(plugin_id: Seq<char>, prompt_name: Seq<char>, prompt: Seq<char>) -> spec_fn(
    DeclActionSpec,
) -> Result<DescriptorView, Seq<char>> {
    |a: DeclActionSpec| decl_action(a, plugin_id, prompt_name, prompt)
}

/// Builds one declarative action of the package `plugin_id`.
fn build_decl_action(
    a: &DeclManifestAction,
    plugin_id: &PluginId,
    prompt_name: &str,
    prompt: &str,
) -> (r: Result<ActionDescriptor, String>)
    ensures
        match decl_action(a@, plugin_id@, prompt_name@, prompt@) {
            Ok(d) => r matches Ok(x) && x@ == d,
            Err(e) => r matches Err(x) && x@ == e,
        },
{
    if !str_eq(a.input_kind.as_str(), "text") || !str_eq(a.prompt.as_str(), prompt_name)
        || !str_eq(a.model_profile.as_str(), "Fast") || !str_eq(a.output.format.as_str(), "text") {
        return Err("unsupported declarative action input, prompt, profile, or output".to_string());
    }
    let allowed_sources = match parse_sources(&a.allowed_sources) {
        Ok(v) => v,
        Err(e) => return Err(e),
    };
    let dismiss_policy = match parse_dismiss(a.dismiss_policy.as_str()) {
        Some(d) => d,
        None => return Err(quote_after("unknown dismiss policy '", a.dismiss_policy.as_str())),
    };
    let parameters = match decl_parameters(&a.parameters) {
        Ok(v) => v,
        Err(e) => return Err(e),
    };
    let id = match ActionId::parse(a.id.as_str()) {
        Ok(id) => id,
        Err(error) => return Err(error.to_string()),
    };
    let definition = DeclarativeActionDefinition {
        prompt: prompt.to_string(),
        parameters,
        allowed_sources,
        dismiss_policy,
        output: ActionOutputPolicy {
            allow_copy: a.output.allow_copy,
            allow_favorite: a.output.allow_favorite,
            allow_replace: a.output.allow_replace,
        },
    };
    Ok(ActionDescriptor::declarative(plugin_id.clone(), id, copy_string(&a.name), definition))
}

/// The model of a declarative package.
pub struct PackageView {
    pub plugin: PluginView,
    pub actions: Seq<DescriptorView>,
}

/// A decoded declarative manifest under the package rules: schema 1, kind
/// `declarative`, Host API `^1.0` and a version that is not blank; exactly
/// the `ai.invoke` capability; a valid plugin ID; each action valid; at
/// least one action.
pub open spec fn declarative_package(m: DeclManifestSpec, prompt_name: Seq<char>, prompt: Seq<char>) -> Result<
    PackageView,
    Seq<char>,
> {
    if m.schema_version != 1 || m.plugin.kind != "declarative"@ || m.plugin.host_api != "^1.0"@
        || trim(m.plugin.version).len() == 0 {
        Err("unsupported declarative package schema, kind, version, or Host API"@)
    } else if m.capabilities.optional.len() != 0 || m.capabilities.required != seq!["ai.invoke"@] {
        Err("built-in declarative actions may request only ai.invoke"@)
    } else if !valid_plugin_id(m.plugin.id) {
        Err(plugin_id_error_text(m.plugin.id))
    } else {
        match map_ok(m.actions, decl_action_fn(m.plugin.id, prompt_name, prompt)) {
            Err(e) => Err(e),
            Ok(actions) => if actions.len() == 0 {
                Err("declarative package has no actions"@)
            } else {
                Ok(
                    PackageView {
                        plugin: PluginView {
                            id: m.plugin.id,
                            display_name: m.plugin.name,
                            requested_capabilities: seq![Capability::AiInvoke],
                        },
                        actions,
                    },
                )
            },
        }
    }
}

/// What a declarative manifest's document gives: the decoding error, or the
/// package rules applied to the decoded manifest.
pub open spec fn declarative_from_document(t: Entries, prompt_name: Seq<char>, prompt: Seq<char>) -> Result<
    PackageView,
    Seq<char>,
> {
    match decl_manifest_spec(t) {
        Err(e) => Err(e),
        Ok(m) => declarative_package(m, prompt_name, prompt),
    }
}

/// What a declarative manifest's text gives, through the document the
/// `toml` crate reads from it.
pub open spec fn declarative_outcome(text: Seq<char>, prompt_name: Seq<char>, prompt: Seq<char>) -> Result<
    PackageView,
    Seq<char>,
> {
    match toml_document(text) {
        Err(e) => Err(e),
        Ok(t) => declarative_from_document(t, prompt_name, prompt),
    }
}

/// Whether a list of strings is exactly `["ai.invoke"]`.
fn only_ai_invoke(v: &Vec<String>) -> (r: bool)
    ensures
        r == (strings_view(v@) == seq!["ai.invoke"@]),
{
    if v.len() != 1 {
        assert(strings_view(v@).len() != 1);
        return false;
    }
    let r = str_eq(v[0].as_str(), "ai.invoke");
    proof {
        if r {
            assert(strings_view(v@) =~= seq!["ai.invoke"@]);
        } else {
            assert(strings_view(v@)[0] != seq!["ai.invoke"@][0]);
        }
    }
    r
}

/// A declarative package: its plugin and its actions.
pub struct DeclarativePackage {
    pub plugin: PluginDescriptor,
    pub actions: Vec<ActionDescriptor>,
}

impl View for DeclarativePackage {
    type V = PackageView;

    open spec fn view(&self) -> PackageView {
        PackageView { plugin: self.plugin@, actions: descriptors_view(self.actions@) }
    }
}

impl DeclarativePackage {
    /// Reads a package from its manifest text; `prompt_name` is the prompt
    /// file every action must name and `prompt` its contents.
    pub fn parse(manifest: &str, prompt_name: &str, prompt: &str) -> (r: Result<Self, String>)
        ensures
            match declarative_outcome(manifest@, prompt_name@, prompt@) {
                Ok(p) => r matches Ok(x) && x@ == p,
                Err(e) => r matches Err(x) && x@ == e,
            },
    {
        match parse_toml_document(manifest) {
            Err(e) => Err(e),
            Ok(document) => Self::from_document(&document, prompt_name, prompt),
        }
    }

    /// Reads a package from its manifest's parsed document.
    pub fn from_document(document: &Vec<(String, TomlValue)>, prompt_name: &str, prompt: &str) -> (r:
        Result<Self, String>)
        ensures
            match declarative_from_document(entries_view(document@), prompt_name@, prompt@) {
                Ok(p) => r matches Ok(x) && x@ == p,
                Err(e) => r matches Err(x) && x@ == e,
            },
    {
        let m = match decode_decl_manifest(document) {
            Ok(m) => m,
            Err(e) => return Err(e),
        };
        let version = trim_str(m.plugin.version.as_str());
        if m.schema_version != 1 || !str_eq(m.plugin.kind.as_str(), "declarative") || !str_eq(
            m.plugin.host_api.as_str(),
            "^1.0",
        ) || version.as_str().unicode_len() == 0 {
            return Err(
                "unsupported declarative package schema, kind, version, or Host API".to_string(),
            );
        }
        if m.capabilities.optional.len() != 0 || !only_ai_invoke(&m.capabilities.required) {
            proof {
                if m.capabilities.optional.len() != 0 {
                    assert(strings_view(m.capabilities.optional@).len() != 0);
                }
            }
            return Err("built-in declarative actions may request only ai.invoke".to_string());
        }
        assert(strings_view(m.capabilities.optional@).len() == 0);
        let plugin_id = match PluginId::parse(m.plugin.id.as_str()) {
            Ok(id) => id,
            Err(error) => return Err(error.to_string()),
        };
        let ghost f = decl_action_fn(m.plugin.id@, prompt_name@, prompt@);
        let ghost av = decl_actions_view(m.actions@);
        let mut actions: Vec<ActionDescriptor> = Vec::new();
        let mut i: usize = 0;
        proof {
            lemma_map_ok_ends(av, f);
            assert(descriptors_view(actions@) =~= Seq::<DescriptorView>::empty());
        }
        while i < m.actions.len()
            invariant
                i <= m.actions.len(),
                av == decl_actions_view(m.actions@),
                f == decl_action_fn(m.plugin.id@, prompt_name@, prompt@),
                plugin_id@ == m.plugin.id@,
                map_ok(av, f) is Err ==> declarative_from_document(
                    entries_view(document@),
                    prompt_name@,
                    prompt@,
                ) == Err::<PackageView, Seq<char>>(map_ok(av, f)->Err_0),
                map_ok(av.take(i as int), f) == Ok::<_, Seq<char>>(descriptors_view(actions@)),
            decreases m.actions.len() - i,
        {
            proof {
                lemma_map_ok_step(av, f, i as int);
            }
            match build_decl_action(&m.actions[i], &plugin_id, prompt_name, prompt) {
                Ok(d) => {
                    let ghost before = actions@;
                    actions.push(d);
                    assert(descriptors_view(actions@) =~= descriptors_view(before).push(d@));
                },
                Err(e) => return Err(e),
            }
            i += 1;
        }
        proof {
            lemma_map_ok_ends(av, f);
        }
        if actions.len() == 0 {
            return Err("declarative package has no actions".to_string());
        }
        let mut caps: Vec<Capability> = Vec::new();
        caps.push(Capability::AiInvoke);
        assert(caps@ =~= seq![Capability::AiInvoke]);
        let plugin = PluginDescriptor::new(plugin_id, copy_string(&m.plugin.name), caps);
        Ok(DeclarativePackage { plugin, actions })
    }
}

} // verus!
