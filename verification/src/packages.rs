//! Decisions of package management that need no file system: which files
//! a package may hold, what an import adds, and how network access is
//! described to the user.
use vstd::prelude::*;

use crate::actions::{PluginKind, plugin_kind_name};
use crate::paths::{extension, file_name};
use crate::plugin::Capability;
use crate::provider::strings_view;
use crate::script::ScriptNetworkRule;
use crate::text::{concat, copy_string, digits, digits_text, str_eq, string_from_chars};
use crate::toml_tree::{entries_view, field_str, field_table, get_str, get_table, parse_toml_document, toml_document, TomlView};

verus! {

/// The items of `items` joined by `sep`.
pub open spec fn join(items: Seq<Seq<char>>, sep: Seq<char>) -> Seq<char>
    decreases items.len(),
{
    if items.len() == 0 {
        Seq::empty()
    } else if items.len() == 1 {
        items[0]
    } else {
        join(items.drop_last(), sep) + sep + items.last()
    }
}

/// Joins strings with a separator.
pub fn join_strings(items: &Vec<String>, sep: &str) -> (r: String)
    ensures
        r@ == join(strings_view(items@), sep@),
{
    let ghost iv = strings_view(items@);
    if items.len() == 0 {
        return String::new();
    }
    let mut out = copy_string(&items[0]);
    let mut i: usize = 1;
    assert(iv.take(1) =~= seq![iv[0]]);
    while i < items.len()
        invariant
            1 <= i <= items.len(),
            iv == strings_view(items@),
            out@ == join(iv.take(i as int), sep@),
        decreases items.len() - i,
    {
        let a = concat(out.as_str(), sep);
        out = concat(a.as_str(), items[i].as_str());
        assert(iv.take(i + 1).drop_last() =~= iv.take(i as int));
        assert(iv.take(i + 1).last() == items@[i as int]@);
        i += 1;
    }
    assert(iv.take(items.len() as int) =~= iv);
    out
}

/// The port a rule reaches: its own, or the scheme's default.
pub open spec fn rule_port(rule: crate::script::RuleSpec) -> u16 {
    match rule.port {
        Some(p) => p,
        None => if rule.scheme == "https"@ {
            443
        } else {
            80
        },
    }
}

/// How a network rule is shown before import:
/// `scheme://host:port METHODS PREFIXES`, methods joined by `/`, path
/// prefixes by `,` (`/` when there are none).
pub open spec fn scope_text(rule: crate::script::RuleSpec) -> Seq<char> {
    rule.scheme + "://"@ + rule.host + ":"@ + digits(rule_port(rule) as nat) + " "@ + join(
        rule.methods,
        "/"@,
    ) + " "@ + if rule.path_prefixes.len() == 0 {
        "/"@
    } else {
        join(rule.path_prefixes, ","@)
    }
}

/// Describes a network rule.
pub fn network_scope(rule: &ScriptNetworkRule) -> (r: String)
    ensures
        r@ == scope_text(rule@),
{
    let port: u16 = match rule.port {
        Some(p) => p,
        None => if str_eq(rule.scheme.as_str(), "https") {
            443
        } else {
            80
        },
    };
    let digits_chars = digits_text(port as u64);
    let port_text = string_from_chars(&digits_chars);
    let methods = join_strings(&rule.methods, "/");
    let prefixes = if rule.path_prefixes.len() == 0 {
        "/".to_string()
    } else {
        join_strings(&rule.path_prefixes, ",")
    };
    let a = concat(rule.scheme.as_str(), "://");
    let b = concat(a.as_str(), rule.host.as_str());
    let c = concat(b.as_str(), ":");
    let d = concat(c.as_str(), port_text.as_str());
    let e = concat(d.as_str(), " ");
    let f = concat(e.as_str(), methods.as_str());
    let g = concat(f.as_str(), " ");
    let r = concat(g.as_str(), prefixes.as_str());
    proof {
        assert(strings_view(rule.path_prefixes@).len() == rule.path_prefixes@.len());
    }
    r
}

/// Describes each network rule of a package.
pub fn network_scopes(rules: &Vec<ScriptNetworkRule>) -> (r: Vec<String>)
    ensures
        r@.len() == rules@.len(),
        forall|i: int| 0 <= i < r@.len() ==> (#[trigger] r@[i])@ == scope_text(rules@[i]@),
{
    let mut out: Vec<String> = Vec::new();
    let mut i: usize = 0;
    while i < rules.len()
        invariant
            i <= rules.len(),
            out@.len() == i,
            forall|j: int| 0 <= j < i ==> (#[trigger] out@[j])@ == scope_text(rules@[j]@),
        decreases rules.len() - i,
    {
        out.push(network_scope(&rules[i]));
        i += 1;
    }
    out
}

/// The requested capabilities that were not granted before, in request
/// order.
pub open spec fn added_capabilities_of(requested: Seq<Capability>, granted: Seq<Capability>) -> Seq<
    Capability,
> {
    requested.filter(|c: Capability| !granted.contains(c))
}

/// Whether `caps` holds `c`.
fn holds(caps: &[Capability], c: Capability) -> (r: bool)
    ensures
        r == caps@.contains(c),
{
    let mut i: usize = 0;
    while i < caps.len()
        invariant
            i <= caps@.len(),
            forall|j: int| 0 <= j < i ==> caps@[j] != c,
        decreases caps.len() - i,
    {
        if caps[i] == c {
            return true;
        }
        i += 1;
    }
    false
}

/// The capabilities an import would grant beyond those granted before.
pub fn added_capabilities(requested: &[Capability], granted: &[Capability]) -> (r: Vec<Capability>)
    ensures
        r@ == added_capabilities_of(requested@, granted@),
{
    let mut out: Vec<Capability> = Vec::new();
    let mut i: usize = 0;
    proof {
        reveal(Seq::filter);
    }
    assert(requested@.take(0) =~= Seq::<Capability>::empty());
    while i < requested.len()
        invariant
            i <= requested@.len(),
            out@ == added_capabilities_of(requested@.take(i as int), granted@),
        decreases requested.len() - i,
    {
        let c = requested[i];
        proof {
            reveal(Seq::filter);
            assert(requested@.take(i + 1).drop_last() =~= requested@.take(i as int));
            assert(requested@.take(i + 1).last() == c);
        }
        if !holds(granted, c) {
            out.push(c);
        }
        i += 1;
    }
    assert(requested@.take(requested.len() as int) =~= requested@);
    out
}

/// Whether a package of `kind` may hold the file at `relative`: its
/// manifest, its icon, and prompts (`.md`) or modules (`.js`) by kind.
pub open spec fn package_file_ok(relative: Seq<char>, kind: PluginKind) -> bool {
    relative == "manifest.toml"@ || relative == "icon.svg"@ || match file_name(relative) {
        Some(n) => extension(n) == Some(
            match kind {
                PluginKind::Declarative => "md"@,
                PluginKind::Script => "js"@,
            },
        ),
        None => false,
    }
}

/// Accepts a file of a package of `kind` at the package-relative path
/// `relative`, or names it in the refusal.
pub fn check_package_file(relative: &str, kind: PluginKind) -> (r: Result<(), String>)
    ensures
        package_file_ok(relative@, kind) ==> r is Ok,
        !package_file_ok(relative@, kind) ==> (r matches Err(e) && e@ == plugin_kind_name(kind)
            + " packages cannot contain '"@ + relative@ + "'"@),
{
    let ext = match kind {
        PluginKind::Declarative => "md",
        PluginKind::Script => "js",
    };
    if str_eq(relative, "manifest.toml") || str_eq(relative, "icon.svg")
        || crate::paths::path_has_extension(relative, ext) {
        Ok(())
    } else {
        let a = concat(kind.manifest_name(), " packages cannot contain '");
        let b = concat(a.as_str(), relative);
        Err(concat(b.as_str(), "'"))
    }
}

/// The kind a package manifest names in `plugin.kind`, read from the
/// document the `toml` crate makes of `manifest`.
pub open spec fn manifest_kind_of(manifest: Seq<char>) -> Result<PluginKind, Seq<char>> {
    match toml_document(manifest) {
        Err(e) => Err("invalid plugin manifest: "@ + e),
        Ok(doc) => {
            let kind = match field_table(doc, "plugin"@) {
                Ok(p) => match field_str(p, "kind"@) {
                    Ok(k) => Some(k),
                    Err(_) => None,
                },
                Err(_) => None,
            };
            match kind {
                None => Err("plugin manifest is missing plugin.kind"@),
                Some(k) => if k == "declarative"@ {
                    Ok(PluginKind::Declarative)
                } else if k == "script"@ {
                    Ok(PluginKind::Script)
                } else {
                    Err("unsupported plugin kind '"@ + k + "'"@)
                },
            }
        },
    }
}

/// The kind a package manifest names, which decides how the package is
/// read.
pub fn manifest_kind(manifest: &str) -> (r: Result<PluginKind, String>)
    ensures
        match manifest_kind_of(manifest@) {
            Ok(k) => r == Ok::<PluginKind, String>(k),
            Err(e) => r matches Err(x) && x@ == e,
        },
{
    let doc = match parse_toml_document(manifest) {
        Ok(d) => d,
        Err(e) => {
            return Err(concat("invalid plugin manifest: ", e.as_str()));
        },
    };
    let kind = match get_table(&doc, "plugin") {
        Ok(p) => match get_str(p, "kind") {
            Ok(k) => Some(k),
            Err(_) => None,
        },
        Err(_) => None,
    };
    match kind {
        None => Err("plugin manifest is missing plugin.kind".to_owned()),
        Some(k) => if str_eq(k.as_str(), "declarative") {
            Ok(PluginKind::Declarative)
        } else if str_eq(k.as_str(), "script") {
            Ok(PluginKind::Script)
        } else {
            let head = concat("unsupported plugin kind '", k.as_str());
            Err(concat(head.as_str(), "'"))
        },
    }
}

} // verus!
