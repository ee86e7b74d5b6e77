//! Plugin and action identifiers, capabilities and action descriptors.
use vstd::prelude::*;



use crate::text::{chars_of, concat, copy_string, push_char, string_from_range};

verus! {

/// `c` may stand in a plugin ID segment.
pub open spec fn plugin_segment_char(c: char) -> bool {
    ('a' <= c <= 'z') || ('0' <= c <= '9') || c == '-'
}

/// A segment of a plugin ID: 1 to 40 lowercase letters, digits or hyphens,
/// neither starting nor ending with a hyphen.
pub open spec fn plugin_segment_ok(seg: Seq<char>) -> bool {
    &&& 0 < seg.len() <= 40
    &&& forall|i: int| 0 <= i < seg.len() ==> plugin_segment_char(#[trigger] seg[i])
    &&& seg[0] != '-'
    &&& seg.last() != '-'
}

/// The pieces of `s` between occurrences of `sep`, as `str::split` yields
/// them (an empty `s` yields one empty piece).
pub open spec fn split_on(s: Seq<char>, sep: char) -> Seq<Seq<char>>
    decreases s.len(),
{
    if s.len() == 0 {
        seq![Seq::<char>::empty()]
    } else {
        let rest = split_on(s.drop_last(), sep);
        if s.last() == sep {
            rest.push(Seq::<char>::empty())
        } else {
            rest.update(rest.len() - 1, rest.last().push(s.last()))
        }
    }
}

/// `split_on` never yields an empty list of pieces.
pub proof fn lemma_split_on_nonempty(s: Seq<char>, sep: char)
    ensures
        split_on(s, sep).len() >= 1,
    decreases s.len(),
{
    if s.len() > 0 {
        lemma_split_on_nonempty(s.drop_last(), sep);
    }
}

/// The pieces of `v` between occurrences of `sep`, as index ranges.
pub fn piece_ranges(v: &Vec<char>, sep: char) -> (r: Vec<(usize, usize)>)
    ensures
        r@.len() == split_on(v@, sep).len(),
        forall|k: int|
            0 <= k < r@.len() ==> (#[trigger] r@[k]).0 <= r@[k].1 <= v@.len() && v@.subrange(
                r@[k].0 as int,
                r@[k].1 as int,
            ) == split_on(v@, sep)[k],
{
    let n = v.len();
    let mut out: Vec<(usize, usize)> = Vec::new();
    let mut start: usize = 0;
    let mut i: usize = 0;
    assert(v@.take(0) =~= Seq::<char>::empty());
    while i < n
        invariant
            n == v.len(),
            start <= i <= n,
            out@.len() + 1 == split_on(v@.take(i as int), sep).len(),
            split_on(v@.take(i as int), sep).last() == v@.subrange(start as int, i as int),
            forall|k: int|
                0 <= k < out@.len() ==> (#[trigger] out@[k]).0 <= out@[k].1 <= i && v@.subrange(
                    out@[k].0 as int,
                    out@[k].1 as int,
                ) == split_on(v@.take(i as int), sep)[k],
        decreases n - i,
    {
        proof {
            lemma_split_on_nonempty(v@.take(i as int), sep);
            assert(v@.take(i + 1).drop_last() =~= v@.take(i as int));
            assert(v@.take(i + 1).last() == v@[i as int]);
        }
        let ghost done = split_on(v@.take(i as int), sep);
        if v[i] == sep {
            out.push((start, i));
            start = i + 1;
            i += 1;
            assert(v@.subrange(start as int, i as int) =~= Seq::<char>::empty());
        } else {
            i += 1;
            assert(v@.subrange(start as int, i as int) =~= v@.subrange(start as int, i - 1).push(
                v@[i - 1],
            ));
        }
    }
    assert(v@.take(n as int) =~= v@);
    proof {
        lemma_split_on_nonempty(v@, sep);
    }
    out.push((start, n));
    out
}

/// A reverse-DNS plugin ID: at most 128 characters and at least three
/// dot-separated valid segments.
pub open spec fn valid_plugin_id(s: Seq<char>) -> bool {
    &&& s.len() <= 128
    &&& split_on(s, '.').len() >= 3
    &&& forall|k: int| 0 <= k < split_on(s, '.').len() ==> plugin_segment_ok(#[trigger] split_on(s, '.')[k])
}

/// `c` may stand in an action or provider ID.
pub open spec fn token_char(c: char) -> bool {
    ('a' <= c <= 'z') || ('0' <= c <= '9') || c == '-' || c == '_'
}

/// An action ID: 1 to 64 lowercase letters, digits, hyphens or underscores.
pub open spec fn valid_token(s: Seq<char>) -> bool {
    &&& 0 < s.len() <= 64
    &&& forall|i: int| 0 <= i < s.len() ==> token_char(#[trigger] s[i])
}

/// Whether `v[from..to]` is a valid plugin ID segment.
fn check_plugin_segment(v: &Vec<char>, from: usize, to: usize) -> (r: bool)
    requires
        from <= to <= v.len(),
    ensures
        r == plugin_segment_ok(v@.subrange(from as int, to as int)),
{
    let ghost seg = v@.subrange(from as int, to as int);
    if to - from == 0 || to - from > 40 {
        return false;
    }
    let mut i = from;
    while i < to
        invariant
            from <= i <= to <= v.len(),
            seg == v@.subrange(from as int, to as int),
            forall|j: int| 0 <= j < i - from ==> plugin_segment_char(#[trigger] seg[j]),
        decreases to - i,
    {
        let c = v[i];
        if !(('a' <= c && c <= 'z') || ('0' <= c && c <= '9') || c == '-') {
            assert(seg[i - from] == c);
            return false;
        }
        i += 1;
    }
    v[from] != '-' && v[to - 1] != '-'
}

/// Whether `v` is a valid reverse-DNS plugin ID.
fn check_plugin_id(v: &Vec<char>) -> (r: bool)
    ensures
        r == valid_plugin_id(v@),
{
    let n = v.len();
    let mut start: usize = 0;
    let mut dots: usize = 0;
    let mut i: usize = 0;
    assert(v@.take(0) =~= Seq::<char>::empty());
    while i < n
        invariant
            n == v.len(),
            start <= i <= n,
            dots + 1 == split_on(v@.take(i as int), '.').len(),
            dots <= i,
            split_on(v@.take(i as int), '.').last() == v@.subrange(start as int, i as int),
            forall|k: int|
                0 <= k < dots ==> plugin_segment_ok(
                    #[trigger] split_on(v@.take(i as int), '.')[k],
                ),
        decreases n - i,
    {
        proof {
            lemma_split_on_nonempty(v@.take(i as int), '.');
            assert(v@.take(i + 1).drop_last() =~= v@.take(i as int));
        }
        if v[i] == '.' {
            if !check_plugin_segment(v, start, i) {
                proof {
                    lemma_split_on_prefix_keeps(v@, '.', i + 1, n as int, dots as int);
                    assert(split_on(v@.take(i + 1), '.')[dots as int] == split_on(
                        v@.take(i as int),
                        '.',
                    )[dots as int]);
                    assert(v@.take(n as int) =~= v@);
                }
                return false;
            }
            start = i + 1;
            i += 1;
            dots += 1;
            assert(v@.subrange(start as int, i as int) =~= Seq::<char>::empty());
        } else {
            i += 1;
            assert(v@.subrange(start as int, i as int) =~= v@.subrange(start as int, i - 1).push(
                v@[i - 1],
            ));
        }
    }
    assert(v@.take(n as int) =~= v@);
    proof {
        lemma_split_on_nonempty(v@, '.');
    }
    let last_ok = check_plugin_segment(v, start, n);
    n <= 128 && dots >= 2 && last_ok
}

/// Pieces of a prefix stay pieces (all but the last one) of longer prefixes.
proof fn lemma_split_on_prefix_keeps(s: Seq<char>, sep: char, i: int, j: int, k: int)
    requires
        0 <= i <= j <= s.len(),
        0 <= k < split_on(s.take(i), sep).len() - 1,
    ensures
        split_on(s.take(j), sep).len() >= split_on(s.take(i), sep).len(),
        split_on(s.take(j), sep)[k] == split_on(s.take(i), sep)[k],
    decreases j - i,
{
    if j > i {
        lemma_split_on_prefix_keeps(s, sep, i, j - 1, k);
        lemma_split_on_nonempty(s.take(j - 1), sep);
        assert(s.take(j).drop_last() =~= s.take(j - 1));
    }
}

/// Whether every character of `v` is an ID token character, and its length
/// is 1 to 64.
fn check_token(v: &Vec<char>) -> (r: bool)
    ensures
        r == valid_token(v@),
{
    if v.len() == 0 || v.len() > 64 {
        return false;
    }
    let mut i: usize = 0;
    while i < v.len()
        invariant
            i <= v.len(),
            forall|j: int| 0 <= j < i ==> token_char(#[trigger] v@[j]),
        decreases v.len() - i,
    {
        let c = v[i];
        if !(('a' <= c && c <= 'z') || ('0' <= c && c <= '9') || c == '-' || c == '_') {
            return false;
        }
        i += 1;
    }
    true
}

/// The message of a rejected plugin ID.
pub open spec fn plugin_id_error_text(value: Seq<char>) -> Seq<char> {
    "'"@ + value + "' is not a valid reverse-DNS plugin ID"@
}

/// The message of a rejected action ID.
pub open spec fn action_id_error_text(value: Seq<char>) -> Seq<char> {
    "'"@ + value + "' is not a valid action ID"@
}

/// `'value' rest`, a quoted value followed by a fixed text.
fn quoted(value: &str, rest: &str) -> (r: String)
    ensures
        r@ == "'"@ + value@ + rest@,
{
    let head = concat("'", value);
    concat(head.as_str(), rest)
}

/// A reverse-DNS plugin ID such as `org.lexwisp.chat`.
#[derive(Debug)]
pub struct PluginId(String);

impl Clone for PluginId {
    fn clone(&self) -> (r: Self)
        ensures
            r@ == self@,
    {
        PluginId(copy_string(&self.0))
    }
}

impl View for PluginId {
    type V = Seq<char>;

    closed spec fn view(&self) -> Seq<char> {
        self.0@
    }
}

impl PluginId {
    /// The IDs that can exist are exactly the valid ones.
    pub closed spec fn well_formed(&self) -> bool {
        valid_plugin_id(self.0@)
    }

    /// Accepts `value` exactly when it is a valid reverse-DNS plugin ID.
    pub fn parse(value: &str) -> (r: Result<Self, PluginIdError>)
        ensures
            r is Ok <==> valid_plugin_id(value@),
            r matches Ok(id) ==> id@ == value@ && id.well_formed(),
            r matches Err(e) ==> e@ == value@,
    {
        let v = chars_of(value);
        if check_plugin_id(&v) {
            Ok(PluginId(value.to_owned()))
        } else {
            Err(PluginIdError(value.to_owned()))
        }
    }

    /// The ID's text.
    pub fn as_str(&self) -> (r: &str)
        ensures
            r@ == self@,
    {
        self.0.as_str()
    }

    /// The ID's text, as its `Display` writes it.
    pub fn to_string(&self) -> (r: String)
        ensures
            r@ == self@,
    {
        copy_string(&self.0)
    }

    /// Whether two IDs are the same.
    pub fn same(&self, other: &PluginId) -> (r: bool)
        ensures
            r == (self@ == other@),
    {
        self.0 == other.0
    }
}

impl PartialEq for PluginId {
    fn eq(&self, other: &Self) -> (r: bool) {
        self.0 == other.0
    }
}

impl vstd::std_specs::cmp::PartialEqSpecImpl for PluginId {
    open spec fn obeys_eq_spec() -> bool {
        true
    }

    open spec fn eq_spec(&self, other: &Self) -> bool {
        self@ == other@
    }
}

impl Eq for PluginId {
}

/// A rejected plugin ID, holding the rejected text.
#[derive(Clone, Debug)]
pub struct PluginIdError(String);

impl View for PluginIdError {
    type V = Seq<char>;

    closed spec fn view(&self) -> Seq<char> {
        self.0@
    }
}

impl PluginIdError {
    /// The error's message, as its `Display` writes it.
    pub fn to_string(&self) -> (r: String)
        ensures
            r@ == plugin_id_error_text(self@),
    {
        quoted(self.0.as_str(), "' is not a valid reverse-DNS plugin ID")
    }
}

/// An action ID, a short lowercase ASCII token such as `open-settings`.
#[derive(Debug)]
pub struct ActionId(String);

impl Clone for ActionId {
    fn clone(&self) -> (r: Self)
        ensures
            r@ == self@,
    {
        ActionId(copy_string(&self.0))
    }
}

impl View for ActionId {
    type V = Seq<char>;

    closed spec fn view(&self) -> Seq<char> {
        self.0@
    }
}

impl ActionId {
    /// The IDs that can exist are exactly the valid ones.
    pub closed spec fn well_formed(&self) -> bool {
        valid_token(self.0@)
    }

    /// Accepts `value` exactly when it is a valid action ID.
    pub fn parse(value: &str) -> (r: Result<Self, ActionIdError>)
        ensures
            r is Ok <==> valid_token(value@),
            r matches Ok(id) ==> id@ == value@ && id.well_formed(),
            r matches Err(e) ==> e@ == value@,
    {
        let v = chars_of(value);
        if check_token(&v) {
            Ok(ActionId(value.to_owned()))
        } else {
            Err(ActionIdError(value.to_owned()))
        }
    }

    /// The ID's text.
    pub fn as_str(&self) -> (r: &str)
        ensures
            r@ == self@,
    {
        self.0.as_str()
    }

    /// The ID's text, as its `Display` writes it.
    pub fn to_string(&self) -> (r: String)
        ensures
            r@ == self@,
    {
        copy_string(&self.0)
    }

    /// Whether two IDs are the same.
    pub fn same(&self, other: &ActionId) -> (r: bool)
        ensures
            r == (self@ == other@),
    {
        self.0 == other.0
    }
}

impl PartialEq for ActionId {
    fn eq(&self, other: &Self) -> (r: bool) {
        self.0 == other.0
    }
}

impl vstd::std_specs::cmp::PartialEqSpecImpl for ActionId {
    open spec fn obeys_eq_spec() -> bool {
        true
    }

    open spec fn eq_spec(&self, other: &Self) -> bool {
        self@ == other@
    }
}

impl Eq for ActionId {
}

/// A rejected action ID, holding the rejected text.
#[derive(Clone, Debug)]
pub struct ActionIdError(String);

impl View for ActionIdError {
    type V = Seq<char>;

    closed spec fn view(&self) -> Seq<char> {
        self.0@
    }
}

impl ActionIdError {
    /// The error's message, as its `Display` writes it.
    pub fn to_string(&self) -> (r: String)
        ensures
            r@ == action_id_error_text(self@),
    {
        quoted(self.0.as_str(), "' is not a valid action ID")
    }
}

/// The index of the first `/` in `s`, if any.
pub open spec fn first_slash(s: Seq<char>) -> Option<int> {
    if exists|i: int| 0 <= i < s.len() && s[i] == '/' {
        Some(choose|i: int| 0 <= i < s.len() && s[i] == '/' && forall|j: int| 0 <= j < i ==> s[j] != '/')
    } else {
        None
    }
}

/// What parsing `plugin/action` gives: the two parts, or the error message.
pub open spec fn qualified_parse(s: Seq<char>) -> Result<(Seq<char>, Seq<char>), Seq<char>> {
    match first_slash(s) {
        None => Err("'"@ + s + "' is not a qualified action ID"@),
        Some(i) => {
            let plugin = s.take(i);
            let action = s.skip(i + 1);
            if !valid_plugin_id(plugin) {
                Err(plugin_id_error_text(plugin))
            } else if !valid_token(action) {
                Err(action_id_error_text(action))
            } else {
                Ok((plugin, action))
            }
        }
    }
}

/// `plugin/action`, the text of a qualified action ID.
pub open spec fn qualified_text(plugin: Seq<char>, action: Seq<char>) -> Seq<char> {
    plugin + "/"@ + action
}

/// The index of the first `/` in `v`, if any.
fn find_slash(v: &Vec<char>) -> (r: Option<usize>)
    ensures
        r matches Some(i) ==> Some(i as int) == first_slash(v@) && i < v.len(),
        r is None ==> first_slash(v@) is None,
{
    let mut i: usize = 0;
    while i < v.len()
        invariant
            i <= v.len(),
            forall|j: int| 0 <= j < i ==> v@[j] != '/',
        decreases v.len() - i,
    {
        if v[i] == '/' {
            proof {
                let k = choose|k: int|
                    0 <= k < v@.len() && v@[k] == '/' && forall|j: int| 0 <= j < k ==> v@[j] != '/';
                assert(v@[i as int] == '/' && forall|j: int| 0 <= j < i ==> v@[j] != '/');
                if k < i {
                } else if k > i {
                }
            }
            return Some(i);
        }
        i += 1;
    }
    None
}

/// A fully qualified action ID, `plugin/action`.
#[derive(Debug)]
pub struct QualifiedActionId {
    plugin_id: PluginId,
    action_id: ActionId,
}

impl View for QualifiedActionId {
    type V = (Seq<char>, Seq<char>);

    closed spec fn view(&self) -> (Seq<char>, Seq<char>) {
        (self.plugin_id@, self.action_id@)
    }
}

impl Clone for QualifiedActionId {
    fn clone(&self) -> (r: Self)
        ensures
            r@ == self@,
    {
        QualifiedActionId { plugin_id: self.plugin_id.clone(), action_id: self.action_id.clone() }
    }
}

impl PartialEq for QualifiedActionId {
    fn eq(&self, other: &Self) -> (r: bool) {
        self.plugin_id.same(&other.plugin_id) && self.action_id.same(&other.action_id)
    }
}

impl vstd::std_specs::cmp::PartialEqSpecImpl for QualifiedActionId {
    open spec fn obeys_eq_spec() -> bool {
        true
    }

    open spec fn eq_spec(&self, other: &Self) -> bool {
        self@ == other@
    }
}

impl QualifiedActionId {
    /// The action `action_id` of the plugin `plugin_id`.
    pub fn new(plugin_id: PluginId, action_id: ActionId) -> (r: Self)
        ensures
            r@ == (plugin_id@, action_id@),
    {
        QualifiedActionId { plugin_id, action_id }
    }

    /// The owning plugin.
    pub fn plugin_id(&self) -> (r: &PluginId)
        ensures
            r@ == self@.0,
    {
        &self.plugin_id
    }

    /// The action within its plugin.
    pub fn action_id(&self) -> (r: &ActionId)
        ensures
            r@ == self@.1,
    {
        &self.action_id
    }

    /// Parses `plugin/action`, splitting at the first `/`; the parts must be
    /// a valid plugin ID and a valid action ID.
    pub fn parse(value: &str) -> (r: Result<Self, String>)
        ensures
            r is Ok <==> qualified_parse(value@) is Ok,
            r matches Ok(id) ==> qualified_parse(value@) == Ok::<_, Seq<char>>(id@),
            r matches Err(e) ==> qualified_parse(value@) == Err::<(Seq<char>, Seq<char>), _>(e@),
    {
        let v = chars_of(value);
        match find_slash(&v) {
            None => Err(quoted(value, "' is not a qualified action ID")),
            Some(i) => {
                let plugin = string_from_range(&v, 0, i);
                let action = string_from_range(&v, i + 1, v.len());
                assert(v@.subrange(0, i as int) =~= v@.take(i as int));
                assert(v@.subrange(i + 1, v@.len() as int) =~= v@.skip(i + 1));
                let plugin_id = match PluginId::parse(plugin.as_str()) {
                    Ok(id) => id,
                    Err(error) => return Err(error.to_string()),
                };
                let action_id = match ActionId::parse(action.as_str()) {
                    Ok(id) => id,
                    Err(error) => return Err(error.to_string()),
                };
                Ok(QualifiedActionId { plugin_id, action_id })
            },
        }
    }

    /// `plugin/action`, as its `Display` writes it.
    pub fn to_string(&self) -> (r: String)
        ensures
            r@ == qualified_text(self@.0, self@.1),
    {
        let mut r = self.plugin_id.to_string();
        push_char(&mut r, '/');
        let r2 = concat(r.as_str(), self.action_id.as_str());
        proof {
            reveal_strlit("/");
        }
        assert(r2@ =~= qualified_text(self@.0, self@.1));
        r2
    }
}

/// A permission a plugin may request.
#[derive(Clone, Copy, Debug, PartialEq, Eq, Structural, Hash)]
pub enum Capability {
    AiInvoke,
    NetworkRequest,
    SelectionRead,
    ClipboardRead,
    ClipboardWrite,
    WindowRead,
    StorageRead,
    StorageWrite,
}

/// The name under which a manifest requests `c`.
pub open spec fn capability_name(c: Capability) -> Seq<char> {
    match c {
        Capability::AiInvoke => "ai.invoke"@,
        Capability::NetworkRequest => "network.request"@,
        Capability::SelectionRead => "selection.read"@,
        Capability::ClipboardRead => "clipboard.read"@,
        Capability::ClipboardWrite => "clipboard.write"@,
        Capability::WindowRead => "window.read"@,
        Capability::StorageRead => "storage.read"@,
        Capability::StorageWrite => "storage.write"@,
    }
}

/// The capability that a manifest name stands for, if any.
pub open spec fn capability_named(name: Seq<char>) -> Option<Capability> {
    if name == "ai.invoke"@ {
        Some(Capability::AiInvoke)
    } else if name == "network.request"@ {
        Some(Capability::NetworkRequest)
    } else if name == "selection.read"@ {
        Some(Capability::SelectionRead)
    } else if name == "clipboard.read"@ {
        Some(Capability::ClipboardRead)
    } else if name == "clipboard.write"@ {
        Some(Capability::ClipboardWrite)
    } else if name == "window.read"@ {
        Some(Capability::WindowRead)
    } else if name == "storage.read"@ {
        Some(Capability::StorageRead)
    } else if name == "storage.write"@ {
        Some(Capability::StorageWrite)
    } else {
        None
    }
}

impl Capability {
    /// The name under which a manifest requests this capability.
    pub fn manifest_name(self) -> (r: &'static str)
        ensures
            r@ == capability_name(self),
    {
        match self {
            Capability::AiInvoke => "ai.invoke",
            Capability::NetworkRequest => "network.request",
            Capability::SelectionRead => "selection.read",
            Capability::ClipboardRead => "clipboard.read",
            Capability::ClipboardWrite => "clipboard.write",
            Capability::WindowRead => "window.read",
            Capability::StorageRead => "storage.read",
            Capability::StorageWrite => "storage.write",
        }
    }

    /// The capability a manifest names, or `unknown capability 'value'`.
    pub fn parse_manifest(value: &str) -> (r: Result<Self, String>)
        ensures
            r is Ok <==> capability_named(value@) is Some,
            r matches Ok(c) ==> capability_named(value@) == Some(c),
            r matches Err(e) ==> e@ == "unknown capability '"@ + value@ + "'"@,
    {
        let all = [
            Capability::AiInvoke,
            Capability::NetworkRequest,
            Capability::SelectionRead,
            Capability::ClipboardRead,
            Capability::ClipboardWrite,
            Capability::WindowRead,
            Capability::StorageRead,
            Capability::StorageWrite,
        ];
        let mut i: usize = 0;
        while i < 8
            invariant
                0 <= i <= 8,
                all@ == seq![
                    Capability::AiInvoke,
                    Capability::NetworkRequest,
                    Capability::SelectionRead,
                    Capability::ClipboardRead,
                    Capability::ClipboardWrite,
                    Capability::WindowRead,
                    Capability::StorageRead,
                    Capability::StorageWrite,
                ],
                forall|j: int| 0 <= j < i ==> capability_name(#[trigger] all@[j]) != value@,
            decreases 8 - i,
        {
            let c = all[i];
            if crate::text::str_eq(c.manifest_name(), value) {
                proof {
                    lemma_capability_names_distinct();
                }
                return Ok(c);
            }
            i += 1;
        }
        proof {
            lemma_capability_names_distinct();
            assert(capability_name(all@[0]) != value@);
            assert(capability_name(all@[1]) != value@);
            assert(capability_name(all@[2]) != value@);
            assert(capability_name(all@[3]) != value@);
            assert(capability_name(all@[4]) != value@);
            assert(capability_name(all@[5]) != value@);
            assert(capability_name(all@[6]) != value@);
            assert(capability_name(all@[7]) != value@);
        }
        let head = concat("unknown capability '", value);
        let r = concat(head.as_str(), "'");
        Err(r)
    }
}

/// The eight capability names are pairwise different, and name what
/// `capability_named` reads them as.
proof fn lemma_capability_names_distinct()
    ensures
        forall|c: Capability| capability_named(#[trigger] capability_name(c)) == Some(c),
{
    reveal_strlit("ai.invoke");
    reveal_strlit("network.request");
    reveal_strlit("selection.read");
    reveal_strlit("clipboard.read");
    reveal_strlit("clipboard.write");
    reveal_strlit("window.read");
    reveal_strlit("storage.read");
    reveal_strlit("storage.write");
    assert forall|c: Capability| capability_named(#[trigger] capability_name(c)) == Some(c) by {
        match c {
            Capability::AiInvoke => {
            },
            Capability::NetworkRequest => {
                assert("network.request"@[0] != "ai.invoke"@[0]);
            },
            Capability::SelectionRead => {
                assert("selection.read"@[0] != "ai.invoke"@[0]);
                assert("selection.read"@[0] != "network.request"@[0]);
            },
            Capability::ClipboardRead => {
                assert("clipboard.read"@[0] != "ai.invoke"@[0]);
                assert("clipboard.read"@[0] != "network.request"@[0]);
                assert("clipboard.read"@[0] != "selection.read"@[0]);
            },
            Capability::ClipboardWrite => {
                assert("clipboard.write"@[0] != "ai.invoke"@[0]);
                assert("clipboard.write"@[0] != "network.request"@[0]);
                assert("clipboard.write"@[0] != "selection.read"@[0]);
                assert("clipboard.write"@[10] != "clipboard.read"@[10]);
            },
            Capability::WindowRead => {
                assert("window.read"@[0] != "ai.invoke"@[0]);
                assert("window.read"@[0] != "network.request"@[0]);
                assert("window.read"@[0] != "selection.read"@[0]);
                assert("window.read"@[0] != "clipboard.read"@[0]);
                assert("window.read"@[0] != "clipboard.write"@[0]);
            },
            Capability::StorageRead => {
                assert("storage.read"@[0] != "ai.invoke"@[0]);
                assert("storage.read"@[0] != "network.request"@[0]);
                assert("storage.read"@[1] != "selection.read"@[1]);
                assert("storage.read"@[0] != "clipboard.read"@[0]);
                assert("storage.read"@[0] != "clipboard.write"@[0]);
                assert("storage.read"@[0] != "window.read"@[0]);
            },
            Capability::StorageWrite => {
                assert("storage.write"@[0] != "ai.invoke"@[0]);
                assert("storage.write"@[0] != "network.request"@[0]);
                assert("storage.write"@[1] != "selection.read"@[1]);
                assert("storage.write"@[0] != "clipboard.read"@[0]);
                assert("storage.write"@[0] != "clipboard.write"@[0]);
                assert("storage.write"@[0] != "window.read"@[0]);
                assert("storage.write"@[8] != "storage.read"@[8]);
            },
        }
    }
}

/// A capability's manifest name reads back as that capability, and a name
/// that reads as a capability is that capability's manifest name.
pub proof fn capability_names_round_trip(c: Capability, name: Seq<char>)
    ensures
        capability_named(capability_name(c)) == Some(c),
        capability_named(name) == Some(c) ==> name == capability_name(c),
{
    lemma_capability_names_distinct();
}


/// Which IDs parse as plugin IDs, in plain terms: at most 128 characters,
/// at least three pieces between dots, and each piece 1 to 40 lowercase
/// ASCII letters, decimal digits or hyphens, not starting or ending with a
/// hyphen. Every such ID is valid, and only such IDs are.
pub proof fn plugin_ids_are_reverse_dns(s: Seq<char>)
    ensures
        valid_plugin_id(s) <==> {
            &&& s.len() <= 128
            &&& split_on(s, '.').len() >= 3
            &&& forall|k: int| 0 <= k < split_on(s, '.').len() ==> {
                let seg = #[trigger] split_on(s, '.')[k];
                &&& 1 <= seg.len() <= 40
                &&& forall|i: int|
                    0 <= i < seg.len() ==> ('a' <= #[trigger] seg[i] <= 'z') || ('0' <= seg[i] <= '9') || seg[i] == '-'
                &&& seg[0] != '-'
                &&& seg[seg.len() - 1] != '-'
            }
        },
{
}

} // verus!
