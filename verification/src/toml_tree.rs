//! TOML documents as plain trees, and the field access that manifest
//! decoding is built on.
use vstd::prelude::*;

use crate::text::{concat, copy_string, str_eq};

verus! {

/// The model of a TOML value. Floats and datetimes keep their text.
pub enum TomlView {
    String(Seq<char>),
    Integer(i64),
    Float(Seq<char>),
    Boolean(bool),
    Datetime(Seq<char>),
    Array(Seq<TomlView>),
    Table(Seq<(Seq<char>, TomlView)>),
}

/// A parsed TOML value. Floats and datetimes are held as their text; a
/// table is its entries in the order the parser lists them.
#[derive(Debug)]
pub enum TomlValue {
    String(String),
    Integer(i64),
    Float(String),
    Boolean(bool),
    Datetime(String),
    Array(Vec<TomlValue>),
    Table(Vec<(String, TomlValue)>),
}

/// The model of a value.
pub open spec fn tree_view(v: TomlValue) -> TomlView
    decreases v, 1int,
{
    match v {
        TomlValue::String(s) => TomlView::String(s@),
        TomlValue::Integer(i) => TomlView::Integer(i),
        TomlValue::Float(s) => TomlView::Float(s@),
        TomlValue::Boolean(b) => TomlView::Boolean(b),
        TomlValue::Datetime(s) => TomlView::Datetime(s@),
        TomlValue::Array(a) => TomlView::Array(items_view(a@)),
        TomlValue::Table(t) => TomlView::Table(entries_view(t@)),
    }
}

/// The models of a list of values.
pub open spec fn items_view(s: Seq<TomlValue>) -> Seq<TomlView>
    decreases s, 0int,
{
    if s.len() == 0 {
        Seq::empty()
    } else {
        seq![tree_view(s[0])] + items_view(s.subrange(1, s.len() as int))
    }
}

/// The models of a list of table entries.
pub open spec fn entries_view(s: Seq<(String, TomlValue)>) -> Seq<(Seq<char>, TomlView)>
    decreases s, 0int,
{
    if s.len() == 0 {
        Seq::empty()
    } else {
        seq![(s[0].0@, tree_view(s[0].1))] + entries_view(s.subrange(1, s.len() as int))
    }
}

impl View for TomlValue {
    type V = TomlView;

    open spec fn view(&self) -> TomlView {
        tree_view(*self)
    }
}

/// The lengths of a list of values and of its model agree, item by item.
pub proof fn lemma_items_view(s: Seq<TomlValue>)
    ensures
        items_view(s).len() == s.len(),
        forall|i: int| 0 <= i < s.len() ==> #[trigger] items_view(s)[i] == tree_view(s[i]),
    decreases s.len(),
{
    if s.len() > 0 {
        let rest = s.subrange(1, s.len() as int);
        lemma_items_view(rest);
        assert forall|i: int| 0 <= i < s.len() implies #[trigger] items_view(s)[i] == tree_view(
            s[i],
        ) by {
            if i > 0 {
                assert(rest[i - 1] == s[i]);
            }
        }
    }
}

/// The lengths of a list of entries and of its model agree, entry by entry.
pub proof fn lemma_entries_view(s: Seq<(String, TomlValue)>)
    ensures
        entries_view(s).len() == s.len(),
        forall|i: int|
            0 <= i < s.len() ==> #[trigger] entries_view(s)[i] == (s[i].0@, tree_view(s[i].1)),
    decreases s.len(),
{
    if s.len() > 0 {
        let rest = s.subrange(1, s.len() as int);
        lemma_entries_view(rest);
        assert forall|i: int| 0 <= i < s.len() implies #[trigger] entries_view(s)[i] == (
            s[i].0@,
            tree_view(s[i].1),
        ) by {
            if i > 0 {
                assert(rest[i - 1] == s[i]);
            }
        }
    }
}

/// The value of the first entry with key `k`.
pub open spec fn table_get(t: Seq<(Seq<char>, TomlView)>, k: Seq<char>) -> Option<TomlView>
    decreases t.len(),
{
    if t.len() == 0 {
        None
    } else if t[0].0 == k {
        Some(t[0].1)
    } else {
        table_get(t.subrange(1, t.len() as int), k)
    }
}

/// Looking a key up skips the entries before the first one that has it.
proof fn lemma_table_get_skip(t: Seq<(Seq<char>, TomlView)>, k: Seq<char>, i: int)
    requires
        0 <= i <= t.len(),
        forall|j: int| 0 <= j < i ==> (#[trigger] t[j]).0 != k,
    ensures
        table_get(t, k) == table_get(t.subrange(i, t.len() as int), k),
    decreases i,
{
    if i > 0 {
        let rest = t.subrange(1, t.len() as int);
        assert forall|j: int| 0 <= j < i - 1 implies (#[trigger] rest[j]).0 != k by {
            assert(rest[j] == t[j + 1]);
        }
        lemma_table_get_skip(rest, k, i - 1);
        assert(rest.subrange(i - 1, rest.len() as int) =~= t.subrange(i, t.len() as int));
    } else {
        assert(t.subrange(0, t.len() as int) =~= t);
    }
}

/// The entry with key `name`, if the table has one.
pub fn get_field<'a>(t: &'a Vec<(String, TomlValue)>, name: &str) -> (r: Option<&'a TomlValue>)
    ensures
        match table_get(entries_view(t@), name@) {
            Some(v) => r matches Some(x) && x@ == v,
            None => r is None,
        },
{
    let ghost tv = entries_view(t@);
    proof {
        lemma_entries_view(t@);
    }
    let mut i: usize = 0;
    while i < t.len()
        invariant
            i <= t.len(),
            tv == entries_view(t@),
            tv.len() == t@.len(),
            forall|j: int| 0 <= j < t@.len() ==> #[trigger] tv[j] == (t@[j].0@, tree_view(t@[j].1)),
            forall|j: int| 0 <= j < i ==> (#[trigger] tv[j]).0 != name@,
        decreases t.len() - i,
    {
        if str_eq(t[i].0.as_str(), name) {
            proof {
                lemma_table_get_skip(tv, name@, i as int);
                assert(tv.subrange(i as int, tv.len() as int)[0] == tv[i as int]);
            }
            return Some(&t[i].1);
        }
        i += 1;
    }
    proof {
        lemma_table_get_skip(tv, name@, i as int);
    }
    None
}

/// The models of a list of names.
pub open spec fn names_view(names: Seq<&str>) -> Seq<Seq<char>> {
    names.map_values(|n: &str| n@)
}

/// The first key of `t` that is not among `allowed`.
pub open spec fn first_unknown(t: Seq<(Seq<char>, TomlView)>, allowed: Seq<Seq<char>>) -> Option<
    Seq<char>,
>
    decreases t.len(),
{
    if t.len() == 0 {
        None
    } else if !allowed.contains(t[0].0) {
        Some(t[0].0)
    } else {
        first_unknown(t.subrange(1, t.len() as int), allowed)
    }
}

/// The search for an unknown key skips keys known to be allowed.
proof fn lemma_first_unknown_skip(t: Seq<(Seq<char>, TomlView)>, allowed: Seq<Seq<char>>, i: int)
    requires
        0 <= i <= t.len(),
        forall|j: int| 0 <= j < i ==> allowed.contains((#[trigger] t[j]).0),
    ensures
        first_unknown(t, allowed) == first_unknown(t.subrange(i, t.len() as int), allowed),
    decreases i,
{
    if i > 0 {
        let rest = t.subrange(1, t.len() as int);
        assert forall|j: int| 0 <= j < i - 1 implies allowed.contains((#[trigger] rest[j]).0) by {
            assert(rest[j] == t[j + 1]);
        }
        lemma_first_unknown_skip(rest, allowed, i - 1);
        assert(rest.subrange(i - 1, rest.len() as int) =~= t.subrange(i, t.len() as int));
    } else {
        assert(t.subrange(0, t.len() as int) =~= t);
    }
}

/// Whether `name` is among `names`.
fn name_among(name: &str, names: &[&str]) -> (r: bool)
    ensures
        r == names_view(names@).contains(name@),
{
    let mut i: usize = 0;
    while i < names.len()
        invariant
            i <= names.len(),
            forall|j: int| 0 <= j < i ==> names@[j]@ != name@,
        decreases names.len() - i,
    {
        if str_eq(names[i], name) {
            assert(names_view(names@)[i as int] == name@);
            return true;
        }
        i += 1;
    }
    proof {
        if names_view(names@).contains(name@) {
            let j = choose|j: int| 0 <= j < names_view(names@).len() && names_view(names@)[j] == name@;
            assert(names@[j]@ == name@);
        }
    }
    false
}

/// The first key of `t` that is not among `allowed`, if any.
pub fn first_unknown_field(t: &Vec<(String, TomlValue)>, allowed: &[&str]) -> (r: Option<String>)
    ensures
        match first_unknown(entries_view(t@), names_view(allowed@)) {
            Some(k) => r matches Some(x) && x@ == k,
            None => r is None,
        },
{
    let ghost tv = entries_view(t@);
    let ghost av = names_view(allowed@);
    proof {
        lemma_entries_view(t@);
    }
    let mut i: usize = 0;
    while i < t.len()
        invariant
            i <= t.len(),
            tv == entries_view(t@),
            av == names_view(allowed@),
            tv.len() == t@.len(),
            forall|j: int| 0 <= j < t@.len() ==> #[trigger] tv[j] == (t@[j].0@, tree_view(t@[j].1)),
            forall|j: int| 0 <= j < i ==> av.contains((#[trigger] tv[j]).0),
        decreases t.len() - i,
    {
        if !name_among(t[i].0.as_str(), allowed) {
            proof {
                lemma_first_unknown_skip(tv, av, i as int);
                assert(tv.subrange(i as int, tv.len() as int)[0] == tv[i as int]);
            }
            return Some(copy_string(&t[i].0));
        }
        i += 1;
    }
    proof {
        lemma_first_unknown_skip(tv, av, i as int);
    }
    None
}

/// `missing field `name``.
pub open spec fn missing_field(name: Seq<char>) -> Seq<char> {
    "missing field `"@ + name + "`"@
}

/// `unknown field `name``.
pub open spec fn unknown_field(name: Seq<char>) -> Seq<char> {
    "unknown field `"@ + name + "`"@
}

/// `invalid type for field `name``.
pub open spec fn invalid_field(name: Seq<char>) -> Seq<char> {
    "invalid type for field `"@ + name + "`"@
}

/// Wraps `name` in a message's fixed words.
fn field_message(head: &str, name: &str) -> (r: String)
    ensures
        r@ == head@ + name@ + "`"@,
{
    let a = concat(head, name);
    concat(a.as_str(), "`")
}

/// The message for a missing field.
pub fn missing_field_message(name: &str) -> (r: String)
    ensures
        r@ == missing_field(name@),
{
    field_message("missing field `", name)
}

/// The message for an unknown field.
pub fn unknown_field_message(name: &str) -> (r: String)
    ensures
        r@ == unknown_field(name@),
{
    field_message("unknown field `", name)
}

/// The message for a field of the wrong type.
pub fn invalid_field_message(name: &str) -> (r: String)
    ensures
        r@ == invalid_field(name@),
{
    field_message("invalid type for field `", name)
}

/// A table's keys must all be among `allowed`: `deny_unknown_fields`.
pub open spec fn check_known(t: Seq<(Seq<char>, TomlView)>, allowed: Seq<Seq<char>>) -> Result<
    (),
    Seq<char>,
> {
    match first_unknown(t, allowed) {
        Some(k) => Err(unknown_field(k)),
        None => Ok(()),
    }
}

/// Rejects a table that holds a key not among `allowed`.
pub fn require_known(t: &Vec<(String, TomlValue)>, allowed: &[&str]) -> (r: Result<(), String>)
    ensures
        match check_known(entries_view(t@), names_view(allowed@)) {
            Ok(_) => r is Ok,
            Err(e) => r matches Err(x) && x@ == e,
        },
{
    match first_unknown_field(t, allowed) {
        Some(k) => Err(unknown_field_message(k.as_str())),
        None => Ok(()),
    }
}

/// A required string field.
pub open spec fn field_str(t: Seq<(Seq<char>, TomlView)>, name: Seq<char>) -> Result<
    Seq<char>,
    Seq<char>,
> {
    match table_get(t, name) {
        None => Err(missing_field(name)),
        Some(TomlView::String(s)) => Ok(s),
        Some(_) => Err(invalid_field(name)),
    }
}

/// Reads a required string field.
pub fn get_str(t: &Vec<(String, TomlValue)>, name: &str) -> (r: Result<String, String>)
    ensures
        match field_str(entries_view(t@), name@) {
            Ok(s) => r matches Ok(x) && x@ == s,
            Err(e) => r matches Err(x) && x@ == e,
        },
{
    match get_field(t, name) {
        None => Err(missing_field_message(name)),
        Some(TomlValue::String(s)) => Ok(copy_string(s)),
        Some(_) => Err(invalid_field_message(name)),
    }
}

/// A required boolean field.
pub open spec fn field_bool(t: Seq<(Seq<char>, TomlView)>, name: Seq<char>) -> Result<
    bool,
    Seq<char>,
> {
    match table_get(t, name) {
        None => Err(missing_field(name)),
        Some(TomlView::Boolean(b)) => Ok(b),
        Some(_) => Err(invalid_field(name)),
    }
}

/// Reads a required boolean field.
pub fn get_bool(t: &Vec<(String, TomlValue)>, name: &str) -> (r: Result<bool, String>)
    ensures
        match field_bool(entries_view(t@), name@) {
            Ok(b) => r == Ok::<bool, String>(b),
            Err(e) => r matches Err(x) && x@ == e,
        },
{
    match get_field(t, name) {
        None => Err(missing_field_message(name)),
        Some(TomlValue::Boolean(b)) => Ok(*b),
        Some(_) => Err(invalid_field_message(name)),
    }
}

/// An optional string field.
pub open spec fn field_opt_str(t: Seq<(Seq<char>, TomlView)>, name: Seq<char>) -> Result<
    Option<Seq<char>>,
    Seq<char>,
> {
    match table_get(t, name) {
        None => Ok(None),
        Some(TomlView::String(s)) => Ok(Some(s)),
        Some(_) => Err(invalid_field(name)),
    }
}

/// Reads an optional string field.
pub fn get_opt_str(t: &Vec<(String, TomlValue)>, name: &str) -> (r: Result<Option<String>, String>)
    ensures
        match field_opt_str(entries_view(t@), name@) {
            Ok(Some(s)) => r matches Ok(Some(x)) && x@ == s,
            Ok(None) => r matches Ok(None),
            Err(e) => r matches Err(x) && x@ == e,
        },
{
    match get_field(t, name) {
        None => Ok(None),
        Some(TomlValue::String(s)) => Ok(Some(copy_string(s))),
        Some(_) => Err(invalid_field_message(name)),
    }
}

/// A required table field.
pub open spec fn field_table(t: Seq<(Seq<char>, TomlView)>, name: Seq<char>) -> Result<
    Seq<(Seq<char>, TomlView)>,
    Seq<char>,
> {
    match table_get(t, name) {
        None => Err(missing_field(name)),
        Some(TomlView::Table(e)) => Ok(e),
        Some(_) => Err(invalid_field(name)),
    }
}

/// Reads a required table field.
pub fn get_table<'a>(t: &'a Vec<(String, TomlValue)>, name: &str) -> (r: Result<
    &'a Vec<(String, TomlValue)>,
    String,
>)
    ensures
        match field_table(entries_view(t@), name@) {
            Ok(e) => r matches Ok(x) && entries_view(x@) == e,
            Err(e) => r matches Err(x) && x@ == e,
        },
{
    match get_field(t, name) {
        None => Err(missing_field_message(name)),
        Some(TomlValue::Table(e)) => Ok(e),
        Some(_) => Err(invalid_field_message(name)),
    }
}

/// An array field; a missing one is an error when `required`, else empty.
pub open spec fn field_array(t: Seq<(Seq<char>, TomlView)>, name: Seq<char>, required: bool) -> Result<
    Seq<TomlView>,
    Seq<char>,
> {
    match table_get(t, name) {
        None => if required {
            Err(missing_field(name))
        } else {
            Ok(Seq::empty())
        },
        Some(TomlView::Array(a)) => Ok(a),
        Some(_) => Err(invalid_field(name)),
    }
}

/// Reads an array field; `None` stands for a missing optional one.
pub fn get_array<'a>(t: &'a Vec<(String, TomlValue)>, name: &str, required: bool) -> (r: Result<
    Option<&'a Vec<TomlValue>>,
    String,
>)
    ensures
        match field_array(entries_view(t@), name@, required) {
            Ok(a) => r matches Ok(x) && match x {
                Some(v) => items_view(v@) == a,
                None => a.len() == 0,
            },
            Err(e) => r matches Err(x) && x@ == e,
        },
{
    match get_field(t, name) {
        None => if required {
            Err(missing_field_message(name))
        } else {
            Ok(None)
        },
        Some(TomlValue::Array(a)) => Ok(Some(a)),
        Some(_) => Err(invalid_field_message(name)),
    }
}

/// The strings of a list of values, or the error for the first that is not one.
pub open spec fn strings_of(items: Seq<TomlView>, name: Seq<char>) -> Result<Seq<Seq<char>>, Seq<char>>
    decreases items.len(),
{
    if items.len() == 0 {
        Ok(Seq::empty())
    } else {
        match strings_of(items.drop_last(), name) {
            Err(e) => Err(e),
            Ok(prefix) => match items.last() {
                TomlView::String(s) => Ok(prefix.push(s)),
                _ => Err(invalid_field(name)),
            },
        }
    }
}

/// An error found in a prefix of a list stays the error of the whole list.
proof fn lemma_strings_of_err(items: Seq<TomlView>, name: Seq<char>, n: int)
    requires
        0 <= n <= items.len(),
        strings_of(items.take(n), name) is Err,
    ensures
        strings_of(items, name) == strings_of(items.take(n), name),
    decreases items.len() - n,
{
    if n < items.len() {
        assert(items.take(n + 1).drop_last() =~= items.take(n));
        lemma_strings_of_err(items, name, n + 1);
    } else {
        assert(items.take(n) =~= items);
    }
}

/// An array of strings field; a missing one is an error when `required`.
pub open spec fn field_strings(t: Seq<(Seq<char>, TomlView)>, name: Seq<char>, required: bool) -> Result<
    Seq<Seq<char>>,
    Seq<char>,
> {
    match field_array(t, name, required) {
        Err(e) => Err(e),
        Ok(a) => strings_of(a, name),
    }
}

/// Reads an array of strings field.
pub fn get_strings(t: &Vec<(String, TomlValue)>, name: &str, required: bool) -> (r: Result<
    Vec<String>,
    String,
>)
    ensures
        match field_strings(entries_view(t@), name@, required) {
            Ok(s) => r matches Ok(x) && crate::provider::strings_view(x@) == s,
            Err(e) => r matches Err(x) && x@ == e,
        },
{
    let items = match get_array(t, name, required) {
        Err(e) => return Err(e),
        Ok(None) => {
            let empty: Vec<String> = Vec::new();
            assert(crate::provider::strings_view(empty@) =~= Seq::<Seq<char>>::empty());
            proof {
                if let Ok(a) = field_array(entries_view(t@), name@, required) {
                    assert(a =~= Seq::<TomlView>::empty());
                }
            }
            return Ok(empty);
        },
        Ok(Some(a)) => a,
    };
    let ghost iv = items_view(items@);
    proof {
        lemma_items_view(items@);
    }
    assert(field_strings(entries_view(t@), name@, required) == strings_of(iv, name@));
    let mut out: Vec<String> = Vec::new();
    let mut i: usize = 0;
    assert(iv.take(0) =~= Seq::<TomlView>::empty());
    assert(crate::provider::strings_view(out@) =~= Seq::<Seq<char>>::empty());
    while i < items.len()
        invariant
            i <= items.len(),
            iv == items_view(items@),
            iv.len() == items@.len(),
            field_strings(entries_view(t@), name@, required) == strings_of(iv, name@),
            forall|j: int| 0 <= j < items@.len() ==> #[trigger] iv[j] == tree_view(items@[j]),
            strings_of(iv.take(i as int), name@) == Ok::<Seq<Seq<char>>, Seq<char>>(
                crate::provider::strings_view(out@),
            ),
        decreases items.len() - i,
    {
        assert(iv.take(i + 1).drop_last() =~= iv.take(i as int));
        assert(iv.take(i + 1).last() == iv[i as int]);
        match &items[i] {
            TomlValue::String(s) => {
                let ghost before = out@;
                out.push(copy_string(s));
                assert(crate::provider::strings_view(out@) =~= crate::provider::strings_view(
                    before,
                ).push(s@));
            },
            _ => {
                proof {
                    assert(!(iv[i as int] is String));
                    assert(strings_of(iv.take(i + 1), name@) == Err::<Seq<Seq<char>>, Seq<char>>(
                        invalid_field(name@),
                    ));
                    lemma_strings_of_err(iv, name@, i + 1);
                }
                return Err(invalid_field_message(name));
            },
        }
        i += 1;
    }
    assert(iv.take(items.len() as int) =~= iv);
    Ok(out)
}

/// `invalid value for field `name``.
pub open spec fn invalid_value(name: Seq<char>) -> Seq<char> {
    "invalid value for field `"@ + name + "`"@
}

/// The message for a number out of a field's range.
pub fn invalid_value_message(name: &str) -> (r: String)
    ensures
        r@ == invalid_value(name@),
{
    field_message("invalid value for field `", name)
}

/// A required integer field that must fit a `u32`.
pub open spec fn field_u32(t: Seq<(Seq<char>, TomlView)>, name: Seq<char>) -> Result<u32, Seq<char>> {
    match table_get(t, name) {
        None => Err(missing_field(name)),
        Some(TomlView::Integer(i)) => if 0 <= i <= u32::MAX {
            Ok(i as u32)
        } else {
            Err(invalid_value(name))
        },
        Some(_) => Err(invalid_field(name)),
    }
}

/// Reads a required `u32` field.
pub fn get_u32(t: &Vec<(String, TomlValue)>, name: &str) -> (r: Result<u32, String>)
    ensures
        match field_u32(entries_view(t@), name@) {
            Ok(n) => r == Ok::<u32, String>(n),
            Err(e) => r matches Err(x) && x@ == e,
        },
{
    match get_field(t, name) {
        None => Err(missing_field_message(name)),
        Some(TomlValue::Integer(i)) => if 0 <= *i && *i <= 4294967295 {
            Ok(*i as u32)
        } else {
            Err(invalid_value_message(name))
        },
        Some(_) => Err(invalid_field_message(name)),
    }
}

/// An optional integer field that must fit a `u16`.
pub open spec fn field_opt_u16(t: Seq<(Seq<char>, TomlView)>, name: Seq<char>) -> Result<
    Option<u16>,
    Seq<char>,
> {
    match table_get(t, name) {
        None => Ok(None),
        Some(TomlView::Integer(i)) => if 0 <= i <= u16::MAX {
            Ok(Some(i as u16))
        } else {
            Err(invalid_value(name))
        },
        Some(_) => Err(invalid_field(name)),
    }
}

/// Reads an optional `u16` field.
pub fn get_opt_u16(t: &Vec<(String, TomlValue)>, name: &str) -> (r: Result<Option<u16>, String>)
    ensures
        match field_opt_u16(entries_view(t@), name@) {
            Ok(n) => r == Ok::<Option<u16>, String>(n),
            Err(e) => r matches Err(x) && x@ == e,
        },
{
    match get_field(t, name) {
        None => Ok(None),
        Some(TomlValue::Integer(i)) => if 0 <= *i && *i <= 65535 {
            Ok(Some(*i as u16))
        } else {
            Err(invalid_value_message(name))
        },
        Some(_) => Err(invalid_field_message(name)),
    }
}

/// The entries of a list of tables, or the error for the first item that is
/// not a table.
pub open spec fn tables_of(items: Seq<TomlView>, name: Seq<char>) -> Result<
    Seq<Seq<(Seq<char>, TomlView)>>,
    Seq<char>,
>
    decreases items.len(),
{
    if items.len() == 0 {
        Ok(Seq::empty())
    } else {
        match tables_of(items.drop_last(), name) {
            Err(e) => Err(e),
            Ok(prefix) => match items.last() {
                TomlView::Table(t) => Ok(prefix.push(t)),
                _ => Err(invalid_field(name)),
            },
        }
    }
}

/// An error found in a prefix of a list stays the error of the whole list.
proof fn lemma_tables_of_err(items: Seq<TomlView>, name: Seq<char>, n: int)
    requires
        0 <= n <= items.len(),
        tables_of(items.take(n), name) is Err,
    ensures
        tables_of(items, name) == tables_of(items.take(n), name),
    decreases items.len() - n,
{
    if n < items.len() {
        assert(items.take(n + 1).drop_last() =~= items.take(n));
        lemma_tables_of_err(items, name, n + 1);
    } else {
        assert(items.take(n) =~= items);
    }
}

/// An array of tables field; a missing one is an error when `required`.
pub open spec fn field_tables(t: Seq<(Seq<char>, TomlView)>, name: Seq<char>, required: bool) -> Result<
    Seq<Seq<(Seq<char>, TomlView)>>,
    Seq<char>,
> {
    match field_array(t, name, required) {
        Err(e) => Err(e),
        Ok(a) => tables_of(a, name),
    }
}

/// The models of a list of tables.
pub open spec fn tables_view(ts: Seq<&Vec<(String, TomlValue)>>) -> Seq<Seq<(Seq<char>, TomlView)>> {
    ts.map_values(|x: &Vec<(String, TomlValue)>| entries_view(x@))
}

/// Reads an array of tables field.
pub fn get_tables<'a>(t: &'a Vec<(String, TomlValue)>, name: &str, required: bool) -> (r: Result<
    Vec<&'a Vec<(String, TomlValue)>>,
    String,
>)
    ensures
        match field_tables(entries_view(t@), name@, required) {
            Ok(s) => r matches Ok(x) && tables_view(x@) == s,
            Err(e) => r matches Err(x) && x@ == e,
        },
{
    let mut out: Vec<&'a Vec<(String, TomlValue)>> = Vec::new();
    let items = match get_array(t, name, required) {
        Err(e) => return Err(e),
        Ok(None) => {
            assert(tables_view(out@) =~= Seq::<Seq<(Seq<char>, TomlView)>>::empty());
            proof {
                if let Ok(a) = field_array(entries_view(t@), name@, required) {
                    assert(a =~= Seq::<TomlView>::empty());
                }
            }
            return Ok(out);
        },
        Ok(Some(a)) => a,
    };
    let ghost iv = items_view(items@);
    proof {
        lemma_items_view(items@);
    }
    let mut i: usize = 0;
    assert(iv.take(0) =~= Seq::<TomlView>::empty());
    assert(tables_view(out@) =~= Seq::<Seq<(Seq<char>, TomlView)>>::empty());
    while i < items.len()
        invariant
            i <= items.len(),
            iv == items_view(items@),
            iv.len() == items@.len(),
            field_tables(entries_view(t@), name@, required) == tables_of(iv, name@),
            forall|j: int| 0 <= j < items@.len() ==> #[trigger] iv[j] == tree_view(items@[j]),
            tables_of(iv.take(i as int), name@) == Ok::<_, Seq<char>>(tables_view(out@)),
        decreases items.len() - i,
    {
        assert(iv.take(i + 1).drop_last() =~= iv.take(i as int));
        assert(iv.take(i + 1).last() == iv[i as int]);
        match &items[i] {
            TomlValue::Table(e) => {
                let ghost before = out@;
                out.push(e);
                assert(tables_view(out@) =~= tables_view(before).push(entries_view(e@)));
            },
            _ => {
                proof {
                    assert(!(iv[i as int] is Table));
                    assert(tables_of(iv.take(i + 1), name@) == Err::<
                        Seq<Seq<(Seq<char>, TomlView)>>,
                        Seq<char>,
                    >(invalid_field(name@)));
                    lemma_tables_of_err(iv, name@, i + 1);
                }
                return Err(invalid_field_message(name));
            },
        }
        i += 1;
    }
    assert(iv.take(items.len() as int) =~= iv);
    Ok(out)
}

/// Maps `f` over a list, stopping at the first error.
pub open spec fn map_ok<A, B>(s: Seq<A>, f: spec_fn(A) -> Result<B, Seq<char>>) -> Result<
    Seq<B>,
    Seq<char>,
>
    decreases s.len(),
{
    if s.len() == 0 {
        Ok(Seq::empty())
    } else {
        match map_ok(s.drop_last(), f) {
            Err(e) => Err(e),
            Ok(prefix) => match f(s.last()) {
                Ok(x) => Ok(prefix.push(x)),
                Err(e) => Err(e),
            },
        }
    }
}

/// One more item mapped: the step a mapping loop takes.
pub proof fn lemma_map_ok_step<A, B>(s: Seq<A>, f: spec_fn(A) -> Result<B, Seq<char>>, n: int)
    requires
        0 <= n < s.len(),
        map_ok(s.take(n), f) is Ok,
    ensures
        match f(s[n]) {
            Ok(x) => map_ok(s.take(n + 1), f) == Ok::<Seq<B>, Seq<char>>(
                map_ok(s.take(n), f)->Ok_0.push(x),
            ),
            Err(e) => map_ok(s, f) == Err::<Seq<B>, Seq<char>>(e),
        },
{
    assert(s.take(n + 1).drop_last() =~= s.take(n));
    assert(s.take(n + 1).last() == s[n]);
    if f(s[n]) is Err {
        lemma_map_ok_err(s, f, n + 1);
    }
}

/// The start of a mapping loop, and its end.
pub proof fn lemma_map_ok_ends<A, B>(s: Seq<A>, f: spec_fn(A) -> Result<B, Seq<char>>)
    ensures
        map_ok(s.take(0), f) == Ok::<Seq<B>, Seq<char>>(Seq::empty()),
        s.take(s.len() as int) == s,
{
    assert(s.take(0) =~= Seq::<A>::empty());
    assert(s.take(s.len() as int) =~= s);
}

/// An error found in a prefix of a list stays the error of the whole list.
proof fn lemma_map_ok_err<A, B>(s: Seq<A>, f: spec_fn(A) -> Result<B, Seq<char>>, n: int)
    requires
        0 <= n <= s.len(),
        map_ok(s.take(n), f) is Err,
    ensures
        map_ok(s, f) == map_ok(s.take(n), f),
    decreases s.len() - n,
{
    if n < s.len() {
        assert(s.take(n + 1).drop_last() =~= s.take(n));
        lemma_map_ok_err(s, f, n + 1);
    } else {
        assert(s.take(n) =~= s);
    }
}

/// `toml::Value`, carried through the document conversion.
#[verifier::external_type_specification]
#[verifier::external_body]
pub struct ExTomlValue(toml::Value);

/// `toml::map::Map`, the table type of the `toml` crate.
#[verifier::external_type_specification]
#[verifier::external_body]
#[verifier::reject_recursive_types(K)]
#[verifier::reject_recursive_types(V)]
pub struct ExTomlMap<K, V>(toml::map::Map<K, V>);

/// What the `toml` crate makes of `text` read as a whole document: the
/// document's entries, or the `Display` text of its parse error.
pub uninterp spec fn toml_document(text: Seq<char>) -> Result<Seq<(Seq<char>, TomlView)>, Seq<char>>;

/// Parses `text` with `toml::Table`'s `FromStr` (that is `toml::from_str`
/// into a table). The contract names the outcome and claims no more of it:
/// the entries, converted one for one by `plain_table`, or the error's text.
#[verifier::external_body]
pub(crate) fn parse_toml_document(text: &str) -> (r: Result<Vec<(String, TomlValue)>, String>)
    ensures
        match r {
            Ok(t) => toml_document(text@) == Ok::<_, Seq<char>>(entries_view(t@)),
            Err(e) => toml_document(text@) == Err::<Seq<(Seq<char>, TomlView)>, _>(e@),
        },
{
    match text.parse::<toml::Table>() {
        Ok(table) => Ok(plain_table(table)),
        Err(error) => Err(error.to_string()),
    }
}

/// Converts a `toml` table into plain entries, one for one and in the
/// table's own order. Used only inside `parse_toml_document`.
#[verifier::external_body]
fn plain_table(table: toml::Table) -> Vec<(String, TomlValue)> {
    table.into_iter().map(|(key, value)| (key, plain_value(value))).collect()
}

/// Converts a `toml` value into a plain one, variant for variant; floats
/// and datetimes become their `Display` text. Used only inside
/// `parse_toml_document`.
#[verifier::external_body]
fn plain_value(value: toml::Value) -> TomlValue {
    match value {
        toml::Value::String(s) => TomlValue::String(s),
        toml::Value::Integer(i) => TomlValue::Integer(i),
        toml::Value::Float(f) => TomlValue::Float(f.to_string()),
        toml::Value::Boolean(b) => TomlValue::Boolean(b),
        toml::Value::Datetime(d) => TomlValue::Datetime(d.to_string()),
        toml::Value::Array(a) => TomlValue::Array(a.into_iter().map(plain_value).collect()),
        toml::Value::Table(t) => TomlValue::Table(plain_table(t)),
    }
}

} // verus!
