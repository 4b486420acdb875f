//! Decoding a TOML tree into a `LynxProject` and encoding a project back
//! into a tree, against the `.lynx` schema.
//!
//! The schema: every table field is looked up by its key; a missing key
//! takes the field's default where it has one, is `None` for an optional
//! field, and is an error otherwise; a value of the wrong kind is an error;
//! keys the schema does not name are ignored. Install steps and
//! prerequisites are tables tagged by their `kind` key.
use vstd::prelude::*;
use vstd::string::*;
use crate::config::{
    AppMeta, AppMetaView, FileEntry, FileEntryView, InstallStep, InstallStepView, LynxProject,
    LynxProjectView, Prerequisite, PrerequisiteView, ShortcutLocation, Theme, ThemeView,
    UninstallConfig, UninstallConfigView, ostr, str_pairs, strs,
};
use crate::text::str_equal;
use crate::config::{
    default_accent, default_env_scope, default_theme, default_theme_view, default_install_dir, default_reg_type, default_true,
    default_uninstaller_name,
};
use crate::toml_tree::{
    Entries, TomlValue, TomlView, entries_view, find_key, lemma_entries_view, lemma_entries_view_push,
    keys_distinct, keys_unique, lemma_list_view, lemma_list_view_push, lemma_lookup_found, list_view, lookup,
    tree_view,
};

verus! {

/// Why a tree does not follow the schema; each names the offending key.
#[derive(Debug, Clone, Copy)]
pub enum SchemaError {
    /// A required key is absent
    Missing(&'static str),
    /// A key holds a value of the wrong kind
    WrongType(&'static str),
    /// A number does not fit the field
    OutOfRange(&'static str),
    /// A `kind` tag or a shortcut location that the schema does not know
    UnknownVariant(&'static str),
}

// ─────────────────────────────────────────────
//  Scalar fields
// ─────────────────────────────────────────────

/// The string at `k`, if present.
pub open spec fn str_field(t: Entries, k: &str) -> Result<Option<Seq<char>>, SchemaError> {
    match lookup(t, k@) {
        None => Ok(None),
        Some(TomlView::Str(s)) => Ok(Some(s)),
        Some(_) => Err(SchemaError::WrongType(k)),
    }
}

/// The required string at `k`.
pub open spec fn req_str(t: Entries, k: &str) -> Result<Seq<char>, SchemaError> {
    match str_field(t, k) {
        Ok(Some(s)) => Ok(s),
        Ok(None) => Err(SchemaError::Missing(k)),
        Err(e) => Err(e),
    }
}

/// The string at `k`, or `d` where absent.
pub open spec fn str_or(t: Entries, k: &str, d: Seq<char>) -> Result<Seq<char>, SchemaError> {
    match str_field(t, k) {
        Ok(Some(s)) => Ok(s),
        Ok(None) => Ok(d),
        Err(e) => Err(e),
    }
}

/// The boolean at `k`, or `d` where absent.
pub open spec fn bool_or(t: Entries, k: &str, d: bool) -> Result<bool, SchemaError> {
    match lookup(t, k@) {
        None => Ok(d),
        Some(TomlView::Bool(b)) => Ok(b),
        Some(_) => Err(SchemaError::WrongType(k)),
    }
}

/// The required non-negative integer at `k`.
pub open spec fn req_u64(t: Entries, k: &str) -> Result<int, SchemaError> {
    match lookup(t, k@) {
        None => Err(SchemaError::Missing(k)),
        Some(TomlView::Int(i)) => if 0 <= i {
            Ok(i)
        } else {
            Err(SchemaError::OutOfRange(k))
        },
        Some(_) => Err(SchemaError::WrongType(k)),
    }
}

/// The 32-bit integer at `k`, or `d` where absent.
pub open spec fn i32_or(t: Entries, k: &str, d: int) -> Result<int, SchemaError> {
    match lookup(t, k@) {
        None => Ok(d),
        Some(TomlView::Int(i)) => if i32::MIN <= i <= i32::MAX {
            Ok(i)
        } else {
            Err(SchemaError::OutOfRange(k))
        },
        Some(_) => Err(SchemaError::WrongType(k)),
    }
}

/// Decodes each item in order; the first item that fails gives the error.
pub open spec fn decode_list<T>(
    items: Seq<TomlView>,
    f: spec_fn(TomlView) -> Result<T, SchemaError>,
) -> Result<Seq<T>, SchemaError>
    decreases items.len(),
{
    if items.len() == 0 {
        Ok(Seq::empty())
    } else {
        match f(items[0]) {
            Err(e) => Err(e),
            Ok(x) => match decode_list(items.drop_first(), f) {
                Ok(rest) => Ok(seq![x] + rest),
                Err(e) => Err(e),
            },
        }
    }
}

/// `xs` before a decoded list; an error stays an error.
pub open spec fn prepend<T>(xs: Seq<T>, r: Result<Seq<T>, SchemaError>) -> Result<Seq<T>, SchemaError> {
    match r {
        Ok(rest) => Ok(xs + rest),
        Err(e) => Err(e),
    }
}

/// The list at `k` decoded by `f`; `Missing` where absent.
pub open spec fn req_list<T>(
    t: Entries,
    k: &str,
    f: spec_fn(TomlView) -> Result<T, SchemaError>,
) -> Result<Seq<T>, SchemaError> {
    match lookup(t, k@) {
        None => Err(SchemaError::Missing(k)),
        Some(TomlView::Array(items)) => decode_list(items, f),
        Some(_) => Err(SchemaError::WrongType(k)),
    }
}

/// The list at `k` decoded by `f`; empty where absent.
pub open spec fn list_or_empty<T>(
    t: Entries,
    k: &str,
    f: spec_fn(TomlView) -> Result<T, SchemaError>,
) -> Result<Seq<T>, SchemaError> {
    match lookup(t, k@) {
        None => Ok(Seq::empty()),
        Some(TomlView::Array(items)) => decode_list(items, f),
        Some(_) => Err(SchemaError::WrongType(k)),
    }
}

/// A string item of the list at `k`.
pub open spec fn str_item(k: &str) -> spec_fn(TomlView) -> Result<Seq<char>, SchemaError> {
    |v: TomlView|
        match v {
            TomlView::Str(s) => Ok(s),
            _ => Err(SchemaError::WrongType(k)),
        }
}

/// A shortcut location: one of `desktop`, `start_menu`, `taskbar`.
pub open spec fn location_item(k: &str) -> spec_fn(TomlView) -> Result<ShortcutLocation, SchemaError> {
    |v: TomlView|
        match v {
            TomlView::Str(s) => if s == "desktop"@ {
                Ok(ShortcutLocation::Desktop)
            } else if s == "start_menu"@ {
                Ok(ShortcutLocation::StartMenu)
            } else if s == "taskbar"@ {
                Ok(ShortcutLocation::Taskbar)
            } else {
                Err(SchemaError::UnknownVariant(k))
            },
            _ => Err(SchemaError::WrongType(k)),
        }
}

/// The table of string values at `k`, in document order; empty where absent.
pub open spec fn str_map_or_empty(t: Entries, k: &str) -> Result<Seq<(Seq<char>, Seq<char>)>, SchemaError> {
    match lookup(t, k@) {
        None => Ok(Seq::empty()),
        Some(TomlView::Table(e)) => decode_pairs(e, k),
        Some(_) => Err(SchemaError::WrongType(k)),
    }
}

/// Each entry of a table of strings, in order.
pub open spec fn decode_pairs(e: Entries, k: &str) -> Result<Seq<(Seq<char>, Seq<char>)>, SchemaError>
    decreases e.len(),
{
    if e.len() == 0 {
        Ok(Seq::empty())
    } else {
        match e[0].1 {
            TomlView::Str(s) => match decode_pairs(e.drop_first(), k) {
                Ok(rest) => Ok(seq![(e[0].0, s)] + rest),
                Err(err) => Err(err),
            },
            _ => Err(SchemaError::WrongType(k)),
        }
    }
}

// ─────────────────────────────────────────────
//  Executable field readers
// ─────────────────────────────────────────────

pub open spec fn res_ostr(r: Result<Option<String>, SchemaError>) -> Result<Option<Seq<char>>, SchemaError> {
    match r {
        Ok(o) => Ok(ostr(o)),
        Err(e) => Err(e),
    }
}

pub open spec fn res_str(r: Result<String, SchemaError>) -> Result<Seq<char>, SchemaError> {
    match r {
        Ok(s) => Ok(s@),
        Err(e) => Err(e),
    }
}

fn get_str(t: &Vec<(String, TomlValue)>, k: &'static str) -> (r: Result<Option<String>, SchemaError>)
    ensures
        res_ostr(r) == str_field(entries_view(t@), k),
{
    match find_key(t, k) {
        None => Ok(None),
        Some(i) => match &t[i].1 {
            TomlValue::Str(s) => Ok(Some(s.clone())),
            _ => Err(SchemaError::WrongType(k)),
        },
    }
}

fn get_req_str(t: &Vec<(String, TomlValue)>, k: &'static str) -> (r: Result<String, SchemaError>)
    ensures
        res_str(r) == req_str(entries_view(t@), k),
{
    match get_str(t, k) {
        Ok(Some(s)) => Ok(s),
        Ok(None) => Err(SchemaError::Missing(k)),
        Err(e) => Err(e),
    }
}

fn get_str_or(t: &Vec<(String, TomlValue)>, k: &'static str, d: String) -> (r: Result<String, SchemaError>)
    ensures
        res_str(r) == str_or(entries_view(t@), k, d@),
{
    match get_str(t, k) {
        Ok(Some(s)) => Ok(s),
        Ok(None) => Ok(d),
        Err(e) => Err(e),
    }
}

fn get_bool_or(t: &Vec<(String, TomlValue)>, k: &'static str, d: bool) -> (r: Result<bool, SchemaError>)
    ensures
        r == bool_or(entries_view(t@), k, d),
{
    match find_key(t, k) {
        None => Ok(d),
        Some(i) => match &t[i].1 {
            TomlValue::Bool(b) => Ok(*b),
            _ => Err(SchemaError::WrongType(k)),
        },
    }
}

fn get_req_u64(t: &Vec<(String, TomlValue)>, k: &'static str) -> (r: Result<u64, SchemaError>)
    ensures
        match r {
            Ok(n) => req_u64(entries_view(t@), k) == Ok::<int, SchemaError>(n as int),
            Err(e) => req_u64(entries_view(t@), k) == Err::<int, SchemaError>(e),
        },
{
    match find_key(t, k) {
        None => Err(SchemaError::Missing(k)),
        Some(i) => match &t[i].1 {
            TomlValue::Int(n) => if *n >= 0 {
                Ok(*n as u64)
            } else {
                Err(SchemaError::OutOfRange(k))
            },
            _ => Err(SchemaError::WrongType(k)),
        },
    }
}

fn get_i32_or(t: &Vec<(String, TomlValue)>, k: &'static str, d: i32) -> (r: Result<i32, SchemaError>)
    ensures
        match r {
            Ok(n) => i32_or(entries_view(t@), k, d as int) == Ok::<int, SchemaError>(n as int),
            Err(e) => i32_or(entries_view(t@), k, d as int) == Err::<int, SchemaError>(e),
        },
{
    match find_key(t, k) {
        None => Ok(d),
        Some(i) => match &t[i].1 {
            TomlValue::Int(n) => if -2147483648 <= *n && *n <= 2147483647 {
                Ok(*n as i32)
            } else {
                Err(SchemaError::OutOfRange(k))
            },
            _ => Err(SchemaError::WrongType(k)),
        },
    }
}

/// Decodes a list of strings.
fn decode_strs(items: &Vec<TomlValue>, k: &'static str) -> (r: Result<Vec<String>, SchemaError>)
    ensures
        match r {
            Ok(v) => decode_list(list_view(items@), str_item(k)) == Ok::<Seq<Seq<char>>, SchemaError>(strs(v@)),
            Err(e) => decode_list(list_view(items@), str_item(k)) == Err::<Seq<Seq<char>>, SchemaError>(e),
        },
{
    proof {
        lemma_list_view(items@);
    }
    let ghost items_v = list_view(items@);
    let mut out: Vec<String> = Vec::new();
    let n = items.len();
    let mut i: usize = 0;
    assert(items_v.skip(0) =~= items_v);
    assert(strs(out@) + Seq::<Seq<char>>::empty() =~= Seq::<Seq<char>>::empty());
    while i < n
        invariant
            n == items@.len(),
            i <= n,
            items_v == list_view(items@),
            items_v.len() == items@.len(),
            forall|j: int| 0 <= j < items@.len() ==> #[trigger] items_v[j] == tree_view(items@[j]),
            decode_list(items_v, str_item(k)) == prepend(strs(out@), decode_list(items_v.skip(i as int), str_item(k))),
        decreases n - i,
    {
        let ghost rest = items_v.skip(i as int);
        assert(rest[0] == items_v[i as int]);
        assert(rest.drop_first() =~= items_v.skip(i + 1));
        match &items[i] {
            TomlValue::Str(s) => {
                let ghost before = out@;
                out.push(s.clone());
                proof {
                    assert(strs(out@) =~= strs(before).push(s@));
                    match decode_list(items_v.skip(i + 1), str_item(k)) {
                        Ok(r2) => {
                            assert(strs(before) + (seq![s@] + r2) =~= strs(out@) + r2);
                        },
                        Err(_) => {},
                    }
                }
            },
            _ => {
                return Err(SchemaError::WrongType(k));
            },
        }
        i = i + 1;
    }
    assert(items_v.skip(n as int) =~= Seq::<TomlView>::empty());
    assert(strs(out@) + Seq::<Seq<char>>::empty() =~= strs(out@));
    Ok(out)
}


fn get_table<'a>(t: &'a Vec<(String, TomlValue)>, k: &'static str) -> (r: Result<Option<&'a Vec<(String, TomlValue)>>, SchemaError>)
    ensures
        match r {
            Ok(None) => lookup(entries_view(t@), k@) is None,
            Ok(Some(e)) => lookup(entries_view(t@), k@) == Some(TomlView::Table(entries_view(e@))),
            Err(err) => err == SchemaError::WrongType(k) && (lookup(entries_view(t@), k@) matches Some(v) && !(v is Table)),
        },
{
    match find_key(t, k) {
        None => Ok(None),
        Some(i) => match &t[i].1 {
            TomlValue::Table(e) => Ok(Some(e)),
            _ => Err(SchemaError::WrongType(k)),
        },
    }
}

fn get_array<'a>(t: &'a Vec<(String, TomlValue)>, k: &'static str) -> (r: Result<Option<&'a Vec<TomlValue>>, SchemaError>)
    ensures
        match r {
            Ok(None) => lookup(entries_view(t@), k@) is None,
            Ok(Some(a)) => lookup(entries_view(t@), k@) == Some(TomlView::Array(list_view(a@))),
            Err(err) => err == SchemaError::WrongType(k) && (lookup(entries_view(t@), k@) matches Some(v) && !(v is Array)),
        },
{
    match find_key(t, k) {
        None => Ok(None),
        Some(i) => match &t[i].1 {
            TomlValue::Array(a) => Ok(Some(a)),
            _ => Err(SchemaError::WrongType(k)),
        },
    }
}

fn get_str_list_or_empty(t: &Vec<(String, TomlValue)>, k: &'static str) -> (r: Result<Vec<String>, SchemaError>)
    ensures
        match r {
            Ok(v) => list_or_empty(entries_view(t@), k, str_item(k)) == Ok::<Seq<Seq<char>>, SchemaError>(strs(v@)),
            Err(e) => list_or_empty(entries_view(t@), k, str_item(k)) == Err::<Seq<Seq<char>>, SchemaError>(e),
        },
{
    match get_array(t, k)? {
        None => {
            let v: Vec<String> = Vec::new();
            assert(strs(v@) =~= Seq::<Seq<char>>::empty());
            Ok(v)
        },
        Some(a) => decode_strs(a, k),
    }
}

fn get_req_str_list(t: &Vec<(String, TomlValue)>, k: &'static str) -> (r: Result<Vec<String>, SchemaError>)
    ensures
        match r {
            Ok(v) => req_list(entries_view(t@), k, str_item(k)) == Ok::<Seq<Seq<char>>, SchemaError>(strs(v@)),
            Err(e) => req_list(entries_view(t@), k, str_item(k)) == Err::<Seq<Seq<char>>, SchemaError>(e),
        },
{
    match get_array(t, k)? {
        None => Err(SchemaError::Missing(k)),
        Some(a) => decode_strs(a, k),
    }
}

/// Decodes a list of shortcut locations.
fn decode_locations(items: &Vec<TomlValue>, k: &'static str) -> (r: Result<Vec<ShortcutLocation>, SchemaError>)
    ensures
        match r {
            Ok(v) => decode_list(list_view(items@), location_item(k)) == Ok::<Seq<ShortcutLocation>, SchemaError>(v@),
            Err(e) => decode_list(list_view(items@), location_item(k)) == Err::<Seq<ShortcutLocation>, SchemaError>(e),
        },
{
    proof {
        lemma_list_view(items@);
    }
    let ghost items_v = list_view(items@);
    let mut out: Vec<ShortcutLocation> = Vec::new();
    let n = items.len();
    let mut i: usize = 0;
    assert(items_v.skip(0) =~= items_v);
    assert(out@ + Seq::<ShortcutLocation>::empty() =~= Seq::<ShortcutLocation>::empty());
    while i < n
        invariant
            n == items@.len(),
            i <= n,
            items_v == list_view(items@),
            items_v.len() == items@.len(),
            forall|j: int| 0 <= j < items@.len() ==> #[trigger] items_v[j] == tree_view(items@[j]),
            decode_list(items_v, location_item(k)) == prepend(out@, decode_list(items_v.skip(i as int), location_item(k))),
        decreases n - i,
    {
        let ghost rest = items_v.skip(i as int);
        assert(rest[0] == items_v[i as int]);
        assert(rest.drop_first() =~= items_v.skip(i + 1));
        let loc = match &items[i] {
            TomlValue::Str(s) => {
                if str_equal(s.as_str(), "desktop") {
                    ShortcutLocation::Desktop
                } else if str_equal(s.as_str(), "start_menu") {
                    ShortcutLocation::StartMenu
                } else if str_equal(s.as_str(), "taskbar") {
                    ShortcutLocation::Taskbar
                } else {
                    return Err(SchemaError::UnknownVariant(k));
                }
            },
            _ => {
                return Err(SchemaError::WrongType(k));
            },
        };
        let ghost before = out@;
        out.push(loc);
        proof {
            match decode_list(items_v.skip(i + 1), location_item(k)) {
                Ok(r2) => {
                    assert(before + (seq![loc] + r2) =~= out@ + r2);
                },
                Err(_) => {},
            }
        }
        i = i + 1;
    }
    assert(items_v.skip(n as int) =~= Seq::<TomlView>::empty());
    assert(out@ + Seq::<ShortcutLocation>::empty() =~= out@);
    Ok(out)
}

fn get_req_locations(t: &Vec<(String, TomlValue)>, k: &'static str) -> (r: Result<Vec<ShortcutLocation>, SchemaError>)
    ensures
        match r {
            Ok(v) => req_list(entries_view(t@), k, location_item(k)) == Ok::<Seq<ShortcutLocation>, SchemaError>(v@),
            Err(e) => req_list(entries_view(t@), k, location_item(k)) == Err::<Seq<ShortcutLocation>, SchemaError>(e),
        },
{
    match get_array(t, k)? {
        None => Err(SchemaError::Missing(k)),
        Some(a) => decode_locations(a, k),
    }
}

/// Decodes a table of strings, keeping the document order.
fn decode_str_pairs(e: &Vec<(String, TomlValue)>, k: &'static str) -> (r: Result<Vec<(String, String)>, SchemaError>)
    ensures
        match r {
            Ok(v) => decode_pairs(entries_view(e@), k) == Ok::<Seq<(Seq<char>, Seq<char>)>, SchemaError>(str_pairs(v@)),
            Err(err) => decode_pairs(entries_view(e@), k) == Err::<Seq<(Seq<char>, Seq<char>)>, SchemaError>(err),
        },
{
    proof {
        lemma_entries_view(e@);
    }
    let ghost ev = entries_view(e@);
    let mut out: Vec<(String, String)> = Vec::new();
    let n = e.len();
    let mut i: usize = 0;
    assert(ev.skip(0) =~= ev);
    assert(str_pairs(out@) + Seq::<(Seq<char>, Seq<char>)>::empty() =~= Seq::<(Seq<char>, Seq<char>)>::empty());
    while i < n
        invariant
            n == e@.len(),
            i <= n,
            ev == entries_view(e@),
            ev.len() == e@.len(),
            forall|j: int| 0 <= j < e@.len() ==> #[trigger] ev[j] == (e@[j].0@, tree_view(e@[j].1)),
            decode_pairs(ev, k) == match decode_pairs(ev.skip(i as int), k) {
                Ok(rest) => Ok(str_pairs(out@) + rest),
                Err(err) => Err(err),
            },
        decreases n - i,
    {
        let ghost rest = ev.skip(i as int);
        assert(rest[0] == ev[i as int]);
        assert(rest.drop_first() =~= ev.skip(i + 1));
        match &e[i].1 {
            TomlValue::Str(s) => {
                let ghost before = out@;
                let key = e[i].0.clone();
                let val = s.clone();
                out.push((key, val));
                proof {
                    assert(str_pairs(out@) =~= str_pairs(before).push((key@, val@)));
                    match decode_pairs(ev.skip(i + 1), k) {
                        Ok(r2) => {
                            assert(str_pairs(before) + (seq![(ev[i as int].0, s@)] + r2) =~= str_pairs(out@) + r2);
                        },
                        Err(_) => {},
                    }
                }
            },
            _ => {
                return Err(SchemaError::WrongType(k));
            },
        }
        i = i + 1;
    }
    assert(ev.skip(n as int) =~= Seq::<(Seq<char>, TomlView)>::empty());
    assert(str_pairs(out@) + Seq::<(Seq<char>, Seq<char>)>::empty() =~= str_pairs(out@));
    Ok(out)
}

fn get_str_map_or_empty(t: &Vec<(String, TomlValue)>, k: &'static str) -> (r: Result<Vec<(String, String)>, SchemaError>)
    ensures
        match r {
            Ok(v) => str_map_or_empty(entries_view(t@), k) == Ok::<Seq<(Seq<char>, Seq<char>)>, SchemaError>(str_pairs(v@)),
            Err(e) => str_map_or_empty(entries_view(t@), k) == Err::<Seq<(Seq<char>, Seq<char>)>, SchemaError>(e),
        },
{
    match get_table(t, k)? {
        None => {
            let v: Vec<(String, String)> = Vec::new();
            assert(str_pairs(v@) =~= Seq::<(Seq<char>, Seq<char>)>::empty());
            Ok(v)
        },
        Some(e) => decode_str_pairs(e, k),
    }
}


// ─────────────────────────────────────────────
//  Tables of the schema
// ─────────────────────────────────────────────

/// The `[app]` table.
pub open spec fn decode_app(t: Entries) -> Result<AppMetaView, SchemaError> {
    match (
        req_str(t, "name"),
        req_str(t, "version"),
        req_str(t, "publisher"),
        req_str(t, "id"),
        str_field(t, "icon"),
        str_or(t, "default_install_dir", "{program_files}/{app_name}"@),
        str_field(t, "url"),
        str_field(t, "description"),
    ) {
        (Ok(name), Ok(version), Ok(publisher), Ok(id), Ok(icon), Ok(default_install_dir), Ok(url), Ok(description)) =>
            Ok(AppMetaView { name, version, publisher, id, icon, default_install_dir, url, description }),
        (Err(e), _, _, _, _, _, _, _) => Err(e),
        (_, Err(e), _, _, _, _, _, _) => Err(e),
        (_, _, Err(e), _, _, _, _, _) => Err(e),
        (_, _, _, Err(e), _, _, _, _) => Err(e),
        (_, _, _, _, Err(e), _, _, _) => Err(e),
        (_, _, _, _, _, Err(e), _, _) => Err(e),
        (_, _, _, _, _, _, Err(e), _) => Err(e),
        (_, _, _, _, _, _, _, Err(e)) => Err(e),
    }
}

/// The `[theme]` table.
pub open spec fn decode_theme(t: Entries) -> Result<ThemeView, SchemaError> {
    match (
        req_str(t, "name"),
        req_str(t, "path"),
        str_or(t, "accent_color", "#FF6B35"@),
        str_field(t, "background_color"),
        str_map_or_empty(t, "custom_vars"),
    ) {
        (Ok(name), Ok(path), Ok(accent_color), Ok(background_color), Ok(custom_vars)) =>
            Ok(ThemeView { name, path, accent_color, background_color, custom_vars }),
        (Err(e), _, _, _, _) => Err(e),
        (_, Err(e), _, _, _) => Err(e),
        (_, _, Err(e), _, _) => Err(e),
        (_, _, _, Err(e), _) => Err(e),
        (_, _, _, _, Err(e)) => Err(e),
    }
}

/// A `[[files]]` table.
pub open spec fn decode_file(t: Entries) -> Result<FileEntryView, SchemaError> {
    match (
        req_str(t, "source"),
        req_str(t, "destination"),
        bool_or(t, "recursive", true),
        str_field(t, "filter"),
        bool_or(t, "overwrite", true),
    ) {
        (Ok(source), Ok(destination), Ok(recursive), Ok(filter), Ok(overwrite)) =>
            Ok(FileEntryView { source, destination, recursive, filter, overwrite }),
        (Err(e), _, _, _, _) => Err(e),
        (_, Err(e), _, _, _) => Err(e),
        (_, _, Err(e), _, _) => Err(e),
        (_, _, _, Err(e), _) => Err(e),
        (_, _, _, _, Err(e)) => Err(e),
    }
}

/// The `[uninstall]` table.
pub open spec fn decode_uninstall(t: Entries) -> Result<UninstallConfigView, SchemaError> {
    match (
        bool_or(t, "enabled", true),
        str_or(t, "exe_name", "uninstall.exe"@),
        list_or_empty(t, "extra_remove_paths", str_item("extra_remove_paths")),
        bool_or(t, "remove_install_dir", true),
    ) {
        (Ok(enabled), Ok(exe_name), Ok(extra_remove_paths), Ok(remove_install_dir)) =>
            Ok(UninstallConfigView { enabled, exe_name, extra_remove_paths, remove_install_dir }),
        (Err(e), _, _, _) => Err(e),
        (_, Err(e), _, _) => Err(e),
        (_, _, Err(e), _) => Err(e),
        (_, _, _, Err(e)) => Err(e),
    }
}

/// A `[[steps]]` table, tagged by `kind`.
pub open spec fn decode_step(t: Entries) -> Result<InstallStepView, SchemaError> {
    match req_str(t, "kind") {
        Err(e) => Err(e),
        Ok(kind) => if kind == "extract"@ {
            match req_str(t, "label") {
                Ok(label) => Ok(InstallStepView::Extract { label }),
                Err(e) => Err(e),
            }
        } else if kind == "shortcut"@ {
            match (
                req_str(t, "label"),
                req_str(t, "target"),
                req_list(t, "locations", location_item("locations")),
                str_field(t, "name"),
            ) {
                (Ok(label), Ok(target), Ok(locations), Ok(name)) =>
                    Ok(InstallStepView::Shortcut { label, target, locations, name }),
                (Err(e), _, _, _) => Err(e),
                (_, Err(e), _, _) => Err(e),
                (_, _, Err(e), _) => Err(e),
                (_, _, _, Err(e)) => Err(e),
            }
        } else if kind == "registry"@ {
            match (
                req_str(t, "label"),
                req_str(t, "hive"),
                req_str(t, "key"),
                req_str(t, "value_name"),
                req_str(t, "value_data"),
                str_or(t, "value_type", "REG_SZ"@),
            ) {
                (Ok(label), Ok(hive), Ok(key), Ok(value_name), Ok(value_data), Ok(value_type)) =>
                    Ok(InstallStepView::Registry { label, hive, key, value_name, value_data, value_type }),
                (Err(e), _, _, _, _, _) => Err(e),
                (_, Err(e), _, _, _, _) => Err(e),
                (_, _, Err(e), _, _, _) => Err(e),
                (_, _, _, Err(e), _, _) => Err(e),
                (_, _, _, _, Err(e), _) => Err(e),
                (_, _, _, _, _, Err(e)) => Err(e),
            }
        } else if kind == "command"@ {
            match (
                req_str(t, "label"),
                req_str(t, "command"),
                list_or_empty(t, "args", str_item("args")),
                bool_or(t, "wait", true),
                bool_or(t, "fail_on_error", true),
            ) {
                (Ok(label), Ok(command), Ok(args), Ok(wait), Ok(fail_on_error)) =>
                    Ok(InstallStepView::Command { label, command, args, wait, fail_on_error }),
                (Err(e), _, _, _, _) => Err(e),
                (_, Err(e), _, _, _) => Err(e),
                (_, _, Err(e), _, _) => Err(e),
                (_, _, _, Err(e), _) => Err(e),
                (_, _, _, _, Err(e)) => Err(e),
            }
        } else if kind == "env_var"@ {
            match (req_str(t, "label"), req_str(t, "name"), req_str(t, "value"), str_or(t, "scope", "user"@)) {
                (Ok(label), Ok(name), Ok(value), Ok(scope)) => Ok(InstallStepView::EnvVar { label, name, value, scope }),
                (Err(e), _, _, _) => Err(e),
                (_, Err(e), _, _) => Err(e),
                (_, _, Err(e), _) => Err(e),
                (_, _, _, Err(e)) => Err(e),
            }
        } else if kind == "register_uninstaller"@ {
            match req_str(t, "label") {
                Ok(label) => Ok(InstallStepView::RegisterUninstaller { label }),
                Err(e) => Err(e),
            }
        } else {
            Err(SchemaError::UnknownVariant("kind"))
        },
    }
}

/// A `[[prerequisites]]` table, tagged by `kind`.
pub open spec fn decode_prerequisite(t: Entries) -> Result<PrerequisiteView, SchemaError> {
    match req_str(t, "kind") {
        Err(e) => Err(e),
        Ok(kind) => if kind == "dot_net"@ {
            match (req_str(t, "minimum_version"), str_field(t, "download_url")) {
                (Ok(minimum_version), Ok(download_url)) => Ok(PrerequisiteView::DotNet { minimum_version, download_url }),
                (Err(e), _) => Err(e),
                (_, Err(e)) => Err(e),
            }
        } else if kind == "vc_redist"@ {
            match (req_str(t, "year"), req_str(t, "arch"), str_field(t, "download_url")) {
                (Ok(year), Ok(arch), Ok(download_url)) => Ok(PrerequisiteView::VcRedist { year, arch, download_url }),
                (Err(e), _, _) => Err(e),
                (_, Err(e), _) => Err(e),
                (_, _, Err(e)) => Err(e),
            }
        } else if kind == "os_version"@ {
            match req_str(t, "minimum") {
                Ok(minimum) => Ok(PrerequisiteView::OsVersion { minimum }),
                Err(e) => Err(e),
            }
        } else if kind == "disk_space"@ {
            match req_u64(t, "required_mb") {
                Ok(required_mb) => Ok(PrerequisiteView::DiskSpace { required_mb }),
                Err(e) => Err(e),
            }
        } else if kind == "custom"@ {
            match (
                req_str(t, "label"),
                req_str(t, "check_command"),
                req_list(t, "args", str_item("args")),
                i32_or(t, "expected_exit_code", 0),
                req_str(t, "error_message"),
                str_field(t, "download_url"),
            ) {
                (Ok(label), Ok(check_command), Ok(args), Ok(expected_exit_code), Ok(error_message), Ok(download_url)) =>
                    Ok(PrerequisiteView::Custom { label, check_command, args, expected_exit_code, error_message, download_url }),
                (Err(e), _, _, _, _, _) => Err(e),
                (_, Err(e), _, _, _, _) => Err(e),
                (_, _, Err(e), _, _, _) => Err(e),
                (_, _, _, Err(e), _, _) => Err(e),
                (_, _, _, _, Err(e), _) => Err(e),
                (_, _, _, _, _, Err(e)) => Err(e),
            }
        } else {
            Err(SchemaError::UnknownVariant("kind"))
        },
    }
}

/// A list item that must be a table, decoded by `f`.
pub open spec fn table_item<T>(k: &str, f: spec_fn(Entries) -> Result<T, SchemaError>) -> spec_fn(TomlView) -> Result<T, SchemaError> {
    |v: TomlView|
        match v {
            TomlView::Table(e) => f(e),
            _ => Err(SchemaError::WrongType(k)),
        }
}

/// The required table at `k`, decoded by `f`.
pub open spec fn req_table<T>(t: Entries, k: &str, f: spec_fn(Entries) -> Result<T, SchemaError>) -> Result<T, SchemaError> {
    match lookup(t, k@) {
        None => Err(SchemaError::Missing(k)),
        Some(TomlView::Table(e)) => f(e),
        Some(_) => Err(SchemaError::WrongType(k)),
    }
}

/// The table at `k`, decoded by `f`; `d` where the document has none.
pub open spec fn table_or<T>(
    t: Entries,
    k: &str,
    f: spec_fn(Entries) -> Result<T, SchemaError>,
    d: T,
) -> Result<T, SchemaError> {
    match lookup(t, k@) {
        None => Ok(d),
        Some(TomlView::Table(e)) => f(e),
        Some(_) => Err(SchemaError::WrongType(k)),
    }
}

/// The optional table at `k`, decoded by `f`.
pub open spec fn opt_table<T>(t: Entries, k: &str, f: spec_fn(Entries) -> Result<T, SchemaError>) -> Result<Option<T>, SchemaError> {
    match lookup(t, k@) {
        None => Ok(None),
        Some(TomlView::Table(e)) => match f(e) {
            Ok(x) => Ok(Some(x)),
            Err(err) => Err(err),
        },
        Some(_) => Err(SchemaError::WrongType(k)),
    }
}

/// An item of the `files` list.
pub open spec fn file_item() -> spec_fn(TomlView) -> Result<FileEntryView, SchemaError> {
    table_item("files", |e: Entries| decode_file(e))
}

/// An item of the `steps` list.
pub open spec fn step_item() -> spec_fn(TomlView) -> Result<InstallStepView, SchemaError> {
    table_item("steps", |e: Entries| decode_step(e))
}

/// An item of the `prerequisites` list.
pub open spec fn prerequisite_item() -> spec_fn(TomlView) -> Result<PrerequisiteView, SchemaError> {
    table_item("prerequisites", |e: Entries| decode_prerequisite(e))
}

/// A whole project document.
pub open spec fn decode_project(t: Entries) -> Result<LynxProjectView, SchemaError> {
    match (
        req_table(t, "app", |e: Entries| decode_app(e)),
        table_or(t, "theme", |e: Entries| decode_theme(e), default_theme_view()),
        list_or_empty(t, "files", file_item()),
        list_or_empty(t, "steps", step_item()),
        list_or_empty(t, "prerequisites", prerequisite_item()),
        opt_table(t, "uninstall", |e: Entries| decode_uninstall(e)),
    ) {
        (Ok(app), Ok(theme), Ok(files), Ok(steps), Ok(prerequisites), Ok(uninstall)) =>
            Ok(LynxProjectView { app, theme, files, steps, prerequisites, uninstall }),
        (Err(e), _, _, _, _, _) => Err(e),
        (_, Err(e), _, _, _, _) => Err(e),
        (_, _, Err(e), _, _, _) => Err(e),
        (_, _, _, Err(e), _, _) => Err(e),
        (_, _, _, _, Err(e), _) => Err(e),
        (_, _, _, _, _, Err(e)) => Err(e),
    }
}

/// A parsed document: a table decoded as a project.
pub open spec fn decode_document(doc: TomlView) -> Result<LynxProjectView, SchemaError> {
    match doc {
        TomlView::Table(t) => decode_project(t),
        _ => Err(SchemaError::WrongType("document")),
    }
}

pub open spec fn res_view<T: View>(r: Result<T, SchemaError>) -> Result<T::V, SchemaError> {
    match r {
        Ok(x) => Ok(x@),
        Err(e) => Err(e),
    }
}

fn decode_app_exec(t: &Vec<(String, TomlValue)>) -> (r: Result<AppMeta, SchemaError>)
    ensures
        res_view(r) == decode_app(entries_view(t@)),
{
    let name = get_req_str(t, "name")?;
    let version = get_req_str(t, "version")?;
    let publisher = get_req_str(t, "publisher")?;
    let id = get_req_str(t, "id")?;
    let icon = get_str(t, "icon")?;
    let default_install_dir = get_str_or(t, "default_install_dir", default_install_dir())?;
    let url = get_str(t, "url")?;
    let description = get_str(t, "description")?;
    Ok(AppMeta { name, version, publisher, id, icon, default_install_dir, url, description })
}

fn decode_theme_exec(t: &Vec<(String, TomlValue)>) -> (r: Result<Theme, SchemaError>)
    ensures
        res_view(r) == decode_theme(entries_view(t@)),
{
    let name = get_req_str(t, "name")?;
    let path = get_req_str(t, "path")?;
    let accent_color = get_str_or(t, "accent_color", default_accent())?;
    let background_color = get_str(t, "background_color")?;
    let custom_vars = get_str_map_or_empty(t, "custom_vars")?;
    Ok(Theme { name, path, accent_color, background_color, custom_vars })
}

fn decode_file_exec(t: &Vec<(String, TomlValue)>) -> (r: Result<FileEntry, SchemaError>)
    ensures
        res_view(r) == decode_file(entries_view(t@)),
{
    let source = get_req_str(t, "source")?;
    let destination = get_req_str(t, "destination")?;
    let recursive = get_bool_or(t, "recursive", default_true())?;
    let filter = get_str(t, "filter")?;
    let overwrite = get_bool_or(t, "overwrite", default_true())?;
    Ok(FileEntry { source, destination, recursive, filter, overwrite })
}

fn decode_uninstall_exec(t: &Vec<(String, TomlValue)>) -> (r: Result<UninstallConfig, SchemaError>)
    ensures
        res_view(r) == decode_uninstall(entries_view(t@)),
{
    let enabled = get_bool_or(t, "enabled", default_true())?;
    let exe_name = get_str_or(t, "exe_name", default_uninstaller_name())?;
    let extra_remove_paths = get_str_list_or_empty(t, "extra_remove_paths")?;
    let remove_install_dir = get_bool_or(t, "remove_install_dir", default_true())?;
    Ok(UninstallConfig { enabled, exe_name, extra_remove_paths, remove_install_dir })
}

fn decode_step_exec(t: &Vec<(String, TomlValue)>) -> (r: Result<InstallStep, SchemaError>)
    ensures
        res_view(r) == decode_step(entries_view(t@)),
{
    let kind = get_req_str(t, "kind")?;
    if str_equal(kind.as_str(), "extract") {
        let label = get_req_str(t, "label")?;
        Ok(InstallStep::Extract { label })
    } else if str_equal(kind.as_str(), "shortcut") {
        let label = get_req_str(t, "label")?;
        let target = get_req_str(t, "target")?;
        let locations = get_req_locations(t, "locations")?;
        let name = get_str(t, "name")?;
        Ok(InstallStep::Shortcut { label, target, locations, name })
    } else if str_equal(kind.as_str(), "registry") {
        let label = get_req_str(t, "label")?;
        let hive = get_req_str(t, "hive")?;
        let key = get_req_str(t, "key")?;
        let value_name = get_req_str(t, "value_name")?;
        let value_data = get_req_str(t, "value_data")?;
        let value_type = get_str_or(t, "value_type", default_reg_type())?;
        Ok(InstallStep::Registry { label, hive, key, value_name, value_data, value_type })
    } else if str_equal(kind.as_str(), "command") {
        let label = get_req_str(t, "label")?;
        let command = get_req_str(t, "command")?;
        let args = get_str_list_or_empty(t, "args")?;
        let wait = get_bool_or(t, "wait", default_true())?;
        let fail_on_error = get_bool_or(t, "fail_on_error", default_true())?;
        Ok(InstallStep::Command { label, command, args, wait, fail_on_error })
    } else if str_equal(kind.as_str(), "env_var") {
        let label = get_req_str(t, "label")?;
        let name = get_req_str(t, "name")?;
        let value = get_req_str(t, "value")?;
        let scope = get_str_or(t, "scope", default_env_scope())?;
        Ok(InstallStep::EnvVar { label, name, value, scope })
    } else if str_equal(kind.as_str(), "register_uninstaller") {
        let label = get_req_str(t, "label")?;
        Ok(InstallStep::RegisterUninstaller { label })
    } else {
        Err(SchemaError::UnknownVariant("kind"))
    }
}

fn decode_prerequisite_exec(t: &Vec<(String, TomlValue)>) -> (r: Result<Prerequisite, SchemaError>)
    ensures
        res_view(r) == decode_prerequisite(entries_view(t@)),
{
    let kind = get_req_str(t, "kind")?;
    if str_equal(kind.as_str(), "dot_net") {
        let minimum_version = get_req_str(t, "minimum_version")?;
        let download_url = get_str(t, "download_url")?;
        Ok(Prerequisite::DotNet { minimum_version, download_url })
    } else if str_equal(kind.as_str(), "vc_redist") {
        let year = get_req_str(t, "year")?;
        let arch = get_req_str(t, "arch")?;
        let download_url = get_str(t, "download_url")?;
        Ok(Prerequisite::VcRedist { year, arch, download_url })
    } else if str_equal(kind.as_str(), "os_version") {
        let minimum = get_req_str(t, "minimum")?;
        Ok(Prerequisite::OsVersion { minimum })
    } else if str_equal(kind.as_str(), "disk_space") {
        let required_mb = get_req_u64(t, "required_mb")?;
        Ok(Prerequisite::DiskSpace { required_mb })
    } else if str_equal(kind.as_str(), "custom") {
        let label = get_req_str(t, "label")?;
        let check_command = get_req_str(t, "check_command")?;
        let args = get_req_str_list(t, "args")?;
        let expected_exit_code = get_i32_or(t, "expected_exit_code", 0)?;
        let error_message = get_req_str(t, "error_message")?;
        let download_url = get_str(t, "download_url")?;
        Ok(Prerequisite::Custom { label, check_command, args, expected_exit_code, error_message, download_url })
    } else {
        Err(SchemaError::UnknownVariant("kind"))
    }
}


fn decode_file_list(items: &Vec<TomlValue>) -> (r: Result<Vec<FileEntry>, SchemaError>)
    ensures
        match r {
            Ok(v) => decode_list(list_view(items@), file_item()) == Ok::<Seq<FileEntryView>, SchemaError>(v@.map_values(|x: FileEntry| x@)),
            Err(e) => decode_list(list_view(items@), file_item()) == Err::<Seq<FileEntryView>, SchemaError>(e),
        },
{
    proof {
        lemma_list_view(items@);
    }
    let ghost items_v = list_view(items@);
    let mut out: Vec<FileEntry> = Vec::new();
    let n = items.len();
    let mut i: usize = 0;
    assert(items_v.skip(0) =~= items_v);
    assert(out@.map_values(|x: FileEntry| x@) + Seq::<FileEntryView>::empty() =~= Seq::<FileEntryView>::empty());
    while i < n
        invariant
            n == items@.len(),
            i <= n,
            items_v == list_view(items@),
            items_v.len() == items@.len(),
            forall|j: int| 0 <= j < items@.len() ==> #[trigger] items_v[j] == tree_view(items@[j]),
            decode_list(items_v, file_item()) == prepend(out@.map_values(|x: FileEntry| x@), decode_list(items_v.skip(i as int), file_item())),
        decreases n - i,
    {
        let ghost rest = items_v.skip(i as int);
        assert(rest[0] == items_v[i as int]);
        assert(rest.drop_first() =~= items_v.skip(i + 1));
        let x = match &items[i] {
            TomlValue::Table(e) => {
                proof {
                    lemma_entries_view(e@);
                }
                decode_file_exec(e)?
            },
            _ => {
                return Err(SchemaError::WrongType("files"));
            },
        };
        let ghost before = out@;
        out.push(x);
        proof {
            assert(out@.map_values(|y: FileEntry| y@) =~= before.map_values(|y: FileEntry| y@).push(x@));
            match decode_list(items_v.skip(i + 1), file_item()) {
                Ok(r2) => {
                    assert(before.map_values(|y: FileEntry| y@) + (seq![x@] + r2) =~= out@.map_values(|y: FileEntry| y@) + r2);
                },
                Err(_) => {},
            }
        }
        i = i + 1;
    }
    assert(items_v.skip(n as int) =~= Seq::<TomlView>::empty());
    assert(out@.map_values(|x: FileEntry| x@) + Seq::<FileEntryView>::empty() =~= out@.map_values(|x: FileEntry| x@));
    Ok(out)
}

fn decode_step_list(items: &Vec<TomlValue>) -> (r: Result<Vec<InstallStep>, SchemaError>)
    ensures
        match r {
            Ok(v) => decode_list(list_view(items@), step_item()) == Ok::<Seq<InstallStepView>, SchemaError>(v@.map_values(|x: InstallStep| x@)),
            Err(e) => decode_list(list_view(items@), step_item()) == Err::<Seq<InstallStepView>, SchemaError>(e),
        },
{
    proof {
        lemma_list_view(items@);
    }
    let ghost items_v = list_view(items@);
    let mut out: Vec<InstallStep> = Vec::new();
    let n = items.len();
    let mut i: usize = 0;
    assert(items_v.skip(0) =~= items_v);
    assert(out@.map_values(|x: InstallStep| x@) + Seq::<InstallStepView>::empty() =~= Seq::<InstallStepView>::empty());
    while i < n
        invariant
            n == items@.len(),
            i <= n,
            items_v == list_view(items@),
            items_v.len() == items@.len(),
            forall|j: int| 0 <= j < items@.len() ==> #[trigger] items_v[j] == tree_view(items@[j]),
            decode_list(items_v, step_item()) == prepend(out@.map_values(|x: InstallStep| x@), decode_list(items_v.skip(i as int), step_item())),
        decreases n - i,
    {
        let ghost rest = items_v.skip(i as int);
        assert(rest[0] == items_v[i as int]);
        assert(rest.drop_first() =~= items_v.skip(i + 1));
        let x = match &items[i] {
            TomlValue::Table(e) => {
                proof {
                    lemma_entries_view(e@);
                }
                decode_step_exec(e)?
            },
            _ => {
                return Err(SchemaError::WrongType("steps"));
            },
        };
        let ghost before = out@;
        out.push(x);
        proof {
            assert(out@.map_values(|y: InstallStep| y@) =~= before.map_values(|y: InstallStep| y@).push(x@));
            match decode_list(items_v.skip(i + 1), step_item()) {
                Ok(r2) => {
                    assert(before.map_values(|y: InstallStep| y@) + (seq![x@] + r2) =~= out@.map_values(|y: InstallStep| y@) + r2);
                },
                Err(_) => {},
            }
        }
        i = i + 1;
    }
    assert(items_v.skip(n as int) =~= Seq::<TomlView>::empty());
    assert(out@.map_values(|x: InstallStep| x@) + Seq::<InstallStepView>::empty() =~= out@.map_values(|x: InstallStep| x@));
    Ok(out)
}

fn decode_prerequisite_list(items: &Vec<TomlValue>) -> (r: Result<Vec<Prerequisite>, SchemaError>)
    ensures
        match r {
            Ok(v) => decode_list(list_view(items@), prerequisite_item()) == Ok::<Seq<PrerequisiteView>, SchemaError>(v@.map_values(|x: Prerequisite| x@)),
            Err(e) => decode_list(list_view(items@), prerequisite_item()) == Err::<Seq<PrerequisiteView>, SchemaError>(e),
        },
{
    proof {
        lemma_list_view(items@);
    }
    let ghost items_v = list_view(items@);
    let mut out: Vec<Prerequisite> = Vec::new();
    let n = items.len();
    let mut i: usize = 0;
    assert(items_v.skip(0) =~= items_v);
    assert(out@.map_values(|x: Prerequisite| x@) + Seq::<PrerequisiteView>::empty() =~= Seq::<PrerequisiteView>::empty());
    while i < n
        invariant
            n == items@.len(),
            i <= n,
            items_v == list_view(items@),
            items_v.len() == items@.len(),
            forall|j: int| 0 <= j < items@.len() ==> #[trigger] items_v[j] == tree_view(items@[j]),
            decode_list(items_v, prerequisite_item()) == prepend(out@.map_values(|x: Prerequisite| x@), decode_list(items_v.skip(i as int), prerequisite_item())),
        decreases n - i,
    {
        let ghost rest = items_v.skip(i as int);
        assert(rest[0] == items_v[i as int]);
        assert(rest.drop_first() =~= items_v.skip(i + 1));
        let x = match &items[i] {
            TomlValue::Table(e) => {
                proof {
                    lemma_entries_view(e@);
                }
                decode_prerequisite_exec(e)?
            },
            _ => {
                return Err(SchemaError::WrongType("prerequisites"));
            },
        };
        let ghost before = out@;
        out.push(x);
        proof {
            assert(out@.map_values(|y: Prerequisite| y@) =~= before.map_values(|y: Prerequisite| y@).push(x@));
            match decode_list(items_v.skip(i + 1), prerequisite_item()) {
                Ok(r2) => {
                    assert(before.map_values(|y: Prerequisite| y@) + (seq![x@] + r2) =~= out@.map_values(|y: Prerequisite| y@) + r2);
                },
                Err(_) => {},
            }
        }
        i = i + 1;
    }
    assert(items_v.skip(n as int) =~= Seq::<TomlView>::empty());
    assert(out@.map_values(|x: Prerequisite| x@) + Seq::<PrerequisiteView>::empty() =~= out@.map_values(|x: Prerequisite| x@));
    Ok(out)
}

/// Decodes a project document.
pub fn decode_project_exec(doc: &TomlValue) -> (r: Result<LynxProject, SchemaError>)
    ensures
        res_view(r) == decode_document(doc@),
{
    let t = match doc {
        TomlValue::Table(t) => t,
        _ => {
            return Err(SchemaError::WrongType("document"));
        },
    };
    let app = match get_table(t, "app")? {
        None => {
            return Err(SchemaError::Missing("app"));
        },
        Some(e) => decode_app_exec(e)?,
    };
    let theme = match get_table(t, "theme")? {
        None => default_theme(),
        Some(e) => decode_theme_exec(e)?,
    };
    let files = match get_array(t, "files")? {
        None => {
            let v: Vec<FileEntry> = Vec::new();
            assert(v@.map_values(|x: FileEntry| x@) =~= Seq::<FileEntryView>::empty());
            v
        },
        Some(a) => decode_file_list(a)?,
    };
    let steps = match get_array(t, "steps")? {
        None => {
            let v: Vec<InstallStep> = Vec::new();
            assert(v@.map_values(|x: InstallStep| x@) =~= Seq::<InstallStepView>::empty());
            v
        },
        Some(a) => decode_step_list(a)?,
    };
    let prerequisites = match get_array(t, "prerequisites")? {
        None => {
            let v: Vec<Prerequisite> = Vec::new();
            assert(v@.map_values(|x: Prerequisite| x@) =~= Seq::<PrerequisiteView>::empty());
            v
        },
        Some(a) => decode_prerequisite_list(a)?,
    };
    let uninstall = match get_table(t, "uninstall")? {
        None => None,
        Some(e) => Some(decode_uninstall_exec(e)?),
    };
    let p = LynxProject { app, theme, files, steps, prerequisites, uninstall };
    let ghost tv = entries_view(t@);
    assert(req_table(tv, "app", |e: Entries| decode_app(e)) == Ok::<AppMetaView, SchemaError>(p.app@));
    assert(table_or(tv, "theme", |e: Entries| decode_theme(e), default_theme_view()) == Ok::<ThemeView, SchemaError>(
        p.theme@,
    ));
    assert(list_or_empty(tv, "files", file_item()) == Ok::<Seq<FileEntryView>, SchemaError>(p@.files));
    assert(list_or_empty(tv, "steps", step_item()) == Ok::<Seq<InstallStepView>, SchemaError>(p@.steps));
    assert(list_or_empty(tv, "prerequisites", prerequisite_item()) == Ok::<Seq<PrerequisiteView>, SchemaError>(p@.prerequisites));
    assert(opt_table(tv, "uninstall", |e: Entries| decode_uninstall(e)) == Ok::<Option<UninstallConfigView>, SchemaError>(p@.uninstall));
    assert(p.files@.map_values(|x: FileEntry| x@) =~= p@.files);
    assert(p.steps@.map_values(|x: InstallStep| x@) =~= p@.steps);
    assert(p.prerequisites@.map_values(|x: Prerequisite| x@) =~= p@.prerequisites);
    Ok(p)
}

// ─────────────────────────────────────────────
//  Encoding
// ─────────────────────────────────────────────

/// A table of one entry.
pub open spec fn entry(k: &str, v: TomlView) -> Entries {
    seq![(k@, v)]
}

/// The entry for an optional string: none where it is absent.
pub open spec fn opt_entry(k: &str, o: Option<Seq<char>>) -> Entries {
    match o {
        Some(x) => entry(k, TomlView::Str(x)),
        None => Seq::empty(),
    }
}

/// A list of strings.
pub open spec fn encode_strs(xs: Seq<Seq<char>>) -> TomlView {
    TomlView::Array(xs.map_values(|x: Seq<char>| TomlView::Str(x)))
}

/// The name of a shortcut location.
pub open spec fn location_name(l: ShortcutLocation) -> Seq<char> {
    match l {
        ShortcutLocation::Desktop => "desktop"@,
        ShortcutLocation::StartMenu => "start_menu"@,
        ShortcutLocation::Taskbar => "taskbar"@,
    }
}

pub open spec fn encode_app(a: AppMetaView) -> TomlView {
    TomlView::Table(
        entry("name", TomlView::Str(a.name)) + entry("version", TomlView::Str(a.version)) + entry(
            "publisher",
            TomlView::Str(a.publisher),
        ) + entry("id", TomlView::Str(a.id)) + opt_entry("icon", a.icon) + entry(
            "default_install_dir",
            TomlView::Str(a.default_install_dir),
        ) + opt_entry("url", a.url) + opt_entry("description", a.description),
    )
}

pub open spec fn encode_theme(t: ThemeView) -> TomlView {
    TomlView::Table(
        entry("name", TomlView::Str(t.name)) + entry("path", TomlView::Str(t.path)) + entry(
            "accent_color",
            TomlView::Str(t.accent_color),
        ) + opt_entry("background_color", t.background_color) + entry(
            "custom_vars",
            TomlView::Table(
                t.custom_vars.map_values(|p: (Seq<char>, Seq<char>)| (p.0, TomlView::Str(p.1))),
            ),
        ),
    )
}

pub open spec fn encode_file(f: FileEntryView) -> TomlView {
    TomlView::Table(
        entry("source", TomlView::Str(f.source)) + entry("destination", TomlView::Str(f.destination))
            + entry("recursive", TomlView::Bool(f.recursive)) + opt_entry("filter", f.filter) + entry(
            "overwrite",
            TomlView::Bool(f.overwrite),
        ),
    )
}

pub open spec fn encode_uninstall(u: UninstallConfigView) -> TomlView {
    TomlView::Table(
        entry("enabled", TomlView::Bool(u.enabled)) + entry("exe_name", TomlView::Str(u.exe_name)) + entry(
            "extra_remove_paths",
            encode_strs(u.extra_remove_paths),
        ) + entry("remove_install_dir", TomlView::Bool(u.remove_install_dir)),
    )
}

pub open spec fn kind_entry(kind: Seq<char>) -> Entries {
    seq![("kind"@, TomlView::Str(kind))]
}

pub open spec fn encode_step(s: InstallStepView) -> TomlView {
    match s {
        InstallStepView::Extract { label } => TomlView::Table(
            kind_entry("extract"@) + entry("label", TomlView::Str(label)),
        ),
        InstallStepView::Shortcut { label, target, locations, name } => TomlView::Table(
            kind_entry("shortcut"@) + entry("label", TomlView::Str(label)) + entry(
                "target",
                TomlView::Str(target),
            ) + entry(
                "locations",
                TomlView::Array(locations.map_values(|l: ShortcutLocation| TomlView::Str(location_name(l)))),
            ) + opt_entry("name", name),
        ),
        InstallStepView::Registry { label, hive, key, value_name, value_data, value_type } =>
            TomlView::Table(
            kind_entry("registry"@) + entry("label", TomlView::Str(label)) + entry("hive", TomlView::Str(hive))
                + entry("key", TomlView::Str(key)) + entry("value_name", TomlView::Str(value_name))
                + entry("value_data", TomlView::Str(value_data)) + entry(
                "value_type",
                TomlView::Str(value_type),
            ),
        ),
        InstallStepView::Command { label, command, args, wait, fail_on_error } => TomlView::Table(
            kind_entry("command"@) + entry("label", TomlView::Str(label)) + entry(
                "command",
                TomlView::Str(command),
            ) + entry("args", encode_strs(args)) + entry("wait", TomlView::Bool(wait)) + entry(
                "fail_on_error",
                TomlView::Bool(fail_on_error),
            ),
        ),
        InstallStepView::EnvVar { label, name, value, scope } => TomlView::Table(
            kind_entry("env_var"@) + entry("label", TomlView::Str(label)) + entry("name", TomlView::Str(name))
                + entry("value", TomlView::Str(value)) + entry("scope", TomlView::Str(scope)),
        ),
        InstallStepView::RegisterUninstaller { label } => TomlView::Table(
            kind_entry("register_uninstaller"@) + entry("label", TomlView::Str(label)),
        ),
    }
}

pub open spec fn encode_prerequisite(p: PrerequisiteView) -> TomlView {
    match p {
        PrerequisiteView::DotNet { minimum_version, download_url } => TomlView::Table(
            kind_entry("dot_net"@) + entry("minimum_version", TomlView::Str(minimum_version)) + opt_entry(
                "download_url",
                download_url,
            ),
        ),
        PrerequisiteView::VcRedist { year, arch, download_url } => TomlView::Table(
            kind_entry("vc_redist"@) + entry("year", TomlView::Str(year)) + entry("arch", TomlView::Str(arch))
                + opt_entry("download_url", download_url),
        ),
        PrerequisiteView::OsVersion { minimum } => TomlView::Table(
            kind_entry("os_version"@) + entry("minimum", TomlView::Str(minimum)),
        ),
        PrerequisiteView::DiskSpace { required_mb } => TomlView::Table(
            kind_entry("disk_space"@) + entry("required_mb", TomlView::Int(required_mb)),
        ),
        PrerequisiteView::Custom {
            label,
            check_command,
            args,
            expected_exit_code,
            error_message,
            download_url,
        } => TomlView::Table(
            kind_entry("custom"@) + entry("label", TomlView::Str(label)) + entry(
                "check_command",
                TomlView::Str(check_command),
            ) + entry("args", encode_strs(args)) + entry(
                "expected_exit_code",
                TomlView::Int(expected_exit_code),
            ) + entry("error_message", TomlView::Str(error_message)) + opt_entry(
                "download_url",
                download_url,
            ),
        ),
    }
}

/// A project as a TOML document: its tables in schema order, an absent
/// uninstall section omitted.
pub open spec fn encode_project(p: LynxProjectView) -> TomlView {
    TomlView::Table(
        entry("app", encode_app(p.app)) + entry("theme", encode_theme(p.theme)) + entry(
            "files",
            TomlView::Array(p.files.map_values(|f: FileEntryView| encode_file(f))),
        ) + entry("steps", TomlView::Array(p.steps.map_values(|s: InstallStepView| encode_step(s))))
            + entry(
            "prerequisites",
            TomlView::Array(p.prerequisites.map_values(|x: PrerequisiteView| encode_prerequisite(x))),
        ) + match p.uninstall {
            Some(u) => entry("uninstall", encode_uninstall(u)),
            None => Seq::empty(),
        },
    )
}

/// A project can be written as TOML: TOML integers are signed 64-bit, so
/// each disk-space requirement must fit one.
pub open spec fn encodable(p: LynxProjectView) -> bool {
    forall|i: int|
        0 <= i < p.prerequisites.len() ==> (#[trigger] p.prerequisites[i] matches PrerequisiteView::DiskSpace { required_mb }
            ==> required_mb <= i64::MAX)
}

fn push_entry(v: &mut Vec<(String, TomlValue)>, k: &str, x: TomlValue)
    ensures
        entries_view(final(v)@) == entries_view(old(v)@) + entry(k, x@),
{
    let key = String::from_str(k);
    let ghost xv = x@;
    proof {
        lemma_entries_view_push(v@, (key, x));
    }
    v.push((key, x));
    assert(entries_view(old(v)@).push((k@, xv)) =~= entries_view(old(v)@) + entry(k, xv));
}

fn push_str(v: &mut Vec<(String, TomlValue)>, k: &str, s: &String)
    ensures
        entries_view(final(v)@) == entries_view(old(v)@) + entry(k, TomlView::Str(s@)),
{
    push_entry(v, k, TomlValue::Str(s.clone()));
}

fn push_opt_str(v: &mut Vec<(String, TomlValue)>, k: &str, o: &Option<String>)
    ensures
        entries_view(final(v)@) == entries_view(old(v)@) + opt_entry(k, ostr(*o)),
{
    match o {
        Some(s) => push_str(v, k, s),
        None => {
            assert(entries_view(v@) + opt_entry(k, ostr(*o)) =~= entries_view(v@));
        },
    }
}

fn push_bool(v: &mut Vec<(String, TomlValue)>, k: &str, b: bool)
    ensures
        entries_view(final(v)@) == entries_view(old(v)@) + entry(k, TomlView::Bool(b)),
{
    push_entry(v, k, TomlValue::Bool(b));
}

fn new_table() -> (v: Vec<(String, TomlValue)>)
    ensures
        entries_view(v@) == Seq::<(Seq<char>, TomlView)>::empty(),
{
    let v: Vec<(String, TomlValue)> = Vec::new();
    assert(entries_view(v@) =~= Seq::<(Seq<char>, TomlView)>::empty());
    v
}

fn encode_strs_exec(xs: &Vec<String>) -> (r: TomlValue)
    ensures
        r@ == encode_strs(strs(xs@)),
{
    let mut out: Vec<TomlValue> = Vec::new();
    let n = xs.len();
    let mut i: usize = 0;
    assert(list_view(out@) =~= Seq::<TomlView>::empty());
    while i < n
        invariant
            n == xs@.len(),
            i <= n,
            list_view(out@) == strs(xs@).take(i as int).map_values(|x: Seq<char>| TomlView::Str(x)),
        decreases n - i,
    {
        let ghost before = out@;
        let x = TomlValue::Str(xs[i].clone());
        proof {
            lemma_list_view_push(before, x);
        }
        out.push(x);
        i = i + 1;
        assert(list_view(out@) =~= strs(xs@).take(i as int).map_values(|x: Seq<char>| TomlView::Str(x)));
    }
    assert(strs(xs@).take(n as int) =~= strs(xs@));
    TomlValue::Array(out)
}

fn location_value(l: ShortcutLocation) -> (r: TomlValue)
    ensures
        r@ == TomlView::Str(location_name(l)),
{
    match l {
        ShortcutLocation::Desktop => TomlValue::Str(String::from_str("desktop")),
        ShortcutLocation::StartMenu => TomlValue::Str(String::from_str("start_menu")),
        ShortcutLocation::Taskbar => TomlValue::Str(String::from_str("taskbar")),
    }
}

fn encode_locations_exec(xs: &Vec<ShortcutLocation>) -> (r: TomlValue)
    ensures
        r@ == TomlView::Array(xs@.map_values(|l: ShortcutLocation| TomlView::Str(location_name(l)))),
{
    let mut out: Vec<TomlValue> = Vec::new();
    let n = xs.len();
    let mut i: usize = 0;
    assert(list_view(out@) =~= Seq::<TomlView>::empty());
    while i < n
        invariant
            n == xs@.len(),
            i <= n,
            list_view(out@) == xs@.take(i as int).map_values(|l: ShortcutLocation| TomlView::Str(location_name(l))),
        decreases n - i,
    {
        let ghost before = out@;
        let x = location_value(xs[i]);
        proof {
            lemma_list_view_push(before, x);
        }
        out.push(x);
        i = i + 1;
        assert(list_view(out@) =~= xs@.take(i as int).map_values(|l: ShortcutLocation| TomlView::Str(location_name(l))));
    }
    assert(xs@.take(n as int) =~= xs@);
    TomlValue::Array(out)
}

fn encode_app_exec(a: &AppMeta) -> (r: TomlValue)
    ensures
        r@ == encode_app(a@),
{
    let mut v = new_table();
    push_str(&mut v, "name", &a.name);
    push_str(&mut v, "version", &a.version);
    push_str(&mut v, "publisher", &a.publisher);
    push_str(&mut v, "id", &a.id);
    push_opt_str(&mut v, "icon", &a.icon);
    push_str(&mut v, "default_install_dir", &a.default_install_dir);
    push_opt_str(&mut v, "url", &a.url);
    push_opt_str(&mut v, "description", &a.description);
    let ghost ev = entries_view(v@);
    assert(ev =~= match encode_app(a@) {
        TomlView::Table(e) => e,
        _ => ev,
    });
    TomlValue::Table(v)
}

fn encode_theme_exec(t: &Theme) -> (r: TomlValue)
    ensures
        r@ == encode_theme(t@),
{
    let mut vars = new_table();
    let n = t.custom_vars.len();
    let mut i: usize = 0;
    while i < n
        invariant
            n == t.custom_vars@.len(),
            i <= n,
            entries_view(vars@) == str_pairs(t.custom_vars@).take(i as int).map_values(
                |p: (Seq<char>, Seq<char>)| (p.0, TomlView::Str(p.1)),
            ),
        decreases n - i,
    {
        let ghost before = vars@;
        let x = (t.custom_vars[i].0.clone(), TomlValue::Str(t.custom_vars[i].1.clone()));
        proof {
            lemma_entries_view_push(before, x);
        }
        vars.push(x);
        i = i + 1;
        assert(entries_view(vars@) =~= str_pairs(t.custom_vars@).take(i as int).map_values(
            |p: (Seq<char>, Seq<char>)| (p.0, TomlView::Str(p.1)),
        ));
    }
    assert(str_pairs(t.custom_vars@).take(n as int) =~= str_pairs(t.custom_vars@));
    let mut v = new_table();
    push_str(&mut v, "name", &t.name);
    push_str(&mut v, "path", &t.path);
    push_str(&mut v, "accent_color", &t.accent_color);
    push_opt_str(&mut v, "background_color", &t.background_color);
    push_entry(&mut v, "custom_vars", TomlValue::Table(vars));
    let ghost ev = entries_view(v@);
    assert(ev =~= match encode_theme(t@) {
        TomlView::Table(e) => e,
        _ => ev,
    });
    TomlValue::Table(v)
}

fn encode_file_exec(f: &FileEntry) -> (r: TomlValue)
    ensures
        r@ == encode_file(f@),
{
    let mut v = new_table();
    push_str(&mut v, "source", &f.source);
    push_str(&mut v, "destination", &f.destination);
    push_bool(&mut v, "recursive", f.recursive);
    push_opt_str(&mut v, "filter", &f.filter);
    push_bool(&mut v, "overwrite", f.overwrite);
    let ghost ev = entries_view(v@);
    assert(ev =~= match encode_file(f@) {
        TomlView::Table(e) => e,
        _ => ev,
    });
    TomlValue::Table(v)
}

fn encode_uninstall_exec(u: &UninstallConfig) -> (r: TomlValue)
    ensures
        r@ == encode_uninstall(u@),
{
    let mut v = new_table();
    push_bool(&mut v, "enabled", u.enabled);
    push_str(&mut v, "exe_name", &u.exe_name);
    push_entry(&mut v, "extra_remove_paths", encode_strs_exec(&u.extra_remove_paths));
    push_bool(&mut v, "remove_install_dir", u.remove_install_dir);
    let ghost ev = entries_view(v@);
    assert(ev =~= match encode_uninstall(u@) {
        TomlView::Table(e) => e,
        _ => ev,
    });
    TomlValue::Table(v)
}

fn kind_table(kind: &str) -> (v: Vec<(String, TomlValue)>)
    ensures
        entries_view(v@) == kind_entry(kind@),
{
    let mut v = new_table();
    push_entry(&mut v, "kind", TomlValue::Str(String::from_str(kind)));
    assert(entries_view(v@) =~= kind_entry(kind@));
    v
}

fn encode_step_exec(s: &InstallStep) -> (r: TomlValue)
    ensures
        r@ == encode_step(s@),
{
    let v = match s {
        InstallStep::Extract { label } => {
            let mut v = kind_table("extract");
            push_str(&mut v, "label", label);
            v
        },
        InstallStep::Shortcut { label, target, locations, name } => {
            let mut v = kind_table("shortcut");
            push_str(&mut v, "label", label);
            push_str(&mut v, "target", target);
            push_entry(&mut v, "locations", encode_locations_exec(locations));
            push_opt_str(&mut v, "name", name);
            v
        },
        InstallStep::Registry { label, hive, key, value_name, value_data, value_type } => {
            let mut v = kind_table("registry");
            push_str(&mut v, "label", label);
            push_str(&mut v, "hive", hive);
            push_str(&mut v, "key", key);
            push_str(&mut v, "value_name", value_name);
            push_str(&mut v, "value_data", value_data);
            push_str(&mut v, "value_type", value_type);
            v
        },
        InstallStep::Command { label, command, args, wait, fail_on_error } => {
            let mut v = kind_table("command");
            push_str(&mut v, "label", label);
            push_str(&mut v, "command", command);
            push_entry(&mut v, "args", encode_strs_exec(args));
            push_bool(&mut v, "wait", *wait);
            push_bool(&mut v, "fail_on_error", *fail_on_error);
            v
        },
        InstallStep::EnvVar { label, name, value, scope } => {
            let mut v = kind_table("env_var");
            push_str(&mut v, "label", label);
            push_str(&mut v, "name", name);
            push_str(&mut v, "value", value);
            push_str(&mut v, "scope", scope);
            v
        },
        InstallStep::RegisterUninstaller { label } => {
            let mut v = kind_table("register_uninstaller");
            push_str(&mut v, "label", label);
            v
        },
    };
    let ghost ev = entries_view(v@);
    assert(ev =~= match encode_step(s@) {
        TomlView::Table(e) => e,
        _ => ev,
    });
    TomlValue::Table(v)
}

fn encode_prerequisite_exec(p: &Prerequisite) -> (r: Option<TomlValue>)
    ensures
        match r {
            Some(t) => t@ == encode_prerequisite(p@) && (p@ matches PrerequisiteView::DiskSpace { required_mb } ==> required_mb <= i64::MAX),
            None => p@ matches PrerequisiteView::DiskSpace { required_mb } && required_mb > i64::MAX,
        },
{
    let v = match p {
        Prerequisite::DotNet { minimum_version, download_url } => {
            let mut v = kind_table("dot_net");
            push_str(&mut v, "minimum_version", minimum_version);
            push_opt_str(&mut v, "download_url", download_url);
            v
        },
        Prerequisite::VcRedist { year, arch, download_url } => {
            let mut v = kind_table("vc_redist");
            push_str(&mut v, "year", year);
            push_str(&mut v, "arch", arch);
            push_opt_str(&mut v, "download_url", download_url);
            v
        },
        Prerequisite::OsVersion { minimum } => {
            let mut v = kind_table("os_version");
            push_str(&mut v, "minimum", minimum);
            v
        },
        Prerequisite::DiskSpace { required_mb } => {
            if *required_mb > 9223372036854775807 {
                return None;
            }
            let mut v = kind_table("disk_space");
            push_entry(&mut v, "required_mb", TomlValue::Int(*required_mb as i64));
            v
        },
        Prerequisite::Custom { label, check_command, args, expected_exit_code, error_message, download_url } => {
            let mut v = kind_table("custom");
            push_str(&mut v, "label", label);
            push_str(&mut v, "check_command", check_command);
            push_entry(&mut v, "args", encode_strs_exec(args));
            push_entry(&mut v, "expected_exit_code", TomlValue::Int(*expected_exit_code as i64));
            push_str(&mut v, "error_message", error_message);
            push_opt_str(&mut v, "download_url", download_url);
            v
        },
    };
    let ghost ev = entries_view(v@);
    assert(ev =~= match encode_prerequisite(p@) {
        TomlView::Table(e) => e,
        _ => ev,
    });
    Some(TomlValue::Table(v))
}

/// Encodes a project as a TOML document; `None` where a disk-space
/// requirement does not fit a TOML integer.
pub fn encode_project_exec(p: &LynxProject) -> (r: Option<TomlValue>)
    ensures
        r is Some <==> encodable(p@),
        r matches Some(t) ==> t@ == encode_project(p@),
{
    let mut files: Vec<TomlValue> = Vec::new();
    let n = p.files.len();
    let mut i: usize = 0;
    assert(list_view(files@) =~= Seq::<TomlView>::empty());
    while i < n
        invariant
            n == p.files@.len(),
            i <= n,
            list_view(files@) == p@.files.take(i as int).map_values(|f: FileEntryView| encode_file(f)),
        decreases n - i,
    {
        let ghost before = files@;
        let x = encode_file_exec(&p.files[i]);
        proof {
            lemma_list_view_push(before, x);
        }
        files.push(x);
        i = i + 1;
        assert(list_view(files@) =~= p@.files.take(i as int).map_values(|f: FileEntryView| encode_file(f)));
    }
    assert(p@.files.take(n as int) =~= p@.files);
    let mut steps: Vec<TomlValue> = Vec::new();
    let n = p.steps.len();
    let mut i: usize = 0;
    assert(list_view(steps@) =~= Seq::<TomlView>::empty());
    while i < n
        invariant
            n == p.steps@.len(),
            i <= n,
            list_view(steps@) == p@.steps.take(i as int).map_values(|s: InstallStepView| encode_step(s)),
        decreases n - i,
    {
        let ghost before = steps@;
        let x = encode_step_exec(&p.steps[i]);
        proof {
            lemma_list_view_push(before, x);
        }
        steps.push(x);
        i = i + 1;
        assert(list_view(steps@) =~= p@.steps.take(i as int).map_values(|s: InstallStepView| encode_step(s)));
    }
    assert(p@.steps.take(n as int) =~= p@.steps);
    let mut prereqs: Vec<TomlValue> = Vec::new();
    let n = p.prerequisites.len();
    let mut i: usize = 0;
    assert(list_view(prereqs@) =~= Seq::<TomlView>::empty());
    while i < n
        invariant
            n == p.prerequisites@.len(),
            i <= n,
            list_view(prereqs@) == p@.prerequisites.take(i as int).map_values(|x: PrerequisiteView| encode_prerequisite(x)),
            forall|k: int| 0 <= k < i ==> (#[trigger] p@.prerequisites[k] matches PrerequisiteView::DiskSpace { required_mb }
                ==> required_mb <= i64::MAX),
        decreases n - i,
    {
        let ghost before = prereqs@;
        let x = match encode_prerequisite_exec(&p.prerequisites[i]) {
            Some(x) => x,
            None => {
                assert(p@.prerequisites[i as int] == p.prerequisites@[i as int]@);
                return None;
            },
        };
        proof {
            lemma_list_view_push(before, x);
        }
        prereqs.push(x);
        i = i + 1;
        assert(list_view(prereqs@) =~= p@.prerequisites.take(i as int).map_values(|x: PrerequisiteView| encode_prerequisite(x)));
    }
    assert(p@.prerequisites.take(n as int) =~= p@.prerequisites);
    let mut v = new_table();
    push_entry(&mut v, "app", encode_app_exec(&p.app));
    push_entry(&mut v, "theme", encode_theme_exec(&p.theme));
    push_entry(&mut v, "files", TomlValue::Array(files));
    push_entry(&mut v, "steps", TomlValue::Array(steps));
    push_entry(&mut v, "prerequisites", TomlValue::Array(prereqs));
    match &p.uninstall {
        Some(u) => push_entry(&mut v, "uninstall", encode_uninstall_exec(u)),
        None => {},
    }
    let ghost ev = entries_view(v@);
    assert(ev =~= match encode_project(p@) {
        TomlView::Table(e) => e,
        _ => ev,
    });
    Some(TomlValue::Table(v))
}

// ─────────────────────────────────────────────
//  Decoding what was encoded
// ─────────────────────────────────────────────

/// The entries of a table value.
pub open spec fn table_of(v: TomlView) -> Entries {
    match v {
        TomlView::Table(e) => e,
        _ => Seq::empty(),
    }
}

/// The lengths and leading characters of the schema's names, which tell
/// them apart.
proof fn lemma_schema_names()
    ensures
        "name"@.len() == 4 && "name"@[0] == 'n',
        "version"@.len() == 7 && "version"@[0] == 'v',
        "publisher"@.len() == 9 && "publisher"@[0] == 'p',
        "id"@.len() == 2 && "id"@[0] == 'i',
        "icon"@.len() == 4 && "icon"@[0] == 'i',
        "default_install_dir"@.len() == 19 && "default_install_dir"@[0] == 'd',
        "url"@.len() == 3 && "url"@[0] == 'u',
        "description"@.len() == 11 && "description"@[0] == 'd',
        "path"@.len() == 4 && "path"@[0] == 'p',
        "accent_color"@.len() == 12 && "accent_color"@[0] == 'a',
        "background_color"@.len() == 16 && "background_color"@[0] == 'b',
        "custom_vars"@.len() == 11 && "custom_vars"@[0] == 'c',
        "source"@.len() == 6 && "source"@[0] == 's',
        "destination"@.len() == 11 && "destination"@[0] == 'd',
        "recursive"@.len() == 9 && "recursive"@[0] == 'r',
        "filter"@.len() == 6 && "filter"@[0] == 'f',
        "overwrite"@.len() == 9 && "overwrite"@[0] == 'o',
        "enabled"@.len() == 7 && "enabled"@[0] == 'e',
        "exe_name"@.len() == 8 && "exe_name"@[0] == 'e',
        "extra_remove_paths"@.len() == 18 && "extra_remove_paths"@[0] == 'e',
        "remove_install_dir"@.len() == 18 && "remove_install_dir"@[0] == 'r',
        "kind"@.len() == 4 && "kind"@[0] == 'k',
        "label"@.len() == 5 && "label"@[0] == 'l',
        "target"@.len() == 6 && "target"@[0] == 't',
        "locations"@.len() == 9 && "locations"@[0] == 'l',
        "hive"@.len() == 4 && "hive"@[0] == 'h',
        "key"@.len() == 3 && "key"@[0] == 'k',
        "value_name"@.len() == 10 && "value_name"@[0] == 'v' && "value_name"@[6] == 'n',
        "value_data"@.len() == 10 && "value_data"@[0] == 'v' && "value_data"@[6] == 'd',
        "value_type"@.len() == 10 && "value_type"@[0] == 'v' && "value_type"@[6] == 't',
        "command"@.len() == 7 && "command"@[0] == 'c',
        "args"@.len() == 4 && "args"@[0] == 'a',
        "wait"@.len() == 4 && "wait"@[0] == 'w',
        "fail_on_error"@.len() == 13 && "fail_on_error"@[0] == 'f',
        "value"@.len() == 5 && "value"@[0] == 'v',
        "scope"@.len() == 5 && "scope"@[0] == 's',
        "minimum_version"@.len() == 15 && "minimum_version"@[0] == 'm',
        "download_url"@.len() == 12 && "download_url"@[0] == 'd',
        "year"@.len() == 4 && "year"@[0] == 'y',
        "arch"@.len() == 4 && "arch"@[0] == 'a',
        "minimum"@.len() == 7 && "minimum"@[0] == 'm',
        "required_mb"@.len() == 11 && "required_mb"@[0] == 'r',
        "check_command"@.len() == 13 && "check_command"@[0] == 'c',
        "expected_exit_code"@.len() == 18 && "expected_exit_code"@[0] == 'e',
        "error_message"@.len() == 13 && "error_message"@[0] == 'e',
        "app"@.len() == 3 && "app"@[0] == 'a',
        "theme"@.len() == 5 && "theme"@[0] == 't',
        "files"@.len() == 5 && "files"@[0] == 'f',
        "steps"@.len() == 5 && "steps"@[0] == 's',
        "prerequisites"@.len() == 13 && "prerequisites"@[0] == 'p',
        "uninstall"@.len() == 9 && "uninstall"@[0] == 'u',
        "extract"@.len() == 7 && "extract"@[0] == 'e' && "extract"@[1] == 'x',
        "shortcut"@.len() == 8 && "shortcut"@[0] == 's',
        "registry"@.len() == 8 && "registry"@[0] == 'r',
        "env_var"@.len() == 7 && "env_var"@[0] == 'e' && "env_var"@[1] == 'n',
        "register_uninstaller"@.len() == 20 && "register_uninstaller"@[0] == 'r',
        "dot_net"@.len() == 7 && "dot_net"@[0] == 'd',
        "vc_redist"@.len() == 9 && "vc_redist"@[0] == 'v',
        "os_version"@.len() == 10 && "os_version"@[0] == 'o',
        "disk_space"@.len() == 10 && "disk_space"@[0] == 'd',
        "custom"@.len() == 6 && "custom"@[0] == 'c',
        "desktop"@.len() == 7 && "desktop"@[0] == 'd',
        "start_menu"@.len() == 10 && "start_menu"@[0] == 's',
        "taskbar"@.len() == 7 && "taskbar"@[0] == 't',
{
    reveal_strlit("name");
    reveal_strlit("version");
    reveal_strlit("publisher");
    reveal_strlit("id");
    reveal_strlit("icon");
    reveal_strlit("default_install_dir");
    reveal_strlit("url");
    reveal_strlit("description");
    reveal_strlit("path");
    reveal_strlit("accent_color");
    reveal_strlit("background_color");
    reveal_strlit("custom_vars");
    reveal_strlit("source");
    reveal_strlit("destination");
    reveal_strlit("recursive");
    reveal_strlit("filter");
    reveal_strlit("overwrite");
    reveal_strlit("enabled");
    reveal_strlit("exe_name");
    reveal_strlit("extra_remove_paths");
    reveal_strlit("remove_install_dir");
    reveal_strlit("kind");
    reveal_strlit("label");
    reveal_strlit("target");
    reveal_strlit("locations");
    reveal_strlit("hive");
    reveal_strlit("key");
    reveal_strlit("value_name");
    reveal_strlit("value_data");
    reveal_strlit("value_type");
    reveal_strlit("command");
    reveal_strlit("args");
    reveal_strlit("wait");
    reveal_strlit("fail_on_error");
    reveal_strlit("value");
    reveal_strlit("scope");
    reveal_strlit("minimum_version");
    reveal_strlit("download_url");
    reveal_strlit("year");
    reveal_strlit("arch");
    reveal_strlit("minimum");
    reveal_strlit("required_mb");
    reveal_strlit("check_command");
    reveal_strlit("expected_exit_code");
    reveal_strlit("error_message");
    reveal_strlit("app");
    reveal_strlit("theme");
    reveal_strlit("files");
    reveal_strlit("steps");
    reveal_strlit("prerequisites");
    reveal_strlit("uninstall");
    reveal_strlit("extract");
    reveal_strlit("shortcut");
    reveal_strlit("registry");
    reveal_strlit("env_var");
    reveal_strlit("register_uninstaller");
    reveal_strlit("dot_net");
    reveal_strlit("vc_redist");
    reveal_strlit("os_version");
    reveal_strlit("disk_space");
    reveal_strlit("custom");
    reveal_strlit("desktop");
    reveal_strlit("start_menu");
    reveal_strlit("taskbar");
}

proof fn lemma_decode_list_map<T>(
    xs: Seq<T>,
    enc: spec_fn(T) -> TomlView,
    f: spec_fn(TomlView) -> Result<T, SchemaError>,
)
    requires
        forall|i: int| 0 <= i < xs.len() ==> f(enc(#[trigger] xs[i])) == Ok::<T, SchemaError>(xs[i]),
    ensures
        decode_list(xs.map_values(enc), f) == Ok::<Seq<T>, SchemaError>(xs),
    decreases xs.len(),
{
    let ys = xs.map_values(enc);
    if xs.len() > 0 {
        let rest = xs.drop_first();
        assert forall|i: int| 0 <= i < rest.len() implies f(enc(#[trigger] rest[i])) == Ok::<T, SchemaError>(rest[i]) by {
            assert(rest[i] == xs[i + 1]);
        }
        lemma_decode_list_map(rest, enc, f);
        assert(ys.drop_first() =~= rest.map_values(enc));
        assert(ys[0] == enc(xs[0]));
        assert(f(enc(xs[0])) == Ok::<T, SchemaError>(xs[0]));
        assert(seq![xs[0]] + rest =~= xs);
    } else {
        assert(ys.len() == 0);
        assert(xs =~= Seq::<T>::empty());
    }
}

proof fn lemma_decode_pairs_map(xs: Seq<(Seq<char>, Seq<char>)>, k: &str)
    ensures
        decode_pairs(xs.map_values(|p: (Seq<char>, Seq<char>)| (p.0, TomlView::Str(p.1))), k)
            == Ok::<Seq<(Seq<char>, Seq<char>)>, SchemaError>(xs),
    decreases xs.len(),
{
    let ys = xs.map_values(|p: (Seq<char>, Seq<char>)| (p.0, TomlView::Str(p.1)));
    if xs.len() > 0 {
        let rest = xs.drop_first();
        lemma_decode_pairs_map(rest, k);
        assert(ys.drop_first() =~= rest.map_values(|p: (Seq<char>, Seq<char>)| (p.0, TomlView::Str(p.1))));
        assert(seq![(xs[0].0, xs[0].1)] + rest =~= xs);
    } else {
        assert(xs =~= Seq::<(Seq<char>, Seq<char>)>::empty());
    }
}

proof fn lemma_strs_roundtrip(xs: Seq<Seq<char>>, k: &str)
    ensures
        decode_list(xs.map_values(|x: Seq<char>| TomlView::Str(x)), str_item(k)) == Ok::<Seq<Seq<char>>, SchemaError>(xs),
{
    lemma_decode_list_map(xs, |x: Seq<char>| TomlView::Str(x), str_item(k));
}

/// Looking up a key in the entry of an optional string.
pub broadcast proof fn lemma_lookup_opt_entry(k: &str, o: Option<Seq<char>>, key: Seq<char>)
    ensures
        #[trigger] lookup(opt_entry(k, o), key) == match o {
            Some(x) => if k@ == key {
                Some(TomlView::Str(x))
            } else {
                None
            },
            None => None,
        },
{
    broadcast use crate::toml_tree::lemma_lookup_single, crate::toml_tree::lemma_lookup_empty;
}

proof fn lemma_app_roundtrip(a: AppMetaView)
    ensures
        decode_app(table_of(encode_app(a))) == Ok::<AppMetaView, SchemaError>(a),
{
    broadcast use crate::toml_tree::lemma_lookup_concat, crate::toml_tree::lemma_lookup_single, crate::toml_tree::lemma_lookup_empty, lemma_lookup_opt_entry;
    lemma_schema_names();
}

proof fn lemma_theme_roundtrip(t: ThemeView)
    ensures
        decode_theme(table_of(encode_theme(t))) == Ok::<ThemeView, SchemaError>(t),
{
    broadcast use crate::toml_tree::lemma_lookup_concat, crate::toml_tree::lemma_lookup_single, crate::toml_tree::lemma_lookup_empty, lemma_lookup_opt_entry;
    lemma_schema_names();
    lemma_decode_pairs_map(t.custom_vars, "custom_vars");
}

proof fn lemma_file_roundtrip(f: FileEntryView)
    ensures
        decode_file(table_of(encode_file(f))) == Ok::<FileEntryView, SchemaError>(f),
{
    broadcast use crate::toml_tree::lemma_lookup_concat, crate::toml_tree::lemma_lookup_single, crate::toml_tree::lemma_lookup_empty, lemma_lookup_opt_entry;
    lemma_schema_names();
}

proof fn lemma_uninstall_roundtrip(u: UninstallConfigView)
    ensures
        decode_uninstall(table_of(encode_uninstall(u))) == Ok::<UninstallConfigView, SchemaError>(u),
{
    broadcast use crate::toml_tree::lemma_lookup_concat, crate::toml_tree::lemma_lookup_single, crate::toml_tree::lemma_lookup_empty, lemma_lookup_opt_entry;
    lemma_schema_names();
    lemma_strs_roundtrip(u.extra_remove_paths, "extra_remove_paths");
}

proof fn lemma_locations_roundtrip(xs: Seq<ShortcutLocation>)
    ensures
        decode_list(
            xs.map_values(|l: ShortcutLocation| TomlView::Str(location_name(l))),
            location_item("locations"),
        ) == Ok::<Seq<ShortcutLocation>, SchemaError>(xs),
{
    lemma_schema_names();
    lemma_decode_list_map(xs, |l: ShortcutLocation| TomlView::Str(location_name(l)), location_item("locations"));
}

#[verifier::rlimit(50)]
proof fn lemma_step_roundtrip(s: InstallStepView)
    ensures
        decode_step(table_of(encode_step(s))) == Ok::<InstallStepView, SchemaError>(s),
{
    broadcast use crate::toml_tree::lemma_lookup_concat, crate::toml_tree::lemma_lookup_single, crate::toml_tree::lemma_lookup_empty, lemma_lookup_opt_entry;
    lemma_schema_names();
    match s {
        InstallStepView::Shortcut { locations, .. } => lemma_locations_roundtrip(locations),
        InstallStepView::Command { args, .. } => lemma_strs_roundtrip(args, "args"),
        _ => {},
    }
}

#[verifier::rlimit(50)]
proof fn lemma_prerequisite_roundtrip(p: PrerequisiteView)
    requires
        p matches PrerequisiteView::DiskSpace { required_mb } ==> 0 <= required_mb,
        p matches PrerequisiteView::Custom { expected_exit_code, .. } ==> i32::MIN <= expected_exit_code <= i32::MAX,
    ensures
        decode_prerequisite(table_of(encode_prerequisite(p))) == Ok::<PrerequisiteView, SchemaError>(p),
{
    broadcast use crate::toml_tree::lemma_lookup_concat, crate::toml_tree::lemma_lookup_single, crate::toml_tree::lemma_lookup_empty, lemma_lookup_opt_entry;
    lemma_schema_names();
    match p {
        PrerequisiteView::Custom { args, .. } => lemma_strs_roundtrip(args, "args"),
        _ => {},
    }
}

/// No two custom variables have the same name.
pub open spec fn var_names_distinct(vars: Seq<(Seq<char>, Seq<char>)>) -> bool {
    forall|i: int, j: int| 0 <= i < j < vars.len() ==> #[trigger] vars[i].0 != #[trigger] vars[j].0
}

/// A table of strings decodes to its keys, in order.
proof fn lemma_decode_pairs_keys(e: Entries, k: &str)
    ensures
        decode_pairs(e, k) matches Ok(v) ==> v.len() == e.len() && forall|i: int| 0 <= i < e.len() ==> #[trigger] v[i].0
            == e[i].0,
    decreases e.len(),
{
    if e.len() > 0 {
        lemma_decode_pairs_keys(e.drop_first(), k);
        if let Ok(v) = decode_pairs(e, k) {
            assert forall|i: int| 0 <= i < e.len() implies #[trigger] v[i].0 == e[i].0 by {
                if i > 0 {
                    assert(e[i] == e.drop_first()[i - 1]);
                }
            }
        }
    }
}

/// A document whose tables hold each key once decodes to a theme whose
/// custom variables have distinct names.
pub proof fn lemma_decoded_vars_distinct(doc: TomlView)
    requires
        keys_unique(doc),
    ensures
        decode_document(doc) matches Ok(p) ==> var_names_distinct(p.theme.custom_vars),
{
    if let (TomlView::Table(t), Ok(p)) = (doc, decode_document(doc)) {
        lemma_lookup_found(t, "theme"@);
        if let Some(TomlView::Table(e)) = lookup(t, "theme"@) {
            let i = choose|i: int| 0 <= i < t.len() && t[i].0 == "theme"@ && #[trigger] t[i].1 == TomlView::Table(e);
            assert(keys_unique(t[i].1));
            assert(decode_theme(e) == Ok::<ThemeView, SchemaError>(p.theme));
            assert(str_map_or_empty(e, "custom_vars") == Ok::<Seq<(Seq<char>, Seq<char>)>, SchemaError>(
                p.theme.custom_vars,
            ));
            lemma_lookup_found(e, "custom_vars"@);
            if let Some(TomlView::Table(e2)) = lookup(e, "custom_vars"@) {
                let j = choose|j: int| 0 <= j < e.len() && e[j].0 == "custom_vars"@ && #[trigger] e[j].1 == TomlView::Table(e2);
                assert(keys_unique(e[j].1));
                assert(keys_distinct(e2));
                lemma_decode_pairs_keys(e2, "custom_vars");
                let v = p.theme.custom_vars;
                assert forall|a: int, b: int| 0 <= a < b < v.len() implies #[trigger] v[a].0 != #[trigger] v[b].0 by {
                    assert(v[a].0 == e2[a].0);
                    assert(v[b].0 == e2[b].0);
                }
            }
        }
    }
}

/// Decoding a project's encoding gives the project back.
pub proof fn lemma_project_roundtrip(p: LynxProject)
    requires
        encodable(p@),
    ensures
        decode_document(encode_project(p@)) == Ok::<LynxProjectView, SchemaError>(p@),
{
    broadcast use crate::toml_tree::lemma_lookup_concat, crate::toml_tree::lemma_lookup_single, crate::toml_tree::lemma_lookup_empty, lemma_lookup_opt_entry;
    lemma_schema_names();
    let v = p@;
    lemma_app_roundtrip(v.app);
    lemma_theme_roundtrip(v.theme);
    assert forall|i: int| 0 <= i < v.files.len() implies file_item()((|f: FileEntryView| encode_file(f))(#[trigger] v.files[i])) == Ok::<FileEntryView, SchemaError>(v.files[i]) by {
        lemma_file_roundtrip(v.files[i]);
    }
    lemma_decode_list_map(v.files, |f: FileEntryView| encode_file(f), file_item());
    assert forall|i: int| 0 <= i < v.steps.len() implies step_item()((|s: InstallStepView| encode_step(s))(#[trigger] v.steps[i])) == Ok::<InstallStepView, SchemaError>(v.steps[i]) by {
        lemma_step_roundtrip(v.steps[i]);
    }
    lemma_decode_list_map(v.steps, |s: InstallStepView| encode_step(s), step_item());
    assert forall|i: int| 0 <= i < v.prerequisites.len() implies prerequisite_item()((|x: PrerequisiteView| encode_prerequisite(x))(#[trigger] v.prerequisites[i])) == Ok::<PrerequisiteView, SchemaError>(v.prerequisites[i]) by {
        assert(v.prerequisites[i] == p.prerequisites@[i]@);
        lemma_prerequisite_roundtrip(v.prerequisites[i]);
    }
    lemma_decode_list_map(v.prerequisites, |x: PrerequisiteView| encode_prerequisite(x), prerequisite_item());
    match v.uninstall {
        Some(u) => lemma_uninstall_roundtrip(u),
        None => {},
    }
}

// ─────────────────────────────────────────────
//  What a project file says, key by key
// ─────────────────────────────────────────────

/// The string `t` holds under the key `k`, if it holds a string there.
pub open spec fn string_at(t: Entries, k: Seq<char>) -> Option<Seq<char>> {
    match lookup(t, k) {
        Some(TomlView::Str(s)) => Some(s),
        _ => None,
    }
}

/// The boolean `t` holds under the key `k`, if it holds one there.
pub open spec fn bool_at(t: Entries, k: Seq<char>) -> Option<bool> {
    match lookup(t, k) {
        Some(TomlView::Bool(b)) => Some(b),
        _ => None,
    }
}

/// The integer `t` holds under the key `k`, if it holds one there.
pub open spec fn int_at(t: Entries, k: Seq<char>) -> Option<int> {
    match lookup(t, k) {
        Some(TomlView::Int(i)) => Some(i),
        _ => None,
    }
}

/// `o`, or `d` where it is `None`.
pub open spec fn text_or(o: Option<Seq<char>>, d: Seq<char>) -> Seq<char> {
    match o {
        Some(s) => s,
        None => d,
    }
}

/// `o`, or `d` where it is `None`.
pub open spec fn flag_or(o: Option<bool>, d: bool) -> bool {
    match o {
        Some(b) => b,
        None => d,
    }
}

/// `o`, or `d` where it is `None`.
pub open spec fn number_or(o: Option<int>, d: int) -> int {
    match o {
        Some(i) => i,
        None => d,
    }
}

/// The text of a string value.
pub open spec fn text_of(v: TomlView) -> Seq<char> {
    match v {
        TomlView::Str(s) => s,
        _ => Seq::empty(),
    }
}

/// The strings of the list `t` holds under `k`, if it holds a list of
/// strings there.
pub open spec fn strings_at(t: Entries, k: Seq<char>) -> Option<Seq<Seq<char>>> {
    match lookup(t, k) {
        Some(TomlView::Array(items)) => if forall|j: int| 0 <= j < items.len() ==> #[trigger] items[j] is Str {
            Some(items.map_values(|v: TomlView| text_of(v)))
        } else {
            None
        },
        _ => None,
    }
}

/// The strings of the list under `k`; an absent list reads as empty.
pub open spec fn strings_or_empty(t: Entries, k: Seq<char>) -> Option<Seq<Seq<char>>> {
    if lookup(t, k) is None {
        Some(Seq::empty())
    } else {
        strings_at(t, k)
    }
}

/// The entries of the table of strings `t` holds under `k`, in order; an
/// absent table reads as empty.
pub open spec fn pairs_or_empty(t: Entries, k: Seq<char>) -> Option<Seq<(Seq<char>, Seq<char>)>> {
    match lookup(t, k) {
        None => Some(Seq::empty()),
        Some(TomlView::Table(e)) => if forall|j: int| 0 <= j < e.len() ==> #[trigger] e[j].1 is Str {
            Some(e.map_values(|p: (Seq<char>, TomlView)| (p.0, text_of(p.1))))
        } else {
            None
        },
        _ => None,
    }
}

/// The word a project file uses for a shortcut location.
pub open spec fn location_word(l: ShortcutLocation) -> Seq<char> {
    match l {
        ShortcutLocation::Desktop => "desktop"@,
        ShortcutLocation::StartMenu => "start_menu"@,
        ShortcutLocation::Taskbar => "taskbar"@,
    }
}

/// The `[app]` table `t` holds `a`: each field under its own key, with the
/// documented default where an optional key is absent.
pub open spec fn app_in(t: Entries, a: AppMetaView) -> bool {
    &&& string_at(t, "name"@) == Some(a.name)
    &&& string_at(t, "version"@) == Some(a.version)
    &&& string_at(t, "publisher"@) == Some(a.publisher)
    &&& string_at(t, "id"@) == Some(a.id)
    &&& string_at(t, "icon"@) == a.icon
    &&& a.default_install_dir == text_or(string_at(t, "default_install_dir"@), "{program_files}/{app_name}"@)
    &&& string_at(t, "url"@) == a.url
    &&& string_at(t, "description"@) == a.description
}

/// The `[theme]` table `t` holds `th`.
pub open spec fn theme_in(t: Entries, th: ThemeView) -> bool {
    &&& string_at(t, "name"@) == Some(th.name)
    &&& string_at(t, "path"@) == Some(th.path)
    &&& th.accent_color == text_or(string_at(t, "accent_color"@), "#FF6B35"@)
    &&& string_at(t, "background_color"@) == th.background_color
    &&& pairs_or_empty(t, "custom_vars"@) == Some(th.custom_vars)
}

/// A `[[files]]` table `t` holds `f`.
pub open spec fn file_in(t: Entries, f: FileEntryView) -> bool {
    &&& string_at(t, "source"@) == Some(f.source)
    &&& string_at(t, "destination"@) == Some(f.destination)
    &&& f.recursive == flag_or(bool_at(t, "recursive"@), true)
    &&& string_at(t, "filter"@) == f.filter
    &&& f.overwrite == flag_or(bool_at(t, "overwrite"@), true)
}

/// The `[uninstall]` table `t` holds `u`.
pub open spec fn uninstall_in(t: Entries, u: UninstallConfigView) -> bool {
    &&& u.enabled == flag_or(bool_at(t, "enabled"@), true)
    &&& u.exe_name == text_or(string_at(t, "exe_name"@), "uninstall.exe"@)
    &&& strings_or_empty(t, "extra_remove_paths"@) == Some(u.extra_remove_paths)
    &&& u.remove_install_dir == flag_or(bool_at(t, "remove_install_dir"@), true)
}

/// A `[[steps]]` table `t` holds `s`: its kind under `kind`, and each field
/// under its own key.
pub open spec fn step_in(t: Entries, s: InstallStepView) -> bool {
    match s {
        InstallStepView::Extract { label } => {
            &&& string_at(t, "kind"@) == Some("extract"@)
            &&& string_at(t, "label"@) == Some(label)
        },
        InstallStepView::Shortcut { label, target, locations, name } => {
            &&& string_at(t, "kind"@) == Some("shortcut"@)
            &&& string_at(t, "label"@) == Some(label)
            &&& string_at(t, "target"@) == Some(target)
            &&& strings_at(t, "locations"@) == Some(locations.map_values(|l: ShortcutLocation| location_word(l)))
            &&& string_at(t, "name"@) == name
        },
        InstallStepView::Registry { label, hive, key, value_name, value_data, value_type } => {
            &&& string_at(t, "kind"@) == Some("registry"@)
            &&& string_at(t, "label"@) == Some(label)
            &&& string_at(t, "hive"@) == Some(hive)
            &&& string_at(t, "key"@) == Some(key)
            &&& string_at(t, "value_name"@) == Some(value_name)
            &&& string_at(t, "value_data"@) == Some(value_data)
            &&& value_type == text_or(string_at(t, "value_type"@), "REG_SZ"@)
        },
        InstallStepView::Command { label, command, args, wait, fail_on_error } => {
            &&& string_at(t, "kind"@) == Some("command"@)
            &&& string_at(t, "label"@) == Some(label)
            &&& string_at(t, "command"@) == Some(command)
            &&& strings_or_empty(t, "args"@) == Some(args)
            &&& wait == flag_or(bool_at(t, "wait"@), true)
            &&& fail_on_error == flag_or(bool_at(t, "fail_on_error"@), true)
        },
        InstallStepView::EnvVar { label, name, value, scope } => {
            &&& string_at(t, "kind"@) == Some("env_var"@)
            &&& string_at(t, "label"@) == Some(label)
            &&& string_at(t, "name"@) == Some(name)
            &&& string_at(t, "value"@) == Some(value)
            &&& scope == text_or(string_at(t, "scope"@), "user"@)
        },
        InstallStepView::RegisterUninstaller { label } => {
            &&& string_at(t, "kind"@) == Some("register_uninstaller"@)
            &&& string_at(t, "label"@) == Some(label)
        },
    }
}

/// A `[[prerequisites]]` table `t` holds `p`.
pub open spec fn prerequisite_in(t: Entries, p: PrerequisiteView) -> bool {
    match p {
        PrerequisiteView::DotNet { minimum_version, download_url } => {
            &&& string_at(t, "kind"@) == Some("dot_net"@)
            &&& string_at(t, "minimum_version"@) == Some(minimum_version)
            &&& string_at(t, "download_url"@) == download_url
        },
        PrerequisiteView::VcRedist { year, arch, download_url } => {
            &&& string_at(t, "kind"@) == Some("vc_redist"@)
            &&& string_at(t, "year"@) == Some(year)
            &&& string_at(t, "arch"@) == Some(arch)
            &&& string_at(t, "download_url"@) == download_url
        },
        PrerequisiteView::OsVersion { minimum } => {
            &&& string_at(t, "kind"@) == Some("os_version"@)
            &&& string_at(t, "minimum"@) == Some(minimum)
        },
        PrerequisiteView::DiskSpace { required_mb } => {
            &&& string_at(t, "kind"@) == Some("disk_space"@)
            &&& int_at(t, "required_mb"@) == Some(required_mb)
        },
        PrerequisiteView::Custom { label, check_command, args, expected_exit_code, error_message, download_url } => {
            &&& string_at(t, "kind"@) == Some("custom"@)
            &&& string_at(t, "label"@) == Some(label)
            &&& string_at(t, "check_command"@) == Some(check_command)
            &&& strings_at(t, "args"@) == Some(args)
            &&& expected_exit_code == number_or(int_at(t, "expected_exit_code"@), 0)
            &&& string_at(t, "error_message"@) == Some(error_message)
            &&& string_at(t, "download_url"@) == download_url
        },
    }
}

/// The list of tables `t` holds under `k` holds `xs`, one table for each,
/// in order; an absent list holds none.
pub open spec fn tables_in<T>(t: Entries, k: Seq<char>, xs: Seq<T>, holds: spec_fn(Entries, T) -> bool) -> bool {
    match lookup(t, k) {
        None => xs.len() == 0,
        Some(TomlView::Array(items)) => items.len() == xs.len() && forall|j: int|
            0 <= j < items.len() ==> (#[trigger] items[j] matches TomlView::Table(e) && holds(e, xs[j])),
        _ => false,
    }
}

/// The document `t` holds the project `p`, table by table: `[app]`,
/// `[theme]` (an absent one is the default theme), the `files`, `steps`
/// and `prerequisites` lists, and `[uninstall]` where there is one.
pub open spec fn project_in(t: Entries, p: LynxProjectView) -> bool {
    &&& lookup(t, "app"@) matches Some(TomlView::Table(e)) && app_in(e, p.app)
    &&& match lookup(t, "theme"@) {
        None => p.theme == default_theme_view(),
        Some(TomlView::Table(e)) => theme_in(e, p.theme),
        _ => false,
    }
    &&& tables_in(t, "files"@, p.files, |e: Entries, f: FileEntryView| file_in(e, f))
    &&& tables_in(t, "steps"@, p.steps, |e: Entries, s: InstallStepView| step_in(e, s))
    &&& tables_in(t, "prerequisites"@, p.prerequisites, |e: Entries, x: PrerequisiteView| prerequisite_in(e, x))
    &&& match (lookup(t, "uninstall"@), p.uninstall) {
        (None, None) => true,
        (Some(TomlView::Table(e)), Some(u)) => uninstall_in(e, u),
        _ => false,
    }
}

proof fn lemma_read_strs(items: Seq<TomlView>, k: &str)
    ensures
        decode_list(items, str_item(k)) matches Ok(v) ==> (forall|j: int| 0 <= j < items.len() ==> #[trigger] items[j] is Str)
            && v == items.map_values(|x: TomlView| text_of(x)),
    decreases items.len(),
{
    if items.len() > 0 {
        lemma_read_strs(items.drop_first(), k);
        if let Ok(v) = decode_list(items, str_item(k)) {
            let rest = items.drop_first();
            assert forall|j: int| 0 <= j < items.len() implies #[trigger] items[j] is Str by {
                if j > 0 {
                    assert(items[j] == rest[j - 1]);
                }
            }
            assert(v =~= items.map_values(|x: TomlView| text_of(x))) by {
                assert forall|j: int| 0 <= j < items.len() implies v[j] == text_of(items[j]) by {
                    if j > 0 {
                        assert(items[j] == rest[j - 1]);
                    }
                }
            }
        }
    } else {
        if let Ok(v) = decode_list(items, str_item(k)) {
            assert(v =~= items.map_values(|x: TomlView| text_of(x)));
        }
    }
}

proof fn lemma_read_locations(items: Seq<TomlView>, k: &str)
    ensures
        decode_list(items, location_item(k)) matches Ok(v) ==> (forall|j: int| 0 <= j < items.len() ==> #[trigger] items[j] is Str)
            && v.len() == items.len() && items.map_values(|x: TomlView| text_of(x)) == v.map_values(
            |l: ShortcutLocation| location_word(l),
        ),
    decreases items.len(),
{
    lemma_schema_names();
    if items.len() > 0 {
        lemma_read_locations(items.drop_first(), k);
        if let Ok(v) = decode_list(items, location_item(k)) {
            let rest = items.drop_first();
            assert forall|j: int| 0 <= j < items.len() implies #[trigger] items[j] is Str by {
                if j > 0 {
                    assert(items[j] == rest[j - 1]);
                }
            }
            let v2 = decode_list(rest, location_item(k))->Ok_0;
            assert(v == seq![v[0]] + v2);
            assert(v.len() == items.len());
            assert(items.map_values(|x: TomlView| text_of(x)) =~= v.map_values(|l: ShortcutLocation| location_word(l))) by {
                assert forall|j: int| 0 <= j < items.len() implies text_of(items[j]) == location_word(v[j]) by {
                    if j > 0 {
                        assert(items[j] == rest[j - 1]);
                        assert(v[j] == v2[j - 1]);
                        assert(rest.map_values(|x: TomlView| text_of(x))[j - 1] == v2.map_values(
                            |l: ShortcutLocation| location_word(l),
                        )[j - 1]);
                    }
                }
            }
        }
    } else {
        if let Ok(v) = decode_list(items, location_item(k)) {
            assert(items.map_values(|x: TomlView| text_of(x)) =~= v.map_values(|l: ShortcutLocation| location_word(l)));
        }
    }
}

proof fn lemma_read_tables<T>(items: Seq<TomlView>, k: &str, f: spec_fn(Entries) -> Result<T, SchemaError>)
    ensures
        decode_list(items, table_item(k, f)) matches Ok(xs) ==> items.len() == xs.len() && forall|j: int|
            0 <= j < items.len() ==> (#[trigger] items[j] matches TomlView::Table(e) && f(e) == Ok::<T, SchemaError>(xs[j])),
    decreases items.len(),
{
    if items.len() > 0 {
        lemma_read_tables(items.drop_first(), k, f);
        if let Ok(xs) = decode_list(items, table_item(k, f)) {
            let rest = items.drop_first();
            assert forall|j: int| 0 <= j < items.len() implies (#[trigger] items[j] matches TomlView::Table(e) && f(e) == Ok::<
                T,
                SchemaError,
            >(xs[j])) by {
                if j > 0 {
                    assert(items[j] == rest[j - 1]);
                }
            }
        }
    }
}

proof fn lemma_read_pairs(e: Entries, k: &str)
    ensures
        decode_pairs(e, k) matches Ok(v) ==> (forall|j: int| 0 <= j < e.len() ==> #[trigger] e[j].1 is Str) && v
            == e.map_values(|p: (Seq<char>, TomlView)| (p.0, text_of(p.1))),
    decreases e.len(),
{
    if e.len() > 0 {
        lemma_read_pairs(e.drop_first(), k);
        if let Ok(v) = decode_pairs(e, k) {
            let rest = e.drop_first();
            assert forall|j: int| 0 <= j < e.len() implies #[trigger] e[j].1 is Str by {
                if j > 0 {
                    assert(e[j] == rest[j - 1]);
                }
            }
            assert(v =~= e.map_values(|p: (Seq<char>, TomlView)| (p.0, text_of(p.1)))) by {
                assert forall|j: int| 0 <= j < e.len() implies v[j] == (e[j].0, text_of(e[j].1)) by {
                    if j > 0 {
                        assert(e[j] == rest[j - 1]);
                    }
                }
            }
        }
    } else {
        if let Ok(v) = decode_pairs(e, k) {
            assert(v =~= e.map_values(|p: (Seq<char>, TomlView)| (p.0, text_of(p.1))));
        }
    }
}

/// Decoding an `[app]` table reads each field from its own key.
pub proof fn lemma_decode_app_reads(t: Entries)
    ensures
        decode_app(t) matches Ok(a) ==> app_in(t, a),
{
}

/// Decoding a `[theme]` table reads each field from its own key.
pub proof fn lemma_decode_theme_reads(t: Entries)
    ensures
        decode_theme(t) matches Ok(th) ==> theme_in(t, th),
{
    if let Some(TomlView::Table(e)) = lookup(t, "custom_vars"@) {
        lemma_read_pairs(e, "custom_vars");
    }
}

/// Decoding a `[[files]]` table reads each field from its own key.
pub proof fn lemma_decode_file_reads(t: Entries)
    ensures
        decode_file(t) matches Ok(f) ==> file_in(t, f),
{
}

/// Decoding an `[uninstall]` table reads each field from its own key.
pub proof fn lemma_decode_uninstall_reads(t: Entries)
    ensures
        decode_uninstall(t) matches Ok(u) ==> uninstall_in(t, u),
{
    if let Some(TomlView::Array(items)) = lookup(t, "extra_remove_paths"@) {
        lemma_read_strs(items, "extra_remove_paths");
    }
}

/// Decoding a `[[steps]]` table gives the step its `kind` names, with each
/// field read from its own key: for an `env_var` step, the name from `name`
/// and the value from `value`.
pub proof fn lemma_decode_step_reads(t: Entries)
    ensures
        decode_step(t) matches Ok(s) ==> step_in(t, s),
{
    lemma_schema_names();
    if let Some(TomlView::Array(items)) = lookup(t, "locations"@) {
        lemma_read_locations(items, "locations");
    }
    if let Some(TomlView::Array(items)) = lookup(t, "args"@) {
        lemma_read_strs(items, "args");
    }
}

/// Decoding a `[[prerequisites]]` table gives the prerequisite its `kind`
/// names, with each field read from its own key.
pub proof fn lemma_decode_prerequisite_reads(t: Entries)
    ensures
        decode_prerequisite(t) matches Ok(p) ==> prerequisite_in(t, p),
{
    lemma_schema_names();
    if let Some(TomlView::Array(items)) = lookup(t, "args"@) {
        lemma_read_strs(items, "args");
    }
}

/// Decoding a project document reads it table by table and key by key:
/// the project it gives is the one the document holds, each field from
/// its own key (`project_in`), with the documented defaults where keys are
/// absent.
pub proof fn lemma_decode_reads_document(t: Entries)
    ensures
        decode_project(t) matches Ok(p) ==> project_in(t, p),
{
    if let Ok(p) = decode_project(t) {
        if let Some(TomlView::Table(e)) = lookup(t, "app"@) {
            lemma_decode_app_reads(e);
        }
        if let Some(TomlView::Table(e)) = lookup(t, "theme"@) {
            lemma_decode_theme_reads(e);
        }
        if let Some(TomlView::Table(e)) = lookup(t, "uninstall"@) {
            lemma_decode_uninstall_reads(e);
        }
        if let Some(TomlView::Array(items)) = lookup(t, "files"@) {
            lemma_read_tables(items, "files", |e: Entries| decode_file(e));
            assert forall|j: int| 0 <= j < items.len() implies (#[trigger] items[j] matches TomlView::Table(e) && file_in(
                e,
                p.files[j],
            )) by {
                if let TomlView::Table(e) = items[j] {
                    lemma_decode_file_reads(e);
                }
            }
        }
        if let Some(TomlView::Array(items)) = lookup(t, "steps"@) {
            lemma_read_tables(items, "steps", |e: Entries| decode_step(e));
            assert forall|j: int| 0 <= j < items.len() implies (#[trigger] items[j] matches TomlView::Table(e) && step_in(
                e,
                p.steps[j],
            )) by {
                if let TomlView::Table(e) = items[j] {
                    lemma_decode_step_reads(e);
                }
            }
        }
        if let Some(TomlView::Array(items)) = lookup(t, "prerequisites"@) {
            lemma_read_tables(items, "prerequisites", |e: Entries| decode_prerequisite(e));
            assert forall|j: int| 0 <= j < items.len() implies (#[trigger] items[j] matches TomlView::Table(e)
                && prerequisite_in(e, p.prerequisites[j])) by {
                if let TomlView::Table(e) = items[j] {
                    lemma_decode_prerequisite_reads(e);
                }
            }
        }
    }
}

/// Every value in `t` holds each key once in each of its tables.
pub open spec fn values_unique(t: Entries) -> bool {
    forall|i: int| 0 <= i < t.len() ==> keys_unique(#[trigger] t[i].1)
}

proof fn lemma_lookup_absent(t: Entries, k: Seq<char>)
    ensures
        lookup(t, k) is None ==> forall|i: int| 0 <= i < t.len() ==> (#[trigger] t[i]).0 != k,
    decreases t.len(),
{
    if t.len() > 0 {
        lemma_lookup_absent(t.drop_first(), k);
        if lookup(t, k) is None {
            assert forall|i: int| 0 <= i < t.len() implies (#[trigger] t[i]).0 != k by {
                if i > 0 {
                    assert(t[i] == t.drop_first()[i - 1]);
                }
            }
        }
    }
}

/// Adding at most one entry whose key the table does not hold yet, with a
/// value that holds each key once, keeps every key of the table once.
proof fn lemma_add_entries(t: Entries, extra: Entries)
    requires
        keys_distinct(t),
        values_unique(t),
        extra.len() <= 1,
        extra.len() == 1 ==> lookup(t, extra[0].0) is None && keys_unique(extra[0].1),
    ensures
        keys_distinct(t + extra),
        values_unique(t + extra),
{
    let u = t + extra;
    if extra.len() == 1 {
        lemma_lookup_absent(t, extra[0].0);
        assert forall|i: int, j: int| 0 <= i < j < u.len() implies #[trigger] u[i].0 != #[trigger] u[j].0 by {
            if j == t.len() {
                assert(u[j] == extra[0]);
                assert(u[i] == t[i]);
            } else {
                assert(u[i] == t[i] && u[j] == t[j]);
            }
        }
        assert forall|i: int| 0 <= i < u.len() implies keys_unique(#[trigger] u[i].1) by {
            if i < t.len() {
                assert(u[i] == t[i]);
            } else {
                assert(u[i] == extra[0]);
            }
        }
    } else {
        assert(u =~= t);
    }
}

proof fn lemma_one_entry(k: &str, v: TomlView)
    requires
        keys_unique(v),
    ensures
        keys_distinct(entry(k, v)),
        values_unique(entry(k, v)),
{
    assert(entry(k, v)[0] == (k@, v));
}

proof fn lemma_strs_unique(xs: Seq<Seq<char>>)
    ensures
        keys_unique(encode_strs(xs)),
        strings_at(entry("x", encode_strs(xs)), "x"@) == Some(xs),
{
    broadcast use crate::toml_tree::lemma_lookup_single;

    let items = xs.map_values(|x: Seq<char>| TomlView::Str(x));
    assert forall|j: int| 0 <= j < items.len() implies keys_unique(#[trigger] items[j]) by {
        assert(items[j] == TomlView::Str(xs[j]));
    }
    assert forall|j: int| 0 <= j < items.len() implies #[trigger] items[j] is Str by {
        assert(items[j] == TomlView::Str(xs[j]));
    }
    assert(items.map_values(|v: TomlView| text_of(v)) =~= xs);
}

/// The strings of a list of strings, under any key.
proof fn lemma_strings_at_list(t: Entries, k: Seq<char>, xs: Seq<Seq<char>>)
    requires
        lookup(t, k) == Some(encode_strs(xs)),
    ensures
        strings_at(t, k) == Some(xs),
        strings_or_empty(t, k) == Some(xs),
{
    let items = xs.map_values(|x: Seq<char>| TomlView::Str(x));
    assert forall|j: int| 0 <= j < items.len() implies #[trigger] items[j] is Str by {
        assert(items[j] == TomlView::Str(xs[j]));
    }
    assert(items.map_values(|v: TomlView| text_of(v)) =~= xs);
}

/// Writing an `[app]` table puts each field under its own key, once.
pub proof fn lemma_encode_app_writes(a: AppMetaView)
    ensures
        app_in(table_of(encode_app(a)), a),
        keys_unique(encode_app(a)),
{
    broadcast use crate::toml_tree::lemma_lookup_concat, crate::toml_tree::lemma_lookup_single, crate::toml_tree::lemma_lookup_empty, lemma_lookup_opt_entry;
    lemma_schema_names();
    let e1 = entry("name", TomlView::Str(a.name));
    let x2 = entry("version", TomlView::Str(a.version));
    let x3 = entry("publisher", TomlView::Str(a.publisher));
    let x4 = entry("id", TomlView::Str(a.id));
    let x5 = opt_entry("icon", a.icon);
    let x6 = entry("default_install_dir", TomlView::Str(a.default_install_dir));
    let x7 = opt_entry("url", a.url);
    let x8 = opt_entry("description", a.description);
    lemma_one_entry("name", TomlView::Str(a.name));
    lemma_add_entries(e1, x2);
    lemma_add_entries(e1 + x2, x3);
    lemma_add_entries(e1 + x2 + x3, x4);
    lemma_add_entries(e1 + x2 + x3 + x4, x5);
    lemma_add_entries(e1 + x2 + x3 + x4 + x5, x6);
    lemma_add_entries(e1 + x2 + x3 + x4 + x5 + x6, x7);
    lemma_add_entries(e1 + x2 + x3 + x4 + x5 + x6 + x7, x8);
}

/// Writing a `[theme]` table puts each field under its own key, once
/// (custom variables with distinct names).
pub proof fn lemma_encode_theme_writes(th: ThemeView)
    requires
        var_names_distinct(th.custom_vars),
    ensures
        theme_in(table_of(encode_theme(th)), th),
        keys_unique(encode_theme(th)),
{
    broadcast use crate::toml_tree::lemma_lookup_concat, crate::toml_tree::lemma_lookup_single, crate::toml_tree::lemma_lookup_empty, lemma_lookup_opt_entry;
    lemma_schema_names();
    let vars = th.custom_vars;
    let ve = vars.map_values(|p: (Seq<char>, Seq<char>)| (p.0, TomlView::Str(p.1)));
    assert forall|i: int, j: int| 0 <= i < j < ve.len() implies #[trigger] ve[i].0 != #[trigger] ve[j].0 by {
        assert(ve[i].0 == vars[i].0 && ve[j].0 == vars[j].0);
    }
    assert forall|i: int| 0 <= i < ve.len() implies keys_unique(#[trigger] ve[i].1) by {
        assert(ve[i].1 == TomlView::Str(vars[i].1));
    }
    assert(keys_unique(TomlView::Table(ve)));
    assert forall|j: int| 0 <= j < ve.len() implies #[trigger] ve[j].1 is Str by {
        assert(ve[j].1 == TomlView::Str(vars[j].1));
    }
    assert(ve.map_values(|p: (Seq<char>, TomlView)| (p.0, text_of(p.1))) =~= vars);
    let e1 = entry("name", TomlView::Str(th.name));
    let x2 = entry("path", TomlView::Str(th.path));
    let x3 = entry("accent_color", TomlView::Str(th.accent_color));
    let x4 = opt_entry("background_color", th.background_color);
    let x5 = entry("custom_vars", TomlView::Table(ve));
    lemma_one_entry("name", TomlView::Str(th.name));
    lemma_add_entries(e1, x2);
    lemma_add_entries(e1 + x2, x3);
    lemma_add_entries(e1 + x2 + x3, x4);
    lemma_add_entries(e1 + x2 + x3 + x4, x5);
}

/// Writing a `[[files]]` table puts each field under its own key, once.
pub proof fn lemma_encode_file_writes(f: FileEntryView)
    ensures
        file_in(table_of(encode_file(f)), f),
        keys_unique(encode_file(f)),
{
    broadcast use crate::toml_tree::lemma_lookup_concat, crate::toml_tree::lemma_lookup_single, crate::toml_tree::lemma_lookup_empty, lemma_lookup_opt_entry;
    lemma_schema_names();
    let e1 = entry("source", TomlView::Str(f.source));
    let x2 = entry("destination", TomlView::Str(f.destination));
    let x3 = entry("recursive", TomlView::Bool(f.recursive));
    let x4 = opt_entry("filter", f.filter);
    let x5 = entry("overwrite", TomlView::Bool(f.overwrite));
    lemma_one_entry("source", TomlView::Str(f.source));
    lemma_add_entries(e1, x2);
    lemma_add_entries(e1 + x2, x3);
    lemma_add_entries(e1 + x2 + x3, x4);
    lemma_add_entries(e1 + x2 + x3 + x4, x5);
}

/// Writing an `[uninstall]` table puts each field under its own key, once.
pub proof fn lemma_encode_uninstall_writes(u: UninstallConfigView)
    ensures
        uninstall_in(table_of(encode_uninstall(u)), u),
        keys_unique(encode_uninstall(u)),
{
    broadcast use crate::toml_tree::lemma_lookup_concat, crate::toml_tree::lemma_lookup_single, crate::toml_tree::lemma_lookup_empty, lemma_lookup_opt_entry;
    lemma_schema_names();
    lemma_strs_unique(u.extra_remove_paths);
    let e1 = entry("enabled", TomlView::Bool(u.enabled));
    let x2 = entry("exe_name", TomlView::Str(u.exe_name));
    let x3 = entry("extra_remove_paths", encode_strs(u.extra_remove_paths));
    let x4 = entry("remove_install_dir", TomlView::Bool(u.remove_install_dir));
    lemma_one_entry("enabled", TomlView::Bool(u.enabled));
    lemma_add_entries(e1, x2);
    lemma_add_entries(e1 + x2, x3);
    lemma_add_entries(e1 + x2 + x3, x4);
    lemma_strings_at_list(table_of(encode_uninstall(u)), "extra_remove_paths"@, u.extra_remove_paths);
}

proof fn lemma_locations_written(locs: Seq<ShortcutLocation>)
    ensures
        ({
            let v = TomlView::Array(locs.map_values(|l: ShortcutLocation| TomlView::Str(location_name(l))));
            &&& keys_unique(v)
            &&& strings_at(entry("locations", v), "locations"@) == Some(
                locs.map_values(|l: ShortcutLocation| location_word(l)),
            )
        }),
{
    broadcast use crate::toml_tree::lemma_lookup_single;

    let items = locs.map_values(|l: ShortcutLocation| TomlView::Str(location_name(l)));
    assert forall|j: int| 0 <= j < items.len() implies keys_unique(#[trigger] items[j]) by {
        assert(items[j] == TomlView::Str(location_name(locs[j])));
    }
    assert forall|j: int| 0 <= j < items.len() implies #[trigger] items[j] is Str by {
        assert(items[j] == TomlView::Str(location_name(locs[j])));
    }
    assert(items.map_values(|v: TomlView| text_of(v)) =~= locs.map_values(|l: ShortcutLocation| location_word(l)));
}

/// Writing a `[[steps]]` table puts the step's kind under `kind` and each
/// field under its own key, once: an `env_var` step's name under `name`
/// and its value under `value`.
pub proof fn lemma_encode_step_writes(s: InstallStepView)
    ensures
        step_in(table_of(encode_step(s)), s),
        keys_unique(encode_step(s)),
{
    broadcast use crate::toml_tree::lemma_lookup_concat, crate::toml_tree::lemma_lookup_single, crate::toml_tree::lemma_lookup_empty, lemma_lookup_opt_entry;
    lemma_schema_names();
    match s {
        InstallStepView::Extract { label } => {
            let e1 = kind_entry("extract"@);
            lemma_one_entry("kind", TomlView::Str("extract"@));
            lemma_add_entries(e1, entry("label", TomlView::Str(label)));
        },
        InstallStepView::Shortcut { label, target, locations, name } => {
            lemma_locations_written(locations);
            let e1 = kind_entry("shortcut"@);
            let x2 = entry("label", TomlView::Str(label));
            let x3 = entry("target", TomlView::Str(target));
            let x4 = entry(
                "locations",
                TomlView::Array(locations.map_values(|l: ShortcutLocation| TomlView::Str(location_name(l)))),
            );
            let x5 = opt_entry("name", name);
            lemma_one_entry("kind", TomlView::Str("shortcut"@));
            lemma_add_entries(e1, x2);
            lemma_add_entries(e1 + x2, x3);
            lemma_add_entries(e1 + x2 + x3, x4);
            lemma_add_entries(e1 + x2 + x3 + x4, x5);
            let t = table_of(encode_step(s));
            assert(lookup(t, "locations"@) == lookup(x4, "locations"@));
        },
        InstallStepView::Registry { label, hive, key, value_name, value_data, value_type } => {
            let e1 = kind_entry("registry"@);
            let x2 = entry("label", TomlView::Str(label));
            let x3 = entry("hive", TomlView::Str(hive));
            let x4 = entry("key", TomlView::Str(key));
            let x5 = entry("value_name", TomlView::Str(value_name));
            let x6 = entry("value_data", TomlView::Str(value_data));
            let x7 = entry("value_type", TomlView::Str(value_type));
            lemma_one_entry("kind", TomlView::Str("registry"@));
            lemma_add_entries(e1, x2);
            lemma_add_entries(e1 + x2, x3);
            lemma_add_entries(e1 + x2 + x3, x4);
            lemma_add_entries(e1 + x2 + x3 + x4, x5);
            lemma_add_entries(e1 + x2 + x3 + x4 + x5, x6);
            lemma_add_entries(e1 + x2 + x3 + x4 + x5 + x6, x7);
        },
        InstallStepView::Command { label, command, args, wait, fail_on_error } => {
            lemma_strs_unique(args);
            let e1 = kind_entry("command"@);
            let x2 = entry("label", TomlView::Str(label));
            let x3 = entry("command", TomlView::Str(command));
            let x4 = entry("args", encode_strs(args));
            let x5 = entry("wait", TomlView::Bool(wait));
            let x6 = entry("fail_on_error", TomlView::Bool(fail_on_error));
            lemma_one_entry("kind", TomlView::Str("command"@));
            lemma_add_entries(e1, x2);
            lemma_add_entries(e1 + x2, x3);
            lemma_add_entries(e1 + x2 + x3, x4);
            lemma_add_entries(e1 + x2 + x3 + x4, x5);
            lemma_add_entries(e1 + x2 + x3 + x4 + x5, x6);
            lemma_strings_at_list(table_of(encode_step(s)), "args"@, args);
        },
        InstallStepView::EnvVar { label, name, value, scope } => {
            let e1 = kind_entry("env_var"@);
            let x2 = entry("label", TomlView::Str(label));
            let x3 = entry("name", TomlView::Str(name));
            let x4 = entry("value", TomlView::Str(value));
            let x5 = entry("scope", TomlView::Str(scope));
            lemma_one_entry("kind", TomlView::Str("env_var"@));
            lemma_add_entries(e1, x2);
            lemma_add_entries(e1 + x2, x3);
            lemma_add_entries(e1 + x2 + x3, x4);
            lemma_add_entries(e1 + x2 + x3 + x4, x5);
        },
        InstallStepView::RegisterUninstaller { label } => {
            let e1 = kind_entry("register_uninstaller"@);
            lemma_one_entry("kind", TomlView::Str("register_uninstaller"@));
            lemma_add_entries(e1, entry("label", TomlView::Str(label)));
        },
    }
}

/// Writing a `[[prerequisites]]` table puts the prerequisite's kind under
/// `kind` and each field under its own key, once.
pub proof fn lemma_encode_prerequisite_writes(p: PrerequisiteView)
    ensures
        prerequisite_in(table_of(encode_prerequisite(p)), p),
        keys_unique(encode_prerequisite(p)),
{
    broadcast use crate::toml_tree::lemma_lookup_concat, crate::toml_tree::lemma_lookup_single, crate::toml_tree::lemma_lookup_empty, lemma_lookup_opt_entry;
    lemma_schema_names();
    match p {
        PrerequisiteView::DotNet { minimum_version, download_url } => {
            let e1 = kind_entry("dot_net"@);
            let x2 = entry("minimum_version", TomlView::Str(minimum_version));
            lemma_one_entry("kind", TomlView::Str("dot_net"@));
            lemma_add_entries(e1, x2);
            lemma_add_entries(e1 + x2, opt_entry("download_url", download_url));
        },
        PrerequisiteView::VcRedist { year, arch, download_url } => {
            let e1 = kind_entry("vc_redist"@);
            let x2 = entry("year", TomlView::Str(year));
            let x3 = entry("arch", TomlView::Str(arch));
            lemma_one_entry("kind", TomlView::Str("vc_redist"@));
            lemma_add_entries(e1, x2);
            lemma_add_entries(e1 + x2, x3);
            lemma_add_entries(e1 + x2 + x3, opt_entry("download_url", download_url));
        },
        PrerequisiteView::OsVersion { minimum } => {
            let e1 = kind_entry("os_version"@);
            lemma_one_entry("kind", TomlView::Str("os_version"@));
            lemma_add_entries(e1, entry("minimum", TomlView::Str(minimum)));
        },
        PrerequisiteView::DiskSpace { required_mb } => {
            let e1 = kind_entry("disk_space"@);
            lemma_one_entry("kind", TomlView::Str("disk_space"@));
            lemma_add_entries(e1, entry("required_mb", TomlView::Int(required_mb)));
        },
        PrerequisiteView::Custom { label, check_command, args, expected_exit_code, error_message, download_url } => {
            lemma_strs_unique(args);
            let e1 = kind_entry("custom"@);
            let x2 = entry("label", TomlView::Str(label));
            let x3 = entry("check_command", TomlView::Str(check_command));
            let x4 = entry("args", encode_strs(args));
            let x5 = entry("expected_exit_code", TomlView::Int(expected_exit_code));
            let x6 = entry("error_message", TomlView::Str(error_message));
            let x7 = opt_entry("download_url", download_url);
            lemma_one_entry("kind", TomlView::Str("custom"@));
            lemma_add_entries(e1, x2);
            lemma_add_entries(e1 + x2, x3);
            lemma_add_entries(e1 + x2 + x3, x4);
            lemma_add_entries(e1 + x2 + x3 + x4, x5);
            lemma_add_entries(e1 + x2 + x3 + x4 + x5, x6);
            lemma_add_entries(e1 + x2 + x3 + x4 + x5 + x6, x7);
            lemma_strings_at_list(table_of(encode_prerequisite(p)), "args"@, args);
        },
    }
}

proof fn lemma_tables_written<T>(
    xs: Seq<T>,
    enc: spec_fn(T) -> TomlView,
    holds: spec_fn(Entries, T) -> bool,
)
    requires
        forall|j: int| 0 <= j < xs.len() ==> keys_unique(#[trigger] enc(xs[j])) && enc(xs[j]) is Table && holds(
            table_of(enc(xs[j])),
            xs[j],
        ),
    ensures
        keys_unique(TomlView::Array(xs.map_values(enc))),
        tables_in(entry("x", TomlView::Array(xs.map_values(enc))), "x"@, xs, holds),
{
    broadcast use crate::toml_tree::lemma_lookup_single;

    let items = xs.map_values(enc);
    assert forall|j: int| 0 <= j < items.len() implies keys_unique(#[trigger] items[j]) by {
        assert(items[j] == enc(xs[j]));
    }
    assert forall|j: int| 0 <= j < items.len() implies (#[trigger] items[j] matches TomlView::Table(e) && holds(e, xs[j])) by {
        assert(items[j] == enc(xs[j]));
    }
}

/// Writing a project gives a document that holds it, table by table and
/// key by key (`project_in`), and in which every table, at any depth,
/// holds each key once, so that no field is written twice or shadowed
/// (the custom variables of the theme having distinct names, as a project
/// read from a file has).
pub proof fn lemma_encode_writes_document(p: LynxProjectView)
    requires
        var_names_distinct(p.theme.custom_vars),
    ensures
        project_in(table_of(encode_project(p)), p),
        keys_unique(encode_project(p)),
{
    broadcast use crate::toml_tree::lemma_lookup_concat, crate::toml_tree::lemma_lookup_single, crate::toml_tree::lemma_lookup_empty;
    lemma_schema_names();
    lemma_encode_app_writes(p.app);
    lemma_encode_theme_writes(p.theme);
    assert forall|j: int| 0 <= j < p.files.len() implies keys_unique(
        (|f: FileEntryView| encode_file(f))(#[trigger] p.files[j]),
    ) && (|f: FileEntryView| encode_file(f))(p.files[j]) is Table && (|e: Entries, f: FileEntryView| file_in(e, f))(
        table_of((|f: FileEntryView| encode_file(f))(p.files[j])),
        p.files[j],
    ) by {
        lemma_encode_file_writes(p.files[j]);
    }
    lemma_tables_written(p.files, |f: FileEntryView| encode_file(f), |e: Entries, f: FileEntryView| file_in(e, f));
    assert forall|j: int| 0 <= j < p.steps.len() implies keys_unique(
        (|s: InstallStepView| encode_step(s))(#[trigger] p.steps[j]),
    ) && (|s: InstallStepView| encode_step(s))(p.steps[j]) is Table && (|e: Entries, s: InstallStepView| step_in(e, s))(
        table_of((|s: InstallStepView| encode_step(s))(p.steps[j])),
        p.steps[j],
    ) by {
        lemma_encode_step_writes(p.steps[j]);
    }
    lemma_tables_written(p.steps, |s: InstallStepView| encode_step(s), |e: Entries, s: InstallStepView| step_in(e, s));
    assert forall|j: int| 0 <= j < p.prerequisites.len() implies keys_unique(
        (|x: PrerequisiteView| encode_prerequisite(x))(#[trigger] p.prerequisites[j]),
    ) && (|x: PrerequisiteView| encode_prerequisite(x))(p.prerequisites[j]) is Table && (|e: Entries, x: PrerequisiteView|
        prerequisite_in(e, x))(table_of((|x: PrerequisiteView| encode_prerequisite(x))(p.prerequisites[j])), p.prerequisites[j]) by {
        lemma_encode_prerequisite_writes(p.prerequisites[j]);
    }
    lemma_tables_written(
        p.prerequisites,
        |x: PrerequisiteView| encode_prerequisite(x),
        |e: Entries, x: PrerequisiteView| prerequisite_in(e, x),
    );
    let files = TomlView::Array(p.files.map_values(|f: FileEntryView| encode_file(f)));
    let steps = TomlView::Array(p.steps.map_values(|s: InstallStepView| encode_step(s)));
    let prereqs = TomlView::Array(p.prerequisites.map_values(|x: PrerequisiteView| encode_prerequisite(x)));
    let un = match p.uninstall {
        Some(u) => entry("uninstall", encode_uninstall(u)),
        None => Seq::empty(),
    };
    if let Some(u) = p.uninstall {
        lemma_encode_uninstall_writes(u);
    }
    let e1 = entry("app", encode_app(p.app));
    let x2 = entry("theme", encode_theme(p.theme));
    let x3 = entry("files", files);
    let x4 = entry("steps", steps);
    let x5 = entry("prerequisites", prereqs);
    lemma_one_entry("app", encode_app(p.app));
    lemma_add_entries(e1, x2);
    lemma_add_entries(e1 + x2, x3);
    lemma_add_entries(e1 + x2 + x3, x4);
    lemma_add_entries(e1 + x2 + x3 + x4, x5);
    lemma_add_entries(e1 + x2 + x3 + x4 + x5, un);
    let t = table_of(encode_project(p));
    assert(t == e1 + x2 + x3 + x4 + x5 + un);
    assert(lookup(t, "files"@) == lookup(entry("x", files), "x"@));
    assert(lookup(t, "steps"@) == lookup(entry("x", steps), "x"@));
    assert(lookup(t, "prerequisites"@) == lookup(entry("x", prereqs), "x"@));
}

} // verus!
