//! A TOML document as a tree of plain values, and the two trusted steps
//! between TOML text and that tree (parsing and rendering are the `toml`
//! crate's work).
use vstd::prelude::*;
use vstd::string::*;

verus! {

#[verifier::external_type_specification]
#[verifier::external_body]
pub struct ExTomlValue(toml::Value);

/// A TOML value. Floats and datetimes are kept only as `Other`: the project
/// schema has no field of those types.
#[derive(Debug)]
pub enum TomlValue {
    Str(String),
    Int(i64),
    Bool(bool),
    Array(Vec<TomlValue>),
    /// A table's entries as key and value, in the order the document gives
    /// them (the `toml` crate is built to keep that order)
    Table(Vec<(String, TomlValue)>),
    Other,
}

/// The mathematical value of a `TomlValue`.
pub enum TomlView {
    Str(Seq<char>),
    Int(int),
    Bool(bool),
    Array(Seq<TomlView>),
    Table(Seq<(Seq<char>, TomlView)>),
    Other,
}

/// A table's entries, viewed.
pub type Entries = Seq<(Seq<char>, TomlView)>;

pub open spec fn tree_view(v: TomlValue) -> TomlView
    decreases v,
{
    match v {
        TomlValue::Str(s) => TomlView::Str(s@),
        TomlValue::Int(i) => TomlView::Int(i as int),
        TomlValue::Bool(b) => TomlView::Bool(b),
        TomlValue::Array(a) => TomlView::Array(list_view(a@)),
        TomlValue::Table(t) => TomlView::Table(entries_view(t@)),
        TomlValue::Other => TomlView::Other,
    }
}

pub open spec fn list_view(s: Seq<TomlValue>) -> Seq<TomlView>
    decreases s,
{
    if s.len() == 0 {
        Seq::empty()
    } else {
        seq![tree_view(s[0])] + list_view(s.drop_first())
    }
}

pub open spec fn entries_view(s: Seq<(String, TomlValue)>) -> Entries
    decreases s,
{
    if s.len() == 0 {
        Seq::empty()
    } else {
        seq![(s[0].0@, tree_view(s[0].1))] + entries_view(s.drop_first())
    }
}

impl View for TomlValue {
    type V = TomlView;

    open spec fn view(&self) -> TomlView {
        tree_view(*self)
    }
}

/// `list_view` views each element.
pub proof fn lemma_list_view(s: Seq<TomlValue>)
    ensures
        list_view(s).len() == s.len(),
        forall|i: int| 0 <= i < s.len() ==> #[trigger] list_view(s)[i] == tree_view(s[i]),
    decreases s.len(),
{
    if s.len() > 0 {
        lemma_list_view(s.drop_first());
        assert forall|i: int| 0 <= i < s.len() implies #[trigger] list_view(s)[i] == tree_view(s[i]) by {
            if i > 0 {
                assert(s.drop_first()[i - 1] == s[i]);
            }
        }
    }
}

/// `entries_view` views each entry.
pub proof fn lemma_entries_view(s: Seq<(String, TomlValue)>)
    ensures
        entries_view(s).len() == s.len(),
        forall|i: int| 0 <= i < s.len() ==> #[trigger] entries_view(s)[i] == (s[i].0@, tree_view(s[i].1)),
    decreases s.len(),
{
    if s.len() > 0 {
        lemma_entries_view(s.drop_first());
        assert forall|i: int| 0 <= i < s.len() implies #[trigger] entries_view(s)[i] == (s[i].0@, tree_view(s[i].1)) by {
            if i > 0 {
                assert(s.drop_first()[i - 1] == s[i]);
            }
        }
    }
}

/// Appending one entry views it after the others.
pub proof fn lemma_entries_view_push(s: Seq<(String, TomlValue)>, x: (String, TomlValue))
    ensures
        entries_view(s.push(x)) == entries_view(s).push((x.0@, tree_view(x.1))),
{
    lemma_entries_view(s);
    lemma_entries_view(s.push(x));
    assert(entries_view(s.push(x)) =~= entries_view(s).push((x.0@, tree_view(x.1))));
}

/// Appending one element views it after the others.
pub proof fn lemma_list_view_push(s: Seq<TomlValue>, x: TomlValue)
    ensures
        list_view(s.push(x)) == list_view(s).push(tree_view(x)),
{
    lemma_list_view(s);
    lemma_list_view(s.push(x));
    assert(list_view(s.push(x)) =~= list_view(s).push(tree_view(x)));
}

/// The value of the first entry named `key`, if any (TOML documents hold
/// each key once).
pub open spec fn lookup(t: Entries, key: Seq<char>) -> Option<TomlView>
    decreases t.len(),
{
    if t.len() == 0 {
        None
    } else if t[0].0 == key {
        Some(t[0].1)
    } else {
        lookup(t.drop_first(), key)
    }
}

/// No two entries of `t` have the same key.
pub open spec fn keys_distinct(t: Entries) -> bool {
    forall|i: int, j: int| 0 <= i < j < t.len() ==> #[trigger] t[i].0 != #[trigger] t[j].0
}

/// Every table in `v`, at any depth, holds each key once.
pub open spec fn keys_unique(v: TomlView) -> bool
    decreases v,
{
    match v {
        TomlView::Table(t) => keys_distinct(t) && forall|i: int| 0 <= i < t.len() ==> keys_unique(#[trigger] t[i].1),
        TomlView::Array(a) => forall|i: int| 0 <= i < a.len() ==> keys_unique(#[trigger] a[i]),
        _ => true,
    }
}

/// What `lookup` finds is the value of an entry with that key.
pub proof fn lemma_lookup_found(t: Entries, key: Seq<char>)
    ensures
        lookup(t, key) matches Some(v) ==> exists|i: int| 0 <= i < t.len() && t[i].0 == key && #[trigger] t[i].1 == v,
    decreases t.len(),
{
    if t.len() > 0 && t[0].0 != key {
        lemma_lookup_found(t.drop_first(), key);
        if let Some(v) = lookup(t, key) {
            let i = choose|i: int| 0 <= i < t.drop_first().len() && t.drop_first()[i].0 == key && #[trigger] t.drop_first()[i].1 == v;
            assert(t[i + 1] == t.drop_first()[i]);
        }
    } else if t.len() > 0 {
        assert(t[0].1 == t[0].1);
    }
}

/// Looking up a key in two tables one after the other: the first that
/// holds it decides.
pub broadcast proof fn lemma_lookup_concat(a: Entries, b: Entries, key: Seq<char>)
    ensures
        #[trigger] lookup(a + b, key) == match lookup(a, key) {
            Some(v) => Some(v),
            None => lookup(b, key),
        },
    decreases a.len(),
{
    if a.len() == 0 {
        assert(a + b =~= b);
    } else {
        lemma_lookup_concat(a.drop_first(), b, key);
        assert((a + b).drop_first() =~= a.drop_first() + b);
        assert((a + b)[0] == a[0]);
    }
}

/// Looking up a key in a table of one entry.
pub broadcast proof fn lemma_lookup_single(k: Seq<char>, v: TomlView, key: Seq<char>)
    ensures
        #[trigger] lookup(seq![(k, v)], key) == if k == key {
            Some(v)
        } else {
            None
        },
{
    let t = seq![(k, v)];
    assert(t.drop_first() =~= Seq::<(Seq<char>, TomlView)>::empty());
    assert(t[0] == (k, v));
    assert(lookup(t.drop_first(), key) is None);
}

/// Looking up a key in an empty table.
pub broadcast proof fn lemma_lookup_empty(key: Seq<char>)
    ensures
        #[trigger] lookup(Seq::<(Seq<char>, TomlView)>::empty(), key) is None,
{
}

proof fn lemma_lookup_at(t: Entries, key: Seq<char>, i: int)
    requires
        0 <= i < t.len(),
        t[i].0 == key,
        forall|k: int| 0 <= k < i ==> (#[trigger] t[k]).0 != key,
    ensures
        lookup(t, key) == Some(t[i].1),
    decreases t.len(),
{
    if i > 0 {
        let rest = t.drop_first();
        assert forall|k: int| 0 <= k < i - 1 implies (#[trigger] rest[k]).0 != key by {
            assert(rest[k] == t[k + 1]);
        }
        lemma_lookup_at(rest, key, i - 1);
    }
}

proof fn lemma_lookup_none(t: Entries, key: Seq<char>)
    requires
        forall|k: int| 0 <= k < t.len() ==> (#[trigger] t[k]).0 != key,
    ensures
        lookup(t, key) is None,
    decreases t.len(),
{
    if t.len() > 0 {
        let rest = t.drop_first();
        assert forall|k: int| 0 <= k < rest.len() implies (#[trigger] rest[k]).0 != key by {
            assert(rest[k] == t[k + 1]);
        }
        lemma_lookup_none(rest, key);
    }
}

/// The position of the first entry named `key`.
pub fn find_key(entries: &Vec<(String, TomlValue)>, key: &str) -> (r: Option<usize>)
    ensures
        match r {
            None => lookup(entries_view(entries@), key@) is None,
            Some(i) => i < entries@.len() && lookup(entries_view(entries@), key@) == Some(
                tree_view(entries@[i as int].1),
            ),
        },
{
    proof {
        lemma_entries_view(entries@);
    }
    let k = String::from_str(key);
    let n = entries.len();
    let mut i: usize = 0;
    while i < n
        invariant
            n == entries@.len(),
            i <= n,
            k@ == key@,
            entries_view(entries@).len() == entries@.len(),
            forall|j: int| 0 <= j < entries@.len() ==> #[trigger] entries_view(entries@)[j] == (
                entries@[j].0@,
                tree_view(entries@[j].1),
            ),
            forall|j: int| 0 <= j < i ==> (#[trigger] entries_view(entries@)[j]).0 != key@,
        decreases n - i,
    {
        if entries[i].0 == k {
            proof {
                lemma_lookup_at(entries_view(entries@), key@, i as int);
            }
            return Some(i);
        }
        i = i + 1;
    }
    proof {
        lemma_lookup_none(entries_view(entries@), key@);
    }
    None
}

/// The tree that the `toml` crate parses `text` into, or `None` where it
/// reports an error.
pub uninterp spec fn toml_document(text: Seq<char>) -> Option<TomlView>;

/// The text that the `toml` crate's pretty printer renders the document
/// `tree` as, or `None` where it reports an error.
pub uninterp spec fn toml_rendered(tree: TomlView) -> Option<Seq<char>>;

/// Converts a `toml::Value` one variant for one: strings, integers,
/// booleans, arrays and tables keep their content; floats and datetimes
/// become `Other`. Nothing is stated of it; `parse_document` names the
/// whole result.
#[verifier::external_body]
fn tree_from_toml(v: toml::Value) -> TomlValue {
    match v {
        toml::Value::String(s) => TomlValue::Str(s),
        toml::Value::Integer(i) => TomlValue::Int(i),
        toml::Value::Boolean(b) => TomlValue::Bool(b),
        toml::Value::Array(a) => TomlValue::Array(a.into_iter().map(tree_from_toml).collect()),
        toml::Value::Table(t) => TomlValue::Table(t.into_iter().map(|(k, v)| (k, tree_from_toml(v))).collect()),
        toml::Value::Float(_) => TomlValue::Other,
        toml::Value::Datetime(_) => TomlValue::Other,
    }
}

/// Converts a tree into a `toml::Value` one variant for one (`Other`, which
/// no encoder of this crate produces, becomes an empty array). Nothing is
/// stated of it; `render_document` names the whole result.
#[verifier::external_body]
fn tree_to_toml(v: &TomlValue) -> toml::Value {
    match v {
        TomlValue::Str(s) => toml::Value::String(s.clone()),
        TomlValue::Int(i) => toml::Value::Integer(*i),
        TomlValue::Bool(b) => toml::Value::Boolean(*b),
        TomlValue::Array(a) => toml::Value::Array(a.iter().map(tree_to_toml).collect()),
        TomlValue::Table(t) => toml::Value::Table(t.iter().map(|(k, v)| (k.clone(), tree_to_toml(v))).collect()),
        TomlValue::Other => toml::Value::Array(Vec::new()),
    }
}

/// `toml::Table::from_str` (the `toml` crate's document parser). The tree
/// it gives is named by `toml_document`; it is always a table, and every
/// table in it holds each key once (a `toml::Table` is a map).
#[verifier::external_body]
pub fn parse_document(text: &str) -> (r: Result<TomlValue, toml::de::Error>)
    ensures
        r is Ok <==> toml_document(text@) is Some,
        r matches Ok(t) ==> toml_document(text@) == Some(t@) && t is Table,
        r matches Ok(t) ==> keys_unique(t@),
{
    match text.parse::<toml::Table>() {
        Ok(t) => Ok(tree_from_toml(toml::Value::Table(t))),
        Err(e) => Err(e),
    }
}

/// The error that `toml::de::Error`'s `serde::de::Error::custom` builds
/// from the message `msg`.
pub uninterp spec fn toml_custom_error(msg: Seq<char>) -> toml::de::Error;

/// `serde::de::Error::custom` for `toml::de::Error`: the error that carries
/// `msg` as its message, with no input, key or position. Its value is named
/// by `toml_custom_error`.
#[verifier::external_body]
pub fn custom_toml_error(msg: &str) -> (r: toml::de::Error)
    ensures
        r == toml_custom_error(msg@),
{
    serde::de::Error::custom(msg)
}

/// `toml::to_string_pretty` on a document. The text is named by
/// `toml_rendered`; the error is carried as its message.
#[verifier::external_body]
pub fn render_document(tree: &TomlValue) -> (r: Result<String, String>)
    ensures
        r is Ok <==> toml_rendered(tree@) is Some,
        r matches Ok(s) ==> toml_rendered(tree@) == Some(s@),
{
    toml::to_string_pretty(&tree_to_toml(tree)).map_err(|e| e.to_string())
}

} // verus!
