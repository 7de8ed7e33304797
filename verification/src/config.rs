//! The `[tool.thorn]` section of `pyproject.toml`: excludes, inclusions and
//! globally ignored rule codes. Framework-specific configuration is read by
//! each plugin.

use vstd::prelude::*;
use crate::model::strs_m;
use crate::graph::first_index;

verus! {

/// A TOML value as the configuration reads it: strings, arrays and tables,
/// every other kind of value standing as `Other`. A table's entries are in
/// key order.
#[derive(Debug)]
pub enum TomlValue {
    Str(String),
    Array(Vec<TomlValue>),
    Table(Vec<(String, TomlValue)>),
    Other,
}

/// The document that the `toml` crate parses from a text (`toml::from_str`
/// into a `toml::Value`); `None` where the text is no valid TOML document.
pub uninterp spec fn toml_document(content: Seq<char>) -> Option<TomlValue>;

/// Declares `toml::Value` so that it can stand in signatures; nothing is
/// claimed of what a value holds.
#[verifier::external_type_specification]
#[verifier::external_body]
pub struct ExTomlValue(toml::Value);

/// Copies a `toml::Value` into a `TomlValue`: strings, arrays and tables
/// (entries in the table's key order) one for one, every other value as `Other`.
#[verifier::external_body]
fn toml_value_of(v: &toml::Value) -> TomlValue {
    match v {
        toml::Value::String(s) => TomlValue::Str(s.clone()),
        toml::Value::Array(items) => TomlValue::Array(items.iter().map(toml_value_of).collect()),
        toml::Value::Table(t) => TomlValue::Table(t.iter().map(|(k, x)| (k.clone(), toml_value_of(x))).collect()),
        _ => TomlValue::Other,
    }
}

/// Parses a TOML document with the `toml` crate (`str::parse::<toml::Value>`).
/// The contract claims only that the result is a function of the text
/// (`toml_document`); what the document holds is left to the crate.
#[verifier::external_body]
fn parse_toml(content: &str) -> (r: Option<TomlValue>)
    ensures
        r == toml_document(content@),
{
    match content.parse::<toml::Value>() {
        Ok(v) => Some(toml_value_of(&v)),
        Err(_) => None,
    }
}

/// An entry whose key is `key`.
pub open spec fn key_is(key: Seq<char>) -> spec_fn((String, TomlValue)) -> bool {
    |e: (String, TomlValue)| e.0@ == key
}

/// The value under `key` in a table; `None` for a missing key or a value that
/// is no table.
pub open spec fn table_get(v: TomlValue, key: Seq<char>) -> Option<TomlValue> {
    match v {
        TomlValue::Table(entries) => match first_index(entries@, key_is(key)) {
            Some(i) => if 0 <= i < entries@.len() { Some(entries@[i].1) } else { None },
            None => None,
        },
        _ => None,
    }
}

/// The strings among the items of an array, in order; other items are skipped.
pub open spec fn array_strings(items: Seq<TomlValue>) -> Seq<Seq<char>>
    decreases items.len(),
{
    if items.len() == 0 {
        Seq::empty()
    } else {
        let prev = array_strings(items.drop_last());
        match items.last() {
            TomlValue::Str(s) => prev.push(s@),
            _ => prev,
        }
    }
}

/// The list of strings under `tool.thorn.<key>`: empty where the path does not
/// lead to an array.
pub open spec fn thorn_list(doc: TomlValue, key: Seq<char>) -> Seq<Seq<char>> {
    match table_get(doc, seq!['t', 'o', 'o', 'l']) {
        Some(tool) => match table_get(tool, seq!['t', 'h', 'o', 'r', 'n']) {
            Some(thorn) => match table_get(thorn, key) {
                Some(TomlValue::Array(items)) => array_strings(items@),
                _ => Seq::empty(),
            },
            None => Seq::empty(),
        },
        None => Seq::empty(),
    }
}

pub open spec fn exclude_key() -> Seq<char> { seq!['e', 'x', 'c', 'l', 'u', 'd', 'e'] }

pub open spec fn include_key() -> Seq<char> { seq!['i', 'n', 'c', 'l', 'u', 'd', 'e'] }

pub open spec fn ignore_key() -> Seq<char> { seq!['i', 'g', 'n', 'o', 'r', 'e'] }

/// Looks up `key` in a table value.
fn lookup<'a>(v: &'a TomlValue, key: &str) -> (r: Option<&'a TomlValue>)
    ensures
        match r {
            Some(x) => table_get(*v, key@) == Some(*x),
            None => table_get(*v, key@) is None,
        },
{
    match v {
        TomlValue::Table(entries) => {
            let ghost p = key_is(key@);
            let mut i: usize = 0;
            while i < entries.len()
                invariant
                    p == key_is(key@),
                    *v is Table,
                    v->Table_0 == *entries,
                    i <= entries@.len(),
                    forall|j: int| 0 <= j < i ==> !p(#[trigger] entries@[j]),
                decreases entries@.len() - i,
            {
                if crate::text::str_eq(entries[i].0.as_str(), key) {
                    proof {
                        crate::graph::lemma_first_index_is(entries@, p, i as int);
                        assert(first_index(entries@, key_is(key@)) == Some(i as int));
                        assert(table_get(*v, key@) == Some(entries@[i as int].1));
                    }
                    return Some(&entries[i].1);
                }
                i = i + 1;
            }
            proof { crate::graph::lemma_first_index_is(entries@, p, entries@.len() as int); }
            None
        },
        _ => None,
    }
}

/// The strings of an array value, or `None` for a value that is no array.
fn strings_of(v: &TomlValue) -> (r: Option<Vec<String>>)
    ensures
        match *v {
            TomlValue::Array(items) => r is Some && strs_m(r->0@) == array_strings(items@),
            _ => r is None,
        },
{
    match v {
        TomlValue::Array(items) => {
            let mut out: Vec<String> = Vec::new();
            let mut i: usize = 0;
            assert(strs_m(out@) =~= Seq::<Seq<char>>::empty());
            while i < items.len()
                invariant
                    i <= items@.len(),
                    strs_m(out@) == array_strings(items@.take(i as int)),
                decreases items@.len() - i,
            {
                assert(items@.take(i + 1).drop_last() =~= items@.take(i as int));
                match &items[i] {
                    TomlValue::Str(s) => {
                        let t = s.clone();
                        assert(strs_m(out@.push(t)) =~= strs_m(out@).push(t@));
                        out.push(t);
                    },
                    _ => {},
                }
                i = i + 1;
            }
            assert(items@.take(items@.len() as int) =~= items@);
            Some(out)
        },
        _ => None,
    }
}

/// Thorn's configuration from `[tool.thorn]` in `pyproject.toml`.
#[derive(Debug)]
pub struct ThornConfig {
    /// Paths and patterns to exclude from linting.
    pub exclude: Vec<String>,
    /// Paths and patterns to lint even where an exclude matches.
    pub includes: Vec<String>,
    /// Rule codes ignored everywhere (e.g. `["DJ001", "DJ026"]`).
    pub ignore: Vec<String>,
}

impl Default for ThornConfig {
    fn default() -> (r: ThornConfig)
        ensures
            r.exclude@.len() == 0,
            r.includes@.len() == 0,
            r.ignore@.len() == 0,
    {
        ThornConfig { exclude: Vec::new(), includes: Vec::new(), ignore: Vec::new() }
    }
}

/// The list under `tool.thorn.<key>`, or `None` where it is no array.
fn thorn_strings(doc: &TomlValue, key: &str) -> (r: Option<Vec<String>>)
    ensures
        match r {
            Some(v) => strs_m(v@) == thorn_list(*doc, key@),
            None => thorn_list(*doc, key@) == Seq::<Seq<char>>::empty(),
        },
{
    proof {
        reveal_strlit("tool");
        reveal_strlit("thorn");
        assert("tool"@ =~= seq!['t', 'o', 'o', 'l']);
        assert("thorn"@ =~= seq!['t', 'h', 'o', 'r', 'n']);
    }
    match lookup(doc, "tool") {
        Some(tool) => match lookup(tool, "thorn") {
            Some(thorn) => match lookup(thorn, key) {
                Some(v) => strings_of(v),
                None => None,
            },
            None => None,
        },
        None => None,
    }
}

fn list_or_empty(v: Option<Vec<String>>) -> (r: Vec<String>)
    ensures
        match v {
            Some(x) => r == x,
            None => r@.len() == 0,
        },
{
    match v {
        Some(x) => x,
        None => Vec::new(),
    }
}

impl ThornConfig {
    /// The configuration that a parsed `pyproject.toml` document gives: each
    /// list is the strings of the array under `tool.thorn`, empty where there
    /// is none.
    pub fn from_document(doc: &TomlValue) -> (r: ThornConfig)
        ensures
            strs_m(r.exclude@) == thorn_list(*doc, exclude_key()),
            strs_m(r.includes@) == thorn_list(*doc, include_key()),
            strs_m(r.ignore@) == thorn_list(*doc, ignore_key()),
    {
        proof {
            reveal_strlit("exclude");
            reveal_strlit("ignore");
            assert("exclude"@ =~= exclude_key());
            assert("ignore"@ =~= ignore_key());
        }
        let exclude = list_or_empty(thorn_strings(doc, "exclude"));
        let inclusion_key = crate::text::string_of(&['i', 'n', 'c', 'l', 'u', 'd', 'e']);
        assert(inclusion_key@ =~= include_key());
        let includes = list_or_empty(thorn_strings(doc, inclusion_key.as_str()));
        let ignore = list_or_empty(thorn_strings(doc, "ignore"));
        proof {
            assert(strs_m(Seq::<String>::empty()) =~= Seq::<Seq<char>>::empty());
            if exclude@.len() == 0 { assert(strs_m(exclude@) =~= Seq::<Seq<char>>::empty()); }
            if includes@.len() == 0 { assert(strs_m(includes@) =~= Seq::<Seq<char>>::empty()); }
            if ignore@.len() == 0 { assert(strs_m(ignore@) =~= Seq::<Seq<char>>::empty()); }
        }
        ThornConfig { exclude, includes, ignore }
    }

    /// The configuration in the text of a `pyproject.toml`; the default (all
    /// lists empty) where the text is no valid TOML.
    pub fn from_pyproject_text(content: &str) -> (r: ThornConfig)
        ensures
            match toml_document(content@) {
                Some(doc) => strs_m(r.exclude@) == thorn_list(doc, exclude_key())
                    && strs_m(r.includes@) == thorn_list(doc, include_key())
                    && strs_m(r.ignore@) == thorn_list(doc, ignore_key()),
                None => r.exclude@.len() == 0 && r.includes@.len() == 0 && r.ignore@.len() == 0,
            },
    {
        match parse_toml(content) {
            Some(doc) => ThornConfig::from_document(&doc),
            None => ThornConfig::default(),
        }
    }
}

} // verus!
