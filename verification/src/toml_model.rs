//! A TOML document as plain values: what the manifest logic reads of it.
//! Floats and datetimes are kept only as their kind; nothing reads them.
use vstd::prelude::*;
use crate::text::{chars_of, range_equals};

verus! {

/// `toml::Value`, a parsed TOML value; opaque here, converted into
/// `TomlValue` as soon as it is parsed.
#[verifier::external_type_specification]
#[verifier::external_body]
pub struct ExTomlValue(toml::Value);

/// A TOML value.
#[derive(Debug)]
pub enum TomlValue {
    String(String),
    Integer(i64),
    Boolean(bool),
    Float,
    Datetime,
    Array(Vec<TomlValue>),
    /// The key/value pairs of a table, each key once.
    Table(Vec<(String, TomlValue)>),
}

impl TomlValue {
    /// Every table holds each key once, at every depth.
    pub open spec fn well_formed(self) -> bool
        decreases self,
    {
        match self {
            TomlValue::Array(items) => forall|i: int|
                0 <= i < items@.len() ==> (#[trigger] items@[i]).well_formed(),
            TomlValue::Table(entries) => {
                &&& forall|i: int, j: int|
                    0 <= i < j < entries@.len() ==> (#[trigger] entries@[i]).0@ != (
                    #[trigger] entries@[j]).0@
                &&& forall|i: int|
                    0 <= i < entries@.len() ==> (#[trigger] entries@[i]).1.well_formed()
            },
            _ => true,
        }
    }
}

/// What `toml::from_str` parses a text into, as a `TomlValue`; `None`
/// when the text is not a TOML document.
pub uninterp spec fn toml_parse(text: Seq<char>) -> Option<TomlValue>;

/// One-for-one conversion of a parsed `toml::Value` (floats and datetimes
/// kept only as their kind, table entries in the map's order).
#[verifier::external_body]
fn model_of(v: toml::Value) -> TomlValue {
    match v {
        toml::Value::String(s) => TomlValue::String(s),
        toml::Value::Integer(i) => TomlValue::Integer(i),
        toml::Value::Float(_) => TomlValue::Float,
        toml::Value::Boolean(b) => TomlValue::Boolean(b),
        toml::Value::Datetime(_) => TomlValue::Datetime,
        toml::Value::Array(items) => TomlValue::Array(items.into_iter().map(model_of).collect()),
        toml::Value::Table(t) => TomlValue::Table(t.into_iter().map(|(k, v)| (k, model_of(v))).collect()),
    }
}

/// `toml::from_str::<toml::Value>`: claims that the result depends on the
/// text alone (named by `toml_parse`) and that each of its tables holds a
/// key once, as the crate's `toml::map::Map` (a `BTreeMap`, or an `IndexMap`
/// with `preserve_order`) does.
#[verifier::external_body]
pub fn parse_toml(text: &str) -> (r: Option<TomlValue>)
    ensures
        r == toml_parse(text@),
        r matches Some(v) ==> v.well_formed(),
{
    match toml::from_str::<toml::Value>(text) {
        Ok(v) => Some(model_of(v)),
        Err(_) => None,
    }
}

/// The value of the first entry with the given key.
pub open spec fn entry_lookup(entries: Seq<(String, TomlValue)>, key: Seq<char>) -> Option<
    TomlValue,
>
    decreases entries.len(),
{
    if entries.len() == 0 {
        None
    } else if entries[0].0@ == key {
        Some(entries[0].1)
    } else {
        entry_lookup(entries.drop_first(), key)
    }
}

impl TomlValue {
    /// The value under `key`, when this is a table that has it.
    pub open spec fn spec_get(self, key: Seq<char>) -> Option<TomlValue> {
        match self {
            TomlValue::Table(entries) => entry_lookup(entries@, key),
            _ => None,
        }
    }

    /// Index into a table by key (`toml::Value::get` with a string key).
    pub fn get(&self, key: &str) -> (r: Option<&TomlValue>)
        ensures
            match r {
                Some(v) => self.spec_get(key@) == Some(*v),
                None => self.spec_get(key@) is None,
            },
    {
        match self {
            TomlValue::Table(entries) => {
                let k = chars_of(key);
                let n = entries.len();
                let mut i: usize = 0;
                assert(entries@.skip(0) =~= entries@);
                while i < n
                    invariant
                        n == entries@.len(),
                        i <= n,
                        k@ == key@,
                        self.spec_get(key@) == entry_lookup(entries@, key@),
                        entry_lookup(entries@, key@) == entry_lookup(entries@.skip(i as int), key@),
                    decreases n - i,
                {
                    let ek = chars_of(entries[i].0.as_str());
                    assert(entries@.skip(i as int)[0] == entries@[i as int]);
                    if range_equals(&ek, 0, ek.len(), &k) {
                        assert(ek@.subrange(0, ek@.len() as int) =~= ek@);
                        let r = &entries[i].1;
                        proof {
                            let t = entries@.skip(i as int);
                            assert(t[0].0@ == key@);
                            assert(entry_lookup(t, key@) == Some(t[0].1));
                            assert(t[0].1 == *r);
                        }
                        return Some(r);
                    }
                    assert(ek@.subrange(0, ek@.len() as int) =~= ek@);
                    assert(entries@.skip(i as int).drop_first() =~= entries@.skip(i + 1));
                    i = i + 1;
                }
                None
            },
            _ => None,
        }
    }

    /// The string, when this is one.
    pub open spec fn spec_as_str(self) -> Option<Seq<char>> {
        match self {
            TomlValue::String(s) => Some(s@),
            _ => None,
        }
    }

    /// The string, when this is one (`toml::Value::as_str`).
    pub fn as_str(&self) -> (r: Option<&String>)
        ensures
            match r {
                Some(s) => self.spec_as_str() == Some(s@),
                None => self.spec_as_str() is None,
            },
    {
        match self {
            TomlValue::String(s) => Some(s),
            _ => None,
        }
    }

    /// The boolean, when this is one.
    pub open spec fn spec_as_bool(self) -> Option<bool> {
        match self {
            TomlValue::Boolean(b) => Some(b),
            _ => None,
        }
    }

    /// The boolean, when this is one (`toml::Value::as_bool`).
    pub fn as_bool(&self) -> (r: Option<bool>)
        ensures
            r == self.spec_as_bool(),
    {
        match self {
            TomlValue::Boolean(b) => Some(*b),
            _ => None,
        }
    }

    /// The integer, when this is one.
    pub open spec fn spec_as_integer(self) -> Option<i64> {
        match self {
            TomlValue::Integer(i) => Some(i),
            _ => None,
        }
    }

    /// The integer, when this is one (`toml::Value::as_integer`).
    pub fn as_integer(&self) -> (r: Option<i64>)
        ensures
            r == self.spec_as_integer(),
    {
        match self {
            TomlValue::Integer(i) => Some(*i),
            _ => None,
        }
    }

    /// The items, when this is an array.
    pub open spec fn spec_as_array(self) -> Option<Seq<TomlValue>> {
        match self {
            TomlValue::Array(items) => Some(items@),
            _ => None,
        }
    }

    /// The items, when this is an array (`toml::Value::as_array`).
    pub fn as_array(&self) -> (r: Option<&Vec<TomlValue>>)
        ensures
            match r {
                Some(a) => self.spec_as_array() == Some(a@),
                None => self.spec_as_array() is None,
            },
    {
        match self {
            TomlValue::Array(items) => Some(items),
            _ => None,
        }
    }
}

/// The value reached from `v` by the keys of `path`, one table at a time.
pub open spec fn lookup_path(v: TomlValue, path: Seq<Seq<char>>) -> Option<TomlValue>
    decreases path.len(),
{
    if path.len() == 0 {
        Some(v)
    } else {
        match v.spec_get(path[0]) {
            Some(child) => lookup_path(child, path.drop_first()),
            None => None,
        }
    }
}

/// The string at an optional value.
pub open spec fn opt_str(v: Option<TomlValue>) -> Option<Seq<char>> {
    match v {
        Some(x) => x.spec_as_str(),
        None => None,
    }
}

/// The boolean at an optional value.
pub open spec fn opt_bool(v: Option<TomlValue>) -> Option<bool> {
    match v {
        Some(x) => x.spec_as_bool(),
        None => None,
    }
}

/// The integer at an optional value.
pub open spec fn opt_integer(v: Option<TomlValue>) -> Option<i64> {
    match v {
        Some(x) => x.spec_as_integer(),
        None => None,
    }
}

/// The items at an optional value.
pub open spec fn opt_array(v: Option<TomlValue>) -> Option<Seq<TomlValue>> {
    match v {
        Some(x) => x.spec_as_array(),
        None => None,
    }
}

/// The `[package.metadata.wasi-tool]` table of a cargo manifest.
pub open spec fn wasi_tool_section(manifest: TomlValue) -> Option<TomlValue> {
    lookup_path(manifest, seq!["package"@, "metadata"@, "wasi-tool"@])
}

/// Looks up `[package.metadata.wasi-tool]` in a cargo manifest.
pub fn get_wasi_tool_section(manifest: &TomlValue) -> (r: Option<&TomlValue>)
    ensures
        match r {
            Some(v) => wasi_tool_section(*manifest) == Some(*v),
            None => wasi_tool_section(*manifest) is None,
        },
{
    reveal_with_fuel(lookup_path, 4);
    let ghost path = seq!["package"@, "metadata"@, "wasi-tool"@];
    assert(path.drop_first() =~= seq!["metadata"@, "wasi-tool"@]);
    assert(path.drop_first().drop_first() =~= seq!["wasi-tool"@]);
    assert(path.drop_first().drop_first().drop_first() =~= Seq::<Seq<char>>::empty());
    let p = manifest.get("package")?;
    let m = p.get("metadata")?;
    let w = m.get("wasi-tool")?;
    Some(w)
}

} // verus!
