//! Writing discovered schemas into a `.cmtkrc` configuration: the existing
//! document is kept, and each schema is set under
//! `function_schemas.<name>` as its three keyword lists.
use crate::pack::strs;
use crate::schema::{FunctionSchema, SchemaRegistry, key_index, key_value, lemma_key_index_bounds};
use crate::text::owned;
use vstd::prelude::*;

verus! {

#[verifier::external_type_specification]
#[verifier::external_body]
pub struct ExTomlValue(toml::Value);

// ---------------------------------------------------------------------------
// The document model
// ---------------------------------------------------------------------------
/// A TOML value as plain values. A float and a datetime are held by the
/// text that TOML writes for them; a table by its entries (whose order is
/// that of their keys).
pub enum TomlV {
    Str(Seq<char>),
    Int(int),
    Bool(bool),
    Float(Seq<char>),
    Datetime(Seq<char>),
    Array(Seq<TomlV>),
    Table(Map<Seq<char>, TomlV>),
}

/// What a `toml::Value` holds.
pub uninterp spec fn toml_doc(v: toml::Value) -> TomlV;

/// The document that `toml::from_str` reads from a text, if it reads one.
pub uninterp spec fn toml_parsed(s: Seq<char>) -> Option<TomlV>;

/// The text that `toml::to_string_pretty` writes for a document, if it
/// writes one.
pub uninterp spec fn toml_printed(d: TomlV) -> Option<Seq<char>>;

// ---------------------------------------------------------------------------
// Calls into `toml`
// ---------------------------------------------------------------------------
/// Calls `toml::from_str` for a `toml::Value`: the document it reads is
/// named `toml_parsed` of the text, and `None` stands for its error.
#[verifier::external_body]
fn parse_toml(s: &str) -> (r: Option<toml::Value>)
    ensures
        match r {
            Some(v) => toml_parsed(s@) == Some(toml_doc(v)),
            None => toml_parsed(s@) is None,
        },
{
    toml::from_str::<toml::Value>(s).ok()
}

/// Calls `toml::to_string_pretty` on a value: the text it writes is named
/// `toml_printed` of what the value holds, and `None` stands for its error.
#[verifier::external_body]
fn print_toml(v: &toml::Value) -> (r: Option<String>)
    ensures
        match r {
            Some(t) => toml_printed(toml_doc(*v)) == Some(t@),
            None => toml_printed(toml_doc(*v)) is None,
        },
{
    toml::to_string_pretty(v).ok()
}

/// Builds `toml::Value::Table(toml::map::Map::new())`: an empty table.
#[verifier::external_body]
fn empty_table() -> (r: toml::Value)
    ensures
        toml_doc(r) == TomlV::Table(Map::empty()),
{
    toml::Value::Table(toml::map::Map::new())
}

/// Calls `toml::Value::is_table`: whether the value is a table.
#[verifier::external_body]
fn is_table(v: &toml::Value) -> (r: bool)
    ensures
        r == (toml_doc(*v) is Table),
{
    v.is_table()
}

/// Calls `toml::Value::get` with a key on a table, and clones the entry it
/// finds: the value under `key`, if the table has one.
#[verifier::external_body]
fn table_get(v: &toml::Value, key: &str) -> (r: Option<toml::Value>)
    requires
        toml_doc(*v) is Table,
    ensures
        r is Some == toml_doc(*v)->Table_0.dom().contains(key@),
        r matches Some(x) ==> toml_doc(x) == toml_doc(*v)->Table_0[key@],
{
    v.get(key).cloned()
}

/// Calls `toml::map::Map::insert` on the table that the value is: the entry
/// under `key` becomes `x`.
#[verifier::external_body]
fn table_insert(v: &mut toml::Value, key: String, x: toml::Value)
    requires
        toml_doc(*old(v)) is Table,
    ensures
        toml_doc(*final(v)) == TomlV::Table(toml_doc(*old(v))->Table_0.insert(key@, toml_doc(x))),
{
    if let Some(t) = v.as_table_mut() {
        t.insert(key, x);
    }
}

/// Builds a `toml::Value::Array` of `toml::Value::String`s, one per item.
#[verifier::external_body]
fn string_array(items: &Vec<String>) -> (r: toml::Value)
    ensures
        toml_doc(r) == str_array(strs(items@)),
{
    toml::Value::Array(items.iter().map(|s| toml::Value::String(s.clone())).collect())
}

// ---------------------------------------------------------------------------
// Merging schemas into a configuration
// ---------------------------------------------------------------------------
/// Why a configuration cannot take the schemas.
#[derive(Debug, Clone, Copy, PartialEq, Eq, Structural)]
pub enum MergeError {
    /// The document is not a table.
    RootNotTable,
    /// `function_schemas` is there and is not a table.
    SchemasNotTable,
    /// TOML cannot write the merged document.
    Unprintable,
}

/// An array of strings.
pub open spec fn str_array(v: Seq<Seq<char>>) -> TomlV {
    TomlV::Array(v.map_values(|s: Seq<char>| TomlV::Str(s)))
}

/// The table written for a schema: its options, one-value and multi-value
/// keywords.
pub open spec fn schema_table(s: FunctionSchema) -> TomlV {
    TomlV::Table(
        Map::empty().insert("options"@, str_array(strs(s.options@))).insert(
            "one_value_keywords"@,
            str_array(strs(s.one_value_keywords@)),
        ).insert("multi_value_keywords"@, str_array(strs(s.multi_value_keywords@))),
    )
}

/// The table `t` with the schema of each of `fs` set under its name, in
/// order.
pub open spec fn with_schemas(t: Map<Seq<char>, TomlV>, fs: Seq<(String, FunctionSchema)>) -> Map<
    Seq<char>,
    TomlV,
>
    decreases fs.len(),
{
    if fs.len() == 0 {
        t
    } else {
        with_schemas(t, fs.drop_last()).insert(fs.last().0@, schema_table(fs.last().1))
    }
}

/// The configuration `existing` (an empty table where it does not parse)
/// with the schemas of `fs` under `function_schemas`; every other entry is
/// kept.
pub open spec fn merged_config(existing: Seq<char>, fs: Seq<(String, FunctionSchema)>) -> Result<TomlV, MergeError> {
    let doc = match toml_parsed(existing) {
        Some(d) => d,
        None => TomlV::Table(Map::empty()),
    };
    match doc {
        TomlV::Table(root) => {
            let current = if root.dom().contains("function_schemas"@) {
                root["function_schemas"@]
            } else {
                TomlV::Table(Map::empty())
            };
            match current {
                TomlV::Table(ft) => Ok(
                    TomlV::Table(
                        root.insert("function_schemas"@, TomlV::Table(with_schemas(ft, fs))),
                    ),
                ),
                _ => Err(MergeError::SchemasNotTable),
            }
        },
        _ => Err(MergeError::RootNotTable),
    }
}

/// The text of the configuration `existing` with the schemas of `registry`
/// written under `function_schemas` (see `merged_config`), as TOML writes
/// it.
pub fn merge_schemas_into_config(existing: &str, registry: &SchemaRegistry) -> (r: Result<
    String,
    MergeError,
>)
    ensures
        match merged_config(existing@, registry.functions@) {
            Err(e) => r == Err::<String, MergeError>(e),
            Ok(d) => match toml_printed(d) {
                Some(t) => r matches Ok(x) && x@ == t,
                None => r == Err::<String, MergeError>(MergeError::Unprintable),
            },
        },
{
    let mut doc = match parse_toml(existing) {
        Some(v) => v,
        None => empty_table(),
    };
    if !is_table(&doc) {
        return Err(MergeError::RootNotTable);
    }
    let mut fs = match table_get(&doc, "function_schemas") {
        Some(v) => v,
        None => empty_table(),
    };
    if !is_table(&fs) {
        return Err(MergeError::SchemasNotTable);
    }
    let ghost ft0 = toml_doc(fs)->Table_0;
    let mut i: usize = 0;
    while i < registry.functions.len()
        invariant
            i <= registry.functions@.len(),
            toml_doc(fs) == TomlV::Table(with_schemas(ft0, registry.functions@.take(i as int))),
        decreases registry.functions.len() - i,
    {
        let name = &registry.functions[i].0;
        let s = &registry.functions[i].1;
        let mut entry = empty_table();
        table_insert(&mut entry, owned("options"), string_array(&s.options));
        table_insert(&mut entry, owned("one_value_keywords"), string_array(&s.one_value_keywords));
        table_insert(
            &mut entry,
            owned("multi_value_keywords"),
            string_array(&s.multi_value_keywords),
        );
        assert(toml_doc(entry) == schema_table(*s));
        table_insert(&mut fs, name.clone(), entry);
        assert(registry.functions@.take(i + 1).drop_last() =~= registry.functions@.take(i as int));
        i += 1;
    }
    assert(registry.functions@.take(i as int) =~= registry.functions@);
    table_insert(&mut doc, owned("function_schemas"), fs);
    match print_toml(&doc) {
        Some(t) => Ok(t),
        None => Err(MergeError::Unprintable),
    }
}

/// What `with_schemas` gives under one name: the schema that `fs` decides
/// for it (its last entry), whatever `t` held there; else what `t` held.
proof fn lemma_with_schemas_at(t: Map<Seq<char>, TomlV>, fs: Seq<(String, FunctionSchema)>, k: Seq<char>)
    ensures
        match key_value(fs, k) {
            Some(sch) => with_schemas(t, fs).dom().contains(k) && with_schemas(t, fs)[k] == schema_table(
                sch,
            ),
            None => with_schemas(t, fs).dom().contains(k) == t.dom().contains(k) && (t.dom().contains(k)
                ==> with_schemas(t, fs)[k] == t[k]),
        },
    decreases fs.len(),
{
    if fs.len() > 0 {
        let w = fs.drop_last();
        lemma_with_schemas_at(t, w, k);
        lemma_key_index_bounds(w, k);
        if fs.last().0@ != k {
            if let Some(j) = key_index(w, k) {
                assert(fs[j] == w[j]);
            }
        }
    }
}

/// The document `existing` reads as (an empty table where it does not parse).
pub open spec fn parsed_or_empty(existing: Seq<char>) -> TomlV {
    match toml_parsed(existing) {
        Some(d) => d,
        None => TomlV::Table(Map::empty()),
    }
}

/// Writing schemas into a configuration: when it succeeds, every entry of
/// the document other than `function_schemas` is what the existing text
/// held; under `function_schemas`, every name of the registry holds that
/// schema's three keyword lists (its last entry wins), whatever the text
/// held there, and every other name holds what the text held (if anything).
pub proof fn law_merged_config_sets_schemas(existing: Seq<char>, fs: Seq<(String, FunctionSchema)>)
    ensures
        merged_config(existing, fs) matches Ok(d) ==> {
            &&& parsed_or_empty(existing) is Table
            &&& d is Table
            &&& d->Table_0.dom().contains("function_schemas"@)
            &&& d->Table_0["function_schemas"@] is Table
            &&& forall|k: Seq<char>|
                k != "function_schemas"@ ==> (#[trigger] d->Table_0.dom().contains(k)
                    == parsed_or_empty(existing)->Table_0.dom().contains(k) && (d->Table_0.dom().contains(
                    k,
                ) ==> d->Table_0[k] == parsed_or_empty(existing)->Table_0[k]))
            &&& forall|k: Seq<char>|
                #[trigger] key_value(fs, k) matches Some(sch) ==> d->Table_0["function_schemas"@]->Table_0.dom().contains(
                    k,
                ) && d->Table_0["function_schemas"@]->Table_0[k] == schema_table(sch)
            &&& forall|k: Seq<char>|
                key_value(fs, k) is None ==> (#[trigger] d->Table_0["function_schemas"@]->Table_0.dom().contains(k)
                    == (parsed_or_empty(existing)->Table_0.dom().contains("function_schemas"@)
                    && parsed_or_empty(existing)->Table_0["function_schemas"@]->Table_0.dom().contains(k)))
                    && (d->Table_0["function_schemas"@]->Table_0.dom().contains(k)
                    ==> d->Table_0["function_schemas"@]->Table_0[k] == parsed_or_empty(
                    existing,
                )->Table_0["function_schemas"@]->Table_0[k])
        },
{
    let doc = parsed_or_empty(existing);
    if let Ok(d) = merged_config(existing, fs) {
        let root = doc->Table_0;
        let current = if root.dom().contains("function_schemas"@) {
            root["function_schemas"@]
        } else {
            TomlV::Table(Map::empty())
        };
        let ft = current->Table_0;
        assert forall|k: Seq<char>| #[trigger] key_value(fs, k) is Some implies d->Table_0["function_schemas"@]->Table_0.dom().contains(
            k,
        ) && d->Table_0["function_schemas"@]->Table_0[k] == schema_table(key_value(fs, k)->0) by {
            lemma_with_schemas_at(ft, fs, k);
        }
        assert forall|k: Seq<char>| key_value(fs, k) is None implies (#[trigger] d->Table_0["function_schemas"@]->Table_0.dom().contains(k)
            == (root.dom().contains("function_schemas"@) && root["function_schemas"@]->Table_0.dom().contains(k)))
            && (d->Table_0["function_schemas"@]->Table_0.dom().contains(k)
            ==> d->Table_0["function_schemas"@]->Table_0[k] == root["function_schemas"@]->Table_0[k]) by {
            lemma_with_schemas_at(ft, fs, k);
        }
    }
}

// ---------------------------------------------------------------------------
// The `[tool.cmtk]` table of `pyproject.toml`
// ---------------------------------------------------------------------------
/// The value under `key` of a table, when `d` is a table that has it.
pub open spec fn table_entry(d: TomlV, key: Seq<char>) -> Option<TomlV> {
    match d {
        TomlV::Table(m) => if m.dom().contains(key) {
            Some(m[key])
        } else {
            None
        },
        _ => None,
    }
}

/// The settings of a `pyproject.toml` document: `tool.cmtk` when the
/// document and `tool` are tables that hold those keys, else an empty table.
pub open spec fn cmtk_section(d: TomlV) -> TomlV {
    match table_entry(d, "tool"@) {
        Some(tool) => match table_entry(tool, "cmtk"@) {
            Some(c) => c,
            None => TomlV::Table(Map::empty()),
        },
        None => TomlV::Table(Map::empty()),
    }
}

/// The value under `key` of `v` when `v` is a table that has it.
fn entry_of(v: &toml::Value, key: &str) -> (r: Option<toml::Value>)
    ensures
        match table_entry(toml_doc(*v), key@) {
            Some(x) => r matches Some(y) && toml_doc(y) == x,
            None => r is None,
        },
{
    if is_table(v) {
        table_get(v, key)
    } else {
        None
    }
}

/// The `[tool.cmtk]` settings of a `pyproject.toml` text, written as TOML
/// (an empty table when the document has none); `None` when the text does
/// not parse or the settings cannot be written.
pub fn pyproject_cmtk_section(text: &str) -> (r: Option<String>)
    ensures
        match toml_parsed(text@) {
            None => r is None,
            Some(d) => match toml_printed(cmtk_section(d)) {
                Some(t) => r matches Some(x) && x@ == t,
                None => r is None,
            },
        },
{
    let doc = match parse_toml(text) {
        Some(v) => v,
        None => return None,
    };
    let section = match entry_of(&doc, "tool") {
        Some(tool) => match entry_of(&tool, "cmtk") {
            Some(c) => c,
            None => empty_table(),
        },
        None => empty_table(),
    };
    print_toml(&section)
}

} // verus!
