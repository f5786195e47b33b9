//! Schemas of CMake commands: which arguments are positional, which words
//! are keywords (options, one-value, multi-value, compound lists, modes,
//! sub-parsers) and how each keyword's values are laid out.
use crate::text::{
    ascii_lower, all_ascii, eq_ignore_case, byte_len, concat, is_ascii_str, owned, to_ascii_lowercase,
    to_lowercase, unicode_lowercase,
};
use vstd::prelude::*;

verus! {

/// How the values of a list are laid out.
#[derive(Debug, Clone, Copy, PartialEq, Eq, Structural)]
pub enum ListType {
    /// Packed by width.
    Packed,
    /// One per line when several, a singleton stays inline.
    Path,
    /// A program and its arguments: flags stay with their values.
    CommandArgv,
    /// Groups of `n` values per line.
    NPerLine { n: u8 },
    /// A boolean condition: breaks before `AND` / `OR`.
    Condition,
}

impl ListType {
    /// `NPerLine { n: 1 }`: one value per line.
    pub fn one_per_line() -> (r: ListType)
        ensures
            r == (ListType::NPerLine { n: 1 }),
    {
        ListType::NPerLine { n: 1 }
    }
}

impl Default for ListType {
    fn default() -> (r: ListType)
        ensures
            r == ListType::Packed,
    {
        ListType::Packed
    }
}

/// Number of positional arguments a command (or mode, or sub-parser) takes
/// before its keywords; a `max` of 0 means no limit.
#[derive(Debug, Clone, Copy, PartialEq, Eq, Structural)]
pub struct PositionalSpec {
    pub min: usize,
    pub max: usize,
}

impl Default for PositionalSpec {
    fn default() -> (r: PositionalSpec)
        ensures
            r.min == 0 && r.max == 0,
    {
        PositionalSpec { min: 0, max: 0 }
    }
}

/// A keyword followed by one of several header words (e.g. `IN ITEMS`),
/// then a list of values.
#[derive(Debug, Clone)]
pub struct CompoundListKeyword {
    pub name: String,
    pub headers: Vec<Vec<String>>,
    pub list_type: ListType,
}

impl Default for CompoundListKeyword {
    fn default() -> (r: CompoundListKeyword)
        ensures
            r.name@.len() == 0,
            r.headers@.len() == 0,
            r.list_type == ListType::Packed,
    {
        CompoundListKeyword { name: String::new(), headers: Vec::new(), list_type: ListType::Packed }
    }
}

/// The signature of one command.
///
/// The keyed tables (`list_keyword_types`, `modes`, `subparsers`) are lists
/// of pairs; a key given twice means what the later pair says, as when the
/// pairs are inserted one after the other into a map.
#[derive(Debug)]
pub struct FunctionSchema {
    pub positional: Option<PositionalSpec>,
    pub no_break_first_argument: bool,
    pub simple_keywords: Vec<String>,
    pub options: Vec<String>,
    pub one_value_keywords: Vec<String>,
    pub multi_value_keywords: Vec<String>,
    pub list_keyword_types: Vec<(String, ListType)>,
    pub default_list_type: ListType,
    pub compound_list_keywords: Vec<CompoundListKeyword>,
    pub modes: Vec<(String, FunctionSchema)>,
    pub path_keywords: Vec<String>,
    pub subparsers: Vec<(String, FunctionSchema)>,
}

impl Clone for FunctionSchema {
    /// A copy of the schema, its modes and sub-parsers copied in turn.
    fn clone(&self) -> (r: Self)
        decreases self, 1nat,
    {
        FunctionSchema {
            positional: self.positional,
            no_break_first_argument: self.no_break_first_argument,
            simple_keywords: self.simple_keywords.clone(),
            options: self.options.clone(),
            one_value_keywords: self.one_value_keywords.clone(),
            multi_value_keywords: self.multi_value_keywords.clone(),
            list_keyword_types: self.list_keyword_types.clone(),
            default_list_type: self.default_list_type,
            compound_list_keywords: self.compound_list_keywords.clone(),
            modes: clone_schema_pairs(&self.modes, Ghost(*self)),
            path_keywords: self.path_keywords.clone(),
            subparsers: clone_schema_pairs(&self.subparsers, Ghost(*self)),
        }
    }
}

/// A copy of named schemas that are modes or sub-parsers of `owner`.
fn clone_schema_pairs(v: &Vec<(String, FunctionSchema)>, Ghost(owner): Ghost<FunctionSchema>) -> (r: Vec<(String, FunctionSchema)>)
    requires
        *v == owner.modes || *v == owner.subparsers,
    decreases owner, 0nat,
{
    let mut r: Vec<(String, FunctionSchema)> = Vec::new();
    let mut i: usize = 0;
    while i < v.len()
        invariant
            i <= v.len(),
            *v == owner.modes || *v == owner.subparsers,
        decreases v.len() - i,
    {
        proof {
            assert(decreases_to!(owner => v@[i as int].1));
        }
        r.push((v[i].0.clone(), v[i].1.clone()));
        i += 1;
    }
    r
}

impl Default for FunctionSchema {
    fn default() -> (r: FunctionSchema)
        ensures
            r.positional is None,
            !r.no_break_first_argument,
            r.simple_keywords@.len() == 0,
            r.options@.len() == 0,
            r.one_value_keywords@.len() == 0,
            r.multi_value_keywords@.len() == 0,
            r.list_keyword_types@.len() == 0,
            r.default_list_type == ListType::Packed,
            r.compound_list_keywords@.len() == 0,
            r.modes@.len() == 0,
            r.path_keywords@.len() == 0,
            r.subparsers@.len() == 0,
    {
        FunctionSchema {
            positional: None,
            no_break_first_argument: false,
            simple_keywords: Vec::new(),
            options: Vec::new(),
            one_value_keywords: Vec::new(),
            multi_value_keywords: Vec::new(),
            list_keyword_types: Vec::new(),
            default_list_type: ListType::Packed,
            compound_list_keywords: Vec::new(),
            modes: Vec::new(),
            path_keywords: Vec::new(),
            subparsers: Vec::new(),
        }
    }
}

// ---------------------------------------------------------------------------
// Lists of words and keyed tables
// ---------------------------------------------------------------------------
/// `k` is one of the words of `v`.
pub open spec fn has_str(v: Seq<String>, k: Seq<char>) -> bool {
    exists|i: int| 0 <= i < v.len() && v[i]@ == k
}

/// Index of the pair that decides key `k`: the last pair with that key.
pub open spec fn key_index<T>(v: Seq<(String, T)>, k: Seq<char>) -> Option<int>
    decreases v.len(),
{
    if v.len() == 0 {
        None
    } else if v.last().0@ == k {
        Some(v.len() - 1)
    } else {
        key_index(v.drop_last(), k)
    }
}

/// The value that the table `v` holds for key `k`.
pub open spec fn key_value<T>(v: Seq<(String, T)>, k: Seq<char>) -> Option<T> {
    match key_index(v, k) {
        Some(i) => Some(v[i].1),
        None => None,
    }
}

pub proof fn lemma_key_index_bounds<T>(v: Seq<(String, T)>, k: Seq<char>)
    ensures
        key_index(v, k) matches Some(i) ==> 0 <= i < v.len() && v[i].0@ == k,
        key_index(v, k) is None ==> forall|i: int| 0 <= i < v.len() ==> v[i].0@ != k,
    decreases v.len(),
{
    if v.len() > 0 && v.last().0@ != k {
        lemma_key_index_bounds(v.drop_last(), k);
        if key_index(v, k) is None {
            assert forall|i: int| 0 <= i < v.len() implies v[i].0@ != k by {
                if i < v.len() - 1 {
                    assert(v.drop_last()[i] == v[i]);
                }
            }
        }
    }
}

/// In `a + b`, a key of `b` is decided by `b`; any other by `a`.
pub proof fn lemma_key_index_append<T>(a: Seq<(String, T)>, b: Seq<(String, T)>, k: Seq<char>)
    ensures
        key_value(a + b, k) == (if key_index(b, k) is Some {
            key_value(b, k)
        } else {
            key_value(a, k)
        }),
    decreases b.len(),
{
    if b.len() == 0 {
        assert(a + b =~= a);
    } else {
        assert((a + b).last() == b.last());
        assert((a + b).drop_last() =~= a + b.drop_last());
        if b.last().0@ != k {
            lemma_key_index_append(a, b.drop_last(), k);
            lemma_key_index_bounds(a + b.drop_last(), k);
            lemma_key_index_bounds(b.drop_last(), k);
            lemma_key_index_bounds(a, k);
            if let Some(i) = key_index(b.drop_last(), k) {
                assert((a + b)[a.len() + i] == b[i]);
            }
        }
    }
}

/// Whether `k` is one of the words of `v`.
pub fn contains_str(v: &Vec<String>, k: &str) -> (r: bool)
    ensures
        r == has_str(v@, k@),
{
    let ko = owned(k);
    let mut i: usize = 0;
    while i < v.len()
        invariant
            i <= v.len(),
            ko@ == k@,
            forall|j: int| 0 <= j < i ==> v@[j]@ != k@,
        decreases v.len() - i,
    {
        if v[i] == ko {
            return true;
        }
        i += 1;
    }
    false
}

/// Index of the pair that decides key `k` in the table `v`.
pub fn find_key<T>(v: &Vec<(String, T)>, k: &str) -> (r: Option<usize>)
    ensures
        r matches Some(i) ==> key_index(v@, k@) == Some(i as int),
        r is None ==> key_index(v@, k@) is None,
{
    let ko = owned(k);
    let mut i = v.len();
    assert(v@.take(i as int) =~= v@);
    while i > 0
        invariant
            i <= v.len(),
            ko@ == k@,
            key_index(v@.take(i as int), k@) == key_index(v@, k@),
        decreases i,
    {
        assert(v@.take(i as int).last() == v@[i - 1]);
        assert(v@.take(i as int).drop_last() =~= v@.take(i - 1));
        if v[i - 1].0 == ko {
            return Some(i - 1);
        }
        i -= 1;
    }
    None
}

// ---------------------------------------------------------------------------
// Schema queries
// ---------------------------------------------------------------------------
/// Index of the first compound list keyword named `k`.
pub open spec fn compound_index(v: Seq<CompoundListKeyword>, k: Seq<char>, i: int) -> Option<int>
    decreases v.len() - i,
{
    if i < 0 || i >= v.len() {
        None
    } else if v[i].name@ == k {
        Some(i)
    } else {
        compound_index(v, k, i + 1)
    }
}

impl FunctionSchema {
    // Keyword arguments are case-sensitive: a lowercase token like `command`
    // in an argument list is a value, not the COMMAND keyword. (Command names
    // are case-insensitive; that lookup lives in `SchemaRegistry::get`.)
    pub open spec fn spec_is_option(&self, k: Seq<char>) -> bool {
        has_str(self.options@, k)
    }

    pub open spec fn spec_is_simple_keyword(&self, k: Seq<char>) -> bool {
        has_str(self.simple_keywords@, k)
    }

    pub open spec fn spec_is_one_value_keyword(&self, k: Seq<char>) -> bool {
        has_str(self.one_value_keywords@, k)
    }

    pub open spec fn spec_is_multi_value_keyword(&self, k: Seq<char>) -> bool {
        has_str(self.multi_value_keywords@, k)
    }

    /// The layout of keyword `k`'s values: its entry in `list_keyword_types`;
    /// else `Path` for a path keyword; else `Packed`.
    pub open spec fn spec_list_type(&self, k: Seq<char>) -> ListType {
        match key_value(self.list_keyword_types@, k) {
            Some(t) => t,
            None => if has_str(self.path_keywords@, k) {
                ListType::Path
            } else {
                ListType::Packed
            },
        }
    }

    pub open spec fn spec_is_path_keyword(&self, k: Seq<char>) -> bool {
        has_str(self.path_keywords@, k) || self.spec_list_type(k) == ListType::Path
    }

    pub open spec fn spec_compound(&self, k: Seq<char>) -> Option<CompoundListKeyword> {
        match compound_index(self.compound_list_keywords@, k, 0) {
            Some(i) => Some(self.compound_list_keywords@[i]),
            None => None,
        }
    }

    pub open spec fn spec_mode(&self, k: Seq<char>) -> Option<FunctionSchema> {
        key_value(self.modes@, k)
    }

    pub open spec fn spec_subparser(&self, k: Seq<char>) -> Option<FunctionSchema> {
        key_value(self.subparsers@, k)
    }

    /// `k` starts a keyword group: an option, a one-value or multi-value
    /// keyword, a compound list keyword, a mode or a sub-parser.
    pub open spec fn spec_is_any_keyword(&self, k: Seq<char>) -> bool {
        ||| self.spec_is_option(k)
        ||| self.spec_is_one_value_keyword(k)
        ||| self.spec_is_multi_value_keyword(k)
        ||| self.spec_compound(k) is Some
        ||| self.spec_mode(k) is Some
        ||| self.spec_subparser(k) is Some
    }

    pub fn is_option(&self, keyword: &str) -> (r: bool)
        ensures
            r == self.spec_is_option(keyword@),
    {
        contains_str(&self.options, keyword)
    }

    pub fn is_simple_keyword(&self, keyword: &str) -> (r: bool)
        ensures
            r == self.spec_is_simple_keyword(keyword@),
    {
        contains_str(&self.simple_keywords, keyword)
    }

    pub fn is_one_value_keyword(&self, keyword: &str) -> (r: bool)
        ensures
            r == self.spec_is_one_value_keyword(keyword@),
    {
        contains_str(&self.one_value_keywords, keyword)
    }

    pub fn is_multi_value_keyword(&self, keyword: &str) -> (r: bool)
        ensures
            r == self.spec_is_multi_value_keyword(keyword@),
    {
        contains_str(&self.multi_value_keywords, keyword)
    }

    pub fn is_path_keyword(&self, keyword: &str) -> (r: bool)
        ensures
            r == self.spec_is_path_keyword(keyword@),
    {
        contains_str(&self.path_keywords, keyword) || self.list_type(keyword) == ListType::Path
    }

    pub fn list_type(&self, keyword: &str) -> (r: ListType)
        ensures
            r == self.spec_list_type(keyword@),
    {
        match find_key(&self.list_keyword_types, keyword) {
            Some(i) => {
                proof {
                    lemma_key_index_bounds(self.list_keyword_types@, keyword@);
                }
                self.list_keyword_types[i].1
            },
            None => {
                if contains_str(&self.path_keywords, keyword) {
                    ListType::Path
                } else {
                    ListType::Packed
                }
            },
        }
    }

    pub fn compound_list_keyword(&self, keyword: &str) -> (r: Option<&CompoundListKeyword>)
        ensures
            r matches Some(c) ==> self.spec_compound(keyword@) == Some(*c),
            r is None ==> self.spec_compound(keyword@) is None,
    {
        let ko = owned(keyword);
        let mut i: usize = 0;
        while i < self.compound_list_keywords.len()
            invariant
                i <= self.compound_list_keywords.len(),
                ko@ == keyword@,
                compound_index(self.compound_list_keywords@, keyword@, i as int)
                    == compound_index(self.compound_list_keywords@, keyword@, 0),
            decreases self.compound_list_keywords.len() - i,
        {
            if self.compound_list_keywords[i].name == ko {
                return Some(&self.compound_list_keywords[i]);
            }
            i += 1;
        }
        None
    }

    pub fn mode(&self, keyword: &str) -> (r: Option<&FunctionSchema>)
        ensures
            r matches Some(m) ==> self.spec_mode(keyword@) == Some(*m),
            r is None ==> self.spec_mode(keyword@) is None,
    {
        match find_key(&self.modes, keyword) {
            Some(i) => {
                proof {
                    lemma_key_index_bounds(self.modes@, keyword@);
                }
                Some(&self.modes[i].1)
            },
            None => None,
        }
    }

    pub fn subparser(&self, keyword: &str) -> (r: Option<&FunctionSchema>)
        ensures
            r matches Some(m) ==> self.spec_subparser(keyword@) == Some(*m),
            r is None ==> self.spec_subparser(keyword@) is None,
    {
        match find_key(&self.subparsers, keyword) {
            Some(i) => {
                proof {
                    lemma_key_index_bounds(self.subparsers@, keyword@);
                }
                Some(&self.subparsers[i].1)
            },
            None => None,
        }
    }

    pub fn is_any_keyword(&self, keyword: &str) -> (r: bool)
        ensures
            r == self.spec_is_any_keyword(keyword@),
    {
        self.is_option(keyword) || self.is_one_value_keyword(keyword)
            || self.is_multi_value_keyword(keyword) || self.compound_list_keyword(
            keyword,
        ).is_some() || self.mode(keyword).is_some() || self.subparser(keyword).is_some()
    }
}

// ---------------------------------------------------------------------------
// The registry of command schemas
// ---------------------------------------------------------------------------
/// Schemas by lowercase command name. A registry that the library builds
/// names each command once (`names_distinct`); in one built by hand, a name
/// given twice means what the later entry says.
#[derive(Debug, Clone)]
pub struct SchemaRegistry {
    pub functions: Vec<(String, FunctionSchema)>,
}

impl Default for SchemaRegistry {
    fn default() -> (r: SchemaRegistry)
        ensures
            r.functions@.len() == 0,
    {
        SchemaRegistry { functions: Vec::new() }
    }
}

/// The key under which a command name is looked up: CMake command names are
/// case-insensitive and schemas are keyed by the lowercase name.
pub open spec fn registry_key(name: Seq<char>) -> Seq<char> {
    if all_ascii(name) {
        ascii_lower(name)
    } else {
        unicode_lowercase(name)
    }
}

/// No name occurs twice among the entries.
pub open spec fn names_distinct<T>(v: Seq<(String, T)>) -> bool {
    forall|i: int, j: int| 0 <= i < j < v.len() ==> v[i].0@ != v[j].0@
}

/// The entries with the schema of `name` set: the entry that holds `name`
/// is replaced, or a new one is added at the end.
pub open spec fn entries_insert(v: Seq<(String, FunctionSchema)>, name: String, schema: FunctionSchema) -> Seq<(String, FunctionSchema)> {
    match key_index(v, name@) {
        Some(i) => v.update(i, (name, schema)),
        None => v.push((name, schema)),
    }
}

/// The entries `v` with those of `w` set one after the other.
pub open spec fn entries_merge(v: Seq<(String, FunctionSchema)>, w: Seq<(String, FunctionSchema)>) -> Seq<(String, FunctionSchema)>
    decreases w.len(),
{
    if w.len() == 0 {
        v
    } else {
        let m = entries_merge(v, w.drop_last());
        entries_insert(m, w.last().0, w.last().1)
    }
}

/// Setting `name` gives it `schema` and leaves every other name as it was.
pub proof fn lemma_insert_lookup(v: Seq<(String, FunctionSchema)>, name: String, schema: FunctionSchema, k: Seq<char>)
    ensures
        key_value(entries_insert(v, name, schema), k) == (if k == name@ {
            Some(schema)
        } else {
            key_value(v, k)
        }),
{
    lemma_key_index_bounds(v, name@);
    match key_index(v, name@) {
        Some(i) => {
            let u = v.update(i, (name, schema));
            assert forall|j: int| 0 <= j < v.len() implies v[j].0@ == u[j].0@ by {
                if j == i {
                    assert(u[j] == (name, schema));
                }
            }
            lemma_key_index_same_names(v, u, k);
            lemma_key_index_bounds(v, k);
            if k != name@ {
                if let Some(j) = key_index(v, k) {
                    assert(j != i);
                    assert(u[j] == v[j]);
                }
            } else {
                assert(u[i] == (name, schema));
            }
        },
        None => {
            let u = v.push((name, schema));
            assert(u.drop_last() =~= v);
            lemma_key_index_bounds(v, k);
            if k != name@ {
                if let Some(j) = key_index(v, k) {
                    assert(u[j] == v[j]);
                }
            }
        },
    }
}

/// Two tables with the same names at the same places decide each key at
/// the same index.
proof fn lemma_key_index_same_names(a: Seq<(String, FunctionSchema)>, b: Seq<(String, FunctionSchema)>, k: Seq<char>)
    requires
        a.len() == b.len(),
        forall|i: int| 0 <= i < a.len() ==> a[i].0@ == b[i].0@,
    ensures
        key_index(a, k) == key_index(b, k),
    decreases a.len(),
{
    if a.len() > 0 {
        lemma_key_index_same_names(a.drop_last(), b.drop_last(), k);
    }
}

/// Setting a name keeps the names distinct.
pub proof fn lemma_insert_distinct(v: Seq<(String, FunctionSchema)>, name: String, schema: FunctionSchema)
    requires
        names_distinct(v),
    ensures
        names_distinct(entries_insert(v, name, schema)),
{
    lemma_key_index_bounds(v, name@);
}

impl SchemaRegistry {
    /// The schema that the registry holds under `key`.
    pub open spec fn lookup(&self, key: Seq<char>) -> Option<FunctionSchema> {
        key_value(self.functions@, key)
    }

    /// The schema of the command `function_name`, whatever its case.
    pub fn get(&self, function_name: &str) -> (r: Option<&FunctionSchema>)
        ensures
            r matches Some(s) ==> self.lookup(registry_key(function_name@)) == Some(*s),
            r is None ==> self.lookup(registry_key(function_name@)) is None,
    {
        let key = if byte_len(function_name) <= 64 && is_ascii_str(function_name) {
            to_ascii_lowercase(function_name)
        } else {
            to_lowercase(function_name)
        };
        match find_key(&self.functions, key.as_str()) {
            Some(i) => {
                proof {
                    lemma_key_index_bounds(self.functions@, key@);
                }
                Some(&self.functions[i].1)
            },
            None => None,
        }
    }

    /// The registry holding the built-in schemas.
    pub fn with_builtins() -> (r: SchemaRegistry)
        ensures
            crate::builtin_schemas::is_builtin_table(r.functions@),
            r.functions@.map_values(|p: (String, FunctionSchema)| p.0@)
                == crate::builtin_schemas::builtin_names(),
    {
        crate::builtin_schemas::builtin_schemas()
    }

    /// This registry's schemas and `other`'s; where both name a command,
    /// `other`'s schema wins.
    pub fn merge(self, other: SchemaRegistry) -> (r: SchemaRegistry)
        ensures
            r.functions@ == entries_merge(self.functions@, other.functions@),
            forall|k: Seq<char>| #[trigger]
                r.lookup(k) == (if other.lookup(k) is Some {
                    other.lookup(k)
                } else {
                    self.lookup(k)
                }),
            names_distinct(self.functions@) ==> names_distinct(r.functions@),
    {
        let ghost base = self.functions@;
        let ghost w = other.functions@;
        let mut r = self;
        for x in it: other.functions.into_iter()
            invariant
                it.seq() == w,
                r.functions@ == entries_merge(base, w.take(it.index() as int)),
        {
            assert(w.take(it.index() + 1).drop_last() =~= w.take(it.index() as int));
            assert(w.take(it.index() + 1).last() == x);
            r.insert(x.0, x.1);
        }
        assert(w.take(w.len() as int) =~= w);
        proof {
            assert forall|k: Seq<char>| #[trigger]
                r.lookup(k) == (if other.lookup(k) is Some {
                    other.lookup(k)
                } else {
                    self.lookup(k)
                }) by {
                law_merge_lookup(base, w, k);
            }
            if names_distinct(base) {
                law_merge_distinct(base, w);
            }
        }
        r
    }

    /// Adds (or replaces) the schema of `name`.
    pub fn insert(&mut self, name: String, schema: FunctionSchema)
        ensures
            final(self).functions@ == entries_insert(old(self).functions@, name, schema),
            forall|k: Seq<char>| #[trigger]
                final(self).lookup(k) == (if k == name@ {
                    Some(schema)
                } else {
                    old(self).lookup(k)
                }),
            names_distinct(old(self).functions@) ==> names_distinct(final(self).functions@),
    {
        proof {
            assert forall|k: Seq<char>| #[trigger]
                key_value(entries_insert(self.functions@, name, schema), k) == (if k == name@ {
                    Some(schema)
                } else {
                    key_value(self.functions@, k)
                }) by {
                lemma_insert_lookup(self.functions@, name, schema, k);
            }
            if names_distinct(self.functions@) {
                lemma_insert_distinct(self.functions@, name, schema);
            }
        }
        match find_key(&self.functions, name.as_str()) {
            Some(i) => {
                proof {
                    lemma_key_index_bounds(self.functions@, name@);
                }
                self.functions.set(i, (name, schema));
            },
            None => {
                self.functions.push((name, schema));
            },
        }
    }
}

/// Merging: in `base.merge(other)`, a command that `other` names has
/// `other`'s schema; any other command keeps the schema it had in `base`.
pub proof fn law_merge_lookup(base: Seq<(String, FunctionSchema)>, other: Seq<(String, FunctionSchema)>, key: Seq<char>)
    ensures
        key_value(entries_merge(base, other), key) == (if key_value(other, key) is Some {
            key_value(other, key)
        } else {
            key_value(base, key)
        }),
    decreases other.len(),
{
    if other.len() > 0 {
        let w = other.drop_last();
        law_merge_lookup(base, w, key);
        lemma_insert_lookup(entries_merge(base, w), other.last().0, other.last().1, key);
        lemma_key_index_bounds(w, key);
        if other.last().0@ != key {
            if let Some(j) = key_index(w, key) {
                assert(other[j] == w[j]);
            }
        }
    }
}

/// Merging into a registry that names each command once gives one that
/// names each command once.
pub proof fn law_merge_distinct(base: Seq<(String, FunctionSchema)>, other: Seq<(String, FunctionSchema)>)
    requires
        names_distinct(base),
    ensures
        names_distinct(entries_merge(base, other)),
    decreases other.len(),
{
    if other.len() > 0 {
        law_merge_distinct(base, other.drop_last());
        lemma_insert_distinct(entries_merge(base, other.drop_last()), other.last().0, other.last().1);
    }
}

/// Command names are looked up whatever their case: two ASCII names that
/// differ only in case have the same key.
pub proof fn lemma_registry_key_ignores_case(a: Seq<char>, b: Seq<char>)
    requires
        all_ascii(a),
        all_ascii(b),
        eq_ignore_case(a, b),
    ensures
        registry_key(a) == registry_key(b),
{
}

// ---------------------------------------------------------------------------
// Schemas as written in configuration files
// ---------------------------------------------------------------------------
/// Parses the name of a list layout: `packed`, `path`, `command_argv`,
/// `n_per_line` / `one_per_line` (with `n`, 1 by default) or `condition`.
pub fn list_type_from_name(ty: &str, n: Option<u8>) -> (r: Result<ListType, String>)
    ensures
        ty@ == "packed"@ ==> r == Ok::<ListType, String>(ListType::Packed),
        ty@ == "path"@ ==> r == Ok::<ListType, String>(ListType::Path),
        ty@ == "command_argv"@ ==> r == Ok::<ListType, String>(ListType::CommandArgv),
        (ty@ == "n_per_line"@ || ty@ == "one_per_line"@) ==> r == Ok::<ListType, String>(
            ListType::NPerLine {
                n: match n {
                    Some(v) => v,
                    None => 1,
                },
            },
        ),
        ty@ == "condition"@ ==> r == Ok::<ListType, String>(ListType::Condition),
        !(ty@ == "packed"@ || ty@ == "path"@ || ty@ == "command_argv"@ || ty@ == "n_per_line"@
            || ty@ == "one_per_line"@ || ty@ == "condition"@) ==> (r matches Err(e) && e@
            == "unknown list_type: "@ + ty@),
{
    proof {
        reveal_strlit("packed");
        reveal_strlit("path");
        reveal_strlit("command_argv");
        reveal_strlit("n_per_line");
        reveal_strlit("one_per_line");
        reveal_strlit("condition");
        assert("packed"@.len() == 6);
        assert("path"@.len() == 4);
        assert("command_argv"@.len() == 12);
        assert("n_per_line"@.len() == 10);
        assert("one_per_line"@.len() == 12);
        assert("condition"@.len() == 9);
        assert("command_argv"@[0] != "one_per_line"@[0]);
    }
    let t = owned(ty);
    if t == owned("packed") {
        Ok(ListType::Packed)
    } else if t == owned("path") {
        Ok(ListType::Path)
    } else if t == owned("command_argv") {
        Ok(ListType::CommandArgv)
    } else if t == owned("n_per_line") || t == owned("one_per_line") {
        Ok(
            ListType::NPerLine {
                n: match n {
                    Some(v) => v,
                    None => 1,
                },
            },
        )
    } else if t == owned("condition") {
        Ok(ListType::Condition)
    } else {
        Err(concat("unknown list_type: ", ty))
    }
}

/// An entry of `multi_value_keywords` as written: a bare name, or a name
/// with its layout (and, for `n_per_line`, the group size).
#[derive(Debug, Clone)]
pub enum ListKeywordInput {
    Name(String),
    Typed { name: String, list_type: ListType, n: Option<u8> },
}

/// A schema as written in a configuration file.
#[derive(Debug)]
pub struct FunctionSchemaInput {
    pub positional: Option<PositionalSpec>,
    pub no_break_first_argument: bool,
    pub simple_keywords: Vec<String>,
    pub options: Vec<String>,
    pub one_value_keywords: Vec<String>,
    pub multi_value_keywords: Vec<ListKeywordInput>,
    pub list_keyword_types: Vec<(String, ListType)>,
    pub default_list_type: ListType,
    pub compound_list_keywords: Vec<CompoundListKeyword>,
    pub modes: Vec<(String, FunctionSchema)>,
    pub path_keywords: Vec<String>,
    pub subparsers: Vec<(String, FunctionSchema)>,
}

impl Default for FunctionSchemaInput {
    fn default() -> (r: FunctionSchemaInput)
        ensures
            r.positional is None,
            !r.no_break_first_argument,
            r.simple_keywords@.len() == 0,
            r.options@.len() == 0,
            r.one_value_keywords@.len() == 0,
            r.multi_value_keywords@.len() == 0,
            r.list_keyword_types@.len() == 0,
            r.default_list_type == ListType::Packed,
            r.compound_list_keywords@.len() == 0,
            r.modes@.len() == 0,
            r.path_keywords@.len() == 0,
            r.subparsers@.len() == 0,
    {
        FunctionSchemaInput {
            positional: None,
            no_break_first_argument: false,
            simple_keywords: Vec::new(),
            options: Vec::new(),
            one_value_keywords: Vec::new(),
            multi_value_keywords: Vec::new(),
            list_keyword_types: Vec::new(),
            default_list_type: ListType::Packed,
            compound_list_keywords: Vec::new(),
            modes: Vec::new(),
            path_keywords: Vec::new(),
            subparsers: Vec::new(),
        }
    }
}

/// The name of a `multi_value_keywords` entry.
pub open spec fn input_name(k: ListKeywordInput) -> Seq<char> {
    match k {
        ListKeywordInput::Name(n) => n@,
        ListKeywordInput::Typed { name, .. } => name@,
    }
}

/// The layout a typed entry sets: its `n` overrides the group size of an
/// `n_per_line` layout.
pub open spec fn input_layout(list_type: ListType, n: Option<u8>) -> ListType {
    match (list_type, n) {
        (ListType::NPerLine { .. }, Some(v)) => ListType::NPerLine { n: v },
        (lt, _) => lt,
    }
}

/// The `(name, layout)` pairs that the typed entries of `ks` add, in order.
pub open spec fn typed_layouts(ks: Seq<ListKeywordInput>) -> Seq<(Seq<char>, ListType)>
    decreases ks.len(),
{
    if ks.len() == 0 {
        Seq::empty()
    } else {
        let rest = typed_layouts(ks.drop_last());
        match ks.last() {
            ListKeywordInput::Name(_) => rest,
            ListKeywordInput::Typed { name, list_type, n } => rest.push(
                (name@, input_layout(list_type, n)),
            ),
        }
    }
}

impl FunctionSchema {
    /// The schema that a written schema stands for: every entry of
    /// `multi_value_keywords` names a multi-value keyword, and a typed entry
    /// also sets the keyword's layout, after (so over) `list_keyword_types`.
    pub fn from_input(input: FunctionSchemaInput) -> (r: FunctionSchema)
        ensures
            r.positional == input.positional,
            r.no_break_first_argument == input.no_break_first_argument,
            r.simple_keywords == input.simple_keywords,
            r.options == input.options,
            r.one_value_keywords == input.one_value_keywords,
            r.multi_value_keywords@.map_values(|s: String| s@) == input.multi_value_keywords@.map_values(
                |k: ListKeywordInput| input_name(k),
            ),
            r.list_keyword_types@.len() == input.list_keyword_types@.len() + typed_layouts(
                input.multi_value_keywords@,
            ).len(),
            r.list_keyword_types@.take(input.list_keyword_types@.len() as int)
                == input.list_keyword_types@,
            forall|i: int|
                0 <= i < typed_layouts(input.multi_value_keywords@).len() ==> {
                    let p = r.list_keyword_types@[input.list_keyword_types@.len() + i];
                    let q = #[trigger] typed_layouts(input.multi_value_keywords@)[i];
                    p.0@ == q.0 && p.1 == q.1
                },
            r.default_list_type == input.default_list_type,
            r.compound_list_keywords == input.compound_list_keywords,
            r.modes == input.modes,
            r.path_keywords == input.path_keywords,
            r.subparsers == input.subparsers,
    {
        let ghost ks = input.multi_value_keywords@;
        let ghost base = input.list_keyword_types@;
        let mut multi_value_keywords: Vec<String> = Vec::new();
        let mut list_keyword_types = input.list_keyword_types;
        let keywords = input.multi_value_keywords;
        let mut i: usize = 0;
        while i < keywords.len()
            invariant
                i <= keywords.len(),
                keywords@ == ks,
                multi_value_keywords@.map_values(|s: String| s@) == ks.take(i as int).map_values(
                    |k: ListKeywordInput| input_name(k),
                ),
                list_keyword_types@.len() == base.len() + typed_layouts(ks.take(i as int)).len(),
                list_keyword_types@.take(base.len() as int) == base,
                forall|j: int|
                    0 <= j < typed_layouts(ks.take(i as int)).len() ==> {
                        let p = list_keyword_types@[base.len() + j];
                        let q = #[trigger] typed_layouts(ks.take(i as int))[j];
                        p.0@ == q.0 && p.1 == q.1
                    },
            decreases keywords.len() - i,
        {
            assert(ks.take(i + 1 as int).drop_last() =~= ks.take(i as int));
            assert(ks.take(i + 1 as int).last() == ks[i as int]);
            let ghost old_names = multi_value_keywords@;
            let ghost old_types = list_keyword_types@;
            match &keywords[i] {
                ListKeywordInput::Name(name) => {
                    multi_value_keywords.push(name.clone());
                    assert(input_name(ks[i as int]) == name@);
                    assert(multi_value_keywords@.map_values(|s: String| s@) =~= old_names.map_values(
                        |s: String| s@,
                    ).push(name@));
                },
                ListKeywordInput::Typed { name, list_type, n } => {
                    let lt = match (*list_type, *n) {
                        (ListType::NPerLine { .. }, Some(v)) => ListType::NPerLine { n: v },
                        (lt, _) => lt,
                    };
                    list_keyword_types.push((name.clone(), lt));
                    multi_value_keywords.push(name.clone());
                    assert(input_name(ks[i as int]) == name@);
                    assert(multi_value_keywords@.map_values(|s: String| s@) =~= old_names.map_values(
                        |s: String| s@,
                    ).push(name@));
                    assert(list_keyword_types@.take(base.len() as int) =~= old_types.take(
                        base.len() as int,
                    ));
                },
            }
            assert(ks.take(i + 1 as int).map_values(|k: ListKeywordInput| input_name(k)) =~= ks.take(
                i as int,
            ).map_values(|k: ListKeywordInput| input_name(k)).push(input_name(ks[i as int])));
            i += 1;
        }
        assert(ks.take(i as int) =~= ks);
        FunctionSchema {
            positional: input.positional,
            no_break_first_argument: input.no_break_first_argument,
            simple_keywords: input.simple_keywords,
            options: input.options,
            one_value_keywords: input.one_value_keywords,
            multi_value_keywords,
            list_keyword_types,
            default_list_type: input.default_list_type,
            compound_list_keywords: input.compound_list_keywords,
            modes: input.modes,
            path_keywords: input.path_keywords,
            subparsers: input.subparsers,
        }
    }
}

} // verus!
