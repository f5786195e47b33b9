//! Formatter settings: indentation, line width, the source-vertical list
//! threshold and the command schemas.
use crate::builtin_schemas::{builtin_names, is_builtin_table};
use crate::schema::{FunctionSchema, SchemaRegistry, entries_merge, key_value};
use vstd::prelude::*;

verus! {

/// How one level of indentation is written.
#[derive(Debug, Clone, Copy, PartialEq, Eq, Structural)]
pub enum IndentStyle {
    Space,
    Tab,
}

impl Default for IndentStyle {
    fn default() -> (r: IndentStyle)
        ensures
            r == IndentStyle::Space,
    {
        IndentStyle::Space
    }
}

/// The settings of the formatter.
#[derive(Debug, Clone)]
pub struct Config {
    pub indent_style: IndentStyle,
    /// Spaces per indentation level (with `IndentStyle::Space`).
    pub indent_width: usize,
    /// The column limit.
    pub line_width: usize,
    /// Lists with at least this many values each on its own source line
    /// keep one value per line; 0 always, a negative value never.
    pub source_vertical_list_threshold: isize,
    pub function_schemas: SchemaRegistry,
}

pub fn default_indent_width() -> (r: usize)
    ensures
        r == 4,
{
    4
}

pub fn default_line_width() -> (r: usize)
    ensures
        r == 100,
{
    100
}

pub fn default_source_vertical_list_threshold() -> (r: isize)
    ensures
        r == 3,
{
    3
}

/// The names of the schemas of `r`, in order.
pub open spec fn schema_names(r: Seq<(String, FunctionSchema)>) -> Seq<Seq<char>> {
    r.map_values(|p: (String, FunctionSchema)| p.0@)
}

/// `c` holds the default settings and the built-in schemas.
pub open spec fn is_default_config(c: Config) -> bool {
    &&& c.indent_style == IndentStyle::Space
    &&& c.indent_width == 4
    &&& c.line_width == 100
    &&& c.source_vertical_list_threshold == 3
    &&& schema_names(c.function_schemas.functions@) == builtin_names()
    &&& is_builtin_table(c.function_schemas.functions@)
}

impl Default for Config {
    fn default() -> (r: Config)
        ensures
            is_default_config(r),
    {
        Config {
            indent_style: IndentStyle::Space,
            indent_width: default_indent_width(),
            line_width: default_line_width(),
            source_vertical_list_threshold: default_source_vertical_list_threshold(),
            function_schemas: SchemaRegistry::with_builtins(),
        }
    }
}

/// `r` is the settings `c` read from a file, with the built-in schemas
/// first, so that the file's own schemas win over them: the entries are the
/// built-in table `b` with those of `c` set one after the other.
pub open spec fn builtins_merged(c: Config, r: Config) -> bool {
    &&& r.indent_style == c.indent_style
    &&& r.indent_width == c.indent_width
    &&& r.line_width == c.line_width
    &&& r.source_vertical_list_threshold == c.source_vertical_list_threshold
    &&& exists|b: Seq<(String, FunctionSchema)>|
        {
            &&& is_builtin_table(b)
            &&& schema_names(b) == builtin_names()
            &&& r.function_schemas.functions@ == entries_merge(b, c.function_schemas.functions@)
            &&& forall|k: Seq<char>| #[trigger]
                r.function_schemas.lookup(k) == (if c.function_schemas.lookup(k) is Some {
                    c.function_schemas.lookup(k)
                } else {
                    key_value(b, k)
                })
        }
}

impl Config {
    /// The settings as read from a configuration file: the built-in schemas
    /// come first, so that the file's own schemas win over them.
    pub fn with_builtin_schemas(self) -> (r: Config)
        ensures
            builtins_merged(self, r),
    {
        let Config {
            indent_style,
            indent_width,
            line_width,
            source_vertical_list_threshold,
            function_schemas,
        } = self;
        let builtins = SchemaRegistry::with_builtins();
        let ghost b = builtins.functions@;
        let merged = builtins.merge(function_schemas);
        proof {
            assert(schema_names(b) =~= builtin_names());
        }
        Config {
            indent_style,
            indent_width,
            line_width,
            source_vertical_list_threshold,
            function_schemas: merged,
        }
    }

    /// The settings to use: those read from `.cmtkrc` when it was read,
    /// else those read from the `[tool.cmtk]` table of `pyproject.toml` when
    /// it was read, each with the built-in schemas merged in; else the
    /// defaults.
    pub fn discover(from_rc: Option<Config>, from_pyproject: Option<Config>) -> (r: Config)
        ensures
            from_rc matches Some(c) ==> builtins_merged(c, r),
            from_rc is None ==> (from_pyproject matches Some(c) ==> builtins_merged(c, r)),
            from_rc is None && from_pyproject is None ==> is_default_config(r),
    {
        match from_rc {
            Some(c) => c.with_builtin_schemas(),
            None => match from_pyproject {
                Some(c) => c.with_builtin_schemas(),
                None => Config::default(),
            },
        }
    }
}

} // verus!
