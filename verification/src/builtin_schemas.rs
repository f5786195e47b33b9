//! The schemas of the CMake commands that the formatter knows without
//! configuration.
use crate::schema::{CompoundListKeyword, FunctionSchema, ListType, PositionalSpec, SchemaRegistry};
use crate::text::owned;
use vstd::prelude::*;

verus! {

/// The strings of `v` are the words `ws`.
pub open spec fn words_are(v: Seq<String>, ws: Seq<Seq<char>>) -> bool {
    v.len() == ws.len() && forall|i: int| 0 <= i < v.len() ==> #[trigger] v[i]@ == ws[i]
}

/// The layout table `v` holds the pairs `ts`, in order.
pub open spec fn types_are(v: Seq<(String, ListType)>, ts: Seq<(Seq<char>, ListType)>) -> bool {
    v.len() == ts.len() && forall|i: int|
        0 <= i < v.len() ==> #[trigger] v[i].0@ == ts[i].0 && v[i].1 == ts[i].1
}

/// The words `ws`, as strings.
fn w(ws: &[&str]) -> (r: Vec<String>)
    ensures
        r@.len() == ws@.len(),
        forall|i: int| 0 <= i < ws@.len() ==> r@[i]@ == ws@[i]@,
{
    let mut r: Vec<String> = Vec::new();
    let mut i: usize = 0;
    while i < ws.len()
        invariant
            i <= ws.len(),
            r@.len() == i,
            forall|j: int| 0 <= j < i ==> r@[j]@ == ws@[j]@,
        decreases ws.len() - i,
    {
        r.push(owned(ws[i]));
        i += 1;
    }
    r
}

/// The layout table `pairs`.
fn lt(pairs: &[(&str, ListType)]) -> (r: Vec<(String, ListType)>)
    ensures
        r@.len() == pairs@.len(),
        forall|i: int| 0 <= i < pairs@.len() ==> r@[i].0@ == pairs@[i].0@ && r@[i].1 == pairs@[i].1,
{
    let mut r: Vec<(String, ListType)> = Vec::new();
    let mut i: usize = 0;
    while i < pairs.len()
        invariant
            i <= pairs.len(),
            r@.len() == i,
            forall|j: int| 0 <= j < i ==> r@[j].0@ == pairs@[j].0@ && r@[j].1 == pairs@[j].1,
        decreases pairs.len() - i,
    {
        let (name, t) = pairs[i];
        r.push((owned(name), t));
        i += 1;
    }
    r
}

fn pos(min: usize, max: usize) -> (r: Option<PositionalSpec>)
    ensures
        r == Some(PositionalSpec { min, max }),
{
    Some(PositionalSpec { min, max })
}

/// A schema with no layout table, compound keywords, modes, sub-parsers or
/// path keywords, and the default layout.
pub open spec fn only_keywords(s: FunctionSchema) -> bool {
    &&& types_are(s.list_keyword_types@, Seq::<(Seq<char>, ListType)>::empty())
    &&& s.default_list_type == ListType::Packed
    &&& s.compound_list_keywords@.len() == 0
    &&& s.modes@.len() == 0
    &&& words_are(s.path_keywords@, Seq::<Seq<char>>::empty())
    &&& s.subparsers@.len() == 0
}

pub open spec fn schema_install_export(s: FunctionSchema) -> bool {
    &&& s.positional == Some(PositionalSpec { min: 1, max: 1 })
    &&& !s.no_break_first_argument
    &&& words_are(s.simple_keywords@, Seq::<Seq<char>>::empty())
    &&& words_are(s.options@, seq!["EXCLUDE_FROM_ALL"@, "EXPORT_LINK_INTERFACE_LIBRARIES"@])
    &&& words_are(
        s.one_value_keywords@,
        seq!["NAMESPACE"@, "FILE"@, "DESTINATION"@, "COMPONENT"@, "CXX_MODULES_DIRECTORY"@],
    )
    &&& words_are(s.multi_value_keywords@, seq!["PERMISSIONS"@, "CONFIGURATIONS"@])
    &&& only_keywords(s)
}

// install(EXPORT <name> NAMESPACE <ns> [FILE <file>.cmake] [DESTINATION <dir>]
//         [PERMISSIONS ...] [CONFIGURATIONS ...] [COMPONENT <component>]
//         [EXCLUDE_FROM_ALL] [EXPORT_LINK_INTERFACE_LIBRARIES])
fn install_export_schema() -> (r: FunctionSchema)
    ensures
        schema_install_export(r),
{
    FunctionSchema {
        positional: pos(1, 1),
        options: w(&["EXCLUDE_FROM_ALL", "EXPORT_LINK_INTERFACE_LIBRARIES"]),
        one_value_keywords: w(
            &["NAMESPACE", "FILE", "DESTINATION", "COMPONENT", "CXX_MODULES_DIRECTORY"],
        ),
        multi_value_keywords: w(&["PERMISSIONS", "CONFIGURATIONS"]),
        ..FunctionSchema::default()
    }
}

pub open spec fn schema_install_target_kind(s: FunctionSchema, namelink: bool) -> bool {
    &&& s.positional is None
    &&& !s.no_break_first_argument
    &&& words_are(s.simple_keywords@, Seq::<Seq<char>>::empty())
    &&& words_are(
        s.options@,
        if namelink {
            seq!["OPTIONAL"@, "EXCLUDE_FROM_ALL"@, "NAMELINK_ONLY"@, "NAMELINK_SKIP"@]
        } else {
            seq!["OPTIONAL"@, "EXCLUDE_FROM_ALL"@]
        },
    )
    &&& words_are(
        s.one_value_keywords@,
        if namelink {
            seq!["DESTINATION"@, "COMPONENT"@, "RENAME"@, "NAMELINK_COMPONENT"@]
        } else {
            seq!["DESTINATION"@, "COMPONENT"@, "RENAME"@]
        },
    )
    &&& words_are(s.multi_value_keywords@, seq!["PERMISSIONS"@, "CONFIGURATIONS"@])
    &&& only_keywords(s)
}

// Keywords supported per-type inside install(TARGETS ...). Most per-type
// subparsers (RUNTIME, LIBRARY, ARCHIVE, FRAMEWORK, BUNDLE, OBJECTS,
// PUBLIC_HEADER, PRIVATE_HEADER, RESOURCE) accept the same set; LIBRARY also
// accepts NAMELINK_COMPONENT/NAMELINK_ONLY/NAMELINK_SKIP.
fn install_target_kind_schema(namelink: bool) -> (r: FunctionSchema)
    ensures
        schema_install_target_kind(r, namelink),
{
    let mut options: Vec<String> = w(&["OPTIONAL", "EXCLUDE_FROM_ALL"]);
    let mut one_value_keywords: Vec<String> = w(&["DESTINATION", "COMPONENT", "RENAME"]);
    if namelink {
        options.push(owned("NAMELINK_ONLY"));
        options.push(owned("NAMELINK_SKIP"));
        one_value_keywords.push(owned("NAMELINK_COMPONENT"));
    }
    FunctionSchema {
        options,
        one_value_keywords,
        multi_value_keywords: w(&["PERMISSIONS", "CONFIGURATIONS"]),
        ..FunctionSchema::default()
    }
}

pub open spec fn schema_pattern_or_regex(s: FunctionSchema) -> bool {
    &&& s.positional == Some(PositionalSpec { min: 1, max: 1 })
    &&& !s.no_break_first_argument
    &&& words_are(s.simple_keywords@, Seq::<Seq<char>>::empty())
    &&& words_are(s.options@, seq!["EXCLUDE"@])
    &&& words_are(s.one_value_keywords@, Seq::<Seq<char>>::empty())
    &&& words_are(s.multi_value_keywords@, seq!["PERMISSIONS"@])
    &&& only_keywords(s)
}

fn pattern_or_regex_schema() -> (r: FunctionSchema)
    ensures
        schema_pattern_or_regex(r),
{
    FunctionSchema {
        positional: pos(1, 1),
        options: w(&["EXCLUDE"]),
        multi_value_keywords: w(&["PERMISSIONS"]),
        ..FunctionSchema::default()
    }
}

pub open spec fn schema_install_file_set(s: FunctionSchema) -> bool {
    &&& s.positional == Some(PositionalSpec { min: 1, max: 1 })
    &&& !s.no_break_first_argument
    &&& words_are(s.simple_keywords@, Seq::<Seq<char>>::empty())
    &&& words_are(s.options@, Seq::<Seq<char>>::empty())
    &&& words_are(s.one_value_keywords@, seq!["COMPONENT"@, "DESTINATION"@])
    &&& words_are(s.multi_value_keywords@, seq!["BASE_DIRS"@, "FILES"@])
    &&& types_are(s.list_keyword_types@, seq![("BASE_DIRS"@, ListType::Path), ("FILES"@, ListType::Path)])
    &&& s.default_list_type == ListType::Packed
    &&& s.compound_list_keywords@.len() == 0
    &&& s.modes@.len() == 0
    &&& words_are(s.path_keywords@, Seq::<Seq<char>>::empty())
    &&& s.subparsers@.len() == 0
}

fn install_file_set_schema() -> (r: FunctionSchema)
    ensures
        schema_install_file_set(r),
{
    FunctionSchema {
        positional: pos(1, 1),
        one_value_keywords: w(&["COMPONENT", "DESTINATION"]),
        multi_value_keywords: w(&["BASE_DIRS", "FILES"]),
        list_keyword_types: lt(&[("BASE_DIRS", ListType::Path), ("FILES", ListType::Path)]),
        ..FunctionSchema::default()
    }
}

/// The sub-parsers of `install(TARGETS ...)`: `PATTERN`, `REGEX`,
/// `FILE_SET`, one per artifact kind (`LIBRARY` with the namelink
/// keywords), and `EXPORT`.
pub open spec fn install_targets_subparsers_are(v: Seq<(String, FunctionSchema)>) -> bool {
    &&& v.len() == 13
    &&& v[0].0@ == "PATTERN"@ &&& schema_pattern_or_regex(v[0].1)
    &&& v[1].0@ == "REGEX"@ &&& schema_pattern_or_regex(v[1].1)
    &&& v[2].0@ == "FILE_SET"@ &&& schema_install_file_set(v[2].1)
    &&& v[3].0@ == "RUNTIME"@ &&& schema_install_target_kind(v[3].1, false)
    &&& v[4].0@ == "ARCHIVE"@ &&& schema_install_target_kind(v[4].1, false)
    &&& v[5].0@ == "FRAMEWORK"@ &&& schema_install_target_kind(v[5].1, false)
    &&& v[6].0@ == "BUNDLE"@ &&& schema_install_target_kind(v[6].1, false)
    &&& v[7].0@ == "OBJECTS"@ &&& schema_install_target_kind(v[7].1, false)
    &&& v[8].0@ == "PUBLIC_HEADER"@ &&& schema_install_target_kind(v[8].1, false)
    &&& v[9].0@ == "PRIVATE_HEADER"@ &&& schema_install_target_kind(v[9].1, false)
    &&& v[10].0@ == "RESOURCE"@ &&& schema_install_target_kind(v[10].1, false)
    &&& v[11].0@ == "LIBRARY"@ &&& schema_install_target_kind(v[11].1, true)
    &&& v[12].0@ == "EXPORT"@ &&& schema_install_export(v[12].1)
}

fn install_targets_subparsers() -> (r: Vec<(String, FunctionSchema)>)
    ensures
        install_targets_subparsers_are(r@),
{
    let mut subparsers: Vec<(String, FunctionSchema)> = Vec::new();
    subparsers.push((owned("PATTERN"), pattern_or_regex_schema()));
    subparsers.push((owned("REGEX"), pattern_or_regex_schema()));
    subparsers.push((owned("FILE_SET"), install_file_set_schema()));
    subparsers.push((owned("RUNTIME"), install_target_kind_schema(false)));
    subparsers.push((owned("ARCHIVE"), install_target_kind_schema(false)));
    subparsers.push((owned("FRAMEWORK"), install_target_kind_schema(false)));
    subparsers.push((owned("BUNDLE"), install_target_kind_schema(false)));
    subparsers.push((owned("OBJECTS"), install_target_kind_schema(false)));
    subparsers.push((owned("PUBLIC_HEADER"), install_target_kind_schema(false)));
    subparsers.push((owned("PRIVATE_HEADER"), install_target_kind_schema(false)));
    subparsers.push((owned("RESOURCE"), install_target_kind_schema(false)));
    subparsers.push((owned("LIBRARY"), install_target_kind_schema(true)));
    subparsers.push((owned("EXPORT"), install_export_schema()));
    subparsers
}

pub open spec fn schema_message_mode(s: FunctionSchema) -> bool {
    &&& s.positional == Some(PositionalSpec { min: 0, max: 1 })
    &&& !s.no_break_first_argument
    &&& words_are(s.simple_keywords@, Seq::<Seq<char>>::empty())
    &&& words_are(s.options@, Seq::<Seq<char>>::empty())
    &&& words_are(s.one_value_keywords@, Seq::<Seq<char>>::empty())
    &&& words_are(s.multi_value_keywords@, Seq::<Seq<char>>::empty())
    &&& only_keywords(s)
}

fn message_mode_schema() -> (r: FunctionSchema)
    ensures
        schema_message_mode(r),
{
    FunctionSchema {
    positional: pos(0, 1),
    ..FunctionSchema::default()
}
}

// ---------------------------------------------------------------------------
// The schema of each command
// ---------------------------------------------------------------------------
pub open spec fn schema_if(s: FunctionSchema) -> bool {
    &&& s.positional is None
    &&& !s.no_break_first_argument
    &&& words_are(s.simple_keywords@, Seq::<Seq<char>>::empty())
    &&& words_are(s.options@, Seq::<Seq<char>>::empty())
    &&& words_are(s.one_value_keywords@, Seq::<Seq<char>>::empty())
    &&& words_are(s.multi_value_keywords@, Seq::<Seq<char>>::empty())
    &&& words_are(s.path_keywords@, Seq::<Seq<char>>::empty())
    &&& types_are(s.list_keyword_types@, Seq::<(Seq<char>, ListType)>::empty())
    &&& s.default_list_type == ListType::Condition
    &&& s.compound_list_keywords@.len() == 0
    &&& s.modes@.len() == 0
    &&& s.subparsers@.len() == 0
}

fn build_if() -> (r: FunctionSchema)
    ensures
        schema_if(r),
{
    FunctionSchema {
        default_list_type: ListType::Condition,
        ..FunctionSchema::default()
    }
}

pub open spec fn schema_elseif(s: FunctionSchema) -> bool {
    &&& s.positional is None
    &&& !s.no_break_first_argument
    &&& words_are(s.simple_keywords@, Seq::<Seq<char>>::empty())
    &&& words_are(s.options@, Seq::<Seq<char>>::empty())
    &&& words_are(s.one_value_keywords@, Seq::<Seq<char>>::empty())
    &&& words_are(s.multi_value_keywords@, Seq::<Seq<char>>::empty())
    &&& words_are(s.path_keywords@, Seq::<Seq<char>>::empty())
    &&& types_are(s.list_keyword_types@, Seq::<(Seq<char>, ListType)>::empty())
    &&& s.default_list_type == ListType::Condition
    &&& s.compound_list_keywords@.len() == 0
    &&& s.modes@.len() == 0
    &&& s.subparsers@.len() == 0
}

fn build_elseif() -> (r: FunctionSchema)
    ensures
        schema_elseif(r),
{
    FunctionSchema {
        default_list_type: ListType::Condition,
        ..FunctionSchema::default()
    }
}

pub open spec fn schema_while(s: FunctionSchema) -> bool {
    &&& s.positional is None
    &&& !s.no_break_first_argument
    &&& words_are(s.simple_keywords@, Seq::<Seq<char>>::empty())
    &&& words_are(s.options@, Seq::<Seq<char>>::empty())
    &&& words_are(s.one_value_keywords@, Seq::<Seq<char>>::empty())
    &&& words_are(s.multi_value_keywords@, Seq::<Seq<char>>::empty())
    &&& words_are(s.path_keywords@, Seq::<Seq<char>>::empty())
    &&& types_are(s.list_keyword_types@, Seq::<(Seq<char>, ListType)>::empty())
    &&& s.default_list_type == ListType::Condition
    &&& s.compound_list_keywords@.len() == 0
    &&& s.modes@.len() == 0
    &&& s.subparsers@.len() == 0
}

fn build_while() -> (r: FunctionSchema)
    ensures
        schema_while(r),
{
    FunctionSchema {
        default_list_type: ListType::Condition,
        ..FunctionSchema::default()
    }
}

pub open spec fn schema_project(s: FunctionSchema) -> bool {
    &&& s.positional == Some(PositionalSpec { min: 1, max: 1 })
    &&& !s.no_break_first_argument
    &&& words_are(s.simple_keywords@, Seq::<Seq<char>>::empty())
    &&& words_are(s.options@, Seq::<Seq<char>>::empty())
    &&& words_are(s.one_value_keywords@, seq!["VERSION"@, "DESCRIPTION"@, "HOMEPAGE_URL"@])
    &&& words_are(s.multi_value_keywords@, seq!["LANGUAGES"@])
    &&& words_are(s.path_keywords@, Seq::<Seq<char>>::empty())
    &&& types_are(s.list_keyword_types@, Seq::<(Seq<char>, ListType)>::empty())
    &&& s.default_list_type == ListType::Packed
    &&& s.compound_list_keywords@.len() == 0
    &&& s.modes@.len() == 0
    &&& s.subparsers@.len() == 0
}

fn build_project() -> (r: FunctionSchema)
    ensures
        schema_project(r),
{
    FunctionSchema {
        positional: pos(1, 1),
        simple_keywords: w(&[]),
        one_value_keywords: w(&["VERSION", "DESCRIPTION", "HOMEPAGE_URL"]),
        multi_value_keywords: w(&["LANGUAGES"]),
        ..FunctionSchema::default()
    }
}

pub open spec fn schema_cmake_minimum_required(s: FunctionSchema) -> bool {
    &&& s.positional is None
    &&& !s.no_break_first_argument
    &&& words_are(s.simple_keywords@, Seq::<Seq<char>>::empty())
    &&& words_are(s.options@, seq!["FATAL_ERROR"@])
    &&& words_are(s.one_value_keywords@, seq!["VERSION"@])
    &&& words_are(s.multi_value_keywords@, Seq::<Seq<char>>::empty())
    &&& words_are(s.path_keywords@, Seq::<Seq<char>>::empty())
    &&& types_are(s.list_keyword_types@, Seq::<(Seq<char>, ListType)>::empty())
    &&& s.default_list_type == ListType::Packed
    &&& s.compound_list_keywords@.len() == 0
    &&& s.modes@.len() == 0
    &&& s.subparsers@.len() == 0
}

fn build_cmake_minimum_required() -> (r: FunctionSchema)
    ensures
        schema_cmake_minimum_required(r),
{
    FunctionSchema {
        simple_keywords: w(&[]),
        options: w(&["FATAL_ERROR"]),
        one_value_keywords: w(&["VERSION"]),
        ..FunctionSchema::default()
    }
}

pub open spec fn schema_fetchcontent_declare(s: FunctionSchema) -> bool {
    &&& s.positional is None
    &&& !s.no_break_first_argument
    &&& words_are(s.simple_keywords@, Seq::<Seq<char>>::empty())
    &&& words_are(s.options@, seq!["OVERRIDE_FIND_PACKAGE"@, "SYSTEM"@])
    &&& words_are(s.one_value_keywords@, seq!["GIT_REPOSITORY"@, "GIT_TAG"@, "GIT_SUBMODULES_RECURSE"@, "URL"@, "URL_MD5"@, "URL_HASH"@, "SOURCE_DIR"@, "BINARY_DIR"@, "DOWNLOAD_EXTRACT_TIMESTAMP"@])
    &&& words_are(s.multi_value_keywords@, seq!["GIT_SUBMODULES"@])
    &&& words_are(s.path_keywords@, Seq::<Seq<char>>::empty())
    &&& types_are(s.list_keyword_types@, Seq::<(Seq<char>, ListType)>::empty())
    &&& s.default_list_type == ListType::Packed
    &&& s.compound_list_keywords@.len() == 0
    &&& s.modes@.len() == 0
    &&& s.subparsers@.len() == 0
}

fn build_fetchcontent_declare() -> (r: FunctionSchema)
    ensures
        schema_fetchcontent_declare(r),
{
    FunctionSchema {
        simple_keywords: w(&[]),
        options: w(&["OVERRIDE_FIND_PACKAGE", "SYSTEM"]),
        one_value_keywords: w(&["GIT_REPOSITORY", "GIT_TAG", "GIT_SUBMODULES_RECURSE", "URL", "URL_MD5", "URL_HASH", "SOURCE_DIR", "BINARY_DIR", "DOWNLOAD_EXTRACT_TIMESTAMP"]),
        multi_value_keywords: w(&["GIT_SUBMODULES"]),
        ..FunctionSchema::default()
    }
}

pub open spec fn schema_externalproject_add(s: FunctionSchema) -> bool {
    &&& s.positional is None
    &&& !s.no_break_first_argument
    &&& words_are(s.simple_keywords@, Seq::<Seq<char>>::empty())
    &&& words_are(s.options@, Seq::<Seq<char>>::empty())
    &&& words_are(s.one_value_keywords@, seq!["GIT_REPOSITORY"@, "GIT_TAG"@, "SOURCE_DIR"@, "BINARY_DIR"@, "INSTALL_DIR"@, "PREFIX"@, "DOWNLOAD_DIR"@, "STAMP_DIR"@, "LOG_DIR"@, "TMP_DIR"@, "WORKING_DIRECTORY"@, "COMMENT"@, "CONFIGURE_COMMAND"@, "BUILD_COMMAND"@, "INSTALL_COMMAND"@, "TEST_COMMAND"@, "UPDATE_COMMAND"@, "CONFIGURE_HANDLED_BY_BUILD"@])
    &&& words_are(s.multi_value_keywords@, seq!["CMAKE_ARGS"@, "CMAKE_CACHE_ARGS"@, "DEPENDS"@, "STEP_TARGETS"@])
    &&& words_are(s.path_keywords@, Seq::<Seq<char>>::empty())
    &&& types_are(s.list_keyword_types@, Seq::<(Seq<char>, ListType)>::empty())
    &&& s.default_list_type == ListType::Packed
    &&& s.compound_list_keywords@.len() == 0
    &&& s.modes@.len() == 0
    &&& s.subparsers@.len() == 0
}

fn build_externalproject_add() -> (r: FunctionSchema)
    ensures
        schema_externalproject_add(r),
{
    FunctionSchema {
        simple_keywords: w(&[]),
        options: w(&[]),
        one_value_keywords: w(&["GIT_REPOSITORY", "GIT_TAG", "SOURCE_DIR", "BINARY_DIR", "INSTALL_DIR", "PREFIX", "DOWNLOAD_DIR", "STAMP_DIR", "LOG_DIR", "TMP_DIR", "WORKING_DIRECTORY", "COMMENT", "CONFIGURE_COMMAND", "BUILD_COMMAND", "INSTALL_COMMAND", "TEST_COMMAND", "UPDATE_COMMAND", "CONFIGURE_HANDLED_BY_BUILD"]),
        multi_value_keywords: w(&["CMAKE_ARGS", "CMAKE_CACHE_ARGS", "DEPENDS", "STEP_TARGETS"]),
        ..FunctionSchema::default()
    }
}

pub open spec fn schema_define_property(s: FunctionSchema) -> bool {
    &&& s.positional is None
    &&& !s.no_break_first_argument
    &&& words_are(s.simple_keywords@, Seq::<Seq<char>>::empty())
    &&& words_are(s.options@, seq!["GLOBAL"@, "DIRECTORY"@, "TARGET"@, "SOURCE"@, "TEST"@, "VARIABLE"@, "CACHED_VARIABLE"@, "INHERITED"@])
    &&& words_are(s.one_value_keywords@, seq!["PROPERTY"@, "BRIEF_DOCS"@, "FULL_DOCS"@])
    &&& words_are(s.multi_value_keywords@, Seq::<Seq<char>>::empty())
    &&& words_are(s.path_keywords@, Seq::<Seq<char>>::empty())
    &&& types_are(s.list_keyword_types@, Seq::<(Seq<char>, ListType)>::empty())
    &&& s.default_list_type == ListType::Packed
    &&& s.compound_list_keywords@.len() == 0
    &&& s.modes@.len() == 0
    &&& s.subparsers@.len() == 0
}

fn build_define_property() -> (r: FunctionSchema)
    ensures
        schema_define_property(r),
{
    FunctionSchema {
        simple_keywords: w(&[]),
        options: w(&["GLOBAL", "DIRECTORY", "TARGET", "SOURCE", "TEST", "VARIABLE", "CACHED_VARIABLE", "INHERITED"]),
        one_value_keywords: w(&["PROPERTY", "BRIEF_DOCS", "FULL_DOCS"]),
        ..FunctionSchema::default()
    }
}

pub open spec fn schema_add_custom_target(s: FunctionSchema) -> bool {
    &&& s.positional == Some(PositionalSpec { min: 1, max: 1 })
    &&& s.no_break_first_argument == true
    &&& words_are(s.simple_keywords@, Seq::<Seq<char>>::empty())
    &&& words_are(s.options@, seq!["ALL"@, "VERBATIM"@, "USES_TERMINAL"@, "COMMAND_EXPAND_LISTS"@])
    &&& words_are(s.one_value_keywords@, seq!["COMMENT"@, "WORKING_DIRECTORY"@, "JOB_POOL"@, "JOB_SERVER_AWARE"@])
    &&& words_are(s.multi_value_keywords@, seq!["COMMAND"@, "DEPENDS"@, "SOURCES"@, "BYPRODUCTS"@])
    &&& words_are(s.path_keywords@, Seq::<Seq<char>>::empty())
    &&& types_are(s.list_keyword_types@, seq![("COMMAND"@, ListType::CommandArgv), ("DEPENDS"@, ListType::Path), ("SOURCES"@, ListType::Path), ("BYPRODUCTS"@, ListType::Path)])
    &&& s.default_list_type == ListType::Packed
    &&& s.compound_list_keywords@.len() == 0
    &&& s.modes@.len() == 0
    &&& s.subparsers@.len() == 0
}

fn build_add_custom_target() -> (r: FunctionSchema)
    ensures
        schema_add_custom_target(r),
{
    FunctionSchema {
        positional: pos(1, 1),
        no_break_first_argument: true,
        simple_keywords: w(&[]),
        options: w(&["ALL", "VERBATIM", "USES_TERMINAL", "COMMAND_EXPAND_LISTS"]),
        one_value_keywords: w(&["COMMENT", "WORKING_DIRECTORY", "JOB_POOL", "JOB_SERVER_AWARE"]),
        multi_value_keywords: w(&["COMMAND", "DEPENDS", "SOURCES", "BYPRODUCTS"]),
        list_keyword_types: lt(&[("COMMAND", ListType::CommandArgv), ("DEPENDS", ListType::Path), ("SOURCES", ListType::Path), ("BYPRODUCTS", ListType::Path)]),
        ..FunctionSchema::default()
    }
}

pub open spec fn schema_add_custom_command(s: FunctionSchema) -> bool {
    &&& s.positional is None
    &&& !s.no_break_first_argument
    &&& words_are(s.simple_keywords@, Seq::<Seq<char>>::empty())
    &&& words_are(s.options@, seq!["PRE_BUILD"@, "PRE_LINK"@, "POST_BUILD"@, "VERBATIM"@, "USES_TERMINAL"@, "COMMAND_EXPAND_LISTS"@, "APPEND"@])
    &&& words_are(s.one_value_keywords@, seq!["TARGET"@, "WORKING_DIRECTORY"@, "COMMENT"@, "MAIN_DEPENDENCY"@, "DEPFILE"@])
    &&& words_are(s.multi_value_keywords@, seq!["OUTPUT"@, "COMMAND"@, "DEPENDS"@, "BYPRODUCTS"@, "IMPLICIT_DEPENDS"@])
    &&& words_are(s.path_keywords@, Seq::<Seq<char>>::empty())
    &&& types_are(s.list_keyword_types@, seq![("OUTPUT"@, ListType::Path), ("COMMAND"@, ListType::CommandArgv), ("BYPRODUCTS"@, ListType::Path)])
    &&& s.default_list_type == ListType::Packed
    &&& s.compound_list_keywords@.len() == 0
    &&& s.modes@.len() == 0
    &&& s.subparsers@.len() == 0
}

fn build_add_custom_command() -> (r: FunctionSchema)
    ensures
        schema_add_custom_command(r),
{
    FunctionSchema {
        simple_keywords: w(&[]),
        options: w(&["PRE_BUILD", "PRE_LINK", "POST_BUILD", "VERBATIM", "USES_TERMINAL", "COMMAND_EXPAND_LISTS", "APPEND"]),
        one_value_keywords: w(&["TARGET", "WORKING_DIRECTORY", "COMMENT", "MAIN_DEPENDENCY", "DEPFILE"]),
        multi_value_keywords: w(&["OUTPUT", "COMMAND", "DEPENDS", "BYPRODUCTS", "IMPLICIT_DEPENDS"]),
        list_keyword_types: lt(&[("OUTPUT", ListType::Path), ("COMMAND", ListType::CommandArgv), ("BYPRODUCTS", ListType::Path)]),
        ..FunctionSchema::default()
    }
}

pub open spec fn schema_foreach(s: FunctionSchema) -> bool {
    &&& s.positional is None
    &&& s.no_break_first_argument == true
    &&& words_are(s.simple_keywords@, Seq::<Seq<char>>::empty())
    &&& words_are(s.options@, Seq::<Seq<char>>::empty())
    &&& words_are(s.one_value_keywords@, Seq::<Seq<char>>::empty())
    &&& words_are(s.multi_value_keywords@, Seq::<Seq<char>>::empty())
    &&& words_are(s.path_keywords@, Seq::<Seq<char>>::empty())
    &&& types_are(s.list_keyword_types@, Seq::<(Seq<char>, ListType)>::empty())
    &&& s.default_list_type == ListType::Packed
    &&& s.compound_list_keywords@.len() == 1
    &&& s.compound_list_keywords@[0].name@ == "IN"@
    &&& s.compound_list_keywords@[0].headers@.len() == 3
    &&& words_are(s.compound_list_keywords@[0].headers@[0]@, seq!["ITEMS"@])
    &&& words_are(s.compound_list_keywords@[0].headers@[1]@, seq!["LISTS"@])
    &&& words_are(s.compound_list_keywords@[0].headers@[2]@, seq!["ZIP_LISTS"@])
    &&& s.compound_list_keywords@[0].list_type == ListType::NPerLine { n: 1 }
    &&& s.modes@.len() == 0
    &&& s.subparsers@.len() == 0
}

fn build_foreach() -> (r: FunctionSchema)
    ensures
        schema_foreach(r),
{
    FunctionSchema {
        no_break_first_argument: true,
        compound_list_keywords: vec![CompoundListKeyword {
            name: owned("IN"),
            headers: vec![w(&["ITEMS"]), w(&["LISTS"]), w(&["ZIP_LISTS"])],
            list_type: ListType::NPerLine { n: 1 },
        }],
        ..FunctionSchema::default()
    }
}

pub open spec fn schema_set_property(s: FunctionSchema) -> bool {
    &&& s.positional is None
    &&& s.no_break_first_argument == true
    &&& words_are(s.simple_keywords@, Seq::<Seq<char>>::empty())
    &&& words_are(s.options@, seq!["APPEND"@, "APPEND_STRING"@])
    &&& words_are(s.one_value_keywords@, seq!["CACHE"@, "GLOBAL"@, "DIRECTORY"@, "TARGET"@, "SOURCE"@, "INSTALL"@, "TEST"@, "VARIABLE"@])
    &&& words_are(s.multi_value_keywords@, seq!["PROPERTY"@])
    &&& words_are(s.path_keywords@, Seq::<Seq<char>>::empty())
    &&& types_are(s.list_keyword_types@, Seq::<(Seq<char>, ListType)>::empty())
    &&& s.default_list_type == ListType::Packed
    &&& s.compound_list_keywords@.len() == 0
    &&& s.modes@.len() == 0
    &&& s.subparsers@.len() == 0
}

fn build_set_property() -> (r: FunctionSchema)
    ensures
        schema_set_property(r),
{
    FunctionSchema {
        no_break_first_argument: true,
        simple_keywords: w(&[]),
        options: w(&["APPEND", "APPEND_STRING"]),
        one_value_keywords: w(&["CACHE", "GLOBAL", "DIRECTORY", "TARGET", "SOURCE", "INSTALL", "TEST", "VARIABLE"]),
        multi_value_keywords: w(&["PROPERTY"]),
        ..FunctionSchema::default()
    }
}

pub open spec fn schema_get_property(s: FunctionSchema) -> bool {
    &&& s.positional is None
    &&& !s.no_break_first_argument
    &&& words_are(s.simple_keywords@, Seq::<Seq<char>>::empty())
    &&& words_are(s.options@, seq!["SET"@, "DEFINED"@, "BRIEF_DOCS"@, "FULL_DOCS"@])
    &&& words_are(s.one_value_keywords@, seq!["GLOBAL"@, "DIRECTORY"@, "TARGET"@, "SOURCE"@, "INSTALL"@, "TEST"@, "VARIABLE"@, "CACHE"@, "PROPERTY"@])
    &&& words_are(s.multi_value_keywords@, Seq::<Seq<char>>::empty())
    &&& words_are(s.path_keywords@, Seq::<Seq<char>>::empty())
    &&& types_are(s.list_keyword_types@, Seq::<(Seq<char>, ListType)>::empty())
    &&& s.default_list_type == ListType::Packed
    &&& s.compound_list_keywords@.len() == 0
    &&& s.modes@.len() == 0
    &&& s.subparsers@.len() == 0
}

fn build_get_property() -> (r: FunctionSchema)
    ensures
        schema_get_property(r),
{
    FunctionSchema {
        simple_keywords: w(&[]),
        options: w(&["SET", "DEFINED", "BRIEF_DOCS", "FULL_DOCS"]),
        one_value_keywords: w(&["GLOBAL", "DIRECTORY", "TARGET", "SOURCE", "INSTALL", "TEST", "VARIABLE", "CACHE", "PROPERTY"]),
        ..FunctionSchema::default()
    }
}

pub open spec fn schema_target_include_directories(s: FunctionSchema) -> bool {
    &&& s.positional == Some(PositionalSpec { min: 1, max: 1 })
    &&& !s.no_break_first_argument
    &&& words_are(s.simple_keywords@, seq!["PUBLIC"@, "PRIVATE"@, "INTERFACE"@])
    &&& words_are(s.options@, seq!["SYSTEM"@, "BEFORE"@, "AFTER"@])
    &&& words_are(s.one_value_keywords@, Seq::<Seq<char>>::empty())
    &&& words_are(s.multi_value_keywords@, seq!["PUBLIC"@, "PRIVATE"@, "INTERFACE"@])
    &&& words_are(s.path_keywords@, Seq::<Seq<char>>::empty())
    &&& types_are(s.list_keyword_types@, seq![("PUBLIC"@, ListType::Path), ("PRIVATE"@, ListType::Path), ("INTERFACE"@, ListType::Path)])
    &&& s.default_list_type == ListType::Packed
    &&& s.compound_list_keywords@.len() == 0
    &&& s.modes@.len() == 0
    &&& s.subparsers@.len() == 0
}

fn build_target_include_directories() -> (r: FunctionSchema)
    ensures
        schema_target_include_directories(r),
{
    FunctionSchema {
        positional: pos(1, 1),
        simple_keywords: w(&["PUBLIC", "PRIVATE", "INTERFACE"]),
        options: w(&["SYSTEM", "BEFORE", "AFTER"]),
        multi_value_keywords: w(&["PUBLIC", "PRIVATE", "INTERFACE"]),
        list_keyword_types: lt(&[("PUBLIC", ListType::Path), ("PRIVATE", ListType::Path), ("INTERFACE", ListType::Path)]),
        ..FunctionSchema::default()
    }
}

pub open spec fn schema_target_compile_options(s: FunctionSchema) -> bool {
    &&& s.positional == Some(PositionalSpec { min: 1, max: 1 })
    &&& !s.no_break_first_argument
    &&& words_are(s.simple_keywords@, seq!["PUBLIC"@, "PRIVATE"@, "INTERFACE"@])
    &&& words_are(s.options@, seq!["BEFORE"@])
    &&& words_are(s.one_value_keywords@, Seq::<Seq<char>>::empty())
    &&& words_are(s.multi_value_keywords@, seq!["PUBLIC"@, "PRIVATE"@, "INTERFACE"@])
    &&& words_are(s.path_keywords@, Seq::<Seq<char>>::empty())
    &&& types_are(s.list_keyword_types@, Seq::<(Seq<char>, ListType)>::empty())
    &&& s.default_list_type == ListType::Packed
    &&& s.compound_list_keywords@.len() == 0
    &&& s.modes@.len() == 0
    &&& s.subparsers@.len() == 0
}

fn build_target_compile_options() -> (r: FunctionSchema)
    ensures
        schema_target_compile_options(r),
{
    FunctionSchema {
        positional: pos(1, 1),
        simple_keywords: w(&["PUBLIC", "PRIVATE", "INTERFACE"]),
        options: w(&["BEFORE"]),
        multi_value_keywords: w(&["PUBLIC", "PRIVATE", "INTERFACE"]),
        ..FunctionSchema::default()
    }
}

pub open spec fn schema_target_compile_definitions(s: FunctionSchema) -> bool {
    &&& s.positional == Some(PositionalSpec { min: 1, max: 1 })
    &&& !s.no_break_first_argument
    &&& words_are(s.simple_keywords@, seq!["PUBLIC"@, "PRIVATE"@, "INTERFACE"@])
    &&& words_are(s.options@, Seq::<Seq<char>>::empty())
    &&& words_are(s.one_value_keywords@, Seq::<Seq<char>>::empty())
    &&& words_are(s.multi_value_keywords@, seq!["PUBLIC"@, "PRIVATE"@, "INTERFACE"@])
    &&& words_are(s.path_keywords@, Seq::<Seq<char>>::empty())
    &&& types_are(s.list_keyword_types@, Seq::<(Seq<char>, ListType)>::empty())
    &&& s.default_list_type == ListType::Packed
    &&& s.compound_list_keywords@.len() == 0
    &&& s.modes@.len() == 0
    &&& s.subparsers@.len() == 0
}

fn build_target_compile_definitions() -> (r: FunctionSchema)
    ensures
        schema_target_compile_definitions(r),
{
    FunctionSchema {
        positional: pos(1, 1),
        simple_keywords: w(&["PUBLIC", "PRIVATE", "INTERFACE"]),
        multi_value_keywords: w(&["PUBLIC", "PRIVATE", "INTERFACE"]),
        ..FunctionSchema::default()
    }
}

pub open spec fn schema_target_compile_features(s: FunctionSchema) -> bool {
    &&& s.positional == Some(PositionalSpec { min: 1, max: 1 })
    &&& !s.no_break_first_argument
    &&& words_are(s.simple_keywords@, seq!["PUBLIC"@, "PRIVATE"@, "INTERFACE"@])
    &&& words_are(s.options@, Seq::<Seq<char>>::empty())
    &&& words_are(s.one_value_keywords@, Seq::<Seq<char>>::empty())
    &&& words_are(s.multi_value_keywords@, seq!["PUBLIC"@, "PRIVATE"@, "INTERFACE"@])
    &&& words_are(s.path_keywords@, Seq::<Seq<char>>::empty())
    &&& types_are(s.list_keyword_types@, Seq::<(Seq<char>, ListType)>::empty())
    &&& s.default_list_type == ListType::Packed
    &&& s.compound_list_keywords@.len() == 0
    &&& s.modes@.len() == 0
    &&& s.subparsers@.len() == 0
}

fn build_target_compile_features() -> (r: FunctionSchema)
    ensures
        schema_target_compile_features(r),
{
    FunctionSchema {
        positional: pos(1, 1),
        simple_keywords: w(&["PUBLIC", "PRIVATE", "INTERFACE"]),
        multi_value_keywords: w(&["PUBLIC", "PRIVATE", "INTERFACE"]),
        ..FunctionSchema::default()
    }
}

pub open spec fn schema_target_link_options(s: FunctionSchema) -> bool {
    &&& s.positional == Some(PositionalSpec { min: 1, max: 1 })
    &&& !s.no_break_first_argument
    &&& words_are(s.simple_keywords@, seq!["PUBLIC"@, "PRIVATE"@, "INTERFACE"@])
    &&& words_are(s.options@, seq!["BEFORE"@])
    &&& words_are(s.one_value_keywords@, Seq::<Seq<char>>::empty())
    &&& words_are(s.multi_value_keywords@, seq!["PUBLIC"@, "PRIVATE"@, "INTERFACE"@])
    &&& words_are(s.path_keywords@, Seq::<Seq<char>>::empty())
    &&& types_are(s.list_keyword_types@, Seq::<(Seq<char>, ListType)>::empty())
    &&& s.default_list_type == ListType::Packed
    &&& s.compound_list_keywords@.len() == 0
    &&& s.modes@.len() == 0
    &&& s.subparsers@.len() == 0
}

fn build_target_link_options() -> (r: FunctionSchema)
    ensures
        schema_target_link_options(r),
{
    FunctionSchema {
        positional: pos(1, 1),
        simple_keywords: w(&["PUBLIC", "PRIVATE", "INTERFACE"]),
        options: w(&["BEFORE"]),
        multi_value_keywords: w(&["PUBLIC", "PRIVATE", "INTERFACE"]),
        ..FunctionSchema::default()
    }
}

pub open spec fn schema_target_link_directories(s: FunctionSchema) -> bool {
    &&& s.positional == Some(PositionalSpec { min: 1, max: 1 })
    &&& !s.no_break_first_argument
    &&& words_are(s.simple_keywords@, seq!["PUBLIC"@, "PRIVATE"@, "INTERFACE"@])
    &&& words_are(s.options@, seq!["BEFORE"@])
    &&& words_are(s.one_value_keywords@, Seq::<Seq<char>>::empty())
    &&& words_are(s.multi_value_keywords@, seq!["PUBLIC"@, "PRIVATE"@, "INTERFACE"@])
    &&& words_are(s.path_keywords@, Seq::<Seq<char>>::empty())
    &&& types_are(s.list_keyword_types@, seq![("PUBLIC"@, ListType::Path), ("PRIVATE"@, ListType::Path), ("INTERFACE"@, ListType::Path)])
    &&& s.default_list_type == ListType::Packed
    &&& s.compound_list_keywords@.len() == 0
    &&& s.modes@.len() == 0
    &&& s.subparsers@.len() == 0
}

fn build_target_link_directories() -> (r: FunctionSchema)
    ensures
        schema_target_link_directories(r),
{
    FunctionSchema {
        positional: pos(1, 1),
        simple_keywords: w(&["PUBLIC", "PRIVATE", "INTERFACE"]),
        options: w(&["BEFORE"]),
        multi_value_keywords: w(&["PUBLIC", "PRIVATE", "INTERFACE"]),
        list_keyword_types: lt(&[("PUBLIC", ListType::Path), ("PRIVATE", ListType::Path), ("INTERFACE", ListType::Path)]),
        ..FunctionSchema::default()
    }
}

pub open spec fn schema_target_precompile_headers(s: FunctionSchema) -> bool {
    &&& s.positional == Some(PositionalSpec { min: 1, max: 1 })
    &&& !s.no_break_first_argument
    &&& words_are(s.simple_keywords@, seq!["PUBLIC"@, "PRIVATE"@, "INTERFACE"@])
    &&& words_are(s.options@, Seq::<Seq<char>>::empty())
    &&& words_are(s.one_value_keywords@, seq!["REUSE_FROM"@])
    &&& words_are(s.multi_value_keywords@, seq!["PUBLIC"@, "PRIVATE"@, "INTERFACE"@])
    &&& words_are(s.path_keywords@, Seq::<Seq<char>>::empty())
    &&& types_are(s.list_keyword_types@, seq![("PUBLIC"@, ListType::Path), ("PRIVATE"@, ListType::Path), ("INTERFACE"@, ListType::Path)])
    &&& s.default_list_type == ListType::Packed
    &&& s.compound_list_keywords@.len() == 0
    &&& s.modes@.len() == 0
    &&& s.subparsers@.len() == 0
}

fn build_target_precompile_headers() -> (r: FunctionSchema)
    ensures
        schema_target_precompile_headers(r),
{
    FunctionSchema {
        positional: pos(1, 1),
        simple_keywords: w(&["PUBLIC", "PRIVATE", "INTERFACE"]),
        one_value_keywords: w(&["REUSE_FROM"]),
        multi_value_keywords: w(&["PUBLIC", "PRIVATE", "INTERFACE"]),
        list_keyword_types: lt(&[("PUBLIC", ListType::Path), ("PRIVATE", ListType::Path), ("INTERFACE", ListType::Path)]),
        ..FunctionSchema::default()
    }
}

pub open spec fn schema_target_sources_file_set(s: FunctionSchema) -> bool {
    &&& s.positional == Some(PositionalSpec { min: 1, max: 1 })
    &&& !s.no_break_first_argument
    &&& words_are(s.simple_keywords@, Seq::<Seq<char>>::empty())
    &&& words_are(s.options@, Seq::<Seq<char>>::empty())
    &&& words_are(s.one_value_keywords@, seq!["TYPE"@, "COMPONENT"@])
    &&& words_are(s.multi_value_keywords@, seq!["BASE_DIRS"@, "FILES"@])
    &&& words_are(s.path_keywords@, Seq::<Seq<char>>::empty())
    &&& types_are(s.list_keyword_types@, seq![("BASE_DIRS"@, ListType::Path), ("FILES"@, ListType::Path)])
    &&& s.default_list_type == ListType::Packed
    &&& s.compound_list_keywords@.len() == 0
    &&& s.modes@.len() == 0
    &&& s.subparsers@.len() == 0
}

fn build_target_sources_file_set() -> (r: FunctionSchema)
    ensures
        schema_target_sources_file_set(r),
{
    FunctionSchema {
        positional: pos(1, 1),
        one_value_keywords: w(&["TYPE", "COMPONENT"]),
        multi_value_keywords: w(&["BASE_DIRS", "FILES"]),
        list_keyword_types: lt(&[("BASE_DIRS", ListType::Path), ("FILES", ListType::Path)]),
        ..FunctionSchema::default()
    }
}

pub open spec fn schema_target_sources(s: FunctionSchema) -> bool {
    &&& s.positional == Some(PositionalSpec { min: 1, max: 1 })
    &&& !s.no_break_first_argument
    &&& words_are(s.simple_keywords@, seq!["PUBLIC"@, "PRIVATE"@, "INTERFACE"@])
    &&& words_are(s.options@, Seq::<Seq<char>>::empty())
    &&& words_are(s.one_value_keywords@, Seq::<Seq<char>>::empty())
    &&& words_are(s.multi_value_keywords@, seq!["PUBLIC"@, "PRIVATE"@, "INTERFACE"@])
    &&& words_are(s.path_keywords@, Seq::<Seq<char>>::empty())
    &&& types_are(s.list_keyword_types@, seq![("PUBLIC"@, ListType::Path), ("PRIVATE"@, ListType::Path), ("INTERFACE"@, ListType::Path)])
    &&& s.default_list_type == ListType::Packed
    &&& s.compound_list_keywords@.len() == 0
    &&& s.modes@.len() == 0
    &&& s.subparsers@.len() == 1
    &&& s.subparsers@[0].0@ == "FILE_SET"@
    &&& schema_target_sources_file_set(s.subparsers@[0].1)
}

fn build_target_sources() -> (r: FunctionSchema)
    ensures
        schema_target_sources(r),
{
    FunctionSchema {
        positional: pos(1, 1),
        simple_keywords: w(&["PUBLIC", "PRIVATE", "INTERFACE"]),
        multi_value_keywords: w(&["PUBLIC", "PRIVATE", "INTERFACE"]),
        list_keyword_types: lt(&[("PUBLIC", ListType::Path), ("PRIVATE", ListType::Path), ("INTERFACE", ListType::Path)]),
        subparsers: vec![(owned("FILE_SET"), build_target_sources_file_set())],
        ..FunctionSchema::default()
    }
}

pub open spec fn schema_add_library(s: FunctionSchema) -> bool {
    &&& s.positional is None
    &&& !s.no_break_first_argument
    &&& words_are(s.simple_keywords@, Seq::<Seq<char>>::empty())
    &&& words_are(s.options@, seq!["STATIC"@, "SHARED"@, "MODULE"@, "OBJECT"@, "INTERFACE"@, "IMPORTED"@, "ALIAS"@, "EXCLUDE_FROM_ALL"@])
    &&& words_are(s.one_value_keywords@, Seq::<Seq<char>>::empty())
    &&& words_are(s.multi_value_keywords@, Seq::<Seq<char>>::empty())
    &&& words_are(s.path_keywords@, Seq::<Seq<char>>::empty())
    &&& types_are(s.list_keyword_types@, Seq::<(Seq<char>, ListType)>::empty())
    &&& s.default_list_type == ListType::Packed
    &&& s.compound_list_keywords@.len() == 0
    &&& s.modes@.len() == 0
    &&& s.subparsers@.len() == 0
}

fn build_add_library() -> (r: FunctionSchema)
    ensures
        schema_add_library(r),
{
    FunctionSchema {
        simple_keywords: w(&[]),
        options: w(&["STATIC", "SHARED", "MODULE", "OBJECT", "INTERFACE", "IMPORTED", "ALIAS", "EXCLUDE_FROM_ALL"]),
        ..FunctionSchema::default()
    }
}

pub open spec fn schema_add_executable(s: FunctionSchema) -> bool {
    &&& s.positional is None
    &&& !s.no_break_first_argument
    &&& words_are(s.simple_keywords@, Seq::<Seq<char>>::empty())
    &&& words_are(s.options@, seq!["WIN32"@, "MACOSX_BUNDLE"@, "EXCLUDE_FROM_ALL"@, "IMPORTED"@, "ALIAS"@])
    &&& words_are(s.one_value_keywords@, Seq::<Seq<char>>::empty())
    &&& words_are(s.multi_value_keywords@, Seq::<Seq<char>>::empty())
    &&& words_are(s.path_keywords@, Seq::<Seq<char>>::empty())
    &&& types_are(s.list_keyword_types@, Seq::<(Seq<char>, ListType)>::empty())
    &&& s.default_list_type == ListType::Packed
    &&& s.compound_list_keywords@.len() == 0
    &&& s.modes@.len() == 0
    &&& s.subparsers@.len() == 0
}

fn build_add_executable() -> (r: FunctionSchema)
    ensures
        schema_add_executable(r),
{
    FunctionSchema {
        simple_keywords: w(&[]),
        options: w(&["WIN32", "MACOSX_BUNDLE", "EXCLUDE_FROM_ALL", "IMPORTED", "ALIAS"]),
        ..FunctionSchema::default()
    }
}

pub open spec fn schema_install(s: FunctionSchema) -> bool {
    &&& s.positional is None
    &&& !s.no_break_first_argument
    &&& words_are(s.simple_keywords@, Seq::<Seq<char>>::empty())
    &&& words_are(s.options@, seq!["OPTIONAL"@, "NAMELINK_ONLY"@, "NAMELINK_SKIP"@, "EXCLUDE_FROM_ALL"@])
    &&& words_are(s.one_value_keywords@, seq!["DESTINATION"@, "RENAME"@, "COMPONENT"@, "TYPE"@])
    &&& words_are(s.multi_value_keywords@, seq!["TARGETS"@, "FILES"@, "PROGRAMS"@, "DIRECTORY"@, "CONFIGURATIONS"@, "PERMISSIONS"@, "FILE_PERMISSIONS"@, "DIRECTORY_PERMISSIONS"@])
    &&& words_are(s.path_keywords@, Seq::<Seq<char>>::empty())
    &&& types_are(s.list_keyword_types@, seq![("FILES"@, ListType::Path), ("PROGRAMS"@, ListType::Path), ("DIRECTORY"@, ListType::Path)])
    &&& s.default_list_type == ListType::Packed
    &&& s.compound_list_keywords@.len() == 0
    &&& s.modes@.len() == 0
    &&& install_targets_subparsers_are(s.subparsers@)
}

fn build_install() -> (r: FunctionSchema)
    ensures
        schema_install(r),
{
    FunctionSchema {
        simple_keywords: w(&[]),
        options: w(&["OPTIONAL", "NAMELINK_ONLY", "NAMELINK_SKIP", "EXCLUDE_FROM_ALL"]),
        one_value_keywords: w(&["DESTINATION", "RENAME", "COMPONENT", "TYPE"]),
        multi_value_keywords: w(&["TARGETS", "FILES", "PROGRAMS", "DIRECTORY", "CONFIGURATIONS", "PERMISSIONS", "FILE_PERMISSIONS", "DIRECTORY_PERMISSIONS"]),
        list_keyword_types: lt(&[("FILES", ListType::Path), ("PROGRAMS", ListType::Path), ("DIRECTORY", ListType::Path)]),
        subparsers: install_targets_subparsers(),
        ..FunctionSchema::default()
    }
}

pub open spec fn schema_set_target_properties(s: FunctionSchema) -> bool {
    &&& s.positional == Some(PositionalSpec { min: 1, max: 0 })
    &&& s.no_break_first_argument == true
    &&& words_are(s.simple_keywords@, Seq::<Seq<char>>::empty())
    &&& words_are(s.options@, Seq::<Seq<char>>::empty())
    &&& words_are(s.one_value_keywords@, Seq::<Seq<char>>::empty())
    &&& words_are(s.multi_value_keywords@, seq!["PROPERTIES"@])
    &&& words_are(s.path_keywords@, Seq::<Seq<char>>::empty())
    &&& types_are(s.list_keyword_types@, seq![("PROPERTIES"@, ListType::NPerLine { n: 2 })])
    &&& s.default_list_type == ListType::Packed
    &&& s.compound_list_keywords@.len() == 0
    &&& s.modes@.len() == 0
    &&& s.subparsers@.len() == 0
}

fn build_set_target_properties() -> (r: FunctionSchema)
    ensures
        schema_set_target_properties(r),
{
    FunctionSchema {
        positional: pos(1, 0),
        no_break_first_argument: true,
        simple_keywords: w(&[]),
        multi_value_keywords: w(&["PROPERTIES"]),
        list_keyword_types: lt(&[("PROPERTIES", ListType::NPerLine { n: 2 })]),
        ..FunctionSchema::default()
    }
}

pub open spec fn schema_set_source_files_properties(s: FunctionSchema) -> bool {
    &&& s.positional == Some(PositionalSpec { min: 1, max: 0 })
    &&& !s.no_break_first_argument
    &&& words_are(s.simple_keywords@, Seq::<Seq<char>>::empty())
    &&& words_are(s.options@, Seq::<Seq<char>>::empty())
    &&& words_are(s.one_value_keywords@, seq!["DIRECTORY"@, "TARGET_DIRECTORY"@])
    &&& words_are(s.multi_value_keywords@, seq!["PROPERTIES"@])
    &&& words_are(s.path_keywords@, Seq::<Seq<char>>::empty())
    &&& types_are(s.list_keyword_types@, seq![("PROPERTIES"@, ListType::NPerLine { n: 2 })])
    &&& s.default_list_type == ListType::Packed
    &&& s.compound_list_keywords@.len() == 0
    &&& s.modes@.len() == 0
    &&& s.subparsers@.len() == 0
}

fn build_set_source_files_properties() -> (r: FunctionSchema)
    ensures
        schema_set_source_files_properties(r),
{
    FunctionSchema {
        positional: pos(1, 0),
        simple_keywords: w(&[]),
        one_value_keywords: w(&["DIRECTORY", "TARGET_DIRECTORY"]),
        multi_value_keywords: w(&["PROPERTIES"]),
        list_keyword_types: lt(&[("PROPERTIES", ListType::NPerLine { n: 2 })]),
        ..FunctionSchema::default()
    }
}

pub open spec fn schema_set_directory_properties(s: FunctionSchema) -> bool {
    &&& s.positional is None
    &&& !s.no_break_first_argument
    &&& words_are(s.simple_keywords@, Seq::<Seq<char>>::empty())
    &&& words_are(s.options@, Seq::<Seq<char>>::empty())
    &&& words_are(s.one_value_keywords@, Seq::<Seq<char>>::empty())
    &&& words_are(s.multi_value_keywords@, seq!["PROPERTIES"@])
    &&& words_are(s.path_keywords@, Seq::<Seq<char>>::empty())
    &&& types_are(s.list_keyword_types@, seq![("PROPERTIES"@, ListType::NPerLine { n: 2 })])
    &&& s.default_list_type == ListType::Packed
    &&& s.compound_list_keywords@.len() == 0
    &&& s.modes@.len() == 0
    &&& s.subparsers@.len() == 0
}

fn build_set_directory_properties() -> (r: FunctionSchema)
    ensures
        schema_set_directory_properties(r),
{
    FunctionSchema {
        multi_value_keywords: w(&["PROPERTIES"]),
        list_keyword_types: lt(&[("PROPERTIES", ListType::NPerLine { n: 2 })]),
        ..FunctionSchema::default()
    }
}

pub open spec fn schema_set_tests_properties(s: FunctionSchema) -> bool {
    &&& s.positional == Some(PositionalSpec { min: 1, max: 0 })
    &&& !s.no_break_first_argument
    &&& words_are(s.simple_keywords@, Seq::<Seq<char>>::empty())
    &&& words_are(s.options@, Seq::<Seq<char>>::empty())
    &&& words_are(s.one_value_keywords@, seq!["DIRECTORY"@])
    &&& words_are(s.multi_value_keywords@, seq!["PROPERTIES"@])
    &&& words_are(s.path_keywords@, Seq::<Seq<char>>::empty())
    &&& types_are(s.list_keyword_types@, seq![("PROPERTIES"@, ListType::NPerLine { n: 2 })])
    &&& s.default_list_type == ListType::Packed
    &&& s.compound_list_keywords@.len() == 0
    &&& s.modes@.len() == 0
    &&& s.subparsers@.len() == 0
}

fn build_set_tests_properties() -> (r: FunctionSchema)
    ensures
        schema_set_tests_properties(r),
{
    FunctionSchema {
        positional: pos(1, 0),
        simple_keywords: w(&[]),
        one_value_keywords: w(&["DIRECTORY"]),
        multi_value_keywords: w(&["PROPERTIES"]),
        list_keyword_types: lt(&[("PROPERTIES", ListType::NPerLine { n: 2 })]),
        ..FunctionSchema::default()
    }
}

pub open spec fn schema_add_test(s: FunctionSchema) -> bool {
    &&& s.positional is None
    &&& !s.no_break_first_argument
    &&& words_are(s.simple_keywords@, Seq::<Seq<char>>::empty())
    &&& words_are(s.options@, seq!["COMMAND_EXPAND_LISTS"@, "VERBATIM"@])
    &&& words_are(s.one_value_keywords@, seq!["NAME"@, "WORKING_DIRECTORY"@])
    &&& words_are(s.multi_value_keywords@, seq!["COMMAND"@, "CONFIGURATIONS"@])
    &&& words_are(s.path_keywords@, Seq::<Seq<char>>::empty())
    &&& types_are(s.list_keyword_types@, seq![("COMMAND"@, ListType::CommandArgv)])
    &&& s.default_list_type == ListType::Packed
    &&& s.compound_list_keywords@.len() == 0
    &&& s.modes@.len() == 0
    &&& s.subparsers@.len() == 0
}

fn build_add_test() -> (r: FunctionSchema)
    ensures
        schema_add_test(r),
{
    FunctionSchema {
        options: w(&["COMMAND_EXPAND_LISTS", "VERBATIM"]),
        one_value_keywords: w(&["NAME", "WORKING_DIRECTORY"]),
        multi_value_keywords: w(&["COMMAND", "CONFIGURATIONS"]),
        list_keyword_types: lt(&[("COMMAND", ListType::CommandArgv)]),
        ..FunctionSchema::default()
    }
}

pub open spec fn schema_execute_process(s: FunctionSchema) -> bool {
    &&& s.positional is None
    &&& !s.no_break_first_argument
    &&& words_are(s.simple_keywords@, Seq::<Seq<char>>::empty())
    &&& words_are(s.options@, seq!["INPUT_QUIET"@, "OUTPUT_QUIET"@, "ERROR_QUIET"@, "OUTPUT_STRIP_TRAILING_WHITESPACE"@, "ERROR_STRIP_TRAILING_WHITESPACE"@, "ECHO_OUTPUT_VARIABLE"@, "ECHO_ERROR_VARIABLE"@])
    &&& words_are(s.one_value_keywords@, seq!["WORKING_DIRECTORY"@, "TIMEOUT"@, "RESULT_VARIABLE"@, "RESULTS_VARIABLE"@, "OUTPUT_VARIABLE"@, "ERROR_VARIABLE"@, "INPUT_FILE"@, "OUTPUT_FILE"@, "ERROR_FILE"@, "COMMAND_ECHO"@, "COMMAND_ERROR_IS_FATAL"@])
    &&& words_are(s.multi_value_keywords@, seq!["COMMAND"@])
    &&& words_are(s.path_keywords@, Seq::<Seq<char>>::empty())
    &&& types_are(s.list_keyword_types@, seq![("COMMAND"@, ListType::CommandArgv)])
    &&& s.default_list_type == ListType::Packed
    &&& s.compound_list_keywords@.len() == 0
    &&& s.modes@.len() == 0
    &&& s.subparsers@.len() == 0
}

fn build_execute_process() -> (r: FunctionSchema)
    ensures
        schema_execute_process(r),
{
    FunctionSchema {
        options: w(&["INPUT_QUIET", "OUTPUT_QUIET", "ERROR_QUIET", "OUTPUT_STRIP_TRAILING_WHITESPACE", "ERROR_STRIP_TRAILING_WHITESPACE", "ECHO_OUTPUT_VARIABLE", "ECHO_ERROR_VARIABLE"]),
        one_value_keywords: w(&["WORKING_DIRECTORY", "TIMEOUT", "RESULT_VARIABLE", "RESULTS_VARIABLE", "OUTPUT_VARIABLE", "ERROR_VARIABLE", "INPUT_FILE", "OUTPUT_FILE", "ERROR_FILE", "COMMAND_ECHO", "COMMAND_ERROR_IS_FATAL"]),
        multi_value_keywords: w(&["COMMAND"]),
        list_keyword_types: lt(&[("COMMAND", ListType::CommandArgv)]),
        ..FunctionSchema::default()
    }
}

pub open spec fn schema_find_package(s: FunctionSchema) -> bool {
    &&& s.positional == Some(PositionalSpec { min: 1, max: 2 })
    &&& !s.no_break_first_argument
    &&& words_are(s.simple_keywords@, Seq::<Seq<char>>::empty())
    &&& words_are(s.options@, seq!["REQUIRED"@, "QUIET"@, "NO_POLICY_SCOPE"@, "EXACT"@, "MODULE"@, "CONFIG"@])
    &&& words_are(s.one_value_keywords@, seq!["VERSION"@])
    &&& words_are(s.multi_value_keywords@, seq!["COMPONENTS"@, "OPTIONAL_COMPONENTS"@, "HINTS"@, "PATHS"@])
    &&& words_are(s.path_keywords@, Seq::<Seq<char>>::empty())
    &&& types_are(s.list_keyword_types@, Seq::<(Seq<char>, ListType)>::empty())
    &&& s.default_list_type == ListType::Packed
    &&& s.compound_list_keywords@.len() == 0
    &&& s.modes@.len() == 0
    &&& s.subparsers@.len() == 0
}

fn build_find_package() -> (r: FunctionSchema)
    ensures
        schema_find_package(r),
{
    FunctionSchema {
        positional: pos(1, 2),
        simple_keywords: w(&[]),
        options: w(&["REQUIRED", "QUIET", "NO_POLICY_SCOPE", "EXACT", "MODULE", "CONFIG"]),
        one_value_keywords: w(&["VERSION"]),
        multi_value_keywords: w(&["COMPONENTS", "OPTIONAL_COMPONENTS", "HINTS", "PATHS"]),
        ..FunctionSchema::default()
    }
}

pub open spec fn schema_target_link_libraries(s: FunctionSchema) -> bool {
    &&& s.positional == Some(PositionalSpec { min: 1, max: 1 })
    &&& !s.no_break_first_argument
    &&& words_are(s.simple_keywords@, Seq::<Seq<char>>::empty())
    &&& words_are(s.options@, Seq::<Seq<char>>::empty())
    &&& words_are(s.one_value_keywords@, Seq::<Seq<char>>::empty())
    &&& words_are(s.multi_value_keywords@, seq!["PUBLIC"@, "PRIVATE"@, "INTERFACE"@])
    &&& words_are(s.path_keywords@, Seq::<Seq<char>>::empty())
    &&& types_are(s.list_keyword_types@, Seq::<(Seq<char>, ListType)>::empty())
    &&& s.default_list_type == ListType::Packed
    &&& s.compound_list_keywords@.len() == 0
    &&& s.modes@.len() == 0
    &&& s.subparsers@.len() == 0
}

fn build_target_link_libraries() -> (r: FunctionSchema)
    ensures
        schema_target_link_libraries(r),
{
    FunctionSchema {
        positional: pos(1, 1),
        simple_keywords: w(&[]),
        multi_value_keywords: w(&["PUBLIC", "PRIVATE", "INTERFACE"]),
        ..FunctionSchema::default()
    }
}

pub open spec fn schema_find_package_handle_standard_args(s: FunctionSchema) -> bool {
    &&& s.positional == Some(PositionalSpec { min: 1, max: 1 })
    &&& !s.no_break_first_argument
    &&& words_are(s.simple_keywords@, Seq::<Seq<char>>::empty())
    &&& words_are(s.options@, seq!["HANDLE_COMPONENTS"@, "HANDLE_VERSION_RANGE"@, "CONFIG_MODE"@, "NAME_MISMATCHED"@])
    &&& words_are(s.one_value_keywords@, seq!["FOUND_VAR"@, "VERSION_VAR"@, "FAIL_MESSAGE"@, "REASON_FAILURE_MESSAGE"@])
    &&& words_are(s.multi_value_keywords@, seq!["REQUIRED_VARS"@])
    &&& words_are(s.path_keywords@, Seq::<Seq<char>>::empty())
    &&& types_are(s.list_keyword_types@, seq![("REQUIRED_VARS"@, ListType::Path)])
    &&& s.default_list_type == ListType::Packed
    &&& s.compound_list_keywords@.len() == 0
    &&& s.modes@.len() == 0
    &&& s.subparsers@.len() == 0
}

fn build_find_package_handle_standard_args() -> (r: FunctionSchema)
    ensures
        schema_find_package_handle_standard_args(r),
{
    FunctionSchema {
        positional: pos(1, 1),
        options: w(&["HANDLE_COMPONENTS", "HANDLE_VERSION_RANGE", "CONFIG_MODE", "NAME_MISMATCHED"]),
        one_value_keywords: w(&["FOUND_VAR", "VERSION_VAR", "FAIL_MESSAGE", "REASON_FAILURE_MESSAGE"]),
        multi_value_keywords: w(&["REQUIRED_VARS"]),
        list_keyword_types: lt(&[("REQUIRED_VARS", ListType::Path)]),
        ..FunctionSchema::default()
    }
}

pub open spec fn schema_option(s: FunctionSchema) -> bool {
    &&& s.positional == Some(PositionalSpec { min: 1, max: 1 })
    &&& s.no_break_first_argument == true
    &&& words_are(s.simple_keywords@, Seq::<Seq<char>>::empty())
    &&& words_are(s.options@, Seq::<Seq<char>>::empty())
    &&& words_are(s.one_value_keywords@, Seq::<Seq<char>>::empty())
    &&& words_are(s.multi_value_keywords@, Seq::<Seq<char>>::empty())
    &&& words_are(s.path_keywords@, Seq::<Seq<char>>::empty())
    &&& types_are(s.list_keyword_types@, Seq::<(Seq<char>, ListType)>::empty())
    &&& s.default_list_type == ListType::Packed
    &&& s.compound_list_keywords@.len() == 0
    &&& s.modes@.len() == 0
    &&& s.subparsers@.len() == 0
}

fn build_option() -> (r: FunctionSchema)
    ensures
        schema_option(r),
{
    FunctionSchema {
        positional: pos(1, 1),
        no_break_first_argument: true,
        ..FunctionSchema::default()
    }
}

pub open spec fn schema_cmake_dependent_option(s: FunctionSchema) -> bool {
    &&& s.positional == Some(PositionalSpec { min: 1, max: 1 })
    &&& s.no_break_first_argument == true
    &&& words_are(s.simple_keywords@, Seq::<Seq<char>>::empty())
    &&& words_are(s.options@, Seq::<Seq<char>>::empty())
    &&& words_are(s.one_value_keywords@, Seq::<Seq<char>>::empty())
    &&& words_are(s.multi_value_keywords@, Seq::<Seq<char>>::empty())
    &&& words_are(s.path_keywords@, Seq::<Seq<char>>::empty())
    &&& types_are(s.list_keyword_types@, Seq::<(Seq<char>, ListType)>::empty())
    &&& s.default_list_type == ListType::Packed
    &&& s.compound_list_keywords@.len() == 0
    &&& s.modes@.len() == 0
    &&& s.subparsers@.len() == 0
}

fn build_cmake_dependent_option() -> (r: FunctionSchema)
    ensures
        schema_cmake_dependent_option(r),
{
    FunctionSchema {
        positional: pos(1, 1),
        no_break_first_argument: true,
        ..FunctionSchema::default()
    }
}

pub open spec fn schema_set_cache(s: FunctionSchema) -> bool {
    &&& s.positional == Some(PositionalSpec { min: 2, max: 2 })
    &&& !s.no_break_first_argument
    &&& words_are(s.simple_keywords@, Seq::<Seq<char>>::empty())
    &&& words_are(s.options@, Seq::<Seq<char>>::empty())
    &&& words_are(s.one_value_keywords@, Seq::<Seq<char>>::empty())
    &&& words_are(s.multi_value_keywords@, Seq::<Seq<char>>::empty())
    &&& words_are(s.path_keywords@, Seq::<Seq<char>>::empty())
    &&& types_are(s.list_keyword_types@, Seq::<(Seq<char>, ListType)>::empty())
    &&& s.default_list_type == ListType::Packed
    &&& s.compound_list_keywords@.len() == 0
    &&& s.modes@.len() == 0
    &&& s.subparsers@.len() == 0
}

fn build_set_cache() -> (r: FunctionSchema)
    ensures
        schema_set_cache(r),
{
    FunctionSchema {
        positional: pos(2, 2),
        ..FunctionSchema::default()
    }
}

pub open spec fn schema_set(s: FunctionSchema) -> bool {
    &&& s.positional == Some(PositionalSpec { min: 1, max: 1 })
    &&& s.no_break_first_argument == true
    &&& words_are(s.simple_keywords@, Seq::<Seq<char>>::empty())
    &&& words_are(s.options@, Seq::<Seq<char>>::empty())
    &&& words_are(s.one_value_keywords@, Seq::<Seq<char>>::empty())
    &&& words_are(s.multi_value_keywords@, Seq::<Seq<char>>::empty())
    &&& words_are(s.path_keywords@, Seq::<Seq<char>>::empty())
    &&& types_are(s.list_keyword_types@, Seq::<(Seq<char>, ListType)>::empty())
    &&& s.default_list_type == ListType::Packed
    &&& s.compound_list_keywords@.len() == 0
    &&& s.modes@.len() == 0
    &&& s.subparsers@.len() == 1
    &&& s.subparsers@[0].0@ == "CACHE"@
    &&& schema_set_cache(s.subparsers@[0].1)
}

fn build_set() -> (r: FunctionSchema)
    ensures
        schema_set(r),
{
    FunctionSchema {
        positional: pos(1, 1),
        no_break_first_argument: true,
        subparsers: vec![(owned("CACHE"), build_set_cache())],
        ..FunctionSchema::default()
    }
}

pub open spec fn schema_file_configure(s: FunctionSchema) -> bool {
    &&& s.positional is None
    &&& !s.no_break_first_argument
    &&& words_are(s.simple_keywords@, Seq::<Seq<char>>::empty())
    &&& words_are(s.options@, seq!["COPYONLY"@, "ESCAPE_QUOTES"@, "@ONLY"@])
    &&& words_are(s.one_value_keywords@, seq!["OUTPUT"@, "INPUT"@, "CONTENT"@, "NEWLINE_STYLE"@])
    &&& words_are(s.multi_value_keywords@, Seq::<Seq<char>>::empty())
    &&& words_are(s.path_keywords@, Seq::<Seq<char>>::empty())
    &&& types_are(s.list_keyword_types@, seq![("OUTPUT"@, ListType::Path), ("INPUT"@, ListType::Path)])
    &&& s.default_list_type == ListType::Packed
    &&& s.compound_list_keywords@.len() == 0
    &&& s.modes@.len() == 0
    &&& s.subparsers@.len() == 0
}

fn build_file_configure() -> (r: FunctionSchema)
    ensures
        schema_file_configure(r),
{
    FunctionSchema {
        options: w(&["COPYONLY", "ESCAPE_QUOTES", "@ONLY"]),
        one_value_keywords: w(&["OUTPUT", "INPUT", "CONTENT", "NEWLINE_STYLE"]),
        list_keyword_types: lt(&[("OUTPUT", ListType::Path), ("INPUT", ListType::Path)]),
        ..FunctionSchema::default()
    }
}

pub open spec fn schema_file_glob(s: FunctionSchema) -> bool {
    &&& s.positional == Some(PositionalSpec { min: 1, max: 1 })
    &&& !s.no_break_first_argument
    &&& words_are(s.simple_keywords@, Seq::<Seq<char>>::empty())
    &&& words_are(s.options@, seq!["CONFIGURE_DEPENDS"@])
    &&& words_are(s.one_value_keywords@, seq!["LIST_DIRECTORIES"@, "RELATIVE"@])
    &&& words_are(s.multi_value_keywords@, Seq::<Seq<char>>::empty())
    &&& words_are(s.path_keywords@, Seq::<Seq<char>>::empty())
    &&& types_are(s.list_keyword_types@, Seq::<(Seq<char>, ListType)>::empty())
    &&& s.default_list_type == ListType::Packed
    &&& s.compound_list_keywords@.len() == 0
    &&& s.modes@.len() == 0
    &&& s.subparsers@.len() == 0
}

fn build_file_glob() -> (r: FunctionSchema)
    ensures
        schema_file_glob(r),
{
    FunctionSchema {
        positional: pos(1, 1),
        options: w(&["CONFIGURE_DEPENDS"]),
        one_value_keywords: w(&["LIST_DIRECTORIES", "RELATIVE"]),
        ..FunctionSchema::default()
    }
}

pub open spec fn schema_file_glob_recurse(s: FunctionSchema) -> bool {
    &&& s.positional == Some(PositionalSpec { min: 1, max: 1 })
    &&& !s.no_break_first_argument
    &&& words_are(s.simple_keywords@, Seq::<Seq<char>>::empty())
    &&& words_are(s.options@, seq!["CONFIGURE_DEPENDS"@, "FOLLOW_SYMLINKS"@])
    &&& words_are(s.one_value_keywords@, seq!["LIST_DIRECTORIES"@, "RELATIVE"@])
    &&& words_are(s.multi_value_keywords@, Seq::<Seq<char>>::empty())
    &&& words_are(s.path_keywords@, Seq::<Seq<char>>::empty())
    &&& types_are(s.list_keyword_types@, Seq::<(Seq<char>, ListType)>::empty())
    &&& s.default_list_type == ListType::Packed
    &&& s.compound_list_keywords@.len() == 0
    &&& s.modes@.len() == 0
    &&& s.subparsers@.len() == 0
}

fn build_file_glob_recurse() -> (r: FunctionSchema)
    ensures
        schema_file_glob_recurse(r),
{
    FunctionSchema {
        positional: pos(1, 1),
        options: w(&["CONFIGURE_DEPENDS", "FOLLOW_SYMLINKS"]),
        one_value_keywords: w(&["LIST_DIRECTORIES", "RELATIVE"]),
        ..FunctionSchema::default()
    }
}

pub open spec fn schema_file(s: FunctionSchema) -> bool {
    &&& s.positional is None
    &&& s.no_break_first_argument == true
    &&& words_are(s.simple_keywords@, Seq::<Seq<char>>::empty())
    &&& words_are(s.options@, seq!["GENERATE"@, "MAKE_DIRECTORY"@, "COPYONLY"@, "ESCAPE_QUOTES"@, "@ONLY"@, "REMOVE"@, "REMOVE_RECURSE"@, "COPY"@, "INSTALL"@, "DOWNLOAD"@, "UPLOAD"@, "READ"@, "WRITE"@, "APPEND"@])
    &&& words_are(s.one_value_keywords@, seq!["OUTPUT"@, "INPUT"@, "CONTENT"@, "DESTINATION"@, "RENAME"@, "TYPE"@, "RESULT_VARIABLE"@, "STATUS"@, "LOG"@, "TIMEOUT"@])
    &&& words_are(s.multi_value_keywords@, seq!["PERMISSIONS"@, "FILES_MATCHING"@])
    &&& words_are(s.path_keywords@, Seq::<Seq<char>>::empty())
    &&& types_are(s.list_keyword_types@, seq![("OUTPUT"@, ListType::Path), ("INPUT"@, ListType::Path), ("DESTINATION"@, ListType::Path)])
    &&& s.default_list_type == ListType::Packed
    &&& s.compound_list_keywords@.len() == 0
    &&& s.modes@.len() == 3
    &&& s.modes@[0].0@ == "CONFIGURE"@
    &&& schema_file_configure(s.modes@[0].1)
    &&& s.modes@[1].0@ == "GLOB"@
    &&& schema_file_glob(s.modes@[1].1)
    &&& s.modes@[2].0@ == "GLOB_RECURSE"@
    &&& schema_file_glob_recurse(s.modes@[2].1)
    &&& s.subparsers@.len() == 0
}

fn build_file() -> (r: FunctionSchema)
    ensures
        schema_file(r),
{
    FunctionSchema {
        no_break_first_argument: true,
        options: w(&["GENERATE", "MAKE_DIRECTORY", "COPYONLY", "ESCAPE_QUOTES", "@ONLY", "REMOVE", "REMOVE_RECURSE", "COPY", "INSTALL", "DOWNLOAD", "UPLOAD", "READ", "WRITE", "APPEND"]),
        one_value_keywords: w(&["OUTPUT", "INPUT", "CONTENT", "DESTINATION", "RENAME", "TYPE", "RESULT_VARIABLE", "STATUS", "LOG", "TIMEOUT"]),
        multi_value_keywords: w(&["PERMISSIONS", "FILES_MATCHING"]),
        list_keyword_types: lt(&[("OUTPUT", ListType::Path), ("INPUT", ListType::Path), ("DESTINATION", ListType::Path)]),
        modes: vec![(owned("CONFIGURE"), build_file_configure()), (owned("GLOB"), build_file_glob()), (owned("GLOB_RECURSE"), build_file_glob_recurse())],
        ..FunctionSchema::default()
    }
}

pub open spec fn schema_export(s: FunctionSchema) -> bool {
    &&& s.positional is None
    &&& !s.no_break_first_argument
    &&& words_are(s.simple_keywords@, Seq::<Seq<char>>::empty())
    &&& words_are(s.options@, seq!["APPEND"@, "EXPORT_LINK_INTERFACE_LIBRARIES"@])
    &&& words_are(s.one_value_keywords@, seq!["NAMESPACE"@, "FILE"@, "ANDROID_MK"@])
    &&& words_are(s.multi_value_keywords@, seq!["TARGETS"@])
    &&& words_are(s.path_keywords@, Seq::<Seq<char>>::empty())
    &&& types_are(s.list_keyword_types@, seq![("FILE"@, ListType::Path)])
    &&& s.default_list_type == ListType::Packed
    &&& s.compound_list_keywords@.len() == 0
    &&& s.modes@.len() == 0
    &&& s.subparsers@.len() == 0
}

fn build_export() -> (r: FunctionSchema)
    ensures
        schema_export(r),
{
    FunctionSchema {
        options: w(&["APPEND", "EXPORT_LINK_INTERFACE_LIBRARIES"]),
        one_value_keywords: w(&["NAMESPACE", "FILE", "ANDROID_MK"]),
        multi_value_keywords: w(&["TARGETS"]),
        list_keyword_types: lt(&[("FILE", ListType::Path)]),
        ..FunctionSchema::default()
    }
}

pub open spec fn schema_cmake_path_set(s: FunctionSchema) -> bool {
    &&& s.positional == Some(PositionalSpec { min: 1, max: 1 })
    &&& !s.no_break_first_argument
    &&& words_are(s.simple_keywords@, Seq::<Seq<char>>::empty())
    &&& words_are(s.options@, seq!["NORMALIZE"@])
    &&& words_are(s.one_value_keywords@, Seq::<Seq<char>>::empty())
    &&& words_are(s.multi_value_keywords@, Seq::<Seq<char>>::empty())
    &&& words_are(s.path_keywords@, Seq::<Seq<char>>::empty())
    &&& types_are(s.list_keyword_types@, Seq::<(Seq<char>, ListType)>::empty())
    &&& s.default_list_type == ListType::Packed
    &&& s.compound_list_keywords@.len() == 0
    &&& s.modes@.len() == 0
    &&& s.subparsers@.len() == 0
}

fn build_cmake_path_set() -> (r: FunctionSchema)
    ensures
        schema_cmake_path_set(r),
{
    FunctionSchema {
        positional: pos(1, 1),
        options: w(&["NORMALIZE"]),
        ..FunctionSchema::default()
    }
}

pub open spec fn schema_cmake_path_append(s: FunctionSchema) -> bool {
    &&& s.positional == Some(PositionalSpec { min: 1, max: 1 })
    &&& !s.no_break_first_argument
    &&& words_are(s.simple_keywords@, Seq::<Seq<char>>::empty())
    &&& words_are(s.options@, seq!["OUTPUT_VARIABLE"@])
    &&& words_are(s.one_value_keywords@, Seq::<Seq<char>>::empty())
    &&& words_are(s.multi_value_keywords@, Seq::<Seq<char>>::empty())
    &&& words_are(s.path_keywords@, Seq::<Seq<char>>::empty())
    &&& types_are(s.list_keyword_types@, Seq::<(Seq<char>, ListType)>::empty())
    &&& s.default_list_type == ListType::Packed
    &&& s.compound_list_keywords@.len() == 0
    &&& s.modes@.len() == 0
    &&& s.subparsers@.len() == 0
}

fn build_cmake_path_append() -> (r: FunctionSchema)
    ensures
        schema_cmake_path_append(r),
{
    FunctionSchema {
        positional: pos(1, 1),
        options: w(&["OUTPUT_VARIABLE"]),
        ..FunctionSchema::default()
    }
}

pub open spec fn schema_cmake_path_append_string(s: FunctionSchema) -> bool {
    &&& s.positional == Some(PositionalSpec { min: 1, max: 1 })
    &&& !s.no_break_first_argument
    &&& words_are(s.simple_keywords@, Seq::<Seq<char>>::empty())
    &&& words_are(s.options@, seq!["OUTPUT_VARIABLE"@])
    &&& words_are(s.one_value_keywords@, Seq::<Seq<char>>::empty())
    &&& words_are(s.multi_value_keywords@, Seq::<Seq<char>>::empty())
    &&& words_are(s.path_keywords@, Seq::<Seq<char>>::empty())
    &&& types_are(s.list_keyword_types@, Seq::<(Seq<char>, ListType)>::empty())
    &&& s.default_list_type == ListType::Packed
    &&& s.compound_list_keywords@.len() == 0
    &&& s.modes@.len() == 0
    &&& s.subparsers@.len() == 0
}

fn build_cmake_path_append_string() -> (r: FunctionSchema)
    ensures
        schema_cmake_path_append_string(r),
{
    FunctionSchema {
        positional: pos(1, 1),
        options: w(&["OUTPUT_VARIABLE"]),
        ..FunctionSchema::default()
    }
}

pub open spec fn schema_cmake_path_get(s: FunctionSchema) -> bool {
    &&& s.positional == Some(PositionalSpec { min: 1, max: 2 })
    &&& !s.no_break_first_argument
    &&& words_are(s.simple_keywords@, Seq::<Seq<char>>::empty())
    &&& words_are(s.options@, Seq::<Seq<char>>::empty())
    &&& words_are(s.one_value_keywords@, seq!["OUTPUT_VARIABLE"@])
    &&& words_are(s.multi_value_keywords@, Seq::<Seq<char>>::empty())
    &&& words_are(s.path_keywords@, Seq::<Seq<char>>::empty())
    &&& types_are(s.list_keyword_types@, Seq::<(Seq<char>, ListType)>::empty())
    &&& s.default_list_type == ListType::Packed
    &&& s.compound_list_keywords@.len() == 0
    &&& s.modes@.len() == 0
    &&& s.subparsers@.len() == 0
}

fn build_cmake_path_get() -> (r: FunctionSchema)
    ensures
        schema_cmake_path_get(r),
{
    FunctionSchema {
        positional: pos(1, 2),
        one_value_keywords: w(&["OUTPUT_VARIABLE"]),
        ..FunctionSchema::default()
    }
}

pub open spec fn schema_cmake_path_convert(s: FunctionSchema) -> bool {
    &&& s.positional == Some(PositionalSpec { min: 1, max: 1 })
    &&& !s.no_break_first_argument
    &&& words_are(s.simple_keywords@, Seq::<Seq<char>>::empty())
    &&& words_are(s.options@, seq!["NORMALIZE"@])
    &&& words_are(s.one_value_keywords@, seq!["OUTPUT_VARIABLE"@])
    &&& words_are(s.multi_value_keywords@, Seq::<Seq<char>>::empty())
    &&& words_are(s.path_keywords@, Seq::<Seq<char>>::empty())
    &&& types_are(s.list_keyword_types@, Seq::<(Seq<char>, ListType)>::empty())
    &&& s.default_list_type == ListType::Packed
    &&& s.compound_list_keywords@.len() == 0
    &&& s.modes@.len() == 0
    &&& s.subparsers@.len() == 0
}

fn build_cmake_path_convert() -> (r: FunctionSchema)
    ensures
        schema_cmake_path_convert(r),
{
    FunctionSchema {
        positional: pos(1, 1),
        options: w(&["NORMALIZE"]),
        one_value_keywords: w(&["OUTPUT_VARIABLE"]),
        ..FunctionSchema::default()
    }
}

pub open spec fn schema_cmake_path_absolute_path(s: FunctionSchema) -> bool {
    &&& s.positional == Some(PositionalSpec { min: 1, max: 1 })
    &&& !s.no_break_first_argument
    &&& words_are(s.simple_keywords@, Seq::<Seq<char>>::empty())
    &&& words_are(s.options@, seq!["NORMALIZE"@])
    &&& words_are(s.one_value_keywords@, seq!["BASE_DIRECTORY"@, "OUTPUT_VARIABLE"@])
    &&& words_are(s.multi_value_keywords@, Seq::<Seq<char>>::empty())
    &&& words_are(s.path_keywords@, Seq::<Seq<char>>::empty())
    &&& types_are(s.list_keyword_types@, Seq::<(Seq<char>, ListType)>::empty())
    &&& s.default_list_type == ListType::Packed
    &&& s.compound_list_keywords@.len() == 0
    &&& s.modes@.len() == 0
    &&& s.subparsers@.len() == 0
}

fn build_cmake_path_absolute_path() -> (r: FunctionSchema)
    ensures
        schema_cmake_path_absolute_path(r),
{
    FunctionSchema {
        positional: pos(1, 1),
        options: w(&["NORMALIZE"]),
        one_value_keywords: w(&["BASE_DIRECTORY", "OUTPUT_VARIABLE"]),
        ..FunctionSchema::default()
    }
}

pub open spec fn schema_cmake_path_relative_path(s: FunctionSchema) -> bool {
    &&& s.positional == Some(PositionalSpec { min: 1, max: 1 })
    &&& !s.no_break_first_argument
    &&& words_are(s.simple_keywords@, Seq::<Seq<char>>::empty())
    &&& words_are(s.options@, Seq::<Seq<char>>::empty())
    &&& words_are(s.one_value_keywords@, seq!["BASE_DIRECTORY"@, "OUTPUT_VARIABLE"@])
    &&& words_are(s.multi_value_keywords@, Seq::<Seq<char>>::empty())
    &&& words_are(s.path_keywords@, Seq::<Seq<char>>::empty())
    &&& types_are(s.list_keyword_types@, Seq::<(Seq<char>, ListType)>::empty())
    &&& s.default_list_type == ListType::Packed
    &&& s.compound_list_keywords@.len() == 0
    &&& s.modes@.len() == 0
    &&& s.subparsers@.len() == 0
}

fn build_cmake_path_relative_path() -> (r: FunctionSchema)
    ensures
        schema_cmake_path_relative_path(r),
{
    FunctionSchema {
        positional: pos(1, 1),
        one_value_keywords: w(&["BASE_DIRECTORY", "OUTPUT_VARIABLE"]),
        ..FunctionSchema::default()
    }
}

pub open spec fn schema_cmake_path(s: FunctionSchema) -> bool {
    &&& s.positional is None
    &&& s.no_break_first_argument == true
    &&& words_are(s.simple_keywords@, Seq::<Seq<char>>::empty())
    &&& words_are(s.options@, seq!["NORMALIZE"@, "HAS_ROOT_NAME"@, "HAS_ROOT_DIRECTORY"@, "HAS_ROOT_PATH"@, "HAS_FILENAME"@, "HAS_EXTENSION"@, "HAS_STEM"@, "HAS_RELATIVE_PART"@, "HAS_PARENT_PATH"@, "IS_ABSOLUTE"@, "IS_RELATIVE"@])
    &&& words_are(s.one_value_keywords@, seq!["BASE_DIRECTORY"@, "OUTPUT_VARIABLE"@, "FILENAME"@, "EXTENSION"@, "STEM"@, "RELATIVE_PART"@, "PARENT_PATH"@, "ROOT_NAME"@, "ROOT_DIRECTORY"@, "ROOT_PATH"@])
    &&& words_are(s.multi_value_keywords@, Seq::<Seq<char>>::empty())
    &&& words_are(s.path_keywords@, Seq::<Seq<char>>::empty())
    &&& types_are(s.list_keyword_types@, Seq::<(Seq<char>, ListType)>::empty())
    &&& s.default_list_type == ListType::Packed
    &&& s.compound_list_keywords@.len() == 0
    &&& s.modes@.len() == 7
    &&& s.modes@[0].0@ == "SET"@
    &&& schema_cmake_path_set(s.modes@[0].1)
    &&& s.modes@[1].0@ == "APPEND"@
    &&& schema_cmake_path_append(s.modes@[1].1)
    &&& s.modes@[2].0@ == "APPEND_STRING"@
    &&& schema_cmake_path_append_string(s.modes@[2].1)
    &&& s.modes@[3].0@ == "GET"@
    &&& schema_cmake_path_get(s.modes@[3].1)
    &&& s.modes@[4].0@ == "CONVERT"@
    &&& schema_cmake_path_convert(s.modes@[4].1)
    &&& s.modes@[5].0@ == "ABSOLUTE_PATH"@
    &&& schema_cmake_path_absolute_path(s.modes@[5].1)
    &&& s.modes@[6].0@ == "RELATIVE_PATH"@
    &&& schema_cmake_path_relative_path(s.modes@[6].1)
    &&& s.subparsers@.len() == 0
}

fn build_cmake_path() -> (r: FunctionSchema)
    ensures
        schema_cmake_path(r),
{
    FunctionSchema {
        no_break_first_argument: true,
        options: w(&["NORMALIZE", "HAS_ROOT_NAME", "HAS_ROOT_DIRECTORY", "HAS_ROOT_PATH", "HAS_FILENAME", "HAS_EXTENSION", "HAS_STEM", "HAS_RELATIVE_PART", "HAS_PARENT_PATH", "IS_ABSOLUTE", "IS_RELATIVE"]),
        one_value_keywords: w(&["BASE_DIRECTORY", "OUTPUT_VARIABLE", "FILENAME", "EXTENSION", "STEM", "RELATIVE_PART", "PARENT_PATH", "ROOT_NAME", "ROOT_DIRECTORY", "ROOT_PATH"]),
        modes: vec![(owned("SET"), build_cmake_path_set()), (owned("APPEND"), build_cmake_path_append()), (owned("APPEND_STRING"), build_cmake_path_append_string()), (owned("GET"), build_cmake_path_get()), (owned("CONVERT"), build_cmake_path_convert()), (owned("ABSOLUTE_PATH"), build_cmake_path_absolute_path()), (owned("RELATIVE_PATH"), build_cmake_path_relative_path())],
        ..FunctionSchema::default()
    }
}

pub open spec fn schema_cmake_language_call(s: FunctionSchema) -> bool {
    &&& s.positional == Some(PositionalSpec { min: 1, max: 1 })
    &&& !s.no_break_first_argument
    &&& words_are(s.simple_keywords@, Seq::<Seq<char>>::empty())
    &&& words_are(s.options@, Seq::<Seq<char>>::empty())
    &&& words_are(s.one_value_keywords@, Seq::<Seq<char>>::empty())
    &&& words_are(s.multi_value_keywords@, Seq::<Seq<char>>::empty())
    &&& words_are(s.path_keywords@, Seq::<Seq<char>>::empty())
    &&& types_are(s.list_keyword_types@, Seq::<(Seq<char>, ListType)>::empty())
    &&& s.default_list_type == ListType::Packed
    &&& s.compound_list_keywords@.len() == 0
    &&& s.modes@.len() == 0
    &&& s.subparsers@.len() == 0
}

fn build_cmake_language_call() -> (r: FunctionSchema)
    ensures
        schema_cmake_language_call(r),
{
    FunctionSchema {
        positional: pos(1, 1),
        ..FunctionSchema::default()
    }
}

pub open spec fn schema_cmake_language_eval(s: FunctionSchema) -> bool {
    &&& s.positional is None
    &&& !s.no_break_first_argument
    &&& words_are(s.simple_keywords@, Seq::<Seq<char>>::empty())
    &&& words_are(s.options@, Seq::<Seq<char>>::empty())
    &&& words_are(s.one_value_keywords@, Seq::<Seq<char>>::empty())
    &&& words_are(s.multi_value_keywords@, seq!["CODE"@])
    &&& words_are(s.path_keywords@, Seq::<Seq<char>>::empty())
    &&& types_are(s.list_keyword_types@, Seq::<(Seq<char>, ListType)>::empty())
    &&& s.default_list_type == ListType::Packed
    &&& s.compound_list_keywords@.len() == 0
    &&& s.modes@.len() == 0
    &&& s.subparsers@.len() == 0
}

fn build_cmake_language_eval() -> (r: FunctionSchema)
    ensures
        schema_cmake_language_eval(r),
{
    FunctionSchema {
        multi_value_keywords: w(&["CODE"]),
        ..FunctionSchema::default()
    }
}

pub open spec fn schema_cmake_language_defer(s: FunctionSchema) -> bool {
    &&& s.positional is None
    &&& !s.no_break_first_argument
    &&& words_are(s.simple_keywords@, Seq::<Seq<char>>::empty())
    &&& words_are(s.options@, Seq::<Seq<char>>::empty())
    &&& words_are(s.one_value_keywords@, seq!["ID"@, "ID_VAR"@, "GET_CALL_IDS"@])
    &&& words_are(s.multi_value_keywords@, seq!["DIRECTORY"@, "CALL"@, "GET_CALL"@, "CANCEL_CALL"@])
    &&& words_are(s.path_keywords@, Seq::<Seq<char>>::empty())
    &&& types_are(s.list_keyword_types@, seq![("DIRECTORY"@, ListType::Path)])
    &&& s.default_list_type == ListType::Packed
    &&& s.compound_list_keywords@.len() == 0
    &&& s.modes@.len() == 0
    &&& s.subparsers@.len() == 0
}

fn build_cmake_language_defer() -> (r: FunctionSchema)
    ensures
        schema_cmake_language_defer(r),
{
    FunctionSchema {
        one_value_keywords: w(&["ID", "ID_VAR", "GET_CALL_IDS"]),
        multi_value_keywords: w(&["DIRECTORY", "CALL", "GET_CALL", "CANCEL_CALL"]),
        list_keyword_types: lt(&[("DIRECTORY", ListType::Path)]),
        ..FunctionSchema::default()
    }
}

pub open spec fn schema_cmake_language_get_message_log_level(s: FunctionSchema) -> bool {
    &&& s.positional == Some(PositionalSpec { min: 1, max: 1 })
    &&& !s.no_break_first_argument
    &&& words_are(s.simple_keywords@, Seq::<Seq<char>>::empty())
    &&& words_are(s.options@, Seq::<Seq<char>>::empty())
    &&& words_are(s.one_value_keywords@, Seq::<Seq<char>>::empty())
    &&& words_are(s.multi_value_keywords@, Seq::<Seq<char>>::empty())
    &&& words_are(s.path_keywords@, Seq::<Seq<char>>::empty())
    &&& types_are(s.list_keyword_types@, Seq::<(Seq<char>, ListType)>::empty())
    &&& s.default_list_type == ListType::Packed
    &&& s.compound_list_keywords@.len() == 0
    &&& s.modes@.len() == 0
    &&& s.subparsers@.len() == 0
}

fn build_cmake_language_get_message_log_level() -> (r: FunctionSchema)
    ensures
        schema_cmake_language_get_message_log_level(r),
{
    FunctionSchema {
        positional: pos(1, 1),
        ..FunctionSchema::default()
    }
}

pub open spec fn schema_cmake_language_set_dependency_provider(s: FunctionSchema) -> bool {
    &&& s.positional == Some(PositionalSpec { min: 1, max: 1 })
    &&& !s.no_break_first_argument
    &&& words_are(s.simple_keywords@, Seq::<Seq<char>>::empty())
    &&& words_are(s.options@, Seq::<Seq<char>>::empty())
    &&& words_are(s.one_value_keywords@, Seq::<Seq<char>>::empty())
    &&& words_are(s.multi_value_keywords@, seq!["SUPPORTED_METHODS"@])
    &&& words_are(s.path_keywords@, Seq::<Seq<char>>::empty())
    &&& types_are(s.list_keyword_types@, Seq::<(Seq<char>, ListType)>::empty())
    &&& s.default_list_type == ListType::Packed
    &&& s.compound_list_keywords@.len() == 0
    &&& s.modes@.len() == 0
    &&& s.subparsers@.len() == 0
}

fn build_cmake_language_set_dependency_provider() -> (r: FunctionSchema)
    ensures
        schema_cmake_language_set_dependency_provider(r),
{
    FunctionSchema {
        positional: pos(1, 1),
        multi_value_keywords: w(&["SUPPORTED_METHODS"]),
        ..FunctionSchema::default()
    }
}

pub open spec fn schema_cmake_language_get_experimental_feature_enabled(s: FunctionSchema) -> bool {
    &&& s.positional == Some(PositionalSpec { min: 2, max: 2 })
    &&& !s.no_break_first_argument
    &&& words_are(s.simple_keywords@, Seq::<Seq<char>>::empty())
    &&& words_are(s.options@, Seq::<Seq<char>>::empty())
    &&& words_are(s.one_value_keywords@, Seq::<Seq<char>>::empty())
    &&& words_are(s.multi_value_keywords@, Seq::<Seq<char>>::empty())
    &&& words_are(s.path_keywords@, Seq::<Seq<char>>::empty())
    &&& types_are(s.list_keyword_types@, Seq::<(Seq<char>, ListType)>::empty())
    &&& s.default_list_type == ListType::Packed
    &&& s.compound_list_keywords@.len() == 0
    &&& s.modes@.len() == 0
    &&& s.subparsers@.len() == 0
}

fn build_cmake_language_get_experimental_feature_enabled() -> (r: FunctionSchema)
    ensures
        schema_cmake_language_get_experimental_feature_enabled(r),
{
    FunctionSchema {
        positional: pos(2, 2),
        ..FunctionSchema::default()
    }
}

pub open spec fn schema_cmake_language(s: FunctionSchema) -> bool {
    &&& s.positional is None
    &&& s.no_break_first_argument == true
    &&& words_are(s.simple_keywords@, Seq::<Seq<char>>::empty())
    &&& words_are(s.options@, Seq::<Seq<char>>::empty())
    &&& words_are(s.one_value_keywords@, Seq::<Seq<char>>::empty())
    &&& words_are(s.multi_value_keywords@, Seq::<Seq<char>>::empty())
    &&& words_are(s.path_keywords@, Seq::<Seq<char>>::empty())
    &&& types_are(s.list_keyword_types@, Seq::<(Seq<char>, ListType)>::empty())
    &&& s.default_list_type == ListType::Packed
    &&& s.compound_list_keywords@.len() == 0
    &&& s.modes@.len() == 6
    &&& s.modes@[0].0@ == "CALL"@
    &&& schema_cmake_language_call(s.modes@[0].1)
    &&& s.modes@[1].0@ == "EVAL"@
    &&& schema_cmake_language_eval(s.modes@[1].1)
    &&& s.modes@[2].0@ == "DEFER"@
    &&& schema_cmake_language_defer(s.modes@[2].1)
    &&& s.modes@[3].0@ == "GET_MESSAGE_LOG_LEVEL"@
    &&& schema_cmake_language_get_message_log_level(s.modes@[3].1)
    &&& s.modes@[4].0@ == "SET_DEPENDENCY_PROVIDER"@
    &&& schema_cmake_language_set_dependency_provider(s.modes@[4].1)
    &&& s.modes@[5].0@ == "GET_EXPERIMENTAL_FEATURE_ENABLED"@
    &&& schema_cmake_language_get_experimental_feature_enabled(s.modes@[5].1)
    &&& s.subparsers@.len() == 0
}

fn build_cmake_language() -> (r: FunctionSchema)
    ensures
        schema_cmake_language(r),
{
    FunctionSchema {
        no_break_first_argument: true,
        modes: vec![(owned("CALL"), build_cmake_language_call()), (owned("EVAL"), build_cmake_language_eval()), (owned("DEFER"), build_cmake_language_defer()), (owned("GET_MESSAGE_LOG_LEVEL"), build_cmake_language_get_message_log_level()), (owned("SET_DEPENDENCY_PROVIDER"), build_cmake_language_set_dependency_provider()), (owned("GET_EXPERIMENTAL_FEATURE_ENABLED"), build_cmake_language_get_experimental_feature_enabled())],
        ..FunctionSchema::default()
    }
}

pub open spec fn schema_list_append(s: FunctionSchema) -> bool {
    &&& s.positional == Some(PositionalSpec { min: 1, max: 1 })
    &&& !s.no_break_first_argument
    &&& words_are(s.simple_keywords@, Seq::<Seq<char>>::empty())
    &&& words_are(s.options@, Seq::<Seq<char>>::empty())
    &&& words_are(s.one_value_keywords@, Seq::<Seq<char>>::empty())
    &&& words_are(s.multi_value_keywords@, Seq::<Seq<char>>::empty())
    &&& words_are(s.path_keywords@, Seq::<Seq<char>>::empty())
    &&& types_are(s.list_keyword_types@, Seq::<(Seq<char>, ListType)>::empty())
    &&& s.default_list_type == ListType::Packed
    &&& s.compound_list_keywords@.len() == 0
    &&& s.modes@.len() == 0
    &&& s.subparsers@.len() == 0
}

fn build_list_append() -> (r: FunctionSchema)
    ensures
        schema_list_append(r),
{
    FunctionSchema {
        positional: pos(1, 1),
        ..FunctionSchema::default()
    }
}

pub open spec fn schema_list_prepend(s: FunctionSchema) -> bool {
    &&& s.positional == Some(PositionalSpec { min: 1, max: 1 })
    &&& !s.no_break_first_argument
    &&& words_are(s.simple_keywords@, Seq::<Seq<char>>::empty())
    &&& words_are(s.options@, Seq::<Seq<char>>::empty())
    &&& words_are(s.one_value_keywords@, Seq::<Seq<char>>::empty())
    &&& words_are(s.multi_value_keywords@, Seq::<Seq<char>>::empty())
    &&& words_are(s.path_keywords@, Seq::<Seq<char>>::empty())
    &&& types_are(s.list_keyword_types@, Seq::<(Seq<char>, ListType)>::empty())
    &&& s.default_list_type == ListType::Packed
    &&& s.compound_list_keywords@.len() == 0
    &&& s.modes@.len() == 0
    &&& s.subparsers@.len() == 0
}

fn build_list_prepend() -> (r: FunctionSchema)
    ensures
        schema_list_prepend(r),
{
    FunctionSchema {
        positional: pos(1, 1),
        ..FunctionSchema::default()
    }
}

pub open spec fn schema_list_transform_append(s: FunctionSchema) -> bool {
    &&& s.positional == Some(PositionalSpec { min: 1, max: 1 })
    &&& !s.no_break_first_argument
    &&& words_are(s.simple_keywords@, Seq::<Seq<char>>::empty())
    &&& words_are(s.options@, Seq::<Seq<char>>::empty())
    &&& words_are(s.one_value_keywords@, Seq::<Seq<char>>::empty())
    &&& words_are(s.multi_value_keywords@, Seq::<Seq<char>>::empty())
    &&& words_are(s.path_keywords@, Seq::<Seq<char>>::empty())
    &&& types_are(s.list_keyword_types@, Seq::<(Seq<char>, ListType)>::empty())
    &&& s.default_list_type == ListType::Packed
    &&& s.compound_list_keywords@.len() == 0
    &&& s.modes@.len() == 0
    &&& s.subparsers@.len() == 0
}

fn build_list_transform_append() -> (r: FunctionSchema)
    ensures
        schema_list_transform_append(r),
{
    FunctionSchema {
        positional: pos(1, 1),
        ..FunctionSchema::default()
    }
}

pub open spec fn schema_list_transform_prepend(s: FunctionSchema) -> bool {
    &&& s.positional == Some(PositionalSpec { min: 1, max: 1 })
    &&& !s.no_break_first_argument
    &&& words_are(s.simple_keywords@, Seq::<Seq<char>>::empty())
    &&& words_are(s.options@, Seq::<Seq<char>>::empty())
    &&& words_are(s.one_value_keywords@, Seq::<Seq<char>>::empty())
    &&& words_are(s.multi_value_keywords@, Seq::<Seq<char>>::empty())
    &&& words_are(s.path_keywords@, Seq::<Seq<char>>::empty())
    &&& types_are(s.list_keyword_types@, Seq::<(Seq<char>, ListType)>::empty())
    &&& s.default_list_type == ListType::Packed
    &&& s.compound_list_keywords@.len() == 0
    &&& s.modes@.len() == 0
    &&& s.subparsers@.len() == 0
}

fn build_list_transform_prepend() -> (r: FunctionSchema)
    ensures
        schema_list_transform_prepend(r),
{
    FunctionSchema {
        positional: pos(1, 1),
        ..FunctionSchema::default()
    }
}

pub open spec fn schema_list_transform_replace(s: FunctionSchema) -> bool {
    &&& s.positional == Some(PositionalSpec { min: 2, max: 2 })
    &&& !s.no_break_first_argument
    &&& words_are(s.simple_keywords@, Seq::<Seq<char>>::empty())
    &&& words_are(s.options@, Seq::<Seq<char>>::empty())
    &&& words_are(s.one_value_keywords@, Seq::<Seq<char>>::empty())
    &&& words_are(s.multi_value_keywords@, Seq::<Seq<char>>::empty())
    &&& words_are(s.path_keywords@, Seq::<Seq<char>>::empty())
    &&& types_are(s.list_keyword_types@, Seq::<(Seq<char>, ListType)>::empty())
    &&& s.default_list_type == ListType::Packed
    &&& s.compound_list_keywords@.len() == 0
    &&& s.modes@.len() == 0
    &&& s.subparsers@.len() == 0
}

fn build_list_transform_replace() -> (r: FunctionSchema)
    ensures
        schema_list_transform_replace(r),
{
    FunctionSchema {
        positional: pos(2, 2),
        ..FunctionSchema::default()
    }
}

pub open spec fn schema_list_transform(s: FunctionSchema) -> bool {
    &&& s.positional == Some(PositionalSpec { min: 1, max: 1 })
    &&& !s.no_break_first_argument
    &&& words_are(s.simple_keywords@, Seq::<Seq<char>>::empty())
    &&& words_are(s.options@, seq!["TOLOWER"@, "TOUPPER"@, "STRIP"@, "GENEX_STRIP"@])
    &&& words_are(s.one_value_keywords@, seq!["OUTPUT_VARIABLE"@, "REGEX"@])
    &&& words_are(s.multi_value_keywords@, seq!["AT"@, "FOR"@])
    &&& words_are(s.path_keywords@, Seq::<Seq<char>>::empty())
    &&& types_are(s.list_keyword_types@, Seq::<(Seq<char>, ListType)>::empty())
    &&& s.default_list_type == ListType::Packed
    &&& s.compound_list_keywords@.len() == 0
    &&& s.modes@.len() == 0
    &&& s.subparsers@.len() == 3
    &&& s.subparsers@[0].0@ == "APPEND"@
    &&& schema_list_transform_append(s.subparsers@[0].1)
    &&& s.subparsers@[1].0@ == "PREPEND"@
    &&& schema_list_transform_prepend(s.subparsers@[1].1)
    &&& s.subparsers@[2].0@ == "REPLACE"@
    &&& schema_list_transform_replace(s.subparsers@[2].1)
}

fn build_list_transform() -> (r: FunctionSchema)
    ensures
        schema_list_transform(r),
{
    FunctionSchema {
        positional: pos(1, 1),
        options: w(&["TOLOWER", "TOUPPER", "STRIP", "GENEX_STRIP"]),
        one_value_keywords: w(&["OUTPUT_VARIABLE", "REGEX"]),
        multi_value_keywords: w(&["AT", "FOR"]),
        subparsers: vec![(owned("APPEND"), build_list_transform_append()), (owned("PREPEND"), build_list_transform_prepend()), (owned("REPLACE"), build_list_transform_replace())],
        ..FunctionSchema::default()
    }
}

pub open spec fn schema_list(s: FunctionSchema) -> bool {
    &&& s.positional is None
    &&& s.no_break_first_argument == true
    &&& words_are(s.simple_keywords@, Seq::<Seq<char>>::empty())
    &&& words_are(s.options@, seq!["LENGTH"@, "GET"@, "JOIN"@, "SUBLIST"@, "FIND"@, "FILTER"@, "INSERT"@, "POP_BACK"@, "POP_FRONT"@, "REMOVE_ITEM"@, "REMOVE_AT"@, "REMOVE_DUPLICATES"@, "SORT"@, "REVERSE"@, "COMPARE"@, "CASE"@])
    &&& words_are(s.one_value_keywords@, seq!["OUTPUT_VARIABLE"@])
    &&& words_are(s.multi_value_keywords@, Seq::<Seq<char>>::empty())
    &&& words_are(s.path_keywords@, Seq::<Seq<char>>::empty())
    &&& types_are(s.list_keyword_types@, Seq::<(Seq<char>, ListType)>::empty())
    &&& s.default_list_type == ListType::Packed
    &&& s.compound_list_keywords@.len() == 0
    &&& s.modes@.len() == 3
    &&& s.modes@[0].0@ == "APPEND"@
    &&& schema_list_append(s.modes@[0].1)
    &&& s.modes@[1].0@ == "PREPEND"@
    &&& schema_list_prepend(s.modes@[1].1)
    &&& s.modes@[2].0@ == "TRANSFORM"@
    &&& schema_list_transform(s.modes@[2].1)
    &&& s.subparsers@.len() == 0
}

fn build_list() -> (r: FunctionSchema)
    ensures
        schema_list(r),
{
    FunctionSchema {
        no_break_first_argument: true,
        options: w(&["LENGTH", "GET", "JOIN", "SUBLIST", "FIND", "FILTER", "INSERT", "POP_BACK", "POP_FRONT", "REMOVE_ITEM", "REMOVE_AT", "REMOVE_DUPLICATES", "SORT", "REVERSE", "COMPARE", "CASE"]),
        one_value_keywords: w(&["OUTPUT_VARIABLE"]),
        modes: vec![(owned("APPEND"), build_list_append()), (owned("PREPEND"), build_list_prepend()), (owned("TRANSFORM"), build_list_transform())],
        ..FunctionSchema::default()
    }
}

pub open spec fn schema_string_concat(s: FunctionSchema) -> bool {
    &&& s.positional == Some(PositionalSpec { min: 1, max: 1 })
    &&& !s.no_break_first_argument
    &&& words_are(s.simple_keywords@, Seq::<Seq<char>>::empty())
    &&& words_are(s.options@, Seq::<Seq<char>>::empty())
    &&& words_are(s.one_value_keywords@, Seq::<Seq<char>>::empty())
    &&& words_are(s.multi_value_keywords@, Seq::<Seq<char>>::empty())
    &&& words_are(s.path_keywords@, Seq::<Seq<char>>::empty())
    &&& types_are(s.list_keyword_types@, Seq::<(Seq<char>, ListType)>::empty())
    &&& s.default_list_type == ListType::Packed
    &&& s.compound_list_keywords@.len() == 0
    &&& s.modes@.len() == 0
    &&& s.subparsers@.len() == 0
}

fn build_string_concat() -> (r: FunctionSchema)
    ensures
        schema_string_concat(r),
{
    FunctionSchema {
        positional: pos(1, 1),
        ..FunctionSchema::default()
    }
}

pub open spec fn schema_string_join(s: FunctionSchema) -> bool {
    &&& s.positional == Some(PositionalSpec { min: 2, max: 2 })
    &&& !s.no_break_first_argument
    &&& words_are(s.simple_keywords@, Seq::<Seq<char>>::empty())
    &&& words_are(s.options@, Seq::<Seq<char>>::empty())
    &&& words_are(s.one_value_keywords@, Seq::<Seq<char>>::empty())
    &&& words_are(s.multi_value_keywords@, Seq::<Seq<char>>::empty())
    &&& words_are(s.path_keywords@, Seq::<Seq<char>>::empty())
    &&& types_are(s.list_keyword_types@, Seq::<(Seq<char>, ListType)>::empty())
    &&& s.default_list_type == ListType::Packed
    &&& s.compound_list_keywords@.len() == 0
    &&& s.modes@.len() == 0
    &&& s.subparsers@.len() == 0
}

fn build_string_join() -> (r: FunctionSchema)
    ensures
        schema_string_join(r),
{
    FunctionSchema {
        positional: pos(2, 2),
        ..FunctionSchema::default()
    }
}

pub open spec fn schema_string_append(s: FunctionSchema) -> bool {
    &&& s.positional == Some(PositionalSpec { min: 1, max: 1 })
    &&& !s.no_break_first_argument
    &&& words_are(s.simple_keywords@, Seq::<Seq<char>>::empty())
    &&& words_are(s.options@, Seq::<Seq<char>>::empty())
    &&& words_are(s.one_value_keywords@, Seq::<Seq<char>>::empty())
    &&& words_are(s.multi_value_keywords@, Seq::<Seq<char>>::empty())
    &&& words_are(s.path_keywords@, Seq::<Seq<char>>::empty())
    &&& types_are(s.list_keyword_types@, Seq::<(Seq<char>, ListType)>::empty())
    &&& s.default_list_type == ListType::Packed
    &&& s.compound_list_keywords@.len() == 0
    &&& s.modes@.len() == 0
    &&& s.subparsers@.len() == 0
}

fn build_string_append() -> (r: FunctionSchema)
    ensures
        schema_string_append(r),
{
    FunctionSchema {
        positional: pos(1, 1),
        ..FunctionSchema::default()
    }
}

pub open spec fn schema_string_prepend(s: FunctionSchema) -> bool {
    &&& s.positional == Some(PositionalSpec { min: 1, max: 1 })
    &&& !s.no_break_first_argument
    &&& words_are(s.simple_keywords@, Seq::<Seq<char>>::empty())
    &&& words_are(s.options@, Seq::<Seq<char>>::empty())
    &&& words_are(s.one_value_keywords@, Seq::<Seq<char>>::empty())
    &&& words_are(s.multi_value_keywords@, Seq::<Seq<char>>::empty())
    &&& words_are(s.path_keywords@, Seq::<Seq<char>>::empty())
    &&& types_are(s.list_keyword_types@, Seq::<(Seq<char>, ListType)>::empty())
    &&& s.default_list_type == ListType::Packed
    &&& s.compound_list_keywords@.len() == 0
    &&& s.modes@.len() == 0
    &&& s.subparsers@.len() == 0
}

fn build_string_prepend() -> (r: FunctionSchema)
    ensures
        schema_string_prepend(r),
{
    FunctionSchema {
        positional: pos(1, 1),
        ..FunctionSchema::default()
    }
}

pub open spec fn schema_string_find(s: FunctionSchema) -> bool {
    &&& s.positional == Some(PositionalSpec { min: 3, max: 3 })
    &&& !s.no_break_first_argument
    &&& words_are(s.simple_keywords@, Seq::<Seq<char>>::empty())
    &&& words_are(s.options@, Seq::<Seq<char>>::empty())
    &&& words_are(s.one_value_keywords@, Seq::<Seq<char>>::empty())
    &&& words_are(s.multi_value_keywords@, Seq::<Seq<char>>::empty())
    &&& words_are(s.path_keywords@, Seq::<Seq<char>>::empty())
    &&& types_are(s.list_keyword_types@, Seq::<(Seq<char>, ListType)>::empty())
    &&& s.default_list_type == ListType::Packed
    &&& s.compound_list_keywords@.len() == 0
    &&& s.modes@.len() == 0
    &&& s.subparsers@.len() == 0
}

fn build_string_find() -> (r: FunctionSchema)
    ensures
        schema_string_find(r),
{
    FunctionSchema {
        positional: pos(3, 3),
        ..FunctionSchema::default()
    }
}

pub open spec fn schema_string_replace(s: FunctionSchema) -> bool {
    &&& s.positional == Some(PositionalSpec { min: 3, max: 3 })
    &&& !s.no_break_first_argument
    &&& words_are(s.simple_keywords@, Seq::<Seq<char>>::empty())
    &&& words_are(s.options@, Seq::<Seq<char>>::empty())
    &&& words_are(s.one_value_keywords@, Seq::<Seq<char>>::empty())
    &&& words_are(s.multi_value_keywords@, Seq::<Seq<char>>::empty())
    &&& words_are(s.path_keywords@, Seq::<Seq<char>>::empty())
    &&& types_are(s.list_keyword_types@, Seq::<(Seq<char>, ListType)>::empty())
    &&& s.default_list_type == ListType::Packed
    &&& s.compound_list_keywords@.len() == 0
    &&& s.modes@.len() == 0
    &&& s.subparsers@.len() == 0
}

fn build_string_replace() -> (r: FunctionSchema)
    ensures
        schema_string_replace(r),
{
    FunctionSchema {
        positional: pos(3, 3),
        ..FunctionSchema::default()
    }
}

pub open spec fn schema_string_tolower(s: FunctionSchema) -> bool {
    &&& s.positional == Some(PositionalSpec { min: 2, max: 2 })
    &&& !s.no_break_first_argument
    &&& words_are(s.simple_keywords@, Seq::<Seq<char>>::empty())
    &&& words_are(s.options@, Seq::<Seq<char>>::empty())
    &&& words_are(s.one_value_keywords@, Seq::<Seq<char>>::empty())
    &&& words_are(s.multi_value_keywords@, Seq::<Seq<char>>::empty())
    &&& words_are(s.path_keywords@, Seq::<Seq<char>>::empty())
    &&& types_are(s.list_keyword_types@, Seq::<(Seq<char>, ListType)>::empty())
    &&& s.default_list_type == ListType::Packed
    &&& s.compound_list_keywords@.len() == 0
    &&& s.modes@.len() == 0
    &&& s.subparsers@.len() == 0
}

fn build_string_tolower() -> (r: FunctionSchema)
    ensures
        schema_string_tolower(r),
{
    FunctionSchema {
        positional: pos(2, 2),
        ..FunctionSchema::default()
    }
}

pub open spec fn schema_string_toupper(s: FunctionSchema) -> bool {
    &&& s.positional == Some(PositionalSpec { min: 2, max: 2 })
    &&& !s.no_break_first_argument
    &&& words_are(s.simple_keywords@, Seq::<Seq<char>>::empty())
    &&& words_are(s.options@, Seq::<Seq<char>>::empty())
    &&& words_are(s.one_value_keywords@, Seq::<Seq<char>>::empty())
    &&& words_are(s.multi_value_keywords@, Seq::<Seq<char>>::empty())
    &&& words_are(s.path_keywords@, Seq::<Seq<char>>::empty())
    &&& types_are(s.list_keyword_types@, Seq::<(Seq<char>, ListType)>::empty())
    &&& s.default_list_type == ListType::Packed
    &&& s.compound_list_keywords@.len() == 0
    &&& s.modes@.len() == 0
    &&& s.subparsers@.len() == 0
}

fn build_string_toupper() -> (r: FunctionSchema)
    ensures
        schema_string_toupper(r),
{
    FunctionSchema {
        positional: pos(2, 2),
        ..FunctionSchema::default()
    }
}

pub open spec fn schema_string_length(s: FunctionSchema) -> bool {
    &&& s.positional == Some(PositionalSpec { min: 2, max: 2 })
    &&& !s.no_break_first_argument
    &&& words_are(s.simple_keywords@, Seq::<Seq<char>>::empty())
    &&& words_are(s.options@, Seq::<Seq<char>>::empty())
    &&& words_are(s.one_value_keywords@, Seq::<Seq<char>>::empty())
    &&& words_are(s.multi_value_keywords@, Seq::<Seq<char>>::empty())
    &&& words_are(s.path_keywords@, Seq::<Seq<char>>::empty())
    &&& types_are(s.list_keyword_types@, Seq::<(Seq<char>, ListType)>::empty())
    &&& s.default_list_type == ListType::Packed
    &&& s.compound_list_keywords@.len() == 0
    &&& s.modes@.len() == 0
    &&& s.subparsers@.len() == 0
}

fn build_string_length() -> (r: FunctionSchema)
    ensures
        schema_string_length(r),
{
    FunctionSchema {
        positional: pos(2, 2),
        ..FunctionSchema::default()
    }
}

pub open spec fn schema_string_substring(s: FunctionSchema) -> bool {
    &&& s.positional == Some(PositionalSpec { min: 4, max: 4 })
    &&& !s.no_break_first_argument
    &&& words_are(s.simple_keywords@, Seq::<Seq<char>>::empty())
    &&& words_are(s.options@, Seq::<Seq<char>>::empty())
    &&& words_are(s.one_value_keywords@, Seq::<Seq<char>>::empty())
    &&& words_are(s.multi_value_keywords@, Seq::<Seq<char>>::empty())
    &&& words_are(s.path_keywords@, Seq::<Seq<char>>::empty())
    &&& types_are(s.list_keyword_types@, Seq::<(Seq<char>, ListType)>::empty())
    &&& s.default_list_type == ListType::Packed
    &&& s.compound_list_keywords@.len() == 0
    &&& s.modes@.len() == 0
    &&& s.subparsers@.len() == 0
}

fn build_string_substring() -> (r: FunctionSchema)
    ensures
        schema_string_substring(r),
{
    FunctionSchema {
        positional: pos(4, 4),
        ..FunctionSchema::default()
    }
}

pub open spec fn schema_string_strip(s: FunctionSchema) -> bool {
    &&& s.positional == Some(PositionalSpec { min: 2, max: 2 })
    &&& !s.no_break_first_argument
    &&& words_are(s.simple_keywords@, Seq::<Seq<char>>::empty())
    &&& words_are(s.options@, Seq::<Seq<char>>::empty())
    &&& words_are(s.one_value_keywords@, Seq::<Seq<char>>::empty())
    &&& words_are(s.multi_value_keywords@, Seq::<Seq<char>>::empty())
    &&& words_are(s.path_keywords@, Seq::<Seq<char>>::empty())
    &&& types_are(s.list_keyword_types@, Seq::<(Seq<char>, ListType)>::empty())
    &&& s.default_list_type == ListType::Packed
    &&& s.compound_list_keywords@.len() == 0
    &&& s.modes@.len() == 0
    &&& s.subparsers@.len() == 0
}

fn build_string_strip() -> (r: FunctionSchema)
    ensures
        schema_string_strip(r),
{
    FunctionSchema {
        positional: pos(2, 2),
        ..FunctionSchema::default()
    }
}

pub open spec fn schema_string_genex_strip(s: FunctionSchema) -> bool {
    &&& s.positional == Some(PositionalSpec { min: 2, max: 2 })
    &&& !s.no_break_first_argument
    &&& words_are(s.simple_keywords@, Seq::<Seq<char>>::empty())
    &&& words_are(s.options@, Seq::<Seq<char>>::empty())
    &&& words_are(s.one_value_keywords@, Seq::<Seq<char>>::empty())
    &&& words_are(s.multi_value_keywords@, Seq::<Seq<char>>::empty())
    &&& words_are(s.path_keywords@, Seq::<Seq<char>>::empty())
    &&& types_are(s.list_keyword_types@, Seq::<(Seq<char>, ListType)>::empty())
    &&& s.default_list_type == ListType::Packed
    &&& s.compound_list_keywords@.len() == 0
    &&& s.modes@.len() == 0
    &&& s.subparsers@.len() == 0
}

fn build_string_genex_strip() -> (r: FunctionSchema)
    ensures
        schema_string_genex_strip(r),
{
    FunctionSchema {
        positional: pos(2, 2),
        ..FunctionSchema::default()
    }
}

pub open spec fn schema_string_compare(s: FunctionSchema) -> bool {
    &&& s.positional == Some(PositionalSpec { min: 4, max: 4 })
    &&& !s.no_break_first_argument
    &&& words_are(s.simple_keywords@, Seq::<Seq<char>>::empty())
    &&& words_are(s.options@, Seq::<Seq<char>>::empty())
    &&& words_are(s.one_value_keywords@, Seq::<Seq<char>>::empty())
    &&& words_are(s.multi_value_keywords@, Seq::<Seq<char>>::empty())
    &&& words_are(s.path_keywords@, Seq::<Seq<char>>::empty())
    &&& types_are(s.list_keyword_types@, Seq::<(Seq<char>, ListType)>::empty())
    &&& s.default_list_type == ListType::Packed
    &&& s.compound_list_keywords@.len() == 0
    &&& s.modes@.len() == 0
    &&& s.subparsers@.len() == 0
}

fn build_string_compare() -> (r: FunctionSchema)
    ensures
        schema_string_compare(r),
{
    FunctionSchema {
        positional: pos(4, 4),
        ..FunctionSchema::default()
    }
}

pub open spec fn schema_string_hex(s: FunctionSchema) -> bool {
    &&& s.positional == Some(PositionalSpec { min: 2, max: 2 })
    &&& !s.no_break_first_argument
    &&& words_are(s.simple_keywords@, Seq::<Seq<char>>::empty())
    &&& words_are(s.options@, Seq::<Seq<char>>::empty())
    &&& words_are(s.one_value_keywords@, Seq::<Seq<char>>::empty())
    &&& words_are(s.multi_value_keywords@, Seq::<Seq<char>>::empty())
    &&& words_are(s.path_keywords@, Seq::<Seq<char>>::empty())
    &&& types_are(s.list_keyword_types@, Seq::<(Seq<char>, ListType)>::empty())
    &&& s.default_list_type == ListType::Packed
    &&& s.compound_list_keywords@.len() == 0
    &&& s.modes@.len() == 0
    &&& s.subparsers@.len() == 0
}

fn build_string_hex() -> (r: FunctionSchema)
    ensures
        schema_string_hex(r),
{
    FunctionSchema {
        positional: pos(2, 2),
        ..FunctionSchema::default()
    }
}

pub open spec fn schema_string_configure(s: FunctionSchema) -> bool {
    &&& s.positional == Some(PositionalSpec { min: 2, max: 2 })
    &&& !s.no_break_first_argument
    &&& words_are(s.simple_keywords@, Seq::<Seq<char>>::empty())
    &&& words_are(s.options@, Seq::<Seq<char>>::empty())
    &&& words_are(s.one_value_keywords@, Seq::<Seq<char>>::empty())
    &&& words_are(s.multi_value_keywords@, Seq::<Seq<char>>::empty())
    &&& words_are(s.path_keywords@, Seq::<Seq<char>>::empty())
    &&& types_are(s.list_keyword_types@, Seq::<(Seq<char>, ListType)>::empty())
    &&& s.default_list_type == ListType::Packed
    &&& s.compound_list_keywords@.len() == 0
    &&& s.modes@.len() == 0
    &&& s.subparsers@.len() == 0
}

fn build_string_configure() -> (r: FunctionSchema)
    ensures
        schema_string_configure(r),
{
    FunctionSchema {
        positional: pos(2, 2),
        ..FunctionSchema::default()
    }
}

pub open spec fn schema_string_make_c_identifier(s: FunctionSchema) -> bool {
    &&& s.positional == Some(PositionalSpec { min: 2, max: 2 })
    &&& !s.no_break_first_argument
    &&& words_are(s.simple_keywords@, Seq::<Seq<char>>::empty())
    &&& words_are(s.options@, Seq::<Seq<char>>::empty())
    &&& words_are(s.one_value_keywords@, Seq::<Seq<char>>::empty())
    &&& words_are(s.multi_value_keywords@, Seq::<Seq<char>>::empty())
    &&& words_are(s.path_keywords@, Seq::<Seq<char>>::empty())
    &&& types_are(s.list_keyword_types@, Seq::<(Seq<char>, ListType)>::empty())
    &&& s.default_list_type == ListType::Packed
    &&& s.compound_list_keywords@.len() == 0
    &&& s.modes@.len() == 0
    &&& s.subparsers@.len() == 0
}

fn build_string_make_c_identifier() -> (r: FunctionSchema)
    ensures
        schema_string_make_c_identifier(r),
{
    FunctionSchema {
        positional: pos(2, 2),
        ..FunctionSchema::default()
    }
}

pub open spec fn schema_string_timestamp(s: FunctionSchema) -> bool {
    &&& s.positional == Some(PositionalSpec { min: 1, max: 1 })
    &&& !s.no_break_first_argument
    &&& words_are(s.simple_keywords@, Seq::<Seq<char>>::empty())
    &&& words_are(s.options@, Seq::<Seq<char>>::empty())
    &&& words_are(s.one_value_keywords@, Seq::<Seq<char>>::empty())
    &&& words_are(s.multi_value_keywords@, Seq::<Seq<char>>::empty())
    &&& words_are(s.path_keywords@, Seq::<Seq<char>>::empty())
    &&& types_are(s.list_keyword_types@, Seq::<(Seq<char>, ListType)>::empty())
    &&& s.default_list_type == ListType::Packed
    &&& s.compound_list_keywords@.len() == 0
    &&& s.modes@.len() == 0
    &&& s.subparsers@.len() == 0
}

fn build_string_timestamp() -> (r: FunctionSchema)
    ensures
        schema_string_timestamp(r),
{
    FunctionSchema {
        positional: pos(1, 1),
        ..FunctionSchema::default()
    }
}

pub open spec fn schema_string_uuid(s: FunctionSchema) -> bool {
    &&& s.positional == Some(PositionalSpec { min: 1, max: 1 })
    &&& !s.no_break_first_argument
    &&& words_are(s.simple_keywords@, Seq::<Seq<char>>::empty())
    &&& words_are(s.options@, Seq::<Seq<char>>::empty())
    &&& words_are(s.one_value_keywords@, Seq::<Seq<char>>::empty())
    &&& words_are(s.multi_value_keywords@, Seq::<Seq<char>>::empty())
    &&& words_are(s.path_keywords@, Seq::<Seq<char>>::empty())
    &&& types_are(s.list_keyword_types@, Seq::<(Seq<char>, ListType)>::empty())
    &&& s.default_list_type == ListType::Packed
    &&& s.compound_list_keywords@.len() == 0
    &&& s.modes@.len() == 0
    &&& s.subparsers@.len() == 0
}

fn build_string_uuid() -> (r: FunctionSchema)
    ensures
        schema_string_uuid(r),
{
    FunctionSchema {
        positional: pos(1, 1),
        ..FunctionSchema::default()
    }
}

pub open spec fn schema_string_regex_match(s: FunctionSchema) -> bool {
    &&& s.positional == Some(PositionalSpec { min: 2, max: 2 })
    &&& !s.no_break_first_argument
    &&& words_are(s.simple_keywords@, Seq::<Seq<char>>::empty())
    &&& words_are(s.options@, Seq::<Seq<char>>::empty())
    &&& words_are(s.one_value_keywords@, Seq::<Seq<char>>::empty())
    &&& words_are(s.multi_value_keywords@, Seq::<Seq<char>>::empty())
    &&& words_are(s.path_keywords@, Seq::<Seq<char>>::empty())
    &&& types_are(s.list_keyword_types@, Seq::<(Seq<char>, ListType)>::empty())
    &&& s.default_list_type == ListType::Packed
    &&& s.compound_list_keywords@.len() == 0
    &&& s.modes@.len() == 0
    &&& s.subparsers@.len() == 0
}

fn build_string_regex_match() -> (r: FunctionSchema)
    ensures
        schema_string_regex_match(r),
{
    FunctionSchema {
        positional: pos(2, 2),
        ..FunctionSchema::default()
    }
}

pub open spec fn schema_string_regex_matchall(s: FunctionSchema) -> bool {
    &&& s.positional == Some(PositionalSpec { min: 2, max: 2 })
    &&& !s.no_break_first_argument
    &&& words_are(s.simple_keywords@, Seq::<Seq<char>>::empty())
    &&& words_are(s.options@, Seq::<Seq<char>>::empty())
    &&& words_are(s.one_value_keywords@, Seq::<Seq<char>>::empty())
    &&& words_are(s.multi_value_keywords@, Seq::<Seq<char>>::empty())
    &&& words_are(s.path_keywords@, Seq::<Seq<char>>::empty())
    &&& types_are(s.list_keyword_types@, Seq::<(Seq<char>, ListType)>::empty())
    &&& s.default_list_type == ListType::Packed
    &&& s.compound_list_keywords@.len() == 0
    &&& s.modes@.len() == 0
    &&& s.subparsers@.len() == 0
}

fn build_string_regex_matchall() -> (r: FunctionSchema)
    ensures
        schema_string_regex_matchall(r),
{
    FunctionSchema {
        positional: pos(2, 2),
        ..FunctionSchema::default()
    }
}

pub open spec fn schema_string_regex_replace(s: FunctionSchema) -> bool {
    &&& s.positional == Some(PositionalSpec { min: 3, max: 3 })
    &&& !s.no_break_first_argument
    &&& words_are(s.simple_keywords@, Seq::<Seq<char>>::empty())
    &&& words_are(s.options@, Seq::<Seq<char>>::empty())
    &&& words_are(s.one_value_keywords@, Seq::<Seq<char>>::empty())
    &&& words_are(s.multi_value_keywords@, Seq::<Seq<char>>::empty())
    &&& words_are(s.path_keywords@, Seq::<Seq<char>>::empty())
    &&& types_are(s.list_keyword_types@, Seq::<(Seq<char>, ListType)>::empty())
    &&& s.default_list_type == ListType::Packed
    &&& s.compound_list_keywords@.len() == 0
    &&& s.modes@.len() == 0
    &&& s.subparsers@.len() == 0
}

fn build_string_regex_replace() -> (r: FunctionSchema)
    ensures
        schema_string_regex_replace(r),
{
    FunctionSchema {
        positional: pos(3, 3),
        ..FunctionSchema::default()
    }
}

pub open spec fn schema_string_regex(s: FunctionSchema) -> bool {
    &&& s.positional is None
    &&& !s.no_break_first_argument
    &&& words_are(s.simple_keywords@, Seq::<Seq<char>>::empty())
    &&& words_are(s.options@, Seq::<Seq<char>>::empty())
    &&& words_are(s.one_value_keywords@, Seq::<Seq<char>>::empty())
    &&& words_are(s.multi_value_keywords@, Seq::<Seq<char>>::empty())
    &&& words_are(s.path_keywords@, Seq::<Seq<char>>::empty())
    &&& types_are(s.list_keyword_types@, Seq::<(Seq<char>, ListType)>::empty())
    &&& s.default_list_type == ListType::Packed
    &&& s.compound_list_keywords@.len() == 0
    &&& s.modes@.len() == 0
    &&& s.subparsers@.len() == 3
    &&& s.subparsers@[0].0@ == "MATCH"@
    &&& schema_string_regex_match(s.subparsers@[0].1)
    &&& s.subparsers@[1].0@ == "MATCHALL"@
    &&& schema_string_regex_matchall(s.subparsers@[1].1)
    &&& s.subparsers@[2].0@ == "REPLACE"@
    &&& schema_string_regex_replace(s.subparsers@[2].1)
}

fn build_string_regex() -> (r: FunctionSchema)
    ensures
        schema_string_regex(r),
{
    FunctionSchema {
        subparsers: vec![(owned("MATCH"), build_string_regex_match()), (owned("MATCHALL"), build_string_regex_matchall()), (owned("REPLACE"), build_string_regex_replace())],
        ..FunctionSchema::default()
    }
}

pub open spec fn schema_string_md5(s: FunctionSchema) -> bool {
    &&& s.positional == Some(PositionalSpec { min: 2, max: 2 })
    &&& !s.no_break_first_argument
    &&& words_are(s.simple_keywords@, Seq::<Seq<char>>::empty())
    &&& words_are(s.options@, Seq::<Seq<char>>::empty())
    &&& words_are(s.one_value_keywords@, Seq::<Seq<char>>::empty())
    &&& words_are(s.multi_value_keywords@, Seq::<Seq<char>>::empty())
    &&& words_are(s.path_keywords@, Seq::<Seq<char>>::empty())
    &&& types_are(s.list_keyword_types@, Seq::<(Seq<char>, ListType)>::empty())
    &&& s.default_list_type == ListType::Packed
    &&& s.compound_list_keywords@.len() == 0
    &&& s.modes@.len() == 0
    &&& s.subparsers@.len() == 0
}

fn build_string_md5() -> (r: FunctionSchema)
    ensures
        schema_string_md5(r),
{
    FunctionSchema {
        positional: pos(2, 2),
        ..FunctionSchema::default()
    }
}

pub open spec fn schema_string_sha1(s: FunctionSchema) -> bool {
    &&& s.positional == Some(PositionalSpec { min: 2, max: 2 })
    &&& !s.no_break_first_argument
    &&& words_are(s.simple_keywords@, Seq::<Seq<char>>::empty())
    &&& words_are(s.options@, Seq::<Seq<char>>::empty())
    &&& words_are(s.one_value_keywords@, Seq::<Seq<char>>::empty())
    &&& words_are(s.multi_value_keywords@, Seq::<Seq<char>>::empty())
    &&& words_are(s.path_keywords@, Seq::<Seq<char>>::empty())
    &&& types_are(s.list_keyword_types@, Seq::<(Seq<char>, ListType)>::empty())
    &&& s.default_list_type == ListType::Packed
    &&& s.compound_list_keywords@.len() == 0
    &&& s.modes@.len() == 0
    &&& s.subparsers@.len() == 0
}

fn build_string_sha1() -> (r: FunctionSchema)
    ensures
        schema_string_sha1(r),
{
    FunctionSchema {
        positional: pos(2, 2),
        ..FunctionSchema::default()
    }
}

pub open spec fn schema_string_sha224(s: FunctionSchema) -> bool {
    &&& s.positional == Some(PositionalSpec { min: 2, max: 2 })
    &&& !s.no_break_first_argument
    &&& words_are(s.simple_keywords@, Seq::<Seq<char>>::empty())
    &&& words_are(s.options@, Seq::<Seq<char>>::empty())
    &&& words_are(s.one_value_keywords@, Seq::<Seq<char>>::empty())
    &&& words_are(s.multi_value_keywords@, Seq::<Seq<char>>::empty())
    &&& words_are(s.path_keywords@, Seq::<Seq<char>>::empty())
    &&& types_are(s.list_keyword_types@, Seq::<(Seq<char>, ListType)>::empty())
    &&& s.default_list_type == ListType::Packed
    &&& s.compound_list_keywords@.len() == 0
    &&& s.modes@.len() == 0
    &&& s.subparsers@.len() == 0
}

fn build_string_sha224() -> (r: FunctionSchema)
    ensures
        schema_string_sha224(r),
{
    FunctionSchema {
        positional: pos(2, 2),
        ..FunctionSchema::default()
    }
}

pub open spec fn schema_string_sha256(s: FunctionSchema) -> bool {
    &&& s.positional == Some(PositionalSpec { min: 2, max: 2 })
    &&& !s.no_break_first_argument
    &&& words_are(s.simple_keywords@, Seq::<Seq<char>>::empty())
    &&& words_are(s.options@, Seq::<Seq<char>>::empty())
    &&& words_are(s.one_value_keywords@, Seq::<Seq<char>>::empty())
    &&& words_are(s.multi_value_keywords@, Seq::<Seq<char>>::empty())
    &&& words_are(s.path_keywords@, Seq::<Seq<char>>::empty())
    &&& types_are(s.list_keyword_types@, Seq::<(Seq<char>, ListType)>::empty())
    &&& s.default_list_type == ListType::Packed
    &&& s.compound_list_keywords@.len() == 0
    &&& s.modes@.len() == 0
    &&& s.subparsers@.len() == 0
}

fn build_string_sha256() -> (r: FunctionSchema)
    ensures
        schema_string_sha256(r),
{
    FunctionSchema {
        positional: pos(2, 2),
        ..FunctionSchema::default()
    }
}

pub open spec fn schema_string_sha384(s: FunctionSchema) -> bool {
    &&& s.positional == Some(PositionalSpec { min: 2, max: 2 })
    &&& !s.no_break_first_argument
    &&& words_are(s.simple_keywords@, Seq::<Seq<char>>::empty())
    &&& words_are(s.options@, Seq::<Seq<char>>::empty())
    &&& words_are(s.one_value_keywords@, Seq::<Seq<char>>::empty())
    &&& words_are(s.multi_value_keywords@, Seq::<Seq<char>>::empty())
    &&& words_are(s.path_keywords@, Seq::<Seq<char>>::empty())
    &&& types_are(s.list_keyword_types@, Seq::<(Seq<char>, ListType)>::empty())
    &&& s.default_list_type == ListType::Packed
    &&& s.compound_list_keywords@.len() == 0
    &&& s.modes@.len() == 0
    &&& s.subparsers@.len() == 0
}

fn build_string_sha384() -> (r: FunctionSchema)
    ensures
        schema_string_sha384(r),
{
    FunctionSchema {
        positional: pos(2, 2),
        ..FunctionSchema::default()
    }
}

pub open spec fn schema_string_sha512(s: FunctionSchema) -> bool {
    &&& s.positional == Some(PositionalSpec { min: 2, max: 2 })
    &&& !s.no_break_first_argument
    &&& words_are(s.simple_keywords@, Seq::<Seq<char>>::empty())
    &&& words_are(s.options@, Seq::<Seq<char>>::empty())
    &&& words_are(s.one_value_keywords@, Seq::<Seq<char>>::empty())
    &&& words_are(s.multi_value_keywords@, Seq::<Seq<char>>::empty())
    &&& words_are(s.path_keywords@, Seq::<Seq<char>>::empty())
    &&& types_are(s.list_keyword_types@, Seq::<(Seq<char>, ListType)>::empty())
    &&& s.default_list_type == ListType::Packed
    &&& s.compound_list_keywords@.len() == 0
    &&& s.modes@.len() == 0
    &&& s.subparsers@.len() == 0
}

fn build_string_sha512() -> (r: FunctionSchema)
    ensures
        schema_string_sha512(r),
{
    FunctionSchema {
        positional: pos(2, 2),
        ..FunctionSchema::default()
    }
}

pub open spec fn schema_string_sha3_224(s: FunctionSchema) -> bool {
    &&& s.positional == Some(PositionalSpec { min: 2, max: 2 })
    &&& !s.no_break_first_argument
    &&& words_are(s.simple_keywords@, Seq::<Seq<char>>::empty())
    &&& words_are(s.options@, Seq::<Seq<char>>::empty())
    &&& words_are(s.one_value_keywords@, Seq::<Seq<char>>::empty())
    &&& words_are(s.multi_value_keywords@, Seq::<Seq<char>>::empty())
    &&& words_are(s.path_keywords@, Seq::<Seq<char>>::empty())
    &&& types_are(s.list_keyword_types@, Seq::<(Seq<char>, ListType)>::empty())
    &&& s.default_list_type == ListType::Packed
    &&& s.compound_list_keywords@.len() == 0
    &&& s.modes@.len() == 0
    &&& s.subparsers@.len() == 0
}

fn build_string_sha3_224() -> (r: FunctionSchema)
    ensures
        schema_string_sha3_224(r),
{
    FunctionSchema {
        positional: pos(2, 2),
        ..FunctionSchema::default()
    }
}

pub open spec fn schema_string_sha3_256(s: FunctionSchema) -> bool {
    &&& s.positional == Some(PositionalSpec { min: 2, max: 2 })
    &&& !s.no_break_first_argument
    &&& words_are(s.simple_keywords@, Seq::<Seq<char>>::empty())
    &&& words_are(s.options@, Seq::<Seq<char>>::empty())
    &&& words_are(s.one_value_keywords@, Seq::<Seq<char>>::empty())
    &&& words_are(s.multi_value_keywords@, Seq::<Seq<char>>::empty())
    &&& words_are(s.path_keywords@, Seq::<Seq<char>>::empty())
    &&& types_are(s.list_keyword_types@, Seq::<(Seq<char>, ListType)>::empty())
    &&& s.default_list_type == ListType::Packed
    &&& s.compound_list_keywords@.len() == 0
    &&& s.modes@.len() == 0
    &&& s.subparsers@.len() == 0
}

fn build_string_sha3_256() -> (r: FunctionSchema)
    ensures
        schema_string_sha3_256(r),
{
    FunctionSchema {
        positional: pos(2, 2),
        ..FunctionSchema::default()
    }
}

pub open spec fn schema_string_sha3_384(s: FunctionSchema) -> bool {
    &&& s.positional == Some(PositionalSpec { min: 2, max: 2 })
    &&& !s.no_break_first_argument
    &&& words_are(s.simple_keywords@, Seq::<Seq<char>>::empty())
    &&& words_are(s.options@, Seq::<Seq<char>>::empty())
    &&& words_are(s.one_value_keywords@, Seq::<Seq<char>>::empty())
    &&& words_are(s.multi_value_keywords@, Seq::<Seq<char>>::empty())
    &&& words_are(s.path_keywords@, Seq::<Seq<char>>::empty())
    &&& types_are(s.list_keyword_types@, Seq::<(Seq<char>, ListType)>::empty())
    &&& s.default_list_type == ListType::Packed
    &&& s.compound_list_keywords@.len() == 0
    &&& s.modes@.len() == 0
    &&& s.subparsers@.len() == 0
}

fn build_string_sha3_384() -> (r: FunctionSchema)
    ensures
        schema_string_sha3_384(r),
{
    FunctionSchema {
        positional: pos(2, 2),
        ..FunctionSchema::default()
    }
}

pub open spec fn schema_string_sha3_512(s: FunctionSchema) -> bool {
    &&& s.positional == Some(PositionalSpec { min: 2, max: 2 })
    &&& !s.no_break_first_argument
    &&& words_are(s.simple_keywords@, Seq::<Seq<char>>::empty())
    &&& words_are(s.options@, Seq::<Seq<char>>::empty())
    &&& words_are(s.one_value_keywords@, Seq::<Seq<char>>::empty())
    &&& words_are(s.multi_value_keywords@, Seq::<Seq<char>>::empty())
    &&& words_are(s.path_keywords@, Seq::<Seq<char>>::empty())
    &&& types_are(s.list_keyword_types@, Seq::<(Seq<char>, ListType)>::empty())
    &&& s.default_list_type == ListType::Packed
    &&& s.compound_list_keywords@.len() == 0
    &&& s.modes@.len() == 0
    &&& s.subparsers@.len() == 0
}

fn build_string_sha3_512() -> (r: FunctionSchema)
    ensures
        schema_string_sha3_512(r),
{
    FunctionSchema {
        positional: pos(2, 2),
        ..FunctionSchema::default()
    }
}

pub open spec fn schema_string(s: FunctionSchema) -> bool {
    &&& s.positional is None
    &&& s.no_break_first_argument == true
    &&& words_are(s.simple_keywords@, Seq::<Seq<char>>::empty())
    &&& words_are(s.options@, seq!["ASCII"@, "RANDOM"@])
    &&& words_are(s.one_value_keywords@, seq!["OUTPUT_VARIABLE"@, "LENGTH"@, "ALPHABET"@, "RANDOM_SEED"@])
    &&& words_are(s.multi_value_keywords@, Seq::<Seq<char>>::empty())
    &&& words_are(s.path_keywords@, Seq::<Seq<char>>::empty())
    &&& types_are(s.list_keyword_types@, Seq::<(Seq<char>, ListType)>::empty())
    &&& s.default_list_type == ListType::Packed
    &&& s.compound_list_keywords@.len() == 0
    &&& s.modes@.len() == 29
    &&& s.modes@[0].0@ == "CONCAT"@
    &&& schema_string_concat(s.modes@[0].1)
    &&& s.modes@[1].0@ == "JOIN"@
    &&& schema_string_join(s.modes@[1].1)
    &&& s.modes@[2].0@ == "APPEND"@
    &&& schema_string_append(s.modes@[2].1)
    &&& s.modes@[3].0@ == "PREPEND"@
    &&& schema_string_prepend(s.modes@[3].1)
    &&& s.modes@[4].0@ == "FIND"@
    &&& schema_string_find(s.modes@[4].1)
    &&& s.modes@[5].0@ == "REPLACE"@
    &&& schema_string_replace(s.modes@[5].1)
    &&& s.modes@[6].0@ == "TOLOWER"@
    &&& schema_string_tolower(s.modes@[6].1)
    &&& s.modes@[7].0@ == "TOUPPER"@
    &&& schema_string_toupper(s.modes@[7].1)
    &&& s.modes@[8].0@ == "LENGTH"@
    &&& schema_string_length(s.modes@[8].1)
    &&& s.modes@[9].0@ == "SUBSTRING"@
    &&& schema_string_substring(s.modes@[9].1)
    &&& s.modes@[10].0@ == "STRIP"@
    &&& schema_string_strip(s.modes@[10].1)
    &&& s.modes@[11].0@ == "GENEX_STRIP"@
    &&& schema_string_genex_strip(s.modes@[11].1)
    &&& s.modes@[12].0@ == "COMPARE"@
    &&& schema_string_compare(s.modes@[12].1)
    &&& s.modes@[13].0@ == "HEX"@
    &&& schema_string_hex(s.modes@[13].1)
    &&& s.modes@[14].0@ == "CONFIGURE"@
    &&& schema_string_configure(s.modes@[14].1)
    &&& s.modes@[15].0@ == "MAKE_C_IDENTIFIER"@
    &&& schema_string_make_c_identifier(s.modes@[15].1)
    &&& s.modes@[16].0@ == "TIMESTAMP"@
    &&& schema_string_timestamp(s.modes@[16].1)
    &&& s.modes@[17].0@ == "UUID"@
    &&& schema_string_uuid(s.modes@[17].1)
    &&& s.modes@[18].0@ == "REGEX"@
    &&& schema_string_regex(s.modes@[18].1)
    &&& s.modes@[19].0@ == "MD5"@
    &&& schema_string_md5(s.modes@[19].1)
    &&& s.modes@[20].0@ == "SHA1"@
    &&& schema_string_sha1(s.modes@[20].1)
    &&& s.modes@[21].0@ == "SHA224"@
    &&& schema_string_sha224(s.modes@[21].1)
    &&& s.modes@[22].0@ == "SHA256"@
    &&& schema_string_sha256(s.modes@[22].1)
    &&& s.modes@[23].0@ == "SHA384"@
    &&& schema_string_sha384(s.modes@[23].1)
    &&& s.modes@[24].0@ == "SHA512"@
    &&& schema_string_sha512(s.modes@[24].1)
    &&& s.modes@[25].0@ == "SHA3_224"@
    &&& schema_string_sha3_224(s.modes@[25].1)
    &&& s.modes@[26].0@ == "SHA3_256"@
    &&& schema_string_sha3_256(s.modes@[26].1)
    &&& s.modes@[27].0@ == "SHA3_384"@
    &&& schema_string_sha3_384(s.modes@[27].1)
    &&& s.modes@[28].0@ == "SHA3_512"@
    &&& schema_string_sha3_512(s.modes@[28].1)
    &&& s.subparsers@.len() == 0
}

fn build_string() -> (r: FunctionSchema)
    ensures
        schema_string(r),
{
    FunctionSchema {
        no_break_first_argument: true,
        options: w(&["ASCII", "RANDOM"]),
        one_value_keywords: w(&["OUTPUT_VARIABLE", "LENGTH", "ALPHABET", "RANDOM_SEED"]),
        modes: vec![(owned("CONCAT"), build_string_concat()), (owned("JOIN"), build_string_join()), (owned("APPEND"), build_string_append()), (owned("PREPEND"), build_string_prepend()), (owned("FIND"), build_string_find()), (owned("REPLACE"), build_string_replace()), (owned("TOLOWER"), build_string_tolower()), (owned("TOUPPER"), build_string_toupper()), (owned("LENGTH"), build_string_length()), (owned("SUBSTRING"), build_string_substring()), (owned("STRIP"), build_string_strip()), (owned("GENEX_STRIP"), build_string_genex_strip()), (owned("COMPARE"), build_string_compare()), (owned("HEX"), build_string_hex()), (owned("CONFIGURE"), build_string_configure()), (owned("MAKE_C_IDENTIFIER"), build_string_make_c_identifier()), (owned("TIMESTAMP"), build_string_timestamp()), (owned("UUID"), build_string_uuid()), (owned("REGEX"), build_string_regex()), (owned("MD5"), build_string_md5()), (owned("SHA1"), build_string_sha1()), (owned("SHA224"), build_string_sha224()), (owned("SHA256"), build_string_sha256()), (owned("SHA384"), build_string_sha384()), (owned("SHA512"), build_string_sha512()), (owned("SHA3_224"), build_string_sha3_224()), (owned("SHA3_256"), build_string_sha3_256()), (owned("SHA3_384"), build_string_sha3_384()), (owned("SHA3_512"), build_string_sha3_512())],
        ..FunctionSchema::default()
    }
}

pub open spec fn schema_message(s: FunctionSchema) -> bool {
    &&& s.positional == Some(PositionalSpec { min: 0, max: 100 })
    &&& !s.no_break_first_argument
    &&& words_are(s.simple_keywords@, Seq::<Seq<char>>::empty())
    &&& words_are(s.options@, Seq::<Seq<char>>::empty())
    &&& words_are(s.one_value_keywords@, Seq::<Seq<char>>::empty())
    &&& words_are(s.multi_value_keywords@, Seq::<Seq<char>>::empty())
    &&& words_are(s.path_keywords@, Seq::<Seq<char>>::empty())
    &&& types_are(s.list_keyword_types@, Seq::<(Seq<char>, ListType)>::empty())
    &&& s.default_list_type == ListType::Packed
    &&& s.compound_list_keywords@.len() == 0
    &&& s.modes@.len() == 14
    &&& s.modes@[0].0@ == "FATAL_ERROR"@
    &&& schema_message_mode(s.modes@[0].1)
    &&& s.modes@[1].0@ == "SEND_ERROR"@
    &&& schema_message_mode(s.modes@[1].1)
    &&& s.modes@[2].0@ == "WARNING"@
    &&& schema_message_mode(s.modes@[2].1)
    &&& s.modes@[3].0@ == "AUTHOR_WARNING"@
    &&& schema_message_mode(s.modes@[3].1)
    &&& s.modes@[4].0@ == "DEPRECATION"@
    &&& schema_message_mode(s.modes@[4].1)
    &&& s.modes@[5].0@ == "NOTICE"@
    &&& schema_message_mode(s.modes@[5].1)
    &&& s.modes@[6].0@ == "STATUS"@
    &&& schema_message_mode(s.modes@[6].1)
    &&& s.modes@[7].0@ == "VERBOSE"@
    &&& schema_message_mode(s.modes@[7].1)
    &&& s.modes@[8].0@ == "DEBUG"@
    &&& schema_message_mode(s.modes@[8].1)
    &&& s.modes@[9].0@ == "TRACE"@
    &&& schema_message_mode(s.modes@[9].1)
    &&& s.modes@[10].0@ == "CHECK_START"@
    &&& schema_message_mode(s.modes@[10].1)
    &&& s.modes@[11].0@ == "CHECK_PASS"@
    &&& schema_message_mode(s.modes@[11].1)
    &&& s.modes@[12].0@ == "CHECK_FAIL"@
    &&& schema_message_mode(s.modes@[12].1)
    &&& s.modes@[13].0@ == "CONFIGURE_LOG"@
    &&& schema_message_mode(s.modes@[13].1)
    &&& s.subparsers@.len() == 0
}

fn build_message() -> (r: FunctionSchema)
    ensures
        schema_message(r),
{
    FunctionSchema {
        positional: pos(0, 100),
        modes: vec![(owned("FATAL_ERROR"), message_mode_schema()), (owned("SEND_ERROR"), message_mode_schema()), (owned("WARNING"), message_mode_schema()), (owned("AUTHOR_WARNING"), message_mode_schema()), (owned("DEPRECATION"), message_mode_schema()), (owned("NOTICE"), message_mode_schema()), (owned("STATUS"), message_mode_schema()), (owned("VERBOSE"), message_mode_schema()), (owned("DEBUG"), message_mode_schema()), (owned("TRACE"), message_mode_schema()), (owned("CHECK_START"), message_mode_schema()), (owned("CHECK_PASS"), message_mode_schema()), (owned("CHECK_FAIL"), message_mode_schema()), (owned("CONFIGURE_LOG"), message_mode_schema())],
        ..FunctionSchema::default()
    }
}

pub open spec fn schema_cmake_parse_arguments_parse_argv(s: FunctionSchema) -> bool {
    &&& s.positional == Some(PositionalSpec { min: 3, max: 3 })
    &&& !s.no_break_first_argument
    &&& words_are(s.simple_keywords@, Seq::<Seq<char>>::empty())
    &&& words_are(s.options@, Seq::<Seq<char>>::empty())
    &&& words_are(s.one_value_keywords@, Seq::<Seq<char>>::empty())
    &&& words_are(s.multi_value_keywords@, Seq::<Seq<char>>::empty())
    &&& words_are(s.path_keywords@, Seq::<Seq<char>>::empty())
    &&& types_are(s.list_keyword_types@, Seq::<(Seq<char>, ListType)>::empty())
    &&& s.default_list_type == ListType::Packed
    &&& s.compound_list_keywords@.len() == 0
    &&& s.modes@.len() == 0
    &&& s.subparsers@.len() == 0
}

fn build_cmake_parse_arguments_parse_argv() -> (r: FunctionSchema)
    ensures
        schema_cmake_parse_arguments_parse_argv(r),
{
    FunctionSchema {
        positional: pos(3, 3),
        ..FunctionSchema::default()
    }
}

pub open spec fn schema_cmake_parse_arguments(s: FunctionSchema) -> bool {
    &&& s.positional == Some(PositionalSpec { min: 4, max: 100 })
    &&& !s.no_break_first_argument
    &&& words_are(s.simple_keywords@, Seq::<Seq<char>>::empty())
    &&& words_are(s.options@, Seq::<Seq<char>>::empty())
    &&& words_are(s.one_value_keywords@, Seq::<Seq<char>>::empty())
    &&& words_are(s.multi_value_keywords@, Seq::<Seq<char>>::empty())
    &&& words_are(s.path_keywords@, Seq::<Seq<char>>::empty())
    &&& types_are(s.list_keyword_types@, Seq::<(Seq<char>, ListType)>::empty())
    &&& s.default_list_type == ListType::Packed
    &&& s.compound_list_keywords@.len() == 0
    &&& s.modes@.len() == 1
    &&& s.modes@[0].0@ == "PARSE_ARGV"@
    &&& schema_cmake_parse_arguments_parse_argv(s.modes@[0].1)
    &&& s.subparsers@.len() == 0
}

fn build_cmake_parse_arguments() -> (r: FunctionSchema)
    ensures
        schema_cmake_parse_arguments(r),
{
    FunctionSchema {
        positional: pos(4, 100),
        modes: vec![(owned("PARSE_ARGV"), build_cmake_parse_arguments_parse_argv())],
        ..FunctionSchema::default()
    }
}

pub open spec fn schema_vcpkg_check_linkage(s: FunctionSchema) -> bool {
    &&& s.positional is None
    &&& !s.no_break_first_argument
    &&& words_are(s.simple_keywords@, Seq::<Seq<char>>::empty())
    &&& words_are(s.options@, seq!["ONLY_STATIC_LIBRARY"@, "ONLY_DYNAMIC_LIBRARY"@])
    &&& words_are(s.one_value_keywords@, Seq::<Seq<char>>::empty())
    &&& words_are(s.multi_value_keywords@, Seq::<Seq<char>>::empty())
    &&& words_are(s.path_keywords@, Seq::<Seq<char>>::empty())
    &&& types_are(s.list_keyword_types@, Seq::<(Seq<char>, ListType)>::empty())
    &&& s.default_list_type == ListType::Packed
    &&& s.compound_list_keywords@.len() == 0
    &&& s.modes@.len() == 0
    &&& s.subparsers@.len() == 0
}

fn build_vcpkg_check_linkage() -> (r: FunctionSchema)
    ensures
        schema_vcpkg_check_linkage(r),
{
    FunctionSchema {
        options: w(&["ONLY_STATIC_LIBRARY", "ONLY_DYNAMIC_LIBRARY"]),
        ..FunctionSchema::default()
    }
}

pub open spec fn schema_vcpkg_cmake_config_fixup(s: FunctionSchema) -> bool {
    &&& s.positional is None
    &&& !s.no_break_first_argument
    &&& words_are(s.simple_keywords@, Seq::<Seq<char>>::empty())
    &&& words_are(s.options@, seq!["DO_NOT_DELETE_PARENT_CONFIG_PATH"@, "NO_PREFIX_CORRECTION"@])
    &&& words_are(s.one_value_keywords@, seq!["PACKAGE_NAME"@, "CONFIG_PATH"@, "TOOLS_PATH"@])
    &&& words_are(s.multi_value_keywords@, Seq::<Seq<char>>::empty())
    &&& words_are(s.path_keywords@, Seq::<Seq<char>>::empty())
    &&& types_are(s.list_keyword_types@, Seq::<(Seq<char>, ListType)>::empty())
    &&& s.default_list_type == ListType::Packed
    &&& s.compound_list_keywords@.len() == 0
    &&& s.modes@.len() == 0
    &&& s.subparsers@.len() == 0
}

fn build_vcpkg_cmake_config_fixup() -> (r: FunctionSchema)
    ensures
        schema_vcpkg_cmake_config_fixup(r),
{
    FunctionSchema {
        options: w(&["DO_NOT_DELETE_PARENT_CONFIG_PATH", "NO_PREFIX_CORRECTION"]),
        one_value_keywords: w(&["PACKAGE_NAME", "CONFIG_PATH", "TOOLS_PATH"]),
        ..FunctionSchema::default()
    }
}

pub open spec fn schema_vcpkg_cmake_configure(s: FunctionSchema) -> bool {
    &&& s.positional is None
    &&& !s.no_break_first_argument
    &&& words_are(s.simple_keywords@, Seq::<Seq<char>>::empty())
    &&& words_are(s.options@, seq!["DISABLE_PARALLEL_CONFIGURE"@, "NO_CHARSET_FLAG"@, "WINDOWS_USE_MSBUILD"@])
    &&& words_are(s.one_value_keywords@, seq!["SOURCE_PATH"@, "LOGFILE_BASE"@, "GENERATOR"@])
    &&& words_are(s.multi_value_keywords@, seq!["OPTIONS"@, "OPTIONS_DEBUG"@, "OPTIONS_RELEASE"@, "MAYBE_UNUSED_VARIABLES"@])
    &&& words_are(s.path_keywords@, Seq::<Seq<char>>::empty())
    &&& types_are(s.list_keyword_types@, Seq::<(Seq<char>, ListType)>::empty())
    &&& s.default_list_type == ListType::Packed
    &&& s.compound_list_keywords@.len() == 0
    &&& s.modes@.len() == 0
    &&& s.subparsers@.len() == 0
}

fn build_vcpkg_cmake_configure() -> (r: FunctionSchema)
    ensures
        schema_vcpkg_cmake_configure(r),
{
    FunctionSchema {
        options: w(&["DISABLE_PARALLEL_CONFIGURE", "NO_CHARSET_FLAG", "WINDOWS_USE_MSBUILD"]),
        one_value_keywords: w(&["SOURCE_PATH", "LOGFILE_BASE", "GENERATOR"]),
        multi_value_keywords: w(&["OPTIONS", "OPTIONS_DEBUG", "OPTIONS_RELEASE", "MAYBE_UNUSED_VARIABLES"]),
        ..FunctionSchema::default()
    }
}

pub open spec fn schema_vcpkg_cmake_install(s: FunctionSchema) -> bool {
    &&& s.positional is None
    &&& !s.no_break_first_argument
    &&& words_are(s.simple_keywords@, Seq::<Seq<char>>::empty())
    &&& words_are(s.options@, seq!["DISABLE_PARALLEL"@, "ADD_BIN_TO_PATH"@])
    &&& words_are(s.one_value_keywords@, Seq::<Seq<char>>::empty())
    &&& words_are(s.multi_value_keywords@, Seq::<Seq<char>>::empty())
    &&& words_are(s.path_keywords@, Seq::<Seq<char>>::empty())
    &&& types_are(s.list_keyword_types@, Seq::<(Seq<char>, ListType)>::empty())
    &&& s.default_list_type == ListType::Packed
    &&& s.compound_list_keywords@.len() == 0
    &&& s.modes@.len() == 0
    &&& s.subparsers@.len() == 0
}

fn build_vcpkg_cmake_install() -> (r: FunctionSchema)
    ensures
        schema_vcpkg_cmake_install(r),
{
    FunctionSchema {
        options: w(&["DISABLE_PARALLEL", "ADD_BIN_TO_PATH"]),
        ..FunctionSchema::default()
    }
}

pub open spec fn schema_vcpkg_from_github(s: FunctionSchema) -> bool {
    &&& s.positional is None
    &&& !s.no_break_first_argument
    &&& words_are(s.simple_keywords@, Seq::<Seq<char>>::empty())
    &&& words_are(s.options@, Seq::<Seq<char>>::empty())
    &&& words_are(s.one_value_keywords@, seq!["OUT_SOURCE_PATH"@, "REPO"@, "REF"@, "SHA512"@, "HEAD_REF"@, "FILE_DISAMBIGUATOR"@, "AUTHORIZATION_TOKEN"@])
    &&& words_are(s.multi_value_keywords@, seq!["PATCHES"@])
    &&& words_are(s.path_keywords@, Seq::<Seq<char>>::empty())
    &&& types_are(s.list_keyword_types@, Seq::<(Seq<char>, ListType)>::empty())
    &&& s.default_list_type == ListType::Packed
    &&& s.compound_list_keywords@.len() == 0
    &&& s.modes@.len() == 0
    &&& s.subparsers@.len() == 0
}

fn build_vcpkg_from_github() -> (r: FunctionSchema)
    ensures
        schema_vcpkg_from_github(r),
{
    FunctionSchema {
        one_value_keywords: w(&["OUT_SOURCE_PATH", "REPO", "REF", "SHA512", "HEAD_REF", "FILE_DISAMBIGUATOR", "AUTHORIZATION_TOKEN"]),
        multi_value_keywords: w(&["PATCHES"]),
        ..FunctionSchema::default()
    }
}

pub open spec fn schema_vcpkg_install_copyright(s: FunctionSchema) -> bool {
    &&& s.positional is None
    &&& !s.no_break_first_argument
    &&& words_are(s.simple_keywords@, Seq::<Seq<char>>::empty())
    &&& words_are(s.options@, Seq::<Seq<char>>::empty())
    &&& words_are(s.one_value_keywords@, seq!["COMMENT"@])
    &&& words_are(s.multi_value_keywords@, seq!["FILE_LIST"@])
    &&& words_are(s.path_keywords@, Seq::<Seq<char>>::empty())
    &&& types_are(s.list_keyword_types@, Seq::<(Seq<char>, ListType)>::empty())
    &&& s.default_list_type == ListType::Packed
    &&& s.compound_list_keywords@.len() == 0
    &&& s.modes@.len() == 0
    &&& s.subparsers@.len() == 0
}

fn build_vcpkg_install_copyright() -> (r: FunctionSchema)
    ensures
        schema_vcpkg_install_copyright(r),
{
    FunctionSchema {
        one_value_keywords: w(&["COMMENT"]),
        multi_value_keywords: w(&["FILE_LIST"]),
        ..FunctionSchema::default()
    }
}

pub open spec fn schema_cmake_instrumentation(s: FunctionSchema) -> bool {
    &&& s.positional is None
    &&& !s.no_break_first_argument
    &&& words_are(s.simple_keywords@, Seq::<Seq<char>>::empty())
    &&& words_are(s.options@, Seq::<Seq<char>>::empty())
    &&& words_are(s.one_value_keywords@, seq!["API_VERSION"@, "DATA_VERSION"@])
    &&& words_are(s.multi_value_keywords@, seq!["HOOKS"@, "OPTIONS"@, "CALLBACK"@, "CUSTOM_CONTENT"@])
    &&& words_are(s.path_keywords@, Seq::<Seq<char>>::empty())
    &&& types_are(s.list_keyword_types@, seq![("CALLBACK"@, ListType::CommandArgv)])
    &&& s.default_list_type == ListType::Packed
    &&& s.compound_list_keywords@.len() == 0
    &&& s.modes@.len() == 0
    &&& s.subparsers@.len() == 0
}

fn build_cmake_instrumentation() -> (r: FunctionSchema)
    ensures
        schema_cmake_instrumentation(r),
{
    FunctionSchema {
        one_value_keywords: w(&["API_VERSION", "DATA_VERSION"]),
        multi_value_keywords: w(&["HOOKS", "OPTIONS", "CALLBACK", "CUSTOM_CONTENT"]),
        list_keyword_types: lt(&[("CALLBACK", ListType::CommandArgv)]),
        ..FunctionSchema::default()
    }
}

pub open spec fn schema_find_file(s: FunctionSchema) -> bool {
    &&& s.positional == Some(PositionalSpec { min: 2, max: 0 })
    &&& !s.no_break_first_argument
    &&& words_are(s.simple_keywords@, Seq::<Seq<char>>::empty())
    &&& words_are(s.options@, seq!["NO_CACHE"@, "REQUIRED"@, "OPTIONAL"@, "NO_DEFAULT_PATH"@, "NO_PACKAGE_ROOT_PATH"@, "NO_CMAKE_PATH"@, "NO_CMAKE_ENVIRONMENT_PATH"@, "NO_SYSTEM_ENVIRONMENT_PATH"@, "NO_CMAKE_SYSTEM_PATH"@, "NO_CMAKE_INSTALL_PREFIX"@, "CMAKE_FIND_ROOT_PATH_BOTH"@, "ONLY_CMAKE_FIND_ROOT_PATH"@, "NO_CMAKE_FIND_ROOT_PATH"@])
    &&& words_are(s.one_value_keywords@, seq!["REGISTRY_VIEW"@, "VALIDATOR"@, "DOC"@])
    &&& words_are(s.multi_value_keywords@, seq!["NAMES"@, "HINTS"@, "PATHS"@, "PATH_SUFFIXES"@])
    &&& words_are(s.path_keywords@, Seq::<Seq<char>>::empty())
    &&& types_are(s.list_keyword_types@, Seq::<(Seq<char>, ListType)>::empty())
    &&& s.default_list_type == ListType::Packed
    &&& s.compound_list_keywords@.len() == 0
    &&& s.modes@.len() == 0
    &&& s.subparsers@.len() == 0
}

fn build_find_file() -> (r: FunctionSchema)
    ensures
        schema_find_file(r),
{
    FunctionSchema {
        positional: pos(2, 0),
        options: w(&["NO_CACHE", "REQUIRED", "OPTIONAL", "NO_DEFAULT_PATH", "NO_PACKAGE_ROOT_PATH", "NO_CMAKE_PATH", "NO_CMAKE_ENVIRONMENT_PATH", "NO_SYSTEM_ENVIRONMENT_PATH", "NO_CMAKE_SYSTEM_PATH", "NO_CMAKE_INSTALL_PREFIX", "CMAKE_FIND_ROOT_PATH_BOTH", "ONLY_CMAKE_FIND_ROOT_PATH", "NO_CMAKE_FIND_ROOT_PATH"]),
        one_value_keywords: w(&["REGISTRY_VIEW", "VALIDATOR", "DOC"]),
        multi_value_keywords: w(&["NAMES", "HINTS", "PATHS", "PATH_SUFFIXES"]),
        ..FunctionSchema::default()
    }
}

pub open spec fn schema_find_library(s: FunctionSchema) -> bool {
    &&& s.positional == Some(PositionalSpec { min: 2, max: 0 })
    &&& !s.no_break_first_argument
    &&& words_are(s.simple_keywords@, Seq::<Seq<char>>::empty())
    &&& words_are(s.options@, seq!["NAMES_PER_DIR"@, "NO_CACHE"@, "REQUIRED"@, "OPTIONAL"@, "NO_DEFAULT_PATH"@, "NO_PACKAGE_ROOT_PATH"@, "NO_CMAKE_PATH"@, "NO_CMAKE_ENVIRONMENT_PATH"@, "NO_SYSTEM_ENVIRONMENT_PATH"@, "NO_CMAKE_SYSTEM_PATH"@, "NO_CMAKE_INSTALL_PREFIX"@, "CMAKE_FIND_ROOT_PATH_BOTH"@, "ONLY_CMAKE_FIND_ROOT_PATH"@, "NO_CMAKE_FIND_ROOT_PATH"@])
    &&& words_are(s.one_value_keywords@, seq!["REGISTRY_VIEW"@, "VALIDATOR"@, "DOC"@])
    &&& words_are(s.multi_value_keywords@, seq!["NAMES"@, "HINTS"@, "PATHS"@, "PATH_SUFFIXES"@])
    &&& words_are(s.path_keywords@, Seq::<Seq<char>>::empty())
    &&& types_are(s.list_keyword_types@, Seq::<(Seq<char>, ListType)>::empty())
    &&& s.default_list_type == ListType::Packed
    &&& s.compound_list_keywords@.len() == 0
    &&& s.modes@.len() == 0
    &&& s.subparsers@.len() == 0
}

fn build_find_library() -> (r: FunctionSchema)
    ensures
        schema_find_library(r),
{
    FunctionSchema {
        positional: pos(2, 0),
        options: w(&["NAMES_PER_DIR", "NO_CACHE", "REQUIRED", "OPTIONAL", "NO_DEFAULT_PATH", "NO_PACKAGE_ROOT_PATH", "NO_CMAKE_PATH", "NO_CMAKE_ENVIRONMENT_PATH", "NO_SYSTEM_ENVIRONMENT_PATH", "NO_CMAKE_SYSTEM_PATH", "NO_CMAKE_INSTALL_PREFIX", "CMAKE_FIND_ROOT_PATH_BOTH", "ONLY_CMAKE_FIND_ROOT_PATH", "NO_CMAKE_FIND_ROOT_PATH"]),
        one_value_keywords: w(&["REGISTRY_VIEW", "VALIDATOR", "DOC"]),
        multi_value_keywords: w(&["NAMES", "HINTS", "PATHS", "PATH_SUFFIXES"]),
        ..FunctionSchema::default()
    }
}

pub open spec fn schema_find_path(s: FunctionSchema) -> bool {
    &&& s.positional == Some(PositionalSpec { min: 2, max: 0 })
    &&& !s.no_break_first_argument
    &&& words_are(s.simple_keywords@, Seq::<Seq<char>>::empty())
    &&& words_are(s.options@, seq!["NO_CACHE"@, "REQUIRED"@, "OPTIONAL"@, "NO_DEFAULT_PATH"@, "NO_PACKAGE_ROOT_PATH"@, "NO_CMAKE_PATH"@, "NO_CMAKE_ENVIRONMENT_PATH"@, "NO_SYSTEM_ENVIRONMENT_PATH"@, "NO_CMAKE_SYSTEM_PATH"@, "NO_CMAKE_INSTALL_PREFIX"@, "CMAKE_FIND_ROOT_PATH_BOTH"@, "ONLY_CMAKE_FIND_ROOT_PATH"@, "NO_CMAKE_FIND_ROOT_PATH"@])
    &&& words_are(s.one_value_keywords@, seq!["REGISTRY_VIEW"@, "VALIDATOR"@, "DOC"@])
    &&& words_are(s.multi_value_keywords@, seq!["NAMES"@, "HINTS"@, "PATHS"@, "PATH_SUFFIXES"@])
    &&& words_are(s.path_keywords@, Seq::<Seq<char>>::empty())
    &&& types_are(s.list_keyword_types@, Seq::<(Seq<char>, ListType)>::empty())
    &&& s.default_list_type == ListType::Packed
    &&& s.compound_list_keywords@.len() == 0
    &&& s.modes@.len() == 0
    &&& s.subparsers@.len() == 0
}

fn build_find_path() -> (r: FunctionSchema)
    ensures
        schema_find_path(r),
{
    FunctionSchema {
        positional: pos(2, 0),
        options: w(&["NO_CACHE", "REQUIRED", "OPTIONAL", "NO_DEFAULT_PATH", "NO_PACKAGE_ROOT_PATH", "NO_CMAKE_PATH", "NO_CMAKE_ENVIRONMENT_PATH", "NO_SYSTEM_ENVIRONMENT_PATH", "NO_CMAKE_SYSTEM_PATH", "NO_CMAKE_INSTALL_PREFIX", "CMAKE_FIND_ROOT_PATH_BOTH", "ONLY_CMAKE_FIND_ROOT_PATH", "NO_CMAKE_FIND_ROOT_PATH"]),
        one_value_keywords: w(&["REGISTRY_VIEW", "VALIDATOR", "DOC"]),
        multi_value_keywords: w(&["NAMES", "HINTS", "PATHS", "PATH_SUFFIXES"]),
        ..FunctionSchema::default()
    }
}

pub open spec fn schema_find_program(s: FunctionSchema) -> bool {
    &&& s.positional == Some(PositionalSpec { min: 2, max: 0 })
    &&& !s.no_break_first_argument
    &&& words_are(s.simple_keywords@, Seq::<Seq<char>>::empty())
    &&& words_are(s.options@, seq!["NAMES_PER_DIR"@, "NO_CACHE"@, "REQUIRED"@, "OPTIONAL"@, "NO_DEFAULT_PATH"@, "NO_PACKAGE_ROOT_PATH"@, "NO_CMAKE_PATH"@, "NO_CMAKE_ENVIRONMENT_PATH"@, "NO_SYSTEM_ENVIRONMENT_PATH"@, "NO_CMAKE_SYSTEM_PATH"@, "NO_CMAKE_INSTALL_PREFIX"@, "CMAKE_FIND_ROOT_PATH_BOTH"@, "ONLY_CMAKE_FIND_ROOT_PATH"@, "NO_CMAKE_FIND_ROOT_PATH"@])
    &&& words_are(s.one_value_keywords@, seq!["REGISTRY_VIEW"@, "VALIDATOR"@, "DOC"@])
    &&& words_are(s.multi_value_keywords@, seq!["NAMES"@, "HINTS"@, "PATHS"@, "PATH_SUFFIXES"@])
    &&& words_are(s.path_keywords@, Seq::<Seq<char>>::empty())
    &&& types_are(s.list_keyword_types@, Seq::<(Seq<char>, ListType)>::empty())
    &&& s.default_list_type == ListType::Packed
    &&& s.compound_list_keywords@.len() == 0
    &&& s.modes@.len() == 0
    &&& s.subparsers@.len() == 0
}

fn build_find_program() -> (r: FunctionSchema)
    ensures
        schema_find_program(r),
{
    FunctionSchema {
        positional: pos(2, 0),
        options: w(&["NAMES_PER_DIR", "NO_CACHE", "REQUIRED", "OPTIONAL", "NO_DEFAULT_PATH", "NO_PACKAGE_ROOT_PATH", "NO_CMAKE_PATH", "NO_CMAKE_ENVIRONMENT_PATH", "NO_SYSTEM_ENVIRONMENT_PATH", "NO_CMAKE_SYSTEM_PATH", "NO_CMAKE_INSTALL_PREFIX", "CMAKE_FIND_ROOT_PATH_BOTH", "ONLY_CMAKE_FIND_ROOT_PATH", "NO_CMAKE_FIND_ROOT_PATH"]),
        one_value_keywords: w(&["REGISTRY_VIEW", "VALIDATOR", "DOC"]),
        multi_value_keywords: w(&["NAMES", "HINTS", "PATHS", "PATH_SUFFIXES"]),
        ..FunctionSchema::default()
    }
}

// ---------------------------------------------------------------------------
// The table
// ---------------------------------------------------------------------------
/// The names of the commands that have a built-in schema, in order.
pub open spec fn builtin_names() -> Seq<Seq<char>> {
    seq![
        "if"@,
        "elseif"@,
        "while"@,
        "project"@,
        "cmake_minimum_required"@,
        "fetchcontent_declare"@,
        "externalproject_add"@,
        "define_property"@,
        "add_custom_target"@,
        "add_custom_command"@,
        "foreach"@,
        "set_property"@,
        "get_property"@,
        "target_include_directories"@,
        "target_compile_options"@,
        "target_compile_definitions"@,
        "target_compile_features"@,
        "target_link_options"@,
        "target_link_directories"@,
        "target_precompile_headers"@,
        "target_sources"@,
        "add_library"@,
        "add_executable"@,
        "install"@,
        "set_target_properties"@,
        "set_source_files_properties"@,
        "set_directory_properties"@,
        "set_tests_properties"@,
        "add_test"@,
        "execute_process"@,
        "find_package"@,
        "target_link_libraries"@,
        "find_package_handle_standard_args"@,
        "option"@,
        "cmake_dependent_option"@,
        "set"@,
        "file"@,
        "export"@,
        "cmake_path"@,
        "cmake_language"@,
        "list"@,
        "string"@,
        "message"@,
        "cmake_parse_arguments"@,
        "vcpkg_check_linkage"@,
        "vcpkg_cmake_config_fixup"@,
        "vcpkg_cmake_configure"@,
        "vcpkg_cmake_install"@,
        "vcpkg_from_github"@,
        "vcpkg_install_copyright"@,
        "cmake_instrumentation"@,
        "find_file"@,
        "find_library"@,
        "find_path"@,
        "find_program"@
    ]
}

/// The built-in table: each command's name and schema, in order.
pub open spec fn is_builtin_table(r: Seq<(String, FunctionSchema)>) -> bool {
    &&& r.len() == 55
    &&& r[0].0@ == "if"@
    &&& schema_if(r[0].1)
    &&& r[1].0@ == "elseif"@
    &&& schema_elseif(r[1].1)
    &&& r[2].0@ == "while"@
    &&& schema_while(r[2].1)
    &&& r[3].0@ == "project"@
    &&& schema_project(r[3].1)
    &&& r[4].0@ == "cmake_minimum_required"@
    &&& schema_cmake_minimum_required(r[4].1)
    &&& r[5].0@ == "fetchcontent_declare"@
    &&& schema_fetchcontent_declare(r[5].1)
    &&& r[6].0@ == "externalproject_add"@
    &&& schema_externalproject_add(r[6].1)
    &&& r[7].0@ == "define_property"@
    &&& schema_define_property(r[7].1)
    &&& r[8].0@ == "add_custom_target"@
    &&& schema_add_custom_target(r[8].1)
    &&& r[9].0@ == "add_custom_command"@
    &&& schema_add_custom_command(r[9].1)
    &&& r[10].0@ == "foreach"@
    &&& schema_foreach(r[10].1)
    &&& r[11].0@ == "set_property"@
    &&& schema_set_property(r[11].1)
    &&& r[12].0@ == "get_property"@
    &&& schema_get_property(r[12].1)
    &&& r[13].0@ == "target_include_directories"@
    &&& schema_target_include_directories(r[13].1)
    &&& r[14].0@ == "target_compile_options"@
    &&& schema_target_compile_options(r[14].1)
    &&& r[15].0@ == "target_compile_definitions"@
    &&& schema_target_compile_definitions(r[15].1)
    &&& r[16].0@ == "target_compile_features"@
    &&& schema_target_compile_features(r[16].1)
    &&& r[17].0@ == "target_link_options"@
    &&& schema_target_link_options(r[17].1)
    &&& r[18].0@ == "target_link_directories"@
    &&& schema_target_link_directories(r[18].1)
    &&& r[19].0@ == "target_precompile_headers"@
    &&& schema_target_precompile_headers(r[19].1)
    &&& r[20].0@ == "target_sources"@
    &&& schema_target_sources(r[20].1)
    &&& r[21].0@ == "add_library"@
    &&& schema_add_library(r[21].1)
    &&& r[22].0@ == "add_executable"@
    &&& schema_add_executable(r[22].1)
    &&& r[23].0@ == "install"@
    &&& schema_install(r[23].1)
    &&& r[24].0@ == "set_target_properties"@
    &&& schema_set_target_properties(r[24].1)
    &&& r[25].0@ == "set_source_files_properties"@
    &&& schema_set_source_files_properties(r[25].1)
    &&& r[26].0@ == "set_directory_properties"@
    &&& schema_set_directory_properties(r[26].1)
    &&& r[27].0@ == "set_tests_properties"@
    &&& schema_set_tests_properties(r[27].1)
    &&& r[28].0@ == "add_test"@
    &&& schema_add_test(r[28].1)
    &&& r[29].0@ == "execute_process"@
    &&& schema_execute_process(r[29].1)
    &&& r[30].0@ == "find_package"@
    &&& schema_find_package(r[30].1)
    &&& r[31].0@ == "target_link_libraries"@
    &&& schema_target_link_libraries(r[31].1)
    &&& r[32].0@ == "find_package_handle_standard_args"@
    &&& schema_find_package_handle_standard_args(r[32].1)
    &&& r[33].0@ == "option"@
    &&& schema_option(r[33].1)
    &&& r[34].0@ == "cmake_dependent_option"@
    &&& schema_cmake_dependent_option(r[34].1)
    &&& r[35].0@ == "set"@
    &&& schema_set(r[35].1)
    &&& r[36].0@ == "file"@
    &&& schema_file(r[36].1)
    &&& r[37].0@ == "export"@
    &&& schema_export(r[37].1)
    &&& r[38].0@ == "cmake_path"@
    &&& schema_cmake_path(r[38].1)
    &&& r[39].0@ == "cmake_language"@
    &&& schema_cmake_language(r[39].1)
    &&& r[40].0@ == "list"@
    &&& schema_list(r[40].1)
    &&& r[41].0@ == "string"@
    &&& schema_string(r[41].1)
    &&& r[42].0@ == "message"@
    &&& schema_message(r[42].1)
    &&& r[43].0@ == "cmake_parse_arguments"@
    &&& schema_cmake_parse_arguments(r[43].1)
    &&& r[44].0@ == "vcpkg_check_linkage"@
    &&& schema_vcpkg_check_linkage(r[44].1)
    &&& r[45].0@ == "vcpkg_cmake_config_fixup"@
    &&& schema_vcpkg_cmake_config_fixup(r[45].1)
    &&& r[46].0@ == "vcpkg_cmake_configure"@
    &&& schema_vcpkg_cmake_configure(r[46].1)
    &&& r[47].0@ == "vcpkg_cmake_install"@
    &&& schema_vcpkg_cmake_install(r[47].1)
    &&& r[48].0@ == "vcpkg_from_github"@
    &&& schema_vcpkg_from_github(r[48].1)
    &&& r[49].0@ == "vcpkg_install_copyright"@
    &&& schema_vcpkg_install_copyright(r[49].1)
    &&& r[50].0@ == "cmake_instrumentation"@
    &&& schema_cmake_instrumentation(r[50].1)
    &&& r[51].0@ == "find_file"@
    &&& schema_find_file(r[51].1)
    &&& r[52].0@ == "find_library"@
    &&& schema_find_library(r[52].1)
    &&& r[53].0@ == "find_path"@
    &&& schema_find_path(r[53].1)
    &&& r[54].0@ == "find_program"@
    &&& schema_find_program(r[54].1)
}

fn add_builtins_0(functions: &mut Vec<(String, FunctionSchema)>)
    ensures
        final(functions)@.len() == old(functions)@.len() + 5,
        final(functions)@.subrange(0, old(functions)@.len() as int) == old(functions)@,
        final(functions)@[old(functions)@.len() as int + 0].0@ == "if"@,
        schema_if(final(functions)@[old(functions)@.len() as int + 0].1),
        final(functions)@[old(functions)@.len() as int + 1].0@ == "elseif"@,
        schema_elseif(final(functions)@[old(functions)@.len() as int + 1].1),
        final(functions)@[old(functions)@.len() as int + 2].0@ == "while"@,
        schema_while(final(functions)@[old(functions)@.len() as int + 2].1),
        final(functions)@[old(functions)@.len() as int + 3].0@ == "project"@,
        schema_project(final(functions)@[old(functions)@.len() as int + 3].1),
        final(functions)@[old(functions)@.len() as int + 4].0@ == "cmake_minimum_required"@,
        schema_cmake_minimum_required(final(functions)@[old(functions)@.len() as int + 4].1),
{
    let ghost start = functions@;
    functions.push((owned("if"), build_if()));
    functions.push((owned("elseif"), build_elseif()));
    functions.push((owned("while"), build_while()));
    functions.push((owned("project"), build_project()));
    functions.push((owned("cmake_minimum_required"), build_cmake_minimum_required()));
    assert(functions@.subrange(0, start.len() as int) =~= start);
}

fn add_builtins_1(functions: &mut Vec<(String, FunctionSchema)>)
    ensures
        final(functions)@.len() == old(functions)@.len() + 5,
        final(functions)@.subrange(0, old(functions)@.len() as int) == old(functions)@,
        final(functions)@[old(functions)@.len() as int + 0].0@ == "fetchcontent_declare"@,
        schema_fetchcontent_declare(final(functions)@[old(functions)@.len() as int + 0].1),
        final(functions)@[old(functions)@.len() as int + 1].0@ == "externalproject_add"@,
        schema_externalproject_add(final(functions)@[old(functions)@.len() as int + 1].1),
        final(functions)@[old(functions)@.len() as int + 2].0@ == "define_property"@,
        schema_define_property(final(functions)@[old(functions)@.len() as int + 2].1),
        final(functions)@[old(functions)@.len() as int + 3].0@ == "add_custom_target"@,
        schema_add_custom_target(final(functions)@[old(functions)@.len() as int + 3].1),
        final(functions)@[old(functions)@.len() as int + 4].0@ == "add_custom_command"@,
        schema_add_custom_command(final(functions)@[old(functions)@.len() as int + 4].1),
{
    let ghost start = functions@;
    functions.push((owned("fetchcontent_declare"), build_fetchcontent_declare()));
    functions.push((owned("externalproject_add"), build_externalproject_add()));
    functions.push((owned("define_property"), build_define_property()));
    functions.push((owned("add_custom_target"), build_add_custom_target()));
    functions.push((owned("add_custom_command"), build_add_custom_command()));
    assert(functions@.subrange(0, start.len() as int) =~= start);
}

fn add_builtins_2(functions: &mut Vec<(String, FunctionSchema)>)
    ensures
        final(functions)@.len() == old(functions)@.len() + 5,
        final(functions)@.subrange(0, old(functions)@.len() as int) == old(functions)@,
        final(functions)@[old(functions)@.len() as int + 0].0@ == "foreach"@,
        schema_foreach(final(functions)@[old(functions)@.len() as int + 0].1),
        final(functions)@[old(functions)@.len() as int + 1].0@ == "set_property"@,
        schema_set_property(final(functions)@[old(functions)@.len() as int + 1].1),
        final(functions)@[old(functions)@.len() as int + 2].0@ == "get_property"@,
        schema_get_property(final(functions)@[old(functions)@.len() as int + 2].1),
        final(functions)@[old(functions)@.len() as int + 3].0@ == "target_include_directories"@,
        schema_target_include_directories(final(functions)@[old(functions)@.len() as int + 3].1),
        final(functions)@[old(functions)@.len() as int + 4].0@ == "target_compile_options"@,
        schema_target_compile_options(final(functions)@[old(functions)@.len() as int + 4].1),
{
    let ghost start = functions@;
    functions.push((owned("foreach"), build_foreach()));
    functions.push((owned("set_property"), build_set_property()));
    functions.push((owned("get_property"), build_get_property()));
    functions.push((owned("target_include_directories"), build_target_include_directories()));
    functions.push((owned("target_compile_options"), build_target_compile_options()));
    assert(functions@.subrange(0, start.len() as int) =~= start);
}

fn add_builtins_3(functions: &mut Vec<(String, FunctionSchema)>)
    ensures
        final(functions)@.len() == old(functions)@.len() + 5,
        final(functions)@.subrange(0, old(functions)@.len() as int) == old(functions)@,
        final(functions)@[old(functions)@.len() as int + 0].0@ == "target_compile_definitions"@,
        schema_target_compile_definitions(final(functions)@[old(functions)@.len() as int + 0].1),
        final(functions)@[old(functions)@.len() as int + 1].0@ == "target_compile_features"@,
        schema_target_compile_features(final(functions)@[old(functions)@.len() as int + 1].1),
        final(functions)@[old(functions)@.len() as int + 2].0@ == "target_link_options"@,
        schema_target_link_options(final(functions)@[old(functions)@.len() as int + 2].1),
        final(functions)@[old(functions)@.len() as int + 3].0@ == "target_link_directories"@,
        schema_target_link_directories(final(functions)@[old(functions)@.len() as int + 3].1),
        final(functions)@[old(functions)@.len() as int + 4].0@ == "target_precompile_headers"@,
        schema_target_precompile_headers(final(functions)@[old(functions)@.len() as int + 4].1),
{
    let ghost start = functions@;
    functions.push((owned("target_compile_definitions"), build_target_compile_definitions()));
    functions.push((owned("target_compile_features"), build_target_compile_features()));
    functions.push((owned("target_link_options"), build_target_link_options()));
    functions.push((owned("target_link_directories"), build_target_link_directories()));
    functions.push((owned("target_precompile_headers"), build_target_precompile_headers()));
    assert(functions@.subrange(0, start.len() as int) =~= start);
}

fn add_builtins_4(functions: &mut Vec<(String, FunctionSchema)>)
    ensures
        final(functions)@.len() == old(functions)@.len() + 5,
        final(functions)@.subrange(0, old(functions)@.len() as int) == old(functions)@,
        final(functions)@[old(functions)@.len() as int + 0].0@ == "target_sources"@,
        schema_target_sources(final(functions)@[old(functions)@.len() as int + 0].1),
        final(functions)@[old(functions)@.len() as int + 1].0@ == "add_library"@,
        schema_add_library(final(functions)@[old(functions)@.len() as int + 1].1),
        final(functions)@[old(functions)@.len() as int + 2].0@ == "add_executable"@,
        schema_add_executable(final(functions)@[old(functions)@.len() as int + 2].1),
        final(functions)@[old(functions)@.len() as int + 3].0@ == "install"@,
        schema_install(final(functions)@[old(functions)@.len() as int + 3].1),
        final(functions)@[old(functions)@.len() as int + 4].0@ == "set_target_properties"@,
        schema_set_target_properties(final(functions)@[old(functions)@.len() as int + 4].1),
{
    let ghost start = functions@;
    functions.push((owned("target_sources"), build_target_sources()));
    functions.push((owned("add_library"), build_add_library()));
    functions.push((owned("add_executable"), build_add_executable()));
    functions.push((owned("install"), build_install()));
    functions.push((owned("set_target_properties"), build_set_target_properties()));
    assert(functions@.subrange(0, start.len() as int) =~= start);
}

fn add_builtins_5(functions: &mut Vec<(String, FunctionSchema)>)
    ensures
        final(functions)@.len() == old(functions)@.len() + 5,
        final(functions)@.subrange(0, old(functions)@.len() as int) == old(functions)@,
        final(functions)@[old(functions)@.len() as int + 0].0@ == "set_source_files_properties"@,
        schema_set_source_files_properties(final(functions)@[old(functions)@.len() as int + 0].1),
        final(functions)@[old(functions)@.len() as int + 1].0@ == "set_directory_properties"@,
        schema_set_directory_properties(final(functions)@[old(functions)@.len() as int + 1].1),
        final(functions)@[old(functions)@.len() as int + 2].0@ == "set_tests_properties"@,
        schema_set_tests_properties(final(functions)@[old(functions)@.len() as int + 2].1),
        final(functions)@[old(functions)@.len() as int + 3].0@ == "add_test"@,
        schema_add_test(final(functions)@[old(functions)@.len() as int + 3].1),
        final(functions)@[old(functions)@.len() as int + 4].0@ == "execute_process"@,
        schema_execute_process(final(functions)@[old(functions)@.len() as int + 4].1),
{
    let ghost start = functions@;
    functions.push((owned("set_source_files_properties"), build_set_source_files_properties()));
    functions.push((owned("set_directory_properties"), build_set_directory_properties()));
    functions.push((owned("set_tests_properties"), build_set_tests_properties()));
    functions.push((owned("add_test"), build_add_test()));
    functions.push((owned("execute_process"), build_execute_process()));
    assert(functions@.subrange(0, start.len() as int) =~= start);
}

fn add_builtins_6(functions: &mut Vec<(String, FunctionSchema)>)
    ensures
        final(functions)@.len() == old(functions)@.len() + 5,
        final(functions)@.subrange(0, old(functions)@.len() as int) == old(functions)@,
        final(functions)@[old(functions)@.len() as int + 0].0@ == "find_package"@,
        schema_find_package(final(functions)@[old(functions)@.len() as int + 0].1),
        final(functions)@[old(functions)@.len() as int + 1].0@ == "target_link_libraries"@,
        schema_target_link_libraries(final(functions)@[old(functions)@.len() as int + 1].1),
        final(functions)@[old(functions)@.len() as int + 2].0@ == "find_package_handle_standard_args"@,
        schema_find_package_handle_standard_args(final(functions)@[old(functions)@.len() as int + 2].1),
        final(functions)@[old(functions)@.len() as int + 3].0@ == "option"@,
        schema_option(final(functions)@[old(functions)@.len() as int + 3].1),
        final(functions)@[old(functions)@.len() as int + 4].0@ == "cmake_dependent_option"@,
        schema_cmake_dependent_option(final(functions)@[old(functions)@.len() as int + 4].1),
{
    let ghost start = functions@;
    functions.push((owned("find_package"), build_find_package()));
    functions.push((owned("target_link_libraries"), build_target_link_libraries()));
    functions.push((owned("find_package_handle_standard_args"), build_find_package_handle_standard_args()));
    functions.push((owned("option"), build_option()));
    functions.push((owned("cmake_dependent_option"), build_cmake_dependent_option()));
    assert(functions@.subrange(0, start.len() as int) =~= start);
}

fn add_builtins_7(functions: &mut Vec<(String, FunctionSchema)>)
    ensures
        final(functions)@.len() == old(functions)@.len() + 5,
        final(functions)@.subrange(0, old(functions)@.len() as int) == old(functions)@,
        final(functions)@[old(functions)@.len() as int + 0].0@ == "set"@,
        schema_set(final(functions)@[old(functions)@.len() as int + 0].1),
        final(functions)@[old(functions)@.len() as int + 1].0@ == "file"@,
        schema_file(final(functions)@[old(functions)@.len() as int + 1].1),
        final(functions)@[old(functions)@.len() as int + 2].0@ == "export"@,
        schema_export(final(functions)@[old(functions)@.len() as int + 2].1),
        final(functions)@[old(functions)@.len() as int + 3].0@ == "cmake_path"@,
        schema_cmake_path(final(functions)@[old(functions)@.len() as int + 3].1),
        final(functions)@[old(functions)@.len() as int + 4].0@ == "cmake_language"@,
        schema_cmake_language(final(functions)@[old(functions)@.len() as int + 4].1),
{
    let ghost start = functions@;
    functions.push((owned("set"), build_set()));
    functions.push((owned("file"), build_file()));
    functions.push((owned("export"), build_export()));
    functions.push((owned("cmake_path"), build_cmake_path()));
    functions.push((owned("cmake_language"), build_cmake_language()));
    assert(functions@.subrange(0, start.len() as int) =~= start);
}

fn add_builtins_8(functions: &mut Vec<(String, FunctionSchema)>)
    ensures
        final(functions)@.len() == old(functions)@.len() + 5,
        final(functions)@.subrange(0, old(functions)@.len() as int) == old(functions)@,
        final(functions)@[old(functions)@.len() as int + 0].0@ == "list"@,
        schema_list(final(functions)@[old(functions)@.len() as int + 0].1),
        final(functions)@[old(functions)@.len() as int + 1].0@ == "string"@,
        schema_string(final(functions)@[old(functions)@.len() as int + 1].1),
        final(functions)@[old(functions)@.len() as int + 2].0@ == "message"@,
        schema_message(final(functions)@[old(functions)@.len() as int + 2].1),
        final(functions)@[old(functions)@.len() as int + 3].0@ == "cmake_parse_arguments"@,
        schema_cmake_parse_arguments(final(functions)@[old(functions)@.len() as int + 3].1),
        final(functions)@[old(functions)@.len() as int + 4].0@ == "vcpkg_check_linkage"@,
        schema_vcpkg_check_linkage(final(functions)@[old(functions)@.len() as int + 4].1),
{
    let ghost start = functions@;
    functions.push((owned("list"), build_list()));
    functions.push((owned("string"), build_string()));
    functions.push((owned("message"), build_message()));
    functions.push((owned("cmake_parse_arguments"), build_cmake_parse_arguments()));
    functions.push((owned("vcpkg_check_linkage"), build_vcpkg_check_linkage()));
    assert(functions@.subrange(0, start.len() as int) =~= start);
}

fn add_builtins_9(functions: &mut Vec<(String, FunctionSchema)>)
    ensures
        final(functions)@.len() == old(functions)@.len() + 5,
        final(functions)@.subrange(0, old(functions)@.len() as int) == old(functions)@,
        final(functions)@[old(functions)@.len() as int + 0].0@ == "vcpkg_cmake_config_fixup"@,
        schema_vcpkg_cmake_config_fixup(final(functions)@[old(functions)@.len() as int + 0].1),
        final(functions)@[old(functions)@.len() as int + 1].0@ == "vcpkg_cmake_configure"@,
        schema_vcpkg_cmake_configure(final(functions)@[old(functions)@.len() as int + 1].1),
        final(functions)@[old(functions)@.len() as int + 2].0@ == "vcpkg_cmake_install"@,
        schema_vcpkg_cmake_install(final(functions)@[old(functions)@.len() as int + 2].1),
        final(functions)@[old(functions)@.len() as int + 3].0@ == "vcpkg_from_github"@,
        schema_vcpkg_from_github(final(functions)@[old(functions)@.len() as int + 3].1),
        final(functions)@[old(functions)@.len() as int + 4].0@ == "vcpkg_install_copyright"@,
        schema_vcpkg_install_copyright(final(functions)@[old(functions)@.len() as int + 4].1),
{
    let ghost start = functions@;
    functions.push((owned("vcpkg_cmake_config_fixup"), build_vcpkg_cmake_config_fixup()));
    functions.push((owned("vcpkg_cmake_configure"), build_vcpkg_cmake_configure()));
    functions.push((owned("vcpkg_cmake_install"), build_vcpkg_cmake_install()));
    functions.push((owned("vcpkg_from_github"), build_vcpkg_from_github()));
    functions.push((owned("vcpkg_install_copyright"), build_vcpkg_install_copyright()));
    assert(functions@.subrange(0, start.len() as int) =~= start);
}

fn add_builtins_10(functions: &mut Vec<(String, FunctionSchema)>)
    ensures
        final(functions)@.len() == old(functions)@.len() + 5,
        final(functions)@.subrange(0, old(functions)@.len() as int) == old(functions)@,
        final(functions)@[old(functions)@.len() as int + 0].0@ == "cmake_instrumentation"@,
        schema_cmake_instrumentation(final(functions)@[old(functions)@.len() as int + 0].1),
        final(functions)@[old(functions)@.len() as int + 1].0@ == "find_file"@,
        schema_find_file(final(functions)@[old(functions)@.len() as int + 1].1),
        final(functions)@[old(functions)@.len() as int + 2].0@ == "find_library"@,
        schema_find_library(final(functions)@[old(functions)@.len() as int + 2].1),
        final(functions)@[old(functions)@.len() as int + 3].0@ == "find_path"@,
        schema_find_path(final(functions)@[old(functions)@.len() as int + 3].1),
        final(functions)@[old(functions)@.len() as int + 4].0@ == "find_program"@,
        schema_find_program(final(functions)@[old(functions)@.len() as int + 4].1),
{
    let ghost start = functions@;
    functions.push((owned("cmake_instrumentation"), build_cmake_instrumentation()));
    functions.push((owned("find_file"), build_find_file()));
    functions.push((owned("find_library"), build_find_library()));
    functions.push((owned("find_path"), build_find_path()));
    functions.push((owned("find_program"), build_find_program()));
    assert(functions@.subrange(0, start.len() as int) =~= start);
}

/// A word of lowercase ASCII letters, digits and underscores.
pub open spec fn lower_word(s: Seq<char>) -> bool {
    forall|i: int| 0 <= i < s.len() ==> ('a' <= #[trigger] s[i] <= 'z') || ('0' <= s[i] <= '9') || s[i] == '_'
}

/// A lowercase word is ASCII and its own ASCII lowercase.
pub proof fn lemma_lower_word(s: Seq<char>)
    requires
        lower_word(s),
    ensures
        crate::text::all_ascii(s),
        crate::text::ascii_lower(s) == s,
{
    assert(crate::text::ascii_lower(s) =~= s);
}

/// Every built-in schema is keyed by a lowercase ASCII word, so a lookup,
/// which lowercases the name it is given, reaches each of them.
pub proof fn law_builtin_names_lowercase()
    ensures
        forall|i: int| 0 <= i < builtin_names().len() ==> lower_word(#[trigger] builtin_names()[i])
            && crate::text::all_ascii(builtin_names()[i]) && crate::text::ascii_lower(builtin_names()[i])
            == builtin_names()[i],
{
    assert(lower_word("if"@)) by {
        reveal_strlit("if");
    }
    assert(lower_word("elseif"@)) by {
        reveal_strlit("elseif");
    }
    assert(lower_word("while"@)) by {
        reveal_strlit("while");
    }
    assert(lower_word("project"@)) by {
        reveal_strlit("project");
    }
    assert(lower_word("cmake_minimum_required"@)) by {
        reveal_strlit("cmake_minimum_required");
    }
    assert(lower_word("fetchcontent_declare"@)) by {
        reveal_strlit("fetchcontent_declare");
    }
    assert(lower_word("externalproject_add"@)) by {
        reveal_strlit("externalproject_add");
    }
    assert(lower_word("define_property"@)) by {
        reveal_strlit("define_property");
    }
    assert(lower_word("add_custom_target"@)) by {
        reveal_strlit("add_custom_target");
    }
    assert(lower_word("add_custom_command"@)) by {
        reveal_strlit("add_custom_command");
    }
    assert(lower_word("foreach"@)) by {
        reveal_strlit("foreach");
    }
    assert(lower_word("set_property"@)) by {
        reveal_strlit("set_property");
    }
    assert(lower_word("get_property"@)) by {
        reveal_strlit("get_property");
    }
    assert(lower_word("target_include_directories"@)) by {
        reveal_strlit("target_include_directories");
    }
    assert(lower_word("target_compile_options"@)) by {
        reveal_strlit("target_compile_options");
    }
    assert(lower_word("target_compile_definitions"@)) by {
        reveal_strlit("target_compile_definitions");
    }
    assert(lower_word("target_compile_features"@)) by {
        reveal_strlit("target_compile_features");
    }
    assert(lower_word("target_link_options"@)) by {
        reveal_strlit("target_link_options");
    }
    assert(lower_word("target_link_directories"@)) by {
        reveal_strlit("target_link_directories");
    }
    assert(lower_word("target_precompile_headers"@)) by {
        reveal_strlit("target_precompile_headers");
    }
    assert(lower_word("target_sources"@)) by {
        reveal_strlit("target_sources");
    }
    assert(lower_word("add_library"@)) by {
        reveal_strlit("add_library");
    }
    assert(lower_word("add_executable"@)) by {
        reveal_strlit("add_executable");
    }
    assert(lower_word("install"@)) by {
        reveal_strlit("install");
    }
    assert(lower_word("set_target_properties"@)) by {
        reveal_strlit("set_target_properties");
    }
    assert(lower_word("set_source_files_properties"@)) by {
        reveal_strlit("set_source_files_properties");
    }
    assert(lower_word("set_directory_properties"@)) by {
        reveal_strlit("set_directory_properties");
    }
    assert(lower_word("set_tests_properties"@)) by {
        reveal_strlit("set_tests_properties");
    }
    assert(lower_word("add_test"@)) by {
        reveal_strlit("add_test");
    }
    assert(lower_word("execute_process"@)) by {
        reveal_strlit("execute_process");
    }
    assert(lower_word("find_package"@)) by {
        reveal_strlit("find_package");
    }
    assert(lower_word("target_link_libraries"@)) by {
        reveal_strlit("target_link_libraries");
    }
    assert(lower_word("find_package_handle_standard_args"@)) by {
        reveal_strlit("find_package_handle_standard_args");
    }
    assert(lower_word("option"@)) by {
        reveal_strlit("option");
    }
    assert(lower_word("cmake_dependent_option"@)) by {
        reveal_strlit("cmake_dependent_option");
    }
    assert(lower_word("set"@)) by {
        reveal_strlit("set");
    }
    assert(lower_word("file"@)) by {
        reveal_strlit("file");
    }
    assert(lower_word("export"@)) by {
        reveal_strlit("export");
    }
    assert(lower_word("cmake_path"@)) by {
        reveal_strlit("cmake_path");
    }
    assert(lower_word("cmake_language"@)) by {
        reveal_strlit("cmake_language");
    }
    assert(lower_word("list"@)) by {
        reveal_strlit("list");
    }
    assert(lower_word("string"@)) by {
        reveal_strlit("string");
    }
    assert(lower_word("message"@)) by {
        reveal_strlit("message");
    }
    assert(lower_word("cmake_parse_arguments"@)) by {
        reveal_strlit("cmake_parse_arguments");
    }
    assert(lower_word("vcpkg_check_linkage"@)) by {
        reveal_strlit("vcpkg_check_linkage");
    }
    assert(lower_word("vcpkg_cmake_config_fixup"@)) by {
        reveal_strlit("vcpkg_cmake_config_fixup");
    }
    assert(lower_word("vcpkg_cmake_configure"@)) by {
        reveal_strlit("vcpkg_cmake_configure");
    }
    assert(lower_word("vcpkg_cmake_install"@)) by {
        reveal_strlit("vcpkg_cmake_install");
    }
    assert(lower_word("vcpkg_from_github"@)) by {
        reveal_strlit("vcpkg_from_github");
    }
    assert(lower_word("vcpkg_install_copyright"@)) by {
        reveal_strlit("vcpkg_install_copyright");
    }
    assert(lower_word("cmake_instrumentation"@)) by {
        reveal_strlit("cmake_instrumentation");
    }
    assert(lower_word("find_file"@)) by {
        reveal_strlit("find_file");
    }
    assert(lower_word("find_library"@)) by {
        reveal_strlit("find_library");
    }
    assert(lower_word("find_path"@)) by {
        reveal_strlit("find_path");
    }
    assert(lower_word("find_program"@)) by {
        reveal_strlit("find_program");
    }
    assert forall|i: int| 0 <= i < builtin_names().len() implies lower_word(#[trigger] builtin_names()[i])
        && crate::text::all_ascii(builtin_names()[i]) && crate::text::ascii_lower(builtin_names()[i])
        == builtin_names()[i] by {
        lemma_lower_word(builtin_names()[i]);
    }
}

/// The built-in schemas, by lowercase command name.
pub fn builtin_schemas() -> (r: SchemaRegistry)
    ensures
        is_builtin_table(r.functions@),
        r.functions@.map_values(|p: (String, FunctionSchema)| p.0@) == builtin_names(),
{
    let mut functions: Vec<(String, FunctionSchema)> = Vec::new();
    add_builtins_0(&mut functions);
    add_builtins_1(&mut functions);
    add_builtins_2(&mut functions);
    add_builtins_3(&mut functions);
    add_builtins_4(&mut functions);
    add_builtins_5(&mut functions);
    add_builtins_6(&mut functions);
    add_builtins_7(&mut functions);
    add_builtins_8(&mut functions);
    add_builtins_9(&mut functions);
    add_builtins_10(&mut functions);
    assert(functions@.map_values(|p: (String, FunctionSchema)| p.0@) =~= builtin_names());
    SchemaRegistry { functions }
}

} // verus!
