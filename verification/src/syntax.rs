//! Kinds of tokens and nodes in the syntax tree.
use vstd::prelude::*;

verus! {

/// The kind of a token (whitespace, comment, argument, parenthesis, error)
/// or of a node (the root of a file, one command invocation).
#[allow(non_camel_case_types)]
#[derive(Debug, Clone, Copy, PartialEq, Eq, Structural, PartialOrd, Ord, Hash)]
pub enum SyntaxKind {
    WHITESPACE,
    COMMENT,
    BRACKET_ARGUMENT,
    L_PAREN,
    R_PAREN,
    QUOTED_ARGUMENT,
    UNQUOTED_ARGUMENT,
    ERROR,
    ROOT,
    COMMAND,
}

/// Whitespace and comments: the tokens that separate arguments.
pub open spec fn is_trivia(k: SyntaxKind) -> bool {
    k == SyntaxKind::WHITESPACE || k == SyntaxKind::COMMENT
}

/// The language of the syntax tree: its kinds are numbered in declaration
/// order, from 0 for `WHITESPACE` to 9 for `COMMAND`.
#[derive(Debug, Clone, Copy, PartialEq, Eq, PartialOrd, Ord, Hash)]
pub struct CmakeLanguage;

/// The number of a kind.
pub open spec fn kind_raw(k: SyntaxKind) -> u16 {
    match k {
        SyntaxKind::WHITESPACE => 0,
        SyntaxKind::COMMENT => 1,
        SyntaxKind::BRACKET_ARGUMENT => 2,
        SyntaxKind::L_PAREN => 3,
        SyntaxKind::R_PAREN => 4,
        SyntaxKind::QUOTED_ARGUMENT => 5,
        SyntaxKind::UNQUOTED_ARGUMENT => 6,
        SyntaxKind::ERROR => 7,
        SyntaxKind::ROOT => 8,
        SyntaxKind::COMMAND => 9,
    }
}

/// The kind numbered `raw` (for `raw <= 9`).
pub open spec fn kind_of_raw(raw: u16) -> SyntaxKind {
    if raw == 0 {
        SyntaxKind::WHITESPACE
    } else if raw == 1 {
        SyntaxKind::COMMENT
    } else if raw == 2 {
        SyntaxKind::BRACKET_ARGUMENT
    } else if raw == 3 {
        SyntaxKind::L_PAREN
    } else if raw == 4 {
        SyntaxKind::R_PAREN
    } else if raw == 5 {
        SyntaxKind::QUOTED_ARGUMENT
    } else if raw == 6 {
        SyntaxKind::UNQUOTED_ARGUMENT
    } else if raw == 7 {
        SyntaxKind::ERROR
    } else if raw == 8 {
        SyntaxKind::ROOT
    } else {
        SyntaxKind::COMMAND
    }
}

impl CmakeLanguage {
    /// The kind numbered `raw`; only the numbers of kinds are accepted.
    pub fn kind_from_raw(raw: u16) -> (k: SyntaxKind)
        requires
            raw <= 9,
        ensures
            k == kind_of_raw(raw),
    {
        if raw == 0 {
            SyntaxKind::WHITESPACE
        } else if raw == 1 {
            SyntaxKind::COMMENT
        } else if raw == 2 {
            SyntaxKind::BRACKET_ARGUMENT
        } else if raw == 3 {
            SyntaxKind::L_PAREN
        } else if raw == 4 {
            SyntaxKind::R_PAREN
        } else if raw == 5 {
            SyntaxKind::QUOTED_ARGUMENT
        } else if raw == 6 {
            SyntaxKind::UNQUOTED_ARGUMENT
        } else if raw == 7 {
            SyntaxKind::ERROR
        } else if raw == 8 {
            SyntaxKind::ROOT
        } else {
            SyntaxKind::COMMAND
        }
    }

    /// The number of `kind`.
    pub fn kind_to_raw(kind: SyntaxKind) -> (r: u16)
        ensures
            r == kind_raw(kind),
    {
        match kind {
            SyntaxKind::WHITESPACE => 0,
            SyntaxKind::COMMENT => 1,
            SyntaxKind::BRACKET_ARGUMENT => 2,
            SyntaxKind::L_PAREN => 3,
            SyntaxKind::R_PAREN => 4,
            SyntaxKind::QUOTED_ARGUMENT => 5,
            SyntaxKind::UNQUOTED_ARGUMENT => 6,
            SyntaxKind::ERROR => 7,
            SyntaxKind::ROOT => 8,
            SyntaxKind::COMMAND => 9,
        }
    }
}

/// Every kind has a number that `kind_from_raw` accepts, and that number
/// gives the kind back.
pub proof fn lemma_kind_raw_roundtrip(k: SyntaxKind)
    ensures
        kind_raw(k) <= 9,
        kind_of_raw(kind_raw(k)) == k,
{
}

/// Every accepted number is the number of the kind it gives.
pub proof fn lemma_raw_kind_roundtrip(raw: u16)
    requires
        raw <= 9,
    ensures
        kind_raw(kind_of_raw(raw)) == raw,
{
}

} // verus!
