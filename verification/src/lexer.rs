//! The lexical grammar of CMake source: splits text into whitespace,
//! comments, bracket/quoted/unquoted arguments, parentheses and error tokens.
use crate::syntax::SyntaxKind;
use crate::text::{chars_of, is_whitespace, is_ws_char, string_of_range};
use vstd::prelude::*;

verus! {

// ---------------------------------------------------------------------------
// The grammar, as spec functions over the characters of the source
// ---------------------------------------------------------------------------
/// Characters of a `WHITESPACE` token.
pub open spec fn is_plain_ws(c: char) -> bool {
    c == ' ' || c == '\t' || c == '\r' || c == '\n'
}

/// Characters that may stand unescaped in an unquoted argument.
pub open spec fn is_unquoted_char(c: char) -> bool {
    !is_ws_char(c) && c != '(' && c != ')' && c != '#' && c != '"' && c != '\\' && c != '['
        && c != ']'
}

/// End of the run of whitespace characters that starts at `i`.
pub open spec fn ws_run_end(s: Seq<char>, i: int) -> int
    decreases s.len() - i,
{
    if 0 <= i < s.len() && is_plain_ws(s[i]) {
        ws_run_end(s, i + 1)
    } else {
        i
    }
}

/// End of the run of `=` that starts at `i`.
pub open spec fn eq_run_end(s: Seq<char>, i: int) -> int
    decreases s.len() - i,
{
    if 0 <= i < s.len() && s[i] == '=' {
        eq_run_end(s, i + 1)
    } else {
        i
    }
}

/// End of the unquoted argument that starts at `i`: unquoted characters and
/// backslash escapes of any character.
pub open spec fn unquoted_end(s: Seq<char>, i: int) -> int
    decreases s.len() - i,
{
    if 0 <= i < s.len() && is_unquoted_char(s[i]) {
        unquoted_end(s, i + 1)
    } else if 0 <= i && i + 1 < s.len() && s[i] == '\\' {
        unquoted_end(s, i + 2)
    } else {
        i
    }
}

/// Scanning a quoted argument from `i` (just after the opening quote): the
/// end just after the closing quote, or `None` when the source ends first.
pub open spec fn quoted_end(s: Seq<char>, i: int) -> Option<int>
    decreases s.len() - i,
{
    if i < 0 || i >= s.len() {
        None
    } else if s[i] == '"' {
        Some(i + 1)
    } else if s[i] == '\\' {
        if i + 1 < s.len() {
            quoted_end(s, i + 2)
        } else {
            None
        }
    } else {
        quoted_end(s, i + 1)
    }
}

/// `]`, `eq` times `=`, `]` stands at `k`.
pub open spec fn is_close_at(s: Seq<char>, k: int, eq: int) -> bool {
    &&& 0 <= k
    &&& k + eq + 2 <= s.len()
    &&& s[k] == ']'
    &&& s[k + eq + 1] == ']'
    &&& forall|t: int| k + 1 <= t <= k + eq ==> s[t] == '='
}

/// First position at or after `k` where the closing bracket of level `eq` stands.
pub open spec fn find_close(s: Seq<char>, k: int, eq: int) -> Option<int>
    decreases s.len() - k,
{
    if k < 0 || eq < 0 || k + eq + 2 > s.len() {
        None
    } else if is_close_at(s, k, eq) {
        Some(k)
    } else {
        find_close(s, k + 1, eq)
    }
}

/// End of a bracket text whose closing bracket of level `eq` is searched from `k`.
pub open spec fn bracket_close_end(s: Seq<char>, k: int, eq: int) -> int {
    match find_close(s, k, eq) {
        Some(p) => p + eq + 2,
        None => s.len() as int,
    }
}

/// First position at or after `k` of a newline, or the end of the source.
pub open spec fn line_end(s: Seq<char>, k: int) -> int
    decreases s.len() - k,
{
    if k < 0 || k >= s.len() {
        s.len() as int
    } else if s[k] == '\n' {
        k
    } else {
        line_end(s, k + 1)
    }
}

/// End of the comment whose `#` stands at `pos`: a bracket comment `#[==[...]==]`
/// runs to its closing bracket (or the end of the source), any other comment
/// to the end of its line (the newline is not part of it).
pub open spec fn comment_end(s: Seq<char>, pos: int) -> int {
    let i = pos + 1;
    if i < s.len() && s[i] == '[' {
        let j = eq_run_end(s, i + 1);
        if j < s.len() && s[j] == '[' {
            bracket_close_end(s, i, j - (i + 1))
        } else {
            line_end(s, i)
        }
    } else {
        line_end(s, i)
    }
}

/// The kind and end of the token that starts at `pos`.
pub open spec fn token_at(s: Seq<char>, pos: int) -> (SyntaxKind, int) {
    let c = s[pos];
    if is_plain_ws(c) {
        (SyntaxKind::WHITESPACE, ws_run_end(s, pos))
    } else if c == '#' {
        (SyntaxKind::COMMENT, comment_end(s, pos))
    } else if c == '[' {
        let j = eq_run_end(s, pos + 1);
        if j < s.len() && s[j] == '[' {
            (SyntaxKind::BRACKET_ARGUMENT, bracket_close_end(s, j + 1, j - (pos + 1)))
        } else {
            (SyntaxKind::ERROR, j)
        }
    } else if c == '(' {
        (SyntaxKind::L_PAREN, pos + 1)
    } else if c == ')' {
        (SyntaxKind::R_PAREN, pos + 1)
    } else if c == '"' {
        match quoted_end(s, pos + 1) {
            Some(e) => (SyntaxKind::QUOTED_ARGUMENT, e),
            None => (SyntaxKind::ERROR, s.len() as int),
        }
    } else {
        let e = unquoted_end(s, pos);
        if e > pos {
            (SyntaxKind::UNQUOTED_ARGUMENT, e)
        } else {
            (SyntaxKind::ERROR, pos + 1)
        }
    }
}

// ---------------------------------------------------------------------------
// Bounds of the grammar's scans
// ---------------------------------------------------------------------------
proof fn lemma_ws_run_end(s: Seq<char>, i: int)
    requires
        0 <= i <= s.len(),
    ensures
        i <= ws_run_end(s, i) <= s.len(),
    decreases s.len() - i,
{
    if i < s.len() && is_plain_ws(s[i]) {
        lemma_ws_run_end(s, i + 1);
    }
}

proof fn lemma_eq_run_end(s: Seq<char>, i: int)
    requires
        0 <= i <= s.len(),
    ensures
        i <= eq_run_end(s, i) <= s.len(),
        forall|j: int| i <= j < eq_run_end(s, i) ==> s[j] == '=',
    decreases s.len() - i,
{
    if i < s.len() && s[i] == '=' {
        lemma_eq_run_end(s, i + 1);
    }
}

proof fn lemma_unquoted_end(s: Seq<char>, i: int)
    requires
        0 <= i <= s.len(),
    ensures
        i <= unquoted_end(s, i) <= s.len(),
    decreases s.len() - i,
{
    if i < s.len() && is_unquoted_char(s[i]) {
        lemma_unquoted_end(s, i + 1);
    } else if i + 1 < s.len() && s[i] == '\\' {
        lemma_unquoted_end(s, i + 2);
    }
}

proof fn lemma_quoted_end(s: Seq<char>, i: int)
    requires
        0 <= i,
    ensures
        quoted_end(s, i) matches Some(e) ==> i < e <= s.len(),
    decreases s.len() - i,
{
    if 0 <= i < s.len() && s[i] != '"' {
        if s[i] == '\\' {
            if i + 1 < s.len() {
                lemma_quoted_end(s, i + 2);
            }
        } else {
            lemma_quoted_end(s, i + 1);
        }
    }
}

proof fn lemma_find_close(s: Seq<char>, k: int, eq: int)
    requires
        0 <= k,
        0 <= eq,
    ensures
        find_close(s, k, eq) matches Some(p) ==> k <= p && p + eq + 2 <= s.len(),
    decreases s.len() - k,
{
    if !(k + eq + 2 > s.len()) && !is_close_at(s, k, eq) {
        lemma_find_close(s, k + 1, eq);
    }
}

proof fn lemma_line_end(s: Seq<char>, k: int)
    requires
        0 <= k <= s.len(),
    ensures
        k <= line_end(s, k) <= s.len(),
    decreases s.len() - k,
{
    if k < s.len() && s[k] != '\n' {
        lemma_line_end(s, k + 1);
    }
}

/// Every token is non-empty and ends within the source.
pub proof fn lemma_token_at(s: Seq<char>, pos: int)
    requires
        0 <= pos < s.len(),
    ensures
        pos < token_at(s, pos).1 <= s.len(),
{
    let c = s[pos];
    if is_plain_ws(c) {
        lemma_ws_run_end(s, pos + 1);
    } else if c == '#' {
        let i = pos + 1;
        lemma_line_end(s, i);
        if i < s.len() && s[i] == '[' {
            lemma_eq_run_end(s, i + 1);
            let j = eq_run_end(s, i + 1);
            if j < s.len() && s[j] == '[' {
                lemma_find_close(s, i, j - (i + 1));
            }
        }
    } else if c == '[' {
        lemma_eq_run_end(s, pos + 1);
        let j = eq_run_end(s, pos + 1);
        if j < s.len() && s[j] == '[' {
            lemma_find_close(s, j + 1, j - (pos + 1));
        }
    } else if c == '"' {
        lemma_quoted_end(s, pos + 1);
    } else if c != '(' && c != ')' {
        lemma_unquoted_end(s, pos);
    }
}

/// A character that continues an unquoted argument at `i`: an unquoted
/// character, or a backslash that has a character after it to escape.
pub open spec fn continues_unquoted(s: Seq<char>, i: int) -> bool {
    0 <= i < s.len() && (is_unquoted_char(s[i]) || (s[i] == '\\' && i + 1 < s.len()))
}

proof fn lemma_unquoted_end_stops(s: Seq<char>, i: int)
    requires
        0 <= i <= s.len(),
    ensures
        !continues_unquoted(s, unquoted_end(s, i)),
        continues_unquoted(s, i) ==> unquoted_end(s, i) >= i + 1,
        (0 <= i && i + 1 < s.len() && s[i] == '\\') ==> unquoted_end(s, i) >= i + 2,
    decreases s.len() - i,
{
    if i < s.len() && is_unquoted_char(s[i]) {
        lemma_unquoted_end_stops(s, i + 1);
        lemma_unquoted_end(s, i + 1);
    } else if i + 1 < s.len() && s[i] == '\\' {
        lemma_unquoted_end_stops(s, i + 2);
        lemma_unquoted_end(s, i + 2);
    }
}

/// Unquoted arguments: a token that starts with an unquoted character, or
/// with a backslash that has a character after it, is one unquoted argument
/// (never an error); a leading backslash takes the character after it,
/// whatever it is; and the argument does not stop where an unquoted
/// character or such an escape follows.
pub proof fn law_unquoted_argument(s: Seq<char>, pos: int)
    requires
        continues_unquoted(s, pos),
    ensures
        token_at(s, pos).0 == SyntaxKind::UNQUOTED_ARGUMENT,
        pos < token_at(s, pos).1 <= s.len(),
        !continues_unquoted(s, token_at(s, pos).1),
        s[pos] == '\\' ==> token_at(s, pos).1 >= pos + 2,
{
    lemma_unquoted_end_stops(s, pos);
    lemma_unquoted_end(s, pos);
}

// ---------------------------------------------------------------------------
// The whole token stream
// ---------------------------------------------------------------------------
/// The tokens of `s[pos..]`, each as (kind, start, end).
pub open spec fn lex_from(s: Seq<char>, pos: int) -> Seq<(SyntaxKind, int, int)>
    decreases s.len() - pos,
{
    if pos < 0 || pos >= s.len() {
        Seq::empty()
    } else {
        let (k, e) = token_at(s, pos);
        if e <= pos || e > s.len() {
            Seq::empty()
        } else {
            seq![(k, pos, e)] + lex_from(s, e)
        }
    }
}

/// The tokens of `s` as (kind, text).
pub open spec fn lex(s: Seq<char>) -> Seq<(SyntaxKind, Seq<char>)> {
    lex_from(s, 0).map_values(|t: (SyntaxKind, int, int)| (t.0, s.subrange(t.1, t.2)))
}

/// Concatenation of token texts.
pub open spec fn concat_texts(ts: Seq<(SyntaxKind, Seq<char>)>) -> Seq<char>
    decreases ts.len(),
{
    if ts.len() == 0 {
        Seq::empty()
    } else {
        ts[0].1 + concat_texts(ts.drop_first())
    }
}

pub proof fn lemma_concat_texts_append(a: Seq<(SyntaxKind, Seq<char>)>, b: Seq<(SyntaxKind, Seq<char>)>)
    ensures
        concat_texts(a + b) == concat_texts(a) + concat_texts(b),
    decreases a.len(),
{
    if a.len() == 0 {
        assert(a + b =~= b);
        assert(concat_texts(a) + concat_texts(b) =~= concat_texts(b));
    } else {
        assert((a + b).drop_first() =~= a.drop_first() + b);
        lemma_concat_texts_append(a.drop_first(), b);
        assert(concat_texts(a + b) =~= concat_texts(a) + concat_texts(b));
    }
}

pub proof fn lemma_concat_texts_push(a: Seq<(SyntaxKind, Seq<char>)>, x: (SyntaxKind, Seq<char>))
    ensures
        concat_texts(a.push(x)) == concat_texts(a) + x.1,
{
    lemma_concat_texts_append(a, seq![x]);
    assert(a.push(x) =~= a + seq![x]);
    assert(seq![x].drop_first() =~= Seq::<(SyntaxKind, Seq<char>)>::empty());
    assert(concat_texts(seq![x]) =~= x.1 + concat_texts(Seq::<(SyntaxKind, Seq<char>)>::empty()));
    assert(concat_texts(seq![x]) =~= x.1);
}

proof fn lemma_lex_from_covers(s: Seq<char>, pos: int)
    requires
        0 <= pos <= s.len(),
    ensures
        concat_texts(
            lex_from(s, pos).map_values(|t: (SyntaxKind, int, int)| (t.0, s.subrange(t.1, t.2))),
        ) == s.subrange(pos, s.len() as int),
    decreases s.len() - pos,
{
    let f = |t: (SyntaxKind, int, int)| (t.0, s.subrange(t.1, t.2));
    if pos == s.len() {
        assert(lex_from(s, pos).map_values(f) =~= Seq::<(SyntaxKind, Seq<char>)>::empty());
        assert(s.subrange(pos, s.len() as int) =~= Seq::<char>::empty());
    } else {
        lemma_token_at(s, pos);
        let (k, e) = token_at(s, pos);
        lemma_lex_from_covers(s, e);
        let m = lex_from(s, pos).map_values(f);
        assert(m =~= seq![(k, s.subrange(pos, e))] + lex_from(s, e).map_values(f));
        assert(m.drop_first() =~= lex_from(s, e).map_values(f));
        assert(s.subrange(pos, s.len() as int) =~= s.subrange(pos, e) + s.subrange(
            e,
            s.len() as int,
        ));
    }
}

/// Lossless lexing: the texts of the tokens, in order, make up the source.
pub proof fn lemma_lex_lossless(s: Seq<char>)
    ensures
        concat_texts(lex(s)) == s,
{
    lemma_lex_from_covers(s, 0);
    assert(s.subrange(0, s.len() as int) =~= s);
}

proof fn lemma_ws_run_all(s: Seq<char>, i: int)
    requires
        0 <= i <= s.len(),
    ensures
        forall|j: int| i <= j < ws_run_end(s, i) ==> is_plain_ws(s[j]),
    decreases s.len() - i,
{
    if i < s.len() && is_plain_ws(s[i]) {
        lemma_ws_run_all(s, i + 1);
    }
}

proof fn lemma_lex_from_ws(s: Seq<char>, pos: int)
    requires
        0 <= pos <= s.len(),
    ensures
        forall|k: int|
            0 <= k < lex_from(s, pos).len() && (#[trigger] lex_from(s, pos)[k]).0 == SyntaxKind::WHITESPACE
                ==> pos <= lex_from(s, pos)[k].1 <= lex_from(s, pos)[k].2 <= s.len() && forall|j: int|
                lex_from(s, pos)[k].1 <= j < lex_from(s, pos)[k].2 ==> is_plain_ws(s[j]),
    decreases s.len() - pos,
{
    if pos < s.len() {
        lemma_token_at(s, pos);
        let (k, e) = token_at(s, pos);
        lemma_lex_from_ws(s, e);
        let rest = lex_from(s, e);
        assert(lex_from(s, pos) =~= seq![(k, pos, e)] + rest);
        if is_plain_ws(s[pos]) {
            lemma_ws_run_all(s, pos);
        }
        assert forall|m: int|
            0 <= m < lex_from(s, pos).len() && (#[trigger] lex_from(s, pos)[m]).0 == SyntaxKind::WHITESPACE
                implies pos <= lex_from(s, pos)[m].1 <= lex_from(s, pos)[m].2 <= s.len() && forall|j: int|
                lex_from(s, pos)[m].1 <= j < lex_from(s, pos)[m].2 ==> is_plain_ws(s[j]) by {
            if m > 0 {
                assert(lex_from(s, pos)[m] == rest[m - 1]);
            }
        }
    }
}

/// Every whitespace token of `ts` holds spaces, tabs and line breaks only.
pub open spec fn whitespace_plain(ts: Seq<(SyntaxKind, Seq<char>)>) -> bool {
    forall|k: int|
        0 <= k < ts.len() && (#[trigger] ts[k]).0 == SyntaxKind::WHITESPACE ==> forall|j: int|
            0 <= j < ts[k].1.len() ==> is_plain_ws(#[trigger] ts[k].1[j])
}

/// Whitespace tokens hold spaces, tabs and line breaks only.
pub proof fn lemma_lex_whitespace(s: Seq<char>)
    ensures
        whitespace_plain(lex(s)),
{
    lemma_lex_from_ws(s, 0);
    assert forall|k: int|
        0 <= k < lex(s).len() && (#[trigger] lex(s)[k]).0 == SyntaxKind::WHITESPACE implies forall|j: int|
            0 <= j < lex(s)[k].1.len() ==> is_plain_ws(#[trigger] lex(s)[k].1[j]) by {
        let t = lex_from(s, 0)[k];
        assert(lex(s)[k] == (t.0, s.subrange(t.1, t.2)));
        assert forall|j: int| 0 <= j < lex(s)[k].1.len() implies is_plain_ws(#[trigger] lex(s)[k].1[j]) by {
            assert(lex(s)[k].1[j] == s[t.1 + j]);
        }
    }
}

proof fn lemma_lex_from_comments(s: Seq<char>, pos: int)
    requires
        0 <= pos <= s.len(),
    ensures
        forall|k: int|
            0 <= k < lex_from(s, pos).len() && (#[trigger] lex_from(s, pos)[k]).0 == SyntaxKind::COMMENT
                ==> pos <= lex_from(s, pos)[k].1 < lex_from(s, pos)[k].2 <= s.len() && s[lex_from(
                s,
                pos,
            )[k].1] == '#',
    decreases s.len() - pos,
{
    if pos < s.len() {
        lemma_token_at(s, pos);
        let (k, e) = token_at(s, pos);
        lemma_lex_from_comments(s, e);
        let rest = lex_from(s, e);
        assert(lex_from(s, pos) =~= seq![(k, pos, e)] + rest);
        assert forall|m: int|
            0 <= m < lex_from(s, pos).len() && (#[trigger] lex_from(s, pos)[m]).0 == SyntaxKind::COMMENT
                implies pos <= lex_from(s, pos)[m].1 < lex_from(s, pos)[m].2 <= s.len() && s[lex_from(
                s,
                pos,
            )[m].1] == '#' by {
            if m > 0 {
                assert(lex_from(s, pos)[m] == rest[m - 1]);
            }
        }
    }
}

/// Every comment token of `ts` starts with `#`.
pub open spec fn comments_marked(ts: Seq<(SyntaxKind, Seq<char>)>) -> bool {
    forall|k: int|
        0 <= k < ts.len() && (#[trigger] ts[k]).0 == SyntaxKind::COMMENT ==> ts[k].1.len() > 0
            && ts[k].1[0] == '#'
}

/// Comment tokens start with `#`.
pub proof fn lemma_lex_comments(s: Seq<char>)
    ensures
        comments_marked(lex(s)),
{
    lemma_lex_from_comments(s, 0);
    assert forall|k: int| 0 <= k < lex(s).len() && (#[trigger] lex(s)[k]).0 == SyntaxKind::COMMENT implies lex(s)[k].1.len() > 0
        && lex(s)[k].1[0] == '#' by {
        let t = lex_from(s, 0)[k];
        assert(lex(s)[k] == (t.0, s.subrange(t.1, t.2)));
    }
}

// ---------------------------------------------------------------------------
// The executable lexer
// ---------------------------------------------------------------------------
/// A lexer over one source text; `next` yields its tokens in order.
pub struct Lexer {
    chars: Vec<char>,
    pos: usize,
}

fn scan_ws(v: &Vec<char>, i: usize) -> (e: usize)
    requires
        i <= v.len(),
    ensures
        e == ws_run_end(v@, i as int),
{
    let mut j = i;
    while j < v.len() && (v[j] == ' ' || v[j] == '\t' || v[j] == '\r' || v[j] == '\n')
        invariant
            i <= j <= v.len(),
            ws_run_end(v@, j as int) == ws_run_end(v@, i as int),
        decreases v.len() - j,
    {
        j += 1;
    }
    j
}

fn scan_eq(v: &Vec<char>, i: usize) -> (e: usize)
    requires
        i <= v.len(),
    ensures
        e == eq_run_end(v@, i as int),
{
    let mut j = i;
    while j < v.len() && v[j] == '='
        invariant
            i <= j <= v.len(),
            eq_run_end(v@, j as int) == eq_run_end(v@, i as int),
        decreases v.len() - j,
    {
        j += 1;
    }
    j
}

fn unquoted_char(c: char) -> (r: bool)
    ensures
        r == is_unquoted_char(c),
{
    !is_whitespace(c) && c != '(' && c != ')' && c != '#' && c != '"' && c != '\\' && c != '['
        && c != ']'
}

fn scan_unquoted(v: &Vec<char>, i: usize) -> (e: usize)
    requires
        i <= v.len(),
    ensures
        e == unquoted_end(v@, i as int),
{
    let mut j = i;
    loop
        invariant
            i <= j <= v.len(),
            unquoted_end(v@, j as int) == unquoted_end(v@, i as int),
        decreases v.len() - j,
    {
        if j < v.len() && unquoted_char(v[j]) {
            j += 1;
        } else if v.len() - j > 1 && v[j] == '\\' {
            j += 2;
        } else {
            return j;
        }
    }
}

fn scan_quoted(v: &Vec<char>, i: usize) -> (e: Option<usize>)
    requires
        i <= v.len(),
    ensures
        e matches Some(x) ==> quoted_end(v@, i as int) == Some(x as int),
        e is None ==> quoted_end(v@, i as int) is None,
{
    let mut j = i;
    loop
        invariant
            i <= j <= v.len(),
            quoted_end(v@, j as int) == quoted_end(v@, i as int),
        decreases v.len() - j,
    {
        if j >= v.len() {
            return None;
        } else if v[j] == '"' {
            return Some(j + 1);
        } else if v[j] == '\\' {
            if j + 1 < v.len() {
                j += 2;
            } else {
                return None;
            }
        } else {
            j += 1;
        }
    }
}

fn close_at(v: &Vec<char>, k: usize, eq: usize) -> (r: bool)
    requires
        k + eq + 2 <= v.len(),
    ensures
        r == is_close_at(v@, k as int, eq as int),
{
    if v[k] != ']' || v[k + eq + 1] != ']' {
        return false;
    }
    let mut j: usize = 1;
    while j <= eq
        invariant
            1 <= j <= eq + 1,
            k + eq + 2 <= v.len(),
            forall|t: int| k + 1 <= t < k + j ==> v@[t] == '=',
        decreases eq + 1 - j,
    {
        if v[k + j] != '=' {
            return false;
        }
        j += 1;
    }
    true
}

fn scan_close(v: &Vec<char>, k: usize, eq: usize) -> (e: usize)
    requires
        k <= v.len(),
        eq <= v.len(),
    ensures
        e == bracket_close_end(v@, k as int, eq as int),
{
    let mut p = k;
    loop
        invariant
            k <= p,
            eq <= v.len(),
            find_close(v@, p as int, eq as int) == find_close(v@, k as int, eq as int),
        decreases v.len() + 1 - p,
    {
        if p > v.len() || v.len() - p < eq || v.len() - p - eq < 2 {
            return v.len();
        }
        if close_at(v, p, eq) {
            return p + eq + 2;
        }
        p += 1;
    }
}

fn scan_line(v: &Vec<char>, k: usize) -> (e: usize)
    requires
        k <= v.len(),
    ensures
        e == line_end(v@, k as int),
{
    let mut p = k;
    while p < v.len() && v[p] != '\n'
        invariant
            k <= p <= v.len(),
            line_end(v@, p as int) == line_end(v@, k as int),
        decreases v.len() - p,
    {
        p += 1;
    }
    p
}

/// The kind and end of the token of `v` that starts at `pos`.
fn next_token(v: &Vec<char>, pos: usize) -> (r: (SyntaxKind, usize))
    requires
        pos < v.len(),
    ensures
        r.0 == token_at(v@, pos as int).0,
        r.1 == token_at(v@, pos as int).1,
{
    proof {
        lemma_token_at(v@, pos as int);
    }
    let c = v[pos];
    if c == ' ' || c == '\t' || c == '\r' || c == '\n' {
        (SyntaxKind::WHITESPACE, scan_ws(v, pos))
    } else if c == '#' {
        let i = pos + 1;
        if i < v.len() && v[i] == '[' {
            let j = scan_eq(v, i + 1);
            proof {
                lemma_eq_run_end(v@, i + 1);
            }
            if j < v.len() && v[j] == '[' {
                (SyntaxKind::COMMENT, scan_close(v, i, j - (i + 1)))
            } else {
                (SyntaxKind::COMMENT, scan_line(v, i))
            }
        } else {
            (SyntaxKind::COMMENT, scan_line(v, i))
        }
    } else if c == '[' {
        let j = scan_eq(v, pos + 1);
        proof {
            lemma_eq_run_end(v@, pos + 1);
        }
        if j < v.len() && v[j] == '[' {
            (SyntaxKind::BRACKET_ARGUMENT, scan_close(v, j + 1, j - (pos + 1)))
        } else {
            (SyntaxKind::ERROR, j)
        }
    } else if c == '(' {
        (SyntaxKind::L_PAREN, pos + 1)
    } else if c == ')' {
        (SyntaxKind::R_PAREN, pos + 1)
    } else if c == '"' {
        match scan_quoted(v, pos + 1) {
            Some(e) => (SyntaxKind::QUOTED_ARGUMENT, e),
            None => (SyntaxKind::ERROR, v.len()),
        }
    } else {
        let e = scan_unquoted(v, pos);
        if e > pos {
            (SyntaxKind::UNQUOTED_ARGUMENT, e)
        } else {
            (SyntaxKind::ERROR, pos + 1)
        }
    }
}

impl Lexer {
    /// The characters being lexed.
    pub closed spec fn source(&self) -> Seq<char> {
        self.chars@
    }

    /// Where the next token starts.
    pub closed spec fn position(&self) -> int {
        self.pos as int
    }

    pub fn new(input: &str) -> (l: Lexer)
        ensures
            l.source() == input@,
            l.position() == 0,
    {
        Lexer { chars: chars_of(input), pos: 0 }
    }

    /// The next token: its kind and its text; `None` at the end of the source.
    /// Text that no token of the grammar matches comes out as an `ERROR` token.
    pub fn next(&mut self) -> (r: Option<(SyntaxKind, String)>)
        ensures
            final(self).source() == old(self).source(),
            old(self).position() >= old(self).source().len() ==> r is None
                && final(self).position() == old(self).position(),
            0 <= old(self).position() < old(self).source().len() ==> {
                let (k, e) = token_at(old(self).source(), old(self).position());
                &&& r matches Some(t) && t.0 == k
                    && t.1@ == old(self).source().subrange(old(self).position(), e)
                &&& final(self).position() == e
            },
    {
        if self.pos >= self.chars.len() {
            return None;
        }
        let (k, e) = next_token(&self.chars, self.pos);
        proof {
            lemma_token_at(self.chars@, self.pos as int);
        }
        let text = string_of_range(&self.chars, self.pos, e);
        self.pos = e;
        Some((k, text))
    }
}

/// All tokens of `input`, in order.
pub fn tokenize(input: &str) -> (r: Vec<(SyntaxKind, String)>)
    ensures
        r@.len() == lex(input@).len(),
        forall|i: int|
            0 <= i < r@.len() ==> r@[i].0 == lex(input@)[i].0 && r@[i].1@ == lex(input@)[i].1,
{
    let v = chars_of(input);
    let ghost s = input@;
    let ghost f = |t: (SyntaxKind, int, int)| (t.0, s.subrange(t.1, t.2));
    let mut r: Vec<(SyntaxKind, String)> = Vec::new();
    let mut pos: usize = 0;
    while pos < v.len()
        invariant
            v@ == s,
            pos <= v.len(),
            r@.len() <= lex_from(s, 0).len(),
            lex_from(s, 0) == lex_from(s, 0).take(r@.len() as int) + lex_from(s, pos as int),
            forall|i: int|
                0 <= i < r@.len() ==> r@[i].0 == lex_from(s, 0)[i].0 && r@[i].1@ == s.subrange(
                    lex_from(s, 0)[i].1,
                    lex_from(s, 0)[i].2,
                ),
        decreases v.len() - pos,
    {
        let (k, e) = next_token(&v, pos);
        proof {
            lemma_token_at(s, pos as int);
            assert(lex_from(s, pos as int) =~= seq![(k, pos as int, e as int)] + lex_from(
                s,
                e as int,
            ));
        }
        let text = string_of_range(&v, pos, e);
        let ghost n = r@.len();
        let ghost old_pos = pos;
        r.push((k, text));
        pos = e;
        proof {
            let l = lex_from(s, 0);
            let rest = lex_from(s, old_pos as int);
            assert(l == l.take(n as int) + rest);
            assert(rest[0] == (k, old_pos as int, e as int));
            assert(l[n as int] == (l.take(n as int) + rest)[n as int]);
            assert(l[n as int] == (k, old_pos as int, e as int));
            assert(l.take(n + 1 as int) =~= l.take(n as int).push((k, old_pos as int, e as int)));
            assert(l =~= l.take(n + 1 as int) + lex_from(s, e as int));
        }
    }
    proof {
        assert(lex_from(s, v.len() as int) =~= Seq::<(SyntaxKind, int, int)>::empty());
        assert(lex_from(s, 0).take(r@.len() as int) =~= lex_from(s, 0));
        assert(lex(s) == lex_from(s, 0).map_values(f));
    }
    r
}

} // verus!
