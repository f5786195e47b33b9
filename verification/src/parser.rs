//! The parser: groups the token stream into command nodes under a root,
//! keeping every token (lossless).
use crate::cst::{
    element_view, elements_text, elements_view, token_view, tokens_view, CommandNode, ElementView,
    SyntaxElement, SyntaxNode, SyntaxToken, TokenView,
};
use crate::lexer::{
    comments_marked, concat_texts, lemma_lex_comments, lemma_concat_texts_append, lemma_lex_lossless, lemma_lex_whitespace, lex, tokenize,
    whitespace_plain,
};
use crate::syntax::{is_trivia, SyntaxKind};
use vstd::prelude::*;

verus! {

// ---------------------------------------------------------------------------
// The grammar over tokens
// ---------------------------------------------------------------------------
/// First index at or after `i` that is not whitespace or a comment.
pub open spec fn trivia_end(t: Seq<TokenView>, i: int) -> int
    decreases t.len() - i,
{
    if 0 <= i < t.len() && is_trivia(t[i].0) {
        trivia_end(t, i + 1)
    } else {
        i
    }
}

/// End of an argument list scanned from `i` with `depth` parentheses open:
/// just after the parenthesis that closes the first one, or the end of input.
pub open spec fn args_end(t: Seq<TokenView>, i: int, depth: nat) -> int
    decreases t.len() - i,
{
    if i < 0 || i >= t.len() {
        t.len() as int
    } else if t[i].0 == SyntaxKind::L_PAREN {
        args_end(t, i + 1, depth + 1)
    } else if t[i].0 == SyntaxKind::R_PAREN {
        if depth <= 1 {
            i + 1
        } else {
            args_end(t, i + 1, (depth - 1) as nat)
        }
    } else {
        args_end(t, i + 1, depth)
    }
}

/// End of the command that starts at token `i`: its name, the whitespace and
/// comments after it, and, when an opening parenthesis follows, everything
/// up to the matching closing one.
pub open spec fn command_end(t: Seq<TokenView>, i: int) -> int {
    let j = trivia_end(t, i + 1);
    if j < t.len() && t[j].0 == SyntaxKind::L_PAREN {
        args_end(t, j + 1, 1)
    } else {
        j
    }
}

/// The tokens of the command that starts at `i`; a name that is not an
/// unquoted argument becomes an `ERROR` token.
pub open spec fn command_tokens(t: Seq<TokenView>, i: int) -> Seq<TokenView> {
    let name_kind = if t[i].0 == SyntaxKind::UNQUOTED_ARGUMENT {
        SyntaxKind::UNQUOTED_ARGUMENT
    } else {
        SyntaxKind::ERROR
    };
    t.subrange(i, command_end(t, i)).update(0, (name_kind, t[i].1))
}

/// The children of the root built from tokens `i..`: whitespace and comments
/// between commands stay tokens of the root; anything else starts a command.
pub open spec fn root_from(t: Seq<TokenView>, i: int) -> Seq<ElementView>
    decreases t.len() - i,
{
    if i < 0 || i >= t.len() {
        Seq::empty()
    } else if is_trivia(t[i].0) {
        seq![ElementView::Token(t[i].0, t[i].1)] + root_from(t, i + 1)
    } else {
        let e = command_end(t, i);
        if e <= i || e > t.len() {
            Seq::empty()
        } else {
            seq![ElementView::Command(command_tokens(t, i))] + root_from(t, e)
        }
    }
}

/// The tree of a token stream.
pub open spec fn parse_tokens(t: Seq<TokenView>) -> Seq<ElementView> {
    root_from(t, 0)
}

/// The tree of a source text.
pub open spec fn parse_source(s: Seq<char>) -> Seq<ElementView> {
    parse_tokens(lex(s))
}

// ---------------------------------------------------------------------------
// Lossless parsing
// ---------------------------------------------------------------------------
proof fn lemma_trivia_end(t: Seq<TokenView>, i: int)
    requires
        0 <= i <= t.len(),
    ensures
        i <= trivia_end(t, i) <= t.len(),
    decreases t.len() - i,
{
    if i < t.len() && is_trivia(t[i].0) {
        lemma_trivia_end(t, i + 1);
    }
}

proof fn lemma_args_end(t: Seq<TokenView>, i: int, depth: nat)
    requires
        0 <= i <= t.len(),
    ensures
        i <= args_end(t, i, depth) <= t.len(),
    decreases t.len() - i,
{
    if i < t.len() {
        if t[i].0 == SyntaxKind::L_PAREN {
            lemma_args_end(t, i + 1, depth + 1);
        } else if t[i].0 == SyntaxKind::R_PAREN {
            if depth > 1 {
                lemma_args_end(t, i + 1, (depth - 1) as nat);
            }
        } else {
            lemma_args_end(t, i + 1, depth);
        }
    }
}

/// A command covers at least its first token and ends within the stream.
pub proof fn lemma_command_end(t: Seq<TokenView>, i: int)
    requires
        0 <= i < t.len(),
    ensures
        i < command_end(t, i) <= t.len(),
{
    lemma_trivia_end(t, i + 1);
    let j = trivia_end(t, i + 1);
    if j < t.len() && t[j].0 == SyntaxKind::L_PAREN {
        lemma_args_end(t, j + 1, 1);
    }
}

proof fn lemma_update_kind_text(ts: Seq<TokenView>, k: SyntaxKind)
    requires
        ts.len() > 0,
    ensures
        concat_texts(ts.update(0, (k, ts[0].1))) == concat_texts(ts),
{
    let u = ts.update(0, (k, ts[0].1));
    assert(u.drop_first() =~= ts.drop_first());
}

proof fn lemma_root_from_text(t: Seq<TokenView>, i: int)
    requires
        0 <= i <= t.len(),
    ensures
        elements_text(root_from(t, i)) == concat_texts(t.subrange(i, t.len() as int)),
    decreases t.len() - i,
{
    if i == t.len() {
        assert(t.subrange(i, t.len() as int) =~= Seq::<TokenView>::empty());
        assert(root_from(t, i) =~= Seq::<ElementView>::empty());
    } else {
        let rest = t.subrange(i, t.len() as int);
        if is_trivia(t[i].0) {
            lemma_root_from_text(t, i + 1);
            let x = ElementView::Token(t[i].0, t[i].1);
            assert(root_from(t, i).drop_first() =~= root_from(t, i + 1));
            assert(rest.drop_first() =~= t.subrange(i + 1, t.len() as int));
        } else {
            lemma_command_end(t, i);
            let e = command_end(t, i);
            lemma_root_from_text(t, e);
            let name_kind = if t[i].0 == SyntaxKind::UNQUOTED_ARGUMENT {
                SyntaxKind::UNQUOTED_ARGUMENT
            } else {
                SyntaxKind::ERROR
            };
            lemma_update_kind_text(t.subrange(i, e), name_kind);
            assert(root_from(t, i).drop_first() =~= root_from(t, e));
            assert(rest =~= t.subrange(i, e) + t.subrange(e, t.len() as int));
            lemma_concat_texts_append(t.subrange(i, e), t.subrange(e, t.len() as int));
        }
    }
}

proof fn lemma_root_from_whitespace(t: Seq<TokenView>, i: int)
    requires
        0 <= i <= t.len(),
        whitespace_plain(t),
    ensures
        forall|m: int|
            0 <= m < root_from(t, i).len() ==> (#[trigger] root_from(t, i)[m] matches ElementView::Command(ts)
                ==> whitespace_plain(ts)),
    decreases t.len() - i,
{
    if i < t.len() {
        if is_trivia(t[i].0) {
            lemma_root_from_whitespace(t, i + 1);
            let r = root_from(t, i);
            assert forall|m: int| 0 <= m < r.len() implies (#[trigger] r[m] matches ElementView::Command(ts)
                ==> whitespace_plain(ts)) by {
                if m > 0 {
                    assert(r[m] == root_from(t, i + 1)[m - 1]);
                }
            }
        } else {
            lemma_command_end(t, i);
            let e = command_end(t, i);
            lemma_root_from_whitespace(t, e);
            let ct = command_tokens(t, i);
            assert forall|k: int| 0 <= k < ct.len() && (#[trigger] ct[k]).0 == SyntaxKind::WHITESPACE implies forall|j: int|
                0 <= j < ct[k].1.len() ==> crate::lexer::is_plain_ws(#[trigger] ct[k].1[j]) by {
                assert(k > 0);
                assert(ct[k] == t[i + k]);
            }
            let r = root_from(t, i);
            assert forall|m: int| 0 <= m < r.len() implies (#[trigger] r[m] matches ElementView::Command(ts)
                ==> whitespace_plain(ts)) by {
                if m > 0 {
                    assert(r[m] == root_from(t, e)[m - 1]);
                }
            }
        }
    }
}

/// The whitespace tokens of every command of a parsed source hold spaces,
/// tabs and line breaks only.
pub proof fn lemma_parse_whitespace(s: Seq<char>)
    ensures
        forall|m: int|
            0 <= m < parse_source(s).len() ==> (#[trigger] parse_source(s)[m] matches ElementView::Command(ts)
                ==> whitespace_plain(ts)),
{
    lemma_lex_whitespace(s);
    lemma_root_from_whitespace(lex(s), 0);
}

proof fn lemma_root_from_comments(t: Seq<TokenView>, i: int)
    requires
        0 <= i <= t.len(),
        comments_marked(t),
    ensures
        forall|m: int|
            0 <= m < root_from(t, i).len() ==> (#[trigger] root_from(t, i)[m] matches ElementView::Command(ts)
                ==> comments_marked(ts)),
    decreases t.len() - i,
{
    if i < t.len() {
        if is_trivia(t[i].0) {
            lemma_root_from_comments(t, i + 1);
            let r = root_from(t, i);
            assert forall|m: int| 0 <= m < r.len() implies (#[trigger] r[m] matches ElementView::Command(ts)
                ==> comments_marked(ts)) by {
                if m > 0 {
                    assert(r[m] == root_from(t, i + 1)[m - 1]);
                }
            }
        } else {
            lemma_command_end(t, i);
            let e = command_end(t, i);
            lemma_root_from_comments(t, e);
            let ct = command_tokens(t, i);
            assert forall|k: int| 0 <= k < ct.len() && (#[trigger] ct[k]).0 == SyntaxKind::COMMENT implies ct[k].1.len() > 0
                && ct[k].1[0] == '#' by {
                assert(k > 0);
                assert(ct[k] == t[i + k]);
            }
            let r = root_from(t, i);
            assert forall|m: int| 0 <= m < r.len() implies (#[trigger] r[m] matches ElementView::Command(ts)
                ==> comments_marked(ts)) by {
                if m > 0 {
                    assert(r[m] == root_from(t, e)[m - 1]);
                }
            }
        }
    }
}

/// The comment tokens of every command of a parsed source start with `#`.
pub proof fn lemma_parse_comments(s: Seq<char>)
    ensures
        forall|m: int|
            0 <= m < parse_source(s).len() ==> (#[trigger] parse_source(s)[m] matches ElementView::Command(ts)
                ==> comments_marked(ts)),
{
    lemma_lex_comments(s);
    lemma_root_from_comments(lex(s), 0);
}

/// Lossless parsing: the texts of the tree's tokens, in order, make up the
/// source exactly (comments, whitespace and malformed text included).
pub proof fn lemma_parse_lossless(s: Seq<char>)
    ensures
        elements_text(parse_source(s)) == s,
{
    lemma_lex_lossless(s);
    lemma_root_from_text(lex(s), 0);
    assert(lex(s).subrange(0, lex(s).len() as int) =~= lex(s));
}

// ---------------------------------------------------------------------------
// The executable parser
// ---------------------------------------------------------------------------
/// A parser over the tokens of one source text.
pub struct Parser {
    tokens: Vec<SyntaxToken>,
}

impl Parser {
    /// The tokens still to be parsed.
    pub closed spec fn tokens(&self) -> Seq<TokenView> {
        tokens_view(self.tokens@)
    }

    /// A parser over the tokens of `input`.
    pub fn new(input: &str) -> (p: Parser)
        ensures
            p.tokens() == lex(input@),
    {
        let raw = tokenize(input);
        let mut tokens: Vec<SyntaxToken> = Vec::new();
        let mut i: usize = 0;
        while i < raw.len()
            invariant
                i <= raw.len(),
                raw@.len() == lex(input@).len(),
                forall|j: int|
                    0 <= j < raw@.len() ==> raw@[j].0 == lex(input@)[j].0 && raw@[j].1@ == lex(
                        input@,
                    )[j].1,
                tokens_view(tokens@) == lex(input@).take(i as int),
            decreases raw.len() - i,
        {
            let t = SyntaxToken { kind: raw[i].0, text: raw[i].1.clone() };
            let ghost old_tokens = tokens@;
            tokens.push(t);
            proof {
                assert(tokens_view(tokens@) =~= tokens_view(old_tokens).push(token_view(t)));
                assert(lex(input@).take(i + 1 as int) =~= lex(input@).take(i as int).push(
                    lex(input@)[i as int],
                ));
            }
            i += 1;
        }
        assert(lex(input@).take(i as int) =~= lex(input@));
        Parser { tokens }
    }

    fn trivia_end_exec(&self, i: usize) -> (j: usize)
        requires
            i <= self.tokens.len(),
        ensures
            j == trivia_end(self.tokens(), i as int),
    {
        let mut j = i;
        while j < self.tokens.len() && (self.tokens[j].kind == SyntaxKind::WHITESPACE
            || self.tokens[j].kind == SyntaxKind::COMMENT)
            invariant
                i <= j <= self.tokens.len(),
                trivia_end(self.tokens(), j as int) == trivia_end(self.tokens(), i as int),
            decreases self.tokens.len() - j,
        {
            j += 1;
        }
        j
    }

    fn args_end_exec(&self, i: usize) -> (j: usize)
        requires
            1 <= i <= self.tokens.len(),
        ensures
            j == args_end(self.tokens(), i as int, 1),
    {
        let mut j = i;
        let mut depth: usize = 1;
        loop
            invariant
                1 <= i <= j <= self.tokens.len(),
                1 <= depth <= 1 + (j - i),
                args_end(self.tokens(), j as int, depth as nat) == args_end(
                    self.tokens(),
                    i as int,
                    1,
                ),
            decreases self.tokens.len() - j,
        {
            if j >= self.tokens.len() {
                return self.tokens.len();
            }
            let k = self.tokens[j].kind;
            if k == SyntaxKind::L_PAREN {
                depth += 1;
            } else if k == SyntaxKind::R_PAREN {
                if depth <= 1 {
                    return j + 1;
                }
                depth -= 1;
            }
            j += 1;
        }
    }

    fn command_end_exec(&self, i: usize) -> (e: usize)
        requires
            i < self.tokens.len(),
        ensures
            e == command_end(self.tokens(), i as int),
    {
        let j = self.trivia_end_exec(i + 1);
        if j < self.tokens.len() && self.tokens[j].kind == SyntaxKind::L_PAREN {
            self.args_end_exec(j + 1)
        } else {
            j
        }
    }

    fn command_at(&self, i: usize, e: usize) -> (c: CommandNode)
        requires
            i < e <= self.tokens.len(),
            e == command_end(self.tokens(), i as int),
        ensures
            c.view() == command_tokens(self.tokens(), i as int),
    {
        let ghost t = self.tokens();
        let name_kind = if self.tokens[i].kind == SyntaxKind::UNQUOTED_ARGUMENT {
            SyntaxKind::UNQUOTED_ARGUMENT
        } else {
            SyntaxKind::ERROR
        };
        let mut tokens: Vec<SyntaxToken> = Vec::new();
        tokens.push(SyntaxToken { kind: name_kind, text: self.tokens[i].text.clone() });
        let mut j = i + 1;
        while j < e
            invariant
                i < j <= e <= self.tokens.len(),
                t == self.tokens(),
                tokens_view(tokens@) == t.subrange(i as int, j as int).update(
                    0,
                    (name_kind, t[i as int].1),
                ),
            decreases e - j,
        {
            let tok = self.tokens[j].duplicate();
            let ghost old_tokens = tokens@;
            tokens.push(tok);
            proof {
                assert(tokens_view(tokens@) =~= tokens_view(old_tokens).push(token_view(tok)));
                assert(t[j as int] == token_view(self.tokens@[j as int]));
                assert(t.subrange(i as int, j + 1 as int).update(0, (name_kind, t[i as int].1))
                    =~= t.subrange(i as int, j as int).update(0, (name_kind, t[i as int].1)).push(
                    t[j as int],
                ));
            }
            j += 1;
        }
        CommandNode { tokens }
    }

    /// The syntax tree of the source.
    pub fn parse(self) -> (root: SyntaxNode)
        ensures
            root.view() == parse_tokens(self.tokens()),
    {
        let ghost t = self.tokens();
        let mut children: Vec<SyntaxElement> = Vec::new();
        let mut i: usize = 0;
        while i < self.tokens.len()
            invariant
                i <= self.tokens.len(),
                t == self.tokens(),
                elements_view(children@) + root_from(t, i as int) == root_from(t, 0),
            decreases self.tokens.len() - i,
        {
            let ghost before = elements_view(children@);
            let ghost old_children = children@;
            if self.tokens[i].kind == SyntaxKind::WHITESPACE || self.tokens[i].kind
                == SyntaxKind::COMMENT {
                let el = SyntaxElement::Token(self.tokens[i].duplicate());
                children.push(el);
                proof {
                    assert(elements_view(children@) =~= before.push(element_view(el)));
                    assert(t[i as int] == token_view(self.tokens@[i as int]));
                    assert(root_from(t, i as int) =~= seq![ElementView::Token(t[i as int].0, t[i as int].1)] + root_from(t, i + 1));
                    assert(before.push(element_view(el)) + root_from(t, i + 1) =~= before + root_from(t, i as int));
                }
                i += 1;
            } else {
                proof {
                    lemma_command_end(t, i as int);
                }
                let e = self.command_end_exec(i);
                let c = self.command_at(i, e);
                let el = SyntaxElement::Command(c);
                children.push(el);
                proof {
                    assert(t[i as int] == token_view(self.tokens@[i as int]));
                    assert(elements_view(children@) =~= before.push(element_view(el)));
                    assert(root_from(t, i as int) =~= seq![ElementView::Command(command_tokens(t, i as int))] + root_from(t, e as int));
                    assert(before.push(element_view(el)) + root_from(t, e as int) =~= before + root_from(t, i as int));
                }
                i = e;
            }
        }
        assert(root_from(t, i as int) =~= Seq::<ElementView>::empty());
        assert(elements_view(children@) =~= root_from(t, 0));
        SyntaxNode { children }
    }
}

/// Parses `input` into its syntax tree.
pub fn parse_text(input: &str) -> (root: SyntaxNode)
    ensures
        root.view() == parse_source(input@),
        elements_text(root.view()) == input@,
{
    proof {
        lemma_parse_lossless(input@);
    }
    Parser::new(input).parse()
}

} // verus!
