//! The lossless syntax tree: a root node whose children are trivia tokens
//! and command nodes; each command node holds the tokens of one invocation.
use crate::lexer::concat_texts;
use crate::syntax::SyntaxKind;
use crate::text::owned;
use vstd::prelude::*;

verus! {

/// A token's kind and text.
pub type TokenView = (SyntaxKind, Seq<char>);

/// A child of the root: a token, or a command node with its tokens.
pub enum ElementView {
    Token(SyntaxKind, Seq<char>),
    Command(Seq<TokenView>),
}

/// A token of the tree.
#[derive(Debug, Clone)]
pub struct SyntaxToken {
    pub kind: SyntaxKind,
    pub text: String,
}

/// A command invocation: its name, the whitespace and comments around its
/// arguments, the parentheses and the arguments, in source order.
#[derive(Debug, Clone)]
pub struct CommandNode {
    pub tokens: Vec<SyntaxToken>,
}

/// A child of the root node.
#[derive(Debug, Clone)]
pub enum SyntaxElement {
    Token(SyntaxToken),
    Command(CommandNode),
}

/// The root node of a parsed file.
#[derive(Debug, Clone)]
pub struct SyntaxNode {
    pub children: Vec<SyntaxElement>,
}

pub open spec fn token_view(t: SyntaxToken) -> TokenView {
    (t.kind, t.text@)
}

pub open spec fn tokens_view(ts: Seq<SyntaxToken>) -> Seq<TokenView> {
    ts.map_values(|t: SyntaxToken| token_view(t))
}

pub open spec fn element_view(e: SyntaxElement) -> ElementView {
    match e {
        SyntaxElement::Token(t) => ElementView::Token(t.kind, t.text@),
        SyntaxElement::Command(c) => ElementView::Command(tokens_view(c.tokens@)),
    }
}

pub open spec fn elements_view(es: Seq<SyntaxElement>) -> Seq<ElementView> {
    es.map_values(|e: SyntaxElement| element_view(e))
}

/// The source text of one child of the root.
pub open spec fn element_text(e: ElementView) -> Seq<char> {
    match e {
        ElementView::Token(_, t) => t,
        ElementView::Command(ts) => concat_texts(ts),
    }
}

/// The source text of a sequence of children.
pub open spec fn elements_text(es: Seq<ElementView>) -> Seq<char>
    decreases es.len(),
{
    if es.len() == 0 {
        Seq::empty()
    } else {
        element_text(es[0]) + elements_text(es.drop_first())
    }
}

impl SyntaxToken {
    pub fn kind(&self) -> (k: SyntaxKind)
        ensures
            k == self.kind,
    {
        self.kind
    }

    pub fn text(&self) -> (t: &str)
        ensures
            t@ == self.text@,
    {
        self.text.as_str()
    }

    /// A copy of this token.
    pub fn duplicate(&self) -> (t: SyntaxToken)
        ensures
            token_view(t) == token_view(*self),
    {
        SyntaxToken { kind: self.kind, text: self.text.clone() }
    }
}

// ---------------------------------------------------------------------------
// Command nodes
// ---------------------------------------------------------------------------
/// Index of the first unquoted-argument token at or after `i` (the command name).
pub open spec fn first_unquoted(ts: Seq<TokenView>, i: int) -> Option<int>
    decreases ts.len() - i,
{
    if i < 0 || i >= ts.len() {
        None
    } else if ts[i].0 == SyntaxKind::UNQUOTED_ARGUMENT {
        Some(i)
    } else {
        first_unquoted(ts, i + 1)
    }
}

/// The argument tokens of a command, from token `i` on: everything but
/// whitespace, the name (the first unquoted argument) and the outermost
/// parentheses. `skipped` tells whether the name was already passed and
/// `depth` how many parentheses are open.
pub open spec fn args_from(ts: Seq<TokenView>, i: int, skipped: bool, depth: nat) -> Seq<TokenView>
    decreases ts.len() - i,
{
    if i < 0 || i >= ts.len() {
        Seq::empty()
    } else {
        let k = ts[i].0;
        if k == SyntaxKind::WHITESPACE {
            args_from(ts, i + 1, skipped, depth)
        } else if k == SyntaxKind::UNQUOTED_ARGUMENT && !skipped {
            args_from(ts, i + 1, true, depth)
        } else if k == SyntaxKind::L_PAREN && depth == 0 {
            args_from(ts, i + 1, skipped, 1)
        } else if k == SyntaxKind::L_PAREN {
            seq![ts[i]] + args_from(ts, i + 1, skipped, depth + 1)
        } else if k == SyntaxKind::R_PAREN && depth == 1 {
            args_from(ts, i + 1, skipped, 0)
        } else if k == SyntaxKind::R_PAREN {
            seq![ts[i]] + args_from(ts, i + 1, skipped, if depth > 0 {
                (depth - 1) as nat
            } else {
                0
            })
        } else {
            seq![ts[i]] + args_from(ts, i + 1, skipped, depth)
        }
    }
}

impl CommandNode {
    pub open spec fn view(&self) -> Seq<TokenView> {
        tokens_view(self.tokens@)
    }

    /// The command node in `element`, if it is one.
    pub fn cast(element: SyntaxElement) -> (r: Option<CommandNode>)
        ensures
            element matches SyntaxElement::Command(c) ==> r == Some(c),
            element matches SyntaxElement::Token(_) ==> r is None,
    {
        match element {
            SyntaxElement::Command(c) => Some(c),
            SyntaxElement::Token(_) => None,
        }
    }

    /// A copy of this node.
    pub fn duplicate(&self) -> (c: CommandNode)
        ensures
            c.view() == self.view(),
    {
        let mut tokens: Vec<SyntaxToken> = Vec::new();
        let mut i: usize = 0;
        while i < self.tokens.len()
            invariant
                i <= self.tokens.len(),
                tokens_view(tokens@) == self.view().take(i as int),
            decreases self.tokens.len() - i,
        {
            let t = self.tokens[i].duplicate();
            let ghost old_tokens = tokens@;
            tokens.push(t);
            proof {
                assert(tokens@ == old_tokens.push(t));
                assert(tokens_view(tokens@) =~= tokens_view(old_tokens).push(token_view(t)));
                assert(self.view()[i as int] == token_view(self.tokens@[i as int]));
                assert(self.view().take(i + 1 as int) =~= self.view().take(i as int).push(
                    self.view()[i as int],
                ));
            }
            i += 1;
        }
        assert(self.view().take(i as int) =~= self.view());
        CommandNode { tokens }
    }

    /// The command's name: its first unquoted-argument token.
    pub fn name(&self) -> (r: Option<SyntaxToken>)
        ensures
            first_unquoted(self.view(), 0) is None ==> r is None,
            first_unquoted(self.view(), 0) matches Some(i) ==> r matches Some(t) && token_view(t)
                == self.view()[i],
    {
        let mut i: usize = 0;
        while i < self.tokens.len()
            invariant
                i <= self.tokens.len(),
                first_unquoted(self.view(), i as int) == first_unquoted(self.view(), 0),
            decreases self.tokens.len() - i,
        {
            if self.tokens[i].kind == SyntaxKind::UNQUOTED_ARGUMENT {
                return Some(self.tokens[i].duplicate());
            }
            i += 1;
        }
        None
    }

    /// The argument tokens (comments included), without whitespace, the
    /// name and the outermost parentheses.
    pub fn args(&self) -> (r: Vec<SyntaxToken>)
        ensures
            tokens_view(r@) == args_from(self.view(), 0, false, 0),
    {
        let mut r: Vec<SyntaxToken> = Vec::new();
        let mut skipped = false;
        let mut depth: usize = 0;
        let mut i: usize = 0;
        while i < self.tokens.len()
            invariant
                i <= self.tokens.len(),
                depth <= i,
                tokens_view(r@) + args_from(self.view(), i as int, skipped, depth as nat)
                    == args_from(self.view(), 0, false, 0),
            decreases self.tokens.len() - i,
        {
            let k = self.tokens[i].kind;
            let ghost before = tokens_view(r@);
            if k == SyntaxKind::WHITESPACE {
            } else if k == SyntaxKind::UNQUOTED_ARGUMENT && !skipped {
                skipped = true;
            } else if k == SyntaxKind::L_PAREN && depth == 0 {
                depth = 1;
            } else if k == SyntaxKind::L_PAREN {
                depth += 1;
                r.push(self.tokens[i].duplicate());
            } else if k == SyntaxKind::R_PAREN && depth == 1 {
                depth = 0;
            } else if k == SyntaxKind::R_PAREN {
                depth = if depth > 0 {
                    depth - 1
                } else {
                    0
                };
                r.push(self.tokens[i].duplicate());
            } else {
                r.push(self.tokens[i].duplicate());
            }
            proof {
                assert(tokens_view(r@) =~= before || tokens_view(r@) =~= before.push(
                    self.view()[i as int],
                ));
                if tokens_view(r@) =~= before.push(self.view()[i as int]) {
                    assert(before.push(self.view()[i as int]) + args_from(
                        self.view(),
                        i + 1,
                        skipped,
                        depth as nat,
                    ) =~= before + (seq![self.view()[i as int]] + args_from(
                        self.view(),
                        i + 1,
                        skipped,
                        depth as nat,
                    )));
                }
            }
            i += 1;
        }
        assert(tokens_view(r@) =~= args_from(self.view(), 0, false, 0));
        r
    }

    /// The source text of the command.
    pub fn text(&self) -> (s: String)
        ensures
            s@ == concat_texts(self.view()),
    {
        let mut s = String::new();
        let ghost v = self.view();
        let mut j: usize = 0;
        while j < self.tokens.len()
            invariant
                j <= self.tokens.len(),
                v == self.view(),
                s@ == concat_texts(v.take(j as int)),
            decreases self.tokens.len() - j,
        {
            proof {
                crate::lexer::lemma_concat_texts_push(v.take(j as int), v[j as int]);
                assert(v.take(j + 1 as int) =~= v.take(j as int).push(v[j as int]));
                assert(v[j as int] == token_view(self.tokens@[j as int]));
            }
            crate::text::push_str(&mut s, self.tokens[j].text.as_str());
            j += 1;
        }
        assert(v.take(j as int) =~= v);
        s
    }
}

impl SyntaxNode {
    pub open spec fn view(&self) -> Seq<ElementView> {
        elements_view(self.children@)
    }

    /// The source text of the whole tree.
    pub fn text(&self) -> (s: String)
        ensures
            s@ == elements_text(self.view()),
    {
        let mut s = String::new();
        let ghost v = self.view();
        let mut j: usize = 0;
        while j < self.children.len()
            invariant
                j <= self.children.len(),
                v == self.view(),
                s@ == elements_text(v.take(j as int)),
            decreases self.children.len() - j,
        {
            proof {
                lemma_elements_text_push(v.take(j as int), v[j as int]);
                assert(v.take(j + 1 as int) =~= v.take(j as int).push(v[j as int]));
                assert(v[j as int] == element_view(self.children@[j as int]));
            }
            match &self.children[j] {
                SyntaxElement::Token(t) => {
                    crate::text::push_str(&mut s, t.text.as_str());
                },
                SyntaxElement::Command(c) => {
                    let ct = c.text();
                    crate::text::push_str(&mut s, ct.as_str());
                },
            }
            j += 1;
        }
        assert(v.take(j as int) =~= v);
        s
    }
}

pub proof fn lemma_elements_text_push(a: Seq<ElementView>, x: ElementView)
    ensures
        elements_text(a.push(x)) == elements_text(a) + element_text(x),
{
    lemma_elements_text_append(a, seq![x]);
    assert(a.push(x) =~= a + seq![x]);
    assert(seq![x].drop_first() =~= Seq::<ElementView>::empty());
    assert(elements_text(seq![x]) =~= element_text(x) + elements_text(Seq::<ElementView>::empty()));
    assert(elements_text(seq![x]) =~= element_text(x));
}

pub proof fn lemma_elements_text_append(a: Seq<ElementView>, b: Seq<ElementView>)
    ensures
        elements_text(a + b) == elements_text(a) + elements_text(b),
    decreases a.len(),
{
    if a.len() == 0 {
        assert(a + b =~= b);
        assert(elements_text(a) + elements_text(b) =~= elements_text(b));
    } else {
        assert((a + b).drop_first() =~= a.drop_first() + b);
        lemma_elements_text_append(a.drop_first(), b);
        assert(elements_text(a + b) =~= elements_text(a) + elements_text(b));
    }
}

} // verus!
