//! The formatter: walks the tree, re-indents blocks and writes each command
//! on one line when it fits, else laid out by its schema.
use crate::config::{Config, IndentStyle};
use crate::cst::{CommandNode, ElementView, SyntaxElement, SyntaxNode, SyntaxToken, TokenView, first_unquoted, token_view, tokens_view};
use crate::format_spec::{
    FmtState, ItemsState, close_command, command_items, command_lines, command_name_text, extend_last, format_command, format_text, has_comment_item, has_paren, head_comment, header_budget, indent_text, is_block_close, is_block_mid, is_block_open, is_control_flow, items_from, items_start, items_step, last_arg_text, last_line, name_paren_gap, no_break_first, norm_acc, normalize_whitespace, opening, opt_char, push_arg, render_block, render_lines, render_no_break_first, single_from, single_line, visit_from, visit_step,
};
use crate::layout::{items_view, layout_generic_items_exec, layout_schema_items_exec, misaligned_from, misaligned_lists, to_arg_items, Item};
use crate::layout_spec::{ItemV, LineV, app, arg_of_item, inc, layout_generic_items, layout_schema_items, sat_sub};
use crate::schema::registry_key;
use crate::pack::{append_value, lines_view, LayoutLine};
use crate::syntax::SyntaxKind;
use crate::text::{
    blen, byte_len, char_width, chars_of, concat, contains_char, count_chars, eq_ignore_ascii_case,
    lemma_blen_push, owned, unicode_lowercase, push_repeat, push_str, repeat_char, starts_with, str_eq, to_lowercase,
    trim_end,
};
use vstd::prelude::*;
use vstd::slice::slice_subrange;

verus! {

// ---------------------------------------------------------------------------
// Blocks and indentation
// ---------------------------------------------------------------------------
fn is_block_open_exec(name: &str) -> (r: bool)
    ensures
        r == is_block_open(name@),
{
    eq_ignore_ascii_case(name, "if") || eq_ignore_ascii_case(name, "foreach")
        || eq_ignore_ascii_case(name, "while") || eq_ignore_ascii_case(name, "function")
        || eq_ignore_ascii_case(name, "macro") || eq_ignore_ascii_case(name, "block")
}

fn is_block_close_exec(name: &str) -> (r: bool)
    ensures
        r == is_block_close(name@),
{
    eq_ignore_ascii_case(name, "endif") || eq_ignore_ascii_case(name, "endforeach")
        || eq_ignore_ascii_case(name, "endwhile") || eq_ignore_ascii_case(name, "endfunction")
        || eq_ignore_ascii_case(name, "endmacro") || eq_ignore_ascii_case(name, "endblock")
}

fn is_block_mid_exec(name: &str) -> (r: bool)
    ensures
        r == is_block_mid(name@),
{
    eq_ignore_ascii_case(name, "elseif") || eq_ignore_ascii_case(name, "else")
}

/// Appends the indentation of `level` levels.
fn push_indent(out: &mut String, cfg: &Config, level: usize)
    ensures
        final(out)@ == old(out)@ + indent_text(*cfg, level as nat),
{
    match cfg.indent_style {
        IndentStyle::Space => {
            let ghost o0 = out@;
            let w = cfg.indent_width;
            let mut i: usize = 0;
            while i < level
                invariant
                    i <= level,
                    out@ == o0 + repeat_char(' ', (w * i) as nat),
                decreases level - i,
            {
                push_repeat(out, ' ', w);
                proof {
                    assert(w * (i + 1) == w * i + w) by (nonlinear_arith);
                    assert(w * i >= 0) by (nonlinear_arith);
                    assert(repeat_char(' ', (w * i) as nat) + repeat_char(' ', w as nat)
                        =~= repeat_char(' ', (w * (i + 1)) as nat));
                }
                i += 1;
            }
        },
        IndentStyle::Tab => {
            push_repeat(out, '\t', level);
        },
    }
}

fn indent_string(cfg: &Config, level: usize) -> (r: String)
    ensures
        r@ == indent_text(*cfg, level as nat),
{
    let mut s = String::new();
    push_indent(&mut s, cfg, level);
    assert(s@ =~= indent_text(*cfg, level as nat));
    s
}

// ---------------------------------------------------------------------------
// Whitespace between commands
// ---------------------------------------------------------------------------
fn normalize_whitespace_exec(s: &str) -> (r: String)
    ensures
        r@ == normalize_whitespace(s@),
{
    if !contains_char(s, '\n') && !contains_char(s, '\r') {
        return owned(s);
    }
    let v = chars_of(s);
    let mut kept = String::new();
    let mut pending = String::new();
    let mut i: usize = 0;
    while i < v.len()
        invariant
            i <= v.len(),
            v@ == s@,
            (kept@, pending@) == norm_acc(s@.take(i as int)),
        decreases v.len() - i,
    {
        let c = v[i];
        assert(s@.take(i + 1).drop_last() =~= s@.take(i as int));
        assert(s@.take(i + 1).last() == c);
        if c == ' ' || c == '\t' {
            pending.push(c);
        } else if c == '\n' || c == '\r' {
            pending = String::new();
            kept.push(c);
            assert(pending@ =~= Seq::<char>::empty());
        } else {
            push_str(&mut kept, pending.as_str());
            pending = String::new();
            kept.push(c);
            assert(pending@ =~= Seq::<char>::empty());
        }
        i += 1;
    }
    assert(s@.take(i as int) =~= s@);
    kept
}

// ---------------------------------------------------------------------------
// The items of a command
// ---------------------------------------------------------------------------
/// The exec counterpart of `ItemsState`.
struct ItemsScan {
    skipped: bool,
    depth: usize,
    last_newline: bool,
    concat: bool,
    next_index: usize,
    line_first: Option<usize>,
    source_line: usize,
    items: Vec<Item>,
}

impl ItemsScan {
    spec fn view(&self) -> ItemsState {
        ItemsState {
            skipped: self.skipped,
            depth: self.depth as nat,
            last_newline: self.last_newline,
            concat: self.concat,
            next_index: self.next_index as nat,
            line_first: self.line_first,
            source_line: self.source_line,
            items: items_view(self.items@),
        }
    }

    fn push_arg_exec(&mut self, text: String)
        requires
            old(self).next_index < usize::MAX,
        ensures
            final(self).view() == push_arg(old(self).view(), text@),
    {
        let index = self.next_index;
        if self.line_first.is_none() {
            self.line_first = Some(index);
        }
        self.next_index = index + 1;
        let ghost before = self.items@;
        self.items.push(Item::Arg { text, index, source_line: self.source_line });
        assert(items_view(self.items@) =~= items_view(before).push(
            ItemV::Arg { text: text@, index, source_line: self.source_line },
        ));
    }

    fn extend_last_exec(&mut self, text: &str)
        ensures
            final(self).view() == (ItemsState {
                items: extend_last(old(self).view().items, text@),
                ..old(self).view()
            }),
    {
        let ghost before = items_view(self.items@);
        let n = self.items.len();
        if n == 0 {
            return;
        }
        let last = self.items.pop().unwrap();
        let ghost rest = self.items@;
        assert(before.drop_last() =~= items_view(rest));
        assert(before.last() == last.view());
        match last {
            Item::Arg { text: t, index, source_line } => {
                let mut t2 = t;
                push_str(&mut t2, text);
                self.items.push(Item::Arg { text: t2, index, source_line });
                assert(items_view(self.items@) =~= extend_last(before, text@));
            },
            Item::Comment { text: t, trailing, target_arg, previous_arg } => {
                self.items.push(Item::Comment { text: t, trailing, target_arg, previous_arg });
                assert(items_view(self.items@) =~= before);
            },
        }
    }
}

fn last_arg_text_exec(items: &Vec<Item>) -> (r: Option<String>)
    ensures
        r matches Some(t) ==> last_arg_text(items_view(items@)) == Some(t@),
        r is None ==> last_arg_text(items_view(items@)) is None,
{
    let ghost iv = items_view(items@);
    let mut k = items.len();
    assert(iv.take(k as int) =~= iv);
    while k > 0
        invariant
            k <= items.len(),
            iv == items_view(items@),
            last_arg_text(iv.take(k as int)) == last_arg_text(iv),
        decreases k,
    {
        assert(iv.take(k as int).last() == items@[k - 1].view());
        assert(iv.take(k as int).drop_last() =~= iv.take(k - 1));
        if let Item::Arg { text, .. } = &items[k - 1] {
            return Some(text.clone());
        }
        k -= 1;
    }
    None
}

/// The arguments and comments of the command made of `ts`.
pub fn command_items_exec(ts: &Vec<SyntaxToken>) -> (r: Vec<Item>)
    ensures
        items_view(r@) == command_items(tokens_view(ts@)),
{
    let ghost tv = tokens_view(ts@);
    let mut st = ItemsScan {
        skipped: false,
        depth: 0,
        last_newline: true,
        concat: false,
        next_index: 0,
        line_first: None,
        source_line: 0,
        items: Vec::new(),
    };
    assert(items_view(st.items@) =~= Seq::<ItemV>::empty());
    assert(st.view() == items_start());
    let mut i: usize = 0;
    while i < ts.len()
        invariant
            i <= ts.len(),
            tv == tokens_view(ts@),
            st.depth <= i,
            st.next_index <= i,
            items_from(tv, i as int, st.view()) == items_from(tv, 0, items_start()),
        decreases ts.len() - i,
    {
        let ghost s0 = st.view();
        let k = ts[i].kind;
        let t = ts[i].text.as_str();
        assert(tv[i as int] == (k, t@));
        if k == SyntaxKind::WHITESPACE {
            let nl = contains_char(t, '\n');
            st.last_newline = nl;
            st.concat = false;
            if nl {
                st.line_first = None;
                let n = count_chars(t, '\n');
                st.source_line = st.source_line.saturating_add(n);
            }
        } else if k == SyntaxKind::UNQUOTED_ARGUMENT && !st.skipped {
            st.skipped = true;
            st.last_newline = false;
        } else if k == SyntaxKind::L_PAREN && st.depth == 0 {
            st.depth = 1;
            st.last_newline = false;
        } else if k == SyntaxKind::L_PAREN {
            st.depth = st.depth + 1;
            st.push_arg_exec(owned(t));
            st.last_newline = false;
            st.concat = false;
        } else if k == SyntaxKind::R_PAREN && st.depth == 1 {
            st.depth = 0;
            st.last_newline = false;
        } else if k == SyntaxKind::R_PAREN {
            st.depth = if st.depth > 0 {
                st.depth - 1
            } else {
                0
            };
            st.push_arg_exec(owned(t));
            st.last_newline = false;
            st.concat = false;
        } else if k == SyntaxKind::COMMENT {
            let trailing = !st.last_newline;
            let previous_arg = if trailing {
                last_arg_text_exec(&st.items)
            } else {
                None
            };
            let target_arg = if trailing {
                st.line_first
            } else {
                None
            };
            let item = Item::Comment { text: trim_end(t), trailing, target_arg, previous_arg };
            let ghost before = st.items@;
            st.items.push(item);
            assert(items_view(st.items@) =~= items_view(before).push(item.view()));
            st.last_newline = false;
            st.concat = false;
        } else if st.concat {
            st.extend_last_exec(t);
            st.last_newline = false;
        } else {
            st.push_arg_exec(owned(t));
            st.last_newline = false;
            st.concat = true;
        }
        assert(st.view() == items_step(s0, tv[i as int]));
        i += 1;
    }
    st.items
}

fn head_comment_exec(items: &Vec<Item>) -> (r: bool)
    ensures
        r == head_comment(items_view(items@)) is Some,
{
    if items.len() == 0 {
        return false;
    }
    assert(items_view(items@)[0] == items@[0].view());
    match &items[0] {
        Item::Comment { trailing, target_arg, .. } => *trailing && target_arg.is_none(),
        _ => false,
    }
}

fn has_comment_item_exec(items: &Vec<Item>) -> (r: bool)
    ensures
        r == has_comment_item(items_view(items@)),
{
    let ghost iv = items_view(items@);
    let mut i: usize = 0;
    while i < items.len()
        invariant
            i <= items.len(),
            iv == items_view(items@),
            forall|t: int| 0 <= t < i ==> !(iv[t] is Comment),
        decreases items.len() - i,
    {
        assert(iv[i as int] == items@[i as int].view());
        if let Item::Comment { .. } = &items[i] {
            return true;
        }
        i += 1;
    }
    false
}

// ---------------------------------------------------------------------------
// Pieces of a command's text
// ---------------------------------------------------------------------------
fn has_paren_exec(ts: &Vec<SyntaxToken>) -> (r: bool)
    ensures
        r == has_paren(tokens_view(ts@)),
{
    let ghost tv = tokens_view(ts@);
    let mut i: usize = 0;
    while i < ts.len()
        invariant
            i <= ts.len(),
            tv == tokens_view(ts@),
            forall|t: int| 0 <= t < i ==> tv[t].0 != SyntaxKind::L_PAREN,
        decreases ts.len() - i,
    {
        assert(tv[i as int] == token_view(ts@[i as int]));
        if ts[i].kind == SyntaxKind::L_PAREN {
            return true;
        }
        i += 1;
    }
    false
}

fn is_control_flow_exec(lower: &str) -> (r: bool)
    ensures
        r == is_control_flow(lower@),
{
    str_eq(lower, "if") || str_eq(lower, "elseif") || str_eq(lower, "else") || str_eq(
        lower,
        "endif",
    ) || str_eq(lower, "foreach") || str_eq(lower, "endforeach") || str_eq(lower, "while")
        || str_eq(lower, "endwhile") || str_eq(lower, "block") || str_eq(lower, "endblock")
}

fn name_paren_gap_exec(ts: &Vec<SyntaxToken>, name: &str) -> (r: String)
    ensures
        r@ == name_paren_gap(tokens_view(ts@), name@),
{
    let lower = to_lowercase(name);
    if is_control_flow_exec(lower.as_str()) {
        let mut s = String::new();
        s.push(' ');
        return s;
    }
    let ghost tv = tokens_view(ts@);
    assert(!is_control_flow(unicode_lowercase(name@)));
    let mut i: usize = 0;
    while i < ts.len()
        invariant
            i <= ts.len(),
            tv == tokens_view(ts@),
            first_unquoted(tv, i as int) == first_unquoted(tv, 0),
            !is_control_flow(unicode_lowercase(name@)),
        decreases ts.len() - i,
    {
        assert(tv[i as int] == token_view(ts@[i as int]));
        if ts[i].kind == SyntaxKind::UNQUOTED_ARGUMENT {
            if i + 1 < ts.len() && ts[i + 1].kind == SyntaxKind::WHITESPACE {
                assert(tv[i + 1] == token_view(ts@[i + 1]));
                return ts[i + 1].text.clone();
            }
            proof {
                if i + 1 < ts.len() {
                    assert(tv[i + 1] == token_view(ts@[i + 1]));
                }
            }
            return String::new();
        }
        i += 1;
    }
    String::new()
}

fn single_line_exec(name: &str, gap: &str, has_parens: bool, items: &Vec<Item>) -> (r: String)
    ensures
        r@ == single_line(name@, gap@, has_parens, items_view(items@)),
{
    let ghost iv = items_view(items@);
    let mut s = concat(name, gap);
    if has_parens {
        s.push('(');
    }
    let ghost start = s@;
    assert(start =~= name@ + gap@ + opt_char(has_parens, '('));
    let mut i: usize = 0;
    while i < items.len()
        invariant
            i <= items.len(),
            iv == items_view(items@),
            single_from(iv, i as int, s@) == single_from(iv, 0, start),
        decreases items.len() - i,
    {
        assert(iv[i as int] == items@[i as int].view());
        match &items[i] {
            Item::Arg { text, .. } => {
                if i == 0 {
                    push_str(&mut s, text.as_str());
                } else {
                    append_value(&mut s, text.as_str());
                }
            },
            Item::Comment { text, .. } => {
                if i > 0 {
                    s.push(' ');
                }
                push_str(&mut s, text.as_str());
            },
        }
        i += 1;
    }
    if has_parens {
        s.push(')');
    }
    assert(s@ =~= single_line(name@, gap@, has_parens, iv));
    s
}

/// The byte length of the last line of `s`, capped at `cap`.
fn last_line_len_capped(s: &str, cap: usize) -> (n: usize)
    ensures
        n == if blen(last_line(s@)) < cap {
            blen(last_line(s@))
        } else {
            cap as nat
        },
{
    let v = chars_of(s);
    let mut n: usize = 0;
    let mut i: usize = 0;
    assert(s@.take(0) =~= Seq::<char>::empty());
    while i < v.len()
        invariant
            i <= v.len(),
            v@ == s@,
            n == if blen(last_line(s@.take(i as int))) < cap {
                blen(last_line(s@.take(i as int)))
            } else {
                cap as nat
            },
        decreases v.len() - i,
    {
        let c = v[i];
        let ghost p = s@.take(i as int);
        assert(s@.take(i + 1).drop_last() =~= p);
        assert(s@.take(i + 1).last() == c);
        if c == '\n' {
            n = 0;
        } else {
            proof {
                lemma_blen_push(last_line(p), c);
            }
            let w: usize = if (c as u32) < 0x80 {
                1
            } else if (c as u32) < 0x800 {
                2
            } else if (c as u32) < 0x10000 {
                3
            } else {
                4
            };
            assert(w == char_width(c));
            if n >= cap || w >= cap - n {
                n = cap;
            } else {
                n = n + w;
            }
        }
        i += 1;
    }
    assert(s@.take(i as int) =~= s@);
    n
}

// ---------------------------------------------------------------------------
// The formatter
// ---------------------------------------------------------------------------
/// Formats a parsed file under a configuration.
/// The `n_per_line` lists of the commands of `es` that have a schema and
/// whose number of values is not a multiple of `n`: the command's name, the
/// keyword and the number of values.
pub open spec fn misaligned_in(cfg: Config, es: Seq<ElementView>) -> Seq<(Seq<char>, Seq<char>, nat)>
    decreases es.len(),
{
    if es.len() == 0 {
        Seq::empty()
    } else {
        let r = misaligned_in(cfg, es.drop_last());
        match es.last() {
            ElementView::Command(ts) => {
                let name = command_name_text(ts);
                match cfg.function_schemas.lookup(registry_key(name)) {
                    Some(s) => r + misaligned_from(
                        command_items(ts).map_values(|i: ItemV| arg_of_item(i)),
                        s,
                        0,
                    ).map_values(|q: (Seq<char>, nat)| (name, q.0, q.1)),
                    None => r,
                }
            },
            _ => r,
        }
    }
}

pub struct Formatter {
    config: Config,
    output: String,
    indent_level: usize,
    at_line_start: bool,
}

impl Formatter {
    /// The configuration the formatter runs with.
    pub closed spec fn spec_config(&self) -> Config {
        self.config
    }

    /// What was written so far, the block level, and whether the next token
    /// starts a line.
    pub closed spec fn spec_state(&self) -> FmtState {
        FmtState { out: self.output@, level: self.indent_level, at_start: self.at_line_start }
    }

    pub fn new(config: Config) -> (r: Formatter)
        ensures
            r.spec_config() == config,
            r.spec_state() == (FmtState { out: Seq::empty(), level: 0, at_start: true }),
    {
        let r = Formatter { config, output: String::new(), indent_level: 0, at_line_start: true };
        assert(r.output@ =~= Seq::<char>::empty());
        r
    }

    /// Formats the file `root`; the text is `format_text` of the tree for a
    /// fresh formatter.
    /// The `n_per_line` lists of the file whose number of values is not a
    /// multiple of `n` (laid out as packed): for each, the command's name,
    /// the keyword and the number of values, in file order.
    pub fn misaligned_lists(&self, root: &SyntaxNode) -> (r: Vec<(String, String, usize)>)
        ensures
            r@.map_values(|p: (String, String, usize)| (p.0@, p.1@, p.2 as nat)) == misaligned_in(
                self.spec_config(),
                root.view(),
            ),
    {
        let ghost es = root.view();
        let ghost f = |p: (String, String, usize)| (p.0@, p.1@, p.2 as nat);
        let mut r: Vec<(String, String, usize)> = Vec::new();
        let mut i: usize = 0;
        assert(es.take(0) =~= Seq::<ElementView>::empty());
        while i < root.children.len()
            invariant
                i <= root.children.len(),
                es == root.view(),
                f == (|p: (String, String, usize)| (p.0@, p.1@, p.2 as nat)),
                r@.map_values(f) == misaligned_in(self.config, es.take(i as int)),
            decreases root.children.len() - i,
        {
            assert(es[i as int] == crate::cst::element_view(root.children@[i as int]));
            assert(es.take(i + 1).drop_last() =~= es.take(i as int));
            assert(es.take(i + 1).last() == es[i as int]);
            match &root.children[i] {
                SyntaxElement::Command(c) => {
                    let name = match c.name() {
                        Some(t) => t.text,
                        None => String::new(),
                    };
                    assert(name@ == command_name_text(c.view()));
                    match self.config.function_schemas.get(name.as_str()) {
                        Some(s) => {
                            let items = command_items_exec(&c.tokens);
                            let args = to_arg_items(&items);
                            let found = misaligned_lists(args.as_slice(), s);
                            let ghost g = |p: (String, usize)| (p.0@, p.1 as nat);
                            let ghost before = r@;
                            let ghost fv = found@;
                            let mut k: usize = 0;
                            while k < found.len()
                                invariant
                                    k <= found.len(),
                                    fv == found@,
                                    f == (|p: (String, String, usize)| (p.0@, p.1@, p.2 as nat)),
                                    g == (|p: (String, usize)| (p.0@, p.1 as nat)),
                                    r@.map_values(f) == before.map_values(f) + fv.take(k as int).map_values(g).map_values(
                                        |q: (Seq<char>, nat)| (name@, q.0, q.1),
                                    ),
                                decreases found.len() - k,
                            {
                                let ghost r0 = r@;
                                r.push((name.clone(), found[k].0.clone(), found[k].1));
                                assert(r@.map_values(f) =~= r0.map_values(f).push(f(r@.last())));
                                assert(fv.take(k + 1).map_values(g).map_values(
                                    |q: (Seq<char>, nat)| (name@, q.0, q.1),
                                ) =~= fv.take(k as int).map_values(g).map_values(
                                    |q: (Seq<char>, nat)| (name@, q.0, q.1),
                                ).push((name@, fv[k as int].0@, fv[k as int].1 as nat)));
                                k += 1;
                            }
                            assert(fv.take(k as int) =~= fv);
                        },
                        None => {},
                    }
                },
                SyntaxElement::Token(_) => {},
            }
            i += 1;
        }
        assert(es.take(i as int) =~= es);
        r
    }

    pub fn format(self, root: &SyntaxNode) -> (r: String)
        ensures
            r@ == visit_from(self.spec_config(), root.view(), 0, self.spec_state()).out,
    {
        let ghost cfg = self.config;
        let ghost es = root.view();
        let ghost goal = visit_from(cfg, es, 0, self.spec_state());
        let mut f = self;
        let mut i: usize = 0;
        while i < root.children.len()
            invariant
                i <= root.children.len(),
                es == root.view(),
                f.config == cfg,
                visit_from(cfg, es, i as int, f.spec_state()) == goal,
            decreases root.children.len() - i,
        {
            let ghost s0 = f.spec_state();
            assert(es[i as int] == crate::cst::element_view(root.children@[i as int]));
            match &root.children[i] {
                SyntaxElement::Command(c) => {
                    let name = match c.name() {
                        Some(t) => t.text,
                        None => String::new(),
                    };
                    assert(name@ == command_name_text(c.view()));
                    let mid = is_block_mid_exec(name.as_str());
                    if is_block_close_exec(name.as_str()) || mid {
                        f.indent_level = if f.indent_level > 0 {
                            f.indent_level - 1
                        } else {
                            0
                        };
                    }
                    f.format_command(c);
                    if is_block_open_exec(name.as_str()) || mid {
                        f.indent_level = if f.indent_level < usize::MAX {
                            f.indent_level + 1
                        } else {
                            f.indent_level
                        };
                    }
                },
                SyntaxElement::Token(t) => {
                    if t.kind == SyntaxKind::WHITESPACE {
                        let norm = normalize_whitespace_exec(t.text.as_str());
                        if contains_char(norm.as_str(), '\n') {
                            f.at_line_start = true;
                        }
                        push_str(&mut f.output, norm.as_str());
                    } else {
                        if f.at_line_start {
                            push_indent(&mut f.output, &f.config, f.indent_level);
                            f.at_line_start = false;
                        }
                        push_str(&mut f.output, t.text.as_str());
                    }
                },
            }
            assert(f.spec_state() == visit_step(cfg, s0, es[i as int]));
            i += 1;
        }
        f.output
    }

    /// Writes the body lines, each on a line of its own.
    fn push_lines(&mut self, lines: &Vec<LayoutLine>, from: usize, arg: &str, cont: &str)
        requires
            from <= lines.len(),
        ensures
            final(self).config == old(self).config,
            final(self).indent_level == old(self).indent_level,
            final(self).at_line_start == old(self).at_line_start,
            final(self).output@ == old(self).output@ + render_lines(
                old(self).config,
                lines_view(lines@).skip(from as int),
                arg@,
                cont@,
            ),
    {
        let ghost o0 = self.output@;
        let ghost c0 = self.config;
        let ghost l0 = self.indent_level;
        let ghost a0 = self.at_line_start;
        let ghost lv = lines_view(lines@).skip(from as int);
        let mut k: usize = from;
        assert(lv.take(0) =~= Seq::<LineV>::empty());
        assert(o0 + render_lines(self.config, lv.take(0), arg@, cont@) =~= o0);
        while k < lines.len()
            invariant
                from <= k <= lines.len(),
                lv == lines_view(lines@).skip(from as int),
                self.config == c0,
                self.indent_level == l0,
                self.at_line_start == a0,
                self.output@ == o0 + render_lines(self.config, lv.take(k - from), arg@, cont@),
            decreases lines.len() - k,
        {
            let ghost before = self.output@;
            self.output.push('\n');
            let ind = lines[k].indent;
            if ind == 0 {
                push_str(&mut self.output, arg);
            } else if ind == 1 {
                push_str(&mut self.output, cont);
            } else {
                push_str(&mut self.output, arg);
                push_indent(&mut self.output, &self.config, ind);
            }
            push_str(&mut self.output, lines[k].text.as_str());
            proof {
                let t = lv.take(k + 1 - from);
                assert(t.drop_last() =~= lv.take(k - from));
                assert(t.last() == lines@[k as int].view());
                assert(self.output@ =~= o0 + render_lines(self.config, t, arg@, cont@));
            }
            k += 1;
        }
        assert(lv.take(k - from) =~= lv);
    }

    /// The body lines of a command, and whether its first line stays on the
    /// name's line.
    fn command_lines_exec(&self, name: &str, gap: &str, has_parens: bool, items: &Vec<Item>, head: bool, arg_width: usize) -> (r: (Vec<LayoutLine>, bool))
        requires
            head == head_comment(items_view(items@)) is Some,
        ensures
            lines_view(r.0@) == command_lines(
                self.config,
                name@,
                gap@,
                has_parens,
                items_view(items@),
                arg_width,
            ),
            r.1 == no_break_first(self.config, name@),
    {
        let ghost iv = items_view(items@);
        let threshold = self.config.source_vertical_list_threshold;
        let lw = self.config.line_width;
        let layout_items: &[Item] = if head {
            slice_subrange(items.as_slice(), 1, items.len())
        } else {
            items.as_slice()
        };
        assert(items_view(layout_items@) == if head {
            iv.skip(1)
        } else {
            iv
        }) by {
            if head {
                assert(items_view(layout_items@) =~= iv.skip(1));
            } else {
                assert(items_view(layout_items@) =~= iv);
            }
        }
        match self.config.function_schemas.get(name) {
            Some(s) => {
                let nbf = s.no_break_first_argument;
                let budget = if nbf {
                    let p = byte_len(name).saturating_add(byte_len(gap)).saturating_add(
                        if has_parens {
                            1
                        } else {
                            0
                        },
                    );
                    if lw >= p {
                        lw - p
                    } else {
                        0
                    }
                } else {
                    arg_width
                };
                assert(budget == header_budget(self.config, name@, gap@, has_parens, arg_width));
                (layout_schema_items_exec(threshold, layout_items, s, arg_width, budget), nbf)
            },
            None => (layout_generic_items_exec(threshold, layout_items, arg_width), false),
        }
    }

    /// Writes the body lines and the closing parenthesis.
    fn close_command_exec(&mut self, lines: &Vec<LayoutLine>, base: &str, arg: &str, cont: &str, nbf: bool, head: bool, has_parens: bool)
        ensures
            final(self).config == old(self).config,
            final(self).indent_level == old(self).indent_level,
            final(self).at_line_start == old(self).at_line_start,
            final(self).output@ == close_command(
                old(self).config,
                old(self).output@,
                lines_view(lines@),
                base@,
                arg@,
                cont@,
                nbf,
                head,
                has_parens,
            ),
    {
        let ghost opened = self.output@;
        let ghost lv = lines_view(lines@);
        let lw = self.config.line_width;
        if lines.len() == 0 {
            if has_parens {
                if head {
                    self.output.push('\n');
                    push_str(&mut self.output, base);
                }
                self.output.push(')');
            }
            assert(self.output@ =~= close_command(self.config, opened, lv, base@, arg@, cont@, nbf, head, has_parens));
            return;
        }
        assert(lv[0] == lines@[0].view());
        if nbf && !head && !starts_with(lines[0].text.as_str(), '#') {
            push_str(&mut self.output, lines[0].text.as_str());
            self.push_lines(lines, 1, arg, cont);
            let n = lines.len();
            assert(lv.last() == lines@[n - 1].view());
            let fits = n == 1 && lines[n - 1].indent == 0 && !lines[0].has_comment
                && last_line_len_capped(self.output.as_str(), lw) < lw;
            if fits {
                self.output.push(')');
            } else {
                self.output.push('\n');
                push_str(&mut self.output, base);
                self.output.push(')');
            }
            assert(self.output@ =~= render_no_break_first(self.config, opened, lv, base@, arg@, cont@));
        } else {
            self.push_lines(lines, 0, arg, cont);
            self.output.push('\n');
            push_str(&mut self.output, base);
            self.output.push(')');
            assert(lv.skip(0) =~= lv);
            assert(self.output@ =~= render_block(self.config, opened, lv, base@, arg@, cont@));
        }
    }

    /// Writes one command (nothing when it has no name).
    #[verifier::spinoff_prover]
    #[verifier::rlimit(60)]
    fn format_command(&mut self, node: &CommandNode)
        ensures
            final(self).config == old(self).config,
            final(self).spec_state() == format_command(
                old(self).config,
                old(self).spec_state(),
                node.view(),
            ),
    {
        let ghost tv = node.view();
        let ghost st = self.spec_state();
        let name_tok = match node.name() {
            Some(t) => t,
            None => {
                return;
            },
        };
        let name = name_tok.text.as_str();
        let ts = &node.tokens;
        let has_parens = has_paren_exec(ts);
        let gap = name_paren_gap_exec(ts, name);
        let items = command_items_exec(ts);
        let ghost iv = items_view(items@);
        let head = head_comment_exec(&items);
        let base = indent_string(&self.config, self.indent_level);
        let one = indent_string(&self.config, 1);
        let two = indent_string(&self.config, 2);
        let arg = concat(base.as_str(), one.as_str());
        let cont = concat(base.as_str(), two.as_str());
        let single = single_line_exec(name, gap.as_str(), has_parens, &items);
        let lw = self.config.line_width;
        let bl = byte_len(base.as_str());
        let sl = byte_len(single.as_str());
        if sl <= lw && bl <= lw - sl && !has_comment_item_exec(&items) {
            if self.at_line_start {
                push_str(&mut self.output, base.as_str());
                self.at_line_start = false;
            }
            push_str(&mut self.output, single.as_str());
            return;
        }
        let al = byte_len(arg.as_str());
        let arg_width: usize = if lw >= al {
            lw - al
        } else {
            0
        };
        let (lines, nbf) = self.command_lines_exec(name, gap.as_str(), has_parens, &items, head, arg_width);
        if self.at_line_start {
            push_str(&mut self.output, base.as_str());
            self.at_line_start = false;
        }
        push_str(&mut self.output, name);
        push_str(&mut self.output, gap.as_str());
        if has_parens {
            self.output.push('(');
        }
        if head {
            self.output.push(' ');
            self.output.push(' ');
            assert(items@[0].view() == iv[0]);
            match &items[0] {
                Item::Comment { text, .. } => push_str(&mut self.output, text.as_str()),
                Item::Arg { .. } => {},
            }
        }
        proof {
            let lead = if st.at_start {
                base@
            } else {
                Seq::empty()
            };
            assert(self.output@ =~= st.out + lead + opening(name@, gap@, has_parens, iv));
        }
        self.close_command_exec(&lines, base.as_str(), arg.as_str(), cont.as_str(), nbf, head, has_parens);
    }
}

} // verus!
