//! What the formatter writes, stated over sequences of characters: the
//! indentation of blocks, the whitespace between commands, and the text of
//! each command (on one line when it fits, else laid out line by line).
use crate::config::{Config, IndentStyle};
use crate::cst::{ElementView, TokenView, first_unquoted};
use crate::layout_spec::{
    ItemV, LineV, app, inc, layout_generic_items, layout_schema_items, sat_sub,
};
use crate::schema::registry_key;
use crate::syntax::SyntaxKind;
use crate::text::{
    blen, count_char, eq_ignore_case, repeat_char, seq_contains_char, starts_with_char,
    trim_end_seq, unicode_lowercase,
};
use vstd::prelude::*;

verus! {

// ---------------------------------------------------------------------------
// Blocks
// ---------------------------------------------------------------------------
/// A command that opens a block (its body is indented one level deeper).
pub open spec fn is_block_open(name: Seq<char>) -> bool {
    ||| eq_ignore_case(name, "if"@)
    ||| eq_ignore_case(name, "foreach"@)
    ||| eq_ignore_case(name, "while"@)
    ||| eq_ignore_case(name, "function"@)
    ||| eq_ignore_case(name, "macro"@)
    ||| eq_ignore_case(name, "block"@)
}

/// A command that closes a block.
pub open spec fn is_block_close(name: Seq<char>) -> bool {
    ||| eq_ignore_case(name, "endif"@)
    ||| eq_ignore_case(name, "endforeach"@)
    ||| eq_ignore_case(name, "endwhile"@)
    ||| eq_ignore_case(name, "endfunction"@)
    ||| eq_ignore_case(name, "endmacro"@)
    ||| eq_ignore_case(name, "endblock"@)
}

/// A command in the middle of a block (`else`, `elseif`): it sits one level
/// out, and what follows it one level in.
pub open spec fn is_block_mid(name: Seq<char>) -> bool {
    eq_ignore_case(name, "elseif"@) || eq_ignore_case(name, "else"@)
}

/// The indentation of `level` levels.
pub open spec fn indent_text(cfg: Config, level: nat) -> Seq<char> {
    match cfg.indent_style {
        IndentStyle::Space => repeat_char(' ', (cfg.indent_width * level) as nat),
        IndentStyle::Tab => repeat_char('\t', level),
    }
}

// ---------------------------------------------------------------------------
// Whitespace between commands
// ---------------------------------------------------------------------------
/// Scanning `s`: the text kept so far and the spaces and tabs not yet known
/// to be followed by something other than a line break.
pub open spec fn norm_acc(s: Seq<char>) -> (Seq<char>, Seq<char>)
    decreases s.len(),
{
    if s.len() == 0 {
        (Seq::empty(), Seq::empty())
    } else {
        let (kept, pending) = norm_acc(s.drop_last());
        let c = s.last();
        if c == ' ' || c == '\t' {
            (kept, pending.push(c))
        } else if c == '\n' || c == '\r' {
            (kept.push(c), Seq::empty())
        } else {
            ((kept + pending).push(c), Seq::empty())
        }
    }
}

/// Whitespace that spans lines loses the spaces and tabs at the end of each
/// line and at its end (the next line's indentation is written anew);
/// whitespace within a line stays as it is.
pub open spec fn normalize_whitespace(s: Seq<char>) -> Seq<char> {
    if !seq_contains_char(s, '\n') && !seq_contains_char(s, '\r') {
        s
    } else {
        norm_acc(s).0
    }
}

// ---------------------------------------------------------------------------
// The items of a command
// ---------------------------------------------------------------------------
pub struct ItemsState {
    pub skipped: bool,
    pub depth: nat,
    pub last_newline: bool,
    pub concat: bool,
    pub next_index: nat,
    pub line_first: Option<usize>,
    pub source_line: usize,
    pub items: Seq<ItemV>,
}

pub open spec fn items_start() -> ItemsState {
    ItemsState {
        skipped: false,
        depth: 0,
        last_newline: true,
        concat: false,
        next_index: 0,
        line_first: None,
        source_line: 0,
        items: Seq::empty(),
    }
}

/// A new argument: numbered in order; the first of its source line is
/// remembered for the trailing comments of that line.
pub open spec fn push_arg(st: ItemsState, text: Seq<char>) -> ItemsState {
    let index = st.next_index as usize;
    ItemsState {
        line_first: if st.line_first is None {
            Some(index)
        } else {
            st.line_first
        },
        next_index: st.next_index + 1,
        items: st.items.push(ItemV::Arg { text, index, source_line: st.source_line }),
        ..st
    }
}

/// `text` glued onto the last item when it is an argument.
pub open spec fn extend_last(items: Seq<ItemV>, text: Seq<char>) -> Seq<ItemV> {
    if items.len() > 0 && items.last() is Arg {
        match items.last() {
            ItemV::Arg { text: t, index, source_line } => items.update(
                items.len() - 1,
                ItemV::Arg { text: t + text, index, source_line },
            ),
            _ => items,
        }
    } else {
        items
    }
}

/// The text of the last argument among `items`.
pub open spec fn last_arg_text(items: Seq<ItemV>) -> Option<Seq<char>>
    decreases items.len(),
{
    if items.len() == 0 {
        None
    } else {
        match items.last() {
            ItemV::Arg { text, .. } => Some(text),
            _ => last_arg_text(items.drop_last()),
        }
    }
}

/// One token of a command: the name and the outer parentheses are skipped;
/// inner parentheses are arguments; adjacent argument tokens with no
/// whitespace between them form one argument; a comment is trailing when
/// no line break came before it.
pub open spec fn items_step(st: ItemsState, tok: TokenView) -> ItemsState {
    let k = tok.0;
    let t = tok.1;
    if k == SyntaxKind::WHITESPACE {
        let nl = seq_contains_char(t, '\n');
        let lines = count_char(t, '\n');
        ItemsState {
            last_newline: nl,
            concat: false,
            line_first: if nl {
                None
            } else {
                st.line_first
            },
            source_line: if !nl {
                st.source_line
            } else if st.source_line + lines <= usize::MAX {
                (st.source_line + lines) as usize
            } else {
                usize::MAX
            },
            ..st
        }
    } else if k == SyntaxKind::UNQUOTED_ARGUMENT && !st.skipped {
        ItemsState { skipped: true, last_newline: false, ..st }
    } else if k == SyntaxKind::L_PAREN && st.depth == 0 {
        ItemsState { depth: 1, last_newline: false, ..st }
    } else if k == SyntaxKind::L_PAREN {
        ItemsState {
            last_newline: false,
            concat: false,
            ..push_arg(ItemsState { depth: st.depth + 1, ..st }, t)
        }
    } else if k == SyntaxKind::R_PAREN && st.depth == 1 {
        ItemsState { depth: 0, last_newline: false, ..st }
    } else if k == SyntaxKind::R_PAREN {
        ItemsState {
            last_newline: false,
            concat: false,
            ..push_arg(ItemsState { depth: sat_sub(st.depth as int, 1) as nat, ..st }, t)
        }
    } else if k == SyntaxKind::COMMENT {
        let trailing = !st.last_newline;
        ItemsState {
            last_newline: false,
            concat: false,
            items: st.items.push(
                ItemV::Comment {
                    text: trim_end_seq(t),
                    trailing,
                    target_arg: if trailing {
                        st.line_first
                    } else {
                        None
                    },
                    previous_arg: if trailing {
                        last_arg_text(st.items)
                    } else {
                        None
                    },
                },
            ),
            ..st
        }
    } else if st.concat {
        ItemsState { last_newline: false, concat: true, items: extend_last(st.items, t), ..st }
    } else {
        ItemsState { last_newline: false, concat: true, ..push_arg(st, t) }
    }
}

pub open spec fn items_from(ts: Seq<TokenView>, i: int, st: ItemsState) -> ItemsState
    decreases ts.len() - i,
{
    if i < 0 || i >= ts.len() {
        st
    } else {
        items_from(ts, i + 1, items_step(st, ts[i]))
    }
}

/// The arguments and comments of a command, in source order.
pub open spec fn command_items(ts: Seq<TokenView>) -> Seq<ItemV> {
    items_from(ts, 0, items_start()).items
}

/// A comment on the line of the opening parenthesis, before any argument.
pub open spec fn head_comment(items: Seq<ItemV>) -> Option<Seq<char>> {
    if items.len() > 0 {
        match items[0] {
            ItemV::Comment { text, trailing, target_arg, .. } => if trailing && target_arg is None {
                Some(text)
            } else {
                None
            },
            _ => None,
        }
    } else {
        None
    }
}

pub open spec fn has_comment_item(items: Seq<ItemV>) -> bool {
    exists|i: int| 0 <= i < items.len() && items[i] is Comment
}

// ---------------------------------------------------------------------------
// The text of a command
// ---------------------------------------------------------------------------
pub open spec fn is_control_flow(lower: Seq<char>) -> bool {
    ||| lower == "if"@
    ||| lower == "elseif"@
    ||| lower == "else"@
    ||| lower == "endif"@
    ||| lower == "foreach"@
    ||| lower == "endforeach"@
    ||| lower == "while"@
    ||| lower == "endwhile"@
    ||| lower == "block"@
    ||| lower == "endblock"@
}

/// What stands between the name and `(`: one space for control flow, else
/// the whitespace that stood there in the source, if any.
pub open spec fn name_paren_gap(ts: Seq<TokenView>, name: Seq<char>) -> Seq<char> {
    if is_control_flow(unicode_lowercase(name)) {
        seq![' ']
    } else {
        match first_unquoted(ts, 0) {
            Some(i) => if i + 1 < ts.len() && ts[i + 1].0 == SyntaxKind::WHITESPACE {
                ts[i + 1].1
            } else {
                Seq::empty()
            },
            None => Seq::empty(),
        }
    }
}

pub open spec fn has_paren(ts: Seq<TokenView>) -> bool {
    exists|i: int| 0 <= i < ts.len() && ts[i].0 == SyntaxKind::L_PAREN
}

pub open spec fn single_from(items: Seq<ItemV>, i: int, acc: Seq<char>) -> Seq<char>
    decreases items.len() - i,
{
    if i < 0 || i >= items.len() {
        acc
    } else {
        let next = match items[i] {
            ItemV::Arg { text, .. } => if i == 0 {
                acc + text
            } else {
                app(acc, text)
            },
            ItemV::Comment { text, .. } => if i > 0 {
                acc.push(' ') + text
            } else {
                acc + text
            },
        };
        single_from(items, i + 1, next)
    }
}

pub open spec fn opt_char(b: bool, c: char) -> Seq<char> {
    if b {
        seq![c]
    } else {
        Seq::empty()
    }
}

/// The command on one line.
pub open spec fn single_line(name: Seq<char>, gap: Seq<char>, has_parens: bool, items: Seq<ItemV>) -> Seq<char> {
    single_from(items, 0, name + gap + opt_char(has_parens, '(')) + opt_char(has_parens, ')')
}

/// The indentation of a body line at extra level `indent`.
pub open spec fn layout_indent(cfg: Config, indent: usize, arg: Seq<char>, cont: Seq<char>) -> Seq<char> {
    if indent == 0 {
        arg
    } else if indent == 1 {
        cont
    } else {
        arg + indent_text(cfg, indent as nat)
    }
}

/// Each line on a line of its own, indented.
pub open spec fn render_lines(cfg: Config, lines: Seq<LineV>, arg: Seq<char>, cont: Seq<char>) -> Seq<char>
    decreases lines.len(),
{
    if lines.len() == 0 {
        Seq::empty()
    } else {
        render_lines(cfg, lines.drop_last(), arg, cont) + seq!['\n'] + layout_indent(
            cfg,
            lines.last().indent,
            arg,
            cont,
        ) + lines.last().text
    }
}

/// The text after the last line break.
pub open spec fn last_line(s: Seq<char>) -> Seq<char>
    decreases s.len(),
{
    if s.len() == 0 {
        s
    } else if s.last() == '\n' {
        Seq::empty()
    } else {
        last_line(s.drop_last()).push(s.last())
    }
}

/// The body below the opening line, the closing parenthesis under the name.
pub open spec fn render_block(cfg: Config, out: Seq<char>, lines: Seq<LineV>, base: Seq<char>, arg: Seq<char>, cont: Seq<char>) -> Seq<char> {
    out + render_lines(cfg, lines, arg, cont) + seq!['\n'] + base + seq![')']
}

/// The first line glued to the opening parenthesis; the closing parenthesis
/// right after a lone flat line when it fits, else under the name.
pub open spec fn render_no_break_first(cfg: Config, out: Seq<char>, lines: Seq<LineV>, base: Seq<char>, arg: Seq<char>, cont: Seq<char>) -> Seq<char> {
    let o = out + lines[0].text + render_lines(cfg, lines.skip(1), arg, cont);
    if blen(last_line(o)) < cfg.line_width && lines.last().indent == 0 && !lines[0].has_comment
        && lines.len() == 1 {
        o + seq![')']
    } else {
        o + seq!['\n'] + base + seq![')']
    }
}

/// The formatter's state: what was written, the block level, and whether
/// the next token starts a line.
pub struct FmtState {
    pub out: Seq<char>,
    pub level: usize,
    pub at_start: bool,
}

/// The command's schema asks for its first line to stay on the name's line.
pub open spec fn no_break_first(cfg: Config, name: Seq<char>) -> bool {
    cfg.function_schemas.lookup(registry_key(name)) matches Some(s) && s.no_break_first_argument
}

/// The width left for the first line: after the name, the gap and `(` when
/// it stays on the name's line, else the width of every body line.
pub open spec fn header_budget(cfg: Config, name: Seq<char>, gap: Seq<char>, has_parens: bool, arg_width: usize) -> usize {
    if no_break_first(cfg, name) {
        sat_sub(
            cfg.line_width as int,
            blen(name) + blen(gap) + if has_parens {
                1int
            } else {
                0int
            },
        ) as usize
    } else {
        arg_width
    }
}

/// The body lines of a command: laid out by its schema when it has one,
/// else by the generic layout; a head comment is left out (it goes on the
/// name's line).
pub open spec fn command_lines(cfg: Config, name: Seq<char>, gap: Seq<char>, has_parens: bool, items: Seq<ItemV>, arg_width: usize) -> Seq<LineV> {
    let layout_items = if head_comment(items) is Some {
        items.skip(1)
    } else {
        items
    };
    let threshold = cfg.source_vertical_list_threshold;
    match cfg.function_schemas.lookup(registry_key(name)) {
        Some(s) => layout_schema_items(
            threshold,
            layout_items,
            s,
            arg_width,
            header_budget(cfg, name, gap, has_parens, arg_width),
        ),
        None => layout_generic_items(threshold, layout_items, arg_width),
    }
}

/// `out` (ending with the opening line) followed by the body lines and the
/// closing parenthesis.
pub open spec fn close_command(cfg: Config, opened: Seq<char>, lines: Seq<LineV>, base: Seq<char>, arg: Seq<char>, cont: Seq<char>, nbf: bool, head: bool, has_parens: bool) -> Seq<char> {
    if lines.len() == 0 {
        if has_parens {
            opened + (if head {
                seq!['\n'] + base
            } else {
                Seq::empty()
            }) + seq![')']
        } else {
            opened
        }
    } else if nbf && !head && !starts_with_char(lines[0].text, '#') {
        render_no_break_first(cfg, opened, lines, base, arg, cont)
    } else {
        render_block(cfg, opened, lines, base, arg, cont)
    }
}

/// The opening line: the name, the gap, `(` and a head comment.
pub open spec fn opening(name: Seq<char>, gap: Seq<char>, has_parens: bool, items: Seq<ItemV>) -> Seq<char> {
    name + gap + opt_char(has_parens, '(') + match head_comment(items) {
        Some(c) => seq![' ', ' '] + c,
        None => Seq::empty(),
    }
}

/// One command, written after `st.out`.
pub open spec fn format_command(cfg: Config, st: FmtState, ts: Seq<TokenView>) -> FmtState {
    match first_unquoted(ts, 0) {
        None => st,
        Some(ni) => {
            let name = ts[ni].1;
            let has_parens = has_paren(ts);
            let gap = name_paren_gap(ts, name);
            let items = command_items(ts);
            let base = indent_text(cfg, st.level as nat);
            let arg = base + indent_text(cfg, 1);
            let cont = base + indent_text(cfg, 2);
            let single = single_line(name, gap, has_parens, items);
            let lead = if st.at_start {
                base
            } else {
                Seq::empty()
            };
            if blen(base) + blen(single) <= cfg.line_width && !has_comment_item(items) {
                FmtState { out: st.out + lead + single, level: st.level, at_start: false }
            } else {
                let arg_width = sat_sub(cfg.line_width as int, blen(arg) as int) as usize;
                let lines = command_lines(cfg, name, gap, has_parens, items, arg_width);
                let out = close_command(
                    cfg,
                    st.out + lead + opening(name, gap, has_parens, items),
                    lines,
                    base,
                    arg,
                    cont,
                    no_break_first(cfg, name),
                    head_comment(items) is Some,
                    has_parens,
                );
                FmtState { out, level: st.level, at_start: false }
            }
        },
    }
}

/// A command without comments whose one-line form fits within the width
/// (after the indentation of its block) is written on that one line: the
/// indentation when it starts a line, then the name, the gap, `(`, its items
/// and `)`.
pub proof fn law_fitting_command_one_line(cfg: Config, st: FmtState, ts: Seq<TokenView>)
    requires
        first_unquoted(ts, 0) is Some,
    ensures
        ({
            let name = ts[first_unquoted(ts, 0)->0].1;
            let single = single_line(name, name_paren_gap(ts, name), has_paren(ts), command_items(ts));
            let lead = if st.at_start {
                indent_text(cfg, st.level as nat)
            } else {
                Seq::empty()
            };
            (blen(indent_text(cfg, st.level as nat)) + blen(single) <= cfg.line_width
                && !has_comment_item(command_items(ts))) ==> format_command(cfg, st, ts).out == st.out + lead
                + single
        }),
{
}

/// Two texts equal but for the case of ASCII letters have the same first
/// letter, but for case.
proof fn lemma_first_lower(name: Seq<char>, w: Seq<char>)
    ensures
        eq_ignore_case(name, w) && w.len() > 0 ==> crate::text::ascii_lower_char(name[0])
            == crate::text::ascii_lower_char(w[0]),
{
}

/// `s` at block level `l`.
pub open spec fn with_level(s: FmtState, l: usize) -> FmtState {
    FmtState { level: l, ..s }
}

proof fn lemma_command_level(cfg: Config, st: FmtState, ts: Seq<TokenView>)
    ensures
        format_command(cfg, st, ts).level == st.level,
{
}

/// Block indentation: a command that opens a block (`if`, `foreach`,
/// `while`, `function`, `macro`, `block`, in any case) is written at the
/// current level and what follows it one level deeper; a command that closes
/// one (`endif`, `endforeach`, `endwhile`, `endfunction`, `endmacro`,
/// `endblock`) is written one level out and what follows stays there; `else`
/// and `elseif` are written one level out and what follows them goes back in.
pub proof fn law_block_levels(cfg: Config, st: FmtState, ts: Seq<TokenView>)
    ensures
        eq_ignore_case(command_name_text(ts), "if"@) ==> visit_step(cfg, st, ElementView::Command(ts))
            == with_level(format_command(cfg, st, ts), crate::layout_spec::inc(st.level)),
        eq_ignore_case(command_name_text(ts), "foreach"@) ==> visit_step(cfg, st, ElementView::Command(ts))
            == with_level(format_command(cfg, st, ts), crate::layout_spec::inc(st.level)),
        eq_ignore_case(command_name_text(ts), "while"@) ==> visit_step(cfg, st, ElementView::Command(ts))
            == with_level(format_command(cfg, st, ts), crate::layout_spec::inc(st.level)),
        eq_ignore_case(command_name_text(ts), "function"@) ==> visit_step(cfg, st, ElementView::Command(ts))
            == with_level(format_command(cfg, st, ts), crate::layout_spec::inc(st.level)),
        eq_ignore_case(command_name_text(ts), "macro"@) ==> visit_step(cfg, st, ElementView::Command(ts))
            == with_level(format_command(cfg, st, ts), crate::layout_spec::inc(st.level)),
        eq_ignore_case(command_name_text(ts), "block"@) ==> visit_step(cfg, st, ElementView::Command(ts))
            == with_level(format_command(cfg, st, ts), crate::layout_spec::inc(st.level)),
        eq_ignore_case(command_name_text(ts), "endif"@) ==> visit_step(cfg, st, ElementView::Command(ts))
            == format_command(cfg, with_level(st, sat_sub(st.level as int, 1) as usize), ts),
        eq_ignore_case(command_name_text(ts), "endforeach"@) ==> visit_step(cfg, st, ElementView::Command(ts))
            == format_command(cfg, with_level(st, sat_sub(st.level as int, 1) as usize), ts),
        eq_ignore_case(command_name_text(ts), "endwhile"@) ==> visit_step(cfg, st, ElementView::Command(ts))
            == format_command(cfg, with_level(st, sat_sub(st.level as int, 1) as usize), ts),
        eq_ignore_case(command_name_text(ts), "endfunction"@) ==> visit_step(cfg, st, ElementView::Command(ts))
            == format_command(cfg, with_level(st, sat_sub(st.level as int, 1) as usize), ts),
        eq_ignore_case(command_name_text(ts), "endmacro"@) ==> visit_step(cfg, st, ElementView::Command(ts))
            == format_command(cfg, with_level(st, sat_sub(st.level as int, 1) as usize), ts),
        eq_ignore_case(command_name_text(ts), "endblock"@) ==> visit_step(cfg, st, ElementView::Command(ts))
            == format_command(cfg, with_level(st, sat_sub(st.level as int, 1) as usize), ts),
        eq_ignore_case(command_name_text(ts), "elseif"@) ==> visit_step(cfg, st, ElementView::Command(ts))
            == with_level(
            format_command(cfg, with_level(st, sat_sub(st.level as int, 1) as usize), ts),
            crate::layout_spec::inc(sat_sub(st.level as int, 1) as usize),
        ),
        eq_ignore_case(command_name_text(ts), "else"@) ==> visit_step(cfg, st, ElementView::Command(ts))
            == with_level(
            format_command(cfg, with_level(st, sat_sub(st.level as int, 1) as usize), ts),
            crate::layout_spec::inc(sat_sub(st.level as int, 1) as usize),
        ),
{
        reveal_strlit("if");
        reveal_strlit("foreach");
        reveal_strlit("while");
        reveal_strlit("function");
        reveal_strlit("macro");
        reveal_strlit("block");
        reveal_strlit("endif");
        reveal_strlit("endforeach");
        reveal_strlit("endwhile");
        reveal_strlit("endfunction");
        reveal_strlit("endmacro");
        reveal_strlit("endblock");
        reveal_strlit("elseif");
        reveal_strlit("else");
    let name = command_name_text(ts);
    if name.len() > 0 {
        lemma_first_lower(name, "if"@);
        lemma_first_lower(name, "foreach"@);
        lemma_first_lower(name, "while"@);
        lemma_first_lower(name, "function"@);
        lemma_first_lower(name, "macro"@);
        lemma_first_lower(name, "block"@);
        lemma_first_lower(name, "endif"@);
        lemma_first_lower(name, "endforeach"@);
        lemma_first_lower(name, "endwhile"@);
        lemma_first_lower(name, "endfunction"@);
        lemma_first_lower(name, "endmacro"@);
        lemma_first_lower(name, "endblock"@);
        lemma_first_lower(name, "elseif"@);
        lemma_first_lower(name, "else"@);
    }
    lemma_command_level(cfg, st, ts);
    lemma_command_level(cfg, with_level(st, sat_sub(st.level as int, 1) as usize), ts);
}

/// The name of a command (empty when it has none).
pub open spec fn command_name_text(ts: Seq<TokenView>) -> Seq<char> {
    match first_unquoted(ts, 0) {
        Some(i) => ts[i].1,
        None => Seq::empty(),
    }
}

/// One child of the root: a command (with the block level adjusted around
/// it), or a token between commands.
pub open spec fn visit_step(cfg: Config, st: FmtState, e: ElementView) -> FmtState {
    match e {
        ElementView::Command(ts) => {
            let name = command_name_text(ts);
            let level = if is_block_close(name) || is_block_mid(name) {
                sat_sub(st.level as int, 1) as usize
            } else {
                st.level
            };
            let st2 = format_command(cfg, FmtState { level, ..st }, ts);
            FmtState {
                level: if is_block_open(name) || is_block_mid(name) {
                    inc(st2.level)
                } else {
                    st2.level
                },
                ..st2
            }
        },
        ElementView::Token(k, t) => {
            if k == SyntaxKind::WHITESPACE {
                let norm = normalize_whitespace(t);
                FmtState {
                    out: st.out + norm,
                    level: st.level,
                    at_start: if seq_contains_char(norm, '\n') {
                        true
                    } else {
                        st.at_start
                    },
                }
            } else {
                let lead = if st.at_start {
                    indent_text(cfg, st.level as nat)
                } else {
                    Seq::empty()
                };
                FmtState { out: st.out + lead + t, level: st.level, at_start: false }
            }
        },
    }
}

pub open spec fn visit_from(cfg: Config, es: Seq<ElementView>, i: int, st: FmtState) -> FmtState
    decreases es.len() - i,
{
    if i < 0 || i >= es.len() {
        st
    } else {
        visit_from(cfg, es, i + 1, visit_step(cfg, st, es[i]))
    }
}

/// The formatted text of a file, from a fresh state.
pub open spec fn format_text(cfg: Config, es: Seq<ElementView>) -> Seq<char> {
    visit_from(cfg, es, 0, FmtState { out: Seq::empty(), level: 0, at_start: true }).out
}

// ---------------------------------------------------------------------------
// What formatting keeps
// ---------------------------------------------------------------------------
pub open spec fn is_blank(c: char) -> bool {
    c == ' ' || c == '\t' || c == '\n' || c == '\r'
}

/// The characters of `s` other than spaces, tabs and line breaks.
pub open spec fn non_blank(s: Seq<char>) -> Seq<char>
    decreases s.len(),
{
    if s.len() == 0 {
        s
    } else if is_blank(s.last()) {
        non_blank(s.drop_last())
    } else {
        non_blank(s.drop_last()).push(s.last())
    }
}

pub proof fn lemma_non_blank_concat(a: Seq<char>, b: Seq<char>)
    ensures
        non_blank(a + b) == non_blank(a) + non_blank(b),
    decreases b.len(),
{
    if b.len() == 0 {
        assert(a + b =~= a);
        assert(non_blank(b) =~= Seq::<char>::empty());
        assert(non_blank(a) + non_blank(b) =~= non_blank(a));
    } else {
        assert((a + b).drop_last() =~= a + b.drop_last());
        assert((a + b).last() == b.last());
        lemma_non_blank_concat(a, b.drop_last());
        if !is_blank(b.last()) {
            assert(non_blank(a) + non_blank(b.drop_last()).push(b.last()) =~= (non_blank(a)
                + non_blank(b.drop_last())).push(b.last()));
        }
    }
}

proof fn lemma_norm_acc(s: Seq<char>)
    ensures
        non_blank(norm_acc(s).0) == non_blank(s),
        non_blank(norm_acc(s).1) == Seq::<char>::empty(),
    decreases s.len(),
{
    if s.len() > 0 {
        let (kept, pending) = norm_acc(s.drop_last());
        lemma_norm_acc(s.drop_last());
        let c = s.last();
        if c == ' ' || c == '\t' {
            assert(pending.push(c).drop_last() =~= pending);
        } else if c == '\n' || c == '\r' {
            assert(kept.push(c).drop_last() =~= kept);
            assert(non_blank(Seq::<char>::empty()) =~= Seq::<char>::empty());
        } else {
            assert((kept + pending).push(c).drop_last() =~= kept + pending);
            lemma_non_blank_concat(kept, pending);
            assert(non_blank(kept) + non_blank(pending) =~= non_blank(kept));
            assert(non_blank(Seq::<char>::empty()) =~= Seq::<char>::empty());
        }
    }
}

/// Normalizing whitespace drops only spaces and tabs.
pub proof fn law_normalize_keeps_non_blank(s: Seq<char>)
    ensures
        non_blank(normalize_whitespace(s)) == non_blank(s),
{
    lemma_norm_acc(s);
}

/// A space or a tab.
pub open spec fn is_space_or_tab(c: char) -> bool {
    c == ' ' || c == '\t'
}

/// No space or tab stands right before a line break in `t`.
pub open spec fn no_space_before_break(t: Seq<char>) -> bool {
    forall|i: int| 0 <= i < t.len() - 1 && is_space_or_tab(#[trigger] t[i]) ==> !(t[i + 1] == '\n' || t[i + 1] == '\r')
}

/// What the scan keeps has no space or tab before a break nor at its end,
/// and what it holds back is spaces and tabs.
proof fn lemma_norm_acc_shape(s: Seq<char>)
    ensures
        no_space_before_break(norm_acc(s).0),
        norm_acc(s).0.len() > 0 ==> !is_space_or_tab(norm_acc(s).0.last()),
        forall|i: int| 0 <= i < norm_acc(s).1.len() ==> is_space_or_tab(#[trigger] norm_acc(s).1[i]),
    decreases s.len(),
{
    if s.len() > 0 {
        lemma_norm_acc_shape(s.drop_last());
        let (kept, pending) = norm_acc(s.drop_last());
        let c = s.last();
        if c == ' ' || c == '\t' {
            assert forall|i: int| 0 <= i < pending.push(c).len() implies is_space_or_tab(#[trigger] pending.push(c)[i]) by {
                if i < pending.len() {
                    assert(pending.push(c)[i] == pending[i]);
                }
            }
        } else if c == '\n' || c == '\r' {
            let k2 = kept.push(c);
            assert forall|i: int| 0 <= i < k2.len() - 1 && is_space_or_tab(#[trigger] k2[i]) implies !(k2[i + 1] == '\n'
                || k2[i + 1] == '\r') by {
                assert(k2[i] == kept[i]);
                if i + 1 < kept.len() {
                    assert(k2[i + 1] == kept[i + 1]);
                } else {
                    assert(kept.last() == kept[i]);
                }
            }
        } else {
            let k2 = (kept + pending).push(c);
            assert forall|i: int| 0 <= i < k2.len() - 1 && is_space_or_tab(#[trigger] k2[i]) implies !(k2[i + 1] == '\n'
                || k2[i + 1] == '\r') by {
                if i < kept.len() {
                    assert(k2[i] == kept[i]);
                    if i + 1 < kept.len() {
                        assert(k2[i + 1] == kept[i + 1]);
                    } else if pending.len() > 0 {
                        assert(k2[i + 1] == pending[0]);
                    } else {
                        assert(k2[i + 1] == c);
                    }
                } else {
                    assert(k2[i] == pending[i - kept.len()]);
                    if i + 1 < kept.len() + pending.len() {
                        assert(k2[i + 1] == pending[i + 1 - kept.len()]);
                    } else {
                        assert(k2[i + 1] == c);
                    }
                }
            }
        }
    }
}

/// On text with no space or tab before a break, the scan keeps everything
/// but the final run of spaces and tabs, which it holds back.
proof fn lemma_norm_acc_clean(t: Seq<char>)
    requires
        no_space_before_break(t),
    ensures
        norm_acc(t).0 + norm_acc(t).1 == t,
        norm_acc(t).1.len() > 0 ==> is_space_or_tab(t.last()),
    decreases t.len(),
{
    if t.len() == 0 {
        assert(Seq::<char>::empty() + Seq::<char>::empty() =~= t);
    } else {
        let u = t.drop_last();
        assert forall|i: int| 0 <= i < u.len() - 1 && is_space_or_tab(#[trigger] u[i]) implies !(u[i + 1] == '\n'
            || u[i + 1] == '\r') by {
            assert(u[i] == t[i]);
            assert(u[i + 1] == t[i + 1]);
        }
        lemma_norm_acc_clean(u);
        lemma_norm_acc_shape(u);
        let (kept, pending) = norm_acc(u);
        let c = t.last();
        assert(t =~= u.push(c));
        if c == ' ' || c == '\t' {
            assert(kept + pending.push(c) =~= (kept + pending).push(c));
        } else if c == '\n' || c == '\r' {
            if pending.len() > 0 {
                assert(is_space_or_tab(u.last()));
                assert(u.last() == t[t.len() - 2]);
                assert(t[t.len() - 1] == c);
            }
            assert(pending =~= Seq::<char>::empty());
            assert(kept =~= u);
            assert(kept.push(c) + Seq::<char>::empty() =~= t);
        } else {
            assert((kept + pending).push(c) + Seq::<char>::empty() =~= t);
        }
    }
}

/// Normalizing whitespace twice gives what normalizing it once gives: the
/// whitespace between commands is at its fixed point after one pass.
pub proof fn law_normalize_idempotent(s: Seq<char>)
    ensures
        normalize_whitespace(normalize_whitespace(s)) == normalize_whitespace(s),
{
    if seq_contains_char(s, '\n') || seq_contains_char(s, '\r') {
        let t = norm_acc(s).0;
        lemma_norm_acc_shape(s);
        lemma_norm_acc_clean(t);
        lemma_norm_acc_keeps_breaks(s);
        if norm_acc(t).1.len() > 0 {
            assert(t.len() > 0);
        }
        assert(norm_acc(t).1 =~= Seq::<char>::empty());
        assert(norm_acc(t).0 =~= t);
    }
}

/// The line breaks (`\n` and `\r`) of `s`, in order.
pub open spec fn breaks_of(s: Seq<char>) -> Seq<char>
    decreases s.len(),
{
    if s.len() == 0 {
        Seq::empty()
    } else if s.last() == '\n' || s.last() == '\r' {
        breaks_of(s.drop_last()).push(s.last())
    } else {
        breaks_of(s.drop_last())
    }
}

/// Text made only of spaces, tabs and line breaks (a whitespace token).
pub open spec fn all_whitespace(s: Seq<char>) -> bool {
    forall|i: int| 0 <= i < s.len() ==> is_space_or_tab(#[trigger] s[i]) || s[i] == '\n' || s[i] == '\r'
}

proof fn lemma_norm_acc_whitespace(s: Seq<char>)
    requires
        all_whitespace(s),
    ensures
        norm_acc(s).0 == breaks_of(s),
    decreases s.len(),
{
    if s.len() > 0 {
        assert(all_whitespace(s.drop_last())) by {
            assert forall|i: int| 0 <= i < s.drop_last().len() implies is_space_or_tab(#[trigger] s.drop_last()[i])
                || s.drop_last()[i] == '\n' || s.drop_last()[i] == '\r' by {
                assert(s.drop_last()[i] == s[i]);
            }
        }
        lemma_norm_acc_whitespace(s.drop_last());
        assert(is_space_or_tab(s[s.len() - 1]) || s[s.len() - 1] == '\n' || s[s.len() - 1] == '\r');
    }
}

/// Whitespace between commands: when it spans lines, only its line breaks
/// stay; within a line it stays as it is. So `" \n    "` becomes `"\n"` and
/// `"   "` stays.
pub proof fn law_normalize_whitespace_token(s: Seq<char>)
    requires
        all_whitespace(s),
    ensures
        normalize_whitespace(s) == if seq_contains_char(s, '\n') || seq_contains_char(s, '\r') {
            breaks_of(s)
        } else {
            s
        },
{
    lemma_norm_acc_whitespace(s);
}

/// The scan keeps a line break of `s`.
proof fn lemma_norm_acc_keeps_breaks(s: Seq<char>)
    requires
        seq_contains_char(s, '\n') || seq_contains_char(s, '\r'),
    ensures
        seq_contains_char(norm_acc(s).0, '\n') || seq_contains_char(norm_acc(s).0, '\r'),
    decreases s.len(),
{
    let c = s.last();
    let u = s.drop_last();
    let (kept, pending) = norm_acc(u);
    if c == '\n' || c == '\r' {
        assert(kept.push(c)[kept.len() as int] == c);
    } else {
        let i = choose|i: int| 0 <= i < s.len() && (s[i] == '\n' || s[i] == '\r');
        assert(i < s.len() - 1);
        assert(u[i] == s[i]);
        if s[i] == '\n' {
            assert(seq_contains_char(u, '\n'));
        } else {
            assert(seq_contains_char(u, '\r'));
        }
        lemma_norm_acc_keeps_breaks(u);
        if c == ' ' || c == '\t' {
        } else {
            let k2 = (kept + pending).push(c);
            if seq_contains_char(kept, '\n') {
                let j = choose|j: int| 0 <= j < kept.len() && kept[j] == '\n';
                assert(k2[j] == '\n');
            } else {
                let j = choose|j: int| 0 <= j < kept.len() && kept[j] == '\r';
                assert(k2[j] == '\r');
            }
        }
    }
}

} // verus!
