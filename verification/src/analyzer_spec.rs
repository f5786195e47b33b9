//! What the schema discovery finds, stated over the commands of a file:
//! the variables that a function body sets, how an argument resolves
//! against them, and the `cmake_parse_arguments` calls of each function or
//! macro.
use crate::cst::{ElementView, TokenView, args_from};
use crate::format_spec::command_name_text;
use crate::syntax::SyntaxKind;
use crate::text::{eq_ignore_case, trim_seq, unicode_lowercase, unicode_uppercase};
use vstd::prelude::*;

verus! {

/// Variables set in a function body: their values, and whether every part
/// of them could be resolved.
pub type Locals = Map<Seq<char>, (Seq<Seq<char>>, bool)>;

/// The current value of each `foreach` loop variable, and whether the items
/// it runs over all resolved.
pub type IterVars = Map<Seq<char>, (Seq<char>, bool)>;

/// The map that a list of (key, value) pairs builds when inserted in order.
pub open spec fn pairs_map<V>(v: Seq<(Seq<char>, V)>) -> Map<Seq<char>, V>
    decreases v.len(),
{
    if v.len() == 0 {
        Map::empty()
    } else {
        pairs_map(v.drop_last()).insert(v.last().0, v.last().1)
    }
}

// ---------------------------------------------------------------------------
// Commands
// ---------------------------------------------------------------------------
/// The command nodes among the children of the root.
pub open spec fn root_commands(es: Seq<ElementView>) -> Seq<Seq<TokenView>>
    decreases es.len(),
{
    if es.len() == 0 {
        Seq::empty()
    } else {
        let r = root_commands(es.drop_last());
        match es.last() {
            ElementView::Command(ts) => r.push(ts),
            _ => r,
        }
    }
}

/// The texts of the tokens that are not comments.
pub open spec fn arg_texts(toks: Seq<TokenView>) -> Seq<Seq<char>>
    decreases toks.len(),
{
    if toks.len() == 0 {
        Seq::empty()
    } else {
        let r = arg_texts(toks.drop_last());
        if toks.last().0 == SyntaxKind::COMMENT {
            r
        } else {
            r.push(toks.last().1)
        }
    }
}

/// The arguments of a command, as text, without comments.
pub open spec fn cmd_args(ts: Seq<TokenView>) -> Seq<Seq<char>> {
    arg_texts(args_from(ts, 0, false, 0))
}

/// The command at `j` closing the block opened before `j` (at nesting
/// `depth`), if any: commands named like `open` nest, commands named like
/// `close` close.
pub open spec fn find_block_end(cmds: Seq<Seq<TokenView>>, j: int, depth: nat, open: Seq<char>, close: Seq<char>) -> Option<int>
    decreases cmds.len() - j,
{
    if j < 0 || j >= cmds.len() {
        None
    } else {
        let n = command_name_text(cmds[j]);
        if eq_ignore_case(n, open) {
            find_block_end(cmds, j + 1, depth + 1, open, close)
        } else if eq_ignore_case(n, close) {
            if depth <= 1 {
                Some(j)
            } else {
                find_block_end(cmds, j + 1, (depth - 1) as nat, open, close)
            }
        } else {
            find_block_end(cmds, j + 1, depth, open, close)
        }
    }
}

pub proof fn lemma_find_block_end(cmds: Seq<Seq<TokenView>>, j: int, depth: nat, open: Seq<char>, close: Seq<char>)
    requires
        0 <= j,
    ensures
        find_block_end(cmds, j, depth, open, close) matches Some(e) ==> j <= e < cmds.len(),
    decreases cmds.len() - j,
{
    if j < cmds.len() {
        let n = command_name_text(cmds[j]);
        if eq_ignore_case(n, open) {
            lemma_find_block_end(cmds, j + 1, depth + 1, open, close);
        } else if eq_ignore_case(n, close) {
            if depth > 1 {
                lemma_find_block_end(cmds, j + 1, (depth - 1) as nat, open, close);
            }
        } else {
            lemma_find_block_end(cmds, j + 1, depth, open, close);
        }
    }
}

// ---------------------------------------------------------------------------
// Resolving arguments
// ---------------------------------------------------------------------------
/// Splitting at `;`: the finished pieces and the piece being read.
pub open spec fn split_acc(s: Seq<char>) -> (Seq<Seq<char>>, Seq<char>)
    decreases s.len(),
{
    if s.len() == 0 {
        (Seq::empty(), Seq::empty())
    } else {
        let (done, cur) = split_acc(s.drop_last());
        if s.last() == ';' {
            (done.push(cur), Seq::empty())
        } else {
            (done, cur.push(s.last()))
        }
    }
}

/// The pieces of `s` between semicolons.
pub open spec fn split_pieces(s: Seq<char>) -> Seq<Seq<char>> {
    split_acc(s).0.push(split_acc(s).1)
}

/// The pieces, trimmed, without the empty ones.
pub open spec fn nonempty_trimmed(pieces: Seq<Seq<char>>) -> Seq<Seq<char>>
    decreases pieces.len(),
{
    if pieces.len() == 0 {
        Seq::empty()
    } else {
        let r = nonempty_trimmed(pieces.drop_last());
        let t = trim_seq(pieces.last());
        if t.len() > 0 {
            r.push(t)
        } else {
            r
        }
    }
}

/// A CMake list: the trimmed, non-empty pieces between semicolons.
pub open spec fn split_list(s: Seq<char>) -> Seq<Seq<char>> {
    nonempty_trimmed(split_pieces(s))
}

/// `vals` joined with semicolons.
pub open spec fn join_semi(vals: Seq<Seq<char>>) -> Seq<char>
    decreases vals.len(),
{
    if vals.len() == 0 {
        Seq::empty()
    } else if vals.len() == 1 {
        vals[0]
    } else {
        join_semi(vals.drop_last()) + seq![';'] + vals.last()
    }
}

/// `s` contains `${`.
pub open spec fn has_dollar_brace(s: Seq<char>) -> bool {
    find_dollar_brace(s, 0) is Some
}

/// `s` is a whole variable reference `${name}`, with no `${` inside.
pub open spec fn is_var_ref(s: Seq<char>) -> bool {
    s.len() >= 3 && s[0] == '$' && s[1] == '{' && s.last() == '}' && !has_dollar_brace(
        s.subrange(2, s.len() - 1),
    )
}

pub open spec fn var_ref_name(s: Seq<char>) -> Seq<char> {
    s.subrange(2, s.len() - 1)
}

/// The value of a variable as a list: a loop variable's value, else a
/// local's values; unknown variables do not resolve.
pub open spec fn lookup_var(name: Seq<char>, locals: Locals, iters: IterVars) -> (Seq<Seq<char>>, bool) {
    if iters.dom().contains(name) {
        (seq![iters[name].0], iters[name].1)
    } else if locals.dom().contains(name) {
        locals[name]
    } else {
        (Seq::empty(), false)
    }
}

/// The value of a variable as text within a string.
pub open spec fn var_text(name: Seq<char>, locals: Locals, iters: IterVars) -> (Seq<char>, bool) {
    if iters.dom().contains(name) {
        iters[name]
    } else if locals.dom().contains(name) {
        (join_semi(locals[name].0), locals[name].1)
    } else {
        (Seq::empty(), false)
    }
}

/// First `${` at or after `i`.
pub open spec fn find_dollar_brace(s: Seq<char>, i: int) -> Option<int>
    decreases s.len() - i,
{
    if i < 0 || i + 1 >= s.len() {
        None
    } else if s[i] == '$' && s[i + 1] == '{' {
        Some(i)
    } else {
        find_dollar_brace(s, i + 1)
    }
}

/// First `c` at or after `i`.
pub open spec fn find_char(s: Seq<char>, c: char, i: int) -> Option<int>
    decreases s.len() - i,
{
    if i < 0 || i >= s.len() {
        None
    } else if s[i] == c {
        Some(i)
    } else {
        find_char(s, c, i + 1)
    }
}

pub proof fn lemma_find_dollar_brace(s: Seq<char>, i: int)
    requires
        0 <= i,
    ensures
        find_dollar_brace(s, i) matches Some(j) ==> i <= j && j + 1 < s.len(),
    decreases s.len() - i,
{
    if i + 1 < s.len() && !(s[i] == '$' && s[i + 1] == '{') {
        lemma_find_dollar_brace(s, i + 1);
    }
}

pub proof fn lemma_find_char(s: Seq<char>, c: char, i: int)
    requires
        0 <= i,
    ensures
        find_char(s, c, i) matches Some(j) ==> i <= j < s.len(),
    decreases s.len() - i,
{
    if i < s.len() && s[i] != c {
        lemma_find_char(s, c, i + 1);
    }
}

/// `s[pos..]` with each `${name}` replaced by the variable's text, and
/// whether every reference resolved (an unclosed `${` stays as it is and
/// does not).
pub open spec fn interp_from(s: Seq<char>, pos: int, locals: Locals, iters: IterVars) -> (Seq<char>, bool)
    decreases s.len() - pos,
{
    if pos < 0 || pos > s.len() {
        (Seq::empty(), true)
    } else {
        match find_dollar_brace(s, pos) {
            None => (s.subrange(pos, s.len() as int), true),
            Some(st) => {
                proof {
                    lemma_find_dollar_brace(s, pos);
                    lemma_find_char(s, '}', st + 2);
                }
                match find_char(s, '}', st + 2) {
                    Some(e) => {
                        let v = var_text(s.subrange(st + 2, e), locals, iters);
                        let t = interp_from(s, e + 1, locals, iters);
                        (s.subrange(pos, st) + v.0 + t.0, v.1 && t.1)
                    },
                    None => {
                        let t = interp_from(s, st + 2, locals, iters);
                        (s.subrange(pos, st) + seq!['$', '{'] + t.0, false)
                    },
                }
            },
        }
    }
}

/// An argument as a list of values: a quoted string is interpolated (or, when
/// it is one whole reference, looked up) and split at semicolons; an
/// unquoted whole reference is looked up; any other word is split.
pub open spec fn resolve_arg(raw: Seq<char>, locals: Locals, iters: IterVars) -> (Seq<Seq<char>>, bool) {
    if raw.len() >= 2 && raw[0] == '"' && raw.last() == '"' {
        let inner = raw.subrange(1, raw.len() - 1);
        if is_var_ref(inner) {
            lookup_var(var_ref_name(inner), locals, iters)
        } else {
            let (t, ok) = interp_from(inner, 0, locals, iters);
            (split_list(t), ok)
        }
    } else if is_var_ref(raw) {
        lookup_var(var_ref_name(raw), locals, iters)
    } else {
        (split_list(raw), true)
    }
}

/// All of `raws` resolved, one after the other.
pub open spec fn resolve_all(raws: Seq<Seq<char>>, locals: Locals, iters: IterVars) -> (Seq<Seq<char>>, bool)
    decreases raws.len(),
{
    if raws.len() == 0 {
        (Seq::empty(), true)
    } else {
        let r = resolve_all(raws.drop_last(), locals, iters);
        let x = resolve_arg(raws.last(), locals, iters);
        (r.0 + x.0, r.1 && x.1)
    }
}

// ---------------------------------------------------------------------------
// Variables set in a body
// ---------------------------------------------------------------------------
/// `foreach(VAR IN ITEMS ...)` with its closing command: the variable, the
/// resolved items (with whether they all resolved) and the index of
/// `endforeach`.
pub open spec fn try_foreach(args: Seq<Seq<char>>, cmds: Seq<Seq<TokenView>>, i: int, locals: Locals, iters: IterVars) -> Option<(Seq<char>, (Seq<Seq<char>>, bool), int)> {
    if args.len() >= 3 && unicode_uppercase(args[1]) == "IN"@ && unicode_uppercase(args[2])
        == "ITEMS"@ {
        match find_block_end(cmds, i + 1, 1, "foreach"@, "endforeach"@) {
            Some(e) => Some((args[0], resolve_all(args.skip(3), locals, iters), e)),
            None => None,
        }
    } else {
        None
    }
}

/// The variables after the commands `cmds[i..]`: `set` defines, `list(APPEND
/// ...)` extends, a `foreach(... IN ITEMS ...)` body runs once per item (and
/// when the items did not all resolve, what the body writes is not
/// definitive), another `foreach` body is skipped.
pub open spec fn locals_from(cmds: Seq<Seq<TokenView>>, i: int, iters: IterVars, locals: Locals) -> Locals
    decreases cmds.len(), 1nat, cmds.len() - i,
{
    if i < 0 || i >= cmds.len() {
        locals
    } else {
        let name = command_name_text(cmds[i]);
        let args = cmd_args(cmds[i]);
        if eq_ignore_case(name, "set"@) && args.len() > 0 {
            let r = resolve_all(args.skip(1), locals, iters);
            locals_from(cmds, i + 1, iters, locals.insert(args[0], r))
        } else if eq_ignore_case(name, "list"@) && args.len() >= 2 && eq_ignore_case(
            args[0],
            "APPEND"@,
        ) {
            let r = resolve_all(args.skip(2), locals, iters);
            let prev = if locals.dom().contains(args[1]) {
                locals[args[1]]
            } else {
                (Seq::empty(), true)
            };
            locals_from(cmds, i + 1, iters, locals.insert(args[1], (prev.0 + r.0, prev.1 && r.1)))
        } else if eq_ignore_case(name, "foreach"@) {
            proof {
                lemma_find_block_end(cmds, i + 1, 1, "foreach"@, "endforeach"@);
            }
            match try_foreach(args, cmds, i, locals, iters) {
                Some(f) => {
                    let body = cmds.subrange(i + 1, f.2);
                    let l2 = foreach_fold(body, f.0, f.1.0, f.1.1, 0, iters, locals);
                    let l3 = if f.1.1 {
                        l2
                    } else {
                        taint_from(body, 0, l2)
                    };
                    locals_from(cmds, f.2 + 1, iters, l3)
                },
                None => match find_block_end(cmds, i + 1, 1, "foreach"@, "endforeach"@) {
                    Some(e) => locals_from(cmds, e + 1, iters, locals),
                    None => locals_from(cmds, i + 1, iters, locals),
                },
            }
        } else {
            locals_from(cmds, i + 1, iters, locals)
        }
    }
}

/// The variable that a command writes: the first argument of `set`, the
/// second of `list(APPEND ...)`.
pub open spec fn written_var(cmd: Seq<TokenView>) -> Option<Seq<char>> {
    let name = command_name_text(cmd);
    let args = cmd_args(cmd);
    if eq_ignore_case(name, "set"@) && args.len() > 0 {
        Some(args[0])
    } else if eq_ignore_case(name, "list"@) && args.len() >= 2 && eq_ignore_case(
        args[0],
        "APPEND"@,
    ) {
        Some(args[1])
    } else {
        None
    }
}

/// The variables with each one that `body[k..]` writes marked as not
/// definitive: a loop whose items did not all resolve may run any number of
/// times, so what its body writes is not known.
pub open spec fn taint_from(body: Seq<Seq<TokenView>>, k: int, locals: Locals) -> Locals
    decreases body.len() - k,
{
    if k < 0 || k >= body.len() {
        locals
    } else {
        match written_var(body[k]) {
            Some(v) => {
                let vals = if locals.dom().contains(v) {
                    locals[v].0
                } else {
                    Seq::empty()
                };
                taint_from(body, k + 1, locals.insert(v, (vals, false)))
            },
            None => taint_from(body, k + 1, locals),
        }
    }
}

/// A loop body run for `items[k..]`, with `var` bound to each in turn; the
/// binding is definitive when all items resolved (`ok`).
pub open spec fn foreach_fold(body: Seq<Seq<TokenView>>, var: Seq<char>, items: Seq<Seq<char>>, ok: bool, k: int, iters: IterVars, locals: Locals) -> Locals
    decreases body.len(), 2nat, items.len() - k,
{
    if k < 0 || k >= items.len() {
        locals
    } else {
        foreach_fold(
            body,
            var,
            items,
            ok,
            k + 1,
            iters,
            locals_from(body, 0, iters.insert(var, (items[k], ok)), locals),
        )
    }
}

/// The variables that a function body sets.
pub open spec fn collect_locals(body: Seq<Seq<TokenView>>) -> Locals {
    locals_from(body, 0, Map::empty(), Map::empty())
}

// ---------------------------------------------------------------------------
// Discovered schemas
// ---------------------------------------------------------------------------
/// A discovered schema: the function's lowercase name, its options, one-value
/// and multi-value keywords, and whether all of them resolved.
pub struct ResultV {
    pub name: Seq<char>,
    pub options: Seq<Seq<char>>,
    pub one_value: Seq<Seq<char>>,
    pub multi_value: Seq<Seq<char>>,
    pub definitive: bool,
}

/// The keywords that a `cmake_parse_arguments` call declares (its three
/// keyword-list arguments, after `PARSE_ARGV N` or the prefix).
pub open spec fn parse_cpa(args: Seq<Seq<char>>, locals: Locals) -> Option<(Seq<Seq<char>>, Seq<Seq<char>>, Seq<Seq<char>>, bool)> {
    let pa = args.len() > 0 && args[0] == "PARSE_ARGV"@;
    let o: int = if pa {
        3
    } else {
        1
    };
    if args.len() <= o + 2 {
        None
    } else {
        let e = Map::<Seq<char>, (Seq<char>, bool)>::empty();
        let r1 = resolve_arg(args[o], locals, e);
        let r2 = resolve_arg(args[o + 1], locals, e);
        let r3 = resolve_arg(args[o + 2], locals, e);
        Some((r1.0, r2.0, r3.0, r1.1 && r2.1 && r3.1))
    }
}

/// The first `cmake_parse_arguments` call of `body[k..]` that declares keywords.
pub open spec fn first_cpa(body: Seq<Seq<TokenView>>, k: int, locals: Locals) -> Option<(Seq<Seq<char>>, Seq<Seq<char>>, Seq<Seq<char>>, bool)>
    decreases body.len() - k,
{
    if k < 0 || k >= body.len() {
        None
    } else if eq_ignore_case(command_name_text(body[k]), "cmake_parse_arguments"@) {
        match parse_cpa(cmd_args(body[k]), locals) {
            Some(r) => Some(r),
            None => first_cpa(body, k + 1, locals),
        }
    } else {
        first_cpa(body, k + 1, locals)
    }
}

/// The schemas discovered in `cmds[i..]`: for each `function`/`macro`
/// with its closing command, the schema of its first `cmake_parse_arguments`
/// call, then those of functions defined inside it.
pub open spec fn analyze_from(cmds: Seq<Seq<TokenView>>, i: int) -> Seq<ResultV>
    decreases cmds.len(), cmds.len() - i,
{
    if i < 0 || i >= cmds.len() {
        Seq::empty()
    } else {
        let n = command_name_text(cmds[i]);
        let is_function = eq_ignore_case(n, "function"@);
        let is_macro = eq_ignore_case(n, "macro"@);
        let args = cmd_args(cmds[i]);
        if (is_function || is_macro) && args.len() > 0 {
            let end_kw = if is_function {
                "endfunction"@
            } else {
                "endmacro"@
            };
            proof {
                lemma_find_block_end(cmds, i + 1, 1, n, end_kw);
            }
            match find_block_end(cmds, i + 1, 1, n, end_kw) {
                Some(j) => {
                    let body = cmds.subrange(i + 1, j);
                    let own = match first_cpa(body, 0, collect_locals(body)) {
                        Some(r) => seq![
                            ResultV {
                                name: unicode_lowercase(args[0]),
                                options: r.0,
                                one_value: r.1,
                                multi_value: r.2,
                                definitive: r.3,
                            },
                        ],
                        None => Seq::empty(),
                    };
                    own + analyze_from(body, 0) + analyze_from(cmds, j + 1)
                },
                None => analyze_from(cmds, i + 1),
            }
        } else {
            analyze_from(cmds, i + 1)
        }
    }
}

// ---------------------------------------------------------------------------
// Where discovered schemas come from
// ---------------------------------------------------------------------------
/// A closing command found in a stretch of commands is found at the same
/// place in the commands around it.
pub proof fn lemma_find_block_end_within(cmds: Seq<Seq<TokenView>>, a: int, b: int, j: int, depth: nat, open: Seq<char>, close: Seq<char>)
    requires
        0 <= a <= b <= cmds.len(),
        0 <= j,
        find_block_end(cmds.subrange(a, b), j, depth, open, close) is Some,
    ensures
        find_block_end(cmds, a + j, depth, open, close) == Some(
            a + find_block_end(cmds.subrange(a, b), j, depth, open, close)->0,
        ),
    decreases b - a - j,
{
    let sub = cmds.subrange(a, b);
    if j < sub.len() {
        assert(sub[j] == cmds[a + j]);
        let n = command_name_text(sub[j]);
        if eq_ignore_case(n, open) {
            lemma_find_block_end_within(cmds, a, b, j + 1, depth + 1, open, close);
        } else if eq_ignore_case(n, close) {
            if depth > 1 {
                lemma_find_block_end_within(cmds, a, b, j + 1, (depth - 1) as nat, open, close);
            }
        } else {
            lemma_find_block_end_within(cmds, a, b, j + 1, depth, open, close);
        }
    }
}

/// `cmds[d]` opens a function or macro definition closed by `cmds[e]` (the
/// matching `endfunction` / `endmacro`, nesting counted, any case), and
/// `r` is the schema of the first `cmake_parse_arguments` call between
/// them, named after the definition's first argument in lowercase.
pub open spec fn defines(cmds: Seq<Seq<TokenView>>, d: int, e: int, r: ResultV) -> bool {
    let n = command_name_text(cmds[d]);
    let args = cmd_args(cmds[d]);
    let body = cmds.subrange(d + 1, e);
    &&& 0 <= d < e < cmds.len()
    &&& args.len() > 0
    &&& {
        ||| eq_ignore_case(n, "function"@) && find_block_end(cmds, d + 1, 1, n, "endfunction"@) == Some(e)
        ||| !eq_ignore_case(n, "function"@) && eq_ignore_case(n, "macro"@) && find_block_end(
            cmds,
            d + 1,
            1,
            n,
            "endmacro"@,
        ) == Some(e)
    }
    &&& r.name == unicode_lowercase(args[0])
    &&& first_cpa(body, 0, collect_locals(body)) == Some((r.options, r.one_value, r.multi_value, r.definitive))
}

/// Every schema the analysis finds in `cmds[i..]` comes from a function or
/// macro definition there, with its matching closing command and a
/// `cmake_parse_arguments` call between them (calls outside every
/// definition give nothing), and from a definition of its own: the one
/// that gives the `k`-th opens at `ds[k]`, and these places increase.
pub proof fn law_results_from_distinct_definitions(cmds: Seq<Seq<TokenView>>, i: int) -> (ds: Seq<int>)
    requires
        0 <= i,
    ensures
        ds.len() == analyze_from(cmds, i).len(),
        forall|k: int|
            0 <= k < ds.len() ==> i <= ds[k] && exists|e: int| #[trigger]
                defines(cmds, ds[k], e, analyze_from(cmds, i)[k]),
        forall|a: int, b: int| 0 <= a < b < ds.len() ==> ds[a] < ds[b],
    decreases cmds.len(), cmds.len() - i,
{
    if i >= cmds.len() {
        assert(analyze_from(cmds, i) =~= Seq::<ResultV>::empty());
        return Seq::empty();
    }
    let n = command_name_text(cmds[i]);
    let is_function = eq_ignore_case(n, "function"@);
    let is_macro = eq_ignore_case(n, "macro"@);
    let args = cmd_args(cmds[i]);
    let r = analyze_from(cmds, i);
    if (is_function || is_macro) && args.len() > 0 {
        let end_kw = if is_function {
            "endfunction"@
        } else {
            "endmacro"@
        };
        lemma_find_block_end(cmds, i + 1, 1, n, end_kw);
        match find_block_end(cmds, i + 1, 1, n, end_kw) {
            Some(j) => {
                let body = cmds.subrange(i + 1, j);
                let own = match first_cpa(body, 0, collect_locals(body)) {
                    Some(x) => seq![
                        ResultV {
                            name: unicode_lowercase(args[0]),
                            options: x.0,
                            one_value: x.1,
                            multi_value: x.2,
                            definitive: x.3,
                        },
                    ],
                    None => Seq::empty(),
                };
                let own_ds: Seq<int> = if own.len() > 0 {
                    seq![i]
                } else {
                    Seq::empty()
                };
                let inner = analyze_from(body, 0);
                let rest = analyze_from(cmds, j + 1);
                let d2 = law_results_from_distinct_definitions(body, 0);
                let d3 = law_results_from_distinct_definitions(cmds, j + 1);
                let shifted = d2.map_values(|d: int| d + i + 1);
                let ds = own_ds + shifted + d3;
                assert(r == own + inner + rest);
                assert forall|k: int| 0 <= k < ds.len() implies i <= ds[k] && exists|e: int| #[trigger]
                    defines(cmds, ds[k], e, r[k]) by {
                    if k < own.len() {
                        assert(defines(cmds, i, j, r[k]));
                    } else if k < own.len() + inner.len() {
                        let m = k - own.len();
                        let x = inner[m];
                        assert(r[k] == x);
                        assert(ds[k] == d2[m] + i + 1);
                        let e2 = choose|e2: int| #[trigger] defines(body, d2[m], e2, x);
                        let n2 = command_name_text(body[d2[m]]);
                        assert(body[d2[m]] == cmds[i + 1 + d2[m]]);
                        assert(body.subrange(d2[m] + 1, e2) =~= cmds.subrange(
                            i + 1 + d2[m] + 1,
                            i + 1 + e2,
                        ));
                        if eq_ignore_case(n2, "function"@) {
                            lemma_find_block_end_within(cmds, i + 1, j, d2[m] + 1, 1, n2, "endfunction"@);
                        } else {
                            lemma_find_block_end_within(cmds, i + 1, j, d2[m] + 1, 1, n2, "endmacro"@);
                        }
                        assert(defines(cmds, i + 1 + d2[m], i + 1 + e2, x));
                    } else {
                        let m = k - own.len() - inner.len();
                        assert(r[k] == rest[m]);
                        assert(ds[k] == d3[m]);
                        let e3 = choose|e3: int| #[trigger] defines(cmds, d3[m], e3, rest[m]);
                        assert(defines(cmds, d3[m], e3, r[k]));
                    }
                }
                assert forall|a: int, b: int| 0 <= a < b < ds.len() implies ds[a] < ds[b] by {
                    let lo = own.len() as int;
                    let hi = (own.len() + inner.len()) as int;
                    if a >= lo && a < hi {
                        let e2 = choose|e2: int| #[trigger] defines(body, d2[a - lo], e2, inner[a - lo]);
                        assert(d2[a - lo] < body.len());
                    }
                    if b >= lo && b < hi {
                        assert(0 <= d2[b - lo]);
                    }
                }
                ds
            },
            None => {
                let d = law_results_from_distinct_definitions(cmds, i + 1);
                assert(r == analyze_from(cmds, i + 1));
                d
            },
        }
    } else {
        let d = law_results_from_distinct_definitions(cmds, i + 1);
        assert(r == analyze_from(cmds, i + 1));
        d
    }
}

// ---------------------------------------------------------------------------
// `set` with literal words
// ---------------------------------------------------------------------------
/// A word that stands for itself as a list: not empty, not quoted, not a
/// variable reference, and without `;` or whitespace.
pub open spec fn literal_word(w: Seq<char>) -> bool {
    &&& w.len() > 0
    &&& w[0] != '"'
    &&& w[0] != '$'
    &&& forall|i: int| 0 <= i < w.len() ==> #[trigger] w[i] != ';' && !crate::text::is_ws_char(w[i])
}

proof fn lemma_split_acc_plain(w: Seq<char>)
    requires
        forall|i: int| 0 <= i < w.len() ==> #[trigger] w[i] != ';',
    ensures
        split_acc(w) == (Seq::<Seq<char>>::empty(), w),
    decreases w.len(),
{
    if w.len() > 0 {
        lemma_split_acc_plain(w.drop_last());
        assert(w.drop_last().push(w.last()) =~= w);
    }
}

proof fn lemma_literal_word_resolves(w: Seq<char>, locals: Locals, iters: IterVars)
    requires
        literal_word(w),
    ensures
        resolve_arg(w, locals, iters) == (seq![w], true),
{
    lemma_split_acc_plain(w);
    assert(split_pieces(w) =~= seq![w]);
    assert(!crate::text::is_ws_char(w[0]));
    assert(!crate::text::is_ws_char(w.last()));
    assert(crate::text::trim_end_len(w) == w.len());
    assert(w.take(w.len() as int) =~= w);
    assert(crate::text::trim_start_len(w) == 0);
    assert(w.skip(0) =~= w);
    assert(seq![w].drop_last() =~= Seq::<Seq<char>>::empty());
    assert(crate::text::trim_end_seq(w) == w);
    assert(trim_seq(w) == w);
    assert(seq![w].last() == w);
    assert(nonempty_trimmed(Seq::<Seq<char>>::empty()) == Seq::<Seq<char>>::empty());
    assert(nonempty_trimmed(seq![w]) == Seq::<Seq<char>>::empty().push(w));
    assert(Seq::<Seq<char>>::empty().push(w) =~= seq![w]);
    assert(split_list(w) == seq![w]);
    assert(!is_var_ref(w));
}

proof fn lemma_literal_words_resolve(ws: Seq<Seq<char>>, locals: Locals, iters: IterVars)
    requires
        forall|k: int| 0 <= k < ws.len() ==> literal_word(#[trigger] ws[k]),
    ensures
        resolve_all(ws, locals, iters) == (ws, true),
    decreases ws.len(),
{
    if ws.len() > 0 {
        lemma_literal_words_resolve(ws.drop_last(), locals, iters);
        lemma_literal_word_resolves(ws.last(), locals, iters);
        assert(ws.drop_last() + seq![ws.last()] =~= ws);
    }
}

/// `set(V x1 ... xn)` with literal words makes `V` the list `x1 ... xn`,
/// every part resolved, before the commands after it run.
pub proof fn law_set_literal_words(cmds: Seq<Seq<TokenView>>, i: int, iters: IterVars, locals: Locals)
    requires
        0 <= i < cmds.len(),
        eq_ignore_case(command_name_text(cmds[i]), "set"@),
        cmd_args(cmds[i]).len() > 0,
        forall|k: int|
            1 <= k < cmd_args(cmds[i]).len() ==> literal_word(#[trigger] cmd_args(cmds[i])[k]),
    ensures
        locals_from(cmds, i, iters, locals) == locals_from(
            cmds,
            i + 1,
            iters,
            locals.insert(
                cmd_args(cmds[i])[0],
                (cmd_args(cmds[i]).subrange(1, cmd_args(cmds[i]).len() as int), true),
            ),
        ),
{
    let args = cmd_args(cmds[i]);
    let ws = args.subrange(1, args.len() as int);
    assert forall|k: int| 0 <= k < ws.len() implies literal_word(#[trigger] ws[k]) by {
        assert(ws[k] == args[k + 1]);
    }
    lemma_literal_words_resolve(ws, locals, iters);
    assert(args.skip(1) =~= ws);
}

/// `list(APPEND V x1 ... xn)` with literal words appends `x1 ... xn` to
/// the list `V` (empty and resolved when `V` was not set), keeping whether
/// its earlier parts resolved, before the commands after it run.
pub proof fn law_list_append_literal_words(cmds: Seq<Seq<TokenView>>, i: int, iters: IterVars, locals: Locals)
    requires
        0 <= i < cmds.len(),
        eq_ignore_case(command_name_text(cmds[i]), "list"@),
        cmd_args(cmds[i]).len() >= 2,
        eq_ignore_case(cmd_args(cmds[i])[0], "APPEND"@),
        forall|k: int|
            2 <= k < cmd_args(cmds[i]).len() ==> literal_word(#[trigger] cmd_args(cmds[i])[k]),
    ensures
        ({
            let args = cmd_args(cmds[i]);
            let v = args[1];
            let before: (Seq<Seq<char>>, bool) = if locals.dom().contains(v) {
                locals[v]
            } else {
                (Seq::empty(), true)
            };
            locals_from(cmds, i, iters, locals) == locals_from(
                cmds,
                i + 1,
                iters,
                locals.insert(v, (before.0 + args.subrange(2, args.len() as int), before.1)),
            )
        }),
{
    let args = cmd_args(cmds[i]);
    let ws = args.subrange(2, args.len() as int);
    assert forall|k: int| 0 <= k < ws.len() implies literal_word(#[trigger] ws[k]) by {
        assert(ws[k] == args[k + 2]);
    }
    lemma_literal_words_resolve(ws, locals, iters);
    assert(args.skip(2) =~= ws);
    reveal_strlit("set");
    reveal_strlit("list");
    assert(!eq_ignore_case(command_name_text(cmds[i]), "set"@)) by {
        if eq_ignore_case(command_name_text(cmds[i]), "set"@) {
            assert(command_name_text(cmds[i]).len() == 3);
        }
    }
}

} // verus!
