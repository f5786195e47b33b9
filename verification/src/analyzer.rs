//! Schema discovery: finds the `cmake_parse_arguments` calls of functions
//! and macros and turns them into command schemas.
use crate::analyzer_spec::{
    IterVars, Locals, ResultV, analyze_from, arg_texts, cmd_args, collect_locals, find_block_end, find_char, find_dollar_brace, first_cpa, foreach_fold, interp_from, is_var_ref, join_semi, lemma_find_block_end, lemma_find_char, lemma_find_dollar_brace, locals_from, lookup_var, nonempty_trimmed, pairs_map, parse_cpa, resolve_all, resolve_arg, root_commands, split_acc, split_list, taint_from, var_text, written_var,
};
use crate::cst::{CommandNode, SyntaxElement, SyntaxNode, SyntaxToken, TokenView, args_from, token_view, tokens_view};
use crate::format_spec::command_name_text;
use crate::pack::strs;
use crate::schema::{FunctionSchema, SchemaRegistry, entries_merge, key_value, law_merge_lookup, names_distinct};
use crate::syntax::SyntaxKind;
use crate::text::{chars_of, eq_ignore_ascii_case, owned, push_str, str_eq, to_lowercase, to_uppercase, trim};
use vstd::prelude::*;
use vstd::slice::slice_subrange;

verus! {

// ---------------------------------------------------------------------------
// Variable tables
// ---------------------------------------------------------------------------
pub open spec fn locals_view(v: Seq<(String, (Vec<String>, bool))>) -> Locals {
    pairs_map(v.map_values(|p: (String, (Vec<String>, bool))| (p.0@, (strs(p.1.0@), p.1.1))))
}

pub open spec fn iters_view(v: Seq<(String, (String, bool))>) -> IterVars {
    pairs_map(v.map_values(|p: (String, (String, bool))| (p.0@, (p.1.0@, p.1.1))))
}

/// Entries after `k` do not bind `key`: the map agrees with that of the
/// first `k` entries on `key`.
proof fn lemma_pairs_map_take<V>(v: Seq<(Seq<char>, V)>, k: int, key: Seq<char>)
    requires
        0 <= k <= v.len(),
        forall|j: int| k <= j < v.len() ==> v[j].0 != key,
    ensures
        pairs_map(v).dom().contains(key) == pairs_map(v.take(k)).dom().contains(key),
        pairs_map(v).dom().contains(key) ==> pairs_map(v)[key] == pairs_map(v.take(k))[key],
    decreases v.len() - k,
{
    if k < v.len() {
        assert(v.drop_last().take(k) =~= v.take(k));
        lemma_pairs_map_take(v.drop_last(), k, key);
    } else {
        assert(v.take(k) =~= v);
    }
}

/// The last entry for `key` gives its value.
proof fn lemma_pairs_map_at<V>(v: Seq<(Seq<char>, V)>, k: int, key: Seq<char>)
    requires
        0 <= k < v.len(),
        v[k].0 == key,
        forall|j: int| k < j < v.len() ==> v[j].0 != key,
    ensures
        pairs_map(v).dom().contains(key),
        pairs_map(v)[key] == v[k].1,
{
    lemma_pairs_map_take(v, k + 1, key);
    assert(v.take(k + 1).drop_last() =~= v.take(k));
}

fn lookup_local(locals: &Vec<(String, (Vec<String>, bool))>, name: &str) -> (r: Option<(Vec<String>, bool)>)
    ensures
        r is Some == locals_view(locals@).dom().contains(name@),
        r matches Some(x) ==> locals_view(locals@)[name@] == (strs(x.0@), x.1),
{
    let ghost f = |p: (String, (Vec<String>, bool))| (p.0@, (strs(p.1.0@), p.1.1));
    let ghost m = locals@.map_values(f);
    let mut k = locals.len();
    while k > 0
        invariant
            k <= locals.len(),
            m == locals@.map_values(f),
            f == (|p: (String, (Vec<String>, bool))| (p.0@, (strs(p.1.0@), p.1.1))),
            forall|j: int| k <= j < m.len() ==> m[j].0 != name@,
        decreases k,
    {
        if str_eq(locals[k - 1].0.as_str(), name) {
            proof {
                lemma_pairs_map_at(m, k - 1, name@);
            }
            let vals = locals[k - 1].1.0.clone();
            assert(vals@ == locals@[k - 1].1.0@);
            return Some((vals, locals[k - 1].1.1));
        }
        k -= 1;
    }
    proof {
        lemma_pairs_map_take(m, 0, name@);
        assert(m.take(0) =~= Seq::<(Seq<char>, (Seq<Seq<char>>, bool))>::empty());
    }
    None
}

fn lookup_iter(iters: &Vec<(String, (String, bool))>, name: &str) -> (r: Option<(String, bool)>)
    ensures
        r is Some == iters_view(iters@).dom().contains(name@),
        r matches Some(x) ==> iters_view(iters@)[name@] == (x.0@, x.1),
{
    let ghost f = |p: (String, (String, bool))| (p.0@, (p.1.0@, p.1.1));
    let ghost m = iters@.map_values(f);
    let mut k = iters.len();
    while k > 0
        invariant
            k <= iters.len(),
            m == iters@.map_values(f),
            f == (|p: (String, (String, bool))| (p.0@, (p.1.0@, p.1.1))),
            forall|j: int| k <= j < m.len() ==> m[j].0 != name@,
        decreases k,
    {
        if str_eq(iters[k - 1].0.as_str(), name) {
            proof {
                lemma_pairs_map_at(m, k - 1, name@);
            }
            return Some((iters[k - 1].1.0.clone(), iters[k - 1].1.1));
        }
        k -= 1;
    }
    proof {
        lemma_pairs_map_take(m, 0, name@);
        assert(m.take(0) =~= Seq::<(Seq<char>, (Seq<char>, bool))>::empty());
    }
    None
}

fn insert_local(locals: &mut Vec<(String, (Vec<String>, bool))>, name: String, vals: Vec<String>, ok: bool)
    ensures
        locals_view(final(locals)@) == locals_view(old(locals)@).insert(name@, (strs(vals@), ok)),
{
    let ghost f = |p: (String, (Vec<String>, bool))| (p.0@, (strs(p.1.0@), p.1.1));
    let ghost before = locals@;
    locals.push((name, (vals, ok)));
    assert(locals@.map_values(f).drop_last() =~= before.map_values(f));
}

fn insert_iter(iters: &mut Vec<(String, (String, bool))>, name: String, val: String, ok: bool)
    ensures
        iters_view(final(iters)@) == iters_view(old(iters)@).insert(name@, (val@, ok)),
{
    let ghost f = |p: (String, (String, bool))| (p.0@, (p.1.0@, p.1.1));
    let ghost before = iters@;
    iters.push((name, (val, ok)));
    assert(iters@.map_values(f).drop_last() =~= before.map_values(f));
}

fn clone_iters(iters: &Vec<(String, (String, bool))>) -> (r: Vec<(String, (String, bool))>)
    ensures
        iters_view(r@) == iters_view(iters@),
{
    let ghost f = |p: (String, (String, bool))| (p.0@, (p.1.0@, p.1.1));
    let mut r: Vec<(String, (String, bool))> = Vec::new();
    let mut i: usize = 0;
    while i < iters.len()
        invariant
            i <= iters.len(),
            f == (|p: (String, (String, bool))| (p.0@, (p.1.0@, p.1.1))),
            r@.map_values(f) == iters@.map_values(f).take(i as int),
        decreases iters.len() - i,
    {
        let ghost before = r@;
        r.push((iters[i].0.clone(), (iters[i].1.0.clone(), iters[i].1.1)));
        assert(r@.map_values(f) =~= before.map_values(f).push(f(iters@[i as int])));
        assert(iters@.map_values(f).take(i + 1) =~= iters@.map_values(f).take(i as int).push(
            f(iters@[i as int]),
        ));
        i += 1;
    }
    assert(iters@.map_values(f).take(i as int) =~= iters@.map_values(f));
    r
}

// ---------------------------------------------------------------------------
// Lists and strings
// ---------------------------------------------------------------------------
fn push_string(v: &mut Vec<String>, s: String)
    ensures
        strs(final(v)@) == strs(old(v)@).push(s@),
{
    let ghost before = v@;
    v.push(s);
    assert(strs(v@) =~= strs(before).push(s@));
}

fn append_strings(v: &mut Vec<String>, more: Vec<String>)
    ensures
        strs(final(v)@) == strs(old(v)@) + strs(more@),
{
    let ghost before = v@;
    let ghost m = more@;
    let mut more = more;
    v.append(&mut more);
    assert(strs(v@) =~= strs(before) + strs(m));
}

fn nonempty(s: &str) -> (r: bool)
    ensures
        r == (s@.len() > 0),
{
    proof {
        crate::text::lemma_blen_ge_len(s@);
    }
    crate::text::byte_len(s) > 0
}

/// The CMake list in `s`.
fn split_list_exec(s: &str) -> (r: Vec<String>)
    ensures
        strs(r@) == split_list(s@),
{
    let v = chars_of(s);
    let mut done: Vec<String> = Vec::new();
    let mut cur = String::new();
    let mut i: usize = 0;
    assert(s@.take(0) =~= Seq::<char>::empty());
    assert(strs(done@) =~= Seq::<Seq<char>>::empty());
    while i < v.len()
        invariant
            i <= v.len(),
            v@ == s@,
            strs(done@) == nonempty_trimmed(split_acc(s@.take(i as int)).0),
            cur@ == split_acc(s@.take(i as int)).1,
        decreases v.len() - i,
    {
        let c = v[i];
        let ghost acc = split_acc(s@.take(i as int));
        assert(s@.take(i + 1).drop_last() =~= s@.take(i as int));
        assert(s@.take(i + 1).last() == c);
        if c == ';' {
            assert(acc.0.push(acc.1).drop_last() =~= acc.0);
            let t = trim(cur.as_str());
            if nonempty(t.as_str()) {
                push_string(&mut done, t);
            }
            cur = String::new();
            assert(cur@ =~= Seq::<char>::empty());
        } else {
            cur.push(c);
        }
        i += 1;
    }
    assert(s@.take(i as int) =~= s@);
    assert(split_acc(s@).0.push(split_acc(s@).1).drop_last() =~= split_acc(s@).0);
    let t = trim(cur.as_str());
    if nonempty(t.as_str()) {
        push_string(&mut done, t);
    }
    done
}

fn join_semi_exec(vals: &Vec<String>) -> (r: String)
    ensures
        r@ == join_semi(strs(vals@)),
{
    let ghost sv = strs(vals@);
    let mut r = String::new();
    let mut i: usize = 0;
    assert(sv.take(0) =~= Seq::<Seq<char>>::empty());
    while i < vals.len()
        invariant
            i <= vals.len(),
            sv == strs(vals@),
            r@ == join_semi(sv.take(i as int)),
        decreases vals.len() - i,
    {
        assert(sv.take(i + 1).drop_last() =~= sv.take(i as int));
        if i > 0 {
            r.push(';');
        } else {
            assert(r@ =~= Seq::<char>::empty());
        }
        push_str(&mut r, vals[i].as_str());
        assert(r@ =~= join_semi(sv.take(i + 1)));
        i += 1;
    }
    assert(sv.take(i as int) =~= sv);
    r
}

fn find_dollar_brace_exec(v: &Vec<char>, i: usize) -> (r: Option<usize>)
    requires
        i <= v.len(),
    ensures
        r matches Some(j) ==> find_dollar_brace(v@, i as int) == Some(j as int),
        r is None ==> find_dollar_brace(v@, i as int) is None,
{
    let mut j = i;
    while v.len() - j > 1
        invariant
            i <= j <= v.len(),
            find_dollar_brace(v@, j as int) == find_dollar_brace(v@, i as int),
        decreases v.len() - j,
    {
        if v[j] == '$' && v[j + 1] == '{' {
            return Some(j);
        }
        j += 1;
    }
    None
}

fn find_char_exec(v: &Vec<char>, c: char, i: usize) -> (r: Option<usize>)
    requires
        i <= v.len(),
    ensures
        r matches Some(j) ==> find_char(v@, c, i as int) == Some(j as int),
        r is None ==> find_char(v@, c, i as int) is None,
{
    let mut j = i;
    while j < v.len()
        invariant
            i <= j <= v.len(),
            find_char(v@, c, j as int) == find_char(v@, c, i as int),
        decreases v.len() - j,
    {
        if v[j] == c {
            return Some(j);
        }
        j += 1;
    }
    None
}

fn sub_chars(v: &Vec<char>, from: usize, to: usize) -> (r: Vec<char>)
    requires
        from <= to <= v.len(),
    ensures
        r@ == v@.subrange(from as int, to as int),
{
    let mut r: Vec<char> = Vec::new();
    let mut i = from;
    while i < to
        invariant
            from <= i <= to <= v.len(),
            r@ == v@.subrange(from as int, i as int),
        decreases to - i,
    {
        r.push(v[i]);
        i += 1;
        assert(r@ =~= v@.subrange(from as int, i as int));
    }
    r
}

fn string_of_chars(v: &Vec<char>, from: usize, to: usize) -> (r: String)
    requires
        from <= to <= v.len(),
    ensures
        r@ == v@.subrange(from as int, to as int),
{
    crate::text::string_of_range(v, from, to)
}

// ---------------------------------------------------------------------------
// Resolving arguments
// ---------------------------------------------------------------------------
fn is_var_ref_exec(v: &Vec<char>) -> (r: bool)
    ensures
        r == is_var_ref(v@),
{
    let n = v.len();
    if n < 3 || v[0] != '$' || v[1] != '{' || v[n - 1] != '}' {
        return false;
    }
    let inner = sub_chars(v, 2, n - 1);
    find_dollar_brace_exec(&inner, 0).is_none()
}

fn lookup_var_exec(name: &str, locals: &Vec<(String, (Vec<String>, bool))>, iters: &Vec<(String, (String, bool))>) -> (r: (Vec<String>, bool))
    ensures
        (strs(r.0@), r.1) == lookup_var(name@, locals_view(locals@), iters_view(iters@)),
{
    match lookup_iter(iters, name) {
        Some((val, ok)) => {
            let mut r: Vec<String> = Vec::new();
            push_string(&mut r, val);
            assert(strs(r@) =~= seq![val@]);
            (r, ok)
        },
        None => match lookup_local(locals, name) {
            Some(x) => x,
            None => {
                let r: Vec<String> = Vec::new();
                assert(strs(r@) =~= Seq::<Seq<char>>::empty());
                (r, false)
            },
        },
    }
}

fn var_text_exec(name: &str, locals: &Vec<(String, (Vec<String>, bool))>, iters: &Vec<(String, (String, bool))>) -> (r: (String, bool))
    ensures
        (r.0@, r.1) == var_text(name@, locals_view(locals@), iters_view(iters@)),
{
    match lookup_iter(iters, name) {
        Some(x) => x,
        None => match lookup_local(locals, name) {
            Some(x) => (join_semi_exec(&x.0), x.1),
            None => (String::new(), false),
        },
    }
}

/// `v` with each `${name}` replaced by the variable's text.
fn interp_exec(v: &Vec<char>, locals: &Vec<(String, (Vec<String>, bool))>, iters: &Vec<(String, (String, bool))>) -> (r: (String, bool))
    ensures
        (r.0@, r.1) == interp_from(v@, 0, locals_view(locals@), iters_view(iters@)),
{
    let ghost lv = locals_view(locals@);
    let ghost iv = iters_view(iters@);
    let ghost goal = interp_from(v@, 0, lv, iv);
    let mut result = String::new();
    let mut ok = true;
    let mut pos: usize = 0;
    loop
        invariant
            pos <= v.len(),
            lv == locals_view(locals@),
            iv == iters_view(iters@),
            goal == interp_from(v@, 0, lv, iv),
            (result@ + interp_from(v@, pos as int, lv, iv).0, ok && interp_from(
                v@,
                pos as int,
                lv,
                iv,
            ).1) == goal,
        decreases v.len() - pos,
    {
        proof {
            lemma_find_dollar_brace(v@, pos as int);
        }
        match find_dollar_brace_exec(v, pos) {
            None => {
                let tail = string_of_chars(v, pos, v.len());
                push_str(&mut result, tail.as_str());
                assert(result@ =~= goal.0);
                assert(ok == goal.1);
                return (result, ok);
            },
            Some(st) => {
                proof {
                    lemma_find_char(v@, '}', st + 2);
                }
                let head = string_of_chars(v, pos, st);
                push_str(&mut result, head.as_str());
                match find_char_exec(v, '}', st + 2) {
                    Some(e) => {
                        let name = string_of_chars(v, st + 2, e);
                        let (val, vok) = var_text_exec(name.as_str(), locals, iters);
                        push_str(&mut result, val.as_str());
                        ok = ok && vok;
                        pos = e + 1;
                    },
                    None => {
                        result.push('$');
                        result.push('{');
                        ok = false;
                        pos = st + 2;
                    },
                }
                assert(result@ + interp_from(v@, pos as int, lv, iv).0 =~= goal.0);
            },
        }
    }
}

/// The values that the argument `raw` stands for.
fn resolve_arg_exec(raw: &str, locals: &Vec<(String, (Vec<String>, bool))>, iters: &Vec<(String, (String, bool))>) -> (r: (Vec<String>, bool))
    ensures
        (strs(r.0@), r.1) == resolve_arg(raw@, locals_view(locals@), iters_view(iters@)),
{
    let v = chars_of(raw);
    let n = v.len();
    if n >= 2 && v[0] == '"' && v[n - 1] == '"' {
        let inner = sub_chars(&v, 1, n - 1);
        if is_var_ref_exec(&inner) {
            let name = string_of_chars(&inner, 2, inner.len() - 1);
            return lookup_var_exec(name.as_str(), locals, iters);
        }
        let (t, ok) = interp_exec(&inner, locals, iters);
        return (split_list_exec(t.as_str()), ok);
    }
    if is_var_ref_exec(&v) {
        let name = string_of_chars(&v, 2, n - 1);
        return lookup_var_exec(name.as_str(), locals, iters);
    }
    (split_list_exec(raw), true)
}

/// All of `raws[from..]` resolved, one after the other.
fn resolve_all_exec(raws: &Vec<String>, from: usize, locals: &Vec<(String, (Vec<String>, bool))>, iters: &Vec<(String, (String, bool))>) -> (r: (Vec<String>, bool))
    requires
        from <= raws.len(),
    ensures
        (strs(r.0@), r.1) == resolve_all(
            strs(raws@).skip(from as int),
            locals_view(locals@),
            iters_view(iters@),
        ),
{
    let ghost sv = strs(raws@).skip(from as int);
    let mut vals: Vec<String> = Vec::new();
    let mut ok = true;
    let mut i = from;
    assert(sv.take(0) =~= Seq::<Seq<char>>::empty());
    assert(strs(vals@) =~= Seq::<Seq<char>>::empty());
    while i < raws.len()
        invariant
            from <= i <= raws.len(),
            sv == strs(raws@).skip(from as int),
            (strs(vals@), ok) == resolve_all(
                sv.take(i - from),
                locals_view(locals@),
                iters_view(iters@),
            ),
        decreases raws.len() - i,
    {
        let (more, rok) = resolve_arg_exec(raws[i].as_str(), locals, iters);
        assert(sv.take(i + 1 - from).drop_last() =~= sv.take(i - from));
        assert(sv.take(i + 1 - from).last() == raws@[i as int]@);
        append_strings(&mut vals, more);
        ok = ok && rok;
        i += 1;
    }
    assert(sv.take(i - from) =~= sv);
    (vals, ok)
}

// ---------------------------------------------------------------------------
// Commands
// ---------------------------------------------------------------------------
pub open spec fn cmds_view(cmds: Seq<CommandNode>) -> Seq<Seq<TokenView>> {
    cmds.map_values(|c: CommandNode| c.view())
}

fn sub_cmds(cmds: &[CommandNode], i: usize, j: usize) -> (r: &[CommandNode])
    requires
        i <= j <= cmds@.len(),
    ensures
        cmds_view(r@) == cmds_view(cmds@).subrange(i as int, j as int),
        r@.len() == j - i,
{
    let r = slice_subrange(cmds, i, j);
    assert(cmds_view(r@) =~= cmds_view(cmds@).subrange(i as int, j as int));
    r
}

/// The name of a command (empty when it has none).
fn cmd_name_exec(c: &CommandNode) -> (r: String)
    ensures
        r@ == command_name_text(c.view()),
{
    match c.name() {
        Some(t) => t.text,
        None => String::new(),
    }
}

/// The arguments of a command, without comments.
fn cmd_args_exec(c: &CommandNode) -> (r: Vec<String>)
    ensures
        strs(r@) == cmd_args(c.view()),
{
    let toks = c.args();
    let ghost tv = tokens_view(toks@);
    let mut r: Vec<String> = Vec::new();
    let mut i: usize = 0;
    assert(tv.take(0) =~= Seq::<TokenView>::empty());
    assert(strs(r@) =~= Seq::<Seq<char>>::empty());
    while i < toks.len()
        invariant
            i <= toks.len(),
            tv == tokens_view(toks@),
            strs(r@) == arg_texts(tv.take(i as int)),
        decreases toks.len() - i,
    {
        assert(tv.take(i + 1).drop_last() =~= tv.take(i as int));
        assert(tv.take(i + 1).last() == token_view(toks@[i as int]));
        if toks[i].kind != SyntaxKind::COMMENT {
            push_string(&mut r, toks[i].text.clone());
        }
        i += 1;
    }
    assert(tv.take(i as int) =~= tv);
    r
}

/// The index of the command that closes the block opened before `j`.
fn find_block_end_exec(cmds: &[CommandNode], j: usize, open: &str, close: &str) -> (r: Option<usize>)
    requires
        j <= cmds.len(),
    ensures
        r matches Some(e) ==> find_block_end(cmds_view(cmds@), j as int, 1, open@, close@) == Some(
            e as int,
        ),
        r is None ==> find_block_end(cmds_view(cmds@), j as int, 1, open@, close@) is None,
{
    let ghost cv = cmds_view(cmds@);
    let mut depth: usize = 1;
    let mut k = j;
    while k < cmds.len()
        invariant
            j <= k <= cmds.len(),
            1 <= depth <= k - j + 1,
            cv == cmds_view(cmds@),
            find_block_end(cv, k as int, depth as nat, open@, close@) == find_block_end(
                cv,
                j as int,
                1,
                open@,
                close@,
            ),
        decreases cmds.len() - k,
    {
        assert(cv[k as int] == cmds@[k as int].view());
        let n = cmd_name_exec(&cmds[k]);
        if eq_ignore_ascii_case(n.as_str(), open) {
            if depth == usize::MAX {
                assert(k + 1 == cmds.len());
                assert(find_block_end(cv, k + 1, (depth + 1) as nat, open@, close@) is None);
                return None;
            }
            depth = depth + 1;
        } else if eq_ignore_ascii_case(n.as_str(), close) {
            if depth <= 1 {
                return Some(k);
            }
            depth = depth - 1;
        }
        k += 1;
    }
    None
}

// ---------------------------------------------------------------------------
// Variables set in a body
// ---------------------------------------------------------------------------
/// Marks as not definitive each variable that a command of `body` writes.
fn taint_exec(body: &[CommandNode], locals: &mut Vec<(String, (Vec<String>, bool))>)
    ensures
        locals_view(final(locals)@) == taint_from(cmds_view(body@), 0, locals_view(old(locals)@)),
{
    let ghost bv = cmds_view(body@);
    let ghost goal = taint_from(bv, 0, locals_view(locals@));
    let mut k: usize = 0;
    while k < body.len()
        invariant
            k <= body.len(),
            bv == cmds_view(body@),
            goal == taint_from(bv, k as int, locals_view(locals@)),
        decreases body.len() - k,
    {
        assert(bv[k as int] == body@[k as int].view());
        let name = cmd_name_exec(&body[k]);
        let args = cmd_args_exec(&body[k]);
        let n_args = args.len();
        let target: Option<&String> = if eq_ignore_ascii_case(name.as_str(), "set") && n_args > 0 {
            Some(&args[0])
        } else if eq_ignore_ascii_case(name.as_str(), "list") && n_args >= 2
            && eq_ignore_ascii_case(args[0].as_str(), "APPEND") {
            Some(&args[1])
        } else {
            None
        };
        assert(written_var(bv[k as int]) == match target {
            Some(t) => Some(t@),
            None => None::<Seq<char>>,
        });
        match target {
            Some(t) => {
                let vals = match lookup_local(locals, t.as_str()) {
                    Some(x) => x.0,
                    None => {
                        let e: Vec<String> = Vec::new();
                        assert(strs(e@) =~= Seq::<Seq<char>>::empty());
                        e
                    },
                };
                insert_local(locals, t.clone(), vals, false);
            },
            None => {},
        }
        k += 1;
    }
}

/// Runs the commands `cmds` over the variables `locals`, as `locals_from`
/// states.
fn process_locals(cmds: &[CommandNode], iters: &Vec<(String, (String, bool))>, locals: &mut Vec<(String, (Vec<String>, bool))>)
    ensures
        locals_view(final(locals)@) == locals_from(
            cmds_view(cmds@),
            0,
            iters_view(iters@),
            locals_view(old(locals)@),
        ),
    decreases cmds@.len(),
{
    let ghost cv = cmds_view(cmds@);
    let ghost itv = iters_view(iters@);
    let ghost goal = locals_from(cv, 0, itv, locals_view(locals@));
    let mut i: usize = 0;
    while i < cmds.len()
        invariant
            i <= cmds.len(),
            cv == cmds_view(cmds@),
            itv == iters_view(iters@),
            goal == locals_from(cv, i as int, itv, locals_view(locals@)),
        decreases cmds.len() - i,
    {
        assert(cv[i as int] == cmds@[i as int].view());
        let ghost lv0 = locals_view(locals@);
        let name = cmd_name_exec(&cmds[i]);
        let args = cmd_args_exec(&cmds[i]);
        let n_args = args.len();
        if eq_ignore_ascii_case(name.as_str(), "set") && n_args > 0 {
            let (vals, ok) = resolve_all_exec(&args, 1, locals, iters);
            insert_local(locals, args[0].clone(), vals, ok);
            i += 1;
        } else if eq_ignore_ascii_case(name.as_str(), "list") && n_args >= 2 && eq_ignore_ascii_case(
            args[0].as_str(),
            "APPEND",
        ) {
            let (vals, ok) = resolve_all_exec(&args, 2, locals, iters);
            let (mut prev, prev_ok) = match lookup_local(locals, args[1].as_str()) {
                Some(x) => x,
                None => {
                    let e: Vec<String> = Vec::new();
                    assert(strs(e@) =~= Seq::<Seq<char>>::empty());
                    (e, true)
                },
            };
            append_strings(&mut prev, vals);
            insert_local(locals, args[1].clone(), prev, prev_ok && ok);
            i += 1;
        } else if eq_ignore_ascii_case(name.as_str(), "foreach") {
            proof {
                lemma_find_block_end(cv, i + 1, 1, "foreach"@, "endforeach"@);
            }
            let end = find_block_end_exec(cmds, i + 1, "foreach", "endforeach");
            let is_items = n_args >= 3 && str_eq(to_uppercase(args[1].as_str()).as_str(), "IN")
                && str_eq(to_uppercase(args[2].as_str()).as_str(), "ITEMS");
            match end {
                Some(e) => {
                    if is_items {
                        let (items, items_ok) = resolve_all_exec(&args, 3, locals, iters);
                        let body = sub_cmds(cmds, i + 1, e);
                        let ghost bv = cmds_view(body@);
                        let ghost folded = foreach_fold(
                            bv,
                            args@[0]@,
                            strs(items@),
                            items_ok,
                            0,
                            itv,
                            lv0,
                        );
                        let ghost target = locals_from(
                            cv,
                            e + 1,
                            itv,
                            if items_ok {
                                folded
                            } else {
                                taint_from(bv, 0, folded)
                            },
                        );
                        assert(goal == target);
                        let mut k: usize = 0;
                        while k < items.len()
                            invariant
                                k <= items.len(),
                                args.len() >= 3,
                                bv == cmds_view(body@),
                                itv == iters_view(iters@),
                                body@.len() < cmds@.len(),
                                foreach_fold(
                                    bv,
                                    args@[0]@,
                                    strs(items@),
                                    items_ok,
                                    k as int,
                                    itv,
                                    locals_view(locals@),
                                ) == foreach_fold(bv, args@[0]@, strs(items@), items_ok, 0, itv, lv0),
                            decreases items.len() - k,
                        {
                            let mut inner = clone_iters(iters);
                            insert_iter(&mut inner, args[0].clone(), items[k].clone(), items_ok);
                            process_locals(body, &inner, locals);
                            k += 1;
                        }
                        assert(locals_view(locals@) == foreach_fold(
                            bv,
                            args@[0]@,
                            strs(items@),
                            items_ok,
                            0,
                            itv,
                            lv0,
                        ));
                        if !items_ok {
                            taint_exec(body, locals);
                        }
                    }
                    i = e + 1;
                },
                None => {
                    i += 1;
                },
            }
        } else {
            i += 1;
        }
    }
}

// ---------------------------------------------------------------------------
// Discovered schemas
// ---------------------------------------------------------------------------
/// A schema found for a function or macro, and whether every keyword list
/// of its `cmake_parse_arguments` call resolved.
pub struct AnalysisResult {
    pub name: String,
    pub schema: FunctionSchema,
    pub is_definitive: bool,
}

/// A schema that declares only options and one-value and multi-value
/// keywords.
pub open spec fn keywords_only(s: FunctionSchema) -> bool {
    &&& s.positional is None
    &&& !s.no_break_first_argument
    &&& s.simple_keywords@.len() == 0
    &&& s.list_keyword_types@.len() == 0
    &&& s.default_list_type == crate::schema::ListType::Packed
    &&& s.compound_list_keywords@.len() == 0
    &&& s.modes@.len() == 0
    &&& s.path_keywords@.len() == 0
    &&& s.subparsers@.len() == 0
}

impl AnalysisResult {
    pub open spec fn view(&self) -> ResultV {
        ResultV {
            name: self.name@,
            options: strs(self.schema.options@),
            one_value: strs(self.schema.one_value_keywords@),
            multi_value: strs(self.schema.multi_value_keywords@),
            definitive: self.is_definitive,
        }
    }
}

pub open spec fn results_view(rs: Seq<AnalysisResult>) -> Seq<ResultV> {
    rs.map_values(|r: AnalysisResult| r.view())
}

/// The keywords a `cmake_parse_arguments` call declares, as a schema.
fn parse_cpa_exec(args: &Vec<String>, locals: &Vec<(String, (Vec<String>, bool))>) -> (r: Option<(FunctionSchema, bool)>)
    ensures
        r is Some == parse_cpa(strs(args@), locals_view(locals@)) is Some,
        r matches Some(x) ==> keywords_only(x.0) && parse_cpa(strs(args@), locals_view(locals@))
            == Some(
            (
                strs(x.0.options@),
                strs(x.0.one_value_keywords@),
                strs(x.0.multi_value_keywords@),
                x.1,
            ),
        ),
{
    let ghost sa = strs(args@);
    let pa = args.len() > 0 && str_eq(args[0].as_str(), "PARSE_ARGV");
    assert(pa == (sa.len() > 0 && sa[0] == "PARSE_ARGV"@));
    let o: usize = if pa {
        3
    } else {
        1
    };
    if args.len() <= o + 2 {
        return None;
    }
    let empty: Vec<(String, (String, bool))> = Vec::new();
    assert(iters_view(empty@) =~= Map::<Seq<char>, (Seq<char>, bool)>::empty()) by {
        assert(empty@.map_values(|p: (String, (String, bool))| (p.0@, (p.1.0@, p.1.1))).len() == 0);
    }
    let (options, r1) = resolve_arg_exec(args[o].as_str(), locals, &empty);
    let (one_value, r2) = resolve_arg_exec(args[o + 1].as_str(), locals, &empty);
    let (multi_value, r3) = resolve_arg_exec(args[o + 2].as_str(), locals, &empty);
    let mut schema = FunctionSchema::default();
    schema.simple_keywords = Vec::new();
    schema.options = options;
    schema.one_value_keywords = one_value;
    schema.multi_value_keywords = multi_value;
    Some((schema, r1 && r2 && r3))
}

/// The first `cmake_parse_arguments` call of `body` that declares keywords.
fn first_cpa_exec(body: &[CommandNode], locals: &Vec<(String, (Vec<String>, bool))>) -> (r: Option<(FunctionSchema, bool)>)
    ensures
        r is Some == first_cpa(cmds_view(body@), 0, locals_view(locals@)) is Some,
        r matches Some(x) ==> keywords_only(x.0) && first_cpa(cmds_view(body@), 0, locals_view(locals@))
            == Some(
            (
                strs(x.0.options@),
                strs(x.0.one_value_keywords@),
                strs(x.0.multi_value_keywords@),
                x.1,
            ),
        ),
{
    let ghost bv = cmds_view(body@);
    let mut k: usize = 0;
    while k < body.len()
        invariant
            k <= body.len(),
            bv == cmds_view(body@),
            first_cpa(bv, k as int, locals_view(locals@)) == first_cpa(bv, 0, locals_view(locals@)),
        decreases body.len() - k,
    {
        assert(bv[k as int] == body@[k as int].view());
        let name = cmd_name_exec(&body[k]);
        if eq_ignore_ascii_case(name.as_str(), "cmake_parse_arguments") {
            let args = cmd_args_exec(&body[k]);
            let r = parse_cpa_exec(&args, locals);
            if r.is_some() {
                return r;
            }
        }
        k += 1;
    }
    None
}

fn push_result(v: &mut Vec<AnalysisResult>, r: AnalysisResult)
    ensures
        results_view(final(v)@) == results_view(old(v)@).push(r.view()),
        forall|i: int| 0 <= i < old(v)@.len() ==> final(v)@[i] == old(v)@[i],
        final(v)@.last() == r,
        final(v)@.len() == old(v)@.len() + 1,
{
    let ghost before = v@;
    v.push(r);
    assert(results_view(v@) =~= results_view(before).push(r.view()));
}

fn append_results(v: &mut Vec<AnalysisResult>, more: Vec<AnalysisResult>)
    ensures
        results_view(final(v)@) == results_view(old(v)@) + results_view(more@),
        final(v)@ == old(v)@ + more@,
{
    let ghost before = v@;
    let ghost m = more@;
    let mut more = more;
    v.append(&mut more);
    assert(results_view(v@) =~= results_view(before) + results_view(m));
}

/// The schemas discovered in `cmds`, as `analyze_from` states.
fn analyze_commands(cmds: &[CommandNode]) -> (r: Vec<AnalysisResult>)
    ensures
        results_view(r@) == analyze_from(cmds_view(cmds@), 0),
        forall|i: int| 0 <= i < r@.len() ==> keywords_only(#[trigger] r@[i].schema),
    decreases cmds@.len(),
{
    let ghost cv = cmds_view(cmds@);
    let mut results: Vec<AnalysisResult> = Vec::new();
    let mut i: usize = 0;
    assert(results_view(results@) =~= Seq::<ResultV>::empty());
    while i < cmds.len()
        invariant
            i <= cmds.len(),
            cv == cmds_view(cmds@),
            results_view(results@) + analyze_from(cv, i as int) == analyze_from(cv, 0),
            forall|t: int| 0 <= t < results@.len() ==> keywords_only(#[trigger] results@[t].schema),
        decreases cmds.len() - i,
    {
        assert(cv[i as int] == cmds@[i as int].view());
        let ghost before = results_view(results@);
        let name = cmd_name_exec(&cmds[i]);
        let is_function = eq_ignore_ascii_case(name.as_str(), "function");
        let is_macro = eq_ignore_ascii_case(name.as_str(), "macro");
        let args = cmd_args_exec(&cmds[i]);
        if (is_function || is_macro) && args.len() > 0 {
            let end_kw = if is_function {
                "endfunction"
            } else {
                "endmacro"
            };
            proof {
                lemma_find_block_end(cv, i + 1, 1, name@, end_kw@);
            }
            match find_block_end_exec(cmds, i + 1, name.as_str(), end_kw) {
                Some(j) => {
                    let fn_name = to_lowercase(args[0].as_str());
                    let body = sub_cmds(cmds, i + 1, j);
                    let ghost bv = cmds_view(body@);
                    let mut locals: Vec<(String, (Vec<String>, bool))> = Vec::new();
                    let no_iters: Vec<(String, (String, bool))> = Vec::new();
                    assert(locals_view(locals@) =~= Map::<Seq<char>, (Seq<Seq<char>>, bool)>::empty()) by {
                        assert(locals@.map_values(
                            |p: (String, (Vec<String>, bool))| (p.0@, (strs(p.1.0@), p.1.1)),
                        ).len() == 0);
                    }
                    assert(iters_view(no_iters@) =~= Map::<Seq<char>, (Seq<char>, bool)>::empty()) by {
                        assert(no_iters@.map_values(|p: (String, (String, bool))| (p.0@, (p.1.0@, p.1.1))).len() == 0);
                    }
                    process_locals(body, &no_iters, &mut locals);
                    assert(locals_view(locals@) == collect_locals(bv));
                    match first_cpa_exec(body, &locals) {
                        Some((schema, definitive)) => {
                            push_result(
                                &mut results,
                                AnalysisResult { name: fn_name, schema, is_definitive: definitive },
                            );
                        },
                        None => {},
                    }
                    let nested = analyze_commands(body);
                    append_results(&mut results, nested);
                    i = j + 1;
                },
                None => {
                    i += 1;
                },
            }
        } else {
            i += 1;
        }
    }
    results
}

/// Schema discovery over a parsed file.
pub struct Analyzer;

impl Analyzer {
    /// The schemas of the functions and macros of `root` that call
    /// `cmake_parse_arguments`, in source order (nested definitions after
    /// their parent).
    pub fn analyze_file(root: &SyntaxNode) -> (r: Vec<AnalysisResult>)
        ensures
            results_view(r@) == analyze_from(root_commands(root.view()), 0),
            forall|i: int| 0 <= i < r@.len() ==> keywords_only(#[trigger] r@[i].schema),
    {
        let ghost es = root.view();
        let mut cmds: Vec<CommandNode> = Vec::new();
        let mut i: usize = 0;
        assert(es.take(0) =~= Seq::<crate::cst::ElementView>::empty());
        assert(cmds_view(cmds@) =~= Seq::<Seq<TokenView>>::empty());
        while i < root.children.len()
            invariant
                i <= root.children.len(),
                es == root.view(),
                cmds_view(cmds@) == root_commands(es.take(i as int)),
            decreases root.children.len() - i,
        {
            assert(es.take(i + 1).drop_last() =~= es.take(i as int));
            assert(es.take(i + 1).last() == crate::cst::element_view(root.children@[i as int]));
            if let SyntaxElement::Command(c) = &root.children[i] {
                let ghost before = cmds@;
                let d = c.duplicate();
                cmds.push(d);
                assert(cmds_view(cmds@) =~= cmds_view(before).push(c.view()));
            }
            i += 1;
        }
        assert(es.take(i as int) =~= es);
        analyze_commands(cmds.as_slice())
    }
}

/// The registry holding the discovered schemas, keyed by function name (a
/// name found twice keeps its later schema), each name once.
pub fn results_to_registry(results: Vec<AnalysisResult>) -> (r: SchemaRegistry)
    ensures
        r.functions@ == entries_merge(
            Seq::empty(),
            results@.map_values(|x: AnalysisResult| (x.name, x.schema)),
        ),
        names_distinct(r.functions@),
        forall|k: Seq<char>| #[trigger]
            r.lookup(k) == key_value(
                results@.map_values(|x: AnalysisResult| (x.name, x.schema)),
                k,
            ),
{
    let ghost f = |x: AnalysisResult| (x.name, x.schema);
    let ghost rs = results@;
    let ghost w = rs.map_values(f);
    let mut r = SchemaRegistry::default();
    assert(r.functions@ =~= Seq::<(String, FunctionSchema)>::empty());
    for x in it: results.into_iter()
        invariant
            it.seq() == rs,
            f == (|x: AnalysisResult| (x.name, x.schema)),
            w == rs.map_values(f),
            r.functions@ == entries_merge(Seq::empty(), w.take(it.index() as int)),
            names_distinct(r.functions@),
    {
        assert(w.take(it.index() + 1).drop_last() =~= w.take(it.index() as int));
        assert(w.take(it.index() + 1).last() == f(x));
        r.insert(x.name, x.schema);
    }
    assert(w.take(w.len() as int) =~= w);
    proof {
        assert forall|k: Seq<char>| #[trigger]
            r.lookup(k) == key_value(w, k) by {
            law_merge_lookup(Seq::empty(), w, k);
        }
    }
    r
}

} // verus!
