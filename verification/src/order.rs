//! What formatting keeps, in order: in a file whose commands hold no
//! comments, the characters other than spaces, tabs and line breaks come out
//! exactly as they went in. Each layout function is shown to lay its words
//! out in their order, with only blanks between them.
use crate::config::Config;
use crate::content::{
    all_blank, balanced, bare_command, closed_command, lemma_blank_concat, lemma_indent_blank,
    opens_at, paren_delta, total, whole_command,
};
use crate::cst::{ElementView, TokenView, element_text, elements_text, first_unquoted};
use crate::format_spec::{
    FmtState, ItemsState, command_items, command_lines, command_name_text, extend_last,
    format_command, format_text, has_paren, head_comment, indent_text, is_blank, items_from,
    items_start, items_step, law_normalize_keeps_non_blank, layout_indent, lemma_non_blank_concat,
    name_paren_gap, non_blank, normalize_whitespace, opening, opt_char, push_arg, render_lines,
    single_from, single_line, visit_from, visit_step,
};
use crate::lexer::concat_texts;
use crate::syntax::SyntaxKind;
use crate::layout_spec::{
    ArgV, CondState, GenState, ItemV, LineV, MainState, PackState, PlaceState, app, app_all,
    append_to_last, arg_of_item, argv_groups_lines, can_append_to_last, chunk_lines,
    compound_header_len, cond_from, cond_step, dedent, gen_flush, gen_from, gen_step, greedy,
    greedy_from, group_command_argv, group_from, groups_from, has_splitter, is_generic_keyword,
    item_text, join, join_space, layout_generic_items, layout_main, layout_mode_header,
    layout_schema_args, layout_schema_items, layout_subparser, lemma_compound_header_len,
    lemma_mode_header_used, lemma_mode_positional_end, lemma_outer_end, lemma_subparser_end, line,
    line_texts, lines_at, mode_positional_end, outer_end, pack_arg_from, pack_arg_items,
    pack_arg_step, pack_command_argv, pack_command_argv_items, pack_condition, pack_packed,
    pack_value_items, pack_values, place_from, place_schema_comments, place_step, plain,
    positional_end, positional_max, prefix_lines, source_line_groups, spaced, subparser_end, texts,
    value_after, value_indent,
};
use crate::schema::{FunctionSchema, ListType};
use vstd::prelude::*;

verus! {

// ---------------------------------------------------------------------------
// Concatenations
// ---------------------------------------------------------------------------
/// `f` of each of `s`, concatenated in order.
pub open spec fn flat<T>(s: Seq<T>, f: spec_fn(T) -> Seq<char>) -> Seq<char>
    decreases s.len(),
{
    if s.len() == 0 {
        Seq::empty()
    } else {
        flat(s.drop_last(), f) + f(s.last())
    }
}

/// The non-blank characters of a text.
pub open spec fn nb_text() -> spec_fn(Seq<char>) -> Seq<char> {
    |v: Seq<char>| non_blank(v)
}

/// The non-blank characters of a line.
pub open spec fn nb_line() -> spec_fn(LineV) -> Seq<char> {
    |l: LineV| non_blank(l.text)
}

/// The non-blank characters of an argument.
pub open spec fn nb_arg() -> spec_fn(ArgV) -> Seq<char> {
    |a: ArgV| non_blank(a.text)
}

/// The non-blank characters of a group of words.
pub open spec fn nb_group() -> spec_fn(Seq<Seq<char>>) -> Seq<char> {
    |g: Seq<Seq<char>>| flat(g, nb_text())
}

pub proof fn lemma_flat_append<T>(a: Seq<T>, b: Seq<T>, f: spec_fn(T) -> Seq<char>)
    ensures
        flat(a + b, f) == flat(a, f) + flat(b, f),
    decreases b.len(),
{
    if b.len() == 0 {
        assert(a + b =~= a);
        assert(flat(a, f) + flat(b, f) =~= flat(a, f));
    } else {
        assert((a + b).drop_last() =~= a + b.drop_last());
        assert((a + b).last() == b.last());
        lemma_flat_append(a, b.drop_last(), f);
        assert(flat(a, f) + flat(b.drop_last(), f) + f(b.last()) =~= flat(a, f) + (flat(b.drop_last(), f)
            + f(b.last())));
    }
}

pub proof fn lemma_flat_push<T>(s: Seq<T>, x: T, f: spec_fn(T) -> Seq<char>)
    ensures
        flat(s.push(x), f) == flat(s, f) + f(x),
{
    assert(s.push(x).drop_last() =~= s);
}

pub proof fn lemma_flat_single<T>(x: T, f: spec_fn(T) -> Seq<char>)
    ensures
        flat(seq![x], f) == f(x),
{
    assert(seq![x].drop_last() =~= Seq::<T>::empty());
    assert(seq![x].last() == x);
    assert(flat(Seq::<T>::empty(), f) + f(x) =~= f(x));
}

/// Splitting off the first of `s.skip(i)`.
pub proof fn lemma_flat_skip_step<T>(s: Seq<T>, i: int, f: spec_fn(T) -> Seq<char>)
    requires
        0 <= i < s.len(),
    ensures
        flat(s.skip(i), f) == f(s[i]) + flat(s.skip(i + 1), f),
{
    assert(s.skip(i) =~= seq![s[i]] + s.skip(i + 1));
    lemma_flat_append(seq![s[i]], s.skip(i + 1), f);
    lemma_flat_single(s[i], f);
}

pub proof fn lemma_flat_split<T>(s: Seq<T>, i: int, f: spec_fn(T) -> Seq<char>)
    requires
        0 <= i <= s.len(),
    ensures
        flat(s, f) == flat(s.take(i), f) + flat(s.skip(i), f),
{
    assert(s =~= s.take(i) + s.skip(i));
    lemma_flat_append(s.take(i), s.skip(i), f);
}

// ---------------------------------------------------------------------------
// Non-blank characters of joined words
// ---------------------------------------------------------------------------
pub proof fn lemma_nb_blank(s: Seq<char>)
    requires
        all_blank(s),
    ensures
        non_blank(s) == Seq::<char>::empty(),
    decreases s.len(),
{
    if s.len() > 0 {
        assert(is_blank(s[s.len() - 1]));
        lemma_nb_blank(s.drop_last());
    }
}

pub proof fn lemma_nb_cat3(a: Seq<char>, b: Seq<char>, c: Seq<char>)
    requires
        all_blank(b),
    ensures
        non_blank(a + b + c) == non_blank(a) + non_blank(c),
{
    lemma_non_blank_concat(a, b);
    lemma_non_blank_concat(a + b, c);
    lemma_nb_blank(b);
    assert(non_blank(a) + Seq::<char>::empty() =~= non_blank(a));
}

pub proof fn lemma_nb_app(l: Seq<char>, v: Seq<char>)
    ensures
        non_blank(app(l, v)) == non_blank(l) + non_blank(v),
{
    lemma_non_blank_concat(l, v);
    lemma_nb_cat3(l, seq![' '], v);
}

pub proof fn lemma_nb_spaced(a: Seq<char>, b: Seq<char>)
    ensures
        non_blank(spaced(a, b)) == non_blank(a) + non_blank(b),
{
    lemma_nb_cat3(a, seq![' '], b);
}

pub proof fn lemma_nb_app_all(start: Seq<char>, vs: Seq<Seq<char>>)
    ensures
        non_blank(app_all(start, vs)) == non_blank(start) + flat(vs, nb_text()),
    decreases vs.len(),
{
    if vs.len() == 0 {
        assert(non_blank(start) + Seq::<char>::empty() =~= non_blank(start));
    } else {
        lemma_nb_app_all(start, vs.drop_last());
        lemma_nb_app(app_all(start, vs.drop_last()), vs.last());
        assert(non_blank(start) + flat(vs.drop_last(), nb_text()) + non_blank(vs.last()) =~= non_blank(
            start,
        ) + (flat(vs.drop_last(), nb_text()) + non_blank(vs.last())));
    }
}

pub proof fn lemma_nb_join(vs: Seq<Seq<char>>)
    ensures
        non_blank(join(vs)) == flat(vs, nb_text()),
{
    lemma_nb_app_all(Seq::empty(), vs);
    assert(Seq::<char>::empty() + flat(vs, nb_text()) =~= flat(vs, nb_text()));
}

pub proof fn lemma_nb_join_space(vs: Seq<Seq<char>>)
    ensures
        non_blank(join_space(vs)) == flat(vs, nb_text()),
    decreases vs.len(),
{
    if vs.len() == 0 {
        assert(non_blank(Seq::<char>::empty()) =~= Seq::<char>::empty());
    } else if vs.len() == 1 {
        assert(vs.drop_last() =~= Seq::<Seq<char>>::empty());
        assert(flat(vs.drop_last(), nb_text()) == Seq::<char>::empty());
        assert(vs.last() == vs[0]);
        assert(Seq::<char>::empty() + non_blank(vs[0]) =~= non_blank(vs[0]));
    } else if vs.len() > 1 {
        lemma_nb_join_space(vs.drop_last());
        lemma_nb_spaced(join_space(vs.drop_last()), vs.last());
    }
}

// ---------------------------------------------------------------------------
// Lines of values
// ---------------------------------------------------------------------------
pub proof fn lemma_lines_at(vs: Seq<Seq<char>>, indent: usize)
    ensures
        flat(lines_at(vs, indent), nb_line()) == flat(vs, nb_text()),
    decreases vs.len(),
{
    if vs.len() > 0 {
        assert(lines_at(vs, indent).drop_last() =~= lines_at(vs.drop_last(), indent));
        lemma_lines_at(vs.drop_last(), indent);
    }
}

pub proof fn lemma_prefix_lines(prefix: Seq<Seq<char>>, indent: usize)
    ensures
        flat(prefix_lines(prefix, indent), nb_line()) == flat(prefix, nb_text()),
{
    if prefix.len() > 0 {
        lemma_flat_single(line(indent, join(prefix)), nb_line());
        lemma_nb_join(prefix);
    } else {
        assert(prefix =~= Seq::<Seq<char>>::empty());
    }
}

pub proof fn lemma_texts(args: Seq<ArgV>)
    ensures
        flat(texts(args), nb_text()) == flat(args, nb_arg()),
    decreases args.len(),
{
    if args.len() > 0 {
        assert(texts(args).drop_last() =~= texts(args.drop_last()));
        lemma_texts(args.drop_last());
    }
}

pub proof fn lemma_greedy_from(
    values: Seq<Seq<char>>,
    i: int,
    width: usize,
    indent: usize,
    lines: Seq<LineV>,
    current: Seq<char>,
)
    requires
        0 <= i <= values.len(),
    ensures
        flat(greedy_from(values, i, width, indent, lines, current), nb_line()) == flat(lines, nb_line())
            + non_blank(current) + flat(values.skip(i), nb_text()),
    decreases values.len() - i,
{
    let fl = flat(lines, nb_line());
    if i == values.len() {
        assert(values.skip(i) =~= Seq::<Seq<char>>::empty());
        if current.len() > 0 {
            lemma_flat_push(lines, line(indent, current), nb_line());
        } else {
            assert(current =~= Seq::<char>::empty());
        }
        assert(fl + non_blank(current) + Seq::<char>::empty() =~= fl + non_blank(current));
    } else {
        lemma_flat_skip_step(values, i, nb_text());
        let value = values[i];
        let rest = flat(values.skip(i + 1), nb_text());
        if current.len() == 0 {
            lemma_greedy_from(values, i + 1, width, indent, lines, value);
            assert(current =~= Seq::<char>::empty());
            assert(fl + non_blank(value) + rest =~= fl + Seq::<char>::empty() + (non_blank(value) + rest));
        } else if crate::layout_spec::fits(current, crate::layout_spec::sep(current, value), value, width) {
            lemma_nb_app(current, value);
            lemma_greedy_from(values, i + 1, width, indent, lines, app(current, value));
            assert(fl + (non_blank(current) + non_blank(value)) + rest =~= fl + non_blank(current) + (
            non_blank(value) + rest));
        } else {
            lemma_flat_push(lines, line(indent, current), nb_line());
            lemma_greedy_from(values, i + 1, width, indent, lines.push(line(indent, current)), value);
            assert(fl + non_blank(current) + non_blank(value) + rest =~= fl + non_blank(current) + (
            non_blank(value) + rest));
        }
    }
}

pub proof fn lemma_greedy(values: Seq<Seq<char>>, width: usize, indent: usize)
    ensures
        flat(greedy(values, width, indent), nb_line()) == flat(values, nb_text()),
{
    lemma_greedy_from(values, 0, width, indent, Seq::empty(), Seq::empty());
    assert(values.skip(0) =~= values);
    assert(Seq::<char>::empty() + non_blank(Seq::<char>::empty()) + flat(values, nb_text()) =~= flat(
        values,
        nb_text(),
    ));
}

pub proof fn lemma_chunk_lines(values: Seq<Seq<char>>, n: nat, width: usize, indent: usize)
    requires
        n > 0,
    ensures
        flat(chunk_lines(values, n, width, indent), nb_line()) == flat(values, nb_text()),
    decreases values.len(),
{
    if values.len() > 0 {
        let k = if values.len() < n {
            values.len() as int
        } else {
            n as int
        };
        let chunk = values.take(k);
        let rest = chunk_lines(values.skip(k), n, width, indent);
        lemma_chunk_lines(values.skip(k), n, width, indent);
        lemma_flat_split(values, k, nb_text());
        let joined = join_space(chunk);
        if crate::text::blen(joined) <= width {
            lemma_nb_join_space(chunk);
            lemma_flat_append(seq![line(indent, joined)], rest, nb_line());
            lemma_flat_single(line(indent, joined), nb_line());
        } else {
            let first = seq![line(indent, chunk[0])];
            let mid = lines_at(chunk.skip(1), crate::layout_spec::inc(indent));
            lemma_flat_append(first, mid, nb_line());
            lemma_flat_append(first + mid, rest, nb_line());
            lemma_flat_single(line(indent, chunk[0]), nb_line());
            lemma_lines_at(chunk.skip(1), crate::layout_spec::inc(indent));
            lemma_flat_split(chunk, 1, nb_text());
            lemma_flat_single(chunk[0], nb_text());
            assert(chunk.take(1) =~= seq![chunk[0]]);
        }
    }
}

pub proof fn lemma_pack_packed(indent: usize, prefix: Seq<Seq<char>>, values: Seq<Seq<char>>, width: usize)
    ensures
        flat(pack_packed(indent, prefix, values, width), nb_line()) == flat(prefix, nb_text()) + flat(
            values,
            nb_text(),
        ),
{
    let single = app_all(join(prefix), values);
    if prefix.len() > 0 && crate::text::blen(single) <= width {
        lemma_flat_single(line(indent, single), nb_line());
        lemma_nb_app_all(join(prefix), values);
        lemma_nb_join(prefix);
    } else {
        lemma_flat_append(
            prefix_lines(prefix, indent),
            greedy(values, width, value_indent(prefix, indent)),
            nb_line(),
        );
        lemma_prefix_lines(prefix, indent);
        lemma_greedy(values, width, value_indent(prefix, indent));
    }
}

pub proof fn lemma_group_from(values: Seq<Seq<char>>, i: int, after_separator: bool)
    requires
        0 <= i <= values.len(),
    ensures
        flat(group_from(values, i, after_separator), nb_text()) == flat(values.skip(i), nb_text()),
    decreases values.len() - i,
{
    if i == values.len() {
        assert(values.skip(i) =~= Seq::<Seq<char>>::empty());
    } else {
        let v = values[i];
        lemma_flat_skip_step(values, i, nb_text());
        if v == seq!['-', '-'] {
            lemma_group_from(values, i + 1, true);
            lemma_flat_append(seq![v], group_from(values, i + 1, true), nb_text());
            lemma_flat_single(v, nb_text());
        } else if (crate::layout_spec::is_redirect_operator(v) && i + 1 < values.len()) || (
        !after_separator && crate::layout_spec::starts_flag_value_pair(v) && i + 1 < values.len()
            && crate::layout_spec::can_be_flag_value(values[i + 1])) {
            let w = spaced(v, values[i + 1]);
            lemma_group_from(values, i + 2, after_separator);
            lemma_flat_skip_step(values, i + 1, nb_text());
            lemma_flat_append(seq![w], group_from(values, i + 2, after_separator), nb_text());
            lemma_flat_single(w, nb_text());
            lemma_nb_spaced(v, values[i + 1]);
            let r = flat(values.skip(i + 2), nb_text());
            assert(non_blank(v) + non_blank(values[i + 1]) + r =~= non_blank(v) + (non_blank(values[i + 1]) + r));
        } else {
            lemma_group_from(values, i + 1, after_separator);
            lemma_flat_append(seq![v], group_from(values, i + 1, after_separator), nb_text());
            lemma_flat_single(v, nb_text());
        }
    }
}

pub proof fn lemma_pack_command_argv(indent: usize, prefix: Seq<Seq<char>>, values: Seq<Seq<char>>, width: usize)
    ensures
        flat(pack_command_argv(indent, prefix, values, width), nb_line()) == flat(prefix, nb_text())
            + flat(values, nb_text()),
{
    let grouped = group_command_argv(values);
    lemma_group_from(values, 0, false);
    assert(values.skip(0) =~= values);
    if prefix.len() == 0 {
        lemma_greedy(grouped, width, indent);
        assert(prefix =~= Seq::<Seq<char>>::empty());
        assert(Seq::<char>::empty() + flat(values, nb_text()) =~= flat(values, nb_text()));
    } else {
        let single = app_all(join(prefix), grouped);
        lemma_nb_app_all(join(prefix), grouped);
        lemma_nb_join(prefix);
        if crate::text::blen(single) <= width {
            lemma_flat_single(line(indent, single), nb_line());
        } else {
            lemma_flat_append(
                seq![line(indent, join(prefix))],
                greedy(grouped, width, crate::layout_spec::inc(indent)),
                nb_line(),
            );
            lemma_flat_single(line(indent, join(prefix)), nb_line());
            lemma_greedy(grouped, width, crate::layout_spec::inc(indent));
        }
    }
}

pub proof fn lemma_cond_from(indent: usize, width: usize, values: Seq<Seq<char>>, i: int, st: CondState)
    requires
        0 <= i <= values.len(),
    ensures
        ({
            let r = cond_from(indent, width, values, i, st);
            flat(r.lines, nb_line()) + non_blank(r.current) == flat(st.lines, nb_line()) + non_blank(st.current)
                + flat(values.skip(i), nb_text())
        }),
    decreases values.len() - i,
{
    let fl = flat(st.lines, nb_line());
    if i == values.len() {
        assert(values.skip(i) =~= Seq::<Seq<char>>::empty());
        assert(fl + non_blank(st.current) + Seq::<char>::empty() =~= fl + non_blank(st.current));
    } else {
        let value = values[i];
        let st2 = cond_step(indent, width, st, value);
        lemma_flat_skip_step(values, i, nb_text());
        lemma_cond_from(indent, width, values, i + 1, st2);
        lemma_flat_push(st.lines, line(st.current_indent, st.current), nb_line());
        let rest = flat(values.skip(i + 1), nb_text());
        let is_op = value == "AND"@ || value == "OR"@;
        let brk = (is_op && st.current.len() > 0) || (st.current.len() > 0 && !crate::layout_spec::fits(
            st.current,
            crate::layout_spec::sep(st.current, value),
            value,
            width,
        ));
        let current0 = if brk {
            Seq::<char>::empty()
        } else {
            st.current
        };
        if current0.len() > 0 {
            lemma_nb_app(current0, value);
        } else {
            assert(current0 =~= Seq::<char>::empty());
        }
        if brk {
            assert(fl + non_blank(st.current) + (non_blank(value) + rest) =~= fl + non_blank(st.current)
                + non_blank(value) + rest);
        } else if current0.len() > 0 {
            assert(fl + (non_blank(st.current) + non_blank(value)) + rest =~= fl + non_blank(st.current)
                + (non_blank(value) + rest));
        } else {
            assert(fl + non_blank(value) + rest =~= fl + non_blank(st.current) + (non_blank(value) + rest));
        }
    }
}

pub proof fn lemma_pack_condition(indent: usize, prefix: Seq<Seq<char>>, values: Seq<Seq<char>>, width: usize)
    ensures
        flat(pack_condition(indent, prefix, values, width), nb_line()) == flat(prefix, nb_text()) + flat(
            values,
            nb_text(),
        ),
{
    let st0 = CondState { lines: Seq::empty(), current: join(prefix), current_indent: indent, depth: 0 };
    lemma_cond_from(indent, width, values, 0, st0);
    assert(values.skip(0) =~= values);
    lemma_nb_join(prefix);
    let st = cond_from(indent, width, values, 0, st0);
    if st.current.len() > 0 {
        lemma_flat_push(st.lines, line(st.current_indent, st.current), nb_line());
    } else {
        assert(st.current =~= Seq::<char>::empty());
        assert(flat(st.lines, nb_line()) + Seq::<char>::empty() =~= flat(st.lines, nb_line()));
    }
    assert(Seq::<char>::empty() + flat(prefix, nb_text()) + flat(values, nb_text()) =~= flat(prefix, nb_text())
        + flat(values, nb_text()));
}

pub proof fn lemma_pack_values(indent: usize, prefix: Seq<Seq<char>>, values: Seq<Seq<char>>, width: usize, list_type: ListType)
    ensures
        flat(pack_values(indent, prefix, values, width, list_type), nb_line()) == flat(prefix, nb_text())
            + flat(values, nb_text()),
{
    let vi = value_indent(prefix, indent);
    if prefix.len() == 0 && values.len() == 0 {
        assert(prefix =~= Seq::<Seq<char>>::empty());
        assert(values =~= Seq::<Seq<char>>::empty());
        assert(Seq::<char>::empty() + Seq::<char>::empty() =~= Seq::<char>::empty());
    } else if list_type == ListType::Condition {
        lemma_pack_condition(indent, prefix, values, width);
    } else if list_type == ListType::CommandArgv {
        lemma_pack_command_argv(indent, prefix, values, width);
    } else if list_type == ListType::Path && values.len() == 1 && prefix.len() > 0
        && crate::layout_spec::fits(
        join(prefix),
        crate::layout_spec::sep(join(prefix), values[0]),
        values[0],
        width,
    ) {
        lemma_flat_single(line(indent, app(join(prefix), values[0])), nb_line());
        lemma_nb_app(join(prefix), values[0]);
        lemma_nb_join(prefix);
        lemma_flat_single(values[0], nb_text());
        assert(values =~= seq![values[0]]);
    } else if (list_type == ListType::Path && values.len() > 0) || (list_type is NPerLine && (
    list_type->n <= 1 || values.len() == 0)) {
        lemma_flat_append(prefix_lines(prefix, indent), lines_at(values, vi), nb_line());
        lemma_prefix_lines(prefix, indent);
        lemma_lines_at(values, vi);
    } else if list_type is NPerLine && (values.len() as int) % (list_type->n as int) == 0 {
        lemma_flat_append(
            prefix_lines(prefix, indent),
            chunk_lines(values, list_type->n as nat, width, vi),
            nb_line(),
        );
        lemma_prefix_lines(prefix, indent);
        lemma_chunk_lines(values, list_type->n as nat, width, vi);
    } else {
        lemma_pack_packed(indent, prefix, values, width);
    }
}

// ---------------------------------------------------------------------------
// Values from source arguments
// ---------------------------------------------------------------------------
pub proof fn lemma_groups_from(
    items: Seq<ArgV>,
    i: int,
    current_line: Option<usize>,
    current: Seq<Seq<char>>,
    groups: Seq<Seq<Seq<char>>>,
)
    requires
        0 <= i <= items.len(),
    ensures
        flat(groups_from(items, i, current_line, current, groups), nb_group()) == flat(groups, nb_group())
            + flat(current, nb_text()) + flat(items.skip(i), nb_arg()),
    decreases items.len() - i,
{
    let fg = flat(groups, nb_group());
    let fc = flat(current, nb_text());
    if i == items.len() {
        assert(items.skip(i) =~= Seq::<ArgV>::empty());
        if current.len() > 0 {
            lemma_flat_push(groups, current, nb_group());
        } else {
            assert(current =~= Seq::<Seq<char>>::empty());
        }
        assert(fg + fc + Seq::<char>::empty() =~= fg + fc);
    } else {
        let item = items[i];
        lemma_flat_skip_step(items, i, nb_arg());
        let rest = flat(items.skip(i + 1), nb_arg());
        let brk = current_line is Some && current_line != item.source_line;
        let groups1 = if brk {
            groups.push(current)
        } else {
            groups
        };
        let current1 = if brk {
            Seq::<Seq<char>>::empty()
        } else {
            current
        };
        lemma_flat_push(groups, current, nb_group());
        lemma_flat_push(current1, item.text, nb_text());
        lemma_groups_from(items, i + 1, item.source_line, current1.push(item.text), groups1);
        if brk {
            assert(fg + fc + (Seq::<char>::empty() + non_blank(item.text)) + rest =~= fg + fc + (non_blank(
                item.text,
            ) + rest));
        } else {
            assert(fg + (fc + non_blank(item.text)) + rest =~= fg + fc + (non_blank(item.text) + rest));
        }
    }
}

pub proof fn lemma_argv_groups_lines(groups: Seq<Seq<Seq<char>>>, width: usize, indent: usize)
    ensures
        flat(argv_groups_lines(groups, width, indent), nb_line()) == flat(groups, nb_group()),
    decreases groups.len(),
{
    if groups.len() > 0 {
        lemma_argv_groups_lines(groups.drop_last(), width, indent);
        lemma_flat_append(
            argv_groups_lines(groups.drop_last(), width, indent),
            pack_command_argv(indent, Seq::empty(), groups.last(), width),
            nb_line(),
        );
        lemma_pack_command_argv(indent, Seq::empty(), groups.last(), width);
        assert(Seq::<char>::empty() + flat(groups.last(), nb_text()) =~= flat(groups.last(), nb_text()));
    }
}

pub proof fn lemma_pack_command_argv_items(threshold: isize, indent: usize, prefix: Seq<Seq<char>>, items: Seq<ArgV>, width: usize)
    ensures
        flat(pack_command_argv_items(threshold, indent, prefix, items, width), nb_line()) == flat(
            prefix,
            nb_text(),
        ) + flat(items, nb_arg()),
{
    let groups = source_line_groups(items);
    lemma_groups_from(items, 0, None, Seq::empty(), Seq::empty());
    assert(items.skip(0) =~= items);
    assert(Seq::<char>::empty() + Seq::<char>::empty() + flat(items, nb_arg()) =~= flat(items, nb_arg()));
    let vi = value_indent(prefix, indent);
    lemma_flat_append(prefix_lines(prefix, indent), argv_groups_lines(groups, width, vi), nb_line());
    lemma_prefix_lines(prefix, indent);
    lemma_argv_groups_lines(groups, width, vi);
    lemma_pack_command_argv(indent, prefix, texts(items), width);
    lemma_texts(items);
}

pub proof fn lemma_pack_value_items(
    threshold: isize,
    indent: usize,
    prefix: Seq<Seq<char>>,
    items: Seq<ArgV>,
    width: usize,
    list_type: ListType,
    consumed: usize,
)
    ensures
        flat(pack_value_items(threshold, indent, prefix, items, width, list_type, consumed), nb_line())
            == flat(prefix, nb_text()) + flat(items, nb_arg()),
{
    if list_type == ListType::CommandArgv {
        lemma_pack_command_argv_items(threshold, indent, prefix, items, width);
    } else {
        let lt = if crate::layout_spec::should_preserve_vertical_list(threshold, items, list_type, consumed) {
            ListType::NPerLine { n: 1 }
        } else {
            list_type
        };
        lemma_pack_values(indent, prefix, texts(items), width, lt);
        lemma_texts(items);
    }
}

// ---------------------------------------------------------------------------
// Keyword groups and the generic layout, without comments
// ---------------------------------------------------------------------------
/// No comment among `args`.
pub open spec fn no_comment_args(args: Seq<ArgV>) -> bool {
    forall|i: int| 0 <= i < args.len() ==> !(#[trigger] args[i]).is_comment
}

/// No comment among `items`.
pub open spec fn no_comment_items(items: Seq<ItemV>) -> bool {
    forall|i: int| 0 <= i < items.len() ==> (#[trigger] items[i]) is Arg
}

/// The non-blank characters of an argument or comment of a command.
pub open spec fn nb_item() -> spec_fn(ItemV) -> Seq<char> {
    |i: ItemV| non_blank(item_text(i))
}

pub proof fn lemma_append_to_last(lines: Seq<LineV>, text: Seq<char>)
    requires
        lines.len() > 0,
    ensures
        flat(append_to_last(lines, text), nb_line()) == flat(lines, nb_line()) + non_blank(text),
{
    let last = lines.last();
    let rest = lines.drop_last();
    assert(lines =~= rest.push(last));
    lemma_flat_push(rest, last, nb_line());
    lemma_flat_push(rest, LineV { text: app(last.text, text), ..last }, nb_line());
    lemma_nb_app(last.text, text);
    assert(flat(rest, nb_line()) + (non_blank(last.text) + non_blank(text)) =~= flat(rest, nb_line())
        + non_blank(last.text) + non_blank(text));
}

pub proof fn lemma_pack_arg_from(
    threshold: isize,
    indent: usize,
    comment_indent: usize,
    items: Seq<ArgV>,
    width: usize,
    list_type: ListType,
    idx: int,
    st: PackState,
)
    requires
        0 <= idx <= items.len(),
        no_comment_args(items),
    ensures
        pack_arg_from(threshold, indent, comment_indent, items, width, list_type, idx, st) == (PackState {
            values: st.values + items.skip(idx),
            ..st
        }),
    decreases items.len() - idx,
{
    if idx == items.len() {
        assert(items.skip(idx) =~= Seq::<ArgV>::empty());
        assert(st.values + items.skip(idx) =~= st.values);
    } else {
        assert(!items[idx].is_comment);
        let st2 = pack_arg_step(threshold, indent, comment_indent, items, width, list_type, idx, st);
        lemma_pack_arg_from(threshold, indent, comment_indent, items, width, list_type, idx + 1, st2);
        assert(st.values.push(items[idx]) + items.skip(idx + 1) =~= st.values + items.skip(idx));
    }
}

pub proof fn lemma_pack_arg_items(threshold: isize, indent: usize, prefix: Seq<Seq<char>>, items: Seq<ArgV>, width: usize, list_type: ListType)
    requires
        no_comment_args(items),
    ensures
        flat(pack_arg_items(threshold, indent, prefix, items, width, list_type), nb_line()) == flat(
            prefix,
            nb_text(),
        ) + flat(items, nb_arg()),
{
    assert(!has_splitter(items));
    let comment_indent = value_indent(prefix, indent);
    let start = PackState { lines: Seq::empty(), prefix, values: Seq::empty(), current_indent: indent };
    lemma_pack_arg_from(threshold, indent, comment_indent, items, width, list_type, 0, start);
    assert(Seq::<ArgV>::empty() + items.skip(0) =~= items);
    let p = pack_value_items(threshold, indent, prefix, items, width, list_type, 0);
    lemma_flat_append(Seq::<LineV>::empty(), p, nb_line());
    lemma_pack_value_items(threshold, indent, prefix, items, width, list_type, 0);
}

pub open spec fn gen_held(st: GenState) -> Seq<char> {
    flat(st.lines, nb_line()) + flat(st.prefix, nb_text()) + flat(st.values, nb_arg())
}

pub proof fn lemma_gen_flush(threshold: isize, st: GenState, width: usize)
    ensures
        flat(gen_flush(threshold, st, width), nb_line()) == gen_held(st),
{
    let fl = flat(st.lines, nb_line());
    if st.prefix.len() == 1 && st.values.len() == 1 {
        let l = line(0, spaced(st.prefix[0], st.values[0].text));
        lemma_flat_push(st.lines, l, nb_line());
        lemma_nb_spaced(st.prefix[0], st.values[0].text);
        lemma_flat_single(st.prefix[0], nb_text());
        lemma_flat_single(st.values[0], nb_arg());
        assert(st.prefix =~= seq![st.prefix[0]]);
        assert(st.values =~= seq![st.values[0]]);
        assert(fl + (non_blank(st.prefix[0]) + non_blank(st.values[0].text)) =~= fl + non_blank(st.prefix[0])
            + non_blank(st.values[0].text));
    } else {
        let p = pack_value_items(threshold, 0, st.prefix, st.values, width, ListType::Packed, 0);
        lemma_flat_append(st.lines, p, nb_line());
        lemma_pack_value_items(threshold, 0, st.prefix, st.values, width, ListType::Packed, 0);
        assert(fl + (flat(st.prefix, nb_text()) + flat(st.values, nb_arg())) =~= fl + flat(st.prefix, nb_text())
            + flat(st.values, nb_arg()));
    }
}

pub proof fn lemma_gen_from(threshold: isize, items: Seq<ItemV>, i: int, st: GenState, width: usize)
    requires
        0 <= i <= items.len(),
        no_comment_items(items),
    ensures
        gen_held(gen_from(threshold, items, i, st, width)) == gen_held(st) + flat(items.skip(i), nb_item()),
    decreases items.len() - i,
{
    if i == items.len() {
        assert(items.skip(i) =~= Seq::<ItemV>::empty());
        assert(gen_held(st) + Seq::<char>::empty() =~= gen_held(st));
    } else {
        let item = items[i];
        assert(item is Arg);
        lemma_flat_skip_step(items, i, nb_item());
        let rest = flat(items.skip(i + 1), nb_item());
        let st2 = gen_step(threshold, st, item, width);
        lemma_gen_from(threshold, items, i + 1, st2, width);
        lemma_gen_flush(threshold, st, width);
        match item {
            ItemV::Arg { text, source_line, .. } => {
                if is_generic_keyword(text) {
                    lemma_flat_single(text, nb_text());
                    assert(gen_held(st2) =~= gen_held(st) + non_blank(text));
                } else {
                    let a = ArgV { text, is_comment: false, trailing: false, source_line: Some(source_line) };
                    lemma_flat_push(st.values, a, nb_arg());
                    assert(gen_held(st2) =~= gen_held(st) + non_blank(text));
                }
                assert(gen_held(st) + non_blank(text) + rest =~= gen_held(st) + (non_blank(text) + rest));
            },
            _ => {},
        }
    }
}

/// Without comments, the generic layout writes the arguments' non-blank
/// characters in order.
pub proof fn lemma_layout_generic_items(threshold: isize, items: Seq<ItemV>, width: usize)
    requires
        no_comment_items(items),
    ensures
        flat(layout_generic_items(threshold, items, width), nb_line()) == flat(items, nb_item()),
{
    let st0 = GenState { lines: Seq::empty(), prefix: Seq::empty(), values: Seq::empty() };
    lemma_gen_from(threshold, items, 0, st0, width);
    assert(items.skip(0) =~= items);
    assert(gen_held(st0) =~= Seq::<char>::empty());
    assert(Seq::<char>::empty() + flat(items, nb_item()) =~= flat(items, nb_item()));
    lemma_gen_flush(threshold, gen_from(threshold, items, 0, st0, width), width);
}

// ---------------------------------------------------------------------------
// The schema layout, without comments
// ---------------------------------------------------------------------------
pub proof fn lemma_place_from(schema: FunctionSchema, items: Seq<ItemV>, i: int, st: PlaceState, width: usize)
    requires
        0 <= i <= items.len(),
        no_comment_items(items),
    ensures
        place_from(schema, items, i, st, width).kept == st.kept + items.skip(i),
        place_from(schema, items, i, st, width).leading == st.leading,
    decreases items.len() - i,
{
    if i == items.len() {
        assert(items.skip(i) =~= Seq::<ItemV>::empty());
        assert(st.kept + items.skip(i) =~= st.kept);
    } else {
        assert(items[i] is Arg);
        let st2 = place_step(schema, items, st, items[i], width);
        lemma_place_from(schema, items, i + 1, st2, width);
        assert(st.kept.push(items[i]) + items.skip(i + 1) =~= st.kept + items.skip(i));
    }
}

pub proof fn lemma_items_as_args(items: Seq<ItemV>)
    ensures
        flat(items.map_values(|i: ItemV| arg_of_item(i)), nb_arg()) == flat(items, nb_item()),
        no_comment_items(items) ==> no_comment_args(items.map_values(|i: ItemV| arg_of_item(i))),
    decreases items.len(),
{
    if items.len() > 0 {
        assert(items.map_values(|i: ItemV| arg_of_item(i)).drop_last() =~= items.drop_last().map_values(
            |i: ItemV| arg_of_item(i),
        ));
        lemma_items_as_args(items.drop_last());
    }
}

pub proof fn lemma_dedent(lines: Seq<LineV>)
    ensures
        flat(dedent(lines), nb_line()) == flat(lines, nb_line()),
    decreases lines.len(),
{
    if lines.len() > 0 {
        assert(dedent(lines).drop_last() =~= dedent(lines.drop_last()));
        lemma_dedent(lines.drop_last());
    }
}

pub proof fn lemma_plain(lines: Seq<LineV>, shift: bool)
    ensures
        flat(plain(lines, shift), nb_line()) == flat(lines, nb_line()),
    decreases lines.len(),
{
    if lines.len() > 0 {
        assert(plain(lines, shift).drop_last() =~= plain(lines.drop_last(), shift));
        lemma_plain(lines.drop_last(), shift);
    }
}

pub proof fn lemma_line_texts(lines: Seq<LineV>)
    ensures
        flat(line_texts(lines), nb_text()) == flat(lines, nb_line()),
    decreases lines.len(),
{
    if lines.len() > 0 {
        assert(line_texts(lines).drop_last() =~= line_texts(lines.drop_last()));
        lemma_line_texts(lines.drop_last());
    }
}

/// Splitting `s.skip(a)` at `b`.
pub proof fn lemma_flat_skip_range<T>(s: Seq<T>, a: int, b: int, f: spec_fn(T) -> Seq<char>)
    requires
        0 <= a <= b <= s.len(),
    ensures
        flat(s.skip(a), f) == flat(s.subrange(a, b), f) + flat(s.skip(b), f),
{
    assert(s.skip(a) =~= s.subrange(a, b) + s.skip(b));
    lemma_flat_append(s.subrange(a, b), s.skip(b), f);
}

pub proof fn lemma_mode_header(mode_keyword: Seq<char>, schema: FunctionSchema, args: Seq<ArgV>, budget: usize)
    requires
        no_comment_args(args),
    ensures
        ({
            let h = layout_mode_header(mode_keyword, schema, args, budget);
            &&& 0 <= h.1 <= args.len()
            &&& flat(h.0, nb_line()) == non_blank(mode_keyword) + flat(args.take(h.1), nb_arg())
        }),
{
    lemma_mode_header_used(mode_keyword, schema, args, budget);
    let max = match schema.positional {
        Some(p) => p.max,
        None => 0,
    };
    if args.len() > 0 {
        assert(!args[0].is_comment);
    }
    let end = mode_positional_end(args, schema, max, 0, 0);
    lemma_mode_positional_end(args, schema, max, 0, 0);
    if end < args.len() {
        assert(!args[end].is_comment);
    }
    assert(args.subrange(0, end) =~= args.take(end));
    let positionals = texts(args.take(end));
    lemma_texts(args.take(end));
    lemma_nb_app_all(mode_keyword, positionals);
    lemma_lines_at(positionals, 0);
    let h = layout_mode_header(mode_keyword, schema, args, budget);
    lemma_flat_single(h.0[0], nb_line());
    if h.0.len() > 1 {
        assert(h.0 =~= seq![h.0[0]] + lines_at(positionals, 0));
        lemma_flat_append(seq![h.0[0]], lines_at(positionals, 0), nb_line());
    } else {
        assert(h.0 =~= seq![h.0[0]]);
    }
}

pub proof fn lemma_schema_args(
    threshold: isize,
    args: Seq<ArgV>,
    schema: FunctionSchema,
    ignore_positional: bool,
    width: usize,
    header_budget: usize,
    consumed: usize,
)
    requires
        no_comment_args(args),
    ensures
        flat(
            layout_schema_args(threshold, args, schema, ignore_positional, width, header_budget, consumed),
            nb_line(),
        ) == flat(args, nb_arg()),
    decreases args.len(), 2nat, 0nat,
{
    if args.len() > 0 && !args[0].is_comment && schema.spec_mode(args[0].text) is Some {
        let mode_schema = schema.spec_mode(args[0].text)->0;
        let rest = args.skip(1);
        assert(no_comment_args(rest)) by {
            assert forall|j: int| 0 <= j < rest.len() implies !(#[trigger] rest[j]).is_comment by {
                assert(rest[j] == args[j + 1]);
            }
        }
        let header = layout_mode_header(args[0].text, mode_schema, rest, header_budget);
        lemma_mode_header(args[0].text, mode_schema, rest, header_budget);
        let used = header.1;
        let tail = args.skip(1 + used);
        assert(no_comment_args(tail)) by {
            assert forall|j: int| 0 <= j < tail.len() implies !(#[trigger] tail[j]).is_comment by {
                assert(tail[j] == args[j + 1 + used]);
            }
        }
        let next = crate::layout_spec::sat_add(consumed, used as usize);
        lemma_schema_args(threshold, tail, mode_schema, true, width, width, next);
        lemma_flat_append(header.0, layout_schema_args(threshold, tail, mode_schema, true, width, width, next), nb_line());
        let head = seq![args[0]] + rest.take(used);
        assert(args =~= head + tail);
        lemma_flat_append(head, tail, nb_arg());
        lemma_flat_append(seq![args[0]], rest.take(used), nb_arg());
        lemma_flat_single(args[0], nb_arg());
        assert(non_blank(args[0].text) + flat(rest.take(used), nb_arg()) + flat(tail, nb_arg())
            == flat(args, nb_arg()));
    } else {
        let max = positional_max(args, schema, ignore_positional);
        let end = positional_end(args, schema, max, 0);
        crate::content::lemma_positional_end(args, schema, max, 0);
        let lines = pack_value_items(threshold, 0, Seq::empty(), args.take(end), width, schema.default_list_type, consumed);
        lemma_pack_value_items(threshold, 0, Seq::empty(), args.take(end), width, schema.default_list_type, consumed);
        assert(Seq::<char>::empty() + flat(args.take(end), nb_arg()) =~= flat(args.take(end), nb_arg()));
        lemma_main(
            threshold,
            args,
            schema,
            width,
            end,
            MainState { lines, any_indented: false, any_keyword: false, can_glue: true },
        );
        lemma_flat_split(args, end, nb_arg());
    }
}

#[verifier::spinoff_prover]
#[verifier::rlimit(100)]
pub proof fn lemma_main(threshold: isize, args: Seq<ArgV>, schema: FunctionSchema, width: usize, index: int, st: MainState)
    requires
        0 <= index,
        no_comment_args(args),
    ensures
        ({
            let k = if index < args.len() {
                index
            } else {
                args.len() as int
            };
            flat(layout_main(threshold, args, schema, width, index, st), nb_line()) == flat(st.lines, nb_line())
                + flat(args.skip(k), nb_arg())
        }),
    decreases args.len(), 1nat, args.len() + 1 - index,
{
    let fl = flat(st.lines, nb_line());
    if index >= args.len() {
        assert(args.skip(args.len() as int) =~= Seq::<ArgV>::empty());
        assert(fl + Seq::<char>::empty() =~= fl);
    } else {
        let a = args[index];
        let kw = a.text;
        assert(!a.is_comment);
        lemma_flat_skip_step(args, index, nb_arg());
        if schema.spec_is_option(kw) {
            let glue = st.can_glue && can_append_to_last(st.lines, kw, width);
            let lines = if glue {
                append_to_last(st.lines, kw)
            } else {
                st.lines.push(line(0, kw))
            };
            if glue {
                lemma_append_to_last(st.lines, kw);
            } else {
                lemma_flat_push(st.lines, line(0, kw), nb_line());
            }
            lemma_main(
                threshold,
                args,
                schema,
                width,
                index + 1,
                MainState { lines, any_indented: st.any_indented, any_keyword: true, can_glue: true },
            );
            assert(fl + non_blank(kw) + flat(args.skip(index + 1), nb_arg()) =~= fl + (non_blank(kw) + flat(
                args.skip(index + 1),
                nb_arg(),
            )));
        } else if schema.spec_is_one_value_keyword(kw) {
            let text = if index + 1 < args.len() && !args[index + 1].is_comment {
                spaced(kw, args[index + 1].text)
            } else {
                kw
            };
            if index + 1 < args.len() {
                assert(!args[index + 1].is_comment);
            }
            assert(crate::layout_spec::one_value_lines(st.lines, kw, crate::layout_spec::next_arg(args, index), width)
                == st.lines.push(line(0, text)));
            lemma_flat_push(st.lines, line(0, text), nb_line());
            if index + 1 < args.len() {
                assert(!args[index + 1].is_comment);
                lemma_flat_skip_step(args, index + 1, nb_arg());
                lemma_nb_spaced(kw, args[index + 1].text);
                let r = flat(args.skip(index + 2), nb_arg());
                assert(fl + (non_blank(kw) + non_blank(args[index + 1].text)) + r =~= fl + (non_blank(kw) + (
                non_blank(args[index + 1].text) + r)));
            } else {
                assert(args.skip(index + 1) =~= Seq::<ArgV>::empty());
                assert(fl + non_blank(kw) =~= fl + (non_blank(kw) + Seq::<char>::empty()));
            }
            lemma_main(
                threshold,
                args,
                schema,
                width,
                index + 2,
                MainState {
                    lines: st.lines.push(line(0, text)),
                    any_indented: st.any_indented,
                    any_keyword: true,
                    can_glue: false,
                },
            );
        } else if schema.spec_subparser(kw) is Some {
            let sub = schema.spec_subparser(kw)->0;
            let start = index + 1;
            let end = subparser_end(args, start, schema, sub);
            lemma_subparser_end(args, start, schema, sub);
            let flat_layout = !st.any_indented && !value_after(args, end);
            let sub_args = args.subrange(start, end);
            assert(no_comment_args(sub_args)) by {
                assert forall|j: int| 0 <= j < sub_args.len() implies !(#[trigger] sub_args[j]).is_comment by {
                    assert(sub_args[j] == args[start + j]);
                }
            }
            lemma_subparser(threshold, kw, sub_args, sub, width, flat_layout);
            let sub_lines = layout_subparser(threshold, kw, sub_args, sub, width, flat_layout);
            lemma_flat_append(st.lines, sub_lines, nb_line());
            lemma_flat_skip_range(args, start, end, nb_arg());
            lemma_main(
                threshold,
                args,
                schema,
                width,
                end,
                MainState {
                    lines: st.lines + sub_lines,
                    any_indented: st.any_indented || crate::layout_spec::any_indented(sub_lines),
                    any_keyword: true,
                    can_glue: false,
                },
            );
            let r = flat(args.skip(end), nb_arg());
            assert(fl + (non_blank(kw) + flat(sub_args, nb_arg())) + r =~= fl + (non_blank(kw) + (flat(sub_args, nb_arg()) + r)));
        } else if schema.spec_compound(kw) is Some {
            let cpd = schema.spec_compound(kw)->0;
            let start = index + 1;
            let end = outer_end(args, start, schema);
            lemma_outer_end(args, start, schema);
            lemma_compound_header_len(args.subrange(start, end), cpd.headers@, 0);
            let hl = compound_header_len(args.subrange(start, end), cpd.headers@);
            let s1 = args.subrange(start, start + hl);
            let s2 = args.subrange(start + hl, end);
            assert(no_comment_args(s2)) by {
                assert forall|j: int| 0 <= j < s2.len() implies !(#[trigger] s2[j]).is_comment by {
                    assert(s2[j] == args[start + hl + j]);
                }
            }
            let hw = seq![kw] + texts(s1);
            let header = join(hw);
            lemma_nb_join(hw);
            lemma_flat_append(seq![kw], texts(s1), nb_text());
            lemma_flat_single(kw, nb_text());
            lemma_texts(s1);
            let lines1 = if can_append_to_last(st.lines, header, width) {
                append_to_last(st.lines, header)
            } else {
                st.lines.push(line(0, header))
            };
            if can_append_to_last(st.lines, header, width) {
                lemma_append_to_last(st.lines, header);
            } else {
                lemma_flat_push(st.lines, line(0, header), nb_line());
            }
            let pl = pack_arg_items(threshold, 0, Seq::empty(), s2, width, cpd.list_type);
            lemma_pack_arg_items(threshold, 0, Seq::empty(), s2, width, cpd.list_type);
            lemma_flat_append(lines1, pl, nb_line());
            lemma_flat_skip_range(args, start, start + hl, nb_arg());
            lemma_flat_skip_range(args, start + hl, end, nb_arg());
            lemma_main(
                threshold,
                args,
                schema,
                width,
                end,
                MainState { lines: lines1 + pl, any_indented: st.any_indented, any_keyword: true, can_glue: false },
            );
            let f1 = flat(s1, nb_arg());
            let f2 = flat(s2, nb_arg());
            let r = flat(args.skip(end), nb_arg());
            assert(fl + (non_blank(kw) + f1) + (Seq::<char>::empty() + f2) + r =~= fl + (non_blank(kw) + (f1 + (f2
                + r))));
        } else if schema.spec_is_multi_value_keyword(kw) || schema.spec_is_simple_keyword(kw) {
            let start = index + 1;
            let end = outer_end(args, start, schema);
            lemma_outer_end(args, start, schema);
            let lt = schema.spec_list_type(kw);
            let flat_layout = lt != ListType::CommandArgv && !st.any_indented && !value_after(args, end);
            let s1 = args.subrange(start, end);
            assert(no_comment_args(s1)) by {
                assert forall|j: int| 0 <= j < s1.len() implies !(#[trigger] s1[j]).is_comment by {
                    assert(s1[j] == args[start + j]);
                }
            }
            let kw_lines = pack_arg_items(threshold, 0, seq![kw], s1, width, lt);
            lemma_pack_arg_items(threshold, 0, seq![kw], s1, width, lt);
            lemma_flat_single(kw, nb_text());
            lemma_dedent(kw_lines);
            let out_lines = if flat_layout {
                dedent(kw_lines)
            } else {
                kw_lines
            };
            lemma_flat_append(st.lines, out_lines, nb_line());
            lemma_flat_skip_range(args, start, end, nb_arg());
            lemma_main(
                threshold,
                args,
                schema,
                width,
                end,
                MainState {
                    lines: st.lines + out_lines,
                    any_indented: st.any_indented || (!flat_layout && crate::layout_spec::any_indented(kw_lines)),
                    any_keyword: true,
                    can_glue: false,
                },
            );
            let r = flat(args.skip(end), nb_arg());
            assert(fl + (non_blank(kw) + flat(s1, nb_arg())) + r =~= fl + (non_blank(kw) + (flat(s1, nb_arg()) + r)));
        } else {
            let end = outer_end(args, index + 1, schema);
            lemma_outer_end(args, index + 1, schema);
            let s1 = args.subrange(index, end);
            assert(no_comment_args(s1)) by {
                assert forall|j: int| 0 <= j < s1.len() implies !(#[trigger] s1[j]).is_comment by {
                    assert(s1[j] == args[index + j]);
                }
            }
            let pl = pack_arg_items(threshold, 0, Seq::empty(), s1, width, schema.default_list_type);
            lemma_pack_arg_items(threshold, 0, Seq::empty(), s1, width, schema.default_list_type);
            lemma_flat_append(st.lines, pl, nb_line());
            lemma_flat_skip_range(args, index, end, nb_arg());
            lemma_main(
                threshold,
                args,
                schema,
                width,
                end,
                MainState {
                    lines: st.lines + pl,
                    any_indented: st.any_indented,
                    any_keyword: st.any_keyword,
                    can_glue: if st.any_keyword {
                        false
                    } else {
                        st.can_glue
                    },
                },
            );
            let r = flat(args.skip(end), nb_arg());
            assert(fl + (Seq::<char>::empty() + flat(s1, nb_arg())) + r =~= fl + (flat(s1, nb_arg()) + r));
        }
    }
}

pub proof fn lemma_subparser(threshold: isize, keyword: Seq<char>, args: Seq<ArgV>, schema: FunctionSchema, width: usize, flat_layout: bool)
    requires
        no_comment_args(args),
    ensures
        flat(layout_subparser(threshold, keyword, args, schema, width, flat_layout), nb_line()) == non_blank(
            keyword,
        ) + flat(args, nb_arg()),
    decreases args.len(), 3nat, 0nat,
{
    let child_width = crate::layout_spec::sat_sub(width as int, crate::text::blen(keyword) as int) as usize;
    let child = layout_schema_args(threshold, args, schema, false, child_width, child_width, 0);
    lemma_schema_args(threshold, args, schema, false, child_width, child_width, 0);
    lemma_flat_single(line(0, keyword), nb_line());
    if child.len() == 0 {
        assert(flat(child, nb_line()) == Seq::<char>::empty());
        assert(non_blank(keyword) + Seq::<char>::empty() =~= non_blank(keyword));
    } else {
        let inline = app_all(keyword, line_texts(child));
        lemma_nb_app_all(keyword, line_texts(child));
        lemma_line_texts(child);
        lemma_flat_single(line(0, inline), nb_line());
        let first_text = spaced(keyword, child[0].text);
        lemma_nb_spaced(keyword, child[0].text);
        lemma_flat_split(child, 1, nb_line());
        assert(child.take(1) =~= seq![child[0]]);
        lemma_flat_single(child[0], nb_line());
        lemma_plain(child.skip(1), !flat_layout);
        lemma_plain(child, !flat_layout);
        lemma_flat_append(seq![line(0, first_text)], plain(child.skip(1), !flat_layout), nb_line());
        lemma_flat_single(line(0, first_text), nb_line());
        lemma_flat_append(seq![line(0, keyword)], plain(child, !flat_layout), nb_line());
        assert(non_blank(keyword) + non_blank(child[0].text) + flat(child.skip(1), nb_line()) =~= non_blank(
            keyword,
        ) + (non_blank(child[0].text) + flat(child.skip(1), nb_line())));
    }
}

/// Without comments, the schema layout writes the arguments' non-blank
/// characters in order.
pub proof fn lemma_layout_schema_items(threshold: isize, items: Seq<ItemV>, schema: FunctionSchema, width: usize, header_budget: usize)
    requires
        no_comment_items(items),
    ensures
        flat(layout_schema_items(threshold, items, schema, width, header_budget), nb_line()) == flat(
            items,
            nb_item(),
        ),
{
    let st0 = PlaceState { leading: Seq::empty(), kept: Seq::empty(), previous_arg: None };
    lemma_place_from(schema, items, 0, st0, width);
    assert(Seq::<ItemV>::empty() + items.skip(0) =~= items);
    assert(place_schema_comments(items, schema, width) == items);
    lemma_items_as_args(items);
    lemma_schema_args(threshold, items.map_values(|i: ItemV| arg_of_item(i)), schema, false, width, header_budget, 0);
}

// ---------------------------------------------------------------------------
// Commands without comments
// ---------------------------------------------------------------------------
/// The non-blank characters of a token.
pub open spec fn nb_token() -> spec_fn(TokenView) -> Seq<char> {
    |t: TokenView| non_blank(t.1)
}

/// A command that formatting keeps in order: complete or bare, without
/// comments, its whitespace tokens made of blanks (as the lexer makes them),
/// and, as anything in memory, with fewer tokens than `usize::MAX`.
pub open spec fn plain_command(ts: Seq<TokenView>) -> bool {
    &&& whole_command(ts)
    &&& ts.len() <= usize::MAX
    &&& forall|j: int| 0 <= j < ts.len() ==> (#[trigger] ts[j]).0 != SyntaxKind::COMMENT
    &&& forall|j: int| 0 <= j < ts.len() && (#[trigger] ts[j]).0 == SyntaxKind::WHITESPACE ==> all_blank(ts[j].1)
}

pub proof fn lemma_nb_texts(ts: Seq<TokenView>)
    ensures
        non_blank(concat_texts(ts)) == flat(ts, nb_token()),
    decreases ts.len(),
{
    if ts.len() > 0 {
        lemma_nb_texts(ts.drop_first());
        lemma_non_blank_concat(ts[0].1, concat_texts(ts.drop_first()));
        assert(ts =~= seq![ts[0]] + ts.drop_first());
        lemma_flat_append(seq![ts[0]], ts.drop_first(), nb_token());
        lemma_flat_single(ts[0], nb_token());
    }
}

/// What the scan of a comment-free command has gathered: its arguments, in
/// order, with the non-blank characters of what it has passed.
pub open spec fn items_in_order(st: ItemsState, seen: Seq<TokenView>) -> bool {
    &&& flat(st.items, nb_item()) == flat(seen, nb_token())
    &&& no_comment_items(st.items)
    &&& st.concat ==> st.items.len() > 0
}

pub proof fn lemma_push_arg(st: ItemsState, seen: Seq<TokenView>, t: TokenView)
    requires
        items_in_order(st, seen),
    ensures
        items_in_order(ItemsState { concat: false, ..push_arg(st, t.1) }, seen.push(t)),
        items_in_order(ItemsState { concat: true, ..push_arg(st, t.1) }, seen.push(t)),
{
    let index = st.next_index as usize;
    let it = ItemV::Arg { text: t.1, index, source_line: st.source_line };
    lemma_flat_push(st.items, it, nb_item());
    lemma_flat_push(seen, t, nb_token());
    assert forall|i: int| 0 <= i < st.items.push(it).len() implies (#[trigger] st.items.push(it)[i]) is Arg by {
        if i < st.items.len() {
            assert(st.items.push(it)[i] == st.items[i]);
        }
    }
}

pub proof fn lemma_items_body(ts: Seq<TokenView>, p: int, i: int, st: ItemsState)
    requires
        plain_command(ts),
        opens_at(ts, p),
        ts.last() == (SyntaxKind::R_PAREN, seq![')']),
        p + 1 <= i <= ts.len() - 1,
        st.skipped,
        st.depth == 1 + total(ts.subrange(p + 1, i), paren_delta()),
        items_in_order(st, ts.subrange(p + 1, i)),
    ensures
        items_in_order(items_from(ts, i, st), ts.subrange(p + 1, ts.len() - 1)),
    decreases ts.len() - i,
{
    let q = ts.len() - 1;
    let body = ts.subrange(p + 1, q);
    let seen = ts.subrange(p + 1, i);
    assert(body.take(i - p - 1) =~= seen);
    if i == q {
        assert(seen =~= body);
        let st2 = items_step(st, ts[i]);
        assert(ts[i] == ts.last());
        assert(items_from(ts, i + 1, st2) == st2);
    } else {
        let t = ts[i];
        let seen2 = ts.subrange(p + 1, i + 1);
        assert(seen2 =~= seen.push(t));
        assert(body.take(i + 1 - p - 1) =~= seen2);
        crate::content::lemma_total_push(seen, t, paren_delta());
        let st2 = items_step(st, t);
        lemma_flat_push(seen, t, nb_token());
        assert(t.0 != SyntaxKind::COMMENT);
        if t.0 == SyntaxKind::WHITESPACE {
            assert(all_blank(t.1));
            lemma_nb_blank(t.1);
            assert(flat(seen, nb_token()) + Seq::<char>::empty() =~= flat(seen, nb_token()));
        } else if t.0 == SyntaxKind::L_PAREN {
            lemma_push_arg(ItemsState { depth: st.depth + 1, ..st }, seen, t);
        } else if t.0 == SyntaxKind::R_PAREN {
            lemma_push_arg(
                ItemsState { depth: crate::layout_spec::sat_sub(st.depth as int, 1) as nat, ..st },
                seen,
                t,
            );
        } else if st.concat {
            let items = st.items;
            let last = items.last();
            let rest = items.drop_last();
            assert(items =~= rest.push(last));
            assert(items[items.len() - 1] is Arg);
            match last {
                ItemV::Arg { text, index, source_line } => {
                    let nl = ItemV::Arg { text: text + t.1, index, source_line };
                    assert(extend_last(items, t.1) =~= rest.push(nl));
                    lemma_flat_push(rest, last, nb_item());
                    lemma_flat_push(rest, nl, nb_item());
                    lemma_non_blank_concat(text, t.1);
                    assert(flat(rest, nb_item()) + (non_blank(text) + non_blank(t.1)) =~= flat(rest, nb_item())
                        + non_blank(text) + non_blank(t.1));
                    assert forall|j: int| 0 <= j < rest.push(nl).len() implies (#[trigger] rest.push(nl)[j]) is Arg by {
                        if j < rest.len() {
                            assert(rest.push(nl)[j] == items[j]);
                        }
                    }
                },
                _ => {},
            }
        } else {
            lemma_push_arg(st, seen, t);
        }
        lemma_items_body(ts, p, i + 1, st2);
    }
}

pub proof fn lemma_items_head(ts: Seq<TokenView>, p: int, i: int, st: ItemsState)
    requires
        plain_command(ts),
        opens_at(ts, p),
        ts.last() == (SyntaxKind::R_PAREN, seq![')']),
        1 <= i <= p,
        st.skipped,
        st.depth == 0,
        st.items.len() == 0,
        !st.concat,
    ensures
        items_in_order(items_from(ts, i, st), ts.subrange(p + 1, ts.len() - 1)),
    decreases ts.len() - i,
{
    let t = ts[i];
    let st2 = items_step(st, t);
    if i < p {
        assert(crate::syntax::is_trivia(t.0));
        assert(t.0 != SyntaxKind::COMMENT);
        lemma_items_head(ts, p, i + 1, st2);
    } else {
        assert(ts.subrange(p + 1, p + 1) =~= Seq::<TokenView>::empty());
        assert(total(Seq::<TokenView>::empty(), paren_delta()) == 0);
        assert(flat(Seq::<ItemV>::empty(), nb_item()) == Seq::<char>::empty());
        lemma_items_body(ts, p, p + 1, st2);
    }
}

pub proof fn lemma_nb_single_from(items: Seq<ItemV>, i: int, acc: Seq<char>)
    requires
        0 <= i <= items.len(),
    ensures
        non_blank(single_from(items, i, acc)) == non_blank(acc) + flat(items.skip(i), nb_item()),
    decreases items.len() - i,
{
    if i == items.len() {
        assert(items.skip(i) =~= Seq::<ItemV>::empty());
        assert(non_blank(acc) + Seq::<char>::empty() =~= non_blank(acc));
    } else {
        lemma_flat_skip_step(items, i, nb_item());
        let text = item_text(items[i]);
        let next = match items[i] {
            ItemV::Arg { text, .. } => if i == 0 {
                acc + text
            } else {
                app(acc, text)
            },
            ItemV::Comment { text, .. } => if i > 0 {
                acc.push(' ') + text
            } else {
                acc + text
            },
        };
        lemma_non_blank_concat(acc, text);
        lemma_nb_app(acc, text);
        assert(acc.push(' ') + text =~= acc + seq![' '] + text);
        lemma_nb_cat3(acc, seq![' '], text);
        assert(non_blank(next) == non_blank(acc) + non_blank(text));
        lemma_nb_single_from(items, i + 1, next);
        let r = flat(items.skip(i + 1), nb_item());
        assert(non_blank(acc) + non_blank(text) + r =~= non_blank(acc) + (non_blank(text) + r));
    }
}

pub proof fn lemma_nb_render_lines(cfg: Config, lines: Seq<LineV>, arg: Seq<char>, cont: Seq<char>)
    requires
        all_blank(arg),
        all_blank(cont),
    ensures
        non_blank(render_lines(cfg, lines, arg, cont)) == flat(lines, nb_line()),
    decreases lines.len(),
{
    if lines.len() > 0 {
        lemma_nb_render_lines(cfg, lines.drop_last(), arg, cont);
        let ind = layout_indent(cfg, lines.last().indent, arg, cont);
        lemma_indent_blank(cfg, lines.last().indent as nat);
        lemma_blank_concat(arg, indent_text(cfg, lines.last().indent as nat));
        let sep = seq!['\n'] + ind;
        assert(all_blank(seq!['\n'])) by {
            assert(seq!['\n'][0] == '\n');
        }
        lemma_blank_concat(seq!['\n'], ind);
        let a = render_lines(cfg, lines.drop_last(), arg, cont);
        assert(a + seq!['\n'] + ind + lines.last().text =~= a + sep + lines.last().text);
        lemma_nb_cat3(a, sep, lines.last().text);
    }
}

/// The non-blank characters a formatted command adds: its name's, the gap's,
/// `(`, its items' in order, `)`.
#[verifier::spinoff_prover]
#[verifier::rlimit(80)]
pub proof fn lemma_format_shape(cfg: Config, st: FmtState, ts: Seq<TokenView>)
    requires
        ts.len() > 0,
        ts[0].0 == SyntaxKind::UNQUOTED_ARGUMENT,
        no_comment_items(command_items(ts)),
        has_paren(ts) || command_items(ts).len() == 0,
    ensures
        ({
            let items = command_items(ts);
            let name = ts[0].1;
            let open = opt_char(has_paren(ts), '(');
            let close = opt_char(has_paren(ts), ')');
            non_blank(format_command(cfg, st, ts).out) == non_blank(st.out) + non_blank(name) + non_blank(
                name_paren_gap(ts, name),
            ) + non_blank(open) + flat(items, nb_item()) + non_blank(close)
        }),
{
    let items = command_items(ts);
    assert(first_unquoted(ts, 0) == Some(0int));
    let name = ts[0].1;
    let has_parens = has_paren(ts);
    let gap = name_paren_gap(ts, name);
    let open = opt_char(has_parens, '(');
    let close = opt_char(has_parens, ')');
    let base = indent_text(cfg, st.level as nat);
    let arg = base + indent_text(cfg, 1);
    let cont = base + indent_text(cfg, 2);
    lemma_indent_blank(cfg, st.level as nat);
    lemma_indent_blank(cfg, 1);
    lemma_indent_blank(cfg, 2);
    lemma_blank_concat(base, indent_text(cfg, 1));
    lemma_blank_concat(base, indent_text(cfg, 2));
    let lead = if st.at_start {
        base
    } else {
        Seq::empty()
    };
    assert(all_blank(lead));
    let head_text = name + gap + open;
    lemma_non_blank_concat(name, gap);
    lemma_non_blank_concat(name + gap, open);
    let nb_head = non_blank(name) + non_blank(gap) + non_blank(open);
    let fi = flat(items, nb_item());
    let so = non_blank(st.out);
    if items.len() > 0 {
        assert(items[0] is Arg);
    }
    assert(head_comment(items) is None);
    let single = single_line(name, gap, has_parens, items);
    lemma_nb_single_from(items, 0, head_text);
    assert(items.skip(0) =~= items);
    lemma_non_blank_concat(single_from(items, 0, head_text), close);
    let r = format_command(cfg, st, ts);
    assert(opening(name, gap, has_parens, items) =~= head_text + Seq::<char>::empty());
    if crate::text::blen(base) + crate::text::blen(single) <= cfg.line_width
        && !crate::format_spec::has_comment_item(items) {
        lemma_nb_cat3(st.out, lead, single);
        assert(so + (nb_head + fi + non_blank(close)) =~= so + non_blank(name) + non_blank(gap) + non_blank(open)
            + fi + non_blank(close));
    } else {
        let arg_width = crate::layout_spec::sat_sub(cfg.line_width as int, crate::text::blen(arg) as int) as usize;
        let lines = command_lines(cfg, name, gap, has_parens, items, arg_width);
        let threshold = cfg.source_vertical_list_threshold;
        match cfg.function_schemas.lookup(crate::schema::registry_key(name)) {
            Some(sch) => {
                lemma_layout_schema_items(
                    threshold,
                    items,
                    sch,
                    arg_width,
                    crate::format_spec::header_budget(cfg, name, gap, has_parens, arg_width),
                );
            },
            None => {
                lemma_layout_generic_items(threshold, items, arg_width);
            },
        }
        assert(flat(lines, nb_line()) == fi);
        if !has_parens {
            crate::content::lemma_no_lines(cfg, name, gap, has_parens, arg_width);
        }
        let opened = st.out + lead + opening(name, gap, has_parens, items);
        lemma_nb_cat3(st.out, lead, head_text);
        assert(non_blank(opened) == so + nb_head);
        let nlbase = seq!['\n'] + base;
        assert(all_blank(seq!['\n'])) by {
            assert(seq!['\n'][0] == '\n');
        }
        lemma_blank_concat(seq!['\n'], base);
        lemma_nb_blank(nlbase);
        if lines.len() == 0 {
            assert(fi == Seq::<char>::empty());
            if has_parens {
                lemma_non_blank_concat(opened, Seq::<char>::empty());
                lemma_nb_cat3(opened, Seq::<char>::empty(), seq![')']);
                assert(opened + Seq::<char>::empty() + seq![')'] =~= opened + seq![')']);
                assert(so + nb_head + non_blank(seq![')']) =~= so + non_blank(name) + non_blank(gap) + non_blank(open)
                    + fi + non_blank(close));
            } else {
                assert(close =~= Seq::<char>::empty());
                assert(so + nb_head =~= so + non_blank(name) + non_blank(gap) + non_blank(open) + fi + non_blank(
                    close,
                ));
            }
        } else if crate::format_spec::no_break_first(cfg, name) && !crate::text::starts_with_char(lines[0].text, '#') {
            let rest = render_lines(cfg, lines.skip(1), arg, cont);
            lemma_nb_render_lines(cfg, lines.skip(1), arg, cont);
            lemma_flat_split(lines, 1, nb_line());
            assert(lines.take(1) =~= seq![lines[0]]);
            lemma_flat_single(lines[0], nb_line());
            let o = opened + lines[0].text + rest;
            lemma_non_blank_concat(opened, lines[0].text);
            lemma_non_blank_concat(opened + lines[0].text, rest);
            lemma_non_blank_concat(o, seq![')']);
            lemma_nb_cat3(o, nlbase, seq![')']);
            assert(o + seq!['\n'] + base + seq![')'] =~= o + nlbase + seq![')']);
            assert(so + nb_head + non_blank(lines[0].text) + flat(lines.skip(1), nb_line()) + non_blank(seq![')'])
                =~= so + non_blank(name) + non_blank(gap) + non_blank(open) + fi + non_blank(close));
        } else {
            let rl = render_lines(cfg, lines, arg, cont);
            lemma_nb_render_lines(cfg, lines, arg, cont);
            lemma_non_blank_concat(opened, rl);
            lemma_nb_cat3(opened + rl, nlbase, seq![')']);
            assert(opened + rl + seq!['\n'] + base + seq![')'] =~= opened + rl + nlbase + seq![')']);
            assert(so + nb_head + fi + non_blank(seq![')']) =~= so + non_blank(name) + non_blank(gap) + non_blank(
                open,
            ) + fi + non_blank(close));
        }
    }
}

pub proof fn lemma_flat_blank_tokens(ws: Seq<TokenView>)
    requires
        forall|j: int| 0 <= j < ws.len() ==> all_blank((#[trigger] ws[j]).1),
    ensures
        flat(ws, nb_token()) == Seq::<char>::empty(),
    decreases ws.len(),
{
    if ws.len() > 0 {
        assert(all_blank(ws[ws.len() - 1].1));
        lemma_flat_blank_tokens(ws.drop_last());
        lemma_nb_blank(ws.last().1);
    }
}

/// A comment-free command comes out with its non-blank characters in order.
pub proof fn lemma_format_command(cfg: Config, st: FmtState, ts: Seq<TokenView>)
    requires
        plain_command(ts),
    ensures
        non_blank(format_command(cfg, st, ts).out) == non_blank(st.out) + non_blank(concat_texts(ts)),
{
    let name = ts[0].1;
    assert(first_unquoted(ts, 0) == Some(0int));
    let gap = name_paren_gap(ts, name);
    let items = command_items(ts);
    lemma_nb_texts(ts);
    let so = non_blank(st.out);
    // The gap is a space or the whitespace token after the name.
    assert(all_blank(seq![' '])) by {
        assert(seq![' '][0] == ' ');
    }
    if !crate::format_spec::is_control_flow(crate::text::unicode_lowercase(name)) && 1 < ts.len()
        && ts[1].0 == SyntaxKind::WHITESPACE {
        assert(all_blank(ts[1].1));
    }
    assert(all_blank(gap));
    lemma_nb_blank(gap);
    if closed_command(ts) {
        let p = choose|p: int| opens_at(ts, p);
        let q = ts.len() - 1;
        let pre = ts.subrange(1, p);
        let body = ts.subrange(p + 1, q);
        let st1 = items_step(items_start(), ts[0]);
        lemma_items_head(ts, p, 1, st1);
        assert(has_paren(ts)) by {
            assert(ts[p].0 == SyntaxKind::L_PAREN);
        }
        lemma_format_shape(cfg, st, ts);
        assert(ts =~= seq![ts[0]] + pre + seq![ts[p]] + body + seq![ts[q]]);
        assert(ts[q] == ts.last());
        let f = nb_token();
        lemma_flat_append(seq![ts[0]], pre, f);
        lemma_flat_append(seq![ts[0]] + pre, seq![ts[p]], f);
        lemma_flat_append(seq![ts[0]] + pre + seq![ts[p]], body, f);
        lemma_flat_append(seq![ts[0]] + pre + seq![ts[p]] + body, seq![ts[q]], f);
        lemma_flat_single(ts[0], f);
        lemma_flat_single(ts[p], f);
        lemma_flat_single(ts[q], f);
        assert forall|j: int| 0 <= j < pre.len() implies all_blank((#[trigger] pre[j]).1) by {
            assert(pre[j] == ts[j + 1]);
            assert(crate::syntax::is_trivia(ts[j + 1].0));
        }
        lemma_flat_blank_tokens(pre);
        assert(so + non_blank(name) + Seq::<char>::empty() + non_blank(ts[p].1) + flat(body, f) + non_blank(ts[q].1)
            =~= so + (non_blank(ts[0].1) + Seq::<char>::empty() + non_blank(ts[p].1) + flat(body, f) + non_blank(
            ts[q].1,
        )));
    } else {
        let st1 = items_step(items_start(), ts[0]);
        crate::content::lemma_bare_items(ts, 1, st1);
        assert(items.len() == 0);
        assert(!has_paren(ts)) by {
            if has_paren(ts) {
                let j = choose|j: int| 0 <= j < ts.len() && ts[j].0 == SyntaxKind::L_PAREN;
                assert(j != 0);
            }
        }
        lemma_format_shape(cfg, st, ts);
        let rest = ts.drop_first();
        assert(ts =~= seq![ts[0]] + rest);
        lemma_flat_append(seq![ts[0]], rest, nb_token());
        lemma_flat_single(ts[0], nb_token());
        assert forall|j: int| 0 <= j < rest.len() implies all_blank((#[trigger] rest[j]).1) by {
            assert(rest[j] == ts[j + 1]);
        }
        lemma_flat_blank_tokens(rest);
        assert(so + non_blank(name) + Seq::<char>::empty() + Seq::<char>::empty() + Seq::<char>::empty()
            + Seq::<char>::empty() =~= so + (non_blank(ts[0].1) + Seq::<char>::empty()));
    }
}

// ---------------------------------------------------------------------------
// Files
// ---------------------------------------------------------------------------
/// Every command of the file is complete or bare, without comments.
pub open spec fn commands_plain(es: Seq<ElementView>) -> bool {
    forall|i: int| 0 <= i < es.len() ==> (#[trigger] es[i] matches ElementView::Command(ts) ==> plain_command(ts))
}

pub proof fn lemma_visit_from(cfg: Config, es: Seq<ElementView>, i: int, st: FmtState)
    requires
        0 <= i <= es.len(),
        commands_plain(es),
    ensures
        non_blank(visit_from(cfg, es, i, st).out) == non_blank(st.out) + non_blank(elements_text(es.skip(i))),
    decreases es.len() - i,
{
    if i == es.len() {
        assert(es.skip(i) =~= Seq::<ElementView>::empty());
        assert(non_blank(st.out) + Seq::<char>::empty() =~= non_blank(st.out));
    } else {
        let e = es[i];
        let st2 = visit_step(cfg, st, e);
        assert(es.skip(i).drop_first() =~= es.skip(i + 1));
        assert(es.skip(i)[0] == e);
        lemma_non_blank_concat(element_text(e), elements_text(es.skip(i + 1)));
        match e {
            ElementView::Command(ts) => {
                assert(es[i] matches ElementView::Command(ts) ==> plain_command(ts));
                let name = command_name_text(ts);
                let level = if crate::format_spec::is_block_close(name) || crate::format_spec::is_block_mid(name) {
                    crate::layout_spec::sat_sub(st.level as int, 1) as usize
                } else {
                    st.level
                };
                lemma_format_command(cfg, FmtState { level, ..st }, ts);
            },
            ElementView::Token(k, t) => {
                if k == SyntaxKind::WHITESPACE {
                    lemma_non_blank_concat(st.out, normalize_whitespace(t));
                    law_normalize_keeps_non_blank(t);
                } else {
                    let lead = if st.at_start {
                        indent_text(cfg, st.level as nat)
                    } else {
                        Seq::empty()
                    };
                    lemma_indent_blank(cfg, st.level as nat);
                    assert(all_blank(lead));
                    lemma_nb_cat3(st.out, lead, t);
                }
            },
        }
        lemma_visit_from(cfg, es, i + 1, st2);
        let r = non_blank(elements_text(es.skip(i + 1)));
        assert(non_blank(st.out) + non_blank(element_text(e)) + r =~= non_blank(st.out) + (non_blank(element_text(e))
            + r));
    }
}

/// In a file whose commands are complete (or bare words) and hold no
/// comments, formatting changes only spaces, tabs and line breaks: every
/// other character stays, in its order.
pub proof fn law_format_keeps_order(cfg: Config, es: Seq<ElementView>)
    requires
        commands_plain(es),
    ensures
        non_blank(format_text(cfg, es)) == non_blank(elements_text(es)),
{
    let st = FmtState { out: Seq::empty(), level: 0, at_start: true };
    lemma_visit_from(cfg, es, 0, st);
    assert(es.skip(0) =~= es);
    assert(non_blank(Seq::<char>::empty()) + non_blank(elements_text(es)) =~= non_blank(elements_text(es)));
}

/// A command that formatting keeps in order once parsed: complete or bare,
/// without comments (and, as anything in memory, with fewer tokens than
/// `usize::MAX`).
pub open spec fn comment_free_command(ts: Seq<TokenView>) -> bool {
    &&& whole_command(ts)
    &&& ts.len() <= usize::MAX
    &&& forall|j: int| 0 <= j < ts.len() ==> (#[trigger] ts[j]).0 != SyntaxKind::COMMENT
}

/// For a source whose commands are complete (or bare words) and hold no
/// comments, formatting its tree changes only spaces, tabs and line breaks:
/// every other character of the source stays, in its order.
pub proof fn law_format_source_keeps_order(cfg: Config, s: Seq<char>)
    requires
        forall|m: int|
            0 <= m < crate::parser::parse_source(s).len() ==> (#[trigger] crate::parser::parse_source(s)[m] matches ElementView::Command(ts)
                ==> comment_free_command(ts)),
    ensures
        non_blank(format_text(cfg, crate::parser::parse_source(s))) == non_blank(s),
{
    let es = crate::parser::parse_source(s);
    crate::parser::lemma_parse_whitespace(s);
    crate::parser::lemma_parse_lossless(s);
    assert forall|i: int| 0 <= i < es.len() implies (#[trigger] es[i] matches ElementView::Command(ts)
        ==> plain_command(ts)) by {
        match es[i] {
            ElementView::Command(ts) => {
                assert(crate::lexer::whitespace_plain(ts));
                assert forall|j: int| 0 <= j < ts.len() && (#[trigger] ts[j]).0 == SyntaxKind::WHITESPACE implies all_blank(
                    ts[j].1,
                ) by {
                    assert forall|x: int| 0 <= x < ts[j].1.len() implies is_blank(#[trigger] ts[j].1[x]) by {
                        assert(crate::lexer::is_plain_ws(ts[j].1[x]));
                    }
                }
            },
            _ => {},
        }
    }
    law_format_keeps_order(cfg, es);
}

} // verus!
