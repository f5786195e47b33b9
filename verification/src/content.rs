//! What formatting keeps of a file, counted character by character: every
//! character other than spaces, tabs and line breaks. The layout functions
//! move words between lines and add blanks; the counts below show that they
//! neither add nor lose anything else.
use crate::config::{Config, IndentStyle};
use crate::cst::{ElementView, TokenView, element_text, elements_text, first_unquoted};
use crate::format_spec::{
    FmtState, ItemsState, close_command, command_items, command_lines, command_name_text,
    extend_last, format_command, format_text, has_paren, head_comment, indent_text, is_blank,
    items_from, items_start, items_step, law_normalize_keeps_non_blank, layout_indent,
    name_paren_gap, non_blank, normalize_whitespace, opening, opt_char, push_arg, render_lines,
    single_from, single_line, visit_from, visit_step,
};
use crate::lexer::concat_texts;
use crate::syntax::SyntaxKind;
use crate::layout_spec::{
    ArgV, CondState, GenState, ItemV, LineV, MainState, PackState, PlaceState, app, app_all,
    append_to_last, arg_of_item, argv_groups_lines, can_append_to_last, chunk_lines,
    compound_header_len, cond_from, cond_step, dedent, gen_flush, gen_from, gen_step, greedy,
    greedy_from, group_command_argv, group_from, groups_from, has_splitter, is_generic_keyword,
    item_text, join, join_space, layout_generic_items, layout_main, layout_mode_header,
    layout_schema_args, layout_schema_items, layout_subparser, leading_for, lemma_compound_header_len,
    lemma_mode_header_used, lemma_mode_positional_end, lemma_outer_end, lemma_subparser_end, line,
    line_texts, lines_at, mode_positional_end, outer_end, pack_arg_from, pack_arg_items,
    pack_arg_step, pack_command_argv, pack_command_argv_items, pack_condition, pack_packed,
    pack_value_items, pack_values, place_from, place_schema_comments, place_step, plain,
    positional_end, positional_max, prefix_lines, push_comment, source_line_groups, spaced,
    subparser_end, texts, value_after, value_indent, with_comment, with_leading,
};
use crate::schema::{FunctionSchema, ListType};
use crate::text::{count_char, lemma_trim_end_len_le, repeat_char, trim_end_len, trim_end_seq};
use vstd::multiset::Multiset;
use vstd::prelude::*;

verus! {

// ---------------------------------------------------------------------------
// Sums of counts
// ---------------------------------------------------------------------------
/// `f` added up over `s`.
pub open spec fn total<T>(s: Seq<T>, f: spec_fn(T) -> int) -> int
    decreases s.len(),
{
    if s.len() == 0 {
        0
    } else {
        total(s.drop_last(), f) + f(s.last())
    }
}

/// Occurrences of `c` in a text.
pub open spec fn in_text(c: char) -> spec_fn(Seq<char>) -> int {
    |v: Seq<char>| count_char(v, c) as int
}

/// Occurrences of `c` in a line.
pub open spec fn in_line(c: char) -> spec_fn(LineV) -> int {
    |l: LineV| count_char(l.text, c) as int
}

/// Occurrences of `c` in an argument or comment.
pub open spec fn in_arg(c: char) -> spec_fn(ArgV) -> int {
    |a: ArgV| count_char(a.text, c) as int
}

/// Occurrences of `c` in an argument; none in a comment.
pub open spec fn in_value(c: char) -> spec_fn(ArgV) -> int {
    |a: ArgV| if a.is_comment {
        0
    } else {
        count_char(a.text, c) as int
    }
}

/// Occurrences of `c` in a group of words.
pub open spec fn in_group(c: char) -> spec_fn(Seq<Seq<char>>) -> int {
    |g: Seq<Seq<char>>| total(g, in_text(c))
}

pub proof fn lemma_total_append<T>(a: Seq<T>, b: Seq<T>, f: spec_fn(T) -> int)
    ensures
        total(a + b, f) == total(a, f) + total(b, f),
    decreases b.len(),
{
    if b.len() == 0 {
        assert(a + b =~= a);
    } else {
        assert((a + b).drop_last() =~= a + b.drop_last());
        lemma_total_append(a, b.drop_last(), f);
    }
}

pub proof fn lemma_total_push<T>(s: Seq<T>, x: T, f: spec_fn(T) -> int)
    ensures
        total(s.push(x), f) == total(s, f) + f(x),
{
    assert(s.push(x).drop_last() =~= s);
}

pub proof fn lemma_total_single<T>(x: T, f: spec_fn(T) -> int)
    ensures
        total(seq![x], f) == f(x),
{
    assert(seq![x].drop_last() =~= Seq::<T>::empty());
    assert(seq![x].last() == x);
    assert(total(Seq::<T>::empty(), f) == 0);
}

pub proof fn lemma_total_take_step<T>(s: Seq<T>, i: int, f: spec_fn(T) -> int)
    requires
        0 <= i < s.len(),
    ensures
        total(s.take(i + 1), f) == total(s.take(i), f) + f(s[i]),
{
    assert(s.take(i + 1).drop_last() =~= s.take(i));
}

pub proof fn lemma_total_split<T>(s: Seq<T>, i: int, f: spec_fn(T) -> int)
    requires
        0 <= i <= s.len(),
    ensures
        total(s, f) == total(s.take(i), f) + total(s.skip(i), f),
{
    assert(s =~= s.take(i) + s.skip(i));
    lemma_total_append(s.take(i), s.skip(i), f);
}

pub proof fn lemma_total_le<T>(s: Seq<T>, f: spec_fn(T) -> int, g: spec_fn(T) -> int)
    requires
        forall|x: T| #[trigger] f(x) <= g(x),
    ensures
        total(s, f) <= total(s, g),
    decreases s.len(),
{
    if s.len() > 0 {
        lemma_total_le(s.drop_last(), f, g);
    }
}

pub proof fn lemma_total_nonneg<T>(s: Seq<T>, f: spec_fn(T) -> int)
    requires
        forall|x: T| 0 <= #[trigger] f(x),
    ensures
        0 <= total(s, f),
    decreases s.len(),
{
    if s.len() > 0 {
        lemma_total_nonneg(s.drop_last(), f);
    }
}

// ---------------------------------------------------------------------------
// Counting characters
// ---------------------------------------------------------------------------
pub proof fn lemma_count_concat(a: Seq<char>, b: Seq<char>, c: char)
    ensures
        count_char(a + b, c) == count_char(a, c) + count_char(b, c),
    decreases b.len(),
{
    if b.len() == 0 {
        assert(a + b =~= a);
    } else {
        assert((a + b).drop_last() =~= a + b.drop_last());
        lemma_count_concat(a, b.drop_last(), c);
    }
}

pub proof fn lemma_count_single(x: char, c: char)
    ensures
        count_char(seq![x], c) == if x == c {
            1nat
        } else {
            0nat
        },
{
    assert(seq![x].drop_last() =~= Seq::<char>::empty());
    assert(seq![x].last() == x);
    assert(count_char(Seq::<char>::empty(), c) == 0);
}

/// Text made of spaces, tabs and line breaks only.
pub open spec fn all_blank(s: Seq<char>) -> bool {
    forall|i: int| 0 <= i < s.len() ==> is_blank(#[trigger] s[i])
}

pub proof fn lemma_count_blank(s: Seq<char>, c: char)
    requires
        all_blank(s),
        !is_blank(c),
    ensures
        count_char(s, c) == 0,
    decreases s.len(),
{
    if s.len() > 0 {
        assert(is_blank(s[s.len() - 1]));
        lemma_count_blank(s.drop_last(), c);
    }
}

pub proof fn lemma_count_app(l: Seq<char>, v: Seq<char>, c: char)
    requires
        !is_blank(c),
    ensures
        count_char(app(l, v), c) == count_char(l, c) + count_char(v, c),
{
    lemma_count_concat(l, v, c);
    lemma_count_concat(l, seq![' '], c);
    lemma_count_concat(l + seq![' '], v, c);
    lemma_count_single(' ', c);
}

pub proof fn lemma_count_spaced(a: Seq<char>, b: Seq<char>, c: char)
    requires
        !is_blank(c),
    ensures
        count_char(spaced(a, b), c) == count_char(a, c) + count_char(b, c),
{
    lemma_count_concat(a, seq![' '], c);
    lemma_count_concat(a + seq![' '], b, c);
    lemma_count_single(' ', c);
}

pub proof fn lemma_count_with_comment(a: Seq<char>, b: Seq<char>, c: char)
    requires
        !is_blank(c),
    ensures
        count_char(with_comment(a, b), c) == count_char(a, c) + count_char(b, c),
{
    lemma_count_concat(a, seq![' ', ' '], c);
    lemma_count_concat(a + seq![' ', ' '], b, c);
    lemma_count_blank(seq![' ', ' '], c);
}

pub proof fn lemma_count_app_all(start: Seq<char>, vs: Seq<Seq<char>>, c: char)
    requires
        !is_blank(c),
    ensures
        count_char(app_all(start, vs), c) == count_char(start, c) + total(vs, in_text(c)),
    decreases vs.len(),
{
    if vs.len() > 0 {
        lemma_count_app_all(start, vs.drop_last(), c);
        lemma_count_app(app_all(start, vs.drop_last()), vs.last(), c);
    }
}

pub proof fn lemma_count_join(vs: Seq<Seq<char>>, c: char)
    requires
        !is_blank(c),
    ensures
        count_char(join(vs), c) == total(vs, in_text(c)),
{
    lemma_count_app_all(Seq::empty(), vs, c);
}

pub proof fn lemma_count_join_space(vs: Seq<Seq<char>>, c: char)
    requires
        !is_blank(c),
    ensures
        count_char(join_space(vs), c) == total(vs, in_text(c)),
    decreases vs.len(),
{
    if vs.len() == 1 {
        assert(vs.drop_last() =~= Seq::<Seq<char>>::empty());
        assert(total(Seq::<Seq<char>>::empty(), in_text(c)) == 0);
        assert(vs.last() == vs[0]);
    } else if vs.len() > 1 {
        lemma_count_join_space(vs.drop_last(), c);
        lemma_count_spaced(join_space(vs.drop_last()), vs.last(), c);
    }
}

// ---------------------------------------------------------------------------
// Lines of values
// ---------------------------------------------------------------------------
pub proof fn lemma_lines_at(vs: Seq<Seq<char>>, indent: usize, c: char)
    ensures
        total(lines_at(vs, indent), in_line(c)) == total(vs, in_text(c)),
    decreases vs.len(),
{
    if vs.len() > 0 {
        assert(lines_at(vs, indent).drop_last() =~= lines_at(vs.drop_last(), indent));
        lemma_lines_at(vs.drop_last(), indent, c);
    }
}

pub proof fn lemma_prefix_lines(prefix: Seq<Seq<char>>, indent: usize, c: char)
    requires
        !is_blank(c),
    ensures
        total(prefix_lines(prefix, indent), in_line(c)) == total(prefix, in_text(c)),
{
    if prefix.len() > 0 {
        lemma_total_single(line(indent, join(prefix)), in_line(c));
        lemma_count_join(prefix, c);
    }
}

pub proof fn lemma_texts(args: Seq<ArgV>, c: char)
    ensures
        total(texts(args), in_text(c)) == total(args, in_arg(c)),
    decreases args.len(),
{
    if args.len() > 0 {
        assert(texts(args).drop_last() =~= texts(args.drop_last()));
        lemma_texts(args.drop_last(), c);
    }
}

pub proof fn lemma_values_le_args(args: Seq<ArgV>, c: char)
    ensures
        0 <= total(args, in_value(c)) <= total(args, in_arg(c)),
{
    lemma_total_le(args, in_value(c), in_arg(c));
    lemma_total_nonneg(args, in_value(c));
}

pub proof fn lemma_greedy_from(
    values: Seq<Seq<char>>,
    i: int,
    width: usize,
    indent: usize,
    lines: Seq<LineV>,
    current: Seq<char>,
    c: char,
)
    requires
        0 <= i <= values.len(),
        !is_blank(c),
    ensures
        total(greedy_from(values, i, width, indent, lines, current), in_line(c)) + total(
            values.take(i),
            in_text(c),
        ) == total(lines, in_line(c)) + count_char(current, c) + total(values, in_text(c)),
    decreases values.len() - i,
{
    if i == values.len() {
        assert(values.take(i) =~= values);
        if current.len() > 0 {
            lemma_total_push(lines, line(indent, current), in_line(c));
        }
    } else {
        lemma_total_take_step(values, i, in_text(c));
        let value = values[i];
        if current.len() == 0 {
            lemma_greedy_from(values, i + 1, width, indent, lines, value, c);
        } else if crate::layout_spec::fits(current, crate::layout_spec::sep(current, value), value, width) {
            lemma_count_app(current, value, c);
            lemma_greedy_from(values, i + 1, width, indent, lines, app(current, value), c);
        } else {
            lemma_total_push(lines, line(indent, current), in_line(c));
            lemma_greedy_from(values, i + 1, width, indent, lines.push(line(indent, current)), value, c);
        }
    }
}

pub proof fn lemma_greedy(values: Seq<Seq<char>>, width: usize, indent: usize, c: char)
    requires
        !is_blank(c),
    ensures
        total(greedy(values, width, indent), in_line(c)) == total(values, in_text(c)),
{
    lemma_greedy_from(values, 0, width, indent, Seq::empty(), Seq::empty(), c);
    assert(values.take(0) =~= Seq::<Seq<char>>::empty());
}

pub proof fn lemma_chunk_lines(values: Seq<Seq<char>>, n: nat, width: usize, indent: usize, c: char)
    requires
        n > 0,
        !is_blank(c),
    ensures
        total(chunk_lines(values, n, width, indent), in_line(c)) == total(values, in_text(c)),
    decreases values.len(),
{
    if values.len() > 0 {
        let k = if values.len() < n {
            values.len() as int
        } else {
            n as int
        };
        let chunk = values.take(k);
        let rest = chunk_lines(values.skip(k), n, width, indent);
        lemma_chunk_lines(values.skip(k), n, width, indent, c);
        lemma_total_split(values, k, in_text(c));
        let joined = join_space(chunk);
        if crate::text::blen(joined) <= width {
            lemma_count_join_space(chunk, c);
            lemma_total_append(seq![line(indent, joined)], rest, in_line(c));
            lemma_total_single(line(indent, joined), in_line(c));
        } else {
            let first = seq![line(indent, chunk[0])];
            let mid = lines_at(chunk.skip(1), crate::layout_spec::inc(indent));
            lemma_total_append(first, mid, in_line(c));
            lemma_total_append(first + mid, rest, in_line(c));
            lemma_total_single(line(indent, chunk[0]), in_line(c));
            lemma_lines_at(chunk.skip(1), crate::layout_spec::inc(indent), c);
            lemma_total_split(chunk, 1, in_text(c));
            lemma_total_single(chunk[0], in_text(c));
            assert(chunk.take(1) =~= seq![chunk[0]]);
        }
    }
}

pub proof fn lemma_pack_packed(indent: usize, prefix: Seq<Seq<char>>, values: Seq<Seq<char>>, width: usize, c: char)
    requires
        !is_blank(c),
    ensures
        total(pack_packed(indent, prefix, values, width), in_line(c)) == total(prefix, in_text(c))
            + total(values, in_text(c)),
{
    let single = app_all(join(prefix), values);
    if prefix.len() > 0 && crate::text::blen(single) <= width {
        lemma_total_single(line(indent, single), in_line(c));
        lemma_count_app_all(join(prefix), values, c);
        lemma_count_join(prefix, c);
    } else {
        lemma_total_append(
            prefix_lines(prefix, indent),
            greedy(values, width, value_indent(prefix, indent)),
            in_line(c),
        );
        lemma_prefix_lines(prefix, indent, c);
        lemma_greedy(values, width, value_indent(prefix, indent), c);
    }
}

pub proof fn lemma_group_from(values: Seq<Seq<char>>, i: int, after_separator: bool, c: char)
    requires
        0 <= i <= values.len(),
        !is_blank(c),
    ensures
        total(group_from(values, i, after_separator), in_text(c)) + total(values.take(i), in_text(c))
            == total(values, in_text(c)),
    decreases values.len() - i,
{
    if i == values.len() {
        assert(values.take(i) =~= values);
    } else {
        let v = values[i];
        lemma_total_take_step(values, i, in_text(c));
        if v == seq!['-', '-'] {
            lemma_group_from(values, i + 1, true, c);
            lemma_total_append(seq![v], group_from(values, i + 1, true), in_text(c));
            lemma_total_single(v, in_text(c));
        } else if (crate::layout_spec::is_redirect_operator(v) && i + 1 < values.len()) || (
        !after_separator && crate::layout_spec::starts_flag_value_pair(v) && i + 1 < values.len()
            && crate::layout_spec::can_be_flag_value(values[i + 1])) {
            let w = spaced(v, values[i + 1]);
            lemma_group_from(values, i + 2, after_separator, c);
            lemma_total_take_step(values, i + 1, in_text(c));
            lemma_total_append(seq![w], group_from(values, i + 2, after_separator), in_text(c));
            lemma_total_single(w, in_text(c));
            lemma_count_spaced(v, values[i + 1], c);
        } else {
            lemma_group_from(values, i + 1, after_separator, c);
            lemma_total_append(seq![v], group_from(values, i + 1, after_separator), in_text(c));
            lemma_total_single(v, in_text(c));
        }
    }
}

pub proof fn lemma_pack_command_argv(indent: usize, prefix: Seq<Seq<char>>, values: Seq<Seq<char>>, width: usize, c: char)
    requires
        !is_blank(c),
    ensures
        total(pack_command_argv(indent, prefix, values, width), in_line(c)) == total(prefix, in_text(c))
            + total(values, in_text(c)),
{
    let grouped = group_command_argv(values);
    lemma_group_from(values, 0, false, c);
    assert(values.take(0) =~= Seq::<Seq<char>>::empty());
    if prefix.len() == 0 {
        lemma_greedy(grouped, width, indent, c);
    } else {
        let single = app_all(join(prefix), grouped);
        lemma_count_app_all(join(prefix), grouped, c);
        lemma_count_join(prefix, c);
        if crate::text::blen(single) <= width {
            lemma_total_single(line(indent, single), in_line(c));
        } else {
            lemma_total_append(
                seq![line(indent, join(prefix))],
                greedy(grouped, width, crate::layout_spec::inc(indent)),
                in_line(c),
            );
            lemma_total_single(line(indent, join(prefix)), in_line(c));
            lemma_greedy(grouped, width, crate::layout_spec::inc(indent), c);
        }
    }
}

pub proof fn lemma_cond_from(indent: usize, width: usize, values: Seq<Seq<char>>, i: int, st: CondState, c: char)
    requires
        0 <= i <= values.len(),
        !is_blank(c),
    ensures
        ({
            let r = cond_from(indent, width, values, i, st);
            total(r.lines, in_line(c)) + count_char(r.current, c) + total(values.take(i), in_text(c))
                == total(st.lines, in_line(c)) + count_char(st.current, c) + total(values, in_text(c))
        }),
    decreases values.len() - i,
{
    if i == values.len() {
        assert(values.take(i) =~= values);
    } else {
        let value = values[i];
        let st2 = cond_step(indent, width, st, value);
        lemma_total_take_step(values, i, in_text(c));
        lemma_cond_from(indent, width, values, i + 1, st2, c);
        lemma_total_push(st.lines, line(st.current_indent, st.current), in_line(c));
        let is_op = value == "AND"@ || value == "OR"@;
        let brk = (is_op && st.current.len() > 0) || (st.current.len() > 0 && !crate::layout_spec::fits(
            st.current,
            crate::layout_spec::sep(st.current, value),
            value,
            width,
        ));
        let current0 = if brk {
            Seq::<char>::empty()
        } else {
            st.current
        };
        if current0.len() > 0 {
            lemma_count_app(current0, value, c);
        }
    }
}

pub proof fn lemma_pack_condition(indent: usize, prefix: Seq<Seq<char>>, values: Seq<Seq<char>>, width: usize, c: char)
    requires
        !is_blank(c),
    ensures
        total(pack_condition(indent, prefix, values, width), in_line(c)) == total(prefix, in_text(c))
            + total(values, in_text(c)),
{
    let st0 = CondState { lines: Seq::empty(), current: join(prefix), current_indent: indent, depth: 0 };
    lemma_cond_from(indent, width, values, 0, st0, c);
    assert(values.take(0) =~= Seq::<Seq<char>>::empty());
    lemma_count_join(prefix, c);
    let st = cond_from(indent, width, values, 0, st0);
    if st.current.len() > 0 {
        lemma_total_push(st.lines, line(st.current_indent, st.current), in_line(c));
    }
}

pub proof fn lemma_pack_values(indent: usize, prefix: Seq<Seq<char>>, values: Seq<Seq<char>>, width: usize, list_type: ListType, c: char)
    requires
        !is_blank(c),
    ensures
        total(pack_values(indent, prefix, values, width, list_type), in_line(c)) == total(
            prefix,
            in_text(c),
        ) + total(values, in_text(c)),
{
    let vi = value_indent(prefix, indent);
    if prefix.len() == 0 && values.len() == 0 {
    } else if list_type == ListType::Condition {
        lemma_pack_condition(indent, prefix, values, width, c);
    } else if list_type == ListType::CommandArgv {
        lemma_pack_command_argv(indent, prefix, values, width, c);
    } else if list_type == ListType::Path && values.len() == 1 && prefix.len() > 0
        && crate::layout_spec::fits(
        join(prefix),
        crate::layout_spec::sep(join(prefix), values[0]),
        values[0],
        width,
    ) {
        lemma_total_single(line(indent, app(join(prefix), values[0])), in_line(c));
        lemma_count_app(join(prefix), values[0], c);
        lemma_count_join(prefix, c);
        lemma_total_single(values[0], in_text(c));
        assert(values =~= seq![values[0]]);
    } else if (list_type == ListType::Path && values.len() > 0) || (list_type is NPerLine && (
    list_type->n <= 1 || values.len() == 0)) {
        lemma_total_append(prefix_lines(prefix, indent), lines_at(values, vi), in_line(c));
        lemma_prefix_lines(prefix, indent, c);
        lemma_lines_at(values, vi, c);
    } else if list_type is NPerLine && (values.len() as int) % (list_type->n as int) == 0 {
        lemma_total_append(
            prefix_lines(prefix, indent),
            chunk_lines(values, list_type->n as nat, width, vi),
            in_line(c),
        );
        lemma_prefix_lines(prefix, indent, c);
        lemma_chunk_lines(values, list_type->n as nat, width, vi, c);
    } else {
        lemma_pack_packed(indent, prefix, values, width, c);
    }
}

// ---------------------------------------------------------------------------
// Values from source arguments
// ---------------------------------------------------------------------------
pub proof fn lemma_groups_from(
    items: Seq<ArgV>,
    i: int,
    current_line: Option<usize>,
    current: Seq<Seq<char>>,
    groups: Seq<Seq<Seq<char>>>,
    c: char,
)
    requires
        0 <= i <= items.len(),
    ensures
        total(groups_from(items, i, current_line, current, groups), in_group(c)) + total(
            items.take(i),
            in_arg(c),
        ) == total(groups, in_group(c)) + total(current, in_text(c)) + total(items, in_arg(c)),
    decreases items.len() - i,
{
    if i == items.len() {
        assert(items.take(i) =~= items);
        if current.len() > 0 {
            lemma_total_push(groups, current, in_group(c));
        }
    } else {
        let item = items[i];
        lemma_total_take_step(items, i, in_arg(c));
        let brk = current_line is Some && current_line != item.source_line;
        let groups1 = if brk {
            groups.push(current)
        } else {
            groups
        };
        let current1 = if brk {
            Seq::<Seq<char>>::empty()
        } else {
            current
        };
        lemma_total_push(groups, current, in_group(c));
        lemma_total_push(current1, item.text, in_text(c));
        lemma_groups_from(items, i + 1, item.source_line, current1.push(item.text), groups1, c);
    }
}

pub proof fn lemma_argv_groups_lines(groups: Seq<Seq<Seq<char>>>, width: usize, indent: usize, c: char)
    requires
        !is_blank(c),
    ensures
        total(argv_groups_lines(groups, width, indent), in_line(c)) == total(groups, in_group(c)),
    decreases groups.len(),
{
    if groups.len() > 0 {
        lemma_argv_groups_lines(groups.drop_last(), width, indent, c);
        lemma_total_append(
            argv_groups_lines(groups.drop_last(), width, indent),
            pack_command_argv(indent, Seq::empty(), groups.last(), width),
            in_line(c),
        );
        lemma_pack_command_argv(indent, Seq::empty(), groups.last(), width, c);
    }
}

pub proof fn lemma_pack_command_argv_items(threshold: isize, indent: usize, prefix: Seq<Seq<char>>, items: Seq<ArgV>, width: usize, c: char)
    requires
        !is_blank(c),
    ensures
        total(pack_command_argv_items(threshold, indent, prefix, items, width), in_line(c)) == total(
            prefix,
            in_text(c),
        ) + total(items, in_arg(c)),
{
    let groups = source_line_groups(items);
    lemma_groups_from(items, 0, None, Seq::empty(), Seq::empty(), c);
    assert(items.take(0) =~= Seq::<ArgV>::empty());
    let vi = value_indent(prefix, indent);
    lemma_total_append(prefix_lines(prefix, indent), argv_groups_lines(groups, width, vi), in_line(c));
    lemma_prefix_lines(prefix, indent, c);
    lemma_argv_groups_lines(groups, width, vi, c);
    lemma_pack_command_argv(indent, prefix, texts(items), width, c);
    lemma_texts(items, c);
}

pub proof fn lemma_pack_value_items(
    threshold: isize,
    indent: usize,
    prefix: Seq<Seq<char>>,
    items: Seq<ArgV>,
    width: usize,
    list_type: ListType,
    consumed: usize,
    c: char,
)
    requires
        !is_blank(c),
    ensures
        total(
            pack_value_items(threshold, indent, prefix, items, width, list_type, consumed),
            in_line(c),
        ) == total(prefix, in_text(c)) + total(items, in_arg(c)),
{
    if list_type == ListType::CommandArgv {
        lemma_pack_command_argv_items(threshold, indent, prefix, items, width, c);
    } else {
        let lt = if crate::layout_spec::should_preserve_vertical_list(threshold, items, list_type, consumed) {
            ListType::NPerLine { n: 1 }
        } else {
            list_type
        };
        lemma_pack_values(indent, prefix, texts(items), width, lt, c);
        lemma_texts(items, c);
    }
}

// ---------------------------------------------------------------------------
// Comments and keyword groups
// ---------------------------------------------------------------------------
pub proof fn lemma_push_comment(lines: Seq<LineV>, indent: usize, comment: Seq<char>, trailing: bool, width: usize, c: char)
    requires
        !is_blank(c),
    ensures
        total(push_comment(lines, indent, comment, trailing, width), in_line(c)) == total(
            lines,
            in_line(c),
        ) + count_char(comment, c),
{
    let cl = LineV { indent, text: comment, has_comment: true };
    if trailing && lines.len() > 0 && !crate::text::starts_with_char(lines.last().text, '#') {
        let last = lines.last();
        let rest = lines.drop_last();
        assert(lines =~= rest.push(last));
        lemma_total_push(rest, last, in_line(c));
        if crate::layout_spec::fits(last.text, 2, comment, width) {
            let nl = LineV { indent: last.indent, text: with_comment(last.text, comment), has_comment: true };
            lemma_total_push(rest, nl, in_line(c));
            lemma_count_with_comment(last.text, comment, c);
        } else {
            let cm = LineV { indent: last.indent, text: comment, has_comment: true };
            lemma_total_push(rest, cm, in_line(c));
            lemma_total_push(rest.push(cm), last, in_line(c));
        }
    } else {
        lemma_total_push(lines, cl, in_line(c));
    }
}

pub proof fn lemma_append_to_last(lines: Seq<LineV>, text: Seq<char>, c: char)
    requires
        lines.len() > 0,
        !is_blank(c),
    ensures
        total(append_to_last(lines, text), in_line(c)) == total(lines, in_line(c)) + count_char(text, c),
{
    let last = lines.last();
    let rest = lines.drop_last();
    assert(lines =~= rest.push(last));
    lemma_total_push(rest, last, in_line(c));
    lemma_total_push(rest, LineV { text: app(last.text, text), ..last }, in_line(c));
    lemma_count_app(last.text, text, c);
}

/// What a keyword group's state holds: its lines, its keyword words and
/// its pending values.
pub open spec fn pack_held(st: PackState, c: char) -> int {
    total(st.lines, in_line(c)) + total(st.prefix, in_text(c)) + total(st.values, in_arg(c))
}

pub proof fn lemma_pack_arg_from(
    threshold: isize,
    indent: usize,
    comment_indent: usize,
    items: Seq<ArgV>,
    width: usize,
    list_type: ListType,
    idx: int,
    st: PackState,
    c: char,
)
    requires
        0 <= idx <= items.len(),
        !is_blank(c),
    ensures
        pack_held(pack_arg_from(threshold, indent, comment_indent, items, width, list_type, idx, st), c)
            + total(items.take(idx), in_arg(c)) == pack_held(st, c) + total(items, in_arg(c)),
    decreases items.len() - idx,
{
    if idx == items.len() {
        assert(items.take(idx) =~= items);
    } else {
        let item = items[idx];
        lemma_total_take_step(items, idx, in_arg(c));
        let st2 = pack_arg_step(threshold, indent, comment_indent, items, width, list_type, idx, st);
        lemma_pack_arg_from(threshold, indent, comment_indent, items, width, list_type, idx + 1, st2, c);
        if item.is_comment {
            let more_after = value_after(items, idx + 1);
            let packed = pack_value_items(threshold, st.current_indent, st.prefix, st.values, width, list_type, 0);
            let split = item.trailing && more_after && st.values.len() > 0 && packed.len() > 0
                && !crate::layout_spec::fits(packed.last().text, 2, item.text, width);
            let this_indent = if more_after {
                comment_indent
            } else {
                indent
            };
            if split {
                let vs = st.values.drop_last();
                let l1 = st.lines + pack_value_items(threshold, st.current_indent, st.prefix, vs, width, list_type, 0);
                let p2 = pack_value_items(threshold, st.current_indent, Seq::empty(), seq![st.values.last()], width, list_type, 0);
                lemma_total_append(st.lines, pack_value_items(threshold, st.current_indent, st.prefix, vs, width, list_type, 0), in_line(c));
                lemma_pack_value_items(threshold, st.current_indent, st.prefix, vs, width, list_type, 0, c);
                lemma_total_append(l1, p2, in_line(c));
                lemma_pack_value_items(threshold, st.current_indent, Seq::empty(), seq![st.values.last()], width, list_type, 0, c);
                lemma_total_single(st.values.last(), in_arg(c));
                assert(st.values =~= vs.push(st.values.last()));
                lemma_total_push(vs, st.values.last(), in_arg(c));
                lemma_push_comment(l1 + p2, this_indent, item.text, item.trailing, width, c);
            } else {
                let l2 = st.lines + packed;
                lemma_total_append(st.lines, packed, in_line(c));
                lemma_pack_value_items(threshold, st.current_indent, st.prefix, st.values, width, list_type, 0, c);
                lemma_push_comment(l2, this_indent, item.text, item.trailing, width, c);
            }
        } else {
            lemma_total_push(st.values, item, in_arg(c));
        }
    }
}

pub proof fn lemma_pack_arg_items(threshold: isize, indent: usize, prefix: Seq<Seq<char>>, items: Seq<ArgV>, width: usize, list_type: ListType, c: char)
    requires
        !is_blank(c),
    ensures
        total(pack_arg_items(threshold, indent, prefix, items, width, list_type), in_line(c)) == total(
            prefix,
            in_text(c),
        ) + total(items, in_arg(c)),
{
    let comment_indent = value_indent(prefix, indent);
    let start = if has_splitter(items) && prefix.len() > 0 {
        PackState {
            lines: seq![line(indent, join(prefix))],
            prefix: Seq::empty(),
            values: Seq::empty(),
            current_indent: comment_indent,
        }
    } else {
        PackState { lines: Seq::empty(), prefix, values: Seq::empty(), current_indent: indent }
    };
    lemma_total_single(line(indent, join(prefix)), in_line(c));
    lemma_count_join(prefix, c);
    lemma_pack_arg_from(threshold, indent, comment_indent, items, width, list_type, 0, start, c);
    assert(items.take(0) =~= Seq::<ArgV>::empty());
    let st = pack_arg_from(threshold, indent, comment_indent, items, width, list_type, 0, start);
    lemma_total_append(
        st.lines,
        pack_value_items(threshold, st.current_indent, st.prefix, st.values, width, list_type, 0),
        in_line(c),
    );
    lemma_pack_value_items(threshold, st.current_indent, st.prefix, st.values, width, list_type, 0, c);
}

// ---------------------------------------------------------------------------
// The generic layout
// ---------------------------------------------------------------------------
/// Occurrences of `c` in an argument or comment of a command.
pub open spec fn in_item(c: char) -> spec_fn(ItemV) -> int {
    |i: ItemV| count_char(item_text(i), c) as int
}

/// Occurrences of `c` in an argument of a command; none in a comment.
pub open spec fn in_arg_item(c: char) -> spec_fn(ItemV) -> int {
    |i: ItemV| if i is Comment {
        0
    } else {
        count_char(item_text(i), c) as int
    }
}

pub open spec fn gen_held(st: GenState, c: char) -> int {
    total(st.lines, in_line(c)) + total(st.prefix, in_text(c)) + total(st.values, in_arg(c))
}

pub proof fn lemma_gen_flush(threshold: isize, st: GenState, width: usize, c: char)
    requires
        !is_blank(c),
    ensures
        total(gen_flush(threshold, st, width), in_line(c)) == gen_held(st, c),
{
    if st.prefix.len() == 1 && st.values.len() == 1 {
        let l = line(0, spaced(st.prefix[0], st.values[0].text));
        lemma_total_push(st.lines, l, in_line(c));
        lemma_count_spaced(st.prefix[0], st.values[0].text, c);
        lemma_total_single(st.prefix[0], in_text(c));
        lemma_total_single(st.values[0], in_arg(c));
        assert(st.prefix =~= seq![st.prefix[0]]);
        assert(st.values =~= seq![st.values[0]]);
    } else {
        let p = pack_value_items(threshold, 0, st.prefix, st.values, width, ListType::Packed, 0);
        lemma_total_append(st.lines, p, in_line(c));
        lemma_pack_value_items(threshold, 0, st.prefix, st.values, width, ListType::Packed, 0, c);
    }
}

pub proof fn lemma_gen_from(threshold: isize, items: Seq<ItemV>, i: int, st: GenState, width: usize, c: char)
    requires
        0 <= i <= items.len(),
        !is_blank(c),
    ensures
        gen_held(gen_from(threshold, items, i, st, width), c) + total(items.take(i), in_item(c))
            == gen_held(st, c) + total(items, in_item(c)),
    decreases items.len() - i,
{
    if i == items.len() {
        assert(items.take(i) =~= items);
    } else {
        let item = items[i];
        lemma_total_take_step(items, i, in_item(c));
        let st2 = gen_step(threshold, st, item, width);
        lemma_gen_from(threshold, items, i + 1, st2, width, c);
        lemma_gen_flush(threshold, st, width, c);
        match item {
            ItemV::Arg { text, source_line, .. } => {
                if is_generic_keyword(text) {
                    lemma_total_single(text, in_text(c));
                } else {
                    lemma_total_push(
                        st.values,
                        ArgV { text, is_comment: false, trailing: false, source_line: Some(source_line) },
                        in_arg(c),
                    );
                }
            },
            ItemV::Comment { text, trailing, .. } => {
                lemma_push_comment(gen_flush(threshold, st, width), 0, text, trailing, width, c);
            },
        }
    }
}

/// The generic layout keeps every argument and comment, character by
/// character, and adds only blanks.
pub proof fn lemma_layout_generic_items(threshold: isize, items: Seq<ItemV>, width: usize, c: char)
    requires
        !is_blank(c),
    ensures
        total(layout_generic_items(threshold, items, width), in_line(c)) == total(items, in_item(c)),
{
    let st0 = GenState { lines: Seq::empty(), prefix: Seq::empty(), values: Seq::empty() };
    lemma_gen_from(threshold, items, 0, st0, width, c);
    assert(items.take(0) =~= Seq::<ItemV>::empty());
    lemma_gen_flush(threshold, gen_from(threshold, items, 0, st0, width), width, c);
}

// ---------------------------------------------------------------------------
// Comments moved before their line
// ---------------------------------------------------------------------------
/// The positions of the arguments among `items`, in order.
pub open spec fn arg_indices(items: Seq<ItemV>) -> Seq<usize>
    decreases items.len(),
{
    if items.len() == 0 {
        Seq::empty()
    } else {
        match items.last() {
            ItemV::Arg { index, .. } => arg_indices(items.drop_last()).push(index),
            _ => arg_indices(items.drop_last()),
        }
    }
}

pub open spec fn increasing(s: Seq<usize>) -> bool {
    forall|a: int, b: int| 0 <= a < b < s.len() ==> s[a] < s[b]
}

/// The weight `w` of an item's text.
pub open spec fn item_w(w: spec_fn(Seq<char>) -> int) -> spec_fn(ItemV) -> int {
    |i: ItemV| w(item_text(i))
}

/// The weight `w` of an argument's text; none for a comment.
pub open spec fn arg_w(w: spec_fn(Seq<char>) -> int) -> spec_fn(ItemV) -> int {
    |i: ItemV| if i is Comment {
        0
    } else {
        w(item_text(i))
    }
}

/// The weight `w` of the promoted comments aimed at position `k`.
pub open spec fn lead_at_w(w: spec_fn(Seq<char>) -> int, k: usize) -> spec_fn((usize, Seq<char>)) -> int {
    |p: (usize, Seq<char>)| if p.0 == k {
        w(p.1)
    } else {
        0
    }
}

/// The weight `w` of a promoted comment.
pub open spec fn lead_w(w: spec_fn(Seq<char>) -> int) -> spec_fn((usize, Seq<char>)) -> int {
    |p: (usize, Seq<char>)| w(p.1)
}

pub proof fn lemma_total_add<T>(s: Seq<T>, f: spec_fn(T) -> int, g: spec_fn(T) -> int, h: spec_fn(T) -> int)
    requires
        forall|x: T| #[trigger] h(x) == f(x) + g(x),
    ensures
        total(s, h) == total(s, f) + total(s, g),
    decreases s.len(),
{
    if s.len() > 0 {
        lemma_total_add(s.drop_last(), f, g, h);
    }
}

pub proof fn lemma_leading_for(leading: Seq<(usize, Seq<char>)>, index: usize, w: spec_fn(Seq<char>) -> int)
    ensures
        total(leading_for(leading, index), item_w(w)) == total(leading, lead_at_w(w, index)),
        total(leading_for(leading, index), arg_w(w)) == 0,
    decreases leading.len(),
{
    if leading.len() > 0 {
        lemma_leading_for(leading.drop_last(), index, w);
        let rest = leading_for(leading.drop_last(), index);
        let it = ItemV::Comment { text: leading.last().1, trailing: false, target_arg: None, previous_arg: None };
        lemma_total_push(rest, it, item_w(w));
        lemma_total_push(rest, it, arg_w(w));
    }
}

pub proof fn lemma_with_leading_args(kept: Seq<ItemV>, leading: Seq<(usize, Seq<char>)>, w: spec_fn(Seq<char>) -> int)
    ensures
        total(with_leading(kept, leading), arg_w(w)) == total(kept, arg_w(w)),
    decreases kept.len(),
{
    if kept.len() > 0 {
        lemma_with_leading_args(kept.drop_last(), leading, w);
        let before = with_leading(kept.drop_last(), leading);
        let item = kept.last();
        match item {
            ItemV::Arg { index, .. } => {
                lemma_leading_for(leading, index, w);
                lemma_total_append(before, leading_for(leading, index), arg_w(w));
                lemma_total_append(before + leading_for(leading, index), seq![item], arg_w(w));
                lemma_total_single(item, arg_w(w));
            },
            _ => {
                lemma_total_push(before, item, arg_w(w));
            },
        }
    }
}

/// Every comment aimed at an argument of `items` aims at one that is there.
pub open spec fn targets_ok(items: Seq<ItemV>) -> bool {
    forall|j: int|
        0 <= j < items.len() ==> (#[trigger] items[j] matches ItemV::Comment { target_arg: Some(t), .. }
            ==> arg_indices(items).contains(t))
}

/// The weight `w` of the promoted comments aimed at positions in `s`.
pub open spec fn lead_in_w(w: spec_fn(Seq<char>) -> int, s: Seq<usize>) -> spec_fn((usize, Seq<char>)) -> int {
    |p: (usize, Seq<char>)| if s.contains(p.0) {
        w(p.1)
    } else {
        0
    }
}

pub proof fn lemma_total_eq_on<T>(s: Seq<T>, f: spec_fn(T) -> int, g: spec_fn(T) -> int)
    requires
        forall|i: int| 0 <= i < s.len() ==> f(#[trigger] s[i]) == g(s[i]),
    ensures
        total(s, f) == total(s, g),
    decreases s.len(),
{
    if s.len() > 0 {
        assert(f(s[s.len() - 1]) == g(s[s.len() - 1]));
        lemma_total_eq_on(s.drop_last(), f, g);
    }
}

pub proof fn lemma_with_leading_exact(kept: Seq<ItemV>, leading: Seq<(usize, Seq<char>)>, w: spec_fn(Seq<char>) -> int)
    requires
        increasing(arg_indices(kept)),
    ensures
        total(with_leading(kept, leading), item_w(w)) == total(kept, item_w(w)) + total(
            leading,
            lead_in_w(w, arg_indices(kept)),
        ),
    decreases kept.len(),
{
    if kept.len() == 0 {
        lemma_total_eq_on(leading, lead_in_w(w, arg_indices(kept)), |p: (usize, Seq<char>)| 0int);
        lemma_total_zero(leading);
    } else {
        let before = with_leading(kept.drop_last(), leading);
        let item = kept.last();
        lemma_total_push(kept.drop_last(), item, item_w(w));
        assert(kept.drop_last().push(item) =~= kept);
        let ai = arg_indices(kept.drop_last());
        match item {
            ItemV::Arg { index, .. } => {
                assert(arg_indices(kept) == ai.push(index));
                assert forall|a: int, b: int| 0 <= a < b < ai.len() implies ai[a] < ai[b] by {
                    assert(arg_indices(kept)[a] == ai[a]);
                    assert(arg_indices(kept)[b] == ai[b]);
                }
                assert(!ai.contains(index)) by {
                    if ai.contains(index) {
                        let j = choose|j: int| 0 <= j < ai.len() && ai[j] == index;
                        assert(arg_indices(kept)[j] == ai[j]);
                        assert(arg_indices(kept)[ai.len() as int] == index);
                    }
                }
                lemma_with_leading_exact(kept.drop_last(), leading, w);
                lemma_leading_for(leading, index, w);
                lemma_total_append(before, leading_for(leading, index), item_w(w));
                lemma_total_append(before + leading_for(leading, index), seq![item], item_w(w));
                lemma_total_single(item, item_w(w));
                assert forall|p: (usize, Seq<char>)| #[trigger] lead_in_w(w, ai.push(index))(p) == lead_in_w(w, ai)(p)
                    + lead_at_w(w, index)(p) by {
                    if p.0 == index {
                        assert(ai.push(index)[ai.len() as int] == index);
                    } else if ai.push(index).contains(p.0) {
                        let j = choose|j: int| 0 <= j < ai.push(index).len() && ai.push(index)[j] == p.0;
                        assert(ai[j] == p.0);
                    } else if ai.contains(p.0) {
                        let j = choose|j: int| 0 <= j < ai.len() && ai[j] == p.0;
                        assert(ai.push(index)[j] == p.0);
                    }
                }
                lemma_total_add(leading, lead_in_w(w, ai), lead_at_w(w, index), lead_in_w(w, ai.push(index)));
            },
            _ => {
                assert(arg_indices(kept) == ai);
                lemma_with_leading_exact(kept.drop_last(), leading, w);
                lemma_total_push(before, item, item_w(w));
            },
        }
    }
}

pub proof fn lemma_total_zero<T>(s: Seq<T>)
    ensures
        total(s, |x: T| 0int) == 0,
    decreases s.len(),
{
    if s.len() > 0 {
        lemma_total_zero(s.drop_last());
    }
}

pub open spec fn place_held(st: PlaceState, w: spec_fn(Seq<char>) -> int) -> int {
    total(st.kept, item_w(w)) + total(st.leading, lead_w(w))
}

pub proof fn lemma_place_from(schema: FunctionSchema, items: Seq<ItemV>, i: int, st: PlaceState, width: usize, w: spec_fn(Seq<char>) -> int)
    requires
        0 <= i <= items.len(),
        arg_indices(st.kept) == arg_indices(items.take(i)),
        targets_ok(items),
        forall|j: int| 0 <= j < st.leading.len() ==> arg_indices(items).contains((#[trigger] st.leading[j]).0),
    ensures
        ({
            let r = place_from(schema, items, i, st, width);
            &&& place_held(r, w) + total(items.take(i), item_w(w)) == place_held(st, w) + total(items, item_w(w))
            &&& total(r.kept, arg_w(w)) + total(items.take(i), arg_w(w)) == total(st.kept, arg_w(w))
                + total(items, arg_w(w))
            &&& arg_indices(r.kept) == arg_indices(items)
            &&& forall|j: int| 0 <= j < r.leading.len() ==> arg_indices(items).contains((#[trigger] r.leading[j]).0)
        }),
    decreases items.len() - i,
{
    if i == items.len() {
        assert(items.take(i) =~= items);
    } else {
        let item = items[i];
        lemma_total_take_step(items, i, item_w(w));
        lemma_total_take_step(items, i, arg_w(w));
        assert(items.take(i + 1).drop_last() =~= items.take(i));
        assert(items.take(i + 1).last() == item);
        let st2 = place_step(schema, items, st, item, width);
        lemma_total_push(st.kept, item, item_w(w));
        lemma_total_push(st.kept, item, arg_w(w));
        assert(st.kept.push(item).drop_last() =~= st.kept);
        match item {
            ItemV::Arg { .. } => {},
            ItemV::Comment { text, target_arg, .. } => {
                lemma_total_push(st.leading, (target_arg->0, text), lead_w(w));
                if crate::layout_spec::promotes(schema, items, st, item, width) {
                    assert(items[i] matches ItemV::Comment { target_arg: Some(t), .. } ==> arg_indices(items).contains(t));
                    assert forall|j: int| 0 <= j < st2.leading.len() implies arg_indices(items).contains(
                        (#[trigger] st2.leading[j]).0,
                    ) by {
                        if j < st.leading.len() {
                            assert(st2.leading[j] == st.leading[j]);
                        }
                    }
                }
            },
        }
        lemma_place_from(schema, items, i + 1, st2, width, w);
    }
}

pub proof fn lemma_place_comments_w(items: Seq<ItemV>, schema: FunctionSchema, width: usize, w: spec_fn(Seq<char>) -> int)
    requires
        increasing(arg_indices(items)),
        targets_ok(items),
    ensures
        total(place_schema_comments(items, schema, width), item_w(w)) == total(items, item_w(w)),
        total(place_schema_comments(items, schema, width), arg_w(w)) == total(items, arg_w(w)),
{
    let st0 = PlaceState { leading: Seq::empty(), kept: Seq::empty(), previous_arg: None };
    assert(items.take(0) =~= Seq::<ItemV>::empty());
    lemma_place_from(schema, items, 0, st0, width, w);
    let st = place_from(schema, items, 0, st0, width);
    if st.leading.len() > 0 {
        lemma_with_leading_exact(st.kept, st.leading, w);
        lemma_with_leading_args(st.kept, st.leading, w);
        lemma_total_eq_on(st.leading, lead_in_w(w, arg_indices(st.kept)), lead_w(w));
    } else {
        assert(st.leading =~= Seq::<(usize, Seq<char>)>::empty());
    }
}

pub proof fn lemma_place_schema_comments(items: Seq<ItemV>, schema: FunctionSchema, width: usize, c: char)
    requires
        increasing(arg_indices(items)),
        targets_ok(items),
    ensures
        total(place_schema_comments(items, schema, width), in_item(c)) == total(items, in_item(c)),
        total(place_schema_comments(items, schema, width), in_arg_item(c)) == total(items, in_arg_item(c)),
{
    let w = in_text(c);
    let placed = place_schema_comments(items, schema, width);
    lemma_place_comments_w(items, schema, width, w);
    lemma_total_eq_on(placed, in_item(c), item_w(w));
    lemma_total_eq_on(items, in_item(c), item_w(w));
    lemma_total_eq_on(placed, in_arg_item(c), arg_w(w));
    lemma_total_eq_on(items, in_arg_item(c), arg_w(w));
}

/// The arguments among `items`, in order.
pub open spec fn args_of(items: Seq<ItemV>) -> Seq<ItemV>
    decreases items.len(),
{
    if items.len() == 0 {
        Seq::empty()
    } else if items.last() is Arg {
        args_of(items.drop_last()).push(items.last())
    } else {
        args_of(items.drop_last())
    }
}

pub proof fn lemma_args_of_append(a: Seq<ItemV>, b: Seq<ItemV>)
    ensures
        args_of(a + b) == args_of(a) + args_of(b),
    decreases b.len(),
{
    if b.len() == 0 {
        assert(a + b =~= a);
        assert(args_of(a) + args_of(b) =~= args_of(a));
    } else {
        assert((a + b).drop_last() =~= a + b.drop_last());
        assert((a + b).last() == b.last());
        lemma_args_of_append(a, b.drop_last());
        if b.last() is Arg {
            assert(args_of(a) + args_of(b.drop_last()).push(b.last()) =~= (args_of(a) + args_of(b.drop_last())).push(
                b.last(),
            ));
        }
    }
}

pub proof fn lemma_args_of_leading(leading: Seq<(usize, Seq<char>)>, index: usize)
    ensures
        args_of(leading_for(leading, index)) == Seq::<ItemV>::empty(),
    decreases leading.len(),
{
    if leading.len() > 0 {
        lemma_args_of_leading(leading.drop_last(), index);
        let rest = leading_for(leading.drop_last(), index);
        let it = ItemV::Comment { text: leading.last().1, trailing: false, target_arg: None, previous_arg: None };
        assert(rest.push(it).drop_last() =~= rest);
    }
}

pub proof fn lemma_args_of_with_leading(kept: Seq<ItemV>, leading: Seq<(usize, Seq<char>)>)
    ensures
        args_of(with_leading(kept, leading)) == args_of(kept),
    decreases kept.len(),
{
    if kept.len() > 0 {
        lemma_args_of_with_leading(kept.drop_last(), leading);
        let before = with_leading(kept.drop_last(), leading);
        let item = kept.last();
        match item {
            ItemV::Arg { index, .. } => {
                lemma_args_of_leading(leading, index);
                lemma_args_of_append(before, leading_for(leading, index));
                lemma_args_of_append(before + leading_for(leading, index), seq![item]);
                assert(seq![item].drop_last() =~= Seq::<ItemV>::empty());
                assert(seq![item].last() == item);
                assert(args_of(Seq::<ItemV>::empty()) == Seq::<ItemV>::empty());
                assert(args_of(seq![item]) =~= Seq::<ItemV>::empty().push(item));
                assert(args_of(seq![item]) =~= seq![item]);
                assert(args_of(before) + Seq::<ItemV>::empty() + seq![item] =~= args_of(before).push(item));
            },
            _ => {
                assert(before.push(item).drop_last() =~= before);
            },
        }
    }
}

pub proof fn lemma_args_of_place_from(schema: FunctionSchema, items: Seq<ItemV>, i: int, st: PlaceState, width: usize)
    requires
        0 <= i <= items.len(),
        args_of(st.kept) == args_of(items.take(i)),
    ensures
        args_of(place_from(schema, items, i, st, width).kept) == args_of(items),
    decreases items.len() - i,
{
    if i == items.len() {
        assert(items.take(i) =~= items);
    } else {
        let item = items[i];
        assert(items.take(i + 1).drop_last() =~= items.take(i));
        assert(items.take(i + 1).last() == item);
        assert(st.kept.push(item).drop_last() =~= st.kept);
        let st2 = place_step(schema, items, st, item, width);
        lemma_args_of_place_from(schema, items, i + 1, st2, width);
    }
}

/// The texts of the comments among `items`.
pub open spec fn comment_texts(items: Seq<ItemV>) -> Multiset<Seq<char>>
    decreases items.len(),
{
    if items.len() == 0 {
        Multiset::empty()
    } else {
        let r = comment_texts(items.drop_last());
        if items.last() is Comment {
            r.insert(item_text(items.last()))
        } else {
            r
        }
    }
}

/// One for the text `t`, none for any other.
pub open spec fn is_text(t: Seq<char>) -> spec_fn(Seq<char>) -> int {
    |v: Seq<char>| if v == t {
        1int
    } else {
        0int
    }
}

proof fn lemma_comment_texts_count(items: Seq<ItemV>, t: Seq<char>)
    ensures
        comment_texts(items).count(t) == total(items, item_w(is_text(t))) - total(
            items,
            arg_w(is_text(t)),
        ),
    decreases items.len(),
{
    if items.len() > 0 {
        lemma_comment_texts_count(items.drop_last(), t);
    }
}

/// Placing comments before the lines they describe moves only comments: the
/// arguments stay, in order, the comment texts stay (as a multiset), and
/// every comment keeps all of its characters.
pub proof fn law_place_comments_keeps(items: Seq<ItemV>, schema: FunctionSchema, width: usize, c: char)
    requires
        increasing(arg_indices(items)),
        targets_ok(items),
    ensures
        args_of(place_schema_comments(items, schema, width)) == args_of(items),
        comment_texts(place_schema_comments(items, schema, width)) == comment_texts(items),
        total(place_schema_comments(items, schema, width), in_item(c)) == total(items, in_item(c)),
{
    let placed = place_schema_comments(items, schema, width);
    assert forall|t: Seq<char>| #[trigger] comment_texts(placed).count(t) == comment_texts(items).count(t) by {
        lemma_place_comments_w(items, schema, width, is_text(t));
        lemma_comment_texts_count(placed, t);
        lemma_comment_texts_count(items, t);
    }
    assert(comment_texts(placed) =~= comment_texts(items));
    let st0 = PlaceState { leading: Seq::empty(), kept: Seq::empty(), previous_arg: None };
    assert(items.take(0) =~= Seq::<ItemV>::empty());
    lemma_args_of_place_from(schema, items, 0, st0, width);
    let st = place_from(schema, items, 0, st0, width);
    lemma_args_of_with_leading(st.kept, st.leading);
    lemma_place_schema_comments(items, schema, width, c);
}

pub proof fn lemma_items_as_args(items: Seq<ItemV>, c: char)
    ensures
        total(items.map_values(|i: ItemV| arg_of_item(i)), in_arg(c)) == total(items, in_item(c)),
        total(items.map_values(|i: ItemV| arg_of_item(i)), in_value(c)) == total(items, in_arg_item(c)),
    decreases items.len(),
{
    if items.len() > 0 {
        assert(items.map_values(|i: ItemV| arg_of_item(i)).drop_last() =~= items.drop_last().map_values(
            |i: ItemV| arg_of_item(i),
        ));
        lemma_items_as_args(items.drop_last(), c);
    }
}

// ---------------------------------------------------------------------------
// The schema layout
// ---------------------------------------------------------------------------
pub proof fn lemma_total_range<T>(s: Seq<T>, a: int, b: int, f: spec_fn(T) -> int)
    requires
        0 <= a <= b <= s.len(),
    ensures
        total(s.take(b), f) == total(s.take(a), f) + total(s.subrange(a, b), f),
{
    assert(s.take(b) =~= s.take(a) + s.subrange(a, b));
    lemma_total_append(s.take(a), s.subrange(a, b), f);
}

pub proof fn lemma_dedent(lines: Seq<LineV>, c: char)
    ensures
        total(dedent(lines), in_line(c)) == total(lines, in_line(c)),
    decreases lines.len(),
{
    if lines.len() > 0 {
        assert(dedent(lines).drop_last() =~= dedent(lines.drop_last()));
        lemma_dedent(lines.drop_last(), c);
    }
}

pub proof fn lemma_plain(lines: Seq<LineV>, shift: bool, c: char)
    ensures
        total(plain(lines, shift), in_line(c)) == total(lines, in_line(c)),
    decreases lines.len(),
{
    if lines.len() > 0 {
        assert(plain(lines, shift).drop_last() =~= plain(lines.drop_last(), shift));
        lemma_plain(lines.drop_last(), shift, c);
    }
}

pub proof fn lemma_line_texts(lines: Seq<LineV>, c: char)
    ensures
        total(line_texts(lines), in_text(c)) == total(lines, in_line(c)),
    decreases lines.len(),
{
    if lines.len() > 0 {
        assert(line_texts(lines).drop_last() =~= line_texts(lines.drop_last()));
        lemma_line_texts(lines.drop_last(), c);
    }
}

pub proof fn lemma_positional_end(args: Seq<ArgV>, schema: FunctionSchema, max: Option<usize>, i: int)
    requires
        0 <= i <= args.len(),
    ensures
        i <= positional_end(args, schema, max, i) <= args.len(),
    decreases args.len() - i,
{
    if !(i >= args.len() || args[i].is_comment || schema.spec_is_any_keyword(args[i].text) || (
    max matches Some(m) && i >= m)) {
        lemma_positional_end(args, schema, max, i + 1);
    }
}

pub proof fn lemma_mode_header(mode_keyword: Seq<char>, schema: FunctionSchema, args: Seq<ArgV>, budget: usize, c: char)
    requires
        !is_blank(c),
    ensures
        ({
            let h = layout_mode_header(mode_keyword, schema, args, budget);
            &&& 0 <= h.1 <= args.len()
            &&& total(h.0, in_line(c)) == count_char(mode_keyword, c) + total(args.take(h.1), in_arg(c))
        }),
{
    lemma_mode_header_used(mode_keyword, schema, args, budget);
    let max = match schema.positional {
        Some(p) => p.max,
        None => 0,
    };
    let first_comment = args.len() > 0 && args[0].is_comment && args[0].trailing;
    let start: int = if first_comment {
        1
    } else {
        0
    };
    let end = mode_positional_end(args, schema, max, start, start);
    lemma_mode_positional_end(args, schema, max, start, start);
    let positionals = texts(args.subrange(start, end));
    lemma_texts(args.subrange(start, end), c);
    lemma_count_app_all(mode_keyword, positionals, c);
    lemma_lines_at(positionals, 0, c);
    lemma_total_range(args, start, end, in_arg(c));
    assert(args.take(0) =~= Seq::<ArgV>::empty());
    if first_comment {
        lemma_total_take_step(args, 0, in_arg(c));
        lemma_count_with_comment(app_all(mode_keyword, positionals), args[0].text, c);
        lemma_count_with_comment(mode_keyword, args[0].text, c);
    }
    let late_comment = !first_comment && positionals.len() > 0 && end < args.len() && args[end].is_comment
        && args[end].trailing;
    if late_comment {
        lemma_total_take_step(args, end, in_arg(c));
        lemma_count_with_comment(app_all(mode_keyword, positionals), args[end].text, c);
        lemma_count_with_comment(mode_keyword, args[end].text, c);
    }
    let h = layout_mode_header(mode_keyword, schema, args, budget);
    lemma_total_single(h.0[0], in_line(c));
    if h.0.len() > 1 {
        assert(h.0 =~= seq![h.0[0]] + lines_at(positionals, 0));
        lemma_total_append(seq![h.0[0]], lines_at(positionals, 0), in_line(c));
    } else {
        assert(h.0 =~= seq![h.0[0]]);
    }
}

pub proof fn lemma_schema_args(
    threshold: isize,
    args: Seq<ArgV>,
    schema: FunctionSchema,
    ignore_positional: bool,
    width: usize,
    header_budget: usize,
    consumed: usize,
    c: char,
)
    requires
        !is_blank(c),
    ensures
        total(
            layout_schema_args(threshold, args, schema, ignore_positional, width, header_budget, consumed),
            in_line(c),
        ) == total(args, in_arg(c)),
    decreases args.len(), 2nat, 0nat,
{
    if args.len() > 0 && !args[0].is_comment && schema.spec_mode(args[0].text) is Some {
        let mode_schema = schema.spec_mode(args[0].text)->0;
        let rest = args.skip(1);
        let header = layout_mode_header(args[0].text, mode_schema, rest, header_budget);
        lemma_mode_header(args[0].text, mode_schema, rest, header_budget, c);
        let used = header.1;
        let tail = args.skip(1 + used);
        let next = crate::layout_spec::sat_add(consumed, used as usize);
        lemma_schema_args(threshold, tail, mode_schema, true, width, width, next, c);
        lemma_total_append(
            header.0,
            layout_schema_args(threshold, tail, mode_schema, true, width, width, next),
            in_line(c),
        );
        let head = seq![args[0]] + rest.take(used);
        assert(args =~= head + tail);
        lemma_total_append(head, tail, in_arg(c));
        lemma_total_append(head, tail, in_value(c));
        lemma_total_append(seq![args[0]], rest.take(used), in_arg(c));
        lemma_total_append(seq![args[0]], rest.take(used), in_value(c));
        lemma_total_single(args[0], in_arg(c));
        lemma_total_single(args[0], in_value(c));
        lemma_values_le_args(rest.take(used), c);
    } else {
        let max = positional_max(args, schema, ignore_positional);
        let end = positional_end(args, schema, max, 0);
        lemma_positional_end(args, schema, max, 0);
        let lines = pack_value_items(threshold, 0, Seq::empty(), args.take(end), width, schema.default_list_type, consumed);
        lemma_pack_value_items(threshold, 0, Seq::empty(), args.take(end), width, schema.default_list_type, consumed, c);
        lemma_values_le_args(args.take(end), c);
        lemma_main(
            threshold,
            args,
            schema,
            width,
            end,
            MainState { lines, any_indented: false, any_keyword: false, can_glue: true },
            c,
        );
    }
}

#[verifier::spinoff_prover]
#[verifier::rlimit(60)]
pub proof fn lemma_main(threshold: isize, args: Seq<ArgV>, schema: FunctionSchema, width: usize, index: int, st: MainState, c: char)
    requires
        0 <= index,
        !is_blank(c),
    ensures
        ({
            let k = if index < args.len() {
                index
            } else {
                args.len() as int
            };
            let r = total(layout_main(threshold, args, schema, width, index, st), in_line(c));
            r == total(st.lines, in_line(c)) + total(args, in_arg(c)) - total(args.take(k), in_arg(c))
        }),
    decreases args.len(), 1nat, args.len() + 1 - index,
{
    if index >= args.len() {
        assert(args.take(args.len() as int) =~= args);
    } else {
        let a = args[index];
        let kw = a.text;
        lemma_total_take_step(args, index, in_arg(c));
        lemma_total_take_step(args, index, in_value(c));
        if a.is_comment {
            let st2 = MainState { lines: push_comment(st.lines, 0, kw, a.trailing, width), ..st };
            lemma_push_comment(st.lines, 0, kw, a.trailing, width, c);
            lemma_main(threshold, args, schema, width, index + 1, st2, c);
        } else if schema.spec_is_option(kw) {
            let glue = st.can_glue && can_append_to_last(st.lines, kw, width);
            let lines = if glue {
                append_to_last(st.lines, kw)
            } else {
                st.lines.push(line(0, kw))
            };
            if glue {
                lemma_append_to_last(st.lines, kw, c);
            } else {
                lemma_total_push(st.lines, line(0, kw), in_line(c));
            }
            lemma_main(
                threshold,
                args,
                schema,
                width,
                index + 1,
                MainState { lines, any_indented: st.any_indented, any_keyword: true, can_glue: true },
                c,
            );
        } else if schema.spec_is_one_value_keyword(kw) {
            let lines = crate::layout_spec::one_value_lines(st.lines, kw, crate::layout_spec::next_arg(args, index), width);
            lemma_total_push(st.lines, line(0, kw), in_line(c));
            if index + 1 < args.len() {
                lemma_total_take_step(args, index + 1, in_arg(c));
                lemma_total_take_step(args, index + 1, in_value(c));
                let n = args[index + 1];
                if n.is_comment {
                    lemma_push_comment(st.lines.push(line(0, kw)), 0, n.text, n.trailing, width, c);
                } else {
                    lemma_total_push(st.lines, line(0, spaced(kw, n.text)), in_line(c));
                    lemma_count_spaced(kw, n.text, c);
                }
            }
            lemma_main(
                threshold,
                args,
                schema,
                width,
                index + 2,
                MainState { lines, any_indented: st.any_indented, any_keyword: true, can_glue: false },
                c,
            );
        } else if schema.spec_subparser(kw) is Some {
            let sub = schema.spec_subparser(kw)->0;
            let start = index + 1;
            let end = subparser_end(args, start, schema, sub);
            lemma_subparser_end(args, start, schema, sub);
            let flat = !st.any_indented && !value_after(args, end);
            let sub_args = args.subrange(start, end);
            lemma_subparser(threshold, kw, sub_args, sub, width, flat, c);
            let sub_lines = layout_subparser(threshold, kw, sub_args, sub, width, flat);
            lemma_total_append(st.lines, sub_lines, in_line(c));
            lemma_total_range(args, start, end, in_arg(c));
            lemma_total_range(args, start, end, in_value(c));
            lemma_main(
                threshold,
                args,
                schema,
                width,
                end,
                MainState {
                    lines: st.lines + sub_lines,
                    any_indented: st.any_indented || crate::layout_spec::any_indented(sub_lines),
                    any_keyword: true,
                    can_glue: false,
                },
                c,
            );
        } else if schema.spec_compound(kw) is Some {
            let cpd = schema.spec_compound(kw)->0;
            let start = index + 1;
            let end = outer_end(args, start, schema);
            lemma_outer_end(args, start, schema);
            lemma_compound_header_len(args.subrange(start, end), cpd.headers@, 0);
            let hl = compound_header_len(args.subrange(start, end), cpd.headers@);
            let hw = seq![kw] + texts(args.subrange(start, start + hl));
            let header = join(hw);
            lemma_count_join(hw, c);
            lemma_total_append(seq![kw], texts(args.subrange(start, start + hl)), in_text(c));
            lemma_total_single(kw, in_text(c));
            lemma_texts(args.subrange(start, start + hl), c);
            let lines1 = if can_append_to_last(st.lines, header, width) {
                append_to_last(st.lines, header)
            } else {
                st.lines.push(line(0, header))
            };
            if can_append_to_last(st.lines, header, width) {
                lemma_append_to_last(st.lines, header, c);
            } else {
                lemma_total_push(st.lines, line(0, header), in_line(c));
            }
            let pl = pack_arg_items(threshold, 0, Seq::empty(), args.subrange(start + hl, end), width, cpd.list_type);
            lemma_pack_arg_items(threshold, 0, Seq::empty(), args.subrange(start + hl, end), width, cpd.list_type, c);
            lemma_total_append(lines1, pl, in_line(c));
            lemma_total_range(args, start, start + hl, in_arg(c));
            lemma_total_range(args, start, start + hl, in_value(c));
            lemma_total_range(args, start + hl, end, in_arg(c));
            lemma_total_range(args, start + hl, end, in_value(c));
            lemma_values_le_args(args.subrange(start, start + hl), c);
            lemma_values_le_args(args.subrange(start + hl, end), c);
            lemma_main(
                threshold,
                args,
                schema,
                width,
                end,
                MainState { lines: lines1 + pl, any_indented: st.any_indented, any_keyword: true, can_glue: false },
                c,
            );
        } else if schema.spec_is_multi_value_keyword(kw) || schema.spec_is_simple_keyword(kw) {
            let start = index + 1;
            let end = outer_end(args, start, schema);
            lemma_outer_end(args, start, schema);
            let lt = schema.spec_list_type(kw);
            let flat = lt != ListType::CommandArgv && !st.any_indented && !value_after(args, end);
            let kw_lines = pack_arg_items(threshold, 0, seq![kw], args.subrange(start, end), width, lt);
            lemma_pack_arg_items(threshold, 0, seq![kw], args.subrange(start, end), width, lt, c);
            lemma_total_single(kw, in_text(c));
            lemma_dedent(kw_lines, c);
            let out_lines = if flat {
                dedent(kw_lines)
            } else {
                kw_lines
            };
            lemma_total_append(st.lines, out_lines, in_line(c));
            lemma_total_range(args, start, end, in_arg(c));
            lemma_total_range(args, start, end, in_value(c));
            lemma_values_le_args(args.subrange(start, end), c);
            lemma_main(
                threshold,
                args,
                schema,
                width,
                end,
                MainState {
                    lines: st.lines + out_lines,
                    any_indented: st.any_indented || (!flat && crate::layout_spec::any_indented(kw_lines)),
                    any_keyword: true,
                    can_glue: false,
                },
                c,
            );
        } else {
            let end = outer_end(args, index + 1, schema);
            lemma_outer_end(args, index + 1, schema);
            let pl = pack_arg_items(threshold, 0, Seq::empty(), args.subrange(index, end), width, schema.default_list_type);
            lemma_pack_arg_items(threshold, 0, Seq::empty(), args.subrange(index, end), width, schema.default_list_type, c);
            lemma_total_append(st.lines, pl, in_line(c));
            lemma_total_range(args, index, end, in_arg(c));
            lemma_total_range(args, index, end, in_value(c));
            lemma_values_le_args(args.subrange(index, end), c);
            lemma_main(
                threshold,
                args,
                schema,
                width,
                end,
                MainState {
                    lines: st.lines + pl,
                    any_indented: st.any_indented,
                    any_keyword: st.any_keyword,
                    can_glue: if st.any_keyword {
                        false
                    } else {
                        st.can_glue
                    },
                },
                c,
            );
        }
    }
}

pub proof fn lemma_subparser(threshold: isize, keyword: Seq<char>, args: Seq<ArgV>, schema: FunctionSchema, width: usize, flat: bool, c: char)
    requires
        !is_blank(c),
    ensures
        total(layout_subparser(threshold, keyword, args, schema, width, flat), in_line(c)) == count_char(
            keyword,
            c,
        ) + total(args, in_arg(c)),
    decreases args.len(), 3nat, 0nat,
{
    let child_width = crate::layout_spec::sat_sub(width as int, crate::text::blen(keyword) as int) as usize;
    let child = layout_schema_args(threshold, args, schema, false, child_width, child_width, 0);
    lemma_schema_args(threshold, args, schema, false, child_width, child_width, 0, c);
    lemma_values_le_args(args, c);
    lemma_total_single(line(0, keyword), in_line(c));
    if child.len() > 0 {
        let inline = app_all(keyword, line_texts(child));
        lemma_count_app_all(keyword, line_texts(child), c);
        lemma_line_texts(child, c);
        lemma_total_single(line(0, inline), in_line(c));
        let first_text = spaced(keyword, child[0].text);
        lemma_count_spaced(keyword, child[0].text, c);
        lemma_total_split(child, 1, in_line(c));
        assert(child.take(1) =~= seq![child[0]]);
        lemma_total_single(child[0], in_line(c));
        lemma_plain(child.skip(1), !flat, c);
        lemma_plain(child, !flat, c);
        lemma_total_append(seq![line(0, first_text)], plain(child.skip(1), !flat), in_line(c));
        lemma_total_single(line(0, first_text), in_line(c));
        lemma_total_append(seq![line(0, keyword)], plain(child, !flat), in_line(c));
    }
}

/// The schema layout adds only blanks: it keeps every argument and every
/// comment, character by character.
pub proof fn lemma_layout_schema_items(threshold: isize, items: Seq<ItemV>, schema: FunctionSchema, width: usize, header_budget: usize, c: char)
    requires
        increasing(arg_indices(items)),
        targets_ok(items),
        !is_blank(c),
    ensures
        total(layout_schema_items(threshold, items, schema, width, header_budget), in_line(c)) == total(
            items,
            in_item(c),
        ),
{
    let placed = place_schema_comments(items, schema, width);
    lemma_place_schema_comments(items, schema, width, c);
    lemma_items_as_args(placed, c);
    lemma_schema_args(
        threshold,
        placed.map_values(|i: ItemV| arg_of_item(i)),
        schema,
        false,
        width,
        header_budget,
        0,
        c,
    );
}

// ---------------------------------------------------------------------------
// Commands
// ---------------------------------------------------------------------------
/// Occurrences of `c` in a token.
pub open spec fn in_token(c: char) -> spec_fn(TokenView) -> int {
    |t: TokenView| count_char(t.1, c) as int
}

/// Occurrences of `c` in a token that is neither whitespace nor a comment.
pub open spec fn in_kept_token(c: char) -> spec_fn(TokenView) -> int {
    |t: TokenView| if t.0 == SyntaxKind::WHITESPACE || t.0 == SyntaxKind::COMMENT {
        0
    } else {
        count_char(t.1, c) as int
    }
}

/// Occurrences of `c` in a token other than whitespace.
pub open spec fn in_solid_token(c: char) -> spec_fn(TokenView) -> int {
    |t: TokenView| if t.0 == SyntaxKind::WHITESPACE {
        0
    } else {
        count_char(t.1, c) as int
    }
}

/// Occurrences of `c` in a whitespace token.
pub open spec fn in_ws_token(c: char) -> spec_fn(TokenView) -> int {
    |t: TokenView| if t.0 == SyntaxKind::WHITESPACE {
        count_char(t.1, c) as int
    } else {
        0
    }
}

/// How a token changes the number of open parentheses.
pub open spec fn paren_delta() -> spec_fn(TokenView) -> int {
    |t: TokenView| if t.0 == SyntaxKind::L_PAREN {
        1int
    } else if t.0 == SyntaxKind::R_PAREN {
        -1int
    } else {
        0int
    }
}

/// Every parenthesis of `body` is closed within it, and none closes one
/// opened before it.
pub open spec fn balanced(body: Seq<TokenView>) -> bool {
    &&& total(body, paren_delta()) == 0
    &&& forall|j: int| 0 <= j <= body.len() ==> total(#[trigger] body.take(j), paren_delta()) >= 0
}

/// The opening parenthesis of a command stands at `p`: after the name and
/// whitespace or comments, with balanced arguments up to the closing
/// parenthesis.
pub open spec fn opens_at(ts: Seq<TokenView>, p: int) -> bool {
    &&& 1 <= p < ts.len() - 1
    &&& ts[p] == (SyntaxKind::L_PAREN, seq!['('])
    &&& forall|j: int| 1 <= j < p ==> crate::syntax::is_trivia((#[trigger] ts[j]).0)
    &&& balanced(ts.subrange(p + 1, ts.len() - 1))
}

/// A complete command invocation, as CMake's grammar has it: a name,
/// whitespace or comments, `(`, arguments in balanced parentheses, and the
/// closing `)`.
pub open spec fn closed_command(ts: Seq<TokenView>) -> bool {
    &&& ts.len() >= 3
    &&& ts[0].0 == SyntaxKind::UNQUOTED_ARGUMENT
    &&& ts.last() == (SyntaxKind::R_PAREN, seq![')'])
    &&& exists|p: int| opens_at(ts, p)
}

/// A word alone, with no parentheses, followed by whitespace only.
pub open spec fn bare_command(ts: Seq<TokenView>) -> bool {
    &&& ts.len() >= 1
    &&& ts[0].0 == SyntaxKind::UNQUOTED_ARGUMENT
    &&& forall|j: int| 1 <= j < ts.len() ==> (#[trigger] ts[j]).0 == SyntaxKind::WHITESPACE
}

pub proof fn lemma_count_texts(ts: Seq<TokenView>, c: char)
    ensures
        count_char(concat_texts(ts), c) == total(ts, in_token(c)),
    decreases ts.len(),
{
    if ts.len() > 0 {
        lemma_count_texts(ts.drop_first(), c);
        lemma_count_concat(ts[0].1, concat_texts(ts.drop_first()), c);
        assert(ts =~= seq![ts[0]] + ts.drop_first());
        lemma_total_append(seq![ts[0]], ts.drop_first(), in_token(c));
        lemma_total_single(ts[0], in_token(c));
    }
}

pub proof fn lemma_indent_blank(cfg: Config, level: nat)
    ensures
        all_blank(indent_text(cfg, level)),
{
    match cfg.indent_style {
        IndentStyle::Space => {
            assert forall|i: int| 0 <= i < indent_text(cfg, level).len() implies is_blank(
                #[trigger] indent_text(cfg, level)[i],
            ) by {
                assert(repeat_char(' ', (cfg.indent_width * level) as nat)[i] == ' ');
            }
        },
        IndentStyle::Tab => {
            assert forall|i: int| 0 <= i < indent_text(cfg, level).len() implies is_blank(
                #[trigger] indent_text(cfg, level)[i],
            ) by {
                assert(repeat_char('\t', level)[i] == '\t');
            }
        },
    }
}

pub proof fn lemma_blank_concat(a: Seq<char>, b: Seq<char>)
    requires
        all_blank(a),
        all_blank(b),
    ensures
        all_blank(a + b),
{
    assert forall|i: int| 0 <= i < (a + b).len() implies is_blank(#[trigger] (a + b)[i]) by {
        if i < a.len() {
            assert((a + b)[i] == a[i]);
        } else {
            assert((a + b)[i] == b[i - a.len()]);
        }
    }
}

pub proof fn lemma_render_lines(cfg: Config, lines: Seq<LineV>, arg: Seq<char>, cont: Seq<char>, c: char)
    requires
        all_blank(arg),
        all_blank(cont),
        !is_blank(c),
    ensures
        count_char(render_lines(cfg, lines, arg, cont), c) == total(lines, in_line(c)),
    decreases lines.len(),
{
    if lines.len() > 0 {
        lemma_render_lines(cfg, lines.drop_last(), arg, cont, c);
        let ind = layout_indent(cfg, lines.last().indent, arg, cont);
        lemma_indent_blank(cfg, lines.last().indent as nat);
        lemma_blank_concat(arg, indent_text(cfg, lines.last().indent as nat));
        lemma_count_blank(ind, c);
        let a = render_lines(cfg, lines.drop_last(), arg, cont);
        lemma_count_concat(a, seq!['\n'], c);
        lemma_count_single('\n', c);
        lemma_count_concat(a + seq!['\n'], ind, c);
        lemma_count_concat(a + seq!['\n'] + ind, lines.last().text, c);
    }
}

/// What the argument scan of a command has seen of its arguments: every
/// argument and comment character counted once, the arguments numbered in
/// increasing order, each trailing comment aimed at an argument it holds.
pub open spec fn items_sound(st: ItemsState, seen: Seq<TokenView>, c: char) -> bool {
    &&& total(st.items, in_arg_item(c)) == total(seen, in_kept_token(c))
    &&& total(st.items, in_item(c)) == total(seen, in_solid_token(c))
    &&& targets_ok(st.items)
    &&& st.line_first matches Some(t) ==> arg_indices(st.items).contains(t)
    &&& increasing(arg_indices(st.items))
    &&& forall|j: int| 0 <= j < arg_indices(st.items).len() ==> arg_indices(st.items)[j] < st.next_index
    &&& st.concat ==> st.items.len() > 0 && st.items.last() is Arg
}

pub proof fn lemma_push_arg(st: ItemsState, seen: Seq<TokenView>, t: TokenView, c: char)
    requires
        items_sound(st, seen, c),
        st.next_index < usize::MAX,
    ensures
        items_sound(ItemsState { concat: false, ..push_arg(st, t.1) }, seen.push(t), c) || t.0
            == SyntaxKind::WHITESPACE || t.0 == SyntaxKind::COMMENT,
        !(t.0 == SyntaxKind::WHITESPACE || t.0 == SyntaxKind::COMMENT) ==> items_sound(
            ItemsState { concat: true, ..push_arg(st, t.1) },
            seen.push(t),
            c,
        ),
{
    let index = st.next_index as usize;
    let it = ItemV::Arg { text: t.1, index, source_line: st.source_line };
    lemma_total_push(st.items, it, in_arg_item(c));
    lemma_total_push(st.items, it, in_item(c));
    lemma_total_push(seen, t, in_kept_token(c));
    lemma_total_push(seen, t, in_solid_token(c));
    let ai = arg_indices(st.items);
    assert(st.items.push(it).drop_last() =~= st.items);
    assert(arg_indices(st.items.push(it)) == ai.push(index));
    assert forall|a: int, b: int| 0 <= a < b < ai.push(index).len() implies ai.push(index)[a] < ai.push(index)[b] by {
        if b < ai.len() {
        } else {
            assert(ai.push(index)[a] == ai[a]);
        }
    }
    lemma_contains_push(ai, index);
    let items2 = st.items.push(it);
    assert forall|j: int| 0 <= j < items2.len() implies (#[trigger] items2[j] matches ItemV::Comment { target_arg: Some(t), .. }
        ==> arg_indices(items2).contains(t)) by {
        if j < st.items.len() {
            assert(items2[j] == st.items[j]);
            assert(st.items[j] matches ItemV::Comment { target_arg: Some(t), .. } ==> ai.contains(t));
        }
    }
}

/// What a sequence holds it still holds with one more element, which it
/// holds too.
pub proof fn lemma_contains_push<T>(s: Seq<T>, x: T)
    ensures
        s.push(x).contains(x),
        forall|y: T| s.contains(y) ==> #[trigger] s.push(x).contains(y),
{
    assert(s.push(x)[s.len() as int] == x);
    assert forall|y: T| s.contains(y) implies #[trigger] s.push(x).contains(y) by {
        let j = choose|j: int| 0 <= j < s.len() && s[j] == y;
        assert(s.push(x)[j] == y);
    }
}

/// What the scan of a complete command has passed, its name and opening
/// parenthesis left out.
pub open spec fn seen_at(ts: Seq<TokenView>, p: int, i: int) -> Seq<TokenView> {
    ts.subrange(1, p) + ts.subrange(p + 1, i)
}

pub proof fn lemma_items_body(ts: Seq<TokenView>, p: int, i: int, st: ItemsState, c: char)
    requires
        !crate::text::is_ws_char(c),
        opens_at(ts, p),
        ts.last() == (SyntaxKind::R_PAREN, seq![')']),
        ts.len() <= usize::MAX,
        p + 1 <= i <= ts.len() - 1,
        st.skipped,
        st.depth == 1 + total(ts.subrange(p + 1, i), paren_delta()),
        st.next_index <= i,
        items_sound(st, seen_at(ts, p, i), c),
    ensures
        items_sound(items_from(ts, i, st), seen_at(ts, p, ts.len() - 1), c),
    decreases ts.len() - i,
{
    let q = ts.len() - 1;
    let body = ts.subrange(p + 1, q);
    let part = ts.subrange(p + 1, i);
    let seen = seen_at(ts, p, i);
    assert(body.take(i - p - 1) =~= part);
    if i == q {
        assert(part =~= body);
        let st2 = items_step(st, ts[i]);
        assert(ts[i] == ts.last());
        assert(items_from(ts, i + 1, st2) == st2);
    } else {
        let t = ts[i];
        let part2 = ts.subrange(p + 1, i + 1);
        assert(part2 =~= part.push(t));
        assert(body.take(i + 1 - p - 1) =~= part2);
        assert(seen_at(ts, p, i + 1) =~= seen.push(t));
        lemma_total_push(part, t, paren_delta());
        let st2 = items_step(st, t);
        lemma_total_push(seen, t, in_kept_token(c));
        lemma_total_push(seen, t, in_solid_token(c));
        if t.0 == SyntaxKind::WHITESPACE {
        } else if t.0 == SyntaxKind::UNQUOTED_ARGUMENT && !st.skipped {
        } else if t.0 == SyntaxKind::L_PAREN {
            lemma_push_arg(ItemsState { depth: st.depth + 1, ..st }, seen, t, c);
        } else if t.0 == SyntaxKind::R_PAREN {
            lemma_push_arg(
                ItemsState { depth: crate::layout_spec::sat_sub(st.depth as int, 1) as nat, ..st },
                seen,
                t,
                c,
            );
        } else if t.0 == SyntaxKind::COMMENT {
            lemma_push_comment_item(st, t, c);
        } else if st.concat {
            let items = st.items;
            let last = items.last();
            let rest = items.drop_last();
            assert(items =~= rest.push(last));
            match last {
                ItemV::Arg { text, index, source_line } => {
                    let nl = ItemV::Arg { text: text + t.1, index, source_line };
                    assert(extend_last(items, t.1) =~= rest.push(nl));
                    lemma_total_push(rest, last, in_arg_item(c));
                    lemma_total_push(rest, last, in_item(c));
                    lemma_total_push(rest, nl, in_arg_item(c));
                    lemma_total_push(rest, nl, in_item(c));
                    lemma_count_concat(text, t.1, c);
                    assert(rest.push(nl).drop_last() =~= rest);
                    assert(arg_indices(items) == arg_indices(rest).push(index));
                    assert(arg_indices(rest.push(nl)) == arg_indices(rest).push(index));
                },
                _ => {},
            }
        } else {
            lemma_push_arg(st, seen, t, c);
        }
        lemma_items_body(ts, p, i + 1, st2, c);
    }
}

/// A comment joins the items: it adds no argument character and at most its
/// own characters.
pub proof fn lemma_push_comment_item(st: ItemsState, t: TokenView, c: char)
    requires
        !crate::text::is_ws_char(c),
        targets_ok(st.items),
        st.line_first matches Some(x) ==> arg_indices(st.items).contains(x),
    ensures
        ({
            let trailing = !st.last_newline;
            let it = ItemV::Comment {
                text: trim_end_seq(t.1),
                trailing,
                target_arg: if trailing {
                    st.line_first
                } else {
                    None
                },
                previous_arg: if trailing {
                    crate::format_spec::last_arg_text(st.items)
                } else {
                    None
                },
            };
            &&& total(st.items.push(it), in_arg_item(c)) == total(st.items, in_arg_item(c))
            &&& total(st.items.push(it), in_item(c)) == total(st.items, in_item(c)) + count_char(t.1, c)
            &&& arg_indices(st.items.push(it)) == arg_indices(st.items)
            &&& targets_ok(st.items.push(it))
            &&& st.items.push(it).len() > 0
        }),
{
    let trailing = !st.last_newline;
    let it = ItemV::Comment {
        text: trim_end_seq(t.1),
        trailing,
        target_arg: if trailing {
            st.line_first
        } else {
            None
        },
        previous_arg: if trailing {
            crate::format_spec::last_arg_text(st.items)
        } else {
            None
        },
    };
    lemma_total_push(st.items, it, in_arg_item(c));
    lemma_total_push(st.items, it, in_item(c));
    lemma_count_trim_end_exact(t.1, c);
    assert(st.items.push(it).drop_last() =~= st.items);
    let items2 = st.items.push(it);
    assert forall|j: int| 0 <= j < items2.len() implies (#[trigger] items2[j] matches ItemV::Comment { target_arg: Some(x), .. }
        ==> arg_indices(items2).contains(x)) by {
        if j < st.items.len() {
            assert(items2[j] == st.items[j]);
            assert(st.items[j] matches ItemV::Comment { target_arg: Some(x), .. } ==> arg_indices(st.items).contains(x));
        }
    }
}

/// Trimming a comment's end removes only whitespace.
pub proof fn lemma_count_trim_end_exact(s: Seq<char>, c: char)
    requires
        !crate::text::is_ws_char(c),
    ensures
        count_char(trim_end_seq(s), c) == count_char(s, c),
    decreases s.len(),
{
    if s.len() > 0 && crate::text::is_ws_char(s.last()) {
        lemma_count_trim_end_exact(s.drop_last(), c);
        crate::text::lemma_trim_end_len_le(s.drop_last());
        assert(trim_end_seq(s) =~= trim_end_seq(s.drop_last()));
    } else {
        assert(trim_end_seq(s) =~= s);
    }
}

pub proof fn lemma_items_head(ts: Seq<TokenView>, p: int, i: int, st: ItemsState, c: char)
    requires
        !crate::text::is_ws_char(c),
        opens_at(ts, p),
        ts.last() == (SyntaxKind::R_PAREN, seq![')']),
        ts.len() <= usize::MAX,
        1 <= i <= p,
        st.skipped,
        st.depth == 0,
        st.next_index == 0,
        arg_indices(st.items).len() == 0,
        !st.concat,
        st.line_first is None,
        items_sound(st, ts.subrange(1, i), c),
    ensures
        items_sound(items_from(ts, i, st), seen_at(ts, p, ts.len() - 1), c),
    decreases ts.len() - i,
{
    let t = ts[i];
    let st2 = items_step(st, t);
    let seen = ts.subrange(1, i);
    if i < p {
        assert(crate::syntax::is_trivia(t.0));
        assert(ts.subrange(1, i + 1) =~= seen.push(t));
        lemma_total_push(seen, t, in_kept_token(c));
        lemma_total_push(seen, t, in_solid_token(c));
        if t.0 == SyntaxKind::COMMENT {
            lemma_push_comment_item(st, t, c);
        }
        lemma_items_head(ts, p, i + 1, st2, c);
    } else {
        assert(ts.subrange(p + 1, p + 1) =~= Seq::<TokenView>::empty());
        assert(seen_at(ts, p, p + 1) =~= seen);
        assert(total(Seq::<TokenView>::empty(), paren_delta()) == 0);
        lemma_items_body(ts, p, p + 1, st2, c);
    }
}

/// The arguments and comments of a complete command: its argument
/// characters exactly, at most its comment characters, the arguments
/// numbered in increasing order.
pub proof fn lemma_command_items(ts: Seq<TokenView>, p: int, c: char)
    requires
        !crate::text::is_ws_char(c),
        closed_command(ts),
        opens_at(ts, p),
        ts.len() <= usize::MAX,
    ensures
        items_sound(items_from(ts, 0, items_start()), seen_at(ts, p, ts.len() - 1), c),
{
    let st1 = items_step(items_start(), ts[0]);
    assert(ts.subrange(1, 1) =~= Seq::<TokenView>::empty());
    assert(arg_indices(Seq::<ItemV>::empty()) =~= Seq::<usize>::empty());
    lemma_items_head(ts, p, 1, st1, c);
}

pub proof fn lemma_bare_items(ts: Seq<TokenView>, i: int, st: ItemsState)
    requires
        bare_command(ts),
        1 <= i <= ts.len(),
        st.items.len() == 0,
    ensures
        items_from(ts, i, st).items.len() == 0,
    decreases ts.len() - i,
{
    if i < ts.len() {
        assert(ts[i].0 == SyntaxKind::WHITESPACE);
        lemma_bare_items(ts, i + 1, items_step(st, ts[i]));
    }
}

/// A command with nothing to lay out has no body lines.
pub proof fn lemma_no_lines(cfg: Config, name: Seq<char>, gap: Seq<char>, has_parens: bool, width: usize)
    ensures
        command_lines(cfg, name, gap, has_parens, Seq::<ItemV>::empty(), width).len() == 0,
{
    let items = Seq::<ItemV>::empty();
    assert(head_comment(items) is None);
    let threshold = cfg.source_vertical_list_threshold;
    let none = Seq::<ArgV>::empty();
    let no_words = Seq::<Seq<char>>::empty();
    assert(texts(none) =~= no_words);
    assert(none.take(0) =~= none);
    assert(groups_from(none, 0, None, no_words, Seq::empty()) =~= Seq::<Seq<Seq<char>>>::empty());
    assert(group_from(no_words, 0, false) =~= no_words);
    assert(greedy_from(no_words, 0, width, 0, Seq::empty(), Seq::empty()) =~= Seq::<LineV>::empty());
    assert(pack_command_argv(0, no_words, no_words, width) =~= Seq::<LineV>::empty());
    assert forall|lt: ListType| #[trigger] pack_value_items(threshold, 0, no_words, none, width, lt, 0).len() == 0 by {
        if lt == ListType::CommandArgv {
            assert(source_line_groups(none) =~= Seq::<Seq<Seq<char>>>::empty());
        }
    }
    match cfg.function_schemas.lookup(crate::schema::registry_key(name)) {
        Some(s) => {
            let st0 = PlaceState { leading: Seq::empty(), kept: Seq::empty(), previous_arg: None };
            assert(place_from(s, items, 0, st0, width) == st0);
            assert(place_schema_comments(items, s, width) =~= items);
            assert(items.map_values(|i: ItemV| arg_of_item(i)) =~= none);
            assert(pack_value_items(threshold, 0, no_words, none, width, s.default_list_type, 0).len() == 0);
            let max = positional_max(none, s, false);
            assert(positional_end(none, s, max, 0) == 0);
            let hb = crate::format_spec::header_budget(cfg, name, gap, has_parens, width);
            let st = MainState {
                lines: pack_value_items(threshold, 0, no_words, none, width, s.default_list_type, 0),
                any_indented: false,
                any_keyword: false,
                can_glue: true,
            };
            assert(layout_main(threshold, none, s, width, 0, st) == st.lines);
            assert(layout_schema_args(threshold, none, s, false, width, hb, 0).len() == 0);
            assert(layout_schema_items(threshold, items, s, width, hb).len() == 0);
        },
        None => {
            let st0 = GenState { lines: Seq::empty(), prefix: Seq::empty(), values: Seq::empty() };
            assert(gen_from(threshold, items, 0, st0, width) == st0);
            assert(pack_value_items(threshold, 0, no_words, none, width, ListType::Packed, 0).len() == 0);
            assert(gen_flush(threshold, st0, width).len() == 0);
        },
    }
}

pub proof fn lemma_arg_indices_skip_comment(items: Seq<ItemV>)
    requires
        items.len() > 0,
        items[0] is Comment,
    ensures
        arg_indices(items.skip(1)) == arg_indices(items),
    decreases items.len(),
{
    if items.len() == 1 {
        assert(items.skip(1) =~= Seq::<ItemV>::empty());
        assert(items.drop_last() =~= Seq::<ItemV>::empty());
    } else {
        assert(items.skip(1).drop_last() =~= items.drop_last().skip(1));
        lemma_arg_indices_skip_comment(items.drop_last());
        assert(items.skip(1).last() == items.last());
    }
}

pub proof fn lemma_single_from(items: Seq<ItemV>, i: int, acc: Seq<char>, c: char)
    requires
        0 <= i <= items.len(),
        !is_blank(c),
    ensures
        count_char(single_from(items, i, acc), c) + total(items.take(i), in_item(c)) == count_char(acc, c)
            + total(items, in_item(c)),
    decreases items.len() - i,
{
    if i == items.len() {
        assert(items.take(i) =~= items);
    } else {
        lemma_total_take_step(items, i, in_item(c));
        let next = match items[i] {
            ItemV::Arg { text, .. } => if i == 0 {
                acc + text
            } else {
                app(acc, text)
            },
            ItemV::Comment { text, .. } => if i > 0 {
                acc.push(' ') + text
            } else {
                acc + text
            },
        };
        let text = item_text(items[i]);
        lemma_count_concat(acc, text, c);
        lemma_count_app(acc, text, c);
        lemma_count_concat(acc, seq![' '], c);
        lemma_count_single(' ', c);
        assert(acc.push(' ') =~= acc + seq![' ']);
        lemma_count_concat(acc.push(' '), text, c);
        lemma_single_from(items, i + 1, next, c);
    }
}

/// The text a formatted command adds, given its items: the name, the gap,
/// the parentheses when there are any, and every character of its items.
#[verifier::spinoff_prover]
#[verifier::rlimit(80)]
pub proof fn lemma_format_shape(cfg: Config, st: FmtState, ts: Seq<TokenView>, c: char)
    requires
        ts.len() > 0,
        ts[0].0 == SyntaxKind::UNQUOTED_ARGUMENT,
        increasing(arg_indices(command_items(ts))),
        targets_ok(command_items(ts)),
        has_paren(ts) || command_items(ts).len() == 0,
        !is_blank(c),
    ensures
        ({
            let items = command_items(ts);
            let name = ts[0].1;
            let fixed = count_char(name, c) + count_char(name_paren_gap(ts, name), c) + if has_paren(ts) {
                count_char(seq!['('], c) + count_char(seq![')'], c)
            } else {
                0
            };
            count_char(format_command(cfg, st, ts).out, c) - count_char(st.out, c) == fixed + total(
                items,
                in_item(c),
            )
        }),
{
    let items = command_items(ts);
    assert(first_unquoted(ts, 0) == Some(0int));
    let name = ts[0].1;
    let has_parens = has_paren(ts);
    let gap = name_paren_gap(ts, name);
    let paren_open = opt_char(has_parens, '(');
    let paren_close = opt_char(has_parens, ')');
    assert(count_char(Seq::<char>::empty(), c) == 0);
    let base = indent_text(cfg, st.level as nat);
    let arg = base + indent_text(cfg, 1);
    let cont = base + indent_text(cfg, 2);
    lemma_indent_blank(cfg, st.level as nat);
    lemma_indent_blank(cfg, 1);
    lemma_indent_blank(cfg, 2);
    lemma_blank_concat(base, indent_text(cfg, 1));
    lemma_blank_concat(base, indent_text(cfg, 2));
    lemma_count_blank(base, c);
    let lead = if st.at_start {
        base
    } else {
        Seq::empty()
    };
    lemma_count_blank(lead, c);
    let head_text = name + gap + paren_open;
    lemma_count_concat(name, gap, c);
    lemma_count_concat(name + gap, paren_open, c);
    let single = single_line(name, gap, has_parens, items);
    lemma_single_from(items, 0, head_text, c);
    assert(items.take(0) =~= Seq::<ItemV>::empty());
    lemma_count_concat(single_from(items, 0, head_text), paren_close, c);
    lemma_count_concat(st.out, lead, c);
    lemma_count_single(')', c);
    lemma_count_single('\n', c);
    if crate::text::blen(base) + crate::text::blen(single) <= cfg.line_width
        && !crate::format_spec::has_comment_item(items) {
        lemma_count_concat(st.out + lead, single, c);
    } else {
        let arg_width = crate::layout_spec::sat_sub(cfg.line_width as int, crate::text::blen(arg) as int) as usize;
        let lines = command_lines(cfg, name, gap, has_parens, items, arg_width);
        let head = head_comment(items) is Some;
        let layout_items = if head {
            items.skip(1)
        } else {
            items
        };
        // The head comment goes on the opening line.
        let hc = match head_comment(items) {
            Some(t) => seq![' ', ' '] + t,
            None => Seq::empty(),
        };
        let opened = st.out + lead + opening(name, gap, has_parens, items);
        lemma_count_concat(st.out + lead, head_text + hc, c);
        lemma_count_concat(head_text, hc, c);
        if head {
            let t = head_comment(items)->0;
            lemma_count_concat(seq![' ', ' '], t, c);
            lemma_count_blank(seq![' ', ' '], c);
            lemma_total_split(items, 1, in_item(c));
            assert(items.take(1) =~= seq![items[0]]);
            lemma_total_single(items[0], in_item(c));
            lemma_arg_indices_skip_comment(items);
            let rest = items.skip(1);
            assert forall|j: int| 0 <= j < rest.len() implies (#[trigger] rest[j] matches ItemV::Comment { target_arg: Some(t), .. }
                ==> arg_indices(rest).contains(t)) by {
                assert(rest[j] == items[j + 1]);
                assert(items[j + 1] matches ItemV::Comment { target_arg: Some(t), .. } ==> arg_indices(items).contains(t));
            }
        }
        // The body lines keep the arguments and the comments.
        let threshold = cfg.source_vertical_list_threshold;
        match cfg.function_schemas.lookup(crate::schema::registry_key(name)) {
            Some(s) => {
                lemma_layout_schema_items(
                    threshold,
                    layout_items,
                    s,
                    arg_width,
                    crate::format_spec::header_budget(cfg, name, gap, has_parens, arg_width),
                    c,
                );
            },
            None => {
                lemma_layout_generic_items(threshold, layout_items, arg_width, c);
            },
        }
        if !has_parens {
            lemma_no_lines(cfg, name, gap, has_parens, arg_width);
        }
        if lines.len() == 0 {
            let mid = if head {
                seq!['\n'] + base
            } else {
                Seq::<char>::empty()
            };
            lemma_count_concat(seq!['\n'], base, c);
            lemma_count_concat(opened, mid, c);
            lemma_count_concat(opened + mid, seq![')'], c);
        } else if crate::format_spec::no_break_first(cfg, name) && !head && !crate::text::starts_with_char(
            lines[0].text,
            '#',
        ) {
            let rest = render_lines(cfg, lines.skip(1), arg, cont);
            lemma_render_lines(cfg, lines.skip(1), arg, cont, c);
            lemma_total_split(lines, 1, in_line(c));
            assert(lines.take(1) =~= seq![lines[0]]);
            lemma_total_single(lines[0], in_line(c));
            let o = opened + lines[0].text + rest;
            lemma_count_concat(opened, lines[0].text, c);
            lemma_count_concat(opened + lines[0].text, rest, c);
            lemma_count_concat(o, seq![')'], c);
            lemma_count_concat(o, seq!['\n'], c);
            lemma_count_concat(o + seq!['\n'], base, c);
            lemma_count_concat(o + seq!['\n'] + base, seq![')'], c);
        } else {
            let rl = render_lines(cfg, lines, arg, cont);
            lemma_render_lines(cfg, lines, arg, cont, c);
            lemma_count_concat(opened, rl, c);
            lemma_count_concat(opened + rl, seq!['\n'], c);
            lemma_count_concat(opened + rl + seq!['\n'], base, c);
            lemma_count_concat(opened + rl + seq!['\n'] + base, seq![')'], c);
        }
    }
}

/// A command that formatting handles whole: complete, or a bare word.
pub open spec fn whole_command(ts: Seq<TokenView>) -> bool {
    closed_command(ts) || bare_command(ts)
}

pub proof fn lemma_trivia_kept(ws: Seq<TokenView>, c: char)
    requires
        forall|j: int| 0 <= j < ws.len() ==> crate::syntax::is_trivia((#[trigger] ws[j]).0),
    ensures
        total(ws, in_kept_token(c)) == 0,
    decreases ws.len(),
{
    if ws.len() > 0 {
        assert(ws.last() == ws[ws.len() - 1]);
        lemma_trivia_kept(ws.drop_last(), c);
    }
}

pub proof fn lemma_token_parts(ts: Seq<TokenView>, c: char)
    ensures
        total(ts, in_token(c)) == total(ts, in_ws_token(c)) + total(ts, in_solid_token(c)),
        total(ts, in_ws_token(c)) >= 0,
        total(ts, in_solid_token(c)) >= 0,
{
    lemma_total_add(ts, in_ws_token(c), in_solid_token(c), in_token(c));
    lemma_total_nonneg(ts, in_ws_token(c));
    lemma_total_nonneg(ts, in_solid_token(c));
}

/// The whitespace tokens of `ts` hold no `c`.
pub proof fn lemma_ws_tokens_zero(ts: Seq<TokenView>, c: char)
    requires
        crate::lexer::whitespace_plain(ts),
        !crate::text::is_ws_char(c),
    ensures
        total(ts, in_ws_token(c)) == 0,
        forall|k: int| 0 <= k < ts.len() && (#[trigger] ts[k]).0 == SyntaxKind::WHITESPACE ==> count_char(ts[k].1, c) == 0,
    decreases ts.len(),
{
    assert forall|k: int| 0 <= k < ts.len() && (#[trigger] ts[k]).0 == SyntaxKind::WHITESPACE implies count_char(ts[k].1, c) == 0 by {
        assert forall|j: int| 0 <= j < ts[k].1.len() implies is_blank(#[trigger] ts[k].1[j]) by {
            assert(crate::lexer::is_plain_ws(ts[k].1[j]));
        }
        lemma_count_blank(ts[k].1, c);
    }
    if ts.len() > 0 {
        let u = ts.drop_last();
        assert forall|k: int| 0 <= k < u.len() && (#[trigger] u[k]).0 == SyntaxKind::WHITESPACE implies forall|j: int|
            0 <= j < u[k].1.len() ==> crate::lexer::is_plain_ws(#[trigger] u[k].1[j]) by {
            assert(u[k] == ts[k]);
        }
        lemma_ws_tokens_zero(u, c);
        assert(ts.last() == ts[ts.len() - 1]);
    }
}

pub proof fn lemma_sub_plain(ts: Seq<TokenView>, a: int, b: int)
    requires
        0 <= a <= b <= ts.len(),
        crate::lexer::whitespace_plain(ts),
    ensures
        crate::lexer::whitespace_plain(ts.subrange(a, b)),
{
    let u = ts.subrange(a, b);
    assert forall|k: int| 0 <= k < u.len() && (#[trigger] u[k]).0 == SyntaxKind::WHITESPACE implies forall|j: int|
        0 <= j < u[k].1.len() ==> crate::lexer::is_plain_ws(#[trigger] u[k].1[j]) by {
        assert(u[k] == ts[a + k]);
    }
}

/// A formatted command adds exactly the characters of its source other than
/// whitespace: name, parentheses, arguments and comments.
pub proof fn lemma_format_command(cfg: Config, st: FmtState, ts: Seq<TokenView>, c: char)
    requires
        whole_command(ts),
        ts.len() <= usize::MAX,
        crate::lexer::whitespace_plain(ts),
        !crate::text::is_ws_char(c),
    ensures
        count_char(format_command(cfg, st, ts).out, c) - count_char(st.out, c) == total(ts, in_token(c)),
{
    let name = ts[0].1;
    assert(first_unquoted(ts, 0) == Some(0int));
    let gap = name_paren_gap(ts, name);
    let items = command_items(ts);
    lemma_count_single(' ', c);
    lemma_ws_tokens_zero(ts, c);
    // The gap is a space or the whitespace token right after the name.
    if !crate::format_spec::is_control_flow(crate::text::unicode_lowercase(name)) && 1 < ts.len()
        && ts[1].0 == SyntaxKind::WHITESPACE {
        assert(count_char(ts[1].1, c) == 0);
    }
    assert(count_char(gap, c) == 0);
    if closed_command(ts) {
        let p = choose|p: int| opens_at(ts, p);
        let q = ts.len() - 1;
        let pre = ts.subrange(1, p);
        let body = ts.subrange(p + 1, q);
        lemma_command_items(ts, p, c);
        assert(has_paren(ts)) by {
            assert(ts[p].0 == SyntaxKind::L_PAREN);
        }
        lemma_format_shape(cfg, st, ts, c);
        assert(ts =~= seq![ts[0]] + pre + seq![ts[p]] + body + seq![ts[q]]);
        assert(ts[q] == ts.last());
        let f = in_token(c);
        lemma_total_append(seq![ts[0]], pre, f);
        lemma_total_append(seq![ts[0]] + pre, seq![ts[p]], f);
        lemma_total_append(seq![ts[0]] + pre + seq![ts[p]], body, f);
        lemma_total_append(seq![ts[0]] + pre + seq![ts[p]] + body, seq![ts[q]], f);
        lemma_total_single(ts[0], f);
        lemma_total_single(ts[p], f);
        lemma_total_single(ts[q], f);
        lemma_total_append(pre, body, in_solid_token(c));
        lemma_sub_plain(ts, 1, p);
        lemma_sub_plain(ts, p + 1, q);
        lemma_ws_tokens_zero(pre, c);
        lemma_ws_tokens_zero(body, c);
        lemma_token_parts(pre, c);
        lemma_token_parts(body, c);
    } else {
        let st1 = items_step(items_start(), ts[0]);
        lemma_bare_items(ts, 1, st1);
        assert(items.len() == 0);
        assert(arg_indices(items) =~= Seq::<usize>::empty());
        assert(!has_paren(ts)) by {
            if has_paren(ts) {
                let j = choose|j: int| 0 <= j < ts.len() && ts[j].0 == SyntaxKind::L_PAREN;
                assert(j != 0);
            }
        }
        lemma_format_shape(cfg, st, ts, c);
        let rest = ts.drop_first();
        assert(ts =~= seq![ts[0]] + rest);
        lemma_total_append(seq![ts[0]], rest, in_token(c));
        lemma_total_single(ts[0], in_token(c));
        lemma_sub_plain(ts, 1, ts.len() as int);
        assert(rest =~= ts.subrange(1, ts.len() as int));
        lemma_ws_tokens_zero(rest, c);
        lemma_token_parts(rest, c);
        assert forall|j: int| 0 <= j < rest.len() implies (#[trigger] rest[j]).0 == SyntaxKind::WHITESPACE by {
            assert(rest[j] == ts[j + 1]);
        }
        lemma_solid_none(rest, c);
        assert(total(items, in_item(c)) == 0);
    }
}

pub proof fn lemma_solid_none(ts: Seq<TokenView>, c: char)
    requires
        forall|j: int| 0 <= j < ts.len() ==> (#[trigger] ts[j]).0 == SyntaxKind::WHITESPACE,
    ensures
        total(ts, in_solid_token(c)) == 0,
    decreases ts.len(),
{
    if ts.len() > 0 {
        assert(ts.last() == ts[ts.len() - 1]);
        lemma_solid_none(ts.drop_last(), c);
    }
}

// ---------------------------------------------------------------------------
// Files
// ---------------------------------------------------------------------------
/// Occurrences of `c` in a child of the root.
pub open spec fn in_element(c: char) -> spec_fn(ElementView) -> int {
    |e: ElementView| count_char(element_text(e), c) as int
}

/// Every command of the file is complete or a bare word, its whitespace
/// tokens hold whitespace only (as the lexer makes them), and, as anything in
/// memory, it has fewer tokens than `usize::MAX`.
pub open spec fn commands_closed(es: Seq<ElementView>) -> bool {
    forall|i: int|
        0 <= i < es.len() ==> (#[trigger] es[i] matches ElementView::Command(ts) ==> whole_command(ts)
            && ts.len() <= usize::MAX && crate::lexer::whitespace_plain(ts))
}

pub proof fn lemma_count_elements(es: Seq<ElementView>, c: char)
    ensures
        count_char(elements_text(es), c) == total(es, in_element(c)),
    decreases es.len(),
{
    if es.len() > 0 {
        lemma_count_elements(es.drop_first(), c);
        lemma_count_concat(element_text(es[0]), elements_text(es.drop_first()), c);
        assert(es =~= seq![es[0]] + es.drop_first());
        lemma_total_append(seq![es[0]], es.drop_first(), in_element(c));
        lemma_total_single(es[0], in_element(c));
    }
}

pub proof fn lemma_count_non_blank(s: Seq<char>, c: char)
    requires
        !is_blank(c),
    ensures
        count_char(non_blank(s), c) == count_char(s, c),
    decreases s.len(),
{
    if s.len() > 0 {
        lemma_count_non_blank(s.drop_last(), c);
        if !is_blank(s.last()) {
            assert(non_blank(s.drop_last()).push(s.last()).drop_last() =~= non_blank(s.drop_last()));
        }
    }
}

pub proof fn lemma_visit_from(cfg: Config, es: Seq<ElementView>, i: int, st: FmtState, c: char)
    requires
        0 <= i <= es.len(),
        commands_closed(es),
        !crate::text::is_ws_char(c),
    ensures
        count_char(visit_from(cfg, es, i, st).out, c) == count_char(st.out, c) + total(es, in_element(c))
            - total(es.take(i), in_element(c)),
    decreases es.len() - i,
{
    if i == es.len() {
        assert(es.take(i) =~= es);
    } else {
        let e = es[i];
        lemma_total_take_step(es, i, in_element(c));
        let st2 = visit_step(cfg, st, e);
        match e {
            ElementView::Command(ts) => {
                assert(es[i] matches ElementView::Command(ts) ==> whole_command(ts) && ts.len() <= usize::MAX
                    && crate::lexer::whitespace_plain(ts));
                let name = command_name_text(ts);
                let level = if crate::format_spec::is_block_close(name) || crate::format_spec::is_block_mid(name) {
                    crate::layout_spec::sat_sub(st.level as int, 1) as usize
                } else {
                    st.level
                };
                lemma_format_command(cfg, FmtState { level, ..st }, ts, c);
                lemma_count_texts(ts, c);
            },
            ElementView::Token(k, t) => {
                if k == SyntaxKind::WHITESPACE {
                    lemma_count_concat(st.out, normalize_whitespace(t), c);
                    law_normalize_keeps_non_blank(t);
                    lemma_count_non_blank(normalize_whitespace(t), c);
                    lemma_count_non_blank(t, c);
                } else {
                    let lead = if st.at_start {
                        indent_text(cfg, st.level as nat)
                    } else {
                        Seq::empty()
                    };
                    lemma_indent_blank(cfg, st.level as nat);
                    lemma_count_blank(lead, c);
                    lemma_count_concat(st.out, lead, c);
                    lemma_count_concat(st.out + lead, t, c);
                }
            },
        }
        lemma_visit_from(cfg, es, i + 1, st2, c);
    }
}

/// Formatting changes only whitespace: for every character `c` that is not
/// whitespace, the output holds exactly as many `c` as the source. Every
/// comment, inside commands too, keeps all of its characters but trailing
/// whitespace, and nothing is added but whitespace.
pub proof fn law_format_keeps_content(cfg: Config, es: Seq<ElementView>, c: char)
    requires
        commands_closed(es),
        !crate::text::is_ws_char(c),
    ensures
        count_char(format_text(cfg, es), c) == count_char(elements_text(es), c),
{
    let st = FmtState { out: Seq::empty(), level: 0, at_start: true };
    lemma_visit_from(cfg, es, 0, st, c);
    assert(es.take(0) =~= Seq::<ElementView>::empty());
    assert(count_char(Seq::<char>::empty(), c) == 0);
    lemma_count_elements(es, c);
}

/// The same for a source text whose commands are complete (or bare words):
/// formatting its tree keeps every character of the source that is not
/// whitespace, comments included, in number.
pub proof fn law_format_source_keeps_content(cfg: Config, s: Seq<char>, c: char)
    requires
        forall|m: int|
            0 <= m < crate::parser::parse_source(s).len() ==> (#[trigger] crate::parser::parse_source(s)[m] matches ElementView::Command(ts)
                ==> whole_command(ts) && ts.len() <= usize::MAX),
        !crate::text::is_ws_char(c),
    ensures
        count_char(format_text(cfg, crate::parser::parse_source(s)), c) == count_char(s, c),
{
    let es = crate::parser::parse_source(s);
    crate::parser::lemma_parse_lossless(s);
    crate::parser::lemma_parse_whitespace(s);
    assert forall|i: int| 0 <= i < es.len() implies (#[trigger] es[i] matches ElementView::Command(ts)
        ==> whole_command(ts) && ts.len() <= usize::MAX && crate::lexer::whitespace_plain(ts)) by {
        assert(es[i] matches ElementView::Command(ts) ==> crate::lexer::whitespace_plain(ts));
    }
    law_format_keeps_content(cfg, es, c);
}

proof fn lemma_count_at(s: Seq<char>, k: int)
    requires
        0 <= k < s.len(),
    ensures
        count_char(s, s[k]) >= 1,
    decreases s.len(),
{
    if k < s.len() - 1 {
        assert(s.drop_last()[k] == s[k]);
        lemma_count_at(s.drop_last(), k);
    }
}

proof fn lemma_total_at(s: Seq<ItemV>, j: int, c: char)
    requires
        0 <= j < s.len(),
    ensures
        total(s, in_item(c)) >= in_item(c)(s[j]),
    decreases s.len(),
{
    if j < s.len() - 1 {
        assert(s.drop_last()[j] == s[j]);
        lemma_total_at(s.drop_last(), j, c);
    } else {
        lemma_total_nonneg(s.drop_last(), in_item(c));
    }
}

/// Every comment among `items` starts with `#`.
pub open spec fn comment_items_marked(items: Seq<ItemV>) -> bool {
    forall|j: int|
        0 <= j < items.len() && (#[trigger] items[j]) is Comment ==> item_text(items[j]).len() > 0
            && item_text(items[j])[0] == '#'
}

proof fn lemma_trim_end_keeps_first(t: Seq<char>)
    requires
        t.len() > 0,
        !crate::text::is_ws_char(t[0]),
    ensures
        crate::text::trim_end_len(t) >= 1,
    decreases t.len(),
{
    if t.len() > 1 && crate::text::is_ws_char(t.last()) {
        assert(t.drop_last()[0] == t[0]);
        lemma_trim_end_keeps_first(t.drop_last());
    }
}

proof fn lemma_items_from_marked(ts: Seq<TokenView>, i: int, st: ItemsState)
    requires
        0 <= i <= ts.len(),
        crate::lexer::comments_marked(ts),
        comment_items_marked(st.items),
    ensures
        comment_items_marked(items_from(ts, i, st).items),
    decreases ts.len() - i,
{
    if i < ts.len() {
        let tok = ts[i];
        let st2 = items_step(st, tok);
        assert(comment_items_marked(st2.items)) by {
            if tok.0 == SyntaxKind::COMMENT {
                let t = tok.1;
                lemma_trim_end_keeps_first(t);
                crate::text::lemma_trim_end_len_le(t);
                let tt = crate::text::trim_end_seq(t);
                assert(tt[0] == t[0]);
                assert forall|j: int| 0 <= j < st2.items.len() && (#[trigger] st2.items[j]) is Comment implies item_text(
                    st2.items[j],
                ).len() > 0 && item_text(st2.items[j])[0] == '#' by {
                    if j < st.items.len() {
                        assert(st2.items[j] == st.items[j]);
                    }
                }
            } else {
                assert forall|j: int| 0 <= j < st2.items.len() && (#[trigger] st2.items[j]) is Comment implies item_text(
                    st2.items[j],
                ).len() > 0 && item_text(st2.items[j])[0] == '#' by {
                    if j < st.items.len() {
                        assert(st2.items[j] is Comment ==> st2.items[j] == st.items[j]);
                    }
                }
            }
        }
        lemma_items_from_marked(ts, i + 1, st2);
    }
}

/// A command that holds a comment (each comment's text starting with a
/// character other than a blank), with parentheses, and whose schema does not
/// keep its first line on the name's line, is never written on one line:
/// the text it adds holds a line break, so its closing parenthesis never
/// follows a comment on the comment's line.
pub proof fn law_comment_breaks_line(cfg: Config, st: FmtState, ts: Seq<TokenView>)
    requires
        ts.len() > 0,
        ts[0].0 == SyntaxKind::UNQUOTED_ARGUMENT,
        has_paren(ts),
        increasing(arg_indices(command_items(ts))),
        targets_ok(command_items(ts)),
        crate::format_spec::has_comment_item(command_items(ts)),
        forall|j: int|
            0 <= j < command_items(ts).len() && (#[trigger] command_items(ts)[j]) is Comment
                ==> item_text(command_items(ts)[j]).len() > 0 && !is_blank(
                item_text(command_items(ts)[j])[0],
            ),
        !crate::format_spec::no_break_first(cfg, ts[0].1),
    ensures
        format_command(cfg, st, ts).out.subrange(
            st.out.len() as int,
            format_command(cfg, st, ts).out.len() as int,
        ).contains('\n'),
{
    let items = command_items(ts);
    assert(first_unquoted(ts, 0) == Some(0int));
    let name = ts[0].1;
    let has_parens = has_paren(ts);
    let gap = name_paren_gap(ts, name);
    let base = indent_text(cfg, st.level as nat);
    let arg = base + indent_text(cfg, 1);
    let cont = base + indent_text(cfg, 2);
    let lead = if st.at_start {
        base
    } else {
        Seq::empty()
    };
    let arg_width = crate::layout_spec::sat_sub(cfg.line_width as int, crate::text::blen(arg) as int) as usize;
    let lines = command_lines(cfg, name, gap, has_parens, items, arg_width);
    let head = head_comment(items) is Some;
    let opened = st.out + lead + opening(name, gap, has_parens, items);
    let out = format_command(cfg, st, ts).out;
    if !head {
        let j = choose|j: int| 0 <= j < items.len() && items[j] is Comment;
        let t = item_text(items[j]);
        let c = t[0];
        lemma_count_at(t, 0);
        lemma_total_at(items, j, c);
        let threshold = cfg.source_vertical_list_threshold;
        match cfg.function_schemas.lookup(crate::schema::registry_key(name)) {
            Some(s) => {
                lemma_layout_schema_items(
                    threshold,
                    items,
                    s,
                    arg_width,
                    crate::format_spec::header_budget(cfg, name, gap, has_parens, arg_width),
                    c,
                );
            },
            None => {
                lemma_layout_generic_items(threshold, items, arg_width, c);
            },
        }
        if lines.len() == 0 {
            assert(total(lines, in_line(c)) == 0);
            assert(false);
        }
    }
    if lines.len() == 0 {
        let tail = seq!['\n'] + base + seq![')'];
        assert(out == opened + tail);
        assert(out[opened.len() as int] == '\n');
    } else {
        let r = render_lines(cfg, lines, arg, cont);
        assert(out == crate::format_spec::render_block(cfg, opened, lines, base, arg, cont));
        assert(out == opened + r + seq!['\n'] + base + seq![')']);
        assert(out[(opened.len() + r.len()) as int] == '\n');
        assert(out.subrange(st.out.len() as int, out.len() as int)[(opened.len() + r.len() - st.out.len()) as int] == '\n');
    }
    if lines.len() == 0 {
        assert(out.subrange(st.out.len() as int, out.len() as int)[(opened.len() - st.out.len()) as int] == '\n');
    }
}

/// The comments promoted when placing the comments of `items`: each with
/// the index of the argument it is aimed at, in order.
pub open spec fn promoted_comments(items: Seq<ItemV>, schema: FunctionSchema, width: usize) -> Seq<(usize, Seq<char>)> {
    crate::layout_spec::place_from(
        schema,
        items,
        0,
        PlaceState { leading: Seq::empty(), kept: Seq::empty(), previous_arg: None },
        width,
    ).leading
}

proof fn lemma_with_leading_before_args(kept: Seq<ItemV>, leading: Seq<(usize, Seq<char>)>)
    ensures
        ({
            let r = with_leading(kept, leading);
            forall|p: int|
                0 <= p < r.len() && (#[trigger] r[p]) is Arg ==> {
                    let lf = leading_for(leading, r[p]->index);
                    p >= lf.len() && r.subrange(p - lf.len(), p) == lf
                }
        }),
    decreases kept.len(),
{
    if kept.len() > 0 {
        lemma_with_leading_before_args(kept.drop_last(), leading);
        let before = with_leading(kept.drop_last(), leading);
        let item = kept.last();
        let r = with_leading(kept, leading);
        match item {
            ItemV::Arg { index, .. } => {
                let lf = leading_for(leading, index);
                assert(r == before + lf + seq![item]);
                assert forall|p: int| 0 <= p < r.len() && (#[trigger] r[p]) is Arg implies {
                    let lf2 = leading_for(leading, r[p]->index);
                    p >= lf2.len() && r.subrange(p - lf2.len(), p) == lf2
                } by {
                    if p < before.len() {
                        assert(r[p] == before[p]);
                        let lf2 = leading_for(leading, r[p]->index);
                        assert(before[p] is Arg);
                        assert(r.subrange(p - lf2.len(), p) =~= before.subrange(p - lf2.len(), p));
                    } else if p < before.len() + lf.len() {
                        assert(r[p] == lf[p - before.len()]);
                        lemma_leading_for_flags(leading, index, p - before.len());
                    } else {
                        assert(p == before.len() + lf.len());
                        assert(r[p] == item);
                        assert(r.subrange(p - lf.len(), p) =~= lf);
                    }
                }
            },
            _ => {
                assert(r == before.push(item));
                assert forall|p: int| 0 <= p < r.len() && (#[trigger] r[p]) is Arg implies {
                    let lf2 = leading_for(leading, r[p]->index);
                    p >= lf2.len() && r.subrange(p - lf2.len(), p) == lf2
                } by {
                    assert(p < before.len());
                    assert(r[p] == before[p]);
                    let lf2 = leading_for(leading, r[p]->index);
                    assert(before[p] is Arg);
                    assert(r.subrange(p - lf2.len(), p) =~= before.subrange(p - lf2.len(), p));
                }
            },
        }
    }
}

/// Where placed comments land: each argument of the result comes right
/// after the comments promoted to it (as leading comments: not trailing and
/// aimed at nothing), in their order.
pub proof fn law_promoted_comments_precede_their_argument(items: Seq<ItemV>, schema: FunctionSchema, width: usize)
    ensures
        ({
            let r = place_schema_comments(items, schema, width);
            let lead = promoted_comments(items, schema, width);
            forall|p: int|
                0 <= p < r.len() && (#[trigger] r[p]) is Arg ==> {
                    let lf = leading_for(lead, r[p]->index);
                    p >= lf.len() && r.subrange(p - lf.len(), p) == lf
                }
        }),
{
    let st = crate::layout_spec::place_from(
        schema,
        items,
        0,
        PlaceState { leading: Seq::empty(), kept: Seq::empty(), previous_arg: None },
        width,
    );
    if st.leading.len() == 0 {
        assert(st.leading =~= Seq::<(usize, Seq<char>)>::empty());
        let r = st.kept;
        assert forall|p: int| 0 <= p < r.len() && (#[trigger] r[p]) is Arg implies {
            let lf = leading_for(st.leading, r[p]->index);
            p >= lf.len() && r.subrange(p - lf.len(), p) == lf
        } by {
            let lf = leading_for(st.leading, r[p]->index);
            assert(lf =~= Seq::<ItemV>::empty());
            assert(r.subrange(p, p) =~= Seq::<ItemV>::empty());
        }
    } else {
        lemma_with_leading_before_args(st.kept, st.leading);
    }
}

/// How a command of a parsed source is written, for a source whose commands
/// are complete (or bare words): when its one-line form fits after the
/// block's indentation and it holds no comment, exactly that indentation
/// (at a line start) and the one-line form are written; when it holds a
/// comment, what it writes holds a line break, unless its schema keeps the
/// first line on the name's line.
pub proof fn law_source_command_lines(cfg: Config, st: FmtState, s: Seq<char>, m: int)
    requires
        0 <= m < crate::parser::parse_source(s).len(),
        crate::parser::parse_source(s)[m] matches ElementView::Command(ts) && whole_command(ts)
            && ts.len() <= usize::MAX,
    ensures
        match crate::parser::parse_source(s)[m] {
            ElementView::Command(ts) => {
                let name = ts[0].1;
                let items = command_items(ts);
                let single = single_line(name, name_paren_gap(ts, name), has_paren(ts), items);
                let base = indent_text(cfg, st.level as nat);
                let out = format_command(cfg, st, ts).out;
                &&& (crate::text::blen(base) + crate::text::blen(single) <= cfg.line_width
                    && !crate::format_spec::has_comment_item(items)) ==> out == st.out + (if st.at_start {
                    base
                } else {
                    Seq::empty()
                }) + single
                &&& (crate::format_spec::has_comment_item(items) && !crate::format_spec::no_break_first(
                    cfg,
                    name,
                )) ==> out.subrange(st.out.len() as int, out.len() as int).contains('\n')
            },
            _ => true,
        },
{
    let es = crate::parser::parse_source(s);
    crate::parser::lemma_parse_comments(s);
    match es[m] {
        ElementView::Command(ts) => {
            assert(crate::lexer::comments_marked(ts));
            assert(first_unquoted(ts, 0) == Some(0int));
            let items = command_items(ts);
            crate::format_spec::law_fitting_command_one_line(cfg, st, ts);
            if crate::format_spec::has_comment_item(items) && !crate::format_spec::no_break_first(cfg, ts[0].1) {
                if closed_command(ts) {
                    let p = choose|p: int| opens_at(ts, p);
                    lemma_command_items(ts, p, '#');
                    assert(has_paren(ts)) by {
                        assert(ts[p].0 == SyntaxKind::L_PAREN);
                    }
                    assert(comment_items_marked(Seq::<ItemV>::empty()));
                    lemma_items_from_marked(ts, 0, items_start());
                    law_comment_breaks_line(cfg, st, ts);
                } else {
                    let st1 = items_step(items_start(), ts[0]);
                    lemma_bare_items(ts, 1, st1);
                    assert(items.len() == 0);
                }
            }
        },
        _ => {},
    }
}

/// The items that placing keeps where they were (all but the promoted
/// comments), in order.
pub open spec fn kept_items(items: Seq<ItemV>, schema: FunctionSchema, width: usize) -> Seq<ItemV> {
    crate::layout_spec::place_from(
        schema,
        items,
        0,
        PlaceState { leading: Seq::empty(), kept: Seq::empty(), previous_arg: None },
        width,
    ).kept
}

/// `kept` is `items` at the increasing positions `pos`, and every item left
/// out is a trailing comment aimed at an argument.
pub open spec fn kept_at(items: Seq<ItemV>, kept: Seq<ItemV>, pos: Seq<int>) -> bool {
    &&& pos.len() == kept.len()
    &&& forall|j: int| 0 <= j < pos.len() ==> 0 <= #[trigger] pos[j] < items.len() && kept[j] == items[pos[j]]
    &&& forall|a: int, b: int| 0 <= a < b < pos.len() ==> pos[a] < pos[b]
    &&& forall|q: int|
        0 <= q < items.len() && !pos.contains(q) ==> (#[trigger] items[q] matches ItemV::Comment {
            trailing: true,
            target_arg: Some(_),
            ..
        })
}

proof fn lemma_place_from_kept(schema: FunctionSchema, items: Seq<ItemV>, i: int, st: PlaceState, width: usize, pos: Seq<int>) -> (r: Seq<int>)
    requires
        0 <= i <= items.len(),
        kept_at(items.take(i), st.kept, pos),
    ensures
        kept_at(items, crate::layout_spec::place_from(schema, items, i, st, width).kept, r),
    decreases items.len() - i,
{
    if i == items.len() {
        assert(items.take(i) =~= items);
        pos
    } else {
        let item = items[i];
        let st2 = crate::layout_spec::place_step(schema, items, st, item, width);
        let t2 = items.take(i + 1);
        let pos2 = if st2.kept.len() > st.kept.len() {
            pos.push(i)
        } else {
            pos
        };
        assert(kept_at(t2, st2.kept, pos2)) by {
            assert forall|j: int| 0 <= j < pos2.len() implies 0 <= #[trigger] pos2[j] < t2.len() && st2.kept[j] == t2[pos2[j]] by {
                if j < pos.len() {
                    assert(pos2[j] == pos[j]);
                    assert(t2[pos[j]] == items.take(i)[pos[j]]);
                }
            }
            assert forall|q: int| 0 <= q < t2.len() && !pos2.contains(q) implies (#[trigger] t2[q] matches ItemV::Comment {
                trailing: true,
                target_arg: Some(_),
                ..
            }) by {
                if q < i {
                    assert(t2[q] == items.take(i)[q]);
                    if pos.contains(q) {
                        let j = choose|j: int| 0 <= j < pos.len() && pos[j] == q;
                        assert(pos2[j] == q);
                    }
                } else {
                    assert(q == i);
                    if st2.kept.len() > st.kept.len() {
                        assert(pos2[pos.len() as int] == i);
                    }
                }
            }
        }
        lemma_place_from_kept(schema, items, i + 1, st2, width, pos2)
    }
}

/// Placing comments keeps every argument and every comment that is not
/// promoted at its place: the result is `kept_items` (`items` at the
/// increasing positions `pos`; each item left out is a trailing comment
/// aimed at an argument), with, before each argument, the comments promoted
/// to it; each promoted comment is written as a leading comment (not
/// trailing, aimed at nothing, after no argument).
pub proof fn law_place_comments_positions(items: Seq<ItemV>, schema: FunctionSchema, width: usize) -> (pos: Seq<int>)
    ensures
        kept_at(items, kept_items(items, schema, width), pos),
        place_schema_comments(items, schema, width) == (if promoted_comments(items, schema, width).len() == 0 {
            kept_items(items, schema, width)
        } else {
            with_leading(kept_items(items, schema, width), promoted_comments(items, schema, width))
        }),
        forall|k: usize, q: int|
            0 <= q < leading_for(promoted_comments(items, schema, width), k).len() ==> (#[trigger] leading_for(
                promoted_comments(items, schema, width),
                k,
            )[q] matches ItemV::Comment { trailing: false, target_arg: None, previous_arg: None, .. }),
{
    let st0 = PlaceState { leading: Seq::empty(), kept: Seq::empty(), previous_arg: None };
    assert(kept_at(items.take(0), st0.kept, Seq::empty()));
    let lead = promoted_comments(items, schema, width);
    assert forall|k: usize, q: int| 0 <= q < leading_for(lead, k).len() implies (#[trigger] leading_for(lead, k)[q] matches ItemV::Comment {
        trailing: false,
        target_arg: None,
        previous_arg: None,
        ..
    }) by {
        lemma_leading_for_flags(lead, k, q);
    }
    lemma_place_from_kept(schema, items, 0, st0, width, Seq::empty())
}

proof fn lemma_leading_for_flags(leading: Seq<(usize, Seq<char>)>, index: usize, q: int)
    requires
        0 <= q < leading_for(leading, index).len(),
    ensures
        leading_for(leading, index)[q] matches ItemV::Comment { trailing: false, target_arg: None, previous_arg: None, .. },
    decreases leading.len(),
{
    if leading.len() > 0 {
        let rest = leading_for(leading.drop_last(), index);
        if q < rest.len() {
            lemma_leading_for_flags(leading.drop_last(), index, q);
        }
    }
}

} // verus!
