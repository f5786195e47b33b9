//! The layout rules of the formatter, stated over sequences of characters:
//! how the arguments of a command are grouped into lines.
use crate::schema::{CompoundListKeyword, FunctionSchema, ListType};
use crate::text::{blen, eq_ignore_case, ends_with_char, is_ascii_digit, is_ascii_upper, seq_contains_char, starts_with_char};
use vstd::prelude::*;

verus! {

/// An argument or comment of a command, as the layout sees it.
pub struct ArgV {
    pub text: Seq<char>,
    pub is_comment: bool,
    pub trailing: bool,
    pub source_line: Option<usize>,
}

/// One output line of a command's body: its extra indentation level (0 for
/// the argument indent), its text, and whether it ends with a comment.
pub struct LineV {
    pub indent: usize,
    pub text: Seq<char>,
    pub has_comment: bool,
}

pub open spec fn line(indent: usize, text: Seq<char>) -> LineV {
    LineV { indent, text, has_comment: false }
}

/// `x + 1`, staying at `usize::MAX`.
pub open spec fn inc(x: usize) -> usize {
    if x < usize::MAX {
        (x + 1) as usize
    } else {
        x
    }
}

/// `x + y`, staying at `usize::MAX`.
pub open spec fn sat_add(x: usize, y: usize) -> usize {
    if x + y <= usize::MAX {
        (x + y) as usize
    } else {
        usize::MAX
    }
}

/// `x - y`, staying at 0.
pub open spec fn sat_sub(x: int, y: int) -> int {
    if x >= y {
        x - y
    } else {
        0
    }
}

pub open spec fn texts(args: Seq<ArgV>) -> Seq<Seq<char>> {
    args.map_values(|a: ArgV| a.text)
}

// ---------------------------------------------------------------------------
// Joining words
// ---------------------------------------------------------------------------
/// A value is glued (no space) after an empty line or an opening parenthesis,
/// and a closing parenthesis is glued to what precedes it.
pub open spec fn glued(line: Seq<char>, value: Seq<char>) -> bool {
    line.len() == 0 || value == seq![')'] || ends_with_char(line, '(')
}

/// `line` followed by `value`, with a space unless they are glued.
pub open spec fn app(line: Seq<char>, value: Seq<char>) -> Seq<char> {
    if glued(line, value) {
        line + value
    } else {
        line + seq![' '] + value
    }
}

/// Width of the separator that `app` puts between `line` and `value`.
pub open spec fn sep(line: Seq<char>, value: Seq<char>) -> int {
    if glued(line, value) {
        0
    } else {
        1
    }
}

/// `start` followed by each of `values`, joined by `app`.
pub open spec fn app_all(start: Seq<char>, values: Seq<Seq<char>>) -> Seq<char>
    decreases values.len(),
{
    if values.len() == 0 {
        start
    } else {
        app(app_all(start, values.drop_last()), values.last())
    }
}

/// `values` joined by `app`.
pub open spec fn join(values: Seq<Seq<char>>) -> Seq<char> {
    app_all(Seq::empty(), values)
}

/// `values` joined by single spaces.
pub open spec fn join_space(values: Seq<Seq<char>>) -> Seq<char>
    decreases values.len(),
{
    if values.len() == 0 {
        Seq::empty()
    } else if values.len() == 1 {
        values[0]
    } else {
        join_space(values.drop_last()) + seq![' '] + values.last()
    }
}

/// `a`, a space, `b`.
pub open spec fn spaced(a: Seq<char>, b: Seq<char>) -> Seq<char> {
    a + seq![' '] + b
}

/// `a`, two spaces, `b` (a trailing comment after its line).
pub open spec fn with_comment(a: Seq<char>, b: Seq<char>) -> Seq<char> {
    a + seq![' ', ' '] + b
}

/// `a.len() + b + c.len() <= width`, byte lengths.
pub open spec fn fits(a: Seq<char>, b: int, c: Seq<char>, width: usize) -> bool {
    blen(a) + b + blen(c) <= width
}

// ---------------------------------------------------------------------------
// Comments among lines
// ---------------------------------------------------------------------------
/// Adds a comment to `lines`. A trailing comment goes at the end of the last
/// line when it fits there (else on its own line just before it); any other
/// comment gets a line of its own at `indent`.
pub open spec fn push_comment(lines: Seq<LineV>, indent: usize, comment: Seq<char>, trailing: bool, width: usize) -> Seq<LineV> {
    if trailing && lines.len() > 0 && !starts_with_char(lines.last().text, '#') {
        let last = lines.last();
        if fits(last.text, 2, comment, width) {
            lines.drop_last().push(
                LineV { indent: last.indent, text: with_comment(last.text, comment), has_comment: true },
            )
        } else {
            lines.drop_last().push(LineV { indent: last.indent, text: comment, has_comment: true }).push(
                last,
            )
        }
    } else {
        lines.push(LineV { indent, text: comment, has_comment: true })
    }
}

/// Whether `text` can be glued onto the last line (flat, without a comment,
/// still within `width`).
pub open spec fn can_append_to_last(lines: Seq<LineV>, text: Seq<char>, width: usize) -> bool {
    lines.len() > 0 && lines.last().indent == 0 && !lines.last().has_comment && fits(
        lines.last().text,
        sep(lines.last().text, text),
        text,
        width,
    )
}

/// `lines` with `text` glued onto the last line.
pub open spec fn append_to_last(lines: Seq<LineV>, text: Seq<char>) -> Seq<LineV> {
    let last = lines.last();
    lines.drop_last().push(LineV { text: app(last.text, text), ..last })
}

// ---------------------------------------------------------------------------
// Packing values
// ---------------------------------------------------------------------------
/// Greedy packing of `values` from index `i` on, at `indent`: `lines` so far
/// and the line being filled (`current`).
pub open spec fn greedy_from(values: Seq<Seq<char>>, i: int, width: usize, indent: usize, lines: Seq<LineV>, current: Seq<char>) -> Seq<LineV>
    decreases values.len() - i,
{
    if i < 0 || i >= values.len() {
        if current.len() > 0 {
            lines.push(line(indent, current))
        } else {
            lines
        }
    } else {
        let value = values[i];
        if current.len() == 0 {
            greedy_from(values, i + 1, width, indent, lines, value)
        } else if fits(current, sep(current, value), value, width) {
            greedy_from(values, i + 1, width, indent, lines, app(current, value))
        } else {
            greedy_from(values, i + 1, width, indent, lines.push(line(indent, current)), value)
        }
    }
}

/// `values` packed greedily into lines of at most `width` at `indent`.
pub open spec fn greedy(values: Seq<Seq<char>>, width: usize, indent: usize) -> Seq<LineV> {
    greedy_from(values, 0, width, indent, Seq::empty(), Seq::empty())
}

/// The header line of a keyword group, when there is a prefix.
pub open spec fn prefix_lines(prefix: Seq<Seq<char>>, indent: usize) -> Seq<LineV> {
    if prefix.len() > 0 {
        seq![line(indent, join(prefix))]
    } else {
        Seq::empty()
    }
}

/// The indent of the values below a prefix.
pub open spec fn value_indent(prefix: Seq<Seq<char>>, indent: usize) -> usize {
    if prefix.len() > 0 {
        inc(indent)
    } else {
        indent
    }
}

pub open spec fn lines_at(values: Seq<Seq<char>>, indent: usize) -> Seq<LineV> {
    values.map_values(|v: Seq<char>| line(indent, v))
}

/// Groups of `n` values, each on a line when it fits, else its first value on
/// a line and the rest one level deeper.
pub open spec fn chunk_lines(values: Seq<Seq<char>>, n: nat, width: usize, indent: usize) -> Seq<LineV>
    decreases values.len(),
{
    if n == 0 || values.len() == 0 {
        Seq::empty()
    } else {
        let k = if values.len() < n {
            values.len() as int
        } else {
            n as int
        };
        let chunk = values.take(k);
        let rest = chunk_lines(values.skip(k), n, width, indent);
        let joined = join_space(chunk);
        if blen(joined) <= width {
            seq![line(indent, joined)] + rest
        } else {
            seq![line(indent, chunk[0])] + lines_at(chunk.skip(1), inc(indent)) + rest
        }
    }
}

/// The packed layout: everything on one line with the prefix when it fits,
/// else the prefix alone and the values packed greedily below it.
pub open spec fn pack_packed(indent: usize, prefix: Seq<Seq<char>>, values: Seq<Seq<char>>, width: usize) -> Seq<LineV> {
    let single = app_all(join(prefix), values);
    if prefix.len() > 0 && blen(single) <= width {
        seq![line(indent, single)]
    } else {
        prefix_lines(prefix, indent) + greedy(values, width, value_indent(prefix, indent))
    }
}

/// Lays out `prefix` (a keyword and its headers) and `values` by `list_type`.
pub open spec fn pack_values(indent: usize, prefix: Seq<Seq<char>>, values: Seq<Seq<char>>, width: usize, list_type: ListType) -> Seq<LineV> {
    if prefix.len() == 0 && values.len() == 0 {
        Seq::empty()
    } else if list_type == ListType::Condition {
        pack_condition(indent, prefix, values, width)
    } else if list_type == ListType::CommandArgv {
        pack_command_argv(indent, prefix, values, width)
    } else if list_type == ListType::Path && values.len() == 1 && prefix.len() > 0 && fits(
        join(prefix),
        sep(join(prefix), values[0]),
        values[0],
        width,
    ) {
        seq![line(indent, app(join(prefix), values[0]))]
    } else if list_type == ListType::Path && values.len() > 0 {
        prefix_lines(prefix, indent) + lines_at(values, value_indent(prefix, indent))
    } else if list_type is NPerLine && (list_type->n <= 1 || values.len() == 0) {
        prefix_lines(prefix, indent) + lines_at(values, value_indent(prefix, indent))
    } else if list_type is NPerLine && (values.len() as int) % (list_type->n as int) == 0 {
        prefix_lines(prefix, indent) + chunk_lines(
            values,
            list_type->n as nat,
            width,
            value_indent(prefix, indent),
        )
    } else {
        pack_packed(indent, prefix, values, width)
    }
}

// ---------------------------------------------------------------------------
// Command lines (program and arguments)
// ---------------------------------------------------------------------------
/// The characters of a floating-point exponent after `e`: an optional sign
/// and at least one digit.
pub open spec fn all_digits(s: Seq<char>) -> bool {
    forall|i: int| 0 <= i < s.len() ==> is_ascii_digit(s[i])
}

pub open spec fn valid_exponent(s: Seq<char>) -> bool {
    let r = if s.len() > 0 && (s[0] == '+' || s[0] == '-') {
        s.drop_first()
    } else {
        s
    };
    r.len() > 0 && all_digits(r)
}

/// Digits with at most one `.` and at least one digit.
pub open spec fn valid_mantissa(s: Seq<char>) -> bool {
    &&& forall|i: int| 0 <= i < s.len() ==> is_ascii_digit(s[i]) || s[i] == '.'
    &&& forall|i: int, j: int| 0 <= i < j < s.len() && s[i] == '.' ==> s[j] != '.'
    &&& exists|i: int| 0 <= i < s.len() && is_ascii_digit(s[i])
}

/// Index of the first `e` or `E`.
pub open spec fn first_exp(s: Seq<char>, i: int) -> Option<int>
    decreases s.len() - i,
{
    if i < 0 || i >= s.len() {
        None
    } else if s[i] == 'e' || s[i] == 'E' {
        Some(i)
    } else {
        first_exp(s, i + 1)
    }
}

/// A decimal number without sign: `Digit+ | Digit+ '.' Digit* | Digit* '.' Digit+`,
/// then optionally `e`/`E`, a sign and digits.
pub open spec fn is_decimal(s: Seq<char>) -> bool {
    match first_exp(s, 0) {
        None => valid_mantissa(s),
        Some(k) => valid_mantissa(s.take(k)) && valid_exponent(s.skip(k + 1)),
    }
}

/// What `f64::from_str` accepts after the sign, as its documentation gives
/// the grammar: `inf`, `infinity`, `nan` (any case) or a decimal number.
pub open spec fn is_float_body(s: Seq<char>) -> bool {
    eq_ignore_case(s, "inf"@) || eq_ignore_case(s, "infinity"@) || eq_ignore_case(s, "nan"@)
        || is_decimal(s)
}

/// A `-` followed by something `f64::from_str` accepts.
pub open spec fn is_negative_number(v: Seq<char>) -> bool {
    starts_with_char(v, '-') && v != seq!['-'] && is_float_body(v.drop_first())
}

/// A flag that takes the following word as its value (`-o out`).
pub open spec fn starts_flag_value_pair(v: Seq<char>) -> bool {
    starts_with_char(v, '-') && v != seq!['-'] && v != seq!['-', '-'] && !seq_contains_char(v, '=')
}

/// A shell redirection operator standing alone, which takes the following
/// word as its target: `<`, `>`, `>>`, and `>` / `>>` after `1`, `2` or `&`.
pub open spec fn is_redirect_operator(v: Seq<char>) -> bool {
    ||| v.len() == 1 && (v[0] == '<' || v[0] == '>')
    ||| v.len() == 2 && v[1] == '>' && (v[0] == '>' || v[0] == '1' || v[0] == '2' || v[0] == '&')
    ||| v.len() == 3 && v[1] == '>' && v[2] == '>' && (v[0] == '1' || v[0] == '2' || v[0] == '&')
}

/// A word that can be a flag's value (a redirection operator cannot: it
/// belongs with its target).
pub open spec fn can_be_flag_value(v: Seq<char>) -> bool {
    (!starts_with_char(v, '-') || v == seq!['-'] || is_negative_number(v)) && !is_redirect_operator(v)
}

/// Values of a command line from index `i`, with each redirection operator
/// and its target, and each flag and its value, grouped into one word; no
/// flag is grouped after `--`.
pub open spec fn group_from(values: Seq<Seq<char>>, i: int, after_separator: bool) -> Seq<Seq<char>>
    decreases values.len() - i,
{
    if i < 0 || i >= values.len() {
        Seq::empty()
    } else {
        let v = values[i];
        if v == seq!['-', '-'] {
            seq![v] + group_from(values, i + 1, true)
        } else if is_redirect_operator(v) && i + 1 < values.len() {
            seq![spaced(v, values[i + 1])] + group_from(values, i + 2, after_separator)
        } else if !after_separator && starts_flag_value_pair(v) && i + 1 < values.len()
            && can_be_flag_value(values[i + 1]) {
            seq![spaced(v, values[i + 1])] + group_from(values, i + 2, after_separator)
        } else {
            seq![v] + group_from(values, i + 1, after_separator)
        }
    }
}

pub open spec fn group_command_argv(values: Seq<Seq<char>>) -> Seq<Seq<char>> {
    group_from(values, 0, false)
}

/// A command line: without a prefix, packed at `indent`; with one, on one
/// line when it fits, else the prefix alone and the grouped values packed
/// one level deeper.
pub open spec fn pack_command_argv(indent: usize, prefix: Seq<Seq<char>>, values: Seq<Seq<char>>, width: usize) -> Seq<LineV> {
    let grouped = group_command_argv(values);
    if prefix.len() == 0 {
        greedy(grouped, width, indent)
    } else {
        let single = app_all(join(prefix), grouped);
        if blen(single) <= width {
            seq![line(indent, single)]
        } else {
            seq![line(indent, join(prefix))] + greedy(grouped, width, inc(indent))
        }
    }
}

// ---------------------------------------------------------------------------
// Conditions
// ---------------------------------------------------------------------------
/// State of the condition layout: lines so far, the line being filled, its
/// indent, and how many parentheses are open.
pub struct CondState {
    pub lines: Seq<LineV>,
    pub current: Seq<char>,
    pub current_indent: usize,
    pub depth: usize,
}

pub open spec fn cond_step(indent: usize, width: usize, st: CondState, value: Seq<char>) -> CondState {
    let is_op = value == "AND"@ || value == "OR"@;
    let depth1 = if value == seq![')'] && st.depth > 0 {
        (st.depth - 1) as usize
    } else {
        st.depth
    };
    let break_before = is_op && st.current.len() > 0;
    let brk = break_before || (st.current.len() > 0 && !fits(
        st.current,
        sep(st.current, value),
        value,
        width,
    ));
    let lines = if brk {
        st.lines.push(line(st.current_indent, st.current))
    } else {
        st.lines
    };
    let current0 = if brk {
        Seq::<char>::empty()
    } else {
        st.current
    };
    let cur_indent = if brk {
        sat_add(sat_add(indent, depth1), if is_op {
            0
        } else {
            1
        })
    } else {
        st.current_indent
    };
    let current = if current0.len() == 0 {
        value
    } else {
        app(current0, value)
    };
    let depth2 = if value == seq!['('] {
        inc(depth1)
    } else {
        depth1
    };
    CondState { lines, current, current_indent: cur_indent, depth: depth2 }
}

pub open spec fn cond_from(indent: usize, width: usize, values: Seq<Seq<char>>, i: int, st: CondState) -> CondState
    decreases values.len() - i,
{
    if i < 0 || i >= values.len() {
        st
    } else {
        cond_from(indent, width, values, i + 1, cond_step(indent, width, st, values[i]))
    }
}

/// A condition: breaks before `AND` / `OR` and where the width is reached;
/// continuation lines are indented by the open parentheses.
pub open spec fn pack_condition(indent: usize, prefix: Seq<Seq<char>>, values: Seq<Seq<char>>, width: usize) -> Seq<LineV> {
    let st = cond_from(
        indent,
        width,
        values,
        0,
        CondState { lines: Seq::empty(), current: join(prefix), current_indent: indent, depth: 0 },
    );
    if st.current.len() > 0 {
        st.lines.push(line(st.current_indent, st.current))
    } else {
        st.lines
    }
}

// ---------------------------------------------------------------------------
// Values from source arguments
// ---------------------------------------------------------------------------
/// The first `k` arguments stand on distinct consecutive source lines.
pub open spec fn distinct_lines(items: Seq<ArgV>, k: int) -> bool
    decreases k,
{
    if k <= 0 {
        true
    } else if k == 1 {
        items[0].source_line is Some
    } else {
        distinct_lines(items, k - 1) && items[k - 1].source_line is Some && items[k
            - 1].source_line != items[k - 2].source_line
    }
}

/// The source had the list one value per line (at least `threshold` of them,
/// fewer when positionals were consumed before, never fewer than two): keep
/// it vertical.
pub open spec fn should_preserve_vertical_list(threshold: isize, items: Seq<ArgV>, list_type: ListType, consumed: usize) -> bool {
    if list_type == ListType::CommandArgv || list_type == ListType::Condition || items.len() == 0 {
        false
    } else if threshold < 0 {
        false
    } else if threshold == 0 {
        true
    } else {
        let adjusted = if sat_sub(threshold as int, consumed as int) >= 2 {
            sat_sub(threshold as int, consumed as int)
        } else {
            2
        };
        items.len() >= adjusted && distinct_lines(items, adjusted)
    }
}

/// Groups of consecutive values on the same source line, from index `i`.
pub open spec fn groups_from(items: Seq<ArgV>, i: int, current_line: Option<usize>, current: Seq<Seq<char>>, groups: Seq<Seq<Seq<char>>>) -> Seq<Seq<Seq<char>>>
    decreases items.len() - i,
{
    if i < 0 || i >= items.len() {
        if current.len() > 0 {
            groups.push(current)
        } else {
            groups
        }
    } else {
        let item = items[i];
        let brk = current_line is Some && current_line != item.source_line;
        let groups1 = if brk {
            groups.push(current)
        } else {
            groups
        };
        let current1 = if brk {
            Seq::<Seq<char>>::empty()
        } else {
            current
        };
        groups_from(items, i + 1, item.source_line, current1.push(item.text), groups1)
    }
}

pub open spec fn source_line_groups(items: Seq<ArgV>) -> Seq<Seq<Seq<char>>> {
    groups_from(items, 0, None, Seq::empty(), Seq::empty())
}

pub open spec fn should_preserve_command_argv_layout(threshold: isize, groups: Seq<Seq<Seq<char>>>) -> bool {
    if threshold < 0 || groups.len() <= 1 {
        false
    } else {
        threshold == 0 || groups.len() >= threshold as int
    }
}

/// Each source line of a command line packed on its own.
pub open spec fn argv_groups_lines(groups: Seq<Seq<Seq<char>>>, width: usize, indent: usize) -> Seq<LineV>
    decreases groups.len(),
{
    if groups.len() == 0 {
        Seq::empty()
    } else {
        argv_groups_lines(groups.drop_last(), width, indent) + pack_command_argv(
            indent,
            Seq::empty(),
            groups.last(),
            width,
        )
    }
}

pub open spec fn pack_command_argv_items(threshold: isize, indent: usize, prefix: Seq<Seq<char>>, items: Seq<ArgV>, width: usize) -> Seq<LineV> {
    let groups = source_line_groups(items);
    if should_preserve_command_argv_layout(threshold, groups) {
        prefix_lines(prefix, indent) + argv_groups_lines(groups, width, value_indent(prefix, indent))
    } else {
        pack_command_argv(indent, prefix, texts(items), width)
    }
}

pub open spec fn pack_value_items(threshold: isize, indent: usize, prefix: Seq<Seq<char>>, items: Seq<ArgV>, width: usize, list_type: ListType, consumed: usize) -> Seq<LineV> {
    if list_type == ListType::CommandArgv {
        pack_command_argv_items(threshold, indent, prefix, items, width)
    } else {
        let lt = if should_preserve_vertical_list(threshold, items, list_type, consumed) {
            ListType::NPerLine { n: 1 }
        } else {
            list_type
        };
        pack_values(indent, prefix, texts(items), width, lt)
    }
}

/// Some argument that is not a comment stands at or after `i`.
pub open spec fn value_after(items: Seq<ArgV>, i: int) -> bool {
    exists|j: int| i <= j < items.len() && !items[j].is_comment
}

/// A comment that is followed by more values splits the list.
pub open spec fn has_splitter(items: Seq<ArgV>) -> bool {
    exists|i: int| 0 <= i < items.len() && items[i].is_comment && value_after(items, i + 1)
}

pub struct PackState {
    pub lines: Seq<LineV>,
    pub prefix: Seq<Seq<char>>,
    pub values: Seq<ArgV>,
    pub current_indent: usize,
}

pub open spec fn pack_arg_step(threshold: isize, indent: usize, comment_indent: usize, items: Seq<ArgV>, width: usize, list_type: ListType, idx: int, st: PackState) -> PackState {
    let item = items[idx];
    if item.is_comment {
        let more_after = value_after(items, idx + 1);
        let packed = pack_value_items(
            threshold,
            st.current_indent,
            st.prefix,
            st.values,
            width,
            list_type,
            0,
        );
        let split = item.trailing && more_after && st.values.len() > 0 && packed.len() > 0
            && !fits(packed.last().text, 2, item.text, width);
        let (lines1, prefix1, values1) = if split {
            (
                st.lines + pack_value_items(
                    threshold,
                    st.current_indent,
                    st.prefix,
                    st.values.drop_last(),
                    width,
                    list_type,
                    0,
                ),
                Seq::<Seq<char>>::empty(),
                seq![st.values.last()],
            )
        } else {
            (st.lines, st.prefix, st.values)
        };
        let lines2 = lines1 + pack_value_items(
            threshold,
            st.current_indent,
            prefix1,
            values1,
            width,
            list_type,
            0,
        );
        let this_indent = if more_after {
            comment_indent
        } else {
            indent
        };
        PackState {
            lines: push_comment(lines2, this_indent, item.text, item.trailing, width),
            prefix: Seq::empty(),
            values: Seq::empty(),
            current_indent: this_indent,
        }
    } else {
        PackState { values: st.values.push(item), ..st }
    }
}

pub open spec fn pack_arg_from(threshold: isize, indent: usize, comment_indent: usize, items: Seq<ArgV>, width: usize, list_type: ListType, idx: int, st: PackState) -> PackState
    decreases items.len() - idx,
{
    if idx < 0 || idx >= items.len() {
        st
    } else {
        pack_arg_from(
            threshold,
            indent,
            comment_indent,
            items,
            width,
            list_type,
            idx + 1,
            pack_arg_step(threshold, indent, comment_indent, items, width, list_type, idx, st),
        )
    }
}

/// A keyword group from source arguments: values packed by `list_type`,
/// comments kept at their place; a comment that splits the values puts the
/// keyword on a line of its own.
pub open spec fn pack_arg_items(threshold: isize, indent: usize, prefix: Seq<Seq<char>>, items: Seq<ArgV>, width: usize, list_type: ListType) -> Seq<LineV> {
    let comment_indent = value_indent(prefix, indent);
    let start = if has_splitter(items) && prefix.len() > 0 {
        PackState {
            lines: seq![line(indent, join(prefix))],
            prefix: Seq::empty(),
            values: Seq::empty(),
            current_indent: comment_indent,
        }
    } else {
        PackState { lines: Seq::empty(), prefix, values: Seq::empty(), current_indent: indent }
    };
    let st = pack_arg_from(threshold, indent, comment_indent, items, width, list_type, 0, start);
    st.lines + pack_value_items(
        threshold,
        st.current_indent,
        st.prefix,
        st.values,
        width,
        list_type,
        0,
    )
}

// ---------------------------------------------------------------------------
// Items of a command and the generic layout
// ---------------------------------------------------------------------------
/// An argument (with its position among the arguments and its source line)
/// or a comment (trailing when it stood on an argument's line; then the
/// first argument of that line and the last argument before it).
pub enum ItemV {
    Arg { text: Seq<char>, index: usize, source_line: usize },
    Comment { text: Seq<char>, trailing: bool, target_arg: Option<usize>, previous_arg: Option<Seq<char>> },
}

pub open spec fn item_text(i: ItemV) -> Seq<char> {
    match i {
        ItemV::Arg { text, .. } => text,
        ItemV::Comment { text, .. } => text,
    }
}

/// An ALL-CAPS word of three or more characters (other than a few boolean
/// literals): a logical-group breakpoint for commands without a schema.
pub open spec fn is_generic_keyword(s: Seq<char>) -> bool {
    !(s == "YES"@ || s == "OFF"@ || s == "TRUE"@ || s == "FALSE"@) && blen(s) >= 3 && s.len() > 0
        && is_ascii_upper(s[0]) && forall|i: int|
        0 <= i < s.len() ==> is_ascii_upper(s[i]) || is_ascii_digit(s[i]) || s[i] == '_'
}

pub struct GenState {
    pub lines: Seq<LineV>,
    pub prefix: Seq<Seq<char>>,
    pub values: Seq<ArgV>,
}

/// The lines of the current group: a keyword with one value stays on one
/// line; anything else is packed.
pub open spec fn gen_flush(threshold: isize, st: GenState, width: usize) -> Seq<LineV> {
    if st.prefix.len() == 1 && st.values.len() == 1 {
        st.lines.push(line(0, spaced(st.prefix[0], st.values[0].text)))
    } else {
        st.lines + pack_value_items(threshold, 0, st.prefix, st.values, width, ListType::Packed, 0)
    }
}

pub open spec fn gen_step(threshold: isize, st: GenState, item: ItemV, width: usize) -> GenState {
    match item {
        ItemV::Arg { text, source_line, .. } => {
            if is_generic_keyword(text) {
                GenState { lines: gen_flush(threshold, st, width), prefix: seq![text], values: Seq::empty() }
            } else {
                GenState {
                    values: st.values.push(
                        ArgV { text, is_comment: false, trailing: false, source_line: Some(source_line) },
                    ),
                    ..st
                }
            }
        },
        ItemV::Comment { text, trailing, .. } => {
            GenState {
                lines: push_comment(gen_flush(threshold, st, width), 0, text, trailing, width),
                prefix: Seq::empty(),
                values: Seq::empty(),
            }
        },
    }
}

pub open spec fn gen_from(threshold: isize, items: Seq<ItemV>, i: int, st: GenState, width: usize) -> GenState
    decreases items.len() - i,
{
    if i < 0 || i >= items.len() {
        st
    } else {
        gen_from(threshold, items, i + 1, gen_step(threshold, st, items[i], width), width)
    }
}

/// Layout of a command without a schema: each ALL-CAPS word starts a group.
pub open spec fn layout_generic_items(threshold: isize, items: Seq<ItemV>, width: usize) -> Seq<LineV> {
    let st = gen_from(
        threshold,
        items,
        0,
        GenState { lines: Seq::empty(), prefix: Seq::empty(), values: Seq::empty() },
        width,
    );
    gen_flush(threshold, st, width)
}

// ---------------------------------------------------------------------------
// Trailing comments after options
// ---------------------------------------------------------------------------
/// Source line of the argument with index `target`.
pub open spec fn target_line(items: Seq<ItemV>, target: usize, i: int) -> Option<usize>
    decreases items.len() - i,
{
    if i < 0 || i >= items.len() {
        None
    } else {
        match items[i] {
            ItemV::Arg { index, source_line, .. } => if index == target {
                Some(source_line)
            } else {
                target_line(items, target, i + 1)
            },
            _ => target_line(items, target, i + 1),
        }
    }
}

/// Width of the arguments on source line `l` (among `items[..i]`) joined by
/// single spaces, and whether none was seen yet.
pub open spec fn line_acc(items: Seq<ItemV>, l: usize, i: int) -> (int, bool)
    decreases i,
{
    if i <= 0 || i > items.len() {
        (0, true)
    } else {
        let (t, first) = line_acc(items, l, i - 1);
        match items[i - 1] {
            ItemV::Arg { text, source_line, .. } => if source_line == l {
                (t + (if first { 0int } else { 1int }) + blen(text), false)
            } else {
                (t, first)
            },
            _ => (t, first),
        }
    }
}

/// The source line of argument `target`, rendered with the comment as a
/// trailing comment, would not fit.
pub open spec fn trailing_line_overflows(items: Seq<ItemV>, target: usize, comment: Seq<char>, width: usize) -> bool {
    match target_line(items, target, 0) {
        None => true,
        Some(l) => line_acc(items, l, items.len() as int).0 + 2 + blen(comment) > width,
    }
}

pub struct PlaceState {
    pub leading: Seq<(usize, Seq<char>)>,
    pub kept: Seq<ItemV>,
    pub previous_arg: Option<usize>,
}

/// A trailing comment after an option (the option itself not being the
/// first argument of the comment's line) becomes a leading comment of that
/// line when the line would not fit with it.
pub open spec fn promotes(schema: FunctionSchema, items: Seq<ItemV>, st: PlaceState, item: ItemV, width: usize) -> bool {
    match item {
        ItemV::Comment { text, trailing, target_arg, previous_arg } => {
            &&& trailing
            &&& target_arg is Some
            &&& previous_arg is Some
            &&& st.previous_arg != target_arg
            &&& schema.spec_is_option(previous_arg->0)
            &&& trailing_line_overflows(items, target_arg->0, text, width)
        },
        _ => false,
    }
}

pub open spec fn place_step(schema: FunctionSchema, items: Seq<ItemV>, st: PlaceState, item: ItemV, width: usize) -> PlaceState {
    match item {
        ItemV::Arg { index, .. } => PlaceState { kept: st.kept.push(item), previous_arg: Some(index), ..st },
        ItemV::Comment { text, target_arg, .. } => if promotes(schema, items, st, item, width) {
            PlaceState { leading: st.leading.push((target_arg->0, text)), ..st }
        } else {
            PlaceState { kept: st.kept.push(item), ..st }
        },
    }
}

pub open spec fn place_from(schema: FunctionSchema, items: Seq<ItemV>, i: int, st: PlaceState, width: usize) -> PlaceState
    decreases items.len() - i,
{
    if i < 0 || i >= items.len() {
        st
    } else {
        place_from(schema, items, i + 1, place_step(schema, items, st, items[i], width), width)
    }
}

/// The promoted comments that go before argument `index`, in order.
pub open spec fn leading_for(leading: Seq<(usize, Seq<char>)>, index: usize) -> Seq<ItemV>
    decreases leading.len(),
{
    if leading.len() == 0 {
        Seq::empty()
    } else {
        let rest = leading_for(leading.drop_last(), index);
        if leading.last().0 == index {
            rest.push(ItemV::Comment { text: leading.last().1, trailing: false, target_arg: None, previous_arg: None })
        } else {
            rest
        }
    }
}

/// `kept` with each promoted comment placed before its argument.
pub open spec fn with_leading(kept: Seq<ItemV>, leading: Seq<(usize, Seq<char>)>) -> Seq<ItemV>
    decreases kept.len(),
{
    if kept.len() == 0 {
        Seq::empty()
    } else {
        let before = with_leading(kept.drop_last(), leading);
        let item = kept.last();
        match item {
            ItemV::Arg { index, .. } => before + leading_for(leading, index) + seq![item],
            _ => before.push(item),
        }
    }
}

pub open spec fn place_schema_comments(items: Seq<ItemV>, schema: FunctionSchema, width: usize) -> Seq<ItemV> {
    let st = place_from(
        schema,
        items,
        0,
        PlaceState { leading: Seq::empty(), kept: Seq::empty(), previous_arg: None },
        width,
    );
    if st.leading.len() == 0 {
        st.kept
    } else {
        with_leading(st.kept, st.leading)
    }
}

pub open spec fn arg_of_item(i: ItemV) -> ArgV {
    match i {
        ItemV::Arg { text, source_line, .. } => ArgV { text, is_comment: false, trailing: false, source_line: Some(source_line) },
        ItemV::Comment { text, trailing, .. } => ArgV { text, is_comment: true, trailing, source_line: None },
    }
}

// ---------------------------------------------------------------------------
// The schema layout
// ---------------------------------------------------------------------------
/// First index at or after `i` of an argument (not a comment) that starts a
/// keyword group of `schema`, or the end.
pub open spec fn outer_end(args: Seq<ArgV>, i: int, schema: FunctionSchema) -> int
    decreases args.len() - i,
{
    if i < 0 || i >= args.len() {
        if i < 0 { 0 } else { i }
    } else if !args[i].is_comment && schema.spec_is_any_keyword(args[i].text) {
        i
    } else {
        outer_end(args, i + 1, schema)
    }
}

/// End of a sub-parser's arguments from `i`: the first word that is a
/// keyword of the parent and not of the sub-parser, or the end.
pub open spec fn subparser_end(args: Seq<ArgV>, i: int, parent: FunctionSchema, child: FunctionSchema) -> int
    decreases args.len() - i,
{
    if i < 0 || i >= args.len() {
        if i < 0 { 0 } else { i }
    } else if parent.spec_is_any_keyword(args[i].text) && !child.spec_is_any_keyword(args[i].text) {
        i
    } else {
        subparser_end(args, i + 1, parent, child)
    }
}

/// Header words of a compound list keyword: the first header (in order)
/// whose words, case-insensitively, open `args`.
pub open spec fn header_matches(args: Seq<ArgV>, header: Seq<String>) -> bool {
    header.len() <= args.len() && forall|i: int|
        0 <= i < header.len() ==> !args[i].is_comment && eq_ignore_case(args[i].text, header[i]@)
}

pub open spec fn header_len_from(args: Seq<ArgV>, headers: Seq<Vec<String>>, j: int) -> int
    decreases headers.len() - j,
{
    if j < 0 || j >= headers.len() {
        0
    } else if header_matches(args, headers[j]@) {
        headers[j]@.len() as int
    } else {
        header_len_from(args, headers, j + 1)
    }
}

pub open spec fn compound_header_len(args: Seq<ArgV>, headers: Seq<Vec<String>>) -> int {
    header_len_from(args, headers, 0)
}

/// Scans for a `CACHE` keyword in `set`: (found, number of values before it).
pub open spec fn cache_scan(args: Seq<ArgV>, schema: FunctionSchema, i: int, count: nat) -> (bool, nat)
    decreases args.len() - i,
{
    if i < 0 || i >= args.len() {
        (false, count)
    } else if args[i].is_comment {
        cache_scan(args, schema, i + 1, count)
    } else if schema.spec_is_any_keyword(args[i].text) {
        (args[i].text == "CACHE"@, count)
    } else {
        cache_scan(args, schema, i + 1, count + 1)
    }
}

/// The number of positional arguments the layout takes (`None`: no limit).
pub open spec fn positional_max(args: Seq<ArgV>, schema: FunctionSchema, ignore_positional: bool) -> Option<usize> {
    let base = if ignore_positional {
        None
    } else {
        match schema.positional {
            Some(p) => if p.max > 0 {
                Some(p.max)
            } else {
                None
            },
            None => None,
        }
    };
    let scan = cache_scan(args, schema, 0, 0);
    if base == Some(1usize) && schema.spec_subparser("CACHE"@) is Some && scan.0 && scan.1 == 2 {
        Some(2usize)
    } else {
        base
    }
}

/// End of the leading positional arguments from `i`.
pub open spec fn positional_end(args: Seq<ArgV>, schema: FunctionSchema, max: Option<usize>, i: int) -> int
    decreases args.len() - i,
{
    if i < 0 || i >= args.len() || args[i].is_comment || schema.spec_is_any_keyword(args[i].text) || (
    max matches Some(m) && i >= m) {
        if i < 0 { 0 } else { i }
    } else {
        positional_end(args, schema, max, i + 1)
    }
}

/// End of a mode's positionals from `i` (at most `max` after `start`).
pub open spec fn mode_positional_end(args: Seq<ArgV>, schema: FunctionSchema, max: usize, start: int, i: int) -> int
    decreases args.len() - i,
{
    if i < start || i >= args.len() || i - start >= max || args[i].is_comment
        || schema.spec_is_any_keyword(args[i].text) {
        if i < start { start } else { i }
    } else {
        mode_positional_end(args, schema, max, start, i + 1)
    }
}

/// The header of a mode (`file(GLOB var ...)`): the mode keyword with its
/// positionals on one line (a single positional always, several when they
/// fit), else the keyword alone and one positional per line; a trailing
/// comment inside the header stays on its first line. Also returns how many
/// arguments the header used.
pub open spec fn layout_mode_header(mode_keyword: Seq<char>, schema: FunctionSchema, args: Seq<ArgV>, budget: usize) -> (Seq<LineV>, int) {
    let max = match schema.positional {
        Some(p) => p.max,
        None => 0,
    };
    let first_comment = args.len() > 0 && args[0].is_comment && args[0].trailing;
    let start: int = if first_comment { 1 } else { 0 };
    let end = mode_positional_end(args, schema, max, start, start);
    let positionals = texts(args.subrange(start, end));
    let late_comment = !first_comment && positionals.len() > 0 && end < args.len()
        && args[end].is_comment && args[end].trailing;
    let comment: Option<Seq<char>> = if first_comment {
        Some(args[0].text)
    } else if late_comment {
        Some(args[end].text)
    } else {
        None
    };
    let used = if late_comment { end + 1 } else { end };
    let single0 = app_all(mode_keyword, positionals);
    let single = match comment {
        Some(c) => with_comment(single0, c),
        None => single0,
    };
    if positionals.len() <= 1 || blen(single) <= budget {
        (seq![line(0, single)], used)
    } else {
        let keyword_line = match comment {
            Some(c) => with_comment(mode_keyword, c),
            None => mode_keyword,
        };
        (seq![line(0, keyword_line)] + lines_at(positionals, 0), used)
    }
}

pub struct MainState {
    pub lines: Seq<LineV>,
    pub any_indented: bool,
    pub any_keyword: bool,
    pub can_glue: bool,
}

pub open spec fn any_indented(lines: Seq<LineV>) -> bool {
    exists|i: int| 0 <= i < lines.len() && lines[i].indent > 0
}

pub open spec fn dedent(lines: Seq<LineV>) -> Seq<LineV> {
    lines.map_values(|l: LineV| LineV { indent: if l.indent > 0 { (l.indent - 1) as usize } else { 0 }, ..l })
}

pub open spec fn plain(lines: Seq<LineV>, shift: bool) -> Seq<LineV> {
    lines.map_values(|l: LineV| line(if shift { inc(l.indent) } else { l.indent }, l.text))
}

pub open spec fn all_flat(lines: Seq<LineV>) -> bool {
    forall|i: int| 0 <= i < lines.len() ==> lines[i].indent == 0
}

pub open spec fn has_comment_arg(args: Seq<ArgV>) -> bool {
    exists|i: int| 0 <= i < args.len() && args[i].is_comment
}

pub open spec fn line_texts(lines: Seq<LineV>) -> Seq<Seq<char>> {
    lines.map_values(|l: LineV| l.text)
}

pub proof fn lemma_outer_end(args: Seq<ArgV>, i: int, schema: FunctionSchema)
    requires
        0 <= i <= args.len(),
    ensures
        i <= outer_end(args, i, schema) <= args.len(),
    decreases args.len() - i,
{
    if i < args.len() && !(!args[i].is_comment && schema.spec_is_any_keyword(args[i].text)) {
        lemma_outer_end(args, i + 1, schema);
    }
}

pub proof fn lemma_subparser_end(args: Seq<ArgV>, i: int, parent: FunctionSchema, child: FunctionSchema)
    requires
        0 <= i <= args.len(),
    ensures
        i <= subparser_end(args, i, parent, child) <= args.len(),
    decreases args.len() - i,
{
    if i < args.len() && !(parent.spec_is_any_keyword(args[i].text) && !child.spec_is_any_keyword(args[i].text)) {
        lemma_subparser_end(args, i + 1, parent, child);
    }
}

pub proof fn lemma_mode_positional_end(args: Seq<ArgV>, schema: FunctionSchema, max: usize, start: int, i: int)
    requires
        0 <= start <= i <= args.len(),
    ensures
        i <= mode_positional_end(args, schema, max, start, i) <= args.len(),
    decreases args.len() - i,
{
    if !(i >= args.len() || i - start >= max || args[i].is_comment || schema.spec_is_any_keyword(args[i].text)) {
        lemma_mode_positional_end(args, schema, max, start, i + 1);
    }
}

pub proof fn lemma_mode_header_used(mode_keyword: Seq<char>, schema: FunctionSchema, args: Seq<ArgV>, budget: usize)
    ensures
        0 <= layout_mode_header(mode_keyword, schema, args, budget).1 <= args.len(),
{
    let max = match schema.positional {
        Some(p) => p.max,
        None => 0,
    };
    let first_comment = args.len() > 0 && args[0].is_comment && args[0].trailing;
    let start: int = if first_comment { 1 } else { 0 };
    lemma_mode_positional_end(args, schema, max, start, start);
}

pub proof fn lemma_compound_header_len(args: Seq<ArgV>, headers: Seq<Vec<String>>, j: int)
    ensures
        0 <= header_len_from(args, headers, j) <= args.len(),
    decreases headers.len() - j,
{
    if 0 <= j < headers.len() && !header_matches(args, headers[j]@) {
        lemma_compound_header_len(args, headers, j + 1);
    }
}

/// Layout of the arguments of a command (or mode, or sub-parser) with a
/// schema: a mode keyword first takes its header; then the positionals;
/// then each keyword group.
pub open spec fn layout_schema_args(threshold: isize, args: Seq<ArgV>, schema: FunctionSchema, ignore_positional: bool, width: usize, header_budget: usize, consumed: usize) -> Seq<LineV>
    decreases args.len(), 2nat, 0nat,
{
    if args.len() > 0 && !args[0].is_comment && schema.spec_mode(args[0].text) is Some {
        let mode_schema = schema.spec_mode(args[0].text)->0;
        let header = layout_mode_header(args[0].text, mode_schema, args.skip(1), header_budget);
        proof {
            lemma_mode_header_used(args[0].text, mode_schema, args.skip(1), header_budget);
        }
        header.0 + layout_schema_args(
            threshold,
            args.skip(1 + header.1),
            mode_schema,
            true,
            width,
            width,
            sat_add(consumed, header.1 as usize),
        )
    } else {
        let max = positional_max(args, schema, ignore_positional);
        let end = positional_end(args, schema, max, 0);
        let lines = pack_value_items(
            threshold,
            0,
            Seq::empty(),
            args.take(end),
            width,
            schema.default_list_type,
            consumed,
        );
        layout_main(
            threshold,
            args,
            schema,
            width,
            end,
            MainState { lines, any_indented: false, any_keyword: false, can_glue: true },
        )
    }
}

/// The argument after `index`, if any.
pub open spec fn next_arg(args: Seq<ArgV>, index: int) -> Option<ArgV> {
    if 0 <= index + 1 < args.len() {
        Some(args[index + 1])
    } else {
        None
    }
}

/// A one-value keyword and its value on one line. A comment right after the
/// keyword stays with it: after it on its line when it fits, else on a line
/// of its own; the value then follows as an argument of its own.
pub open spec fn one_value_lines(lines: Seq<LineV>, kw: Seq<char>, next: Option<ArgV>, width: usize) -> Seq<LineV> {
    match next {
        Some(a) => if a.is_comment {
            push_comment(lines.push(line(0, kw)), 0, a.text, a.trailing, width)
        } else {
            lines.push(line(0, spaced(kw, a.text)))
        },
        None => lines.push(line(0, kw)),
    }
}

/// The keyword groups of `args` from `index` on.
pub open spec fn layout_main(threshold: isize, args: Seq<ArgV>, schema: FunctionSchema, width: usize, index: int, st: MainState) -> Seq<LineV>
    decreases args.len(), 1nat, args.len() + 1 - index,
{
    if index < 0 || index >= args.len() {
        st.lines
    } else {
        let a = args[index];
        let kw = a.text;
        if a.is_comment {
            layout_main(
                threshold,
                args,
                schema,
                width,
                index + 1,
                MainState { lines: push_comment(st.lines, 0, kw, a.trailing, width), ..st },
            )
        } else if schema.spec_is_option(kw) {
            let lines = if st.can_glue && can_append_to_last(st.lines, kw, width) {
                append_to_last(st.lines, kw)
            } else {
                st.lines.push(line(0, kw))
            };
            layout_main(
                threshold,
                args,
                schema,
                width,
                index + 1,
                MainState { lines, any_indented: st.any_indented, any_keyword: true, can_glue: true },
            )
        } else if schema.spec_is_one_value_keyword(kw) {
            layout_main(
                threshold,
                args,
                schema,
                width,
                index + 2,
                MainState {
                    lines: one_value_lines(st.lines, kw, next_arg(args, index), width),
                    any_indented: st.any_indented,
                    any_keyword: true,
                    can_glue: false,
                },
            )
        } else if schema.spec_subparser(kw) is Some {
            let sub = schema.spec_subparser(kw)->0;
            let start = index + 1;
            let end = subparser_end(args, start, schema, sub);
            proof {
                lemma_subparser_end(args, start, schema, sub);
            }
            let flat = !st.any_indented && !value_after(args, end);
            let sub_lines = layout_subparser(
                threshold,
                kw,
                args.subrange(start, end),
                sub,
                width,
                flat,
            );
            layout_main(
                threshold,
                args,
                schema,
                width,
                end,
                MainState {
                    lines: st.lines + sub_lines,
                    any_indented: st.any_indented || any_indented(sub_lines),
                    any_keyword: true,
                    can_glue: false,
                },
            )
        } else if schema.spec_compound(kw) is Some {
            let c = schema.spec_compound(kw)->0;
            let start = index + 1;
            let end = outer_end(args, start, schema);
            proof {
                lemma_outer_end(args, start, schema);
                lemma_compound_header_len(args.subrange(start, end), c.headers@, 0);
            }
            let hl = compound_header_len(args.subrange(start, end), c.headers@);
            let header = join(seq![kw] + texts(args.subrange(start, start + hl)));
            let lines1 = if can_append_to_last(st.lines, header, width) {
                append_to_last(st.lines, header)
            } else {
                st.lines.push(line(0, header))
            };
            let lines2 = lines1 + pack_arg_items(
                threshold,
                0,
                Seq::empty(),
                args.subrange(start + hl, end),
                width,
                c.list_type,
            );
            layout_main(
                threshold,
                args,
                schema,
                width,
                end,
                MainState { lines: lines2, any_indented: st.any_indented, any_keyword: true, can_glue: false },
            )
        } else if schema.spec_is_multi_value_keyword(kw) || schema.spec_is_simple_keyword(kw) {
            let start = index + 1;
            let end = outer_end(args, start, schema);
            proof {
                lemma_outer_end(args, start, schema);
            }
            let lt = schema.spec_list_type(kw);
            let flat = lt != ListType::CommandArgv && !st.any_indented && !value_after(args, end);
            let kw_lines = pack_arg_items(threshold, 0, seq![kw], args.subrange(start, end), width, lt);
            let out_lines = if flat {
                dedent(kw_lines)
            } else {
                kw_lines
            };
            layout_main(
                threshold,
                args,
                schema,
                width,
                end,
                MainState {
                    lines: st.lines + out_lines,
                    any_indented: st.any_indented || (!flat && any_indented(kw_lines)),
                    any_keyword: true,
                    can_glue: false,
                },
            )
        } else {
            let end = outer_end(args, index + 1, schema);
            proof {
                lemma_outer_end(args, index + 1, schema);
            }
            layout_main(
                threshold,
                args,
                schema,
                width,
                end,
                MainState {
                    lines: st.lines + pack_arg_items(
                        threshold,
                        0,
                        Seq::empty(),
                        args.subrange(index, end),
                        width,
                        schema.default_list_type,
                    ),
                    any_indented: st.any_indented,
                    any_keyword: st.any_keyword,
                    can_glue: if st.any_keyword { false } else { st.can_glue },
                },
            )
        }
    }
}

/// A sub-parser keyword and its arguments: all on one line when that fits,
/// else the keyword (with a positional, when it has one and it fits) on a
/// line and the rest below it, one level deeper unless `flat`.
pub open spec fn layout_subparser(threshold: isize, keyword: Seq<char>, args: Seq<ArgV>, schema: FunctionSchema, width: usize, flat: bool) -> Seq<LineV>
    decreases args.len(), 3nat, 0nat,
{
    let child_width = sat_sub(width as int, blen(keyword) as int) as usize;
    let child = layout_schema_args(threshold, args, schema, false, child_width, child_width, 0);
    if child.len() == 0 {
        seq![line(0, keyword)]
    } else {
        let inline = app_all(keyword, line_texts(child));
        if !has_comment_arg(args) && all_flat(child) && blen(inline) <= width {
            seq![line(0, inline)]
        } else {
            let has_positional = schema.positional matches Some(p) && p.max > 0;
            let first_text = spaced(keyword, child[0].text);
            if has_positional && child[0].indent == 0 && blen(first_text) <= width {
                seq![line(0, first_text)] + plain(child.skip(1), !flat)
            } else {
                seq![line(0, keyword)] + plain(child, !flat)
            }
        }
    }
}

/// Layout of a command's items with a schema.
pub open spec fn layout_schema_items(threshold: isize, items: Seq<ItemV>, schema: FunctionSchema, width: usize, header_budget: usize) -> Seq<LineV> {
    let args = place_schema_comments(items, schema, width).map_values(|i: ItemV| arg_of_item(i));
    layout_schema_args(threshold, args, schema, false, width, header_budget, 0)
}

} // verus!
