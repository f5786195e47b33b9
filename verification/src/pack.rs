//! Packing the values of a keyword group into lines.
use crate::layout_spec::{
    ArgV, CondState, LineV, PackState, all_digits, app, app_all, append_to_last, argv_groups_lines, can_append_to_last, can_be_flag_value, chunk_lines, cond_from, distinct_lines, first_exp, fits, glued, greedy, greedy_from, group_command_argv, group_from, is_redirect_operator, groups_from, has_splitter, inc, is_decimal, is_float_body, is_negative_number, join, join_space, line, lines_at, pack_arg_from, pack_arg_items, pack_command_argv, pack_command_argv_items, pack_condition, pack_packed, pack_value_items, pack_values, prefix_lines, push_comment, sep, should_preserve_vertical_list, source_line_groups, spaced, starts_flag_value_pair, texts, valid_mantissa, value_after, value_indent, with_comment,
};
use crate::schema::ListType;
use crate::text::{
    blen, byte_len, chars_of, contains_char, eq_ignore_ascii_case, push_str, starts_with,
    str_eq, ends_with,
};
use vstd::prelude::*;

verus! {

/// An argument or comment of a command, as the layout sees it.
pub struct ArgItem {
    pub text: String,
    pub is_comment: bool,
    pub is_trailing_comment: bool,
    pub source_line: Option<usize>,
}

/// One output line of a command's body.
pub struct LayoutLine {
    pub indent: usize,
    pub text: String,
    pub has_comment: bool,
}

impl ArgItem {
    pub open spec fn view(&self) -> ArgV {
        ArgV {
            text: self.text@,
            is_comment: self.is_comment,
            trailing: self.is_trailing_comment,
            source_line: self.source_line,
        }
    }

    pub fn duplicate(&self) -> (r: ArgItem)
        ensures
            r.view() == self.view(),
    {
        ArgItem {
            text: self.text.clone(),
            is_comment: self.is_comment,
            is_trailing_comment: self.is_trailing_comment,
            source_line: self.source_line,
        }
    }
}

impl LayoutLine {
    pub open spec fn view(&self) -> LineV {
        LineV { indent: self.indent, text: self.text@, has_comment: self.has_comment }
    }
}

pub open spec fn strs(v: Seq<String>) -> Seq<Seq<char>> {
    v.map_values(|s: String| s@)
}

pub open spec fn lines_view(v: Seq<LayoutLine>) -> Seq<LineV> {
    v.map_values(|l: LayoutLine| l.view())
}

pub open spec fn args_view(v: Seq<ArgItem>) -> Seq<ArgV> {
    v.map_values(|a: ArgItem| a.view())
}

// ---------------------------------------------------------------------------
// Sequence plumbing
// ---------------------------------------------------------------------------
pub fn push_line(lines: &mut Vec<LayoutLine>, l: LayoutLine)
    ensures
        lines_view(final(lines)@) == lines_view(old(lines)@).push(l.view()),
{
    let ghost before = lines@;
    lines.push(l);
    assert(lines_view(lines@) =~= lines_view(before).push(l.view()));
}

pub fn extend_lines(lines: &mut Vec<LayoutLine>, more: Vec<LayoutLine>)
    ensures
        lines_view(final(lines)@) == lines_view(old(lines)@) + lines_view(more@),
{
    let ghost before = lines@;
    let ghost m = more@;
    let mut more = more;
    lines.append(&mut more);
    assert(lines_view(lines@) =~= lines_view(before) + lines_view(m));
}

pub fn new_line(indent: usize, text: String) -> (l: LayoutLine)
    ensures
        l.view() == line(indent, text@),
{
    LayoutLine { indent, text, has_comment: false }
}

pub fn clone_strings(v: &Vec<String>) -> (r: Vec<String>)
    ensures
        strs(r@) == strs(v@),
{
    let mut r: Vec<String> = Vec::new();
    let mut i: usize = 0;
    while i < v.len()
        invariant
            i <= v.len(),
            strs(r@) == strs(v@).take(i as int),
        decreases v.len() - i,
    {
        let ghost before = r@;
        r.push(v[i].clone());
        assert(strs(r@) =~= strs(before).push(v@[i as int]@));
        assert(strs(v@).take(i + 1 as int) =~= strs(v@).take(i as int).push(v@[i as int]@));
        i += 1;
    }
    assert(strs(v@).take(i as int) =~= strs(v@));
    r
}

pub fn clone_args(v: &[ArgItem]) -> (r: Vec<ArgItem>)
    ensures
        args_view(r@) == args_view(v@),
{
    let mut r: Vec<ArgItem> = Vec::new();
    let mut i: usize = 0;
    while i < v.len()
        invariant
            i <= v.len(),
            args_view(r@) == args_view(v@).take(i as int),
        decreases v.len() - i,
    {
        let ghost before = r@;
        let a = v[i].duplicate();
        r.push(a);
        assert(args_view(r@) =~= args_view(before).push(a.view()));
        assert(args_view(v@).take(i + 1 as int) =~= args_view(v@).take(i as int).push(
            v@[i as int].view(),
        ));
        i += 1;
    }
    assert(args_view(v@).take(i as int) =~= args_view(v@));
    r
}

pub fn arg_texts(v: &[ArgItem]) -> (r: Vec<String>)
    ensures
        strs(r@) == texts(args_view(v@)),
{
    let mut r: Vec<String> = Vec::new();
    let mut i: usize = 0;
    while i < v.len()
        invariant
            i <= v.len(),
            strs(r@) == texts(args_view(v@)).take(i as int),
        decreases v.len() - i,
    {
        let ghost before = r@;
        r.push(v[i].text.clone());
        assert(strs(r@) =~= strs(before).push(v@[i as int].text@));
        assert(texts(args_view(v@)).take(i + 1 as int) =~= texts(args_view(v@)).take(
            i as int,
        ).push(v@[i as int].text@));
        i += 1;
    }
    assert(texts(args_view(v@)).take(i as int) =~= texts(args_view(v@)));
    r
}

// ---------------------------------------------------------------------------
// Joining words
// ---------------------------------------------------------------------------
fn is_char_str(s: &str, c: char) -> (r: bool)
    ensures
        r == (s@ == seq![c]),
{
    let v = chars_of(s);
    let r = v.len() == 1 && v[0] == c;
    proof {
        if v.len() == 1 && v[0] == c {
            assert(s@ =~= seq![c]);
        }
    }
    r
}

pub fn is_glued(line: &str, value: &str) -> (r: bool)
    ensures
        r == glued(line@, value@),
{
    line.is_empty() || is_char_str(value, ')') || ends_with(line, '(')
}

pub fn append_value(line: &mut String, value: &str)
    ensures
        final(line)@ == app(old(line)@, value@),
{
    if !is_glued(line.as_str(), value) {
        line.push(' ');
    }
    push_str(line, value);
}

pub fn separator_width(line: &str, value: &str) -> (r: usize)
    ensures
        r == sep(line@, value@),
{
    if is_glued(line, value) {
        0
    } else {
        1
    }
}

/// `blen(a) + b + blen(c) <= width`, without overflow.
pub fn fits_in(a: &str, b: usize, c: &str, width: usize) -> (r: bool)
    ensures
        r == fits(a@, b as int, c@, width),
{
    let la = byte_len(a);
    let lc = byte_len(c);
    la <= width && b <= width - la && lc <= width - la - b
}

pub fn join_values(values: &Vec<String>) -> (r: String)
    ensures
        r@ == join(strs(values@)),
{
    app_all_exec(String::new(), values)
}

pub fn app_all_exec(start: String, values: &Vec<String>) -> (r: String)
    ensures
        r@ == app_all(start@, strs(values@)),
{
    let mut r = start;
    let mut i: usize = 0;
    while i < values.len()
        invariant
            i <= values.len(),
            r@ == app_all(start@, strs(values@).take(i as int)),
        decreases values.len() - i,
    {
        append_value(&mut r, values[i].as_str());
        proof {
            let t = strs(values@).take(i + 1 as int);
            assert(t.drop_last() =~= strs(values@).take(i as int));
            assert(t.last() == values@[i as int]@);
        }
        i += 1;
    }
    assert(strs(values@).take(i as int) =~= strs(values@));
    r
}

fn join_space_exec(values: &Vec<String>, from: usize, to: usize) -> (r: String)
    requires
        from < to <= values.len(),
    ensures
        r@ == join_space(strs(values@).subrange(from as int, to as int)),
{
    let mut r = values[from].clone();
    let mut i = from + 1;
    proof {
        assert(strs(values@).subrange(from as int, from + 1) =~= seq![values@[from as int]@]);
    }
    while i < to
        invariant
            from < i <= to <= values.len(),
            r@ == join_space(strs(values@).subrange(from as int, i as int)),
        decreases to - i,
    {
        r.push(' ');
        push_str(&mut r, values[i].as_str());
        proof {
            let t = strs(values@).subrange(from as int, i + 1);
            assert(t.drop_last() =~= strs(values@).subrange(from as int, i as int));
        }
        i += 1;
    }
    r
}

pub fn spaced_exec(a: &str, b: &str) -> (r: String)
    ensures
        r@ == spaced(a@, b@),
{
    let mut r = crate::text::owned(a);
    r.push(' ');
    push_str(&mut r, b);
    r
}

pub fn with_comment_exec(a: &str, b: &str) -> (r: String)
    ensures
        r@ == with_comment(a@, b@),
{
    let mut r = crate::text::owned(a);
    r.push(' ');
    r.push(' ');
    push_str(&mut r, b);
    assert(r@ =~= with_comment(a@, b@));
    r
}

// ---------------------------------------------------------------------------
// Comments among lines
// ---------------------------------------------------------------------------
pub fn push_comment_exec(lines: &mut Vec<LayoutLine>, indent: usize, comment: &str, trailing: bool, width: usize)
    ensures
        lines_view(final(lines)@) == push_comment(
            lines_view(old(lines)@),
            indent,
            comment@,
            trailing,
            width,
        ),
{
    let ghost before = lines_view(lines@);
    if trailing && lines.len() > 0 && !starts_with(lines[lines.len() - 1].text.as_str(), '#') {
        let last = lines.pop().unwrap();
        proof {
            assert(lines_view(lines@) =~= before.drop_last());
            assert(last.view() == before.last());
        }
        if fits_in(last.text.as_str(), 2, comment, width) {
            let text = with_comment_exec(last.text.as_str(), comment);
            push_line(lines, LayoutLine { indent: last.indent, text, has_comment: true });
        } else {
            push_line(
                lines,
                LayoutLine {
                    indent: last.indent,
                    text: crate::text::owned(comment),
                    has_comment: true,
                },
            );
            push_line(lines, last);
        }
    } else {
        push_line(
            lines,
            LayoutLine { indent, text: crate::text::owned(comment), has_comment: true },
        );
    }
}

/// Glues `text` onto the last line when it is flat, has no comment and the
/// result fits; tells whether it did.
pub fn append_to_last_flat_line(lines: &mut Vec<LayoutLine>, text: &str, width: usize) -> (r: bool)
    ensures
        r == can_append_to_last(lines_view(old(lines)@), text@, width),
        r ==> lines_view(final(lines)@) == append_to_last(lines_view(old(lines)@), text@),
        !r ==> final(lines)@ == old(lines)@,
{
    let ghost before = lines_view(lines@);
    if lines.len() == 0 {
        return false;
    }
    let n = lines.len();
    if lines[n - 1].indent != 0 || lines[n - 1].has_comment {
        return false;
    }
    let sw = separator_width(lines[n - 1].text.as_str(), text);
    if !fits_in(lines[n - 1].text.as_str(), sw, text, width) {
        return false;
    }
    let mut last = lines.pop().unwrap();
    proof {
        assert(lines_view(lines@) =~= before.drop_last());
    }
    append_value(&mut last.text, text);
    push_line(lines, last);
    true
}

// ---------------------------------------------------------------------------
// Packing values
// ---------------------------------------------------------------------------
pub fn greedy_exec(values: &Vec<String>, width: usize, indent: usize) -> (r: Vec<LayoutLine>)
    ensures
        lines_view(r@) == greedy(strs(values@), width, indent),
{
    let ghost vs = strs(values@);
    let mut lines: Vec<LayoutLine> = Vec::new();
    let mut current = String::new();
    let mut i: usize = 0;
    assert(lines_view(lines@) =~= Seq::<LineV>::empty());
    assert(current@ =~= Seq::<char>::empty());
    while i < values.len()
        invariant
            i <= values.len(),
            vs == strs(values@),
            greedy_from(vs, i as int, width, indent, lines_view(lines@), current@) == greedy(
                vs,
                width,
                indent,
            ),
        decreases values.len() - i,
    {
        let value = values[i].as_str();
        assert(vs[i as int] == value@);
        if current.as_str().is_empty() {
            current = values[i].clone();
        } else if fits_in(current.as_str(), separator_width(current.as_str(), value), value, width) {
            append_value(&mut current, value);
        } else {
            push_line(&mut lines, new_line(indent, current));
            current = values[i].clone();
        }
        i += 1;
    }
    if !current.as_str().is_empty() {
        push_line(&mut lines, new_line(indent, current));
    }
    lines
}

fn prefix_lines_exec(prefix: &Vec<String>, indent: usize) -> (r: Vec<LayoutLine>)
    ensures
        lines_view(r@) == prefix_lines(strs(prefix@), indent),
{
    let mut r: Vec<LayoutLine> = Vec::new();
    if prefix.len() > 0 {
        push_line(&mut r, new_line(indent, join_values(prefix)));
    }
    assert(lines_view(r@) =~= prefix_lines(strs(prefix@), indent));
    r
}

fn value_indent_exec(prefix: &Vec<String>, indent: usize) -> (r: usize)
    ensures
        r == value_indent(strs(prefix@), indent),
{
    if prefix.len() > 0 {
        indent.saturating_add(1)
    } else {
        indent
    }
}

fn lines_at_exec(values: &Vec<String>, from: usize, to: usize, indent: usize) -> (r: Vec<LayoutLine>)
    requires
        from <= to <= values.len(),
    ensures
        lines_view(r@) == lines_at(strs(values@).subrange(from as int, to as int), indent),
{
    let mut r: Vec<LayoutLine> = Vec::new();
    let mut i = from;
    while i < to
        invariant
            from <= i <= to <= values.len(),
            lines_view(r@) == lines_at(strs(values@).subrange(from as int, i as int), indent),
        decreases to - i,
    {
        push_line(&mut r, new_line(indent, values[i].clone()));
        assert(lines_at(strs(values@).subrange(from as int, i + 1), indent) =~= lines_at(
            strs(values@).subrange(from as int, i as int),
            indent,
        ).push(line(indent, values@[i as int]@)));
        i += 1;
    }
    r
}

proof fn lemma_chunk_lines_unfold(values: Seq<Seq<char>>, n: nat, width: usize, indent: usize, i: int)
    requires
        n > 0,
        0 <= i < values.len(),
    ensures
        ({
            let rest = values.skip(i);
            let k = if rest.len() < n {
                rest.len() as int
            } else {
                n as int
            };
            let chunk = rest.take(k);
            let joined = join_space(chunk);
            chunk_lines(rest, n, width, indent) == (if blen(joined) <= width {
                seq![line(indent, joined)]
            } else {
                seq![line(indent, chunk[0])] + lines_at(chunk.skip(1), inc(indent))
            }) + chunk_lines(values.skip(i + k), n, width, indent)
        }),
{
    let rest = values.skip(i);
    let k = if rest.len() < n {
        rest.len() as int
    } else {
        n as int
    };
    assert(rest.skip(k) =~= values.skip(i + k));
}

/// The lines of the chunk `values[i..i + k]`.
fn chunk_piece(values: &Vec<String>, i: usize, k: usize, width: usize, indent: usize) -> (r: Vec<LayoutLine>)
    requires
        0 < k,
        i + k <= values.len(),
    ensures
        ({
            let chunk = strs(values@).subrange(i as int, i + k);
            let joined = join_space(chunk);
            lines_view(r@) == (if blen(joined) <= width {
                seq![line(indent, joined)]
            } else {
                seq![line(indent, chunk[0])] + lines_at(chunk.skip(1), inc(indent))
            })
        }),
{
    let ghost chunk = strs(values@).subrange(i as int, i + k);
    let joined = join_space_exec(values, i, i + k);
    let mut r: Vec<LayoutLine> = Vec::new();
    if byte_len(joined.as_str()) <= width {
        push_line(&mut r, new_line(indent, joined));
        assert(lines_view(r@) =~= seq![line(indent, joined@)]);
    } else {
        push_line(&mut r, new_line(indent, values[i].clone()));
        let more = lines_at_exec(values, i + 1, i + k, indent.saturating_add(1));
        assert(chunk.skip(1) =~= strs(values@).subrange(i + 1, i + k));
        assert(chunk[0] == values@[i as int]@);
        let ghost first = lines_view(r@);
        assert(first =~= seq![line(indent, chunk[0])]);
        extend_lines(&mut r, more);
    }
    r
}

fn chunk_lines_exec(values: &Vec<String>, n: usize, width: usize, indent: usize) -> (r: Vec<LayoutLine>)
    requires
        n > 0,
    ensures
        lines_view(r@) == chunk_lines(strs(values@), n as nat, width, indent),
{
    let ghost vs = strs(values@);
    let mut r: Vec<LayoutLine> = Vec::new();
    let mut i: usize = 0;
    assert(vs.skip(0) =~= vs);
    assert(lines_view(r@) =~= Seq::<LineV>::empty());
    while i < values.len()
        invariant
            i <= values.len(),
            n > 0,
            vs == strs(values@),
            lines_view(r@) + chunk_lines(vs.skip(i as int), n as nat, width, indent) == chunk_lines(
                vs,
                n as nat,
                width,
                indent,
            ),
        decreases values.len() - i,
    {
        proof {
            lemma_chunk_lines_unfold(vs, n as nat, width, indent, i as int);
        }
        let k = if values.len() - i < n {
            values.len() - i
        } else {
            n
        };
        assert(vs.skip(i as int).take(k as int) =~= vs.subrange(i as int, i + k));
        let piece = chunk_piece(values, i, k, width, indent);
        let ghost before = lines_view(r@);
        extend_lines(&mut r, piece);
        proof {
            let rest = chunk_lines(vs.skip(i + k), n as nat, width, indent);
            assert(before + lines_view(piece@) + rest =~= before + (lines_view(piece@) + rest));
        }
        i = i + k;
    }
    assert(vs.skip(i as int) =~= Seq::<Seq<char>>::empty());
    assert(lines_view(r@) + Seq::<LineV>::empty() =~= lines_view(r@));
    r
}

pub fn pack_packed_exec(indent: usize, prefix: &Vec<String>, values: &Vec<String>, width: usize) -> (r: Vec<LayoutLine>)
    ensures
        lines_view(r@) == pack_packed(indent, strs(prefix@), strs(values@), width),
{
    let joined = join_values(prefix);
    let single = app_all_exec(joined, values);
    if prefix.len() > 0 && byte_len(single.as_str()) <= width {
        let mut r: Vec<LayoutLine> = Vec::new();
        push_line(&mut r, new_line(indent, single));
        return r;
    }
    let mut r = prefix_lines_exec(prefix, indent);
    let g = greedy_exec(values, width, value_indent_exec(prefix, indent));
    extend_lines(&mut r, g);
    r
}

/// A line of packed values: at `indent`, and within `width` unless it holds
/// a single value too wide by itself.
pub open spec fn packed_line_ok(l: LineV, values: Seq<Seq<char>>, width: usize, indent: usize) -> bool {
    &&& l.indent == indent
    &&& !l.has_comment
    &&& (crate::text::blen(l.text) <= width || values.contains(l.text))
}

proof fn lemma_greedy_from_lines(values: Seq<Seq<char>>, i: int, width: usize, indent: usize, lines: Seq<LineV>, current: Seq<char>)
    requires
        0 <= i <= values.len(),
        forall|j: int| 0 <= j < lines.len() ==> packed_line_ok(#[trigger] lines[j], values, width, indent),
        crate::text::blen(current) <= width || values.contains(current),
    ensures
        ({
            let r = greedy_from(values, i, width, indent, lines, current);
            forall|j: int| 0 <= j < r.len() ==> packed_line_ok(#[trigger] r[j], values, width, indent)
        }),
    decreases values.len() - i,
{
    let l = line(indent, current);
    assert forall|j: int| 0 <= j < lines.push(l).len() implies packed_line_ok(#[trigger] lines.push(l)[j], values, width, indent) by {
        if j < lines.len() {
            assert(lines.push(l)[j] == lines[j]);
        }
    }
    if i >= values.len() {
        if current.len() > 0 {
            assert(greedy_from(values, i, width, indent, lines, current) == lines.push(l));
        } else {
            assert(greedy_from(values, i, width, indent, lines, current) == lines);
        }
    } else {
        let value = values[i];
        assert(values.contains(value));
        if current.len() == 0 {
            assert(greedy_from(values, i, width, indent, lines, current) == greedy_from(values, i + 1, width, indent, lines, value));
            lemma_greedy_from_lines(values, i + 1, width, indent, lines, value);
        } else if fits(current, sep(current, value), value, width) {
            assert(greedy_from(values, i, width, indent, lines, current) == greedy_from(values, i + 1, width, indent, lines, app(current, value)));
            crate::text::lemma_blen_concat(current, value);
            crate::text::lemma_blen_concat(current, seq![' ']);
            crate::text::lemma_blen_concat(current + seq![' '], value);
            crate::text::lemma_blen_ascii(seq![' ']);
            assert(crate::text::blen(app(current, value)) <= width);
            lemma_greedy_from_lines(values, i + 1, width, indent, lines, app(current, value));
        } else {
            assert(greedy_from(values, i, width, indent, lines, current) == greedy_from(values, i + 1, width, indent, lines.push(l), value));
            lemma_greedy_from_lines(values, i + 1, width, indent, lines.push(l), value);
        }
    }
}

/// Greedy packing puts every line at `indent`, and no line goes past
/// `width` unless it holds one value that is wider by itself.
pub proof fn law_greedy_lines_fit(values: Seq<Seq<char>>, width: usize, indent: usize)
    ensures
        forall|j: int|
            0 <= j < greedy(values, width, indent).len() ==> packed_line_ok(
                #[trigger] greedy(values, width, indent)[j],
                values,
                width,
                indent,
            ),
{
    lemma_greedy_from_lines(values, 0, width, indent, Seq::empty(), Seq::empty());
}

/// Values that are written with one space between any two: none empty,
/// none a lone `)`, none ending with `(`.
pub open spec fn spaced_values(values: Seq<Seq<char>>) -> bool {
    forall|k: int|
        0 <= k < values.len() ==> (#[trigger] values[k]).len() > 0 && values[k] != seq![')']
            && !crate::text::ends_with_char(values[k], '(')
}

/// Line `j` of `lines` holds the values from `starts[j]` up to the next
/// start (`next` after the last line), joined by spaces; the value that
/// opens the next line would not have fitted after it; and a line of two
/// or more values fits within `width`.
pub open spec fn greedy_line_at(lines: Seq<LineV>, values: Seq<Seq<char>>, starts: Seq<int>, next: int, width: usize, indent: usize, j: int) -> bool {
    let nxt = if j + 1 < lines.len() {
        starts[j + 1]
    } else {
        next
    };
    &&& 0 <= starts[j] < nxt <= values.len()
    &&& lines[j] == line(indent, join_space(values.subrange(starts[j], nxt)))
    &&& (nxt < values.len() ==> blen(lines[j].text) + 1 + blen(values[nxt]) > width)
    &&& (nxt - starts[j] >= 2 ==> blen(lines[j].text) <= width)
}

proof fn lemma_join_space_step(values: Seq<Seq<char>>, a: int, i: int)
    requires
        0 <= a < i < values.len(),
    ensures
        join_space(values.subrange(a, i + 1)) == join_space(values.subrange(a, i)) + seq![' ']
            + values[i],
        values.subrange(a, i).last() == values[i - 1],
{
    assert(values.subrange(a, i + 1).drop_last() =~= values.subrange(a, i));
}

proof fn lemma_join_space_ends(values: Seq<Seq<char>>, c: char)
    requires
        values.len() > 0,
        values.last().len() > 0,
    ensures
        crate::text::ends_with_char(join_space(values), c) == crate::text::ends_with_char(
            values.last(),
            c,
        ),
{
    if values.len() > 1 {
        let j = join_space(values.drop_last()) + seq![' '];
        assert((j + values.last()).last() == values.last().last());
    }
}

proof fn lemma_greedy_shape(values: Seq<Seq<char>>, i: int, width: usize, indent: usize, lines: Seq<LineV>, current: Seq<char>, starts: Seq<int>, cur: int) -> (r: Seq<int>)
    requires
        spaced_values(values),
        0 <= cur <= i <= values.len(),
        (cur < i) == (current.len() > 0),
        cur < i ==> current == join_space(values.subrange(cur, i)),
        i - cur >= 2 ==> blen(current) <= width,
        starts.len() == lines.len(),
        lines.len() == 0 ==> cur == 0,
        lines.len() > 0 ==> cur < i && starts[0] == 0,
        forall|j: int| 0 <= j < lines.len() ==> #[trigger] greedy_line_at(lines, values, starts, cur, width, indent, j),
    ensures
        ({
            let g = greedy_from(values, i, width, indent, lines, current);
            &&& r.len() == g.len()
            &&& values.len() > 0 ==> r.len() > 0 && r[0] == 0
            &&& forall|j: int| 0 <= j < g.len() ==> #[trigger] greedy_line_at(g, values, r, values.len() as int, width, indent, j)
        }),
    decreases values.len() - i,
{
    if i >= values.len() {
        if current.len() > 0 {
            let l = line(indent, current);
            let st = starts.push(cur);
            let g = lines.push(l);
            assert forall|j: int| 0 <= j < g.len() implies #[trigger] greedy_line_at(g, values, st, values.len() as int, width, indent, j) by {
                if j < lines.len() {
                    assert(greedy_line_at(lines, values, starts, cur, width, indent, j));
                    assert(g[j] == lines[j]);
                    assert(st[j] == starts[j]);
                    if j + 1 < lines.len() {
                        assert(st[j + 1] == starts[j + 1]);
                    }
                }
            }
            st
        } else {
            assert(values.len() == 0 || lines.len() > 0 || cur == 0);
            starts
        }
    } else {
        let value = values[i];
        assert(value.len() > 0 && value != seq![')'] && !crate::text::ends_with_char(value, '('));
        if current.len() == 0 {
            assert(values.subrange(cur, i + 1) =~= seq![value]);
            lemma_greedy_shape(values, i + 1, width, indent, lines, value, starts, cur)
        } else if fits(current, sep(current, value), value, width) {
            lemma_join_space_step(values, cur, i);
            lemma_join_space_ends(values.subrange(cur, i), '(');
            assert(values.subrange(cur, i).last().len() > 0);
            assert(!glued(current, value));
            crate::text::lemma_blen_concat(current, seq![' ']);
            crate::text::lemma_blen_concat(current + seq![' '], value);
            crate::text::lemma_blen_ascii(seq![' ']);
            lemma_greedy_shape(values, i + 1, width, indent, lines, app(current, value), starts, cur)
        } else {
            lemma_join_space_ends(values.subrange(cur, i), '(');
            assert(!glued(current, value));
            let l = line(indent, current);
            let st = starts.push(cur);
            let lines2 = lines.push(l);
            assert(values.subrange(i, i + 1) =~= seq![value]);
            assert forall|j: int| 0 <= j < lines2.len() implies #[trigger] greedy_line_at(lines2, values, st, i, width, indent, j) by {
                if j < lines.len() {
                    assert(greedy_line_at(lines, values, starts, cur, width, indent, j));
                    assert(lines2[j] == lines[j]);
                    assert(st[j] == starts[j]);
                    if j + 1 < lines.len() {
                        assert(st[j + 1] == starts[j + 1]);
                    } else {
                        assert(st[j + 1] == cur);
                    }
                } else {
                    assert(lines2[j] == l);
                    assert(st[j] == cur);
                }
            }
            lemma_greedy_shape(values, i + 1, width, indent, lines2, value, st, i)
        }
    }
}

/// Greedy packing of values written with single spaces: the lines hold the
/// values in order, line `j` those from `starts[j]` up to the next start
/// (or the end), joined by single spaces; and the value that opens a line
/// would not have fitted (with its space) at the end of the line before
/// (see `greedy_line_at`).
pub proof fn law_greedy_lines(values: Seq<Seq<char>>, width: usize, indent: usize) -> (starts: Seq<int>)
    requires
        spaced_values(values),
    ensures
        starts.len() == greedy(values, width, indent).len(),
        values.len() > 0 ==> starts.len() > 0 && starts[0] == 0,
        forall|j: int|
            0 <= j < greedy(values, width, indent).len() ==> #[trigger] greedy_line_at(
                greedy(values, width, indent),
                values,
                starts,
                values.len() as int,
                width,
                indent,
                j,
            ),
{
    lemma_greedy_shape(values, 0, width, indent, Seq::empty(), Seq::empty(), Seq::empty(), 0)
}

proof fn lemma_app_all_spaced(start: Seq<Seq<char>>, vs: Seq<Seq<char>>)
    requires
        spaced_values(start + vs),
    ensures
        app_all(join_space(start), vs) == join_space(start + vs),
    decreases vs.len(),
{
    if vs.len() == 0 {
        assert(start + vs =~= start);
    } else {
        let s2 = start + vs.drop_last();
        assert(spaced_values(s2)) by {
            assert forall|k: int| 0 <= k < s2.len() implies (#[trigger] s2[k]).len() > 0 && s2[k] != seq![')']
                && !crate::text::ends_with_char(s2[k], '(') by {
                assert(s2[k] == (start + vs)[k]);
            }
        }
        assert(s2 =~= start + vs.drop_last());
        lemma_app_all_spaced(start, vs.drop_last());
        let last = vs.last();
        assert(last == (start + vs)[(start + vs).len() - 1]);
        assert(s2.push(last) =~= start + vs);
        if s2.len() > 0 {
            assert(s2.last() == (start + vs)[s2.len() - 1]);
            lemma_join_space_ends(s2, '(');
            assert(!glued(join_space(s2), last));
            assert(s2.push(last).drop_last() =~= s2);
        } else {
            assert(s2.push(last) =~= seq![last]);
        }
    }
}

/// The packed layout of values written with single spaces: the prefix and
/// the values on one line, joined by spaces, when there is a prefix and it
/// fits; else the prefix joined by spaces on its own line (when there is
/// one) and the values packed greedily below it, one level deeper.
pub proof fn law_pack_packed_spaced(indent: usize, prefix: Seq<Seq<char>>, values: Seq<Seq<char>>, width: usize)
    requires
        spaced_values(prefix + values),
    ensures
        pack_packed(indent, prefix, values, width) == if prefix.len() > 0 && blen(
            join_space(prefix + values),
        ) <= width {
            seq![line(indent, join_space(prefix + values))]
        } else {
            (if prefix.len() > 0 {
                seq![line(indent, join_space(prefix))]
            } else {
                Seq::empty()
            }) + greedy(values, width, value_indent(prefix, indent))
        },
{
    assert(spaced_values(prefix)) by {
        assert forall|k: int| 0 <= k < prefix.len() implies (#[trigger] prefix[k]).len() > 0 && prefix[k] != seq![')']
            && !crate::text::ends_with_char(prefix[k], '(') by {
            assert(prefix[k] == (prefix + values)[k]);
        }
    }
    let e = Seq::<Seq<char>>::empty();
    assert(e + prefix =~= prefix);
    assert(join_space(e) == Seq::<char>::empty());
    lemma_app_all_spaced(e, prefix);
    lemma_app_all_spaced(prefix, values);
}

/// The packed layout of a keyword's list, for values written with single
/// spaces: with a prefix, everything on one line (joined by spaces) when it
/// fits; else the prefix joined by spaces on its own line (when there is
/// one) and the values below it, one level deeper when there is a prefix,
/// packed greedily: line `j` holds the values from `starts[j]` up to the
/// next start, joined by spaces; a line goes past `width` only when it
/// holds one value wider by itself; and the value that opens a line would
/// not have fitted at the end of the line before.
pub proof fn law_pack_values_packed(indent: usize, prefix: Seq<Seq<char>>, values: Seq<Seq<char>>, width: usize) -> (starts: Seq<int>)
    requires
        spaced_values(prefix + values),
    ensures
        ({
            let r = pack_values(indent, prefix, values, width, ListType::Packed);
            let vi = value_indent(prefix, indent);
            let b = greedy(values, width, vi);
            if prefix.len() > 0 && blen(join_space(prefix + values)) <= width {
                r == seq![line(indent, join_space(prefix + values))]
            } else {
                &&& r == (if prefix.len() > 0 {
                    seq![line(indent, join_space(prefix))]
                } else {
                    Seq::empty()
                }) + b
                &&& starts.len() == b.len()
                &&& values.len() > 0 ==> starts.len() > 0 && starts[0] == 0
                &&& forall|j: int| 0 <= j < b.len() ==> #[trigger] greedy_line_at(b, values, starts, values.len() as int, width, vi, j)
                &&& forall|j: int| 0 <= j < b.len() ==> packed_line_ok(#[trigger] b[j], values, width, vi)
            }
        }),
{
    law_pack_packed_spaced(indent, prefix, values, width);
    let vi = value_indent(prefix, indent);
    assert(spaced_values(values)) by {
        assert forall|k: int| 0 <= k < values.len() implies (#[trigger] values[k]).len() > 0 && values[k] != seq![')']
            && !crate::text::ends_with_char(values[k], '(') by {
            assert(values[k] == (prefix + values)[prefix.len() + k]);
        }
    }
    if prefix.len() == 0 && values.len() == 0 {
        assert(greedy(values, width, vi) =~= Seq::<LineV>::empty());
    }
    law_greedy_lines_fit(values, width, vi);
    law_greedy_lines(values, width, vi)
}

/// An `n_per_line` list (with `n` above 1) whose number of values is not a
/// multiple of `n`: the layout falls back to `packed` for it, and this is the
/// condition a diagnostic reports.
pub open spec fn misaligned_n_per_line(list_type: ListType, count: nat) -> bool {
    list_type is NPerLine && list_type->n > 1 && count % (list_type->n as nat) != 0
}

/// Whether a list of `count` values laid out as `list_type` is a malformed
/// `n_per_line` list, to be reported.
pub fn is_misaligned_n_per_line(list_type: ListType, count: usize) -> (r: bool)
    ensures
        r == misaligned_n_per_line(list_type, count as nat),
{
    match list_type {
        ListType::NPerLine { n } => n > 1 && count % (n as usize) != 0,
        _ => false,
    }
}

proof fn lemma_chunks_fit(values: Seq<Seq<char>>, n: nat, width: usize, indent: usize, m: nat)
    requires
        n >= 1,
        values.len() == m * n,
        forall|g: int|
            0 <= g < m ==> blen(join_space(#[trigger] values.subrange(g * n, g * n + n))) <= width,
    ensures
        chunk_lines(values, n, width, indent).len() == m,
        forall|g: int|
            0 <= g < m ==> #[trigger] chunk_lines(values, n, width, indent)[g] == line(
                indent,
                join_space(values.subrange(g * n, g * n + n)),
            ),
    decreases m,
{
    if m > 0 {
        assert(values.len() >= n) by (nonlinear_arith)
            requires
                values.len() == m * n,
                m >= 1,
        ;
        let rest = values.skip(n as int);
        assert(rest.len() == (m - 1) * n) by (nonlinear_arith)
            requires
                rest.len() == values.len() - n,
                values.len() == m * n,
        ;
        assert forall|g: int| 0 <= g < m - 1 implies blen(join_space(#[trigger] rest.subrange(g * n, g * n + n))) <= width by {
            assert((g + 1) * n == g * n + n) by (nonlinear_arith);
            assert(0 <= g * n && g * n + n + n <= m * n) by (nonlinear_arith)
                requires
                    0 <= g < m - 1,
                    n >= 1,
            ;
            assert(rest.subrange(g * n, g * n + n) =~= values.subrange((g + 1) * n, (g + 1) * n + n));
        }
        lemma_chunks_fit(rest, n, width, indent, (m - 1) as nat);
        assert(0int * n == 0) by (nonlinear_arith);
        assert(values.take(n as int) =~= values.subrange(0int * n, 0int * n + n));
        let r = chunk_lines(values, n, width, indent);
        assert forall|g: int| 0 <= g < m implies #[trigger] r[g] == line(
            indent,
            join_space(values.subrange(g * n, g * n + n)),
        ) by {
            if g > 0 {
                assert((g - 1) * n + n == g * n) by (nonlinear_arith);
                assert(0 <= (g - 1) * n && g * n + n <= m * n) by (nonlinear_arith)
                    requires
                        1 <= g < m,
                        n >= 1,
                ;
                assert(rest.subrange((g - 1) * n, (g - 1) * n + n) =~= values.subrange(g * n, g * n + n));
                assert(r[g] == chunk_lines(rest, n, width, indent)[g - 1]);
            }
        }
    }
}

/// An `n_per_line` list whose values form whole groups of `n`, each group
/// fitting within the width, is laid out one group per line, the values of
/// a group joined by single spaces, below the prefix line (when there is
/// a prefix).
pub proof fn law_n_per_line_groups(indent: usize, prefix: Seq<Seq<char>>, values: Seq<Seq<char>>, width: usize, n: u8, m: nat)
    requires
        n >= 2,
        values.len() == m * n,
        m >= 1,
        forall|g: int|
            0 <= g < m ==> blen(join_space(#[trigger] values.subrange(g * n, g * n + n))) <= width,
    ensures
        ({
            let r = pack_values(indent, prefix, values, width, ListType::NPerLine { n });
            let h = prefix_lines(prefix, indent).len();
            &&& r.len() == h + m
            &&& r.subrange(0, h as int) == prefix_lines(prefix, indent)
            &&& forall|g: int|
                0 <= g < m ==> #[trigger] r[h + g] == line(
                    value_indent(prefix, indent),
                    join_space(values.subrange(g * n, g * n + n)),
                )
        }),
{
    assert(values.len() > 0) by (nonlinear_arith)
        requires
            values.len() == m * n,
            m >= 1,
            n >= 2,
    ;
    assert((values.len() as int) % (n as int) == 0) by (nonlinear_arith)
        requires
            values.len() == m * n,
            n >= 2,
    ;
    lemma_chunks_fit(values, n as nat, width, value_indent(prefix, indent), m);
    let r = pack_values(indent, prefix, values, width, ListType::NPerLine { n });
    let h = prefix_lines(prefix, indent).len();
    assert(r.subrange(0, h as int) =~= prefix_lines(prefix, indent));
}

/// A `path` list of two or more values puts each value on a line of its
/// own, in order, below the prefix line (when there is a prefix), one level
/// deeper when there is one.
pub proof fn law_path_one_per_line(indent: usize, prefix: Seq<Seq<char>>, values: Seq<Seq<char>>, width: usize)
    requires
        values.len() >= 2,
    ensures
        ({
            let r = pack_values(indent, prefix, values, width, ListType::Path);
            let h = prefix_lines(prefix, indent).len();
            &&& r.len() == h + values.len()
            &&& r.subrange(0, h as int) == prefix_lines(prefix, indent)
            &&& forall|k: int| 0 <= k < values.len() ==> #[trigger] r[h + k] == line(value_indent(prefix, indent), values[k])
        }),
{
    let r = pack_values(indent, prefix, values, width, ListType::Path);
    let h = prefix_lines(prefix, indent).len();
    assert(r.subrange(0, h as int) =~= prefix_lines(prefix, indent));
}

/// A malformed `n_per_line` list is laid out as a packed one.
pub proof fn law_misaligned_n_per_line_packs(indent: usize, prefix: Seq<Seq<char>>, values: Seq<Seq<char>>, width: usize, list_type: ListType)
    requires
        misaligned_n_per_line(list_type, values.len()),
    ensures
        pack_values(indent, prefix, values, width, list_type) == pack_packed(indent, prefix, values, width),
{
}

pub fn pack_values_exec(indent: usize, prefix: &Vec<String>, values: &Vec<String>, width: usize, list_type: ListType) -> (r: Vec<LayoutLine>)
    ensures
        lines_view(r@) == pack_values(indent, strs(prefix@), strs(values@), width, list_type),
{
    if prefix.len() == 0 && values.len() == 0 {
        return Vec::new();
    }
    if list_type == ListType::Condition {
        return pack_condition_exec(indent, prefix, values, width);
    }
    if list_type == ListType::CommandArgv {
        return pack_command_argv_exec(indent, prefix, values, width);
    }
    if list_type == ListType::Path && values.len() == 1 && prefix.len() > 0 {
        let joined = join_values(prefix);
        if fits_in(
            joined.as_str(),
            separator_width(joined.as_str(), values[0].as_str()),
            values[0].as_str(),
            width,
        ) {
            let mut text = joined;
            append_value(&mut text, values[0].as_str());
            let mut r: Vec<LayoutLine> = Vec::new();
            push_line(&mut r, new_line(indent, text));
            return r;
        }
    }
    if list_type == ListType::Path && values.len() > 0 {
        let mut r = prefix_lines_exec(prefix, indent);
        let more = lines_at_exec(values, 0, values.len(), value_indent_exec(prefix, indent));
        assert(strs(values@).subrange(0, values.len() as int) =~= strs(values@));
        extend_lines(&mut r, more);
        return r;
    }
    if let ListType::NPerLine { n } = list_type {
        let n = n as usize;
        if n <= 1 || values.len() == 0 {
            let mut r = prefix_lines_exec(prefix, indent);
            let more = lines_at_exec(values, 0, values.len(), value_indent_exec(prefix, indent));
            assert(strs(values@).subrange(0, values.len() as int) =~= strs(values@));
            extend_lines(&mut r, more);
            return r;
        }
        if values.len() % n == 0 {
            let mut r = prefix_lines_exec(prefix, indent);
            let more = chunk_lines_exec(values, n, width, value_indent_exec(prefix, indent));
            extend_lines(&mut r, more);
            return r;
        }
    }
    pack_packed_exec(indent, prefix, values, width)
}

// ---------------------------------------------------------------------------
// Command lines
// ---------------------------------------------------------------------------
fn all_digits_exec(v: &Vec<char>, from: usize, to: usize) -> (r: bool)
    requires
        from <= to <= v.len(),
    ensures
        r == all_digits(v@.subrange(from as int, to as int)),
{
    let mut i = from;
    while i < to
        invariant
            from <= i <= to <= v.len(),
            forall|j: int| from <= j < i ==> crate::text::is_ascii_digit(v@[j]),
        decreases to - i,
    {
        if !('0' <= v[i] && v[i] <= '9') {
            assert(!crate::text::is_ascii_digit(v@.subrange(from as int, to as int)[i - from]));
            return false;
        }
        i += 1;
    }
    assert forall|j: int| 0 <= j < to - from implies crate::text::is_ascii_digit(
        v@.subrange(from as int, to as int)[j],
    ) by {
        assert(v@.subrange(from as int, to as int)[j] == v@[from + j]);
    }
    true
}

fn valid_mantissa_exec(v: &Vec<char>, from: usize, to: usize) -> (r: bool)
    requires
        from <= to <= v.len(),
    ensures
        r == valid_mantissa(v@.subrange(from as int, to as int)),
{
    let ghost s = v@.subrange(from as int, to as int);
    let mut i = from;
    let mut dot = false;
    let mut digit = false;
    while i < to
        invariant
            from <= i <= to <= v.len(),
            s == v@.subrange(from as int, to as int),
            forall|j: int| 0 <= j < i - from ==> crate::text::is_ascii_digit(s[j]) || s[j] == '.',
            forall|a: int, b: int| 0 <= a < b < i - from && s[a] == '.' ==> s[b] != '.',
            dot == (exists|j: int| 0 <= j < i - from && s[j] == '.'),
            digit == (exists|j: int| 0 <= j < i - from && crate::text::is_ascii_digit(s[j])),
        decreases to - i,
    {
        let c = v[i];
        assert(s[i - from] == c);
        if '0' <= c && c <= '9' {
            digit = true;
        } else if c == '.' {
            if dot {
                let ghost a = choose|j: int| 0 <= j < i - from && s[j] == '.';
                assert(s[a] == '.' && s[i - from] == '.');
                return false;
            }
            dot = true;
        } else {
            return false;
        }
        i += 1;
    }
    digit
}

fn first_exp_exec(v: &Vec<char>, from: usize) -> (r: Option<usize>)
    requires
        from <= v.len(),
    ensures
        r matches Some(k) ==> first_exp(v@.skip(from as int), 0) == Some(k - from) && from <= k
            < v.len(),
        r is None ==> first_exp(v@.skip(from as int), 0) is None,
{
    let ghost s = v@.skip(from as int);
    let mut i = from;
    while i < v.len()
        invariant
            from <= i <= v.len(),
            s == v@.skip(from as int),
            first_exp(s, (i - from) as int) == first_exp(s, 0),
        decreases v.len() - i,
    {
        assert(s[i - from] == v@[i as int]);
        if v[i] == 'e' || v[i] == 'E' {
            return Some(i);
        }
        i += 1;
    }
    None
}

/// Whether `v[from..]` is a decimal number (`f64::from_str` syntax, no sign).
fn is_decimal_exec(v: &Vec<char>, from: usize) -> (r: bool)
    requires
        from <= v.len(),
    ensures
        r == is_decimal(v@.skip(from as int)),
{
    let ghost s = v@.skip(from as int);
    match first_exp_exec(v, from) {
        None => {
            assert(v@.subrange(from as int, v.len() as int) =~= s);
            valid_mantissa_exec(v, from, v.len())
        },
        Some(k) => {
            assert(v@.subrange(from as int, k as int) =~= s.take(k - from));
            let m = valid_mantissa_exec(v, from, k);
            let ghost e = s.skip(k - from + 1);
            assert(e =~= v@.subrange(k + 1, v.len() as int));
            let mut p = k + 1;
            if p < v.len() && (v[p] == '+' || v[p] == '-') {
                p += 1;
                assert(e.drop_first() =~= v@.subrange(p as int, v.len() as int));
            }
            let d = p < v.len() && all_digits_exec(v, p, v.len());
            m && d
        },
    }
}

fn is_float_body_exec(s: &str) -> (r: bool)
    ensures
        r == is_float_body(s@),
{
    let v = chars_of(s);
    assert(v@.skip(0) =~= s@);
    eq_ignore_ascii_case(s, "inf") || eq_ignore_ascii_case(s, "infinity") || eq_ignore_ascii_case(
        s,
        "nan",
    ) || is_decimal_exec(&v, 0)
}

fn is_negative_number_exec(v: &str) -> (r: bool)
    ensures
        r == is_negative_number(v@),
{
    if !starts_with(v, '-') || is_char_str(v, '-') {
        return false;
    }
    let cs = chars_of(v);
    let rest = crate::text::string_of_range(&cs, 1, cs.len());
    assert(rest@ =~= v@.drop_first());
    is_float_body_exec(rest.as_str())
}

fn starts_flag_value_pair_exec(v: &str) -> (r: bool)
    ensures
        r == starts_flag_value_pair(v@),
{
    proof {
        reveal_strlit("--");
        assert("--"@ =~= seq!['-', '-']);
    }
    starts_with(v, '-') && !is_char_str(v, '-') && !str_eq(v, "--") && !contains_char(v, '=')
}

fn is_redirect_operator_exec(v: &str) -> (r: bool)
    ensures
        r == is_redirect_operator(v@),
{
    let c = chars_of(v);
    let n = c.len();
    (n == 1 && (c[0] == '<' || c[0] == '>')) || (n == 2 && c[1] == '>' && (c[0] == '>' || c[0]
        == '1' || c[0] == '2' || c[0] == '&')) || (n == 3 && c[1] == '>' && c[2] == '>' && (c[0]
        == '1' || c[0] == '2' || c[0] == '&'))
}

fn can_be_flag_value_exec(v: &str) -> (r: bool)
    ensures
        r == can_be_flag_value(v@),
{
    (!starts_with(v, '-') || is_char_str(v, '-') || is_negative_number_exec(v))
        && !is_redirect_operator_exec(v)
}

pub fn group_command_argv_exec(values: &Vec<String>) -> (r: Vec<String>)
    ensures
        strs(r@) == group_command_argv(strs(values@)),
{
    let ghost vs = strs(values@);
    let mut grouped: Vec<String> = Vec::new();
    let mut after_separator = false;
    let mut i: usize = 0;
    proof {
        reveal_strlit("--");
        assert("--"@ =~= seq!['-', '-']);
    }
    while i < values.len()
        invariant
            i <= values.len(),
            vs == strs(values@),
            strs(grouped@) + group_from(vs, i as int, after_separator) == group_command_argv(vs),
        decreases values.len() - i,
    {
        let v = values[i].as_str();
        assert(vs[i as int] == v@);
        proof {
            reveal_strlit("--");
            assert("--"@ =~= seq!['-', '-']);
        }
        let ghost before = strs(grouped@);
        let ghost old_i = i as int;
        let ghost old_after = after_separator;
        let piece: String;
        if str_eq(v, "--") {
            after_separator = true;
            piece = values[i].clone();
            i += 1;
        } else if is_redirect_operator_exec(v) && i + 1 < values.len() {
            assert(vs[i + 1] == values@[i + 1]@);
            piece = spaced_exec(v, values[i + 1].as_str());
            i += 2;
        } else if !after_separator && starts_flag_value_pair_exec(v) && i + 1 < values.len()
            && can_be_flag_value_exec(values[i + 1].as_str()) {
            assert(vs[i + 1] == values@[i + 1]@);
            piece = spaced_exec(v, values[i + 1].as_str());
            i += 2;
        } else {
            piece = values[i].clone();
            i += 1;
        }
        proof {
            assert(group_from(vs, old_i, old_after) == seq![piece@] + group_from(
                vs,
                i as int,
                after_separator,
            ));
        }
        grouped.push(piece);
        proof {
            assert(strs(grouped@) =~= before.push(piece@));
            assert(before.push(piece@) + group_from(vs, i as int, after_separator) =~= before + (
            seq![piece@] + group_from(vs, i as int, after_separator)));
        }
    }
    assert(strs(grouped@) + Seq::<Seq<char>>::empty() =~= strs(grouped@));
    grouped
}

pub fn pack_command_argv_exec(indent: usize, prefix: &Vec<String>, values: &Vec<String>, width: usize) -> (r: Vec<LayoutLine>)
    ensures
        lines_view(r@) == pack_command_argv(indent, strs(prefix@), strs(values@), width),
{
    let grouped = group_command_argv_exec(values);
    if prefix.len() == 0 {
        return greedy_exec(&grouped, width, indent);
    }
    let single = app_all_exec(join_values(prefix), &grouped);
    if byte_len(single.as_str()) <= width {
        let mut r: Vec<LayoutLine> = Vec::new();
        push_line(&mut r, new_line(indent, single));
        return r;
    }
    let mut r: Vec<LayoutLine> = Vec::new();
    push_line(&mut r, new_line(indent, join_values(prefix)));
    let g = greedy_exec(&grouped, width, indent.saturating_add(1));
    extend_lines(&mut r, g);
    r
}

/// `AND` or `OR`.
pub open spec fn is_and_or(v: Seq<char>) -> bool {
    v == "AND"@ || v == "OR"@
}

/// Line `j` of a condition holds the values from `starts[j]` up to the next
/// start (`next` after the last line), joined as `app` joins them; the first
/// line begins with the prefix.
pub open spec fn cond_line_ok(lines: Seq<LineV>, values: Seq<Seq<char>>, prefix: Seq<Seq<char>>, starts: Seq<int>, next: int, j: int) -> bool {
    let nxt = if j + 1 < lines.len() {
        starts[j + 1]
    } else {
        next
    };
    &&& 0 <= starts[j] <= nxt <= values.len()
    &&& lines[j].text == app_all(
        if j == 0 {
            join(prefix)
        } else {
            Seq::empty()
        },
        values.subrange(starts[j], nxt),
    )
}

proof fn lemma_app_len(line: Seq<char>, value: Seq<char>)
    ensures
        app(line, value).len() >= line.len() + value.len(),
{
}

proof fn lemma_app_all_nonempty(h: Seq<char>, vs: Seq<Seq<char>>)
    requires
        h.len() > 0 || (vs.len() > 0 && vs.last().len() > 0),
    ensures
        app_all(h, vs).len() > 0,
    decreases vs.len(),
{
    if vs.len() > 0 {
        lemma_app_len(app_all(h, vs.drop_last()), vs.last());
        if h.len() > 0 {
            lemma_app_all_nonempty(h, vs.drop_last());
        }
    }
}

/// The loop of the condition layout, with the starts of its lines.
proof fn lemma_cond_shape(indent: usize, width: usize, prefix: Seq<Seq<char>>, values: Seq<Seq<char>>, i: int, st: CondState, starts: Seq<int>, cur: int) -> (r: (Seq<int>, int))
    requires
        forall|k: int| 0 <= k < values.len() ==> (#[trigger] values[k]).len() > 0,
        0 <= cur <= i <= values.len(),
        starts.len() == st.lines.len(),
        st.lines.len() == 0 ==> cur == 0,
        st.lines.len() > 0 ==> starts[0] == 0,
        forall|a: int, b: int| 0 <= a < b < starts.len() ==> starts[a] <= starts[b],
        forall|a: int| 0 <= a < starts.len() ==> starts[a] <= cur,
        forall|j: int| 0 <= j < st.lines.len() ==> #[trigger] cond_line_ok(st.lines, values, prefix, starts, cur, j),
        st.current == app_all(
            if st.lines.len() == 0 {
                join(prefix)
            } else {
                Seq::empty()
            },
            values.subrange(cur, i),
        ),
        (st.lines.len() > 0 ==> cur < i),
        forall|k: int|
            0 <= k < i && is_and_or(#[trigger] values[k]) && (k > 0 || join(prefix).len() > 0) ==> (exists|j: int|
                1 <= j < starts.len() && starts[j] == k) || (k == cur && st.lines.len() >= 1),
    ensures
        ({
            let f = cond_from(indent, width, values, i, st);
            let (st2, cur2) = r;
            &&& 0 <= cur2 <= values.len()
            &&& st2.len() == f.lines.len()
            &&& f.lines.len() == 0 ==> cur2 == 0
            &&& f.lines.len() > 0 ==> st2[0] == 0 && cur2 < values.len()
            &&& forall|a: int, b: int| 0 <= a < b < st2.len() ==> st2[a] <= st2[b]
            &&& forall|a: int| 0 <= a < st2.len() ==> st2[a] <= cur2
            &&& forall|j: int| 0 <= j < f.lines.len() ==> #[trigger] cond_line_ok(f.lines, values, prefix, st2, cur2, j)
            &&& f.current == app_all(
                if f.lines.len() == 0 {
                    join(prefix)
                } else {
                    Seq::empty()
                },
                values.subrange(cur2, values.len() as int),
            )
            &&& forall|k: int|
                0 <= k < values.len() && is_and_or(#[trigger] values[k]) && (k > 0 || join(prefix).len() > 0)
                    ==> (exists|j: int| 1 <= j < st2.len() && st2[j] == k) || (k == cur2 && f.lines.len() >= 1)
        }),
    decreases values.len() - i,
{
    if i >= values.len() {
        (starts, cur)
    } else {
        let value = values[i];
        let head = if st.lines.len() == 0 {
            join(prefix)
        } else {
            Seq::<char>::empty()
        };
        assert(values.subrange(cur, i + 1).drop_last() =~= values.subrange(cur, i));
        assert(values.subrange(cur, i + 1).last() == value);
        let st2 = crate::layout_spec::cond_step(indent, width, st, value);
        let is_op = value == "AND"@ || value == "OR"@;
        let brk = (is_op && st.current.len() > 0) || (st.current.len() > 0 && !fits(
            st.current,
            sep(st.current, value),
            value,
            width,
        ));
        if cur < i {
            assert(values.subrange(cur, i).last() == values[i - 1]);
            lemma_app_all_nonempty(head, values.subrange(cur, i));
        }
        if brk {
            let starts2 = starts.push(cur);
            assert(values.subrange(i, i + 1) =~= seq![value]);
            assert(values.subrange(i, i + 1).drop_last() =~= Seq::<Seq<char>>::empty());
            assert(app_all(Seq::<char>::empty(), Seq::<Seq<char>>::empty()) == Seq::<char>::empty());
            assert(app(Seq::<char>::empty(), value) =~= value);
            assert(st2.current == app_all(Seq::empty(), values.subrange(i, i + 1)));
            assert forall|j: int| 0 <= j < st2.lines.len() implies #[trigger] cond_line_ok(st2.lines, values, prefix, starts2, i, j) by {
                if j < st.lines.len() {
                    assert(cond_line_ok(st.lines, values, prefix, starts, cur, j));
                    assert(st2.lines[j] == st.lines[j]);
                    assert(starts2[j] == starts[j]);
                    if j + 1 < st.lines.len() {
                        assert(starts2[j + 1] == starts[j + 1]);
                    }
                } else {
                    assert(starts2[j] == cur);
                }
            }
            assert forall|k: int|
                0 <= k < i + 1 && is_and_or(#[trigger] values[k]) && (k > 0 || join(prefix).len() > 0) implies (exists|j: int|
                    1 <= j < starts2.len() && starts2[j] == k) || (k == i && st2.lines.len() >= 1) by {
                if k < i {
                    if exists|j: int| 1 <= j < starts.len() && starts[j] == k {
                        let j = choose|j: int| 1 <= j < starts.len() && starts[j] == k;
                        assert(starts2[j] == k);
                    } else {
                        assert(k == cur && st.lines.len() >= 1);
                        assert(starts2[starts.len() as int] == k);
                    }
                }
            }
            lemma_cond_shape(indent, width, prefix, values, i + 1, st2, starts2, i)
        } else {
            if is_op && (i > 0 || join(prefix).len() > 0) {
                assert(st.current.len() == 0);
                if cur < i {
                    assert(false);
                }
                if st.lines.len() > 0 {
                    assert(false);
                }
                assert(false);
            }
            lemma_cond_shape(indent, width, prefix, values, i + 1, st2, starts, cur)
        }
    }
}

/// The condition layout breaks the line before every `AND` and `OR`: its
/// lines hold the values in order, line `j` those from `starts[j]` up to the
/// next start (the first line after the prefix), and every `AND` or `OR`
/// value, except one that is the very first word, opens a line of its own.
pub proof fn law_condition_breaks_before_operators(indent: usize, prefix: Seq<Seq<char>>, values: Seq<Seq<char>>, width: usize) -> (starts: Seq<int>)
    requires
        forall|k: int| 0 <= k < values.len() ==> (#[trigger] values[k]).len() > 0,
    ensures
        starts.len() == pack_condition(indent, prefix, values, width).len(),
        pack_condition(indent, prefix, values, width).len() > 0 ==> starts[0] == 0,
        forall|a: int, b: int| 0 <= a < b < starts.len() ==> starts[a] <= starts[b],
        forall|j: int|
            0 <= j < pack_condition(indent, prefix, values, width).len() ==> #[trigger] cond_line_ok(
                pack_condition(indent, prefix, values, width),
                values,
                prefix,
                starts,
                values.len() as int,
                j,
            ),
        forall|k: int|
            0 <= k < values.len() && is_and_or(#[trigger] values[k]) && (k > 0 || join(prefix).len() > 0)
                ==> exists|j: int| 1 <= j < starts.len() && starts[j] == k,
{
    let st0 = CondState { lines: Seq::empty(), current: join(prefix), current_indent: indent, depth: 0 };
    assert(values.subrange(0, 0) =~= Seq::<Seq<char>>::empty());
    let (st, cur) = lemma_cond_shape(indent, width, prefix, values, 0, st0, Seq::empty(), 0);
    let f = cond_from(indent, width, values, 0, st0);
    let r = pack_condition(indent, prefix, values, width);
    if f.current.len() > 0 {
        let starts = st.push(cur);
        assert forall|j: int| 0 <= j < r.len() implies #[trigger] cond_line_ok(r, values, prefix, starts, values.len() as int, j) by {
            if j < f.lines.len() {
                assert(cond_line_ok(f.lines, values, prefix, st, cur, j));
                assert(r[j] == f.lines[j]);
                assert(starts[j] == st[j]);
                if j + 1 < f.lines.len() {
                    assert(starts[j + 1] == st[j + 1]);
                }
            } else {
                assert(starts[j] == cur);
            }
        }
        assert forall|k: int|
            0 <= k < values.len() && is_and_or(#[trigger] values[k]) && (k > 0 || join(prefix).len() > 0) implies exists|j: int|
                1 <= j < starts.len() && starts[j] == k by {
            if exists|j: int| 1 <= j < st.len() && st[j] == k {
                let j = choose|j: int| 1 <= j < st.len() && st[j] == k;
                assert(starts[j] == k);
            } else {
                assert(starts[st.len() as int] == k);
            }
        }
        starts
    } else {
        if cur < values.len() {
            assert(values.subrange(cur, values.len() as int).last() == values[values.len() - 1]);
            lemma_app_all_nonempty(Seq::empty(), values.subrange(cur, values.len() as int));
            if f.lines.len() == 0 {
                lemma_app_all_nonempty(join(prefix), values.subrange(cur, values.len() as int));
            }
        }
        assert forall|k: int|
            0 <= k < values.len() && is_and_or(#[trigger] values[k]) && (k > 0 || join(prefix).len() > 0) implies exists|j: int|
                1 <= j < st.len() && st[j] == k by {
        }
        st
    }
}

// ---------------------------------------------------------------------------
// Conditions
// ---------------------------------------------------------------------------
pub fn pack_condition_exec(indent: usize, prefix: &Vec<String>, values: &Vec<String>, width: usize) -> (r: Vec<LayoutLine>)
    ensures
        lines_view(r@) == pack_condition(indent, strs(prefix@), strs(values@), width),
{
    let ghost vs = strs(values@);
    let mut lines: Vec<LayoutLine> = Vec::new();
    let mut current = join_values(prefix);
    let mut current_indent = indent;
    let mut depth: usize = 0;
    let ghost start = CondState {
        lines: Seq::empty(),
        current: join(strs(prefix@)),
        current_indent: indent,
        depth: 0,
    };
    let mut i: usize = 0;
    assert(lines_view(lines@) =~= Seq::<LineV>::empty());
    while i < values.len()
        invariant
            i <= values.len(),
            depth <= i,
            vs == strs(values@),
            cond_from(
                indent,
                width,
                vs,
                i as int,
                CondState { lines: lines_view(lines@), current: current@, current_indent, depth },
            ) == cond_from(indent, width, vs, 0, start),
        decreases values.len() - i,
    {
        let value = values[i].as_str();
        assert(vs[i as int] == value@);
        let is_op = str_eq(value, "AND") || str_eq(value, "OR");
        if is_char_str(value, ')') && depth > 0 {
            depth -= 1;
        }
        let break_before = is_op && !current.as_str().is_empty();
        let sw = separator_width(current.as_str(), value);
        if break_before || (!current.as_str().is_empty() && !fits_in(
            current.as_str(),
            sw,
            value,
            width,
        )) {
            push_line(&mut lines, new_line(current_indent, current));
            current = String::new();
            current_indent = indent.saturating_add(depth).saturating_add(
                if is_op {
                    0
                } else {
                    1
                },
            );
        }
        if current.as_str().is_empty() {
            current = values[i].clone();
        } else {
            append_value(&mut current, value);
        }
        if is_char_str(value, '(') {
            depth += 1;
        }
        i += 1;
    }
    if !current.as_str().is_empty() {
        push_line(&mut lines, new_line(current_indent, current));
    }
    lines
}

// ---------------------------------------------------------------------------
// Values from source arguments
// ---------------------------------------------------------------------------
proof fn lemma_distinct_prefix(a: Seq<ArgV>, j: int, k: int)
    requires
        0 <= j <= k,
        distinct_lines(a, k),
    ensures
        distinct_lines(a, j),
    decreases k - j,
{
    if j < k {
        lemma_distinct_prefix(a, j, k - 1);
    }
}

pub fn should_preserve_vertical_list_exec(threshold: isize, items: &[ArgItem], list_type: ListType, consumed: usize) -> (r: bool)
    ensures
        r == should_preserve_vertical_list(threshold, args_view(items@), list_type, consumed),
{
    let ghost a = args_view(items@);
    if list_type == ListType::CommandArgv || list_type == ListType::Condition || items.len() == 0 {
        return false;
    }
    if threshold < 0 {
        return false;
    }
    if threshold == 0 {
        return true;
    }
    let t = threshold as usize;
    let s = t.saturating_sub(consumed);
    let adjusted = if s >= 2 {
        s
    } else {
        2
    };
    if items.len() < adjusted {
        return false;
    }
    let mut previous: Option<usize> = None;
    let mut i: usize = 0;
    assert(should_preserve_vertical_list(threshold, a, list_type, consumed) == distinct_lines(
        a,
        adjusted as int,
    ));
    while i < adjusted
        invariant
            i <= adjusted <= items.len(),
            should_preserve_vertical_list(threshold, a, list_type, consumed) == distinct_lines(
                a,
                adjusted as int,
            ),
            a == args_view(items@),
            distinct_lines(a, i as int),
            i > 0 ==> previous == a[i - 1].source_line,
            i == 0 ==> previous is None,
        decreases adjusted - i,
    {
        assert(a[i as int] == items@[i as int].view());
        match items[i].source_line {
            None => {
                proof {
                    if distinct_lines(a, adjusted as int) {
                        lemma_distinct_prefix(a, i + 1, adjusted as int);
                    }
                }
                return false;
            },
            Some(l) => {
                if previous == Some(l) {
                    proof {
                        if distinct_lines(a, adjusted as int) {
                            lemma_distinct_prefix(a, i + 1, adjusted as int);
                        }
                    }
                    return false;
                }
                previous = Some(l);
            },
        }
        i += 1;
    }
    true
}

pub fn source_line_groups_exec(items: &[ArgItem]) -> (r: Vec<Vec<String>>)
    ensures
        r@.map_values(|g: Vec<String>| strs(g@)) == source_line_groups(args_view(items@)),
{
    let ghost a = args_view(items@);
    let mut groups: Vec<Vec<String>> = Vec::new();
    let mut current_line: Option<usize> = None;
    let mut current: Vec<String> = Vec::new();
    let mut i: usize = 0;
    assert(groups@.map_values(|g: Vec<String>| strs(g@)) =~= Seq::<Seq<Seq<char>>>::empty());
    assert(strs(current@) =~= Seq::<Seq<char>>::empty());
    while i < items.len()
        invariant
            i <= items.len(),
            a == args_view(items@),
            groups_from(
                a,
                i as int,
                current_line,
                strs(current@),
                groups@.map_values(|g: Vec<String>| strs(g@)),
            ) == source_line_groups(a),
        decreases items.len() - i,
    {
        assert(a[i as int] == items@[i as int].view());
        let ghost gs = groups@;
        let ghost old_line = current_line;
        let ghost old_cur = strs(current@);
        let ghost old_gv = groups@.map_values(|g: Vec<String>| strs(g@));
        let brk = current_line.is_some() && current_line != items[i].source_line;
        assert(brk == (old_line is Some && old_line != a[i as int].source_line));
        if brk {
            let done = current;
            groups.push(done);
            current = Vec::new();
            assert(strs(current@) =~= Seq::<Seq<char>>::empty());
            assert(groups@.map_values(|g: Vec<String>| strs(g@)) =~= gs.map_values(
                |g: Vec<String>| strs(g@),
            ).push(strs(done@)));
        }
        current_line = items[i].source_line;
        let ghost cs = current@;
        current.push(items[i].text.clone());
        assert(strs(current@) =~= strs(cs).push(items@[i as int].text@));
        assert(strs(current@) == (if brk {
            Seq::<Seq<char>>::empty()
        } else {
            old_cur
        }).push(a[i as int].text));
        assert(groups@.map_values(|g: Vec<String>| strs(g@)) == (if brk {
            old_gv.push(old_cur)
        } else {
            old_gv
        }));
        proof {
            assert(groups_from(a, i as int, old_line, old_cur, old_gv) == groups_from(
                a,
                i + 1,
                current_line,
                strs(current@),
                groups@.map_values(|g: Vec<String>| strs(g@)),
            ));
        }
        i += 1;
    }
    if current.len() > 0 {
        let ghost gs = groups@;
        let done = current;
        groups.push(done);
        assert(groups@.map_values(|g: Vec<String>| strs(g@)) =~= gs.map_values(
            |g: Vec<String>| strs(g@),
        ).push(strs(done@)));
    }
    groups
}

pub fn pack_command_argv_items_exec(threshold: isize, indent: usize, prefix: &Vec<String>, items: &[ArgItem], width: usize) -> (r: Vec<LayoutLine>)
    ensures
        lines_view(r@) == pack_command_argv_items(
            threshold,
            indent,
            strs(prefix@),
            args_view(items@),
            width,
        ),
{
    let groups = source_line_groups_exec(items);
    let ghost gv = groups@.map_values(|g: Vec<String>| strs(g@));
    let preserve = threshold >= 0 && groups.len() > 1 && (threshold == 0 || groups.len()
        >= threshold as usize);
    if preserve {
        let mut r = prefix_lines_exec(prefix, indent);
        let vi = value_indent_exec(prefix, indent);
        let ghost base = lines_view(r@);
        let mut j: usize = 0;
        let empty: Vec<String> = Vec::new();
        while j < groups.len()
            invariant
                j <= groups.len(),
                gv == groups@.map_values(|g: Vec<String>| strs(g@)),
                strs(empty@) == Seq::<Seq<char>>::empty(),
                lines_view(r@) == base + argv_groups_lines(gv.take(j as int), width, vi),
            decreases groups.len() - j,
        {
            let more = pack_command_argv_exec(vi, &empty, &groups[j], width);
            assert(gv.take(j + 1 as int).drop_last() =~= gv.take(j as int));
            assert(gv.take(j + 1 as int).last() == strs(groups@[j as int]@));
            extend_lines(&mut r, more);
            assert(lines_view(r@) =~= base + argv_groups_lines(gv.take(j + 1 as int), width, vi));
            j += 1;
        }
        assert(gv.take(j as int) =~= gv);
        r
    } else {
        let values = arg_texts(items);
        pack_command_argv_exec(indent, prefix, &values, width)
    }
}

pub fn pack_value_items_exec(threshold: isize, indent: usize, prefix: &Vec<String>, items: &[ArgItem], width: usize, list_type: ListType, consumed: usize) -> (r: Vec<LayoutLine>)
    ensures
        lines_view(r@) == pack_value_items(
            threshold,
            indent,
            strs(prefix@),
            args_view(items@),
            width,
            list_type,
            consumed,
        ),
{
    if list_type == ListType::CommandArgv {
        return pack_command_argv_items_exec(threshold, indent, prefix, items, width);
    }
    let lt = if should_preserve_vertical_list_exec(threshold, items, list_type, consumed) {
        ListType::NPerLine { n: 1 }
    } else {
        list_type
    };
    let values = arg_texts(items);
    pack_values_exec(indent, prefix, &values, width, lt)
}

pub fn value_after_exec(items: &[ArgItem], i: usize) -> (r: bool)
    requires
        i <= items.len(),
    ensures
        r == value_after(args_view(items@), i as int),
{
    let ghost a = args_view(items@);
    let mut j = i;
    while j < items.len()
        invariant
            i <= j <= items.len(),
            a == args_view(items@),
            forall|t: int| i <= t < j ==> a[t].is_comment,
        decreases items.len() - j,
    {
        assert(a[j as int] == items@[j as int].view());
        if !items[j].is_comment {
            return true;
        }
        j += 1;
    }
    false
}

fn has_splitter_exec(items: &[ArgItem]) -> (r: bool)
    ensures
        r == has_splitter(args_view(items@)),
{
    let ghost a = args_view(items@);
    let mut i: usize = 0;
    while i < items.len()
        invariant
            i <= items.len(),
            a == args_view(items@),
            forall|t: int| 0 <= t < i ==> !(a[t].is_comment && value_after(a, t + 1)),
        decreases items.len() - i,
    {
        assert(a[i as int] == items@[i as int].view());
        if items[i].is_comment && value_after_exec(items, i + 1) {
            return true;
        }
        i += 1;
    }
    false
}

pub fn pack_arg_items_exec(threshold: isize, indent: usize, prefix: Vec<String>, items: &[ArgItem], width: usize, list_type: ListType) -> (r: Vec<LayoutLine>)
    ensures
        lines_view(r@) == pack_arg_items(
            threshold,
            indent,
            strs(prefix@),
            args_view(items@),
            width,
            list_type,
        ),
{
    let ghost a = args_view(items@);
    let ghost p = strs(prefix@);
    let comment_indent = value_indent_exec(&prefix, indent);
    let mut lines: Vec<LayoutLine> = Vec::new();
    let mut current_prefix = prefix;
    let mut values: Vec<ArgItem> = Vec::new();
    let mut current_indent = indent;
    if has_splitter_exec(items) && current_prefix.len() > 0 {
        push_line(&mut lines, new_line(indent, join_values(&current_prefix)));
        current_prefix = Vec::new();
        current_indent = comment_indent;
    }
    let ghost start = if has_splitter(a) && p.len() > 0 {
        PackState {
            lines: seq![line(indent, join(p))],
            prefix: Seq::empty(),
            values: Seq::empty(),
            current_indent: comment_indent,
        }
    } else {
        PackState { lines: Seq::empty(), prefix: p, values: Seq::empty(), current_indent: indent }
    };
    assert(lines_view(lines@) =~= start.lines);
    assert(strs(current_prefix@) =~= start.prefix);
    assert(args_view(values@) =~= start.values);
    let mut idx: usize = 0;
    while idx < items.len()
        invariant
            idx <= items.len(),
            a == args_view(items@),
            comment_indent == value_indent(p, indent),
            pack_arg_from(
                threshold,
                indent,
                comment_indent,
                a,
                width,
                list_type,
                idx as int,
                PackState {
                    lines: lines_view(lines@),
                    prefix: strs(current_prefix@),
                    values: args_view(values@),
                    current_indent,
                },
            ) == pack_arg_from(threshold, indent, comment_indent, a, width, list_type, 0, start),
        decreases items.len() - idx,
    {
        let item = &items[idx];
        assert(a[idx as int] == item.view());
        if item.is_comment {
            let more_after = value_after_exec(items, idx + 1);
            let mut split = false;
            if item.is_trailing_comment && more_after && values.len() > 0 {
                let packed = pack_value_items_exec(
                    threshold,
                    current_indent,
                    &current_prefix,
                    values.as_slice(),
                    width,
                    list_type,
                    0,
                );
                if packed.len() > 0 {
                    let last = &packed[packed.len() - 1];
                    assert(lines_view(packed@).last() == last.view());
                    split = !fits_in(last.text.as_str(), 2, item.text.as_str(), width);
                }
            }
            if split {
                let ghost vs = args_view(values@);
                let tail = values.pop().unwrap();
                assert(args_view(values@) =~= vs.drop_last());
                let more = pack_value_items_exec(
                    threshold,
                    current_indent,
                    &current_prefix,
                    values.as_slice(),
                    width,
                    list_type,
                    0,
                );
                extend_lines(&mut lines, more);
                current_prefix = Vec::new();
                values = Vec::new();
                values.push(tail);
                assert(args_view(values@) =~= seq![vs.last()]);
            }
            let more = pack_value_items_exec(
                threshold,
                current_indent,
                &current_prefix,
                values.as_slice(),
                width,
                list_type,
                0,
            );
            extend_lines(&mut lines, more);
            current_prefix = Vec::new();
            values = Vec::new();
            let this_indent = if more_after {
                comment_indent
            } else {
                indent
            };
            current_indent = this_indent;
            push_comment_exec(
                &mut lines,
                this_indent,
                item.text.as_str(),
                item.is_trailing_comment,
                width,
            );
            assert(strs(current_prefix@) =~= Seq::<Seq<char>>::empty());
            assert(args_view(values@) =~= Seq::<ArgV>::empty());
        } else {
            let ghost vs = args_view(values@);
            values.push(item.duplicate());
            assert(args_view(values@) =~= vs.push(item.view()));
        }
        idx += 1;
    }
    let more = pack_value_items_exec(
        threshold,
        current_indent,
        &current_prefix,
        values.as_slice(),
        width,
        list_type,
        0,
    );
    extend_lines(&mut lines, more);
    lines
}

} // verus!
