//! Laying out the arguments of one command: the generic layout for commands
//! without a schema, and the schema layout (modes, positionals, keyword
//! groups, sub-parsers).
use crate::layout_spec::{
    ArgV, GenState, ItemV, MainState, PlaceState, any_indented, arg_of_item, cache_scan, compound_header_len, dedent, gen_flush, gen_from, glued, has_comment_arg, header_len_from, header_matches, is_generic_keyword, item_text, layout_generic_items, layout_main, layout_mode_header, layout_schema_args, layout_schema_items, layout_subparser, leading_for, lemma_compound_header_len, lemma_mode_header_used, lemma_outer_end, lemma_subparser_end, line, line_acc, line_texts, lines_at, mode_positional_end, outer_end, place_from, place_schema_comments, plain, positional_end, positional_max, subparser_end, target_line, texts, trailing_line_overflows, with_leading,
};
use crate::pack::{
    append_to_last_flat_line, app_all_exec, args_view, clone_args, extend_lines, join_values,
    is_misaligned_n_per_line, lines_view, misaligned_n_per_line, new_line, pack_arg_items_exec, pack_value_items_exec, push_comment_exec,
    push_line, spaced_exec, strs, value_after_exec, with_comment_exec, ArgItem, LayoutLine,
};
use crate::schema::{CompoundListKeyword, FunctionSchema, ListType};
use crate::text::{blen, byte_len, chars_of, eq_ignore_ascii_case, owned, str_eq};
use vstd::prelude::*;
use vstd::slice::slice_subrange;

verus! {

/// An argument or a comment of a command, in source order.
pub enum Item {
    Arg { text: String, index: usize, source_line: usize },
    Comment { text: String, trailing: bool, target_arg: Option<usize>, previous_arg: Option<String> },
}

impl Item {
    pub open spec fn view(&self) -> ItemV {
        match self {
            Item::Arg { text, index, source_line } => ItemV::Arg {
                text: text@,
                index: *index,
                source_line: *source_line,
            },
            Item::Comment { text, trailing, target_arg, previous_arg } => ItemV::Comment {
                text: text@,
                trailing: *trailing,
                target_arg: *target_arg,
                previous_arg: match previous_arg {
                    Some(p) => Some(p@),
                    None => None,
                },
            },
        }
    }

    pub fn duplicate(&self) -> (r: Item)
        ensures
            r.view() == self.view(),
    {
        match self {
            Item::Arg { text, index, source_line } => Item::Arg {
                text: text.clone(),
                index: *index,
                source_line: *source_line,
            },
            Item::Comment { text, trailing, target_arg, previous_arg } => Item::Comment {
                text: text.clone(),
                trailing: *trailing,
                target_arg: *target_arg,
                previous_arg: match previous_arg {
                    Some(p) => Some(p.clone()),
                    None => None,
                },
            },
        }
    }

    pub fn text(&self) -> (r: &str)
        ensures
            r@ == item_text(self.view()),
    {
        match self {
            Item::Arg { text, .. } => text.as_str(),
            Item::Comment { text, .. } => text.as_str(),
        }
    }
}

pub open spec fn items_view(v: Seq<Item>) -> Seq<ItemV> {
    v.map_values(|i: Item| i.view())
}

fn push_item(v: &mut Vec<Item>, i: Item)
    ensures
        items_view(final(v)@) == items_view(old(v)@).push(i.view()),
{
    let ghost before = v@;
    v.push(i);
    assert(items_view(v@) =~= items_view(before).push(i.view()));
}

fn push_arg_item(v: &mut Vec<ArgItem>, a: ArgItem)
    ensures
        args_view(final(v)@) == args_view(old(v)@).push(a.view()),
{
    let ghost before = v@;
    v.push(a);
    assert(args_view(v@) =~= args_view(before).push(a.view()));
}

fn sub_args(args: &[ArgItem], i: usize, j: usize) -> (r: &[ArgItem])
    requires
        i <= j <= args@.len(),
    ensures
        args_view(r@) == args_view(args@).subrange(i as int, j as int),
        r@.len() == j - i,
{
    let r = slice_subrange(args, i, j);
    assert(args_view(r@) =~= args_view(args@).subrange(i as int, j as int));
    r
}

// ---------------------------------------------------------------------------
// The generic layout
// ---------------------------------------------------------------------------
/// Whether `s` is an ALL-CAPS word (three bytes or more, not a boolean
/// literal) that starts a group in the layout of commands without a schema.
pub fn is_generic_keyword_exec(s: &str) -> (r: bool)
    ensures
        r == is_generic_keyword(s@),
{
    if str_eq(s, "YES") || str_eq(s, "OFF") || str_eq(s, "TRUE") || str_eq(s, "FALSE") {
        return false;
    }
    if byte_len(s) < 3 {
        return false;
    }
    let v = chars_of(s);
    if v.len() == 0 || !('A' <= v[0] && v[0] <= 'Z') {
        return false;
    }
    let mut i: usize = 0;
    while i < v.len()
        invariant
            i <= v.len(),
            v@ == s@,
            forall|j: int|
                0 <= j < i ==> crate::text::is_ascii_upper(s@[j]) || crate::text::is_ascii_digit(
                    s@[j],
                ) || s@[j] == '_',
        decreases v.len() - i,
    {
        let c = v[i];
        if !(('A' <= c && c <= 'Z') || ('0' <= c && c <= '9') || c == '_') {
            return false;
        }
        i += 1;
    }
    true
}

fn gen_flush_exec(threshold: isize, lines: &mut Vec<LayoutLine>, prefix: &Vec<String>, values: &Vec<ArgItem>, width: usize)
    ensures
        lines_view(final(lines)@) == gen_flush(
            threshold,
            GenState {
                lines: lines_view(old(lines)@),
                prefix: strs(prefix@),
                values: args_view(values@),
            },
            width,
        ),
{
    if prefix.len() == 1 && values.len() == 1 {
        push_line(lines, new_line(0, spaced_exec(prefix[0].as_str(), values[0].text.as_str())));
    } else {
        let more = pack_value_items_exec(
            threshold,
            0,
            prefix,
            values.as_slice(),
            width,
            ListType::Packed,
            0,
        );
        extend_lines(lines, more);
    }
}

pub fn layout_generic_items_exec(threshold: isize, items: &[Item], width: usize) -> (r: Vec<LayoutLine>)
    ensures
        lines_view(r@) == layout_generic_items(threshold, items_view(items@), width),
{
    let ghost iv = items_view(items@);
    let mut lines: Vec<LayoutLine> = Vec::new();
    let mut prefix: Vec<String> = Vec::new();
    let mut values: Vec<ArgItem> = Vec::new();
    let ghost start = GenState { lines: Seq::empty(), prefix: Seq::empty(), values: Seq::empty() };
    assert(lines_view(lines@) =~= start.lines);
    assert(strs(prefix@) =~= start.prefix);
    assert(args_view(values@) =~= start.values);
    let mut i: usize = 0;
    while i < items.len()
        invariant
            i <= items.len(),
            iv == items_view(items@),
            gen_from(
                threshold,
                iv,
                i as int,
                GenState {
                    lines: lines_view(lines@),
                    prefix: strs(prefix@),
                    values: args_view(values@),
                },
                width,
            ) == gen_from(threshold, iv, 0, start, width),
        decreases items.len() - i,
    {
        assert(iv[i as int] == items@[i as int].view());
        match &items[i] {
            Item::Arg { text, source_line, .. } => {
                if is_generic_keyword_exec(text.as_str()) {
                    gen_flush_exec(threshold, &mut lines, &prefix, &values, width);
                    prefix = Vec::new();
                    prefix.push(text.clone());
                    values = Vec::new();
                    assert(strs(prefix@) =~= seq![text@]);
                    assert(args_view(values@) =~= Seq::<ArgV>::empty());
                } else {
                    push_arg_item(
                        &mut values,
                        ArgItem {
                            text: text.clone(),
                            is_comment: false,
                            is_trailing_comment: false,
                            source_line: Some(*source_line),
                        },
                    );
                }
            },
            Item::Comment { text, trailing, .. } => {
                gen_flush_exec(threshold, &mut lines, &prefix, &values, width);
                push_comment_exec(&mut lines, 0, text.as_str(), *trailing, width);
                prefix = Vec::new();
                values = Vec::new();
                assert(strs(prefix@) =~= Seq::<Seq<char>>::empty());
                assert(args_view(values@) =~= Seq::<ArgV>::empty());
            },
        }
        i += 1;
    }
    gen_flush_exec(threshold, &mut lines, &prefix, &values, width);
    lines
}

// ---------------------------------------------------------------------------
// Trailing comments after options
// ---------------------------------------------------------------------------
fn target_line_exec(items: &[Item], target: usize) -> (r: Option<usize>)
    ensures
        r == target_line(items_view(items@), target, 0),
{
    let ghost iv = items_view(items@);
    let mut i: usize = 0;
    while i < items.len()
        invariant
            i <= items.len(),
            iv == items_view(items@),
            target_line(iv, target, i as int) == target_line(iv, target, 0),
        decreases items.len() - i,
    {
        assert(iv[i as int] == items@[i as int].view());
        if let Item::Arg { index, source_line, .. } = &items[i] {
            if *index == target {
                return Some(*source_line);
            }
        }
        i += 1;
    }
    None
}

proof fn lemma_line_acc_mono(items: Seq<ItemV>, l: usize, i: int, j: int)
    requires
        0 <= i <= j <= items.len(),
    ensures
        line_acc(items, l, i).0 <= line_acc(items, l, j).0,
        0 <= line_acc(items, l, i).0,
    decreases j,
{
    if i < j {
        lemma_line_acc_mono(items, l, i, j - 1);
    } else if i > 0 {
        lemma_line_acc_mono(items, l, i - 1, i - 1);
    }
}

fn trailing_line_overflows_exec(items: &[Item], target: usize, comment: &str, width: usize) -> (r: bool)
    ensures
        r == trailing_line_overflows(items_view(items@), target, comment@, width),
{
    let ghost iv = items_view(items@);
    let l = match target_line_exec(items, target) {
        None => {
            return true;
        },
        Some(l) => l,
    };
    let mut total: usize = 0;
    let mut first = true;
    let mut i: usize = 0;
    while i < items.len()
        invariant
            i <= items.len(),
            iv == items_view(items@),
            target_line(iv, target, 0) == Some(l),
            (total as int, first) == line_acc(iv, l, i as int),
            total <= width,
        decreases items.len() - i,
    {
        assert(iv[i as int] == items@[i as int].view());
        if let Item::Arg { text, source_line, .. } = &items[i] {
            if *source_line == l {
                let add: usize = if first {
                    0
                } else {
                    1
                };
                let t = byte_len(text.as_str());
                if add > width - total || t > width - total - add {
                    proof {
                        lemma_line_acc_mono(iv, l, i + 1, iv.len() as int);
                        crate::text::lemma_blen_ge_len(comment@);
                    }
                    return true;
                }
                total = total + add + t;
                first = false;
            }
        }
        i += 1;
    }
    let c = byte_len(comment);
    width - total < 2 || c > width - total - 2
}

pub fn place_schema_comments_exec(items: &[Item], schema: &FunctionSchema, width: usize) -> (r: Vec<Item>)
    ensures
        items_view(r@) == place_schema_comments(items_view(items@), *schema, width),
{
    let ghost iv = items_view(items@);
    let mut leading: Vec<(usize, String)> = Vec::new();
    let mut kept: Vec<Item> = Vec::new();
    let mut previous_arg: Option<usize> = None;
    let ghost start = PlaceState { leading: Seq::empty(), kept: Seq::empty(), previous_arg: None };
    let ghost lv = |p: (usize, String)| (p.0, p.1@);
    assert(leading@.map_values(lv) =~= start.leading);
    assert(items_view(kept@) =~= start.kept);
    let mut i: usize = 0;
    while i < items.len()
        invariant
            i <= items.len(),
            iv == items_view(items@),
            lv == (|p: (usize, String)| (p.0, p.1@)),
            place_from(
                *schema,
                iv,
                i as int,
                PlaceState {
                    leading: leading@.map_values(lv),
                    kept: items_view(kept@),
                    previous_arg,
                },
                width,
            ) == place_from(*schema, iv, 0, start, width),
        decreases items.len() - i,
    {
        let item = &items[i];
        assert(iv[i as int] == item.view());
        match item {
            Item::Arg { index, .. } => {
                previous_arg = Some(*index);
                push_item(&mut kept, item.duplicate());
            },
            Item::Comment { text, trailing, target_arg, previous_arg: prev_text } => {
                let mut promote = false;
                if *trailing {
                    if let Some(t) = target_arg {
                        if let Some(pt) = prev_text {
                            if previous_arg != Some(*t) && schema.is_option(pt.as_str())
                                && trailing_line_overflows_exec(items, *t, text.as_str(), width) {
                                promote = true;
                            }
                        }
                    }
                }
                if promote {
                    let ghost before = leading@;
                    leading.push((target_arg.unwrap(), text.clone()));
                    assert(leading@.map_values(lv) =~= before.map_values(lv).push(
                        (target_arg.unwrap(), text@),
                    ));
                } else {
                    push_item(&mut kept, item.duplicate());
                }
            },
        }
        i += 1;
    }
    if leading.len() == 0 {
        assert(leading@.map_values(lv) =~= Seq::<(usize, Seq<char>)>::empty());
        return kept;
    }
    let ghost lead = leading@.map_values(lv);
    let mut placed: Vec<Item> = Vec::new();
    let mut k: usize = 0;
    assert(items_view(placed@) =~= with_leading(items_view(kept@).take(0), lead));
    while k < kept.len()
        invariant
            k <= kept.len(),
            lead == leading@.map_values(lv),
            lv == (|p: (usize, String)| (p.0, p.1@)),
            items_view(placed@) == with_leading(items_view(kept@).take(k as int), lead),
        decreases kept.len() - k,
    {
        let ghost kv = items_view(kept@);
        assert(kv.take(k + 1 as int).drop_last() =~= kv.take(k as int));
        assert(kv.take(k + 1 as int).last() == kept@[k as int].view());
        if let Item::Arg { index, .. } = &kept[k] {
            let ghost base = items_view(placed@);
            let mut j: usize = 0;
            assert(leading_for(lead.take(0), *index) =~= Seq::<ItemV>::empty());
            assert(base + leading_for(lead.take(0), *index) =~= base);
            while j < leading.len()
                invariant
                    j <= leading.len(),
                    lead == leading@.map_values(lv),
                    lv == (|p: (usize, String)| (p.0, p.1@)),
                    items_view(placed@) == base + leading_for(lead.take(j as int), *index),
                decreases leading.len() - j,
            {
                assert(lead.take(j + 1 as int).drop_last() =~= lead.take(j as int));
                assert(lead.take(j + 1 as int).last() == (leading@[j as int].0, leading@[j as int].1@));
                if leading[j].0 == *index {
                    push_item(
                        &mut placed,
                        Item::Comment {
                            text: leading[j].1.clone(),
                            trailing: false,
                            target_arg: None,
                            previous_arg: None,
                        },
                    );
                }
                j += 1;
            }
            assert(lead.take(j as int) =~= lead);
        }
        push_item(&mut placed, kept[k].duplicate());
        k += 1;
    }
    assert(items_view(kept@).take(k as int) =~= items_view(kept@));
    placed
}

pub fn to_arg_items(items: &Vec<Item>) -> (r: Vec<ArgItem>)
    ensures
        args_view(r@) == items_view(items@).map_values(|i: ItemV| arg_of_item(i)),
{
    let mut r: Vec<ArgItem> = Vec::new();
    let mut i: usize = 0;
    while i < items.len()
        invariant
            i <= items.len(),
            args_view(r@) == items_view(items@).take(i as int).map_values(
                |i: ItemV| arg_of_item(i),
            ),
        decreases items.len() - i,
    {
        let a = match &items[i] {
            Item::Arg { text, source_line, .. } => ArgItem {
                text: text.clone(),
                is_comment: false,
                is_trailing_comment: false,
                source_line: Some(*source_line),
            },
            Item::Comment { text, trailing, .. } => ArgItem {
                text: text.clone(),
                is_comment: true,
                is_trailing_comment: *trailing,
                source_line: None,
            },
        };
        assert(a.view() == arg_of_item(items@[i as int].view()));
        push_arg_item(&mut r, a);
        assert(items_view(items@).take(i + 1 as int).map_values(|i: ItemV| arg_of_item(i))
            =~= items_view(items@).take(i as int).map_values(|i: ItemV| arg_of_item(i)).push(
            arg_of_item(items@[i as int].view()),
        ));
        i += 1;
    }
    assert(items_view(items@).take(i as int) =~= items_view(items@));
    r
}

// ---------------------------------------------------------------------------
// Scans over arguments
// ---------------------------------------------------------------------------
fn outer_end_exec(args: &[ArgItem], i: usize, schema: &FunctionSchema) -> (r: usize)
    requires
        i <= args.len(),
    ensures
        r == outer_end(args_view(args@), i as int, *schema),
        i <= r <= args.len(),
{
    let ghost a = args_view(args@);
    proof {
        lemma_outer_end(a, i as int, *schema);
    }
    let mut j = i;
    while j < args.len() && (args[j].is_comment || !schema.is_any_keyword(args[j].text.as_str()))
        invariant
            i <= j <= args.len(),
            a == args_view(args@),
            outer_end(a, j as int, *schema) == outer_end(a, i as int, *schema),
        decreases args.len() - j,
    {
        assert(a[j as int] == args@[j as int].view());
        j += 1;
    }
    proof {
        if j < args.len() {
            assert(a[j as int] == args@[j as int].view());
        }
    }
    j
}

/// The number of arguments (not comments) among `args[from..to]`.
pub open spec fn values_in(args: Seq<ArgV>, from: int, to: int) -> nat
    decreases to - from,
{
    if to <= from {
        0
    } else if args[to - 1].is_comment {
        values_in(args, from, to - 1)
    } else {
        values_in(args, from, to - 1) + 1
    }
}

/// The multi-value keywords of `args[i..]` whose `n_per_line` list (the
/// values up to the next keyword) has a number of values that is not a
/// multiple of `n`, each with that number: the lists laid out as packed,
/// which a diagnostic reports.
pub open spec fn misaligned_from(args: Seq<ArgV>, schema: FunctionSchema, i: int) -> Seq<(Seq<char>, nat)>
    decreases args.len() - i,
{
    if i < 0 || i >= args.len() {
        Seq::empty()
    } else {
        let rest = misaligned_from(args, schema, i + 1);
        if !args[i].is_comment && schema.spec_is_multi_value_keyword(args[i].text) {
            let c = values_in(args, i + 1, outer_end(args, i + 1, schema));
            if misaligned_n_per_line(schema.spec_list_type(args[i].text), c) {
                seq![(args[i].text, c)] + rest
            } else {
                rest
            }
        } else {
            rest
        }
    }
}

/// The malformed `n_per_line` lists among a command's arguments: each
/// keyword with its number of values (see `misaligned_from`).
pub fn misaligned_lists(args: &[ArgItem], schema: &FunctionSchema) -> (r: Vec<(String, usize)>)
    ensures
        r@.map_values(|p: (String, usize)| (p.0@, p.1 as nat)) == misaligned_from(
            args_view(args@),
            *schema,
            0,
        ),
{
    let ghost a = args_view(args@);
    let ghost f = |p: (String, usize)| (p.0@, p.1 as nat);
    let mut r: Vec<(String, usize)> = Vec::new();
    let mut i = args.len();
    while i > 0
        invariant
            i <= args.len(),
            a == args_view(args@),
            f == (|p: (String, usize)| (p.0@, p.1 as nat)),
            r@.map_values(f) == misaligned_from(a, *schema, i as int),
        decreases i,
    {
        let k = i - 1;
        assert(a[k as int] == args@[k as int].view());
        let ghost rest = r@;
        if !args[k].is_comment && schema.is_multi_value_keyword(args[k].text.as_str()) {
            let end = outer_end_exec(args, k + 1, schema);
            let mut c: usize = 0;
            let mut j = k + 1;
            while j < end
                invariant
                    k + 1 <= j <= end <= args.len(),
                    a == args_view(args@),
                    c == values_in(a, k + 1, j as int),
                    c <= j - (k + 1),
                decreases end - j,
            {
                assert(a[j as int] == args@[j as int].view());
                if !args[j].is_comment {
                    c += 1;
                }
                j += 1;
            }
            if is_misaligned_n_per_line(schema.list_type(args[k].text.as_str()), c) {
                r.insert(0, (args[k].text.clone(), c));
                assert(r@.map_values(f) =~= seq![(a[k as int].text, c as nat)] + rest.map_values(f));
            }
        }
        i = k;
    }
    r
}

fn subparser_end_exec(args: &[ArgItem], i: usize, parent: &FunctionSchema, child: &FunctionSchema) -> (r: usize)
    requires
        i <= args.len(),
    ensures
        r == subparser_end(args_view(args@), i as int, *parent, *child),
        i <= r <= args.len(),
{
    let ghost a = args_view(args@);
    proof {
        lemma_subparser_end(a, i as int, *parent, *child);
    }
    let mut j = i;
    while j < args.len() && !(parent.is_any_keyword(args[j].text.as_str()) && !child.is_any_keyword(
        args[j].text.as_str(),
    ))
        invariant
            i <= j <= args.len(),
            a == args_view(args@),
            subparser_end(a, j as int, *parent, *child) == subparser_end(
                a,
                i as int,
                *parent,
                *child,
            ),
        decreases args.len() - j,
    {
        assert(a[j as int] == args@[j as int].view());
        j += 1;
    }
    proof {
        if j < args.len() {
            assert(a[j as int] == args@[j as int].view());
        }
    }
    j
}

fn header_matches_exec(args: &[ArgItem], header: &Vec<String>) -> (r: bool)
    ensures
        r == header_matches(args_view(args@), header@),
{
    let ghost a = args_view(args@);
    if header.len() > args.len() {
        return false;
    }
    let mut i: usize = 0;
    while i < header.len()
        invariant
            i <= header.len() <= args.len(),
            a == args_view(args@),
            forall|t: int|
                0 <= t < i ==> !a[t].is_comment && crate::text::eq_ignore_case(
                    a[t].text,
                    header@[t]@,
                ),
        decreases header.len() - i,
    {
        assert(a[i as int] == args@[i as int].view());
        if args[i].is_comment || !eq_ignore_ascii_case(args[i].text.as_str(), header[i].as_str()) {
            return false;
        }
        i += 1;
    }
    true
}

fn compound_header_len_exec(args: &[ArgItem], headers: &Vec<Vec<String>>) -> (r: usize)
    ensures
        r == compound_header_len(args_view(args@), headers@),
        r <= args.len(),
{
    let ghost a = args_view(args@);
    proof {
        lemma_compound_header_len(a, headers@, 0);
    }
    let mut j: usize = 0;
    while j < headers.len()
        invariant
            j <= headers.len(),
            a == args_view(args@),
            header_len_from(a, headers@, j as int) == header_len_from(a, headers@, 0),
        decreases headers.len() - j,
    {
        if header_matches_exec(args, &headers[j]) {
            return headers[j].len();
        }
        j += 1;
    }
    0
}

fn cache_scan_exec(args: &[ArgItem], schema: &FunctionSchema) -> (r: (bool, usize))
    ensures
        (r.0, r.1 as nat) == cache_scan(args_view(args@), *schema, 0, 0),
{
    let ghost a = args_view(args@);
    let mut count: usize = 0;
    let mut i: usize = 0;
    while i < args.len()
        invariant
            i <= args.len(),
            count <= i,
            a == args_view(args@),
            cache_scan(a, *schema, i as int, count as nat) == cache_scan(a, *schema, 0, 0),
        decreases args.len() - i,
    {
        assert(a[i as int] == args@[i as int].view());
        if !args[i].is_comment {
            if schema.is_any_keyword(args[i].text.as_str()) {
                return (str_eq(args[i].text.as_str(), "CACHE"), count);
            }
            count += 1;
        }
        i += 1;
    }
    (false, count)
}

fn positional_max_exec(args: &[ArgItem], schema: &FunctionSchema, ignore_positional: bool) -> (r: Option<usize>)
    ensures
        r == positional_max(args_view(args@), *schema, ignore_positional),
{
    let base: Option<usize> = if ignore_positional {
        None
    } else {
        match &schema.positional {
            Some(p) => if p.max > 0 {
                Some(p.max)
            } else {
                None
            },
            None => None,
        }
    };
    let is_one = match base {
        Some(m) => m == 1,
        None => false,
    };
    if is_one && schema.subparser("CACHE").is_some() {
        let (found, count) = cache_scan_exec(args, schema);
        if found && count == 2 {
            return Some(2);
        }
    }
    base
}

fn positional_end_exec(args: &[ArgItem], schema: &FunctionSchema, max: Option<usize>) -> (r: usize)
    ensures
        r == positional_end(args_view(args@), *schema, max, 0),
        r <= args.len(),
{
    let ghost a = args_view(args@);
    let mut i: usize = 0;
    loop
        invariant
            i <= args.len(),
            a == args_view(args@),
            positional_end(a, *schema, max, i as int) == positional_end(a, *schema, max, 0),
        decreases args.len() - i,
    {
        if i >= args.len() {
            return i;
        }
        assert(a[i as int] == args@[i as int].view());
        if args[i].is_comment || schema.is_any_keyword(args[i].text.as_str()) {
            return i;
        }
        if let Some(m) = max {
            if i >= m {
                return i;
            }
        }
        i += 1;
    }
}

fn layout_mode_header_exec(mode_keyword: &str, schema: &FunctionSchema, args: &[ArgItem], budget: usize) -> (r: (Vec<LayoutLine>, usize))
    ensures
        lines_view(r.0@) == layout_mode_header(mode_keyword@, *schema, args_view(args@), budget).0,
        r.1 == layout_mode_header(mode_keyword@, *schema, args_view(args@), budget).1,
        r.1 <= args.len(),
{
    let ghost a = args_view(args@);
    proof {
        lemma_mode_header_used(mode_keyword@, *schema, a, budget);
    }
    let max: usize = match &schema.positional {
        Some(p) => p.max,
        None => 0,
    };
    let first_comment = args.len() > 0 && args[0].is_comment && args[0].is_trailing_comment;
    proof {
        if args.len() > 0 {
            assert(a[0] == args@[0].view());
        }
    }
    let start: usize = if first_comment {
        1
    } else {
        0
    };
    let mut end = start;
    while end < args.len() && end - start < max && !args[end].is_comment && !schema.is_any_keyword(
        args[end].text.as_str(),
    )
        invariant
            start <= end <= args.len(),
            a == args_view(args@),
            mode_positional_end(a, *schema, max, start as int, end as int) == mode_positional_end(
                a,
                *schema,
                max,
                start as int,
                start as int,
            ),
        decreases args.len() - end,
    {
        assert(a[end as int] == args@[end as int].view());
        end += 1;
    }
    proof {
        if end < args.len() {
            assert(a[end as int] == args@[end as int].view());
        }
    }
    let mut positionals: Vec<String> = Vec::new();
    let mut p = start;
    while p < end
        invariant
            start <= p <= end <= args.len(),
            a == args_view(args@),
            strs(positionals@) == texts(a.subrange(start as int, p as int)),
        decreases end - p,
    {
        let ghost before = positionals@;
        positionals.push(args[p].text.clone());
        assert(a[p as int] == args@[p as int].view());
        assert(strs(positionals@) =~= strs(before).push(a[p as int].text));
        assert(texts(a.subrange(start as int, p + 1)) =~= texts(a.subrange(start as int, p as int)).push(
            a[p as int].text,
        ));
        p += 1;
    }
    let late_comment = !first_comment && positionals.len() > 0 && end < args.len()
        && args[end].is_comment && args[end].is_trailing_comment;
    let comment: Option<&str> = if first_comment {
        Some(args[0].text.as_str())
    } else if late_comment {
        Some(args[end].text.as_str())
    } else {
        None
    };
    let used = if late_comment {
        end + 1
    } else {
        end
    };
    let single0 = app_all_exec(owned(mode_keyword), &positionals);
    let single = match comment {
        Some(c) => with_comment_exec(single0.as_str(), c),
        None => single0,
    };
    let mut lines: Vec<LayoutLine> = Vec::new();
    if positionals.len() <= 1 || byte_len(single.as_str()) <= budget {
        push_line(&mut lines, new_line(0, single));
        return (lines, used);
    }
    let keyword_line = match comment {
        Some(c) => with_comment_exec(mode_keyword, c),
        None => owned(mode_keyword),
    };
    push_line(&mut lines, new_line(0, keyword_line));
    let mut q: usize = 0;
    let ghost base = lines_view(lines@);
    while q < positionals.len()
        invariant
            q <= positionals.len(),
            lines_view(lines@) == base + lines_at(strs(positionals@).take(q as int), 0),
        decreases positionals.len() - q,
    {
        push_line(&mut lines, new_line(0, positionals[q].clone()));
        assert(lines_at(strs(positionals@).take(q + 1 as int), 0) =~= lines_at(
            strs(positionals@).take(q as int),
            0,
        ).push(line(0, positionals@[q as int]@)));
        q += 1;
    }
    assert(strs(positionals@).take(q as int) =~= strs(positionals@));
    (lines, used)
}

fn any_indented_exec(lines: &Vec<LayoutLine>) -> (r: bool)
    ensures
        r == any_indented(lines_view(lines@)),
{
    let mut i: usize = 0;
    while i < lines.len()
        invariant
            i <= lines.len(),
            forall|t: int| 0 <= t < i ==> lines_view(lines@)[t].indent == 0,
        decreases lines.len() - i,
    {
        if lines[i].indent > 0 {
            assert(lines_view(lines@)[i as int].indent > 0);
            return true;
        }
        i += 1;
    }
    false
}

fn dedent_exec(lines: &Vec<LayoutLine>) -> (r: Vec<LayoutLine>)
    ensures
        lines_view(r@) == dedent(lines_view(lines@)),
{
    let ghost d = dedent(lines_view(lines@));
    let mut r: Vec<LayoutLine> = Vec::new();
    let mut i: usize = 0;
    while i < lines.len()
        invariant
            i <= lines.len(),
            d == dedent(lines_view(lines@)),
            lines_view(r@) == d.take(i as int),
        decreases lines.len() - i,
    {
        let l = &lines[i];
        let indent: usize = if l.indent > 0 {
            l.indent - 1
        } else {
            0
        };
        push_line(&mut r, LayoutLine { indent, text: l.text.clone(), has_comment: l.has_comment });
        assert(d.take(i + 1 as int) =~= d.take(i as int).push(d[i as int]));
        i += 1;
    }
    assert(d.take(i as int) =~= d);
    r
}

/// The lines from `from` on, with their comment marks dropped, one level
/// deeper when `shift`.
fn plain_exec(lines: &Vec<LayoutLine>, from: usize, shift: bool) -> (r: Vec<LayoutLine>)
    requires
        from <= lines.len(),
    ensures
        lines_view(r@) == plain(lines_view(lines@).skip(from as int), shift),
{
    let ghost d = plain(lines_view(lines@).skip(from as int), shift);
    let mut r: Vec<LayoutLine> = Vec::new();
    let mut i: usize = from;
    while i < lines.len()
        invariant
            from <= i <= lines.len(),
            d == plain(lines_view(lines@).skip(from as int), shift),
            lines_view(r@) == d.take(i - from),
        decreases lines.len() - i,
    {
        let l = &lines[i];
        let indent: usize = if shift && l.indent < usize::MAX {
            l.indent + 1
        } else {
            l.indent
        };
        push_line(&mut r, new_line(indent, l.text.clone()));
        assert(d.take(i + 1 - from) =~= d.take(i - from).push(d[i - from]));
        i += 1;
    }
    assert(d.take(i - from) =~= d);
    r
}

fn line_texts_exec(lines: &Vec<LayoutLine>) -> (r: Vec<String>)
    ensures
        strs(r@) == line_texts(lines_view(lines@)),
{
    let ghost d = line_texts(lines_view(lines@));
    let mut r: Vec<String> = Vec::new();
    let mut i: usize = 0;
    while i < lines.len()
        invariant
            i <= lines.len(),
            d == line_texts(lines_view(lines@)),
            strs(r@) == d.take(i as int),
        decreases lines.len() - i,
    {
        let ghost before = r@;
        r.push(lines[i].text.clone());
        assert(strs(r@) =~= strs(before).push(d[i as int]));
        assert(d.take(i + 1 as int) =~= d.take(i as int).push(d[i as int]));
        i += 1;
    }
    assert(d.take(i as int) =~= d);
    r
}

fn has_comment_arg_exec(args: &[ArgItem]) -> (r: bool)
    ensures
        r == has_comment_arg(args_view(args@)),
{
    let ghost a = args_view(args@);
    let mut i: usize = 0;
    while i < args.len()
        invariant
            i <= args.len(),
            a == args_view(args@),
            forall|t: int| 0 <= t < i ==> !a[t].is_comment,
        decreases args.len() - i,
    {
        assert(a[i as int] == args@[i as int].view());
        if args[i].is_comment {
            return true;
        }
        i += 1;
    }
    false
}

// ---------------------------------------------------------------------------
// The schema layout
// ---------------------------------------------------------------------------
/// Lays out `args` under `schema`, as `layout_schema_args` states.
pub fn layout_schema_args_exec(
    threshold: isize,
    args: &[ArgItem],
    schema: &FunctionSchema,
    ignore_positional: bool,
    width: usize,
    header_budget: usize,
    consumed: usize,
) -> (r: Vec<LayoutLine>)
    ensures
        lines_view(r@) == layout_schema_args(
            threshold,
            args_view(args@),
            *schema,
            ignore_positional,
            width,
            header_budget,
            consumed,
        ),
    decreases args@.len(), 2nat, 0nat,
{
    let ghost a = args_view(args@);
    proof {
        if args.len() > 0 {
            assert(a[0] == args@[0].view());
        }
    }
    if args.len() > 0 && !args[0].is_comment {
        if let Some(mode_schema) = schema.mode(args[0].text.as_str()) {
            let rest = sub_args(args, 1, args.len());
            assert(args_view(rest@) =~= a.skip(1));
            let (mut lines, used) = layout_mode_header_exec(
                args[0].text.as_str(),
                mode_schema,
                rest,
                header_budget,
            );
            let tail = sub_args(args, 1 + used, args.len());
            assert(args_view(tail@) =~= a.skip(1 + used));
            let more = layout_schema_args_exec(
                threshold,
                tail,
                mode_schema,
                true,
                width,
                width,
                consumed.saturating_add(used),
            );
            extend_lines(&mut lines, more);
            return lines;
        }
    }
    let max = positional_max_exec(args, schema, ignore_positional);
    let end = positional_end_exec(args, schema, max);
    let head = sub_args(args, 0, end);
    assert(args_view(head@) =~= a.take(end as int));
    let empty: Vec<String> = Vec::new();
    assert(strs(empty@) =~= Seq::<Seq<char>>::empty());
    let lines = pack_value_items_exec(
        threshold,
        0,
        &empty,
        head,
        width,
        schema.default_list_type,
        consumed,
    );
    layout_main_exec(threshold, args, schema, width, end, lines)
}

/// The flags that the keyword loop carries.
#[derive(Clone, Copy)]
struct Flags {
    indented: bool,
    keyword_seen: bool,
    can_glue: bool,
}

spec fn mstate(lines: Seq<LayoutLine>, f: Flags) -> MainState {
    MainState {
        lines: lines_view(lines),
        any_indented: f.indented,
        any_keyword: f.keyword_seen,
        can_glue: f.can_glue,
    }
}

spec fn main_goes_to(threshold: isize, a: Seq<ArgV>, schema: FunctionSchema, width: usize, i: int, st: MainState, j: int, st2: MainState) -> bool {
    &&& i < j <= a.len()
    &&& layout_main(threshold, a, schema, width, i, st) == layout_main(threshold, a, schema, width, j, st2)
}

fn main_comment_step(threshold: isize, args: &[ArgItem], schema: &FunctionSchema, width: usize, index: usize, lines: &mut Vec<LayoutLine>, f: Flags) -> (r: (usize, Flags))
    requires
        index < args.len(),
        args_view(args@)[index as int].is_comment,
    ensures
        main_goes_to(threshold, args_view(args@), *schema, width, index as int, mstate(old(lines)@, f), r.0 as int, mstate(final(lines)@, r.1)),
{
    let ghost a = args_view(args@);
    assert(a[index as int] == args@[index as int].view());
    push_comment_exec(lines, 0, args[index].text.as_str(), args[index].is_trailing_comment, width);
    (index + 1, f)
}

fn main_option_step(threshold: isize, args: &[ArgItem], schema: &FunctionSchema, width: usize, index: usize, lines: &mut Vec<LayoutLine>, f: Flags) -> (r: (usize, Flags))
    requires
        index < args.len(),
        !args_view(args@)[index as int].is_comment,
        schema.spec_is_option(args_view(args@)[index as int].text),
    ensures
        main_goes_to(threshold, args_view(args@), *schema, width, index as int, mstate(old(lines)@, f), r.0 as int, mstate(final(lines)@, r.1)),
{
    let ghost a = args_view(args@);
    assert(a[index as int] == args@[index as int].view());
    let kw = args[index].text.as_str();
    let glued = f.can_glue && append_to_last_flat_line(lines, kw, width);
    if !glued {
        push_line(lines, new_line(0, owned(kw)));
    }
    (index + 1, Flags { indented: f.indented, keyword_seen: true, can_glue: true })
}

fn main_one_value_step(threshold: isize, args: &[ArgItem], schema: &FunctionSchema, width: usize, index: usize, lines: &mut Vec<LayoutLine>, f: Flags) -> (r: (usize, Flags))
    requires
        index < args.len(),
        !args_view(args@)[index as int].is_comment,
        !schema.spec_is_option(args_view(args@)[index as int].text),
        schema.spec_is_one_value_keyword(args_view(args@)[index as int].text),
    ensures
        main_goes_to(threshold, args_view(args@), *schema, width, index as int, mstate(old(lines)@, f), r.0 as int, mstate(final(lines)@, r.1)),
{
    let ghost a = args_view(args@);
    assert(a[index as int] == args@[index as int].view());
    let kw = args[index].text.as_str();
    if index + 1 < args.len() {
        assert(a[index + 1] == args@[index + 1].view());
        if args[index + 1].is_comment {
            push_line(lines, new_line(0, owned(kw)));
            push_comment_exec(lines, 0, args[index + 1].text.as_str(), args[index + 1].is_trailing_comment, width);
        } else {
            push_line(lines, new_line(0, spaced_exec(kw, args[index + 1].text.as_str())));
        }
    } else {
        push_line(lines, new_line(0, owned(kw)));
    }
    let next = if args.len() - index >= 2 {
        index + 2
    } else {
        args.len()
    };
    proof {
        let st2 = mstate(lines@, Flags { indented: f.indented, keyword_seen: true, can_glue: false });
        assert(layout_main(threshold, a, *schema, width, index + 2, st2) == layout_main(
            threshold,
            a,
            *schema,
            width,
            next as int,
            st2,
        ));
    }
    (next, Flags { indented: f.indented, keyword_seen: true, can_glue: false })
}

fn main_subparser_step(threshold: isize, args: &[ArgItem], schema: &FunctionSchema, sub: &FunctionSchema, width: usize, index: usize, lines: &mut Vec<LayoutLine>, f: Flags) -> (r: (usize, Flags))
    requires
        index < args.len(),
        !args_view(args@)[index as int].is_comment,
        !schema.spec_is_option(args_view(args@)[index as int].text),
        !schema.spec_is_one_value_keyword(args_view(args@)[index as int].text),
        schema.spec_subparser(args_view(args@)[index as int].text) == Some(*sub),
    ensures
        main_goes_to(threshold, args_view(args@), *schema, width, index as int, mstate(old(lines)@, f), r.0 as int, mstate(final(lines)@, r.1)),
    decreases args@.len(), 0nat, 0nat,
{
    let ghost a = args_view(args@);
    assert(a[index as int] == args@[index as int].view());
    let kw = args[index].text.as_str();
    let s = index + 1;
    let end = subparser_end_exec(args, s, schema, sub);
    let flat = !f.indented && !value_after_exec(args, end);
    let body = sub_args(args, s, end);
    let sub_lines = layout_subparser_exec(threshold, kw, body, sub, width, flat);
    let sub_indented = any_indented_exec(&sub_lines);
    extend_lines(lines, sub_lines);
    (end, Flags { indented: f.indented || sub_indented, keyword_seen: true, can_glue: false })
}

fn main_compound_step(threshold: isize, args: &[ArgItem], schema: &FunctionSchema, c: &CompoundListKeyword, width: usize, index: usize, lines: &mut Vec<LayoutLine>, f: Flags) -> (r: (usize, Flags))
    requires
        index < args.len(),
        !args_view(args@)[index as int].is_comment,
        !schema.spec_is_option(args_view(args@)[index as int].text),
        !schema.spec_is_one_value_keyword(args_view(args@)[index as int].text),
        schema.spec_subparser(args_view(args@)[index as int].text) is None,
        schema.spec_compound(args_view(args@)[index as int].text) == Some(*c),
    ensures
        main_goes_to(threshold, args_view(args@), *schema, width, index as int, mstate(old(lines)@, f), r.0 as int, mstate(final(lines)@, r.1)),
{
    let ghost a = args_view(args@);
    assert(a[index as int] == args@[index as int].view());
    let kw = args[index].text.as_str();
    let s = index + 1;
    let end = outer_end_exec(args, s, schema);
    let group = sub_args(args, s, end);
    let hl = compound_header_len_exec(group, &c.headers);
    let mut prefix: Vec<String> = Vec::new();
    prefix.push(owned(kw));
    assert(strs(prefix@) =~= seq![kw@] + texts(a.subrange(s as int, s as int)));
    let mut k: usize = 0;
    while k < hl
        invariant
            k <= hl <= end - s,
            s <= end <= args.len(),
            a == args_view(args@),
            strs(prefix@) == seq![kw@] + texts(a.subrange(s as int, s + k)),
        decreases hl - k,
    {
        let ghost before = prefix@;
        prefix.push(args[s + k].text.clone());
        assert(a[s + k] == args@[s + k].view());
        assert(strs(prefix@) =~= strs(before).push(a[s + k].text));
        assert(texts(a.subrange(s as int, s + k + 1)) =~= texts(a.subrange(s as int, s + k)).push(
            a[s + k].text,
        ));
        k += 1;
    }
    let header = join_values(&prefix);
    if !append_to_last_flat_line(lines, header.as_str(), width) {
        push_line(lines, new_line(0, header));
    }
    let values = sub_args(args, s + hl, end);
    let more = pack_arg_items_exec(threshold, 0, Vec::new(), values, width, c.list_type);
    proof {
        assert(strs(Seq::<String>::empty()) =~= Seq::<Seq<char>>::empty());
    }
    extend_lines(lines, more);
    (end, Flags { indented: f.indented, keyword_seen: true, can_glue: false })
}

fn main_multi_step(threshold: isize, args: &[ArgItem], schema: &FunctionSchema, width: usize, index: usize, lines: &mut Vec<LayoutLine>, f: Flags) -> (r: (usize, Flags))
    requires
        index < args.len(),
        !args_view(args@)[index as int].is_comment,
        !schema.spec_is_option(args_view(args@)[index as int].text),
        !schema.spec_is_one_value_keyword(args_view(args@)[index as int].text),
        schema.spec_subparser(args_view(args@)[index as int].text) is None,
        schema.spec_compound(args_view(args@)[index as int].text) is None,
        schema.spec_is_multi_value_keyword(args_view(args@)[index as int].text)
            || schema.spec_is_simple_keyword(args_view(args@)[index as int].text),
    ensures
        main_goes_to(threshold, args_view(args@), *schema, width, index as int, mstate(old(lines)@, f), r.0 as int, mstate(final(lines)@, r.1)),
{
    let ghost a = args_view(args@);
    assert(a[index as int] == args@[index as int].view());
    let kw = args[index].text.as_str();
    let s = index + 1;
    let end = outer_end_exec(args, s, schema);
    let lt = schema.list_type(kw);
    let flat = lt != ListType::CommandArgv && !f.indented && !value_after_exec(args, end);
    let mut prefix: Vec<String> = Vec::new();
    prefix.push(owned(kw));
    assert(strs(prefix@) =~= seq![kw@]);
    let group = sub_args(args, s, end);
    let kw_lines = pack_arg_items_exec(threshold, 0, prefix, group, width, lt);
    let mut indented = f.indented;
    if flat {
        let d = dedent_exec(&kw_lines);
        extend_lines(lines, d);
    } else {
        let ind = any_indented_exec(&kw_lines);
        extend_lines(lines, kw_lines);
        indented = indented || ind;
    }
    (end, Flags { indented, keyword_seen: true, can_glue: false })
}

fn main_plain_step(threshold: isize, args: &[ArgItem], schema: &FunctionSchema, width: usize, index: usize, lines: &mut Vec<LayoutLine>, f: Flags) -> (r: (usize, Flags))
    requires
        index < args.len(),
        !args_view(args@)[index as int].is_comment,
        !schema.spec_is_option(args_view(args@)[index as int].text),
        !schema.spec_is_one_value_keyword(args_view(args@)[index as int].text),
        schema.spec_subparser(args_view(args@)[index as int].text) is None,
        schema.spec_compound(args_view(args@)[index as int].text) is None,
        !schema.spec_is_multi_value_keyword(args_view(args@)[index as int].text),
        !schema.spec_is_simple_keyword(args_view(args@)[index as int].text),
    ensures
        main_goes_to(threshold, args_view(args@), *schema, width, index as int, mstate(old(lines)@, f), r.0 as int, mstate(final(lines)@, r.1)),
{
    let ghost a = args_view(args@);
    assert(a[index as int] == args@[index as int].view());
    let end = outer_end_exec(args, index + 1, schema);
    let group = sub_args(args, index, end);
    let more = pack_arg_items_exec(
        threshold,
        0,
        Vec::new(),
        group,
        width,
        schema.default_list_type,
    );
    proof {
        assert(strs(Seq::<String>::empty()) =~= Seq::<Seq<char>>::empty());
    }
    extend_lines(lines, more);
    let can_glue = if f.keyword_seen {
        false
    } else {
        f.can_glue
    };
    (end, Flags { indented: f.indented, keyword_seen: f.keyword_seen, can_glue })
}

/// The keyword groups of `args` from `start` on, after `lines`.
fn layout_main_exec(
    threshold: isize,
    args: &[ArgItem],
    schema: &FunctionSchema,
    width: usize,
    start: usize,
    lines: Vec<LayoutLine>,
) -> (r: Vec<LayoutLine>)
    requires
        start <= args.len(),
    ensures
        lines_view(r@) == layout_main(
            threshold,
            args_view(args@),
            *schema,
            width,
            start as int,
            MainState {
                lines: lines_view(lines@),
                any_indented: false,
                any_keyword: false,
                can_glue: true,
            },
        ),
    decreases args@.len(), 1nat, 0nat,
{
    let ghost a = args_view(args@);
    let mut f = Flags { indented: false, keyword_seen: false, can_glue: true };
    let ghost goal = layout_main(threshold, a, *schema, width, start as int, mstate(lines@, f));
    let mut lines = lines;
    let mut index = start;
    while index < args.len()
        invariant
            index <= args.len(),
            a == args_view(args@),
            goal == layout_main(threshold, a, *schema, width, index as int, mstate(lines@, f)),
        decreases args.len() - index,
    {
        assert(a[index as int] == args@[index as int].view());
        let kw = args[index].text.as_str();
        let r = if args[index].is_comment {
            main_comment_step(threshold, args, schema, width, index, &mut lines, f)
        } else if schema.is_option(kw) {
            main_option_step(threshold, args, schema, width, index, &mut lines, f)
        } else if schema.is_one_value_keyword(kw) {
            main_one_value_step(threshold, args, schema, width, index, &mut lines, f)
        } else if let Some(sub) = schema.subparser(kw) {
            main_subparser_step(threshold, args, schema, sub, width, index, &mut lines, f)
        } else if let Some(c) = schema.compound_list_keyword(kw) {
            main_compound_step(threshold, args, schema, c, width, index, &mut lines, f)
        } else if schema.is_multi_value_keyword(kw) || schema.is_simple_keyword(kw) {
            main_multi_step(threshold, args, schema, width, index, &mut lines, f)
        } else {
            main_plain_step(threshold, args, schema, width, index, &mut lines, f)
        };
        index = r.0;
        f = r.1;
    }
    lines
}

/// Lays out a sub-parser keyword and its arguments, as `layout_subparser`
/// states.
fn layout_subparser_exec(
    threshold: isize,
    keyword: &str,
    args: &[ArgItem],
    schema: &FunctionSchema,
    width: usize,
    flat: bool,
) -> (r: Vec<LayoutLine>)
    ensures
        lines_view(r@) == layout_subparser(threshold, keyword@, args_view(args@), *schema, width, flat),
    decreases args@.len(), 3nat, 0nat,
{
    let kl = byte_len(keyword);
    let child_width: usize = if width >= kl {
        width - kl
    } else {
        0
    };
    let child = layout_schema_args_exec(threshold, args, schema, false, child_width, child_width, 0);
    let mut lines: Vec<LayoutLine> = Vec::new();
    if child.len() == 0 {
        push_line(&mut lines, new_line(0, owned(keyword)));
        return lines;
    }
    let texts_v = line_texts_exec(&child);
    let inline = app_all_exec(owned(keyword), &texts_v);
    if !has_comment_arg_exec(args) && !any_indented_exec(&child) && byte_len(inline.as_str())
        <= width {
        push_line(&mut lines, new_line(0, inline));
        return lines;
    }
    let has_positional = match &schema.positional {
        Some(p) => p.max > 0,
        None => false,
    };
    let first_text = spaced_exec(keyword, child[0].text.as_str());
    if has_positional && child[0].indent == 0 && byte_len(first_text.as_str()) <= width {
        push_line(&mut lines, new_line(0, first_text));
        let rest = plain_exec(&child, 1, !flat);
        extend_lines(&mut lines, rest);
    } else {
        push_line(&mut lines, new_line(0, owned(keyword)));
        let rest = plain_exec(&child, 0, !flat);
        extend_lines(&mut lines, rest);
    }
    lines
}

/// Lays out a command's items under its schema.
pub fn layout_schema_items_exec(
    threshold: isize,
    items: &[Item],
    schema: &FunctionSchema,
    width: usize,
    header_budget: usize,
) -> (r: Vec<LayoutLine>)
    ensures
        lines_view(r@) == layout_schema_items(threshold, items_view(items@), *schema, width, header_budget),
{
    let placed = place_schema_comments_exec(items, schema, width);
    let args = to_arg_items(&placed);
    layout_schema_args_exec(threshold, args.as_slice(), schema, false, width, header_budget, 0)
}

} // verus!
