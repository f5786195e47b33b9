//! The unified diff between a file and its formatted text, as `--check`
//! reports it.
use vstd::prelude::*;

verus! {

/// Whether a line of a hunk is kept, removed or added.
#[derive(Debug, Clone, Copy, PartialEq, Eq, Structural)]
pub enum LineTag {
    Equal,
    Delete,
    Insert,
}

/// One hunk of a unified diff: its header (`@@ -a,b +c,d @@`) and its lines,
/// each ending with a line break.
pub struct Hunk {
    pub header: String,
    pub lines: Vec<(LineTag, String)>,
}

pub struct HunkV {
    pub header: Seq<char>,
    pub lines: Seq<(LineTag, Seq<char>)>,
}

impl Hunk {
    pub open spec fn view(&self) -> HunkV {
        HunkV {
            header: self.header@,
            lines: self.lines@.map_values(|l: (LineTag, String)| (l.0, l.1@)),
        }
    }
}

pub open spec fn hunks_view(hs: Seq<Hunk>) -> Seq<HunkV> {
    hs.map_values(|h: Hunk| h.view())
}

/// The hunks that `similar` finds between two texts, diffed by lines with
/// three lines of context.
pub uninterp spec fn unified_hunks(old: Seq<char>, new: Seq<char>) -> Seq<HunkV>;

/// Calls `similar::TextDiff::from_lines` and its unified diff with a context
/// radius of 3; the hunks it returns are named `unified_hunks` of the two
/// texts (the default configuration has no deadline, so they depend on the
/// texts alone). Each change is taken as its tag and its `Display` text.
#[verifier::external_body]
fn diff_hunks(old: &str, new: &str) -> (r: Vec<Hunk>)
    ensures
        hunks_view(r@) == unified_hunks(old@, new@),
{
    let diff = similar::TextDiff::from_lines(old, new);
    let mut udiff = diff.unified_diff();
    udiff.context_radius(3);
    udiff.iter_hunks().map(|h| Hunk {
        header: h.header().to_string(),
        lines: h.iter_changes().map(|c| (match c.tag() {
            similar::ChangeTag::Equal => LineTag::Equal,
            similar::ChangeTag::Delete => LineTag::Delete,
            similar::ChangeTag::Insert => LineTag::Insert,
        }, c.to_string())).collect(),
    }).collect()
}

/// The mark in front of a line of a hunk.
pub open spec fn tag_mark(t: LineTag) -> char {
    match t {
        LineTag::Equal => ' ',
        LineTag::Delete => '-',
        LineTag::Insert => '+',
    }
}

pub open spec fn render_lines(lines: Seq<(LineTag, Seq<char>)>) -> Seq<char>
    decreases lines.len(),
{
    if lines.len() == 0 {
        Seq::empty()
    } else {
        render_lines(lines.drop_last()) + seq![tag_mark(lines.last().0)] + lines.last().1
    }
}

pub open spec fn render_hunks(hunks: Seq<HunkV>) -> Seq<char>
    decreases hunks.len(),
{
    if hunks.len() == 0 {
        Seq::empty()
    } else {
        render_hunks(hunks.drop_last()) + hunks.last().header + seq!['\n'] + render_lines(
            hunks.last().lines,
        )
    }
}

/// The report of a diff: nothing when there is no hunk, else the file name
/// after `--- ` and `+++ `, then each hunk's header and its marked lines.
pub open spec fn diff_report(hunks: Seq<HunkV>, filename: Seq<char>) -> Seq<char> {
    if hunks.len() == 0 {
        Seq::empty()
    } else {
        seq!['-', '-', '-', ' '] + filename + seq!['\n', '+', '+', '+', ' '] + filename + seq!['\n']
            + render_hunks(hunks)
    }
}

/// The report of the diff `hunks` of file `filename`.
pub fn render_diff(hunks: &Vec<Hunk>, filename: &str) -> (r: String)
    ensures
        r@ == diff_report(hunks_view(hunks@), filename@),
{
    let ghost hv = hunks_view(hunks@);
    let mut out = String::new();
    if hunks.len() == 0 {
        return out;
    }
    out.push('-');
    out.push('-');
    out.push('-');
    out.push(' ');
    crate::text::push_str(&mut out, filename);
    out.push('\n');
    out.push('+');
    out.push('+');
    out.push('+');
    out.push(' ');
    crate::text::push_str(&mut out, filename);
    out.push('\n');
    let ghost head = out@;
    let mut i: usize = 0;
    assert(hv.take(0) =~= Seq::<HunkV>::empty());
    assert(head + render_hunks(hv.take(0)) =~= head);
    while i < hunks.len()
        invariant
            i <= hunks.len(),
            hv == hunks_view(hunks@),
            out@ == head + render_hunks(hv.take(i as int)),
        decreases hunks.len() - i,
    {
        let h = &hunks[i];
        crate::text::push_str(&mut out, h.header.as_str());
        out.push('\n');
        let ghost lv = h.view().lines;
        let ghost mid = out@;
        let mut k: usize = 0;
        assert(lv.take(0) =~= Seq::<(LineTag, Seq<char>)>::empty());
        assert(mid + render_lines(lv.take(0)) =~= mid);
        while k < h.lines.len()
            invariant
                k <= h.lines.len(),
                lv == h.view().lines,
                out@ == mid + render_lines(lv.take(k as int)),
            decreases h.lines.len() - k,
        {
            let mark = match h.lines[k].0 {
                LineTag::Equal => ' ',
                LineTag::Delete => '-',
                LineTag::Insert => '+',
            };
            out.push(mark);
            crate::text::push_str(&mut out, h.lines[k].1.as_str());
            assert(lv.take(k + 1).drop_last() =~= lv.take(k as int));
            assert(out@ =~= mid + render_lines(lv.take(k + 1)));
            k += 1;
        }
        assert(lv.take(k as int) =~= lv);
        assert(hv.take(i + 1).drop_last() =~= hv.take(i as int));
        assert(hv.take(i + 1).last() == h.view());
        assert(out@ =~= head + render_hunks(hv.take(i + 1)));
        i += 1;
    }
    assert(hv.take(i as int) =~= hv);
    out
}

/// The report of the differences between `source` and `formatted`
/// (empty when they are equal line by line).
pub fn unified_diff_text(source: &str, formatted: &str, filename: &str) -> (r: String)
    ensures
        r@ == diff_report(unified_hunks(source@, formatted@), filename@),
{
    let hunks = diff_hunks(source, formatted);
    render_diff(&hunks, filename)
}

} // verus!
