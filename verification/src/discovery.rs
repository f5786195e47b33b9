//! Which files are CMake files, and which commands a file formats over
//! several lines without having a schema.
use crate::config::Config;
use crate::cst::{CommandNode, ElementView, SyntaxElement, SyntaxNode, TokenView, args_from, first_unquoted, token_view, tokens_view};
use crate::layout_spec::join_space;
use crate::pack::strs;
use crate::schema::registry_key;
use crate::syntax::SyntaxKind;
use crate::text::{blen, byte_len, chars_of, str_eq};
use vstd::prelude::*;

verus! {

// ---------------------------------------------------------------------------
// CMake files
// ---------------------------------------------------------------------------
/// Index of the last `c` in `s`, or -1.
pub open spec fn last_index_of(s: Seq<char>, c: char) -> int
    decreases s.len(),
{
    if s.len() == 0 {
        -1
    } else if s.last() == c {
        s.len() - 1
    } else {
        last_index_of(s.drop_last(), c)
    }
}

pub proof fn lemma_last_index_of(s: Seq<char>, c: char)
    ensures
        -1 <= last_index_of(s, c) < s.len(),
    decreases s.len(),
{
    if s.len() > 0 && s.last() != c {
        lemma_last_index_of(s.drop_last(), c);
    }
}

/// The part of a path after its last `/`.
pub open spec fn basename(path: Seq<char>) -> Seq<char> {
    path.skip(last_index_of(path, '/') + 1)
}

pub open spec fn ends_with_seq(s: Seq<char>, t: Seq<char>) -> bool {
    t.len() <= s.len() && s.skip(s.len() - t.len()) == t
}

/// `CMakeLists.txt`, or a name ending in `.cmake` or `.cmake.in`.
pub open spec fn is_cmake_path(path: Seq<char>) -> bool {
    basename(path) == "CMakeLists.txt"@ || ends_with_seq(path, ".cmake"@) || ends_with_seq(
        path,
        ".cmake.in"@,
    )
}

fn ends_with_str(s: &str, t: &str) -> (r: bool)
    ensures
        r == ends_with_seq(s@, t@),
{
    let sv = chars_of(s);
    let tv = chars_of(t);
    if tv.len() > sv.len() {
        return false;
    }
    let off = sv.len() - tv.len();
    let mut i: usize = 0;
    while i < tv.len()
        invariant
            i <= tv.len(),
            off + tv.len() == sv.len(),
            sv@ == s@,
            tv@ == t@,
            forall|j: int| 0 <= j < i ==> s@[off + j] == t@[j],
        decreases tv.len() - i,
    {
        if sv[off + i] != tv[i] {
            assert(s@.skip(off as int)[i as int] != t@[i as int]);
            return false;
        }
        i += 1;
    }
    assert(s@.skip(off as int) =~= t@);
    true
}

/// Whether `path` names a CMake file.
pub fn is_cmake_file(path: &str) -> (r: bool)
    ensures
        r == is_cmake_path(path@),
{
    let v = chars_of(path);
    let mut k = v.len();
    assert(path@.take(k as int) =~= path@);
    while k > 0 && v[k - 1] != '/'
        invariant
            k <= v.len(),
            v@ == path@,
            last_index_of(path@.take(k as int), '/') == last_index_of(path@, '/'),
        decreases k,
    {
        assert(path@.take(k as int).drop_last() =~= path@.take(k - 1));
        k -= 1;
    }
    proof {
        assert(path@.take(v.len() as int) =~= path@);
        if k > 0 {
            assert(path@.take(k as int).last() == '/');
        }
        assert(last_index_of(path@, '/') + 1 == k);
    }
    let base = crate::text::string_of_range(&v, k, v.len());
    assert(base@ =~= basename(path@));
    str_eq(base.as_str(), "CMakeLists.txt") || ends_with_str(path, ".cmake") || ends_with_str(
        path,
        ".cmake.in",
    )
}

/// Splitting at `sep`: the finished pieces and the piece being read.
pub open spec fn split_on(s: Seq<char>, sep: char) -> (Seq<Seq<char>>, Seq<char>)
    decreases s.len(),
{
    if s.len() == 0 {
        (Seq::empty(), Seq::empty())
    } else {
        let (done, cur) = split_on(s.drop_last(), sep);
        if s.last() == sep {
            (done.push(cur), Seq::empty())
        } else {
            (done, cur.push(s.last()))
        }
    }
}

/// The non-empty pieces that are CMake paths.
pub open spec fn cmake_pieces(pieces: Seq<Seq<char>>) -> Seq<Seq<char>>
    decreases pieces.len(),
{
    if pieces.len() == 0 {
        Seq::empty()
    } else {
        let r = cmake_pieces(pieces.drop_last());
        let p = pieces.last();
        if p.len() > 0 && is_cmake_path(p) {
            r.push(p)
        } else {
            r
        }
    }
}

/// The CMake files in a NUL-separated list of paths (as `git ls-files -z`
/// prints it).
pub open spec fn cmake_files_of(listing: Seq<char>) -> Seq<Seq<char>> {
    cmake_pieces(split_on(listing, '\0').0.push(split_on(listing, '\0').1))
}

fn keep_if_cmake(done: &mut Vec<String>, piece: String)
    ensures
        strs(final(done)@) == if piece@.len() > 0 && is_cmake_path(piece@) {
            strs(old(done)@).push(piece@)
        } else {
            strs(old(done)@)
        },
{
    proof {
        crate::text::lemma_blen_ge_len(piece@);
    }
    if byte_len(piece.as_str()) > 0 && is_cmake_file(piece.as_str()) {
        let ghost before = done@;
        done.push(piece);
        assert(strs(done@) =~= strs(before).push(piece@));
    }
}

/// The CMake files among the NUL-separated paths of `listing`.
pub fn cmake_files_in_listing(listing: &str) -> (r: Vec<String>)
    ensures
        strs(r@) == cmake_files_of(listing@),
{
    let v = chars_of(listing);
    let mut done: Vec<String> = Vec::new();
    let mut cur = String::new();
    let mut i: usize = 0;
    assert(listing@.take(0) =~= Seq::<char>::empty());
    assert(strs(done@) =~= Seq::<Seq<char>>::empty());
    while i < v.len()
        invariant
            i <= v.len(),
            v@ == listing@,
            strs(done@) == cmake_pieces(split_on(listing@.take(i as int), '\0').0),
            cur@ == split_on(listing@.take(i as int), '\0').1,
        decreases v.len() - i,
    {
        let c = v[i];
        let ghost acc = split_on(listing@.take(i as int), '\0');
        assert(listing@.take(i + 1).drop_last() =~= listing@.take(i as int));
        assert(listing@.take(i + 1).last() == c);
        if c == '\0' {
            assert(acc.0.push(acc.1).drop_last() =~= acc.0);
            let piece = cur;
            cur = String::new();
            keep_if_cmake(&mut done, piece);
            assert(cur@ =~= Seq::<char>::empty());
        } else {
            cur.push(c);
        }
        i += 1;
    }
    assert(listing@.take(i as int) =~= listing@);
    let ghost acc = split_on(listing@, '\0');
    assert(acc.0.push(acc.1).drop_last() =~= acc.0);
    keep_if_cmake(&mut done, cur);
    done
}

// ---------------------------------------------------------------------------
// Commands formatted over several lines without a schema
// ---------------------------------------------------------------------------
pub open spec fn has_comment_token(ts: Seq<TokenView>) -> bool {
    exists|i: int| 0 <= i < ts.len() && ts[i].0 == SyntaxKind::COMMENT
}

pub open spec fn token_texts(ts: Seq<TokenView>) -> Seq<Seq<char>> {
    ts.map_values(|t: TokenView| t.1)
}

/// A command goes over several lines: it holds a comment, or
/// `name(arg arg ...)` is wider than the line.
pub open spec fn would_be_multiline(ts: Seq<TokenView>, line_width: usize) -> bool {
    match first_unquoted(ts, 0) {
        None => false,
        Some(i) => {
            let args = args_from(ts, 0, false, 0);
            has_comment_token(args) || blen(
                ts[i].1 + seq!['('] + join_space(token_texts(args)) + seq![')'],
            ) > line_width
        },
    }
}

/// Whether the command would be formatted over several lines.
pub fn command_would_be_multiline(cmd: &CommandNode, config: &Config) -> (r: bool)
    ensures
        r == would_be_multiline(cmd.view(), config.line_width),
{
    let name = match cmd.name() {
        Some(t) => t.text,
        None => {
            return false;
        },
    };
    let args = cmd.args();
    let ghost av = tokens_view(args@);
    let mut i: usize = 0;
    while i < args.len()
        invariant
            i <= args.len(),
            av == tokens_view(args@),
            av == args_from(cmd.view(), 0, false, 0),
            first_unquoted(cmd.view(), 0) is Some,
            forall|j: int| 0 <= j < i ==> av[j].0 != SyntaxKind::COMMENT,
        decreases args.len() - i,
    {
        assert(av[i as int] == token_view(args@[i as int]));
        if args[i].kind == SyntaxKind::COMMENT {
            assert(has_comment_token(av));
            return true;
        }
        i += 1;
    }
    let mut single = name;
    single.push('(');
    let ghost start = single@;
    let mut k: usize = 0;
    assert(token_texts(av).take(0) =~= Seq::<Seq<char>>::empty());
    while k < args.len()
        invariant
            k <= args.len(),
            av == tokens_view(args@),
            single@ == start + join_space(token_texts(av).take(k as int)),
        decreases args.len() - k,
    {
        let ghost t = token_texts(av).take(k + 1);
        assert(t.drop_last() =~= token_texts(av).take(k as int));
        assert(t.last() == args@[k as int].text@);
        if k > 0 {
            single.push(' ');
        } else {
            assert(token_texts(av).take(k as int) =~= Seq::<Seq<char>>::empty());
        }
        crate::text::push_str(&mut single, args[k].text.as_str());
        assert(single@ =~= start + join_space(t));
        k += 1;
    }
    assert(token_texts(av).take(k as int) =~= token_texts(av));
    single.push(')');
    assert(!has_comment_token(av));
    assert(single@ =~= name@ + seq!['('] + join_space(token_texts(av)) + seq![')']);
    byte_len(single.as_str()) > config.line_width
}

/// The names of the commands of a file that have no schema and would be
/// formatted over several lines.
pub open spec fn unscanned_from(cfg: Config, es: Seq<ElementView>) -> Seq<Seq<char>>
    decreases es.len(),
{
    if es.len() == 0 {
        Seq::empty()
    } else {
        let r = unscanned_from(cfg, es.drop_last());
        match es.last() {
            ElementView::Command(ts) => match first_unquoted(ts, 0) {
                Some(i) => if cfg.function_schemas.lookup(registry_key(ts[i].1)) is None
                    && would_be_multiline(ts, cfg.line_width) {
                    r.push(ts[i].1)
                } else {
                    r
                },
                None => r,
            },
            _ => r,
        }
    }
}

/// The names of the commands of `root` that have no schema under `config`
/// and would be formatted over several lines, in source order.
pub fn unscanned_multiline_commands(root: &SyntaxNode, config: &Config) -> (r: Vec<String>)
    ensures
        strs(r@) == unscanned_from(*config, root.view()),
{
    let ghost es = root.view();
    let mut r: Vec<String> = Vec::new();
    let mut i: usize = 0;
    assert(es.take(0) =~= Seq::<ElementView>::empty());
    assert(strs(r@) =~= Seq::<Seq<char>>::empty());
    while i < root.children.len()
        invariant
            i <= root.children.len(),
            es == root.view(),
            strs(r@) == unscanned_from(*config, es.take(i as int)),
        decreases root.children.len() - i,
    {
        assert(es.take(i + 1).drop_last() =~= es.take(i as int));
        assert(es.take(i + 1).last() == crate::cst::element_view(root.children@[i as int]));
        if let SyntaxElement::Command(c) = &root.children[i] {
            if let Some(t) = c.name() {
                if config.function_schemas.get(t.text.as_str()).is_none()
                    && command_would_be_multiline(c, config) {
                    let ghost before = r@;
                    r.push(t.text);
                    assert(strs(r@) =~= strs(before).push(t.text@));
                }
            }
        }
        i += 1;
    }
    assert(es.take(i as int) =~= es);
    r
}

} // verus!
