//! Path templates and the paths made from them.
//!
//! A template begins with `/` and consists of segments with `/` between them.
//! A segment of the form `{name}` is a placeholder; any other segment is
//! literal. In a path the placeholders are replaced, in their order, by
//! percent-encoded arguments. Reading a path takes the segments that stand at
//! the placeholders' positions and decodes them; literal segments are not
//! compared, since a request is matched to its endpoint elsewhere.

use vstd::prelude::*;
use crate::escape::escape;
use crate::escape::unescape;
use crate::text::has_byte;
use crate::text::is_identifier;
use crate::text::join;
use crate::text::rows;
use crate::text::split;

verus! {

/// Whether a literal segment may hold the byte `b`: a visible ASCII character
/// other than `/`, `?`, `#`, `{` and `}`.
pub open spec fn is_path_byte(b: u8) -> bool {
    0x21 <= b <= 0x7e && b != 0x2f && b != 0x3f && b != 0x23 && b != 0x7b && b != 0x7d
}

/// Whether `seg` has the form of a placeholder: `{`, anything, `}`.
pub open spec fn is_placeholder(seg: Seq<u8>) -> bool {
    seg.len() >= 2 && seg[0] == 0x7b && seg[seg.len() - 1] == 0x7d
}

/// What stands between the braces of a placeholder.
pub open spec fn placeholder_name(seg: Seq<u8>) -> Seq<u8> {
    seg.subrange(1, seg.len() - 1)
}

/// Whether `seg` is a literal segment.
pub open spec fn is_literal(seg: Seq<u8>) -> bool {
    forall|i: int| 0 <= i < seg.len() ==> is_path_byte(#[trigger] seg[i])
}

/// Whether `seg` may stand in a template: a placeholder whose name is an
/// identifier, or a literal segment.
pub open spec fn is_segment(seg: Seq<u8>) -> bool {
    (is_placeholder(seg) && is_identifier(placeholder_name(seg))) || is_literal(seg)
}

/// `s` without its first byte.
pub open spec fn after_first(s: Seq<u8>) -> Seq<u8> {
    if s.len() == 0 {
        s
    } else {
        s.skip(1)
    }
}

/// The segments of a template or of a path.
pub open spec fn segments(path: Seq<u8>) -> Seq<Seq<u8>> {
    split(after_first(path), 0x2f)
}

/// Whether `t` is a well-formed template.
pub open spec fn is_template(t: Seq<u8>) -> bool {
    &&& t.len() > 0
    &&& t[0] == 0x2f
    &&& forall|i: int| 0 <= i < segments(t).len() ==> is_segment(#[trigger] segments(t)[i])
}

/// The number of placeholders among the first `n` segments.
pub open spec fn rank(segs: Seq<Seq<u8>>, n: int) -> int
    decreases n,
{
    if n <= 0 {
        0
    } else if is_placeholder(segs[n - 1]) {
        rank(segs, n - 1) + 1
    } else {
        rank(segs, n - 1)
    }
}

/// The names of the placeholders among the first `n` segments, in order.
pub open spec fn names(segs: Seq<Seq<u8>>, n: int) -> Seq<Seq<u8>>
    decreases n,
{
    if n <= 0 {
        Seq::empty()
    } else if is_placeholder(segs[n - 1]) {
        names(segs, n - 1).push(placeholder_name(segs[n - 1]))
    } else {
        names(segs, n - 1)
    }
}

/// The names of a template's placeholders, in order.
pub open spec fn parameters(template: Seq<u8>) -> Seq<Seq<u8>> {
    names(segments(template), segments(template).len() as int)
}

/// The segments with each placeholder replaced by the encoding of the
/// argument of its rank. A placeholder for which no argument is left stays.
pub open spec fn fill(segs: Seq<Seq<u8>>, args: Seq<Seq<u8>>) -> Seq<Seq<u8>> {
    Seq::new(
        segs.len(),
        |i: int|
            if is_placeholder(segs[i]) && rank(segs, i) < args.len() {
                escape(args[rank(segs, i)])
            } else {
                segs[i]
            },
    )
}

/// The path that a template gives with `args` for its placeholders.
pub open spec fn path_text(template: Seq<u8>, args: Seq<Seq<u8>>) -> Seq<u8> {
    seq![0x2fu8] + join(fill(segments(template), args), 0x2f)
}

/// The decoded segments of `given` at the positions of the placeholders of
/// `segs` from position `i` on, or `None` where `given` ends before one of
/// them.
pub open spec fn extract(segs: Seq<Seq<u8>>, given: Seq<Seq<u8>>, i: int) -> Option<Seq<Seq<u8>>>
    decreases segs.len() - i,
{
    if i < 0 || i >= segs.len() {
        Some(Seq::empty())
    } else if is_placeholder(segs[i]) {
        if i >= given.len() {
            None
        } else {
            match extract(segs, given, i + 1) {
                Some(r) => Some(seq![unescape(given[i])] + r),
                None => None,
            }
        }
    } else {
        extract(segs, given, i + 1)
    }
}

/// The arguments that `path` holds for the placeholders of `template`.
pub open spec fn path_args(template: Seq<u8>, path: Seq<u8>) -> Option<Seq<Seq<u8>>> {
    extract(segments(template), segments(path), 0)
}

/// There are as many names as the rank says.
pub proof fn lemma_names_len(segs: Seq<Seq<u8>>, n: int)
    ensures
        names(segs, n).len() == rank(segs, n),
        rank(segs, n) >= 0,
    decreases n,
{
    if n > 0 {
        lemma_names_len(segs, n - 1);
    }
}

/// The rank does not fall.
pub proof fn lemma_rank_grows(segs: Seq<Seq<u8>>, i: int, j: int)
    requires
        i <= j,
    ensures
        rank(segs, i) <= rank(segs, j),
    decreases j - i,
{
    if i < j {
        lemma_rank_grows(segs, i, j - 1);
    }
}

/// Reading the filled segments gives back the arguments.
pub proof fn lemma_extract_fill(segs: Seq<Seq<u8>>, args: Seq<Seq<u8>>, i: int)
    requires
        0 <= i <= segs.len(),
        args.len() == rank(segs, segs.len() as int),
    ensures
        extract(segs, fill(segs, args), i) == Some(args.skip(rank(segs, i))),
    decreases segs.len() - i,
{
    lemma_names_len(segs, i);
    if i < segs.len() {
        lemma_extract_fill(segs, args, i + 1);
        lemma_rank_grows(segs, i + 1, segs.len() as int);
        if is_placeholder(segs[i]) {
            let k = rank(segs, i);
            crate::escape::lemma_unescape_escape(args[k]);
        }
    }
}

/// Reading a path made from a template gives back its arguments.
pub proof fn lemma_path_round_trip(template: Seq<u8>, args: Seq<Seq<u8>>)
    requires
        args.len() == parameters(template).len(),
    ensures
        path_args(template, path_text(template, args)) == Some(args),
{
    let segs = segments(template);
    let filled = fill(segs, args);
    let path = path_text(template, args);
    lemma_names_len(segs, segs.len() as int);
    crate::text::lemma_split_pieces(after_first(template), 0x2f, Seq::empty());
    assert forall|i: int| 0 <= i < filled.len() implies !has_byte(#[trigger] filled[i], 0x2f) by {
        if is_placeholder(segs[i]) && rank(segs, i) < args.len() {
            crate::escape::lemma_escape_has_no(args[rank(segs, i)], 0x2f);
        } else {
            assert(filled[i] == segs[i]);
        }
    }
    crate::text::lemma_split_join(filled, 0x2f);
    assert(after_first(path) =~= join(filled, 0x2f));
    lemma_extract_fill(segs, args, 0);
}

/// Tests whether `seg` has the form of a placeholder.
pub fn placeholder(seg: &[u8]) -> (r: bool)
    ensures
        r == is_placeholder(seg@),
{
    seg.len() >= 2 && seg[0] == 0x7b && seg[seg.len() - 1] == 0x7d
}

/// Tests whether `seg` may stand in a template.
pub fn segment(seg: &[u8]) -> (r: bool)
    ensures
        r == is_segment(seg@),
{
    if placeholder(seg) {
        let name = crate::text::slice(seg, 1, seg.len() - 1);
        if crate::text::identifier(name.as_slice()) {
            return true;
        }
    }
    let mut i: usize = 0;
    while i < seg.len()
        invariant
            i <= seg.len(),
            !(is_placeholder(seg@) && is_identifier(placeholder_name(seg@))),
            forall|j: int| 0 <= j < i ==> is_path_byte(#[trigger] seg@[j]),
        decreases seg.len() - i,
    {
        let b: u8 = seg[i];
        if !(0x21 <= b && b <= 0x7e && b != 0x2f && b != 0x3f && b != 0x23 && b != 0x7b && b
            != 0x7d) {
            return false;
        }
        i += 1;
    }
    true
}

/// The segments of a template or of a path.
pub fn split_path(path: &[u8]) -> (r: Vec<Vec<u8>>)
    ensures
        rows(r@) == segments(path@),
{
    if path.len() == 0 {
        crate::text::split_at_byte(path, 0x2f)
    } else {
        let rest = crate::text::slice(path, 1, path.len());
        crate::text::split_at_byte(rest.as_slice(), 0x2f)
    }
}

/// Tests whether `t` is a well-formed template.
pub fn template(t: &[u8]) -> (r: bool)
    ensures
        r == is_template(t@),
{
    if t.len() == 0 || t[0] != 0x2f {
        return false;
    }
    let segs = split_path(t);
    let mut i: usize = 0;
    while i < segs.len()
        invariant
            i <= segs.len(),
            rows(segs@) == segments(t@),
            forall|j: int| 0 <= j < i ==> is_segment(#[trigger] segments(t@)[j]),
        decreases segs.len() - i,
    {
        assert(rows(segs@)[i as int] == segs@[i as int]@);
        if !segment(segs[i].as_slice()) {
            return false;
        }
        i += 1;
    }
    true
}

/// The names of a template's placeholders, in order.
pub fn template_parameters(template: &[u8]) -> (r: Vec<Vec<u8>>)
    ensures
        rows(r@) == parameters(template@),
{
    let segs = split_path(template);
    let mut out: Vec<Vec<u8>> = Vec::new();
    let mut i: usize = 0;
    while i < segs.len()
        invariant
            i <= segs.len(),
            rows(segs@) == segments(template@),
            rows(out@) == names(segments(template@), i as int),
        decreases segs.len() - i,
    {
        if placeholder(segs[i].as_slice()) {
            let name = crate::text::slice(segs[i].as_slice(), 1, segs[i].len() - 1);
            out.push(name);
        }
        i += 1;
    }
    out
}

/// The path that `template` gives with `args` for its placeholders.
pub fn write_path(template: &[u8], args: &Vec<Vec<u8>>) -> (r: Vec<u8>)
    ensures
        r@ == path_text(template@, rows(args@)),
{
    let segs = split_path(template);
    let ghost filled = fill(segments(template@), rows(args@));
    let mut out: Vec<Vec<u8>> = Vec::new();
    let mut i: usize = 0;
    let mut k: usize = 0;
    while i < segs.len()
        invariant
            i <= segs.len(),
            rows(segs@) == segments(template@),
            filled == fill(segments(template@), rows(args@)),
            k == rank(segments(template@), i as int),
            k <= i,
            out.len() == i,
            forall|j: int| 0 <= j < i ==> (#[trigger] out@[j])@ == filled[j],
        decreases segs.len() - i,
    {
        if placeholder(segs[i].as_slice()) {
            if k < args.len() {
                out.push(crate::escape::escaped(args[k].as_slice()));
            } else {
                out.push(crate::text::copy(segs[i].as_slice()));
            }
            k += 1;
        } else {
            out.push(crate::text::copy(segs[i].as_slice()));
        }
        i += 1;
    }
    assert(rows(out@) =~= filled);
    let mut path: Vec<u8> = Vec::new();
    path.push(0x2f);
    let joined = crate::text::join_rows(&out, 0x2f);
    crate::text::append(&mut path, joined.as_slice());
    path
}

/// The arguments that `path` holds for the placeholders of `template`, or
/// `None` where the path has too few segments.
pub fn read_path(template: &[u8], path: &[u8]) -> (r: Option<Vec<Vec<u8>>>)
    ensures
        match r {
            Some(args) => path_args(template@, path@) == Some(rows(args@)),
            None => path_args(template@, path@) is None,
        },
{
    let segs = split_path(template);
    let given = split_path(path);
    let mut out: Vec<Vec<u8>> = Vec::new();
    let mut i: usize = segs.len();
    while i > 0
        invariant
            i <= segs.len(),
            rows(segs@) == segments(template@),
            rows(given@) == segments(path@),
            extract(segments(template@), segments(path@), i as int) == Some(rows(out@)),
        decreases i,
    {
        i -= 1;
        if placeholder(segs[i].as_slice()) {
            if i >= given.len() {
                proof {
                    lemma_extract_none(segments(template@), segments(path@), i as int);
                }
                return None;
            }
            out.insert(0, crate::escape::unescaped(given[i].as_slice()));
        }
    }
    Some(out)
}

/// Where the path ends before a placeholder, no arguments can be read.
pub proof fn lemma_extract_none(segs: Seq<Seq<u8>>, given: Seq<Seq<u8>>, at: int)
    requires
        0 <= at < segs.len(),
        is_placeholder(segs[at]),
        at >= given.len(),
    ensures
        extract(segs, given, 0) is None,
{
    lemma_extract_none_from(segs, given, at, 0);
}

/// The same, read from position `i` on.
pub proof fn lemma_extract_none_from(segs: Seq<Seq<u8>>, given: Seq<Seq<u8>>, at: int, i: int)
    requires
        0 <= i <= at < segs.len(),
        is_placeholder(segs[at]),
        at >= given.len(),
    ensures
        extract(segs, given, i) is None,
    decreases at - i,
{
    if i < at {
        lemma_extract_none_from(segs, given, at, i + 1);
    }
}

} // verus!
