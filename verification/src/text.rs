//! Byte strings: classification of bytes, comparison, splitting and joining.
//!
//! All text that travels on the wire or comes from an endpoint definition is
//! held as bytes. The functions here are the building blocks of the path,
//! query and body codecs.

use vstd::prelude::*;

verus! {

/// Whether `b` is an ASCII letter or digit.
pub open spec fn is_alphanumeric(b: u8) -> bool {
    (0x30 <= b <= 0x39) || (0x41 <= b <= 0x5a) || (0x61 <= b <= 0x7a)
}

/// Whether `b` may open an identifier: an ASCII letter or `_`.
pub open spec fn is_ident_start(b: u8) -> bool {
    (0x41 <= b <= 0x5a) || (0x61 <= b <= 0x7a) || b == 0x5f
}

/// Whether `b` may continue an identifier: an ASCII letter, a digit or `_`.
pub open spec fn is_ident_byte(b: u8) -> bool {
    is_alphanumeric(b) || b == 0x5f
}

/// Whether `s` is an identifier: a letter or `_`, then letters, digits and `_`.
pub open spec fn is_identifier(s: Seq<u8>) -> bool {
    &&& s.len() > 0
    &&& is_ident_start(s[0])
    &&& forall|i: int| 0 <= i < s.len() ==> is_ident_byte(#[trigger] s[i])
}

/// Whether `b` is a blank: space, tab, carriage return or line feed.
pub open spec fn is_blank(b: u8) -> bool {
    b == 0x20 || b == 0x09 || b == 0x0a || b == 0x0d
}

/// The bytes of a sequence of ASCII characters.
pub open spec fn ascii(s: Seq<char>) -> Seq<u8> {
    Seq::new(s.len(), |i: int| s[i] as u8)
}

/// Whether `s` holds the byte `b`.
pub open spec fn has_byte(s: Seq<u8>, b: u8) -> bool {
    exists|i: int| 0 <= i < s.len() && #[trigger] s[i] == b
}

/// Whether `p` is a prefix of `s`.
pub open spec fn starts_with(s: Seq<u8>, p: Seq<u8>) -> bool {
    p.len() <= s.len() && s.take(p.len() as int) == p
}

/// The views of a sequence of byte vectors.
pub open spec fn rows(v: Seq<Vec<u8>>) -> Seq<Seq<u8>> {
    v.map_values(|r: Vec<u8>| r@)
}

/// The pieces of `s` between occurrences of `sep`, where `cur` is the piece
/// that was begun before `s`.
pub open spec fn split_from(s: Seq<u8>, sep: u8, cur: Seq<u8>) -> Seq<Seq<u8>>
    decreases s.len(),
{
    if s.len() == 0 {
        seq![cur]
    } else if s[0] == sep {
        seq![cur] + split_from(s.skip(1), sep, Seq::empty())
    } else {
        split_from(s.skip(1), sep, cur.push(s[0]))
    }
}

/// The pieces of `s` between occurrences of `sep`. There is always at least
/// one piece; `n` separators give `n + 1` pieces, some of which may be empty.
pub open spec fn split(s: Seq<u8>, sep: u8) -> Seq<Seq<u8>> {
    split_from(s, sep, Seq::empty())
}

/// The pieces of `parts` with `sep` between each two neighbours.
pub open spec fn join(parts: Seq<Seq<u8>>, sep: u8) -> Seq<u8>
    decreases parts.len(),
{
    if parts.len() == 0 {
        Seq::empty()
    } else if parts.len() == 1 {
        parts[0]
    } else {
        parts[0] + seq![sep] + join(parts.skip(1), sep)
    }
}

/// `s` cut at its first `sep`: what stands before it and what stands after
/// it. Without a `sep` everything stands before and nothing after.
pub open spec fn cut(s: Seq<u8>, sep: u8) -> (Seq<u8>, Seq<u8>)
    decreases s.len(),
{
    if s.len() == 0 {
        (Seq::empty(), Seq::empty())
    } else if s[0] == sep {
        (Seq::empty(), s.skip(1))
    } else {
        let r = cut(s.skip(1), sep);
        (seq![s[0]] + r.0, r.1)
    }
}

/// `s` without the blanks at its front.
pub open spec fn trim_front(s: Seq<u8>) -> Seq<u8>
    decreases s.len(),
{
    if s.len() > 0 && is_blank(s[0]) {
        trim_front(s.skip(1))
    } else {
        s
    }
}

/// `s` without the blanks at its end.
pub open spec fn trim_back(s: Seq<u8>) -> Seq<u8>
    decreases s.len(),
{
    if s.len() > 0 && is_blank(s[s.len() - 1]) {
        trim_back(s.take(s.len() - 1))
    } else {
        s
    }
}

/// `s` without the blanks at its front and at its end.
pub open spec fn trim(s: Seq<u8>) -> Seq<u8> {
    trim_back(trim_front(s))
}

/// Whether the rows hold `x`.
pub open spec fn has_row(list: Seq<Seq<u8>>, x: Seq<u8>) -> bool {
    exists|i: int| 0 <= i < list.len() && #[trigger] list[i] == x
}

/// A piece without the separator, put in front of `t`, only lengthens the
/// piece that is being read.
pub proof fn lemma_split_from_piece(p: Seq<u8>, t: Seq<u8>, sep: u8, cur: Seq<u8>)
    requires
        !has_byte(p, sep),
    ensures
        split_from(p + t, sep, cur) == split_from(t, sep, cur + p),
    decreases p.len(),
{
    if p.len() > 0 {
        let s = p + t;
        assert(s.skip(1) =~= p.skip(1) + t);
        lemma_split_from_piece(p.skip(1), t, sep, cur.push(p[0]));
        assert(cur.push(p[0]) + p.skip(1) =~= cur + p);
    }
}

/// Splitting undoes joining, as long as no piece holds the separator.
pub proof fn lemma_split_join(parts: Seq<Seq<u8>>, sep: u8)
    requires
        parts.len() > 0,
        forall|i: int| 0 <= i < parts.len() ==> !has_byte(#[trigger] parts[i], sep),
    ensures
        split(join(parts, sep), sep) == parts,
    decreases parts.len(),
{
    let empty = Seq::<u8>::empty();
    if parts.len() == 1 {
        lemma_split_from_piece(parts[0], empty, sep, empty);
    } else {
        let rest = parts.skip(1);
        let tail = seq![sep] + join(rest, sep);
        assert(join(parts, sep) =~= parts[0] + tail);
        lemma_split_from_piece(parts[0], tail, sep, empty);
        assert(tail.skip(1) =~= join(rest, sep));
        lemma_split_join(rest, sep);
    }
}

/// Cutting `k`, `sep`, `v` at the first `sep` gives back `k` and `v`, as long
/// as `k` does not hold the separator.
pub proof fn lemma_cut_pair(k: Seq<u8>, v: Seq<u8>, sep: u8)
    requires
        !has_byte(k, sep),
    ensures
        cut(k + seq![sep] + v, sep) == (k, v),
    decreases k.len(),
{
    let s = k + seq![sep] + v;
    if k.len() > 0 {
        assert(s.skip(1) =~= k.skip(1) + seq![sep] + v);
        lemma_cut_pair(k.skip(1), v, sep);
    }
}

/// What `has_byte` says of a concatenation.
pub proof fn lemma_has_byte_concat(a: Seq<u8>, b: Seq<u8>, x: u8)
    ensures
        has_byte(a + b, x) <==> has_byte(a, x) || has_byte(b, x),
{
    let s = a + b;
    if has_byte(a, x) {
        let i = choose|i: int| 0 <= i < a.len() && #[trigger] a[i] == x;
        assert(s[i] == x);
    }
    if has_byte(b, x) {
        let i = choose|i: int| 0 <= i < b.len() && #[trigger] b[i] == x;
        assert(s[a.len() + i] == x);
    }
    if has_byte(s, x) {
        let i = choose|i: int| 0 <= i < s.len() && #[trigger] s[i] == x;
        if i < a.len() {
            assert(a[i] == x);
        } else {
            assert(b[i - a.len()] == x);
        }
    }
}

/// No piece of a split holds the separator.
pub proof fn lemma_split_pieces(s: Seq<u8>, sep: u8, cur: Seq<u8>)
    requires
        !has_byte(cur, sep),
    ensures
        split_from(s, sep, cur).len() > 0,
        forall|i: int|
            0 <= i < split_from(s, sep, cur).len() ==> !has_byte(
                #[trigger] split_from(s, sep, cur)[i],
                sep,
            ),
    decreases s.len(),
{
    if s.len() > 0 {
        if s[0] == sep {
            lemma_split_pieces(s.skip(1), sep, Seq::empty());
        } else {
            lemma_has_byte_concat(cur, seq![s[0]], sep);
            lemma_split_pieces(s.skip(1), sep, cur.push(s[0]));
        }
    }
}

/// Joining with one more piece at the end.
pub proof fn lemma_join_push(parts: Seq<Seq<u8>>, p: Seq<u8>, sep: u8)
    ensures
        join(parts.push(p), sep) == if parts.len() == 0 {
            p
        } else {
            join(parts, sep) + seq![sep] + p
        },
    decreases parts.len(),
{
    let all = parts.push(p);
    if parts.len() > 0 {
        assert(all.skip(1) =~= parts.skip(1).push(p));
        lemma_join_push(parts.skip(1), p, sep);
    }
}

/// Tests whether `b` is an ASCII letter or digit.
pub fn alphanumeric(b: u8) -> (r: bool)
    ensures
        r == is_alphanumeric(b),
{
    (0x30 <= b && b <= 0x39) || (0x41 <= b && b <= 0x5a) || (0x61 <= b && b <= 0x7a)
}

/// Tests whether `s` is an identifier.
pub fn identifier(s: &[u8]) -> (r: bool)
    ensures
        r == is_identifier(s@),
{
    if s.len() == 0 {
        return false;
    }
    let first: u8 = s[0];
    if !((0x41 <= first && first <= 0x5a) || (0x61 <= first && first <= 0x7a) || first == 0x5f) {
        return false;
    }
    let mut i: usize = 0;
    while i < s.len()
        invariant
            i <= s.len(),
            forall|j: int| 0 <= j < i ==> is_ident_byte(#[trigger] s@[j]),
        decreases s.len() - i,
    {
        let b: u8 = s[i];
        if !(alphanumeric(b) || b == 0x5f) {
            return false;
        }
        i += 1;
    }
    true
}

/// Tests whether two byte strings are equal.
pub fn same(a: &[u8], b: &[u8]) -> (r: bool)
    ensures
        r == (a@ == b@),
{
    if a.len() != b.len() {
        return false;
    }
    let mut i: usize = 0;
    while i < a.len()
        invariant
            i <= a.len(),
            a.len() == b.len(),
            forall|j: int| 0 <= j < i ==> a@[j] == b@[j],
        decreases a.len() - i,
    {
        if a[i] != b[i] {
            return false;
        }
        i += 1;
    }
    assert(a@ =~= b@);
    true
}

/// Tests whether `s` begins with `p`.
pub fn begins_with(s: &[u8], p: &[u8]) -> (r: bool)
    ensures
        r == starts_with(s@, p@),
{
    if p.len() > s.len() {
        return false;
    }
    let mut i: usize = 0;
    while i < p.len()
        invariant
            i <= p.len(),
            p.len() <= s.len(),
            forall|j: int| 0 <= j < i ==> s@[j] == p@[j],
        decreases p.len() - i,
    {
        if s[i] != p[i] {
            return false;
        }
        i += 1;
    }
    assert(s@.take(p.len() as int) =~= p@);
    true
}

/// Tests whether `s` holds the byte `b`.
pub fn contains_byte(s: &[u8], b: u8) -> (r: bool)
    ensures
        r == has_byte(s@, b),
{
    let mut i: usize = 0;
    while i < s.len()
        invariant
            i <= s.len(),
            forall|j: int| 0 <= j < i ==> s@[j] != b,
        decreases s.len() - i,
    {
        if s[i] == b {
            return true;
        }
        i += 1;
    }
    false
}

/// A copy of `s`.
pub fn copy(s: &[u8]) -> (r: Vec<u8>)
    ensures
        r@ == s@,
{
    let mut r: Vec<u8> = Vec::new();
    append(&mut r, s);
    r
}

/// Puts the bytes of `s` at the end of `out`.
pub fn append(out: &mut Vec<u8>, s: &[u8])
    ensures
        final(out)@ == old(out)@ + s@,
{
    let mut i: usize = 0;
    while i < s.len()
        invariant
            i <= s.len(),
            out@ == old(out)@ + s@.take(i as int),
        decreases s.len() - i,
    {
        out.push(s[i]);
        i += 1;
    }
}

/// The bytes of an ASCII string.
pub fn bytes_of(s: &str) -> (r: Vec<u8>)
    requires
        s.is_ascii(),
    ensures
        r@ == ascii(s@),
{
    broadcast use vstd::string::is_ascii_spec_bytes;

    let r = s.as_bytes_vec();
    r
}

/// The part of `s` from `from` up to, not including, `to`.
pub fn slice(s: &[u8], from: usize, to: usize) -> (r: Vec<u8>)
    requires
        from <= to <= s.len(),
    ensures
        r@ == s@.subrange(from as int, to as int),
{
    let mut r: Vec<u8> = Vec::new();
    let mut i: usize = from;
    while i < to
        invariant
            from <= i <= to <= s.len(),
            r@ == s@.subrange(from as int, i as int),
        decreases to - i,
    {
        r.push(s[i]);
        i += 1;
    }
    r
}

/// Splits `s` at every `sep`.
pub fn split_at_byte(s: &[u8], sep: u8) -> (r: Vec<Vec<u8>>)
    ensures
        rows(r@) == split(s@, sep),
{
    let mut out: Vec<Vec<u8>> = Vec::new();
    let mut cur: Vec<u8> = Vec::new();
    let mut i: usize = 0;
    assert(s@.skip(0) =~= s@);
    while i < s.len()
        invariant
            i <= s.len(),
            rows(out@) + split_from(s@.skip(i as int), sep, cur@) == split(s@, sep),
        decreases s.len() - i,
    {
        let ghost rest = s@.skip(i as int);
        assert(rest.skip(1) =~= s@.skip(i + 1));
        if s[i] == sep {
            out.push(cur);
            cur = Vec::new();
        } else {
            cur.push(s[i]);
        }
        i += 1;
    }
    out.push(cur);
    out
}

/// Cuts `s` at its first `sep`.
pub fn cut_at_byte(s: &[u8], sep: u8) -> (r: (Vec<u8>, Vec<u8>))
    ensures
        (r.0@, r.1@) == cut(s@, sep),
{
    let mut head: Vec<u8> = Vec::new();
    let mut i: usize = 0;
    assert(s@.skip(0) =~= s@);
    while i < s.len() && s[i] != sep
        invariant
            i <= s.len(),
            cut(s@, sep) == (head@ + cut(s@.skip(i as int), sep).0, cut(s@.skip(i as int), sep).1),
        decreases s.len() - i,
    {
        let ghost rest = s@.skip(i as int);
        assert(rest.skip(1) =~= s@.skip(i + 1));
        head.push(s[i]);
        i += 1;
    }
    if i < s.len() {
        let tail = slice(s, i + 1, s.len());
        (head, tail)
    } else {
        (head, Vec::new())
    }
}

/// Joins the pieces of `parts` with `sep` between each two neighbours.
pub fn join_rows(parts: &Vec<Vec<u8>>, sep: u8) -> (r: Vec<u8>)
    ensures
        r@ == join(rows(parts@), sep),
{
    let mut out: Vec<u8> = Vec::new();
    let mut i: usize = 0;
    while i < parts.len()
        invariant
            i <= parts.len(),
            out@ == join(rows(parts@).take(i as int), sep),
        decreases parts.len() - i,
    {
        proof {
            let done = rows(parts@).take(i as int);
            assert(rows(parts@).take(i + 1) =~= done.push(parts@[i as int]@));
            lemma_join_push(done, parts@[i as int]@, sep);
        }
        if i > 0 {
            out.push(sep);
        }
        append(&mut out, parts[i].as_slice());
        i += 1;
    }
    assert(rows(parts@).take(parts.len() as int) =~= rows(parts@));
    out
}

/// Tests whether `b` is a blank.
pub fn blank(b: u8) -> (r: bool)
    ensures
        r == is_blank(b),
{
    b == 0x20 || b == 0x09 || b == 0x0a || b == 0x0d
}

/// `s` without the blanks at its front.
pub fn without_blanks_in_front(s: &[u8]) -> (r: Vec<u8>)
    ensures
        r@ == trim_front(s@),
{
    let mut i: usize = 0;
    assert(s@.skip(0) =~= s@);
    while i < s.len() && blank(s[i])
        invariant
            i <= s.len(),
            trim_front(s@) == trim_front(s@.skip(i as int)),
        decreases s.len() - i,
    {
        assert(s@.skip(i as int).skip(1) =~= s@.skip(i + 1));
        i += 1;
    }
    slice(s, i, s.len())
}

/// `s` without the blanks at its front and at its end.
pub fn trimmed(s: &[u8]) -> (r: Vec<u8>)
    ensures
        r@ == trim(s@),
{
    let mut i: usize = 0;
    assert(s@.skip(0) =~= s@);
    while i < s.len() && blank(s[i])
        invariant
            i <= s.len(),
            trim_front(s@) == trim_front(s@.skip(i as int)),
        decreases s.len() - i,
    {
        assert(s@.skip(i as int).skip(1) =~= s@.skip(i + 1));
        i += 1;
    }
    let mut j: usize = s.len();
    while j > i && blank(s[j - 1])
        invariant
            i <= j <= s.len(),
            trim(s@) == trim_back(s@.subrange(i as int, j as int)),
        decreases j,
    {
        let ghost cur = s@.subrange(i as int, j as int);
        assert(cur.take(cur.len() - 1) =~= s@.subrange(i as int, j - 1));
        j -= 1;
    }
    slice(s, i, j)
}

/// Tests whether the rows hold `x`.
pub fn contains_row(list: &Vec<Vec<u8>>, x: &[u8]) -> (r: bool)
    ensures
        r == has_row(rows(list@), x@),
{
    let mut i: usize = 0;
    while i < list.len()
        invariant
            i <= list.len(),
            forall|j: int| 0 <= j < i ==> rows(list@)[j] != x@,
        decreases list.len() - i,
    {
        assert(rows(list@)[i as int] == list@[i as int]@);
        if same(list[i].as_slice(), x) {
            return true;
        }
        i += 1;
    }
    false
}

/// A copy of the rows.
pub fn copy_rows(list: &Vec<Vec<u8>>) -> (r: Vec<Vec<u8>>)
    ensures
        rows(r@) == rows(list@),
{
    let mut out: Vec<Vec<u8>> = Vec::new();
    let mut i: usize = 0;
    while i < list.len()
        invariant
            i <= list.len(),
            out.len() == i,
            forall|j: int| 0 <= j < i ==> (#[trigger] out@[j])@ == list@[j]@,
        decreases list.len() - i,
    {
        out.push(copy(list[i].as_slice()));
        i += 1;
    }
    out
}

/// Tests whether `s` is the ASCII string `word`.
pub fn is_word(s: &[u8], word: &str) -> (r: bool)
    requires
        word.is_ascii(),
    ensures
        r == (s@ == ascii(word@)),
{
    let w = bytes_of(word);
    same(s, w.as_slice())
}

} // verus!
