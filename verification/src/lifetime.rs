//! The lifetimes that the text of a type names.
//!
//! A lifetime is `'` and an identifier. Where a second `'` follows the
//! identifier at once, the three together are a character and no lifetime.

use vstd::prelude::*;
use crate::text::has_row;
use crate::text::is_ident_byte;
use crate::text::is_ident_start;
use crate::text::rows;

verus! {

/// The names of the lifetimes in `s` from position `i` on, where `start`,
/// unless it is negative, is the position at which a name that has not
/// ended yet began.
pub open spec fn scan(s: Seq<u8>, i: int, start: int) -> Seq<Seq<u8>>
    decreases s.len() - i, (if start >= 0 {
        1int
    } else {
        0int
    }),
{
    if i < 0 || i >= s.len() {
        if 0 <= start <= i {
            seq![s.subrange(start, s.len() as int)]
        } else {
            Seq::empty()
        }
    } else if start >= 0 {
        if is_ident_byte(s[i]) {
            scan(s, i + 1, start)
        } else if s[i] == 0x27 {
            scan(s, i + 1, -1)
        } else if start <= i {
            seq![s.subrange(start, i)] + scan(s, i, -1)
        } else {
            scan(s, i, -1)
        }
    } else if s[i] == 0x27 && i + 1 < s.len() && is_ident_start(s[i + 1]) {
        scan(s, i + 1, i + 1)
    } else {
        scan(s, i + 1, -1)
    }
}

/// The names of the lifetimes in `s`, in the order in which they stand.
pub open spec fn lifetimes(s: Seq<u8>) -> Seq<Seq<u8>> {
    scan(s, 0, -1)
}

/// The first `n` rows without those that stand there a second time.
pub open spec fn distinct(list: Seq<Seq<u8>>, n: int) -> Seq<Seq<u8>>
    decreases n,
{
    if n <= 0 {
        Seq::empty()
    } else if has_row(distinct(list, n - 1), list[n - 1]) {
        distinct(list, n - 1)
    } else {
        distinct(list, n - 1).push(list[n - 1])
    }
}

/// The lifetimes that `s` names, each once, in the order in which they
/// first stand.
pub open spec fn named_lifetimes(s: Seq<u8>) -> Seq<Seq<u8>> {
    distinct(lifetimes(s), lifetimes(s).len() as int)
}

/// No row stands twice among the distinct rows, and they are the rows of
/// the list.
pub proof fn lemma_distinct(list: Seq<Seq<u8>>, n: int)
    requires
        n <= list.len(),
    ensures
        forall|i: int, j: int|
            0 <= i < j < distinct(list, n).len() ==> distinct(list, n)[i] != distinct(list, n)[j],
        forall|k: int| 0 <= k < n ==> has_row(distinct(list, n), #[trigger] list[k]),
        forall|i: int|
            0 <= i < distinct(list, n).len() ==> has_row(
                list.take(n),
                #[trigger] distinct(list, n)[i],
            ),
    decreases n,
{
    if n > 0 {
        lemma_distinct(list, n - 1);
        let before = distinct(list, n - 1);
        let now = distinct(list, n);
        assert forall|k: int| 0 <= k < n implies has_row(now, #[trigger] list[k]) by {
            if k < n - 1 {
                let w = choose|w: int| 0 <= w < before.len() && before[w] == list[k];
                assert(now[w] == list[k]);
            } else if !has_row(before, list[n - 1]) {
                assert(now[now.len() - 1] == list[k]);
            }
        }
        assert forall|i: int| 0 <= i < now.len() implies has_row(
            list.take(n),
            #[trigger] now[i],
        ) by {
            if i < before.len() {
                let w = choose|w: int|
                    0 <= w < list.take(n - 1).len() && #[trigger] list.take(n - 1)[w] == before[i];
                assert(list.take(n)[w] == now[i]);
            } else {
                assert(list.take(n)[n - 1] == now[i]);
            }
        }
    }
}

/// The names of the lifetimes in `s`, in the order in which they stand.
pub fn find_lifetimes(s: &[u8]) -> (r: Vec<Vec<u8>>)
    ensures
        rows(r@) == lifetimes(s@),
{
    let mut out: Vec<Vec<u8>> = Vec::new();
    let mut i: usize = 0;
    let mut inside: bool = false;
    let mut start: usize = 0;
    while i < s.len()
        invariant
            i <= s.len(),
            inside ==> start <= i,
            rows(out@) + scan(
                s@,
                i as int,
                if inside {
                    start as int
                } else {
                    -1
                },
            ) == lifetimes(s@),
        decreases s.len() - i, (if inside {
            1int
        } else {
            0int
        }),
    {
        let b: u8 = s[i];
        if inside {
            if crate::text::alphanumeric(b) || b == 0x5f {
                i += 1;
            } else {
                if b != 0x27 {
                    let name = crate::text::slice(s, start, i);
                    out.push(name);
                } else {
                    i += 1;
                }
                inside = false;
            }
        } else {
            if b == 0x27 && s.len() - i > 1 && (crate::text::alphanumeric(s[i + 1]) || s[i + 1]
                == 0x5f) && !(0x30 <= s[i + 1] && s[i + 1] <= 0x39) {
                inside = true;
                start = i + 1;
            }
            i += 1;
        }
    }
    if inside {
        let name = crate::text::slice(s, start, s.len());
        out.push(name);
    }
    out
}

/// The rows without those that stand there a second time: every row of the
/// list stands among them, and none stands there twice.
pub fn distinct_rows(list: &Vec<Vec<u8>>) -> (r: Vec<Vec<u8>>)
    ensures
        rows(r@) == distinct(rows(list@), list.len() as int),
        forall|i: int, j: int| 0 <= i < j < r.len() ==> rows(r@)[i] != rows(r@)[j],
        forall|k: int| 0 <= k < list.len() ==> has_row(rows(r@), #[trigger] rows(list@)[k]),
        forall|i: int| 0 <= i < r.len() ==> has_row(rows(list@), #[trigger] rows(r@)[i]),
{
    proof {
        lemma_distinct(rows(list@), list.len() as int);
    }
    let mut out: Vec<Vec<u8>> = Vec::new();
    let mut i: usize = 0;
    while i < list.len()
        invariant
            i <= list.len(),
            rows(out@) == distinct(rows(list@), i as int),
        decreases list.len() - i,
    {
        if !crate::text::contains_row(&out, list[i].as_slice()) {
            out.push(crate::text::copy(list[i].as_slice()));
        }
        i += 1;
    }
    out
}

/// The lifetimes that `s` names, each once.
pub fn find_named_lifetimes(s: &[u8]) -> (r: Vec<Vec<u8>>)
    ensures
        rows(r@) == named_lifetimes(s@),
{
    let found = find_lifetimes(s);
    distinct_rows(&found)
}

} // verus!
