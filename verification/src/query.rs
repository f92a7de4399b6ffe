//! Query strings.
//!
//! A query string is a list of pairs, written as `key=value` with `&` between
//! them; keys and values are percent-encoded. Reading skips empty pieces,
//! takes a piece without `=` as a key with an empty value, and cuts every
//! other piece at its first `=`.

use vstd::prelude::*;
use crate::escape::escape;
use crate::escape::unescape;
use crate::text::cut;
use crate::text::has_byte;
use crate::text::join;
use crate::text::rows;
use crate::text::split;
use crate::wire::entries;
use crate::wire::Entry;

verus! {

/// One pair as it is written.
pub open spec fn pair_text(pair: (Seq<u8>, Seq<u8>)) -> Seq<u8> {
    escape(pair.0) + seq![0x3du8] + escape(pair.1)
}

/// The pairs as they are written, one piece each.
pub open spec fn pair_texts(pairs: Seq<(Seq<u8>, Seq<u8>)>) -> Seq<Seq<u8>> {
    Seq::new(pairs.len(), |i: int| pair_text(pairs[i]))
}

/// The query string that holds `pairs`.
pub open spec fn query_text(pairs: Seq<(Seq<u8>, Seq<u8>)>) -> Seq<u8> {
    join(pair_texts(pairs), 0x26)
}

/// The pair that one piece of a query string holds.
pub open spec fn read_pair(piece: Seq<u8>) -> (Seq<u8>, Seq<u8>) {
    (unescape(cut(piece, 0x3d).0), unescape(cut(piece, 0x3d).1))
}

/// The pairs that the first `n` pieces hold.
pub open spec fn read_pieces(pieces: Seq<Seq<u8>>, n: int) -> Seq<(Seq<u8>, Seq<u8>)>
    decreases n,
{
    if n <= 0 {
        Seq::empty()
    } else if pieces[n - 1].len() == 0 {
        read_pieces(pieces, n - 1)
    } else {
        read_pieces(pieces, n - 1).push(read_pair(pieces[n - 1]))
    }
}

/// The pairs that a query string holds.
pub open spec fn query_pairs(query: Seq<u8>) -> Seq<(Seq<u8>, Seq<u8>)> {
    read_pieces(split(query, 0x26), split(query, 0x26).len() as int)
}

/// A written pair is not empty, holds no `&`, and reads as the pair.
pub proof fn lemma_pair_text(pair: (Seq<u8>, Seq<u8>))
    ensures
        pair_text(pair).len() > 0,
        !has_byte(pair_text(pair), 0x26),
        read_pair(pair_text(pair)) == pair,
{
    crate::escape::lemma_escape_has_no(pair.0, 0x26);
    crate::escape::lemma_escape_has_no(pair.1, 0x26);
    crate::escape::lemma_escape_has_no(pair.0, 0x3d);
    crate::text::lemma_has_byte_concat(escape(pair.0), seq![0x3du8], 0x26);
    crate::text::lemma_has_byte_concat(escape(pair.0) + seq![0x3du8], escape(pair.1), 0x26);
    crate::text::lemma_cut_pair(escape(pair.0), escape(pair.1), 0x3d);
    crate::escape::lemma_unescape_escape(pair.0);
    crate::escape::lemma_unescape_escape(pair.1);
}

/// Reading the written pieces gives back the pairs.
pub proof fn lemma_read_pieces(pairs: Seq<(Seq<u8>, Seq<u8>)>, n: int)
    requires
        0 <= n <= pairs.len(),
    ensures
        read_pieces(pair_texts(pairs), n) == pairs.take(n),
    decreases n,
{
    if n > 0 {
        lemma_read_pieces(pairs, n - 1);
        lemma_pair_text(pairs[n - 1]);
    }
}

/// Reading a written query string gives back its pairs.
pub proof fn lemma_query_round_trip(pairs: Seq<(Seq<u8>, Seq<u8>)>)
    ensures
        query_pairs(query_text(pairs)) == pairs,
{
    let pieces = pair_texts(pairs);
    if pairs.len() == 0 {
        let read = split(query_text(pairs), 0x26);
        assert(read_pieces(read, 0) =~= pairs);
    } else {
        assert forall|i: int| 0 <= i < pieces.len() implies !has_byte(#[trigger] pieces[i], 0x26) by {
            lemma_pair_text(pairs[i]);
        }
        crate::text::lemma_split_join(pieces, 0x26);
        lemma_read_pieces(pairs, pairs.len() as int);
    }
}

/// The query string that holds `pairs`.
pub fn write_query(pairs: &Vec<Entry>) -> (r: Vec<u8>)
    ensures
        r@ == query_text(entries(pairs@)),
{
    let mut pieces: Vec<Vec<u8>> = Vec::new();
    let mut i: usize = 0;
    while i < pairs.len()
        invariant
            i <= pairs.len(),
            pieces.len() == i,
            forall|j: int| 0 <= j < i ==> (#[trigger] pieces@[j])@ == pair_text(pairs@[j]@),
        decreases pairs.len() - i,
    {
        let mut piece: Vec<u8> = Vec::new();
        crate::escape::escape_into(&mut piece, pairs[i].name.as_slice());
        piece.push(0x3d);
        crate::escape::escape_into(&mut piece, pairs[i].value.as_slice());
        pieces.push(piece);
        i += 1;
    }
    assert(rows(pieces@) =~= pair_texts(entries(pairs@)));
    crate::text::join_rows(&pieces, 0x26)
}

/// The pairs that a query string holds.
pub fn read_query(query: &[u8]) -> (r: Vec<Entry>)
    ensures
        entries(r@) == query_pairs(query@),
{
    let pieces = crate::text::split_at_byte(query, 0x26);
    let mut out: Vec<Entry> = Vec::new();
    let mut i: usize = 0;
    while i < pieces.len()
        invariant
            i <= pieces.len(),
            rows(pieces@) == split(query@, 0x26),
            entries(out@) == read_pieces(split(query@, 0x26), i as int),
        decreases pieces.len() - i,
    {
        if pieces[i].len() > 0 {
            let (key, value) = crate::text::cut_at_byte(pieces[i].as_slice(), 0x3d);
            let entry = Entry {
                name: crate::escape::unescaped(key.as_slice()),
                value: crate::escape::unescaped(value.as_slice()),
            };
            out.push(entry);
        }
        i += 1;
    }
    out
}

} // verus!
