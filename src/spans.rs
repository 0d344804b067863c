//! How the spans of the three rows agree with each other.
use vstd::prelude::*;
use vstd::utf8::{encode_scalar, encode_utf8};
use crate::decompose::{byte_len, cluster_texts, decomposition_of, lemma_width_is_encoded_len, utf8_width};
use crate::unicode::joined;

verus! {

/// The widths of the characters of `s`, added up.
pub open spec fn width_sum(s: Seq<char>) -> nat
    decreases s.len(),
{
    if s.len() == 0 {
        0
    } else {
        width_sum(s.drop_last()) + utf8_width(s.last())
    }
}

/// The spans of a row of clusters, added up.
pub open spec fn cluster_span_total(cs: Seq<(Seq<char>, nat)>) -> nat
    decreases cs.len(),
{
    if cs.len() == 0 {
        0
    } else {
        cluster_span_total(cs.drop_last()) + cs.last().1
    }
}

/// The spans of a row of code points, added up.
pub open spec fn code_point_span_total(cs: Seq<(char, nat, Option<Seq<char>>)>) -> nat
    decreases cs.len(),
{
    if cs.len() == 0 {
        0
    } else {
        code_point_span_total(cs.drop_last()) + cs.last().1
    }
}

/// The column at which the bytes of the `i`-th code point of `s` start.
pub open spec fn byte_offset(s: Seq<char>, i: int) -> nat {
    width_sum(s.subrange(0, i))
}

/// Encoding a concatenation encodes each part in turn.
pub proof fn lemma_encode_concat(a: Seq<char>, b: Seq<char>)
    ensures
        encode_utf8(a + b) == encode_utf8(a) + encode_utf8(b),
    decreases a.len(),
{
    if a.len() == 0 {
        assert(a + b =~= b);
    } else {
        assert((a + b).drop_first() =~= a.drop_first() + b);
        lemma_encode_concat(a.drop_first(), b);
    }
}

/// A single character encodes as its scalar.
pub proof fn lemma_encode_single(c: char)
    ensures
        encode_utf8(seq![c]) == encode_scalar(c as u32),
{
    reveal_with_fuel(encode_utf8, 2);
    assert(seq![c][0] == c);
    assert(seq![c].drop_first() =~= Seq::<char>::empty());
    assert(encode_utf8(Seq::<char>::empty()) =~= Seq::<u8>::empty());
    assert(encode_scalar(c as u32) + Seq::<u8>::empty() =~= encode_scalar(c as u32));
}

/// The widths of the characters of a text add up to the length of its encoding.
pub proof fn lemma_width_sum(s: Seq<char>)
    ensures
        width_sum(s) == encode_utf8(s).len(),
    decreases s.len(),
{
    if s.len() > 0 {
        lemma_width_sum(s.drop_last());
        assert(s =~= s.drop_last() + seq![s.last()]);
        lemma_encode_concat(s.drop_last(), seq![s.last()]);
        lemma_encode_single(s.last());
        lemma_width_is_encoded_len(s.last());
    }
}

proof fn lemma_cluster_total(gs: Seq<Seq<char>>)
    ensures
        cluster_span_total(gs.map_values(|g: Seq<char>| (g, byte_len(g)))) == byte_len(joined(gs)),
    decreases gs.len(),
{
    reveal(byte_len);
    let f = |g: Seq<char>| (g, byte_len(g));
    if gs.len() == 0 {
        assert(joined(gs) =~= Seq::<char>::empty());
    } else {
        assert(gs.map_values(f).drop_last() =~= gs.drop_last().map_values(f));
        lemma_cluster_total(gs.drop_last());
        lemma_encode_concat(joined(gs.drop_last()), gs.last());
    }
}

proof fn lemma_code_point_total(s: Seq<char>)
    ensures
        code_point_span_total(
            s.map_values(|c: char| (c, utf8_width(c), crate::unicode::unicode_name(c))),
        ) == width_sum(s),
    decreases s.len(),
{
    let f = |c: char| (c, utf8_width(c), crate::unicode::unicode_name(c));
    if s.len() > 0 {
        assert(s.map_values(f).drop_last() =~= s.drop_last().map_values(f));
        lemma_code_point_total(s.drop_last());
    }
}

proof fn lemma_bytes_of_code_point(s: Seq<char>, i: int)
    requires
        0 <= i < s.len(),
    ensures
        encode_utf8(s).subrange(byte_offset(s, i) as int, (byte_offset(s, i) + utf8_width(s[i])) as int)
            == encode_scalar(s[i] as u32),
{
    let pre = s.subrange(0, i);
    let post = s.subrange(i + 1, s.len() as int);
    assert(s =~= pre + (seq![s[i]] + post));
    lemma_encode_concat(pre, seq![s[i]] + post);
    lemma_encode_concat(seq![s[i]], post);
    lemma_encode_single(s[i]);
    lemma_width_sum(pre);
    lemma_width_is_encoded_len(s[i]);
    let e = encode_utf8(pre) + (encode_scalar(s[i] as u32) + encode_utf8(post));
    assert(e.subrange(
        encode_utf8(pre).len() as int,
        (encode_utf8(pre).len() + encode_scalar(s[i] as u32).len()) as int,
    ) =~= encode_scalar(s[i] as u32));
}

/// In the decomposition of a text whose clusters join up to it: each cluster
/// spans the widths of its code points added up; the bytes that each code
/// point spans in the bytes row, from where the code points before it end,
/// are its own encoding; and the spans of the clusters row, the spans of the
/// code points row and the cells of the bytes row all come to the same total.
pub proof fn lemma_span_conservation(s: Seq<char>)
    requires
        joined(cluster_texts(decomposition_of(s))) == s,
    ensures
        forall|i: int|
            0 <= i < decomposition_of(s).clusters.len() ==> #[trigger] decomposition_of(
                s,
            ).clusters[i].1 == width_sum(decomposition_of(s).clusters[i].0),
        forall|i: int|
            0 <= i < s.len() ==> #[trigger] decomposition_of(s).bytes.subrange(
                byte_offset(s, i) as int,
                (byte_offset(s, i) + decomposition_of(s).code_points[i].1) as int,
            ) == encode_scalar(s[i] as u32),
        cluster_span_total(decomposition_of(s).clusters) == code_point_span_total(
            decomposition_of(s).code_points,
        ),
        code_point_span_total(decomposition_of(s).code_points) == decomposition_of(s).bytes.len(),
{
    let d = decomposition_of(s);
    let gs = crate::unicode::graphemes_of(s);
    assert forall|i: int| 0 <= i < d.clusters.len() implies #[trigger] d.clusters[i].1 == width_sum(
        d.clusters[i].0,
    ) by {
        reveal(byte_len);
        lemma_width_sum(gs[i]);
    }
    assert forall|i: int| 0 <= i < s.len() implies #[trigger] d.bytes.subrange(
        byte_offset(s, i) as int,
        (byte_offset(s, i) + d.code_points[i].1) as int,
    ) == encode_scalar(s[i] as u32) by {
        lemma_bytes_of_code_point(s, i);
    }
    assert(cluster_texts(d) =~= gs);
    lemma_cluster_total(gs);
    lemma_code_point_total(s);
    lemma_width_sum(s);
    reveal(byte_len);
}

} // verus!
