//! The three decompositions of a text: grapheme clusters, code points and
//! UTF-8 bytes, each unit with the number of bytes it spans.
use vstd::prelude::*;
use vstd::utf8::{encode_scalar, encode_utf8};
use crate::escape::chars_of;
use crate::unicode::{grapheme_clusters, graphemes_of, joined, name_of, opt_view, texts, unicode_name};

verus! {

/// The number of bytes that `c` takes in UTF-8, by the range its code point lies in.
pub open spec fn utf8_width(c: char) -> nat {
    let v = c as u32;
    if v <= 0x7F {
        1
    } else if v <= 0x7FF {
        2
    } else if v <= 0xFFFF {
        3
    } else {
        4
    }
}

/// The number of bytes of the UTF-8 encoding of `s`.
#[verifier::opaque]
pub open spec fn byte_len(s: Seq<char>) -> nat {
    encode_utf8(s).len()
}

/// The width of a character is the length of its UTF-8 encoding.
pub proof fn lemma_width_is_encoded_len(c: char)
    ensures
        utf8_width(c) == encode_scalar(c as u32).len(),
{
    broadcast use vstd::utf8::char_is_scalar;

}

/// A grapheme cluster and the number of bytes it spans.
pub struct Cluster {
    pub text: String,
    pub span: usize,
}

impl View for Cluster {
    type V = (Seq<char>, nat);

    open spec fn view(&self) -> (Seq<char>, nat) {
        (self.text@, self.span as nat)
    }
}

/// A code point, the number of bytes it spans, and its Unicode name if it has one.
pub struct CodePoint {
    pub ch: char,
    pub span: usize,
    pub name: Option<String>,
}

impl View for CodePoint {
    type V = (char, nat, Option<Seq<char>>);

    open spec fn view(&self) -> (char, nat, Option<Seq<char>>) {
        (self.ch, self.span as nat, opt_view(self.name))
    }
}

impl CodePoint {
    /// A code point cell for `ch`.
    pub fn new(ch: char, span: usize, name: Option<String>) -> (r: CodePoint)
        ensures
            r.ch == ch,
            r.span == span,
            r.name == name,
    {
        CodePoint { ch, span, name }
    }
}

/// The three rows of units of one text.
pub struct Decomposition {
    pub clusters: Vec<Cluster>,
    pub code_points: Vec<CodePoint>,
    pub bytes: Vec<u8>,
}

/// What a [`Decomposition`] holds, as mathematical values.
pub struct DecompositionView {
    pub clusters: Seq<(Seq<char>, nat)>,
    pub code_points: Seq<(char, nat, Option<Seq<char>>)>,
    pub bytes: Seq<u8>,
}

impl View for Decomposition {
    type V = DecompositionView;

    open spec fn view(&self) -> DecompositionView {
        DecompositionView {
            clusters: self.clusters@.map_values(|c: Cluster| c@),
            code_points: self.code_points@.map_values(|c: CodePoint| c@),
            bytes: self.bytes@,
        }
    }
}

/// The decomposition of `s`: its grapheme clusters with their byte lengths,
/// its code points with their widths and names, and its UTF-8 encoding.
pub open spec fn decomposition_of(s: Seq<char>) -> DecompositionView {
    DecompositionView {
        clusters: graphemes_of(s).map_values(|g: Seq<char>| (g, byte_len(g))),
        code_points: s.map_values(|c: char| (c, utf8_width(c), unicode_name(c))),
        bytes: encode_utf8(s),
    }
}

/// The texts of the clusters of a decomposition.
pub open spec fn cluster_texts(d: DecompositionView) -> Seq<Seq<char>> {
    d.clusters.map_values(|c: (Seq<char>, nat)| c.0)
}

/// The characters of the code points of a decomposition.
pub open spec fn code_point_chars(d: DecompositionView) -> Seq<char> {
    d.code_points.map_values(|c: (char, nat, Option<Seq<char>>)| c.0)
}

/// The number of bytes that `c` takes in UTF-8.
pub fn char_width(c: char) -> (w: usize)
    ensures
        w == utf8_width(c),
{
    let v = c as u32;
    if v <= 0x7F {
        1
    } else if v <= 0x7FF {
        2
    } else if v <= 0xFFFF {
        3
    } else {
        4
    }
}

/// The grapheme clusters of `t`, each with its length in bytes.
pub fn cluster_row(t: &str) -> (r: Vec<Cluster>)
    ensures
        r@.map_values(|c: Cluster| c@) == graphemes_of(t@).map_values(
            |g: Seq<char>| (g, byte_len(g)),
        ),
        joined(r@.map_values(|c: Cluster| c.text@)) == t@,
{
    let gs = grapheme_clusters(t);
    let mut clusters: Vec<Cluster> = Vec::new();
    let mut i: usize = 0;
    while i < gs.len()
        invariant
            i <= gs@.len(),
            clusters@.len() == i,
            forall|k: int|
                0 <= k < i ==> #[trigger] clusters@[k].text@ == gs@[k]@ && clusters@[k].span
                    == byte_len(gs@[k]@),
        decreases gs@.len() - i,
    {
        let text = gs[i].clone();
        let span = text.as_str().as_bytes().len();
        proof {
            reveal(byte_len);
        }
        clusters.push(Cluster { text, span });
        i = i + 1;
    }
    assert(clusters@.map_values(|c: Cluster| c@) =~= graphemes_of(t@).map_values(
        |g: Seq<char>| (g, byte_len(g)),
    ));
    assert(clusters@.map_values(|c: Cluster| c.text@) =~= texts(gs@));
    clusters
}

/// The code points of `t`, each with its width in bytes and its name.
pub fn code_point_row(t: &str) -> (r: Vec<CodePoint>)
    ensures
        r@.map_values(|c: CodePoint| c@) == t@.map_values(
            |c: char| (c, utf8_width(c), unicode_name(c)),
        ),
{
    let cs = chars_of(t);
    let mut code_points: Vec<CodePoint> = Vec::new();
    let mut j: usize = 0;
    while j < cs.len()
        invariant
            j <= cs@.len(),
            cs@ == t@,
            code_points@.len() == j,
            forall|k: int|
                0 <= k < j ==> {
                    &&& #[trigger] code_points@[k].ch == cs@[k]
                    &&& code_points@[k].span == utf8_width(cs@[k])
                    &&& opt_view(code_points@[k].name) == unicode_name(cs@[k])
                },
        decreases cs@.len() - j,
    {
        let c = cs[j];
        let span = char_width(c);
        let name = name_of(c);
        code_points.push(CodePoint::new(c, span, name));
        j = j + 1;
    }
    assert(code_points@.map_values(|c: CodePoint| c@) =~= t@.map_values(
        |c: char| (c, utf8_width(c), unicode_name(c)),
    ));
    code_points
}

/// Splits `t` into its grapheme clusters, its code points and its bytes.
/// Joining the clusters, or the code points, gives `t` back; the bytes are its
/// UTF-8 encoding.
pub fn decompose(t: &str) -> (d: Decomposition)
    ensures
        d@ == decomposition_of(t@),
        joined(cluster_texts(d@)) == t@,
        code_point_chars(d@) == t@,
        d@.bytes == encode_utf8(t@),
{
    let clusters = cluster_row(t);
    let code_points = code_point_row(t);
    let bytes = vstd::slice::slice_to_vec(t.as_bytes());
    let d = Decomposition { clusters, code_points, bytes };
    assert(cluster_texts(d@) =~= d.clusters@.map_values(|c: Cluster| c.text@));
    assert(code_point_chars(d@) =~= t@);
    d
}

} // verus!
