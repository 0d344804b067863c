//! Rendering a decomposition as an HTML table whose cells line up by byte.
use vstd::prelude::*;
use crate::decompose::{decompose, decomposition_of, Cluster, CodePoint, Decomposition, DecompositionView};
use crate::digits::{decimal, digit, digit_char, push_char, push_radix, push_str};
use crate::unicode::{unicode_name, unicode_version};

verus! {

/// Whether `c` is an ASCII digit or letter. Such a code point is shown
/// without its name, since the glyph says it all.
pub open spec fn is_ascii_alnum(c: char) -> bool {
    ('0' <= c && c <= '9') || ('A' <= c && c <= 'Z') || ('a' <= c && c <= 'z')
}

/// The annotation under a code point: nothing for an ASCII digit or letter,
/// else its name, or `?` where it has none.
pub open spec fn name_label(c: char, name: Option<Seq<char>>) -> Seq<char> {
    if is_ascii_alnum(c) {
        seq![]
    } else {
        match name {
            Some(n) => n,
            None => seq!['?'],
        }
    }
}

/// A code point that the name tables do not know, other than an ASCII digit
/// or letter, shows `?` beneath its glyph.
pub proof fn lemma_unknown_name_mark(c: char, span: nat)
    requires
        unicode_name(c) is None,
        !is_ascii_alnum(c),
    ensures
        code_point_cell(c, span, unicode_name(c)) == "<td colspan=\""@ + decimal(span)
            + "\"><span class=\"char\">"@ + seq![c] + "</span><div class=\"name\">"@ + seq!['?']
            + "</div></td>"@,
{
}

/// The cell of a grapheme cluster.
pub open spec fn cluster_cell(text: Seq<char>, span: nat) -> Seq<char> {
    "<td colspan=\""@ + decimal(span) + "\"><span class=\"char\">"@ + text + "</span></td>"@
}

/// The cell of a code point, with its name beneath.
pub open spec fn code_point_cell(c: char, span: nat, name: Option<Seq<char>>) -> Seq<char> {
    "<td colspan=\""@ + decimal(span) + "\"><span class=\"char\">"@ + seq![c]
        + "</span><div class=\"name\">"@ + name_label(c, name) + "</div></td>"@
}

/// A byte as two lower-case hexadecimal digits.
pub open spec fn hex_byte(b: u8) -> Seq<char> {
    seq![digit_char((b / 16) as nat, false), digit_char((b % 16) as nat, false)]
}

/// The cell of a byte.
pub open spec fn byte_cell(b: u8) -> Seq<char> {
    "<td>"@ + hex_byte(b) + "</td>"@
}

/// The cells of a row of clusters.
pub open spec fn cluster_cells(cs: Seq<(Seq<char>, nat)>) -> Seq<char>
    decreases cs.len(),
{
    if cs.len() == 0 {
        seq![]
    } else {
        cluster_cells(cs.drop_last()) + cluster_cell(cs.last().0, cs.last().1)
    }
}

/// The cells of a row of code points.
pub open spec fn code_point_cells(cs: Seq<(char, nat, Option<Seq<char>>)>) -> Seq<char>
    decreases cs.len(),
{
    if cs.len() == 0 {
        seq![]
    } else {
        code_point_cells(cs.drop_last()) + code_point_cell(
            cs.last().0,
            cs.last().1,
            cs.last().2,
        )
    }
}

/// The cells of a row of bytes.
pub open spec fn byte_cells(bs: Seq<u8>) -> Seq<char>
    decreases bs.len(),
{
    if bs.len() == 0 {
        seq![]
    } else {
        byte_cells(bs.drop_last()) + byte_cell(bs.last())
    }
}

/// The whole table: the clusters row, the code points row and the bytes row,
/// each after its header cell.
pub open spec fn table_markup(d: DecompositionView) -> Seq<char> {
    "<table class=\"segmented\"><tr><th>Grapheme clusters</th>"@ + cluster_cells(d.clusters)
        + "</tr><tr><th>Code points</th>"@ + code_point_cells(d.code_points)
        + "</tr><tr class=\"bytes-row\"><th>UTF-8 bytes</th>"@ + byte_cells(d.bytes)
        + "</tr></table>"@
}

/// The table for a text.
pub open spec fn segment_markup(s: Seq<char>) -> Seq<char> {
    table_markup(decomposition_of(s))
}

fn push_cluster_cell(out: &mut String, c: &Cluster)
    ensures
        final(out)@ == old(out)@ + cluster_cell(c.text@, c.span as nat),
{
    push_str(out, "<td colspan=\"");
    push_radix(out, c.span as u64, 10, false);
    push_str(out, "\"><span class=\"char\">");
    push_str(out, c.text.as_str());
    push_str(out, "</span></td>");
    assert(final(out)@ =~= old(out)@ + cluster_cell(c.text@, c.span as nat));
}

fn push_code_point_cell(out: &mut String, c: &CodePoint)
    ensures
        final(out)@ == old(out)@ + code_point_cell(c.ch, c.span as nat, c@.2),
{
    push_str(out, "<td colspan=\"");
    push_radix(out, c.span as u64, 10, false);
    push_str(out, "\"><span class=\"char\">");
    push_char(out, c.ch);
    push_str(out, "</span><div class=\"name\">");
    let ch = c.ch;
    if ('0' <= ch && ch <= '9') || ('A' <= ch && ch <= 'Z') || ('a' <= ch && ch <= 'z') {
    } else {
        match &c.name {
            Some(n) => push_str(out, n.as_str()),
            None => push_char(out, '?'),
        }
    }
    push_str(out, "</div></td>");
    assert(final(out)@ =~= old(out)@ + code_point_cell(c.ch, c.span as nat, c@.2));
}

fn push_byte_cell(out: &mut String, b: u8)
    ensures
        final(out)@ == old(out)@ + byte_cell(b),
{
    push_str(out, "<td>");
    push_char(out, digit((b / 16) as u64, false));
    push_char(out, digit((b % 16) as u64, false));
    push_str(out, "</td>");
    assert(final(out)@ =~= old(out)@ + byte_cell(b));
}

/// Renders the three rows of `d` as a table: each cluster and code point
/// cell spans as many columns as it has bytes, each byte has a column.
pub fn render(d: &Decomposition) -> (r: String)
    ensures
        r@ == table_markup(d@),
{
    let mut r = String::new();
    push_str(&mut r, "<table class=\"segmented\"><tr><th>Grapheme clusters</th>");
    let ghost head = r@;
    let mut i: usize = 0;
    while i < d.clusters.len()
        invariant
            i <= d.clusters@.len(),
            r@ == head + cluster_cells(d@.clusters.subrange(0, i as int)),
        decreases d.clusters@.len() - i,
    {
        push_cluster_cell(&mut r, &d.clusters[i]);
        proof {
            assert(d@.clusters.subrange(0, i + 1).drop_last() =~= d@.clusters.subrange(0, i as int));
        }
        i = i + 1;
    }
    assert(d@.clusters.subrange(0, i as int) =~= d@.clusters);
    push_str(&mut r, "</tr><tr><th>Code points</th>");
    let ghost head = r@;
    let mut j: usize = 0;
    while j < d.code_points.len()
        invariant
            j <= d.code_points@.len(),
            r@ == head + code_point_cells(d@.code_points.subrange(0, j as int)),
        decreases d.code_points@.len() - j,
    {
        push_code_point_cell(&mut r, &d.code_points[j]);
        proof {
            assert(d@.code_points.subrange(0, j + 1).drop_last() =~= d@.code_points.subrange(
                0,
                j as int,
            ));
        }
        j = j + 1;
    }
    assert(d@.code_points.subrange(0, j as int) =~= d@.code_points);
    push_str(&mut r, "</tr><tr class=\"bytes-row\"><th>UTF-8 bytes</th>");
    let ghost head = r@;
    let mut k: usize = 0;
    while k < d.bytes.len()
        invariant
            k <= d.bytes@.len(),
            r@ == head + byte_cells(d@.bytes.subrange(0, k as int)),
        decreases d.bytes@.len() - k,
    {
        push_byte_cell(&mut r, d.bytes[k]);
        proof {
            assert(d@.bytes.subrange(0, k + 1).drop_last() =~= d@.bytes.subrange(0, k as int));
        }
        k = k + 1;
    }
    assert(d@.bytes.subrange(0, k as int) =~= d@.bytes);
    push_str(&mut r, "</tr></table>");
    assert(r@ =~= table_markup(d@));
    r
}

/// The table for `t`: its grapheme clusters, code points and UTF-8 bytes in
/// three rows whose cells line up by byte.
pub fn segment_table(t: String) -> (r: String)
    ensures
        r@ == segment_markup(t@),
{
    let d = decompose(t.as_str());
    render(&d)
}

/// The attribution note for the Unicode edition `major.minor.patch`.
pub open spec fn version_note(major: nat, minor: nat, patch: nat) -> Seq<char> {
    "<div class=\"ver\">Unicode version "@ + decimal(major) + "."@ + decimal(minor) + "."@
        + decimal(patch)
        + ", using <a href=\"https://github.com/unicode-rs/unicode-segmentation\">unicode-segmentation</a> and <a href=\"https://github.com/ProgVal/unicode_names2\">unicode_names2</a>.</div>"@
}

/// The attribution note for the Unicode edition `major.minor.patch`.
pub fn version_of(major: u64, minor: u64, patch: u64) -> (r: String)
    ensures
        r@ == version_note(major as nat, minor as nat, patch as nat),
{
    let mut r = String::new();
    push_str(&mut r, "<div class=\"ver\">Unicode version ");
    push_radix(&mut r, major, 10, false);
    push_str(&mut r, ".");
    push_radix(&mut r, minor, 10, false);
    push_str(&mut r, ".");
    push_radix(&mut r, patch, 10, false);
    push_str(
        &mut r,
        ", using <a href=\"https://github.com/unicode-rs/unicode-segmentation\">unicode-segmentation</a> and <a href=\"https://github.com/ProgVal/unicode_names2\">unicode_names2</a>.</div>",
    );
    assert(r@ =~= version_note(major as nat, minor as nat, patch as nat));
    r
}

/// The attribution note for the Unicode edition that the segmentation tables
/// in use follow.
pub fn version() -> (r: String)
    ensures
        r@ == version_note(17, 0, 0),
{
    let (major, minor, patch) = unicode_version();
    version_of(major, minor, patch)
}

} // verus!
