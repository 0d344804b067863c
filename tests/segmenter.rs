use segmenter::decompose::{decompose, char_width, Cluster, CodePoint, Decomposition};
use segmenter::escape::{entity_escape_char, html_escape};
use segmenter::render::{render, segment_table, version, version_of};

const HEAD: &str = "<table class=\"segmented\"><tr><th>Grapheme clusters</th>";
const MID1: &str = "</tr><tr><th>Code points</th>";
const MID2: &str = "</tr><tr class=\"bytes-row\"><th>UTF-8 bytes</th>";
const TAIL: &str = "</tr></table>";

fn cluster(span: usize, text: &str) -> String {
    format!("<td colspan=\"{}\"><span class=\"char\">{}</span></td>", span, text)
}

fn point(span: usize, c: &str, name: &str) -> String {
    format!(
        "<td colspan=\"{}\"><span class=\"char\">{}</span><div class=\"name\">{}</div></td>",
        span, c, name
    )
}

fn bytes(bs: &[&str]) -> String {
    bs.iter().map(|b| format!("<td>{}</td>", b)).collect()
}

#[test]
fn segment_table_works() {
    let family = "\u{1F468}\u{200D}\u{1F469}\u{200D}\u{1F466}";
    let expected = format!(
        "{}{}{}{}{}{}{}{}{}{}",
        HEAD,
        cluster(18, family),
        MID1,
        point(4, "\u{1F468}", "MAN"),
        point(3, "\u{200D}", "ZERO WIDTH JOINER"),
        point(4, "\u{1F469}", "WOMAN"),
        point(3, "\u{200D}", "ZERO WIDTH JOINER") + &point(4, "\u{1F466}", "BOY"),
        MID2,
        bytes(&[
            "f0", "9f", "91", "a8", "e2", "80", "8d", "f0", "9f", "91", "a9", "e2", "80", "8d",
            "f0", "9f", "91", "a6",
        ]),
        TAIL
    );
    assert_eq!(segment_table(family.to_string()), expected);
}

#[test]
fn family_decomposition_counts() {
    let family = "\u{1F468}\u{200D}\u{1F469}\u{200D}\u{1F466}";
    let d = decompose(family);
    assert_eq!(d.clusters.len(), 1);
    assert_eq!(d.clusters[0].span, 18);
    let spans: Vec<usize> = d.code_points.iter().map(|c| c.span).collect();
    assert_eq!(spans, vec![4, 3, 4, 3, 4]);
    assert_eq!(d.bytes.len(), 18);
    assert_eq!(d.bytes, family.as_bytes().to_vec());
}

#[test]
fn segment_table_empty() {
    assert_eq!(segment_table(String::new()), format!("{}{}{}{}", HEAD, MID1, MID2, TAIL));
}

#[test]
fn segment_table_ascii() {
    let expected = format!(
        "{}{}{}{}{}{}{}{}{}{}{}{}{}",
        HEAD,
        cluster(1, "H"),
        cluster(1, "i"),
        cluster(1, " "),
        cluster(1, "5"),
        MID1,
        point(1, "H", ""),
        point(1, "i", ""),
        point(1, " ", "SPACE"),
        point(1, "5", ""),
        MID2,
        bytes(&["48", "69", "20", "35"]),
        TAIL
    );
    assert_eq!(segment_table("Hi 5".to_string()), expected);
}

#[test]
fn html_escape_ascii_passes() {
    assert_eq!(html_escape("Hi 5"), "Hi 5");
}

#[test]
fn html_escape_markup_characters() {
    let e = html_escape("<a href=\"x\">'&'</a>");
    assert_eq!(
        e,
        "&#x3C;a href&#x3D;&#x22;x&#x22;&#x3E;&#x27;&#x26;&#x27;&#x3C;&#x2F;a&#x3E;"
    );
    for raw in ['<', '>', '"', '\''] {
        assert!(!e.contains(raw));
    }
}

#[test]
fn html_escape_non_ascii() {
    assert_eq!(html_escape("\u{E9}\u{1F600}"), "&#xE9;&#x1F600;");
    assert_eq!(html_escape(""), "");
}

#[test]
fn html_escape_range_quirk() {
    assert_eq!(html_escape("[\\]^_`"), "[\\]^_`");
    assert_eq!(html_escape("{-}"), "&#x7B;&#x2D;&#x7D;");
}

fn unescape(e: &str) -> String {
    let mut out = String::new();
    let mut rest = e;
    while let Some(pos) = rest.find("&#x") {
        out.push_str(&rest[..pos]);
        let after = &rest[pos + 3..];
        let end = after.find(';').unwrap();
        let v = u32::from_str_radix(&after[..end], 16).unwrap();
        out.push(char::from_u32(v).unwrap());
        rest = &after[end + 1..];
    }
    out.push_str(rest);
    out
}

#[test]
fn html_escape_decodes_back() {
    let s = "a<b>&\"q\" 'z' \u{E9}\u{1F468}\u{200D}\n9";
    assert_eq!(unescape(&html_escape(s)), s);
}

#[test]
fn entity_escape_char_hex() {
    assert_eq!(entity_escape_char(&'\n'), "&#xA;");
    assert_eq!(entity_escape_char(&'a'), "&#x61;");
    assert_eq!(entity_escape_char(&'\u{10FFFF}'), "&#x10FFFF;");
    assert_eq!(entity_escape_char(&'\0'), "&#x0;");
}

#[test]
fn calls_repeat_identically() {
    let s = "e\u{301}<\u{1F600}";
    assert_eq!(segment_table(s.to_string()), segment_table(s.to_string()));
    assert_eq!(html_escape(s), html_escape(s));
    assert_eq!(version(), version());
}

#[test]
fn decompose_round_trip() {
    let s = "e\u{301}x\u{1F1EB}\u{1F1F7}\r\n";
    let d = decompose(s);
    let joined: String = d.clusters.iter().map(|c| c.text.as_str()).collect();
    assert_eq!(joined, s);
    assert_eq!(d.clusters.len(), 4);
    let chars: String = d.code_points.iter().map(|c| c.ch).collect();
    assert_eq!(chars, s);
    assert_eq!(d.bytes, s.as_bytes().to_vec());
}

#[test]
fn decompose_spans_agree() {
    let s = "a\u{E9}\u{1F600}e\u{301}";
    let d = decompose(s);
    let cluster_spans: Vec<usize> = d.clusters.iter().map(|c| c.span).collect();
    assert_eq!(cluster_spans, vec![1, 2, 4, 3]);
    let point_spans: Vec<usize> = d.code_points.iter().map(|c| c.span).collect();
    assert_eq!(point_spans, vec![1, 2, 4, 1, 2]);
    let total_clusters: usize = cluster_spans.iter().sum();
    let total_points: usize = point_spans.iter().sum();
    assert_eq!(total_clusters, 10);
    assert_eq!(total_points, 10);
    assert_eq!(d.bytes.len(), 10);
}

#[test]
fn char_width_by_range() {
    assert_eq!(char_width('\u{7F}'), 1);
    assert_eq!(char_width('\u{80}'), 2);
    assert_eq!(char_width('\u{7FF}'), 2);
    assert_eq!(char_width('\u{800}'), 3);
    assert_eq!(char_width('\u{FFFF}'), 3);
    assert_eq!(char_width('\u{10000}'), 4);
}

#[test]
fn unknown_name_shows_mark() {
    let expected = format!(
        "{}{}{}{}{}{}{}",
        HEAD,
        cluster(2, "\u{378}"),
        MID1,
        point(2, "\u{378}", "?"),
        MID2,
        bytes(&["cd", "b8"]),
        TAIL
    );
    assert_eq!(segment_table("\u{378}".to_string()), expected);
}

#[test]
fn names_come_from_tables() {
    let d = decompose("<\u{E9}");
    assert_eq!(d.code_points[0].name.as_deref(), Some("LESS-THAN SIGN"));
    assert_eq!(
        d.code_points[1].name.as_deref(),
        Some("LATIN SMALL LETTER E WITH ACUTE")
    );
}

#[test]
fn render_given_rows() {
    let d = Decomposition {
        clusters: vec![Cluster { text: "<".to_string(), span: 1 }],
        code_points: vec![
            CodePoint::new('<', 1, Some("LESS-THAN SIGN".to_string())),
            CodePoint::new('7', 1, Some("DIGIT SEVEN".to_string())),
            CodePoint::new('\u{378}', 2, None),
        ],
        bytes: vec![7, 0xab],
    };
    let expected = format!(
        "{}{}{}{}{}{}{}{}{}",
        HEAD,
        cluster(1, "<"),
        MID1,
        point(1, "<", "LESS-THAN SIGN"),
        point(1, "7", ""),
        point(2, "\u{378}", "?"),
        MID2,
        bytes(&["07", "ab"]),
        TAIL
    );
    assert_eq!(render(&d), expected);
}

#[test]
fn version_note_text() {
    assert_eq!(
        version_of(17, 0, 0),
        "<div class=\"ver\">Unicode version 17.0.0, using <a href=\"https://github.com/unicode-rs/unicode-segmentation\">unicode-segmentation</a> and <a href=\"https://github.com/ProgVal/unicode_names2\">unicode_names2</a>.</div>"
    );
    assert!(version_of(15, 1, 203).contains("Unicode version 15.1.203,"));
    assert_eq!(version(), version_of(17, 0, 0));
}
