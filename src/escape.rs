//! Escaping text for HTML element content and attribute values.
use vstd::prelude::*;
use crate::digits::{digit_char, push_char, push_radix, push_str, radix};

verus! {

/// The characters that pass through unescaped: ASCII digits, the space, and
/// every character from `A` through `z` (which takes in the six punctuation
/// marks `[`, `\`, `]`, `^`, `_` and the backquote between the two cases).
pub open spec fn passes_through(c: char) -> bool {
    ('0' <= c && c <= '9') || ('A' <= c && c <= 'z') || c == ' '
}

/// The numeric character reference for `c`: `&#x`, its code point in upper-case
/// hexadecimal, and `;`.
pub open spec fn entity_of(c: char) -> Seq<char> {
    seq!['&', '#', 'x'] + radix(c as nat, 16, true) + seq![';']
}

/// What one character becomes in escaped text.
pub open spec fn escape_char_spec(c: char) -> Seq<char> {
    if passes_through(c) {
        seq![c]
    } else {
        entity_of(c)
    }
}

/// The escaped form of a whole character sequence.
pub open spec fn escaped(s: Seq<char>) -> Seq<char>
    decreases s.len(),
{
    if s.len() == 0 {
        seq![]
    } else {
        escaped(s.drop_last()) + escape_char_spec(s.last())
    }
}

/// The numeric character reference for `khar`, such as `&#x1F600;`.
pub fn entity_escape_char(khar: &char) -> (r: String)
    ensures
        r@ == entity_of(*khar),
{
    let mut r = String::new();
    push_str(&mut r, "&#x");
    push_radix(&mut r, *khar as u32 as u64, 16, true);
    push_char(&mut r, ';');
    proof {
        reveal_strlit("&#x");
        assert(r@ =~= entity_of(*khar));
    }
    r
}

/// The characters of `s`, in order.
pub fn chars_of(s: &str) -> (r: Vec<char>)
    ensures
        r@ == s@,
{
    broadcast use vstd::string::axiom_spec_iter;

    let mut r: Vec<char> = Vec::new();
    for c in it: s.chars()
        invariant
            it.seq() == s@,
            r@ == it.seq().subrange(0, it.index() as int),
    {
        r.push(c);
    }
    r
}

/// Escapes `text` for use as an HTML element value or attribute value: ASCII
/// letters, digits and the space stay as they are, every other character
/// becomes its hexadecimal character reference.
pub fn html_escape(text: &str) -> (r: String)
    ensures
        r@ == escaped(text@),
{
    let cs = chars_of(text);
    let mut r = String::new();
    let mut i: usize = 0;
    while i < cs.len()
        invariant
            cs@ == text@,
            i <= cs@.len(),
            r@ == escaped(cs@.subrange(0, i as int)),
        decreases cs@.len() - i,
    {
        let c = cs[i];
        if ('0' <= c && c <= '9') || ('A' <= c && c <= 'z') || c == ' ' {
            push_char(&mut r, c);
        } else {
            let e = entity_escape_char(&c);
            push_str(&mut r, e.as_str());
        }
        proof {
            let next = cs@.subrange(0, i + 1);
            assert(next.drop_last() =~= cs@.subrange(0, i as int));
        }
        i = i + 1;
    }
    assert(cs@.subrange(0, i as int) =~= text@);
    r
}

/// Whether `c` is an upper-case hexadecimal digit.
pub open spec fn is_hex_digit(c: char) -> bool {
    ('0' <= c && c <= '9') || ('A' <= c && c <= 'F')
}

/// The value of an upper-case hexadecimal digit.
pub open spec fn hex_digit_value(c: char) -> nat {
    if '0' <= c && c <= '9' {
        (c as u32 - '0' as u32) as nat
    } else {
        (c as u32 - 'A' as u32 + 10) as nat
    }
}

/// The value of a sequence of hexadecimal digits, most significant first.
pub open spec fn hex_value(ds: Seq<char>) -> nat
    decreases ds.len(),
{
    if ds.len() == 0 {
        0
    } else {
        hex_value(ds.drop_last()) * 16 + hex_digit_value(ds.last())
    }
}

proof fn lemma_digit_value(d: nat)
    requires
        d < 16,
    ensures
        is_hex_digit(digit_char(d, true)),
        hex_digit_value(digit_char(d, true)) == d,
{
    if d < 10 {
        assert((((48 + d) as u8) as char) as u32 == 48 + d);
    } else {
        assert((((55 + d) as u8) as char) as u32 == 55 + d);
    }
}

/// Upper-case hexadecimal digits read back as the number they were written from.
pub proof fn lemma_hex_round_trip(n: nat)
    ensures
        radix(n, 16, true).len() > 0,
        forall|i: int|
            0 <= i < radix(n, 16, true).len() ==> is_hex_digit(#[trigger] radix(n, 16, true)[i]),
        hex_value(radix(n, 16, true)) == n,
    decreases n,
{
    let ds = radix(n, 16, true);
    if n < 16 {
        lemma_digit_value(n);
        assert(ds == seq![digit_char(n, true)]);
        assert(ds.drop_last() =~= Seq::<char>::empty());
        assert(hex_value(ds.drop_last()) == 0);
        assert(ds.last() == digit_char(n, true));
    } else {
        assert(n / 16 < n);
        lemma_hex_round_trip(n / 16);
        lemma_digit_value(n % 16);
        assert(ds.drop_last() =~= radix(n / 16, 16, true));
        assert(ds.last() == digit_char(n % 16, true));
        assert(n == (n / 16) * 16 + n % 16);
    }
}

/// Which characters come out of escaping: a character that passes through is
/// never `&`, `<`, `>`, `"` or `'`; any other is written as `&#x`, one or more
/// upper-case hexadecimal digits whose value is its code point, and `;`. So the
/// escaped text reads back, piece by piece, as the original.
pub proof fn lemma_escape_char_decodes(c: char)
    ensures
        passes_through(c) ==> escape_char_spec(c) == seq![c] && c != '&' && c != '<' && c
            != '>' && c != '"' && c != '\'',
        !passes_through(c) ==> exists|ds: Seq<char>|
            {
                &&& escape_char_spec(c) == seq!['&', '#', 'x'] + ds + seq![';']
                &&& ds.len() > 0
                &&& forall|i: int| 0 <= i < ds.len() ==> is_hex_digit(#[trigger] ds[i])
                &&& hex_value(ds) == c as nat
            },
{
    lemma_hex_round_trip(c as nat);
    let ds = radix(c as nat, 16, true);
    if !passes_through(c) {
        assert(escape_char_spec(c) == seq!['&', '#', 'x'] + ds + seq![';']);
    }
}

/// Escaped text never holds the raw characters `<`, `>`, `"` or `'`.
pub proof fn lemma_escape_safe(s: Seq<char>)
    ensures
        forall|i: int|
            0 <= i < escaped(s).len() ==> {
                let e = #[trigger] escaped(s)[i];
                e != '<' && e != '>' && e != '"' && e != '\''
            },
    decreases s.len(),
{
    if s.len() > 0 {
        lemma_escape_safe(s.drop_last());
        let c = s.last();
        let piece = escape_char_spec(c);
        let ds = radix(c as nat, 16, true);
        lemma_hex_round_trip(c as nat);
        assert forall|i: int| 0 <= i < piece.len() implies {
            let e = #[trigger] piece[i];
            e != '<' && e != '>' && e != '"' && e != '\''
        } by {
            if !passes_through(c) {
                let head = seq!['&', '#', 'x'];
                assert(piece == head + ds + seq![';']);
                if 3 <= i < 3 + ds.len() {
                    assert(piece[i] == ds[i - 3]);
                    assert(is_hex_digit(ds[i - 3]));
                }
            }
        }
        let prev = escaped(s.drop_last());
        assert forall|i: int| 0 <= i < escaped(s).len() implies {
            let e = #[trigger] escaped(s)[i];
            e != '<' && e != '>' && e != '"' && e != '\''
        } by {
            if i >= prev.len() {
                assert(escaped(s)[i] == piece[i - prev.len()]);
            } else {
                assert(escaped(s)[i] == prev[i]);
            }
        }
    }
}

} // verus!
