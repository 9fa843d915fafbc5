use vstd::prelude::*;
use vstd::string::is_ascii;
use vstd::utf8::encode_utf8;

use crate::event::{ascii, kind_name, kind_token, EventKind, RecognitionEvent};

verus! {

/// Decimal digits of `n`, most significant first, without leading zeros.
pub open spec fn decimal(n: nat) -> Seq<u8>
    decreases n,
{
    if n < 10 {
        seq![('0' as u8 + n) as u8]
    } else {
        decimal(n / 10).push(('0' as u8 + n % 10) as u8)
    }
}

/// The lowercase hexadecimal digit for a value below 16.
pub open spec fn hex_digit(n: u8) -> u8 {
    if n < 10 {
        ('0' as u8 + n) as u8
    } else {
        ('a' as u8 + n - 10) as u8
    }
}

/// How one byte of transcript text is written inside the JSON string of a
/// `data:` field. A newline starts a continuation `data:` line. Quote,
/// backslash and every other control byte below 0x20 take their JSON
/// escapes: the short ones for carriage return, tab, backspace (0x08) and
/// form feed (0x0c), `\u00XX` for the rest.
pub open spec fn escape_byte(b: u8) -> Seq<u8> {
    if b == '\n' as u8 {
        ascii("\ndata: "@)
    } else if b == '"' as u8 {
        ascii("\\\""@)
    } else if b == '\\' as u8 {
        ascii("\\\\"@)
    } else if b == '\r' as u8 {
        ascii("\\r"@)
    } else if b == '\t' as u8 {
        ascii("\\t"@)
    } else if b == 0x08 {
        ascii("\\b"@)
    } else if b == 0x0c {
        ascii("\\f"@)
    } else if b < 0x20 {
        ascii("\\u00"@) + seq![hex_digit(b / 16), hex_digit(b % 16)]
    } else {
        seq![b]
    }
}

/// The transcript text as written in the `data:` field.
pub open spec fn escaped(s: Seq<u8>) -> Seq<u8>
    decreases s.len(),
{
    if s.len() == 0 {
        Seq::empty()
    } else {
        escaped(s.drop_last()) + escape_byte(s.last())
    }
}

/// The JSON object `{"ts_ms":..,"text":"..","kind":".."}` carried by `data:`.
pub open spec fn payload(ts_ms: u64, kind: EventKind, text: Seq<u8>) -> Seq<u8> {
    ascii("{\"ts_ms\":"@) + decimal(ts_ms as nat) + ascii(",\"text\":\""@) + escaped(text)
        + ascii("\",\"kind\":\""@) + kind_token(kind) + ascii("\"}"@)
}

/// One text/event-stream record: an `event:` line with the kind, the
/// `data:` field with the payload, and a terminating blank line.
pub open spec fn frame(ts_ms: u64, kind: EventKind, text: Seq<u8>) -> Seq<u8> {
    ascii("event: "@) + kind_token(kind) + ascii("\ndata: "@) + payload(ts_ms, kind, text) + ascii(
        "\n\n"@,
    )
}

fn append_bytes(out: &mut Vec<u8>, s: &[u8])
    ensures
        final(out)@ == old(out)@ + s@,
{
    let ghost start = out@;
    let mut i: usize = 0;
    while i < s.len()
        invariant
            i <= s@.len(),
            out@ == start + s@.subrange(0, i as int),
        decreases s@.len() - i,
    {
        out.push(s[i]);
        i = i + 1;
        assert(s@.subrange(0, i as int) == s@.subrange(0, i - 1 as int).push(s@[i - 1]));
    }
    assert(s@.subrange(0, s@.len() as int) == s@);
}

fn append_ascii(out: &mut Vec<u8>, s: &str)
    requires
        is_ascii(s),
    ensures
        final(out)@ == old(out)@ + ascii(s@),
{
    broadcast use vstd::string::is_ascii_spec_bytes;

    let b = s.as_bytes();
    assert(b@ =~= ascii(s@));
    append_bytes(out, b);
}

fn append_decimal(out: &mut Vec<u8>, n: u64)
    ensures
        final(out)@ == old(out)@ + decimal(n as nat),
    decreases n,
{
    if n >= 10 {
        append_decimal(out, n / 10);
    }
    out.push('0' as u8 + (n % 10) as u8);
    assert(decimal(n as nat) == if n < 10 {
        seq![('0' as u8 + n) as u8]
    } else {
        decimal((n / 10) as nat).push(('0' as u8 + n % 10) as u8)
    });
}

fn append_token(out: &mut Vec<u8>, kind: EventKind)
    ensures
        final(out)@ == old(out)@ + kind_token(kind),
{
    let name = kind.as_str();
    assert(is_ascii(name));
    append_ascii(out, name);
}

fn hex(n: u8) -> (r: u8)
    requires
        n < 16,
    ensures
        r == hex_digit(n),
{
    if n < 10 {
        '0' as u8 + n
    } else {
        'a' as u8 + n - 10
    }
}

fn append_escape(out: &mut Vec<u8>, b: u8)
    ensures
        final(out)@ == old(out)@ + escape_byte(b),
{
    if b == '\n' as u8 {
        proof {
            reveal_strlit("\ndata: ");
        }
        append_ascii(out, "\ndata: ");
    } else if b == '"' as u8 {
        proof {
            reveal_strlit("\\\"");
        }
        append_ascii(out, "\\\"");
    } else if b == '\\' as u8 {
        proof {
            reveal_strlit("\\\\");
        }
        append_ascii(out, "\\\\");
    } else if b == '\r' as u8 {
        proof {
            reveal_strlit("\\r");
        }
        append_ascii(out, "\\r");
    } else if b == '\t' as u8 {
        proof {
            reveal_strlit("\\t");
        }
        append_ascii(out, "\\t");
    } else if b == 0x08 {
        proof {
            reveal_strlit("\\b");
        }
        append_ascii(out, "\\b");
    } else if b == 0x0c {
        proof {
            reveal_strlit("\\f");
        }
        append_ascii(out, "\\f");
    } else if b < 0x20 {
        proof {
            reveal_strlit("\\u00");
        }
        append_ascii(out, "\\u00");
        let ghost mid = out@;
        out.push(hex(b / 16));
        out.push(hex(b % 16));
        assert(out@ == mid + seq![hex_digit(b / 16), hex_digit(b % 16)]);
    } else {
        out.push(b);
    }
}

fn append_escaped(out: &mut Vec<u8>, s: &[u8])
    ensures
        final(out)@ == old(out)@ + escaped(s@),
{
    let ghost start = out@;
    let mut i: usize = 0;
    while i < s.len()
        invariant
            i <= s@.len(),
            out@ == start + escaped(s@.subrange(0, i as int)),
        decreases s@.len() - i,
    {
        let b = s[i];
        append_escape(out, b);
        i = i + 1;
        let ghost pre = s@.subrange(0, i as int);
        assert(pre.drop_last() == s@.subrange(0, i - 1 as int));
        assert(pre.last() == b);
    }
    assert(s@.subrange(0, s@.len() as int) == s@);
}

/// Writes `event` as one text/event-stream record.
pub fn encode(event: &RecognitionEvent) -> (r: Vec<u8>)
    ensures
        r@ == frame(event.ts_ms, event.kind, encode_utf8(event.text@)),
{
    let text = event.text.as_str().as_bytes();
    let mut out: Vec<u8> = Vec::new();
    proof {
        reveal_strlit("event: ");
        reveal_strlit("\ndata: ");
        reveal_strlit("{\"ts_ms\":");
        reveal_strlit(",\"text\":\"");
        reveal_strlit("\",\"kind\":\"");
        reveal_strlit("\"}");
        reveal_strlit("\n\n");
    }
    append_ascii(&mut out, "event: ");
    append_token(&mut out, event.kind);
    append_ascii(&mut out, "\ndata: ");
    append_ascii(&mut out, "{\"ts_ms\":");
    append_decimal(&mut out, event.ts_ms);
    append_ascii(&mut out, ",\"text\":\"");
    append_escaped(&mut out, text);
    append_ascii(&mut out, "\",\"kind\":\"");
    append_token(&mut out, event.kind);
    append_ascii(&mut out, "\"}");
    append_ascii(&mut out, "\n\n");
    assert(out@ == frame(event.ts_ms, event.kind, encode_utf8(event.text@)));
    out
}

/// The number of line breaks in `s`.
pub open spec fn line_breaks(s: Seq<u8>) -> nat
    decreases s.len(),
{
    if s.len() == 0 {
        0
    } else {
        line_breaks(s.drop_last()) + if s.last() == '\n' as u8 {
            1nat
        } else {
            0nat
        }
    }
}

/// Every line break in `s` is followed, within `s`, by a `data: ` prefix.
pub open spec fn breaks_continue(s: Seq<u8>) -> bool {
    forall|i: int|
        0 <= i < s.len() && #[trigger] s[i] == '\n' as u8 ==> i + 7 <= s.len() && s.subrange(
            i + 1,
            i + 7,
        ) == ascii("data: "@)
}

proof fn lemma_line_breaks_concat(a: Seq<u8>, b: Seq<u8>)
    ensures
        line_breaks(a + b) == line_breaks(a) + line_breaks(b),
    decreases b.len(),
{
    if b.len() == 0 {
        assert(a + b =~= a);
    } else {
        assert((a + b).drop_last() =~= a + b.drop_last());
        lemma_line_breaks_concat(a, b.drop_last());
    }
}

proof fn lemma_line_breaks_single(x: u8)
    ensures
        line_breaks(seq![x]) == if x == '\n' as u8 {
            1nat
        } else {
            0nat
        },
{
    assert(seq![x].drop_last() =~= Seq::<u8>::empty());
    assert(line_breaks(Seq::<u8>::empty()) == 0);
}

proof fn lemma_no_breaks(s: Seq<u8>)
    requires
        forall|i: int| 0 <= i < s.len() ==> s[i] != '\n' as u8,
    ensures
        line_breaks(s) == 0,
        breaks_continue(s),
    decreases s.len(),
{
    if s.len() > 0 {
        lemma_no_breaks(s.drop_last());
    }
}

proof fn lemma_continue_concat(a: Seq<u8>, b: Seq<u8>)
    requires
        breaks_continue(a),
        breaks_continue(b),
    ensures
        breaks_continue(a + b),
{
    let c = a + b;
    assert forall|i: int| 0 <= i < c.len() && #[trigger] c[i] == '\n' as u8 implies i + 7 <= c.len()
        && c.subrange(i + 1, i + 7) == ascii("data: "@) by {
        if i < a.len() {
            assert(a[i] == '\n' as u8);
            assert(c.subrange(i + 1, i + 7) =~= a.subrange(i + 1, i + 7));
        } else {
            let j = i - a.len();
            assert(b[j] == '\n' as u8);
            assert(c.subrange(i + 1, i + 7) =~= b.subrange(j + 1, j + 7));
        }
    }
}

proof fn lemma_literal_clean(lit: &str)
    requires
        forall|i: int| 0 <= i < lit@.len() ==> #[trigger] ascii(lit@)[i] != '\n' as u8,
    ensures
        line_breaks(ascii(lit@)) == 0,
        breaks_continue(ascii(lit@)),
{
    lemma_no_breaks(ascii(lit@));
}

proof fn lemma_escape_byte_lines(b: u8)
    ensures
        breaks_continue(escape_byte(b)),
        line_breaks(escape_byte(b)) == if b == '\n' as u8 {
            1nat
        } else {
            0nat
        },
{
    if b == '\n' as u8 {
        reveal_strlit("\ndata: ");
        reveal_strlit("data: ");
        let s = ascii("\ndata: "@);
        let rest = s.subrange(1, 7);
        assert(forall|i: int| 0 <= i < rest.len() ==> rest[i] != '\n' as u8);
        lemma_no_breaks(rest);
        assert(s =~= seq![s[0]] + rest);
        lemma_line_breaks_concat(seq![s[0]], rest);
        lemma_line_breaks_single(s[0]);
        assert(s.subrange(1, 7) =~= ascii("data: "@));
        assert forall|i: int| 0 <= i < s.len() && #[trigger] s[i] == '\n' as u8 implies i + 7
            <= s.len() && s.subrange(i + 1, i + 7) == ascii("data: "@) by {
            if i > 0 {
                assert(rest[i - 1] == s[i]);
            }
        }
    } else if b == '"' as u8 {
        reveal_strlit("\\\"");
        lemma_literal_clean("\\\"");
    } else if b == '\\' as u8 {
        reveal_strlit("\\\\");
        lemma_literal_clean("\\\\");
    } else if b == '\r' as u8 {
        reveal_strlit("\\r");
        lemma_literal_clean("\\r");
    } else if b == '\t' as u8 {
        reveal_strlit("\\t");
        lemma_literal_clean("\\t");
    } else if b == 0x08 {
        reveal_strlit("\\b");
        lemma_literal_clean("\\b");
    } else if b == 0x0c {
        reveal_strlit("\\f");
        lemma_literal_clean("\\f");
    } else if b < 0x20 {
        reveal_strlit("\\u00");
        lemma_literal_clean("\\u00");
        let digits = seq![hex_digit(b / 16), hex_digit(b % 16)];
        lemma_no_breaks(digits);
        lemma_line_breaks_concat(ascii("\\u00"@), digits);
        lemma_continue_concat(ascii("\\u00"@), digits);
    } else {
        lemma_no_breaks(seq![b]);
    }
}

proof fn lemma_escaped_lines(s: Seq<u8>)
    ensures
        breaks_continue(escaped(s)),
        line_breaks(escaped(s)) == line_breaks(s),
    decreases s.len(),
{
    if s.len() == 0 {
        lemma_no_breaks(escaped(s));
    } else {
        lemma_escaped_lines(s.drop_last());
        lemma_escape_byte_lines(s.last());
        lemma_continue_concat(escaped(s.drop_last()), escape_byte(s.last()));
        lemma_line_breaks_concat(escaped(s.drop_last()), escape_byte(s.last()));
    }
}

proof fn lemma_decimal_clean(n: nat)
    ensures
        line_breaks(decimal(n)) == 0,
        breaks_continue(decimal(n)),
        forall|i: int| 0 <= i < decimal(n).len() ==> decimal(n)[i] != '\n' as u8,
    decreases n,
{
    if n >= 10 {
        lemma_decimal_clean(n / 10);
    }
    lemma_no_breaks(decimal(n));
}

proof fn lemma_token_clean(k: EventKind)
    ensures
        line_breaks(kind_token(k)) == 0,
        breaks_continue(kind_token(k)),
{
    reveal_strlit("partial");
    reveal_strlit("final");
    reveal_strlit("error");
    match k {
        EventKind::Partial => {
            assert("partial"@ == kind_name(k));
            lemma_literal_clean("partial");
        },
        EventKind::Final => {
            assert("final"@ == kind_name(k));
            lemma_literal_clean("final");
        },
        EventKind::Error => {
            assert("error"@ == kind_name(k));
            lemma_literal_clean("error");
        },
    }
}

/// An encoded record is an `event:` line, then one `data:` line for each
/// line of the text, then an empty line that ends it. Every line break
/// before the closing blank line is followed by a `data: ` prefix, so no
/// other line of the record is empty and a client that strips the prefixes
/// and joins the lines with line breaks gets the payload back; the record
/// holds three line breaks more than the text. Records written one after
/// another therefore split apart at their blank lines.
pub proof fn lemma_frame_lines(ts_ms: u64, kind: EventKind, text: Seq<u8>)
    ensures
        ({
            let f = frame(ts_ms, kind, text);
            &&& f.len() >= 3
            &&& f.subrange(f.len() - 2, f.len() as int) == ascii("\n\n"@)
            &&& f[f.len() - 3] == '}' as u8
            &&& breaks_continue(f.subrange(0, f.len() - 2))
            &&& line_breaks(f) == line_breaks(text) + 3
        }),
{
    reveal_strlit("event: ");
    reveal_strlit("\ndata: ");
    reveal_strlit("{\"ts_ms\":");
    reveal_strlit(",\"text\":\"");
    reveal_strlit("\",\"kind\":\"");
    reveal_strlit("\"}");
    reveal_strlit("\n\n");
    lemma_literal_clean("event: ");
    lemma_literal_clean("{\"ts_ms\":");
    lemma_literal_clean(",\"text\":\"");
    lemma_literal_clean("\",\"kind\":\"");
    lemma_literal_clean("\"}");
    lemma_token_clean(kind);
    lemma_escape_byte_lines('\n' as u8);
    lemma_decimal_clean(ts_ms as nat);
    lemma_escaped_lines(text);

    let l1 = ascii("{\"ts_ms\":"@);
    let d = decimal(ts_ms as nat);
    let l2 = ascii(",\"text\":\""@);
    let e = escaped(text);
    let l3 = ascii("\",\"kind\":\""@);
    let t = kind_token(kind);
    let l4 = ascii("\"}"@);
    lemma_line_breaks_concat(l1, d);
    lemma_continue_concat(l1, d);
    lemma_line_breaks_concat(l1 + d, l2);
    lemma_continue_concat(l1 + d, l2);
    lemma_line_breaks_concat(l1 + d + l2, e);
    lemma_continue_concat(l1 + d + l2, e);
    lemma_line_breaks_concat(l1 + d + l2 + e, l3);
    lemma_continue_concat(l1 + d + l2 + e, l3);
    lemma_line_breaks_concat(l1 + d + l2 + e + l3, t);
    lemma_continue_concat(l1 + d + l2 + e + l3, t);
    lemma_line_breaks_concat(l1 + d + l2 + e + l3 + t, l4);
    lemma_continue_concat(l1 + d + l2 + e + l3 + t, l4);
    let p = payload(ts_ms, kind, text);
    assert(p == l1 + d + l2 + e + l3 + t + l4);

    let a = ascii("event: "@);
    let c = ascii("\ndata: "@);
    assert(c == escape_byte('\n' as u8));
    lemma_line_breaks_concat(a, t);
    lemma_continue_concat(a, t);
    lemma_line_breaks_concat(a + t, c);
    lemma_continue_concat(a + t, c);
    lemma_line_breaks_concat(a + t + c, p);
    lemma_continue_concat(a + t + c, p);
    let body = a + t + c + p;
    let z = ascii("\n\n"@);
    assert(line_breaks(z) == 2) by {
        assert(z =~= seq![z[0]] + seq![z[1]]);
        lemma_line_breaks_single(z[0]);
        lemma_line_breaks_single(z[1]);
        lemma_line_breaks_concat(seq![z[0]], seq![z[1]]);
    }
    lemma_line_breaks_concat(body, z);
    let f = frame(ts_ms, kind, text);
    assert(f == body + z);
    assert(f.subrange(0, f.len() - 2) =~= body);
    assert(f.subrange(f.len() - 2, f.len() as int) =~= z);
    assert(l4[1] == '}' as u8);
    assert(f[f.len() - 3] == l4[1]);
}

proof fn lemma_escape_byte_printable(b: u8)
    requires
        b != '\n' as u8,
    ensures
        forall|i: int| 0 <= i < escape_byte(b).len() ==> #[trigger] escape_byte(b)[i] >= 0x20,
{
    reveal_strlit("\\\"");
    reveal_strlit("\\\\");
    reveal_strlit("\\r");
    reveal_strlit("\\t");
    reveal_strlit("\\b");
    reveal_strlit("\\f");
    reveal_strlit("\\u00");
    if b < 0x20 && b != '"' as u8 && b != '\\' as u8 && b != '\r' as u8 && b != '\t' as u8
        && b != 0x08 && b != 0x0c {
        let lit = ascii("\\u00"@);
        let digits = seq![hex_digit(b / 16), hex_digit(b % 16)];
        assert forall|i: int| 0 <= i < escape_byte(b).len() implies #[trigger] escape_byte(b)[i] >= 0x20 by {
            if i >= lit.len() {
                assert(escape_byte(b)[i] == digits[i - lit.len()]);
            }
        }
    }
}

/// Outside its line breaks, the text of a record is written without any
/// control byte below 0x20, as a JSON string requires: for a text with no
/// line break, every byte of the escaped text is at least 0x20.
pub proof fn lemma_escaped_has_no_control_bytes(s: Seq<u8>)
    requires
        forall|i: int| 0 <= i < s.len() ==> s[i] != '\n' as u8,
    ensures
        forall|i: int| 0 <= i < escaped(s).len() ==> #[trigger] escaped(s)[i] >= 0x20,
    decreases s.len(),
{
    if s.len() > 0 {
        lemma_escaped_has_no_control_bytes(s.drop_last());
        lemma_escape_byte_printable(s.last());
        let a = escaped(s.drop_last());
        let b = escape_byte(s.last());
        assert forall|i: int| 0 <= i < escaped(s).len() implies #[trigger] escaped(s)[i] >= 0x20 by {
            if i < a.len() {
                assert(escaped(s)[i] == a[i]);
            } else {
                assert(escaped(s)[i] == b[i - a.len()]);
            }
        }
    }
}

} // verus!
