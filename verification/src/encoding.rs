//! Percent-encoding of a URL path segment: every byte of the UTF-8 text
//! outside the unreserved set (`A-Z a-z 0-9 - . _ ~`) becomes `%XX` with
//! upper-case hexadecimal digits.
use vstd::prelude::*;
use vstd::string::StringSliceAdditionalSpecFns;
use vstd::utf8::{encode_utf8, is_ascii_chars, is_ascii_chars_encode_utf8};

verus! {

/// The unreserved bytes of RFC 3986, which a path segment keeps as they are.
pub open spec fn is_unreserved(b: u8) -> bool {
    ||| 0x41 <= b <= 0x5A
    ||| 0x61 <= b <= 0x7A
    ||| 0x30 <= b <= 0x39
    ||| b == 0x2D
    ||| b == 0x2E
    ||| b == 0x5F
    ||| b == 0x7E
}

/// Upper-case hexadecimal digit of `d < 16`.
pub open spec fn hex_digit(d: nat) -> char {
    if d < 10 {
        (d + 48) as char
    } else {
        (d + 55) as char
    }
}

/// Value of a hexadecimal digit (either case); 0 for any other character.
pub open spec fn hex_value(c: char) -> int {
    if '0' <= c <= '9' {
        c as int - 48
    } else if 'A' <= c <= 'F' {
        c as int - 55
    } else if 'a' <= c <= 'f' {
        c as int - 87
    } else {
        0
    }
}

/// The encoding of one byte.
pub open spec fn encode_byte(b: u8) -> Seq<char> {
    if is_unreserved(b) {
        seq![b as char]
    } else {
        seq!['%', hex_digit((b / 16) as nat), hex_digit((b % 16) as nat)]
    }
}

/// The encoding of a byte string, byte by byte.
pub open spec fn percent_encode(bytes: Seq<u8>) -> Seq<char>
    decreases bytes.len(),
{
    if bytes.len() == 0 {
        Seq::empty()
    } else {
        encode_byte(bytes[0]) + percent_encode(bytes.drop_first())
    }
}

/// Percent-decoding: `%` and two hexadecimal digits give one byte, any other
/// character gives its own code as a byte.
pub open spec fn percent_decode(s: Seq<char>) -> Seq<u8>
    decreases s.len(),
{
    if s.len() == 0 {
        Seq::empty()
    } else if s[0] == '%' && s.len() >= 3 {
        seq![(hex_value(s[1]) * 16 + hex_value(s[2])) as u8] + percent_decode(s.skip(3))
    } else {
        seq![s[0] as u8] + percent_decode(s.drop_first())
    }
}

/// A character that may stand in an encoded path segment.
pub open spec fn is_segment_char(c: char) -> bool {
    c == '%' || ((c as u32) < 0x80 && is_unreserved(c as u8))
}

proof fn lemma_percent_encode_append(a: Seq<u8>, b: u8)
    ensures
        percent_encode(a.push(b)) == percent_encode(a) + encode_byte(b),
    decreases a.len(),
{
    if a.len() == 0 {
        assert(a.push(b).drop_first() =~= Seq::<u8>::empty());
        assert(percent_encode(Seq::<u8>::empty()) == Seq::<char>::empty());
        assert(a.push(b)[0] == b);
        assert(percent_encode(a.push(b)) =~= encode_byte(b) + Seq::<char>::empty());
        assert(percent_encode(a) + encode_byte(b) =~= encode_byte(b));
    } else {
        lemma_percent_encode_append(a.drop_first(), b);
        assert(a.push(b).drop_first() =~= a.drop_first().push(b));
        assert(percent_encode(a.push(b)) =~= encode_byte(a[0]) + (percent_encode(a.drop_first())
            + encode_byte(b)));
    }
}

/// The encoding of one byte.
fn push_encoded_byte(out: &mut String, b: u8)
    ensures
        final(out)@ == old(out)@ + encode_byte(b),
{
    let unreserved = (0x41 <= b && b <= 0x5A) || (0x61 <= b && b <= 0x7A) || (0x30 <= b && b
        <= 0x39) || b == 0x2D || b == 0x2E || b == 0x5F || b == 0x7E;
    if unreserved {
        out.push(b as char);
        assert(encode_byte(b) =~= seq![b as char]);
    } else {
        let hi: u8 = b / 16;
        let lo: u8 = b % 16;
        let hc: char = if hi < 10 {
            (48u8 + hi) as char
        } else {
            (55u8 + hi) as char
        };
        let lc: char = if lo < 10 {
            (48u8 + lo) as char
        } else {
            (55u8 + lo) as char
        };
        out.push('%');
        out.push(hc);
        out.push(lc);
        assert(old(out)@ + encode_byte(b) =~= old(out)@.push('%').push(hc).push(lc));
    }
}

/// Percent-encodes `value` for use as one segment of a URL path.
pub fn encode_path_segment(value: &str) -> (r: String)
    ensures
        r@ == percent_encode(value.spec_bytes()),
{
    let bytes = value.as_bytes();
    let mut out = String::new();
    let mut i: usize = 0;
    while i < bytes.len()
        invariant
            i <= bytes@.len(),
            bytes@ == value.spec_bytes(),
            out@ == percent_encode(bytes@.take(i as int)),
        decreases bytes.len() - i,
    {
        let b = bytes[i];
        push_encoded_byte(&mut out, b);
        proof {
            lemma_percent_encode_append(bytes@.take(i as int), b);
            assert(bytes@.take(i + 1) =~= bytes@.take(i as int).push(b));
        }
        i += 1;
    }
    assert(bytes@.take(bytes@.len() as int) =~= bytes@);
    out
}

proof fn lemma_hex_round_trip(d: nat)
    requires
        d < 16,
    ensures
        hex_value(hex_digit(d)) == d,
        is_segment_char(hex_digit(d)),
        hex_digit(d) != '%',
{
}

/// Encoding loses nothing: decoding an encoded byte string gives it back.
pub proof fn law_percent_round_trip(bytes: Seq<u8>)
    ensures
        percent_decode(percent_encode(bytes)) == bytes,
    decreases bytes.len(),
{
    if bytes.len() > 0 {
        let b = bytes[0];
        let rest = bytes.drop_first();
        law_percent_round_trip(rest);
        let e = percent_encode(bytes);
        assert(e == encode_byte(b) + percent_encode(rest));
        if is_unreserved(b) {
            assert(e[0] == b as char);
            assert(e.drop_first() =~= percent_encode(rest));
        } else {
            lemma_hex_round_trip((b / 16) as nat);
            lemma_hex_round_trip((b % 16) as nat);
            assert(e[0] == '%');
            assert(e.skip(3) =~= percent_encode(rest));
            assert(e[1] == hex_digit((b / 16) as nat));
            assert(e[2] == hex_digit((b % 16) as nat));
        }
        assert(percent_decode(e) =~= seq![b] + rest);
        assert(bytes =~= seq![b] + rest);
    }
}

/// An encoded segment holds only unreserved characters and `%`, so it never
/// holds `/`, `?`, `#` or any other character with a meaning in a URL.
pub proof fn law_percent_encoding_is_url_safe(bytes: Seq<u8>)
    ensures
        forall|i: int| 0 <= i < percent_encode(bytes).len() ==> is_segment_char(
            #[trigger] percent_encode(bytes)[i],
        ),
    decreases bytes.len(),
{
    if bytes.len() > 0 {
        let b = bytes[0];
        let rest = bytes.drop_first();
        law_percent_encoding_is_url_safe(rest);
        lemma_hex_round_trip((b / 16) as nat);
        lemma_hex_round_trip((b % 16) as nat);
        let e = percent_encode(bytes);
        let h = encode_byte(b);
        assert(e == h + percent_encode(rest));
        assert forall|i: int| 0 <= i < e.len() implies is_segment_char(#[trigger] e[i]) by {
            if i < h.len() {
                assert(e[i] == h[i]);
            } else {
                assert(e[i] == percent_encode(rest)[i - h.len()]);
            }
        }
    }
}

/// An ASCII character that a path segment keeps as it is.
pub open spec fn is_unreserved_char(c: char) -> bool {
    c <= '\u{7f}' && is_unreserved(c as u8)
}

proof fn lemma_unreserved_bytes_unchanged(bytes: Seq<u8>)
    requires
        forall|i: int| 0 <= i < bytes.len() ==> is_unreserved(#[trigger] bytes[i]),
    ensures
        percent_encode(bytes) == Seq::new(bytes.len(), |i: int| bytes[i] as char),
    decreases bytes.len(),
{
    if bytes.len() > 0 {
        let rest = bytes.drop_first();
        assert forall|i: int| 0 <= i < rest.len() implies is_unreserved(#[trigger] rest[i]) by {
            assert(rest[i] == bytes[i + 1]);
        }
        lemma_unreserved_bytes_unchanged(rest);
        assert(is_unreserved(bytes[0]));
        assert(percent_encode(bytes) =~= Seq::new(bytes.len(), |i: int| bytes[i] as char));
    } else {
        assert(percent_encode(bytes) =~= Seq::new(bytes.len(), |i: int| bytes[i] as char));
    }
}

proof fn lemma_char_at_least_nul(c: char)
    ensures
        '\0' <= c,
{
}

/// Text made only of unreserved characters (`A-Z a-z 0-9 - . _ ~`) is its own
/// encoding.
pub proof fn law_unreserved_text_is_unchanged(text: Seq<char>)
    requires
        forall|i: int| 0 <= i < text.len() ==> is_unreserved_char(#[trigger] text[i]),
    ensures
        percent_encode(encode_utf8(text)) == text,
{
    assert forall|i: int| 0 <= i < text.len() implies ('\0' <= #[trigger] text[i] && text[i] <= '\u{7f}') by {
        let c: char = text[i];
        lemma_char_at_least_nul(c);
        assert(is_unreserved_char(c));
    }
    assert(is_ascii_chars(text));
    is_ascii_chars_encode_utf8(text);
    let bytes = encode_utf8(text);
    assert forall|i: int| 0 <= i < bytes.len() implies is_unreserved(#[trigger] bytes[i]) by {
        assert(text[i] as u8 == bytes[i]);
        assert(is_unreserved_char(text[i]));
    }
    lemma_unreserved_bytes_unchanged(bytes);
    assert forall|i: int| 0 <= i < text.len() implies (bytes[i] as char) == text[i] by {
        assert(text[i] as u8 == bytes[i]);
        assert(is_unreserved_char(text[i]));
    }
    assert(Seq::new(bytes.len(), |i: int| bytes[i] as char) =~= text);
}

} // verus!
