//! Percent-encoding of search queries for URLs.
use vstd::prelude::*;
use vstd::utf8::{encode_utf8, encode_scalar};
use crate::text::string_from_chars;

verus! {

/// The characters that stand for themselves in an encoded query:
/// `A-Z a-z 0-9 - _ . ~`.
pub open spec fn is_unreserved(c: char) -> bool {
    ||| ('a' <= c && c <= 'z')
    ||| ('A' <= c && c <= 'Z')
    ||| ('0' <= c && c <= '9')
    ||| c == '-'
    ||| c == '_'
    ||| c == '.'
    ||| c == '~'
}

/// The uppercase hexadecimal digit for a value below 16.
pub open spec fn upper_hex_digit(n: u8) -> char {
    if n < 10 {
        ((n + 48) as u8) as char
    } else {
        ((n + 55) as u8) as char
    }
}

/// `%XX` for each byte, two uppercase hexadecimal digits.
pub open spec fn percent_bytes(bytes: Seq<u8>) -> Seq<char>
    decreases bytes.len(),
{
    if bytes.len() == 0 {
        seq![]
    } else {
        seq!['%', upper_hex_digit(bytes[0] >> 4), upper_hex_digit(bytes[0] & 0x0f)]
            + percent_bytes(bytes.drop_first())
    }
}

/// One character encoded: itself when unreserved, otherwise each byte of
/// its UTF-8 encoding as `%XX` (a space is `%20`, `:` is `%3A`, `/` is
/// `%2F`).
pub open spec fn encode_char(c: char) -> Seq<char> {
    if is_unreserved(c) {
        seq![c]
    } else {
        percent_bytes(encode_scalar(c as u32))
    }
}

/// A string encoded character by character.
pub open spec fn spec_urlencoding(s: Seq<char>) -> Seq<char>
    decreases s.len(),
{
    if s.len() == 0 {
        seq![]
    } else {
        encode_char(s[0]) + spec_urlencoding(s.drop_first())
    }
}

/// Encoding distributes over concatenation.
pub proof fn lemma_urlencoding_concat(a: Seq<char>, b: Seq<char>)
    ensures
        spec_urlencoding(a + b) == spec_urlencoding(a) + spec_urlencoding(b),
    decreases a.len(),
{
    if a.len() > 0 {
        lemma_urlencoding_concat(a.drop_first(), b);
        assert((a + b).drop_first() =~= a.drop_first() + b);
        assert(spec_urlencoding(a + b) =~= encode_char(a[0]) + spec_urlencoding(a.drop_first() + b));
    } else {
        assert(a + b =~= b);
    }
}

/// The UTF-8 encoding of one character.
fn utf8_of(c: char) -> (r: Vec<u8>)
    ensures
        r@ == encode_scalar(c as u32),
{
    let u = c as u32;
    let mut r: Vec<u8> = Vec::new();
    if u <= 0x7f {
        r.push((u & 0x7f) as u8);
    } else if u <= 0x7ff {
        r.push(0xc0 | ((u >> 6) & 0x1f) as u8);
        r.push(0x80 | (u & 0x3f) as u8);
    } else if u <= 0xffff {
        r.push(0xe0 | ((u >> 12) & 0x0f) as u8);
        r.push(0x80 | ((u >> 6) & 0x3f) as u8);
        r.push(0x80 | (u & 0x3f) as u8);
    } else {
        r.push(0xf0 | ((u >> 18) & 0x7) as u8);
        r.push(0x80 | ((u >> 12) & 0x3f) as u8);
        r.push(0x80 | ((u >> 6) & 0x3f) as u8);
        r.push(0x80 | (u & 0x3f) as u8);
    }
    assert(r@ =~= encode_scalar(u));
    r
}

/// The uppercase hexadecimal digit of a nibble.
fn upper_hex(n: u8) -> (r: char)
    requires
        n < 16,
    ensures
        r == upper_hex_digit(n),
{
    if n < 10 {
        (n + 48) as char
    } else {
        (n + 55) as char
    }
}

/// Appends `%XX` for each byte.
fn push_percent_bytes(bytes: &Vec<u8>, out: &mut Vec<char>)
    ensures
        final(out)@ == old(out)@ + percent_bytes(bytes@),
{
    let n = bytes.len();
    let ghost start = out@;
    let mut i: usize = 0;
    assert(bytes@.skip(0) =~= bytes@);
    while i < n
        invariant
            n == bytes@.len(),
            i <= n,
            start + percent_bytes(bytes@) == out@ + percent_bytes(bytes@.skip(i as int)),
        decreases n - i,
    {
        let b = bytes[i];
        let hi = b >> 4;
        let lo = b & 0x0f;
        assert(hi < 16 && lo < 16) by (bit_vector)
            requires
                hi == b >> 4,
                lo == b & 0x0f,
        ;
        let ghost before = out@;
        out.push('%');
        out.push(upper_hex(hi));
        out.push(upper_hex(lo));
        let ghost t = bytes@.skip(i as int);
        assert(t.drop_first() =~= bytes@.skip(i + 1));
        assert(t[0] == b);
        assert(out@ =~= before + seq!['%', upper_hex_digit(b >> 4), upper_hex_digit(b & 0x0f)]);
        i = i + 1;
    }
    assert(bytes@.skip(n as int) =~= Seq::<u8>::empty());
    assert(out@ =~= start + percent_bytes(bytes@));
}

/// Percent-encodes a string for a URL query: unreserved characters stay,
/// every other character becomes `%XX` for each byte of its UTF-8 encoding.
pub fn urlencoding(s: &str) -> (r: String)
    ensures
        r@ == spec_urlencoding(s@),
{
    let mut out: Vec<char> = Vec::new();
    let chars = crate::text::chars_of(s);
    let n = chars.len();
    for i in 0..n
        invariant
            n == chars@.len(),
            chars@ == s@,
            out@ == spec_urlencoding(chars@.take(i as int)),
    {
        let c = chars[i];
        let ghost before = out@;
        let ghost done = chars@.take(i as int);
        if ('a' <= c && c <= 'z') || ('A' <= c && c <= 'Z') || ('0' <= c && c <= '9') || c == '-'
            || c == '_' || c == '.' || c == '~' {
            out.push(c);
        } else if c == ' ' {
            out.push('%');
            out.push('2');
            out.push('0');
            assert((32u32 & 0x7fu32) as u8 == 32u8) by (bit_vector);
            assert(encode_scalar(c as u32) =~= seq![32u8]);
            assert(percent_bytes(seq![32u8]) =~= seq!['%', '2', '0']) by {
                assert(percent_bytes(seq![32u8].drop_first()) =~= Seq::<char>::empty());
                assert((32u8 >> 4u8) == 2u8 && (32u8 & 0x0fu8) == 0u8) by (bit_vector);
            }
        } else if c == ':' {
            out.push('%');
            out.push('3');
            out.push('A');
            assert((58u32 & 0x7fu32) as u8 == 58u8) by (bit_vector);
            assert(encode_scalar(c as u32) =~= seq![58u8]);
            assert(percent_bytes(seq![58u8]) =~= seq!['%', '3', 'A']) by {
                assert(percent_bytes(seq![58u8].drop_first()) =~= Seq::<char>::empty());
                assert((58u8 >> 4u8) == 3u8 && (58u8 & 0x0fu8) == 10u8) by (bit_vector);
            }
        } else if c == '/' {
            out.push('%');
            out.push('2');
            out.push('F');
            assert((47u32 & 0x7fu32) as u8 == 47u8) by (bit_vector);
            assert(encode_scalar(c as u32) =~= seq![47u8]);
            assert(percent_bytes(seq![47u8]) =~= seq!['%', '2', 'F']) by {
                assert(percent_bytes(seq![47u8].drop_first()) =~= Seq::<char>::empty());
                assert((47u8 >> 4u8) == 2u8 && (47u8 & 0x0fu8) == 15u8) by (bit_vector);
            }
        } else {
            let bytes = utf8_of(c);
            push_percent_bytes(&bytes, &mut out);
        }
        proof {
            let next = chars@.take(i + 1);
            assert(next =~= done + seq![c]);
            lemma_urlencoding_concat(done, seq![c]);
            assert(spec_urlencoding(seq![c]) =~= encode_char(c)) by {
                assert(seq![c].drop_first() =~= Seq::<char>::empty());
                assert(spec_urlencoding(Seq::<char>::empty()) =~= Seq::<char>::empty());
                assert(encode_char(c) + Seq::<char>::empty() =~= encode_char(c));
            }
            assert(out@ =~= before + encode_char(c));
        }
    }
    assert(chars@.take(n as int) =~= s@);
    string_from_chars(&out)
}

} // verus!

verus! {

/// The value of a hexadecimal digit (either case); 0 for other characters.
pub open spec fn hex_value(c: char) -> u8 {
    if '0' <= c && c <= '9' {
        ((c as u32) - 48) as u8
    } else if 'A' <= c && c <= 'F' {
        ((c as u32) - 55) as u8
    } else if 'a' <= c && c <= 'f' {
        ((c as u32) - 87) as u8
    } else {
        0
    }
}

/// Percent-decoding: each `%XX` is the byte `XX`, any other character the
/// low byte of its code point.
pub open spec fn percent_decode(t: Seq<char>) -> Seq<u8>
    decreases t.len(),
{
    if t.len() == 0 {
        seq![]
    } else if t[0] == '%' && t.len() >= 3 {
        seq![(hex_value(t[1]) * 16 + hex_value(t[2])) as u8] + percent_decode(t.skip(3))
    } else {
        seq![(t[0] as u32) as u8] + percent_decode(t.skip(1))
    }
}

proof fn lemma_hex_digit_value(n: u8)
    requires
        n < 16,
    ensures
        hex_value(upper_hex_digit(n)) == n,
        is_unreserved(upper_hex_digit(n)),
{
}

proof fn lemma_decode_percent_bytes(bytes: Seq<u8>, rest: Seq<char>)
    ensures
        percent_decode(percent_bytes(bytes) + rest) == bytes + percent_decode(rest),
    decreases bytes.len(),
{
    if bytes.len() == 0 {
        assert(percent_bytes(bytes) + rest =~= rest);
        assert(bytes + percent_decode(rest) =~= percent_decode(rest));
    } else {
        let b = bytes[0];
        let hi = b >> 4;
        let lo = b & 0x0f;
        assert(hi < 16 && lo < 16 && (hi * 16 + lo) as u8 == b) by (bit_vector)
            requires
                hi == b >> 4,
                lo == b & 0x0f,
        ;
        lemma_hex_digit_value(hi);
        lemma_hex_digit_value(lo);
        lemma_decode_percent_bytes(bytes.drop_first(), rest);
        let t = percent_bytes(bytes) + rest;
        assert(t[0] == '%');
        assert(t[1] == upper_hex_digit(hi));
        assert(t[2] == upper_hex_digit(lo));
        assert(t.skip(3) =~= percent_bytes(bytes.drop_first()) + rest);
        assert(bytes =~= seq![b] + bytes.drop_first());
    }
}

proof fn lemma_decode_char(c: char, rest: Seq<char>)
    ensures
        percent_decode(encode_char(c) + rest) == encode_scalar(c as u32) + percent_decode(rest),
{
    if is_unreserved(c) {
        let u = c as u32;
        assert(u <= 0x7f);
        assert((u & 0x7f) as u8 == u as u8) by (bit_vector)
            requires
                u <= 0x7f,
        ;
        let t = seq![c] + rest;
        assert(t[0] == c);
        assert(t.skip(1) =~= rest);
        assert(encode_scalar(u) =~= seq![u as u8]);
    } else {
        lemma_decode_percent_bytes(encode_scalar(c as u32), rest);
    }
}

proof fn lemma_decode_urlencoding_rest(s: Seq<char>, rest: Seq<char>)
    ensures
        percent_decode(spec_urlencoding(s) + rest) == encode_utf8(s) + percent_decode(rest),
    decreases s.len(),
{
    if s.len() == 0 {
        assert(spec_urlencoding(s) + rest =~= rest);
        assert(encode_utf8(s) + percent_decode(rest) =~= percent_decode(rest));
    } else {
        lemma_decode_urlencoding_rest(s.drop_first(), rest);
        let tail = spec_urlencoding(s.drop_first()) + rest;
        assert(spec_urlencoding(s) + rest =~= encode_char(s[0]) + tail);
        lemma_decode_char(s[0], tail);
        assert(encode_utf8(s) + percent_decode(rest) =~= encode_scalar(s[0] as u32) + (encode_utf8(
            s.drop_first(),
        ) + percent_decode(rest)));
    }
}

/// Encoding loses nothing: decoding the encoded query gives back the UTF-8
/// bytes of the query, so the server receives exactly what was searched.
pub proof fn lemma_urlencoding_decodes(s: Seq<char>)
    ensures
        percent_decode(spec_urlencoding(s)) == encode_utf8(s),
{
    lemma_decode_urlencoding_rest(s, seq![]);
    assert(spec_urlencoding(s) + Seq::<char>::empty() =~= spec_urlencoding(s));
    assert(encode_utf8(s) + Seq::<u8>::empty() =~= encode_utf8(s));
}

proof fn lemma_percent_bytes_safe(bytes: Seq<u8>)
    ensures
        forall|i: int|
            0 <= i < percent_bytes(bytes).len() ==> is_unreserved(#[trigger] percent_bytes(bytes)[i])
                || percent_bytes(bytes)[i] == '%',
    decreases bytes.len(),
{
    if bytes.len() > 0 {
        let b = bytes[0];
        assert((b >> 4) < 16 && (b & 0x0f) < 16) by (bit_vector);
        lemma_hex_digit_value(b >> 4);
        lemma_hex_digit_value(b & 0x0f);
        lemma_percent_bytes_safe(bytes.drop_first());
        let p = percent_bytes(bytes);
        let q = percent_bytes(bytes.drop_first());
        assert forall|i: int| 0 <= i < p.len() implies is_unreserved(#[trigger] p[i]) || p[i]
            == '%' by {
            if i >= 3 {
                assert(p[i] == q[i - 3]);
            }
        }
    }
}

/// An encoded query holds only unreserved characters and `%`, so it cannot
/// break out of the query parameter it is placed in.
pub proof fn lemma_urlencoding_safe(s: Seq<char>)
    ensures
        forall|i: int|
            0 <= i < spec_urlencoding(s).len() ==> is_unreserved(#[trigger] spec_urlencoding(s)[i])
                || spec_urlencoding(s)[i] == '%',
    decreases s.len(),
{
    if s.len() > 0 {
        lemma_urlencoding_safe(s.drop_first());
        let e = encode_char(s[0]);
        if !is_unreserved(s[0]) {
            lemma_percent_bytes_safe(encode_scalar(s[0] as u32));
        }
        let whole = spec_urlencoding(s);
        let tail = spec_urlencoding(s.drop_first());
        assert forall|i: int| 0 <= i < whole.len() implies is_unreserved(#[trigger] whole[i])
            || whole[i] == '%' by {
            if i < e.len() {
                assert(whole[i] == e[i]);
            } else {
                assert(whole[i] == tail[i - e.len()]);
            }
        }
    }
}

} // verus!
