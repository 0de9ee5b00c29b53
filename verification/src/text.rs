//! Character-level text handling: conversion between strings and character
//! vectors, line splitting (as `str::lines`), trimming (as `str::trim`),
//! joining and path joining (as `PathBuf::push` on Unix).
use vstd::prelude::*;

verus! {

/// Appends one character to a string (`String::push`).
#[verifier::external_body]
pub(crate) fn push_char(s: &mut String, c: char)
    ensures
        final(s)@ == old(s)@.push(c),
{
    s.push(c);
}

/// The characters of a string slice, in order.
pub fn chars_of(s: &str) -> (r: Vec<char>)
    ensures
        r@ == s@,
{
    let mut r: Vec<char> = Vec::new();
    for c in it: s.chars()
        invariant
            r@ == it.seq().take(it.index() as int),
    {
        r.push(c);
    }
    r
}

/// A string holding exactly the given characters.
pub fn string_from_chars(v: &[char]) -> (r: String)
    ensures
        r@ == v@,
{
    let mut r = String::new();
    let n = v.len();
    for i in 0..n
        invariant
            n == v@.len(),
            r@ == v@.take(i as int),
    {
        push_char(&mut r, v[i]);
        assert(v@.take(i + 1) =~= v@.take(i as int).push(v@[i as int]));
    }
    assert(v@.take(n as int) =~= v@);
    r
}

/// Appends all characters of `src` to `dst`.
pub fn extend_chars(dst: &mut Vec<char>, src: &[char])
    ensures
        final(dst)@ == old(dst)@ + src@,
{
    let n = src.len();
    for i in 0..n
        invariant
            n == src@.len(),
            dst@ == old(dst)@ + src@.take(i as int),
    {
        dst.push(src[i]);
        assert(src@.take(i + 1) =~= src@.take(i as int).push(src@[i as int]));
    }
    assert(src@.take(n as int) =~= src@);
}

/// Unicode `White_Space`, the property that `char::is_whitespace` tests.
pub open spec fn is_whitespace(c: char) -> bool {
    let u = c as u32;
    ||| 0x09 <= u <= 0x0d
    ||| u == 0x20
    ||| u == 0x85
    ||| u == 0xa0
    ||| u == 0x1680
    ||| 0x2000 <= u <= 0x200a
    ||| u == 0x2028
    ||| u == 0x2029
    ||| u == 0x202f
    ||| u == 0x205f
    ||| u == 0x3000
}

/// Executable `is_whitespace`.
pub fn char_is_whitespace(c: char) -> (r: bool)
    ensures
        r == is_whitespace(c),
{
    let u = c as u32;
    (0x09 <= u && u <= 0x0d) || u == 0x20 || u == 0x85 || u == 0xa0 || u == 0x1680 || (0x2000
        <= u && u <= 0x200a) || u == 0x2028 || u == 0x2029 || u == 0x202f || u == 0x205f || u
        == 0x3000
}

/// `s` without its leading whitespace.
pub open spec fn trim_start(s: Seq<char>) -> Seq<char>
    decreases s.len(),
{
    if s.len() > 0 && is_whitespace(s[0]) {
        trim_start(s.drop_first())
    } else {
        s
    }
}

/// `s` without its trailing whitespace.
pub open spec fn trim_end(s: Seq<char>) -> Seq<char>
    decreases s.len(),
{
    if s.len() > 0 && is_whitespace(s.last()) {
        trim_end(s.drop_last())
    } else {
        s
    }
}

/// `s` without leading and trailing whitespace (`str::trim`).
pub open spec fn trim(s: Seq<char>) -> Seq<char> {
    trim_end(trim_start(s))
}

/// The bounds of the trimmed part of `s`: `s[start..end]` is `trim(s)`.
pub fn trim_bounds(s: &[char]) -> (r: (usize, usize))
    ensures
        r.0 <= r.1 <= s@.len(),
        s@.subrange(r.0 as int, r.1 as int) == trim(s@),
{
    let n = s.len();
    let mut i: usize = 0;
    assert(s@.subrange(0, n as int) =~= s@);
    while i < n && char_is_whitespace(s[i])
        invariant
            n == s@.len(),
            i <= n,
            trim_start(s@) == trim_start(s@.subrange(i as int, n as int)),
        decreases n - i,
    {
        assert(s@.subrange(i as int, n as int).drop_first() =~= s@.subrange(i + 1, n as int));
        i = i + 1;
    }
    let ghost ts = trim_start(s@);
    assert(ts == s@.subrange(i as int, n as int));
    let mut j: usize = n;
    while j > i && char_is_whitespace(s[j - 1])
        invariant
            n == s@.len(),
            i <= j <= n,
            trim_end(ts) == trim_end(s@.subrange(i as int, j as int)),
        decreases j,
    {
        assert(s@.subrange(i as int, j as int).drop_last() =~= s@.subrange(i as int, j - 1));
        j = j - 1;
    }
    (i, j)
}

/// Whether `s` begins with `p`.
pub open spec fn starts_with(s: Seq<char>, p: Seq<char>) -> bool {
    p.len() <= s.len() && s.take(p.len() as int) == p
}

/// Whether `s[start..end]` equals `m`.
pub fn range_equals(s: &[char], start: usize, end: usize, m: &[char]) -> (r: bool)
    requires
        start <= end <= s@.len(),
    ensures
        r == (s@.subrange(start as int, end as int) == m@),
{
    if end - start != m.len() {
        return false;
    }
    let k = m.len();
    for i in 0..k
        invariant
            k == m@.len(),
            end - start == k,
            start <= end <= s@.len(),
            forall|t: int| 0 <= t < i ==> s@[start + t] == m@[t],
    {
        if s[start + i] != m[i] {
            assert(s@.subrange(start as int, end as int)[i as int] != m@[i as int]);
            return false;
        }
    }
    assert(s@.subrange(start as int, end as int) =~= m@);
    true
}

/// Whether `s[start..]` begins with `p`.
pub fn starts_with_at(s: &[char], start: usize, p: &[char]) -> (r: bool)
    requires
        start <= s@.len(),
    ensures
        r == starts_with(s@.subrange(start as int, s@.len() as int), p@),
{
    if s.len() - start < p.len() {
        return false;
    }
    let r = range_equals(s, start, start + p.len(), p);
    assert(s@.subrange(start as int, s@.len() as int).take(p@.len() as int) =~= s@.subrange(
        start as int,
        start + p@.len(),
    ));
    r
}

/// The number of characters before the first line feed of `s` (all of
/// `s` when it has none).
pub open spec fn line_len(s: Seq<char>) -> nat
    decreases s.len(),
{
    if s.len() == 0 || s[0] == '\n' {
        0
    } else {
        1 + line_len(s.drop_first())
    }
}

/// A line without the carriage return that ended it.
pub open spec fn strip_cr(l: Seq<char>) -> Seq<char> {
    if l.len() > 0 && l.last() == '\r' {
        l.drop_last()
    } else {
        l
    }
}

/// The lines of `s` as `str::lines` yields them: split at each `\n`, a
/// `\r` just before the `\n` removed, and no empty line after a final `\n`.
pub open spec fn lines(s: Seq<char>) -> Seq<Seq<char>>
    decreases s.len(),
{
    if s.len() == 0 {
        seq![]
    } else if line_len(s) == s.len() {
        seq![s]
    } else {
        proof {
            lemma_line_len_bound(s);
        }
        seq![strip_cr(s.take(line_len(s) as int))] + lines(s.skip(line_len(s) + 1int))
    }
}

pub proof fn lemma_line_len_bound(s: Seq<char>)
    ensures
        line_len(s) <= s.len(),
        line_len(s) < s.len() ==> s[line_len(s) as int] == '\n',
    decreases s.len(),
{
    if s.len() > 0 && s[0] != '\n' {
        lemma_line_len_bound(s.drop_first());
    }
}

/// The lines joined with `\n` between them (`[&str]::join("\n")`).
pub open spec fn join_lines(ls: Seq<Seq<char>>) -> Seq<char>
    decreases ls.len(),
{
    if ls.len() == 0 {
        seq![]
    } else if ls.len() == 1 {
        ls[0]
    } else {
        join_lines(ls.drop_last()) + seq!['\n'] + ls.last()
    }
}

/// The views of a sequence of character vectors.
pub open spec fn views(v: Seq<Vec<char>>) -> Seq<Seq<char>> {
    v.map_values(|l: Vec<char>| l@)
}

proof fn lemma_line_len(t: Seq<char>, k: int)
    requires
        0 <= k <= t.len(),
        forall|x: int| 0 <= x < k ==> t[x] != '\n',
        k == t.len() || t[k] == '\n',
    ensures
        line_len(t) == k,
    decreases k,
{
    if k > 0 {
        lemma_line_len(t.drop_first(), k - 1);
    }
}

/// No `\n` comes before the end of the first line.
proof fn lemma_line_len_prefix(s: Seq<char>)
    ensures
        forall|x: int| 0 <= x < line_len(s) ==> s[x] != '\n',
    decreases s.len(),
{
    lemma_line_len_bound(s);
    if s.len() > 0 && s[0] != '\n' {
        lemma_line_len_prefix(s.drop_first());
        assert forall|x: int| 0 <= x < line_len(s) implies s[x] != '\n' by {
            if x > 0 {
                assert(s[x] == s.drop_first()[x - 1]);
            }
        }
    }
}

/// Text that ends with `\n` splits into the lines of each part: the lines
/// of `a + b` are those of `a` followed by those of `b`.
pub proof fn lemma_lines_append(a: Seq<char>, b: Seq<char>)
    requires
        a.len() == 0 || a.last() == '\n',
    ensures
        lines(a + b) == lines(a) + lines(b),
    decreases a.len(),
{
    if a.len() == 0 {
        assert(a + b =~= b);
        assert(lines(a) + lines(b) =~= lines(b));
    } else {
        lemma_line_len_bound(a);
        lemma_line_len_prefix(a);
        let k = line_len(a);
        assert(k < a.len());
        let ab = a + b;
        lemma_line_len(ab, k as int);
        assert(ab.take(k as int) =~= a.take(k as int));
        let rest = a.skip(k + 1int);
        assert(ab.skip(k + 1int) =~= rest + b);
        if rest.len() > 0 {
            assert(rest.last() == a.last());
        }
        lemma_lines_append(rest, b);
        assert(lines(ab) =~= seq![strip_cr(a.take(k as int))] + lines(rest + b));
        assert(lines(a) =~= seq![strip_cr(a.take(k as int))] + lines(rest));
        assert(lines(ab) =~= lines(a) + lines(b));
    }
}

/// The lines of `s` (`str::lines`).
pub fn split_lines(s: &[char]) -> (r: Vec<Vec<char>>)
    ensures
        views(r@) == lines(s@),
{
    let n = s.len();
    let mut out: Vec<Vec<char>> = Vec::new();
    let mut cur: Vec<char> = Vec::new();
    let mut ls: usize = 0;
    let mut i: usize = 0;
    assert(s@.skip(0) =~= s@);
    while i < n
        invariant
            n == s@.len(),
            ls <= i <= n,
            cur@ == s@.subrange(ls as int, i as int),
            forall|x: int| ls <= x < i ==> s@[x] != '\n',
            lines(s@) == views(out@) + lines(s@.skip(ls as int)),
        decreases n - i,
    {
        let c = s[i];
        if c == '\n' {
            let ghost t = s@.skip(ls as int);
            proof {
                lemma_line_len(t, i - ls);
                assert(t.take(i - ls) =~= cur@);
                assert(t.skip(i - ls + 1) =~= s@.skip(i + 1));
            }
            let mut line = cur;
            let l = line.len();
            if l > 0 && line[l - 1] == '\r' {
                line.pop();
            }
            proof {
                assert(line@ == strip_cr(t.take(i - ls)));
            }
            let ghost before = out@;
            out.push(line);
            assert(views(out@) =~= views(before) + seq![line@]);
            cur = Vec::new();
            i = i + 1;
            ls = i;
            assert(cur@ =~= s@.subrange(ls as int, i as int));
        } else {
            cur.push(c);
            i = i + 1;
            assert(cur@ =~= s@.subrange(ls as int, i as int));
        }
    }
    let ghost t = s@.skip(ls as int);
    proof {
        lemma_line_len(t, n - ls);
        assert(t =~= cur@);
    }
    if cur.len() > 0 {
        let ghost before = out@;
        out.push(cur);
        assert(views(out@) =~= views(before) + seq![t]);
    } else {
        assert(views(out@) =~= views(out@) + lines(t));
    }
    out
}

/// The lines `ls[from..to]` joined with `\n`.
pub fn join_range(ls: &Vec<Vec<char>>, from: usize, to: usize) -> (r: Vec<char>)
    requires
        from <= to <= ls@.len(),
    ensures
        r@ == join_lines(views(ls@).subrange(from as int, to as int)),
{
    let mut r: Vec<char> = Vec::new();
    let mut i = from;
    assert(views(ls@).subrange(from as int, from as int) =~= Seq::<Seq<char>>::empty());
    while i < to
        invariant
            from <= i <= to <= ls@.len(),
            r@ == join_lines(views(ls@).subrange(from as int, i as int)),
        decreases to - i,
    {
        let ghost prev = views(ls@).subrange(from as int, i as int);
        let ghost next = views(ls@).subrange(from as int, i + 1);
        assert(next.drop_last() =~= prev);
        if i > from {
            r.push('\n');
        } else {
            assert(next =~= seq![ls@[i as int]@]);
        }
        extend_chars(&mut r, ls[i].as_slice());
        i = i + 1;
    }
    r
}

/// `rel` joined onto `base` as `PathBuf::push` does on Unix: an absolute
/// `rel` replaces `base`; otherwise a `/` is put between them unless `base`
/// is empty or already ends with `/`.
pub open spec fn path_join(base: Seq<char>, rel: Seq<char>) -> Seq<char> {
    if rel.len() > 0 && rel[0] == '/' {
        rel
    } else if base.len() == 0 || base.last() == '/' {
        base + rel
    } else {
        base + seq!['/'] + rel
    }
}

/// Executable `path_join`.
pub fn join_path(base: &[char], rel: &[char]) -> (r: Vec<char>)
    ensures
        r@ == path_join(base@, rel@),
{
    let mut r: Vec<char> = Vec::new();
    if rel.len() > 0 && rel[0] == '/' {
        extend_chars(&mut r, rel);
        return r;
    }
    extend_chars(&mut r, base);
    if base.len() > 0 && base[base.len() - 1] != '/' {
        r.push('/');
    }
    extend_chars(&mut r, rel);
    r
}

} // verus!

verus! {

/// The character of a decimal digit.
pub open spec fn digit_char(d: nat) -> char {
    ((d + 48) as u8) as char
}

/// The decimal notation of `n`, without sign or leading zeros.
pub open spec fn decimal(n: nat) -> Seq<char>
    decreases n,
{
    if n < 10 {
        seq![digit_char(n)]
    } else {
        decimal(n / 10) + seq![digit_char(n % 10)]
    }
}

/// The bytes of the decimal notation of `n` (all ASCII).
pub open spec fn decimal_bytes(n: nat) -> Seq<u8>
    decreases n,
{
    if n < 10 {
        seq![(n + 48) as u8]
    } else {
        decimal_bytes(n / 10) + seq![(n % 10 + 48) as u8]
    }
}

/// Whether a byte is an ASCII decimal digit.
pub open spec fn is_digit_byte(b: u8) -> bool {
    48 <= b <= 57
}

/// The number that ASCII digit bytes spell, most significant digit first.
pub open spec fn digits_value(s: Seq<u8>) -> int
    decreases s.len(),
{
    if s.len() == 0 {
        0
    } else {
        digits_value(s.drop_last()) * 10 + (s.last() - 48)
    }
}

/// The number that digit characters spell, most significant digit first.
pub open spec fn digit_chars_value(s: Seq<char>) -> int
    decreases s.len(),
{
    if s.len() == 0 {
        0
    } else {
        digit_chars_value(s.drop_last()) * 10 + (s.last() as int - 48)
    }
}

/// `decimal_bytes(n)` is the ordinary decimal notation of `n`: ASCII
/// digits, most significant first, with no leading zero, that read back
/// as `n`.
pub proof fn lemma_decimal_bytes_value(n: nat)
    ensures
        decimal_bytes(n).len() >= 1,
        n >= 10 ==> decimal_bytes(n).len() > 1,
        forall|i: int| 0 <= i < decimal_bytes(n).len() ==> is_digit_byte(#[trigger] decimal_bytes(n)[i]),
        decimal_bytes(n).len() > 1 ==> decimal_bytes(n)[0] != 48u8,
        digits_value(decimal_bytes(n)) == n,
    decreases n,
{
    let s = decimal_bytes(n);
    if n < 10 {
        assert(s.drop_last() =~= Seq::<u8>::empty());
        assert(s.last() == (n + 48) as u8);
        assert(((n + 48) as u8) as int == n + 48);
        assert(digits_value(s.drop_last()) == 0);
        assert(digits_value(s) == n);
    } else {
        lemma_decimal_bytes_value(n / 10);
        let d = decimal_bytes(n / 10);
        assert(s.drop_last() =~= d);
        assert(s[0] == d[0]);
        assert(n / 10 >= 1);
        if n / 10 < 10 {
            assert(d[0] == ((n / 10) + 48) as u8);
        } else {
            assert(d.len() > 1);
        }
        assert(s[0] != 48u8);
        assert(s.last() == (n % 10 + 48) as u8);
        assert(((n % 10 + 48) as u8) as int == n % 10 + 48);
        assert(digits_value(s) == digits_value(d) * 10 + (n % 10));
        assert forall|i: int| 0 <= i < s.len() implies is_digit_byte(#[trigger] s[i]) by {
            if i < d.len() {
                assert(s[i] == d[i]);
            }
        }
        assert(n == (n / 10) * 10 + n % 10);
        assert(digits_value(s) == n);
    }
}

/// `decimal(n)` is the ordinary decimal notation of `n`: digit characters,
/// most significant first, with no leading zero, that read back as `n`.
pub proof fn lemma_decimal_value(n: nat)
    ensures
        decimal(n).len() >= 1,
        n >= 10 ==> decimal(n).len() > 1,
        forall|i: int| 0 <= i < decimal(n).len() ==> '0' <= #[trigger] decimal(n)[i] <= '9',
        decimal(n).len() > 1 ==> decimal(n)[0] != '0',
        digit_chars_value(decimal(n)) == n,
    decreases n,
{
    let s = decimal(n);
    if n < 10 {
        assert(s.drop_last() =~= Seq::<char>::empty());
        let b: u8 = (n + 48) as u8;
        assert((b as char) as u32 == b as u32);
        assert(s.last() == b as char);
        assert(digit_chars_value(s.drop_last()) == 0);
        assert(digit_chars_value(s) == n);
    } else {
        lemma_decimal_value(n / 10);
        let d = decimal(n / 10);
        assert(s.drop_last() =~= d);
        assert(s[0] == d[0]);
        assert(n / 10 >= 1);
        if n / 10 < 10 {
            let b0: u8 = ((n / 10) + 48) as u8;
            assert(d[0] == b0 as char);
            assert((b0 as char) as u32 == b0 as u32);
        } else {
            assert(d.len() > 1);
        }
        assert(s[0] != '0');
        let b: u8 = (n % 10 + 48) as u8;
        assert((b as char) as u32 == b as u32);
        assert(s.last() == b as char);
        assert(digit_chars_value(s) == digit_chars_value(d) * 10 + (n % 10));
        assert(n == (n / 10) * 10 + n % 10);
        assert(digit_chars_value(s) == n);
        assert forall|i: int| 0 <= i < s.len() implies '0' <= #[trigger] s[i] <= '9' by {
            if i < d.len() {
                assert(s[i] == d[i]);
            }
        }
        assert(n == (n / 10) * 10 + n % 10);
    }
}

/// Appends the decimal notation of `n`.
pub fn push_decimal(n: u64, out: &mut Vec<char>)
    ensures
        final(out)@ == old(out)@ + decimal(n as nat),
    decreases n,
{
    if n >= 10 {
        push_decimal(n / 10, out);
    }
    let d: u8 = (n % 10) as u8;
    out.push((d + 48) as char);
}

/// Appends the bytes of the decimal notation of `n`.
pub fn push_decimal_bytes(n: u64, out: &mut Vec<u8>)
    ensures
        final(out)@ == old(out)@ + decimal_bytes(n as nat),
    decreases n,
{
    if n >= 10 {
        push_decimal_bytes(n / 10, out);
    }
    let d: u8 = (n % 10) as u8;
    out.push(d + 48);
}

} // verus!

verus! {

/// Whether two strings hold the same characters.
pub fn str_equals(a: &str, b: &str) -> (r: bool)
    ensures
        r == (a@ == b@),
{
    let x = chars_of(a);
    let y = chars_of(b);
    let r = range_equals(&x, 0, x.len(), &y);
    assert(x@.subrange(0, x@.len() as int) =~= x@);
    r
}

} // verus!

verus! {

/// An owned copy of a string slice.
pub fn owned(s: &str) -> (r: String)
    ensures
        r@ == s@,
{
    string_from_chars(&chars_of(s))
}

} // verus!
