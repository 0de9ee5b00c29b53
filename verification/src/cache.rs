//! Content-addressed cache of compiled tools: a tool's WASM file is named
//! after the git blob hash of its source.
use vstd::prelude::*;
use sha1::Digest;
use crate::text::{
    chars_of, string_from_chars, join_path, path_join, decimal_bytes, push_decimal_bytes,
    is_digit_byte, digits_value, lemma_decimal_bytes_value,
};

verus! {

/// What SHA-1 computes of a message (a 20-byte digest).
pub uninterp spec fn sha1_digest(message: Seq<u8>) -> Seq<u8>;

/// `sha1::Sha1::digest`: claims that the result is the SHA-1 digest of the
/// message, as named by `sha1_digest`, and is 20 bytes long (the crate's
/// output size is `U20`).
#[verifier::external_body]
fn sha1_of(message: &[u8]) -> (d: Vec<u8>)
    ensures
        d@ == sha1_digest(message@),
        d@.len() == 20,
{
    sha1::Sha1::digest(message).to_vec()
}

/// The lowercase hexadecimal digit for a value below 16.
pub open spec fn hex_digit(n: u8) -> char {
    if n < 10 {
        ((n + 48) as u8) as char
    } else {
        ((n + 87) as u8) as char
    }
}

/// Lowercase hexadecimal notation: two digits per byte, high nibble first.
pub open spec fn hex_lower(bytes: Seq<u8>) -> Seq<char>
    decreases bytes.len(),
{
    if bytes.len() == 0 {
        seq![]
    } else {
        seq![hex_digit(bytes[0] >> 4), hex_digit(bytes[0] & 0x0f)] + hex_lower(bytes.drop_first())
    }
}

/// `hex::encode`: claims that the result is the lowercase hexadecimal
/// notation of the bytes, two digits per byte, high nibble first (the
/// crate's `HEX_CHARS_LOWER` table read by `byte >> 4` and `byte & 0x0F`).
#[verifier::external_body]
fn hex_encode(bytes: &[u8]) -> (s: String)
    ensures
        s@ == hex_lower(bytes@),
{
    hex::encode(bytes)
}

/// Whether `c` is one of `0-9a-f`.
pub open spec fn is_lower_hex(c: char) -> bool {
    ('0' <= c && c <= '9') || ('a' <= c && c <= 'f')
}

/// The hexadecimal notation has two lowercase digits per byte.
pub proof fn lemma_hex_lower_shape(bytes: Seq<u8>)
    ensures
        hex_lower(bytes).len() == 2 * bytes.len(),
        forall|i: int| 0 <= i < hex_lower(bytes).len() ==> is_lower_hex(#[trigger] hex_lower(bytes)[i]),
    decreases bytes.len(),
{
    if bytes.len() > 0 {
        lemma_hex_lower_shape(bytes.drop_first());
        let b = bytes[0];
        assert((b >> 4) < 16 && (b & 0x0f) < 16) by (bit_vector);
        let h = hex_lower(bytes);
        let t = hex_lower(bytes.drop_first());
        assert forall|i: int| 0 <= i < h.len() implies is_lower_hex(#[trigger] h[i]) by {
            if i >= 2 {
                assert(h[i] == t[i - 2]);
            }
        }
    }
}

/// The header git puts before a blob's content: `"blob <size>\0"`.
pub open spec fn blob_header(size: nat) -> Seq<u8> {
    seq![98u8, 108u8, 111u8, 98u8, 32u8] + decimal_bytes(size) + seq![0u8]
}

/// The blob header is the bytes of `format!("blob {size}\0")`: `blob `,
/// then the size in ordinary decimal notation (ASCII digits, most
/// significant first, no leading zero) that reads back as `size`, then a
/// NUL byte.
pub proof fn lemma_blob_header_spells_size(size: nat)
    ensures
        blob_header(size).len() >= 7,
        blob_header(size).subrange(0, 5) == seq![98u8, 108u8, 111u8, 98u8, 32u8],
        blob_header(size).last() == 0u8,
        forall|i: int|
            5 <= i < blob_header(size).len() - 1 ==> is_digit_byte(#[trigger] blob_header(size)[i]),
        blob_header(size).len() > 7 ==> blob_header(size)[5] != 48u8,
        digits_value(blob_header(size).subrange(5, blob_header(size).len() - 1)) == size,
{
    lemma_decimal_bytes_value(size);
    let h = blob_header(size);
    let d = decimal_bytes(size);
    assert(h.subrange(5, h.len() - 1) =~= d);
    assert(h.subrange(0, 5) =~= seq![98u8, 108u8, 111u8, 98u8, 32u8]);
    assert forall|i: int| 5 <= i < h.len() - 1 implies is_digit_byte(#[trigger] h[i]) by {
        assert(h[i] == d[i - 5]);
    }
    assert(h[5] == d[0]);
}

/// The git blob hash of some content: SHA-1 of header and content, in
/// lowercase hexadecimal.
pub open spec fn spec_git_blob_hash(content: Seq<u8>) -> Seq<char> {
    hex_lower(sha1_digest(blob_header(content.len()) + content))
}

/// Compute git blob hash: SHA1("blob <size>\0<content>").
#[must_use]
pub fn git_blob_hash(content: &[u8]) -> (r: String)
    ensures
        r@ == spec_git_blob_hash(content@),
        r@.len() == 40,
        forall|i: int| 0 <= i < 40 ==> is_lower_hex(#[trigger] r@[i]),
{
    let mut message: Vec<u8> = vec![98u8, 108u8, 111u8, 98u8, 32u8];
    push_decimal_bytes(content.len() as u64, &mut message);
    message.push(0u8);
    let ghost head = message@;
    let n = content.len();
    for i in 0..n
        invariant
            n == content@.len(),
            message@ == head + content@.take(i as int),
    {
        message.push(content[i]);
        assert(content@.take(i + 1) =~= content@.take(i as int).push(content@[i as int]));
    }
    assert(content@.take(n as int) =~= content@);
    assert(message@ =~= blob_header(content@.len()) + content@);
    let digest = sha1_of(&message);
    proof {
        lemma_hex_lower_shape(digest@);
    }
    hex_encode(&digest)
}

/// The cache directory of a project: `<project_root>/.opencode/cache/wasi`.
pub open spec fn spec_cache_dir(project_root: Seq<char>) -> Seq<char> {
    path_join(project_root, ".opencode/cache/wasi"@)
}

/// The cached WASM file for a hash: `<cache_dir>/<hash>.wasm`.
pub open spec fn spec_cache_path(project_root: Seq<char>, hash: Seq<char>) -> Seq<char> {
    path_join(spec_cache_dir(project_root), hash + ".wasm"@)
}

/// Get cache directory (project-local).
#[must_use]
pub fn cache_dir(project_root: &str) -> (r: String)
    ensures
        r@ == spec_cache_dir(project_root@),
{
    let root = chars_of(project_root);
    let rel = chars_of(".opencode/cache/wasi");
    let p = join_path(&root, &rel);
    string_from_chars(&p)
}

/// Get cached WASM path for a given hash.
#[must_use]
pub fn cache_path(project_root: &str, hash: &str) -> (r: String)
    ensures
        r@ == spec_cache_path(project_root@, hash@),
{
    let dir = cache_dir(project_root);
    let dir_chars = chars_of(dir.as_str());
    let mut name = chars_of(hash);
    let ext = chars_of(".wasm");
    crate::text::extend_chars(&mut name, &ext);
    let p = join_path(&dir_chars, &name);
    string_from_chars(&p)
}

/// The cached WASM file of a tool whose source has the given content.
pub open spec fn spec_cached_wasm_path(project_root: Seq<char>, content: Seq<u8>) -> Seq<char> {
    spec_cache_path(project_root, spec_git_blob_hash(content))
}

/// The cache path that a source with this content compiles to.
pub fn cached_wasm_path(project_root: &str, content: &[u8]) -> (r: String)
    ensures
        r@ == spec_cached_wasm_path(project_root@, content@),
{
    let hash = git_blob_hash(content);
    cache_path(project_root, hash.as_str())
}

/// A cached file lies directly inside the cache directory: for a hash that
/// is not an absolute path, the cache path is `<cache_dir>/<hash>.wasm`.
pub proof fn lemma_cache_path_in_cache_dir(project_root: Seq<char>, hash: Seq<char>)
    requires
        hash.len() == 0 || hash[0] != '/',
    ensures
        spec_cache_path(project_root, hash) == spec_cache_dir(project_root) + seq!['/'] + hash
            + ".wasm"@,
{
    reveal_strlit(".opencode/cache/wasi");
    reveal_strlit(".wasm");
    let dir = spec_cache_dir(project_root);
    let rel = ".opencode/cache/wasi"@;
    assert(dir.last() == rel.last());
    assert((hash + ".wasm"@).len() > 0);
    if hash.len() == 0 {
        assert((hash + ".wasm"@)[0] == '.');
    } else {
        assert((hash + ".wasm"@)[0] == hash[0]);
    }
    assert(spec_cache_path(project_root, hash) =~= dir + seq!['/'] + hash + ".wasm"@);
}

/// The hash of any content names a file directly inside the cache
/// directory; equal content always maps to the same file.
pub proof fn lemma_cached_wasm_path_shape(project_root: Seq<char>, content: Seq<u8>)
    ensures
        spec_cached_wasm_path(project_root, content) == spec_cache_dir(project_root) + seq!['/']
            + spec_git_blob_hash(content) + ".wasm"@,
{
    let d = sha1_digest(blob_header(content.len()) + content);
    lemma_hex_lower_shape(d);
    let h = spec_git_blob_hash(content);
    if h.len() > 0 {
        assert(is_lower_hex(h[0]));
    }
    lemma_cache_path_in_cache_dir(project_root, h);
}

/// Distinct bytes have distinct hexadecimal notations.
pub proof fn lemma_hex_lower_injective(a: Seq<u8>, b: Seq<u8>)
    requires
        hex_lower(a) == hex_lower(b),
    ensures
        a == b,
    decreases a.len(),
{
    lemma_hex_lower_shape(a);
    lemma_hex_lower_shape(b);
    if a.len() > 0 {
        let x = a[0];
        let y = b[0];
        let ha = hex_lower(a);
        let hb = hex_lower(b);
        assert(ha[0] == hex_digit(x >> 4) && hb[0] == hex_digit(y >> 4));
        assert(ha[1] == hex_digit(x & 0x0f) && hb[1] == hex_digit(y & 0x0f));
        assert((x >> 4) < 16 && (x & 0x0f) < 16 && (y >> 4) < 16 && (y & 0x0f) < 16)
            by (bit_vector);
        lemma_hex_digit_injective(x >> 4, y >> 4);
        lemma_hex_digit_injective(x & 0x0f, y & 0x0f);
        assert(((x >> 4) == (y >> 4) && (x & 0x0f) == (y & 0x0f)) ==> x == y) by (bit_vector);
        assert(hex_lower(a.drop_first()) =~= ha.subrange(2, ha.len() as int));
        assert(hex_lower(b.drop_first()) =~= hb.subrange(2, hb.len() as int));
        lemma_hex_lower_injective(a.drop_first(), b.drop_first());
        assert(x == y);
        assert(a.len() == b.len());
        assert forall|i: int| 0 <= i < a.len() implies a[i] == b[i] by {
            if i > 0 {
                assert(a[i] == a.drop_first()[i - 1]);
                assert(b[i] == b.drop_first()[i - 1]);
            }
        }
        assert(a =~= b);
    } else {
        assert(hex_lower(b).len() == 0);
        assert(b.len() == 0);
        assert(a =~= b);
    }
}

/// Distinct values below 16 have distinct digits.
proof fn lemma_hex_digit_injective(n: u8, m: u8)
    requires
        n < 16,
        m < 16,
        hex_digit(n) == hex_digit(m),
    ensures
        n == m,
{
    let dn: u8 = if n < 10 { (n + 48) as u8 } else { (n + 87) as u8 };
    let dm: u8 = if m < 10 { (m + 48) as u8 } else { (m + 87) as u8 };
    assert(hex_digit(n) == dn as char);
    assert(hex_digit(m) == dm as char);
    assert((dn as char) as u32 == dn as u32);
    assert((dm as char) as u32 == dm as u32);
}

/// The cache follows the content of a source: equal content maps to the
/// same cache file, and content whose hashed blobs have distinct SHA-1
/// digests (no collision) maps to distinct cache files, so that a changed
/// source is compiled anew.
pub proof fn lemma_cache_follows_content(project_root: Seq<char>, c1: Seq<u8>, c2: Seq<u8>)
    ensures
        c1 == c2 ==> spec_cached_wasm_path(project_root, c1) == spec_cached_wasm_path(
            project_root,
            c2,
        ),
        sha1_digest(blob_header(c1.len()) + c1) != sha1_digest(blob_header(c2.len()) + c2)
            ==> spec_cached_wasm_path(project_root, c1) != spec_cached_wasm_path(project_root, c2),
{
    lemma_cached_wasm_path_shape(project_root, c1);
    lemma_cached_wasm_path_shape(project_root, c2);
    let h1 = spec_git_blob_hash(c1);
    let h2 = spec_git_blob_hash(c2);
    let pre = spec_cache_dir(project_root) + seq!['/'];
    let p1 = pre + h1 + ".wasm"@;
    let p2 = pre + h2 + ".wasm"@;
    if p1 == p2 {
        reveal_strlit(".wasm");
        assert(p1.len() == pre.len() + h1.len() + 5);
        assert(p2.len() == pre.len() + h2.len() + 5);
        assert(h1.len() == h2.len());
        assert(h1 =~= p1.subrange(pre.len() as int, (pre.len() + h1.len()) as int));
        assert(h2 =~= p2.subrange(pre.len() as int, (pre.len() + h2.len()) as int));
        lemma_hex_lower_injective(
            sha1_digest(blob_header(c1.len()) + c1),
            sha1_digest(blob_header(c2.len()) + c2),
        );
    }
}

} // verus!
