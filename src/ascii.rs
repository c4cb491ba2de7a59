//! ASCII scanning, the whole-buffer ASCII predicate, and the byte-level
//! case flips used on ASCII runs.
use vstd::prelude::*;
use vstd::utf8::*;

verus! {

/// Number of bytes tested together by the whole-buffer predicate.
pub const PREDICATE_CHUNK: usize = 32;

/// Number of bytes tested together when scanning for a leading ASCII run.
pub const SCAN_CHUNK: usize = 16;

/// Every byte of `b` in `lo..hi` is below 0x80.
pub open spec fn all_ascii(b: Seq<u8>, lo: int, hi: int) -> bool {
    forall|i: int| lo <= i < hi ==> #[trigger] b[i] < 0x80
}

proof fn lemma_or_high_bit(acc: u8, x: u8)
    ensures
        ((acc | x) & 0x80 == 0) == (acc & 0x80 == 0 && x < 0x80),
        (0u8 & 0x80) == 0,
{
    assert(((acc | x) & 0x80 == 0) == (acc & 0x80 == 0 && x < 0x80)) by (bit_vector);
    assert((0u8 & 0x80) == 0) by (bit_vector);
}

/// Tests the `len` bytes of `b` from `start` at once: the bytes are OR-ed
/// together and the high bit of the result is examined.
fn chunk_is_ascii(b: &[u8], start: usize, len: usize) -> (r: bool)
    requires
        start + len <= b@.len(),
    ensures
        r == all_ascii(b@, start as int, start + len),
{
    let blen = b.len();
    let mut acc: u8 = 0;
    proof {
        lemma_or_high_bit(0, 0);
    }
    for j in 0..len
        invariant
            blen == b@.len(),
            start + len <= b@.len(),
            (acc & 0x80 == 0) == all_ascii(b@, start as int, start + j),
    {
        proof {
            lemma_or_high_bit(acc, b@[start + j]);
        }
        acc = acc | b[start + j];
    }
    acc & 0x80 == 0
}

/// Whether every byte of `b` is below 0x80; true for the empty buffer.
///
/// Buffers of at least one chunk are tested chunk by chunk: the first chunk
/// at offset 0, then chunks aligned to the end of the buffer, so that the
/// first chunk covers the bytes that do not fill a whole chunk.
pub fn is_ascii(b: &[u8]) -> (r: bool)
    ensures
        r == all_ascii(b@, 0, b@.len() as int),
{
    let len = b.len();
    if len < PREDICATE_CHUNK {
        for i in 0..len
            invariant
                len == b@.len(),
                all_ascii(b@, 0, i as int),
        {
            if b[i] >= 0x80 {
                return false;
            }
        }
        return true;
    }
    if !chunk_is_ascii(b, 0, PREDICATE_CHUNK) {
        return false;
    }
    let mut p: usize = len % PREDICATE_CHUNK;
    while p <= len - PREDICATE_CHUNK
        invariant
            len == b@.len(),
            PREDICATE_CHUNK <= len,
            p <= len,
            (len - p) % (PREDICATE_CHUNK as int) == 0,
            all_ascii(b@, 0, PREDICATE_CHUNK as int),
            all_ascii(b@, 0, p as int),
        decreases len - p,
    {
        if !chunk_is_ascii(b, p, PREDICATE_CHUNK) {
            return false;
        }
        p = p + PREDICATE_CHUNK;
    }
    true
}


/// Length of the longest prefix of `b` whose bytes are all below 0x80.
///
/// Whole chunks are tested first; the first chunk that holds a byte of 0x80
/// or more, and the bytes after the last whole chunk, are tested one by one.
pub fn ascii_prefix_len(b: &[u8]) -> (n: usize)
    ensures
        n <= b@.len(),
        all_ascii(b@, 0, n as int),
        n < b@.len() ==> b@[n as int] >= 0x80,
{
    let len = b.len();
    let mut i: usize = 0;
    while len - i >= SCAN_CHUNK && chunk_is_ascii(b, i, SCAN_CHUNK)
        invariant
            len == b@.len(),
            i <= len,
            all_ascii(b@, 0, i as int),
        decreases len - i,
    {
        i = i + SCAN_CHUNK;
    }
    while i < len && b[i] < 0x80
        invariant
            len == b@.len(),
            i <= len,
            all_ascii(b@, 0, i as int),
        decreases len - i,
    {
        i = i + 1;
    }
    i
}

/// `c` with `A`–`Z` replaced by `a`–`z`; every other value is kept.
pub open spec fn ascii_lower(c: char) -> char {
    if 'A' <= c <= 'Z' {
        ((c as u32) + 32) as char
    } else {
        c
    }
}

/// `c` with `a`–`z` replaced by `A`–`Z`; every other value is kept.
pub open spec fn ascii_upper(c: char) -> char {
    if 'a' <= c <= 'z' {
        ((c as u32) - 32) as char
    } else {
        c
    }
}

/// The ASCII case flip towards upper case when `upper`, else towards lower
/// case.
pub open spec fn ascii_flip(c: char, upper: bool) -> char {
    if upper {
        ascii_upper(c)
    } else {
        ascii_lower(c)
    }
}

/// Flips the case of one ASCII byte.
pub fn flip_byte(b: u8, upper: bool) -> (r: u8)
    requires
        b < 0x80,
    ensures
        r < 0x80,
        r as char == ascii_flip(b as char, upper),
{
    if upper {
        if 0x61 <= b && b <= 0x7a {
            b - 32
        } else {
            b
        }
    } else {
        if 0x41 <= b && b <= 0x5a {
            b + 32
        } else {
            b
        }
    }
}

/// Appends the first `n` bytes of `b`, all ASCII, to `out` as scalar values,
/// each with its case flipped.
pub fn push_ascii_run(out: &mut String, b: &[u8], n: usize, upper: bool)
    requires
        n <= b@.len(),
        all_ascii(b@, 0, n as int),
    ensures
        final(out)@ == old(out)@ + Seq::new(n as nat, |i: int| ascii_flip(b@[i] as char, upper)),
{
    let ghost start = out@;
    for i in 0..n
        invariant
            n <= b@.len(),
            all_ascii(b@, 0, n as int),
            out@ == start + Seq::new(i as nat, |j: int| ascii_flip(b@[j] as char, upper)),
    {
        let f = flip_byte(b[i], upper);
        out.push(f as char);
        assert(out@ =~= start + Seq::new((i + 1) as nat, |j: int| ascii_flip(b@[j] as char, upper)));
    }
}

/// A run of bytes below 0x80 at the start of the encoding of `s` encodes as
/// many ASCII scalar values, one per byte, and ends on a scalar-value
/// boundary; the bytes after it encode the rest of `s`.
pub proof fn lemma_ascii_prefix(s: Seq<char>, n: int)
    requires
        0 <= n <= encode_utf8(s).len(),
        all_ascii(encode_utf8(s), 0, n),
    ensures
        n <= s.len(),
        forall|i: int| 0 <= i < n ==> #[trigger] s[i] == (encode_utf8(s)[i] as char),
        encode_utf8(s.subrange(n, s.len() as int)) == encode_utf8(s).subrange(
            n,
            encode_utf8(s).len() as int,
        ),
        is_char_boundary(encode_utf8(s), n),
    decreases n,
{
    broadcast use encode_utf8_valid_utf8;

    let b = encode_utf8(s);
    if n == 0 {
        assert(s.subrange(0, s.len() as int) =~= s);
        assert(b.subrange(0, b.len() as int) =~= b);
    } else {
        assert(s.len() > 0);
        let v = s[0] as u32;
        let t = s.drop_first();
        char_is_scalar(s[0]);
        assert(b == encode_scalar(v) + encode_utf8(t));
        assert(b[0] == encode_scalar(v)[0]);
        assert(forall|x: u8| #[trigger] (0xC0u8 | x) >= 0x80) by (bit_vector);
        assert(forall|x: u8| #[trigger] (0xE0u8 | x) >= 0x80) by (bit_vector);
        assert(forall|x: u8| #[trigger] (0xF0u8 | x) >= 0x80) by (bit_vector);
        assert(has_width_1_encoding(v));
        assert(v <= 0x7f ==> ((v & 0x7f) as u8) as u32 == v) by (bit_vector);
        assert(b[0] as u32 == v);
        assert(b.subrange(1, b.len() as int) =~= encode_utf8(t));
        assert(all_ascii(encode_utf8(t), 0, n - 1)) by {
            assert forall|i: int| 0 <= i < n - 1 implies #[trigger] encode_utf8(t)[i] < 0x80 by {
                assert(encode_utf8(t)[i] == b[i + 1]);
            }
        }
        lemma_ascii_prefix(t, n - 1);
        assert forall|i: int| 0 <= i < n implies #[trigger] s[i] == (b[i] as char) by {
            if i > 0 {
                assert(s[i] == t[i - 1]);
                assert(b[i] == encode_utf8(t)[i - 1]);
            } else {
                char_u32_cast(s[0], v);
            }
        }
        assert(s.subrange(n, s.len() as int) =~= t.subrange(n - 1, t.len() as int));
        assert(b.subrange(n, b.len() as int) =~= encode_utf8(t).subrange(
            n - 1,
            encode_utf8(t).len() as int,
        ));
        assert(pop_first_scalar(b) =~= encode_utf8(t));
    }
}

} // verus!
