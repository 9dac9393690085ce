//! Little-endian packing of words into bytes and back, and byte-string
//! search.

use vstd::prelude::*;

verus! {

/// The four little-endian bytes of a `u32`.
pub open spec fn u32_le(w: u32) -> Seq<u8> {
    seq![
        (w % 256) as u8,
        ((w / 256) % 256) as u8,
        ((w / 65536) % 256) as u8,
        (w / 16777216) as u8,
    ]
}

/// The `u32` whose little-endian bytes are `b[0..4]`.
pub open spec fn u32_from_le(b: Seq<u8>) -> u32 {
    (b[0] as int + 256 * b[1] as int + 65536 * b[2] as int + 16777216 * b[3] as int) as u32
}

/// The `u64` whose little-endian bytes are `b[0..8]`.
pub open spec fn u64_from_le(b: Seq<u8>) -> u64 {
    (u32_from_le(b) as int + 4294967296 * u32_from_le(b.subrange(4, 8)) as int) as u64
}

/// Little-endian bytes of every word, in order.
pub open spec fn words_le(ws: Seq<u32>) -> Seq<u8>
    decreases ws.len(),
{
    if ws.len() == 0 {
        Seq::<u8>::empty()
    } else {
        words_le(ws.drop_last()) + u32_le(ws.last())
    }
}

pub proof fn lemma_words_le_len(ws: Seq<u32>)
    ensures
        words_le(ws).len() == 4 * ws.len(),
    decreases ws.len(),
{
    if ws.len() > 0 {
        lemma_words_le_len(ws.drop_last());
    }
}

/// The little-endian bytes of `w`.
pub fn u32_le_bytes(w: u32) -> (r: [u8; 4])
    ensures
        r@ == u32_le(w),
{
    let r = [(w % 256) as u8, ((w / 256) % 256) as u8, ((w / 65536) % 256) as u8, (w / 16777216) as u8];
    assert(r@ =~= u32_le(w));
    r
}

/// Appends the little-endian bytes of `w` to `out`.
pub fn push_u32_le(out: &mut Vec<u8>, w: u32)
    ensures
        final(out)@ == old(out)@ + u32_le(w),
{
    let b = u32_le_bytes(w);
    out.push(b[0]);
    out.push(b[1]);
    out.push(b[2]);
    out.push(b[3]);
    assert(out@ =~= old(out)@ + u32_le(w));
}

/// Little-endian bytes of a word stream (a SPIR-V module's byte image).
pub fn words_to_le_bytes(words: &[u32]) -> (r: Vec<u8>)
    ensures
        r@ == words_le(words@),
        r@.len() == 4 * words@.len(),
{
    let mut out: Vec<u8> = Vec::new();
    let n = words.len();
    let mut i: usize = 0;
    while i < n
        invariant
            n == words@.len(),
            i <= n,
            out@ == words_le(words@.take(i as int)),
        decreases n - i,
    {
        proof {
            assert(words@.take(i + 1).drop_last() =~= words@.take(i as int));
        }
        push_u32_le(&mut out, words[i]);
        i = i + 1;
    }
    assert(words@.take(n as int) =~= words@);
    proof {
        lemma_words_le_len(words@);
    }
    out
}

/// The words of a little-endian byte image, four bytes each; a trailing
/// remainder shorter than four bytes is ignored.
pub fn read_u32_le(b: &[u8]) -> (r: Vec<u32>)
    ensures
        r@.len() == b@.len() / 4,
        forall|i: int|
            0 <= i < r@.len() ==> #[trigger] r@[i] == u32_from_le(b@.subrange(4 * i, 4 * i + 4)),
{
    let mut out: Vec<u32> = Vec::new();
    let n = b.len() / 4;
    assert(4 * n <= b@.len()) by (nonlinear_arith)
        requires
            n == b@.len() / 4,
    ;
    let mut i: usize = 0;
    while i < n
        invariant
            n == b@.len() / 4,
            4 * n <= b@.len(),
            b@.len() == b.len(),
            i <= n,
            out@.len() == i,
            forall|k: int|
                0 <= k < i ==> #[trigger] out@[k] == u32_from_le(b@.subrange(4 * k, 4 * k + 4)),
        decreases n - i,
    {
        let j = 4 * i;
        let w = (b[j] as u32) + 256 * (b[j + 1] as u32) + 65536 * (b[j + 2] as u32) + 16777216 * (
        b[j + 3] as u32);
        proof {
            let s = b@.subrange(4 * i, 4 * i + 4);
            assert(s[0] == b@[j as int] && s[1] == b@[j + 1] && s[2] == b@[j + 2] && s[3] == b@[j
                + 3]);
        }
        out.push(w);
        i = i + 1;
    }
    out
}

/// The `u64` words of a little-endian byte image, eight bytes each; a
/// trailing remainder shorter than eight bytes is ignored.
pub fn read_u64_le(b: &[u8]) -> (r: Vec<u64>)
    ensures
        r@.len() == b@.len() / 8,
        forall|i: int|
            0 <= i < r@.len() ==> #[trigger] r@[i] == u64_from_le(b@.subrange(8 * i, 8 * i + 8)),
{
    let mut out: Vec<u64> = Vec::new();
    let n = b.len() / 8;
    assert(8 * n <= b@.len()) by (nonlinear_arith)
        requires
            n == b@.len() / 8,
    ;
    let mut i: usize = 0;
    while i < n
        invariant
            n == b@.len() / 8,
            8 * n <= b@.len(),
            b@.len() == b.len(),
            i <= n,
            out@.len() == i,
            forall|k: int|
                0 <= k < i ==> #[trigger] out@[k] == u64_from_le(b@.subrange(8 * k, 8 * k + 8)),
        decreases n - i,
    {
        let j = 8 * i;
        let lo = (b[j] as u64) + 256 * (b[j + 1] as u64) + 65536 * (b[j + 2] as u64) + 16777216 * (
        b[j + 3] as u64);
        let hi = (b[j + 4] as u64) + 256 * (b[j + 5] as u64) + 65536 * (b[j + 6] as u64)
            + 16777216 * (b[j + 7] as u64);
        let w = lo + 4294967296 * hi;
        proof {
            let s = b@.subrange(8 * i, 8 * i + 8);
            let t = s.subrange(4, 8);
            assert(s[0] == b@[j as int] && s[1] == b@[j + 1] && s[2] == b@[j + 2] && s[3] == b@[j
                + 3]);
            assert(t[0] == b@[j + 4] && t[1] == b@[j + 5] && t[2] == b@[j + 6] && t[3] == b@[j
                + 7]);
        }
        out.push(w);
        i = i + 1;
    }
    out
}

/// Reading back what was written gives the word again.
pub proof fn law_le_roundtrip(w: u32)
    ensures
        u32_from_le(u32_le(w)) == w,
        u32_le(w).len() == 4,
        u32_le(w)[0] as int == w % 256,
        u32_le(w)[1] as int == (w / 256) % 256,
        u32_le(w)[2] as int == (w / 65536) % 256,
        u32_le(w)[3] as int == w / 16777216,
{
}

/// Little-endian decoding, with its place values.
pub proof fn law_le_decoding(b: Seq<u8>)
    requires
        b.len() >= 8,
    ensures
        u32_from_le(b) as int == b[0] as int + 256 * b[1] as int + 65536 * b[2] as int
            + 16777216 * b[3] as int,
        u64_from_le(b) as int == b[0] as int + 256 * b[1] as int + 65536 * b[2] as int
            + 16777216 * b[3] as int + 4294967296 * (b[4] as int + 256 * b[5] as int + 65536
            * b[6] as int + 16777216 * b[7] as int),
{
    let t = b.subrange(4, 8);
    assert(t[0] == b[4] && t[1] == b[5] && t[2] == b[6] && t[3] == b[7]);
}

proof fn lemma_words_le_chunk(ws: Seq<u32>, i: int)
    requires
        0 <= i < ws.len(),
    ensures
        words_le(ws).subrange(4 * i, 4 * i + 4) == u32_le(ws[i]),
    decreases ws.len(),
{
    lemma_words_le_len(ws.drop_last());
    if i < ws.len() - 1 {
        lemma_words_le_chunk(ws.drop_last(), i);
        assert(words_le(ws).subrange(4 * i, 4 * i + 4) =~= words_le(ws.drop_last()).subrange(
            4 * i,
            4 * i + 4,
        ));
    } else {
        assert(words_le(ws).subrange(4 * i, 4 * i + 4) =~= u32_le(ws.last()));
    }
}

/// Reading the little-endian image of a word stream gives the words back:
/// [`read_u32_le`] undoes [`words_to_le_bytes`].
#[verifier::rlimit(30)]
pub proof fn law_words_roundtrip(ws: Seq<u32>)
    ensures
        words_le(ws).len() / 4 == ws.len(),
        forall|i: int|
            0 <= i < ws.len() ==> u32_from_le(#[trigger] words_le(ws).subrange(4 * i, 4 * i + 4))
                == ws[i],
{
    lemma_words_le_len(ws);
    assert forall|i: int| 0 <= i < ws.len() implies u32_from_le(
        #[trigger] words_le(ws).subrange(4 * i, 4 * i + 4),
    ) == ws[i] by {
        lemma_words_le_chunk(ws, i);
        law_le_roundtrip(ws[i]);
    }
}

// ─────────────────────────── search ───────────────────────────

/// `needle` occurs in `hay` at position `i`.
pub open spec fn occurs_at(hay: Seq<u8>, needle: Seq<u8>, i: int) -> bool {
    0 <= i && i + needle.len() <= hay.len() && hay.subrange(i, i + needle.len()) == needle
}

/// Non-overlapping occurrences of a non-empty `needle` in `hay[i..]`, found
/// left to right (each match resumes the search after itself).
pub open spec fn count_from(hay: Seq<u8>, needle: Seq<u8>, i: int) -> nat
    decreases hay.len() - i,
{
    if i < 0 || i >= hay.len() || needle.len() == 0 {
        0
    } else if occurs_at(hay, needle, i) {
        1 + count_from(hay, needle, i + needle.len())
    } else {
        count_from(hay, needle, i + 1)
    }
}

pub open spec fn contains_bytes(hay: Seq<u8>, needle: Seq<u8>) -> bool {
    exists|i: int| occurs_at(hay, needle, i)
}

/// Whether `needle` occurs in `hay` at `i`.
pub fn occurs_at_exec(hay: &[u8], needle: &[u8], i: usize) -> (r: bool)
    ensures
        r == occurs_at(hay@, needle@, i as int),
{
    if i > hay.len() || needle.len() > hay.len() - i {
        return false;
    }
    let mut k: usize = 0;
    while k < needle.len()
        invariant
            i + needle@.len() <= hay@.len(),
            hay@.len() == hay.len(),
            k <= needle@.len(),
            forall|m: int| 0 <= m < k ==> hay@[i + m] == needle@[m],
        decreases needle@.len() - k,
    {
        if hay[i + k] != needle[k] {
            assert(hay@.subrange(i as int, i + needle@.len())[k as int] != needle@[k as int]);
            return false;
        }
        k = k + 1;
    }
    assert(hay@.subrange(i as int, i + needle@.len()) =~= needle@);
    true
}

/// Number of non-overlapping occurrences of `needle` in `hay`, left to
/// right (what `str::matches(..).count()` gives for a non-empty pattern).
pub fn count_occurrences(hay: &[u8], needle: &[u8]) -> (r: usize)
    requires
        needle@.len() > 0,
    ensures
        r == count_from(hay@, needle@, 0),
{
    let mut count: usize = 0;
    let mut i: usize = 0;
    while i < hay.len()
        invariant
            needle@.len() > 0,
            i <= hay@.len(),
            count + count_from(hay@, needle@, i as int) == count_from(hay@, needle@, 0),
            count <= i,
        decreases hay@.len() - i,
    {
        if occurs_at_exec(hay, needle, i) {
            count = count + 1;
            i = i + needle.len();
        } else {
            i = i + 1;
        }
    }
    count
}

/// Whether `needle` occurs anywhere in `hay`.
pub fn find_bytes(hay: &[u8], needle: &[u8]) -> (r: bool)
    ensures
        r == contains_bytes(hay@, needle@),
{
    if needle.len() == 0 {
        assert(hay@.subrange(0, 0) =~= needle@);
        assert(occurs_at(hay@, needle@, 0));
        return true;
    }
    let mut i: usize = 0;
    while i < hay.len()
        invariant
            i <= hay@.len(),
            needle@.len() > 0,
            forall|m: int| 0 <= m < i ==> !occurs_at(hay@, needle@, m),
        decreases hay@.len() - i,
    {
        if occurs_at_exec(hay, needle, i) {
            return true;
        }
        i = i + 1;
    }
    assert forall|m: int| !occurs_at(hay@, needle@, m) by {
        if 0 <= m && m < i {
        }
    }
    false
}

// ─────────────────────────── lexicographic order ───────────────────────────

/// Lexicographic order of byte strings (a proper prefix comes first); for
/// UTF-8 this is the order of `str` keys.
pub open spec fn bytes_lt(a: Seq<u8>, b: Seq<u8>) -> bool
    decreases a.len(),
{
    if b.len() == 0 {
        false
    } else if a.len() == 0 {
        true
    } else if a[0] != b[0] {
        a[0] < b[0]
    } else {
        bytes_lt(a.drop_first(), b.drop_first())
    }
}

pub proof fn lemma_bytes_lt_irreflexive(a: Seq<u8>)
    ensures
        !bytes_lt(a, a),
    decreases a.len(),
{
    if a.len() > 0 {
        lemma_bytes_lt_irreflexive(a.drop_first());
    }
}

pub proof fn lemma_bytes_lt_transitive(a: Seq<u8>, b: Seq<u8>, c: Seq<u8>)
    requires
        bytes_lt(a, b),
        bytes_lt(b, c),
    ensures
        bytes_lt(a, c),
    decreases a.len(),
{
    if a.len() > 0 && a[0] == b[0] && b[0] == c[0] {
        lemma_bytes_lt_transitive(a.drop_first(), b.drop_first(), c.drop_first());
    }
}

pub proof fn lemma_bytes_lt_total(a: Seq<u8>, b: Seq<u8>)
    requires
        a != b,
    ensures
        bytes_lt(a, b) || bytes_lt(b, a),
    decreases a.len(),
{
    if a.len() > 0 && b.len() > 0 && a[0] == b[0] {
        if a.drop_first() == b.drop_first() {
            assert(a =~= seq![a[0]] + a.drop_first());
            assert(b =~= seq![b[0]] + b.drop_first());
        }
        lemma_bytes_lt_total(a.drop_first(), b.drop_first());
    } else if a.len() == 0 && b.len() == 0 {
        assert(a =~= b);
    }
}

pub proof fn lemma_bytes_lt_asymmetric(a: Seq<u8>, b: Seq<u8>)
    requires
        bytes_lt(a, b),
    ensures
        !bytes_lt(b, a),
{
    if bytes_lt(b, a) {
        lemma_bytes_lt_transitive(a, b, a);
        lemma_bytes_lt_irreflexive(a);
    }
}

/// A common prefix does not change the order.
pub proof fn lemma_bytes_lt_skip(a: Seq<u8>, b: Seq<u8>, i: int)
    requires
        0 <= i <= a.len(),
        i <= b.len(),
        a.take(i) == b.take(i),
    ensures
        bytes_lt(a, b) == bytes_lt(a.skip(i), b.skip(i)),
    decreases i,
{
    if i > 0 {
        assert(a[0] == a.take(i)[0]);
        assert(b[0] == b.take(i)[0]);
        assert(a.drop_first().take(i - 1) =~= a.take(i).drop_first());
        assert(b.drop_first().take(i - 1) =~= b.take(i).drop_first());
        lemma_bytes_lt_skip(a.drop_first(), b.drop_first(), i - 1);
        assert(a.drop_first().skip(i - 1) =~= a.skip(i));
        assert(b.drop_first().skip(i - 1) =~= b.skip(i));
    } else {
        assert(a.skip(0) =~= a);
        assert(b.skip(0) =~= b);
    }
}

/// Where one byte string stands relative to another.
#[derive(Debug, Clone, Copy, PartialEq, Eq, Structural)]
pub enum KeyOrder {
    Before,
    Same,
    After,
}

/// Lexicographic position of `a` relative to `b`.
pub fn order_bytes(a: &[u8], b: &[u8]) -> (r: KeyOrder)
    ensures
        r == KeyOrder::Before <==> bytes_lt(a@, b@),
        r == KeyOrder::Same <==> a@ == b@,
        r == KeyOrder::After <==> bytes_lt(b@, a@),
{
    let mut i: usize = 0;
    while i < a.len() && i < b.len()
        invariant
            i <= a@.len(),
            i <= b@.len(),
            a@.take(i as int) == b@.take(i as int),
        decreases a@.len() - i,
    {
        if a[i] != b[i] {
            proof {
                lemma_bytes_lt_skip(a@, b@, i as int);
                lemma_bytes_lt_skip(b@, a@, i as int);
                assert(a@.skip(i as int)[0] == a@[i as int]);
                assert(b@.skip(i as int)[0] == b@[i as int]);
                assert(a@[i as int] != b@[i as int]);
                assert(a@ != b@);
            }
            if a[i] < b[i] {
                return KeyOrder::Before;
            } else {
                return KeyOrder::After;
            }
        }
        proof {
            assert(a@.take(i + 1) =~= a@.take(i as int).push(a@[i as int]));
            assert(b@.take(i + 1) =~= b@.take(i as int).push(b@[i as int]));
        }
        i = i + 1;
    }
    proof {
        lemma_bytes_lt_skip(a@, b@, i as int);
        lemma_bytes_lt_skip(b@, a@, i as int);
        lemma_bytes_lt_irreflexive(a@);
    }
    if a.len() == b.len() {
        assert(a@ =~= a@.take(i as int));
        assert(b@ =~= b@.take(i as int));
        KeyOrder::Same
    } else if a.len() < b.len() {
        assert(a@.skip(i as int).len() == 0);
        assert(a@ != b@);
        KeyOrder::Before
    } else {
        assert(b@.skip(i as int).len() == 0);
        assert(a@ != b@);
        KeyOrder::After
    }
}

} // verus!
