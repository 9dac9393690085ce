//! SHA-256 digests and their lowercase hexadecimal notation.

use vstd::prelude::*;

use sha2::Digest;

use crate::text::push_char;

verus! {

/// What SHA-256 computes of a byte string (32 bytes).
pub uninterp spec fn sha256_of(data: Seq<u8>) -> Seq<u8>;

/// SHA-256 of `data` (sha2's `Sha256::digest`).
///
/// The contract names the result: it is the SHA-256 digest of exactly the
/// bytes handed in, and it is 32 bytes long (the array type says so). Nothing
/// else about the hash function is stated.
#[verifier::external_body]
pub fn sha256_digest(data: &[u8]) -> (r: [u8; 32])
    ensures
        r@ == sha256_of(data@),
{
    let out: [u8; 32] = sha2::Sha256::digest(data).into();
    out
}

/// Lowercase hexadecimal digit of `n` (`0 <= n < 16`).
pub open spec fn hex_digit(n: int) -> char {
    if n < 10 {
        crate::text::decimal_digit(n)
    } else if n == 10 {
        'a'
    } else if n == 11 {
        'b'
    } else if n == 12 {
        'c'
    } else if n == 13 {
        'd'
    } else if n == 14 {
        'e'
    } else {
        'f'
    }
}

/// Two lowercase hex digits of a byte, high nibble first.
pub open spec fn hex_byte(b: u8) -> Seq<char> {
    seq![hex_digit((b / 16) as int), hex_digit((b % 16) as int)]
}

/// Lowercase hexadecimal notation of a byte string, two digits per byte.
pub open spec fn hex_text(bytes: Seq<u8>) -> Seq<char>
    decreases bytes.len(),
{
    if bytes.len() == 0 {
        Seq::<char>::empty()
    } else {
        hex_text(bytes.drop_last()) + hex_byte(bytes.last())
    }
}

pub proof fn lemma_hex_text_len(bytes: Seq<u8>)
    ensures
        hex_text(bytes).len() == 2 * bytes.len(),
    decreases bytes.len(),
{
    if bytes.len() > 0 {
        lemma_hex_text_len(bytes.drop_last());
    }
}

/// The lowercase hex digit of `n`.
pub fn hex_digit_char(n: u8) -> (c: char)
    requires
        n < 16,
    ensures
        c == hex_digit(n as int),
{
    if n < 10 {
        crate::text::digit_char(n as u64)
    } else if n == 10 {
        'a'
    } else if n == 11 {
        'b'
    } else if n == 12 {
        'c'
    } else if n == 13 {
        'd'
    } else if n == 14 {
        'e'
    } else {
        'f'
    }
}

/// Lowercase hexadecimal notation of `bytes` (a digest prints as 64 digits).
pub fn lower_hex(bytes: &[u8]) -> (r: String)
    ensures
        r@ == hex_text(bytes@),
        r@.len() == 2 * bytes@.len(),
{
    let mut r = String::new();
    let n = bytes.len();
    let mut i: usize = 0;
    while i < n
        invariant
            n == bytes@.len(),
            i <= n,
            r@ == hex_text(bytes@.take(i as int)),
        decreases n - i,
    {
        let b = bytes[i];
        proof {
            assert(bytes@.take(i + 1).drop_last() =~= bytes@.take(i as int));
        }
        push_char(&mut r, hex_digit_char(b / 16));
        push_char(&mut r, hex_digit_char(b % 16));
        assert(r@ =~= hex_text(bytes@.take(i as int)) + hex_byte(b));
        i = i + 1;
    }
    assert(bytes@.take(n as int) =~= bytes@);
    proof {
        lemma_hex_text_len(bytes@);
    }
    r
}


/// Value of a lowercase hexadecimal digit.
pub open spec fn hex_char_value(c: char) -> int {
    if '0' <= c <= '9' {
        c as int - '0' as int
    } else {
        c as int - 'a' as int + 10
    }
}

/// Whether `c` is a lowercase hexadecimal digit.
pub open spec fn is_lower_hex(c: char) -> bool {
    ('0' <= c <= '9') || ('a' <= c <= 'f')
}

proof fn lemma_hex_digit_value(n: int)
    requires
        0 <= n < 16,
    ensures
        is_lower_hex(hex_digit(n)),
        hex_char_value(hex_digit(n)) == n,
{
    assert('1' as int == '0' as int + 1);
    assert('2' as int == '0' as int + 2);
    assert('3' as int == '0' as int + 3);
    assert('4' as int == '0' as int + 4);
    assert('5' as int == '0' as int + 5);
    assert('6' as int == '0' as int + 6);
    assert('7' as int == '0' as int + 7);
    assert('8' as int == '0' as int + 8);
    assert('9' as int == '0' as int + 9);
    assert('b' as int == 'a' as int + 1);
    assert('c' as int == 'a' as int + 2);
    assert('d' as int == 'a' as int + 3);
    assert('e' as int == 'a' as int + 4);
    assert('f' as int == 'a' as int + 5);
    assert('9' < 'a');
}

/// Hex notation reads back: two lowercase hex digits per byte, high nibble
/// first, whose value is the byte.
pub proof fn law_hex_reads_back(bytes: Seq<u8>)
    ensures
        hex_text(bytes).len() == 2 * bytes.len(),
        forall|i: int|
            0 <= i < bytes.len() ==> is_lower_hex(#[trigger] hex_text(bytes)[2 * i]) && is_lower_hex(
                hex_text(bytes)[2 * i + 1],
            ) && 16 * hex_char_value(hex_text(bytes)[2 * i]) + hex_char_value(
                hex_text(bytes)[2 * i + 1],
            ) == bytes[i],
    decreases bytes.len(),
{
    lemma_hex_text_len(bytes);
    if bytes.len() > 0 {
        let p = bytes.drop_last();
        law_hex_reads_back(p);
        lemma_hex_text_len(p);
        let b = bytes.last();
        lemma_hex_digit_value((b / 16) as int);
        lemma_hex_digit_value((b % 16) as int);
        let t = hex_text(bytes);
        assert(t == hex_text(p) + hex_byte(b));
        assert forall|i: int| 0 <= i < bytes.len() implies is_lower_hex(
            #[trigger] hex_text(bytes)[2 * i],
        ) && is_lower_hex(hex_text(bytes)[2 * i + 1]) && 16 * hex_char_value(
            hex_text(bytes)[2 * i],
        ) + hex_char_value(hex_text(bytes)[2 * i + 1]) == bytes[i] by {
            if i < p.len() {
                assert(t[2 * i] == hex_text(p)[2 * i]);
                assert(t[2 * i + 1] == hex_text(p)[2 * i + 1]);
                assert(bytes[i] == p[i]);
            } else {
                assert(t[2 * i] == hex_byte(b)[0]);
                assert(t[2 * i + 1] == hex_byte(b)[1]);
            }
        }
    }
}

} // verus!
