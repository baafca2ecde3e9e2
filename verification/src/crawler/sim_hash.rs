//! The integer side of SimHash fingerprints: setting the bits, splitting a
//! fingerprint into the chunks it is indexed by, and comparing two.
use vstd::prelude::*;
use crate::text::chars_of;

verus! {

/// `char::is_ascii_punctuation`.
pub open spec fn is_ascii_punct(c: char) -> bool {
    ('!' <= c && c <= '/') || (':' <= c && c <= '@') || ('[' <= c && c <= '`') || ('{' <= c
        && c <= '~')
}

/// A word of at most three characters, all ASCII punctuation: such words
/// weigh little in a fingerprint.
pub open spec fn punctuation_token(w: Seq<char>) -> bool {
    w.len() <= 3 && forall|i: int| 0 <= i < w.len() ==> is_ascii_punct(#[trigger] w[i])
}

pub fn is_punctuation_token(word: &str) -> (r: bool)
    ensures
        r == punctuation_token(word@),
{
    let chars = chars_of(word);
    if chars.len() > 3 {
        return false;
    }
    let mut i: usize = 0;
    while i < chars.len()
        invariant
            chars@ == word@,
            i <= chars@.len(),
            forall|j: int| 0 <= j < i ==> is_ascii_punct(#[trigger] chars@[j]),
        decreases chars@.len() - i,
    {
        let c = chars[i];
        if !(('!' <= c && c <= '/') || (':' <= c && c <= '@') || ('[' <= c && c <= '`') || ('{' <= c
            && c <= '~')) {
            assert(!is_ascii_punct(chars@[i as int]));
            return false;
        }
        i = i + 1;
    }
    true
}

/// Whether bit `i` of `x` is set.
pub open spec fn bit_set(x: u64, i: u64) -> bool {
    (x >> i) & 1 == 1
}

/// The fingerprint whose bit `i` is set exactly where `positive[i]` holds.
pub fn fingerprint_of_signs(positive: &[bool; 64]) -> (r: u64)
    ensures
        forall|i: u64| i < 64 ==> (#[trigger] bit_set(r, i) <==> positive@[i as int]),
{
    let mut fp: u64 = 0;
    let mut i: u64 = 0;
    assert forall|j: u64| 0 <= j < 64 implies !#[trigger] bit_set(fp, j) by {
        assert(((0u64 >> j) & 1 == 1) == false) by (bit_vector);
    }
    while i < 64
        invariant
            i <= 64,
            forall|j: u64| j < i ==> (#[trigger] bit_set(fp, j) <==> positive@[j as int]),
            forall|j: u64| i <= j < 64 ==> !#[trigger] bit_set(fp, j),
        decreases 64 - i,
    {
        if positive[i as usize] {
            let old_fp = fp;
            fp = fp | (1u64 << i);
            assert forall|j: u64| j < 64 implies #[trigger] bit_set(fp, j) == (bit_set(old_fp, j)
                || j == i) by {
                assert(fp == old_fp | (1u64 << i));
                assert(i < 64 && j < 64 ==> ((((old_fp | (1u64 << i)) >> j) & 1 == 1) == (((old_fp
                    >> j) & 1 == 1) || j == i))) by (bit_vector);
            }
        }
        i = i + 1;
    }
    fp
}

/// The four 16-bit chunks of a fingerprint, lowest first.
pub fn split_fingerprint(fp: u64) -> (r: [u16; 4])
    ensures
        r@[0] == fp & 0xFFFF,
        r@[1] == (fp >> 16) & 0xFFFF,
        r@[2] == (fp >> 32) & 0xFFFF,
        r@[3] == (fp >> 48) & 0xFFFF,
{
    assert((fp & 0xFFFF) < 0x10000) by (bit_vector);
    assert(((fp >> 16) & 0xFFFF) < 0x10000) by (bit_vector);
    assert(((fp >> 32) & 0xFFFF) < 0x10000) by (bit_vector);
    assert(((fp >> 48) & 0xFFFF) < 0x10000) by (bit_vector);
    [
        (fp & 0xFFFF) as u16,
        ((fp >> 16) & 0xFFFF) as u16,
        ((fp >> 32) & 0xFFFF) as u16,
        ((fp >> 48) & 0xFFFF) as u16,
    ]
}

/// The number of set bits among the lowest `n` bits of `x`.
pub open spec fn bits_set(x: u64, n: nat) -> nat
    decreases n,
{
    if n == 0 {
        0
    } else {
        bits_set(x, (n - 1) as nat) + if bit_set(x, (n - 1) as u64) {
            1nat
        } else {
            0nat
        }
    }
}

/// The number of bits in which two fingerprints differ.
pub fn hamming_distance(fp1: u64, fp2: u64) -> (r: u32)
    ensures
        r == bits_set(fp1 ^ fp2, 64),
{
    let x: u64 = fp1 ^ fp2;
    let mut count: u32 = 0;
    let mut i: u64 = 0;
    while i < 64
        invariant
            i <= 64,
            count <= i,
            count == bits_set(x, i as nat),
        decreases 64 - i,
    {
        let b = (x >> i) & 1;
        assert(b == 0 || b == 1) by (bit_vector)
            requires
                b == (x >> i) & 1,
        ;
        if b == 1 {
            count = count + 1;
        }
        i = i + 1;
    }
    count
}

} // verus!
