use vstd::arithmetic::div_mod::lemma_fundamental_div_mod_converse;
use vstd::prelude::*;

verus! {

/// Largest input, in bytes, whose 16-bit word sum always fits the 32-bit
/// accumulator: 65537 words of at most 0xFFFF sum to at most `u32::MAX`.
pub const CHECKSUM_MAX_LEN: usize = 0x20002;

/// Sum of the 16-bit big-endian words of `s` from byte `i` on; a last odd
/// byte is the high byte of a word whose low byte is zero.
pub open spec fn words_from(s: Seq<u8>, i: int) -> nat
    decreases s.len() - i,
{
    if i < 0 || i >= s.len() {
        0
    } else if i + 1 == s.len() {
        (s[i] * 0x100) as nat
    } else {
        (s[i] * 0x100 + s[i + 1] + words_from(s, i + 2)) as nat
    }
}

/// Sum of all 16-bit words of `s`.
pub open spec fn word_sum(s: Seq<u8>) -> nat {
    words_from(s, 0)
}

/// Folds the carries above bit 16 back into the low 16 bits (end-around carry).
pub open spec fn fold_carries(n: nat) -> nat {
    let t = n % 0x10000 + n / 0x10000;
    (t % 0x10000 + t / 0x10000) as nat
}

/// The one's-complement checksum of `s`.
pub open spec fn checksum_of(s: Seq<u8>) -> u16 {
    (0xFFFF - fold_carries(word_sum(s))) as u16
}

proof fn lemma_fold_bound(n: nat)
    requires
        n < 0x1_0000_0000,
    ensures
        fold_carries(n) <= 0xFFFF,
{
    let t = n % 0x10000 + n / 0x10000;
    assert(t <= 0x1FFFE);
}

/// One's-complement checksum of `bytes` (the IP/ICMP checksum).
pub fn ip_checksum(bytes: &[u8]) -> (r: u16)
    requires
        bytes@.len() <= CHECKSUM_MAX_LEN,
    ensures
        r == checksum_of(bytes@),
{
    let n = bytes.len();
    let mut sum: u32 = 0;
    let mut i: usize = 0;
    while i < n
        invariant
            n == bytes@.len(),
            n <= CHECKSUM_MAX_LEN,
            i % 2 == 0,
            i <= n + 1,
            2 * sum <= 0xFFFF * i,
            sum + words_from(bytes@, i as int) == word_sum(bytes@),
        decreases n + 1 - i,
    {
        let word: u32 = if i + 1 < n {
            (bytes[i] as u32) * 0x100 + bytes[i + 1] as u32
        } else {
            (bytes[i] as u32) * 0x100
        };
        sum = sum + word;
        i = i + 2;
    }
    proof {
        lemma_fold_bound(sum as nat);
    }
    assert(sum & 0xFFFF == sum % 0x10000 && sum >> 16 == sum / 0x10000) by (bit_vector);
    let t: u32 = (sum & 0xFFFF) + (sum >> 16);
    assert(t & 0xFFFF == t % 0x10000 && t >> 16 == t / 0x10000) by (bit_vector);
    let t_low: u32 = t & 0xFFFF;
    let t_carry: u32 = t >> 16;
    let folded: u32 = t_low + t_carry;
    (0xFFFF - folded) as u16
}

/// Appends the bytes of `src` to `dst`.
pub fn extend_bytes(dst: &mut Vec<u8>, src: &[u8])
    ensures
        final(dst)@ == old(dst)@ + src@,
{
    let ghost start = dst@;
    let mut i: usize = 0;
    while i < src.len()
        invariant
            i <= src@.len(),
            dst@ == start + src@.subrange(0, i as int),
        decreases src@.len() - i,
    {
        dst.push(src[i]);
        i = i + 1;
        assert(dst@ =~= start + src@.subrange(0, i as int));
    }
    assert(src@.subrange(0, i as int) =~= src@);
}

/// A copy of `src[start..end]`.
pub fn copy_range(src: &[u8], start: usize, end: usize) -> (r: Vec<u8>)
    requires
        start <= end <= src@.len(),
    ensures
        r@ == src@.subrange(start as int, end as int),
{
    let mut r: Vec<u8> = Vec::new();
    let mut i: usize = start;
    while i < end
        invariant
            start <= i <= end,
            end <= src@.len(),
            r@ == src@.subrange(start as int, i as int),
        decreases end - i,
    {
        r.push(src[i]);
        i = i + 1;
        assert(r@ =~= src@.subrange(start as int, i as int));
    }
    r
}

/// `s` with the 16-bit value `v` written big-endian at bytes `p` and `p + 1`.
pub open spec fn put_word(s: Seq<u8>, p: int, v: u16) -> Seq<u8> {
    s.update(p, (v / 0x100) as u8).update(p + 1, (v % 0x100) as u8)
}

proof fn lemma_words_bound(s: Seq<u8>, i: int, k: int)
    requires
        0 <= i <= s.len(),
        0 <= k,
        s.len() - i <= 2 * k,
    ensures
        words_from(s, i) <= 0xFFFF * k,
    decreases s.len() - i,
{
    if i < s.len() && i + 1 < s.len() {
        lemma_words_bound(s, i + 2, k - 1);
    }
}

proof fn lemma_words_put(s: Seq<u8>, i: int, p: int, v: u16)
    requires
        0 <= i,
        i % 2 == 0,
        0 <= p,
        p % 2 == 0,
        p + 1 < s.len(),
        s[p] == 0,
        s[p + 1] == 0,
    ensures
        words_from(put_word(s, p, v), i) == words_from(s, i) + (if i <= p { v as nat } else { 0 }),
    decreases s.len() - i,
{
    if i < s.len() && i + 1 < s.len() {
        lemma_words_put(s, i + 2, p, v);
    }
}

proof fn lemma_fold_complement(w: nat)
    requires
        w <= 0xFFFF_FFFF,
    ensures
        fold_carries((w + (0xFFFF - fold_carries(w))) as nat) == 0xFFFF,
{
    let h = w / 0x10000;
    let l = w % 0x10000;
    assert(h * 0x10000 + l == w);
    assert(h <= 0xFFFF);
    let f = fold_carries(w);
    let w2 = (w + (0xFFFF - f)) as nat;
    if h + l < 0x10000 {
        assert(f == h + l);
        lemma_fundamental_div_mod_converse(w2 as int, 0x10000, h as int, 0xFFFF - h);
    } else if h < 0xFFFF {
        assert(h >= 1);
        assert(f == h + l - 0xFFFF);
        lemma_fundamental_div_mod_converse(w2 as int, 0x10000, h + 1int, 0xFFFE - h);
    } else {
        assert(f == h + l - 0xFFFF);
        assert(w2 == 0xFFFF_FFFF);
        lemma_fundamental_div_mod_converse(w2 as int, 0x10000, 0xFFFF, 0xFFFF);
    }
}

/// Writing the checksum of a buffer into its zeroed checksum field, in
/// big-endian order at an even offset, makes the buffer's checksum zero.
pub proof fn lemma_checksum_self_inverting(s: Seq<u8>, p: int)
    requires
        s.len() <= CHECKSUM_MAX_LEN,
        0 <= p,
        p % 2 == 0,
        p + 1 < s.len(),
        s[p] == 0,
        s[p + 1] == 0,
    ensures
        checksum_of(put_word(s, p, checksum_of(s))) == 0,
{
    let c = checksum_of(s);
    lemma_words_bound(s, 0, 0x10001);
    lemma_fold_bound(word_sum(s));
    lemma_words_put(s, 0, p, c);
    lemma_fold_complement(word_sum(s));
}

} // verus!
