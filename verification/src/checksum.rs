//! The Internet checksum engine: 16-bit one's-complement summation with
//! end-around carry, folded over big-endian 16-bit words of a byte region,
//! with the final odd byte (if any) padded as the high byte of a word.
use vstd::prelude::*;
use vstd::arithmetic::div_mod::{
    lemma_add_mod_noop, lemma_fundamental_div_mod, lemma_mod_multiples_vanish,
};
use vstd::assert_seqs_equal;
use crate::bytes::be16;

verus! {

/// One's-complement addition: 16-bit addition where a carry out of bit 15
/// is added back into the low bits.
pub open spec fn ones_add(a: u16, b: u16) -> u16 {
    if a + b > 0xFFFF {
        (a + b - 0x10000 + 1) as u16
    } else {
        (a + b) as u16
    }
}

/// Adds `a` and `b` as 16-bit one's-complement values (end-around carry).
pub fn ones_complement_sum(a: u16, b: u16) -> (r: u16)
    ensures
        r == ones_add(a, b),
{
    let sum: u32 = a as u32 + b as u32;
    if sum > 0xFFFF {
        (sum - 0x10000 + 1) as u16
    } else {
        sum as u16
    }
}

/// A byte region read as big-endian 16-bit words; an odd final byte is
/// padded with a zero low byte.
pub open spec fn words_of(b: Seq<u8>) -> Seq<u16> {
    Seq::new(((b.len() + 1) / 2) as nat, |i: int|
        if 2 * i + 1 < b.len() {
            be16(b[2 * i], b[2 * i + 1])
        } else {
            be16(b[2 * i], 0)
        })
}

/// The running one's-complement fold of the first `n` words of `ws`,
/// seeded with `init`.
pub open spec fn fold_words(init: u16, ws: Seq<u16>, n: int) -> u16
    decreases n,
{
    if n <= 0 {
        init
    } else {
        ones_add(fold_words(init, ws, n - 1), ws[n - 1])
    }
}

/// The one's-complement fold of a whole word sequence, seeded with zero.
pub open spec fn checksum_fold(ws: Seq<u16>) -> u16 {
    fold_words(0, ws, ws.len() as int)
}

/// The bitwise complement of a 16-bit value.
pub open spec fn complement16(x: u16) -> u16 {
    (0xFFFF - x) as u16
}

/// The plain integer sum of the first `n` words of `ws`.
pub open spec fn word_sum(ws: Seq<u16>, n: int) -> int
    decreases n,
{
    if n <= 0 {
        0
    } else {
        word_sum(ws, n - 1) + ws[n - 1]
    }
}

/// The one's-complement fold agrees with the plain sum modulo 0xFFFF.
proof fn lemma_fold_mod(init: u16, ws: Seq<u16>, n: int)
    requires
        n <= ws.len(),
    ensures
        fold_words(init, ws, n) % 0xFFFF == (init + word_sum(ws, n)) % 0xFFFF,
    decreases n,
{
    if n > 0 {
        lemma_fold_mod(init, ws, n - 1);
        let f = fold_words(init, ws, n - 1);
        let w = ws[n - 1];
        let target = init + word_sum(ws, n - 1);
        // f % M == target % M; show ones_add(f, w) % M == (target + w) % M.
        lemma_add_mod_noop(f as int, w as int, 0xFFFF);
        lemma_add_mod_noop(target, w as int, 0xFFFF);
        if f + w > 0xFFFF {
            // The end-around carry subtracts 0x10000 and adds 1 back,
            // which is subtracting one multiple of 0xFFFF.
            assert(ones_add(f, w) == f + w - 0xFFFF);
            lemma_mod_multiples_vanish(-1, f + w, 0xFFFF);
        }
    }
}

/// The fold is zero exactly when the seed and every word folded are zero.
proof fn lemma_fold_zero(init: u16, ws: Seq<u16>, n: int)
    requires
        n <= ws.len(),
    ensures
        fold_words(init, ws, n) == 0 <==> (init == 0 && forall|j: int| 0 <= j < n ==> ws[j] == 0),
    decreases n,
{
    if n > 0 {
        lemma_fold_zero(init, ws, n - 1);
    }
}

/// The plain sum reads only the first `n` words.
proof fn lemma_word_sum_agree(a: Seq<u16>, b: Seq<u16>, n: int)
    requires
        n <= a.len(),
        n <= b.len(),
        forall|j: int| 0 <= j < n ==> a[j] == b[j],
    ensures
        word_sum(a, n) == word_sum(b, n),
    decreases n,
{
    if n > 0 {
        lemma_word_sum_agree(a, b, n - 1);
    }
}

/// Updating one word changes the plain sum by the difference.
proof fn lemma_word_sum_update(ws: Seq<u16>, n: int, i: int, v: u16)
    requires
        0 <= i < n <= ws.len(),
    ensures
        word_sum(ws.update(i, v), n) == word_sum(ws, n) - ws[i] + v,
    decreases n,
{
    if i < n - 1 {
        lemma_word_sum_update(ws, n - 1, i, v);
    } else {
        lemma_word_sum_agree(ws.update(i, v), ws, n - 1);
    }
}

/// The checksum round-trip law: take any word sequence whose checksum slot
/// holds zero, and write the complement of its fold into that slot; the
/// fold of the amended sequence is always 0xFFFF, so its complement — the
/// checksum a validator would compute over the emitted region, checksum
/// field included — is zero.
pub proof fn lemma_checksum_update(ws: Seq<u16>, i: int)
    requires
        0 <= i < ws.len(),
        ws[i] == 0,
    ensures
        checksum_fold(ws.update(i, complement16(checksum_fold(ws)))) == 0xFFFF,
{
    let n = ws.len() as int;
    let s = checksum_fold(ws);
    let c = complement16(s);
    let ws2 = ws.update(i, c);
    lemma_word_sum_update(ws, n, i, c);
    lemma_fold_mod(0, ws, n);
    lemma_fold_mod(0, ws2, n);
    let f2 = checksum_fold(ws2);
    assert(word_sum(ws2, n) == word_sum(ws, n) + c);
    lemma_add_mod_noop(word_sum(ws, n), c as int, 0xFFFF);
    lemma_add_mod_noop(s as int, c as int, 0xFFFF);
    assert((s + c) % 0xFFFF == 0);
    assert(f2 % 0xFFFF == 0);
    if f2 < 0xFFFF {
        assert(f2 % 0xFFFF == f2);
        assert(f2 == 0);
        lemma_fold_zero(0, ws2, n);
        assert(ws2[i] == 0);
        assert(c == 0 && s == 0xFFFF);
        assert_seqs_equal!(ws2 == ws);
        assert(f2 == s);
        assert(false);
    }
    assert(f2 == 0xFFFF);
}

/// Replacing the pair of bytes at an even offset replaces exactly one word
/// of the region's word sequence.
pub proof fn lemma_words_of_update_pair(b: Seq<u8>, k: int, hi: u8, lo: u8)
    requires
        0 <= k,
        k % 2 == 0,
        k + 1 < b.len(),
    ensures
        words_of(b.update(k, hi).update(k + 1, lo)) == words_of(b).update(k / 2, be16(hi, lo)),
{
    let b2 = b.update(k, hi).update(k + 1, lo);
    lemma_fundamental_div_mod(k, 2);
    assert(k == 2 * (k / 2));
    assert_seqs_equal!(words_of(b2) == words_of(b).update(k / 2, be16(hi, lo)), j => {
        assert(b2.len() == b.len());
        if j == k / 2 {
            assert(2 * j == k && 2 * j + 1 == k + 1);
            assert(b2[2 * j] == hi && b2[2 * j + 1] == lo);
        } else {
            assert(2 * j != k && 2 * j != k + 1 && 2 * j + 1 != k && 2 * j + 1 != k + 1);
        }
    });
}

/// The fold reads only the seed and the first `n` words.
proof fn lemma_fold_agree(init: u16, a: Seq<u16>, b: Seq<u16>, n: int)
    requires
        n <= a.len(),
        n <= b.len(),
        forall|j: int| 0 <= j < n ==> a[j] == b[j],
    ensures
        fold_words(init, a, n) == fold_words(init, b, n),
    decreases n,
{
    if n > 0 {
        lemma_fold_agree(init, a, b, n - 1);
    }
}

/// Folding a concatenation splits into folding the prefix, then folding
/// the rest seeded with that result.
pub proof fn lemma_fold_append(init: u16, pre: Seq<u16>, ws: Seq<u16>, n: int)
    requires
        0 <= n <= ws.len(),
    ensures
        fold_words(init, pre + ws, pre.len() + n) == fold_words(
            fold_words(init, pre, pre.len() as int),
            ws,
            n,
        ),
    decreases n,
{
    if n == 0 {
        lemma_fold_agree(init, pre + ws, pre, pre.len() as int);
    } else {
        lemma_fold_append(init, pre, ws, n - 1);
        assert((pre + ws)[pre.len() + n - 1] == ws[n - 1]);
    }
}

/// Folds the one's-complement words of `buf[start .. start + len]` onto
/// `init`, padding an odd final byte with a zero low byte.
pub fn checksum_region(buf: &Vec<u8>, start: usize, len: usize, init: u16) -> (r: u16)
    requires
        start + len <= buf@.len(),
    ensures
        r == fold_words(
            init,
            words_of(buf@.subrange(start as int, start as int + len as int)),
            words_of(buf@.subrange(start as int, start as int + len as int)).len() as int,
        ),
{
    let ghost region = buf@.subrange(start as int, start as int + len as int);
    let ghost ws = words_of(region);
    let total: usize = buf.len();
    let nwords: usize = len / 2 + len % 2;
    let mut sum: u16 = init;
    let mut w: usize = 0;
    while w < nwords
        invariant
            start + len <= total,
            total == buf@.len(),
            region == buf@.subrange(start as int, start as int + len as int),
            ws == words_of(region),
            nwords == ws.len(),
            nwords == len / 2 + len % 2,
            w <= nwords,
            sum == fold_words(init, ws, w as int),
        decreases nwords - w,
    {
        proof {
            lemma_fundamental_div_mod(len as int, 2);
        }
        assert(2 * w < len);
        let hi = buf[start + 2 * w];
        let word: u16 = if 2 * w + 1 < len {
            (hi as u16) * 0x100 + (buf[start + 2 * w + 1] as u16)
        } else {
            (hi as u16) * 0x100
        };
        assert(region[2 * (w as int)] == buf@[start as int + 2 * (w as int)]);
        assert(word == ws[w as int]);
        sum = ones_complement_sum(sum, word);
        w = w + 1;
    }
    sum
}

} // verus!
