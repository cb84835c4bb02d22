//! The multiply-mix hasher for maps keyed by page ranges.

use vstd::prelude::*;

verus! {

/// The odd multiplier of the mix.
pub const MULTIPLIER: u64 = 0x9E37_79B9_7F4A_7C15;

/// Builds [`PageHasher`]s.
#[derive(Clone, Copy, Debug, PartialEq, Eq, Structural)]
pub struct PageHashBuilder;

/// The running hash.
#[derive(Clone, Copy, Debug, PartialEq, Eq, Structural)]
pub struct PageHasher(pub u64);

/// The high half folded onto the low one.
pub open spec fn folded(x: u64) -> u64 {
    x ^ (x >> 32)
}

/// The hash `h` after one word: multiplied by the odd constant modulo 2^64, high
/// bits folded down.
pub open spec fn mixed(h: u64, n: u64) -> u64 {
    folded((h ^ n).wrapping_mul(MULTIPLIER))
}

/// The hash `h` after these bytes, each taken as a word.
pub open spec fn mixed_bytes(h: u64, bytes: Seq<u8>) -> u64
    decreases bytes.len(),
{
    if bytes.len() == 0 {
        h
    } else {
        mixed(mixed_bytes(h, bytes.drop_last()), bytes.last() as u64)
    }
}

/// The hash of a page range.
pub open spec fn page_hash(base: u64, len: u64) -> u64 {
    mixed(mixed(0, base), len)
}

impl PageHashBuilder {
    /// A hasher that has taken nothing yet.
    pub fn build_hasher(&self) -> (h: PageHasher)
        ensures
            h.0 == 0,
    {
        PageHasher(0)
    }

    /// The hash of the range `(base, len)`.
    pub fn hash_one(&self, key: (u64, u64)) -> (r: u64)
        ensures
            r == page_hash(key.0, key.1),
    {
        let mut h = self.build_hasher();
        h.write_u64(key.0);
        h.write_u64(key.1);
        h.finish()
    }
}

impl PageHasher {
    /// The hash so far.
    pub fn finish(&self) -> (r: u64)
        ensures
            r == self.0,
    {
        self.0
    }

    /// Takes each byte as a word.
    pub fn write(&mut self, bytes: &[u8])
        ensures
            final(self).0 == mixed_bytes(old(self).0, bytes@),
    {
        let mut i: usize = 0;
        assert(bytes@.take(0) =~= Seq::<u8>::empty());
        while i < bytes.len()
            invariant
                i <= bytes@.len(),
                self.0 == mixed_bytes(old(self).0, bytes@.take(i as int)),
            decreases bytes@.len() - i,
        {
            self.write_u64(bytes[i] as u64);
            assert(bytes@.take(i + 1).drop_last() =~= bytes@.take(i as int));
            i = i + 1;
        }
        assert(bytes@.take(i as int) =~= bytes@);
    }

    /// Takes one word.
    pub fn write_u64(&mut self, n: u64)
        ensures
            final(self).0 == mixed(old(self).0, n),
    {
        let x: u64 = (self.0 ^ n).wrapping_mul(MULTIPLIER);
        self.0 = x ^ (x >> 32);
    }
}

proof fn lemma_folded_injective(x: u64, y: u64)
    requires
        folded(x) == folded(y),
    ensures
        x == y,
{
    assert(x ^ (x >> 32) == y ^ (y >> 32) ==> x == y) by (bit_vector);
}

proof fn lemma_multiplier_injective(a: u64, b: u64)
    requires
        a.wrapping_mul(MULTIPLIER) == b.wrapping_mul(MULTIPLIER),
    ensures
        a == b,
{
    let m: int = 0x1_0000_0000_0000_0000;
    let c: int = 0x9E37_79B9_7F4A_7C15;
    let x: int = a * c;
    let y: int = b * c;
    assert(x % m == y % m);
    let q: int = x / m - y / m;
    assert(x - y == m * q) by {
        vstd::arithmetic::div_mod::lemma_fundamental_div_mod(x, m);
        vstd::arithmetic::div_mod::lemma_fundamental_div_mod(y, m);
    }
    // The inverse of the multiplier modulo 2^64 takes the product back.
    let t: int = q * 17428512612931826493 - (a - b) * 10771413168148108919;
    assert(a - b == m * t) by {
        assert((a - b) * c == m * q);
    }
    assert(t == 0);
}

/// The mix loses nothing: two different words leave two different hashes, and
/// so do two different hashes before the same word.
pub proof fn law_mix_is_injective(h1: u64, n1: u64, h2: u64, n2: u64)
    requires
        mixed(h1, n1) == mixed(h2, n2),
    ensures
        h1 == h2 ==> n1 == n2,
        n1 == n2 ==> h1 == h2,
{
    let x1 = (h1 ^ n1).wrapping_mul(MULTIPLIER);
    let x2 = (h2 ^ n2).wrapping_mul(MULTIPLIER);
    lemma_folded_injective(x1, x2);
    lemma_multiplier_injective(h1 ^ n1, h2 ^ n2);
    assert(h1 ^ n1 == h2 ^ n2 && h1 == h2 ==> n1 == n2) by (bit_vector);
    assert(h1 ^ n1 == h2 ^ n2 && n1 == n2 ==> h1 == h2) by (bit_vector);
}

/// Ranges of one length never collide: different pages hash to different values.
pub proof fn law_pages_do_not_collide(base1: u64, base2: u64, len: u64)
    requires
        base1 != base2,
    ensures
        page_hash(base1, len) != page_hash(base2, len),
{
    if page_hash(base1, len) == page_hash(base2, len) {
        law_mix_is_injective(mixed(0, base1), len, mixed(0, base2), len);
        law_mix_is_injective(0, base1, 0, base2);
    }
}

/// A word is mixed in by multiplying, modulo 2^64, and folding the high half onto the
/// low one, which keeps the high half as it is.
pub proof fn law_word_is_multiplied_and_folded(h: &mut PageHasher, n: u64, u: (), x: u64)
    requires
        call_ensures(PageHasher::write_u64, (h, n), u),
        x == ((h.0 ^ n) as int * 0x9E37_79B9_7F4A_7C15) % 0x1_0000_0000_0000_0000,
    ensures
        final(h).0 == x ^ (x / 0x1_0000_0000),
        final(h).0 / 0x1_0000_0000 == x / 0x1_0000_0000,
{
    assert(x >> 32 == x / 0x1_0000_0000) by (bit_vector);
    assert((x ^ (x >> 32)) / 0x1_0000_0000 == x / 0x1_0000_0000) by (bit_vector);
}

/// A range is hashed as its base and then its length, from a fresh hasher; bytes are
/// taken one by one.
pub proof fn law_range_is_hashed_word_by_word(
    b: &PageHashBuilder,
    fresh: PageHasher,
    key: (u64, u64),
    g: &mut PageHasher,
    h: &mut PageHasher,
    u: (),
    v: (),
    end: &PageHasher,
    out: u64,
    r: u64,
)
    requires
        call_ensures(PageHashBuilder::build_hasher, (b,), fresh),
        *g == fresh,
        call_ensures(PageHasher::write_u64, (g, key.0), u),
        *h == *final(g),
        call_ensures(PageHasher::write_u64, (h, key.1), v),
        *end == *final(h),
        call_ensures(PageHasher::finish, (end,), out),
        call_ensures(PageHashBuilder::hash_one, (b, key), r),
    ensures
        fresh.0 == 0,
        r == out,
{
}

/// Bytes are taken in their order, each as a word.
pub proof fn law_bytes_are_taken_one_by_one(
    g: &mut PageHasher,
    front: &[u8],
    u: (),
    h: &mut PageHasher,
    last: u8,
    v: (),
    k: &mut PageHasher,
    all: &[u8],
    w: (),
)
    requires
        all@ == front@.push(last),
        *k == *g,
        call_ensures(PageHasher::write, (g, front), u),
        *h == *final(g),
        call_ensures(PageHasher::write_u64, (h, last as u64), v),
        call_ensures(PageHasher::write, (k, all), w),
    ensures
        final(k).0 == final(h).0,
        front@.len() == 0 ==> final(g).0 == old(g).0,
{
    assert(all@.drop_last() =~= front@);
}

} // verus!
