//! Chunk math: the `floor(sqrt n) * ceil(log2 n)` chunk size and its bounds.
use vstd::prelude::*;
use crate::error::Error;
use crate::types::Intent;
use vstd::arithmetic::power2::{pow2, lemma2_to64, lemma_pow2_unfold, lemma_pow2_strictly_increases};

verus! {

/// `r` is the integer square root of `n`, rounded down.
pub open spec fn is_floor_sqrt(n: nat, r: nat) -> bool {
    r * r <= n && n < (r + 1) * (r + 1)
}

/// The integer square root of `n`, rounded down.
pub open spec fn floor_sqrt(n: nat) -> nat
    decreases n,
{
    if n == 0 {
        0
    } else {
        let r = floor_sqrt((n - 1) as nat);
        if (r + 1) * (r + 1) <= n {
            r + 1
        } else {
            r
        }
    }
}

/// The number of bits needed to write `n`: `floor(log2 n) + 1` for `n > 0`.
pub open spec fn bit_length(n: nat) -> nat
    decreases n,
{
    if n == 0 {
        0
    } else {
        1 + bit_length(n / 2)
    }
}

/// The least `k` with `2^k >= n`, that is `ceil(log2 n)` for `n >= 1`.
pub open spec fn ceil_log2(n: nat) -> nat
    decreases n,
{
    if n <= 1 {
        0
    } else {
        1 + ceil_log2(((n + 1) / 2) as nat)
    }
}

/// The chunk size of a batch of `n` items.
pub open spec fn chunk_size_spec(n: nat) -> nat {
    if n <= 1 {
        n
    } else {
        floor_sqrt(n) * ceil_log2(n)
    }
}

proof fn lemma_floor_sqrt_is_sqrt(n: nat)
    ensures
        is_floor_sqrt(n, floor_sqrt(n)),
    decreases n,
{
    if n > 0 {
        lemma_floor_sqrt_is_sqrt((n - 1) as nat);
        let r = floor_sqrt((n - 1) as nat);
        assert((r + 1) * (r + 1) <= n ==> n < (r + 2) * (r + 2)) by (nonlinear_arith)
            requires
                n - 1 < (r + 1) * (r + 1),
        ;
        if (r + 1) * (r + 1) <= n {
            assert(floor_sqrt(n) == r + 1);
            let s = r + 1;
            assert(n < (s + 1) * (s + 1)) by (nonlinear_arith)
                requires
                    s == r + 1,
                    n < (r + 2) * (r + 2),
            ;
            assert(is_floor_sqrt(n, s));
        } else {
            assert(floor_sqrt(n) == r);
            assert(is_floor_sqrt(n, r));
        }
    } else {
        assert(0nat < (0nat + 1) * (0nat + 1)) by (nonlinear_arith);
    }
}

proof fn lemma_sqrt_unique(n: nat, a: nat, b: nat)
    requires
        is_floor_sqrt(n, a),
        is_floor_sqrt(n, b),
    ensures
        a == b,
{
    if a < b {
        assert((a + 1) * (a + 1) <= b * b) by (nonlinear_arith)
            requires
                a + 1 <= b,
        ;
    }
    if b < a {
        assert((b + 1) * (b + 1) <= a * a) by (nonlinear_arith)
            requires
                b + 1 <= a,
        ;
    }
}

/// Any `r` with `r * r <= n` is at most the floor square root.
proof fn lemma_below_sqrt(n: nat, r: nat)
    requires
        r * r <= n,
    ensures
        r <= floor_sqrt(n),
{
    lemma_floor_sqrt_is_sqrt(n);
    let s = floor_sqrt(n);
    if r > s {
        assert((s + 1) * (s + 1) <= r * r) by (nonlinear_arith)
            requires
                s + 1 <= r,
        ;
    }
}

/// Integer square root, rounded down, by bisection.
fn isqrt(n: usize) -> (r: usize)
    ensures
        r == floor_sqrt(n as nat),
{
    // bisection keeps lo * lo <= n < hi * hi
    let m: u64 = n as u64;
    let mut lo: u64 = 0;
    let mut hi: u64 = 0x1_0000_0000;
    assert(m < hi * hi) by {
        assert(m <= u64::MAX);
    }
    while hi - lo > 1
        invariant
            lo < hi,
            hi <= 0x1_0000_0000,
            lo * lo <= m,
            m < hi * hi,
        decreases hi - lo,
    {
        let mid = lo + (hi - lo) / 2;
        assert(mid * mid <= 0x1_0000_0000 * 0x1_0000_0000) by (nonlinear_arith)
            requires
                mid < 0x1_0000_0000,
        ;
        let sq: u128 = (mid as u128) * (mid as u128);
        if sq <= m as u128 {
            lo = mid;
        } else {
            hi = mid;
        }
    }
    proof {
        assert(hi == lo + 1);
        lemma_floor_sqrt_is_sqrt(n as nat);
        lemma_sqrt_unique(n as nat, lo as nat, floor_sqrt(n as nat));
        assert(lo <= n) by (nonlinear_arith)
            requires
                lo * lo <= n,
        ;
    }
    lo as usize
}

/// Number of bits needed to write `n` (zero for zero).
fn ilog2(n: usize) -> (r: usize)
    ensures
        r == bit_length(n as nat),
{
    proof {
        lemma_bit_length_usize(n);
    }
    let mut m = n;
    let mut bits: usize = 0;
    while m > 0
        invariant
            bits + bit_length(m as nat) == bit_length(n as nat),
            bit_length(n as nat) <= 64,
        decreases m,
    {
        m = m / 2;
        bits = bits + 1;
    }
    bits
}

proof fn lemma_bit_length_bound(n: nat, k: nat)
    requires
        n < pow2(k),
    ensures
        bit_length(n) <= k,
    decreases k,
{
    if n > 0 {
        if k == 0 {
            lemma2_to64();
        } else {
            lemma_pow2_unfold(k);
            lemma_bit_length_bound(n / 2, (k - 1) as nat);
        }
    }
}

proof fn lemma_bit_length_usize(n: usize)
    ensures
        bit_length(n as nat) <= 64,
{
    lemma2_to64();
    lemma_pow2_strictly_increases(32, 64);
    lemma_bit_length_bound(n as nat, 64);
}

/// For `n >= 1`, `ceil(log2 n)` is the bit length of `n - 1`.
proof fn lemma_ceil_log2_bit_length(n: nat)
    requires
        n >= 1,
    ensures
        ceil_log2(n) == bit_length((n - 1) as nat),
    decreases n,
{
    if n >= 2 {
        let m = ((n + 1) / 2) as nat;
        lemma_ceil_log2_bit_length(m);
        assert((m - 1) as nat == ((n - 1) as nat) / 2);
    }
}

/// `2^(k-1) < n <= 2^k` where `k = ceil(log2 n)`.
proof fn lemma_ceil_log2_bounds(n: nat)
    requires
        n >= 1,
    ensures
        n <= pow2(ceil_log2(n)),
        n >= 2 ==> ceil_log2(n) >= 1 && pow2((ceil_log2(n) - 1) as nat) < n,
    decreases n,
{
    lemma2_to64();
    if n >= 2 {
        let m = ((n + 1) / 2) as nat;
        assert(n <= 2 * m && 2 * m <= n + 1);
        lemma_ceil_log2_bounds(m);
        let km = ceil_log2(m);
        assert(ceil_log2(n) == 1 + km);
        lemma_pow2_unfold(km + 1);
        if m >= 2 {
            lemma_pow2_unfold(km);
        } else {
            assert(km == 0);
        }
    }
}

proof fn lemma_square_below_pow2(k: nat)
    requires
        k >= 7,
    ensures
        k * k <= pow2((k - 1) as nat),
    decreases k,
{
    if k == 7 {
        lemma2_to64();
    } else {
        lemma_square_below_pow2((k - 1) as nat);
        lemma_pow2_unfold((k - 1) as nat);
        assert(k * k <= 2 * ((k - 1) * (k - 1))) by (nonlinear_arith)
            requires
                k >= 8,
        ;
    }
}

proof fn lemma_quarter_below_pow2(k: nat)
    requires
        k >= 9,
    ensures
        (4 * k + 3) * (4 * k + 3) <= 9 * pow2((k - 1) as nat),
    decreases k,
{
    if k == 9 {
        lemma2_to64();
        assert(pow2(8) == 256);
        assert((4 * k + 3) * (4 * k + 3) == 1521) by (nonlinear_arith)
            requires
                k == 9,
        ;
    } else {
        lemma_quarter_below_pow2((k - 1) as nat);
        lemma_pow2_unfold((k - 1) as nat);
        let p = pow2((k - 2) as nat);
        assert((4 * (k - 1) + 3) * (4 * (k - 1) + 3) <= 9 * p);
        assert((4 * k + 3) * (4 * k + 3) <= 2 * ((4 * k - 1) * (4 * k - 1))) by (nonlinear_arith)
            requires
                k >= 10,
        ;
        assert((4 * k - 1) * (4 * k - 1) == (4 * (k - 1) + 3) * (4 * (k - 1) + 3));
        assert((4 * k + 3) * (4 * k + 3) <= 9 * (2 * p)) by (nonlinear_arith)
            requires
                (4 * k + 3) * (4 * k + 3) <= 2 * ((4 * k - 1) * (4 * k - 1)),
                (4 * k - 1) * (4 * k - 1) <= 9 * p,
        ;
    }
}

/// Beyond 64 items, `ceil(log2 n) <= floor(sqrt n)`.
proof fn lemma_log_below_sqrt(n: nat)
    requires
        n > 64,
    ensures
        ceil_log2(n) <= floor_sqrt(n),
{
    lemma_ceil_log2_bounds(n);
    let k = ceil_log2(n);
    lemma2_to64();
    if k < 7 {
        lemma_pow2_le(k, 6);
    }
    lemma_square_below_pow2(k);
    lemma_below_sqrt(n, k);
}

/// The chunk size fits in the machine word of its argument.
proof fn lemma_chunk_size_fits(n: nat)
    requires
        n >= 2,
    ensures
        floor_sqrt(n) * ceil_log2(n) <= if n > 64 { n } else { 48 },
{
    let r = floor_sqrt(n);
    let k = ceil_log2(n);
    lemma_floor_sqrt_is_sqrt(n);
    if n > 64 {
        lemma_log_below_sqrt(n);
        assert(r * k <= r * r) by (nonlinear_arith)
            requires
                k <= r,
        ;
    } else {
        lemma_ceil_log2_bounds(n);
        lemma2_to64();
        if k > 6 {
            lemma_pow2_le(6, (k - 1) as nat);
        }
        assert(r <= 8) by (nonlinear_arith)
            requires
                r * r <= n,
                n <= 64,
        ;
        assert(r * k <= 48) by (nonlinear_arith)
            requires
                r <= 8,
                k <= 6,
        ;
    }
}

proof fn lemma_pow2_le(a: nat, b: nat)
    requires
        a <= b,
    ensures
        pow2(a) <= pow2(b),
{
    if a < b {
        lemma_pow2_strictly_increases(a, b);
    }
}

/// Chunk size `floor(sqrt n) * ceil(log2 n)` for `n > 1`; `n` itself for `n <= 1`.
pub fn williams_chunk_size(n: usize) -> (c: usize)
    ensures
        c == chunk_size_spec(n as nat),
{
    if n <= 1 {
        return n;
    }
    let sqrt_n = isqrt(n);
    let log_n = ilog2(n - 1);
    proof {
        lemma_ceil_log2_bit_length(n as nat);
        lemma_chunk_size_fits(n as nat);
    }
    sqrt_n * log_n
}

/// A chunk never holds more than the whole batch, except at the seven sizes
/// 5, 9, 10, 11, 17, 18 and 19, where `floor(sqrt n) * ceil(log2 n)` exceeds `n`.
/// From 100 items on, a chunk is strictly smaller and saves at least a quarter:
/// `4 * chunk <= 3 * n`.
pub proof fn lemma_chunk_size_bounds(n: nat)
    requires
        n != 5 && n != 9 && n != 10 && n != 11 && n != 17 && n != 18 && n != 19,
    ensures
        chunk_size_spec(n) <= n,
        n >= 100 ==> 4 * chunk_size_spec(n) <= 3 * n && chunk_size_spec(n) < n,
{
    if n >= 2 {
        let r = floor_sqrt(n);
        let k = ceil_log2(n);
        lemma_floor_sqrt_is_sqrt(n);
        lemma_ceil_log2_bounds(n);
        lemma2_to64();
        if n > 64 {
            lemma_log_below_sqrt(n);
            assert(r * k <= r * r) by (nonlinear_arith)
                requires
                    k <= r,
            ;
        } else {
            if k > 6 {
                lemma_pow2_le(6, (k - 1) as nat);
            }
            if k >= 2 {
                lemma_pow2_le(1, (k - 1) as nat);
            }
            lemma_small_chunk(n, r, k, pow2((k - 1) as nat), pow2(k));
        }
        if n >= 100 {
            assert(r >= 10) by {
                lemma_below_sqrt(n, 10);
            }
            if k == 7 {
                assert(4 * (r * k) <= 3 * n) by (nonlinear_arith)
                    requires
                        k == 7,
                        r >= 10,
                        r * r <= n,
                ;
            } else if k == 8 {
                assert(r >= 11) by {
                    lemma_below_sqrt(n, 11);
                }
                assert(4 * (r * k) <= 3 * n) by (nonlinear_arith)
                    requires
                        k == 8,
                        r >= 11,
                        r * r <= n,
                ;
            } else {
                if k < 7 {
                    lemma_pow2_le(k, 6);
                }
                lemma_quarter_below_pow2(k);
                assert(4 * (r * k) <= 3 * n) by (nonlinear_arith)
                    requires
                        (4 * k + 3) * (4 * k + 3) <= 9 * (n - 1),
                        n < (r + 1) * (r + 1),
                        r * r <= n,
                ;
            }
        }
    }
}

proof fn lemma_small_chunk(n: nat, r: nat, k: nat, lo: nat, hi: nat)
    requires
        2 <= n <= 64,
        1 <= k <= 6,
        lo < n <= hi,
        k == 1 ==> lo == 1 && hi == 2,
        k == 2 ==> lo == 2 && hi == 4,
        k == 3 ==> lo == 4 && hi == 8,
        k == 4 ==> lo == 8 && hi == 16,
        k == 5 ==> lo == 16 && hi == 32,
        k == 6 ==> lo == 32 && hi == 64,
        r * r <= n < (r + 1) * (r + 1),
        n != 5 && n != 9 && n != 10 && n != 11 && n != 17 && n != 18 && n != 19,
    ensures
        r * k <= n,
{
    assert(r <= 8) by (nonlinear_arith)
        requires
            r * r <= n,
            n <= 64,
    ;
    if r >= k {
        assert(r * k <= r * r) by (nonlinear_arith)
            requires
                k <= r,
        ;
    } else {
        assert(r * k <= n) by (nonlinear_arith)
            requires
                r < k,
                1 <= k <= 6,
                lo < n <= hi,
                k == 1 ==> lo == 1 && hi == 2,
                k == 2 ==> lo == 2 && hi == 4,
                k == 3 ==> lo == 4 && hi == 8,
                k == 4 ==> lo == 8 && hi == 16,
                k == 5 ==> lo == 16 && hi == 32,
                k == 6 ==> lo == 32 && hi == 64,
                r * r <= n < (r + 1) * (r + 1),
                n != 5 && n != 9 && n != 10 && n != 11 && n != 17 && n != 18 && n != 19,
        ;
    }
}

/// `t` is one round of pairwise combination of `s` under `f`: each adjacent
/// pair `(s[2i], s[2i+1])` is combined into `t[i]`, and an odd last item is
/// carried over unchanged.
pub open spec fn combined_level<T, F: Fn(T, T) -> T>(f: F, s: Seq<T>, t: Seq<T>) -> bool {
    &&& t.len() == (s.len() + 1) / 2
    &&& forall|i: int| 0 <= i < s.len() / 2 ==> f.ensures((s[2 * i], s[2 * i + 1]), #[trigger] t[i])
    &&& s.len() % 2 == 1 ==> t[t.len() - 1] == s[s.len() - 1]
}

/// `r` is a result of combining `s` round by round, pairwise, until one item is left.
pub open spec fn tree_combines_to<T, F: Fn(T, T) -> T>(f: F, s: Seq<T>, r: T) -> bool
    decreases s.len(),
{
    if s.len() == 0 {
        false
    } else if s.len() == 1 {
        s[0] == r
    } else {
        exists|t: Seq<T>| #[trigger] combined_level(f, s, t) && t.len() < s.len() && tree_combines_to(f, t, r)
    }
}

/// Combines items as a balanced tree: round by round, adjacent pairs are
/// combined with `combine_fn` (an odd last item waits for the next round) until
/// one item is left. `None` for no items.
pub fn tree_combine<T, F: Fn(T, T) -> T>(items: Vec<T>, combine_fn: F) -> (r: Option<T>)
    requires
        forall|a: T, b: T| combine_fn.requires((a, b)),
    ensures
        r.is_none() == (items@.len() == 0),
        r matches Some(v) ==> tree_combines_to(combine_fn, items@, v),
{
    if items.len() == 0 {
        return None;
    }
    let mut level = items;
    while level.len() > 1
        invariant
            level@.len() >= 1,
            forall|a: T, b: T| combine_fn.requires((a, b)),
            forall|v: T| tree_combines_to(combine_fn, level@, v) ==> tree_combines_to(combine_fn, items@, v),
        decreases level@.len(),
    {
        let ghost s = level@;
        let n = level.len();
        // reverse, so that popping yields the items front to back
        let mut rev: Vec<T> = Vec::new();
        while level.len() > 0
            invariant
                level@ == s.take(level@.len() as int),
                level@.len() + rev@.len() == s.len(),
                forall|k: int| 0 <= k < rev@.len() ==> #[trigger] rev@[k] == s[s.len() - 1 - k],
            decreases level@.len(),
        {
            let x = level.pop().unwrap();
            rev.push(x);
        }
        let mut next: Vec<T> = Vec::new();
        while rev.len() > 0
            invariant
                n == s.len(),
                forall|a: T, b: T| combine_fn.requires((a, b)),
                forall|k: int| 0 <= k < rev@.len() ==> #[trigger] rev@[k] == s[s.len() - 1 - k],
                rev@.len() <= s.len(),
                (s.len() - rev@.len()) % 2 == 0 || rev@.len() == 0,
                next@.len() == (s.len() - rev@.len() + 1) / 2,
                forall|i: int|
                    0 <= i < next@.len() && 2 * i + 1 < s.len() - rev@.len() ==> combine_fn.ensures(
                        (s[2 * i], s[2 * i + 1]),
                        #[trigger] next@[i],
                    ),
                rev@.len() == 0 && s.len() % 2 == 1 ==> next@[next@.len() - 1] == s[s.len() - 1],
            decreases rev@.len(),
        {
            let a = rev.pop().unwrap();
            if rev.len() > 0 {
                let b = rev.pop().unwrap();
                let c = combine_fn(a, b);
                next.push(c);
            } else {
                next.push(a);
            }
        }
        proof {
            assert(combined_level(combine_fn, s, next@));
            assert forall|v: T| tree_combines_to(combine_fn, next@, v) implies tree_combines_to(
                combine_fn,
                items@,
                v,
            ) by {
                assert(combined_level(combine_fn, s, next@) && next@.len() < s.len());
            }
        }
        level = next;
    }
    let v = level.pop().unwrap();
    Some(v)
}

/// Chunk `i` of `s` when cut into pieces of `c` items (the last may be shorter).
pub open spec fn chunk_of<T>(s: Seq<T>, c: nat, i: int) -> Seq<T> {
    let end = if (i + 1) * c <= s.len() { (i + 1) * c } else { s.len() as int };
    s.subrange(i * c, end)
}

/// Number of pieces of `c` items needed for `n` items.
pub open spec fn chunk_count(n: nat, c: nat) -> nat {
    if c == 0 {
        0
    } else {
        ((n + c - 1) / c as int) as nat
    }
}

/// `process_fn` gave `res` on a slice holding exactly the intents `chunk`.
pub open spec fn gives_on_chunk<R, F: Fn(&[Intent]) -> Result<R, Error>>(
    process_fn: F,
    chunk: Seq<Intent>,
    res: Result<R, Error>,
) -> bool {
    exists|s: &[Intent]| s@ == chunk && #[trigger] process_fn.ensures((s,), res)
}

/// Applies `process_fn` to the intents in chunks of `williams_chunk_size(n)`,
/// front to back, and collects the results; stops at the first error and
/// returns it. No intents give no results.
pub fn process_in_chunks<R, F: Fn(&[Intent]) -> Result<R, Error>>(intents: &[Intent], process_fn: F) -> (r: Result<Vec<R>, Error>)
    requires
        forall|s: &[Intent]| process_fn.requires((s,)),
    ensures
        r matches Ok(v) ==> {
            let c = chunk_size_spec(intents@.len());
            &&& v@.len() == chunk_count(intents@.len(), c)
            &&& forall|i: int|
                0 <= i < v@.len() ==> #[trigger] gives_on_chunk(process_fn, chunk_of(intents@, c, i), Ok::<R, Error>(v@[i]))
        },
        r matches Err(e) ==> exists|k: int|
            0 <= k < chunk_count(intents@.len(), chunk_size_spec(intents@.len()))
                && #[trigger] gives_on_chunk(process_fn, chunk_of(intents@, chunk_size_spec(intents@.len()), k), Err::<R, Error>(e)),
{
    let n = intents.len();
    let chunk_size = williams_chunk_size(n);
    let mut results: Vec<R> = Vec::new();
    if n == 0 {
        return Ok(results);
    }
    proof {
        if n >= 2 {
            lemma_floor_sqrt_is_sqrt(n as nat);
            lemma_below_sqrt(n as nat, 1);
            lemma_ceil_log2_bounds(n as nat);
            assert(floor_sqrt(n as nat) * ceil_log2(n as nat) >= 1) by (nonlinear_arith)
                requires
                    floor_sqrt(n as nat) >= 1,
                    ceil_log2(n as nat) >= 1,
            ;
        }
    }
    let ghost c = chunk_size as nat;
    let q = n / chunk_size;
    let count = if n % chunk_size == 0 {
        q
    } else {
        assert(q < usize::MAX) by (nonlinear_arith)
            requires
                q == n / chunk_size,
                n % chunk_size != 0,
                chunk_size >= 1,
                n <= usize::MAX,
        ;
        q + 1
    };
    assert(count == chunk_count(n as nat, c)) by (nonlinear_arith)
        requires
            c >= 1,
            c == chunk_size,
            q == n / chunk_size,
            count == if n % chunk_size == 0 { q as int } else { q + 1 },
    ;
    let mut i: usize = 0;
    while i < count
        invariant
            chunk_size >= 1,
            c == chunk_size,
            c == chunk_size_spec(intents@.len()),
            n == intents@.len(),
            count == chunk_count(n as nat, c),
            i <= count,
            results@.len() == i,
            forall|s: &[Intent]| process_fn.requires((s,)),
            forall|j: int|
                0 <= j < i ==> #[trigger] gives_on_chunk(process_fn, chunk_of(intents@, c, j), Ok::<R, Error>(results@[j])),
        decreases count - i,
    {
        assert(i * c < n) by (nonlinear_arith)
            requires
                i < count,
                count == (n + c - 1) / c as int,
                c >= 1,
        ;
        let start = i * chunk_size;
        let end = if n - start >= chunk_size { start + chunk_size } else { n };
        assert((i + 1) * c == start + c) by (nonlinear_arith)
            requires
                start == i * c,
        ;
        let chunk = vstd::slice::slice_subrange(intents, start, end);
        assert(chunk@ == chunk_of(intents@, c, i as int));
        let res = process_fn(chunk);
        assert(gives_on_chunk(process_fn, chunk_of(intents@, c, i as int), res));
        let ghost before = results@;
        match res {
            Ok(x) => {
                results.push(x);
            },
            Err(e) => {
                return Err(e);
            },
        }
        assert forall|j: int| 0 <= j < i + 1 implies #[trigger] gives_on_chunk(
            process_fn,
            chunk_of(intents@, c, j),
            Ok::<R, Error>(results@[j]),
        ) by {
            if j < i {
                assert(results@[j] == before[j]);
            }
        }
        i = i + 1;
    }
    Ok(results)
}

} // verus!
