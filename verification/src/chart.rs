//! Chart data reduction. A float is handled here by its order key: the integer
//! whose order is the IEEE 754 totalOrder of the float's bit pattern, so points are
//! pairs of keys `(x, y)` that convert back to the same floats. The `y` values are
//! ranked by that total order; the `x` values are compared as floats are compared
//! with `<=` and `!=` (NaN compares false, and the two zeros are equal).

use vstd::prelude::*;

verus! {

/// The order key of the bit pattern of an `f64`: patterns with the sign bit clear keep
/// their value; the others are mapped below zero in reverse order.
pub open spec fn spec_order_key(bits: u64) -> int {
    if bits < 0x8000_0000_0000_0000u64 {
        bits as int
    } else {
        -1 - (bits - 0x8000_0000_0000_0000u64)
    }
}

/// The bit pattern whose order key is `key`.
pub open spec fn spec_bits_of_key(key: i64) -> int {
    if key >= 0 {
        key as int
    } else {
        0x8000_0000_0000_0000int + (-1 - key)
    }
}

/// Returns the order key of the bit pattern of an `f64`.
pub fn order_key(bits: u64) -> (k: i64)
    ensures
        k as int == spec_order_key(bits),
{
    if bits < 0x8000_0000_0000_0000u64 {
        bits as i64
    } else {
        let m: u64 = bits - 0x8000_0000_0000_0000u64;
        -1i64 - (m as i64)
    }
}

/// Returns the bit pattern of the `f64` whose order key is `key`.
pub fn bits_of_key(key: i64) -> (b: u64)
    ensures
        b as int == spec_bits_of_key(key),
{
    if key >= 0 {
        key as u64
    } else {
        let m: i64 = -1i64 - key;
        0x8000_0000_0000_0000u64 + (m as u64)
    }
}

/// Order keys and bit patterns convert into each other without loss.
pub proof fn lemma_order_key_roundtrip(bits: u64, key: i64)
    ensures
        spec_bits_of_key(spec_order_key(bits) as i64) == bits as int,
        spec_order_key(spec_bits_of_key(key) as u64) == key as int,
        i64::MIN <= spec_order_key(bits) <= i64::MAX,
        0 <= spec_bits_of_key(key) <= u64::MAX,
{
}

/// Index of the first point of least `y` among the first `n` points of `c`.
pub open spec fn first_min_index(c: Seq<(i64, i64)>, n: int) -> int
    decreases n,
{
    if n <= 1 {
        0
    } else {
        let p = first_min_index(c, n - 1);
        if c[n - 1].1 < c[p].1 {
            n - 1
        } else {
            p
        }
    }
}

/// Index of the last point of greatest `y` among the first `n` points of `c`.
pub open spec fn last_max_index(c: Seq<(i64, i64)>, n: int) -> int
    decreases n,
{
    if n <= 1 {
        0
    } else {
        let p = last_max_index(c, n - 1);
        if c[n - 1].1 >= c[p].1 {
            n - 1
        } else {
            p
        }
    }
}

/// Whether the order key stands for a NaN.
pub open spec fn key_is_nan(k: i64) -> bool {
    k > 0x7FF0_0000_0000_0000i64 || k < -0x7FF0_0000_0000_0001i64
}

/// Whether the order key stands for a zero (of either sign).
pub open spec fn key_is_zero(k: i64) -> bool {
    k == 0 || k == -1
}

/// The float comparison `a <= b` on the floats with order keys `a` and `b`.
pub open spec fn key_float_le(a: i64, b: i64) -> bool {
    !key_is_nan(a) && !key_is_nan(b) && (a <= b || (key_is_zero(a) && key_is_zero(b)))
}

/// The float comparison `a != b` on the floats with order keys `a` and `b`.
pub open spec fn key_float_ne(a: i64, b: i64) -> bool {
    key_is_nan(a) || key_is_nan(b) || !(a == b || (key_is_zero(a) && key_is_zero(b)))
}

/// Returns the float comparison `a <= b` on the floats with order keys `a` and `b`.
pub fn float_le(a: i64, b: i64) -> (r: bool)
    ensures
        r == key_float_le(a, b),
{
    let a_nan = a > 0x7FF0_0000_0000_0000i64 || a < -0x7FF0_0000_0000_0001i64;
    let b_nan = b > 0x7FF0_0000_0000_0000i64 || b < -0x7FF0_0000_0000_0001i64;
    let zeros = (a == 0 || a == -1) && (b == 0 || b == -1);
    !a_nan && !b_nan && (a <= b || zeros)
}

/// Returns the float comparison `a != b` on the floats with order keys `a` and `b`.
pub fn float_ne(a: i64, b: i64) -> (r: bool)
    ensures
        r == key_float_ne(a, b),
{
    let a_nan = a > 0x7FF0_0000_0000_0000i64 || a < -0x7FF0_0000_0000_0001i64;
    let b_nan = b > 0x7FF0_0000_0000_0000i64 || b < -0x7FF0_0000_0000_0001i64;
    let zeros = (a == 0 || a == -1) && (b == 0 || b == -1);
    a_nan || b_nan || !(a == b || zeros)
}

/// The points a bucket keeps: its lowest and its highest point, in `x` order, once
/// when their `x` values compare equal.
pub open spec fn bucket_points(c: Seq<(i64, i64)>) -> Seq<(i64, i64)> {
    let mn = c[first_min_index(c, c.len() as int)];
    let mx = c[last_max_index(c, c.len() as int)];
    if key_float_le(mn.0, mx.0) {
        if key_float_ne(mn.0, mx.0) {
            seq![mn, mx]
        } else {
            seq![mn]
        }
    } else {
        if key_float_ne(mn.0, mx.0) {
            seq![mx, mn]
        } else {
            seq![mx]
        }
    }
}

/// The points kept from the buckets that start at `start`, `start + bucket`, ...
pub open spec fn buckets_from(data: Seq<(i64, i64)>, bucket: int, start: int) -> Seq<(i64, i64)>
    decreases data.len() - start,
{
    if bucket <= 0 || start < 0 || start >= data.len() {
        Seq::empty()
    } else if start + bucket >= data.len() {
        bucket_points(data.subrange(start, data.len() as int))
    } else {
        bucket_points(data.subrange(start, start + bucket)) + buckets_from(data, bucket, start + bucket)
    }
}

/// The number of buckets that start at `start`, `start + bucket`, ... before `len`.
pub open spec fn bucket_count(len: int, bucket: int, start: int) -> nat
    decreases len - start,
{
    if bucket <= 0 || start < 0 || start >= len {
        0
    } else if start + bucket >= len {
        1
    } else {
        1 + bucket_count(len, bucket, start + bucket)
    }
}

/// The bucket size used for `len` points and at most `max_points` output points.
pub open spec fn bucket_size(len: nat, max_points: nat) -> int {
    len as int / (max_points as int / 2)
}

/// What the reduction returns: the data unchanged when it has at most `max_points`
/// points or when `max_points` is below 4; otherwise the data is cut into buckets of
/// `len / (max_points / 2)` points (the last one may be shorter) and each bucket
/// keeps its lowest and highest point.
pub open spec fn spec_downsample(data: Seq<(i64, i64)>, max_points: nat) -> Seq<(i64, i64)> {
    if data.len() <= max_points || max_points < 4 {
        data
    } else {
        buckets_from(data, bucket_size(data.len(), max_points), 0)
    }
}

fn bucket_extremes(data: &Vec<(i64, i64)>, start: usize, end: usize) -> (r: (usize, usize))
    requires
        start < end <= data@.len(),
    ensures
        r.0 as int == start + first_min_index(data@.subrange(start as int, end as int), end - start),
        r.1 as int == start + last_max_index(data@.subrange(start as int, end as int), end - start),
{
    let ghost c = data@.subrange(start as int, end as int);
    let mut mn: usize = start;
    let mut mx: usize = start;
    let mut i: usize = start + 1;
    while i < end
        invariant
            start < i <= end,
            end <= data@.len(),
            c == data@.subrange(start as int, end as int),
            mn as int == start + first_min_index(c, i - start),
            mx as int == start + last_max_index(c, i - start),
            start <= mn < i,
            start <= mx < i,
        decreases end - i,
    {
        assert(c[i - start] == data@[i as int]);
        assert(c[mn - start] == data@[mn as int]);
        assert(c[mx - start] == data@[mx as int]);
        if data[i].1 < data[mn].1 {
            mn = i;
        }
        if data[i].1 >= data[mx].1 {
            mx = i;
        }
        i = i + 1;
    }
    (mn, mx)
}

proof fn lemma_extreme_indices_in_range(c: Seq<(i64, i64)>, n: int)
    requires
        1 <= n <= c.len(),
    ensures
        0 <= first_min_index(c, n) < n,
        0 <= last_max_index(c, n) < n,
    decreases n,
{
    if n > 1 {
        lemma_extreme_indices_in_range(c, n - 1);
    }
}

/// Reduces chart data to at most two points per bucket, keeping each bucket's lowest
/// and highest point (see [`spec_downsample`]).
pub fn downsample_minmax(data: &Vec<(i64, i64)>, max_points: usize) -> (r: Vec<(i64, i64)>)
    ensures
        r@ == spec_downsample(data@, max_points as nat),
{
    let len = data.len();
    if len <= max_points || max_points < 4 {
        let mut copy: Vec<(i64, i64)> = Vec::new();
        let mut i: usize = 0;
        while i < len
            invariant
                i <= len,
                len == data@.len(),
                copy@ =~= data@.take(i as int),
            decreases len - i,
        {
            copy.push(data[i]);
            i = i + 1;
        }
        assert(data@.take(len as int) =~= data@);
        return copy;
    }
    let num_buckets = max_points / 2;
    let bucket = len / num_buckets;
    assert(bucket >= 1) by (nonlinear_arith)
        requires
            num_buckets >= 2,
            len > 2 * num_buckets,
            bucket == len / num_buckets,
    ;
    let mut out: Vec<(i64, i64)> = Vec::new();
    let mut start: usize = 0;
    while start < len
        invariant
            len == data@.len(),
            bucket >= 1,
            bucket as int == bucket_size(len as nat, max_points as nat),
            start <= len,
            out@ + buckets_from(data@, bucket as int, start as int) == buckets_from(
                data@,
                bucket as int,
                0,
            ),
        decreases len - start,
    {
        let end = if bucket < len - start {
            start + bucket
        } else {
            len
        };
        let ghost c = data@.subrange(start as int, end as int);
        let (mn_i, mx_i) = bucket_extremes(data, start, end);
        proof {
            lemma_extreme_indices_in_range(c, c.len() as int);
        }
        let mn = data[mn_i];
        let mx = data[mx_i];
        assert(mn == c[first_min_index(c, c.len() as int)]);
        assert(mx == c[last_max_index(c, c.len() as int)]);
        let ghost before = out@;
        if float_le(mn.0, mx.0) {
            out.push(mn);
            if float_ne(mn.0, mx.0) {
                out.push(mx);
            }
        } else {
            out.push(mx);
            if float_ne(mn.0, mx.0) {
                out.push(mn);
            }
        }
        assert(out@ =~= before + bucket_points(c));
        if end == len {
            assert(buckets_from(data@, bucket as int, start as int) == bucket_points(c));
            assert(out@ =~= before + buckets_from(data@, bucket as int, start as int));
            start = len;
        } else {
            assert(buckets_from(data@, bucket as int, start as int) == bucket_points(c)
                + buckets_from(data@, bucket as int, end as int));
            assert(out@ + buckets_from(data@, bucket as int, end as int) =~= before
                + buckets_from(data@, bucket as int, start as int));
            start = end;
        }
    }
    assert(out@ =~= out@ + buckets_from(data@, bucket as int, start as int));
    out
}

/// Data with at most `max_points` points, or any data when `max_points` is below 4,
/// comes back unchanged.
pub proof fn lemma_downsample_keeps_small(data: Seq<(i64, i64)>, max_points: nat)
    requires
        data.len() <= max_points || max_points < 4,
    ensures
        spec_downsample(data, max_points) == data,
{
}

proof fn lemma_bucket_points_from(c: Seq<(i64, i64)>)
    requires
        c.len() >= 1,
    ensures
        bucket_points(c).len() <= 2,
        forall|j: int| 0 <= j < bucket_points(c).len() ==> c.contains(#[trigger] bucket_points(c)[j]),
{
    let n = c.len() as int;
    lemma_extreme_indices_in_range(c, n);
    let a = first_min_index(c, n);
    let b = last_max_index(c, n);
    assert(c.contains(c[a]));
    assert(c.contains(c[b]));
}

proof fn lemma_buckets_from(data: Seq<(i64, i64)>, bucket: int, start: int)
    requires
        bucket >= 1,
        0 <= start,
    ensures
        buckets_from(data, bucket, start).len() <= 2 * bucket_count(data.len() as int, bucket, start),
        forall|j: int|
            0 <= j < buckets_from(data, bucket, start).len() ==> data.contains(
                #[trigger] buckets_from(data, bucket, start)[j],
            ),
    decreases data.len() - start,
{
    if start < data.len() {
        let end = if start + bucket >= data.len() {
            data.len() as int
        } else {
            start + bucket
        };
        let c = data.subrange(start, end);
        lemma_bucket_points_from(c);
        let head = bucket_points(c);
        assert forall|j: int| 0 <= j < head.len() implies data.contains(#[trigger] head[j]) by {
            let k = choose|k: int| 0 <= k < c.len() && c[k] == head[j];
            assert(data[start + k] == head[j]);
        }
        if start + bucket < data.len() {
            lemma_buckets_from(data, bucket, start + bucket);
            let rest = buckets_from(data, bucket, start + bucket);
            let all = buckets_from(data, bucket, start);
            assert(all == head + rest);
            assert forall|j: int| 0 <= j < all.len() implies data.contains(#[trigger] all[j]) by {
                if j < head.len() {
                    assert(all[j] == head[j]);
                } else {
                    assert(all[j] == rest[j - head.len()]);
                }
            }
        }
    }
}

/// Every point of the reduced data is a point of the data, and the reduced data has
/// at most two points per bucket.
pub proof fn lemma_downsample_bounded(data: Seq<(i64, i64)>, max_points: nat)
    ensures
        forall|j: int|
            0 <= j < spec_downsample(data, max_points).len() ==> data.contains(
                #[trigger] spec_downsample(data, max_points)[j],
            ),
        !(data.len() <= max_points || max_points < 4) ==> spec_downsample(data, max_points).len()
            <= 2 * bucket_count(data.len() as int, bucket_size(data.len(), max_points), 0),
{
    if data.len() <= max_points || max_points < 4 {
        assert forall|j: int| 0 <= j < data.len() implies data.contains(#[trigger] data[j]) by {}
    } else {
        let nb = max_points as int / 2;
        let len = data.len() as int;
        assert(len / nb >= 1) by (nonlinear_arith)
            requires
                nb >= 2,
                len > 2 * nb,
        ;
        lemma_buckets_from(data, bucket_size(data.len(), max_points), 0);
    }
}

proof fn lemma_bucket_count_exact(nb: int, bucket: int, k: int)
    requires
        bucket >= 1,
        0 <= k < nb,
    ensures
        bucket_count(nb * bucket, bucket, k * bucket) == nb - k,
    decreases nb - k,
{
    assert((k + 1) * bucket == k * bucket + bucket) by (nonlinear_arith);
    assert(k * bucket >= 0) by (nonlinear_arith)
        requires
            k >= 0,
            bucket >= 1,
    ;
    if k + 1 < nb {
        assert(k * bucket + bucket < nb * bucket) by (nonlinear_arith)
            requires
                k + 1 < nb,
                bucket >= 1,
        ;
        lemma_bucket_count_exact(nb, bucket, k + 1);
    } else {
        assert(k * bucket + bucket == nb * bucket) by (nonlinear_arith)
            requires
                k + 1 == nb,
        ;
    }
}

/// When the number of points is a multiple of `max_points / 2`, the reduced data has
/// at most `max_points` points.
pub proof fn lemma_downsample_fits_when_divisible(data: Seq<(i64, i64)>, max_points: nat)
    requires
        max_points >= 4,
        data.len() % (max_points / 2) == 0,
    ensures
        spec_downsample(data, max_points).len() <= max_points,
{
    lemma_downsample_bounded(data, max_points);
    if data.len() > max_points {
        let nb = max_points as int / 2;
        let len = data.len() as int;
        let bucket = len / nb;
        assert(len == nb * bucket) by (nonlinear_arith)
            requires
                len % nb == 0,
                nb >= 2,
                bucket == len / nb,
        ;
        assert(bucket >= 1) by (nonlinear_arith)
            requires
                nb >= 2,
                len > 2 * nb,
                bucket == len / nb,
        ;
        lemma_bucket_count_exact(nb, bucket, 0);
        assert(0 * bucket == 0);
    }
}

/// The bit pattern of a float is a NaN when its exponent bits are all ones and its
/// mantissa is not zero, and a zero when all bits but the sign are zero.
pub open spec fn bits_are_nan(bits: int) -> bool {
    bits % 0x8000_0000_0000_0000int > 0x7FF0_0000_0000_0000int
}

/// See [`bits_are_nan`].
pub open spec fn bits_are_zero(bits: int) -> bool {
    bits % 0x8000_0000_0000_0000int == 0
}

/// The comparisons on order keys are the float comparisons: a key stands for a NaN or
/// a zero exactly when its bit pattern does; a NaN compares false with `<=` and unequal
/// with `!=`; two zeros compare equal; any other two floats compare as their keys
/// order them, and `!=` holds exactly when `<=` fails one way or the other.
pub proof fn lemma_float_comparisons(a: i64, b: i64)
    ensures
        key_is_nan(a) <==> bits_are_nan(spec_bits_of_key(a)),
        key_is_zero(a) <==> bits_are_zero(spec_bits_of_key(a)),
        key_is_nan(a) || key_is_nan(b) ==> !key_float_le(a, b) && key_float_ne(a, b),
        key_is_zero(a) && key_is_zero(b) ==> key_float_le(a, b) && !key_float_ne(a, b),
        !key_is_nan(a) && !key_is_nan(b) ==> key_float_le(a, b) || key_float_le(b, a),
        !key_is_nan(a) && !key_is_nan(b) ==> (key_float_ne(a, b) <==> !(key_float_le(a, b)
            && key_float_le(b, a))),
        !key_is_nan(a) && !key_is_nan(b) && !(key_is_zero(a) && key_is_zero(b)) ==> ((
        key_float_le(a, b) <==> a <= b) && (key_float_ne(a, b) <==> a != b)),
{
}

} // verus!
