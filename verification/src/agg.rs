//! The windowed aggregator: an append-only detection table, re-sorted by
//! timestamp on every update, filtered by class and score threshold, and
//! summarized per time window and per defect class.
//!
//! Scores are measured in millionths (see [`crate::fbits`]); statistics are
//! exact integer arithmetic over those fixed-point values. Windows start at
//! `offset + k * interval` for `k = 0, 1, ...` and span `period`
//! nanoseconds, left-closed: a record at the start boundary belongs to the
//! window, one at the end boundary does not.

use vstd::prelude::*;
use vstd::relations::{total_ordering, sorted_by};
use crate::batch::DetectionRecord;
use crate::fbits::f32_micros;

verus! {

/// Number of defect/status classes the aggregator reports on, labelled
/// `0` to `4`: nozzle, adhesion, spaghetti, print, raft.
pub const CLASS_COUNT: usize = 5;

pub const DEFAULT_MAX_SIZE_DURATION: u64 = 60_000_000_000;

pub const DEFAULT_MAX_SIZE_BUFFERS: u64 = 900;

pub const DEFAULT_WINDOW_INTERVAL: u64 = crate::NANOS_PER_SECOND;

pub const DEFAULT_WINDOW_PERIOD: u64 = crate::NANOS_PER_SECOND;

pub const DEFAULT_WINDOW_OFFSET: u64 = 0;

pub const DEFAULT_SCORE_THRESHOLD: u64 = 500_000;

pub const DEFAULT_DDOF: u64 = 0;

/// Aggregator settings. Durations are nanoseconds of the pipeline clock;
/// the score threshold is in millionths; `ddof` is the delta degrees of
/// freedom of the standard deviation (0: population, 1: sample).
///
/// `window_truncate` and `window_include_boundaries` are presentation
/// flags of the engine element and are stored for parity, but they do not
/// affect the computed summaries: every [`WindowSummary`] always carries
/// both boundaries, and window starts are never truncated away. The
/// summary specification reads only the interval, period, offset,
/// threshold and `ddof` fields.
#[derive(Debug, Clone, PartialEq, Eq, Structural)]
pub struct Settings {
    pub max_size_duration: u64,
    pub max_size_buffers: u64,
    pub window_interval: u64,
    pub window_period: u64,
    pub window_offset: u64,
    pub window_truncate: bool,
    pub window_include_boundaries: bool,
    pub score_threshold: u64,
    pub ddof: u64,
}

impl Settings {
    /// Settings the aggregator accepts: windows advance and have extent,
    /// and the deviation divisor is population or sample.
    pub open spec fn wf(&self) -> bool {
        &&& self.window_interval > 0
        &&& self.window_period > 0
        &&& self.ddof <= 1
    }
}

impl Default for Settings {
    fn default() -> (r: Self)
        ensures
            r.max_size_duration == DEFAULT_MAX_SIZE_DURATION,
            r.max_size_buffers == DEFAULT_MAX_SIZE_BUFFERS,
            r.window_interval == DEFAULT_WINDOW_INTERVAL,
            r.window_period == DEFAULT_WINDOW_PERIOD,
            r.window_offset == DEFAULT_WINDOW_OFFSET,
            !r.window_truncate,
            r.window_include_boundaries,
            r.score_threshold == DEFAULT_SCORE_THRESHOLD,
            r.ddof == DEFAULT_DDOF,
            r.wf(),
    {
        Settings {
            max_size_duration: DEFAULT_MAX_SIZE_DURATION,
            max_size_buffers: DEFAULT_MAX_SIZE_BUFFERS,
            window_interval: DEFAULT_WINDOW_INTERVAL,
            window_period: DEFAULT_WINDOW_PERIOD,
            window_offset: DEFAULT_WINDOW_OFFSET,
            window_truncate: false,
            window_include_boundaries: true,
            score_threshold: DEFAULT_SCORE_THRESHOLD,
            ddof: DEFAULT_DDOF,
        }
    }
}

/// The names of the five classes, in label order.
pub fn class_names() -> (r: Vec<&'static str>)
    ensures
        r@.len() == CLASS_COUNT,
        r@[0]@ == "nozzle"@,
        r@[1]@ == "adhesion"@,
        r@[2]@ == "spaghetti"@,
        r@[3]@ == "print"@,
        r@[4]@ == "raft"@,
{
    let mut v: Vec<&'static str> = Vec::new();
    v.push("nozzle");
    v.push("adhesion");
    v.push("spaghetti");
    v.push("print");
    v.push("raft");
    v
}

/// A record passes the aggregator's filter when its class is one of the
/// five known labels and its score clears the threshold.
pub open spec fn record_included(r: DetectionRecord, st: Settings) -> bool {
    &&& 0 <= r.class < CLASS_COUNT
    &&& f32_micros(r.score) > st.score_threshold
}

/// `s` is the start of a window: at or after the configured offset and a
/// whole number of intervals past it.
pub open spec fn aligned_start(st: Settings, s: int) -> bool {
    &&& s >= st.window_offset
    &&& (s - st.window_offset) % (st.window_interval as int) == 0
}

/// Left-closed window membership: a record at the start belongs to the
/// window, one at the end does not.
pub open spec fn in_window(st: Settings, s: int, ts: u64) -> bool {
    s <= ts < s + st.window_period
}

/// The canonical order of detection records: by timestamp, ties broken by
/// the remaining fields so that the order is total and sorting is a
/// function of the table's contents alone.
pub open spec fn record_le(a: DetectionRecord, b: DetectionRecord) -> bool {
    if a.ts != b.ts {
        a.ts < b.ts
    } else if a.x0 != b.x0 {
        a.x0 < b.x0
    } else if a.y0 != b.y0 {
        a.y0 < b.y0
    } else if a.x1 != b.x1 {
        a.x1 < b.x1
    } else if a.y1 != b.y1 {
        a.y1 < b.y1
    } else if a.class != b.class {
        a.class < b.class
    } else {
        a.score <= b.score
    }
}

/// The canonical order as a relation value.
pub open spec fn record_leq() -> spec_fn(DetectionRecord, DetectionRecord) -> bool {
    |a: DetectionRecord, b: DetectionRecord| record_le(a, b)
}

/// The canonical order is a total ordering.
pub proof fn lemma_record_leq_total()
    ensures
        total_ordering(record_leq()),
{
    let leq = record_leq();
    assert forall|x: DetectionRecord, y: DetectionRecord| #[trigger] leq(x, y) && #[trigger] leq(
        y,
        x,
    ) implies x == y by {}
    assert forall|x: DetectionRecord, y: DetectionRecord, z: DetectionRecord| #[trigger] leq(x, y)
        && #[trigger] leq(y, z) implies leq(x, z) by {}
    assert forall|x: DetectionRecord, y: DetectionRecord| #[trigger] leq(x, y) || #[trigger] leq(
        y,
        x,
    ) by {}
}

/// The canonical sorted form of a table: the unique ordering of its rows
/// by `record_leq`. Two tables with the same rows in any arrival order
/// have the same sorted form.
pub open spec fn sorted_table(t: Seq<DetectionRecord>) -> Seq<DetectionRecord> {
    t.sort_by(record_leq())
}

/// Sorting tables with equal contents gives equal sequences.
pub proof fn lemma_sorted_table_of_permutation(t1: Seq<DetectionRecord>, t2: Seq<DetectionRecord>)
    requires
        t1.to_multiset() == t2.to_multiset(),
    ensures
        sorted_table(t1) == sorted_table(t2),
{
    lemma_record_leq_total();
    t1.lemma_sort_by_ensures(record_leq());
    t2.lemma_sort_by_ensures(record_leq());
    vstd::seq_lib::lemma_sorted_unique(sorted_table(t1), sorted_table(t2), record_leq());
}

/// Membership in the summary group of window `s`, class `c`.
pub open spec fn group_member(st: Settings, s: int, c: int, r: DetectionRecord) -> bool {
    &&& record_included(r, st)
    &&& in_window(st, s, r.ts)
    &&& r.class == c
}

/// The rows of `t` in the summary group of window `s`, class `c`, in
/// table order.
pub open spec fn group_rows(t: Seq<DetectionRecord>, st: Settings, s: int, c: int) -> Seq<
    DetectionRecord,
> {
    t.filter(|r: DetectionRecord| group_member(st, s, c, r))
}

/// Sum of the scores of a row sequence, in millionths.
pub open spec fn sum_micros(rs: Seq<DetectionRecord>) -> nat
    decreases rs.len(),
{
    if rs.len() == 0 {
        0
    } else {
        sum_micros(rs.drop_last()) + f32_micros(rs.last().score)
    }
}

/// Sum of the squared scores of a row sequence, in squared millionths.
pub open spec fn sum_sq_micros(rs: Seq<DetectionRecord>) -> nat
    decreases rs.len(),
{
    if rs.len() == 0 {
        0
    } else {
        sum_sq_micros(rs.drop_last()) + f32_micros(rs.last().score) * f32_micros(rs.last().score)
    }
}

/// The integer square root: the greatest `r` with `r * r <= x`.
pub open spec fn isqrt_spec(x: int) -> int
    decreases x,
{
    if x <= 0 {
        0
    } else {
        let r = isqrt_spec(x - 1);
        if (r + 1) * (r + 1) <= x {
            r + 1
        } else {
            r
        }
    }
}

/// The integer square root is characterized by its two bounds.
pub proof fn lemma_isqrt_bounds(x: int)
    requires
        x >= 0,
    ensures
        0 <= isqrt_spec(x),
        isqrt_spec(x) * isqrt_spec(x) <= x,
        x < (isqrt_spec(x) + 1) * (isqrt_spec(x) + 1),
    decreases x,
{
    if x > 0 {
        lemma_isqrt_bounds(x - 1);
        let r = isqrt_spec(x - 1);
        let q = isqrt_spec(x);
        if (r + 1) * (r + 1) <= x {
            assert(q == r + 1);
            assert(x < (q + 1) * (q + 1)) by (nonlinear_arith)
                requires
                    0 <= r,
                    x <= (r + 1) * (r + 1),
                    q == r + 1,
            ;
        } else {
            assert(q == r);
            assert(q * q <= x);
        }
    }
}

/// Only one nonnegative integer satisfies the square-root bounds.
pub proof fn lemma_isqrt_unique(x: int, r: int)
    requires
        0 <= r,
        r * r <= x,
        x < (r + 1) * (r + 1),
    ensures
        r == isqrt_spec(x),
{
    lemma_isqrt_bounds(x);
    let s = isqrt_spec(x);
    assert(r == s) by (nonlinear_arith)
        requires
            0 <= r,
            0 <= s,
            r * r <= x,
            x < (r + 1) * (r + 1),
            s * s <= x,
            x < (s + 1) * (s + 1),
    ;
}

/// Compute the integer square root.
pub fn isqrt(x: u64) -> (r: u64)
    ensures
        r as int == isqrt_spec(x as int),
{
    let mut lo: u64 = 0;
    let mut hi: u64 = 0x1_0000_0000;
    assert((hi as nat) * (hi as nat) > x as nat) by (nonlinear_arith)
        requires
            hi == 0x1_0000_0000,
            x <= 0xFFFF_FFFF_FFFF_FFFFu64,
    ;
    while lo + 1 < hi
        invariant
            lo < hi <= 0x1_0000_0000,
            (lo as nat) * (lo as nat) <= x as nat,
            (hi as nat) * (hi as nat) > x as nat,
        decreases hi - lo,
    {
        let mid: u64 = lo + (hi - lo) / 2;
        proof {
            assert((mid as u128) * (mid as u128) <= 0x1_0000_0000u128 * 0x1_0000_0000u128)
                by (nonlinear_arith)
                requires
                    mid <= 0x1_0000_0000u64,
            ;
        }
        if (mid as u128) * (mid as u128) <= (x as u128) {
            lo = mid;
        } else {
            hi = mid;
        }
    }
    proof {
        lemma_isqrt_unique(x as int, lo as int);
    }
    lo
}

/// Every score measures at most one million millionths.
pub proof fn lemma_micros_bounded(bits: u32)
    ensures
        f32_micros(bits) <= 1_000_000,
{
}

/// Sums of scores are bounded by the row count times the score bound.
pub proof fn lemma_sum_bounds(rs: Seq<DetectionRecord>)
    ensures
        sum_micros(rs) <= rs.len() * 1_000_000,
        sum_sq_micros(rs) <= rs.len() * 1_000_000_000_000,
    decreases rs.len(),
{
    if rs.len() > 0 {
        lemma_sum_bounds(rs.drop_last());
        let m = f32_micros(rs.last().score);
        lemma_micros_bounded(rs.last().score);
        assert(m * m <= 1_000_000_000_000) by (nonlinear_arith)
            requires
                0 <= m <= 1_000_000,
        ;
        assert((rs.len() - 1) * 1_000_000 + 1_000_000 == rs.len() * 1_000_000) by (nonlinear_arith);
        assert((rs.len() - 1) * 1_000_000_000_000 + 1_000_000_000_000 == rs.len()
            * 1_000_000_000_000) by (nonlinear_arith);
    }
}

/// The count times the sum of squares dominates the squared sum: the
/// variance numerator is never negative.
pub proof fn lemma_variance_nonneg(rs: Seq<DetectionRecord>)
    ensures
        sum_micros(rs) * sum_micros(rs) <= rs.len() * sum_sq_micros(rs),
    decreases rs.len(),
{
    if rs.len() > 0 {
        lemma_variance_nonneg(rs.drop_last());
        let n = (rs.len() - 1) as nat;
        let s1 = sum_micros(rs.drop_last());
        let s2 = sum_sq_micros(rs.drop_last());
        let y = f32_micros(rs.last().score);
        assert((s1 + y) * (s1 + y) <= (n + 1) * (s2 + y * y)) by (nonlinear_arith)
            requires
                s1 * s1 <= n * s2,
                0 <= y,
                0 <= s1,
                0 <= s2,
                0 <= n,
        ;
    }
}

/// Swapping two positions of a sequence preserves its contents.
proof fn lemma_swap_multiset<A>(s: Seq<A>, i: int, j: int)
    requires
        0 <= i < s.len(),
        0 <= j < s.len(),
    ensures
        s.update(i, s[j]).update(j, s[i]).to_multiset() == s.to_multiset(),
{
    broadcast use vstd::seq_lib::group_to_multiset_ensures;
    broadcast use vstd::multiset::group_multiset_axioms;

    if i == j {
        assert(s.update(i, s[j]).update(j, s[i]) =~= s);
    } else {
        let s1 = s.update(i, s[j]);
        let s2 = s1.update(j, s[i]);
        vstd::seq_lib::to_multiset_update(s, i, s[j]);
        vstd::seq_lib::to_multiset_update(s1, j, s[i]);
        assert(s1[j] == s[j]);
        assert(s2.to_multiset() =~= s.to_multiset().remove(s[i]).insert(s[j]).remove(
            s[j],
        ).insert(s[i]));
        assert(s.to_multiset().contains(s[i]));
        assert(s2.to_multiset() =~= s.to_multiset());
    }
}

/// Compare two records in the canonical order.
fn record_le_exec(a: &DetectionRecord, b: &DetectionRecord) -> (r: bool)
    ensures
        r == record_le(*a, *b),
{
    if a.ts != b.ts {
        a.ts < b.ts
    } else if a.x0 != b.x0 {
        a.x0 < b.x0
    } else if a.y0 != b.y0 {
        a.y0 < b.y0
    } else if a.x1 != b.x1 {
        a.x1 < b.x1
    } else if a.y1 != b.y1 {
        a.y1 < b.y1
    } else if a.class != b.class {
        a.class < b.class
    } else {
        a.score <= b.score
    }
}

/// Sort a table into its canonical order (insertion sort).
fn sort_records(v: &mut Vec<DetectionRecord>)
    ensures
        final(v)@ == sorted_table(old(v)@),
{
    let ghost orig = v@;
    let len: usize = v.len();
    let mut i: usize = 1;
    while i < len
        invariant
            len >= 1 ==> 1 <= i <= len,
            len == 0 ==> i == 1,
            len == v@.len(),
            v@.to_multiset() == orig.to_multiset(),
            forall|a: int, b: int| 0 <= a < b < i && b < len ==> #[trigger] record_le(v@[a], v@[b]),
        decreases len - i,
    {
        let mut j: usize = i;
        while j > 0 && !record_le_exec(&v[j - 1], &v[j])
            invariant
                0 <= j <= i < len,
                len == v@.len(),
                v@.to_multiset() == orig.to_multiset(),
                forall|a: int, b: int|
                    0 <= a < b <= i && a != j && b != j ==> #[trigger] record_le(v@[a], v@[b]),
                forall|b: int| j < b <= i ==> #[trigger] record_le(v@[j as int], v@[b]),
            decreases j,
        {
            let ghost before = v@;
            let ra = v[j - 1];
            let rb = v[j];
            v.set(j - 1, rb);
            v.set(j, ra);
            proof {
                assert(v@ =~= before.update(j - 1, before[j as int]).update(
                    j as int,
                    before[j - 1],
                ));
                lemma_swap_multiset(before, j - 1, j as int);
                assert(!record_le(before[j - 1], before[j as int]));
                assert(record_le(before[j as int], before[j - 1]));
            }
            j = j - 1;
        }
        proof {
            assert forall|a: int, b: int| 0 <= a < b <= i implies #[trigger] record_le(
                v@[a],
                v@[b],
            ) by {
                if b == j {
                    if j > 0 {
                        assert(record_le(v@[j - 1], v@[j as int]));
                        if a < j - 1 {
                            assert(record_le(v@[a], v@[j - 1]));
                        }
                    }
                } else if a == j {
                    assert(record_le(v@[j as int], v@[b]));
                }
            }
        }
        i = i + 1;
    }
    proof {
        assert(sorted_by(v@, record_leq())) by {
            assert forall|a: int, b: int| 0 <= a < b < v@.len() implies #[trigger] record_leq()(
                v@[a],
                v@[b],
            ) by {
                assert(record_le(v@[a], v@[b]));
            }
        }
        lemma_record_leq_total();
        orig.lemma_sort_by_ensures(record_leq());
        vstd::seq_lib::lemma_sorted_unique(v@, sorted_table(orig), record_leq());
    }
}

/// Sort window starts ascending (insertion sort).
fn sort_starts(v: &mut Vec<u64>)
    ensures
        final(v)@.to_multiset() == old(v)@.to_multiset(),
        forall|a: int, b: int| 0 <= a < b < final(v)@.len() ==> final(v)@[a] <= final(v)@[b],
{
    let ghost orig = v@;
    let len: usize = v.len();
    let mut i: usize = 1;
    while i < len
        invariant
            len >= 1 ==> 1 <= i <= len,
            len == 0 ==> i == 1,
            len == v@.len(),
            v@.to_multiset() == orig.to_multiset(),
            forall|a: int, b: int| 0 <= a < b < i && b < len ==> v@[a] <= v@[b],
        decreases len - i,
    {
        let mut j: usize = i;
        while j > 0 && v[j - 1] > v[j]
            invariant
                0 <= j <= i < len,
                len == v@.len(),
                v@.to_multiset() == orig.to_multiset(),
                forall|a: int, b: int| 0 <= a < b <= i && a != j && b != j ==> v@[a] <= v@[b],
                forall|b: int| j < b <= i ==> v@[j as int] <= v@[b],
            decreases j,
        {
            let ghost before = v@;
            let ra = v[j - 1];
            let rb = v[j];
            v.set(j - 1, rb);
            v.set(j, ra);
            proof {
                assert(v@ =~= before.update(j - 1, before[j as int]).update(
                    j as int,
                    before[j - 1],
                ));
                lemma_swap_multiset(before, j - 1, j as int);
            }
            j = j - 1;
        }
        proof {
            assert forall|a: int, b: int| 0 <= a < b <= i implies v@[a] <= v@[b] by {
                if b == j {
                    if j > 0 {
                        assert(v@[j - 1] <= v@[j as int]);
                        if a < j - 1 {
                            assert(v@[a] <= v@[j - 1]);
                        }
                    }
                } else if a == j {
                    assert(v@[j as int] <= v@[b]);
                }
            }
        }
        i = i + 1;
    }
}

/// Collapse a sorted list to its distinct values, kept sorted strictly.
fn dedup_sorted(v: &Vec<u64>) -> (r: Vec<u64>)
    requires
        forall|a: int, b: int| 0 <= a < b < v@.len() ==> v@[a] <= v@[b],
    ensures
        forall|a: int, b: int| 0 <= a < b < r@.len() ==> r@[a] < r@[b],
        forall|x: u64| r@.contains(x) <==> v@.contains(x),
{
    let mut r: Vec<u64> = Vec::new();
    let len: usize = v.len();
    let mut i: usize = 0;
    while i < len
        invariant
            i <= len,
            len == v@.len(),
            forall|a: int, b: int| 0 <= a < b < v@.len() ==> v@[a] <= v@[b],
            forall|a: int, b: int| 0 <= a < b < r@.len() ==> r@[a] < r@[b],
            forall|x: u64| r@.contains(x) <==> v@.take(i as int).contains(x),
            i > 0 ==> r@.len() > 0 && r@.last() == v@[i - 1],
        decreases len - i,
    {
        let cur = v[i];
        let push: bool = if r.len() == 0 {
            true
        } else {
            *r.last().unwrap() != cur
        };
        let ghost old_r = r@;
        proof {
            if old_r.len() > 0 && i == 0 {
                assert(old_r.contains(old_r[0]));
                assert(v@.take(0).contains(old_r[0]));
                assert(false);
            }
        }
        if push {
            r.push(cur);
            proof {
                assert forall|a: int, b: int| 0 <= a < b < r@.len() implies r@[a] < r@[b] by {
                    if b == r@.len() - 1 {
                        assert(old_r.len() > 0 ==> old_r.last() == v@[i - 1] && v@[i - 1]
                            <= v@[i as int] && old_r.last() != cur);
                        if a < old_r.len() - 1 {
                            assert(old_r[a] < old_r[old_r.len() - 1]);
                        }
                    }
                }
            }
        }
        proof {
            let now_r = r@;
            let pre = v@.take(i as int);
            let post = v@.take(i as int + 1);
            assert(post =~= pre.push(v@[i as int]));
            assert forall|x: u64| now_r.contains(x) implies post.contains(x) by {
                let k = choose|k: int| 0 <= k < now_r.len() && #[trigger] now_r[k] == x;
                if k < old_r.len() {
                    assert(old_r[k] == x);
                    assert(old_r.contains(x));
                    let k2 = choose|k2: int| 0 <= k2 < pre.len() && #[trigger] pre[k2] == x;
                    assert(post[k2] == x);
                } else {
                    assert(x == cur);
                    assert(post[i as int] == cur);
                }
            }
            assert forall|x: u64| post.contains(x) implies now_r.contains(x) by {
                let k = choose|k: int| 0 <= k < post.len() && #[trigger] post[k] == x;
                if k < i {
                    assert(pre[k] == x);
                    assert(pre.contains(x));
                    assert(old_r.contains(x));
                    let k2 = choose|k2: int| 0 <= k2 < old_r.len() && #[trigger] old_r[k2] == x;
                    assert(now_r[k2] == x);
                } else {
                    assert(x == cur);
                    if push {
                        assert(now_r.last() == cur);
                    } else {
                        assert(old_r.last() == cur);
                        assert(now_r[old_r.len() - 1] == cur);
                    }
                }
            }
        }
        i = i + 1;
    }
    proof {
        assert(v@.take(len as int) =~= v@);
    }
    r
}

/// A start that covers a timestamp: aligned, and the timestamp falls in
/// its window.
pub open spec fn covered_start(st: Settings, s: int, ts: u64) -> bool {
    aligned_start(st, s) && in_window(st, s, ts)
}

/// Distinct aligned starts are at least one interval apart.
proof fn lemma_aligned_gap(st: Settings, a: int, b: int)
    requires
        st.wf(),
        aligned_start(st, a),
        aligned_start(st, b),
        a < b,
    ensures
        a + st.window_interval <= b,
{
    let e = st.window_interval as int;
    let da = a - st.window_offset;
    let db = b - st.window_offset;
    vstd::arithmetic::div_mod::lemma_fundamental_div_mod(da, e);
    vstd::arithmetic::div_mod::lemma_fundamental_div_mod(db, e);
    let ka = da / e;
    let kb = db / e;
    assert(da == e * ka);
    assert(db == e * kb);
    assert(ka < kb) by (nonlinear_arith)
        requires
            e > 0,
            e * ka < e * kb,
    ;
    assert(e * ka + e <= e * kb) by (nonlinear_arith)
        requires
            e > 0,
            ka + 1 <= kb,
    ;
}

/// No aligned start at or before `ts` lies beyond
/// `offset + ((ts - offset) / interval) * interval`.
proof fn lemma_aligned_le_max(st: Settings, x: int, ts: u64)
    requires
        st.wf(),
        aligned_start(st, x),
        x <= ts,
        st.window_offset <= ts,
    ensures
        x <= st.window_offset + ((ts - st.window_offset) as u64 / st.window_interval) as int
            * st.window_interval,
{
    let e = st.window_interval as int;
    let dx = x - st.window_offset;
    let d = ts - st.window_offset;
    vstd::arithmetic::div_mod::lemma_fundamental_div_mod(dx, e);
    assert(dx == e * (dx / e));
    vstd::arithmetic::div_mod::lemma_div_is_ordered(dx, d as int, e);
    assert(e * (dx / e) <= e * (d as int / e)) by (nonlinear_arith)
        requires
            e > 0,
            dx / e <= d as int / e,
    ;
    assert(((d as u64) / st.window_interval) as int == d as int / e);
    assert(e * (d as int / e) == (d as int / e) * e) by (nonlinear_arith);
}

/// Append every start whose window covers `ts` to the candidate list.
fn covering_starts_push(st: &Settings, ts: u64, cands: &mut Vec<u64>)
    requires
        st.wf(),
    ensures
        forall|x: u64| old(cands)@.contains(x) ==> #[trigger] final(cands)@.contains(x),
        forall|x: u64|
            covered_start(*st, x as int, ts) ==> #[trigger] final(cands)@.contains(x),
        forall|x: u64|
            #[trigger] final(cands)@.contains(x) ==> (old(cands)@.contains(x) || covered_start(
                *st,
                x as int,
                ts,
            )),
{
    let offset = st.window_offset;
    let e = st.window_interval;
    let period = st.window_period;
    if ts < offset {
        proof {
            assert forall|x: u64| !covered_start(*st, x as int, ts) by {
                if aligned_start(*st, x as int) {
                    assert(x >= offset > ts);
                }
            }
        }
        return ;
    }
    let d = ts - offset;
    let q = d / e;
    proof {
        vstd::arithmetic::div_mod::lemma_fundamental_div_mod(d as int, e as int);
        vstd::arithmetic::div_mod::lemma_mod_division_less_than_divisor(d as int, e as int);
        assert((e as int) * (q as int) <= d as int);
        assert((q as int) * (e as int) == (e as int) * (q as int)) by (nonlinear_arith);
    }
    let mut s: u64 = offset + q * e;
    proof {
        assert(aligned_start(*st, s as int)) by {
            assert((s as int - offset) == (q as int) * (e as int));
            vstd::arithmetic::div_mod::lemma_mod_multiples_basic(q as int, e as int);
        }
        assert forall|x: u64| covered_start(*st, x as int, ts) implies x <= s by {
            lemma_aligned_le_max(*st, x as int, ts);
        }
    }
    loop
        invariant_except_break
            st.wf(),
            e == st.window_interval,
            period == st.window_period,
            offset == st.window_offset,
            aligned_start(*st, s as int),
            s <= ts,
            forall|x: u64| old(cands)@.contains(x) ==> #[trigger] cands@.contains(x),
            forall|x: u64|
                covered_start(*st, x as int, ts) && x > s ==> #[trigger] cands@.contains(x),
            forall|x: u64|
                #[trigger] cands@.contains(x) ==> (old(cands)@.contains(x) || (covered_start(
                    *st,
                    x as int,
                    ts,
                ) && x > s)),
        ensures
            forall|x: u64| old(cands)@.contains(x) ==> #[trigger] cands@.contains(x),
            forall|x: u64|
                covered_start(*st, x as int, ts) ==> #[trigger] cands@.contains(x),
            forall|x: u64|
                #[trigger] cands@.contains(x) ==> (old(cands)@.contains(x) || covered_start(
                    *st,
                    x as int,
                    ts,
                )),
        decreases s,
    {
        if ts - s >= period {
            proof {
                assert forall|x: u64| covered_start(*st, x as int, ts) implies #[trigger] cands@.contains(
                    x,
                ) by {
                    assert(ts - s >= period);
                    if x <= s {
                        assert(!in_window(*st, x as int, ts));
                    }
                }
            }
            break ;
        }
        let ghost pre = cands@;
        cands.push(s);
        proof {
            assert(cands@ == pre.push(s));
            assert(covered_start(*st, s as int, ts));
            assert forall|x: u64| pre.contains(x) implies #[trigger] cands@.contains(x) by {
                let k = choose|k: int| 0 <= k < pre.len() && #[trigger] pre[k] == x;
                assert(cands@[k] == x);
            }
            assert(cands@.contains(s)) by {
                assert(cands@[cands@.len() - 1] == s);
            }
            assert forall|x: u64| #[trigger] cands@.contains(x) implies (pre.contains(x) || x
                == s) by {
                let k = choose|k: int| 0 <= k < cands@.len() && #[trigger] cands@[k] == x;
                if k < pre.len() {
                    assert(pre[k] == x);
                }
            }
        }
        if s - offset < e {
            proof {
                assert forall|x: u64| covered_start(*st, x as int, ts) implies #[trigger] cands@.contains(
                    x,
                ) by {
                    if x < s {
                        lemma_aligned_gap(*st, x as int, s as int);
                    } else if x > s {
                        assert(cands@.contains(x));
                    } else {
                        assert(cands@.contains(s));
                    }
                }
            }
            break ;
        }
        let ghost prev = s;
        s = s - e;
        proof {
            assert(aligned_start(*st, s as int)) by {
                vstd::arithmetic::div_mod::lemma_mod_add_multiples_vanish(
                    s as int - offset,
                    e as int,
                );
            }
            assert forall|x: u64| covered_start(*st, x as int, ts) && x > s implies #[trigger] cands@.contains(
                x,
            ) by {
                if x < prev {
                    lemma_aligned_gap(*st, x as int, prev as int);
                    assert(false);
                } else if x == prev {
                    assert(cands@.contains(prev));
                }
            }
        }
    }
}

/// Does the record pass the aggregator's class and score filter?
fn record_included_exec(r: &DetectionRecord, st: &Settings) -> (b: bool)
    ensures
        b == record_included(*r, *st),
{
    if 0 <= r.class && r.class < 5 {
        crate::fbits::f32_bits_micros(r.score) > st.score_threshold
    } else {
        false
    }
}

/// Exact statistics of one class within one window: row count, score sum
/// in millionths, floored mean in millionths (absent for an empty group),
/// and floored standard deviation in millionths (absent when the count
/// does not exceed `ddof`).
#[derive(Debug, Clone, Copy, PartialEq, Eq)]
pub struct ClassStats {
    pub count: u64,
    pub sum: u64,
    pub mean: Option<u64>,
    pub std: Option<u64>,
}

/// The filter selecting one window/class group.
pub open spec fn group_pred(st: Settings, s: int, c: int) -> spec_fn(DetectionRecord) -> bool {
    |r: DetectionRecord| group_member(st, s, c, r)
}

/// The variance of a group, floored: the divisor is `n - ddof`.
pub open spec fn variance_spec(g: Seq<DetectionRecord>, ddof: u64) -> int {
    let n = g.len() as int;
    (n * sum_sq_micros(g) - sum_micros(g) * sum_micros(g)) / (n * (n - ddof))
}

/// What correct statistics of a group look like.
pub open spec fn class_stats_ok(cs: ClassStats, g: Seq<DetectionRecord>, ddof: u64) -> bool {
    &&& cs.count == g.len()
    &&& cs.sum == sum_micros(g)
    &&& cs.mean == (if g.len() == 0 {
        None::<u64>
    } else {
        Some((sum_micros(g) / g.len()) as u64)
    })
    &&& cs.std == (if g.len() <= ddof {
        None::<u64>
    } else {
        Some(isqrt_spec(variance_spec(g, ddof)) as u64)
    })
}

/// Compute the statistics of the group of window `s`, class `c`, over the
/// sorted table.
fn class_stats(sorted: &Vec<DetectionRecord>, st: &Settings, s: u64, c: i32) -> (cs: ClassStats)
    requires
        st.wf(),
        sorted@.len() <= 0xFFFF_FFFF,
    ensures
        class_stats_ok(cs, group_rows(sorted@, *st, s as int, c as int), st.ddof),
{
    let ghost pred = group_pred(*st, s as int, c as int);
    let mut count: u64 = 0;
    let mut sum: u64 = 0;
    let mut sumsq: u128 = 0;
    let len: usize = sorted.len();
    let mut i: usize = 0;
    while i < len
        invariant
            st.wf(),
            len == sorted@.len() <= 0xFFFF_FFFF,
            i <= len,
            pred == group_pred(*st, s as int, c as int),
            count == sorted@.take(i as int).filter(pred).len(),
            sum == sum_micros(sorted@.take(i as int).filter(pred)),
            sumsq == sum_sq_micros(sorted@.take(i as int).filter(pred)),
            count <= i,
            sum <= count * 1_000_000,
            sumsq <= (count as u128) * 1_000_000_000_000,
        decreases len - i,
    {
        let r = sorted[i];
        let inc = record_included_exec(&r, st);
        let in_win: bool = s <= r.ts && r.ts - s < st.window_period;
        let is_class: bool = r.class == c;
        let ghost prefix = sorted@.take(i as int);
        let ghost prefix2 = sorted@.take(i as int + 1);
        proof {
            assert(prefix2 =~= prefix.push(sorted@[i as int]));
            prefix.lemma_filter_push(sorted@[i as int], pred);
            broadcast use vstd::prelude::Seq::lemma_filter_len;

        }
        if inc && in_win && is_class {
            let m = crate::fbits::f32_bits_micros(r.score);
            proof {
                assert(pred(sorted@[i as int]) == group_member(*st, s as int, c as int, r));
                assert(in_window(*st, s as int, r.ts));
                assert(pred(sorted@[i as int]));
                let f1 = prefix.filter(pred);
                let f2 = prefix2.filter(pred);
                assert(f2 == f1.push(sorted@[i as int]));
                assert(f2.drop_last() =~= f1);
                assert(f2.last() == sorted@[i as int]);
                assert(sum_micros(f2) == sum_micros(f1) + f32_micros(r.score));
                assert(sum_sq_micros(f2) == sum_sq_micros(f1) + f32_micros(r.score) * f32_micros(
                    r.score,
                ));
                lemma_micros_bounded(r.score);
                assert((m as u128) * (m as u128) <= 1_000_000_000_000) by (nonlinear_arith)
                    requires
                        0 <= m <= 1_000_000,
                ;
            }
            count = count + 1;
            sum = sum + m;
            sumsq = sumsq + (m as u128) * (m as u128);
        } else {
            proof {
                assert(pred(sorted@[i as int]) == group_member(*st, s as int, c as int, r));
                if !inc {
                    assert(!pred(sorted@[i as int]));
                } else if !in_win {
                    assert(!in_window(*st, s as int, r.ts));
                    assert(!pred(sorted@[i as int]));
                } else {
                    assert(!pred(sorted@[i as int]));
                }
                assert(prefix2.filter(pred) == prefix.filter(pred));
            }
        }
        i = i + 1;
    }
    proof {
        assert(sorted@.take(len as int) =~= sorted@);
    }
    let ghost g = group_rows(sorted@, *st, s as int, c as int);
    let mean: Option<u64> = if count == 0 {
        None
    } else {
        Some(sum / count)
    };
    let std: Option<u64> = if count <= st.ddof {
        None
    } else {
        proof {
            lemma_variance_nonneg(g);
            lemma_sum_bounds(g);
            let n = g.len() as int;
            let s1 = sum_micros(g) as int;
            let s2 = sum_sq_micros(g) as int;
            assert((count as u128) * sumsq == n * s2) by (nonlinear_arith)
                requires
                    count as int == n,
                    sumsq as int == s2,
            ;
            assert((sum as u128) * (sum as u128) == s1 * s1) by (nonlinear_arith)
                requires
                    sum as int == s1,
            ;
            assert(n * s2 <= 0x1_0000_0000 * (0x1_0000_0000 * 1_000_000_000_000)) by (nonlinear_arith)
                requires
                    0 <= n <= 0x1_0000_0000,
                    0 <= s2 <= n * 1_000_000_000_000,
            ;
            assert(s1 * s1 <= n * s2);
        }
        let num: u128 = (count as u128) * sumsq - (sum as u128) * (sum as u128);
        proof {
            let n = g.len() as int;
            assert((count as u128) * ((count - st.ddof) as u128) <= 0x1_0000_0000
                * 0x1_0000_0000) by (nonlinear_arith)
                requires
                    0 <= count as int <= 0xFFFF_FFFF + 1,
                    0 <= (count - st.ddof) as int <= count as int,
                    st.ddof <= count,
            ;
        }
        let den: u128 = (count as u128) * ((count - st.ddof) as u128);
        proof {
            let n = g.len() as int;
            let s1 = sum_micros(g) as int;
            let s2 = sum_sq_micros(g) as int;
            let dd = st.ddof as int;
            assert((count as u128) * sumsq == n * s2) by (nonlinear_arith)
                requires
                    count as int == n,
                    sumsq as int == s2,
            ;
            assert((sum as u128) * (sum as u128) == s1 * s1) by (nonlinear_arith)
                requires
                    sum as int == s1,
            ;
            assert(num as int == n * s2 - s1 * s1);
            assert(den as int == n * (n - dd)) by (nonlinear_arith)
                requires
                    count as int == n,
                    dd == st.ddof as int,
                    n > dd,
                    den == (count as u128) * ((count - st.ddof) as u128),
            ;
            assert(den > 0) by (nonlinear_arith)
                requires
                    den as int == n * (n - dd),
                    n > dd,
                    n > 0,
                    dd >= 0,
            ;
            // The variance never exceeds twice the squared score bound.
            assert(num as int <= den as int * 2_000_000_000_000) by (nonlinear_arith)
                requires
                    num as int == n * s2 - s1 * s1,
                    den as int == n * (n - dd),
                    0 <= s2 <= n * 1_000_000_000_000,
                    0 <= s1,
                    0 <= dd <= 1,
                    n > dd,
                    dd == 0 || n >= 2,
            ;
            vstd::arithmetic::div_mod::lemma_div_is_ordered(
                num as int,
                den as int * 2_000_000_000_000,
                den as int,
            );
            vstd::arithmetic::div_mod::lemma_div_by_multiple(2_000_000_000_000, den as int);
            assert((den as int * 2_000_000_000_000) / (den as int) == 2_000_000_000_000) by {
                assert(den as int * 2_000_000_000_000 == 2_000_000_000_000 * den as int)
                    by (nonlinear_arith);
            }
        }
        let var: u128 = num / den;
        proof {
            assert(var as int == variance_spec(g, st.ddof));
            lemma_isqrt_bounds(var as int);
        }
        Some(isqrt(var as u64))
    };
    ClassStats { count, sum, mean, std }
}

/// One emitted window: its boundaries and the five per-class statistics,
/// in class-label order.
#[derive(Debug, Clone, PartialEq, Eq)]
pub struct WindowSummary {
    pub window_start: u64,
    pub window_end: u64,
    pub stats: Vec<ClassStats>,
}

/// The end boundary of the window starting at `s` (saturating at the
/// clock's range).
pub open spec fn window_end_spec(st: Settings, s: u64) -> u64 {
    if s + st.window_period <= u64::MAX {
        (s + st.window_period) as u64
    } else {
        u64::MAX
    }
}

/// The window starting at `s` has at least one included record.
pub open spec fn window_nonempty(t: Seq<DetectionRecord>, st: Settings, s: int) -> bool {
    exists|k: int|
        0 <= k < t.len() && record_included(#[trigger] t[k], st) && in_window(st, s, t[k].ts)
}

/// One correct window summary over the sorted table.
pub open spec fn window_summary_ok(w: WindowSummary, sorted: Seq<DetectionRecord>, st: Settings) -> bool {
    &&& aligned_start(st, w.window_start as int)
    &&& window_nonempty(sorted, st, w.window_start as int)
    &&& w.window_end == window_end_spec(st, w.window_start)
    &&& w.stats@.len() == CLASS_COUNT
    &&& forall|c: int|
        0 <= c < CLASS_COUNT ==> class_stats_ok(
            #[trigger] w.stats@[c],
            group_rows(sorted, st, w.window_start as int, c),
            st.ddof,
        )
}

/// Correct summaries over an already sorted table: sound (every summary
/// is an aligned, populated window with exact statistics), complete
/// (every aligned window holding an included record is summarized), and
/// listed in ascending start order without duplicates.
pub open spec fn summaries_ok_sorted(
    ws: Seq<WindowSummary>,
    sorted: Seq<DetectionRecord>,
    st: Settings,
) -> bool {
    &&& forall|a: int, b: int|
        0 <= a < b < ws.len() ==> #[trigger] ws[a].window_start < #[trigger] ws[b].window_start
    &&& forall|k: int| 0 <= k < ws.len() ==> window_summary_ok(#[trigger] ws[k], sorted, st)
    &&& forall|s: int|
        aligned_start(st, s) && #[trigger] window_nonempty(sorted, st, s) ==> exists|k: int|
            0 <= k < ws.len() && (#[trigger] ws[k]).window_start == s
}

/// Correct summaries of a table in any arrival order: the summaries of
/// its canonical sorted form.
pub open spec fn summaries_ok(
    ws: Seq<WindowSummary>,
    table: Seq<DetectionRecord>,
    st: Settings,
) -> bool {
    summaries_ok_sorted(ws, sorted_table(table), st)
}

/// Windowing is invariant to arrival order: tables holding the same rows
/// in any order accept exactly the same summaries.
pub proof fn lemma_windowing_arrival_order_invariant(
    ws: Seq<WindowSummary>,
    t1: Seq<DetectionRecord>,
    t2: Seq<DetectionRecord>,
    st: Settings,
)
    requires
        t1.to_multiset() == t2.to_multiset(),
    ensures
        summaries_ok(ws, t1, st) == summaries_ok(ws, t2, st),
{
    lemma_sorted_table_of_permutation(t1, t2);
}

/// The canonical sorted form keeps the row count.
pub proof fn lemma_sorted_table_len(t: Seq<DetectionRecord>)
    ensures
        sorted_table(t).len() == t.len(),
{
    broadcast use vstd::seq_lib::group_to_multiset_ensures;

    lemma_record_leq_total();
    t.lemma_sort_by_ensures(record_leq());
    vstd::seq_lib::to_multiset_len(t);
    vstd::seq_lib::to_multiset_len(sorted_table(t));
}

/// Compute the summaries of a sorted table. Boundaries are always
/// carried on each summary and starts are never truncated: the
/// `window_truncate` and `window_include_boundaries` settings are
/// presentation flags with no effect here.
fn build_summaries(sorted: &Vec<DetectionRecord>, st: &Settings) -> (ws: Vec<WindowSummary>)
    requires
        st.wf(),
        sorted@.len() <= 0xFFFF_FFFF,
    ensures
        summaries_ok_sorted(ws@, sorted@, *st),
{
    let len: usize = sorted.len();
    let mut cands: Vec<u64> = Vec::new();
    let mut k: usize = 0;
    while k < len
        invariant
            st.wf(),
            len == sorted@.len(),
            k <= len,
            forall|x: u64|
                #[trigger] cands@.contains(x) ==> exists|j: int|
                    0 <= j < k && record_included(#[trigger] sorted@[j], *st) && covered_start(
                        *st,
                        x as int,
                        sorted@[j].ts,
                    ),
            forall|j: int, x: u64|
                0 <= j < k && record_included(#[trigger] sorted@[j], *st) && covered_start(
                    *st,
                    x as int,
                    sorted@[j].ts,
                ) ==> #[trigger] cands@.contains(x),
        decreases len - k,
    {
        let r = sorted[k];
        if record_included_exec(&r, st) {
            covering_starts_push(st, r.ts, &mut cands);
        }
        k = k + 1;
    }
    let ghost cset = cands@;
    sort_starts(&mut cands);
    proof {
        broadcast use vstd::seq_lib::group_to_multiset_ensures;

        assert forall|x: u64| #[trigger] cands@.contains(x) <==> cset.contains(x) by {
            assert(cands@.to_multiset().count(x) == cset.to_multiset().count(x));
        }
    }
    let starts = dedup_sorted(&cands);
    proof {
        assert forall|x: u64|
            #[trigger] starts@.contains(x) implies exists|j: int|
                0 <= j < sorted@.len() && record_included(#[trigger] sorted@[j], *st)
                    && covered_start(*st, x as int, sorted@[j].ts) by {
            assert(cset.contains(x));
        }
        assert forall|j: int, x: u64|
            0 <= j < sorted@.len() && record_included(#[trigger] sorted@[j], *st) && covered_start(
                *st,
                x as int,
                sorted@[j].ts,
            ) implies #[trigger] starts@.contains(x) by {
            assert(cset.contains(x));
        }
    }

    let mut out: Vec<WindowSummary> = Vec::new();
    let mut k: usize = 0;
    while k < starts.len()
        invariant
            st.wf(),
            sorted@.len() <= 0xFFFF_FFFF,
            k <= starts@.len(),
            out@.len() == k,
            forall|a: int, b: int| 0 <= a < b < starts@.len() ==> starts@[a] < starts@[b],
            forall|x: u64|
                #[trigger] starts@.contains(x) ==> exists|j: int|
                    0 <= j < sorted@.len() && record_included(#[trigger] sorted@[j], *st)
                        && covered_start(*st, x as int, sorted@[j].ts),
            forall|j: int, x: u64|
                0 <= j < sorted@.len() && record_included(#[trigger] sorted@[j], *st)
                    && covered_start(*st, x as int, sorted@[j].ts) ==> #[trigger] starts@.contains(
                    x,
                ),
            forall|m: int| 0 <= m < k ==> (#[trigger] out@[m]).window_start == starts@[m],
            forall|m: int| 0 <= m < k ==> window_summary_ok(#[trigger] out@[m], sorted@, *st),
        decreases starts@.len() - k,
    {
        let s = starts[k];
        proof {
            assert(starts@.contains(s)) by {
                assert(starts@[k as int] == s);
            }
        }
        let mut stv: Vec<ClassStats> = Vec::new();
        let mut c: usize = 0;
        while c < CLASS_COUNT
            invariant
                st.wf(),
                sorted@.len() <= 0xFFFF_FFFF,
                c <= CLASS_COUNT,
                stv@.len() == c,
                forall|cc: int|
                    0 <= cc < c ==> class_stats_ok(
                        #[trigger] stv@[cc],
                        group_rows(sorted@, *st, s as int, cc),
                        st.ddof,
                    ),
            decreases CLASS_COUNT - c,
        {
            let cs = class_stats(sorted, st, s, c as i32);
            stv.push(cs);
            c = c + 1;
        }
        let end: u64 = if s <= u64::MAX - st.window_period {
            s + st.window_period
        } else {
            u64::MAX
        };
        let w = WindowSummary { window_start: s, window_end: end, stats: stv };
        proof {
            let j = choose|j: int|
                0 <= j < sorted@.len() && record_included(#[trigger] sorted@[j], *st)
                    && covered_start(*st, s as int, sorted@[j].ts);
            assert(aligned_start(*st, s as int));
            assert(window_nonempty(sorted@, *st, s as int));
            assert(window_summary_ok(w, sorted@, *st));
        }
        out.push(w);
        k = k + 1;
    }
    proof {
        assert forall|si: int|
            aligned_start(*st, si) && #[trigger] window_nonempty(sorted@, *st, si) implies exists|
            m: int,
        |
            0 <= m < out@.len() && (#[trigger] out@[m]).window_start == si by {
            let j = choose|j: int|
                0 <= j < sorted@.len() && record_included(#[trigger] sorted@[j], *st) && in_window(
                    *st,
                    si,
                    sorted@[j].ts,
                );
            assert(0 <= si <= sorted@[j].ts < 0x10000000000000000);
            let x: u64 = si as u64;
            assert(covered_start(*st, x as int, sorted@[j].ts));
            assert(starts@.contains(x));
            let m = choose|m: int| 0 <= m < starts@.len() && #[trigger] starts@[m] == x;
            assert(out@[m].window_start == si);
        }
    }
    out
}

/// Why an aggregation cycle failed.
#[derive(Debug, Clone, Copy, PartialEq, Eq, Structural)]
pub enum AggError {
    /// The incoming serialized batch is corrupt or truncated; its
    /// contribution is dropped and the table is untouched.
    DecodeFailure,
    /// The batch cannot be merged: the table would outgrow its counters.
    MergeFailure,
}

/// The aggregator element: settings and the append-only detection table.
#[derive(Debug, Clone)]
pub struct DataframeAgg {
    pub settings: Settings,
    table: Vec<DetectionRecord>,
}

impl DataframeAgg {
    /// The rows of the aggregation table, in arrival order.
    pub closed spec fn rows(&self) -> Seq<DetectionRecord> {
        self.table@
    }

    /// The settings the aggregator was built with.
    pub closed spec fn config(&self) -> Settings {
        self.settings
    }

    /// A fresh aggregator with the given settings and an empty table.
    pub fn new(settings: Settings) -> (r: Self)
        ensures
            r.rows().len() == 0,
            r.config() == settings,
    {
        DataframeAgg { settings, table: Vec::new() }
    }

    /// How many rows the table holds.
    pub fn table_len(&self) -> (n: usize)
        ensures
            n == self.rows().len(),
    {
        self.table.len()
    }

    /// The table in its canonical timestamp order.
    pub fn sorted_snapshot(&self) -> (r: Vec<DetectionRecord>)
        ensures
            r@ == sorted_table(self.rows()),
    {
        let mut copy: Vec<DetectionRecord> = Vec::new();
        let len: usize = self.table.len();
        let mut i: usize = 0;
        while i < len
            invariant
                i <= len,
                len == self.table@.len(),
                copy@ == self.table@.take(i as int),
            decreases len - i,
        {
            copy.push(self.table[i]);
            proof {
                assert(copy@ =~= self.table@.take(i as int + 1));
            }
            i = i + 1;
        }
        proof {
            assert(self.table@.take(len as int) =~= self.table@);
        }
        sort_records(&mut copy);
        copy
    }

    /// Drop all rows; an explicit reset of the aggregation table.
    pub fn reset(&mut self)
        ensures
            final(self).rows().len() == 0,
            final(self).config() == old(self).config(),
    {
        self.table = Vec::new();
    }

    /// Consume one serialized batch: deserialize it, append its rows to
    /// the table, and recompute the windowed per-class statistics over
    /// the whole table, re-sorted by timestamp.
    ///
    /// A corrupt batch or one that would overflow the table is rejected
    /// whole: the table keeps its prior rows and the next batch can
    /// still be processed.
    pub fn sink_chain(&mut self, buffer: &Vec<u8>) -> (r: Result<Vec<WindowSummary>, AggError>)
        requires
            old(self).config().wf(),
        ensures
            final(self).config() == old(self).config(),
            r is Err ==> final(self).rows() == old(self).rows(),
            (r matches Err(e) && e == AggError::DecodeFailure) <==> crate::codec::decode_spec(
                buffer@,
            ) is None,
            (r matches Err(e) && e == AggError::MergeFailure) <==> (crate::codec::decode_spec(
                buffer@,
            ) matches Some(m) && old(self).rows().len() + m.records.len() > 0xFFFF_FFFF),
            r is Ok ==> (crate::codec::decode_spec(buffer@) matches Some(m) && final(self).rows()
                == old(self).rows() + m.records && final(self).rows().len() <= 0xFFFF_FFFF),
            r matches Ok(ws) ==> summaries_ok(ws@, final(self).rows(), old(self).config()),
    {
        let batch = match crate::codec::decode(buffer) {
            Ok(b) => b,
            Err(_) => {
                return Err(AggError::DecodeFailure);
            },
        };
        if (self.table.len() as u64) > 0xFFFF_FFFFu64 - (batch.records.len() as u64) {
            return Err(AggError::MergeFailure);
        }
        let ghost old_rows = self.table@;
        let n: usize = batch.records.len();
        let mut k: usize = 0;
        while k < n
            invariant
                k <= n,
                n == batch.records@.len(),
                self.settings == old(self).settings,
                self.table@ == old_rows + batch.records@.take(k as int),
            decreases n - k,
        {
            self.table.push(batch.records[k]);
            proof {
                assert(old_rows + batch.records@.take(k as int + 1) =~= (old_rows
                    + batch.records@.take(k as int)).push(batch.records@[k as int]));
            }
            k = k + 1;
        }
        proof {
            assert(batch.records@.take(n as int) =~= batch.records@);
        }
        let sorted = self.sorted_snapshot();
        proof {
            lemma_sorted_table_len(self.table@);
        }
        let ws = build_summaries(&sorted, &self.settings);
        Ok(ws)
    }
}

impl Default for DataframeAgg {
    /// A fresh aggregator with the default settings.
    fn default() -> (r: Self)
        ensures
            r.rows().len() == 0,
            r.config().wf(),
            r.config().window_interval == DEFAULT_WINDOW_INTERVAL,
            r.config().window_period == DEFAULT_WINDOW_PERIOD,
            r.config().window_offset == DEFAULT_WINDOW_OFFSET,
            r.config().score_threshold == DEFAULT_SCORE_THRESHOLD,
            r.config().ddof == DEFAULT_DDOF,
            r.config().max_size_buffers == DEFAULT_MAX_SIZE_BUFFERS,
            r.config().max_size_duration == DEFAULT_MAX_SIZE_DURATION,
            !r.config().window_truncate,
            r.config().window_include_boundaries,
    {
        DataframeAgg { settings: Settings::default(), table: Vec::new() }
    }
}

/// The newest timestamp of a table, zero when empty.
pub open spec fn max_ts(t: Seq<DetectionRecord>) -> int
    decreases t.len(),
{
    if t.len() == 0 {
        0
    } else if t.last().ts >= max_ts(t.drop_last()) {
        t.last().ts as int
    } else {
        max_ts(t.drop_last())
    }
}

/// The retention filter: a row stays while it is within the configured
/// duration of the newest row.
pub open spec fn retention_pred(st: Settings, m: int) -> spec_fn(DetectionRecord) -> bool {
    |r: DetectionRecord| r.ts + st.max_size_duration >= m
}

/// What the table holds after retention: rows older than
/// `max_size_duration` before the newest row are dropped, then the oldest
/// surplus rows go until at most `max_size_buffers` remain.
pub open spec fn retained_spec(t: Seq<DetectionRecord>, st: Settings) -> Seq<DetectionRecord> {
    let kept = t.filter(retention_pred(st, max_ts(t)));
    if kept.len() <= st.max_size_buffers {
        kept
    } else {
        kept.skip(kept.len() - st.max_size_buffers)
    }
}

impl DataframeAgg {
    /// Enforce the two retention knobs on the table. The aggregation
    /// logic never calls this on its own; the caller decides when to cap
    /// growth (e.g. after each cycle).
    pub fn apply_retention(&mut self)
        ensures
            final(self).config() == old(self).config(),
            final(self).rows() == retained_spec(old(self).rows(), old(self).config()),
    {
        let ghost orig = self.table@;
        let ghost st0 = self.settings;
        let len: usize = self.table.len();
        let mut m: u64 = 0;
        let mut i: usize = 0;
        while i < len
            invariant
                i <= len,
                len == self.table@.len(),
                self.settings == st0,
                self.table@ == orig,
                m as int == max_ts(self.table@.take(i as int)),
            decreases len - i,
        {
            proof {
                let pre = self.table@.take(i as int);
                let post = self.table@.take(i as int + 1);
                assert(post.drop_last() =~= pre);
                assert(post.last() == self.table@[i as int]);
            }
            if self.table[i].ts > m {
                m = self.table[i].ts;
            }
            i = i + 1;
        }
        proof {
            assert(self.table@.take(len as int) =~= self.table@);
        }
        let ghost pred = retention_pred(st0, max_ts(orig));
        let dur: u64 = self.settings.max_size_duration;
        let mut kept: Vec<DetectionRecord> = Vec::new();
        let mut i: usize = 0;
        while i < len
            invariant
                i <= len,
                len == self.table@.len(),
                self.settings == st0,
                self.table@ == orig,
                m as int == max_ts(orig),
                dur == st0.max_size_duration,
                pred == retention_pred(st0, max_ts(orig)),
                kept@ == self.table@.take(i as int).filter(pred),
            decreases len - i,
        {
            let r = self.table[i];
            proof {
                let pre = self.table@.take(i as int);
                let post = self.table@.take(i as int + 1);
                assert(post =~= pre.push(self.table@[i as int]));
                pre.lemma_filter_push(self.table@[i as int], pred);
            }
            let stays: bool = dur >= m || r.ts >= m - dur;
            proof {
                assert(stays == pred(self.table@[i as int]));
            }
            if stays {
                kept.push(r);
            }
            i = i + 1;
        }
        proof {
            assert(self.table@.take(len as int) =~= self.table@);
        }
        let kn: usize = kept.len();
        if (kn as u64) > self.settings.max_size_buffers {
            let start: usize = kn - (self.settings.max_size_buffers as usize);
            let mut capped: Vec<DetectionRecord> = Vec::new();
            let mut i: usize = start;
            while i < kn
                invariant
                    start <= i <= kn,
                    kn == kept@.len(),
                    self.settings == st0,
                    capped@ == kept@.subrange(start as int, i as int),
                decreases kn - i,
            {
                capped.push(kept[i]);
                proof {
                    assert(kept@.subrange(start as int, i as int + 1) =~= kept@.subrange(
                        start as int,
                        i as int,
                    ).push(kept@[i as int]));
                }
                i = i + 1;
            }
            proof {
                assert(capped@ =~= kept@.skip(start as int));
            }
            self.table = capped;
        } else {
            self.table = kept;
        }
    }
}

impl DataframeAgg {
    /// The names of the aggregator's adjustable properties.
    pub fn properties() -> (r: Vec<&'static str>)
        ensures
            r@.len() == 7,
            r@[0]@ == "max-size-buffers"@,
            r@[1]@ == "max-size-duration"@,
            r@[2]@ == "window-interval"@,
            r@[3]@ == "window-period"@,
            r@[4]@ == "window-offset"@,
            r@[5]@ == "window-truncate"@,
            r@[6]@ == "window-include-boundaries"@,
    {
        let mut v: Vec<&'static str> = Vec::new();
        v.push("max-size-buffers");
        v.push("max-size-duration");
        v.push("window-interval");
        v.push("window-period");
        v.push("window-offset");
        v.push("window-truncate");
        v.push("window-include-boundaries");
        v
    }

    /// Read the retention cap on row count.
    pub fn max_size_buffers(&self) -> (r: u64)
        ensures
            r == self.config().max_size_buffers,
    {
        self.settings.max_size_buffers
    }

    /// Read the retention cap on row age.
    pub fn max_size_duration(&self) -> (r: u64)
        ensures
            r == self.config().max_size_duration,
    {
        self.settings.max_size_duration
    }

    /// Adjust the retention cap on row count; the table is untouched.
    pub fn set_max_size_buffers(&mut self, v: u64)
        ensures
            final(self).rows() == old(self).rows(),
            final(self).config() == (Settings { max_size_buffers: v, ..old(self).config() }),
    {
        self.settings.max_size_buffers = v;
    }

    /// Adjust the retention cap on row age; the table is untouched.
    pub fn set_max_size_duration(&mut self, v: u64)
        ensures
            final(self).rows() == old(self).rows(),
            final(self).config() == (Settings { max_size_duration: v, ..old(self).config() }),
    {
        self.settings.max_size_duration = v;
    }
}

} // verus!
