//! The scales: how raw readings of the load cells become per-channel statistics.
//!
//! Readings are integers in thousandths. Each channel's readings are freed of outliers
//! with the interquartile-range rule before their mean and deviation are taken.

use crate::decimal::{
    fields_view, parse_fields, parse_list, parse_milli, parse_milli_spec, split_bytes,
    split_fields, trim, trimmed, MAX_MILLI,
};
use crate::rounding::{div_round, div_round_exec, isqrt, isqrt_spec};
use crate::serial_manager::{reply_hx_spec, SerialFault, SerialManager, SerialManagerError};
use vstd::prelude::*;
use vstd::relations::{sorted_by, total_ordering};
use vstd::seq_lib::lemma_sorted_unique;

verus! {

/// The order of readings.
pub open spec fn leq() -> spec_fn(i64, i64) -> bool {
    |a: i64, b: i64| a <= b
}

/// Every value of `s` is a reading that the wire format can carry.
pub open spec fn in_range(s: Seq<i64>) -> bool {
    forall|i: int| 0 <= i < s.len() ==> -MAX_MILLI <= #[trigger] s[i] <= MAX_MILLI
}

/// The readings of `s` in ascending order.
pub open spec fn sorted(s: Seq<i64>) -> Seq<i64> {
    s.sort_by(leq())
}

/// The lower quartile of `s`: the value a quarter of the way up, no interpolation.
pub open spec fn lower_quartile(s: Seq<i64>) -> int {
    sorted(s)[(s.len() / 4) as int] as int
}

/// The upper quartile of `s`: the value three quarters of the way up.
pub open spec fn upper_quartile(s: Seq<i64>) -> int {
    sorted(s)[(3 * s.len() / 4) as int] as int
}

/// `v` lies strictly within one and a half interquartile ranges of the quartiles.
pub open spec fn is_kept(v: int, q1: int, q3: int) -> bool {
    2 * q1 - 3 * (q3 - q1) < 2 * v < 2 * q3 + 3 * (q3 - q1)
}

/// The values of `s` that lie within the bounds, in the order of `s`.
pub open spec fn kept_values(s: Seq<i64>, q1: int, q3: int) -> Seq<i64>
    decreases s.len(),
{
    if s.len() == 0 {
        Seq::empty()
    } else if is_kept(s.last() as int, q1, q3) {
        kept_values(s.drop_last(), q1, q3).push(s.last())
    } else {
        kept_values(s.drop_last(), q1, q3)
    }
}

/// The readings of `s` that are no outliers.
pub open spec fn inliers(s: Seq<i64>) -> Seq<i64> {
    kept_values(sorted(s), lower_quartile(s), upper_quartile(s))
}

/// The sum of the values of `s`.
pub open spec fn sum_of(s: Seq<i64>) -> int
    decreases s.len(),
{
    if s.len() == 0 {
        0
    } else {
        sum_of(s.drop_last()) + s.last()
    }
}

/// The sum of the squared distances of the values of `s` from `center`.
pub open spec fn sq_dev_of(s: Seq<i64>, center: int) -> int
    decreases s.len(),
{
    if s.len() == 0 {
        0
    } else {
        sq_dev_of(s.drop_last(), center) + (s.last() - center) * (s.last() - center)
    }
}

/// The mean of `s`, rounded to the nearest integer; none for no values.
pub open spec fn mean_of(s: Seq<i64>) -> Option<i64> {
    if s.len() == 0 {
        None
    } else {
        Some(div_round(sum_of(s), s.len() as int) as i64)
    }
}

/// The sample variance of `s` round its rounded mean, with the integer part taken.
pub open spec fn variance_of(s: Seq<i64>) -> int
    recommends
        s.len() >= 2,
{
    sq_dev_of(s, div_round(sum_of(s), s.len() as int)) / (s.len() - 1)
}

/// The sample standard deviation of `s`: the integer part of the square root of its
/// variance; none for fewer than two values.
pub open spec fn stdev_of(s: Seq<i64>) -> Option<i64> {
    if s.len() < 2 {
        None
    } else {
        Some(isqrt_spec(variance_of(s)) as i64)
    }
}

/// The order of readings is total.
pub proof fn lemma_leq_total()
    ensures
        total_ordering(leq()),
{
    let r = leq();
    assert(vstd::relations::reflexive(r));
    assert(vstd::relations::antisymmetric(r));
    assert(vstd::relations::transitive(r));
    assert(vstd::relations::strongly_connected(r));
}

/// The rounded mean of values in range is in range.
pub proof fn lemma_mean_in_range(sum: int, n: int)
    requires
        n > 0,
        -MAX_MILLI * n <= sum <= MAX_MILLI * n,
    ensures
        -MAX_MILLI <= div_round(sum, n) <= MAX_MILLI,
{
    let q = (2 * sum + n) / (2 * n);
    assert(-MAX_MILLI <= q <= MAX_MILLI) by (nonlinear_arith)
        requires
            n > 0,
            -MAX_MILLI * n <= sum <= MAX_MILLI * n,
            q == (2 * sum + n) / (2 * n),
    ;
}

/// The mean and the sample standard deviation of `v`: the mean rounded to the nearest
/// integer, the deviation Bessel-corrected and cut to its integer part.
pub fn mean_and_stdev(v: &Vec<i64>) -> (r: (Option<i64>, Option<i64>))
    requires
        in_range(v@),
    ensures
        r.0 == mean_of(v@),
        r.1 == stdev_of(v@),
        r.0 matches Some(m) ==> -MAX_MILLI <= m <= MAX_MILLI,
        r.1 matches Some(d) ==> d >= 0,
{
    let n: usize = v.len();
    if n == 0 {
        return (None, None);
    }
    let mut sum: i128 = 0;
    let mut i: usize = 0;
    assert(v@.take(0).len() == 0);
    while i < n
        invariant
            n == v@.len(),
            0 <= i <= n,
            in_range(v@),
            sum == sum_of(v@.take(i as int)),
            -1_000_000_000_000 * i <= sum <= 1_000_000_000_000 * i,
        decreases n - i,
    {
        assert(v@.take(i + 1).drop_last() =~= v@.take(i as int));
        assert(-MAX_MILLI <= v@[i as int] <= MAX_MILLI);
        sum = sum + v[i] as i128;
        i = i + 1;
    }
    assert(v@.take(n as int) =~= v@);
    proof {
        lemma_mean_in_range(sum as int, n as int);
    }
    let mean: i128 = div_round_exec(sum, n as u64);
    if n < 2 {
        return (Some(mean as i64), None);
    }
    // The squares are summed as a quotient and a remainder by `n - 1`, so that the sum
    // itself, which may exceed every machine integer, is never held.
    let divisor: u128 = (n - 1) as u128;
    let mut quotient: u128 = 0;
    let mut remainder: u128 = 0;
    let mut k: usize = 0;
    while k < n
        invariant
            n == v@.len(),
            n >= 2,
            divisor == n - 1,
            0 <= k <= n,
            in_range(v@),
            -MAX_MILLI <= mean <= MAX_MILLI,
            quotient * divisor + remainder == sq_dev_of(v@.take(k as int), mean as int),
            remainder < divisor,
            sq_dev_of(v@.take(k as int), mean as int) <= 4_000_000_000_000_000_000_000_000 * k,
            quotient <= 8_000_000_000_000_000_000_000_000,
        decreases n - k,
    {
        assert(v@.take(k + 1).drop_last() =~= v@.take(k as int));
        assert(-MAX_MILLI <= v@[k as int] <= MAX_MILLI);
        let ghost before = sq_dev_of(v@.take(k as int), mean as int);
        let ghost after = sq_dev_of(v@.take(k + 1), mean as int);
        let d: i128 = v[k] as i128 - mean;
        assert(0 <= d * d <= 4_000_000_000_000_000_000_000_000) by (nonlinear_arith)
            requires
                -2_000_000_000_000 <= d <= 2_000_000_000_000,
        ;
        let square: u128 = (d * d) as u128;
        assert(after == before + square);
        let whole: u128 = square / divisor;
        let part: u128 = square % divisor;
        assert(square == whole * divisor + part && part < divisor && whole <= square)
            by (nonlinear_arith)
            requires
                whole == square / divisor,
                part == square % divisor,
                divisor > 0,
        ;
        let mut next_quotient: u128 = quotient + whole;
        let mut next_remainder: u128 = remainder + part;
        if next_remainder >= divisor {
            next_quotient = next_quotient + 1;
            next_remainder = next_remainder - divisor;
        }
        assert(next_quotient * divisor + next_remainder == after) by (nonlinear_arith)
            requires
                quotient * divisor + remainder == before,
                square == whole * divisor + part,
                after == before + square,
                (next_quotient == quotient + whole && next_remainder == remainder + part) || (
                next_quotient == quotient + whole + 1 && next_remainder == remainder + part
                    - divisor),
        ;
        assert(next_quotient <= 8_000_000_000_000_000_000_000_000) by (nonlinear_arith)
            requires
                next_quotient * divisor + next_remainder == after,
                after <= 4_000_000_000_000_000_000_000_000 * (k + 1),
                k + 1 <= divisor + 1,
                divisor >= 1,
                next_remainder >= 0,
                next_quotient >= 0,
        ;
        quotient = next_quotient;
        remainder = next_remainder;
        k = k + 1;
    }
    assert(v@.take(n as int) =~= v@);
    assert(quotient == variance_of(v@)) by (nonlinear_arith)
        requires
            quotient * divisor + remainder == sq_dev_of(v@, mean as int),
            0 <= remainder < divisor,
            divisor == v@.len() - 1,
            variance_of(v@) == sq_dev_of(v@, mean as int) / (v@.len() - 1),
    ;
    let dev: u64 = isqrt(quotient);
    assert(dev < 0x8000_0000_0000_0000) by (nonlinear_arith)
        requires
            dev * dev <= quotient,
            quotient <= 8_000_000_000_000_000_000_000_000,
    ;
    (Some(mean as i64), Some(dev as i64))
}

/// Sorts `v` in ascending order, with `<[i64]>::sort`.
///
/// Trusted: afterwards `v` is in ascending order and holds the values it held before,
/// each as often as before.
#[verifier::external_body]
fn sort_readings(v: &mut Vec<i64>)
    ensures
        sorted_by(final(v)@, leq()),
        final(v)@.to_multiset() == old(v)@.to_multiset(),
{
    v.sort();
}

/// A copy of `v`.
fn copy_readings(v: &Vec<i64>) -> (r: Vec<i64>)
    ensures
        r@ == v@,
{
    let mut r: Vec<i64> = Vec::new();
    let mut i: usize = 0;
    while i < v.len()
        invariant
            0 <= i <= v@.len(),
            r@ =~= v@.take(i as int),
        decreases v@.len() - i,
    {
        r.push(v[i]);
        i = i + 1;
    }
    assert(v@.take(i as int) =~= v@);
    r
}

/// Sorting keeps readings in range.
proof fn lemma_sorted_in_range(s: Seq<i64>)
    requires
        in_range(s),
    ensures
        in_range(sorted(s)),
        sorted(s).len() == s.len(),
        sorted_by(sorted(s), leq()),
        sorted(s).to_multiset() == s.to_multiset(),
{
    lemma_leq_total();
    s.lemma_sort_by_ensures(leq());
    let t = sorted(s);
    s.to_multiset_ensures();
    t.to_multiset_ensures();
    assert forall|i: int| 0 <= i < t.len() implies -MAX_MILLI <= #[trigger] t[i] <= MAX_MILLI by {
        assert(t.contains(t[i]));
        assert(s.contains(t[i]));
        let j = choose|j: int| 0 <= j < s.len() && s[j] == t[i];
        assert(-MAX_MILLI <= s[j] <= MAX_MILLI);
    }
}

/// The readings that are kept are among those given.
proof fn lemma_kept_values(s: Seq<i64>, q1: int, q3: int)
    requires
        in_range(s),
    ensures
        in_range(kept_values(s, q1, q3)),
        kept_values(s, q1, q3).len() <= s.len(),
    decreases s.len(),
{
    if s.len() > 0 {
        assert forall|i: int| 0 <= i < s.drop_last().len() implies -MAX_MILLI
            <= #[trigger] s.drop_last()[i] <= MAX_MILLI by {
            assert(s.drop_last()[i] == s[i]);
        }
        lemma_kept_values(s.drop_last(), q1, q3);
        assert(-MAX_MILLI <= s[s.len() - 1] <= MAX_MILLI);
    }
}

/// The statistics of one channel: the mean and the deviation of the readings that are
/// no outliers, and the number of outliers.
pub fn channel_stats(readings: &Vec<i64>) -> (r: (Option<i64>, Option<i64>, usize))
    requires
        readings@.len() > 0,
        in_range(readings@),
    ensures
        r.0 == mean_of(inliers(readings@)),
        r.1 == stdev_of(inliers(readings@)),
        r.2 == readings@.len() - inliers(readings@).len(),
        r.0 matches Some(m) ==> -MAX_MILLI <= m <= MAX_MILLI,
{
    let mut vals_sorted = copy_readings(readings);
    sort_readings(&mut vals_sorted);
    proof {
        lemma_leq_total();
        lemma_sorted_in_range(readings@);
        lemma_sorted_unique(vals_sorted@, sorted(readings@), leq());
    }
    let n: usize = vals_sorted.len();
    let q1: i64 = vals_sorted[n / 4];
    let q3: i64 = vals_sorted[(3 * (n as u128) / 4) as usize];
    let iqr: i128 = q3 as i128 - q1 as i128;
    let lower: i128 = 2 * (q1 as i128) - 3 * iqr;
    let upper: i128 = 2 * (q3 as i128) + 3 * iqr;
    let mut filtered_vals: Vec<i64> = Vec::new();
    let mut i: usize = 0;
    assert(vals_sorted@.take(0).len() == 0);
    while i < n
        invariant
            n == vals_sorted@.len(),
            0 <= i <= n,
            lower == 2 * q1 - 3 * (q3 - q1),
            upper == 2 * q3 + 3 * (q3 - q1),
            filtered_vals@ == kept_values(vals_sorted@.take(i as int), q1 as int, q3 as int),
        decreases n - i,
    {
        assert(vals_sorted@.take(i + 1).drop_last() =~= vals_sorted@.take(i as int));
        let v: i64 = vals_sorted[i];
        if lower < 2 * (v as i128) && 2 * (v as i128) < upper {
            filtered_vals.push(v);
        }
        i = i + 1;
    }
    assert(vals_sorted@.take(n as int) =~= vals_sorted@);
    proof {
        lemma_kept_values(vals_sorted@, q1 as int, q3 as int);
    }
    let mean_stdev = mean_and_stdev(&filtered_vals);
    (mean_stdev.0, mean_stdev.1, n - filtered_vals.len())
}

/// The rows of `matrix` are equally long.
pub open spec fn is_rectangular<T>(matrix: Seq<Vec<T>>) -> bool {
    forall|i: int| 0 <= i < matrix.len() ==> (#[trigger] matrix[i])@.len() == matrix[0]@.len()
}

/// Turns rows into columns: entry `i` of column `j` is entry `j` of row `i`. No rows
/// give no columns.
pub fn transpose<T: Copy>(matrix: Vec<Vec<T>>) -> (result: Vec<Vec<T>>)
    requires
        is_rectangular(matrix@),
    ensures
        matrix@.len() == 0 ==> result@.len() == 0,
        matrix@.len() > 0 ==> result@.len() == matrix@[0]@.len(),
        forall|j: int|
            0 <= j < result@.len() ==> (#[trigger] result@[j])@.len() == matrix@.len(),
        forall|i: int, j: int|
            0 <= i < matrix@.len() && 0 <= j < result@.len() ==> (#[trigger] result@[j])@[i]
                == (#[trigger] matrix@[i])@[j],
{
    let mut result: Vec<Vec<T>> = Vec::new();
    if matrix.len() == 0 {
        return result;
    }
    let num_rows: usize = matrix.len();
    let num_cols: usize = matrix[0].len();
    let mut j: usize = 0;
    while j < num_cols
        invariant
            num_rows == matrix@.len(),
            num_rows > 0,
            num_cols == matrix@[0]@.len(),
            is_rectangular(matrix@),
            0 <= j <= num_cols,
            result@.len() == j,
            forall|c: int| 0 <= c < j ==> (#[trigger] result@[c])@.len() == num_rows,
            forall|i: int, c: int|
                0 <= i < num_rows && 0 <= c < j ==> (#[trigger] result@[c])@[i]
                    == (#[trigger] matrix@[i])@[c],
        decreases num_cols - j,
    {
        let mut column: Vec<T> = Vec::new();
        let mut i: usize = 0;
        while i < num_rows
            invariant
                num_rows == matrix@.len(),
                num_cols == matrix@[0]@.len(),
                is_rectangular(matrix@),
                0 <= j < num_cols,
                0 <= i <= num_rows,
                column@.len() == i,
                forall|k: int| 0 <= k < i ==> column@[k] == (#[trigger] matrix@[k])@[j as int],
            decreases num_rows - i,
        {
            assert(matrix@[i as int]@.len() == num_cols);
            column.push(matrix[i][j]);
            i = i + 1;
        }
        result.push(column);
        j = j + 1;
    }
    result
}

/// Why the scales could not do what was asked.
#[derive(Debug)]
pub enum BalanzasError {
    /// The number of channels is not known yet.
    NotInitialized,
    /// The device reports more channels than the scales can hold.
    TooManyChannels,
    /// The read failed on the link, or its answer could not be read.
    SerialManagerError(SerialManagerError),
    /// The read holds another number of readings than there are channels.
    LengthMismatch,
    /// Not one of the reads succeeded.
    NoSuccessfulReads,
    /// The known weights or their errors are not one per channel.
    WrongSize,
    /// The offsets have not been calibrated yet.
    OffsetsMissing,
    /// Offsets or slopes have not been calibrated yet.
    NotCalibrated,
    /// A channel has no weight: its raw mean, its offset or its slope is not defined.
    NoWeight,
    /// The line of known weights is not of the form `(w1,w2,...)-error`.
    BadPattern,
    /// A known weight or its error is no decimal.
    BadNumber,
}

/// A [`BalanzasError`] as a plain value.
pub enum ScaleFault {
    NotInitialized,
    TooManyChannels,
    SerialManagerError(SerialFault),
    LengthMismatch,
    NoSuccessfulReads,
    WrongSize,
    OffsetsMissing,
    NotCalibrated,
    NoWeight,
    BadPattern,
    BadNumber,
}

impl View for BalanzasError {
    type V = ScaleFault;

    open spec fn view(&self) -> ScaleFault {
        match self {
            BalanzasError::NotInitialized => ScaleFault::NotInitialized,
            BalanzasError::TooManyChannels => ScaleFault::TooManyChannels,
            BalanzasError::SerialManagerError(e) => ScaleFault::SerialManagerError(e@),
            BalanzasError::LengthMismatch => ScaleFault::LengthMismatch,
            BalanzasError::NoSuccessfulReads => ScaleFault::NoSuccessfulReads,
            BalanzasError::WrongSize => ScaleFault::WrongSize,
            BalanzasError::OffsetsMissing => ScaleFault::OffsetsMissing,
            BalanzasError::NotCalibrated => ScaleFault::NotCalibrated,
            BalanzasError::NoWeight => ScaleFault::NoWeight,
            BalanzasError::BadPattern => ScaleFault::BadPattern,
            BalanzasError::BadNumber => ScaleFault::BadNumber,
        }
    }
}

/// The statistics of all channels: the means, the deviations, the numbers of outliers,
/// and the number of reads that failed.
pub type Stats = (Vec<Option<i64>>, Vec<Option<i64>>, Vec<usize>, usize);

/// What one read gives on scales with `n` channels: the readings, or the fault.
pub open spec fn single_raw(n: Option<u8>, read: Result<Vec<u8>, SerialManagerError>) -> Result<
    Seq<i64>,
    ScaleFault,
> {
    match n {
        None => Err(ScaleFault::NotInitialized),
        Some(n) => match read {
            Err(e) => Err(ScaleFault::SerialManagerError(e@)),
            Ok(reply) => match reply_hx_spec(reply@) {
                Err(fault) => Err(ScaleFault::SerialManagerError(fault)),
                Ok(values) => if values.len() == n {
                    Ok(values)
                } else {
                    Err(ScaleFault::LengthMismatch)
                },
            },
        },
    }
}

/// The readings of those of `reads` that succeeded, in their order.
pub open spec fn good_reads(n: Option<u8>, reads: Seq<Result<Vec<u8>, SerialManagerError>>) -> Seq<
    Seq<i64>,
>
    decreases reads.len(),
{
    if reads.len() == 0 {
        Seq::empty()
    } else {
        match single_raw(n, reads.last()) {
            Ok(values) => good_reads(n, reads.drop_last()).push(values),
            Err(_) => good_reads(n, reads.drop_last()),
        }
    }
}

/// Every one of `reads` failed.
pub open spec fn all_reads_failed(n: Option<u8>, reads: Seq<Result<Vec<u8>, SerialManagerError>>) -> bool {
    forall|i: int| 0 <= i < reads.len() ==> single_raw(n, #[trigger] reads[i]).is_err()
}

/// No read is left exactly where every read failed.
pub proof fn lemma_no_good_reads(n: Option<u8>, reads: Seq<Result<Vec<u8>, SerialManagerError>>)
    ensures
        good_reads(n, reads).len() == 0 <==> all_reads_failed(n, reads),
        good_reads(n, reads).len() <= reads.len(),
    decreases reads.len(),
{
    if reads.len() > 0 {
        let before = reads.drop_last();
        lemma_no_good_reads(n, before);
        if all_reads_failed(n, reads) {
            assert forall|i: int| 0 <= i < before.len() implies single_raw(
                n,
                #[trigger] before[i],
            ).is_err() by {
                assert(before[i] == reads[i]);
            }
            assert(single_raw(n, reads[reads.len() - 1]).is_err());
        }
        if good_reads(n, reads).len() == 0 {
            assert forall|i: int| 0 <= i < reads.len() implies single_raw(
                n,
                #[trigger] reads[i],
            ).is_err() by {
                if i < before.len() {
                    assert(before[i] == reads[i]);
                }
            }
        }
    }
}

/// One read that succeeded is enough for statistics: whatever became of the other
/// reads, scales that know their channel count then have no fault.
pub proof fn lemma_one_good_read_suffices(
    state: ScaleState,
    reads: Seq<Result<Vec<u8>, SerialManagerError>>,
    i: int,
)
    requires
        state.n_balanzas.is_some(),
        0 <= i < reads.len(),
        single_raw(state.n_balanzas, reads[i]).is_ok(),
    ensures
        !all_reads_failed(state.n_balanzas, reads),
        state.raw_fault(reads).is_none(),
        0 < good_reads(state.n_balanzas, reads).len() <= reads.len(),
{
    lemma_no_good_reads(state.n_balanzas, reads);
}

/// The readings of channel `c` in `rows`.
pub open spec fn column(rows: Seq<Seq<i64>>, c: int) -> Seq<i64> {
    Seq::new(rows.len(), |r: int| rows[r][c])
}

/// `v` is a reading that the wire format can carry.
pub open spec fn in_reach(v: i64) -> bool {
    -MAX_MILLI <= v <= MAX_MILLI
}

/// The slope of a channel: the quotient `num / den` of a weight and a raw reading.
#[derive(Debug, Clone, Copy, PartialEq, Eq, Structural)]
pub struct Slope {
    pub num: i64,
    pub den: i64,
}

impl Slope {
    /// The quotient is defined and its terms are differences of readings.
    pub open spec fn wf(self) -> bool {
        &&& self.den != 0
        &&& in_reach(self.den)
        &&& -2 * MAX_MILLI <= self.num <= 2 * MAX_MILLI
    }
}

/// The slope of a channel that reads `raw_mean` under the known weight `weight` and
/// `offset` without load: `(weight - offset) / raw_mean`. None where a term is
/// missing or out of reach, or the raw mean is zero.
pub open spec fn slope_of(weight: i64, offset: Option<i64>, raw_mean: Option<i64>) -> Option<
    Slope,
> {
    match (offset, raw_mean) {
        (Some(o), Some(m)) => if m != 0 && in_reach(weight) && in_reach(o) && in_reach(m) {
            Some(Slope { num: (weight - o) as i64, den: m })
        } else {
            None
        },
        _ => None,
    }
}

/// The weight of a channel that reads `raw_mean`: `slope * raw_mean * offset`, rounded
/// to the nearest thousandth. None where a term is missing or the weight is out of
/// reach.
pub open spec fn weight_of(slope: Option<Slope>, raw_mean: Option<i64>, offset: Option<i64>) -> Option<
    i64,
> {
    match (slope, raw_mean, offset) {
        (Some(s), Some(m), Some(o)) => if s.wf() && in_reach(m) && in_reach(o) {
            let product = s.num * m * o;
            let value = if s.den > 0 {
                div_round(product, s.den * 1000)
            } else {
                div_round(-product, -s.den * 1000)
            };
            if -MAX_MILLI <= value <= MAX_MILLI {
                Some(value as i64)
            } else {
                None
            }
        } else {
            None
        },
        _ => None,
    }
}

/// The slope of each channel.
pub open spec fn slopes_of(
    weights: Seq<i64>,
    offsets: Seq<Option<i64>>,
    raw_means: Seq<Option<i64>>,
) -> Seq<Option<Slope>> {
    Seq::new(weights.len(), |c: int| slope_of(weights[c], offsets[c], raw_means[c]))
}

/// The weight of each channel.
pub open spec fn weights_of(
    slopes: Seq<Option<Slope>>,
    raw_means: Seq<Option<i64>>,
    offsets: Seq<Option<i64>>,
) -> Seq<Option<i64>> {
    Seq::new(raw_means.len(), |c: int| weight_of(slopes[c], raw_means[c], offsets[c]))
}

/// Every channel has a weight.
pub open spec fn all_defined(weights: Seq<Option<i64>>) -> bool {
    forall|c: int| 0 <= c < weights.len() ==> (#[trigger] weights[c]).is_some()
}

/// The slope of a channel from its known weight, its offset and its raw mean.
pub fn slope_for(weight: i64, offset: Option<i64>, raw_mean: Option<i64>) -> (r: Option<Slope>)
    ensures
        r == slope_of(weight, offset, raw_mean),
        r matches Some(s) ==> s.wf(),
{
    match (offset, raw_mean) {
        (Some(o), Some(m)) => {
            if m != 0 && -MAX_MILLI <= weight && weight <= MAX_MILLI && -MAX_MILLI <= o && o
                <= MAX_MILLI && -MAX_MILLI <= m && m <= MAX_MILLI {
                Some(Slope { num: weight - o, den: m })
            } else {
                None
            }
        },
        _ => None,
    }
}

/// The weight of a channel from its slope, its raw mean and its offset.
pub fn calibrated_weight(slope: Option<Slope>, raw_mean: Option<i64>, offset: Option<i64>) -> (r:
    Option<i64>)
    ensures
        r == weight_of(slope, raw_mean, offset),
        r matches Some(w) ==> in_reach(w),
{
    match (slope, raw_mean, offset) {
        (Some(s), Some(m), Some(o)) => {
            if s.den == 0 || s.den < -MAX_MILLI || s.den > MAX_MILLI || s.num < -2 * MAX_MILLI
                || s.num > 2 * MAX_MILLI || m < -MAX_MILLI || m > MAX_MILLI || o < -MAX_MILLI || o
                > MAX_MILLI {
                return None;
            }
            let num: i128 = s.num as i128;
            let mean: i128 = m as i128;
            let off: i128 = o as i128;
            assert(-2_000_000_000_000_000_000_000_000 <= num * mean
                <= 2_000_000_000_000_000_000_000_000) by (nonlinear_arith)
                requires
                    -2_000_000_000_000 <= num <= 2_000_000_000_000,
                    -1_000_000_000_000 <= mean <= 1_000_000_000_000,
            ;
            let partial: i128 = num * mean;
            assert(-2_000_000_000_000_000_000_000_000_000_000_000_000 <= partial * off
                <= 2_000_000_000_000_000_000_000_000_000_000_000_000) by (nonlinear_arith)
                requires
                    -2_000_000_000_000_000_000_000_000 <= partial
                        <= 2_000_000_000_000_000_000_000_000,
                    -1_000_000_000_000 <= off <= 1_000_000_000_000,
            ;
            let product: i128 = partial * off;
            assert(product == s.num * m * o) by (nonlinear_arith)
                requires
                    product == partial * off,
                    partial == num * mean,
                    num == s.num,
                    mean == m,
                    off == o,
            ;
            let value: i128 = if s.den > 0 {
                div_round_exec(product, (s.den as u64) * 1000)
            } else {
                div_round_exec(-product, ((-s.den) as u64) * 1000)
            };
            if value < -(MAX_MILLI as i128) || value > MAX_MILLI as i128 {
                None
            } else {
                Some(value as i64)
            }
        },
        _ => None,
    }
}

/// The scales: how many channels there are, how they are read, and the offsets and
/// slopes found at the last calibration.
#[derive(Debug)]
pub struct Balanzas {
    n_balanzas: Option<u8>,
    n_statistics: usize,
    n_arduino: u8,
    offsets: Option<Vec<Option<i64>>>,
    offset_errors: Option<Vec<Option<i64>>>,
    slopes: Option<Vec<Option<Slope>>>,
}

/// What [`Balanzas`] holds, as plain values.
pub struct ScaleState {
    pub n_balanzas: Option<u8>,
    pub n_statistics: usize,
    pub n_arduino: u8,
    pub offsets: Option<Seq<Option<i64>>>,
    pub offset_errors: Option<Seq<Option<i64>>>,
    pub slopes: Option<Seq<Option<Slope>>>,
}

/// The values of an optional vector of slopes.
pub open spec fn slopes_view(v: Option<Vec<Option<Slope>>>) -> Option<Seq<Option<Slope>>> {
    match v {
        Some(values) => Some(values@),
        None => None,
    }
}

impl ScaleState {
    /// Why no statistics can be drawn from the reads `reads`; none where they can: the
    /// channel count is known, and at least one read succeeded.
    pub open spec fn raw_fault(self, reads: Seq<Result<Vec<u8>, SerialManagerError>>) -> Option<
        ScaleFault,
    > {
        match self.n_balanzas {
            None => Some(ScaleFault::NotInitialized),
            Some(n) => if all_reads_failed(Some(n), reads) {
                Some(ScaleFault::NoSuccessfulReads)
            } else {
                None
            },
        }
    }

    /// Why the slopes cannot be calibrated with the known weights `weights` and
    /// `n_weight_errors` errors of them; none where they can: one of each per channel,
    /// on calibrated offsets.
    pub open spec fn slope_fault(self, weights: Seq<i64>, n_weight_errors: nat) -> Option<
        ScaleFault,
    > {
        match self.n_balanzas {
            None => Some(ScaleFault::NotInitialized),
            Some(n) => if weights.len() != n || n_weight_errors != n {
                Some(ScaleFault::WrongSize)
            } else if !self.has_offsets() {
                Some(ScaleFault::OffsetsMissing)
            } else {
                None
            },
        }
    }

    /// There is an offset and an offset error for each channel.
    pub open spec fn has_offsets(self) -> bool {
        &&& self.n_balanzas matches Some(n)
        &&& self.offsets matches Some(o)
        &&& self.offset_errors matches Some(e)
        &&& o.len() == n
        &&& e.len() == n
    }

    /// There is an offset and a slope for each channel.
    pub open spec fn is_calibrated(self) -> bool {
        &&& self.has_offsets()
        &&& self.n_balanzas matches Some(n)
        &&& self.slopes matches Some(s)
        &&& s.len() == n
    }
}

/// The values of an optional vector.
pub open spec fn optional_view(v: Option<Vec<Option<i64>>>) -> Option<Seq<Option<i64>>> {
    match v {
        Some(values) => Some(values@),
        None => None,
    }
}

impl View for Balanzas {
    type V = ScaleState;

    closed spec fn view(&self) -> ScaleState {
        ScaleState {
            n_balanzas: self.n_balanzas,
            n_statistics: self.n_statistics,
            n_arduino: self.n_arduino,
            offsets: optional_view(self.offsets),
            offset_errors: optional_view(self.offset_errors),
            slopes: slopes_view(self.slopes),
        }
    }
}

/// The mean of each of the `n` channels over the reads that succeeded, outliers left out.
pub open spec fn raw_means(n: u8, reads: Seq<Result<Vec<u8>, SerialManagerError>>) -> Seq<
    Option<i64>,
> {
    let rows = good_reads(Some(n), reads);
    Seq::new(n as nat, |c: int| mean_of(inliers(column(rows, c))))
}

/// The deviation of each of the `n` channels over the reads that succeeded, outliers
/// left out.
pub open spec fn raw_stdevs(n: u8, reads: Seq<Result<Vec<u8>, SerialManagerError>>) -> Seq<
    Option<i64>,
> {
    let rows = good_reads(Some(n), reads);
    Seq::new(n as nat, |c: int| stdev_of(inliers(column(rows, c))))
}

/// The number of outliers in each of the `n` channels.
pub open spec fn raw_outliers(n: u8, reads: Seq<Result<Vec<u8>, SerialManagerError>>) -> Seq<
    usize,
> {
    let rows = good_reads(Some(n), reads);
    Seq::new(n as nat, |c: int| (rows.len() - inliers(column(rows, c)).len()) as usize)
}

/// The statistics `stats` are those of the reads `reads` on scales with `n` channels.
pub open spec fn is_stats_of(
    stats: Stats,
    n: u8,
    reads: Seq<Result<Vec<u8>, SerialManagerError>>,
) -> bool {
    &&& stats.0@ == raw_means(n, reads)
    &&& stats.1@ == raw_stdevs(n, reads)
    &&& stats.2@ == raw_outliers(n, reads)
    &&& stats.3 == reads.len() - good_reads(Some(n), reads).len()
}

/// What the scales weigh, as plain values: the weight of each channel, and the raw
/// statistics that the weights were taken from.
pub struct Weighing {
    pub weights: Seq<i64>,
    pub raw_means: Seq<Option<i64>>,
    pub raw_stdevs: Seq<Option<i64>>,
    pub outliers: Seq<usize>,
    pub n_failed: usize,
}

/// What a weighing gave, as a plain value.
pub open spec fn weighing_view(r: Result<(Vec<i64>, Stats), BalanzasError>) -> Result<
    Weighing,
    ScaleFault,
> {
    match r {
        Ok(found) => Ok(
            Weighing {
                weights: found.0@,
                raw_means: found.1.0@,
                raw_stdevs: found.1.1@,
                outliers: found.1.2@,
                n_failed: found.1.3,
            },
        ),
        Err(e) => Err(e@),
    }
}

impl ScaleState {
    /// What the scales weigh from the reads `reads`: for each channel its slope times
    /// its raw mean times its offset.
    ///
    /// Offsets and slopes must be calibrated, statistics must be had from the reads, and
    /// every channel must have a weight.
    pub open spec fn weigh(self, reads: Seq<Result<Vec<u8>, SerialManagerError>>) -> Result<
        Weighing,
        ScaleFault,
    > {
        match self.n_balanzas {
            None => Err(ScaleFault::NotInitialized),
            Some(n) => if !self.is_calibrated() {
                Err(ScaleFault::NotCalibrated)
            } else if self.raw_fault(reads).is_some() {
                Err(self.raw_fault(reads).unwrap())
            } else {
                let weights = weights_of(
                    self.slopes.unwrap(),
                    raw_means(n, reads),
                    self.offsets.unwrap(),
                );
                if !all_defined(weights) {
                    Err(ScaleFault::NoWeight)
                } else {
                    Ok(
                        Weighing {
                            weights: Seq::new(n as nat, |c: int| weights[c].unwrap()),
                            raw_means: raw_means(n, reads),
                            raw_stdevs: raw_stdevs(n, reads),
                            outliers: raw_outliers(n, reads),
                            n_failed: (reads.len() - good_reads(Some(n), reads).len()) as usize,
                        },
                    )
                }
            },
        }
    }
}

/// A copy of `v`.
fn copy_optionals(v: &Vec<Option<i64>>) -> (r: Vec<Option<i64>>)
    ensures
        r@ == v@,
{
    let mut r: Vec<Option<i64>> = Vec::new();
    let mut i: usize = 0;
    while i < v.len()
        invariant
            0 <= i <= v@.len(),
            r@ =~= v@.take(i as int),
        decreases v@.len() - i,
    {
        r.push(v[i]);
        i = i + 1;
    }
    assert(v@.take(i as int) =~= v@);
    r
}

/// A copy of `v`.
fn copy_slopes(v: &Vec<Option<Slope>>) -> (r: Vec<Option<Slope>>)
    ensures
        r@ == v@,
{
    let mut r: Vec<Option<Slope>> = Vec::new();
    let mut i: usize = 0;
    while i < v.len()
        invariant
            0 <= i <= v@.len(),
            r@ =~= v@.take(i as int),
        decreases v@.len() - i,
    {
        r.push(v[i]);
        i = i + 1;
    }
    assert(v@.take(i as int) =~= v@);
    r
}

impl Clone for Balanzas {
    fn clone(&self) -> (r: Self)
        ensures
            r@ == self@,
    {
        Balanzas {
            n_balanzas: self.n_balanzas,
            n_statistics: self.n_statistics,
            n_arduino: self.n_arduino,
            offsets: match &self.offsets {
                Some(v) => Some(copy_optionals(v)),
                None => None,
            },
            offset_errors: match &self.offset_errors {
                Some(v) => Some(copy_optionals(v)),
                None => None,
            },
            slopes: match &self.slopes {
                Some(v) => Some(copy_slopes(v)),
                None => None,
            },
        }
    }
}

impl Balanzas {
    /// Scales that take `n_statistics` reads for one statistic and ask the device to
    /// average `n_arduino` conversions for one read. The number of channels is not known
    /// yet, and nothing is calibrated.
    pub fn new(n_statistics: usize, n_arduino: u8) -> (r: Balanzas)
        ensures
            r@ == (ScaleState {
                n_balanzas: None,
                n_statistics,
                n_arduino,
                offsets: None,
                offset_errors: None,
                slopes: None,
            }),
    {
        Balanzas {
            n_balanzas: None,
            n_statistics,
            n_arduino,
            offsets: None,
            offset_errors: None,
            slopes: None,
        }
    }

    /// Puts scales together from stored values.
    pub fn restore(
        n_balanzas: Option<u8>,
        n_statistics: usize,
        n_arduino: u8,
        offsets: Option<Vec<Option<i64>>>,
        offset_errors: Option<Vec<Option<i64>>>,
        slopes: Option<Vec<Option<Slope>>>,
    ) -> (r: Balanzas)
        ensures
            r@ == (ScaleState {
                n_balanzas,
                n_statistics,
                n_arduino,
                offsets: optional_view(offsets),
                offset_errors: optional_view(offset_errors),
                slopes: slopes_view(slopes),
            }),
    {
        Balanzas { n_balanzas, n_statistics, n_arduino, offsets, offset_errors, slopes }
    }

    pub fn n_balanzas(&self) -> (r: Option<u8>)
        ensures
            r == self@.n_balanzas,
    {
        self.n_balanzas
    }

    pub fn n_statistics(&self) -> (r: usize)
        ensures
            r == self@.n_statistics,
    {
        self.n_statistics
    }

    pub fn n_arduino(&self) -> (r: u8)
        ensures
            r == self@.n_arduino,
    {
        self.n_arduino
    }

    /// The raw means without load, where they have been calibrated.
    pub fn offsets(&self) -> (r: &Option<Vec<Option<i64>>>)
        ensures
            optional_view(*r) == self@.offsets,
    {
        &self.offsets
    }

    /// The raw deviations without load, where they have been calibrated.
    pub fn offset_errors(&self) -> (r: &Option<Vec<Option<i64>>>)
        ensures
            optional_view(*r) == self@.offset_errors,
    {
        &self.offset_errors
    }

    /// The slopes, where they have been calibrated.
    pub fn slopes(&self) -> (r: &Option<Vec<Option<Slope>>>)
        ensures
            slopes_view(*r) == self@.slopes,
    {
        &self.slopes
    }

    /// Takes the number of channels that the device reported.
    pub fn begin(&mut self, hx_n: usize) -> (r: Result<(), BalanzasError>)
        ensures
            r.is_ok() <==> hx_n <= 255,
            r matches Ok(_) ==> final(self)@ == (ScaleState {
                n_balanzas: Some(hx_n as u8),
                ..old(self)@
            }),
            r matches Err(e) ==> e@ == ScaleFault::TooManyChannels && final(self)@ == old(self)@,
        no_unwind
    {
        if hx_n > 255 {
            return Err(BalanzasError::TooManyChannels);
        }
        self.n_balanzas = Some(hx_n as u8);
        Ok(())
    }

    /// The line that asks the device for one read.
    pub fn read_command(&self) -> (cmd: Vec<u8>)
        ensures
            cmd@ == crate::serial_manager::cmd_hx_text(self@.n_arduino),
    {
        SerialManager::cmd_hx(self.n_arduino)
    }

    /// Takes one read from the outcome of its exchange: the readings of all channels,
    /// which must be as many as there are channels.
    pub fn read_single_raw(&self, read: &Result<Vec<u8>, SerialManagerError>) -> (r: Result<
        Vec<i64>,
        BalanzasError,
    >)
        ensures
            match r {
                Ok(values) => single_raw(self@.n_balanzas, *read) == Ok::<Seq<i64>, ScaleFault>(
                    values@,
                ) && in_range(values@),
                Err(e) => single_raw(self@.n_balanzas, *read) == Err::<Seq<i64>, ScaleFault>(e@),
            },
    {
        match self.n_balanzas {
            None => Err(BalanzasError::NotInitialized),
            Some(n_balanzas) => match read {
                Err(e) => Err(BalanzasError::SerialManagerError(e.clone())),
                Ok(reply) => match SerialManager::reply_hx(reply.as_slice()) {
                    Err(e) => Err(BalanzasError::SerialManagerError(e)),
                    Ok(raw_values) => {
                        if raw_values.len() != n_balanzas as usize {
                            Err(BalanzasError::LengthMismatch)
                        } else {
                            Ok(raw_values)
                        }
                    },
                },
            },
        }
    }

    /// The statistics of the reads whose exchanges ended as `reads` says. Reads that
    /// failed are passed over and counted; the statistic fails only where none is left.
    pub fn read_stats_raw(&self, reads: &Vec<Result<Vec<u8>, SerialManagerError>>) -> (r: Result<
        Stats,
        BalanzasError,
    >)
        ensures
            match self@.raw_fault(reads@) {
                Some(fault) => r matches Err(e) && e@ == fault,
                None => r matches Ok(stats) && is_stats_of(
                    stats,
                    self@.n_balanzas.unwrap(),
                    reads@,
                ),
            },
            self@.n_balanzas.is_some() ==> (r.is_err() <==> all_reads_failed(
                self@.n_balanzas,
                reads@,
            )),
            self@.n_balanzas.is_some() ==> (r matches Err(e) ==> e@
                == ScaleFault::NoSuccessfulReads),
            r matches Ok(stats) ==> (self@.n_balanzas matches Some(n) && stats.0@.len() == n
                && stats.1@.len() == n && stats.2@.len() == n && stats.3 == reads@.len()
                - good_reads(Some(n), reads@).len() && stats.3 < reads@.len()),
    {
        let n_balanzas: u8 = match self.n_balanzas {
            None => {
                return Err(BalanzasError::NotInitialized);
            },
            Some(n) => n,
        };
        let ghost rows = good_reads(Some(n_balanzas), reads@);
        proof {
            lemma_no_good_reads(Some(n_balanzas), reads@);
        }
        let mut list_of_raw_vals: Vec<Vec<i64>> = Vec::new();
        let mut k: usize = 0;
        assert(reads@.take(0).len() == 0);
        while k < reads.len()
            invariant
                0 <= k <= reads@.len(),
                self@.n_balanzas == Some(n_balanzas),
                list_of_raw_vals@.len() == good_reads(Some(n_balanzas), reads@.take(k as int)).len(),
                list_of_raw_vals@.len() <= k,
                forall|i: int|
                    0 <= i < list_of_raw_vals@.len() ==> (#[trigger] list_of_raw_vals@[i])@
                        == good_reads(Some(n_balanzas), reads@.take(k as int))[i],
                forall|i: int|
                    0 <= i < list_of_raw_vals@.len() ==> (#[trigger] list_of_raw_vals@[i])@.len()
                        == n_balanzas && in_range(list_of_raw_vals@[i]@),
            decreases reads@.len() - k,
        {
            assert(reads@.take(k + 1).drop_last() =~= reads@.take(k as int));
            assert(reads@.take(k + 1).last() == reads@[k as int]);
            match self.read_single_raw(&reads[k]) {
                Err(_) => {},
                Ok(raw) => {
                    list_of_raw_vals.push(raw);
                },
            }
            k = k + 1;
        }
        assert(reads@.take(k as int) =~= reads@);
        if list_of_raw_vals.len() == 0 {
            return Err(BalanzasError::NoSuccessfulReads);
        }
        let n_completed: usize = list_of_raw_vals.len();
        let n_error: usize = reads.len() - n_completed;
        let ghost kept = list_of_raw_vals@;
        let vals = transpose(list_of_raw_vals);
        let mut means_filtered: Vec<Option<i64>> = Vec::new();
        let mut stdevs_filtered: Vec<Option<i64>> = Vec::new();
        let mut n_filtered_vals: Vec<usize> = Vec::new();
        let mut c: usize = 0;
        while c < vals.len()
            invariant
                0 <= c <= vals@.len(),
                vals@.len() == n_balanzas,
                n_completed == rows.len(),
                0 < n_completed,
                kept.len() == rows.len(),
                forall|i: int| 0 <= i < kept.len() ==> (#[trigger] kept[i])@ == rows[i],
                forall|i: int|
                    0 <= i < kept.len() ==> (#[trigger] kept[i])@.len() == n_balanzas && in_range(
                        kept[i]@,
                    ),
                forall|j: int| 0 <= j < vals@.len() ==> (#[trigger] vals@[j])@.len() == kept.len(),
                forall|i: int, j: int|
                    0 <= i < kept.len() && 0 <= j < vals@.len() ==> (#[trigger] vals@[j])@[i] == (
                    #[trigger] kept[i])@[j],
                means_filtered@.len() == c,
                stdevs_filtered@.len() == c,
                n_filtered_vals@.len() == c,
                forall|j: int|
                    0 <= j < c ==> (#[trigger] means_filtered@[j]) == mean_of(
                        inliers(column(rows, j)),
                    ),
                forall|j: int|
                    0 <= j < c ==> (#[trigger] stdevs_filtered@[j]) == stdev_of(
                        inliers(column(rows, j)),
                    ),
                forall|j: int|
                    0 <= j < c ==> (#[trigger] n_filtered_vals@[j]) == rows.len() - inliers(
                        column(rows, j),
                    ).len(),
            decreases vals@.len() - c,
        {
            let vals_ref = &vals[c];
            proof {
                assert(vals_ref@.len() == kept.len());
                assert forall|i: int| 0 <= i < vals_ref@.len() implies vals_ref@[i] == column(
                    rows,
                    c as int,
                )[i] by {
                    assert(vals@[c as int]@[i] == kept[i]@[c as int]);
                }
                assert(vals_ref@ =~= column(rows, c as int));
                assert forall|i: int| 0 <= i < vals_ref@.len() implies -MAX_MILLI
                    <= #[trigger] vals_ref@[i] <= MAX_MILLI by {
                    assert(vals@[c as int]@[i] == kept[i]@[c as int]);
                }
            }
            let stats = channel_stats(vals_ref);
            means_filtered.push(stats.0);
            stdevs_filtered.push(stats.1);
            n_filtered_vals.push(stats.2);
            c = c + 1;
        }
        proof {
            assert(means_filtered@ =~= raw_means(n_balanzas, reads@));
            assert(stdevs_filtered@ =~= raw_stdevs(n_balanzas, reads@));
            assert(n_filtered_vals@ =~= raw_outliers(n_balanzas, reads@));
        }
        Ok((means_filtered, stdevs_filtered, n_filtered_vals, n_error))
    }

    /// Calibrates the offsets from reads taken without load: the raw means and
    /// deviations are kept as offsets and offset errors.
    pub fn calibrate_offset(&mut self, reads: &Vec<Result<Vec<u8>, SerialManagerError>>) -> (r:
        Result<(), BalanzasError>)
        ensures
            match old(self)@.raw_fault(reads@) {
                Some(fault) => r matches Err(e) && e@ == fault && final(self)@ == old(self)@,
                None => r.is_ok() && final(self)@ == (ScaleState {
                    offsets: Some(raw_means(old(self)@.n_balanzas.unwrap(), reads@)),
                    offset_errors: Some(raw_stdevs(old(self)@.n_balanzas.unwrap(), reads@)),
                    ..old(self)@
                }),
            },
    {
        match self.read_stats_raw(reads) {
            Err(e) => Err(e),
            Ok(stats) => {
                self.offsets = Some(stats.0);
                self.offset_errors = Some(stats.1);
                Ok(())
            },
        }
    }

    /// Tells why the slopes cannot be calibrated with these inputs, if they cannot.
    fn slope_fault(&self, weights: &Vec<i64>, n_weight_errors: usize) -> (r: Option<BalanzasError>)
        ensures
            match r {
                Some(e) => self@.slope_fault(weights@, n_weight_errors as nat) == Some(e@),
                None => self@.slope_fault(weights@, n_weight_errors as nat).is_none(),
            },
    {
        match self.n_balanzas {
            None => Some(BalanzasError::NotInitialized),
            Some(n) => {
                if weights.len() != n as usize || n_weight_errors != n as usize {
                    return Some(BalanzasError::WrongSize);
                }
                match (&self.offsets, &self.offset_errors) {
                    (Some(o), Some(e)) => {
                        if o.len() != n as usize || e.len() != n as usize {
                            Some(BalanzasError::OffsetsMissing)
                        } else {
                            None
                        }
                    },
                    _ => Some(BalanzasError::OffsetsMissing),
                }
            },
        }
    }

    /// Calibrates the slopes from reads taken under the known weights `weights`: the
    /// slope of a channel is its known weight less its offset, over its raw mean. Gives
    /// the raw statistics of the reads.
    ///
    /// There must be one known weight and one error of it per channel, and the offsets
    /// must be calibrated.
    pub fn calibrate_slope(
        &mut self,
        reads: &Vec<Result<Vec<u8>, SerialManagerError>>,
        weights: &Vec<i64>,
        weight_errors: &Vec<i64>,
    ) -> (r: Result<Stats, BalanzasError>)
        ensures
            match old(self)@.slope_fault(weights@, weight_errors@.len()) {
                Some(fault) => r matches Err(e) && e@ == fault,
                None => if old(self)@.raw_fault(reads@).is_some() {
                    r matches Err(e) && Some(e@) == old(self)@.raw_fault(reads@)
                } else {
                    r matches Ok(stats) && is_stats_of(
                        stats,
                        old(self)@.n_balanzas.unwrap(),
                        reads@,
                    ) && final(self)@ == (ScaleState {
                        slopes: Some(
                            slopes_of(
                                weights@,
                                old(self)@.offsets.unwrap(),
                                raw_means(old(self)@.n_balanzas.unwrap(), reads@),
                            ),
                        ),
                        ..old(self)@
                    })
                },
            },
            r.is_err() ==> final(self)@ == old(self)@,
    {
        match self.slope_fault(weights, weight_errors.len()) {
            Some(e) => {
                return Err(e);
            },
            None => {},
        }
        let stats = match self.read_stats_raw(reads) {
            Err(e) => {
                return Err(e);
            },
            Ok(stats) => stats,
        };
        let ghost n = self@.n_balanzas.unwrap();
        let ghost expected = slopes_of(weights@, self@.offsets.unwrap(), raw_means(n, reads@));
        let mut slopes: Vec<Option<Slope>> = Vec::new();
        match &self.offsets {
            None => {},
            Some(offsets) => {
                let mut c: usize = 0;
                while c < weights.len()
                    invariant
                        0 <= c <= weights@.len(),
                        weights@.len() == n,
                        offsets@.len() == n,
                        stats.0@.len() == n,
                        stats.0@ == raw_means(n, reads@),
                        expected == slopes_of(weights@, offsets@, raw_means(n, reads@)),
                        slopes@.len() == c,
                        forall|j: int| 0 <= j < c ==> #[trigger] slopes@[j] == expected[j],
                    decreases weights@.len() - c,
                {
                    slopes.push(slope_for(weights[c], offsets[c], stats.0[c]));
                    c = c + 1;
                }
            },
        }
        assert(slopes@ =~= expected);
        self.slopes = Some(slopes);
        Ok(stats)
    }

    /// The weights of the channels from the reads whose exchanges ended as `reads` says,
    /// and the raw statistics of the reads beside them.
    #[verifier::loop_isolation(false)]
    pub fn read_stats(&self, reads: &Vec<Result<Vec<u8>, SerialManagerError>>) -> (r: Result<
        (Vec<i64>, Stats),
        BalanzasError,
    >)
        ensures
            weighing_view(r) == self@.weigh(reads@),
    {
        let n: u8 = match self.n_balanzas {
            None => {
                return Err(BalanzasError::NotInitialized);
            },
            Some(n) => n,
        };
        match (&self.offsets, &self.offset_errors, &self.slopes) {
            (Some(offsets), Some(offset_errors), Some(slopes)) => {
                if offsets.len() != n as usize || offset_errors.len() != n as usize || slopes.len()
                    != n as usize {
                    return Err(BalanzasError::NotCalibrated);
                }
                let stats = match self.read_stats_raw(reads) {
                    Err(e) => {
                        return Err(e);
                    },
                    Ok(stats) => stats,
                };
                let ghost weights = weights_of(slopes@, raw_means(n, reads@), offsets@);
                let mut means: Vec<i64> = Vec::new();
                let mut c: usize = 0;
                while c < n as usize
                    invariant
                        0 <= c <= n,
                        offsets@.len() == n,
                        slopes@.len() == n,
                        stats.0@.len() == n,
                        stats.0@ == raw_means(n, reads@),
                        weights == weights_of(slopes@, raw_means(n, reads@), offsets@),
                        means@.len() == c,
                        forall|j: int| 0 <= j < c ==> Some(#[trigger] means@[j]) == weights[j],
                    decreases n - c,
                {
                    match calibrated_weight(slopes[c], stats.0[c], offsets[c]) {
                        None => {
                            assert(weights[c as int].is_none());
                            return Err(BalanzasError::NoWeight);
                        },
                        Some(w) => {
                            means.push(w);
                        },
                    }
                    c = c + 1;
                }
                assert(all_defined(weights)) by {
                    assert forall|j: int| 0 <= j < weights.len() implies (
                    #[trigger] weights[j]).is_some() by {
                        assert(Some(means@[j]) == weights[j]);
                    }
                }
                assert(means@ =~= Seq::new(n as nat, |c: int| weights[c].unwrap())) by {
                    assert forall|j: int| 0 <= j < n implies means@[j] == weights[j].unwrap() by {
                        assert(Some(means@[j]) == weights[j]);
                    }
                }
                Ok((means, stats))
            },
            _ => Err(BalanzasError::NotCalibrated),
        }
    }
}

/// Blanks and round brackets, which a line of known weights may hold anywhere.
pub open spec fn is_padding(b: u8) -> bool {
    b == 32 || b == 40 || b == 41
}

/// `s` without blanks and round brackets.
pub open spec fn strip_padding(s: Seq<u8>) -> Seq<u8>
    decreases s.len(),
{
    if s.len() == 0 {
        Seq::empty()
    } else if is_padding(s.last()) {
        strip_padding(s.drop_last())
    } else {
        strip_padding(s.drop_last()).push(s.last())
    }
}

/// The known weights and their errors that the line `(w1,w2,...)-error` gives: the
/// weights as listed, and the one error for each of them.
pub open spec fn known_weights_spec(line: Seq<u8>) -> Result<(Seq<i64>, Seq<i64>), ScaleFault> {
    let parts = split_fields(strip_padding(line), 45);
    if parts.len() != 2 {
        Err(ScaleFault::BadPattern)
    } else {
        match (parse_fields(split_fields(parts[0], 44)), parse_milli_spec(trimmed(parts[1]))) {
            (Some(weights), Some(error)) => Ok(
                (weights, Seq::new(weights.len(), |i: int| error)),
            ),
            _ => Err(ScaleFault::BadNumber),
        }
    }
}

/// Reads the line on which the known weights are given for the calibration of the
/// slopes: `(w1,w2,...)-error`, in which blanks and brackets do not count.
pub fn parse_known_weights(line: &[u8]) -> (r: Result<(Vec<i64>, Vec<i64>), BalanzasError>)
    ensures
        match r {
            Ok(known) => known_weights_spec(line@) == Ok::<(Seq<i64>, Seq<i64>), ScaleFault>(
                (known.0@, known.1@),
            ) && in_range(known.0@) && in_range(known.1@),
            Err(e) => known_weights_spec(line@) == Err::<(Seq<i64>, Seq<i64>), ScaleFault>(e@),
        },
{
    let mut clean: Vec<u8> = Vec::new();
    let mut i: usize = 0;
    assert(line@.take(0).len() == 0);
    while i < line.len()
        invariant
            0 <= i <= line@.len(),
            clean@ == strip_padding(line@.take(i as int)),
        decreases line@.len() - i,
    {
        assert(line@.take(i + 1).drop_last() =~= line@.take(i as int));
        let b: u8 = line[i];
        if !(b == 32 || b == 40 || b == 41) {
            clean.push(b);
        }
        i = i + 1;
    }
    assert(line@.take(i as int) =~= line@);
    let parts = split_bytes(clean.as_slice(), 45);
    if parts.len() != 2 {
        return Err(BalanzasError::BadPattern);
    }
    assert(fields_view(parts@)[0] == parts@[0]@);
    assert(fields_view(parts@)[1] == parts@[1]@);
    let fields = split_bytes(parts[0].as_slice(), 44);
    let weights: Vec<i64> = match parse_list(&fields) {
        Some(weights) => weights,
        None => {
            return Err(BalanzasError::BadNumber);
        },
    };
    let text = trim(parts[1].as_slice());
    let error: i64 = match parse_milli(text.as_slice()) {
        Some(error) => error,
        None => {
            return Err(BalanzasError::BadNumber);
        },
    };
    let mut weight_errors: Vec<i64> = Vec::new();
    let mut k: usize = 0;
    while k < weights.len()
        invariant
            0 <= k <= weights@.len(),
            weight_errors@.len() == k,
            forall|j: int| 0 <= j < k ==> weight_errors@[j] == error,
        decreases weights@.len() - k,
    {
        weight_errors.push(error);
        k = k + 1;
    }
    assert(weight_errors@ =~= Seq::new(weights@.len(), |i: int| error));
    Ok((weights, weight_errors))
}

} // verus!
