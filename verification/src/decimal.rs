//! Text on the wire and in the log: bytes, whole numbers, and fixed-point decimals.
//!
//! A measured quantity is an integer in thousandths of its unit, written with three
//! decimals.

use vstd::prelude::*;
use vstd::string::StringSliceAdditionalSpecFns;

verus! {

/// The largest magnitude, in thousandths, that a decimal read from text may have.
pub const MAX_MILLI: i64 = 1_000_000_000_000;

/// `b` is one of the digits `0` to `9`.
pub open spec fn is_digit(b: u8) -> bool {
    48 <= b <= 57
}

/// The ASCII white space: blank, tab, line feed, vertical tab, form feed, carriage return.
pub open spec fn is_space(b: u8) -> bool {
    b == 32 || (9 <= b <= 13)
}

/// The decimal digits of `n`, most significant first.
pub open spec fn digits_text(n: nat) -> Seq<u8>
    decreases n,
{
    if n < 10 {
        seq![(48 + n) as u8]
    } else {
        digits_text(n / 10).push((48 + n % 10) as u8)
    }
}

/// `v` in decimal, with a minus sign where it is negative.
pub open spec fn int_text(v: int) -> Seq<u8> {
    if v < 0 {
        seq![45u8] + digits_text((-v) as nat)
    } else {
        digits_text(v as nat)
    }
}

/// The three decimals of `frac` thousandths.
pub open spec fn decimals_text(frac: int) -> Seq<u8> {
    seq![(48 + frac / 100) as u8, (48 + (frac / 10) % 10) as u8, (48 + frac % 10) as u8]
}

/// `m` thousandths as a decimal with three places.
pub open spec fn magnitude_text(m: nat) -> Seq<u8> {
    digits_text(m / 1000) + seq![46u8] + decimals_text((m % 1000) as int)
}

/// `v` thousandths as a decimal with three places, such as `-12.050` for -12050.
pub open spec fn milli_text(v: int) -> Seq<u8> {
    if v < 0 {
        seq![45u8] + magnitude_text((-v) as nat)
    } else {
        magnitude_text(v as nat)
    }
}

/// `s` without its leading white space.
pub open spec fn trim_start(s: Seq<u8>) -> Seq<u8>
    decreases s.len(),
{
    if s.len() > 0 && is_space(s[0]) {
        trim_start(s.skip(1))
    } else {
        s
    }
}

/// `s` without its trailing white space.
pub open spec fn trim_end(s: Seq<u8>) -> Seq<u8>
    decreases s.len(),
{
    if s.len() > 0 && is_space(s.last()) {
        trim_end(s.drop_last())
    } else {
        s
    }
}

/// `s` without the white space at either end.
pub open spec fn trimmed(s: Seq<u8>) -> Seq<u8> {
    trim_end(trim_start(s))
}

/// `pat` occurs in `s` as a run of consecutive bytes.
pub open spec fn has_subseq(s: Seq<u8>, pat: Seq<u8>) -> bool {
    exists|i: int| 0 <= i && i + pat.len() <= s.len() && #[trigger] s.subrange(i, i + pat.len()) == pat
}

/// The value of the digit `b`.
pub open spec fn digit_of(b: u8) -> nat {
    if is_digit(b) {
        (b - 48) as nat
    } else {
        0
    }
}

/// `s` holds digits only.
pub open spec fn all_digits(s: Seq<u8>) -> bool {
    forall|i: int| 0 <= i < s.len() ==> is_digit(#[trigger] s[i])
}

/// The number that the digits of `s` write in decimal.
pub open spec fn digits_value(s: Seq<u8>) -> nat
    decreases s.len(),
{
    if s.len() == 0 {
        0
    } else {
        digits_value(s.drop_last()) * 10 + digit_of(s.last())
    }
}

/// How many digits `s` starts with.
pub open spec fn digit_prefix_len(s: Seq<u8>) -> nat
    decreases s.len(),
{
    if s.len() > 0 && is_digit(s[0]) {
        1 + digit_prefix_len(s.skip(1))
    } else {
        0
    }
}

/// `s` without a leading plus sign.
pub open spec fn unsigned_body(s: Seq<u8>) -> Seq<u8> {
    if s.len() > 0 && s[0] == 43 {
        s.skip(1)
    } else {
        s
    }
}

/// The whole number up to `max` that `s` writes: an optional plus sign, then digits
/// and nothing else.
pub open spec fn parse_unsigned_spec(s: Seq<u8>, max: u64) -> Option<u64> {
    let body = unsigned_body(s);
    if body.len() > 0 && all_digits(body) && digits_value(body) <= max {
        Some(digits_value(body) as u64)
    } else {
        None
    }
}

/// `s` starts with a minus sign.
pub open spec fn is_negative(s: Seq<u8>) -> bool {
    s.len() > 0 && s[0] == 45
}

/// `s` without a leading sign.
pub open spec fn signed_body(s: Seq<u8>) -> Seq<u8> {
    if s.len() > 0 && (s[0] == 45 || s[0] == 43) {
        s.skip(1)
    } else {
        s
    }
}

/// The first three decimals `f`, in thousandths; decimals after the third are dropped.
pub open spec fn frac_milli(f: Seq<u8>) -> nat {
    (if f.len() > 0 {
        digit_of(f[0]) * 100
    } else {
        0
    }) + (if f.len() > 1 {
        digit_of(f[1]) * 10
    } else {
        0
    }) + (if f.len() > 2 {
        digit_of(f[2])
    } else {
        0
    })
}

/// The digits of `body` before the decimal point.
pub open spec fn whole_part(body: Seq<u8>) -> Seq<u8> {
    body.take(digit_prefix_len(body) as int)
}

/// What follows the byte after the leading digits of `body`.
pub open spec fn frac_part(body: Seq<u8>) -> Seq<u8> {
    let p = digit_prefix_len(body) as int;
    if p < body.len() {
        body.skip(p + 1)
    } else {
        Seq::empty()
    }
}

/// `body` is digits, or digits with a decimal point among or beside them, and holds at
/// least one digit.
pub open spec fn is_decimal_body(body: Seq<u8>) -> bool {
    let p = digit_prefix_len(body) as int;
    &&& p == body.len() || body[p] == 46
    &&& all_digits(frac_part(body))
    &&& whole_part(body).len() + frac_part(body).len() > 0
}

/// The magnitude of the decimal `body`, in thousandths.
pub open spec fn decimal_magnitude(body: Seq<u8>) -> nat {
    digits_value(whole_part(body)) * 1000 + frac_milli(frac_part(body))
}

/// The decimal that `s` writes, in thousandths: an optional sign, digits, and
/// optionally a point and more digits. No exponent, and no magnitude above
/// [`MAX_MILLI`].
pub open spec fn parse_milli_spec(s: Seq<u8>) -> Option<i64> {
    let body = signed_body(s);
    if is_decimal_body(body) && decimal_magnitude(body) <= MAX_MILLI {
        Some(
            if is_negative(s) {
                (-decimal_magnitude(body)) as i64
            } else {
                decimal_magnitude(body) as i64
            },
        )
    } else {
        None
    }
}

/// The fields of `s` between the separators `sep`: one more than there are separators.
pub open spec fn split_fields(s: Seq<u8>, sep: u8) -> Seq<Seq<u8>>
    decreases s.len(),
{
    if s.len() == 0 {
        seq![Seq::<u8>::empty()]
    } else {
        let before = split_fields(s.drop_last(), sep);
        if s.last() == sep {
            before.push(Seq::<u8>::empty())
        } else {
            before.update(before.len() - 1, before.last().push(s.last()))
        }
    }
}

/// The decimals that the fields write, each without the white space round it; `None`
/// where a field writes none.
pub open spec fn parse_fields(fields: Seq<Seq<u8>>) -> Option<Seq<i64>>
    decreases fields.len(),
{
    if fields.len() == 0 {
        Some(Seq::<i64>::empty())
    } else {
        match (parse_fields(fields.drop_last()), parse_milli_spec(trimmed(fields.last()))) {
            (Some(values), Some(v)) => Some(values.push(v)),
            _ => None,
        }
    }
}

/// The bytes that each vector of `fields` holds.
pub open spec fn fields_view(fields: Seq<Vec<u8>>) -> Seq<Seq<u8>> {
    fields.map_values(|f: Vec<u8>| f@)
}

/// Appends the bytes of `s` to `buf`.
pub fn push_str(buf: &mut Vec<u8>, s: &str)
    ensures
        final(buf)@ == old(buf)@ + s.spec_bytes(),
{
    buf.extend_from_slice(s.as_bytes());
}

/// Appends `bytes` to `buf`.
pub fn push_bytes(buf: &mut Vec<u8>, bytes: &[u8])
    ensures
        final(buf)@ == old(buf)@ + bytes@,
{
    buf.extend_from_slice(bytes);
}

/// A vector that holds the bytes of `bytes`.
pub fn to_vec(bytes: &[u8]) -> (v: Vec<u8>)
    ensures
        v@ == bytes@,
{
    let mut v: Vec<u8> = Vec::new();
    v.extend_from_slice(bytes);
    assert(v@ =~= bytes@);
    v
}

/// Appends the decimal digits of `n` to `buf`.
pub fn push_digits(buf: &mut Vec<u8>, n: u128)
    ensures
        final(buf)@ == old(buf)@ + digits_text(n as nat),
    decreases n,
{
    if n >= 10 {
        push_digits(buf, n / 10);
    }
    let d: u8 = (n % 10) as u8;
    buf.push(48 + d);
    assert(buf@ =~= old(buf)@ + digits_text(n as nat));
}

/// Appends `v` in decimal to `buf`.
pub fn push_int(buf: &mut Vec<u8>, v: i64)
    ensures
        final(buf)@ == old(buf)@ + int_text(v as int),
{
    if v < 0 {
        buf.push(45);
        push_digits(buf, (-(v as i128)) as u128);
        assert(buf@ =~= old(buf)@ + int_text(v as int));
    } else {
        push_digits(buf, v as u128);
    }
}

/// Appends `m` thousandths to `buf` as a decimal with three places.
fn push_magnitude(buf: &mut Vec<u8>, m: u128)
    ensures
        final(buf)@ == old(buf)@ + magnitude_text(m as nat),
{
    push_digits(buf, m / 1000);
    let frac: u128 = m % 1000;
    buf.push(46);
    buf.push(48 + (frac / 100) as u8);
    buf.push(48 + ((frac / 10) % 10) as u8);
    buf.push(48 + (frac % 10) as u8);
    assert(buf@ =~= old(buf)@ + magnitude_text(m as nat));
}

/// Appends `v` thousandths to `buf` as a decimal with three places.
pub fn push_milli(buf: &mut Vec<u8>, v: i64)
    ensures
        final(buf)@ == old(buf)@ + milli_text(v as int),
{
    if v < 0 {
        buf.push(45);
        push_magnitude(buf, (-(v as i128)) as u128);
        assert(buf@ =~= old(buf)@ + milli_text(v as int));
    } else {
        push_magnitude(buf, v as u128);
    }
}

/// Tells whether two byte strings are equal.
pub fn bytes_eq(a: &[u8], b: &[u8]) -> (r: bool)
    ensures
        r == (a@ == b@),
{
    if a.len() != b.len() {
        return false;
    }
    let mut i: usize = 0;
    while i < a.len()
        invariant
            a@.len() == b@.len(),
            0 <= i <= a@.len(),
            forall|j: int| 0 <= j < i ==> a@[j] == b@[j],
        decreases a@.len() - i,
    {
        if a[i] != b[i] {
            return false;
        }
        i = i + 1;
    }
    assert(a@ =~= b@);
    true
}

/// Tells whether `pat` occurs in `s`.
pub fn contains(s: &[u8], pat: &[u8]) -> (r: bool)
    ensures
        r == has_subseq(s@, pat@),
{
    if pat.len() > s.len() {
        return false;
    }
    let n: usize = s.len();
    let last: usize = n - pat.len();
    let mut i: usize = 0;
    while i <= last
        invariant
            n == s@.len(),
            pat@.len() <= s@.len(),
            last == s@.len() - pat@.len(),
            0 <= i <= last + 1,
            forall|k: int| 0 <= k < i ==> #[trigger] s@.subrange(k, k + pat@.len()) != pat@,
        decreases last + 1 - i,
    {
        let mut j: usize = 0;
        while j < pat.len() && s[i + j] == pat[j]
            invariant
                n == s@.len(),
                pat@.len() <= s@.len(),
                last == s@.len() - pat@.len(),
                0 <= i <= last,
                0 <= j <= pat@.len(),
                forall|k: int| 0 <= k < j ==> s@[i + k] == pat@[k],
            decreases pat@.len() - j,
        {
            j = j + 1;
        }
        if j == pat.len() {
            assert(s@.subrange(i as int, i + pat@.len()) =~= pat@);
            return true;
        }
        assert(s@.subrange(i as int, i + pat@.len())[j as int] != pat@[j as int]);
        i = i + 1;
    }
    false
}

/// Leading white space is dropped one byte at a time.
proof fn lemma_trim_start_skip(s: Seq<u8>, a: int)
    requires
        0 <= a <= s.len(),
        forall|j: int| 0 <= j < a ==> is_space(#[trigger] s[j]),
    ensures
        trim_start(s) == trim_start(s.skip(a)),
    decreases a,
{
    if a > 0 {
        assert(s.skip(1).skip(a - 1) =~= s.skip(a));
        lemma_trim_start_skip(s.skip(1), a - 1);
    } else {
        assert(s.skip(0) =~= s);
    }
}

/// Trailing white space is dropped one byte at a time.
proof fn lemma_trim_end_take(s: Seq<u8>, b: int)
    requires
        0 <= b <= s.len(),
        forall|j: int| b <= j < s.len() ==> is_space(#[trigger] s[j]),
    ensures
        trim_end(s) == trim_end(s.take(b)),
    decreases s.len() - b,
{
    if b < s.len() {
        assert(s.drop_last().take(b) =~= s.take(b));
        lemma_trim_end_take(s.drop_last(), b);
    } else {
        assert(s.take(b) =~= s);
    }
}

/// A copy of `s` without the white space at either end.
pub fn trim(s: &[u8]) -> (r: Vec<u8>)
    ensures
        r@ == trimmed(s@),
{
    let mut a: usize = 0;
    while a < s.len() && is_space_byte(s[a])
        invariant
            0 <= a <= s@.len(),
            forall|j: int| 0 <= j < a ==> is_space(#[trigger] s@[j]),
        decreases s@.len() - a,
    {
        a = a + 1;
    }
    let mut b: usize = s.len();
    while b > a && is_space_byte(s[b - 1])
        invariant
            a <= b <= s@.len(),
            forall|j: int| b <= j < s@.len() ==> is_space(#[trigger] s@[j]),
        decreases b,
    {
        b = b - 1;
    }
    let mut r: Vec<u8> = Vec::new();
    let mut i: usize = a;
    while i < b
        invariant
            a <= i <= b <= s@.len(),
            r@ =~= s@.subrange(a as int, i as int),
        decreases b - i,
    {
        r.push(s[i]);
        i = i + 1;
    }
    proof {
        let rest = s@.skip(a as int);
        lemma_trim_start_skip(s@, a as int);
        assert(trim_start(rest) == rest);
        assert forall|j: int| b - a <= j < rest.len() implies is_space(#[trigger] rest[j]) by {
            assert(rest[j] == s@[a + j]);
        }
        lemma_trim_end_take(rest, b - a);
        assert(rest.take(b - a) =~= s@.subrange(a as int, b as int));
        let kept = s@.subrange(a as int, b as int);
        if kept.len() > 0 {
            assert(kept.last() == s@[b - 1]);
        }
        assert(trim_end(kept) == kept);
    }
    r
}

/// Tells whether `b` is ASCII white space.
pub fn is_space_byte(b: u8) -> (r: bool)
    ensures
        r == is_space(b),
{
    b == 32 || (9 <= b && b <= 13)
}

/// The digits of a number weigh at least as much as those of any of its prefixes.
pub proof fn lemma_digits_value_prefix(s: Seq<u8>, k: int)
    requires
        0 <= k <= s.len(),
    ensures
        digits_value(s.take(k)) <= digits_value(s),
    decreases s.len() - k,
{
    if k < s.len() {
        assert(s.drop_last().take(k) =~= s.take(k));
        lemma_digits_value_prefix(s.drop_last(), k);
    } else {
        assert(s.take(k) =~= s);
    }
}

/// Taking one more digit multiplies the value by ten and adds the digit.
proof fn lemma_digits_value_step(s: Seq<u8>, k: int)
    requires
        0 <= k < s.len(),
    ensures
        digits_value(s.take(k + 1)) == digits_value(s.take(k)) * 10 + digit_of(s[k]),
{
    assert(s.take(k + 1).drop_last() =~= s.take(k));
}

/// Where `s` starts with `k` digits and no more, `k` is the length of its digit prefix.
proof fn lemma_digit_prefix_len(s: Seq<u8>, k: int)
    requires
        0 <= k <= s.len(),
        forall|j: int| 0 <= j < k ==> is_digit(#[trigger] s[j]),
        k == s.len() || !is_digit(s[k]),
    ensures
        digit_prefix_len(s) == k,
    decreases k,
{
    if k > 0 {
        let rest = s.skip(1);
        assert forall|j: int| 0 <= j < k - 1 implies is_digit(#[trigger] rest[j]) by {
            assert(rest[j] == s[j + 1]);
        }
        lemma_digit_prefix_len(rest, k - 1);
    }
}

/// Tells whether `b` is a decimal digit.
pub fn is_digit_byte(b: u8) -> (r: bool)
    ensures
        r == is_digit(b),
{
    48 <= b && b <= 57
}

/// Reads a whole number up to `max`: an optional plus sign, then digits and nothing
/// else.
pub fn parse_unsigned(s: &[u8], max: u64) -> (r: Option<u64>)
    ensures
        r == parse_unsigned_spec(s@, max),
{
    let n: usize = s.len();
    let start: usize = if n > 0 && s[0] == 43 {
        1
    } else {
        0
    };
    if start == n {
        return None;
    }
    let ghost body = unsigned_body(s@);
    let mut acc: u64 = 0;
    let mut i: usize = start;
    assert(body.take(0).len() == 0);
    while i < n
        invariant
            n == s@.len(),
            start <= i <= n,
            body == unsigned_body(s@),
            body == s@.skip(start as int),
            all_digits(body.take(i - start)),
            acc == digits_value(body.take(i - start)),
            acc <= max,
        decreases n - i,
    {
        let b: u8 = s[i];
        assert(body[i - start] == b);
        if !is_digit_byte(b) {
            return None;
        }
        let d: u64 = (b - 48) as u64;
        proof {
            lemma_digits_value_step(body, i - start);
            lemma_digits_value_prefix(body, i - start + 1);
        }
        if d > max || acc > (max - d) / 10 {
            assert(acc * 10 + d > max);
            return None;
        }
        acc = acc * 10 + d;
        assert forall|j: int| 0 <= j < i + 1 - start implies is_digit(
            #[trigger] body.take(i + 1 - start)[j],
        ) by {
            if j < i - start {
                assert(body.take(i - start)[j] == body[j]);
            }
        }
        i = i + 1;
    }
    assert(body.take(i - start) =~= body);
    Some(acc)
}

/// Reads the digits that `s` holds from `from` on: where they end, and their value
/// unless it exceeds a thousand millions.
fn parse_whole(s: &[u8], from: usize) -> (r: (usize, Option<u64>))
    requires
        from <= s@.len(),
    ensures
        from <= r.0 <= s@.len(),
        digit_prefix_len(s@.skip(from as int)) == r.0 - from,
        match r.1 {
            Some(v) => v == digits_value(s@.subrange(from as int, r.0 as int)) && v
                <= 1_000_000_000,
            None => digits_value(s@.subrange(from as int, r.0 as int)) > 1_000_000_000,
        },
{
    let n: usize = s.len();
    let ghost body = s@.skip(from as int);
    let mut whole: u64 = 0;
    let mut too_large: bool = false;
    let mut i: usize = from;
    assert(body.take(0).len() == 0);
    while i < n && is_digit_byte(s[i])
        invariant
            n == s@.len(),
            from <= i <= n,
            body == s@.skip(from as int),
            forall|j: int| 0 <= j < i - from ==> is_digit(#[trigger] body[j]),
            !too_large ==> whole == digits_value(body.take(i - from)),
            too_large ==> digits_value(body.take(i - from)) > 1_000_000_000,
            whole <= 1_000_000_000,
        decreases n - i,
    {
        let d: u64 = (s[i] - 48) as u64;
        proof {
            lemma_digits_value_step(body, i - from);
        }
        if too_large || whole * 10 + d > 1_000_000_000 {
            too_large = true;
        } else {
            whole = whole * 10 + d;
        }
        i = i + 1;
    }
    proof {
        lemma_digit_prefix_len(body, i - from);
        assert(body.take(i - from) =~= s@.subrange(from as int, i as int));
    }
    if too_large {
        (i, None)
    } else {
        (i, Some(whole))
    }
}

/// Reads the decimals that `s` holds from `from` on, in thousandths; none unless all
/// that follows are digits.
fn parse_decimals(s: &[u8], from: usize) -> (r: Option<u64>)
    requires
        from <= s@.len(),
    ensures
        match r {
            Some(f) => all_digits(s@.skip(from as int)) && f == frac_milli(s@.skip(from as int))
                && f <= 999,
            None => !all_digits(s@.skip(from as int)),
        },
{
    let n: usize = s.len();
    let ghost decimals = s@.skip(from as int);
    let mut frac: u64 = 0;
    let mut i: usize = from;
    while i < n
        invariant
            n == s@.len(),
            from <= i <= n,
            decimals == s@.skip(from as int),
            forall|j: int| 0 <= j < i - from ==> is_digit(#[trigger] decimals[j]),
            frac == frac_milli(decimals.take(i - from)),
            frac <= 999,
        decreases n - i,
    {
        let b: u8 = s[i];
        assert(decimals[i - from] == b);
        if !is_digit_byte(b) {
            return None;
        }
        let d: u64 = (b - 48) as u64;
        if i - from == 0 {
            frac = frac + d * 100;
        } else if i - from == 1 {
            frac = frac + d * 10;
        } else if i - from == 2 {
            frac = frac + d;
        }
        i = i + 1;
    }
    assert(decimals.take(i - from) =~= decimals);
    Some(frac)
}

/// Reads a decimal in thousandths: an optional sign, digits, and optionally a point
/// and more digits, of which the first three count.
pub fn parse_milli(s: &[u8]) -> (r: Option<i64>)
    ensures
        r == parse_milli_spec(s@),
        r matches Some(v) ==> -MAX_MILLI <= v <= MAX_MILLI,
{
    let n: usize = s.len();
    let neg: bool = n > 0 && s[0] == 45;
    let start: usize = if n > 0 && (s[0] == 45 || s[0] == 43) {
        1
    } else {
        0
    };
    let ghost body = signed_body(s@);
    assert(body =~= s@.skip(start as int));
    let (end, whole) = parse_whole(s, start);
    let ghost p = end - start;
    assert(whole_part(body) =~= s@.subrange(start as int, end as int));
    let frac: u64 = if end < n {
        if s[end] != 46 {
            assert(body[p] == s@[end as int]);
            return None;
        }
        assert(body[p] == 46);
        assert(frac_part(body) =~= s@.skip(end + 1));
        match parse_decimals(s, end + 1) {
            Some(f) => f,
            None => {
                return None;
            },
        }
    } else {
        assert(frac_part(body) =~= Seq::<u8>::empty());
        0
    };
    if end == start && n - end <= 1 {
        assert(whole_part(body).len() + frac_part(body).len() == 0);
        return None;
    }
    let whole: u64 = match whole {
        Some(w) => w,
        None => {
            return None;
        },
    };
    let magnitude: u64 = whole * 1000 + frac;
    if magnitude > 1_000_000_000_000 {
        return None;
    }
    if neg {
        Some(-(magnitude as i64))
    } else {
        Some(magnitude as i64)
    }
}

/// Cuts `s` at each separator `sep`.
pub fn split_bytes(s: &[u8], sep: u8) -> (fields: Vec<Vec<u8>>)
    ensures
        fields_view(fields@) == split_fields(s@, sep),
{
    let n: usize = s.len();
    let mut fields: Vec<Vec<u8>> = Vec::new();
    let mut field: Vec<u8> = Vec::new();
    let mut i: usize = 0;
    assert(s@.take(0).len() == 0);
    while i < n
        invariant
            n == s@.len(),
            0 <= i <= n,
            fields@.len() + 1 == split_fields(s@.take(i as int), sep).len(),
            forall|j: int|
                0 <= j < fields@.len() ==> (#[trigger] fields@[j])@ == split_fields(
                    s@.take(i as int),
                    sep,
                )[j],
            field@ == split_fields(s@.take(i as int), sep).last(),
        decreases n - i,
    {
        assert(s@.take(i + 1).drop_last() =~= s@.take(i as int));
        assert(s@.take(i + 1).last() == s@[i as int]);
        let b: u8 = s[i];
        if b == sep {
            fields.push(field);
            field = Vec::new();
        } else {
            field.push(b);
        }
        i = i + 1;
    }
    assert(s@.take(n as int) =~= s@);
    fields.push(field);
    assert(fields_view(fields@) =~= split_fields(s@, sep));
    fields
}

/// Where the first fields write no decimals, all of them write none.
proof fn lemma_parse_fields_prefix(fields: Seq<Seq<u8>>, k: int)
    requires
        0 <= k <= fields.len(),
        parse_fields(fields.take(k)).is_none(),
    ensures
        parse_fields(fields).is_none(),
    decreases fields.len() - k,
{
    if k < fields.len() {
        assert(fields.drop_last().take(k) =~= fields.take(k));
        lemma_parse_fields_prefix(fields.drop_last(), k);
    } else {
        assert(fields.take(k) =~= fields);
    }
}

/// Reads one decimal from each field, white space round it left out.
pub fn parse_list(fields: &Vec<Vec<u8>>) -> (r: Option<Vec<i64>>)
    ensures
        match r {
            Some(values) => parse_fields(fields_view(fields@)) == Some(values@),
            None => parse_fields(fields_view(fields@)).is_none(),
        },
        r matches Some(values) ==> forall|i: int|
            0 <= i < values@.len() ==> -MAX_MILLI <= #[trigger] values@[i] <= MAX_MILLI,
{
    let ghost all = fields_view(fields@);
    let mut values: Vec<i64> = Vec::new();
    let mut i: usize = 0;
    assert(all.take(0).len() == 0);
    while i < fields.len()
        invariant
            0 <= i <= fields@.len(),
            all == fields_view(fields@),
            parse_fields(all.take(i as int)) == Some(values@),
            forall|k: int|
                0 <= k < values@.len() ==> -MAX_MILLI <= #[trigger] values@[k] <= MAX_MILLI,
        decreases fields@.len() - i,
    {
        assert(all.take(i + 1).drop_last() =~= all.take(i as int));
        assert(all.take(i + 1).last() == fields@[i as int]@);
        let text = trim(fields[i].as_slice());
        match parse_milli(text.as_slice()) {
            Some(v) => {
                values.push(v);
            },
            None => {
                proof {
                    lemma_parse_fields_prefix(all, i + 1);
                }
                return None;
            },
        }
        i = i + 1;
    }
    assert(all.take(i as int) =~= all);
    Some(values)
}

/// The digits of a number are digits, at least one of them, and write that number.
pub proof fn lemma_digits_text(n: nat)
    ensures
        digits_text(n).len() >= 1,
        all_digits(digits_text(n)),
        digits_value(digits_text(n)) == n,
    decreases n,
{
    let text = digits_text(n);
    if n >= 10 {
        lemma_digits_text(n / 10);
        let head = digits_text(n / 10);
        let d = (48 + n % 10) as u8;
        assert(text == head.push(d));
        assert(text.drop_last() =~= head);
        assert(text.last() == d);
        assert forall|i: int| 0 <= i < text.len() implies is_digit(#[trigger] text[i]) by {
            if i < head.len() {
                assert(text[i] == head[i]);
            }
        }
    } else {
        assert(text.drop_last() =~= Seq::<u8>::empty());
        assert(digits_value(text.drop_last()) == 0);
    }
}

/// A whole number that is written in decimal is read back as itself.
pub proof fn lemma_unsigned_round_trip(n: u64, max: u64)
    requires
        n <= max,
    ensures
        parse_unsigned_spec(digits_text(n as nat), max) == Some(n),
{
    lemma_digits_text(n as nat);
    let text = digits_text(n as nat);
    assert(is_digit(text[0]));
    assert(unsigned_body(text) == text);
}

/// Three decimals are read back as the thousandths that they write.
proof fn lemma_decimals_round_trip(frac: int)
    requires
        0 <= frac < 1000,
    ensures
        decimals_text(frac).len() == 3,
        all_digits(decimals_text(frac)),
        frac_milli(decimals_text(frac)) == frac,
{
    let f = decimals_text(frac);
    let a = frac / 100;
    let b = (frac / 10) % 10;
    let c = frac % 10;
    assert(0 <= a <= 9 && 0 <= b <= 9 && 0 <= c <= 9);
    assert(a * 100 + b * 10 + c == frac);
    assert(f[0] == (48 + a) as u8);
    assert(f[1] == (48 + b) as u8);
    assert(f[2] == (48 + c) as u8);
    assert(digit_of(f[0]) == a);
    assert(digit_of(f[1]) == b);
    assert(digit_of(f[2]) == c);
}

/// A magnitude that is written as a decimal is read back as itself.
proof fn lemma_magnitude_round_trip(m: nat)
    ensures
        is_decimal_body(magnitude_text(m)),
        decimal_magnitude(magnitude_text(m)) == m,
        is_digit(magnitude_text(m)[0]),
{
    let whole = m / 1000;
    let frac = (m % 1000) as int;
    let digits = digits_text(whole);
    let decimals = decimals_text(frac);
    let body = magnitude_text(m);
    lemma_digits_text(whole);
    lemma_decimals_round_trip(frac);
    let p = digits.len() as int;
    assert(body.len() == p + 4);
    assert forall|j: int| 0 <= j < p implies is_digit(#[trigger] body[j]) by {
        assert(body[j] == digits[j]);
    }
    assert(body[p] == 46);
    lemma_digit_prefix_len(body, p);
    assert(body.take(p) =~= digits);
    assert(body.skip(p + 1) =~= decimals);
    assert(whole_part(body) == digits);
    assert(frac_part(body) == decimals);
    assert(whole * 1000 + frac == m);
}

/// A sign before a decimal is read as a sign, and a decimal without one has none.
proof fn lemma_sign(body: Seq<u8>)
    requires
        body.len() > 0,
        is_digit(body[0]),
    ensures
        signed_body(body) == body,
        !is_negative(body),
        signed_body(seq![45u8] + body) == body,
        is_negative(seq![45u8] + body),
{
    let signed = seq![45u8] + body;
    assert(signed[0] == 45);
    assert(signed.skip(1) =~= body);
}

/// Thousandths that are written as a decimal are read back as themselves.
pub proof fn lemma_milli_round_trip(v: i64)
    requires
        -MAX_MILLI <= v <= MAX_MILLI,
    ensures
        parse_milli_spec(milli_text(v as int)) == Some(v),
{
    let m: nat = if v < 0 {
        (-v) as nat
    } else {
        v as nat
    };
    lemma_magnitude_round_trip(m);
    lemma_sign(magnitude_text(m));
}

} // verus!
