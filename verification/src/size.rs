//! Sizes and health words as `zpool` and `zfs` print them.
use vstd::arithmetic::div_mod::{lemma_div_denominator, lemma_hoist_over_denominator};
use vstd::prelude::*;

use crate::text::{
    all_digits, decimal, digit_char, is_whitespace, ascii_upper, ascii_upper_char, lemma_trim_shape,
    lemma_trim_unpadded, chars_of, digit_value, digits_value, is_ascii_digit,
    lemma_digits_value_prefix_le, lemma_digits_value_push, lemma_split_char_nonempty,
    split_char, split_ranges, str_eq, to_uppercase, trim, trim_bounds, trim_end, trim_start,
    trimmed, uppercase,
};
use crate::types::PoolHealth;

verus! {

pub open spec fn pow10(n: nat) -> nat
    decreases n,
{
    if n == 0 {
        1
    } else {
        10 * pow10((n - 1) as nat)
    }
}

/// The factor that the unit letter at the end of a size stands for.
pub open spec fn unit_multiplier(t: Seq<char>) -> nat {
    if t.len() == 0 {
        1
    } else {
        let c = t.last();
        if c == 'T' || c == 't' {
            1099511627776
        } else if c == 'G' || c == 'g' {
            1073741824
        } else if c == 'M' || c == 'm' {
            1048576
        } else if c == 'K' || c == 'k' {
            1024
        } else if c == 'P' || c == 'p' {
            1125899906842624
        } else {
            1
        }
    }
}

pub open spec fn is_numeric_char(c: char) -> bool {
    is_ascii_digit(c) || c == '.'
}

/// The longest prefix of `t` made of digits and dots.
pub open spec fn numeric_prefix(t: Seq<char>) -> Seq<char>
    decreases t.len(),
{
    if t.len() > 0 && is_numeric_char(t[0]) {
        seq![t[0]] + numeric_prefix(t.drop_first())
    } else {
        Seq::empty()
    }
}

/// The value of the decimal number `n` (digits with at most one dot, at
/// least one digit) times `m`, rounded down and capped at `u64::MAX`; 0 when
/// `n` is no such number.
pub open spec fn scaled_number(n: Seq<char>, m: nat) -> u64 {
    let p = split_char(n, '.');
    let ip = p[0];
    let fp = if p.len() == 2 {
        p[1]
    } else {
        Seq::<char>::empty()
    };
    if p.len() > 2 || ip.len() + fp.len() == 0 {
        0
    } else {
        let v = digits_value(ip) * m + (digits_value(fp) * m) / pow10(fp.len());
        if v > u64::MAX {
            u64::MAX
        } else {
            v as u64
        }
    }
}

/// The value of a size as `zfs` prints it ("1.5T", "500G", "128K"): the
/// decimal number at its start (digits with at most one dot, at least one
/// digit) times the factor of its unit letter, rounded down, and capped at
/// `u64::MAX`. A blank, "-", or a start that is no such number is 0.
pub open spec fn size_value(s: Seq<char>) -> u64 {
    let t = trim(s);
    if t.len() == 0 || t == seq!['-'] {
        0
    } else {
        scaled_number(numeric_prefix(t), unit_multiplier(t))
    }
}

/// Whether `s` is a size that reads the same whether its decimal number is
/// taken exactly or first rounded to the nearest `f64`, as `zfs` tools
/// written with floats read it. The unit factor is a power of two, so
/// scaling the rounded number is exact, and the two readings differ only
/// where the rounding moves the product across a whole number. That cannot
/// happen when the number's digits `D` (dot left out) times the factor stay
/// below 2^53: the rounding error is then under one part in `10^k` for `k`
/// decimals, the least distance from such a product to a whole number other
/// than itself, and a whole product below 2^53 is read exactly. Nor when the
/// whole part times the factor is at least 2^65: both readings then stand
/// above `u64::MAX` and are capped. A blank, "-", or a start that is no
/// number reads as 0 either way.
pub open spec fn size_reads_alike_in_f64(s: Seq<char>) -> bool {
    let t = trim(s);
    let p = split_char(numeric_prefix(t), '.');
    let ip = p[0];
    let fp = if p.len() == 2 {
        p[1]
    } else {
        Seq::<char>::empty()
    };
    let m = unit_multiplier(t);
    ||| t.len() == 0
    ||| t == seq!['-']
    ||| p.len() > 2
    ||| ip.len() + fp.len() == 0
    ||| digits_value(ip + fp) * m < 0x20_0000_0000_0000
    ||| digits_value(ip) * m >= 0x2_0000_0000_0000_0000
}

/// `r` is what the size `s` reads as, wherever that reading does not hang
/// on how a float rounds: see `size_reads_alike_in_f64`.
pub open spec fn reads_as_size(r: u64, s: Seq<char>) -> bool {
    size_reads_alike_in_f64(s) ==> r == size_value(s)
}

proof fn lemma_digit_char(k: nat)
    requires
        k < 10,
    ensures
        is_ascii_digit(digit_char(k)),
        crate::text::digit_value(digit_char(k)) == k,
{
    assert((k + '0' as u32) as u32 == k + 48);
    assert(((k + 48) as u32) as char as u32 == k + 48);
}

proof fn lemma_decimal_digits(n: nat)
    ensures
        decimal(n).len() >= 1,
        all_digits(decimal(n)),
        digits_value(decimal(n)) == n,
    decreases n,
{
    if n < 10 {
        lemma_digit_char(n);
        assert(decimal(n).drop_last().len() == 0);
        assert(decimal(n).last() == digit_char(n));
        assert forall|i: int| 0 <= i < decimal(n).len() implies is_ascii_digit(
            #[trigger] decimal(n)[i],
        ) by {
            assert(decimal(n)[i] == digit_char(n));
        }
        assert(digits_value(decimal(n).drop_last()) == 0);
        assert(digits_value(decimal(n)) == digits_value(decimal(n).drop_last()) * 10
            + crate::text::digit_value(decimal(n).last()));
    } else {
        lemma_decimal_digits(n / 10);
        lemma_digit_char(n % 10);
        let d = decimal(n / 10);
        let c = digit_char(n % 10);
        assert(decimal(n) == d.push(c));
        assert(decimal(n).drop_last() == d);
        assert(decimal(n).last() == c);
        assert(digits_value(decimal(n)) == digits_value(d) * 10 + crate::text::digit_value(c));
        assert((n / 10) * 10 + n % 10 == n);
        assert forall|i: int| 0 <= i < decimal(n).len() implies is_ascii_digit(
            #[trigger] decimal(n)[i],
        ) by {
            if i < d.len() {
                assert(decimal(n)[i] == d[i]);
            }
        }
    }
}

proof fn lemma_numeric_prefix_stops(a: Seq<char>, u: char)
    requires
        forall|i: int| 0 <= i < a.len() ==> is_numeric_char(#[trigger] a[i]),
        !is_numeric_char(u),
    ensures
        numeric_prefix(a.push(u)) == a,
    decreases a.len(),
{
    let t = a.push(u);
    if a.len() == 0 {
        assert(t[0] == u);
    } else {
        let rest = a.drop_first();
        assert forall|i: int| 0 <= i < rest.len() implies is_numeric_char(#[trigger] rest[i]) by {
            assert(rest[i] == a[i + 1]);
        }
        lemma_numeric_prefix_stops(rest, u);
        assert(t.drop_first() =~= rest.push(u));
        assert(t[0] == a[0]);
        assert(seq![a[0]] + rest =~= a);
    }
}

proof fn lemma_numeric_prefix_all(a: Seq<char>)
    requires
        forall|i: int| 0 <= i < a.len() ==> is_numeric_char(#[trigger] a[i]),
    ensures
        numeric_prefix(a) == a,
    decreases a.len(),
{
    if a.len() > 0 {
        let rest = a.drop_first();
        assert forall|i: int| 0 <= i < rest.len() implies is_numeric_char(#[trigger] rest[i]) by {
            assert(rest[i] == a[i + 1]);
        }
        lemma_numeric_prefix_all(rest);
        assert(seq![a[0]] + rest =~= a);
    }
}

proof fn lemma_split_without_sep(s: Seq<char>, sep: char)
    requires
        forall|i: int| 0 <= i < s.len() ==> #[trigger] s[i] != sep,
    ensures
        split_char(s, sep) == seq![s],
    decreases s.len(),
{
    if s.len() > 0 {
        let d = s.drop_last();
        assert forall|i: int| 0 <= i < d.len() implies #[trigger] d[i] != sep by {
            assert(d[i] == s[i]);
        }
        lemma_split_without_sep(d, sep);
        assert(s.last() != sep);
        assert(d.push(s.last()) =~= s);
        assert(seq![d].update(0, d.push(s.last())) =~= seq![s]);
    } else {
        assert(s =~= Seq::<char>::empty());
    }
}

proof fn lemma_whole_number_scales(n: nat, m: nat)
    ensures
        scaled_number(decimal(n), m) == if n * m > u64::MAX {
            u64::MAX
        } else {
            (n * m) as u64
        },
{
    lemma_decimal_digits(n);
    let d = decimal(n);
    assert forall|i: int| 0 <= i < d.len() implies #[trigger] d[i] != '.' by {
        assert(is_ascii_digit(d[i]));
    }
    lemma_split_without_sep(d, '.');
    assert(digits_value(Seq::<char>::empty()) == 0);
    assert(pow10(0) == 1);
    assert((0 * m) / 1 == 0) by (nonlinear_arith);
}

/// A whole number with a unit letter is that many units, capped at
/// `u64::MAX` ("500G" is 500 GiB in bytes); a whole number without one is
/// that many bytes. Either reads the same with floats wherever the bytes
/// stay below 2^53 or reach 2^65, so `parse_zfs_size` gives that value there.
pub proof fn law_whole_sizes_scale_by_their_unit(n: nat, unit: char)
    requires
        !is_numeric_char(unit),
        !is_whitespace(unit),
        unit != '-',
    ensures
        n * unit_multiplier(seq![unit]) < 0x20_0000_0000_0000 || n * unit_multiplier(seq![unit])
            >= 0x2_0000_0000_0000_0000 ==> size_reads_alike_in_f64(decimal(n).push(unit)),
        n < 0x20_0000_0000_0000 || n >= 0x2_0000_0000_0000_0000 ==> size_reads_alike_in_f64(
            decimal(n),
        ),
        size_value(decimal(n).push(unit)) == if n * unit_multiplier(seq![unit]) > u64::MAX {
            u64::MAX
        } else {
            (n * unit_multiplier(seq![unit])) as u64
        },
        size_value(decimal(n)) == if n > u64::MAX {
            u64::MAX
        } else {
            n as u64
        },
{
    lemma_decimal_digits(n);
    let d = decimal(n);
    let t = d.push(unit);
    assert forall|i: int| 0 <= i < d.len() implies is_numeric_char(#[trigger] d[i]) by {
        assert(is_ascii_digit(d[i]));
    }
    assert(is_ascii_digit(d[0]));
    assert(!is_whitespace(d[0]));
    assert(t[0] == d[0]);
    assert(crate::text::trim_start(t) == t);
    assert(t.last() == unit);
    assert(crate::text::trim_end(t) == t);
    assert(trim(t) == t);
    assert(t != seq!['-']) by {
        if t == seq!['-'] {
            assert(t.len() == 1);
        }
    }
    lemma_numeric_prefix_stops(d, unit);
    assert(unit_multiplier(t) == unit_multiplier(seq![unit]));
    lemma_whole_number_scales(n, unit_multiplier(seq![unit]));
    assert forall|i: int| 0 <= i < d.len() implies #[trigger] d[i] != '.' by {
        assert(is_ascii_digit(d[i]));
    }
    lemma_split_without_sep(d, '.');
    assert(d + Seq::<char>::empty() == d);
    assert(d.last() == d[d.len() - 1]);
    assert(is_ascii_digit(d.last()));
    assert(crate::text::trim_start(d) == d);
    assert(crate::text::trim_end(d) == d);
    assert(d != seq!['-']) by {
        if d == seq!['-'] {
            assert(d[0] == '-');
        }
    }
    lemma_numeric_prefix_all(d);
    assert(unit_multiplier(d) == 1);
    lemma_whole_number_scales(n, 1);
}

/// The health that an upper-case word stands for.
pub open spec fn health_from_name(u: Seq<char>) -> PoolHealth {
    if u == "ONLINE"@ {
        PoolHealth::Online
    } else if u == "DEGRADED"@ {
        PoolHealth::Degraded
    } else if u == "FAULTED"@ {
        PoolHealth::Faulted
    } else if u == "OFFLINE"@ {
        PoolHealth::Offline
    } else if u == "UNAVAIL"@ || u == "UNAVAILABLE"@ {
        PoolHealth::Unavailable
    } else if u == "REMOVED"@ {
        PoolHealth::Removed
    } else {
        PoolHealth::Unknown
    }
}

/// The health that `s` reports, compared without case and surrounding blanks.
pub open spec fn health_of(s: Seq<char>) -> PoolHealth {
    health_from_name(uppercase(trim(s)))
}

proof fn lemma_split_char_no_sep(s: Seq<char>, sep: char)
    ensures
        forall|k: int, j: int|
            0 <= k < split_char(s, sep).len() && 0 <= j < split_char(s, sep)[k].len() ==> #[trigger] split_char(s, sep)[k][j]
                != sep,
    decreases s.len(),
{
    if s.len() > 0 {
        lemma_split_char_no_sep(s.drop_last(), sep);
        lemma_split_char_nonempty(s.drop_last(), sep);
        let p = split_char(s.drop_last(), sep);
        if s.last() != sep {
            let q = p.update(p.len() - 1, p.last().push(s.last()));
            assert forall|k: int, j: int| 0 <= k < q.len() && 0 <= j < q[k].len() implies #[trigger] q[k][j] != sep by {
                if k == p.len() - 1 {
                    if j < p.last().len() {
                        assert(q[k][j] == p[k][j]);
                    }
                } else {
                    assert(q[k] == p[k]);
                }
            }
        } else {
            let q = p.push(Seq::<char>::empty());
            assert forall|k: int, j: int| 0 <= k < q.len() && 0 <= j < q[k].len() implies #[trigger] q[k][j] != sep by {
                assert(q[k] == p[k]);
            }
        }
    }
}

proof fn lemma_digits_value_front(t: Seq<char>)
    requires
        t.len() > 0,
    ensures
        digits_value(t) == digit_value(t[0]) * pow10((t.len() - 1) as nat) + digits_value(
            t.drop_first(),
        ),
    decreases t.len(),
{
    if t.len() == 1 {
        assert(t.drop_last().len() == 0);
        assert(t.drop_first().len() == 0);
        assert(pow10(0) == 1);
        assert(digits_value(t) == digits_value(t.drop_last()) * 10 + digit_value(t.last()));
    } else {
        let dl = t.drop_last();
        lemma_digits_value_front(dl);
        assert(dl.drop_first() == t.drop_first().drop_last());
        assert(dl[0] == t[0]);
        assert(t.drop_first().last() == t.last());
        let a = digit_value(t[0]);
        let b = pow10((t.len() - 2) as nat);
        let x = digits_value(dl.drop_first());
        assert(pow10((t.len() - 1) as nat) == 10 * b);
        let tf = t.drop_first();
        assert(digits_value(tf) == digits_value(tf.drop_last()) * 10 + digit_value(tf.last()));
        assert(digits_value(tf) == x * 10 + digit_value(t.last()));
        assert(digits_value(t) == digits_value(dl) * 10 + digit_value(t.last()));
        assert(digits_value(dl) == a * b + x);
        assert((a * b + x) * 10 == a * (10 * b) + x * 10) by (nonlinear_arith);
    }
}

pub proof fn lemma_pow10_pos(n: nat)
    ensures
        pow10(n) > 0,
    decreases n,
{
    if n > 0 {
        lemma_pow10_pos((n - 1) as nat);
    }
}

proof fn lemma_frac_step(d: nat, p: nat, x: nat, m: nat)
    requires
        p > 0,
    ensures
        ((d * p + x) * m) / (10 * p) == (d * m + (x * m) / p) / 10,
{
    let y = (d * p + x) * m;
    assert(y == x * m + (d * m) * p) by (nonlinear_arith)
        requires
            y == (d * p + x) * m,
    ;
    lemma_hoist_over_denominator((x * m) as int, (d * m) as int, p);
    lemma_div_denominator(y as int, p as int, 10);
    assert(p * 10 == 10 * p);
}

/// `floor(value(v[lo..hi]) * m / 10^(hi-lo))`: the whole part of the
/// fraction `0.v[lo..hi]` scaled by `m`.
fn fraction_floor(v: &Vec<char>, lo: usize, hi: usize, m: u64) -> (q: u64)
    requires
        lo <= hi <= v@.len(),
        1 <= m <= 1125899906842624,
        all_digits(v@.subrange(lo as int, hi as int)),
    ensures
        q as nat == (digits_value(v@.subrange(lo as int, hi as int)) * (m as nat)) / pow10(
            (hi - lo) as nat,
        ),
        q < m,
{
    let mut q: u64 = 0;
    let mut i = hi;
    assert(v@.subrange(hi as int, hi as int).len() == 0);
    while i > lo
        invariant
            lo <= i <= hi <= v@.len(),
            1 <= m <= 1125899906842624,
            all_digits(v@.subrange(lo as int, hi as int)),
            q as nat == (digits_value(v@.subrange(i as int, hi as int)) * (m as nat)) / pow10(
                (hi - i) as nat,
            ),
            q < m,
        decreases i - lo,
    {
        i -= 1;
        let c = v[i];
        assert(is_ascii_digit(c)) by {
            assert(v@.subrange(lo as int, hi as int)[i - lo] == c);
        }
        let d = (c as u32 - '0' as u32) as u64;
        let ghost t = v@.subrange(i as int, hi as int);
        let ghost x = digits_value(t.drop_first());
        proof {
            assert(t.drop_first() == v@.subrange(i + 1, hi as int));
            lemma_digits_value_front(t);
            lemma_pow10_pos((hi - i - 1) as nat);
            lemma_frac_step(d as nat, pow10((hi - i - 1) as nat), x, m as nat);
            assert(pow10((hi - i) as nat) == 10 * pow10((hi - i - 1) as nat));
            assert(d * m + q < 10 * m) by (nonlinear_arith)
                requires
                    d <= 9,
                    q < m,
            ;
        }
        q = (d * m + q) / 10;
    }
    q
}

/// The value of the digits `v[lo..hi]`, or `None` when it exceeds `u64::MAX`.
fn digits_u64(v: &Vec<char>, lo: usize, hi: usize) -> (r: Option<u64>)
    requires
        lo <= hi <= v@.len(),
        all_digits(v@.subrange(lo as int, hi as int)),
    ensures
        match r {
            Some(x) => x as nat == digits_value(v@.subrange(lo as int, hi as int)),
            None => digits_value(v@.subrange(lo as int, hi as int)) > u64::MAX,
        },
{
    let mut acc: u64 = 0;
    let mut i = lo;
    assert(v@.subrange(lo as int, lo as int).len() == 0);
    while i < hi
        invariant
            lo <= i <= hi <= v@.len(),
            all_digits(v@.subrange(lo as int, hi as int)),
            acc as nat == digits_value(v@.subrange(lo as int, i as int)),
        decreases hi - i,
    {
        let c = v[i];
        assert(is_ascii_digit(c)) by {
            assert(v@.subrange(lo as int, hi as int)[i - lo] == c);
        }
        let d = (c as u32 - '0' as u32) as u64;
        let ghost pre = v@.subrange(lo as int, i as int);
        proof {
            assert(v@.subrange(lo as int, i + 1) == pre.push(c));
            lemma_digits_value_push(pre, c);
        }
        if acc > (u64::MAX - d) / 10 {
            proof {
                assert(acc * 10 + d > u64::MAX) by (nonlinear_arith)
                    requires
                        acc > (u64::MAX - d) / 10,
                        d <= 9,
                ;
                let whole = v@.subrange(lo as int, hi as int);
                lemma_digits_value_prefix_le(whole, i + 1 - lo);
                assert(whole.subrange(0, i + 1 - lo) == pre.push(c));
            }
            return None;
        }
        acc = acc * 10 + d;
        i += 1;
    }
    Some(acc)
}

fn multiplier_of(c: char) -> (m: u64)
    ensures
        m as nat == unit_multiplier(seq![c]),
        1 <= m <= 1125899906842624,
{
    if c == 'T' || c == 't' {
        1099511627776
    } else if c == 'G' || c == 'g' {
        1073741824
    } else if c == 'M' || c == 'm' {
        1048576
    } else if c == 'K' || c == 'k' {
        1024
    } else if c == 'P' || c == 'p' {
        1125899906842624
    } else {
        1
    }
}

/// The end of the run of digits and dots that starts at `a`.
fn numeric_end(v: &Vec<char>, a: usize, b: usize) -> (e: usize)
    requires
        a <= b <= v@.len(),
    ensures
        a <= e <= b,
        numeric_prefix(v@.subrange(a as int, b as int)) == v@.subrange(a as int, e as int),
        forall|k: int| a <= k < e ==> is_numeric_char(#[trigger] v@[k]),
{
    let ghost t = v@.subrange(a as int, b as int);
    let mut e = a;
    while e < b && (('0' <= v[e] && v[e] <= '9') || v[e] == '.')
        invariant
            a <= e <= b <= v@.len(),
            t == v@.subrange(a as int, b as int),
            numeric_prefix(t) == v@.subrange(a as int, e as int) + numeric_prefix(
                v@.subrange(e as int, b as int),
            ),
            forall|k: int| a <= k < e ==> is_numeric_char(#[trigger] v@[k]),
        decreases b - e,
    {
        proof {
            let rest = v@.subrange(e as int, b as int);
            assert(rest.drop_first() == v@.subrange(e + 1, b as int));
            assert(v@.subrange(a as int, e + 1) == v@.subrange(a as int, e as int) + seq![v@[e as int]]);
        }
        e += 1;
    }
    proof {
        let rest = v@.subrange(e as int, b as int);
        assert(numeric_prefix(rest) == Seq::<char>::empty());
        assert(numeric_prefix(t) =~= v@.subrange(a as int, e as int));
    }
    e
}

/// `scaled_number` of the digits and dots `v[a..e]`.
fn scaled_number_of(v: &Vec<char>, a: usize, e: usize, m: u64) -> (r: u64)
    requires
        a <= e <= v@.len(),
        1 <= m <= 1125899906842624,
        forall|k: int| a <= k < e ==> is_numeric_char(#[trigger] v@[k]),
    ensures
        r == scaled_number(v@.subrange(a as int, e as int), m as nat),
{
    let ghost n = v@.subrange(a as int, e as int);
    let p = split_ranges(&v, a, e, '.');
    let ghost ps = split_char(n, '.');
    proof {
        lemma_split_char_nonempty(n, '.');
        lemma_split_char_no_sep(n, '.');
    }
    if p.len() > 2 {
        return 0;
    }
    let (i0, i1) = p[0];
    let (f0, f1) = if p.len() == 2 {
        p[1]
    } else {
        (e, e)
    };
    let ghost ip = ps[0];
    let ghost fp = if ps.len() == 2 {
        ps[1]
    } else {
        Seq::<char>::empty()
    };
    assert(v@.subrange(i0 as int, i1 as int) == ip);
    assert(v@.subrange(f0 as int, f1 as int) == fp);
    if i1 == i0 && f1 == f0 {
        return 0;
    }
    proof {
        assert forall|j: int| 0 <= j < ip.len() implies is_ascii_digit(#[trigger] ip[j]) by {
            assert(ip[j] == v@[i0 + j]);
            assert(ps[0][j] != '.');
        }
        assert forall|j: int| 0 <= j < fp.len() implies is_ascii_digit(#[trigger] fp[j]) by {
            assert(fp[j] == v@[f0 + j]);
            assert(ps[1][j] != '.');
        }
    }
    let q = fraction_floor(&v, f0, f1, m);
    match digits_u64(&v, i0, i1) {
        None => {
            assert(digits_value(ip) * m >= digits_value(ip)) by (nonlinear_arith)
                requires
                    m >= 1,
            ;
            u64::MAX
        },
        Some(x) => {
            assert((x as u128) * (m as u128) <= 0xffff_ffff_ffff_ffffu128 * 1125899906842624u128) by (nonlinear_arith)
                requires
                    m <= 1125899906842624,
            ;
            let total: u128 = (x as u128) * (m as u128) + (q as u128);
            if total > u64::MAX as u128 {
                u64::MAX
            } else {
                total as u64
            }
        },
    }
}

/// Parse ZFS size strings like "1.5T", "500G", "128K".
///
/// The result is the exact decimal value times the unit, rounded down and
/// capped. On the sizes of `size_reads_alike_in_f64` that is also what
/// reading the number as the nearest `f64` first gives; on the others (2^53
/// or more in all, or a long fraction) the two readings can differ in the
/// last place, and the contract leaves the result open there.
pub fn parse_zfs_size(s: &str) -> (r: u64)
    ensures
        reads_as_size(r, s@),
{
    let v = chars_of(s);
    let (a, b) = trim_bounds(&v, 0, v.len());
    let ghost t = v@.subrange(a as int, b as int);
    assert(v@.subrange(0, v@.len() as int) == v@);
    assert(t == trim(s@));
    if b == a {
        return 0;
    }
    if b - a == 1 && v[a] == '-' {
        assert(t =~= seq!['-']);
        return 0;
    }
    assert(t != seq!['-']) by {
        if b - a == 1 {
            assert(t[0] == v@[a as int]);
        }
    }
    let m = multiplier_of(v[b - 1]);
    assert(unit_multiplier(t) == unit_multiplier(seq![v@[b - 1]]));
    let e = numeric_end(&v, a, b);
    scaled_number_of(&v, a, e, m)
}

/// What the health word `s` reports, compared without case and surrounding
/// blanks; any other word is `Unknown`.
pub fn parse_health(s: &str) -> (r: PoolHealth)
    ensures
        r == health_of(s@),
        vstd::utf8::is_ascii_chars(trim(s@)) ==> r == health_from_name(ascii_upper(trim(s@))),
{
    let t = trimmed(s);
    let u = to_uppercase(t.as_str());
    health_from_word(u.as_str())
}

/// Trimming a health word and upper-casing it first changes nothing of what
/// it reports: for ASCII `s`, `parse_health(s)` and `parse_health` of
/// `s.trim().to_ascii_uppercase()` read the same upper-case word (the
/// second is ASCII too, and is its own trim and upper-case form).
pub proof fn law_health_ignores_case_and_blanks(s: Seq<char>)
    requires
        vstd::utf8::is_ascii_chars(s),
    ensures
        vstd::utf8::is_ascii_chars(trim(s)),
        vstd::utf8::is_ascii_chars(trim(ascii_upper(trim(s)))),
        health_from_name(ascii_upper(trim(ascii_upper(trim(s))))) == health_from_name(
            ascii_upper(trim(s)),
        ),
{
    let t = trim(s);
    lemma_trim_shape(s);
    assert forall|i: int| 0 <= i < t.len() implies '\0' <= #[trigger] t[i] <= '\u{7f}' by {
        assert(t[i] == s[s.len() - trim_start(s).len() + i]);
    }
    let u = ascii_upper(t);
    assert forall|i: int| 0 <= i < u.len() implies ascii_upper_char(#[trigger] u[i]) == u[i]
        && '\0' <= u[i] <= '\u{7f}' && (is_whitespace(u[i]) == is_whitespace(t[i])) by {
        let c = t[i];
        assert(u[i] == ascii_upper_char(c));
        if 'a' <= c && c <= 'z' {
            assert(((c as u32 - 32) as u32) as char as u32 == c as u32 - 32);
        }
    }
    if u.len() > 0 {
        assert(u.last() == u[u.len() - 1]);
        assert(t.last() == t[t.len() - 1]);
    }
    lemma_trim_unpadded(u);
    assert(ascii_upper(u) =~= u);
}

/// The health that an upper-case word stands for.
pub fn health_from_word(u: &str) -> (r: PoolHealth)
    ensures
        r == health_from_name(u@),
{
    if str_eq(u, "ONLINE") {
        PoolHealth::Online
    } else if str_eq(u, "DEGRADED") {
        PoolHealth::Degraded
    } else if str_eq(u, "FAULTED") {
        PoolHealth::Faulted
    } else if str_eq(u, "OFFLINE") {
        PoolHealth::Offline
    } else if str_eq(u, "UNAVAIL") || str_eq(u, "UNAVAILABLE") {
        PoolHealth::Unavailable
    } else if str_eq(u, "REMOVED") {
        PoolHealth::Removed
    } else {
        PoolHealth::Unknown
    }
}

/// Every health reads back as itself: the word it displays as is ASCII, has
/// no surrounding blanks, and its upper-case form names the same health.
pub proof fn lemma_health_label_round_trip(h: PoolHealth)
    ensures
        vstd::utf8::is_ascii_chars(h.label()),
        trim(h.label()) == h.label(),
        health_from_name(ascii_upper(h.label())) == h,
{
    reveal_strlit("ONLINE");
    reveal_strlit("DEGRADED");
    reveal_strlit("FAULTED");
    reveal_strlit("OFFLINE");
    reveal_strlit("UNAVAIL");
    reveal_strlit("UNAVAILABLE");
    reveal_strlit("REMOVED");
    reveal_strlit("UNKNOWN");
    let l = h.label();
    assert(ascii_upper(l) =~= l);
    assert(trim_start(l) == l);
    assert(trim_end(l) == l);
}

} // verus!
