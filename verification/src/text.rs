//! Character-level text handling shared by the parsers of command output.
//!
//! Every function here works on `char` sequences and states its result over
//! the spec functions below, which describe how the standard string methods
//! (`trim`, `lines`, `split`, `contains`, `starts_with`) behave.
use vstd::prelude::*;
use vstd::string::StrSliceExecFns;

verus! {

/// The Unicode `White_Space` property, as used by `char::is_whitespace`.
pub open spec fn is_whitespace(c: char) -> bool {
    let u = c as u32;
    ||| (0x9 <= u && u <= 0xD)
    ||| u == 0x20
    ||| u == 0x85
    ||| u == 0xA0
    ||| u == 0x1680
    ||| (0x2000 <= u && u <= 0x200A)
    ||| u == 0x2028
    ||| u == 0x2029
    ||| u == 0x202F
    ||| u == 0x205F
    ||| u == 0x3000
}

pub fn char_is_whitespace(c: char) -> (b: bool)
    ensures
        b == is_whitespace(c),
{
    let u = c as u32;
    (0x9 <= u && u <= 0xD) || u == 0x20 || u == 0x85 || u == 0xA0 || u == 0x1680 || (0x2000
        <= u && u <= 0x200A) || u == 0x2028 || u == 0x2029 || u == 0x202F || u == 0x205F || u
        == 0x3000
}

pub open spec fn is_ascii_digit(c: char) -> bool {
    '0' <= c && c <= '9'
}

pub open spec fn digit_value(c: char) -> nat {
    (c as u32 - '0' as u32) as nat
}

/// `s` with leading whitespace removed.
pub open spec fn trim_start(s: Seq<char>) -> Seq<char>
    decreases s.len(),
{
    if s.len() > 0 && is_whitespace(s[0]) {
        trim_start(s.drop_first())
    } else {
        s
    }
}

/// `s` with trailing whitespace removed.
pub open spec fn trim_end(s: Seq<char>) -> Seq<char>
    decreases s.len(),
{
    if s.len() > 0 && is_whitespace(s.last()) {
        trim_end(s.drop_last())
    } else {
        s
    }
}

/// What `str::trim` returns.
pub open spec fn trim(s: Seq<char>) -> Seq<char> {
    trim_end(trim_start(s))
}

/// The pieces that `str::split` yields for a single-character separator.
pub open spec fn split_char(s: Seq<char>, sep: char) -> Seq<Seq<char>>
    decreases s.len(),
{
    if s.len() == 0 {
        seq![Seq::empty()]
    } else {
        let p = split_char(s.drop_last(), sep);
        if s.last() == sep {
            p.push(Seq::empty())
        } else {
            p.update(p.len() - 1, p.last().push(s.last()))
        }
    }
}

/// `s` without one carriage return at its end.
pub open spec fn strip_cr(s: Seq<char>) -> Seq<char> {
    if s.len() > 0 && s.last() == '\r' {
        s.drop_last()
    } else {
        s
    }
}

/// What `str::lines` yields: the pieces between newlines, a carriage return
/// before a newline dropped, and no empty piece after a final newline.
pub open spec fn lines(s: Seq<char>) -> Seq<Seq<char>> {
    let p = split_char(s, '\n');
    let n: int = if p.last().len() == 0 {
        p.len() - 1
    } else {
        p.len() as int
    };
    Seq::new(
        n as nat,
        |k: int|
            if k < p.len() - 1 {
                strip_cr(p[k])
            } else {
                p[k]
            },
    )
}

/// `pat` occurs in `s` at index `i`.
pub open spec fn occurs_at(s: Seq<char>, pat: Seq<char>, i: int) -> bool {
    0 <= i && i + pat.len() <= s.len() && s.subrange(i, i + pat.len()) == pat
}

/// What `str::contains` returns for a string pattern.
pub open spec fn contains(s: Seq<char>, pat: Seq<char>) -> bool {
    exists|i: int| occurs_at(s, pat, i)
}

pub open spec fn starts_with(s: Seq<char>, pat: Seq<char>) -> bool {
    pat.len() <= s.len() && s.subrange(0, pat.len() as int) == pat
}

/// The text before the first occurrence of `pat`, or all of `s`: the first
/// piece that `str::split` yields for a string pattern.
pub open spec fn before_first(s: Seq<char>, pat: Seq<char>) -> Seq<char> {
    if contains(s, pat) {
        s.subrange(0, choose|i: int| occurs_at(s, pat, i) && forall|j: int| 0 <= j < i ==> !occurs_at(s, pat, j))
    } else {
        s
    }
}

/// The value of a string of decimal digits.
pub open spec fn digits_value(s: Seq<char>) -> nat
    decreases s.len(),
{
    if s.len() == 0 {
        0
    } else {
        digits_value(s.drop_last()) * 10 + digit_value(s.last())
    }
}

pub open spec fn all_digits(s: Seq<char>) -> bool {
    forall|i: int| 0 <= i < s.len() ==> is_ascii_digit(#[trigger] s[i])
}

/// What `str::parse::<u64>` returns: an optional `+`, then one or more
/// decimal digits whose value fits in a `u64`.
pub open spec fn parse_u64_spec(s: Seq<char>) -> Option<u64> {
    let body = if s.len() > 0 && s[0] == '+' {
        s.drop_first()
    } else {
        s
    };
    if body.len() > 0 && all_digits(body) && digits_value(body) <= u64::MAX {
        Some(digits_value(body) as u64)
    } else {
        None
    }
}

/// The decimal notation of `n`.
pub open spec fn decimal(n: nat) -> Seq<char>
    decreases n,
{
    if n < 10 {
        seq![digit_char(n)]
    } else {
        decimal(n / 10).push(digit_char(n % 10))
    }
}

pub open spec fn digit_char(d: nat) -> char {
    ((d + '0' as u32) as u32) as char
}

/// The view of each `String` of a sequence.
pub open spec fn views(v: Seq<String>) -> Seq<Seq<char>> {
    v.map_values(|s: String| s@)
}

/// Appends a character to a `String`.
///
/// Wraps `String::push`, whose documentation says that it appends the given
/// `char` to the end of the string; the contract states exactly that.
#[verifier::external_body]
pub(crate) fn push_char(s: &mut String, c: char)
    ensures
        final(s)@ == old(s)@.push(c),
{
    s.push(c)
}

/// The characters of `s`.
pub fn chars_of(s: &str) -> (v: Vec<char>)
    ensures
        v@ == s@,
{
    let n = s.unicode_len();
    let mut v: Vec<char> = Vec::new();
    let mut i: usize = 0;
    while i < n
        invariant
            n == s@.len(),
            i <= n,
            v@ == s@.subrange(0, i as int),
        decreases n - i,
    {
        let c = s.get_char(i);
        v.push(c);
        i += 1;
        assert(v@ == s@.subrange(0, i as int));
    }
    v
}

/// A `String` holding `v[lo..hi]`.
pub fn string_from(v: &Vec<char>, lo: usize, hi: usize) -> (r: String)
    requires
        lo <= hi <= v@.len(),
    ensures
        r@ == v@.subrange(lo as int, hi as int),
{
    let mut r = String::new();
    let mut i = lo;
    while i < hi
        invariant
            lo <= i <= hi <= v@.len(),
            r@ == v@.subrange(lo as int, i as int),
        decreases hi - i,
    {
        push_char(&mut r, v[i]);
        i += 1;
        assert(r@ == v@.subrange(lo as int, i as int));
    }
    r
}

/// A `String` holding the characters of `s`.
pub fn string_of_seq(v: &Vec<char>) -> (r: String)
    ensures
        r@ == v@,
{
    let r = string_from(v, 0, v.len());
    assert(v@.subrange(0, v@.len() as int) == v@);
    r
}

pub fn str_to_string(s: &str) -> (r: String)
    ensures
        r@ == s@,
{
    let v = chars_of(s);
    string_of_seq(&v)
}

/// Appends `t` to `s`.
pub fn append_str(s: &mut String, t: &str)
    ensures
        final(s)@ == old(s)@ + t@,
{
    let v = chars_of(t);
    let mut i: usize = 0;
    while i < v.len()
        invariant
            i <= v@.len(),
            v@ == t@,
            s@ == old(s)@ + v@.subrange(0, i as int),
        decreases v.len() - i,
    {
        push_char(s, v[i]);
        i += 1;
        assert(s@ == old(s)@ + v@.subrange(0, i as int));
    }
    assert(v@.subrange(0, v@.len() as int) == v@);
}

/// `a` followed by `b`.
pub fn concat2(a: &str, b: &str) -> (r: String)
    ensures
        r@ == a@ + b@,
{
    let mut r = str_to_string(a);
    append_str(&mut r, b);
    r
}

/// `a`, `b` and `c` one after the other.
pub fn concat3(a: &str, b: &str, c: &str) -> (r: String)
    ensures
        r@ == a@ + b@ + c@,
{
    let mut r = str_to_string(a);
    append_str(&mut r, b);
    append_str(&mut r, c);
    r
}

/// What `trim_start` leaves is a suffix of `s` that does not start with
/// whitespace.
pub proof fn lemma_trim_start_suffix(s: Seq<char>)
    ensures
        trim_start(s).len() <= s.len(),
        trim_start(s) == s.subrange(s.len() - trim_start(s).len(), s.len() as int),
        trim_start(s).len() > 0 ==> !is_whitespace(trim_start(s)[0]),
    decreases s.len(),
{
    if s.len() > 0 && is_whitespace(s[0]) {
        let d = s.drop_first();
        lemma_trim_start_suffix(d);
        let t = trim_start(d);
        assert(d.subrange(d.len() - t.len(), d.len() as int) =~= s.subrange(
            s.len() - t.len(),
            s.len() as int,
        ));
    } else {
        assert(s.subrange(0, s.len() as int) =~= s);
    }
}

/// What `trim_end` leaves is a prefix of `s` that does not end with
/// whitespace.
pub proof fn lemma_trim_end_prefix(s: Seq<char>)
    ensures
        trim_end(s).len() <= s.len(),
        trim_end(s) == s.subrange(0, trim_end(s).len() as int),
        trim_end(s).len() > 0 ==> !is_whitespace(trim_end(s).last()),
    decreases s.len(),
{
    if s.len() > 0 && is_whitespace(s.last()) {
        let d = s.drop_last();
        lemma_trim_end_prefix(d);
        let t = trim_end(d);
        assert(d.subrange(0, t.len() as int) =~= s.subrange(0, t.len() as int));
    } else {
        assert(s.subrange(0, s.len() as int) =~= s);
    }
}

/// Trimmed text is made of characters of `s`, in order, and neither starts
/// nor ends with whitespace.
pub proof fn lemma_trim_shape(s: Seq<char>)
    ensures
        trim(s).len() <= trim_start(s).len() <= s.len(),
        forall|i: int|
            0 <= i < trim(s).len() ==> #[trigger] trim(s)[i] == s[s.len() - trim_start(s).len()
                + i],
        trim(s).len() > 0 ==> !is_whitespace(trim(s)[0]) && !is_whitespace(trim(s).last()),
{
    let a = trim_start(s);
    lemma_trim_start_suffix(s);
    lemma_trim_end_prefix(a);
    let t = trim(s);
    assert forall|i: int| 0 <= i < t.len() implies #[trigger] t[i] == s[s.len() - a.len() + i] by {
        assert(t[i] == a[i]);
    }
    if t.len() > 0 {
        assert(t[0] == a[0]);
    }
}

/// Text that neither starts nor ends with whitespace is its own trim.
pub proof fn lemma_trim_unpadded(s: Seq<char>)
    requires
        s.len() > 0 ==> !is_whitespace(s[0]) && !is_whitespace(s.last()),
    ensures
        trim(s) == s,
{
}

proof fn lemma_trim_start_skip(s: Seq<char>, a: int)
    requires
        0 <= a < s.len(),
        is_whitespace(s[a]),
    ensures
        trim_start(s.subrange(a, s.len() as int)) == trim_start(s.subrange(a + 1, s.len() as int)),
{
    let t = s.subrange(a, s.len() as int);
    assert(t.drop_first() == s.subrange(a + 1, s.len() as int));
}

proof fn lemma_trim_end_skip(s: Seq<char>, b: int)
    requires
        0 < b <= s.len(),
        is_whitespace(s[b - 1]),
    ensures
        trim_end(s.subrange(0, b)) == trim_end(s.subrange(0, b - 1)),
{
    let t = s.subrange(0, b);
    assert(t.drop_last() == s.subrange(0, b - 1));
}

/// Bounds of the trimmed part of `v[lo..hi]`.
pub fn trim_bounds(v: &Vec<char>, lo: usize, hi: usize) -> (r: (usize, usize))
    requires
        lo <= hi <= v@.len(),
    ensures
        lo <= r.0 <= r.1 <= hi,
        v@.subrange(r.0 as int, r.1 as int) == trim(v@.subrange(lo as int, hi as int)),
{
    let ghost s = v@.subrange(lo as int, hi as int);
    let mut a = lo;
    while a < hi && char_is_whitespace(v[a])
        invariant
            lo <= a <= hi <= v@.len(),
            s == v@.subrange(lo as int, hi as int),
            trim_start(s) == trim_start(v@.subrange(a as int, hi as int)),
        decreases hi - a,
    {
        proof {
            let w = v@.subrange(lo as int, hi as int);
            assert(v@.subrange(a as int, hi as int) == w.subrange(a - lo, w.len() as int));
            assert(v@.subrange(a + 1, hi as int) == w.subrange(a + 1 - lo, w.len() as int));
            lemma_trim_start_skip(w, a - lo);
        }
        a += 1;
    }
    let ghost m = v@.subrange(a as int, hi as int);
    assert(trim_start(m) == m);
    let mut b = hi;
    while b > a && char_is_whitespace(v[b - 1])
        invariant
            lo <= a <= b <= hi <= v@.len(),
            m == v@.subrange(a as int, hi as int),
            trim_end(m) == trim_end(v@.subrange(a as int, b as int)),
        decreases b - a,
    {
        proof {
            assert(v@.subrange(a as int, b as int) == m.subrange(0, b - a));
            assert(v@.subrange(a as int, b - 1) == m.subrange(0, b - 1 - a));
            lemma_trim_end_skip(m, b - a);
        }
        b -= 1;
    }
    let ghost e = v@.subrange(a as int, b as int);
    assert(trim_end(e) == e);
    (a, b)
}

/// What `str::trim` returns, as an owned `String`.
pub fn trimmed(s: &str) -> (r: String)
    ensures
        r@ == trim(s@),
{
    let v = chars_of(s);
    let (a, b) = trim_bounds(&v, 0, v.len());
    assert(v@.subrange(0, v@.len() as int) == v@);
    string_from(&v, a, b)
}

pub proof fn lemma_split_char_nonempty(s: Seq<char>, sep: char)
    ensures
        split_char(s, sep).len() >= 1,
    decreases s.len(),
{
    if s.len() > 0 {
        lemma_split_char_nonempty(s.drop_last(), sep);
    }
}

/// The ranges of the pieces of `v[lo..hi]` split at `sep`.
pub fn split_ranges(v: &Vec<char>, lo: usize, hi: usize, sep: char) -> (r: Vec<(usize, usize)>)
    requires
        lo <= hi <= v@.len(),
    ensures
        r@.len() == split_char(v@.subrange(lo as int, hi as int), sep).len(),
        forall|k: int|
            0 <= k < r@.len() ==> lo <= (#[trigger] r@[k]).0 <= r@[k].1 <= hi && v@.subrange(
                r@[k].0 as int,
                r@[k].1 as int,
            ) == split_char(v@.subrange(lo as int, hi as int), sep)[k],
{
    let mut r: Vec<(usize, usize)> = Vec::new();
    let mut start = lo;
    let mut i = lo;
    proof {
        assert(v@.subrange(lo as int, lo as int) =~= Seq::<char>::empty());
    }
    while i < hi
        invariant
            lo <= start <= i <= hi <= v@.len(),
            r@.len() + 1 == split_char(v@.subrange(lo as int, i as int), sep).len(),
            forall|k: int|
                0 <= k < r@.len() ==> lo <= (#[trigger] r@[k]).0 <= r@[k].1 <= hi && v@.subrange(
                    r@[k].0 as int,
                    r@[k].1 as int,
                ) == split_char(v@.subrange(lo as int, i as int), sep)[k],
            v@.subrange(start as int, i as int) == split_char(
                v@.subrange(lo as int, i as int),
                sep,
            ).last(),
        decreases hi - i,
    {
        let ghost pre = v@.subrange(lo as int, i as int);
        let ghost post = v@.subrange(lo as int, i + 1);
        proof {
            assert(post.drop_last() == pre);
            lemma_split_char_nonempty(pre, sep);
        }
        if v[i] == sep {
            r.push((start, i));
            start = i + 1;
            proof {
                assert(v@.subrange(start as int, i + 1) =~= Seq::<char>::empty());
            }
        } else {
            proof {
                assert(v@.subrange(start as int, i + 1) == v@.subrange(start as int, i as int).push(
                    v@[i as int],
                ));
            }
        }
        i += 1;
    }
    r.push((start, hi));
    r
}

/// The ranges of the lines of `v`, as `str::lines` yields them.
pub fn line_ranges(v: &Vec<char>) -> (r: Vec<(usize, usize)>)
    ensures
        r@.len() == lines(v@).len(),
        forall|k: int|
            0 <= k < r@.len() ==> (#[trigger] r@[k]).0 <= r@[k].1 <= v@.len() && v@.subrange(
                r@[k].0 as int,
                r@[k].1 as int,
            ) == lines(v@)[k],
{
    let p = split_ranges(v, 0, v.len(), '\n');
    let ghost ps = split_char(v@, '\n');
    assert(v@.subrange(0, v@.len() as int) == v@);
    proof {
        lemma_split_char_nonempty(v@, '\n');
    }
    let last = p[p.len() - 1];
    let n = if last.0 == last.1 {
        p.len() - 1
    } else {
        p.len()
    };
    assert(n == lines(v@).len()) by {
        assert(v@.subrange(last.0 as int, last.1 as int) == ps.last());
    }
    let mut r: Vec<(usize, usize)> = Vec::new();
    let mut k: usize = 0;
    while k < n
        invariant
            n <= p@.len(),
            p@.len() == ps.len(),
            n == lines(v@).len(),
            ps == split_char(v@, '\n'),
            forall|j: int|
                0 <= j < p@.len() ==> (#[trigger] p@[j]).0 <= p@[j].1 <= v@.len() && v@.subrange(
                    p@[j].0 as int,
                    p@[j].1 as int,
                ) == ps[j],
            k <= n,
            r@.len() == k,
            forall|j: int|
                0 <= j < k ==> (#[trigger] r@[j]).0 <= r@[j].1 <= v@.len() && v@.subrange(
                    r@[j].0 as int,
                    r@[j].1 as int,
                ) == lines(v@)[j],
        decreases n - k,
    {
        let (a, b) = p[k];
        let ghost piece = v@.subrange(a as int, b as int);
        if k + 1 < p.len() && b > a && v[b - 1] == '\r' {
            r.push((a, b - 1));
            proof {
                assert(v@.subrange(a as int, b - 1) == piece.drop_last());
            }
        } else {
            r.push((a, b));
        }
        k += 1;
    }
    r
}

/// The strings that the ranges `r` delimit in `v`.
pub fn strings_of_ranges(v: &Vec<char>, r: &Vec<(usize, usize)>) -> (out: Vec<String>)
    requires
        forall|k: int| 0 <= k < r@.len() ==> (#[trigger] r@[k]).0 <= r@[k].1 <= v@.len(),
    ensures
        out@.len() == r@.len(),
        forall|k: int|
            0 <= k < r@.len() ==> (#[trigger] out@[k])@ == v@.subrange(
                r@[k].0 as int,
                r@[k].1 as int,
            ),
{
    let mut out: Vec<String> = Vec::new();
    let mut k: usize = 0;
    while k < r.len()
        invariant
            k <= r@.len(),
            out@.len() == k,
            forall|j: int| 0 <= j < r@.len() ==> (#[trigger] r@[j]).0 <= r@[j].1 <= v@.len(),
            forall|j: int|
                0 <= j < k ==> (#[trigger] out@[j])@ == v@.subrange(
                    r@[j].0 as int,
                    r@[j].1 as int,
                ),
        decreases r@.len() - k,
    {
        let (a, b) = r[k];
        out.push(string_from(v, a, b));
        k += 1;
    }
    out
}

/// The lines of `s`, as `str::lines` yields them.
pub fn lines_of(s: &str) -> (out: Vec<String>)
    ensures
        views(out@) == lines(s@),
{
    let v = chars_of(s);
    let r = line_ranges(&v);
    let out = strings_of_ranges(&v, &r);
    assert(views(out@) =~= lines(s@));
    out
}

/// The pieces of `s` split at `sep`, as `str::split` yields them.
pub fn split_of(s: &str, sep: char) -> (out: Vec<String>)
    ensures
        views(out@) == split_char(s@, sep),
{
    let v = chars_of(s);
    let r = split_ranges(&v, 0, v.len(), sep);
    assert(v@.subrange(0, v@.len() as int) == v@);
    let out = strings_of_ranges(&v, &r);
    assert(views(out@) =~= split_char(s@, sep));
    out
}

/// Whether `v[i..]` begins with `pat`.
pub fn matches_at(v: &Vec<char>, pat: &Vec<char>, i: usize) -> (b: bool)
    requires
        i <= v@.len(),
    ensures
        b == occurs_at(v@, pat@, i as int),
{
    if pat.len() > v.len() - i {
        return false;
    }
    let mut j: usize = 0;
    while j < pat.len()
        invariant
            i <= v@.len(),
            i + pat@.len() <= v.len(),
            j <= pat@.len(),
            forall|t: int| 0 <= t < j ==> v@[i + t] == pat@[t],
        decreases pat@.len() - j,
    {
        if v[i + j] != pat[j] {
            assert(v@.subrange(i as int, i + pat@.len())[j as int] != pat@[j as int]);
            return false;
        }
        j += 1;
    }
    assert(v@.subrange(i as int, i + pat@.len()) =~= pat@);
    true
}

/// The first index at which `pat` occurs in `v`, if any.
pub fn find(v: &Vec<char>, pat: &Vec<char>) -> (r: Option<usize>)
    ensures
        match r {
            Some(i) => occurs_at(v@, pat@, i as int) && forall|j: int|
                0 <= j < i ==> !occurs_at(v@, pat@, j),
            None => !contains(v@, pat@),
        },
{
    let mut i: usize = 0;
    while i < v.len()
        invariant
            i <= v@.len(),
            forall|j: int| 0 <= j < i ==> !occurs_at(v@, pat@, j),
        decreases v@.len() - i,
    {
        if matches_at(v, pat, i) {
            return Some(i);
        }
        i += 1;
    }
    if matches_at(v, pat, i) {
        return Some(i);
    }
    assert forall|j: int| !occurs_at(v@, pat@, j) by {
        if 0 <= j && j + pat@.len() <= v@.len() {
            assert(j <= i);
        }
    }
    None
}

/// What `str::contains` returns for a string pattern.
pub fn str_contains(s: &str, pat: &str) -> (b: bool)
    ensures
        b == contains(s@, pat@),
{
    let v = chars_of(s);
    let p = chars_of(pat);
    match find(&v, &p) {
        Some(_) => true,
        None => false,
    }
}

/// What `str::starts_with` returns for a string pattern.
pub fn str_starts_with(s: &str, pat: &str) -> (b: bool)
    ensures
        b == starts_with(s@, pat@),
{
    let v = chars_of(s);
    let p = chars_of(pat);
    matches_at(&v, &p, 0)
}

/// Whether `a` and `b` hold the same characters.
pub fn str_eq(a: &str, b: &str) -> (r: bool)
    ensures
        r == (a@ == b@),
{
    let v = chars_of(a);
    let w = chars_of(b);
    if v.len() != w.len() {
        return false;
    }
    let r = matches_at(&v, &w, 0);
    assert(r ==> v@ =~= w@) by {
        if r {
            assert(v@.subrange(0, w@.len() as int) == w@);
            assert(v@.subrange(0, v@.len() as int) == v@);
        }
    }
    assert(v@ == w@ ==> r) by {
        if v@ == w@ {
            assert(v@.subrange(0, w@.len() as int) =~= w@);
        }
    }
    r
}

/// The text of `s` before the first occurrence of `pat`, or all of `s`.
pub fn str_before_first(s: &str, pat: &str) -> (r: String)
    ensures
        r@ == before_first(s@, pat@),
{
    let v = chars_of(s);
    let p = chars_of(pat);
    match find(&v, &p) {
        Some(i) => {
            proof {
                assert(occurs_at(s@, pat@, i as int) && forall|j: int| 0 <= j < i ==> !occurs_at(s@, pat@, j));
                let c = choose|k: int|
                    occurs_at(s@, pat@, k) && forall|j: int| 0 <= j < k ==> !occurs_at(s@, pat@, j);
                assert(occurs_at(s@, pat@, i as int));
                assert(c == i) by {
                    if c < i {
                    } else if c > i {
                    }
                }
            }
            string_from(&v, 0, i)
        },
        None => {
            assert(v@.subrange(0, v@.len() as int) == v@);
            string_from(&v, 0, v.len())
        },
    }
}

pub proof fn lemma_digits_value_push(s: Seq<char>, c: char)
    ensures
        digits_value(s.push(c)) == digits_value(s) * 10 + digit_value(c),
{
    assert(s.push(c).drop_last() == s);
}

/// What `str::parse::<u64>` returns, `None` standing for the error.
pub fn parse_u64(s: &str) -> (r: Option<u64>)
    ensures
        r == parse_u64_spec(s@),
{
    let v = chars_of(s);
    let mut i: usize = 0;
    if v.len() > 0 && v[0] == '+' {
        i = 1;
    }
    let ghost body = if s@.len() > 0 && s@[0] == '+' {
        s@.drop_first()
    } else {
        s@
    };
    assert(body == v@.subrange(i as int, v@.len() as int));
    if i == v.len() {
        return None;
    }
    let start = i;
    let mut acc: u64 = 0;
    while i < v.len()
        invariant
            start <= i <= v@.len(),
            start < v@.len(),
            v@ == s@,
            body == (if s@.len() > 0 && s@[0] == '+' {
                s@.drop_first()
            } else {
                s@
            }),
            body == v@.subrange(start as int, v@.len() as int),
            all_digits(v@.subrange(start as int, i as int)),
            acc == digits_value(v@.subrange(start as int, i as int)),
        decreases v@.len() - i,
    {
        let c = v[i];
        let ghost pre = v@.subrange(start as int, i as int);
        assert(v@.subrange(start as int, i + 1) == pre.push(c));
        proof {
            lemma_digits_value_push(pre, c);
        }
        if !('0' <= c && c <= '9') {
            assert(!all_digits(body)) by {
                assert(body[i - start] == c);
            }
            return None;
        }
        let d = (c as u32 - '0' as u32) as u64;
        if acc > (u64::MAX - d) / 10 {
            proof {
                assert(acc * 10 + d > u64::MAX) by (nonlinear_arith)
                    requires
                        acc > (u64::MAX - d) / 10,
                        d <= 9,
                ;
                if all_digits(body) {
                    lemma_digits_value_prefix_le(body, (i + 1 - start) as int);
                    assert(body.subrange(0, (i + 1 - start) as int) == pre.push(c));
                }
            }
            return None;
        }
        acc = acc * 10 + d;
        i += 1;
        assert(all_digits(v@.subrange(start as int, i as int))) by {
            assert(v@.subrange(start as int, i as int) == pre.push(c));
        }
    }
    Some(acc)
}

/// A prefix of a digit string is worth no more than the whole string.
pub proof fn lemma_digits_value_prefix_le(s: Seq<char>, k: int)
    requires
        0 <= k <= s.len(),
        all_digits(s),
    ensures
        digits_value(s.subrange(0, k)) <= digits_value(s),
    decreases s.len() - k,
{
    if k < s.len() {
        lemma_digits_value_prefix_le(s, k + 1);
        let p = s.subrange(0, k + 1);
        assert(p.drop_last() == s.subrange(0, k));
    } else {
        assert(s.subrange(0, k) == s);
    }
}

proof fn lemma_decimal_len(n: nat)
    ensures
        decimal(n).len() >= 1,
    decreases n,
{
    if n >= 10 {
        lemma_decimal_len(n / 10);
    }
}

/// The decimal notation of `n`.
pub fn decimal_string(n: u64) -> (r: String)
    ensures
        r@ == decimal(n as nat),
    decreases n,
{
    if n < 10 {
        let mut r = String::new();
        let c = char_of_digit(n);
        push_char(&mut r, c);
        assert(r@ == seq![digit_char(n as nat)]);
        r
    } else {
        let mut r = decimal_string(n / 10);
        let c = char_of_digit(n % 10);
        push_char(&mut r, c);
        r
    }
}

fn char_of_digit(d: u64) -> (c: char)
    requires
        d < 10,
    ensures
        c == digit_char(d as nat),
{
    let c = match d {
        0 => '0',
        1 => '1',
        2 => '2',
        3 => '3',
        4 => '4',
        5 => '5',
        6 => '6',
        7 => '7',
        8 => '8',
        _ => '9',
    };
    c
}

/// The tab-separated fields of each line of `ls` that has at least `n`
/// fields, in order; lines with fewer fields are skipped.
pub open spec fn rows_with_fields(ls: Seq<Seq<char>>, n: nat) -> Seq<Seq<Seq<char>>>
    decreases ls.len(),
{
    if ls.len() == 0 {
        Seq::empty()
    } else {
        let prev = rows_with_fields(ls.drop_last(), n);
        let f = split_char(ls.last(), '\t');
        if f.len() >= n {
            prev.push(f)
        } else {
            prev
        }
    }
}

/// Every row kept has at least `n` fields.
pub proof fn lemma_rows_have_fields(ls: Seq<Seq<char>>, n: nat)
    ensures
        forall|j: int|
            0 <= j < rows_with_fields(ls, n).len() ==> (#[trigger] rows_with_fields(ls, n)[j]).len()
                >= n,
    decreases ls.len(),
{
    if ls.len() > 0 {
        lemma_rows_have_fields(ls.drop_last(), n);
        let prev = rows_with_fields(ls.drop_last(), n);
        let f = split_char(ls.last(), '\t');
        if f.len() >= n {
            assert forall|j: int| 0 <= j < prev.push(f).len() implies (#[trigger] prev.push(f)[j]).len() >= n by {
                if j < prev.len() {
                    assert(prev.push(f)[j] == prev[j]);
                }
            }
        }
    }
}

/// The tab-separated fields of each line of `s` that has at least `n` of
/// them.
pub fn tab_rows(s: &str, n: usize) -> (r: Vec<Vec<String>>)
    ensures
        r@.len() == rows_with_fields(lines(s@), n as nat).len(),
        forall|k: int|
            0 <= k < rows_with_fields(lines(s@), n as nat).len() ==> (
            #[trigger] rows_with_fields(lines(s@), n as nat)[k]).len() >= n,
        forall|k: int|
            0 <= k < r@.len() ==> views((#[trigger] r@[k])@) == rows_with_fields(
                lines(s@),
                n as nat,
            )[k],
{
    let ls = lines_of(s);
    let ghost lv = lines(s@);
    proof {
        lemma_rows_have_fields(lv, n as nat);
    }
    let mut r: Vec<Vec<String>> = Vec::new();
    let mut i: usize = 0;
    while i < ls.len()
        invariant
            i <= ls@.len(),
            views(ls@) == lv,
            lv == lines(s@),
            r@.len() == rows_with_fields(lv.subrange(0, i as int), n as nat).len(),
            forall|k: int|
                0 <= k < r@.len() ==> views((#[trigger] r@[k])@) == rows_with_fields(
                    lv.subrange(0, i as int),
                    n as nat,
                )[k],
        decreases ls@.len() - i,
    {
        let f = split_of(ls[i].as_str(), '\t');
        proof {
            assert(lv.subrange(0, i + 1).drop_last() == lv.subrange(0, i as int));
            assert(lv.subrange(0, i + 1).last() == ls@[i as int]@);
        }
        if f.len() >= n {
            r.push(f);
        }
        i += 1;
    }
    assert(lv.subrange(0, ls@.len() as int) == lv);
    r
}

/// Upper-case form of an ASCII character; other characters are unchanged.
pub open spec fn ascii_upper_char(c: char) -> char {
    if 'a' <= c && c <= 'z' {
        ((c as u32 - 32) as u32) as char
    } else {
        c
    }
}

/// Lower-case form of an ASCII character; other characters are unchanged.
pub open spec fn ascii_lower_char(c: char) -> char {
    if 'A' <= c && c <= 'Z' {
        ((c as u32 + 32) as u32) as char
    } else {
        c
    }
}

pub open spec fn ascii_upper(s: Seq<char>) -> Seq<char> {
    s.map_values(|c: char| ascii_upper_char(c))
}

pub open spec fn ascii_lower(s: Seq<char>) -> Seq<char> {
    s.map_values(|c: char| ascii_lower_char(c))
}

/// What `str::to_uppercase` returns for `s`: the Unicode upper-case mapping,
/// which depends on `s` alone.
pub uninterp spec fn uppercase(s: Seq<char>) -> Seq<char>;

/// What `str::to_lowercase` returns for `s`: the Unicode lower-case mapping,
/// which depends on `s` alone.
pub uninterp spec fn lowercase(s: Seq<char>) -> Seq<char>;

/// Wraps `str::to_uppercase`. The result is named `uppercase(s@)`; on ASCII
/// text the Unicode mapping turns `a`-`z` into `A`-`Z` and leaves every other
/// character as it is, which the second clause states.
#[verifier::external_body]
pub(crate) fn to_uppercase(s: &str) -> (r: String)
    ensures
        r@ == uppercase(s@),
        vstd::utf8::is_ascii_chars(s@) ==> r@ == ascii_upper(s@),
{
    s.to_uppercase()
}

/// Wraps `str::to_lowercase`. The result is named `lowercase(s@)`; on ASCII
/// text the Unicode mapping turns `A`-`Z` into `a`-`z` and leaves every other
/// character as it is, which the second clause states.
#[verifier::external_body]
pub(crate) fn to_lowercase(s: &str) -> (r: String)
    ensures
        r@ == lowercase(s@),
        vstd::utf8::is_ascii_chars(s@) ==> r@ == ascii_lower(s@),
{
    s.to_lowercase()
}

} // verus!
