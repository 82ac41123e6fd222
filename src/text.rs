//! Character-sequence helpers shared by the parsers: whitespace trimming,
//! splitting on a separator, prefix and substring tests, and the small
//! number grammars that catalog rows and device output use.
use vstd::prelude::*;

verus! {

/// `char::is_whitespace`: the Unicode `White_Space` property.
pub open spec fn is_space(c: char) -> bool {
    let u = c as u32;
    (9 <= u && u <= 13) || u == 32 || u == 0x85 || u == 0xA0 || u == 0x1680 || (0x2000 <= u
        && u <= 0x200A) || u == 0x2028 || u == 0x2029 || u == 0x202F || u == 0x205F || u
        == 0x3000
}

pub fn space(c: char) -> (r: bool)
    ensures
        r == is_space(c),
{
    let u = c as u32;
    (9 <= u && u <= 13) || u == 32 || u == 0x85 || u == 0xA0 || u == 0x1680 || (0x2000 <= u
        && u <= 0x200A) || u == 0x2028 || u == 0x2029 || u == 0x202F || u == 0x205F || u
        == 0x3000
}

pub open spec fn is_digit(c: char) -> bool {
    '0' <= c && c <= '9'
}

/// First index in `[lo, hi)` that holds no whitespace, or `hi`.
pub open spec fn lead_end(s: Seq<char>, lo: int, hi: int) -> int
    decreases hi - lo,
{
    if lo >= hi {
        hi
    } else if is_space(s[lo]) {
        lead_end(s, lo + 1, hi)
    } else {
        lo
    }
}

/// End of `s[lo..hi]` once its trailing whitespace is dropped.
pub open spec fn trail_start(s: Seq<char>, lo: int, hi: int) -> int
    decreases hi - lo,
{
    if hi <= lo {
        lo
    } else if is_space(s[hi - 1]) {
        trail_start(s, lo, hi - 1)
    } else {
        hi
    }
}

/// `str::trim`.
pub open spec fn trim(s: Seq<char>) -> Seq<char> {
    let a = lead_end(s, 0, s.len() as int);
    s.subrange(a, trail_start(s, a, s.len() as int))
}

/// `str::trim_end`.
pub open spec fn trim_end(s: Seq<char>) -> Seq<char> {
    s.subrange(0, trail_start(s, 0, s.len() as int))
}

/// Bounds of `s[lo..hi]` with surrounding whitespace dropped.
pub fn trim_bounds(s: &Vec<char>, lo: usize, hi: usize) -> (r: (usize, usize))
    requires
        lo <= hi <= s.len(),
    ensures
        r.0 == lead_end(s@, lo as int, hi as int),
        r.1 == trail_start(s@, r.0 as int, hi as int),
        lo <= r.0 <= r.1 <= hi,
{
    let mut a = lo;
    while a < hi && space(s[a])
        invariant
            lo <= a <= hi <= s.len(),
            lead_end(s@, lo as int, hi as int) == lead_end(s@, a as int, hi as int),
        decreases hi - a,
    {
        a = a + 1;
    }
    let mut b = hi;
    while b > a && space(s[b - 1])
        invariant
            a <= b <= hi <= s.len(),
            trail_start(s@, a as int, hi as int) == trail_start(s@, a as int, b as int),
        decreases b - a,
    {
        b = b - 1;
    }
    (a, b)
}

/// Copy of `s[lo..hi]`.
pub fn slice_of(s: &Vec<char>, lo: usize, hi: usize) -> (r: Vec<char>)
    requires
        lo <= hi <= s.len(),
    ensures
        r@ == s@.subrange(lo as int, hi as int),
{
    let mut r: Vec<char> = Vec::new();
    let mut i = lo;
    while i < hi
        invariant
            lo <= i <= hi <= s.len(),
            r@ == s@.subrange(lo as int, i as int),
        decreases hi - i,
    {
        r.push(s[i]);
        i = i + 1;
    }
    r
}

/// Trimmed copy of `s`.
pub fn trimmed(s: &Vec<char>) -> (r: Vec<char>)
    ensures
        r@ == trim(s@),
{
    let (a, b) = trim_bounds(s, 0, s.len());
    slice_of(s, a, b)
}

/// Pieces of `s` between occurrences of `sep` (`str::split` on one char).
pub open spec fn split(s: Seq<char>, sep: char) -> Seq<Seq<char>>
    decreases s.len(),
{
    if s.len() == 0 {
        seq![Seq::empty()]
    } else {
        let p = split(s.drop_last(), sep);
        if s.last() == sep {
            p.push(Seq::empty())
        } else {
            p.update(p.len() - 1, p.last().push(s.last()))
        }
    }
}

pub proof fn lemma_split_nonempty(s: Seq<char>, sep: char)
    ensures
        split(s, sep).len() >= 1,
    decreases s.len(),
{
    if s.len() > 0 {
        lemma_split_nonempty(s.drop_last(), sep);
    }
}

pub open spec fn views(v: Seq<Vec<char>>) -> Seq<Seq<char>> {
    v.map_values(|x: Vec<char>| x@)
}

pub open spec fn string_views(v: Seq<String>) -> Seq<Seq<char>> {
    v.map_values(|x: String| x@)
}

/// Pieces of `s[lo..hi]` between occurrences of `sep`.
pub fn split_range(s: &Vec<char>, lo: usize, hi: usize, sep: char) -> (r: Vec<Vec<char>>)
    requires
        lo <= hi <= s.len(),
    ensures
        views(r@) == split(s@.subrange(lo as int, hi as int), sep),
{
    let mut done: Vec<Vec<char>> = Vec::new();
    let mut cur: Vec<char> = Vec::new();
    let mut i = lo;
    while i < hi
        invariant
            lo <= i <= hi <= s.len(),
            views(done@).push(cur@) == split(s@.subrange(lo as int, i as int), sep),
        decreases hi - i,
    {
        let ghost prev = s@.subrange(lo as int, i as int);
        let ghost next = s@.subrange(lo as int, i + 1);
        proof {
            assert(next.drop_last() =~= prev);
            lemma_split_nonempty(prev, sep);
        }
        let c = s[i];
        if c == sep {
            let piece = cur;
            done.push(piece);
            cur = Vec::new();
            assert(views(done@).push(cur@) =~= split(next, sep));
        } else {
            cur.push(c);
            assert(views(done@).push(cur@) =~= split(next, sep));
        }
        i = i + 1;
    }
    done.push(cur);
    assert(views(done@) =~= split(s@.subrange(lo as int, hi as int), sep));
    done
}

/// Pieces of `s` between occurrences of `sep`.
pub fn split_all(s: &Vec<char>, sep: char) -> (r: Vec<Vec<char>>)
    ensures
        views(r@) == split(s@, sep),
{
    let r = split_range(s, 0, s.len(), sep);
    assert(s@.subrange(0, s@.len() as int) =~= s@);
    r
}

pub open spec fn starts_with(s: Seq<char>, p: Seq<char>) -> bool {
    p.len() <= s.len() && s.subrange(0, p.len() as int) == p
}

pub open spec fn ends_with(s: Seq<char>, p: Seq<char>) -> bool {
    p.len() <= s.len() && s.subrange(s.len() - p.len(), s.len() as int) == p
}

/// `p` occurs in `s` at index `i`.
pub open spec fn occurs_at(s: Seq<char>, p: Seq<char>, i: int) -> bool {
    0 <= i && i + p.len() <= s.len() && s.subrange(i, i + p.len()) == p
}

/// `str::contains` for a string pattern.
pub open spec fn contains(s: Seq<char>, p: Seq<char>) -> bool {
    exists|i: int| occurs_at(s, p, i)
}

pub fn occurs_at_exec(s: &Vec<char>, p: &Vec<char>, i: usize) -> (r: bool)
    ensures
        r == occurs_at(s@, p@, i as int),
{
    if p.len() > s.len() || i > s.len() - p.len() {
        return false;
    }
    let mut k: usize = 0;
    while k < p.len()
        invariant
            i + p.len() <= s.len(),
            k <= p.len(),
            forall|j: int| 0 <= j < k ==> s@[i + j] == p@[j],
        decreases p.len() - k,
    {
        if s[i + k] != p[k] {
            assert(s@.subrange(i as int, i + p.len())[k as int] != p@[k as int]);
            return false;
        }
        k = k + 1;
    }
    assert(s@.subrange(i as int, i + p.len()) =~= p@);
    true
}

pub fn starts_with_exec(s: &Vec<char>, p: &Vec<char>) -> (r: bool)
    ensures
        r == starts_with(s@, p@),
{
    occurs_at_exec(s, p, 0)
}

pub fn ends_with_exec(s: &Vec<char>, p: &Vec<char>) -> (r: bool)
    ensures
        r == ends_with(s@, p@),
{
    if p.len() > s.len() {
        return false;
    }
    occurs_at_exec(s, p, s.len() - p.len())
}

pub fn contains_exec(s: &Vec<char>, p: &Vec<char>) -> (r: bool)
    ensures
        r == contains(s@, p@),
{
    if p.len() > s.len() {
        assert forall|i: int| !occurs_at(s@, p@, i) by {}
        return false;
    }
    if p.len() == 0 {
        assert(s@.subrange(0, 0) =~= p@);
        assert(occurs_at(s@, p@, 0));
        return true;
    }
    let mut i: usize = 0;
    while i <= s.len() - p.len()
        invariant
            1 <= p.len() <= s.len(),
            i <= s.len() - p.len() + 1,
            forall|j: int| 0 <= j < i ==> !occurs_at(s@, p@, j),
        decreases s.len() - p.len() + 1 - i,
    {
        if occurs_at_exec(s, p, i) {
            return true;
        }
        i = i + 1;
    }
    assert forall|j: int| !occurs_at(s@, p@, j) by {
        if 0 <= j < i {
        }
    }
    false
}

/// Relies on `str::chars`: it yields the characters of `s` in order.
#[verifier::external_body]
pub(crate) fn chars_of(s: &str) -> (r: Vec<char>)
    ensures
        r@ == s@,
{
    s.chars().collect()
}

/// Relies on `String: FromIterator<&char>`: the string of those characters.
#[verifier::external_body]
pub(crate) fn string_of(v: &Vec<char>) -> (r: String)
    ensures
        r@ == v@,
{
    v.iter().collect()
}

/// Characters of a string literal or other `&str`, as a `Vec`.
pub fn chars_vec(s: &str) -> (r: Vec<char>)
    ensures
        r@ == s@,
{
    chars_of(s)
}

pub open spec fn all_digits(s: Seq<char>) -> bool {
    s.len() > 0 && forall|i: int| 0 <= i < s.len() ==> is_digit(#[trigger] s[i])
}

/// `^\d+(\.\d+)?$` over ASCII digits.
pub open spec fn is_decimal(s: Seq<char>) -> bool {
    all_digits(s) || exists|k: int|
        0 < k < s.len() && #[trigger] s[k] == '.' && all_digits(s.subrange(0, k)) && all_digits(
            s.subrange(k + 1, s.len() as int),
        )
}

pub fn is_decimal_exec(s: &Vec<char>) -> (r: bool)
    ensures
        r == is_decimal(s@),
{
    let n = s.len();
    let mut i: usize = 0;
    while i < n && '0' <= s[i] && s[i] <= '9'
        invariant
            i <= n == s.len(),
            forall|m: int| 0 <= m < i ==> is_digit(#[trigger] s@[m]),
        decreases n - i,
    {
        i = i + 1;
    }
    if i == n {
        if n > 0 {
            return true;
        }
        assert(!all_digits(s@));
        return false;
    }
    if i == 0 || s[i] != '.' {
        assert forall|k: int|
            0 < k < s@.len() && #[trigger] s@[k] == '.' && all_digits(s@.subrange(0, k))
                implies !all_digits(s@.subrange(k + 1, s@.len() as int)) by {
            if k < i {
            } else if k > i {
                assert(s@.subrange(0, k)[i as int] == s@[i as int]);
            }
        }
        assert(!all_digits(s@)) by {
            assert(!is_digit(s@[i as int]));
        }
        return false;
    }
    let mut j: usize = i + 1;
    while j < n && '0' <= s[j] && s[j] <= '9'
        invariant
            i < j <= n == s.len(),
            forall|m: int| i < m < j ==> is_digit(#[trigger] s@[m]),
        decreases n - j,
    {
        j = j + 1;
    }
    let ok = j == n && j > i + 1;
    assert(!is_digit(s@[i as int]));
    assert(!all_digits(s@));
    if ok {
        assert(all_digits(s@.subrange(0, i as int)));
        assert(all_digits(s@.subrange(i + 1, s@.len() as int))) by {
            assert forall|m: int| 0 <= m < s@.len() - i - 1 implies is_digit(
                #[trigger] s@.subrange(i + 1, s@.len() as int)[m],
            ) by {
                assert(s@.subrange(i + 1, s@.len() as int)[m] == s@[i + 1 + m]);
            }
        }
    } else {
        assert forall|k: int|
            0 < k < s@.len() && #[trigger] s@[k] == '.' && all_digits(s@.subrange(0, k))
                implies !all_digits(s@.subrange(k + 1, s@.len() as int)) by {
            if k < i {
            } else if k > i {
                assert(s@.subrange(0, k)[i as int] == s@[i as int]);
            } else {
                if j < n {
                    assert(s@.subrange(k + 1, s@.len() as int)[j - k - 1] == s@[j as int]);
                }
            }
        }
    }
    ok
}

pub open spec fn digit_value(c: char) -> int {
    (c as u32) as int - ('0' as u32) as int
}

/// Value of a run of decimal digits.
pub open spec fn digits_value(s: Seq<char>) -> int
    decreases s.len(),
{
    if s.len() == 0 {
        0
    } else {
        digits_value(s.drop_last()) * 10 + digit_value(s.last())
    }
}

/// `str::parse::<i64>`: an optional sign, then one or more ASCII digits, in range.
pub open spec fn parse_int(s: Seq<char>) -> Option<int> {
    if s.len() > 0 && (s[0] == '+' || s[0] == '-') {
        let d = s.drop_first();
        if all_digits(d) {
            Some(
                if s[0] == '-' {
                    -digits_value(d)
                } else {
                    digits_value(d)
                },
            )
        } else {
            None
        }
    } else if all_digits(s) {
        Some(digits_value(s))
    } else {
        None
    }
}

pub open spec fn parse_i64(s: Seq<char>) -> Option<int> {
    match parse_int(s) {
        Some(v) => if i64::MIN <= v <= i64::MAX {
            Some(v)
        } else {
            None
        },
        None => None,
    }
}

/// `s.parse::<i64>().unwrap_or(0)`.
pub open spec fn int_or_zero(s: Seq<char>) -> int {
    match parse_i64(s) {
        Some(v) => v,
        None => 0,
    }
}

pub proof fn lemma_digits_value_nonneg(s: Seq<char>)
    requires
        forall|i: int| 0 <= i < s.len() ==> is_digit(#[trigger] s[i]),
    ensures
        digits_value(s) >= 0,
    decreases s.len(),
{
    if s.len() > 0 {
        lemma_digits_value_nonneg(s.drop_last());
    }
}

/// Value of the digits `s[lo..hi]`, or `None` where it exceeds `cap`.
pub fn digits_capped(s: &Vec<char>, lo: usize, hi: usize) -> (r: Option<u128>)
    requires
        lo <= hi <= s.len(),
        forall|i: int| lo <= i < hi ==> is_digit(#[trigger] s@[i]),
    ensures
        match r {
            Some(v) => v == digits_value(s@.subrange(lo as int, hi as int)) && v
                <= 100_000_000_000_000_000_000u128,
            None => digits_value(s@.subrange(lo as int, hi as int))
                > 100_000_000_000_000_000_000u128,
        },
{
    let cap: u128 = 100_000_000_000_000_000_000u128;
    let mut acc: u128 = 0;
    let mut big = false;
    let mut i = lo;
    while i < hi
        invariant
            lo <= i <= hi <= s.len(),
            forall|m: int| lo <= m < hi ==> is_digit(#[trigger] s@[m]),
            cap == 100_000_000_000_000_000_000u128,
            big ==> digits_value(s@.subrange(lo as int, i as int)) > cap,
            !big ==> acc == digits_value(s@.subrange(lo as int, i as int)) && acc <= cap,
        decreases hi - i,
    {
        let ghost prev = s@.subrange(lo as int, i as int);
        let ghost next = s@.subrange(lo as int, i + 1);
        assert(next.drop_last() =~= prev);
        assert(next.last() == s@[i as int]);
        proof {
            assert forall|m: int| 0 <= m < prev.len() implies is_digit(#[trigger] prev[m]) by {
                assert(prev[m] == s@[lo + m]);
            }
            lemma_digits_value_nonneg(prev);
        }
        let d = (s[i] as u32 - '0' as u32) as u128;
        if !big {
            let next_acc = acc * 10 + d;
            if next_acc > cap {
                big = true;
            } else {
                acc = next_acc;
            }
        }
        i = i + 1;
    }
    if big {
        None
    } else {
        Some(acc)
    }
}

/// `s.parse::<i64>()`.
pub fn parse_i64_exec(s: &Vec<char>) -> (r: Option<i64>)
    ensures
        match r {
            Some(v) => parse_i64(s@) == Some(v as int),
            None => parse_i64(s@) is None,
        },
{
    let n = s.len();
    if n == 0 {
        return None;
    }
    let signed = s[0] == '+' || s[0] == '-';
    let start: usize = if signed {
        1
    } else {
        0
    };
    if start == n {
        assert(!all_digits(s@.drop_first()));
        return None;
    }
    let mut i = start;
    while i < n
        invariant
            start <= i <= n == s.len(),
            start == (if signed {
                1usize
            } else {
                0usize
            }),
            signed == (s@[0] == '+' || s@[0] == '-'),
            forall|m: int| start <= m < i ==> is_digit(#[trigger] s@[m]),
        decreases n - i,
    {
        if !('0' <= s[i] && s[i] <= '9') {
            assert(!is_digit(s@[i as int]));
            if signed {
                let ghost t = s@.drop_first();
                assert(t[i - 1] == s@[i as int]);
                assert(!all_digits(t));
            } else {
                assert(!all_digits(s@));
            }
            return None;
        }
        i = i + 1;
    }
    let ghost d = s@.subrange(start as int, n as int);
    assert(signed ==> d =~= s@.drop_first());
    assert(!signed ==> d =~= s@);
    assert(all_digits(d)) by {
        assert forall|m: int| 0 <= m < d.len() implies is_digit(#[trigger] d[m]) by {
            assert(d[m] == s@[start + m]);
        }
    }
    match digits_capped(s, start, n) {
        None => None,
        Some(v) => {
            if s[0] == '-' {
                if v <= 9_223_372_036_854_775_808u128 {
                    if v == 9_223_372_036_854_775_808u128 {
                        Some(i64::MIN)
                    } else {
                        Some(-(v as i64))
                    }
                } else {
                    None
                }
            } else {
                if v <= 9_223_372_036_854_775_807u128 {
                    Some(v as i64)
                } else {
                    None
                }
            }
        },
    }
}

} // verus!
