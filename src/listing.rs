//! The catalog listing: rows read from the catalog text, one entry per
//! title keeping its newest version, and popularity ranks.
use vstd::prelude::*;
use crate::game::{digit_run, digit_run_exec, row_from_fields, row_of, Game, GameView};
use crate::text::{
    all_digits, chars_of, digits_capped, digits_value, int_or_zero, is_decimal, is_decimal_exec,
    is_digit, parse_i64_exec, split, split_all, split_range, trim, trim_bounds, views,
};

verus! {


/// Code-point order of two strings (`<` on `String`).
pub open spec fn seq_lt(a: Seq<char>, b: Seq<char>) -> bool
    decreases a.len(),
{
    if a.len() == 0 {
        b.len() > 0
    } else if b.len() == 0 {
        false
    } else if a[0] != b[0] {
        (a[0] as u32) < (b[0] as u32)
    } else {
        seq_lt(a.drop_first(), b.drop_first())
    }
}

pub proof fn lemma_seq_lt_transitive(a: Seq<char>, b: Seq<char>, c: Seq<char>)
    requires
        seq_lt(a, b),
        seq_lt(b, c),
    ensures
        seq_lt(a, c),
    decreases a.len(),
{
    if a.len() > 0 && b.len() > 0 && c.len() > 0 && a[0] == b[0] && b[0] == c[0] {
        lemma_seq_lt_transitive(a.drop_first(), b.drop_first(), c.drop_first());
    }
}

pub proof fn lemma_seq_lt_irreflexive(a: Seq<char>)
    ensures
        !seq_lt(a, a),
    decreases a.len(),
{
    if a.len() > 0 {
        lemma_seq_lt_irreflexive(a.drop_first());
    }
}

/// `a < b` on strings.
pub fn str_lt(a: &Vec<char>, b: &Vec<char>) -> (r: bool)
    ensures
        r == seq_lt(a@, b@),
{
    let mut i: usize = 0;
    assert(a@.subrange(0, a@.len() as int) =~= a@);
    assert(b@.subrange(0, b@.len() as int) =~= b@);
    while i < a.len() && i < b.len() && a[i] == b[i]
        invariant
            i <= a.len(),
            i <= b.len(),
            seq_lt(a@, b@) == seq_lt(
                a@.subrange(i as int, a@.len() as int),
                b@.subrange(i as int, b@.len() as int),
            ),
        decreases a.len() - i,
    {
        let ghost sa = a@.subrange(i as int, a@.len() as int);
        let ghost sb = b@.subrange(i as int, b@.len() as int);
        assert(sa.drop_first() =~= a@.subrange(i + 1, a@.len() as int));
        assert(sb.drop_first() =~= b@.subrange(i + 1, b@.len() as int));
        i = i + 1;
    }
    let ghost sa = a@.subrange(i as int, a@.len() as int);
    let ghost sb = b@.subrange(i as int, b@.len() as int);
    if i == a.len() {
        return i < b.len();
    }
    if i == b.len() {
        return false;
    }
    assert(sa[0] == a@[i as int] && sb[0] == b@[i as int]);
    (a[i] as u32) < (b[i] as u32)
}

/// A row with version code `a` replaces a kept row with version code `b`:
/// a greater number, or an equal number and a greater string.
pub open spec fn newer(a: Seq<char>, b: Seq<char>) -> bool {
    int_or_zero(a) > int_or_zero(b) || (int_or_zero(a) == int_or_zero(b) && seq_lt(b, a))
}

pub proof fn lemma_newer_transitive(a: Seq<char>, b: Seq<char>, c: Seq<char>)
    requires
        newer(a, b),
        newer(b, c),
    ensures
        newer(a, c),
{
    if int_or_zero(a) == int_or_zero(b) && int_or_zero(b) == int_or_zero(c) {
        lemma_seq_lt_transitive(c, b, a);
    }
}

/// Two rows describe the same title: same package and same display name.
pub open spec fn same_key(g: GameView, h: GameView) -> bool {
    g.package_name == h.package_name && g.game_name == h.game_name
}

/// First index at or after `i` whose entry has the key of `g`, or -1.
pub open spec fn find_key(acc: Seq<GameView>, g: GameView, i: int) -> int
    decreases acc.len() - i,
{
    if i < 0 || i >= acc.len() {
        -1
    } else if same_key(acc[i], g) {
        i
    } else {
        find_key(acc, g, i + 1)
    }
}

/// Rows folded into one entry per title, in order of first appearance, each
/// replaced by a later row of the same title with a newer version code.
pub open spec fn dedup(rows: Seq<GameView>) -> Seq<GameView>
    decreases rows.len(),
{
    if rows.len() == 0 {
        Seq::empty()
    } else {
        let acc = dedup(rows.drop_last());
        let g = rows.last();
        let k = find_key(acc, g, 0);
        if k < 0 {
            acc.push(g)
        } else if newer(g.version_code, acc[k].version_code) {
            acc.update(k, g)
        } else {
            acc
        }
    }
}

/// Records of the lines after the header, blank lines skipped.
pub open spec fn rows_upto(lines: Seq<Seq<char>>, n: int) -> Seq<GameView>
    decreases n,
{
    if n <= 1 {
        Seq::empty()
    } else {
        let prev = rows_upto(lines, n - 1);
        let t = trim(lines[n - 1]);
        if t.len() == 0 {
            prev
        } else {
            match row_of(split(t, ';')) {
                Some(g) => prev.push(g),
                None => prev,
            }
        }
    }
}

/// Every record of a catalog text, in file order.
pub open spec fn catalog_rows(content: Seq<char>) -> Seq<GameView> {
    let lines = split(content, '\n');
    rows_upto(lines, lines.len() as int)
}

/// Popularity score of a download counter, in millionths: a plain decimal
/// number whose integer part is at most `10^20`; anything else has none.
pub open spec fn score_of(d: Seq<char>) -> Option<int> {
    let k = digit_run(d, 0);
    let ip = d.subrange(0, k);
    let fp = if k < d.len() {
        d.subrange(k + 1, d.len() as int)
    } else {
        Seq::empty()
    };
    if is_decimal(d) && digits_value(ip) <= 100_000_000_000_000_000_000 {
        Some(digits_value(ip) * 1_000_000 + micro_of(fp))
    } else {
        None
    }
}

/// The first six fraction digits, in millionths.
pub open spec fn micro_of(fp: Seq<char>) -> int {
    if fp.len() >= 6 {
        digits_value(fp.subrange(0, 6))
    } else {
        digits_value(fp) * pow10((6 - fp.len()) as nat)
    }
}

pub open spec fn pow10(e: nat) -> int
    decreases e,
{
    if e == 0 {
        1
    } else {
        10 * pow10((e - 1) as nat)
    }
}

/// Index of package `p` in `b`, or -1.
pub open spec fn find_pkg(b: Seq<(Seq<char>, int)>, p: Seq<char>, i: int) -> int
    decreases b.len() - i,
{
    if i < 0 || i >= b.len() {
        -1
    } else if b[i].0 == p {
        i
    } else {
        find_pkg(b, p, i + 1)
    }
}

/// Highest score of each package over all rows, packages in order of
/// first scored appearance.
pub open spec fn best_scores(rows: Seq<GameView>) -> Seq<(Seq<char>, int)>
    decreases rows.len(),
{
    if rows.len() == 0 {
        Seq::empty()
    } else {
        let acc = best_scores(rows.drop_last());
        let g = rows.last();
        match score_of(g.downloads) {
            None => acc,
            Some(v) => {
                let k = find_pkg(acc, g.package_name, 0);
                if k < 0 {
                    acc.push((g.package_name, v))
                } else if v > acc[k].1 {
                    acc.update(k, (g.package_name, v))
                } else {
                    acc
                }
            },
        }
    }
}

/// Entry `j` comes before entry `i` in the ranking: a higher score, or an
/// equal score and an earlier first appearance.
pub open spec fn precedes(b: Seq<(Seq<char>, int)>, j: int, i: int) -> bool {
    b[j].1 > b[i].1 || (b[j].1 == b[i].1 && j < i)
}

/// Entries among the first `n` with a positive score that precede entry `i`.
pub open spec fn count_before(b: Seq<(Seq<char>, int)>, i: int, n: int) -> int
    decreases n,
{
    if n <= 0 {
        0
    } else {
        count_before(b, i, n - 1) + if b[n - 1].1 > 0 && precedes(b, n - 1, i) {
            1int
        } else {
            0int
        }
    }
}

/// 1-based position of entry `i` in the ranking; 0 without a positive score.
pub open spec fn rank_at(b: Seq<(Seq<char>, int)>, i: int) -> int {
    if b[i].1 > 0 {
        1 + count_before(b, i, b.len() as int)
    } else {
        0
    }
}

/// Popularity rank of package `p`; 0 where it has none.
pub open spec fn rank_of(b: Seq<(Seq<char>, int)>, p: Seq<char>) -> int {
    let i = find_pkg(b, p, 0);
    if i < 0 {
        0
    } else {
        rank_at(b, i)
    }
}

pub open spec fn with_rank(g: GameView, r: int) -> GameView {
    GameView { popularity_rank: r as i32, ..g }
}

/// The primary listing of a catalog text: one entry per title, ranked.
pub open spec fn listing(content: Seq<char>) -> Seq<GameView> {
    let rows = catalog_rows(content);
    let d = dedup(rows);
    let b = best_scores(rows);
    d.map_values(|g: GameView| with_rank(g, rank_of(b, g.package_name)))
}

pub open spec fn game_views(v: Seq<Game>) -> Seq<GameView> {
    v.map_values(|g: Game| g@)
}

/// Every record of a catalog text, in file order.
pub fn parse_rows(content: &Vec<char>) -> (r: Vec<Game>)
    ensures
        game_views(r@) == catalog_rows(content@),
{
    let lines = split_all(content, '\n');
    let mut rows: Vec<Game> = Vec::new();
    let mut i: usize = 1;
    while i < lines.len()
        invariant
            1 <= i,
            i <= lines.len() || lines.len() == 0,
            views(lines@) == split(content@, '\n'),
            game_views(rows@) == rows_upto(views(lines@), i as int),
        decreases lines.len() - i,
    {
        let line = &lines[i];
        let (a, b) = trim_bounds(line, 0, line.len());
        assert(views(lines@)[i as int] == line@);
        if a < b {
            let fs = split_range(line, a, b, ';');
            match row_from_fields(&fs) {
                Some(g) => {
                    rows.push(g);
                    assert(game_views(rows@) =~= rows_upto(views(lines@), i + 1));
                },
                None => {},
            }
        }
        i = i + 1;
    }
    if lines.len() > 0 {
        assert(i == lines.len());
    }
    proof {
        crate::text::lemma_split_nonempty(content@, '\n');
    }
    rows
}

/// `s.parse::<i64>().unwrap_or(0)` on a string.
pub(crate) fn int_or_zero_exec(s: &String) -> (r: i64)
    ensures
        r as int == int_or_zero(s@),
{
    let v = chars_of(s.as_str());
    match parse_i64_exec(&v) {
        Some(x) => x,
        None => 0,
    }
}

/// Whether version code `a` replaces a kept version code `b`.
pub fn newer_exec(a: &String, b: &String) -> (r: bool)
    ensures
        r == newer(a@, b@),
{
    let na = int_or_zero_exec(a);
    let nb = int_or_zero_exec(b);
    if na != nb {
        return na > nb;
    }
    let ca = chars_of(a.as_str());
    let cb = chars_of(b.as_str());
    str_lt(&cb, &ca)
}

fn find_key_exec(acc: &Vec<Game>, g: &Game) -> (r: Option<usize>)
    ensures
        match r {
            Some(k) => k < acc@.len() && find_key(game_views(acc@), g@, 0) == k as int,
            None => find_key(game_views(acc@), g@, 0) == -1,
        },
{
    let mut j: usize = 0;
    while j < acc.len()
        invariant
            j <= acc@.len(),
            find_key(game_views(acc@), g@, 0) == find_key(game_views(acc@), g@, j as int),
        decreases acc@.len() - j,
    {
        assert(game_views(acc@)[j as int] == acc@[j as int]@);
        if acc[j].package_name == g.package_name && acc[j].game_name == g.game_name {
            return Some(j);
        }
        j = j + 1;
    }
    None
}

/// One entry per title, in order of first appearance, each the row with the
/// newest version code.
pub fn dedup_rows(rows: &Vec<Game>) -> (r: Vec<Game>)
    ensures
        game_views(r@) == dedup(game_views(rows@)),
{
    let mut acc: Vec<Game> = Vec::new();
    let mut i: usize = 0;
    while i < rows.len()
        invariant
            i <= rows@.len(),
            game_views(acc@) == dedup(game_views(rows@).subrange(0, i as int)),
        decreases rows@.len() - i,
    {
        let ghost pre = game_views(rows@).subrange(0, i as int);
        let ghost next = game_views(rows@).subrange(0, i + 1);
        assert(next.drop_last() =~= pre);
        assert(next.last() == rows@[i as int]@);
        let g = &rows[i];
        match find_key_exec(&acc, g) {
            None => {
                acc.push(g.duplicate());
                assert(game_views(acc@) =~= dedup(next));
            },
            Some(k) => {
                assert(game_views(acc@)[k as int] == acc@[k as int]@);
                if newer_exec(&g.version_code, &acc[k].version_code) {
                    acc.set(k, g.duplicate());
                    assert(game_views(acc@) =~= dedup(next));
                }
            },
        }
        i = i + 1;
    }
    assert(game_views(rows@).subrange(0, i as int) =~= game_views(rows@));
    acc
}

pub proof fn lemma_digit_run_stops(s: Seq<char>, i: int, k: int)
    requires
        0 <= i <= k <= s.len(),
        forall|m: int| i <= m < k ==> is_digit(#[trigger] s[m]),
        k == s.len() || !is_digit(s[k]),
    ensures
        digit_run(s, i) == k,
    decreases k - i,
{
    if i < k {
        lemma_digit_run_stops(s, i + 1, k);
    }
}

pub proof fn lemma_pow10_positive(e: nat)
    ensures
        pow10(e) >= 1,
    decreases e,
{
    if e > 0 {
        lemma_pow10_positive((e - 1) as nat);
    }
}

pub proof fn lemma_pow10_split(a: nat, b: nat)
    requires
        a + b == 6,
    ensures
        pow10(a) * pow10(b) == 1_000_000,
{
    reveal_with_fuel(pow10, 7);
    assert(pow10(0) == 1);
    assert(pow10(1) == 10);
    assert(pow10(2) == 100);
    assert(pow10(3) == 1000);
    assert(pow10(4) == 10000);
    assert(pow10(5) == 100000);
    assert(pow10(6) == 1000000);
    if a == 0 {
    } else if a == 1 {
    } else if a == 2 {
    } else if a == 3 {
    } else if a == 4 {
    } else if a == 5 {
    } else {
        assert(a == 6);
    }
}

pub proof fn lemma_digits_value_bound(s: Seq<char>)
    requires
        forall|i: int| 0 <= i < s.len() ==> is_digit(#[trigger] s[i]),
    ensures
        0 <= digits_value(s) < pow10(s.len()),
    decreases s.len(),
{
    if s.len() > 0 {
        let t = s.drop_last();
        assert forall|i: int| 0 <= i < t.len() implies is_digit(#[trigger] t[i]) by {
            assert(t[i] == s[i]);
        }
        lemma_digits_value_bound(t);
        assert(is_digit(s[s.len() - 1]));
        let d = crate::text::digit_value(s.last());
        assert(0 <= d <= 9);
        assert(digits_value(s) == digits_value(t) * 10 + d);
        assert(pow10(s.len()) == 10 * pow10(t.len()));
        assert(digits_value(t) * 10 + d < 10 * pow10(t.len())) by (nonlinear_arith)
            requires
                digits_value(t) < pow10(t.len()),
                0 <= d <= 9,
        {}
    }
}

fn pow10_exec(e: usize) -> (r: u128)
    requires
        e <= 6,
    ensures
        r as int == pow10(e as nat),
        r <= 1_000_000,
{
    proof {
        reveal_with_fuel(pow10, 7);
    }
    if e == 0 {
        1
    } else if e == 1 {
        10
    } else if e == 2 {
        100
    } else if e == 3 {
        1_000
    } else if e == 4 {
        10_000
    } else if e == 5 {
        100_000
    } else {
        1_000_000
    }
}

/// Popularity score of a download counter, in millionths.
pub fn score_exec(d: &Vec<char>) -> (r: Option<u128>)
    ensures
        match r {
            Some(v) => score_of(d@) == Some(v as int) && v <= 100_000_000_000_000_000_001_000_000u128,
            None => score_of(d@) is None,
        },
{
    if !is_decimal_exec(d) {
        return None;
    }
    let n = d.len();
    let k = digit_run_exec(d, 0);
    proof {
        if all_digits(d@) {
            lemma_digit_run_stops(d@, 0, n as int);
        } else {
            let kk = choose|kk: int|
                0 < kk < d@.len() && #[trigger] d@[kk] == '.' && all_digits(d@.subrange(0, kk))
                    && all_digits(d@.subrange(kk + 1, d@.len() as int));
            assert forall|m: int| 0 <= m < kk implies is_digit(#[trigger] d@[m]) by {
                assert(d@.subrange(0, kk)[m] == d@[m]);
            }
            lemma_digit_run_stops(d@, 0, kk);
            assert forall|m: int| kk + 1 <= m < n implies is_digit(#[trigger] d@[m]) by {
                assert(d@.subrange(kk + 1, n as int)[m - kk - 1] == d@[m]);
            }
        }
    }
    let ip = match digits_capped(d, 0, k) {
        Some(v) => v,
        None => {
            return None;
        },
    };
    let start = if k < n {
        k + 1
    } else {
        n
    };
    let m: usize = if n - start >= 6 {
        6
    } else {
        n - start
    };
    let ghost fp = if k < n {
        d@.subrange(k + 1, n as int)
    } else {
        Seq::<char>::empty()
    };
    assert(fp =~= d@.subrange(start as int, n as int));
    assert(d@.subrange(start as int, start + m) =~= if fp.len() >= 6 {
        fp.subrange(0, 6)
    } else {
        fp
    });
    proof {
        crate::text::lemma_digits_value_nonneg(d@.subrange(start as int, start + m));
    }
    let scale = pow10_exec(6 - m);
    proof {
        let fs = d@.subrange(start as int, start + m);
        assert forall|j: int| 0 <= j < fs.len() implies is_digit(#[trigger] fs[j]) by {
            assert(fs[j] == d@[start + j]);
        }
        lemma_digits_value_bound(fs);
        lemma_pow10_split(m as nat, (6 - m) as nat);
        lemma_pow10_positive((6 - m) as nat);
        assert(pow10(m as nat) <= 1_000_000) by (nonlinear_arith)
            requires
                pow10(m as nat) * pow10((6 - m) as nat) == 1_000_000,
                pow10((6 - m) as nat) >= 1,
                pow10(m as nat) >= 1,
        {}
        lemma_pow10_positive(m as nat);
    }
    let f = match digits_capped(d, start, start + m) {
        Some(v) => v,
        None => {
            return None;
        },
    };
    proof {
        assert(f * scale < 1_000_000) by (nonlinear_arith)
            requires
                f < pow10(m as nat),
                scale == pow10((6 - m) as nat),
                pow10(m as nat) * pow10((6 - m) as nat) == 1_000_000,
                scale >= 1,
        {}
    }
    proof {
        assert(fp.len() == (n - start) as int);
        if fp.len() >= 6 {
            assert(m == 6);
            assert(pow10(0) == 1);
            assert(micro_of(fp) == f * scale);
        } else {
            assert(m == fp.len());
            assert(micro_of(fp) == f * scale);
        }
    }
    assert(score_of(d@) == Some(ip * 1_000_000 + f * scale));
    Some(ip * 1_000_000 + f * scale)
}

pub open spec fn score_views(b: Seq<(String, u128)>) -> Seq<(Seq<char>, int)> {
    b.map_values(|e: (String, u128)| (e.0@, e.1 as int))
}

fn find_pkg_exec(b: &Vec<(String, u128)>, p: &String) -> (r: Option<usize>)
    ensures
        match r {
            Some(k) => k < b@.len() && find_pkg(score_views(b@), p@, 0) == k as int,
            None => find_pkg(score_views(b@), p@, 0) == -1,
        },
{
    let mut j: usize = 0;
    while j < b.len()
        invariant
            j <= b@.len(),
            find_pkg(score_views(b@), p@, 0) == find_pkg(score_views(b@), p@, j as int),
        decreases b@.len() - j,
    {
        assert(score_views(b@)[j as int] == (b@[j as int].0@, b@[j as int].1 as int));
        if b[j].0 == *p {
            return Some(j);
        }
        j = j + 1;
    }
    None
}

/// Highest score of each package over all rows.
pub fn best_scores_exec(rows: &Vec<Game>) -> (r: Vec<(String, u128)>)
    ensures
        score_views(r@) == best_scores(game_views(rows@)),
{
    let mut acc: Vec<(String, u128)> = Vec::new();
    let mut i: usize = 0;
    while i < rows.len()
        invariant
            i <= rows@.len(),
            score_views(acc@) == best_scores(game_views(rows@).subrange(0, i as int)),
        decreases rows@.len() - i,
    {
        let ghost pre = game_views(rows@).subrange(0, i as int);
        let ghost next = game_views(rows@).subrange(0, i + 1);
        assert(next.drop_last() =~= pre);
        assert(next.last() == rows@[i as int]@);
        let g = &rows[i];
        let dl = chars_of(g.downloads.as_str());
        match score_exec(&dl) {
            None => {},
            Some(v) => {
                match find_pkg_exec(&acc, &g.package_name) {
                    None => {
                        acc.push((g.package_name.clone(), v));
                        assert(score_views(acc@) =~= best_scores(next));
                    },
                    Some(k) => {
                        assert(score_views(acc@)[k as int] == (acc@[k as int].0@, acc@[k as int].1 as int));
                        if v > acc[k].1 {
                            acc.set(k, (g.package_name.clone(), v));
                            assert(score_views(acc@) =~= best_scores(next));
                        }
                    },
                }
            },
        }
        i = i + 1;
    }
    assert(game_views(rows@).subrange(0, i as int) =~= game_views(rows@));
    acc
}

/// Popularity rank of package `p` among the scored packages `b`.
fn rank_exec(b: &Vec<(String, u128)>, p: &String) -> (r: i32)
    ensures
        r == rank_of(score_views(b@), p@) as i32,
{
    let ghost sv = score_views(b@);
    match find_pkg_exec(b, p) {
        None => 0,
        Some(i) => {
            assert(sv[i as int] == (b@[i as int].0@, b@[i as int].1 as int));
            if b[i].1 == 0 {
                return 0;
            }
            let mut c: usize = 0;
            let mut j: usize = 0;
            while j < b.len()
                invariant
                    i < b@.len(),
                    j <= b@.len(),
                    sv == score_views(b@),
                    sv[i as int] == (b@[i as int].0@, b@[i as int].1 as int),
                    c as int == count_before(sv, i as int, j as int),
                    c as int <= j as int - (if j > i {
                        1int
                    } else {
                        0int
                    }),
                decreases b@.len() - j,
            {
                assert(sv[j as int] == (b@[j as int].0@, b@[j as int].1 as int));
                if b[j].1 > 0 && (b[j].1 > b[i].1 || (b[j].1 == b[i].1 && j < i)) {
                    c = c + 1;
                }
                j = j + 1;
            }
            (c + 1) as i32
        },
    }
}

/// Parsed rows of a catalog text and its ranked, deduplicated listing.
fn parse_catalog(content: &Vec<char>) -> (r: (Vec<Game>, Vec<Game>))
    ensures
        game_views(r.0@) == catalog_rows(content@),
        game_views(r.1@) == listing(content@),
{
    let rows = parse_rows(content);
    let mut games = dedup_rows(&rows);
    let best = best_scores_exec(&rows);
    let ghost d = game_views(games@);
    let ghost b = score_views(best@);
    let mut i: usize = 0;
    while i < games.len()
        invariant
            i <= games@.len(),
            games@.len() == d.len(),
            b == score_views(best@),
            forall|j: int| 0 <= j < i ==> (#[trigger] games@[j])@ == with_rank(d[j], rank_of(b, d[j].package_name)),
            forall|j: int| i <= j < games@.len() ==> (#[trigger] games@[j])@ == d[j],
        decreases games@.len() - i,
    {
        let mut g = games[i].duplicate();
        let rank = rank_exec(&best, &g.package_name);
        g.popularity_rank = rank;
        games.set(i, g);
        i = i + 1;
    }
    assert(game_views(games@) =~= listing(content@));
    (rows, games)
}

/// The primary listing of a catalog text: the header line dropped, one
/// entry per (package, name) holding its newest version, each with its
/// package's popularity rank.
pub fn parse_game_list_content_chars(content: &str) -> (r: (Vec<Game>, Vec<Game>))
    ensures
        game_views(r.0@) == catalog_rows(content@),
        game_views(r.1@) == listing(content@),
{
    let c = chars_of(content);
    parse_catalog(&c)
}

/// Entries among the first `n` with a positive score.
pub open spec fn positives(b: Seq<(Seq<char>, int)>, n: int) -> int
    decreases n,
{
    if n <= 0 {
        0
    } else {
        positives(b, n - 1) + if b[n - 1].1 > 0 {
            1int
        } else {
            0int
        }
    }
}

proof fn lemma_count_before_order(b: Seq<(Seq<char>, int)>, i: int, j: int, n: int)
    requires
        0 <= i < b.len(),
        0 <= j < b.len(),
        b[j].1 > 0,
        precedes(b, j, i),
        0 <= n <= b.len(),
    ensures
        count_before(b, j, n) + (if j < n {
            1int
        } else {
            0int
        }) <= count_before(b, i, n),
    decreases n,
{
    if n > 0 {
        lemma_count_before_order(b, i, j, n - 1);
    }
}

proof fn lemma_count_before_bound(b: Seq<(Seq<char>, int)>, i: int, n: int)
    requires
        0 <= i < b.len(),
        0 <= n <= b.len(),
    ensures
        0 <= count_before(b, i, n),
        count_before(b, i, n) + (if i < n && b[i].1 > 0 {
            1int
        } else {
            0int
        }) <= positives(b, n),
    decreases n,
{
    if n > 0 {
        lemma_count_before_bound(b, i, n - 1);
    }
}

/// Popularity ranks: an entry without a positive score has rank 0; the
/// entries with one have distinct ranks from 1 to their number, a higher
/// score (or an equal score seen earlier) always the smaller rank. So read
/// in order of descending score the ranks are 1, 2, 3, ...
pub proof fn lemma_ranks_are_positions(b: Seq<(Seq<char>, int)>, i: int, j: int)
    requires
        0 <= i < b.len(),
        0 <= j < b.len(),
    ensures
        (rank_at(b, i) == 0) == (b[i].1 <= 0),
        b[i].1 > 0 ==> 1 <= rank_at(b, i) <= positives(b, b.len() as int),
        b[i].1 > 0 && b[j].1 > 0 && precedes(b, j, i) ==> rank_at(b, j) < rank_at(b, i),
        b[i].1 > 0 && b[j].1 > 0 && i != j ==> rank_at(b, j) != rank_at(b, i),
{
    let n = b.len() as int;
    lemma_count_before_bound(b, i, n);
    if b[i].1 > 0 && b[j].1 > 0 && i != j {
        if precedes(b, j, i) {
            lemma_count_before_order(b, i, j, n);
        } else {
            assert(precedes(b, i, j));
            lemma_count_before_order(b, j, i, n);
        }
    }
}

/// The same law for the packages of a listing: the rank a package gets is
/// 0 without a positive best score, else its position in the ranking.
pub proof fn lemma_package_ranks(content: Seq<char>, p: Seq<char>, q: Seq<char>)
    ensures
        ({
            let b = best_scores(catalog_rows(content));
            let i = find_pkg(b, p, 0);
            let j = find_pkg(b, q, 0);
            &&& (i < 0 || b[i].1 <= 0) ==> rank_of(b, p) == 0
            &&& (i >= 0 && b[i].1 > 0) ==> 1 <= rank_of(b, p) <= positives(b, b.len() as int)
            &&& (i >= 0 && j >= 0 && b[i].1 > 0 && b[j].1 > 0 && b[j].1 > b[i].1) ==> rank_of(b, q)
                < rank_of(b, p)
            &&& (i >= 0 && j >= 0 && b[i].1 > 0 && b[j].1 > 0 && p != q) ==> rank_of(b, q)
                != rank_of(b, p)
        }),
{
    let b = best_scores(catalog_rows(content));
    let i = find_pkg(b, p, 0);
    let j = find_pkg(b, q, 0);
    lemma_find_pkg_found(b, p, 0);
    lemma_find_pkg_found(b, q, 0);
    if i >= 0 && j >= 0 {
        lemma_ranks_are_positions(b, i, j);
    } else if i >= 0 {
        lemma_ranks_are_positions(b, i, i);
    }
}

proof fn lemma_find_pkg_found(b: Seq<(Seq<char>, int)>, p: Seq<char>, i: int)
    requires
        0 <= i,
    ensures
        find_pkg(b, p, i) >= 0 ==> i <= find_pkg(b, p, i) < b.len() && b[find_pkg(b, p, i)].0
            == p,
        find_pkg(b, p, i) < 0 ==> find_pkg(b, p, i) == -1,
    decreases b.len() - i,
{
    if i < b.len() && b[i].0 != p {
        lemma_find_pkg_found(b, p, i + 1);
    }
}

proof fn lemma_find_key_found(acc: Seq<GameView>, g: GameView, i: int)
    requires
        0 <= i,
    ensures
        find_key(acc, g, i) >= 0 ==> i <= find_key(acc, g, i) < acc.len() && same_key(
            acc[find_key(acc, g, i)],
            g,
        ),
        find_key(acc, g, i) < 0 ==> forall|k: int| i <= k < acc.len() ==> !same_key(#[trigger] acc[k], g),
    decreases acc.len() - i,
{
    if i < acc.len() && !same_key(acc[i], g) {
        lemma_find_key_found(acc, g, i + 1);
    }
}

proof fn lemma_newer_irreflexive(a: Seq<char>)
    ensures
        !newer(a, a),
{
    lemma_seq_lt_irreflexive(a);
}

/// What the deduplicated rows keep: one entry per title, every title of the
/// rows present, no row of a title newer than its entry, and each entry one
/// of the rows.
pub open spec fn dedup_ok(rows: Seq<GameView>, d: Seq<GameView>) -> bool {
    &&& forall|a: int, c: int|
        0 <= a < d.len() && 0 <= c < d.len() && a != c ==> !same_key(#[trigger] d[a], #[trigger] d[c])
    &&& forall|r: int| 0 <= r < rows.len() ==> exists|k: int|
        0 <= k < d.len() && same_key(#[trigger] d[k], #[trigger] rows[r])
    &&& forall|r: int, k: int|
        0 <= r < rows.len() && 0 <= k < d.len() && same_key(#[trigger] d[k], #[trigger] rows[r])
            ==> !newer(rows[r].version_code, d[k].version_code)
    &&& forall|k: int| 0 <= k < d.len() ==> exists|r: int|
        0 <= r < rows.len() && #[trigger] d[k] == #[trigger] rows[r]
}

proof fn lemma_dedup_ok(rows: Seq<GameView>)
    ensures
        dedup_ok(rows, dedup(rows)),
    decreases rows.len(),
{
    if rows.len() == 0 {
        return;
    }
    let init = rows.drop_last();
    lemma_dedup_ok(init);
    let acc = dedup(init);
    let g = rows.last();
    let k = find_key(acc, g, 0);
    lemma_find_key_found(acc, g, 0);
    if k < 0 {
        lemma_dedup_step_new(rows, init, acc, g);
    } else {
        lemma_dedup_step_known(rows, init, acc, g, k);
    }
}

#[verifier::rlimit(60)]
proof fn lemma_dedup_step_new(rows: Seq<GameView>, init: Seq<GameView>, acc: Seq<GameView>, g: GameView)
    requires
        rows.len() > 0,
        init == rows.drop_last(),
        acc == dedup(init),
        g == rows.last(),
        dedup_ok(init, acc),
        find_key(acc, g, 0) < 0,
        forall|k: int| 0 <= k < acc.len() ==> !same_key(#[trigger] acc[k], g),
    ensures
        dedup_ok(rows, dedup(rows)),
{
    let n = rows.len() - 1;
    assert(rows[n] == g);
    assert forall|r: int| 0 <= r < n implies #[trigger] rows[r] == init[r] by {}
    lemma_newer_irreflexive(g.version_code);
    let d = dedup(rows);
    assert(d == acc.push(g));
    assert forall|r: int| 0 <= r < rows.len() implies exists|kk: int|
        0 <= kk < d.len() && same_key(#[trigger] d[kk], #[trigger] rows[r]) by {
        if r < n {
            let kk = choose|kk: int| 0 <= kk < acc.len() && same_key(acc[kk], init[r]);
            assert(d[kk] == acc[kk]);
        } else {
            assert(d[acc.len() as int] == g);
        }
    }
    assert forall|r: int, kk: int|
        0 <= r < rows.len() && 0 <= kk < d.len() && same_key(#[trigger] d[kk], #[trigger] rows[r])
            implies !newer(rows[r].version_code, d[kk].version_code) by {
        if r < n && kk < acc.len() {
            assert(d[kk] == acc[kk]);
            assert(rows[r] == init[r]);
        } else if r < n {
            assert(d[kk] == g);
            let k2 = choose|k2: int| 0 <= k2 < acc.len() && same_key(acc[k2], init[r]);
            assert(same_key(acc[k2], g));
        } else if kk < acc.len() {
            assert(d[kk] == acc[kk]);
            assert(same_key(acc[kk], g));
        }
    }
    assert forall|kk: int| 0 <= kk < d.len() implies exists|r: int|
        0 <= r < rows.len() && #[trigger] d[kk] == #[trigger] rows[r] by {
        if kk < acc.len() {
            let r = choose|r: int| 0 <= r < init.len() && acc[kk] == init[r];
            assert(d[kk] == rows[r]);
        } else {
            assert(d[kk] == rows[n]);
        }
    }
    assert forall|a: int, c: int|
        0 <= a < d.len() && 0 <= c < d.len() && a != c implies !same_key(#[trigger] d[a], #[trigger] d[c]) by {
        if a < acc.len() && c < acc.len() {
            assert(d[a] == acc[a] && d[c] == acc[c]);
        } else if a < acc.len() {
            assert(d[a] == acc[a] && d[c] == g);
        } else {
            assert(d[c] == acc[c] && d[a] == g);
        }
    }
}

#[verifier::rlimit(60)]
proof fn lemma_dedup_step_known(
    rows: Seq<GameView>,
    init: Seq<GameView>,
    acc: Seq<GameView>,
    g: GameView,
    k: int,
)
    requires
        rows.len() > 0,
        init == rows.drop_last(),
        acc == dedup(init),
        g == rows.last(),
        dedup_ok(init, acc),
        k == find_key(acc, g, 0),
        0 <= k < acc.len(),
        same_key(acc[k], g),
    ensures
        dedup_ok(rows, dedup(rows)),
{
    let n = rows.len() - 1;
    assert(rows[n] == g);
    assert forall|r: int| 0 <= r < n implies #[trigger] rows[r] == init[r] by {}
    lemma_newer_irreflexive(g.version_code);
    let d = dedup(rows);
    let old_e = acc[k];
    let replaced = newer(g.version_code, old_e.version_code);
    if replaced {
        assert(d == acc.update(k, g));
    } else {
        assert(d == acc);
    }
    assert forall|r: int| 0 <= r < rows.len() implies exists|kk: int|
        0 <= kk < d.len() && same_key(#[trigger] d[kk], #[trigger] rows[r]) by {
        if r < n {
            let kk = choose|kk: int| 0 <= kk < acc.len() && same_key(acc[kk], init[r]);
            if kk == k {
                assert(same_key(d[k], rows[r]));
            } else {
                assert(d[kk] == acc[kk]);
            }
        } else {
            assert(same_key(d[k], g));
        }
    }
    assert forall|r: int, kk: int|
        0 <= r < rows.len() && 0 <= kk < d.len() && same_key(#[trigger] d[kk], #[trigger] rows[r])
            implies !newer(rows[r].version_code, d[kk].version_code) by {
        if kk != k {
            assert(d[kk] == acc[kk]);
            if r < n {
                assert(rows[r] == init[r]);
            } else {
                assert(same_key(acc[kk], g));
                assert(same_key(acc[k], g));
            }
        } else if r < n {
            assert(rows[r] == init[r]);
            assert(same_key(acc[k], init[r]));
            assert(!newer(init[r].version_code, old_e.version_code));
            if replaced {
                if newer(init[r].version_code, g.version_code) {
                    lemma_newer_transitive(init[r].version_code, g.version_code, old_e.version_code);
                }
            }
        }
    }
    assert forall|kk: int| 0 <= kk < d.len() implies exists|r: int|
        0 <= r < rows.len() && #[trigger] d[kk] == #[trigger] rows[r] by {
        if kk == k && replaced {
            assert(d[kk] == rows[n]);
        } else {
            assert(d[kk] == acc[kk]);
            let r = choose|r: int| 0 <= r < init.len() && acc[kk] == init[r];
            assert(d[kk] == rows[r]);
        }
    }
    assert forall|a: int, c: int|
        0 <= a < d.len() && 0 <= c < d.len() && a != c implies !same_key(#[trigger] d[a], #[trigger] d[c]) by {
        assert(same_key(d[a], acc[a]));
        assert(same_key(d[c], acc[c]));
    }
}

/// Deduplication keeps the newest version of each title: for every parsed
/// row, the listing holds exactly one entry of its (package, name) key, no
/// row of that key has a newer version code (numeric order, then string
/// order), and the entry is one of those rows.
pub proof fn lemma_listing_keeps_newest(content: Seq<char>, r: int)
    requires
        0 <= r < catalog_rows(content).len(),
    ensures
        ({
            let rows = catalog_rows(content);
            let l = listing(content);
            &&& exists|k: int| 0 <= k < l.len() && same_key(#[trigger] l[k], rows[r])
            &&& forall|k1: int, k2: int|
                0 <= k1 < l.len() && 0 <= k2 < l.len() && same_key(#[trigger] l[k1], rows[r])
                    && same_key(#[trigger] l[k2], rows[r]) ==> k1 == k2
            &&& forall|k: int, r2: int|
                0 <= k < l.len() && 0 <= r2 < rows.len() && same_key(#[trigger] l[k], rows[r])
                    && same_key(#[trigger] rows[r2], rows[r]) ==> !newer(
                    rows[r2].version_code,
                    l[k].version_code,
                )
            &&& forall|k: int|
                0 <= k < l.len() && same_key(#[trigger] l[k], rows[r]) ==> exists|r2: int|
                    0 <= r2 < rows.len() && same_key(#[trigger] rows[r2], rows[r])
                        && rows[r2].version_code == l[k].version_code
        }),
{
    let rows = catalog_rows(content);
    let d = dedup(rows);
    let l = listing(content);
    lemma_dedup_ok(rows);
    assert(l.len() == d.len());
    assert forall|k: int| 0 <= k < l.len() implies #[trigger] same_key(l[k], d[k]) && l[k].version_code
        == d[k].version_code by {}
    let k0 = choose|k: int| 0 <= k < d.len() && same_key(d[k], rows[r]);
    assert(same_key(l[k0], rows[r]));
    assert forall|k1: int, k2: int|
        0 <= k1 < l.len() && 0 <= k2 < l.len() && same_key(#[trigger] l[k1], rows[r]) && same_key(
            #[trigger] l[k2],
            rows[r],
        ) implies k1 == k2 by {
        assert(same_key(l[k1], d[k1]));
        assert(same_key(l[k2], d[k2]));
        if k1 != k2 {
            assert(!same_key(d[k1], d[k2]));
        }
    }
    assert forall|k: int, r2: int|
        0 <= k < l.len() && 0 <= r2 < rows.len() && same_key(#[trigger] l[k], rows[r]) && same_key(
            #[trigger] rows[r2],
            rows[r],
        ) implies !newer(rows[r2].version_code, l[k].version_code) by {
        assert(same_key(l[k], d[k]));
        assert(same_key(d[k], rows[r2]));
    }
    assert forall|k: int| 0 <= k < l.len() && same_key(#[trigger] l[k], rows[r]) implies exists|r2: int|
        0 <= r2 < rows.len() && same_key(#[trigger] rows[r2], rows[r]) && rows[r2].version_code
            == l[k].version_code by {
        assert(same_key(l[k], d[k]));
        let r2 = choose|r2: int| 0 <= r2 < rows.len() && d[k] == rows[r2];
        assert(same_key(rows[r2], rows[r]));
    }
}

} // verus!
