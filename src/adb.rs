//! Results of debug-bridge commands and the parsing of their text output.
use vstd::prelude::*;
use crate::catalog::{lower_of, lowercase};
use crate::listing::{score_exec, score_of};
use crate::game::{digit_run, digit_run_exec};
use crate::text::{chars_of, chars_vec, is_space, split, split_all, string_of, trim, trimmed, views};

verus! {

/// Outcome of one debug-bridge command.
#[derive(Debug, Clone, PartialEq, Eq)]
pub struct AdbResult {
    pub stdout: String,
    pub stderr: String,
    pub returncode: i32,
}

impl AdbResult {
    pub fn success(&self) -> (r: bool)
        ensures
            r == (self.returncode == 0),
    {
        self.returncode == 0
    }

    /// Standard output with surrounding whitespace dropped.
    pub fn output(&self) -> (r: String)
        ensures
            r@ == trim(self.stdout@),
    {
        let v = chars_of(self.stdout.as_str());
        let t = trimmed(&v);
        string_of(&t)
    }
}

/// A device as the device listing shows it.
#[derive(Debug, Clone, PartialEq, Default)]
pub struct RawDeviceInfo {
    pub serial: String,
    pub state: String,
    pub model: String,
    pub product: String,
}

impl RawDeviceInfo {
    /// The device is attached and authorised.
    pub fn is_connected(&self) -> (r: bool)
        ensures
            r == (self.state@ == "device"@),
    {
        let d = String::from_str("device");
        self.state == d
    }
}

/// Storage figures of the preferred mount, in MiB.
#[derive(Debug, Clone, PartialEq, Eq, Default)]
pub struct StorageInfo {
    pub total_mb: i64,
    pub used_mb: i64,
    pub free_mb: i64,
}

/// Maximal runs of non-whitespace characters among the first `n` (the
/// last run possibly still open), as `str::split_whitespace` sees them.
pub open spec fn words_acc(s: Seq<char>, n: int) -> (Seq<Seq<char>>, Seq<char>)
    decreases n,
{
    if n <= 0 {
        (Seq::empty(), Seq::empty())
    } else {
        let (w, c) = words_acc(s, n - 1);
        if is_space(s[n - 1]) {
            if c.len() > 0 {
                (w.push(c), Seq::empty())
            } else {
                (w, Seq::empty())
            }
        } else {
            (w, c.push(s[n - 1]))
        }
    }
}

/// `str::split_whitespace`.
pub open spec fn words(s: Seq<char>) -> Seq<Seq<char>> {
    let (w, c) = words_acc(s, s.len() as int);
    if c.len() > 0 {
        w.push(c)
    } else {
        w
    }
}

/// The whitespace-separated words of `s`.
pub fn split_words(s: &Vec<char>) -> (r: Vec<Vec<char>>)
    ensures
        views(r@) == words(s@),
{
    let mut done: Vec<Vec<char>> = Vec::new();
    let mut cur: Vec<char> = Vec::new();
    let mut i: usize = 0;
    while i < s.len()
        invariant
            i <= s@.len(),
            (views(done@), cur@) == words_acc(s@, i as int),
        decreases s@.len() - i,
    {
        if crate::text::space(s[i]) {
            if cur.len() > 0 {
                let w = cur;
                done.push(w);
                assert(views(done@) =~= words_acc(s@, i as int).0.push(w@));
                cur = Vec::new();
            }
        } else {
            cur.push(s[i]);
        }
        i = i + 1;
    }
    if cur.len() > 0 {
        let ghost w = cur@;
        done.push(cur);
        assert(views(done@) =~= words_acc(s@, i as int).0.push(w));
    }
    done
}

/// The device listing line `line`, if it describes a device: header,
/// daemon and blank lines and lines of fewer than two words are skipped.
pub open spec fn device_line(line: Seq<char>) -> Option<(Seq<char>, Seq<char>, Seq<char>, Seq<char>)> {
    let t = trim(line);
    let w = words(t);
    if t.len() == 0 || crate::text::starts_with(t, "List of"@) || crate::text::starts_with(
        t,
        "* daemon"@,
    ) || crate::text::starts_with(t, "adb server"@) || w.len() < 2 {
        None
    } else {
        Some((w[0], w[1], last_tagged(w, "model:"@, w.len() as int), last_tagged(w, "product:"@, w.len() as int)))
    }
}

/// Value of the last word among `w[2..n]` that starts with `tag`, or empty.
pub open spec fn last_tagged(w: Seq<Seq<char>>, tag: Seq<char>, n: int) -> Seq<char>
    decreases n,
{
    if n <= 2 {
        Seq::empty()
    } else if crate::text::starts_with(w[n - 1], tag) {
        w[n - 1].subrange(tag.len() as int, w[n - 1].len() as int)
    } else {
        last_tagged(w, tag, n - 1)
    }
}

pub open spec fn device_view(d: RawDeviceInfo) -> (Seq<char>, Seq<char>, Seq<char>, Seq<char>) {
    (d.serial@, d.state@, d.model@, d.product@)
}

/// Devices of the first `n` listing lines, in order.
pub open spec fn devices_upto(lines: Seq<Seq<char>>, n: int) -> Seq<(Seq<char>, Seq<char>, Seq<char>, Seq<char>)>
    decreases n,
{
    if n <= 0 {
        Seq::empty()
    } else {
        let prev = devices_upto(lines, n - 1);
        match device_line(lines[n - 1]) {
            Some(d) => prev.push(d),
            None => prev,
        }
    }
}

fn last_tagged_exec(w: &Vec<Vec<char>>, tag: &Vec<char>) -> (r: Vec<char>)
    ensures
        r@ == last_tagged(views(w@), tag@, w@.len() as int),
{
    let mut n = w.len();
    while n > 2
        invariant
            n <= w@.len(),
            last_tagged(views(w@), tag@, w@.len() as int) == last_tagged(views(w@), tag@, n as int),
        decreases n,
    {
        assert(views(w@)[n - 1] == w@[n - 1]@);
        if crate::text::starts_with_exec(&w[n - 1], tag) {
            return crate::text::slice_of(&w[n - 1], tag.len(), w[n - 1].len());
        }
        n = n - 1;
    }
    Vec::new()
}

fn device_line_exec(line: &Vec<char>) -> (r: Option<RawDeviceInfo>)
    ensures
        match r {
            Some(d) => device_line(line@) == Some(device_view(d)),
            None => device_line(line@) is None,
        },
{
    let t = trimmed(line);
    if t.len() == 0 {
        return None;
    }
    let p1 = chars_vec("List of");
    let p2 = chars_vec("* daemon");
    let p3 = chars_vec("adb server");
    if crate::text::starts_with_exec(&t, &p1) || crate::text::starts_with_exec(&t, &p2)
        || crate::text::starts_with_exec(&t, &p3) {
        return None;
    }
    let w = split_words(&t);
    if w.len() < 2 {
        return None;
    }
    let model = last_tagged_exec(&w, &chars_vec("model:"));
    let product = last_tagged_exec(&w, &chars_vec("product:"));
    assert(views(w@)[0] == w@[0]@);
    assert(views(w@)[1] == w@[1]@);
    Some(
        RawDeviceInfo {
            serial: string_of(&w[0]),
            state: string_of(&w[1]),
            model: string_of(&model),
            product: string_of(&product),
        },
    )
}


/// Scale of a size suffix as `(numerator, denominator)` MiB per unit; a
/// bare number or `b` counts KiB where `assume_kib` is set, else bytes.
pub open spec fn suffix_factor(suf: Seq<char>, assume_kib: bool) -> Option<(int, int)> {
    if suf == Seq::<char>::empty() || suf == seq!['b'] {
        if assume_kib {
            Some((1, 1024))
        } else {
            Some((1, 1048576))
        }
    } else if suf == seq!['k'] || suf == seq!['k', 'b'] || suf == seq!['k', 'i'] || suf == seq![
        'k',
        'i',
        'b',
    ] {
        Some((1, 1024))
    } else if suf == seq!['m'] || suf == seq!['m', 'b'] || suf == seq!['m', 'i'] || suf == seq![
        'm',
        'i',
        'b',
    ] {
        Some((1, 1))
    } else if suf == seq!['g'] || suf == seq!['g', 'b'] || suf == seq!['g', 'i'] || suf == seq![
        'g',
        'i',
        'b',
    ] {
        Some((1024, 1))
    } else if suf == seq!['t'] || suf == seq!['t', 'b'] || suf == seq!['t', 'i'] || suf == seq![
        't',
        'i',
        'b',
    ] {
        Some((1048576, 1))
    } else if suf == seq!['p'] || suf == seq!['p', 'b'] || suf == seq!['p', 'i'] || suf == seq![
        'p',
        'i',
        'b',
    ] {
        Some((1073741824, 1))
    } else {
        None
    }
}

/// End of the number at the start of `c`: its digits and, where a digit
/// follows a `.`, the fraction.
pub open spec fn number_end(c: Seq<char>) -> int {
    let k = digit_run(c, 0);
    if k < c.len() && c[k] == '.' && digit_run(c, k + 1) > k + 1 {
        digit_run(c, k + 1)
    } else {
        k
    }
}

/// A size token (`62500`, `1.5G`, `512MiB`) in whole MiB, rounded down and
/// capped at `i64::MAX`; `None` when it is no size.
pub open spec fn token_mb(tok: Seq<char>, assume_kib: bool) -> Option<int> {
    let c = lower_of(trim(tok));
    let e = number_end(c);
    if digit_run(c, 0) == 0 {
        None
    } else {
        match (score_of(c.subrange(0, e)), suffix_factor(c.subrange(e, c.len() as int), assume_kib)) {
            (Some(v), Some((n, d))) => {
                let mb = v * n / (d * 1_000_000);
                Some(
                    if mb > i64::MAX {
                        i64::MAX as int
                    } else {
                        mb
                    },
                )
            },
            _ => None,
        }
    }
}

fn seq_is(v: &Vec<char>, lit: &Vec<char>) -> (r: bool)
    ensures
        r == (v@ == lit@),
{
    if v.len() != lit.len() {
        return false;
    }
    let mut i: usize = 0;
    while i < v.len()
        invariant
            i <= v@.len() == lit@.len(),
            forall|j: int| 0 <= j < i ==> v@[j] == lit@[j],
        decreases v@.len() - i,
    {
        if v[i] != lit[i] {
            return false;
        }
        i = i + 1;
    }
    assert(v@ =~= lit@);
    true
}

/// Whether `suf` is `x`, `xb`, `xi` or `xib` for the letter `x`.
fn unit_of(suf: &Vec<char>, x: char) -> (r: bool)
    ensures
        r == (suf@ == seq![x] || suf@ == seq![x, 'b'] || suf@ == seq![x, 'i'] || suf@ == seq![
            x,
            'i',
            'b',
        ]),
{
    let a = vec![x];
    let b = vec![x, 'b'];
    let c = vec![x, 'i'];
    let d = vec![x, 'i', 'b'];
    assert(a@ =~= seq![x]);
    assert(b@ =~= seq![x, 'b']);
    assert(c@ =~= seq![x, 'i']);
    assert(d@ =~= seq![x, 'i', 'b']);
    seq_is(suf, &a) || seq_is(suf, &b) || seq_is(suf, &c) || seq_is(suf, &d)
}

fn suffix_factor_exec(suf: &Vec<char>, assume_kib: bool) -> (r: Option<(u128, u128)>)
    ensures
        match r {
            Some((n, d)) => suffix_factor(suf@, assume_kib) == Some((n as int, d as int)),
            None => suffix_factor(suf@, assume_kib) is None,
        },
{
    let empty: Vec<char> = Vec::new();
    let b = vec!['b'];
    assert(b@ =~= seq!['b']);
    assert(empty@ =~= Seq::<char>::empty());
    if seq_is(suf, &empty) || seq_is(suf, &b) {
        if assume_kib {
            Some((1, 1024))
        } else {
            Some((1, 1048576))
        }
    } else if unit_of(suf, 'k') {
        Some((1, 1024))
    } else if unit_of(suf, 'm') {
        Some((1, 1))
    } else if unit_of(suf, 'g') {
        Some((1024, 1))
    } else if unit_of(suf, 't') {
        Some((1048576, 1))
    } else if unit_of(suf, 'p') {
        Some((1073741824, 1))
    } else {
        None
    }
}


/// Preference of a mount point: `/data`, then `/storage/emulated`, then
/// `/sdcard`, then `/data/media` (each also as a prefix); others 0.
pub open spec fn mount_score(m: Seq<char>) -> int {
    if crate::text::starts_with(m, seq!['/', 'd', 'a', 't', 'a']) {
        4
    } else if crate::text::starts_with(
        m,
        seq!['/', 's', 't', 'o', 'r', 'a', 'g', 'e', '/', 'e', 'm', 'u', 'l', 'a', 't', 'e', 'd'],
    ) {
        3
    } else if crate::text::starts_with(m, seq!['/', 's', 'd', 'c', 'a', 'r', 'd']) {
        2
    } else if crate::text::starts_with(
        m,
        seq!['/', 'd', 'a', 't', 'a', '/', 'm', 'e', 'd', 'i', 'a'],
    ) {
        1
    } else {
        0
    }
}

fn mount_score_exec(m: &Vec<char>) -> (r: u64)
    ensures
        r as int == mount_score(m@),
{
    let a = vec!['/', 'd', 'a', 't', 'a'];
    let b = vec!['/', 's', 't', 'o', 'r', 'a', 'g', 'e', '/', 'e', 'm', 'u', 'l', 'a', 't', 'e', 'd'];
    let c = vec!['/', 's', 'd', 'c', 'a', 'r', 'd'];
    let d = vec!['/', 'd', 'a', 't', 'a', '/', 'm', 'e', 'd', 'i', 'a'];
    assert(a@ =~= seq!['/', 'd', 'a', 't', 'a']);
    assert(b@ =~= seq!['/', 's', 't', 'o', 'r', 'a', 'g', 'e', '/', 'e', 'm', 'u', 'l', 'a', 't', 'e', 'd']);
    assert(c@ =~= seq!['/', 's', 'd', 'c', 'a', 'r', 'd']);
    assert(d@ =~= seq!['/', 'd', 'a', 't', 'a', '/', 'm', 'e', 'd', 'i', 'a']);
    if crate::text::starts_with_exec(m, &a) {
        4
    } else if crate::text::starts_with_exec(m, &b) {
        3
    } else if crate::text::starts_with_exec(m, &c) {
        2
    } else if crate::text::starts_with_exec(m, &d) {
        1
    } else {
        0
    }
}

pub open spec fn clamp0(x: int) -> int {
    if x < 0 {
        0
    } else {
        x
    }
}

/// The storage row that a `df` line describes, with its mount's preference.
pub open spec fn storage_candidate(line: Seq<char>) -> Option<(int, (int, int, int))> {
    let t = trim(line);
    let w = words(t);
    if t.len() == 0 || crate::text::starts_with(
        lower_of(t),
        seq!['f', 'i', 'l', 'e', 's', 'y', 's', 't', 'e', 'm'],
    ) || w.len() < 4 {
        None
    } else {
        match (token_mb(w[1], true), token_mb(w[2], true), token_mb(w[3], true)) {
            (Some(a), Some(b), Some(c)) => Some(
                (mount_score(w[w.len() - 1]), (clamp0(a), clamp0(b), clamp0(c))),
            ),
            _ => None,
        }
    }
}

/// The first row with the best mount preference among the first `n` lines.
pub open spec fn best_storage(lines: Seq<Seq<char>>, n: int) -> Option<(int, (int, int, int))>
    decreases n,
{
    if n <= 0 {
        None
    } else {
        let prev = best_storage(lines, n - 1);
        match storage_candidate(lines[n - 1]) {
            None => prev,
            Some(c) => match prev {
                None => Some(c),
                Some(p) => if c.0 > p.0 {
                    Some(c)
                } else {
                    prev
                },
            },
        }
    }
}

fn storage_candidate_exec(line: &Vec<char>) -> (r: Option<(u64, StorageInfo)>)
    ensures
        match r {
            Some((sc, info)) => storage_candidate(line@) == Some(
                (sc as int, (info.total_mb as int, info.used_mb as int, info.free_mb as int)),
            ),
            None => storage_candidate(line@) is None,
        },
{
    let t = trimmed(line);
    if t.len() == 0 {
        return None;
    }
    let ts = string_of(&t);
    let lt = lowercase(ts.as_str());
    let lc = chars_of(lt.as_str());
    let fs = vec!['f', 'i', 'l', 'e', 's', 'y', 's', 't', 'e', 'm'];
    assert(fs@ =~= seq!['f', 'i', 'l', 'e', 's', 'y', 's', 't', 'e', 'm']);
    if crate::text::starts_with_exec(&lc, &fs) {
        return None;
    }
    let w = split_words(&t);
    if w.len() < 4 {
        return None;
    }
    assert(views(w@)[1] == w@[1]@);
    assert(views(w@)[2] == w@[2]@);
    assert(views(w@)[3] == w@[3]@);
    assert(views(w@)[w@.len() - 1] == w@[w@.len() - 1]@);
    let total = match AdbService::size_token_to_mb(&w[1], true) {
        Some(v) => v,
        None => {
            return None;
        },
    };
    let used = match AdbService::size_token_to_mb(&w[2], true) {
        Some(v) => v,
        None => {
            return None;
        },
    };
    let free = match AdbService::size_token_to_mb(&w[3], true) {
        Some(v) => v,
        None => {
            return None;
        },
    };
    let score = mount_score_exec(&w[w.len() - 1]);
    Some(
        (
            score,
            StorageInfo {
                total_mb: if total < 0 {
                    0
                } else {
                    total
                },
                used_mb: if used < 0 {
                    0
                } else {
                    used
                },
                free_mb: if free < 0 {
                    0
                } else {
                    free
                },
            },
        ),
    )
}

pub open spec fn storage_view(info: StorageInfo) -> (int, int, int) {
    (info.total_mb as int, info.used_mb as int, info.free_mb as int)
}


/// Index of the first `c` in `s` at or after `i`, or `s.len()`.
pub open spec fn first_index(s: Seq<char>, c: char, i: int) -> int
    decreases s.len() - i,
{
    if i < 0 || i >= s.len() {
        s.len() as int
    } else if s[i] == c {
        i
    } else {
        first_index(s, c, i + 1)
    }
}

pub open spec fn version_tag() -> Seq<char> {
    seq!['v', 'e', 'r', 's', 'i', 'o', 'n', 'C', 'o', 'd', 'e', ':']
}

/// Digits of the first `versionCode:<digits>` at or after `i`.
pub open spec fn version_code_from(t: Seq<char>, i: int) -> Option<Seq<char>>
    decreases t.len() - i,
{
    if i < 0 || i >= t.len() {
        None
    } else if crate::text::occurs_at(t, version_tag(), i) && digit_run(t, i + 12) > i + 12 {
        Some(t.subrange(i + 12, digit_run(t, i + 12)))
    } else {
        version_code_from(t, i + 1)
    }
}

pub open spec fn package_tag() -> Seq<char> {
    seq!['p', 'a', 'c', 'k', 'a', 'g', 'e', ':']
}

/// The package, and its version code where given, that a package listing
/// line (`package:<name>[=...] [versionCode:<n>]`) names.
pub open spec fn package_line(line: Seq<char>) -> Option<(Seq<char>, Option<Seq<char>>)> {
    let t = trim(line);
    let payload = trim(t.subrange(8, t.len() as int));
    let e = first_index(payload, '=', 0);
    let src = if e < payload.len() {
        payload.subrange(e + 1, payload.len() as int)
    } else {
        payload
    };
    let w = words(src);
    let name = if w.len() > 0 {
        w[0]
    } else {
        Seq::<char>::empty()
    };
    if !crate::text::starts_with(t, package_tag()) || payload.len() == 0 || name.len() == 0 {
        None
    } else {
        Some((name, version_code_from(t, 0)))
    }
}

/// Index of package `p` among the entries, or -1.
pub open spec fn entry_index(e: Seq<(Seq<char>, Option<Seq<char>>)>, p: Seq<char>, i: int) -> int
    decreases e.len() - i,
{
    if i < 0 || i >= e.len() {
        -1
    } else if e[i].0 == p {
        i
    } else {
        entry_index(e, p, i + 1)
    }
}

/// Packages of the first `n` listing lines, each with the version code of
/// its last line, in order of first appearance.
pub open spec fn packages_upto(lines: Seq<Seq<char>>, n: int) -> Seq<(Seq<char>, Option<Seq<char>>)>
    decreases n,
{
    if n <= 0 {
        Seq::empty()
    } else {
        let prev = packages_upto(lines, n - 1);
        match package_line(lines[n - 1]) {
            None => prev,
            Some(x) => {
                let k = entry_index(prev, x.0, 0);
                if k < 0 {
                    prev.push(x)
                } else {
                    prev.update(k, x)
                }
            },
        }
    }
}

/// Installed packages and their version codes.
#[derive(Debug, Clone, PartialEq)]
pub struct PackageVersions {
    entries: Vec<(String, Option<String>)>,
}

pub open spec fn string_opt(o: Option<String>) -> Option<Seq<char>> {
    match o {
        Some(v) => Some(v@),
        None => None,
    }
}

pub open spec fn entry_view(e: (String, Option<String>)) -> (Seq<char>, Option<Seq<char>>) {
    (e.0@, string_opt(e.1))
}

impl PackageVersions {
    pub closed spec fn view_entries(&self) -> Seq<(Seq<char>, Option<Seq<char>>)> {
        self.entries@.map_values(|e: (String, Option<String>)| entry_view(e))
    }

    pub fn len(&self) -> (r: usize)
        ensures
            r == self.view_entries().len(),
    {
        self.entries.len()
    }

    pub fn is_empty(&self) -> (r: bool)
        ensures
            r == (self.view_entries().len() == 0),
    {
        self.entries.len() == 0
    }

    /// The version code recorded for a package, if the package is listed.
    pub fn get(&self, package_name: &str) -> (r: Option<&Option<String>>)
        ensures
            ({
                let k = entry_index(self.view_entries(), package_name@, 0);
                &&& k < 0 ==> r is None
                &&& k >= 0 ==> (r matches Some(v) && string_opt(*v) == self.view_entries()[k].1)
            }),
    {
        let p = package_name.to_owned();
        let mut j: usize = 0;
        while j < self.entries.len()
            invariant
                j <= self.entries@.len(),
                entry_index(self.view_entries(), package_name@, 0) == entry_index(
                    self.view_entries(),
                    package_name@,
                    j as int,
                ),
                p@ == package_name@,
            decreases self.entries@.len() - j,
        {
            assert(self.view_entries()[j as int] == entry_view(self.entries@[j as int]));
            if self.entries[j].0 == p {
                return Some(&self.entries[j].1);
            }
            j = j + 1;
        }
        None
    }
}

fn version_code_exec(t: &Vec<char>) -> (r: Option<Vec<char>>)
    ensures
        match r {
            Some(v) => version_code_from(t@, 0) == Some(v@),
            None => version_code_from(t@, 0) is None,
        },
{
    let tag = vec!['v', 'e', 'r', 's', 'i', 'o', 'n', 'C', 'o', 'd', 'e', ':'];
    assert(tag@ =~= version_tag());
    let mut i: usize = 0;
    while i < t.len()
        invariant
            i <= t@.len(),
            tag@ == version_tag(),
            version_code_from(t@, 0) == version_code_from(t@, i as int),
        decreases t@.len() - i,
    {
        if crate::text::occurs_at_exec(t, &tag, i) {
            let d = digit_run_exec(t, i + 12);
            if d > i + 12 {
                return Some(crate::text::slice_of(t, i + 12, d));
            }
        }
        i = i + 1;
    }
    None
}

fn package_line_exec(line: &Vec<char>) -> (r: Option<(String, Option<String>)>)
    ensures
        match r {
            Some(e) => package_line(line@) == Some(entry_view(e)),
            None => package_line(line@) is None,
        },
{
    let t = trimmed(line);
    let tag = vec!['p', 'a', 'c', 'k', 'a', 'g', 'e', ':'];
    assert(tag@ =~= package_tag());
    if !crate::text::starts_with_exec(&t, &tag) {
        return None;
    }
    let after = crate::text::slice_of(&t, 8, t.len());
    let payload = trimmed(&after);
    if payload.len() == 0 {
        return None;
    }
    let mut e: usize = 0;
    while e < payload.len() && payload[e] != '='
        invariant
            e <= payload@.len(),
            first_index(payload@, '=', 0) == first_index(payload@, '=', e as int),
        decreases payload@.len() - e,
    {
        e = e + 1;
    }
    let src = if e < payload.len() {
        crate::text::slice_of(&payload, e + 1, payload.len())
    } else {
        payload
    };
    let w = split_words(&src);
    if w.len() == 0 {
        return None;
    }
    assert(views(w@)[0] == w@[0]@);
    if w[0].len() == 0 {
        return None;
    }
    let name = string_of(&w[0]);
    let version = match version_code_exec(&t) {
        Some(v) => Some(string_of(&v)),
        None => None,
    };
    Some((name, version))
}


/// Battery state; the temperature is kept in tenths of a degree Celsius.
#[derive(Debug, Clone, PartialEq, Default)]
pub struct BatteryInfo {
    pub level_percent: Option<i64>,
    pub status: String,
    pub is_charging: bool,
    pub temperature_tenths: Option<i64>,
}

/// The value of the last `key: value` line whose lower-cased key is `key`,
/// among the first `n` lines.
pub open spec fn battery_value(lines: Seq<Seq<char>>, n: int, key: Seq<char>) -> Option<Seq<char>>
    decreases n,
{
    if n <= 0 {
        None
    } else {
        let l = lines[n - 1];
        let c = first_index(l, ':', 0);
        if c < l.len() && lower_of(trim(l.subrange(0, c))) == key {
            Some(trim(l.subrange(c + 1, l.len() as int)))
        } else {
            battery_value(lines, n - 1, key)
        }
    }
}

pub open spec fn cap_i64(x: int) -> int {
    if x > i64::MAX {
        i64::MAX as int
    } else {
        x
    }
}

/// `level / scale` in percent, rounded half away from zero; the scale
/// defaults to 100 and must be positive.
pub open spec fn level_of(level: Option<Seq<char>>, scale: Option<Seq<char>>) -> Option<int> {
    let s = match scale {
        Some(t) => match score_of(t) {
            Some(v) => v,
            None => 100_000_000,
        },
        None => 100_000_000,
    };
    match level {
        None => None,
        Some(l) => match score_of(l) {
            None => None,
            Some(v) => if s <= 0 {
                None
            } else {
                Some(cap_i64((v * 200 + s) / (2 * s)))
            },
        },
    }
}

pub open spec fn status_name(code: int) -> Seq<char> {
    if code == 2 {
        "charging"@
    } else if code == 3 {
        "discharging"@
    } else if code == 4 {
        "not_charging"@
    } else if code == 5 {
        "full"@
    } else {
        "unknown"@
    }
}

/// The status code of the battery dump; 1 where it is absent or no integer.
pub open spec fn status_code(v: Option<Seq<char>>) -> int {
    match v {
        Some(t) => match crate::text::parse_i64(t) {
            Some(x) => x,
            None => 1,
        },
        None => 1,
    }
}

/// The temperature, given in tenths of a degree, rounded to a whole tenth.
pub open spec fn temperature_of(v: Option<Seq<char>>) -> Option<int> {
    match v {
        Some(t) => match score_of(t) {
            Some(x) => Some(cap_i64((2 * x + 1_000_000) / 2_000_000)),
            None => None,
        },
        None => None,
    }
}

fn battery_value_exec(lines: &Vec<Vec<char>>, key: &Vec<char>) -> (r: Option<Vec<char>>)
    ensures
        match r {
            Some(v) => battery_value(views(lines@), lines@.len() as int, key@) == Some(v@),
            None => battery_value(views(lines@), lines@.len() as int, key@) is None,
        },
{
    let mut n = lines.len();
    while n > 0
        invariant
            n <= lines@.len(),
            battery_value(views(lines@), lines@.len() as int, key@) == battery_value(
                views(lines@),
                n as int,
                key@,
            ),
        decreases n,
    {
        let l = &lines[n - 1];
        assert(views(lines@)[n - 1] == l@);
        let mut c: usize = 0;
        while c < l.len() && l[c] != ':'
            invariant
                c <= l@.len(),
                first_index(l@, ':', 0) == first_index(l@, ':', c as int),
            decreases l@.len() - c,
        {
            c = c + 1;
        }
        if c < l.len() {
            let k = crate::text::slice_of(l, 0, c);
            let kt = trimmed(&k);
            let ks = string_of(&kt);
            let kl = lowercase(ks.as_str());
            let kc = chars_of(kl.as_str());
            if seq_is(&kc, key) {
                let v = crate::text::slice_of(l, c + 1, l.len());
                return Some(trimmed(&v));
            }
        }
        n = n - 1;
    }
    None
}

fn score_opt(v: &Option<Vec<char>>) -> (r: Option<u128>)
    ensures
        match *v {
            Some(t) => match r {
                Some(x) => score_of(t@) == Some(x as int) && x
                    <= 100_000_000_000_000_000_001_000_000u128,
                None => score_of(t@) is None,
            },
            None => r is None,
        },
{
    match v {
        Some(t) => score_exec(t),
        None => None,
    }
}


/// The device selection and the debug bridge's output parsers.
pub struct AdbService {
    device_serial: Option<String>,
}

pub open spec fn opt_str_view(s: Option<&str>) -> Option<Seq<char>> {
    match s {
        Some(x) => Some(x@),
        None => None,
    }
}

impl AdbService {
    pub closed spec fn serial_view(&self) -> Option<Seq<char>> {
        string_opt(self.device_serial)
    }

    /// No device selected: commands go to the only attached device.
    pub fn new() -> (r: Self)
        ensures
            r.serial_view() is None,
    {
        AdbService { device_serial: None }
    }

    pub fn device_serial(&self) -> (r: Option<&str>)
        ensures
            opt_str_view(r) == self.serial_view(),
    {
        match &self.device_serial {
            Some(s) => Some(s.as_str()),
            None => None,
        }
    }

    pub fn set_device_serial(&mut self, serial: Option<String>)
        ensures
            final(self).serial_view() == string_opt(serial),
    {
        self.device_serial = serial;
    }

    /// The device a command goes to: the one named, else the selected one.
    pub fn resolve_serial(&self, serial: Option<&str>) -> (r: Option<String>)
        ensures
            string_opt(r) == match serial {
                Some(s) => Some(s@),
                None => self.serial_view(),
            },
    {
        match serial {
            Some(s) => Some(s.to_owned()),
            None => match &self.device_serial {
                Some(d) => Some(d.clone()),
                None => None,
            },
        }
    }

    /// Devices named by the debug bridge's long device listing
    /// (`serial<TAB>state [model:x] [product:y] ...`), in order.
    pub fn parse_devices_output(output: &str) -> (r: Vec<RawDeviceInfo>)
        ensures
            r@.map_values(|d: RawDeviceInfo| device_view(d)) == devices_upto(
                split(output@, '\n'),
                split(output@, '\n').len() as int,
            ),
    {
        let c = chars_of(output);
        let lines = split_all(&c, '\n');
        let mut out: Vec<RawDeviceInfo> = Vec::new();
        let mut i: usize = 0;
        while i < lines.len()
            invariant
                i <= lines@.len(),
                views(lines@) == split(output@, '\n'),
                out@.map_values(|d: RawDeviceInfo| device_view(d)) == devices_upto(
                    views(lines@),
                    i as int,
                ),
            decreases lines@.len() - i,
        {
            assert(views(lines@)[i as int] == lines@[i as int]@);
            match device_line_exec(&lines[i]) {
                Some(d) => {
                    out.push(d);
                    assert(out@.map_values(|d: RawDeviceInfo| device_view(d)) =~= devices_upto(
                        views(lines@),
                        i + 1,
                    ));
                },
                None => {},
            }
            i = i + 1;
        }
        out
    }
    /// A size token in whole MiB.
    pub fn size_token_to_mb(token: &Vec<char>, assume_kib_without_suffix: bool) -> (r: Option<i64>)
        ensures
            match r {
                Some(v) => token_mb(token@, assume_kib_without_suffix) == Some(v as int),
                None => token_mb(token@, assume_kib_without_suffix) is None,
            },
    {
        let t = trimmed(token);
        let ts = string_of(&t);
        let l = lowercase(ts.as_str());
        let c = chars_of(l.as_str());
        let n = c.len();
        let k = digit_run_exec(&c, 0);
        if k == 0 {
            return None;
        }
        let e = if k < n && c[k] == '.' && digit_run_exec(&c, k + 1) > k + 1 {
            digit_run_exec(&c, k + 1)
        } else {
            k
        };
        assert(e as int == number_end(c@));
        let num = crate::text::slice_of(&c, 0, e);
        let suf = crate::text::slice_of(&c, e, n);
        let v = match score_exec(&num) {
            Some(v) => v,
            None => {
                return None;
            },
        };
        let (fnum, fden) = match suffix_factor_exec(&suf, assume_kib_without_suffix) {
            Some(f) => f,
            None => {
                return None;
            },
        };
        assert(v * fnum <= 100_000_000_000_000_000_001_000_000u128 * 1073741824u128) by (nonlinear_arith)
            requires
                v <= 100_000_000_000_000_000_001_000_000u128,
                fnum <= 1073741824u128,
        {}
        let mb = (v * fnum) / (fden * 1_000_000);
        if mb > i64::MAX as u128 {
            Some(i64::MAX)
        } else {
            Some(mb as i64)
        }
    }
    /// Storage of the preferred mount in a `df` listing (header skipped, sizes
    /// in KiB unless suffixed); all zero when no line describes one.
    pub fn parse_storage_info_output(output: &str) -> (r: StorageInfo)
        ensures
            ({
                let lines = split(output@, '\n');
                match best_storage(lines, lines.len() as int) {
                    Some((_, v)) => storage_view(r) == v,
                    None => storage_view(r) == (0int, 0int, 0int),
                }
            }),
    {
        let c = chars_of(output);
        let lines = split_all(&c, '\n');
        let mut best: Option<(u64, StorageInfo)> = None;
        let mut i: usize = 0;
        while i < lines.len()
            invariant
                i <= lines@.len(),
                views(lines@) == split(output@, '\n'),
                match best {
                    Some((sc, info)) => best_storage(views(lines@), i as int) == Some(
                        (sc as int, storage_view(info)),
                    ),
                    None => best_storage(views(lines@), i as int) is None,
                },
            decreases lines@.len() - i,
        {
            assert(views(lines@)[i as int] == lines@[i as int]@);
            match storage_candidate_exec(&lines[i]) {
                None => {},
                Some((sc, info)) => {
                    let replace = match &best {
                        None => true,
                        Some((bs, _)) => sc > *bs,
                    };
                    if replace {
                        best = Some((sc, info));
                    }
                },
            }
            i = i + 1;
        }
        match best {
            Some((_, info)) => info,
            None => StorageInfo { total_mb: 0, used_mb: 0, free_mb: 0 },
        }
    }
    /// Installed packages named by a package listing, each with the version
    /// code its last line gives.
    pub fn parse_packages_with_versions_output(output: &str) -> (r: PackageVersions)
        ensures
            r.view_entries() == packages_upto(
                split(output@, '\n'),
                split(output@, '\n').len() as int,
            ),
    {
        let c = chars_of(output);
        let lines = split_all(&c, '\n');
        let mut entries: Vec<(String, Option<String>)> = Vec::new();
        let mut i: usize = 0;
        while i < lines.len()
            invariant
                i <= lines@.len(),
                views(lines@) == split(output@, '\n'),
                entries@.map_values(|e: (String, Option<String>)| entry_view(e)) == packages_upto(
                    views(lines@),
                    i as int,
                ),
            decreases lines@.len() - i,
        {
            assert(views(lines@)[i as int] == lines@[i as int]@);
            let ghost prev = entries@.map_values(|e: (String, Option<String>)| entry_view(e));
            match package_line_exec(&lines[i]) {
                None => {},
                Some(x) => {
                    let mut k: usize = 0;
                    let mut found = false;
                    while k < entries.len() && !found
                        invariant
                            k <= entries@.len(),
                            prev == entries@.map_values(|e: (String, Option<String>)| entry_view(e)),
                            !found ==> entry_index(prev, x.0@, 0) == entry_index(prev, x.0@, k as int),
                            found ==> k < entries@.len() && entry_index(prev, x.0@, 0) == k,
                        decreases entries@.len() - k + if found {
                            0int
                        } else {
                            1int
                        },
                    {
                        assert(prev[k as int] == entry_view(entries@[k as int]));
                        if entries[k].0 == x.0 {
                            found = true;
                        } else {
                            k = k + 1;
                        }
                    }
                    if found {
                        entries.set(k, x);
                        assert(entries@.map_values(|e: (String, Option<String>)| entry_view(e))
                            =~= prev.update(k as int, entry_view(x)));
                    } else {
                        entries.push(x);
                        assert(entries@.map_values(|e: (String, Option<String>)| entry_view(e))
                            =~= prev.push(entry_view(x)));
                    }
                },
            }
            i = i + 1;
        }
        PackageVersions { entries }
    }
    /// Battery state from a battery service dump of `key: value` lines.
    pub fn parse_battery_output(output: &str) -> (r: BatteryInfo)
        ensures
            ({
                let lines = split(output@, '\n');
                let n = lines.len() as int;
                let level = level_of(
                    battery_value(lines, n, seq!['l', 'e', 'v', 'e', 'l']),
                    battery_value(lines, n, seq!['s', 'c', 'a', 'l', 'e']),
                );
                let status = status_name(status_code(battery_value(lines, n, seq!['s', 't', 'a', 't', 'u', 's'])));
                &&& (match r.level_percent {
                    Some(x) => level == Some(x as int),
                    None => level is None,
                })
                &&& r.status@ == status
                &&& r.is_charging == (status == "charging"@ || status == "full"@)
                &&& (match r.temperature_tenths {
                    Some(x) => temperature_of(
                        battery_value(lines, n, seq!['t', 'e', 'm', 'p', 'e', 'r', 'a', 't', 'u', 'r', 'e']),
                    ) == Some(x as int),
                    None => temperature_of(
                        battery_value(lines, n, seq!['t', 'e', 'm', 'p', 'e', 'r', 'a', 't', 'u', 'r', 'e']),
                    ) is None,
                })
            }),
    {
        let c = chars_of(output);
        let lines = split_all(&c, '\n');
        let k_level = vec!['l', 'e', 'v', 'e', 'l'];
        let k_scale = vec!['s', 'c', 'a', 'l', 'e'];
        let k_status = vec!['s', 't', 'a', 't', 'u', 's'];
        let k_temp = vec!['t', 'e', 'm', 'p', 'e', 'r', 'a', 't', 'u', 'r', 'e'];
        assert(k_level@ =~= seq!['l', 'e', 'v', 'e', 'l']);
        assert(k_scale@ =~= seq!['s', 'c', 'a', 'l', 'e']);
        assert(k_status@ =~= seq!['s', 't', 'a', 't', 'u', 's']);
        assert(k_temp@ =~= seq!['t', 'e', 'm', 'p', 'e', 'r', 'a', 't', 'u', 'r', 'e']);
        let level_v = battery_value_exec(&lines, &k_level);
        let scale_v = battery_value_exec(&lines, &k_scale);
        let status_v = battery_value_exec(&lines, &k_status);
        let temp_v = battery_value_exec(&lines, &k_temp);

        let s: u128 = match score_opt(&scale_v) {
            Some(v) => v,
            None => 100_000_000,
        };
        let level_percent = match score_opt(&level_v) {
            None => None,
            Some(v) => if s == 0 {
                None
            } else {
                assert(v * 200 + s <= 100_000_000_000_000_000_001_000_000u128 * 201) by (nonlinear_arith)
                    requires
                        v <= 100_000_000_000_000_000_001_000_000u128,
                        s <= 100_000_000_000_000_000_001_000_000u128,
                {}
                let q = (v * 200 + s) / (2 * s);
                Some(
                    if q > i64::MAX as u128 {
                        i64::MAX
                    } else {
                        q as i64
                    },
                )
            },
        };
        let code: i64 = match &status_v {
            Some(t) => match crate::text::parse_i64_exec(t) {
                Some(x) => x,
                None => 1,
            },
            None => 1,
        };
        let status = if code == 2 {
            String::from_str("charging")
        } else if code == 3 {
            String::from_str("discharging")
        } else if code == 4 {
            String::from_str("not_charging")
        } else if code == 5 {
            String::from_str("full")
        } else {
            String::from_str("unknown")
        };
        let charging = code == 2 || code == 5;
        proof {
            reveal_strlit("charging");
            reveal_strlit("discharging");
            reveal_strlit("not_charging");
            reveal_strlit("full");
            reveal_strlit("unknown");
            assert("charging"@.len() == 8);
            assert("discharging"@.len() == 11);
            assert("not_charging"@.len() == 12);
            assert("full"@.len() == 4);
            assert("unknown"@.len() == 7);
        }
        let temperature_tenths = match score_opt(&temp_v) {
            None => None,
            Some(x) => {
                let q = (2 * x + 1_000_000) / 2_000_000;
                Some(
                    if q > i64::MAX as u128 {
                        i64::MAX
                    } else {
                        q as i64
                    },
                )
            },
        };
        let ghost ls = split(output@, '\n');
        let ghost n = ls.len() as int;
        assert(views(lines@) == ls);
        let ghost st = status_name(status_code(battery_value(ls, n, seq!['s', 't', 'a', 't', 'u', 's'])));
        assert(code as int == status_code(battery_value(ls, n, seq!['s', 't', 'a', 't', 'u', 's'])));
        assert(status@ == st);
        assert(charging == (st == "charging"@ || st == "full"@));
        assert(match level_percent {
            Some(x) => level_of(
                battery_value(ls, n, seq!['l', 'e', 'v', 'e', 'l']),
                battery_value(ls, n, seq!['s', 'c', 'a', 'l', 'e']),
            ) == Some(x as int),
            None => level_of(
                battery_value(ls, n, seq!['l', 'e', 'v', 'e', 'l']),
                battery_value(ls, n, seq!['s', 'c', 'a', 'l', 'e']),
            ) is None,
        });
        BatteryInfo { level_percent, status, is_charging: charging, temperature_tenths }
    }
}

} // verus!
