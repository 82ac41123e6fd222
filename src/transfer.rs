//! Transfer progress as the sync engine reports it, rendered for people,
//! and the small pieces of its control protocol that are decided here.
use vstd::prelude::*;
use crate::config::PublicConfig;
use crate::listing::{score_exec, score_of};
use crate::text::{chars_of, ends_with, ends_with_exec, slice_of, string_of, trim, trimmed};

verus! {

/// A point-in-time snapshot of one transfer. The percentage is kept in
/// hundredths of a percent.
#[derive(Debug, Clone, PartialEq, Default)]
pub struct DownloadProgress {
    pub bytes_transferred: i64,
    pub total_bytes: i64,
    pub percent_hundredths: i128,
    pub speed: String,
    pub eta: String,
}

impl DownloadProgress {
    pub open spec fn is_zero(&self) -> bool {
        self.bytes_transferred == 0 && self.total_bytes == 0 && self.percent_hundredths == 0
            && self.speed@.len() == 0 && self.eta@.len() == 0
    }

    /// Nothing transferred yet.
    pub fn new_zero() -> (r: DownloadProgress)
        ensures
            r.is_zero(),
    {
        DownloadProgress {
            bytes_transferred: 0,
            total_bytes: 0,
            percent_hundredths: 0,
            speed: String::new(),
            eta: String::new(),
        }
    }

    /// A copy that is equal field for field.
    pub fn duplicate(&self) -> (r: DownloadProgress)
        ensures
            r == *self,
    {
        DownloadProgress {
            bytes_transferred: self.bytes_transferred,
            total_bytes: self.total_bytes,
            percent_hundredths: self.percent_hundredths,
            speed: self.speed.clone(),
            eta: self.eta.clone(),
        }
    }

    /// The speed text, or `calculating...` before the first measurement.
    pub fn speed_display(&self) -> (r: &str)
        ensures
            self.speed@.len() == 0 ==> r@ == "calculating..."@,
            self.speed@.len() != 0 ==> r@ == self.speed@,
    {
        if self.speed.as_str().is_empty() {
            "calculating..."
        } else {
            self.speed.as_str()
        }
    }
}

/// Outcome of one transfer-backend call, in process terms.
#[derive(Debug, Clone, PartialEq, Eq)]
pub struct RcloneResult {
    pub stdout: String,
    pub stderr: String,
    pub returncode: i32,
}

impl RcloneResult {
    pub fn success(&self) -> (r: bool)
        ensures
            r == (self.returncode == 0),
    {
        self.returncode == 0
    }
}

pub open spec fn digit_char(d: int) -> char {
    if d == 0 {
        '0'
    } else if d == 1 {
        '1'
    } else if d == 2 {
        '2'
    } else if d == 3 {
        '3'
    } else if d == 4 {
        '4'
    } else if d == 5 {
        '5'
    } else if d == 6 {
        '6'
    } else if d == 7 {
        '7'
    } else if d == 8 {
        '8'
    } else {
        '9'
    }
}

/// Decimal digits of `n`, without leading zeros.
pub open spec fn dec(n: nat) -> Seq<char>
    decreases n,
{
    if n < 10 {
        seq![digit_char(n as int)]
    } else {
        dec(n / 10).push(digit_char((n % 10) as int))
    }
}

fn digit_char_exec(d: u64) -> (r: char)
    requires
        d < 10,
    ensures
        r == digit_char(d as int),
{
    if d == 0 {
        '0'
    } else if d == 1 {
        '1'
    } else if d == 2 {
        '2'
    } else if d == 3 {
        '3'
    } else if d == 4 {
        '4'
    } else if d == 5 {
        '5'
    } else if d == 6 {
        '6'
    } else if d == 7 {
        '7'
    } else if d == 8 {
        '8'
    } else {
        '9'
    }
}

/// Appends the decimal digits of `n` to `out`.
pub fn push_dec(out: &mut Vec<char>, n: u64)
    ensures
        final(out)@ == old(out)@ + dec(n as nat),
    decreases n,
{
    if n < 10 {
        out.push(digit_char_exec(n));
        assert(dec(n as nat) =~= seq![digit_char(n as int)]);
    } else {
        let ghost before = out@;
        push_dec(out, n / 10);
        out.push(digit_char_exec(n % 10));
        assert(out@ =~= before + dec(n as nat));
    }
}

fn push_str(out: &mut Vec<char>, s: &str)
    ensures
        final(out)@ == old(out)@ + s@,
{
    let v = crate::text::chars_vec(s);
    let ghost before = out@;
    let mut i: usize = 0;
    while i < v.len()
        invariant
            i <= v@.len(),
            out@ == before + v@.subrange(0, i as int),
        decreases v@.len() - i,
    {
        out.push(v[i]);
        assert(out@ =~= before + v@.subrange(0, i + 1));
        i = i + 1;
    }
    assert(v@.subrange(0, i as int) =~= v@);
}

/// Remaining time: `Ns` below a minute, `NmNs` below an hour, else `NhNm`;
/// a negative estimate is still being calculated.
pub open spec fn eta_text(s: int) -> Seq<char> {
    if s < 0 {
        "calculating..."@
    } else if s < 60 {
        dec(s as nat) + "s"@
    } else if s < 3600 {
        dec((s / 60) as nat) + "m"@ + dec((s % 60) as nat) + "s"@
    } else {
        dec((s / 3600) as nat) + "h"@ + dec(((s % 3600) / 60) as nat) + "m"@
    }
}


/// `n / unit` rounded to the nearest tenth, in tenths.
pub open spec fn tenths(n: int, unit: int) -> int {
    (n * 20 + unit) / (unit * 2)
}

/// `n / unit` with one decimal.
pub open spec fn one_decimal(n: int, unit: int) -> Seq<char> {
    let t = tenths(n, unit);
    dec((t / 10) as nat) + "."@ + seq![digit_char(t % 10)]
}

pub open spec fn kib() -> int {
    1024
}

pub open spec fn mib() -> int {
    1048576int
}

pub open spec fn gib() -> int {
    1073741824int
}

/// A transfer rate in binary units with one decimal, or whole bytes per
/// second below one KiB/s.
pub open spec fn speed_text(n: int) -> Seq<char> {
    if n >= gib() {
        one_decimal(n, gib()) + " GiB/s"@
    } else if n >= mib() {
        one_decimal(n, mib()) + " MiB/s"@
    } else if n >= kib() {
        one_decimal(n, kib()) + " KiB/s"@
    } else {
        dec(n as nat) + " B/s"@
    }
}

fn push_one_decimal(out: &mut Vec<char>, n: u64, unit: u64)
    requires
        unit == 1024 || unit == 1024 * 1024 || unit == 1024 * 1024 * 1024,
    ensures
        final(out)@ == old(out)@ + one_decimal(n as int, unit as int),
{
    let t: u128 = (n as u128 * 20 + unit as u128) / (unit as u128 * 2);
    assert(t <= (n as u128 * 20 + unit as u128)) by (nonlinear_arith)
        requires
            t == (n as u128 * 20 + unit as u128) / (unit as u128 * 2),
            unit >= 1,
    {}
    assert(t as int == tenths(n as int, unit as int));
    let whole = t / 10;
    assert(t * (unit as u128 * 2) <= n as u128 * 20 + unit as u128) by (nonlinear_arith)
        requires
            t == (n as u128 * 20 + unit as u128) / (unit as u128 * 2),
            unit >= 1,
    {}
    assert(whole <= u64::MAX) by (nonlinear_arith)
        requires
            whole == t / 10,
            t * (unit as u128 * 2) <= n as u128 * 20 + unit as u128,
            n <= u64::MAX,
            unit >= 1024,
            unit <= 1024 * 1024 * 1024,
    {}
    push_dec(out, whole as u64);
    push_str(out, ".");
    out.push(digit_char_exec((t % 10) as u64));
}


/// `bytes / total` in hundredths of a percent, truncated toward zero; 0
/// while the total is unknown.
pub open spec fn percent_of(bytes: int, total: int) -> int {
    if total <= 0 {
        0
    } else if bytes >= 0 {
        bytes * 10000 / total
    } else {
        -((-bytes) * 10000 / total)
    }
}


/// The `rate` argument of a bandwidth change: `off` without a limit, else
/// the limit in Mbit/s with one decimal (the limit is given in tenths).
pub open spec fn rate_text(limit_tenths: nat) -> Seq<char> {
    if limit_tenths == 0 {
        "off"@
    } else {
        dec(limit_tenths / 10) + "."@ + seq![digit_char((limit_tenths % 10) as int)] + "M"@
    }
}

pub fn bandwidth_rate(limit_tenths: u64) -> (r: String)
    ensures
        r@ == rate_text(limit_tenths as nat),
{
    if limit_tenths == 0 {
        return String::from_str("off");
    }
    let mut out: Vec<char> = Vec::new();
    push_dec(&mut out, limit_tenths / 10);
    push_str(&mut out, ".");
    out.push(digit_char_exec(limit_tenths % 10));
    push_str(&mut out, "M");
    assert(out@ =~= rate_text(limit_tenths as nat));
    string_of(&out)
}

/// Source of the copy job for a release directory: `vrp:<hash>/`.
pub fn copy_source(game_hash: &str) -> (r: String)
    ensures
        r@ == "vrp:"@ + game_hash@ + "/"@,
{
    let mut out: Vec<char> = Vec::new();
    push_str(&mut out, "vrp:");
    push_str(&mut out, game_hash);
    push_str(&mut out, "/");
    string_of(&out)
}

/// Statistics group of a job: `job/<id>`.
pub fn stats_group(job_id: u64) -> (r: String)
    ensures
        r@ == "job/"@ + dec(job_id as nat),
{
    let mut out: Vec<char> = Vec::new();
    push_str(&mut out, "job/");
    push_dec(&mut out, job_id);
    string_of(&out)
}

/// A job's status as the backend reports it.
pub struct JobStatus {
    pub finished: bool,
    pub success: bool,
    pub error: String,
}

/// The result of a polled job: none while it runs; once finished, success
/// with the status text as output, or failure with the backend's error.
pub fn job_result(status: &JobStatus, status_text: String) -> (r: Option<RcloneResult>)
    ensures
        !status.finished ==> r is None,
        status.finished && status.success ==> (r matches Some(x) && x.returncode == 0
            && x.stdout@ == status_text@ && x.stderr@.len() == 0),
        status.finished && !status.success ==> (r matches Some(x) && x.returncode == 1
            && x.stdout@.len() == 0 && x.stderr@ == status.error@),
{
    if !status.finished {
        None
    } else if status.success {
        Some(RcloneResult { stdout: status_text, stderr: String::new(), returncode: 0 })
    } else {
        Some(RcloneResult { stdout: String::new(), stderr: status.error.clone(), returncode: 1 })
    }
}

/// Health probes made while a freshly started daemon comes up.
pub const HEALTH_ATTEMPTS: u32 = 20;

/// What to do after a health probe of a starting daemon.
#[derive(Debug, Clone, Copy, PartialEq, Eq, Structural)]
pub enum ProbeAction {
    /// It answered: register the remote and use the port.
    Ready,
    /// Wait one interval and probe again.
    Retry,
    /// It did not come up within the bound: fail the operation.
    GiveUp,
}

/// Decision after probe number `attempt` (1-based) answered or not.
pub fn probe_step(attempt: u32, healthy: bool) -> (r: ProbeAction)
    ensures
        healthy ==> r == ProbeAction::Ready,
        !healthy && attempt < HEALTH_ATTEMPTS ==> r == ProbeAction::Retry,
        !healthy && attempt >= HEALTH_ATTEMPTS ==> r == ProbeAction::GiveUp,
{
    if healthy {
        ProbeAction::Ready
    } else if attempt < HEALTH_ATTEMPTS {
        ProbeAction::Retry
    } else {
        ProbeAction::GiveUp
    }
}

/// What `str::to_uppercase` makes of a string.
pub uninterp spec fn upper_of(s: Seq<char>) -> Seq<char>;

/// Relies on `str::to_uppercase`: the result depends on the characters alone.
#[verifier::external_body]
fn uppercase(s: &str) -> (r: String)
    ensures
        r@ == upper_of(s@),
{
    s.to_uppercase()
}

/// `x` in whole units, rounded toward zero and capped at `i64::MAX`.
pub open spec fn capped(x: int) -> int {
    if x > i64::MAX {
        i64::MAX as int
    } else {
        x
    }
}

/// The size suffixes, binary ones first, with their byte multiples.
pub open spec fn byte_units() -> Seq<(Seq<char>, int)> {
    seq![
        (seq!['P', 'I', 'B'], 1125899906842624),
        (seq!['T', 'I', 'B'], 1099511627776),
        (seq!['G', 'I', 'B'], 1073741824),
        (seq!['M', 'I', 'B'], 1048576),
        (seq!['K', 'I', 'B'], 1024),
        (seq!['P', 'B'], 1000000000000000),
        (seq!['T', 'B'], 1000000000000),
        (seq!['G', 'B'], 1000000000),
        (seq!['M', 'B'], 1000000),
        (seq!['K', 'B'], 1000),
        (seq!['B'], 1),
    ]
}

/// Bytes that `n` gives with suffix number `i`, if it ends with that
/// suffix and a number precedes it.
pub open spec fn with_unit(n: Seq<char>, i: int) -> Option<int> {
    let (suf, scale) = byte_units()[i];
    if ends_with(n, suf) {
        match score_of(trim(n.subrange(0, n.len() - suf.len()))) {
            Some(v) => Some(capped(v * scale / 1_000_000)),
            None => None,
        }
    } else {
        None
    }
}

/// The first suffix from number `i` on that gives a value.
pub open spec fn first_unit(n: Seq<char>, i: int) -> Option<int>
    decreases 11 - i,
{
    if i < 0 || i >= 11 {
        None
    } else {
        match with_unit(n, i) {
            Some(v) => Some(v),
            None => first_unit(n, i + 1),
        }
    }
}

/// Bytes of a size text (`1.5 MiB`, `3 GB`, `512`), any case; 0 for text
/// that holds no plain decimal number.
pub open spec fn bytes_of(s: Seq<char>) -> int {
    let n = upper_of(trim(s));
    match first_unit(n, 0) {
        Some(v) => v,
        None => match score_of(n) {
            Some(v) => capped(v / 1_000_000),
            None => 0,
        },
    }
}

fn unit_exec(i: usize) -> (r: (Vec<char>, u128))
    requires
        i < 11,
    ensures
        r.0@ == byte_units()[i as int].0,
        r.1 as int == byte_units()[i as int].1,
{
    let r = if i == 0 {
        (vec!['P', 'I', 'B'], 1125899906842624u128)
    } else if i == 1 {
        (vec!['T', 'I', 'B'], 1099511627776u128)
    } else if i == 2 {
        (vec!['G', 'I', 'B'], 1073741824u128)
    } else if i == 3 {
        (vec!['M', 'I', 'B'], 1048576u128)
    } else if i == 4 {
        (vec!['K', 'I', 'B'], 1024u128)
    } else if i == 5 {
        (vec!['P', 'B'], 1000000000000000u128)
    } else if i == 6 {
        (vec!['T', 'B'], 1000000000000u128)
    } else if i == 7 {
        (vec!['G', 'B'], 1000000000u128)
    } else if i == 8 {
        (vec!['M', 'B'], 1000000u128)
    } else if i == 9 {
        (vec!['K', 'B'], 1000u128)
    } else {
        (vec!['B'], 1u128)
    };
    assert(r.0@ =~= byte_units()[i as int].0);
    r
}

/// `v * scale / 10^6`, rounded down and capped at `i64::MAX`.
fn scaled(v: u128, scale: u128) -> (r: i64)
    requires
        v <= 100_000_000_000_000_000_001_000_000u128,
        1 <= scale <= 1125899906842624u128,
    ensures
        r as int == capped(v as int * scale as int / 1_000_000),
{
    let q = v / 1_000_000;
    let m = v % 1_000_000;
    assert(q * scale <= 100_000_000_000_000_000_001u128 * 1125899906842624u128) by (nonlinear_arith)
        requires
            q == v / 1_000_000,
            v <= 100_000_000_000_000_000_001_000_000u128,
            scale <= 1125899906842624u128,
    {}
    assert(m * scale < 1_000_000u128 * 1125899906842624u128) by (nonlinear_arith)
        requires
            m == v % 1_000_000,
            scale <= 1125899906842624u128,
    {}
    let total = q * scale + (m * scale) / 1_000_000;
    assert(total as int == v as int * scale as int / 1_000_000) by (nonlinear_arith)
        requires
            q == v / 1_000_000,
            m == v % 1_000_000,
            total == q * scale + (m * scale) / 1_000_000,
            scale >= 1,
    {
        assert(v == q * 1_000_000 + m);
        assert(v * scale == (q * scale) * 1_000_000 + m * scale);
    }
    if total > i64::MAX as u128 {
        i64::MAX
    } else {
        total as i64
    }
}


/// Jobs of `s` other than those for `key`, in order.
pub open spec fn without_job(s: Seq<(Seq<char>, u64)>, key: Seq<char>) -> Seq<(Seq<char>, u64)>
    decreases s.len(),
{
    if s.len() == 0 {
        Seq::empty()
    } else {
        let rest = without_job(s.drop_last(), key);
        if s.last().0 == key {
            rest
        } else {
            rest.push(s.last())
        }
    }
}

/// Index of the job of `key`, or -1.
pub open spec fn job_index(s: Seq<(Seq<char>, u64)>, key: Seq<char>, i: int) -> int
    decreases s.len() - i,
{
    if i < 0 || i >= s.len() {
        -1
    } else if s[i].0 == key {
        i
    } else {
        job_index(s, key, i + 1)
    }
}

/// `s` with any trailing `/` removed.
pub open spec fn without_trailing_slash(s: Seq<char>) -> Seq<char>
    decreases s.len(),
{
    if s.len() > 0 && s.last() == '/' {
        without_trailing_slash(s.drop_last())
    } else {
        s
    }
}

/// What the sync-engine controller keeps: the engine executable, the
/// content source and its password, the port of a daemon believed healthy,
/// and the job of each release directory being copied.
pub struct RcloneService {
    rclone_path: String,
    password: String,
    base_uri: String,
    rc_port: Option<u16>,
    active_jobs: Vec<(String, u64)>,
}

pub open spec fn job_views(v: Seq<(String, u64)>) -> Seq<(Seq<char>, u64)> {
    v.map_values(|e: (String, u64)| (e.0@, e.1))
}

impl RcloneService {
    pub closed spec fn path_view(&self) -> Seq<char> {
        self.rclone_path@
    }

    pub closed spec fn password_view(&self) -> Seq<char> {
        self.password@
    }

    pub closed spec fn base_uri_view(&self) -> Seq<char> {
        self.base_uri@
    }

    pub closed spec fn port_view(&self) -> Option<u16> {
        self.rc_port
    }

    pub closed spec fn jobs_view(&self) -> Seq<(Seq<char>, u64)> {
        job_views(self.active_jobs@)
    }

    /// A controller for the given executable (`rclone` on the search path by
    /// default), with no source, no daemon and no jobs.
    pub fn new(rclone_path: Option<String>) -> (r: Self)
        ensures
            r.path_view() == match rclone_path {
                Some(p) => p@,
                None => "rclone"@,
            },
            r.password_view().len() == 0,
            r.base_uri_view().len() == 0,
            r.port_view() is None,
            r.jobs_view().len() == 0,
    {
        let path = match rclone_path {
            Some(p) => p,
            None => String::from_str("rclone"),
        };
        RcloneService {
            rclone_path: path,
            password: String::new(),
            base_uri: String::new(),
            rc_port: None,
            active_jobs: Vec::new(),
        }
    }

    pub fn rclone_path(&self) -> (r: &str)
        ensures
            r@ == self.path_view(),
    {
        self.rclone_path.as_str()
    }

    /// Takes the content source and password of a public configuration.
    pub fn set_public_config(&mut self, config: &PublicConfig)
        ensures
            final(self).base_uri_view() == config.base_uri@,
            final(self).password_view() == config.password@,
            final(self).port_view() == old(self).port_view(),
            final(self).jobs_view() == old(self).jobs_view(),
            final(self).path_view() == old(self).path_view(),
    {
        self.base_uri = config.base_uri.clone();
        self.password = config.password.clone();
    }

    pub fn base_uri(&self) -> (r: String)
        ensures
            r@ == self.base_uri_view(),
    {
        self.base_uri.clone()
    }

    pub fn password(&self) -> (r: &str)
        ensures
            r@ == self.password_view(),
    {
        self.password.as_str()
    }

    /// URL of the named remote: the content source without trailing `/`.
    pub fn remote_url(&self) -> (r: String)
        ensures
            r@ == without_trailing_slash(self.base_uri_view()),
    {
        let v = chars_of(self.base_uri.as_str());
        let mut b = v.len();
        assert(v@.subrange(0, b as int) =~= v@);
        while b > 0 && v[b - 1] == '/'
            invariant
                b <= v@.len(),
                without_trailing_slash(v@) == without_trailing_slash(v@.subrange(0, b as int)),
            decreases b,
        {
            assert(v@.subrange(0, b as int).drop_last() =~= v@.subrange(0, b - 1));
            b = b - 1;
        }
        string_of(&slice_of(&v, 0, b))
    }

    /// Port of the daemon believed healthy, if any.
    pub fn port(&self) -> (r: Option<u16>)
        ensures
            r == self.port_view(),
    {
        self.rc_port
    }

    /// Records the daemon's port, or forgets it.
    pub fn record_port(&mut self, port: Option<u16>)
        ensures
            final(self).port_view() == port,
            final(self).jobs_view() == old(self).jobs_view(),
            final(self).base_uri_view() == old(self).base_uri_view(),
            final(self).password_view() == old(self).password_view(),
            final(self).path_view() == old(self).path_view(),
    {
        self.rc_port = port;
    }

    /// Records the job that copies a release directory.
    pub fn track_job(&mut self, game_hash: &str, job_id: u64)
        ensures
            ({
                let k = job_index(old(self).jobs_view(), game_hash@, 0);
                &&& k >= 0 ==> final(self).jobs_view() == old(self).jobs_view().update(
                    k,
                    (game_hash@, job_id),
                )
                &&& k < 0 ==> final(self).jobs_view() == old(self).jobs_view().push(
                    (game_hash@, job_id),
                )
            }),
            final(self).port_view() == old(self).port_view(),
    {
        let key = game_hash.to_owned();
        let ghost before = job_views(self.active_jobs@);
        let mut j: usize = 0;
        while j < self.active_jobs.len()
            invariant
                j <= self.active_jobs@.len(),
                before == job_views(self.active_jobs@),
                before == job_views(old(self).active_jobs@),
                self.rc_port == old(self).rc_port,
                key@ == game_hash@,
                job_index(before, game_hash@, 0) == job_index(before, game_hash@, j as int),
            decreases self.active_jobs@.len() - j,
        {
            assert(before[j as int] == (self.active_jobs@[j as int].0@, self.active_jobs@[j as int].1));
            if self.active_jobs[j].0 == key {
                self.active_jobs.set(j, (key, job_id));
                assert(job_views(self.active_jobs@) =~= before.update(j as int, (game_hash@, job_id)));
                return;
            }
            j = j + 1;
        }
        self.active_jobs.push((key, job_id));
        assert(job_views(self.active_jobs@) =~= before.push((game_hash@, job_id)));
    }

    /// Forgets the job of a release directory, whatever its outcome.
    pub fn finish_job(&mut self, game_hash: &str)
        ensures
            final(self).jobs_view() == without_job(old(self).jobs_view(), game_hash@),
            final(self).port_view() == old(self).port_view(),
    {
        let key = game_hash.to_owned();
        let ghost before = job_views(self.active_jobs@);
        let mut kept: Vec<(String, u64)> = Vec::new();
        let mut i: usize = 0;
        while i < self.active_jobs.len()
            invariant
                i <= self.active_jobs@.len(),
                before == job_views(self.active_jobs@),
                key@ == game_hash@,
                job_views(kept@) == without_job(before.subrange(0, i as int), game_hash@),
            decreases self.active_jobs@.len() - i,
        {
            let ghost pre = before.subrange(0, i as int);
            let ghost next = before.subrange(0, i + 1);
            assert(next.drop_last() =~= pre);
            assert(next.last() == (self.active_jobs@[i as int].0@, self.active_jobs@[i as int].1));
            if self.active_jobs[i].0 != key {
                let ghost kv = job_views(kept@);
                kept.push((self.active_jobs[i].0.clone(), self.active_jobs[i].1));
                assert(job_views(kept@) =~= kv.push(next.last()));
            }
            i = i + 1;
        }
        assert(before.subrange(0, i as int) =~= before);
        self.active_jobs = kept;
    }

    /// Renders an estimated time left, in seconds.
    pub fn format_eta(seconds: i64) -> (r: String)
        ensures
            r@ == eta_text(seconds as int),
    {
        if seconds < 0 {
            return String::from_str("calculating...");
        }
        let s = seconds as u64;
        let mut out: Vec<char> = Vec::new();
        if s < 60 {
            push_dec(&mut out, s);
            push_str(&mut out, "s");
        } else if s < 3600 {
            push_dec(&mut out, s / 60);
            push_str(&mut out, "m");
            push_dec(&mut out, s % 60);
            push_str(&mut out, "s");
        } else {
            push_dec(&mut out, s / 3600);
            push_str(&mut out, "h");
            push_dec(&mut out, (s % 3600) / 60);
            push_str(&mut out, "m");
        }
        assert(out@ =~= eta_text(seconds as int));
        string_of(&out)
    }
    /// Renders a transfer rate given in bytes per second.
    pub fn format_speed(bytes_per_sec: u64) -> (r: String)
        ensures
            r@ == speed_text(bytes_per_sec as int),
    {
        let n = bytes_per_sec;
        let mut out: Vec<char> = Vec::new();
        if n >= 1024 * 1024 * 1024 {
            push_one_decimal(&mut out, n, 1024 * 1024 * 1024);
            push_str(&mut out, " GiB/s");
        } else if n >= 1024 * 1024 {
            push_one_decimal(&mut out, n, 1024 * 1024);
            push_str(&mut out, " MiB/s");
        } else if n >= 1024 {
            push_one_decimal(&mut out, n, 1024);
            push_str(&mut out, " KiB/s");
        } else {
            push_dec(&mut out, n);
            push_str(&mut out, " B/s");
        }
        assert(out@ =~= speed_text(n as int));
        string_of(&out)
    }
    /// The progress snapshot of one poll of the backend's statistics.
    pub fn parse_rc_stats(bytes: i64, total_bytes: i64, bytes_per_sec: u64, eta_seconds: i64) -> (r:
        DownloadProgress)
        ensures
            r.bytes_transferred == bytes,
            r.total_bytes == total_bytes,
            r.percent_hundredths == percent_of(bytes as int, total_bytes as int),
            r.speed@ == speed_text(bytes_per_sec as int),
            r.eta@ == eta_text(eta_seconds as int),
    {
        let pct: i128 = if total_bytes <= 0 {
            0
        } else {
            let t = total_bytes as u128;
            if bytes >= 0 {
                let num: u128 = bytes as u128 * 10000;
                let q = num / t;
                assert(q <= num) by (nonlinear_arith)
                    requires
                        q == num / t,
                        t >= 1,
                {}
                q as i128
            } else {
                let m: u128 = (-(bytes as i128)) as u128;
                let num: u128 = m * 10000;
                let q = num / t;
                assert(q <= num) by (nonlinear_arith)
                    requires
                        q == num / t,
                        t >= 1,
                {}
                -(q as i128)
            }
        };
        DownloadProgress {
            bytes_transferred: bytes,
            total_bytes,
            percent_hundredths: pct,
            speed: RcloneService::format_speed(bytes_per_sec),
            eta: RcloneService::format_eta(eta_seconds),
        }
    }
    /// Bytes of a size text: binary (`KiB` .. `PiB`) and decimal (`KB` .. `PB`)
    /// suffixes in any case, rounded toward zero; 0 when it holds no number.
    pub fn parse_bytes(size_str: &str) -> (r: i64)
        ensures
            r as int == bytes_of(size_str@),
    {
        let raw = chars_of(size_str);
        let t = trimmed(&raw);
        let u = uppercase(string_of(&t).as_str());
        let n = chars_of(u.as_str());
        assert(n@ == upper_of(trim(size_str@)));
        let mut i: usize = 0;
        while i < 11
            invariant
                i <= 11,
                n@ == upper_of(trim(size_str@)),
                first_unit(n@, 0) == first_unit(n@, i as int),
            decreases 11 - i,
        {
            let (suf, scale) = unit_exec(i);
            if ends_with_exec(&n, &suf) {
                let head = slice_of(&n, 0, n.len() - suf.len());
                let num = trimmed(&head);
                match score_exec(&num) {
                    Some(v) => {
                        let r = scaled(v, scale);
                        assert(with_unit(n@, i as int) == Some(r as int));
                        assert(first_unit(n@, i as int) == Some(r as int));
                        assert(n@ == upper_of(trim(size_str@)));
                        return r;
                    },
                    None => {},
                }
            }
            assert(with_unit(n@, i as int) is None);
            i = i + 1;
        }
        match score_exec(&n) {
            Some(v) => scaled(v, 1),
            None => 0,
        }
    }

    /// Identifiers of the jobs in flight, in the order they were started.
    pub fn job_ids(&self) -> (r: Vec<u64>)
        ensures
            r@ == self.jobs_view().map_values(|e: (Seq<char>, u64)| e.1),
    {
        let mut out: Vec<u64> = Vec::new();
        let mut i: usize = 0;
        while i < self.active_jobs.len()
            invariant
                i <= self.active_jobs@.len(),
                out@ == self.jobs_view().subrange(0, i as int).map_values(|e: (Seq<char>, u64)| e.1),
            decreases self.active_jobs@.len() - i,
        {
            out.push(self.active_jobs[i].1);
            assert(out@ =~= self.jobs_view().subrange(0, i + 1).map_values(|e: (Seq<char>, u64)| e.1));
            i = i + 1;
        }
        assert(self.jobs_view().subrange(0, i as int) =~= self.jobs_view());
        out
    }
}

} // verus!
