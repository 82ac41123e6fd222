//! A catalog row: the game record and the two row schemas it is read from.
use vstd::prelude::*;
use crate::text::{
    chars_of, is_decimal, is_decimal_exec, is_digit, is_space, slice_of, space,
    string_of, trail_start, trim, trim_end, trimmed, views,
};

verus! {

/// One release of a game as listed in the catalog.
#[derive(Debug, Clone, PartialEq, Default)]
pub struct Game {
    pub game_name: String,
    pub release_name: String,
    pub package_name: String,
    pub version_code: String,
    pub release_apk_path: String,
    pub version_name: String,
    pub downloads: String,
    pub size: String,
    pub last_updated: String,
    pub thumbnail_path: String,
    pub thumbnail_exists: bool,
    pub note_path: String,
    pub note_excerpt: String,
    pub note_exists: bool,
    pub popularity_rank: i32,
    pub is_new: bool,
}

/// What a `Game` holds, as character sequences.
pub ghost struct GameView {
    pub game_name: Seq<char>,
    pub release_name: Seq<char>,
    pub package_name: Seq<char>,
    pub version_code: Seq<char>,
    pub release_apk_path: Seq<char>,
    pub version_name: Seq<char>,
    pub downloads: Seq<char>,
    pub size: Seq<char>,
    pub last_updated: Seq<char>,
    pub thumbnail_path: Seq<char>,
    pub thumbnail_exists: bool,
    pub note_path: Seq<char>,
    pub note_excerpt: Seq<char>,
    pub note_exists: bool,
    pub popularity_rank: i32,
    pub is_new: bool,
}

impl View for Game {
    type V = GameView;

    open spec fn view(&self) -> GameView {
        GameView {
            game_name: self.game_name@,
            release_name: self.release_name@,
            package_name: self.package_name@,
            version_code: self.version_code@,
            release_apk_path: self.release_apk_path@,
            version_name: self.version_name@,
            downloads: self.downloads@,
            size: self.size@,
            last_updated: self.last_updated@,
            thumbnail_path: self.thumbnail_path@,
            thumbnail_exists: self.thumbnail_exists,
            note_path: self.note_path@,
            note_excerpt: self.note_excerpt@,
            note_exists: self.note_exists,
            popularity_rank: self.popularity_rank,
            is_new: self.is_new,
        }
    }
}

/// Field `i` of a row, trimmed; empty where the row is shorter.
pub open spec fn field(fs: Seq<Seq<char>>, i: int) -> Seq<char> {
    if 0 <= i < fs.len() {
        trim(fs[i])
    } else {
        Seq::empty()
    }
}

/// `c` is the ASCII letter `u` in either case (`u` upper case).
pub open spec fn ci(c: char, u: char) -> bool {
    c == u || (c as u32) == (u as u32) + 32
}

pub open spec fn is_scale_letter(c: char) -> bool {
    ci(c, 'K') || ci(c, 'M') || ci(c, 'G') || ci(c, 'T')
}

/// `KB`, `MB`, `GB`, `TB`, `KIB`, `MIB`, `GIB` or `TIB`, in any case.
pub open spec fn is_unit(s: Seq<char>) -> bool {
    (s.len() == 2 && is_scale_letter(s[0]) && ci(s[1], 'B')) || (s.len() == 3 && is_scale_letter(
        s[0],
    ) && ci(s[1], 'I') && ci(s[2], 'B'))
}

/// A decimal number, optional whitespace, then a storage unit.
pub open spec fn has_size_unit(s: Seq<char>) -> bool {
    let n = s.len() as int;
    (n >= 3 && is_unit(s.subrange(n - 3, n)) && is_decimal(trim_end(s.subrange(0, n - 3)))) || (n
        >= 2 && is_unit(s.subrange(n - 2, n)) && is_decimal(trim_end(s.subrange(0, n - 2))))
}

/// Starts with `YYYY-MM-DD`.
pub open spec fn is_date_prefix(s: Seq<char>) -> bool {
    s.len() >= 10 && is_digit(s[0]) && is_digit(s[1]) && is_digit(s[2]) && is_digit(s[3]) && s[4]
        == '-' && is_digit(s[5]) && is_digit(s[6]) && s[7] == '-' && is_digit(s[8]) && is_digit(
        s[9],
    )
}

/// Seven or more fields, a date in field 4 and a size in field 5.
pub open spec fn is_modern(fs: Seq<Seq<char>>) -> bool {
    fs.len() >= 7 && is_date_prefix(field(fs, 4)) && (is_decimal(field(fs, 5)) || has_size_unit(
        field(fs, 5),
    ))
}

/// `s` with every trailing `c` removed.
pub open spec fn strip_end(s: Seq<char>, c: char) -> Seq<char>
    decreases s.len(),
{
    if s.len() > 0 && s.last() == c {
        strip_end(s.drop_last(), c)
    } else {
        s
    }
}

/// A bare number is read as megabytes; anything else is kept as it stands.
pub open spec fn normalized_size(raw: Seq<char>) -> Seq<char> {
    let v = trim(raw);
    if v.len() == 0 || has_size_unit(v) || !is_decimal(v) {
        v
    } else if v.contains('.') {
        strip_end(strip_end(v, '0'), '.') + seq![' ', 'M', 'B']
    } else {
        v + seq![' ', 'M', 'B']
    }
}

pub open spec fn is_word(c: char) -> bool {
    ('a' <= c && c <= 'z') || ('A' <= c && c <= 'Z') || ('0' <= c && c <= '9') || c == '_'
}

/// End of the run of digits that starts at `i`.
pub open spec fn digit_run(s: Seq<char>, i: int) -> int
    decreases s.len() - i,
{
    if 0 <= i < s.len() && is_digit(s[i]) {
        digit_run(s, i + 1)
    } else {
        i
    }
}

/// End of the run of characters other than whitespace and `-` that starts at `i`.
pub open spec fn token_run(s: Seq<char>, i: int) -> int
    decreases s.len() - i,
{
    if 0 <= i < s.len() && !is_space(s[i]) && s[i] != '-' {
        token_run(s, i + 1)
    } else {
        i
    }
}

/// At `p` stands a word-initial `v<digits>+<token>`.
pub open spec fn version_at(s: Seq<char>, p: int) -> bool {
    let d = digit_run(s, p + 1);
    0 <= p < s.len() && (p == 0 || !is_word(s[p - 1])) && (s[p] == 'v' || s[p] == 'V') && d > p
        + 1 && d < s.len() && s[d] == '+' && token_run(s, d + 1) > d + 1
}

/// The token of the first `v<digits>+<token>` at or after `p`, or empty.
pub open spec fn version_from(s: Seq<char>, p: int) -> Seq<char>
    decreases s.len() - p,
{
    if p < 0 || p >= s.len() {
        Seq::empty()
    } else if version_at(s, p) {
        let d = digit_run(s, p + 1);
        s.subrange(d + 1, token_run(s, d + 1))
    } else {
        version_from(s, p + 1)
    }
}

/// The version name that a release identifier carries.
pub open spec fn version_name_of(release: Seq<char>) -> Seq<char> {
    version_from(release, 0)
}

pub open spec fn empty_game() -> GameView {
    GameView {
        game_name: Seq::empty(),
        release_name: Seq::empty(),
        package_name: Seq::empty(),
        version_code: Seq::empty(),
        release_apk_path: Seq::empty(),
        version_name: Seq::empty(),
        downloads: Seq::empty(),
        size: Seq::empty(),
        last_updated: Seq::empty(),
        thumbnail_path: Seq::empty(),
        thumbnail_exists: false,
        note_path: Seq::empty(),
        note_excerpt: Seq::empty(),
        note_exists: false,
        popularity_rank: 0,
        is_new: false,
    }
}

/// The record that a row of fields describes, if it has at least four.
pub open spec fn row_of(fs: Seq<Seq<char>>) -> Option<GameView> {
    if fs.len() < 4 {
        None
    } else if is_modern(fs) {
        Some(
            GameView {
                game_name: field(fs, 0),
                release_name: field(fs, 1),
                package_name: field(fs, 2),
                version_code: field(fs, 3),
                version_name: version_name_of(field(fs, 1)),
                downloads: field(fs, 6),
                size: normalized_size(field(fs, 5)),
                last_updated: field(fs, 4),
                ..empty_game()
            },
        )
    } else {
        Some(
            GameView {
                game_name: field(fs, 0),
                release_name: field(fs, 1),
                package_name: field(fs, 2),
                version_code: field(fs, 3),
                release_apk_path: field(fs, 4),
                version_name: field(fs, 5),
                downloads: field(fs, 6),
                size: field(fs, 7),
                last_updated: field(fs, 8),
                ..empty_game()
            },
        )
    }
}

pub open spec fn str_views(fs: Seq<&str>) -> Seq<Seq<char>> {
    fs.map_values(|f: &str| f@)
}

pub fn ci_exec(c: char, u: char) -> (r: bool)
    ensures
        r == ci(c, u),
{
    c == u || (c as u32) == (u as u32) + 32
}

fn is_scale_letter_exec(c: char) -> (r: bool)
    ensures
        r == is_scale_letter(c),
{
    ci_exec(c, 'K') || ci_exec(c, 'M') || ci_exec(c, 'G') || ci_exec(c, 'T')
}

/// Whether `s[n-k..n]` is a unit and what precedes it, with trailing
/// whitespace dropped, is a decimal number.
fn unit_tail(s: &Vec<char>, k: usize) -> (r: bool)
    requires
        k == 2 || k == 3,
    ensures
        r == (s@.len() >= k && is_unit(s@.subrange(s@.len() - k, s@.len() as int)) && is_decimal(
            trim_end(s@.subrange(0, s@.len() - k)),
        )),
{
    let n = s.len();
    if n < k {
        return false;
    }
    let ghost u = s@.subrange(n - k, n as int);
    assert(u[0] == s@[n - k]);
    assert(u[1] == s@[n - k + 1]);
    let unit = if k == 2 {
        is_scale_letter_exec(s[n - 2]) && ci_exec(s[n - 1], 'B')
    } else {
        assert(u[2] == s@[n - 1]);
        is_scale_letter_exec(s[n - 3]) && ci_exec(s[n - 2], 'I') && ci_exec(s[n - 1], 'B')
    };
    if !unit {
        return false;
    }
    let head = slice_of(s, 0, n - k);
    let end = trim_end_bound(&head);
    let num = slice_of(&head, 0, end);
    is_decimal_exec(&num)
}

/// End of `s` once its trailing whitespace is dropped.
fn trim_end_bound(s: &Vec<char>) -> (r: usize)
    ensures
        r == trail_start(s@, 0, s@.len() as int),
        r <= s.len(),
{
    let mut b = s.len();
    while b > 0 && space(s[b - 1])
        invariant
            b <= s.len(),
            trail_start(s@, 0, s@.len() as int) == trail_start(s@, 0, b as int),
        decreases b,
    {
        b = b - 1;
    }
    b
}

fn has_size_unit_exec(s: &Vec<char>) -> (r: bool)
    ensures
        r == has_size_unit(s@),
{
    unit_tail(s, 3) || unit_tail(s, 2)
}

fn is_digit_exec(c: char) -> (r: bool)
    ensures
        r == is_digit(c),
{
    '0' <= c && c <= '9'
}

fn is_date_prefix_exec(s: &Vec<char>) -> (r: bool)
    ensures
        r == is_date_prefix(s@),
{
    s.len() >= 10 && is_digit_exec(s[0]) && is_digit_exec(s[1]) && is_digit_exec(s[2])
        && is_digit_exec(s[3]) && s[4] == '-' && is_digit_exec(s[5]) && is_digit_exec(s[6]) && s[7]
        == '-' && is_digit_exec(s[8]) && is_digit_exec(s[9])
}

/// Field `i`, trimmed, or empty.
fn field_exec(fs: &Vec<Vec<char>>, i: usize) -> (r: Vec<char>)
    ensures
        r@ == field(views(fs@), i as int),
{
    if i < fs.len() {
        trimmed(&fs[i])
    } else {
        Vec::new()
    }
}

fn is_modern_exec(fs: &Vec<Vec<char>>) -> (r: bool)
    ensures
        r == is_modern(views(fs@)),
{
    if fs.len() < 7 {
        return false;
    }
    let date = field_exec(fs, 4);
    if !is_date_prefix_exec(&date) {
        return false;
    }
    let size = field_exec(fs, 5);
    is_decimal_exec(&size) || has_size_unit_exec(&size)
}

fn strip_end_exec(s: &Vec<char>, c: char) -> (r: Vec<char>)
    ensures
        r@ == strip_end(s@, c),
{
    let mut b = s.len();
    assert(s@.subrange(0, b as int) =~= s@);
    while b > 0 && s[b - 1] == c
        invariant
            b <= s.len(),
            strip_end(s@, c) == strip_end(s@.subrange(0, b as int), c),
        decreases b,
    {
        assert(s@.subrange(0, b as int).drop_last() =~= s@.subrange(0, b - 1));
        b = b - 1;
    }
    slice_of(s, 0, b)
}

fn contains_char(s: &Vec<char>, c: char) -> (r: bool)
    ensures
        r == s@.contains(c),
{
    let mut i: usize = 0;
    while i < s.len()
        invariant
            i <= s.len(),
            forall|j: int| 0 <= j < i ==> s@[j] != c,
        decreases s.len() - i,
    {
        if s[i] == c {
            assert(s@[i as int] == c);
            return true;
        }
        i = i + 1;
    }
    false
}

/// A size field as the listing shows it: a bare number gets ` MB`.
pub fn normalize_size_field(raw_size: &str) -> (r: String)
    ensures
        r@ == normalized_size(raw_size@),
{
    let raw = chars_of(raw_size);
    let v = normalize_size_chars(&raw);
    string_of(&v)
}

fn normalize_size_chars(raw: &Vec<char>) -> (r: Vec<char>)
    ensures
        r@ == normalized_size(raw@),
{
    let v = trimmed(raw);
    if v.len() == 0 || has_size_unit_exec(&v) || !is_decimal_exec(&v) {
        return v;
    }
    let mut out = if contains_char(&v, '.') {
        let z = strip_end_exec(&v, '0');
        strip_end_exec(&z, '.')
    } else {
        v
    };
    out.push(' ');
    out.push('M');
    out.push('B');
    out
}

fn is_word_exec(c: char) -> (r: bool)
    ensures
        r == is_word(c),
{
    ('a' <= c && c <= 'z') || ('A' <= c && c <= 'Z') || ('0' <= c && c <= '9') || c == '_'
}

pub fn digit_run_exec(s: &Vec<char>, i: usize) -> (r: usize)
    requires
        i <= s.len(),
    ensures
        r == digit_run(s@, i as int),
        i <= r <= s.len(),
{
    let mut j = i;
    while j < s.len() && is_digit_exec(s[j])
        invariant
            i <= j <= s.len(),
            digit_run(s@, i as int) == digit_run(s@, j as int),
        decreases s.len() - j,
    {
        j = j + 1;
    }
    j
}

fn token_run_exec(s: &Vec<char>, i: usize) -> (r: usize)
    requires
        i <= s.len(),
    ensures
        r == token_run(s@, i as int),
        i <= r <= s.len(),
{
    let mut j = i;
    while j < s.len() && !space(s[j]) && s[j] != '-'
        invariant
            i <= j <= s.len(),
            token_run(s@, i as int) == token_run(s@, j as int),
        decreases s.len() - j,
    {
        j = j + 1;
    }
    j
}

/// The version name carried by a release identifier (`... v12+1.2.3 ...`).
pub fn extract_version_name_from_release(release_name: &str) -> (r: String)
    ensures
        r@ == version_name_of(release_name@),
{
    let s = chars_of(release_name);
    let v = version_chars(&s);
    string_of(&v)
}

fn version_chars(s: &Vec<char>) -> (r: Vec<char>)
    ensures
        r@ == version_name_of(s@),
{
    let n = s.len();
    let mut p: usize = 0;
    while p < n
        invariant
            p <= n == s.len(),
            version_name_of(s@) == version_from(s@, p as int),
        decreases n - p,
    {
        if (p == 0 || !is_word_exec(s[p - 1])) && (s[p] == 'v' || s[p] == 'V') {
            let d = digit_run_exec(s, p + 1);
            if d > p + 1 && d < n && s[d] == '+' {
                let t = token_run_exec(s, d + 1);
                if t > d + 1 {
                    assert(version_at(s@, p as int));
                    return slice_of(s, d + 1, t);
                }
            }
        }
        p = p + 1;
    }
    Vec::new()
}

fn string_field(fs: &Vec<Vec<char>>, i: usize) -> (r: String)
    ensures
        r@ == field(views(fs@), i as int),
{
    let v = field_exec(fs, i);
    string_of(&v)
}

/// The record that a split row describes.
pub fn row_from_fields(fs: &Vec<Vec<char>>) -> (r: Option<Game>)
    ensures
        match r {
            Some(g) => row_of(views(fs@)) == Some(g@),
            None => row_of(views(fs@)) is None,
        },
{
    if fs.len() < 4 {
        return None;
    }
    let release = field_exec(fs, 1);
    if is_modern_exec(fs) {
        let size = field_exec(fs, 5);
        let size_v = normalize_size_chars(&size);
        let version = version_chars(&release);
        let g = Game {
            game_name: string_field(fs, 0),
            release_name: string_of(&release),
            package_name: string_field(fs, 2),
            version_code: string_field(fs, 3),
            release_apk_path: String::new(),
            version_name: string_of(&version),
            downloads: string_field(fs, 6),
            size: string_of(&size_v),
            last_updated: string_field(fs, 4),
            thumbnail_path: String::new(),
            thumbnail_exists: false,
            note_path: String::new(),
            note_excerpt: String::new(),
            note_exists: false,
            popularity_rank: 0,
            is_new: false,
        };
        Some(g)
    } else {
        let g = Game {
            game_name: string_field(fs, 0),
            release_name: string_of(&release),
            package_name: string_field(fs, 2),
            version_code: string_field(fs, 3),
            release_apk_path: string_field(fs, 4),
            version_name: string_field(fs, 5),
            downloads: string_field(fs, 6),
            size: string_field(fs, 7),
            last_updated: string_field(fs, 8),
            thumbnail_path: String::new(),
            thumbnail_exists: false,
            note_path: String::new(),
            note_excerpt: String::new(),
            note_exists: false,
            popularity_rank: 0,
            is_new: false,
        };
        Some(g)
    }
}

impl Game {
    /// The record that a row of `;`-separated fields describes; `None` for
    /// fewer than four fields. The schema is told apart by a date in field 4
    /// and a size in field 5.
    pub fn from_csv_row(fields: &[&str]) -> (r: Option<Game>)
        ensures
            match r {
                Some(g) => row_of(str_views(fields@)) == Some(g@),
                None => row_of(str_views(fields@)) is None,
            },
    {
        let mut fs: Vec<Vec<char>> = Vec::new();
        let mut i: usize = 0;
        while i < fields.len()
            invariant
                i <= fields@.len(),
                fs@.len() == i,
                forall|j: int| 0 <= j < i ==> (#[trigger] fs@[j])@ == fields@[j]@,
            decreases fields@.len() - i,
        {
            let f = chars_of(fields[i]);
            fs.push(f);
            i = i + 1;
        }
        assert(views(fs@) =~= str_views(fields@));
        row_from_fields(&fs)
    }

    /// A copy that is equal field for field.
    pub fn duplicate(&self) -> (r: Game)
        ensures
            r == *self,
    {
        Game {
            game_name: self.game_name.clone(),
            release_name: self.release_name.clone(),
            package_name: self.package_name.clone(),
            version_code: self.version_code.clone(),
            release_apk_path: self.release_apk_path.clone(),
            version_name: self.version_name.clone(),
            downloads: self.downloads.clone(),
            size: self.size.clone(),
            last_updated: self.last_updated.clone(),
            thumbnail_path: self.thumbnail_path.clone(),
            thumbnail_exists: self.thumbnail_exists,
            note_path: self.note_path.clone(),
            note_excerpt: self.note_excerpt.clone(),
            note_exists: self.note_exists,
            popularity_rank: self.popularity_rank,
            is_new: self.is_new,
        }
    }
}

} // verus!
