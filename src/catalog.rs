//! The catalog service: the listing and every version it was built from,
//! search and lookups, and where the catalog's cache lives.
use vstd::prelude::*;
use crate::game::{Game, GameView};
use crate::listing::{catalog_rows, game_views, int_or_zero_exec, listing, parse_game_list_content_chars};
use crate::text::{chars_of, int_or_zero, string_of, trim};

verus! {

/// What `str::to_lowercase` makes of a string.
pub uninterp spec fn lower_of(s: Seq<char>) -> Seq<char>;

/// Relies on `str::to_lowercase`: the result depends on the characters alone.
#[verifier::external_body]
pub(crate) fn lowercase(s: &str) -> (r: String)
    ensures
        r@ == lower_of(s@),
{
    s.to_lowercase()
}

/// What `md5::compute` followed by lower-case hex formatting makes of the
/// UTF-8 bytes of a string.
pub uninterp spec fn md5_hex_of(s: Seq<char>) -> Seq<char>;

/// Relies on `md5::compute` and the `LowerHex` impl of its `Digest`: two
/// lower-case hex digits for each of the sixteen digest bytes.
#[verifier::external_body]
fn md5_hex(s: &str) -> (r: String)
    ensures
        r@ == md5_hex_of(s@),
        r@.len() == 32,
{
    format!("{:x}", md5::compute(s.as_bytes()))
}

/// Name of the directory that holds a release's archives: the hex MD5 of
/// the release identifier followed by a newline.
pub open spec fn release_hash(release: Seq<char>) -> Seq<char> {
    md5_hex_of(release.push('\n'))
}

/// Which fields a search looks at.
pub enum SearchField {
    Any,
    Release,
    Package,
}

/// `g` matches the lower-cased query `q` in the chosen fields.
pub open spec fn hit(g: GameView, q: Seq<char>, f: SearchField) -> bool {
    match f {
        SearchField::Release => crate::text::contains(lower_of(g.release_name), q),
        SearchField::Package => crate::text::contains(lower_of(g.package_name), q),
        SearchField::Any => crate::text::contains(lower_of(g.game_name), q)
            || crate::text::contains(lower_of(g.release_name), q) || crate::text::contains(
            lower_of(g.package_name),
            q,
        ),
    }
}

/// Entries of `s` that match, in order.
pub open spec fn select(s: Seq<GameView>, q: Seq<char>, f: SearchField) -> Seq<GameView>
    decreases s.len(),
{
    if s.len() == 0 {
        Seq::empty()
    } else {
        let p = select(s.drop_last(), q, f);
        if hit(s.last(), q, f) {
            p.push(s.last())
        } else {
            p
        }
    }
}

pub open spec fn release_prefix() -> Seq<char> {
    seq!['r', 'e', 'l', 'e', 'a', 's', 'e', ':']
}

pub open spec fn pkg_prefix() -> Seq<char> {
    seq!['p', 'k', 'g', ':']
}

/// Result of a search over the listing `games` and every version `all`.
pub open spec fn search_result(games: Seq<GameView>, all: Seq<GameView>, query: Seq<char>) -> Seq<
    GameView,
> {
    let q = trim(query);
    if q.len() == 0 {
        games
    } else if crate::text::starts_with(q, release_prefix()) {
        select(all, lower_of(trim(q.subrange(8, q.len() as int))), SearchField::Release)
    } else if crate::text::starts_with(q, pkg_prefix()) {
        select(all, lower_of(trim(q.subrange(4, q.len() as int))), SearchField::Package)
    } else {
        select(games, lower_of(q), SearchField::Any)
    }
}

fn lower_chars(s: &String) -> (r: Vec<char>)
    ensures
        r@ == lower_of(s@),
{
    let l = lowercase(s.as_str());
    chars_of(l.as_str())
}

fn hit_exec(g: &Game, q: &Vec<char>, f: &SearchField) -> (r: bool)
    ensures
        r == hit(g@, q@, *f),
{
    match f {
        SearchField::Release => crate::text::contains_exec(&lower_chars(&g.release_name), q),
        SearchField::Package => crate::text::contains_exec(&lower_chars(&g.package_name), q),
        SearchField::Any => crate::text::contains_exec(&lower_chars(&g.game_name), q)
            || crate::text::contains_exec(&lower_chars(&g.release_name), q)
            || crate::text::contains_exec(&lower_chars(&g.package_name), q),
    }
}

fn select_exec(s: &Vec<Game>, q: &Vec<char>, f: SearchField) -> (r: Vec<Game>)
    ensures
        game_views(r@) == select(game_views(s@), q@, f),
{
    let mut out: Vec<Game> = Vec::new();
    let mut i: usize = 0;
    while i < s.len()
        invariant
            i <= s@.len(),
            game_views(out@) == select(game_views(s@).subrange(0, i as int), q@, f),
        decreases s@.len() - i,
    {
        let ghost pre = game_views(s@).subrange(0, i as int);
        let ghost next = game_views(s@).subrange(0, i + 1);
        assert(next.drop_last() =~= pre);
        assert(next.last() == s@[i as int]@);
        if hit_exec(&s[i], q, &f) {
            out.push(s[i].duplicate());
            assert(game_views(out@) =~= select(next, q@, f));
        }
        i = i + 1;
    }
    assert(game_views(s@).subrange(0, i as int) =~= game_views(s@));
    out
}

fn copy_games(s: &Vec<Game>) -> (r: Vec<Game>)
    ensures
        r@ == s@,
{
    let mut out: Vec<Game> = Vec::new();
    let mut i: usize = 0;
    while i < s.len()
        invariant
            i <= s@.len(),
            out@ == s@.subrange(0, i as int),
        decreases s@.len() - i,
    {
        out.push(s[i].duplicate());
        assert(out@ =~= s@.subrange(0, i + 1));
        i = i + 1;
    }
    assert(s@.subrange(0, i as int) =~= s@);
    out
}

/// `p` joined under the directory `d` (`Path::join` for a relative `p`).
pub open spec fn join_path(d: Seq<char>, p: Seq<char>) -> Seq<char> {
    if d.len() == 0 {
        p
    } else if d.last() == '/' {
        d + p
    } else {
        d.push('/') + p
    }
}

pub fn join_path_exec(d: &str, p: &str) -> (r: String)
    ensures
        r@ == join_path(d@, p@),
{
    let mut v = chars_of(d);
    let pv = chars_of(p);
    if v.len() > 0 && v[v.len() - 1] != '/' {
        v.push('/');
    }
    let mut i: usize = 0;
    let ghost base = v@;
    while i < pv.len()
        invariant
            i <= pv@.len(),
            v@ == base + pv@.subrange(0, i as int),
        decreases pv@.len() - i,
    {
        v.push(pv[i]);
        assert(v@ =~= base + pv@.subrange(0, i + 1));
        i = i + 1;
    }
    assert(pv@.subrange(0, i as int) =~= pv@);
    string_of(&v)
}

/// Relies on `dirs::home_dir`: the user's home directory, where one is known.
#[verifier::external_body]
fn home_dir_string() -> (r: Option<String>) {
    dirs::home_dir().map(|p| p.to_string_lossy().to_string())
}

/// Index of the first entry of `s` for package `p` (and release `rel`,
/// where given), or -1.
pub open spec fn find_game(s: Seq<GameView>, p: Seq<char>, rel: Option<Seq<char>>, i: int) -> int
    decreases s.len() - i,
{
    if i < 0 || i >= s.len() {
        -1
    } else if s[i].package_name == p && (rel is None || s[i].release_name == rel->0) {
        i
    } else {
        find_game(s, p, rel, i + 1)
    }
}

pub open spec fn opt_view(rel: Option<&String>) -> Option<Seq<char>> {
    match rel {
        Some(x) => Some(x@),
        None => None,
    }
}

fn find_game_exec(s: &Vec<Game>, p: &String, rel: Option<&String>) -> (r: Option<usize>)
    ensures
        match r {
            Some(k) => k < s@.len() && find_game(game_views(s@), p@, opt_view(rel), 0)
                == k as int,
            None => find_game(game_views(s@), p@, opt_view(rel), 0) == -1,
        },
{
    let mut j: usize = 0;
    while j < s.len()
        invariant
            j <= s@.len(),
            find_game(game_views(s@), p@, opt_view(rel), 0) == find_game(
                game_views(s@),
                p@,
                opt_view(rel),
                j as int,
            ),
        decreases s@.len() - j,
    {
        assert(game_views(s@)[j as int] == s@[j as int]@);
        let matches = s[j].package_name == *p && match rel {
            None => true,
            Some(r) => s[j].release_name == *r,
        };
        if matches {
            return Some(j);
        }
        j = j + 1;
    }
    None
}

/// Versions inserted one by one, each after every entry whose numeric
/// version code is at least its own: a stable sort, newest first.
pub open spec fn by_version_desc(s: Seq<GameView>) -> Seq<GameView>
    decreases s.len(),
{
    if s.len() == 0 {
        Seq::empty()
    } else {
        let acc = by_version_desc(s.drop_last());
        acc.insert(insert_pos(acc, int_or_zero(s.last().version_code), 0), s.last())
    }
}

/// First index at or after `i` whose numeric version code is below `v`.
pub open spec fn insert_pos(acc: Seq<GameView>, v: int, i: int) -> int
    decreases acc.len() - i,
{
    if i < 0 || i >= acc.len() {
        acc.len() as int
    } else if int_or_zero(acc[i].version_code) < v {
        i
    } else {
        insert_pos(acc, v, i + 1)
    }
}

/// Entries of `s` for package `p`, in order.
pub open spec fn of_package(s: Seq<GameView>, p: Seq<char>) -> Seq<GameView>
    decreases s.len(),
{
    if s.len() == 0 {
        Seq::empty()
    } else {
        let q = of_package(s.drop_last(), p);
        if s.last().package_name == p {
            q.push(s.last())
        } else {
            q
        }
    }
}

/// The catalog: its ranked listing, every parsed version, and where its
/// cache lives.
pub struct CatalogService {
    games: Vec<Game>,
    all_versions: Vec<Game>,
    cache_dir: String,
    thumbnails_dir: String,
    notes_dir: String,
    syncing: bool,
}

impl CatalogService {
    pub closed spec fn games_view(&self) -> Seq<GameView> {
        game_views(self.games@)
    }

    pub closed spec fn all_view(&self) -> Seq<GameView> {
        game_views(self.all_versions@)
    }

    pub closed spec fn syncing_view(&self) -> bool {
        self.syncing
    }

    pub closed spec fn cache_dir_view(&self) -> Seq<char> {
        self.cache_dir@
    }

    pub closed spec fn thumbnails_dir_view(&self) -> Seq<char> {
        self.thumbnails_dir@
    }

    pub closed spec fn notes_dir_view(&self) -> Seq<char> {
        self.notes_dir@
    }

    /// An empty catalog under `~/.veteran/cache` (or `.veteran/cache`
    /// where no home directory is known).
    pub fn new() -> (r: Self)
        ensures
            r.games_view().len() == 0,
            r.all_view().len() == 0,
            !r.syncing_view(),
    {
        let base = match home_dir_string() {
            Some(h) => join_path_exec(h.as_str(), ".veteran/cache"),
            None => String::from_str(".veteran/cache"),
        };
        Self::with_cache_dir(base.as_str())
    }

    /// An empty catalog whose cache, thumbnails and notes live under `cache_dir`.
    pub fn with_cache_dir(cache_dir: &str) -> (r: Self)
        ensures
            r.games_view().len() == 0,
            r.all_view().len() == 0,
            !r.syncing_view(),
            r.cache_dir_view() == cache_dir@,
            r.thumbnails_dir_view() == join_path(cache_dir@, "thumbnails"@),
            r.notes_dir_view() == join_path(cache_dir@, "notes"@),
    {
        CatalogService {
            games: Vec::new(),
            all_versions: Vec::new(),
            cache_dir: cache_dir.to_owned(),
            thumbnails_dir: join_path_exec(cache_dir, "thumbnails"),
            notes_dir: join_path_exec(cache_dir, "notes"),
            syncing: false,
        }
    }

    pub fn is_syncing(&self) -> (r: bool)
        ensures
            r == self.syncing_view(),
    {
        self.syncing
    }

    pub fn set_syncing(&mut self, syncing: bool)
        ensures
            final(self).syncing_view() == syncing,
            final(self).games_view() == old(self).games_view(),
            final(self).all_view() == old(self).all_view(),
    {
        self.syncing = syncing;
    }

    /// The primary listing.
    pub fn games(&self) -> (r: &[Game])
        ensures
            game_views(r@) == self.games_view(),
    {
        self.games.as_slice()
    }

    pub fn cache_dir(&self) -> (r: &str)
        ensures
            r@ == self.cache_dir_view(),
    {
        self.cache_dir.as_str()
    }

    pub fn thumbnails_dir(&self) -> (r: &str)
        ensures
            r@ == self.thumbnails_dir_view(),
    {
        self.thumbnails_dir.as_str()
    }

    pub fn notes_dir(&self) -> (r: &str)
        ensures
            r@ == self.notes_dir_view(),
    {
        self.notes_dir.as_str()
    }

    /// Path of the cached catalog text.
    pub fn cache_file(&self) -> (r: String)
        ensures
            r@ == join_path(self.cache_dir_view(), "VRP-GameList.txt"@),
    {
        join_path_exec(self.cache_dir.as_str(), "VRP-GameList.txt")
    }

    /// Replaces the listing and the version table with those of a catalog
    /// text; returns the number of listed entries.
    pub fn load_content(&mut self, content: &str) -> (r: usize)
        ensures
            final(self).games_view() == listing(content@),
            final(self).all_view() == catalog_rows(content@),
            r == listing(content@).len(),
            final(self).syncing_view() == old(self).syncing_view(),
            final(self).cache_dir_view() == old(self).cache_dir_view(),
    {
        let (rows, games) = parse_game_list_content_chars(content);
        self.all_versions = rows;
        self.games = games;
        self.games.len()
    }

    /// Loads the cached catalog text, if it could be read: true when it
    /// lists at least one entry. Without a text nothing changes.
    pub fn load_from_cache(&mut self, cached: Option<&str>) -> (r: bool)
        ensures
            match cached {
                Some(c) => final(self).games_view() == listing(c@) && final(self).all_view()
                    == catalog_rows(c@) && r == (listing(c@).len() > 0),
                None => !r && final(self).games_view() == old(self).games_view()
                    && final(self).all_view() == old(self).all_view(),
            },
    {
        match cached {
            Some(c) => self.load_content(c) > 0,
            None => false,
        }
    }

    /// The primary listing of a catalog text, header dropped, one entry per
    /// (package, name) with its newest version, ranked by popularity.
    pub fn parse_game_list_content(content: &str) -> (r: Vec<Game>)
        ensures
            game_views(r@) == listing(content@),
    {
        let (_, games) = parse_game_list_content_chars(content);
        games
    }

    /// Case-insensitive search. An empty query gives the whole listing;
    /// `release:` and `pkg:` search every version by that one field.
    pub fn search(&self, query: &str) -> (r: Vec<Game>)
        ensures
            game_views(r@) == search_result(self.games_view(), self.all_view(), query@),
    {
        let qv = chars_of(query);
        let q = crate::text::trimmed(&qv);
        if q.len() == 0 {
            return copy_games(&self.games);
        }
        let rp: Vec<char> = vec!['r', 'e', 'l', 'e', 'a', 's', 'e', ':'];
        let pp: Vec<char> = vec!['p', 'k', 'g', ':'];
        assert(rp@ =~= release_prefix());
        assert(pp@ =~= pkg_prefix());
        if crate::text::starts_with_exec(&q, &rp) {
            let rest = crate::text::slice_of(&q, 8, q.len());
            let t = crate::text::trimmed(&rest);
            let l = lowercase(crate::text::string_of(&t).as_str());
            let lq = chars_of(l.as_str());
            return select_exec(&self.all_versions, &lq, SearchField::Release);
        }
        if crate::text::starts_with_exec(&q, &pp) {
            let rest = crate::text::slice_of(&q, 4, q.len());
            let t = crate::text::trimmed(&rest);
            let l = lowercase(crate::text::string_of(&t).as_str());
            let lq = chars_of(l.as_str());
            return select_exec(&self.all_versions, &lq, SearchField::Package);
        }
        let l = lowercase(crate::text::string_of(&q).as_str());
        let lq = chars_of(l.as_str());
        select_exec(&self.games, &lq, SearchField::Any)
    }

    /// The listed entry of a package, if any.
    pub fn get_game_by_package(&self, package_name: &str) -> (r: Option<&Game>)
        ensures
            match r {
                Some(g) => {
                    let k = find_game(self.games_view(), package_name@, None, 0);
                    0 <= k && g@ == self.games_view()[k]
                },
                None => find_game(self.games_view(), package_name@, None, 0) == -1,
            },
    {
        let p = package_name.to_owned();
        match find_game_exec(&self.games, &p, None) {
            Some(k) => {
                assert(self.games_view()[k as int] == self.games@[k as int]@);
                Some(&self.games[k])
            },
            None => None,
        }
    }

    /// Every version of a package, newest version code first; entries with
    /// equal codes keep their catalog order.
    pub fn get_games_by_package(&self, package_name: &str) -> (r: Vec<Game>)
        ensures
            game_views(r@) == by_version_desc(of_package(self.all_view(), package_name@)),
    {
        let p = package_name.to_owned();
        let mut sel: Vec<Game> = Vec::new();
        let mut i: usize = 0;
        let ghost all = self.all_view();
        while i < self.all_versions.len()
            invariant
                i <= self.all_versions@.len(),
                all == game_views(self.all_versions@),
                game_views(sel@) == by_version_desc(of_package(all.subrange(0, i as int), p@)),
            decreases self.all_versions@.len() - i,
        {
            let ghost pre = all.subrange(0, i as int);
            let ghost next = all.subrange(0, i + 1);
            assert(next.drop_last() =~= pre);
            assert(next.last() == self.all_versions@[i as int]@);
            let g = &self.all_versions[i];
            if g.package_name == p {
                let v = int_or_zero_exec(&g.version_code);
                let mut k: usize = 0;
                let mut found = false;
                let ghost acc = game_views(sel@);
                while k < sel.len() && !found
                    invariant
                        k <= sel@.len(),
                        acc == game_views(sel@),
                        !found ==> insert_pos(acc, v as int, 0) == insert_pos(
                            acc,
                            v as int,
                            k as int,
                        ),
                        found ==> insert_pos(acc, v as int, 0) == k,
                    decreases sel@.len() - k + if found {
                        0int
                    } else {
                        1int
                    },
                {
                    assert(acc[k as int] == sel@[k as int]@);
                    if int_or_zero_exec(&sel[k].version_code) < v {
                        found = true;
                    } else {
                        k = k + 1;
                    }
                }
                sel.insert(k, g.duplicate());
                assert(game_views(sel@) =~= acc.insert(k as int, g@));
                let ghost op = of_package(pre, p@);
                assert(of_package(next, p@) == op.push(g@));
                assert(op.push(g@).drop_last() =~= op);
                assert(op.push(g@).last() == g@);
            }
            i = i + 1;
        }
        assert(all.subrange(0, i as int) =~= all);
        sel
    }

    /// The version of a package with the given release identifier.
    pub fn get_game_by_package_and_release(&self, package_name: &str, release_name: &str) -> (r:
        Option<&Game>)
        ensures
            match r {
                Some(g) => {
                    let k = find_game(self.all_view(), package_name@, Some(release_name@), 0);
                    0 <= k && g@ == self.all_view()[k]
                },
                None => find_game(self.all_view(), package_name@, Some(release_name@), 0) == -1,
            },
    {
        let p = package_name.to_owned();
        let rel = release_name.to_owned();
        match find_game_exec(&self.all_versions, &p, Some(&rel)) {
            Some(k) => {
                assert(self.all_view()[k as int] == self.all_versions@[k as int]@);
                Some(&self.all_versions[k])
            },
            None => None,
        }
    }

    /// Directory name of a release's archives: hex MD5 of the release
    /// identifier and a newline.
    pub fn game_name_to_hash(release_name: &str) -> (r: String)
        ensures
            r@ == release_hash(release_name@),
            r@.len() == 32,
    {
        let mut v = chars_of(release_name);
        v.push('\n');
        let s = crate::text::string_of(&v);
        md5_hex(s.as_str())
    }
}

/// One page of a listing: at most `limit` entries from `offset` on, and the
/// listing's full length.
pub fn paginate(games: Vec<Game>, limit: u32, offset: u32) -> (r: (Vec<Game>, usize))
    ensures
        r.1 == games@.len(),
        r.0@ == games@.subrange(
            if (offset as int) < games@.len() {
                offset as int
            } else {
                games@.len() as int
            },
            if (offset as int) + (limit as int) < games@.len() {
                offset as int + limit as int
            } else {
                games@.len() as int
            },
        ),
{
    let total = games.len();
    let start: usize = if (offset as usize) < total {
        offset as usize
    } else {
        total
    };
    let end: usize = if (limit as usize) < total - start {
        start + limit as usize
    } else {
        total
    };
    let mut page: Vec<Game> = Vec::new();
    let mut i = start;
    while i < end
        invariant
            start <= i <= end <= games@.len(),
            page@ == games@.subrange(start as int, i as int),
        decreases end - i,
    {
        page.push(games[i].duplicate());
        assert(page@ =~= games@.subrange(start as int, i + 1));
        i = i + 1;
    }
    (page, total)
}

/// Age below which a cached catalog is fresh: four hours, in seconds.
pub const FRESH_CACHE_SECS: u64 = 14400;

/// Whether a catalog sync must reach the network: when forced, when there
/// is no cache, or when the cache is at least `FRESH_CACHE_SECS` old.
/// Otherwise the cache file is read again instead.
pub fn sync_needed(force: bool, cache_age_secs: Option<u64>) -> (r: bool)
    ensures
        r == (force || match cache_age_secs {
            Some(a) => a >= FRESH_CACHE_SECS,
            None => true,
        }),
{
    if force {
        return true;
    }
    match cache_age_secs {
        Some(a) => a >= FRESH_CACHE_SECS,
        None => true,
    }
}

} // verus!
