//! The install pipeline's decisions: which archives and APK a directory
//! holds, the custom install script language, how command output is
//! classified, and the messages each outcome carries.
use vstd::prelude::*;
use crate::adb::{split_words, words, AdbResult};
use crate::catalog::{lower_of, lowercase};
use crate::listing::{seq_lt, str_lt};
use crate::game::{ci, ci_exec};
use crate::text::{
    chars_of, chars_vec, contains, contains_exec, ends_with, ends_with_exec, starts_with,
    starts_with_exec, string_of, string_views, trim, trimmed, views,
};

verus! {

/// Outcome of an install, with the message shown to the user.
#[derive(Debug, Clone, PartialEq, Eq)]
pub struct InstallResult {
    pub success: bool,
    pub message: String,
}

/// A split archive's first part or a whole archive, by lower-cased name.
pub open spec fn is_archive_name(name: Seq<char>) -> bool {
    ends_with(lower_of(name), ".7z.001"@) || ends_with(lower_of(name), ".7z"@)
}

pub fn is_archive(name: &str) -> (r: bool)
    ensures
        r == is_archive_name(name@),
{
    let l = lowercase(name);
    let lv = chars_of(l.as_str());
    ends_with_exec(&lv, &chars_vec(".7z.001")) || ends_with_exec(&lv, &chars_vec(".7z"))
}

/// A file name whose extension is `apk` in any case (`.apk` alone has none).
pub open spec fn is_apk_name(name: Seq<char>) -> bool {
    let n = name.len() as int;
    n >= 5 && name[n - 4] == '.' && ci(name[n - 3], 'A') && ci(name[n - 2], 'P') && ci(
        name[n - 1],
        'K',
    )
}

pub fn is_apk(name: &str) -> (r: bool)
    ensures
        r == is_apk_name(name@),
{
    let v = chars_of(name);
    let n = v.len();
    n >= 5 && v[n - 4] == '.' && ci_exec(v[n - 3], 'A') && ci_exec(v[n - 2], 'P') && ci_exec(
        v[n - 1],
        'K',
    )
}

/// Names inserted one by one before the first greater name: ascending order.
pub open spec fn sorted_names(s: Seq<Seq<char>>) -> Seq<Seq<char>>
    decreases s.len(),
{
    if s.len() == 0 {
        Seq::empty()
    } else {
        let acc = sorted_names(s.drop_last());
        acc.insert(name_pos(acc, s.last(), 0), s.last())
    }
}

/// First index at or after `i` whose name is greater than `x`.
pub open spec fn name_pos(acc: Seq<Seq<char>>, x: Seq<char>, i: int) -> int
    decreases acc.len() - i,
{
    if i < 0 || i >= acc.len() {
        acc.len() as int
    } else if seq_lt(x, acc[i]) {
        i
    } else {
        name_pos(acc, x, i + 1)
    }
}

/// Names of `s` that satisfy the archive test, in order.
pub open spec fn archive_names(s: Seq<Seq<char>>) -> Seq<Seq<char>>
    decreases s.len(),
{
    if s.len() == 0 {
        Seq::empty()
    } else {
        let p = archive_names(s.drop_last());
        if is_archive_name(s.last()) {
            p.push(s.last())
        } else {
            p
        }
    }
}

fn insert_sorted(acc: &mut Vec<String>, x: String)
    ensures
        string_views(final(acc)@) == string_views(old(acc)@).insert(
            name_pos(string_views(old(acc)@), x@, 0),
            x@,
        ),
{
    let ghost sv = string_views(acc@);
    let xv = chars_of(x.as_str());
    let mut k: usize = 0;
    let mut found = false;
    while k < acc.len() && !found
        invariant
            k <= acc@.len(),
            sv == string_views(acc@),
            xv@ == x@,
            !found ==> name_pos(sv, x@, 0) == name_pos(sv, x@, k as int),
            found ==> name_pos(sv, x@, 0) == k,
        decreases acc@.len() - k + if found {
            0int
        } else {
            1int
        },
    {
        assert(sv[k as int] == acc@[k as int]@);
        let cur = chars_of(acc[k].as_str());
        assert(cur@ == sv[k as int]);
        if str_lt(&xv, &cur) {
            found = true;
        } else {
            k = k + 1;
        }
    }
    acc.insert(k, x);
    assert(string_views(acc@) =~= sv.insert(k as int, x@));
}

/// The archives among the file names of a directory, in ascending order.
pub fn find_archives(names: &Vec<String>) -> (r: Vec<String>)
    ensures
        string_views(r@) == sorted_names(archive_names(string_views(names@))),
{
    let mut out: Vec<String> = Vec::new();
    let mut i: usize = 0;
    let ghost all = string_views(names@);
    while i < names.len()
        invariant
            i <= names@.len(),
            all == string_views(names@),
            string_views(out@) == sorted_names(archive_names(all.subrange(0, i as int))),
        decreases names@.len() - i,
    {
        let ghost pre = all.subrange(0, i as int);
        let ghost next = all.subrange(0, i + 1);
        assert(next.drop_last() =~= pre);
        assert(next.last() == names@[i as int]@);
        if is_archive(names[i].as_str()) {
            let ghost ap = archive_names(pre);
            insert_sorted(&mut out, names[i].clone());
            assert(archive_names(next) == ap.push(names@[i as int]@));
            assert(ap.push(names@[i as int]@).drop_last() =~= ap);
        }
        i = i + 1;
    }
    assert(all.subrange(0, i as int) =~= all);
    out
}

/// Index of the least APK name among the first `n` names, or -1.
pub open spec fn first_apk_index(s: Seq<Seq<char>>, n: int) -> int
    decreases n,
{
    if n <= 0 {
        -1
    } else {
        let p = first_apk_index(s, n - 1);
        if !is_apk_name(s[n - 1]) {
            p
        } else if p < 0 || seq_lt(s[n - 1], s[p]) {
            n - 1
        } else {
            p
        }
    }
}

/// The APK that a directory's default install uses: the least APK name.
pub fn find_first_apk(names: &Vec<String>) -> (r: Option<String>)
    ensures
        ({
            let k = first_apk_index(string_views(names@), names@.len() as int);
            &&& k < 0 ==> r is None
            &&& k >= 0 ==> (r matches Some(x) && x@ == string_views(names@)[k])
        }),
{
    let ghost all = string_views(names@);
    let mut best: Option<usize> = None;
    let mut i: usize = 0;
    while i < names.len()
        invariant
            i <= names@.len(),
            all == string_views(names@),
            match best {
                Some(b) => b < i && first_apk_index(all, i as int) == b as int,
                None => first_apk_index(all, i as int) == -1,
            },
        decreases names@.len() - i,
    {
        assert(all[i as int] == names@[i as int]@);
        if is_apk(names[i].as_str()) {
            match best {
                None => {
                    best = Some(i);
                },
                Some(b) => {
                    assert(all[b as int] == names@[b as int]@);
                    let x = chars_of(names[i].as_str());
                    let y = chars_of(names[b].as_str());
                    if str_lt(&x, &y) {
                        best = Some(i);
                    }
                },
            }
        }
        i = i + 1;
    }
    match best {
        None => None,
        Some(b) => {
            assert(all[b as int] == names@[b as int]@);
            Some(names[b].clone())
        },
    }
}

fn has_name(names: &Vec<String>, name: &String) -> (r: bool)
    ensures
        r == string_views(names@).contains(name@),
{
    let mut i: usize = 0;
    while i < names.len()
        invariant
            i <= names@.len(),
            forall|j: int| 0 <= j < i ==> names@[j]@ != name@,
        decreases names@.len() - i,
    {
        if names[i] == *name {
            assert(string_views(names@)[i as int] == name@);
            return true;
        }
        i = i + 1;
    }
    assert forall|j: int| 0 <= j < string_views(names@).len() implies string_views(names@)[j] != name@ by {
        assert(string_views(names@)[j] == names@[j]@);
    }
    false
}

/// The custom script among a directory's entries: `install.txt`, else
/// `Install.txt`.
pub fn find_install_txt(names: &Vec<String>) -> (r: Option<String>)
    ensures
        string_views(names@).contains("install.txt"@) ==> (r matches Some(x) && x@ == "install.txt"@),
        !string_views(names@).contains("install.txt"@) && string_views(names@).contains(
            "Install.txt"@,
        ) ==> (r matches Some(x) && x@ == "Install.txt"@),
        !string_views(names@).contains("install.txt"@) && !string_views(names@).contains(
            "Install.txt"@,
        ) ==> r is None,
{
    let lower = String::from_str("install.txt");
    let upper = String::from_str("Install.txt");
    if has_name(names, &lower) {
        Some(lower)
    } else if has_name(names, &upper) {
        Some(upper)
    } else {
        None
    }
}

/// Words of a script line that starts with `adb`, after that prefix.
pub open spec fn script_line(line: Seq<char>) -> Option<Seq<Seq<char>>> {
    let t = trim(line);
    let rest = trim(t.subrange(3, t.len() as int));
    if t.len() == 0 || !starts_with(t, "adb"@) || rest.len() == 0 || words(rest).len() == 0 {
        None
    } else {
        Some(words(rest))
    }
}


/// A command of the custom script language.
#[derive(Debug, Clone, PartialEq, Eq)]
pub enum ScriptCommand {
    /// Install the APK at this path, relative to the script's directory.
    Install(String),
    /// Push this local path, relative to the script's directory, to this
    /// device path.
    Push(String, String),
    /// Run this shell command on the device.
    Shell(String),
    /// Anything else: skipped.
    Unsupported,
}

/// Words joined by single spaces.
pub open spec fn joined(w: Seq<Seq<char>>) -> Seq<char>
    decreases w.len(),
{
    if w.len() == 0 {
        Seq::empty()
    } else if w.len() == 1 {
        w[0]
    } else {
        joined(w.drop_last()) + " "@ + w.last()
    }
}

/// The command that the words of a script line name.
pub open spec fn command_of(w: Seq<Seq<char>>) -> (Seq<char>, Seq<Seq<char>>) {
    if w.len() >= 2 && w[0] == "install"@ {
        ("install"@, seq![w[1]])
    } else if w.len() >= 3 && w[0] == "push"@ {
        ("push"@, seq![w[1], w[2]])
    } else if w.len() >= 1 && w[0] == "shell"@ {
        ("shell"@, seq![joined(w.subrange(1, w.len() as int))])
    } else {
        (Seq::empty(), Seq::empty())
    }
}

pub open spec fn command_view(c: ScriptCommand) -> (Seq<char>, Seq<Seq<char>>) {
    match c {
        ScriptCommand::Install(p) => ("install"@, seq![p@]),
        ScriptCommand::Push(a, b) => ("push"@, seq![a@, b@]),
        ScriptCommand::Shell(s) => ("shell"@, seq![s@]),
        ScriptCommand::Unsupported => (Seq::empty(), Seq::empty()),
    }
}

fn join_words(w: &Vec<String>, from: usize) -> (r: String)
    requires
        from <= w@.len(),
    ensures
        r@ == joined(string_views(w@).subrange(from as int, w@.len() as int)),
{
    let mut out: Vec<char> = Vec::new();
    let mut i = from;
    let ghost sv = string_views(w@);
    while i < w.len()
        invariant
            from <= i <= w@.len(),
            sv == string_views(w@),
            out@ == joined(sv.subrange(from as int, i as int)),
        decreases w@.len() - i,
    {
        let ghost prev = sv.subrange(from as int, i as int);
        let ghost next = sv.subrange(from as int, i + 1);
        assert(next.drop_last() =~= prev);
        assert(next.last() == w@[i as int]@);
        proof {
            reveal_strlit(" ");
        }
        if i > from {
            out.push(' ');
        }
        let cv = chars_of(w[i].as_str());
        let ghost before = out@;
        let mut k: usize = 0;
        while k < cv.len()
            invariant
                k <= cv@.len(),
                out@ == before + cv@.subrange(0, k as int),
            decreases cv@.len() - k,
        {
            out.push(cv[k]);
            assert(out@ =~= before + cv@.subrange(0, k + 1));
            k = k + 1;
        }
        assert(cv@.subrange(0, k as int) =~= cv@);
        if i > from {
            assert(out@ =~= joined(next));
        } else {
            assert(out@ =~= joined(next));
        }
        i = i + 1;
    }
    string_of(&out)
}

/// The command named by the words of a script line.
pub fn script_command(argv: &Vec<String>) -> (r: ScriptCommand)
    ensures
        command_view(r) == command_of(string_views(argv@)),
{
    let ghost sv = string_views(argv@);
    if argv.len() >= 1 {
        assert(sv[0] == argv@[0]@);
    }
    if argv.len() >= 2 {
        assert(sv[1] == argv@[1]@);
    }
    if argv.len() >= 3 {
        assert(sv[2] == argv@[2]@);
    }
    if argv.len() >= 2 && argv[0] == String::from_str("install") {
        ScriptCommand::Install(argv[1].clone())
    } else if argv.len() >= 3 && argv[0] == String::from_str("push") {
        ScriptCommand::Push(argv[1].clone(), argv[2].clone())
    } else if argv.len() >= 1 && argv[0] == String::from_str("shell") {
        ScriptCommand::Shell(join_words(argv, 1))
    } else {
        ScriptCommand::Unsupported
    }
}

/// The warning a script command leaves: a failed install (neither a clean
/// exit nor `Success` in its output), a failed push, or shell error output
/// other than a `mkdir` message.
pub open spec fn warning_of(kind: Seq<char>, res: AdbResult) -> Option<Seq<char>> {
    if kind == "install"@ {
        if res.returncode != 0 && !contains(trim(res.stdout@), "Success"@) {
            Some("Install failed: "@ + res.stderr@)
        } else {
            None
        }
    } else if kind == "push"@ {
        if res.returncode != 0 {
            Some("Push failed: "@ + res.stderr@)
        } else {
            None
        }
    } else if kind == "shell"@ {
        if trim(res.stderr@).len() != 0 && !contains(res.stderr@, "mkdir"@) {
            Some("Warning: "@ + trim(res.stderr@))
        } else {
            None
        }
    } else {
        None
    }
}

fn concat(a: &str, b: &str) -> (r: String)
    ensures
        r@ == a@ + b@,
{
    let mut s = String::from_str(a);
    s.append(b);
    s
}

/// The warning that a script command's result leaves, if any.
pub fn script_warning(command: &ScriptCommand, res: &AdbResult) -> (r: Option<String>)
    ensures
        match r {
            Some(w) => warning_of(command_view(*command).0, *res) == Some(w@),
            None => warning_of(command_view(*command).0, *res) is None,
        },
{
    proof {
        reveal_strlit("install");
        reveal_strlit("push");
        reveal_strlit("shell");
    }
    match command {
        ScriptCommand::Install(_) => {
            let out = chars_of(res.output().as_str());
            assert(command_view(*command).0 == "install"@);
            if !res.success() && !contains_exec(&out, &chars_vec("Success")) {
                let w = concat("Install failed: ", res.stderr.as_str());
                assert(warning_of("install"@, *res) == Some(w@));
                Some(w)
            } else {
                assert(warning_of("install"@, *res) is None);
                None
            }
        },
        ScriptCommand::Push(_, _) => {
            assert(command_view(*command).0 == "push"@);
            assert("push"@ != "install"@);
            if !res.success() {
                let w = concat("Push failed: ", res.stderr.as_str());
                assert(warning_of("push"@, *res) == Some(w@));
                Some(w)
            } else {
                None
            }
        },
        ScriptCommand::Shell(_) => {
            let e = chars_of(res.stderr.as_str());
            let t = trimmed(&e);
            assert(command_view(*command).0 == "shell"@);
            assert("shell"@ != "install"@);
            assert("shell"@ != "push"@);
            assert(t@ == trim(res.stderr@));
            if t.len() != 0 && !contains_exec(&e, &chars_vec("mkdir")) {
                let ts = string_of(&t);
                let w = concat("Warning: ", ts.as_str());
                assert(warning_of("shell"@, *res) == Some(w@));
                Some(w)
            } else {
                assert(warning_of("shell"@, *res) is None);
                None
            }
        },
        ScriptCommand::Unsupported => {
            assert(command_view(*command).0 == Seq::<char>::empty());
            assert(Seq::<char>::empty() != "install"@) by {
                assert("install"@.len() == 7);
            }
            assert(Seq::<char>::empty() != "push"@) by {
                assert("push"@.len() == 4);
            }
            assert(Seq::<char>::empty() != "shell"@) by {
                assert("shell"@.len() == 5);
            }
            None
        },
    }
}

/// Lines joined by newlines.
pub open spec fn joined_lines(w: Seq<Seq<char>>) -> Seq<char>
    decreases w.len(),
{
    if w.len() == 0 {
        Seq::empty()
    } else if w.len() == 1 {
        w[0]
    } else {
        joined_lines(w.drop_last()) + "\n"@ + w.last()
    }
}

fn join_lines(w: &Vec<String>) -> (r: String)
    ensures
        r@ == joined_lines(string_views(w@)),
{
    let mut out = String::new();
    let mut i: usize = 0;
    let ghost sv = string_views(w@);
    while i < w.len()
        invariant
            i <= w@.len(),
            sv == string_views(w@),
            out@ == joined_lines(sv.subrange(0, i as int)),
        decreases w@.len() - i,
    {
        let ghost prev = sv.subrange(0, i as int);
        let ghost next = sv.subrange(0, i + 1);
        assert(next.drop_last() =~= prev);
        assert(next.last() == w@[i as int]@);
        if i > 0 {
            out.append("\n");
        }
        out.append(w[i].as_str());
        assert(out@ =~= joined_lines(next));
        i = i + 1;
    }
    assert(sv.subrange(0, i as int) =~= sv);
    out
}

/// The message that closes every custom script run.
pub open spec fn script_trailer() -> Seq<char> {
    "Custom install successful!"@
}

/// A custom script run always succeeds: its warnings, then the trailer.
pub fn script_result(warnings: &Vec<String>) -> (r: InstallResult)
    ensures
        r.success,
        r.message@ == joined_lines(string_views(warnings@).push(script_trailer())),
{
    let mut all: Vec<String> = Vec::new();
    let mut i: usize = 0;
    while i < warnings.len()
        invariant
            i <= warnings@.len(),
            all@.len() == i,
            forall|j: int| 0 <= j < i ==> (#[trigger] all@[j])@ == warnings@[j]@,
        decreases warnings@.len() - i,
    {
        all.push(warnings[i].clone());
        i = i + 1;
    }
    all.push(String::from_str("Custom install successful!"));
    assert(all@[i as int]@ == script_trailer());
    assert(string_views(all@) =~= string_views(warnings@).push(script_trailer()));
    InstallResult { success: true, message: join_lines(&all) }
}

/// An APK install worked: a clean exit without `Error`, `Exception` or
/// `Failed` on standard error, or `Success` in its output.
pub open spec fn apk_install_ok(res: AdbResult) -> bool {
    let has_error = res.stderr@.len() != 0 && (contains(res.stderr@, "Error"@) || contains(
        res.stderr@,
        "Exception"@,
    ) || contains(res.stderr@, "Failed"@));
    (res.returncode == 0 && !has_error) || contains(trim(res.stdout@), "Success"@)
}

/// The error text of a failed command: standard error, or the output when
/// standard error is empty.
pub open spec fn error_text(res: AdbResult) -> Seq<char> {
    if res.stderr@.len() == 0 {
        trim(res.stdout@)
    } else {
        res.stderr@
    }
}

/// An install failure that a backup, uninstall and reinstall may cure.
pub open spec fn is_recoverable(msg: Seq<char>) -> bool {
    contains(msg, "signatures do not match"@) || contains(msg, "INSTALL_FAILED_VERSION_DOWNGRADE"@)
        || contains(msg, "failed to install"@) || contains(msg, "INSUFFICIENT_STORAGE"@)
}

/// What follows an APK install attempt.
#[derive(Debug, Clone, PartialEq, Eq)]
pub enum ApkStep {
    /// It worked.
    Installed,
    /// It failed in a way that backup and reinstall may cure.
    Reinstall,
    /// It failed for good, with this message.
    Fail(InstallResult),
}

pub open spec fn apk_step_view(s: ApkStep) -> (int, bool, Seq<char>) {
    match s {
        ApkStep::Installed => (0, true, Seq::empty()),
        ApkStep::Reinstall => (1, true, Seq::empty()),
        ApkStep::Fail(r) => (2, r.success, r.message@),
    }
}

/// The step after an APK install gave `res`.
pub open spec fn apk_step_of(res: AdbResult) -> (int, bool, Seq<char>) {
    if apk_install_ok(res) {
        (0, true, Seq::empty())
    } else if is_recoverable(error_text(res)) {
        (1, true, Seq::empty())
    } else {
        (2, false, "APK install failed: "@ + error_text(res))
    }
}

pub fn classify_apk_install(res: &AdbResult) -> (r: ApkStep)
    ensures
        apk_step_view(r) == apk_step_of(*res),
{
    let err = chars_of(res.stderr.as_str());
    let out_s = res.output();
    let out = chars_of(out_s.as_str());
    let has_error = err.len() != 0 && (contains_exec(&err, &chars_vec("Error")) || contains_exec(
        &err,
        &chars_vec("Exception"),
    ) || contains_exec(&err, &chars_vec("Failed")));
    if (res.success() && !has_error) || contains_exec(&out, &chars_vec("Success")) {
        return ApkStep::Installed;
    }
    let msg = if err.len() == 0 {
        out
    } else {
        err
    };
    let recoverable = contains_exec(&msg, &chars_vec("signatures do not match")) || contains_exec(
        &msg,
        &chars_vec("INSTALL_FAILED_VERSION_DOWNGRADE"),
    ) || contains_exec(&msg, &chars_vec("failed to install")) || contains_exec(
        &msg,
        &chars_vec("INSUFFICIENT_STORAGE"),
    );
    if recoverable {
        ApkStep::Reinstall
    } else {
        ApkStep::Fail(
            InstallResult {
                success: false,
                message: concat("APK install failed: ", string_of(&msg).as_str()),
            },
        )
    }
}

fn fail(message: String) -> (r: InstallResult)
    ensures
        !r.success,
        r.message == message,
{
    InstallResult { success: false, message }
}

/// How an install begins.
#[derive(Debug, Clone, PartialEq, Eq)]
pub enum InstallStart {
    /// Extract the archives of the staging directory.
    Extract,
    /// The staging directory is gone but the release was extracted before:
    /// install from that directory.
    UseReleaseDir,
    /// Nothing to install from.
    NotFound(InstallResult),
}

/// The first step, from whether the staging directory and an earlier
/// extracted release directory exist.
pub fn plan_start(hash_dir: &str, hash_dir_exists: bool, release_dir_exists: bool) -> (r:
    InstallStart)
    ensures
        hash_dir_exists ==> r == InstallStart::Extract,
        !hash_dir_exists && release_dir_exists ==> r == InstallStart::UseReleaseDir,
        !hash_dir_exists && !release_dir_exists ==> (r matches InstallStart::NotFound(x)
            && !x.success && x.message@ == "Game directory not found: "@ + hash_dir@),
{
    if hash_dir_exists {
        InstallStart::Extract
    } else if release_dir_exists {
        InstallStart::UseReleaseDir
    } else {
        InstallStart::NotFound(fail(concat("Game directory not found: ", hash_dir)))
    }
}

/// Where the files to install are once extraction is done.
#[derive(Debug, Clone, PartialEq, Eq)]
pub enum GameDir {
    /// The directory named after the release.
    Release,
    /// The staging directory itself, which still exists.
    Staging,
    /// Neither: the install fails.
    Missing(InstallResult),
}

pub fn choose_game_dir(game_dir: &str, release_dir_exists: bool, hash_dir_exists: bool) -> (r:
    GameDir)
    ensures
        release_dir_exists ==> r == GameDir::Release,
        !release_dir_exists && hash_dir_exists ==> r == GameDir::Staging,
        !release_dir_exists && !hash_dir_exists ==> (r matches GameDir::Missing(x) && !x.success
            && x.message@ == "Extracted game folder not found: "@ + game_dir@
            + ". Expected release name directory after extraction."@),
{
    if release_dir_exists {
        GameDir::Release
    } else if hash_dir_exists {
        GameDir::Staging
    } else {
        let a = concat("Extracted game folder not found: ", game_dir);
        GameDir::Missing(
            fail(concat(a.as_str(), ". Expected release name directory after extraction.")),
        )
    }
}

/// Failure of a reinstall that has no package to act on.
pub fn reinstall_precheck(package_name: &str) -> (r: Option<InstallResult>)
    ensures
        package_name@.len() == 0 ==> (r matches Some(x) && !x.success && x.message@
            == "Cannot reinstall: unable to determine package name"@),
        package_name@.len() != 0 ==> r is None,
{
    if package_name.is_empty() {
        Some(fail(String::from_str("Cannot reinstall: unable to determine package name")))
    } else {
        None
    }
}

/// Failure of a reinstall whose uninstall could not be run.
pub fn uninstall_failed(error: &str) -> (r: InstallResult)
    ensures
        !r.success,
        r.message@ == "Failed to uninstall old version: "@ + error@,
{
    fail(concat("Failed to uninstall old version: ", error))
}

/// Failure of a reinstall whose install of the new APK did not work:
/// neither a clean exit nor `Success` in its output.
pub fn reinstall_install_check(res: &AdbResult) -> (r: Option<InstallResult>)
    ensures
        (res.returncode != 0 && !contains(trim(res.stdout@), "Success"@)) ==> (r matches Some(x)
            && !x.success && x.message@ == "Reinstall failed: "@ + res.stderr@),
        !(res.returncode != 0 && !contains(trim(res.stdout@), "Success"@)) ==> r is None,
{
    let out = chars_of(res.output().as_str());
    if !res.success() && !contains_exec(&out, &chars_vec("Success")) {
        Some(fail(concat("Reinstall failed: ", res.stderr.as_str())))
    } else {
        None
    }
}

/// Outcome of a reinstall once the new APK is in: the save data, where it
/// was backed up and its restore failed, is reported but does not fail it.
pub fn restore_outcome(restore_error: Option<&str>) -> (r: InstallResult)
    ensures
        r.success,
        match restore_error {
            Some(e) => r.message@ == "Reinstall succeeded but data restore failed: "@ + e@,
            None => r.message@ == "Reinstall with backup: Success"@,
        },
{
    match restore_error {
        Some(e) => InstallResult {
            success: true,
            message: concat("Reinstall succeeded but data restore failed: ", e),
        },
        None => InstallResult { success: true, message: String::from_str("Reinstall with backup: Success") },
    }
}

/// What the default flow records after a reinstall: its line on success,
/// else the failure that ends the install.
pub fn after_reinstall(outcome: Result<InstallResult, String>) -> (r: Result<String, InstallResult>)
    ensures
        match outcome {
            Ok(x) => if x.success {
                r matches Ok(m) && m@ == "Reinstalled successfully"@
            } else {
                r matches Err(f) && !f.success && f.message@ == "Reinstall failed: "@ + x.message@
            },
            Err(e) => r matches Err(f) && !f.success && f.message@ == "Reinstall error: "@ + e@,
        },
{
    match outcome {
        Ok(x) => if x.success {
            Ok(String::from_str("Reinstalled successfully"))
        } else {
            Err(fail(concat("Reinstall failed: ", x.message.as_str())))
        },
        Err(e) => Err(fail(concat("Reinstall error: ", e.as_str()))),
    }
}

/// Device directory of a package's OBB files.
pub fn remote_obb_dir(package_name: &str) -> (r: String)
    ensures
        r@ == "/sdcard/Android/obb/"@ + package_name@,
{
    concat("/sdcard/Android/obb/", package_name)
}

/// What the default flow records after the OBB push: its line on success,
/// else the failure that ends the install, even after a good APK install.
pub fn obb_outcome(pushed: &AdbResult, package_name: &str) -> (r: Result<String, InstallResult>)
    ensures
        pushed.returncode == 0 ==> (r matches Ok(m) && m@ == "OBB "@ + package_name@
            + ": Success"@),
        pushed.returncode != 0 ==> (r matches Err(f) && !f.success && f.message@
            == "OBB push failed: "@ + error_text(*pushed)),
{
    if pushed.success() {
        let a = concat("OBB ", package_name);
        Ok(concat(a.as_str(), ": Success"))
    } else {
        let err = if pushed.stderr.as_str().is_empty() {
            pushed.output()
        } else {
            pushed.stderr.clone()
        };
        Err(fail(concat("OBB push failed: ", err.as_str())))
    }
}

/// End of the default flow: success with the recorded lines, or failure
/// when neither the APK nor the OBB step produced one.
pub fn finish_default(results: &Vec<String>) -> (r: InstallResult)
    ensures
        results@.len() == 0 ==> !r.success && r.message@ == "No installable content found"@,
        results@.len() != 0 ==> r.success && r.message@ == joined_lines(string_views(results@)),
{
    if results.len() == 0 {
        fail(String::from_str("No installable content found"))
    } else {
        InstallResult { success: true, message: join_lines(results) }
    }
}

/// Result of `pm uninstall`: success when its output says so.
pub fn uninstall_result(package_name: &str, output: &str) -> (r: InstallResult)
    ensures
        contains(output@, "Success"@) ==> r.success && r.message@ == "Uninstalled "@
            + package_name@,
        !contains(output@, "Success"@) ==> !r.success && r.message@ == "Failed to uninstall "@
            + package_name@ + ": "@ + output@,
{
    let o = chars_of(output);
    if contains_exec(&o, &chars_vec("Success")) {
        InstallResult { success: true, message: concat("Uninstalled ", package_name) }
    } else {
        let a = concat("Failed to uninstall ", package_name);
        let b = concat(a.as_str(), ": ");
        fail(concat(b.as_str(), output))
    }
}

/// A release counts as downloaded when its directory exists and holds an
/// APK or a custom install script.
pub fn is_downloaded(dir_exists: bool, names: &Vec<String>) -> (r: bool)
    ensures
        r == (dir_exists && exists|i: int|
            0 <= i < names@.len() && (is_apk_name(#[trigger] names@[i]@) || names@[i]@
                == "install.txt"@)),
{
    if !dir_exists {
        return false;
    }
    let script = String::from_str("install.txt");
    let mut i: usize = 0;
    while i < names.len()
        invariant
            i <= names@.len(),
            dir_exists,
            script@ == "install.txt"@,
            forall|j: int|
                0 <= j < i ==> !(is_apk_name(#[trigger] names@[j]@) || names@[j]@
                    == "install.txt"@),
        decreases names@.len() - i,
    {
        if is_apk(names[i].as_str()) || names[i] == script {
            assert(is_apk_name(names@[i as int]@) || names@[i as int]@ == "install.txt"@);
            return true;
        }
        i = i + 1;
    }
    false
}

/// Packages being installed, so that one package is never installed twice
/// at once.
pub struct InstallService {
    installing: Vec<String>,
}

impl InstallService {
    /// The words of a custom script line after its leading `adb`; `None` for a
    /// line that does not start with `adb` or has nothing after it.
    pub fn parse_install_txt_line(line: &str) -> (r: Option<Vec<String>>)
        ensures
            match r {
                Some(v) => script_line(line@) == Some(string_views(v@)),
                None => script_line(line@) is None,
            },
    {
        let c = chars_of(line);
        let t = trimmed(&c);
        if t.len() == 0 || !starts_with_exec(&t, &chars_vec("adb")) {
            return None;
        }
        proof {
            reveal_strlit("adb");
        }
        let after = crate::text::slice_of(&t, 3, t.len());
        let rest = trimmed(&after);
        if rest.len() == 0 {
            return None;
        }
        let w = split_words(&rest);
        if w.len() == 0 {
            return None;
        }
        let mut out: Vec<String> = Vec::new();
        let mut i: usize = 0;
        while i < w.len()
            invariant
                i <= w@.len(),
                out@.len() == i,
                forall|j: int| 0 <= j < i ==> (#[trigger] out@[j])@ == w@[j]@,
            decreases w@.len() - i,
        {
            out.push(string_of(&w[i]));
            i = i + 1;
        }
        assert(string_views(out@) =~= views(w@));
        Some(out)
    }

    pub closed spec fn held(&self) -> Set<Seq<char>> {
        string_views(self.installing@).to_set()
    }

    pub fn new() -> (r: Self)
        ensures
            r.held() == Set::<Seq<char>>::empty(),
    {
        let r = InstallService { installing: Vec::new() };
        assert(r.held() =~= Set::<Seq<char>>::empty());
        r
    }

    /// Takes the lock of a package; false when it is already held.
    pub fn try_start_install(&mut self, package_name: &str) -> (r: bool)
        ensures
            r == !old(self).held().contains(package_name@),
            final(self).held() == old(self).held().insert(package_name@),
    {
        let p = package_name.to_owned();
        let ghost sv = string_views(self.installing@);
        let mut i: usize = 0;
        while i < self.installing.len()
            invariant
                i <= self.installing@.len(),
                sv == string_views(self.installing@),
                p@ == package_name@,
                forall|j: int| 0 <= j < i ==> sv[j] != p@,
            decreases self.installing@.len() - i,
        {
            if self.installing[i] == p {
                assert(sv[i as int] == p@);
                assert(self.held().contains(package_name@));
                assert(self.held().insert(package_name@) =~= self.held());
                return false;
            }
            i = i + 1;
        }
        assert(!self.held().contains(package_name@)) by {
            if self.held().contains(package_name@) {
                let k = choose|k: int| 0 <= k < sv.len() && sv[k] == package_name@;
                assert(sv[k] == p@);
            }
        }
        self.installing.push(p);
        assert(string_views(self.installing@) =~= sv.push(package_name@));
        assert(self.held() =~= old(self).held().insert(package_name@)) by {
            assert forall|x: Seq<char>| self.held().contains(x) <==> old(self).held().insert(
                package_name@,
            ).contains(x) by {
                let nv = sv.push(package_name@);
                if self.held().contains(x) {
                    let k = choose|k: int| 0 <= k < nv.len() && nv[k] == x;
                    if k < sv.len() {
                        assert(sv.contains(x));
                    }
                }
                if old(self).held().contains(x) {
                    let k = choose|k: int| 0 <= k < sv.len() && sv[k] == x;
                    assert(nv[k] == x);
                }
                if x == package_name@ {
                    assert(nv[sv.len() as int] == x);
                }
            }
        }
        true
    }

    /// Releases the lock of a package.
    pub fn finish_install(&mut self, package_name: &str)
        ensures
            final(self).held() == old(self).held().remove(package_name@),
    {
        let p = package_name.to_owned();
        let ghost sv = string_views(self.installing@);
        let mut kept: Vec<String> = Vec::new();
        let mut i: usize = 0;
        while i < self.installing.len()
            invariant
                i <= self.installing@.len(),
                sv == string_views(self.installing@),
                p@ == package_name@,
                forall|x: Seq<char>|
                    #[trigger] string_views(kept@).contains(x) <==> (x != p@ && exists|j: int|
                        0 <= j < i && sv[j] == x),
            decreases self.installing@.len() - i,
        {
            let ghost kv = string_views(kept@);
            if self.installing[i] != p {
                kept.push(self.installing[i].clone());
                assert(string_views(kept@) =~= kv.push(sv[i as int]));
                assert forall|x: Seq<char>|
                    #[trigger] string_views(kept@).contains(x) <==> (x != p@ && exists|j: int|
                        0 <= j < i + 1 && sv[j] == x) by {
                    let nv = kv.push(sv[i as int]);
                    if nv.contains(x) {
                        let k = choose|k: int| 0 <= k < nv.len() && nv[k] == x;
                        if k < kv.len() {
                            assert(kv.contains(x));
                        }
                    }
                    if x != p@ && exists|j: int| 0 <= j < i + 1 && sv[j] == x {
                        let j = choose|j: int| 0 <= j < i + 1 && sv[j] == x;
                        if j < i {
                            assert(kv.contains(x));
                            let k = choose|k: int| 0 <= k < kv.len() && kv[k] == x;
                            assert(nv[k] == x);
                        } else {
                            assert(nv[kv.len() as int] == x);
                        }
                    }
                }
            } else {
                assert forall|x: Seq<char>|
                    #[trigger] string_views(kept@).contains(x) <==> (x != p@ && exists|j: int|
                        0 <= j < i + 1 && sv[j] == x) by {
                    if x != p@ && exists|j: int| 0 <= j < i + 1 && sv[j] == x {
                        let j = choose|j: int| 0 <= j < i + 1 && sv[j] == x;
                        assert(j < i);
                    }
                }
            }
            i = i + 1;
        }
        self.installing = kept;
        assert(self.held() =~= old(self).held().remove(package_name@)) by {
            assert forall|x: Seq<char>| self.held().contains(x) <==> old(self).held().remove(
                package_name@,
            ).contains(x) by {
                if old(self).held().contains(x) {
                    let k = choose|k: int| 0 <= k < sv.len() && sv[k] == x;
                }
            }
        }
    }
}

/// Runs the archive tool; here, the arguments it is run with.
pub struct ExtractService;

impl ExtractService {
    /// Arguments that extract `archive` (a split archive by its first part)
    /// into `output_dir` with full paths, answering yes to every prompt, with
    /// the password when one is given and an empty one otherwise.
    pub fn extract_args(archive: &str, output_dir: &str, password: Option<&str>) -> (r: Vec<String>)
        ensures
            string_views(r@) == seq![
                "x"@,
                "-o"@ + output_dir@,
                archive@,
                "-y"@,
                "-p"@ + match password {
                    Some(p) => p@,
                    None => Seq::<char>::empty(),
                },
            ],
    {
        let mut r: Vec<String> = Vec::new();
        r.push(String::from_str("x"));
        r.push(concat("-o", output_dir));
        r.push(archive.to_owned());
        r.push(String::from_str("-y"));
        let pw = match password {
            Some(p) => concat("-p", p),
            None => String::from_str("-p"),
        };
        proof {
            reveal_strlit("-p");
        }
        r.push(pw);
        assert(string_views(r@) =~= seq![
            "x"@,
            "-o"@ + output_dir@,
            archive@,
            "-y"@,
            "-p"@ + match password {
                Some(p) => p@,
                None => Seq::<char>::empty(),
            },
        ]);
        r
    }
}

} // verus!
