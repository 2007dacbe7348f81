//! Where things are: the directories of the launcher and of its applications,
//! and the interpreter of an application.
//!
//! A location is a starting point and the texts that are joined onto it, one
//! after the other. What a starting point is on this machine, and how its
//! file system joins paths, is known where the location is used.

use vstd::prelude::*;

use crate::text::{
    before, decimal, is_digit, law_split_at_separators, same_text, split_first, starts_with,
};
use crate::version::{
    is_older, is_text_before, law_older_irreflexive, law_older_total, law_older_transitive,
    law_smaller_number_is_older, law_text_before_irreflexive, law_text_before_total,
    law_text_before_behind, law_text_before_transitive, lemma_greatest, older, text_before,
};

verus! {

pub const BASE_DIR: &'static str = "data";

pub const APPS_DIR: &'static str = "apps";

pub const PYTHON_ROOT_DIR: &'static str = "python";

pub const WORKING_DIR_NAME: &'static str = "working";

/// What the names of managed interpreter directories begin with.
pub const UV_MANAGED_PREFIX: &'static str = "cpython-";

/// Where a location starts.
#[derive(Clone, Copy, Debug, PartialEq, Eq, Structural)]
pub enum Base {
    /// Nowhere: the location is a relative path.
    Relative,
    /// The working directory that the launcher was started in.
    WorkingDir,
    /// The configuration directory of the user.
    ConfigDir,
    /// The project directory that an installation was asked for.
    ProjectDir,
    /// An entry of a listed directory, by its position in the listing.
    Entry(usize),
}

/// A starting point and the texts joined onto it.
#[derive(Debug, PartialEq, Eq)]
pub struct Location {
    pub base: Base,
    pub joins: Vec<String>,
}

/// A location in specifications.
#[verifier::ext_equal]
pub struct LocationView {
    pub base: Base,
    pub joins: Seq<Seq<char>>,
}

impl View for Location {
    type V = LocationView;

    open spec fn view(&self) -> LocationView {
        LocationView { base: self.base, joins: self.joins.deep_view() }
    }
}

impl LocationView {
    /// The location with `part` joined onto it.
    pub open spec fn join(self, part: Seq<char>) -> LocationView {
        LocationView { base: self.base, joins: self.joins.push(part) }
    }

    /// The location is `start` with further texts joined onto it, or none. This
    /// speaks of the joined texts alone: where one of them is absolute, leads
    /// upwards or holds several components, the file system may see it otherwise.
    pub open spec fn extends(self, start: LocationView) -> bool {
        self.base == start.base && start.joins.is_prefix_of(self.joins)
    }
}

/// The starting point itself.
pub open spec fn at(base: Base) -> LocationView {
    LocationView { base, joins: Seq::empty() }
}

impl Location {
    /// The starting point itself.
    pub fn at(base: Base) -> (r: Location)
        ensures
            r@ == at(base),
    {
        let r = Location { base, joins: Vec::new() };
        assert(r@.joins =~= Seq::<Seq<char>>::empty());
        r
    }

    /// Joins `part` onto the location.
    pub fn join(self, part: &str) -> (r: Location)
        ensures
            r@ == self@.join(part@),
    {
        let ghost before = self.joins.deep_view();
        let mut joins = self.joins;
        joins.push(part.to_owned());
        assert(joins.deep_view() =~= before.push(part@));
        Location { base: self.base, joins }
    }
}

/// The data directory.
pub open spec fn base_dir() -> LocationView {
    at(Base::WorkingDir).join(BASE_DIR@)
}

/// The directory of all applications.
pub open spec fn apps_dir() -> LocationView {
    base_dir().join(APPS_DIR@)
}

/// The directory of an application.
pub open spec fn app_base_path(app_name: Seq<char>) -> LocationView {
    apps_dir().join(app_name)
}

/// The install root of an application's interpreters.
pub open spec fn python_dir(app_name: Seq<char>) -> LocationView {
    app_base_path(app_name).join(PYTHON_ROOT_DIR@)
}

/// The directory for logs, relative to wherever the process is.
pub fn get_log_dir() -> (r: Location)
    ensures
        r@ == at(Base::Relative).join(BASE_DIR@).join("logs"@),
{
    Location::at(Base::Relative).join(BASE_DIR).join("logs")
}

/// The data directory.
pub fn get_base_dir() -> (r: Location)
    ensures
        r@ == base_dir(),
{
    get_cwd().join(BASE_DIR)
}

/// The install root of an application's interpreters.
pub fn get_python_dir(app_name: &str) -> (r: Location)
    ensures
        r@ == python_dir(app_name@),
{
    get_app_base_path(app_name).join(PYTHON_ROOT_DIR)
}

/// The working directory of the launcher.
pub fn get_cwd() -> (r: Location)
    ensures
        r@ == at(Base::WorkingDir),
{
    Location::at(Base::WorkingDir)
}

/// The directory of all applications.
pub fn get_apps_dir() -> (r: Location)
    ensures
        r@ == apps_dir(),
{
    get_base_dir().join(APPS_DIR)
}

/// The directory that an application's repository is checked out in.
pub fn get_app_repo_path(app_name: &str) -> (r: Location)
    ensures
        r@ == app_base_path(app_name@).join("repo"@),
{
    get_app_base_path(app_name).join("repo")
}

/// The directory of an application.
pub fn get_app_base_path(app_name: &str) -> (r: Location)
    ensures
        r@ == app_base_path(app_name@),
{
    get_apps_dir().join(app_name)
}

/// The directory that an application runs in.
pub fn get_app_working_dir_path(app_name: &str) -> (r: Location)
    ensures
        r@ == app_base_path(app_name@).join(WORKING_DIR_NAME@),
{
    get_app_base_path(app_name).join(WORKING_DIR_NAME)
}

/// The package cache of `uv`.
pub fn get_pip_cache_dir() -> (r: Location)
    ensures
        r@ == at(Base::WorkingDir).join("cache"@).join("uv"@),
{
    get_cwd().join("cache").join("uv")
}

/// The directory of the launcher's configuration.
pub fn get_config_dir() -> (r: Location)
    ensures
        r@ == base_dir().join("config"@),
{
    get_base_dir().join("config")
}

/// The directory of the user's start menu entries.
pub fn get_start_dir() -> (r: Location)
    ensures
        r@ == at(Base::ConfigDir).join("Microsoft\\Windows\\Start Menu\\Programs"@),
{
    Location::at(Base::ConfigDir).join("Microsoft\\Windows\\Start Menu\\Programs")
}

/// As joined texts, every location of an application extends its directory,
/// which extends the directory of all applications.
pub proof fn law_app_locations_extend(app_name: Seq<char>, part: Seq<char>)
    ensures
        app_base_path(app_name).join(part).extends(app_base_path(app_name)),
        app_base_path(app_name).extends(apps_dir()),
        apps_dir().extends(base_dir()),
{
}

/// As joined texts, different application names give different locations, and
/// no location extends both. Whether they are different directories depends on
/// the names: `a` and `a/../a` are one.
pub proof fn law_app_locations_differ(a: Seq<char>, b: Seq<char>, l: LocationView)
    requires
        a != b,
    ensures
        app_base_path(a) != app_base_path(b),
        !(l.extends(app_base_path(a)) && l.extends(app_base_path(b))),
{
    assert(app_base_path(a).joins[2] == a);
    assert(app_base_path(b).joins[2] == b);
    if l.extends(app_base_path(a)) && l.extends(app_base_path(b)) {
        assert(l.joins.take(3)[2] == a);
        assert(l.joins.take(3)[2] == b);
    }
}

/// As joined texts, the repository, the working directory and the install root
/// of an application are three locations of which none extends another.
pub proof fn law_app_parts_differ(app_name: Seq<char>)
    ensures
        ({
            let repo = app_base_path(app_name).join("repo"@);
            let working = app_base_path(app_name).join(WORKING_DIR_NAME@);
            let python = python_dir(app_name);
            &&& !repo.extends(working) && !working.extends(repo)
            &&& !repo.extends(python) && !python.extends(repo)
            &&& !working.extends(python) && !python.extends(working)
        }),
{
    reveal_strlit("repo");
    reveal_strlit("working");
    reveal_strlit("python");
    let repo = app_base_path(app_name).join("repo"@);
    let working = app_base_path(app_name).join(WORKING_DIR_NAME@);
    let python = python_dir(app_name);
    assert(repo.joins[3] == "repo"@ && working.joins[3] == "working"@ && python.joins[3]
        == "python"@);
    assert("repo"@.len() == 4 && "working"@.len() == 7 && "python"@.len() == 6);
}

/// An entry of a listed install root.
#[derive(Debug, PartialEq, Eq)]
pub struct Listed {
    /// The name of the entry.
    pub name: String,
    /// Whether the entry holds a file `python.exe`.
    pub has_python_exe: bool,
}

/// The name is that of a managed interpreter.
pub open spec fn is_managed_name(name: Seq<char>) -> bool {
    UV_MANAGED_PREFIX@.is_prefix_of(name)
}

/// The entry is a managed interpreter.
pub open spec fn is_managed(entry: Listed) -> bool {
    is_managed_name(entry.name@) && entry.has_python_exe
}

/// The version in the name of a managed interpreter: `3.12.4` in
/// `cpython-3.12.4-windows-x86_64-none`.
pub open spec fn version_in(name: Seq<char>) -> Seq<char> {
    before(name.skip(UV_MANAGED_PREFIX@.len() as int), '-')
}

/// The version in the name of a managed interpreter.
pub(crate) fn version_of<'a>(name: &'a str) -> (r: &'a str)
    requires
        is_managed_name(name@),
    ensures
        r@ == version_in(name@),
{
    let rest = name.substring_char(UV_MANAGED_PREFIX.unicode_len(), name.unicode_len());
    split_first(rest, '-')
}

/// The managed interpreter named `a` ranks below the one named `b`: its version
/// is older, or the versions are the same and the name comes first as plain
/// text.
pub open spec fn ranks_below(a: Seq<char>, b: Seq<char>) -> bool {
    older(version_in(a), version_in(b)) || (version_in(a) == version_in(b) && text_before(a, b))
}

/// No name ranks below itself.
pub proof fn law_rank_irreflexive(a: Seq<char>)
    ensures
        !ranks_below(a, a),
{
    law_older_irreflexive(version_in(a));
    law_text_before_irreflexive(a);
}

/// What ranks below a lower name ranks below the higher one.
pub proof fn law_rank_transitive(a: Seq<char>, b: Seq<char>, c: Seq<char>)
    requires
        ranks_below(a, b),
        ranks_below(b, c),
    ensures
        ranks_below(a, c),
{
    if older(version_in(a), version_in(b)) && older(version_in(b), version_in(c)) {
        law_older_transitive(version_in(a), version_in(b), version_in(c));
    } else if version_in(a) == version_in(b) && version_in(b) == version_in(c) {
        if !older(version_in(a), version_in(c)) {
            law_text_before_transitive(a, b, c);
        }
    }
}

/// Of two different names one ranks below the other.
pub proof fn law_rank_total(a: Seq<char>, b: Seq<char>)
    ensures
        a == b || ranks_below(a, b) || ranks_below(b, a),
{
    law_older_total(version_in(a), version_in(b));
    law_text_before_total(a, b);
}

/// Whether the managed interpreter named `a` ranks below the one named `b`.
fn is_ranked_below(a: &str, b: &str) -> (r: bool)
    requires
        is_managed_name(a@),
        is_managed_name(b@),
    ensures
        r == ranks_below(a@, b@),
{
    let x = version_of(a);
    let y = version_of(b);
    is_older(x, y) || (same_text(x, y) && is_text_before(a, b))
}

/// Entry `i` is the newest managed interpreter: it ranks below none, and of
/// those with the same name it is the first.
pub open spec fn is_newest_managed(entries: Seq<Listed>, i: int) -> bool {
    &&& 0 <= i < entries.len()
    &&& is_managed(entries[i])
    &&& forall|j: int|
        0 <= j < entries.len() && is_managed(#[trigger] entries[j]) ==> !ranks_below(
            entries[i].name@,
            entries[j].name@,
        ) && (entries[j].name@ == entries[i].name@ ==> i <= j)
}

/// Where there is a managed interpreter, there is exactly one newest.
pub proof fn law_one_newest_managed(entries: Seq<Listed>, k: int)
    requires
        0 <= k < entries.len(),
        is_managed(entries[k]),
    ensures
        exists|i: int| is_newest_managed(entries, i),
        forall|i: int, j: int|
            is_newest_managed(entries, i) && is_newest_managed(entries, j) ==> i == j,
{
    let ok = |a: int| is_managed(entries[a]);
    let less = |a: int, b: int|
        ranks_below(entries[a].name@, entries[b].name@) || (entries[a].name@ == entries[b].name@ && b
            < a);
    assert forall|a: int| !#[trigger] less(a, a) by {
        law_rank_irreflexive(entries[a].name@);
    }
    assert forall|a: int, b: int, c: int| #[trigger] less(a, b) && #[trigger] less(
        b,
        c,
    ) implies less(a, c) by {
        if ranks_below(entries[a].name@, entries[b].name@) && ranks_below(
            entries[b].name@,
            entries[c].name@,
        ) {
            law_rank_transitive(entries[a].name@, entries[b].name@, entries[c].name@);
        }
    }
    let i = lemma_greatest(entries.len() as int, ok, less, k);
    assert forall|j: int| 0 <= j < entries.len() && is_managed(#[trigger] entries[j]) implies !ranks_below(
        entries[i].name@,
        entries[j].name@,
    ) && (entries[j].name@ == entries[i].name@ ==> i <= j) by {
        assert(ok(j));
        assert(!less(i, j));
    }
    assert(is_newest_managed(entries, i));
    assert forall|i: int, j: int|
        is_newest_managed(entries, i) && is_newest_managed(entries, j) implies i == j by {
        law_rank_total(entries[i].name@, entries[j].name@);
    }
}

/// The newest wins: where the versions of managed interpreters agree up to a
/// number, the chosen one has the greatest number there.
pub proof fn law_newest_has_greatest_number(
    entries: Seq<Listed>,
    i: int,
    j: int,
    lead: Seq<char>,
    n: nat,
    m: nat,
    tail_n: Seq<char>,
    tail_m: Seq<char>,
)
    requires
        is_newest_managed(entries, i),
        0 <= j < entries.len(),
        is_managed(entries[j]),
        lead.len() > 0 ==> !is_digit(lead.last()),
        tail_n.len() > 0 ==> !is_digit(tail_n[0]),
        tail_m.len() > 0 ==> !is_digit(tail_m[0]),
        version_in(entries[i].name@) == lead + decimal(n) + tail_n,
        version_in(entries[j].name@) == lead + decimal(m) + tail_m,
    ensures
        m <= n,
{
    if n < m {
        law_smaller_number_is_older(lead, n, m, tail_n, tail_m);
    }
}

/// Finds the newest managed interpreter in a listed install root.
pub fn find_managed_python_exe(entries: &Vec<Listed>) -> (r: Option<Location>)
    ensures
        match r {
            Some(exe) => (exe.base matches Base::Entry(i) && is_newest_managed(
                entries@,
                i as int,
            )) && exe.joins.deep_view() == seq!["python.exe"@],
            None => forall|j: int| 0 <= j < entries.len() ==> !is_managed(#[trigger] entries@[j]),
        },
{
    let mut best: Option<usize> = None;
    let mut n: usize = 0;
    while n < entries.len()
        invariant
            n <= entries.len(),
            match best {
                Some(i) => i < n && is_managed(entries@[i as int]) && forall|j: int|
                    0 <= j < n && is_managed(#[trigger] entries@[j]) ==> !ranks_below(
                        entries@[i as int].name@,
                        entries@[j].name@,
                    ) && (entries@[j].name@ == entries@[i as int].name@ ==> i <= j),
                None => forall|j: int| 0 <= j < n ==> !is_managed(#[trigger] entries@[j]),
            },
        decreases entries.len() - n,
    {
        if starts_with(entries[n].name.as_str(), UV_MANAGED_PREFIX) && entries[n].has_python_exe {
            let ghost new_name = entries@[n as int].name@;
            proof {
                law_rank_irreflexive(new_name);
            }
            match best {
                None => {
                    best = Some(n);
                },
                Some(i) => {
                    if is_ranked_below(entries[i].name.as_str(), entries[n].name.as_str()) {
                        proof {
                            let old_name = entries@[i as int].name@;
                            assert forall|j: int|
                                0 <= j < n + 1 && is_managed(
                                    #[trigger] entries@[j],
                                ) implies !ranks_below(new_name, entries@[j].name@) && (
                            entries@[j].name@ == new_name ==> n <= j) by {
                                if j < n && ranks_below(new_name, entries@[j].name@) {
                                    law_rank_transitive(old_name, new_name, entries@[j].name@);
                                }
                            }
                        }
                        best = Some(n);
                    }
                },
            }
        }
        n = n + 1;
    }
    match best {
        Some(i) => {
            let exe = Location::at(Base::Entry(i)).join("python.exe");
            assert(exe@.joins =~= seq!["python.exe"@]);
            Some(exe)
        },
        None => None,
    }
}

/// The file name of the interpreter, with or without a console.
pub open spec fn python_file_name(use_pythonw: bool) -> Seq<char> {
    if use_pythonw {
        "pythonw.exe"@
    } else {
        "python.exe"@
    }
}

/// The interpreter of an application whose install root has the given entries:
/// the newest managed one, or, where none is managed, the one that lies in the
/// install root itself.
pub open spec fn python_exe(
    app_name: Seq<char>,
    use_pythonw: bool,
    entries: Seq<Listed>,
) -> LocationView {
    if exists|i: usize| is_newest_managed(entries, i as int) {
        at(Base::Entry(choose|i: usize| is_newest_managed(entries, i as int))).join(
            python_file_name(use_pythonw),
        )
    } else {
        python_dir(app_name).join(python_file_name(use_pythonw))
    }
}

/// Resolves the interpreter of an application, whose install root has the given
/// entries.
pub fn get_python_exe(app_name: &str, use_pythonw: bool, entries: &Vec<Listed>) -> (r: Location)
    ensures
        r@ == python_exe(app_name@, use_pythonw, entries@),
        forall|i: usize| #[trigger]
            is_newest_managed(entries@, i as int) ==> r@ == at(Base::Entry(i)).join(
                python_file_name(use_pythonw),
            ),
        (forall|j: int| 0 <= j < entries.len() ==> !is_managed(#[trigger] entries@[j])) ==> r@
            == python_dir(app_name@).join(python_file_name(use_pythonw)),
{
    let file_name = if use_pythonw {
        "pythonw.exe"
    } else {
        "python.exe"
    };
    match find_managed_python_exe(entries) {
        Some(exe) => {
            let r = Location::at(exe.base).join(file_name);
            proof {
                let k = exe.base->Entry_0;
                assert(is_newest_managed(entries@, k as int));
                law_one_newest_managed(entries@, k as int);
            }
            r
        },
        None => get_python_dir(app_name).join(file_name),
    }
}

/// `path` without the prefix of extended-length paths.
pub open spec fn without_extended_prefix(path: Seq<char>) -> Seq<char> {
    if "\\\\?\\"@.is_prefix_of(path) {
        path.skip("\\\\?\\"@.len() as int)
    } else {
        path
    }
}

/// Takes the prefix of extended-length paths off.
pub fn strip_extended_path_prefix(path_str: &str) -> (r: String)
    ensures
        r@ == without_extended_prefix(path_str@),
{
    let prefix = "\\\\?\\";
    if starts_with(path_str, prefix) {
        path_str.substring_char(prefix.unicode_len(), path_str.unicode_len()).to_owned()
    } else {
        path_str.to_owned()
    }
}

/// What became of the attempt to make a path absolute. A path that is no valid
/// text is there without its text.
#[derive(Debug, PartialEq, Eq)]
pub enum Absolute {
    /// The file system gave the canonical path.
    Canonical(Option<String>),
    /// It did not; the path was joined onto the current directory.
    Joined(Option<String>),
    /// It did not, and there is no current directory.
    Unknown,
}

/// The absolute path as text, with what `path` itself reads as for want of a
/// better.
pub fn path_to_abs(path: &str, absolute: &Absolute) -> (r: String)
    ensures
        match absolute {
            Absolute::Canonical(Some(text)) => r@ == without_extended_prefix(text@),
            Absolute::Joined(Some(text)) => r@ == without_extended_prefix(text@),
            _ => r@ == without_extended_prefix(path@),
        },
{
    match absolute {
        Absolute::Canonical(Some(text)) => strip_extended_path_prefix(text.as_str()),
        Absolute::Joined(Some(text)) => strip_extended_path_prefix(text.as_str()),
        _ => strip_extended_path_prefix(path),
    }
}

/// Where the parts of an application are, whatever its name: each in the data
/// directory of the working directory, under the applications, under that name.
pub proof fn law_app_layout(app_name: Seq<char>)
    ensures
        base_dir() == (LocationView { base: Base::WorkingDir, joins: seq!["data"@] }),
        apps_dir() == (LocationView { base: Base::WorkingDir, joins: seq!["data"@, "apps"@] }),
        app_base_path(app_name) == (LocationView {
            base: Base::WorkingDir,
            joins: seq!["data"@, "apps"@, app_name],
        }),
        python_dir(app_name) == (LocationView {
            base: Base::WorkingDir,
            joins: seq!["data"@, "apps"@, app_name, "python"@],
        }),
{
    assert(base_dir().joins =~= seq!["data"@]);
    assert(apps_dir().joins =~= seq!["data"@, "apps"@]);
    assert(app_base_path(app_name).joins =~= seq!["data"@, "apps"@, app_name]);
    assert(python_dir(app_name).joins =~= seq!["data"@, "apps"@, app_name, "python"@]);
}

/// Managed interpreters are the entries whose name is `cpython-` with anything
/// behind it and which hold a `python.exe`.
pub proof fn law_managed_by_name(entry: Listed, rest: Seq<char>)
    ensures
        is_managed(entry) <==> entry.has_python_exe && "cpython-"@.is_prefix_of(entry.name@),
        is_managed_name("cpython-"@ + rest),
        is_managed_name(rest) ==> rest == "cpython-"@ + rest.skip(8),
{
    reveal_strlit("cpython-");
    let lead = "cpython-"@;
    assert(lead.len() == 8);
    assert((lead + rest).take(8) =~= lead);
    if is_managed_name(rest) {
        assert(rest =~= rest.take(8) + rest.skip(8));
    }
}

/// The version in a name stands between `cpython-` and the next hyphen, or the
/// end where there is none.
pub proof fn law_version_between_hyphens(version: Seq<char>, rest: Seq<char>)
    requires
        !version.contains('-'),
    ensures
        version_in("cpython-"@ + version) == version,
        version_in("cpython-"@ + version + seq!['-'] + rest) == version,
{
    reveal_strlit("cpython-");
    let lead = "cpython-"@;
    assert(lead.len() == 8);
    assert((lead + version).skip(8) =~= version);
    assert((lead + version + seq!['-'] + rest).skip(8) =~= version + seq!['-'] + rest);
    law_split_at_separators(version, '-', rest);
}

/// The rank goes by the versions in the names, and by the names as plain texts only
/// where the versions are the same.
pub proof fn law_rank_of_names(a: Seq<char>, b: Seq<char>)
    ensures
        version_in(a) != version_in(b) ==> (ranks_below(a, b) <==> older(
            version_in(a),
            version_in(b),
        )),
        version_in(a) == version_in(b) ==> (ranks_below(a, b) <==> text_before(a, b)),
{
    law_older_irreflexive(version_in(a));
}

/// The version decides the rank of a name, and the name itself only where the
/// versions are the same.
pub proof fn law_rank_by_version(v: Seq<char>, w: Seq<char>, s: Seq<char>, t: Seq<char>)
    requires
        !v.contains('-'),
        !w.contains('-'),
    ensures
        ({
            let a = "cpython-"@ + v + seq!['-'] + s;
            let b = "cpython-"@ + w + seq!['-'] + t;
            &&& v != w ==> (ranks_below(a, b) <==> older(v, w))
            &&& v == w ==> (ranks_below(a, b) <==> text_before(s, t))
        }),
        ({
            let a = "cpython-"@ + v;
            let b = "cpython-"@ + w;
            ranks_below(a, b) <==> older(v, w)
        }),
{
    law_rank_of_names("cpython-"@ + v, "cpython-"@ + w);
    law_text_before_irreflexive("cpython-"@ + v);
    let a = "cpython-"@ + v + seq!['-'] + s;
    let b = "cpython-"@ + w + seq!['-'] + t;
    law_version_between_hyphens(v, s);
    law_version_between_hyphens(w, t);
    law_older_irreflexive(v);
    if v == w {
        law_text_before_behind(("cpython-"@ + v).push('-'), s, t);
        assert(a =~= ("cpython-"@ + v).push('-') + s);
        assert(b =~= ("cpython-"@ + v).push('-') + t);
    }
}

/// The newest managed interpreter has no newer one beside it: no other entry that
/// holds a `python.exe` under a managed name has a newer version, nor the same
/// version under a later name; of entries with one name it is the first.
pub proof fn law_nothing_newer_is_managed(entries: Seq<Listed>, i: int, j: int)
    requires
        is_newest_managed(entries, i),
        0 <= j < entries.len(),
        entries[j].has_python_exe,
        "cpython-"@.is_prefix_of(entries[j].name@),
    ensures
        0 <= i < entries.len(),
        entries[i].has_python_exe,
        "cpython-"@.is_prefix_of(entries[i].name@),
        !older(version_in(entries[i].name@), version_in(entries[j].name@)),
        version_in(entries[i].name@) == version_in(entries[j].name@) ==> !text_before(
            entries[i].name@,
            entries[j].name@,
        ),
        entries[i].name@ == entries[j].name@ ==> i <= j,
{
    assert(is_managed(entries[j]));
}

/// The interpreter of an application is the one in the newest managed entry,
/// wherever there is a managed one, and otherwise the one that lies in its install
/// root; with or without a console, as asked for.
pub proof fn law_interpreter_of_application(
    app_name: Seq<char>,
    use_pythonw: bool,
    entries: Seq<Listed>,
    i: usize,
)
    ensures
        ({
            let file = if use_pythonw {
                "pythonw.exe"@
            } else {
                "python.exe"@
            };
            &&& is_newest_managed(entries, i as int) ==> python_exe(app_name, use_pythonw, entries)
                == (LocationView { base: Base::Entry(i), joins: seq![file] })
            &&& (forall|j: int|
                0 <= j < entries.len() ==> !((#[trigger] entries[j]).has_python_exe
                    && "cpython-"@.is_prefix_of(entries[j].name@))) ==> python_exe(
                app_name,
                use_pythonw,
                entries,
            ) == (LocationView {
                base: Base::WorkingDir,
                joins: seq!["data"@, "apps"@, app_name, "python"@, file],
            })
        }),
{
    let file = python_file_name(use_pythonw);
    if is_newest_managed(entries, i as int) {
        law_one_newest_managed(entries, i as int);
        assert(at(Base::Entry(i)).join(file).joins =~= seq![file]);
    }
    if forall|j: int|
        0 <= j < entries.len() ==> !((#[trigger] entries[j]).has_python_exe
            && "cpython-"@.is_prefix_of(entries[j].name@)) {
        assert forall|k: usize| !is_newest_managed(entries, k as int) by {
            if is_newest_managed(entries, k as int) {
                assert(is_managed(entries[k as int]));
            }
        }
        law_app_layout(app_name);
        assert(python_dir(app_name).join(file).joins =~= seq![
            "data"@,
            "apps"@,
            app_name,
            "python"@,
            file,
        ]);
    }
}

/// The prefix of extended-length paths is taken off once where it stands, and
/// nothing else is.
pub proof fn law_extended_prefix_off(path: Seq<char>)
    ensures
        without_extended_prefix("\\\\?\\"@ + path) == path,
        !"\\\\?\\"@.is_prefix_of(path) ==> without_extended_prefix(path) == path,
{
    let prefix = "\\\\?\\"@;
    assert((prefix + path).take(prefix.len() as int) =~= prefix);
    assert((prefix + path).skip(prefix.len() as int) =~= path);
}

} // verus!
