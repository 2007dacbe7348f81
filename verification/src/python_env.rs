//! The managed interpreter of an application: finding it, checking it, having
//! `uv` install it.

use vstd::prelude::*;

use crate::decode::{decode, decoded};
use crate::error::EnvError;
use crate::path::{
    is_managed, is_managed_name, is_newest_managed, law_managed_by_name, law_one_newest_managed,
    law_version_between_hyphens, version_in, version_of, Base, Listed, Location, LocationView, UV_MANAGED_PREFIX,
};
use crate::text::{
    chars_of, decimal, is_digit, is_white_space, law_split_at_separators, law_ten_digits, law_trimmed, lemma_span_at, lemma_words_exist, pieces, same_text,
    solids, split, split_whitespace, starts_with, trim, trimmed, words,
};
use crate::uv::{Arg, ArgView, CommandOutput};
use crate::version::{
    is_older, law_key_is_the_front, law_older_irreflexive, law_older_total, law_older_transitive,
    law_one_or_two_dots, law_patch_does_not_enter_key, law_smaller_number_is_older, lemma_greatest, lemma_key_pieces, major_minor, older,
    parse_major_minor,
};

verus! {

/// The platform that the launcher runs on.
#[derive(Clone, Copy, Debug, PartialEq, Eq, Structural)]
pub enum Platform {
    Windows,
    Other,
}

/// The entry is a managed interpreter whose version has the given `X.Y` key.
pub open spec fn is_candidate(entry: Listed, key: Seq<char>) -> bool {
    is_managed(entry) && major_minor(version_in(entry.name@)) == Some(key)
}

/// Entry `i` is the newest candidate for `key`: none has a newer version, and
/// of those with the same version it is the last.
pub open spec fn is_newest_candidate(entries: Seq<Listed>, key: Seq<char>, i: int) -> bool {
    &&& 0 <= i < entries.len()
    &&& is_candidate(entries[i], key)
    &&& forall|j: int|
        0 <= j < entries.len() && is_candidate(#[trigger] entries[j], key) ==> !older(
            version_in(entries[i].name@),
            version_in(entries[j].name@),
        ) && (version_in(entries[j].name@) == version_in(entries[i].name@) ==> j <= i)
}

/// There is at most one newest candidate.
pub proof fn law_one_newest_candidate(entries: Seq<Listed>, key: Seq<char>, i: int, j: int)
    requires
        is_newest_candidate(entries, key, i),
        is_newest_candidate(entries, key, j),
    ensures
        i == j,
{
    law_older_total(version_in(entries[i].name@), version_in(entries[j].name@));
}

/// A specification pins a patch: it has a third part, which begins with a digit.
/// `3.12.4` and `3.13.0rc1` do; `3.12`, `3.12.x` and `3.12.*` do not.
pub open spec fn is_pinned(spec: Seq<char>) -> bool {
    let parts = pieces(spec, '.');
    parts.len() == 3 && parts[2].len() > 0 && is_digit(parts[2][0])
}

/// Whether a specification pins a patch.
fn pinned(spec: &str) -> (r: bool)
    ensures
        r == is_pinned(spec@),
{
    let parts = split(spec, '.');
    assert(parts.deep_view().len() == parts.len());
    if parts.len() != 3 {
        return false;
    }
    assert(parts.deep_view()[2] == parts@[2]@);
    let patch = chars_of(parts[2].as_str());
    patch.len() > 0 && '0' <= patch[0] && patch[0] <= '9'
}

/// A version answers what a specification asks for: it has the same `X.Y`, and
/// where the specification pins a patch, it is that very version.
pub open spec fn answers(version: Seq<char>, spec: Seq<char>) -> bool {
    &&& major_minor(spec) is Some
    &&& major_minor(version) == major_minor(spec)
    &&& is_pinned(spec) ==> version == spec
}

/// A pinned patch is answered by that version alone.
pub proof fn law_pin_is_answered_by_itself(version: Seq<char>, spec: Seq<char>)
    requires
        is_pinned(spec),
    ensures
        answers(version, spec) <==> version == spec,
{
}

/// Every version answers its own `X.Y`, whatever its patch.
pub proof fn law_every_patch_answers_its_minor(version: Seq<char>)
    requires
        major_minor(version) is Some,
    ensures
        answers(version, major_minor(version)->0),
{
    lemma_key_pieces(version);
}

/// The entry is a managed interpreter whose version answers `spec`.
pub open spec fn is_answering(entry: Listed, spec: Seq<char>) -> bool {
    is_managed(entry) && answers(version_in(entry.name@), spec)
}

/// There is a managed interpreter that answers `spec`.
pub open spec fn is_answered(entries: Seq<Listed>, spec: Seq<char>) -> bool {
    exists|i: int| 0 <= i < entries.len() && is_answering(#[trigger] entries[i], spec)
}

/// Entry `i` is the newest managed interpreter that answers `spec`: none has a
/// newer version, and of those with the same version it is the last.
pub open spec fn is_newest_answering(entries: Seq<Listed>, spec: Seq<char>, i: int) -> bool {
    &&& 0 <= i < entries.len()
    &&& is_answering(entries[i], spec)
    &&& forall|j: int|
        0 <= j < entries.len() && is_answering(#[trigger] entries[j], spec) ==> !older(
            version_in(entries[i].name@),
            version_in(entries[j].name@),
        ) && (version_in(entries[j].name@) == version_in(entries[i].name@) ==> j <= i)
}

/// Where a specification is answered, there is exactly one newest interpreter
/// that answers it.
pub proof fn law_one_newest_answering(entries: Seq<Listed>, spec: Seq<char>)
    requires
        is_answered(entries, spec),
    ensures
        exists|i: int| is_newest_answering(entries, spec, i),
        forall|i: int, j: int|
            is_newest_answering(entries, spec, i) && is_newest_answering(entries, spec, j) ==> i
                == j,
{
    let k = choose|k: int| 0 <= k < entries.len() && is_answering(#[trigger] entries[k], spec);
    let version = |a: int| version_in(entries[a].name@);
    let ok = |a: int| is_answering(entries[a], spec);
    let less = |a: int, b: int| older(version(a), version(b)) || (version(a) == version(b) && a < b);
    assert forall|a: int| !#[trigger] less(a, a) by {
        law_older_irreflexive(version(a));
    }
    assert forall|a: int, b: int, c: int| #[trigger] less(a, b) && #[trigger] less(
        b,
        c,
    ) implies less(a, c) by {
        if older(version(a), version(b)) && older(version(b), version(c)) {
            law_older_transitive(version(a), version(b), version(c));
        }
    }
    let i = lemma_greatest(entries.len() as int, ok, less, k);
    assert forall|j: int|
        0 <= j < entries.len() && is_answering(#[trigger] entries[j], spec) implies !older(
        version_in(entries[i].name@),
        version_in(entries[j].name@),
    ) && (version_in(entries[j].name@) == version_in(entries[i].name@) ==> j <= i) by {
        assert(ok(j));
        assert(!less(i, j));
    }
    assert(is_newest_answering(entries, spec, i));
    assert forall|i: int, j: int|
        is_newest_answering(entries, spec, i) && is_newest_answering(entries, spec, j) implies i
        == j by {
        law_older_total(version_in(entries[i].name@), version_in(entries[j].name@));
    }
}

/// Whether an entry is a managed interpreter whose version answers `spec`.
fn answering(entry: &Listed, spec: &str) -> (r: bool)
    ensures
        r == is_answering(*entry, spec@),
{
    if !entry.has_python_exe || !starts_with(entry.name.as_str(), UV_MANAGED_PREFIX) {
        return false;
    }
    let version = version_of(entry.name.as_str());
    let key = match parse_major_minor(version) {
        Ok(key) => key,
        Err(_) => {
            return false;
        },
    };
    let wanted_key = match parse_major_minor(spec) {
        Ok(wanted_key) => wanted_key,
        Err(_) => {
            return false;
        },
    };
    same_text(key.as_str(), wanted_key.as_str()) && (!pinned(spec) || same_text(version, spec))
}

/// The newest managed interpreter that answers `spec`.
fn newest_answering(spec: &str, entries: &Vec<Listed>) -> (r: Option<usize>)
    ensures
        match r {
            Some(i) => is_newest_answering(entries@, spec@, i as int),
            None => !is_answered(entries@, spec@),
        },
{
    let mut best: Option<usize> = None;
    let mut n: usize = 0;
    while n < entries.len()
        invariant
            n <= entries.len(),
            match best {
                Some(i) => i < n && is_answering(entries@[i as int], spec@) && forall|j: int|
                    0 <= j < n && is_answering(#[trigger] entries@[j], spec@) ==> !older(
                        version_in(entries@[i as int].name@),
                        version_in(entries@[j].name@),
                    ) && (version_in(entries@[j].name@) == version_in(entries@[i as int].name@)
                        ==> j <= i),
                None => forall|j: int|
                    0 <= j < n ==> !is_answering(#[trigger] entries@[j], spec@),
            },
        decreases entries.len() - n,
    {
        if answering(&entries[n], spec) {
            let ghost new_version = version_in(entries@[n as int].name@);
            proof {
                law_older_irreflexive(new_version);
            }
            match best {
                None => {
                    best = Some(n);
                },
                Some(i) => {
                    let old_version = version_of(entries[i].name.as_str());
                    if !is_older(version_of(entries[n].name.as_str()), old_version) {
                        proof {
                            law_older_total(old_version@, new_version);
                            assert forall|j: int|
                                0 <= j < n && is_answering(
                                    #[trigger] entries@[j],
                                    spec@,
                                ) implies !older(new_version, version_in(entries@[j].name@)) by {
                                if older(new_version, version_in(entries@[j].name@)) {
                                    if old_version@ != new_version {
                                        law_older_transitive(
                                            old_version@,
                                            new_version,
                                            version_in(entries@[j].name@),
                                        );
                                    }
                                }
                            }
                        }
                        best = Some(n);
                    } else {
                        proof {
                            if older(old_version@, new_version) {
                                law_older_transitive(new_version, old_version@, new_version);
                            }
                        }
                    }
                },
            }
        }
        n = n + 1;
    }
    best
}

/// The location is the newest interpreter that answers `spec` in the listed
/// install root.
pub open spec fn is_pinned_exe(exe: LocationView, entries: Seq<Listed>, spec: Seq<char>) -> bool {
    (exe.base matches Base::Entry(i) && is_newest_answering(entries, spec, i as int)) && exe.joins
        == seq!["python.exe"@]
}

/// The interpreter in an entry of the listed install root.
fn exe_in(i: usize) -> (r: Location)
    ensures
        r@ == (LocationView { base: Base::Entry(i), joins: seq!["python.exe"@] }),
{
    let exe = Location::at(Base::Entry(i)).join("python.exe");
    assert(exe@.joins =~= seq!["python.exe"@]);
    exe
}

/// Finds the interpreter that answers `spec` in the listed install root: of the
/// `X.Y` that it asks for the newest patch, or the very patch that it pins.
/// `root` is how that root is shown.
pub fn pinned_python_exe(spec: &str, root: &str, entries: &Vec<Listed>) -> (r: Result<
    Location,
    EnvError,
>)
    ensures
        match r {
            Ok(exe) => is_pinned_exe(exe@, entries@, spec@),
            Err(EnvError::InvalidVersion(v)) => major_minor(spec@) is None && v@ == spec@,
            Err(EnvError::NoManagedPython { wanted, root: d }) => major_minor(spec@) is Some
                && wanted@ == (if is_pinned(spec@) {
                spec@
            } else {
                major_minor(spec@)->0
            }) && d@ == root@,
            Err(_) => false,
        },
        r is Err ==> !is_answered(entries@, spec@),
{
    let key = match parse_major_minor(spec) {
        Ok(key) => key,
        Err(e) => {
            return Err(e);
        },
    };
    match newest_answering(spec, entries) {
        Some(i) => Ok(exe_in(i)),
        None => {
            let wanted = if pinned(spec) {
                spec.to_owned()
            } else {
                key
            };
            Err(EnvError::NoManagedPython { wanted, root: root.to_owned() })
        },
    }
}

/// Finds the newest patch of the interpreter that `spec` asks for, in the
/// listed install root, whatever patch `spec` itself has. `root` is how that
/// root is shown.
pub fn resolve_uv_python_exe(spec: &str, root: &str, entries: &Vec<Listed>) -> (r: Result<
    Location,
    EnvError,
>)
    ensures
        match major_minor(spec@) {
            None => r matches Err(EnvError::InvalidVersion(v)) && v@ == spec@,
            Some(key) => match r {
                Ok(exe) => (exe.base matches Base::Entry(i) && is_newest_candidate(
                    entries@,
                    key,
                    i as int,
                )) && exe.joins.deep_view() == seq!["python.exe"@],
                Err(e) => (e matches EnvError::NoManagedPython { wanted, root: d } && wanted@
                    == key && d@ == root@) && forall|j: int|
                    0 <= j < entries.len() ==> !is_candidate(#[trigger] entries@[j], key),
            },
        },
{
    let key = match parse_major_minor(spec) {
        Ok(key) => key,
        Err(e) => {
            return Err(e);
        },
    };
    proof {
        lemma_key_pieces(spec@);
        assert forall|j: int| 0 <= j < entries.len() implies is_answering(
            #[trigger] entries@[j],
            key@,
        ) == is_candidate(entries@[j], key@) by {}
    }
    match newest_answering(key.as_str(), entries) {
        Some(i) => Ok(exe_in(i)),
        None => Err(EnvError::NoManagedPython { wanted: key, root: root.to_owned() }),
    }
}

/// Whether an application has a managed interpreter, by the names in its
/// install root.
pub fn is_uv_managed_python(names: &Vec<String>) -> (r: bool)
    ensures
        r <==> exists|i: int|
            0 <= i < names.len() && is_managed_name(#[trigger] names.deep_view()[i]),
{
    let mut i: usize = 0;
    while i < names.len()
        invariant
            i <= names.len(),
            forall|k: int| 0 <= k < i ==> !is_managed_name(#[trigger] names.deep_view()[k]),
        decreases names.len() - i,
    {
        assert(names.deep_view()[i as int] == names@[i as int]@);
        if starts_with(names[i].as_str(), UV_MANAGED_PREFIX) {
            return true;
        }
        i = i + 1;
    }
    false
}

/// The newest patch wins: among the candidates `X.Y.n`, the chosen one has the
/// greatest `n`.
pub proof fn law_newest_patch_wins(
    entries: Seq<Listed>,
    key: Seq<char>,
    i: int,
    j: int,
    n: nat,
    m: nat,
)
    requires
        is_newest_candidate(entries, key, i),
        0 <= j < entries.len(),
        is_candidate(entries[j], key),
        version_in(entries[i].name@) == key + seq!['.'] + decimal(n),
        version_in(entries[j].name@) == key + seq!['.'] + decimal(m),
    ensures
        m <= n,
{
    if n < m {
        let lead = key + seq!['.'];
        let none = Seq::<char>::empty();
        law_smaller_number_is_older(lead, n, m, none, none);
        assert(lead + decimal(n) + none =~= version_in(entries[i].name@));
        assert(lead + decimal(m) + none =~= version_in(entries[j].name@));
    }
}

/// A specification that pins no patch is answered by the newest patch of its
/// `X.Y`: what the setup finds for it is what resolving it gives.
pub proof fn law_unpinned_is_newest_patch(entries: Seq<Listed>, spec: Seq<char>, i: int)
    requires
        major_minor(spec) is Some,
        !is_pinned(spec),
    ensures
        is_newest_answering(entries, spec, i) <==> is_newest_candidate(
            entries,
            major_minor(spec)->0,
            i,
        ),
{
    let key = major_minor(spec)->0;
    assert forall|j: int| 0 <= j < entries.len() implies is_answering(
        #[trigger] entries[j],
        spec,
    ) == is_candidate(entries[j], key) by {}
}

/// An interpreter that can be resolved is a managed one, so an application that
/// has it is found to be managed, and its interpreter is looked for among the
/// managed ones.
pub proof fn law_resolved_is_managed(entries: Seq<Listed>, key: Seq<char>, i: int)
    requires
        is_newest_candidate(entries, key, i),
    ensures
        is_managed_name(entries[i].name@),
        exists|k: int| is_newest_managed(entries, k),
{
    law_one_newest_managed(entries, i);
}

/// What an interpreter prints before its version.
pub open spec fn version_lead() -> Seq<char> {
    "Python "@
}

/// Text that begins like a version report, with no white space at its end, has
/// at least two words.
proof fn lemma_report_has_version(t: Seq<char>)
    requires
        version_lead().is_prefix_of(t),
        !is_white_space(t.last()),
    ensures
        words(t).len() >= 2,
{
    reveal_strlit("Python ");
    let lead = version_lead();
    assert(lead.len() == 7);
    assert forall|k: int| 0 <= k < 7 implies t[k] == #[trigger] lead[k] by {
        assert(t.take(7)[k] == t[k]);
    }
    assert(t[0] == lead[0] && t[1] == lead[1] && t[2] == lead[2] && t[3] == lead[3] && t[4]
        == lead[4] && t[5] == lead[5] && t[6] == lead[6]);
    assert(forall|k: int| 0 <= k < 6 ==> solids()(#[trigger] t[k]));
    lemma_span_at(t, solids(), 6);
    lemma_words_exist(t.skip(6), t.len() - 7);
    assert(words(t) == seq![t.take(6)] + words(t.skip(6)));
}

/// The version that an interpreter reports, from whether it succeeded and what
/// it printed. `exe` is how the interpreter is shown.
pub fn reported_version(exe: &str, success: bool, stdout: &str) -> (r: Result<String, EnvError>)
    ensures
        match r {
            Ok(version) => {
                &&& success
                &&& version_lead().is_prefix_of(trimmed(stdout@))
                &&& words(trimmed(stdout@)).len() >= 2
                &&& version@ == words(trimmed(stdout@))[1]
            },
            Err(EnvError::VersionFailed { exe: e, stdout: s }) => !success && e@ == exe@ && s@
                == trimmed(stdout@),
            Err(EnvError::VersionUnusable { exe: e, stdout: s }) => success
                && !version_lead().is_prefix_of(trimmed(stdout@)) && e@ == exe@ && s@ == trimmed(
                stdout@,
            ),
            Err(_) => false,
        },
{
    let trimmed_stdout = trim(stdout);
    if !success {
        return Err(
            EnvError::VersionFailed { exe: exe.to_owned(), stdout: trimmed_stdout.to_owned() },
        );
    }
    if !starts_with(trimmed_stdout, "Python ") {
        return Err(
            EnvError::VersionUnusable { exe: exe.to_owned(), stdout: trimmed_stdout.to_owned() },
        );
    }
    let report = split_whitespace(trimmed_stdout);
    proof {
        reveal_strlit("Python ");
        law_trimmed(stdout@);
        lemma_report_has_version(trimmed(stdout@));
        assert(report.deep_view()[1] == report@[1]@);
    }
    Ok(report[1].clone())
}

/// What came of asking an interpreter for its version.
#[derive(Debug, PartialEq, Eq)]
pub enum VersionProbe {
    /// There is no such file.
    NotAFile,
    /// It could not be started.
    NotRun,
    /// It ran to its end.
    Ran(CommandOutput),
}

/// The version of an interpreter, from what came of asking it. `exe` is how the
/// interpreter is shown.
pub fn get_python_version_from_exe(exe: &str, probe: &VersionProbe) -> (r: Result<
    String,
    EnvError,
>)
    ensures
        match probe {
            VersionProbe::NotAFile => r matches Err(EnvError::PythonExeNotFound(e)) && e@ == exe@,
            VersionProbe::NotRun => r matches Err(EnvError::VersionNotRun(e)) && e@ == exe@,
            VersionProbe::Ran(output) => {
                let t = trimmed(decoded(output.stdout@));
                match r {
                    Ok(version) => {
                        &&& output.success
                        &&& version_lead().is_prefix_of(t)
                        &&& words(t).len() >= 2
                        &&& version@ == words(t)[1]
                    },
                    Err(EnvError::VersionFailed { exe: e, stdout: s }) => !output.success && e@
                        == exe@ && s@ == t,
                    Err(EnvError::VersionUnusable { exe: e, stdout: s }) => output.success
                        && !version_lead().is_prefix_of(t) && e@ == exe@ && s@ == t,
                    Err(_) => false,
                }
            },
        },
{
    match probe {
        VersionProbe::NotAFile => Err(EnvError::PythonExeNotFound(exe.to_owned())),
        VersionProbe::NotRun => Err(EnvError::VersionNotRun(exe.to_owned())),
        VersionProbe::Ran(output) => {
            let stdout = decode(&output.stdout);
            reported_version(exe, output.success, stdout.as_str())
        },
    }
}

/// How far an interpreter's setup has come.
#[derive(Clone, Copy, Debug, PartialEq, Eq, Structural)]
pub enum EnsureStep {
    /// To be looked for: an interpreter that answers the specification, among
    /// what is installed.
    Resolve,
    /// To be done: having `uv` install the interpreter.
    Install,
    /// To be looked for: the interpreter that was just installed.
    ResolveInstalled,
    /// To be tried: asking that interpreter for its version.
    CheckVersion,
    /// The interpreter last found is ready.
    Ready,
    /// The step last taken failed, and the setup with it.
    Failed,
}

/// What the setup does next, once it is known whether its last step succeeded.
pub open spec fn ensure_next(step: EnsureStep, succeeded: bool) -> EnsureStep {
    match step {
        EnsureStep::Resolve => if succeeded {
            EnsureStep::Ready
        } else {
            EnsureStep::Install
        },
        EnsureStep::Install => if succeeded {
            EnsureStep::ResolveInstalled
        } else {
            EnsureStep::Failed
        },
        EnsureStep::ResolveInstalled => if succeeded {
            EnsureStep::CheckVersion
        } else {
            EnsureStep::Failed
        },
        EnsureStep::CheckVersion => if succeeded {
            EnsureStep::Ready
        } else {
            EnsureStep::Failed
        },
        EnsureStep::Ready => EnsureStep::Ready,
        EnsureStep::Failed => EnsureStep::Failed,
    }
}

/// Takes the setup of an interpreter one step on. It begins at `Resolve`: an
/// interpreter that is installed already and answers the specification (by its
/// `X.Y`, and by its whole version where a patch is pinned) is used without
/// asking `uv`. A first installation and a changed pin come to `Install`.
pub fn ensure_python_via_uv(step: EnsureStep, succeeded: bool) -> (r: EnsureStep)
    ensures
        r == ensure_next(step, succeeded),
{
    match step {
        EnsureStep::Resolve => if succeeded {
            EnsureStep::Ready
        } else {
            EnsureStep::Install
        },
        EnsureStep::Install => if succeeded {
            EnsureStep::ResolveInstalled
        } else {
            EnsureStep::Failed
        },
        EnsureStep::ResolveInstalled => if succeeded {
            EnsureStep::CheckVersion
        } else {
            EnsureStep::Failed
        },
        EnsureStep::CheckVersion => if succeeded {
            EnsureStep::Ready
        } else {
            EnsureStep::Failed
        },
        EnsureStep::Ready => EnsureStep::Ready,
        EnsureStep::Failed => EnsureStep::Failed,
    }
}

/// Begins the setup of an interpreter, which is possible on Windows alone.
pub fn setup_python_env(platform: Platform) -> (r: Result<EnsureStep, EnvError>)
    ensures
        platform is Windows ==> r == Ok::<EnsureStep, EnvError>(EnsureStep::Resolve),
        platform is Other ==> r == Err::<EnsureStep, EnvError>(EnvError::SetupUnsupported),
{
    match platform {
        Platform::Windows => Ok(EnsureStep::Resolve),
        Platform::Other => Err(EnvError::SetupUnsupported),
    }
}

/// The setup after the given outcomes of its steps.
pub open spec fn ensure_after(outcomes: Seq<bool>) -> EnsureStep
    decreases outcomes.len(),
{
    if outcomes.len() == 0 {
        EnsureStep::Resolve
    } else {
        ensure_next(ensure_after(outcomes.drop_last()), outcomes.last())
    }
}

/// A setup that has gone through its steps is ready if and only if an answering
/// interpreter was there already, or was installed, then found, and then gave
/// its version; otherwise it has failed.
pub proof fn law_ensure_outcome(outcomes: Seq<bool>)
    requires
        outcomes.len() >= 4,
    ensures
        ensure_after(outcomes) is Ready || ensure_after(outcomes) is Failed,
        ensure_after(outcomes) is Ready <==> outcomes[0] || (outcomes[1] && outcomes[2]
            && outcomes[3]),
    decreases outcomes.len(),
{
    if outcomes.len() == 4 {
        reveal_with_fuel(ensure_after, 5);
        assert(outcomes.drop_last().drop_last().drop_last().last() == outcomes[0]);
        assert(outcomes.drop_last().drop_last().last() == outcomes[1]);
        assert(outcomes.drop_last().last() == outcomes[2]);
    } else {
        law_ensure_outcome(outcomes.drop_last());
    }
}

/// What is there already is used as it is: where an interpreter that answers the
/// specification is found at first, the setup is ready at once, and stays so,
/// and `uv` is not asked to install anything.
pub proof fn law_ensure_uses_what_is_there(outcomes: Seq<bool>)
    requires
        outcomes.len() > 0,
        outcomes[0],
    ensures
        ensure_after(outcomes) is Ready,
    decreases outcomes.len(),
{
    if outcomes.len() == 1 {
        reveal_with_fuel(ensure_after, 2);
    } else {
        law_ensure_uses_what_is_there(outcomes.drop_last());
    }
}

/// The arguments with which `uv` installs an interpreter.
pub open spec fn install_python_args(version_spec: Seq<char>) -> Seq<ArgView> {
    seq![ArgView::Text("python"@), ArgView::Text("install"@), ArgView::Text(version_spec)]
}

/// The arguments with which `uv` installs an interpreter.
pub fn python_install_args(version_spec: &str) -> (r: Vec<Arg>)
    ensures
        r.deep_view() == install_python_args(version_spec@),
        r.deep_view() == seq![
            ArgView::Text("python"@),
            ArgView::Text("install"@),
            ArgView::Text(version_spec@),
        ],
{
    let mut r: Vec<Arg> = Vec::new();
    r.push(Arg::Text("python".to_owned()));
    r.push(Arg::Text("install".to_owned()));
    r.push(Arg::Text(version_spec.to_owned()));
    assert(r.deep_view() =~= install_python_args(version_spec@));
    r
}

/// How the installation of an interpreter is described to the user.
pub fn python_install_description(version_spec: &str) -> (r: String)
    ensures
        r@ == "uv python install "@ + version_spec@,
{
    let mut r = "uv python install ".to_owned();
    r.append(version_spec);
    r
}

/// What a step of the setup asks for.
#[derive(Debug, PartialEq, Eq)]
pub enum EnsureDue {
    /// Listing the install root, and looking for an interpreter in it.
    Look,
    /// Running `uv` with these arguments, under this description.
    Run { args: Vec<Arg>, description: String },
    /// Asking this interpreter for its version.
    Ask(Location),
    /// Handing this interpreter out: the setup is done.
    Give(Location),
    /// Nothing more: the setup has failed.
    Nothing,
}

/// What a step of the setup asks for, given the install root as it was last
/// listed. The version is asked of, and a setup that is ready hands out, the
/// interpreter that was found in that listing.
pub fn ensure_due(step: EnsureStep, version_spec: &str, entries: &Vec<Listed>) -> (r: EnsureDue)
    ensures
        match step {
            EnsureStep::Resolve => r is Look,
            EnsureStep::Install => r matches EnsureDue::Run { args, description }
                && args.deep_view() == install_python_args(version_spec@) && description@
                == "uv python install "@ + version_spec@,
            EnsureStep::ResolveInstalled => r is Look,
            EnsureStep::CheckVersion => match r {
                EnsureDue::Ask(exe) => is_pinned_exe(exe@, entries@, version_spec@),
                EnsureDue::Nothing => !is_answered(entries@, version_spec@),
                _ => false,
            },
            EnsureStep::Ready => match r {
                EnsureDue::Give(exe) => is_pinned_exe(exe@, entries@, version_spec@),
                EnsureDue::Nothing => !is_answered(entries@, version_spec@),
                _ => false,
            },
            EnsureStep::Failed => r is Nothing,
        },
{
    match step {
        EnsureStep::Resolve => EnsureDue::Look,
        EnsureStep::Install => EnsureDue::Run {
            args: python_install_args(version_spec),
            description: python_install_description(version_spec),
        },
        EnsureStep::ResolveInstalled => EnsureDue::Look,
        EnsureStep::CheckVersion => match newest_answering(version_spec, entries) {
            Some(i) => EnsureDue::Ask(exe_in(i)),
            None => EnsureDue::Nothing,
        },
        EnsureStep::Ready => match newest_answering(version_spec, entries) {
            Some(i) => EnsureDue::Give(exe_in(i)),
            None => EnsureDue::Nothing,
        },
        EnsureStep::Failed => EnsureDue::Nothing,
    }
}

/// A setup on an install root that lists `before` at first, and `after` once
/// `uv` was asked to install: `installed` says whether that run succeeded, and
/// `reported` whether the interpreter then gave its version.
pub open spec fn ensure_course(
    spec: Seq<char>,
    before: Seq<Listed>,
    installed: bool,
    after: Seq<Listed>,
    reported: bool,
) -> Seq<bool> {
    seq![is_answered(before, spec), installed, is_answered(after, spec), reported]
}

/// The listing that such a setup looks at last before it is ready.
pub open spec fn last_listing(
    spec: Seq<char>,
    before: Seq<Listed>,
    after: Seq<Listed>,
) -> Seq<Listed> {
    if is_answered(before, spec) {
        before
    } else {
        after
    }
}

/// A ready setup hands out an interpreter that answers the specification: the
/// newest such one in the listing that was looked at last.
pub proof fn law_ready_answers(
    spec: Seq<char>,
    before: Seq<Listed>,
    installed: bool,
    after: Seq<Listed>,
    reported: bool,
)
    requires
        ensure_after(ensure_course(spec, before, installed, after, reported)) is Ready,
    ensures
        exists|i: int|
            is_newest_answering(last_listing(spec, before, after), spec, i) && answers(
                version_in((#[trigger] last_listing(spec, before, after)[i]).name@),
                spec,
            ),
{
    law_ensure_outcome(ensure_course(spec, before, installed, after, reported));
    let listing = last_listing(spec, before, after);
    law_one_newest_answering(listing, spec);
    let i = choose|i: int| is_newest_answering(listing, spec, i);
    assert(answers(version_in(listing[i].name@), spec));
}

/// A changed pin is installed: where a patch is pinned and no managed
/// interpreter has that very version, the setup comes to `Install`, whatever
/// other patches are there, and becomes ready only with the pinned version.
pub proof fn law_changed_pin_is_installed(
    spec: Seq<char>,
    before: Seq<Listed>,
    installed: bool,
    after: Seq<Listed>,
    reported: bool,
)
    requires
        is_pinned(spec),
        forall|j: int|
            0 <= j < before.len() && is_managed(#[trigger] before[j]) ==> version_in(before[j].name@)
                != spec,
    ensures
        ensure_after(ensure_course(spec, before, installed, after, reported).take(1)) is Install,
        ensure_after(ensure_course(spec, before, installed, after, reported)) is Ready
            ==> installed && exists|i: int| #[trigger]
            is_newest_answering(after, spec, i) && version_in(after[i].name@) == spec,
{
    let course = ensure_course(spec, before, installed, after, reported);
    assert(!is_answered(before, spec));
    reveal_with_fuel(ensure_after, 2);
    assert(course.take(1).drop_last().len() == 0);
    law_ensure_outcome(course);
    if ensure_after(course) is Ready {
        law_one_newest_answering(after, spec);
    }
}

/// The run that installs an interpreter names the specification as it was given,
/// so different specifications are installed by different runs.
pub proof fn law_install_run_names_the_specification(spec: Seq<char>, other: Seq<char>)
    ensures
        install_python_args(spec).len() == 3,
        install_python_args(spec)[0] == ArgView::Text("python"@),
        install_python_args(spec)[1] == ArgView::Text("install"@),
        install_python_args(spec)[2] == ArgView::Text(spec),
        install_python_args(spec) == install_python_args(other) ==> spec == other,
{
    assert(install_python_args(spec)[2] == ArgView::Text(spec));
    assert(install_python_args(other)[2] == ArgView::Text(other));
}

/// What answers a specification. `X.Y` is answered by itself and by every
/// `X.Y.Z`; `X.Y.Z` is answered by itself alone where `Z` begins with a digit, and
/// by what answers `X.Y` where it does not.
pub proof fn law_what_answers(version: Seq<char>, x: Seq<char>, y: Seq<char>, z: Seq<char>)
    requires
        !x.contains('.'),
        !y.contains('.'),
        !z.contains('.'),
    ensures
        ({
            let minor = x + seq!['.'] + y;
            let patch = x + seq!['.'] + y + seq!['.'] + z;
            let of_minor = version == minor || exists|p: Seq<char>|
                !p.contains('.') && version == #[trigger] (x + seq!['.'] + y + seq!['.'] + p);
            &&& !is_pinned(minor)
            &&& is_pinned(patch) <==> z.len() > 0 && "0123456789"@.contains(z[0])
            &&& answers(version, minor) <==> of_minor
            &&& z.len() > 0 && "0123456789"@.contains(z[0]) ==> (answers(version, patch) <==> version
                == patch)
            &&& z.len() == 0 || !"0123456789"@.contains(z[0]) ==> (answers(version, patch)
                <==> of_minor)
        }),
{
    let minor = x + seq!['.'] + y;
    let patch = x + seq!['.'] + y + seq!['.'] + z;
    law_key_is_the_front(version, x, y);
    law_patch_does_not_enter_key(x, y, z);
    law_split_at_separators(x, '.', y);
    law_split_at_separators(y, '.', Seq::empty());
    assert(pieces(minor, '.').len() == 2);
    law_split_at_separators(x, '.', y + seq!['.'] + z);
    law_split_at_separators(y, '.', z);
    law_split_at_separators(z, '.', Seq::empty());
    assert(patch =~= x + seq!['.'] + (y + seq!['.'] + z));
    assert(pieces(patch, '.') =~= seq![x, y, z]);
    if z.len() > 0 {
        law_ten_digits(z[0]);
    }
}

/// No version answers a specification without a dot, or with more than two.
pub proof fn law_nothing_answers_no_version(
    version: Seq<char>,
    x: Seq<char>,
    y: Seq<char>,
    z: Seq<char>,
    rest: Seq<char>,
)
    requires
        !x.contains('.'),
        !y.contains('.'),
        !z.contains('.'),
    ensures
        !answers(version, x),
        !answers(version, x + seq!['.'] + y + seq!['.'] + z + seq!['.'] + rest),
{
    law_one_or_two_dots(x, y, z, rest);
}

/// An entry answers by the version in its name, wherever it holds a `python.exe`,
/// whatever else its name says.
pub proof fn law_entry_answers_by_its_version(
    entry: Listed,
    version: Seq<char>,
    rest: Seq<char>,
    spec: Seq<char>,
)
    requires
        !version.contains('-'),
        entry.name@ == "cpython-"@ + version || entry.name@ == "cpython-"@ + version + seq!['-']
            + rest,
    ensures
        is_answering(entry, spec) <==> entry.has_python_exe && answers(version, spec),
        is_candidate(entry, spec) <==> entry.has_python_exe && major_minor(version) == Some(spec),
{
    law_version_between_hyphens(version, rest);
    law_managed_by_name(entry, version);
    law_managed_by_name(entry, version + seq!['-'] + rest);
    assert("cpython-"@ + version + seq!['-'] + rest =~= "cpython-"@ + (version + seq!['-'] + rest));
}

/// An entry that is not named like a managed interpreter, or holds no
/// `python.exe`, answers nothing.
pub proof fn law_unmanaged_answers_nothing(entry: Listed, spec: Seq<char>)
    requires
        !entry.has_python_exe || !"cpython-"@.is_prefix_of(entry.name@),
    ensures
        !is_answering(entry, spec),
        !is_candidate(entry, spec),
{
}

/// The newest interpreter that answers has no newer one beside it that answers
/// too, and of those with its version it is the last. The same holds of the newest
/// candidate among the candidates.
pub proof fn law_nothing_newer_answers(entries: Seq<Listed>, spec: Seq<char>, i: int, j: int)
    requires
        0 <= j < entries.len(),
    ensures
        is_newest_answering(entries, spec, i) && is_answering(entries[j], spec) ==> 0 <= i
            < entries.len() && is_answering(entries[i], spec) && !older(
            version_in(entries[i].name@),
            version_in(entries[j].name@),
        ) && (version_in(entries[i].name@) == version_in(entries[j].name@) ==> j <= i),
        is_newest_candidate(entries, spec, i) && is_candidate(entries[j], spec) ==> 0 <= i
            < entries.len() && is_candidate(entries[i], spec) && !older(
            version_in(entries[i].name@),
            version_in(entries[j].name@),
        ) && (version_in(entries[i].name@) == version_in(entries[j].name@) ==> j <= i),
{
}

/// The interpreter that is found is the `python.exe` in the newest entry that
/// answers.
pub proof fn law_found_interpreter(
    exe: LocationView,
    entries: Seq<Listed>,
    spec: Seq<char>,
    i: usize,
)
    ensures
        is_newest_answering(entries, spec, i as int) ==> (is_pinned_exe(exe, entries, spec) <==> exe
            == (LocationView { base: Base::Entry(i), joins: seq!["python.exe"@] })),
        is_pinned_exe(exe, entries, spec) ==> is_answered(entries, spec),
{
    if is_newest_answering(entries, spec, i as int) {
        assert(is_answering(entries[i as int], spec));
        assert(is_answered(entries, spec));
        law_one_newest_answering(entries, spec);
    }
    if is_pinned_exe(exe, entries, spec) {
        let k = exe.base->Entry_0 as int;
        assert(is_answering(entries[k], spec));
    }
}

/// A specification is answered if and only if some entry answers it.
pub proof fn law_answered_by_an_entry(entries: Seq<Listed>, spec: Seq<char>, i: int)
    ensures
        0 <= i < entries.len() && is_answering(entries[i], spec) ==> is_answered(entries, spec),
        (forall|j: int| 0 <= j < entries.len() ==> !is_answering(#[trigger] entries[j], spec))
            ==> !is_answered(entries, spec),
{
}

} // verus!
