//! The runner registry: lookup by name, default-runner lookup by language,
//! and the selection that produces a resolved runner for one invocation.
//!
//! Lookup is permissive, first match in registration order; the constructor
//! nevertheless validates that no two runners claim the same language as
//! their default, so a shadowed default is a configuration error caught up
//! front rather than silently resolved.

use vstd::prelude::*;

use crate::codes::Codes;
use crate::runner::{
    first_bad_group, has_str, resolvable, resolved_from, Runner, RunnerModel,
};
use crate::template::views;

verus! {

broadcast use vstd::seq_lib::group_seq_lib_default;

/// The models of a list of runners.
pub open spec fn models(rs: Seq<Runner>) -> Seq<RunnerModel> {
    rs.map_values(|r: Runner| r@)
}

/// `i` is the first runner with this name.
pub open spec fn first_named(ms: Seq<RunnerModel>, name: Seq<char>, i: int) -> bool {
    &&& 0 <= i < ms.len()
    &&& ms[i].name == name
    &&& forall|j: int| 0 <= j < i ==> (#[trigger] ms[j]).name != name
}

/// `i` is the first runner registered as the default for this language.
pub open spec fn first_default(ms: Seq<RunnerModel>, lang: Seq<char>, i: int) -> bool {
    &&& 0 <= i < ms.len()
    &&& has_str(ms[i].default_for, lang)
    &&& forall|j: int| 0 <= j < i ==> !has_str((#[trigger] ms[j]).default_for, lang)
}

/// The two lists have a string in common.
pub open spec fn shares(a: Seq<Seq<char>>, b: Seq<Seq<char>>) -> bool {
    exists|i: int| 0 <= i < a.len() && has_str(b, #[trigger] a[i])
}

/// No language is claimed as default by two different runners.
pub open spec fn defaults_disjoint(ms: Seq<RunnerModel>) -> bool {
    forall|i: int, j: int|
        0 <= i < j < ms.len() ==> !shares(
            (#[trigger] ms[i]).default_for,
            (#[trigger] ms[j]).default_for,
        )
}

/// The runner the registry picks for this request: the first one with the
/// requested name, provided it supports the language, or, with no explicit
/// request, the first one registered as the language's default.
pub open spec fn picked(
    ms: Seq<RunnerModel>,
    user: Option<Seq<char>>,
    lang: Seq<char>,
    i: int,
) -> bool {
    match user {
        Some(nm) => first_named(ms, nm, i) && has_str(ms[i].supported_langs, lang),
        None => first_default(ms, lang, i),
    }
}

/// `l` is the candidate list whose failure made dependency resolution of
/// `m` fail: the primary list with no available member, or else the first
/// such auxiliary group.
pub open spec fn dep_failure(m: RunnerModel, av: Seq<Seq<char>>, l: Seq<Seq<char>>) -> bool {
    ||| (m.exe_deps.len() > 0 && !resolvable(m.exe_deps, av) && l == m.exe_deps)
    ||| ((m.exe_deps.len() == 0 || resolvable(m.exe_deps, av)) && exists|g: int|
        first_bad_group(m.other_deps, av, g) && l == m.other_deps[g])
}

/// Why no runner could be selected.
#[derive(Debug)]
pub enum DetermineError {
    /// No runner of the requested name exists.
    UnknownRunner,
    /// The requested runner exists but does not support the language.
    NotForLanguage,
    /// No runner is registered as the language's default.
    NoDefault,
    /// The selected runner misses a dependency: no name of the carried
    /// candidate list is available.
    MissingDeps(Vec<String>),
}

impl DetermineError {
    /// The exit code this failure surfaces as.  An empty candidate list
    /// can never miss a dependency, so that case is a configuration error.
    pub fn code(&self) -> (r: Codes)
        ensures
            r == (match self {
                DetermineError::UnknownRunner => Codes::RunnerError,
                DetermineError::NotForLanguage => Codes::RunnerError,
                DetermineError::NoDefault => Codes::InternalError,
                DetermineError::MissingDeps(l) => if l@.len() == 0 {
                    Codes::InternalError
                } else {
                    Codes::DependencyError
                },
            }),
    {
        match self {
            DetermineError::UnknownRunner => Codes::RunnerError,
            DetermineError::NotForLanguage => Codes::RunnerError,
            DetermineError::NoDefault => Codes::InternalError,
            DetermineError::MissingDeps(l) => {
                if l.len() == 0 {
                    Codes::InternalError
                } else {
                    Codes::DependencyError
                }
            },
        }
    }
}

/// The names a missing-dependency report lists, joined by `" or "`.
pub open spec fn join_or_model(l: Seq<Seq<char>>) -> Seq<char> {
    if l.len() == 0 {
        Seq::empty()
    } else {
        l[0] + join_or_rest(l.skip(1))
    }
}

/// The tail of the report: each further name preceded by `" or "`.
pub open spec fn join_or_rest(l: Seq<Seq<char>>) -> Seq<char>
    decreases l.len(),
{
    if l.len() == 0 {
        Seq::empty()
    } else {
        " or "@ + l[0] + join_or_rest(l.skip(1))
    }
}

/// The candidate names joined by `" or "`, for the missing-dependency
/// message.
pub fn join_or(deps: &Vec<String>) -> (r: String)
    ensures
        r@ == join_or_model(views(deps@)),
{
    let ghost l = views(deps@);
    let mut out = String::new();
    if deps.len() == 0 {
        return out;
    }
    out.append(deps[0].as_str());
    assert(out@ =~= l[0]);
    let mut i: usize = 1;
    while i < deps.len()
        invariant
            1 <= i <= deps@.len(),
            l == views(deps@),
            out@ + join_or_rest(l.skip(i as int)) == join_or_model(l),
        decreases deps@.len() - i,
    {
        let ghost out0 = out@;
        out.append(" or ");
        out.append(deps[i].as_str());
        assert(out@ =~= out0 + (" or "@ + l[i as int]));
        assert(l.skip(i as int)[0] == l[i as int]);
        assert(l.skip(i as int).skip(1) =~= l.skip(i + 1));
        assert(join_or_rest(l.skip(i as int)) == " or "@ + l[i as int] + join_or_rest(
            l.skip(i + 1),
        ));
        assert(out@ + join_or_rest(l.skip(i + 1)) =~= out0 + join_or_rest(l.skip(i as int)));
        i = i + 1;
    }
    assert(l.skip(i as int) =~= Seq::<Seq<char>>::empty());
    assert(out@ + join_or_rest(l.skip(i as int)) =~= out@);
    out
}

/// Whether the two lists have a string in common, executably.
fn shares_any(a: &Vec<String>, b: &Vec<String>) -> (r: bool)
    ensures
        r == shares(views(a@), views(b@)),
{
    let mut i: usize = 0;
    while i < a.len()
        invariant
            i <= a@.len(),
            forall|j: int| 0 <= j < i ==> !has_str(views(b@), #[trigger] views(a@)[j]),
        decreases a@.len() - i,
    {
        if crate::runner::str_list_contains(b, a[i].as_str()) {
            assert(views(a@)[i as int] == a@[i as int]@);
            return true;
        }
        i = i + 1;
    }
    false
}

/// The registry of every known runner, in registration order.
pub struct Runners {
    pub runners: Vec<Runner>,
}

impl View for Runners {
    type V = Seq<RunnerModel>;

    open spec fn view(&self) -> Seq<RunnerModel> {
        models(self.runners@)
    }
}

impl Runners {
    /// Build the registry, rejecting a configuration in which two runners
    /// claim the same language as their default.
    pub fn new(runners: Vec<Runner>) -> (r: Result<Runners, Codes>)
        ensures
            match r {
                Ok(rs) => rs@ == models(runners@) && defaults_disjoint(models(runners@)),
                Err(c) => c == Codes::InternalError && !defaults_disjoint(models(runners@)),
            },
    {
        let ghost ms = models(runners@);
        let n = runners.len();
        let mut i: usize = 0;
        while i < n
            invariant
                i <= n,
                n == runners@.len(),
                ms == models(runners@),
                forall|i0: int, j0: int|
                    0 <= i0 < i && i0 < j0 < n ==> !shares(
                        (#[trigger] ms[i0]).default_for,
                        (#[trigger] ms[j0]).default_for,
                    ),
            decreases n - i,
        {
            let mut j: usize = i + 1;
            while j < n
                invariant
                    i < j <= n,
                    n == runners@.len(),
                    ms == models(runners@),
                    forall|j0: int|
                        i < j0 < j ==> !shares(ms[i as int].default_for, (#[trigger] ms[j0]).default_for),
                decreases n - j,
            {
                if shares_any(&runners[i].default_for, &runners[j].default_for) {
                    assert(shares(ms[i as int].default_for, ms[j as int].default_for));
                    assert(!defaults_disjoint(ms));
                    return Err(Codes::InternalError);
                }
                j = j + 1;
            }
            i = i + 1;
        }
        assert(defaults_disjoint(ms));
        Ok(Runners { runners })
    }

    /// The first runner with this name: absent entirely, or present and
    /// supporting (or not supporting) the language.
    pub fn get<'a>(&'a self, name: &str, lang: &str) -> (r: Option<Result<&'a Runner, Codes>>)
        ensures
            match r {
                None => forall|i: int| 0 <= i < self@.len() ==> (#[trigger] self@[i]).name != name@,
                Some(rr) => match rr {
                    Ok(run) => exists|i: int|
                        #[trigger] first_named(self@, name@, i) && run@ == self@[i] && has_str(
                            self@[i].supported_langs,
                            lang@,
                        ),
                    Err(c) => c == Codes::RunnerError && exists|i: int|
                        #[trigger] first_named(self@, name@, i) && !has_str(
                            self@[i].supported_langs,
                            lang@,
                        ),
                },
            },
    {
        let mut i: usize = 0;
        while i < self.runners.len()
            invariant
                i <= self@.len(),
                self@.len() == self.runners@.len(),
                forall|j: int| 0 <= j < i ==> (#[trigger] self@[j]).name != name@,
            decreases self@.len() - i,
        {
            if crate::runner::str_eq(self.runners[i].name.as_str(), name) {
                assert(first_named(self@, name@, i as int));
                if crate::runner::str_list_contains(&self.runners[i].supported_langs, lang) {
                    return Some(Ok(&self.runners[i]));
                } else {
                    return Some(Err(Codes::RunnerError));
                }
            }
            i = i + 1;
        }
        None
    }

    /// The first runner registered as the default for this language; its
    /// absence is a configuration defect.
    pub fn runner_for_lang<'a>(&'a self, lang: &str) -> (r: Result<&'a Runner, Codes>)
        ensures
            match r {
                Ok(run) => exists|i: int| #[trigger] first_default(self@, lang@, i) && run@ == self@[i],
                Err(c) => c == Codes::InternalError && forall|i: int|
                    0 <= i < self@.len() ==> !has_str((#[trigger] self@[i]).default_for, lang@),
            },
    {
        let mut i: usize = 0;
        while i < self.runners.len()
            invariant
                i <= self@.len(),
                self@.len() == self.runners@.len(),
                forall|j: int| 0 <= j < i ==> !has_str((#[trigger] self@[j]).default_for, lang@),
            decreases self@.len() - i,
        {
            if crate::runner::str_list_contains(&self.runners[i].default_for, lang) {
                assert(first_default(self@, lang@, i as int));
                return Ok(&self.runners[i]);
            }
            i = i + 1;
        }
        Err(Codes::InternalError)
    }

    /// Select and resolve the runner for one invocation: validate an
    /// explicit choice, or look the language's default up, then resolve
    /// its dependencies against the available names.
    pub fn determine(&self, user_runner: Option<&String>, lang: &str, avail: &Vec<String>) -> (r:
        Result<Runner, DetermineError>)
        ensures
            determine_spec(self@, user_view(user_runner), lang@, views(avail@), r),
    {
        let ghost uv = user_view(user_runner);
        let picked_runner: &Runner = match user_runner {
            Some(name) => {
                match self.get(name.as_str(), lang) {
                    Some(Ok(r)) => {
                        proof {
                            let i = choose|i: int|
                                #[trigger] first_named(self@, name@, i) && r@ == self@[i]
                                    && has_str(self@[i].supported_langs, lang@);
                            assert(picked(self@, uv, lang@, i) && r@ == self@[i]);
                        }
                        r
                    },
                    Some(Err(_)) => {
                        proof {
                            assert(user_view(user_runner) == Some(name@));
                            let i = choose|i: int|
                                #[trigger] first_named(self@, name@, i) && !has_str(
                                    self@[i].supported_langs,
                                    lang@,
                                );
                            assert(first_named(self@, name@, i) && !has_str(
                                self@[i].supported_langs,
                                lang@,
                            ));
                            assert(exists|j: int|
                                #[trigger] first_named(self@, name@, j) && !has_str(
                                    self@[j].supported_langs,
                                    lang@,
                                ));
                            assert(match user_view(user_runner) {
                                Some(nm) => nm == name@,
                                None => false,
                            });
                            assert(match user_view(user_runner) {
                                Some(nm) => exists|j: int|
                                    #[trigger] first_named(self@, nm, j) && !has_str(
                                        self@[j].supported_langs,
                                        lang@,
                                    ),
                                None => false,
                            });
                        }
                        return Err(DetermineError::NotForLanguage);
                    },
                    None => {
                        return Err(DetermineError::UnknownRunner);
                    },
                }
            },
            None => {
                match self.runner_for_lang(lang) {
                    Ok(r) => {
                        proof {
                            let i = choose|i: int|
                                #[trigger] first_default(self@, lang@, i) && r@ == self@[i];
                            assert(picked(self@, uv, lang@, i) && r@ == self@[i]);
                        }
                        r
                    },
                    Err(_) => {
                        return Err(DetermineError::NoDefault);
                    },
                }
            },
        };
        assert(exists|i: int| #[trigger] picked(self@, uv, lang@, i) && picked_runner@ == self@[i]);
        let mut resolved = picked_runner.duplicate();
        let ghost m0 = resolved@;
        let ghost av = views(avail@);
        match resolved.check_deps(avail) {
            Ok(()) => {
                proof {
                    let i = choose|i: int|
                        #[trigger] picked(self@, uv, lang@, i) && m0 == self@[i];
                    assert(resolved_from(resolved@, self@[i], av));
                }
                Ok(resolved)
            },
            Err(l) => {
                proof {
                    let i = choose|i: int|
                        #[trigger] picked(self@, uv, lang@, i) && m0 == self@[i];
                    assert(dep_failure(self@[i], av, views(l@)));
                }
                Err(DetermineError::MissingDeps(l))
            },
        }
    }
}

/// The requested runner name, viewed.
pub open spec fn user_view(user_runner: Option<&String>) -> Option<Seq<char>> {
    match user_runner {
        Some(s) => Some(s@),
        None => None,
    }
}

/// What selection returns, for a registry `ms`, an optional requested
/// runner name `user`, a language, and the available executable names:
/// the resolved copy of the picked runner, or the reason none could be
/// selected.
pub open spec fn determine_spec(
    ms: Seq<RunnerModel>,
    user: Option<Seq<char>>,
    lang: Seq<char>,
    av: Seq<Seq<char>>,
    r: Result<Runner, DetermineError>,
) -> bool {
    match r {
        Ok(run) => exists|i: int|
            #[trigger] picked(ms, user, lang, i) && resolved_from(run@, ms[i], av),
        Err(e) => match e {
            DetermineError::UnknownRunner => match user {
                Some(nm) => forall|i: int| 0 <= i < ms.len() ==> (#[trigger] ms[i]).name != nm,
                None => false,
            },
            DetermineError::NotForLanguage => match user {
                Some(nm) => exists|i: int|
                    #[trigger] first_named(ms, nm, i) && !has_str(ms[i].supported_langs, lang),
                None => false,
            },
            DetermineError::NoDefault => user is None && forall|i: int|
                0 <= i < ms.len() ==> !has_str((#[trigger] ms[i]).default_for, lang),
            DetermineError::MissingDeps(l) => exists|i: int|
                #[trigger] picked(ms, user, lang, i) && dep_failure(ms[i], av, views(l@)),
        },
    }
}

} // verus!
