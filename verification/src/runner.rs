//! Toolchain descriptions, dependency resolution, and runner selection.
//!
//! A `Runner` describes how one toolchain builds and executes code: which
//! executables may serve as its interpreter or compiler (ordered candidate
//! lists, first available name wins), which languages it supports and is the
//! default for, and the setup and teardown command templates around the main
//! execution.  The probing of the search path itself happens outside; the
//! resolver here is handed the list of candidate names that are actually
//! available and picks deterministically.

use vstd::prelude::*;

use crate::codes::Codes;
use crate::template::views;

verus! {

broadcast use vstd::seq_lib::group_seq_lib_default;

/// The main executable of a resolved runner: a concrete name, or the
/// artifact produced by setup, run natively.
#[derive(Debug)]
pub enum Exe {
    Str(String),
    Native,
}

impl Exe {
    /// The executable name; empty for a native runner.
    pub fn as_str(&self) -> (r: &str)
        ensures
            r@ == (match self {
                Exe::Str(s) => s@,
                Exe::Native => Seq::<char>::empty(),
            }),
    {
        match self {
            Exe::Str(s) => s.as_str(),
            Exe::Native => {
                proof {
                    reveal_strlit("");
                }
                let e = "";
                assert(e@ =~= Seq::<char>::empty());
                e
            },
        }
    }
}

/// Which primary executable a runner will use.  A descriptor starts
/// unresolved; dependency resolution collapses it to the chosen candidate
/// index, or to native when the candidate list is empty.
#[derive(Clone, Copy, Debug, PartialEq, Eq, Structural)]
pub enum ExeChoice {
    Unresolved,
    Native,
    Chosen(usize),
}

/// The mathematical shape of a runner: every list of strings as a sequence
/// of character sequences.
#[verifier::ext_equal]
pub ghost struct RunnerModel {
    pub name: Seq<char>,
    pub extension: Seq<char>,
    pub exe: ExeChoice,
    pub exe_deps: Seq<Seq<char>>,
    pub other_deps: Seq<Seq<Seq<char>>>,
    pub supported_langs: Seq<Seq<char>>,
    pub default_for: Seq<Seq<char>>,
    pub setup: Seq<Seq<Seq<char>>>,
    pub exe_args_pre: Seq<Seq<char>>,
    pub exe_args_post: Seq<Seq<char>>,
    pub teardown: Seq<Seq<Seq<char>>>,
}

/// The views of a list of string lists.
pub open spec fn views2(ts: Seq<Vec<String>>) -> Seq<Seq<Seq<char>>> {
    ts.map_values(|v: Vec<String>| views(v@))
}

/// One toolchain description.
pub struct Runner {
    pub name: String,
    pub extension: String,
    pub exe: ExeChoice,
    pub exe_deps: Vec<String>,
    pub other_deps: Vec<Vec<String>>,
    pub supported_langs: Vec<String>,
    pub default_for: Vec<String>,
    pub setup: Vec<Vec<String>>,
    pub exe_args_pre: Vec<String>,
    pub exe_args_post: Vec<String>,
    pub teardown: Vec<Vec<String>>,
}

impl View for Runner {
    type V = RunnerModel;

    open spec fn view(&self) -> RunnerModel {
        RunnerModel {
            name: self.name@,
            extension: self.extension@,
            exe: self.exe,
            exe_deps: views(self.exe_deps@),
            other_deps: views2(self.other_deps@),
            supported_langs: views(self.supported_langs@),
            default_for: views(self.default_for@),
            setup: views2(self.setup@),
            exe_args_pre: views(self.exe_args_pre@),
            exe_args_post: views(self.exe_args_post@),
            teardown: views2(self.teardown@),
        }
    }
}

/// `list` holds the string `s`.
pub open spec fn has_str(list: Seq<Seq<char>>, s: Seq<char>) -> bool {
    exists|i: int| 0 <= i < list.len() && list[i] == s
}

/// Some candidate of `list` is available.
pub open spec fn resolvable(list: Seq<Seq<char>>, avail: Seq<Seq<char>>) -> bool {
    exists|i: int| 0 <= i < list.len() && has_str(avail, #[trigger] list[i])
}

/// `i` is the first candidate of `list` that is available.
pub open spec fn first_hit(list: Seq<Seq<char>>, avail: Seq<Seq<char>>, i: int) -> bool {
    &&& 0 <= i < list.len()
    &&& has_str(avail, list[i])
    &&& forall|j: int| 0 <= j < i ==> !has_str(avail, #[trigger] list[j])
}

/// Every auxiliary candidate group has at least one available member.
pub open spec fn groups_ok(groups: Seq<Seq<Seq<char>>>, avail: Seq<Seq<char>>) -> bool {
    forall|g: int| 0 <= g < groups.len() ==> resolvable(#[trigger] groups[g], avail)
}

/// `g` is the first auxiliary group with no available member.
pub open spec fn first_bad_group(groups: Seq<Seq<Seq<char>>>, avail: Seq<Seq<char>>, g: int) -> bool {
    &&& 0 <= g < groups.len()
    &&& !resolvable(groups[g], avail)
    &&& forall|h: int| 0 <= h < g ==> resolvable(#[trigger] groups[h], avail)
}

/// `m1` is `m0` after successful dependency resolution against `avail`.
pub open spec fn resolved_from(m1: RunnerModel, m0: RunnerModel, avail: Seq<Seq<char>>) -> bool {
    &&& m1 == RunnerModel { exe: m1.exe, ..m0 }
    &&& (m0.exe_deps.len() == 0 ==> m1.exe == ExeChoice::Native)
    &&& (m0.exe_deps.len() > 0 ==> exists|i: int|
        first_hit(m0.exe_deps, avail, i) && m1.exe == ExeChoice::Chosen(i as usize))
    &&& groups_ok(m0.other_deps, avail)
}

/// Whether `list` contains `s`, executably.
pub fn str_list_contains(list: &Vec<String>, s: &str) -> (b: bool)
    ensures
        b == has_str(views(list@), s@),
{
    let mut i: usize = 0;
    while i < list.len()
        invariant
            i <= list@.len(),
            forall|j: int| 0 <= j < i ==> views(list@)[j] != s@,
        decreases list@.len() - i,
    {
        if str_eq(list[i].as_str(), s) {
            assert(views(list@)[i as int] == s@);
            return true;
        }
        i = i + 1;
    }
    false
}

/// String equality by characters.
pub fn str_eq(a: &str, b: &str) -> (r: bool)
    ensures
        r == (a@ == b@),
{
    let n = a.unicode_len();
    let m = b.unicode_len();
    if n != m {
        return false;
    }
    let mut i: usize = 0;
    while i < n
        invariant
            i <= n,
            n == a@.len(),
            n == b@.len(),
            forall|j: int| 0 <= j < i ==> a@[j] == b@[j],
        decreases n - i,
    {
        if a.get_char(i) != b.get_char(i) {
            assert(a@ != b@) by {
                assert(a@[i as int] != b@[i as int]);
            }
            return false;
        }
        i = i + 1;
    }
    assert(a@ =~= b@);
    true
}

/// A copy of a string list; the copy's contents are the very same strings.
pub fn clone_strings(v: &Vec<String>) -> (r: Vec<String>)
    ensures
        r@ == v@,
{
    let mut r: Vec<String> = Vec::new();
    let mut i: usize = 0;
    while i < v.len()
        invariant
            i <= v@.len(),
            r@ =~= v@.take(i as int),
        decreases v@.len() - i,
    {
        r.push(v[i].clone());
        assert(r@ =~= v@.take(i + 1));
        i = i + 1;
    }
    assert(v@.take(v@.len() as int) =~= v@);
    r
}

/// A copy of a list of string lists, equal at the level of views.
pub fn clone_string_lists(v: &Vec<Vec<String>>) -> (r: Vec<Vec<String>>)
    ensures
        views2(r@) == views2(v@),
{
    let mut r: Vec<Vec<String>> = Vec::new();
    let mut i: usize = 0;
    while i < v.len()
        invariant
            i <= v@.len(),
            r@.len() == i,
            forall|j: int| 0 <= j < i ==> #[trigger] r@[j]@ == v@[j]@,
        decreases v@.len() - i,
    {
        r.push(clone_strings(&v[i]));
        i = i + 1;
    }
    assert(views2(r@) =~= views2(v@));
    r
}

impl Runner {
    /// A copy of this runner, equal to it in the model.
    pub fn duplicate(&self) -> (r: Runner)
        ensures
            r@ == self@,
    {
        let r = Runner {
            name: self.name.clone(),
            extension: self.extension.clone(),
            exe: self.exe,
            exe_deps: clone_strings(&self.exe_deps),
            other_deps: clone_string_lists(&self.other_deps),
            supported_langs: clone_strings(&self.supported_langs),
            default_for: clone_strings(&self.default_for),
            setup: clone_string_lists(&self.setup),
            exe_args_pre: clone_strings(&self.exe_args_pre),
            exe_args_post: clone_strings(&self.exe_args_post),
            teardown: clone_string_lists(&self.teardown),
        };
        assert(r@ =~= self@);
        r
    }

    /// The main executable according to the stored choice: native runners
    /// must declare no leading arguments, and a chosen index must be in
    /// range; each violation is an internal (configuration) error.
    pub fn get_exe(&self) -> (r: Result<Exe, Codes>)
        ensures
            match self.exe {
                ExeChoice::Native => {
                    if self.exe_args_pre@.len() == 0 {
                        r matches Ok(e) && e is Native
                    } else {
                        r == Err::<Exe, Codes>(Codes::InternalError)
                    }
                },
                ExeChoice::Chosen(i) => {
                    if i < self.exe_deps@.len() {
                        r matches Ok(e) && (e matches Exe::Str(s) && s@ == self@.exe_deps[i as int])
                    } else {
                        r == Err::<Exe, Codes>(Codes::InternalError)
                    }
                },
                ExeChoice::Unresolved => r == Err::<Exe, Codes>(Codes::InternalError),
            },
    {
        match self.exe {
            ExeChoice::Native => {
                if self.exe_args_pre.len() != 0 {
                    Err(Codes::InternalError)
                } else {
                    Ok(Exe::Native)
                }
            },
            ExeChoice::Chosen(i) => {
                if i < self.exe_deps.len() {
                    Ok(Exe::Str(self.exe_deps[i].clone()))
                } else {
                    Err(Codes::InternalError)
                }
            },
            ExeChoice::Unresolved => Err(Codes::InternalError),
        }
    }

    /// The first candidate of `list` that is among the available names.
    pub fn check_dep_list(list: &Vec<String>, avail: &Vec<String>) -> (r: Option<usize>)
        ensures
            match r {
                Some(i) => first_hit(views(list@), views(avail@), i as int),
                None => !resolvable(views(list@), views(avail@)),
            },
    {
        let mut i: usize = 0;
        while i < list.len()
            invariant
                i <= list@.len(),
                forall|j: int| 0 <= j < i ==> !has_str(views(avail@), #[trigger] views(list@)[j]),
            decreases list@.len() - i,
        {
            if str_list_contains(avail, list[i].as_str()) {
                assert(views(list@)[i as int] == list@[i as int]@);
                return Some(i);
            }
            i = i + 1;
        }
        None
    }

    /// Resolve this runner's dependencies against the available names:
    /// collapse the primary candidate list to its first available member
    /// (or to native when the list is empty), and check that every
    /// auxiliary group has at least one available member.  On failure the
    /// first candidate list with no available member is returned.
    pub fn check_deps(&mut self, avail: &Vec<String>) -> (r: Result<(), Vec<String>>)
        ensures
            ({
                let m0 = old(self)@;
                let m1 = final(self)@;
                let av = views(avail@);
                &&& m1 == RunnerModel { exe: m1.exe, ..m0 }
                &&& if m0.exe_deps.len() > 0 && !resolvable(m0.exe_deps, av) {
                    &&& r matches Err(l) && views(l@) == m0.exe_deps
                    &&& m1.exe == m0.exe
                } else {
                    &&& (m0.exe_deps.len() == 0 ==> m1.exe == ExeChoice::Native)
                    &&& (m0.exe_deps.len() > 0 ==> exists|i: int|
                        first_hit(m0.exe_deps, av, i) && m1.exe == ExeChoice::Chosen(i as usize))
                    &&& if groups_ok(m0.other_deps, av) {
                        r is Ok
                    } else {
                        r matches Err(l) && exists|g: int|
                            first_bad_group(m0.other_deps, av, g) && views(l@) == m0.other_deps[g]
                    }
                }
            }),
    {
        if self.exe_deps.len() == 0 {
            self.exe = ExeChoice::Native;
        } else {
            match Self::check_dep_list(&self.exe_deps, avail) {
                Some(i) => {
                    self.exe = ExeChoice::Chosen(i);
                },
                None => {
                    return Err(clone_strings(&self.exe_deps));
                },
            }
        }
        let ghost m0 = old(self)@;
        let ghost av = views(avail@);
        let mut g: usize = 0;
        while g < self.other_deps.len()
            invariant
                g <= self.other_deps@.len(),
                m0 == old(self)@,
                self@ == (RunnerModel { exe: self@.exe, ..m0 }),
                m0.exe_deps.len() == 0 ==> self@.exe == ExeChoice::Native,
                m0.exe_deps.len() > 0 ==> exists|i: int|
                    first_hit(m0.exe_deps, av, i) && self@.exe == ExeChoice::Chosen(i as usize),
                av == views(avail@),
                forall|h: int| 0 <= h < g ==> resolvable(#[trigger] m0.other_deps[h], av),
            decreases self.other_deps@.len() - g,
        {
            match Self::check_dep_list(&self.other_deps[g], avail) {
                Some(_) => {},
                None => {
                    let l = clone_strings(&self.other_deps[g]);
                    proof {
                        if m0.exe_deps.len() > 0 {
                            let i = choose|i: int|
                                first_hit(m0.exe_deps, av, i) && self@.exe == ExeChoice::Chosen(
                                    i as usize,
                                );
                            assert(has_str(av, m0.exe_deps[i]));
                            assert(resolvable(m0.exe_deps, av));
                        }
                        assert(views(self.other_deps@[g as int]@) == m0.other_deps[g as int]);
                        assert(first_bad_group(m0.other_deps, av, g as int));
                        assert(!groups_ok(m0.other_deps, av));
                        assert(views(l@) == m0.other_deps[g as int]);
                        assert(exists|gg: int|
                            first_bad_group(m0.other_deps, av, gg) && views(l@) == m0.other_deps[gg]);
                    }
                    return Err(l);
                },
            }
            assert(resolvable(m0.other_deps[g as int], av));
            g = g + 1;
        }
        Ok(())
    }
}

} // verus!
