//! The top-level decision: what one invocation of the tool should do.
//!
//! Given the request (language, optional explicit runner, listing mode)
//! and the loaded registries, `program` either picks a listing to show,
//! or resolves the language, selects and resolves the runner, and fetches
//! the default snippet — producing the plan the surrounding binary then
//! carries out: write the scratch file, open the editor, and drive the
//! pipeline.

use vstd::prelude::*;

use crate::codes::Codes;
use crate::lang::{determine_lang, get_snippet, first_entry, lang_unknown, resolves_lang, table_has, KeyVal};
use crate::registry::{determine_spec, DetermineError, Runners};
use crate::runner::Runner;
use crate::template::views;

verus! {

/// Which listing the user asked for, if any.
#[derive(Clone, Copy, Debug, PartialEq, Eq, Structural)]
pub enum List {
    Nothing,
    Langs,
    Aliases,
    Runners,
}

/// One invocation's request, as plain values.
pub struct Request {
    pub lang: String,
    pub runner: Option<String>,
    pub list: List,
}

/// Everything needed to carry one run out: the canonical language, the
/// resolved runner, and the default snippet for a fresh scratch file.
pub struct Plan {
    pub lang: String,
    pub runner: Runner,
    pub snippet: String,
}

/// What the invocation should do: show a listing (for the resolved
/// language, which may be empty) and stop, or execute a plan.
pub enum Action {
    Show(List, String),
    Execute(Plan),
}

/// Why no action could be decided.
pub enum ProgramError {
    /// No language was given outside a listing request; the caller should
    /// have rejected this as an argument error already.
    EmptyLanguage,
    /// The name is neither a known language nor an alias.
    UnknownLanguage,
    /// Runner selection failed.
    Selection(DetermineError),
    /// The resolved language has no default snippet.
    NoSnippet,
}

impl ProgramError {
    /// The exit code this failure surfaces as.
    pub fn code(&self) -> (r: Codes)
        ensures
            r == (match self {
                ProgramError::EmptyLanguage => Codes::InternalError,
                ProgramError::UnknownLanguage => Codes::LanguageError,
                ProgramError::Selection(e) => match e {
                    DetermineError::UnknownRunner => Codes::RunnerError,
                    DetermineError::NotForLanguage => Codes::RunnerError,
                    DetermineError::NoDefault => Codes::InternalError,
                    DetermineError::MissingDeps(l) => if l@.len() == 0 {
                        Codes::InternalError
                    } else {
                        Codes::DependencyError
                    },
                },
                ProgramError::NoSnippet => Codes::InternalError,
            }),
    {
        match self {
            ProgramError::EmptyLanguage => Codes::InternalError,
            ProgramError::UnknownLanguage => Codes::LanguageError,
            ProgramError::Selection(e) => e.code(),
            ProgramError::NoSnippet => Codes::InternalError,
        }
    }
}

/// The requested runner name, viewed.
pub open spec fn req_runner_view(req: &Request) -> Option<Seq<char>> {
    match req.runner {
        Some(s) => Some(s@),
        None => None,
    }
}

/// Decide what this invocation does.
///
/// The language is resolved first, so an unknown language fails even a
/// listing request; a listing request then stops the run before any
/// runner is selected.  Otherwise the runner is selected and resolved
/// and the snippet fetched, in that order, each failure surfacing as its
/// own error.
pub fn program(
    req: &Request,
    langs: &Vec<String>,
    aliases: &Vec<KeyVal>,
    snippets: &Vec<KeyVal>,
    runners: &Runners,
    avail: &Vec<String>,
) -> (r: Result<Action, ProgramError>)
    ensures
        ({
            let lv = req.lang@;
            let ls = views(langs@);
            let listing = req.list != List::Nothing;
            match r {
                Ok(a) => match a {
                    Action::Show(k, l) => listing && k == req.list && resolves_lang(
                        lv,
                        true,
                        ls,
                        aliases@,
                        l@,
                    ),
                    Action::Execute(plan) => {
                        &&& !listing
                        &&& resolves_lang(lv, false, ls, aliases@, plan.lang@)
                        &&& determine_spec(
                            runners@,
                            req_runner_view(req),
                            plan.lang@,
                            views(avail@),
                            Ok(plan.runner),
                        )
                        &&& exists|i: int|
                            #[trigger] first_entry(snippets@, plan.lang@, i) && plan.snippet@
                                == snippets@[i].val@
                    },
                },
                Err(e) => match e {
                    ProgramError::EmptyLanguage => lv.len() == 0 && !listing,
                    ProgramError::UnknownLanguage => lang_unknown(lv, ls, aliases@),
                    ProgramError::Selection(de) => !listing && exists|cv: Seq<char>|
                        #[trigger] resolves_lang(lv, false, ls, aliases@, cv) && determine_spec(
                            runners@,
                            req_runner_view(req),
                            cv,
                            views(avail@),
                            Err(de),
                        ),
                    ProgramError::NoSnippet => !listing && exists|cv: Seq<char>|
                        #[trigger] resolves_lang(lv, false, ls, aliases@, cv) && !table_has(
                            snippets@,
                            cv,
                        ),
                },
            }
        }),
{
    let listing = !matches!(req.list, List::Nothing);
    let lang = match determine_lang(&req.lang, listing, langs, aliases) {
        Ok(l) => l,
        Err(c) => {
            if matches!(c, Codes::InternalError) {
                return Err(ProgramError::EmptyLanguage);
            } else {
                return Err(ProgramError::UnknownLanguage);
            }
        },
    };
    if listing {
        return Ok(Action::Show(req.list, lang));
    }
    let runner = match runners.determine(req.runner.as_ref(), lang.as_str(), avail) {
        Ok(rr) => rr,
        Err(e) => {
            proof {
                assert(resolves_lang(req.lang@, false, views(langs@), aliases@, lang@));
            }
            return Err(ProgramError::Selection(e));
        },
    };
    let snippet = match get_snippet(snippets, lang.as_str()) {
        Ok(s) => s,
        Err(_) => {
            proof {
                assert(resolves_lang(req.lang@, false, views(langs@), aliases@, lang@));
            }
            return Err(ProgramError::NoSnippet);
        },
    };
    Ok(Action::Execute(Plan { lang, runner, snippet }))
}

} // verus!
