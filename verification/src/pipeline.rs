//! The templated command-pipeline executor, as a state machine.
//!
//! One invocation runs three sequential phases: every setup command in
//! order (the last one with the user's compiler arguments appended), then
//! the main execution — the artifact captured during setup, or the source
//! file itself — and finally every teardown command.  A failing setup or
//! teardown command aborts the run with `CodeError`; a failing main
//! execution is deliberately swallowed so that teardown still gets to
//! clean up.
//!
//! Spawning processes is the caller's business.  The caller asks
//! `next_command` for the next command line to run, runs it, and hands the
//! verdict back through `report`; the decisions in between are made — and
//! proved — here.

use vstd::prelude::*;

use crate::codes::Codes;
use crate::runner::{ExeChoice, Runner};
use crate::template::{subst_list_model, views, Conf, Rep};

verus! {

broadcast use vstd::seq_lib::group_seq_lib_default;

/// Where the pipeline stands: the next setup command, the main execution,
/// the next teardown command, or nothing left to run.
#[derive(Clone, Copy, Debug, PartialEq, Eq, Structural)]
pub enum Phase {
    Setup(usize),
    Main,
    Teardown(usize),
    Done,
}

/// What the caller should do next: run a command (and report back how it
/// went), print a swallowed mid-pipeline error and carry on, or stop.
///
/// The second field of `Run` is how many leading tokens of the command
/// line a failure report prints: the trailing program arguments of the
/// main execution are not echoed.
#[derive(Debug)]
pub enum Step {
    Run(Vec<String>, usize),
    Skip(Codes),
    Finished,
}

/// One pipeline invocation: a resolved runner, the substitution context
/// built from the source file and the synthesized output path, and the
/// phase reached so far.
#[verifier::ext_equal]
pub struct Pipeline {
    pub runner: Runner,
    pub conf: Conf,
    pub out_name: String,
    pub compiler_args: Vec<String>,
    pub prog_args: Vec<String>,
    pub source_file: String,
    pub phase: Phase,
}

impl Pipeline {
    /// A phase index never points past its command list.
    pub open spec fn wf(&self) -> bool {
        match self.phase {
            Phase::Setup(i) => i < self.runner@.setup.len(),
            Phase::Teardown(j) => j < self.runner@.teardown.len(),
            _ => true,
        }
    }
}

/// `p` with another phase, everything else untouched.
pub open spec fn with_phase(p: Pipeline, ph: Phase) -> Pipeline {
    Pipeline { phase: ph, ..p }
}

/// The phase that follows the main execution: teardown if there is any,
/// otherwise the end.
pub open spec fn teardown_start(p: Pipeline) -> Phase {
    if p.runner@.teardown.len() > 0 {
        Phase::Teardown(0)
    } else {
        Phase::Done
    }
}

/// The pipeline after a command's verdict is reported, with the overall
/// error if the verdict aborts the run.  A failing setup or teardown
/// command ends the run with `CodeError`; the main execution's verdict is
/// swallowed, so teardown follows either way; a finished pipeline absorbs
/// any further report.
pub open spec fn report_result(p: Pipeline, success: bool) -> (Pipeline, Result<(), Codes>) {
    match p.phase {
        Phase::Setup(i) => {
            if !success {
                (with_phase(p, Phase::Done), Err(Codes::CodeError))
            } else if i + 1 < p.runner@.setup.len() {
                (with_phase(p, Phase::Setup((i + 1) as usize)), Ok(()))
            } else {
                (with_phase(p, Phase::Main), Ok(()))
            }
        },
        Phase::Main => (with_phase(p, teardown_start(p)), Ok(())),
        Phase::Teardown(j) => {
            if !success {
                (with_phase(p, Phase::Done), Err(Codes::CodeError))
            } else if j + 1 < p.runner@.teardown.len() {
                (with_phase(p, Phase::Teardown((j + 1) as usize)), Ok(()))
            } else {
                (with_phase(p, Phase::Done), Ok(()))
            }
        },
        Phase::Done => (p, Ok(())),
    }
}

/// The tokens of setup command `i`: the command's own template, with the
/// user's compiler arguments appended to the last command.
pub open spec fn setup_tokens(p: Pipeline, i: int) -> Seq<Seq<char>> {
    if i + 1 == p.runner@.setup.len() {
        p.runner@.setup[i] + views(p.compiler_args@)
    } else {
        p.runner@.setup[i]
    }
}

/// What the main execution runs: the artifact captured during setup, or
/// the source file when nothing was captured.
pub open spec fn main_target(p: Pipeline) -> Seq<char> {
    if p.out_name@.len() > 0 {
        p.out_name@
    } else {
        p.source_file@
    }
}

/// The main execution's command line is well defined: a native runner
/// declares no leading arguments, and a chosen executable index is in
/// range.
pub open spec fn main_ok(p: Pipeline) -> bool {
    match p.runner.exe {
        ExeChoice::Native => p.runner@.exe_args_pre.len() == 0,
        ExeChoice::Chosen(i) => i < p.runner@.exe_deps.len(),
        ExeChoice::Unresolved => false,
    }
}

/// The main execution's command line: the chosen executable (none for a
/// native runner), the declared leading arguments, the target, the
/// declared trailing arguments, and the user's program arguments.
pub open spec fn main_argv_model(p: Pipeline) -> Seq<Seq<char>> {
    match p.runner.exe {
        ExeChoice::Native => seq![main_target(p)] + p.runner@.exe_args_post + views(p.prog_args@),
        ExeChoice::Chosen(i) => seq![p.runner@.exe_deps[i as int]] + p.runner@.exe_args_pre + seq![
            main_target(p),
        ] + p.runner@.exe_args_post + views(p.prog_args@),
        ExeChoice::Unresolved => Seq::empty(),
    }
}

/// Everything of the pipeline but its phase and captured output name.
pub open spec fn same_core(a: Pipeline, b: Pipeline) -> bool {
    a == (Pipeline { phase: a.phase, out_name: a.out_name, ..b })
}

impl Pipeline {
    /// A fresh invocation for a resolved runner: the substitution context
    /// maps the input-file marker to the source file and the output-file
    /// marker — the output producer — to the synthesized output path.
    pub fn new(
        runner: Runner,
        source_file: String,
        out_file: String,
        compiler_args: Vec<String>,
        prog_args: Vec<String>,
    ) -> (p: Pipeline)
        ensures
            p.wf(),
            p.runner == runner,
            p.conf.entries@.len() == 2,
            p.conf.entries@[0].key@ == "%INPUT_FILE%"@,
            p.conf.entries@[0].rep.string@ == source_file@,
            !p.conf.entries@[0].rep.is_out,
            p.conf.entries@[1].key@ == "%OUTPUT_FILE%"@,
            p.conf.entries@[1].rep.string@ == out_file@,
            p.conf.entries@[1].rep.is_out,
            p.out_name@ == Seq::<char>::empty(),
            p.compiler_args == compiler_args,
            p.prog_args == prog_args,
            p.source_file == source_file,
            p.phase == (if runner@.setup.len() > 0 {
                Phase::Setup(0)
            } else {
                Phase::Main
            }),
    {
        let mut conf = Conf::new();
        conf.add("%INPUT_FILE%", Rep::new(source_file.as_str()));
        conf.add("%OUTPUT_FILE%", Rep::out(out_file.as_str()));
        let phase = if runner.setup.len() > 0 {
            Phase::Setup(0)
        } else {
            Phase::Main
        };
        Pipeline {
            runner,
            conf,
            out_name: String::new(),
            compiler_args,
            prog_args,
            source_file,
            phase,
        }
    }

    /// The command the current phase calls for.
    ///
    /// Setup and teardown commands are materialized through the template
    /// context, updating the captured output name as a side effect; an
    /// empty command aborts the run as a configuration error.  The main
    /// command is built from the resolved executable and the target; a
    /// misdeclared main command is reported and skipped, so that teardown
    /// still runs.
    pub fn next_command(&mut self) -> (r: Result<Step, Codes>)
        requires
            old(self).wf(),
        ensures
            final(self).wf(),
            same_core(*final(self), *old(self)),
            match old(self).phase {
                Phase::Done => r matches Ok(s) && s is Finished && *final(self) == *old(self),
                Phase::Setup(i) => {
                    let toks = setup_tokens(*old(self), i as int);
                    if toks.len() == 0 {
                        &&& r == Err::<Step, Codes>(Codes::InternalError)
                        &&& final(self).phase is Done
                        &&& final(self).out_name == old(self).out_name
                    } else {
                        let (argvs, cap) = subst_list_model(
                            toks,
                            old(self).conf.entries@,
                            old(self).out_name@,
                        );
                        &&& r matches Ok(s) && (s matches Step::Run(argv, dl) && views(argv@)
                            == argvs && dl == argv@.len())
                        &&& final(self).out_name@ == cap
                        &&& final(self).phase == old(self).phase
                    }
                },
                Phase::Main => {
                    if main_ok(*old(self)) {
                        &&& r matches Ok(s) && (s matches Step::Run(argv, dl) && views(argv@)
                            == main_argv_model(*old(self)) && dl + old(self).prog_args@.len()
                            == argv@.len())
                        &&& *final(self) == *old(self)
                    } else {
                        &&& r matches Ok(s) && (s matches Step::Skip(c) && c
                            == Codes::InternalError)
                        &&& final(self).phase == teardown_start(*old(self))
                        &&& final(self).out_name == old(self).out_name
                    }
                },
                Phase::Teardown(j) => {
                    let toks = old(self).runner@.teardown[j as int];
                    if toks.len() == 0 {
                        &&& r == Err::<Step, Codes>(Codes::InternalError)
                        &&& final(self).phase is Done
                        &&& final(self).out_name == old(self).out_name
                    } else {
                        let (argvs, cap) = subst_list_model(
                            toks,
                            old(self).conf.entries@,
                            old(self).out_name@,
                        );
                        &&& r matches Ok(s) && (s matches Step::Run(argv, dl) && views(argv@)
                            == argvs && dl == argv@.len())
                        &&& final(self).out_name@ == cap
                        &&& final(self).phase == old(self).phase
                    }
                },
            },
    {
        let phase = self.phase;
        match phase {
            Phase::Done => Ok(Step::Finished),
            Phase::Setup(i) => {
                assert(self.runner@.setup.len() == self.runner.setup@.len());
                let n = self.runner.setup.len();
                let mut toks = crate::runner::clone_strings(&self.runner.setup[i]);
                if i + 1 == n {
                    append_all(&mut toks, &self.compiler_args);
                    assert(views(toks@) =~= setup_tokens(*old(self), i as int));
                } else {
                    assert(views(toks@) =~= setup_tokens(*old(self), i as int));
                }
                if toks.len() == 0 {
                    self.phase = Phase::Done;
                    return Err(Codes::InternalError);
                }
                let argv = crate::template::sub_tokens(&toks, &self.conf, &mut self.out_name);
                let dl = argv.len();
                Ok(Step::Run(argv, dl))
            },
            Phase::Main => {
                let mut argv: Vec<String> = Vec::new();
                match self.runner.exe {
                    ExeChoice::Native => {
                        if self.runner.exe_args_pre.len() != 0 {
                            self.phase = if self.runner.teardown.len() > 0 {
                                Phase::Teardown(0)
                            } else {
                                Phase::Done
                            };
                            return Ok(Step::Skip(Codes::InternalError));
                        }
                        argv.push(self.main_target());
                        append_all(&mut argv, &self.runner.exe_args_post);
                        append_all(&mut argv, &self.prog_args);
                        assert(views(argv@) =~= main_argv_model(*old(self)));
                    },
                    ExeChoice::Chosen(ei) => {
                        if ei >= self.runner.exe_deps.len() {
                            self.phase = if self.runner.teardown.len() > 0 {
                                Phase::Teardown(0)
                            } else {
                                Phase::Done
                            };
                            return Ok(Step::Skip(Codes::InternalError));
                        }
                        argv.push(self.runner.exe_deps[ei].clone());
                        append_all(&mut argv, &self.runner.exe_args_pre);
                        let t = self.main_target();
                        argv.push(t);
                        append_all(&mut argv, &self.runner.exe_args_post);
                        append_all(&mut argv, &self.prog_args);
                        assert(views(argv@) =~= main_argv_model(*old(self)));
                    },
                    ExeChoice::Unresolved => {
                        self.phase = if self.runner.teardown.len() > 0 {
                            Phase::Teardown(0)
                        } else {
                            Phase::Done
                        };
                        return Ok(Step::Skip(Codes::InternalError));
                    },
                }
                let dl = argv.len() - self.prog_args.len();
                Ok(Step::Run(argv, dl))
            },
            Phase::Teardown(j) => {
                let toks = crate::runner::clone_strings(&self.runner.teardown[j]);
                assert(views(toks@) =~= old(self).runner@.teardown[j as int]);
                if toks.len() == 0 {
                    self.phase = Phase::Done;
                    return Err(Codes::InternalError);
                }
                let argv = crate::template::sub_tokens(&toks, &self.conf, &mut self.out_name);
                let dl = argv.len();
                Ok(Step::Run(argv, dl))
            },
        }
    }

    /// Feed back how the last command went, and learn whether the run goes
    /// on: a failing setup or teardown command ends it with `CodeError`;
    /// the main execution's failure is swallowed so that teardown still
    /// runs.
    pub fn report(&mut self, success: bool) -> (r: Result<(), Codes>)
        requires
            old(self).wf(),
        ensures
            final(self).wf(),
            ({
                let (q, res) = report_result(*old(self), success);
                *final(self) == q && r == res
            }),
    {
        let phase = self.phase;
        match phase {
            Phase::Setup(i) => {
                assert(self.runner@.setup.len() == self.runner.setup@.len());
                let n = self.runner.setup.len();
                if !success {
                    self.phase = Phase::Done;
                    assert(*self =~= with_phase(*old(self), Phase::Done));
                    Err(Codes::CodeError)
                } else {
                    if i + 1 < n {
                        self.phase = Phase::Setup(i + 1);
                    } else {
                        self.phase = Phase::Main;
                    }
                    assert(*self =~= report_result(*old(self), success).0);
                    Ok(())
                }
            },
            Phase::Main => {
                self.phase = if self.runner.teardown.len() > 0 {
                    Phase::Teardown(0)
                } else {
                    Phase::Done
                };
                assert(*self =~= report_result(*old(self), success).0);
                Ok(())
            },
            Phase::Teardown(j) => {
                assert(self.runner@.teardown.len() == self.runner.teardown@.len());
                let n = self.runner.teardown.len();
                if !success {
                    self.phase = Phase::Done;
                    assert(*self =~= with_phase(*old(self), Phase::Done));
                    Err(Codes::CodeError)
                } else {
                    if j + 1 < n {
                        self.phase = Phase::Teardown(j + 1);
                    } else {
                        self.phase = Phase::Done;
                    }
                    assert(*self =~= report_result(*old(self), success).0);
                    Ok(())
                }
            },
            Phase::Done => Ok(()),
        }
    }

    /// What the main execution runs, executably.
    fn main_target(&self) -> (r: String)
        ensures
            r@ == main_target(*self),
    {
        if !self.out_name.as_str().is_empty() {
            self.out_name.clone()
        } else {
            self.source_file.clone()
        }
    }
}

/// Push every string of `src` onto `dst`, in order.
pub fn append_all(dst: &mut Vec<String>, src: &Vec<String>)
    ensures
        final(dst)@ == old(dst)@ + src@,
{
    let mut i: usize = 0;
    proof {
        assert(dst@ =~= old(dst)@ + src@.take(0));
    }
    while i < src.len()
        invariant
            i <= src@.len(),
            dst@ == old(dst)@ + src@.take(i as int),
        decreases src@.len() - i,
    {
        dst.push(src[i].clone());
        assert(dst@ =~= old(dst)@ + src@.take(i + 1));
        i = i + 1;
    }
    assert(src@.take(src@.len() as int) =~= src@);
}

/// What a failure report prints of a command line: the first `upto`
/// tokens, each non-empty one followed by a single space.
pub open spec fn joined_model(toks: Seq<Seq<char>>) -> Seq<char>
    decreases toks.len(),
{
    if toks.len() == 0 {
        Seq::empty()
    } else if toks[0].len() == 0 {
        joined_model(toks.skip(1))
    } else {
        toks[0] + seq![' '] + joined_model(toks.skip(1))
    }
}

/// The displayed form of a failing command line: its first `upto` tokens
/// joined by single spaces, empty tokens skipped.
pub fn command_line(argv: &Vec<String>, upto: usize) -> (r: String)
    requires
        upto <= argv@.len(),
    ensures
        r@ == joined_model(views(argv@).take(upto as int)),
{
    let ghost l = views(argv@).take(upto as int);
    let mut out = String::new();
    let mut i: usize = 0;
    proof {
        assert(l.skip(0) =~= l);
        assert(Seq::<char>::empty() + joined_model(l) =~= joined_model(l));
    }
    while i < upto
        invariant
            i <= upto <= argv@.len(),
            l == views(argv@).take(upto as int),
            out@ + joined_model(l.skip(i as int)) == joined_model(l),
        decreases upto - i,
    {
        let ghost out0 = out@;
        assert(l.skip(i as int)[0] == l[i as int]);
        assert(l.skip(i as int).skip(1) =~= l.skip(i + 1));
        if !argv[i].as_str().is_empty() {
            out.append(argv[i].as_str());
            out.append(" ");
            proof {
                reveal_strlit(" ");
                assert(l[i as int] == argv@[i as int]@);
                assert(" "@ =~= seq![' ']);
            }
            assert(out@ =~= out0 + (l[i as int] + seq![' ']));
            assert(out@ + joined_model(l.skip(i + 1)) =~= out0 + joined_model(l.skip(i as int)));
        } else {
            assert(joined_model(l.skip(i as int)) == joined_model(l.skip(i + 1)));
        }
        i = i + 1;
    }
    assert(l.skip(i as int) =~= Seq::<Seq<char>>::empty());
    assert(out@ + joined_model(l.skip(i as int)) =~= out@);
    out
}

/// Pipeline short-circuit: when a setup command fails, the run ends at
/// once with `CodeError`, and the finished pipeline absorbs every further
/// report — the remaining setup commands, the main execution and teardown
/// are never reached.
pub proof fn lemma_setup_short_circuit(p: Pipeline, i: usize)
    requires
        p.phase == Phase::Setup(i),
    ensures
        report_result(p, false).1 == Err::<(), Codes>(Codes::CodeError),
        report_result(p, false).0.phase is Done,
        forall|s: bool|
            report_result(#[trigger] report_result(p, false).0, s) == (
                report_result(p, false).0,
                Ok::<(), Codes>(()),
            ),
{
}

/// Main-failure teardown: whatever the main execution's verdict, the run
/// is not aborted — teardown follows when there is any, and otherwise the
/// pipeline finishes successfully.
pub proof fn lemma_main_failure_teardown(p: Pipeline, success: bool)
    requires
        p.phase == Phase::Main,
    ensures
        report_result(p, success).1 == Ok::<(), Codes>(()),
        p.runner@.teardown.len() > 0 ==> report_result(p, success).0.phase == Phase::Teardown(0),
        p.runner@.teardown.len() == 0 ==> report_result(p, success).0.phase is Done,
{
}

} // verus!
