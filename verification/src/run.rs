//! A run of provisioning, one answer of the filesystem at a time.
//!
//! A run is worked through from outside: it names what it waits for, a
//! question ([`Probe`]) or a step ([`Apply`]), the caller asks the filesystem
//! and hands the answer to `resume`, which names what comes next, until the
//! run is [`Pending::Finished`].

use vstd::prelude::*;
use vstd::pervasive::unreached;
use crate::distro::{Distro, MARKERS};
use crate::error::{refused, Error, ErrorSpec};
use crate::path::{join_path, joined};
use crate::step::{step_views, InstallStep, StepSpec};
use crate::tools::{
    command_at, command_link, command_place, install_distro, install_mdata_commands, install_native_manpath,
    install_smartdc, lemma_answer_adds_steps, manpath_step, mdata_steps, smartdc_step, COMMANDS,
};

verus! {

/// The four parts of a run, in the order in which they are worked through.
#[derive(Debug, Clone, Copy, PartialEq, Eq, Structural)]
pub enum Stage {
    /// Linking the metadata commands.
    Commands,
    /// Copying the profile script for the manual path.
    Manpath,
    /// Copying the shared helper scripts.
    Scripts,
    /// Integrating the guest by its distribution.
    Integration,
}

/// A run that waits to hear whether a path exists.
#[derive(Debug, PartialEq, Eq)]
pub struct Probe {
    zroot: String,
    markers: bool,
    answers: Vec<bool>,
}

/// A run that waits to hear how a step went.
#[derive(Debug, PartialEq, Eq)]
pub struct Apply {
    zroot: String,
    stage: Stage,
    answers: Vec<bool>,
    at: usize,
}

/// Where a run stands.
#[derive(Debug, PartialEq, Eq)]
pub enum Pending {
    /// It asks whether a path exists.
    Probe(Probe),
    /// It asks for a step to be applied.
    Apply(Apply),
    /// It is over, with this result.
    Finished(Result<(), Error>),
}

/// What a [`Probe`] holds: the guest root, whether it asks for a marker file
/// or for the place of a command, and the answers of this kind so far.
pub struct ProbeSpec {
    pub zroot: Seq<char>,
    pub markers: bool,
    pub answers: Seq<bool>,
}

/// What an [`Apply`] holds: the guest root, the part of the run, the answers
/// that decided the steps of that part, and the place of the step in them.
pub struct ApplySpec {
    pub zroot: Seq<char>,
    pub stage: Stage,
    pub answers: Seq<bool>,
    pub at: nat,
}

/// What a [`Pending`] holds.
pub enum PendingSpec {
    Probe(ProbeSpec),
    Apply(ApplySpec),
    Finished(Result<(), ErrorSpec>),
}

/// The steps of one part of a run under `zroot`, as `answers` decide them.
pub open spec fn stage_steps(zroot: Seq<char>, stage: Stage, answers: Seq<bool>) -> Seq<
    StepSpec,
> {
    match stage {
        Stage::Commands => mdata_steps(zroot, answers),
        Stage::Manpath => seq![manpath_step(zroot)],
        Stage::Scripts => seq![smartdc_step(zroot)],
        Stage::Integration => Distro::detected(answers).steps(zroot),
    }
}

/// The start of a run under `zroot`: the question for the first command.
pub open spec fn started(zroot: Seq<char>) -> PendingSpec {
    PendingSpec::Probe(ProbeSpec { zroot, markers: false, answers: Seq::empty() })
}

impl ProbeSpec {
    /// A probe asks for a command or a marker that there is.
    pub open spec fn wf(self) -> bool {
        if self.markers {
            self.answers.len() < MARKERS
        } else {
            self.answers.len() < COMMANDS
        }
    }

    /// The path that is asked for: the next marker file in table order, or
    /// the place of the next command.
    pub open spec fn path(self) -> Seq<char> {
        if self.markers {
            joined(self.zroot, Distro::ranked(self.answers.len() as int).marker_spec())
        } else {
            command_place(self.zroot, self.answers.len() as int)
        }
    }

    /// What follows the answer `found`.
    ///
    /// For a command, its steps: the link, after a removal where the place
    /// is taken. For a marker that exists, or the last marker, the steps of
    /// the distribution that the answers tell, or the end of the run where
    /// they tell none. For any other marker, the question for the next one.
    pub open spec fn resumed(self, found: bool) -> PendingSpec {
        let answers = self.answers.push(found);
        if !self.markers {
            PendingSpec::Apply(
                ApplySpec {
                    zroot: self.zroot,
                    stage: Stage::Commands,
                    answers,
                    at: mdata_steps(self.zroot, self.answers).len(),
                },
            )
        } else if found || answers.len() >= MARKERS {
            if Distro::detected(answers) == Distro::Unknown {
                PendingSpec::Finished(Err(ErrorSpec::UnsupportedDistribution))
            } else {
                PendingSpec::Apply(
                    ApplySpec { zroot: self.zroot, stage: Stage::Integration, answers, at: 0 },
                )
            }
        } else {
            PendingSpec::Probe(ProbeSpec { zroot: self.zroot, markers: true, answers })
        }
    }
}

impl ApplySpec {
    /// The steps of the part of the run that is being applied.
    pub open spec fn steps(self) -> Seq<StepSpec> {
        stage_steps(self.zroot, self.stage, self.answers)
    }

    /// The step that is asked for is one of the steps of its part.
    pub open spec fn wf(self) -> bool {
        self.at < self.steps().len()
    }

    /// The step that is asked for.
    pub open spec fn step(self) -> StepSpec {
        self.steps()[self.at as int]
    }

    /// The distribution that the guest was told as, once the run integrates
    /// the guest.
    pub open spec fn detected(self) -> Option<Distro> {
        if self.stage == Stage::Integration {
            Some(Distro::detected(self.answers))
        } else {
            None
        }
    }

    /// What follows once the last step of the part is applied.
    pub open spec fn followed(self) -> PendingSpec {
        match self.stage {
            Stage::Commands => {
                if self.answers.len() < COMMANDS {
                    PendingSpec::Probe(
                        ProbeSpec { zroot: self.zroot, markers: false, answers: self.answers },
                    )
                } else {
                    PendingSpec::Apply(
                        ApplySpec {
                            zroot: self.zroot,
                            stage: Stage::Manpath,
                            answers: Seq::empty(),
                            at: 0,
                        },
                    )
                }
            },
            Stage::Manpath => PendingSpec::Apply(
                ApplySpec { zroot: self.zroot, stage: Stage::Scripts, answers: Seq::empty(), at: 0 },
            ),
            Stage::Scripts => PendingSpec::Probe(
                ProbeSpec { zroot: self.zroot, markers: true, answers: Seq::empty() },
            ),
            Stage::Integration => PendingSpec::Finished(Ok(())),
        }
    }

    /// What follows the outcome of the step. A refusal ends the run with the
    /// error of the step. After a success comes the next step of the part,
    /// or what follows the part.
    pub open spec fn resumed(self, outcome: Result<(), Seq<char>>) -> PendingSpec {
        match outcome {
            Err(cause) => PendingSpec::Finished(Err(refused(self.step(), cause))),
            Ok(_) => {
                if self.at + 1 < self.steps().len() {
                    PendingSpec::Apply(ApplySpec { at: self.at + 1, ..self })
                } else {
                    self.followed()
                }
            },
        }
    }
}

impl PendingSpec {
    /// Every run that waits is well formed.
    pub open spec fn wf(self) -> bool {
        match self {
            PendingSpec::Probe(probe) => probe.wf(),
            PendingSpec::Apply(apply) => apply.wf(),
            PendingSpec::Finished(_) => true,
        }
    }
}

/// The outcome of a step, with the cause of a refusal as characters.
pub open spec fn outcome_view(outcome: Result<(), String>) -> Result<(), Seq<char>> {
    match outcome {
        Ok(_) => Ok(()),
        Err(cause) => Err(cause@),
    }
}

/// The result of a run, with the error by its view.
pub open spec fn result_view(result: Result<(), Error>) -> Result<(), ErrorSpec> {
    match result {
        Ok(_) => Ok(()),
        Err(error) => Err(error@),
    }
}

impl View for Probe {
    type V = ProbeSpec;

    closed spec fn view(&self) -> ProbeSpec {
        ProbeSpec { zroot: self.zroot@, markers: self.markers, answers: self.answers@ }
    }
}

impl View for Apply {
    type V = ApplySpec;

    closed spec fn view(&self) -> ApplySpec {
        ApplySpec {
            zroot: self.zroot@,
            stage: self.stage,
            answers: self.answers@,
            at: self.at as nat,
        }
    }
}

impl View for Pending {
    type V = PendingSpec;

    open spec fn view(&self) -> PendingSpec {
        match *self {
            Pending::Probe(probe) => PendingSpec::Probe(probe@),
            Pending::Apply(apply) => PendingSpec::Apply(apply@),
            Pending::Finished(result) => PendingSpec::Finished(result_view(result)),
        }
    }
}

impl Probe {
    #[verifier::type_invariant]
    spec fn inv(self) -> bool {
        self@.wf()
    }

    /// The path of which the run asks whether it exists.
    pub fn path(&self) -> (path: String)
        ensures
            path@ == self@.path(),
            self@.wf(),
    {
        proof {
            use_type_invariant(self);
        }
        if self.markers {
            match Distro::at(self.answers.len()).marker() {
                Some(file) => join_path(self.zroot.as_str(), file),
                None => {
                    proof {
                        assert(false);
                    }
                    unreached()
                },
            }
        } else {
            join_path(self.zroot.as_str(), command_at(self.answers.len()))
        }
    }

    /// Goes on with the run after the answer: `found` says whether the
    /// path that was asked for exists.
    pub fn resume(self, found: bool) -> (next: Pending)
        ensures
            next@ == self@.resumed(found),
            self@.wf(),
            next@.wf(),
    {
        proof {
            use_type_invariant(&self);
        }
        let Probe { zroot, markers, answers } = self;
        let mut answers = answers;
        if !markers {
            let at = install_mdata_commands(zroot.as_str(), &answers).len();
            proof {
                lemma_answer_adds_steps(zroot@, answers@, found);
            }
            answers.push(found);
            Pending::Apply(Apply { zroot, stage: Stage::Commands, answers, at })
        } else {
            answers.push(found);
            if found || answers.len() >= MARKERS {
                match install_distro(zroot.as_str(), &answers) {
                    Err(error) => Pending::Finished(Err(error)),
                    Ok(_) => Pending::Apply(
                        Apply { zroot, stage: Stage::Integration, answers, at: 0 },
                    ),
                }
            } else {
                Pending::Probe(Probe { zroot, markers: true, answers })
            }
        }
    }
}

impl Apply {
    #[verifier::type_invariant]
    spec fn inv(self) -> bool {
        self@.wf()
    }

    /// The steps of the part of the run that is being applied.
    fn steps(&self) -> (steps: Vec<InstallStep>)
        ensures
            step_views(steps@) == self@.steps(),
    {
        let zroot = self.zroot.as_str();
        match self.stage {
            Stage::Commands => install_mdata_commands(zroot, &self.answers),
            Stage::Manpath => {
                let mut steps: Vec<InstallStep> = Vec::new();
                steps.push(install_native_manpath(zroot));
                assert(step_views(steps@) =~= self@.steps());
                steps
            },
            Stage::Scripts => {
                let mut steps: Vec<InstallStep> = Vec::new();
                steps.push(install_smartdc(zroot));
                assert(step_views(steps@) =~= self@.steps());
                steps
            },
            Stage::Integration => match install_distro(zroot, &self.answers) {
                Ok(steps) => steps,
                Err(_) => {
                    let steps: Vec<InstallStep> = Vec::new();
                    assert(step_views(steps@) =~= self@.steps());
                    steps
                },
            },
        }
    }

    /// The distribution that the guest was told as, once the run integrates
    /// the guest; `None` in the parts of the run before that.
    pub fn detected(&self) -> (distro: Option<Distro>)
        ensures
            distro == self@.detected(),
    {
        match self.stage {
            Stage::Integration => Some(Distro::detect(&self.answers)),
            _ => None,
        }
    }

    /// The step that the run asks to be applied.
    pub fn step(&self) -> (step: InstallStep)
        ensures
            step@ == self@.step(),
            self@.wf(),
    {
        proof {
            use_type_invariant(self);
        }
        let mut steps = self.steps();
        steps.swap_remove(self.at)
    }

    /// Goes on with the run after the step: `outcome` is `Ok` where it was
    /// applied, and holds what the filesystem reported where it was not.
    pub fn resume(self, outcome: Result<(), String>) -> (next: Pending)
        ensures
            next@ == self@.resumed(outcome_view(outcome)),
            self@.wf(),
            next@.wf(),
    {
        proof {
            use_type_invariant(&self);
        }
        match outcome {
            Err(cause) => {
                let step = self.step();
                Pending::Finished(Err(Error::refused(step, cause)))
            },
            Ok(_) => {
                let len = self.steps().len();
                let Apply { zroot, stage, answers, at } = self;
                if at + 1 < len {
                    Pending::Apply(Apply { zroot, stage, answers, at: at + 1 })
                } else {
                    match stage {
                        Stage::Commands => {
                            if answers.len() < COMMANDS {
                                Pending::Probe(Probe { zroot, markers: false, answers })
                            } else {
                                Pending::Apply(
                                    Apply {
                                        zroot,
                                        stage: Stage::Manpath,
                                        answers: Vec::new(),
                                        at: 0,
                                    },
                                )
                            }
                        },
                        Stage::Manpath => Pending::Apply(
                            Apply { zroot, stage: Stage::Scripts, answers: Vec::new(), at: 0 },
                        ),
                        Stage::Scripts => Pending::Probe(
                            Probe { zroot, markers: true, answers: Vec::new() },
                        ),
                        Stage::Integration => Pending::Finished(Ok(())),
                    }
                }
            },
        }
    }
}

/// Starts the provisioning of the guest at `zroot`.
///
/// The run links the metadata commands, copies the profile script for the
/// manual path, copies the shared helper scripts, and integrates the guest
/// by its distribution, in this order. It begins with the question whether
/// something stands in the place of the first command. The first refusal of
/// the filesystem ends it.
pub fn install_tools(zroot: &str) -> (run: Pending)
    ensures
        run@ == started(zroot@),
        run@.wf(),
{
    Pending::Probe(Probe { zroot: zroot.to_string(), markers: false, answers: Vec::new() })
}

/// A run that is well formed stays so, whatever the answer to its question.
pub proof fn lemma_probe_keeps_wf(probe: ProbeSpec, found: bool)
    requires
        probe.wf(),
    ensures
        probe.resumed(found).wf(),
{
    if !probe.markers {
        lemma_answer_adds_steps(probe.zroot, probe.answers, found);
    }
}

/// A run that is well formed stays so, however its step went.
pub proof fn lemma_apply_keeps_wf(apply: ApplySpec, outcome: Result<(), Seq<char>>)
    requires
        apply.wf(),
    ensures
        apply.resumed(outcome).wf(),
{
}

/// The first refusal ends the run, in every part of it: the run is then
/// finished with the error of the refused step, which names the place of the
/// step and what the filesystem reported. A refused removal is an
/// [`ErrorSpec::UnlinkFailed`], every other refusal an
/// [`ErrorSpec::FilesystemOperationFailed`].
pub proof fn lemma_refusal_ends_run(apply: ApplySpec, cause: Seq<char>)
    requires
        apply.wf(),
    ensures
        apply.resumed(Err(cause)) == PendingSpec::Finished(Err(refused(apply.step(), cause))),
        refused(apply.step(), cause).place() == apply.step().place(),
        apply.step() is Unlink <==> refused(apply.step(), cause) is UnlinkFailed,
        !(apply.step() is Unlink) <==> refused(apply.step(), cause) is FilesystemOperationFailed,
{
}

/// Where the copy of the shared helper scripts is refused, the run is
/// finished with an [`ErrorSpec::FilesystemOperationFailed`] of that copy.
/// Nothing follows a finished run, so the guest is neither asked for its
/// marker files nor integrated.
pub proof fn lemma_refused_scripts_end_run(apply: ApplySpec, cause: Seq<char>)
    requires
        apply.wf(),
        apply.stage == Stage::Scripts,
    ensures
        apply.step() == smartdc_step(apply.zroot),
        apply.resumed(Err(cause)) == PendingSpec::Finished(
            Err(ErrorSpec::FilesystemOperationFailed { step: smartdc_step(apply.zroot), cause }),
        ),
{
}

/// A command is linked whether or not something stands in its place. Where
/// nothing does, the run asks for the link at once. Where something does, it
/// asks for the removal first, and for the same link once that is done.
pub proof fn lemma_taken_place_is_relinked(probe: ProbeSpec, found: bool)
    requires
        probe.wf(),
        !probe.markers,
    ensures
        probe.resumed(found) is Apply,
        ({
            let place = probe.answers.len() as int;
            let first = probe.resumed(found)->Apply_0;
            let link = command_link(probe.zroot, place);
            if found {
                &&& first.step() == (StepSpec::Unlink { path: probe.path() })
                &&& first.resumed(Ok(())) is Apply
                &&& first.resumed(Ok(()))->Apply_0.step() == link
                &&& first.resumed(Ok(()))->Apply_0.resumed(Ok(())) == first.followed()
            } else {
                &&& first.step() == link
                &&& first.resumed(Ok(())) == first.followed()
            }
        }),
{
    lemma_answer_adds_steps(probe.zroot, probe.answers, found);
}

} // verus!
