//! What a whole run asks for, and how it ends, when the filesystem refuses
//! nothing.

use vstd::prelude::*;
use crate::distro::{Distro, MARKERS};
use crate::error::ErrorSpec;
use crate::run::{started, ApplySpec, PendingSpec, ProbeSpec, Stage};
use crate::step::StepSpec;
use crate::tools::{
    lemma_answer_adds_steps, lemma_links_do_not_depend_on_what_was_there, manpath_step, mdata_steps, placed, placing,
    relinks, smartdc_step, COMMANDS,
};

verus! {

/// The run after one answer of a filesystem that applies every step. A
/// question for the place of a command is answered from `taken`, one for a
/// marker file from `markers`, each by the place of the command or marker in
/// its table. A finished run stays as it is.
pub open spec fn obliged(run: PendingSpec, taken: Seq<bool>, markers: Seq<bool>) -> PendingSpec {
    match run {
        PendingSpec::Probe(probe) => {
            if probe.markers {
                probe.resumed(markers[probe.answers.len() as int])
            } else {
                probe.resumed(taken[probe.answers.len() as int])
            }
        },
        PendingSpec::Apply(apply) => apply.resumed(Ok(())),
        PendingSpec::Finished(_) => run,
    }
}

/// The run after `n` such answers.
pub open spec fn settled(run: PendingSpec, taken: Seq<bool>, markers: Seq<bool>, n: nat)
    -> PendingSpec
    decreases n,
{
    if n == 0 {
        run
    } else {
        settled(obliged(run, taken, markers), taken, markers, (n - 1) as nat)
    }
}

/// The step that a run asks for, if it asks for one.
pub open spec fn asked(run: PendingSpec) -> Seq<StepSpec> {
    match run {
        PendingSpec::Apply(apply) => seq![apply.step()],
        _ => Seq::empty(),
    }
}

/// The steps that a run asks for up to its `n`th answer, in their order.
pub open spec fn applied(run: PendingSpec, taken: Seq<bool>, markers: Seq<bool>, n: nat) -> Seq<
    StepSpec,
>
    decreases n,
{
    if n == 0 {
        Seq::empty()
    } else {
        asked(run) + applied(obliged(run, taken, markers), taken, markers, (n - 1) as nat)
    }
}

/// How a run ends when nothing is refused: well where the markers tell a
/// distribution, and as unsupported where they tell none.
pub open spec fn outcome(markers: Seq<bool>) -> Result<(), ErrorSpec> {
    if Distro::detected(markers) == Distro::Unknown {
        Err(ErrorSpec::UnsupportedDistribution)
    } else {
        Ok(())
    }
}

/// Every step of a run in which nothing is refused: the links of the
/// commands, the profile script, the helper scripts, and the steps of the
/// distribution that the markers tell.
pub open spec fn whole(zroot: Seq<char>, taken: Seq<bool>, markers: Seq<bool>) -> Seq<StepSpec> {
    mdata_steps(zroot, taken) + seq![manpath_step(zroot), smartdc_step(zroot)]
        + Distro::detected(markers).steps(zroot)
}

/// No run takes more answers than this.
pub open spec fn longest() -> nat {
    22
}

/// Answers can be counted in two parts.
pub proof fn lemma_settled_in_parts(
    run: PendingSpec,
    taken: Seq<bool>,
    markers: Seq<bool>,
    n: nat,
    m: nat,
)
    ensures
        settled(run, taken, markers, n + m) == settled(
            settled(run, taken, markers, n),
            taken,
            markers,
            m,
        ),
        applied(run, taken, markers, n + m) == applied(run, taken, markers, n) + applied(
            settled(run, taken, markers, n),
            taken,
            markers,
            m,
        ),
    decreases n,
{
    if n == 0 {
        assert(applied(run, taken, markers, m) =~= Seq::<StepSpec>::empty() + applied(
            run,
            taken,
            markers,
            m,
        ));
    } else {
        let next = obliged(run, taken, markers);
        lemma_settled_in_parts(next, taken, markers, (n - 1) as nat, m);
        assert(applied(run, taken, markers, n + m) =~= applied(run, taken, markers, n) + applied(
            settled(run, taken, markers, n),
            taken,
            markers,
            m,
        ));
    }
}

/// A finished run stays finished and asks for nothing more.
pub proof fn lemma_finished_stays(
    result: Result<(), ErrorSpec>,
    taken: Seq<bool>,
    markers: Seq<bool>,
    n: nat,
)
    ensures
        settled(PendingSpec::Finished(result), taken, markers, n) == PendingSpec::Finished(result),
        applied(PendingSpec::Finished(result), taken, markers, n) == Seq::<StepSpec>::empty(),
    decreases n,
{
    if n > 0 {
        lemma_finished_stays(result, taken, markers, (n - 1) as nat);
        assert(applied(PendingSpec::Finished(result), taken, markers, n) =~= Seq::<
            StepSpec,
        >::empty());
    }
}

/// From any of its steps, a part of the run is walked to its end: the run
/// asks for the rest of the steps of the part, in their order, and then for
/// what follows the part.
pub proof fn lemma_part_is_walked(apply: ApplySpec, taken: Seq<bool>, markers: Seq<bool>)
    requires
        apply.wf(),
    ensures
        settled(
            PendingSpec::Apply(apply),
            taken,
            markers,
            (apply.steps().len() - apply.at) as nat,
        ) == apply.followed(),
        applied(
            PendingSpec::Apply(apply),
            taken,
            markers,
            (apply.steps().len() - apply.at) as nat,
        ) == apply.steps().subrange(apply.at as int, apply.steps().len() as int),
    decreases apply.steps().len() - apply.at,
{
    let run = PendingSpec::Apply(apply);
    let len = apply.steps().len();
    let n = (len - apply.at) as nat;
    let next = obliged(run, taken, markers);
    if apply.at + 1 < len {
        let further = ApplySpec { at: apply.at + 1, ..apply };
        assert(next == PendingSpec::Apply(further));
        assert(further.steps() == apply.steps());
        assert(further.followed() == apply.followed());
        lemma_part_is_walked(further, taken, markers);
        assert(applied(run, taken, markers, n) =~= apply.steps().subrange(
            apply.at as int,
            len as int,
        ));
    } else {
        assert(next == apply.followed());
        assert(settled(next, taken, markers, 0) == next);
        assert(applied(next, taken, markers, 0) =~= Seq::<StepSpec>::empty());
        assert(applied(run, taken, markers, n) =~= apply.steps().subrange(
            apply.at as int,
            len as int,
        ));
    }
}

/// The run once the first `k` commands are linked: it asks for the place of
/// the next command, or, after the last, for the profile script.
pub open spec fn commands_linked(zroot: Seq<char>, taken: Seq<bool>, k: nat) -> PendingSpec {
    if k < COMMANDS {
        PendingSpec::Probe(ProbeSpec { zroot, markers: false, answers: taken.take(k as int) })
    } else {
        PendingSpec::Apply(
            ApplySpec { zroot, stage: Stage::Manpath, answers: Seq::empty(), at: 0 },
        )
    }
}

/// The run once the markers have been asked for: it asks for the first step
/// of the distribution that they tell, or is finished as unsupported.
pub open spec fn markers_probed(zroot: Seq<char>, markers: Seq<bool>) -> PendingSpec {
    let distro = Distro::detected(markers);
    if distro == Distro::Unknown {
        PendingSpec::Finished(Err(ErrorSpec::UnsupportedDistribution))
    } else {
        PendingSpec::Apply(
            ApplySpec {
                zroot,
                stage: Stage::Integration,
                answers: markers.take(distro.rank() + 1),
                at: 0,
            },
        )
    }
}

/// The commands are linked one after the other: after `n` answers the run
/// has asked for exactly the steps of the first `k` commands, and goes on
/// with the next command or with the profile script.
pub proof fn lemma_commands_are_linked(
    zroot: Seq<char>,
    taken: Seq<bool>,
    markers: Seq<bool>,
    k: nat,
) -> (n: nat)
    requires
        taken.len() == COMMANDS,
        k <= COMMANDS,
    ensures
        n == k + mdata_steps(zroot, taken.take(k as int)).len(),
        n <= 3 * k,
        settled(started(zroot), taken, markers, n) == commands_linked(zroot, taken, k),
        applied(started(zroot), taken, markers, n) == mdata_steps(zroot, taken.take(k as int)),
    decreases k,
{
    if k == 0 {
        reveal_with_fuel(relinks, 5);
        assert(taken.take(0) =~= Seq::<bool>::empty());
        assert(mdata_steps(zroot, taken.take(0)) =~= Seq::<StepSpec>::empty());
        0
    } else {
        let before = lemma_commands_are_linked(zroot, taken, markers, (k - 1) as nat);
        let answers = taken.take(k - 1);
        let found = taken[k - 1];
        let probe = ProbeSpec { zroot, markers: false, answers };
        lemma_answer_adds_steps(zroot, answers, found);
        assert(answers.push(found) =~= taken.take(k as int));
        let old_len = mdata_steps(zroot, answers).len();
        let apply = ApplySpec {
            zroot,
            stage: Stage::Commands,
            answers: taken.take(k as int),
            at: old_len,
        };
        assert(obliged(PendingSpec::Probe(probe), taken, markers) == PendingSpec::Apply(apply));
        lemma_part_is_walked(apply, taken, markers);
        let rest = (apply.steps().len() - apply.at) as nat;
        assert(apply.followed() == commands_linked(zroot, taken, k));
        assert(settled(PendingSpec::Probe(probe), taken, markers, 1 + rest) == apply.followed());
        assert(applied(PendingSpec::Probe(probe), taken, markers, 1 + rest) =~= apply.steps().subrange(
            old_len as int,
            apply.steps().len() as int,
        ));
        lemma_settled_in_parts(started(zroot), taken, markers, before, 1 + rest);
        assert(mdata_steps(zroot, answers) + apply.steps().subrange(
            old_len as int,
            apply.steps().len() as int,
        ) =~= apply.steps());
        before + 1 + rest
    }
}

/// After the commands come the profile script and the helper scripts, and
/// then the question for the first marker.
pub proof fn lemma_scripts_are_copied(zroot: Seq<char>, taken: Seq<bool>, markers: Seq<bool>)
    ensures
        settled(commands_linked(zroot, taken, COMMANDS as nat), taken, markers, 2)
            == PendingSpec::Probe(ProbeSpec { zroot, markers: true, answers: Seq::empty() }),
        applied(commands_linked(zroot, taken, COMMANDS as nat), taken, markers, 2) == seq![
            manpath_step(zroot),
            smartdc_step(zroot),
        ],
{
    reveal_with_fuel(settled, 3);
    reveal_with_fuel(applied, 3);
    assert(applied(commands_linked(zroot, taken, COMMANDS as nat), taken, markers, 2) =~= seq![
        manpath_step(zroot),
        smartdc_step(zroot),
    ]);
}

/// The markers are asked for in table order until one exists: the run then
/// asks for the first step of its distribution. Where none exists the run is
/// finished as unsupported. No step is asked for on the way.
pub proof fn lemma_markers_are_probed(
    zroot: Seq<char>,
    taken: Seq<bool>,
    markers: Seq<bool>,
    k: nat,
) -> (n: nat)
    requires
        markers.len() == MARKERS,
        k < MARKERS,
        forall|j: int| 0 <= j < k ==> !markers[j],
    ensures
        1 <= n <= MARKERS - k,
        settled(
            PendingSpec::Probe(ProbeSpec { zroot, markers: true, answers: markers.take(k as int) }),
            taken,
            markers,
            n,
        ) == markers_probed(zroot, markers),
        applied(
            PendingSpec::Probe(ProbeSpec { zroot, markers: true, answers: markers.take(k as int) }),
            taken,
            markers,
            n,
        ) == Seq::<StepSpec>::empty(),
    decreases MARKERS - k,
{
    let probe = ProbeSpec { zroot, markers: true, answers: markers.take(k as int) };
    let run = PendingSpec::Probe(probe);
    let answers = markers.take(k as int + 1);
    assert(probe.answers.push(markers[k as int]) =~= answers);
    let next = obliged(run, taken, markers);
    assert(settled(next, taken, markers, 0) == next);
    assert(applied(next, taken, markers, 0) =~= Seq::<StepSpec>::empty());
    if markers[k as int] || k + 1 >= MARKERS {
        assert(Distro::detected(answers) == Distro::detected(markers));
        assert(next == markers_probed(zroot, markers));
        assert(applied(run, taken, markers, 1) =~= Seq::<StepSpec>::empty());
        1
    } else {
        assert(next == PendingSpec::Probe(ProbeSpec { zroot, markers: true, answers }));
        let rest = lemma_markers_are_probed(zroot, taken, markers, (k + 1) as nat);
        assert(applied(run, taken, markers, 1 + rest) =~= Seq::<StepSpec>::empty());
        1 + rest
    }
}

/// The whole of a run in which the filesystem refuses nothing.
///
/// Whatever stands in the places of the commands and whichever markers
/// exist, the run is over after at most [`longest`] answers. It has then
/// asked for exactly the steps of [`whole`], in their order: the links of
/// the four commands, each after the removal of what stood in its place, the
/// profile script, the helper scripts, and last the steps of the
/// distribution. It ends well where a marker exists, and as unsupported
/// where none does, in which case the steps before the distribution have
/// been asked for all the same.
pub proof fn lemma_obliging_run(zroot: Seq<char>, taken: Seq<bool>, markers: Seq<bool>)
    requires
        taken.len() == COMMANDS,
        markers.len() == MARKERS,
    ensures
        settled(started(zroot), taken, markers, longest()) == PendingSpec::Finished(
            outcome(markers),
        ),
        applied(started(zroot), taken, markers, longest()) == whole(zroot, taken, markers),
{
    let start = started(zroot);
    let linked = lemma_commands_are_linked(zroot, taken, markers, COMMANDS as nat);
    assert(taken.take(COMMANDS as int) =~= taken);
    let after_links = commands_linked(zroot, taken, COMMANDS as nat);
    lemma_scripts_are_copied(zroot, taken, markers);
    lemma_settled_in_parts(start, taken, markers, linked, 2);
    let first_probe = PendingSpec::Probe(
        ProbeSpec { zroot, markers: true, answers: Seq::empty() },
    );
    assert(markers.take(0) =~= Seq::<bool>::empty());
    let probes = lemma_markers_are_probed(zroot, taken, markers, 0);
    lemma_settled_in_parts(start, taken, markers, linked + 2, probes);
    let decided = markers_probed(zroot, markers);
    let distro = Distro::detected(markers);
    let copied = mdata_steps(zroot, taken) + seq![manpath_step(zroot), smartdc_step(zroot)];
    assert(applied(start, taken, markers, linked + 2 + probes) =~= copied);
    let so_far = linked + 2 + probes;
    if distro == Distro::Unknown {
        assert(decided == PendingSpec::Finished(outcome(markers)));
        lemma_finished_stays(outcome(markers), taken, markers, (longest() - so_far) as nat);
        lemma_settled_in_parts(start, taken, markers, so_far, (longest() - so_far) as nat);
        assert(applied(start, taken, markers, longest()) =~= whole(zroot, taken, markers));
    } else {
        let answers = markers.take(distro.rank() + 1);
        let apply = ApplySpec { zroot, stage: Stage::Integration, answers, at: 0 };
        assert(Distro::detected(answers) == distro);
        assert(apply.steps() == distro.steps(zroot));
        lemma_part_is_walked(apply, taken, markers);
        let steps = distro.steps(zroot).len();
        assert(distro.steps(zroot).subrange(0, steps as int) =~= distro.steps(zroot));
        lemma_settled_in_parts(start, taken, markers, so_far, steps);
        let total = so_far + steps;
        assert(settled(start, taken, markers, total) == PendingSpec::Finished(outcome(markers)));
        assert(applied(start, taken, markers, total) =~= whole(zroot, taken, markers));
        lemma_finished_stays(outcome(markers), taken, markers, (longest() - total) as nat);
        lemma_settled_in_parts(start, taken, markers, total, (longest() - total) as nat);
        assert(applied(start, taken, markers, longest()) =~= whole(zroot, taken, markers));
    }
}

/// A second run ends as the first did: whatever the first run, or anything
/// else, left in the places of the commands, a run in which nothing is
/// refused ends with the same result, and leaves out the removals it asks
/// for the same steps, in the same order.
pub proof fn lemma_run_again(
    zroot: Seq<char>,
    first: Seq<bool>,
    second: Seq<bool>,
    markers: Seq<bool>,
)
    requires
        first.len() == COMMANDS,
        second.len() == COMMANDS,
        markers.len() == MARKERS,
    ensures
        settled(started(zroot), first, markers, longest()) == settled(
            started(zroot),
            second,
            markers,
            longest(),
        ),
        placed(applied(started(zroot), first, markers, longest())) == placed(
            applied(started(zroot), second, markers, longest()),
        ),
{
    lemma_obliging_run(zroot, first, markers);
    lemma_obliging_run(zroot, second, markers);
    let scripts = seq![manpath_step(zroot), smartdc_step(zroot)];
    let distro = Distro::detected(markers).steps(zroot);
    lemma_links_do_not_depend_on_what_was_there(zroot, first);
    lemma_links_do_not_depend_on_what_was_there(zroot, second);
    Seq::filter_distributes_over_add(mdata_steps(zroot, first), scripts, placing());
    Seq::filter_distributes_over_add(mdata_steps(zroot, first) + scripts, distro, placing());
    Seq::filter_distributes_over_add(mdata_steps(zroot, second), scripts, placing());
    Seq::filter_distributes_over_add(mdata_steps(zroot, second) + scripts, distro, placing());
}

} // verus!
