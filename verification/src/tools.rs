//! The parts of provisioning that are the same for every distribution.

use vstd::prelude::*;
use crate::distro::Distro;
use crate::error::{Error, ErrorSpec};
use crate::path::{join_path, joined};
use crate::step::{step_views, InstallStep, StepSpec, ROOT_GID, ROOT_UID};

verus! {

/// How many metadata commands are linked into a guest.
pub const COMMANDS: usize = 4;

/// The metadata command at place `i`, relative to the guest root and to the
/// native overlay alike.
pub open spec fn command_file(i: int) -> Seq<char> {
    if i == 0 {
        "usr/sbin/mdata-get"@
    } else if i == 1 {
        "usr/sbin/mdata-put"@
    } else if i == 2 {
        "usr/sbin/mdata-delete"@
    } else {
        "usr/sbin/mdata-list"@
    }
}

/// Where the link of command `i` stands in the guest.
pub open spec fn command_place(zroot: Seq<char>, i: int) -> Seq<char> {
    joined(zroot, command_file(i))
}

/// The step that links command `i` into the guest. The link points into the
/// native overlay, outside the guest root.
pub open spec fn command_link(zroot: Seq<char>, i: int) -> StepSpec {
    StepSpec::Symlink {
        target: joined("/native"@, command_file(i)),
        link: command_place(zroot, i),
        uid: ROOT_UID,
        gid: ROOT_GID,
    }
}

/// The steps for command `i`: the link, after the removal of what stands in
/// its place where something does.
pub open spec fn relink(zroot: Seq<char>, i: int, found: bool) -> Seq<StepSpec> {
    if found {
        seq![StepSpec::Unlink { path: command_place(zroot, i) }, command_link(zroot, i)]
    } else {
        seq![command_link(zroot, i)]
    }
}

/// The steps for the first `n` commands, as far as `present` speaks of them.
pub open spec fn relinks(zroot: Seq<char>, present: Seq<bool>, n: nat) -> Seq<StepSpec>
    decreases n,
{
    if n == 0 {
        Seq::empty()
    } else if n <= present.len() {
        relinks(zroot, present, (n - 1) as nat) + relink(zroot, n - 1, present[n - 1])
    } else {
        relinks(zroot, present, (n - 1) as nat)
    }
}

/// The steps that link the metadata commands of which `present` speaks, in
/// the order of the commands.
pub open spec fn mdata_steps(zroot: Seq<char>, present: Seq<bool>) -> Seq<StepSpec> {
    relinks(zroot, present, COMMANDS as nat)
}

/// The step that puts the profile script for the manual path in place.
pub open spec fn manpath_step(zroot: Seq<char>) -> StepSpec {
    StepSpec::CopyFile {
        src: "guest/etc/profile.d/native_manpath.sh"@,
        dst: joined(zroot, "etc/profile.d/native_manpath.sh"@),
        uid: ROOT_UID,
        gid: ROOT_GID,
        mode: 0o744,
    }
}

/// The step that copies the shared helper scripts into the guest.
pub open spec fn smartdc_step(zroot: Seq<char>) -> StepSpec {
    StepSpec::CopyDir {
        src: "guest/lib/smartdc"@,
        dst: joined(zroot, "lib"@),
        uid: ROOT_UID,
        gid: ROOT_GID,
        mode: 0o755,
    }
}

/// The metadata command at place `i`, relative to the guest root.
pub(crate) fn command_at(i: usize) -> (file: &'static str)
    ensures
        file@ == command_file(i as int),
{
    if i == 0 {
        "usr/sbin/mdata-get"
    } else if i == 1 {
        "usr/sbin/mdata-put"
    } else if i == 2 {
        "usr/sbin/mdata-delete"
    } else {
        "usr/sbin/mdata-list"
    }
}

/// The steps that link the metadata commands into the guest at `zroot`.
/// `present` says of each command, in order, whether something already
/// stands where its link belongs. Such a file is removed first, which is the
/// ordinary case when a guest is provisioned again; then the link is made.
/// Commands of which `present` does not speak get no step yet.
pub fn install_mdata_commands(zroot: &str, present: &Vec<bool>) -> (steps: Vec<InstallStep>)
    ensures
        step_views(steps@) == mdata_steps(zroot@, present@),
{
    let mut steps: Vec<InstallStep> = Vec::new();
    let mut i: usize = 0;
    assert(step_views(steps@) =~= relinks(zroot@, present@, 0));
    while i < COMMANDS
        invariant
            i <= COMMANDS,
            step_views(steps@) == relinks(zroot@, present@, i as nat),
        decreases COMMANDS - i,
    {
        if i < present.len() {
            let file = command_at(i);
            let dst = join_path(zroot, file);
            let src = join_path("/native", file);
            let ghost before = step_views(steps@);
            if present[i] {
                steps.push(InstallStep::Unlink { path: dst.clone() });
            }
            steps.push(
                InstallStep::Symlink { target: src, link: dst, uid: ROOT_UID, gid: ROOT_GID },
            );
            assert(step_views(steps@) =~= before + relink(zroot@, i as int, present@[i as int]));
        }
        i += 1;
    }
    steps
}

/// The step that copies the profile script for the manual path of the
/// native overlay into the guest at `zroot`.
pub fn install_native_manpath(zroot: &str) -> (step: InstallStep)
    ensures
        step@ == manpath_step(zroot@),
{
    InstallStep::CopyFile {
        src: "guest/etc/profile.d/native_manpath.sh".to_string(),
        dst: join_path(zroot, "etc/profile.d/native_manpath.sh"),
        uid: ROOT_UID,
        gid: ROOT_GID,
        mode: 0o744,
    }
}

/// The step that copies the shared helper scripts into `lib` of the guest
/// at `zroot`, every copied file executable.
pub fn install_smartdc(zroot: &str) -> (step: InstallStep)
    ensures
        step@ == smartdc_step(zroot@),
{
    InstallStep::CopyDir {
        src: "guest/lib/smartdc".to_string(),
        dst: join_path(zroot, "lib"),
        uid: ROOT_UID,
        gid: ROOT_GID,
        mode: 0o755,
    }
}

/// The steps that integrate the guest at `zroot` into the host: those of the
/// distribution that `present` tells. Where it tells none, there is nothing
/// to apply and the answer is [`Error::UnsupportedDistribution`].
pub fn install_distro(zroot: &str, present: &Vec<bool>) -> (plan: Result<Vec<InstallStep>, Error>)
    ensures
        plan is Err <==> Distro::detected(present@) == Distro::Unknown,
        plan matches Err(error) ==> error@ == ErrorSpec::UnsupportedDistribution,
        plan matches Ok(steps) ==> step_views(steps@) == Distro::detected(present@).steps(zroot@),
{
    let distro = Distro::detect(present);
    distro.install(zroot)
}

/// One more answer about a command adds the steps of that command, and
/// changes none of the steps before them.
pub proof fn lemma_answer_adds_steps(zroot: Seq<char>, present: Seq<bool>, found: bool)
    requires
        present.len() < COMMANDS,
    ensures
        mdata_steps(zroot, present.push(found)) == mdata_steps(zroot, present) + relink(
            zroot,
            present.len() as int,
            found,
        ),
{
    reveal_with_fuel(relinks, 5);
    let more = present.push(found);
    assert forall|i: int| 0 <= i < present.len() implies more[i] == present[i] by {}
    assert(more[present.len() as int] == found);
    assert(mdata_steps(zroot, more) =~= mdata_steps(zroot, present) + relink(
        zroot,
        present.len() as int,
        found,
    ));
}

/// Tells the steps that leave something in the guest from the removals.
pub open spec fn placing() -> spec_fn(StepSpec) -> bool {
    |step: StepSpec| step.places()
}

/// The steps of `steps` that leave something in the guest, in their order.
pub open spec fn placed(steps: Seq<StepSpec>) -> Seq<StepSpec> {
    steps.filter(placing())
}

/// Answers that say of `n` places that nothing stands in them.
pub open spec fn vacant(n: nat) -> Seq<bool> {
    Seq::new(n, |i: int| false)
}

/// What is removed for a command is all that depends on what stood in its
/// place: the link is the one of a place in which nothing stood.
pub proof fn lemma_relink_places_the_link(zroot: Seq<char>, i: int, found: bool)
    ensures
        placed(relink(zroot, i, found)) == relink(zroot, i, false),
{
    reveal_with_fuel(Seq::filter, 3);
    let steps = relink(zroot, i, found);
    let link = command_link(zroot, i);
    assert(link.places());
    if found {
        let removal = StepSpec::Unlink { path: command_place(zroot, i) };
        assert(!removal.places());
        assert(steps.last() == link);
        assert(steps.drop_last() =~= seq![removal]);
        assert(steps.drop_last().last() == removal);
        assert(steps.drop_last().drop_last() =~= Seq::<StepSpec>::empty());
        assert(steps.filter(placing()) =~= seq![link]);
    } else {
        assert(steps.last() == link);
        assert(steps.drop_last() =~= Seq::<StepSpec>::empty());
        assert(steps.filter(placing()) =~= seq![link]);
    }
}

/// The links of the first `n` commands do not depend on what stood in their
/// places.
pub proof fn lemma_relinks_place_the_links(zroot: Seq<char>, present: Seq<bool>, n: nat)
    ensures
        placed(relinks(zroot, present, n)) == relinks(zroot, vacant(present.len()), n),
    decreases n,
{
    let fresh = vacant(present.len());
    if n == 0 {
        reveal_with_fuel(Seq::filter, 1);
        assert(placed(relinks(zroot, present, n)) =~= Seq::<StepSpec>::empty());
    } else {
        lemma_relinks_place_the_links(zroot, present, (n - 1) as nat);
        if n <= present.len() {
            let before = relinks(zroot, present, (n - 1) as nat);
            let steps = relink(zroot, n - 1, present[n - 1]);
            Seq::filter_distributes_over_add(before, steps, placing());
            lemma_relink_places_the_link(zroot, n - 1, present[n - 1]);
            assert(fresh[n - 1] == false);
        }
    }
}

/// Provisioning a guest again links the same commands as the first time:
/// left without the removals, the steps of the metadata commands are those
/// of a guest in which nothing stood in their places.
pub proof fn lemma_links_do_not_depend_on_what_was_there(zroot: Seq<char>, present: Seq<bool>)
    ensures
        placed(mdata_steps(zroot, present)) == mdata_steps(zroot, vacant(present.len())),
{
    lemma_relinks_place_the_links(zroot, present, COMMANDS as nat);
}

} // verus!
