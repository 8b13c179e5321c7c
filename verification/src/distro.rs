//! Telling the distribution of a guest apart, and what each one needs.

use vstd::prelude::*;
use crate::error::{Error, ErrorSpec};
use crate::path::{join_path, joined};
use crate::step::{step_views, InstallStep, StepSpec, ROOT_GID, ROOT_UID};

verus! {

/// The distributions that provisioning tells apart.
#[derive(Debug, Clone, Copy, PartialEq, Eq, Structural)]
pub enum Distro {
    Alpine,
    Arch,
    Debian,
    Redhat,
    Void,
    Unknown,
}

/// How many distributions have a marker file.
pub const MARKERS: usize = 5;

/// Whether the marker at place `i` of the table was reported as existing.
/// A place that `present` does not reach counts as absent.
pub open spec fn marked(present: Seq<bool>, i: int) -> bool {
    0 <= i < present.len() && i < MARKERS && present[i]
}

/// The hook script that runs near the end of boot, at `etc/rc.local`.
pub open spec fn rc_local(zroot: Seq<char>) -> StepSpec {
    StepSpec::CopyFile {
        src: "guest/lib/smartdc/joyent_rc.local"@,
        dst: joined(zroot, "etc/rc.local"@),
        uid: ROOT_UID,
        gid: ROOT_GID,
        mode: 0o755,
    }
}

/// The replacement of the shutdown command, at `sbin/shutdown`.
pub open spec fn shutdown(zroot: Seq<char>) -> StepSpec {
    StepSpec::CopyFile {
        src: "guest/sbin/shutdown"@,
        dst: joined(zroot, "sbin/shutdown"@),
        uid: ROOT_UID,
        gid: ROOT_GID,
        mode: 0o744,
    }
}

/// The directory of the guest's systemd units.
pub open spec fn unit_dir(zroot: Seq<char>) -> Seq<char> {
    joined(zroot, "etc/systemd/system"@)
}

/// The unit file of the guest agent, inside [`unit_dir`].
pub open spec fn unit_file(zroot: Seq<char>) -> Seq<char> {
    joined(unit_dir(zroot), "joyent.service"@)
}

/// The three steps that install and enable the systemd unit: make the unit
/// directory, copy the unit file into it, and link the unit file into the
/// wants of the multi-user target.
pub open spec fn systemd_steps(zroot: Seq<char>) -> Seq<StepSpec> {
    seq![
        StepSpec::Mkdirp { path: unit_dir(zroot), uid: ROOT_UID, gid: ROOT_GID, mode: 0o755 },
        StepSpec::CopyFile {
            src: "etc/systemd/system/joyent.service"@,
            dst: unit_file(zroot),
            uid: ROOT_UID,
            gid: ROOT_GID,
            mode: 0o755,
        },
        StepSpec::Symlink {
            target: unit_file(zroot),
            link: joined(zroot, "etc/systemd/system/multi-user.target.wants/joyent.service"@),
            uid: ROOT_UID,
            gid: ROOT_GID,
        },
    ]
}

impl Distro {
    /// The distribution at place `i` of the marker table, which lists the
    /// supported distributions in the order in which they are looked for.
    pub open spec fn ranked(i: int) -> Distro {
        if i == 0 {
            Distro::Alpine
        } else if i == 1 {
            Distro::Arch
        } else if i == 2 {
            Distro::Debian
        } else if i == 3 {
            Distro::Redhat
        } else if i == 4 {
            Distro::Void
        } else {
            Distro::Unknown
        }
    }

    /// The place of a distribution in the marker table; [`MARKERS`] for
    /// [`Distro::Unknown`], which has no marker.
    pub open spec fn rank(self) -> int {
        match self {
            Distro::Alpine => 0,
            Distro::Arch => 1,
            Distro::Debian => 2,
            Distro::Redhat => 3,
            Distro::Void => 4,
            Distro::Unknown => 5,
        }
    }

    /// The file whose presence tells the distribution, relative to the guest
    /// root; empty for [`Distro::Unknown`].
    pub open spec fn marker_spec(self) -> Seq<char> {
        match self {
            Distro::Alpine => "etc/alpine-release"@,
            Distro::Arch => "etc/arch-release"@,
            Distro::Debian => "etc/debian_version"@,
            Distro::Redhat => "etc/redhat-release"@,
            Distro::Void => "etc/void-release"@,
            Distro::Unknown => Seq::empty(),
        }
    }

    /// The distribution that `present` tells: the first in table order whose
    /// marker exists, and [`Distro::Unknown`] where none does.
    pub open spec fn detected(present: Seq<bool>) -> Distro {
        if marked(present, 0) {
            Distro::Alpine
        } else if marked(present, 1) {
            Distro::Arch
        } else if marked(present, 2) {
            Distro::Debian
        } else if marked(present, 3) {
            Distro::Redhat
        } else if marked(present, 4) {
            Distro::Void
        } else {
            Distro::Unknown
        }
    }

    /// The steps that integrate a guest of this distribution, in the order
    /// in which they are applied; none for [`Distro::Unknown`].
    pub open spec fn steps(self, zroot: Seq<char>) -> Seq<StepSpec> {
        match self {
            Distro::Alpine => seq![rc_local(zroot), shutdown(zroot)],
            Distro::Arch => systemd_steps(zroot),
            Distro::Debian => seq![rc_local(zroot)],
            Distro::Redhat => seq![rc_local(zroot)],
            Distro::Void => seq![rc_local(zroot), shutdown(zroot)],
            Distro::Unknown => Seq::empty(),
        }
    }

    /// The distribution at place `i` of the marker table.
    pub fn at(i: usize) -> (distro: Distro)
        ensures
            distro == Distro::ranked(i as int),
            i < MARKERS ==> distro.rank() == i,
            i < MARKERS <==> distro != Distro::Unknown,
    {
        if i == 0 {
            Distro::Alpine
        } else if i == 1 {
            Distro::Arch
        } else if i == 2 {
            Distro::Debian
        } else if i == 3 {
            Distro::Redhat
        } else if i == 4 {
            Distro::Void
        } else {
            Distro::Unknown
        }
    }

    /// The file whose presence tells the distribution, relative to the guest
    /// root.
    pub fn marker(&self) -> (file: Option<&'static str>)
        ensures
            file is None <==> *self == Distro::Unknown,
            file matches Some(name) ==> name@ == self.marker_spec(),
    {
        match self {
            Distro::Alpine => Some("etc/alpine-release"),
            Distro::Arch => Some("etc/arch-release"),
            Distro::Debian => Some("etc/debian_version"),
            Distro::Redhat => Some("etc/redhat-release"),
            Distro::Void => Some("etc/void-release"),
            Distro::Unknown => None,
        }
    }

    /// Tells the distribution of a guest from its marker files. `present`
    /// says of each marker, in table order, whether it exists in the guest
    /// root. The first that exists decides; where none exists the guest is
    /// [`Distro::Unknown`]. This never fails.
    pub fn detect(present: &Vec<bool>) -> (distro: Distro)
        ensures
            distro == Distro::detected(present@),
            distro != Distro::Unknown ==> marked(present@, distro.rank()),
            forall|i: int| 0 <= i < distro.rank() ==> !marked(present@, i),
    {
        let mut i: usize = 0;
        while i < MARKERS
            invariant
                i <= MARKERS,
                forall|j: int| 0 <= j < i ==> !marked(present@, j),
            decreases MARKERS - i,
        {
            if i < present.len() && present[i] {
                return Distro::at(i);
            }
            i += 1;
        }
        Distro::Unknown
    }

    /// The steps that integrate a guest of this distribution into the host,
    /// with every destination below `zroot`, in the order in which they are
    /// to be applied. For [`Distro::Unknown`] there is nothing to apply and
    /// the answer is [`Error::UnsupportedDistribution`].
    pub fn install(&self, zroot: &str) -> (plan: Result<Vec<InstallStep>, Error>)
        ensures
            plan is Err <==> *self == Distro::Unknown,
            plan matches Err(error) ==> error@ == ErrorSpec::UnsupportedDistribution,
            plan matches Ok(steps) ==> step_views(steps@) == self.steps(zroot@),
    {
        let mut steps: Vec<InstallStep> = Vec::new();
        match self {
            Distro::Alpine | Distro::Void => {
                steps.push(copy_rc_local(zroot));
                steps.push(copy_shutdown(zroot));
            },
            Distro::Arch => {
                let system = join_path(zroot, "etc/systemd/system");
                let service = join_path(system.as_str(), "joyent.service");
                let enable = join_path(
                    zroot,
                    "etc/systemd/system/multi-user.target.wants/joyent.service",
                );
                steps.push(
                    InstallStep::Mkdirp { path: system, uid: ROOT_UID, gid: ROOT_GID, mode: 0o755 },
                );
                steps.push(
                    InstallStep::CopyFile {
                        src: "etc/systemd/system/joyent.service".to_string(),
                        dst: service.clone(),
                        uid: ROOT_UID,
                        gid: ROOT_GID,
                        mode: 0o755,
                    },
                );
                steps.push(
                    InstallStep::Symlink {
                        target: service,
                        link: enable,
                        uid: ROOT_UID,
                        gid: ROOT_GID,
                    },
                );
            },
            Distro::Debian | Distro::Redhat => {
                steps.push(copy_rc_local(zroot));
            },
            Distro::Unknown => {
                return Err(Error::UnsupportedDistribution);
            },
        }
        assert(step_views(steps@) =~= self.steps(zroot@));
        Ok(steps)
    }
}

/// The step that copies the boot hook script into the guest.
fn copy_rc_local(zroot: &str) -> (step: InstallStep)
    ensures
        step@ == rc_local(zroot@),
{
    InstallStep::CopyFile {
        src: "guest/lib/smartdc/joyent_rc.local".to_string(),
        dst: join_path(zroot, "etc/rc.local"),
        uid: ROOT_UID,
        gid: ROOT_GID,
        mode: 0o755,
    }
}

/// The step that copies the replacement of the shutdown command into the
/// guest.
fn copy_shutdown(zroot: &str) -> (step: InstallStep)
    ensures
        step@ == shutdown(zroot@),
{
    InstallStep::CopyFile {
        src: "guest/sbin/shutdown".to_string(),
        dst: join_path(zroot, "sbin/shutdown"),
        uid: ROOT_UID,
        gid: ROOT_GID,
        mode: 0o744,
    }
}

/// The first marker that exists decides: where the marker at place `i`
/// exists and none before it does, the guest is told as the distribution at
/// place `i`, whatever is reported of the later markers.
pub proof fn lemma_first_marker_decides(present: Seq<bool>, i: int)
    requires
        0 <= i < MARKERS,
        marked(present, i),
        forall|j: int| 0 <= j < i ==> !marked(present, j),
    ensures
        Distro::detected(present) == Distro::ranked(i),
        Distro::detected(present) != Distro::Unknown,
{
}

/// A guest root that holds exactly one of the marker files is told as the
/// distribution of that marker, and never as [`Distro::Unknown`].
pub proof fn lemma_single_marker(present: Seq<bool>, i: int)
    requires
        0 <= i < MARKERS,
        marked(present, i),
        forall|j: int| 0 <= j < MARKERS && j != i ==> !marked(present, j),
    ensures
        Distro::detected(present) == Distro::ranked(i),
        Distro::detected(present) != Distro::Unknown,
        Distro::detected(present).rank() == i,
{
}

/// A guest root that holds no marker file is told as [`Distro::Unknown`],
/// for which there is no step that would create or change a file, under any
/// root.
pub proof fn lemma_no_marker(present: Seq<bool>, zroot: Seq<char>)
    requires
        forall|j: int| 0 <= j < MARKERS ==> !marked(present, j),
    ensures
        Distro::detected(present) == Distro::Unknown,
        Distro::detected(present).steps(zroot).len() == 0,
{
}

/// A guest root that holds the marker files of two distributions is told as
/// the one that stands earlier in the table.
pub proof fn lemma_two_markers(present: Seq<bool>, i: int, j: int)
    requires
        0 <= i < j < MARKERS,
        marked(present, i),
        marked(present, j),
        forall|k: int| 0 <= k < MARKERS && k != i && k != j ==> !marked(present, k),
    ensures
        Distro::detected(present) == Distro::ranked(i),
{
}

} // verus!
