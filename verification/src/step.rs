//! The single operations that provisioning asks of the filesystem.

use vstd::prelude::*;

verus! {

/// Owner of everything that is placed in a guest root.
pub const ROOT_UID: u32 = 0;

/// Group of everything that is placed in a guest root.
pub const ROOT_GID: u32 = 0;

/// One operation on the filesystem, described as data. Source paths of
/// copies are relative to the bundled assets; every other path is complete.
#[derive(Debug, Clone, PartialEq, Eq)]
pub enum InstallStep {
    /// Copy one file, then set owner, group and permission bits.
    CopyFile { src: String, dst: String, uid: u32, gid: u32, mode: u32 },
    /// Copy a directory tree, giving every copied file the permission bits.
    CopyDir { src: String, dst: String, uid: u32, gid: u32, mode: u32 },
    /// Create a directory and its missing ancestors.
    Mkdirp { path: String, uid: u32, gid: u32, mode: u32 },
    /// Create `link` as a symbolic link that points at `target`.
    Symlink { target: String, link: String, uid: u32, gid: u32 },
    /// Remove a file that is in the way of a link.
    Unlink { path: String },
}

/// What an [`InstallStep`] says, with each path as a sequence of characters.
pub enum StepSpec {
    CopyFile { src: Seq<char>, dst: Seq<char>, uid: u32, gid: u32, mode: u32 },
    CopyDir { src: Seq<char>, dst: Seq<char>, uid: u32, gid: u32, mode: u32 },
    Mkdirp { path: Seq<char>, uid: u32, gid: u32, mode: u32 },
    Symlink { target: Seq<char>, link: Seq<char>, uid: u32, gid: u32 },
    Unlink { path: Seq<char> },
}

impl StepSpec {
    /// The path in the guest root that the step creates, fills or removes.
    pub open spec fn place(self) -> Seq<char> {
        match self {
            StepSpec::CopyFile { dst, .. } => dst,
            StepSpec::CopyDir { dst, .. } => dst,
            StepSpec::Mkdirp { path, .. } => path,
            StepSpec::Symlink { link, .. } => link,
            StepSpec::Unlink { path } => path,
        }
    }

    /// Whether the step leaves something new in the guest root; only an
    /// [`StepSpec::Unlink`] does not.
    pub open spec fn places(self) -> bool {
        !(self is Unlink)
    }
}

impl View for InstallStep {
    type V = StepSpec;

    open spec fn view(&self) -> StepSpec {
        match *self {
            InstallStep::CopyFile { src, dst, uid, gid, mode } => StepSpec::CopyFile {
                src: src@,
                dst: dst@,
                uid,
                gid,
                mode,
            },
            InstallStep::CopyDir { src, dst, uid, gid, mode } => StepSpec::CopyDir {
                src: src@,
                dst: dst@,
                uid,
                gid,
                mode,
            },
            InstallStep::Mkdirp { path, uid, gid, mode } => StepSpec::Mkdirp {
                path: path@,
                uid,
                gid,
                mode,
            },
            InstallStep::Symlink { target, link, uid, gid } => StepSpec::Symlink {
                target: target@,
                link: link@,
                uid,
                gid,
            },
            InstallStep::Unlink { path } => StepSpec::Unlink { path: path@ },
        }
    }
}

impl InstallStep {
    /// The path in the guest root that the step creates, fills or removes.
    pub fn place(&self) -> (path: &String)
        ensures
            path@ == self@.place(),
    {
        match self {
            InstallStep::CopyFile { dst, .. } => dst,
            InstallStep::CopyDir { dst, .. } => dst,
            InstallStep::Mkdirp { path, .. } => path,
            InstallStep::Symlink { link, .. } => link,
            InstallStep::Unlink { path } => path,
        }
    }
}

/// The steps of `steps`, each by its view.
pub open spec fn step_views(steps: Seq<InstallStep>) -> Seq<StepSpec> {
    Seq::new(steps.len(), |i: int| steps[i]@)
}

} // verus!
