use guest_tools::error::Error;
use guest_tools::run::{install_tools, Pending};
use guest_tools::step::InstallStep;
use std::collections::BTreeSet;

/// A guest root reduced to the paths that exist in it, with a record of
/// what was asked of it.
struct Guest {
    paths: BTreeSet<String>,
    missing_assets: BTreeSet<String>,
    locked: BTreeSet<String>,
    probed: Vec<String>,
    applied: Vec<InstallStep>,
}

fn guest(paths: &[&str]) -> Guest {
    Guest {
        paths: paths.iter().map(|path| path.to_string()).collect(),
        missing_assets: BTreeSet::new(),
        locked: BTreeSet::new(),
        probed: Vec::new(),
        applied: Vec::new(),
    }
}

fn parent(path: &str) -> String {
    match path.rfind('/') {
        Some(i) => path[..i].to_string(),
        None => String::new(),
    }
}

fn apply(guest: &mut Guest, step: &InstallStep) -> Result<(), String> {
    match step {
        InstallStep::CopyFile { src, dst, .. } => {
            if guest.missing_assets.contains(src) {
                return Err(format!("{}: no such file", src));
            }
            if !guest.paths.contains(&parent(dst)) {
                return Err(format!("{}: no such directory", parent(dst)));
            }
            guest.paths.insert(dst.clone());
            Ok(())
        }
        InstallStep::CopyDir { src, dst, .. } => {
            if guest.missing_assets.contains(src) {
                return Err(format!("{}: no such directory", src));
            }
            guest.paths.insert(dst.clone());
            Ok(())
        }
        InstallStep::Mkdirp { path, .. } => {
            guest.paths.insert(path.clone());
            Ok(())
        }
        InstallStep::Symlink { link, .. } => {
            if guest.paths.contains(link) {
                return Err(format!("{}: file exists", link));
            }
            if !guest.paths.contains(&parent(link)) {
                return Err(format!("{}: no such directory", parent(link)));
            }
            guest.paths.insert(link.clone());
            Ok(())
        }
        InstallStep::Unlink { path } => {
            if guest.locked.contains(path) {
                return Err(format!("{}: permission denied", path));
            }
            guest.paths.remove(path);
            Ok(())
        }
    }
}

fn provision(zroot: &str, guest: &mut Guest) -> Result<(), Error> {
    let mut pending = install_tools(zroot);
    loop {
        pending = match pending {
            Pending::Probe(probe) => {
                let path = probe.path();
                let found = guest.paths.contains(&path);
                guest.probed.push(path);
                probe.resume(found)
            }
            Pending::Apply(step) => {
                let wanted = step.step();
                let outcome = apply(guest, &wanted);
                if outcome.is_ok() {
                    guest.applied.push(wanted);
                }
                step.resume(outcome)
            }
            Pending::Finished(result) => return result,
        }
    }
}

fn skeleton(marker: &str) -> Guest {
    let mut paths = vec![
        "/z",
        "/z/etc",
        "/z/etc/profile.d",
        "/z/usr/sbin",
        "/z/sbin",
        "/z/etc/systemd/system/multi-user.target.wants",
    ];
    if !marker.is_empty() {
        paths.push(marker);
    }
    guest(&paths)
}

fn link(name: &str) -> InstallStep {
    InstallStep::Symlink {
        target: format!("/native/usr/sbin/{}", name),
        link: format!("/z/usr/sbin/{}", name),
        uid: 0,
        gid: 0,
    }
}

fn unlink(name: &str) -> InstallStep {
    InstallStep::Unlink { path: format!("/z/usr/sbin/{}", name) }
}

fn copy(src: &str, dst: &str, mode: u32) -> InstallStep {
    InstallStep::CopyFile { src: src.to_string(), dst: dst.to_string(), uid: 0, gid: 0, mode }
}

fn common() -> Vec<InstallStep> {
    vec![
        link("mdata-get"),
        link("mdata-put"),
        link("mdata-delete"),
        link("mdata-list"),
        copy("guest/etc/profile.d/native_manpath.sh", "/z/etc/profile.d/native_manpath.sh", 0o744),
        InstallStep::CopyDir {
            src: "guest/lib/smartdc".to_string(),
            dst: "/z/lib".to_string(),
            uid: 0,
            gid: 0,
            mode: 0o755,
        },
    ]
}

#[test]
fn run_starts_by_asking_for_the_first_command() {
    match install_tools("/zones/a/root") {
        Pending::Probe(probe) => assert_eq!(probe.path(), "/zones/a/root/usr/sbin/mdata-get"),
        other => panic!("unexpected start: {:?}", other),
    }
}

#[test]
fn fresh_debian_guest_is_provisioned() {
    let mut debian = skeleton("/z/etc/debian_version");
    assert_eq!(provision("/z", &mut debian), Ok(()));
    let mut expected = common();
    expected.push(copy("guest/lib/smartdc/joyent_rc.local", "/z/etc/rc.local", 0o755));
    assert_eq!(debian.applied, expected);
    assert_eq!(
        debian.probed,
        vec![
            "/z/usr/sbin/mdata-get",
            "/z/usr/sbin/mdata-put",
            "/z/usr/sbin/mdata-delete",
            "/z/usr/sbin/mdata-list",
            "/z/etc/alpine-release",
            "/z/etc/arch-release",
            "/z/etc/debian_version",
        ]
    );
}

#[test]
fn fresh_alpine_guest_is_provisioned() {
    let mut alpine = skeleton("/z/etc/alpine-release");
    assert_eq!(provision("/z", &mut alpine), Ok(()));
    let mut expected = common();
    expected.push(copy("guest/lib/smartdc/joyent_rc.local", "/z/etc/rc.local", 0o755));
    expected.push(copy("guest/sbin/shutdown", "/z/sbin/shutdown", 0o744));
    assert_eq!(alpine.applied, expected);
    assert_eq!(alpine.probed.len(), 5);
    assert_eq!(alpine.probed[4], "/z/etc/alpine-release");
}

#[test]
fn fresh_void_guest_probes_every_marker() {
    let mut void = skeleton("/z/etc/void-release");
    assert_eq!(provision("/z", &mut void), Ok(()));
    assert_eq!(
        void.probed[4..].to_vec(),
        vec![
            "/z/etc/alpine-release",
            "/z/etc/arch-release",
            "/z/etc/debian_version",
            "/z/etc/redhat-release",
            "/z/etc/void-release",
        ]
    );
    assert_eq!(void.applied.len(), 8);
    assert!(void.paths.contains("/z/sbin/shutdown"));
}

#[test]
fn fresh_redhat_guest_is_provisioned() {
    let mut redhat = skeleton("/z/etc/redhat-release");
    assert_eq!(provision("/z", &mut redhat), Ok(()));
    assert_eq!(redhat.applied.len(), 7);
    assert!(redhat.paths.contains("/z/etc/rc.local"));
    assert!(!redhat.paths.contains("/z/sbin/shutdown"));
}

#[test]
fn arch_guest_gets_the_unit_and_its_link() {
    let mut arch = skeleton("/z/etc/arch-release");
    assert_eq!(provision("/z", &mut arch), Ok(()));
    assert_eq!(
        arch.applied[6..].to_vec(),
        vec![
            InstallStep::Mkdirp {
                path: "/z/etc/systemd/system".to_string(),
                uid: 0,
                gid: 0,
                mode: 0o755,
            },
            copy(
                "etc/systemd/system/joyent.service",
                "/z/etc/systemd/system/joyent.service",
                0o755
            ),
            InstallStep::Symlink {
                target: "/z/etc/systemd/system/joyent.service".to_string(),
                link: "/z/etc/systemd/system/multi-user.target.wants/joyent.service".to_string(),
                uid: 0,
                gid: 0,
            },
        ]
    );
    assert!(arch.paths.contains("/z/etc/systemd/system"));
    assert!(arch.paths.contains("/z/etc/systemd/system/joyent.service"));
    assert!(arch.paths.contains("/z/etc/systemd/system/multi-user.target.wants/joyent.service"));
}

#[test]
fn guest_without_marker_is_unsupported_after_the_common_parts() {
    let mut bare = skeleton("");
    assert_eq!(provision("/z", &mut bare), Err(Error::UnsupportedDistribution));
    assert_eq!(bare.applied, common());
    assert_eq!(bare.probed.len(), 9);
    assert!(!bare.paths.contains("/z/etc/rc.local"));
}

#[test]
fn two_markers_install_the_earlier_distribution() {
    let mut both = skeleton("/z/etc/void-release");
    both.paths.insert("/z/etc/debian_version".to_string());
    assert_eq!(provision("/z", &mut both), Ok(()));
    assert_eq!(both.applied.len(), 7);
    assert!(!both.paths.contains("/z/sbin/shutdown"));
    assert_eq!(both.probed.last().unwrap(), "/z/etc/debian_version");
}

#[test]
fn second_run_removes_and_recreates_the_links() {
    let mut debian = skeleton("/z/etc/debian_version");
    assert_eq!(provision("/z", &mut debian), Ok(()));
    let first = debian.applied.clone();
    let after_first = debian.paths.clone();
    debian.applied.clear();
    debian.probed.clear();
    assert_eq!(provision("/z", &mut debian), Ok(()));
    assert_eq!(
        debian.applied[..8].to_vec(),
        vec![
            unlink("mdata-get"),
            link("mdata-get"),
            unlink("mdata-put"),
            link("mdata-put"),
            unlink("mdata-delete"),
            link("mdata-delete"),
            unlink("mdata-list"),
            link("mdata-list"),
        ]
    );
    let placed: Vec<InstallStep> = debian
        .applied
        .iter()
        .filter(|step| !matches!(step, InstallStep::Unlink { .. }))
        .cloned()
        .collect();
    assert_eq!(placed, first);
    assert_eq!(debian.paths, after_first);
}

#[test]
fn only_existing_links_are_removed() {
    let mut debian = skeleton("/z/etc/debian_version");
    debian.paths.insert("/z/usr/sbin/mdata-put".to_string());
    assert_eq!(provision("/z", &mut debian), Ok(()));
    assert_eq!(
        debian.applied[..5].to_vec(),
        vec![
            link("mdata-get"),
            unlink("mdata-put"),
            link("mdata-put"),
            link("mdata-delete"),
            link("mdata-list"),
        ]
    );
}

#[test]
fn each_place_is_probed_before_its_link_is_made() {
    let mut pending = install_tools("/z");
    let mut asked: Vec<String> = Vec::new();
    for _ in 0..8 {
        pending = match pending {
            Pending::Probe(probe) => {
                asked.push(format!("probe {}", probe.path()));
                probe.resume(false)
            }
            Pending::Apply(step) => {
                asked.push(format!("apply {}", step.step().place()));
                step.resume(Ok(()))
            }
            Pending::Finished(_) => panic!("finished too early"),
        }
    }
    assert_eq!(
        asked,
        vec![
            "probe /z/usr/sbin/mdata-get",
            "apply /z/usr/sbin/mdata-get",
            "probe /z/usr/sbin/mdata-put",
            "apply /z/usr/sbin/mdata-put",
            "probe /z/usr/sbin/mdata-delete",
            "apply /z/usr/sbin/mdata-delete",
            "probe /z/usr/sbin/mdata-list",
            "apply /z/usr/sbin/mdata-list",
        ]
    );
}

#[test]
fn removal_that_fails_ends_the_run() {
    let mut debian = skeleton("/z/etc/debian_version");
    debian.paths.insert("/z/usr/sbin/mdata-get".to_string());
    debian.locked.insert("/z/usr/sbin/mdata-get".to_string());
    assert_eq!(
        provision("/z", &mut debian),
        Err(Error::UnlinkFailed {
            path: "/z/usr/sbin/mdata-get".to_string(),
            cause: "/z/usr/sbin/mdata-get: permission denied".to_string(),
        })
    );
    assert!(debian.applied.is_empty());
    assert_eq!(debian.probed, vec!["/z/usr/sbin/mdata-get"]);
}

#[test]
fn link_that_fails_ends_the_run() {
    let mut debian = guest(&["/z", "/z/etc", "/z/etc/debian_version"]);
    assert_eq!(
        provision("/z", &mut debian),
        Err(Error::FilesystemOperationFailed {
            step: link("mdata-get"),
            cause: "/z/usr/sbin: no such directory".to_string(),
        })
    );
    assert!(debian.applied.is_empty());
    assert_eq!(debian.probed.len(), 1);
}

#[test]
fn missing_manpath_script_ends_the_run() {
    let mut debian = skeleton("/z/etc/debian_version");
    debian.missing_assets.insert("guest/etc/profile.d/native_manpath.sh".to_string());
    let result = provision("/z", &mut debian);
    assert_eq!(
        result,
        Err(Error::FilesystemOperationFailed {
            step: copy(
                "guest/etc/profile.d/native_manpath.sh",
                "/z/etc/profile.d/native_manpath.sh",
                0o744
            ),
            cause: "guest/etc/profile.d/native_manpath.sh: no such file".to_string(),
        })
    );
    assert_eq!(debian.applied.len(), 4);
    assert!(!debian.paths.contains("/z/lib"));
}

#[test]
fn missing_helper_scripts_end_the_run_before_the_distribution() {
    let mut debian = skeleton("/z/etc/debian_version");
    debian.missing_assets.insert("guest/lib/smartdc".to_string());
    let result = provision("/z", &mut debian);
    assert_eq!(
        result,
        Err(Error::FilesystemOperationFailed {
            step: InstallStep::CopyDir {
                src: "guest/lib/smartdc".to_string(),
                dst: "/z/lib".to_string(),
                uid: 0,
                gid: 0,
                mode: 0o755,
            },
            cause: "guest/lib/smartdc: no such directory".to_string(),
        })
    );
    assert_eq!(debian.applied.len(), 5);
    assert_eq!(debian.probed.len(), 4);
    assert!(!debian.paths.contains("/z/etc/rc.local"));
}

#[test]
fn failure_in_a_distribution_step_keeps_what_was_applied() {
    let mut alpine = guest(&[
        "/z",
        "/z/etc",
        "/z/etc/profile.d",
        "/z/usr/sbin",
        "/z/etc/alpine-release",
    ]);
    assert_eq!(
        provision("/z", &mut alpine),
        Err(Error::FilesystemOperationFailed {
            step: copy("guest/sbin/shutdown", "/z/sbin/shutdown", 0o744),
            cause: "/z/sbin: no such directory".to_string(),
        })
    );
    assert_eq!(alpine.applied.len(), 7);
    assert!(alpine.paths.contains("/z/etc/rc.local"));
}

#[test]
fn arch_link_that_exists_fails_on_a_second_run() {
    let mut arch = skeleton("/z/etc/arch-release");
    assert_eq!(provision("/z", &mut arch), Ok(()));
    arch.applied.clear();
    let second = provision("/z", &mut arch);
    match second {
        Err(Error::FilesystemOperationFailed { step: InstallStep::Symlink { link, .. }, .. }) => {
            assert_eq!(link, "/z/etc/systemd/system/multi-user.target.wants/joyent.service")
        }
        other => panic!("unexpected result: {:?}", other),
    }
}

#[test]
fn root_with_trailing_separator_gives_the_same_paths() {
    match install_tools("/z/") {
        Pending::Probe(probe) => assert_eq!(probe.path(), "/z/usr/sbin/mdata-get"),
        other => panic!("unexpected start: {:?}", other),
    }
}

#[test]
fn finished_runs_compare_by_their_result() {
    let mut bare = skeleton("");
    let mut debian = skeleton("/z/etc/debian_version");
    assert_ne!(provision("/z", &mut bare), provision("/z", &mut debian));
}

#[test]
fn distribution_is_known_once_the_guest_is_integrated() {
    let mut pending = install_tools("/z");
    let mut told = Vec::new();
    loop {
        pending = match pending {
            Pending::Probe(probe) => {
                let found = probe.path() == "/z/etc/redhat-release";
                probe.resume(found)
            }
            Pending::Apply(step) => {
                told.push(step.detected());
                step.resume(Ok(()))
            }
            Pending::Finished(result) => {
                assert_eq!(result, Ok(()));
                break;
            }
        }
    }
    let mut expected = vec![None; 6];
    expected.push(Some(guest_tools::distro::Distro::Redhat));
    assert_eq!(told, expected);
}
