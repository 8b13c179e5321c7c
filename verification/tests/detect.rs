use guest_tools::distro::{Distro, MARKERS};
use guest_tools::error::Error;
use guest_tools::step::InstallStep;
use guest_tools::tools::install_distro;

fn only(i: usize) -> Vec<bool> {
    let mut present = vec![false; MARKERS];
    present[i] = true;
    present
}

#[test]
fn table_order_is_alpine_arch_debian_redhat_void() {
    assert_eq!(Distro::at(0), Distro::Alpine);
    assert_eq!(Distro::at(1), Distro::Arch);
    assert_eq!(Distro::at(2), Distro::Debian);
    assert_eq!(Distro::at(3), Distro::Redhat);
    assert_eq!(Distro::at(4), Distro::Void);
    assert_eq!(Distro::at(5), Distro::Unknown);
    assert_eq!(Distro::at(usize::MAX), Distro::Unknown);
}

#[test]
fn marker_files_of_the_table() {
    assert_eq!(Distro::Alpine.marker(), Some("etc/alpine-release"));
    assert_eq!(Distro::Arch.marker(), Some("etc/arch-release"));
    assert_eq!(Distro::Debian.marker(), Some("etc/debian_version"));
    assert_eq!(Distro::Redhat.marker(), Some("etc/redhat-release"));
    assert_eq!(Distro::Void.marker(), Some("etc/void-release"));
    assert_eq!(Distro::Unknown.marker(), None);
}

#[test]
fn single_marker_tells_its_distribution() {
    assert_eq!(Distro::detect(&only(0)), Distro::Alpine);
    assert_eq!(Distro::detect(&only(1)), Distro::Arch);
    assert_eq!(Distro::detect(&only(2)), Distro::Debian);
    assert_eq!(Distro::detect(&only(3)), Distro::Redhat);
    assert_eq!(Distro::detect(&only(4)), Distro::Void);
}

#[test]
fn single_marker_is_never_unknown() {
    for i in 0..MARKERS {
        assert_ne!(Distro::detect(&only(i)), Distro::Unknown);
        assert_eq!(Distro::detect(&only(i)), Distro::at(i));
    }
}

#[test]
fn no_marker_is_unknown() {
    assert_eq!(Distro::detect(&vec![false; 5]), Distro::Unknown);
    assert_eq!(Distro::detect(&Vec::new()), Distro::Unknown);
    assert_eq!(Distro::detect(&vec![false, false]), Distro::Unknown);
}

#[test]
fn earlier_marker_wins_over_later() {
    for i in 0..MARKERS {
        for j in (i + 1)..MARKERS {
            let mut present = vec![false; MARKERS];
            present[i] = true;
            present[j] = true;
            assert_eq!(Distro::detect(&present), Distro::at(i));
        }
    }
    assert_eq!(Distro::detect(&vec![true; 5]), Distro::Alpine);
    assert_eq!(Distro::detect(&vec![false, false, true, true, false]), Distro::Debian);
}

#[test]
fn short_answers_count_the_rest_as_absent() {
    assert_eq!(Distro::detect(&vec![false, true]), Distro::Arch);
    assert_eq!(Distro::detect(&vec![true]), Distro::Alpine);
}

#[test]
fn answers_beyond_the_table_are_ignored() {
    assert_eq!(Distro::detect(&vec![false, false, false, false, false, true]), Distro::Unknown);
    assert_eq!(Distro::detect(&vec![false, false, false, false, true, true]), Distro::Void);
}

#[test]
fn install_distro_follows_the_detected_distribution() {
    for i in 0..MARKERS {
        assert_eq!(install_distro("/z", &only(i)), Distro::at(i).install("/z"));
    }
    assert_eq!(
        install_distro("/zones/a/root", &only(2)),
        Ok(vec![InstallStep::CopyFile {
            src: "guest/lib/smartdc/joyent_rc.local".to_string(),
            dst: "/zones/a/root/etc/rc.local".to_string(),
            uid: 0,
            gid: 0,
            mode: 0o755,
        }])
    );
}

#[test]
fn install_distro_without_marker_is_unsupported() {
    assert_eq!(install_distro("/z", &vec![false; 5]), Err(Error::UnsupportedDistribution));
    assert_eq!(install_distro("/z", &Vec::new()), Err(Error::UnsupportedDistribution));
}
