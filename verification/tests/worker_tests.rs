use oxidizr_swap::command::Command;
use oxidizr_swap::distro::{
    cgroup_mentions_docker, detect_supported_distribution, CompatibilityStatus, Distribution,
    PackageManagerKind, SupportedLinuxDistribution,
};
use oxidizr_swap::experiment::UutilsExperiment;
use oxidizr_swap::fsmodel::FsEntry;
use oxidizr_swap::lookup::resolve_existing_on_host;
use oxidizr_swap::pathname::{backup_filename, basename};
use oxidizr_swap::system::System;
use oxidizr_swap::Error;

#[test]
fn test_backup_filename() {
    let file = "/home/user/config";
    let backup = backup_filename(file);
    assert_eq!(backup, "/home/user/.config.oxidizr.bak".to_string());

    let file = "config";
    let backup = backup_filename(file);
    assert_eq!(backup, ".config.oxidizr.bak".to_string());

    let file = "/etc/hosts";
    let backup = backup_filename(file);
    assert_eq!(backup, "/etc/.hosts.oxidizr.bak".to_string());

    let file = ".hidden";
    let backup = backup_filename(file);
    assert_eq!(backup, "..hidden.oxidizr.bak".to_string());
}

#[test]
fn basename_takes_everything_after_the_last_slash() {
    assert_eq!(basename("/usr/bin/date"), "date".to_string());
    assert_eq!(basename("date"), "date".to_string());
    assert_eq!(basename("/usr/bin/"), "".to_string());
}

fn ubuntu_system() -> System {
    System::new(SupportedLinuxDistribution::Ubuntu).unwrap()
}

#[test]
fn replace_with_symlink_is_idempotent() {
    let mut s = ubuntu_system();
    s.add_file("/usr/bin/date", "original", 0o755, true);
    assert!(s.replace_file_with_symlink("/opt/new/date", "/usr/bin/date").is_ok());
    let events_once = s.events().len();
    assert!(s.replace_file_with_symlink("/opt/new/date", "/usr/bin/date").is_ok());

    // The second call is a no-op: no further action, same end state.
    assert_eq!(s.events().len(), events_once);
    match s.get_file("/usr/bin/date") {
        Some(FsEntry::Link { source }) => assert_eq!(source.as_str(), "/opt/new/date"),
        other => panic!("expected a symlink, found {:?}", other),
    }
    assert_eq!(s.backed_up_files(), vec!["/usr/bin/date".to_string()]);
}

#[test]
fn backup_delete_restore_round_trip_preserves_content_and_mode() {
    let mut s = ubuntu_system();
    s.add_file("/usr/bin/tool", "payload", 0o4755, false);
    assert!(s.backup_file("/usr/bin/tool").is_ok());
    s.remove_file("/usr/bin/tool");
    assert!(s.get_file("/usr/bin/tool").is_none());
    assert!(s.restore_file("/usr/bin/tool").is_ok());

    match s.get_file("/usr/bin/tool") {
        Some(FsEntry::Regular { content, mode }) => {
            assert_eq!(content.as_str(), "payload");
            assert_eq!(*mode, 0o4755);
        }
        other => panic!("expected the restored file, found {:?}", other),
    }
    assert!(s.get_file("/usr/bin/.tool.oxidizr.bak").is_none());
}

#[test]
fn restore_without_backup_succeeds_and_changes_nothing() {
    let mut s = ubuntu_system();
    s.add_file("/usr/bin/tool", "payload", 0o755, false);
    assert!(s.restore_file("/usr/bin/tool").is_ok());
    match s.get_file("/usr/bin/tool") {
        Some(FsEntry::Regular { content, mode }) => {
            assert_eq!(content.as_str(), "payload");
            assert_eq!(*mode, 0o755);
        }
        other => panic!("expected the file untouched, found {:?}", other),
    }

    // An absent file stays absent, and the call still succeeds.
    assert!(s.restore_file("/usr/bin/absent").is_ok());
    assert!(s.get_file("/usr/bin/absent").is_none());
}

#[test]
fn backup_of_missing_file_fails() {
    let mut s = ubuntu_system();
    assert!(matches!(s.backup_file("/no/such/file"), Err(Error::Backup { .. })));
}

fn fixture(system: &System) -> UutilsExperiment {
    UutilsExperiment::new(
        "coreutils",
        system,
        "rust-coreutils",
        "24.04",
        None,
        "/usr/lib/cargo/bin/coreutils".to_string(),
    )
}

#[test]
fn compatibility_gate_is_a_string_comparison() {
    for (release, expected) in [("20.04", false), ("24.04", true), ("24.10", true)] {
        let mut s = ubuntu_system();
        s.set_distribution(Distribution {
            id: "Ubuntu".to_string(),
            release: release.to_string(),
        });
        let e = fixture(&s);
        assert_eq!(e.check_compatible(), expected, "release {}", release);
    }

    // Lexicographic, not numeric: "9.10" compares above "24.04".
    let mut s = ubuntu_system();
    s.set_distribution(Distribution {
        id: "Ubuntu".to_string(),
        release: "9.10".to_string(),
    });
    let e = fixture(&s);
    assert!(e.check_compatible());
}

#[test]
fn package_manager_selection_is_case_insensitive_and_total() {
    assert_eq!(PackageManagerKind::select("ubuntu"), PackageManagerKind::Apt);
    assert_eq!(PackageManagerKind::select("Ubuntu"), PackageManagerKind::Apt);
    assert_eq!(PackageManagerKind::select("AZURELINUX"), PackageManagerKind::Tdnf);
    assert_eq!(PackageManagerKind::select("fedora"), PackageManagerKind::Dnf);
    assert_eq!(PackageManagerKind::select("arch"), PackageManagerKind::Pacman);
    assert_eq!(PackageManagerKind::select("gentoo"), PackageManagerKind::Unknown);
}

#[test]
fn unknown_package_manager_fails_every_command() {
    let k = PackageManagerKind::Unknown;
    assert!(matches!(k.gen_install_command("p"), Err(Error::UnsupportedPlatform)));
    assert!(matches!(k.gen_remove_command("p"), Err(Error::UnsupportedPlatform)));
    assert!(matches!(k.gen_update_command(), Err(Error::UnsupportedPlatform)));
    assert!(matches!(k.gen_check_installed_command("p"), Err(Error::UnsupportedPlatform)));
}

#[test]
fn command_templates_follow_the_package_manager() {
    let apt = PackageManagerKind::Apt;
    assert_eq!(apt.gen_install_command("pkg").unwrap().display(), "apt-get install -y pkg");
    assert_eq!(apt.gen_remove_command("pkg").unwrap().display(), "apt-get remove -y pkg");
    assert_eq!(apt.gen_update_command().unwrap().display(), "apt-get update");
    assert_eq!(apt.gen_check_installed_command("pkg").unwrap().display(), "dpkg-query -s pkg");

    let tdnf = PackageManagerKind::Tdnf;
    assert_eq!(tdnf.gen_install_command("pkg").unwrap().display(), "tdnf install -y pkg");
    assert_eq!(tdnf.gen_update_command().unwrap().display(), "tdnf makecache");

    let dnf = PackageManagerKind::Dnf;
    assert_eq!(dnf.gen_remove_command("pkg").unwrap().display(), "dnf remove -y pkg");
    assert_eq!(dnf.gen_check_installed_command("pkg").unwrap().display(), "rpm -q pkg");

    let pacman = PackageManagerKind::Pacman;
    assert_eq!(pacman.gen_check_installed_command("pkg").unwrap().display(), "pacman -Qi pkg");
}

#[test]
fn from_id_accepts_the_known_identifiers_only() {
    assert_eq!(
        SupportedLinuxDistribution::from_id("ubuntu").unwrap(),
        SupportedLinuxDistribution::Ubuntu
    );
    assert_eq!(
        SupportedLinuxDistribution::from_id("azurelinux").unwrap(),
        SupportedLinuxDistribution::AzureLinux
    );
    assert_eq!(
        SupportedLinuxDistribution::from_id("fedora").unwrap(),
        SupportedLinuxDistribution::Fedora
    );
    assert_eq!(
        SupportedLinuxDistribution::from_id("arch").unwrap(),
        SupportedLinuxDistribution::ArchLinux
    );
    assert!(matches!(
        SupportedLinuxDistribution::from_id("gentoo"),
        Err(Error::UnsupportedPlatform)
    ));
}

#[test]
fn compatibility_status_reports() {
    let u = SupportedLinuxDistribution::Ubuntu;
    assert_eq!(u.check_compatibility_status(false, false), CompatibilityStatus::Supported);
    assert_eq!(u.check_compatibility_status(true, true), CompatibilityStatus::Supported);

    let f = SupportedLinuxDistribution::Fedora;
    assert_eq!(
        f.check_compatibility_status(true, true),
        CompatibilityStatus::Experimental { in_container: true }
    );
    assert_eq!(
        f.check_compatibility_status(true, false),
        CompatibilityStatus::Experimental { in_container: false }
    );
    assert_eq!(f.check_compatibility_status(false, true), CompatibilityStatus::Unchecked);
}

#[test]
fn cgroup_listing_detection() {
    assert!(cgroup_mentions_docker("12:pids:/docker/abc123"));
    assert!(!cgroup_mentions_docker("12:pids:/init.scope"));
    assert!(!cgroup_mentions_docker(""));
}

#[test]
fn command_display_joins_executable_and_arguments() {
    let c = Command::new(
        "apt-get".to_string(),
        vec!["install".to_string(), "-y".to_string(), "rust-coreutils".to_string()],
    );
    assert_eq!(c.display(), "apt-get install -y rust-coreutils");
    let bare = Command::new("apt-get".to_string(), Vec::new());
    assert_eq!(bare.display(), "apt-get");
}

#[test]
fn which_falls_back_to_usr_bin() {
    let r = resolve_existing_on_host("definitely-not-a-real-binary-name-zqx");
    assert_eq!(r, "/usr/bin/definitely-not-a-real-binary-name-zqx".to_string());
    let sh = resolve_existing_on_host("sh");
    assert!(sh.ends_with("/sh"), "unexpected resolution {}", sh);
}

#[test]
fn update_package_lists_issues_the_update_command() {
    let mut s = ubuntu_system();
    assert!(s.update_package_lists().is_ok());
    assert_eq!(s.commands(), &["apt-get update"]);
}

#[test]
fn detection_error_when_no_distribution_is_set() {
    let s = ubuntu_system();
    assert!(matches!(s.distribution(), Err(Error::Detection)));
    let mut s2 = ubuntu_system();
    s2.set_distribution(Distribution {
        id: "Ubuntu".to_string(),
        release: "24.04".to_string(),
    });
    let d = s2.distribution().unwrap();
    assert_eq!(d.id, "Ubuntu");
    assert_eq!(d.release, "24.04");
}

#[test]
fn detection_consults_the_host_release_identification() {
    // The outcome depends on the host; the call must resolve to a supported
    // distribution or report why it cannot.
    match detect_supported_distribution() {
        Ok(_) => {}
        Err(Error::Detection) => {}
        Err(Error::UnsupportedPlatform) => {}
        Err(other) => panic!("unexpected error {:?}", other),
    }
}

#[test]
fn error_descriptions_are_nonempty() {
    assert!(!Error::Detection.describe().is_empty());
    assert!(!Error::UnsupportedPlatform.describe().is_empty());
    let e = Error::Execution {
        command: "apt-get update".to_string(),
        stderr: "boom".to_string(),
    };
    assert!(e.describe().contains("apt-get update"));
    assert!(e.describe().contains("boom"));
}
