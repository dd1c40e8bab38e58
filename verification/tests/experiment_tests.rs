use oxidizr_swap::distro::{Distribution, SupportedLinuxDistribution};
use oxidizr_swap::experiment::UutilsExperiment;
use oxidizr_swap::fsmodel::FsEntry;
use oxidizr_swap::system::{Event, System};

fn vecs_eq<T: Ord>(mut a: Vec<T>, mut b: Vec<T>) -> bool {
    a.sort();
    b.sort();
    a == b
}

fn coreutils_fixture(system: &System) -> UutilsExperiment {
    UutilsExperiment::new(
        "coreutils",
        system,
        "rust-coreutils",
        "24.04",
        Some("/usr/bin/coreutils".to_string()),
        "/usr/lib/cargo/bin/coreutils".to_string(),
    )
}

fn coreutils_compatible_runner() -> System {
    let mut runner = System::new(SupportedLinuxDistribution::Ubuntu).unwrap();
    runner.set_distribution(Distribution {
        id: "Ubuntu".to_string(),
        release: "24.04".to_string(),
    });
    runner.add_file("/usr/lib/cargo/bin/coreutils/date", "", 0o755, false);
    runner.add_file("/usr/lib/cargo/bin/coreutils/sort", "", 0o755, false);
    runner.add_file("/usr/bin/sort", "", 0o755, true);
    runner.add_file("/usr/bin/date", "", 0o755, true);
    runner
}

fn findutils_fixture(system: &System) -> UutilsExperiment {
    UutilsExperiment::new(
        "findutils",
        system,
        "rust-findutils",
        "24.04",
        None,
        "/usr/lib/cargo/bin/findutils".to_string(),
    )
}

fn findutils_compatible_runner() -> System {
    let mut runner = System::new(SupportedLinuxDistribution::Ubuntu).unwrap();
    runner.set_distribution(Distribution {
        id: "Ubuntu".to_string(),
        release: "24.04".to_string(),
    });
    runner.add_file("/usr/lib/cargo/bin/findutils/find", "", 0o755, false);
    runner.add_file("/usr/lib/cargo/bin/findutils/xargs", "", 0o755, false);
    runner.add_file("/usr/bin/find", "", 0o755, true);
    runner.add_file("/usr/bin/xargs", "", 0o755, true);
    runner
}

fn incompatible_runner() -> System {
    let mut runner = System::new(SupportedLinuxDistribution::Ubuntu).unwrap();
    runner.set_distribution(Distribution {
        id: "Ubuntu".to_string(),
        release: "20.04".to_string(),
    });
    runner
}

#[test]
fn test_uutils_incompatible_distribution() {
    let runner = incompatible_runner();
    let coreutils = coreutils_fixture(&runner);
    assert!(!coreutils.check_compatible());
}

#[test]
fn test_uutils_install_success_unified_binary() {
    let runner = coreutils_compatible_runner();
    let mut coreutils = coreutils_fixture(&runner);

    assert!(coreutils.enable().is_ok());

    let commands = coreutils.system().commands();
    assert_eq!(commands, &["apt-get install -y rust-coreutils"]);

    let backed_up_files = coreutils.system().backed_up_files();
    let expected = vec!["/usr/bin/date".to_string(), "/usr/bin/sort".to_string()];
    assert!(vecs_eq(backed_up_files, expected));

    let created_symlinks = coreutils.system().created_symlinks();
    let expected = vec![
        (
            "/usr/bin/coreutils".to_string(),
            "/usr/bin/sort".to_string(),
        ),
        (
            "/usr/bin/coreutils".to_string(),
            "/usr/bin/date".to_string(),
        ),
    ];

    assert!(vecs_eq(created_symlinks, expected));
    assert_eq!(coreutils.system().restored_files().len(), 0);
}

#[test]
fn test_uutils_install_success_non_unified_binary() {
    let runner = findutils_compatible_runner();
    let mut findutils = findutils_fixture(&runner);

    assert!(findutils.enable().is_ok());

    let commands = findutils.system().commands();
    assert_eq!(commands, &["apt-get install -y rust-findutils"]);

    let backed_up_files = findutils.system().backed_up_files();
    let expected = vec!["/usr/bin/find".to_string(), "/usr/bin/xargs".to_string()];
    assert!(vecs_eq(backed_up_files, expected));

    let created_symlinks = findutils.system().created_symlinks();
    let expected = vec![
        (
            "/usr/lib/cargo/bin/findutils/find".to_string(),
            "/usr/bin/find".to_string(),
        ),
        (
            "/usr/lib/cargo/bin/findutils/xargs".to_string(),
            "/usr/bin/xargs".to_string(),
        ),
    ];

    assert!(vecs_eq(created_symlinks, expected));
    assert_eq!(findutils.system().restored_files().len(), 0);
}

#[test]
fn test_uutils_restore_installed() {
    let mut runner = coreutils_compatible_runner();
    runner.set_installed("rust-coreutils");

    let mut coreutils = coreutils_fixture(&runner);
    assert!(coreutils.disable().is_ok());

    assert_eq!(coreutils.system().created_symlinks().len(), 0);
    assert_eq!(coreutils.system().backed_up_files().len(), 0);

    let commands = coreutils.system().commands();
    assert_eq!(commands.len(), 1);
    assert!(commands.contains(&"apt-get remove -y rust-coreutils".to_string()));

    let restored_files = coreutils.system().restored_files();
    let expected = vec!["/usr/bin/date".to_string(), "/usr/bin/sort".to_string()];
    assert!(vecs_eq(restored_files, expected));
}

#[test]
fn unified_binary_fan_in_targets_system_paths() {
    let runner = coreutils_compatible_runner();
    let mut coreutils = coreutils_fixture(&runner);
    assert!(coreutils.enable().is_ok());

    // The resolved system paths, not the candidates' directory entries,
    // become symlinks to the unified binary.
    for target in ["/usr/bin/date", "/usr/bin/sort"] {
        match coreutils.system().get_file(target) {
            Some(FsEntry::Link { source }) => assert_eq!(source.as_str(), "/usr/bin/coreutils"),
            other => panic!("expected a symlink at {}, found {:?}", target, other),
        }
    }
    // The candidates themselves are untouched.
    match coreutils.system().get_file("/usr/lib/cargo/bin/coreutils/date") {
        Some(FsEntry::Regular { .. }) => {}
        other => panic!("expected a regular file, found {:?}", other),
    }
    // The originals were preserved under their backup names.
    match coreutils.system().get_file("/usr/bin/.date.oxidizr.bak") {
        Some(FsEntry::Regular { .. }) => {}
        other => panic!("expected a backup, found {:?}", other),
    }
}

#[test]
fn enable_issues_one_install_command_before_file_operations() {
    let runner = coreutils_compatible_runner();
    let mut coreutils = coreutils_fixture(&runner);
    assert!(coreutils.enable().is_ok());

    let events = coreutils.system().events();
    assert!(matches!(events[0], Event::RanCommand { .. }));
    for e in events.iter().skip(1) {
        assert!(!matches!(e, Event::RanCommand { .. }));
    }
}

#[test]
fn disable_issues_one_remove_command_after_restores() {
    let runner = coreutils_compatible_runner();
    let mut coreutils = coreutils_fixture(&runner);
    assert!(coreutils.disable().is_ok());

    let events = coreutils.system().events();
    assert!(events.len() >= 2);
    assert!(matches!(events[events.len() - 1], Event::RanCommand { .. }));
    for e in events.iter().take(events.len() - 1) {
        assert!(matches!(e, Event::RestoreAttempted { .. }));
    }
}

#[test]
fn enable_twice_is_idempotent() {
    let runner = coreutils_compatible_runner();
    let mut coreutils = coreutils_fixture(&runner);
    assert!(coreutils.enable().is_ok());
    let backed_up_once = coreutils.system().backed_up_files();
    assert!(coreutils.enable().is_ok());

    // The second pass backs nothing further up: the targets are symlinks.
    assert_eq!(coreutils.system().backed_up_files(), backed_up_once);
    assert_eq!(coreutils.system().commands().len(), 2);
    match coreutils.system().get_file("/usr/bin/date") {
        Some(FsEntry::Link { source }) => assert_eq!(source.as_str(), "/usr/bin/coreutils"),
        other => panic!("expected a symlink, found {:?}", other),
    }
}

#[test]
fn fresh_host_enable_installs_then_configures() {
    // On a fresh host the candidate directory appears only once the package
    // is installed: install first, mirror the new files, then configure.
    let mut runner = System::new(SupportedLinuxDistribution::Ubuntu).unwrap();
    runner.set_distribution(Distribution {
        id: "Ubuntu".to_string(),
        release: "24.04".to_string(),
    });
    runner.add_file("/usr/bin/date", "", 0o755, true);
    let mut coreutils = coreutils_fixture(&runner);

    assert!(coreutils.install().is_ok());
    assert_eq!(coreutils.system().commands(), &["apt-get install -y rust-coreutils"]);
    assert!(coreutils.check_installed());

    coreutils.observe_file("/usr/lib/cargo/bin/coreutils/date", "", 0o755, false);
    assert!(coreutils.configure().is_ok());

    match coreutils.system().get_file("/usr/bin/date") {
        Some(FsEntry::Link { source }) => assert_eq!(source.as_str(), "/usr/bin/coreutils"),
        other => panic!("expected a symlink, found {:?}", other),
    }
    // Still exactly one command, issued before every file operation.
    let events = coreutils.system().events();
    assert!(matches!(events[0], Event::RanCommand { .. }));
    for e in events.iter().skip(1) {
        assert!(!matches!(e, Event::RanCommand { .. }));
    }
}

#[test]
fn configure_without_candidates_fails_and_issues_no_command() {
    let runner = incompatible_runner();
    let mut coreutils = coreutils_fixture(&runner);
    let r = coreutils.configure();
    assert!(matches!(r, Err(oxidizr_swap::Error::Filesystem { .. })));
    assert_eq!(coreutils.system().events().len(), 0);
}

#[test]
fn enable_fails_on_missing_bin_directory() {
    let runner = incompatible_runner();
    let mut coreutils = coreutils_fixture(&runner);
    let r = coreutils.enable();
    assert!(matches!(r, Err(oxidizr_swap::Error::Filesystem { .. })));
    // The install command was already issued when listing failed.
    assert_eq!(coreutils.system().commands().len(), 1);
}

#[test]
fn experiment_reports_name_and_release_and_installed() {
    let runner = coreutils_compatible_runner();
    let mut coreutils = coreutils_fixture(&runner);
    assert_eq!(coreutils.name(), "coreutils".to_string());
    assert_eq!(coreutils.first_supported_release(), "24.04");
    assert!(!coreutils.check_installed());
    assert!(coreutils.enable().is_ok());
    assert!(coreutils.check_installed());
    assert!(coreutils.disable().is_ok());
    assert!(!coreutils.check_installed());
}
