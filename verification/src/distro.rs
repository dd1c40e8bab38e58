//! The host distribution: its identifier and release, the closed set of
//! supported distributions, and the package-manager command set each one
//! drives.
use vstd::prelude::*;
use crate::command::{Command, CommandV};
use crate::textutil::{ascii_eq_ignore_case, contains_seq, str_contains, str_eq,
    str_eq_ignore_ascii_case};
use crate::Error;

verus! {

/// An identifier and release pair describing the host, as the operating
/// system reports it.
#[derive(Debug)]
pub struct Distribution {
    pub id: String,
    pub release: String,
}

impl Clone for Distribution {
    /// The copy shows the same identifier and release.
    fn clone(&self) -> (r: Self)
        ensures
            r.id@ == self.id@,
            r.release@ == self.release@,
    {
        Distribution { id: self.id.clone(), release: self.release.clone() }
    }
}

/// The distributions the library knows how to drive.
#[derive(Clone, Copy, Debug, PartialEq, Eq, Structural)]
pub enum SupportedLinuxDistribution {
    Ubuntu,
    AzureLinux,
    Fedora,
    ArchLinux,
}

/// The closed set of package managers a distribution identifier can select.
/// `Unknown` is terminal: every command-generation call fails on it.
#[derive(Clone, Copy, Debug, PartialEq, Eq, Structural)]
pub enum PackageManagerKind {
    Apt,
    Tdnf,
    Dnf,
    Pacman,
    Unknown,
}

/// The supported distribution a lower-case identifier names, if any.
pub open spec fn supported_of_id(id: Seq<char>) -> Option<SupportedLinuxDistribution> {
    if id == "ubuntu"@ {
        Some(SupportedLinuxDistribution::Ubuntu)
    } else if id == "azurelinux"@ {
        Some(SupportedLinuxDistribution::AzureLinux)
    } else if id == "fedora"@ {
        Some(SupportedLinuxDistribution::Fedora)
    } else if id == "arch"@ {
        Some(SupportedLinuxDistribution::ArchLinux)
    } else {
        None
    }
}

/// The package manager a distribution identifier selects, compared without
/// regard to ASCII case; unrecognized identifiers map to `Unknown`.
pub open spec fn kind_of_id(id: Seq<char>) -> PackageManagerKind {
    if ascii_eq_ignore_case(id, "ubuntu"@) {
        PackageManagerKind::Apt
    } else if ascii_eq_ignore_case(id, "azurelinux"@) {
        PackageManagerKind::Tdnf
    } else if ascii_eq_ignore_case(id, "fedora"@) {
        PackageManagerKind::Dnf
    } else if ascii_eq_ignore_case(id, "arch"@) {
        PackageManagerKind::Pacman
    } else {
        PackageManagerKind::Unknown
    }
}

/// The package manager each supported distribution uses.
pub open spec fn kind_of_distribution(d: SupportedLinuxDistribution) -> PackageManagerKind {
    match d {
        SupportedLinuxDistribution::Ubuntu => PackageManagerKind::Apt,
        SupportedLinuxDistribution::AzureLinux => PackageManagerKind::Tdnf,
        SupportedLinuxDistribution::Fedora => PackageManagerKind::Dnf,
        SupportedLinuxDistribution::ArchLinux => PackageManagerKind::Pacman,
    }
}

/// The install command a known package manager issues for a package; the
/// value for `Unknown` is immaterial, since command generation fails there.
pub open spec fn install_cmd_v(k: PackageManagerKind, pkg: Seq<char>) -> CommandV {
    match k {
        PackageManagerKind::Apt => CommandV {
            executable: "apt-get"@,
            args: seq!["install"@, "-y"@, pkg],
        },
        PackageManagerKind::Tdnf => CommandV {
            executable: "tdnf"@,
            args: seq!["install"@, "-y"@, pkg],
        },
        PackageManagerKind::Dnf => CommandV {
            executable: "dnf"@,
            args: seq!["install"@, "-y"@, pkg],
        },
        _ => CommandV { executable: "pacman"@, args: seq!["-S"@, "--noconfirm"@, pkg] },
    }
}

/// The install command each package manager issues for a package.
pub open spec fn install_spec(k: PackageManagerKind, pkg: Seq<char>) -> Option<CommandV> {
    if k is Unknown {
        None
    } else {
        Some(install_cmd_v(k, pkg))
    }
}

/// The remove command a known package manager issues for a package.
pub open spec fn remove_cmd_v(k: PackageManagerKind, pkg: Seq<char>) -> CommandV {
    match k {
        PackageManagerKind::Apt => CommandV {
            executable: "apt-get"@,
            args: seq!["remove"@, "-y"@, pkg],
        },
        PackageManagerKind::Tdnf => CommandV {
            executable: "tdnf"@,
            args: seq!["remove"@, "-y"@, pkg],
        },
        PackageManagerKind::Dnf => CommandV {
            executable: "dnf"@,
            args: seq!["remove"@, "-y"@, pkg],
        },
        _ => CommandV { executable: "pacman"@, args: seq!["-R"@, "--noconfirm"@, pkg] },
    }
}

/// The remove command each package manager issues for a package.
pub open spec fn remove_spec(k: PackageManagerKind, pkg: Seq<char>) -> Option<CommandV> {
    if k is Unknown {
        None
    } else {
        Some(remove_cmd_v(k, pkg))
    }
}

/// The command that refreshes a known package manager's package lists.
pub open spec fn update_cmd_v(k: PackageManagerKind) -> CommandV {
    match k {
        PackageManagerKind::Apt => CommandV { executable: "apt-get"@, args: seq!["update"@] },
        PackageManagerKind::Tdnf => CommandV { executable: "tdnf"@, args: seq!["makecache"@] },
        PackageManagerKind::Dnf => CommandV { executable: "dnf"@, args: seq!["makecache"@] },
        _ => CommandV { executable: "pacman"@, args: seq!["-Sy"@] },
    }
}

/// The command that refreshes each package manager's package lists.
pub open spec fn update_spec(k: PackageManagerKind) -> Option<CommandV> {
    if k is Unknown {
        None
    } else {
        Some(update_cmd_v(k))
    }
}

/// The command that tests, under a known package manager, whether a package
/// is installed. The dpkg query serves the apt kind alone; tdnf and dnf
/// manage rpm packages, so their check queries rpm directly, and pacman
/// answers for itself.
pub open spec fn check_installed_cmd_v(k: PackageManagerKind, pkg: Seq<char>) -> CommandV {
    match k {
        PackageManagerKind::Apt => CommandV { executable: "dpkg-query"@, args: seq!["-s"@, pkg] },
        PackageManagerKind::Tdnf => CommandV { executable: "rpm"@, args: seq!["-q"@, pkg] },
        PackageManagerKind::Dnf => CommandV { executable: "rpm"@, args: seq!["-q"@, pkg] },
        _ => CommandV { executable: "pacman"@, args: seq!["-Qi"@, pkg] },
    }
}

/// The command that tests whether a package is installed.
pub open spec fn check_installed_spec(k: PackageManagerKind, pkg: Seq<char>) -> Option<CommandV> {
    if k is Unknown {
        None
    } else {
        Some(check_installed_cmd_v(k, pkg))
    }
}

/// What a compatibility report decides for a distribution.
#[derive(Clone, Copy, Debug, PartialEq, Eq, Structural)]
pub enum CompatibilityStatus {
    /// The distribution is fully supported.
    Supported,
    /// Checks were waived; support is experimental, and the report notes
    /// whether the host looks like a container.
    Experimental { in_container: bool },
    /// Checks were not waived and the distribution is not fully supported;
    /// nothing is reported.
    Unchecked,
}

/// The compatibility report a distribution yields given whether checks were
/// waived and whether the host looks like a container.
pub open spec fn compatibility_status_spec(
    d: SupportedLinuxDistribution,
    no_compatibility_check: bool,
    in_container: bool,
) -> CompatibilityStatus {
    if d == SupportedLinuxDistribution::Ubuntu {
        CompatibilityStatus::Supported
    } else if no_compatibility_check {
        CompatibilityStatus::Experimental { in_container }
    } else {
        CompatibilityStatus::Unchecked
    }
}

impl SupportedLinuxDistribution {
    /// Maps a distribution identifier to the supported distribution it
    /// names; unrecognized identifiers are an unsupported platform.
    pub fn from_id(id: &str) -> (r: Result<SupportedLinuxDistribution, Error>)
        ensures
            match r {
                Ok(d) => supported_of_id(id@) == Some(d),
                Err(e) => supported_of_id(id@) is None && e == Error::UnsupportedPlatform,
            },
    {
        if str_eq(id, "ubuntu") {
            Ok(SupportedLinuxDistribution::Ubuntu)
        } else if str_eq(id, "azurelinux") {
            Ok(SupportedLinuxDistribution::AzureLinux)
        } else if str_eq(id, "fedora") {
            Ok(SupportedLinuxDistribution::Fedora)
        } else if str_eq(id, "arch") {
            Ok(SupportedLinuxDistribution::ArchLinux)
        } else {
            Err(Error::UnsupportedPlatform)
        }
    }

    /// The package manager this distribution drives.
    pub fn package_manager(&self) -> (r: PackageManagerKind)
        ensures
            r == kind_of_distribution(*self),
    {
        match self {
            SupportedLinuxDistribution::Ubuntu => PackageManagerKind::Apt,
            SupportedLinuxDistribution::AzureLinux => PackageManagerKind::Tdnf,
            SupportedLinuxDistribution::Fedora => PackageManagerKind::Dnf,
            SupportedLinuxDistribution::ArchLinux => PackageManagerKind::Pacman,
        }
    }

    /// Reports the compatibility standing of this distribution: Ubuntu is
    /// supported; any other distribution is experimental when checks are
    /// waived, and yields no report otherwise.
    pub fn check_compatibility_status(
        &self,
        no_compatibility_check: bool,
        in_container: bool,
    ) -> (r: CompatibilityStatus)
        ensures
            r == compatibility_status_spec(*self, no_compatibility_check, in_container),
    {
        if *self == SupportedLinuxDistribution::Ubuntu {
            CompatibilityStatus::Supported
        } else if no_compatibility_check {
            CompatibilityStatus::Experimental { in_container }
        } else {
            CompatibilityStatus::Unchecked
        }
    }
}

impl PackageManagerKind {
    /// Selects the package manager for a distribution identifier, compared
    /// without regard to ASCII case. Total: unrecognized identifiers select
    /// `Unknown`.
    pub fn select(id: &str) -> (r: PackageManagerKind)
        ensures
            r == kind_of_id(id@),
    {
        if str_eq_ignore_ascii_case(id, "ubuntu") {
            PackageManagerKind::Apt
        } else if str_eq_ignore_ascii_case(id, "azurelinux") {
            PackageManagerKind::Tdnf
        } else if str_eq_ignore_ascii_case(id, "fedora") {
            PackageManagerKind::Dnf
        } else if str_eq_ignore_ascii_case(id, "arch") {
            PackageManagerKind::Pacman
        } else {
            PackageManagerKind::Unknown
        }
    }

    /// The install command for a package, or `UnsupportedPlatform` when no
    /// package manager is known.
    pub fn gen_install_command(&self, package: &str) -> (r: Result<Command, Error>)
        ensures
            match r {
                Ok(c) => install_spec(*self, package@) == Some(c@),
                Err(e) => *self is Unknown && e == Error::UnsupportedPlatform,
            },
    {
        match self {
            PackageManagerKind::Apt => Ok(cmd3("apt-get", "install", "-y", package)),
            PackageManagerKind::Tdnf => Ok(cmd3("tdnf", "install", "-y", package)),
            PackageManagerKind::Dnf => Ok(cmd3("dnf", "install", "-y", package)),
            PackageManagerKind::Pacman => Ok(cmd3("pacman", "-S", "--noconfirm", package)),
            PackageManagerKind::Unknown => Err(Error::UnsupportedPlatform),
        }
    }

    /// The remove command for a package, or `UnsupportedPlatform` when no
    /// package manager is known.
    pub fn gen_remove_command(&self, package: &str) -> (r: Result<Command, Error>)
        ensures
            match r {
                Ok(c) => remove_spec(*self, package@) == Some(c@),
                Err(e) => *self is Unknown && e == Error::UnsupportedPlatform,
            },
    {
        match self {
            PackageManagerKind::Apt => Ok(cmd3("apt-get", "remove", "-y", package)),
            PackageManagerKind::Tdnf => Ok(cmd3("tdnf", "remove", "-y", package)),
            PackageManagerKind::Dnf => Ok(cmd3("dnf", "remove", "-y", package)),
            PackageManagerKind::Pacman => Ok(cmd3("pacman", "-R", "--noconfirm", package)),
            PackageManagerKind::Unknown => Err(Error::UnsupportedPlatform),
        }
    }

    /// The command that refreshes the package lists, or
    /// `UnsupportedPlatform` when no package manager is known.
    pub fn gen_update_command(&self) -> (r: Result<Command, Error>)
        ensures
            match r {
                Ok(c) => update_spec(*self) == Some(c@),
                Err(e) => *self is Unknown && e == Error::UnsupportedPlatform,
            },
    {
        match self {
            PackageManagerKind::Apt => Ok(cmd1("apt-get", "update")),
            PackageManagerKind::Tdnf => Ok(cmd1("tdnf", "makecache")),
            PackageManagerKind::Dnf => Ok(cmd1("dnf", "makecache")),
            PackageManagerKind::Pacman => Ok(cmd1("pacman", "-Sy")),
            PackageManagerKind::Unknown => Err(Error::UnsupportedPlatform),
        }
    }

    /// The command that tests whether a package is installed, or
    /// `UnsupportedPlatform` when no package manager is known.
    pub fn gen_check_installed_command(&self, package: &str) -> (r: Result<Command, Error>)
        ensures
            match r {
                Ok(c) => check_installed_spec(*self, package@) == Some(c@),
                Err(e) => *self is Unknown && e == Error::UnsupportedPlatform,
            },
    {
        match self {
            PackageManagerKind::Apt => Ok(cmd2("dpkg-query", "-s", package)),
            PackageManagerKind::Tdnf => Ok(cmd2("rpm", "-q", package)),
            PackageManagerKind::Dnf => Ok(cmd2("rpm", "-q", package)),
            PackageManagerKind::Pacman => Ok(cmd2("pacman", "-Qi", package)),
            PackageManagerKind::Unknown => Err(Error::UnsupportedPlatform),
        }
    }
}

/// Builds a command with one argument.
fn cmd1(exe: &str, a0: &str) -> (r: Command)
    ensures
        r@.executable == exe@,
        r@.args == seq![a0@],
{
    let mut args: Vec<String> = Vec::new();
    args.push(String::from_str(a0));
    let r = Command::new(String::from_str(exe), args);
    proof {
        assert(r@.args =~= seq![a0@]);
    }
    r
}

/// Builds a command with two arguments.
fn cmd2(exe: &str, a0: &str, a1: &str) -> (r: Command)
    ensures
        r@.executable == exe@,
        r@.args == seq![a0@, a1@],
{
    let mut args: Vec<String> = Vec::new();
    args.push(String::from_str(a0));
    args.push(String::from_str(a1));
    let r = Command::new(String::from_str(exe), args);
    proof {
        assert(r@.args =~= seq![a0@, a1@]);
    }
    r
}

/// Builds a command with three arguments.
fn cmd3(exe: &str, a0: &str, a1: &str, a2: &str) -> (r: Command)
    ensures
        r@.executable == exe@,
        r@.args == seq![a0@, a1@, a2@],
{
    let mut args: Vec<String> = Vec::new();
    args.push(String::from_str(a0));
    args.push(String::from_str(a1));
    args.push(String::from_str(a2));
    let r = Command::new(String::from_str(exe), args);
    proof {
        assert(r@.args =~= seq![a0@, a1@, a2@]);
    }
    r
}

/// Whether the control-group listing of the current process mentions a
/// container runtime.
pub fn cgroup_mentions_docker(contents: &str) -> (r: bool)
    ensures
        r == contains_seq(contents@, "docker"@),
{
    str_contains(contents, "docker")
}

/// Relies on `sys_info::linux_os_release`: reads `/etc/os-release` and
/// reports the value of its `ID` field, if the file was readable and held
/// one. The result depends on the host, so nothing is promised of it.
#[verifier::external_body]
fn read_os_release_id() -> (r: Option<String>) {
    match sys_info::linux_os_release() {
        Ok(info) => info.id,
        Err(_) => None,
    }
}

/// Determines the supported distribution the host runs by querying the
/// operating system's release identification.
pub fn detect_supported_distribution() -> (r: Result<SupportedLinuxDistribution, Error>)
    ensures
        r matches Err(e) ==> e == Error::Detection || e == Error::UnsupportedPlatform,
{
    match read_os_release_id() {
        Some(id) => SupportedLinuxDistribution::from_id(id.as_str()),
        None => Err(Error::Detection),
    }
}

} // verus!
