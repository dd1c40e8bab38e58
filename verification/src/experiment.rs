//! An experiment: a configured intent to replace one family of system
//! utilities with an alternative package. Enabling installs the package and
//! swaps each candidate binary for a symlink; disabling restores every
//! backup and removes the package.
use vstd::prelude::*;
use crate::distro::{install_cmd_v, remove_cmd_v};
use crate::fsmodel::FsVal;
use crate::pathname::{basename, basename_of};
use crate::system::{
    list_spec, resolve_spec, restore_step, swap_events, swap_step, EventV, System,
};
use crate::textutil::{lex_ge, str_ge};
use crate::Error;

verus! {

/// The symlink source a candidate yields: the shared unified binary when one
/// is configured, else the candidate itself.
pub open spec fn source_for(cand: Seq<char>, unified: Option<Seq<char>>) -> Seq<char> {
    match unified {
        Some(u) => u,
        None => cand,
    }
}

/// The filesystem after swapping every candidate, in order: each candidate's
/// base name is resolved to its existing system path, which is replaced by a
/// symlink to the candidate's source.
pub open spec fn enable_fold_fs(
    fs: Map<Seq<char>, FsVal>,
    paths: Seq<Seq<char>>,
    cands: Seq<Seq<char>>,
    unified: Option<Seq<char>>,
) -> Map<Seq<char>, FsVal>
    decreases cands.len(),
{
    if cands.len() == 0 {
        fs
    } else {
        let t = resolve_spec(paths, basename_of(cands.first()));
        enable_fold_fs(
            swap_step(fs, source_for(cands.first(), unified), t),
            paths,
            cands.drop_first(),
            unified,
        )
    }
}

/// The actions recorded while swapping every candidate, in order.
pub open spec fn enable_fold_events(
    fs: Map<Seq<char>, FsVal>,
    paths: Seq<Seq<char>>,
    cands: Seq<Seq<char>>,
    unified: Option<Seq<char>>,
) -> Seq<EventV>
    decreases cands.len(),
{
    if cands.len() == 0 {
        Seq::empty()
    } else {
        let t = resolve_spec(paths, basename_of(cands.first()));
        let src = source_for(cands.first(), unified);
        swap_events(fs, src, t) + enable_fold_events(
            swap_step(fs, src, t),
            paths,
            cands.drop_first(),
            unified,
        )
    }
}

/// The filesystem after attempting to restore every candidate's resolved
/// system path, in order.
pub open spec fn disable_fold_fs(
    fs: Map<Seq<char>, FsVal>,
    paths: Seq<Seq<char>>,
    cands: Seq<Seq<char>>,
) -> Map<Seq<char>, FsVal>
    decreases cands.len(),
{
    if cands.len() == 0 {
        fs
    } else {
        disable_fold_fs(
            restore_step(fs, resolve_spec(paths, basename_of(cands.first()))),
            paths,
            cands.drop_first(),
        )
    }
}

/// The restoration attempts recorded while disabling, one per candidate, in
/// order.
pub open spec fn disable_events(paths: Seq<Seq<char>>, cands: Seq<Seq<char>>) -> Seq<EventV> {
    Seq::new(
        cands.len(),
        |i: int| EventV::RestoreAttempted { path: resolve_spec(paths, basename_of(cands[i])) },
    )
}

/// The release a distribution report carries, when one is known.
pub open spec fn release_of(info: Option<(Seq<char>, Seq<char>)>) -> Seq<char> {
    match info {
        Some(p) => p.1,
        None => Seq::empty(),
    }
}

/// Whether an optional string shows an optional character sequence.
pub open spec fn unified_eq(u: Option<String>, v: Option<Seq<char>>) -> bool {
    match u {
        Some(s) => v == Some(s@),
        None => v is None,
    }
}

/// An experiment to install and configure a replacement for a family of
/// system utilities.
#[derive(Debug)]
pub struct UutilsExperiment {
    name: String,
    system: System,
    package: String,
    first_supported_release: String,
    unified_binary: Option<String>,
    bin_directory: String,
}

impl UutilsExperiment {
    /// The experiment's name.
    pub closed spec fn name_spec(self) -> Seq<char> {
        self.name@
    }

    /// The package the experiment installs and removes.
    pub closed spec fn package_spec(self) -> Seq<char> {
        self.package@
    }

    /// The first release the experiment supports.
    pub closed spec fn first_supported_spec(self) -> Seq<char> {
        self.first_supported_release@
    }

    /// The shared multi-call binary, when every candidate resolves to one.
    pub closed spec fn unified_spec(self) -> Option<Seq<char>> {
        match self.unified_binary {
            Some(u) => Some(u@),
            None => None,
        }
    }

    /// The directory holding the candidate replacement binaries.
    pub closed spec fn bin_directory_spec(self) -> Seq<char> {
        self.bin_directory@
    }

    /// The system the experiment acts on.
    pub closed spec fn sys(self) -> System {
        self.system
    }

    /// The experiment's system is well formed.
    pub open spec fn wf(self) -> bool {
        self.sys().wf()
    }

    /// Creates a new experiment over a copy of the given system.
    pub fn new(
        name: &str,
        system: &System,
        package: &str,
        first_supported_release: &str,
        unified_binary: Option<String>,
        bin_directory: String,
    ) -> (r: UutilsExperiment)
        requires
            system.wf(),
        ensures
            r.wf(),
            r.name_spec() == name@,
            r.package_spec() == package@,
            r.first_supported_spec() == first_supported_release@,
            r.unified_spec() == (match unified_binary {
                Some(u) => Some(u@),
                None => None,
            }),
            r.bin_directory_spec() == bin_directory@,
            r.sys().distro() == system.distro(),
            r.sys().distribution_info() == system.distribution_info(),
            r.sys().fs_entries() == system.fs_entries(),
            r.sys().fs_map() == system.fs_map(),
            r.sys().paths() == system.paths(),
            r.sys().installed_seq() == system.installed_seq(),
            r.sys().events_seq() == system.events_seq(),
    {
        UutilsExperiment {
            name: String::from_str(name),
            system: system.clone(),
            package: String::from_str(package),
            first_supported_release: String::from_str(first_supported_release),
            unified_binary,
            bin_directory,
        }
    }

    /// Whether the system's release is at least the first supported one,
    /// compared lexicographically as strings.
    pub fn check_compatible(&self) -> (r: bool)
        requires
            self.sys().distribution_info() is Some,
        ensures
            r == lex_ge(release_of(self.sys().distribution_info()), self.first_supported_spec()),
    {
        match self.system.distribution() {
            Ok(d) => str_ge(d.release.as_str(), self.first_supported_release.as_str()),
            Err(_) => {
                proof {
                    assert(false);
                }
                false
            },
        }
    }

    /// Reports the first supported release for the experiment.
    pub fn first_supported_release(&self) -> (r: &str)
        ensures
            r@ == self.first_supported_spec(),
    {
        self.first_supported_release.as_str()
    }

    /// Whether the experiment's package is installed.
    pub fn check_installed(&self) -> (r: bool)
        ensures
            r == self.sys().is_installed(self.package_spec()),
    {
        self.system.check_installed(self.package.as_str())
    }

    /// Reports the name of the experiment.
    pub fn name(&self) -> (r: String)
        ensures
            r@ == self.name_spec(),
    {
        self.name.clone()
    }

    /// The system the experiment acts on, for inspection.
    pub fn system(&self) -> (r: &System)
        ensures
            *r == self.sys(),
    {
        &self.system
    }

    /// Mirrors a regular file of the host into the experiment's model,
    /// optionally marking it resolvable through the search path.
    pub fn observe_file(&mut self, path: &str, content: &str, mode: u32, on_path: bool)
        requires
            old(self).wf(),
        ensures
            final(self).wf(),
            final(self).name_spec() == old(self).name_spec(),
            final(self).package_spec() == old(self).package_spec(),
            final(self).first_supported_spec() == old(self).first_supported_spec(),
            final(self).unified_spec() == old(self).unified_spec(),
            final(self).bin_directory_spec() == old(self).bin_directory_spec(),
            final(self).sys().distro() == old(self).sys().distro(),
            final(self).sys().distribution_info() == old(self).sys().distribution_info(),
            final(self).sys().installed_seq() == old(self).sys().installed_seq(),
            final(self).sys().events_seq() == old(self).sys().events_seq(),
            final(self).sys().fs_map() == old(self).sys().fs_map().insert(
                path@,
                FsVal::Regular { content: content@, mode },
            ),
            !old(self).sys().fs_map().contains_key(path@) ==> final(self).sys().fs_entries()
                == old(self).sys().fs_entries().push(
                (path@, FsVal::Regular { content: content@, mode }),
            ),
            final(self).sys().paths() == (if on_path {
                old(self).sys().paths().push(path@)
            } else {
                old(self).sys().paths()
            }),
    {
        self.system.add_file(path, content, mode, on_path);
    }

    /// Mirrors a symlink of the host into the experiment's model,
    /// optionally marking it resolvable through the search path.
    pub fn observe_symlink(&mut self, path: &str, source: &str, on_path: bool)
        requires
            old(self).wf(),
        ensures
            final(self).wf(),
            final(self).name_spec() == old(self).name_spec(),
            final(self).package_spec() == old(self).package_spec(),
            final(self).first_supported_spec() == old(self).first_supported_spec(),
            final(self).unified_spec() == old(self).unified_spec(),
            final(self).bin_directory_spec() == old(self).bin_directory_spec(),
            final(self).sys().distro() == old(self).sys().distro(),
            final(self).sys().distribution_info() == old(self).sys().distribution_info(),
            final(self).sys().installed_seq() == old(self).sys().installed_seq(),
            final(self).sys().events_seq() == old(self).sys().events_seq(),
            final(self).sys().fs_map() == old(self).sys().fs_map().insert(
                path@,
                FsVal::Link { source: source@ },
            ),
            !old(self).sys().fs_map().contains_key(path@) ==> final(self).sys().fs_entries()
                == old(self).sys().fs_entries().push((path@, FsVal::Link { source: source@ })),
            final(self).sys().paths() == (if on_path {
                old(self).sys().paths().push(path@)
            } else {
                old(self).sys().paths()
            }),
    {
        self.system.add_symlink(path, source, on_path);
    }

    /// Installs the experiment's package: issues the package manager's
    /// install command and marks the package installed. Touches no file, so
    /// the shell can perform the install - which is what brings the
    /// candidate binaries onto the host - before the swaps are planned.
    pub fn install(&mut self) -> (r: Result<(), Error>)
        requires
            old(self).wf(),
        ensures
            r is Ok,
            final(self).wf(),
            final(self).name_spec() == old(self).name_spec(),
            final(self).package_spec() == old(self).package_spec(),
            final(self).first_supported_spec() == old(self).first_supported_spec(),
            final(self).unified_spec() == old(self).unified_spec(),
            final(self).bin_directory_spec() == old(self).bin_directory_spec(),
            final(self).sys().distro() == old(self).sys().distro(),
            final(self).sys().distribution_info() == old(self).sys().distribution_info(),
            final(self).sys().paths() == old(self).sys().paths(),
            final(self).sys().fs_entries() == old(self).sys().fs_entries(),
            final(self).sys().fs_map() == old(self).sys().fs_map(),
            final(self).sys().events_seq() == old(self).sys().events_seq().push(
                EventV::RanCommand {
                    command: install_cmd_v(old(self).sys().kind(), old(self).package_spec()),
                },
            ),
            final(self).sys().is_installed(old(self).package_spec()),
            final(self).sys().installed_seq() == (if old(self).sys().is_installed(
                old(self).package_spec(),
            ) {
                old(self).sys().installed_seq()
            } else {
                old(self).sys().installed_seq().push(old(self).package_spec())
            }),
    {
        proof {
            assert(!(self.system.kind() is Unknown));
        }
        self.system.install_package(self.package.as_str())
    }

    /// Configures the experiment over the current model: enumerates the
    /// candidate binaries and replaces each one's existing system binary
    /// with a symlink to its replacement. Issues no command: every action
    /// recorded is a file operation.
    pub fn configure(&mut self) -> (r: Result<(), Error>)
        requires
            old(self).wf(),
        ensures
            final(self).wf(),
            final(self).name_spec() == old(self).name_spec(),
            final(self).package_spec() == old(self).package_spec(),
            final(self).first_supported_spec() == old(self).first_supported_spec(),
            final(self).unified_spec() == old(self).unified_spec(),
            final(self).bin_directory_spec() == old(self).bin_directory_spec(),
            final(self).sys().distro() == old(self).sys().distro(),
            final(self).sys().distribution_info() == old(self).sys().distribution_info(),
            final(self).sys().paths() == old(self).sys().paths(),
            final(self).sys().installed_seq() == old(self).sys().installed_seq(),
            ({
                let sys0 = old(self).sys();
                let cands = list_spec(sys0.fs_entries(), old(self).bin_directory_spec());
                if cands.len() == 0 {
                    &&& r matches Err(e) && e is Filesystem
                    &&& final(self).sys().fs_map() == sys0.fs_map()
                    &&& final(self).sys().events_seq() == sys0.events_seq()
                } else {
                    &&& r is Ok
                    &&& final(self).sys().fs_map() == enable_fold_fs(
                        sys0.fs_map(),
                        sys0.paths(),
                        cands,
                        old(self).unified_spec(),
                    )
                    &&& final(self).sys().events_seq() == sys0.events_seq() + enable_fold_events(
                        sys0.fs_map(),
                        sys0.paths(),
                        cands,
                        old(self).unified_spec(),
                    )
                }
            }),
    {
        let ghost sys0 = old(self).sys();
        let ghost cands = list_spec(sys0.fs_entries(), old(self).bin_directory_spec());
        let ghost unified = old(self).unified_spec();
        let files = match self.system.list_files(self.bin_directory.as_str()) {
            Ok(v) => v,
            Err(e) => {
                return Err(e);
            },
        };
        proof {
            assert(files.deep_view() == cands);
            assert(cands.skip(0) =~= cands);
            assert(self.system.events_seq() + enable_fold_events(
                self.system.fs_map(),
                sys0.paths(),
                cands.skip(0),
                unified,
            ) =~= sys0.events_seq() + enable_fold_events(
                sys0.fs_map(),
                sys0.paths(),
                cands,
                unified,
            ));
        }
        let mut i: usize = 0;
        while i < files.len()
            invariant
                self.wf(),
                i <= cands.len(),
                files.deep_view() == cands,
                unified_eq(self.unified_binary, unified),
                self.system.paths() == sys0.paths(),
                self.system.distro() == sys0.distro(),
                self.system.distribution_info() == sys0.distribution_info(),
                self.system.installed_seq() == sys0.installed_seq(),
                self.name@ == old(self).name_spec(),
                self.package@ == old(self).package_spec(),
                self.first_supported_release@ == old(self).first_supported_spec(),
                self.bin_directory@ == old(self).bin_directory_spec(),
                enable_fold_fs(self.system.fs_map(), sys0.paths(), cands.skip(i as int), unified)
                    == enable_fold_fs(sys0.fs_map(), sys0.paths(), cands, unified),
                self.system.events_seq() + enable_fold_events(
                    self.system.fs_map(),
                    sys0.paths(),
                    cands.skip(i as int),
                    unified,
                ) == sys0.events_seq() + enable_fold_events(
                    sys0.fs_map(),
                    sys0.paths(),
                    cands,
                    unified,
                ),
            decreases files@.len() - i,
        {
            let ghost fs_pre = self.system.fs_map();
            let ghost ev_pre = self.system.events_seq();
            let fname = basename(files[i].as_str());
            let existing = self.system.resolve_existing(fname.as_str());
            proof {
                assert(cands.skip(i as int).first() == cands[i as int]);
            }
            let res2 = match &self.unified_binary {
                Some(u) => self.system.replace_file_with_symlink(u.as_str(), existing.as_str()),
                None => self.system.replace_file_with_symlink(
                    files[i].as_str(),
                    existing.as_str(),
                ),
            };
            proof {
                let ghost t = resolve_spec(sys0.paths(), basename_of(cands[i as int]));
                let ghost src = source_for(cands[i as int], unified);
                assert(self.system.fs_map() == swap_step(fs_pre, src, t));
                assert(cands.skip(i as int).drop_first() =~= cands.skip(i + 1));
                assert(self.system.events_seq() + enable_fold_events(
                    self.system.fs_map(),
                    sys0.paths(),
                    cands.skip(i + 1),
                    unified,
                ) =~= ev_pre + enable_fold_events(fs_pre, sys0.paths(), cands.skip(i as int), unified));
            }
            i += 1;
        }
        proof {
            assert(cands.skip(cands.len() as int).len() == 0);
            assert(self.system.events_seq() + Seq::<EventV>::empty() =~= self.system.events_seq());
        }
        Ok(())
    }

    /// Enables the experiment in one stroke: installs the package, then
    /// replaces each candidate's existing system binary with a symlink to
    /// its replacement. Exactly one command is issued, before any file
    /// operation. A shell driving a real host performs the two steps
    /// separately - `install`, then `configure` once the installed package's
    /// candidate binaries are in the model.
    pub fn enable(&mut self) -> (r: Result<(), Error>)
        requires
            old(self).wf(),
        ensures
            final(self).wf(),
            final(self).name_spec() == old(self).name_spec(),
            final(self).package_spec() == old(self).package_spec(),
            final(self).first_supported_spec() == old(self).first_supported_spec(),
            final(self).unified_spec() == old(self).unified_spec(),
            final(self).bin_directory_spec() == old(self).bin_directory_spec(),
            final(self).sys().distro() == old(self).sys().distro(),
            final(self).sys().distribution_info() == old(self).sys().distribution_info(),
            final(self).sys().paths() == old(self).sys().paths(),
            final(self).sys().is_installed(old(self).package_spec()),
            ({
                let sys0 = old(self).sys();
                let cands = list_spec(sys0.fs_entries(), old(self).bin_directory_spec());
                let install_ev = EventV::RanCommand {
                    command: install_cmd_v(sys0.kind(), old(self).package_spec()),
                };
                if cands.len() == 0 {
                    &&& r matches Err(e) && e is Filesystem
                    &&& final(self).sys().fs_map() == sys0.fs_map()
                    &&& final(self).sys().events_seq() == sys0.events_seq().push(install_ev)
                } else {
                    &&& r is Ok
                    &&& final(self).sys().fs_map() == enable_fold_fs(
                        sys0.fs_map(),
                        sys0.paths(),
                        cands,
                        old(self).unified_spec(),
                    )
                    &&& final(self).sys().events_seq() == sys0.events_seq().push(install_ev)
                        + enable_fold_events(
                        sys0.fs_map(),
                        sys0.paths(),
                        cands,
                        old(self).unified_spec(),
                    )
                }
            }),
    {
        let ghost sys0 = old(self).sys();
        let ghost cands = list_spec(sys0.fs_entries(), old(self).bin_directory_spec());
        let ghost install_ev = EventV::RanCommand {
            command: install_cmd_v(sys0.kind(), old(self).package_spec()),
        };
        let res = self.install();
        proof {
            assert(res is Ok);
            assert(self.sys().events_seq() == sys0.events_seq().push(install_ev));
            assert(list_spec(self.sys().fs_entries(), self.bin_directory@) == cands);
        }
        self.configure()
    }

    /// Disables the experiment: attempts to restore each candidate's
    /// resolved system binary from its backup, then removes the package.
    /// Exactly one command is issued, after every restoration attempt.
    pub fn disable(&mut self) -> (r: Result<(), Error>)
        requires
            old(self).wf(),
        ensures
            final(self).wf(),
            final(self).name_spec() == old(self).name_spec(),
            final(self).package_spec() == old(self).package_spec(),
            final(self).first_supported_spec() == old(self).first_supported_spec(),
            final(self).unified_spec() == old(self).unified_spec(),
            final(self).bin_directory_spec() == old(self).bin_directory_spec(),
            final(self).sys().distro() == old(self).sys().distro(),
            final(self).sys().distribution_info() == old(self).sys().distribution_info(),
            final(self).sys().paths() == old(self).sys().paths(),
            ({
                let sys0 = old(self).sys();
                let cands = list_spec(sys0.fs_entries(), old(self).bin_directory_spec());
                let remove_ev = EventV::RanCommand {
                    command: remove_cmd_v(sys0.kind(), old(self).package_spec()),
                };
                if cands.len() == 0 {
                    &&& r matches Err(e) && e is Filesystem
                    &&& final(self).sys().fs_map() == sys0.fs_map()
                    &&& final(self).sys().events_seq() == sys0.events_seq()
                    &&& final(self).sys().installed_seq() == sys0.installed_seq()
                } else {
                    &&& r is Ok
                    &&& final(self).sys().fs_map() == disable_fold_fs(
                        sys0.fs_map(),
                        sys0.paths(),
                        cands,
                    )
                    &&& final(self).sys().events_seq() == sys0.events_seq() + disable_events(
                        sys0.paths(),
                        cands,
                    ) + seq![remove_ev]
                    &&& forall|q: Seq<char>|
                        final(self).sys().is_installed(q) <==> (sys0.is_installed(q) && q != old(
                            self,
                        ).package_spec())
                }
            }),
    {
        let ghost sys0 = old(self).sys();
        let ghost cands = list_spec(sys0.fs_entries(), old(self).bin_directory_spec());
        let files = match self.system.list_files(self.bin_directory.as_str()) {
            Ok(v) => v,
            Err(e) => {
                return Err(e);
            },
        };
        proof {
            assert(files.deep_view() == cands);
            assert(disable_events(sys0.paths(), cands.take(0)) =~= Seq::<EventV>::empty());
            assert(sys0.events_seq() + Seq::<EventV>::empty() =~= sys0.events_seq());
            assert(cands.skip(0) =~= cands);
        }
        let mut i: usize = 0;
        while i < files.len()
            invariant
                self.wf(),
                i <= cands.len(),
                files.deep_view() == cands,
                self.system.paths() == sys0.paths(),
                self.system.distro() == sys0.distro(),
                self.system.distribution_info() == sys0.distribution_info(),
                self.system.installed_seq() == sys0.installed_seq(),
                self.name@ == old(self).name_spec(),
                self.package@ == old(self).package_spec(),
                self.first_supported_release@ == old(self).first_supported_spec(),
                self.bin_directory@ == old(self).bin_directory_spec(),
                unified_eq(self.unified_binary, old(self).unified_spec()),
                old(self).wf(),
                disable_fold_fs(self.system.fs_map(), sys0.paths(), cands.skip(i as int))
                    == disable_fold_fs(sys0.fs_map(), sys0.paths(), cands),
                self.system.events_seq() == sys0.events_seq() + disable_events(
                    sys0.paths(),
                    cands.take(i as int),
                ),
            decreases files@.len() - i,
        {
            let ghost fs_pre = self.system.fs_map();
            let fname = basename(files[i].as_str());
            let existing = self.system.resolve_existing(fname.as_str());
            proof {
                assert(cands.skip(i as int).first() == cands[i as int]);
            }
            let res2 = self.system.restore_file(existing.as_str());
            proof {
                assert(cands.skip(i as int).drop_first() =~= cands.skip(i + 1));
                assert(self.system.events_seq() =~= sys0.events_seq() + disable_events(
                    sys0.paths(),
                    cands.take(i + 1),
                ));
            }
            i += 1;
        }
        proof {
            assert(cands.take(cands.len() as int) =~= cands);
            assert(!(self.system.kind() is Unknown));
        }
        let res = self.system.remove_package(self.package.as_str());
        proof {
            assert(res is Ok);
            assert(self.system.events_seq() =~= sys0.events_seq() + disable_events(
                sys0.paths(),
                cands,
            ) + seq![
                EventV::RanCommand {
                    command: remove_cmd_v(sys0.kind(), old(self).package_spec()),
                },
            ]);
        }
        Ok(())
    }
}

} // verus!
