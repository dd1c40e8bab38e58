//! The system the engine acts on: a distribution, a filesystem model, the
//! set of paths resolvable through the search path, the installed packages,
//! and a chronological record of every action performed. Each operation both
//! transforms the model and appends the actions an unverified executor must
//! replay against the real host.
use vstd::prelude::*;
use crate::command::{Command, CommandV};
use crate::distro::{
    install_cmd_v, kind_of_distribution, remove_cmd_v, update_cmd_v, Distribution,
    PackageManagerKind, SupportedLinuxDistribution,
};
use crate::fsmodel::{FileSystem, FsEntry, FsVal};
use crate::pathname::{backup_filename, backup_name_of, basename_of};
use crate::textutil::str_eq;
use crate::Error;

verus! {

/// The mathematical value of one recorded action.
pub enum EventV {
    RanCommand { command: CommandV },
    BackedUp { path: Seq<char> },
    Symlinked { source: Seq<char>, target: Seq<char> },
    RestoreAttempted { path: Seq<char> },
}

/// One recorded action: a command run, a backup taken, a symlink created,
/// or a restoration attempted.
#[derive(Debug)]
pub enum Event {
    RanCommand { command: Command },
    BackedUp { path: String },
    Symlinked { source: String, target: String },
    RestoreAttempted { path: String },
}

impl View for Event {
    type V = EventV;

    open spec fn view(&self) -> EventV {
        match self {
            Event::RanCommand { command } => EventV::RanCommand { command: command@ },
            Event::BackedUp { path } => EventV::BackedUp { path: path@ },
            Event::Symlinked { source, target } => EventV::Symlinked {
                source: source@,
                target: target@,
            },
            Event::RestoreAttempted { path } => EventV::RestoreAttempted { path: path@ },
        }
    }
}

impl DeepView for Event {
    type V = EventV;

    open spec fn deep_view(&self) -> EventV {
        self.view()
    }
}

/// The first path on the search path whose base name matches, if any.
pub open spec fn which_spec(paths: Seq<Seq<char>>, name: Seq<char>) -> Option<Seq<char>>
    decreases paths.len(),
{
    if paths.len() == 0 {
        None
    } else if basename_of(paths.first()) == name {
        Some(paths.first())
    } else {
        which_spec(paths.drop_first(), name)
    }
}

/// The existing system path a base name resolves to: its search-path hit, or
/// `/usr/bin/<name>` when the search finds nothing.
pub open spec fn resolve_spec(paths: Seq<Seq<char>>, name: Seq<char>) -> Seq<char> {
    match which_spec(paths, name) {
        Some(p) => p,
        None => "/usr/bin/"@ + name,
    }
}

/// How one swap transforms the filesystem: an existing symlink is left
/// alone; an existing regular file is backed up beside itself and replaced
/// by a symlink; an absent target just gains the symlink.
pub open spec fn swap_step(
    fs: Map<Seq<char>, FsVal>,
    source: Seq<char>,
    target: Seq<char>,
) -> Map<Seq<char>, FsVal> {
    if fs.contains_key(target) {
        if fs[target] is Link {
            fs
        } else {
            fs.insert(backup_name_of(target), fs[target]).insert(
                target,
                FsVal::Link { source },
            )
        }
    } else {
        fs.insert(target, FsVal::Link { source })
    }
}

/// The actions one swap records, in order: nothing for an existing symlink;
/// a backup then a symlink for a regular file; only a symlink otherwise.
pub open spec fn swap_events(
    fs: Map<Seq<char>, FsVal>,
    source: Seq<char>,
    target: Seq<char>,
) -> Seq<EventV> {
    if fs.contains_key(target) {
        if fs[target] is Link {
            Seq::empty()
        } else {
            seq![EventV::BackedUp { path: target }, EventV::Symlinked { source, target }]
        }
    } else {
        seq![EventV::Symlinked { source, target }]
    }
}

/// How one restoration transforms the filesystem: when the backup exists it
/// moves over the file, atomically replacing it; otherwise nothing changes.
pub open spec fn restore_step(fs: Map<Seq<char>, FsVal>, file: Seq<char>) -> Map<
    Seq<char>,
    FsVal,
> {
    let b = backup_name_of(file);
    if fs.contains_key(b) {
        fs.remove(b).insert(file, fs[b])
    } else {
        fs
    }
}

/// The paths directly under a directory, in binding order.
pub open spec fn list_spec(s: Seq<(Seq<char>, FsVal)>, dir: Seq<char>) -> Seq<Seq<char>>
    decreases s.len(),
{
    if s.len() == 0 {
        Seq::empty()
    } else {
        list_spec(s.drop_last(), dir) + (if crate::pathname::in_dir(s.last().0, dir) {
            seq![s.last().0]
        } else {
            Seq::empty()
        })
    }
}

/// The display strings of the commands among a record, in order.
pub open spec fn commands_of(events: Seq<EventV>) -> Seq<Seq<char>>
    decreases events.len(),
{
    if events.len() == 0 {
        Seq::empty()
    } else {
        let rest = commands_of(events.drop_last());
        match events.last() {
            EventV::RanCommand { command } => rest.push(crate::command::display_of(command)),
            _ => rest,
        }
    }
}

/// The paths backed up among a record, in order.
pub open spec fn backed_up_of(events: Seq<EventV>) -> Seq<Seq<char>>
    decreases events.len(),
{
    if events.len() == 0 {
        Seq::empty()
    } else {
        let rest = backed_up_of(events.drop_last());
        match events.last() {
            EventV::BackedUp { path } => rest.push(path),
            _ => rest,
        }
    }
}

/// The symlinks created among a record, as source and target pairs, in
/// order.
pub open spec fn symlinks_of(events: Seq<EventV>) -> Seq<(Seq<char>, Seq<char>)>
    decreases events.len(),
{
    if events.len() == 0 {
        Seq::empty()
    } else {
        let rest = symlinks_of(events.drop_last());
        match events.last() {
            EventV::Symlinked { source, target } => rest.push((source, target)),
            _ => rest,
        }
    }
}

/// The paths whose restoration was attempted among a record, in order.
pub open spec fn restores_of(events: Seq<EventV>) -> Seq<Seq<char>>
    decreases events.len(),
{
    if events.len() == 0 {
        Seq::empty()
    } else {
        let rest = restores_of(events.drop_last());
        match events.last() {
            EventV::RestoreAttempted { path } => rest.push(path),
            _ => rest,
        }
    }
}

/// No two elements coincide.
pub open spec fn unique_seqs(s: Seq<Seq<char>>) -> bool {
    forall|i: int, j: int| 0 <= i < j < s.len() ==> s[i] != s[j]
}

/// Membership after appending one element.
pub proof fn lemma_push_contains(s: Seq<Seq<char>>, x: Seq<char>, q: Seq<char>)
    ensures
        s.push(x).contains(q) <==> (s.contains(q) || q == x),
{
    if s.push(x).contains(q) {
        let i = choose|i: int| 0 <= i < s.push(x).len() && s.push(x)[i] == q;
        if i < s.len() {
            assert(s[i] == q);
        }
    }
    if s.contains(q) {
        let i = choose|i: int| 0 <= i < s.len() && s[i] == q;
        assert(s.push(x)[i] == q);
    }
    if q == x {
        assert(s.push(x)[s.len() as int] == q);
    }
}

/// Removing an element keeps the remaining elements distinct.
pub proof fn lemma_remove_unique(s: Seq<Seq<char>>, i: int)
    requires
        unique_seqs(s),
        0 <= i < s.len(),
    ensures
        unique_seqs(s.remove(i)),
{
    let t = s.remove(i);
    assert forall|a: int, b: int| 0 <= a < b < t.len() implies t[a] != t[b] by {
        assert(t[a] == (if a < i {
            s[a]
        } else {
            s[a + 1]
        }));
        assert(t[b] == (if b < i {
            s[b]
        } else {
            s[b + 1]
        }));
    }
}

/// Under unique elements, membership after removing the element at `i`.
pub proof fn lemma_remove_contains(s: Seq<Seq<char>>, i: int, q: Seq<char>)
    requires
        unique_seqs(s),
        0 <= i < s.len(),
    ensures
        s.remove(i).contains(q) <==> (s.contains(q) && q != s[i]),
{
    let t = s.remove(i);
    assert(forall|j: int|
        0 <= j < t.len() ==> (#[trigger] t[j]) == (if j < i {
            s[j]
        } else {
            s[j + 1]
        }));
    if t.contains(q) {
        let j = choose|j: int| 0 <= j < t.len() && t[j] == q;
        if j < i {
            assert(s[j] == q);
        } else {
            assert(s[j + 1] == q);
        }
    }
    if s.contains(q) && q != s[i] {
        let j = choose|j: int| 0 <= j < s.len() && s[j] == q;
        if j < i {
            assert(t[j] == q);
        } else {
            assert(j > i);
            assert(t[j - 1] == q);
        }
    }
}

/// The system the engine drives: distribution and package state, the
/// filesystem model, and the record of performed actions.
#[derive(Debug)]
pub struct System {
    linux_distribution: SupportedLinuxDistribution,
    distribution: Option<Distribution>,
    fs: FileSystem,
    path_entries: Vec<String>,
    installed: Vec<String>,
    events: Vec<Event>,
}

impl System {
    /// The distribution the system was built for.
    pub closed spec fn distro(self) -> SupportedLinuxDistribution {
        self.linux_distribution
    }

    /// The package manager the system drives.
    pub open spec fn kind(self) -> PackageManagerKind {
        kind_of_distribution(self.distro())
    }

    /// The identifier and release the system reports, when known.
    pub closed spec fn distribution_info(self) -> Option<(Seq<char>, Seq<char>)> {
        match self.distribution {
            Some(d) => Some((d.id@, d.release@)),
            None => None,
        }
    }

    /// The filesystem as a map from path to entry.
    pub closed spec fn fs_map(self) -> Map<Seq<char>, FsVal> {
        self.fs@
    }

    /// The filesystem bindings in insertion order.
    pub closed spec fn fs_entries(self) -> Seq<(Seq<char>, FsVal)> {
        self.fs.entries()
    }

    /// The paths resolvable through the search path, in order.
    pub closed spec fn paths(self) -> Seq<Seq<char>> {
        self.path_entries.deep_view()
    }

    /// The installed package names.
    pub closed spec fn installed_seq(self) -> Seq<Seq<char>> {
        self.installed.deep_view()
    }

    /// Whether a package is installed.
    pub open spec fn is_installed(self, package: Seq<char>) -> bool {
        self.installed_seq().contains(package)
    }

    /// The record of performed actions, in order.
    pub closed spec fn events_seq(self) -> Seq<EventV> {
        self.events.deep_view()
    }

    /// The filesystem binds each path once, the filesystem map matches the
    /// bindings, and each installed package is listed once.
    pub closed spec fn wf(self) -> bool {
        &&& self.fs.wf()
        &&& self.fs_map() == crate::fsmodel::map_of(self.fs_entries())
        &&& unique_seqs(self.installed_seq())
    }

    /// A fresh system for a distribution: nothing modelled, nothing
    /// recorded.
    pub fn new(linux_distribution: SupportedLinuxDistribution) -> (r: Result<System, Error>)
        ensures
            r matches Ok(s) ==> {
                &&& s.wf()
                &&& s.distro() == linux_distribution
                &&& s.distribution_info() is None
                &&& s.fs_entries() == Seq::<(Seq<char>, FsVal)>::empty()
                &&& s.fs_map() == Map::<Seq<char>, FsVal>::empty()
                &&& s.paths() == Seq::<Seq<char>>::empty()
                &&& s.installed_seq() == Seq::<Seq<char>>::empty()
                &&& s.events_seq() == Seq::<EventV>::empty()
            },
            r is Ok,
    {
        let s = System {
            linux_distribution,
            distribution: None,
            fs: FileSystem::new(),
            path_entries: Vec::new(),
            installed: Vec::new(),
            events: Vec::new(),
        };
        proof {
            assert(s.paths() =~= Seq::<Seq<char>>::empty());
            assert(s.installed_seq() =~= Seq::<Seq<char>>::empty());
            assert(s.events_seq() =~= Seq::<EventV>::empty());
        }
        Ok(s)
    }

    /// Records the identifier and release the system reports.
    pub fn set_distribution(&mut self, d: Distribution)
        requires
            old(self).wf(),
        ensures
            final(self).wf(),
            final(self).distribution_info() == Some((d.id@, d.release@)),
            final(self).distro() == old(self).distro(),
            final(self).fs_entries() == old(self).fs_entries(),
            final(self).fs_map() == old(self).fs_map(),
            final(self).paths() == old(self).paths(),
            final(self).installed_seq() == old(self).installed_seq(),
            final(self).events_seq() == old(self).events_seq(),
    {
        self.distribution = Some(d);
    }

    /// Reports the distribution information, failing when none is known.
    pub fn distribution(&self) -> (r: Result<Distribution, Error>)
        ensures
            match r {
                Ok(d) => self.distribution_info() == Some((d.id@, d.release@)),
                Err(e) => self.distribution_info() is None && e == Error::Detection,
            },
    {
        match &self.distribution {
            Some(d) => Ok(d.clone()),
            None => Err(Error::Detection),
        }
    }

    /// Places a regular file into the model, optionally marking it
    /// resolvable through the search path.
    pub fn add_file(&mut self, path: &str, content: &str, mode: u32, on_path: bool)
        requires
            old(self).wf(),
        ensures
            final(self).wf(),
            final(self).fs_map() == old(self).fs_map().insert(
                path@,
                FsVal::Regular { content: content@, mode },
            ),
            !old(self).fs_map().contains_key(path@) ==> final(self).fs_entries() == old(
                self,
            ).fs_entries().push((path@, FsVal::Regular { content: content@, mode })),
            final(self).paths() == if on_path {
                old(self).paths().push(path@)
            } else {
                old(self).paths()
            },
            final(self).distro() == old(self).distro(),
            final(self).distribution_info() == old(self).distribution_info(),
            final(self).installed_seq() == old(self).installed_seq(),
            final(self).events_seq() == old(self).events_seq(),
    {
        self.fs.put(
            path,
            FsEntry::Regular { content: String::from_str(content), mode },
        );
        if on_path {
            self.path_entries.push(String::from_str(path));
            proof {
                assert(self.paths() =~= old(self).paths().push(path@));
            }
        }
    }

    /// Places a symlink into the model, optionally marking it resolvable
    /// through the search path.
    pub fn add_symlink(&mut self, path: &str, source: &str, on_path: bool)
        requires
            old(self).wf(),
        ensures
            final(self).wf(),
            final(self).fs_map() == old(self).fs_map().insert(
                path@,
                FsVal::Link { source: source@ },
            ),
            !old(self).fs_map().contains_key(path@) ==> final(self).fs_entries() == old(
                self,
            ).fs_entries().push((path@, FsVal::Link { source: source@ })),
            final(self).paths() == if on_path {
                old(self).paths().push(path@)
            } else {
                old(self).paths()
            },
            final(self).distro() == old(self).distro(),
            final(self).distribution_info() == old(self).distribution_info(),
            final(self).installed_seq() == old(self).installed_seq(),
            final(self).events_seq() == old(self).events_seq(),
    {
        self.fs.put(path, FsEntry::Link { source: String::from_str(source) });
        if on_path {
            self.path_entries.push(String::from_str(path));
            proof {
                assert(self.paths() =~= old(self).paths().push(path@));
            }
        }
    }

    /// Whether a package name is in the installed list.
    fn installed_contains(&self, package: &str) -> (r: bool)
        ensures
            r == self.installed_seq().contains(package@),
    {
        let mut i: usize = 0;
        while i < self.installed.len()
            invariant
                i <= self.installed@.len(),
                forall|j: int| 0 <= j < i ==> (#[trigger] self.installed_seq()[j]) != package@,
            decreases self.installed@.len() - i,
        {
            if str_eq(self.installed[i].as_str(), package) {
                assert(self.installed_seq()[i as int] == package@);
                return true;
            }
            i += 1;
        }
        false
    }

    /// Marks a package as installed, without recording an action.
    pub fn set_installed(&mut self, package: &str)
        requires
            old(self).wf(),
        ensures
            final(self).wf(),
            final(self).installed_seq() == if old(self).is_installed(package@) {
                old(self).installed_seq()
            } else {
                old(self).installed_seq().push(package@)
            },
            final(self).is_installed(package@),
            final(self).fs_entries() == old(self).fs_entries(),
            final(self).fs_map() == old(self).fs_map(),
            final(self).paths() == old(self).paths(),
            final(self).distro() == old(self).distro(),
            final(self).distribution_info() == old(self).distribution_info(),
            final(self).events_seq() == old(self).events_seq(),
    {
        if !self.installed_contains(package) {
            self.installed.push(String::from_str(package));
            proof {
                assert(self.installed_seq() =~= old(self).installed_seq().push(package@));
                lemma_push_contains(old(self).installed_seq(), package@, package@);
            }
        }
    }

    /// Installs a package: issues the package manager's install command and
    /// marks the package installed.
    pub fn install_package(&mut self, package: &str) -> (r: Result<(), Error>)
        requires
            old(self).wf(),
            !(old(self).kind() is Unknown),
        ensures
            r is Ok,
            final(self).wf(),
            final(self).events_seq() == old(self).events_seq().push(
                EventV::RanCommand { command: install_cmd_v(old(self).kind(), package@) },
            ),
            final(self).installed_seq() == if old(self).is_installed(package@) {
                old(self).installed_seq()
            } else {
                old(self).installed_seq().push(package@)
            },
            final(self).is_installed(package@),
            final(self).fs_entries() == old(self).fs_entries(),
            final(self).fs_map() == old(self).fs_map(),
            final(self).paths() == old(self).paths(),
            final(self).distro() == old(self).distro(),
            final(self).distribution_info() == old(self).distribution_info(),
    {
        let cmd = match self.linux_distribution.package_manager().gen_install_command(package) {
            Ok(c) => c,
            Err(e) => {
                proof {
                    assert(false);
                }
                return Err(e);
            },
        };
        self.events.push(Event::RanCommand { command: cmd });
        proof {
            assert(self.events_seq() =~= old(self).events_seq().push(
                EventV::RanCommand { command: install_cmd_v(old(self).kind(), package@) },
            ));
        }
        if !self.installed_contains(package) {
            self.installed.push(String::from_str(package));
            proof {
                assert(self.installed_seq() =~= old(self).installed_seq().push(package@));
                lemma_push_contains(old(self).installed_seq(), package@, package@);
            }
        }
        Ok(())
    }

    /// Removes a package: issues the package manager's remove command and
    /// unmarks the package.
    pub fn remove_package(&mut self, package: &str) -> (r: Result<(), Error>)
        requires
            old(self).wf(),
            !(old(self).kind() is Unknown),
        ensures
            r is Ok,
            final(self).wf(),
            final(self).events_seq() == old(self).events_seq().push(
                EventV::RanCommand { command: remove_cmd_v(old(self).kind(), package@) },
            ),
            forall|q: Seq<char>|
                final(self).is_installed(q) <==> (old(self).is_installed(q) && q != package@),
            final(self).fs_entries() == old(self).fs_entries(),
            final(self).fs_map() == old(self).fs_map(),
            final(self).paths() == old(self).paths(),
            final(self).distro() == old(self).distro(),
            final(self).distribution_info() == old(self).distribution_info(),
    {
        let cmd = match self.linux_distribution.package_manager().gen_remove_command(package) {
            Ok(c) => c,
            Err(e) => {
                proof {
                    assert(false);
                }
                return Err(e);
            },
        };
        self.events.push(Event::RanCommand { command: cmd });
        proof {
            assert(self.events_seq() =~= old(self).events_seq().push(
                EventV::RanCommand { command: remove_cmd_v(old(self).kind(), package@) },
            ));
        }
        let ghost pre = self.installed.deep_view();
        proof {
            assert(pre == old(self).installed_seq());
            assert(unique_seqs(pre));
        }
        let mut i: usize = 0;
        while i < self.installed.len()
            invariant
                i <= self.installed@.len(),
                forall|j: int| 0 <= j < i ==> (#[trigger] self.installed.deep_view()[j]) != package@,
                self.installed.deep_view() == pre,
                pre == old(self).installed_seq(),
                unique_seqs(pre),
                old(self).wf(),
                self.fs == old(self).fs,
                self.path_entries == old(self).path_entries,
                self.distribution == old(self).distribution,
                self.linux_distribution == old(self).linux_distribution,
                self.events_seq() == old(self).events_seq().push(
                    EventV::RanCommand { command: remove_cmd_v(old(self).kind(), package@) },
                ),
            decreases self.installed@.len() - i,
        {
            if str_eq(self.installed[i].as_str(), package) {
                self.installed.remove(i);
                proof {
                    assert(self.installed.deep_view() =~= pre.remove(i as int));
                    assert(pre[i as int] == package@);
                    assert forall|q: Seq<char>|
                        self.installed.deep_view().contains(q) <==> (pre.contains(q) && q
                            != package@) by {
                        lemma_remove_contains(pre, i as int, q);
                    }
                    lemma_remove_unique(pre, i as int);
                    assert(unique_seqs(self.installed.deep_view()));
                }
                return Ok(());
            }
            i += 1;
        }
        proof {
            assert forall|q: Seq<char>|
                self.installed.deep_view().contains(q) <==> (pre.contains(q) && q != package@) by {
                if pre.contains(q) && q == package@ {
                    let j = choose|j: int| 0 <= j < pre.len() && pre[j] == q;
                    assert(pre[j] != package@);
                }
            }
        }
        Ok(())
    }

    /// Refreshes the package manager's package lists.
    pub fn update_package_lists(&mut self) -> (r: Result<(), Error>)
        requires
            old(self).wf(),
            !(old(self).kind() is Unknown),
        ensures
            r is Ok,
            final(self).wf(),
            final(self).events_seq() == old(self).events_seq().push(
                EventV::RanCommand { command: update_cmd_v(old(self).kind()) },
            ),
            final(self).installed_seq() == old(self).installed_seq(),
            final(self).fs_entries() == old(self).fs_entries(),
            final(self).fs_map() == old(self).fs_map(),
            final(self).paths() == old(self).paths(),
            final(self).distro() == old(self).distro(),
            final(self).distribution_info() == old(self).distribution_info(),
    {
        let cmd = match self.linux_distribution.package_manager().gen_update_command() {
            Ok(c) => c,
            Err(e) => {
                proof {
                    assert(false);
                }
                return Err(e);
            },
        };
        self.events.push(Event::RanCommand { command: cmd });
        proof {
            assert(self.events_seq() =~= old(self).events_seq().push(
                EventV::RanCommand { command: update_cmd_v(old(self).kind()) },
            ));
        }
        Ok(())
    }

    /// Whether a package is installed; a failing query reads as not
    /// installed.
    pub fn check_installed(&self, package: &str) -> (r: bool)
        ensures
            r == self.is_installed(package@),
    {
        self.installed_contains(package)
    }

    /// Creates a symlink at `target` pointing to `source`, removing
    /// whatever occupied `target`.
    pub fn create_symlink(&mut self, source: &str, target: &str) -> (r: Result<(), Error>)
        requires
            old(self).wf(),
        ensures
            r is Ok,
            final(self).wf(),
            final(self).fs_map() == old(self).fs_map().insert(
                target@,
                FsVal::Link { source: source@ },
            ),
            final(self).events_seq() == old(self).events_seq().push(
                EventV::Symlinked { source: source@, target: target@ },
            ),
            final(self).paths() == old(self).paths(),
            final(self).installed_seq() == old(self).installed_seq(),
            final(self).distro() == old(self).distro(),
            final(self).distribution_info() == old(self).distribution_info(),
    {
        self.fs.remove_path(target);
        self.fs.put(target, FsEntry::Link { source: String::from_str(source) });
        self.events.push(
            Event::Symlinked {
                source: String::from_str(source),
                target: String::from_str(target),
            },
        );
        proof {
            assert(self.fs_map() =~= old(self).fs_map().insert(
                target@,
                FsVal::Link { source: source@ },
            ));
            assert(self.events_seq() =~= old(self).events_seq().push(
                EventV::Symlinked { source: source@, target: target@ },
            ));
        }
        Ok(())
    }

    /// Copies a regular file to its backup name, re-applying its permission
    /// mode to the copy; fails when the file is absent or not regular.
    pub fn backup_file(&mut self, file: &str) -> (r: Result<(), Error>)
        requires
            old(self).wf(),
        ensures
            final(self).wf(),
            ({
                let fs = old(self).fs_map();
                if fs.contains_key(file@) && fs[file@] is Regular {
                    &&& r is Ok
                    &&& final(self).fs_map() == fs.insert(backup_name_of(file@), fs[file@])
                    &&& final(self).events_seq() == old(self).events_seq().push(
                        EventV::BackedUp { path: file@ },
                    )
                } else {
                    &&& r matches Err(e) && e is Backup
                    &&& final(self).fs_map() == fs
                    &&& final(self).events_seq() == old(self).events_seq()
                }
            }),
            final(self).paths() == old(self).paths(),
            final(self).installed_seq() == old(self).installed_seq(),
            final(self).distro() == old(self).distro(),
            final(self).distribution_info() == old(self).distribution_info(),
    {
        let entry = match self.fs.get(file) {
            Some(e) => e.clone(),
            None => {
                return Err(Error::Backup { path: String::from_str(file) });
            },
        };
        match entry {
            FsEntry::Regular { content, mode } => {
                let b = backup_filename(file);
                self.fs.put(b.as_str(), FsEntry::Regular { content, mode });
                self.events.push(Event::BackedUp { path: String::from_str(file) });
                proof {
                    assert(self.events_seq() =~= old(self).events_seq().push(
                        EventV::BackedUp { path: file@ },
                    ));
                }
                Ok(())
            },
            FsEntry::Link { .. } => Err(Error::Backup { path: String::from_str(file) }),
        }
    }

    /// Moves the backup of a file back over it when one exists; a missing
    /// backup is tolerated and only the attempt is recorded.
    pub fn restore_file(&mut self, file: &str) -> (r: Result<(), Error>)
        requires
            old(self).wf(),
        ensures
            r is Ok,
            final(self).wf(),
            final(self).fs_map() == restore_step(old(self).fs_map(), file@),
            final(self).events_seq() == old(self).events_seq().push(
                EventV::RestoreAttempted { path: file@ },
            ),
            final(self).paths() == old(self).paths(),
            final(self).installed_seq() == old(self).installed_seq(),
            final(self).distro() == old(self).distro(),
            final(self).distribution_info() == old(self).distribution_info(),
    {
        let b = backup_filename(file);
        let entry = match self.fs.get(b.as_str()) {
            Some(e) => Some(e.clone()),
            None => None,
        };
        match entry {
            Some(e) => {
                self.fs.remove_path(b.as_str());
                self.fs.put(file, e);
            },
            None => {},
        }
        self.events.push(Event::RestoreAttempted { path: String::from_str(file) });
        proof {
            assert(self.events_seq() =~= old(self).events_seq().push(
                EventV::RestoreAttempted { path: file@ },
            ));
        }
        Ok(())
    }

    /// Replaces `target` with a symlink to `source`: an existing symlink is
    /// left alone, an existing regular file is backed up first.
    pub fn replace_file_with_symlink(&mut self, source: &str, target: &str) -> (r: Result<
        (),
        Error,
    >)
        requires
            old(self).wf(),
        ensures
            r is Ok,
            final(self).wf(),
            final(self).fs_map() == swap_step(old(self).fs_map(), source@, target@),
            final(self).events_seq() == old(self).events_seq() + swap_events(
                old(self).fs_map(),
                source@,
                target@,
            ),
            final(self).paths() == old(self).paths(),
            final(self).installed_seq() == old(self).installed_seq(),
            final(self).distro() == old(self).distro(),
            final(self).distribution_info() == old(self).distribution_info(),
    {
        if self.fs.contains_path(target) {
            if self.fs.is_symlink(target) {
                proof {
                    assert(self.events_seq() =~= old(self).events_seq() + swap_events(
                        old(self).fs_map(),
                        source@,
                        target@,
                    ));
                }
                return Ok(());
            }
            let res = self.backup_file(target);
            proof {
                assert(res is Ok);
            }
            self.fs.remove_path(target);
        }
        let res = self.create_symlink(source, target);
        proof {
            assert(self.fs_map() =~= swap_step(old(self).fs_map(), source@, target@));
            assert(self.events_seq() =~= old(self).events_seq() + swap_events(
                old(self).fs_map(),
                source@,
                target@,
            ));
        }
        res
    }

    /// The paths directly under a directory, failing when none lie there
    /// (the directory is missing or not a directory).
    pub fn list_files(&self, directory: &str) -> (r: Result<Vec<String>, Error>)
        ensures
            match r {
                Ok(v) => v.deep_view() == list_spec(self.fs_entries(), directory@)
                    && v.deep_view().len() > 0,
                Err(e) => list_spec(self.fs_entries(), directory@).len() == 0 && e is Filesystem,
            },
    {
        let mut out: Vec<String> = Vec::new();
        let n = self.fs.len();
        let mut i: usize = 0;
        while i < n
            invariant
                i <= n,
                n == self.fs_entries().len(),
                out.deep_view() == list_spec(self.fs_entries().take(i as int), directory@),
            decreases n - i,
        {
            let p = self.fs.path_at(i);
            proof {
                assert(self.fs_entries().take(i + 1).drop_last() =~= self.fs_entries().take(
                    i as int,
                ));
            }
            if crate::pathname::is_direct_child(p.as_str(), directory) {
                let ghost pre = out.deep_view();
                out.push(String::from_str(p.as_str()));
                proof {
                    assert(out.deep_view() =~= pre.push(self.fs_entries()[i as int].0));
                }
            }
            i += 1;
        }
        proof {
            assert(self.fs_entries().take(self.fs_entries().len() as int) =~= self.fs_entries());
        }
        if out.len() == 0 {
            Err(Error::Filesystem { path: String::from_str(directory) })
        } else {
            Ok(out)
        }
    }

    /// Resolves a base name through the modelled search path, failing when
    /// nothing there carries that base name.
    pub fn which(&self, binary_name: &str) -> (r: Result<String, Error>)
        ensures
            match r {
                Ok(p) => which_spec(self.paths(), binary_name@) == Some(p@),
                Err(e) => which_spec(self.paths(), binary_name@) is None && e is Filesystem,
            },
    {
        let mut i: usize = 0;
        proof {
            assert(self.paths().skip(0) =~= self.paths());
        }
        while i < self.path_entries.len()
            invariant
                i <= self.path_entries@.len(),
                which_spec(self.paths().skip(i as int), binary_name@) == which_spec(
                    self.paths(),
                    binary_name@,
                ),
            decreases self.path_entries@.len() - i,
        {
            let b = crate::pathname::basename(self.path_entries[i].as_str());
            if str_eq(b.as_str(), binary_name) {
                proof {
                    assert(self.paths().skip(i as int).first() == self.paths()[i as int]);
                }
                return Ok(String::from_str(self.path_entries[i].as_str()));
            }
            proof {
                assert(self.paths().skip(i as int).drop_first() =~= self.paths().skip(i + 1));
            }
            i += 1;
        }
        Err(Error::Filesystem { path: String::from_str(binary_name) })
    }

    /// The existing system path a base name resolves to: its search-path
    /// hit, or `/usr/bin/<name>` as the fallback.
    pub fn resolve_existing(&self, binary_name: &str) -> (r: String)
        ensures
            r@ == resolve_spec(self.paths(), binary_name@),
    {
        match self.which(binary_name) {
            Ok(p) => p,
            Err(_) => crate::textutil::concat_str("/usr/bin/", binary_name),
        }
    }

    /// Removes a file from the model if it exists; absence is tolerated.
    pub fn remove_file(&mut self, path: &str)
        requires
            old(self).wf(),
        ensures
            final(self).wf(),
            final(self).fs_map() == old(self).fs_map().remove(path@),
            final(self).paths() == old(self).paths(),
            final(self).installed_seq() == old(self).installed_seq(),
            final(self).events_seq() == old(self).events_seq(),
            final(self).distro() == old(self).distro(),
            final(self).distribution_info() == old(self).distribution_info(),
    {
        self.fs.remove_path(path);
    }

    /// The entry a path holds, if the path exists.
    pub fn get_file(&self, path: &str) -> (r: Option<&FsEntry>)
        requires
            self.wf(),
        ensures
            match r {
                Some(e) => self.fs_map().contains_key(path@) && self.fs_map()[path@] == e@,
                None => !self.fs_map().contains_key(path@),
            },
    {
        self.fs.get(path)
    }

    /// The record of performed actions.
    pub fn events(&self) -> (r: &Vec<Event>)
        ensures
            r.deep_view() == self.events_seq(),
    {
        &self.events
    }

    /// The display strings of the commands run, in order.
    pub fn commands(&self) -> (r: Vec<String>)
        ensures
            r.deep_view() == commands_of(self.events_seq()),
    {
        let mut out: Vec<String> = Vec::new();
        let mut i: usize = 0;
        while i < self.events.len()
            invariant
                i <= self.events@.len(),
                out.deep_view() == commands_of(self.events_seq().take(i as int)),
            decreases self.events@.len() - i,
        {
            proof {
                assert(self.events_seq().take(i + 1).drop_last() =~= self.events_seq().take(
                    i as int,
                ));
            }
            match &self.events[i] {
                Event::RanCommand { command } => {
                    let ghost pre = out.deep_view();
                    out.push(command.display());
                    proof {
                        assert(out.deep_view() =~= pre.push(crate::command::display_of(command@)));
                    }
                },
                _ => {},
            }
            i += 1;
        }
        proof {
            assert(self.events_seq().take(self.events_seq().len() as int) =~= self.events_seq());
        }
        out
    }

    /// The paths backed up, in order.
    pub fn backed_up_files(&self) -> (r: Vec<String>)
        ensures
            r.deep_view() == backed_up_of(self.events_seq()),
    {
        let mut out: Vec<String> = Vec::new();
        let mut i: usize = 0;
        while i < self.events.len()
            invariant
                i <= self.events@.len(),
                out.deep_view() == backed_up_of(self.events_seq().take(i as int)),
            decreases self.events@.len() - i,
        {
            proof {
                assert(self.events_seq().take(i + 1).drop_last() =~= self.events_seq().take(
                    i as int,
                ));
            }
            match &self.events[i] {
                Event::BackedUp { path } => {
                    let ghost pre = out.deep_view();
                    out.push(path.clone());
                    proof {
                        assert(out.deep_view() =~= pre.push(path@));
                    }
                },
                _ => {},
            }
            i += 1;
        }
        proof {
            assert(self.events_seq().take(self.events_seq().len() as int) =~= self.events_seq());
        }
        out
    }

    /// The symlinks created, as source and target pairs, in order.
    pub fn created_symlinks(&self) -> (r: Vec<(String, String)>)
        ensures
            r.deep_view() == symlinks_of(self.events_seq()),
    {
        let mut out: Vec<(String, String)> = Vec::new();
        let mut i: usize = 0;
        while i < self.events.len()
            invariant
                i <= self.events@.len(),
                out.deep_view() == symlinks_of(self.events_seq().take(i as int)),
            decreases self.events@.len() - i,
        {
            proof {
                assert(self.events_seq().take(i + 1).drop_last() =~= self.events_seq().take(
                    i as int,
                ));
            }
            match &self.events[i] {
                Event::Symlinked { source, target } => {
                    let ghost pre = out.deep_view();
                    out.push((source.clone(), target.clone()));
                    proof {
                        assert(out.deep_view() =~= pre.push((source@, target@)));
                    }
                },
                _ => {},
            }
            i += 1;
        }
        proof {
            assert(self.events_seq().take(self.events_seq().len() as int) =~= self.events_seq());
        }
        out
    }

    /// The paths whose restoration was attempted, in order.
    pub fn restored_files(&self) -> (r: Vec<String>)
        ensures
            r.deep_view() == restores_of(self.events_seq()),
    {
        let mut out: Vec<String> = Vec::new();
        let mut i: usize = 0;
        while i < self.events.len()
            invariant
                i <= self.events@.len(),
                out.deep_view() == restores_of(self.events_seq().take(i as int)),
            decreases self.events@.len() - i,
        {
            proof {
                assert(self.events_seq().take(i + 1).drop_last() =~= self.events_seq().take(
                    i as int,
                ));
            }
            match &self.events[i] {
                Event::RestoreAttempted { path } => {
                    let ghost pre = out.deep_view();
                    out.push(path.clone());
                    proof {
                        assert(out.deep_view() =~= pre.push(path@));
                    }
                },
                _ => {},
            }
            i += 1;
        }
        proof {
            assert(self.events_seq().take(self.events_seq().len() as int) =~= self.events_seq());
        }
        out
    }
}

impl Clone for Event {
    /// The copy records the same action.
    fn clone(&self) -> (r: Self)
        ensures
            r@ == self@,
    {
        match self {
            Event::RanCommand { command } => Event::RanCommand { command: command.clone() },
            Event::BackedUp { path } => Event::BackedUp { path: path.clone() },
            Event::Symlinked { source, target } => Event::Symlinked {
                source: source.clone(),
                target: target.clone(),
            },
            Event::RestoreAttempted { path } => Event::RestoreAttempted { path: path.clone() },
        }
    }
}

impl Clone for System {
    /// The copy models the same system: same distribution, filesystem,
    /// search path, installed packages, and record.
    fn clone(&self) -> (r: Self)
        ensures
            r.wf() == self.wf(),
            r.distro() == self.distro(),
            r.distribution_info() == self.distribution_info(),
            r.fs_entries() == self.fs_entries(),
            r.fs_map() == self.fs_map(),
            r.paths() == self.paths(),
            r.installed_seq() == self.installed_seq(),
            r.events_seq() == self.events_seq(),
    {
        let distribution = match &self.distribution {
            Some(d) => Some(d.clone()),
            None => None,
        };
        let mut events: Vec<Event> = Vec::new();
        let mut i: usize = 0;
        while i < self.events.len()
            invariant
                i <= self.events@.len(),
                events@.len() == i,
                forall|j: int| 0 <= j < i ==> (#[trigger] events@[j])@ == self.events@[j]@,
            decreases self.events@.len() - i,
        {
            events.push(self.events[i].clone());
            i += 1;
        }
        let r = System {
            linux_distribution: self.linux_distribution,
            distribution,
            fs: self.fs.clone(),
            path_entries: crate::command::clone_string_vec(&self.path_entries),
            installed: crate::command::clone_string_vec(&self.installed),
            events,
        };
        proof {
            assert(r.events_seq() =~= self.events_seq());
            assert(r.paths() =~= self.paths());
            assert(r.installed_seq() =~= self.installed_seq());
        }
        r
    }
}

} // verus!
