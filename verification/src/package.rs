//! Where packages live, and how each dependency is installed. Fetching and unpacking
//! are left to the caller.

use vstd::prelude::*;
use crate::config::{opt_view, Dependency};
use crate::paths::{join, path_join};
use crate::text::{concat, push_str, str_eq};

verus! {

/// The directory, under the project root, that holds the packages.
pub open spec fn packages_dir_name() -> Seq<char> {
    ".solscript/packages"@
}

/// The packages of one project.
#[derive(Debug)]
pub struct PackageManager {
    project_root: String,
    packages_dir: String,
}

/// What installing a dependency comes to.
#[derive(Debug)]
pub enum InstallAction {
    /// Fetch the latest revision into the installed git checkout at this directory.
    UpdateGit(String),
    /// Use this local directory as it is.
    UsePath(String),
    /// The package is installed in this directory.
    Installed(String),
    /// Clone the git repository into the package directory.
    CloneGit(String),
    /// Download a released version into the package directory.
    Download(String),
}

/// The local directory of a dependency, if it is one.
pub open spec fn dep_local_path(d: Dependency) -> Option<Seq<char>> {
    match d {
        Dependency::Version(_) => None,
        Dependency::Detailed(spec) => opt_view(spec.path),
    }
}

/// Whether a dependency comes from git.
pub open spec fn dep_is_git(d: Dependency) -> bool {
    match d {
        Dependency::Version(_) => false,
        Dependency::Detailed(spec) => spec.git is Some || spec.github is Some,
    }
}

impl PackageManager {
    /// The package manager of the project at `project_root`.
    pub fn new(project_root: String) -> (m: PackageManager)
        ensures
            m.root()@ == project_root@,
            m.dir()@ == path_join(project_root@, packages_dir_name()),
    {
        let packages_dir = join(project_root.as_str(), ".solscript/packages");
        PackageManager { project_root, packages_dir }
    }

    pub closed spec fn root(&self) -> String {
        self.project_root
    }

    pub closed spec fn dir(&self) -> String {
        self.packages_dir
    }

    /// The project root.
    pub fn project_root(&self) -> (s: &str)
        ensures
            s@ == self.root()@,
    {
        self.project_root.as_str()
    }

    /// The directory that holds the packages.
    pub fn packages_dir(&self) -> (s: &str)
        ensures
            s@ == self.dir()@,
    {
        self.packages_dir.as_str()
    }

    /// The directory of one package.
    pub fn package_dir(&self, name: &str) -> (s: String)
        ensures
            s@ == path_join(self.dir()@, name@),
    {
        join(self.packages_dir.as_str(), name)
    }

    /// The directory of a package's source files.
    pub fn package_source_dir(&self, name: &str) -> (s: String)
        ensures
            s@ == path_join(path_join(self.dir()@, name@), "src"@),
    {
        let d = join(self.packages_dir.as_str(), name);
        join(d.as_str(), "src")
    }

    /// What installing a dependency comes to, given whether its package directory
    /// exists: an installed git package is updated, a local one is used where it is, any
    /// other installed one is kept; otherwise a local one is used, a git one cloned and
    /// any other downloaded.
    pub fn install_action(&self, name: &str, dep: &Dependency, installed: bool) -> (a: InstallAction)
        ensures
            match a {
                InstallAction::UpdateGit(d) => installed && dep_is_git(*dep) && d@ == path_join(self.dir()@, name@),
                InstallAction::UsePath(p) => !(installed && dep_is_git(*dep)) && (dep_local_path(*dep) matches Some(lp)
                    && p@ == path_join(self.root()@, lp)),
                InstallAction::Installed(d) => installed && !dep_is_git(*dep) && dep_local_path(*dep) is None
                    && d@ == path_join(self.dir()@, name@),
                InstallAction::CloneGit(d) => !installed && dep_is_git(*dep) && dep_local_path(*dep) is None
                    && d@ == path_join(self.dir()@, name@),
                InstallAction::Download(d) => !installed && !dep_is_git(*dep) && dep_local_path(*dep) is None
                    && d@ == path_join(self.dir()@, name@),
            },
    {
        let pkg_dir = self.package_dir(name);
        if installed && dep.is_git() {
            return InstallAction::UpdateGit(pkg_dir);
        }
        if let Some(p) = dep.local_path() {
            return InstallAction::UsePath(join(self.project_root.as_str(), p));
        }
        if installed {
            InstallAction::Installed(pkg_dir)
        } else if dep.is_git() {
            InstallAction::CloneGit(pkg_dir)
        } else {
            InstallAction::Download(pkg_dir)
        }
    }
}

/// Where a released version of a package is first looked for.
pub open spec fn release_url(name: Seq<char>, version: Seq<char>) -> Seq<char> {
    "https://github.com/solscript-packages/"@ + name + "/archive/refs/tags/v"@ + version + ".tar.gz"@
}

/// Where a released version of a package is looked for next.
pub open spec fn release_alt_url(name: Seq<char>, version: Seq<char>) -> Seq<char> {
    "https://github.com/solscript/"@ + name + "/archive/refs/tags/v"@ + version + ".tar.gz"@
}

/// The archive a release is downloaded to.
pub open spec fn archive_name(name: Seq<char>, version: Seq<char>) -> Seq<char> {
    name + "-"@ + version + ".tar.gz"@
}

fn release_path(org: &str, name: &str, version: &str) -> (s: String)
    ensures
        s@ == org@ + name@ + "/archive/refs/tags/v"@ + version@ + ".tar.gz"@,
{
    let mut s = concat(org, name);
    push_str(&mut s, "/archive/refs/tags/v");
    push_str(&mut s, version);
    push_str(&mut s, ".tar.gz");
    s
}

/// The URL a released version of a package is first looked for at.
pub fn release_url_of(name: &str, version: &str) -> (s: String)
    ensures
        s@ == release_url(name@, version@),
{
    release_path("https://github.com/solscript-packages/", name, version)
}

/// The URL a released version of a package is looked for at next.
pub fn release_alt_url_of(name: &str, version: &str) -> (s: String)
    ensures
        s@ == release_alt_url(name@, version@),
{
    release_path("https://github.com/solscript/", name, version)
}

/// The file name a release is downloaded to.
pub fn archive_name_of(name: &str, version: &str) -> (s: String)
    ensures
        s@ == archive_name(name@, version@),
{
    let mut s = concat(name, "-");
    push_str(&mut s, version);
    push_str(&mut s, ".tar.gz");
    s
}

/// The revision an updated git package is reset to: the requested one on `origin`, or
/// `origin/HEAD`.
pub fn reset_target(git_ref: &Option<String>) -> (s: String)
    ensures
        s@ == match *git_ref {
            Some(r) => "origin/"@ + r@,
            None => "origin/HEAD"@,
        },
{
    match git_ref {
        Some(r) => concat("origin/", r.as_str()),
        None => "origin/HEAD".to_owned(),
    }
}

/// The installed packages, each with its directory.
#[derive(Debug)]
pub struct InstalledPackages {
    /// Name and directory of each package; the first entry for a name is the one that counts.
    pub packages: Vec<(String, String)>,
}

/// The directory listed first under a name.
pub open spec fn installed_dir(ps: Seq<(String, String)>, name: Seq<char>) -> Option<Seq<char>>
    decreases ps.len(),
{
    if ps.len() == 0 {
        None
    } else if ps[0].0@ == name {
        Some(ps[0].1@)
    } else {
        installed_dir(ps.drop_first(), name)
    }
}

impl InstalledPackages {
    /// No packages.
    pub fn new() -> (p: InstalledPackages)
        ensures
            p.packages@.len() == 0,
    {
        InstalledPackages { packages: Vec::new() }
    }

    /// The directory of a package, if it is installed.
    pub fn get(&self, name: &str) -> (r: Option<&String>)
        ensures
            match r {
                Some(d) => installed_dir(self.packages@, name@) == Some(d@),
                None => installed_dir(self.packages@, name@) is None,
            },
    {
        let mut i: usize = 0;
        assert(self.packages@.skip(0) =~= self.packages@);
        while i < self.packages.len()
            invariant
                i <= self.packages@.len(),
                installed_dir(self.packages@, name@) == installed_dir(self.packages@.skip(i as int), name@),
            decreases self.packages@.len() - i,
        {
            proof {
                assert(self.packages@.skip(i as int).drop_first() =~= self.packages@.skip(i + 1));
            }
            if str_eq(self.packages[i].0.as_str(), name) {
                return Some(&self.packages[i].1);
            }
            i = i + 1;
        }
        assert(self.packages@.skip(i as int) =~= Seq::<(String, String)>::empty());
        None
    }
}

} // verus!
