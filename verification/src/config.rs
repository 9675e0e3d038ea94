//! The project configuration file (`solscript.toml`) and its dependencies.
//!
//! Reading and writing the file is left to the caller; this module holds the
//! configuration itself and the rules for finding the file and editing dependencies.

use vstd::prelude::*;
use crate::paths::{join, lemma_parent_shorter, parent, parent_of, path_join};
use crate::text::{concat, str_eq, push_str};

verus! {

/// The whole configuration of a project.
#[derive(Debug)]
pub struct Config {
    pub project: ProjectConfig,
    pub contract: ContractConfig,
    pub build: BuildConfig,
    pub solana: SolanaConfig,
    /// Each dependency under its name; the first entry for a name is the one that counts.
    pub dependencies: Vec<(String, Dependency)>,
}

#[derive(Debug)]
pub struct ProjectConfig {
    pub name: String,
    pub version: String,
    pub authors: Vec<String>,
    pub description: String,
    pub license: Option<String>,
    pub repository: Option<String>,
}

#[derive(Debug)]
pub struct ContractConfig {
    pub main: String,
    pub name: Option<String>,
}

#[derive(Debug)]
pub struct BuildConfig {
    pub output: String,
}

#[derive(Debug)]
pub struct SolanaConfig {
    pub cluster: String,
}

/// How a dependency is given: a version string, or a detailed specification.
#[derive(Debug)]
pub enum Dependency {
    Version(String),
    Detailed(DependencySpec),
}

#[derive(Debug)]
pub struct DependencySpec {
    pub version: Option<String>,
    pub git: Option<String>,
    pub branch: Option<String>,
    pub tag: Option<String>,
    pub rev: Option<String>,
    pub path: Option<String>,
    /// `owner/repo` on GitHub
    pub github: Option<String>,
}

/// The version a project has when the file gives none.
pub fn default_version() -> (s: String)
    ensures
        s@ == "0.1.0"@,
{
    "0.1.0".to_owned()
}

/// The main source file when the file names none.
pub fn default_main() -> (s: String)
    ensures
        s@ == "src/main.sol"@,
{
    "src/main.sol".to_owned()
}

/// The output directory when the file names none.
pub fn default_output() -> (s: String)
    ensures
        s@ == "output"@,
{
    "output".to_owned()
}

/// The Solana cluster when the file names none.
pub fn default_cluster() -> (s: String)
    ensures
        s@ == "devnet"@,
{
    "devnet".to_owned()
}

impl Default for ContractConfig {
    fn default() -> (c: ContractConfig)
        ensures
            c.main@ == Seq::<char>::empty(),
            c.name is None,
    {
        ContractConfig { main: String::new(), name: None }
    }
}

impl Default for BuildConfig {
    fn default() -> (c: BuildConfig)
        ensures
            c.output@ == Seq::<char>::empty(),
    {
        BuildConfig { output: String::new() }
    }
}

impl Default for SolanaConfig {
    fn default() -> (c: SolanaConfig)
        ensures
            c.cluster@ == Seq::<char>::empty(),
    {
        SolanaConfig { cluster: String::new() }
    }
}

impl Default for DependencySpec {
    fn default() -> (d: DependencySpec)
        ensures
            d.version is None,
            d.git is None,
            d.branch is None,
            d.tag is None,
            d.rev is None,
            d.path is None,
            d.github is None,
    {
        DependencySpec { version: None, git: None, branch: None, tag: None, rev: None, path: None, github: None }
    }
}

/// The view of an optional string.
pub open spec fn opt_view(o: Option<String>) -> Option<Seq<char>> {
    match o {
        Some(s) => Some(s@),
        None => None,
    }
}

/// The first of three optional values that is present.
pub open spec fn first_of(a: Option<Seq<char>>, b: Option<Seq<char>>, c: Option<Seq<char>>) -> Option<Seq<char>> {
    if a is Some { a } else if b is Some { b } else { c }
}

/// The clone URL of a GitHub repository given as `owner/repo`.
pub open spec fn github_url(repo: Seq<char>) -> Seq<char> {
    "https://github.com/"@ + repo + ".git"@
}

fn clone_opt(o: &Option<String>) -> (r: Option<String>)
    ensures
        opt_view(r) == opt_view(*o),
{
    match o {
        Some(s) => Some(s.clone()),
        None => None,
    }
}

impl Dependency {
    /// The version requirement, if the dependency gives one.
    pub fn version(&self) -> (r: Option<&str>)
        ensures
            match *self {
                Dependency::Version(v) => r matches Some(s) && s@ == v@,
                Dependency::Detailed(spec) => match spec.version {
                    Some(v) => r matches Some(s) && s@ == v@,
                    None => r is None,
                },
            },
    {
        match self {
            Dependency::Version(v) => Some(v.as_str()),
            Dependency::Detailed(spec) => match &spec.version {
                Some(v) => Some(v.as_str()),
                None => None,
            },
        }
    }

    /// Whether the dependency comes from a git repository.
    pub fn is_git(&self) -> (b: bool)
        ensures
            b == match *self {
                Dependency::Version(_) => false,
                Dependency::Detailed(spec) => spec.git is Some || spec.github is Some,
            },
    {
        match self {
            Dependency::Version(_) => false,
            Dependency::Detailed(spec) => spec.git.is_some() || spec.github.is_some(),
        }
    }

    /// The URL of the git repository: the one given, or the one of the GitHub repository.
    pub fn git_url(&self) -> (r: Option<String>)
        ensures
            opt_view(r) == match *self {
                Dependency::Version(_) => None,
                Dependency::Detailed(spec) => match spec.git {
                    Some(url) => Some(url@),
                    None => match spec.github {
                        Some(repo) => Some(github_url(repo@)),
                        None => None,
                    },
                },
            },
    {
        match self {
            Dependency::Version(_) => None,
            Dependency::Detailed(spec) => {
                if let Some(url) = &spec.git {
                    Some(url.clone())
                } else {
                    match &spec.github {
                        Some(repo) => {
                            let a = concat("https://github.com/", repo.as_str());
                            Some(concat(a.as_str(), ".git"))
                        },
                        None => None,
                    }
                }
            },
        }
    }

    /// The git revision to check out: the tag, else the branch, else the commit.
    pub fn git_ref(&self) -> (r: Option<String>)
        ensures
            opt_view(r) == match *self {
                Dependency::Version(_) => None,
                Dependency::Detailed(spec) => first_of(
                    opt_view(spec.tag),
                    opt_view(spec.branch),
                    opt_view(spec.rev),
                ),
            },
    {
        match self {
            Dependency::Version(_) => None,
            Dependency::Detailed(spec) => {
                if spec.tag.is_some() {
                    clone_opt(&spec.tag)
                } else if spec.branch.is_some() {
                    clone_opt(&spec.branch)
                } else {
                    clone_opt(&spec.rev)
                }
            },
        }
    }

    /// Whether the dependency is a local directory.
    pub fn is_path(&self) -> (b: bool)
        ensures
            b == match *self {
                Dependency::Version(_) => false,
                Dependency::Detailed(spec) => spec.path is Some,
            },
    {
        match self {
            Dependency::Version(_) => false,
            Dependency::Detailed(spec) => spec.path.is_some(),
        }
    }

    /// The local directory of the dependency, if it is one.
    pub fn local_path(&self) -> (r: Option<&str>)
        ensures
            match *self {
                Dependency::Version(_) => r is None,
                Dependency::Detailed(spec) => match spec.path {
                    Some(p) => r matches Some(s) && s@ == p@,
                    None => r is None,
                },
            },
    {
        match self {
            Dependency::Version(_) => None,
            Dependency::Detailed(spec) => match &spec.path {
                Some(p) => Some(p.as_str()),
                None => None,
            },
        }
    }
}

/// The dependency listed first under a name.
pub open spec fn lookup(deps: Seq<(String, Dependency)>, name: Seq<char>) -> Option<Dependency>
    decreases deps.len(),
{
    if deps.len() == 0 {
        None
    } else {
        let r = lookup(deps.drop_last(), name);
        if r is Some {
            r
        } else if deps.last().0@ == name {
            Some(deps.last().1)
        } else {
            None
        }
    }
}

/// The entries whose name is not `name`, in their order.
pub open spec fn without(deps: Seq<(String, Dependency)>, name: Seq<char>) -> Seq<(String, Dependency)>
    decreases deps.len(),
{
    if deps.len() == 0 {
        seq![]
    } else if deps.last().0@ == name {
        without(deps.drop_last(), name)
    } else {
        without(deps.drop_last(), name).push(deps.last())
    }
}

/// No name is listed twice.
pub open spec fn names_distinct(deps: Seq<(String, Dependency)>) -> bool {
    forall|i: int, j: int| 0 <= i < j < deps.len() ==> deps[i].0@ != deps[j].0@
}

/// The name of the configuration file.
pub open spec fn config_file_name() -> Seq<char> {
    "solscript.toml"@
}

/// The places where the configuration file is looked for from `start`: in `start`
/// itself, then in each directory above it, up to the top.
pub open spec fn config_search(start: Seq<char>) -> Seq<Seq<char>>
    decreases start.len(),
{
    seq![path_join(start, config_file_name())] + match parent(start) {
        Some(p) => {
            proof {
                lemma_parent_shorter(start);
            }
            config_search(p)
        },
        None => seq![],
    }
}

/// The first place in `places` that is among `existing`.
pub open spec fn first_existing(places: Seq<Seq<char>>, existing: Seq<Seq<char>>) -> Option<Seq<char>>
    decreases places.len(),
{
    if places.len() == 0 {
        None
    } else if existing.contains(places[0]) {
        Some(places[0])
    } else {
        first_existing(places.drop_first(), existing)
    }
}

/// Nothing is listed under a name that no entry has.
proof fn lemma_lookup_none(deps: Seq<(String, Dependency)>, name: Seq<char>)
    requires
        forall|j: int| 0 <= j < deps.len() ==> deps[j].0@ != name,
    ensures
        lookup(deps, name) is None,
    decreases deps.len(),
{
    if deps.len() > 0 {
        lemma_lookup_none(deps.drop_last(), name);
    }
}

/// The entry at `i` is what is listed under its name, when no entry before it has that name.
proof fn lemma_lookup_at(deps: Seq<(String, Dependency)>, name: Seq<char>, i: int)
    requires
        0 <= i < deps.len(),
        deps[i].0@ == name,
        forall|j: int| 0 <= j < i ==> deps[j].0@ != name,
    ensures
        lookup(deps, name) == Some(deps[i].1),
    decreases deps.len(),
{
    if i < deps.len() - 1 {
        lemma_lookup_at(deps.drop_last(), name, i);
    } else {
        lemma_lookup_none(deps.drop_last(), name);
    }
}

/// Changing the entry at `i` without changing its name leaves every other name's entry.
proof fn lemma_lookup_set(deps: Seq<(String, Dependency)>, i: int, e: (String, Dependency), name: Seq<char>)
    requires
        0 <= i < deps.len(),
        e.0@ == deps[i].0@,
        name != e.0@,
    ensures
        lookup(deps.update(i, e), name) == lookup(deps, name),
    decreases deps.len(),
{
    if deps.len() > 0 {
        if i < deps.len() - 1 {
            assert(deps.update(i, e).drop_last() =~= deps.drop_last().update(i, e));
            lemma_lookup_set(deps.drop_last(), i, e, name);
        } else {
            assert(deps.update(i, e).drop_last() =~= deps.drop_last());
        }
    }
}

/// A new last entry is listed under its name only when no earlier one is.
proof fn lemma_lookup_push(deps: Seq<(String, Dependency)>, e: (String, Dependency), name: Seq<char>)
    ensures
        lookup(deps.push(e), name) == if lookup(deps, name) is Some {
            lookup(deps, name)
        } else if e.0@ == name {
            Some(e.1)
        } else {
            None::<Dependency>
        },
{
    assert(deps.push(e).drop_last() =~= deps);
}

/// Leaving out the entries under a name leaves what is listed under every other name.
pub proof fn law_lookup_without(deps: Seq<(String, Dependency)>, name: Seq<char>, k: Seq<char>)
    ensures
        lookup(without(deps, name), k) == if k == name {
            None::<Dependency>
        } else {
            lookup(deps, k)
        },
    decreases deps.len(),
{
    if deps.len() > 0 {
        law_lookup_without(deps.drop_last(), name, k);
        if deps.last().0@ != name {
            lemma_lookup_push(without(deps.drop_last(), name), deps.last(), k);
        }
    }
}

/// Leaving out entries keeps the names distinct.
proof fn lemma_without_distinct(deps: Seq<(String, Dependency)>, name: Seq<char>)
    requires
        names_distinct(deps),
    ensures
        names_distinct(without(deps, name)),
        forall|j: int| 0 <= j < without(deps, name).len() ==> exists|m: int| 0 <= m < deps.len() && deps[m] == #[trigger] without(deps, name)[j],
    decreases deps.len(),
{
    if deps.len() > 0 {
        lemma_without_distinct(deps.drop_last(), name);
        let w = without(deps.drop_last(), name);
        if deps.last().0@ != name {
            assert forall|i: int, j: int| 0 <= i < j < w.push(deps.last()).len() implies w.push(deps.last())[i].0@ != w.push(deps.last())[j].0@ by {
                if j == w.len() {
                    let m = choose|m: int| 0 <= m < deps.drop_last().len() && deps.drop_last()[m] == w[i];
                    assert(deps[m] == w[i]);
                }
            }
            assert forall|j: int| 0 <= j < w.push(deps.last()).len() implies exists|m: int| 0 <= m < deps.len() && deps[m] == #[trigger] w.push(deps.last())[j] by {
                if j == w.len() {
                    assert(deps[deps.len() - 1] == w.push(deps.last())[j]);
                } else {
                    let m = choose|m: int| 0 <= m < deps.drop_last().len() && deps.drop_last()[m] == w[j];
                    assert(deps[m] == w.push(deps.last())[j]);
                }
            }
        } else {
            assert forall|j: int| 0 <= j < w.len() implies exists|m: int| 0 <= m < deps.len() && deps[m] == #[trigger] w[j] by {
                let m = choose|m: int| 0 <= m < deps.drop_last().len() && deps.drop_last()[m] == w[j];
                assert(deps[m] == w[j]);
            }
        }
    }
}

impl Config {
    /// The places where the configuration file is looked for from `start`, in order.
    pub fn search_paths(start: &str) -> (r: Vec<String>)
        ensures
            r@.map_values(|s: String| s@) == config_search(start@),
    {
        let mut out: Vec<String> = Vec::new();
        let mut cur = start.to_owned();
        loop
            invariant
                out@.map_values(|s: String| s@) + config_search(cur@) == config_search(start@),
            decreases cur@.len(),
        {
            let ghost before = out@.map_values(|s: String| s@);
            out.push(join(cur.as_str(), "solscript.toml"));
            proof {
                assert(out@.map_values(|s: String| s@) =~= before.push(path_join(cur@, config_file_name())));
            }
            match parent_of(cur.as_str()) {
                Some(p) => {
                    proof {
                        lemma_parent_shorter(cur@);
                        assert(before + config_search(cur@) =~= out@.map_values(|s: String| s@) + config_search(p@));
                    }
                    cur = p;
                },
                None => {
                    proof {
                        assert(before + config_search(cur@) =~= out@.map_values(|s: String| s@));
                    }
                    return out;
                },
            }
        }
    }

    /// The configuration file that governs `start`: the first of its search paths
    /// that is among the existing files.
    pub fn find(start: &str, existing: &Vec<String>) -> (r: Option<String>)
        ensures
            opt_view(r) == first_existing(config_search(start@), existing@.map_values(|s: String| s@)),
    {
        let places = Config::search_paths(start);
        let ghost ex = existing@.map_values(|s: String| s@);
        let mut i: usize = 0;
        assert(places@.map_values(|s: String| s@).skip(0) =~= places@.map_values(|s: String| s@));
        while i < places.len()
            invariant
                i <= places@.len(),
                places@.map_values(|s: String| s@) == config_search(start@),
                ex == existing@.map_values(|s: String| s@),
                first_existing(config_search(start@), ex) == first_existing(
                    places@.map_values(|s: String| s@).skip(i as int),
                    ex,
                ),
            decreases places@.len() - i,
        {
            let ghost rest = places@.map_values(|s: String| s@).skip(i as int);
            assert(rest[0] == places@[i as int]@);
            assert(rest.drop_first() =~= places@.map_values(|s: String| s@).skip(i + 1));
            let mut j: usize = 0;
            let mut found = false;
            while j < existing.len()
                invariant
                    j <= existing@.len(),
                    i < places@.len(),
                    ex == existing@.map_values(|s: String| s@),
                    found == (exists|k: int| 0 <= k < j && existing@[k]@ == places@[i as int]@),
                decreases existing@.len() - j,
            {
                if str_eq(existing[j].as_str(), places[i].as_str()) {
                    found = true;
                }
                j = j + 1;
            }
            if found {
                let ghost k = choose|k: int| 0 <= k < j && existing@[k]@ == places@[i as int]@;
                assert(ex[k] == rest[0]);
                return Some(places[i].clone());
            }
            assert(!ex.contains(rest[0])) by {
                if ex.contains(rest[0]) {
                    let k = choose|k: int| 0 <= k < ex.len() && ex[k] == rest[0];
                    assert(existing@[k]@ == places@[i as int]@);
                }
            }
            i = i + 1;
        }
        assert(places@.map_values(|s: String| s@).skip(i as int) =~= Seq::<Seq<char>>::empty());
        None
    }

    /// Record a dependency under a name: it takes the place of the one listed under that
    /// name, or is listed last.
    pub fn add_dependency(&mut self, name: String, dep: Dependency)
        ensures
            forall|k: Seq<char>| #[trigger] lookup(final(self).dependencies@, k) == if k == name@ {
                Some(dep)
            } else {
                lookup(old(self).dependencies@, k)
            },
            names_distinct(old(self).dependencies@) ==> names_distinct(final(self).dependencies@),
            final(self).project == old(self).project,
            final(self).contract == old(self).contract,
            final(self).build == old(self).build,
            final(self).solana == old(self).solana,
    {
        let ghost old_deps = self.dependencies@;
        let ghost n = name@;
        let ghost d = dep;
        let mut i: usize = 0;
        while i < self.dependencies.len() && !str_eq(self.dependencies[i].0.as_str(), name.as_str())
            invariant
                i <= self.dependencies@.len(),
                self.dependencies@ == old_deps,
                n == name@,
                forall|j: int| 0 <= j < i ==> self.dependencies@[j].0@ != n,
            decreases self.dependencies@.len() - i,
        {
            i = i + 1;
        }
        let entry = (name, dep);
        let ghost e = entry;
        if i < self.dependencies.len() {
            self.dependencies.set(i, entry);
            proof {
                assert(self.dependencies@ == old_deps.update(i as int, e));
                assert forall|k: Seq<char>| #[trigger] lookup(self.dependencies@, k) == if k == n {
                    Some(d)
                } else {
                    lookup(old_deps, k)
                } by {
                    if k == n {
                        lemma_lookup_at(self.dependencies@, k, i as int);
                    } else {
                        lemma_lookup_set(old_deps, i as int, e, k);
                    }
                }
                assert(forall|j: int| 0 <= j < old_deps.len() ==> self.dependencies@[j].0@ == old_deps[j].0@);
            }
        } else {
            self.dependencies.push(entry);
            proof {
                assert(self.dependencies@ =~= old_deps.push(e));
                assert forall|k: Seq<char>| #[trigger] lookup(self.dependencies@, k) == if k == n {
                    Some(d)
                } else {
                    lookup(old_deps, k)
                } by {
                    lemma_lookup_push(old_deps, e, k);
                    if k == n {
                        lemma_lookup_none(old_deps, k);
                    }
                }
            }
        }
    }

    /// Remove every entry under a name, and return the dependency that was listed
    /// under it.
    pub fn remove_dependency(&mut self, name: &str) -> (r: Option<Dependency>)
        ensures
            r == lookup(old(self).dependencies@, name@),
            final(self).dependencies@ == without(old(self).dependencies@, name@),
            forall|k: Seq<char>| #[trigger] lookup(final(self).dependencies@, k) == if k == name@ {
                None
            } else {
                lookup(old(self).dependencies@, k)
            },
            names_distinct(old(self).dependencies@) ==> names_distinct(final(self).dependencies@),
            final(self).project == old(self).project,
            final(self).contract == old(self).contract,
            final(self).build == old(self).build,
            final(self).solana == old(self).solana,
    {
        let ghost old_deps = self.dependencies@;
        let ghost old_self = *self;
        let mut removed: Option<Dependency> = None;
        let mut i: usize = 0;
        let ghost mut seen: int = 0;
        while i < self.dependencies.len()
            invariant
                0 <= i <= seen <= old_deps.len(),
                self.dependencies@ == without(old_deps.take(seen), name@) + old_deps.skip(seen),
                i == without(old_deps.take(seen), name@).len(),
                removed == lookup(old_deps.take(seen), name@),
                self.project == old_self.project,
                self.contract == old_self.contract,
                self.build == old_self.build,
                self.solana == old_self.solana,
            decreases old_deps.len() - seen,
        {
            proof {
                assert(old_deps.take(seen + 1).drop_last() =~= old_deps.take(seen));
                assert(old_deps.take(seen + 1).last() == old_deps[seen]);
                assert(self.dependencies@[i as int] == old_deps[seen]);
            }
            if str_eq(self.dependencies[i].0.as_str(), name) {
                let entry = self.dependencies.remove(i);
                if removed.is_none() {
                    removed = Some(entry.1);
                }
                proof {
                    assert(self.dependencies@ =~= without(old_deps.take(seen + 1), name@) + old_deps.skip(seen + 1));
                    seen = seen + 1;
                }
            } else {
                i = i + 1;
                proof {
                    assert(self.dependencies@ =~= without(old_deps.take(seen + 1), name@) + old_deps.skip(seen + 1));
                    seen = seen + 1;
                }
            }
        }
        proof {
            assert(old_deps.take(seen) =~= old_deps);
            assert(self.dependencies@ =~= without(old_deps, name@));
            assert forall|k: Seq<char>| #[trigger] lookup(self.dependencies@, k) == if k == name@ {
                None
            } else {
                lookup(old_deps, k)
            } by {
                law_lookup_without(old_deps, name@, k);
            }
            if names_distinct(old_deps) {
                lemma_without_distinct(old_deps, name@);
            }
        }
        removed
    }
}

/// A detailed dependency with only the given fields set.
pub open spec fn spec_with(
    path: Option<Seq<char>>,
    github: Option<Seq<char>>,
    git: Option<Seq<char>>,
    tag: Option<Seq<char>>,
    branch: Option<Seq<char>>,
    d: DependencySpec,
) -> bool {
    &&& opt_view(d.version) is None
    &&& opt_view(d.rev) is None
    &&& opt_view(d.path) == path
    &&& opt_view(d.github) == github
    &&& opt_view(d.git) == git
    &&& opt_view(d.tag) == tag
    &&& opt_view(d.branch) == branch
}

/// The dependency that `add` records for its arguments: a local path first, then a
/// GitHub repository or a git URL with its tag and branch, then a version, and any
/// version (`*`) where nothing is given.
pub open spec fn dependency_for(
    version: Option<Seq<char>>,
    github: Option<Seq<char>>,
    git: Option<Seq<char>>,
    tag: Option<Seq<char>>,
    branch: Option<Seq<char>>,
    path: Option<Seq<char>>,
    d: Dependency,
) -> bool {
    if path is Some {
        d matches Dependency::Detailed(s) && spec_with(path, None, None, None, None, s)
    } else if github is Some {
        d matches Dependency::Detailed(s) && spec_with(None, github, None, tag, branch, s)
    } else if git is Some {
        d matches Dependency::Detailed(s) && spec_with(None, None, git, tag, branch, s)
    } else {
        d matches Dependency::Version(v) && v@ == match version {
            Some(x) => x,
            None => "*"@,
        }
    }
}

/// The dependency to record for the arguments of `add`: a local path first, then a
/// GitHub repository or a git URL with its tag and branch, then a version, and any
/// version (`*`) where nothing is given.
pub fn dependency_from_args(
    version: Option<String>,
    github: Option<String>,
    git: Option<String>,
    tag: Option<String>,
    branch: Option<String>,
    path: Option<String>,
) -> (d: Dependency)
    ensures
        dependency_for(opt_view(version), opt_view(github), opt_view(git), opt_view(tag), opt_view(branch), opt_view(path), d),
{
    if path.is_some() {
        Dependency::Detailed(DependencySpec { version: None, git: None, branch: None, tag: None, rev: None, path, github: None })
    } else if github.is_some() {
        Dependency::Detailed(DependencySpec { version: None, git: None, branch, tag, rev: None, path: None, github })
    } else if git.is_some() {
        Dependency::Detailed(DependencySpec { version: None, git, branch, tag, rev: None, path: None, github: None })
    } else {
        match version {
            Some(v) => Dependency::Version(v),
            None => Dependency::Version("*".to_owned()),
        }
    }
}

/// How a dependency is listed: its path, its git URL with the revision (`HEAD` where
/// none is given), or its version.
pub open spec fn source_text(d: Dependency) -> Seq<char> {
    match d {
        Dependency::Version(v) => "version: "@ + v@,
        Dependency::Detailed(s) => if s.path is Some {
            "path: "@ + s.path.unwrap()@
        } else if s.git is Some || s.github is Some {
            let url = match s.git {
                Some(u) => u@,
                None => github_url(s.github.unwrap()@),
            };
            let r = match first_of(opt_view(s.tag), opt_view(s.branch), opt_view(s.rev)) {
                Some(x) => x,
                None => "HEAD"@,
            };
            "git: "@ + url + " ("@ + r + ")"@
        } else {
            match s.version {
                Some(v) => "version: "@ + v@,
                None => "unknown"@,
            }
        },
    }
}

/// How a dependency is listed: its path, its git URL with the revision (`HEAD` where
/// none is given), or its version.
pub fn dependency_source(d: &Dependency) -> (r: String)
    ensures
        r@ == source_text(*d),
{
    if d.is_path() {
        let p = match d.local_path() {
            Some(p) => p,
            None => "unknown",
        };
        concat("path: ", p)
    } else if d.is_git() {
        match d.git_url() {
            Some(url) => {
                let r = match d.git_ref() {
                    Some(r) => r,
                    None => "HEAD".to_owned(),
                };
                let mut s = concat("git: ", url.as_str());
                push_str(&mut s, " (");
                push_str(&mut s, r.as_str());
                push_str(&mut s, ")");
                s
            },
            None => "git".to_owned(),
        }
    } else {
        match d.version() {
            Some(v) => concat("version: ", v),
            None => "unknown".to_owned(),
        }
    }
}

} // verus!
