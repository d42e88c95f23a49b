//! Planning logic of the build/checkout tooling: which repository a
//! project is checked out from, which cargo invocation builds it, and
//! which files count as its artifacts.
//!
//! Running git, cargo and make, and walking directories, stay
//! outside; the library computes the plans and filters the results.

use vstd::prelude::*;

verus! {

/// Character-wise string equality.
pub fn str_eq(a: &str, b: &str) -> (r: bool)
    ensures
        r == (a@ == b@),
{
    let n = a.unicode_len();
    if n != b.unicode_len() {
        return false;
    }
    let mut i: usize = 0;
    while i < n
        invariant
            0 <= i <= n,
            n == a@.len(),
            n == b@.len(),
            forall|j: int| 0 <= j < i ==> a@[j] == b@[j],
        decreases n - i,
    {
        if a.get_char(i) != b.get_char(i) {
            return false;
        }
        i = i + 1;
    }
    proof {
        assert(a@ =~= b@);
    }
    true
}

/// `s` ends with `suffix`.
pub open spec fn spec_ends_with(s: Seq<char>, suffix: Seq<char>) -> bool {
    s.len() >= suffix.len() && s.subrange(s.len() - suffix.len(), s.len() as int) == suffix
}

/// Character-wise suffix test.
pub fn str_ends_with(s: &str, suffix: &str) -> (r: bool)
    ensures
        r == spec_ends_with(s@, suffix@),
{
    let n = s.unicode_len();
    let m = suffix.unicode_len();
    if m > n {
        return false;
    }
    let start = n - m;
    let mut i: usize = 0;
    while i < m
        invariant
            0 <= i <= m <= n,
            n == s@.len(),
            m == suffix@.len(),
            start == n - m,
            forall|j: int| 0 <= j < i ==> s@[start + j] == suffix@[j],
        decreases m - i,
    {
        if s.get_char(start + i) != suffix.get_char(i) {
            proof {
                assert(s@.subrange(n - m, n as int)[i as int] == s@[start + i]);
            }
            return false;
        }
        i = i + 1;
    }
    proof {
        assert(s@.subrange(n - m, n as int) =~= suffix@);
    }
    true
}

/// The regex pattern compiles.
pub uninterp spec fn regex_valid(pattern: Seq<char>) -> bool;

/// The regex pattern matches somewhere in the text.
pub uninterp spec fn regex_matches(pattern: Seq<char>, text: Seq<char>) -> bool;

/// Relies on regex::Regex::new: whether a pattern compiles depends on
/// the pattern alone; the error carries its diagnostic text.
#[verifier::external_body]
fn regex_check(pattern: &str) -> (r: Result<(), String>)
    ensures
        r is Ok <==> regex_valid(pattern@),
{
    match regex::Regex::new(pattern) {
        Ok(_) => Ok(()),
        Err(e) => Err(format!("{e}")),
    }
}

/// Relies on regex::Regex::new and regex::Regex::is_match: whether
/// the compiled pattern matches the text depends on the two strings
/// alone, and compilation succeeds on the pattern alone.
#[verifier::external_body]
fn regex_match(pattern: &str, text: &str) -> (r: Result<bool, String>)
    ensures
        r is Ok <==> regex_valid(pattern@),
        r matches Ok(m) ==> m == regex_matches(pattern@, text@),
{
    match regex::Regex::new(pattern) {
        Ok(re) => Ok(re.is_match(text)),
        Err(e) => Err(format!("{e}")),
    }
}

/// Base directory holding all checkouts and staged builds.
pub fn build_dir() -> (r: &'static str)
    ensures
        r@ == "xcasper-staging"@,
{
    "xcasper-staging"
}

/// A git checkout to perform or refresh.
#[derive(Debug)]
pub struct CheckoutGitRepo {
    /// Git uri (http or git) to use for checkout.
    pub git_url: String,
    /// Branch name to use for checkout.
    pub branch: String,
    /// Name of the remote to use for checkouts.
    pub remote: String,
    /// Base dir where all checkouts are held.
    pub base_path: String,
    /// Name for the local checkout.
    pub local_checkout_name: String,
    /// Should the checkout be updated from the remote.
    pub update_from_remote: bool,
}

/// The stock checkout of the casper-db-utils repository.
pub open spec fn is_db_utils_defaults(c: CheckoutGitRepo) -> bool {
    &&& c.git_url@ == "https://github.com/casper-network/casper-db-utils"@
    &&& c.branch@ == "dev"@
    &&& c.remote@ == "origin"@
    &&& c.base_path@ == "xcasper-staging"@
    &&& c.local_checkout_name@ == "casper-db-utils"@
    &&& !c.update_from_remote
}

/// The stock checkout of the casper-client repository.
pub open spec fn is_client_defaults(c: CheckoutGitRepo) -> bool {
    &&& c.git_url@ == "https://github.com/casper-ecosystem/casper-client-rs"@
    &&& c.branch@ == "main"@
    &&& c.remote@ == "origin"@
    &&& c.base_path@ == "xcasper-staging"@
    &&& c.local_checkout_name@ == "casper-client"@
    &&& !c.update_from_remote
}

/// The stock checkout of the casper-node repository.
pub open spec fn is_node_defaults(c: CheckoutGitRepo) -> bool {
    &&& c.git_url@ == "https://github.com/casper-network/casper-node"@
    &&& c.branch@ == "dev"@
    &&& c.remote@ == "origin"@
    &&& c.base_path@ == "xcasper-staging"@
    &&& c.local_checkout_name@ == "casper-node"@
    &&& !c.update_from_remote
}

/// The stock checkout of the casper-node-launcher repository.
pub open spec fn is_launcher_defaults(c: CheckoutGitRepo) -> bool {
    &&& c.git_url@ == "https://github.com/casper-network/casper-node-launcher"@
    &&& c.branch@ == "main"@
    &&& c.remote@ == "origin"@
    &&& c.base_path@ == "xcasper-staging"@
    &&& c.local_checkout_name@ == "casper-node-launcher"@
    &&& !c.update_from_remote
}

impl CheckoutGitRepo {
    /// Defaults for compiling the dev branch of the casper-db-utils
    /// repo.
    pub fn db_utils_defaults() -> (r: CheckoutGitRepo)
        ensures
            is_db_utils_defaults(r),
    {
        CheckoutGitRepo {
            git_url: String::from_str("https://github.com/casper-network/casper-db-utils"),
            branch: String::from_str("dev"),
            remote: String::from_str("origin"),
            base_path: String::from_str("xcasper-staging"),
            local_checkout_name: String::from_str("casper-db-utils"),
            update_from_remote: false,
        }
    }

    /// Defaults for compiling the main branch of the client repo.
    pub fn client_defaults() -> (r: CheckoutGitRepo)
        ensures
            is_client_defaults(r),
    {
        CheckoutGitRepo {
            git_url: String::from_str("https://github.com/casper-ecosystem/casper-client-rs"),
            branch: String::from_str("main"),
            remote: String::from_str("origin"),
            base_path: String::from_str("xcasper-staging"),
            local_checkout_name: String::from_str("casper-client"),
            update_from_remote: false,
        }
    }

    /// Defaults for compiling the dev branch of the node repo.
    pub fn node_defaults() -> (r: CheckoutGitRepo)
        ensures
            is_node_defaults(r),
    {
        CheckoutGitRepo {
            git_url: String::from_str("https://github.com/casper-network/casper-node"),
            branch: String::from_str("dev"),
            remote: String::from_str("origin"),
            base_path: String::from_str("xcasper-staging"),
            local_checkout_name: String::from_str("casper-node"),
            update_from_remote: false,
        }
    }

    /// Defaults for compiling the global-state-update-gen tool, which
    /// lives in the casper-node repo.
    pub fn global_state_update_gen_defaults() -> (r: CheckoutGitRepo)
        ensures
            is_node_defaults(r),
    {
        CheckoutGitRepo {
            git_url: String::from_str("https://github.com/casper-network/casper-node"),
            branch: String::from_str("dev"),
            remote: String::from_str("origin"),
            base_path: String::from_str("xcasper-staging"),
            local_checkout_name: String::from_str("casper-node"),
            update_from_remote: false,
        }
    }

    /// Defaults for compiling the main branch of the launcher repo.
    pub fn launcher_defaults() -> (r: CheckoutGitRepo)
        ensures
            is_launcher_defaults(r),
    {
        CheckoutGitRepo {
            git_url: String::from_str("https://github.com/casper-network/casper-node-launcher"),
            branch: String::from_str("main"),
            remote: String::from_str("origin"),
            base_path: String::from_str("xcasper-staging"),
            local_checkout_name: String::from_str("casper-node-launcher"),
            update_from_remote: false,
        }
    }

    /// The directory this checkout lands in:
    /// `<base_path>/<local_checkout_name>`.
    pub fn target_path(&self) -> (r: String)
        ensures
            r@ == self.base_path@ + "/"@ + self.local_checkout_name@,
    {
        let mut r = self.base_path.clone();
        r.append("/");
        r.append(self.local_checkout_name.as_str());
        r
    }
}

/// A cargo build of one package inside a checkout.
#[derive(Debug)]
pub struct CargoBuildRustProject {
    /// Compile as debug (`--release` or not).
    pub debug: bool,
    /// Package name to compile.
    pub package_name: String,
    /// Target path.
    pub target_path: String,
}

impl CargoBuildRustProject {
    pub fn new(target_path: String, package_name: &str, debug: bool) -> (r: CargoBuildRustProject)
        ensures
            r.debug == debug,
            r.package_name@ == package_name@,
            r.target_path@ == target_path@,
    {
        CargoBuildRustProject { debug, package_name: package_name.to_owned(), target_path }
    }

    /// The arguments of the cargo invocation (run as `cargo <args>`
    /// inside the checkout): a debug build omits `--release`.
    pub fn build_args(&self) -> (r: Vec<String>)
        ensures
            self.debug ==> r@.len() == 3,
            !self.debug ==> r@.len() == 4 && r@[3]@ == "--release"@,
            r@[0]@ == "build"@,
            r@[1]@ == "--package"@,
            r@[2]@ == self.package_name@,
    {
        let mut args: Vec<String> = Vec::new();
        args.push(String::from_str("build"));
        args.push(String::from_str("--package"));
        args.push(self.package_name.clone());
        if !self.debug {
            args.push(String::from_str("--release"));
        }
        args
    }

    /// Where the built artifact lands and what it is called:
    /// `<target_path>/target/<debug|release>`, one file named after
    /// the package.
    pub fn artifacts(&self) -> (r: BuildArtifacts)
        ensures
            self.debug ==> r.path@ == self.target_path@ + "/target/debug"@,
            !self.debug ==> r.path@ == self.target_path@ + "/target/release"@,
            r.files@.len() == 1,
            r.files@[0]@ == self.package_name@,
    {
        let mut path = self.target_path.clone();
        if self.debug {
            path.append("/target/debug");
        } else {
            path.append("/target/release");
        }
        let mut files: Vec<String> = Vec::new();
        files.push(self.package_name.clone());
        BuildArtifacts { path, files }
    }
}

/// A project build: either a cargo package or a make target.
#[derive(Debug)]
pub enum BuildProject {
    Make {
        makefile_root: String,
        target: String,
        build_dir: String,
        artifact_suffix: String,
    },
    Cargo(CargoBuildRustProject),
}

/// A set of build artifacts: files expected under one directory.
#[derive(Debug)]
pub struct BuildArtifacts {
    pub path: String,
    pub files: Vec<String>,
}

/// `name` has a file extension: a `.` somewhere past the first
/// character.
pub open spec fn spec_has_extension(name: Seq<char>) -> bool {
    exists|i: int| 1 <= i < name.len() && name[i] == '.'
}

impl BuildArtifacts {
    pub fn new(path: String, files: Vec<String>) -> (r: BuildArtifacts)
        ensures
            r.path == path,
            r.files == files,
    {
        BuildArtifacts { path, files }
    }

    /// The artifacts under `path` whose names match `pattern`:
    /// `names` lists the directory's entries, and exactly those
    /// matching the pattern are kept, in order.  Fails exactly when
    /// the pattern does not compile.
    pub fn from_names_matching(path: String, names: &Vec<String>, pattern: &str) -> (r: Result<
        BuildArtifacts,
        String,
    >)
        ensures
            r is Ok <==> regex_valid(pattern@),
            r matches Ok(ba) ==> ba.path@ == path@ && ba.files.deep_view()
                == names.deep_view().filter(|n: Seq<char>| regex_matches(pattern@, n)),
    {
        let ghost pred = |n: Seq<char>| regex_matches(pattern@, n);
        if let Err(msg) = regex_check(pattern) {
            return Err(msg);
        }
        let mut files: Vec<String> = Vec::new();
        let mut i: usize = 0;
        #[verifier::loop_isolation(false)]
        while i < names.len()
            invariant
                0 <= i <= names@.len(),
                files.deep_view() == names.deep_view().take(i as int).filter(pred),
            decreases names@.len() - i,
        {
            let matched = match regex_match(pattern, names[i].as_str()) {
                Ok(m) => m,
                Err(_) => {
                    // the pattern compiled a moment ago
                    proof {
                        assert(false);
                    }
                    false
                },
            };
            if matched {
                files.push(names[i].clone());
            }
            proof {
                reveal(Seq::filter);
                assert(names.deep_view().take(i + 1).drop_last() =~= names.deep_view().take(
                    i as int,
                ));
                assert(names.deep_view().take(i + 1).last() == names.deep_view()[i as int]);
                assert(names.deep_view()[i as int] == names@[i as int]@);
                if matched {
                    assert(files.deep_view() =~= names.deep_view().take(i as int).filter(
                        pred,
                    ).push(names@[i as int]@));
                } else {
                    assert(files.deep_view() =~= names.deep_view().take(i as int).filter(pred));
                }
            }
            i = i + 1;
        }
        proof {
            assert(names.deep_view().take(names@.len() as int) =~= names.deep_view());
        }
        Ok(BuildArtifacts { path, files })
    }

    /// Whether every artifact is present, given the probe result for
    /// each file: an empty artifact set counts as absent.
    pub fn files_exist_given(&self, present: &Vec<bool>) -> (r: bool)
        requires
            present@.len() == self.files@.len(),
        ensures
            r == (self.files@.len() > 0 && forall|i: int|
                0 <= i < present@.len() ==> present@[i]),
    {
        if self.files.len() == 0 {
            return false;
        }
        let mut i: usize = 0;
        while i < present.len()
            invariant
                0 <= i <= present@.len(),
                forall|j: int| 0 <= j < i ==> present@[j],
            decreases present@.len() - i,
        {
            if !present[i] {
                return false;
            }
            i = i + 1;
        }
        true
    }

    /// The copy operations that install the artifacts into `dest`:
    /// each file is copied from `<path>/<file>` to `<dest>/<file>`.
    pub fn copy_plan(&self, dest: &String) -> (r: Vec<(String, String)>)
        ensures
            r@.len() == self.files@.len(),
            forall|i: int|
                0 <= i < r@.len() ==> {
                    &&& (#[trigger] r@[i]).0@ == self.path@ + "/"@ + self.files@[i]@
                    &&& r@[i].1@ == dest@ + "/"@ + self.files@[i]@
                },
    {
        let mut r: Vec<(String, String)> = Vec::new();
        let mut i: usize = 0;
        while i < self.files.len()
            invariant
                0 <= i <= self.files@.len(),
                r@.len() == i,
                forall|j: int|
                    0 <= j < i ==> {
                        &&& (#[trigger] r@[j]).0@ == self.path@ + "/"@ + self.files@[j]@
                        &&& r@[j].1@ == dest@ + "/"@ + self.files@[j]@
                    },
            decreases self.files@.len() - i,
        {
            let mut src = self.path.clone();
            src.append("/");
            src.append(self.files[i].as_str());
            let mut dst = dest.clone();
            dst.append("/");
            dst.append(self.files[i].as_str());
            r.push((src, dst));
            i = i + 1;
        }
        r
    }
}

/// The rust projects belonging to the deployment.
#[derive(Debug, Clone, Copy, PartialEq, Eq, Structural)]
pub enum Project {
    /// casper-db-utils.
    DbUtils,
    /// casper-node.
    Node,
    /// casper-client.
    Client,
    /// casper-node-launcher.
    Launcher,
    /// global-state-update-gen.
    GlobalStateUpdateGen,
    /// The rust smart contracts, built through the Makefile in
    /// casper-node.
    MakefileBuildContractsRs,
}

impl Project {
    /// Parse a project's short name.
    pub fn parse(s: &str) -> (r: Result<Project, String>)
        ensures
            s@ == "casper-db-utils"@ ==> r == Ok::<Project, String>(Project::DbUtils),
            s@ == "casper-node"@ ==> r == Ok::<Project, String>(Project::Node),
            s@ == "casper-client"@ ==> r == Ok::<Project, String>(Project::Client),
            s@ == "casper-node-launcher"@ ==> r == Ok::<Project, String>(Project::Launcher),
            s@ == "global-state-update-gen"@ ==> r == Ok::<Project, String>(
                Project::GlobalStateUpdateGen,
            ),
            s@ == "makefile-build-contracts"@ ==> r == Ok::<Project, String>(
                Project::MakefileBuildContractsRs,
            ),
            (s@ != "casper-db-utils"@ && s@ != "casper-node"@ && s@ != "casper-client"@ && s@
                != "casper-node-launcher"@ && s@ != "global-state-update-gen"@ && s@
                != "makefile-build-contracts"@) ==> r is Err,
    {
        proof {
            // the candidate names are pairwise distinct
            broadcast use vstd::string::group_string_axioms;

            reveal_strlit("casper-db-utils");
            reveal_strlit("casper-node");
            reveal_strlit("casper-client");
            reveal_strlit("casper-node-launcher");
            reveal_strlit("global-state-update-gen");
            reveal_strlit("makefile-build-contracts");
            // the names all have different lengths
            assert("casper-db-utils"@.len() == 15);
            assert("casper-node"@.len() == 11);
            assert("casper-client"@.len() == 13);
            assert("casper-node-launcher"@.len() == 20);
            assert("global-state-update-gen"@.len() == 23);
            assert("makefile-build-contracts"@.len() == 24);
        }
        if str_eq(s, "casper-db-utils") {
            Ok(Project::DbUtils)
        } else if str_eq(s, "casper-node") {
            Ok(Project::Node)
        } else if str_eq(s, "casper-client") {
            Ok(Project::Client)
        } else if str_eq(s, "casper-node-launcher") {
            Ok(Project::Launcher)
        } else if str_eq(s, "global-state-update-gen") {
            Ok(Project::GlobalStateUpdateGen)
        } else if str_eq(s, "makefile-build-contracts") {
            Ok(Project::MakefileBuildContractsRs)
        } else {
            Err(
                String::from_str(
                    "Invalid project name. Must be one of: casper-db-utils, casper-node, casper-client, casper-node-launcher, global-state-update-gen, makefile-build-contracts",
                ),
            )
        }
    }
}

/// A request to compile one project, optionally from an existing
/// checkout.
#[derive(Debug)]
pub struct Compile {
    /// Short name of project to compile.
    pub project: Project,
    /// If specified, use this checkout instead of checking out the
    /// project.
    pub existing_checkout: Option<String>,
    /// Compile as debug (`--release` or not).
    pub debug: bool,
}

impl Compile {
    /// The checkout to perform first, when no existing checkout was
    /// given.  Each entry pairs a repository with the package that
    /// [`Compile::compile_options`] selects inside it: the launcher
    /// entry uses the casper-node checkout (global-state-update-gen
    /// lives there) and the global-state-update-gen entry the
    /// launcher checkout.
    pub fn checkout_plan(&self) -> (r: Option<CheckoutGitRepo>)
        ensures
            self.existing_checkout is Some ==> r is None,
            self.existing_checkout is None ==> r is Some && (match self.project {
                Project::DbUtils => is_db_utils_defaults(r->Some_0),
                Project::Client => is_client_defaults(r->Some_0),
                Project::Node => is_node_defaults(r->Some_0),
                Project::MakefileBuildContractsRs => is_node_defaults(r->Some_0),
                Project::Launcher => is_node_defaults(r->Some_0),
                Project::GlobalStateUpdateGen => is_launcher_defaults(r->Some_0),
            }),
    {
        match self.existing_checkout {
            Some(_) => None,
            None => Some(
                match self.project {
                    Project::DbUtils => CheckoutGitRepo::db_utils_defaults(),
                    Project::Client => CheckoutGitRepo::client_defaults(),
                    Project::Node => CheckoutGitRepo::node_defaults(),
                    Project::MakefileBuildContractsRs => CheckoutGitRepo::node_defaults(),
                    Project::Launcher => CheckoutGitRepo::global_state_update_gen_defaults(),
                    Project::GlobalStateUpdateGen => CheckoutGitRepo::launcher_defaults(),
                },
            ),
        }
    }

    /// Configure the build of this project inside `checkout`.
    pub fn compile_options(&self, checkout: String) -> (r: BuildProject)
        ensures
            match self.project {
                Project::DbUtils => r matches BuildProject::Cargo(c) && c.target_path@
                    == checkout@ && c.package_name@ == "casper-db-utils"@ && c.debug == self.debug,
                Project::Client => r matches BuildProject::Cargo(c) && c.target_path@ == checkout@
                    && c.package_name@ == "casper-client"@ && c.debug == self.debug,
                Project::Node => r matches BuildProject::Cargo(c) && c.target_path@ == checkout@
                    && c.package_name@ == "casper-node"@ && c.debug == self.debug,
                Project::Launcher => r matches BuildProject::Cargo(c) && c.target_path@
                    == checkout@ && c.package_name@ == "global-state-update-gen"@ && c.debug
                    == self.debug,
                Project::GlobalStateUpdateGen => r matches BuildProject::Cargo(c) && c.target_path@
                    == checkout@ && c.package_name@ == "casper-node-launcher"@ && c.debug
                    == self.debug,
                Project::MakefileBuildContractsRs => r matches BuildProject::Make {
                    makefile_root,
                    target,
                    build_dir,
                    artifact_suffix,
                } && makefile_root@ == checkout@ && target@ == "build-contracts-rs"@ && build_dir@
                    == checkout@ + "/target/wasm32-unknown-unknown/release"@ && artifact_suffix@
                    == ".wasm"@,
            },
    {
        match self.project {
            Project::DbUtils => BuildProject::Cargo(
                CargoBuildRustProject::new(checkout, "casper-db-utils", self.debug),
            ),
            Project::Client => BuildProject::Cargo(
                CargoBuildRustProject::new(checkout, "casper-client", self.debug),
            ),
            Project::Node => BuildProject::Cargo(
                CargoBuildRustProject::new(checkout, "casper-node", self.debug),
            ),
            Project::Launcher => BuildProject::Cargo(
                CargoBuildRustProject::new(checkout, "global-state-update-gen", self.debug),
            ),
            Project::GlobalStateUpdateGen => BuildProject::Cargo(
                CargoBuildRustProject::new(checkout, "casper-node-launcher", self.debug),
            ),
            Project::MakefileBuildContractsRs => {
                let mut build_dir = checkout.clone();
                build_dir.append("/target/wasm32-unknown-unknown/release");
                BuildProject::Make {
                    makefile_root: checkout,
                    target: String::from_str("build-contracts-rs"),
                    build_dir,
                    artifact_suffix: String::from_str(".wasm"),
                }
            },
        }
    }
}

/// Keep the file names ending in `suffix`.  A kept name is reported
/// as its stem and extension joined by a dot, which is the name
/// itself; names without an extension have no such rendering and are
/// excluded by the precondition.
pub fn find_files_with_suffix(names: &Vec<String>, suffix: &String) -> (r: Vec<String>)
    requires
        forall|i: int|
            0 <= i < names@.len() && spec_ends_with((#[trigger] names@[i])@, suffix@)
                ==> spec_has_extension(names@[i]@),
    ensures
        r.deep_view() == names.deep_view().filter(|n: Seq<char>| spec_ends_with(n, suffix@)),
{
    let ghost pred = |n: Seq<char>| spec_ends_with(n, suffix@);
    let mut r: Vec<String> = Vec::new();
    let mut i: usize = 0;
    #[verifier::loop_isolation(false)]
    while i < names.len()
        invariant
            0 <= i <= names@.len(),
            r.deep_view() == names.deep_view().take(i as int).filter(pred),
        decreases names@.len() - i,
    {
        if str_ends_with(names[i].as_str(), suffix.as_str()) {
            r.push(names[i].clone());
        }
        proof {
            reveal(Seq::filter);
            assert(names.deep_view().take(i + 1).drop_last() =~= names.deep_view().take(i as int));
            assert(names.deep_view().take(i + 1).last() == names.deep_view()[i as int]);
            assert(names.deep_view()[i as int] == names@[i as int]@);
            if spec_ends_with(names@[i as int]@, suffix@) {
                assert(r.deep_view() =~= names.deep_view().take(i as int).filter(pred).push(
                    names@[i as int]@,
                ));
            } else {
                assert(r.deep_view() =~= names.deep_view().take(i as int).filter(pred));
            }
        }
        i = i + 1;
    }
    proof {
        assert(names.deep_view().take(names@.len() as int) =~= names.deep_view());
    }
    r
}

} // verus!
