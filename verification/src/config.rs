//! In-memory model of the manifest: a versioned list of packages, each with
//! explicit file paths and optional shortcut descriptions, plus the lookup
//! that selects the packages to build.

use vstd::prelude::*;
use vstd::string::StringExecFns;

verus! {

/// A declarative request to synthesize a launcher file named `name` (relative
/// to the input root) that invokes `target`, optionally after changing the
/// working directory to `cwd`.
#[derive(Debug)]
pub struct Shortcut {
    pub name: String,
    pub target: String,
    pub cwd: String,
}

/// A named bundle of root-relative paths and shortcut descriptions.
#[derive(Debug)]
pub struct Package {
    pub name: String,
    pub filepaths: Vec<String>,
    pub shortcuts: Vec<Shortcut>,
}

/// The whole manifest: a version string and an ordered list of packages.
#[derive(Debug)]
pub struct Config {
    pub version: String,
    pub packages: Vec<Package>,
}

/// The `cwd` a shortcut description gets when the manifest leaves it out.
pub fn default_cwd() -> (r: String)
    ensures
        r@ == Seq::<char>::empty(),
{
    String::new()
}

/// The shortcut list a package gets when the manifest leaves it out.
pub fn default_shortcuts() -> (r: Vec<Shortcut>)
    ensures
        r@ == Seq::<Shortcut>::empty(),
{
    Vec::new()
}

/// The single manifest version this library supports.
pub open spec fn supported_version() -> Seq<char> {
    "0.0.1"@
}

/// Whether some package in `packages` carries the requested name.
pub open spec fn spec_has_match(packages: Seq<Package>, name: Seq<char>) -> bool {
    exists|i: int| 0 <= i < packages.len() && packages[i].name@ == name
}

/// The indices of the packages named `name`, in declaration order.
pub open spec fn spec_match_indices(packages: Seq<Package>, name: Seq<char>) -> Seq<int>
    decreases packages.len(),
{
    if packages.len() == 0 {
        Seq::empty()
    } else {
        let init = spec_match_indices(packages.drop_last(), name);
        if packages.last().name@ == name {
            init.push(packages.len() - 1)
        } else {
            init
        }
    }
}

/// How selecting a package can fail: the matched package belongs to a
/// manifest of an unsupported version, or no package carries the name.
#[derive(Debug)]
pub enum SelectError {
    UnsupportedVersion { version: String },
    PackageNotFound { name: String },
}

impl SelectError {
    /// A human-readable description of the failure.
    pub fn message(&self) -> (r: String)
        ensures
            (self matches SelectError::UnsupportedVersion { version } ==> r@
                == "unsupported version "@ + version@),
            (self matches SelectError::PackageNotFound { name } ==> r@ == "'"@ + name@
                + "' is not found"@),
    {
        match self {
            SelectError::UnsupportedVersion { version } => {
                let mut out = String::from_str("unsupported version ");
                out.append(version.as_str());
                out
            },
            SelectError::PackageNotFound { name } => {
                let mut out = String::from_str("'");
                out.append(name.as_str());
                out.append("' is not found");
                out
            },
        }
    }
}

/// Whether two string slices hold the same characters.
pub fn str_eq(a: &str, b: &str) -> (r: bool)
    ensures
        r == (a@ == b@),
{
    let sa = a.to_owned();
    let sb = b.to_owned();
    sa == sb
}

/// Select the packages named `package_name` from `config`.
///
/// The version requirement is checked only at the point a name match is
/// found, so a manifest of the wrong version still answers
/// `PackageNotFound` for a name it does not hold. `PackageNotFound` is
/// reported only after every package has been examined.
pub fn select_packages(config: &Config, package_name: &str) -> (r: Result<
    Vec<usize>,
    SelectError,
>)
    ensures
        r is Ok <==> spec_has_match(config.packages@, package_name@) && config.version@
            == supported_version(),
        (r matches Ok(v) ==> v@.map_values(|u: usize| u as int) == spec_match_indices(
            config.packages@,
            package_name@,
        )),
        (spec_has_match(config.packages@, package_name@) && config.version@ != supported_version())
            ==> (r matches Err(SelectError::UnsupportedVersion { version }) && version@
            == config.version@),
        !spec_has_match(config.packages@, package_name@) ==> (r matches Err(
            SelectError::PackageNotFound { name },
        ) && name@ == package_name@),
{
    let mut found: Vec<usize> = Vec::new();
    let n = config.packages.len();
    let mut i: usize = 0;
    while i < n
        invariant
            0 <= i <= n,
            n == config.packages@.len(),
            found@.map_values(|u: usize| u as int) == spec_match_indices(
                config.packages@.take(i as int),
                package_name@,
            ),
            forall|j: int| 0 <= j < found@.len() ==> found@[j] < i,
        decreases n - i,
    {
        let ghost prefix = config.packages@.take(i as int);
        if str_eq(config.packages[i].name.as_str(), package_name) {
            found.push(i);
        }
        proof {
            let next = config.packages@.take(i + 1);
            assert(next.drop_last() =~= prefix);
            assert(next.last() == config.packages@[i as int]);
            assert(found@.map_values(|u: usize| u as int) =~= spec_match_indices(
                next,
                package_name@,
            ));
        }
        i += 1;
    }
    proof {
        assert(config.packages@.take(n as int) =~= config.packages@);
        lemma_match_indices_complete(config.packages@, package_name@);
    }
    if found.is_empty() {
        Err(SelectError::PackageNotFound { name: package_name.to_owned() })
    } else if !str_eq(config.version.as_str(), "0.0.1") {
        Err(SelectError::UnsupportedVersion { version: config.version.clone() })
    } else {
        Ok(found)
    }
}

/// `spec_match_indices` lists exactly the positions whose package carries the
/// requested name; in particular it is empty if and only if no package does.
pub proof fn lemma_match_indices_complete(packages: Seq<Package>, name: Seq<char>)
    ensures
        forall|k: int|
            0 <= k < spec_match_indices(packages, name).len() ==> {
                let i = #[trigger] spec_match_indices(packages, name)[k];
                0 <= i < packages.len() && packages[i].name@ == name
            },
        spec_match_indices(packages, name).len() == 0 <==> !spec_has_match(packages, name),
    decreases packages.len(),
{
    if packages.len() > 0 {
        lemma_match_indices_complete(packages.drop_last(), name);
        assert(forall|i: int|
            0 <= i < packages.len() - 1 ==> packages.drop_last()[i] == packages[i]);
        if spec_match_indices(packages, name).len() == 0 {
            assert(packages.last().name@ != name);
            assert forall|i: int| 0 <= i < packages.len() implies packages[i].name@ != name by {
                if i < packages.len() - 1 {
                    assert(!spec_has_match(packages.drop_last(), name));
                }
            }
        }
    }
}

} // verus!
