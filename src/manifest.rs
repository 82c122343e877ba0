//! Which crate a package builds and where its entry file is, from its manifest.
use vstd::prelude::*;

use crate::model::Crate;
use crate::text::{split, split_on, views};

verus! {

/// A `[lib]` or `[bin]` section of a manifest.
#[derive(Debug, Clone, PartialEq, Eq)]
pub struct TargetSection {
    /// The crate name, when it differs from the package name.
    pub name: Option<String>,
    /// The entry file, relative to the package directory, when it is not the default.
    pub path: Option<String>,
}

/// What the analysis reads from a package manifest.
#[derive(Debug, Clone, PartialEq, Eq)]
pub struct Manifest {
    pub package_name: String,
    pub package_version: String,
    pub lib: Option<TargetSection>,
    pub bin: Option<TargetSection>,
}

/// Why a package cannot be analyzed.
#[derive(Debug, Clone, PartialEq, Eq)]
pub enum ConfigError {
    /// The package path is not a directory.
    NotADirectory(String),
    /// The package directory holds no manifest.
    MissingManifest(String),
    /// The manifest cannot be parsed; the parser's message.
    InvalidManifest(String),
    /// The manifest declares both a library and a binary.
    BothLibAndBin,
    /// The manifest declares neither a library nor a binary.
    NoLibOrBin,
}

/// The crate that a package builds, and its entry file relative to the package
/// directory, with `/` between components.
#[derive(Debug, Clone, PartialEq, Eq)]
pub struct PackageTarget {
    pub crate_name: String,
    pub version: String,
    pub entry: String,
}

pub open spec fn default_lib_entry() -> Seq<char> {
    seq!['s', 'r', 'c', '/', 'l', 'i', 'b', '.', 'r', 's']
}

pub open spec fn default_bin_entry() -> Seq<char> {
    seq!['s', 'r', 'c', '/', 'm', 'a', 'i', 'n', '.', 'r', 's']
}

/// The crate name and entry that a target section gives, with the package name and
/// `default_entry` where it gives none.
pub open spec fn section_target(
    s: TargetSection,
    package_name: Seq<char>,
    default_entry: Seq<char>,
) -> (Seq<char>, Seq<char>) {
    (
        match s.name {
            Some(n) => n@,
            None => package_name,
        },
        match s.path {
            Some(p) => p@,
            None => default_entry,
        },
    )
}

fn section_values(s: &TargetSection, package_name: &String, default_entry: &str) -> (r: (
    String,
    String,
))
    ensures
        (r.0@, r.1@) == section_target(*s, package_name@, default_entry@),
{
    let name = match &s.name {
        Some(n) => n.clone(),
        None => package_name.clone(),
    };
    let entry = match &s.path {
        Some(p) => p.clone(),
        None => String::from_str(default_entry),
    };
    (name, entry)
}

/// The crate a package builds and its entry file: from the `[lib]` section if there
/// is one, else from the `[bin]` section; an error when there are both or neither.
pub fn resolve_target(m: &Manifest) -> (r: Result<PackageTarget, ConfigError>)
    ensures
        m.lib is Some && m.bin is Some ==> r matches Err(ConfigError::BothLibAndBin),
        m.lib is None && m.bin is None ==> r matches Err(ConfigError::NoLibOrBin),
        m.lib is Some && m.bin is None ==> (r matches Ok(t) && (t.crate_name@, t.entry@)
            == section_target(m.lib->Some_0, m.package_name@, default_lib_entry())
            && t.version@ == m.package_version@),
        m.lib is None && m.bin is Some ==> (r matches Ok(t) && (t.crate_name@, t.entry@)
            == section_target(m.bin->Some_0, m.package_name@, default_bin_entry())
            && t.version@ == m.package_version@),
{
    proof {
        reveal_strlit("src/lib.rs");
        reveal_strlit("src/main.rs");
        assert("src/lib.rs"@ =~= default_lib_entry());
        assert("src/main.rs"@ =~= default_bin_entry());
    }
    let (crate_name, entry) = match (&m.lib, &m.bin) {
        (Some(_), Some(_)) => return Err(ConfigError::BothLibAndBin),
        (None, None) => return Err(ConfigError::NoLibOrBin),
        (Some(lib), None) => section_values(lib, &m.package_name, "src/lib.rs"),
        (None, Some(bin)) => section_values(bin, &m.package_name, "src/main.rs"),
    };
    Ok(PackageTarget { crate_name, version: m.package_version.clone(), entry })
}

impl PackageTarget {
    /// The crate record for this target, without a docstring yet.
    pub fn to_crate(&self) -> (r: Crate)
        ensures
            r.name@ == self.crate_name@,
            r.version@ == self.version@,
            r.docstring@.len() == 0,
    {
        Crate {
            name: self.crate_name.clone(),
            version: self.version.clone(),
            docstring: String::new(),
        }
    }

    /// Where the entry file is: the package directory's components followed by the
    /// components of the entry path.
    pub fn entry_location(&self, package_dir: &Vec<String>) -> (r: Vec<String>)
        ensures
            views(r@) == views(package_dir@) + split(self.entry@, seq!['/']),
    {
        proof {
            reveal_strlit("/");
            assert("/"@ =~= seq!['/']);
        }
        let mut r = crate::text::clone_strings(package_dir);
        let mut parts = split_on(self.entry.as_str(), "/");
        let ghost a = r@;
        let ghost b = parts@;
        r.append(&mut parts);
        assert(views(r@) =~= views(a) + views(b));
        r
    }
}

} // verus!
