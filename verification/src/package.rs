//! Packages as the database records them.
use vstd::prelude::*;

use crate::deps::{DepSpec, Depend};
use crate::satisfy::depend_views;

verus! {

/// Why a package is installed.
#[derive(Debug, Eq, PartialEq, Structural, Copy, Clone, Ord, PartialOrd, Hash)]
pub enum PackageReason {
    /// Installed on its own account.
    Explicit,
    /// Installed as a dependency of another package.
    Depend,
}

/// Where a package was loaded from.
#[derive(Debug, Eq, PartialEq, Structural, Copy, Clone, Ord, PartialOrd, Hash)]
pub enum PackageFrom {
    /// A package file.
    File,
    /// The local database.
    LocalDb,
    /// A sync database.
    SyncDb,
}

/// The abstract value of a package.
pub struct PackageSpec {
    /// The package name.
    pub name: Seq<char>,
    /// The package version.
    pub version: Seq<char>,
    /// Why the package is installed.
    pub reason: PackageReason,
    /// Its hard dependencies.
    pub depends: Seq<DepSpec>,
    /// Its optional dependencies.
    pub optdepends: Seq<DepSpec>,
    /// What it provides besides itself.
    pub provides: Seq<DepSpec>,
    /// The installed packages that depend on it.
    pub required_by: Seq<Seq<char>>,
    /// The installed packages that optionally depend on it.
    pub optional_for: Seq<Seq<char>>,
}

/// The characters of each string in a list.
pub open spec fn string_views(v: Seq<String>) -> Seq<Seq<char>> {
    v.map_values(|s: String| s@)
}

/// A package.
#[derive(Debug, Clone, PartialEq, Eq)]
pub struct Package {
    name: String,
    version: String,
    reason: PackageReason,
    depends: Vec<Depend>,
    optdepends: Vec<Depend>,
    provides: Vec<Depend>,
    required_by: Vec<String>,
    optional_for: Vec<String>,
}

/// The package type that references point at; the same as [`Package`].
pub type Pkg = Package;

impl View for Package {
    type V = PackageSpec;

    closed spec fn view(&self) -> PackageSpec {
        PackageSpec {
            name: self.name@,
            version: self.version@,
            reason: self.reason,
            depends: depend_views(self.depends@),
            optdepends: depend_views(self.optdepends@),
            provides: depend_views(self.provides@),
            required_by: string_views(self.required_by@),
            optional_for: string_views(self.optional_for@),
        }
    }
}

impl Package {
    /// A package with the given name, version and install reason, and no
    /// dependencies, provisions or dependents yet.
    pub fn new(name: &str, version: &str, reason: PackageReason) -> (p: Package)
        ensures
            p@.name == name@,
            p@.version == version@,
            p@.reason == reason,
            p@.depends.len() == 0,
            p@.optdepends.len() == 0,
            p@.provides.len() == 0,
            p@.required_by.len() == 0,
            p@.optional_for.len() == 0,
    {
        let p = Package {
            name: name.to_owned(),
            version: version.to_owned(),
            reason,
            depends: Vec::new(),
            optdepends: Vec::new(),
            provides: Vec::new(),
            required_by: Vec::new(),
            optional_for: Vec::new(),
        };
        assert(depend_views(p.depends@) =~= Seq::empty());
        assert(depend_views(p.optdepends@) =~= Seq::empty());
        assert(depend_views(p.provides@) =~= Seq::empty());
        assert(string_views(p.required_by@) =~= Seq::empty());
        assert(string_views(p.optional_for@) =~= Seq::empty());
        p
    }

    /// The package name.
    pub fn name(&self) -> (r: &str)
        ensures
            r@ == self@.name,
    {
        self.name.as_str()
    }

    /// The package version.
    pub fn version(&self) -> (r: &str)
        ensures
            r@ == self@.version,
    {
        self.version.as_str()
    }

    /// Why the package is installed.
    pub fn reason(&self) -> (r: PackageReason)
        ensures
            r == self@.reason,
    {
        self.reason
    }

    /// The hard dependencies.
    pub fn depends(&self) -> (r: &[Depend])
        ensures
            depend_views(r@) == self@.depends,
    {
        self.depends.as_slice()
    }

    /// The optional dependencies.
    pub fn optdepends(&self) -> (r: &[Depend])
        ensures
            depend_views(r@) == self@.optdepends,
    {
        self.optdepends.as_slice()
    }

    /// What the package provides besides itself.
    pub fn provides(&self) -> (r: &[Depend])
        ensures
            depend_views(r@) == self@.provides,
    {
        self.provides.as_slice()
    }

    /// The installed packages that depend on this one.
    pub fn required_by(&self) -> (r: &[String])
        ensures
            string_views(r@) == self@.required_by,
    {
        self.required_by.as_slice()
    }

    /// The installed packages that optionally depend on this one.
    pub fn optional_for(&self) -> (r: &[String])
        ensures
            string_views(r@) == self@.optional_for,
    {
        self.optional_for.as_slice()
    }

    /// Adds a hard dependency.
    pub fn add_depend(&mut self, d: Depend)
        ensures
            final(self)@ == (PackageSpec { depends: old(self)@.depends.push(d@), ..old(self)@ }),
    {
        self.depends.push(d);
        assert(depend_views(self.depends@) =~= old(self)@.depends.push(d@));
    }

    /// Adds an optional dependency.
    pub fn add_optdepend(&mut self, d: Depend)
        ensures
            final(self)@ == (PackageSpec {
                optdepends: old(self)@.optdepends.push(d@),
                ..old(self)@
            }),
    {
        self.optdepends.push(d);
        assert(depend_views(self.optdepends@) =~= old(self)@.optdepends.push(d@));
    }

    /// Adds a provision.
    pub fn add_provide(&mut self, d: Depend)
        ensures
            final(self)@ == (PackageSpec { provides: old(self)@.provides.push(d@), ..old(self)@ }),
    {
        self.provides.push(d);
        assert(depend_views(self.provides@) =~= old(self)@.provides.push(d@));
    }

    /// Records an installed package that depends on this one.
    pub fn add_required_by(&mut self, name: &str)
        ensures
            final(self)@ == (PackageSpec {
                required_by: old(self)@.required_by.push(name@),
                ..old(self)@
            }),
    {
        self.required_by.push(name.to_owned());
        assert(string_views(self.required_by@) =~= old(self)@.required_by.push(name@));
    }

    /// Records an installed package that optionally depends on this one.
    pub fn add_optional_for(&mut self, name: &str)
        ensures
            final(self)@ == (PackageSpec {
                optional_for: old(self)@.optional_for.push(name@),
                ..old(self)@
            }),
    {
        self.optional_for.push(name.to_owned());
        assert(string_views(self.optional_for@) =~= old(self)@.optional_for.push(name@));
    }
}

} // verus!
