//! Package databases.
use vstd::prelude::*;

use crate::error::Error;
use crate::package::{Package, PackageSpec};
use crate::target::Targ;
use crate::text::str_eq;

verus! {

/// The abstract value of a database.
pub struct DbSpec {
    /// The database name.
    pub name: Seq<char>,
    /// Its packages, in the order they were added.
    pub pkgs: Seq<PackageSpec>,
}

/// The views of a list of packages.
pub open spec fn pkg_views(pkgs: Seq<Package>) -> Seq<PackageSpec> {
    pkgs.map_values(|p: Package| p@)
}

/// No two packages share a name.
pub open spec fn names_distinct(pkgs: Seq<PackageSpec>) -> bool {
    forall|i: int, j: int|
        0 <= i < pkgs.len() && 0 <= j < pkgs.len() && i != j ==> #[trigger] pkgs[i].name
            != #[trigger] pkgs[j].name
}

/// Whether some package of `pkgs` is called `name`.
pub open spec fn has_pkg_named(pkgs: Seq<PackageSpec>, name: Seq<char>) -> bool {
    exists|i: int| 0 <= i < pkgs.len() && (#[trigger] pkgs[i]).name == name
}

/// A database of packages, in which package names are distinct.
#[derive(Debug)]
pub struct Db {
    name: String,
    pkgs: Vec<Package>,
}

impl View for Db {
    type V = DbSpec;

    closed spec fn view(&self) -> DbSpec {
        DbSpec { name: self.name@, pkgs: pkg_views(self.pkgs@) }
    }
}

impl Db {
    /// Package names are distinct.
    #[verifier::type_invariant]
    closed spec fn inv(self) -> bool {
        names_distinct(pkg_views(self.pkgs@))
    }

    /// An empty database called `name`.
    pub fn new(name: &str) -> (db: Db)
        ensures
            db@.name == name@,
            db@.pkgs.len() == 0,
    {
        let db = Db { name: name.to_owned(), pkgs: Vec::new() };
        assert(pkg_views(db.pkgs@) =~= Seq::empty());
        db
    }

    /// The database name.
    pub fn name(&self) -> (r: &str)
        ensures
            r@ == self@.name,
    {
        self.name.as_str()
    }

    /// Adds a package, unless one of the same name is present; returns
    /// whether it was added.
    pub fn add_pkg(&mut self, pkg: Package) -> (added: bool)
        ensures
            added == !has_pkg_named(old(self)@.pkgs, pkg@.name),
            added ==> final(self)@ == (DbSpec { pkgs: old(self)@.pkgs.push(pkg@), ..old(self)@ }),
            !added ==> final(self)@ == old(self)@,
    {
        proof {
            use_type_invariant(&*self);
        }
        let mut i: usize = 0;
        while i < self.pkgs.len()
            invariant
                i <= self.pkgs.len(),
                forall|m: int| 0 <= m < i ==> (#[trigger] pkg_views(self.pkgs@)[m]).name != pkg@.name,
            decreases self.pkgs.len() - i,
        {
            if str_eq(self.pkgs[i].name(), pkg.name()) {
                assert(pkg_views(self.pkgs@)[i as int].name == pkg@.name);
                return false;
            }
            i = i + 1;
        }
        let ghost before = pkg_views(self.pkgs@);
        let mut pkgs: Vec<Package> = Vec::new();
        std::mem::swap(&mut pkgs, &mut self.pkgs);
        assert(pkg_views(self.pkgs@) =~= Seq::empty());
        pkgs.push(pkg);
        assert(pkg_views(pkgs@) =~= before.push(pkg@));
        assert(names_distinct(before.push(pkg@))) by {
            assert forall|x: int, y: int|
                0 <= x < before.len() + 1 && 0 <= y < before.len() + 1 && x != y implies #[trigger] before.push(pkg@)[x].name
                != #[trigger] before.push(pkg@)[y].name by {
                if x < before.len() && y < before.len() {
                    assert(before[x].name != before[y].name);
                } else if x < before.len() {
                    assert(before[x].name != pkg@.name);
                } else {
                    assert(before[y].name != pkg@.name);
                }
            }
        }
        self.pkgs = pkgs;
        true
    }

    /// The packages of the database.
    pub fn pkgs(&self) -> (r: &[Package])
        ensures
            pkg_views(r@) == self@.pkgs,
            names_distinct(self@.pkgs),
    {
        proof {
            use_type_invariant(self);
        }
        self.pkgs.as_slice()
    }

    /// The package called `name`; [`Error::PkgNotFound`] when there is none.
    pub fn pkg(&self, name: &str) -> (r: Result<&Package, Error>)
        ensures
            result_view(r) == db_pkg_result(self@, name@),
            r matches Ok(p) ==> p@.name == name@,
            r is Err ==> r == Err::<&Package, Error>(Error::PkgNotFound) && !has_pkg_named(
                self@.pkgs,
                name@,
            ),
    {
        proof {
            lemma_first_named_pkg(self@.pkgs, name@, 0);
        }
        let mut i: usize = 0;
        while i < self.pkgs.len()
            invariant
                i <= self.pkgs.len(),
                first_named_pkg(self@.pkgs, name@, 0) == first_named_pkg(self@.pkgs, name@, i as int),
            decreases self.pkgs.len() - i,
        {
            assert(self@.pkgs[i as int] == self.pkgs@[i as int]@);
            if str_eq(self.pkgs[i].name(), name) {
                let p = &self.pkgs[i];
                return Ok(p);
            }
            i = i + 1;
        }
        Err(Error::PkgNotFound)
    }
}

/// The views of a list of databases.
pub open spec fn db_views(dbs: Seq<Db>) -> Seq<DbSpec> {
    dbs.map_values(|d: Db| d@)
}

/// The first database at or after `i` that holds a package called `name`.
pub open spec fn first_db_having(dbs: Seq<DbSpec>, name: Seq<char>, i: int) -> Option<int>
    decreases dbs.len() - i,
{
    if i < 0 || i >= dbs.len() {
        None
    } else if has_pkg_named(dbs[i].pkgs, name) {
        Some(i)
    } else {
        first_db_having(dbs, name, i + 1)
    }
}

/// The first database at or after `i` that is called `name`.
pub open spec fn first_db_named(dbs: Seq<DbSpec>, name: Seq<char>, i: int) -> Option<int>
    decreases dbs.len() - i,
{
    if i < 0 || i >= dbs.len() {
        None
    } else if dbs[i].name == name {
        Some(i)
    } else {
        first_db_named(dbs, name, i + 1)
    }
}

/// Looking packages up across a list of databases, in order.
pub trait DbListExt {
    /// The package called `name` in the first database that holds one;
    /// [`Error::PkgNotFound`] when none does.
    fn pkg(&self, name: &str) -> Result<&Package, Error>;

    /// The package a target names: in the first database called after the
    /// target's repository where it names one, otherwise as
    /// [`DbListExt::pkg`] finds it; [`Error::PkgNotFound`] when there is
    /// no such database or package.
    fn find_target(&self, target: Targ<'_>) -> Result<&Package, Error>;

    /// The package that satisfies a target's package part; see
    /// [`crate::resolve::find_target_satisfier`].
    fn find_target_satisfier(&self, target: Targ<'_>) -> Option<&Package>;
}

impl DbListExt for [Db] {
    fn pkg(&self, name: &str) -> (r: Result<&Package, Error>)
        ensures
            result_view(r) == dbs_pkg_result(db_views(self@), name@),
            r is Err ==> r == Err::<&Package, Error>(Error::PkgNotFound),
            (r is Ok) == (first_db_having(db_views(self@), name@, 0) is Some),
    {
        let mut i: usize = 0;
        while i < self.len()
            invariant
                i <= self.len(),
                first_db_having(db_views(self@), name@, 0) == first_db_having(
                    db_views(self@),
                    name@,
                    i as int,
                ),
            decreases self.len() - i,
        {
            let db = &self[i];
            proof {
                assert(db_views(self@)[i as int] == db@);
                lemma_first_named_pkg(db@.pkgs, name@, 0);
            }
            match db.pkg(name) {
                Ok(p) => {
                    proof {
                        let j = first_named_pkg(db@.pkgs, name@, 0)->0;
                        assert(db@.pkgs[j].name == name@);
                        assert(has_pkg_named(db_views(self@)[i as int].pkgs, name@));
                    }
                    return Ok(p);
                },
                Err(_) => {},
            }
            i = i + 1;
        }
        Err(Error::PkgNotFound)
    }

    fn find_target(&self, target: Targ<'_>) -> (r: Result<&Package, Error>)
        ensures
            result_view(r) == target_result(
                db_views(self@),
                crate::target::opt_str_view(target.repo),
                target.pkg@,
            ),
            r is Err ==> r == Err::<&Package, Error>(Error::PkgNotFound),
    {
        match target.repo {
            None => self.pkg(target.pkg),
            Some(repo) => {
                let mut i: usize = 0;
                while i < self.len()
                    invariant
                        i <= self.len(),
                        target.repo == Some(repo),
                        first_db_named(db_views(self@), repo@, 0) == first_db_named(
                            db_views(self@),
                            repo@,
                            i as int,
                        ),
                    decreases self.len() - i,
                {
                    proof {
                        assert(db_views(self@)[i as int] == self@[i as int]@);
                    }
                    if str_eq(self[i].name(), repo) {
                        return self[i].pkg(target.pkg);
                    }
                    i = i + 1;
                }
                Err(Error::PkgNotFound)
            },
        }
    }

    fn find_target_satisfier(&self, target: Targ<'_>) -> (r: Option<&Package>)
        ensures
            crate::resolve::opt_ref_view(r) == crate::resolve::target_satisfier(
                db_views(self@),
                crate::target::opt_str_view(target.repo),
                target.pkg@,
            ),
    {
        crate::resolve::find_target_satisfier(self, target)
    }
}

/// The values of a list of package references.
pub open spec fn ref_views(r: Seq<&Package>) -> Seq<PackageSpec> {
    r.map_values(|p: &Package| p@)
}

/// Whether some database of `sync` holds a package called `name`.
pub open spec fn in_some_db(sync: Seq<DbSpec>, name: Seq<char>) -> bool {
    first_db_having(sync, name, 0) is Some
}

/// Whether any database of `sync` holds a package called `name`.
fn found_in(sync: &[Db], name: &str) -> (r: bool)
    ensures
        r == in_some_db(db_views(sync@), name@),
{
    sync.pkg(name).is_ok()
}

/// The installed packages that some sync database holds by name, in the
/// order of the local database.
pub fn native_packages<'a>(local: &'a Db, sync: &[Db]) -> (r: Vec<&'a Package>)
    ensures
        ref_views(r@) == local@.pkgs.filter(|p: PackageSpec| in_some_db(db_views(sync@), p.name)),
{
    let pkgs = local.pkgs();
    let mut r: Vec<&'a Package> = Vec::new();
    let mut i: usize = 0;
    while i < pkgs.len()
        invariant
            i <= pkgs.len(),
            pkg_views(pkgs@) == local@.pkgs,
            ref_views(r@) == local@.pkgs.take(i as int).filter(
                |p: PackageSpec| in_some_db(db_views(sync@), p.name),
            ),
        decreases pkgs.len() - i,
    {
        let ghost before = r@;
        proof {
            reveal_with_fuel(Seq::<_>::filter, 1);
        }
        assert(local@.pkgs.take(i + 1).drop_last() =~= local@.pkgs.take(i as int));
        assert(local@.pkgs[i as int] == pkgs@[i as int]@);
        if found_in(sync, pkgs[i].name()) {
            r.push(&pkgs[i]);
            assert(ref_views(r@) =~= ref_views(before).push(pkgs@[i as int]@));
        }
        i = i + 1;
    }
    assert(local@.pkgs.take(pkgs.len() as int) =~= local@.pkgs);
    r
}

/// The installed packages that no sync database holds by name, in the
/// order of the local database.
pub fn foreign_packages<'a>(local: &'a Db, sync: &[Db]) -> (r: Vec<&'a Package>)
    ensures
        ref_views(r@) == local@.pkgs.filter(|p: PackageSpec| !in_some_db(db_views(sync@), p.name)),
{
    let pkgs = local.pkgs();
    let mut r: Vec<&'a Package> = Vec::new();
    let mut i: usize = 0;
    while i < pkgs.len()
        invariant
            i <= pkgs.len(),
            pkg_views(pkgs@) == local@.pkgs,
            ref_views(r@) == local@.pkgs.take(i as int).filter(
                |p: PackageSpec| !in_some_db(db_views(sync@), p.name),
            ),
        decreases pkgs.len() - i,
    {
        let ghost before = r@;
        proof {
            reveal_with_fuel(Seq::<_>::filter, 1);
        }
        assert(local@.pkgs.take(i + 1).drop_last() =~= local@.pkgs.take(i as int));
        assert(local@.pkgs[i as int] == pkgs@[i as int]@);
        if !found_in(sync, pkgs[i].name()) {
            r.push(&pkgs[i]);
            assert(ref_views(r@) =~= ref_views(before).push(pkgs@[i as int]@));
        }
        i = i + 1;
    }
    assert(local@.pkgs.take(pkgs.len() as int) =~= local@.pkgs);
    r
}

/// Every installed package is native or foreign: the two lists together
/// hold as many packages as the local database.
pub proof fn lemma_native_foreign_partition(local: Seq<PackageSpec>, sync: Seq<DbSpec>)
    ensures
        local.filter(|p: PackageSpec| in_some_db(sync, p.name)).len() + local.filter(
            |p: PackageSpec| !in_some_db(sync, p.name),
        ).len() == local.len(),
    decreases local.len(),
{
    reveal_with_fuel(Seq::<_>::filter, 1);
    if local.len() > 0 {
        lemma_native_foreign_partition(local.drop_last(), sync);
    }
}

/// The first index at or after `i` of a package called `name`.
pub open spec fn first_named_pkg(pkgs: Seq<PackageSpec>, name: Seq<char>, i: int) -> Option<int>
    decreases pkgs.len() - i,
{
    if i < 0 || i >= pkgs.len() {
        None
    } else if pkgs[i].name == name {
        Some(i)
    } else {
        first_named_pkg(pkgs, name, i + 1)
    }
}

/// The package called `name` in `db`, if any.
pub open spec fn db_pkg_result(db: DbSpec, name: Seq<char>) -> Option<PackageSpec> {
    match first_named_pkg(db.pkgs, name, 0) {
        Some(j) => Some(db.pkgs[j]),
        None => None,
    }
}

/// The package called `name` in the first of `dbs` that holds one.
pub open spec fn dbs_pkg_result(dbs: Seq<DbSpec>, name: Seq<char>) -> Option<PackageSpec> {
    match first_db_having(dbs, name, 0) {
        Some(k) => db_pkg_result(dbs[k], name),
        None => None,
    }
}

/// The package a target names: in the first database called `repo` when
/// there is a repository, otherwise in the first database that holds one.
pub open spec fn target_result(dbs: Seq<DbSpec>, repo: Option<Seq<char>>, name: Seq<char>) -> Option<
    PackageSpec,
> {
    match repo {
        Some(r) => match first_db_named(dbs, r, 0) {
            Some(k) => db_pkg_result(dbs[k], name),
            None => None,
        },
        None => dbs_pkg_result(dbs, name),
    }
}

/// The package a lookup found, if any.
pub open spec fn result_view(r: Result<&Package, Error>) -> Option<PackageSpec> {
    match r {
        Ok(p) => Some(p@),
        Err(_) => None,
    }
}

/// A package called `name` exists from `i` on exactly when
/// `first_named_pkg` finds one, and what it finds is called so.
pub proof fn lemma_first_named_pkg(pkgs: Seq<PackageSpec>, name: Seq<char>, i: int)
    requires
        0 <= i,
    ensures
        first_named_pkg(pkgs, name, i) matches Some(j) ==> i <= j < pkgs.len() && pkgs[j].name
            == name,
        (first_named_pkg(pkgs, name, i) is Some) <==> (exists|j: int|
            i <= j < pkgs.len() && (#[trigger] pkgs[j]).name == name),
    decreases pkgs.len() - i,
{
    if i < pkgs.len() {
        lemma_first_named_pkg(pkgs, name, i + 1);
    }
}

/// Looking a package up by target gives, with no repository, what
/// [`DbListExt::pkg`] gives, and with a repository, what [`Db::pkg`] gives
/// on the first database of that name.
pub proof fn lemma_find_target_is_pkg(dbs: Seq<DbSpec>, repo: Option<Seq<char>>, name: Seq<char>)
    ensures
        repo is None ==> target_result(dbs, repo, name) == dbs_pkg_result(dbs, name),
        repo matches Some(r) ==> target_result(dbs, repo, name) == match first_db_named(
            dbs,
            r,
            0,
        ) {
            Some(k) => db_pkg_result(dbs[k], name),
            None => None,
        },
{
}

} // verus!
