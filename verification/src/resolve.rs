//! How the package library itself decides that a package meets a
//! dependency, and what it derives from that: the packages that depend on
//! a package, and the package that satisfies a dependency string.
//!
//! A package meets a dependency literally when it has the dependency's
//! name and its version compares as the dependency asks (versions compared
//! with [`crate::version::vercmp`]). It meets it through a provision when a
//! provision has the name and either the dependency asks for no version or
//! the provision states an exact version that compares as asked.
use std::cmp::Ordering;
use vstd::prelude::*;

use crate::db::{db_views, first_db_named, pkg_views, Db, DbSpec};
use crate::deps::{parse_dep, Dep, DepMod, DepSpec, Depend};
use crate::package::{Package, PackageReason, PackageSpec};
use crate::satisfy::{dep_version_text, depend_views, order_of};
use crate::target::Targ;
use crate::text::str_eq;
use crate::version::{
    lemma_version_order_antisymmetric, lemma_version_order_reflexive, lemma_version_order_sign,
    ordering_of, vercmp,
};
use vstd::utf8::encode_utf8;

verus! {

/// Whether version `v` compares with `w` as `m` asks.
pub open spec fn version_meets(v: Seq<char>, m: DepMod, w: Seq<char>) -> bool {
    match m {
        DepMod::Any => true,
        DepMod::Eq => order_of(v, w) == 0,
        DepMod::Ge => order_of(v, w) >= 0,
        DepMod::Le => order_of(v, w) <= 0,
        DepMod::Gt => order_of(v, w) > 0,
        DepMod::Lt => order_of(v, w) < 0,
    }
}

/// Whether package `p` meets `d` by its own name and version.
pub open spec fn meets_literally(p: PackageSpec, d: DepSpec) -> bool {
    p.name == d.name && version_meets(p.version, d.depmod, dep_version_text(d))
}

/// Whether the provision `prov` meets `d`.
pub open spec fn provision_meets(d: DepSpec, prov: DepSpec) -> bool {
    prov.name == d.name && (d.depmod == DepMod::Any || (prov.depmod == DepMod::Eq
        && version_meets(dep_version_text(prov), d.depmod, dep_version_text(d))))
}

/// Whether some provision of package `p` meets `d`.
pub open spec fn meets_by_provision(p: PackageSpec, d: DepSpec) -> bool {
    exists|k: int| 0 <= k < p.provides.len() && provision_meets(d, #[trigger] p.provides[k])
}

/// Whether package `p` meets `d`, literally or through a provision.
pub open spec fn pkg_meets(p: PackageSpec, d: DepSpec) -> bool {
    meets_literally(p, d) || meets_by_provision(p, d)
}

/// The dependencies of `q` that are looked at: its hard ones, or its
/// optional ones.
pub open spec fn looked_at(q: PackageSpec, optional: bool) -> Seq<DepSpec> {
    if optional {
        q.optdepends
    } else {
        q.depends
    }
}

/// Whether some looked-at dependency of `q` is met by `p`.
pub open spec fn depends_on(q: PackageSpec, p: PackageSpec, optional: bool) -> bool {
    exists|k: int|
        0 <= k < looked_at(q, optional).len() && pkg_meets(p, #[trigger] looked_at(q, optional)[k])
}

/// The names of the first `n` packages of `pkgs` that depend on `p`, in
/// order, each name once.
pub open spec fn dependents(pkgs: Seq<PackageSpec>, p: PackageSpec, optional: bool, n: int) -> Seq<
    Seq<char>,
>
    decreases n,
{
    if n <= 0 {
        seq![]
    } else {
        let rest = dependents(pkgs, p, optional, n - 1);
        if depends_on(pkgs[n - 1], p, optional) && !rest.contains(pkgs[n - 1].name) {
            rest.push(pkgs[n - 1].name)
        } else {
            rest
        }
    }
}

/// The packages of `pkgs` that need `p`.
pub open spec fn required_by_of(pkgs: Seq<PackageSpec>, p: PackageSpec) -> Seq<Seq<char>> {
    dependents(pkgs, p, false, pkgs.len() as int)
}

/// The packages of `pkgs` that optionally need `p`.
pub open spec fn optional_for_of(pkgs: Seq<PackageSpec>, p: PackageSpec) -> Seq<Seq<char>> {
    dependents(pkgs, p, true, pkgs.len() as int)
}

/// Whether `v` compares with `w` as `m` asks.
fn version_meets_of(v: &str, m: DepMod, w: &str) -> (r: bool)
    ensures
        r == version_meets(v@, m, w@),
{
    match m {
        DepMod::Any => true,
        DepMod::Eq => match vercmp(v, w) {
            Ordering::Equal => true,
            _ => false,
        },
        DepMod::Ge => match vercmp(v, w) {
            Ordering::Less => false,
            _ => true,
        },
        DepMod::Le => match vercmp(v, w) {
            Ordering::Greater => false,
            _ => true,
        },
        DepMod::Gt => match vercmp(v, w) {
            Ordering::Greater => true,
            _ => false,
        },
        DepMod::Lt => match vercmp(v, w) {
            Ordering::Less => true,
            _ => false,
        },
    }
}

/// The version a dependency compares against; empty when it has none.
fn version_text<'b>(d: &'b Dep<'_>) -> (r: &'b str)
    ensures
        r@ == dep_version_text(d@),
{
    match d.version() {
        Some(v) => v,
        None => {
            proof {
                reveal_strlit("");
            }
            ""
        },
    }
}

/// Whether package `p` meets dependency `d`, literally or through one of
/// its provisions.
pub fn package_meets(p: &Package, d: &Dep<'_>) -> (r: bool)
    ensures
        r == pkg_meets(p@, d@),
{
    if str_eq(p.name(), d.name()) && version_meets_of(p.version(), d.depmod(), version_text(d)) {
        return true;
    }
    let provides = p.provides();
    let mut k: usize = 0;
    while k < provides.len()
        invariant
            k <= provides.len(),
            depend_views(provides@) == p@.provides,
            forall|m: int| 0 <= m < k ==> !provision_meets(d@, #[trigger] p@.provides[m]),
        decreases provides.len() - k,
    {
        let prov = provides[k].as_dep();
        assert(prov@ == p@.provides[k as int]);
        if str_eq(prov.name(), d.name()) {
            if d.depmod() == DepMod::Any {
                return true;
            }
            if prov.depmod() == DepMod::Eq && version_meets_of(
                version_text(prov),
                d.depmod(),
                version_text(d),
            ) {
                return true;
            }
        }
        k = k + 1;
    }
    false
}

/// Whether some looked-at dependency of `q` is met by `p`.
fn depends_on_of(q: &Package, p: &Package, optional: bool) -> (r: bool)
    ensures
        r == depends_on(q@, p@, optional),
{
    let ds = if optional {
        q.optdepends()
    } else {
        q.depends()
    };
    let mut k: usize = 0;
    while k < ds.len()
        invariant
            k <= ds.len(),
            depend_views(ds@) == looked_at(q@, optional),
            forall|m: int| 0 <= m < k ==> !pkg_meets(p@, #[trigger] looked_at(q@, optional)[m]),
        decreases ds.len() - k,
    {
        assert(ds@[k as int]@ == looked_at(q@, optional)[k as int]);
        if package_meets(p, ds[k].as_dep()) {
            return true;
        }
        k = k + 1;
    }
    false
}

/// Whether `names` holds `name`.
fn holds_name(names: &Vec<String>, name: &str) -> (r: bool)
    ensures
        r == names@.map_values(|s: String| s@).contains(name@),
{
    let ghost views = names@.map_values(|s: String| s@);
    let mut i: usize = 0;
    while i < names.len()
        invariant
            i <= names.len(),
            views == names@.map_values(|s: String| s@),
            forall|m: int| 0 <= m < i ==> views[m] != name@,
        decreases names.len() - i,
    {
        if str_eq(names[i].as_str(), name) {
            assert(views[i as int] == name@);
            return true;
        }
        i = i + 1;
    }
    false
}

/// The names of the packages of `db` that depend on `pkg`, in database
/// order.
fn compute_dependents(db: &Db, pkg: &Package, optional: bool) -> (r: Vec<String>)
    ensures
        r@.map_values(|s: String| s@) == dependents(db@.pkgs, pkg@, optional, db@.pkgs.len() as int),
{
    let pkgs = db.pkgs();
    let mut r: Vec<String> = Vec::new();
    let mut i: usize = 0;
    while i < pkgs.len()
        invariant
            i <= pkgs.len(),
            pkg_views(pkgs@) == db@.pkgs,
            r@.map_values(|s: String| s@) == dependents(db@.pkgs, pkg@, optional, i as int),
        decreases pkgs.len() - i,
    {
        let q = &pkgs[i];
        assert(db@.pkgs[i as int] == q@);
        if depends_on_of(q, pkg, optional) && !holds_name(&r, q.name()) {
            let ghost before = r@;
            r.push(q.name().to_owned());
            assert(r@.map_values(|s: String| s@) =~= before.map_values(|s: String| s@).push(
                q@.name,
            ));
        }
        i = i + 1;
    }
    r
}

/// The packages of `db` that need `pkg`: those with a hard dependency that
/// `pkg` meets, in database order.
pub fn compute_required_by(db: &Db, pkg: &Package) -> (r: Vec<String>)
    ensures
        r@.map_values(|s: String| s@) == required_by_of(db@.pkgs, pkg@),
{
    compute_dependents(db, pkg, false)
}

/// The packages of `db` that optionally need `pkg`: those with an
/// optional dependency that `pkg` meets, in database order.
pub fn compute_optional_for(db: &Db, pkg: &Package) -> (r: Vec<String>)
    ensures
        r@.map_values(|s: String| s@) == optional_for_of(db@.pkgs, pkg@),
{
    compute_dependents(db, pkg, true)
}

/// Whether `pkg` is a direct orphan of `db`, with its dependents computed
/// from the database rather than read from the package: installed as a
/// dependency, and no package of `db` needs it, even optionally.
pub fn is_orphan_in(db: &Db, pkg: &Package) -> (r: bool)
    ensures
        r == (pkg@.reason == PackageReason::Depend && required_by_of(db@.pkgs, pkg@).len() == 0
            && optional_for_of(db@.pkgs, pkg@).len() == 0),
        r == (pkg@.reason == PackageReason::Depend && forall|i: int|
            0 <= i < db@.pkgs.len() ==> !depends_on(#[trigger] db@.pkgs[i], pkg@, false)
                && !depends_on(db@.pkgs[i], pkg@, true)),
{
    let req = compute_required_by(db, pkg);
    let opt = compute_optional_for(db, pkg);
    proof {
        lemma_dependents_empty(db@.pkgs, pkg@, false, db@.pkgs.len() as int);
        lemma_dependents_empty(db@.pkgs, pkg@, true, db@.pkgs.len() as int);
    }
    pkg.reason() == PackageReason::Depend && req.len() == 0 && opt.len() == 0
}

/// No package depends on `p` exactly when the list of its dependents is
/// empty.
pub proof fn lemma_dependents_empty(pkgs: Seq<PackageSpec>, p: PackageSpec, optional: bool, n: int)
    requires
        0 <= n <= pkgs.len(),
    ensures
        (dependents(pkgs, p, optional, n).len() == 0) <==> (forall|i: int|
            0 <= i < n ==> !depends_on(#[trigger] pkgs[i], p, optional)),
    decreases n,
{
    if n > 0 {
        lemma_dependents_empty(pkgs, p, optional, n - 1);
        let rest = dependents(pkgs, p, optional, n - 1);
        if depends_on(pkgs[n - 1], p, optional) && rest.contains(pkgs[n - 1].name) {
            assert(rest.len() > 0);
        }
    }
}

/// Where a package's recorded dependents are those the database computes,
/// it is a direct orphan exactly when it is installed as a dependency and
/// no package of the database depends on it, even optionally.
pub proof fn lemma_is_orphan_over_computed(pkgs: Seq<PackageSpec>, p: PackageSpec)
    requires
        p.required_by == required_by_of(pkgs, p),
        p.optional_for == optional_for_of(pkgs, p),
    ensures
        crate::orphans::is_orphan_spec(p) == (p.reason == PackageReason::Depend && forall|i: int|
            0 <= i < pkgs.len() ==> !depends_on(#[trigger] pkgs[i], p, false) && !depends_on(
                pkgs[i],
                p,
                true,
            )),
{
    lemma_dependents_empty(pkgs, p, false, pkgs.len() as int);
    lemma_dependents_empty(pkgs, p, true, pkgs.len() as int);
}

/// The first package of `pkgs` for which `f` holds, if any.
pub open spec fn found(pkgs: Seq<PackageSpec>, f: spec_fn(PackageSpec) -> bool) -> Option<PackageSpec> {
    match first_pkg_where(pkgs, f, 0) {
        Some(k) => Some(pkgs[k]),
        None => None,
    }
}

/// The first package, by database and then package order, for which `f`
/// holds, if any.
pub open spec fn found_in_dbs(dbs: Seq<DbSpec>, f: spec_fn(PackageSpec) -> bool) -> Option<
    PackageSpec,
> {
    match first_db_where(dbs, f, 0) {
        Some(i) => found(dbs[i].pkgs, f),
        None => None,
    }
}

/// The package that satisfies `d` across `dbs`: the first that meets it
/// by its own name and version, otherwise the first that provides it
/// under another name.
pub open spec fn dbs_satisfier(dbs: Seq<DbSpec>, d: DepSpec) -> Option<PackageSpec> {
    match found_in_dbs(dbs, test_holds(SearchTest::Literal, d)) {
        Some(p) => Some(p),
        None => found_in_dbs(dbs, test_holds(SearchTest::Provider, d)),
    }
}

/// The package that satisfies a target: in the first database called
/// `repo`, the first package that meets it; with no repository, as
/// [`dbs_satisfier`] finds it.
pub open spec fn target_satisfier(dbs: Seq<DbSpec>, repo: Option<Seq<char>>, name: Seq<char>) -> Option<
    PackageSpec,
> {
    match repo {
        Some(r) => match first_db_named(dbs, r, 0) {
            Some(i) => found(dbs[i].pkgs, test_holds(SearchTest::Meets, parse_dep(name))),
            None => None,
        },
        None => dbs_satisfier(dbs, parse_dep(name)),
    }
}

/// The package a search found, if any.
pub open spec fn opt_ref_view(r: Option<&Package>) -> Option<PackageSpec> {
    match r {
        Some(p) => Some(p@),
        None => None,
    }
}

/// The first index at or after `i` of a package for which `f` holds.
pub open spec fn first_pkg_where(pkgs: Seq<PackageSpec>, f: spec_fn(PackageSpec) -> bool, i: int) -> Option<
    int,
>
    decreases pkgs.len() - i,
{
    if i < 0 || i >= pkgs.len() {
        None
    } else if f(pkgs[i]) {
        Some(i)
    } else {
        first_pkg_where(pkgs, f, i + 1)
    }
}

/// The first database at or after `i` that holds a package for which `f`
/// holds.
pub open spec fn first_db_where(dbs: Seq<DbSpec>, f: spec_fn(PackageSpec) -> bool, i: int) -> Option<
    int,
>
    decreases dbs.len() - i,
{
    if i < 0 || i >= dbs.len() {
        None
    } else if first_pkg_where(dbs[i].pkgs, f, 0) is Some {
        Some(i)
    } else {
        first_db_where(dbs, f, i + 1)
    }
}

/// Whether `p` provides what `d` names without being called so itself.
pub open spec fn is_provider(p: PackageSpec, d: DepSpec) -> bool {
    p.name != d.name && meets_by_provision(p, d)
}

/// The tests a search can make of a package against a dependency.
#[derive(Clone, Copy)]
pub enum SearchTest {
    /// The package meets the dependency in any way.
    Meets,
    /// The package meets the dependency by its own name and version.
    Literal,
    /// The package meets the dependency through a provision under another
    /// name.
    Provider,
}

/// What test `t` asks of `p` against `d`.
pub open spec fn test_holds(t: SearchTest, d: DepSpec) -> spec_fn(PackageSpec) -> bool {
    |p: PackageSpec|
        match t {
            SearchTest::Meets => pkg_meets(p, d),
            SearchTest::Literal => meets_literally(p, d),
            SearchTest::Provider => is_provider(p, d),
        }
}

/// Makes test `t` of `p` against `d`.
fn test_of(t: SearchTest, p: &Package, d: &Dep<'_>) -> (r: bool)
    ensures
        r == test_holds(t, d@)(p@),
{
    match t {
        SearchTest::Meets => package_meets(p, d),
        SearchTest::Literal => str_eq(p.name(), d.name()) && version_meets_of(
            p.version(),
            d.depmod(),
            version_text(d),
        ),
        SearchTest::Provider => !str_eq(p.name(), d.name()) && package_meets(p, d),
    }
}

/// The first package of `pkgs` that passes test `t` against `d`.
fn first_passing<'a>(pkgs: &'a [Package], t: SearchTest, d: &Dep<'_>) -> (r: Option<&'a Package>)
    ensures
        opt_ref_view(r) == found(pkg_views(pkgs@), test_holds(t, d@)),
{
    let mut i: usize = 0;
    while i < pkgs.len()
        invariant
            i <= pkgs.len(),
            first_pkg_where(pkg_views(pkgs@), test_holds(t, d@), 0) == first_pkg_where(
                pkg_views(pkgs@),
                test_holds(t, d@),
                i as int,
            ),
        decreases pkgs.len() - i,
    {
        assert(pkg_views(pkgs@)[i as int] == pkgs@[i as int]@);
        if test_of(t, &pkgs[i], d) {
            return Some(&pkgs[i]);
        }
        i = i + 1;
    }
    None
}

/// The first package of `pkgs` that meets the dependency `depstring`
/// reads as, in order.
pub fn find_satisfier<'a>(pkgs: &'a [Package], depstring: &str) -> (r: Option<&'a Package>)
    ensures
        opt_ref_view(r) == found(
            pkg_views(pkgs@),
            test_holds(SearchTest::Meets, parse_dep(depstring@)),
        ),
{
    let d = Depend::new(depstring);
    first_passing(pkgs, SearchTest::Meets, d.as_dep())
}

/// The first package, in database order and then package order, that
/// passes test `t` against `d`.
fn first_passing_in_dbs<'a>(dbs: &'a [Db], t: SearchTest, d: &Dep<'_>) -> (r: Option<&'a Package>)
    ensures
        opt_ref_view(r) == found_in_dbs(db_views(dbs@), test_holds(t, d@)),
{
    let mut i: usize = 0;
    while i < dbs.len()
        invariant
            i <= dbs.len(),
            first_db_where(db_views(dbs@), test_holds(t, d@), 0) == first_db_where(
                db_views(dbs@),
                test_holds(t, d@),
                i as int,
            ),
        decreases dbs.len() - i,
    {
        assert(db_views(dbs@)[i as int] == dbs@[i as int]@);
        let pkgs = dbs[i].pkgs();
        match first_passing(pkgs, t, d) {
            Some(p) => {
                return Some(p);
            },
            None => {},
        }
        i = i + 1;
    }
    None
}

/// The package that satisfies `depstring` across the databases, as the
/// package library resolves it when every database may be installed from,
/// nothing is ignored and no one is asked to choose: the first database,
/// in order, holding a package of that name whose version meets the
/// dependency gives that package; otherwise the first package, by
/// database and then package order, that provides it under another name.
pub fn find_dbs_satisfier<'a>(dbs: &'a [Db], depstring: &str) -> (r: Option<&'a Package>)
    ensures
        opt_ref_view(r) == dbs_satisfier(db_views(dbs@), parse_dep(depstring@)),
{
    let d = Depend::new(depstring);
    match first_passing_in_dbs(dbs, SearchTest::Literal, d.as_dep()) {
        Some(p) => Some(p),
        None => first_passing_in_dbs(dbs, SearchTest::Provider, d.as_dep()),
    }
}

/// The package a target names, found by satisfying its package part: in
/// the first database called after the target's repository, the first
/// package that meets it (none when there is no such database); with no
/// repository, as [`find_dbs_satisfier`] resolves it.
pub fn find_target_satisfier<'a>(dbs: &'a [Db], target: Targ<'_>) -> (r: Option<&'a Package>)
    ensures
        opt_ref_view(r) == target_satisfier(
            db_views(dbs@),
            crate::target::opt_str_view(target.repo),
            target.pkg@,
        ),
{
    match target.repo {
        Some(repo) => {
            let mut i: usize = 0;
            while i < dbs.len()
                invariant
                    i <= dbs.len(),
                    target.repo == Some(repo),
                    first_db_named(db_views(dbs@), repo@, 0) == first_db_named(
                        db_views(dbs@),
                        repo@,
                        i as int,
                    ),
                decreases dbs.len() - i,
            {
                assert(db_views(dbs@)[i as int] == dbs@[i as int]@);
                if str_eq(dbs[i].name(), repo) {
                    let pkgs = dbs[i].pkgs();
                    assert(pkg_views(pkgs@) == db_views(dbs@)[i as int].pkgs);
                    return find_satisfier(pkgs, target.pkg);
                }
                i = i + 1;
            }
            None
        },
        None => find_dbs_satisfier(dbs, target.pkg),
    }
}

/// How the comparisons relate: `Any` always holds; `<` holds exactly when
/// `vercmp` says older; `=` holds of a version against itself and both
/// ways; `<` and `>` are each other's mirror and never hold of a version
/// against itself; `<=` is `<` or `=`, `>=` is `>` or `=`; and of `<`,
/// `=` and `>` exactly one holds.
pub proof fn lemma_version_meets_laws(v: Seq<char>, w: Seq<char>)
    ensures
        version_meets(v, DepMod::Any, w),
        version_meets(v, DepMod::Lt, w) == (ordering_of(order_of(v, w)) == Ordering::Less),
        version_meets(v, DepMod::Eq, v),
        version_meets(v, DepMod::Eq, w) == version_meets(w, DepMod::Eq, v),
        !version_meets(v, DepMod::Lt, v),
        !version_meets(v, DepMod::Gt, v),
        version_meets(v, DepMod::Lt, w) == version_meets(w, DepMod::Gt, v),
        version_meets(v, DepMod::Le, w) == version_meets(w, DepMod::Ge, v),
        version_meets(v, DepMod::Le, w) == (version_meets(v, DepMod::Lt, w) || version_meets(
            v,
            DepMod::Eq,
            w,
        )),
        version_meets(v, DepMod::Ge, w) == (version_meets(v, DepMod::Gt, w) || version_meets(
            v,
            DepMod::Eq,
            w,
        )),
        version_meets(v, DepMod::Lt, w) || version_meets(v, DepMod::Eq, w) || version_meets(
            v,
            DepMod::Gt,
            w,
        ),
        !(version_meets(v, DepMod::Lt, w) && version_meets(v, DepMod::Eq, w)),
        !(version_meets(v, DepMod::Gt, w) && version_meets(v, DepMod::Eq, w)),
        !(version_meets(v, DepMod::Lt, w) && version_meets(v, DepMod::Gt, w)),
{
    lemma_version_order_antisymmetric(encode_utf8(v), encode_utf8(w));
    lemma_version_order_reflexive(encode_utf8(v));
    lemma_version_order_sign(encode_utf8(v), encode_utf8(w));
}

} // verus!
