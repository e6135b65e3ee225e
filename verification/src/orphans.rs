//! Orphan and unneeded package detection over a local database.
//!
//! A package is needed when it is installed explicitly, or when a needed
//! package depends on it: one of that package's dependencies is met by
//! the package itself or by one of its provisions. Every other package is
//! unneeded.
use vstd::prelude::*;

use crate::db::{names_distinct, pkg_views, ref_views, Db};
use crate::deps::{Dep, DepSpec};
use crate::package::{Package, PackageReason, PackageSpec};
use crate::satisfy::{dep_satisfied, satisfies, some_provide_satisfies};

verus! {

/// The dependencies of `p` that are followed: the hard ones, and the
/// optional ones too when `keep_optional` holds.
pub open spec fn pkg_deps(p: PackageSpec, keep_optional: bool) -> Seq<DepSpec> {
    if keep_optional {
        p.depends + p.optdepends
    } else {
        p.depends
    }
}

/// Whether dependency `d` is met by package `q` or by one of its
/// provisions.
pub open spec fn dep_met_by(d: DepSpec, q: PackageSpec) -> bool {
    dep_satisfied(d, q.name, q.version) || some_provide_satisfies(d, q.provides)
}

/// Whether package `i` needs package `j`: some dependency of `i` that is
/// followed is met by `j`.
pub open spec fn needs(pkgs: Seq<PackageSpec>, keep_optional: bool, i: int, j: int) -> bool {
    &&& 0 <= i < pkgs.len()
    &&& 0 <= j < pkgs.len()
    &&& exists|k: int|
        0 <= k < pkg_deps(pkgs[i], keep_optional).len() && #[trigger] dep_met_by(
            pkg_deps(pkgs[i], keep_optional)[k],
            pkgs[j],
        )
}

/// Whether `s` holds every explicitly installed package.
pub open spec fn holds_explicit(pkgs: Seq<PackageSpec>, s: Set<int>) -> bool {
    forall|i: int| 0 <= i < pkgs.len() && pkgs[i].reason == PackageReason::Explicit ==> s.contains(i)
}

/// Whether `s` holds everything its members need.
pub open spec fn closed_under_needs(pkgs: Seq<PackageSpec>, keep_optional: bool, s: Set<int>) -> bool {
    forall|i: int, j: int| #[trigger] s.contains(i) && #[trigger] needs(pkgs, keep_optional, i, j) ==> s.contains(j)
}

/// Whether `v` is the set of needed packages: it holds the explicitly
/// installed packages and what its members need, and is contained in every
/// other set with both properties.
pub open spec fn is_needed_set(pkgs: Seq<PackageSpec>, keep_optional: bool, v: Set<int>) -> bool {
    &&& forall|i: int| #[trigger] v.contains(i) ==> 0 <= i < pkgs.len()
    &&& holds_explicit(pkgs, v)
    &&& closed_under_needs(pkgs, keep_optional, v)
    &&& forall|s: Set<int>|
        #[trigger] closed_under_needs(pkgs, keep_optional, s) && holds_explicit(pkgs, s)
            ==> v.subset_of(s)
}

/// The indices whose flag is set.
pub open spec fn mask_set(m: Seq<bool>) -> Set<int> {
    Set::new(|i: int| 0 <= i < m.len() && m[i])
}

/// The number of unset flags.
pub open spec fn count_false(s: Seq<bool>) -> nat
    decreases s.len(),
{
    if s.len() == 0 {
        0
    } else {
        count_false(s.drop_last()) + if s.last() {
            0nat
        } else {
            1nat
        }
    }
}

/// Setting an unset flag lowers the number of unset flags by one.
proof fn lemma_count_false_set(s: Seq<bool>, i: int)
    requires
        0 <= i < s.len(),
        !s[i],
    ensures
        count_false(s.update(i, true)) + 1 == count_false(s),
    decreases s.len(),
{
    if i == s.len() - 1 {
        assert(s.update(i, true).drop_last() =~= s.drop_last());
    } else {
        lemma_count_false_set(s.drop_last(), i);
        assert(s.update(i, true).drop_last() =~= s.drop_last().update(i, true));
    }
}

/// Whether dependency `d` is met by package `q` or one of its provisions.
pub fn dep_met(d: &Dep<'_>, q: &Package) -> (r: bool)
    ensures
        r == dep_met_by(d@, q@),
{
    satisfies(d, q.name(), q.version(), q.provides())
}

/// Flags, and pushes on `stack`, every package not yet flagged that meets
/// `d`.
fn visit_met(pkgs: &[Package], d: &Dep<'_>, visited: &mut Vec<bool>, stack: &mut Vec<usize>)
    requires
        old(visited).len() == pkgs.len(),
        forall|t: int| 0 <= t < old(stack).len() ==> old(stack)@[t] < pkgs.len(),
    ensures
        final(visited).len() == pkgs.len(),
        forall|j: int|
            0 <= j < pkgs.len() ==> (old(visited)@[j] ==> final(visited)@[j]) && (final(visited)@[j]
                ==> old(visited)@[j] || dep_met_by(d@, pkgs@[j]@)) && (dep_met_by(d@, pkgs@[j]@)
                ==> final(visited)@[j]),
        final(stack)@.len() >= old(stack)@.len(),
        forall|t: int| 0 <= t < old(stack)@.len() ==> final(stack)@[t] == old(stack)@[t],
        forall|t: int|
            old(stack)@.len() <= t < final(stack)@.len() ==> final(stack)@[t] < pkgs.len()
                && !old(visited)@[final(stack)@[t] as int] && final(visited)@[final(stack)@[t] as int],
        forall|j: int|
            0 <= j < pkgs.len() && final(visited)@[j] && !old(visited)@[j] ==> final(stack)@.contains(
                j as usize,
            ),
        count_false(final(visited)@) + final(stack)@.len() == count_false(old(visited)@) + old(
            stack,
        )@.len(),
{
    let mut j: usize = 0;
    while j < pkgs.len()
        invariant
            j <= pkgs.len(),
            visited.len() == pkgs.len(),
            forall|m: int|
                0 <= m < pkgs.len() ==> (old(visited)@[m] ==> visited@[m]) && (visited@[m]
                    ==> old(visited)@[m] || dep_met_by(d@, pkgs@[m]@)),
            forall|m: int| 0 <= m < j ==> dep_met_by(d@, pkgs@[m]@) ==> visited@[m],
            forall|m: int| j <= m < pkgs.len() ==> visited@[m] == old(visited)@[m],
            stack@.len() >= old(stack)@.len(),
            forall|t: int| 0 <= t < old(stack)@.len() ==> stack@[t] == old(stack)@[t],
            forall|t: int|
                old(stack)@.len() <= t < stack@.len() ==> stack@[t] < j && !old(visited)@[stack@[t] as int]
                    && visited@[stack@[t] as int],
            forall|m: int|
                0 <= m < pkgs.len() && visited@[m] && !old(visited)@[m] ==> stack@.contains(m as usize),
            count_false(visited@) + stack@.len() == count_false(old(visited)@) + old(stack)@.len(),
        decreases pkgs.len() - j,
    {
        if !visited[j] && dep_met(d, &pkgs[j]) {
            proof {
                lemma_count_false_set(visited@, j as int);
            }
            let ghost prev = stack@;
            visited.set(j, true);
            stack.push(j);
            assert forall|m: int|
                0 <= m < pkgs.len() && visited@[m] && !old(visited)@[m] implies stack@.contains(
                m as usize,
            ) by {
                if m == j {
                    assert(stack@[stack@.len() - 1] == j);
                } else {
                    let t = choose|t: int| 0 <= t < prev.len() && prev[t] == m as usize;
                    assert(stack@[t] == m as usize);
                }
            }
        }
        j = j + 1;
    }
}

/// Flags the needed packages of `db`: the explicitly installed ones and,
/// repeatedly, whatever a flagged package's dependencies are met by.
pub fn needed_mask(db: &Db, keep_optional: bool) -> (m: Vec<bool>)
    ensures
        m.len() == db@.pkgs.len(),
        is_needed_set(db@.pkgs, keep_optional, mask_set(m@)),
{
    let pkgs = db.pkgs();
    let ghost ps = db@.pkgs;
    let n = pkgs.len();
    let mut visited: Vec<bool> = Vec::new();
    let mut stack: Vec<usize> = Vec::new();
    let mut i: usize = 0;
    while i < n
        invariant
            i <= n == pkgs.len(),
            pkg_views(pkgs@) == ps,
            visited.len() == i,
            forall|m: int| 0 <= m < i ==> visited@[m] == (ps[m].reason == PackageReason::Explicit),
            forall|t: int| 0 <= t < stack.len() ==> stack@[t] < i && visited@[stack@[t] as int],
            forall|m: int| 0 <= m < i && visited@[m] ==> stack@.contains(m as usize),
        decreases n - i,
    {
        let explicit = pkgs[i].reason() == PackageReason::Explicit;
        assert(ps[i as int] == pkgs@[i as int]@);
        visited.push(explicit);
        if explicit {
            let ghost prev = stack@;
            stack.push(i);
            assert forall|m: int| 0 <= m < i + 1 && visited@[m] implies stack@.contains(m as usize) by {
                if m == i {
                    assert(stack@[stack@.len() - 1] == i);
                } else {
                    let t = choose|t: int| 0 <= t < prev.len() && prev[t] == m as usize;
                    assert(stack@[t] == m as usize);
                }
            }
        }
        i = i + 1;
    }
    proof {
        assert forall|s: Set<int>, m: int|
            #[trigger] closed_under_needs(ps, keep_optional, s) && holds_explicit(ps, s) && 0 <= m
                < n && #[trigger] visited@[m] implies s.contains(m) by {}
    }
    while stack.len() > 0
        invariant
            n == pkgs.len(),
            pkg_views(pkgs@) == ps,
            visited.len() == n,
            forall|t: int| 0 <= t < stack.len() ==> stack@[t] < n && visited@[stack@[t] as int],
            holds_explicit(ps, mask_set(visited@)),
            forall|a: int, b: int|
                0 <= a < n && visited@[a] && !stack@.contains(a as usize) && #[trigger] needs(
                    ps,
                    keep_optional,
                    a,
                    b,
                ) ==> visited@[b],
            forall|s: Set<int>, m: int|
                #[trigger] closed_under_needs(ps, keep_optional, s) && holds_explicit(ps, s) && 0
                    <= m < n && #[trigger] visited@[m] ==> s.contains(m),
        decreases 2 * count_false(visited@) + stack@.len(),
    {
        let ghost stack_before_pop = stack@;
        let cur = stack.pop().unwrap();
        assert(stack_before_pop =~= stack@.push(cur));
        let ghost cur_deps = pkg_deps(ps[cur as int], keep_optional);
        let ghost start_visited = visited@;
        let ghost start_stack = stack@;
        let ghost start_measure = 2 * count_false(visited@) + stack@.len();
        let pkg = &pkgs[cur];
        assert(pkg@ == ps[cur as int]);
        let hard = pkg.depends();
        let opt = pkg.optdepends();
        let mut k: usize = 0;
        while k < hard.len()
            invariant
                n == pkgs.len(),
                pkg_views(pkgs@) == ps,
                visited.len() == n,
                cur < n,
                visited@[cur as int],
                k <= hard.len(),
                crate::satisfy::depend_views(hard@) == ps[cur as int].depends,
                forall|t: int| 0 <= t < stack.len() ==> stack@[t] < n && visited@[stack@[t] as int],
                forall|m: int| 0 <= m < n ==> start_visited[m] ==> visited@[m],
                stack@.len() >= start_stack.len(),
                forall|t: int| 0 <= t < start_stack.len() ==> stack@[t] == start_stack[t],
                2 * count_false(visited@) + stack@.len() <= start_measure,
                forall|m: int|
                    0 <= m < n && visited@[m] && !start_visited[m] ==> stack@.contains(m as usize),
                forall|kk: int, m: int|
                    0 <= kk < k && 0 <= m < n && #[trigger] dep_met_by(
                        ps[cur as int].depends[kk],
                        ps[m],
                    ) ==> visited@[m],
                forall|s: Set<int>, m: int|
                    #[trigger] closed_under_needs(ps, keep_optional, s) && holds_explicit(ps, s) && 0
                        <= m < n && #[trigger] visited@[m] ==> s.contains(m),
            decreases hard.len() - k,
        {
            assert(hard@[k as int]@ == ps[cur as int].depends[k as int]);
            let ghost before = visited@;
            visit_met(pkgs, hard[k].as_dep(), &mut visited, &mut stack);
            proof {
                assert forall|s: Set<int>, m: int|
                    #[trigger] closed_under_needs(ps, keep_optional, s) && holds_explicit(ps, s)
                        && 0 <= m < n && #[trigger] visited@[m] implies s.contains(m) by {
                    if !before[m] {
                        assert(dep_met_by(ps[cur as int].depends[k as int], ps[m]));
                        assert(pkg_deps(ps[cur as int], keep_optional)[k as int]
                            == ps[cur as int].depends[k as int]);
                        assert(needs(ps, keep_optional, cur as int, m));
                        assert(s.contains(cur as int));
                    }
                }
            }
            k = k + 1;
        }
        if keep_optional {
            let mut k: usize = 0;
            while k < opt.len()
                invariant
                    keep_optional,
                    n == pkgs.len(),
                    pkg_views(pkgs@) == ps,
                    visited.len() == n,
                    cur < n,
                    visited@[cur as int],
                    k <= opt.len(),
                    crate::satisfy::depend_views(opt@) == ps[cur as int].optdepends,
                    forall|t: int| 0 <= t < stack.len() ==> stack@[t] < n && visited@[stack@[t] as int],
                    forall|m: int| 0 <= m < n ==> start_visited[m] ==> visited@[m],
                    stack@.len() >= start_stack.len(),
                    forall|t: int| 0 <= t < start_stack.len() ==> stack@[t] == start_stack[t],
                    2 * count_false(visited@) + stack@.len() <= start_measure,
                    forall|m: int|
                        0 <= m < n && visited@[m] && !start_visited[m] ==> stack@.contains(m as usize),
                    forall|kk: int, m: int|
                        0 <= kk < ps[cur as int].depends.len() && 0 <= m < n && #[trigger] dep_met_by(
                            ps[cur as int].depends[kk],
                            ps[m],
                        ) ==> visited@[m],
                    forall|kk: int, m: int|
                        0 <= kk < k && 0 <= m < n && #[trigger] dep_met_by(
                            ps[cur as int].optdepends[kk],
                            ps[m],
                        ) ==> visited@[m],
                    forall|s: Set<int>, m: int|
                        #[trigger] closed_under_needs(ps, keep_optional, s) && holds_explicit(ps, s)
                            && 0 <= m < n && #[trigger] visited@[m] ==> s.contains(m),
                decreases opt.len() - k,
            {
                assert(opt@[k as int]@ == ps[cur as int].optdepends[k as int]);
                let ghost before = visited@;
                visit_met(pkgs, opt[k].as_dep(), &mut visited, &mut stack);
                proof {
                    assert forall|s: Set<int>, m: int|
                        #[trigger] closed_under_needs(ps, keep_optional, s) && holds_explicit(ps, s)
                            && 0 <= m < n && #[trigger] visited@[m] implies s.contains(m) by {
                        if !before[m] {
                            let dd = ps[cur as int].optdepends[k as int];
                            assert(dep_met_by(dd, ps[m]));
                            let idx = ps[cur as int].depends.len() + k;
                            assert(pkg_deps(ps[cur as int], keep_optional)[idx] == dd);
                            assert(needs(ps, keep_optional, cur as int, m));
                            assert(s.contains(cur as int));
                        }
                    }
                }
                k = k + 1;
            }
        }
        proof {
            assert(holds_explicit(ps, mask_set(visited@))) by {
                assert forall|m: int|
                    0 <= m < n && ps[m].reason == PackageReason::Explicit implies mask_set(
                    visited@,
                ).contains(m) by {
                    assert(mask_set(start_visited).contains(m));
                }
            }
            assert forall|a: int, b: int|
                0 <= a < n && visited@[a] && !stack@.contains(a as usize) && #[trigger] needs(
                    ps,
                    keep_optional,
                    a,
                    b,
                ) implies visited@[b] by {
                if a == cur {
                    let kk = choose|kk: int|
                        0 <= kk < pkg_deps(ps[a], keep_optional).len() && #[trigger] dep_met_by(
                            pkg_deps(ps[a], keep_optional)[kk],
                            ps[b],
                        );
                    if kk < ps[a].depends.len() {
                        assert(pkg_deps(ps[a], keep_optional)[kk] == ps[a].depends[kk]);
                    } else {
                        assert(pkg_deps(ps[a], keep_optional)[kk] == ps[a].optdepends[kk
                            - ps[a].depends.len()]);
                    }
                } else {
                    assert(start_visited[a]);
                    assert(!start_stack.push(cur).contains(a as usize)) by {
                        if start_stack.push(cur).contains(a as usize) {
                            let t = choose|t: int|
                                0 <= t < start_stack.push(cur).len() && start_stack.push(cur)[t]
                                    == a as usize;
                            assert(stack@[t] == a as usize);
                        }
                    }
                }
            }
        }
    }
    visited
}


/// A needed set is unique: any two are equal.
pub proof fn lemma_needed_set_unique(pkgs: Seq<PackageSpec>, keep_optional: bool, v: Set<int>, w: Set<int>)
    requires
        is_needed_set(pkgs, keep_optional, v),
        is_needed_set(pkgs, keep_optional, w),
    ensures
        v == w,
{
    assert(closed_under_needs(pkgs, keep_optional, w));
    assert(closed_under_needs(pkgs, keep_optional, v));
    assert(v.subset_of(w));
    assert(w.subset_of(v));
    assert(v =~= w);
}

/// The packages among the first `k` whose index is not in `v`, in order.
pub open spec fn outside(pkgs: Seq<PackageSpec>, v: Set<int>, k: int) -> Seq<PackageSpec>
    decreases k,
{
    if k <= 0 {
        seq![]
    } else if v.contains(k - 1) {
        outside(pkgs, v, k - 1)
    } else {
        outside(pkgs, v, k - 1).push(pkgs[k - 1])
    }
}

/// The packages among the first `k` whose index is in `v`, in order.
pub open spec fn inside(pkgs: Seq<PackageSpec>, v: Set<int>, k: int) -> Seq<PackageSpec>
    decreases k,
{
    if k <= 0 {
        seq![]
    } else if v.contains(k - 1) {
        inside(pkgs, v, k - 1).push(pkgs[k - 1])
    } else {
        inside(pkgs, v, k - 1)
    }
}

/// The unneeded packages of a database, in database order: the packages
/// outside its needed set.
pub open spec fn unneeded_pkgs(pkgs: Seq<PackageSpec>, keep_optional: bool, r: Seq<PackageSpec>) -> bool {
    exists|v: Set<int>| is_needed_set(pkgs, keep_optional, v) && r == outside(pkgs, v, pkgs.len() as int)
}

/// The packages of `pkgs` whose flag in `m` is unset, in order.
fn unflagged<'a>(pkgs: &'a [Package], m: &Vec<bool>) -> (r: Vec<&'a Package>)
    requires
        m.len() == pkgs.len(),
    ensures
        ref_views(r@) == outside(pkg_views(pkgs@), mask_set(m@), pkgs.len() as int),
{
    let mut r: Vec<&'a Package> = Vec::new();
    let mut i: usize = 0;
    while i < pkgs.len()
        invariant
            i <= pkgs.len() == m.len(),
            ref_views(r@) == outside(pkg_views(pkgs@), mask_set(m@), i as int),
        decreases pkgs.len() - i,
    {
        let ghost before = r@;
        if !m[i] {
            r.push(&pkgs[i]);
            assert(ref_views(r@) =~= ref_views(before).push(pkgs@[i as int]@));
        }
        assert(mask_set(m@).contains(i as int) == m@[i as int]);
        i = i + 1;
    }
    r
}

/// Finds all recursively unneeded packages: those that no explicitly
/// installed package needs, directly or through other packages. If
/// `keep_optional` is true, optional dependencies are also followed.
pub fn find_unneeded<'a>(db: &'a Db, keep_optional: bool) -> (r: Vec<&'a Package>)
    ensures
        unneeded_pkgs(db@.pkgs, keep_optional, ref_views(r@)),
{
    let m = needed_mask(db, keep_optional);
    let pkgs = db.pkgs();
    unflagged(pkgs, &m)
}

/// Whether a package is a direct orphan: installed as a dependency, with no
/// installed package depending on it, even optionally.
pub open spec fn is_orphan_spec(p: PackageSpec) -> bool {
    p.reason == PackageReason::Depend && p.required_by.len() == 0 && p.optional_for.len() == 0
}

/// Checks if a package is a direct orphan.
pub fn is_orphan(pkg: &Package) -> (r: bool)
    ensures
        r == is_orphan_spec(pkg@),
{
    pkg.reason() == PackageReason::Depend && pkg.required_by().len() == 0
        && pkg.optional_for().len() == 0
}

/// All direct orphans of a database, in database order.
pub fn find_orphans<'a>(db: &'a Db) -> (r: Vec<&'a Package>)
    ensures
        ref_views(r@) == db@.pkgs.filter(|p: PackageSpec| is_orphan_spec(p)),
{
    let pkgs = db.pkgs();
    let mut r: Vec<&'a Package> = Vec::new();
    let mut i: usize = 0;
    while i < pkgs.len()
        invariant
            i <= pkgs.len(),
            pkg_views(pkgs@) == db@.pkgs,
            ref_views(r@) == db@.pkgs.take(i as int).filter(|p: PackageSpec| is_orphan_spec(p)),
        decreases pkgs.len() - i,
    {
        let ghost before = r@;
        proof {
            reveal_with_fuel(Seq::<_>::filter, 1);
        }
        assert(db@.pkgs.take(i + 1).drop_last() =~= db@.pkgs.take(i as int));
        assert(db@.pkgs[i as int] == pkgs@[i as int]@);
        if is_orphan(&pkgs[i]) {
            r.push(&pkgs[i]);
            assert(ref_views(r@) =~= ref_views(before).push(pkgs@[i as int]@));
        }
        i = i + 1;
    }
    assert(db@.pkgs.take(pkgs.len() as int) =~= db@.pkgs);
    r
}


/// An unneeded package with classification.
#[derive(Debug)]
pub struct UnneededPackage<'a> {
    /// The package.
    pub pkg: &'a Package,
    /// True if this is a direct orphan (no installed package depends on it).
    /// False if only other unneeded packages depend on it.
    pub direct: bool,
}

/// Like [`find_unneeded`], but classifies each result as a direct or
/// indirect orphan.
pub fn find_unneeded_classified<'a>(db: &'a Db, keep_optional: bool) -> (r: Vec<
    UnneededPackage<'a>,
>)
    ensures
        unneeded_pkgs(db@.pkgs, keep_optional, r@.map_values(|u: UnneededPackage<'a>| u.pkg@)),
        forall|k: int| 0 <= k < r.len() ==> (#[trigger] r@[k]).direct == is_orphan_spec(r@[k].pkg@),
{
    let found = find_unneeded(db, keep_optional);
    let mut r: Vec<UnneededPackage<'a>> = Vec::new();
    let mut i: usize = 0;
    while i < found.len()
        invariant
            i <= found.len(),
            r@.map_values(|u: UnneededPackage<'a>| u.pkg@) == ref_views(found@).take(i as int),
            forall|k: int| 0 <= k < r.len() ==> (#[trigger] r@[k]).direct == is_orphan_spec(r@[k].pkg@),
        decreases found.len() - i,
    {
        let pkg = found[i];
        let direct = is_orphan(pkg);
        let ghost before = r@;
        r.push(UnneededPackage { pkg, direct });
        assert(ref_views(found@)[i as int] == pkg@);
        assert(r@.map_values(|u: UnneededPackage<'a>| u.pkg@) =~= before.map_values(
            |u: UnneededPackage<'a>| u.pkg@,
        ).push(pkg@));
        assert(r@.map_values(|u: UnneededPackage<'a>| u.pkg@) =~= ref_views(found@).take(i + 1));
        i = i + 1;
    }
    assert(ref_views(found@).take(found.len() as int) =~= ref_views(found@));
    r
}

/// Whether dependency `d` is still met by some package outside `r`.
pub open spec fn met_outside(pkgs: Seq<PackageSpec>, d: DepSpec, r: Set<int>) -> bool {
    exists|i: int| 0 <= i < pkgs.len() && !r.contains(i) && #[trigger] dep_met_by(d, pkgs[i])
}

/// Whether package `j` has a hard dependency that nothing outside `r`
/// meets.
pub open spec fn broken_without(pkgs: Seq<PackageSpec>, j: int, r: Set<int>) -> bool {
    exists|k: int| 0 <= k < pkgs[j].depends.len() && !met_outside(pkgs, #[trigger] pkgs[j].depends[k], r)
}

/// Whether every package of `u` whose hard dependencies break once `r`
/// is removed is itself in `r`.
pub open spec fn closed_under_breaking(pkgs: Seq<PackageSpec>, u: Set<int>, r: Set<int>) -> bool {
    forall|j: int| #[trigger] u.contains(j) && broken_without(pkgs, j, r) ==> r.contains(j)
}

/// Whether `r` is the removal closure of `r0` within `u`: the least set
/// between `r0` and `u` that takes along every package of `u` whose hard
/// dependencies it breaks.
pub open spec fn is_removal_set(pkgs: Seq<PackageSpec>, u: Set<int>, r0: Set<int>, r: Set<int>) -> bool {
    &&& r0.subset_of(r)
    &&& r.subset_of(u)
    &&& closed_under_breaking(pkgs, u, r)
    &&& forall|s: Set<int>|
        #[trigger] closed_under_breaking(pkgs, u, s) && r0.subset_of(s) && s.subset_of(u) ==> r.subset_of(s)
}

/// Whether some target names package `p`.
pub open spec fn targeted(targets: Seq<&str>, p: PackageSpec) -> bool {
    exists|t: int| 0 <= t < targets.len() && (#[trigger] targets[t])@ == p.name
}

/// The unneeded packages that `targets` name.
pub open spec fn target_set(pkgs: Seq<PackageSpec>, u: Set<int>, targets: Seq<&str>) -> Set<int> {
    Set::new(|j: int| u.contains(j) && 0 <= j < pkgs.len() && targeted(targets, pkgs[j]))
}

/// The complement of `v` among the indices of `pkgs`.
pub open spec fn complement(pkgs: Seq<PackageSpec>, v: Set<int>) -> Set<int> {
    Set::new(|j: int| 0 <= j < pkgs.len() && !v.contains(j))
}

/// Whether some target names `name`.
fn is_targeted(targets: &[&str], name: &str) -> (r: bool)
    ensures
        r == exists|t: int| 0 <= t < targets@.len() && (#[trigger] targets@[t])@ == name@,
{
    let mut t: usize = 0;
    while t < targets.len()
        invariant
            t <= targets.len(),
            forall|x: int| 0 <= x < t ==> (#[trigger] targets@[x])@ != name@,
        decreases targets.len() - t,
    {
        if crate::text::str_eq(targets[t], name) {
            return true;
        }
        t = t + 1;
    }
    false
}

/// Whether `d` is met by some package whose flag in `removal` is unset.
fn met_by_remaining(pkgs: &[Package], d: &Dep<'_>, removal: &Vec<bool>) -> (r: bool)
    requires
        removal.len() == pkgs.len(),
    ensures
        r == met_outside(pkg_views(pkgs@), d@, mask_set(removal@)),
{
    let ghost ps = pkg_views(pkgs@);
    let mut i: usize = 0;
    while i < pkgs.len()
        invariant
            i <= pkgs.len() == removal.len(),
            ps == pkg_views(pkgs@),
            forall|x: int| 0 <= x < i && !mask_set(removal@).contains(x) ==> !#[trigger] dep_met_by(d@, ps[x]),
        decreases pkgs.len() - i,
    {
        assert(ps[i as int] == pkgs@[i as int]@);
        if !removal[i] && dep_met(d, &pkgs[i]) {
            assert(!mask_set(removal@).contains(i as int));
            return true;
        }
        i = i + 1;
    }
    false
}

/// Whether package `j` has a hard dependency that no package outside the
/// flagged ones meets.
fn has_broken_dep(pkgs: &[Package], j: usize, removal: &Vec<bool>) -> (r: bool)
    requires
        removal.len() == pkgs.len(),
        j < pkgs.len(),
    ensures
        r == broken_without(pkg_views(pkgs@), j as int, mask_set(removal@)),
{
    let ghost ps = pkg_views(pkgs@);
    let deps = pkgs[j].depends();
    assert(ps[j as int] == pkgs@[j as int]@);
    let mut k: usize = 0;
    while k < deps.len()
        invariant
            k <= deps.len(),
            removal.len() == pkgs.len(),
            j < pkgs.len(),
            ps == pkg_views(pkgs@),
            crate::satisfy::depend_views(deps@) == ps[j as int].depends,
            forall|x: int| 0 <= x < k ==> met_outside(ps, #[trigger] ps[j as int].depends[x], mask_set(removal@)),
        decreases deps.len() - k,
    {
        assert(deps@[k as int]@ == ps[j as int].depends[k as int]);
        if !met_by_remaining(pkgs, deps[k].as_dep(), removal) {
            return true;
        }
        k = k + 1;
    }
    false
}

/// Computes the minimal set of unneeded packages that must be removed
/// together with `targets` to avoid broken dependencies.
///
/// Given target package names to remove from the unneeded set, returns the
/// targets plus any unneeded packages whose hard dependencies would become
/// unsatisfied. Targets not in the unneeded set are silently ignored.
pub fn removal_closure<'a>(db: &'a Db, targets: &[&str], keep_optional: bool) -> (r: Vec<
    &'a Package,
>)
    ensures
        exists|v: Set<int>, rem: Set<int>|
            #![trigger is_needed_set(db@.pkgs, keep_optional, v), is_removal_set(db@.pkgs, complement(db@.pkgs, v), target_set(db@.pkgs, complement(db@.pkgs, v), targets@), rem)]
            is_needed_set(db@.pkgs, keep_optional, v) && is_removal_set(
                db@.pkgs,
                complement(db@.pkgs, v),
                target_set(db@.pkgs, complement(db@.pkgs, v), targets@),
                rem,
            ) && ref_views(r@) == inside(db@.pkgs, rem, db@.pkgs.len() as int),
{
    let mask = needed_mask(db, keep_optional);
    let pkgs = db.pkgs();
    let ghost ps = db@.pkgs;
    let ghost v = mask_set(mask@);
    let ghost u = complement(ps, v);
    let ghost r0 = target_set(ps, u, targets@);
    let n = pkgs.len();
    let mut removal: Vec<bool> = Vec::new();
    let mut i: usize = 0;
    while i < n
        invariant
            i <= n == pkgs.len() == mask.len(),
            pkg_views(pkgs@) == ps,
            v == mask_set(mask@),
            u == complement(ps, v),
            r0 == target_set(ps, u, targets@),
            removal.len() == i,
            forall|x: int| 0 <= x < i ==> #[trigger] removal@[x] == r0.contains(x),
        decreases n - i,
    {
        assert(ps[i as int] == pkgs@[i as int]@);
        let flag = !mask[i] && is_targeted(targets, pkgs[i].name());
        removal.push(flag);
        i = i + 1;
    }
    assert(mask_set(removal@) =~= r0);
    let mut changed = true;
    while changed
        invariant
            n == pkgs.len() == mask.len() == removal.len(),
            pkg_views(pkgs@) == ps,
            v == mask_set(mask@),
            u == complement(ps, v),
            r0.subset_of(mask_set(removal@)),
            mask_set(removal@).subset_of(u),
            !changed ==> closed_under_breaking(ps, u, mask_set(removal@)),
            forall|s: Set<int>|
                #[trigger] closed_under_breaking(ps, u, s) && r0.subset_of(s) && s.subset_of(u)
                    ==> mask_set(removal@).subset_of(s),
        decreases count_false(removal@) + if changed {
            1nat
        } else {
            0nat
        },
    {
        changed = false;
        let ghost start_count = count_false(removal@);
        let mut j: usize = 0;
        while j < n
            invariant
                j <= n == pkgs.len() == mask.len() == removal.len(),
                pkg_views(pkgs@) == ps,
                v == mask_set(mask@),
                u == complement(ps, v),
                r0.subset_of(mask_set(removal@)),
                mask_set(removal@).subset_of(u),
                changed ==> count_false(removal@) < start_count,
                !changed ==> count_false(removal@) == start_count,
                !changed ==> forall|x: int|
                    0 <= x < j && #[trigger] u.contains(x) && broken_without(ps, x, mask_set(removal@))
                        ==> mask_set(removal@).contains(x),
                forall|s: Set<int>|
                    #[trigger] closed_under_breaking(ps, u, s) && r0.subset_of(s) && s.subset_of(u)
                        ==> mask_set(removal@).subset_of(s),
            decreases n - j,
        {
            if !mask[j] && !removal[j] && has_broken_dep(pkgs, j, &removal) {
                let ghost before = mask_set(removal@);
                proof {
                    lemma_count_false_set(removal@, j as int);
                    assert forall|s: Set<int>|
                        #[trigger] closed_under_breaking(ps, u, s) && r0.subset_of(s) && s.subset_of(
                            u,
                        ) implies s.contains(j as int) by {
                        assert(before.subset_of(s));
                        lemma_broken_monotone(ps, j as int, before, s);
                        assert(u.contains(j as int));
                    }
                }
                removal.set(j, true);
                assert(mask_set(removal@) =~= before.insert(j as int));
                changed = true;
            }
            j = j + 1;
        }
    }
    assert(is_removal_set(ps, u, r0, mask_set(removal@)));
    let out = flagged(pkgs, &removal);
    out
}

/// Breaking is monotone: what a smaller removal breaks, a larger one
/// breaks too.
pub proof fn lemma_broken_monotone(pkgs: Seq<PackageSpec>, j: int, r: Set<int>, s: Set<int>)
    requires
        r.subset_of(s),
        broken_without(pkgs, j, r),
    ensures
        broken_without(pkgs, j, s),
{
    let k = choose|k: int| 0 <= k < pkgs[j].depends.len() && !met_outside(pkgs, #[trigger] pkgs[j].depends[k], r);
    if met_outside(pkgs, pkgs[j].depends[k], s) {
        let i = choose|i: int| 0 <= i < pkgs.len() && !s.contains(i) && #[trigger] dep_met_by(pkgs[j].depends[k], pkgs[i]);
        assert(!r.contains(i));
    }
}

/// The packages of `pkgs` whose flag in `m` is set, in order.
fn flagged<'a>(pkgs: &'a [Package], m: &Vec<bool>) -> (r: Vec<&'a Package>)
    requires
        m.len() == pkgs.len(),
    ensures
        ref_views(r@) == inside(pkg_views(pkgs@), mask_set(m@), pkgs.len() as int),
{
    let mut r: Vec<&'a Package> = Vec::new();
    let mut i: usize = 0;
    while i < pkgs.len()
        invariant
            i <= pkgs.len() == m.len(),
            ref_views(r@) == inside(pkg_views(pkgs@), mask_set(m@), i as int),
        decreases pkgs.len() - i,
    {
        let ghost before = r@;
        if m[i] {
            r.push(&pkgs[i]);
            assert(ref_views(r@) =~= ref_views(before).push(pkgs@[i as int]@));
        }
        assert(mask_set(m@).contains(i as int) == m@[i as int]);
        i = i + 1;
    }
    r
}


/// Every package listed by `outside(pkgs, v, k)` is some `pkgs[i]` with
/// `i < k` and `i` not in `v`.
pub proof fn lemma_outside_members(pkgs: Seq<PackageSpec>, v: Set<int>, k: int)
    requires
        0 <= k <= pkgs.len(),
    ensures
        forall|x: int|
            #![trigger outside(pkgs, v, k)[x]]
            0 <= x < outside(pkgs, v, k).len() ==> exists|i: int|
                0 <= i < k && !v.contains(i) && #[trigger] pkgs[i] == outside(pkgs, v, k)[x],
    decreases k,
{
    if k > 0 {
        lemma_outside_members(pkgs, v, k - 1);
        let prev = outside(pkgs, v, k - 1);
        assert forall|x: int| #![trigger outside(pkgs, v, k)[x]] 0 <= x < outside(pkgs, v, k).len() implies exists|i: int|
            0 <= i < k && !v.contains(i) && #[trigger] pkgs[i] == outside(pkgs, v, k)[x] by {
            if x < prev.len() {
                let i = choose|i: int| 0 <= i < k - 1 && !v.contains(i) && #[trigger] pkgs[i] == prev[x];
                assert(pkgs[i] == outside(pkgs, v, k)[x]);
            } else {
                assert(pkgs[k - 1] == outside(pkgs, v, k)[x]);
            }
        }
    }
}

/// No explicitly installed package is ever unneeded.
pub proof fn lemma_unneeded_not_explicit(pkgs: Seq<PackageSpec>, keep_optional: bool, r: Seq<PackageSpec>)
    requires
        unneeded_pkgs(pkgs, keep_optional, r),
    ensures
        forall|x: int| 0 <= x < r.len() ==> (#[trigger] r[x]).reason == PackageReason::Depend,
{
    let v = choose|v: Set<int>| is_needed_set(pkgs, keep_optional, v) && r == outside(pkgs, v, pkgs.len() as int);
    lemma_outside_members(pkgs, v, pkgs.len() as int);
    assert forall|x: int| 0 <= x < r.len() implies (#[trigger] r[x]).reason == PackageReason::Depend by {
        let i = choose|i: int| 0 <= i < pkgs.len() && !v.contains(i) && #[trigger] pkgs[i] == r[x];
        assert(holds_explicit(pkgs, v));
    }
}

/// Following optional dependencies too never makes a package unneeded
/// that was needed without them: the needed set only grows.
pub proof fn lemma_optional_keeps_more(pkgs: Seq<PackageSpec>, v: Set<int>, w: Set<int>)
    requires
        is_needed_set(pkgs, false, v),
        is_needed_set(pkgs, true, w),
    ensures
        v.subset_of(w),
{
    assert forall|i: int, j: int| #[trigger] w.contains(i) && #[trigger] needs(pkgs, false, i, j) implies w.contains(j) by {
        let k = choose|k: int| 0 <= k < pkg_deps(pkgs[i], false).len() && #[trigger] dep_met_by(
            pkg_deps(pkgs[i], false)[k],
            pkgs[j],
        );
        assert(pkg_deps(pkgs[i], true)[k] == pkg_deps(pkgs[i], false)[k]);
        assert(needs(pkgs, true, i, j));
    }
    assert(closed_under_needs(pkgs, false, w));
}

/// A removal set is unique: any two for the same arguments are equal.
pub proof fn lemma_removal_set_unique(pkgs: Seq<PackageSpec>, u: Set<int>, r0: Set<int>, r: Set<int>, q: Set<int>)
    requires
        is_removal_set(pkgs, u, r0, r),
        is_removal_set(pkgs, u, r0, q),
    ensures
        r == q,
{
    assert(closed_under_breaking(pkgs, u, q));
    assert(closed_under_breaking(pkgs, u, r));
    assert(r.subset_of(q));
    assert(q.subset_of(r));
    assert(r =~= q);
}

/// Once the removal set is gone, every unneeded package that stays still
/// has each hard dependency met by a package that stays.
pub proof fn lemma_removal_leaves_deps_met(pkgs: Seq<PackageSpec>, u: Set<int>, r0: Set<int>, r: Set<int>, j: int, k: int)
    requires
        is_removal_set(pkgs, u, r0, r),
        u.contains(j),
        !r.contains(j),
        0 <= j < pkgs.len(),
        0 <= k < pkgs[j].depends.len(),
    ensures
        met_outside(pkgs, pkgs[j].depends[k], r),
{
    assert(closed_under_breaking(pkgs, u, r));
    if !met_outside(pkgs, pkgs[j].depends[k], r) {
        assert(broken_without(pkgs, j, r));
    }
}

/// Orphan and unneeded package detection on a database.
pub trait OrphanExt {
    /// All direct orphans; see [`find_orphans`].
    fn find_orphans(&self) -> Vec<&Package>;

    /// See [`find_unneeded`].
    fn find_unneeded(&self, keep_optional: bool) -> Vec<&Package>;

    /// See [`find_unneeded_classified`].
    fn find_unneeded_classified(&self, keep_optional: bool) -> Vec<UnneededPackage<'_>>;

    /// See [`removal_closure`].
    fn removal_closure(&self, targets: &[&str], keep_optional: bool) -> Vec<&Package>;
}

impl OrphanExt for Db {
    fn find_orphans(&self) -> (r: Vec<&Package>)
        ensures
            ref_views(r@) == self@.pkgs.filter(|p: PackageSpec| is_orphan_spec(p)),
    {
        find_orphans(self)
    }

    fn find_unneeded(&self, keep_optional: bool) -> (r: Vec<&Package>)
        ensures
            unneeded_pkgs(self@.pkgs, keep_optional, ref_views(r@)),
    {
        find_unneeded(self, keep_optional)
    }

    fn find_unneeded_classified(&self, keep_optional: bool) -> (r: Vec<UnneededPackage<'_>>)
        ensures
            unneeded_pkgs(self@.pkgs, keep_optional, r@.map_values(|u: UnneededPackage<'_>| u.pkg@)),
            forall|k: int| 0 <= k < r.len() ==> (#[trigger] r@[k]).direct == is_orphan_spec(
                r@[k].pkg@,
            ),
    {
        find_unneeded_classified(self, keep_optional)
    }

    fn removal_closure(&self, targets: &[&str], keep_optional: bool) -> (r: Vec<&Package>)
        ensures
            exists|v: Set<int>, rem: Set<int>|
                #![trigger is_needed_set(self@.pkgs, keep_optional, v), is_removal_set(self@.pkgs, complement(self@.pkgs, v), target_set(self@.pkgs, complement(self@.pkgs, v), targets@), rem)]
                is_needed_set(self@.pkgs, keep_optional, v) && is_removal_set(
                    self@.pkgs,
                    complement(self@.pkgs, v),
                    target_set(self@.pkgs, complement(self@.pkgs, v), targets@),
                    rem,
                ) && ref_views(r@) == inside(self@.pkgs, rem, self@.pkgs.len() as int),
    {
        removal_closure(self, targets, keep_optional)
    }
}

/// The unneeded packages of a database are determined by it: any two
/// lists that meet `unneeded_pkgs` are equal. So [`find_unneeded`] and the
/// packages of [`find_unneeded_classified`] agree, item for item.
pub proof fn lemma_unneeded_pkgs_unique(
    pkgs: Seq<PackageSpec>,
    keep_optional: bool,
    r1: Seq<PackageSpec>,
    r2: Seq<PackageSpec>,
)
    requires
        unneeded_pkgs(pkgs, keep_optional, r1),
        unneeded_pkgs(pkgs, keep_optional, r2),
    ensures
        r1 == r2,
{
    let v = choose|v: Set<int>|
        is_needed_set(pkgs, keep_optional, v) && r1 == outside(pkgs, v, pkgs.len() as int);
    let w = choose|w: Set<int>|
        is_needed_set(pkgs, keep_optional, w) && r2 == outside(pkgs, w, pkgs.len() as int);
    lemma_needed_set_unique(pkgs, keep_optional, v, w);
}

/// The needed set holds every explicitly installed package, and with each
/// package it holds every package that meets one of its hard
/// dependencies, whatever the reason that package was installed.
pub proof fn lemma_needed_follows_depends(
    pkgs: Seq<PackageSpec>,
    keep_optional: bool,
    v: Set<int>,
    i: int,
    j: int,
    k: int,
)
    requires
        is_needed_set(pkgs, keep_optional, v),
        0 <= i < pkgs.len(),
        0 <= j < pkgs.len(),
    ensures
        pkgs[i].reason == PackageReason::Explicit ==> v.contains(i),
        v.contains(i) && 0 <= k < pkgs[i].depends.len() && dep_met_by(pkgs[i].depends[k], pkgs[j])
            ==> v.contains(j),
{
    if v.contains(i) && 0 <= k < pkgs[i].depends.len() && dep_met_by(pkgs[i].depends[k], pkgs[j]) {
        assert(pkg_deps(pkgs[i], keep_optional)[k] == pkgs[i].depends[k]);
        assert(needs(pkgs, keep_optional, i, j));
    }
}

/// When optional dependencies are followed, the needed set holds, with
/// each package, every package that meets one of its optional
/// dependencies, whether that package was installed explicitly or as a
/// dependency.
pub proof fn lemma_needed_follows_optdepends(pkgs: Seq<PackageSpec>, v: Set<int>, i: int, j: int, k: int)
    requires
        is_needed_set(pkgs, true, v),
        v.contains(i),
        0 <= i < pkgs.len(),
        0 <= j < pkgs.len(),
        0 <= k < pkgs[i].optdepends.len(),
        dep_met_by(pkgs[i].optdepends[k], pkgs[j]),
    ensures
        v.contains(j),
{
    let n = pkgs[i].depends.len() as int;
    assert(pkg_deps(pkgs[i], true)[n + k] == pkgs[i].optdepends[k]);
    assert(needs(pkgs, true, i, j));
}

} // verus!
