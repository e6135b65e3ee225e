//! Whether a dependency is met by a package or by something a package
//! provides.
use std::cmp::Ordering;
use vstd::prelude::*;
use vstd::utf8::encode_utf8;

use crate::deps::{find_char, Dep, DepMod, DepModVer, DepSpec, Depend};
use crate::text::{chars_of, str_eq};
use crate::version::{
    lemma_version_order_antisymmetric, lemma_version_order_reflexive, lemma_version_order_sign,
    ordering_of, vercmp, version_order,
};

verus! {

/// The part of a version before its first `-`.
pub open spec fn before_dash(v: Seq<char>) -> Seq<char> {
    match find_char(v, '-', 0, v.len() as int) {
        Some(p) => v.subrange(0, p),
        None => v,
    }
}

/// The version a dependency compares against; empty when it has none.
pub open spec fn dep_version_text(d: DepSpec) -> Seq<char> {
    match d.version {
        Some(v) => v,
        None => seq![],
    }
}

/// The order of version `v` against version `w`: -1, 0 or 1.
pub open spec fn order_of(v: Seq<char>, w: Seq<char>) -> int {
    version_order(encode_utf8(v), encode_utf8(w))
}

/// Whether version `v` meets the version constraint of `d`. An `=`
/// constraint is met by the same text, or by a version whose part before
/// the first `-` is that text; the other constraints compare versions.
pub open spec fn ver_satisfies(d: DepSpec, v: Seq<char>) -> bool {
    let w = dep_version_text(d);
    match d.depmod {
        DepMod::Any => true,
        DepMod::Eq => v == w || before_dash(v) == w,
        DepMod::Ge => order_of(v, w) >= 0,
        DepMod::Le => order_of(v, w) <= 0,
        DepMod::Gt => order_of(v, w) > 0,
        DepMod::Lt => order_of(v, w) < 0,
    }
}

/// Whether a package called `name` at `version` meets `d`.
pub open spec fn dep_satisfied(d: DepSpec, name: Seq<char>, version: Seq<char>) -> bool {
    d.name == name && ver_satisfies(d, version)
}

/// Whether the provision `p` meets `d`: same name, and either neither has
/// a version or the provided version meets `d`.
pub open spec fn provide_satisfied(d: DepSpec, p: DepSpec) -> bool {
    d.name == p.name && match p.version {
        None => d.version is None,
        Some(v) => ver_satisfies(d, v),
    }
}

/// Whether some provision in `provides` meets `d`.
pub open spec fn some_provide_satisfies(d: DepSpec, provides: Seq<DepSpec>) -> bool {
    exists|k: int| 0 <= k < provides.len() && provide_satisfied(d, #[trigger] provides[k])
}

/// Whether some provision in `provides` has the name that `d` needs.
pub open spec fn some_provide_named(d: DepSpec, provides: Seq<DepSpec>) -> bool {
    exists|k: int| 0 <= k < provides.len() && (#[trigger] provides[k]).name == d.name
}

/// The views of a list of owned dependencies.
pub open spec fn depend_views(ds: Seq<Depend>) -> Seq<DepSpec> {
    ds.map_values(|d: Depend| d@)
}

/// Whether the part of `version` before its first `-` is `w`.
fn before_dash_is(version: &str, w: &str) -> (r: bool)
    ensures
        r == (before_dash(version@) == w@),
{
    let v = chars_of(version);
    let x = chars_of(w);
    let mut end: usize = 0;
    while end < v.len() && v[end] != '-'
        invariant
            end <= v.len(),
            v@ == version@,
            find_char(v@, '-', 0, v@.len() as int) == find_char(v@, '-', end as int, v@.len() as int),
        decreases v.len() - end,
    {
        end = end + 1;
    }
    assert(before_dash(version@) =~= v@.subrange(0, end as int));
    if end != x.len() {
        assert(before_dash(version@).len() == end);
        assert(w@.len() == x.len());
        return false;
    }
    let mut i: usize = 0;
    while i < end
        invariant
            i <= end <= v.len(),
            end == x.len(),
            v@ == version@,
            x@ == w@,
            before_dash(version@) == v@.subrange(0, end as int),
            forall|m: int| 0 <= m < i ==> v@[m] == x@[m],
        decreases end - i,
    {
        if v[i] != x[i] {
            assert(before_dash(version@)[i as int] != w@[i as int]);
            return false;
        }
        i = i + 1;
    }
    assert(before_dash(version@) =~= x@);
    true
}

/// Whether `version` meets the version constraint of `dep`.
pub fn satisfies_ver(dep: &Dep<'_>, version: &str) -> (r: bool)
    ensures
        r == ver_satisfies(dep@, version@),
{
    match dep.depmodver() {
        DepModVer::Any => true,
        DepModVer::Eq(w) => str_eq(version, w) || before_dash_is(version, w),
        DepModVer::Ge(w) => match vercmp(version, w) {
            Ordering::Less => false,
            _ => true,
        },
        DepModVer::Le(w) => match vercmp(version, w) {
            Ordering::Greater => false,
            _ => true,
        },
        DepModVer::Gt(w) => match vercmp(version, w) {
            Ordering::Greater => true,
            _ => false,
        },
        DepModVer::Lt(w) => match vercmp(version, w) {
            Ordering::Less => true,
            _ => false,
        },
    }
}

/// Checks if a dependency is satisfied by a package (name + version).
pub fn satisfies_dep(dep: &Dep<'_>, name: &str, version: &str) -> (r: bool)
    ensures
        r == dep_satisfied(dep@, name@, version@),
{
    if !str_eq(dep.name(), name) {
        return false;
    }
    satisfies_ver(dep, version)
}

/// Checks if a dependency is satisfied by a provide.
pub fn satisfies_provide(dep: &Dep<'_>, provide: &Dep<'_>) -> (r: bool)
    ensures
        r == provide_satisfied(dep@, provide@),
{
    if !str_eq(dep.name(), provide.name()) {
        return false;
    }
    if provide.version().is_none() && dep.version().is_some() {
        return false;
    }
    match provide.version() {
        None => dep.version().is_none(),
        Some(ver) => satisfies_ver(dep, ver),
    }
}

/// Checks if a dependency is satisfied by a package's name and version or
/// by one of its provisions.
pub fn satisfies(dep: &Dep<'_>, name: &str, version: &str, provides: &[Depend]) -> (r: bool)
    ensures
        r == (dep_satisfied(dep@, name@, version@) || some_provide_satisfies(
            dep@,
            depend_views(provides@),
        )),
{
    if satisfies_dep(dep, name, version) {
        return true;
    }
    let mut k: usize = 0;
    while k < provides.len()
        invariant
            k <= provides.len(),
            forall|m: int|
                0 <= m < k ==> !provide_satisfied(dep@, #[trigger] depend_views(provides@)[m]),
        decreases provides.len() - k,
    {
        if satisfies_provide(dep, provides[k].as_dep()) {
            assert(provide_satisfied(dep@, depend_views(provides@)[k as int]));
            return true;
        }
        k = k + 1;
    }
    false
}

/// Checks if a dependency is satisfied by a package's name or by the name
/// of one of its provisions, ignoring versions.
pub fn satisfies_nover(dep: &Dep<'_>, name: &str, provides: &[Depend]) -> (r: bool)
    ensures
        r == (dep@.name == name@ || some_provide_named(dep@, depend_views(provides@))),
{
    if satisfies_dep_nover(dep, name) {
        return true;
    }
    let mut k: usize = 0;
    while k < provides.len()
        invariant
            k <= provides.len(),
            forall|m: int| 0 <= m < k ==> (#[trigger] depend_views(provides@)[m]).name != dep@.name,
        decreases provides.len() - k,
    {
        if satisfies_provide_nover(dep, provides[k].as_dep()) {
            assert(depend_views(provides@)[k as int].name == dep@.name);
            return true;
        }
        k = k + 1;
    }
    false
}

/// Checks if a dependency is satisfied by a package (name only).
pub fn satisfies_dep_nover(dep: &Dep<'_>, name: &str) -> (r: bool)
    ensures
        r == (dep@.name == name@),
{
    str_eq(dep.name(), name)
}

/// Checks if a dependency is satisfied by a provide (name only).
pub fn satisfies_provide_nover(dep: &Dep<'_>, provide: &Dep<'_>) -> (r: bool)
    ensures
        r == (dep@.name == provide@.name),
{
    str_eq(dep.name(), provide.name())
}

/// What meets a dependency also meets it when versions are ignored.
pub proof fn lemma_satisfies_implies_nover(
    d: DepSpec,
    name: Seq<char>,
    version: Seq<char>,
    provides: Seq<DepSpec>,
)
    requires
        dep_satisfied(d, name, version) || some_provide_satisfies(d, provides),
    ensures
        d.name == name || some_provide_named(d, provides),
{
    if !dep_satisfied(d, name, version) {
        let k = choose|k: int| 0 <= k < provides.len() && provide_satisfied(d, #[trigger] provides[k]);
        assert(provides[k].name == d.name);
    }
}

/// A package meets a dependency on its own name whose comparison accepts
/// equal versions (`=`, `>=`, `<=`, or none) against its own version.
pub proof fn lemma_satisfies_own_version(d: DepSpec, name: Seq<char>, version: Seq<char>)
    requires
        d.name == name,
        d.depmod == DepMod::Any || d.version == Some(version),
        d.depmod != DepMod::Gt && d.depmod != DepMod::Lt,
    ensures
        dep_satisfied(d, name, version),
{
    lemma_version_order_reflexive(encode_utf8(version));
}

/// A constraint `m w` on a dependency called `name`.
pub open spec fn constraint(name: Seq<char>, m: DepMod, w: Seq<char>) -> DepSpec {
    DepSpec { name, depmod: m, version: Some(w), desc: None }
}

/// How version constraints relate: no comparison always holds; `<` holds
/// exactly when `vercmp` says older; `>` is the mirror of `<` and `>=` of
/// `<=`; `>` holds exactly when `<=` does not and `<` exactly when `>=`
/// does not; `<=` and `>=` hold of a version against itself, `<` and `>`
/// never do; and `=` holds of the same text and of a version whose part
/// before its first `-` is the text.
pub proof fn lemma_ver_satisfies_laws(name: Seq<char>, v: Seq<char>, w: Seq<char>)
    ensures
        ver_satisfies(DepSpec { name, depmod: DepMod::Any, version: None, desc: None }, v),
        ver_satisfies(constraint(name, DepMod::Lt, w), v) == (ordering_of(order_of(v, w))
            == Ordering::Less),
        ver_satisfies(constraint(name, DepMod::Gt, w), v) == ver_satisfies(
            constraint(name, DepMod::Lt, v),
            w,
        ),
        ver_satisfies(constraint(name, DepMod::Ge, w), v) == ver_satisfies(
            constraint(name, DepMod::Le, v),
            w,
        ),
        ver_satisfies(constraint(name, DepMod::Gt, w), v) == !ver_satisfies(
            constraint(name, DepMod::Le, w),
            v,
        ),
        ver_satisfies(constraint(name, DepMod::Lt, w), v) == !ver_satisfies(
            constraint(name, DepMod::Ge, w),
            v,
        ),
        ver_satisfies(constraint(name, DepMod::Le, v), v),
        ver_satisfies(constraint(name, DepMod::Ge, v), v),
        !ver_satisfies(constraint(name, DepMod::Lt, v), v),
        !ver_satisfies(constraint(name, DepMod::Gt, v), v),
        ver_satisfies(constraint(name, DepMod::Eq, v), v),
        before_dash(v) == w ==> ver_satisfies(constraint(name, DepMod::Eq, w), v),
{
    lemma_version_order_antisymmetric(encode_utf8(v), encode_utf8(w));
    lemma_version_order_reflexive(encode_utf8(v));
    lemma_version_order_sign(encode_utf8(v), encode_utf8(w));
}

} // verus!
