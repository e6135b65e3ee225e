//! Dependencies: `name`, an optional version constraint and an optional
//! description, written `name[op version][: description]`.
use std::marker::PhantomData;
use vstd::prelude::*;

use crate::text::{chars_of, push_str, string_of};

verus! {

/// The comparison a dependency makes against a version.
#[derive(Debug, Eq, PartialEq, Structural, Copy, Clone, Ord, PartialOrd, Hash)]
pub enum DepMod {
    /// Any version.
    Any,
    /// `=`
    Eq,
    /// `>=`
    Ge,
    /// `<=`
    Le,
    /// `>`
    Gt,
    /// `<`
    Lt,
}

/// The abstract value of a dependency.
pub struct DepSpec {
    /// The name that is depended on.
    pub name: Seq<char>,
    /// The comparison against the version.
    pub depmod: DepMod,
    /// The version compared against, if any.
    pub version: Option<Seq<char>>,
    /// The description, if any.
    pub desc: Option<Seq<char>>,
}

/// The first index at or after `i` where `": "` starts.
pub open spec fn find_desc_sep(s: Seq<char>, i: int) -> Option<int>
    decreases s.len() - i,
{
    if i < 0 || i + 1 >= s.len() {
        None
    } else if s[i] == ':' && s[i + 1] == ' ' {
        Some(i)
    } else {
        find_desc_sep(s, i + 1)
    }
}

/// The first index in `[i, end)` that holds `c`.
pub open spec fn find_char(s: Seq<char>, c: char, i: int, end: int) -> Option<int>
    decreases end - i,
{
    if i < 0 || i >= end || i >= s.len() {
        None
    } else if s[i] == c {
        Some(i)
    } else {
        find_char(s, c, i + 1, end)
    }
}

/// The dependency with comparison `m` whose operator ends at `v`, where
/// the name ends at `p` and the part before the description at `end`.
pub open spec fn dep_with_op(s: Seq<char>, p: int, m: DepMod, v: int, end: int, desc: Option<
    Seq<char>,
>) -> DepSpec {
    DepSpec { name: s.subrange(0, p), depmod: m, version: Some(s.subrange(v, end)), desc }
}

/// How a dependency string is read: the description follows the first
/// `": "`; before it, the first `<` gives `<=` or `<`, otherwise the first
/// `>` gives `>=` or `>`, otherwise the first `=` gives `=`; the name is
/// what precedes the operator and the version what follows it.
pub open spec fn parse_dep(s: Seq<char>) -> DepSpec {
    let end = match find_desc_sep(s, 0) {
        Some(d) => d,
        None => s.len() as int,
    };
    let desc = match find_desc_sep(s, 0) {
        Some(d) => Some(s.subrange(d + 2, s.len() as int)),
        None => None,
    };
    match find_char(s, '<', 0, end) {
        Some(p) => if p + 1 < end && s[p + 1] == '=' {
            dep_with_op(s, p, DepMod::Le, p + 2, end, desc)
        } else {
            dep_with_op(s, p, DepMod::Lt, p + 1, end, desc)
        },
        None => match find_char(s, '>', 0, end) {
            Some(p) => if p + 1 < end && s[p + 1] == '=' {
                dep_with_op(s, p, DepMod::Ge, p + 2, end, desc)
            } else {
                dep_with_op(s, p, DepMod::Gt, p + 1, end, desc)
            },
            None => match find_char(s, '=', 0, end) {
                Some(p) => dep_with_op(s, p, DepMod::Eq, p + 1, end, desc),
                None => DepSpec {
                    name: s.subrange(0, end),
                    depmod: DepMod::Any,
                    version: None,
                    desc,
                },
            },
        },
    }
}

/// The text of a comparison operator.
pub open spec fn op_text(m: DepMod) -> Seq<char> {
    match m {
        DepMod::Any => seq![],
        DepMod::Eq => seq!['='],
        DepMod::Ge => seq!['>', '='],
        DepMod::Le => seq!['<', '='],
        DepMod::Gt => seq!['>'],
        DepMod::Lt => seq!['<'],
    }
}

/// How a dependency is written: name, operator, version (unless the
/// comparison is `Any`), then `": "` and the description if there is one.
pub open spec fn dep_text(d: DepSpec) -> Seq<char> {
    let ver = match d.version {
        Some(v) => if d.depmod != DepMod::Any {
            v
        } else {
            seq![]
        },
        None => seq![],
    };
    let desc = match d.desc {
        Some(t) => seq![':', ' '] + t,
        None => seq![],
    };
    d.name + op_text(d.depmod) + ver + desc
}

/// A dependency, borrowed from a package, a list or an owned [`Depend`].
#[derive(Debug, PartialEq, Eq, Hash)]
pub struct Dep<'a> {
    name: String,
    depmod: DepMod,
    version: Option<String>,
    desc: Option<String>,
    marker: PhantomData<&'a ()>,
}

impl<'a> Clone for Dep<'a> {
    fn clone(&self) -> (r: Self)
        ensures
            r@ == self@,
    {
        proof {
            use_type_invariant(self);
        }
        Dep {
            name: self.name.clone(),
            depmod: self.depmod,
            version: match &self.version {
                Some(v) => Some(v.clone()),
                None => None,
            },
            desc: match &self.desc {
                Some(v) => Some(v.clone()),
                None => None,
            },
            marker: PhantomData,
        }
    }
}

impl<'a> View for Dep<'a> {
    type V = DepSpec;

    closed spec fn view(&self) -> DepSpec {
        DepSpec {
            name: self.name@,
            depmod: self.depmod,
            version: match self.version {
                Some(v) => Some(v@),
                None => None,
            },
            desc: match self.desc {
                Some(v) => Some(v@),
                None => None,
            },
        }
    }
}

/// A dependency read from text: a version is present exactly when there is
/// a comparison.
pub open spec fn dep_wf(d: DepSpec) -> bool {
    (d.depmod == DepMod::Any) == (d.version is None)
}

/// A string held as an `Option`, by its characters.
pub open spec fn opt_view(o: Option<String>) -> Option<Seq<char>> {
    match o {
        Some(v) => Some(v@),
        None => None,
    }
}

impl<'a> Dep<'a> {
    /// A dependency always has a version exactly when it has a comparison,
    /// and its text reads back as itself: every dependency is one that was
    /// read from some text.
    #[verifier::type_invariant]
    closed spec fn inv(self) -> bool {
        &&& dep_wf(self@)
        &&& parse_dep(dep_text(self@)) == self@
    }

    /// Reads a dependency from its text.
    pub fn parse(s: &str) -> (d: Dep<'a>)
        ensures
            d@ == parse_dep(s@),
    {
        let cs = chars_of(s);
        let n = cs.len();
        let sep = find_desc_sep_in(&cs);
        let end = match sep {
            Some(d) => d,
            None => n,
        };
        let desc = match sep {
            Some(d) => Some(string_of(&cs, d + 2, n)),
            None => None,
        };
        let ghost dv = match sep {
            Some(d) => Some(s@.subrange(d + 2, s@.len() as int)),
            None => None,
        };
        assert(opt_view(desc) == dv);
        let (p, m, v) = match find_char_in(&cs, '<', end) {
            Some(p) => if p + 1 < end && cs[p + 1] == '=' {
                (p, DepMod::Le, p + 2)
            } else {
                (p, DepMod::Lt, p + 1)
            },
            None => match find_char_in(&cs, '>', end) {
                Some(p) => if p + 1 < end && cs[p + 1] == '=' {
                    (p, DepMod::Ge, p + 2)
                } else {
                    (p, DepMod::Gt, p + 1)
                },
                None => match find_char_in(&cs, '=', end) {
                    Some(p) => (p, DepMod::Eq, p + 1),
                    None => (end, DepMod::Any, end),
                },
            },
        };
        let version = if m == DepMod::Any {
            None
        } else {
            Some(string_of(&cs, v, end))
        };
        proof {
            lemma_parse_dep_text(s@);
        }
        Dep { name: string_of(&cs, 0, p), depmod: m, version, desc, marker: PhantomData }
    }

    /// The name that is depended on.
    pub fn name(&self) -> (r: &str)
        ensures
            r@ == self@.name,
    {
        self.name.as_str()
    }

    /// The version compared against, if there is a comparison.
    pub fn version(&self) -> (r: Option<&str>)
        ensures
            r matches Some(v) ==> self@.version == Some(v@),
            r is None ==> self@.version is None,
    {
        match &self.version {
            Some(v) => Some(v.as_str()),
            None => None,
        }
    }

    /// The description of the dependency.
    pub fn desc(&self) -> (r: &str)
        requires
            self@.desc is Some,
        ensures
            self@.desc == Some(r@),
    {
        match &self.desc {
            Some(v) => v.as_str(),
            None => "",
        }
    }

    /// The comparison made against the version.
    pub fn depmod(&self) -> (r: DepMod)
        ensures
            r == self@.depmod,
    {
        self.depmod
    }

    /// The comparison together with the version it is made against.
    pub fn depmodver(&self) -> (r: DepModVer<'_>)
        ensures
            r.depmod_of() == self@.depmod,
            r.version_of() == self@.version,
    {
        proof {
            use_type_invariant(self);
        }
        match &self.version {
            Some(v) => {
                let v = v.as_str();
                match self.depmod {
                    DepMod::Eq => DepModVer::Eq(v),
                    DepMod::Ge => DepModVer::Ge(v),
                    DepMod::Le => DepModVer::Le(v),
                    DepMod::Gt => DepModVer::Gt(v),
                    DepMod::Lt => DepModVer::Lt(v),
                    DepMod::Any => DepModVer::Any,
                }
            },
            None => DepModVer::Any,
        }
    }

    /// The text of the dependency, as [`dep_text`] writes it.
    pub fn to_string(&self) -> (r: String)
        ensures
            r@ == dep_text(self@),
    {
        let mut r = String::new();
        push_str(&mut r, self.name.as_str());
        let op = match self.depmod {
            DepMod::Any => "",
            DepMod::Eq => "=",
            DepMod::Ge => ">=",
            DepMod::Le => "<=",
            DepMod::Gt => ">",
            DepMod::Lt => "<",
        };
        proof {
            reveal_strlit("");
            reveal_strlit("=");
            reveal_strlit(">=");
            reveal_strlit("<=");
            reveal_strlit(">");
            reveal_strlit("<");
        }
        push_str(&mut r, op);
        if self.depmod != DepMod::Any {
            match &self.version {
                Some(v) => push_str(&mut r, v.as_str()),
                None => {},
            }
        }
        match &self.desc {
            Some(t) => {
                proof {
                    reveal_strlit(": ");
                }
                push_str(&mut r, ": ");
                push_str(&mut r, t.as_str());
            },
            None => {},
        }
        r
    }
}

impl<'a> Dep<'a> {
    /// An owned copy of this dependency, read back from its text.
    pub fn to_depend(&self) -> (r: Depend)
        ensures
            r@ == parse_dep(dep_text(self@)),
            r@ == self@,
    {
        proof {
            use_type_invariant(self);
        }
        let text = self.to_string();
        Depend::new(text.as_str())
    }
}

/// An owned dependency.
#[derive(Debug, PartialEq, Eq, Hash)]
pub struct Depend {
    dep: Dep<'static>,
}

impl Clone for Depend {
    fn clone(&self) -> (r: Depend)
        ensures
            r@ == self@,
    {
        Depend { dep: self.dep.clone() }
    }
}

impl View for Depend {
    type V = DepSpec;

    closed spec fn view(&self) -> DepSpec {
        self.dep@
    }
}

impl Depend {
    /// Reads a dependency from text such as `foo>=1.0-2: for bar`.
    pub fn new(s: &str) -> (r: Depend)
        ensures
            r@ == parse_dep(s@),
    {
        Depend { dep: Dep::parse(s) }
    }

    /// The dependency this value owns.
    pub fn as_dep(&self) -> (r: &Dep<'static>)
        ensures
            r@ == self@,
    {
        &self.dep
    }
}

impl std::ops::Deref for Depend {
    type Target = Dep<'static>;

    fn deref(&self) -> (r: &Dep<'static>)
        ensures
            r@ == self@,
    {
        &self.dep
    }
}

/// Types that can be viewed as a [`Dep`].
pub trait AsDep {
    /// The dependency.
    fn as_dep(&self) -> &Dep<'_>;
}

impl AsDep for Depend {
    fn as_dep(&self) -> (r: &Dep<'_>)
        ensures
            r@ == self@,
    {
        &self.dep
    }
}

impl<'a> AsDep for Dep<'a> {
    fn as_dep(&self) -> (r: &Dep<'_>)
        ensures
            r@ == self@,
    {
        self
    }
}

impl<'a> AsDep for &Dep<'a> {
    fn as_dep(&self) -> (r: &Dep<'_>)
        ensures
            r@ == (**self)@,
    {
        *self
    }
}

/// A dependency of a package that nothing satisfies.
#[derive(Debug, Clone, PartialEq, Eq)]
pub struct DepMissing {
    target: String,
    depend: Depend,
    causing_pkg: Option<String>,
}

impl DepMissing {
    /// Records that `target` has the unsatisfied dependency `depend`,
    /// because of `causing_pkg` where one is known.
    pub fn new(target: &str, depend: Depend, causing_pkg: Option<&str>) -> (r: DepMissing)
        ensures
            r.target_name() == target@,
            r.dep_view() == depend@,
            r.causing_name() == (match causing_pkg {
                Some(c) => Some(c@),
                None => None,
            }),
    {
        DepMissing {
            target: target.to_owned(),
            depend,
            causing_pkg: match causing_pkg {
                Some(c) => Some(c.to_owned()),
                None => None,
            },
        }
    }

    /// The package whose dependency is missing.
    pub closed spec fn target_name(&self) -> Seq<char> {
        self.target@
    }

    /// The missing dependency.
    pub closed spec fn dep_view(&self) -> DepSpec {
        self.depend@
    }

    /// The package that caused the dependency to go missing, if known.
    pub closed spec fn causing_name(&self) -> Option<Seq<char>> {
        opt_view(self.causing_pkg)
    }

    /// The package whose dependency is missing.
    pub fn target(&self) -> (r: &str)
        ensures
            r@ == self.target_name(),
    {
        self.target.as_str()
    }

    /// The missing dependency.
    pub fn depend(&self) -> (r: &Dep<'_>)
        ensures
            r@ == self.dep_view(),
    {
        self.depend.as_dep()
    }

    /// The package that caused the dependency to go missing, if known.
    pub fn causing_pkg(&self) -> (r: Option<&str>)
        ensures
            r matches Some(c) ==> self.causing_name() == Some(c@),
            r is None ==> self.causing_name() is None,
    {
        match &self.causing_pkg {
            Some(c) => Some(c.as_str()),
            None => None,
        }
    }
}

/// An owned [`DepMissing`].
#[derive(Debug, Clone, PartialEq, Eq)]
pub struct DependMissing {
    inner: DepMissing,
}

impl DependMissing {
    /// Takes ownership of a missing dependency.
    pub fn new(inner: DepMissing) -> (r: DependMissing)
        ensures
            r.missing() == inner,
    {
        DependMissing { inner }
    }

    /// The missing dependency.
    pub closed spec fn missing(&self) -> DepMissing {
        self.inner
    }

    /// The missing dependency.
    pub fn as_missing(&self) -> (r: &DepMissing)
        ensures
            *r == self.missing(),
    {
        &self.inner
    }
}

/// The first index where `": "` starts in `cs`.
fn find_desc_sep_in(cs: &Vec<char>) -> (r: Option<usize>)
    ensures
        r matches Some(d) ==> find_desc_sep(cs@, 0) == Some(d as int) && d + 1 < cs.len(),
        r is None ==> find_desc_sep(cs@, 0) is None,
{
    let mut i: usize = 0;
    while i < cs.len() && i + 1 < cs.len()
        invariant
            i <= cs.len(),
            find_desc_sep(cs@, 0) == find_desc_sep(cs@, i as int),
        decreases cs.len() - i,
    {
        if cs[i] == ':' && cs[i + 1] == ' ' {
            return Some(i);
        }
        i = i + 1;
    }
    None
}

/// The first index before `end` where `cs` holds `c`.
fn find_char_in(cs: &Vec<char>, c: char, end: usize) -> (r: Option<usize>)
    requires
        end <= cs.len(),
    ensures
        r matches Some(p) ==> find_char(cs@, c, 0, end as int) == Some(p as int) && p < end,
        r is None ==> find_char(cs@, c, 0, end as int) is None,
{
    let mut i: usize = 0;
    while i < end
        invariant
            i <= end <= cs.len(),
            find_char(cs@, c, 0, end as int) == find_char(cs@, c, i as int, end as int),
        decreases end - i,
    {
        if cs[i] == c {
            return Some(i);
        }
        i = i + 1;
    }
    None
}

/// A comparison together with the version it is made against.
#[derive(Debug, Eq, PartialEq, Copy, Clone, Ord, PartialOrd, Hash)]
pub enum DepModVer<'a> {
    /// Any version.
    Any,
    /// `=`
    Eq(&'a str),
    /// `>=`
    Ge(&'a str),
    /// `<=`
    Le(&'a str),
    /// `>`
    Gt(&'a str),
    /// `<`
    Lt(&'a str),
}

impl<'a> DepModVer<'a> {
    /// The comparison.
    pub open spec fn depmod_of(self) -> DepMod {
        match self {
            DepModVer::Any => DepMod::Any,
            DepModVer::Eq(_) => DepMod::Eq,
            DepModVer::Ge(_) => DepMod::Ge,
            DepModVer::Le(_) => DepMod::Le,
            DepModVer::Gt(_) => DepMod::Gt,
            DepModVer::Lt(_) => DepMod::Lt,
        }
    }

    /// The version compared against.
    pub open spec fn version_of(self) -> Option<Seq<char>> {
        match self {
            DepModVer::Any => None,
            DepModVer::Eq(v) => Some(v@),
            DepModVer::Ge(v) => Some(v@),
            DepModVer::Le(v) => Some(v@),
            DepModVer::Gt(v) => Some(v@),
            DepModVer::Lt(v) => Some(v@),
        }
    }

    /// The comparison without the version.
    pub fn depmod(self) -> (r: DepMod)
        ensures
            r == self.depmod_of(),
    {
        match self {
            DepModVer::Any => DepMod::Any,
            DepModVer::Eq(_) => DepMod::Eq,
            DepModVer::Ge(_) => DepMod::Ge,
            DepModVer::Le(_) => DepMod::Le,
            DepModVer::Gt(_) => DepMod::Gt,
            DepModVer::Lt(_) => DepMod::Lt,
        }
    }
}

/// Whether `s` holds none of the characters that start a comparison.
pub open spec fn no_op_chars(s: Seq<char>) -> bool {
    forall|k: int| 0 <= k < s.len() ==> s[k] != '<' && s[k] != '>' && s[k] != '='
}

/// Whether `s` holds no `": "`.
pub open spec fn no_desc_sep(s: Seq<char>) -> bool {
    forall|k: int| 0 <= k && k + 1 < s.len() ==> !(#[trigger] s[k] == ':' && s[k + 1] == ' ')
}

/// A dependency whose text reads back as itself: a version exactly with a
/// comparison, and neither the name nor the version holding a comparison
/// character or `": "`.
pub open spec fn dep_is_plain(d: DepSpec) -> bool {
    &&& dep_wf(d)
    &&& no_op_chars(d.name)
    &&& no_desc_sep(d.name)
    &&& d.version matches Some(v) ==> no_op_chars(v) && no_desc_sep(v)
}

/// `find_char` finds nothing in a range that holds no `c`.
pub(crate) proof fn lemma_find_char_absent(s: Seq<char>, c: char, i: int, end: int)
    requires
        0 <= i,
        end <= s.len(),
        forall|k: int| i <= k < end ==> s[k] != c,
    ensures
        find_char(s, c, i, end) is None,
    decreases end - i,
{
    if i < end {
        lemma_find_char_absent(s, c, i + 1, end);
    }
}

/// `find_char` finds `c` at `p` when it stands there and nowhere in `[i, p)`.
pub(crate) proof fn lemma_find_char_at(s: Seq<char>, c: char, i: int, p: int, end: int)
    requires
        0 <= i <= p < end <= s.len(),
        s[p] == c,
        forall|k: int| i <= k < p ==> s[k] != c,
    ensures
        find_char(s, c, i, end) == Some(p),
    decreases p - i,
{
    if i < p {
        lemma_find_char_at(s, c, i + 1, p, end);
    }
}

/// `find_desc_sep` finds nothing where no `": "` starts at or after `i`.
proof fn lemma_find_desc_sep_absent(s: Seq<char>, i: int)
    requires
        0 <= i,
        forall|k: int| i <= k && k + 1 < s.len() ==> !(#[trigger] s[k] == ':' && s[k + 1] == ' '),
    ensures
        find_desc_sep(s, i) is None,
    decreases s.len() - i,
{
    if i + 1 < s.len() {
        lemma_find_desc_sep_absent(s, i + 1);
    }
}

/// `find_desc_sep` finds the `": "` at `p` when none starts in `[i, p)`.
proof fn lemma_find_desc_sep_at(s: Seq<char>, i: int, p: int)
    requires
        0 <= i <= p,
        p + 1 < s.len(),
        s[p] == ':' && s[p + 1] == ' ',
        forall|k: int| i <= k < p ==> !(#[trigger] s[k] == ':' && s[k + 1] == ' '),
    ensures
        find_desc_sep(s, i) == Some(p),
    decreases p - i,
{
    if i < p {
        lemma_find_desc_sep_at(s, i + 1, p);
    }
}

/// The text of a plain dependency reads back as the same dependency.
pub proof fn lemma_dep_text_roundtrip(d: DepSpec)
    requires
        dep_is_plain(d),
    ensures
        parse_dep(dep_text(d)) == d,
{
    let ver = match d.version {
        Some(v) => v,
        None => seq![],
    };
    let op = op_text(d.depmod);
    let head = d.name + op + ver;
    let tail = match d.desc {
        Some(t) => seq![':', ' '] + t,
        None => seq![],
    };
    let s = dep_text(d);
    assert(s =~= head + tail);
    let n = d.name.len() as int;
    let h = head.len() as int;
    assert(no_op_chars(ver) && no_desc_sep(ver));
    // No `": "` starts inside the head.
    assert forall|k: int| 0 <= k < h && k + 1 < s.len() implies !(#[trigger] s[k] == ':' && s[k
        + 1] == ' ') by {
        if k + 1 == h {
            assert(s[k + 1] == tail[0]);
        } else if k + 1 < n {
            assert(s[k] == d.name[k] && s[k + 1] == d.name[k + 1]);
        } else if k + 1 == n {
            assert(s[k + 1] == op[0]);
        } else if k < n + op.len() {
            assert(s[k] == op[k - n]);
        } else {
            assert(s[k] == ver[k - n - op.len()] && s[k + 1] == ver[k + 1 - n - op.len()]);
        }
    }
    match d.desc {
        Some(t) => {
            assert(s[h] == ':' && s[h + 1] == ' ');
            lemma_find_desc_sep_at(s, 0, h);
            assert(s.subrange(h + 2, s.len() as int) =~= t);
        },
        None => {
            lemma_find_desc_sep_absent(s, 0);
        },
    }
    assert(s.subrange(0, n) =~= d.name);
    assert forall|k: int| 0 <= k < n implies s[k] != '<' && s[k] != '>' && s[k] != '=' by {
        assert(s[k] == d.name[k]);
    }
    match d.depmod {
        DepMod::Any => {
            assert(head =~= d.name);
            lemma_find_char_absent(s, '<', 0, h);
            lemma_find_char_absent(s, '>', 0, h);
            lemma_find_char_absent(s, '=', 0, h);
        },
        _ => {
            let vs = n + op.len();
            assert forall|k: int| vs <= k < h implies s[k] != '<' && s[k] != '>' && s[k] != '='
                by {
                assert(s[k] == ver[k - vs]);
            }
            assert(s.subrange(vs, h) =~= ver);
            match d.depmod {
                DepMod::Le => {
                    lemma_find_char_at(s, '<', 0, n, h);
                },
                DepMod::Lt => {
                    lemma_find_char_at(s, '<', 0, n, h);
                },
                DepMod::Ge => {
                    lemma_find_char_absent(s, '<', 0, h);
                    lemma_find_char_at(s, '>', 0, n, h);
                },
                DepMod::Gt => {
                    lemma_find_char_absent(s, '<', 0, h);
                    lemma_find_char_at(s, '>', 0, n, h);
                },
                DepMod::Eq => {
                    lemma_find_char_absent(s, '<', 0, h);
                    lemma_find_char_absent(s, '>', 0, h);
                    lemma_find_char_at(s, '=', 0, n, h);
                },
                DepMod::Any => {},
            }
        },
    }
}

/// What `find_char` finds holds `c` and lies in the range.
pub(crate) proof fn lemma_find_char_found(s: Seq<char>, c: char, i: int, end: int)
    ensures
        find_char(s, c, i, end) matches Some(p) ==> i <= p < end && p < s.len() && s[p] == c,
    decreases end - i,
{
    if 0 <= i < end && i < s.len() && s[i] != c {
        lemma_find_char_found(s, c, i + 1, end);
    }
}

/// What `find_desc_sep` finds is a `": "` at or after `i`.
proof fn lemma_find_desc_sep_found(s: Seq<char>, i: int)
    ensures
        find_desc_sep(s, i) matches Some(d) ==> i <= d && d + 1 < s.len() && s[d] == ':' && s[d
            + 1] == ' ',
    decreases s.len() - i,
{
    if 0 <= i && i + 1 < s.len() && !(s[i] == ':' && s[i + 1] == ' ') {
        lemma_find_desc_sep_found(s, i + 1);
    }
}

/// Writing out a dependency read from a text gives back that text.
pub proof fn lemma_parse_dep_text(s: Seq<char>)
    ensures
        dep_text(parse_dep(s)) == s,
{
    lemma_find_desc_sep_found(s, 0);
    let end = match find_desc_sep(s, 0) {
        Some(d) => d,
        None => s.len() as int,
    };
    let d = parse_dep(s);
    let tail = match d.desc {
        Some(t) => seq![':', ' '] + t,
        None => seq![],
    };
    assert(tail =~= s.subrange(end, s.len() as int));
    lemma_find_char_found(s, '<', 0, end);
    lemma_find_char_found(s, '>', 0, end);
    lemma_find_char_found(s, '=', 0, end);
    match find_char(s, '<', 0, end) {
        Some(p) => {
            if p + 1 < end && s[p + 1] == '=' {
                assert(s.subrange(0, end) =~= s.subrange(0, p) + seq!['<', '='] + s.subrange(
                    p + 2,
                    end,
                ));
            } else {
                assert(s.subrange(0, end) =~= s.subrange(0, p) + seq!['<'] + s.subrange(
                    p + 1,
                    end,
                ));
            }
        },
        None => match find_char(s, '>', 0, end) {
            Some(p) => {
                if p + 1 < end && s[p + 1] == '=' {
                    assert(s.subrange(0, end) =~= s.subrange(0, p) + seq!['>', '='] + s.subrange(
                        p + 2,
                        end,
                    ));
                } else {
                    assert(s.subrange(0, end) =~= s.subrange(0, p) + seq!['>'] + s.subrange(
                        p + 1,
                        end,
                    ));
                }
            },
            None => match find_char(s, '=', 0, end) {
                Some(p) => {
                    assert(s.subrange(0, end) =~= s.subrange(0, p) + seq!['='] + s.subrange(
                        p + 1,
                        end,
                    ));
                },
                None => {},
            },
        },
    }
    assert(s =~= s.subrange(0, end) + s.subrange(end, s.len() as int));
}

} // verus!
