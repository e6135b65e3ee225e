//! Targets: a package to look for, optionally in a named repository,
//! written `repo/pkg` or `pkg`.
use vstd::prelude::*;

use crate::deps::{find_char, lemma_find_char_absent, lemma_find_char_at};
use crate::text::{chars_of, push_char, push_str};

verus! {

/// A string held as an `Option`, by its characters.
pub open spec fn opt_str_view(o: Option<&str>) -> Option<Seq<char>> {
    match o {
        Some(v) => Some(v@),
        None => None,
    }
}

/// The repository part of a target's text: what precedes the first `/`,
/// if there is one.
pub open spec fn targ_repo(s: Seq<char>) -> Option<Seq<char>> {
    match find_char(s, '/', 0, s.len() as int) {
        Some(p) => Some(s.subrange(0, p)),
        None => None,
    }
}

/// The package part of a target's text: the whole text when it holds no
/// `/`, otherwise what stands between the first `/` and the next one (or
/// the end).
pub open spec fn targ_pkg(s: Seq<char>) -> Seq<char> {
    match find_char(s, '/', 0, s.len() as int) {
        Some(p) => match find_char(s, '/', p + 1, s.len() as int) {
            Some(q) => s.subrange(p + 1, q),
            None => s.subrange(p + 1, s.len() as int),
        },
        None => s,
    }
}

/// How a target is written: `repo/pkg`, or `pkg` alone.
pub open spec fn targ_text(repo: Option<Seq<char>>, pkg: Seq<char>) -> Seq<char> {
    match repo {
        Some(r) => r + seq!['/'] + pkg,
        None => pkg,
    }
}

/// Whether `s` holds no `/`.
pub open spec fn no_slash(s: Seq<char>) -> bool {
    forall|i: int| 0 <= i < s.len() ==> s[i] != '/'
}

/// Generic access to a target, owned or borrowed.
pub trait AsTarg {
    /// The target as a borrowed [`Targ`].
    fn as_targ(&self) -> Targ<'_>;
}

/// A package to find, optionally from a specific repository.
#[derive(Clone, PartialOrd, Ord, PartialEq, Eq, Hash, Debug)]
pub struct Target {
    /// The repository the package should come from; `None` for any.
    pub repo: Option<String>,
    /// The name of the package, which may carry a version constraint.
    pub pkg: String,
}

impl Target {
    /// Creates a target.
    pub fn new(repo: Option<&str>, pkg: &str) -> (t: Target)
        ensures
            opt_str_view(repo) == match t.repo {
                Some(r) => Some(r@),
                None => None::<Seq<char>>,
            },
            t.pkg@ == pkg@,
    {
        let repo = match repo {
            Some(r) => Some(r.to_owned()),
            None => None,
        };
        Target { repo, pkg: pkg.to_owned() }
    }

    /// The text of the target, as [`targ_text`] writes it.
    pub fn to_string(&self) -> (r: String)
        ensures
            r@ == targ_text(
                match self.repo {
                    Some(x) => Some(x@),
                    None => None,
                },
                self.pkg@,
            ),
    {
        self.as_targ().to_string()
    }
}

impl AsTarg for Target {
    fn as_targ(&self) -> (t: Targ<'_>)
        ensures
            opt_str_view(t.repo) == match self.repo {
                Some(r) => Some(r@),
                None => None::<Seq<char>>,
            },
            t.pkg@ == self.pkg@,
    {
        let repo = match &self.repo {
            Some(r) => Some(r.as_str()),
            None => None,
        };
        Targ { repo, pkg: self.pkg.as_str() }
    }
}

/// A package to find, optionally from a specific repository, borrowed.
#[derive(Clone, Copy, PartialOrd, Ord, PartialEq, Eq, Hash, Debug)]
pub struct Targ<'a> {
    /// The repository the package should come from; `None` for any.
    pub repo: Option<&'a str>,
    /// The name of the package, which may carry a version constraint.
    pub pkg: &'a str,
}

/// The first index in `[i, end)` where `cs` holds a `/`.
fn find_slash(cs: &Vec<char>, i: usize, end: usize) -> (r: Option<usize>)
    requires
        i <= end <= cs.len(),
    ensures
        r matches Some(p) ==> find_char(cs@, '/', i as int, end as int) == Some(p as int) && i
            <= p < end,
        r is None ==> find_char(cs@, '/', i as int, end as int) is None,
{
    let mut k = i;
    while k < end
        invariant
            i <= k <= end <= cs.len(),
            find_char(cs@, '/', i as int, end as int) == find_char(cs@, '/', k as int, end as int),
        decreases end - k,
    {
        if cs[k] == '/' {
            return Some(k);
        }
        k = k + 1;
    }
    None
}

impl<'a> Targ<'a> {
    /// Creates a target.
    pub fn new(repo: Option<&'a str>, pkg: &'a str) -> (t: Targ<'a>)
        ensures
            t.repo == repo,
            t.pkg == pkg,
    {
        Targ { repo, pkg }
    }

    /// Reads a target from its text: `repo/pkg` names a repository, a
    /// text without `/` names only a package.
    pub fn from(s: &'a str) -> (t: Targ<'a>)
        ensures
            opt_str_view(t.repo) == targ_repo(s@),
            t.pkg@ == targ_pkg(s@),
    {
        let cs = chars_of(s);
        let n = cs.len();
        match find_slash(&cs, 0, n) {
            None => Targ { repo: None, pkg: s },
            Some(p) => {
                let repo = s.substring_char(0, p);
                let q = match find_slash(&cs, p + 1, n) {
                    Some(q) => q,
                    None => n,
                };
                let pkg = s.substring_char(p + 1, q);
                Targ { repo: Some(repo), pkg }
            },
        }
    }

    /// The text of the target, as [`targ_text`] writes it.
    pub fn to_string(&self) -> (r: String)
        ensures
            r@ == targ_text(opt_str_view(self.repo), self.pkg@),
    {
        let mut r = String::new();
        match self.repo {
            Some(repo) => {
                push_str(&mut r, repo);
                push_char(&mut r, '/');
            },
            None => {},
        }
        push_str(&mut r, self.pkg);
        r
    }
}

impl<'a> AsTarg for Targ<'a> {
    fn as_targ(&self) -> (t: Targ<'_>)
        ensures
            t == *self,
    {
        *self
    }
}

impl AsTarg for str {
    fn as_targ(&self) -> (t: Targ<'_>)
        ensures
            opt_str_view(t.repo) == targ_repo(self@),
            t.pkg@ == targ_pkg(self@),
    {
        Targ::from(self)
    }
}

impl AsTarg for String {
    fn as_targ(&self) -> (t: Targ<'_>)
        ensures
            opt_str_view(t.repo) == targ_repo(self@),
            t.pkg@ == targ_pkg(self@),
    {
        Targ::from(self.as_str())
    }
}

/// Reading back the text of a target gives the same target, when neither
/// the repository nor the package holds a `/`.
pub proof fn lemma_targ_text_roundtrip(repo: Option<Seq<char>>, pkg: Seq<char>)
    requires
        no_slash(pkg),
        repo matches Some(r) ==> no_slash(r),
    ensures
        targ_repo(targ_text(repo, pkg)) == repo,
        targ_pkg(targ_text(repo, pkg)) == pkg,
{
    let s = targ_text(repo, pkg);
    match repo {
        Some(r) => {
            let p = r.len() as int;
            assert(s[p] == '/');
            assert forall|k: int| 0 <= k < p implies s[k] != '/' by {
                assert(s[k] == r[k]);
            }
            lemma_find_char_at(s, '/', 0, p, s.len() as int);
            assert forall|k: int| p + 1 <= k < s.len() implies s[k] != '/' by {
                assert(s[k] == pkg[k - p - 1]);
            }
            lemma_find_char_absent(s, '/', p + 1, s.len() as int);
            assert(s.subrange(0, p) =~= r);
            assert(s.subrange(p + 1, s.len() as int) =~= pkg);
        },
        None => {
            lemma_find_char_absent(s, '/', 0, s.len() as int);
        },
    }
}

} // verus!
