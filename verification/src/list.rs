//! Lists of items handed to callbacks, and the ways to build one from the
//! iterators callers hold.
use vstd::prelude::*;

use vstd::std_specs::iter::IteratorSpec;

use crate::deps::{Dep, Depend};

verus! {

/// A list of items.
#[derive(Debug)]
pub struct AlpmList<T> {
    items: Vec<T>,
}

impl<T> View for AlpmList<T> {
    type V = Seq<T>;

    closed spec fn view(&self) -> Seq<T> {
        self.items@
    }
}

/// The iterator over the items of an [`AlpmList`], in order.
pub type Iter<T> = std::vec::IntoIter<T>;

impl<T> AlpmList<T> {
    /// A list of the given items, in order.
    pub fn new(items: Vec<T>) -> (l: AlpmList<T>)
        ensures
            l@ == items@,
    {
        AlpmList { items }
    }

    /// Whether the list has no item.
    pub fn is_empty(&self) -> (r: bool)
        ensures
            r == (self@.len() == 0),
    {
        self.items.len() == 0
    }

    /// The number of items.
    pub fn len(&self) -> (r: usize)
        ensures
            r == self@.len(),
    {
        self.items.len()
    }

    /// The first item, if any.
    pub fn first(&self) -> (r: Option<&T>)
        ensures
            self@.len() == 0 ==> r is None,
            self@.len() > 0 ==> r == Some(&self@[0]),
    {
        if self.items.len() == 0 {
            None
        } else {
            Some(&self.items[0])
        }
    }

    /// The last item, if any.
    pub fn last(&self) -> (r: Option<&T>)
        ensures
            self@.len() == 0 ==> r is None,
            self@.len() > 0 ==> r == Some(&self@.last()),
    {
        let n = self.items.len();
        if n == 0 {
            None
        } else {
            Some(&self.items[n - 1])
        }
    }

    /// The items, in order.
    pub fn items(&self) -> (r: &[T])
        ensures
            r@ == self@,
    {
        self.items.as_slice()
    }

    /// An iterator over the items, in order.
    pub fn iter(self) -> (r: Iter<T>)
        ensures
            r.remaining() == self@,
    {
        proof {
            broadcast use vstd::std_specs::vec::axiom_spec_into_iter;
        }
        self.items.into_iter()
    }
}

/// The items that a slice iterator has not yielded yet.
///
/// Trusted: calls std's `std::slice::Iter::as_slice`, which std documents
/// as giving the part of the slice the iterator has not yielded yet; the
/// contract states that the slice holds exactly the items the iterator
/// would still yield, in order.
#[verifier::external_body]
fn slice_iter_rest<'a, T>(it: &std::slice::Iter<'a, T>) -> (r: &'a [T])
    ensures
        r@ == it.remaining().unref(),
{
    it.as_slice()
}

/// The items that a vector's owning iterator has not yielded yet.
///
/// Trusted: calls std's `std::vec::IntoIter::as_slice`, which std
/// documents as giving the remaining items of the iterator as a slice; the
/// contract states that the slice holds exactly the items the iterator
/// would still yield, in order.
#[verifier::external_body]
fn vec_iter_rest<T>(it: &std::vec::IntoIter<T>) -> (r: &[T])
    ensures
        r@ == it.remaining(),
{
    it.as_slice()
}

/// Owned copies of a list of strings.
fn owned_strs(items: &[&str]) -> (r: Vec<String>)
    ensures
        r@.len() == items@.len(),
        forall|i: int| 0 <= i < items@.len() ==> #[trigger] r@[i]@ == items@[i]@,
{
    let mut r: Vec<String> = Vec::new();
    let mut i: usize = 0;
    while i < items.len()
        invariant
            i <= items.len(),
            r@.len() == i,
            forall|k: int| 0 <= k < i ==> #[trigger] r@[k]@ == items@[k]@,
        decreases items.len() - i,
    {
        r.push(items[i].to_owned());
        i = i + 1;
    }
    r
}

/// Copies of a list of strings.
fn cloned_strings(items: &[String]) -> (r: Vec<String>)
    ensures
        r@.len() == items@.len(),
        forall|i: int| 0 <= i < items@.len() ==> #[trigger] r@[i]@ == items@[i]@,
{
    let mut r: Vec<String> = Vec::new();
    let mut i: usize = 0;
    while i < items.len()
        invariant
            i <= items.len(),
            r@.len() == i,
            forall|k: int| 0 <= k < i ==> #[trigger] r@[k]@ == items@[k]@,
        decreases items.len() - i,
    {
        r.push(items[i].clone());
        i = i + 1;
    }
    r
}

/// Copies of the dependencies that a list of owned dependencies holds.
fn deps_of_depends<'x>(items: &[Depend]) -> (r: Vec<Dep<'x>>)
    ensures
        r@.len() == items@.len(),
        forall|i: int| 0 <= i < items@.len() ==> #[trigger] r@[i]@ == items@[i]@,
{
    let mut r: Vec<Dep<'x>> = Vec::new();
    let mut i: usize = 0;
    while i < items.len()
        invariant
            i <= items.len(),
            r@.len() == i,
            forall|k: int| 0 <= k < i ==> #[trigger] r@[k]@ == items@[k]@,
        decreases items.len() - i,
    {
        r.push(items[i].as_dep().clone());
        i = i + 1;
    }
    r
}

/// Copies of a list of borrowed dependencies.
fn cloned_deps<'b, 'x>(items: &[&'b Dep<'x>]) -> (r: Vec<Dep<'x>>)
    ensures
        r@.len() == items@.len(),
        forall|i: int| 0 <= i < items@.len() ==> #[trigger] r@[i]@ == items@[i]@,
{
    let mut r: Vec<Dep<'x>> = Vec::new();
    let mut i: usize = 0;
    while i < items.len()
        invariant
            i <= items.len(),
            r@.len() == i,
            forall|k: int| 0 <= k < i ==> #[trigger] r@[k]@ == items@[k]@,
        decreases items.len() - i,
    {
        r.push(items[i].clone());
        i = i + 1;
    }
    r
}

/// Values that can be handed to a callback as an [`AlpmList`].
pub trait WithAlpmList<T>: Sized {
    /// Calls `f` with the items as a list and gives back what it returns.
    fn with_alpm_list<R, F: FnOnce(AlpmList<T>) -> R>(self, f: F) -> (r: R)
        requires
            forall|l: AlpmList<T>| f.requires((l,)),
        ensures
            exists|l: AlpmList<T>| f.ensures((l,), r),
    ;
}

impl<T> WithAlpmList<T> for AlpmList<T> {
    fn with_alpm_list<R, F: FnOnce(AlpmList<T>) -> R>(self, f: F) -> (r: R)
        ensures
            f.ensures((self,), r),
    {
        f(self)
    }
}

impl<'a, 'b> WithAlpmList<String> for std::slice::Iter<'a, &'b str> {
    fn with_alpm_list<R, F: FnOnce(AlpmList<String>) -> R>(self, f: F) -> (r: R)
        ensures
            exists|l: AlpmList<String>|
                {
                    &&& l@.len() == self.remaining().len()
                    &&& forall|i: int| 0 <= i < l@.len() ==> (#[trigger] l@[i])@ == self.remaining()[i]@
                    &&& f.ensures((l,), r)
                },
    {
        let l = AlpmList::new(owned_strs(slice_iter_rest(&self)));
        f(l)
    }
}

impl<'b> WithAlpmList<String> for std::vec::IntoIter<&'b str> {
    fn with_alpm_list<R, F: FnOnce(AlpmList<String>) -> R>(self, f: F) -> (r: R)
        ensures
            exists|l: AlpmList<String>|
                {
                    &&& l@.len() == self.remaining().len()
                    &&& forall|i: int| 0 <= i < l@.len() ==> (#[trigger] l@[i])@ == self.remaining()[i]@
                    &&& f.ensures((l,), r)
                },
    {
        let l = AlpmList::new(owned_strs(vec_iter_rest(&self)));
        f(l)
    }
}

impl<'a> WithAlpmList<String> for std::slice::Iter<'a, String> {
    fn with_alpm_list<R, F: FnOnce(AlpmList<String>) -> R>(self, f: F) -> (r: R)
        ensures
            exists|l: AlpmList<String>|
                {
                    &&& l@.len() == self.remaining().len()
                    &&& forall|i: int| 0 <= i < l@.len() ==> (#[trigger] l@[i])@ == self.remaining()[i]@
                    &&& f.ensures((l,), r)
                },
    {
        let l = AlpmList::new(cloned_strings(slice_iter_rest(&self)));
        f(l)
    }
}

impl WithAlpmList<String> for std::vec::IntoIter<String> {
    fn with_alpm_list<R, F: FnOnce(AlpmList<String>) -> R>(self, f: F) -> (r: R)
        ensures
            exists|l: AlpmList<String>|
                {
                    &&& l@.len() == self.remaining().len()
                    &&& forall|i: int| 0 <= i < l@.len() ==> (#[trigger] l@[i])@ == self.remaining()[i]@
                    &&& f.ensures((l,), r)
                },
    {
        let l = AlpmList::new(cloned_strings(vec_iter_rest(&self)));
        f(l)
    }
}

impl<'a, 'x> WithAlpmList<Dep<'x>> for std::slice::Iter<'a, Depend> {
    fn with_alpm_list<R, F: FnOnce(AlpmList<Dep<'x>>) -> R>(self, f: F) -> (r: R)
        ensures
            exists|l: AlpmList<Dep<'x>>|
                {
                    &&& l@.len() == self.remaining().len()
                    &&& forall|i: int| 0 <= i < l@.len() ==> (#[trigger] l@[i])@ == self.remaining()[i]@
                    &&& f.ensures((l,), r)
                },
    {
        let l = AlpmList::new(deps_of_depends(slice_iter_rest(&self)));
        f(l)
    }
}

impl<'x> WithAlpmList<Dep<'x>> for std::vec::IntoIter<Depend> {
    fn with_alpm_list<R, F: FnOnce(AlpmList<Dep<'x>>) -> R>(self, f: F) -> (r: R)
        ensures
            exists|l: AlpmList<Dep<'x>>|
                {
                    &&& l@.len() == self.remaining().len()
                    &&& forall|i: int| 0 <= i < l@.len() ==> (#[trigger] l@[i])@ == self.remaining()[i]@
                    &&& f.ensures((l,), r)
                },
    {
        let l = AlpmList::new(deps_of_depends(vec_iter_rest(&self)));
        f(l)
    }
}

impl<'a, 'b, 'x> WithAlpmList<Dep<'x>> for std::slice::Iter<'a, &'b Dep<'x>> {
    fn with_alpm_list<R, F: FnOnce(AlpmList<Dep<'x>>) -> R>(self, f: F) -> (r: R)
        ensures
            exists|l: AlpmList<Dep<'x>>|
                {
                    &&& l@.len() == self.remaining().len()
                    &&& forall|i: int| 0 <= i < l@.len() ==> (#[trigger] l@[i])@ == self.remaining()[i]@
                    &&& f.ensures((l,), r)
                },
    {
        let l = AlpmList::new(cloned_deps(slice_iter_rest(&self)));
        f(l)
    }
}

impl<'b, 'x> WithAlpmList<Dep<'x>> for std::vec::IntoIter<&'b Dep<'x>> {
    fn with_alpm_list<R, F: FnOnce(AlpmList<Dep<'x>>) -> R>(self, f: F) -> (r: R)
        ensures
            exists|l: AlpmList<Dep<'x>>|
                {
                    &&& l@.len() == self.remaining().len()
                    &&& forall|i: int| 0 <= i < l@.len() ==> (#[trigger] l@[i])@ == self.remaining()[i]@
                    &&& f.ensures((l,), r)
                },
    {
        let l = AlpmList::new(cloned_deps(vec_iter_rest(&self)));
        f(l)
    }
}

/// The items of `s` among its first `n` whose flag in `keep` is set, in
/// order.
pub open spec fn kept_items<T>(s: Seq<T>, keep: Seq<bool>, n: int) -> Seq<T>
    decreases n,
{
    if n <= 0 {
        seq![]
    } else if keep[n - 1] {
        kept_items(s, keep, n - 1).push(s[n - 1])
    } else {
        kept_items(s, keep, n - 1)
    }
}

/// `kept_items` reads only the first `n` flags.
proof fn lemma_kept_items_prefix<T>(s: Seq<T>, keep: Seq<bool>, b: bool, n: int)
    requires
        n <= keep.len(),
    ensures
        kept_items(s, keep.push(b), n) == kept_items(s, keep, n),
    decreases n,
{
    if n > 0 {
        lemma_kept_items_prefix(s, keep, b, n - 1);
    }
}

/// A list of items that its holder owns and can change.
#[derive(Debug, PartialEq, Eq)]
pub struct AlpmListMut<T> {
    items: Vec<T>,
}

impl<T> View for AlpmListMut<T> {
    type V = Seq<T>;

    closed spec fn view(&self) -> Seq<T> {
        self.items@
    }
}

impl<T> AlpmListMut<T> {
    /// An empty list.
    pub fn new() -> (l: AlpmListMut<T>)
        ensures
            l@.len() == 0,
    {
        AlpmListMut { items: Vec::new() }
    }

    /// The list of the given items, in order.
    pub fn from_vec(items: Vec<T>) -> (l: AlpmListMut<T>)
        ensures
            l@ == items@,
    {
        AlpmListMut { items }
    }

    /// The number of items.
    pub fn len(&self) -> (r: usize)
        ensures
            r == self@.len(),
    {
        self.items.len()
    }

    /// Whether the list has no item.
    pub fn is_empty(&self) -> (r: bool)
        ensures
            r == (self@.len() == 0),
    {
        self.items.len() == 0
    }

    /// Appends an item.
    pub fn push(&mut self, t: T)
        ensures
            final(self)@ == old(self)@.push(t),
    {
        self.items.push(t);
    }

    /// Takes off the last item, if any.
    pub fn pop(&mut self) -> (r: Option<T>)
        ensures
            old(self)@.len() == 0 ==> r is None && final(self)@ == old(self)@,
            old(self)@.len() > 0 ==> r == Some(old(self)@.last()) && final(self)@ == old(
                self,
            )@.drop_last(),
    {
        self.items.pop()
    }

    /// Takes out the item at index `n`, if there is one.
    pub fn remove(&mut self, n: usize) -> (r: Option<T>)
        ensures
            n >= old(self)@.len() ==> r is None && final(self)@ == old(self)@,
            n < old(self)@.len() ==> r == Some(old(self)@[n as int]) && final(self)@ == old(
                self,
            )@.remove(n as int),
    {
        if n >= self.items.len() {
            return None;
        }
        Some(self.items.remove(n))
    }

    /// The first item, if any.
    pub fn first(&self) -> (r: Option<&T>)
        ensures
            self@.len() == 0 ==> r is None,
            self@.len() > 0 ==> r == Some(&self@[0]),
    {
        if self.items.len() == 0 {
            None
        } else {
            Some(&self.items[0])
        }
    }

    /// The last item, if any.
    pub fn last(&self) -> (r: Option<&T>)
        ensures
            self@.len() == 0 ==> r is None,
            self@.len() > 0 ==> r == Some(&self@.last()),
    {
        let n = self.items.len();
        if n == 0 {
            None
        } else {
            Some(&self.items[n - 1])
        }
    }

    /// The items, in order.
    pub fn items(&self) -> (r: &[T])
        ensures
            r@ == self@,
    {
        self.items.as_slice()
    }

    /// An iterator over the items, in order.
    pub fn iter(&self) -> (r: std::slice::Iter<'_, T>)
        ensures
            r.remaining().unref() == self@,
    {
        proof {
            broadcast use vstd::std_specs::slice::axiom_spec_slice_iter;
        }
        self.items.as_slice().iter()
    }

    /// The items, borrowed, as an [`AlpmList`].
    pub fn list(&self) -> (l: AlpmList<&T>)
        ensures
            l@.len() == self@.len(),
            forall|i: int| 0 <= i < self@.len() ==> *(#[trigger] l@[i]) == self@[i],
    {
        let mut v: Vec<&T> = Vec::new();
        let mut i: usize = 0;
        while i < self.items.len()
            invariant
                i <= self.items.len(),
                v@.len() == i,
                forall|k: int| 0 <= k < i ==> *(#[trigger] v@[k]) == self.items@[k],
            decreases self.items.len() - i,
        {
            v.push(&self.items[i]);
            i = i + 1;
        }
        AlpmList::new(v)
    }

    /// Keeps the items for which `f` holds, in order, and drops the others.
    pub fn retain<F: Fn(&T) -> bool>(&mut self, f: F)
        requires
            forall|x: &T| f.requires((x,)),
        ensures
            exists|keep: Seq<bool>|
                {
                    &&& keep.len() == old(self)@.len()
                    &&& forall|i: int|
                        0 <= i < keep.len() ==> f.ensures((&old(self)@[i],), #[trigger] keep[i])
                    &&& final(self)@ == kept_items(old(self)@, keep, keep.len() as int)
                },
    {
        let mut items: Vec<T> = Vec::new();
        std::mem::swap(&mut items, &mut self.items);
        let ghost all = items@;
        let ghost mut keep: Seq<bool> = seq![];
        let mut kept: Vec<T> = Vec::new();
        proof {
            broadcast use vstd::std_specs::vec::axiom_spec_into_iter;
        }
        for x in it: items.into_iter()
            invariant
                it.seq() == all,
                keep.len() == it.index(),
                forall|i: int| 0 <= i < keep.len() ==> f.ensures((&all[i],), #[trigger] keep[i]),
                forall|x: &T| f.requires((x,)),
                kept@ == kept_items(all, keep, keep.len() as int),
        {
            let b = f(&x);
            proof {
                lemma_kept_items_prefix(all, keep, b, keep.len() as int);
                keep = keep.push(b);
            }
            if b {
                kept.push(x);
            }
        }
        self.items = kept;
    }
}

impl AlpmListMut<String> {
    /// Appends a copy of `s`.
    pub fn push_str(&mut self, s: &str)
        ensures
            final(self)@.len() == old(self)@.len() + 1,
            final(self)@.drop_last() == old(self)@,
            final(self)@.last()@ == s@,
    {
        self.items.push(s.to_owned());
    }
}

impl<T> WithAlpmList<T> for AlpmListMut<T> {
    fn with_alpm_list<R, F: FnOnce(AlpmList<T>) -> R>(self, f: F) -> (r: R)
        ensures
            exists|l: AlpmList<T>| l@ == self@ && f.ensures((l,), r),
    {
        f(AlpmList::new(self.items))
    }
}

} // verus!
