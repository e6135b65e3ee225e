//! The files of a package, kept sorted by name so that a path is found by
//! binary search.
use vstd::prelude::*;

verus! {

/// How two byte strings compare, as C's `strcmp` orders them: byte by
/// byte as unsigned values, a proper prefix first. Negative, zero or
/// positive.
pub open spec fn bytes_order(a: Seq<u8>, b: Seq<u8>) -> int
    decreases a.len(),
{
    if a.len() == 0 {
        if b.len() == 0 {
            0
        } else {
            -1
        }
    } else if b.len() == 0 {
        1
    } else if a[0] < b[0] {
        -1
    } else if a[0] > b[0] {
        1
    } else {
        bytes_order(a.drop_first(), b.drop_first())
    }
}

/// A file of a package.
#[derive(Debug, Clone, PartialEq, Eq)]
pub struct File {
    name: Vec<u8>,
    size: i64,
    mode: u32,
}

/// The abstract value of a file.
pub struct FileSpec {
    /// The path, relative to the root.
    pub name: Seq<u8>,
    /// The size in bytes.
    pub size: i64,
    /// The mode bits.
    pub mode: u32,
}

impl View for File {
    type V = FileSpec;

    closed spec fn view(&self) -> FileSpec {
        FileSpec { name: self.name@, size: self.size, mode: self.mode }
    }
}

impl File {
    /// A file with the given path, size and mode.
    pub fn new(name: &[u8], size: i64, mode: u32) -> (f: File)
        ensures
            f@ == (FileSpec { name: name@, size, mode }),
    {
        File { name: vstd::slice::slice_to_vec(name), size, mode }
    }

    /// The path of the file.
    pub fn name(&self) -> (r: &[u8])
        ensures
            r@ == self@.name,
    {
        self.name.as_slice()
    }

    /// The size of the file in bytes.
    pub fn size(&self) -> (r: i64)
        ensures
            r == self@.size,
    {
        self.size
    }

    /// The mode bits of the file.
    pub fn mode(&self) -> (r: u32)
        ensures
            r == self@.mode,
    {
        self.mode
    }
}

/// The names of a list of files.
pub open spec fn file_names(files: Seq<File>) -> Seq<Seq<u8>> {
    files.map_values(|f: File| f@.name)
}

/// Whether the names are in strictly increasing order.
pub open spec fn names_sorted(names: Seq<Seq<u8>>) -> bool {
    forall|i: int, j: int| 0 <= i < j < names.len() ==> bytes_order(names[i], names[j]) < 0
}

/// The files of a package, in strictly increasing order of name.
#[derive(Debug)]
pub struct FileList {
    files: Vec<File>,
}

impl View for FileList {
    type V = Seq<File>;

    closed spec fn view(&self) -> Seq<File> {
        self.files@
    }
}

/// Compares two byte strings as [`bytes_order`] does.
pub(crate) fn order_bytes(a: &[u8], b: &[u8]) -> (r: i8)
    ensures
        r as int == bytes_order(a@, b@),
        -1 <= r <= 1,
{
    let mut i: usize = 0;
    assert(a@.skip(0) =~= a@ && b@.skip(0) =~= b@);
    while i < a.len() && i < b.len()
        invariant
            i <= a.len(),
            i <= b.len(),
            bytes_order(a@, b@) == bytes_order(a@.skip(i as int), b@.skip(i as int)),
        decreases a.len() - i,
    {
        if a[i] < b[i] {
            return -1;
        }
        if a[i] > b[i] {
            return 1;
        }
        proof {
            assert(a@.skip(i as int).drop_first() =~= a@.skip(i + 1));
            assert(b@.skip(i as int).drop_first() =~= b@.skip(i + 1));
        }
        i = i + 1;
    }
    if i < b.len() {
        -1
    } else if i < a.len() {
        1
    } else {
        0
    }
}

/// `bytes_order` is zero exactly on equal strings.
pub proof fn lemma_bytes_order_zero(a: Seq<u8>, b: Seq<u8>)
    ensures
        (bytes_order(a, b) == 0) <==> (a == b),
    decreases a.len(),
{
    if a.len() > 0 && b.len() > 0 && a[0] == b[0] {
        lemma_bytes_order_zero(a.drop_first(), b.drop_first());
        if a.drop_first() == b.drop_first() {
            assert(a =~= seq![a[0]] + a.drop_first());
            assert(b =~= seq![b[0]] + b.drop_first());
        }
    }
    if a.len() > 0 && b.len() > 0 && a == b {
        assert(a.drop_first() == b.drop_first());
    }
    if a.len() == 0 && b.len() == 0 {
        assert(a =~= b);
    }
}

/// Swapping the strings negates `bytes_order`.
pub proof fn lemma_bytes_order_antisymmetric(a: Seq<u8>, b: Seq<u8>)
    ensures
        bytes_order(a, b) == -bytes_order(b, a),
    decreases a.len(),
{
    if a.len() > 0 && b.len() > 0 && a[0] == b[0] {
        lemma_bytes_order_antisymmetric(a.drop_first(), b.drop_first());
    }
}

/// `bytes_order` is transitive on strict order.
pub proof fn lemma_bytes_order_transitive(a: Seq<u8>, b: Seq<u8>, c: Seq<u8>)
    requires
        bytes_order(a, b) < 0,
        bytes_order(b, c) < 0,
    ensures
        bytes_order(a, c) < 0,
    decreases a.len(),
{
    if a.len() > 0 && b.len() > 0 && c.len() > 0 && a[0] == b[0] && b[0] == c[0] {
        lemma_bytes_order_transitive(a.drop_first(), b.drop_first(), c.drop_first());
    }
}

impl FileList {
    /// The files are in strictly increasing order of name.
    #[verifier::type_invariant]
    closed spec fn inv(self) -> bool {
        names_sorted(file_names(self.files@))
    }

    /// A list of the given files, or `None` where their names are not in
    /// strictly increasing order.
    pub fn new(files: Vec<File>) -> (r: Option<FileList>)
        ensures
            r matches Some(l) ==> l@ == files@,
            r is Some <==> names_sorted(file_names(files@)),
    {
        let n = files.len();
        let mut i: usize = 1;
        if n == 0 {
            return Some(FileList { files });
        }
        while i < n
            invariant
                1 <= i <= n,
                n == files.len(),
                names_sorted(file_names(files@.take(i as int))),
            decreases n - i,
        {
            let c = order_bytes(files[i - 1].name(), files[i].name());
            if c >= 0 {
                proof {
                    let names = file_names(files@);
                    assert(names[i - 1] == files@[i - 1]@.name);
                    assert(names[i as int] == files@[i as int]@.name);
                    assert(!names_sorted(names));
                }
                return None;
            }
            proof {
                let names = file_names(files@.take(i + 1));
                let prev = file_names(files@.take(i as int));
                assert forall|x: int, y: int| 0 <= x < y < names.len() implies bytes_order(
                    names[x],
                    names[y],
                ) < 0 by {
                    if y < i {
                        assert(names[x] == prev[x]);
                        assert(names[y] == prev[y]);
                    } else if x < i - 1 {
                        assert(names[x] == prev[x]);
                        assert(names[i - 1] == prev[i - 1]);
                        lemma_bytes_order_transitive(names[x], names[i - 1], names[y]);
                    }
                }
            }
            i = i + 1;
        }
        proof {
            assert(files@.take(n as int) =~= files@);
        }
        Some(FileList { files })
    }

    /// The files, in order of name.
    pub fn files(&self) -> (r: &[File])
        ensures
            r@ == self@,
            names_sorted(file_names(self@)),
    {
        proof {
            use_type_invariant(self);
        }
        self.files.as_slice()
    }

    /// The file whose path is `path`, if the list holds one.
    pub fn contains(&self, path: &[u8]) -> (r: Option<&File>)
        ensures
            r matches Some(f) ==> f@.name == path@ && self@.contains(*f),
            r is None <==> !file_names(self@).contains(path@),
    {
        proof {
            use_type_invariant(self);
        }
        let ghost names = file_names(self.files@);
        let mut lo: usize = 0;
        let mut hi: usize = self.files.len();
        while lo < hi
            invariant
                lo <= hi <= self.files.len(),
                names == file_names(self.files@),
                names_sorted(names),
                forall|k: int| 0 <= k < lo ==> names[k] != path@,
                forall|k: int| hi <= k < names.len() ==> names[k] != path@,
            decreases hi - lo,
        {
            let mid = lo + (hi - lo) / 2;
            let c = order_bytes(path, self.files[mid].name());
            proof {
                assert(names[mid as int] == self.files@[mid as int]@.name);
                lemma_bytes_order_zero(path@, names[mid as int]);
            }
            if c == 0 {
                return Some(&self.files[mid]);
            } else if c < 0 {
                proof {
                    assert forall|k: int| mid <= k < names.len() implies names[k] != path@ by {
                        if k > mid {
                            lemma_bytes_order_antisymmetric(names[mid as int], names[k]);
                            if names[k] == path@ {
                                lemma_bytes_order_antisymmetric(path@, names[mid as int]);
                            }
                        }
                    }
                }
                hi = mid;
            } else {
                proof {
                    assert forall|k: int| 0 <= k <= mid implies names[k] != path@ by {
                        if k < mid {
                            if names[k] == path@ {
                                assert(bytes_order(names[k], names[mid as int]) < 0);
                            }
                        }
                    }
                }
                lo = mid + 1;
            }
        }
        proof {
            if names.contains(path@) {
                let k = choose|k: int| 0 <= k < names.len() && names[k] == path@;
                assert(false);
            }
        }
        None
    }
}

} // verus!
