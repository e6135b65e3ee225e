//! Package version ordering.
//!
//! Versions have the shape `[epoch:]version[-release]`. Each part is compared
//! segment by segment: a segment is a maximal run of digits or a maximal run
//! of ASCII letters, and segments are separated by runs of any other bytes.
use std::cmp::Ordering;
use vstd::std_specs::cmp::PartialOrdSpecImpl;

use crate::filelist::{bytes_order, order_bytes};
use vstd::prelude::*;
use vstd::utf8::encode_utf8;

verus! {

/// Whether a byte is an ASCII decimal digit.
pub open spec fn is_digit(c: u8) -> bool {
    48 <= c <= 57
}

/// Whether a byte is an ASCII letter.
pub open spec fn is_alpha(c: u8) -> bool {
    (65 <= c <= 90) || (97 <= c <= 122)
}

/// Whether a byte is an ASCII letter or digit.
pub open spec fn is_alnum(c: u8) -> bool {
    is_digit(c) || is_alpha(c)
}

/// The classes of bytes that a version scan walks over.
#[derive(Clone, Copy)]
pub enum ByteClass {
    /// Bytes that are neither letters nor digits.
    Separator,
    /// Decimal digits.
    Digit,
    /// ASCII letters.
    Alpha,
    /// The digit zero.
    Zero,
}

/// Whether byte `c` belongs to class `k`.
pub open spec fn in_class(c: u8, k: ByteClass) -> bool {
    match k {
        ByteClass::Separator => !is_alnum(c),
        ByteClass::Digit => is_digit(c),
        ByteClass::Alpha => is_alpha(c),
        ByteClass::Zero => c == 48,
    }
}

/// The end of the run of bytes of class `k` that starts at index `i` of `s`.
pub open spec fn scan(s: Seq<u8>, i: int, k: ByteClass) -> int
    decreases s.len() - i,
{
    if 0 <= i < s.len() && in_class(s[i], k) {
        scan(s, i + 1, k)
    } else {
        i
    }
}

/// A scan never moves backwards, never passes the end of the sequence, and
/// stops on a byte outside the class.
pub proof fn lemma_scan_bounds(s: Seq<u8>, i: int, k: ByteClass)
    requires
        0 <= i <= s.len(),
    ensures
        i <= scan(s, i, k) <= s.len(),
        scan(s, i, k) < s.len() ==> !in_class(s[scan(s, i, k)], k),
        forall|m: int| i <= m < scan(s, i, k) ==> in_class(#[trigger] s[m], k),
    decreases s.len() - i,
{
    if i < s.len() && in_class(s[i], k) {
        lemma_scan_bounds(s, i + 1, k);
    }
}

/// Lexicographic comparison of `a[i..ea]` and `b[j..eb]`, as `strcmp` orders
/// byte strings: -1, 0 or 1.
pub open spec fn compare_bytes(a: Seq<u8>, i: int, ea: int, b: Seq<u8>, j: int, eb: int) -> int
    decreases ea - i,
{
    if i >= ea && j >= eb {
        0
    } else if i >= ea {
        -1
    } else if j >= eb {
        1
    } else if a[i] < b[j] {
        -1
    } else if a[i] > b[j] {
        1
    } else {
        compare_bytes(a, i + 1, ea, b, j + 1, eb)
    }
}

/// The result once one of the two strings has no segment left, with `one`
/// and `two` the positions after the last separators.
pub open spec fn final_order(a: Seq<u8>, one: int, b: Seq<u8>, two: int) -> int {
    if one >= a.len() && two >= b.len() {
        0
    } else if (one >= a.len() && !is_alpha(b[two])) || (one < a.len() && is_alpha(a[one])) {
        -1
    } else {
        1
    }
}

/// The segment-wise comparison of `a` and `b`, continuing at indices `i`
/// and `j`: once either string has ended, the final comparison decides at
/// once, before any separator is skipped.
pub open spec fn segment_order(a: Seq<u8>, b: Seq<u8>, i: int, j: int) -> int
    recommends
        0 <= i <= a.len(),
        0 <= j <= b.len(),
    decreases a.len() - i,
{
    if !(0 <= i <= a.len() && 0 <= j <= b.len()) {
        0
    } else if i >= a.len() || j >= b.len() {
        final_order(a, i, b, j)
    } else {
        let one = scan(a, i, ByteClass::Separator);
        let two = scan(b, j, ByteClass::Separator);
        if !(one < a.len() && two < b.len()) {
            final_order(a, one, b, two)
        } else if one - i != two - j {
            if one - i < two - j {
                -1
            } else {
                1
            }
        } else if is_digit(a[one]) {
            let e1 = scan(a, one, ByteClass::Digit);
            let e2 = scan(b, two, ByteClass::Digit);
            if e2 == two {
                1
            } else {
                let z1 = scan(a, one, ByteClass::Zero);
                let z2 = scan(b, two, ByteClass::Zero);
                if e1 - z1 > e2 - z2 {
                    1
                } else if e2 - z2 > e1 - z1 {
                    -1
                } else {
                    let c = compare_bytes(a, z1, e1, b, z2, e2);
                    if c != 0 {
                        c
                    } else {
                        proof {
                            lemma_scan_bounds(a, i, ByteClass::Separator);
                            lemma_scan_bounds(a, one + 1, ByteClass::Digit);
                            assert(e1 > i);
                        }
                        segment_order(a, b, e1, e2)
                    }
                }
            }
        } else {
            let e1 = scan(a, one, ByteClass::Alpha);
            let e2 = scan(b, two, ByteClass::Alpha);
            if e2 == two {
                -1
            } else {
                let c = compare_bytes(a, one, e1, b, two, e2);
                if c != 0 {
                    c
                } else {
                    proof {
                        lemma_scan_bounds(a, i, ByteClass::Separator);
                        lemma_scan_bounds(a, one + 1, ByteClass::Alpha);
                        assert(e1 > i);
                    }
                    segment_order(a, b, e1, e2)
                }
            }
        }
    }
}

/// The order of two version parts: equal strings are equal, otherwise they
/// are compared segment by segment.
pub open spec fn part_order(a: Seq<u8>, b: Seq<u8>) -> int {
    if a == b {
        0
    } else {
        segment_order(a, b, 0, 0)
    }
}

/// The index of the last `-` at or after index `k`, if any.
pub open spec fn last_dash(s: Seq<u8>, k: int) -> Option<int>
    decreases s.len() - k,
{
    if k >= s.len() || k < 0 {
        None
    } else {
        match last_dash(s, k + 1) {
            Some(d) => Some(d),
            None => if s[k] == 45 {
                Some(k)
            } else {
                None
            },
        }
    }
}

/// The end of the leading digits of a version, where an epoch ends.
pub open spec fn epoch_end(s: Seq<u8>) -> int {
    scan(s, 0, ByteClass::Digit)
}

/// Whether the version carries an explicit `epoch:` prefix.
pub open spec fn has_epoch(s: Seq<u8>) -> bool {
    epoch_end(s) < s.len() && s[epoch_end(s)] == 58
}

/// The epoch of a version; `0` when none is given or it is empty.
pub open spec fn epoch_part(s: Seq<u8>) -> Seq<u8> {
    if has_epoch(s) && epoch_end(s) > 0 {
        s.subrange(0, epoch_end(s))
    } else {
        seq![48u8]
    }
}

/// Where the version part starts.
pub open spec fn version_start(s: Seq<u8>) -> int {
    if has_epoch(s) {
        epoch_end(s) + 1
    } else {
        0
    }
}

/// The version part, between the epoch and the last `-`.
pub open spec fn version_part(s: Seq<u8>) -> Seq<u8> {
    match last_dash(s, epoch_end(s)) {
        Some(d) => s.subrange(version_start(s), d),
        None => s.subrange(version_start(s), s.len() as int),
    }
}

/// The release part, after the last `-`, if there is one.
pub open spec fn release_part(s: Seq<u8>) -> Option<Seq<u8>> {
    match last_dash(s, epoch_end(s)) {
        Some(d) => Some(s.subrange(d + 1, s.len() as int)),
        None => None,
    }
}

/// The order of two full versions: -1 when `a` is older, 0 when they are
/// the same, 1 when `a` is newer. Epochs decide first, then versions; the
/// releases only count when both versions carry one.
pub open spec fn version_order(a: Seq<u8>, b: Seq<u8>) -> int {
    if a == b {
        0
    } else {
        let c = part_order(epoch_part(a), epoch_part(b));
        if c != 0 {
            c
        } else {
            let v = part_order(version_part(a), version_part(b));
            if v != 0 {
                v
            } else {
                match (release_part(a), release_part(b)) {
                    (Some(ra), Some(rb)) => part_order(ra, rb),
                    _ => 0,
                }
            }
        }
    }
}

/// The `Ordering` that corresponds to a sign of -1, 0 or 1.
pub open spec fn ordering_of(c: int) -> Ordering {
    if c < 0 {
        Ordering::Less
    } else if c == 0 {
        Ordering::Equal
    } else {
        Ordering::Greater
    }
}


/// Whether byte `c` belongs to class `k`.
pub fn byte_in_class(c: u8, k: ByteClass) -> (r: bool)
    ensures
        r == in_class(c, k),
{
    match k {
        ByteClass::Separator => !((48 <= c && c <= 57) || (65 <= c && c <= 90) || (97 <= c && c <= 122)),
        ByteClass::Digit => 48 <= c && c <= 57,
        ByteClass::Alpha => (65 <= c && c <= 90) || (97 <= c && c <= 122),
        ByteClass::Zero => c == 48,
    }
}

/// The end of the run of bytes of class `k` that starts at index `i`.
pub fn scan_run(s: &[u8], i: usize, k: ByteClass) -> (r: usize)
    requires
        i <= s.len(),
    ensures
        r == scan(s@, i as int, k),
        i <= r <= s.len(),
{
    let mut m = i;
    while m < s.len() && byte_in_class(s[m], k)
        invariant
            i <= m <= s.len(),
            scan(s@, i as int, k) == scan(s@, m as int, k),
        decreases s.len() - m,
    {
        m = m + 1;
    }
    m
}

/// Lexicographic comparison of `a[i..ea]` and `b[j..eb]`: -1, 0 or 1.
pub fn compare_runs(a: &[u8], i: usize, ea: usize, b: &[u8], j: usize, eb: usize) -> (r: i32)
    requires
        i <= ea <= a.len(),
        j <= eb <= b.len(),
    ensures
        r == compare_bytes(a@, i as int, ea as int, b@, j as int, eb as int),
{
    let mut x = i;
    let mut y = j;
    while x < ea && y < eb
        invariant
            i <= x <= ea <= a.len(),
            j <= y <= eb <= b.len(),
            compare_bytes(a@, i as int, ea as int, b@, j as int, eb as int) == compare_bytes(
                a@,
                x as int,
                ea as int,
                b@,
                y as int,
                eb as int,
            ),
        decreases ea - x,
    {
        if a[x] < b[y] {
            return -1;
        } else if a[x] > b[y] {
            return 1;
        }
        x = x + 1;
        y = y + 1;
    }
    if x >= ea && y >= eb {
        0
    } else if x >= ea {
        -1
    } else {
        1
    }
}

/// Leading zeros end no later than the leading digits.
pub proof fn lemma_scan_zero_in_digits(s: Seq<u8>, i: int)
    requires
        0 <= i <= s.len(),
    ensures
        scan(s, i, ByteClass::Zero) <= scan(s, i, ByteClass::Digit),
    decreases s.len() - i,
{
    lemma_scan_bounds(s, i, ByteClass::Digit);
    if i < s.len() && s[i] == 48 {
        lemma_scan_zero_in_digits(s, i + 1);
    }
}

/// Whether two byte strings are equal.
pub fn bytes_equal(a: &[u8], b: &[u8]) -> (r: bool)
    ensures
        r == (a@ == b@),
{
    if a.len() != b.len() {
        return false;
    }
    let mut x: usize = 0;
    while x < a.len()
        invariant
            a.len() == b.len(),
            x <= a.len(),
            forall|m: int| 0 <= m < x ==> a@[m] == b@[m],
        decreases a.len() - x,
    {
        if a[x] != b[x] {
            return false;
        }
        x = x + 1;
    }
    assert(a@ =~= b@);
    true
}

/// The segment-wise order of `a` and `b`.
pub fn segment_order_of(a: &[u8], b: &[u8]) -> (r: i32)
    ensures
        r == segment_order(a@, b@, 0, 0),
{
    let mut i: usize = 0;
    let mut j: usize = 0;
    loop
        invariant
            i <= a.len(),
            j <= b.len(),
            segment_order(a@, b@, 0, 0) == segment_order(a@, b@, i as int, j as int),
        decreases a.len() - i,
    {
        if i >= a.len() || j >= b.len() {
            if i >= a.len() && j >= b.len() {
                return 0;
            } else if (i >= a.len() && !byte_in_class(b[j], ByteClass::Alpha)) || (i < a.len()
                && byte_in_class(a[i], ByteClass::Alpha)) {
                return -1;
            } else {
                return 1;
            }
        }
        let one = scan_run(a, i, ByteClass::Separator);
        let two = scan_run(b, j, ByteClass::Separator);
        if !(one < a.len() && two < b.len()) {
            if one >= a.len() && two >= b.len() {
                return 0;
            } else if (one >= a.len() && !byte_in_class(b[two], ByteClass::Alpha)) || (one
                < a.len() && byte_in_class(a[one], ByteClass::Alpha)) {
                return -1;
            } else {
                return 1;
            }
        }
        if one - i != two - j {
            if one - i < two - j {
                return -1;
            } else {
                return 1;
            }
        }
        if byte_in_class(a[one], ByteClass::Digit) {
            let e1 = scan_run(a, one, ByteClass::Digit);
            let e2 = scan_run(b, two, ByteClass::Digit);
            if e2 == two {
                return 1;
            }
            let z1 = scan_run(a, one, ByteClass::Zero);
            let z2 = scan_run(b, two, ByteClass::Zero);
            proof {
                lemma_scan_zero_in_digits(a@, one as int);
                lemma_scan_zero_in_digits(b@, two as int);
            }
            if e1 - z1 > e2 - z2 {
                return 1;
            } else if e2 - z2 > e1 - z1 {
                return -1;
            }
            let c = compare_runs(a, z1, e1, b, z2, e2);
            if c != 0 {
                return c;
            }
            proof {
                lemma_scan_bounds(a@, one as int + 1, ByteClass::Digit);
            }
            i = e1;
            j = e2;
        } else {
            let e1 = scan_run(a, one, ByteClass::Alpha);
            let e2 = scan_run(b, two, ByteClass::Alpha);
            if e2 == two {
                return -1;
            }
            proof {
                lemma_scan_bounds(a@, one as int + 1, ByteClass::Alpha);
            }
            let c = compare_runs(a, one, e1, b, two, e2);
            if c != 0 {
                return c;
            }
            i = e1;
            j = e2;
        }
    }
}


/// The order of two version parts.
pub fn part_order_of(a: &[u8], b: &[u8]) -> (r: i32)
    ensures
        r == part_order(a@, b@),
{
    if bytes_equal(a, b) {
        0
    } else {
        segment_order_of(a, b)
    }
}

/// The index of the last `-` at or after index `k`, if any.
pub fn find_last_dash(s: &[u8], k: usize) -> (r: Option<usize>)
    requires
        k <= s.len(),
    ensures
        r matches Some(d) ==> last_dash(s@, k as int) == Some(d as int),
        r is None ==> last_dash(s@, k as int) is None,
{
    let mut m = s.len();
    let mut found: Option<usize> = None;
    while m > k
        invariant
            k <= m <= s.len(),
            found matches Some(d) ==> last_dash(s@, m as int) == Some(d as int),
            found is None ==> last_dash(s@, m as int) is None,
        decreases m,
    {
        m = m - 1;
        if found.is_none() && s[m] == 45 {
            found = Some(m);
        }
    }
    found
}

/// The order of two full versions given as bytes: -1, 0 or 1.
pub fn version_order_of(a: &[u8], b: &[u8]) -> (r: i32)
    ensures
        r == version_order(a@, b@),
{
    if bytes_equal(a, b) {
        return 0;
    }
    let zero = vec![48u8];
    assert(zero@ =~= seq![48u8]);
    let ea = scan_run(a, 0, ByteClass::Digit);
    let eb = scan_run(b, 0, ByteClass::Digit);
    let a_has_epoch = ea < a.len() && a[ea] == 58;
    let b_has_epoch = eb < b.len() && b[eb] == 58;
    let epoch_a = if a_has_epoch && ea > 0 {
        &a[0..ea]
    } else {
        zero.as_slice()
    };
    let epoch_b = if b_has_epoch && eb > 0 {
        &b[0..eb]
    } else {
        zero.as_slice()
    };
    let c = part_order_of(epoch_a, epoch_b);
    if c != 0 {
        return c;
    }
    let va = if a_has_epoch {
        ea + 1
    } else {
        0
    };
    let vb = if b_has_epoch {
        eb + 1
    } else {
        0
    };
    let dash_a = find_last_dash(a, ea);
    let dash_b = find_last_dash(b, eb);
    proof {
        lemma_last_dash_bounds(a@, ea as int);
        lemma_last_dash_bounds(b@, eb as int);
    }
    let ver_a = match dash_a {
        Some(d) => &a[va..d],
        None => &a[va..a.len()],
    };
    let ver_b = match dash_b {
        Some(d) => &b[vb..d],
        None => &b[vb..b.len()],
    };
    let v = part_order_of(ver_a, ver_b);
    if v != 0 {
        return v;
    }
    match (dash_a, dash_b) {
        (Some(da), Some(db)) => part_order_of(&a[da + 1..a.len()], &b[db + 1..b.len()]),
        _ => 0,
    }
}

/// A dash found after the epoch lies after the epoch separator.
pub proof fn lemma_last_dash_bounds(s: Seq<u8>, k: int)
    requires
        0 <= k <= s.len(),
    ensures
        last_dash(s, k) matches Some(d) ==> k <= d < s.len() && s[d] == 45,
    decreases s.len() - k,
{
    if k < s.len() {
        lemma_last_dash_bounds(s, k + 1);
    }
}

/// Compares two package versions, as pacman orders them.
pub fn vercmp(a: &str, b: &str) -> (r: Ordering)
    ensures
        r == ordering_of(version_order(encode_utf8(a@), encode_utf8(b@))),
{
    let c = version_order_of(a.as_bytes(), b.as_bytes());
    if c < 0 {
        Ordering::Less
    } else if c == 0 {
        Ordering::Equal
    } else {
        Ordering::Greater
    }
}


/// Swapping the operands of a byte comparison negates it.
pub proof fn lemma_compare_bytes_antisymmetric(a: Seq<u8>, i: int, ea: int, b: Seq<u8>, j: int, eb: int)
    ensures
        compare_bytes(a, i, ea, b, j, eb) == -compare_bytes(b, j, eb, a, i, ea),
    decreases ea - i,
{
    if i < ea && j < eb && a[i] == b[j] {
        lemma_compare_bytes_antisymmetric(a, i + 1, ea, b, j + 1, eb);
    }
}

/// Swapping the operands of the segment-wise comparison negates it.
pub proof fn lemma_segment_order_antisymmetric(a: Seq<u8>, b: Seq<u8>, i: int, j: int)
    requires
        0 <= i <= a.len(),
        0 <= j <= b.len(),
    ensures
        segment_order(a, b, i, j) == -segment_order(b, a, j, i),
    decreases a.len() - i,
{
    let one = scan(a, i, ByteClass::Separator);
    let two = scan(b, j, ByteClass::Separator);
    lemma_scan_bounds(a, i, ByteClass::Separator);
    lemma_scan_bounds(b, j, ByteClass::Separator);
    if one < a.len() && two < b.len() && one - i == two - j {
        if is_digit(a[one]) && is_digit(b[two]) {
            let e1 = scan(a, one, ByteClass::Digit);
            let e2 = scan(b, two, ByteClass::Digit);
            let z1 = scan(a, one, ByteClass::Zero);
            let z2 = scan(b, two, ByteClass::Zero);
            lemma_scan_bounds(a, one + 1, ByteClass::Digit);
            lemma_scan_bounds(b, two + 1, ByteClass::Digit);
            lemma_compare_bytes_antisymmetric(a, z1, e1, b, z2, e2);
            if compare_bytes(a, z1, e1, b, z2, e2) == 0 && e1 - z1 == e2 - z2 {
                lemma_segment_order_antisymmetric(a, b, e1, e2);
            }
        } else if is_alpha(a[one]) && is_alpha(b[two]) {
            let e1 = scan(a, one, ByteClass::Alpha);
            let e2 = scan(b, two, ByteClass::Alpha);
            lemma_scan_bounds(a, one + 1, ByteClass::Alpha);
            lemma_scan_bounds(b, two + 1, ByteClass::Alpha);
            lemma_compare_bytes_antisymmetric(a, one, e1, b, two, e2);
            if compare_bytes(a, one, e1, b, two, e2) == 0 {
                lemma_segment_order_antisymmetric(a, b, e1, e2);
            }
        }
    }
}

/// Swapping two version parts negates their order.
pub proof fn lemma_part_order_antisymmetric(a: Seq<u8>, b: Seq<u8>)
    ensures
        part_order(a, b) == -part_order(b, a),
{
    if a != b {
        lemma_segment_order_antisymmetric(a, b, 0, 0);
    }
}

/// Every version equals itself: `vercmp(a, a)` is `Equal`.
pub proof fn lemma_version_order_reflexive(a: Seq<u8>)
    ensures
        version_order(a, a) == 0,
{
}

/// Comparing `b` with `a` gives the opposite of comparing `a` with `b`:
/// `vercmp(a, b)` is `Less` exactly when `vercmp(b, a)` is `Greater`.
pub proof fn lemma_version_order_antisymmetric(a: Seq<u8>, b: Seq<u8>)
    ensures
        version_order(a, b) == -version_order(b, a),
{
    lemma_part_order_antisymmetric(epoch_part(a), epoch_part(b));
    lemma_part_order_antisymmetric(version_part(a), version_part(b));
    match (release_part(a), release_part(b)) {
        (Some(ra), Some(rb)) => lemma_part_order_antisymmetric(ra, rb),
        _ => {},
    }
}

/// The order of two versions is always -1, 0 or 1.
pub proof fn lemma_version_order_sign(a: Seq<u8>, b: Seq<u8>)
    ensures
        -1 <= version_order(a, b) <= 1,
{
    lemma_part_order_sign(epoch_part(a), epoch_part(b));
    lemma_part_order_sign(version_part(a), version_part(b));
    match (release_part(a), release_part(b)) {
        (Some(ra), Some(rb)) => lemma_part_order_sign(ra, rb),
        _ => {},
    }
}

/// The order of two version parts is always -1, 0 or 1.
pub proof fn lemma_part_order_sign(a: Seq<u8>, b: Seq<u8>)
    ensures
        -1 <= part_order(a, b) <= 1,
{
    if a != b {
        lemma_segment_order_sign(a, b, 0, 0);
    }
}

/// The segment-wise order is always -1, 0 or 1.
pub proof fn lemma_segment_order_sign(a: Seq<u8>, b: Seq<u8>, i: int, j: int)
    ensures
        -1 <= segment_order(a, b, i, j) <= 1,
    decreases a.len() - i,
{
    if 0 <= i <= a.len() && 0 <= j <= b.len() {
        let one = scan(a, i, ByteClass::Separator);
        let two = scan(b, j, ByteClass::Separator);
        lemma_scan_bounds(a, i, ByteClass::Separator);
        lemma_scan_bounds(b, j, ByteClass::Separator);
        if one < a.len() && two < b.len() && one - i == two - j {
            if is_digit(a[one]) {
                let e1 = scan(a, one, ByteClass::Digit);
                let e2 = scan(b, two, ByteClass::Digit);
                let z1 = scan(a, one, ByteClass::Zero);
                let z2 = scan(b, two, ByteClass::Zero);
                lemma_scan_bounds(a, one + 1, ByteClass::Digit);
                lemma_compare_bytes_sign(a, z1, e1, b, z2, e2);
                lemma_segment_order_sign(a, b, e1, e2);
            } else {
                let e1 = scan(a, one, ByteClass::Alpha);
                let e2 = scan(b, two, ByteClass::Alpha);
                lemma_scan_bounds(a, one + 1, ByteClass::Alpha);
                lemma_compare_bytes_sign(a, one, e1, b, two, e2);
                lemma_segment_order_sign(a, b, e1, e2);
            }
        }
    }
}

/// A byte comparison is always -1, 0 or 1.
pub proof fn lemma_compare_bytes_sign(a: Seq<u8>, i: int, ea: int, b: Seq<u8>, j: int, eb: int)
    ensures
        -1 <= compare_bytes(a, i, ea, b, j, eb) <= 1,
    decreases ea - i,
{
    if i < ea && j < eb && a[i] == b[j] {
        lemma_compare_bytes_sign(a, i + 1, ea, b, j + 1, eb);
    }
}


/// A scan that reaches the end of `v` stops there when what follows does
/// not belong to the class.
proof fn lemma_scan_concat(v: Seq<u8>, t: Seq<u8>, i: int, k: ByteClass)
    requires
        0 <= i <= v.len(),
        t.len() > 0,
        !in_class(t[0], k),
    ensures
        scan(v + t, i, k) == scan(v, i, k),
    decreases v.len() - i,
{
    if i < v.len() {
        assert((v + t)[i] == v[i]);
        if in_class(v[i], k) {
            lemma_scan_concat(v, t, i + 1, k);
        }
    } else {
        assert((v + t)[i] == t[0]);
    }
}

/// A scan over bytes that all belong to the class runs to the end.
proof fn lemma_scan_all(s: Seq<u8>, i: int, k: ByteClass)
    requires
        0 <= i <= s.len(),
        forall|m: int| i <= m < s.len() ==> in_class(#[trigger] s[m], k),
    ensures
        scan(s, i, k) == s.len(),
    decreases s.len() - i,
{
    if i < s.len() {
        lemma_scan_all(s, i + 1, k);
    }
}

/// The last `-` at or after `k` is the one at `p` when no `-` follows it.
proof fn lemma_last_dash_at(s: Seq<u8>, p: int, k: int)
    requires
        0 <= p < s.len(),
        s[p] == 45,
        forall|m: int| p < m < s.len() ==> s[m] != 45,
        0 <= k <= s.len(),
    ensures
        k <= p ==> last_dash(s, k) == Some(p),
        k > p ==> last_dash(s, k) is None,
    decreases s.len() - k,
{
    if k < s.len() {
        lemma_last_dash_at(s, p, k + 1);
    }
}

/// Whether `s` is a non-empty run of decimal digits that does not start
/// with `0`.
pub open spec fn plain_number(s: Seq<u8>) -> bool {
    &&& s.len() > 0
    &&& s[0] != 48
    &&& forall|m: int| 0 <= m < s.len() ==> is_digit(#[trigger] s[m])
}

/// Of two numbers written without leading zeros, the one with more digits
/// is the newer version part: `10` is newer than `9`.
pub proof fn lemma_longer_number_is_newer(x: Seq<u8>, y: Seq<u8>)
    requires
        plain_number(x),
        plain_number(y),
        x.len() > y.len(),
    ensures
        part_order(x, y) == 1,
        part_order(y, x) == -1,
{
    lemma_scan_all(x, 0, ByteClass::Digit);
    lemma_scan_all(y, 0, ByteClass::Digit);
    assert(scan(x, 0, ByteClass::Separator) == 0);
    assert(scan(y, 0, ByteClass::Separator) == 0);
    assert(scan(x, 0, ByteClass::Zero) == 0);
    assert(scan(y, 0, ByteClass::Zero) == 0);
    lemma_part_order_antisymmetric(x, y);
}

/// Two versions that differ only in their releases are ordered as those
/// releases are, segment by segment like the version part itself: with
/// `v` the text before the `-`, `v-r1` against `v-r2` orders as `r1`
/// against `r2`.
pub proof fn lemma_release_order(v: Seq<u8>, r1: Seq<u8>, r2: Seq<u8>)
    requires
        forall|m: int| 0 <= m < r1.len() ==> #[trigger] r1[m] != 45,
        forall|m: int| 0 <= m < r2.len() ==> #[trigger] r2[m] != 45,
    ensures
        version_order(v + seq![45u8] + r1, v + seq![45u8] + r2) == part_order(r1, r2),
{
    let t1 = seq![45u8] + r1;
    let t2 = seq![45u8] + r2;
    let a = v + seq![45u8] + r1;
    let b = v + seq![45u8] + r2;
    assert(a =~= v + t1);
    assert(b =~= v + t2);
    let n = v.len() as int;
    lemma_scan_concat(v, t1, 0, ByteClass::Digit);
    lemma_scan_concat(v, t2, 0, ByteClass::Digit);
    lemma_scan_bounds(v, 0, ByteClass::Digit);
    let e = scan(v, 0, ByteClass::Digit);
    assert(epoch_end(a) == e && epoch_end(b) == e);
    if e < n {
        assert(a[e] == v[e] && b[e] == v[e]);
    } else {
        assert(a[e] == 45 && b[e] == 45);
    }
    assert(has_epoch(a) == has_epoch(b));
    assert(a.subrange(0, e) =~= v.subrange(0, e));
    assert(b.subrange(0, e) =~= v.subrange(0, e));
    assert(epoch_part(a) == epoch_part(b));
    assert(a[n] == 45 && b[n] == 45);
    assert forall|m: int| n < m < a.len() implies a[m] != 45 by {
        assert(a[m] == r1[m - n - 1]);
    }
    assert forall|m: int| n < m < b.len() implies b[m] != 45 by {
        assert(b[m] == r2[m - n - 1]);
    }
    lemma_last_dash_at(a, n, e);
    lemma_last_dash_at(b, n, e);
    let vs = version_start(a);
    assert(version_start(b) == vs);
    assert(a.subrange(vs, n) =~= v.subrange(vs, n));
    assert(b.subrange(vs, n) =~= v.subrange(vs, n));
    assert(version_part(a) == version_part(b));
    assert(release_part(a) == Some(r1)) by {
        assert(a.subrange(n + 1, a.len() as int) =~= r1);
    }
    assert(release_part(b) == Some(r2)) by {
        assert(b.subrange(n + 1, b.len() as int) =~= r2);
    }
    if a == b {
        assert(r1 =~= a.subrange(n + 1, a.len() as int));
        assert(r2 =~= b.subrange(n + 1, b.len() as int));
    }
}

/// A release written with more digits is newer, whatever the rest of the
/// version: `1.0-10` is newer than `1.0-9`.
pub proof fn lemma_longer_release_is_newer(v: Seq<u8>, r1: Seq<u8>, r2: Seq<u8>)
    requires
        plain_number(r1),
        plain_number(r2),
        r1.len() > r2.len(),
    ensures
        version_order(v + seq![45u8] + r1, v + seq![45u8] + r2) == 1,
{
    assert forall|m: int| 0 <= m < r1.len() implies #[trigger] r1[m] != 45 by {
        assert(is_digit(r1[m]));
    }
    assert forall|m: int| 0 <= m < r2.len() implies #[trigger] r2[m] != 45 by {
        assert(is_digit(r2[m]));
    }
    lemma_release_order(v, r1, r2);
    lemma_longer_number_is_newer(r1, r2);
}

/// An owned package version string. Versions are equal when their texts
/// are; `<` and the other operators order their bytes as C's `strcmp`
/// does, while [`Version::vercmp`] orders them as pacman does.
#[derive(Debug, Clone, PartialEq, Eq, Hash, Ord)]
pub struct Version {
    ver: String,
}

impl Version {
    /// The text of the version.
    pub closed spec fn text(&self) -> Seq<char> {
        self.ver@
    }

    /// Creates a version from its text.
    pub fn new(s: &str) -> (v: Version)
        ensures
            v.text() == s@,
    {
        Version { ver: s.to_owned() }
    }

    /// The text of the version.
    pub fn as_str(&self) -> (s: &str)
        ensures
            s@ == self.text(),
    {
        self.ver.as_str()
    }

    /// Compares this version with another, as pacman orders versions.
    pub fn vercmp(&self, other: &Version) -> (r: Ordering)
        ensures
            r == ordering_of(version_order(encode_utf8(self.text()), encode_utf8(other.text()))),
    {
        vercmp(self.ver.as_str(), other.ver.as_str())
    }
}

impl PartialOrd for Version {
    fn partial_cmp(&self, other: &Version) -> (r: Option<Ordering>) {
        let c = order_bytes(self.ver.as_str().as_bytes(), other.ver.as_str().as_bytes());
        if c < 0 {
            Some(Ordering::Less)
        } else if c == 0 {
            Some(Ordering::Equal)
        } else {
            Some(Ordering::Greater)
        }
    }
}

impl PartialOrdSpecImpl for Version {
    open spec fn obeys_partial_cmp_spec() -> bool {
        true
    }

    open spec fn partial_cmp_spec(&self, other: &Version) -> Option<Ordering> {
        Some(ordering_of(bytes_order(encode_utf8(self.text()), encode_utf8(other.text()))))
    }
}

} // verus!
