//! Reading the signature levels and repository usage that a pacman
//! configuration writes as lists of words.
use vstd::prelude::*;

use crate::flags::{
    SigLevel, Usage, SIG_DATABASE, SIG_DATABASE_MARGINAL_OK, SIG_DATABASE_OPTIONAL,
    SIG_DATABASE_UNKNOWN_OK, SIG_PACKAGE, SIG_PACKAGE_MARGINAL_OK, SIG_PACKAGE_OPTIONAL,
    SIG_PACKAGE_UNKNOWN_OK, SIG_USE_DEFAULT, USAGE_ALL, USAGE_INSTALL, USAGE_SEARCH, USAGE_SYNC,
    USAGE_UPGRADE,
};
use crate::package::string_views;
use crate::text::str_eq;

verus! {

/// The bits that any word of a signature level list can set.
pub open spec fn sig_word_bits() -> u32 {
    0x3c0fu32
}

/// What one word of a signature level list does to the level read so far.
/// Unknown words leave it as it is.
pub open spec fn sig_step(sig: u32, level: Seq<char>) -> u32 {
    if level == "PackageNever"@ {
        sig & !SIG_PACKAGE
    } else if level == "PackageOptional"@ {
        sig | (SIG_PACKAGE | SIG_PACKAGE_OPTIONAL)
    } else if level == "PackageRequired"@ {
        (sig | SIG_PACKAGE) & !SIG_PACKAGE_OPTIONAL
    } else if level == "PackageTrustOnly"@ {
        sig & !(SIG_PACKAGE_MARGINAL_OK | SIG_PACKAGE_UNKNOWN_OK)
    } else if level == "PackageTrustAll"@ {
        sig | (SIG_PACKAGE_MARGINAL_OK | SIG_PACKAGE_UNKNOWN_OK)
    } else if level == "DatabaseNever"@ {
        sig & !SIG_DATABASE
    } else if level == "DatabaseOptional"@ {
        sig | (SIG_DATABASE | SIG_DATABASE_OPTIONAL)
    } else if level == "DatabaseRequired"@ {
        (sig | SIG_DATABASE) & !SIG_DATABASE_OPTIONAL
    } else if level == "DatabaseTrustOnly"@ {
        sig & !(SIG_DATABASE_MARGINAL_OK | SIG_DATABASE_UNKNOWN_OK)
    } else if level == "DatabaseTrustAll"@ {
        sig | (SIG_DATABASE_MARGINAL_OK | SIG_DATABASE_UNKNOWN_OK)
    } else {
        sig
    }
}

/// The level that a list of words gives, read from no bit set, word by
/// word.
pub open spec fn sig_levels(levels: Seq<Seq<char>>) -> u32
    decreases levels.len(),
{
    if levels.len() == 0 {
        0
    } else {
        sig_step(sig_levels(levels.drop_last()), levels.last())
    }
}

/// The level of a repository: the default level where its list is empty,
/// otherwise the level the list gives.
pub open spec fn repo_sig_levels(levels: Seq<Seq<char>>) -> u32 {
    if levels.len() == 0 {
        SIG_USE_DEFAULT
    } else {
        sig_levels(levels)
    }
}

/// What one word of a usage list does to the usage read so far: known
/// words add their bit, and a usage that is still empty afterwards
/// becomes every use.
pub open spec fn usage_step(usage: u32, word: Seq<char>) -> u32 {
    let u = if word == "Sync"@ {
        usage | USAGE_SYNC
    } else if word == "Search"@ {
        usage | USAGE_SEARCH
    } else if word == "Install"@ {
        usage | USAGE_INSTALL
    } else if word == "Upgrade"@ {
        usage | USAGE_UPGRADE
    } else {
        usage
    };
    if u == 0 {
        USAGE_ALL
    } else {
        u
    }
}

/// The usage that a list of words gives, read from no bit set.
pub open spec fn usage_words(words: Seq<Seq<char>>) -> u32
    decreases words.len(),
{
    if words.len() == 0 {
        0
    } else {
        usage_step(usage_words(words.drop_last()), words.last())
    }
}

/// Applies one word of a signature level list.
fn apply_sig_word(sig: &mut SigLevel, level: &str)
    ensures
        final(sig)@ == sig_step(old(sig)@, level@),
{
    if str_eq(level, "PackageNever") {
        sig.remove(SigLevel::from_bits_retain(SIG_PACKAGE));
    } else if str_eq(level, "PackageOptional") {
        sig.insert(SigLevel::from_bits_retain(SIG_PACKAGE | SIG_PACKAGE_OPTIONAL));
    } else if str_eq(level, "PackageRequired") {
        sig.insert(SigLevel::from_bits_retain(SIG_PACKAGE));
        sig.remove(SigLevel::from_bits_retain(SIG_PACKAGE_OPTIONAL));
    } else if str_eq(level, "PackageTrustOnly") {
        sig.remove(SigLevel::from_bits_retain(SIG_PACKAGE_MARGINAL_OK | SIG_PACKAGE_UNKNOWN_OK));
    } else if str_eq(level, "PackageTrustAll") {
        sig.insert(SigLevel::from_bits_retain(SIG_PACKAGE_MARGINAL_OK | SIG_PACKAGE_UNKNOWN_OK));
    } else if str_eq(level, "DatabaseNever") {
        sig.remove(SigLevel::from_bits_retain(SIG_DATABASE));
    } else if str_eq(level, "DatabaseOptional") {
        sig.insert(SigLevel::from_bits_retain(SIG_DATABASE | SIG_DATABASE_OPTIONAL));
    } else if str_eq(level, "DatabaseRequired") {
        sig.insert(SigLevel::from_bits_retain(SIG_DATABASE));
        sig.remove(SigLevel::from_bits_retain(SIG_DATABASE_OPTIONAL));
    } else if str_eq(level, "DatabaseTrustOnly") {
        sig.remove(
            SigLevel::from_bits_retain(SIG_DATABASE_MARGINAL_OK | SIG_DATABASE_UNKNOWN_OK),
        );
    } else if str_eq(level, "DatabaseTrustAll") {
        sig.insert(
            SigLevel::from_bits_retain(SIG_DATABASE_MARGINAL_OK | SIG_DATABASE_UNKNOWN_OK),
        );
    }
}

/// Reads a signature level from its list of words, such as
/// `["PackageRequired", "DatabaseOptional"]`.
pub fn parse_sig_level(levels: &[String]) -> (r: SigLevel)
    ensures
        r@ == sig_levels(string_views(levels@)),
{
    let mut sig = SigLevel::empty();
    let mut i: usize = 0;
    while i < levels.len()
        invariant
            i <= levels.len(),
            sig@ == sig_levels(string_views(levels@).take(i as int)),
        decreases levels.len() - i,
    {
        let ghost before = string_views(levels@).take(i as int);
        apply_sig_word(&mut sig, levels[i].as_str());
        proof {
            let after = string_views(levels@).take(i + 1);
            assert(after.drop_last() =~= before);
            assert(after.last() == levels@[i as int]@);
        }
        i = i + 1;
    }
    proof {
        assert(string_views(levels@).take(levels.len() as int) =~= string_views(levels@));
    }
    sig
}

/// The signature level of a repository: the default level where its list
/// is empty, otherwise the level its list gives.
pub fn repo_sig_level(levels: &[String]) -> (r: SigLevel)
    ensures
        r@ == repo_sig_levels(string_views(levels@)),
{
    if levels.len() == 0 {
        SigLevel::from_bits_retain(SIG_USE_DEFAULT)
    } else {
        parse_sig_level(levels)
    }
}

/// Applies one word of a usage list.
fn apply_usage_word(usage: &mut Usage, word: &str)
    ensures
        final(usage)@ == usage_step(old(usage)@, word@),
{
    if str_eq(word, "Sync") {
        usage.insert(Usage::from_bits_retain(USAGE_SYNC));
    } else if str_eq(word, "Search") {
        usage.insert(Usage::from_bits_retain(USAGE_SEARCH));
    } else if str_eq(word, "Install") {
        usage.insert(Usage::from_bits_retain(USAGE_INSTALL));
    } else if str_eq(word, "Upgrade") {
        usage.insert(Usage::from_bits_retain(USAGE_UPGRADE));
    }
    if usage.is_empty() {
        *usage = Usage::from_bits_retain(USAGE_ALL);
    }
}

/// Reads the usage of a repository from its list of words, such as
/// `["Sync", "Search"]`.
pub fn repo_usage(words: &[String]) -> (r: Usage)
    ensures
        r@ == usage_words(string_views(words@)),
{
    let mut usage = Usage::empty();
    let mut i: usize = 0;
    while i < words.len()
        invariant
            i <= words.len(),
            usage@ == usage_words(string_views(words@).take(i as int)),
        decreases words.len() - i,
    {
        let ghost before = string_views(words@).take(i as int);
        apply_usage_word(&mut usage, words[i].as_str());
        proof {
            let after = string_views(words@).take(i + 1);
            assert(after.drop_last() =~= before);
            assert(after.last() == words@[i as int]@);
        }
        i = i + 1;
    }
    proof {
        assert(string_views(words@).take(words.len() as int) =~= string_views(words@));
    }
    usage
}

/// No word of a signature level list sets a bit outside the known levels.
proof fn lemma_sig_step_bits(sig: u32, level: Seq<char>)
    requires
        sig & !sig_word_bits() == 0,
    ensures
        sig_step(sig, level) & !sig_word_bits() == 0,
{
    lemma_sig_word_ops_stay_in(sig);
}

proof fn lemma_sig_word_ops_stay_in(s: u32)
    by (bit_vector)
    requires
        s & !0x3c0fu32 == 0,
    ensures
        (s & !SIG_PACKAGE) & !0x3c0fu32 == 0,
        (s | (SIG_PACKAGE | SIG_PACKAGE_OPTIONAL)) & !0x3c0fu32 == 0,
        ((s | SIG_PACKAGE) & !SIG_PACKAGE_OPTIONAL) & !0x3c0fu32 == 0,
        (s & !(SIG_PACKAGE_MARGINAL_OK | SIG_PACKAGE_UNKNOWN_OK)) & !0x3c0fu32 == 0,
        (s | (SIG_PACKAGE_MARGINAL_OK | SIG_PACKAGE_UNKNOWN_OK)) & !0x3c0fu32 == 0,
        (s & !SIG_DATABASE) & !0x3c0fu32 == 0,
        (s | (SIG_DATABASE | SIG_DATABASE_OPTIONAL)) & !0x3c0fu32 == 0,
        ((s | SIG_DATABASE) & !SIG_DATABASE_OPTIONAL) & !0x3c0fu32 == 0,
        (s & !(SIG_DATABASE_MARGINAL_OK | SIG_DATABASE_UNKNOWN_OK)) & !0x3c0fu32 == 0,
        (s | (SIG_DATABASE_MARGINAL_OK | SIG_DATABASE_UNKNOWN_OK)) & !0x3c0fu32 == 0,
{
}

/// A list of signature level words never sets a bit outside the known
/// package and database levels; in particular it never asks for the
/// default level.
pub proof fn lemma_sig_levels_bits(levels: Seq<Seq<char>>)
    ensures
        sig_levels(levels) & !sig_word_bits() == 0,
        sig_levels(levels) & SIG_USE_DEFAULT == 0,
    decreases levels.len(),
{
    if levels.len() == 0 {
        assert(0u32 & !0x3c0fu32 == 0) by (bit_vector);
    } else {
        lemma_sig_levels_bits(levels.drop_last());
        lemma_sig_step_bits(sig_levels(levels.drop_last()), levels.last());
    }
    let s = sig_levels(levels);
    assert(s & !0x3c0fu32 == 0 ==> s & 1073741824u32 == 0) by (bit_vector);
}

/// A repository asks for the default signature level exactly when its
/// list of levels is empty.
pub proof fn lemma_repo_sig_default(levels: Seq<Seq<char>>)
    ensures
        (repo_sig_levels(levels) & SIG_USE_DEFAULT != 0) <==> levels.len() == 0,
{
    if levels.len() == 0 {
        assert(1073741824u32 & 1073741824u32 != 0) by (bit_vector);
    } else {
        lemma_sig_levels_bits(levels);
    }
}

/// A repository with at least one usage word is never left with no usage.
pub proof fn lemma_usage_never_empty(words: Seq<Seq<char>>)
    requires
        words.len() > 0,
    ensures
        usage_words(words) != 0,
{
}

/// The level that a list of words gives when read word by word from
/// `sig`.
pub open spec fn sig_apply(sig: u32, levels: Seq<Seq<char>>) -> u32
    decreases levels.len(),
{
    if levels.len() == 0 {
        sig
    } else {
        sig_step(sig_apply(sig, levels.drop_last()), levels.last())
    }
}

/// Whether `w` is one of the five words about package signatures.
pub open spec fn is_package_word(w: Seq<char>) -> bool {
    w == "PackageNever"@ || w == "PackageOptional"@ || w == "PackageRequired"@ || w
        == "PackageTrustOnly"@ || w == "PackageTrustAll"@
}

/// Whether `w` is one of the five words about database signatures.
pub open spec fn is_database_word(w: Seq<char>) -> bool {
    w == "DatabaseNever"@ || w == "DatabaseOptional"@ || w == "DatabaseRequired"@ || w
        == "DatabaseTrustOnly"@ || w == "DatabaseTrustAll"@
}

/// The bits of the package levels.
pub open spec fn package_bits() -> u32 {
    0xfu32
}

/// The bits of the database levels.
pub open spec fn database_bits() -> u32 {
    0x3c00u32
}

/// Reading a list of words from no bit set gives the level of the list;
/// in particular the empty list gives no bit set.
pub proof fn lemma_sig_levels_from_empty(levels: Seq<Seq<char>>)
    ensures
        sig_levels(levels) == sig_apply(0, levels),
        sig_levels(Seq::<Seq<char>>::empty()) == 0,
    decreases levels.len(),
{
    if levels.len() > 0 {
        lemma_sig_levels_from_empty(levels.drop_last());
    }
}

/// Reading two lists one after the other is reading their concatenation:
/// the words of `b` are applied, left to right, to what `a` gave.
pub proof fn lemma_sig_apply_concat(sig: u32, a: Seq<Seq<char>>, b: Seq<Seq<char>>)
    ensures
        sig_apply(sig, a + b) == sig_apply(sig_apply(sig, a), b),
    decreases b.len(),
{
    if b.len() == 0 {
        assert(a + b =~= a);
    } else {
        lemma_sig_apply_concat(sig, a, b.drop_last());
        assert((a + b).drop_last() =~= a + b.drop_last());
        assert((a + b).last() == b.last());
    }
}

/// A word that is neither a package nor a database word changes nothing.
pub proof fn lemma_sig_unknown_word(sig: u32, w: Seq<char>)
    requires
        !is_package_word(w),
        !is_database_word(w),
    ensures
        sig_step(sig, w) == sig,
{
}

proof fn lemma_sig_word_ops_keep_other_bits(s: u32)
    by (bit_vector)
    ensures
        (s & !SIG_PACKAGE) & !0xfu32 == s & !0xfu32,
        (s | (SIG_PACKAGE | SIG_PACKAGE_OPTIONAL)) & !0xfu32 == s & !0xfu32,
        ((s | SIG_PACKAGE) & !SIG_PACKAGE_OPTIONAL) & !0xfu32 == s & !0xfu32,
        (s & !(SIG_PACKAGE_MARGINAL_OK | SIG_PACKAGE_UNKNOWN_OK)) & !0xfu32 == s & !0xfu32,
        (s | (SIG_PACKAGE_MARGINAL_OK | SIG_PACKAGE_UNKNOWN_OK)) & !0xfu32 == s & !0xfu32,
        (s & !SIG_DATABASE) & !0x3c00u32 == s & !0x3c00u32,
        (s | (SIG_DATABASE | SIG_DATABASE_OPTIONAL)) & !0x3c00u32 == s & !0x3c00u32,
        ((s | SIG_DATABASE) & !SIG_DATABASE_OPTIONAL) & !0x3c00u32 == s & !0x3c00u32,
        (s & !(SIG_DATABASE_MARGINAL_OK | SIG_DATABASE_UNKNOWN_OK)) & !0x3c00u32 == s
            & !0x3c00u32,
        (s | (SIG_DATABASE_MARGINAL_OK | SIG_DATABASE_UNKNOWN_OK)) & !0x3c00u32 == s
            & !0x3c00u32,
{
}

/// A package word touches only the package bits, and a database word only
/// the database bits.
pub proof fn lemma_sig_word_bits(sig: u32, w: Seq<char>)
    ensures
        is_package_word(w) ==> sig_step(sig, w) & !package_bits() == sig & !package_bits(),
        is_database_word(w) ==> sig_step(sig, w) & !database_bits() == sig & !database_bits(),
{
    lemma_sig_word_ops_keep_other_bits(sig);
    reveal_strlit("PackageNever");
    reveal_strlit("PackageOptional");
    reveal_strlit("PackageRequired");
    reveal_strlit("PackageTrustOnly");
    reveal_strlit("PackageTrustAll");
    reveal_strlit("DatabaseNever");
    reveal_strlit("DatabaseOptional");
    reveal_strlit("DatabaseRequired");
    reveal_strlit("DatabaseTrustOnly");
    reveal_strlit("DatabaseTrustAll");
    if is_database_word(w) {
        assert(w[0] == 'D');
        assert("PackageNever"@[0] == 'P' && "PackageOptional"@[0] == 'P' && "PackageRequired"@[0]
            == 'P' && "PackageTrustOnly"@[0] == 'P' && "PackageTrustAll"@[0] == 'P');
        assert(!is_package_word(w));
    }
}

} // verus!
