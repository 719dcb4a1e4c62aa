//! The closed vocabulary of architecture tags.
//!
//! Parsing is total over strings: every token either names one tag of the
//! vocabulary or fails. The sentinel for unparseable input is never
//! produced by parsing and has no token of its own.

use vstd::prelude::*;

use crate::ParseError;
use crate::text::str_eq;

verus! {

/// An architecture tag: the concrete machine architectures, the two
/// wildcard pseudo-architectures, and a sentinel no token maps to.
#[derive(Copy, Clone, Debug, Hash, PartialEq, Eq, Ord, PartialOrd, Structural)]
pub enum Arch {
    Any,
    All,
    Amd64,
    Armel,
    Armhf,
    Arm64,
    I386,
    Ia64,
    KFreeBsdAmd64,
    KFreeBsdI386,
    Mips,
    Mipsel,
    Mips64,
    Mips64El,
    Ppc64El,
    S390X,
    LinuxAny,
    X32,
    ParserBug,
}

/// The token of a tag; the sentinel has none and formats to nothing.
pub open spec fn arch_token(a: Arch) -> Seq<char> {
    match a {
        Arch::All => "all"@,
        Arch::Any => "any"@,
        Arch::Amd64 => "amd64"@,
        Arch::Armel => "armel"@,
        Arch::Armhf => "armhf"@,
        Arch::Arm64 => "arm64"@,
        Arch::I386 => "i386"@,
        Arch::Ia64 => "ia64"@,
        Arch::KFreeBsdAmd64 => "kfreebsd-amd64"@,
        Arch::KFreeBsdI386 => "kfreebsd-i386"@,
        Arch::Mips => "mips"@,
        Arch::Mipsel => "mipsel"@,
        Arch::Mips64 => "mips64"@,
        Arch::Mips64El => "mips64el"@,
        Arch::Ppc64El => "ppc64el"@,
        Arch::S390X => "s390x"@,
        Arch::LinuxAny => "linux-any"@,
        Arch::X32 => "x32"@,
        Arch::ParserBug => Seq::empty(),
    }
}

/// The tag a token names, if any: the inverse of `arch_token` over the
/// closed vocabulary.
pub open spec fn arch_of_token(s: Seq<char>) -> Option<Arch> {
    if s == "all"@ {
        Some(Arch::All)
    } else if s == "any"@ {
        Some(Arch::Any)
    } else if s == "amd64"@ {
        Some(Arch::Amd64)
    } else if s == "armel"@ {
        Some(Arch::Armel)
    } else if s == "armhf"@ {
        Some(Arch::Armhf)
    } else if s == "arm64"@ {
        Some(Arch::Arm64)
    } else if s == "i386"@ {
        Some(Arch::I386)
    } else if s == "ia64"@ {
        Some(Arch::Ia64)
    } else if s == "kfreebsd-amd64"@ {
        Some(Arch::KFreeBsdAmd64)
    } else if s == "kfreebsd-i386"@ {
        Some(Arch::KFreeBsdI386)
    } else if s == "mips"@ {
        Some(Arch::Mips)
    } else if s == "mipsel"@ {
        Some(Arch::Mipsel)
    } else if s == "mips64"@ {
        Some(Arch::Mips64)
    } else if s == "mips64el"@ {
        Some(Arch::Mips64El)
    } else if s == "ppc64el"@ {
        Some(Arch::Ppc64El)
    } else if s == "s390x"@ {
        Some(Arch::S390X)
    } else if s == "linux-any"@ {
        Some(Arch::LinuxAny)
    } else if s == "x32"@ {
        Some(Arch::X32)
    } else {
        None
    }
}

impl Arch {
    /// Parses one token of the closed vocabulary; any other token is a
    /// hard error that carries the token.
    pub fn parse(s: &str) -> (r: Result<Arch, ParseError>)
        ensures
            match r {
                Ok(a) => arch_of_token(s@) == Some(a),
                Err(e) => arch_of_token(s@) is None && (e matches ParseError::UnknownArch {
                    token,
                } && token@ == s@),
            },
    {
        if str_eq(s, "all") {
            Ok(Arch::All)
        } else if str_eq(s, "any") {
            Ok(Arch::Any)
        } else if str_eq(s, "amd64") {
            Ok(Arch::Amd64)
        } else if str_eq(s, "armel") {
            Ok(Arch::Armel)
        } else if str_eq(s, "armhf") {
            Ok(Arch::Armhf)
        } else if str_eq(s, "arm64") {
            Ok(Arch::Arm64)
        } else if str_eq(s, "i386") {
            Ok(Arch::I386)
        } else if str_eq(s, "ia64") {
            Ok(Arch::Ia64)
        } else if str_eq(s, "kfreebsd-amd64") {
            Ok(Arch::KFreeBsdAmd64)
        } else if str_eq(s, "kfreebsd-i386") {
            Ok(Arch::KFreeBsdI386)
        } else if str_eq(s, "mips") {
            Ok(Arch::Mips)
        } else if str_eq(s, "mipsel") {
            Ok(Arch::Mipsel)
        } else if str_eq(s, "mips64") {
            Ok(Arch::Mips64)
        } else if str_eq(s, "mips64el") {
            Ok(Arch::Mips64El)
        } else if str_eq(s, "ppc64el") {
            Ok(Arch::Ppc64El)
        } else if str_eq(s, "s390x") {
            Ok(Arch::S390X)
        } else if str_eq(s, "linux-any") {
            Ok(Arch::LinuxAny)
        } else if str_eq(s, "x32") {
            Ok(Arch::X32)
        } else {
            Err(ParseError::UnknownArch { token: s.to_owned() })
        }
    }

    /// Formats the tag back to its token; the sentinel has none.
    pub fn token(&self) -> (r: Option<&'static str>)
        ensures
            match r {
                Some(t) => *self != Arch::ParserBug && t@ == arch_token(*self),
                None => *self == Arch::ParserBug,
            },
    {
        match *self {
            Arch::All => Some("all"),
            Arch::Any => Some("any"),
            Arch::Amd64 => Some("amd64"),
            Arch::Armel => Some("armel"),
            Arch::Armhf => Some("armhf"),
            Arch::Arm64 => Some("arm64"),
            Arch::I386 => Some("i386"),
            Arch::Ia64 => Some("ia64"),
            Arch::KFreeBsdAmd64 => Some("kfreebsd-amd64"),
            Arch::KFreeBsdI386 => Some("kfreebsd-i386"),
            Arch::Mips => Some("mips"),
            Arch::Mipsel => Some("mipsel"),
            Arch::Mips64 => Some("mips64"),
            Arch::Mips64El => Some("mips64el"),
            Arch::Ppc64El => Some("ppc64el"),
            Arch::S390X => Some("s390x"),
            Arch::LinuxAny => Some("linux-any"),
            Arch::X32 => Some("x32"),
            Arch::ParserBug => None,
        }
    }
}

/// Law: over the closed vocabulary, formatting then parsing is the
/// identity on tags, and parsing then formatting is the identity on
/// tokens; the sentinel never comes out of a parse.
pub proof fn lemma_arch_token_round_trip(a: Arch, s: Seq<char>)
    ensures
        a != Arch::ParserBug ==> arch_of_token(arch_token(a)) == Some(a),
        arch_of_token(s) == Some(a) ==> arch_token(a) == s && a != Arch::ParserBug,
{
    broadcast use vstd::string::group_string_axioms;

    reveal_strlit("all");
    reveal_strlit("any");
    reveal_strlit("amd64");
    reveal_strlit("armel");
    reveal_strlit("armhf");
    reveal_strlit("arm64");
    reveal_strlit("i386");
    reveal_strlit("ia64");
    reveal_strlit("kfreebsd-amd64");
    reveal_strlit("kfreebsd-i386");
    reveal_strlit("mips");
    reveal_strlit("mipsel");
    reveal_strlit("mips64");
    reveal_strlit("mips64el");
    reveal_strlit("ppc64el");
    reveal_strlit("s390x");
    reveal_strlit("linux-any");
    reveal_strlit("x32");
    assert("all"@ =~= seq!['a', 'l', 'l']);
    assert("any"@ =~= seq!['a', 'n', 'y']);
    assert("amd64"@ =~= seq!['a', 'm', 'd', '6', '4']);
    assert("armel"@ =~= seq!['a', 'r', 'm', 'e', 'l']);
    assert("armhf"@ =~= seq!['a', 'r', 'm', 'h', 'f']);
    assert("arm64"@ =~= seq!['a', 'r', 'm', '6', '4']);
    assert("i386"@ =~= seq!['i', '3', '8', '6']);
    assert("ia64"@ =~= seq!['i', 'a', '6', '4']);
    assert("kfreebsd-amd64"@ =~= seq![
        'k', 'f', 'r', 'e', 'e', 'b', 's', 'd', '-', 'a', 'm', 'd', '6', '4',
    ]);
    assert("kfreebsd-i386"@ =~= seq![
        'k', 'f', 'r', 'e', 'e', 'b', 's', 'd', '-', 'i', '3', '8', '6',
    ]);
    assert("mips"@ =~= seq!['m', 'i', 'p', 's']);
    assert("mipsel"@ =~= seq!['m', 'i', 'p', 's', 'e', 'l']);
    assert("mips64"@ =~= seq!['m', 'i', 'p', 's', '6', '4']);
    assert("mips64el"@ =~= seq!['m', 'i', 'p', 's', '6', '4', 'e', 'l']);
    assert("ppc64el"@ =~= seq!['p', 'p', 'c', '6', '4', 'e', 'l']);
    assert("s390x"@ =~= seq!['s', '3', '9', '0', 'x']);
    assert("linux-any"@ =~= seq!['l', 'i', 'n', 'u', 'x', '-', 'a', 'n', 'y']);
    assert("x32"@ =~= seq!['x', '3', '2']);
    if a != Arch::ParserBug {
        match a {
            Arch::All => assert(arch_of_token(arch_token(a)) == Some(a)),
            Arch::Any => assert(arch_of_token(arch_token(a)) == Some(a)),
            Arch::Amd64 => assert(arch_of_token(arch_token(a)) == Some(a)),
            Arch::Armel => assert(arch_of_token(arch_token(a)) == Some(a)),
            Arch::Armhf => assert(arch_of_token(arch_token(a)) == Some(a)),
            Arch::Arm64 => assert(arch_of_token(arch_token(a)) == Some(a)),
            Arch::I386 => assert(arch_of_token(arch_token(a)) == Some(a)),
            Arch::Ia64 => assert(arch_of_token(arch_token(a)) == Some(a)),
            Arch::KFreeBsdAmd64 => assert(arch_of_token(arch_token(a)) == Some(a)),
            Arch::KFreeBsdI386 => assert(arch_of_token(arch_token(a)) == Some(a)),
            Arch::Mips => assert(arch_of_token(arch_token(a)) == Some(a)),
            Arch::Mipsel => assert(arch_of_token(arch_token(a)) == Some(a)),
            Arch::Mips64 => assert(arch_of_token(arch_token(a)) == Some(a)),
            Arch::Mips64El => assert(arch_of_token(arch_token(a)) == Some(a)),
            Arch::Ppc64El => assert(arch_of_token(arch_token(a)) == Some(a)),
            Arch::S390X => assert(arch_of_token(arch_token(a)) == Some(a)),
            Arch::LinuxAny => assert(arch_of_token(arch_token(a)) == Some(a)),
            Arch::X32 => assert(arch_of_token(arch_token(a)) == Some(a)),
            Arch::ParserBug => assert(false),
        }
    }
}

/// The tags of a run with every repeat dropped: the first occurrence of
/// each tag is kept, in order, so the sequence carries a set.
pub open spec fn dedup_arches(s: Seq<Arch>) -> Seq<Arch>
    decreases s.len(),
{
    if s.len() == 0 {
        Seq::empty()
    } else {
        let front = dedup_arches(s.drop_last());
        if front.contains(s.last()) {
            front
        } else {
            front.push(s.last())
        }
    }
}

/// Law: the deduplicated run is the set of the run. It holds a tag
/// exactly when the run does, and it holds no tag twice.
pub proof fn lemma_dedup_arches_set(s: Seq<Arch>)
    ensures
        forall|a: Arch| dedup_arches(s).contains(a) <==> s.contains(a),
        forall|i: int, j: int|
            0 <= i < j < dedup_arches(s).len() ==> dedup_arches(s)[i] != dedup_arches(s)[j],
    decreases s.len(),
{
    broadcast use vstd::seq_lib::lemma_seq_contains_after_push;

    if s.len() > 0 {
        lemma_dedup_arches_set(s.drop_last());
        let front = dedup_arches(s.drop_last());
        assert(s =~= s.drop_last().push(s.last()));
        assert(forall|a: Arch| s.contains(a) <==> s.drop_last().contains(a) || a == s.last());
        if !front.contains(s.last()) {
            assert(forall|a: Arch|
                dedup_arches(s).contains(a) <==> front.contains(a) || a == s.last());
            assert forall|i: int, j: int|
                0 <= i < j < dedup_arches(s).len() implies dedup_arches(s)[i] != dedup_arches(
                s,
            )[j] by {
                if j == front.len() {
                    assert(dedup_arches(s)[i] == front[i]);
                    if front[i] == s.last() {
                        assert(front.contains(s.last()));
                    }
                }
            }
        }
    }
}

/// Whether a run of tags already holds one.
fn arches_contain(arches: &Vec<Arch>, a: Arch) -> (r: bool)
    ensures
        r == arches@.contains(a),
{
    let n = arches.len();
    let mut i: usize = 0;
    while i < n
        invariant
            n == arches@.len(),
            0 <= i <= n,
            forall|k: int| 0 <= k < i ==> arches@[k] != a,
        decreases n - i,
    {
        if arches[i] == a {
            return true;
        }
        i = i + 1;
    }
    false
}

/// Drops every repeated tag of a run, keeping first occurrences in order.
pub fn dedup(arches: &Vec<Arch>) -> (r: Vec<Arch>)
    ensures
        r@ == dedup_arches(arches@),
{
    let n = arches.len();
    let mut out: Vec<Arch> = Vec::new();
    proof {
        assert(arches@.take(0) =~= Seq::<Arch>::empty());
    }
    let mut i: usize = 0;
    while i < n
        invariant
            n == arches@.len(),
            0 <= i <= n,
            out@ == dedup_arches(arches@.take(i as int)),
        decreases n - i,
    {
        proof {
            assert(arches@.take(i + 1).drop_last() =~= arches@.take(i as int));
            assert(arches@.take(i + 1).last() == arches@[i as int]);
        }
        let a = arches[i];
        if !arches_contain(&out, a) {
            out.push(a);
        }
        i = i + 1;
    }
    proof {
        assert(arches@.take(n as int) =~= arches@);
    }
    out
}

} // verus!
