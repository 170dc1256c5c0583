//! The host platform as the launcher sees it, and the comparison of dotted
//! version identifiers.
use crate::text::{pieces, split, to_chars};
use vstd::prelude::*;

verus! {

/// The operating system of the host.
#[derive(Clone, Copy, Debug, PartialEq, Eq, Structural)]
pub enum OSType {
    Windows,
    MacOS,
    Linux,
}

/// The processor architecture of the host.
#[derive(Clone, Copy, Debug, PartialEq, Eq, Structural)]
pub enum OSArch {
    X86,
    X86_64,
    Aarch64,
}

/// What is known of the host: detected once, then only read.
#[derive(Clone, Debug)]
pub struct PlatformInfo {
    pub os: OSType,
    pub arch: OSArch,
    pub os_version: String,
}

/// A [`PlatformInfo`] with its text as a sequence of characters.
pub struct PlatformInfoView {
    pub os: OSType,
    pub arch: OSArch,
    pub os_version: Seq<char>,
}

impl DeepView for PlatformInfo {
    type V = PlatformInfoView;

    open spec fn deep_view(&self) -> PlatformInfoView {
        PlatformInfoView { os: self.os, arch: self.arch, os_version: self.os_version@ }
    }
}

/// The name by which version metadata calls an operating system in its rules.
pub open spec fn os_rule_name(os: OSType) -> Seq<char> {
    match os {
        OSType::Windows => "windows"@,
        OSType::MacOS => "osx"@,
        OSType::Linux => "linux"@,
    }
}

/// The name by which version metadata calls an architecture in its rules.
pub open spec fn arch_rule_name(arch: OSArch) -> Seq<char> {
    match arch {
        OSArch::X86 => "x86"@,
        OSArch::X86_64 => "x64"@,
        OSArch::Aarch64 => "arm"@,
    }
}

/// The name by which version metadata calls `os` in its rules.
pub fn get_os_rule_name(os: OSType) -> (name: &'static str)
    ensures
        name@ == os_rule_name(os),
{
    match os {
        OSType::Windows => "windows",
        OSType::MacOS => "osx",
        OSType::Linux => "linux",
    }
}

/// The name by which version metadata calls `arch` in its rules.
pub fn get_arch_rule_name(arch: OSArch) -> (name: &'static str)
    ensures
        name@ == arch_rule_name(arch),
{
    match arch {
        OSArch::X86 => "x86",
        OSArch::X86_64 => "x64",
        OSArch::Aarch64 => "arm",
    }
}

/// `c` is one of the ten decimal digits.
pub open spec fn is_digit(c: char) -> bool {
    '0' <= c && c <= '9'
}

/// The number that the digit `c` stands for.
pub open spec fn digit_value(c: char) -> nat {
    (c as int - '0' as int) as nat
}

/// How many digits `s` begins with.
pub open spec fn digit_run(s: Seq<char>) -> nat
    decreases s.len(),
{
    if s.len() == 0 || !is_digit(s[0]) {
        0
    } else {
        1 + digit_run(s.drop_first())
    }
}

/// The number that a text of digits writes in base ten; zero for no digits.
pub open spec fn digits_value(s: Seq<char>) -> nat
    decreases s.len(),
{
    if s.len() == 0 {
        0
    } else {
        digits_value(s.drop_last()) * 10 + digit_value(s.last())
    }
}

/// The number written by the digits that `s` begins with; what follows the
/// first character that is no digit is not read.
pub open spec fn leading_number(s: Seq<char>) -> nat {
    digits_value(s.subrange(0, digit_run(s) as int))
}

/// The numbers of a dotted version identifier: one for each piece between
/// dots.
pub open spec fn version_numbers(version: Seq<char>) -> Seq<nat> {
    pieces(version, '.').map_values(|piece: Seq<char>| leading_number(piece))
}

/// The `i`-th number of a version; a version counts as followed by zeros
/// without end, so that "1.13" and "1.13.0" are the same version.
pub open spec fn number_at(v: Seq<nat>, i: int) -> nat {
    if 0 <= i < v.len() {
        v[i]
    } else {
        0
    }
}

/// `a` and `b` agree before position `k`, where `a` has the greater number.
pub open spec fn leads_at(a: Seq<nat>, b: Seq<nat>, k: int) -> bool {
    &&& 0 <= k
    &&& number_at(a, k) > number_at(b, k)
    &&& forall|j: int| 0 <= j < k ==> #[trigger] number_at(a, j) == number_at(b, j)
}

/// Version `a` is `b` or a later one: they agree everywhere, or `a` has the
/// greater number where they first differ.
pub open spec fn version_at_least(a: Seq<nat>, b: Seq<nat>) -> bool {
    ||| forall|i: int| 0 <= i ==> #[trigger] number_at(a, i) == number_at(b, i)
    ||| exists|k: int| leads_at(a, b, k)
}

/// A text whose first `i` characters are digits, and whose next one is not,
/// begins with exactly `i` digits.
proof fn lemma_digit_run(s: Seq<char>, i: nat)
    requires
        i <= s.len(),
        forall|j: int| 0 <= j < i ==> is_digit(s[j]),
        i == s.len() || !is_digit(s[i as int]),
    ensures
        digit_run(s) == i,
    decreases i,
{
    if i > 0 {
        let rest = s.drop_first();
        assert(forall|j: int| 0 <= j < i - 1 ==> rest[j] == s[j + 1]);
        lemma_digit_run(rest, (i - 1) as nat);
    }
}

/// A version that agrees with `b` before position `i`, where `b` has only
/// zeros from there on, is at least `b`.
proof fn lemma_at_least_zero_tail(a: Seq<nat>, b: Seq<nat>, i: int)
    requires
        0 <= i,
        forall|j: int| 0 <= j < i ==> #[trigger] number_at(a, j) == number_at(b, j),
        forall|j: int| i <= j ==> #[trigger] number_at(b, j) == 0,
    ensures
        version_at_least(a, b),
    decreases a.len() - i,
{
    if i >= a.len() {
        assert(forall|j: int| 0 <= j ==> #[trigger] number_at(a, j) == number_at(b, j));
    } else if number_at(a, i) > 0 {
        assert(leads_at(a, b, i));
    } else {
        lemma_at_least_zero_tail(a, b, i + 1);
    }
}

/// Against a version of two numbers, only the first two numbers of the other
/// side decide.
pub proof fn lemma_at_least_two_numbers(a: Seq<nat>, major: nat, minor: nat)
    ensures
        version_at_least(a, seq![major, minor]) <==> (number_at(a, 0) > major || (number_at(a, 0)
            == major && number_at(a, 1) >= minor)),
{
    let b = seq![major, minor];
    assert(number_at(b, 0) == major);
    assert(number_at(b, 1) == minor);
    if number_at(a, 0) > major {
        assert(leads_at(a, b, 0));
    } else if number_at(a, 0) == major && number_at(a, 1) > minor {
        assert(leads_at(a, b, 1));
    } else if number_at(a, 0) == major && number_at(a, 1) == minor {
        lemma_at_least_zero_tail(a, b, 2);
    } else {
        assert(!version_at_least(a, b)) by {
            assert(number_at(a, 0) != number_at(b, 0) || number_at(a, 1) != number_at(b, 1));
            assert forall|k: int| !leads_at(a, b, k) by {
                if leads_at(a, b, k) {
                    if k == 0 {
                    } else if k == 1 {
                        assert(number_at(a, 0) == number_at(b, 0));
                    } else {
                        assert(number_at(a, 0) == number_at(b, 0));
                        assert(number_at(a, 1) == number_at(b, 1));
                    }
                }
            }
        }
    }
}

/// Whether `c` is a decimal digit.
fn is_digit_char(c: char) -> (b: bool)
    ensures
        b == is_digit(c),
{
    c >= '0' && c <= '9'
}

/// The number that `piece` begins with, or `None` where it is too great for
/// a `u64`.
fn parse_leading_number(piece: &str) -> (out: Option<u64>)
    ensures
        match out {
            Some(v) => v == leading_number(piece@),
            None => leading_number(piece@) > u64::MAX,
        },
{
    let chars = to_chars(piece);
    let n: usize = chars.len();
    let mut acc: Option<u64> = Some(0);
    let mut i: usize = 0;
    assert(piece@.subrange(0, 0) =~= Seq::<char>::empty());
    while i < n && is_digit_char(chars[i])
        invariant
            chars@ == piece@,
            n == piece@.len(),
            i <= n,
            forall|j: int| 0 <= j < i ==> is_digit(piece@[j]),
            match acc {
                Some(v) => v == digits_value(piece@.subrange(0, i as int)),
                None => digits_value(piece@.subrange(0, i as int)) > u64::MAX,
            },
        decreases n - i,
    {
        let c: char = chars[i];
        let d: u64 = (c as u32 - 48) as u64;
        assert(d == digit_value(c));
        assert(piece@.subrange(0, i + 1).drop_last() =~= piece@.subrange(0, i as int));
        assert(piece@.subrange(0, i + 1).last() == c);
        acc = match acc {
            Some(v) => {
                if v <= (u64::MAX - d) / 10 {
                    Some(v * 10 + d)
                } else {
                    None
                }
            },
            None => None,
        };
        i = i + 1;
    }
    proof {
        lemma_digit_run(piece@, i as nat);
    }
    acc
}

/// Whether `version` is the version `major.minor` or a later one, by its
/// numbers and not by its characters: "1.9" comes before "1.13".
pub fn is_mc_version(major: u64, minor: u64, version: &str) -> (later: bool)
    ensures
        later == version_at_least(version_numbers(version@), seq![major as nat, minor as nat]),
{
    let parts = split(version, '.');
    proof {
        crate::text::lemma_pieces_nonempty(version@, '.');
        lemma_at_least_two_numbers(version_numbers(version@), major as nat, minor as nat);
    }
    let first = parse_leading_number(parts[0].as_str());
    assert(parts.deep_view()[0] == parts[0]@);
    match first {
        None => true,
        Some(a) => {
            if a > major {
                true
            } else if a < major {
                false
            } else if parts.len() < 2 {
                minor == 0
            } else {
                assert(parts.deep_view()[1] == parts[1]@);
                match parse_leading_number(parts[1].as_str()) {
                    None => true,
                    Some(b) => b >= minor,
                }
            }
        },
    }
}

} // verus!
