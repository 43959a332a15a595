//! Versions and version requirements.
//!
//! Parsing, ordering and requirement matching are those of the `semver`
//! crate.  The crate's results are given names here, and the functions of
//! this library state what they return in terms of those names.

use vstd::prelude::*;
use crate::text::{chars_of, decimal, push_decimal, split, split_chars, views};

verus! {

/// A semantic version: three numbers, and the pre-release and build texts,
/// each empty where the version has none.
#[derive(Clone, Debug, PartialEq, Eq)]
pub struct Version {
    pub major: u64,
    pub minor: u64,
    pub patch: u64,
    pub pre: String,
    pub build: String,
}

/// The model of a [`Version`].
pub struct VersionModel {
    pub major: nat,
    pub minor: nat,
    pub patch: nat,
    pub pre: Seq<char>,
    pub build: Seq<char>,
}

impl View for Version {
    type V = VersionModel;

    open spec fn view(&self) -> VersionModel {
        VersionModel {
            major: self.major as nat,
            minor: self.minor as nat,
            patch: self.patch as nat,
            pre: self.pre@,
            build: self.build@,
        }
    }
}

impl VersionModel {
    /// The text of the version: the three numbers with dots between them,
    /// then a hyphen and the pre-release text, then a plus sign and the build
    /// text, each only where the text is not empty.
    pub open spec fn text(self) -> Seq<char> {
        let numbers = decimal(self.major) + seq!['.'] + decimal(self.minor) + seq!['.'] + decimal(
            self.patch,
        );
        let with_pre = if self.pre.len() > 0 {
            numbers + seq!['-'] + self.pre
        } else {
            numbers
        };
        if self.build.len() > 0 {
            with_pre + seq!['+'] + self.build
        } else {
            with_pre
        }
    }

    /// The first two numbers with a dot between them.
    pub open spec fn short(self) -> Seq<char> {
        decimal(self.major) + seq!['.'] + decimal(self.minor)
    }

    /// The three numbers with dots between them.
    pub open spec fn numbers(self) -> Seq<char> {
        decimal(self.major) + seq!['.'] + decimal(self.minor) + seq!['.'] + decimal(self.patch)
    }

    /// The three numbers of `self` come before those of `other`, compared
    /// number by number from the left.
    pub open spec fn numbers_precede(self, other: VersionModel) -> bool {
        self.major < other.major || (self.major == other.major && (self.minor < other.minor || (
        self.minor == other.minor && self.patch < other.patch)))
    }

    /// The two versions have the same three numbers.
    pub open spec fn same_numbers(self, other: VersionModel) -> bool {
        self.major == other.major && self.minor == other.minor && self.patch == other.patch
    }
}

/// What `semver::Version::parse` makes of a text: the version, or `None`
/// where it reports an error.
pub uninterp spec fn semver_parse(text: Seq<char>) -> Option<VersionModel>;

/// Whether `a` is less than `b` in the order of `semver::Version`, or `None`
/// where the crate refuses the pre-release or the build text of one of them.
pub uninterp spec fn semver_precedes(a: VersionModel, b: VersionModel) -> Option<bool>;

/// What `semver::VersionReq::parse` makes of a text, written out again: the
/// requirement in the crate's own notation, or `None` where it reports an
/// error.
pub uninterp spec fn semver_requirement(text: Seq<char>) -> Option<Seq<char>>;

/// Whether the requirement that `semver::VersionReq::parse` makes of
/// `requirement` matches `version`, or `None` where the crate makes no
/// requirement of the text or refuses the pre-release or the build text of
/// the version.
pub uninterp spec fn semver_matches(requirement: Seq<char>, version: VersionModel) -> Option<bool>;

/// `a` comes before `b`: in the order of the `semver` crate where the crate
/// takes both versions, and by the three numbers alone where it refuses a
/// text of one of them.
pub open spec fn precedes(a: VersionModel, b: VersionModel) -> bool {
    match semver_precedes(a, b) {
        Some(less) => less,
        None => a.numbers_precede(b),
    }
}

/// The requirement admits the version: the `semver` crate takes both and
/// says that the requirement matches.
pub open spec fn admits(requirement: Seq<char>, version: VersionModel) -> bool {
    semver_matches(requirement, version) == Some(true)
}

/// The error of the `semver` crate.  It is handed on and never looked into.
#[verifier::external_type_specification]
#[verifier::external_body]
pub struct ExSemverError(semver::Error);

/// Calls `semver::Version::parse` and copies the fields of the version that
/// it returns.  The result is the one that `semver_parse` names.
#[verifier::external_body]
fn parse_with_semver(text: &str) -> (parsed: Result<Version, semver::Error>)
    ensures
        match parsed {
            Ok(v) => semver_parse(text@) == Some(v@),
            Err(_) => semver_parse(text@) is None,
        },
{
    semver::Version::parse(text).map(
        |v|
            Version {
                major: v.major,
                minor: v.minor,
                patch: v.patch,
                pre: v.pre.as_str().to_owned(),
                build: v.build.as_str().to_owned(),
            },
    )
}

/// Builds two `semver::Version`s, with `semver::Prerelease::new` and
/// `semver::BuildMetadata::new` for the texts, and compares them with `<`,
/// whose derived order goes by major, minor, patch, pre-release and build, in
/// this order.  The result is the one that `semver_precedes` names: `None`
/// where the crate refuses a text.  Where the three numbers differ they
/// decide, as the crate documents.
#[verifier::external_body]
fn precedes_with_semver(a: &Version, b: &Version) -> (less: Option<bool>)
    ensures
        less == semver_precedes(a@, b@),
        less is Some && !a@.same_numbers(b@) ==> less == Some(a@.numbers_precede(b@)),
{
    let x = semver::Version {
        major: a.major,
        minor: a.minor,
        patch: a.patch,
        pre: semver::Prerelease::new(&a.pre).ok()?,
        build: semver::BuildMetadata::new(&a.build).ok()?,
    };
    let y = semver::Version {
        major: b.major,
        minor: b.minor,
        patch: b.patch,
        pre: semver::Prerelease::new(&b.pre).ok()?,
        build: semver::BuildMetadata::new(&b.build).ok()?,
    };
    Some(x < y)
}

/// Calls `semver::VersionReq::parse` and writes the requirement out again
/// with the crate's `Display`.  The result is the one that
/// `semver_requirement` names.
#[verifier::external_body]
fn requirement_with_semver(text: &str) -> (parsed: Result<String, semver::Error>)
    ensures
        match parsed {
            Ok(canonical) => semver_requirement(text@) == Some(canonical@),
            Err(_) => semver_requirement(text@) is None,
        },
{
    semver::VersionReq::parse(text).map(|r| r.to_string())
}

/// Calls `semver::VersionReq::parse` on the requirement, builds a
/// `semver::Version` as [`precedes_with_semver`] does, and calls
/// `semver::VersionReq::matches`.  The result is the one that
/// `semver_matches` names: `None` where the crate refuses a text.
#[verifier::external_body]
fn matches_with_semver(requirement: &str, version: &Version) -> (hit: Option<bool>)
    ensures
        hit == semver_matches(requirement@, version@),
{
    let v = semver::Version {
        major: version.major,
        minor: version.minor,
        patch: version.patch,
        pre: semver::Prerelease::new(&version.pre).ok()?,
        build: semver::BuildMetadata::new(&version.build).ok()?,
    };
    Some(semver::VersionReq::parse(requirement).ok()?.matches(&v))
}

/// Why a text is no version or no requirement.
#[derive(Clone, Debug, PartialEq, Eq)]
pub enum VersionError {
    /// No text was given.
    Missing,
    /// The text is not a semantic version.
    Malformed { text: String },
    /// The text is not a version requirement.
    MalformedRequirement { text: String },
    /// The text does not consist of three numbers with dots between them.
    NotMajorMinorPatch { text: String },
}

impl VersionError {
    /// The text that the error is about; empty for [`VersionError::Missing`].
    pub open spec fn text(self) -> Seq<char> {
        match self {
            VersionError::Missing => Seq::empty(),
            VersionError::Malformed { text } => text@,
            VersionError::MalformedRequirement { text } => text@,
            VersionError::NotMajorMinorPatch { text } => text@,
        }
    }
}

impl Version {
    /// The version with these three numbers, and neither pre-release nor
    /// build text.
    pub fn new(major: u64, minor: u64, patch: u64) -> (v: Version)
        ensures
            v@ == (VersionModel {
                major: major as nat,
                minor: minor as nat,
                patch: patch as nat,
                pre: Seq::empty(),
                build: Seq::empty(),
            }),
    {
        Version { major, minor, patch, pre: String::new(), build: String::new() }
    }

    /// Reads a semantic version.
    pub fn parse(text: &str) -> (parsed: Result<Version, VersionError>)
        ensures
            match parsed {
                Ok(v) => semver_parse(text@) == Some(v@),
                Err(e) => semver_parse(text@) is None && e is Malformed && e.text() == text@,
            },
    {
        match parse_with_semver(text) {
            Ok(v) => Ok(v),
            Err(_) => Err(VersionError::Malformed { text: String::from_str(text) }),
        }
    }

    /// Whether the three numbers of `self` come before those of `other`,
    /// compared number by number from the left.
    pub fn numbers_precede(&self, other: &Version) -> (less: bool)
        ensures
            less == self@.numbers_precede(other@),
    {
        self.major < other.major || (self.major == other.major && (self.minor < other.minor || (
        self.minor == other.minor && self.patch < other.patch)))
    }

    /// Whether `self` comes before `other` in the order of semantic
    /// versions.  Where the three numbers differ, they decide; they also
    /// decide where a pre-release or build text is none that the `semver`
    /// crate takes.
    pub fn precedes(&self, other: &Version) -> (less: bool)
        ensures
            less == precedes(self@, other@),
            !self@.same_numbers(other@) ==> less == self@.numbers_precede(other@),
    {
        match precedes_with_semver(self, other) {
            Some(less) => less,
            None => self.numbers_precede(other),
        }
    }

    /// The text of the version, such as `3.12.1` or `1.0.0-rc.1+build5`.
    pub fn to_text(&self) -> (text: String)
        ensures
            text@ == self@.text(),
    {
        let mut text = self.numbers();
        if self.pre.as_str().unicode_len() > 0 {
            text.append("-");
            text.append(self.pre.as_str());
        }
        if self.build.as_str().unicode_len() > 0 {
            text.append("+");
            text.append(self.build.as_str());
        }
        proof {
            reveal_strlit("-");
            reveal_strlit("+");
            assert("-"@ =~= seq!['-']);
            assert("+"@ =~= seq!['+']);
        }
        text
    }

    /// The three numbers with dots between them, such as `3.12.1`.
    pub fn numbers(&self) -> (text: String)
        ensures
            text@ == self@.numbers(),
    {
        let mut text = self.short();
        text.append(".");
        push_decimal(&mut text, self.patch);
        proof {
            reveal_strlit(".");
            assert("."@ =~= seq!['.']);
        }
        text
    }

    /// The first two numbers with a dot between them, such as `3.12`.
    pub fn short(&self) -> (text: String)
        ensures
            text@ == self@.short(),
    {
        let mut text = String::new();
        push_decimal(&mut text, self.major);
        text.append(".");
        push_decimal(&mut text, self.minor);
        proof {
            reveal_strlit(".");
            assert("."@ =~= seq!['.']);
            assert(text@ =~= self@.short());
        }
        text
    }

}

/// Reads the version that a user wrote.
pub fn user_string_to_version(version: &String) -> (parsed: Result<Version, VersionError>)
    ensures
        match parsed {
            Ok(v) => semver_parse(version@) == Some(v@),
            Err(e) => semver_parse(version@) is None && e is Malformed && e.text() == version@,
        },
{
    Version::parse(version.as_str())
}

/// A version requirement, such as `^1.2` or `>=1.0, <2`, in the notation in
/// which the `semver` crate writes it out.
#[derive(Clone, Debug, PartialEq, Eq)]
pub struct VersionReq {
    text: String,
}

impl View for VersionReq {
    type V = Seq<char>;

    closed spec fn view(&self) -> Seq<char> {
        self.text@
    }
}

impl VersionReq {
    /// The requirement `*`, which makes no demand on the numbers.
    pub fn any() -> (req: VersionReq)
        ensures
            req@ == seq!['*'],
    {
        proof {
            reveal_strlit("*");
            assert("*"@ =~= seq!['*']);
        }
        VersionReq { text: String::from_str("*") }
    }

    /// Reads a requirement.  What is kept is the requirement as the `semver`
    /// crate writes it out, so `1.2` is kept as `^1.2`.
    pub fn parse(text: &str) -> (parsed: Result<VersionReq, VersionError>)
        ensures
            match parsed {
                Ok(req) => semver_requirement(text@) == Some(req@),
                Err(e) => semver_requirement(text@) is None && e is MalformedRequirement
                    && e.text() == text@,
            },
    {
        match requirement_with_semver(text) {
            Ok(canonical) => Ok(VersionReq { text: canonical }),
            Err(_) => Err(VersionError::MalformedRequirement { text: String::from_str(text) }),
        }
    }

    /// The requirement where one was written, and [`VersionReq::any`] where
    /// none was: the absence of a requirement is no error.
    pub fn parse_or_any(text: Option<&str>) -> (parsed: Result<VersionReq, VersionError>)
        ensures
            match text {
                None => parsed matches Ok(req) && req@ == seq!['*'],
                Some(t) => match parsed {
                    Ok(req) => semver_requirement(t@) == Some(req@),
                    Err(e) => semver_requirement(t@) is None && e is MalformedRequirement
                        && e.text() == t@,
                },
            },
    {
        match text {
            None => Ok(VersionReq::any()),
            Some(t) => VersionReq::parse(t),
        }
    }

    /// Whether the requirement admits `version`.  It admits no version
    /// whose pre-release or build text is none that the `semver` crate takes.
    pub fn matches(&self, version: &Version) -> (hit: bool)
        ensures
            hit == admits(self@, version@),
    {
        match matches_with_semver(self.text.as_str(), version) {
            Some(hit) => hit,
            None => false,
        }
    }

    /// The text of the requirement.
    pub fn to_text(&self) -> (text: String)
        ensures
            text@ == self@,
    {
        self.text.clone()
    }
}

/// The digit that a character stands for.
pub open spec fn digit_value(c: char) -> nat {
    if c == '1' {
        1
    } else if c == '2' {
        2
    } else if c == '3' {
        3
    } else if c == '4' {
        4
    } else if c == '5' {
        5
    } else if c == '6' {
        6
    } else if c == '7' {
        7
    } else if c == '8' {
        8
    } else if c == '9' {
        9
    } else {
        0
    }
}

/// The character is one of `0` to `9`.
pub open spec fn is_digit(c: char) -> bool {
    c == '0' || c == '1' || c == '2' || c == '3' || c == '4' || c == '5' || c == '6' || c == '7'
        || c == '8' || c == '9'
}

/// The number that a text of digits stands for.
pub open spec fn digits_value(s: Seq<char>) -> nat
    decreases s.len(),
{
    if s.len() == 0 {
        0
    } else {
        digits_value(s.drop_last()) * 10 + digit_value(s.last())
    }
}

/// The text without the plus sign that it may begin with.
pub open spec fn unsigned_part(s: Seq<char>) -> Seq<char> {
    if s.len() > 0 && s[0] == '+' {
        s.skip(1)
    } else {
        s
    }
}

/// The text is a number that fits in 32 bits: an optional plus sign, then
/// one digit or more, leading zeros allowed.
pub open spec fn is_u32_text(s: Seq<char>) -> bool {
    let digits = unsigned_part(s);
    &&& digits.len() > 0
    &&& forall|i: int| 0 <= i < digits.len() ==> is_digit(#[trigger] digits[i])
    &&& digits_value(digits) <= u32::MAX
}

/// The text consists of exactly three numbers with dots between them.
pub open spec fn is_major_minor_patch(s: Seq<char>) -> bool {
    let parts = split(s, '.');
    &&& parts.len() == 3
    &&& forall|i: int| 0 <= i < 3 ==> is_u32_text(#[trigger] parts[i])
}

/// A longer text of digits stands for no smaller number than its beginning.
proof fn lemma_digits_value_grows(s: Seq<char>, n: int)
    requires
        0 <= n <= s.len(),
    ensures
        digits_value(s.take(n)) <= digits_value(s),
    decreases s.len() - n,
{
    if n < s.len() {
        lemma_digits_value_grows(s, n + 1);
        assert(s.take(n + 1).drop_last() =~= s.take(n));
    } else {
        assert(s.take(n) =~= s);
    }
}

/// The digit that `c` stands for, or `None` where it is no digit.
fn digit_of(c: char) -> (d: Option<u64>)
    ensures
        d is Some == is_digit(c),
        d matches Some(v) ==> v == digit_value(c) && v < 10,
{
    if c == '0' {
        Some(0)
    } else if c == '1' {
        Some(1)
    } else if c == '2' {
        Some(2)
    } else if c == '3' {
        Some(3)
    } else if c == '4' {
        Some(4)
    } else if c == '5' {
        Some(5)
    } else if c == '6' {
        Some(6)
    } else if c == '7' {
        Some(7)
    } else if c == '8' {
        Some(8)
    } else if c == '9' {
        Some(9)
    } else {
        None
    }
}

/// Whether a text is a number that fits in 32 bits.
pub fn fits_u32(s: &Vec<char>) -> (ok: bool)
    ensures
        ok == is_u32_text(s@),
{
    let start: usize = if s.len() > 0 && s[0] == '+' {
        1
    } else {
        0
    };
    let ghost digits = unsigned_part(s@);
    assert(digits =~= s@.skip(start as int));
    if start == s.len() {
        return false;
    }
    let mut value: u64 = 0;
    let mut i: usize = start;
    while i < s.len()
        invariant
            start <= i <= s.len(),
            digits == unsigned_part(s@),
            digits =~= s@.skip(start as int),
            forall|k: int| 0 <= k < i - start ==> is_digit(#[trigger] digits[k]),
            value == digits_value(digits.take(i - start)),
            value <= u32::MAX,
        decreases s.len() - i,
    {
        let c = s[i];
        assert(digits[i - start] == c);
        match digit_of(c) {
            None => {
                return false;
            },
            Some(d) => {
                let next: u64 = value * 10 + d;
                proof {
                    assert(digits.take(i - start + 1).drop_last() =~= digits.take(i - start));
                    assert(digits.take(i - start + 1).last() == c);
                    assert(next == digits_value(digits.take(i - start + 1)));
                }
                if next > 0xffff_ffff {
                    proof {
                        lemma_digits_value_grows(digits, i - start + 1);
                    }
                    return false;
                }
                value = next;
            },
        }
        i += 1;
    }
    assert(digits.take(i - start) =~= digits);
    true
}

/// Checks that a text consists of exactly three numbers with dots between
/// them, each of which fits in 32 bits.
pub fn assert_major_minor_patch(py_version: &str) -> (checked: Result<(), VersionError>)
    ensures
        checked is Ok == is_major_minor_patch(py_version@),
        checked matches Err(e) ==> e is NotMajorMinorPatch && e.text() == py_version@,
{
    let chars = chars_of(py_version);
    let parts = split_chars(&chars, '.');
    if parts.len() != 3 {
        return Err(VersionError::NotMajorMinorPatch { text: String::from_str(py_version) });
    }
    let mut i: usize = 0;
    while i < 3
        invariant
            i <= 3,
            parts.len() == 3,
            views(parts@) == split(py_version@, '.'),
            forall|k: int| 0 <= k < i ==> is_u32_text(#[trigger] split(py_version@, '.')[k]),
        decreases 3 - i,
    {
        assert(views(parts@)[i as int] == parts@[i as int]@);
        if !fits_u32(&parts[i]) {
            return Err(VersionError::NotMajorMinorPatch { text: String::from_str(py_version) });
        }
        i += 1;
    }
    Ok(())
}

} // verus!
