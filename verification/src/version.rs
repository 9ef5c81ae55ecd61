//! Semantic versions: their model, their text form and their precedence.
//!
//! Parsing and the comparison of pre-release and build identifiers are done
//! by the `semver` crate; everything else is verified here.

use crate::error::UpdateError;
use crate::text::decimal;
use crate::text::decimal_string;
use crate::text::is_digit;
use crate::text::law_decimal_is_one_to_one;
use crate::text::lemma_cut_is_unique;
use crate::text::lemma_decimal_holds_digits;
use crate::text::strip_leading;
use crate::text::trim_start_matches;
use std::cmp::Ordering;
use vstd::prelude::*;
use vstd::string::StrSliceExecFns;
use vstd::string::StringExecFns;

verus! {

/// The longest text, in characters, that is handed to the parser.
pub const MAX_TAG_CHARS: usize = 0x7fff_0000;

/// How one version stands to another.
#[derive(Clone, Copy, Debug, PartialEq, Eq, Structural)]
pub enum Precedence {
    Lower,
    Same,
    Higher,
}

impl Precedence {
    /// The same relation, seen from the other side.
    pub open spec fn reversed(self) -> Precedence {
        match self {
            Precedence::Lower => Precedence::Higher,
            Precedence::Same => Precedence::Same,
            Precedence::Higher => Precedence::Lower,
        }
    }
}

/// The mathematical content of a version.
pub struct VersionView {
    pub major: u64,
    pub minor: u64,
    pub patch: u64,
    pub pre: Seq<char>,
    pub build: Seq<char>,
}

/// A character that an identifier may hold: an ASCII letter, a digit or a
/// hyphen.
pub open spec fn is_identifier_char(c: char) -> bool {
    is_digit(c) || ('A' <= c && c <= 'Z') || ('a' <= c && c <= 'z') || c == '-'
}

/// `s[from..to]` is one of the dot-separated segments of `s`.
pub open spec fn is_segment(s: Seq<char>, from: int, to: int) -> bool {
    &&& 0 <= from <= to <= s.len()
    &&& from == 0 || s[from - 1] == '.'
    &&& to == s.len() || s[to] == '.'
    &&& forall|k: int| from <= k < to ==> s[k] != '.'
}

/// `s` is empty, or a dot-separated series of non-empty identifiers made of
/// ASCII letters, digits and hyphens.
pub open spec fn dotted_identifiers(s: Seq<char>) -> bool {
    s.len() == 0 || {
        &&& forall|i: int| 0 <= i < s.len() ==> is_identifier_char(#[trigger] s[i]) || s[i] == '.'
        &&& forall|from: int, to: int| #[trigger] is_segment(s, from, to) ==> from < to
    }
}

/// No segment of `s` is a number written with a leading zero.
pub open spec fn numbers_without_leading_zero(s: Seq<char>) -> bool {
    forall|from: int, to: int|
        #[trigger] is_segment(s, from, to) && to - from > 1 && (forall|k: int|
            from <= k < to ==> is_digit(s[k])) ==> s[from] != '0'
}

/// The grammar of a pre-release identifier: empty, or dot-separated
/// identifiers of which none is a number with a leading zero.
pub open spec fn valid_prerelease(s: Seq<char>) -> bool {
    &&& s.len() <= MAX_TAG_CHARS
    &&& dotted_identifiers(s)
    &&& numbers_without_leading_zero(s)
}

/// The grammar of a build identifier: empty, or dot-separated
/// identifiers; here a number may have leading zeros.
pub open spec fn valid_build(s: Seq<char>) -> bool {
    &&& s.len() <= MAX_TAG_CHARS
    &&& dotted_identifiers(s)
}

impl VersionView {
    /// Both identifiers follow the grammar of semantic versions.
    pub open spec fn wf(self) -> bool {
        valid_prerelease(self.pre) && valid_build(self.build)
    }

    /// A version with a pre-release identifier is a pre-release.
    pub open spec fn is_prerelease(self) -> bool {
        self.pre.len() > 0
    }

    /// The text form: `major.minor.patch`, then `-` and the pre-release
    /// identifier if there is one, then `+` and the build identifier if there
    /// is one.
    pub open spec fn text(self) -> Seq<char> {
        decimal(self.major as nat) + seq!['.'] + decimal(self.minor as nat) + seq!['.'] + decimal(
            self.patch as nat,
        ) + (if self.pre.len() > 0 {
            seq!['-'] + self.pre
        } else {
            Seq::<char>::empty()
        }) + (if self.build.len() > 0 {
            seq!['+'] + self.build
        } else {
            Seq::<char>::empty()
        })
    }
}

/// What `semver::Version::parse` makes of a text: the parts of the version,
/// or `None` where the text is not a semantic version.
pub uninterp spec fn semver_parse(text: Seq<char>) -> Option<VersionView>;

/// The version that a text stands for: what `semver` reads in it, and
/// nothing where the text is longer than `MAX_TAG_CHARS`.
pub open spec fn version_of(text: Seq<char>) -> Option<VersionView> {
    if text.len() <= MAX_TAG_CHARS {
        semver_parse(text)
    } else {
        None
    }
}

/// The version that a release tag stands for: that of the tag without its
/// leading run of `v`.
pub open spec fn tag_version(tag: Seq<char>) -> Option<VersionView> {
    version_of(strip_leading(tag, 'v'))
}

/// Whether `semver` orders the pre-release identifier `a` before `b`.
pub uninterp spec fn prerelease_precedes(a: Seq<char>, b: Seq<char>) -> bool;

/// Whether `semver` orders the build identifier `a` before `b`.
pub uninterp spec fn build_precedes(a: Seq<char>, b: Seq<char>) -> bool;

/// Precedence of pre-release identifiers: equal identifiers are the same; no
/// identifier (a release) stands above any identifier; two different
/// identifiers stand as `semver` orders them.
pub open spec fn prerelease_precedence(a: Seq<char>, b: Seq<char>) -> Precedence {
    if a == b {
        Precedence::Same
    } else if a.len() == 0 {
        Precedence::Higher
    } else if b.len() == 0 {
        Precedence::Lower
    } else if prerelease_precedes(a, b) {
        Precedence::Lower
    } else {
        Precedence::Higher
    }
}

/// Precedence of build identifiers: equal identifiers are the same, two
/// different ones stand as `semver` orders them.
pub open spec fn build_precedence(a: Seq<char>, b: Seq<char>) -> Precedence {
    if a == b {
        Precedence::Same
    } else if build_precedes(a, b) {
        Precedence::Lower
    } else {
        Precedence::Higher
    }
}

/// Precedence of numbers.
pub open spec fn number_precedence(a: u64, b: u64) -> Precedence {
    if a < b {
        Precedence::Lower
    } else if a == b {
        Precedence::Same
    } else {
        Precedence::Higher
    }
}

/// The order of versions: major, minor and patch compared as numbers,
/// then the pre-release identifiers, then the build identifiers.
pub open spec fn precedence(a: VersionView, b: VersionView) -> Precedence {
    if a.major != b.major {
        number_precedence(a.major, b.major)
    } else if a.minor != b.minor {
        number_precedence(a.minor, b.minor)
    } else if a.patch != b.patch {
        number_precedence(a.patch, b.patch)
    } else if a.pre != b.pre {
        prerelease_precedence(a.pre, b.pre)
    } else {
        build_precedence(a.build, b.build)
    }
}

/// Every version stands level with itself, and with no other.
pub proof fn law_same_precedence_is_equality(a: VersionView, b: VersionView)
    ensures
        precedence(a, b) == Precedence::Same <==> a == b,
{
    if precedence(a, b) == Precedence::Same {
        assert(a.pre =~= b.pre);
        assert(a.build =~= b.build);
    }
}

/// A pre-release stands below the release with the same numbers.
pub proof fn law_prerelease_is_below_its_release(a: VersionView, b: VersionView)
    requires
        a.major == b.major,
        a.minor == b.minor,
        a.patch == b.patch,
        a.is_prerelease(),
        !b.is_prerelease(),
    ensures
        precedence(a, b) == Precedence::Lower,
        precedence(b, a) == Precedence::Higher,
{
}

/// Major, minor and patch decide, in this order, before any identifier is
/// looked at.
pub proof fn law_numbers_decide_first(a: VersionView, b: VersionView)
    requires
        a.major < b.major || (a.major == b.major && (a.minor < b.minor || (a.minor == b.minor
            && a.patch < b.patch))),
    ensures
        precedence(a, b) == Precedence::Lower,
        precedence(b, a) == Precedence::Higher,
{
}

/// What follows the numbers in the text form of a version.
pub open spec fn identifiers_text(v: VersionView) -> Seq<char> {
    (if v.pre.len() > 0 {
        seq!['-'] + v.pre
    } else {
        Seq::<char>::empty()
    }) + (if v.build.len() > 0 {
        seq!['+'] + v.build
    } else {
        Seq::<char>::empty()
    })
}

proof fn lemma_text_in_parts(v: VersionView)
    ensures
        v.text() == decimal(v.major as nat) + (seq!['.'] + (decimal(v.minor as nat) + (seq!['.'] + (
        decimal(v.patch as nat) + identifiers_text(v))))),
{
    assert(v.text() =~= decimal(v.major as nat) + (seq!['.'] + (decimal(v.minor as nat) + (seq![
        '.',
    ] + (decimal(v.patch as nat) + identifiers_text(v))))));
}

proof fn lemma_identifiers_are_one_to_one(a: VersionView, b: VersionView)
    requires
        a.wf(),
        b.wf(),
        identifiers_text(a) == identifiers_text(b),
    ensures
        a.pre == b.pre,
        a.build == b.build,
{
    let build_a = if a.build.len() > 0 {
        seq!['+'] + a.build
    } else {
        Seq::<char>::empty()
    };
    let build_b = if b.build.len() > 0 {
        seq!['+'] + b.build
    } else {
        Seq::<char>::empty()
    };
    let ta = identifiers_text(a);
    let tb = identifiers_text(b);
    let no_plus = |c: char| c != '+';
    if a.pre.len() > 0 && b.pre.len() == 0 {
        assert(ta[0] == '-');
        assert(tb =~= build_b);
    }
    if b.pre.len() > 0 && a.pre.len() == 0 {
        assert(tb[0] == '-');
        assert(ta =~= build_a);
    }
    if a.pre.len() > 0 {
        assert(ta.subrange(1, ta.len() as int) =~= a.pre + build_a);
        assert(tb.subrange(1, tb.len() as int) =~= b.pre + build_b);
        assert forall|i: int| 0 <= i < a.pre.len() implies no_plus(#[trigger] a.pre[i]) by {
            assert(is_identifier_char(a.pre[i]) || a.pre[i] == '.');
        }
        assert forall|i: int| 0 <= i < b.pre.len() implies no_plus(#[trigger] b.pre[i]) by {
            assert(is_identifier_char(b.pre[i]) || b.pre[i] == '.');
        }
        lemma_cut_is_unique(a.pre, build_a, b.pre, build_b, no_plus);
    } else {
        assert(a.pre =~= b.pre);
        assert(ta =~= build_a);
        assert(tb =~= build_b);
    }
    assert(build_a == build_b);
    if a.build.len() > 0 {
        assert(build_a.subrange(1, build_a.len() as int) =~= a.build);
        assert(build_b.len() > 0);
        assert(build_b.subrange(1, build_b.len() as int) =~= b.build);
    } else {
        assert(build_b.len() == 0);
        assert(a.build =~= b.build);
    }
}

/// Different versions have different text forms: of two versions whose
/// identifiers follow the grammar, equal texts mean equal versions.
pub proof fn law_text_is_one_to_one(a: VersionView, b: VersionView)
    requires
        a.wf(),
        b.wf(),
        a.text() == b.text(),
    ensures
        a == b,
{
    let digit = |c: char| is_digit(c);
    let dot = seq!['.'];
    let a3 = decimal(a.patch as nat) + identifiers_text(a);
    let b3 = decimal(b.patch as nat) + identifiers_text(b);
    let a2 = decimal(a.minor as nat) + (dot + a3);
    let b2 = decimal(b.minor as nat) + (dot + b3);
    lemma_text_in_parts(a);
    lemma_text_in_parts(b);
    lemma_decimal_holds_digits(a.major as nat);
    lemma_decimal_holds_digits(b.major as nat);
    lemma_decimal_holds_digits(a.minor as nat);
    lemma_decimal_holds_digits(b.minor as nat);
    lemma_decimal_holds_digits(a.patch as nat);
    lemma_decimal_holds_digits(b.patch as nat);
    assert((dot + a2)[0] == '.');
    assert((dot + b2)[0] == '.');
    lemma_cut_is_unique(
        decimal(a.major as nat),
        dot + a2,
        decimal(b.major as nat),
        dot + b2,
        digit,
    );
    law_decimal_is_one_to_one(a.major as nat, b.major as nat);
    assert(a2 =~= (dot + a2).subrange(1, (dot + a2).len() as int));
    assert(b2 =~= (dot + b2).subrange(1, (dot + b2).len() as int));
    assert((dot + a3)[0] == '.');
    assert((dot + b3)[0] == '.');
    lemma_cut_is_unique(
        decimal(a.minor as nat),
        dot + a3,
        decimal(b.minor as nat),
        dot + b3,
        digit,
    );
    law_decimal_is_one_to_one(a.minor as nat, b.minor as nat);
    assert(a3 =~= (dot + a3).subrange(1, (dot + a3).len() as int));
    assert(b3 =~= (dot + b3).subrange(1, (dot + b3).len() as int));
    let ia = identifiers_text(a);
    let ib = identifiers_text(b);
    assert(ia.len() > 0 ==> ia[0] == '-' || ia[0] == '+');
    assert(ib.len() > 0 ==> ib[0] == '-' || ib[0] == '+');
    lemma_cut_is_unique(decimal(a.patch as nat), ia, decimal(b.patch as nat), ib, digit);
    law_decimal_is_one_to_one(a.patch as nat, b.patch as nat);
    lemma_identifiers_are_one_to_one(a, b);
}

/// A semantic version.
#[derive(Debug)]
pub struct Version {
    major: u64,
    minor: u64,
    patch: u64,
    pre: String,
    build: String,
}

impl View for Version {
    type V = VersionView;

    closed spec fn view(&self) -> VersionView {
        VersionView {
            major: self.major,
            minor: self.minor,
            patch: self.patch,
            pre: self.pre@,
            build: self.build@,
        }
    }
}

/// Calls `semver::Version::parse` and copies the five parts out of what it
/// returns. Trusted: the result is the named value `semver_parse`; the
/// identifiers of a parsed version follow the grammar that `semver`
/// documents for `Prerelease` and `BuildMetadata`; and the text that was
/// parsed is the text form of the version that came out.
#[verifier::external_body]
fn semver_parse_text(text: &str) -> (r: Option<Version>)
    requires
        text@.len() <= MAX_TAG_CHARS,
    ensures
        r matches Some(v) ==> semver_parse(text@) == Some(v@) && v@.wf() && v@.text() == text@,
        r is None ==> semver_parse(text@) is None,
{
    match semver::Version::parse(text) {
        Ok(v) => Some(
            Version {
                major: v.major,
                minor: v.minor,
                patch: v.patch,
                pre: v.pre.as_str().to_string(),
                build: v.build.as_str().to_string(),
            },
        ),
        Err(_) => None,
    }
}

/// Compares two pre-release identifiers with `semver::Prerelease`'s `cmp`.
/// Trusted: equal texts compare equal and no others do, the empty
/// identifier is greater than any other, the rest is the named order
/// `prerelease_precedes`, and of two different identifiers exactly one
/// precedes the other.
#[verifier::external_body]
fn semver_prerelease_order(a: &str, b: &str) -> (r: Precedence)
    requires
        valid_prerelease(a@),
        valid_prerelease(b@),
    ensures
        a@ == b@ ==> r == Precedence::Same,
        a@ != b@ && a@.len() == 0 ==> r == Precedence::Higher,
        a@ != b@ && a@.len() > 0 && b@.len() == 0 ==> r == Precedence::Lower,
        a@ != b@ && a@.len() > 0 && b@.len() > 0 ==> r == (if prerelease_precedes(a@, b@) {
            Precedence::Lower
        } else {
            Precedence::Higher
        }),
        a@ != b@ && a@.len() > 0 && b@.len() > 0 ==> (r == Precedence::Higher
            <==> prerelease_precedes(b@, a@)),
{
    let x = semver::Prerelease::new(a).unwrap();
    let y = semver::Prerelease::new(b).unwrap();
    match x.cmp(&y) {
        Ordering::Less => Precedence::Lower,
        Ordering::Equal => Precedence::Same,
        Ordering::Greater => Precedence::Higher,
    }
}

/// Compares two build identifiers with `semver::BuildMetadata`'s `cmp`.
/// Trusted: equal texts compare equal and no others do, the rest is the
/// named order `build_precedes`, and of two different identifiers exactly
/// one precedes the other.
#[verifier::external_body]
fn semver_build_order(a: &str, b: &str) -> (r: Precedence)
    requires
        valid_build(a@),
        valid_build(b@),
    ensures
        a@ == b@ ==> r == Precedence::Same,
        a@ != b@ ==> r == (if build_precedes(a@, b@) {
            Precedence::Lower
        } else {
            Precedence::Higher
        }),
        a@ != b@ ==> (r == Precedence::Higher <==> build_precedes(b@, a@)),
{
    let x = semver::BuildMetadata::new(a).unwrap();
    let y = semver::BuildMetadata::new(b).unwrap();
    match x.cmp(&y) {
        Ordering::Less => Precedence::Lower,
        Ordering::Equal => Precedence::Same,
        Ordering::Greater => Precedence::Higher,
    }
}

impl Clone for Version {
    fn clone(&self) -> (v: Version)
        ensures
            v@ == self@,
            v@.wf(),
    {
        proof {
            use_type_invariant(self);
        }
        Version {
            major: self.major,
            minor: self.minor,
            patch: self.patch,
            pre: self.pre.clone(),
            build: self.build.clone(),
        }
    }
}

impl PartialEq for Version {
    fn eq(&self, other: &Version) -> (r: bool) {
        self.major == other.major && self.minor == other.minor && self.patch == other.patch
            && self.pre == other.pre && self.build == other.build
    }
}

impl vstd::std_specs::cmp::PartialEqSpecImpl for Version {
    open spec fn obeys_eq_spec() -> bool {
        true
    }

    open spec fn eq_spec(&self, other: &Version) -> bool {
        self@ == other@
    }
}

impl Eq for Version {

}

/// The standard ordering that a precedence stands for.
pub open spec fn ordering_of(p: Precedence) -> Ordering {
    match p {
        Precedence::Lower => Ordering::Less,
        Precedence::Same => Ordering::Equal,
        Precedence::Higher => Ordering::Greater,
    }
}

impl PartialOrd for Version {
    fn partial_cmp(&self, other: &Version) -> (r: Option<Ordering>) {
        match self.compare(other) {
            Precedence::Lower => Some(Ordering::Less),
            Precedence::Same => Some(Ordering::Equal),
            Precedence::Higher => Some(Ordering::Greater),
        }
    }
}

impl vstd::std_specs::cmp::PartialOrdSpecImpl for Version {
    open spec fn obeys_partial_cmp_spec() -> bool {
        true
    }

    open spec fn partial_cmp_spec(&self, other: &Version) -> Option<Ordering> {
        Some(ordering_of(precedence(self@, other@)))
    }
}

/// The view of a version that may be absent.
pub open spec fn view_of(v: Option<Version>) -> Option<VersionView> {
    match v {
        Some(v) => Some(v@),
        None => None,
    }
}

fn number_order(a: u64, b: u64) -> (r: Precedence)
    ensures
        r == number_precedence(a, b),
{
    if a < b {
        Precedence::Lower
    } else if a == b {
        Precedence::Same
    } else {
        Precedence::Higher
    }
}

impl Version {
    /// What holds of every version: its identifiers follow the grammar.
    #[verifier::type_invariant]
    pub open spec fn inv(self) -> bool {
        self@.wf()
    }

    /// The release `major.minor.patch`, with no pre-release and no build
    /// identifier.
    pub fn new(major: u64, minor: u64, patch: u64) -> (v: Version)
        ensures
            v@ == (VersionView {
                major,
                minor,
                patch,
                pre: Seq::<char>::empty(),
                build: Seq::<char>::empty(),
            }),
            v@.wf(),
    {
        let pre = String::new();
        let build = String::new();
        Version { major, minor, patch, pre, build }
    }

    /// Reads a semantic version. A text that `semver` does not accept, or one
    /// of more than `MAX_TAG_CHARS` characters, is a malformed tag.
    pub fn parse(text: &str) -> (r: Result<Version, UpdateError>)
        ensures
            match r {
                Ok(v) => version_of(text@) == Some(v@) && v@.wf() && v@.text() == text@,
                Err(e) => e == UpdateError::MalformedVersionTag && version_of(text@) is None,
            },
    {
        if text.unicode_len() > MAX_TAG_CHARS {
            return Err(UpdateError::MalformedVersionTag);
        }
        match semver_parse_text(text) {
            Some(v) => Ok(v),
            None => Err(UpdateError::MalformedVersionTag),
        }
    }

    /// The major number.
    pub fn major(&self) -> (r: u64)
        ensures
            r == self@.major,
    {
        self.major
    }

    /// The minor number.
    pub fn minor(&self) -> (r: u64)
        ensures
            r == self@.minor,
    {
        self.minor
    }

    /// The patch number.
    pub fn patch(&self) -> (r: u64)
        ensures
            r == self@.patch,
    {
        self.patch
    }

    /// The pre-release identifier; empty for a release.
    pub fn pre(&self) -> (r: &str)
        ensures
            r@ == self@.pre,
    {
        self.pre.as_str()
    }

    /// The build identifier; empty where there is none.
    pub fn build(&self) -> (r: &str)
        ensures
            r@ == self@.build,
    {
        self.build.as_str()
    }

    /// Whether the version is a pre-release.
    pub fn is_prerelease(&self) -> (r: bool)
        ensures
            r == self@.is_prerelease(),
    {
        self.pre.as_str().unicode_len() > 0
    }

    /// Where `self` stands relative to `other` in the order of versions,
    /// and with it where `other` stands relative to `self`.
    pub fn compare(&self, other: &Version) -> (r: Precedence)
        ensures
            r == precedence(self@, other@),
            precedence(other@, self@) == r.reversed(),
    {
        proof {
            use_type_invariant(self);
            use_type_invariant(other);
        }
        if self.major != other.major {
            number_order(self.major, other.major)
        } else if self.minor != other.minor {
            number_order(self.minor, other.minor)
        } else if self.patch != other.patch {
            number_order(self.patch, other.patch)
        } else {
            let by_pre = semver_prerelease_order(self.pre.as_str(), other.pre.as_str());
            match by_pre {
                Precedence::Same => {
                    semver_build_order(self.build.as_str(), other.build.as_str())
                },
                _ => {
                    assert(self@.pre.len() == 0 && other@.pre.len() == 0 ==> self@.pre
                        =~= other@.pre);
                    by_pre
                },
            }
        }
    }

    /// The text form of the version.
    pub fn to_string(&self) -> (s: String)
        ensures
            s@ == self@.text(),
    {
        proof {
            reveal_strlit(".");
            reveal_strlit("-");
            reveal_strlit("+");
        }
        let mut s = decimal_string(self.major);
        s.append(".");
        s.append(decimal_string(self.minor).as_str());
        s.append(".");
        s.append(decimal_string(self.patch).as_str());
        if self.pre.as_str().unicode_len() > 0 {
            s.append("-");
            s.append(self.pre.as_str());
        }
        if self.build.as_str().unicode_len() > 0 {
            s.append("+");
            s.append(self.build.as_str());
        }
        assert(s@ =~= self@.text());
        s
    }
}

/// A version as release tags write it: with a `v` in front.
#[derive(Debug)]
pub struct VersionWithV(pub Version);

impl View for VersionWithV {
    type V = VersionView;

    open spec fn view(&self) -> VersionView {
        self.0@
    }
}

impl Clone for VersionWithV {
    fn clone(&self) -> (v: VersionWithV)
        ensures
            v@ == self@,
    {
        VersionWithV(self.0.clone())
    }
}

impl PartialEq for VersionWithV {
    fn eq(&self, other: &VersionWithV) -> (r: bool) {
        self.0 == other.0
    }
}

impl vstd::std_specs::cmp::PartialEqSpecImpl for VersionWithV {
    open spec fn obeys_eq_spec() -> bool {
        true
    }

    open spec fn eq_spec(&self, other: &VersionWithV) -> bool {
        self@ == other@
    }
}

impl Eq for VersionWithV {

}

impl PartialOrd for VersionWithV {
    fn partial_cmp(&self, other: &VersionWithV) -> (r: Option<Ordering>) {
        self.0.partial_cmp(&other.0)
    }
}

impl vstd::std_specs::cmp::PartialOrdSpecImpl for VersionWithV {
    open spec fn obeys_partial_cmp_spec() -> bool {
        true
    }

    open spec fn partial_cmp_spec(&self, other: &VersionWithV) -> Option<Ordering> {
        Some(ordering_of(precedence(self@, other@)))
    }
}

impl From<Version> for VersionWithV {
    fn from(version: Version) -> (v: VersionWithV) {
        VersionWithV(version)
    }
}

impl vstd::std_specs::convert::FromSpecImpl<Version> for VersionWithV {
    open spec fn obeys_from_spec() -> bool {
        true
    }

    open spec fn from_spec(version: Version) -> VersionWithV {
        VersionWithV(version)
    }
}

impl From<VersionWithV> for Version {
    fn from(version: VersionWithV) -> (v: Version) {
        version.0
    }
}

impl vstd::std_specs::convert::FromSpecImpl<VersionWithV> for Version {
    open spec fn obeys_from_spec() -> bool {
        true
    }

    open spec fn from_spec(version: VersionWithV) -> Version {
        version.0
    }
}

impl std::str::FromStr for VersionWithV {
    type Err = UpdateError;

    fn from_str(s: &str) -> (r: Result<VersionWithV, UpdateError>)
        ensures
            match r {
                Ok(v) => tag_version(s@) == Some(v@) && v@.wf() && v@.text() == strip_leading(
                    s@,
                    'v',
                ),
                Err(e) => e == UpdateError::MalformedVersionTag && tag_version(s@) is None,
            },
    {
        VersionWithV::from_str(s)
    }
}

/// The tag form of a version: `v`, then its text.
pub open spec fn tag_text(v: VersionView) -> Seq<char> {
    seq!['v'] + v.text()
}

impl VersionWithV {
    /// Reads a tag: any run of `v` in front is dropped, the rest is read as
    /// a semantic version.
    pub fn from_str(s: &str) -> (r: Result<VersionWithV, UpdateError>)
        ensures
            match r {
                Ok(v) => tag_version(s@) == Some(v@) && v@.wf() && v@.text() == strip_leading(
                    s@,
                    'v',
                ),
                Err(e) => e == UpdateError::MalformedVersionTag && tag_version(s@) is None,
            },
    {
        match Version::parse(trim_start_matches(s, 'v')) {
            Ok(v) => Ok(VersionWithV(v)),
            Err(e) => Err(e),
        }
    }

    /// The tag form of the version.
    pub fn to_string(&self) -> (s: String)
        ensures
            s@ == tag_text(self@),
    {
        proof {
            reveal_strlit("v");
        }
        let mut s = String::from_str("v");
        s.append(self.0.to_string().as_str());
        assert(s@ =~= tag_text(self@));
        s
    }

    /// The version that the tag stands for.
    pub fn into_version(self) -> (v: Version)
        ensures
            v@ == self@,
    {
        self.0
    }

    /// The tag of a version.
    pub fn from_version(version: Version) -> (v: VersionWithV)
        ensures
            v@ == version@,
    {
        VersionWithV(version)
    }
}

} // verus!
