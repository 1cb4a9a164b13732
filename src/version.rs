use vstd::prelude::*;

verus! {

#[verifier::external_type_specification]
#[verifier::external_body]
pub struct ExVersion(semver::Version);

#[verifier::external_type_specification]
#[verifier::external_body]
pub struct ExSemverError(semver::Error);

/// Whether semver accepts the text as a `MAJOR.MINOR.PATCH[-pre][+build]` version.
pub uninterp spec fn semver_accepts(s: Seq<char>) -> bool;

/// Whether the version written `a` has higher semver precedence than the version
/// written `b`: major, minor and patch compared as numbers, then the pre-release;
/// build metadata plays no part.
pub uninterp spec fn semver_newer(a: Seq<char>, b: Seq<char>) -> bool;

/// How semver writes the version that it parsed from `s`.
pub uninterp spec fn semver_display(s: Seq<char>) -> Seq<char>;

/// Relies on `semver::Version::parse`: `Ok` exactly when the text is a well-formed
/// semantic version.
#[verifier::external_body]
fn parse_semver(s: &str) -> (r: Result<semver::Version, semver::Error>)
    ensures
        r is Ok <==> semver_accepts(s@),
{
    semver::Version::parse(s)
}

/// Relies on `semver::Version::cmp_precedence`, which orders by (major, minor, patch,
/// pre-release) and ignores build metadata: a total preorder, so no version is newer
/// than itself and of two versions at most one is newer than the other. Each `SemVer`
/// holds the version that semver parsed from its text.
#[verifier::external_body]
fn semver_gt(a: &SemVer, b: &SemVer) -> (r: bool)
    ensures
        r == semver_newer(a@, b@),
        a@ == b@ ==> !r,
        r ==> !semver_newer(b@, a@),
{
    a.parsed.cmp_precedence(&b.parsed).is_gt()
}

/// Relies on `Display` for `semver::Version`: the text of the version that semver
/// parsed from `v`'s text.
#[verifier::external_body]
fn semver_text(v: &SemVer) -> (r: String)
    ensures
        r@ == semver_display(v@),
{
    v.parsed.to_string()
}

/// A semantic version, with the text that it was read from.
pub struct SemVer {
    text: String,
    parsed: semver::Version,
}

impl View for SemVer {
    type V = Seq<char>;

    /// The text that the version was read from.
    closed spec fn view(&self) -> Seq<char> {
        self.text@
    }
}

impl SemVer {
    /// Reads a semantic version; `None` when the text is not one.
    pub fn parse(s: &str) -> (r: Option<SemVer>)
        ensures
            r is Some <==> semver_accepts(s@),
            r matches Some(v) ==> v@ == s@,
    {
        match parse_semver(s) {
            Ok(parsed) => Some(SemVer { text: s.to_owned(), parsed }),
            Err(_) => None,
        }
    }

    /// Whether this version has strictly higher precedence than `other`.
    pub fn is_newer_than(&self, other: &SemVer) -> (r: bool)
        ensures
            r == semver_newer(self@, other@),
            self@ == other@ ==> !r,
            r ==> !semver_newer(other@, self@),
    {
        semver_gt(self, other)
    }

    /// The version in semver's canonical writing.
    pub fn to_text(&self) -> (r: String)
        ensures
            r@ == semver_display(self@),
    {
        semver_text(self)
    }
}

/// A release tag with one leading `v` taken off.
pub open spec fn strip_v(tag: Seq<char>) -> Seq<char> {
    if tag.len() > 0 && tag[0] == 'v' {
        tag.drop_first()
    } else {
        tag
    }
}

} // verus!
