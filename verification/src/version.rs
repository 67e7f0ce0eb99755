//! Release versions, read and ordered by the `semver` crate.
use vstd::prelude::*;

use crate::text::{owned, push_str, trim, trimmed};

verus! {

/// `semver::Version`, carried opaquely inside a `ReleaseVersion`.
#[verifier::external_type_specification]
#[verifier::external_body]
pub struct ExSemverVersion(semver::Version);

/// The major, minor and patch numbers of the version that
/// `semver::Version::parse` reads from a text, or `None` when it refuses the
/// text.
pub uninterp spec fn semver_numbers(text: Seq<char>) -> Option<(u64, u64, u64)>;

/// How the version that `semver::Version::parse` reads from text `a` stands,
/// in `semver::Version`'s own order, to the one it reads from text `b`.
pub uninterp spec fn semver_cmp(a: Seq<char>, b: Seq<char>) -> VersionOrder;

/// A semantic version read from a text: its numbers, the text it was read
/// from, and the full version (with any pre-release and build parts) for
/// ordering. The fields are private, so the numbers and the text always
/// belong to the version they were read with.
#[derive(Debug)]
pub struct ReleaseVersion {
    major: u64,
    minor: u64,
    patch: u64,
    text: String,
    version: semver::Version,
}

/// The numbers of a version.
pub closed spec fn numbers(v: ReleaseVersion) -> (u64, u64, u64) {
    (v.major, v.minor, v.patch)
}

/// The text a version was read from.
pub closed spec fn version_text(v: ReleaseVersion) -> Seq<char> {
    v.text@
}

/// The order of version numbers: by major, then minor, then patch.
pub open spec fn numbers_lt(a: (u64, u64, u64), b: (u64, u64, u64)) -> bool {
    a.0 < b.0 || (a.0 == b.0 && (a.1 < b.1 || (a.1 == b.1 && a.2 < b.2)))
}

impl ReleaseVersion {
    /// The major number.
    pub fn major(&self) -> (r: u64)
        ensures
            r == numbers(*self).0,
    {
        self.major
    }

    /// The minor number.
    pub fn minor(&self) -> (r: u64)
        ensures
            r == numbers(*self).1,
    {
        self.minor
    }

    /// The patch number.
    pub fn patch(&self) -> (r: u64)
        ensures
            r == numbers(*self).2,
    {
        self.patch
    }
}

/// Calls `semver::Version::parse`. The contract ties the outcome, and the
/// three numbers of an accepted text, to the `semver_numbers` name, and keeps
/// the text that was read; the grammar itself is not stated.
#[verifier::external_body]
fn parse_semver(text: &str) -> (r: Option<ReleaseVersion>)
    ensures
        r is Some <==> semver_numbers(text@) is Some,
        r matches Some(v) ==> semver_numbers(text@) == Some(numbers(v)),
        r matches Some(v) ==> version_text(v) == text@,
{
    match semver::Version::parse(text) {
        Ok(v) => Some(
            ReleaseVersion {
                major: v.major,
                minor: v.minor,
                patch: v.patch,
                text: text.to_string(),
                version: v,
            },
        ),
        Err(_) => None,
    }
}

/// How one version stands to another.
#[derive(Clone, Copy, Debug, PartialEq, Eq, Structural)]
pub enum VersionOrder {
    Older,
    Same,
    Newer,
}

/// Calls `Ord::cmp` on two `semver::Version`s. The result is the
/// `semver_cmp` name applied to the texts the two were read from. The order
/// is derived over the fields major, minor, patch, pre-release and build in
/// turn, so the contract also states that a version read from the same text
/// is the same, and that differing numbers decide the order;
/// between equal numbers the pre-release and build parts decide, which is
/// left to the name.
#[verifier::external_body]
fn semver_order(a: &ReleaseVersion, b: &ReleaseVersion) -> (r: VersionOrder)
    ensures
        r == semver_cmp(version_text(*a), version_text(*b)),
        version_text(*a) == version_text(*b) ==> r == VersionOrder::Same,
        numbers_lt(numbers(*a), numbers(*b)) ==> r == VersionOrder::Older,
        numbers_lt(numbers(*b), numbers(*a)) ==> r == VersionOrder::Newer,
        r == VersionOrder::Same ==> numbers(*a) == numbers(*b),
{
    match a.version.cmp(&b.version) {
        std::cmp::Ordering::Less => VersionOrder::Older,
        std::cmp::Ordering::Equal => VersionOrder::Same,
        std::cmp::Ordering::Greater => VersionOrder::Newer,
    }
}

/// `s` without its leading `v` characters.
pub open spec fn strip_leading_v(s: Seq<char>) -> Seq<char>
    decreases s.len(),
{
    if s.len() > 0 && s[0] == 'v' {
        strip_leading_v(s.drop_first())
    } else {
        s
    }
}

/// The text a release tag is read from: trimmed, without leading `v`s.
pub open spec fn tag_version_text(tag: Seq<char>) -> Seq<char> {
    strip_leading_v(trimmed(tag))
}

proof fn lemma_strip_leading_v(s: Seq<char>, k: int)
    requires
        0 <= k <= s.len(),
        forall|j: int| 0 <= j < k ==> s[j] == 'v',
        k < s.len() ==> s[k] != 'v',
    ensures
        strip_leading_v(s) == s.skip(k),
    decreases s.len(),
{
    if k > 0 {
        assert forall|j: int| 0 <= j < k - 1 implies s.drop_first()[j] == 'v' by {
            assert(s.drop_first()[j] == s[j + 1]);
        }
        if k - 1 < s.drop_first().len() {
            assert(s.drop_first()[k - 1] == s[k]);
        }
        lemma_strip_leading_v(s.drop_first(), k - 1);
        assert(s.drop_first().skip(k - 1) =~= s.skip(k));
    } else {
        assert(s.skip(0) =~= s);
    }
}

/// Reads the version of a release tag such as `v1.2.3`: the tag is trimmed
/// and its leading `v`s dropped. A tag that is not a semantic version is
/// refused with a message naming it.
pub fn parse_release_version(tag_name: &str) -> (r: Result<ReleaseVersion, String>)
    ensures
        r is Ok <==> semver_numbers(tag_version_text(tag_name@)) is Some,
        r matches Ok(v) ==> semver_numbers(tag_version_text(tag_name@)) == Some(numbers(v)),
        r matches Ok(v) ==> version_text(v) == tag_version_text(tag_name@),
        r matches Err(m) ==> m@ == "Release tag "@ + tag_name@ + " is not a valid semantic version"@,
{
    let t = trim(tag_name);
    let text = t.as_str();
    let n = text.unicode_len();
    let mut k: usize = 0;
    while k < n && text.get_char(k) == 'v'
        invariant
            n == text@.len(),
            k <= n,
            forall|j: int| 0 <= j < k ==> text@[j] == 'v',
        decreases n - k,
    {
        k = k + 1;
    }
    proof {
        lemma_strip_leading_v(text@, k as int);
    }
    let rest = text.substring_char(k, n);
    assert(rest@ =~= text@.skip(k as int));
    match parse_semver(rest) {
        Some(v) => Ok(v),
        None => {
            let mut message = owned("Release tag ");
            push_str(&mut message, tag_name);
            push_str(&mut message, " is not a valid semantic version");
            Err(message)
        },
    }
}

/// What an upgrade does, given the release found and the running version.
#[derive(Clone, Copy, Debug, PartialEq, Eq, Structural)]
pub enum UpgradeDecision {
    /// The release is the running version.
    AlreadyCurrent,
    /// The latest release is older than the running version.
    RefuseDowngrade,
    /// Install the release.
    Install,
}

/// The decision for a release that stands in `order` to the running
/// version: the same version is kept; an older one is installed only when
/// it was asked for by name (`requested`); a newer one is installed.
pub open spec fn decide(order: VersionOrder, requested: bool) -> UpgradeDecision {
    match order {
        VersionOrder::Same => UpgradeDecision::AlreadyCurrent,
        VersionOrder::Older => if requested {
            UpgradeDecision::Install
        } else {
            UpgradeDecision::RefuseDowngrade
        },
        VersionOrder::Newer => UpgradeDecision::Install,
    }
}

/// The decision for a release that stands in `order` to the running
/// version.
pub fn decide_upgrade(order: VersionOrder, requested: bool) -> (r: UpgradeDecision)
    ensures
        r == decide(order, requested),
{
    match order {
        VersionOrder::Same => UpgradeDecision::AlreadyCurrent,
        VersionOrder::Older => if requested {
            UpgradeDecision::Install
        } else {
            UpgradeDecision::RefuseDowngrade
        },
        VersionOrder::Newer => UpgradeDecision::Install,
    }
}

/// Whether `release` may be installed over `current`: a newer release is,
/// an older one only when asked for by name (`requested`), and the same
/// version is not. Between versions with equal numbers, the pre-release and
/// build parts decide.
pub fn upgrade_decision(release: &ReleaseVersion, current: &ReleaseVersion, requested: bool) -> (r:
    UpgradeDecision)
    ensures
        r == decide(semver_cmp(version_text(*release), version_text(*current)), requested),
        version_text(*release) == version_text(*current) ==> r == UpgradeDecision::AlreadyCurrent,
        numbers_lt(numbers(*current), numbers(*release)) ==> r == UpgradeDecision::Install,
        numbers_lt(numbers(*release), numbers(*current)) ==> r == decide(
            VersionOrder::Older,
            requested,
        ),
        r == UpgradeDecision::AlreadyCurrent ==> numbers(*release) == numbers(*current),
{
    let order = semver_order(release, current);
    decide_upgrade(order, requested)
}

} // verus!
