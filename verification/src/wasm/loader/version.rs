//! Semantic versions and version requirements of modules.

use vstd::prelude::*;
use crate::text::{chars_of, concat3, lit};

verus! {

/// The declared type of a parsed version.
#[verifier::external_type_specification]
#[verifier::external_body]
pub struct ExVersion(semver::Version);

/// The declared type of a parsed requirement.
#[verifier::external_type_specification]
#[verifier::external_body]
pub struct ExVersionReq(semver::VersionReq);

/// What a version text parses to, shown again in its canonical form; `None`
/// if it is not a semantic version.
pub uninterp spec fn spec_version_text(s: Seq<char>) -> Option<Seq<char>>;

/// Whether a requirement text parses.
pub uninterp spec fn spec_requirement_valid(s: Seq<char>) -> bool;

/// Whether the version `version` meets the requirement `req` (both parsed).
pub uninterp spec fn spec_requirement_matches(req: Seq<char>, version: Seq<char>) -> bool;

/// How two parsed versions compare in semantic-version order: -1, 0 or 1.
pub uninterp spec fn spec_version_order(a: Seq<char>, b: Seq<char>) -> int;

/// Parses a version (`semver::Version::parse`); `None` for invalid text.
#[verifier::external_body]
fn semver_parse(s: &str) -> (r: Option<semver::Version>)
    ensures
        r is Some <==> spec_version_text(s@) is Some,
{
    semver::Version::parse(s).ok()
}

/// Parses a version and shows it again (`Version::parse`, then `to_string`).
#[verifier::external_body]
fn semver_canonical(s: &str) -> (r: Option<String>)
    ensures
        r is Some <==> spec_version_text(s@) is Some,
        r matches Some(t) ==> spec_version_text(s@) == Some(t@),
{
    semver::Version::parse(s).ok().map(|v| v.to_string())
}

/// Parses a requirement (`semver::VersionReq::parse`); `None` for invalid
/// text.
#[verifier::external_body]
fn semver_parse_req(s: &str) -> (r: Option<semver::VersionReq>)
    ensures
        r is Some <==> spec_requirement_valid(s@),
{
    semver::VersionReq::parse(s).ok()
}

/// Whether `version` meets `req` (`VersionReq::matches` after parsing both);
/// `None` if either does not parse.
#[verifier::external_body]
fn semver_matches(req: &str, version: &str) -> (r: Option<bool>)
    ensures
        r is Some <==> (spec_requirement_valid(req@) && spec_version_text(version@) is Some),
        r matches Some(b) ==> b == spec_requirement_matches(req@, version@),
{
    match (semver::VersionReq::parse(req), semver::Version::parse(version)) {
        (Ok(q), Ok(v)) => Some(q.matches(&v)),
        _ => None,
    }
}

/// What the total order of versions (`Ord` of `semver::Version`) gives for
/// versions `a` and `b`: `a` is as high as itself, comparing `b` with `a`
/// gives the opposite of comparing `a` with `b`, and if `a` is at least `b`
/// then `a` is at least every version that `b` is at least.
pub open spec fn order_facts(a: Seq<char>, b: Seq<char>) -> bool {
    &&& spec_version_order(a, a) == 0
    &&& spec_version_order(b, a) == -spec_version_order(a, b)
    &&& forall|c: Seq<char>|
        spec_version_text(c) is Some && spec_version_order(a, b) >= 0 && #[trigger] spec_version_order(
            b,
            c,
        ) >= 0 ==> spec_version_order(a, c) >= 0
}

/// How two versions compare (`Ord` of `semver::Version`), as -1, 0 or 1;
/// `None` if either does not parse.
#[verifier::external_body]
fn semver_order(a: &str, b: &str) -> (r: Option<i8>)
    ensures
        r is Some <==> (spec_version_text(a@) is Some && spec_version_text(b@) is Some),
        r matches Some(o) ==> o == spec_version_order(a@, b@) && -1 <= o <= 1,
        r is Some ==> order_facts(a@, b@),
{
    match (semver::Version::parse(a), semver::Version::parse(b)) {
        (Ok(x), Ok(y)) => Some(match x.cmp(&y) {
            std::cmp::Ordering::Less => -1,
            std::cmp::Ordering::Equal => 0,
            std::cmp::Ordering::Greater => 1,
        }),
        _ => None,
    }
}

/// Why a version or requirement was refused.
#[derive(Debug, Clone)]
pub enum VersionError {
    /// The text is not a semantic version.
    InvalidVersion(String),
    /// The text is not a version requirement.
    InvalidRequirement(String),
}

impl VersionError {
    /// The text shown for the error.
    pub fn message(&self) -> (r: String)
        ensures
            r@ == match self {
                VersionError::InvalidVersion(v) => "Invalid semver version: "@ + v@,
                VersionError::InvalidRequirement(q) => "Invalid version requirement: "@ + q@,
            },
    {
        match self {
            VersionError::InvalidVersion(v) => {
                let c = chars_of(v.as_str());
                let mut m = lit("Invalid semver version: ");
                m.append(crate::text::string_from_chars(c.as_slice()).as_str());
                m
            },
            VersionError::InvalidRequirement(q) => {
                let c = chars_of(q.as_str());
                let mut m = lit("Invalid version requirement: ");
                m.append(crate::text::string_from_chars(c.as_slice()).as_str());
                m
            },
        }
    }
}

fn invalid_version(s: &str) -> (r: VersionError)
    ensures
        r matches VersionError::InvalidVersion(t) && t@ == s@,
{
    VersionError::InvalidVersion(crate::text::copy_string(s))
}

fn invalid_requirement(s: &str) -> (r: VersionError)
    ensures
        r matches VersionError::InvalidRequirement(t) && t@ == s@,
{
    VersionError::InvalidRequirement(crate::text::copy_string(s))
}

/// Parses a version.
pub fn parse_version(version_str: &str) -> (r: Result<semver::Version, VersionError>)
    ensures
        r is Ok <==> spec_version_text(version_str@) is Some,
        r matches Err(e) ==> (e matches VersionError::InvalidVersion(t) && t@ == version_str@),
{
    match semver_parse(version_str) {
        Some(v) => Ok(v),
        None => Err(invalid_version(version_str)),
    }
}

/// Parses a version requirement (e.g. "^1.0.0", "~1.2.3", ">=2.0.0").
pub fn parse_requirement(req_str: &str) -> (r: Result<semver::VersionReq, VersionError>)
    ensures
        r is Ok <==> spec_requirement_valid(req_str@),
        r matches Err(e) ==> (e matches VersionError::InvalidRequirement(t) && t@ == req_str@),
{
    match semver_parse_req(req_str) {
        Some(q) => Ok(q),
        None => Err(invalid_requirement(req_str)),
    }
}

/// Whether `version` meets `requirement`; the version is checked first,
/// then the requirement.
pub fn matches(version: &str, requirement: &str) -> (r: Result<bool, VersionError>)
    ensures
        spec_version_text(version@) is None ==> (r matches Err(VersionError::InvalidVersion(t)) && t@
            == version@),
        spec_version_text(version@) is Some && !spec_requirement_valid(requirement@) ==> (r matches Err(
            VersionError::InvalidRequirement(t),
        ) && t@ == requirement@),
        spec_version_text(version@) is Some && spec_requirement_valid(requirement@) ==> r
            == Ok::<bool, VersionError>(spec_requirement_matches(requirement@, version@)),
{
    if !is_valid_version(version) {
        return Err(invalid_version(version));
    }
    if !is_valid_requirement(requirement) {
        return Err(invalid_requirement(requirement));
    }
    match semver_matches(requirement, version) {
        Some(b) => Ok(b),
        None => Err(invalid_version(version)),
    }
}

/// The texts of a list of strings.
pub open spec fn version_texts(v: Seq<String>) -> Seq<Seq<char>> {
    v.map_values(|s: String| s@)
}

/// `c` is a highest entry of `cands`: no entry is greater.
pub open spec fn is_highest(c: Seq<char>, cands: Seq<Seq<char>>) -> bool {
    forall|j: int| 0 <= j < cands.len() ==> spec_version_order(c, #[trigger] cands[j]) >= 0
}

/// The position of the first highest entry of `cands`, or -1.
pub open spec fn first_highest(cands: Seq<Seq<char>>) -> int {
    if exists|i: int| 0 <= i < cands.len() && is_highest(#[trigger] cands[i], cands) {
        choose|i: int|
            0 <= i < cands.len() && is_highest(#[trigger] cands[i], cands) && forall|k: int|
                0 <= k < i ==> !is_highest(#[trigger] cands[k], cands)
    } else {
        -1
    }
}

/// The highest of valid versions `cands`, shown in canonical form: `None`
/// if no entry is at least as high as all the others, which, versions being
/// totally ordered, is when `cands` is empty (see `find_best_match`).
pub open spec fn highest_of(cands: Seq<Seq<char>>) -> Option<Seq<char>> {
    let i = first_highest(cands);
    if i < 0 {
        None
    } else {
        spec_version_text(cands[i])
    }
}

/// The entries of `available` that are versions meeting `req`, in order.
pub open spec fn meeting(available: Seq<Seq<char>>, req: Seq<char>) -> Seq<Seq<char>> {
    available.filter(|v: Seq<char>| spec_version_text(v) is Some && spec_requirement_matches(req, v))
}

/// The entries of `available` that are versions, in order.
pub open spec fn valid_versions(available: Seq<Seq<char>>) -> Seq<Seq<char>> {
    available.filter(|v: Seq<char>| spec_version_text(v) is Some)
}

proof fn lemma_prefix_max(cv: Seq<Seq<char>>, n: int) -> (m: int)
    requires
        1 <= n <= cv.len(),
        forall|i: int, k: int| 0 <= i < cv.len() && 0 <= k < cv.len() ==> #[trigger] order_facts(cv[i], cv[k]),
        forall|k: int| 0 <= k < cv.len() ==> spec_version_text(#[trigger] cv[k]) is Some,
    ensures
        0 <= m < n,
        forall|j: int| 0 <= j < n ==> spec_version_order(cv[m], #[trigger] cv[j]) >= 0,
    decreases n,
{
    if n == 1 {
        assert(order_facts(cv[0], cv[0]));
        0
    } else {
        let m = lemma_prefix_max(cv, n - 1);
        let x = cv[n - 1];
        assert(order_facts(cv[m], x));
        if spec_version_order(cv[m], x) >= 0 {
            m
        } else {
            assert(order_facts(x, cv[m]));
            assert(order_facts(x, x));
            assert forall|j: int| 0 <= j < n implies spec_version_order(x, #[trigger] cv[j]) >= 0 by {
                if j < n - 1 {
                    assert(spec_version_order(cv[m], cv[j]) >= 0);
                    assert(spec_version_text(cv[j]) is Some);
                }
            }
            n - 1
        }
    }
}

/// Of valid versions compared pairwise, some entry is as high as all.
proof fn lemma_highest_exists(cv: Seq<Seq<char>>)
    requires
        cv.len() > 0,
        forall|i: int, k: int| 0 <= i < cv.len() && 0 <= k < cv.len() ==> #[trigger] order_facts(cv[i], cv[k]),
        forall|k: int| 0 <= k < cv.len() ==> spec_version_text(#[trigger] cv[k]) is Some,
    ensures
        exists|i: int| 0 <= i < cv.len() && is_highest(#[trigger] cv[i], cv),
{
    let m = lemma_prefix_max(cv, cv.len() as int);
    assert(is_highest(cv[m], cv));
}

fn highest(cands: &Vec<String>) -> (r: Option<String>)
    requires
        forall|i: int| 0 <= i < cands@.len() ==> spec_version_text(#[trigger] cands@[i]@) is Some,
    ensures
        match r {
            Some(t) => highest_of(version_texts(cands@)) == Some(t@),
            None => highest_of(version_texts(cands@)) is None,
        },
        r is None <==> cands@.len() == 0,
{
    let ghost cv = version_texts(cands@);
    let mut i: usize = 0;
    while i < cands.len()
        invariant
            0 <= i <= cands@.len(),
            cv == version_texts(cands@),
            forall|k: int| 0 <= k < cv.len() ==> spec_version_text(#[trigger] cv[k]) is Some,
            forall|k: int| 0 <= k < i ==> !is_highest(#[trigger] cv[k], cv),
            forall|p: int, k: int| 0 <= p < i && 0 <= k < cv.len() ==> #[trigger] order_facts(cv[p], cv[k]),
        decreases cands@.len() - i,
    {
        let mut top = true;
        let mut j: usize = 0;
        proof {
            assert(cv[i as int] == cands@[i as int]@);
        }
        while j < cands.len()
            invariant
                0 <= j <= cands@.len(),
                i < cands@.len(),
                cv == version_texts(cands@),
                forall|k: int| 0 <= k < cv.len() ==> spec_version_text(#[trigger] cv[k]) is Some,
                top == forall|k: int| 0 <= k < j ==> spec_version_order(cv[i as int], #[trigger] cv[k]) >= 0,
                forall|k: int| 0 <= k < j ==> #[trigger] order_facts(cv[i as int], cv[k]),
                forall|p: int, k: int| 0 <= p < i && 0 <= k < cv.len() ==> #[trigger] order_facts(cv[p], cv[k]),
            decreases cands@.len() - j,
        {
            proof {
                assert(cv[j as int] == cands@[j as int]@);
                assert(cv[i as int] == cands@[i as int]@);
            }
            match semver_order(cands[i].as_str(), cands[j].as_str()) {
                Some(o) => {
                    if o < 0 {
                        top = false;
                    }
                },
                None => {
                    top = false;
                },
            }
            j = j + 1;
        }
        proof {
            assert forall|p: int, k: int| 0 <= p < i + 1 && 0 <= k < cv.len() implies #[trigger] order_facts(cv[p], cv[k]) by {
                if p == i {
                    assert(order_facts(cv[i as int], cv[k]));
                }
            }
        }
        if top {
            proof {
                assert(is_highest(cv[i as int], cv));
                assert(forall|k: int| 0 <= k < i ==> !is_highest(#[trigger] cv[k], cv));
                let f = first_highest(cv);
                assert(exists|x: int| 0 <= x < cv.len() && is_highest(#[trigger] cv[x], cv));
                assert(f == i) by {
                    if f < i {
                        assert(!is_highest(cv[f], cv));
                    }
                    if f > i {
                        assert(!is_highest(cv[i as int], cv));
                    }
                }
            }
            return semver_canonical(cands[i].as_str());
        }
        i = i + 1;
    }
    proof {
        if cv.len() > 0 {
            lemma_highest_exists(cv);
        }
        if exists|x: int| 0 <= x < cv.len() && is_highest(#[trigger] cv[x], cv) {
            let x = choose|x: int| 0 <= x < cv.len() && is_highest(#[trigger] cv[x], cv);
            assert(!is_highest(cv[x], cv));
        }
    }
    None
}

/// The highest version in `available` that meets `requirement`, in
/// canonical form; `None` if none meets it. Entries that are not versions
/// are skipped; an invalid requirement is refused.
pub fn find_best_match(available: &[String], requirement: &str) -> (r: Result<
    Option<String>,
    VersionError,
>)
    ensures
        !spec_requirement_valid(requirement@) ==> (r matches Err(VersionError::InvalidRequirement(t))
            && t@ == requirement@),
        spec_requirement_valid(requirement@) ==> (r matches Ok(o) && match o {
            Some(t) => highest_of(meeting(version_texts(available@), requirement@)) == Some(t@),
            None => highest_of(meeting(version_texts(available@), requirement@)) is None,
        }),
        spec_requirement_valid(requirement@) ==> (r matches Ok(o) && (o is None <==> meeting(
            version_texts(available@),
            requirement@,
        ).len() == 0)),
{
    if !is_valid_requirement(requirement) {
        return Err(invalid_requirement(requirement));
    }
    let ghost av = version_texts(available@);
    let mut cands: Vec<String> = Vec::new();
    let mut i: usize = 0;
    while i < available.len()
        invariant
            0 <= i <= available@.len(),
            av == version_texts(available@),
            spec_requirement_valid(requirement@),
            version_texts(cands@) == meeting(av.take(i as int), requirement@),
            forall|k: int| 0 <= k < cands@.len() ==> spec_version_text(#[trigger] cands@[k]@) is Some,
        decreases available@.len() - i,
    {
        proof {
            reveal(Seq::filter);
            assert(av.take(i + 1).drop_last() =~= av.take(i as int));
            assert(av.take(i + 1).last() == available@[i as int]@);
        }
        let ok = match semver_matches(requirement, available[i].as_str()) {
            Some(b) => b,
            None => false,
        };
        if ok {
            let c = crate::text::copy_string(available[i].as_str());
            proof {
                assert(version_texts(cands@.push(c)) =~= version_texts(cands@).push(c@));
            }
            cands.push(c);
        }
        i = i + 1;
    }
    proof {
        assert(av.take(available@.len() as int) =~= av);
    }
    Ok(highest(&cands))
}

/// The highest version in `available`, in canonical form; `None` if no
/// entry is a version.
pub fn find_latest(available: &[String]) -> (r: Option<String>)
    ensures
        match r {
            Some(t) => highest_of(valid_versions(version_texts(available@))) == Some(t@),
            None => highest_of(valid_versions(version_texts(available@))) is None,
        },
        r is None <==> valid_versions(version_texts(available@)).len() == 0,
{
    let ghost av = version_texts(available@);
    let mut cands: Vec<String> = Vec::new();
    let mut i: usize = 0;
    while i < available.len()
        invariant
            0 <= i <= available@.len(),
            av == version_texts(available@),
            version_texts(cands@) == valid_versions(av.take(i as int)),
            forall|k: int| 0 <= k < cands@.len() ==> spec_version_text(#[trigger] cands@[k]@) is Some,
        decreases available@.len() - i,
    {
        proof {
            reveal(Seq::filter);
            assert(av.take(i + 1).drop_last() =~= av.take(i as int));
            assert(av.take(i + 1).last() == available@[i as int]@);
        }
        if is_valid_version(available[i].as_str()) {
            let c = crate::text::copy_string(available[i].as_str());
            proof {
                assert(version_texts(cands@.push(c)) =~= version_texts(cands@).push(c@));
            }
            cands.push(c);
        }
        i = i + 1;
    }
    proof {
        assert(av.take(available@.len() as int) =~= av);
    }
    highest(&cands)
}

/// Whether `version_str` is a semantic version.
pub fn is_valid_version(version_str: &str) -> (r: bool)
    ensures
        r == spec_version_text(version_str@) is Some,
{
    semver_parse(version_str).is_some()
}

/// Whether `req_str` is a version requirement.
pub fn is_valid_requirement(req_str: &str) -> (r: bool)
    ensures
        r == spec_requirement_valid(req_str@),
{
    semver_parse_req(req_str).is_some()
}

} // verus!
