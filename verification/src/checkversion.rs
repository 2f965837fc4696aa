//! Checks of the versions that peers report.

use vstd::prelude::*;
use std::cmp::Ordering;
use crate::errors::TondiSeederError;
use crate::text::{chars_of, decimal_text, parse_unsigned, parse_unsigned_chars, push_decimal, split, split_chars};

verus! {

/// The numbers of the dot-separated parts of `pieces` that read as `u32`,
/// in order; parts that do not read are dropped.
pub open spec fn parse_parts(pieces: Seq<Seq<char>>) -> Seq<u32>
    decreases pieces.len(),
{
    if pieces.len() == 0 {
        Seq::<u32>::empty()
    } else {
        let r = parse_parts(pieces.drop_last());
        match parse_unsigned(pieces.last(), u32::MAX as int) {
            Some(n) => r.push(n as u32),
            None => r,
        }
    }
}

/// The numeric parts of a version string such as `1.2.3`.
pub open spec fn version_parts(s: Seq<char>) -> Seq<u32> {
    parse_parts(split(s, '.'))
}

/// Part `i` of a version, zero past its end.
pub open spec fn part_at(a: Seq<u32>, i: int) -> u32 {
    if 0 <= i < a.len() {
        a[i]
    } else {
        0
    }
}

/// The order of two versions from part `i` on, part by part, a missing
/// part counting as zero.
pub open spec fn compare_from(a: Seq<u32>, b: Seq<u32>, i: int) -> Ordering
    decreases a.len() + b.len() - i,
{
    if i >= a.len() && i >= b.len() {
        Ordering::Equal
    } else if part_at(a, i) < part_at(b, i) {
        Ordering::Less
    } else if part_at(a, i) > part_at(b, i) {
        Ordering::Greater
    } else {
        compare_from(a, b, i + 1)
    }
}

/// A peer's user agent version is acceptable when either version is empty,
/// when either has no numeric part, or when it is not below the minimum.
pub open spec fn version_acceptable(min: Seq<char>, peer: Seq<char>) -> bool {
    min.len() == 0 || peer.len() == 0 || version_parts(min).len() == 0 || version_parts(peer).len()
        == 0 || compare_from(version_parts(min), version_parts(peer), 0) != Ordering::Greater
}

/// A protocol version is acceptable when no minimum is set, or when it is
/// at least the minimum and at most 100.
pub open spec fn protocol_acceptable(peer: u32, min: u16) -> bool {
    min == 0 || (min <= peer && peer <= 100)
}

/// Reads the numeric parts of a version string.
pub fn parse_version_parts(s: &str) -> (r: Vec<u32>)
    ensures
        r@ == version_parts(s@),
{
    let chars = chars_of(s);
    let pieces = split_chars(&chars, '.');
    let ghost pv = pieces@.map_values(|p: Vec<char>| p@);
    let mut r: Vec<u32> = Vec::new();
    let mut i: usize = 0;
    while i < pieces.len()
        invariant
            i <= pieces@.len(),
            pv == pieces@.map_values(|p: Vec<char>| p@),
            pv == split(s@, '.'),
            r@ == parse_parts(pv.take(i as int)),
        decreases pieces@.len() - i,
    {
        assert(pv.take(i + 1).drop_last() =~= pv.take(i as int));
        assert(pv.take(i + 1).last() == pieces@[i as int]@);
        match parse_unsigned_chars(&pieces[i], 4294967295u64) {
            Some(n) => {
                r.push(n as u32);
            },
            None => {},
        }
        i = i + 1;
    }
    assert(pv.take(pieces@.len() as int) =~= pv);
    r
}

/// The order of two version part lists, part by part.
fn compare_parts(a: &Vec<u32>, b: &Vec<u32>) -> (r: Ordering)
    ensures
        r == compare_from(a@, b@, 0),
{
    let n = if a.len() > b.len() {
        a.len()
    } else {
        b.len()
    };
    let mut i: usize = 0;
    let ghost mut j: int = 0;
    while i < n
        invariant
            n == (if a@.len() > b@.len() { a@.len() } else { b@.len() }),
            i <= n,
            j == i,
            compare_from(a@, b@, 0) == compare_from(a@, b@, j),
        decreases n - i,
    {
        let x = if i < a.len() {
            a[i]
        } else {
            0
        };
        let y = if i < b.len() {
            b[i]
        } else {
            0
        };
        if x < y {
            return Ordering::Less;
        }
        if x > y {
            return Ordering::Greater;
        }
        i = i + 1;
        proof {
            j = j + 1;
        }
    }
    Ordering::Equal
}

/// Checks the versions that peers report.
pub struct VersionChecker;

impl VersionChecker {
    /// Whether a peer's user agent version meets the minimum: it is refused
    /// only when both versions are non-empty, both have numeric parts, and
    /// the minimum is greater; a version that cannot be compared is accepted.
    pub fn check_version(min_version: &str, peer_version: &str) -> (r: Result<(), TondiSeederError>)
        ensures
            r is Ok <==> version_acceptable(min_version@, peer_version@),
            r matches Err(e) ==> e matches TondiSeederError::Validation(m) && m@
                == "User agent version "@ + peer_version@ + " is below minimum required version "@
                + min_version@,
    {
        if min_version.is_empty() || peer_version.is_empty() {
            return Ok(());
        }
        match Self::compare_semantic_versions(min_version, peer_version) {
            Ok(Ordering::Greater) => {
                let mut m = "User agent version ".to_owned();
                m.append(peer_version);
                m.append(" is below minimum required version ");
                m.append(min_version);
                Err(TondiSeederError::Validation(m))
            },
            Ok(_) => Ok(()),
            Err(_) => Ok(()),
        }
    }

    /// The order of two versions, part by part, a missing part counting as
    /// zero; an error when either has no numeric part.
    pub fn compare_semantic_versions(version1: &str, version2: &str) -> (r: Result<Ordering, TondiSeederError>)
        ensures
            r is Err <==> (version_parts(version1@).len() == 0 || version_parts(version2@).len() == 0),
            r matches Ok(o) ==> o == compare_from(version_parts(version1@), version_parts(version2@), 0),
            r matches Err(e) ==> e matches TondiSeederError::Validation(m) && m@ == "Invalid version format"@,
    {
        let a = parse_version_parts(version1);
        let b = parse_version_parts(version2);
        if a.len() == 0 || b.len() == 0 {
            return Err(TondiSeederError::Validation("Invalid version format".to_owned()));
        }
        Ok(compare_parts(&a, &b))
    }

    /// Whether a peer's protocol version meets the minimum: any version
    /// passes when the minimum is 0; otherwise a version below the minimum,
    /// or above 100, is refused.
    pub fn check_protocol_version(peer_version: u32, min_version: u16) -> (r: Result<(), TondiSeederError>)
        ensures
            r is Ok <==> protocol_acceptable(peer_version, min_version),
            r matches Err(e) ==> e matches TondiSeederError::Validation(m) && (if peer_version < min_version {
                m@ == "Protocol version "@ + decimal_text(peer_version as nat)
                    + " is below minimum required version "@ + decimal_text(min_version as nat)
            } else {
                m@ == "Protocol version "@ + decimal_text(peer_version as nat)
                    + " seems unreasonably high"@
            }),
    {
        if min_version == 0 {
            return Ok(());
        }
        if peer_version < min_version as u32 {
            let mut m = "Protocol version ".to_owned();
            push_decimal(&mut m, peer_version as u64);
            m.append(" is below minimum required version ");
            push_decimal(&mut m, min_version as u64);
            return Err(TondiSeederError::Validation(m));
        }
        if peer_version > 100 {
            let mut m = "Protocol version ".to_owned();
            push_decimal(&mut m, peer_version as u64);
            m.append(" seems unreasonably high");
            return Err(TondiSeederError::Validation(m));
        }
        Ok(())
    }
}

/// Every version is equal to itself, from any part on.
pub proof fn law_compare_reflexive(a: Seq<u32>, i: int)
    ensures
        compare_from(a, a, i) == Ordering::Equal,
    decreases a.len() + a.len() - i,
{
    if !(i >= a.len()) {
        law_compare_reflexive(a, i + 1);
    }
}

/// One version is below another exactly when the other is above it.
pub proof fn law_compare_antisymmetric(a: Seq<u32>, b: Seq<u32>, i: int)
    ensures
        (compare_from(a, b, i) == Ordering::Less) <==> (compare_from(b, a, i) == Ordering::Greater),
        (compare_from(a, b, i) == Ordering::Equal) <==> (compare_from(b, a, i) == Ordering::Equal),
    decreases a.len() + b.len() - i,
{
    if !(i >= a.len() && i >= b.len()) {
        law_compare_antisymmetric(a, b, i + 1);
    }
}

/// A trailing zero part does not change a version: `1.2` equals `1.2.0`.
pub proof fn law_compare_trailing_zero(a: Seq<u32>, i: int)
    requires
        0 <= i,
    ensures
        compare_from(a, a.push(0), i) == Ordering::Equal,
    decreases a.len() + a.len() + 1 - i,
{
    if !(i >= a.len() && i >= a.len() + 1) {
        law_compare_trailing_zero(a, i + 1);
    }
}

/// A peer reporting exactly the minimum user agent version is accepted.
pub proof fn law_minimum_version_accepted(v: Seq<char>)
    ensures
        version_acceptable(v, v),
{
    law_compare_reflexive(version_parts(v), 0);
}

} // verus!
