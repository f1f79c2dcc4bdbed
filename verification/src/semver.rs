//! Semantic versions of the form `major.minor.patch`.

use crate::numeral::{all_digits, decimal_spec, decimal_text, is_digit, lemma_decimal_text};
use crate::text::{first_index, free_of, lemma_first_index_concat, lemma_has_char};
use std::str::FromStr;
use vstd::prelude::*;

verus! {

/// A semantic version.
#[derive(Debug, Clone, Copy, PartialEq, Eq)]
pub struct SemVer {
    pub major: u32,
    pub minor: u32,
    pub patch: u32,
}

/// Reads `s` as one number of a version: digits, which a `+` may precede,
/// that denote no more than `u32::MAX`.
pub open spec fn number_spec(s: Seq<char>) -> Option<u32> {
    if s.len() > 0 && s[0] == '+' {
        decimal_spec(s.skip(1), u32::MAX)
    } else {
        decimal_spec(s, u32::MAX)
    }
}

/// Reads `s` as a version: the text is cut at its dots, and the first three
/// pieces must be numbers. What follows a third dot is not looked at.
pub open spec fn semver_spec(s: Seq<char>) -> Option<SemVer> {
    let d1 = first_index(s, '.');
    let s1 = s.skip(d1 + 1);
    let d2 = first_index(s1, '.');
    let s2 = s1.skip(d2 + 1);
    let d3 = first_index(s2, '.');
    if d1 < s.len() && d2 < s1.len() {
        match (number_spec(s.take(d1)), number_spec(s1.take(d2)), number_spec(s2.take(d3))) {
            (Some(major), Some(minor), Some(patch)) => Some(SemVer { major, minor, patch }),
            _ => None,
        }
    } else {
        None
    }
}

/// A version in text: the three numbers in decimal, separated by dots.
pub open spec fn semver_text(v: SemVer) -> Seq<char> {
    decimal_text(v.major as nat) + seq!['.'] + decimal_text(v.minor as nat) + seq!['.']
        + decimal_text(v.patch as nat)
}

/// The canonical text of a version is made of digits and dots, and ends
/// with a digit.
pub proof fn lemma_semver_text_shape(v: SemVer)
    ensures
        semver_text(v).len() > 0,
        is_digit(semver_text(v).last()),
        forall|i: int|
            0 <= i < semver_text(v).len() ==> is_digit(#[trigger] semver_text(v)[i])
                || semver_text(v)[i] == '.',
{
    let a = decimal_text(v.major as nat);
    let b = decimal_text(v.minor as nat);
    let c = decimal_text(v.patch as nat);
    lemma_decimal_text(v.major as nat);
    lemma_decimal_text(v.minor as nat);
    lemma_decimal_text(v.patch as nat);
    let s = semver_text(v);
    assert(s.last() == c.last());
    assert forall|i: int| 0 <= i < s.len() implies is_digit(#[trigger] s[i]) || s[i] == '.' by {
        if i < a.len() {
            assert(s[i] == a[i]);
        } else if i == a.len() {
        } else if i < a.len() + 1 + b.len() {
            assert(s[i] == b[i - a.len() - 1]);
        } else if i == a.len() + 1 + b.len() {
        } else {
            assert(s[i] == c[i - a.len() - b.len() - 2]);
        }
    }
}

/// Digits hold no `c` that is not a digit.
pub proof fn lemma_digits_free_of(s: Seq<char>, c: char)
    requires
        all_digits(s),
        !is_digit(c),
    ensures
        free_of(s, c),
{
}

/// Reading the canonical text of a version gives the version back.
pub proof fn lemma_semver_round_trip(v: SemVer)
    ensures
        semver_spec(semver_text(v)) == Some(v),
{
    let a = decimal_text(v.major as nat);
    let b = decimal_text(v.minor as nat);
    let c = decimal_text(v.patch as nat);
    lemma_decimal_text(v.major as nat);
    lemma_decimal_text(v.minor as nat);
    lemma_decimal_text(v.patch as nat);
    lemma_digits_free_of(a, '.');
    lemma_digits_free_of(b, '.');
    lemma_digits_free_of(c, '.');
    let s = semver_text(v);
    let s1 = b + seq!['.'] + c;
    assert(s =~= a + seq!['.'] + s1);
    lemma_first_index_concat(a, '.', s1);
    lemma_first_index_concat(b, '.', c);
    lemma_has_char(c, '.');
    assert(c.take(c.len() as int) =~= c);
    assert(is_digit(a[0]) && is_digit(b[0]) && is_digit(c[0]));
}

/// Calls `borderless_pkg::semver::SemVer::from_str`. That function cuts the
/// text at its dots and hands the first three pieces to `u32::from_str`; it
/// fails if a piece is missing or is no number. The contract says the same
/// through `semver_spec`.
#[verifier::external_body]
fn outside_from_str(s: &str) -> (r: Option<SemVer>)
    ensures
        r == semver_spec(s@),
{
    match borderless_pkg::semver::SemVer::from_str(s) {
        Ok(v) => Some(SemVer { major: v.major, minor: v.minor, patch: v.patch }),
        Err(_) => None,
    }
}

/// Calls `to_string` on a `borderless_pkg::semver::SemVer`, which writes the
/// three numbers in decimal with a dot between them.
#[verifier::external_body]
fn outside_to_string(v: &SemVer) -> (r: String)
    ensures
        r@ == semver_text(*v),
{
    borderless_pkg::semver::SemVer { major: v.major, minor: v.minor, patch: v.patch }.to_string()
}

impl SemVer {
    /// Reads a version from `major.minor.patch`. `None` if `s` is no version.
    pub fn from_str(s: &str) -> (r: Option<SemVer>)
        ensures
            r == semver_spec(s@),
    {
        outside_from_str(s)
    }

    /// The version in its canonical text, `major.minor.patch`.
    pub fn to_string(&self) -> (r: String)
        ensures
            r@ == semver_text(*self),
    {
        outside_to_string(self)
    }
}

} // verus!
