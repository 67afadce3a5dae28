//! Semantic-like versions: parsing, equality and a total order that ranks a
//! release above its pre-releases.

use vstd::prelude::*;
use crate::text::{
    char_at, char_len, decimal, find_char, find_char_in, find_from, find_in, lemma_find_from_bounds,
    parse_u64, parse_u64_spec, push_decimal, same_text, slice, trim, trim_of,
};

verus! {

/// The parser's error.
#[derive(Debug, Clone)]
pub enum VersionError {
    /// The major segment is missing or not a number; holds the text.
    InvalidVersion(String),
    /// Reserved for constraint-level failures.
    InvalidSpecifier(String),
}

impl VersionError {
    /// The error as a sentence.
    pub fn to_string(&self) -> (r: String) {
        match self {
            VersionError::InvalidVersion(s) => {
                let mut out = String::from_str("Invalid version string: ");
                out.append(s.as_str());
                out
            },
            VersionError::InvalidSpecifier(s) => {
                let mut out = String::from_str("Invalid version specifier: ");
                out.append(s.as_str());
                out
            },
        }
    }
}

/// A parsed version.
#[derive(Debug, Clone)]
pub struct Version {
    pub major: u64,
    pub minor: u64,
    pub patch: u64,
    /// Pre-release tag, kept verbatim from its marker on ("rc1", "-beta").
    pub pre_release: Option<String>,
    /// Local version segment or build metadata, after `+`.
    pub local: Option<String>,
    /// The text the version was parsed from.
    pub original: String,
}

/// The mathematical value of a [`Version`].
pub struct VersionModel {
    pub major: u64,
    pub minor: u64,
    pub patch: u64,
    pub pre: Option<Seq<char>>,
    pub local: Option<Seq<char>>,
    pub text: Seq<char>,
}

pub open spec fn opt_view(o: Option<String>) -> Option<Seq<char>> {
    match o {
        Some(s) => Some(s@),
        None => None,
    }
}

impl View for Version {
    type V = VersionModel;

    open spec fn view(&self) -> VersionModel {
        VersionModel {
            major: self.major,
            minor: self.minor,
            patch: self.patch,
            pre: opt_view(self.pre_release),
            local: opt_view(self.local),
            text: self.original@,
        }
    }
}

/// Strict lexical order on pre-release tags, char by char.
pub open spec fn tag_lt(a: Seq<char>, b: Seq<char>) -> bool
    decreases a.len(),
{
    if b.len() == 0 {
        false
    } else if a.len() == 0 {
        true
    } else if a[0] != b[0] {
        a[0] < b[0]
    } else {
        tag_lt(a.skip(1), b.skip(1))
    }
}

/// A version with no tag ranks above one with a tag.
pub open spec fn pre_lt(a: Option<Seq<char>>, b: Option<Seq<char>>) -> bool {
    match (a, b) {
        (Some(_), None) => true,
        (Some(x), Some(y)) => tag_lt(x, y),
        _ => false,
    }
}

impl VersionModel {
    /// Equality: the numbers and the tag; metadata and text do not count.
    pub open spec fn eqv(self, o: VersionModel) -> bool {
        self.major == o.major && self.minor == o.minor && self.patch == o.patch && self.pre
            == o.pre
    }

    /// Strict order: major, minor, patch, then the tag.
    pub open spec fn lt(self, o: VersionModel) -> bool {
        if self.major != o.major {
            self.major < o.major
        } else if self.minor != o.minor {
            self.minor < o.minor
        } else if self.patch != o.patch {
            self.patch < o.patch
        } else {
            pre_lt(self.pre, o.pre)
        }
    }

    pub open spec fn le(self, o: VersionModel) -> bool {
        self.lt(o) || self.eqv(o)
    }

    pub open spec fn cmp(self, o: VersionModel) -> std::cmp::Ordering {
        if self.lt(o) {
            std::cmp::Ordering::Less
        } else if self.eqv(o) {
            std::cmp::Ordering::Equal
        } else {
            std::cmp::Ordering::Greater
        }
    }
}

pub proof fn lemma_tag_irrefl(a: Seq<char>)
    ensures
        !tag_lt(a, a),
    decreases a.len(),
{
    if a.len() > 0 {
        lemma_tag_irrefl(a.skip(1));
    }
}

pub proof fn lemma_tag_total(a: Seq<char>, b: Seq<char>)
    ensures
        a == b || tag_lt(a, b) || tag_lt(b, a),
        !(tag_lt(a, b) && tag_lt(b, a)),
    decreases a.len(),
{
    if a.len() > 0 && b.len() > 0 && a[0] == b[0] {
        lemma_tag_total(a.skip(1), b.skip(1));
        if a.skip(1) == b.skip(1) {
            assert(a =~= seq![a[0]] + a.skip(1));
            assert(b =~= seq![b[0]] + b.skip(1));
        }
    } else if a.len() == 0 && b.len() == 0 {
        assert(a =~= b);
    } else if a.len() > 0 && b.len() > 0 {
    }
}

pub proof fn lemma_tag_trans(a: Seq<char>, b: Seq<char>, c: Seq<char>)
    requires
        tag_lt(a, b),
        tag_lt(b, c),
    ensures
        tag_lt(a, c),
    decreases a.len(),
{
    if a.len() > 0 && a[0] == b[0] && b[0] == c[0] {
        lemma_tag_trans(a.skip(1), b.skip(1), c.skip(1));
    }
}

/// Ordering is total: for any two versions exactly one of `a < b`,
/// `a == b` and `b < a` holds.
pub proof fn lemma_order_total(a: VersionModel, b: VersionModel)
    ensures
        a.lt(b) || a.eqv(b) || b.lt(a),
        !(a.lt(b) && a.eqv(b)),
        !(a.lt(b) && b.lt(a)),
        !(a.eqv(b) && b.lt(a)),
{
    match (a.pre, b.pre) {
        (Some(x), Some(y)) => {
            lemma_tag_total(x, y);
            lemma_tag_irrefl(x);
        },
        _ => {},
    }
}

/// Ordering is transitive: `a < b` and `b < c` give `a < c`.
pub proof fn lemma_order_trans(a: VersionModel, b: VersionModel, c: VersionModel)
    requires
        a.lt(b),
        b.lt(c),
    ensures
        a.lt(c),
{
    if a.major == b.major && b.major == c.major && a.minor == b.minor && b.minor == c.minor
        && a.patch == b.patch && b.patch == c.patch {
        match (a.pre, b.pre, c.pre) {
            (Some(x), Some(y), Some(z)) => {
                lemma_tag_trans(x, y, z);
            },
            _ => {},
        }
    }
}

/// Equality of versions is transitive and lines up with the order.
pub proof fn lemma_eqv_order(a: VersionModel, b: VersionModel, c: VersionModel)
    requires
        a.eqv(b),
    ensures
        a.lt(c) == b.lt(c),
        c.lt(a) == c.lt(b),
        a.eqv(c) == b.eqv(c),
{
}

/// Build metadata and the written text play no part in equality or order:
/// two versions that differ only there are equal and neither is below the other.
pub proof fn lemma_metadata_ignored(a: VersionModel, b: VersionModel)
    requires
        a.major == b.major,
        a.minor == b.minor,
        a.patch == b.patch,
        a.pre == b.pre,
    ensures
        a.eqv(b),
        !a.lt(b),
        !b.lt(a),
{
    lemma_order_total(a, b);
}

/// A release ranks above each of its pre-releases.
pub proof fn lemma_release_above_prerelease(pre: VersionModel, rel: VersionModel)
    requires
        pre.major == rel.major,
        pre.minor == rel.minor,
        pre.patch == rel.patch,
        pre.pre.is_some(),
        rel.pre.is_none(),
    ensures
        pre.lt(rel),
        !rel.lt(pre),
{
}

fn clone_opt(o: &Option<String>) -> (r: Option<String>)
    ensures
        opt_view(r) == opt_view(*o),
{
    match o {
        Some(s) => Some(s.clone()),
        None => None,
    }
}

fn same_opt(a: &Option<String>, b: &Option<String>) -> (r: bool)
    ensures
        r == (opt_view(*a) == opt_view(*b)),
{
    match (a, b) {
        (Some(x), Some(y)) => same_text(x.as_str(), y.as_str()),
        (None, None) => true,
        _ => false,
    }
}

/// Compares two tags char by char.
pub(crate) fn compare_tags(a: &str, b: &str) -> (r: std::cmp::Ordering)
    ensures
        (r == std::cmp::Ordering::Less) == tag_lt(a@, b@),
        (r == std::cmp::Ordering::Equal) == (a@ == b@),
        (r == std::cmp::Ordering::Greater) == tag_lt(b@, a@),
{
    proof {
        lemma_tag_total(a@, b@);
        lemma_tag_irrefl(a@);
    }
    let n = char_len(a);
    let m = char_len(b);
    let mut i: usize = 0;
    assert(a@.skip(0) =~= a@);
    assert(b@.skip(0) =~= b@);
    while i < n && i < m
        invariant
            n == a@.len(),
            m == b@.len(),
            i <= n,
            i <= m,
            a@.take(i as int) == b@.take(i as int),
            tag_lt(a@, b@) == tag_lt(a@.skip(i as int), b@.skip(i as int)),
            tag_lt(b@, a@) == tag_lt(b@.skip(i as int), a@.skip(i as int)),
        decreases n - i,
    {
        let x = char_at(a, i);
        let y = char_at(b, i);
        assert(a@.skip(i as int)[0] == x);
        assert(b@.skip(i as int)[0] == y);
        if x != y {
            if x < y {
                return std::cmp::Ordering::Less;
            } else {
                return std::cmp::Ordering::Greater;
            }
        }
        assert(a@.skip(i as int).skip(1) =~= a@.skip(i + 1));
        assert(b@.skip(i as int).skip(1) =~= b@.skip(i + 1));
        assert(a@.take(i + 1) =~= a@.take(i as int).push(x));
        assert(b@.take(i + 1) =~= b@.take(i as int).push(y));
        i = i + 1;
    }
    if i < m {
        std::cmp::Ordering::Less
    } else if i < n {
        std::cmp::Ordering::Greater
    } else {
        assert(a@ =~= a@.take(i as int));
        assert(b@ =~= b@.take(i as int));
        std::cmp::Ordering::Equal
    }
}

impl Version {
    /// A release version `major.minor.patch`, spelled in decimal.
    pub fn new(major: u64, minor: u64, patch: u64) -> (r: Version)
        ensures
            r.major == major,
            r.minor == minor,
            r.patch == patch,
            r.pre_release.is_none(),
            r.local.is_none(),
            r.original@ == decimal(major as nat) + "."@ + decimal(minor as nat) + "."@ + decimal(
                patch as nat,
            ),
    {
        let mut text = String::new();
        push_decimal(&mut text, major);
        text.append(".");
        push_decimal(&mut text, minor);
        text.append(".");
        push_decimal(&mut text, patch);
        Version { major, minor, patch, pre_release: None, local: None, original: text }
    }

    /// A copy with the same value.
    pub fn duplicate(&self) -> (r: Version)
        ensures
            r@ == self@,
    {
        Version {
            major: self.major,
            minor: self.minor,
            patch: self.patch,
            pre_release: clone_opt(&self.pre_release),
            local: clone_opt(&self.local),
            original: self.original.clone(),
        }
    }

    /// Whether this is a pre-release.
    pub fn is_prerelease(&self) -> (r: bool)
        ensures
            r == self@.pre.is_some(),
    {
        self.pre_release.is_some()
    }

    /// Whether both are in one major series.
    pub fn same_major(&self, other: &Version) -> (r: bool)
        ensures
            r == (self.major == other.major),
    {
        self.major == other.major
    }

    /// Whether both are in one minor series.
    pub fn same_minor(&self, other: &Version) -> (r: bool)
        ensures
            r == (self.major == other.major && self.minor == other.minor),
    {
        self.major == other.major && self.minor == other.minor
    }

    /// Equality of numbers and tag.
    pub fn equals(&self, other: &Version) -> (r: bool)
        ensures
            r == self@.eqv(other@),
    {
        self.major == other.major && self.minor == other.minor && self.patch == other.patch
            && same_opt(&self.pre_release, &other.pre_release)
    }

    /// Compares two versions: major, minor, patch, then pre-release tag.
    pub fn compare(&self, other: &Version) -> (r: std::cmp::Ordering)
        ensures
            r == self@.cmp(other@),
            (r == std::cmp::Ordering::Less) == self@.lt(other@),
            (r == std::cmp::Ordering::Equal) == self@.eqv(other@),
            (r == std::cmp::Ordering::Greater) == other@.lt(self@),
    {
        proof {
            lemma_order_total(self@, other@);
        }
        if self.major != other.major {
            if self.major < other.major {
                std::cmp::Ordering::Less
            } else {
                std::cmp::Ordering::Greater
            }
        } else if self.minor != other.minor {
            if self.minor < other.minor {
                std::cmp::Ordering::Less
            } else {
                std::cmp::Ordering::Greater
            }
        } else if self.patch != other.patch {
            if self.patch < other.patch {
                std::cmp::Ordering::Less
            } else {
                std::cmp::Ordering::Greater
            }
        } else {
            match (&self.pre_release, &other.pre_release) {
                (None, Some(_)) => std::cmp::Ordering::Greater,
                (Some(_), None) => std::cmp::Ordering::Less,
                (Some(a), Some(b)) => compare_tags(a.as_str(), b.as_str()),
                (None, None) => std::cmp::Ordering::Equal,
            }
        }
    }

    /// `self < other`.
    pub fn less_than(&self, other: &Version) -> (r: bool)
        ensures
            r == self@.lt(other@),
    {
        match self.compare(other) {
            std::cmp::Ordering::Less => true,
            _ => false,
        }
    }

    /// The text the version was written as.
    pub fn to_string(&self) -> (r: String)
        ensures
            r@ == self@.text,
    {
        self.original.clone()
    }
}

/// The pre-release markers, in the order they are tried.
pub open spec fn marker(k: int) -> Seq<char> {
    if k == 0 {
        "dev"@
    } else if k == 1 {
        "post"@
    } else if k == 2 {
        "alpha"@
    } else if k == 3 {
        "beta"@
    } else if k == 4 {
        "rc"@
    } else if k == 5 {
        "a"@
    } else if k == 6 {
        "b"@
    } else if k == 7 {
        "c"@
    } else {
        "-"@
    }
}

/// Splits `s` before the first marker, from the `k`-th on, whose first
/// occurrence (ASCII case-insensitive) is at a non-zero offset.
pub open spec fn split_pre_from(s: Seq<char>, k: int) -> (Seq<char>, Option<Seq<char>>)
    decreases 9 - k,
{
    if k < 0 || k >= 9 {
        (s, None)
    } else {
        match find_from(s, marker(k), 0, true) {
            Some(i) => if i > 0 {
                (s.take(i), Some(s.skip(i)))
            } else {
                split_pre_from(s, k + 1)
            },
            None => split_pre_from(s, k + 1),
        }
    }
}

/// The numeric part and the pre-release tag of `s`.
pub open spec fn split_pre(s: Seq<char>) -> (Seq<char>, Option<Seq<char>>) {
    split_pre_from(s, 0)
}

/// The text before the first `+`, and the local segment after it.
pub open spec fn split_local(t: Seq<char>) -> (Seq<char>, Option<Seq<char>>) {
    match find_char(t, '+') {
        Some(i) => (t.take(i), Some(t.skip(i + 1))),
        None => (t, None),
    }
}

/// The `n`-th piece of `s` split on `.`.
pub open spec fn segment(s: Seq<char>, n: nat) -> Option<Seq<char>>
    decreases n,
{
    match find_char(s, '.') {
        None => if n == 0 {
            Some(s)
        } else {
            None
        },
        Some(i) => if n == 0 {
            Some(s.take(i))
        } else {
            segment(s.skip(i + 1), (n - 1) as nat)
        },
    }
}

/// The number a piece holds, 0 where it is missing or not a number.
pub open spec fn number_or_zero(o: Option<Seq<char>>) -> u64 {
    match o {
        Some(x) => match parse_u64_spec(x) {
            Some(v) => v,
            None => 0,
        },
        None => 0,
    }
}

/// The version that the (already trimmed) text `t` spells; `None` where
/// its major segment is not a number.
pub open spec fn version_of(t: Seq<char>) -> Option<VersionModel> {
    let rest = split_local(t).0;
    let local = split_local(t).1;
    let base = split_pre(rest).0;
    let pre = split_pre(rest).1;
    match segment(base, 0) {
        Some(first) => match parse_u64_spec(first) {
            Some(major) => Some(
                VersionModel {
                    major,
                    minor: number_or_zero(segment(base, 1)),
                    patch: number_or_zero(segment(base, 2)),
                    pre,
                    local,
                    text: t,
                },
            ),
            None => None,
        },
        None => None,
    }
}

/// The version that `s` spells once trimmed.
pub open spec fn version_in(s: Seq<char>) -> Option<VersionModel> {
    version_of(trim_of(s))
}

pub open spec fn opt_str(o: Option<&str>) -> Option<Seq<char>> {
    match o {
        Some(s) => Some(s@),
        None => None,
    }
}

fn marker_text(k: usize) -> (m: &'static str)
    requires
        k < 9,
    ensures
        m@ == marker(k as int),
{
    if k == 0 {
        "dev"
    } else if k == 1 {
        "post"
    } else if k == 2 {
        "alpha"
    } else if k == 3 {
        "beta"
    } else if k == 4 {
        "rc"
    } else if k == 5 {
        "a"
    } else if k == 6 {
        "b"
    } else if k == 7 {
        "c"
    } else {
        "-"
    }
}

fn split_prerelease(s: &str) -> (r: (&str, Option<&str>))
    ensures
        r.0@ == split_pre(s@).0,
        opt_str(r.1) == split_pre(s@).1,
{
    let n = char_len(s);
    let mut k: usize = 0;
    while k < 9
        invariant
            n == s@.len(),
            k <= 9,
            split_pre(s@) == split_pre_from(s@, k as int),
        decreases 9 - k,
    {
        let m = marker_text(k);
        match find_in(s, m, true) {
            Some(i) => {
                proof {
                    lemma_find_from_bounds(s@, m@, 0, true);
                }
                if i > 0 {
                    return (slice(s, 0, i), Some(slice(s, i, n)));
                }
            },
            None => {},
        }
        k = k + 1;
    }
    (s, None)
}

pub(crate) fn segment_in(s: &str, n: usize) -> (r: Option<&str>)
    ensures
        opt_str(r) == segment(s@, n as nat),
    decreases n,
{
    let len = char_len(s);
    match find_char_in(s, '.') {
        None => if n == 0 {
            Some(s)
        } else {
            None
        },
        Some(i) => {
            proof {
                lemma_find_from_bounds(s@, seq!['.'], 0, false);
            }
            if n == 0 {
                Some(slice(s, 0, i))
            } else {
                let rest = slice(s, i + 1, len);
                segment_in(rest, n - 1)
            }
        },
    }
}

fn number_in(o: Option<&str>) -> (r: u64)
    ensures
        r == number_or_zero(opt_str(o)),
{
    match o {
        Some(x) => match parse_u64(x) {
            Some(v) => v,
            None => 0,
        },
        None => 0,
    }
}

fn owned(o: Option<&str>) -> (r: Option<String>)
    ensures
        opt_view(r) == opt_str(o),
{
    match o {
        Some(x) => Some(String::from_str(x)),
        None => None,
    }
}

impl Version {
    /// Parses text that carries no surrounding whitespace.
    pub fn parse_trimmed(t: &str) -> (r: Result<Version, VersionError>)
        ensures
            match r {
                Ok(v) => version_of(t@) == Some(v@),
                Err(e) => version_of(t@).is_none() && (e matches VersionError::InvalidVersion(
                    x,
                ) && x@ == t@),
            },
    {
        let len = char_len(t);
        let (rest, local) = match find_char_in(t, '+') {
            Some(i) => {
                proof {
                    lemma_find_from_bounds(t@, seq!['+'], 0, false);
                }
                (slice(t, 0, i), Some(slice(t, i + 1, len)))
            },
            None => (t, None),
        };
        let (base, pre) = split_prerelease(rest);
        let major = match segment_in(base, 0) {
            Some(first) => parse_u64(first),
            None => None,
        };
        match major {
            None => Err(VersionError::InvalidVersion(String::from_str(t))),
            Some(major) => {
                let minor = number_in(segment_in(base, 1));
                let patch = number_in(segment_in(base, 2));
                Ok(
                    Version {
                        major,
                        minor,
                        patch,
                        pre_release: owned(pre),
                        local: owned(local),
                        original: String::from_str(t),
                    },
                )
            },
        }
    }

    /// Parses a version; surrounding whitespace is ignored.
    pub fn parse(s: &str) -> (r: Result<Version, VersionError>)
        ensures
            match r {
                Ok(v) => version_in(s@) == Some(v@),
                Err(e) => version_in(s@).is_none() && (e matches VersionError::InvalidVersion(
                    x,
                ) && x@ == trim_of(s@)),
            },
    {
        Version::parse_trimmed(trim(s))
    }
}

impl std::str::FromStr for Version {
    type Err = VersionError;

    fn from_str(s: &str) -> Result<Version, VersionError> {
        Version::parse(s)
    }
}

impl PartialEq for Version {
    fn eq(&self, other: &Version) -> (r: bool) {
        self.equals(other)
    }
}

impl vstd::std_specs::cmp::PartialEqSpecImpl for Version {
    open spec fn obeys_eq_spec() -> bool {
        true
    }

    open spec fn eq_spec(&self, other: &Version) -> bool {
        self@.eqv(other@)
    }
}

impl Eq for Version {

}

impl PartialOrd for Version {
    fn partial_cmp(&self, other: &Version) -> (r: Option<std::cmp::Ordering>) {
        Some(self.compare(other))
    }
}

impl vstd::std_specs::cmp::PartialOrdSpecImpl for Version {
    open spec fn obeys_partial_cmp_spec() -> bool {
        true
    }

    open spec fn partial_cmp_spec(&self, other: &Version) -> Option<std::cmp::Ordering> {
        Some(self@.cmp(other@))
    }
}

} // verus!
