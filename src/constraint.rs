//! Version constraints of several ecosystems: parsing, satisfaction and
//! retargeting at a new version.

use vstd::prelude::*;
use crate::text::{
    char_len, decimal, find_char, find_char_in, has_prefix, lemma_find_from_bounds, parse_u64,
    parse_u64_spec, push_decimal, same_text, slice, starts_with, strip_prefix, trim, trim_of,
};
use crate::version::{segment, segment_in, Version, VersionError, VersionModel, version_in};

verus! {

/// A version constraint.
#[derive(Debug, Clone)]
pub enum VersionSpec {
    /// `==1.2.3`
    Pinned(Version),
    /// `>=1.2.3`
    Minimum(Version),
    /// `<=1.2.3`
    Maximum(Version),
    /// `>1.2.3`
    GreaterThan(Version),
    /// `<1.2.3`
    LessThan(Version),
    /// `>=1.2.3,<2.0.0`
    Range { min: Version, max: Version },
    /// `^1.2.3`
    Caret(Version),
    /// `~1.2.3`
    Tilde(Version),
    /// `~=1.2.3`
    Compatible(Version),
    /// `==1.2.*`
    Wildcard { prefix: String, pattern: String },
    /// `!=1.2.3`
    NotEqual(Version),
    /// A constraint kept as written; it admits every version.
    Complex(String),
    /// No constraint.
    Any,
}

/// The mathematical value of a [`VersionSpec`].
pub enum SpecModel {
    Pinned(VersionModel),
    Minimum(VersionModel),
    Maximum(VersionModel),
    GreaterThan(VersionModel),
    LessThan(VersionModel),
    Range { min: VersionModel, max: VersionModel },
    Caret(VersionModel),
    Tilde(VersionModel),
    Compatible(VersionModel),
    Wildcard { prefix: Seq<char>, pattern: Seq<char> },
    NotEqual(VersionModel),
    Complex(Seq<char>),
    Any,
}

impl View for VersionSpec {
    type V = SpecModel;

    open spec fn view(&self) -> SpecModel {
        match self {
            VersionSpec::Pinned(v) => SpecModel::Pinned(v@),
            VersionSpec::Minimum(v) => SpecModel::Minimum(v@),
            VersionSpec::Maximum(v) => SpecModel::Maximum(v@),
            VersionSpec::GreaterThan(v) => SpecModel::GreaterThan(v@),
            VersionSpec::LessThan(v) => SpecModel::LessThan(v@),
            VersionSpec::Range { min, max } => SpecModel::Range { min: min@, max: max@ },
            VersionSpec::Caret(v) => SpecModel::Caret(v@),
            VersionSpec::Tilde(v) => SpecModel::Tilde(v@),
            VersionSpec::Compatible(v) => SpecModel::Compatible(v@),
            VersionSpec::Wildcard { prefix, pattern } => SpecModel::Wildcard {
                prefix: prefix@,
                pattern: pattern@,
            },
            VersionSpec::NotEqual(v) => SpecModel::NotEqual(v@),
            VersionSpec::Complex(s) => SpecModel::Complex(s@),
            VersionSpec::Any => SpecModel::Any,
        }
    }
}

/// The version `major.0.0`.
pub open spec fn release_model(major: u64) -> VersionModel {
    VersionModel {
        major,
        minor: 0,
        patch: 0,
        pre: None,
        local: None,
        text: decimal(major as nat) + "."@ + decimal(0) + "."@ + decimal(0),
    }
}

/// The text with every `.*` removed, and every other `*`.
pub open spec fn strip_stars(s: Seq<char>) -> Seq<char>
    decreases s.len(),
{
    if s.len() == 0 {
        s
    } else if s.len() >= 2 && s[0] == '.' && s[1] == '*' {
        strip_stars(s.skip(2))
    } else if s[0] == '*' {
        strip_stars(s.skip(1))
    } else {
        seq![s[0]] + strip_stars(s.skip(1))
    }
}

pub open spec fn contains_char(s: Seq<char>, c: char) -> bool {
    find_char(s, c).is_some()
}

/// The constraint with an operator `op` bound to the version after it.
pub open spec fn with_operator(t: Seq<char>, op: Seq<char>, k: int) -> Option<SpecModel> {
    match version_in(t.skip(op.len() as int)) {
        Some(v) => Some(
            if k == 0 {
                SpecModel::Caret(v)
            } else if k == 1 {
                SpecModel::Compatible(v)
            } else if k == 2 {
                SpecModel::Tilde(v)
            } else if k == 3 {
                SpecModel::Pinned(v)
            } else if k == 4 {
                SpecModel::Minimum(v)
            } else if k == 5 {
                SpecModel::Maximum(v)
            } else if k == 6 {
                SpecModel::NotEqual(v)
            } else if k == 7 {
                SpecModel::GreaterThan(v)
            } else {
                SpecModel::LessThan(v)
            },
        ),
        None => None,
    }
}

/// `>=X,<Y` with exactly one comma; `None` where a bound is no version.
pub open spec fn range_of(t: Seq<char>) -> Option<SpecModel> {
    let i = find_char(t, ',').unwrap();
    let lo = trim_of(t.take(i));
    let hi = trim_of(t.skip(i + 1));
    if !contains_char(t.skip(i + 1), ',') && has_prefix(lo, ">="@) && has_prefix(hi, "<"@) {
        match version_in(lo.skip(2)) {
            Some(min) => match version_in(hi.skip(1)) {
                Some(max) => Some(SpecModel::Range { min, max }),
                None => None,
            },
            None => None,
        }
    } else {
        Some(SpecModel::Complex(t))
    }
}

/// The constraint that the trimmed text `t` spells; `None` where an
/// operator is followed by something that is not a version.
pub open spec fn spec_of(t: Seq<char>) -> Option<SpecModel> {
    if t.len() == 0 || t == "*"@ {
        Some(SpecModel::Any)
    } else if has_prefix(t, "^"@) {
        with_operator(t, "^"@, 0)
    } else if has_prefix(t, "~="@) {
        with_operator(t, "~="@, 1)
    } else if has_prefix(t, "~"@) {
        with_operator(t, "~"@, 2)
    } else if contains_char(t, '*') {
        let body = if has_prefix(t, "=="@) {
            t.skip(2)
        } else {
            t
        };
        Some(SpecModel::Wildcard { prefix: strip_stars(body), pattern: t })
    } else if contains_char(t, ',') {
        range_of(t)
    } else {
        operator_spec_of(t)
    }
}

/// The comparison operators, then a bare version, then `Complex`.
pub open spec fn operator_spec_of(t: Seq<char>) -> Option<SpecModel> {
    if has_prefix(t, "=="@) {
        with_operator(t, "=="@, 3)
    } else if has_prefix(t, ">="@) {
        with_operator(t, ">="@, 4)
    } else if has_prefix(t, "<="@) {
        with_operator(t, "<="@, 5)
    } else if has_prefix(t, "!="@) {
        with_operator(t, "!="@, 6)
    } else if has_prefix(t, ">"@) {
        with_operator(t, ">"@, 7)
    } else if has_prefix(t, "<"@) {
        with_operator(t, "<"@, 8)
    } else {
        match version_in(t) {
            Some(v) => Some(SpecModel::Pinned(v)),
            None => Some(SpecModel::Complex(t)),
        }
    }
}

impl SpecModel {
    /// Whether version `v` meets the constraint.
    pub open spec fn admits(self, v: VersionModel) -> bool {
        match self {
            SpecModel::Any => true,
            SpecModel::Pinned(b) => v.eqv(b),
            SpecModel::Minimum(b) => !v.lt(b),
            SpecModel::Maximum(b) => v.lt(b) || v.eqv(b),
            SpecModel::GreaterThan(b) => b.lt(v),
            SpecModel::LessThan(b) => v.lt(b),
            SpecModel::Range { min, max } => !v.lt(min) && v.lt(max),
            SpecModel::NotEqual(b) => !v.eqv(b),
            SpecModel::Wildcard { prefix, .. } => has_prefix(v.text, prefix),
            SpecModel::Complex(_) => true,
            SpecModel::Caret(b) => !v.lt(b) && if b.major == 0 {
                if b.minor == 0 {
                    v.major == 0 && v.minor == 0 && v.patch == b.patch
                } else {
                    v.major == 0 && v.minor == b.minor
                }
            } else {
                v.major == b.major
            },
            SpecModel::Tilde(b) => !v.lt(b) && v.major == b.major && v.minor == b.minor,
            SpecModel::Compatible(b) => !v.lt(b) && v.major == b.major && v.minor == b.minor,
        }
    }

    /// The constraint of the same kind aimed at `n`.
    pub open spec fn retarget(self, n: VersionModel) -> SpecModel {
        match self {
            SpecModel::Pinned(_) => SpecModel::Pinned(n),
            SpecModel::Minimum(_) => SpecModel::Minimum(n),
            SpecModel::Maximum(_) => SpecModel::Maximum(n),
            SpecModel::GreaterThan(_) => SpecModel::GreaterThan(n),
            SpecModel::LessThan(_) => SpecModel::LessThan(n),
            SpecModel::Range { max, .. } => if !n.lt(max) {
                SpecModel::Range { min: n, max: release_model((n.major + 1) as u64) }
            } else {
                SpecModel::Range { min: n, max }
            },
            SpecModel::Caret(_) => SpecModel::Caret(n),
            SpecModel::Tilde(_) => SpecModel::Tilde(n),
            SpecModel::Compatible(_) => SpecModel::Compatible(n),
            SpecModel::Wildcard { pattern, .. } => SpecModel::Wildcard {
                prefix: decimal(n.major as nat) + "."@ + decimal(n.minor as nat),
                pattern,
            },
            SpecModel::NotEqual(_) => SpecModel::NotEqual(n),
            SpecModel::Complex(s) => SpecModel::Complex(s),
            SpecModel::Any => SpecModel::Any,
        }
    }

    /// The version a constraint is written around.
    pub open spec fn base(self) -> Option<VersionModel> {
        match self {
            SpecModel::Pinned(v) | SpecModel::Minimum(v) | SpecModel::Maximum(v)
            | SpecModel::GreaterThan(v) | SpecModel::LessThan(v) | SpecModel::Caret(v)
            | SpecModel::Tilde(v) | SpecModel::Compatible(v) | SpecModel::NotEqual(v) => Some(v),
            SpecModel::Range { min, .. } => Some(min),
            _ => None,
        }
    }

    /// The highest major version the constraint is taken to reach.
    pub open spec fn max_major(self) -> Option<u64> {
        match self {
            SpecModel::Range { max, .. } => Some(max.major),
            SpecModel::Wildcard { prefix, .. } => match segment(prefix, 0) {
                Some(first) => parse_u64_spec(first),
                None => None,
            },
            SpecModel::Complex(_) | SpecModel::Any => None,
            _ => Some(self.base().unwrap().major),
        }
    }

    /// Which of the thirteen forms this is.
    pub open spec fn kind(self) -> int {
        match self {
            SpecModel::Pinned(_) => 0,
            SpecModel::Minimum(_) => 1,
            SpecModel::Maximum(_) => 2,
            SpecModel::GreaterThan(_) => 3,
            SpecModel::LessThan(_) => 4,
            SpecModel::Range { .. } => 5,
            SpecModel::Caret(_) => 6,
            SpecModel::Tilde(_) => 7,
            SpecModel::Compatible(_) => 8,
            SpecModel::Wildcard { .. } => 9,
            SpecModel::NotEqual(_) => 10,
            SpecModel::Complex(_) => 11,
            SpecModel::Any => 12,
        }
    }

    /// The constraint written out with its operator.
    pub open spec fn text(self) -> Seq<char> {
        match self {
            SpecModel::Any => "*"@,
            SpecModel::Pinned(v) => "=="@ + v.text,
            SpecModel::Minimum(v) => ">="@ + v.text,
            SpecModel::Maximum(v) => "<="@ + v.text,
            SpecModel::GreaterThan(v) => ">"@ + v.text,
            SpecModel::LessThan(v) => "<"@ + v.text,
            SpecModel::Range { min, max } => ">="@ + min.text + ",<"@ + max.text,
            SpecModel::Caret(v) => "^"@ + v.text,
            SpecModel::Tilde(v) => "~"@ + v.text,
            SpecModel::Compatible(v) => "~="@ + v.text,
            SpecModel::Wildcard { prefix, .. } => "=="@ + prefix + ".*"@,
            SpecModel::NotEqual(v) => "!="@ + v.text,
            SpecModel::Complex(s) => s,
        }
    }

    /// The version part without operator.
    pub open spec fn version_text(self) -> Option<Seq<char>> {
        match self {
            SpecModel::Range { min, .. } => Some(min.text),
            SpecModel::Wildcard { prefix, .. } => Some(prefix + ".*"@),
            SpecModel::Complex(s) => Some(s),
            SpecModel::Any => None,
            _ => Some(self.base().unwrap().text),
        }
    }
}


/// Retargeting keeps the form of a constraint: the result is of the same
/// kind as the constraint it came from.
pub proof fn lemma_retarget_keeps_kind(spec: SpecModel, n: VersionModel)
    ensures
        spec.retarget(n).kind() == spec.kind(),
{
}

fn strip_stars_of(s: &str) -> (r: String)
    ensures
        r@ == strip_stars(s@),
{
    let n = char_len(s);
    let mut out = String::new();
    let mut i: usize = 0;
    assert(s@.skip(0) =~= s@);
    while i < n
        invariant
            n == s@.len(),
            i <= n,
            out@ + strip_stars(s@.skip(i as int)) == strip_stars(s@),
        decreases n - i,
    {
        let ghost rest = s@.skip(i as int);
        let c = crate::text::char_at(s, i);
        assert(rest[0] == c);
        if c == '.' && i + 1 < n && crate::text::char_at(s, i + 1) == '*' {
            assert(rest[1] == '*');
            assert(rest.skip(2) =~= s@.skip(i + 2));
            i = i + 2;
        } else if c == '*' {
            assert(rest.skip(1) =~= s@.skip(i + 1));
            i = i + 1;
        } else {
            let one = slice(s, i, i + 1);
            assert(one@ =~= seq![c]);
            assert(rest.skip(1) =~= s@.skip(i + 1));
            proof {
                if i + 1 < n {
                    assert(rest[1] == s@[i + 1]);
                }
            }
            assert(out@ + one@ + strip_stars(s@.skip(i + 1)) =~= out@ + strip_stars(rest));
            out.append(one);
            i = i + 1;
        }
    }
    assert(s@.skip(i as int) =~= Seq::<char>::empty());
    assert(out@ + strip_stars(s@.skip(i as int)) =~= out@);
    out
}

fn bind_operator(t: &str, op: &str, k: usize) -> (r: Result<VersionSpec, VersionError>)
    requires
        has_prefix(t@, op@),
        k < 9,
    ensures
        match r {
            Ok(x) => with_operator(t@, op@, k as int) == Some(x@),
            Err(e) => with_operator(t@, op@, k as int).is_none() && e is InvalidVersion,
        },
{
    let rest = strip_prefix(t, op).unwrap();
    match Version::parse(rest) {
        Ok(v) => Ok(
            if k == 0 {
                VersionSpec::Caret(v)
            } else if k == 1 {
                VersionSpec::Compatible(v)
            } else if k == 2 {
                VersionSpec::Tilde(v)
            } else if k == 3 {
                VersionSpec::Pinned(v)
            } else if k == 4 {
                VersionSpec::Minimum(v)
            } else if k == 5 {
                VersionSpec::Maximum(v)
            } else if k == 6 {
                VersionSpec::NotEqual(v)
            } else if k == 7 {
                VersionSpec::GreaterThan(v)
            } else {
                VersionSpec::LessThan(v)
            },
        ),
        Err(e) => Err(e),
    }
}

fn parse_range(t: &str) -> (r: Result<VersionSpec, VersionError>)
    requires
        contains_char(t@, ','),
    ensures
        match r {
            Ok(x) => range_of(t@) == Some(x@),
            Err(e) => range_of(t@).is_none() && e is InvalidVersion,
        },
{
    proof {
        lemma_find_from_bounds(t@, seq![','], 0, false);
        reveal_strlit(">=");
        reveal_strlit("<");
    }
    let n = char_len(t);
    let i = find_char_in(t, ',').unwrap();
    let lo = trim(slice(t, 0, i));
    let tail = slice(t, i + 1, n);
    let hi = trim(tail);
    assert(t@.take(i as int) =~= t@.subrange(0, i as int));
    assert(t@.skip(i + 1) =~= tail@);
    if find_char_in(tail, ',').is_none() && starts_with(lo, ">=") && starts_with(hi, "<") {
        let lo_len = char_len(lo);
        let hi_len = char_len(hi);
        let lo_rest = slice(lo, 2, lo_len);
        let hi_rest = slice(hi, 1, hi_len);
        assert(lo_rest@ =~= lo@.skip(2));
        assert(hi_rest@ =~= hi@.skip(1));
        match Version::parse(lo_rest) {
            Ok(min) => match Version::parse(hi_rest) {
                Ok(max) => Ok(VersionSpec::Range { min, max }),
                Err(e) => Err(e),
            },
            Err(e) => Err(e),
        }
    } else {
        Ok(VersionSpec::Complex(String::from_str(t)))
    }
}

impl VersionSpec {
    /// Parses a constraint with no surrounding whitespace.
    pub fn parse_trimmed(t: &str) -> (r: Result<VersionSpec, VersionError>)
        ensures
            match r {
                Ok(x) => spec_of(t@) == Some(x@),
                Err(e) => spec_of(t@).is_none() && e is InvalidVersion,
            },
    {
        proof {
            reveal_strlit("==");
        }
        if char_len(t) == 0 || same_text(t, "*") {
            assert(spec_of(t@) == Some(SpecModel::Any));
            Ok(VersionSpec::Any)
        } else if starts_with(t, "^") {
            let r = bind_operator(t, "^", 0);
            assert(spec_of(t@) == with_operator(t@, "^"@, 0));
            r
        } else if starts_with(t, "~=") {
            let r = bind_operator(t, "~=", 1);
            assert(spec_of(t@) == with_operator(t@, "~="@, 1));
            r
        } else if starts_with(t, "~") {
            let r = bind_operator(t, "~", 2);
            assert(spec_of(t@) == with_operator(t@, "~"@, 2));
            r
        } else if find_char_in(t, '*').is_some() {
            let prefix = match strip_prefix(t, "==") {
                Some(body) => strip_stars_of(body),
                None => strip_stars_of(t),
            };
            assert(spec_of(t@) == Some(SpecModel::Wildcard { prefix: prefix@, pattern: t@ }));
            Ok(VersionSpec::Wildcard { prefix, pattern: String::from_str(t) })
        } else if find_char_in(t, ',').is_some() {
            let r = parse_range(t);
            assert(spec_of(t@) == range_of(t@));
            r
        } else {
            let r = VersionSpec::parse_operator(t);
            assert(spec_of(t@) == operator_spec_of(t@));
            r
        }
    }

    fn parse_operator(t: &str) -> (r: Result<VersionSpec, VersionError>)
        ensures
            match r {
                Ok(x) => operator_spec_of(t@) == Some(x@),
                Err(e) => operator_spec_of(t@).is_none() && e is InvalidVersion,
            },
    {
        if starts_with(t, "==") {
            let r = bind_operator(t, "==", 3);
            assert(operator_spec_of(t@) == with_operator(t@, "=="@, 3));
            r
        } else if starts_with(t, ">=") {
            let r = bind_operator(t, ">=", 4);
            assert(operator_spec_of(t@) == with_operator(t@, ">="@, 4));
            r
        } else if starts_with(t, "<=") {
            let r = bind_operator(t, "<=", 5);
            assert(operator_spec_of(t@) == with_operator(t@, "<="@, 5));
            r
        } else if starts_with(t, "!=") {
            let r = bind_operator(t, "!=", 6);
            assert(operator_spec_of(t@) == with_operator(t@, "!="@, 6));
            r
        } else if starts_with(t, ">") {
            let r = bind_operator(t, ">", 7);
            assert(operator_spec_of(t@) == with_operator(t@, ">"@, 7));
            r
        } else if starts_with(t, "<") {
            let r = bind_operator(t, "<", 8);
            assert(operator_spec_of(t@) == with_operator(t@, "<"@, 8));
            r
        } else {
            match Version::parse(t) {
                Ok(v) => {
                    assert(operator_spec_of(t@) == Some(SpecModel::Pinned(v@)));
                    Ok(VersionSpec::Pinned(v))
                },
                Err(_) => Ok(VersionSpec::Complex(String::from_str(t))),
            }
        }
    }

    /// Parses a constraint; surrounding whitespace is ignored. Fails only
    /// where an operator is followed by something that is not a version;
    /// text it does not recognise becomes `Complex`.
    pub fn parse(s: &str) -> (r: Result<VersionSpec, VersionError>)
        ensures
            match r {
                Ok(x) => spec_of(trim_of(s@)) == Some(x@),
                Err(e) => spec_of(trim_of(s@)).is_none() && e is InvalidVersion,
            },
    {
        VersionSpec::parse_trimmed(trim(s))
    }
}


fn with_operator_text(op: &str, v: &Version) -> (r: String)
    ensures
        r@ == op@ + v@.text,
{
    let mut out = String::from_str(op);
    out.append(v.original.as_str());
    out
}

impl VersionSpec {
    /// A copy with the same value.
    pub fn duplicate(&self) -> (r: VersionSpec)
        ensures
            r@ == self@,
    {
        match self {
            VersionSpec::Pinned(v) => VersionSpec::Pinned(v.duplicate()),
            VersionSpec::Minimum(v) => VersionSpec::Minimum(v.duplicate()),
            VersionSpec::Maximum(v) => VersionSpec::Maximum(v.duplicate()),
            VersionSpec::GreaterThan(v) => VersionSpec::GreaterThan(v.duplicate()),
            VersionSpec::LessThan(v) => VersionSpec::LessThan(v.duplicate()),
            VersionSpec::Range { min, max } => VersionSpec::Range {
                min: min.duplicate(),
                max: max.duplicate(),
            },
            VersionSpec::Caret(v) => VersionSpec::Caret(v.duplicate()),
            VersionSpec::Tilde(v) => VersionSpec::Tilde(v.duplicate()),
            VersionSpec::Compatible(v) => VersionSpec::Compatible(v.duplicate()),
            VersionSpec::Wildcard { prefix, pattern } => VersionSpec::Wildcard {
                prefix: prefix.clone(),
                pattern: pattern.clone(),
            },
            VersionSpec::NotEqual(v) => VersionSpec::NotEqual(v.duplicate()),
            VersionSpec::Complex(s) => VersionSpec::Complex(s.clone()),
            VersionSpec::Any => VersionSpec::Any,
        }
    }

    /// Whether `version` meets this constraint.
    pub fn satisfies(&self, version: &Version) -> (r: bool)
        ensures
            r == self@.admits(version@),
    {
        match self {
            VersionSpec::Any => true,
            VersionSpec::Pinned(v) => version.equals(v),
            VersionSpec::Minimum(v) => !version.less_than(v),
            VersionSpec::Maximum(v) => version.less_than(v) || version.equals(v),
            VersionSpec::GreaterThan(v) => v.less_than(version),
            VersionSpec::LessThan(v) => version.less_than(v),
            VersionSpec::Range { min, max } => !version.less_than(min) && version.less_than(max),
            VersionSpec::Caret(v) => {
                if version.less_than(v) {
                    false
                } else if v.major == 0 {
                    if v.minor == 0 {
                        version.major == 0 && version.minor == 0 && version.patch == v.patch
                    } else {
                        version.major == 0 && version.minor == v.minor
                    }
                } else {
                    version.major == v.major
                }
            },
            VersionSpec::Tilde(v) => !version.less_than(v) && version.major == v.major
                && version.minor == v.minor,
            VersionSpec::Compatible(v) => !version.less_than(v) && version.major == v.major
                && version.minor == v.minor,
            VersionSpec::Wildcard { prefix, .. } => starts_with(
                version.original.as_str(),
                prefix.as_str(),
            ),
            VersionSpec::NotEqual(v) => !version.equals(v),
            VersionSpec::Complex(_) => true,
        }
    }

    /// The version the constraint is written around: its single version,
    /// or the lower bound of a range.
    pub fn base_version(&self) -> (r: Option<&Version>)
        ensures
            match r {
                Some(v) => self@.base() == Some(v@),
                None => self@.base().is_none(),
            },
    {
        match self {
            VersionSpec::Pinned(v)
            | VersionSpec::Minimum(v)
            | VersionSpec::Maximum(v)
            | VersionSpec::GreaterThan(v)
            | VersionSpec::LessThan(v)
            | VersionSpec::Caret(v)
            | VersionSpec::Tilde(v)
            | VersionSpec::Compatible(v)
            | VersionSpec::NotEqual(v) => Some(v),
            VersionSpec::Range { min, .. } => Some(min),
            _ => None,
        }
    }

    /// The highest major version the constraint is taken to reach.
    pub fn max_major(&self) -> (r: Option<u64>)
        ensures
            r == self@.max_major(),
    {
        match self {
            VersionSpec::Range { max, .. } => Some(max.major),
            VersionSpec::Wildcard { prefix, .. } => match segment_in(prefix.as_str(), 0) {
                Some(first) => parse_u64(first),
                None => None,
            },
            VersionSpec::Complex(_) | VersionSpec::Any => None,
            VersionSpec::Pinned(v)
            | VersionSpec::Minimum(v)
            | VersionSpec::Maximum(v)
            | VersionSpec::GreaterThan(v)
            | VersionSpec::LessThan(v)
            | VersionSpec::Caret(v)
            | VersionSpec::Tilde(v)
            | VersionSpec::Compatible(v)
            | VersionSpec::NotEqual(v) => Some(v.major),
        }
    }

    /// The version part without operator (`1.0.0` for `==1.0.0`).
    pub fn version_string(&self) -> (r: Option<String>)
        ensures
            match r {
                Some(x) => self@.version_text() == Some(x@),
                None => self@.version_text().is_none(),
            },
    {
        match self {
            VersionSpec::Range { min, .. } => Some(min.to_string()),
            VersionSpec::Wildcard { prefix, .. } => {
                let mut out = prefix.clone();
                out.append(".*");
                Some(out)
            },
            VersionSpec::Complex(s) => Some(s.clone()),
            VersionSpec::Any => None,
            VersionSpec::Pinned(v)
            | VersionSpec::Minimum(v)
            | VersionSpec::Maximum(v)
            | VersionSpec::GreaterThan(v)
            | VersionSpec::LessThan(v)
            | VersionSpec::Caret(v)
            | VersionSpec::Tilde(v)
            | VersionSpec::Compatible(v)
            | VersionSpec::NotEqual(v) => Some(v.to_string()),
        }
    }

    /// The constraint of the same kind aimed at `new_version`. A range
    /// keeps its upper bound unless the new version reaches it, in which
    /// case the bound becomes the next major release; a wildcard becomes
    /// `major.minor` of the new version; `Complex` and `Any` stay as they are.
    pub fn with_version(&self, new_version: &Version) -> (r: VersionSpec)
        requires
            self@ is Range ==> new_version.major < u64::MAX,
        ensures
            r@ == self@.retarget(new_version@),
    {
        match self {
            VersionSpec::Pinned(_) => VersionSpec::Pinned(new_version.duplicate()),
            VersionSpec::Minimum(_) => VersionSpec::Minimum(new_version.duplicate()),
            VersionSpec::Maximum(_) => VersionSpec::Maximum(new_version.duplicate()),
            VersionSpec::GreaterThan(_) => VersionSpec::GreaterThan(new_version.duplicate()),
            VersionSpec::LessThan(_) => VersionSpec::LessThan(new_version.duplicate()),
            VersionSpec::Range { max, .. } => {
                if !new_version.less_than(max) {
                    VersionSpec::Range {
                        min: new_version.duplicate(),
                        max: Version::new(new_version.major + 1, 0, 0),
                    }
                } else {
                    VersionSpec::Range { min: new_version.duplicate(), max: max.duplicate() }
                }
            },
            VersionSpec::Caret(_) => VersionSpec::Caret(new_version.duplicate()),
            VersionSpec::Tilde(_) => VersionSpec::Tilde(new_version.duplicate()),
            VersionSpec::Compatible(_) => VersionSpec::Compatible(new_version.duplicate()),
            VersionSpec::Wildcard { pattern, .. } => {
                let mut prefix = String::new();
                push_decimal(&mut prefix, new_version.major);
                prefix.append(".");
                push_decimal(&mut prefix, new_version.minor);
                VersionSpec::Wildcard { prefix, pattern: pattern.clone() }
            },
            VersionSpec::NotEqual(_) => VersionSpec::NotEqual(new_version.duplicate()),
            VersionSpec::Complex(s) => VersionSpec::Complex(s.clone()),
            VersionSpec::Any => VersionSpec::Any,
        }
    }

    /// The constraint written out with its operator (`>=1.2.3`).
    pub fn to_string(&self) -> (r: String)
        ensures
            r@ == self@.text(),
    {
        match self {
            VersionSpec::Any => String::from_str("*"),
            VersionSpec::Pinned(v) => with_operator_text("==", v),
            VersionSpec::Minimum(v) => with_operator_text(">=", v),
            VersionSpec::Maximum(v) => with_operator_text("<=", v),
            VersionSpec::GreaterThan(v) => with_operator_text(">", v),
            VersionSpec::LessThan(v) => with_operator_text("<", v),
            VersionSpec::Range { min, max } => {
                let mut out = with_operator_text(">=", min);
                out.append(",<");
                out.append(max.original.as_str());
                out
            },
            VersionSpec::Caret(v) => with_operator_text("^", v),
            VersionSpec::Tilde(v) => with_operator_text("~", v),
            VersionSpec::Compatible(v) => with_operator_text("~=", v),
            VersionSpec::Wildcard { prefix, .. } => {
                let mut out = String::from_str("==");
                out.append(prefix.as_str());
                out.append(".*");
                out
            },
            VersionSpec::NotEqual(v) => with_operator_text("!=", v),
            VersionSpec::Complex(s) => s.clone(),
        }
    }
}

} // verus!
