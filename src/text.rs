//! Character-level helpers on `str`, each stated over the string's view
//! (a sequence of chars) and proved.

use vstd::prelude::*;
use vstd::string::*;

verus! {

/// What `str::trim` leaves of a string: the text without leading and
/// trailing whitespace.
pub uninterp spec fn trim_of(s: Seq<char>) -> Seq<char>;

/// Relies on `str::trim`: removes leading and trailing whitespace and
/// depends on the characters alone.
#[verifier::external_body]
pub fn trim(s: &str) -> (r: &str)
    ensures
        r@ == trim_of(s@),
{
    s.trim()
}

/// What `str::trim_start` leaves of a string: the text without leading
/// whitespace.
pub uninterp spec fn trim_start_of(s: Seq<char>) -> Seq<char>;

/// Relies on `str::trim_start`: removes leading whitespace and depends on
/// the characters alone.
#[verifier::external_body]
pub fn trim_start(s: &str) -> (r: &str)
    ensures
        r@ == trim_start_of(s@),
{
    s.trim_start()
}

/// `c` matches `p`; when `ci` holds, an ASCII capital also matches its
/// lower-case letter.
pub open spec fn char_match(c: char, p: char, ci: bool) -> bool {
    c == p || (ci && 'A' <= c && c <= 'Z' && (c as u32) + 32 == (p as u32))
}

/// `p` occurs in `s` at index `i`.
pub open spec fn matches_at(s: Seq<char>, p: Seq<char>, i: int, ci: bool) -> bool {
    &&& 0 <= i
    &&& i + p.len() <= s.len()
    &&& forall|k: int| 0 <= k < p.len() ==> char_match(#[trigger] s[i + k], p[k], ci)
}

/// The first index at or after `i` where `p` occurs in `s`.
pub open spec fn find_from(s: Seq<char>, p: Seq<char>, i: int, ci: bool) -> Option<int>
    decreases s.len() + 1 - i,
{
    if i < 0 || i + p.len() > s.len() {
        None
    } else if matches_at(s, p, i, ci) {
        Some(i)
    } else {
        find_from(s, p, i + 1, ci)
    }
}

/// The first index where `p` occurs in `s`, case-sensitive.
pub open spec fn find(s: Seq<char>, p: Seq<char>) -> Option<int> {
    find_from(s, p, 0, false)
}

/// The first index of the char `c` in `s`.
pub open spec fn find_char(s: Seq<char>, c: char) -> Option<int> {
    find(s, seq![c])
}

pub open spec fn opt_index(r: Option<usize>) -> Option<int> {
    match r {
        Some(i) => Some(i as int),
        None => None,
    }
}

pub open spec fn has_prefix(s: Seq<char>, p: Seq<char>) -> bool {
    p.len() <= s.len() && s.subrange(0, p.len() as int) == p
}

pub proof fn lemma_find_from_bounds(s: Seq<char>, p: Seq<char>, i: int, ci: bool)
    ensures
        match find_from(s, p, i, ci) {
            Some(j) => i <= j && j + p.len() <= s.len() && matches_at(s, p, j, ci),
            None => true,
        },
    decreases s.len() + 1 - i,
{
    if i < 0 || i + p.len() > s.len() {
    } else if matches_at(s, p, i, ci) {
    } else {
        lemma_find_from_bounds(s, p, i + 1, ci);
    }
}

/// Character `i` of `s`, read through the view.
pub fn char_at(s: &str, i: usize) -> (c: char)
    requires
        i < s@.len(),
    ensures
        c == s@[i as int],
{
    s.get_char(i)
}

/// The number of chars in `s`.
pub fn char_len(s: &str) -> (n: usize)
    ensures
        n == s@.len(),
{
    s.unicode_len()
}

/// Chars `from..to` of `s`.
pub fn slice(s: &str, from: usize, to: usize) -> (r: &str)
    requires
        from <= to <= s@.len(),
    ensures
        r@ == s@.subrange(from as int, to as int),
{
    s.substring_char(from, to)
}

fn match_char(c: char, p: char, ci: bool) -> (r: bool)
    ensures
        r == char_match(c, p, ci),
{
    c == p || (ci && 'A' <= c && c <= 'Z' && (c as u32) + 32 == (p as u32))
}

/// Finds the first occurrence of `p` in `s`; with `ci` an ASCII capital
/// in `s` matches the lower-case letter in `p`.
pub fn find_in(s: &str, p: &str, ci: bool) -> (r: Option<usize>)
    ensures
        opt_index(r) == find_from(s@, p@, 0, ci),
{
    let n = char_len(s);
    let m = char_len(p);
    let mut i: usize = 0;
    while i <= n && m <= n - i
        invariant
            n == s@.len(),
            m == p@.len(),
            i <= n + 1,
            find_from(s@, p@, 0, ci) == find_from(s@, p@, i as int, ci),
        decreases n + 1 - i,
    {
        let mut k: usize = 0;
        let mut ok = true;
        while k < m
            invariant
                n == s@.len(),
                m == p@.len(),
                i + m <= n,
                k <= m,
                ok == forall|j: int| 0 <= j < k ==> char_match(#[trigger] s@[i + j], p@[j], ci),
            decreases m - k,
        {
            let c = char_at(s, i + k);
            let d = char_at(p, k);
            let same = match_char(c, d, ci);
            proof {
                if !same {
                    assert(!char_match(s@[i + k as int], p@[k as int], ci));
                }
                assert(ok && same ==> forall|j: int|
                    0 <= j < k + 1 ==> char_match(#[trigger] s@[i + j], p@[j], ci)) by {
                    if ok && same {
                        assert forall|j: int| 0 <= j < k + 1 implies char_match(
                            #[trigger] s@[i + j],
                            p@[j],
                            ci,
                        ) by {
                            if j == k {
                            }
                        }
                    }
                }
            }
            ok = ok && same;
            k = k + 1;
        }
        if ok {
            assert(matches_at(s@, p@, i as int, ci));
            return Some(i);
        }
        i = i + 1;
    }
    None
}

/// Finds the first occurrence of the char `c` in `s`.
pub fn find_char_in(s: &str, c: char) -> (r: Option<usize>)
    ensures
        opt_index(r) == find_char(s@, c),
{
    let n = char_len(s);
    let mut i: usize = 0;
    while i < n
        invariant
            n == s@.len(),
            i <= n,
            find_char(s@, c) == find_from(s@, seq![c], i as int, false),
        decreases n - i,
    {
        let d = char_at(s, i);
        if d == c {
            assert(matches_at(s@, seq![c], i as int, false));
            return Some(i);
        }
        assert(!matches_at(s@, seq![c], i as int, false)) by {
            assert(!char_match(s@[i as int + 0], seq![c][0], false));
        }
        i = i + 1;
    }
    None
}

/// Whether `s` begins with `p`.
pub fn starts_with(s: &str, p: &str) -> (r: bool)
    ensures
        r == has_prefix(s@, p@),
{
    let n = char_len(s);
    let m = char_len(p);
    if m > n {
        return false;
    }
    let mut k: usize = 0;
    while k < m
        invariant
            n == s@.len(),
            m == p@.len(),
            m <= n,
            k <= m,
            forall|j: int| 0 <= j < k ==> s@[j] == p@[j],
        decreases m - k,
    {
        if char_at(s, k) != char_at(p, k) {
            assert(s@.subrange(0, m as int)[k as int] != p@[k as int]);
            return false;
        }
        k = k + 1;
    }
    assert(s@.subrange(0, m as int) =~= p@);
    true
}

/// If `s` begins with `p`, the rest of `s` after it.
pub fn strip_prefix<'a>(s: &'a str, p: &str) -> (r: Option<&'a str>)
    ensures
        r.is_some() == has_prefix(s@, p@),
        r.is_some() ==> r.unwrap()@ == s@.skip(p@.len() as int),
{
    if starts_with(s, p) {
        let n = char_len(s);
        let m = char_len(p);
        let rest = slice(s, m, n);
        assert(rest@ =~= s@.skip(m as int));
        Some(rest)
    } else {
        None
    }
}

/// Whether two strings hold the same chars.
pub fn same_text(a: &str, b: &str) -> (r: bool)
    ensures
        r == (a@ == b@),
{
    let x = String::from_str(a);
    let y = String::from_str(b);
    x == y
}


pub open spec fn is_digit(c: char) -> bool {
    '0' <= c && c <= '9'
}

pub open spec fn digit_value(c: char) -> nat {
    ((c as u32) - ('0' as u32)) as nat
}

/// The number that a run of decimal digits spells.
pub open spec fn digits_value(s: Seq<char>) -> nat
    decreases s.len(),
{
    if s.len() == 0 {
        0
    } else {
        digits_value(s.drop_last()) * 10 + digit_value(s.last())
    }
}

pub open spec fn all_digits(s: Seq<char>) -> bool {
    forall|i: int| 0 <= i < s.len() ==> is_digit(#[trigger] s[i])
}

/// What parsing `s` as a `u64` gives: an optional `+`, then one or more
/// decimal digits whose value fits.
pub open spec fn parse_u64_spec(s: Seq<char>) -> Option<u64> {
    let d = if s.len() > 0 && s[0] == '+' {
        s.skip(1)
    } else {
        s
    };
    if d.len() > 0 && all_digits(d) && digits_value(d) <= u64::MAX {
        Some(digits_value(d) as u64)
    } else {
        None
    }
}

proof fn lemma_digits_mono(s: Seq<char>, i: int)
    requires
        0 <= i <= s.len(),
        all_digits(s),
    ensures
        digits_value(s.take(i)) <= digits_value(s),
    decreases s.len(),
{
    if i < s.len() {
        let t = s.drop_last();
        assert(all_digits(t)) by {
            assert forall|j: int| 0 <= j < t.len() implies is_digit(#[trigger] t[j]) by {
                assert(t[j] == s[j]);
            }
        }
        lemma_digits_mono(t, i);
        assert(t.take(i) =~= s.take(i));
    } else {
        assert(s.take(i) =~= s);
    }
}

/// Parses a decimal `u64` as `str::parse` does.
pub fn parse_u64(s: &str) -> (r: Option<u64>)
    ensures
        r == parse_u64_spec(s@),
{
    let n = char_len(s);
    let start: usize = if n > 0 && char_at(s, 0) == '+' {
        1
    } else {
        0
    };
    let d = slice(s, start, n);
    let ghost dv = d@;
    assert(dv =~= if s@.len() > 0 && s@[0] == '+' {
        s@.skip(1)
    } else {
        s@
    });
    assert(parse_u64_spec(s@) == (if dv.len() > 0 && all_digits(dv) && digits_value(dv)
        <= u64::MAX {
        Some(digits_value(dv) as u64)
    } else {
        None::<u64>
    }));
    let m = char_len(d);
    if m == 0 {
        return None;
    }
    let mut acc: u64 = 0;
    let mut i: usize = 0;
    while i < m
        invariant
            m == dv.len(),
            dv == d@,
            i <= m,
            parse_u64_spec(s@) == (if dv.len() > 0 && all_digits(dv) && digits_value(dv)
                <= u64::MAX {
                Some(digits_value(dv) as u64)
            } else {
                None::<u64>
            }),
            all_digits(dv.take(i as int)),
            acc as nat == digits_value(dv.take(i as int)),
        decreases m - i,
    {
        let c = char_at(d, i);
        assert(dv.take(i + 1).drop_last() =~= dv.take(i as int));
        if c < '0' || c > '9' {
            assert(!all_digits(dv)) by {
                assert(!is_digit(dv[i as int]));
            }
            return None;
        }
        assert(all_digits(dv.take(i + 1))) by {
            assert forall|j: int| 0 <= j < i + 1 implies is_digit(#[trigger] dv.take(i + 1)[j]) by {
                if j < i {
                    assert(dv.take(i + 1)[j] == dv.take(i as int)[j]);
                }
            }
        }
        let dig = ((c as u32) - ('0' as u32)) as u64;
        assert(dv.take(i + 1).last() == c);
        assert(digits_value(dv.take(i + 1)) == acc as nat * 10 + dig as nat);
        let next = match acc.checked_mul(10) {
            Some(t) => t.checked_add(dig),
            None => None,
        };
        match next {
            Some(v) => {
                acc = v;
            },
            None => {
                assert(digits_value(dv.take(i + 1)) > u64::MAX);
                proof {
                    if all_digits(dv) {
                        lemma_digits_mono(dv, i + 1);
                    }
                }
                return None;
            },
        }
        i = i + 1;
    }
    assert(dv.take(m as int) =~= dv);
    Some(acc)
}

pub open spec fn digit_char(d: nat) -> char {
    "0123456789"@[d as int]
}

/// The decimal spelling of `n`, without leading zeros.
pub open spec fn decimal(n: nat) -> Seq<char>
    decreases n,
{
    if n < 10 {
        seq![digit_char(n)]
    } else {
        decimal(n / 10).push(digit_char(n % 10))
    }
}

/// Appends the decimal spelling of `n` to `out`.
pub fn push_decimal(out: &mut String, n: u64)
    ensures
        final(out)@ == old(out)@ + decimal(n as nat),
    decreases n,
{
    let digits = "0123456789";
    proof {
        reveal_strlit("0123456789");
    }
    if n >= 10 {
        push_decimal(out, n / 10);
    }
    let d = (n % 10) as usize;
    let ch = slice(digits, d, d + 1);
    assert(ch@ =~= seq![digit_char(n as nat % 10)]);
    out.append(ch);
    proof {
        if n < 10 {
            assert(final(out)@ =~= old(out)@ + decimal(n as nat));
        } else {
            assert(final(out)@ =~= old(out)@ + decimal(n as nat));
        }
    }
}


pub open spec fn has_suffix(s: Seq<char>, p: Seq<char>) -> bool {
    p.len() <= s.len() && s.subrange(s.len() - p.len(), s.len() as int) == p
}

/// Whether `s` ends with `p`.
pub fn ends_with(s: &str, p: &str) -> (r: bool)
    ensures
        r == has_suffix(s@, p@),
{
    let n = char_len(s);
    let m = char_len(p);
    if m > n {
        return false;
    }
    let tail = slice(s, n - m, n);
    same_text(tail, p)
}

/// Whether `p` occurs in `s`.
pub fn contains_text(s: &str, p: &str) -> (r: bool)
    ensures
        r == find_from(s@, p@, 0, false).is_some(),
{
    find_in(s, p, false).is_some()
}

/// `s` with each occurrence of `from`, taken left to right without
/// overlap, replaced by `to`.
pub open spec fn replaced(s: Seq<char>, from: Seq<char>, to: Seq<char>) -> Seq<char>
    decreases s.len(),
{
    if from.len() == 0 {
        if s.len() == 0 {
            to
        } else {
            to + seq![s[0]] + replaced(s.skip(1), from, to)
        }
    } else if s.len() == 0 {
        s
    } else if has_prefix(s, from) {
        to + replaced(s.skip(from.len() as int), from, to)
    } else {
        seq![s[0]] + replaced(s.skip(1), from, to)
    }
}

/// Replaces every occurrence of `from` by `to`, as `str::replace` does
/// (an empty `from` matches before each char and at the end).
pub fn replace_all(s: &str, from: &str, to: &str) -> (r: String)
    ensures
        r@ == replaced(s@, from@, to@),
{
    let n = char_len(s);
    let m = char_len(from);
    let mut out = String::new();
    let mut i: usize = 0;
    assert(s@.skip(0) =~= s@);
    while i < n
        invariant
            n == s@.len(),
            m == from@.len(),
            i <= n,
            out@ + replaced(s@.skip(i as int), from@, to@) == replaced(s@, from@, to@),
        decreases n - i,
    {
        let rest = slice(s, i, n);
        assert(rest@ =~= s@.skip(i as int));
        if m > 0 && starts_with(rest, from) {
            assert(rest@.skip(m as int) =~= s@.skip(i + m));
            assert(out@ + to@ + replaced(s@.skip(i + m), from@, to@) =~= out@ + replaced(
                rest@,
                from@,
                to@,
            ));
            out.append(to);
            i = i + m;
        } else {
            let one = slice(s, i, i + 1);
            assert(one@ =~= seq![rest@[0]]);
            assert(rest@.skip(1) =~= s@.skip(i + 1));
            if m == 0 {
                assert(out@ + to@ + one@ + replaced(s@.skip(i + 1), from@, to@) =~= out@
                    + replaced(rest@, from@, to@));
                out.append(to);
            } else {
                assert(out@ + one@ + replaced(s@.skip(i + 1), from@, to@) =~= out@ + replaced(
                    rest@,
                    from@,
                    to@,
                ));
            }
            out.append(one);
            i = i + 1;
        }
    }
    assert(s@.skip(i as int) =~= Seq::<char>::empty());
    if m == 0 {
        out.append(to);
    } else {
        assert(out@ + replaced(s@.skip(i as int), from@, to@) =~= out@);
    }
    out
}

/// How many times `c` occurs in `s`.
pub open spec fn count_char(s: Seq<char>, c: char) -> nat
    decreases s.len(),
{
    if s.len() == 0 {
        0
    } else {
        count_char(s.drop_last(), c) + if s.last() == c {
            1nat
        } else {
            0nat
        }
    }
}

/// Counts the occurrences of `c` in `s`.
pub fn count_in(s: &str, c: char) -> (r: usize)
    ensures
        r == count_char(s@, c),
{
    let n = char_len(s);
    let mut k: usize = 0;
    let mut i: usize = 0;
    assert(s@.take(0) =~= Seq::<char>::empty());
    while i < n
        invariant
            n == s@.len(),
            i <= n,
            k == count_char(s@.take(i as int), c),
            k <= i,
        decreases n - i,
    {
        assert(s@.take(i + 1).drop_last() =~= s@.take(i as int));
        if char_at(s, i) == c {
            k = k + 1;
        }
        i = i + 1;
    }
    assert(s@.take(n as int) =~= s@);
    k
}

/// What `str::to_lowercase` makes of a string.
pub uninterp spec fn lower_of(s: Seq<char>) -> Seq<char>;

/// Relies on `str::to_lowercase`: the Unicode lower case of the text,
/// which depends on its characters alone.
#[verifier::external_body]
pub fn to_lower(s: &str) -> (r: String)
    ensures
        r@ == lower_of(s@),
{
    s.to_lowercase()
}

/// The lines `str::lines` yields: split at `\n`, a trailing `\r` dropped.
pub uninterp spec fn lines_of(s: Seq<char>) -> Seq<Seq<char>>;

pub open spec fn views(v: Seq<&str>) -> Seq<Seq<char>> {
    v.map_values(|x: &str| x@)
}

/// Relies on `str::lines`: the lines of the text, in order.
#[verifier::external_body]
pub fn lines<'a>(s: &'a str) -> (r: Vec<&'a str>)
    ensures
        views(r@) == lines_of(s@),
{
    s.lines().collect()
}

/// The pieces `str::split_whitespace` yields: the maximal runs of
/// non-whitespace characters.
pub uninterp spec fn words_of(s: Seq<char>) -> Seq<Seq<char>>;

/// Relies on `str::split_whitespace`: the words of the text, in order.
#[verifier::external_body]
pub fn words<'a>(s: &'a str) -> (r: Vec<&'a str>)
    ensures
        views(r@) == words_of(s@),
{
    s.split_whitespace().collect()
}

/// The last component of a `/`-separated path.
pub open spec fn file_name_of(p: Seq<char>) -> Seq<char>
    decreases p.len(),
{
    if p.len() == 0 {
        p
    } else if p.last() == '/' {
        seq![]
    } else {
        file_name_of(p.drop_last()) + seq![p.last()]
    }
}

/// The text after the last `/` of a path.
pub fn file_name(p: &str) -> (r: &str)
    ensures
        r@ == file_name_of(p@),
{
    let n = char_len(p);
    let mut i: usize = n;
    assert(p@.subrange(n as int, n as int) =~= Seq::<char>::empty());
    assert(p@.take(n as int) =~= p@);
    assert(file_name_of(p@) + Seq::<char>::empty() =~= file_name_of(p@));
    while i > 0 && char_at(p, i - 1) != '/'
        invariant
            n == p@.len(),
            i <= n,
            file_name_of(p@) == file_name_of(p@.take(i as int)) + p@.subrange(i as int, n as int),
        decreases i,
    {
        let ghost t = p@.take(i as int);
        assert(t.drop_last() =~= p@.take(i - 1));
        assert(seq![t.last()] + p@.subrange(i as int, n as int) =~= p@.subrange(i - 1, n as int));
        i = i - 1;
    }
    proof {
        if i > 0 {
            assert(p@.take(i as int).last() == '/');
        } else {
            assert(p@.take(0) =~= Seq::<char>::empty());
        }
    }
    slice(p, i, n)
}


/// `name` placed under the directory `dir`, with one `/` between.
pub open spec fn joined(dir: Seq<char>, name: Seq<char>) -> Seq<char> {
    if dir.len() == 0 {
        name
    } else if dir.last() == '/' {
        dir + name
    } else {
        dir + "/"@ + name
    }
}

/// Joins a directory and a file name.
pub fn join_path(dir: &str, name: &str) -> (r: String)
    ensures
        r@ == joined(dir@, name@),
{
    let n = char_len(dir);
    let mut out = String::from_str(dir);
    if n > 0 && char_at(dir, n - 1) != '/' {
        out.append("/");
    }
    out.append(name);
    proof {
        if n > 0 {
            assert(dir@.last() == dir@[n - 1]);
        }
    }
    out
}

} // verus!
