//! Character-level helpers on strings, with their meaning stated over `Seq<char>`.

use vstd::prelude::*;

verus! {

/// The characters of a string, in order.
pub fn chars_of(s: &str) -> (r: Vec<char>)
    ensures
        r@ == s@,
{
    let mut out: Vec<char> = Vec::new();
    for c in it: s.chars()
        invariant
            out@ == it.seq().take(it.index() as int),
    {
        out.push(c);
    }
    out
}

/// Appends one character to a string with `String::push`; the contract claims
/// that the string then holds its former characters followed by `c`.
#[verifier::external_body]
pub(crate) fn push_char(s: &mut String, c: char)
    ensures
        final(s)@ == old(s)@.push(c),
{
    s.push(c);
}

/// A string that holds the given characters.
pub fn string_of(cs: &[char]) -> (r: String)
    ensures
        r@ == cs@,
{
    let mut out = String::new();
    let mut i: usize = 0;
    while i < cs.len()
        invariant
            i <= cs@.len(),
            out@ == cs@.take(i as int),
        decreases cs@.len() - i,
    {
        push_char(&mut out, cs[i]);
        proof {
            assert(cs@.take(i + 1) == cs@.take(i as int).push(cs@[i as int]));
        }
        i = i + 1;
    }
    proof {
        assert(cs@.take(cs@.len() as int) == cs@);
    }
    out
}

/// An owned copy of a string slice.
pub fn owned(s: &str) -> (r: String)
    ensures
        r@ == s@,
{
    s.to_owned()
}

/// Whether two string slices hold the same characters.
pub fn str_eq(a: &str, b: &str) -> (r: bool)
    ensures
        r == (a@ == b@),
{
    let x = a.to_owned();
    let y = b.to_owned();
    x == y
}

/// The ASCII lower-case code of a character; other characters keep their code.
pub open spec fn ascii_lower(c: char) -> u32 {
    if 'A' <= c && c <= 'Z' {
        ((c as u32) + 32) as u32
    } else {
        c as u32
    }
}

/// Equality of two character sequences up to ASCII case.
pub open spec fn eq_ignore_ascii_case_spec(a: Seq<char>, b: Seq<char>) -> bool {
    &&& a.len() == b.len()
    &&& forall|i: int| 0 <= i < a.len() ==> ascii_lower(#[trigger] a[i]) == ascii_lower(b[i])
}

fn ascii_lower_exec(c: char) -> (r: u32)
    ensures
        r == ascii_lower(c),
{
    if 'A' <= c && c <= 'Z' {
        (c as u32) + 32
    } else {
        c as u32
    }
}

/// Whether two strings are equal when ASCII letters are compared without case.
pub fn eq_ignore_ascii_case(a: &str, b: &str) -> (r: bool)
    ensures
        r == eq_ignore_ascii_case_spec(a@, b@),
{
    let x = chars_of(a);
    let y = chars_of(b);
    if x.len() != y.len() {
        return false;
    }
    let mut i: usize = 0;
    while i < x.len()
        invariant
            x@ == a@,
            y@ == b@,
            x@.len() == y@.len(),
            i <= x@.len(),
            forall|j: int| 0 <= j < i ==> ascii_lower(#[trigger] x@[j]) == ascii_lower(y@[j]),
        decreases x@.len() - i,
    {
        if ascii_lower_exec(x[i]) != ascii_lower_exec(y[i]) {
            return false;
        }
        i = i + 1;
    }
    true
}

} // verus!

verus! {

/// `s` begins with `p`.
pub open spec fn starts_with_spec(s: Seq<char>, p: Seq<char>) -> bool {
    p.len() <= s.len() && s.subrange(0, p.len() as int) == p
}

/// `s` ends with `p`.
pub open spec fn ends_with_spec(s: Seq<char>, p: Seq<char>) -> bool {
    p.len() <= s.len() && s.subrange(s.len() - p.len(), s.len() as int) == p
}

/// `s` holds `p` as a contiguous part.
pub open spec fn contains_spec(s: Seq<char>, p: Seq<char>) -> bool {
    exists|i: int| 0 <= i <= s.len() - p.len() && #[trigger] s.subrange(i, i + p.len()) == p
}

/// Whether the characters `cs[at..]` begin with `p`.
pub(crate) fn matches_at(cs: &Vec<char>, at: usize, p: &Vec<char>) -> (b: bool)
    requires
        at <= cs@.len(),
    ensures
        b == (at + p@.len() <= cs@.len() && cs@.subrange(at as int, at + p@.len()) == p@),
{
    if p.len() > cs.len() - at {
        return false;
    }
    let mut j: usize = 0;
    while j < p.len()
        invariant
            at + p@.len() <= cs@.len(),
            j <= p@.len(),
            forall|k: int| 0 <= k < j ==> cs@[at + k] == p@[k],
        decreases p@.len() - j,
    {
        assert(at + j < cs.len());
        if cs[at + j] != p[j] {
            assert(cs@.subrange(at as int, at + p@.len())[j as int] != p@[j as int]);
            return false;
        }
        j = j + 1;
    }
    assert(cs@.subrange(at as int, at + p@.len()) =~= p@);
    true
}

/// Whether `s` begins with `p`.
pub fn starts_with(s: &str, p: &str) -> (b: bool)
    ensures
        b == starts_with_spec(s@, p@),
{
    let cs = chars_of(s);
    let ps = chars_of(p);
    matches_at(&cs, 0, &ps)
}

/// Whether `s` ends with `p`.
pub fn ends_with(s: &str, p: &str) -> (b: bool)
    ensures
        b == ends_with_spec(s@, p@),
{
    let cs = chars_of(s);
    let ps = chars_of(p);
    if ps.len() > cs.len() {
        return false;
    }
    matches_at(&cs, cs.len() - ps.len(), &ps)
}

/// The first position at which `p` occurs in `s` at or after `from`.
pub open spec fn find_from(s: Seq<char>, p: Seq<char>, from: int) -> Option<int>
    decreases s.len() + 1 - from,
{
    if from < 0 || from + p.len() > s.len() {
        None
    } else if s.subrange(from, from + p.len()) == p {
        Some(from)
    } else {
        find_from(s, p, from + 1)
    }
}

/// The first position at which `p` occurs in `s`.
pub open spec fn find_spec(s: Seq<char>, p: Seq<char>) -> Option<int> {
    find_from(s, p, 0)
}

pub proof fn lemma_find_from(s: Seq<char>, p: Seq<char>, from: int)
    requires
        0 <= from,
    ensures
        match find_from(s, p, from) {
            Some(i) => from <= i && i + p.len() <= s.len() && s.subrange(i, i + p.len()) == p
                && forall|j: int| from <= j < i ==> #[trigger] s.subrange(j, j + p.len()) != p,
            None => forall|j: int| from <= j && j + p.len() <= s.len() ==> #[trigger] s.subrange(j, j + p.len()) != p,
        },
    decreases s.len() + 1 - from,
{
    if from + p.len() <= s.len() && s.subrange(from, from + p.len()) != p {
        lemma_find_from(s, p, from + 1);
    }
}

/// `contains` agrees with `find`.
pub proof fn lemma_find_contains(s: Seq<char>, p: Seq<char>)
    ensures
        contains_spec(s, p) == (find_spec(s, p) is Some),
{
    lemma_find_from(s, p, 0);
    if find_spec(s, p) is Some {
        let i = find_spec(s, p)->0;
        assert(s.subrange(i, i + p.len()) == p);
    }
}

/// Position search over character vectors.
pub(crate) fn find_chars(cs: &Vec<char>, ps: &Vec<char>, from: usize) -> (r: Option<usize>)
    requires
        from <= cs@.len(),
    ensures
        match r {
            Some(i) => find_from(cs@, ps@, from as int) == Some(i as int),
            None => find_from(cs@, ps@, from as int) is None,
        },
    decreases cs@.len() + 1 - from,
{
    if ps.len() > cs.len() - from {
        return None;
    }
    if matches_at(cs, from, ps) {
        return Some(from);
    }
    if ps.len() == 0 {
        assert(cs@.subrange(from as int, from as int) =~= ps@);
    }
    find_chars(cs, ps, from + 1)
}

/// The first character position at which `p` occurs in `s`.
pub fn find(s: &str, p: &str) -> (r: Option<usize>)
    ensures
        match r {
            Some(i) => find_spec(s@, p@) == Some(i as int),
            None => find_spec(s@, p@) is None,
        },
{
    let cs = chars_of(s);
    let ps = chars_of(p);
    find_chars(&cs, &ps, 0)
}

/// Whether `p` occurs in `s`.
pub fn contains(s: &str, p: &str) -> (b: bool)
    ensures
        b == contains_spec(s@, p@),
{
    proof { lemma_find_contains(s@, p@); }
    find(s, p).is_some()
}

/// The characters of `s` without any `c`.
pub open spec fn without_char(s: Seq<char>, c: char) -> Seq<char> {
    s.filter(|x: char| x != c)
}

/// The string without any occurrence of `c`.
pub fn remove_char(s: &str, c: char) -> (r: String)
    ensures
        r@ == without_char(s@, c),
{
    let cs = chars_of(s);
    let mut out = String::new();
    let mut i: usize = 0;
    while i < cs.len()
        invariant
            cs@ == s@,
            i <= cs@.len(),
            out@ == without_char(cs@.take(i as int), c),
        decreases cs@.len() - i,
    {
        proof {
            reveal_with_fuel(Seq::filter, 1);
            assert(cs@.take(i + 1).drop_last() == cs@.take(i as int));
        }
        if cs[i] != c {
            push_char(&mut out, cs[i]);
        }
        i = i + 1;
    }
    assert(cs@.take(cs@.len() as int) == cs@);
    out
}

/// A decimal digit.
pub open spec fn is_digit(c: char) -> bool {
    '0' <= c && c <= '9'
}

/// The value of a sequence of decimal digits.
pub open spec fn digits_value(d: Seq<char>) -> int
    decreases d.len(),
{
    if d.len() == 0 {
        0
    } else {
        digits_value(d.drop_last()) * 10 + ((d.last() as int) - ('0' as int))
    }
}

/// The text without its leading `+` or `-` sign, where it has one.
pub open spec fn unsigned_part(s: Seq<char>) -> Seq<char> {
    if s.len() > 0 && (s[0] == '-' || s[0] == '+') { s.drop_first() } else { s }
}

/// What `i64::from_str` gives: an optional `+` or `-` sign, then one or more
/// decimal digits and nothing else, with a value in range.
pub open spec fn i64_from_str(s: Seq<char>) -> Option<i64> {
    let neg = s.len() > 0 && s[0] == '-';
    let digits = unsigned_part(s);
    let v = if neg { -digits_value(digits) } else { digits_value(digits) };
    if digits.len() > 0 && (forall|i: int| 0 <= i < digits.len() ==> is_digit(#[trigger] digits[i]))
        && i64::MIN <= v <= i64::MAX {
        Some(v as i64)
    } else {
        None
    }
}

/// The value of digits is never negative.
proof fn lemma_digits_value_nonneg(d: Seq<char>)
    requires
        forall|i: int| 0 <= i < d.len() ==> is_digit(#[trigger] d[i]),
    ensures
        digits_value(d) >= 0,
    decreases d.len(),
{
    if d.len() > 0 {
        lemma_digits_value_nonneg(d.drop_last());
    }
}

/// The value of the first `k` digits is at most that of all of them.
proof fn lemma_digits_value_prefix(d: Seq<char>, k: int)
    requires
        0 <= k <= d.len(),
        forall|i: int| 0 <= i < d.len() ==> is_digit(#[trigger] d[i]),
    ensures
        digits_value(d.take(k)) <= digits_value(d),
    decreases d.len(),
{
    if k < d.len() {
        assert(d.drop_last().take(k) =~= d.take(k));
        lemma_digits_value_prefix(d.drop_last(), k);
        lemma_digits_value_nonneg(d.drop_last());
    } else {
        assert(d.take(k) =~= d);
    }
}

/// Parses a decimal integer as `str::parse::<i64>` does: an optional sign,
/// then one or more ASCII digits and nothing else, with a value that fits;
/// `None` otherwise.
pub(crate) fn parse_i64(s: &str) -> (r: Option<i64>)
    ensures
        r == i64_from_str(s@),
{
    let cs = chars_of(s);
    let n = cs.len();
    if n == 0 {
        return None;
    }
    let neg = cs[0] == '-';
    let start: usize = if cs[0] == '-' || cs[0] == '+' { 1 } else { 0 };
    let ghost digits = cs@.subrange(start as int, n as int);
    assert(start == 1 ==> digits =~= s@.drop_first());
    assert(start == 0 ==> digits =~= s@);
    if start == n {
        return None;
    }
    let mut value: u64 = 0;
    let mut i: usize = start;
    assert(cs@.subrange(start as int, start as int).len() == 0);
    while i < n
        invariant
            n == cs@.len(),
            cs@ == s@,
            start <= i <= n,
            digits == cs@.subrange(start as int, n as int),
            s@.len() > 0,
            start == 1 <==> (s@[0] == '-' || s@[0] == '+'),
            start == 1 || start == 0,
            digits == unsigned_part(s@),
            neg == (s@[0] == '-'),
            forall|k: int| start <= k < i ==> is_digit(#[trigger] cs@[k]),
            value == digits_value(cs@.subrange(start as int, i as int)),
            value <= 9223372036854775808u64,
        decreases n - i,
    {
        let c = cs[i];
        if !('0' <= c && c <= '9') {
            assert(digits[i - start] == c);
            assert(!is_digit(digits[i - start]));
            return None;
        }
        let ghost next = cs@.subrange(start as int, i + 1);
        assert(next.drop_last() =~= cs@.subrange(start as int, i as int));
        assert(next.last() == c);
        let d: u64 = (c as u32 - '0' as u32) as u64;
        let ghost whole = digits_value(next);
        assert(whole == value * 10 + d);
        if value > 922337203685477580u64 || value * 10 + d > 9223372036854775808u64 {
            proof {
                if forall|k: int| 0 <= k < digits.len() ==> is_digit(#[trigger] digits[k]) {
                    assert(digits.take(i + 1 - start) =~= next);
                    lemma_digits_value_prefix(digits, i + 1 - start);
                    assert(digits_value(digits) > 9223372036854775808);
                    assert(digits.len() > 0);
                }
            }
            return None;
        }
        value = value * 10 + d;
        i = i + 1;
    }
    assert(cs@.subrange(start as int, n as int) =~= digits);
    assert(forall|k: int| 0 <= k < digits.len() ==> is_digit(#[trigger] digits[k])) by {
        assert forall|k: int| 0 <= k < digits.len() implies is_digit(#[trigger] digits[k]) by {
            assert(digits[k] == cs@[start + k]);
        }
    }
    if neg {
        if value == 9223372036854775808u64 {
            Some(i64::MIN)
        } else {
            Some(-(value as i64))
        }
    } else if value <= 9223372036854775807u64 {
        Some(value as i64)
    } else {
        None
    }
}

/// The number of leading characters of `s` that are `c`.
pub open spec fn leading_count(s: Seq<char>, c: char) -> nat
    decreases s.len(),
{
    if s.len() > 0 && s[0] == c {
        1 + leading_count(s.drop_first(), c)
    } else {
        0
    }
}

/// The number of characters of `s` that are `c`.
pub open spec fn char_count(s: Seq<char>, c: char) -> nat {
    s.filter(|x: char| x == c).len()
}

pub proof fn lemma_leading_count(s: Seq<char>, c: char, i: int)
    requires
        0 <= i <= s.len(),
        forall|j: int| 0 <= j < i ==> s[j] == c,
    ensures
        leading_count(s, c) == i + leading_count(s.skip(i), c),
    decreases i,
{
    if i > 0 {
        assert(s.skip(1).skip(i - 1) == s.skip(i));
        assert(s.drop_first() == s.skip(1));
        lemma_leading_count(s.drop_first(), c, i - 1);
    } else {
        assert(s.skip(0) == s);
    }
}

/// Counts the leading `c` characters of `s` and gives the rest.
pub fn split_leading(s: &str, c: char) -> (r: (u32, String))
    ensures
        r.0 == leading_count(s@, c) as u32,
        r.1@ == s@.skip(leading_count(s@, c) as int),
{
    let cs = chars_of(s);
    let mut i: usize = 0;
    while i < cs.len() && cs[i] == c
        invariant
            cs@ == s@,
            i <= cs@.len(),
            forall|j: int| 0 <= j < i ==> cs@[j] == c,
        decreases cs@.len() - i,
    {
        i = i + 1;
    }
    proof {
        lemma_leading_count(s@, c, i as int);
        if i < cs@.len() {
            assert(s@.skip(i as int)[0] == cs@[i as int]);
        }
        assert(leading_count(s@.skip(i as int), c) == 0);
    }
    let mut rest: Vec<char> = Vec::new();
    let mut k: usize = i;
    while k < cs.len()
        invariant
            cs@ == s@,
            i <= k <= cs@.len(),
            rest@ == cs@.subrange(i as int, k as int),
        decreases cs@.len() - k,
    {
        rest.push(cs[k]);
        assert(cs@.subrange(i as int, k + 1) == cs@.subrange(i as int, k as int).push(cs@[k as int]));
        k = k + 1;
    }
    let n: u32 = i as u32;
    (n, string_of(rest.as_slice()))
}

/// Counts the characters of `s` that are `c`.
pub fn count_char(s: &str, c: char) -> (r: u32)
    ensures
        r == char_count(s@, c) as u32,
{
    let cs = chars_of(s);
    let mut n: usize = 0;
    let mut i: usize = 0;
    while i < cs.len()
        invariant
            cs@ == s@,
            i <= cs@.len(),
            n as int == char_count(cs@.take(i as int), c),
            n <= i,
        decreases cs@.len() - i,
    {
        proof {
            reveal_with_fuel(Seq::filter, 1);
            assert(cs@.take(i + 1).drop_last() == cs@.take(i as int));
        }
        if cs[i] == c {
            n = n + 1;
        }
        i = i + 1;
    }
    assert(cs@.take(cs@.len() as int) == cs@);
    n as u32
}


/// A character with the Unicode `White_Space` property (what `char::is_whitespace`
/// tests, and what `str::trim` removes).
pub open spec fn is_ws(c: char) -> bool {
    let u = c as u32;
    (9 <= u && u <= 13) || u == 32 || u == 0x85 || u == 0xA0 || u == 0x1680
        || (0x2000 <= u && u <= 0x200A) || u == 0x2028 || u == 0x2029 || u == 0x202F
        || u == 0x205F || u == 0x3000
}

/// `s` without its leading and trailing white space.
pub open spec fn trim_spec(s: Seq<char>) -> Seq<char>
    decreases s.len(),
{
    if s.len() > 0 && is_ws(s[0]) {
        trim_spec(s.drop_first())
    } else if s.len() > 0 && is_ws(s.last()) {
        trim_spec(s.drop_last())
    } else {
        s
    }
}

pub fn is_ws_exec(c: char) -> (b: bool)
    ensures
        b == is_ws(c),
{
    let u = c as u32;
    (9 <= u && u <= 13) || u == 32 || u == 0x85 || u == 0xA0 || u == 0x1680
        || (0x2000 <= u && u <= 0x200A) || u == 0x2028 || u == 0x2029 || u == 0x202F
        || u == 0x205F || u == 0x3000
}

/// The bounds of `cs[lo..hi]` without its leading and trailing white space.
pub fn trim_bounds(cs: &Vec<char>, lo: usize, hi: usize) -> (r: (usize, usize))
    requires
        lo <= hi <= cs@.len(),
    ensures
        lo <= r.0 <= r.1 <= hi,
        cs@.subrange(r.0 as int, r.1 as int) == trim_spec(cs@.subrange(lo as int, hi as int)),
{
    let ghost whole = cs@.subrange(lo as int, hi as int);
    let mut i = lo;
    while i < hi && is_ws_exec(cs[i])
        invariant
            lo <= i <= hi <= cs@.len(),
            trim_spec(cs@.subrange(i as int, hi as int)) == trim_spec(whole),
        decreases hi - i,
    {
        assert(cs@.subrange(i as int, hi as int).drop_first() =~= cs@.subrange(i + 1, hi as int));
        i = i + 1;
    }
    let mut j = hi;
    while j > i && is_ws_exec(cs[j - 1])
        invariant
            lo <= i <= j <= hi <= cs@.len(),
            i < j ==> !is_ws(cs@[i as int]),
            trim_spec(cs@.subrange(i as int, j as int)) == trim_spec(whole),
        decreases j - i,
    {
        assert(cs@.subrange(i as int, j as int).drop_last() =~= cs@.subrange(i as int, j - 1));
        assert(cs@.subrange(i as int, j as int)[0] == cs@[i as int]);
        j = j - 1;
    }
    if i < j {
        assert(cs@.subrange(i as int, j as int)[0] == cs@[i as int]);
        assert(cs@.subrange(i as int, j as int).last() == cs@[j - 1]);
    }
    (i, j)
}

/// The characters `cs[lo..hi]` as a vector.
pub fn sub_chars(cs: &Vec<char>, lo: usize, hi: usize) -> (r: Vec<char>)
    requires
        lo <= hi <= cs@.len(),
    ensures
        r@ == cs@.subrange(lo as int, hi as int),
{
    let mut out: Vec<char> = Vec::new();
    let mut k = lo;
    while k < hi
        invariant
            lo <= k <= hi <= cs@.len(),
            out@ == cs@.subrange(lo as int, k as int),
        decreases hi - k,
    {
        out.push(cs[k]);
        assert(cs@.subrange(lo as int, k + 1) =~= cs@.subrange(lo as int, k as int).push(cs@[k as int]));
        k = k + 1;
    }
    out
}

/// `s` without its leading and trailing white space (`str::trim`).
pub fn trim(s: &str) -> (r: String)
    ensures
        r@ == trim_spec(s@),
{
    let cs = chars_of(s);
    let (a, b) = trim_bounds(&cs, 0, cs.len());
    assert(cs@.subrange(0, cs@.len() as int) =~= cs@);
    let v = sub_chars(&cs, a, b);
    string_of(v.as_slice())
}

/// The first position of `c` in `s`.
pub open spec fn char_index(s: Seq<char>, c: char) -> Option<int>
    decreases s.len(),
{
    if s.len() == 0 {
        None
    } else if s[0] == c {
        Some(0)
    } else {
        match char_index(s.drop_first(), c) {
            Some(i) => Some(i + 1),
            None => None,
        }
    }
}

pub proof fn lemma_char_index(s: Seq<char>, c: char)
    ensures
        match char_index(s, c) {
            Some(i) => 0 <= i < s.len() && s[i] == c && forall|j: int| 0 <= j < i ==> s[j] != c,
            None => forall|j: int| 0 <= j < s.len() ==> s[j] != c,
        },
    decreases s.len(),
{
    if s.len() > 0 && s[0] != c {
        lemma_char_index(s.drop_first(), c);
        assert forall|j: int| 1 <= j < s.len() implies s[j] == s.drop_first()[j - 1] by {}
    }
}

/// Whether the sequence `(cs[k]) k` has the position `i` as the first `c` in `s`.
pub proof fn lemma_char_index_is(s: Seq<char>, c: char, i: Option<int>)
    requires
        match i {
            Some(i) => 0 <= i < s.len() && s[i] == c && forall|j: int| 0 <= j < i ==> s[j] != c,
            None => forall|j: int| 0 <= j < s.len() ==> s[j] != c,
        },
    ensures
        char_index(s, c) == i,
{
    lemma_char_index(s, c);
    match (char_index(s, c), i) {
        (Some(a), Some(b)) => {
            if a < b { assert(s[a] == c); }
            if b < a { assert(s[b] == c); }
        },
        (Some(a), None) => { assert(s[a] == c); },
        (None, Some(b)) => { assert(s[b] == c); },
        (None, None) => {},
    }
}

/// The first position of `c` in `cs[from..hi]`, counted from the start of `cs`.
pub fn char_index_in(cs: &Vec<char>, c: char, from: usize, hi: usize) -> (r: Option<usize>)
    requires
        from <= hi <= cs@.len(),
    ensures
        match r {
            Some(i) => from <= i < hi && char_index(cs@.subrange(from as int, hi as int), c) == Some(i - from),
            None => char_index(cs@.subrange(from as int, hi as int), c) is None,
        },
{
    let ghost w = cs@.subrange(from as int, hi as int);
    let mut i = from;
    while i < hi
        invariant
            from <= i <= hi <= cs@.len(),
            w == cs@.subrange(from as int, hi as int),
            forall|j: int| 0 <= j < i - from ==> w[j] != c,
        decreases hi - i,
    {
        if cs[i] == c {
            proof { lemma_char_index_is(w, c, Some(i - from)); }
            return Some(i);
        }
        i = i + 1;
    }
    proof { lemma_char_index_is(w, c, None); }
    None
}

/// The parts of `s` between the separators `sep` (`str::split` with a char).
pub open spec fn split_spec(s: Seq<char>, sep: char) -> Seq<Seq<char>>
    decreases s.len(),
{
    match char_index(s, sep) {
        Some(i) => if 0 <= i < s.len() {
            seq![s.take(i)] + split_spec(s.skip(i + 1), sep)
        } else {
            seq![s]
        },
        None => seq![s],
    }
}

/// `l` without one trailing carriage return.
pub open spec fn strip_cr(l: Seq<char>) -> Seq<char> {
    if l.len() > 0 && l.last() == '\r' { l.drop_last() } else { l }
}

/// The lines of `s` (`str::lines`): split at `\n`, each line without the
/// `\r` of a `\r\n` ending, and no empty line after a final line ending.
pub open spec fn lines_spec(s: Seq<char>) -> Seq<Seq<char>>
    decreases s.len(),
{
    if s.len() == 0 {
        Seq::empty()
    } else {
        match char_index(s, '\n') {
            Some(i) => if 0 <= i < s.len() {
                seq![strip_cr(s.take(i))] + lines_spec(s.skip(i + 1))
            } else {
                seq![s]
            },
            None => seq![s],
        }
    }
}

/// The views of a vector of character vectors.
pub open spec fn views(v: Seq<Vec<char>>) -> Seq<Seq<char>> {
    v.map_values(|x: Vec<char>| x@)
}

/// The parts of `cs[lo..hi]` between the separators `sep`.
pub fn split_chars(cs: &Vec<char>, lo: usize, hi: usize, sep: char) -> (r: Vec<Vec<char>>)
    requires
        lo <= hi <= cs@.len(),
    ensures
        views(r@) == split_spec(cs@.subrange(lo as int, hi as int), sep),
{
    let mut out: Vec<Vec<char>> = Vec::new();
    let mut pos = lo;
    let ghost whole = cs@.subrange(lo as int, hi as int);
    loop
        invariant
            lo <= pos <= hi <= cs@.len(),
            whole == cs@.subrange(lo as int, hi as int),
            views(out@) + split_spec(cs@.subrange(pos as int, hi as int), sep) == split_spec(whole, sep),
        decreases hi - pos,
    {
        let ghost rest = cs@.subrange(pos as int, hi as int);
        match char_index_in(cs, sep, pos, hi) {
            Some(i) => {
                let part = sub_chars(cs, pos, i);
                proof {
                    assert(rest.take(i - pos) =~= part@);
                    assert(rest.skip(i - pos + 1) =~= cs@.subrange(i + 1, hi as int));
                    assert(views(out@.push(part)) =~= views(out@).push(part@));
                    assert(views(out@).push(part@) + split_spec(cs@.subrange(i + 1, hi as int), sep)
                        =~= views(out@) + (seq![part@] + split_spec(cs@.subrange(i + 1, hi as int), sep)));
                }
                out.push(part);
                pos = i + 1;
            },
            None => {
                let part = sub_chars(cs, pos, hi);
                proof {
                    assert(views(out@.push(part)) =~= views(out@).push(part@));
                    assert(views(out@) + seq![part@] =~= views(out@).push(part@));
                }
                out.push(part);
                return out;
            },
        }
    }
}

/// The lines of `s` (`str::lines`).
pub fn lines_of(s: &str) -> (r: Vec<Vec<char>>)
    ensures
        views(r@) == lines_spec(s@),
{
    let cs = chars_of(s);
    let hi = cs.len();
    let mut out: Vec<Vec<char>> = Vec::new();
    let mut pos: usize = 0;
    assert(cs@.subrange(0, hi as int) =~= cs@);
    while pos < hi
        invariant
            pos <= hi == cs@.len(),
            cs@ == s@,
            views(out@) + lines_spec(cs@.subrange(pos as int, hi as int)) == lines_spec(s@),
        decreases hi - pos,
    {
        let ghost rest = cs@.subrange(pos as int, hi as int);
        match char_index_in(&cs, '\n', pos, hi) {
            Some(i) => {
                let mut end = i;
                if end > pos && cs[end - 1] == '\r' {
                    end = end - 1;
                }
                let part = sub_chars(&cs, pos, end);
                proof {
                    assert(strip_cr(rest.take(i - pos)) =~= part@);
                    assert(rest.skip(i - pos + 1) =~= cs@.subrange(i + 1, hi as int));
                    assert(views(out@.push(part)) =~= views(out@).push(part@));
                    assert(views(out@).push(part@) + lines_spec(cs@.subrange(i + 1, hi as int))
                        =~= views(out@) + (seq![part@] + lines_spec(cs@.subrange(i + 1, hi as int))));
                }
                out.push(part);
                pos = i + 1;
            },
            None => {
                let part = sub_chars(&cs, pos, hi);
                proof {
                    assert(views(out@.push(part)) =~= views(out@).push(part@));
                    assert(views(out@) + seq![part@] =~= views(out@).push(part@));
                    assert(cs@.subrange(hi as int, hi as int) =~= Seq::<char>::empty());
                    assert(views(out@.push(part)) + lines_spec(cs@.subrange(hi as int, hi as int)) =~= views(out@.push(part)));
                }
                out.push(part);
                pos = hi;
            },
        }
    }
    assert(cs@.subrange(hi as int, hi as int) =~= Seq::<char>::empty());
    assert(views(out@) + Seq::<Seq<char>>::empty() =~= views(out@));
    out
}


/// `s` without the leading and trailing characters that are `c`
/// (`str::trim_matches` with a char).
pub open spec fn trim_char_spec(s: Seq<char>, c: char) -> Seq<char>
    decreases s.len(),
{
    if s.len() > 0 && s[0] == c {
        trim_char_spec(s.drop_first(), c)
    } else if s.len() > 0 && s.last() == c {
        trim_char_spec(s.drop_last(), c)
    } else {
        s
    }
}

/// `s` without its leading and trailing `c` characters.
pub fn trim_char(s: &str, c: char) -> (r: String)
    ensures
        r@ == trim_char_spec(s@, c),
{
    let cs = chars_of(s);
    let hi = cs.len();
    let mut i: usize = 0;
    assert(cs@.subrange(0, hi as int) =~= cs@);
    while i < hi && cs[i] == c
        invariant
            hi == cs@.len(),
            cs@ == s@,
            i <= hi,
            trim_char_spec(cs@.subrange(i as int, hi as int), c) == trim_char_spec(s@, c),
        decreases hi - i,
    {
        assert(cs@.subrange(i as int, hi as int).drop_first() =~= cs@.subrange(i + 1, hi as int));
        i = i + 1;
    }
    let mut j = hi;
    while j > i && cs[j - 1] == c
        invariant
            hi == cs@.len(),
            i <= j <= hi,
            i < j ==> cs@[i as int] != c,
            trim_char_spec(cs@.subrange(i as int, j as int), c) == trim_char_spec(s@, c),
        decreases j - i,
    {
        assert(cs@.subrange(i as int, j as int).drop_last() =~= cs@.subrange(i as int, j - 1));
        assert(cs@.subrange(i as int, j as int)[0] == cs@[i as int]);
        j = j - 1;
    }
    if i < j {
        assert(cs@.subrange(i as int, j as int)[0] == cs@[i as int]);
        assert(cs@.subrange(i as int, j as int).last() == cs@[j - 1]);
    }
    let v = sub_chars(&cs, i, j);
    string_of(v.as_slice())
}

} // verus!
