//! Character-level text helpers: every function here works on `Vec<char>`
//! and states its result over `Seq<char>`.
use vstd::prelude::*;

verus! {

/// `p` is a prefix of `s`.
pub open spec fn spec_starts_with(s: Seq<char>, p: Seq<char>) -> bool {
    p.len() <= s.len() && s.subrange(0, p.len() as int) == p
}

/// `p` is a suffix of `s`.
pub open spec fn spec_ends_with(s: Seq<char>, p: Seq<char>) -> bool {
    p.len() <= s.len() && s.subrange(s.len() - p.len(), s.len() as int) == p
}

/// `p` occurs in `s` starting at index `i`.
pub open spec fn occurs_at(s: Seq<char>, p: Seq<char>, i: int) -> bool {
    0 <= i && i + p.len() <= s.len() && s.subrange(i, i + p.len()) == p
}

/// `p` occurs somewhere in `s`.
pub open spec fn spec_contains(s: Seq<char>, p: Seq<char>) -> bool {
    exists|i: int| occurs_at(s, p, i)
}

/// Index of the first occurrence of `c` in `s`.
pub open spec fn first_index_of(s: Seq<char>, c: char) -> Option<int> {
    if exists|i: int| 0 <= i < s.len() && s[i] == c {
        Some(choose|i: int| 0 <= i < s.len() && s[i] == c && forall|j: int| 0 <= j < i ==> s[j] != c)
    } else {
        None
    }
}

/// `c` occurs in `s` and `i` is the index of its first occurrence.
pub open spec fn is_first_index(s: Seq<char>, c: char, i: int) -> bool {
    0 <= i < s.len() && s[i] == c && forall|j: int| 0 <= j < i ==> s[j] != c
}

/// `c` occurs in `s` and `i` is the index of its last occurrence.
pub open spec fn is_last_index(s: Seq<char>, c: char, i: int) -> bool {
    0 <= i < s.len() && s[i] == c && forall|j: int| i < j < s.len() ==> s[j] != c
}

/// Builds a `String` holding exactly the characters of `v`.
/// Trusted: calls std's `FromIterator<char>` for `String` (`collect`),
/// which the std documentation states yields the characters in order.
#[verifier::external_body]
pub(crate) fn string_from_chars(v: &Vec<char>) -> (s: String)
    ensures
        s@ == v@,
{
    v.iter().collect()
}

/// The characters of `s`, in order.
pub fn to_chars(s: &str) -> (r: Vec<char>)
    ensures
        r@ == s@,
{
    let mut r: Vec<char> = Vec::new();
    for c in it: s.chars()
        invariant
            r@ == it.seq().take(it.index() as int),
    {
        r.push(c);
    }
    r
}

/// A copy of `s`.
pub fn copy_string(s: &String) -> (r: String)
    ensures
        r@ == s@,
{
    s.clone()
}

/// A copy of a vector of strings.
pub fn copy_strings(v: &Vec<String>) -> (r: Vec<String>)
    ensures
        r@ == v@,
{
    let r = v.clone();
    assert(r@ =~= v@);
    r
}

/// The characters of `s` from `from` up to `to` (exclusive).
pub fn slice_chars(s: &Vec<char>, from: usize, to: usize) -> (r: Vec<char>)
    requires
        from <= to <= s.len(),
    ensures
        r@ == s@.subrange(from as int, to as int),
{
    let mut r: Vec<char> = Vec::new();
    let mut i = from;
    while i < to
        invariant
            from <= i <= to <= s.len(),
            r@ == s@.subrange(from as int, i as int),
        decreases to - i,
    {
        r.push(s[i]);
        i += 1;
        assert(r@ =~= s@.subrange(from as int, i as int));
    }
    r
}

/// `a` followed by `b`.
pub fn concat_chars(a: &Vec<char>, b: &Vec<char>) -> (r: Vec<char>)
    ensures
        r@ == a@ + b@,
{
    let mut r: Vec<char> = Vec::new();
    let mut i: usize = 0;
    while i < a.len()
        invariant
            i <= a.len(),
            r@ == a@.subrange(0, i as int),
        decreases a.len() - i,
    {
        r.push(a[i]);
        i += 1;
        assert(r@ =~= a@.subrange(0, i as int));
    }
    let mut j: usize = 0;
    while j < b.len()
        invariant
            j <= b.len(),
            r@ == a@ + b@.subrange(0, j as int),
        decreases b.len() - j,
    {
        r.push(b[j]);
        j += 1;
        assert(r@ =~= a@ + b@.subrange(0, j as int));
    }
    assert(b@.subrange(0, b.len() as int) =~= b@);
    r
}

/// Appends all of `b` to `a`.
pub fn append_chars(a: &mut Vec<char>, b: &Vec<char>)
    ensures
        final(a)@ == old(a)@ + b@,
{
    let mut j: usize = 0;
    while j < b.len()
        invariant
            j <= b.len(),
            a@ == old(a)@ + b@.subrange(0, j as int),
        decreases b.len() - j,
    {
        a.push(b[j]);
        j += 1;
        assert(a@ =~= old(a)@ + b@.subrange(0, j as int));
    }
    assert(b@.subrange(0, b.len() as int) =~= b@);
}

/// Equality of two character vectors.
pub fn chars_eq(a: &Vec<char>, b: &Vec<char>) -> (r: bool)
    ensures
        r == (a@ == b@),
{
    if a.len() != b.len() {
        return false;
    }
    let mut i: usize = 0;
    while i < a.len()
        invariant
            i <= a.len() == b.len(),
            forall|j: int| 0 <= j < i ==> a@[j] == b@[j],
        decreases a.len() - i,
    {
        if a[i] != b[i] {
            return false;
        }
        i += 1;
    }
    assert(a@ =~= b@);
    true
}

/// `p` is a prefix of `s`.
pub fn starts_with(s: &Vec<char>, p: &Vec<char>) -> (r: bool)
    ensures
        r == spec_starts_with(s@, p@),
{
    if p.len() > s.len() {
        return false;
    }
    let mut i: usize = 0;
    while i < p.len()
        invariant
            i <= p.len() <= s.len(),
            forall|j: int| 0 <= j < i ==> s@[j] == p@[j],
        decreases p.len() - i,
    {
        if s[i] != p[i] {
            assert(s@.subrange(0, p.len() as int)[i as int] != p@[i as int]);
            return false;
        }
        i += 1;
    }
    assert(s@.subrange(0, p.len() as int) =~= p@);
    true
}

/// `p` is a suffix of `s`.
pub fn ends_with(s: &Vec<char>, p: &Vec<char>) -> (r: bool)
    ensures
        r == spec_ends_with(s@, p@),
{
    if p.len() > s.len() {
        return false;
    }
    let off = s.len() - p.len();
    let mut i: usize = 0;
    while i < p.len()
        invariant
            i <= p.len() <= s.len(),
            off == s.len() - p.len(),
            forall|j: int| 0 <= j < i ==> s@[off + j] == p@[j],
        decreases p.len() - i,
    {
        if s[off + i] != p[i] {
            assert(s@.subrange(off as int, s.len() as int)[i as int] != p@[i as int]);
            return false;
        }
        i += 1;
    }
    assert(s@.subrange(off as int, s.len() as int) =~= p@);
    true
}

/// `p` occurs at index `i` of `s`.
pub fn matches_at(s: &Vec<char>, p: &Vec<char>, i: usize) -> (r: bool)
    ensures
        r == occurs_at(s@, p@, i as int),
{
    if i > s.len() || p.len() > s.len() - i {
        return false;
    }
    let mut k: usize = 0;
    while k < p.len()
        invariant
            k <= p.len(),
            i + p.len() <= s.len(),
            forall|j: int| 0 <= j < k ==> s@[i + j] == p@[j],
        decreases p.len() - k,
    {
        if s[i + k] != p[k] {
            assert(s@.subrange(i as int, i + p.len())[k as int] != p@[k as int]);
            return false;
        }
        k += 1;
    }
    assert(s@.subrange(i as int, i + p.len()) =~= p@);
    true
}

/// `p` occurs somewhere in `s`.
pub fn contains(s: &Vec<char>, p: &Vec<char>) -> (r: bool)
    ensures
        r == spec_contains(s@, p@),
{
    if p.len() == 0 {
        assert(s@.subrange(0, 0) =~= p@);
        assert(occurs_at(s@, p@, 0));
        return true;
    }
    let mut i: usize = 0;
    while i < s.len() && p.len() <= s.len() - i
        invariant
            p.len() >= 1,
            i <= s.len(),
            forall|j: int| 0 <= j < i ==> !occurs_at(s@, p@, j),
        decreases s.len() - i,
    {
        if matches_at(s, p, i) {
            return true;
        }
        i += 1;
    }
    false
}

/// Index of the first occurrence of `c` in `s`.
pub fn find_char(s: &Vec<char>, c: char) -> (r: Option<usize>)
    ensures
        match r {
            Some(i) => is_first_index(s@, c, i as int),
            None => forall|j: int| 0 <= j < s.len() ==> s@[j] != c,
        },
{
    let mut i: usize = 0;
    while i < s.len()
        invariant
            i <= s.len(),
            forall|j: int| 0 <= j < i ==> s@[j] != c,
        decreases s.len() - i,
    {
        if s[i] == c {
            return Some(i);
        }
        i += 1;
    }
    None
}

/// Index of the last occurrence of `c` in `s`.
pub fn rfind_char(s: &Vec<char>, c: char) -> (r: Option<usize>)
    ensures
        match r {
            Some(i) => is_last_index(s@, c, i as int),
            None => forall|j: int| 0 <= j < s.len() ==> s@[j] != c,
        },
{
    let mut i: usize = s.len();
    while i > 0
        invariant
            i <= s.len(),
            forall|j: int| i <= j < s.len() ==> s@[j] != c,
        decreases i,
    {
        if s[i - 1] == c {
            return Some(i - 1);
        }
        i -= 1;
    }
    None
}


/// `c` is an ASCII decimal digit.
pub open spec fn is_digit(c: char) -> bool {
    '0' <= c <= '9'
}

/// The value of an ASCII decimal digit.
pub open spec fn digit_value(c: char) -> int {
    (c as int) - ('0' as int)
}

/// All characters of `s` are ASCII decimal digits.
pub open spec fn all_digits(s: Seq<char>) -> bool {
    forall|i: int| 0 <= i < s.len() ==> is_digit(#[trigger] s[i])
}

/// The number written by the decimal digits `s` (most significant first).
pub open spec fn digits_value(s: Seq<char>) -> int
    decreases s.len(),
{
    if s.len() == 0 {
        0
    } else {
        digits_value(s.drop_last()) * 10 + digit_value(s.last())
    }
}

/// What std's `i32::from_str` gives: an optional `+` or `-`, then one or
/// more decimal digits, with the value in range; otherwise no number.
pub open spec fn spec_parse_i32(s: Seq<char>) -> Option<i32> {
    if s.len() == 0 {
        None
    } else {
        let neg = s[0] == '-';
        let body = if s[0] == '-' || s[0] == '+' { s.drop_first() } else { s };
        if body.len() == 0 || !all_digits(body) {
            None
        } else {
            let v = if neg { -digits_value(body) } else { digits_value(body) };
            if i32::MIN <= v <= i32::MAX {
                Some(v as i32)
            } else {
                None
            }
        }
    }
}

/// What std's `usize::from_str` gives: an optional `+`, then one or more
/// decimal digits, with the value in range; otherwise no number.
pub open spec fn spec_parse_usize(s: Seq<char>) -> Option<usize> {
    let body = if s.len() > 0 && s[0] == '+' { s.drop_first() } else { s };
    if body.len() == 0 || !all_digits(body) {
        None
    } else if digits_value(body) <= usize::MAX {
        Some(digits_value(body) as usize)
    } else {
        None
    }
}

proof fn lemma_digits_value_nonneg(s: Seq<char>)
    requires
        all_digits(s),
    ensures
        digits_value(s) >= 0,
    decreases s.len(),
{
    if s.len() > 0 {
        assert(all_digits(s.drop_last()));
        lemma_digits_value_nonneg(s.drop_last());
        assert(is_digit(s[s.len() - 1]));
    }
}

/// Value of the digits `s` when it is at most `cap`, else a number above `cap`.
fn capped_digits_value(s: &Vec<char>, from: usize, cap: u64) -> (r: (bool, u64))
    requires
        from <= s.len(),
        cap <= 0xffff_ffff_ffff_fff0u64 / 10,
    ensures
        r.0 == all_digits(s@.subrange(from as int, s.len() as int)),
        r.0 ==> (if digits_value(s@.subrange(from as int, s.len() as int)) <= cap {
            r.1 == digits_value(s@.subrange(from as int, s.len() as int))
        } else {
            r.1 > cap
        }),
{
    let mut acc: u64 = 0;
    let mut over = false;
    let mut i = from;
    while i < s.len()
        invariant
            from <= i <= s.len(),
            cap <= 0xffff_ffff_ffff_fff0u64 / 10,
            all_digits(s@.subrange(from as int, i as int)),
            over ==> digits_value(s@.subrange(from as int, i as int)) > cap,
            !over ==> acc == digits_value(s@.subrange(from as int, i as int)) && acc <= cap,
        decreases s.len() - i,
    {
        let c = s[i];
        if !('0' <= c && c <= '9') {
            assert(s@.subrange(from as int, s.len() as int)[i - from] == c);
            return (false, 0);
        }
        let d = (c as u64) - ('0' as u64);
        let ghost prev = s@.subrange(from as int, i as int);
        let ghost next = s@.subrange(from as int, i + 1);
        assert(next.drop_last() =~= prev);
        assert(next.last() == c);
        proof { lemma_digits_value_nonneg(prev); }
        if !over {
            let v = acc * 10 + d;
            if v > cap {
                over = true;
            } else {
                acc = v;
            }
        }
        i += 1;
        assert(all_digits(s@.subrange(from as int, i as int))) by {
            assert forall|k: int| 0 <= k < next.len() implies is_digit(#[trigger] next[k]) by {
                if k < prev.len() {
                    assert(next[k] == prev[k]);
                }
            }
        }
    }
    assert(s@.subrange(from as int, s.len() as int) =~= s@.subrange(from as int, i as int));
    (true, if over { cap + 1 } else { acc })
}

/// Parses `s` as std's `i32::from_str` does.
pub fn parse_i32(s: &Vec<char>) -> (r: Option<i32>)
    ensures
        r == spec_parse_i32(s@),
{
    if s.len() == 0 {
        return None;
    }
    let neg = s[0] == '-';
    let from: usize = if s[0] == '-' || s[0] == '+' { 1 } else { 0 };
    let ghost body = if s@[0] == '-' || s@[0] == '+' { s@.drop_first() } else { s@ };
    assert(s@.subrange(from as int, s.len() as int) =~= body);
    if from >= s.len() {
        return None;
    }
    let (ok, v) = capped_digits_value(s, from, 2147483648u64);
    if !ok {
        return None;
    }
    proof { lemma_digits_value_nonneg(body); }
    if neg {
        if v > 2147483648u64 {
            None
        } else {
            Some((0i64 - v as i64) as i32)
        }
    } else {
        if v > 2147483647u64 {
            None
        } else {
            Some(v as i32)
        }
    }
}

/// Parses `s` as std's `usize::from_str` does.
pub fn parse_usize(s: &Vec<char>) -> (r: Option<usize>)
    ensures
        r == spec_parse_usize(s@),
{
    let from: usize = if s.len() > 0 && s[0] == '+' { 1 } else { 0 };
    let ghost body = if s@.len() > 0 && s@[0] == '+' { s@.drop_first() } else { s@ };
    assert(s@.subrange(from as int, s.len() as int) =~= body);
    if from >= s.len() {
        return None;
    }
    let (ok, _v) = capped_digits_value(s, from, 0);
    if !ok {
        return None;
    }
    parse_usize_wide(s, from)
}

/// Exact `usize` parse of the digits from `from` on, by checked arithmetic.
fn parse_usize_wide(s: &Vec<char>, from: usize) -> (r: Option<usize>)
    requires
        from < s.len(),
        all_digits(s@.subrange(from as int, s.len() as int)),
    ensures
        r == (if digits_value(s@.subrange(from as int, s.len() as int)) <= usize::MAX {
            Some(digits_value(s@.subrange(from as int, s.len() as int)) as usize)
        } else {
            None::<usize>
        }),
{
    let mut acc: usize = 0;
    let mut i = from;
    while i < s.len()
        invariant
            from <= i <= s.len(),
            all_digits(s@.subrange(from as int, s.len() as int)),
            acc == digits_value(s@.subrange(from as int, i as int)),
        decreases s.len() - i,
    {
        let ghost prev = s@.subrange(from as int, i as int);
        let ghost next = s@.subrange(from as int, i + 1);
        assert(next.drop_last() =~= prev);
        assert(s@.subrange(from as int, s.len() as int)[i - from] == s@[i as int]);
        assert(s@.subrange(from as int, s.len() as int).take(i + 1 - from) =~= next);
        assert(is_digit(s@.subrange(from as int, s.len() as int)[i - from]));
        proof { lemma_digits_value_nonneg(prev); }
        let d = (s[i] as u64 - '0' as u64) as usize;
        match acc.checked_mul(10) {
            Some(m) => match m.checked_add(d) {
                Some(v) => {
                    acc = v;
                },
                None => {
                    proof { lemma_digits_tail_grow(s@.subrange(from as int, s.len() as int), (i + 1 - from) as int); }
                    return None;
                },
            },
            None => {
                proof {
                    lemma_digits_value_nonneg(prev);
                    lemma_digits_tail_grow(s@.subrange(from as int, s.len() as int), (i + 1 - from) as int);
                }
                return None;
            },
        }
        i += 1;
    }
    assert(s@.subrange(from as int, s.len() as int) =~= s@.subrange(from as int, i as int));
    Some(acc)
}

/// The value of a digit string is at least the value of any of its prefixes.
proof fn lemma_digits_tail_grow(s: Seq<char>, k: int)
    requires
        all_digits(s),
        0 <= k <= s.len(),
    ensures
        digits_value(s) >= digits_value(s.take(k)),
    decreases s.len() - k,
{
    if k < s.len() {
        lemma_digits_tail_grow(s, k + 1);
        assert(s.take(k + 1).drop_last() =~= s.take(k));
        assert(all_digits(s.take(k)));
        lemma_digits_value_nonneg(s.take(k));
        assert(is_digit(s.take(k + 1).last()));
    } else {
        assert(s.take(k) =~= s);
    }
}

/// Decimal digits of a non-negative number, most significant first.
pub open spec fn spec_nat_digits(n: nat) -> Seq<char>
    decreases n,
{
    if n < 10 {
        seq![((n + ('0' as int)) as u32) as char]
    } else {
        spec_nat_digits(n / 10).push((((n % 10) + ('0' as int)) as u32) as char)
    }
}

/// How std's `Display` writes an `i32`: a `-` for negative numbers, then the
/// decimal digits of the magnitude.
pub open spec fn spec_i32_text(n: i32) -> Seq<char> {
    if n < 0 {
        seq!['-'] + spec_nat_digits((-(n as int)) as nat)
    } else {
        spec_nat_digits(n as nat)
    }
}

/// The decimal digits of `n`.
pub fn nat_digits(n: u64) -> (r: Vec<char>)
    ensures
        r@ == spec_nat_digits(n as nat),
    decreases n,
{
    if n < 10 {
        let c = char_of_digit(n);
        let mut v = Vec::new();
        v.push(c);
        assert(v@ =~= seq![c]);
        v
    } else {
        let mut v = nat_digits(n / 10);
        let c = char_of_digit(n % 10);
        v.push(c);
        v
    }
}

fn char_of_digit(d: u64) -> (c: char)
    requires
        d < 10,
    ensures
        c == (((d + ('0' as int)) as u32) as char),
{
    if d == 0 { '0' }
    else if d == 1 { '1' }
    else if d == 2 { '2' }
    else if d == 3 { '3' }
    else if d == 4 { '4' }
    else if d == 5 { '5' }
    else if d == 6 { '6' }
    else if d == 7 { '7' }
    else if d == 8 { '8' }
    else { '9' }
}

/// `n` written in decimal, as std's `Display` writes it.
pub fn i32_text(n: i32) -> (r: Vec<char>)
    ensures
        r@ == spec_i32_text(n),
{
    if n < 0 {
        let m: u64 = (0i64 - n as i64) as u64;
        let d = nat_digits(m);
        let mut v = Vec::new();
        v.push('-');
        append_chars(&mut v, &d);
        assert(v@ =~= seq!['-'] + d@);
        v
    } else {
        nat_digits(n as u64)
    }
}

/// Two texts are equal.
pub fn str_eq(a: &str, b: &str) -> (r: bool)
    ensures
        r == (a@ == b@),
{
    let x = to_chars(a);
    let y = to_chars(b);
    chars_eq(&x, &y)
}


/// The decimal digits of `n` are digits, at least one, and read back as `n`.
pub proof fn lemma_nat_digits_read_back(n: nat)
    ensures
        spec_nat_digits(n).len() > 0,
        all_digits(spec_nat_digits(n)),
        digits_value(spec_nat_digits(n)) == n,
    decreases n,
{
    if n < 10 {
        let c = ((n + ('0' as int)) as u32) as char;
        assert(c as int == n + 48);
        assert(spec_nat_digits(n) == seq![c]);
        assert(seq![c].drop_last() =~= Seq::<char>::empty());
        assert(digits_value(Seq::<char>::empty()) == 0);
        assert(seq![c].last() == c);
        assert(digit_value(c) == n);
        assert(digits_value(seq![c]) == digits_value(seq![c].drop_last()) * 10 + digit_value(seq![c].last()));
    } else {
        lemma_nat_digits_read_back(n / 10);
        let c = (((n % 10) + ('0' as int)) as u32) as char;
        assert(c as int == n % 10 + 48);
        let d = spec_nat_digits(n / 10);
        assert(spec_nat_digits(n) == d.push(c));
        assert(d.push(c).drop_last() =~= d);
        assert forall|i: int| 0 <= i < d.push(c).len() implies is_digit(#[trigger] d.push(c)[i]) by {
            if i < d.len() {
                assert(is_digit(d[i]));
            }
        }
        assert(d.push(c).last() == c);
        assert(digit_value(c) == n % 10);
        assert(digits_value(d.push(c)) == digits_value(d.push(c).drop_last()) * 10 + digit_value(d.push(c).last()));
        assert((n / 10) * 10 + n % 10 == n);
    }
}

/// The text of an `i32` parses back as that `i32`.
pub proof fn lemma_i32_text_read_back(n: i32)
    ensures
        spec_parse_i32(spec_i32_text(n)) == Some(n),
{
    if n < 0 {
        let m = (-(n as int)) as nat;
        lemma_nat_digits_read_back(m);
        let s = spec_i32_text(n);
        assert(s[0] == '-');
        assert(s.drop_first() =~= spec_nat_digits(m));
    } else {
        let m = n as nat;
        lemma_nat_digits_read_back(m);
        let s = spec_i32_text(n);
        assert(is_digit(s[0]));
    }
}

} // verus!
