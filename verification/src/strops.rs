//! Text operations of the script language, each stated as std's `str`
//! methods behave: splitting, trimming, byte-offset slicing, ordering.
use vstd::prelude::*;
use crate::util::{push_string, views};
use crate::text::{
    first_index_of, is_first_index, is_last_index, matches_at, occurs_at, slice_chars, find_char, rfind_char,
    string_from_chars,
};

verus! {

/// The index of the last occurrence of `c` in `s`.
pub open spec fn last_index_of(s: Seq<char>, c: char) -> Option<int> {
    if exists|i: int| 0 <= i < s.len() && s[i] == c {
        Some(choose|i: int| is_last_index(s, c, i))
    } else {
        None
    }
}

/// `first_index_of` as an exec value.
pub fn find(s: &Vec<char>, c: char) -> (r: Option<usize>)
    ensures
        match first_index_of(s@, c) {
            Some(i) => 0 <= i < s@.len() && r == Some(i as usize),
            None => r is None,
        },
{
    match find_char(s, c) {
        Some(i) => {
            proof {
                let k = choose|k: int| 0 <= k < s@.len() && s@[k] == c && forall|j: int| 0 <= j < k ==> s@[j] != c;
                assert(k == i as int);
            }
            Some(i)
        },
        None => None,
    }
}

/// `last_index_of` as an exec value.
pub fn rfind(s: &Vec<char>, c: char) -> (r: Option<usize>)
    ensures
        match last_index_of(s@, c) {
            Some(i) => 0 <= i < s@.len() && r == Some(i as usize),
            None => r is None,
        },
{
    match rfind_char(s, c) {
        Some(i) => {
            proof {
                assert(is_last_index(s@, c, i as int));
                let k = choose|k: int| is_last_index(s@, c, k);
                assert(k == i as int);
            }
            Some(i)
        },
        None => None,
    }
}

/// The index of the first occurrence of `p` in `s`.
pub open spec fn first_occ(s: Seq<char>, p: Seq<char>) -> Option<int> {
    if exists|i: int| occurs_at(s, p, i) {
        Some(choose|i: int| occurs_at(s, p, i) && forall|j: int| 0 <= j < i ==> !occurs_at(s, p, j))
    } else {
        None
    }
}

/// The pieces of `s` between the occurrences of `sep`, as std's `str::split`
/// with a text pattern gives them: occurrences are taken from the left
/// without overlap; an empty separator splits before and after every character.
#[verifier::opaque]
pub open spec fn spec_split(s: Seq<char>, sep: Seq<char>) -> Seq<Seq<char>>
    decreases s.len(),
{
    if sep.len() == 0 {
        seq![seq![]] + s.map_values(|c: char| seq![c]) + seq![seq![]]
    } else {
        match first_occ(s, sep) {
            Some(i) => if 0 <= i && i + sep.len() <= s.len() {
                seq![s.take(i)] + spec_split(s.skip(i + sep.len()), sep)
            } else {
                seq![s]
            },
            None => seq![s],
        }
    }
}

proof fn lemma_first_occ(s: Seq<char>, p: Seq<char>, i: int)
    requires
        occurs_at(s, p, i),
        forall|j: int| 0 <= j < i ==> !occurs_at(s, p, j),
    ensures
        first_occ(s, p) == Some(i),
{
    let k = choose|k: int| occurs_at(s, p, k) && forall|j: int| 0 <= j < k ==> !occurs_at(s, p, j);
    assert(occurs_at(s, p, k));
    if k < i {
        assert(!occurs_at(s, p, k));
    }
    if i < k {
        assert(!occurs_at(s, p, i));
    }
}

proof fn lemma_occurs_skip(s: Seq<char>, p: Seq<char>, start: int, k: int)
    requires
        0 <= start <= s.len(),
    ensures
        occurs_at(s.skip(start), p, k) == (k >= 0 && occurs_at(s, p, start + k)),
{
    if k >= 0 && start + k + p.len() <= s.len() {
        assert(s.skip(start).subrange(k, k + p.len()) =~= s.subrange(start + k, start + k + p.len()));
    }
}

proof fn lemma_split_found(s: Seq<char>, sep: Seq<char>, start: int, i: int)
    requires
        0 <= start <= i,
        sep.len() > 0,
        occurs_at(s, sep, i),
        forall|j: int| start <= j < i ==> !occurs_at(s, sep, j),
    ensures
        spec_split(s.skip(start), sep) == seq![s.subrange(start, i)] + spec_split(s.skip(i + sep.len()), sep),
{
    let rest = s.skip(start);
    assert forall|k: int| 0 <= k < i - start implies !occurs_at(rest, sep, k) by {
        lemma_occurs_skip(s, sep, start, k);
    }
    lemma_occurs_skip(s, sep, start, i - start);
    lemma_first_occ(rest, sep, i - start);
    reveal(spec_split);
    assert(rest.take(i - start) =~= s.subrange(start, i));
    assert(rest.skip(i - start + sep.len()) =~= s.skip(i + sep.len()));
}

proof fn lemma_split_none(s: Seq<char>, sep: Seq<char>, start: int, i: int)
    requires
        0 <= start <= i <= s.len(),
        sep.len() > 0,
        i >= s.len() || sep.len() > s.len() - i,
        forall|j: int| start <= j < i ==> !occurs_at(s, sep, j),
    ensures
        spec_split(s.skip(start), sep) == seq![s.skip(start)],
{
    let rest = s.skip(start);
    assert forall|k: int| occurs_at(rest, sep, k) implies false by {
        lemma_occurs_skip(s, sep, start, k);
    }
    assert(first_occ(rest, sep) is None);
    reveal(spec_split);
}

proof fn lemma_split_empty_sep(s: Seq<char>, sep: Seq<char>)
    requires
        sep.len() == 0,
    ensures
        spec_split(s, sep) == seq![Seq::<char>::empty()] + s.map_values(|c: char| seq![c]) + seq![Seq::<char>::empty()],
{
    reveal(spec_split);
}

/// Splits `s` at the occurrences of `sep` (see `spec_split`).
pub fn split(s: &Vec<char>, sep: &Vec<char>) -> (r: Vec<String>)
    ensures
        views(r@) == spec_split(s@, sep@),
{
    let mut out: Vec<String> = Vec::new();
    if sep.len() == 0 {
        let e: Vec<char> = Vec::new();
        push_string(&mut out, string_from_chars(&e));
        let mut i: usize = 0;
        assert(views(out@) =~= seq![Seq::<char>::empty()] + s@.take(0).map_values(|c: char| seq![c]));
        while i < s.len()
            invariant
                i <= s@.len(),
                sep@.len() == 0,
                views(out@) == seq![Seq::<char>::empty()] + s@.take(i as int).map_values(|c: char| seq![c]),
            decreases s@.len() - i,
        {
            let ghost v0 = views(out@);
            let mut one: Vec<char> = Vec::new();
            one.push(s[i]);
            assert(one@ =~= seq![s@[i as int]]);
            push_string(&mut out, string_from_chars(&one));
            assert(s@.take(i + 1).map_values(|c: char| seq![c]) =~= s@.take(i as int).map_values(|c: char| seq![c]).push(seq![s@[i as int]]));
            i += 1;
            assert(views(out@) =~= seq![Seq::<char>::empty()] + s@.take(i as int).map_values(|c: char| seq![c]));
        }
        let ghost v1 = views(out@);
        push_string(&mut out, string_from_chars(&e));
        assert(s@.take(s@.len() as int) =~= s@);
        proof { lemma_split_empty_sep(s@, sep@); }
        assert(views(out@) =~= seq![Seq::<char>::empty()] + s@.map_values(|c: char| seq![c]) + seq![Seq::<char>::empty()]);
        return out;
    }
    let mut start: usize = 0;
    let mut i: usize = 0;
    assert(s@.skip(0) =~= s@);
    assert(views(out@) =~= seq![]);
    while i < s.len() && sep.len() <= s.len() - i
        invariant
            start <= i <= s@.len(),
            sep@.len() > 0,
            views(out@) + spec_split(s@.skip(start as int), sep@) == spec_split(s@, sep@),
            forall|j: int| start <= j < i ==> !occurs_at(s@, sep@, j),
        decreases s@.len() - i,
    {
        if matches_at(s, sep, i) {
            proof { lemma_split_found(s@, sep@, start as int, i as int); }
            let piece = slice_chars(s, start, i);
            let ghost before = views(out@);
            push_string(&mut out, string_from_chars(&piece));
            assert(before.push(piece@) + spec_split(s@.skip(i + sep@.len()), sep@) =~= before + (seq![piece@] + spec_split(s@.skip(i + sep@.len()), sep@)));
            start = i + sep.len();
            i = start;
        } else {
            i += 1;
        }
    }
    proof { lemma_split_none(s@, sep@, start as int, i as int); }
    let piece = slice_chars(s, start, s.len());
    assert(piece@ =~= s@.skip(start as int));
    let ghost before = views(out@);
    push_string(&mut out, string_from_chars(&piece));
    assert(views(out@) =~= before + seq![piece@]);
    out
}

/// A white-space character, as std's `char::is_whitespace` defines it.
pub open spec fn is_ws(c: char) -> bool {
    ('\u{9}' <= c && c <= '\u{d}') || c == ' ' || c == '\u{85}' || c == '\u{a0}' || c == '\u{1680}'
        || ('\u{2000}' <= c && c <= '\u{200a}') || c == '\u{2028}' || c == '\u{2029}' || c == '\u{202f}'
        || c == '\u{205f}' || c == '\u{3000}'
}

/// `c` is white space.
pub fn is_ws_exec(c: char) -> (r: bool)
    ensures
        r == is_ws(c),
{
    ('\u{9}' <= c && c <= '\u{d}') || c == ' ' || c == '\u{85}' || c == '\u{a0}' || c == '\u{1680}'
        || ('\u{2000}' <= c && c <= '\u{200a}') || c == '\u{2028}' || c == '\u{2029}' || c == '\u{202f}'
        || c == '\u{205f}' || c == '\u{3000}'
}

/// The number of leading white-space characters of `s`.
pub open spec fn ws_prefix(s: Seq<char>) -> int
    decreases s.len(),
{
    if s.len() > 0 && is_ws(s[0]) { 1 + ws_prefix(s.drop_first()) } else { 0 }
}

/// The number of trailing white-space characters of `s`.
pub open spec fn ws_suffix(s: Seq<char>) -> int
    decreases s.len(),
{
    if s.len() > 0 && is_ws(s.last()) { 1 + ws_suffix(s.drop_last()) } else { 0 }
}

/// `s` without leading white space, as std's `str::trim_start`.
pub open spec fn spec_trim_start(s: Seq<char>) -> Seq<char> {
    s.skip(ws_prefix(s))
}

/// `s` without leading and trailing white space, as std's `str::trim`.
pub open spec fn spec_trim(s: Seq<char>) -> Seq<char> {
    let t = spec_trim_start(s);
    t.take(t.len() - ws_suffix(t))
}

proof fn lemma_ws_prefix_bound(s: Seq<char>)
    ensures
        0 <= ws_prefix(s) <= s.len(),
    decreases s.len(),
{
    if s.len() > 0 && is_ws(s[0]) {
        lemma_ws_prefix_bound(s.drop_first());
    }
}

proof fn lemma_ws_suffix_bound(s: Seq<char>)
    ensures
        0 <= ws_suffix(s) <= s.len(),
    decreases s.len(),
{
    if s.len() > 0 && is_ws(s.last()) {
        lemma_ws_suffix_bound(s.drop_last());
    }
}

/// `s` without leading white space.
pub fn trim_start(s: &Vec<char>) -> (r: Vec<char>)
    ensures
        r@ == spec_trim_start(s@),
{
    let mut i: usize = 0;
    assert(s@.skip(0) =~= s@);
    while i < s.len() && is_ws_exec(s[i])
        invariant
            i <= s@.len(),
            i + ws_prefix(s@.skip(i as int)) == ws_prefix(s@),
        decreases s@.len() - i,
    {
        assert(s@.skip(i as int).drop_first() =~= s@.skip(i + 1));
        i += 1;
    }
    assert(ws_prefix(s@.skip(i as int)) == 0);
    slice_chars(s, i, s.len())
}

/// `s` without leading and trailing white space.
pub fn trim(s: &Vec<char>) -> (r: Vec<char>)
    ensures
        r@ == spec_trim(s@),
{
    let t = trim_start(s);
    let mut n: usize = t.len();
    proof { lemma_ws_suffix_bound(t@); }
    assert(t@.take(t@.len() as int) =~= t@);
    while n > 0 && is_ws_exec(t[n - 1])
        invariant
            n <= t@.len(),
            (t@.len() - n) + ws_suffix(t@.take(n as int)) == ws_suffix(t@),
        decreases n,
    {
        assert(t@.take(n as int).drop_last() =~= t@.take(n - 1));
        n -= 1;
    }
    assert(t@.take(t@.len() as int) =~= t@);
    slice_chars(&t, 0, n)
}

/// The number of bytes of `c` in UTF-8.
pub open spec fn utf8_len(c: char) -> int {
    if (c as int) < 0x80 { 1 } else if (c as int) < 0x800 { 2 } else if (c as int) < 0x10000 { 3 } else { 4 }
}

/// The number of bytes of `s` in UTF-8, as std's `str::len` counts them.
pub open spec fn bytes_len(s: Seq<char>) -> int
    decreases s.len(),
{
    if s.len() == 0 { 0 } else { utf8_len(s[0]) + bytes_len(s.drop_first()) }
}

/// The character index at which byte offset `n` of `s` falls, when it is
/// a character boundary, scanning from character `i` at byte offset `acc`.
pub open spec fn boundary_scan(s: Seq<char>, n: int, i: int, acc: int) -> Option<int>
    decreases s.len() - i,
{
    if acc == n {
        Some(i)
    } else if acc > n || i < 0 || i >= s.len() {
        None
    } else {
        boundary_scan(s, n, i + 1, acc + utf8_len(s[i]))
    }
}

/// The character index of byte offset `n` of `s`, when it is a boundary.
pub open spec fn boundary(s: Seq<char>, n: int) -> Option<int> {
    boundary_scan(s, n, 0, 0)
}

/// The text std's `&s[start..end]` gives, with `start` and `end` byte
/// offsets; `None` where it panics.
pub open spec fn byte_slice(s: Seq<char>, start: int, end: int) -> Option<Seq<char>> {
    match (boundary(s, start), boundary(s, end)) {
        (Some(i), Some(j)) => if start <= end && i <= j { Some(s.subrange(i, j)) } else { None },
        _ => None,
    }
}

/// The number of bytes of `c` in UTF-8.
pub fn utf8_len_exec(c: char) -> (r: usize)
    ensures
        r == utf8_len(c),
{
    let v = c as u32;
    if v < 0x80 { 1 } else if v < 0x800 { 2 } else if v < 0x10000 { 3 } else { 4 }
}

/// The number of bytes of `s` in UTF-8.
pub fn bytes_len_exec(s: &Vec<char>) -> (r: u128)
    ensures
        r == bytes_len(s@),
{
    let mut acc: u128 = 0;
    let mut i: usize = s.len();
    assert(s@.skip(s@.len() as int) =~= Seq::<char>::empty());
    while i > 0
        invariant
            i <= s@.len(),
            acc == bytes_len(s@.skip(i as int)),
            acc <= 4 * (s@.len() - i),
            s@.len() <= usize::MAX,
        decreases i,
    {
        assert(s@.skip(i - 1).drop_first() =~= s@.skip(i as int));
        let w = utf8_len_exec(s[i - 1]);
        acc = acc + w as u128;
        i -= 1;
    }
    assert(s@.skip(0) =~= s@);
    acc
}

/// The character index of byte offset `n` of `s`, when it is a boundary.
pub fn boundary_exec(s: &Vec<char>, n: u128) -> (r: Option<usize>)
    ensures
        match r {
            Some(i) => boundary(s@, n as int) == Some(i as int),
            None => boundary(s@, n as int) is None,
        },
{
    let mut i: usize = 0;
    let mut acc: u128 = 0;
    let len = s.len();
    loop
        invariant
            len == s@.len(),
            i <= s@.len(),
            acc <= 4 * i,
            s@.len() <= usize::MAX,
            boundary_scan(s@, n as int, i as int, acc as int) == boundary(s@, n as int),
        decreases s@.len() - i,
    {
        if acc == n {
            return Some(i);
        }
        if acc > n || i >= s.len() {
            return None;
        }
        acc = acc + utf8_len_exec(s[i]) as u128;
        i += 1;
    }
}

/// `&s[start..end]` with byte offsets; `None` where std panics.
pub fn byte_slice_exec(s: &Vec<char>, start: u128, end: u128) -> (r: Option<Vec<char>>)
    ensures
        match byte_slice(s@, start as int, end as int) {
            Some(t) => r matches Some(x) && x@ == t,
            None => r is None,
        },
{
    proof { lemma_boundary_le(s@, start as int); lemma_boundary_le(s@, end as int); }
    let bi = boundary_exec(s, start);
    let bj = boundary_exec(s, end);
    match bi {
        Some(i) => match bj {
            Some(j) => {
                if start <= end && i <= j {
                    Some(slice_chars(s, i, j))
                } else {
                    None
                }
            },
            None => None,
        },
        None => None,
    }
}

proof fn lemma_boundary_scan_le(s: Seq<char>, n: int, i: int, acc: int)
    requires
        0 <= i,
    ensures
        boundary_scan(s, n, i, acc) matches Some(k) ==> i <= k <= s.len() || k == i,
    decreases s.len() - i,
{
    if acc == n {
    } else if acc > n || i < 0 || i >= s.len() {
    } else {
        lemma_boundary_scan_le(s, n, i + 1, acc + utf8_len(s[i]));
    }
}

proof fn lemma_boundary_le(s: Seq<char>, n: int)
    ensures
        boundary(s, n) matches Some(k) ==> 0 <= k <= s.len(),
{
    lemma_boundary_scan_in(s, n, 0, 0);
}

proof fn lemma_boundary_scan_in(s: Seq<char>, n: int, i: int, acc: int)
    requires
        0 <= i <= s.len(),
    ensures
        boundary_scan(s, n, i, acc) matches Some(k) ==> i <= k <= s.len(),
    decreases s.len() - i,
{
    if acc == n {
    } else if acc > n || i < 0 || i >= s.len() {
    } else {
        lemma_boundary_scan_in(s, n, i + 1, acc + utf8_len(s[i]));
    }
}

/// `a` comes before `b` in std's order of text (by code points).
pub open spec fn text_lt(a: Seq<char>, b: Seq<char>) -> bool
    decreases a.len(),
{
    if a.len() == 0 {
        b.len() > 0
    } else if b.len() == 0 {
        false
    } else if a[0] != b[0] {
        a[0] < b[0]
    } else {
        text_lt(a.drop_first(), b.drop_first())
    }
}

/// `a` comes before `b`.
pub fn text_lt_exec(a: &Vec<char>, b: &Vec<char>) -> (r: bool)
    ensures
        r == text_lt(a@, b@),
{
    let mut i: usize = 0;
    assert(a@.skip(0) =~= a@);
    assert(b@.skip(0) =~= b@);
    loop
        invariant
            i <= a@.len(),
            i <= b@.len(),
            text_lt(a@.skip(i as int), b@.skip(i as int)) == text_lt(a@, b@),
        decreases a@.len() - i,
    {
        if i == a.len() {
            return i < b.len();
        }
        if i == b.len() {
            return false;
        }
        if a[i] != b[i] {
            assert(a@.skip(i as int)[0] == a@[i as int]);
            assert(b@.skip(i as int)[0] == b@[i as int]);
            return a[i] < b[i];
        }
        assert(a@.skip(i as int).drop_first() =~= a@.skip(i + 1));
        assert(b@.skip(i as int).drop_first() =~= b@.skip(i + 1));
        i += 1;
    }
}

/// `s` with every `from` replaced by `to`.
pub open spec fn replace_char(s: Seq<char>, from: char, to: char) -> Seq<char> {
    s.map_values(|c: char| if c == from { to } else { c })
}

/// `s` with every `from` replaced by `to`.
pub fn replace_char_exec(s: &Vec<char>, from: char, to: char) -> (r: Vec<char>)
    ensures
        r@ == replace_char(s@, from, to),
{
    let mut r: Vec<char> = Vec::new();
    let mut i: usize = 0;
    while i < s.len()
        invariant
            i <= s@.len(),
            r@ == replace_char(s@.take(i as int), from, to),
        decreases s@.len() - i,
    {
        r.push(if s[i] == from { to } else { s[i] });
        i += 1;
        assert(r@ =~= replace_char(s@.take(i as int), from, to));
    }
    assert(s@.take(s@.len() as int) =~= s@);
    r
}

} // verus!
