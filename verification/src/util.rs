//! Text utilities of the interpreter: control-character escapes, joining
//! arrays, path tests and the year of a clock reading.
use vstd::prelude::*;
use crate::text::{append_chars, string_from_chars, to_chars};

verus! {

/// The state of the escape decoder.
#[derive(Clone, Copy, PartialEq, Eq, Structural)]
pub enum EscState {
    /// ordinary text
    No,
    /// a backslash was read
    Suspect,
    /// a backslash and the first octal digit were read; the value so far
    Esc(u8),
    /// a backslash and two octal digits were read; the value so far
    Oct2(u8),
}

/// An octal digit `0` to `7`.
pub open spec fn is_oct(c: char) -> bool {
    '0' <= c <= '7'
}

/// The numeric value of a decimal digit character.
pub open spec fn dval(c: char) -> int {
    (c as int) - ('0' as int)
}

/// The character with code `v` (`v` below 256).
pub open spec fn byte_char(v: int) -> char {
    ((v as u8) as u32) as char
}

/// One step of the escape decoder: the next state and what is written.
pub open spec fn esc_step(s: EscState, c: char) -> (EscState, Seq<char>) {
    if c == '\\' {
        match s {
            EscState::No => (EscState::Suspect, seq![]),
            EscState::Suspect => (EscState::No, seq!['\\', '\\']),
            _ => (EscState::No, seq![c]),
        }
    } else if is_oct(c) {
        match s {
            EscState::No => (EscState::No, seq![c]),
            EscState::Suspect => if c <= '3' {
                (EscState::Esc((64 * dval(c)) as u8), seq![])
            } else {
                (EscState::No, seq!['\\', c])
            },
            EscState::Esc(v) => (EscState::Oct2((v + 8 * dval(c)) as u8), seq![]),
            EscState::Oct2(v) => (EscState::No, seq![byte_char(v + dval(c))]),
        }
    } else {
        let pre: Seq<char> = match s {
            EscState::Suspect => seq!['\\'],
            EscState::Esc(v) => seq!['\\', byte_char(v / 64 + ('0' as int))],
            _ => seq![],
        };
        (EscState::No, pre.push(c))
    }
}

/// The decoder run over all of `s`: its final state and the text written.
pub open spec fn esc_run(s: Seq<char>) -> (EscState, Seq<char>)
    decreases s.len(),
{
    if s.len() == 0 {
        (EscState::No, seq![])
    } else {
        let (st, out) = esc_run(s.drop_last());
        let (st2, w) = esc_step(st, s.last());
        (st2, out + w)
    }
}

/// The value accumulated in an escape state stays within one byte.
pub open spec fn esc_state_ok(s: EscState) -> bool {
    match s {
        EscState::Esc(v) => v <= 192 && v % 64 == 0,
        EscState::Oct2(v) => v <= 248,
        _ => true,
    }
}

proof fn lemma_esc_run_ok(s: Seq<char>)
    ensures
        esc_state_ok(esc_run(s).0),
    decreases s.len(),
{
    if s.len() > 0 {
        lemma_esc_run_ok(s.drop_last());
    }
}

/// Decoding ignores text with no backslash: such text comes back unchanged.
pub proof fn lemma_no_backslash_unchanged(s: Seq<char>)
    requires
        forall|i: int| 0 <= i < s.len() ==> s[i] != '\\',
    ensures
        esc_run(s) == (EscState::No, s),
    decreases s.len(),
{
    if s.len() > 0 {
        let t = s.drop_last();
        assert(forall|i: int| 0 <= i < t.len() ==> t[i] == s[i]);
        lemma_no_backslash_unchanged(t);
        assert(t.push(s.last()) =~= s);
        assert(t + seq![s.last()] =~= s);
    }
}

fn esc_step_exec(s: EscState, c: char, out: &mut Vec<char>) -> (r: EscState)
    requires
        esc_state_ok(s),
    ensures
        r == esc_step(s, c).0,
        final(out)@ == old(out)@ + esc_step(s, c).1,
        esc_state_ok(r),
{
    let ghost before = out@;
    if c == '\\' {
        match s {
            EscState::No => {
                assert(out@ =~= before + seq![]);
                EscState::Suspect
            },
            EscState::Suspect => {
                out.push('\\');
                out.push('\\');
                assert(out@ =~= before + seq!['\\', '\\']);
                EscState::No
            },
            _ => {
                out.push(c);
                assert(out@ =~= before + seq![c]);
                EscState::No
            },
        }
    } else if '0' <= c && c <= '7' {
        let d: u8 = (c as u32 - '0' as u32) as u8;
        match s {
            EscState::No => {
                out.push(c);
                assert(out@ =~= before + seq![c]);
                EscState::No
            },
            EscState::Suspect => {
                if c <= '3' {
                    assert(out@ =~= before + seq![]);
                    EscState::Esc(64 * d)
                } else {
                    out.push('\\');
                    out.push(c);
                    assert(out@ =~= before + seq!['\\', c]);
                    EscState::No
                }
            },
            EscState::Esc(v) => {
                assert(out@ =~= before + seq![]);
                EscState::Oct2(v + 8 * d)
            },
            EscState::Oct2(v) => {
                let ch = (v + d) as char;
                out.push(ch);
                assert(out@ =~= before + seq![byte_char(v + dval(c))]);
                EscState::No
            },
        }
    } else {
        match s {
            EscState::Suspect => {
                out.push('\\');
            },
            EscState::Esc(v) => {
                out.push('\\');
                out.push((v / 64 + 48u8) as char);
            },
            _ => {},
        }
        out.push(c);
        proof {
            let pre: Seq<char> = match s {
                EscState::Suspect => seq!['\\'],
                EscState::Esc(v) => seq!['\\', byte_char(v / 64 + ('0' as int))],
                _ => seq![],
            };
            assert(out@ =~= before + pre.push(c));
        }
        EscState::No
    }
}

/// Decodes escapes in `in_str`: `\ooo` (first digit `0` to `3`) becomes the
/// character with that octal code, `\\` stays `\\`; text without a backslash
/// comes back unchanged. Precisely, the result is what `esc_run` writes.
pub fn insert_ctrl_char(in_str: &String) -> (r: String)
    ensures
        r@ == esc_run(in_str@).1,
{
    let s = to_chars(in_str.as_str());
    let mut out: Vec<char> = Vec::new();
    let mut st = EscState::No;
    let mut i: usize = 0;
    while i < s.len()
        invariant
            i <= s.len(),
            s@ == in_str@,
            (st, out@) == esc_run(s@.subrange(0, i as int)),
            esc_state_ok(st),
        decreases s.len() - i,
    {
        assert(s@.subrange(0, i + 1).drop_last() =~= s@.subrange(0, i as int));
        st = esc_step_exec(st, s[i], &mut out);
        i += 1;
    }
    assert(s@.subrange(0, s.len() as int) =~= s@);
    string_from_chars(&out)
}

/// The elements of `arr` joined by `sep`.
pub open spec fn join_with(arr: Seq<Seq<char>>, sep: Seq<char>) -> Seq<char>
    decreases arr.len(),
{
    if arr.len() == 0 {
        seq![]
    } else if arr.len() == 1 {
        arr[0]
    } else {
        join_with(arr.drop_last(), sep) + sep + arr.last()
    }
}

/// The views of a sequence of strings.
pub open spec fn views(arr: Seq<String>) -> Seq<Seq<char>> {
    arr.map_values(|s: String| s@)
}

/// The elements of `arr` joined by tabs.
pub fn vec_to_str(arr: &Vec<String>) -> (r: String)
    ensures
        r@ == join_with(views(arr@), seq!['\t']),
{
    let mut sep: Vec<char> = Vec::new();
    sep.push('\t');
    let v = join_chars(arr, &sep);
    string_from_chars(&v)
}

/// The elements of `arr` joined by `sep`, as characters.
pub fn join_chars(arr: &Vec<String>, sep: &Vec<char>) -> (r: Vec<char>)
    ensures
        r@ == join_with(views(arr@), sep@),
{
    let mut out: Vec<char> = Vec::new();
    let mut i: usize = 0;
    while i < arr.len()
        invariant
            i <= arr.len(),
            out@ == join_with(views(arr@).take(i as int), sep@),
        decreases arr.len() - i,
    {
        let c = to_chars(arr[i].as_str());
        let ghost prev = views(arr@).take(i as int);
        assert(views(arr@).take(i + 1).drop_last() =~= prev);
        assert(views(arr@).take(i + 1).last() == arr@[i as int]@);
        if i > 0 {
            append_chars(&mut out, sep);
        }
        append_chars(&mut out, &c);
        if i == 0 {
            assert(out@ =~= views(arr@).take(1)[0]);
        }
        i += 1;
    }
    assert(views(arr@).take(arr.len() as int) =~= views(arr@));
    out
}

/// Appends `s` to `v`.
pub fn push_string(v: &mut Vec<String>, s: String)
    ensures
        views(final(v)@) == views(old(v)@).push(s@),
        final(v)@ == old(v)@.push(s),
{
    v.push(s);
    assert(views(v@) =~= views(old(v)@).push(s@));
}

/// The path separator of the platform.
pub const MAIN_SEPARATOR: char = '/';

/// `path` starts at the root: it begins with the path separator.
pub fn has_root(path: &str) -> (r: bool)
    ensures
        r == (path@.len() > 0 && path@[0] == MAIN_SEPARATOR),
{
    let c = to_chars(path);
    c.len() > 0 && c[0] == MAIN_SEPARATOR
}

/// Seconds in an average Gregorian year.
pub const SECS_PER_YEAR: u64 = 31556952;

/// The year of a clock reading `secs` seconds after the start of 1970, counting
/// average Gregorian years.
pub fn year_of_secs(secs: u64) -> (r: u64)
    ensures
        r == secs / SECS_PER_YEAR + 1970,
{
    secs / SECS_PER_YEAR + 1970
}

/// Seconds since the start of 1970 by the system clock; `None` where the clock
/// stands before 1970.
/// Trusted: calls std's `SystemTime::duration_since(UNIX_EPOCH)` on
/// `SystemTime::now()`. Nothing is stated of the value: it is the time.
#[verifier::external_body]
fn unix_time_secs() -> (r: Option<u64>) {
    std::time::SystemTime::now().duration_since(std::time::UNIX_EPOCH).ok().map(|d| d.as_secs())
}

/// The current year by the system clock; `None` where the clock stands
/// before 1970.
pub fn year_now() -> (r: Option<u64>)
    ensures
        r matches Some(y) ==> y >= 1970,
{
    match unix_time_secs() {
        Some(s) => Some(year_of_secs(s)),
        None => None,
    }
}

/// A path being normalized: whether it starts at the root, and its
/// components.
pub struct NormPath {
    pub rooted: bool,
    pub comps: Seq<Seq<char>>,
}

/// One path component applied to a normalized path: `..` removes the last
/// component, empty and `.` components are skipped, others are appended.
pub open spec fn norm_comp(n: NormPath, seg: Seq<char>) -> NormPath {
    if seg.len() == 0 || seg == seq!['.'] {
        n
    } else if seg == seq!['.', '.'] {
        if n.comps.len() > 0 { NormPath { comps: n.comps.drop_last(), ..n } } else { n }
    } else {
        NormPath { comps: n.comps.push(seg), ..n }
    }
}

/// The normalization of the first `k` characters of `p`, with the component
/// being read.
pub open spec fn norm_scan(p: Seq<char>, k: int) -> (NormPath, Seq<char>)
    decreases k,
{
    if k <= 0 {
        (NormPath { rooted: p.len() > 0 && p[0] == '/', comps: seq![] }, seq![])
    } else {
        let (n, seg) = norm_scan(p, k - 1);
        if p[k - 1] == '/' {
            (norm_comp(n, seg), seq![])
        } else {
            (n, seg.push(p[k - 1]))
        }
    }
}

/// The text of a normalized path: `/` when rooted, then the components
/// separated by `/`.
pub open spec fn norm_text(n: NormPath) -> Seq<char> {
    (if n.rooted { seq!['/'] } else { seq![] }) + join_with(n.comps, seq!['/'])
}

/// `path` with `.` and empty components dropped and each `..` removing the
/// component before it (never the root).
pub open spec fn spec_normalize_path(p: Seq<char>) -> Seq<char> {
    let (n, seg) = norm_scan(p, p.len() as int);
    norm_text(norm_comp(n, seg))
}

fn norm_comp_exec(rooted: bool, comps: &mut Vec<Vec<char>>, seg: Vec<char>)
    ensures
        norm_comp(NormPath { rooted, comps: old(comps)@.map_values(|v: Vec<char>| v@) }, seg@)
            == (NormPath { rooted, comps: final(comps)@.map_values(|v: Vec<char>| v@) }),
{
    let ghost before = comps@.map_values(|v: Vec<char>| v@);
    if seg.len() == 0 || (seg.len() == 1 && seg[0] == '.') {
        assert(seg@.len() == 0 || seg@ =~= seq!['.']);
    } else if seg.len() == 2 && seg[0] == '.' && seg[1] == '.' {
        assert(seg@ =~= seq!['.', '.']);
        if comps.len() > 0 {
            let _ = comps.pop();
            assert(comps@.map_values(|v: Vec<char>| v@) =~= before.drop_last());
        }
    } else {
        assert(seg@ != seq!['.'] && seg@ != seq!['.', '.']);
        let ghost sv = seg@;
        comps.push(seg);
        assert(comps@.map_values(|v: Vec<char>| v@) =~= before.push(sv));
    }
}

/// Normalizes a path: drops `.` and empty components and lets each `..`
/// remove the component before it (never the root); see `spec_normalize_path`.
pub fn normalize_path(path: &str) -> (r: String)
    ensures
        r@ == spec_normalize_path(path@),
{
    let p = to_chars(path);
    let rooted = p.len() > 0 && p[0] == '/';
    let mut comps: Vec<Vec<char>> = Vec::new();
    let mut seg: Vec<char> = Vec::new();
    let mut i: usize = 0;
    assert(comps@.map_values(|v: Vec<char>| v@) =~= seq![]);
    while i < p.len()
        invariant
            i <= p@.len(),
            p@ == path@,
            rooted == (p@.len() > 0 && p@[0] == '/'),
            norm_scan(p@, i as int) == (NormPath { rooted, comps: comps@.map_values(|v: Vec<char>| v@) }, seg@),
        decreases p@.len() - i,
    {
        if p[i] == '/' {
            let s = seg;
            seg = Vec::new();
            norm_comp_exec(rooted, &mut comps, s);
            assert(seg@ =~= seq![]);
        } else {
            seg.push(p[i]);
        }
        i += 1;
    }
    norm_comp_exec(rooted, &mut comps, seg);
    let mut out: Vec<char> = Vec::new();
    if rooted {
        out.push('/');
    }
    let mut sep: Vec<char> = Vec::new();
    sep.push('/');
    let mut strs: Vec<String> = Vec::new();
    let mut k: usize = 0;
    while k < comps.len()
        invariant
            k <= comps@.len(),
            strs@.len() == k,
            forall|j: int| 0 <= j < k ==> #[trigger] strs@[j]@ == comps@[j]@,
        decreases comps@.len() - k,
    {
        strs.push(string_from_chars(&comps[k]));
        k += 1;
    }
    assert(views(strs@) =~= comps@.map_values(|v: Vec<char>| v@));
    let j = join_chars(&strs, &sep);
    append_chars(&mut out, &j);
    assert(out@ =~= (if rooted { seq!['/'] } else { seq![] }) + j@);
    string_from_chars(&out)
}


/// One character read by the normalization, from the state `st`.
pub open spec fn norm_step(st: (NormPath, Seq<char>), c: char) -> (NormPath, Seq<char>) {
    if c == '/' {
        (norm_comp(st.0, st.1), seq![])
    } else {
        (st.0, st.1.push(c))
    }
}

/// The characters of `s` read by the normalization, from the state `st`.
pub open spec fn norm_fold(st: (NormPath, Seq<char>), s: Seq<char>) -> (NormPath, Seq<char>)
    decreases s.len(),
{
    if s.len() == 0 {
        st
    } else {
        norm_step(norm_fold(st, s.drop_last()), s.last())
    }
}

/// A component the normalization keeps: not empty, no separator, neither
/// `.` nor `..`.
pub open spec fn clean_comp(c: Seq<char>) -> bool {
    c.len() > 0 && c != seq!['.'] && c != seq!['.', '.'] && forall|i: int| 0 <= i < c.len() ==> c[i] != '/'
}

/// All components are ones the normalization keeps.
pub open spec fn clean_comps(cs: Seq<Seq<char>>) -> bool {
    forall|i: int| 0 <= i < cs.len() ==> clean_comp(#[trigger] cs[i])
}

proof fn lemma_norm_scan_fold(p: Seq<char>, k: int)
    requires
        0 <= k <= p.len(),
    ensures
        norm_scan(p, k) == norm_fold((NormPath { rooted: p.len() > 0 && p[0] == '/', comps: seq![] }, seq![]), p.take(k)),
    decreases k,
{
    if k > 0 {
        lemma_norm_scan_fold(p, k - 1);
        assert(p.take(k).drop_last() =~= p.take(k - 1));
        assert(p.take(k).last() == p[k - 1]);
    } else {
        assert(p.take(0) =~= Seq::<char>::empty());
    }
}

proof fn lemma_norm_fold_append(st: (NormPath, Seq<char>), a: Seq<char>, b: Seq<char>)
    ensures
        norm_fold(st, a + b) == norm_fold(norm_fold(st, a), b),
    decreases b.len(),
{
    if b.len() == 0 {
        assert(a + b =~= a);
    } else {
        lemma_norm_fold_append(st, a, b.drop_last());
        assert((a + b).drop_last() =~= a + b.drop_last());
        assert((a + b).last() == b.last());
    }
}

proof fn lemma_norm_fold_word(n: NormPath, seg: Seq<char>, w: Seq<char>)
    requires
        forall|i: int| 0 <= i < w.len() ==> w[i] != '/',
    ensures
        norm_fold((n, seg), w) == (n, seg + w),
    decreases w.len(),
{
    if w.len() == 0 {
        assert(seg + w =~= seg);
    } else {
        lemma_norm_fold_word(n, seg, w.drop_last());
        assert((seg + w.drop_last()).push(w.last()) =~= seg + w);
    }
}

/// What reading the clean components `cs` joined by `/` leaves: all but the
/// last appended, the last being read.
proof fn lemma_norm_fold_join(n: NormPath, cs: Seq<Seq<char>>)
    requires
        clean_comps(cs),
        cs.len() > 0,
    ensures
        norm_fold((n, seq![]), join_with(cs, seq!['/'])) == (NormPath { comps: n.comps + cs.drop_last(), ..n }, cs.last()),
    decreases cs.len(),
{
    if cs.len() == 1 {
        assert(clean_comp(cs[0]));
        lemma_norm_fold_word(n, seq![], cs[0]);
        assert(seq![] + cs[0] =~= cs[0]);
        assert(n.comps + cs.drop_last() =~= n.comps);
    } else {
        let init = cs.drop_last();
        assert(clean_comps(init)) by {
            assert forall|i: int| 0 <= i < init.len() implies clean_comp(#[trigger] init[i]) by {
                assert(clean_comp(cs[i]));
            }
        }
        lemma_norm_fold_join(n, init);
        let j = join_with(init, seq!['/']);
        lemma_norm_fold_append((n, seq![]), j + seq!['/'], cs.last());
        lemma_norm_fold_append((n, seq![]), j, seq!['/']);
        let mid = norm_fold((n, seq![]), j);
        assert(seq!['/'].drop_last() =~= Seq::<char>::empty());
        assert(norm_fold(mid, Seq::<char>::empty()) == mid);
        assert(seq!['/'].last() == '/');
        assert(norm_fold(mid, seq!['/']) == norm_step(mid, '/'));
        assert(clean_comp(init[init.len() - 1]));
        let after = NormPath { comps: n.comps + init.drop_last() + seq![init.last()], ..n };
        assert((n.comps + init.drop_last()).push(init.last()) =~= n.comps + init.drop_last() + seq![init.last()]);
        assert(norm_comp(mid.0, mid.1) == after);
        assert(norm_step(mid, '/') == (after, Seq::<char>::empty()));
        assert(clean_comp(cs[cs.len() - 1]));
        lemma_norm_fold_word(after, seq![], cs.last());
        assert(seq![] + cs.last() =~= cs.last());
        assert(n.comps + init.drop_last() + seq![init.last()] =~= n.comps + cs.drop_last());
    }
}

/// Normalizing the text of clean components gives that text back.
proof fn lemma_norm_text_fixed(n: NormPath)
    requires
        n.comps.len() == 0 || clean_comps(n.comps),
    ensures
        spec_normalize_path(norm_text(n)) == norm_text(n),
{
    let t = norm_text(n);
    let j = join_with(n.comps, seq!['/']);
    let pre: Seq<char> = if n.rooted { seq!['/'] } else { seq![] };
    assert(t == pre + j);
    let e = NormPath { rooted: n.rooted, comps: seq![] };
    if n.comps.len() > 0 {
        assert(clean_comp(n.comps[0]));
        lemma_join_first(n.comps);
    }
    assert(t.len() > 0 && t[0] == '/' <==> n.rooted);
    lemma_norm_scan_fold(t, t.len() as int);
    assert(t.take(t.len() as int) =~= t);
    lemma_norm_fold_append((e, seq![]), pre, j);
    if n.rooted {
        assert(seq!['/'].drop_last() =~= Seq::<char>::empty());
        assert(norm_fold((e, seq![]), Seq::<char>::empty()) == (e, Seq::<char>::empty()));
        assert(pre.last() == '/');
        assert(norm_fold((e, seq![]), pre) == norm_step((e, seq![]), '/'));
    } else {
        assert(norm_fold((e, seq![]), pre) == (e, Seq::<char>::empty()));
    }
    if n.comps.len() > 0 {
        lemma_norm_fold_join(e, n.comps);
        assert(e.comps + n.comps.drop_last() =~= n.comps.drop_last());
        assert(n.comps.drop_last().push(n.comps.last()) =~= n.comps);
        assert(clean_comp(n.comps[n.comps.len() - 1]));
    } else {
        assert(j =~= Seq::<char>::empty());
        assert(n.comps =~= Seq::<Seq<char>>::empty());
    }
}

/// The joined text of components starts with the first component.
proof fn lemma_join_first(cs: Seq<Seq<char>>)
    requires
        cs.len() > 0,
        cs[0].len() > 0,
    ensures
        join_with(cs, seq!['/']).len() > 0,
        join_with(cs, seq!['/'])[0] == cs[0][0],
    decreases cs.len(),
{
    if cs.len() > 1 {
        lemma_join_first(cs.drop_last());
    }
}

proof fn lemma_norm_fold_clean(st: (NormPath, Seq<char>), s: Seq<char>)
    requires
        clean_comps(st.0.comps),
        forall|i: int| 0 <= i < st.1.len() ==> st.1[i] != '/',
    ensures
        clean_comps(norm_fold(st, s).0.comps),
        forall|i: int| 0 <= i < norm_fold(st, s).1.len() ==> norm_fold(st, s).1[i] != '/',
    decreases s.len(),
{
    if s.len() > 0 {
        lemma_norm_fold_clean(st, s.drop_last());
        let r = norm_fold(st, s.drop_last());
        lemma_norm_comp_clean(r.0, r.1);
        if s.last() != '/' {
            assert forall|i: int| 0 <= i < r.1.push(s.last()).len() implies r.1.push(s.last())[i] != '/' by {
                if i < r.1.len() {
                    assert(r.1[i] != '/');
                }
            }
        }
    }
}

proof fn lemma_norm_comp_clean(n: NormPath, seg: Seq<char>)
    requires
        clean_comps(n.comps),
        forall|i: int| 0 <= i < seg.len() ==> seg[i] != '/',
    ensures
        clean_comps(norm_comp(n, seg).comps),
{
    let r = norm_comp(n, seg);
    if seg.len() == 0 || seg == seq!['.'] {
    } else if seg == seq!['.', '.'] {
        if n.comps.len() > 0 {
            assert forall|i: int| 0 <= i < r.comps.len() implies clean_comp(#[trigger] r.comps[i]) by {
                assert(r.comps[i] == n.comps[i]);
            }
        }
    } else {
        assert forall|i: int| 0 <= i < r.comps.len() implies clean_comp(#[trigger] r.comps[i]) by {
            if i < n.comps.len() {
                assert(r.comps[i] == n.comps[i]);
            } else {
                assert(r.comps[i] == seg);
            }
        }
    }
}

/// Normalizing a normalized path changes nothing.
pub proof fn law_normalize_idempotent(p: Seq<char>)
    ensures
        spec_normalize_path(spec_normalize_path(p)) == spec_normalize_path(p),
{
    let e = NormPath { rooted: p.len() > 0 && p[0] == '/', comps: seq![] };
    lemma_norm_scan_fold(p, p.len() as int);
    lemma_norm_fold_clean((e, seq![]), p.take(p.len() as int));
    let (n, seg) = norm_scan(p, p.len() as int);
    lemma_norm_comp_clean(n, seg);
    lemma_norm_text_fixed(norm_comp(n, seg));
}


/// No `.` or `..` component stays after normalizing: the result is the
/// text of a path whose components are all kept ones (not empty, no
/// separator, neither `.` nor `..`), starting at the root exactly when `p`
/// does.
pub proof fn law_normalize_leaves_no_dots(p: Seq<char>)
    ensures
        exists|n: NormPath| #![trigger norm_text(n)]
            clean_comps(n.comps) && n.rooted == (p.len() > 0 && p[0] == '/') && spec_normalize_path(p) == norm_text(n),
{
    let e = NormPath { rooted: p.len() > 0 && p[0] == '/', comps: seq![] };
    lemma_norm_scan_fold(p, p.len() as int);
    lemma_norm_fold_clean((e, seq![]), p.take(p.len() as int));
    let (n, seg) = norm_scan(p, p.len() as int);
    lemma_norm_comp_clean(n, seg);
    lemma_norm_scan_rooted(p, p.len() as int);
    let r = norm_comp(n, seg);
    assert(spec_normalize_path(p) == norm_text(r));
}

proof fn lemma_norm_scan_rooted(p: Seq<char>, k: int)
    requires
        0 <= k <= p.len(),
    ensures
        norm_scan(p, k).0.rooted == (p.len() > 0 && p[0] == '/'),
    decreases k,
{
    if k > 0 {
        lemma_norm_scan_rooted(p, k - 1);
    }
}

} // verus!
