//! What the walks over directories decide: which names a file mask with a
//! star accepts, which of two modification times is kept as the newest,
//! and the names of the files compared with each other.
use vstd::prelude::*;
use crate::strops::{bytes_len, bytes_len_exec, find};
use crate::text::{
    append_chars, ends_with, first_index_of, slice_chars, spec_ends_with, spec_starts_with, starts_with, string_from_chars,
    to_chars,
};

verus! {

/// The parts of a file mask around its first `*`: what an accepted name
/// starts with and what it ends with, each absent when the star stands at
/// that end; `None` when the mask has no star.
pub open spec fn star_mask(f: Seq<char>) -> Option<(Option<Seq<char>>, Option<Seq<char>>)> {
    match first_index_of(f, '*') {
        None => None,
        Some(pos) => if pos == 0 {
            Some((None, Some(f.skip(1))))
        } else if f[f.len() - 1] == '*' {
            Some((Some(f.take(pos)), None))
        } else {
            Some((Some(f.take(pos)), Some(f.skip(pos + 1))))
        },
    }
}

/// Splits a file mask at its first star (see `star_mask`).
pub fn split_star_mask(f: &str) -> (r: Option<(Option<String>, Option<String>)>)
    ensures
        match star_mask(f@) {
            None => r is None,
            Some((s, e)) => r matches Some((rs, re)) && (match rs {
                Some(x) => s == Some(x@),
                None => s is None,
            }) && (match re {
                Some(x) => e == Some(x@),
                None => e is None,
            }),
        },
{
    let fc = to_chars(f);
    match find(&fc, '*') {
        None => None,
        Some(pos) => {
            if pos == 0 {
                let t = slice_chars(&fc, 1, fc.len());
                assert(t@ =~= fc@.skip(1));
                Some((None, Some(string_from_chars(&t))))
            } else if fc[fc.len() - 1] == '*' {
                let h = slice_chars(&fc, 0, pos);
                assert(h@ =~= fc@.take(pos as int));
                Some((Some(string_from_chars(&h)), None))
            } else {
                let h = slice_chars(&fc, 0, pos);
                assert(h@ =~= fc@.take(pos as int));
                let t = slice_chars(&fc, pos + 1, fc.len());
                assert(t@ =~= fc@.skip(pos + 1));
                Some((Some(string_from_chars(&h)), Some(string_from_chars(&t))))
            }
        },
    }
}

/// A name is accepted by the parts of a mask: it starts with the start
/// part, when there is one, and ends with the end part, when there is one.
pub open spec fn mask_accepts(name: Seq<char>, start: Option<Seq<char>>, end: Option<Seq<char>>) -> bool {
    (match start {
        Some(s) => spec_starts_with(name, s),
        None => true,
    }) && (match end {
        Some(e) => spec_ends_with(name, e),
        None => true,
    })
}

/// Whether the parts of a mask accept the name (see `mask_accepts`).
pub fn accepts(name: &str, start: &Option<String>, end: &Option<String>) -> (r: bool)
    ensures
        r == mask_accepts(
            name@,
            match start {
                Some(s) => Some(s@),
                None => None,
            },
            match end {
                Some(e) => Some(e@),
                None => None,
            },
        ),
{
    let nc = to_chars(name);
    let a = match start {
        Some(s) => starts_with(&nc, &to_chars(s.as_str())),
        None => true,
    };
    let b = match end {
        Some(e) => ends_with(&nc, &to_chars(e.as_str())),
        None => true,
    };
    a && b
}

/// A file name counts towards the newest file of a mask with a star: the
/// mask is the star alone; or the name ends with what follows a leading
/// star; or it starts with what precedes a trailing star; or it starts with
/// what precedes the first star, ends with what follows it, and is no
/// shorter, in bytes, than the mask.
pub open spec fn newest_accepts(name: Seq<char>, mask: Seq<char>) -> bool {
    match first_index_of(mask, '*') {
        None => false,
        Some(k) => mask.len() == 1 || (k == 0 && spec_ends_with(name, mask.skip(1))) || (k == mask.len() - 1
            && spec_starts_with(name, mask.take(k))) || (spec_starts_with(name, mask.take(k)) && spec_ends_with(
            name,
            mask.skip(k + 1),
        ) && bytes_len(name) >= bytes_len(mask)),
    }
}

/// Whether the file name counts towards the newest file of the mask (see
/// `newest_accepts`).
pub fn newest_accepts_exec(name: &str, mask: &str) -> (r: bool)
    ensures
        r == newest_accepts(name@, mask@),
{
    let nc = to_chars(name);
    let mc = to_chars(mask);
    match find(&mc, '*') {
        None => false,
        Some(k) => {
            if mc.len() == 1 {
                return true;
            }
            let head = slice_chars(&mc, 0, k);
            assert(head@ =~= mc@.take(k as int));
            let tail = slice_chars(&mc, k + 1, mc.len());
            assert(tail@ =~= mc@.skip(k + 1));
            if k == 0 && ends_with(&nc, &tail) {
                return true;
            }
            if k == mc.len() - 1 && starts_with(&nc, &head) {
                return true;
            }
            starts_with(&nc, &head) && ends_with(&nc, &tail) && bytes_len_exec(&nc) >= bytes_len_exec(&mc)
        },
    }
}

/// The newest of the modification times seen so far and the next one: the
/// next one when none was seen, or when it is later; a missing next one
/// changes nothing.
pub open spec fn newer_of(last: Option<u128>, cur: Option<u128>) -> Option<u128> {
    match last {
        None => cur,
        Some(t) => match cur {
            Some(t2) => if t2 > t { cur } else { last },
            None => last,
        },
    }
}

/// Keeps the newest of two modification times (see `newer_of`).
pub fn keep_newer(last: Option<u128>, cur: Option<u128>) -> (r: Option<u128>)
    ensures
        r == newer_of(last, cur),
{
    match last {
        None => cur,
        Some(t) => match cur {
            Some(t2) => if t2 > t { cur } else { last },
            None => last,
        },
    }
}

/// The file a file of the first tree of `newerthan` is compared with: the
/// same name in `dir2`, with the extension `ext1` replaced by `ext2`.
pub open spec fn counterpart(dir2: Seq<char>, name: Seq<char>, ext1: Seq<char>, ext2: Seq<char>) -> Seq<char> {
    dir2 + seq!['/'] + name.take(name.len() - ext1.len()) + ext2
}

/// The counterpart of a file name (see `counterpart`).
pub fn counterpart_exec(dir2: &str, name: &str, ext1: &str, ext2: &str) -> (r: String)
    requires
        spec_ends_with(name@, ext1@),
    ensures
        r@ == counterpart(dir2@, name@, ext1@, ext2@),
{
    let mut out = to_chars(dir2);
    out.push('/');
    let nc = to_chars(name);
    let e1 = to_chars(ext1);
    let stem = slice_chars(&nc, 0, nc.len() - e1.len());
    assert(stem@ =~= name@.take(name@.len() - ext1@.len()));
    append_chars(&mut out, &stem);
    append_chars(&mut out, &to_chars(ext2));
    assert(out@ =~= counterpart(dir2@, name@, ext1@, ext2@));
    string_from_chars(&out)
}

/// A pattern of `files`: a trailing `/` asks for the subdirectories too and
/// is dropped.
pub open spec fn glob_target(file: Seq<char>) -> (Seq<char>, bool) {
    if file.len() > 0 && file[file.len() - 1] == '/' {
        (file.drop_last(), true)
    } else {
        (file, false)
    }
}

/// Splits a pattern of `files` (see `glob_target`). The pattern `/` alone
/// is left out: nothing stays of it.
pub fn glob_target_exec(file: &str) -> (r: (String, bool))
    requires
        file@ != seq!['/'],
    ensures
        (r.0@, r.1) == glob_target(file@),
{
    let fc = to_chars(file);
    if fc.len() > 0 && fc[fc.len() - 1] == '/' {
        let h = slice_chars(&fc, 0, fc.len() - 1);
        assert(h@ =~= fc@.drop_last());
        (string_from_chars(&h), true)
    } else {
        (string_from_chars(&fc), false)
    }
}

} // verus!
