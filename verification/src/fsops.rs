//! The script functions over files: filtering a list of files, listing files
//! by a pattern, copying, moving, creating and removing.
use vstd::prelude::*;
use crate::block::{opt_view, tree_wf, GenBlockTup};
use crate::effects::one;
use crate::io::{request, req, Halt, HaltView, IoAnswer, IoAnswerView, IoKind};
use crate::lex::{vv_array, VarType, VarVal, VarValView};
use crate::machine::{
    cwd_or_empty, evolves, lemma_evolves_trans, res_view, rooted, rooted_exec, s_ask, s_cwd, s_lookup, s_param,
    s_tmpl, under, under_exec, Machine, MView, Res,
};
use crate::strops::{bytes_len, bytes_len_exec};
use crate::text::{
    chars_eq, ends_with, first_index_of, slice_chars, spec_ends_with, spec_starts_with, starts_with, to_chars,
};
use crate::strops::find;
use crate::util::{push_string, views};

verus! {

/// A file name matches a filter: equal to it, or, with a star in the filter,
/// starting with the part before the (first) star, ending with the part
/// after it, and long enough to hold both.
pub open spec fn name_matches(name: Seq<char>, filter: Seq<char>) -> bool {
    match first_index_of(filter, '*') {
        None => name == filter,
        Some(pos) => {
            let head = filter.take(pos);
            let tail = filter.skip(pos + 1);
            spec_starts_with(name, head) && spec_ends_with(name, tail) && name.len() >= head.len() + tail.len()
        },
    }
}

/// One of the filters `fs[k..]` matches the name.
pub open spec fn any_match(name: Seq<char>, fs: Seq<Seq<char>>, k: int) -> bool
    decreases fs.len() - k,
{
    if k < 0 || k >= fs.len() {
        false
    } else {
        name_matches(name, fs[k]) || any_match(name, fs, k + 1)
    }
}

/// The interpolations of `ps[k..]`, after `acc`.
pub open spec fn s_tmpl_list(m: MView, b: int, ps: Seq<Seq<char>>, k: int, acc: Seq<Seq<char>>, prev: Option<VarValView>) -> Result<Seq<Seq<char>>, HaltView>
    decreases ps.len() - k,
{
    if k < 0 || k >= ps.len() {
        Ok(acc)
    } else {
        match s_tmpl(m, b, ps[k], prev) {
            Err(h) => Err(h),
            Ok(t) => s_tmpl_list(m, b, ps, k + 1, acc.push(t), prev),
        }
    }
}

/// The files of `files[k..]` (interpolated, made absolute with `cwd`) that
/// exist and whose name no filter matches, after `acc`.
pub open spec fn s_filter_from(m: MView, b: int, files: Seq<Seq<char>>, k: int, filters: Seq<Seq<char>>, cwd: Seq<char>, prev: Option<VarValView>, acc: Seq<Seq<char>>) -> (MView, Result<Seq<Seq<char>>, HaltView>)
    decreases files.len() - k,
{
    if k < 0 || k >= files.len() {
        (m, Ok(acc))
    } else {
        match s_tmpl(m, b, files[k], prev) {
            Err(h) => (m, Err(h)),
            Ok(f) => {
                let (m2, a) = s_ask(m, req(IoKind::FileName, seq![under(f, cwd)]));
                match a {
                    Err(h) => (m2, Err(h)),
                    Ok(IoAnswerView::Text(name)) => s_filter_from(m2, b, files, k + 1, filters, cwd, prev,
                        if any_match(name, filters, 0) { acc } else { acc.push(files[k]) }),
                    Ok(IoAnswerView::Missing) => s_filter_from(m2, b, files, k + 1, filters, cwd, prev, acc),
                    Ok(_) => (m2, Err(HaltView::BadAnswer)),
                }
            },
        }
    }
}

/// A list result as an array value.
pub open spec fn wrap_arr(p: (MView, Result<Seq<Seq<char>>, HaltView>)) -> (MView, Result<Option<VarValView>, HaltView>) {
    (p.0, match p.1 {
        Ok(v) => Ok(Some(vv_array(v))),
        Err(h) => Err(h),
    })
}

/// `filter(array, pattern…)`: the elements of the array variable naming
/// existing files whose names match none of the patterns.
pub open spec fn sb_filter(m: MView, b: int, prev: Option<VarValView>) -> (MView, Result<Option<VarValView>, HaltView>) {
    let blk = m.tree[b];
    if blk.params.len() == 0 {
        (m, Err(HaltView::Panic(blk.script_line)))
    } else {
        match s_lookup(m, b, blk.params[0], prev) {
            Some(v) => if v.val_type == VarType::Array {
                match s_tmpl_list(m, b, blk.params, 1, seq![], prev) {
                    Err(h) => (m, Err(h)),
                    Ok(filters) => wrap_arr(s_filter_from(m, b, v.values, 0, filters, cwd_or_empty(m, b), prev, seq![])),
                }
            } else {
                (m, Ok(None))
            },
            None => (m, Ok(None)),
        }
    }
}

/// The files matching the patterns `params[k..]` (made absolute), after `acc`.
pub open spec fn s_files_from(m: MView, b: int, n: int, k: int, acc: Seq<Seq<char>>, prev: Option<VarValView>) -> (MView, Result<Seq<Seq<char>>, HaltView>)
    decreases n - k,
{
    if k < 0 || k >= n {
        (m, Ok(acc))
    } else {
        match s_param(m, b, k, prev) {
            Err(h) => (m, Err(h)),
            Ok(f) => {
                let file = rooted(f, s_cwd(m, b));
                if file.len() == 0 {
                    (m, Err(HaltView::Panic(m.tree[b].script_line)))
                } else {
                    let (m2, a) = s_ask(m, req(IoKind::Glob, seq![file]));
                    match a {
                        Err(h) => (m2, Err(h)),
                        Ok(IoAnswerView::Texts(v)) => s_files_from(m2, b, n, k + 1, acc + v, prev),
                        Ok(_) => (m2, Err(HaltView::BadAnswer)),
                    }
                }
            },
        }
    }
}

/// `files(pattern…)`: the files matching the patterns.
pub open spec fn sb_files(m: MView, b: int, prev: Option<VarValView>) -> (MView, Result<Option<VarValView>, HaltView>) {
    wrap_arr(s_files_from(m, b, m.tree[b].params.len() as int, 0, seq![], prev))
}

/// The pairs `params[i], params[i+1]`, … copied (or moved, by `kind`), after
/// `acc`: each destination as it was written.
pub open spec fn s_copy_from(m: MView, b: int, n: int, i: int, acc: Seq<Seq<char>>, cwd: Seq<char>, prev: Option<VarValView>, kind: IoKind) -> (MView, Result<Seq<Seq<char>>, HaltView>)
    decreases n + 1 - i,
{
    if i < 0 || i >= n {
        (m, Ok(acc))
    } else {
        match s_param(m, b, i, prev) {
            Err(h) => (m, Err(h)),
            Ok(f) => match s_param(m, b, i + 1, prev) {
                Err(h) => (m, Err(h)),
                Ok(t) => {
                    let from = under(f, cwd);
                    let to = under(t, cwd);
                    if from.len() > 0 && to.len() > 0 {
                        let (m2, a) = s_ask(m, req(kind, seq![from, to]));
                        match a {
                            Err(h) => (m2, Err(h)),
                            Ok(IoAnswerView::Text(fin)) => s_copy_from(m2, b, n, i + 2, acc.push(fin), cwd, prev, kind),
                            Ok(IoAnswerView::Missing) => s_copy_from(m2, b, n, i + 2, acc, cwd, prev, kind),
                            Ok(_) => (m2, Err(HaltView::BadAnswer)),
                        }
                    } else {
                        s_copy_from(m, b, n, i + 2, acc, cwd, prev, kind)
                    }
                },
            },
        }
    }
}

/// `cp(from, to, …)` (`kind` `Copy`) / `mv` (`kind` `Rename`): the
/// destinations of the files copied or moved.
pub open spec fn sb_copy(m: MView, b: int, prev: Option<VarValView>, kind: IoKind) -> (MView, Result<Option<VarValView>, HaltView>) {
    wrap_arr(s_copy_from(m, b, m.tree[b].params.len() as int, 0, seq![], cwd_or_empty(m, b), prev, kind))
}

/// The non-empty paths `params[k..]` (made absolute) for which the request
/// `kind` succeeded, after `acc`.
pub open spec fn s_paths_from(m: MView, b: int, n: int, k: int, acc: Seq<Seq<char>>, cwd: Seq<char>, prev: Option<VarValView>, kind: IoKind) -> (MView, Result<Seq<Seq<char>>, HaltView>)
    decreases n - k,
{
    if k < 0 || k >= n {
        (m, Ok(acc))
    } else {
        match s_param(m, b, k, prev) {
            Err(h) => (m, Err(h)),
            Ok(f) => if f.len() == 0 {
                s_paths_from(m, b, n, k + 1, acc, cwd, prev, kind)
            } else {
                let p = under(f, cwd);
                let (m2, a) = s_ask(m, req(kind, seq![p]));
                match a {
                    Err(h) => (m2, Err(h)),
                    Ok(IoAnswerView::Flag(ok)) => s_paths_from(m2, b, n, k + 1, if ok { acc.push(p) } else { acc }, cwd, prev, kind),
                    Ok(_) => (m2, Err(HaltView::BadAnswer)),
                }
            },
        }
    }
}

/// `mkd(dir…)`, `rm(file…)`, `rmdir(dir…)`, `rmdira(dir…)` (by `kind`): the
/// paths for which the operation succeeded.
pub open spec fn sb_paths(m: MView, b: int, prev: Option<VarValView>, kind: IoKind) -> (MView, Result<Option<VarValView>, HaltView>) {
    wrap_arr(s_paths_from(m, b, m.tree[b].params.len() as int, 0, seq![], cwd_or_empty(m, b), prev, kind))
}

/// Whether the name matches the filter (see `name_matches`).
pub fn name_matches_exec(name: &Vec<char>, filter: &Vec<char>) -> (r: bool)
    ensures
        r == name_matches(name@, filter@),
{
    match find(filter, '*') {
        None => chars_eq(name, filter),
        Some(pos) => {
            let head = slice_chars(filter, 0, pos);
            assert(head@ =~= filter@.take(pos as int));
            let tail = slice_chars(filter, pos + 1, filter.len());
            assert(tail@ =~= filter@.skip(pos + 1));
            starts_with(name, &head) && ends_with(name, &tail) && name.len() >= head.len() + tail.len()
        },
    }
}

/// Whether a filter of `fs` matches the name.
pub fn any_match_exec(name: &Vec<char>, fs: &Vec<String>) -> (r: bool)
    ensures
        r == any_match(name@, views(fs@), 0),
{
    let mut k: usize = 0;
    while k < fs.len()
        invariant
            k <= fs@.len(),
            any_match(name@, views(fs@), k as int) == any_match(name@, views(fs@), 0),
        decreases fs@.len() - k,
    {
        let f = to_chars(fs[k].as_str());
        if name_matches_exec(name, &f) {
            return true;
        }
        k += 1;
    }
    false
}

impl Machine {
    /// The interpolations of `ps` (see `s_tmpl_list`).
    pub fn tmpl_list(&self, b: GenBlockTup, ps: &Vec<String>, from: usize, prev: &Option<VarVal>) -> (r: Result<Vec<String>, Halt>)
        requires
            tree_wf(self.tree@),
            b.0 < self.tree@.len(),
        ensures
            match r {
                Ok(v) => s_tmpl_list(self@, b.0 as int, views(ps@), from as int, seq![], opt_view(*prev)) == Ok::<Seq<Seq<char>>, HaltView>(views(v@)),
                Err(h) => s_tmpl_list(self@, b.0 as int, views(ps@), from as int, seq![], opt_view(*prev)) == Err::<Seq<Seq<char>>, HaltView>(h@),
            },
    {
        let mut acc: Vec<String> = Vec::new();
        let mut k = from;
        assert(views(acc@) =~= seq![]);
        while k < ps.len()
            invariant
                tree_wf(self.tree@),
                b.0 < self.tree@.len(),
                from <= k || ps@.len() <= k,
                s_tmpl_list(self@, b.0 as int, views(ps@), k as int, views(acc@), opt_view(*prev))
                    == s_tmpl_list(self@, b.0 as int, views(ps@), from as int, seq![], opt_view(*prev)),
            decreases ps@.len() - k,
        {
            match self.tmpl(b, ps[k].as_str(), prev) {
                Err(h) => { return Err(h); },
                Ok(t) => { push_string(&mut acc, t); },
            }
            k += 1;
        }
        Ok(acc)
    }

    /// See `sb_filter`.
    pub fn b_filter(&mut self, b: GenBlockTup, prev: &Option<VarVal>) -> (r: Res)
        requires
            tree_wf(old(self).tree@),
            b.0 < old(self).tree@.len(),
        ensures
            (final(self)@, res_view(r)) == sb_filter(old(self)@, b.0 as int, opt_view(*prev)),
            evolves(old(self)@, final(self)@),
    {
        let blk = &self.tree.blocks[b.0];
        assert(self.tree@[b.0 as int] == blk@);
        if blk.params.len() == 0 {
            return Err(Halt::Panic(blk.script_line));
        }
        let p0 = blk.params[0].clone();
        let ps = blk.params.clone();
        assert(views(ps@) == blk@.params);
        let v = match self.lookup(b, p0.as_str(), prev) {
            Some(v) => v,
            None => { return Ok(None); },
        };
        if v.val_type != VarType::Array {
            return Ok(None);
        }
        let filters = match self.tmpl_list(b, &ps, 1, prev) {
            Err(h) => { return Err(h); },
            Ok(f) => f,
        };
        let cwd = self.cwd_or_empty(b);
        let mut kept: Vec<String> = Vec::new();
        let mut k: usize = 0;
        assert(views(kept@) =~= seq![]);
        while k < v.values.len()
            invariant
                tree_wf(self.tree@),
                b.0 < self.tree@.len(),
                evolves(old(self)@, self@),
                k <= v.values@.len(),
                sb_filter(old(self)@, b.0 as int, opt_view(*prev))
                    == wrap_arr(s_filter_from(self@, b.0 as int, v@.values, k as int, views(filters@), cwd@, opt_view(*prev), views(kept@))),
            decreases v.values@.len() - k,
        {
            let f = match self.tmpl(b, v.values[k].as_str(), prev) {
                Err(h) => { return Err(h); },
                Ok(t) => t,
            };
            let ghost m1 = self@;
            let path = under_exec(f, &cwd);
            let a = self.ask(request(IoKind::FileName, one(path)));
            proof { lemma_evolves_trans(old(self)@, m1, self@); }
            match a {
                Err(h) => { return Err(h); },
                Ok(IoAnswer::Text(name)) => {
                    let nc = to_chars(name.as_str());
                    if !any_match_exec(&nc, &filters) {
                        push_string(&mut kept, v.values[k].clone());
                    }
                },
                Ok(IoAnswer::Missing) => {},
                Ok(_) => { return Err(Halt::BadAnswer); },
            }
            k += 1;
        }
        Ok(Some(VarVal::from_vec(&kept)))
    }

    /// See `sb_files`.
    pub fn b_files(&mut self, b: GenBlockTup, prev: &Option<VarVal>) -> (r: Res)
        requires
            tree_wf(old(self).tree@),
            b.0 < old(self).tree@.len(),
        ensures
            (final(self)@, res_view(r)) == sb_files(old(self)@, b.0 as int, opt_view(*prev)),
            evolves(old(self)@, final(self)@),
    {
        let n = self.tree.blocks[b.0].params.len();
        let line = self.tree.blocks[b.0].script_line;
        assert(self.tree@[b.0 as int] == self.tree.blocks@[b.0 as int]@);
        let mut acc: Vec<String> = Vec::new();
        let mut k: usize = 0;
        assert(views(acc@) =~= seq![]);
        while k < n
            invariant
                tree_wf(self.tree@),
                b.0 < self.tree@.len(),
                evolves(old(self)@, self@),
                line == self@.tree[b.0 as int].script_line,
                n == self@.tree[b.0 as int].params.len(),
                k <= n,
                sb_files(old(self)@, b.0 as int, opt_view(*prev))
                    == wrap_arr(s_files_from(self@, b.0 as int, n as int, k as int, views(acc@), opt_view(*prev))),
            decreases n - k,
        {
            let f = match b.parameter(self, k, prev) {
                Err(h) => { return Err(h); },
                Ok(t) => t,
            };
            let cwd = self.cwd(b);
            let file = rooted_exec(f, &cwd);
            if file.as_str().is_empty() {
                return Err(Halt::Panic(line));
            }
            let ghost m1 = self@;
            let a = self.ask(request(IoKind::Glob, one(file)));
            proof { lemma_evolves_trans(old(self)@, m1, self@); }
            match a {
                Err(h) => { return Err(h); },
                Ok(IoAnswer::Texts(v)) => {
                    let ghost a0 = views(acc@);
                    let mut i: usize = 0;
                    while i < v.len()
                        invariant
                            i <= v@.len(),
                            views(acc@) == a0 + views(v@).take(i as int),
                        decreases v@.len() - i,
                    {
                        push_string(&mut acc, v[i].clone());
                        i += 1;
                        assert(views(acc@) =~= a0 + views(v@).take(i as int));
                    }
                    assert(views(v@).take(i as int) =~= views(v@));
                },
                Ok(_) => { return Err(Halt::BadAnswer); },
            }
            k += 1;
        }
        Ok(Some(VarVal::from_vec(&acc)))
    }

    /// See `sb_copy`.
    pub fn b_copy(&mut self, b: GenBlockTup, prev: &Option<VarVal>, kind: IoKind) -> (r: Res)
        requires
            tree_wf(old(self).tree@),
            b.0 < old(self).tree@.len(),
        ensures
            (final(self)@, res_view(r)) == sb_copy(old(self)@, b.0 as int, opt_view(*prev), kind),
            evolves(old(self)@, final(self)@),
    {
        let n = self.tree.blocks[b.0].params.len();
        assert(self.tree@[b.0 as int] == self.tree.blocks@[b.0 as int]@);
        let cwd = self.cwd_or_empty(b);
        let mut acc: Vec<String> = Vec::new();
        let mut i: usize = 0;
        assert(views(acc@) =~= seq![]);
        while i < n
            invariant
                tree_wf(self.tree@),
                b.0 < self.tree@.len(),
                evolves(old(self)@, self@),
                i <= n,
                n == self@.tree[b.0 as int].params.len(),
                sb_copy(old(self)@, b.0 as int, opt_view(*prev), kind)
                    == wrap_arr(s_copy_from(self@, b.0 as int, n as int, i as int, views(acc@), cwd@, opt_view(*prev), kind)),
            decreases n - i,
        {
            let f = match b.parameter(self, i, prev) { Err(h) => { return Err(h); }, Ok(t) => t };
            let t = match b.parameter(self, i + 1, prev) { Err(h) => { return Err(h); }, Ok(t) => t };
            let from = under_exec(f, &cwd);
            let to = under_exec(t, &cwd);
            if !from.as_str().is_empty() && !to.as_str().is_empty() {
                let ghost m1 = self@;
                let a = self.ask(request(kind, crate::effects::two(from, to)));
                proof { lemma_evolves_trans(old(self)@, m1, self@); }
                match a {
                    Err(h) => { return Err(h); },
                    Ok(IoAnswer::Text(fin)) => { push_string(&mut acc, fin); },
                    Ok(IoAnswer::Missing) => {},
                    Ok(_) => { return Err(Halt::BadAnswer); },
                }
            }
            if n - i <= 2 {
                assert(s_copy_from(self@, b.0 as int, n as int, i + 2, views(acc@), cwd@, opt_view(*prev), kind)
                    == s_copy_from(self@, b.0 as int, n as int, n as int, views(acc@), cwd@, opt_view(*prev), kind));
                i = n;
            } else {
                i += 2;
            }
        }
        Ok(Some(VarVal::from_vec(&acc)))
    }

    /// See `sb_paths`.
    pub fn b_paths(&mut self, b: GenBlockTup, prev: &Option<VarVal>, kind: IoKind) -> (r: Res)
        requires
            tree_wf(old(self).tree@),
            b.0 < old(self).tree@.len(),
        ensures
            (final(self)@, res_view(r)) == sb_paths(old(self)@, b.0 as int, opt_view(*prev), kind),
            evolves(old(self)@, final(self)@),
    {
        let n = self.tree.blocks[b.0].params.len();
        assert(self.tree@[b.0 as int] == self.tree.blocks@[b.0 as int]@);
        let cwd = self.cwd_or_empty(b);
        let mut acc: Vec<String> = Vec::new();
        let mut k: usize = 0;
        assert(views(acc@) =~= seq![]);
        while k < n
            invariant
                tree_wf(self.tree@),
                b.0 < self.tree@.len(),
                evolves(old(self)@, self@),
                k <= n,
                n == self@.tree[b.0 as int].params.len(),
                sb_paths(old(self)@, b.0 as int, opt_view(*prev), kind)
                    == wrap_arr(s_paths_from(self@, b.0 as int, n as int, k as int, views(acc@), cwd@, opt_view(*prev), kind)),
            decreases n - k,
        {
            let f = match b.parameter(self, k, prev) { Err(h) => { return Err(h); }, Ok(t) => t };
            if !f.as_str().is_empty() {
                let p = under_exec(f, &cwd);
                let pc = p.clone();
                let ghost m1 = self@;
                let a = self.ask(request(kind, one(pc)));
                proof { lemma_evolves_trans(old(self)@, m1, self@); }
                match a {
                    Err(h) => { return Err(h); },
                    Ok(IoAnswer::Flag(ok)) => if ok {
                        push_string(&mut acc, p);
                    },
                    Ok(_) => { return Err(Halt::BadAnswer); },
                }
            }
            k += 1;
        }
        Ok(Some(VarVal::from_vec(&acc)))
    }
}

} // verus!
