//! `zip`: building the request for an archive from the options of the call.
use vstd::prelude::*;
use crate::block::{opt_view, tree_wf, GenBlockTup};
use crate::io::{zip_views, Halt, HaltView, IoAnswer, IoAnswerView, IoKind, IoRequest, IoRequestView, ZipKind, ZipOp, ZipOpView};
use crate::lex::{vv_text, VarType, VarVal, VarValView};
use crate::machine::{
    evolves, lemma_evolves_trans, res_view, rooted, rooted_exec, s_ask, s_cwd, s_expand, s_lookup, s_param, s_tmpl,
    Machine, MView, Res,
};
use crate::strops::{byte_slice, byte_slice_exec, bytes_len, bytes_len_exec, spec_trim_start, trim_start};
use crate::text::{spec_starts_with, string_from_chars, to_chars, append_chars};
use crate::builtins::starts_lit;
use crate::util::{push_string, views};

verus! {

/// The text of an option after its first three bytes; `None` where std's
/// slicing panics.
pub open spec fn after_option(op: Seq<char>) -> Option<Seq<char>> {
    byte_slice(op, 3, bytes_len(op))
}

/// The archive path of a `-C`/`-B` option: the text after `-C ` when there
/// is any. `Err` where std's slicing panics.
pub open spec fn option_path(op: Seq<char>) -> Result<Option<Seq<char>>, ()> {
    if bytes_len(op) > 3 {
        match after_option(op) {
            Some(p) => Ok(Some(p)),
            None => Err(()),
        }
    } else {
        Ok(None)
    }
}

/// The entries of a `-B` option from `vals[k..]`: each interpolated and
/// made absolute, after `acc`.
pub open spec fn s_zip_entries(m: MView, b: int, vals: Seq<Seq<char>>, k: int, acc: Seq<Seq<char>>, cwd: Option<Seq<char>>, prev: Option<VarValView>) -> Result<Seq<Seq<char>>, HaltView>
    decreases vals.len() - k,
{
    if k < 0 || k >= vals.len() {
        Ok(acc)
    } else {
        match s_tmpl(m, b, vals[k], prev) {
            Err(h) => Err(h),
            Ok(t) => s_zip_entries(m, b, vals, k + 1, acc.push(rooted(t, cwd)), cwd, prev),
        }
    }
}

/// The entries the options `params[cur..]` of a `zip` call give, after
/// `acc`: `-A name` / `-E name` followed by a content, `-C [path]`
/// followed by files, `-B [path]` followed by a list of files; other
/// parameters are skipped.
#[verifier::opaque]
pub open spec fn s_zip_ops(m: MView, b: int, n: int, cur: int, acc: Seq<ZipOpView>, cwd: Option<Seq<char>>, prev: Option<VarValView>) -> Result<Seq<ZipOpView>, HaltView>
    decreases n + 1 - cur,
{
    let ps = m.tree[b].params;
    let line = m.tree[b].script_line;
    if cur < 0 || cur >= n {
        Ok(acc)
    } else {
        match s_expand(m, b, ps[cur], prev) {
            Err(h) => Err(h),
            Ok(op) => if spec_starts_with(op, "-A"@) || spec_starts_with(op, "-E"@) {
                match after_option(op) {
                    None => Err(HaltView::Panic(line)),
                    Some(rest) => if cur + 1 >= n {
                        Err(HaltView::Panic(line))
                    } else {
                        match s_expand(m, b, ps[cur + 1], prev) {
                            Err(h) => Err(h),
                            Ok(cont) => s_zip_ops(m, b, n, cur + 2, acc.push(ZipOpView {
                                kind: if spec_starts_with(op, "-E"@) { ZipKind::AddExec } else { ZipKind::Add },
                                path: Some(spec_trim_start(rest)),
                                texts: seq![cont],
                            }), cwd, prev),
                        }
                    },
                }
            } else if spec_starts_with(op, "-C"@) {
                match option_path(op) {
                    Err(_) => Err(HaltView::Panic(line)),
                    Ok(path) => if cur + 1 >= n {
                        Err(HaltView::Panic(line))
                    } else {
                        match s_expand(m, b, ps[cur + 1], prev) {
                            Err(h) => Err(h),
                            Ok(f) => s_zip_ops(m, b, n, cur + 2, acc.push(ZipOpView {
                                kind: ZipKind::Dir,
                                path,
                                texts: seq![rooted(f, cwd)],
                            }), cwd, prev),
                        }
                    },
                }
            } else if spec_starts_with(op, "-B"@) {
                match option_path(op) {
                    Err(_) => Err(HaltView::Panic(line)),
                    Ok(path) => if cur + 1 >= n {
                        Err(HaltView::Panic(line))
                    } else {
                        let valsr = match s_lookup(m, b, ps[cur + 1], prev) {
                            Some(v) => Ok(if v.val_type == VarType::Array { v.values } else { seq![v.value] }),
                            None => match s_expand(m, b, ps[cur + 1], prev) {
                                Ok(t) => Ok(seq![t]),
                                Err(h) => Err(h),
                            },
                        };
                        match valsr {
                            Err(h) => Err(h),
                            Ok(vals) => match s_zip_entries(m, b, vals, 0, seq![], cwd, prev) {
                                Err(h) => Err(h),
                                Ok(es) => s_zip_ops(m, b, n, cur + 2, acc.push(ZipOpView {
                                    kind: ZipKind::Files,
                                    path,
                                    texts: es,
                                }), cwd, prev),
                            },
                        }
                    },
                }
            } else {
                s_zip_ops(m, b, n, cur + 1, acc, cwd, prev)
            },
        }
    }
}

/// The archive path: made absolute, with `.zip` added when it has no dot.
pub open spec fn zip_path(z: Seq<char>, cwd: Option<Seq<char>>) -> Seq<char> {
    let p = rooted(z, cwd);
    if crate::text::first_index_of(p, '.') is Some { p } else { p + ".zip"@ }
}

/// The result of storing an archive at `zp`.
pub open spec fn zip_answer(a: Result<IoAnswerView, HaltView>, zp: Seq<char>) -> Result<Option<VarValView>, HaltView> {
    match a {
        Err(h) => Err(h),
        Ok(IoAnswerView::Done) => Ok(Some(vv_text(zp))),
        Ok(IoAnswerView::Missing) => Ok(None),
        Ok(IoAnswerView::Text(_)) => Ok(None),
        Ok(_) => Err(HaltView::BadAnswer),
    }
}

fn zip_answer_exec(a: Result<IoAnswer, Halt>, zp: String) -> (r: Res)
    ensures
        res_view(r) == zip_answer(crate::machine::ares(a), zp@),
{
    match a {
        Err(h) => Err(h),
        Ok(IoAnswer::Done) => Ok(Some(VarVal::from_string(zp.as_str()))),
        Ok(IoAnswer::Missing) => Ok(None),
        Ok(IoAnswer::Text(_)) => Ok(None),
        Ok(_) => Err(Halt::BadAnswer),
    }
}

fn zip_path_exec(z: String, cwd: &Option<String>) -> (r: String)
    ensures
        r@ == zip_path(z@, match cwd { Some(c) => Some(c@), None => None }),
{
    let p = rooted_exec(z, cwd);
    let pc = to_chars(p.as_str());
    if crate::strops::find(&pc, '.').is_some() {
        p
    } else {
        let mut x = pc;
        let ext = to_chars(".zip");
        append_chars(&mut x, &ext);
        string_from_chars(&x)
    }
}

/// `zip(archive, option…)`: stores the archive; its path when it was
/// stored, nothing when storing failed.
pub open spec fn sb_zip(m: MView, b: int, prev: Option<VarValView>) -> (MView, Result<Option<VarValView>, HaltView>) {
    match s_param(m, b, 0, prev) {
        Err(h) => (m, Err(h)),
        Ok(z) => {
            let cwd = s_cwd(m, b);
            let zp = zip_path(z, cwd);
            match s_zip_ops(m, b, m.tree[b].params.len() as int, 1, seq![], cwd, prev) {
                Err(h) => (m, Err(h)),
                Ok(ops) => {
                    let (m2, a) = s_ask(m, IoRequestView { kind: IoKind::Zip, texts: seq![zp], list: seq![], zip: ops, block: 0 });
                    (m2, zip_answer(a, zp))
                },
            }
        },
    }
}

fn after_option_exec(op: &Vec<char>) -> (r: Option<Vec<char>>)
    ensures
        match after_option(op@) {
            Some(t) => r matches Some(x) && x@ == t,
            None => r is None,
        },
{
    let total = bytes_len_exec(op);
    byte_slice_exec(op, 3, total)
}

fn option_path_exec(op: &Vec<char>) -> (r: Result<Option<String>, ()>)
    ensures
        match option_path(op@) {
            Ok(Some(p)) => r matches Ok(Some(x)) && x@ == p,
            Ok(None) => r matches Ok(None),
            Err(_) => r is Err,
        },
{
    if bytes_len_exec(op) > 3 {
        match after_option_exec(op) {
            Some(p) => Ok(Some(string_from_chars(&p))),
            None => Err(()),
        }
    } else {
        Ok(None)
    }
}

fn push_op(ops: &mut Vec<ZipOp>, o: ZipOp)
    ensures
        zip_views(final(ops)@) == zip_views(old(ops)@).push(o@),
{
    ops.push(o);
    assert(zip_views(ops@) =~= zip_views(old(ops)@).push(o@));
}

impl Machine {
    fn zip_entries(&self, b: GenBlockTup, vals: &Vec<String>, cwd: &Option<String>, prev: &Option<VarVal>) -> (r: Result<Vec<String>, Halt>)
        requires
            tree_wf(self.tree@),
            b.0 < self.tree@.len(),
        ensures
            match r {
                Ok(v) => s_zip_entries(self@, b.0 as int, views(vals@), 0, seq![], match cwd { Some(c) => Some(c@), None => None }, opt_view(*prev))
                    == Ok::<Seq<Seq<char>>, HaltView>(views(v@)),
                Err(h) => s_zip_entries(self@, b.0 as int, views(vals@), 0, seq![], match cwd { Some(c) => Some(c@), None => None }, opt_view(*prev))
                    == Err::<Seq<Seq<char>>, HaltView>(h@),
            },
    {
        let ghost cv = match cwd { Some(c) => Some(c@), None => None };
        let mut acc: Vec<String> = Vec::new();
        let mut k: usize = 0;
        assert(views(acc@) =~= seq![]);
        while k < vals.len()
            invariant
                tree_wf(self.tree@),
                b.0 < self.tree@.len(),
                k <= vals@.len(),
                cv == match cwd { Some(c) => Some(c@), None => None },
                s_zip_entries(self@, b.0 as int, views(vals@), k as int, views(acc@), cv, opt_view(*prev))
                    == s_zip_entries(self@, b.0 as int, views(vals@), 0, seq![], cv, opt_view(*prev)),
            decreases vals@.len() - k,
        {
            match self.tmpl(b, vals[k].as_str(), prev) {
                Err(h) => { return Err(h); },
                Ok(t) => { push_string(&mut acc, rooted_exec(t, cwd)); },
            }
            k += 1;
        }
        Ok(acc)
    }

    fn zip_ops(&self, b: GenBlockTup, cwd: &Option<String>, prev: &Option<VarVal>) -> (r: Result<Vec<ZipOp>, Halt>)
        requires
            tree_wf(self.tree@),
            b.0 < self.tree@.len(),
        ensures
            match r {
                Ok(v) => s_zip_ops(self@, b.0 as int, self@.tree[b.0 as int].params.len() as int, 1, seq![],
                    match cwd { Some(c) => Some(c@), None => None }, opt_view(*prev)) == Ok::<Seq<ZipOpView>, HaltView>(zip_views(v@)),
                Err(h) => s_zip_ops(self@, b.0 as int, self@.tree[b.0 as int].params.len() as int, 1, seq![],
                    match cwd { Some(c) => Some(c@), None => None }, opt_view(*prev)) == Err::<Seq<ZipOpView>, HaltView>(h@),
            },
    {
        let ghost cv = match cwd { Some(c) => Some(c@), None => None };
        let blk = &self.tree.blocks[b.0];
        assert(self.tree@[b.0 as int] == blk@);
        let n = blk.params.len();
        let line = blk.script_line;
        let mut ops: Vec<ZipOp> = Vec::new();
        let mut cur: usize = 1;
        assert(zip_views(ops@) =~= seq![]);
        while cur < n
            invariant
                tree_wf(self.tree@),
                b.0 < self.tree@.len(),
                self.tree@[b.0 as int] == blk@,
                n == blk@.params.len(),
                line == blk@.script_line,
                cv == match cwd { Some(c) => Some(c@), None => None },
                1 <= cur,
                s_zip_ops(self@, b.0 as int, n as int, cur as int, zip_views(ops@), cv, opt_view(*prev))
                    == s_zip_ops(self@, b.0 as int, n as int, 1, seq![], cv, opt_view(*prev)),
            decreases n + 1 - cur,
        {
            proof { reveal(s_zip_ops); }
            let ps0 = blk.params[cur].clone();
            let op_s = match b.expand_parameter(self, ps0.as_str(), prev) {
                Err(h) => { return Err(h); },
                Ok(t) => t,
            };
            let op = to_chars(op_s.as_str());
            if starts_lit(&op, "-A") || starts_lit(&op, "-E") {
                let rest = match after_option_exec(&op) {
                    None => { return Err(Halt::Panic(line)); },
                    Some(x) => x,
                };
                if cur + 1 >= n {
                    return Err(Halt::Panic(line));
                }
                let p1 = blk.params[cur + 1].clone();
                let cont = match b.expand_parameter(self, p1.as_str(), prev) {
                    Err(h) => { return Err(h); },
                    Ok(t) => t,
                };
                let name = string_from_chars(&trim_start(&rest));
                let kind = if starts_lit(&op, "-E") { ZipKind::AddExec } else { ZipKind::Add };
                push_op(&mut ops, ZipOp { kind, path: Some(name), texts: crate::effects::one(cont) });
                cur += 2;
            } else if starts_lit(&op, "-C") {
                let path = match option_path_exec(&op) {
                    Err(_) => { return Err(Halt::Panic(line)); },
                    Ok(p) => p,
                };
                if cur + 1 >= n {
                    return Err(Halt::Panic(line));
                }
                let p1 = blk.params[cur + 1].clone();
                let f = match b.expand_parameter(self, p1.as_str(), prev) {
                    Err(h) => { return Err(h); },
                    Ok(t) => t,
                };
                push_op(&mut ops, ZipOp { kind: ZipKind::Dir, path, texts: crate::effects::one(rooted_exec(f, cwd)) });
                cur += 2;
            } else if starts_lit(&op, "-B") {
                let path = match option_path_exec(&op) {
                    Err(_) => { return Err(Halt::Panic(line)); },
                    Ok(p) => p,
                };
                if cur + 1 >= n {
                    return Err(Halt::Panic(line));
                }
                let p1 = blk.params[cur + 1].clone();
                let vals: Vec<String> = match self.lookup(b, p1.as_str(), prev) {
                    Some(v) => if v.val_type == VarType::Array {
                        v.values
                    } else {
                        crate::effects::one(v.value)
                    },
                    None => match b.expand_parameter(self, p1.as_str(), prev) {
                        Ok(t) => crate::effects::one(t),
                        Err(h) => { return Err(h); },
                    },
                };
                let es = match self.zip_entries(b, &vals, cwd, prev) {
                    Err(h) => { return Err(h); },
                    Ok(e) => e,
                };
                push_op(&mut ops, ZipOp { kind: ZipKind::Files, path, texts: es });
                cur += 2;
            } else {
                cur += 1;
            }
        }
        proof { reveal(s_zip_ops); }
        Ok(ops)
    }

    /// See `sb_zip`.
    pub fn b_zip(&mut self, b: GenBlockTup, prev: &Option<VarVal>) -> (r: Res)
        requires
            tree_wf(old(self).tree@),
            b.0 < old(self).tree@.len(),
        ensures
            (final(self)@, res_view(r)) == sb_zip(old(self)@, b.0 as int, opt_view(*prev)),
            evolves(old(self)@, final(self)@),
    {
        let z = match b.parameter(self, 0, prev) {
            Err(h) => { return Err(h); },
            Ok(t) => t,
        };
        let cwd = self.cwd(b);
        let zp = zip_path_exec(z, &cwd);
        let ops = match self.zip_ops(b, &cwd, prev) {
            Err(h) => { return Err(h); },
            Ok(o) => o,
        };
        let zpc = zp.clone();
        let rq = IoRequest { kind: IoKind::Zip, texts: crate::effects::one(zpc), list: Vec::new(), zip: ops, block: 0 };
        assert(rq@.list =~= seq![]);
        let a = self.ask(rq);
        zip_answer_exec(a, zp)
    }
}

} // verus!
