//! `exec` and `aexec`: running a program with arguments in a working
//! directory, waiting for it or not, and capturing its output.
use vstd::prelude::*;
use crate::block::{opt_view, parent_before, search_from, tree_wf, GenBlockTup};
use crate::effects::ans_code;
use crate::fsops::s_tmpl_list;
use crate::io::{Halt, HaltView, IoAnswer, IoAnswerView, IoKind, IoRequest, IoRequestView};
use crate::lex::{vv_num, vv_text, VarType, VarVal, VarValView};
use crate::machine::{
    cwd_or_empty, evolves, lemma_evolves_trans, mv_set_var, res_view, rooted, rooted_exec, s_ask, s_cwd, s_lookup,
    s_param, s_tmpl, tres, Machine, MView, Res, empty_text,
};
use crate::strops::{spec_trim, trim};
use crate::text::{string_from_chars, to_chars};
use crate::util::{normalize_path, push_string, spec_normalize_path, views};

verus! {

/// The name of the dry-run switch.
pub open spec fn dry_run_name() -> Seq<char> {
    "~dry-run~"@
}

/// The program `flex` names: the interpolated value of the variable of that
/// name, or the text itself.
pub open spec fn s_exec_name(m: MView, b: int, flex: Seq<char>, prev: Option<VarValView>) -> Result<Seq<char>, HaltView> {
    match search_from(m.tree, b, flex) {
        Some(e1) => s_tmpl(m, b, e1.value, prev),
        None => Ok(flex),
    }
}

/// The program arguments from parameter `k` on, after `acc`: a variable
/// with elements gives them all (interpolated), another non-array variable
/// its interpolated value; a literal gives its expansion.
pub open spec fn s_exec_args(m: MView, b: int, n: int, k: int, acc: Seq<Seq<char>>, prev: Option<VarValView>) -> Result<Seq<Seq<char>>, HaltView>
    decreases n - k,
{
    if k < 0 || k >= n {
        Ok(acc)
    } else {
        match s_lookup(m, b, m.tree[b].params[k], prev) {
            Some(v) => if v.values.len() > 0 {
                match s_tmpl_list(m, b, v.values, 0, acc, prev) {
                    Ok(acc2) => s_exec_args(m, b, n, k + 1, acc2, prev),
                    Err(h) => Err(h),
                }
            } else if v.val_type != VarType::Array {
                match s_tmpl(m, b, v.value, prev) {
                    Ok(t) => s_exec_args(m, b, n, k + 1, acc.push(t), prev),
                    Err(h) => Err(h),
                }
            } else {
                s_exec_args(m, b, n, k + 1, acc, prev)
            },
            None => match s_param(m, b, k, prev) {
                Ok(t) => s_exec_args(m, b, n, k + 1, acc.push(t), prev),
                Err(h) => Err(h),
            },
        }
    }
}

/// The working directory of a program: the block's directory (the value of
/// the variable it names, interpolated, made absolute) normalized when it
/// exists, else none; without a block directory, the working directory of
/// the script.
pub open spec fn s_exec_cwd(m: MView, b: int, prev: Option<VarValView>) -> (MView, Result<Seq<char>, HaltView>) {
    match m.tree[b].dir {
        Some(d) => if d.len() > 0 {
            let wdr = match search_from(m.tree, b, d) {
                Some(x) => s_tmpl(m, b, x.value, prev),
                None => s_tmpl(m, b, d, prev),
            };
            match wdr {
                Err(h) => (m, Err(h)),
                Ok(wd) => {
                    let wd2 = rooted(wd, s_cwd(m, b));
                    let (m2, a) = s_ask(m, IoRequestView { kind: IoKind::Exists, texts: seq![wd2], list: seq![], zip: seq![], block: 0 });
                    match a {
                        Err(h) => (m2, Err(h)),
                        Ok(IoAnswerView::Flag(ok)) => (m2, Ok(if ok { spec_normalize_path(wd2) } else { seq![] })),
                        Ok(_) => (m2, Err(HaltView::BadAnswer)),
                    }
                },
            }
        } else {
            (m, Ok(seq![]))
        },
        None => (m, Ok(cwd_or_empty(m, b))),
    }
}

/// A request to run `exe` with `args` in `cwd`.
pub open spec fn exec_req(kind: IoKind, exe: Seq<char>, cwd: Seq<char>, args: Seq<Seq<char>>) -> IoRequestView {
    IoRequestView { kind, texts: seq![exe, cwd], list: args, zip: seq![], block: 0 }
}

/// `exec` (or, with `spawn`, `aexec`): runs the program the block names
/// with the arguments in the working directory. A dry run only shows it and
/// gives `0`; `aexec` gives the process id; with an output variable the
/// trimmed output is stored in the parent block; otherwise the exit code.
pub open spec fn sb_exec(m: MView, b: int, prev: Option<VarValView>, spawn: bool) -> (MView, Result<Option<VarValView>, HaltView>) {
    let blk = m.tree[b];
    match blk.flex {
        None => (m, Err(HaltView::Panic(blk.script_line))),
        Some(flex) => match s_exec_name(m, b, flex, prev) {
            Err(h) => (m, Err(h)),
            Ok(exe) => match s_exec_args(m, b, blk.params.len() as int, 0, seq![], prev) {
                Err(h) => (m, Err(h)),
                Ok(args) => {
                    let dry = search_from(m.tree, b, dry_run_name()) is Some;
                    let (m2, cr) = s_exec_cwd(m, b, prev);
                    match cr {
                        Err(h) => (m2, Err(h)),
                        Ok(cwd) => if dry {
                            let (m3, a) = s_ask(m2, exec_req(IoKind::DryRun, exe, cwd, args));
                            (m3, match a {
                                Err(h) => Err(h),
                                Ok(_) => Ok(Some(vv_num(0))),
                            })
                        } else if spawn {
                            let (m3, a) = s_ask(m2, exec_req(IoKind::Spawn, exe, cwd, args));
                            (m3, ans_code(a))
                        } else {
                            match blk.out {
                                Some(o) => {
                                    let (m3, a) = s_ask(m2, exec_req(IoKind::Capture, exe, cwd, args));
                                    match a {
                                        Err(h) => (m3, Err(h)),
                                        Ok(IoAnswerView::Output(c, out)) => match blk.parent {
                                            None => (m3, Err(HaltView::Panic(blk.script_line))),
                                            Some(p) => (mv_set_var(m3, p.0 as int, o, vv_text(spec_trim(out))), Ok(Some(vv_num(c)))),
                                        },
                                        Ok(IoAnswerView::Missing) => (m3, Ok(None)),
                                        Ok(_) => (m3, Err(HaltView::BadAnswer)),
                                    }
                                },
                                None => {
                                    let (m3, a) = s_ask(m2, exec_req(IoKind::Run, exe, cwd, args));
                                    (m3, ans_code(a))
                                },
                            }
                        },
                    }
                },
            },
        },
    }
}

impl Machine {
    fn exec_args(&self, b: GenBlockTup, prev: &Option<VarVal>) -> (r: Result<Vec<String>, Halt>)
        requires
            tree_wf(self.tree@),
            b.0 < self.tree@.len(),
        ensures
            match r {
                Ok(v) => s_exec_args(self@, b.0 as int, self@.tree[b.0 as int].params.len() as int, 0, seq![], opt_view(*prev)) == Ok::<Seq<Seq<char>>, HaltView>(views(v@)),
                Err(h) => s_exec_args(self@, b.0 as int, self@.tree[b.0 as int].params.len() as int, 0, seq![], opt_view(*prev)) == Err::<Seq<Seq<char>>, HaltView>(h@),
            },
    {
        let blk = &self.tree.blocks[b.0];
        assert(self.tree@[b.0 as int] == blk@);
        let n = blk.params.len();
        let mut acc: Vec<String> = Vec::new();
        let mut k: usize = 0;
        assert(views(acc@) =~= seq![]);
        while k < n
            invariant
                tree_wf(self.tree@),
                b.0 < self.tree@.len(),
                self.tree@[b.0 as int] == blk@,
                n == blk@.params.len(),
                k <= n,
                s_exec_args(self@, b.0 as int, n as int, k as int, views(acc@), opt_view(*prev))
                    == s_exec_args(self@, b.0 as int, n as int, 0, seq![], opt_view(*prev)),
            decreases n - k,
        {
            let p = blk.params[k].clone();
            match self.lookup(b, p.as_str(), prev) {
                Some(v) => if v.values.len() > 0 {
                    match self.tmpl_all(b, &v.values, acc, prev) {
                        Ok(a2) => { acc = a2; },
                        Err(h) => { return Err(h); },
                    }
                } else if v.val_type != VarType::Array {
                    match self.tmpl(b, v.value.as_str(), prev) {
                        Ok(t) => { push_string(&mut acc, t); },
                        Err(h) => { return Err(h); },
                    }
                },
                None => match b.parameter(self, k, prev) {
                    Ok(t) => { push_string(&mut acc, t); },
                    Err(h) => { return Err(h); },
                },
            }
            k += 1;
        }
        Ok(acc)
    }

    /// `acc` followed by the interpolations of `xs` (see `s_tmpl_list`).
    fn tmpl_all(&self, b: GenBlockTup, xs: &Vec<String>, acc0: Vec<String>, prev: &Option<VarVal>) -> (r: Result<Vec<String>, Halt>)
        requires
            tree_wf(self.tree@),
            b.0 < self.tree@.len(),
        ensures
            match r {
                Ok(v) => s_tmpl_list(self@, b.0 as int, views(xs@), 0, views(acc0@), opt_view(*prev)) == Ok::<Seq<Seq<char>>, HaltView>(views(v@)),
                Err(h) => s_tmpl_list(self@, b.0 as int, views(xs@), 0, views(acc0@), opt_view(*prev)) == Err::<Seq<Seq<char>>, HaltView>(h@),
            },
    {
        let ghost a0 = views(acc0@);
        let mut acc = acc0;
        let mut i: usize = 0;
        while i < xs.len()
            invariant
                tree_wf(self.tree@),
                b.0 < self.tree@.len(),
                i <= xs@.len(),
                a0 == views(acc0@),
                s_tmpl_list(self@, b.0 as int, views(xs@), i as int, views(acc@), opt_view(*prev))
                    == s_tmpl_list(self@, b.0 as int, views(xs@), 0, a0, opt_view(*prev)),
            decreases xs@.len() - i,
        {
            match self.tmpl(b, xs[i].as_str(), prev) {
                Ok(t) => { push_string(&mut acc, t); },
                Err(h) => { return Err(h); },
            }
            i += 1;
        }
        Ok(acc)
    }

    fn exec_cwd(&mut self, b: GenBlockTup, prev: &Option<VarVal>) -> (r: Result<String, Halt>)
        requires
            tree_wf(old(self).tree@),
            b.0 < old(self).tree@.len(),
        ensures
            (final(self)@, tres(r)) == s_exec_cwd(old(self)@, b.0 as int, opt_view(*prev)),
            evolves(old(self)@, final(self)@),
    {
        let blk = &self.tree.blocks[b.0];
        assert(self.tree@[b.0 as int] == blk@);
        match &blk.dir {
            Some(d) => {
                let d = d.clone();
                if d.as_str().is_empty() {
                    return Ok(empty_text());
                }
                let wd = match self.search(b, d.as_str()) {
                    Some(x) => self.tmpl(b, x.value.as_str(), prev),
                    None => self.tmpl(b, d.as_str(), prev),
                };
                let wd = match wd {
                    Err(h) => { return Err(h); },
                    Ok(t) => t,
                };
                let cwd = self.cwd(b);
                let wd2 = rooted_exec(wd, &cwd);
                let wd2c = wd2.clone();
                let rq = IoRequest { kind: IoKind::Exists, texts: crate::effects::one(wd2c), list: Vec::new(), zip: Vec::new(), block: 0 };
                assert(rq@.list =~= seq![]);
                assert(rq@.zip =~= seq![]);
                match self.ask(rq) {
                    Err(h) => Err(h),
                    Ok(IoAnswer::Flag(ok)) => if ok {
                        Ok(normalize_path(wd2.as_str()))
                    } else {
                        Ok(empty_text())
                    },
                    Ok(_) => Err(Halt::BadAnswer),
                }
            },
            None => Ok(self.cwd_or_empty(b)),
        }
    }

    /// See `sb_exec`.
    pub fn b_exec(&mut self, b: GenBlockTup, prev: &Option<VarVal>, spawn: bool) -> (r: Res)
        requires
            tree_wf(old(self).tree@),
            b.0 < old(self).tree@.len(),
        ensures
            (final(self)@, res_view(r)) == sb_exec(old(self)@, b.0 as int, opt_view(*prev), spawn),
            evolves(old(self)@, final(self)@),
    {
        let blk = &self.tree.blocks[b.0];
        assert(self.tree@[b.0 as int] == blk@);
        let line = blk.script_line;
        let out = blk.out.clone();
        let parent = blk.parent;
        let flex = match &blk.flex {
            None => { return Err(Halt::Panic(line)); },
            Some(f) => f.clone(),
        };
        let exe = match self.search(b, flex.as_str()) {
            Some(e1) => match self.tmpl(b, e1.value.as_str(), prev) {
                Ok(t) => t,
                Err(h) => { return Err(h); },
            },
            None => flex,
        };
        let args = match self.exec_args(b, prev) {
            Ok(a) => a,
            Err(h) => { return Err(h); },
        };
        let mut dn: Vec<char> = Vec::new();
        dn.push('~'); dn.push('d'); dn.push('r'); dn.push('y'); dn.push('-'); dn.push('r'); dn.push('u'); dn.push('n'); dn.push('~');
        proof {
            reveal_strlit("~dry-run~");
            assert(dn@ =~= dry_run_name());
        }
        let dry_name = string_from_chars(&dn);
        let dry = self.search(b, dry_name.as_str()).is_some();
        let ghost m1 = self@;
        let cwd = match self.exec_cwd(b, prev) {
            Ok(c) => c,
            Err(h) => { return Err(h); },
        };
        let ghost m2 = self@;
        let kind = if dry {
            IoKind::DryRun
        } else if spawn {
            IoKind::Spawn
        } else if out.is_some() {
            IoKind::Capture
        } else {
            IoKind::Run
        };
        let rq = IoRequest { kind, texts: crate::effects::two(exe, cwd), list: args, zip: Vec::new(), block: 0 };
        assert(rq@.zip =~= seq![]);
        let a = self.ask(rq);
        proof { lemma_evolves_trans(old(self)@, m2, self@); }
        if dry {
            match a {
                Err(h) => Err(h),
                Ok(_) => Ok(Some(VarVal::from_i32(0))),
            }
        } else if spawn {
            match a {
                Err(h) => Err(h),
                Ok(IoAnswer::Code(c)) => Ok(Some(VarVal::from_i32(c))),
                Ok(IoAnswer::Missing) => Ok(None),
                Ok(_) => Err(Halt::BadAnswer),
            }
        } else {
            match out {
                Some(o) => match a {
                    Err(h) => Err(h),
                    Ok(IoAnswer::Output(c, text)) => match parent {
                        None => Err(Halt::Panic(line)),
                        Some(p) => {
                            assert(parent_before(old(self).tree@[b.0 as int], b.0 as int));
                            let t = trim(&to_chars(text.as_str()));
                            let ts = string_from_chars(&t);
                            let ghost m3 = self@;
                            let _ = self.set_var(p, o, VarVal::from_string(ts.as_str()));
                            proof { lemma_evolves_trans(old(self)@, m3, self@); }
                            Ok(Some(VarVal::from_i32(c)))
                        },
                    },
                    Ok(IoAnswer::Missing) => Ok(None),
                    Ok(_) => Err(Halt::BadAnswer),
                },
                None => match a {
                    Err(h) => Err(h),
                    Ok(IoAnswer::Code(c)) => Ok(Some(VarVal::from_i32(c))),
                    Ok(IoAnswer::Missing) => Ok(None),
                    Ok(_) => Err(Halt::BadAnswer),
                },
            }
        }
    }
}

} // verus!
