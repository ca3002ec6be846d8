//! Targets and their dependencies, and running a script's targets.
use vstd::prelude::*;
use crate::block::{
    dup_opt, handles_below, opt_view, search_from, spec_get_target, tree_wf, BlockType, BlockView, GenBlockTup,
};
use crate::dispatch::s_fun;
use crate::interp::{
    children_of, copy_handles, force_name, lemma_evolves_len, s_exec, s_seq, same_result, seq_exec, truthy,
    truthy_exec,
};
use crate::io::{req, Halt, HaltView, IoAnswer, IoAnswerView, IoKind};
use crate::lex::{vv_text, VarVal, VarValView};
use crate::machine::{
    bres, evolves, lemma_evolves_trans, mv_set_var, rooted, rooted_exec, s_ask, s_cwd, s_tmpl, Machine, MView, Res,
};
use crate::parse::{cwd_name, cwd_text};
use crate::util::{normalize_path, spec_normalize_path, views};
use crate::block::BlockTree;
use crate::text::{append_chars, string_from_chars, to_chars};

verus! {

/// Whether the newest file matching `p1` is newer than the newest matching
/// `p2`, both made absolute with the working directory of block `d`.
pub open spec fn s_anynewer_dep(m: MView, d: int, p1: Seq<char>, p2: Seq<char>) -> (MView, Result<bool, HaltView>) {
    let cwd = s_cwd(m, d);
    let (m2, a) = s_ask(m, req(IoKind::AnyNewer, seq![rooted(p1, cwd), rooted(p2, cwd)]));
    match a {
        Err(h) => (m2, Err(h)),
        Ok(IoAnswerView::Flag(x)) => (m2, Ok(x)),
        Ok(_) => (m2, Err(HaltView::BadAnswer)),
    }
}

/// Evaluating dependency block `d`: with no children, its output is unset
/// or `true`; a `target` call runs that target; an `anynewer` call compares
/// modification times; an `eq` compares the results of its one or two
/// function children; an `or` is true when a child is. Anything else with
/// one child stops the run; more than one child is false.
pub open spec fn s_eval_dep(m: MView, d: int, prev: Option<VarValView>, fuel: nat) -> (MView, Result<bool, HaltView>)
    decreases fuel, 0int, 0int,
{
    if fuel == 0 {
        (m, Err(HaltView::OutOfFuel))
    } else {
        let f = (fuel - 1) as nat;
        let dep = m.tree[d];
        let line = dep.script_line;
        if dep.children.len() == 0 {
            (m, Ok(dep.out is None || dep.out == Some("true"@)))
        } else if dep.children.len() == 1 {
            let c = dep.children[0].0 as int;
            let cb = m.tree[c];
            match cb.block_type {
                BlockType::Function => match cb.name {
                    None => (m, Err(HaltView::Panic(line))),
                    Some(n) => if n == "target"@ {
                        if cb.params.len() == 0 {
                            (m, Err(HaltView::Panic(line)))
                        } else {
                            match spec_get_target(m.tree, d, cb.params[0]) {
                                Some(t) => s_exec_target(m, t.0 as int, f),
                                None => (m, Ok(false)),
                            }
                        }
                    } else if n == "anynewer"@ {
                        if cb.params.len() < 2 {
                            (m, Err(HaltView::Panic(line)))
                        } else {
                            match s_tmpl(m, d, cb.params[0], prev) {
                                Err(h) => (m, Err(h)),
                                Ok(p1) => match s_tmpl(m, d, cb.params[1], prev) {
                                    Err(h) => (m, Err(h)),
                                    Ok(p2) => s_anynewer_dep(m, d, p1, p2),
                                },
                            }
                        }
                    } else {
                        (m, Err(HaltView::Panic(line)))
                    },
                },
                BlockType::Eq => if cb.children.len() > 0 {
                    let c1 = cb.children[0].0 as int;
                    if m.tree[c1].block_type != BlockType::Function {
                        (m, Err(HaltView::Panic(line)))
                    } else {
                        let (m1, r1) = s_fun(m, c1, prev, f);
                        match r1 {
                            Err(h) => (m1, Err(h)),
                            Ok(v1) => if cb.children.len() == 2 {
                                let c2 = cb.children[1].0 as int;
                                if m1.tree[c2].block_type != BlockType::Function {
                                    (m1, Err(HaltView::Panic(line)))
                                } else {
                                    let (m2, r2) = s_fun(m1, c2, prev, f);
                                    match r2 {
                                        Err(h) => (m2, Err(h)),
                                        Ok(v2) => (m2, Ok(same_result(v1, v2))),
                                    }
                                }
                            } else {
                                (m1, Ok(same_result(v1, None)))
                            },
                        }
                    }
                } else {
                    (m, Ok(false))
                },
                BlockType::Or => s_dep_or(m, cb.children, 0, prev, f),
                _ => (m, Err(HaltView::Panic(line))),
            }
        } else {
            (m, Ok(false))
        }
    }
}

/// The `or` of a dependency: true when one of `cs[k..]` is true.
pub open spec fn s_dep_or(m: MView, cs: Seq<GenBlockTup>, k: int, prev: Option<VarValView>, fuel: nat) -> (MView, Result<bool, HaltView>)
    decreases fuel, 2int, cs.len() - k,
{
    if k < 0 || k >= cs.len() {
        (m, Ok(false))
    } else {
        let (m2, r) = s_exec(m, cs[k].0 as int, prev, fuel);
        match r {
            Err(h) => (m2, Err(h)),
            Ok(v) => if truthy(v, m2) {
                (m2, Ok(true))
            } else {
                s_dep_or(m2, cs, k + 1, prev, fuel)
            },
        }
    }
}

/// The dependencies `ds[k..]` of a target, all evaluated; whether one of
/// them (or `need`) asks for the target to run.
pub open spec fn s_deps(m: MView, ds: Seq<GenBlockTup>, k: int, need: bool, fuel: nat) -> (MView, Result<bool, HaltView>)
    decreases fuel, 2int, ds.len() - k,
{
    if k < 0 || k >= ds.len() {
        (m, Ok(need))
    } else {
        let (m2, r) = s_eval_dep(m, ds[k].0 as int, None, fuel);
        match r {
            Err(h) => (m2, Err(h)),
            Ok(x) => s_deps(m2, ds, k + 1, need || x, fuel),
        }
    }
}

/// The state after a target's working directory is set: its directory (the
/// value of the variable it names, or itself), made absolute, becomes its
/// `~cwd~` when it exists.
pub open spec fn s_target_dir(m: MView, t: int) -> (MView, Result<(), HaltView>) {
    match m.tree[t].dir {
        Some(dv) => if dv.len() > 0 {
            let dirv = match search_from(m.tree, t, dv) {
                None => dv,
                Some(v) => v.value,
            };
            let dir2 = rooted(dirv, s_cwd(m, t));
            let (m2, a) = s_ask(m, req(IoKind::Exists, seq![dir2]));
            match a {
                Err(h) => (m2, Err(h)),
                Ok(IoAnswerView::Flag(ok)) => if ok {
                    (mv_set_var(m2, t, cwd_name(), vv_text(spec_normalize_path(dir2))), Ok(()))
                } else {
                    (m2, Ok(()))
                },
                Ok(_) => (m2, Err(HaltView::BadAnswer)),
            }
        } else {
            (m, Ok(()))
        },
        None => (m, Ok(())),
    }
}

/// Running target `t`: its directory is set, all its dependencies are
/// evaluated, and its children run when one of them asks for it (or
/// `~force-build-target~` is set). The result is whether they ran.
pub open spec fn s_exec_target(m: MView, t: int, fuel: nat) -> (MView, Result<bool, HaltView>)
    decreases fuel, 0int, 0int,
{
    if fuel == 0 {
        (m, Err(HaltView::OutOfFuel))
    } else {
        let f = (fuel - 1) as nat;
        let (m1, r1) = s_target_dir(m, t);
        match r1 {
            Err(h) => (m1, Err(h)),
            Ok(_) => s_target_tail(s_deps(m1, m.tree[t].deps, 0, false, f), t, m.tree[t].children, f),
        }
    }
}

/// What follows the evaluation of a target's dependencies: the children run
/// when one asked for it (or `~force-build-target~` is set).
pub open spec fn s_target_tail(p: (MView, Result<bool, HaltView>), t: int, cs: Seq<GenBlockTup>, f: nat) -> (MView, Result<bool, HaltView>) {
    let (m2, rd) = p;
    match rd {
        Err(h) => (m2, Err(h)),
        Ok(need0) => {
            let need = need0 || search_from(m2.tree, t, force_name()) is Some;
            if need {
                let (m3, rs) = s_seq(m2, cs, 0, None, f);
                match rs {
                    Err(h) => (m3, Err(h)),
                    Ok(_) => (m3, Ok(true)),
                }
            } else {
                (m2, Ok(false))
            }
        },
    }
}

/// Whether the newest file matching `p1` is newer than the newest matching
/// `p2`, both made absolute with the working directory of `block` (see
/// `s_anynewer_dep`).
pub fn exec_anynewer(m: &mut Machine, block: GenBlockTup, p1: &String, p2: &String) -> (r: Result<bool, Halt>)
    requires
        tree_wf(old(m).tree@),
    ensures
        (final(m)@, bres(r)) == s_anynewer_dep(old(m)@, block.0 as int, p1@, p2@),
        evolves(old(m)@, final(m)@),
{
    let cwd = m.cwd(block);
    let a = m.ask(crate::io::request(IoKind::AnyNewer, crate::effects::two(rooted_exec(p1.clone(), &cwd), rooted_exec(p2.clone(), &cwd))));
    match a {
        Err(h) => Err(h),
        Ok(IoAnswer::Flag(x)) => Ok(x),
        Ok(_) => Err(Halt::BadAnswer),
    }
}

fn target_dir(m: &mut Machine, t: GenBlockTup) -> (r: Result<(), Halt>)
    requires
        tree_wf(old(m).tree@),
        t.0 < old(m).tree@.len(),
    ensures
        (final(m)@, match r {
            Ok(_) => Ok::<(), HaltView>(()),
            Err(h) => Err::<(), HaltView>(h@),
        }) == s_target_dir(old(m)@, t.0 as int),
        evolves(old(m)@, final(m)@),
{
    let blk = &m.tree.blocks[t.0];
    assert(m.tree@[t.0 as int] == blk@);
    let dv = match &blk.dir {
        None => { return Ok(()); },
        Some(d) => d.clone(),
    };
    if dv.as_str().is_empty() {
        return Ok(());
    }
    let dirv = match m.search(t, dv.as_str()) {
        None => dv,
        Some(v) => v.value,
    };
    let cwd = m.cwd(t);
    let dir2 = rooted_exec(dirv, &cwd);
    let d2c = dir2.clone();
    let ghost m1 = m@;
    let a = m.ask(crate::io::request(IoKind::Exists, crate::effects::one(d2c)));
    match a {
        Err(h) => Err(h),
        Ok(IoAnswer::Flag(ok)) => {
            if ok {
                let ghost m2 = m@;
                let _ = m.set_var(t, cwd_text(), VarVal::from_string(normalize_path(dir2.as_str()).as_str()));
                proof { lemma_evolves_trans(old(m)@, m2, m@); }
            }
            Ok(())
        },
        Ok(_) => Err(Halt::BadAnswer),
    }
}

impl GenBlockTup {
    /// Evaluates this dependency block (see `s_eval_dep`).
    pub fn eval_dep(&self, m: &mut Machine, prev: &Option<VarVal>, fuel: u64) -> (r: Result<bool, Halt>)
        requires
            tree_wf(old(m).tree@),
            self.0 < old(m).tree@.len(),
        ensures
            (final(m)@, bres(r)) == s_eval_dep(old(m)@, self.0 as int, opt_view(*prev), fuel as nat),
            evolves(old(m)@, final(m)@),
        decreases fuel, 0int, 0int,
    {
        if fuel == 0 {
            return Err(Halt::OutOfFuel);
        }
        let f = fuel - 1;
        let n = m.tree.blocks.len();
        let dep = &m.tree.blocks[self.0];
        assert(m.tree@[self.0 as int] == dep@);
        assert(handles_below(m.tree@[self.0 as int].children, n as int));
        let line = dep.script_line;
        if dep.children.len() == 0 {
            return Ok(dep.out.is_none() || crate::block::opt_string_is(&dep.out, "true"));
        }
        if dep.children.len() > 1 {
            return Ok(false);
        }
        let c = dep.children[0];
        assert(c.0 < n);
        let cb = &m.tree.blocks[c.0];
        assert(m.tree@[c.0 as int] == cb@);
        assert(handles_below(m.tree@[c.0 as int].children, n as int));
        match cb.block_type {
            BlockType::Function => {
                let name = match &cb.name {
                    None => { return Err(Halt::Panic(line)); },
                    Some(x) => x.clone(),
                };
                if crate::builtins::is_lit(name.as_str(), "target") {
                    if cb.params.len() == 0 {
                        return Err(Halt::Panic(line));
                    }
                    let p0 = cb.params[0].clone();
                    match self.get_target(&m.tree, p0.as_str()) {
                        Some(t) => {
                            proof { lemma_get_target_in(m.tree@, self.0 as int, p0@); }
                            exec_target(m, t, f)
                        },
                        None => Ok(false),
                    }
                } else if crate::builtins::is_lit(name.as_str(), "anynewer") {
                    if cb.params.len() < 2 {
                        return Err(Halt::Panic(line));
                    }
                    let q0 = cb.params[0].clone();
                    let q1 = cb.params[1].clone();
                    let p1 = match m.tmpl(*self, q0.as_str(), prev) {
                        Err(h) => { return Err(h); },
                        Ok(t) => t,
                    };
                    let p2 = match m.tmpl(*self, q1.as_str(), prev) {
                        Err(h) => { return Err(h); },
                        Ok(t) => t,
                    };
                    exec_anynewer(m, *self, &p1, &p2)
                } else {
                    Err(Halt::Panic(line))
                }
            },
            BlockType::Eq => {
                if cb.children.len() == 0 {
                    return Ok(false);
                }
                let cs = copy_handles(&cb.children);
                let c1 = cs[0];
                assert(c1.0 < n);
                assert(m.tree@[c1.0 as int] == m.tree.blocks@[c1.0 as int]@);
                if m.tree.blocks[c1.0].block_type != BlockType::Function {
                    return Err(Halt::Panic(line));
                }
                let ghost m0 = m@;
                let v1 = match c1.exec_fun(m, prev, f) {
                    Err(h) => { return Err(h); },
                    Ok(v) => v,
                };
                proof { lemma_evolves_len(m0, m@); }
                if cs.len() == 2 {
                    let c2 = cs[1];
                    assert(c2.0 < n);
                    assert(m.tree@[c2.0 as int] == m.tree.blocks@[c2.0 as int]@);
                    if m.tree.blocks[c2.0].block_type != BlockType::Function {
                        return Err(Halt::Panic(line));
                    }
                    let ghost m1 = m@;
                    let v2 = match c2.exec_fun(m, prev, f) {
                        Err(h) => {
                            proof { lemma_evolves_trans(old(m)@, m1, m@); }
                            return Err(h);
                        },
                        Ok(v) => v,
                    };
                    proof { lemma_evolves_trans(old(m)@, m1, m@); }
                    Ok(same_result_exec(&v1, &v2))
                } else {
                    Ok(same_result_exec(&v1, &None))
                }
            },
            BlockType::Or => {
                let cs = copy_handles(&cb.children);
                dep_or_exec(m, &cs, prev, f)
            },
            _ => Err(Halt::Panic(line)),
        }
    }
}

/// Whether two results are the same (see `same_result`).
fn same_result_exec(a: &Option<VarVal>, b: &Option<VarVal>) -> (r: bool)
    ensures
        r == same_result(opt_view(*a), opt_view(*b)),
{
    match (a, b) {
        (Some(x), Some(y)) => crate::text::str_eq(x.value.as_str(), y.value.as_str()),
        (None, None) => true,
        _ => false,
    }
}

/// The target found by `spec_get_target` is a block of the tree.
pub proof fn lemma_get_target_in(t: Seq<BlockView>, i: int, name: Seq<char>)
    requires
        tree_wf(t),
    ensures
        spec_get_target(t, i, name) matches Some(h) ==> h.0 < t.len(),
{
    let top = crate::block::top_from(t, i);
    if 0 <= top < t.len() {
        lemma_find_target_in(t, t[top].children, 0, name);
    }
}

proof fn lemma_find_target_in(t: Seq<BlockView>, cs: Seq<GenBlockTup>, k: int, name: Seq<char>)
    ensures
        crate::block::find_target(t, cs, k, name) matches Some(h) ==> h.0 < t.len(),
    decreases cs.len() - k,
{
    if 0 <= k < cs.len() {
        lemma_find_target_in(t, cs, k + 1, name);
    }
}

fn dep_or_exec(m: &mut Machine, cs: &Vec<GenBlockTup>, prev: &Option<VarVal>, fuel: u64) -> (r: Result<bool, Halt>)
    requires
        tree_wf(old(m).tree@),
        handles_below(cs@, old(m).tree@.len() as int),
    ensures
        (final(m)@, bres(r)) == s_dep_or(old(m)@, cs@, 0, opt_view(*prev), fuel as nat),
        evolves(old(m)@, final(m)@),
    decreases fuel, 2int, 0int,
{
    let n = m.tree.blocks.len();
    let mut k: usize = 0;
    while k < cs.len()
        invariant
            tree_wf(m.tree@),
            n == m.tree@.len(),
            handles_below(cs@, n as int),
            evolves(old(m)@, m@),
            k <= cs@.len(),
            s_dep_or(old(m)@, cs@, 0, opt_view(*prev), fuel as nat) == s_dep_or(m@, cs@, k as int, opt_view(*prev), fuel as nat),
        decreases cs@.len() - k,
    {
        let c = cs[k];
        assert(c.0 < n);
        let ghost m1 = m@;
        let r = c.exec(m, prev, fuel);
        proof { lemma_evolves_trans(old(m)@, m1, m@); lemma_evolves_len(m1, m@); }
        match r {
            Err(h) => { return Err(h); },
            Ok(v) => if truthy_exec(&v, m) {
                return Ok(true);
            },
        }
        k += 1;
    }
    Ok(false)
}

/// Runs the target `target_bl` (see `s_exec_target`).
pub fn exec_target(m: &mut Machine, target_bl: GenBlockTup, fuel: u64) -> (r: Result<bool, Halt>)
    requires
        tree_wf(old(m).tree@),
        target_bl.0 < old(m).tree@.len(),
    ensures
        (final(m)@, bres(r)) == s_exec_target(old(m)@, target_bl.0 as int, fuel as nat),
        evolves(old(m)@, final(m)@),
    decreases fuel, 0int, 0int,
{
    if fuel == 0 {
        return Err(Halt::OutOfFuel);
    }
    let f = fuel - 1;
    let n = m.tree.blocks.len();
    let blk = &m.tree.blocks[target_bl.0];
    assert(m.tree@[target_bl.0 as int] == blk@);
    assert(handles_below(m.tree@[target_bl.0 as int].deps, n as int));
    assert(handles_below(m.tree@[target_bl.0 as int].children, n as int));
    let ds = copy_handles(&blk.deps);
    let cs = copy_handles(&blk.children);
    match target_dir(m, target_bl) {
        Err(h) => { return Err(h); },
        Ok(_) => {},
    }
    proof { lemma_evolves_len(old(m)@, m@); }
    let mut need = false;
    let mut k: usize = 0;
    while k < ds.len()
        invariant
            tree_wf(m.tree@),
            n == m.tree@.len(),
            handles_below(ds@, n as int),
            evolves(old(m)@, m@),
            k <= ds@.len(),
            f < fuel,
            s_exec_target(old(m)@, target_bl.0 as int, fuel as nat)
                == s_target_tail(s_deps(m@, ds@, k as int, need, f as nat), target_bl.0 as int, cs@, f as nat),
        decreases ds@.len() - k,
    {
        let d = ds[k];
        assert(d.0 < n);
        let ghost m2 = m@;
        let r = d.eval_dep(m, &None, f);
        proof { lemma_evolves_trans(old(m)@, m2, m@); lemma_evolves_len(m2, m@); }
        match r {
            Err(h) => { return Err(h); },
            Ok(x) => { need = need || x; },
        }
        k += 1;
    }
    let mut fb: Vec<char> = Vec::new();
    fb.push('~'); fb.push('f'); fb.push('o'); fb.push('r'); fb.push('c'); fb.push('e'); fb.push('-');
    fb.push('b'); fb.push('u'); fb.push('i'); fb.push('l'); fb.push('d'); fb.push('-');
    fb.push('t'); fb.push('a'); fb.push('r'); fb.push('g'); fb.push('e'); fb.push('t'); fb.push('~');
    proof {
        reveal_strlit("~force-build-target~");
        assert(fb@ =~= force_name());
    }
    let fname = crate::text::string_from_chars(&fb);
    if !need && m.search(target_bl, fname.as_str()).is_some() {
        need = true;
    }
    if need {
        let ghost m3 = m@;
        let r = seq_exec(m, &cs, None, f);
        proof { lemma_evolves_trans(old(m)@, m3, m@); }
        match r {
            Err(h) => Err(h),
            Ok(_) => Ok(true),
        }
    } else {
        Ok(false)
    }
}

/// Why a run found nothing to do.
#[derive(Debug)]
pub enum RunError {
    /// the script has no target
    NoTargets,
    /// no target has this name
    NoTarget(String),
}

/// The mathematical content of a `RunError`.
pub enum RunErrView {
    NoTargets,
    NoTarget(Seq<char>),
}

impl View for RunError {
    type V = RunErrView;

    open spec fn view(&self) -> RunErrView {
        match self {
            RunError::NoTargets => RunErrView::NoTargets,
            RunError::NoTarget(n) => RunErrView::NoTarget(n@),
        }
    }
}

/// The view of a run result.
pub open spec fn run_view(r: Result<Result<(), RunError>, Halt>) -> Result<Result<(), RunErrView>, HaltView> {
    match r {
        Ok(Ok(())) => Ok(Ok(())),
        Ok(Err(e)) => Ok(Err(e@)),
        Err(h) => Err(h@),
    }
}

/// The name of the last target among `cs[k..]` (or `cur` when none);
/// `Err` at a target without a name.
pub open spec fn last_target(t: Seq<BlockView>, cs: Seq<GenBlockTup>, k: int, cur: Option<Seq<char>>) -> Result<Option<Seq<char>>, ()>
    decreases cs.len() - k,
{
    if k < 0 || k >= cs.len() {
        Ok(cur)
    } else {
        let c = t[cs[k].0 as int];
        if c.block_type == BlockType::Target {
            match c.name {
                None => Err(()),
                Some(n) => last_target(t, cs, k + 1, Some(n)),
            }
        } else {
            last_target(t, cs, k + 1, cur)
        }
    }
}

/// The first target among `cs[k..]` named `name`; `Err` at a target
/// without a name met before it.
pub open spec fn run_find(t: Seq<BlockView>, cs: Seq<GenBlockTup>, k: int, name: Seq<char>) -> Result<Option<int>, ()>
    decreases cs.len() - k,
{
    if k < 0 || k >= cs.len() {
        Ok(None)
    } else {
        let c = t[cs[k].0 as int];
        if c.block_type == BlockType::Target {
            match c.name {
                None => Err(()),
                Some(n) => if n == name {
                    Ok(Some(cs[k].0 as int))
                } else {
                    run_find(t, cs, k + 1, name)
                },
            }
        } else {
            run_find(t, cs, k + 1, name)
        }
    }
}

/// Running the targets `tl[k..]` of script block `main` in order.
pub open spec fn s_run_targets(m: MView, main: int, tl: Seq<Seq<char>>, k: int, fuel: nat) -> (MView, Result<Result<(), RunErrView>, HaltView>)
    decreases tl.len() - k,
{
    if k < 0 || k >= tl.len() {
        (m, Ok(Ok(())))
    } else {
        match run_find(m.tree, m.tree[main].children, 0, tl[k]) {
            Err(_) => (m, Err(HaltView::Panic(m.tree[main].script_line))),
            Ok(None) => (m, Ok(Err(RunErrView::NoTarget(tl[k])))),
            Ok(Some(t)) => {
                let (m2, r) = s_exec_target(m, t, fuel);
                match r {
                    Err(h) => (m2, Err(h)),
                    Ok(_) => s_run_targets(m2, main, tl, k + 1, fuel),
                }
            },
        }
    }
}

/// The targets a run runs: those asked for, or the last target of the script.
pub open spec fn run_list(m: MView, main: int, targets: Seq<Seq<char>>) -> Result<Result<Seq<Seq<char>>, RunErrView>, HaltView> {
    if targets.len() == 0 {
        match last_target(m.tree, m.tree[main].children, 0, None) {
            Err(_) => Err(HaltView::Panic(m.tree[main].script_line)),
            Ok(None) => Ok(Err(RunErrView::NoTargets)),
            Ok(Some(n)) => Ok(Ok(seq![n])),
        }
    } else {
        Ok(Ok(targets))
    }
}

/// Running a script: its block `main` first, then the targets asked for
/// (or its last target), in order. The result holds the state, the list of
/// targets run, and how the run ended.
pub open spec fn s_run(m: MView, main: int, targets: Seq<Seq<char>>, fuel: nat) -> (MView, Seq<Seq<char>>, Result<Result<(), RunErrView>, HaltView>) {
    let (m1, r) = s_exec(m, main, None, fuel);
    match r {
        Err(h) => (m1, targets, Err(h)),
        Ok(_) => match run_list(m1, main, targets) {
            Err(h) => (m1, targets, Err(h)),
            Ok(Err(e)) => (m1, targets, Ok(Err(e))),
            Ok(Ok(tl)) => {
                let (m2, rr) = s_run_targets(m1, main, tl, 0, fuel);
                (m2, tl, rr)
            },
        },
    }
}

fn last_target_exec(m: &Machine, cs: &Vec<GenBlockTup>) -> (r: Result<Option<String>, ()>)
    requires
        tree_wf(m.tree@),
        handles_below(cs@, m.tree@.len() as int),
    ensures
        match r {
            Ok(Some(n)) => last_target(m@.tree, cs@, 0, None) == Ok::<Option<Seq<char>>, ()>(Some(n@)),
            Ok(None) => last_target(m@.tree, cs@, 0, None) == Ok::<Option<Seq<char>>, ()>(None),
            Err(_) => last_target(m@.tree, cs@, 0, None) is Err,
        },
{
    let mut cur: Option<String> = None;
    let mut k: usize = 0;
    while k < cs.len()
        invariant
            tree_wf(m.tree@),
            handles_below(cs@, m.tree@.len() as int),
            k <= cs@.len(),
            last_target(m@.tree, cs@, 0, None) == last_target(m@.tree, cs@, k as int, match cur {
                Some(c) => Some(c@),
                None => None,
            }),
        decreases cs@.len() - k,
    {
        let c = cs[k];
        let cb = &m.tree.blocks[c.0];
        assert(m.tree@[c.0 as int] == cb@);
        if cb.block_type == BlockType::Target {
            match &cb.name {
                None => { return Err(()); },
                Some(n) => { cur = Some(n.clone()); },
            }
        }
        k += 1;
    }
    Ok(cur)
}

fn run_find_exec(m: &Machine, cs: &Vec<GenBlockTup>, name: &String) -> (r: Result<Option<GenBlockTup>, ()>)
    requires
        tree_wf(m.tree@),
        handles_below(cs@, m.tree@.len() as int),
    ensures
        match r {
            Ok(Some(t)) => run_find(m@.tree, cs@, 0, name@) == Ok::<Option<int>, ()>(Some(t.0 as int)) && t.0 < m.tree@.len(),
            Ok(None) => run_find(m@.tree, cs@, 0, name@) == Ok::<Option<int>, ()>(None),
            Err(_) => run_find(m@.tree, cs@, 0, name@) is Err,
        },
{
    let mut k: usize = 0;
    while k < cs.len()
        invariant
            tree_wf(m.tree@),
            handles_below(cs@, m.tree@.len() as int),
            k <= cs@.len(),
            run_find(m@.tree, cs@, 0, name@) == run_find(m@.tree, cs@, k as int, name@),
        decreases cs@.len() - k,
    {
        let c = cs[k];
        let cb = &m.tree.blocks[c.0];
        assert(m.tree@[c.0 as int] == cb@);
        if cb.block_type == BlockType::Target {
            match &cb.name {
                None => { return Err(()); },
                Some(n) => if crate::text::str_eq(n.as_str(), name.as_str()) {
                    return Ok(Some(c));
                },
            }
        }
        k += 1;
    }
    Ok(None)
}

/// Runs a script (see `s_run`): its block `block` first, then the targets
/// asked for in `targets`; when none is asked for, the last target of the
/// script, which is then added to `targets`.
pub fn run(m: &mut Machine, block: GenBlockTup, targets: &mut Vec<String>, fuel: u64) -> (r: Result<Result<(), RunError>, Halt>)
    requires
        tree_wf(old(m).tree@),
        block.0 < old(m).tree@.len(),
    ensures
        (final(m)@, views(final(targets)@), run_view(r)) == s_run(old(m)@, block.0 as int, views(old(targets)@), fuel as nat),
        evolves(old(m)@, final(m)@),
{
    let ghost m0 = m@;
    match block.exec(m, &None, fuel) {
        Err(h) => { return Err(h); },
        Ok(_) => {},
    }
    proof { lemma_evolves_len(m0, m@); }
    let cs = children_of(m, block);
    let line = m.tree.blocks[block.0].script_line;
    assert(m.tree@[block.0 as int] == m.tree.blocks@[block.0 as int]@);
    if targets.len() == 0 {
        match last_target_exec(m, &cs) {
            Err(_) => { return Err(Halt::Panic(line)); },
            Ok(None) => { return Ok(Err(RunError::NoTargets)); },
            Ok(Some(n)) => {
                crate::util::push_string(targets, n);
                assert(views(targets@) =~= seq![views(targets@)[0]]);
            },
        }
    }
    let r = run_targets_exec(m, block, &cs, targets, fuel);
    r
}

/// Runs the targets `targets` of script block `block` in order (see
/// `s_run_targets`).
fn run_targets_exec(m: &mut Machine, block: GenBlockTup, cs: &Vec<GenBlockTup>, targets: &Vec<String>, fuel: u64) -> (r: Result<Result<(), RunError>, Halt>)
    requires
        tree_wf(old(m).tree@),
        block.0 < old(m).tree@.len(),
        cs@ == old(m)@.tree[block.0 as int].children,
        handles_below(cs@, old(m).tree@.len() as int),
    ensures
        (final(m)@, run_view(r)) == s_run_targets(old(m)@, block.0 as int, views(targets@), 0, fuel as nat),
        evolves(old(m)@, final(m)@),
{
    let ghost tl = views(targets@);
    let n = m.tree.blocks.len();
    let line = m.tree.blocks[block.0].script_line;
    assert(m.tree@[block.0 as int] == m.tree.blocks@[block.0 as int]@);
    let mut k: usize = 0;
    while k < targets.len()
        invariant
            tree_wf(m.tree@),
            n == m.tree@.len(),
            block.0 < n,
            handles_below(cs@, n as int),
            evolves(old(m)@, m@),
            cs@ == m@.tree[block.0 as int].children,
            line == m@.tree[block.0 as int].script_line,
            tl == views(targets@),
            k <= targets@.len(),
            s_run_targets(old(m)@, block.0 as int, tl, 0, fuel as nat) == s_run_targets(m@, block.0 as int, tl, k as int, fuel as nat),
        decreases targets@.len() - k,
    {
        let name = targets[k].clone();
        match run_find_exec(m, cs, &name) {
            Err(_) => { return Err(Halt::Panic(line)); },
            Ok(None) => { return Ok(Err(RunError::NoTarget(name))); },
            Ok(Some(t)) => {
                let ghost m2 = m@;
                let r = exec_target(m, t, fuel);
                proof {
                    lemma_evolves_trans(old(m)@, m2, m@);
                    lemma_evolves_len(m2, m@);
                }
                match r {
                    Err(h) => { return Err(h); },
                    Ok(_) => {},
                }
            },
        }
        k += 1;
    }
    Ok(Ok(()))
}


/// The lines of the target help for the blocks `cs[k..]`: `name - description`
/// for each named target, the description empty when there is none.
pub open spec fn help_lines(t: Seq<BlockView>, cs: Seq<GenBlockTup>, k: int) -> Seq<Seq<char>>
    decreases cs.len() - k,
{
    if k < 0 || k >= cs.len() {
        seq![]
    } else {
        let c = t[cs[k].0 as int];
        let rest = help_lines(t, cs, k + 1);
        if c.block_type == BlockType::Target {
            match c.name {
                Some(n) => seq![n + " - "@ + match c.flex {
                    Some(f) => f,
                    None => seq![],
                }] + rest,
                None => rest,
            }
        } else {
            rest
        }
    }
}

/// The target help of a script: a line `name - description` for each named
/// target of the main block, in the order of the script.
pub fn target_help(tree: &BlockTree, main: GenBlockTup) -> (r: Vec<String>)
    requires
        tree_wf(tree@),
        main.0 < tree@.len(),
    ensures
        views(r@) == help_lines(tree@, tree@[main.0 as int].children, 0),
{
    let cs = copy_handles(&tree.blocks[main.0].children);
    assert(tree@[main.0 as int] == tree.blocks@[main.0 as int]@);
    let ghost t = tree@;
    let mut out: Vec<String> = Vec::new();
    let mut k: usize = cs.len();
    proof { reveal_strlit(" - "); }
    while k > 0
        invariant
            t == tree@,
            tree_wf(t),
            handles_below(cs@, t.len() as int),
            k <= cs@.len(),
            views(out@) == help_lines(t, cs@, k as int),
        decreases k,
    {
        k -= 1;
        let c = cs[k];
        let cb = &tree.blocks[c.0];
        assert(t[c.0 as int] == cb@);
        if cb.block_type == BlockType::Target {
            match &cb.name {
                Some(n) => {
                    let mut line = to_chars(n.as_str());
                    append_chars(&mut line, &to_chars(" - "));
                    match &cb.flex {
                        Some(f) => { append_chars(&mut line, &to_chars(f.as_str())); },
                        None => {},
                    }
                    let ghost before = views(out@);
                    out.insert(0, string_from_chars(&line));
                    assert(views(out@) =~= seq![line@] + before);
                },
                None => {},
            }
        }
    }
    out
}


/// A target runs its body when a dependency asks for it or when
/// `~force-build-target~` is set (`-r`), and is then reported as run;
/// otherwise its body does not run, nothing changes after its dependencies
/// and it is reported as not run.
pub proof fn law_target_runs_when_needed_or_forced(m: MView, need: bool, t: int, cs: Seq<GenBlockTup>, f: nat)
    ensures
        (need || search_from(m.tree, t, force_name()) is Some) ==> s_target_tail((m, Ok(need)), t, cs, f) == (match s_seq(m, cs, 0, None, f) {
            (m3, Err(h)) => (m3, Err::<bool, HaltView>(h)),
            (m3, Ok(_)) => (m3, Ok::<bool, HaltView>(true)),
        }),
        (!need && search_from(m.tree, t, force_name()) is None) ==> s_target_tail((m, Ok(need)), t, cs, f) == (m, Ok::<bool, HaltView>(false)),
{
}


/// The dependencies of a target ask for it to run as soon as one of them
/// does: once the flag is set no later dependency clears it, and a
/// dependency that evaluates true sets it, whatever the others give (when
/// all of them can be evaluated).
pub proof fn law_any_dependency_asks(m: MView, ds: Seq<GenBlockTup>, k: int, need: bool, fuel: nat)
    ensures
        need && s_deps(m, ds, k, need, fuel).1 is Ok ==> s_deps(m, ds, k, need, fuel).1 == Ok::<bool, HaltView>(true),
        0 <= k < ds.len() && s_eval_dep(m, ds[k].0 as int, None, fuel).1 == Ok::<bool, HaltView>(true) && s_deps(
            m,
            ds,
            k,
            need,
            fuel,
        ).1 is Ok ==> s_deps(m, ds, k, need, fuel).1 == Ok::<bool, HaltView>(true),
    decreases ds.len() - k,
{
    if 0 <= k < ds.len() {
        let (m2, r) = s_eval_dep(m, ds[k].0 as int, None, fuel);
        match r {
            Err(_) => {},
            Ok(x) => {
                law_any_dependency_asks(m2, ds, k + 1, need || x, fuel);
            },
        }
    }
}

} // verus!
