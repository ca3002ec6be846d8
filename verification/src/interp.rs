//! Running blocks: sequences, conditionals, loops, comparisons, targets and
//! their dependencies. Every function here is a spec function over `MView`
//! and a method proved to give exactly what it says. Each step has a
//! budget (`fuel`): nesting and loop rounds use it up, and a run whose
//! budget is spent stops with `OutOfFuel` (the caller runs it again with a
//! larger budget).
use vstd::prelude::*;
use crate::block::{
    opt_view, search_from, spec_get_target, tree_wf, handles_below, parent_before, BlockType, BlockView, GenBlockTup,
    dup_opt,
};
use crate::dispatch::s_fun;
use crate::io::{req, Halt, HaltView, IoAnswer, IoAnswerView, IoKind, IoRequest};
use crate::lex::{lookup_or, spec_is_true, vv_bool, vv_text, VarType, VarVal, VarValView};
use crate::machine::{
    evolves, lemma_evolves_trans, mv_set_var, res_view, rooted, rooted_exec, s_ask, s_cwd, s_lookup, s_tmpl, Machine,
    MView, Res, bres,
};
use crate::parse::{cwd_name, cwd_text};
use crate::strops::{spec_split, spec_trim, split, trim};
use crate::text::{spec_nat_digits, string_from_chars, to_chars, nat_digits};
use crate::util::{normalize_path, spec_normalize_path, views};

verus! {

/// A result counts as true: a value that is true; no value is false.
pub open spec fn truthy(v: Option<VarValView>, m: MView) -> bool {
    match v {
        Some(x) => spec_is_true(x, m.props, m.env),
        None => false,
    }
}

/// The name of the loop index variable.
pub open spec fn index_name() -> Seq<char> {
    "~index~"@
}

/// The name of the switch that forces targets to run.
pub open spec fn force_name() -> Seq<char> {
    "~force-build-target~"@
}

/// Running block `b` with previous result `prev`.
pub open spec fn s_exec(m: MView, b: int, prev: Option<VarValView>, fuel: nat) -> (MView, Result<Option<VarValView>, HaltView>)
    decreases fuel, 0int, 0int,
{
    if fuel == 0 {
        (m, Err(HaltView::OutOfFuel))
    } else {
        let f = (fuel - 1) as nat;
        let blk = m.tree[b];
        match blk.block_type {
            BlockType::Scope | BlockType::Then | BlockType::Else | BlockType::Choice => s_seq(m, blk.children, 0, prev, f),
            BlockType::Main => s_main(m, blk.children, 0, None, f),
            BlockType::If => s_if(m, b, prev, f),
            BlockType::Function => s_fun(m, b, prev, f),
            BlockType::For => s_for(m, b, prev, f),
            BlockType::Or => s_orb(m, blk.children, 0, prev, f),
            BlockType::And => s_andb(m, blk.children, 0, prev, f),
            BlockType::Not => s_not(m, b, prev, f),
            BlockType::Eq => s_eqb(m, b, prev, f),
            BlockType::Neq => s_neqb(m, b, prev, f),
            BlockType::While => s_while(m, b, prev, f),
            BlockType::Case => s_case(m, b, prev, f),
            _ => (m, Err(HaltView::Panic(blk.script_line))),
        }
    }
}

/// Running the blocks `cs[k..]` one after the other, each getting the
/// result of the one before.
pub open spec fn s_seq(m: MView, cs: Seq<GenBlockTup>, k: int, res: Option<VarValView>, fuel: nat) -> (MView, Result<Option<VarValView>, HaltView>)
    decreases fuel, 1int, cs.len() - k,
{
    if k < 0 || k >= cs.len() {
        (m, Ok(res))
    } else {
        let (m2, r) = s_exec(m, cs[k].0 as int, res, fuel);
        match r {
            Err(h) => (m2, Err(h)),
            Ok(r2) => s_seq(m2, cs, k + 1, r2, fuel),
        }
    }
}

/// Block `c` is skipped when the script block runs: an `include` or a target.
pub open spec fn skipped_in_main(c: BlockView) -> bool {
    (c.block_type == BlockType::Function && c.name == Some("include"@)) || c.block_type == BlockType::Target
}

/// Running the script block's children `cs[k..]` but includes and targets.
pub open spec fn s_main(m: MView, cs: Seq<GenBlockTup>, k: int, res: Option<VarValView>, fuel: nat) -> (MView, Result<Option<VarValView>, HaltView>)
    decreases fuel, 1int, cs.len() - k,
{
    if k < 0 || k >= cs.len() {
        (m, Ok(res))
    } else if skipped_in_main(m.tree[cs[k].0 as int]) {
        s_main(m, cs, k + 1, res, fuel)
    } else {
        let (m2, r) = s_exec(m, cs[k].0 as int, res, fuel);
        match r {
            Err(h) => (m2, Err(h)),
            Ok(r2) => s_main(m2, cs, k + 1, r2, fuel),
        }
    }
}

/// `if`: the condition (first child) decides between the `then` (second
/// child) and an `else` (second or third child); without a branch to run,
/// the result is the condition's.
pub open spec fn s_if(m: MView, b: int, prev: Option<VarValView>, fuel: nat) -> (MView, Result<Option<VarValView>, HaltView>)
    decreases fuel, 3int, 0int,
{
    let cs = m.tree[b].children;
    let line = m.tree[b].script_line;
    if cs.len() == 0 {
        (m, Err(HaltView::Panic(line)))
    } else {
        let (m1, r) = s_exec(m, cs[0].0 as int, prev, fuel);
        match r {
            Err(h) => (m1, Err(h)),
            Ok(res) => if truthy(res, m1) {
                if cs.len() < 2 {
                    (m1, Err(HaltView::Panic(line)))
                } else if m1.tree[cs[1].0 as int].block_type == BlockType::Then {
                    s_exec(m1, cs[1].0 as int, prev, fuel)
                } else {
                    (m1, Ok(res))
                }
            } else if cs.len() == 2 && m1.tree[cs[1].0 as int].block_type == BlockType::Else {
                s_exec(m1, cs[1].0 as int, prev, fuel)
            } else if cs.len() == 3 && m1.tree[cs[2].0 as int].block_type == BlockType::Else {
                s_exec(m1, cs[2].0 as int, prev, fuel)
            } else {
                (m1, Ok(res))
            },
        }
    }
}

/// The separator of a `for`: the value of the variable it names, or itself.
pub open spec fn for_sep(m: MView, b: int, sc: Seq<char>) -> Seq<char> {
    match search_from(m.tree, b, sc) {
        Some(v) => v.value,
        None => sc,
    }
}

/// The values a `for` runs over: an array variable's elements; another
/// variable's interpolated value, or the range text itself, split at the
/// separator. `Ok(None)` when the separator is missing.
pub open spec fn s_for_range(m: MView, b: int, ro: Seq<char>, prev: Option<VarValView>) -> Result<Option<Seq<Seq<char>>>, HaltView> {
    let blk = m.tree[b];
    match s_lookup(m, b, ro, prev) {
        Some(rv) => if rv.val_type == VarType::Array {
            Ok(Some(rv.values))
        } else {
            match blk.flex {
                None => Ok(None),
                Some(sc) => match s_tmpl(m, b, rv.value, prev) {
                    Err(h) => Err(h),
                    Ok(t) => Ok(Some(spec_split(t, for_sep(m, b, sc)))),
                },
            }
        },
        None => match blk.flex {
            None => Ok(None),
            Some(sc) => Ok(Some(spec_split(ro, for_sep(m, b, sc)))),
        },
    }
}

/// `for name in range`: runs the children once for every value, with
/// `name` set to the value and `~index~` to its position.
pub open spec fn s_for(m: MView, b: int, prev: Option<VarValView>, fuel: nat) -> (MView, Result<Option<VarValView>, HaltView>)
    decreases fuel, 3int, 0int,
{
    let blk = m.tree[b];
    match blk.name {
        None => (m, Ok(None)),
        Some(name) => match blk.dir {
            None => (m, Ok(None)),
            Some(ro) => if ro.len() == 0 {
                (m, Ok(None))
            } else {
                match s_for_range(m, b, ro, prev) {
                    Err(h) => (m, Err(h)),
                    Ok(None) => (m, Ok(None)),
                    Ok(Some(range)) => s_for_loop(m, b, name, range, 0, blk.children, prev, fuel),
                }
            },
        },
    }
}

/// The state in which round `idx` of a `for` over `range` runs.
pub open spec fn for_round(m: MView, b: int, name: Seq<char>, range: Seq<Seq<char>>, idx: int) -> MView {
    mv_set_var(
        mv_set_var(m, b, name, vv_text(range[idx])),
        b,
        index_name(),
        VarValView { val_type: VarType::Number, value: spec_nat_digits(idx as nat), values: seq![] },
    )
}

/// Rounds `idx..` of a `for`.
pub open spec fn s_for_loop(m: MView, b: int, name: Seq<char>, range: Seq<Seq<char>>, idx: int, cs: Seq<GenBlockTup>, res: Option<VarValView>, fuel: nat) -> (MView, Result<Option<VarValView>, HaltView>)
    decreases fuel, 2int, range.len() - idx,
{
    if idx < 0 || idx >= range.len() {
        (m, Ok(res))
    } else {
        let (m2, r) = s_seq(for_round(m, b, name, range, idx), cs, 0, res, fuel);
        match r {
            Err(h) => (m2, Err(h)),
            Ok(r2) => s_for_loop(m2, b, name, range, idx + 1, cs, r2, fuel),
        }
    }
}

/// `or` block: true when one of the children `cs[k..]` is true.
pub open spec fn s_orb(m: MView, cs: Seq<GenBlockTup>, k: int, prev: Option<VarValView>, fuel: nat) -> (MView, Result<Option<VarValView>, HaltView>)
    decreases fuel, 2int, cs.len() - k,
{
    if k < 0 || k >= cs.len() {
        (m, Ok(Some(vv_bool(false))))
    } else {
        let (m2, r) = s_exec(m, cs[k].0 as int, prev, fuel);
        match r {
            Err(h) => (m2, Err(h)),
            Ok(v) => if truthy(v, m2) {
                (m2, Ok(Some(vv_bool(true))))
            } else {
                s_orb(m2, cs, k + 1, prev, fuel)
            },
        }
    }
}

/// `and` block: true when all of the children `cs[k..]` are true.
pub open spec fn s_andb(m: MView, cs: Seq<GenBlockTup>, k: int, prev: Option<VarValView>, fuel: nat) -> (MView, Result<Option<VarValView>, HaltView>)
    decreases fuel, 2int, cs.len() - k,
{
    if k < 0 || k >= cs.len() {
        (m, Ok(Some(vv_bool(true))))
    } else {
        let (m2, r) = s_exec(m, cs[k].0 as int, prev, fuel);
        match r {
            Err(h) => (m2, Err(h)),
            Ok(v) => if !truthy(v, m2) {
                (m2, Ok(Some(vv_bool(false))))
            } else {
                s_andb(m2, cs, k + 1, prev, fuel)
            },
        }
    }
}

/// `not` block: the negation of its first child.
pub open spec fn s_not(m: MView, b: int, prev: Option<VarValView>, fuel: nat) -> (MView, Result<Option<VarValView>, HaltView>)
    decreases fuel, 3int, 0int,
{
    let cs = m.tree[b].children;
    if cs.len() == 0 {
        (m, Err(HaltView::Panic(m.tree[b].script_line)))
    } else {
        let (m2, r) = s_exec(m, cs[0].0 as int, prev, fuel);
        match r {
            Err(h) => (m2, Err(h)),
            Ok(v) => (m2, Ok(Some(vv_bool(!truthy(v, m2))))),
        }
    }
}

/// `eq` block: runs the children one after the other comparing each with
/// the one before; false at the first that differs (one without a value
/// against one with, or two values with different texts). When none
/// differs, true; a single child is compared with no value, so it is true
/// exactly when it has none.
pub open spec fn s_eqb(m: MView, b: int, prev: Option<VarValView>, fuel: nat) -> (MView, Result<Option<VarValView>, HaltView>)
    decreases fuel, 3int, 0int,
{
    let cs = m.tree[b].children;
    if cs.len() == 0 {
        (m, Err(HaltView::Panic(m.tree[b].script_line)))
    } else {
        let (m1, r) = s_exec(m, cs[0].0 as int, prev, fuel);
        match r {
            Err(h) => (m1, Err(h)),
            Ok(before) => s_eq_loop(m1, cs, 1, before, prev, fuel),
        }
    }
}

/// The children `cs[k..]` of an `eq` block, compared with `before`.
pub open spec fn s_eq_loop(m: MView, cs: Seq<GenBlockTup>, k: int, before: Option<VarValView>, prev: Option<VarValView>, fuel: nat) -> (MView, Result<Option<VarValView>, HaltView>)
    decreases fuel, 2int, cs.len() - k,
{
    if k < 0 || k >= cs.len() {
        (m, Ok(Some(vv_bool(if cs.len() == 1 { before is None } else { true }))))
    } else {
        let (m2, r) = s_exec(m, cs[k].0 as int, prev, fuel);
        match r {
            Err(h) => (m2, Err(h)),
            Ok(res) => match res {
                None => if before is Some {
                    (m2, Ok(Some(vv_bool(false))))
                } else {
                    s_eq_loop(m2, cs, k + 1, res, prev, fuel)
                },
                Some(rs) => match before {
                    None => (m2, Ok(Some(vv_bool(false)))),
                    Some(bf) => if bf.value != rs.value {
                        (m2, Ok(Some(vv_bool(false))))
                    } else {
                        s_eq_loop(m2, cs, k + 1, res, prev, fuel)
                    },
                },
            },
        }
    }
}

/// Two results are the same for `neq`: both without a value, or values of
/// the same text.
pub open spec fn same_result(a: Option<VarValView>, b: Option<VarValView>) -> bool {
    match (a, b) {
        (Some(x), Some(y)) => x.value == y.value,
        (None, None) => true,
        _ => false,
    }
}

/// `neq` block: true when a child differs from the first; with a single
/// child, true when it has a value.
pub open spec fn s_neqb(m: MView, b: int, prev: Option<VarValView>, fuel: nat) -> (MView, Result<Option<VarValView>, HaltView>)
    decreases fuel, 3int, 0int,
{
    let cs = m.tree[b].children;
    if cs.len() == 0 {
        (m, Err(HaltView::Panic(m.tree[b].script_line)))
    } else {
        let (m1, r) = s_exec(m, cs[0].0 as int, prev, fuel);
        match r {
            Err(h) => (m1, Err(h)),
            Ok(first) => if cs.len() > 1 {
                s_neq_loop(m1, cs, 1, first, prev, fuel)
            } else {
                (m1, Ok(Some(vv_bool(first is Some))))
            },
        }
    }
}

/// The children `cs[k..]` of a `neq` block, compared with the first.
pub open spec fn s_neq_loop(m: MView, cs: Seq<GenBlockTup>, k: int, first: Option<VarValView>, prev: Option<VarValView>, fuel: nat) -> (MView, Result<Option<VarValView>, HaltView>)
    decreases fuel, 2int, cs.len() - k,
{
    if k < 0 || k >= cs.len() {
        (m, Ok(Some(vv_bool(false))))
    } else {
        let (m2, r) = s_exec(m, cs[k].0 as int, prev, fuel);
        match r {
            Err(h) => (m2, Err(h)),
            Ok(cur) => if same_result(cur, first) {
                s_neq_loop(m2, cs, k + 1, first, prev, fuel)
            } else {
                (m2, Ok(Some(vv_bool(true))))
            },
        }
    }
}

/// `while control`: runs the children while the control variable is true.
/// Nothing when the variable is not set.
pub open spec fn s_while(m: MView, b: int, prev: Option<VarValView>, fuel: nat) -> (MView, Result<Option<VarValView>, HaltView>)
    decreases fuel, 3int, 0int,
{
    let blk = m.tree[b];
    match blk.name {
        None => (m, Err(HaltView::Panic(blk.script_line))),
        Some(ctl) => match search_from(m.tree, b, ctl) {
            None => (m, Ok(None)),
            Some(cv) => if spec_is_true(cv, m.props, m.env) {
                s_while_loop(m, b, ctl, blk.children, prev, fuel)
            } else {
                (m, Ok(prev))
            },
        },
    }
}

/// The rounds of a `while` whose control is true; each round uses a unit
/// of the budget. The control variable must stay set.
pub open spec fn s_while_loop(m: MView, b: int, ctl: Seq<char>, cs: Seq<GenBlockTup>, res: Option<VarValView>, fuel: nat) -> (MView, Result<Option<VarValView>, HaltView>)
    decreases fuel, 2int, 0int,
{
    if fuel == 0 {
        (m, Err(HaltView::OutOfFuel))
    } else {
        let (m2, r) = s_seq(m, cs, 0, res, (fuel - 1) as nat);
        match r {
            Err(h) => (m2, Err(h)),
            Ok(r2) => match search_from(m2.tree, b, ctl) {
                None => (m2, Err(HaltView::Panic(m2.tree[b].script_line))),
                Some(cv) => if spec_is_true(cv, m2.props, m2.env) {
                    s_while_loop(m2, b, ctl, cs, r2, (fuel - 1) as nat)
                } else {
                    (m2, Ok(r2))
                },
            },
        }
    }
}

/// One of the patterns `ps[j..]`, trimmed, equals `val`.
pub open spec fn case_hit(val: Seq<char>, ps: Seq<Seq<char>>, j: int) -> bool
    decreases ps.len() - j,
{
    if j < 0 || j >= ps.len() {
        false
    } else {
        val == spec_trim(ps[j]) || case_hit(val, ps, j + 1)
    }
}

/// The text a `case` compares: the environment or property a variable
/// names (or its value when unset), else its value.
pub open spec fn case_value(v: VarValView, m: MView) -> Seq<char> {
    match v.val_type {
        VarType::Environment => lookup_or(m.env, v.value, v.value),
        VarType::Property => lookup_or(m.props, v.value, v.value),
        _ => v.value,
    }
}

/// `case control`: runs every choice one of whose `|`-separated patterns
/// is the control's value, and the `else` when none was chosen before it.
pub open spec fn s_case(m: MView, b: int, prev: Option<VarValView>, fuel: nat) -> (MView, Result<Option<VarValView>, HaltView>)
    decreases fuel, 3int, 0int,
{
    let blk = m.tree[b];
    match blk.name {
        None => (m, Err(HaltView::Panic(blk.script_line))),
        Some(ctl) => match search_from(m.tree, b, ctl) {
            None => (m, Ok(prev)),
            Some(var) => s_case_loop(m, blk.children, 0, case_value(var, m), false, prev, fuel),
        },
    }
}

/// The choices `cs[k..]` of a `case`.
pub open spec fn s_case_loop(m: MView, cs: Seq<GenBlockTup>, k: int, val: Seq<char>, chosen: bool, res: Option<VarValView>, fuel: nat) -> (MView, Result<Option<VarValView>, HaltView>)
    decreases fuel, 2int, cs.len() - k,
{
    if k < 0 || k >= cs.len() {
        (m, Ok(res))
    } else {
        let c = m.tree[cs[k].0 as int];
        if c.block_type == BlockType::Else {
            if !chosen {
                s_exec(m, cs[k].0 as int, res, fuel)
            } else {
                (m, Ok(res))
            }
        } else {
            let choice = match c.name {
                Some(n) => n,
                None => seq![],
            };
            if case_hit(val, spec_split(choice, seq!['|']), 0) {
                let (m2, r) = s_exec(m, cs[k].0 as int, res, fuel);
                match r {
                    Err(h) => (m2, Err(h)),
                    Ok(r2) => s_case_loop(m2, cs, k + 1, val, true, r2, fuel),
                }
            } else {
                s_case_loop(m, cs, k + 1, val, chosen, res, fuel)
            }
        }
    }
}

/// A copy of a list of block handles.
pub fn copy_handles(v: &Vec<GenBlockTup>) -> (r: Vec<GenBlockTup>)
    ensures
        r@ == v@,
{
    let mut r: Vec<GenBlockTup> = Vec::new();
    let mut i: usize = 0;
    while i < v.len()
        invariant
            i <= v@.len(),
            r@ == v@.take(i as int),
        decreases v@.len() - i,
    {
        r.push(v[i]);
        i += 1;
        assert(r@ =~= v@.take(i as int));
    }
    assert(v@.take(i as int) =~= v@);
    r
}

/// Whether a result is true (see `truthy`).
pub fn truthy_exec(v: &Option<VarVal>, m: &Machine) -> (r: bool)
    ensures
        r == truthy(opt_view(*v), m@),
{
    match v {
        Some(x) => x.is_true(&m.ctx.props, &m.ctx.env),
        None => false,
    }
}

/// The children of block `b` as a list, with the facts callers need.
pub fn children_of(m: &Machine, b: GenBlockTup) -> (r: Vec<GenBlockTup>)
    requires
        tree_wf(m.tree@),
        b.0 < m.tree@.len(),
    ensures
        r@ == m@.tree[b.0 as int].children,
        handles_below(r@, m.tree@.len() as int),
{
    let blk = &m.tree.blocks[b.0];
    assert(m.tree@[b.0 as int] == blk@);
    assert(handles_below(m.tree@[b.0 as int].children, m.tree@.len() as int));
    copy_handles(&blk.children)
}

/// The well-formedness a run keeps: same length, so handles stay valid.
pub proof fn lemma_evolves_len(a: MView, b: MView)
    requires
        evolves(a, b),
    ensures
        a.tree.len() == b.tree.len(),
        forall|i: int| 0 <= i < a.tree.len() ==> #[trigger] b.tree[i].children == a.tree[i].children
            && b.tree[i].block_type == a.tree[i].block_type && b.tree[i].name == a.tree[i].name
            && b.tree[i].script_line == a.tree[i].script_line && b.tree[i].params == a.tree[i].params
            && b.tree[i].dir == a.tree[i].dir && b.tree[i].flex == a.tree[i].flex && b.tree[i].out == a.tree[i].out
            && b.tree[i].deps == a.tree[i].deps && b.tree[i].parent == a.tree[i].parent,
{
    assert forall|i: int| 0 <= i < a.tree.len() implies #[trigger] b.tree[i].children == a.tree[i].children
        && b.tree[i].block_type == a.tree[i].block_type && b.tree[i].name == a.tree[i].name
        && b.tree[i].script_line == a.tree[i].script_line && b.tree[i].params == a.tree[i].params
        && b.tree[i].dir == a.tree[i].dir && b.tree[i].flex == a.tree[i].flex && b.tree[i].out == a.tree[i].out
        && b.tree[i].deps == a.tree[i].deps && b.tree[i].parent == a.tree[i].parent by {
        let _ = a.tree[i];
    }
}

/// Runs the blocks `cs` one after the other (see `s_seq`).
pub fn seq_exec(m: &mut Machine, cs: &Vec<GenBlockTup>, res: Option<VarVal>, fuel: u64) -> (r: Res)
    requires
        tree_wf(old(m).tree@),
        handles_below(cs@, old(m).tree@.len() as int),
    ensures
        (final(m)@, res_view(r)) == s_seq(old(m)@, cs@, 0, opt_view(res), fuel as nat),
        evolves(old(m)@, final(m)@),
    decreases fuel, 1int, 0int,
{
    let ghost m0 = m@;
    let ghost r0 = opt_view(res);
    let mut cur = res;
    let mut k: usize = 0;
    let n = m.tree.blocks.len();
    while k < cs.len()
        invariant
            tree_wf(m.tree@),
            n == m.tree@.len(),
            handles_below(cs@, n as int),
            evolves(old(m)@, m@),
            m0 == old(m)@,
            r0 == opt_view(res),
            k <= cs@.len(),
            s_seq(m0, cs@, 0, r0, fuel as nat) == s_seq(m@, cs@, k as int, opt_view(cur), fuel as nat),
        decreases cs@.len() - k,
    {
        let c = cs[k];
        assert(c.0 < n);
        let ghost m1 = m@;
        let r = c.exec(m, &cur, fuel);
        proof { lemma_evolves_trans(old(m)@, m1, m@); lemma_evolves_len(m1, m@); }
        match r {
            Err(h) => { return Err(h); },
            Ok(v) => { cur = v; },
        }
        k += 1;
    }
    Ok(cur)
}

/// Runs the script block's children but includes and targets (see `s_main`).
pub fn main_exec(m: &mut Machine, cs: &Vec<GenBlockTup>, fuel: u64) -> (r: Res)
    requires
        tree_wf(old(m).tree@),
        handles_below(cs@, old(m).tree@.len() as int),
    ensures
        (final(m)@, res_view(r)) == s_main(old(m)@, cs@, 0, None, fuel as nat),
        evolves(old(m)@, final(m)@),
    decreases fuel, 1int, 0int,
{
    let ghost m0 = m@;
    let mut cur: Option<VarVal> = None;
    let mut k: usize = 0;
    let n = m.tree.blocks.len();
    while k < cs.len()
        invariant
            tree_wf(m.tree@),
            n == m.tree@.len(),
            handles_below(cs@, n as int),
            evolves(old(m)@, m@),
            m0 == old(m)@,
            k <= cs@.len(),
            s_main(m0, cs@, 0, None, fuel as nat) == s_main(m@, cs@, k as int, opt_view(cur), fuel as nat),
        decreases cs@.len() - k,
    {
        let c = cs[k];
        assert(c.0 < n);
        let cb = &m.tree.blocks[c.0];
        assert(m.tree@[c.0 as int] == cb@);
        let skip = (cb.block_type == BlockType::Function && crate::block::opt_string_is(&cb.name, "include"))
            || cb.block_type == BlockType::Target;
        if !skip {
            let ghost m1 = m@;
            let r = c.exec(m, &cur, fuel);
            proof { lemma_evolves_trans(old(m)@, m1, m@); lemma_evolves_len(m1, m@); }
            match r {
                Err(h) => { return Err(h); },
                Ok(v) => { cur = v; },
            }
        }
        k += 1;
    }
    Ok(cur)
}

impl GenBlockTup {
    /// Runs this block with previous result `prev` (see `s_exec`).
    pub fn exec(&self, m: &mut Machine, prev: &Option<VarVal>, fuel: u64) -> (r: Res)
        requires
            tree_wf(old(m).tree@),
            self.0 < old(m).tree@.len(),
        ensures
            (final(m)@, res_view(r)) == s_exec(old(m)@, self.0 as int, opt_view(*prev), fuel as nat),
            evolves(old(m)@, final(m)@),
        decreases fuel, 0int, 0int,
    {
        if fuel == 0 {
            return Err(Halt::OutOfFuel);
        }
        let f = fuel - 1;
        let bt = m.tree.blocks[self.0].block_type;
        let line = m.tree.blocks[self.0].script_line;
        assert(m.tree@[self.0 as int] == m.tree.blocks@[self.0 as int]@);
        match bt {
            BlockType::Scope | BlockType::Then | BlockType::Else | BlockType::Choice => {
                let cs = children_of(m, *self);
                seq_exec(m, &cs, dup_opt(prev), f)
            },
            BlockType::Main => {
                let cs = children_of(m, *self);
                main_exec(m, &cs, f)
            },
            BlockType::If => self.if_exec(m, prev, f),
            BlockType::Function => self.exec_fun(m, prev, f),
            BlockType::For => self.for_exec(m, prev, f),
            BlockType::Or => self.or_and_exec(m, prev, f, true),
            BlockType::And => self.or_and_exec(m, prev, f, false),
            BlockType::Not => self.not_exec(m, prev, f),
            BlockType::Eq => self.eq_exec(m, prev, f),
            BlockType::Neq => self.neq_exec(m, prev, f),
            BlockType::While => self.while_exec(m, prev, f),
            BlockType::Case => self.case_exec(m, prev, f),
            _ => Err(Halt::Panic(line)),
        }
    }

    fn if_exec(&self, m: &mut Machine, prev: &Option<VarVal>, fuel: u64) -> (r: Res)
        requires
            tree_wf(old(m).tree@),
            self.0 < old(m).tree@.len(),
        ensures
            (final(m)@, res_view(r)) == s_if(old(m)@, self.0 as int, opt_view(*prev), fuel as nat),
            evolves(old(m)@, final(m)@),
        decreases fuel, 3int, 0int,
    {
        let line = m.tree.blocks[self.0].script_line;
        assert(m.tree@[self.0 as int] == m.tree.blocks@[self.0 as int]@);
        let cs = children_of(m, *self);
        if cs.len() == 0 {
            return Err(Halt::Panic(line));
        }
        let n = m.tree.blocks.len();
        assert(cs[0].0 < n);
        let ghost m0 = m@;
        let r = cs[0].exec(m, prev, fuel);
        proof { lemma_evolves_len(m0, m@); }
        let res = match r {
            Err(h) => { return Err(h); },
            Ok(v) => v,
        };
        let t = truthy_exec(&res, m);
        if t {
            if cs.len() < 2 {
                return Err(Halt::Panic(line));
            }
            assert(cs[1].0 < n);
            assert(m.tree@[cs[1].0 as int] == m.tree.blocks@[cs[1].0 as int]@);
            if m.tree.blocks[cs[1].0].block_type == BlockType::Then {
                let ghost m1 = m@;
                let r2 = cs[1].exec(m, prev, fuel);
                proof { lemma_evolves_trans(m0, m1, m@); }
                r2
            } else {
                Ok(res)
            }
        } else {
            if cs.len() == 2 {
                assert(cs[1].0 < n);
                assert(m.tree@[cs[1].0 as int] == m.tree.blocks@[cs[1].0 as int]@);
                if m.tree.blocks[cs[1].0].block_type == BlockType::Else {
                    let ghost m1 = m@;
                    let r2 = cs[1].exec(m, prev, fuel);
                    proof { lemma_evolves_trans(m0, m1, m@); }
                    return r2;
                }
            }
            if cs.len() == 3 {
                assert(cs[2].0 < n);
                assert(m.tree@[cs[2].0 as int] == m.tree.blocks@[cs[2].0 as int]@);
                if m.tree.blocks[cs[2].0].block_type == BlockType::Else {
                    let ghost m1 = m@;
                    let r2 = cs[2].exec(m, prev, fuel);
                    proof { lemma_evolves_trans(m0, m1, m@); }
                    return r2;
                }
            }
            Ok(res)
        }
    }

    fn or_and_exec(&self, m: &mut Machine, prev: &Option<VarVal>, fuel: u64, any: bool) -> (r: Res)
        requires
            tree_wf(old(m).tree@),
            self.0 < old(m).tree@.len(),
        ensures
            (final(m)@, res_view(r)) == (if any {
                s_orb(old(m)@, old(m)@.tree[self.0 as int].children, 0, opt_view(*prev), fuel as nat)
            } else {
                s_andb(old(m)@, old(m)@.tree[self.0 as int].children, 0, opt_view(*prev), fuel as nat)
            }),
            evolves(old(m)@, final(m)@),
        decreases fuel, 3int, 0int,
    {
        let cs = children_of(m, *self);
        let ghost m0 = m@;
        let n = m.tree.blocks.len();
        let mut k: usize = 0;
        while k < cs.len()
            invariant
                tree_wf(m.tree@),
                n == m.tree@.len(),
                handles_below(cs@, n as int),
                evolves(old(m)@, m@),
                m0 == old(m)@,
                self.0 < n,
                cs@ == m0.tree[self.0 as int].children,
                k <= cs@.len(),
                any ==> s_orb(m0, cs@, 0, opt_view(*prev), fuel as nat) == s_orb(m@, cs@, k as int, opt_view(*prev), fuel as nat),
                !any ==> s_andb(m0, cs@, 0, opt_view(*prev), fuel as nat) == s_andb(m@, cs@, k as int, opt_view(*prev), fuel as nat),
            decreases cs@.len() - k,
        {
            let c = cs[k];
            assert(c.0 < n);
            let ghost m1 = m@;
            let r = c.exec(m, prev, fuel);
            proof { lemma_evolves_trans(old(m)@, m1, m@); lemma_evolves_len(m1, m@); }
            match r {
                Err(h) => { return Err(h); },
                Ok(v) => {
                    let t = truthy_exec(&v, m);
                    if t == any {
                        return Ok(Some(VarVal::from_bool(any)));
                    }
                },
            }
            k += 1;
        }
        Ok(Some(VarVal::from_bool(!any)))
    }

    fn not_exec(&self, m: &mut Machine, prev: &Option<VarVal>, fuel: u64) -> (r: Res)
        requires
            tree_wf(old(m).tree@),
            self.0 < old(m).tree@.len(),
        ensures
            (final(m)@, res_view(r)) == s_not(old(m)@, self.0 as int, opt_view(*prev), fuel as nat),
            evolves(old(m)@, final(m)@),
        decreases fuel, 3int, 0int,
    {
        let line = m.tree.blocks[self.0].script_line;
        assert(m.tree@[self.0 as int] == m.tree.blocks@[self.0 as int]@);
        let cs = children_of(m, *self);
        if cs.len() == 0 {
            return Err(Halt::Panic(line));
        }
        assert(cs[0].0 < m.tree@.len());
        match cs[0].exec(m, prev, fuel) {
            Err(h) => Err(h),
            Ok(v) => {
                let t = truthy_exec(&v, m);
                Ok(Some(VarVal::from_bool(!t)))
            },
        }
    }

    fn eq_exec(&self, m: &mut Machine, prev: &Option<VarVal>, fuel: u64) -> (r: Res)
        requires
            tree_wf(old(m).tree@),
            self.0 < old(m).tree@.len(),
        ensures
            (final(m)@, res_view(r)) == s_eqb(old(m)@, self.0 as int, opt_view(*prev), fuel as nat),
            evolves(old(m)@, final(m)@),
        decreases fuel, 3int, 0int,
    {
        let line = m.tree.blocks[self.0].script_line;
        assert(m.tree@[self.0 as int] == m.tree.blocks@[self.0 as int]@);
        let cs = children_of(m, *self);
        if cs.len() == 0 {
            return Err(Halt::Panic(line));
        }
        let n = m.tree.blocks.len();
        assert(cs[0].0 < n);
        let mut before = match cs[0].exec(m, prev, fuel) {
            Err(h) => { return Err(h); },
            Ok(v) => v,
        };
        let ghost m1 = m@;
        let mut k: usize = 1;
        while k < cs.len()
            invariant
                tree_wf(m.tree@),
                n == m.tree@.len(),
                handles_below(cs@, n as int),
                evolves(old(m)@, m@),
                1 <= k <= cs@.len(),
                s_eqb(old(m)@, self.0 as int, opt_view(*prev), fuel as nat)
                    == s_eq_loop(m@, cs@, k as int, opt_view(before), opt_view(*prev), fuel as nat),
            decreases cs@.len() - k,
        {
            let c = cs[k];
            assert(c.0 < n);
            let ghost m2 = m@;
            let r = c.exec(m, prev, fuel);
            proof { lemma_evolves_trans(old(m)@, m2, m@); lemma_evolves_len(m2, m@); }
            let res = match r {
                Err(h) => { return Err(h); },
                Ok(v) => v,
            };
            match &res {
                None => if before.is_some() {
                    return Ok(Some(VarVal::from_bool(false)));
                },
                Some(rs) => match &before {
                    None => { return Ok(Some(VarVal::from_bool(false))); },
                    Some(bf) => if !crate::text::str_eq(bf.value.as_str(), rs.value.as_str()) {
                        return Ok(Some(VarVal::from_bool(false)));
                    },
                },
            }
            before = res;
            k += 1;
        }
        Ok(Some(VarVal::from_bool(if cs.len() == 1 { before.is_none() } else { true })))
    }

    fn neq_exec(&self, m: &mut Machine, prev: &Option<VarVal>, fuel: u64) -> (r: Res)
        requires
            tree_wf(old(m).tree@),
            self.0 < old(m).tree@.len(),
        ensures
            (final(m)@, res_view(r)) == s_neqb(old(m)@, self.0 as int, opt_view(*prev), fuel as nat),
            evolves(old(m)@, final(m)@),
        decreases fuel, 3int, 0int,
    {
        let line = m.tree.blocks[self.0].script_line;
        assert(m.tree@[self.0 as int] == m.tree.blocks@[self.0 as int]@);
        let cs = children_of(m, *self);
        if cs.len() == 0 {
            return Err(Halt::Panic(line));
        }
        let n = m.tree.blocks.len();
        assert(cs[0].0 < n);
        let first = match cs[0].exec(m, prev, fuel) {
            Err(h) => { return Err(h); },
            Ok(v) => v,
        };
        if cs.len() <= 1 {
            return Ok(Some(VarVal::from_bool(first.is_some())));
        }
        let mut k: usize = 1;
        while k < cs.len()
            invariant
                tree_wf(m.tree@),
                n == m.tree@.len(),
                handles_below(cs@, n as int),
                evolves(old(m)@, m@),
                1 <= k <= cs@.len(),
                s_neqb(old(m)@, self.0 as int, opt_view(*prev), fuel as nat)
                    == s_neq_loop(m@, cs@, k as int, opt_view(first), opt_view(*prev), fuel as nat),
            decreases cs@.len() - k,
        {
            let c = cs[k];
            assert(c.0 < n);
            let ghost m2 = m@;
            let r = c.exec(m, prev, fuel);
            proof { lemma_evolves_trans(old(m)@, m2, m@); lemma_evolves_len(m2, m@); }
            let cur = match r {
                Err(h) => { return Err(h); },
                Ok(v) => v,
            };
            let same = match (&cur, &first) {
                (Some(c), Some(f)) => crate::text::str_eq(c.value.as_str(), f.value.as_str()),
                (None, None) => true,
                _ => false,
            };
            if !same {
                return Ok(Some(VarVal::from_bool(true)));
            }
            k += 1;
        }
        Ok(Some(VarVal::from_bool(false)))
    }
}

impl GenBlockTup {
    /// The values a `for` runs over (see `s_for_range`).
    fn for_range(&self, m: &Machine, ro: &String, prev: &Option<VarVal>) -> (r: Result<Option<Vec<String>>, Halt>)
        requires
            tree_wf(m.tree@),
            self.0 < m.tree@.len(),
        ensures
            match r {
                Ok(Some(v)) => s_for_range(m@, self.0 as int, ro@, opt_view(*prev)) == Ok::<Option<Seq<Seq<char>>>, HaltView>(Some(views(v@))),
                Ok(None) => s_for_range(m@, self.0 as int, ro@, opt_view(*prev)) == Ok::<Option<Seq<Seq<char>>>, HaltView>(None),
                Err(h) => s_for_range(m@, self.0 as int, ro@, opt_view(*prev)) == Err::<Option<Seq<Seq<char>>>, HaltView>(h@),
            },
    {
        let blk = &m.tree.blocks[self.0];
        assert(m.tree@[self.0 as int] == blk@);
        let sc = match &blk.flex {
            Some(x) => Some(x.clone()),
            None => None,
        };
        match m.lookup(*self, ro.as_str(), prev) {
            Some(rv) => if rv.val_type == VarType::Array {
                Ok(Some(rv.values))
            } else {
                match sc {
                    None => Ok(None),
                    Some(sc) => match m.tmpl(*self, rv.value.as_str(), prev) {
                        Err(h) => Err(h),
                        Ok(t) => {
                            let sep = self.for_sep_exec(m, &sc);
                            Ok(Some(split(&to_chars(t.as_str()), &to_chars(sep.as_str()))))
                        },
                    },
                }
            },
            None => match sc {
                None => Ok(None),
                Some(sc) => {
                    let sep = self.for_sep_exec(m, &sc);
                    Ok(Some(split(&to_chars(ro.as_str()), &to_chars(sep.as_str()))))
                },
            },
        }
    }

    fn for_sep_exec(&self, m: &Machine, sc: &String) -> (r: String)
        requires
            tree_wf(m.tree@),
        ensures
            r@ == for_sep(m@, self.0 as int, sc@),
    {
        match m.search(*self, sc.as_str()) {
            Some(v) => v.value,
            None => sc.clone(),
        }
    }

    fn for_exec(&self, m: &mut Machine, prev: &Option<VarVal>, fuel: u64) -> (r: Res)
        requires
            tree_wf(old(m).tree@),
            self.0 < old(m).tree@.len(),
        ensures
            (final(m)@, res_view(r)) == s_for(old(m)@, self.0 as int, opt_view(*prev), fuel as nat),
            evolves(old(m)@, final(m)@),
        decreases fuel, 3int, 0int,
    {
        let blk = &m.tree.blocks[self.0];
        assert(m.tree@[self.0 as int] == blk@);
        let name = match &blk.name {
            None => { return Ok(None); },
            Some(n) => n.clone(),
        };
        let ro = match &blk.dir {
            None => { return Ok(None); },
            Some(d) => d.clone(),
        };
        if ro.as_str().is_empty() {
            return Ok(None);
        }
        let range = match self.for_range(m, &ro, prev) {
            Err(h) => { return Err(h); },
            Ok(None) => { return Ok(None); },
            Ok(Some(v)) => v,
        };
        let cs = children_of(m, *self);
        let n = m.tree.blocks.len();
        let mut res = dup_opt(prev);
        let mut idx: usize = 0;
        let mut iname: Vec<char> = Vec::new();
        iname.push('~'); iname.push('i'); iname.push('n'); iname.push('d'); iname.push('e'); iname.push('x'); iname.push('~');
        proof {
            reveal_strlit("~index~");
            assert(iname@ =~= index_name());
        }
        while idx < range.len()
            invariant
                tree_wf(m.tree@),
                n == m.tree@.len(),
                self.0 < n,
                handles_below(cs@, n as int),
                evolves(old(m)@, m@),
                idx <= range@.len(),
                iname@ == index_name(),
                s_for(old(m)@, self.0 as int, opt_view(*prev), fuel as nat)
                    == s_for_loop(m@, self.0 as int, name@, views(range@), idx as int, cs@, opt_view(res), fuel as nat),
            decreases range@.len() - idx,
        {
            let ghost m1 = m@;
            let _ = m.set_var(*self, name.clone(), VarVal::from_string(range[idx].as_str()));
            let ghost m2 = m@;
            let d = nat_digits(idx as u64);
            let iv = VarVal { val_type: VarType::Number, value: string_from_chars(&d), values: Vec::new() };
            assert(iv@.values =~= seq![]);
            let _ = m.set_var(*self, string_from_chars(&iname), iv);
            proof {
                lemma_evolves_trans(m1, m2, m@);
                lemma_evolves_trans(old(m)@, m1, m@);
                assert(m@ == for_round(m1, self.0 as int, name@, views(range@), idx as int));
            }
            let ghost m3 = m@;
            let r = seq_exec(m, &cs, res, fuel);
            proof { lemma_evolves_trans(old(m)@, m3, m@); lemma_evolves_len(m3, m@); }
            match r {
                Err(h) => { return Err(h); },
                Ok(v) => { res = v; },
            }
            idx += 1;
        }
        Ok(res)
    }

    fn while_exec(&self, m: &mut Machine, prev: &Option<VarVal>, fuel: u64) -> (r: Res)
        requires
            tree_wf(old(m).tree@),
            self.0 < old(m).tree@.len(),
        ensures
            (final(m)@, res_view(r)) == s_while(old(m)@, self.0 as int, opt_view(*prev), fuel as nat),
            evolves(old(m)@, final(m)@),
        decreases fuel, 3int, 0int,
    {
        let blk = &m.tree.blocks[self.0];
        assert(m.tree@[self.0 as int] == blk@);
        let line = blk.script_line;
        let ctl = match &blk.name {
            None => { return Err(Halt::Panic(line)); },
            Some(n) => n.clone(),
        };
        let cv = match m.search(*self, ctl.as_str()) {
            None => { return Ok(None); },
            Some(v) => v,
        };
        if !cv.is_true(&m.ctx.props, &m.ctx.env) {
            return Ok(dup_opt(prev));
        }
        let cs = children_of(m, *self);
        let n = m.tree.blocks.len();
        let mut res = dup_opt(prev);
        let mut left = fuel;
        loop
            invariant
                tree_wf(m.tree@),
                n == m.tree@.len(),
                self.0 < n,
                handles_below(cs@, n as int),
                evolves(old(m)@, m@),
                left <= fuel,
                line == m@.tree[self.0 as int].script_line,
                s_while(old(m)@, self.0 as int, opt_view(*prev), fuel as nat)
                    == s_while_loop(m@, self.0 as int, ctl@, cs@, opt_view(res), left as nat),
            decreases left,
        {
            if left == 0 {
                return Err(Halt::OutOfFuel);
            }
            let ghost m1 = m@;
            let r = seq_exec(m, &cs, res, left - 1);
            proof { lemma_evolves_trans(old(m)@, m1, m@); lemma_evolves_len(m1, m@); }
            match r {
                Err(h) => { return Err(h); },
                Ok(v) => { res = v; },
            }
            let cv = match m.search(*self, ctl.as_str()) {
                None => { return Err(Halt::Panic(line)); },
                Some(v) => v,
            };
            if !cv.is_true(&m.ctx.props, &m.ctx.env) {
                return Ok(res);
            }
            left -= 1;
        }
    }

    fn case_exec(&self, m: &mut Machine, prev: &Option<VarVal>, fuel: u64) -> (r: Res)
        requires
            tree_wf(old(m).tree@),
            self.0 < old(m).tree@.len(),
        ensures
            (final(m)@, res_view(r)) == s_case(old(m)@, self.0 as int, opt_view(*prev), fuel as nat),
            evolves(old(m)@, final(m)@),
        decreases fuel, 3int, 0int,
    {
        let blk = &m.tree.blocks[self.0];
        assert(m.tree@[self.0 as int] == blk@);
        let line = blk.script_line;
        let ctl = match &blk.name {
            None => { return Err(Halt::Panic(line)); },
            Some(n) => n.clone(),
        };
        let var = match m.search(*self, ctl.as_str()) {
            None => { return Ok(dup_opt(prev)); },
            Some(v) => v,
        };
        let val = case_value_exec(&var, m);
        let cs = children_of(m, *self);
        let n = m.tree.blocks.len();
        let mut res = dup_opt(prev);
        let mut chosen = false;
        let mut k: usize = 0;
        let mut bar: Vec<char> = Vec::new();
        bar.push('|');
        assert(bar@ =~= seq!['|']);
        while k < cs.len()
            invariant
                tree_wf(m.tree@),
                n == m.tree@.len(),
                handles_below(cs@, n as int),
                evolves(old(m)@, m@),
                k <= cs@.len(),
                bar@ == seq!['|'],
                s_case(old(m)@, self.0 as int, opt_view(*prev), fuel as nat)
                    == s_case_loop(m@, cs@, k as int, val@, chosen, opt_view(res), fuel as nat),
            decreases cs@.len() - k,
        {
            let c = cs[k];
            assert(c.0 < n);
            let cb = &m.tree.blocks[c.0];
            assert(m.tree@[c.0 as int] == cb@);
            if cb.block_type == BlockType::Else {
                if !chosen {
                    let ghost m1 = m@;
                    let r = c.exec(m, &res, fuel);
                    proof { lemma_evolves_trans(old(m)@, m1, m@); }
                    return r;
                } else {
                    return Ok(res);
                }
            }
            let choice: Vec<char> = match &cb.name {
                Some(x) => to_chars(x.as_str()),
                None => Vec::new(),
            };
            let pats = split(&choice, &bar);
            if case_hit_exec(&val, &pats) {
                let ghost m1 = m@;
                let r = c.exec(m, &res, fuel);
                proof { lemma_evolves_trans(old(m)@, m1, m@); lemma_evolves_len(m1, m@); }
                match r {
                    Err(h) => { return Err(h); },
                    Ok(v) => {
                        res = v;
                        chosen = true;
                    },
                }
            }
            k += 1;
        }
        Ok(res)
    }
}

/// The text a `case` compares (see `case_value`).
fn case_value_exec(v: &VarVal, m: &Machine) -> (r: String)
    ensures
        r@ == case_value(v@, m@),
{
    match v.val_type {
        VarType::Environment => match m.ctx.env.get(v.value.as_str()) {
            Some(x) => x,
            None => v.value.clone(),
        },
        VarType::Property => match m.ctx.props.get(v.value.as_str()) {
            Some(x) => x,
            None => v.value.clone(),
        },
        _ => v.value.clone(),
    }
}

/// Whether one of the patterns, trimmed, is `val` (see `case_hit`).
fn case_hit_exec(val: &String, ps: &Vec<String>) -> (r: bool)
    ensures
        r == case_hit(val@, views(ps@), 0),
{
    let v = to_chars(val.as_str());
    let mut j: usize = 0;
    while j < ps.len()
        invariant
            j <= ps@.len(),
            v@ == val@,
            case_hit(val@, views(ps@), j as int) == case_hit(val@, views(ps@), 0),
        decreases ps@.len() - j,
    {
        let t = trim(&to_chars(ps[j].as_str()));
        if crate::text::chars_eq(&v, &t) {
            return true;
        }
        j += 1;
    }
    false
}


/// In each round of a `for`, the loop variable holds the round's element
/// and `~index~` the round's index, in the block of the `for`; no other
/// block changes.
pub proof fn law_for_round_binds(m: MView, b: int, name: Seq<char>, range: Seq<Seq<char>>, idx: int)
    requires
        0 <= b < m.tree.len(),
        0 <= idx < range.len(),
        name != index_name(),
    ensures
        for_round(m, b, name, range, idx).tree[b].vars.contains_key(name),
        for_round(m, b, name, range, idx).tree[b].vars[name] == vv_text(range[idx]),
        for_round(m, b, name, range, idx).tree[b].vars.contains_key(index_name()),
        for_round(m, b, name, range, idx).tree[b].vars[index_name()] == (VarValView {
            val_type: VarType::Number,
            value: spec_nat_digits(idx as nat),
            values: seq![],
        }),
        forall|j: int| 0 <= j < m.tree.len() && j != b ==> #[trigger] for_round(m, b, name, range, idx).tree[j] == m.tree[j],
{
}

} // verus!
