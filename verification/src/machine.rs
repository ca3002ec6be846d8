//! The state of a running script: its block tree (whose variables change as
//! it runs), the properties and environment, and the answers to the requests
//! made so far. Every step of the interpreter is stated over the view of this
//! state, `MView`.
use vstd::prelude::*;
use crate::block::{
    opt_view, prev_val_name, search_from, set_vars, tree_wf, parent_before, handles_below, BlockTree, BlockView,
    GenBlockTup,
};
use crate::io::{answer_views, Halt, HaltView, IoAnswer, IoAnswerView, IoRequest, IoRequestView};
use crate::lex::{lookup_or, text_string, VarType, VarVal, VarValView};
use crate::parse::{cwd_name, cwd_text, TEMPLATE_FUEL};
use crate::template::{expand_template, lemma_plain_text_iter, tmpl_iter, TmplEnv};
use crate::text::{string_from_chars, to_chars};
use crate::util::{join_chars, join_with, views};
use crate::vars::Context;

verus! {

/// A script being run.
pub struct Machine {
    pub tree: BlockTree,
    pub ctx: Context,
    /// the answers to the requests of this run, in the order they are asked
    pub answers: Vec<IoAnswer>,
    /// how many answers were used so far
    pub pos: usize,
    /// how many passes an interpolation may take before the run stops
    /// with `Endless`
    pub tmpl_fuel: usize,
}

/// The mathematical content of a `Machine`.
pub struct MView {
    pub tree: Seq<BlockView>,
    pub props: Map<Seq<char>, Seq<char>>,
    pub env: Map<Seq<char>, Seq<char>>,
    pub answers: Seq<IoAnswerView>,
    pub pos: int,
    pub tfuel: nat,
}

impl View for Machine {
    type V = MView;

    open spec fn view(&self) -> MView {
        MView {
            tree: self.tree@,
            props: self.ctx.props@,
            env: self.ctx.env@,
            answers: answer_views(self.answers@),
            pos: self.pos as int,
            tfuel: self.tmpl_fuel as nat,
        }
    }
}

/// What a step gives: a value (or none), or the reason the run stopped.
pub type Res = Result<Option<VarVal>, Halt>;

/// The mathematical content of a `Res`.
pub type ResView = Result<Option<VarValView>, HaltView>;

/// The view of a step result.
pub open spec fn res_view(r: Res) -> ResView {
    match r {
        Ok(v) => Ok(opt_view(v)),
        Err(h) => Err(h@),
    }
}

/// The view of a text result.
pub open spec fn tres(r: Result<String, Halt>) -> Result<Seq<char>, HaltView> {
    match r {
        Ok(t) => Ok(t@),
        Err(h) => Err(h@),
    }
}

/// The view of a yes-or-no result.
pub open spec fn bres(r: Result<bool, Halt>) -> Result<bool, HaltView> {
    match r {
        Ok(b) => Ok(b),
        Err(h) => Err(h@),
    }
}

/// The two trees have the same blocks with the same links and attributes;
/// only their variables may differ.
pub open spec fn same_shape(a: Seq<BlockView>, b: Seq<BlockView>) -> bool {
    &&& a.len() == b.len()
    &&& forall|i: int| 0 <= i < a.len() ==> {
        let x = #[trigger] a[i];
        let y = b[i];
        &&& x.name == y.name
        &&& x.block_type == y.block_type
        &&& x.dir == y.dir
        &&& x.flex == y.flex
        &&& x.out == y.out
        &&& x.params == y.params
        &&& x.children == y.children
        &&& x.deps == y.deps
        &&& x.parent == y.parent
        &&& x.script_line == y.script_line
    }
}

/// `b` is a state a run can reach from `a`: the tree keeps its shape and
/// stays well formed; the environment and the answers do not change.
pub open spec fn evolves(a: MView, b: MView) -> bool {
    &&& tree_wf(b.tree)
    &&& same_shape(a.tree, b.tree)
    &&& b.env == a.env
    &&& b.answers == a.answers
    &&& b.tfuel == a.tfuel
}

/// Reaching is transitive.
pub proof fn lemma_evolves_trans(a: MView, b: MView, c: MView)
    requires
        evolves(a, b),
        evolves(b, c),
    ensures
        evolves(a, c),
{
    assert forall|i: int| 0 <= i < a.tree.len() implies {
        let x = #[trigger] a.tree[i];
        let y = c.tree[i];
        &&& x.name == y.name
        &&& x.block_type == y.block_type
        &&& x.dir == y.dir
        &&& x.flex == y.flex
        &&& x.out == y.out
        &&& x.params == y.params
        &&& x.children == y.children
        &&& x.deps == y.deps
        &&& x.parent == y.parent
        &&& x.script_line == y.script_line
    } by {
        let _ = b.tree[i];
    }
}

/// The state after the answer for request `r` is taken: the next answer when
/// there is one, else the run stops and asks for it.
pub open spec fn s_ask(m: MView, r: IoRequestView) -> (MView, Result<IoAnswerView, HaltView>) {
    if 0 <= m.pos < m.answers.len() {
        (MView { pos: m.pos + 1, ..m }, Ok(m.answers[m.pos]))
    } else {
        (m, Err(HaltView::NeedIo(r)))
    }
}

/// The view of an answer result.
pub open spec fn ares(r: Result<IoAnswer, Halt>) -> Result<IoAnswerView, HaltView> {
    match r {
        Ok(a) => Ok(a@),
        Err(h) => Err(h@),
    }
}

/// The state with `name` set to `v` in block `i`.
pub open spec fn mv_set_var(m: MView, i: int, name: Seq<char>, v: VarValView) -> MView {
    MView { tree: set_vars(m.tree, i, m.tree[i].vars.insert(name, v)), ..m }
}

/// The state with `name` removed from block `i`.
pub open spec fn mv_del_var(m: MView, i: int, name: Seq<char>) -> MView {
    MView { tree: set_vars(m.tree, i, m.tree[i].vars.remove(name)), ..m }
}

/// The value `name` has for block `b`: `~~` is the previous result `prev`,
/// any other name is looked up from `b` upwards.
pub open spec fn s_lookup(m: MView, b: int, name: Seq<char>, prev: Option<VarValView>) -> Option<VarValView> {
    if name == prev_val_name() {
        prev
    } else {
        search_from(m.tree, b, name)
    }
}

/// The interpolation environment of block `b`.
pub open spec fn s_tenv(m: MView, b: int, prev: Option<VarValView>) -> TmplEnv {
    TmplEnv { tree: m.tree, block: m.tree[b], prev, props: m.props, env: m.env }
}

/// The interpolation of `s` for block `b`; the run stops with `Endless`
/// where it takes more passes than the run's interpolation budget.
pub open spec fn s_tmpl(m: MView, b: int, s: Seq<char>, prev: Option<VarValView>) -> Result<Seq<char>, HaltView> {
    match tmpl_iter(s_tenv(m, b, prev), s, m.tfuel) {
        Some(t) => Ok(t),
        None => Err(HaltView::Endless(m.tree[b].script_line)),
    }
}

/// The text a variable gives as a function parameter: the environment or
/// property it names (or its value when unset), its elements joined by tabs
/// when it has elements, else its value.
pub open spec fn param_text(v: VarValView, props: Map<Seq<char>, Seq<char>>, env: Map<Seq<char>, Seq<char>>) -> Seq<char> {
    match v.val_type {
        VarType::Environment => lookup_or(env, v.value, v.value),
        VarType::Property => lookup_or(props, v.value, v.value),
        _ => if v.values.len() == 0 {
            v.value
        } else {
            join_with(v.values, seq!['\t'])
        },
    }
}

/// A parameter text `p` of block `b` expanded: the text of the variable it
/// names, or `p` itself, then interpolated.
pub open spec fn s_expand(m: MView, b: int, p: Seq<char>, prev: Option<VarValView>) -> Result<Seq<char>, HaltView> {
    match s_lookup(m, b, p, prev) {
        None => s_tmpl(m, b, p, prev),
        Some(v) => s_tmpl(m, b, param_text(v, m.props, m.env), prev),
    }
}

/// Parameter `i` of block `b`, expanded; an empty text when there is none.
pub open spec fn s_param(m: MView, b: int, i: int, prev: Option<VarValView>) -> Result<Seq<char>, HaltView> {
    if 0 <= i < m.tree[b].params.len() {
        s_expand(m, b, m.tree[b].params[i], prev)
    } else {
        Ok(seq![])
    }
}

/// The working directory seen from block `b`, if set.
pub open spec fn s_cwd(m: MView, b: int) -> Option<Seq<char>> {
    match search_from(m.tree, b, cwd_name()) {
        Some(v) => Some(v.value),
        None => None,
    }
}

/// `f` made absolute with the working directory `cwd`: `cwd/f` unless `f`
/// starts at the root or no directory is set.
pub open spec fn rooted(f: Seq<char>, cwd: Option<Seq<char>>) -> Seq<char> {
    if f.len() > 0 && f[0] == '/' {
        f
    } else {
        match cwd {
            Some(c) => c + seq!['/'] + f,
            None => f,
        }
    }
}

/// `f` joined to `cwd` unless it starts at the root (an unset directory
/// counts as empty).
pub open spec fn under(f: Seq<char>, cwd: Seq<char>) -> Seq<char> {
    if f.len() > 0 && f[0] == '/' { f } else { cwd + seq!['/'] + f }
}

/// The text of the working directory seen from `b`, empty when unset.
pub open spec fn cwd_or_empty(m: MView, b: int) -> Seq<char> {
    match s_cwd(m, b) {
        Some(c) => c,
        None => seq![],
    }
}

/// The script line of block `b`.
pub open spec fn line_of(m: MView, b: int) -> u32 {
    m.tree[b].script_line
}

/// `a` followed by `/` and `b`.
pub fn path_join(a: &str, b: &str) -> (r: String)
    ensures
        r@ == a@ + seq!['/'] + b@,
{
    let mut x = to_chars(a);
    x.push('/');
    let y = to_chars(b);
    crate::text::append_chars(&mut x, &y);
    string_from_chars(&x)
}

/// `f` made absolute with `cwd` (see `rooted`).
pub fn rooted_exec(f: String, cwd: &Option<String>) -> (r: String)
    ensures
        r@ == rooted(f@, match cwd {
            Some(c) => Some(c@),
            None => None,
        }),
{
    if crate::util::has_root(f.as_str()) {
        f
    } else {
        match cwd {
            Some(c) => path_join(c.as_str(), f.as_str()),
            None => f,
        }
    }
}

/// `f` joined to `cwd` unless rooted (see `under`).
pub fn under_exec(f: String, cwd: &String) -> (r: String)
    ensures
        r@ == under(f@, cwd@),
{
    if crate::util::has_root(f.as_str()) {
        f
    } else {
        path_join(cwd.as_str(), f.as_str())
    }
}

/// An empty text.
pub fn empty_text() -> (r: String)
    ensures
        r@ == Seq::<char>::empty(),
{
    let e: Vec<char> = Vec::new();
    string_from_chars(&e)
}

impl Machine {
    /// A machine at the start of a run over `tree` with the given answers.
    pub fn new(tree: BlockTree, ctx: Context, answers: Vec<IoAnswer>) -> (r: Machine)
        ensures
            r.tree@ == tree@,
            r.ctx.props@ == ctx.props@,
            r.ctx.env@ == ctx.env@,
            r.answers@ == answers@,
            r.pos == 0,
            r.tmpl_fuel == TEMPLATE_FUEL,
    {
        Machine { tree, ctx, answers, pos: 0, tmpl_fuel: TEMPLATE_FUEL }
    }

    /// Takes the answer for request `r` (see `s_ask`).
    pub fn ask(&mut self, r: IoRequest) -> (a: Result<IoAnswer, Halt>)
        requires
            tree_wf(old(self).tree@),
        ensures
            (final(self)@, ares(a)) == s_ask(old(self)@, r@),
            evolves(old(self)@, final(self)@),
    {
        if self.pos < self.answers.len() {
            let a = self.answers[self.pos].duplicate();
            self.pos = self.pos + 1;
            Ok(a)
        } else {
            Err(Halt::NeedIo(r))
        }
    }

    /// Sets `name` to `v` in block `b`; the value it replaced.
    pub fn set_var(&mut self, b: GenBlockTup, name: String, v: VarVal) -> (r: Option<VarVal>)
        requires
            tree_wf(old(self).tree@),
            b.0 < old(self).tree@.len(),
        ensures
            final(self)@ == mv_set_var(old(self)@, b.0 as int, name@, v@),
            evolves(old(self)@, final(self)@),
            opt_view(r) == (if old(self).tree@[b.0 as int].vars.contains_key(name@) {
                Some(old(self).tree@[b.0 as int].vars[name@])
            } else {
                None
            }),
    {
        let r = b.add_var(&mut self.tree, name, v);
        r
    }

    /// Removes `name` from block `b`; the value it held.
    pub fn del_var(&mut self, b: GenBlockTup, name: &str) -> (r: Option<VarVal>)
        requires
            tree_wf(old(self).tree@),
            b.0 < old(self).tree@.len(),
        ensures
            final(self)@ == mv_del_var(old(self)@, b.0 as int, name@),
            evolves(old(self)@, final(self)@),
            opt_view(r) == (if old(self).tree@[b.0 as int].vars.contains_key(name@) {
                Some(old(self).tree@[b.0 as int].vars[name@])
            } else {
                None
            }),
    {
        b.remove_var(&mut self.tree, name)
    }

    /// The value of `name` for block `b` (see `s_lookup`).
    pub fn lookup(&self, b: GenBlockTup, name: &str, prev: &Option<VarVal>) -> (r: Option<VarVal>)
        requires
            tree_wf(self.tree@),
        ensures
            opt_view(r) == s_lookup(self@, b.0 as int, name@, opt_view(*prev)),
    {
        b.prev_or_search_up(&self.tree, name, prev)
    }

    /// The value of `name` seen from block `b`.
    pub fn search(&self, b: GenBlockTup, name: &str) -> (r: Option<VarVal>)
        requires
            tree_wf(self.tree@),
        ensures
            opt_view(r) == search_from(self@.tree, b.0 as int, name@),
    {
        b.search_up(&self.tree, name)
    }

    /// The working directory seen from block `b`.
    pub fn cwd(&self, b: GenBlockTup) -> (r: Option<String>)
        requires
            tree_wf(self.tree@),
        ensures
            match s_cwd(self@, b.0 as int) {
                Some(c) => r matches Some(x) && x@ == c,
                None => r is None,
            },
    {
        let n = cwd_text();
        match b.search_up(&self.tree, n.as_str()) {
            Some(v) => Some(v.value),
            None => None,
        }
    }

    /// The working directory seen from block `b`, or an empty text.
    pub fn cwd_or_empty(&self, b: GenBlockTup) -> (r: String)
        requires
            tree_wf(self.tree@),
        ensures
            r@ == cwd_or_empty(self@, b.0 as int),
    {
        match self.cwd(b) {
            Some(c) => c,
            None => empty_text(),
        }
    }

    /// The interpolation of `s` for block `b` (see `s_tmpl`).
    pub fn tmpl(&self, b: GenBlockTup, s: &str, prev: &Option<VarVal>) -> (r: Result<String, Halt>)
        requires
            tree_wf(self.tree@),
            b.0 < self.tree@.len(),
        ensures
            tres(r) == s_tmpl(self@, b.0 as int, s@, opt_view(*prev)),
    {
        let blk = &self.tree.blocks[b.0];
        assert(self.tree@[b.0 as int] == blk@);
        match expand_template(s, blk, &self.tree, &self.ctx, prev, self.tmpl_fuel) {
            Some(t) => Ok(t),
            None => Err(Halt::Endless(blk.script_line)),
        }
    }

    /// The parameter text of a variable (see `param_text`).
    pub fn param_text(&self, v: &VarVal) -> (r: String)
        ensures
            r@ == param_text(v@, self@.props, self@.env),
    {
        match v.val_type {
            VarType::Environment => match self.ctx.env.get(v.value.as_str()) {
                Some(x) => x,
                None => v.value.clone(),
            },
            VarType::Property => match self.ctx.props.get(v.value.as_str()) {
                Some(x) => x,
                None => v.value.clone(),
            },
            _ => if v.values.len() == 0 {
                v.value.clone()
            } else {
                let mut sep = Vec::new();
                sep.push('\t');
                assert(v@.values == views(v.values@));
                string_from_chars(&join_chars(&v.values, &sep))
            },
        }
    }

}

impl GenBlockTup {
    /// A parameter text `param_val` of this block, expanded (see `s_expand`).
    pub fn expand_parameter(&self, m: &Machine, param_val: &str, prev: &Option<VarVal>) -> (r: Result<String, Halt>)
        requires
            tree_wf(m.tree@),
            self.0 < m.tree@.len(),
        ensures
            tres(r) == s_expand(m@, self.0 as int, param_val@, opt_view(*prev)),
    {
        match m.lookup(*self, param_val, prev) {
            None => m.tmpl(*self, param_val, prev),
            Some(v) => {
                let t = m.param_text(&v);
                m.tmpl(*self, t.as_str(), prev)
            },
        }
    }

    /// Parameter `i` of this block, expanded (see `s_param`).
    pub fn parameter(&self, m: &Machine, i: usize, prev: &Option<VarVal>) -> (r: Result<String, Halt>)
        requires
            tree_wf(m.tree@),
            self.0 < m.tree@.len(),
        ensures
            tres(r) == s_param(m@, self.0 as int, i as int, opt_view(*prev)),
    {
        let blk = &m.tree.blocks[self.0];
        assert(m.tree@[self.0 as int] == blk@);
        if i < blk.params.len() {
            let p = blk.params[i].clone();
            self.expand_parameter(m, p.as_str(), prev)
        } else {
            Ok(empty_text())
        }
    }
}


/// A text in which interpolation finds nothing to replace.
pub open spec fn no_dollar(s: Seq<char>) -> bool {
    forall|i: int| 0 <= i < s.len() ==> s[i] != '$'
}

/// Name or value: a parameter is first taken as the name of a variable and
/// stands for that variable's text; a parameter that names no variable is a
/// literal and stands for itself. Interpolation then has nothing to add to a
/// text without `$` (given any interpolation budget at all).
pub proof fn law_parameter_name_or_value(m: MView, b: int, p: Seq<char>, prev: Option<VarValView>)
    requires
        m.tfuel >= 1,
    ensures
        s_lookup(m, b, p, prev) is None && no_dollar(p) ==> s_expand(m, b, p, prev) == Ok::<Seq<char>, HaltView>(p),
        s_lookup(m, b, p, prev) is Some && no_dollar(param_text(s_lookup(m, b, p, prev)->0, m.props, m.env))
            ==> s_expand(m, b, p, prev) == Ok::<Seq<char>, HaltView>(
            param_text(s_lookup(m, b, p, prev)->0, m.props, m.env),
        ),
{
    match s_lookup(m, b, p, prev) {
        None => {
            if no_dollar(p) {
                lemma_plain_text_iter(s_tenv(m, b, prev), p, m.tfuel);
            }
        },
        Some(v) => {
            let t = param_text(v, m.props, m.env);
            if no_dollar(t) {
                lemma_plain_text_iter(s_tenv(m, b, prev), t, m.tfuel);
            }
        },
    }
}

} // verus!
