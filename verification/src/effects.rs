//! The script functions that need the world outside the interpreter (files,
//! processes, the clock, the user): each computes its request, takes the
//! answer (see `Machine::ask`) and computes its result from it.
use vstd::prelude::*;
use crate::block::{opt_view, tree_wf, BlockType, BlockView, GenBlockTup};
use crate::io::{request, req, Halt, HaltView, IoAnswer, IoAnswerView, IoKind, IoRequest, IoRequestView, WriteMode};
use crate::lex::{vv_array, vv_bool, vv_num, vv_text, VarType, VarVal, VarValView};
use crate::machine::{
    ares, evolves, lemma_evolves_trans, res_view, rooted, rooted_exec, s_ask, s_cwd, s_param, tres, Machine, MView,
    Res, empty_text,
};
use crate::strops::{last_index_of, rfind, text_lt, text_lt_exec, spec_trim, trim};
use crate::text::{slice_chars, string_from_chars, to_chars};
use crate::util::{esc_run, insert_ctrl_char, join_chars, join_with, push_string, views};

verus! {

/// An answer that must be a text: the text.
pub open spec fn ans_text(a: Result<IoAnswerView, HaltView>) -> Result<Option<VarValView>, HaltView> {
    match a {
        Err(h) => Err(h),
        Ok(IoAnswerView::Text(t)) => Ok(Some(vv_text(t))),
        Ok(_) => Err(HaltView::BadAnswer),
    }
}

/// An answer that is a text or nothing.
pub open spec fn ans_opt_text(a: Result<IoAnswerView, HaltView>) -> Result<Option<VarValView>, HaltView> {
    match a {
        Err(h) => Err(h),
        Ok(IoAnswerView::Text(t)) => Ok(Some(vv_text(t))),
        Ok(IoAnswerView::Missing) => Ok(None),
        Ok(_) => Err(HaltView::BadAnswer),
    }
}

/// An answer that must be a yes or a no.
pub open spec fn ans_flag(a: Result<IoAnswerView, HaltView>) -> Result<Option<VarValView>, HaltView> {
    match a {
        Err(h) => Err(h),
        Ok(IoAnswerView::Flag(f)) => Ok(Some(vv_bool(f))),
        Ok(_) => Err(HaltView::BadAnswer),
    }
}

/// An answer that must be a list of texts.
pub open spec fn ans_texts(a: Result<IoAnswerView, HaltView>) -> Result<Option<VarValView>, HaltView> {
    match a {
        Err(h) => Err(h),
        Ok(IoAnswerView::Texts(v)) => Ok(Some(vv_array(v))),
        Ok(_) => Err(HaltView::BadAnswer),
    }
}

/// An answer that is a number or nothing.
pub open spec fn ans_code(a: Result<IoAnswerView, HaltView>) -> Result<Option<VarValView>, HaltView> {
    match a {
        Err(h) => Err(h),
        Ok(IoAnswerView::Code(c)) => Ok(Some(vv_num(c))),
        Ok(IoAnswerView::Missing) => Ok(None),
        Ok(_) => Err(HaltView::BadAnswer),
    }
}

/// Any answer, giving nothing.
pub open spec fn ans_none(a: Result<IoAnswerView, HaltView>) -> Result<Option<VarValView>, HaltView> {
    match a {
        Err(h) => Err(h),
        Ok(_) => Ok(None),
    }
}

fn a_text(a: Result<IoAnswer, Halt>) -> (r: Res)
    ensures
        res_view(r) == ans_text(ares(a)),
{
    match a {
        Err(h) => Err(h),
        Ok(IoAnswer::Text(t)) => Ok(Some(VarVal::from_string(t.as_str()))),
        Ok(_) => Err(Halt::BadAnswer),
    }
}

fn a_opt_text(a: Result<IoAnswer, Halt>) -> (r: Res)
    ensures
        res_view(r) == ans_opt_text(ares(a)),
{
    match a {
        Err(h) => Err(h),
        Ok(IoAnswer::Text(t)) => Ok(Some(VarVal::from_string(t.as_str()))),
        Ok(IoAnswer::Missing) => Ok(None),
        Ok(_) => Err(Halt::BadAnswer),
    }
}

fn a_flag(a: Result<IoAnswer, Halt>) -> (r: Res)
    ensures
        res_view(r) == ans_flag(ares(a)),
{
    match a {
        Err(h) => Err(h),
        Ok(IoAnswer::Flag(f)) => Ok(Some(VarVal::from_bool(f))),
        Ok(_) => Err(Halt::BadAnswer),
    }
}

fn a_texts(a: Result<IoAnswer, Halt>) -> (r: Res)
    ensures
        res_view(r) == ans_texts(ares(a)),
{
    match a {
        Err(h) => Err(h),
        Ok(IoAnswer::Texts(v)) => Ok(Some(VarVal::from_vec(&v))),
        Ok(_) => Err(Halt::BadAnswer),
    }
}

fn a_code(a: Result<IoAnswer, Halt>) -> (r: Res)
    ensures
        res_view(r) == ans_code(ares(a)),
{
    match a {
        Err(h) => Err(h),
        Ok(IoAnswer::Code(c)) => Ok(Some(VarVal::from_i32(c))),
        Ok(IoAnswer::Missing) => Ok(None),
        Ok(_) => Err(Halt::BadAnswer),
    }
}

fn a_none(a: Result<IoAnswer, Halt>) -> (r: Res)
    ensures
        res_view(r) == ans_none(ares(a)),
{
    match a {
        Err(h) => Err(h),
        Ok(_) => Ok(None),
    }
}

/// One text as a list.
pub fn one(a: String) -> (r: Vec<String>)
    ensures
        views(r@) == seq![a@],
{
    let mut v: Vec<String> = Vec::new();
    push_string(&mut v, a);
    assert(views(v@) =~= seq![a@]);
    v
}

/// Two texts as a list.
pub fn two(a: String, b: String) -> (r: Vec<String>)
    ensures
        views(r@) == seq![a@, b@],
{
    let mut v: Vec<String> = Vec::new();
    push_string(&mut v, a);
    push_string(&mut v, b);
    assert(views(v@) =~= seq![a@, b@]);
    v
}

/// A function block without parameters (none, or one empty one).
pub open spec fn no_parameters(blk: BlockView) -> bool {
    blk.block_type == BlockType::Function && blk.params.len() < 2 && (blk.params.len() == 0 || (blk.params.len() == 1
        && blk.params[0].len() == 0))
}

/// `display(text)`: prints the text with its escapes turned into control
/// characters; the result is the previous one.
pub open spec fn sb_display(m: MView, b: int, prev: Option<VarValView>) -> (MView, Result<Option<VarValView>, HaltView>) {
    match s_param(m, b, 0, prev) {
        Err(h) => (m, Err(h)),
        Ok(t) => {
            let (m2, a) = s_ask(m, req(IoKind::Print, seq![esc_run(t).1]));
            match a {
                Err(h) => (m2, Err(h)),
                Ok(_) => (m2, Ok(prev)),
            }
        },
    }
}

/// `now([pattern])`: the current time, compact or by the pattern.
pub open spec fn sb_now(m: MView, b: int, prev: Option<VarValView>) -> (MView, Result<Option<VarValView>, HaltView>) {
    if no_parameters(m.tree[b]) {
        let (m2, a) = s_ask(m, req(IoKind::Now, seq![]));
        (m2, ans_text(a))
    } else {
        match s_param(m, b, 0, prev) {
            Err(h) => (m, Err(h)),
            Ok(f) => {
                let (m2, a) = s_ask(m, req(IoKind::NowFormat, seq![f]));
                (m2, ans_text(a))
            },
        }
    }
}

/// The expanded parameters of block `b` from `k` on, after `acc`.
pub open spec fn s_params_from(m: MView, b: int, k: int, acc: Seq<Seq<char>>, prev: Option<VarValView>) -> Result<Seq<Seq<char>>, HaltView>
    decreases m.tree[b].params.len() - k,
{
    if k < 0 || k >= m.tree[b].params.len() {
        Ok(acc)
    } else {
        match s_param(m, b, k, prev) {
            Err(h) => Err(h),
            Ok(t) => s_params_from(m, b, k + 1, acc.push(t), prev),
        }
    }
}

/// `write(file, text…)` (`writex`, `writea`): writes the texts into the file
/// (made absolute); the result is nothing.
pub open spec fn sb_write(m: MView, b: int, prev: Option<VarValView>, mode: WriteMode) -> (MView, Result<Option<VarValView>, HaltView>) {
    match s_param(m, b, 0, prev) {
        Err(h) => (m, Err(h)),
        Ok(f) => match s_params_from(m, b, 1, seq![], prev) {
            Err(h) => (m, Err(h)),
            Ok(parts) => {
                let (m2, a) = s_ask(m, req(IoKind::Write(mode), seq![rooted(f, s_cwd(m, b)), join_with(parts, seq![])]));
                (m2, ans_none(a))
            },
        },
    }
}

/// `read(file)`: the content of the file, nothing when it cannot be read.
pub open spec fn sb_read(m: MView, b: int, prev: Option<VarValView>) -> (MView, Result<Option<VarValView>, HaltView>) {
    match s_param(m, b, 0, prev) {
        Err(h) => (m, Err(h)),
        Ok(f) => {
            let (m2, a) = s_ask(m, req(IoKind::Read, seq![rooted(f, s_cwd(m, b))]));
            (m2, ans_opt_text(a))
        },
    }
}

/// `timestamp(file)`: the modification time of the file.
pub open spec fn sb_timestamp(m: MView, b: int, prev: Option<VarValView>) -> (MView, Result<Option<VarValView>, HaltView>) {
    if no_parameters(m.tree[b]) {
        (m, Ok(None))
    } else {
        match s_param(m, b, 0, prev) {
            Err(h) => (m, Err(h)),
            Ok(f) => {
                let (m2, a) = s_ask(m, req(IoKind::Timestamp, seq![rooted(f, s_cwd(m, b))]));
                (m2, ans_opt_text(a))
            },
        }
    }
}

/// `absolute(path)` / `canonicalize(path)`: the path made absolute, and
/// resolved by the file system for `canonicalize` when it can be.
pub open spec fn sb_absolute(m: MView, b: int, prev: Option<VarValView>, canon: bool) -> (MView, Result<Option<VarValView>, HaltView>) {
    match s_param(m, b, 0, prev) {
        Err(h) => (m, Err(h)),
        Ok(f) => {
            let p = rooted(f, s_cwd(m, b));
            if canon {
                let (m2, a) = s_ask(m, req(IoKind::Canonicalize, seq![p]));
                match a {
                    Err(h) => (m2, Err(h)),
                    Ok(IoAnswerView::Text(t)) => (m2, Ok(Some(vv_text(t)))),
                    Ok(IoAnswerView::Missing) => (m2, Ok(Some(vv_text(p)))),
                    Ok(_) => (m2, Err(HaltView::BadAnswer)),
                }
            } else {
                (m, Ok(Some(vv_text(p))))
            }
        },
    }
}

/// A `dir/ext` pattern split at its last `/`.
pub open spec fn dir_ext(p: Seq<char>) -> Option<(Seq<char>, Seq<char>)> {
    match last_index_of(p, '/') {
        None => None,
        Some(pos) => Some((p.take(pos), p.skip(pos + 1))),
    }
}

/// `newerthan(dir1/ext1[, dir2/ext2])`: the files under `dir1` ending in
/// `ext1` that are newer than their counterparts under `dir2` ending in `ext2`.
pub open spec fn sb_newerthan(m: MView, b: int, prev: Option<VarValView>) -> (MView, Result<Option<VarValView>, HaltView>) {
    match s_param(m, b, 0, prev) {
        Err(h) => (m, Err(h)),
        Ok(p0) => match dir_ext(p0) {
            None => (m, Ok(None)),
            Some((d1, e1)) => {
                let d2r = if m.tree[b].params.len() > 1 {
                    match s_param(m, b, 1, prev) {
                        Ok(p1) => Ok(dir_ext(p1)),
                        Err(h) => Err(h),
                    }
                } else {
                    Ok(None)
                };
                match d2r {
                    Err(h) => (m, Err(h)),
                    Ok(d2e2) => {
                        let cwd = s_cwd(m, b);
                        let texts = match d2e2 {
                            Some((d2, e2)) => seq![rooted(d1, cwd), e1, rooted(d2, cwd), e2],
                            None => seq![rooted(d1, cwd), e1],
                        };
                        let (m2, a) = s_ask(m, req(IoKind::NewerThan, texts));
                        (m2, ans_texts(a))
                    },
                }
            },
        },
    }
}

/// `anynewer(pattern1, pattern2)`: whether the newest file matching the
/// first is newer than the newest matching the second.
pub open spec fn sb_anynewer(m: MView, b: int, prev: Option<VarValView>) -> (MView, Result<Option<VarValView>, HaltView>) {
    match s_param(m, b, 0, prev) {
        Err(h) => (m, Err(h)),
        Ok(p1) => match s_param(m, b, 1, prev) {
            Err(h) => (m, Err(h)),
            Ok(p2) => {
                let cwd = s_cwd(m, b);
                let (m2, a) = s_ask(m, req(IoKind::AnyNewer, seq![rooted(p1, cwd), rooted(p2, cwd)]));
                (m2, ans_flag(a))
            },
        },
    }
}

/// `gt(a, b)` (with `gt`) / `lt(a, b)`: compares as numbers when both are
/// numbers, else as texts; nothing unless given two parameters.
pub open spec fn sb_order(m: MView, b: int, prev: Option<VarValView>, gt: bool) -> (MView, Result<Option<VarValView>, HaltView>) {
    if m.tree[b].params.len() != 2 {
        (m, Ok(None))
    } else {
        match s_param(m, b, 0, prev) {
            Err(h) => (m, Err(h)),
            Ok(p1) => match s_param(m, b, 1, prev) {
                Err(h) => (m, Err(h)),
                Ok(p2) => {
                    let (m2, a) = s_ask(m, req(IoKind::NumOrder, seq![p1, p2]));
                    match a {
                        Err(h) => (m2, Err(h)),
                        Ok(IoAnswerView::Code(c)) => (m2, Ok(Some(vv_bool(if gt { c == 1 } else { c == -1 })))),
                        Ok(IoAnswerView::Missing) => (m2, Ok(Some(vv_bool(if gt { text_lt(p2, p1) } else { text_lt(p1, p2) })))),
                        Ok(_) => (m2, Err(HaltView::BadAnswer)),
                    }
                },
            },
        }
    }
}

/// `cfg()`: the directory for configuration files of the user.
pub open spec fn sb_cfg(m: MView) -> (MView, Result<Option<VarValView>, HaltView>) {
    let (m2, a) = s_ask(m, req(IoKind::ConfigDir, seq![]));
    (m2, ans_text(a))
}

/// `panic(message)`: stops the run with the message.
pub open spec fn sb_panic(m: MView, b: int, prev: Option<VarValView>) -> Result<Option<VarValView>, HaltView> {
    match s_param(m, b, 0, prev) {
        Err(h) => Err(h),
        Ok(t) => Err(HaltView::Abort(t, m.tree[b].script_line)),
    }
}

/// `ask(prompt[, default])`: the line the user typed, trimmed; the default
/// when it is empty.
pub open spec fn sb_ask(m: MView, b: int, prev: Option<VarValView>) -> (MView, Result<Option<VarValView>, HaltView>) {
    match s_param(m, b, 0, prev) {
        Err(h) => (m, Err(h)),
        Ok(p) => {
            let (m2, a) = s_ask(m, req(IoKind::Ask, seq![esc_run(p).1]));
            let inr = match a {
                Err(h) => Err(h),
                Ok(IoAnswerView::Text(l)) => Ok(spec_trim(l)),
                Ok(IoAnswerView::Missing) => Ok(seq![]),
                Ok(_) => Err(HaltView::BadAnswer),
            };
            match inr {
                Err(h) => (m2, Err(h)),
                Ok(inp) => if inp.len() == 0 && m.tree[b].params.len() > 1 {
                    match s_param(m2, b, 1, prev) {
                        Ok(d) => (m2, Ok(Some(vv_text(d)))),
                        Err(h) => (m2, Err(h)),
                    }
                } else {
                    (m2, Ok(Some(vv_text(inp))))
                },
            }
        },
    }
}

/// `calc(expression…)`: the value of one arithmetic expression, or the list
/// of the values of several.
pub open spec fn sb_calc(m: MView, b: int, prev: Option<VarValView>) -> (MView, Result<Option<VarValView>, HaltView>) {
    if m.tree[b].params.len() > 1 {
        match s_params_from(m, b, 0, seq![], prev) {
            Err(h) => (m, Err(h)),
            Ok(es) => {
                let (m2, a) = s_ask(m, IoRequestView { kind: IoKind::CalcEach, texts: es, list: seq![], zip: seq![], block: b });
                (m2, ans_texts(a))
            },
        }
    } else {
        match s_param(m, b, 0, prev) {
            Err(h) => (m, Err(h)),
            Ok(e) => {
                let (m2, a) = s_ask(m, IoRequestView { kind: IoKind::Calc, texts: seq![e], list: seq![], zip: seq![], block: b });
                (m2, match a {
                    Err(h) => Err(h),
                    Ok(IoAnswerView::Text(t)) => Ok(Some(VarValView { val_type: VarType::Number, value: t, values: seq![] })),
                    Ok(IoAnswerView::Missing) => Ok(None),
                    Ok(_) => Err(HaltView::BadAnswer),
                })
            },
        }
    }
}

impl Machine {
    /// The expanded parameters of block `b` from `k` on (see `s_params_from`).
    pub fn params_from(&self, b: GenBlockTup, k: usize, prev: &Option<VarVal>) -> (r: Result<Vec<String>, Halt>)
        requires
            tree_wf(self.tree@),
            b.0 < self.tree@.len(),
        ensures
            match r {
                Ok(v) => s_params_from(self@, b.0 as int, k as int, seq![], opt_view(*prev)) == Ok::<Seq<Seq<char>>, HaltView>(views(v@)),
                Err(h) => s_params_from(self@, b.0 as int, k as int, seq![], opt_view(*prev)) == Err::<Seq<Seq<char>>, HaltView>(h@),
            },
    {
        let n = self.tree.blocks[b.0].params.len();
        assert(self.tree@[b.0 as int] == self.tree.blocks@[b.0 as int]@);
        let mut acc: Vec<String> = Vec::new();
        let mut i = k;
        assert(views(acc@) =~= seq![]);
        while i < n
            invariant
                tree_wf(self.tree@),
                b.0 < self.tree@.len(),
                n == self.tree@[b.0 as int].params.len(),
                k <= i || n <= i,
                s_params_from(self@, b.0 as int, i as int, views(acc@), opt_view(*prev))
                    == s_params_from(self@, b.0 as int, k as int, seq![], opt_view(*prev)),
            decreases n - i,
        {
            match b.parameter(self, i, prev) {
                Err(h) => { return Err(h); },
                Ok(t) => { push_string(&mut acc, t); },
            }
            i += 1;
        }
        Ok(acc)
    }

    /// See `sb_display`.
    pub fn b_display(&mut self, b: GenBlockTup, prev: &Option<VarVal>) -> (r: Res)
        requires
            tree_wf(old(self).tree@),
            b.0 < old(self).tree@.len(),
        ensures
            (final(self)@, res_view(r)) == sb_display(old(self)@, b.0 as int, opt_view(*prev)),
            evolves(old(self)@, final(self)@),
    {
        let t = match b.parameter(self, 0, prev) { Ok(t) => t, Err(h) => { return Err(h); } };
        let text = insert_ctrl_char(&t);
        match self.ask(request(IoKind::Print, one(text))) {
            Err(h) => Err(h),
            Ok(_) => Ok(crate::block::dup_opt(prev)),
        }
    }

    /// See `sb_now`.
    pub fn b_now(&mut self, b: GenBlockTup, prev: &Option<VarVal>) -> (r: Res)
        requires
            tree_wf(old(self).tree@),
            b.0 < old(self).tree@.len(),
        ensures
            (final(self)@, res_view(r)) == sb_now(old(self)@, b.0 as int, opt_view(*prev)),
            evolves(old(self)@, final(self)@),
    {
        let blk = &self.tree.blocks[b.0];
        assert(self.tree@[b.0 as int] == blk@);
        if no_params(blk) {
            let e: Vec<String> = Vec::new();
            assert(views(e@) =~= seq![]);
            let a = self.ask(request(IoKind::Now, e));
            a_text(a)
        } else {
            let f = match b.parameter(self, 0, prev) { Ok(t) => t, Err(h) => { return Err(h); } };
            let a = self.ask(request(IoKind::NowFormat, one(f)));
            a_text(a)
        }
    }

    /// See `sb_write`.
    pub fn b_write(&mut self, b: GenBlockTup, prev: &Option<VarVal>, mode: WriteMode) -> (r: Res)
        requires
            tree_wf(old(self).tree@),
            b.0 < old(self).tree@.len(),
        ensures
            (final(self)@, res_view(r)) == sb_write(old(self)@, b.0 as int, opt_view(*prev), mode),
            evolves(old(self)@, final(self)@),
    {
        let f = match b.parameter(self, 0, prev) { Ok(t) => t, Err(h) => { return Err(h); } };
        let parts = match self.params_from(b, 1, prev) { Ok(v) => v, Err(h) => { return Err(h); } };
        let cwd = self.cwd(b);
        let fname = rooted_exec(f, &cwd);
        let e: Vec<char> = Vec::new();
        let content = string_from_chars(&join_chars(&parts, &e));
        let a = self.ask(request(IoKind::Write(mode), two(fname, content)));
        a_none(a)
    }

    /// See `sb_read`.
    pub fn b_read(&mut self, b: GenBlockTup, prev: &Option<VarVal>) -> (r: Res)
        requires
            tree_wf(old(self).tree@),
            b.0 < old(self).tree@.len(),
        ensures
            (final(self)@, res_view(r)) == sb_read(old(self)@, b.0 as int, opt_view(*prev)),
            evolves(old(self)@, final(self)@),
    {
        let f = match b.parameter(self, 0, prev) { Ok(t) => t, Err(h) => { return Err(h); } };
        let cwd = self.cwd(b);
        let a = self.ask(request(IoKind::Read, one(rooted_exec(f, &cwd))));
        a_opt_text(a)
    }

    /// See `sb_timestamp`.
    pub fn b_timestamp(&mut self, b: GenBlockTup, prev: &Option<VarVal>) -> (r: Res)
        requires
            tree_wf(old(self).tree@),
            b.0 < old(self).tree@.len(),
        ensures
            (final(self)@, res_view(r)) == sb_timestamp(old(self)@, b.0 as int, opt_view(*prev)),
            evolves(old(self)@, final(self)@),
    {
        let blk = &self.tree.blocks[b.0];
        assert(self.tree@[b.0 as int] == blk@);
        if no_params(blk) {
            return Ok(None);
        }
        let f = match b.parameter(self, 0, prev) { Ok(t) => t, Err(h) => { return Err(h); } };
        let cwd = self.cwd(b);
        let a = self.ask(request(IoKind::Timestamp, one(rooted_exec(f, &cwd))));
        a_opt_text(a)
    }

    /// See `sb_absolute`.
    pub fn b_absolute(&mut self, b: GenBlockTup, prev: &Option<VarVal>, canon: bool) -> (r: Res)
        requires
            tree_wf(old(self).tree@),
            b.0 < old(self).tree@.len(),
        ensures
            (final(self)@, res_view(r)) == sb_absolute(old(self)@, b.0 as int, opt_view(*prev), canon),
            evolves(old(self)@, final(self)@),
    {
        let f = match b.parameter(self, 0, prev) { Ok(t) => t, Err(h) => { return Err(h); } };
        let cwd = self.cwd(b);
        let p = rooted_exec(f, &cwd);
        if canon {
            let pc = p.clone();
            match self.ask(request(IoKind::Canonicalize, one(pc))) {
                Err(h) => Err(h),
                Ok(IoAnswer::Text(t)) => Ok(Some(VarVal::from_string(t.as_str()))),
                Ok(IoAnswer::Missing) => Ok(Some(VarVal::from_string(p.as_str()))),
                Ok(_) => Err(Halt::BadAnswer),
            }
        } else {
            Ok(Some(VarVal::from_string(p.as_str())))
        }
    }

    /// See `sb_newerthan`.
    pub fn b_newerthan(&mut self, b: GenBlockTup, prev: &Option<VarVal>) -> (r: Res)
        requires
            tree_wf(old(self).tree@),
            b.0 < old(self).tree@.len(),
        ensures
            (final(self)@, res_view(r)) == sb_newerthan(old(self)@, b.0 as int, opt_view(*prev)),
            evolves(old(self)@, final(self)@),
    {
        let np = self.tree.blocks[b.0].params.len();
        assert(self.tree@[b.0 as int] == self.tree.blocks@[b.0 as int]@);
        let p0 = match b.parameter(self, 0, prev) { Ok(t) => t, Err(h) => { return Err(h); } };
        let (d1, e1) = match dir_ext_exec(&p0) {
            None => { return Ok(None); },
            Some(x) => x,
        };
        let d2e2 = if np > 1 {
            match b.parameter(self, 1, prev) {
                Ok(p1) => dir_ext_exec(&p1),
                Err(h) => { return Err(h); },
            }
        } else {
            None
        };
        let cwd = self.cwd(b);
        let mut texts: Vec<String> = Vec::new();
        let r1 = rooted_exec(d1, &cwd);
        let ghost r1v = r1@;
        let ghost e1v = e1@;
        push_string(&mut texts, r1);
        push_string(&mut texts, e1);
        match d2e2 {
            Some((d2, e2)) => {
                let r2 = rooted_exec(d2, &cwd);
                let ghost r2v = r2@;
                let ghost e2v = e2@;
                push_string(&mut texts, r2);
                push_string(&mut texts, e2);
                assert(views(texts@) =~= seq![r1v, e1v, r2v, e2v]);
            },
            None => {
                assert(views(texts@) =~= seq![r1v, e1v]);
            },
        }
        let a = self.ask(request(IoKind::NewerThan, texts));
        a_texts(a)
    }

    /// See `sb_anynewer`.
    pub fn b_anynewer(&mut self, b: GenBlockTup, prev: &Option<VarVal>) -> (r: Res)
        requires
            tree_wf(old(self).tree@),
            b.0 < old(self).tree@.len(),
        ensures
            (final(self)@, res_view(r)) == sb_anynewer(old(self)@, b.0 as int, opt_view(*prev)),
            evolves(old(self)@, final(self)@),
    {
        let p1 = match b.parameter(self, 0, prev) { Ok(t) => t, Err(h) => { return Err(h); } };
        let p2 = match b.parameter(self, 1, prev) { Ok(t) => t, Err(h) => { return Err(h); } };
        let cwd = self.cwd(b);
        let a = self.ask(request(IoKind::AnyNewer, two(rooted_exec(p1, &cwd), rooted_exec(p2, &cwd))));
        a_flag(a)
    }

    /// See `sb_order`.
    pub fn b_order(&mut self, b: GenBlockTup, prev: &Option<VarVal>, gt: bool) -> (r: Res)
        requires
            tree_wf(old(self).tree@),
            b.0 < old(self).tree@.len(),
        ensures
            (final(self)@, res_view(r)) == sb_order(old(self)@, b.0 as int, opt_view(*prev), gt),
            evolves(old(self)@, final(self)@),
    {
        if self.tree.blocks[b.0].params.len() != 2 {
            return Ok(None);
        }
        let p1 = match b.parameter(self, 0, prev) { Ok(t) => t, Err(h) => { return Err(h); } };
        let p2 = match b.parameter(self, 1, prev) { Ok(t) => t, Err(h) => { return Err(h); } };
        let c1 = to_chars(p1.as_str());
        let c2 = to_chars(p2.as_str());
        match self.ask(request(IoKind::NumOrder, two(p1, p2))) {
            Err(h) => Err(h),
            Ok(IoAnswer::Code(c)) => Ok(Some(VarVal::from_bool(if gt { c == 1 } else { c == -1 }))),
            Ok(IoAnswer::Missing) => Ok(Some(VarVal::from_bool(if gt { text_lt_exec(&c2, &c1) } else { text_lt_exec(&c1, &c2) }))),
            Ok(_) => Err(Halt::BadAnswer),
        }
    }

    /// See `sb_cfg`.
    pub fn b_cfg(&mut self) -> (r: Res)
        requires
            tree_wf(old(self).tree@),
        ensures
            (final(self)@, res_view(r)) == sb_cfg(old(self)@),
            evolves(old(self)@, final(self)@),
    {
        let e: Vec<String> = Vec::new();
        assert(views(e@) =~= seq![]);
        let a = self.ask(request(IoKind::ConfigDir, e));
        a_text(a)
    }

    /// See `sb_panic`.
    pub fn b_panic(&self, b: GenBlockTup, prev: &Option<VarVal>) -> (r: Res)
        requires
            tree_wf(self.tree@),
            b.0 < self.tree@.len(),
        ensures
            res_view(r) == sb_panic(self@, b.0 as int, opt_view(*prev)),
    {
        assert(self.tree@[b.0 as int] == self.tree.blocks@[b.0 as int]@);
        match b.parameter(self, 0, prev) {
            Err(h) => Err(h),
            Ok(t) => Err(Halt::Abort(t, self.tree.blocks[b.0].script_line)),
        }
    }

    /// See `sb_ask`.
    pub fn b_ask(&mut self, b: GenBlockTup, prev: &Option<VarVal>) -> (r: Res)
        requires
            tree_wf(old(self).tree@),
            b.0 < old(self).tree@.len(),
        ensures
            (final(self)@, res_view(r)) == sb_ask(old(self)@, b.0 as int, opt_view(*prev)),
            evolves(old(self)@, final(self)@),
    {
        let np = self.tree.blocks[b.0].params.len();
        assert(self.tree@[b.0 as int] == self.tree.blocks@[b.0 as int]@);
        let p = match b.parameter(self, 0, prev) { Ok(t) => t, Err(h) => { return Err(h); } };
        let text = insert_ctrl_char(&p);
        let inp: Vec<char> = match self.ask(request(IoKind::Ask, one(text))) {
            Err(h) => { return Err(h); },
            Ok(IoAnswer::Text(l)) => trim(&to_chars(l.as_str())),
            Ok(IoAnswer::Missing) => Vec::new(),
            Ok(_) => { return Err(Halt::BadAnswer); },
        };
        if inp.len() == 0 && np > 1 {
            match b.parameter(self, 1, prev) {
                Ok(d) => Ok(Some(VarVal::from_string(d.as_str()))),
                Err(h) => Err(h),
            }
        } else {
            let s = string_from_chars(&inp);
            Ok(Some(VarVal::from_string(s.as_str())))
        }
    }

    /// See `sb_calc`.
    pub fn b_calc(&mut self, b: GenBlockTup, prev: &Option<VarVal>) -> (r: Res)
        requires
            tree_wf(old(self).tree@),
            b.0 < old(self).tree@.len(),
        ensures
            (final(self)@, res_view(r)) == sb_calc(old(self)@, b.0 as int, opt_view(*prev)),
            evolves(old(self)@, final(self)@),
    {
        if self.tree.blocks[b.0].params.len() > 1 {
            let es = match self.params_from(b, 0, prev) { Ok(v) => v, Err(h) => { return Err(h); } };
            let rq = IoRequest { kind: IoKind::CalcEach, texts: es, list: Vec::new(), zip: Vec::new(), block: b.0 };
            assert(rq@.list =~= seq![]);
            assert(rq@.zip =~= seq![]);
            let a = self.ask(rq);
            a_texts(a)
        } else {
            let e = match b.parameter(self, 0, prev) { Ok(t) => t, Err(h) => { return Err(h); } };
            let rq = IoRequest { kind: IoKind::Calc, texts: one(e), list: Vec::new(), zip: Vec::new(), block: b.0 };
            assert(rq@.list =~= seq![]);
            assert(rq@.zip =~= seq![]);
            match self.ask(rq) {
                Err(h) => Err(h),
                Ok(IoAnswer::Text(t)) => {
                    let v = VarVal { val_type: VarType::Number, value: t, values: Vec::new() };
                    assert(v@.values =~= seq![]);
                    Ok(Some(v))
                },
                Ok(IoAnswer::Missing) => Ok(None),
                Ok(_) => Err(Halt::BadAnswer),
            }
        }
    }
}

/// Whether a block has no parameters (see `no_parameters`).
pub fn no_params(blk: &crate::block::GenBlock) -> (r: bool)
    ensures
        r == no_parameters(blk@),
{
    let n = blk.params.len();
    if blk.block_type != BlockType::Function || n >= 2 {
        return false;
    }
    if n == 0 {
        return true;
    }
    assert(blk@.params[0] == blk.params@[0]@);
    blk.params[0].as_str().is_empty()
}

/// A `dir/ext` pattern split at its last `/` (see `dir_ext`).
pub fn dir_ext_exec(p: &String) -> (r: Option<(String, String)>)
    ensures
        match dir_ext(p@) {
            Some((d, e)) => r matches Some((x, y)) && x@ == d && y@ == e,
            None => r is None,
        },
{
    let c = to_chars(p.as_str());
    match rfind(&c, '/') {
        None => None,
        Some(pos) => {
            let d = slice_chars(&c, 0, pos);
            let e = slice_chars(&c, pos + 1, c.len());
            assert(d@ =~= c@.take(pos as int));
            assert(e@ =~= c@.skip(pos + 1));
            Some((string_from_chars(&d), string_from_chars(&e)))
        },
    }
}


/// `gt` and `lt` on two numbers follow the numeric comparison of their
/// parameters: asked to compare the two texts, the answer `1` (the first is
/// greater) makes `gt` true and `lt` false, `-1` (the first is smaller) the
/// other way round, `0` (equal) both false; so `gt(a, b)` is `lt(b, a)` when
/// the second comparison is answered with the opposite sign.
pub proof fn law_order_follows_the_comparison(
    m: MView,
    b: int,
    m2: MView,
    b2: int,
    prev: Option<VarValView>,
    c: i32,
    c2: i32,
)
    requires
        c2 == -c,
        0 <= m.pos < m.answers.len(),
        m.answers[m.pos] == IoAnswerView::Code(c),
        m.tree[b].params.len() == 2,
        s_param(m, b, 0, prev) is Ok,
        s_param(m, b, 1, prev) is Ok,
        0 <= m2.pos < m2.answers.len(),
        m2.answers[m2.pos] == IoAnswerView::Code(c2),
        m2.tree[b2].params.len() == 2,
        s_param(m2, b2, 0, prev) == s_param(m, b, 1, prev),
        s_param(m2, b2, 1, prev) == s_param(m, b, 0, prev),
    ensures
        sb_order(m, b, prev, true).1 == Ok::<Option<VarValView>, HaltView>(Some(vv_bool(c == 1))),
        sb_order(m, b, prev, false).1 == Ok::<Option<VarValView>, HaltView>(Some(vv_bool(c == -1))),
        c == 1 ==> sb_order(m, b, prev, true).1 != sb_order(m, b, prev, false).1,
        (c == 1 || c == -1) ==> sb_order(m, b, prev, true).1 == sb_order(m2, b2, prev, false).1,
{
}

} // verus!
