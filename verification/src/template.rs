//! String interpolation: `${name}` in a value is replaced by the value of the
//! variable `name`, and the result is interpolated again until no
//! replacement happens.
use vstd::prelude::*;
use crate::block::{search_from_block, opt_view, prev_val_name, BlockTree, BlockView, GenBlock, tree_wf};
use crate::lex::{lookup_or, text_string, VarType, VarVal, VarValView};
use crate::text::{append_chars, string_from_chars, to_chars};
use crate::util::{join_chars, join_with};
use crate::vars::Context;

verus! {

/// Where interpolation looks names up: the tree, the block the value belongs
/// to, the previous result (named `~~`), the properties and the environment.
pub struct TmplEnv {
    pub tree: Seq<BlockView>,
    pub block: BlockView,
    pub prev: Option<VarValView>,
    pub props: Map<Seq<char>, Seq<char>>,
    pub env: Map<Seq<char>, Seq<char>>,
}

/// The text a variable contributes when interpolated: the environment or
/// property it names (or the name itself when unset), the elements of an
/// array joined by tabs, or the value.
pub open spec fn var_text(v: VarValView, props: Map<Seq<char>, Seq<char>>, env: Map<Seq<char>, Seq<char>>) -> Seq<char> {
    match v.val_type {
        VarType::Environment => lookup_or(env, v.value, v.value),
        VarType::Array => join_with(v.values, seq!['\t']),
        VarType::Property => lookup_or(props, v.value, v.value),
        _ => v.value,
    }
}

/// The text that `${name}` stands for, if `name` is known.
pub open spec fn tmpl_text(e: TmplEnv, name: Seq<char>) -> Option<Seq<char>> {
    let v = if name == prev_val_name() { e.prev } else { search_from_block(e.tree, e.block, name) };
    match v {
        Some(x) => Some(var_text(x, e.props, e.env)),
        None => None,
    }
}

/// The states of one interpolation pass.
#[derive(Clone, Copy, PartialEq, Eq, Structural)]
pub enum TState {
    InVal,
    VarStart,
    InVar,
}

/// One interpolation pass between two characters.
pub struct TPass {
    pub state: TState,
    pub out: Seq<char>,
    pub var: Seq<char>,
    pub replaced: bool,
}

/// One character of an interpolation pass.
pub open spec fn tmpl_step(e: TmplEnv, p: TPass, c: char) -> TPass {
    if c == '$' {
        match p.state {
            TState::InVal => TPass { state: TState::VarStart, ..p },
            TState::VarStart => TPass { out: p.out.push(c), ..p },
            TState::InVar => TPass { var: p.var.push(c), ..p },
        }
    } else if c == '{' {
        match p.state {
            TState::VarStart => TPass { state: TState::InVar, ..p },
            TState::InVal => TPass { out: p.out.push(c), ..p },
            TState::InVar => TPass { var: p.var.push(c), ..p },
        }
    } else if c == '}' {
        match p.state {
            TState::VarStart => TPass { state: TState::InVal, out: p.out.push('$').push(c), ..p },
            TState::InVal => TPass { out: p.out.push(c), ..p },
            TState::InVar => match tmpl_text(e, p.var) {
                Some(t) => TPass { state: TState::InVal, out: p.out + t, var: seq![], replaced: true },
                None => TPass {
                    state: TState::InVal,
                    out: p.out.push('$').push('{') + p.var.push('}'),
                    var: seq![],
                    replaced: p.replaced,
                },
            },
        }
    } else {
        match p.state {
            TState::InVal => TPass { out: p.out.push(c), ..p },
            TState::InVar => TPass { var: p.var.push(c), ..p },
            TState::VarStart => TPass { state: TState::InVal, out: p.out.push('$').push(c), ..p },
        }
    }
}

/// An interpolation pass over the first `n` characters of `s`.
pub open spec fn tmpl_scan(e: TmplEnv, s: Seq<char>, n: int) -> TPass
    decreases n,
{
    if n <= 0 {
        TPass { state: TState::InVal, out: seq![], var: seq![], replaced: false }
    } else {
        tmpl_step(e, tmpl_scan(e, s, n - 1), s[n - 1])
    }
}

/// One interpolation pass over `s`: its text and whether a name was replaced.
pub open spec fn tmpl_pass(e: TmplEnv, s: Seq<char>) -> (Seq<char>, bool) {
    let p = tmpl_scan(e, s, s.len() as int);
    (p.out, p.replaced)
}

/// At most `n` passes: the text once a pass replaces nothing, or `None` when
/// every one of the `n` passes replaced something.
pub open spec fn tmpl_iter(e: TmplEnv, s: Seq<char>, n: nat) -> Option<Seq<char>>
    decreases n,
{
    if n == 0 {
        None
    } else {
        let (o, r) = tmpl_pass(e, s);
        if r {
            tmpl_iter(e, o, (n - 1) as nat)
        } else {
            Some(o)
        }
    }
}

/// Interpolation of `s` reaches a pass that replaces nothing.
pub open spec fn tmpl_terminates(e: TmplEnv, s: Seq<char>) -> bool {
    exists|n: nat| #[trigger] tmpl_iter(e, s, n) is Some
}

/// The interpolation of `s`, when it terminates.
pub open spec fn spec_template(e: TmplEnv, s: Seq<char>) -> Seq<char> {
    tmpl_iter(e, s, choose|n: nat| #[trigger] tmpl_iter(e, s, n) is Some).unwrap()
}

/// More passes give the same result once a pass replaced nothing.
pub proof fn lemma_tmpl_iter_stable(e: TmplEnv, s: Seq<char>, n: nat, m: nat)
    requires
        tmpl_iter(e, s, n) is Some,
        n <= m,
    ensures
        tmpl_iter(e, s, m) == tmpl_iter(e, s, n),
    decreases n,
{
    let (o, r) = tmpl_pass(e, s);
    if r {
        lemma_tmpl_iter_stable(e, o, (n - 1) as nat, (m - 1) as nat);
    }
}

/// The interpolation environment of block `b` with previous result `prev`.
pub open spec fn tmpl_env(tree: &BlockTree, b: &GenBlock, ctx: &Context, prev: &Option<VarVal>) -> TmplEnv {
    TmplEnv { tree: tree@, block: b@, prev: opt_view(*prev), props: ctx.props@, env: ctx.env@ }
}

/// The text a variable contributes when interpolated.
pub fn var_text_exec(v: &VarVal, ctx: &Context) -> (r: Vec<char>)
    ensures
        r@ == var_text(v@, ctx.props@, ctx.env@),
{
    match v.val_type {
        VarType::Environment => match ctx.env.get(v.value.as_str()) {
            Some(x) => to_chars(x.as_str()),
            None => to_chars(v.value.as_str()),
        },
        VarType::Array => {
            let mut sep = Vec::new();
            sep.push('\t');
            let r = join_chars(&v.values, &sep);
            assert(v@.values == crate::util::views(v.values@));
            r
        },
        VarType::Property => match ctx.props.get(v.value.as_str()) {
            Some(x) => to_chars(x.as_str()),
            None => to_chars(v.value.as_str()),
        },
        _ => to_chars(v.value.as_str()),
    }
}

/// One interpolation pass over `s`.
pub fn template_pass(s: &Vec<char>, b: &GenBlock, tree: &BlockTree, ctx: &Context, prev: &Option<VarVal>) -> (r: (
    Vec<char>,
    bool,
))
    requires
        tree_wf(tree@),
    ensures
        (r.0@, r.1) == tmpl_pass(tmpl_env(tree, b, ctx, prev), s@),
{
    let ghost e = tmpl_env(tree, b, ctx, prev);
    let mut state = TState::InVal;
    let mut out: Vec<char> = Vec::new();
    let mut var: Vec<char> = Vec::new();
    let mut replaced = false;
    let mut i: usize = 0;
    assert(out@ =~= seq![] && var@ =~= seq![]);
    while i < s.len()
        invariant
            i <= s@.len(),
            tree_wf(tree@),
            e == tmpl_env(tree, b, ctx, prev),
            tmpl_scan(e, s@, i as int) == (TPass { state, out: out@, var: var@, replaced }),
        decreases s@.len() - i,
    {
        let c = s[i];
        if c == '$' {
            match state {
                TState::InVal => { state = TState::VarStart; },
                TState::VarStart => { out.push(c); },
                TState::InVar => { var.push(c); },
            }
        } else if c == '{' {
            match state {
                TState::VarStart => { state = TState::InVar; },
                TState::InVal => { out.push(c); },
                TState::InVar => { var.push(c); },
            }
        } else if c == '}' {
            match state {
                TState::VarStart => {
                    state = TState::InVal;
                    out.push('$');
                    out.push(c);
                },
                TState::InVal => { out.push(c); },
                TState::InVar => {
                    let name = string_from_chars(&var);
                    let found = b.prev_or_search_up(tree, name.as_str(), prev);
                    state = TState::InVal;
                    match found {
                        Some(x) => {
                            let t = var_text_exec(&x, ctx);
                            append_chars(&mut out, &t);
                            replaced = true;
                        },
                        None => {
                            out.push('$');
                            out.push('{');
                            append_chars(&mut out, &var);
                            out.push('}');
                            assert(out@ =~= tmpl_scan(e, s@, i as int).out.push('$').push('{') + var@.push('}'));
                        },
                    }
                    var = Vec::new();
                    assert(var@ =~= seq![]);
                },
            }
        } else {
            match state {
                TState::InVal => { out.push(c); },
                TState::InVar => { var.push(c); },
                TState::VarStart => {
                    state = TState::InVal;
                    out.push('$');
                    out.push(c);
                },
            }
        }
        i += 1;
    }
    (out, replaced)
}

/// At most `fuel` interpolation passes over `value` (see `tmpl_iter`): the
/// interpolated text, or `None` when every pass replaced something.
pub fn expand_template(value: &str, b: &GenBlock, tree: &BlockTree, ctx: &Context, prev: &Option<VarVal>, fuel: usize) -> (r: Option<String>)
    requires
        tree_wf(tree@),
    ensures
        match tmpl_iter(tmpl_env(tree, b, ctx, prev), value@, fuel as nat) {
            Some(t) => r matches Some(x) && x@ == t,
            None => r is None,
        },
{
    let ghost e = tmpl_env(tree, b, ctx, prev);
    let mut cur = to_chars(value);
    let mut left = fuel;
    while left > 0
        invariant
            tree_wf(tree@),
            e == tmpl_env(tree, b, ctx, prev),
            tmpl_iter(e, cur@, left as nat) == tmpl_iter(e, value@, fuel as nat),
        decreases left,
    {
        let (o, rep) = template_pass(&cur, b, tree, ctx, prev);
        if !rep {
            return Some(string_from_chars(&o));
        }
        cur = o;
        left -= 1;
    }
    None
}

/// Interpolates `value`: replaces `${name}` by the text of the variable
/// `name` seen from block `b` (`~~` is the previous result `prev`), keeps
/// `${name}` for unknown names, and repeats until a pass replaces nothing.
pub fn process_template_value(value: &str, b: &GenBlock, tree: &BlockTree, ctx: &Context, prev: &Option<VarVal>) -> (r: String)
    requires
        tree_wf(tree@),
        tmpl_terminates(tmpl_env(tree, b, ctx, prev), value@),
    ensures
        r@ == spec_template(tmpl_env(tree, b, ctx, prev), value@),
{
    let ghost e = tmpl_env(tree, b, ctx, prev);
    let ghost n = choose|n: nat| #[trigger] tmpl_iter(e, value@, n) is Some;
    let mut cur = to_chars(value);
    let ghost mut left: nat = n;
    loop
        invariant
            tree_wf(tree@),
            e == tmpl_env(tree, b, ctx, prev),
            tmpl_iter(e, value@, n) is Some,
            tmpl_iter(e, cur@, left) == tmpl_iter(e, value@, n),
        decreases left,
    {
        let (o, rep) = template_pass(&cur, b, tree, ctx, prev);
        if !rep {
            proof {
                let n2 = choose|n: nat| #[trigger] tmpl_iter(e, value@, n) is Some;
                if n <= n2 {
                    lemma_tmpl_iter_stable(e, value@, n, n2);
                } else {
                    lemma_tmpl_iter_stable(e, value@, n2, n);
                }
            }
            return string_from_chars(&o);
        }
        cur = o;
        proof { left = (left - 1) as nat; }
    }
}

proof fn lemma_scan_no_dollar(e: TmplEnv, s: Seq<char>, n: int)
    requires
        0 <= n <= s.len(),
        forall|i: int| 0 <= i < s.len() ==> s[i] != '$',
    ensures
        tmpl_scan(e, s, n) == (TPass { state: TState::InVal, out: s.take(n), var: seq![], replaced: false }),
    decreases n,
{
    if n > 0 {
        lemma_scan_no_dollar(e, s, n - 1);
        assert(s.take(n - 1).push(s[n - 1]) =~= s.take(n));
    } else {
        assert(s.take(0) =~= seq![]);
    }
}

/// Interpolation leaves a text without `$` unchanged: it ends, and gives
/// the text itself.
pub proof fn law_template_plain_text(e: TmplEnv, s: Seq<char>)
    requires
        forall|i: int| 0 <= i < s.len() ==> s[i] != '$',
    ensures
        tmpl_terminates(e, s),
        spec_template(e, s) == s,
{
    lemma_scan_no_dollar(e, s, s.len() as int);
    assert(s.take(s.len() as int) =~= s);
    assert(tmpl_iter(e, s, 1) == Some(s));
    let n = choose|n: nat| #[trigger] tmpl_iter(e, s, n) is Some;
    if n <= 1 {
        lemma_tmpl_iter_stable(e, s, n, 1);
    } else {
        lemma_tmpl_iter_stable(e, s, 1, n);
    }
}


proof fn lemma_scan_var_name(e: TmplEnv, name: Seq<char>, k: int)
    requires
        0 <= k <= name.len(),
        forall|i: int| 0 <= i < name.len() ==> name[i] != '}',
    ensures
        tmpl_scan(e, seq!['$', '{'] + name + seq!['}'], k + 2) == (TPass {
            state: TState::InVar,
            out: seq![],
            var: name.take(k),
            replaced: false,
        }),
    decreases k,
{
    let s = seq!['$', '{'] + name + seq!['}'];
    if k == 0 {
        assert(s[0] == '$');
        assert(s[1] == '{');
        assert(tmpl_scan(e, s, 0) == (TPass { state: TState::InVal, out: seq![], var: seq![], replaced: false }));
        assert(tmpl_scan(e, s, 1) == (TPass { state: TState::VarStart, out: seq![], var: seq![], replaced: false }));
        assert(name.take(0) =~= seq![]);
    } else {
        lemma_scan_var_name(e, name, k - 1);
        assert(s[k + 1] == name[k - 1]);
        assert(name.take(k - 1).push(name[k - 1]) =~= name.take(k));
    }
}

/// Interpolation puts in place of `${name}` the text of the variable `name`:
/// where `name` is known and neither holds characters that interpolation
/// reads again (`}` in the name, `$` in the text), the interpolation of
/// `${name}` ends and gives that text.
pub proof fn law_template_substitutes(e: TmplEnv, name: Seq<char>, t: Seq<char>)
    requires
        tmpl_text(e, name) == Some(t),
        forall|i: int| 0 <= i < name.len() ==> name[i] != '}',
        forall|i: int| 0 <= i < t.len() ==> t[i] != '$',
    ensures
        tmpl_terminates(e, seq!['$', '{'] + name + seq!['}']),
        spec_template(e, seq!['$', '{'] + name + seq!['}']) == t,
{
    let s = seq!['$', '{'] + name + seq!['}'];
    lemma_scan_var_name(e, name, name.len() as int);
    assert(name.take(name.len() as int) =~= name);
    assert(s.len() == name.len() + 3);
    assert(s[name.len() + 2int] == '}');
    assert(seq![] + t =~= t);
    assert(tmpl_pass(e, s) == (t, true));
    lemma_scan_no_dollar(e, t, t.len() as int);
    assert(t.take(t.len() as int) =~= t);
    assert(tmpl_pass(e, t) == (t, false));
    assert(tmpl_iter(e, t, 1) == Some(t));
    assert(tmpl_iter(e, s, 2) == Some(t));
    let n = choose|n: nat| #[trigger] tmpl_iter(e, s, n) is Some;
    if n <= 2 {
        lemma_tmpl_iter_stable(e, s, n, 2);
    } else {
        lemma_tmpl_iter_stable(e, s, 2, n);
    }
}


/// A text without `$` is its own interpolation after any positive number
/// of passes.
pub proof fn lemma_plain_text_iter(e: TmplEnv, s: Seq<char>, n: nat)
    requires
        n >= 1,
        forall|i: int| 0 <= i < s.len() ==> s[i] != '$',
    ensures
        tmpl_iter(e, s, n) == Some(s),
{
    lemma_scan_no_dollar(e, s, s.len() as int);
    assert(s.take(s.len() as int) =~= s);
    assert(tmpl_iter(e, s, 1) == Some(s));
    lemma_tmpl_iter_stable(e, s, 1, n);
}


/// An environment variable interpolates to the environment's value: where
/// `${name}` names a variable of type environment whose value is a key set
/// in the environment, interpolation gives what the environment holds under
/// that key (when that holds no `$` and the name no `}`); likewise a
/// property variable gives the property's value.
pub proof fn law_template_reads_environment(e: TmplEnv, name: Seq<char>, key: Seq<char>, val: Seq<char>)
    requires
        name != prev_val_name(),
        search_from_block(e.tree, e.block, name) matches Some(v) && v.value == key && (v.val_type
            == VarType::Environment && e.env.contains_key(key) && e.env[key] == val || v.val_type == VarType::Property
            && e.props.contains_key(key) && e.props[key] == val),
        forall|i: int| 0 <= i < name.len() ==> name[i] != '}',
        forall|i: int| 0 <= i < val.len() ==> val[i] != '$',
    ensures
        tmpl_terminates(e, seq!['$', '{'] + name + seq!['}']),
        spec_template(e, seq!['$', '{'] + name + seq!['}']) == val,
{
    assert(tmpl_text(e, name) == Some(val));
    law_template_substitutes(e, name, val);
}

} // verus!
