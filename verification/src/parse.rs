//! The parser: it reads a script lexeme by lexeme and builds its blocks in
//! the tree. Reading an included script is the caller's work: the parser
//! stops with the path to include and the block to include it into.
use vstd::prelude::*;
use crate::block::{
    attach, empty_block, opt_str, push_param_view, search_from, set_out_view, set_vars, spec_get_target,
    tree_wf, BlockTree, BlockType, BlockView, GenBlock, GenBlockTup,
};
use crate::lex::{
    scan_array_value, scan_lex_header, spec_array_value, spec_lex_header, text_string, ArrOutcome, VarType, VarVal,
    VarValView,
};
use crate::scan::{read_lex, spec_read_lex, LexCtx, LexState, LexView, Reader};
use crate::template::{expand_template, tmpl_env, tmpl_iter, TmplEnv};
use crate::text::{str_eq, string_from_chars, to_chars, concat_chars};
use crate::vars::Context;
use crate::lex::Lexem;

verus! {

/// The name of the variable holding the current working directory.
pub const CWD: &'static str = "~cwd~";

/// The name of the variable holding the current working directory.
pub open spec fn cwd_name() -> Seq<char> {
    seq!['~', 'c', 'w', 'd', '~']
}

/// The most interpolation passes made before a value counts as looping.
pub const TEMPLATE_FUEL: usize = 4096;

/// Why parsing stopped short; in each case the script has no meaning.
#[derive(Debug, Clone, Copy, PartialEq, Eq, Structural)]
pub enum ParseFault {
    /// the lexer has no rule for a character, or a lexeme is too long
    Lexer,
    /// a block or function header has no reading
    Header,
    /// an array value has no reading
    Array,
    /// interpolating an include path takes more passes than the parser allows
    Template,
    /// a function ends where there is no enclosing block
    NoParent,
    /// the lexer would yield the same lexeme for ever
    Stuck,
    /// a lexeme the parser has no rule for
    Lexeme,
}

/// What one parsing step ends with.
#[derive(Debug)]
pub enum ParseStep {
    /// go on parsing
    Continue,
    /// the script is read
    Done,
    /// the script at the path is to be read into the block, then parsing goes on
    Include(String, GenBlockTup),
    /// the script has no meaning
    Fault(ParseFault),
}

/// What one parsing step ends with, as mathematics.
pub enum StepView {
    Continue,
    Done,
    Include(Seq<char>, GenBlockTup),
    Fault(ParseFault),
}

/// The parser between two lexemes, besides its reader.
pub struct PState {
    pub state: LexState,
    pub scoped: GenBlockTup,
    pub name: Seq<char>,
    /// how many passes the interpolation of an include path may take
    pub tfuel: nat,
}

/// A parser over the characters of one script.
pub struct Parser {
    pub reader: Reader,
    pub state: LexState,
    /// the block lexemes go into
    pub scoped: GenBlockTup,
    /// the name the next value is assigned to
    pub current_name: String,
    /// how many passes the interpolation of an include path may take
    /// before parsing stops with `ParseFault::Template`
    pub tmpl_fuel: usize,
}

impl Parser {
    /// The parser's state besides its reader.
    pub open spec fn pstate(&self) -> PState {
        PState { state: self.state, scoped: self.scoped, name: self.current_name@, tfuel: self.tmpl_fuel as nat }
    }

    /// A parser at the start of `chars`, putting what it reads into `block`.
    pub fn new(chars: Vec<char>, block: GenBlockTup) -> (r: Parser)
        ensures
            r.reader.chars@ == chars@,
            r.reader.pos == 0,
            r.reader.line == 1,
            r.state == LexState::Begin,
            r.scoped == block,
            r.current_name@.len() == 0,
            r.tmpl_fuel == TEMPLATE_FUEL,
    {
        let e: Vec<char> = Vec::new();
        let n = string_from_chars(&e);
        Parser { reader: Reader::new(chars), state: LexState::Begin, scoped: block, current_name: n, tmpl_fuel: TEMPLATE_FUEL }
    }
}

/// `s` is `None` when empty.
pub open spec fn nonempty(s: Seq<char>) -> Option<Seq<char>> {
    if s.len() == 0 { None } else { Some(s) }
}

/// The kind of block a header type names that needs no parameters.
pub open spec fn simple_kind(typ: Seq<char>) -> Option<BlockType> {
    if typ == "eq"@ {
        Some(BlockType::Eq)
    } else if typ == "if"@ {
        Some(BlockType::If)
    } else if typ == "then"@ {
        Some(BlockType::Then)
    } else if typ == "neq"@ {
        Some(BlockType::Neq)
    } else if typ == "else"@ {
        Some(BlockType::Else)
    } else if typ == "or"@ {
        Some(BlockType::Or)
    } else if typ == "and"@ {
        Some(BlockType::And)
    } else if typ == "not"@ {
        Some(BlockType::Not)
    } else if typ.len() == 0 {
        Some(BlockType::Scope)
    } else {
        None
    }
}

/// The type a `:type` suffix gives a variable.
pub open spec fn typed_kind(typ: Seq<char>) -> Option<VarType> {
    if typ == "file"@ {
        Some(VarType::File)
    } else if typ == "prop"@ {
        Some(VarType::Property)
    } else if typ == "env"@ {
        Some(VarType::Environment)
    } else if typ == "rep-rust"@ || typ == "rep-crate"@ {
        Some(VarType::RepositoryRust)
    } else if typ == "rep-maven"@ {
        Some(VarType::RepositoryMaven)
    } else {
        None
    }
}

/// A generic value.
pub open spec fn generic(s: Seq<char>) -> VarValView {
    VarValView { val_type: VarType::Generic, value: s, values: seq![] }
}

/// The variable a value lexeme defines: an array for `[..]` text that reads as
/// one, else the text itself; `None` where the array reader has no rule.
pub open spec fn value_var(value: Seq<char>) -> Option<VarValView> {
    if value.len() > 0 && value[0] == '[' && value.last() == ']' {
        match spec_array_value(value) {
            ArrOutcome::Elements(e) => Some(VarValView { val_type: VarType::Array, value: seq![], values: e }),
            ArrOutcome::Unclosed => Some(generic(value)),
            ArrOutcome::Fault => None,
        }
    } else {
        Some(generic(value))
    }
}

/// A new block with the given kind, name, directory, flex, out and line.
pub open spec fn new_block(
    kind: BlockType,
    name: Option<Seq<char>>,
    dir: Option<Seq<char>>,
    flex: Option<Seq<char>>,
    out: Option<Seq<char>>,
    line: u32,
) -> BlockView {
    BlockView { name, dir, flex, out, script_line: line, ..empty_block(kind) }
}

/// A path made absolute against `~cwd~` as seen from block `i`, unless it starts at the root.
pub open spec fn with_cwd(t: Seq<BlockView>, i: int, path: Seq<char>) -> Seq<char> {
    if path.len() > 0 && path[0] == '/' {
        path
    } else {
        match search_from(t, i, cwd_name()) {
            Some(cwd) => cwd.value + seq!['/'] + path,
            None => path,
        }
    }
}

/// Where an `include(value)` function in block `i` reads from: `None` when
/// interpolation takes more than `fuel` passes, `Some(None)` when `value`
/// names a variable that is not a file, else the path.
pub open spec fn include_path(e: TmplEnv, t: Seq<BlockView>, i: int, value: Seq<char>, fuel: nat) -> Option<Option<Seq<char>>> {
    match search_from(t, i, value) {
        Some(var) => if var.val_type == VarType::File {
            match tmpl_iter(e, var.value, fuel) {
                Some(x) => Some(Some(with_cwd(t, i, x))),
                None => None,
            }
        } else {
            Some(None)
        },
        None => match tmpl_iter(e, value, fuel) {
            Some(x) => Some(Some(with_cwd(t, i, x))),
            None => None,
        },
    }
}

/// What a parameter lexeme does (`ends` when it closes the function call).
pub open spec fn apply_param(t: Seq<BlockView>, ps: PState, value: Seq<char>, ends: bool, ctx_props: Map<Seq<char>, Seq<char>>, ctx_env: Map<Seq<char>, Seq<char>>) -> (Seq<BlockView>, PState, StepView) {
    let i = ps.scoped.0 as int;
    let t1 = push_param_view(t, i, value);
    if !ends {
        (t1, ps, StepView::Continue)
    } else {
        let e = TmplEnv { tree: t1, block: t1[i], prev: None, props: ctx_props, env: ctx_env };
        let parent = t1[i].parent;
        if t1[i].name == Some("include"@) {
            match include_path(e, t1, i, value, ps.tfuel) {
                None => (t1, ps, StepView::Fault(ParseFault::Template)),
                Some(None) => match parent {
                    Some(p) => (t1, PState { scoped: p, ..ps }, StepView::Continue),
                    None => (t1, ps, StepView::Fault(ParseFault::NoParent)),
                },
                Some(Some(path)) => match parent {
                    Some(p) => (t1, PState { scoped: p, ..ps }, StepView::Include(path, p)),
                    None => (t1, ps, StepView::Fault(ParseFault::NoParent)),
                },
            }
        } else {
            match parent {
                Some(p) => (t1, PState { scoped: p, ..ps }, StepView::Continue),
                None => (t1, ps, StepView::Fault(ParseFault::NoParent)),
            }
        }
    }
}

/// What a block header does.
pub open spec fn apply_header(t: Seq<BlockView>, ps: PState, value: Seq<char>) -> (Seq<BlockView>, PState, StepView) {
    let i = ps.scoped.0 as int;
    let ps0 = PState { name: seq![], ..ps };
    let parent_type = t[i].block_type;
    match spec_lex_header(value) {
        None => (t, ps0, StepView::Fault(ParseFault::Header)),
        Some((typ, name, work, path)) => {
            let n = GenBlockTup(t.len() as usize);
            let ps1 = PState { scoped: n, ..ps0 };
            if typ == "target"@ {
                if spec_get_target(t, i, name) is None {
                    (attach(t, i, new_block(BlockType::Target, Some(name), Some(work), Some(path), None, 0), false), ps1, StepView::Continue)
                } else {
                    (t, ps0, StepView::Continue)
                }
            } else if typ == "for"@ {
                (attach(t, i, new_block(BlockType::For, Some(name), Some(work), Some(path), None, 0), false), ps1, StepView::Continue)
            } else if typ == "dependency"@ {
                (attach(t, i, empty_block(BlockType::Dependency), true), ps1, StepView::Continue)
            } else if typ == "while"@ {
                (attach(t, i, new_block(BlockType::While, Some(name), None, None, None, 0), false), ps1, StepView::Continue)
            } else if typ == "case"@ {
                (attach(t, i, new_block(BlockType::Case, Some(name), None, None, None, 0), false), ps1, StepView::Continue)
            } else if typ == "choice"@ && parent_type == BlockType::Case {
                (attach(t, i, new_block(BlockType::Choice, Some(name), None, None, None, 0), false), ps1, StepView::Continue)
            } else {
                match simple_kind(typ) {
                    Some(k) => (attach(t, i, empty_block(k), false), ps1, StepView::Continue),
                    None => (t, ps0, StepView::Continue),
                }
            }
        },
    }
}

/// What a lexeme does to the tree and the parser, `st2` being the lexer's
/// state after it and `line` its line.
pub open spec fn apply_lexem(
    t: Seq<BlockView>,
    ps: PState,
    lx: LexView,
    st2: LexState,
    line: u32,
    props: Map<Seq<char>, Seq<char>>,
    env: Map<Seq<char>, Seq<char>>,
) -> (Seq<BlockView>, PState, StepView) {
    let i = ps.scoped.0 as int;
    let ps2 = PState { state: st2, ..ps };
    match lx {
        LexView::Eof => (t, PState { state: LexState::End, ..ps }, StepView::Done),
        LexView::Variable(name) => (t, PState { name, ..ps2 }, StepView::Continue),
        LexView::Value(value) => match value_var(value) {
            None => (t, ps2, StepView::Fault(ParseFault::Array)),
            Some(v) => if ps.name.len() == 0 {
                (set_out_view(t, i, Some(value)), ps2, StepView::Continue)
            } else {
                (set_vars(t, i, t[i].vars.insert(ps.name, v)), ps2, StepView::Continue)
            },
        },
        LexView::Function(hdr) => match spec_lex_header(hdr) {
            None => (t, ps2, StepView::Fault(ParseFault::Header)),
            Some((typ, name, work, path)) => (
                attach(t, i, new_block(BlockType::Function, Some(typ), nonempty(work), nonempty(name), nonempty(path), line), false),
                PState { scoped: GenBlockTup(t.len() as usize), ..ps2 },
                StepView::Continue,
            ),
        },
        LexView::Type(typ) => if t[i].vars.contains_key(ps.name) {
            match typed_kind(typ) {
                Some(k) => (
                    set_vars(t, i, t[i].vars.insert(ps.name, VarValView { val_type: k, value: t[i].vars[ps.name].value, values: seq![] })),
                    ps2,
                    StepView::Continue,
                ),
                None => (t, ps2, StepView::Continue),
            }
        } else {
            (t, ps2, StepView::Continue)
        },
        LexView::Parameter(value) => apply_param(t, ps2, value, st2 == LexState::EndFunction, props, env),
        LexView::BlockHdr(value) => apply_header(t, ps2, value),
        LexView::BlockEnd(value) => {
            let t1 = if t[i].out is None { set_out_view(t, i, value) } else { t };
            match t[i].parent {
                Some(p) => (t1, PState { scoped: p, ..ps2 }, StepView::Continue),
                None => (t1, ps2, StepView::Continue),
            }
        },
        LexView::Comment(_) => (t, ps2, StepView::Continue),
        LexView::Range(_, _) => (t, ps2, StepView::Fault(ParseFault::Lexeme)),
    }
}

/// A step ends the script when the parser's state is `End` after it.
pub open spec fn finish_step(r: (Seq<BlockView>, PState, StepView)) -> (Seq<BlockView>, PState, StepView) {
    match r.2 {
        StepView::Continue => if r.1.state == LexState::End {
            (r.0, r.1, StepView::Done)
        } else {
            r
        },
        _ => r,
    }
}

/// The view of a step's outcome.
pub open spec fn step_view(s: ParseStep) -> StepView {
    match s {
        ParseStep::Continue => StepView::Continue,
        ParseStep::Done => StepView::Done,
        ParseStep::Include(p, b) => StepView::Include(p@, b),
        ParseStep::Fault(f) => StepView::Fault(f),
    }
}

/// The block a handle names is in the tree.
pub open spec fn parser_ok(p: &Parser, t: Seq<BlockView>) -> bool {
    &&& p.scoped.0 < t.len()
    &&& p.reader.pos <= p.reader.chars@.len()
    &&& p.reader.line as int + p.reader.chars@.len() - p.reader.pos <= u32::MAX
}

/// The text `~cwd~`.
pub fn cwd_text() -> (r: String)
    ensures
        r@ == cwd_name(),
{
    let mut v: Vec<char> = Vec::new();
    v.push('~');
    v.push('c');
    v.push('w');
    v.push('d');
    v.push('~');
    assert(v@ =~= cwd_name());
    string_from_chars(&v)
}

/// The variable a value lexeme defines (see `value_var`).
fn value_var_exec(value: &String) -> (r: Option<VarVal>)
    ensures
        match value_var(value@) {
            Some(v) => r matches Some(x) && x@ == v,
            None => r is None,
        },
{
    let c = to_chars(value.as_str());
    if c.len() > 0 && c[0] == '[' && c[c.len() - 1] == ']' {
        match scan_array_value(value.as_str()) {
            Some(Ok(e)) => {
                let r = VarVal::from_vec(&e);
                assert(r@.value =~= seq![]);
                assert(r@.values == e@.map_values(|s: String| s@));
                Some(r)
            },
            Some(Err(_)) => {
                let r = VarVal::from_string(value.as_str());
                assert(r@.values =~= seq![]);
                Some(r)
            },
            None => None,
        }
    } else {
        let r = VarVal::from_string(value.as_str());
        assert(r@.values =~= seq![]);
        Some(r)
    }
}

/// `path` made absolute against `~cwd~` seen from block `i` (see `with_cwd`).
fn with_cwd_exec(tree: &BlockTree, i: GenBlockTup, path: String) -> (r: String)
    requires
        tree_wf(tree@),
    ensures
        r@ == with_cwd(tree@, i.0 as int, path@),
{
    let c = to_chars(path.as_str());
    if c.len() > 0 && c[0] == '/' {
        path
    } else {
        let cw = cwd_text();
        match i.search_up(tree, cw.as_str()) {
            Some(cwd) => {
                let a = to_chars(cwd.value.as_str());
                let mut b = a;
                b.push('/');
                let r = concat_chars(&b, &c);
                string_from_chars(&r)
            },
            None => path,
        }
    }
}

/// Where an include in block `i` reads from (see `include_path`).
fn include_path_exec(tree: &BlockTree, i: GenBlockTup, value: &String, ctx: &Context, fuel: usize) -> (r: Option<Option<String>>)
    requires
        tree_wf(tree@),
        i.0 < tree@.len(),
    ensures
        match include_path(TmplEnv { tree: tree@, block: tree@[i.0 as int], prev: None, props: ctx.props@, env: ctx.env@ }, tree@, i.0 as int, value@, fuel as nat) {
            None => r is None,
            Some(None) => r matches Some(None),
            Some(Some(p)) => r matches Some(Some(x)) && x@ == p,
        },
{
    let b = &tree.blocks[i.0];
    assert(tree@[i.0 as int] == b@);
    let none: Option<VarVal> = None;
    assert(tmpl_env(tree, b, ctx, &none) == TmplEnv { tree: tree@, block: tree@[i.0 as int], prev: None, props: ctx.props@, env: ctx.env@ });
    let text = match i.search_up(tree, value.as_str()) {
        Some(var) => {
            if var.val_type == VarType::File {
                expand_template(var.value.as_str(), b, tree, ctx, &none, fuel)
            } else {
                return Some(None);
            }
        },
        None => expand_template(value.as_str(), b, tree, ctx, &none, fuel),
    };
    match text {
        Some(x) => Some(Some(with_cwd_exec(tree, i, x))),
        None => None,
    }
}

/// The kind of block a header type names that needs no parameters.
fn simple_kind_exec(typ: &String) -> (r: Option<BlockType>)
    ensures
        r == simple_kind(typ@),
{
    let t = typ.as_str();
    if str_eq(t, "eq") {
        Some(BlockType::Eq)
    } else if str_eq(t, "if") {
        Some(BlockType::If)
    } else if str_eq(t, "then") {
        Some(BlockType::Then)
    } else if str_eq(t, "neq") {
        Some(BlockType::Neq)
    } else if str_eq(t, "else") {
        Some(BlockType::Else)
    } else if str_eq(t, "or") {
        Some(BlockType::Or)
    } else if str_eq(t, "and") {
        Some(BlockType::And)
    } else if str_eq(t, "not") {
        Some(BlockType::Not)
    } else if t.is_empty() {
        Some(BlockType::Scope)
    } else {
        None
    }
}

/// The type a `:type` suffix gives a variable.
fn typed_kind_exec(typ: &String) -> (r: Option<VarType>)
    ensures
        r == typed_kind(typ@),
{
    let t = typ.as_str();
    if str_eq(t, "file") {
        Some(VarType::File)
    } else if str_eq(t, "prop") {
        Some(VarType::Property)
    } else if str_eq(t, "env") {
        Some(VarType::Environment)
    } else if str_eq(t, "rep-rust") || str_eq(t, "rep-crate") {
        Some(VarType::RepositoryRust)
    } else if str_eq(t, "rep-maven") {
        Some(VarType::RepositoryMaven)
    } else {
        None
    }
}

/// `s` as optional text, `None` when empty.
fn nonempty_exec(s: String) -> (r: Option<String>)
    ensures
        opt_str(r) == nonempty(s@),
{
    if s.as_str().is_empty() { None } else { Some(s) }
}

/// A new block (see `new_block`).
fn make_block(kind: BlockType, name: Option<String>, dir: Option<String>, flex: Option<String>, out: Option<String>, line: u32) -> (r: GenBlock)
    ensures
        r@ == new_block(kind, opt_str(name), opt_str(dir), opt_str(flex), opt_str(out), line),
        r.children@.len() == 0,
        r.deps@.len() == 0,
{
    let mut b = GenBlock::new(kind);
    b.name = name;
    b.dir = dir;
    b.flex = flex;
    b.out = out;
    b.script_line = line;
    b
}

impl Parser {
    /// Reads one lexeme and applies it to the tree (see `apply_lexem`).
    pub fn step(&mut self, tree: &mut BlockTree, ctx: &Context) -> (r: ParseStep)
        requires
            tree_wf(old(tree)@),
            parser_ok(old(self), old(tree)@),
        ensures
            tree_wf(final(tree)@),
            parser_ok(final(self), final(tree)@),
            final(self).reader.chars@ == old(self).reader.chars@,
            match spec_read_lex(old(self).reader.chars@, old(self).reader.pos as int, old(self).reader.line as int, old(self).state) {
                None => step_view(r) == StepView::Fault(ParseFault::Lexer) && final(tree)@ == old(tree)@
                    && final(self).pstate() == old(self).pstate(),
                Some((lx, st2, pos2, line2)) => {
                    &&& final(self).reader.pos == pos2
                    &&& final(self).reader.line == line2
                    &&& if pos2 == old(self).reader.pos && st2 == old(self).state && !(lx is Eof) {
                        step_view(r) == StepView::Fault(ParseFault::Stuck) && final(tree)@ == old(tree)@
                            && final(self).pstate() == old(self).pstate()
                    } else {
                        let res = finish_step(apply_lexem(old(tree)@, old(self).pstate(), lx, st2, line2 as u32, ctx.props@, ctx.env@));
                        &&& final(tree)@ == res.0
                        &&& final(self).pstate() == res.1
                        &&& step_view(r) == res.2
                    }
                },
            },
    {
        let pos0 = self.reader.pos;
        let st0 = self.state;
        let (lx, st2, line) = match read_lex(&mut self.reader, st0) {
            Some(x) => x,
            None => return ParseStep::Fault(ParseFault::Lexer),
        };
        let is_eof = match lx { Lexem::EOF => true, _ => false };
        if self.reader.pos == pos0 && st2 == st0 && !is_eof {
            return ParseStep::Fault(ParseFault::Stuck);
        }
        let r = self.apply(tree, ctx, lx, st2, line);
        match r {
            ParseStep::Continue => {
                if self.state == LexState::End {
                    ParseStep::Done
                } else {
                    ParseStep::Continue
                }
            },
            _ => r,
        }
    }

    fn apply(&mut self, tree: &mut BlockTree, ctx: &Context, lx: Lexem, st2: LexState, line: u32) -> (r: ParseStep)
        requires
            tree_wf(old(tree)@),
            parser_ok(old(self), old(tree)@),
        ensures
            tree_wf(final(tree)@),
            parser_ok(final(self), final(tree)@),
            final(self).reader == old(self).reader,
            ({
                let res = apply_lexem(old(tree)@, old(self).pstate(), lx@, st2, line, ctx.props@, ctx.env@);
                &&& final(tree)@ == res.0
                &&& final(self).pstate() == res.1
                &&& step_view(r) == res.2
            }),
    {
        let i = self.scoped;
        match lx {
            Lexem::EOF => {
                self.state = LexState::End;
                ParseStep::Done
            },
            Lexem::Variable(name) => {
                self.current_name = name;
                self.state = st2;
                ParseStep::Continue
            },
            Lexem::Value(value) => {
                self.state = st2;
                match value_var_exec(&value) {
                    None => ParseStep::Fault(ParseFault::Array),
                    Some(v) => {
                        if self.current_name.as_str().is_empty() {
                            i.set_out(tree, Some(value));
                        } else {
                            let n = self.current_name.clone();
                            let _ = i.add_var(tree, n, v);
                        }
                        ParseStep::Continue
                    },
                }
            },
            Lexem::Function(hdr) => {
                self.state = st2;
                match scan_lex_header(hdr.as_str()) {
                    None => ParseStep::Fault(ParseFault::Header),
                    Some((typ, name, work, path)) => {
                        let b = make_block(BlockType::Function, Some(typ), nonempty_exec(work), nonempty_exec(name), nonempty_exec(path), line);
                        let h = i.add(tree, b);
                        self.scoped = h;
                        ParseStep::Continue
                    },
                }
            },
            Lexem::Type(typ) => {
                self.state = st2;
                let b = &tree.blocks[i.0];
                assert(old(tree)@[i.0 as int] == b@);
                match b.vars.get(self.current_name.as_str()) {
                    Some(var) => match typed_kind_exec(&typ) {
                        Some(k) => {
                            let nv = VarVal { val_type: k, value: var.value, values: Vec::new() };
                            assert(nv@.values =~= seq![]);
                            let n = self.current_name.clone();
                            let _ = i.add_var(tree, n, nv);
                            ParseStep::Continue
                        },
                        None => ParseStep::Continue,
                    },
                    None => ParseStep::Continue,
                }
            },
            Lexem::Parameter(value) => {
                self.state = st2;
                self.apply_param(tree, ctx, value, st2 == LexState::EndFunction)
            },
            Lexem::BlockHdr(value) => {
                self.state = st2;
                self.apply_header(tree, value)
            },
            Lexem::BlockEnd(value) => {
                self.state = st2;
                let has_out = tree.blocks[i.0].out.is_some();
                assert(old(tree)@[i.0 as int].out is Some == has_out);
                if !has_out {
                    i.set_out(tree, value);
                }
                match i.parent(tree) {
                    Some(p) => {
                        self.scoped = p;
                    },
                    None => {},
                }
                ParseStep::Continue
            },
            Lexem::Comment(_) => {
                self.state = st2;
                ParseStep::Continue
            },
            Lexem::Range(_, _) => {
                self.state = st2;
                ParseStep::Fault(ParseFault::Lexeme)
            },
        }
    }

    fn apply_param(&mut self, tree: &mut BlockTree, ctx: &Context, value: String, ends: bool) -> (r: ParseStep)
        requires
            tree_wf(old(tree)@),
            parser_ok(old(self), old(tree)@),
        ensures
            tree_wf(final(tree)@),
            parser_ok(final(self), final(tree)@),
            final(self).reader == old(self).reader,
            ({
                let res = apply_param(old(tree)@, old(self).pstate(), value@, ends, ctx.props@, ctx.env@);
                &&& final(tree)@ == res.0
                &&& final(self).pstate() == res.1
                &&& step_view(r) == res.2
            }),
    {
        let i = self.scoped;
        let v2 = value.clone();
        i.push_param(tree, value);
        if !ends {
            return ParseStep::Continue;
        }
        let parent = tree.blocks[i.0].parent;
        assert(parent == tree@[i.0 as int].parent);
        let is_include = crate::block::opt_string_is(&tree.blocks[i.0].name, "include");
        assert(is_include == (tree@[i.0 as int].name == Some("include"@)));
        if is_include {
            match include_path_exec(tree, i, &v2, ctx, self.tmpl_fuel) {
                None => ParseStep::Fault(ParseFault::Template),
                Some(None) => match parent {
                    Some(p) => {
                        self.scoped = p;
                        ParseStep::Continue
                    },
                    None => ParseStep::Fault(ParseFault::NoParent),
                },
                Some(Some(path)) => match parent {
                    Some(p) => {
                        self.scoped = p;
                        ParseStep::Include(path, p)
                    },
                    None => ParseStep::Fault(ParseFault::NoParent),
                },
            }
        } else {
            match parent {
                Some(p) => {
                    self.scoped = p;
                    ParseStep::Continue
                },
                None => ParseStep::Fault(ParseFault::NoParent),
            }
        }
    }

    fn apply_header(&mut self, tree: &mut BlockTree, value: String) -> (r: ParseStep)
        requires
            tree_wf(old(tree)@),
            parser_ok(old(self), old(tree)@),
        ensures
            tree_wf(final(tree)@),
            parser_ok(final(self), final(tree)@),
            final(self).reader == old(self).reader,
            ({
                let res = apply_header(old(tree)@, old(self).pstate(), value@);
                &&& final(tree)@ == res.0
                &&& final(self).pstate() == res.1
                &&& step_view(r) == res.2
            }),
    {
        let i = self.scoped;
        let parent_type = tree.blocks[i.0].block_type;
        assert(parent_type == tree@[i.0 as int].block_type);
        let e: Vec<char> = Vec::new();
        self.current_name = string_from_chars(&e);
        assert(self.current_name@ =~= seq![]);
        let (typ, name, work, path) = match scan_lex_header(value.as_str()) {
            None => return ParseStep::Fault(ParseFault::Header),
            Some(x) => x,
        };
        let t = typ.as_str();
        if str_eq(t, "target") {
            if i.get_target(tree, name.as_str()).is_none() {
                let b = make_block(BlockType::Target, Some(name), Some(work), Some(path), None, 0);
                self.scoped = i.add(tree, b);
            }
            ParseStep::Continue
        } else if str_eq(t, "for") {
            let b = make_block(BlockType::For, Some(name), Some(work), Some(path), None, 0);
            self.scoped = i.add(tree, b);
            ParseStep::Continue
        } else if str_eq(t, "dependency") {
            let b = GenBlock::new(BlockType::Dependency);
            self.scoped = i.add_dep(tree, b);
            ParseStep::Continue
        } else if str_eq(t, "while") {
            let b = make_block(BlockType::While, Some(name), None, None, None, 0);
            self.scoped = i.add(tree, b);
            ParseStep::Continue
        } else if str_eq(t, "case") {
            let b = make_block(BlockType::Case, Some(name), None, None, None, 0);
            self.scoped = i.add(tree, b);
            ParseStep::Continue
        } else if str_eq(t, "choice") && parent_type == BlockType::Case {
            let b = make_block(BlockType::Choice, Some(name), None, None, None, 0);
            self.scoped = i.add(tree, b);
            ParseStep::Continue
        } else {
            match simple_kind_exec(&typ) {
                Some(k) => {
                    let b = GenBlock::new(k);
                    self.scoped = i.add(tree, b);
                    ParseStep::Continue
                },
                None => ParseStep::Continue,
            }
        }
    }
}

/// One parsing step over the whole parser: the tree, the reader's position
/// and line, the parser's state and the outcome.
pub open spec fn spec_step(
    t: Seq<BlockView>,
    cs: Seq<char>,
    pos: int,
    line: int,
    ps: PState,
    props: Map<Seq<char>, Seq<char>>,
    env: Map<Seq<char>, Seq<char>>,
) -> (Seq<BlockView>, int, int, PState, StepView) {
    match spec_read_lex(cs, pos, line, ps.state) {
        None => (t, pos, line, ps, StepView::Fault(ParseFault::Lexer)),
        Some((lx, st2, pos2, line2)) => if pos2 == pos && st2 == ps.state && !(lx is Eof) {
            (t, pos2, line2, ps, StepView::Fault(ParseFault::Stuck))
        } else {
            let r = finish_step(apply_lexem(t, ps, lx, st2, line2 as u32, props, env));
            (r.0, pos2, line2, r.1, r.2)
        },
    }
}

/// At most `n` parsing steps, stopping at the first that does not continue;
/// `None` when all `n` continue.
pub open spec fn run_steps(
    t: Seq<BlockView>,
    cs: Seq<char>,
    pos: int,
    line: int,
    ps: PState,
    props: Map<Seq<char>, Seq<char>>,
    env: Map<Seq<char>, Seq<char>>,
    n: nat,
) -> Option<(Seq<BlockView>, int, int, PState, StepView)>
    decreases n,
{
    if n == 0 {
        None
    } else {
        let r = spec_step(t, cs, pos, line, ps, props, env);
        match r.4 {
            StepView::Continue => run_steps(r.0, cs, r.1, r.2, r.3, props, env, (n - 1) as nat),
            _ => Some(r),
        }
    }
}

/// A measure that every continuing step lowers.
pub open spec fn parse_measure(len: int, pos: int, state: LexState) -> int {
    2 * (len - pos) + if state == LexState::InValue { 1int } else { 0int }
}

/// Parses `parser`'s script into `tree` until it is read (`Done`), a script
/// is to be included (`Include`: read it into the block given, then call
/// again) or it has no meaning (`Fault`). The result is that of the steps of
/// `spec_step` up to the first that does not continue.
pub fn process(parser: &mut Parser, tree: &mut BlockTree, ctx: &Context) -> (r: ParseStep)
    requires
        tree_wf(old(tree)@),
        parser_ok(old(parser), old(tree)@),
    ensures
        tree_wf(final(tree)@),
        parser_ok(final(parser), final(tree)@),
        final(parser).reader.chars@ == old(parser).reader.chars@,
        !(r is Continue),
        exists|n: nat| #[trigger] run_steps(
            old(tree)@,
            old(parser).reader.chars@,
            old(parser).reader.pos as int,
            old(parser).reader.line as int,
            old(parser).pstate(),
            ctx.props@,
            ctx.env@,
            n,
        ) matches Some(res) && final(tree)@ == res.0 && step_view(r) == res.4 && final(parser).pstate() == res.3
            && (res.4 != StepView::Fault(ParseFault::Lexer) ==> final(parser).reader.pos == res.1
            && final(parser).reader.line == res.2),
{
    let ghost t0 = tree@;
    let ghost cs = parser.reader.chars@;
    let ghost pos0 = parser.reader.pos as int;
    let ghost line0 = parser.reader.line as int;
    let ghost ps0 = parser.pstate();
    let ghost mut k: nat = 0;
    loop
        invariant
            tree_wf(tree@),
            parser_ok(parser, tree@),
            parser.reader.chars@ == cs,
            cs == old(parser).reader.chars@,
            t0 == old(tree)@,
            pos0 == old(parser).reader.pos as int,
            line0 == old(parser).reader.line as int,
            ps0 == old(parser).pstate(),
            forall|m: nat| #[trigger] run_steps(t0, cs, pos0, line0, ps0, ctx.props@, ctx.env@, k + m)
                == run_steps(tree@, cs, parser.reader.pos as int, parser.reader.line as int, parser.pstate(), ctx.props@, ctx.env@, m),
        decreases parse_measure(cs.len() as int, parser.reader.pos as int, parser.state),
    {
        let ghost tb = tree@;
        let ghost posb = parser.reader.pos as int;
        let ghost lineb = parser.reader.line as int;
        let ghost psb = parser.pstate();
        let ghost stb = parser.state;
        let r = parser.step(tree, ctx);
        proof {
            let sv = spec_step(tb, cs, posb, lineb, psb, ctx.props@, ctx.env@);
            reveal_with_fuel(run_steps, 2);
            assert(run_steps(tb, cs, posb, lineb, psb, ctx.props@, ctx.env@, 1) == if sv.4 is Continue {
                None
            } else {
                Some(sv)
            });
            assert(run_steps(t0, cs, pos0, line0, ps0, ctx.props@, ctx.env@, k + 1)
                == run_steps(tb, cs, posb, lineb, psb, ctx.props@, ctx.env@, 1));
        }
        match r {
            ParseStep::Continue => {
                proof {
                    let l = spec_read_lex(cs, posb, lineb, stb);
                    let ctx0 = LexCtx { state: stb, buf: seq![], last_nb: 0, prev_state: LexState::Begin, prev_buf: seq![] };
                    crate::scan::lemma_lex_loop_advances(cs, posb, lineb, ctx0);
                    assert forall|m: nat| #[trigger] run_steps(t0, cs, pos0, line0, ps0, ctx.props@, ctx.env@, (k + 1) + m)
                        == run_steps(tree@, cs, parser.reader.pos as int, parser.reader.line as int, parser.pstate(), ctx.props@, ctx.env@, m) by {
                        assert(run_steps(t0, cs, pos0, line0, ps0, ctx.props@, ctx.env@, k + (m + 1))
                            == run_steps(tb, cs, posb, lineb, psb, ctx.props@, ctx.env@, m + 1));
                        assert((k + 1) + m == k + (m + 1));
                    }
                    k = k + 1;
                }
            },
            _ => {
                proof {
                    let sv = spec_step(tb, cs, posb, lineb, psb, ctx.props@, ctx.env@);
                    assert(run_steps(t0, cs, pos0, line0, ps0, ctx.props@, ctx.env@, k + 1) == Some(sv));
                    assert(tree@ == sv.0);
                    assert(step_view(r) == sv.4);
                    assert(parser.pstate() == sv.3);
                }
                return r;
            },
        }
    }
}

} // verus!
