//! The block tree of a script: every block (the script itself, targets,
//! dependencies, functions, conditionals, loops) lives in one arena, the
//! `BlockTree`, and refers to its parent and children by index.
use vstd::prelude::*;
use crate::lex::{VarVal, VarValView};
use crate::text::to_chars;
use crate::vars::{AssocMap, Duplicate};

verus! {

/// The kind of a block.
#[derive(Debug, Clone, Copy, PartialEq, Eq, Structural)]
pub enum BlockType {
    Main,
    Target,
    Dependency,
    If,
    Scope,
    Eq,
    Function,
    Neq,
    Then,
    Else,
    Or,
    And,
    Not,
    For,
    While,
    Case,
    Choice,
}

impl Default for BlockType {
    fn default() -> (r: Self)
        ensures
            r == BlockType::Scope,
    {
        BlockType::Scope
    }
}

/// The variables of a block.
pub type VarMap = AssocMap<VarVal>;

/// A handle on a block of a `BlockTree`: its index in the arena.
#[derive(Debug, Clone, Copy, PartialEq, Eq, Structural)]
pub struct GenBlockTup(pub usize);

/// A block of a script.
pub struct GenBlock {
    pub name: Option<String>,
    pub block_type: BlockType,
    /// working directory
    pub dir: Option<String>,
    pub flex: Option<String>,
    pub out: Option<String>,
    pub vars: VarMap,
    pub params: Vec<String>,
    pub children: Vec<GenBlockTup>,
    pub deps: Vec<GenBlockTup>,
    pub parent: Option<GenBlockTup>,
    pub script_line: u32,
}

/// All blocks of a script; a block's parent always stands before it.
pub struct BlockTree {
    pub blocks: Vec<GenBlock>,
}

/// The view of optional text.
pub open spec fn opt_str(o: Option<String>) -> Option<Seq<char>> {
    match o {
        Some(s) => Some(s@),
        None => None,
    }
}

/// The mathematical content of a block.
pub struct BlockView {
    pub name: Option<Seq<char>>,
    pub block_type: BlockType,
    pub dir: Option<Seq<char>>,
    pub flex: Option<Seq<char>>,
    pub out: Option<Seq<char>>,
    pub vars: Map<Seq<char>, VarValView>,
    pub params: Seq<Seq<char>>,
    pub children: Seq<GenBlockTup>,
    pub deps: Seq<GenBlockTup>,
    pub parent: Option<GenBlockTup>,
    pub script_line: u32,
}

impl View for GenBlock {
    type V = BlockView;

    open spec fn view(&self) -> BlockView {
        BlockView {
            name: opt_str(self.name),
            block_type: self.block_type,
            dir: opt_str(self.dir),
            flex: opt_str(self.flex),
            out: opt_str(self.out),
            vars: self.vars@,
            params: self.params@.map_values(|s: String| s@),
            children: self.children@,
            deps: self.deps@,
            parent: self.parent,
            script_line: self.script_line,
        }
    }
}

impl View for BlockTree {
    type V = Seq<BlockView>;

    open spec fn view(&self) -> Seq<BlockView> {
        self.blocks@.map_values(|b: GenBlock| b@)
    }
}

/// The parent of a block stands before it in the arena.
pub open spec fn parent_before(b: BlockView, i: int) -> bool {
    match b.parent {
        Some(p) => (p.0 as int) < i,
        None => true,
    }
}

/// The handles of `hs` are all blocks of an arena of `n` blocks.
pub open spec fn handles_below(hs: Seq<GenBlockTup>, n: int) -> bool {
    forall|k: int| 0 <= k < hs.len() ==> (#[trigger] hs[k]).0 < n
}

/// The arena is well formed: every parent stands before its child and every
/// child or dependency handle names a block of the arena.
pub open spec fn tree_wf(t: Seq<BlockView>) -> bool {
    forall|i: int|
        0 <= i < t.len() ==> {
            &&& parent_before(#[trigger] t[i], i)
            &&& handles_below(t[i].children, t.len() as int)
            &&& handles_below(t[i].deps, t.len() as int)
        }
}

/// The value of `name` seen from block `i`: the nearest block on the way up
/// the parents, starting at `i`, that defines it.
pub open spec fn search_from(t: Seq<BlockView>, i: int, name: Seq<char>) -> Option<VarValView>
    decreases i,
{
    if 0 <= i < t.len() {
        if t[i].vars.contains_key(name) {
            Some(t[i].vars[name])
        } else {
            match t[i].parent {
                Some(p) => if (p.0 as int) < i {
                    search_from(t, p.0 as int, name)
                } else {
                    None
                },
                None => None,
            }
        }
    } else {
        None
    }
}

/// The nearest block on the way up from `i` (itself included) that defines `name`.
pub open spec fn block_defining(t: Seq<BlockView>, i: int, name: Seq<char>) -> Option<int>
    decreases i,
{
    if 0 <= i < t.len() {
        if t[i].vars.contains_key(name) {
            Some(i)
        } else {
            match t[i].parent {
                Some(p) => if (p.0 as int) < i {
                    block_defining(t, p.0 as int, name)
                } else {
                    None
                },
                None => None,
            }
        }
    } else {
        None
    }
}

/// The root reached by following parents from `i`.
pub open spec fn top_from(t: Seq<BlockView>, i: int) -> int
    decreases i,
{
    if 0 <= i < t.len() {
        match t[i].parent {
            Some(p) => if (p.0 as int) < i {
                top_from(t, p.0 as int)
            } else {
                i
            },
            None => i,
        }
    } else {
        i
    }
}

/// Block `i` with `node` appended to its children (or its dependencies).
pub open spec fn with_child(b: BlockView, n: GenBlockTup, as_dep: bool) -> BlockView {
    if as_dep {
        BlockView { deps: b.deps.push(n), ..b }
    } else {
        BlockView { children: b.children.push(n), ..b }
    }
}

/// The tree with `node` attached under block `i` as a child (or dependency).
pub open spec fn attach(t: Seq<BlockView>, i: int, node: BlockView, as_dep: bool) -> Seq<BlockView> {
    t.update(i, with_child(t[i], GenBlockTup(t.len() as usize), as_dep)).push(
        BlockView { parent: Some(GenBlockTup(i as usize)), ..node },
    )
}

/// The tree with the variables of block `i` replaced by `vars`.
pub open spec fn set_vars(t: Seq<BlockView>, i: int, vars: Map<Seq<char>, VarValView>) -> Seq<BlockView> {
    t.update(i, BlockView { vars, ..t[i] })
}

/// The name of the result of the previous operation.
pub open spec fn prev_val_name() -> Seq<char> {
    seq!['~', '~']
}

/// The name of the variable holding the script path.
pub open spec fn script_name() -> Seq<char> {
    seq!['~', 's', 'c', 'r', 'i', 'p', 't', '~']
}

/// The name is `~~`.
pub fn is_prev_val_name(name: &str) -> (r: bool)
    ensures
        r == (name@ == prev_val_name()),
{
    let c = to_chars(name);
    if c.len() == 2 && c[0] == '~' && c[1] == '~' {
        assert(c@ =~= prev_val_name());
        true
    } else {
        false
    }
}

/// A copy of an optional value.
pub fn dup_opt(v: &Option<VarVal>) -> (r: Option<VarVal>)
    ensures
        opt_view(r) == opt_view(*v),
{
    match v {
        Some(x) => Some(x.duplicate()),
        None => None,
    }
}

/// The view of an optional value.
pub open spec fn opt_view(v: Option<VarVal>) -> Option<VarValView> {
    match v {
        Some(x) => Some(x@),
        None => None,
    }
}

impl GenBlock {
    /// A block of the given kind with nothing else set.
    pub fn new(block_type: BlockType) -> (r: GenBlock)
        ensures
            r@ == empty_block(block_type),
    {
        let r = GenBlock {
            name: None,
            block_type,
            dir: None,
            flex: None,
            out: None,
            vars: AssocMap::new(),
            params: Vec::new(),
            children: Vec::new(),
            deps: Vec::new(),
            parent: None,
            script_line: 0,
        };
        assert(r@.params =~= Seq::<Seq<char>>::empty());
        assert(r@.children =~= Seq::<GenBlockTup>::empty());
        assert(r@.deps =~= Seq::<GenBlockTup>::empty());
        r
    }

    /// The value of `name` as seen from this block: its own variables first,
    /// then those of its ancestors in `tree`.
    pub fn search_up(&self, tree: &BlockTree, name: &str) -> (r: Option<VarVal>)
        requires
            tree_wf(tree@),
        ensures
            opt_view(r) == search_from_block(tree@, self@, name@),
    {
        match self.vars.get(name) {
            Some(v) => Some(v),
            None => match self.parent {
                Some(p) => p.search_up(tree, name),
                None => None,
            },
        }
    }

    /// `~~` names the previous result `prev`; any other name is searched up.
    pub fn prev_or_search_up(&self, tree: &BlockTree, name: &str, prev: &Option<VarVal>) -> (r: Option<VarVal>)
        requires
            tree_wf(tree@),
        ensures
            opt_view(r) == (if name@ == prev_val_name() {
                opt_view(*prev)
            } else {
                search_from_block(tree@, self@, name@)
            }),
    {
        if is_prev_val_name(name) {
            dup_opt(prev)
        } else {
            self.search_up(tree, name)
        }
    }
}

impl GenBlock {
    /// The path of the script this block belongs to (`~script~`), or an
    /// empty text when it is not set.
    pub fn script_path(&self, tree: &BlockTree) -> (r: String)
        requires
            tree_wf(tree@),
        ensures
            r@ == match search_from_block(tree@, self@, script_name()) {
                Some(v) => v.value,
                None => Seq::<char>::empty(),
            },
    {
        let mut n: Vec<char> = Vec::new();
        n.push('~'); n.push('s'); n.push('c'); n.push('r'); n.push('i'); n.push('p'); n.push('t'); n.push('~');
        assert(n@ =~= script_name());
        let name = crate::text::string_from_chars(&n);
        match self.search_up(tree, name.as_str()) {
            Some(v) => v.value,
            None => {
                let e: Vec<char> = Vec::new();
                crate::text::string_from_chars(&e)
            },
        }
    }
}

/// A block of kind `t` with nothing else set.
pub open spec fn empty_block(t: BlockType) -> BlockView {
    BlockView {
        name: None,
        block_type: t,
        dir: None,
        flex: None,
        out: None,
        vars: Map::empty(),
        params: seq![],
        children: seq![],
        deps: seq![],
        parent: None,
        script_line: 0,
    }
}

/// The value of `name` seen from block `b` (which need not be in `t`): its own
/// variables, then the ancestors of `b` in `t`.
pub open spec fn search_from_block(t: Seq<BlockView>, b: BlockView, name: Seq<char>) -> Option<VarValView> {
    if b.vars.contains_key(name) {
        Some(b.vars[name])
    } else {
        match b.parent {
            Some(p) => search_from(t, p.0 as int, name),
            None => None,
        }
    }
}

impl GenBlockTup {
    /// The value of `name` seen from this block.
    pub fn search_up(&self, tree: &BlockTree, name: &str) -> (r: Option<VarVal>)
        requires
            tree_wf(tree@),
        ensures
            opt_view(r) == search_from(tree@, self.0 as int, name@),
    {
        let mut cur = self.0;
        let n = tree.blocks.len();
        loop
            invariant
                n == tree@.len(),
                tree_wf(tree@),
                search_from(tree@, cur as int, name@) == search_from(tree@, self.0 as int, name@),
            decreases cur,
        {
            if cur >= n {
                return None;
            }
            let b = &tree.blocks[cur];
            assert(tree@[cur as int] == b@);
            match b.vars.get(name) {
                Some(v) => return Some(v),
                None => match b.parent {
                    Some(p) => {
                        assert(parent_before(tree@[cur as int], cur as int));
                        cur = p.0;
                    },
                    None => return None,
                },
            }
        }
    }

    /// `~~` names the previous result `prev`; any other name is searched up.
    pub fn prev_or_search_up(&self, tree: &BlockTree, name: &str, prev: &Option<VarVal>) -> (r: Option<VarVal>)
        requires
            tree_wf(tree@),
        ensures
            opt_view(r) == (if name@ == prev_val_name() {
                opt_view(*prev)
            } else {
                search_from(tree@, self.0 as int, name@)
            }),
    {
        if is_prev_val_name(name) {
            dup_opt(prev)
        } else {
            self.search_up(tree, name)
        }
    }

    /// The nearest block, from this one up, that defines `name`.
    pub fn search_up_block(&self, tree: &BlockTree, name: &str) -> (r: Option<GenBlockTup>)
        requires
            tree_wf(tree@),
        ensures
            match r {
                Some(h) => block_defining(tree@, self.0 as int, name@) == Some(h.0 as int),
                None => block_defining(tree@, self.0 as int, name@) is None,
            },
    {
        let mut cur = self.0;
        let n = tree.blocks.len();
        loop
            invariant
                n == tree@.len(),
                tree_wf(tree@),
                block_defining(tree@, cur as int, name@) == block_defining(tree@, self.0 as int, name@),
            decreases cur,
        {
            if cur >= n {
                return None;
            }
            let b = &tree.blocks[cur];
            assert(tree@[cur as int] == b@);
            if b.vars.contains_key(name) {
                return Some(GenBlockTup(cur));
            }
            match b.parent {
                Some(p) => {
                    assert(parent_before(tree@[cur as int], cur as int));
                    cur = p.0;
                },
                None => return None,
            }
        }
    }

    /// The parent of this block.
    pub fn parent(&self, tree: &BlockTree) -> (r: Option<GenBlockTup>)
        requires
            self.0 < tree@.len(),
        ensures
            r == tree@[self.0 as int].parent,
    {
        tree.blocks[self.0].parent
    }

    /// The root of the tree this block belongs to.
    pub fn get_top_block(&self, tree: &BlockTree) -> (r: GenBlockTup)
        requires
            tree_wf(tree@),
        ensures
            r.0 as int == top_from(tree@, self.0 as int),
    {
        let mut cur = self.0;
        let n = tree.blocks.len();
        loop
            invariant
                n == tree@.len(),
                tree_wf(tree@),
                top_from(tree@, cur as int) == top_from(tree@, self.0 as int),
            decreases cur,
        {
            if cur >= n {
                return GenBlockTup(cur);
            }
            assert(tree@[cur as int] == tree.blocks@[cur as int]@);
            match tree.blocks[cur].parent {
                Some(p) => {
                    assert(parent_before(tree@[cur as int], cur as int));
                    cur = p.0;
                },
                None => return GenBlockTup(cur),
            }
        }
    }

    /// Attaches `node` as the last child of this block; returns its handle.
    pub fn add(&self, tree: &mut BlockTree, node: GenBlock) -> (r: GenBlockTup)
        requires
            tree_wf(old(tree)@),
            self.0 < old(tree)@.len(),
            handles_below(node.children@, old(tree)@.len() as int),
            handles_below(node.deps@, old(tree)@.len() as int),
        ensures
            tree_wf(final(tree)@),
            r.0 == old(tree)@.len(),
            final(tree)@ == attach(old(tree)@, self.0 as int, node@, false),
    {
        self.attach_node(tree, node, false)
    }

    /// Attaches `node` as the last dependency of this block; returns its handle.
    pub fn add_dep(&self, tree: &mut BlockTree, node: GenBlock) -> (r: GenBlockTup)
        requires
            tree_wf(old(tree)@),
            self.0 < old(tree)@.len(),
            handles_below(node.children@, old(tree)@.len() as int),
            handles_below(node.deps@, old(tree)@.len() as int),
        ensures
            tree_wf(final(tree)@),
            r.0 == old(tree)@.len(),
            final(tree)@ == attach(old(tree)@, self.0 as int, node@, true),
    {
        self.attach_node(tree, node, true)
    }

    fn attach_node(&self, tree: &mut BlockTree, node: GenBlock, as_dep: bool) -> (r: GenBlockTup)
        requires
            tree_wf(old(tree)@),
            self.0 < old(tree)@.len(),
            handles_below(node.children@, old(tree)@.len() as int),
            handles_below(node.deps@, old(tree)@.len() as int),
        ensures
            tree_wf(final(tree)@),
            r.0 == old(tree)@.len(),
            final(tree)@ == attach(old(tree)@, self.0 as int, node@, as_dep),
    {
        let n = tree.blocks.len();
        let ghost t0 = tree@;
        let mut node = node;
        node.parent = Some(*self);
        let ghost nv = node@;
        tree.blocks.push(node);
        let mut b = tree.blocks.remove(self.0);
        let ghost bv = b@;
        if as_dep {
            b.deps.push(GenBlockTup(n));
        } else {
            b.children.push(GenBlockTup(n));
        }
        assert(b@ == with_child(bv, GenBlockTup(n), as_dep)) by {
            assert(b@.children =~= with_child(bv, GenBlockTup(n), as_dep).children);
            assert(b@.deps =~= with_child(bv, GenBlockTup(n), as_dep).deps);
        }
        tree.blocks.insert(self.0, b);
        assert(tree@ =~= attach(t0, self.0 as int, nv, as_dep).update(n as int, nv)) by {
            assert forall|j: int| 0 <= j < tree@.len() implies #[trigger] tree@[j] == attach(t0, self.0 as int, nv, as_dep).update(n as int, nv)[j] by {
                if j < n && j != self.0 {
                    assert(tree.blocks@[j] == old(tree).blocks@[j]);
                }
            }
        }
        assert(attach(t0, self.0 as int, nv, as_dep).update(n as int, nv) =~= attach(t0, self.0 as int, node@, as_dep));
        proof { lemma_attach_wf(t0, self.0 as int, node@, as_dep); }
        GenBlockTup(n)
    }

    /// Sets `name` to `val` in this block; returns the value it replaced.
    pub fn add_var(&self, tree: &mut BlockTree, name: String, val: VarVal) -> (r: Option<VarVal>)
        requires
            tree_wf(old(tree)@),
            self.0 < old(tree)@.len(),
        ensures
            tree_wf(final(tree)@),
            final(tree)@ == set_vars(old(tree)@, self.0 as int, old(tree)@[self.0 as int].vars.insert(name@, val@)),
            opt_view(r) == (if old(tree)@[self.0 as int].vars.contains_key(name@) {
                Some(old(tree)@[self.0 as int].vars[name@])
            } else {
                None
            }),
    {
        let mut b = tree.blocks.remove(self.0);
        let r = b.vars.insert(name, val);
        tree.blocks.insert(self.0, b);
        proof { lemma_set_vars(old(tree), tree, self.0 as int); }
        r
    }

    /// Removes `name` from this block; returns the value it held.
    pub fn remove_var(&self, tree: &mut BlockTree, name: &str) -> (r: Option<VarVal>)
        requires
            tree_wf(old(tree)@),
            self.0 < old(tree)@.len(),
        ensures
            tree_wf(final(tree)@),
            final(tree)@ == set_vars(old(tree)@, self.0 as int, old(tree)@[self.0 as int].vars.remove(name@)),
            opt_view(r) == (if old(tree)@[self.0 as int].vars.contains_key(name@) {
                Some(old(tree)@[self.0 as int].vars[name@])
            } else {
                None
            }),
    {
        let mut b = tree.blocks.remove(self.0);
        let r = b.vars.remove(name);
        tree.blocks.insert(self.0, b);
        proof { lemma_set_vars(old(tree), tree, self.0 as int); }
        r
    }
}

proof fn lemma_set_vars(before: &BlockTree, after: &BlockTree, i: int)
    requires
        tree_wf(before@),
        0 <= i < before@.len(),
        after.blocks@.len() == before.blocks@.len(),
        forall|j: int| 0 <= j < before.blocks@.len() && j != i ==> #[trigger] after.blocks@[j] == before.blocks@[j],
        ({
            let a = after.blocks@[i];
            let b = before.blocks@[i];
            &&& a.name == b.name
            &&& a.block_type == b.block_type
            &&& a.dir == b.dir
            &&& a.flex == b.flex
            &&& a.out == b.out
            &&& a.params == b.params
            &&& a.children == b.children
            &&& a.deps == b.deps
            &&& a.parent == b.parent
            &&& a.script_line == b.script_line
        }),
    ensures
        after@ == set_vars(before@, i, after@[i].vars),
        tree_wf(after@),
{
    assert(after@ =~= set_vars(before@, i, after@[i].vars)) by {
        assert forall|j: int| 0 <= j < after@.len() implies #[trigger] after@[j] == set_vars(before@, i, after@[i].vars)[j] by {
            if j != i {
                assert(after.blocks@[j] == before.blocks@[j]);
            }
        }
    }
    assert forall|j: int| 0 <= j < after@.len() implies {
        &&& parent_before(#[trigger] after@[j], j)
        &&& handles_below(after@[j].children, after@.len() as int)
        &&& handles_below(after@[j].deps, after@.len() as int)
    } by {
        assert(parent_before(before@[j], j));
    }
}

proof fn lemma_attach_wf(t: Seq<BlockView>, i: int, node: BlockView, as_dep: bool)
    requires
        tree_wf(t),
        0 <= i < t.len(),
        handles_below(node.children, t.len() as int),
        handles_below(node.deps, t.len() as int),
    ensures
        tree_wf(attach(t, i, node, as_dep)),
{
    let a = attach(t, i, node, as_dep);
    assert forall|j: int| 0 <= j < a.len() implies {
        &&& parent_before(#[trigger] a[j], j)
        &&& handles_below(a[j].children, a.len() as int)
        &&& handles_below(a[j].deps, a.len() as int)
    } by {
        if j < t.len() {
            assert(parent_before(t[j], j));
            assert(handles_below(t[j].children, t.len() as int));
            assert(handles_below(t[j].deps, t.len() as int));
            if j == i {
                let w = with_child(t[i], GenBlockTup(t.len() as usize), as_dep);
                assert(handles_below(w.children, a.len() as int));
                assert(handles_below(w.deps, a.len() as int));
            }
        }
    }
}

/// The first of the children `cs[k..]` that is a target named `name`.
pub open spec fn find_target(t: Seq<BlockView>, cs: Seq<GenBlockTup>, k: int, name: Seq<char>) -> Option<GenBlockTup>
    decreases cs.len() - k,
{
    if k < 0 || k >= cs.len() {
        None
    } else {
        let h = cs[k];
        if 0 <= h.0 < t.len() && t[h.0 as int].block_type == BlockType::Target && t[h.0 as int].name == Some(name) {
            Some(h)
        } else {
            find_target(t, cs, k + 1, name)
        }
    }
}

/// The target named `name` among the children of the root above block `i`.
pub open spec fn spec_get_target(t: Seq<BlockView>, i: int, name: Seq<char>) -> Option<GenBlockTup> {
    let top = top_from(t, i);
    if 0 <= top < t.len() {
        find_target(t, t[top].children, 0, name)
    } else {
        None
    }
}

/// Optional text equals `s`.
pub fn opt_string_is(o: &Option<String>, s: &str) -> (r: bool)
    ensures
        r == (opt_str(*o) == Some(s@)),
{
    match o {
        Some(x) => {
            let a = crate::text::to_chars(x.as_str());
            let b = crate::text::to_chars(s);
            crate::text::chars_eq(&a, &b)
        },
        None => false,
    }
}

impl GenBlockTup {
    /// The target named `name` of the script this block belongs to.
    pub fn get_target(&self, tree: &BlockTree, name: &str) -> (r: Option<GenBlockTup>)
        requires
            tree_wf(tree@),
        ensures
            r == spec_get_target(tree@, self.0 as int, name@),
    {
        let top = self.get_top_block(tree);
        if top.0 >= tree.blocks.len() {
            return None;
        }
        let cs = &tree.blocks[top.0].children;
        assert(cs@ == tree@[top.0 as int].children);
        let mut k: usize = 0;
        while k < cs.len()
            invariant
                k <= cs@.len(),
                top.0 < tree@.len(),
                cs@ == tree@[top.0 as int].children,
                find_target(tree@, cs@, k as int, name@) == spec_get_target(tree@, self.0 as int, name@),
            decreases cs@.len() - k,
        {
            let h = cs[k];
            if h.0 < tree.blocks.len() {
                let b = &tree.blocks[h.0];
                assert(tree@[h.0 as int] == b@);
                if b.block_type == BlockType::Target && opt_string_is(&b.name, name) {
                    return Some(h);
                }
            }
            k += 1;
        }
        None
    }
}

/// Changing a block without touching its links keeps the tree well formed.
pub proof fn lemma_relink_free(t: Seq<BlockView>, i: int, x: BlockView)
    requires
        tree_wf(t),
        0 <= i < t.len(),
        x.parent == t[i].parent,
        x.children == t[i].children,
        x.deps == t[i].deps,
    ensures
        tree_wf(t.update(i, x)),
{
    let a = t.update(i, x);
    assert forall|j: int| 0 <= j < a.len() implies {
        &&& parent_before(#[trigger] a[j], j)
        &&& handles_below(a[j].children, a.len() as int)
        &&& handles_below(a[j].deps, a.len() as int)
    } by {
        assert(parent_before(t[j], j));
        assert(handles_below(t[j].children, t.len() as int));
        assert(handles_below(t[j].deps, t.len() as int));
    }
}

/// Block `i` with `out` set.
pub open spec fn set_out_view(t: Seq<BlockView>, i: int, out: Option<Seq<char>>) -> Seq<BlockView> {
    t.update(i, BlockView { out, ..t[i] })
}

/// Block `i` with `p` appended to its parameters.
pub open spec fn push_param_view(t: Seq<BlockView>, i: int, p: Seq<char>) -> Seq<BlockView> {
    t.update(i, BlockView { params: t[i].params.push(p), ..t[i] })
}

impl GenBlockTup {
    /// Sets the `out` of this block.
    pub fn set_out(&self, tree: &mut BlockTree, out: Option<String>)
        requires
            tree_wf(old(tree)@),
            self.0 < old(tree)@.len(),
        ensures
            tree_wf(final(tree)@),
            final(tree)@ == set_out_view(old(tree)@, self.0 as int, opt_str(out)),
    {
        let ghost t0 = tree@;
        let mut b = tree.blocks.remove(self.0);
        b.out = out;
        let ghost bv = b@;
        tree.blocks.insert(self.0, b);
        assert(tree@ =~= set_out_view(t0, self.0 as int, opt_str(out))) by {
            assert forall|j: int| 0 <= j < tree@.len() implies #[trigger] tree@[j] == set_out_view(t0, self.0 as int, opt_str(out))[j] by {
                if j != self.0 {
                    assert(tree.blocks@[j] == old(tree).blocks@[j]);
                }
            }
        }
        proof { lemma_relink_free(t0, self.0 as int, bv); }
    }

    /// Appends `p` to the parameters of this block.
    pub fn push_param(&self, tree: &mut BlockTree, p: String)
        requires
            tree_wf(old(tree)@),
            self.0 < old(tree)@.len(),
        ensures
            tree_wf(final(tree)@),
            final(tree)@ == push_param_view(old(tree)@, self.0 as int, p@),
    {
        let ghost t0 = tree@;
        let ghost pv = p@;
        let mut b = tree.blocks.remove(self.0);
        let ghost b0 = b@;
        b.params.push(p);
        let ghost bv = b@;
        assert(bv.params =~= b0.params.push(pv));
        tree.blocks.insert(self.0, b);
        assert(tree@ =~= push_param_view(t0, self.0 as int, pv)) by {
            assert forall|j: int| 0 <= j < tree@.len() implies #[trigger] tree@[j] == push_param_view(t0, self.0 as int, pv)[j] by {
                if j != self.0 {
                    assert(tree.blocks@[j] == old(tree).blocks@[j]);
                }
            }
        }
        proof { lemma_relink_free(t0, self.0 as int, bv); }
    }
}


fn copy_opt_string(o: &Option<String>) -> (r: Option<String>)
    ensures
        opt_str(r) == opt_str(*o),
{
    match o {
        Some(x) => Some(crate::text::copy_string(x)),
        None => None,
    }
}

impl GenBlock {
    /// A copy of the block.
    pub fn copy(&self) -> (r: GenBlock)
        ensures
            r@ == self@,
    {
        let params = crate::text::copy_strings(&self.params);
        let r = GenBlock {
            name: copy_opt_string(&self.name),
            block_type: self.block_type,
            dir: copy_opt_string(&self.dir),
            flex: copy_opt_string(&self.flex),
            out: copy_opt_string(&self.out),
            vars: self.vars.copy(),
            params,
            children: crate::interp::copy_handles(&self.children),
            deps: crate::interp::copy_handles(&self.deps),
            parent: self.parent,
            script_line: self.script_line,
        };
        assert(r@.params =~= self@.params);
        r
    }
}

impl BlockTree {
    /// A copy of the tree, block for block.
    pub fn copy(&self) -> (r: BlockTree)
        ensures
            r@ == self@,
    {
        let mut blocks: Vec<GenBlock> = Vec::new();
        let mut i: usize = 0;
        while i < self.blocks.len()
            invariant
                i <= self.blocks@.len(),
                blocks@.len() == i,
                forall|j: int| 0 <= j < i ==> #[trigger] blocks@[j]@ == self.blocks@[j]@,
            decreases self.blocks@.len() - i,
        {
            blocks.push(self.blocks[i].copy());
            i += 1;
        }
        let r = BlockTree { blocks };
        assert(r@ =~= self@);
        r
    }
}

} // verus!
