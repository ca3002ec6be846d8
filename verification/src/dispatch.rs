//! Calling a script function by its name.
use vstd::prelude::*;
use crate::block::{opt_view, tree_wf, GenBlockTup};
use crate::builtins::{
    is_lit, sb_array, sb_as_jar, sb_as_url, sb_assign, sb_contains, sb_cropname, sb_element, sb_env, sb_eq, sb_filename,
    sb_not, sb_number, sb_or_and, sb_range, sb_scalar, sb_set_env,
};
use crate::effects::{
    sb_absolute, sb_anynewer, sb_ask, sb_calc, sb_cfg, sb_display, sb_newerthan, sb_now, sb_order, sb_panic, sb_read,
    sb_timestamp, sb_write,
};
use crate::fsops::{sb_copy, sb_files, sb_filter, sb_paths};
use crate::io::{Halt, HaltView, IoKind, WriteMode};
use crate::lex::{VarVal, VarValView};
use crate::machine::{evolves, res_view, s_param, Machine, MView, Res};
use crate::lex::vv_bool;
use crate::process::sb_exec;
use crate::zipping::sb_zip;

verus! {

pub open spec fn s_fun_a(m: MView, b: int, prev: Option<VarValView>, fuel: nat, n: Seq<char>) -> (MView, Result<Option<VarValView>, HaltView>) {
    if n == "display"@ {
        sb_display(m, b, prev)
    } else if n == "now"@ {
        sb_now(m, b, prev)
    } else if n == "write"@ {
        sb_write(m, b, prev, WriteMode::Create)
    } else if n == "writea"@ {
        sb_write(m, b, prev, WriteMode::Append)
    } else if n == "writex"@ {
        sb_write(m, b, prev, WriteMode::Exec)
    } else if n == "assign"@ {
        sb_assign(m, b, prev)
    } else if n == "neq"@ {
        (m, sb_eq(m, b, prev, false))
    } else if n == "eq"@ {
        (m, sb_eq(m, b, prev, true))
    } else if n == "exec"@ {
        sb_exec(m, b, prev, false)
    } else if n == "aexec"@ {
        sb_exec(m, b, prev, true)
    } else if n == "or"@ {
        (m, sb_or_and(m, b, prev, true))
    } else if n == "and"@ {
        (m, sb_or_and(m, b, prev, false))
    } else if n == "scalar"@ || n == "join"@ {
        (m, sb_scalar(m, b, prev, fuel))
    } else if n == "filename"@ {
        (m, sb_filename(m, b, prev))
    } else if n == "ask"@ || n == "prompt"@ {
        sb_ask(m, b, prev)
    } else if n == "timestamp"@ {
        sb_timestamp(m, b, prev)
    } else if n == "cropname"@ {
        (m, sb_cropname(m, b, prev))
    } else if n == "read"@ {
        sb_read(m, b, prev)
    } else if n == "absolute"@ {
        sb_absolute(m, b, prev, false)
    } else if n == "canonicalize"@ {
        sb_absolute(m, b, prev, true)
    } else if n == "newerthan"@ {
        sb_newerthan(m, b, prev)
    } else if n == "anynewer"@ {
        sb_anynewer(m, b, prev)
    } else if n == "gt"@ {
        sb_order(m, b, prev, true)
    } else {
        s_fun_b(m, b, prev, fuel, n)
    }
}

pub open spec fn s_fun_b(m: MView, b: int, prev: Option<VarValView>, fuel: nat, n: Seq<char>) -> (MView, Result<Option<VarValView>, HaltView>) {
    if n == "lt"@ {
        sb_order(m, b, prev, false)
    } else if n == "not"@ {
        (m, sb_not(m, b, prev))
    } else if n == "contains"@ || n == "find"@ {
        (m, sb_contains(m, b, prev))
    } else if n == "as_url"@ {
        (m, sb_as_url(m, b, prev))
    } else if n == "as_jar"@ {
        (m, sb_as_jar(m, b, prev))
    } else if n == "array"@ {
        (m, sb_array(m, b, prev))
    } else if n == "file_filter"@ || n == "filter"@ {
        sb_filter(m, b, prev)
    } else if n == "panic"@ {
        (m, sb_panic(m, b, prev))
    } else if n == "element"@ {
        sb_element(m, b, prev)
    } else if n == "set_env"@ {
        sb_set_env(m, b, prev)
    } else if n == "env"@ {
        (m, sb_env(m, b, prev))
    } else if n == "files"@ {
        sb_files(m, b, prev)
    } else if n == "range"@ || n == "slice"@ {
        (m, sb_range(m, b, prev))
    } else if n == "cp"@ {
        sb_copy(m, b, prev, IoKind::Copy)
    } else if n == "mv"@ {
        sb_copy(m, b, prev, IoKind::Rename)
    } else if n == "mkd"@ {
        sb_paths(m, b, prev, IoKind::MakeDir)
    } else if n == "rm"@ {
        sb_paths(m, b, prev, IoKind::RemoveFile)
    } else if n == "rmdir"@ {
        sb_paths(m, b, prev, IoKind::RemoveDir)
    } else if n == "rmdira"@ {
        sb_paths(m, b, prev, IoKind::RemoveDirAll)
    } else if n == "calc"@ {
        sb_calc(m, b, prev)
    } else if n == "number"@ {
        (m, sb_number(m, b, prev))
    } else if n == "zip"@ {
        sb_zip(m, b, prev)
    } else if n == "cfg"@ {
        sb_cfg(m)
    } else {
        (m, Err(HaltView::Panic(m.tree[b].script_line)))
    }
}

/// Calling function block `b`: the function its name names (see the `sb_`
/// functions); a block without a name, or with a name no function has,
/// stops the run.
pub open spec fn s_fun(m: MView, b: int, prev: Option<VarValView>, fuel: nat) -> (MView, Result<Option<VarValView>, HaltView>) {
    match m.tree[b].name {
        None => (m, Err(HaltView::Panic(m.tree[b].script_line))),
        Some(n) => s_fun_a(m, b, prev, fuel, n),
    }
}

impl GenBlockTup {
    fn fun_a(&self, m: &mut Machine, prev: &Option<VarVal>, fuel: u64, n: &str) -> (r: Res)
        requires
            tree_wf(old(m).tree@),
            self.0 < old(m).tree@.len(),
        ensures
            (final(m)@, res_view(r)) == s_fun_a(old(m)@, self.0 as int, opt_view(*prev), fuel as nat, n@),
            evolves(old(m)@, final(m)@),
    {
        if is_lit(n, "display") {
            m.b_display(*self, prev)
        } else if is_lit(n, "now") {
            m.b_now(*self, prev)
        } else if is_lit(n, "write") {
            m.b_write(*self, prev, WriteMode::Create)
        } else if is_lit(n, "writea") {
            m.b_write(*self, prev, WriteMode::Append)
        } else if is_lit(n, "writex") {
            m.b_write(*self, prev, WriteMode::Exec)
        } else if is_lit(n, "assign") {
            self.exec_assign(m, prev)
        } else if is_lit(n, "neq") {
            m.b_eq(*self, prev, false)
        } else if is_lit(n, "eq") {
            m.b_eq(*self, prev, true)
        } else if is_lit(n, "exec") {
            m.b_exec(*self, prev, false)
        } else if is_lit(n, "aexec") {
            m.b_exec(*self, prev, true)
        } else if is_lit(n, "or") {
            m.b_or_and(*self, prev, true)
        } else if is_lit(n, "and") {
            m.b_or_and(*self, prev, false)
        } else if is_lit(n, "scalar") || is_lit(n, "join") {
            m.b_scalar(*self, prev, fuel)
        } else if is_lit(n, "filename") {
            m.b_filename(*self, prev)
        } else if is_lit(n, "ask") || is_lit(n, "prompt") {
            m.b_ask(*self, prev)
        } else if is_lit(n, "timestamp") {
            m.b_timestamp(*self, prev)
        } else if is_lit(n, "cropname") {
            m.b_cropname(*self, prev)
        } else if is_lit(n, "read") {
            m.b_read(*self, prev)
        } else if is_lit(n, "absolute") {
            m.b_absolute(*self, prev, false)
        } else if is_lit(n, "canonicalize") {
            m.b_absolute(*self, prev, true)
        } else if is_lit(n, "newerthan") {
            m.b_newerthan(*self, prev)
        } else if is_lit(n, "anynewer") {
            m.b_anynewer(*self, prev)
        } else if is_lit(n, "gt") {
            m.b_order(*self, prev, true)
        } else {
            self.fun_b(m, prev, fuel, n)
        }
    }

    fn fun_b(&self, m: &mut Machine, prev: &Option<VarVal>, fuel: u64, n: &str) -> (r: Res)
        requires
            tree_wf(old(m).tree@),
            self.0 < old(m).tree@.len(),
        ensures
            (final(m)@, res_view(r)) == s_fun_b(old(m)@, self.0 as int, opt_view(*prev), fuel as nat, n@),
            evolves(old(m)@, final(m)@),
    {
        if is_lit(n, "lt") {
            m.b_order(*self, prev, false)
        } else if is_lit(n, "not") {
            m.b_not(*self, prev)
        } else if is_lit(n, "contains") || is_lit(n, "find") {
            m.b_contains(*self, prev)
        } else if is_lit(n, "as_url") {
            m.b_as_url(*self, prev, true)
        } else if is_lit(n, "as_jar") {
            m.b_as_url(*self, prev, false)
        } else if is_lit(n, "array") {
            m.b_array(*self, prev)
        } else if is_lit(n, "file_filter") || is_lit(n, "filter") {
            m.b_filter(*self, prev)
        } else if is_lit(n, "panic") {
            m.b_panic(*self, prev)
        } else if is_lit(n, "element") {
            m.b_element(*self, prev)
        } else if is_lit(n, "set_env") {
            m.b_set_env(*self, prev)
        } else if is_lit(n, "env") {
            m.b_env(*self, prev)
        } else if is_lit(n, "files") {
            m.b_files(*self, prev)
        } else if is_lit(n, "range") || is_lit(n, "slice") {
            m.b_range(*self, prev)
        } else if is_lit(n, "cp") {
            m.b_copy(*self, prev, IoKind::Copy)
        } else if is_lit(n, "mv") {
            m.b_copy(*self, prev, IoKind::Rename)
        } else if is_lit(n, "mkd") {
            m.b_paths(*self, prev, IoKind::MakeDir)
        } else if is_lit(n, "rm") {
            m.b_paths(*self, prev, IoKind::RemoveFile)
        } else if is_lit(n, "rmdir") {
            m.b_paths(*self, prev, IoKind::RemoveDir)
        } else if is_lit(n, "rmdira") {
            m.b_paths(*self, prev, IoKind::RemoveDirAll)
        } else if is_lit(n, "calc") {
            m.b_calc(*self, prev)
        } else if is_lit(n, "number") {
            m.b_number(*self, prev)
        } else if is_lit(n, "zip") {
            m.b_zip(*self, prev)
        } else if is_lit(n, "cfg") {
            m.b_cfg()
        } else {
            { assert(old(m).tree@[self.0 as int] == old(m).tree.blocks@[self.0 as int]@); Err(Halt::Panic(m.tree.blocks[self.0].script_line)) }
        }
    }

    /// Calls this function block (see `s_fun`).
    pub fn exec_fun(&self, m: &mut Machine, prev: &Option<VarVal>, fuel: u64) -> (r: Res)
        requires
            tree_wf(old(m).tree@),
            self.0 < old(m).tree@.len(),
        ensures
            (final(m)@, res_view(r)) == s_fun(old(m)@, self.0 as int, opt_view(*prev), fuel as nat),
            evolves(old(m)@, final(m)@),
    {
        let blk = &m.tree.blocks[self.0];
        assert(m.tree@[self.0 as int] == blk@);
        match &blk.name {
            None => Err(Halt::Panic(blk.script_line)),
            Some(n) => {
                let n = n.clone();
                self.fun_a(m, prev, fuel, n.as_str())
            },
        }
    }
}


#[verifier::rlimit(50)]
proof fn lemma_fun_eq(m: MView, b: int, prev: Option<VarValView>, fuel: nat, same: bool)
    ensures
        s_fun_a(m, b, prev, fuel, if same { "eq"@ } else { "neq"@ }) == (m, sb_eq(m, b, prev, same)),
{
    reveal_strlit("eq");
    reveal_strlit("neq");
    reveal_strlit("display");
    reveal_strlit("now");
    reveal_strlit("write");
    reveal_strlit("writea");
    reveal_strlit("writex");
    reveal_strlit("assign");
    assert("eq"@.len() == 2 && "neq"@.len() == 3 && "display"@.len() == 7 && "now"@.len() == 3 && "write"@.len() == 5
        && "writea"@.len() == 6 && "writex"@.len() == 6 && "assign"@.len() == 6);
    assert("neq"@[1] == 'e' && "now"@[1] == 'o');
    assert("eq"@ != "display"@ && "eq"@ != "now"@ && "eq"@ != "write"@ && "eq"@ != "writea"@ && "eq"@ != "writex"@
        && "eq"@ != "assign"@ && "eq"@ != "neq"@);
    assert("neq"@ != "display"@ && "neq"@ != "now"@ && "neq"@ != "write"@ && "neq"@ != "writea"@ && "neq"@
        != "writex"@ && "neq"@ != "assign"@);
}

/// `eq` and `neq` on the same two parameters give opposite answers: `eq`
/// whether the two texts are equal, `neq` whether they differ, so one is
/// true and the other false (or both stop the run the same way); neither
/// changes the state.
pub proof fn law_eq_neq_functions(m1: MView, b1: int, m2: MView, b2: int, prev: Option<VarValView>, fuel: nat)
    requires
        0 <= b1 < m1.tree.len(),
        0 <= b2 < m2.tree.len(),
        m1.tree[b1].name == Some("eq"@),
        m2.tree[b2].name == Some("neq"@),
        s_param(m1, b1, 0, prev) == s_param(m2, b2, 0, prev),
        s_param(m1, b1, 1, prev) == s_param(m2, b2, 1, prev),
    ensures
        s_fun(m1, b1, prev, fuel).0 == m1,
        s_fun(m2, b2, prev, fuel).0 == m2,
        (s_param(m1, b1, 0, prev) is Ok && s_param(m1, b1, 1, prev) is Ok) ==> (s_fun(m1, b1, prev, fuel).1
            == Ok::<Option<VarValView>, HaltView>(Some(vv_bool(s_param(m1, b1, 0, prev)->Ok_0 == s_param(m1, b1, 1, prev)->Ok_0)))
            && s_fun(m2, b2, prev, fuel).1 == Ok::<Option<VarValView>, HaltView>(
            Some(vv_bool(s_param(m1, b1, 0, prev)->Ok_0 != s_param(m1, b1, 1, prev)->Ok_0)),
        )),
        match (s_fun(m1, b1, prev, fuel).1, s_fun(m2, b2, prev, fuel).1) {
            (Ok(Some(x)), Ok(Some(y))) => x == vv_bool(true) && y == vv_bool(false) || x == vv_bool(false) && y
                == vv_bool(true),
            (Err(h1), Err(h2)) => h1 == h2,
            _ => false,
        },
{
    lemma_fun_eq(m1, b1, prev, fuel, true);
    lemma_fun_eq(m2, b2, prev, fuel, false);
}

} // verus!
