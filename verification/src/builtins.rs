//! The script functions that compute on variables and text alone: each is a
//! spec function over the machine view `MView`, and a method of `Machine`
//! proved to give exactly that.
use vstd::prelude::*;
use crate::block::{block_defining, opt_view, search_from, tree_wf, BlockType, GenBlockTup};
use crate::io::{Halt, HaltView};
use crate::lex::{
    spec_is_true, text_string, true_text, vv_array, vv_bool, vv_num, vv_text, VarType, VarVal, VarValView,
};
use crate::machine::{
    evolves, mv_del_var, mv_set_var, res_view, s_cwd, s_expand, s_lookup, s_param, s_tmpl, tres, under, Machine,
    MView, Res, under_exec, empty_text,
};
use crate::strops::{
    byte_slice, byte_slice_exec, bytes_len, bytes_len_exec, last_index_of, replace_char, replace_char_exec, rfind,
    spec_split, split, find,
};
use crate::text::{
    append_chars, chars_eq, contains, ends_with, first_index_of, parse_i32, parse_usize, slice_chars,
    spec_contains, spec_ends_with, spec_parse_i32, spec_parse_usize, spec_starts_with, starts_with,
    string_from_chars, to_chars,
};
use crate::util::{join_with, views, push_string, join_chars};

verus! {

/// The block an assignment from block `cur` writes to: the nearest block up
/// from `cur` that already holds `name`; failing that, the nearest scope,
/// target or script block below the script block (`close`), or the last
/// block reached.
pub open spec fn assign_target(t: Seq<crate::block::BlockView>, cur: int, close: Option<int>, name: Seq<char>) -> int
    decreases cur,
{
    if !(0 <= cur < t.len()) {
        cur
    } else {
        let pb = t[cur];
        let close2 = if close is None && (pb.block_type == BlockType::Scope || pb.block_type == BlockType::Target
            || pb.block_type == BlockType::Main) {
            Some(cur)
        } else {
            close
        };
        if pb.vars.contains_key(name) {
            cur
        } else if pb.block_type == BlockType::Main {
            match close2 {
                Some(c) => c,
                None => cur,
            }
        } else {
            match pb.parent {
                Some(p) => if (p.0 as int) < cur {
                    assign_target(t, p.0 as int, close2, name)
                } else {
                    cur
                },
                None => cur,
            }
        }
    }
}

/// The value `name` held in block `i`, if any.
pub open spec fn old_value(m: MView, i: int, name: Seq<char>) -> Option<VarValView> {
    if m.tree[i].vars.contains_key(name) {
        Some(m.tree[i].vars[name])
    } else {
        None
    }
}

/// `assign(name[, value])`: sets (or, with no value, removes) `name` in the
/// block found by `assign_target`; the result is the value it replaced.
pub open spec fn sb_assign(m: MView, b: int, prev: Option<VarValView>) -> (MView, Result<Option<VarValView>, HaltView>) {
    let blk = m.tree[b];
    if blk.params.len() == 0 {
        (m, Err(HaltView::Panic(blk.script_line)))
    } else {
        match blk.parent {
            None => (m, Err(HaltView::Panic(blk.script_line))),
            Some(p) => {
                let name = blk.params[0];
                let tgt = assign_target(m.tree, p.0 as int, None, name);
                if blk.params.len() == 1 {
                    (mv_del_var(m, tgt, name), Ok(old_value(m, tgt, name)))
                } else {
                    let valr = match s_lookup(m, b, blk.params[1], prev) {
                        Some(v) => Ok(v),
                        None => match s_tmpl(m, b, blk.params[1], prev) {
                            Ok(t) => Ok(vv_text(t)),
                            Err(h) => Err(h),
                        },
                    };
                    match valr {
                        Err(h) => (m, Err(h)),
                        Ok(v) => (mv_set_var(m, tgt, name, v), Ok(old_value(m, tgt, name))),
                    }
                }
            },
        }
    }
}

/// `eq(a, b)` (or `neq` with `same` false): whether the two expanded
/// parameters are equal (or differ).
pub open spec fn sb_eq(m: MView, b: int, prev: Option<VarValView>, same: bool) -> Result<Option<VarValView>, HaltView> {
    match s_param(m, b, 0, prev) {
        Err(h) => Err(h),
        Ok(x) => match s_param(m, b, 1, prev) {
            Err(h) => Err(h),
            Ok(y) => Ok(Some(vv_bool(if same { x == y } else { x != y }))),
        },
    }
}

/// A parameter of `or`/`and` is true: an array variable by its elements,
/// anything else when it expands to `true`.
pub open spec fn s_param_true(m: MView, b: int, p: Seq<char>, prev: Option<VarValView>) -> Result<bool, HaltView> {
    match s_lookup(m, b, p, prev) {
        Some(v) => if v.val_type == VarType::Array {
            Ok(spec_is_true(v, m.props, m.env))
        } else {
            match s_expand(m, b, p, prev) {
                Ok(t) => Ok(t == true_text()),
                Err(h) => Err(h),
            }
        },
        None => match s_expand(m, b, p, prev) {
            Ok(t) => Ok(t == true_text()),
            Err(h) => Err(h),
        },
    }
}

/// Whether one (`any`) or all (not `any`) of the parameters from `k` on are
/// true, evaluated left to right and stopping at the first that decides.
pub open spec fn s_params_test(m: MView, b: int, ps: Seq<Seq<char>>, k: int, prev: Option<VarValView>, any: bool) -> Result<bool, HaltView>
    decreases ps.len() - k,
{
    if k < 0 || k >= ps.len() {
        Ok(!any)
    } else {
        match s_param_true(m, b, ps[k], prev) {
            Err(h) => Err(h),
            Ok(t) => if t == any {
                Ok(any)
            } else {
                s_params_test(m, b, ps, k + 1, prev, any)
            },
        }
    }
}

/// `or(…)` / `and(…)` over the parameters.
pub open spec fn sb_or_and(m: MView, b: int, prev: Option<VarValView>, any: bool) -> Result<Option<VarValView>, HaltView> {
    match s_params_test(m, b, m.tree[b].params, 0, prev, any) {
        Ok(t) => Ok(Some(vv_bool(t))),
        Err(h) => Err(h),
    }
}

/// `not(a)`: true unless `a` expands to `true`.
pub open spec fn sb_not(m: MView, b: int, prev: Option<VarValView>) -> Result<Option<VarValView>, HaltView> {
    match s_param(m, b, 0, prev) {
        Ok(t) => Ok(Some(vv_bool(!(t == true_text())))),
        Err(h) => Err(h),
    }
}

/// `contains(a, b)`: whether `b` occurs in `a`; nothing unless given two parameters.
pub open spec fn sb_contains(m: MView, b: int, prev: Option<VarValView>) -> Result<Option<VarValView>, HaltView> {
    if m.tree[b].params.len() != 2 {
        Ok(None)
    } else {
        match s_param(m, b, 0, prev) {
            Err(h) => Err(h),
            Ok(x) => match s_param(m, b, 1, prev) {
                Err(h) => Err(h),
                Ok(y) => Ok(Some(vv_bool(spec_contains(x, y)))),
            },
        }
    }
}

/// `number(a)`: `a` as an `i32` (an empty text is zero); nothing when it is
/// not a number.
pub open spec fn sb_number(m: MView, b: int, prev: Option<VarValView>) -> Result<Option<VarValView>, HaltView> {
    match s_param(m, b, 0, prev) {
        Err(h) => Err(h),
        Ok(t) => if t.len() == 0 {
            Ok(Some(vv_num(0)))
        } else {
            match spec_parse_i32(t) {
                Some(n) => Ok(Some(vv_num(n))),
                None => Ok(None),
            }
        },
    }
}

/// The last part of path `p` (after its last separator, all of `p` without
/// one).
pub open spec fn last_part(p: Seq<char>) -> Seq<char> {
    match last_index_of(p, '/') {
        None => p,
        Some(s) => p.skip(s + 1),
    }
}

/// The file name of path `p` without its extension: its last part, cut at
/// that part's last dot when it has one.
pub open spec fn filename_of(p: Seq<char>) -> Seq<char> {
    let l = last_part(p);
    match last_index_of(l, '.') {
        Some(d) => l.take(d),
        None => l,
    }
}

/// `filename(p)`.
pub open spec fn sb_filename(m: MView, b: int, prev: Option<VarValView>) -> Result<Option<VarValView>, HaltView> {
    match s_param(m, b, 0, prev) {
        Err(h) => Err(h),
        Ok(p) => Ok(Some(vv_text(filename_of(p)))),
    }
}

/// A crop mask split at its star: the part before it and the part after it
/// (a trailing star is dropped; without a star the mask is all prefix).
pub open spec fn split_mask(mask: Seq<char>) -> (Seq<char>, Seq<char>) {
    if mask.len() > 0 && mask.last() == '*' {
        (mask.drop_last(), seq![])
    } else {
        match first_index_of(mask, '*') {
            Some(k) => (mask.take(k), mask.skip(k + 1)),
            None => (mask, seq![]),
        }
    }
}

/// `cropname` with a mask `*end`: `f` without the suffix `end`, followed by
/// the replacement (parameter `2`) when given.
pub open spec fn crop_suffix(m: MView, b: int, prev: Option<VarValView>, f: Seq<char>, mask0: Seq<char>) -> Result<Option<VarValView>, HaltView> {
    let mask = mask0.skip(1);
    if spec_ends_with(f, mask) {
        let head = f.take(f.len() - mask.len());
        if m.tree[b].params.len() == 3 {
            match s_param(m, b, 2, prev) {
                Err(h) => Err(h),
                Ok(subs) => Ok(Some(vv_text(head + subs))),
            }
        } else {
            Ok(Some(vv_text(head)))
        }
    } else {
        Ok(Some(vv_text(f)))
    }
}

/// `cropname` with a mask `start*end`: the part of `f` between the prefix
/// `start` (made absolute with `cwd`) and the suffix `end`; with a
/// replacement `a*b` (parameter `2`) that part is put between `a` and `b`,
/// with a replacement without a star it follows the replacement.
pub open spec fn crop_prefix(m: MView, b: int, prev: Option<VarValView>, f: Seq<char>, mask0: Seq<char>, cwd: Seq<char>) -> Result<Option<VarValView>, HaltView> {
    let line = m.tree[b].script_line;
    let (mask1, endm) = split_mask(mask0);
    let mask = under(mask1, cwd);
    if spec_starts_with(f, mask) && (endm.len() == 0 || spec_ends_with(f, endm)) {
        let fits = mask.len() <= f.len() - endm.len();
        if m.tree[b].params.len() == 3 {
            match s_param(m, b, 2, prev) {
                Err(h) => Err(h),
                Ok(subs) => match first_index_of(subs, '*') {
                    None => Ok(Some(vv_text(subs + f.skip(mask.len() as int)))),
                    Some(k) => if fits {
                        Ok(Some(vv_text(subs.take(k) + f.subrange(mask.len() as int, f.len() - endm.len()) + subs.skip(k + 1))))
                    } else {
                        Err(HaltView::Panic(line))
                    },
                },
            }
        } else if fits {
            Ok(Some(vv_text(f.subrange(mask.len() as int, f.len() - endm.len()))))
        } else {
            Err(HaltView::Panic(line))
        }
    } else {
        Ok(Some(vv_text(f)))
    }
}

/// `cropname(path, mask[, replacement])`: `path` (made absolute) without the
/// part the mask matches, or with it replaced (see `crop_suffix` and
/// `crop_prefix`); `path` unchanged when no working directory is set or no
/// mask is given.
pub open spec fn sb_cropname(m: MView, b: int, prev: Option<VarValView>) -> Result<Option<VarValView>, HaltView> {
    match s_param(m, b, 0, prev) {
        Err(h) => Err(h),
        Ok(f0) => match s_cwd(m, b) {
            None => Ok(Some(vv_text(f0))),
            Some(cwd) => if m.tree[b].params.len() < 2 {
                Ok(Some(vv_text(f0)))
            } else {
                let f = under(f0, cwd);
                match s_param(m, b, 1, prev) {
                    Err(h) => Err(h),
                    Ok(mask0) => if spec_starts_with(mask0, seq!['*']) {
                        crop_suffix(m, b, prev, f, mask0)
                    } else {
                        crop_prefix(m, b, prev, f, mask0, cwd)
                    },
                }
            },
        },
    }
}

/// `as_url(coordinates)`: the download address of a Rust crate (`name@version`)
/// or of a Maven artifact (`group:artifact:version`).
pub open spec fn sb_as_url(m: MView, b: int, prev: Option<VarValView>) -> Result<Option<VarValView>, HaltView> {
    let blk = m.tree[b];
    if blk.params.len() == 0 {
        Err(HaltView::Panic(blk.script_line))
    } else {
        match s_lookup(m, b, blk.params[0], prev) {
            None => Ok(None),
            Some(v) => match v.val_type {
                VarType::RepositoryRust => match first_index_of(v.value, '@') {
                    Some(pos) => Ok(Some(vv_text("https://crates.io/api/v1/crates/"@ + v.value.take(pos) + seq!['/']
                        + v.value.skip(pos + 1) + "/download"@))),
                    None => Ok(None),
                },
                VarType::RepositoryMaven | VarType::Generic => {
                    let parts = spec_split(v.value, seq![':']);
                    if parts.len() < 3 {
                        Err(HaltView::Panic(blk.script_line))
                    } else {
                        Ok(Some(vv_text("https://repo1.maven.org/maven2/"@ + replace_char(parts[0], '.', '/') + seq!['/']
                            + parts[1] + seq!['/'] + parts[2] + seq!['/'] + parts[1] + seq!['-'] + parts[2] + ".jar"@)))
                    }
                },
                _ => Ok(None),
            },
        }
    }
}

/// `as_jar(coordinates)`: the jar file name of a Maven artifact.
pub open spec fn sb_as_jar(m: MView, b: int, prev: Option<VarValView>) -> Result<Option<VarValView>, HaltView> {
    let blk = m.tree[b];
    if blk.params.len() == 0 {
        Err(HaltView::Panic(blk.script_line))
    } else {
        match s_lookup(m, b, blk.params[0], prev) {
            None => Ok(None),
            Some(v) => match v.val_type {
                VarType::RepositoryMaven | VarType::Generic => {
                    let parts = spec_split(v.value, seq![':']);
                    if parts.len() != 3 {
                        Ok(None)
                    } else {
                        Ok(Some(vv_text(parts[1] + seq!['-'] + parts[2] + ".jar"@)))
                    }
                },
                _ => Ok(None),
            },
        }
    }
}

/// The elements `array(…)` collects from parameter `k` on: an array variable
/// gives its elements, another variable its expanded text, a literal its
/// expanded text unless that is empty.
pub open spec fn s_array_from(m: MView, b: int, k: int, acc: Seq<Seq<char>>, prev: Option<VarValView>) -> Result<Seq<Seq<char>>, HaltView>
    decreases m.tree[b].params.len() - k,
{
    let ps = m.tree[b].params;
    if k < 0 || k >= ps.len() {
        Ok(acc)
    } else {
        match s_lookup(m, b, ps[k], prev) {
            Some(v) => if v.val_type == VarType::Array {
                s_array_from(m, b, k + 1, acc + v.values, prev)
            } else {
                match s_param(m, b, k, prev) {
                    Ok(t) => s_array_from(m, b, k + 1, acc.push(t), prev),
                    Err(h) => Err(h),
                }
            },
            None => match s_param(m, b, k, prev) {
                Ok(t) => if t.len() > 0 {
                    s_array_from(m, b, k + 1, acc.push(t), prev)
                } else {
                    s_array_from(m, b, k + 1, acc, prev)
                },
                Err(h) => Err(h),
            },
        }
    }
}

/// `array(…)`.
pub open spec fn sb_array(m: MView, b: int, prev: Option<VarValView>) -> Result<Option<VarValView>, HaltView> {
    match s_array_from(m, b, 0, seq![], prev) {
        Ok(a) => Ok(Some(vv_array(a))),
        Err(h) => Err(h),
    }
}

/// `set_env(name, value)`: sets a property; nothing unless given two parameters.
pub open spec fn sb_set_env(m: MView, b: int, prev: Option<VarValView>) -> (MView, Result<Option<VarValView>, HaltView>) {
    if m.tree[b].params.len() != 2 {
        (m, Ok(None))
    } else {
        match s_param(m, b, 0, prev) {
            Err(h) => (m, Err(h)),
            Ok(k) => match s_param(m, b, 1, prev) {
                Err(h) => (m, Err(h)),
                Ok(v) => (MView { props: m.props.insert(k, v), ..m }, Ok(None)),
            },
        }
    }
}

/// `env(name)`: the property, else the environment variable, of that name.
pub open spec fn sb_env(m: MView, b: int, prev: Option<VarValView>) -> Result<Option<VarValView>, HaltView> {
    match s_param(m, b, 0, prev) {
        Err(h) => Err(h),
        Ok(k) => if m.props.contains_key(k) {
            Ok(Some(vv_text(m.props[k])))
        } else if m.env.contains_key(k) {
            Ok(Some(vv_text(m.env[k])))
        } else {
            Ok(None)
        },
    }
}

/// The optional third parameter of `range` as a number, or `default` when
/// absent; `Ok(None)` when it is not a number.
pub open spec fn s_range_end(m: MView, b: int, prev: Option<VarValView>, default: int) -> Result<Option<int>, HaltView> {
    if m.tree[b].params.len() > 2 {
        match s_param(m, b, 2, prev) {
            Err(h) => Err(h),
            Ok(e) => match spec_parse_usize(e) {
                Some(n) => Ok(Some(n as int)),
                None => Ok(None),
            },
        }
    } else {
        Ok(Some(default))
    }
}

/// `range(text, start[, end])`: the byte range of a text, or the element
/// range of an array variable when the text is empty.
pub open spec fn sb_range(m: MView, b: int, prev: Option<VarValView>) -> Result<Option<VarValView>, HaltView> {
    let line = m.tree[b].script_line;
    match s_param(m, b, 1, prev) {
        Err(h) => Err(h),
        Ok(st) => match spec_parse_usize(st) {
            None => Ok(None),
            Some(start) => match s_param(m, b, 0, prev) {
                Err(h) => Err(h),
                Ok(s) => if s.len() > 0 {
                    match s_range_end(m, b, prev, bytes_len(s)) {
                        Err(h) => Err(h),
                        Ok(None) => Ok(None),
                        Ok(Some(end)) => match byte_slice(s, start as int, end) {
                            Some(t) => Ok(Some(vv_text(t))),
                            None => Err(HaltView::Panic(line)),
                        },
                    }
                } else {
                    match search_from(m.tree, b, m.tree[b].params[0]) {
                        Some(v) => if v.val_type == VarType::Array {
                            match s_range_end(m, b, prev, v.values.len() as int) {
                                Err(h) => Err(h),
                                Ok(None) => Ok(None),
                                Ok(Some(end)) => if start <= end <= v.values.len() {
                                    Ok(Some(vv_array(v.values.subrange(start as int, end))))
                                } else {
                                    Err(HaltView::Panic(line))
                                },
                            }
                        } else {
                            Ok(None)
                        },
                        None => Ok(None),
                    }
                },
            },
        },
    }
}

/// The index text `element` uses: the value of the variable named by
/// parameter `1`, or the parameter itself.
pub open spec fn element_index(m: MView, b: int, prev: Option<VarValView>) -> int {
    let p = m.tree[b].params[1];
    let t = match s_lookup(m, b, p, prev) {
        Some(v) => v.value,
        None => p,
    };
    match spec_parse_usize(t) {
        Some(n) => n as int,
        None => 0,
    }
}

/// `element(array, index[, value])`: element `index` of the array variable,
/// set to `value` when given; nothing when the index is out of range or the
/// variable is not an array.
pub open spec fn sb_element(m: MView, b: int, prev: Option<VarValView>) -> (MView, Result<Option<VarValView>, HaltView>) {
    let blk = m.tree[b];
    if blk.params.len() < 2 {
        (m, Ok(None))
    } else {
        let name = blk.params[0];
        match blk.parent {
            None => (m, Err(HaltView::Panic(blk.script_line))),
            Some(p) => match block_defining(m.tree, p.0 as int, name) {
                None => (m, Ok(None)),
                Some(vb) => {
                    let index = element_index(m, b, prev);
                    let valr = if blk.params.len() > 2 {
                        match s_param(m, b, 2, prev) {
                            Ok(t) => Ok(Some(t)),
                            Err(h) => Err(h),
                        }
                    } else {
                        Ok(None)
                    };
                    match valr {
                        Err(h) => (m, Err(h)),
                        Ok(val) => {
                            let var = m.tree[vb].vars[name];
                            if var.val_type == VarType::Array {
                                if var.values.len() == 0 || index > var.values.len() - 1 {
                                    (m, Ok(None))
                                } else {
                                    let res = vv_text(var.values[index]);
                                    match val {
                                        Some(t) => (
                                            mv_set_var(m, vb, name, VarValView { values: var.values.update(index, t), ..var }),
                                            Ok(Some(res)),
                                        ),
                                        None => (m, Ok(Some(res))),
                                    }
                                }
                            } else {
                                (m, Ok(None))
                            }
                        },
                    }
                },
            },
        }
    }
}

/// The text of a value for `scalar`/`join`: an array's elements, each
/// replaced by the text of the variable it names, joined by `sep`; another
/// value's text. Each nested variable costs one unit of `fuel`.
pub open spec fn s_arr_str(m: MView, b: int, v: VarValView, sep: Seq<char>, prev: Option<VarValView>, fuel: nat) -> Result<Seq<char>, HaltView>
    decreases fuel, 1int, 0int,
{
    if v.val_type == VarType::Array {
        match s_arr_items(m, b, v.values, 0, sep, prev, fuel) {
            Ok(items) => Ok(join_with(items, sep)),
            Err(h) => Err(h),
        }
    } else {
        Ok(v.value)
    }
}

/// The texts of the elements `vals[k..]` for `s_arr_str`.
pub open spec fn s_arr_items(m: MView, b: int, vals: Seq<Seq<char>>, k: int, sep: Seq<char>, prev: Option<VarValView>, fuel: nat) -> Result<Seq<Seq<char>>, HaltView>
    decreases fuel, 0int, vals.len() - k,
{
    if k < 0 || k >= vals.len() {
        Ok(seq![])
    } else {
        let head = match s_lookup(m, b, vals[k], prev) {
            Some(x) => if fuel == 0 {
                Err(HaltView::OutOfFuel)
            } else {
                s_arr_str(m, b, x, sep, prev, (fuel - 1) as nat)
            },
            None => Ok(vals[k]),
        };
        match head {
            Err(h) => Err(h),
            Ok(t) => match s_arr_items(m, b, vals, k + 1, sep, prev, fuel) {
                Ok(rest) => Ok(seq![t] + rest),
                Err(h) => Err(h),
            },
        }
    }
}

/// `scalar(array[, separator])` / `join`: the elements of the array joined by
/// the separator (a tab by default).
pub open spec fn sb_scalar(m: MView, b: int, prev: Option<VarValView>, fuel: nat) -> Result<Option<VarValView>, HaltView> {
    let blk = m.tree[b];
    let sepr = if blk.params.len() > 1 { s_param(m, b, 1, prev) } else { Ok(seq!['\t']) };
    match sepr {
        Err(h) => Err(h),
        Ok(sep) => if blk.params.len() == 0 {
            Err(HaltView::Panic(blk.script_line))
        } else {
            match s_lookup(m, b, blk.params[0], prev) {
                None => Ok(None),
                Some(v) => match s_arr_str(m, b, v, sep, prev, fuel) {
                    Ok(t) => Ok(Some(vv_text(t))),
                    Err(h) => Err(h),
                },
            }
        },
    }
}

/// The view of an optional text result.
pub open spec fn ores(r: Result<Option<VarVal>, Halt>) -> Result<Option<VarValView>, HaltView> {
    res_view(r)
}

/// A `Some` of a generic value holding `t`.
fn some_text(t: &Vec<char>) -> (r: Option<VarVal>)
    ensures
        opt_view(r) == Some(vv_text(t@)),
{
    let s = string_from_chars(t);
    Some(VarVal::from_string(s.as_str()))
}

/// Text `s` starts with literal `p`.
pub fn starts_lit(s: &Vec<char>, p: &str) -> (r: bool)
    ensures
        r == spec_starts_with(s@, p@),
{
    let pc = to_chars(p);
    starts_with(s, &pc)
}

/// Text `s` is literal `p`.
pub fn is_lit(s: &str, p: &str) -> (r: bool)
    ensures
        r == (s@ == p@),
{
    crate::text::str_eq(s, p)
}

impl Machine {
    pub fn find_assign_target(&self, p: GenBlockTup, name: &str) -> (r: usize)
        requires
            tree_wf(self.tree@),
            p.0 < self.tree@.len(),
        ensures
            r as int == assign_target(self@.tree, p.0 as int, None, name@),
            r < self.tree@.len(),
    {
        let mut cur = p.0;
        let mut close: Option<usize> = None;
        let n = self.tree.blocks.len();
        loop
            invariant
                n == self.tree@.len(),
                tree_wf(self.tree@),
                cur < n,
                close matches Some(c) ==> c < n,
                assign_target(self@.tree, cur as int, match close {
                    Some(c) => Some(c as int),
                    None => None,
                }, name@) == assign_target(self@.tree, p.0 as int, None, name@),
            decreases cur,
        {
            let pb = &self.tree.blocks[cur];
            assert(self.tree@[cur as int] == pb@);
            if close.is_none() && (pb.block_type == BlockType::Scope || pb.block_type == BlockType::Target
                || pb.block_type == BlockType::Main) {
                close = Some(cur);
            }
            if pb.vars.contains_key(name) {
                return cur;
            } else if pb.block_type == BlockType::Main {
                return match close {
                    Some(c) => c,
                    None => cur,
                };
            } else {
                match pb.parent {
                    Some(q) => {
                        assert(crate::block::parent_before(self.tree@[cur as int], cur as int));
                        cur = q.0;
                    },
                    None => { return cur; },
                }
            }
        }
    }

    /// See `sb_eq`.
    pub fn b_eq(&self, b: GenBlockTup, prev: &Option<VarVal>, same: bool) -> (r: Res)
        requires
            tree_wf(self.tree@),
            b.0 < self.tree@.len(),
        ensures
            res_view(r) == sb_eq(self@, b.0 as int, opt_view(*prev), same),
    {
        let x = match b.parameter(self, 0, prev) { Ok(t) => t, Err(h) => { return Err(h); } };
        let y = match b.parameter(self, 1, prev) { Ok(t) => t, Err(h) => { return Err(h); } };
        let e = crate::text::str_eq(x.as_str(), y.as_str());
        Ok(Some(VarVal::from_bool(if same { e } else { !e })))
    }

    fn param_true(&self, b: GenBlockTup, p: &str, prev: &Option<VarVal>) -> (r: Result<bool, Halt>)
        requires
            tree_wf(self.tree@),
            b.0 < self.tree@.len(),
        ensures
            crate::machine::bres(r) == s_param_true(self@, b.0 as int, p@, opt_view(*prev)),
    {
        match self.lookup(b, p, prev) {
            Some(v) => if v.val_type == VarType::Array {
                return Ok(v.is_true(&self.ctx.props, &self.ctx.env));
            },
            None => {},
        }
        match b.expand_parameter(self, p, prev) {
            Ok(t) => {
                let tt = is_lit(t.as_str(), "true");
                proof {
                    reveal_strlit("true");
                    assert("true"@ =~= true_text());
                }
                Ok(tt)
            },
            Err(h) => Err(h),
        }
    }

    /// See `sb_or_and`.
    pub fn b_or_and(&self, b: GenBlockTup, prev: &Option<VarVal>, any: bool) -> (r: Res)
        requires
            tree_wf(self.tree@),
            b.0 < self.tree@.len(),
        ensures
            res_view(r) == sb_or_and(self@, b.0 as int, opt_view(*prev), any),
    {
        let blk = &self.tree.blocks[b.0];
        assert(self.tree@[b.0 as int] == blk@);
        let ghost ps = blk@.params;
        let mut k: usize = 0;
        while k < blk.params.len()
            invariant
                tree_wf(self.tree@),
                b.0 < self.tree@.len(),
                self.tree@[b.0 as int] == blk@,
                ps == blk@.params,
                k <= ps.len(),
                s_params_test(self@, b.0 as int, ps, k as int, opt_view(*prev), any)
                    == s_params_test(self@, b.0 as int, ps, 0, opt_view(*prev), any),
            decreases ps.len() - k,
        {
            let p = blk.params[k].clone();
            match self.param_true(b, p.as_str(), prev) {
                Err(h) => { return Err(h); },
                Ok(t) => if t == any {
                    return Ok(Some(VarVal::from_bool(any)));
                },
            }
            k += 1;
        }
        Ok(Some(VarVal::from_bool(!any)))
    }

    /// See `sb_not`.
    pub fn b_not(&self, b: GenBlockTup, prev: &Option<VarVal>) -> (r: Res)
        requires
            tree_wf(self.tree@),
            b.0 < self.tree@.len(),
        ensures
            res_view(r) == sb_not(self@, b.0 as int, opt_view(*prev)),
    {
        match b.parameter(self, 0, prev) {
            Ok(t) => {
                let v = VarVal::from_string(t.as_str());
                let tt = v.is_true(&self.ctx.props, &self.ctx.env);
                Ok(Some(VarVal::from_bool(!tt)))
            },
            Err(h) => Err(h),
        }
    }

    /// See `sb_contains`.
    pub fn b_contains(&self, b: GenBlockTup, prev: &Option<VarVal>) -> (r: Res)
        requires
            tree_wf(self.tree@),
            b.0 < self.tree@.len(),
        ensures
            res_view(r) == sb_contains(self@, b.0 as int, opt_view(*prev)),
    {
        if self.tree.blocks[b.0].params.len() != 2 {
            return Ok(None);
        }
        let x = match b.parameter(self, 0, prev) { Ok(t) => t, Err(h) => { return Err(h); } };
        let y = match b.parameter(self, 1, prev) { Ok(t) => t, Err(h) => { return Err(h); } };
        let xc = to_chars(x.as_str());
        let yc = to_chars(y.as_str());
        Ok(Some(VarVal::from_bool(contains(&xc, &yc))))
    }

    /// See `sb_number`.
    pub fn b_number(&self, b: GenBlockTup, prev: &Option<VarVal>) -> (r: Res)
        requires
            tree_wf(self.tree@),
            b.0 < self.tree@.len(),
        ensures
            res_view(r) == sb_number(self@, b.0 as int, opt_view(*prev)),
    {
        let t = match b.parameter(self, 0, prev) { Ok(t) => t, Err(h) => { return Err(h); } };
        let c = to_chars(t.as_str());
        if c.len() == 0 {
            return Ok(Some(VarVal::from_i32(0)));
        }
        match parse_i32(&c) {
            Some(n) => Ok(Some(VarVal::from_i32(n))),
            None => Ok(None),
        }
    }

    /// See `sb_filename`.
    pub fn b_filename(&self, b: GenBlockTup, prev: &Option<VarVal>) -> (r: Res)
        requires
            tree_wf(self.tree@),
            b.0 < self.tree@.len(),
        ensures
            res_view(r) == sb_filename(self@, b.0 as int, opt_view(*prev)),
    {
        let t = match b.parameter(self, 0, prev) { Ok(t) => t, Err(h) => { return Err(h); } };
        let p = to_chars(t.as_str());
        let l = match rfind(&p, '/') {
            None => p,
            Some(s) => {
                let l = slice_chars(&p, s + 1, p.len());
                assert(l@ =~= p@.skip(s + 1));
                l
            },
        };
        assert(l@ == last_part(t@));
        match rfind(&l, '.') {
            Some(d) => {
                let n = slice_chars(&l, 0, d);
                assert(n@ =~= l@.take(d as int));
                Ok(some_text(&n))
            },
            None => Ok(some_text(&l)),
        }
    }

    fn crop_suffix(&self, b: GenBlockTup, prev: &Option<VarVal>, f: &Vec<char>, mask0: &Vec<char>) -> (r: Res)
        requires
            tree_wf(self.tree@),
            b.0 < self.tree@.len(),
            mask0@.len() > 0,
        ensures
            res_view(r) == crop_suffix(self@, b.0 as int, opt_view(*prev), f@, mask0@),
    {
        let n = self.tree.blocks[b.0].params.len();
        assert(self.tree@[b.0 as int] == self.tree.blocks@[b.0 as int]@);
        let mask = slice_chars(mask0, 1, mask0.len());
        assert(mask@ =~= mask0@.skip(1));
        if ends_with(f, &mask) {
            let head = slice_chars(f, 0, f.len() - mask.len());
            assert(head@ =~= f@.take(f@.len() - mask@.len()));
            if n == 3 {
                let subs = match b.parameter(self, 2, prev) { Ok(t) => t, Err(h) => { return Err(h); } };
                let mut out = head;
                append_chars(&mut out, &to_chars(subs.as_str()));
                Ok(some_text(&out))
            } else {
                Ok(some_text(&head))
            }
        } else {
            Ok(some_text(f))
        }
    }

    fn crop_prefix(&self, b: GenBlockTup, prev: &Option<VarVal>, f: &Vec<char>, mask0: &Vec<char>, cwd: &String) -> (r: Res)
        requires
            tree_wf(self.tree@),
            b.0 < self.tree@.len(),
        ensures
            res_view(r) == crop_prefix(self@, b.0 as int, opt_view(*prev), f@, mask0@, cwd@),
    {
        let n = self.tree.blocks[b.0].params.len();
        let line = self.tree.blocks[b.0].script_line;
        assert(self.tree@[b.0 as int] == self.tree.blocks@[b.0 as int]@);
        let (mask1, endm) = split_mask_exec(mask0);
        let mask1s = string_from_chars(&mask1);
        let masks = under_exec(mask1s, cwd);
        let mask = to_chars(masks.as_str());
        if starts_with(f, &mask) && (endm.len() == 0 || ends_with(f, &endm)) {
            let fits = endm.len() <= f.len() && mask.len() <= f.len() - endm.len();
            if n == 3 {
                let subs_s = match b.parameter(self, 2, prev) { Ok(t) => t, Err(h) => { return Err(h); } };
                let subs = to_chars(subs_s.as_str());
                crop_replace(&subs, f, mask.len(), endm.len(), fits, line)
            } else if fits {
                Ok(some_text(&slice_chars(f, mask.len(), f.len() - endm.len())))
            } else {
                Err(Halt::Panic(line))
            }
        } else {
            Ok(some_text(f))
        }
    }

    /// See `sb_cropname`.
    pub fn b_cropname(&self, b: GenBlockTup, prev: &Option<VarVal>) -> (r: Res)
        requires
            tree_wf(self.tree@),
            b.0 < self.tree@.len(),
        ensures
            res_view(r) == sb_cropname(self@, b.0 as int, opt_view(*prev)),
    {
        let n = self.tree.blocks[b.0].params.len();
        assert(self.tree@[b.0 as int] == self.tree.blocks@[b.0 as int]@);
        let f0 = match b.parameter(self, 0, prev) { Ok(t) => t, Err(h) => { return Err(h); } };
        let cwd = match self.cwd(b) {
            None => { return Ok(Some(VarVal::from_string(f0.as_str()))); },
            Some(c) => c,
        };
        if n < 2 {
            return Ok(Some(VarVal::from_string(f0.as_str())));
        }
        let fs = under_exec(f0, &cwd);
        let f = to_chars(fs.as_str());
        let mask0s = match b.parameter(self, 1, prev) { Ok(t) => t, Err(h) => { return Err(h); } };
        let mask0 = to_chars(mask0s.as_str());
        if starts_lit(&mask0, "*") {
            proof {
                reveal_strlit("*");
                assert("*"@ =~= seq!['*']);
            }
            self.crop_suffix(b, prev, &f, &mask0)
        } else {
            proof {
                reveal_strlit("*");
                assert("*"@ =~= seq!['*']);
            }
            self.crop_prefix(b, prev, &f, &mask0, &cwd)
        }
    }

    /// See `sb_as_url` (with `url`) and `sb_as_jar` (without).
    pub fn b_as_url(&self, b: GenBlockTup, prev: &Option<VarVal>, url: bool) -> (r: Res)
        requires
            tree_wf(self.tree@),
            b.0 < self.tree@.len(),
        ensures
            res_view(r) == (if url {
                sb_as_url(self@, b.0 as int, opt_view(*prev))
            } else {
                sb_as_jar(self@, b.0 as int, opt_view(*prev))
            }),
    {
        let blk = &self.tree.blocks[b.0];
        assert(self.tree@[b.0 as int] == blk@);
        let line = blk.script_line;
        if blk.params.len() == 0 {
            return Err(Halt::Panic(line));
        }
        let p0 = blk.params[0].clone();
        let v = match self.lookup(b, p0.as_str(), prev) {
            None => { return Ok(None); },
            Some(v) => v,
        };
        let val = to_chars(v.value.as_str());
        match v.val_type {
            VarType::RepositoryRust => {
                if !url {
                    return Ok(None);
                }
                Ok(crate_url(&val))
            },
            VarType::RepositoryMaven | VarType::Generic => {
                let mut colon: Vec<char> = Vec::new();
                colon.push(':');
                assert(colon@ =~= seq![':']);
                let parts = split(&val, &colon);
                if url {
                    if parts.len() < 3 {
                        return Err(Halt::Panic(line));
                    }
                    Ok(maven_url(&parts))
                } else {
                    if parts.len() != 3 {
                        return Ok(None);
                    }
                    Ok(maven_jar(&parts))
                }
            },
            _ => Ok(None),
        }
    }
}

fn crate_url(val: &Vec<char>) -> (r: Option<VarVal>)
    ensures
        opt_view(r) == match first_index_of(val@, '@') {
            Some(pos) => Some(vv_text("https://crates.io/api/v1/crates/"@ + val@.take(pos) + seq!['/']
                + val@.skip(pos + 1) + "/download"@)),
            None => None,
        },
{
    match find(val, '@') {
        Some(pos) => {
            let a = to_chars("https://crates.io/api/v1/crates/");
            let mut out = to_chars("https://crates.io/api/v1/crates/");
            let head = slice_chars(val, 0, pos);
            assert(head@ =~= val@.take(pos as int));
            append_chars(&mut out, &head);
            out.push('/');
            assert(pos < val.len());
            let after = slice_chars(val, pos + 1, val.len());
            assert(after@ =~= val@.skip(pos + 1));
            append_chars(&mut out, &after);
            let d = to_chars("/download");
            append_chars(&mut out, &d);
            assert(out@ =~= a@ + head@ + seq!['/'] + after@ + d@);
            some_text(&out)
        },
        None => None,
    }
}

fn maven_url(parts: &Vec<String>) -> (r: Option<VarVal>)
    requires
        parts@.len() >= 3,
    ensures
        opt_view(r) == Some(vv_text("https://repo1.maven.org/maven2/"@ + replace_char(views(parts@)[0], '.', '/') + seq!['/']
            + views(parts@)[1] + seq!['/'] + views(parts@)[2] + seq!['/'] + views(parts@)[1] + seq!['-'] + views(parts@)[2] + ".jar"@)),
{
    let p0c = to_chars(parts[0].as_str());
    let p1c = to_chars(parts[1].as_str());
    let p2c = to_chars(parts[2].as_str());
    let a = to_chars("https://repo1.maven.org/maven2/");
    let mut out = to_chars("https://repo1.maven.org/maven2/");
    let r0 = replace_char_exec(&p0c, '.', '/');
    append_chars(&mut out, &r0);
    out.push('/');
    append_chars(&mut out, &p1c);
    out.push('/');
    append_chars(&mut out, &p2c);
    out.push('/');
    append_chars(&mut out, &p1c);
    out.push('-');
    append_chars(&mut out, &p2c);
    let j = to_chars(".jar");
    append_chars(&mut out, &j);
    assert(out@ =~= a@ + r0@ + seq!['/'] + p1c@ + seq!['/'] + p2c@ + seq!['/'] + p1c@ + seq!['-'] + p2c@ + j@);
    some_text(&out)
}

fn maven_jar(parts: &Vec<String>) -> (r: Option<VarVal>)
    requires
        parts@.len() == 3,
    ensures
        opt_view(r) == Some(vv_text(views(parts@)[1] + seq!['-'] + views(parts@)[2] + ".jar"@)),
{
    let p1c = to_chars(parts[1].as_str());
    let p2c = to_chars(parts[2].as_str());
    let mut out = to_chars(parts[1].as_str());
    out.push('-');
    append_chars(&mut out, &p2c);
    let j = to_chars(".jar");
    append_chars(&mut out, &j);
    assert(out@ =~= p1c@ + seq!['-'] + p2c@ + j@);
    some_text(&out)
}

/// The cropped middle of `f` (without `ml` leading and `el` trailing
/// characters) put into the replacement `subs` (see `crop_prefix`).
fn crop_replace(subs: &Vec<char>, f: &Vec<char>, ml: usize, el: usize, fits: bool, line: u32) -> (r: Res)
    requires
        ml <= f@.len(),
        fits == (el <= f@.len() && ml <= f@.len() - el),
    ensures
        res_view(r) == match first_index_of(subs@, '*') {
            None => Ok(Some(vv_text(subs@ + f@.skip(ml as int)))),
            Some(k) => if fits {
                Ok(Some(vv_text(subs@.take(k) + f@.subrange(ml as int, f@.len() - el) + subs@.skip(k + 1))))
            } else {
                Err(HaltView::Panic(line))
            },
        },
{
    match find(subs, '*') {
        None => {
            let mut out = slice_chars(subs, 0, subs.len());
            assert(out@ =~= subs@);
            let tail = slice_chars(f, ml, f.len());
            assert(tail@ =~= f@.skip(ml as int));
            append_chars(&mut out, &tail);
            Ok(some_text(&out))
        },
        Some(k) => if fits {
            let mut out = slice_chars(subs, 0, k);
            assert(out@ =~= subs@.take(k as int));
            append_chars(&mut out, &slice_chars(f, ml, f.len() - el));
            let after = slice_chars(subs, k + 1, subs.len());
            assert(after@ =~= subs@.skip(k + 1));
            append_chars(&mut out, &after);
            Ok(some_text(&out))
        } else {
            Err(Halt::Panic(line))
        },
    }
}

impl GenBlockTup {
    /// `assign` at this function block (see `sb_assign`).
    pub fn exec_assign(&self, m: &mut Machine, prev: &Option<VarVal>) -> (r: Res)
        requires
            tree_wf(old(m).tree@),
            self.0 < old(m).tree@.len(),
        ensures
            (final(m)@, res_view(r)) == sb_assign(old(m)@, self.0 as int, opt_view(*prev)),
            evolves(old(m)@, final(m)@),
    {
        let ghost m0 = m@;
        let blk = &m.tree.blocks[self.0];
        assert(m.tree@[self.0 as int] == blk@);
        let line = blk.script_line;
        if blk.params.len() == 0 {
            return Err(Halt::Panic(line));
        }
        let p = match blk.parent {
            None => { return Err(Halt::Panic(line)); },
            Some(p) => p,
        };
        let name = blk.params[0].clone();
        let nparams = blk.params.len();
        let tgt = m.find_assign_target(p, name.as_str());
        if nparams == 1 {
            let old = m.del_var(GenBlockTup(tgt), name.as_str());
            Ok(old)
        } else {
            let p1 = m.tree.blocks[self.0].params[1].clone();
            let v = match m.lookup(*self, p1.as_str(), prev) {
                Some(v) => v,
                None => match m.tmpl(*self, p1.as_str(), prev) {
                    Ok(t) => VarVal::from_string(t.as_str()),
                    Err(h) => { return Err(h); },
                },
            };
            let old = m.set_var(GenBlockTup(tgt), name, v);
            Ok(old)
        }
    }

}

/// The two parts of a crop mask (see `split_mask`).
fn split_mask_exec(mask: &Vec<char>) -> (r: (Vec<char>, Vec<char>))
    ensures
        (r.0@, r.1@) == split_mask(mask@),
{
    if mask.len() > 0 && mask[mask.len() - 1] == '*' {
        let a = slice_chars(mask, 0, mask.len() - 1);
        assert(a@ =~= mask@.drop_last());
        (a, Vec::new())
    } else {
        match find(mask, '*') {
            Some(k) => {
                let a = slice_chars(mask, 0, k);
                let c = slice_chars(mask, k + 1, mask.len());
                assert(a@ =~= mask@.take(k as int));
                assert(c@ =~= mask@.skip(k + 1));
                (a, c)
            },
            None => (slice_chars(mask, 0, mask.len()), Vec::new()),
        }
    }
}

impl Machine {
    /// See `sb_array`.
    pub fn b_array(&self, b: GenBlockTup, prev: &Option<VarVal>) -> (r: Res)
        requires
            tree_wf(self.tree@),
            b.0 < self.tree@.len(),
        ensures
            res_view(r) == sb_array(self@, b.0 as int, opt_view(*prev)),
    {
        let blk = &self.tree.blocks[b.0];
        assert(self.tree@[b.0 as int] == blk@);
        let mut acc: Vec<String> = Vec::new();
        let mut k: usize = 0;
        assert(views(acc@) =~= seq![]);
        while k < blk.params.len()
            invariant
                tree_wf(self.tree@),
                b.0 < self.tree@.len(),
                self.tree@[b.0 as int] == blk@,
                k <= blk@.params.len(),
                s_array_from(self@, b.0 as int, k as int, views(acc@), opt_view(*prev))
                    == s_array_from(self@, b.0 as int, 0, seq![], opt_view(*prev)),
            decreases blk@.params.len() - k,
        {
            let p = blk.params[k].clone();
            match self.lookup(b, p.as_str(), prev) {
                Some(v) => if v.val_type == VarType::Array {
                    let ghost a0 = views(acc@);
                    let mut i: usize = 0;
                    while i < v.values.len()
                        invariant
                            i <= v.values@.len(),
                            views(acc@) == a0 + v@.values.take(i as int),
                        decreases v.values@.len() - i,
                    {
                        push_string(&mut acc, v.values[i].clone());
                        assert(v@.values.take(i + 1) =~= v@.values.take(i as int).push(v.values@[i as int]@));
                        i += 1;
                        assert(views(acc@) =~= a0 + v@.values.take(i as int));
                    }
                    assert(v@.values.take(i as int) =~= v@.values);
                } else {
                    match b.parameter(self, k, prev) {
                        Ok(t) => { push_string(&mut acc, t); },
                        Err(h) => { return Err(h); },
                    }
                },
                None => match b.parameter(self, k, prev) {
                    Ok(t) => if t.as_str().is_empty() == false {
                        push_string(&mut acc, t);
                    },
                    Err(h) => { return Err(h); },
                },
            }
            k += 1;
        }
        Ok(Some(VarVal::from_vec(&acc)))
    }

    /// See `sb_set_env`.
    pub fn b_set_env(&mut self, b: GenBlockTup, prev: &Option<VarVal>) -> (r: Res)
        requires
            tree_wf(old(self).tree@),
            b.0 < old(self).tree@.len(),
        ensures
            (final(self)@, res_view(r)) == sb_set_env(old(self)@, b.0 as int, opt_view(*prev)),
            evolves(old(self)@, final(self)@),
    {
        if self.tree.blocks[b.0].params.len() != 2 {
            return Ok(None);
        }
        let k = match b.parameter(self, 0, prev) { Ok(t) => t, Err(h) => { return Err(h); } };
        let v = match b.parameter(self, 1, prev) { Ok(t) => t, Err(h) => { return Err(h); } };
        crate::props::set_property(&mut self.ctx.props, &k, &v);
        Ok(None)
    }

    /// See `sb_env`.
    pub fn b_env(&self, b: GenBlockTup, prev: &Option<VarVal>) -> (r: Res)
        requires
            tree_wf(self.tree@),
            b.0 < self.tree@.len(),
        ensures
            res_view(r) == sb_env(self@, b.0 as int, opt_view(*prev)),
    {
        let k = match b.parameter(self, 0, prev) { Ok(t) => t, Err(h) => { return Err(h); } };
        match self.ctx.props.get(k.as_str()) {
            Some(v) => { return Ok(Some(VarVal::from_string(v.as_str()))); },
            None => {},
        }
        match self.ctx.env.get(k.as_str()) {
            Some(v) => Ok(Some(VarVal::from_string(v.as_str()))),
            None => Ok(None),
        }
    }

    fn range_end(&self, b: GenBlockTup, prev: &Option<VarVal>, default: usize) -> (r: Result<Option<usize>, Halt>)
        requires
            tree_wf(self.tree@),
            b.0 < self.tree@.len(),
        ensures
            match r {
                Ok(Some(n)) => s_range_end(self@, b.0 as int, opt_view(*prev), default as int) == Ok::<Option<int>, HaltView>(Some(n as int)),
                Ok(None) => s_range_end(self@, b.0 as int, opt_view(*prev), default as int) == Ok::<Option<int>, HaltView>(None),
                Err(h) => s_range_end(self@, b.0 as int, opt_view(*prev), default as int) == Err::<Option<int>, HaltView>(h@),
            },
    {
        assert(self.tree@[b.0 as int] == self.tree.blocks@[b.0 as int]@);
        if self.tree.blocks[b.0].params.len() > 2 {
            match b.parameter(self, 2, prev) {
                Err(h) => Err(h),
                Ok(e) => Ok(parse_usize(&to_chars(e.as_str()))),
            }
        } else {
            Ok(Some(default))
        }
    }

    /// See `sb_range`.
    pub fn b_range(&self, b: GenBlockTup, prev: &Option<VarVal>) -> (r: Res)
        requires
            tree_wf(self.tree@),
            b.0 < self.tree@.len(),
        ensures
            res_view(r) == sb_range(self@, b.0 as int, opt_view(*prev)),
    {
        let line = self.tree.blocks[b.0].script_line;
        assert(self.tree@[b.0 as int] == self.tree.blocks@[b.0 as int]@);
        let st = match b.parameter(self, 1, prev) { Ok(t) => t, Err(h) => { return Err(h); } };
        let start = match parse_usize(&to_chars(st.as_str())) {
            None => { return Ok(None); },
            Some(n) => n,
        };
        let s = match b.parameter(self, 0, prev) { Ok(t) => t, Err(h) => { return Err(h); } };
        let sc = to_chars(s.as_str());
        if sc.len() > 0 {
            let total = bytes_len_exec(&sc);
            let end: u128 = if self.tree.blocks[b.0].params.len() > 2 {
                match b.parameter(self, 2, prev) {
                    Err(h) => { return Err(h); },
                    Ok(e) => match parse_usize(&to_chars(e.as_str())) {
                        None => { return Ok(None); },
                        Some(n) => n as u128,
                    },
                }
            } else {
                total
            };
            match byte_slice_exec(&sc, start as u128, end) {
                Some(t) => Ok(some_text(&t)),
                None => Err(Halt::Panic(line)),
            }
        } else {
            let p0 = self.tree.blocks[b.0].params[0].clone();
            match self.search(b, p0.as_str()) {
                Some(v) => if v.val_type == VarType::Array {
                    match self.range_end(b, prev, v.values.len()) {
                        Err(h) => Err(h),
                        Ok(None) => Ok(None),
                        Ok(Some(end)) => if start <= end && end <= v.values.len() {
                            let mut out: Vec<String> = Vec::new();
                            let mut i = start;
                            assert(views(out@) =~= v@.values.subrange(start as int, start as int));
                            while i < end
                                invariant
                                    start <= i <= end <= v.values@.len(),
                                    views(out@) == v@.values.subrange(start as int, i as int),
                                decreases end - i,
                            {
                                push_string(&mut out, v.values[i].clone());
                                i += 1;
                                assert(views(out@) =~= v@.values.subrange(start as int, i as int));
                            }
                            Ok(Some(VarVal::from_vec(&out)))
                        } else {
                            Err(Halt::Panic(line))
                        },
                    }
                } else {
                    Ok(None)
                },
                None => Ok(None),
            }
        }
    }

    /// See `sb_element`.
    pub fn b_element(&mut self, b: GenBlockTup, prev: &Option<VarVal>) -> (r: Res)
        requires
            tree_wf(old(self).tree@),
            b.0 < old(self).tree@.len(),
        ensures
            (final(self)@, res_view(r)) == sb_element(old(self)@, b.0 as int, opt_view(*prev)),
            evolves(old(self)@, final(self)@),
    {
        let ghost m0 = self@;
        let blk = &self.tree.blocks[b.0];
        assert(self.tree@[b.0 as int] == blk@);
        let line = blk.script_line;
        if blk.params.len() < 2 {
            return Ok(None);
        }
        let name = blk.params[0].clone();
        let p1 = blk.params[1].clone();
        let np = blk.params.len();
        let p = match blk.parent {
            None => { return Err(Halt::Panic(line)); },
            Some(p) => p,
        };
        let vb = match p.search_up_block(&self.tree, name.as_str()) {
            None => { return Ok(None); },
            Some(vb) => vb,
        };
        proof { lemma_block_defining_in(self.tree@, p.0 as int, name@); }
        let it = match self.lookup(b, p1.as_str(), prev) {
            Some(v) => v.value,
            None => p1,
        };
        let index: usize = match parse_usize(&to_chars(it.as_str())) {
            Some(n) => n,
            None => 0,
        };
        assert(index as int == element_index(m0, b.0 as int, opt_view(*prev)));
        let val = if np > 2 {
            match b.parameter(self, 2, prev) {
                Ok(t) => Some(t),
                Err(h) => { return Err(h); },
            }
        } else {
            None
        };
        let var = match self.tree.blocks[vb.0].vars.get(name.as_str()) {
            Some(v) => v,
            None => { return Ok(None); },
        };
        assert(self.tree@[vb.0 as int] == self.tree.blocks@[vb.0 as int]@);
        if var.val_type == VarType::Array {
            if var.values.len() == 0 || index > var.values.len() - 1 {
                Ok(None)
            } else {
                let res = VarVal::from_string(var.values[index].as_str());
                match val {
                    Some(t) => {
                        let mut nv = var;
                        let ghost v0 = nv@;
                        let ghost tv = t@;
                        nv.values.set(index, t);
                        assert(nv@ == VarValView { values: v0.values.update(index as int, tv), ..v0 }) by {
                            assert(nv@.values =~= v0.values.update(index as int, tv));
                        }
                        let _ = self.set_var(vb, name, nv);
                        Ok(Some(res))
                    },
                    None => Ok(Some(res)),
                }
            }
        } else {
            Ok(None)
        }
    }

    /// See `sb_scalar`.
    pub fn b_scalar(&self, b: GenBlockTup, prev: &Option<VarVal>, fuel: u64) -> (r: Res)
        requires
            tree_wf(self.tree@),
            b.0 < self.tree@.len(),
        ensures
            res_view(r) == sb_scalar(self@, b.0 as int, opt_view(*prev), fuel as nat),
    {
        let blk = &self.tree.blocks[b.0];
        assert(self.tree@[b.0 as int] == blk@);
        let sep = if blk.params.len() > 1 {
            match b.parameter(self, 1, prev) { Ok(t) => t, Err(h) => { return Err(h); } }
        } else {
            let mut t: Vec<char> = Vec::new();
            t.push('\t');
            assert(t@ =~= seq!['\t']);
            string_from_chars(&t)
        };
        if blk.params.len() == 0 {
            return Err(Halt::Panic(blk.script_line));
        }
        let p0 = blk.params[0].clone();
        match self.lookup(b, p0.as_str(), prev) {
            None => Ok(None),
            Some(v) => match self.arr_str(b, &v, &sep, prev, fuel) {
                Ok(t) => Ok(Some(VarVal::from_string(t.as_str()))),
                Err(h) => Err(h),
            },
        }
    }

    fn arr_str(&self, b: GenBlockTup, v: &VarVal, sep: &String, prev: &Option<VarVal>, fuel: u64) -> (r: Result<String, Halt>)
        requires
            tree_wf(self.tree@),
            b.0 < self.tree@.len(),
        ensures
            tres(r) == s_arr_str(self@, b.0 as int, v@, sep@, opt_view(*prev), fuel as nat),
        decreases fuel, 1int, 0int,
    {
        if v.val_type == VarType::Array {
            match self.arr_items(b, &v.values, sep, prev, fuel) {
                Ok(items) => {
                    let sc = to_chars(sep.as_str());
                    Ok(string_from_chars(&join_chars(&items, &sc)))
                },
                Err(h) => Err(h),
            }
        } else {
            Ok(v.value.clone())
        }
    }

    fn arr_items(&self, b: GenBlockTup, vals: &Vec<String>, sep: &String, prev: &Option<VarVal>, fuel: u64) -> (r: Result<Vec<String>, Halt>)
        requires
            tree_wf(self.tree@),
            b.0 < self.tree@.len(),
        ensures
            match r {
                Ok(v) => s_arr_items(self@, b.0 as int, views(vals@), 0, sep@, opt_view(*prev), fuel as nat) == Ok::<Seq<Seq<char>>, HaltView>(views(v@)),
                Err(h) => s_arr_items(self@, b.0 as int, views(vals@), 0, sep@, opt_view(*prev), fuel as nat) == Err::<Seq<Seq<char>>, HaltView>(h@),
            },
        decreases fuel, 0int, vals@.len() + 1,
    {
        let ghost vs = views(vals@);
        let mut heads: Vec<String> = Vec::new();
        let mut i: usize = 0;
        while i < vals.len()
            invariant
                tree_wf(self.tree@),
                b.0 < self.tree@.len(),
                vs == views(vals@),
                i <= vals@.len(),
                forall|j: int| 0 <= j < i ==> s_arr_head(self@, b.0 as int, vs, j, sep@, opt_view(*prev), fuel as nat)
                    == Ok::<Seq<char>, HaltView>(views(heads@)[j]),
                heads@.len() == i,
            decreases vals@.len() - i,
        {
            let h = match self.lookup(b, vals[i].as_str(), prev) {
                Some(x) => if fuel == 0 {
                    return self.arr_fail(b, vals, sep, prev, fuel, i, Halt::OutOfFuel, heads);
                } else {
                    match self.arr_str(b, &x, sep, prev, fuel - 1) {
                        Ok(t) => t,
                        Err(h) => { return self.arr_fail(b, vals, sep, prev, fuel, i, h, heads); },
                    }
                },
                None => vals[i].clone(),
            };
            let ghost h0 = views(heads@);
            push_string(&mut heads, h);
            i += 1;
        }
        proof { lemma_arr_items_all(self@, b.0 as int, vs, 0, sep@, opt_view(*prev), fuel as nat, views(heads@)); }
        assert(views(heads@).skip(0) =~= views(heads@));
        Ok(heads)
    }

    fn arr_fail(&self, b: GenBlockTup, vals: &Vec<String>, sep: &String, prev: &Option<VarVal>, fuel: u64, i: usize, h: Halt, heads: Vec<String>) -> (r: Result<Vec<String>, Halt>)
        requires
            i < vals@.len(),
            heads@.len() == i,
            forall|j: int| 0 <= j < i ==> s_arr_head(self@, b.0 as int, views(vals@), j, sep@, opt_view(*prev), fuel as nat)
                == Ok::<Seq<char>, HaltView>(views(heads@)[j]),
            s_arr_head(self@, b.0 as int, views(vals@), i as int, sep@, opt_view(*prev), fuel as nat) == Err::<Seq<char>, HaltView>(h@),
        ensures
            r matches Err(x) && x@ == h@,
            s_arr_items(self@, b.0 as int, views(vals@), 0, sep@, opt_view(*prev), fuel as nat) == Err::<Seq<Seq<char>>, HaltView>(h@),
    {
        proof { lemma_arr_items_fail(self@, b.0 as int, views(vals@), 0, i as int, sep@, opt_view(*prev), fuel as nat, h@); }
        Err(h)
    }
}

/// The text element `k` of `vals` contributes in `s_arr_items`.
pub open spec fn s_arr_head(m: MView, b: int, vals: Seq<Seq<char>>, k: int, sep: Seq<char>, prev: Option<VarValView>, fuel: nat) -> Result<Seq<char>, HaltView> {
    match s_lookup(m, b, vals[k], prev) {
        Some(x) => if fuel == 0 {
            Err(HaltView::OutOfFuel)
        } else {
            s_arr_str(m, b, x, sep, prev, (fuel - 1) as nat)
        },
        None => Ok(vals[k]),
    }
}

proof fn lemma_arr_items_all(m: MView, b: int, vals: Seq<Seq<char>>, k: int, sep: Seq<char>, prev: Option<VarValView>, fuel: nat, heads: Seq<Seq<char>>)
    requires
        0 <= k <= vals.len(),
        heads.len() == vals.len(),
        forall|j: int| k <= j < vals.len() ==> s_arr_head(m, b, vals, j, sep, prev, fuel) == Ok::<Seq<char>, HaltView>(heads[j]),
    ensures
        s_arr_items(m, b, vals, k, sep, prev, fuel) == Ok::<Seq<Seq<char>>, HaltView>(heads.skip(k)),
    decreases vals.len() - k,
{
    if k < vals.len() {
        lemma_arr_items_all(m, b, vals, k + 1, sep, prev, fuel, heads);
        assert(s_arr_head(m, b, vals, k, sep, prev, fuel) == Ok::<Seq<char>, HaltView>(heads[k]));
        assert(seq![heads[k]] + heads.skip(k + 1) =~= heads.skip(k));
    } else {
        assert(heads.skip(k) =~= seq![]);
    }
}

proof fn lemma_arr_items_fail(m: MView, b: int, vals: Seq<Seq<char>>, k: int, i: int, sep: Seq<char>, prev: Option<VarValView>, fuel: nat, h: HaltView)
    requires
        0 <= k <= i < vals.len(),
        forall|j: int| k <= j < i ==> (#[trigger] s_arr_head(m, b, vals, j, sep, prev, fuel)) is Ok,
        s_arr_head(m, b, vals, i, sep, prev, fuel) == Err::<Seq<char>, HaltView>(h),
    ensures
        s_arr_items(m, b, vals, k, sep, prev, fuel) == Err::<Seq<Seq<char>>, HaltView>(h),
    decreases i - k,
{
    if k < i {
        lemma_arr_items_fail(m, b, vals, k + 1, i, sep, prev, fuel, h);
        assert(s_arr_head(m, b, vals, k, sep, prev, fuel) is Ok);
    }
}

/// The block found by `block_defining` is a block of the tree that holds the name.
pub proof fn lemma_block_defining_in(t: Seq<crate::block::BlockView>, i: int, name: Seq<char>)
    requires
        tree_wf(t),
    ensures
        block_defining(t, i, name) matches Some(k) ==> 0 <= k < t.len() && t[k].vars.contains_key(name),
    decreases i,
{
    if 0 <= i < t.len() && !t[i].vars.contains_key(name) {
        match t[i].parent {
            Some(p) => if (p.0 as int) < i {
                lemma_block_defining_in(t, p.0 as int, name);
            },
            None => {},
        }
    }
}

/// The index of the parent of a block, or `-1` for a root.
pub open spec fn parent_index(b: crate::block::BlockView) -> int {
    match b.parent {
        Some(q) => q.0 as int,
        None => -1,
    }
}

/// Walking up from block `a`, block `c` is reached before any block that
/// holds `name` (a block holding it may be `c` itself).
pub open spec fn reaches(t: Seq<crate::block::BlockView>, a: int, c: int, name: Seq<char>) -> bool
    decreases a,
{
    if a == c {
        true
    } else if 0 <= a < t.len() && !t[a].vars.contains_key(name) {
        match t[a].parent {
            Some(q) => if (q.0 as int) < a { reaches(t, q.0 as int, c, name) } else { false },
            None => false,
        }
    } else {
        false
    }
}

proof fn lemma_reaches_extend(t: Seq<crate::block::BlockView>, a: int, c: int, name: Seq<char>)
    requires
        0 <= c < t.len(),
        reaches(t, a, c, name),
        !t[c].vars.contains_key(name),
        t[c].parent matches Some(q) && (q.0 as int) < c,
    ensures
        reaches(t, a, parent_index(t[c]), name),
    decreases a,
{
    let pc = parent_index(t[c]);
    if a != c {
        let q = parent_index(t[a]);
        lemma_reaches_extend(t, q, c, name);
        lemma_reaches_le(t, a, c, name);
    } else {
        assert(reaches(t, pc, pc, name));
    }
}

proof fn lemma_reaches_le(t: Seq<crate::block::BlockView>, a: int, c: int, name: Seq<char>)
    requires
        reaches(t, a, c, name),
    ensures
        c <= a,
    decreases a,
{
    if a != c {
        lemma_reaches_le(t, parent_index(t[a]), c, name);
    }
}

proof fn lemma_assign_target_reached(t: Seq<crate::block::BlockView>, p: int, cur: int, close: Option<int>, name: Seq<char>)
    requires
        tree_wf(t),
        0 <= cur < t.len(),
        reaches(t, p, cur, name),
        close matches Some(c) ==> reaches(t, p, c, name) && 0 <= c < t.len(),
    ensures
        reaches(t, p, assign_target(t, cur, close, name), name),
        0 <= assign_target(t, cur, close, name) < t.len(),
    decreases cur,
{
    let pb = t[cur];
    let close2 = if close is None && (pb.block_type == BlockType::Scope || pb.block_type == BlockType::Target
        || pb.block_type == BlockType::Main) {
        Some(cur)
    } else {
        close
    };
    if pb.vars.contains_key(name) {
    } else if pb.block_type == BlockType::Main {
    } else {
        match pb.parent {
            Some(q) => if (q.0 as int) < cur {
                lemma_reaches_extend(t, p, cur, name);
                lemma_assign_target_reached(t, p, q.0 as int, close2, name);
            },
            None => {},
        }
    }
}

proof fn lemma_reaches_finds(t: Seq<crate::block::BlockView>, a: int, c: int, name: Seq<char>, v: VarValView)
    requires
        tree_wf(t),
        0 <= c < t.len(),
        reaches(t, a, c, name),
    ensures
        search_from(crate::block::set_vars(t, c, t[c].vars.insert(name, v)), a, name) == Some(v),
    decreases a,
{
    let t2 = crate::block::set_vars(t, c, t[c].vars.insert(name, v));
    if a != c {
        let q = parent_index(t[a]);
        lemma_reaches_le(t, q, c, name);
        lemma_reaches_finds(t, q, c, name, v);
        assert(t2[a] == t[a]);
    }
}

/// The value an `assign` with a value stores: the variable the value
/// parameter names, or the interpolated text.
pub open spec fn assign_value(m: MView, b: int, prev: Option<VarValView>) -> Option<VarValView> {
    let p1 = m.tree[b].params[1];
    match s_lookup(m, b, p1, prev) {
        Some(v) => Some(v),
        None => match s_tmpl(m, b, p1, prev) {
            Ok(t) => Some(vv_text(t)),
            Err(_) => None,
        },
    }
}

/// What a read gives back of a write: after `assign(name, value)` in a
/// function block (that does not itself hold `name`), looking `name` up
/// from that block gives the value assigned.
pub proof fn law_assign_read_back(m: MView, b: int, prev: Option<VarValView>)
    requires
        tree_wf(m.tree),
        0 <= b < m.tree.len(),
        m.tree[b].params.len() == 2,
        !m.tree[b].vars.contains_key(m.tree[b].params[0]),
        sb_assign(m, b, prev).1 is Ok,
    ensures
        search_from(sb_assign(m, b, prev).0.tree, b, m.tree[b].params[0]) == assign_value(m, b, prev),
{
    let blk = m.tree[b];
    let name = blk.params[0];
    let p = parent_index(blk);
    assert(crate::block::parent_before(m.tree[b], b));
    let tgt = assign_target(m.tree, p, None, name);
    lemma_assign_target_reached(m.tree, p, p, None, name);
    let v = assign_value(m, b, prev)->0;
    lemma_reaches_finds(m.tree, p, tgt, name, v);
    lemma_reaches_le(m.tree, p, tgt, name);
    let t2 = crate::block::set_vars(m.tree, tgt, m.tree[tgt].vars.insert(name, v));
    assert(t2[b] == m.tree[b]);
}

/// `assign(name)` without a value removes the name from the block it
/// assigns to: that block no longer holds it.
pub proof fn law_assign_clears(m: MView, b: int, prev: Option<VarValView>)
    requires
        tree_wf(m.tree),
        0 <= b < m.tree.len(),
        m.tree[b].params.len() == 1,
        m.tree[b].parent is Some,
    ensures
        !sb_assign(m, b, prev).0.tree[assign_target(m.tree, parent_index(m.tree[b]), None, m.tree[b].params[0])].vars.contains_key(m.tree[b].params[0]),
{
    let p = parent_index(m.tree[b]);
    assert(crate::block::parent_before(m.tree[b], b));
    lemma_assign_target_reached(m.tree, p, p, None, m.tree[b].params[0]);
}

/// `eq` and `neq` on the same parameters give opposite answers.
pub proof fn law_eq_neq_opposite(m: MView, b: int, prev: Option<VarValView>)
    ensures
        match (sb_eq(m, b, prev, true), sb_eq(m, b, prev, false)) {
            (Ok(Some(x)), Ok(Some(y))) => x == vv_bool(true) && y == vv_bool(false) || x == vv_bool(false) && y == vv_bool(true),
            (Err(h1), Err(h2)) => h1 == h2,
            _ => false,
        },
{
}

/// `or` is true exactly when one parameter is true and `and` exactly when
/// all are, when every parameter can be evaluated.
pub proof fn law_or_and(m: MView, b: int, prev: Option<VarValView>)
    requires
        forall|k: int| 0 <= k < m.tree[b].params.len() ==> (#[trigger] s_param_true(m, b, m.tree[b].params[k], prev)) is Ok,
    ensures
        sb_or_and(m, b, prev, true) == Ok::<Option<VarValView>, HaltView>(Some(vv_bool(exists|k: int| 0 <= k < m.tree[b].params.len()
            && #[trigger] s_param_true(m, b, m.tree[b].params[k], prev) == Ok::<bool, HaltView>(true)))),
        sb_or_and(m, b, prev, false) == Ok::<Option<VarValView>, HaltView>(Some(vv_bool(forall|k: int| 0 <= k < m.tree[b].params.len()
            ==> #[trigger] s_param_true(m, b, m.tree[b].params[k], prev) == Ok::<bool, HaltView>(true)))),
{
    let ps = m.tree[b].params;
    lemma_params_test(m, b, ps, 0, prev, true);
    lemma_params_test(m, b, ps, 0, prev, false);
}

proof fn lemma_params_test(m: MView, b: int, ps: Seq<Seq<char>>, k: int, prev: Option<VarValView>, any: bool)
    requires
        0 <= k <= ps.len(),
        forall|j: int| 0 <= j < ps.len() ==> (#[trigger] s_param_true(m, b, ps[j], prev)) is Ok,
    ensures
        any ==> s_params_test(m, b, ps, k, prev, any) == Ok::<bool, HaltView>(exists|j: int| k <= j < ps.len()
            && #[trigger] s_param_true(m, b, ps[j], prev) == Ok::<bool, HaltView>(true)),
        !any ==> s_params_test(m, b, ps, k, prev, any) == Ok::<bool, HaltView>(forall|j: int| k <= j < ps.len()
            ==> #[trigger] s_param_true(m, b, ps[j], prev) == Ok::<bool, HaltView>(true)),
    decreases ps.len() - k,
{
    if k < ps.len() {
        lemma_params_test(m, b, ps, k + 1, prev, any);
        assert(s_param_true(m, b, ps[k], prev) is Ok);
        if s_param_true(m, b, ps[k], prev) == Ok::<bool, HaltView>(true) {
        } else {
            assert(s_param_true(m, b, ps[k], prev) == Ok::<bool, HaltView>(false));
        }
    }
}

} // verus!
