//! Values of script variables and the lexemes of a script.
use vstd::prelude::*;
use crate::text::{
    all_digits, copy_string, copy_strings, i32_text, lemma_i32_text_read_back, parse_i32, spec_i32_text, spec_parse_i32,
    string_from_chars, to_chars,
};
use crate::vars::{Duplicate, StrMap};

verus! {

/// The kind of a variable's value.
#[derive(Debug, Clone, Copy, PartialEq, Eq, Structural)]
pub enum VarType {
    Generic,
    Property,
    Directory,
    Path,
    Array,
    File,
    Environment,
    Number,
    Date,
    Bool,
    Eval,
    Function,
    Url,
    RepositoryMaven,
    RepositoryRust,
}

impl Default for VarType {
    fn default() -> (r: Self)
        ensures
            r == VarType::Generic,
    {
        VarType::Generic
    }
}

/// A lexeme read from a script.
#[derive(Debug, PartialEq)]
pub enum Lexem {
    Variable(String),
    Value(String),
    Comment(String),
    Type(String),
    Range(usize, usize),
    Function(String),
    Parameter(String),
    BlockHdr(String),
    BlockEnd(Option<String>),
    EOF,
}

/// The value of a script variable: a scalar `value`, or, for arrays, `values`.
#[derive(Debug, Clone)]
pub struct VarVal {
    pub val_type: VarType,
    pub value: String,
    pub values: Vec<String>,
}

/// The mathematical content of a `VarVal`.
pub struct VarValView {
    pub val_type: VarType,
    pub value: Seq<char>,
    pub values: Seq<Seq<char>>,
}

impl View for VarVal {
    type V = VarValView;

    open spec fn view(&self) -> VarValView {
        VarValView {
            val_type: self.val_type,
            value: self.value@,
            values: self.values@.map_values(|s: String| s@),
        }
    }
}

/// A generic value holding `s`.
pub open spec fn vv_text(s: Seq<char>) -> VarValView {
    VarValView { val_type: VarType::Generic, value: s, values: seq![] }
}

/// A boolean value.
pub open spec fn vv_bool(b: bool) -> VarValView {
    VarValView { val_type: VarType::Bool, value: bool_text(b), values: seq![] }
}

/// A number value.
pub open spec fn vv_num(n: i32) -> VarValView {
    VarValView { val_type: VarType::Number, value: spec_i32_text(n), values: seq![] }
}

/// An array value.
pub open spec fn vv_array(v: Seq<Seq<char>>) -> VarValView {
    VarValView { val_type: VarType::Array, value: seq![], values: v }
}

/// The text `"true"`.
pub open spec fn true_text() -> Seq<char> {
    seq!['t', 'r', 'u', 'e']
}

/// The text `"false"`.
pub open spec fn false_text() -> Seq<char> {
    seq!['f', 'a', 'l', 's', 'e']
}

/// The text of a boolean.
pub open spec fn bool_text(b: bool) -> Seq<char> {
    if b { true_text() } else { false_text() }
}

/// The value a lookup of `key` in `m` gives, or `fallback` when absent.
pub open spec fn lookup_or(m: Map<Seq<char>, Seq<char>>, key: Seq<char>, fallback: Seq<char>) -> Seq<char> {
    if m.contains_key(key) { m[key] } else { fallback }
}

/// The truth of a variable value, as the script language defines it:
/// environment and property values are looked up by name first (falling back
/// to the name itself); an array is true when one of its elements is not
/// empty; a number is true when it is a non-zero `i32` (text that is not a
/// number counts as zero); everything else is true only when it reads `true`.
pub open spec fn spec_is_true(v: VarValView, props: Map<Seq<char>, Seq<char>>, env: Map<Seq<char>, Seq<char>>) -> bool {
    match v.val_type {
        VarType::Environment => lookup_or(env, v.value, v.value) == true_text(),
        VarType::Property => lookup_or(props, v.value, v.value) == true_text(),
        VarType::Array => exists|i: int| 0 <= i < v.values.len() && #[trigger] v.values[i].len() > 0,
        VarType::Number => v.value.len() > 0 && match spec_parse_i32(v.value) {
            Some(n) => n != 0,
            None => false,
        },
        _ => v.value == true_text(),
    }
}

/// A string holding `t`.
pub fn text_string(t: &str) -> (r: String)
    ensures
        r@ == t@,
{
    let c = to_chars(t);
    string_from_chars(&c)
}

fn is_true_text(s: &String) -> (r: bool)
    ensures
        r == (s@ == true_text()),
{
    let c = to_chars(s.as_str());
    c.len() == 4 && c[0] == 't' && c[1] == 'r' && c[2] == 'u' && c[3] == 'e' && {
        assert(c@ =~= true_text());
        true
    }
}

impl Duplicate for VarVal {
    fn duplicate(&self) -> (r: VarVal) {
        let r = VarVal { val_type: self.val_type, value: copy_string(&self.value), values: copy_strings(&self.values) };
        assert(r@.values =~= self@.values);
        r
    }
}

impl VarVal {
    /// A generic value holding `s`.
    pub fn from_string(s: &str) -> (r: VarVal)
        ensures
            r.val_type == VarType::Generic,
            r.value@ == s@,
            r.values@.len() == 0,
            r@ == vv_text(s@),
    {
        let r = VarVal { val_type: VarType::Generic, value: text_string(s), values: Vec::new() };
        assert(r@.values =~= seq![]);
        r
    }

    /// A boolean value: `true` or `false`.
    pub fn from_bool(b: bool) -> (r: VarVal)
        ensures
            r.val_type == VarType::Bool,
            r.value@ == bool_text(b),
            r.values@.len() == 0,
            r@ == vv_bool(b),
    {
        let mut t: Vec<char> = Vec::new();
        if b {
            t.push('t');
            t.push('r');
            t.push('u');
            t.push('e');
            assert(t@ =~= true_text());
        } else {
            t.push('f');
            t.push('a');
            t.push('l');
            t.push('s');
            t.push('e');
            assert(t@ =~= false_text());
        }
        let r = VarVal { val_type: VarType::Bool, value: string_from_chars(&t), values: Vec::new() };
        assert(r@.values =~= seq![]);
        r
    }

    /// A number value holding `n` in decimal.
    pub fn from_i32(n: i32) -> (r: VarVal)
        ensures
            r.val_type == VarType::Number,
            r.value@ == spec_i32_text(n),
            r.values@.len() == 0,
            r@ == vv_num(n),
    {
        let t = i32_text(n);
        let r = VarVal { val_type: VarType::Number, value: string_from_chars(&t), values: Vec::new() };
        assert(r@.values =~= seq![]);
        r
    }

    /// An array value holding a copy of `v`.
    pub fn from_vec(v: &Vec<String>) -> (r: VarVal)
        ensures
            r.val_type == VarType::Array,
            r.value@.len() == 0,
            r.values@ == v@,
            r@ == vv_array(v@.map_values(|s: String| s@)),
    {
        let e: Vec<char> = Vec::new();
        let r = VarVal { val_type: VarType::Array, value: string_from_chars(&e), values: copy_strings(v) };
        assert(r@.value =~= seq![]);
        r
    }

    /// The truth of this value; `props` are the properties and `env` the
    /// environment in which environment and property values are looked up.
    pub fn is_true(&self, props: &StrMap, env: &StrMap) -> (r: bool)
        ensures
            r == spec_is_true(self@, props@, env@),
    {
        match self.val_type {
            VarType::Environment => match env.get(self.value.as_str()) {
                Some(v) => is_true_text(&v),
                None => is_true_text(&self.value),
            },
            VarType::Property => match props.get(self.value.as_str()) {
                Some(v) => is_true_text(&v),
                None => is_true_text(&self.value),
            },
            VarType::Array => {
                let mut i: usize = 0;
                while i < self.values.len()
                    invariant
                        i <= self.values@.len(),
                        self.val_type == VarType::Array,
                        forall|j: int| 0 <= j < i ==> self@.values[j].len() == 0,
                    decreases self.values@.len() - i,
                {
                    assert(self@.values[i as int] == self.values@[i as int]@);
                    if !self.values[i].as_str().is_empty() {
                        assert(self@.values[i as int].len() > 0);

                        return true;
                    }
                    i += 1;
                }
                false
            },
            VarType::Number => {
                let c = to_chars(self.value.as_str());
                if c.len() == 0 {
                    false
                } else {
                    match parse_i32(&c) {
                        Some(n) => n != 0,
                        None => false,
                    }
                }
            },
            _ => is_true_text(&self.value),
        }
    }
}

impl Default for VarVal {
    fn default() -> (r: Self)
        ensures
            r.val_type == VarType::Bool,
            r.value@ == false_text(),
            r.values@.len() == 0,
    {
        VarVal::from_bool(false)
    }
}


/// The state of the array-literal reader.
#[derive(Clone, Copy, PartialEq, Eq, Structural, Debug)]
pub enum ArrState {
    Begin,
    RangeStart,
    InParam,
    InQtParam,
    StartParam,
    BlankOrEnd,
    EndQtParam,
    EscapeParam,
}

/// The array-literal reader between two characters.
pub struct ArrScan {
    pub state: ArrState,
    /// characters of the element being read
    pub buf: Seq<char>,
    /// where the trailing blanks of an unquoted element start
    pub blank_pos: nat,
    /// elements read so far
    pub res: Seq<Seq<char>>,
}

/// What one character does to the array-literal reader.
pub enum ArrStep {
    /// go on reading
    Next(ArrScan),
    /// the closing `]` was read: the elements
    Done(Seq<Seq<char>>),
    /// a character the reader has no rule for
    Fault,
}

/// A blank for the array reader.
pub open spec fn arr_blank(c: char) -> bool {
    c == ' ' || c == '\t' || c == '\n' || c == '\r'
}

/// One character of an array literal.
pub open spec fn arr_step(st: ArrScan, c: char) -> ArrStep {
    let s = st.state;
    let push = ArrScan { buf: st.buf.push(c), ..st };
    if c == '[' {
        match s {
            ArrState::Begin => ArrStep::Next(ArrScan { state: ArrState::RangeStart, ..st }),
            ArrState::InParam | ArrState::InQtParam | ArrState::RangeStart => ArrStep::Next(push),
            _ => ArrStep::Fault,
        }
    } else if c == ']' {
        match s {
            ArrState::InQtParam => ArrStep::Next(push),
            ArrState::InParam => ArrStep::Done(st.res.push(st.buf)),
            ArrState::BlankOrEnd => ArrStep::Done(st.res.push(st.buf.take(st.blank_pos as int))),
            ArrState::EndQtParam | ArrState::RangeStart => ArrStep::Done(st.res),
            _ => ArrStep::Fault,
        }
    } else if c == '"' {
        match s {
            ArrState::RangeStart => ArrStep::Next(ArrScan { state: ArrState::InQtParam, ..st }),
            ArrState::InParam => ArrStep::Next(push),
            ArrState::StartParam => ArrStep::Next(ArrScan { state: ArrState::InParam, ..push }),
            ArrState::InQtParam => ArrStep::Next(
                ArrScan { state: ArrState::EndQtParam, buf: seq![], res: st.res.push(st.buf), ..st },
            ),
            ArrState::EscapeParam => ArrStep::Next(ArrScan { state: ArrState::InQtParam, ..push }),
            _ => ArrStep::Fault,
        }
    } else if c == '\\' {
        match s {
            ArrState::StartParam | ArrState::InParam => ArrStep::Next(ArrScan { state: ArrState::InParam, ..push }),
            ArrState::InQtParam => ArrStep::Next(ArrScan { state: ArrState::EscapeParam, ..st }),
            _ => ArrStep::Fault,
        }
    } else if c == ',' {
        match s {
            ArrState::InParam => ArrStep::Next(
                ArrScan { state: ArrState::StartParam, buf: seq![], res: st.res.push(st.buf), ..st },
            ),
            ArrState::BlankOrEnd => ArrStep::Next(
                ArrScan {
                    state: ArrState::StartParam,
                    buf: seq![],
                    res: st.res.push(st.buf.take(st.blank_pos as int)),
                    ..st
                },
            ),
            ArrState::InQtParam => ArrStep::Next(push),
            ArrState::EndQtParam => ArrStep::Next(ArrScan { state: ArrState::StartParam, ..st }),
            _ => ArrStep::Fault,
        }
    } else if arr_blank(c) {
        match s {
            ArrState::InQtParam | ArrState::BlankOrEnd => ArrStep::Next(push),
            ArrState::InParam => ArrStep::Next(
                ArrScan { state: ArrState::BlankOrEnd, blank_pos: st.buf.len(), ..push },
            ),
            ArrState::EndQtParam | ArrState::RangeStart | ArrState::StartParam => ArrStep::Next(st),
            _ => ArrStep::Fault,
        }
    } else {
        match s {
            ArrState::InParam | ArrState::InQtParam => ArrStep::Next(push),
            ArrState::EscapeParam => ArrStep::Next(ArrScan { buf: st.buf.push('\\').push(c), ..st }),
            ArrState::BlankOrEnd | ArrState::RangeStart | ArrState::StartParam => ArrStep::Next(
                ArrScan { state: ArrState::InParam, ..push },
            ),
            _ => ArrStep::Fault,
        }
    }
}

/// The outcome of reading an array literal.
pub enum ArrOutcome {
    /// the elements, read up to the first closing `]`
    Elements(Seq<Seq<char>>),
    /// the text ended before a closing `]`
    Unclosed,
    /// a character the reader has no rule for
    Fault,
}

/// The reader run from state `st` over `s` starting at index `i`.
pub open spec fn arr_run(s: Seq<char>, i: int, st: ArrScan) -> ArrOutcome
    decreases s.len() - i,
{
    if i < 0 || i >= s.len() {
        ArrOutcome::Unclosed
    } else {
        match arr_step(st, s[i]) {
            ArrStep::Next(st2) => arr_run(s, i + 1, st2),
            ArrStep::Done(r) => ArrOutcome::Elements(r),
            ArrStep::Fault => ArrOutcome::Fault,
        }
    }
}

/// The reader's start.
pub open spec fn arr_start() -> ArrScan {
    ArrScan { state: ArrState::Begin, buf: seq![], blank_pos: 0, res: seq![] }
}

/// Reading the array literal `s`.
pub open spec fn spec_array_value(s: Seq<char>) -> ArrOutcome {
    arr_run(s, 0, arr_start())
}

/// The array reader's executable state.
struct ArrExec {
    state: ArrState,
    buf: Vec<char>,
    blank_pos: usize,
    res: Vec<String>,
}

impl ArrExec {
    spec fn view(&self) -> ArrScan {
        ArrScan {
            state: self.state,
            buf: self.buf@,
            blank_pos: self.blank_pos as nat,
            res: self.res@.map_values(|s: String| s@),
        }
    }

    spec fn inv(&self) -> bool {
        self.state == ArrState::BlankOrEnd ==> self.blank_pos <= self.buf@.len()
    }
}

fn buf_take(buf: &Vec<char>, n: usize) -> (r: String)
    requires
        n <= buf@.len(),
    ensures
        r@ == buf@.take(n as int),
{
    let v = crate::text::slice_chars(buf, 0, n);
    assert(v@ =~= buf@.take(n as int));
    string_from_chars(&v)
}

/// One character of an array literal; `None` for a character the reader has
/// no rule for, `Some(Err(..))` for the closing `]`.
fn arr_step_exec(st: &mut ArrExec, c: char) -> (r: Option<bool>)
    requires
        old(st).inv(),
    ensures
        final(st).inv(),
        match arr_step(old(st).view(), c) {
            ArrStep::Next(n) => r == Some(false) && final(st).view() == n,
            ArrStep::Done(res) => r == Some(true) && final(st).view().res == res,
            ArrStep::Fault => r is None,
        },
{
    let ghost old_res = st.res@;
    if c == '[' {
        match st.state {
            ArrState::Begin => { st.state = ArrState::RangeStart; Some(false) },
            ArrState::InParam | ArrState::InQtParam | ArrState::RangeStart => { st.buf.push(c); Some(false) },
            _ => None,
        }
    } else if c == ']' {
        match st.state {
            ArrState::InQtParam => { st.buf.push(c); Some(false) },
            ArrState::InParam => {
                let e = string_from_chars(&st.buf);
                st.res.push(e);
                assert(st.view().res =~= old(st).view().res.push(old(st).buf@));
                Some(true)
            },
            ArrState::BlankOrEnd => {
                let e = buf_take(&st.buf, st.blank_pos);
                st.res.push(e);
                assert(st.view().res =~= old(st).view().res.push(old(st).buf@.take(old(st).blank_pos as int)));
                Some(true)
            },
            ArrState::EndQtParam | ArrState::RangeStart => Some(true),
            _ => None,
        }
    } else if c == '"' {
        match st.state {
            ArrState::RangeStart => { st.state = ArrState::InQtParam; Some(false) },
            ArrState::InParam => { st.buf.push(c); Some(false) },
            ArrState::StartParam => { st.buf.push(c); st.state = ArrState::InParam; Some(false) },
            ArrState::InQtParam => {
                let e = string_from_chars(&st.buf);
                st.res.push(e);
                st.buf = Vec::new();
                st.state = ArrState::EndQtParam;
                assert(st.view().res =~= old(st).view().res.push(old(st).buf@));
                assert(st.view().buf =~= seq![]);
                Some(false)
            },
            ArrState::EscapeParam => { st.buf.push(c); st.state = ArrState::InQtParam; Some(false) },
            _ => None,
        }
    } else if c == '\\' {
        match st.state {
            ArrState::StartParam | ArrState::InParam => { st.buf.push(c); st.state = ArrState::InParam; Some(false) },
            ArrState::InQtParam => { st.state = ArrState::EscapeParam; Some(false) },
            _ => None,
        }
    } else if c == ',' {
        match st.state {
            ArrState::InParam => {
                let e = string_from_chars(&st.buf);
                st.res.push(e);
                st.buf = Vec::new();
                st.state = ArrState::StartParam;
                assert(st.view().res =~= old(st).view().res.push(old(st).buf@));
                assert(st.view().buf =~= seq![]);
                Some(false)
            },
            ArrState::BlankOrEnd => {
                let e = buf_take(&st.buf, st.blank_pos);
                st.res.push(e);
                st.buf = Vec::new();
                st.state = ArrState::StartParam;
                assert(st.view().res =~= old(st).view().res.push(old(st).buf@.take(old(st).blank_pos as int)));
                assert(st.view().buf =~= seq![]);
                Some(false)
            },
            ArrState::InQtParam => { st.buf.push(c); Some(false) },
            ArrState::EndQtParam => { st.state = ArrState::StartParam; Some(false) },
            _ => None,
        }
    } else if c == ' ' || c == '\t' || c == '\n' || c == '\r' {
        match st.state {
            ArrState::InQtParam | ArrState::BlankOrEnd => { st.buf.push(c); Some(false) },
            ArrState::InParam => {
                st.blank_pos = st.buf.len();
                st.buf.push(c);
                st.state = ArrState::BlankOrEnd;
                Some(false)
            },
            ArrState::EndQtParam | ArrState::RangeStart | ArrState::StartParam => Some(false),
            _ => None,
        }
    } else {
        match st.state {
            ArrState::InParam | ArrState::InQtParam => { st.buf.push(c); Some(false) },
            ArrState::EscapeParam => { st.buf.push('\\'); st.buf.push(c); Some(false) },
            ArrState::BlankOrEnd | ArrState::RangeStart | ArrState::StartParam => {
                st.buf.push(c);
                st.state = ArrState::InParam;
                Some(false)
            },
            _ => None,
        }
    }
}

/// Reads the array literal `value`: `Some(Ok(elements))` when a closing `]`
/// ends it, `Some(Err(value))` when the text ends first, `None` where a
/// character has no rule in the reader.
pub fn scan_array_value(value: &str) -> (r: Option<Result<Vec<String>, String>>)
    ensures
        match spec_array_value(value@) {
            ArrOutcome::Elements(e) => r matches Some(Ok(v)) && v@.map_values(|s: String| s@) == e,
            ArrOutcome::Unclosed => r matches Some(Err(v)) && v@ == value@,
            ArrOutcome::Fault => r is None,
        },
{
    let s = to_chars(value);
    let mut st = ArrExec { state: ArrState::Begin, buf: Vec::new(), blank_pos: 0, res: Vec::new() };
    assert(st.view().res =~= seq![]);
    assert(st.view() == arr_start());
    let mut i: usize = 0;
    while i < s.len()
        invariant
            i <= s.len(),
            s@ == value@,
            st.inv(),
            arr_run(s@, i as int, st.view()) == spec_array_value(value@),
        decreases s.len() - i,
    {
        let ghost before = st.view();
        match arr_step_exec(&mut st, s[i]) {
            None => return None,
            Some(true) => {
                let res = st.res;
                assert(res@.map_values(|s: String| s@) == st.view().res);
                return Some(Ok(res));
            },
            Some(false) => {},
        }
        i += 1;
    }
    Some(Err(text_string(value)))
}

/// Reads the array literal `value` (see `scan_array_value`): the elements up
/// to the first closing `]`, or `Err(value)` when the text ends before one.
pub fn process_array_value(value: &str) -> (r: Result<Vec<String>, String>)
    requires
        !(spec_array_value(value@) is Fault),
    ensures
        match spec_array_value(value@) {
            ArrOutcome::Elements(e) => r matches Ok(v) && v@.map_values(|s: String| s@) == e,
            ArrOutcome::Unclosed => r matches Err(v) && v@ == value@,
            ArrOutcome::Fault => false,
        },
{
    match scan_array_value(value) {
        Some(r) => r,
        None => Err(text_string(value)),
    }
}


/// The state of the block-header reader.
#[derive(Clone, Copy, PartialEq, Eq, Structural, Debug)]
pub enum HdrState {
    InType,
    NameStart,
    WorkDiv,
    PathDiv,
    InName,
    InPath,
    InWork,
    InNameBlank,
    InWorkBlank,
    InPathBlank,
    InNameQt,
    InPathQt,
    InWorkQt,
}

/// The block-header reader between two characters.
pub struct HdrScan {
    pub state: HdrState,
    pub buf: Seq<char>,
    pub last_blank: nat,
    pub typ: Seq<char>,
    pub name: Seq<char>,
    pub work: Seq<char>,
    pub path: Seq<char>,
}

/// A blank inside a header.
pub open spec fn hdr_blank(c: char) -> bool {
    c == ' ' || c == '\t'
}

/// One character of a block header; `None` where the reader has no rule.
pub open spec fn hdr_step(st: HdrScan, c: char) -> Option<HdrScan> {
    let s = st.state;
    let push = HdrScan { buf: st.buf.push(c), ..st };
    if hdr_blank(c) {
        match s {
            HdrState::InType => Some(HdrScan { state: HdrState::NameStart, typ: st.buf, buf: seq![], ..st }),
            HdrState::PathDiv | HdrState::WorkDiv | HdrState::NameStart => Some(st),
            HdrState::InName => Some(HdrScan { state: HdrState::InNameBlank, last_blank: st.buf.len(), ..push }),
            HdrState::InWork => Some(HdrScan { state: HdrState::InWorkBlank, last_blank: st.buf.len(), ..push }),
            HdrState::InPath => Some(HdrScan { state: HdrState::InPathBlank, last_blank: st.buf.len(), ..push }),
            _ => Some(push),
        }
    } else if c == ':' {
        match s {
            HdrState::InType => Some(HdrScan { state: HdrState::WorkDiv, typ: st.buf, buf: seq![], ..st }),
            HdrState::WorkDiv => Some(HdrScan { state: HdrState::PathDiv, ..st }),
            HdrState::NameStart => Some(HdrScan { state: HdrState::WorkDiv, ..st }),
            HdrState::InName => Some(HdrScan { state: HdrState::WorkDiv, name: st.buf, buf: seq![], ..st }),
            HdrState::InWork => Some(HdrScan { state: HdrState::PathDiv, work: st.buf, buf: seq![], ..st }),
            HdrState::InNameBlank => Some(
                HdrScan { state: HdrState::WorkDiv, name: st.buf.take(st.last_blank as int), buf: seq![], ..st },
            ),
            HdrState::InNameQt | HdrState::InPathQt | HdrState::InWorkQt => Some(push),
            _ => None,
        }
    } else if c == '"' {
        match s {
            HdrState::NameStart | HdrState::InNameBlank | HdrState::InName => Some(
                HdrScan { state: HdrState::InNameQt, ..st },
            ),
            HdrState::InNameQt => Some(HdrScan { state: HdrState::InName, ..st }),
            HdrState::WorkDiv => Some(HdrScan { state: HdrState::InWorkQt, ..st }),
            HdrState::InWorkQt => Some(HdrScan { state: HdrState::InWork, ..st }),
            HdrState::PathDiv => Some(HdrScan { state: HdrState::InPathQt, ..st }),
            HdrState::InPathQt => Some(HdrScan { state: HdrState::InPath, ..st }),
            _ => None,
        }
    } else {
        match s {
            HdrState::WorkDiv | HdrState::InWorkBlank => Some(HdrScan { state: HdrState::InWork, ..push }),
            HdrState::PathDiv | HdrState::InPathBlank => Some(HdrScan { state: HdrState::InPath, ..push }),
            HdrState::NameStart | HdrState::InName | HdrState::InNameBlank => Some(
                HdrScan { state: HdrState::InName, ..push },
            ),
            _ => Some(push),
        }
    }
}

/// The header reader at the end of the text; `None` inside an open quote.
pub open spec fn hdr_finish(st: HdrScan) -> Option<HdrScan> {
    match st.state {
        HdrState::InType => Some(HdrScan { typ: st.buf, ..st }),
        HdrState::InName => Some(HdrScan { name: st.buf, ..st }),
        HdrState::InNameBlank => Some(HdrScan { name: st.buf.take(st.last_blank as int), ..st }),
        HdrState::InWork => Some(HdrScan { work: st.buf, ..st }),
        HdrState::InWorkBlank => Some(HdrScan { work: st.buf.take(st.last_blank as int), ..st }),
        HdrState::InPath => Some(HdrScan { path: st.buf, ..st }),
        HdrState::InPathBlank => Some(HdrScan { path: st.buf.take(st.last_blank as int), ..st }),
        HdrState::NameStart | HdrState::WorkDiv | HdrState::PathDiv => Some(st),
        _ => None,
    }
}

/// The header reader run from `st` over `s` from index `i`.
pub open spec fn hdr_run(s: Seq<char>, i: int, st: HdrScan) -> Option<HdrScan>
    decreases s.len() - i,
{
    if i < 0 || i >= s.len() {
        hdr_finish(st)
    } else {
        match hdr_step(st, s[i]) {
            Some(st2) => hdr_run(s, i + 1, st2),
            None => None,
        }
    }
}

/// Reading a block header `type name:work dir:path`: its four parts, or
/// `None` where the reader has no rule for a character.
pub open spec fn spec_lex_header(s: Seq<char>) -> Option<(Seq<char>, Seq<char>, Seq<char>, Seq<char>)> {
    match hdr_run(
        s,
        0,
        HdrScan {
            state: HdrState::InType,
            buf: seq![],
            last_blank: 0,
            typ: seq![],
            name: seq![],
            work: seq![],
            path: seq![],
        },
    ) {
        Some(f) => Some((f.typ, f.name, f.work, f.path)),
        None => None,
    }
}

struct HdrExec {
    state: HdrState,
    buf: Vec<char>,
    last_blank: usize,
    typ: Vec<char>,
    name: Vec<char>,
    work: Vec<char>,
    path: Vec<char>,
}

impl HdrExec {
    spec fn view(&self) -> HdrScan {
        HdrScan {
            state: self.state,
            buf: self.buf@,
            last_blank: self.last_blank as nat,
            typ: self.typ@,
            name: self.name@,
            work: self.work@,
            path: self.path@,
        }
    }

    spec fn inv(&self) -> bool {
        (self.state == HdrState::InNameBlank || self.state == HdrState::InWorkBlank || self.state
            == HdrState::InPathBlank) ==> self.last_blank <= self.buf@.len()
    }
}

fn take_chars(buf: &Vec<char>, n: usize) -> (r: Vec<char>)
    requires
        n <= buf@.len(),
    ensures
        r@ == buf@.take(n as int),
{
    let v = crate::text::slice_chars(buf, 0, n);
    assert(v@ =~= buf@.take(n as int));
    v
}

fn hdr_step_exec(st: &mut HdrExec, c: char) -> (ok: bool)
    requires
        old(st).inv(),
    ensures
        final(st).inv(),
        match hdr_step(old(st).view(), c) {
            Some(n) => ok && final(st).view() == n,
            None => !ok,
        },
{
    if c == ' ' || c == '\t' {
        match st.state {
            HdrState::InType => {
                let mut tmp = Vec::new();
                std::mem::swap(&mut tmp, &mut st.buf);
                st.typ = tmp;
                st.state = HdrState::NameStart;
                true
            },
            HdrState::PathDiv | HdrState::WorkDiv | HdrState::NameStart => true,
            HdrState::InName => { st.last_blank = st.buf.len(); st.buf.push(c); st.state = HdrState::InNameBlank; true },
            HdrState::InWork => { st.last_blank = st.buf.len(); st.buf.push(c); st.state = HdrState::InWorkBlank; true },
            HdrState::InPath => { st.last_blank = st.buf.len(); st.buf.push(c); st.state = HdrState::InPathBlank; true },
            _ => { st.buf.push(c); true },
        }
    } else if c == ':' {
        match st.state {
            HdrState::InType => {
                let mut tmp = Vec::new();
                std::mem::swap(&mut tmp, &mut st.buf);
                st.typ = tmp;
                st.state = HdrState::WorkDiv;
                true
            },
            HdrState::WorkDiv => { st.state = HdrState::PathDiv; true },
            HdrState::NameStart => { st.state = HdrState::WorkDiv; true },
            HdrState::InName => {
                let mut tmp = Vec::new();
                std::mem::swap(&mut tmp, &mut st.buf);
                st.name = tmp;
                st.state = HdrState::WorkDiv;
                true
            },
            HdrState::InWork => {
                let mut tmp = Vec::new();
                std::mem::swap(&mut tmp, &mut st.buf);
                st.work = tmp;
                st.state = HdrState::PathDiv;
                true
            },
            HdrState::InNameBlank => {
                st.name = take_chars(&st.buf, st.last_blank);
                st.buf = Vec::new();
                st.state = HdrState::WorkDiv;
                true
            },
            HdrState::InNameQt | HdrState::InPathQt | HdrState::InWorkQt => { st.buf.push(c); true },
            _ => false,
        }
    } else if c == '"' {
        match st.state {
            HdrState::NameStart | HdrState::InNameBlank | HdrState::InName => { st.state = HdrState::InNameQt; true },
            HdrState::InNameQt => { st.state = HdrState::InName; true },
            HdrState::WorkDiv => { st.state = HdrState::InWorkQt; true },
            HdrState::InWorkQt => { st.state = HdrState::InWork; true },
            HdrState::PathDiv => { st.state = HdrState::InPathQt; true },
            HdrState::InPathQt => { st.state = HdrState::InPath; true },
            _ => false,
        }
    } else {
        st.buf.push(c);
        match st.state {
            HdrState::WorkDiv | HdrState::InWorkBlank => { st.state = HdrState::InWork; },
            HdrState::PathDiv | HdrState::InPathBlank => { st.state = HdrState::InPath; },
            HdrState::NameStart | HdrState::InName | HdrState::InNameBlank => { st.state = HdrState::InName; },
            _ => {},
        }
        true
    }
}

/// Reads a block header `type name:work dir:path` into its four parts; `None`
/// where the reader has no rule for a character (see `spec_lex_header`).
pub fn scan_lex_header(value: &str) -> (r: Option<(String, String, String, String)>)
    ensures
        match spec_lex_header(value@) {
            Some(p) => r matches Some(q) && q.0@ == p.0 && q.1@ == p.1 && q.2@ == p.2 && q.3@ == p.3,
            None => r is None,
        },
{
    let s = to_chars(value);
    let mut st = HdrExec {
        state: HdrState::InType,
        buf: Vec::new(),
        last_blank: 0,
        typ: Vec::new(),
        name: Vec::new(),
        work: Vec::new(),
        path: Vec::new(),
    };
    let ghost start = st.view();
    let mut i: usize = 0;
    while i < s.len()
        invariant
            i <= s.len(),
            s@ == value@,
            st.inv(),
            hdr_run(s@, i as int, st.view()) == hdr_run(s@, 0, start),
            start == (HdrScan {
                state: HdrState::InType,
                buf: seq![],
                last_blank: 0,
                typ: seq![],
                name: seq![],
                work: seq![],
                path: seq![],
            }),
        decreases s.len() - i,
    {
        if !hdr_step_exec(&mut st, s[i]) {
            return None;
        }
        i += 1;
    }
    match st.state {
        HdrState::InType => { st.typ = st.buf; },
        HdrState::InName => { st.name = st.buf; },
        HdrState::InNameBlank => { st.name = take_chars(&st.buf, st.last_blank); },
        HdrState::InWork => { st.work = st.buf; },
        HdrState::InWorkBlank => { st.work = take_chars(&st.buf, st.last_blank); },
        HdrState::InPath => { st.path = st.buf; },
        HdrState::InPathBlank => { st.path = take_chars(&st.buf, st.last_blank); },
        HdrState::NameStart | HdrState::WorkDiv | HdrState::PathDiv => {},
        _ => { return None; },
    }
    Some((string_from_chars(&st.typ), string_from_chars(&st.name), string_from_chars(&st.work), string_from_chars(&st.path)))
}

/// Splits a block header `type name:work dir:path` into its type, name, work
/// directory and path (see `spec_lex_header`).
pub fn process_lex_header(value: &str) -> (r: Box<(String, String, String, String)>)
    requires
        spec_lex_header(value@) is Some,
    ensures
        match spec_lex_header(value@) {
            Some(p) => r.0@ == p.0 && r.1@ == p.1 && r.2@ == p.2 && r.3@ == p.3,
            None => false,
        },
{
    match scan_lex_header(value) {
        Some(t) => Box::new(t),
        None => Box::new((text_string(value), text_string(value), text_string(value), text_string(value))),
    }
}


/// The truth of a value built from a boolean, an integer, a list or a text
/// (see `from_bool`, `from_i32`, `from_vec`, `from_string`): the boolean
/// itself; the integer not being zero; one element not being empty; the text
/// reading `true`. Properties and environment play no part.
pub proof fn law_truth_of_built_values(
    b: bool,
    n: i32,
    v: Seq<Seq<char>>,
    s: Seq<char>,
    props: Map<Seq<char>, Seq<char>>,
    env: Map<Seq<char>, Seq<char>>,
)
    ensures
        spec_is_true(vv_bool(b), props, env) == b,
        spec_is_true(vv_num(n), props, env) == (n != 0),
        spec_is_true(vv_array(v), props, env) == (exists|i: int| 0 <= i < v.len() && #[trigger] v[i].len() > 0),
        spec_is_true(vv_text(s), props, env) == (s == true_text()),
{
    assert(false_text() != true_text()) by {
        assert(false_text().len() != true_text().len());
    }
    let a = vv_array(v);
    assert(a.values == v);
    if exists|i: int| 0 <= i < v.len() && #[trigger] v[i].len() > 0 {
        let i = choose|i: int| 0 <= i < v.len() && #[trigger] v[i].len() > 0;
        assert(a.values[i].len() > 0);
    }
    if spec_is_true(a, props, env) {
        let i = choose|i: int| 0 <= i < a.values.len() && #[trigger] a.values[i].len() > 0;
        assert(v[i].len() > 0);
    }
    lemma_i32_text_read_back(n);
    assert(spec_i32_text(n).len() > 0) by {
        crate::text::lemma_nat_digits_read_back(if n < 0 { (-(n as int)) as nat } else { n as nat });
    }
}

} // verus!
