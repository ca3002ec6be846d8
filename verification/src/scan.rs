//! The lexer of the script language: a state machine over the characters of
//! a script that yields one lexeme per call.
use vstd::prelude::*;
use crate::lex::Lexem;
use crate::text::string_from_chars;

verus! {

/// The states of the lexer.
#[derive(Clone, Copy, PartialEq, Eq, Structural, Debug)]
pub enum LexState {
    Begin,
    QuotedStart,
    InLex,
    InQtLex,
    InQtValue,
    Escape,
    EscapeValue,
    EscapeBreakValue,
    BlankOrEnd,
    RangeStart,
    Comment,
    InType,
    StartValue,
    InValue,
    RangeEnd,
    InParam,
    InParamBlank,
    InQtParam,
    StartParam,
    EndFunction,
    IgnoredBlankToEnd,
    BlankInValue,
    BlockStart,
    BlockEnd,
    EscapeParam,
    EscapeQtParam,
    EndQtParam,
    InBreak,
    InArrayVal,
    EscapeEndArray,
    End,
    UnrecoverableErr,
}

/// What a character does to the lexeme buffer.
#[derive(Clone, Copy, PartialEq, Eq, Structural, Debug)]
pub enum BufOp {
    /// nothing
    Keep,
    /// append the character
    Push,
    /// append a backslash, then the character
    PushBs,
    /// append a backslash
    Bs,
    /// mark the end of the text before trailing blanks, then append the character
    NbPush,
    /// append a backslash, mark, then append the character
    BsNbPush,
    /// mark the end of the text
    Nb,
}

/// Which part of the buffer a lexeme takes.
#[derive(Clone, Copy, PartialEq, Eq, Structural, Debug)]
pub enum Part {
    /// all of it
    All,
    /// up to the mark
    LastNb,
}

/// The lexeme a transition yields.
#[derive(Clone, Copy, PartialEq, Eq, Structural, Debug)]
pub enum Emit {
    Variable(Part),
    Value(Part),
    Type,
    Function,
    Parameter(Part),
    ParamEmpty,
    BlockHdr,
    HdrEmpty,
    BlockEndNone,
    BlockEndSome,
    Eof,
}

/// What the lexer does with a character in a state.
#[derive(Clone, Copy, PartialEq, Eq, Structural, Debug)]
pub enum LexAct {
    /// change state and apply a buffer operation
    Go(LexState, BufOp),
    /// apply a buffer operation and yield a lexeme in the new state
    Ret(LexState, BufOp, Emit),
    /// a comment starts inside a parameter list or array: keep what was read
    SaveComment,
    /// a line ends inside a comment
    EndComment,
    /// stop reading as at the end of the text
    Finish,
    /// no rule for this character in this state
    Fault,
}

/// The transition table of the lexer.
pub open spec fn lex_trans(s: LexState, c: char) -> LexAct {
    if c == '"' {
        match s {
            LexState::Begin => LexAct::Go(LexState::QuotedStart, BufOp::Keep),
            LexState::InLex => LexAct::Go(LexState::InLex, BufOp::Push),
            LexState::InParam => LexAct::Go(LexState::InParam, BufOp::Push),
            LexState::InArrayVal => LexAct::Go(LexState::InArrayVal, BufOp::Push),
            LexState::InQtLex => LexAct::Go(LexState::IgnoredBlankToEnd, BufOp::Nb),
            LexState::InQtValue => LexAct::Go(LexState::InValue, BufOp::Nb),
            LexState::Escape => LexAct::Go(LexState::InQtLex, BufOp::Push),
            LexState::EscapeValue => LexAct::Go(LexState::InQtValue, BufOp::Push),
            LexState::EscapeParam => LexAct::Go(LexState::InParam, BufOp::Push),
            LexState::InQtParam => LexAct::Go(LexState::InParam, BufOp::Keep),
            LexState::StartParam => LexAct::Go(LexState::InQtParam, BufOp::Keep),
            LexState::StartValue => LexAct::Go(LexState::InQtValue, BufOp::Keep),
            LexState::Comment => LexAct::Go(LexState::Comment, BufOp::Push),
            LexState::BlankOrEnd => LexAct::Go(LexState::BlankOrEnd, BufOp::Push),
            LexState::EscapeBreakValue => LexAct::Go(LexState::InValue, BufOp::PushBs),
            LexState::EscapeEndArray => LexAct::Go(LexState::InArrayVal, BufOp::PushBs),
            LexState::InBreak => LexAct::Go(LexState::InValue, BufOp::Push),
            LexState::EscapeQtParam => LexAct::Go(LexState::InQtParam, BufOp::Push),
            _ => LexAct::Fault,
        }
    } else if c == ' ' || c == '\t' {
        match s {
            LexState::Begin => LexAct::Go(LexState::Begin, BufOp::Keep),
            LexState::BlockStart => LexAct::Go(LexState::BlockStart, BufOp::Keep),
            LexState::QuotedStart => LexAct::Go(LexState::InQtLex, BufOp::Push),
            LexState::InLex => LexAct::Go(LexState::BlankOrEnd, BufOp::NbPush),
            LexState::Escape => LexAct::Go(LexState::InLex, BufOp::Push),
            LexState::InParamBlank => LexAct::Go(LexState::InParamBlank, BufOp::Push),
            LexState::InQtParam => LexAct::Go(LexState::InQtParam, BufOp::Push),
            LexState::InQtValue => LexAct::Go(LexState::InQtValue, BufOp::Push),
            LexState::InArrayVal => LexAct::Go(LexState::InArrayVal, BufOp::Push),
            LexState::BlankOrEnd => LexAct::Go(LexState::BlankOrEnd, BufOp::Push),
            LexState::Comment => LexAct::Go(LexState::Comment, BufOp::Push),
            LexState::BlankInValue => LexAct::Go(LexState::BlankInValue, BufOp::Push),
            LexState::InParam => LexAct::Go(LexState::InParamBlank, BufOp::NbPush),
            LexState::InType => LexAct::Ret(LexState::Begin, BufOp::Keep, Emit::Type),
            LexState::EndFunction => LexAct::Go(LexState::Begin, BufOp::Keep),
            LexState::StartValue => LexAct::Go(LexState::StartValue, BufOp::Keep),
            LexState::BlockEnd => LexAct::Go(LexState::BlockEnd, BufOp::Keep),
            LexState::IgnoredBlankToEnd => LexAct::Go(LexState::IgnoredBlankToEnd, BufOp::Keep),
            LexState::StartParam => LexAct::Go(LexState::StartParam, BufOp::Keep),
            LexState::InValue => LexAct::Go(LexState::BlankInValue, BufOp::NbPush),
            LexState::EscapeValue => LexAct::Go(LexState::InQtValue, BufOp::PushBs),
            LexState::EscapeBreakValue => LexAct::Go(LexState::BlankInValue, BufOp::BsNbPush),
            LexState::InBreak => LexAct::Go(LexState::InValue, BufOp::Push),
            LexState::EscapeEndArray => LexAct::Go(LexState::InArrayVal, BufOp::PushBs),
            _ => LexAct::Fault,
        }
    } else if c == '\\' {
        match s {
            LexState::InQtLex | LexState::QuotedStart => LexAct::Go(LexState::Escape, BufOp::Keep),
            LexState::InParam => LexAct::Go(LexState::EscapeParam, BufOp::Keep),
            LexState::InQtValue => LexAct::Go(LexState::EscapeValue, BufOp::Keep),
            LexState::InQtParam => LexAct::Go(LexState::EscapeQtParam, BufOp::Keep),
            LexState::Escape => LexAct::Go(LexState::InLex, BufOp::Push),
            LexState::InLex => LexAct::Go(LexState::Escape, BufOp::Keep),
            LexState::Begin => LexAct::Go(LexState::InLex, BufOp::Push),
            LexState::BlankOrEnd => LexAct::Go(LexState::InLex, BufOp::Keep),
            LexState::StartParam => LexAct::Go(LexState::EscapeParam, BufOp::Keep),
            LexState::InParamBlank => LexAct::Go(LexState::InParam, BufOp::Push),
            LexState::Comment => LexAct::Go(LexState::Comment, BufOp::Push),
            LexState::EscapeValue => LexAct::Go(LexState::InQtValue, BufOp::PushBs),
            LexState::EscapeParam => LexAct::Go(LexState::InParam, BufOp::Push),
            LexState::InValue => LexAct::Go(LexState::EscapeBreakValue, BufOp::Keep),
            LexState::EscapeBreakValue => LexAct::Go(LexState::EscapeBreakValue, BufOp::Bs),
            LexState::EscapeEndArray => LexAct::Go(LexState::EscapeEndArray, BufOp::Bs),
            LexState::InBreak => LexAct::Go(LexState::InValue, BufOp::Push),
            LexState::InArrayVal => LexAct::Go(LexState::EscapeEndArray, BufOp::Keep),
            LexState::End => LexAct::Finish,
            _ => LexAct::Fault,
        }
    } else if c == '#' {
        match s {
            LexState::Begin | LexState::EndFunction | LexState::Comment | LexState::BlockStart | LexState::BlockEnd => LexAct::Go(LexState::Comment, BufOp::Push),
            LexState::InValue | LexState::StartValue => LexAct::Ret(LexState::Comment, BufOp::Keep, Emit::Value(Part::All)),
            LexState::BlankInValue | LexState::InBreak | LexState::BlankOrEnd => LexAct::Ret(LexState::Comment, BufOp::Keep, Emit::Value(Part::LastNb)),
            LexState::InQtValue => LexAct::Go(LexState::InQtValue, BufOp::Push),
            LexState::InQtParam => LexAct::Go(LexState::InQtParam, BufOp::Push),
            LexState::InQtLex => LexAct::Go(LexState::InQtLex, BufOp::Push),
            LexState::EscapeValue => LexAct::Go(LexState::InQtValue, BufOp::PushBs),
            LexState::EscapeBreakValue => LexAct::Ret(LexState::Comment, BufOp::Bs, Emit::Value(Part::All)),
            LexState::InArrayVal | LexState::StartParam | LexState::InParam => LexAct::SaveComment,
            LexState::EscapeEndArray => LexAct::Go(LexState::InArrayVal, BufOp::Push),
            _ => LexAct::Fault,
        }
    } else if c == '\n' || c == '\r' {
        match s {
            LexState::Comment => LexAct::EndComment,
            LexState::Begin => LexAct::Go(LexState::Begin, BufOp::Keep),
            LexState::BlockStart => LexAct::Go(LexState::BlockStart, BufOp::Keep),
            LexState::StartParam => LexAct::Go(LexState::StartParam, BufOp::Keep),
            LexState::RangeStart => LexAct::Go(LexState::RangeStart, BufOp::Keep),
            LexState::InValue | LexState::StartValue => LexAct::Ret(LexState::Begin, BufOp::Keep, Emit::Value(Part::All)),
            LexState::BlankInValue => LexAct::Ret(LexState::Begin, BufOp::Keep, Emit::Value(Part::LastNb)),
            LexState::EndFunction | LexState::BlockEnd => LexAct::Go(LexState::Begin, BufOp::Keep),
            LexState::InType => LexAct::Ret(LexState::Begin, BufOp::Keep, Emit::Type),
            LexState::InQtParam => LexAct::Go(LexState::InQtParam, BufOp::Push),
            LexState::InParamBlank => LexAct::Go(LexState::InParamBlank, BufOp::Push),
            LexState::InQtValue => LexAct::Go(LexState::InQtValue, BufOp::Push),
            LexState::InArrayVal => LexAct::Go(LexState::InArrayVal, BufOp::Push),
            LexState::EscapeValue => LexAct::Go(LexState::InQtValue, BufOp::PushBs),
            LexState::InParam => LexAct::Go(LexState::InParamBlank, BufOp::NbPush),
            LexState::EscapeEndArray => LexAct::Go(LexState::InArrayVal, BufOp::PushBs),
            LexState::InLex | LexState::BlankOrEnd => LexAct::Go(LexState::BlankOrEnd, BufOp::Keep),
            LexState::EscapeBreakValue | LexState::InBreak => LexAct::Go(LexState::InBreak, BufOp::Keep),
            _ => LexAct::Fault,
        }
    } else if c == '[' {
        match s {
            LexState::BlankOrEnd => LexAct::Go(LexState::RangeStart, BufOp::Keep),
            LexState::InQtLex => LexAct::Go(LexState::InQtLex, BufOp::Push),
            LexState::InQtValue => LexAct::Go(LexState::InQtValue, BufOp::Push),
            LexState::InQtParam => LexAct::Go(LexState::InQtParam, BufOp::Push),
            LexState::InArrayVal => LexAct::Go(LexState::InArrayVal, BufOp::Push),
            LexState::Comment => LexAct::Go(LexState::Comment, BufOp::Push),
            LexState::InValue => LexAct::Go(LexState::InValue, BufOp::Push),
            LexState::InParam => LexAct::Go(LexState::InParam, BufOp::Push),
            LexState::InLex => LexAct::Ret(LexState::RangeStart, BufOp::Keep, Emit::Variable(Part::All)),
            LexState::InParamBlank | LexState::EndFunction | LexState::StartParam => LexAct::Go(LexState::InParam, BufOp::Push),
            LexState::EscapeValue => LexAct::Go(LexState::InQtValue, BufOp::PushBs),
            LexState::EscapeParam => LexAct::Go(LexState::InParam, BufOp::PushBs),
            LexState::StartValue => LexAct::Go(LexState::InArrayVal, BufOp::Push),
            LexState::EscapeBreakValue => LexAct::Go(LexState::InValue, BufOp::PushBs),
            LexState::InBreak => LexAct::Go(LexState::InValue, BufOp::Push),
            LexState::EscapeEndArray => LexAct::Go(LexState::InArrayVal, BufOp::PushBs),
            _ => LexAct::Fault,
        }
    } else if c == ']' {
        match s {
            LexState::Comment => LexAct::Go(LexState::Comment, BufOp::Push),
            LexState::InValue => LexAct::Go(LexState::InValue, BufOp::Push),
            LexState::InParam => LexAct::Go(LexState::InParam, BufOp::Push),
            LexState::InQtLex => LexAct::Go(LexState::InQtLex, BufOp::Push),
            LexState::InQtValue => LexAct::Go(LexState::InQtValue, BufOp::Push),
            LexState::InQtParam => LexAct::Go(LexState::InQtParam, BufOp::Push),
            LexState::StartValue | LexState::InBreak => LexAct::Go(LexState::InValue, BufOp::Push),
            LexState::EscapeBreakValue => LexAct::Go(LexState::InValue, BufOp::PushBs),
            LexState::EscapeParam => LexAct::Go(LexState::InParam, BufOp::PushBs),
            LexState::EscapeValue => LexAct::Go(LexState::InQtValue, BufOp::PushBs),
            LexState::EscapeEndArray => LexAct::Go(LexState::InArrayVal, BufOp::Push),
            LexState::InArrayVal => LexAct::Ret(LexState::Begin, BufOp::Push, Emit::Value(Part::All)),
            LexState::InType => LexAct::Ret(LexState::UnrecoverableErr, BufOp::Keep, Emit::Eof),
            _ => LexAct::Fault,
        }
    } else if c == '{' {
        match s {
            LexState::InValue => LexAct::Go(LexState::InValue, BufOp::Push),
            LexState::InQtParam => LexAct::Go(LexState::InQtParam, BufOp::Push),
            LexState::InQtLex => LexAct::Go(LexState::InQtLex, BufOp::Push),
            LexState::InParam => LexAct::Go(LexState::InParam, BufOp::Push),
            LexState::Comment => LexAct::Go(LexState::Comment, BufOp::Push),
            LexState::InQtValue => LexAct::Go(LexState::InQtValue, BufOp::Push),
            LexState::InArrayVal => LexAct::Go(LexState::InArrayVal, BufOp::Push),
            LexState::InLex | LexState::BlankOrEnd => LexAct::Ret(LexState::BlockStart, BufOp::Keep, Emit::BlockHdr),
            LexState::BlockEnd | LexState::Begin | LexState::BlockStart => LexAct::Ret(LexState::BlockStart, BufOp::Keep, Emit::HdrEmpty),
            LexState::InParamBlank | LexState::StartParam => LexAct::Go(LexState::InParam, BufOp::Push),
            LexState::EscapeValue => LexAct::Go(LexState::InQtValue, BufOp::PushBs),
            LexState::EscapeBreakValue => LexAct::Go(LexState::InValue, BufOp::PushBs),
            LexState::InBreak => LexAct::Go(LexState::InValue, BufOp::Push),
            LexState::EscapeEndArray => LexAct::Go(LexState::InArrayVal, BufOp::PushBs),
            _ => LexAct::Fault,
        }
    } else if c == '}' {
        match s {
            LexState::Begin | LexState::BlockStart | LexState::BlockEnd => LexAct::Ret(LexState::BlockEnd, BufOp::Keep, Emit::BlockEndNone),
            LexState::InParam => LexAct::Go(LexState::InParam, BufOp::Push),
            LexState::InValue => LexAct::Go(LexState::InValue, BufOp::Push),
            LexState::InQtParam => LexAct::Go(LexState::InQtParam, BufOp::Push),
            LexState::Comment => LexAct::Go(LexState::Comment, BufOp::Push),
            LexState::InQtValue => LexAct::Go(LexState::InQtValue, BufOp::Push),
            LexState::InArrayVal => LexAct::Go(LexState::InArrayVal, BufOp::Push),
            LexState::InParamBlank => LexAct::Go(LexState::InParam, BufOp::Push),
            LexState::InLex | LexState::BlankOrEnd | LexState::EndFunction => LexAct::Ret(LexState::BlockEnd, BufOp::Keep, Emit::BlockEndSome),
            LexState::EscapeValue => LexAct::Go(LexState::InQtValue, BufOp::PushBs),
            LexState::EscapeBreakValue => LexAct::Go(LexState::InValue, BufOp::PushBs),
            LexState::InBreak => LexAct::Go(LexState::InValue, BufOp::Push),
            LexState::EscapeEndArray => LexAct::Go(LexState::InArrayVal, BufOp::PushBs),
            _ => LexAct::Fault,
        }
    } else if c == ';' {
        match s {
            LexState::EndFunction | LexState::BlockEnd | LexState::Begin => LexAct::Go(LexState::Begin, BufOp::Keep),
            LexState::Comment => LexAct::Go(LexState::Comment, BufOp::Push),
            LexState::InParam => LexAct::Go(LexState::InParam, BufOp::Push),
            LexState::InQtParam => LexAct::Go(LexState::InQtParam, BufOp::Push),
            LexState::InQtValue => LexAct::Go(LexState::InQtValue, BufOp::Push),
            LexState::InQtLex => LexAct::Go(LexState::InQtLex, BufOp::Push),
            LexState::InArrayVal => LexAct::Go(LexState::InArrayVal, BufOp::Push),
            LexState::InParamBlank => LexAct::Go(LexState::InParam, BufOp::Push),
            LexState::EscapeValue => LexAct::Go(LexState::InQtValue, BufOp::PushBs),
            LexState::EscapeBreakValue => LexAct::Ret(LexState::Begin, BufOp::Bs, Emit::Value(Part::All)),
            LexState::InValue | LexState::InBreak | LexState::InLex => LexAct::Ret(LexState::Begin, BufOp::Keep, Emit::Value(Part::All)),
            LexState::EscapeEndArray => LexAct::Go(LexState::InArrayVal, BufOp::PushBs),
            _ => LexAct::Fault,
        }
    } else if c == ':' {
        match s {
            LexState::BlankOrEnd | LexState::Begin => LexAct::Go(LexState::InLex, BufOp::Push),
            LexState::InValue | LexState::BlankInValue => LexAct::Ret(LexState::InType, BufOp::Nb, Emit::Value(Part::LastNb)),
            LexState::InParam => LexAct::Go(LexState::InParam, BufOp::Push),
            LexState::InLex => LexAct::Go(LexState::InLex, BufOp::Push),
            LexState::Comment => LexAct::Go(LexState::Comment, BufOp::Push),
            LexState::InQtParam => LexAct::Go(LexState::InQtParam, BufOp::Push),
            LexState::InQtValue => LexAct::Go(LexState::InQtValue, BufOp::Push),
            LexState::InQtLex => LexAct::Go(LexState::InQtLex, BufOp::Push),
            LexState::InArrayVal => LexAct::Go(LexState::InArrayVal, BufOp::Push),
            LexState::InParamBlank => LexAct::Go(LexState::InParam, BufOp::Push),
            LexState::EscapeValue => LexAct::Go(LexState::InQtValue, BufOp::PushBs),
            LexState::EscapeBreakValue => LexAct::Go(LexState::InValue, BufOp::PushBs),
            LexState::InBreak => LexAct::Go(LexState::InValue, BufOp::Push),
            LexState::EscapeEndArray => LexAct::Go(LexState::InArrayVal, BufOp::PushBs),
            _ => LexAct::Fault,
        }
    } else if c == '=' {
        match s {
            LexState::BlankOrEnd | LexState::IgnoredBlankToEnd => LexAct::Ret(LexState::StartValue, BufOp::Keep, Emit::Variable(Part::LastNb)),
            LexState::InLex => LexAct::Ret(LexState::StartValue, BufOp::Keep, Emit::Variable(Part::All)),
            LexState::Comment => LexAct::Go(LexState::Comment, BufOp::Push),
            LexState::InParam => LexAct::Go(LexState::InParam, BufOp::Push),
            LexState::InQtParam => LexAct::Go(LexState::InQtParam, BufOp::Push),
            LexState::InQtValue => LexAct::Go(LexState::InQtValue, BufOp::Push),
            LexState::InQtLex => LexAct::Go(LexState::InQtLex, BufOp::Push),
            LexState::InArrayVal => LexAct::Go(LexState::InArrayVal, BufOp::Push),
            LexState::InValue => LexAct::Go(LexState::InValue, BufOp::Push),
            LexState::InParamBlank => LexAct::Go(LexState::InParam, BufOp::Push),
            LexState::EscapeValue => LexAct::Go(LexState::InQtValue, BufOp::PushBs),
            LexState::EscapeEndArray => LexAct::Go(LexState::InArrayVal, BufOp::PushBs),
            _ => LexAct::Fault,
        }
    } else if c == '(' {
        match s {
            LexState::InLex | LexState::BlankOrEnd => LexAct::Ret(LexState::StartParam, BufOp::Keep, Emit::Function),
            LexState::InValue => LexAct::Go(LexState::InValue, BufOp::Push),
            LexState::InParam => LexAct::Go(LexState::InParam, BufOp::Push),
            LexState::InQtParam => LexAct::Go(LexState::InQtParam, BufOp::Push),
            LexState::Comment => LexAct::Go(LexState::Comment, BufOp::Push),
            LexState::InQtValue => LexAct::Go(LexState::InQtValue, BufOp::Push),
            LexState::InQtLex => LexAct::Go(LexState::InQtLex, BufOp::Push),
            LexState::InArrayVal => LexAct::Go(LexState::InArrayVal, BufOp::Push),
            LexState::StartParam => LexAct::Go(LexState::InParam, BufOp::Push),
            LexState::Begin => LexAct::Go(LexState::InLex, BufOp::Push),
            LexState::EscapeBreakValue => LexAct::Go(LexState::InValue, BufOp::PushBs),
            LexState::EscapeValue => LexAct::Go(LexState::InQtValue, BufOp::PushBs),
            LexState::InBreak => LexAct::Go(LexState::InValue, BufOp::Push),
            LexState::EscapeEndArray => LexAct::Go(LexState::InArrayVal, BufOp::PushBs),
            _ => LexAct::Fault,
        }
    } else if c == ')' {
        match s {
            LexState::InParam => LexAct::Ret(LexState::EndFunction, BufOp::Keep, Emit::Parameter(Part::All)),
            LexState::InParamBlank => LexAct::Ret(LexState::EndFunction, BufOp::Keep, Emit::Parameter(Part::LastNb)),
            LexState::StartParam => LexAct::Ret(LexState::EndFunction, BufOp::Keep, Emit::Parameter(Part::All)),
            LexState::InValue => LexAct::Go(LexState::InValue, BufOp::Push),
            LexState::InQtParam => LexAct::Go(LexState::InQtParam, BufOp::Push),
            LexState::Comment => LexAct::Go(LexState::Comment, BufOp::Push),
            LexState::InQtValue => LexAct::Go(LexState::InQtValue, BufOp::Push),
            LexState::InQtLex => LexAct::Go(LexState::InQtLex, BufOp::Push),
            LexState::InArrayVal => LexAct::Go(LexState::InArrayVal, BufOp::Push),
            LexState::InLex => LexAct::Go(LexState::InLex, BufOp::Push),
            LexState::Begin => LexAct::Go(LexState::InLex, BufOp::Push),
            LexState::EscapeBreakValue => LexAct::Go(LexState::InValue, BufOp::PushBs),
            LexState::EscapeValue => LexAct::Go(LexState::InQtValue, BufOp::PushBs),
            LexState::InBreak => LexAct::Go(LexState::InValue, BufOp::Push),
            LexState::EscapeEndArray => LexAct::Go(LexState::InArrayVal, BufOp::PushBs),
            _ => LexAct::Fault,
        }
    } else if '0' <= c && c <= '9' {
        match s {
            LexState::InParam => LexAct::Go(LexState::InParam, BufOp::Push),
            LexState::InValue => LexAct::Go(LexState::InValue, BufOp::Push),
            LexState::Comment => LexAct::Go(LexState::Comment, BufOp::Push),
            LexState::InLex => LexAct::Go(LexState::InLex, BufOp::Push),
            LexState::InQtParam => LexAct::Go(LexState::InQtParam, BufOp::Push),
            LexState::InQtValue => LexAct::Go(LexState::InQtValue, BufOp::Push),
            LexState::InQtLex => LexAct::Go(LexState::InQtLex, BufOp::Push),
            LexState::InArrayVal => LexAct::Go(LexState::InArrayVal, BufOp::Push),
            LexState::StartParam | LexState::InParamBlank => LexAct::Go(LexState::InParam, BufOp::Push),
            LexState::StartValue | LexState::InBreak => LexAct::Go(LexState::InValue, BufOp::Push),
            LexState::Begin | LexState::BlankOrEnd => LexAct::Go(LexState::InLex, BufOp::Push),
            LexState::EscapeBreakValue => LexAct::Go(LexState::InValue, BufOp::PushBs),
            LexState::EscapeValue => LexAct::Go(LexState::InQtValue, BufOp::PushBs),
            LexState::EscapeQtParam => LexAct::Go(LexState::InQtParam, BufOp::PushBs),
            LexState::EscapeEndArray => LexAct::Go(LexState::InArrayVal, BufOp::PushBs),
            LexState::EscapeParam => LexAct::Go(LexState::InParam, BufOp::PushBs),
            _ => LexAct::Fault,
        }
    } else if c == ',' {
        match s {
            LexState::InParam | LexState::InParamBlank => LexAct::Ret(LexState::StartParam, BufOp::Keep, Emit::Parameter(Part::All)),
            LexState::StartParam => LexAct::Ret(LexState::StartParam, BufOp::Keep, Emit::ParamEmpty),
            LexState::InValue => LexAct::Go(LexState::InValue, BufOp::Push),
            LexState::InQtParam => LexAct::Go(LexState::InQtParam, BufOp::Push),
            LexState::Comment => LexAct::Go(LexState::Comment, BufOp::Push),
            LexState::InQtValue => LexAct::Go(LexState::InQtValue, BufOp::Push),
            LexState::InQtLex => LexAct::Go(LexState::InQtLex, BufOp::Push),
            LexState::InArrayVal => LexAct::Go(LexState::InArrayVal, BufOp::Push),
            LexState::BlankInValue => LexAct::Go(LexState::BlankInValue, BufOp::Push),
            LexState::InLex => LexAct::Go(LexState::InLex, BufOp::Push),
            LexState::Begin => LexAct::Go(LexState::InLex, BufOp::Push),
            LexState::EscapeBreakValue => LexAct::Go(LexState::InValue, BufOp::PushBs),
            LexState::EscapeValue => LexAct::Go(LexState::InQtValue, BufOp::PushBs),
            LexState::InBreak | LexState::StartValue => LexAct::Go(LexState::InValue, BufOp::Push),
            LexState::EscapeEndArray => LexAct::Go(LexState::InArrayVal, BufOp::PushBs),
            _ => LexAct::Fault,
        }
    } else if c == '.' {
        match s {
            LexState::InValue => LexAct::Go(LexState::InValue, BufOp::Push),
            LexState::InLex => LexAct::Go(LexState::InLex, BufOp::Push),
            LexState::InParam => LexAct::Go(LexState::InParam, BufOp::Push),
            LexState::Comment => LexAct::Go(LexState::Comment, BufOp::Push),
            LexState::InQtParam => LexAct::Go(LexState::InQtParam, BufOp::Push),
            LexState::InQtValue => LexAct::Go(LexState::InQtValue, BufOp::Push),
            LexState::InQtLex => LexAct::Go(LexState::InQtLex, BufOp::Push),
            LexState::InArrayVal => LexAct::Go(LexState::InArrayVal, BufOp::Push),
            LexState::BlankOrEnd | LexState::Begin => LexAct::Go(LexState::InLex, BufOp::Push),
            LexState::StartValue | LexState::InBreak => LexAct::Go(LexState::InValue, BufOp::Push),
            LexState::StartParam | LexState::InParamBlank => LexAct::Go(LexState::InParam, BufOp::Push),
            LexState::EscapeBreakValue => LexAct::Go(LexState::InValue, BufOp::PushBs),
            LexState::EscapeValue => LexAct::Go(LexState::InQtValue, BufOp::PushBs),
            LexState::EscapeEndArray => LexAct::Go(LexState::InArrayVal, BufOp::PushBs),
            _ => LexAct::Fault,
        }
    } else {
        match s {
            LexState::InQtLex => LexAct::Go(LexState::InQtLex, BufOp::Push),
            LexState::InQtParam => LexAct::Go(LexState::InQtParam, BufOp::Push),
            LexState::InQtValue => LexAct::Go(LexState::InQtValue, BufOp::Push),
            LexState::InArrayVal => LexAct::Go(LexState::InArrayVal, BufOp::Push),
            LexState::InLex => LexAct::Go(LexState::InLex, BufOp::Push),
            LexState::InValue => LexAct::Go(LexState::InValue, BufOp::Push),
            LexState::InParam => LexAct::Go(LexState::InParam, BufOp::Push),
            LexState::InType => LexAct::Go(LexState::InType, BufOp::Push),
            LexState::Comment => LexAct::Go(LexState::Comment, BufOp::Push),
            LexState::Begin | LexState::BlockStart | LexState::BlankOrEnd | LexState::BlockEnd => LexAct::Go(LexState::InLex, BufOp::Push),
            LexState::QuotedStart => LexAct::Go(LexState::InQtLex, BufOp::Push),
            LexState::StartParam | LexState::InParamBlank => LexAct::Go(LexState::InParam, BufOp::Push),
            LexState::BlankInValue | LexState::InBreak | LexState::StartValue => LexAct::Go(LexState::InValue, BufOp::Push),
            LexState::EscapeParam => LexAct::Go(LexState::InParam, BufOp::PushBs),
            LexState::EscapeValue => LexAct::Go(LexState::InQtValue, BufOp::PushBs),
            LexState::EscapeQtParam => LexAct::Go(LexState::InQtParam, BufOp::PushBs),
            LexState::EscapeBreakValue => LexAct::Go(LexState::InValue, BufOp::PushBs),
            LexState::EscapeEndArray => LexAct::Go(LexState::InArrayVal, BufOp::PushBs),
            LexState::EndFunction => LexAct::Ret(LexState::Begin, BufOp::Keep, Emit::Eof),
            _ => LexAct::Fault,
        }
    }
}

/// The transition table of the lexer.
pub fn lex_trans_exec(s: LexState, c: char) -> (r: LexAct)
    ensures
        r == lex_trans(s, c),
{
    if c == '"' {
        match s {
            LexState::Begin => LexAct::Go(LexState::QuotedStart, BufOp::Keep),
            LexState::InLex => LexAct::Go(LexState::InLex, BufOp::Push),
            LexState::InParam => LexAct::Go(LexState::InParam, BufOp::Push),
            LexState::InArrayVal => LexAct::Go(LexState::InArrayVal, BufOp::Push),
            LexState::InQtLex => LexAct::Go(LexState::IgnoredBlankToEnd, BufOp::Nb),
            LexState::InQtValue => LexAct::Go(LexState::InValue, BufOp::Nb),
            LexState::Escape => LexAct::Go(LexState::InQtLex, BufOp::Push),
            LexState::EscapeValue => LexAct::Go(LexState::InQtValue, BufOp::Push),
            LexState::EscapeParam => LexAct::Go(LexState::InParam, BufOp::Push),
            LexState::InQtParam => LexAct::Go(LexState::InParam, BufOp::Keep),
            LexState::StartParam => LexAct::Go(LexState::InQtParam, BufOp::Keep),
            LexState::StartValue => LexAct::Go(LexState::InQtValue, BufOp::Keep),
            LexState::Comment => LexAct::Go(LexState::Comment, BufOp::Push),
            LexState::BlankOrEnd => LexAct::Go(LexState::BlankOrEnd, BufOp::Push),
            LexState::EscapeBreakValue => LexAct::Go(LexState::InValue, BufOp::PushBs),
            LexState::EscapeEndArray => LexAct::Go(LexState::InArrayVal, BufOp::PushBs),
            LexState::InBreak => LexAct::Go(LexState::InValue, BufOp::Push),
            LexState::EscapeQtParam => LexAct::Go(LexState::InQtParam, BufOp::Push),
            _ => LexAct::Fault,
        }
    } else if c == ' ' || c == '\t' {
        match s {
            LexState::Begin => LexAct::Go(LexState::Begin, BufOp::Keep),
            LexState::BlockStart => LexAct::Go(LexState::BlockStart, BufOp::Keep),
            LexState::QuotedStart => LexAct::Go(LexState::InQtLex, BufOp::Push),
            LexState::InLex => LexAct::Go(LexState::BlankOrEnd, BufOp::NbPush),
            LexState::Escape => LexAct::Go(LexState::InLex, BufOp::Push),
            LexState::InParamBlank => LexAct::Go(LexState::InParamBlank, BufOp::Push),
            LexState::InQtParam => LexAct::Go(LexState::InQtParam, BufOp::Push),
            LexState::InQtValue => LexAct::Go(LexState::InQtValue, BufOp::Push),
            LexState::InArrayVal => LexAct::Go(LexState::InArrayVal, BufOp::Push),
            LexState::BlankOrEnd => LexAct::Go(LexState::BlankOrEnd, BufOp::Push),
            LexState::Comment => LexAct::Go(LexState::Comment, BufOp::Push),
            LexState::BlankInValue => LexAct::Go(LexState::BlankInValue, BufOp::Push),
            LexState::InParam => LexAct::Go(LexState::InParamBlank, BufOp::NbPush),
            LexState::InType => LexAct::Ret(LexState::Begin, BufOp::Keep, Emit::Type),
            LexState::EndFunction => LexAct::Go(LexState::Begin, BufOp::Keep),
            LexState::StartValue => LexAct::Go(LexState::StartValue, BufOp::Keep),
            LexState::BlockEnd => LexAct::Go(LexState::BlockEnd, BufOp::Keep),
            LexState::IgnoredBlankToEnd => LexAct::Go(LexState::IgnoredBlankToEnd, BufOp::Keep),
            LexState::StartParam => LexAct::Go(LexState::StartParam, BufOp::Keep),
            LexState::InValue => LexAct::Go(LexState::BlankInValue, BufOp::NbPush),
            LexState::EscapeValue => LexAct::Go(LexState::InQtValue, BufOp::PushBs),
            LexState::EscapeBreakValue => LexAct::Go(LexState::BlankInValue, BufOp::BsNbPush),
            LexState::InBreak => LexAct::Go(LexState::InValue, BufOp::Push),
            LexState::EscapeEndArray => LexAct::Go(LexState::InArrayVal, BufOp::PushBs),
            _ => LexAct::Fault,
        }
    } else if c == '\\' {
        match s {
            LexState::InQtLex | LexState::QuotedStart => LexAct::Go(LexState::Escape, BufOp::Keep),
            LexState::InParam => LexAct::Go(LexState::EscapeParam, BufOp::Keep),
            LexState::InQtValue => LexAct::Go(LexState::EscapeValue, BufOp::Keep),
            LexState::InQtParam => LexAct::Go(LexState::EscapeQtParam, BufOp::Keep),
            LexState::Escape => LexAct::Go(LexState::InLex, BufOp::Push),
            LexState::InLex => LexAct::Go(LexState::Escape, BufOp::Keep),
            LexState::Begin => LexAct::Go(LexState::InLex, BufOp::Push),
            LexState::BlankOrEnd => LexAct::Go(LexState::InLex, BufOp::Keep),
            LexState::StartParam => LexAct::Go(LexState::EscapeParam, BufOp::Keep),
            LexState::InParamBlank => LexAct::Go(LexState::InParam, BufOp::Push),
            LexState::Comment => LexAct::Go(LexState::Comment, BufOp::Push),
            LexState::EscapeValue => LexAct::Go(LexState::InQtValue, BufOp::PushBs),
            LexState::EscapeParam => LexAct::Go(LexState::InParam, BufOp::Push),
            LexState::InValue => LexAct::Go(LexState::EscapeBreakValue, BufOp::Keep),
            LexState::EscapeBreakValue => LexAct::Go(LexState::EscapeBreakValue, BufOp::Bs),
            LexState::EscapeEndArray => LexAct::Go(LexState::EscapeEndArray, BufOp::Bs),
            LexState::InBreak => LexAct::Go(LexState::InValue, BufOp::Push),
            LexState::InArrayVal => LexAct::Go(LexState::EscapeEndArray, BufOp::Keep),
            LexState::End => LexAct::Finish,
            _ => LexAct::Fault,
        }
    } else if c == '#' {
        match s {
            LexState::Begin | LexState::EndFunction | LexState::Comment | LexState::BlockStart | LexState::BlockEnd => LexAct::Go(LexState::Comment, BufOp::Push),
            LexState::InValue | LexState::StartValue => LexAct::Ret(LexState::Comment, BufOp::Keep, Emit::Value(Part::All)),
            LexState::BlankInValue | LexState::InBreak | LexState::BlankOrEnd => LexAct::Ret(LexState::Comment, BufOp::Keep, Emit::Value(Part::LastNb)),
            LexState::InQtValue => LexAct::Go(LexState::InQtValue, BufOp::Push),
            LexState::InQtParam => LexAct::Go(LexState::InQtParam, BufOp::Push),
            LexState::InQtLex => LexAct::Go(LexState::InQtLex, BufOp::Push),
            LexState::EscapeValue => LexAct::Go(LexState::InQtValue, BufOp::PushBs),
            LexState::EscapeBreakValue => LexAct::Ret(LexState::Comment, BufOp::Bs, Emit::Value(Part::All)),
            LexState::InArrayVal | LexState::StartParam | LexState::InParam => LexAct::SaveComment,
            LexState::EscapeEndArray => LexAct::Go(LexState::InArrayVal, BufOp::Push),
            _ => LexAct::Fault,
        }
    } else if c == '\n' || c == '\r' {
        match s {
            LexState::Comment => LexAct::EndComment,
            LexState::Begin => LexAct::Go(LexState::Begin, BufOp::Keep),
            LexState::BlockStart => LexAct::Go(LexState::BlockStart, BufOp::Keep),
            LexState::StartParam => LexAct::Go(LexState::StartParam, BufOp::Keep),
            LexState::RangeStart => LexAct::Go(LexState::RangeStart, BufOp::Keep),
            LexState::InValue | LexState::StartValue => LexAct::Ret(LexState::Begin, BufOp::Keep, Emit::Value(Part::All)),
            LexState::BlankInValue => LexAct::Ret(LexState::Begin, BufOp::Keep, Emit::Value(Part::LastNb)),
            LexState::EndFunction | LexState::BlockEnd => LexAct::Go(LexState::Begin, BufOp::Keep),
            LexState::InType => LexAct::Ret(LexState::Begin, BufOp::Keep, Emit::Type),
            LexState::InQtParam => LexAct::Go(LexState::InQtParam, BufOp::Push),
            LexState::InParamBlank => LexAct::Go(LexState::InParamBlank, BufOp::Push),
            LexState::InQtValue => LexAct::Go(LexState::InQtValue, BufOp::Push),
            LexState::InArrayVal => LexAct::Go(LexState::InArrayVal, BufOp::Push),
            LexState::EscapeValue => LexAct::Go(LexState::InQtValue, BufOp::PushBs),
            LexState::InParam => LexAct::Go(LexState::InParamBlank, BufOp::NbPush),
            LexState::EscapeEndArray => LexAct::Go(LexState::InArrayVal, BufOp::PushBs),
            LexState::InLex | LexState::BlankOrEnd => LexAct::Go(LexState::BlankOrEnd, BufOp::Keep),
            LexState::EscapeBreakValue | LexState::InBreak => LexAct::Go(LexState::InBreak, BufOp::Keep),
            _ => LexAct::Fault,
        }
    } else if c == '[' {
        match s {
            LexState::BlankOrEnd => LexAct::Go(LexState::RangeStart, BufOp::Keep),
            LexState::InQtLex => LexAct::Go(LexState::InQtLex, BufOp::Push),
            LexState::InQtValue => LexAct::Go(LexState::InQtValue, BufOp::Push),
            LexState::InQtParam => LexAct::Go(LexState::InQtParam, BufOp::Push),
            LexState::InArrayVal => LexAct::Go(LexState::InArrayVal, BufOp::Push),
            LexState::Comment => LexAct::Go(LexState::Comment, BufOp::Push),
            LexState::InValue => LexAct::Go(LexState::InValue, BufOp::Push),
            LexState::InParam => LexAct::Go(LexState::InParam, BufOp::Push),
            LexState::InLex => LexAct::Ret(LexState::RangeStart, BufOp::Keep, Emit::Variable(Part::All)),
            LexState::InParamBlank | LexState::EndFunction | LexState::StartParam => LexAct::Go(LexState::InParam, BufOp::Push),
            LexState::EscapeValue => LexAct::Go(LexState::InQtValue, BufOp::PushBs),
            LexState::EscapeParam => LexAct::Go(LexState::InParam, BufOp::PushBs),
            LexState::StartValue => LexAct::Go(LexState::InArrayVal, BufOp::Push),
            LexState::EscapeBreakValue => LexAct::Go(LexState::InValue, BufOp::PushBs),
            LexState::InBreak => LexAct::Go(LexState::InValue, BufOp::Push),
            LexState::EscapeEndArray => LexAct::Go(LexState::InArrayVal, BufOp::PushBs),
            _ => LexAct::Fault,
        }
    } else if c == ']' {
        match s {
            LexState::Comment => LexAct::Go(LexState::Comment, BufOp::Push),
            LexState::InValue => LexAct::Go(LexState::InValue, BufOp::Push),
            LexState::InParam => LexAct::Go(LexState::InParam, BufOp::Push),
            LexState::InQtLex => LexAct::Go(LexState::InQtLex, BufOp::Push),
            LexState::InQtValue => LexAct::Go(LexState::InQtValue, BufOp::Push),
            LexState::InQtParam => LexAct::Go(LexState::InQtParam, BufOp::Push),
            LexState::StartValue | LexState::InBreak => LexAct::Go(LexState::InValue, BufOp::Push),
            LexState::EscapeBreakValue => LexAct::Go(LexState::InValue, BufOp::PushBs),
            LexState::EscapeParam => LexAct::Go(LexState::InParam, BufOp::PushBs),
            LexState::EscapeValue => LexAct::Go(LexState::InQtValue, BufOp::PushBs),
            LexState::EscapeEndArray => LexAct::Go(LexState::InArrayVal, BufOp::Push),
            LexState::InArrayVal => LexAct::Ret(LexState::Begin, BufOp::Push, Emit::Value(Part::All)),
            LexState::InType => LexAct::Ret(LexState::UnrecoverableErr, BufOp::Keep, Emit::Eof),
            _ => LexAct::Fault,
        }
    } else if c == '{' {
        match s {
            LexState::InValue => LexAct::Go(LexState::InValue, BufOp::Push),
            LexState::InQtParam => LexAct::Go(LexState::InQtParam, BufOp::Push),
            LexState::InQtLex => LexAct::Go(LexState::InQtLex, BufOp::Push),
            LexState::InParam => LexAct::Go(LexState::InParam, BufOp::Push),
            LexState::Comment => LexAct::Go(LexState::Comment, BufOp::Push),
            LexState::InQtValue => LexAct::Go(LexState::InQtValue, BufOp::Push),
            LexState::InArrayVal => LexAct::Go(LexState::InArrayVal, BufOp::Push),
            LexState::InLex | LexState::BlankOrEnd => LexAct::Ret(LexState::BlockStart, BufOp::Keep, Emit::BlockHdr),
            LexState::BlockEnd | LexState::Begin | LexState::BlockStart => LexAct::Ret(LexState::BlockStart, BufOp::Keep, Emit::HdrEmpty),
            LexState::InParamBlank | LexState::StartParam => LexAct::Go(LexState::InParam, BufOp::Push),
            LexState::EscapeValue => LexAct::Go(LexState::InQtValue, BufOp::PushBs),
            LexState::EscapeBreakValue => LexAct::Go(LexState::InValue, BufOp::PushBs),
            LexState::InBreak => LexAct::Go(LexState::InValue, BufOp::Push),
            LexState::EscapeEndArray => LexAct::Go(LexState::InArrayVal, BufOp::PushBs),
            _ => LexAct::Fault,
        }
    } else if c == '}' {
        match s {
            LexState::Begin | LexState::BlockStart | LexState::BlockEnd => LexAct::Ret(LexState::BlockEnd, BufOp::Keep, Emit::BlockEndNone),
            LexState::InParam => LexAct::Go(LexState::InParam, BufOp::Push),
            LexState::InValue => LexAct::Go(LexState::InValue, BufOp::Push),
            LexState::InQtParam => LexAct::Go(LexState::InQtParam, BufOp::Push),
            LexState::Comment => LexAct::Go(LexState::Comment, BufOp::Push),
            LexState::InQtValue => LexAct::Go(LexState::InQtValue, BufOp::Push),
            LexState::InArrayVal => LexAct::Go(LexState::InArrayVal, BufOp::Push),
            LexState::InParamBlank => LexAct::Go(LexState::InParam, BufOp::Push),
            LexState::InLex | LexState::BlankOrEnd | LexState::EndFunction => LexAct::Ret(LexState::BlockEnd, BufOp::Keep, Emit::BlockEndSome),
            LexState::EscapeValue => LexAct::Go(LexState::InQtValue, BufOp::PushBs),
            LexState::EscapeBreakValue => LexAct::Go(LexState::InValue, BufOp::PushBs),
            LexState::InBreak => LexAct::Go(LexState::InValue, BufOp::Push),
            LexState::EscapeEndArray => LexAct::Go(LexState::InArrayVal, BufOp::PushBs),
            _ => LexAct::Fault,
        }
    } else if c == ';' {
        match s {
            LexState::EndFunction | LexState::BlockEnd | LexState::Begin => LexAct::Go(LexState::Begin, BufOp::Keep),
            LexState::Comment => LexAct::Go(LexState::Comment, BufOp::Push),
            LexState::InParam => LexAct::Go(LexState::InParam, BufOp::Push),
            LexState::InQtParam => LexAct::Go(LexState::InQtParam, BufOp::Push),
            LexState::InQtValue => LexAct::Go(LexState::InQtValue, BufOp::Push),
            LexState::InQtLex => LexAct::Go(LexState::InQtLex, BufOp::Push),
            LexState::InArrayVal => LexAct::Go(LexState::InArrayVal, BufOp::Push),
            LexState::InParamBlank => LexAct::Go(LexState::InParam, BufOp::Push),
            LexState::EscapeValue => LexAct::Go(LexState::InQtValue, BufOp::PushBs),
            LexState::EscapeBreakValue => LexAct::Ret(LexState::Begin, BufOp::Bs, Emit::Value(Part::All)),
            LexState::InValue | LexState::InBreak | LexState::InLex => LexAct::Ret(LexState::Begin, BufOp::Keep, Emit::Value(Part::All)),
            LexState::EscapeEndArray => LexAct::Go(LexState::InArrayVal, BufOp::PushBs),
            _ => LexAct::Fault,
        }
    } else if c == ':' {
        match s {
            LexState::BlankOrEnd | LexState::Begin => LexAct::Go(LexState::InLex, BufOp::Push),
            LexState::InValue | LexState::BlankInValue => LexAct::Ret(LexState::InType, BufOp::Nb, Emit::Value(Part::LastNb)),
            LexState::InParam => LexAct::Go(LexState::InParam, BufOp::Push),
            LexState::InLex => LexAct::Go(LexState::InLex, BufOp::Push),
            LexState::Comment => LexAct::Go(LexState::Comment, BufOp::Push),
            LexState::InQtParam => LexAct::Go(LexState::InQtParam, BufOp::Push),
            LexState::InQtValue => LexAct::Go(LexState::InQtValue, BufOp::Push),
            LexState::InQtLex => LexAct::Go(LexState::InQtLex, BufOp::Push),
            LexState::InArrayVal => LexAct::Go(LexState::InArrayVal, BufOp::Push),
            LexState::InParamBlank => LexAct::Go(LexState::InParam, BufOp::Push),
            LexState::EscapeValue => LexAct::Go(LexState::InQtValue, BufOp::PushBs),
            LexState::EscapeBreakValue => LexAct::Go(LexState::InValue, BufOp::PushBs),
            LexState::InBreak => LexAct::Go(LexState::InValue, BufOp::Push),
            LexState::EscapeEndArray => LexAct::Go(LexState::InArrayVal, BufOp::PushBs),
            _ => LexAct::Fault,
        }
    } else if c == '=' {
        match s {
            LexState::BlankOrEnd | LexState::IgnoredBlankToEnd => LexAct::Ret(LexState::StartValue, BufOp::Keep, Emit::Variable(Part::LastNb)),
            LexState::InLex => LexAct::Ret(LexState::StartValue, BufOp::Keep, Emit::Variable(Part::All)),
            LexState::Comment => LexAct::Go(LexState::Comment, BufOp::Push),
            LexState::InParam => LexAct::Go(LexState::InParam, BufOp::Push),
            LexState::InQtParam => LexAct::Go(LexState::InQtParam, BufOp::Push),
            LexState::InQtValue => LexAct::Go(LexState::InQtValue, BufOp::Push),
            LexState::InQtLex => LexAct::Go(LexState::InQtLex, BufOp::Push),
            LexState::InArrayVal => LexAct::Go(LexState::InArrayVal, BufOp::Push),
            LexState::InValue => LexAct::Go(LexState::InValue, BufOp::Push),
            LexState::InParamBlank => LexAct::Go(LexState::InParam, BufOp::Push),
            LexState::EscapeValue => LexAct::Go(LexState::InQtValue, BufOp::PushBs),
            LexState::EscapeEndArray => LexAct::Go(LexState::InArrayVal, BufOp::PushBs),
            _ => LexAct::Fault,
        }
    } else if c == '(' {
        match s {
            LexState::InLex | LexState::BlankOrEnd => LexAct::Ret(LexState::StartParam, BufOp::Keep, Emit::Function),
            LexState::InValue => LexAct::Go(LexState::InValue, BufOp::Push),
            LexState::InParam => LexAct::Go(LexState::InParam, BufOp::Push),
            LexState::InQtParam => LexAct::Go(LexState::InQtParam, BufOp::Push),
            LexState::Comment => LexAct::Go(LexState::Comment, BufOp::Push),
            LexState::InQtValue => LexAct::Go(LexState::InQtValue, BufOp::Push),
            LexState::InQtLex => LexAct::Go(LexState::InQtLex, BufOp::Push),
            LexState::InArrayVal => LexAct::Go(LexState::InArrayVal, BufOp::Push),
            LexState::StartParam => LexAct::Go(LexState::InParam, BufOp::Push),
            LexState::Begin => LexAct::Go(LexState::InLex, BufOp::Push),
            LexState::EscapeBreakValue => LexAct::Go(LexState::InValue, BufOp::PushBs),
            LexState::EscapeValue => LexAct::Go(LexState::InQtValue, BufOp::PushBs),
            LexState::InBreak => LexAct::Go(LexState::InValue, BufOp::Push),
            LexState::EscapeEndArray => LexAct::Go(LexState::InArrayVal, BufOp::PushBs),
            _ => LexAct::Fault,
        }
    } else if c == ')' {
        match s {
            LexState::InParam => LexAct::Ret(LexState::EndFunction, BufOp::Keep, Emit::Parameter(Part::All)),
            LexState::InParamBlank => LexAct::Ret(LexState::EndFunction, BufOp::Keep, Emit::Parameter(Part::LastNb)),
            LexState::StartParam => LexAct::Ret(LexState::EndFunction, BufOp::Keep, Emit::Parameter(Part::All)),
            LexState::InValue => LexAct::Go(LexState::InValue, BufOp::Push),
            LexState::InQtParam => LexAct::Go(LexState::InQtParam, BufOp::Push),
            LexState::Comment => LexAct::Go(LexState::Comment, BufOp::Push),
            LexState::InQtValue => LexAct::Go(LexState::InQtValue, BufOp::Push),
            LexState::InQtLex => LexAct::Go(LexState::InQtLex, BufOp::Push),
            LexState::InArrayVal => LexAct::Go(LexState::InArrayVal, BufOp::Push),
            LexState::InLex => LexAct::Go(LexState::InLex, BufOp::Push),
            LexState::Begin => LexAct::Go(LexState::InLex, BufOp::Push),
            LexState::EscapeBreakValue => LexAct::Go(LexState::InValue, BufOp::PushBs),
            LexState::EscapeValue => LexAct::Go(LexState::InQtValue, BufOp::PushBs),
            LexState::InBreak => LexAct::Go(LexState::InValue, BufOp::Push),
            LexState::EscapeEndArray => LexAct::Go(LexState::InArrayVal, BufOp::PushBs),
            _ => LexAct::Fault,
        }
    } else if '0' <= c && c <= '9' {
        match s {
            LexState::InParam => LexAct::Go(LexState::InParam, BufOp::Push),
            LexState::InValue => LexAct::Go(LexState::InValue, BufOp::Push),
            LexState::Comment => LexAct::Go(LexState::Comment, BufOp::Push),
            LexState::InLex => LexAct::Go(LexState::InLex, BufOp::Push),
            LexState::InQtParam => LexAct::Go(LexState::InQtParam, BufOp::Push),
            LexState::InQtValue => LexAct::Go(LexState::InQtValue, BufOp::Push),
            LexState::InQtLex => LexAct::Go(LexState::InQtLex, BufOp::Push),
            LexState::InArrayVal => LexAct::Go(LexState::InArrayVal, BufOp::Push),
            LexState::StartParam | LexState::InParamBlank => LexAct::Go(LexState::InParam, BufOp::Push),
            LexState::StartValue | LexState::InBreak => LexAct::Go(LexState::InValue, BufOp::Push),
            LexState::Begin | LexState::BlankOrEnd => LexAct::Go(LexState::InLex, BufOp::Push),
            LexState::EscapeBreakValue => LexAct::Go(LexState::InValue, BufOp::PushBs),
            LexState::EscapeValue => LexAct::Go(LexState::InQtValue, BufOp::PushBs),
            LexState::EscapeQtParam => LexAct::Go(LexState::InQtParam, BufOp::PushBs),
            LexState::EscapeEndArray => LexAct::Go(LexState::InArrayVal, BufOp::PushBs),
            LexState::EscapeParam => LexAct::Go(LexState::InParam, BufOp::PushBs),
            _ => LexAct::Fault,
        }
    } else if c == ',' {
        match s {
            LexState::InParam | LexState::InParamBlank => LexAct::Ret(LexState::StartParam, BufOp::Keep, Emit::Parameter(Part::All)),
            LexState::StartParam => LexAct::Ret(LexState::StartParam, BufOp::Keep, Emit::ParamEmpty),
            LexState::InValue => LexAct::Go(LexState::InValue, BufOp::Push),
            LexState::InQtParam => LexAct::Go(LexState::InQtParam, BufOp::Push),
            LexState::Comment => LexAct::Go(LexState::Comment, BufOp::Push),
            LexState::InQtValue => LexAct::Go(LexState::InQtValue, BufOp::Push),
            LexState::InQtLex => LexAct::Go(LexState::InQtLex, BufOp::Push),
            LexState::InArrayVal => LexAct::Go(LexState::InArrayVal, BufOp::Push),
            LexState::BlankInValue => LexAct::Go(LexState::BlankInValue, BufOp::Push),
            LexState::InLex => LexAct::Go(LexState::InLex, BufOp::Push),
            LexState::Begin => LexAct::Go(LexState::InLex, BufOp::Push),
            LexState::EscapeBreakValue => LexAct::Go(LexState::InValue, BufOp::PushBs),
            LexState::EscapeValue => LexAct::Go(LexState::InQtValue, BufOp::PushBs),
            LexState::InBreak | LexState::StartValue => LexAct::Go(LexState::InValue, BufOp::Push),
            LexState::EscapeEndArray => LexAct::Go(LexState::InArrayVal, BufOp::PushBs),
            _ => LexAct::Fault,
        }
    } else if c == '.' {
        match s {
            LexState::InValue => LexAct::Go(LexState::InValue, BufOp::Push),
            LexState::InLex => LexAct::Go(LexState::InLex, BufOp::Push),
            LexState::InParam => LexAct::Go(LexState::InParam, BufOp::Push),
            LexState::Comment => LexAct::Go(LexState::Comment, BufOp::Push),
            LexState::InQtParam => LexAct::Go(LexState::InQtParam, BufOp::Push),
            LexState::InQtValue => LexAct::Go(LexState::InQtValue, BufOp::Push),
            LexState::InQtLex => LexAct::Go(LexState::InQtLex, BufOp::Push),
            LexState::InArrayVal => LexAct::Go(LexState::InArrayVal, BufOp::Push),
            LexState::BlankOrEnd | LexState::Begin => LexAct::Go(LexState::InLex, BufOp::Push),
            LexState::StartValue | LexState::InBreak => LexAct::Go(LexState::InValue, BufOp::Push),
            LexState::StartParam | LexState::InParamBlank => LexAct::Go(LexState::InParam, BufOp::Push),
            LexState::EscapeBreakValue => LexAct::Go(LexState::InValue, BufOp::PushBs),
            LexState::EscapeValue => LexAct::Go(LexState::InQtValue, BufOp::PushBs),
            LexState::EscapeEndArray => LexAct::Go(LexState::InArrayVal, BufOp::PushBs),
            _ => LexAct::Fault,
        }
    } else {
        match s {
            LexState::InQtLex => LexAct::Go(LexState::InQtLex, BufOp::Push),
            LexState::InQtParam => LexAct::Go(LexState::InQtParam, BufOp::Push),
            LexState::InQtValue => LexAct::Go(LexState::InQtValue, BufOp::Push),
            LexState::InArrayVal => LexAct::Go(LexState::InArrayVal, BufOp::Push),
            LexState::InLex => LexAct::Go(LexState::InLex, BufOp::Push),
            LexState::InValue => LexAct::Go(LexState::InValue, BufOp::Push),
            LexState::InParam => LexAct::Go(LexState::InParam, BufOp::Push),
            LexState::InType => LexAct::Go(LexState::InType, BufOp::Push),
            LexState::Comment => LexAct::Go(LexState::Comment, BufOp::Push),
            LexState::Begin | LexState::BlockStart | LexState::BlankOrEnd | LexState::BlockEnd => LexAct::Go(LexState::InLex, BufOp::Push),
            LexState::QuotedStart => LexAct::Go(LexState::InQtLex, BufOp::Push),
            LexState::StartParam | LexState::InParamBlank => LexAct::Go(LexState::InParam, BufOp::Push),
            LexState::BlankInValue | LexState::InBreak | LexState::StartValue => LexAct::Go(LexState::InValue, BufOp::Push),
            LexState::EscapeParam => LexAct::Go(LexState::InParam, BufOp::PushBs),
            LexState::EscapeValue => LexAct::Go(LexState::InQtValue, BufOp::PushBs),
            LexState::EscapeQtParam => LexAct::Go(LexState::InQtParam, BufOp::PushBs),
            LexState::EscapeBreakValue => LexAct::Go(LexState::InValue, BufOp::PushBs),
            LexState::EscapeEndArray => LexAct::Go(LexState::InArrayVal, BufOp::PushBs),
            LexState::EndFunction => LexAct::Ret(LexState::Begin, BufOp::Keep, Emit::Eof),
            _ => LexAct::Fault,
        }
    }
}

/// A lexeme as characters.
pub enum LexView {
    Variable(Seq<char>),
    Value(Seq<char>),
    Comment(Seq<char>),
    Type(Seq<char>),
    Range(nat, nat),
    Function(Seq<char>),
    Parameter(Seq<char>),
    BlockHdr(Seq<char>),
    BlockEnd(Option<Seq<char>>),
    Eof,
}

impl View for Lexem {
    type V = LexView;

    open spec fn view(&self) -> LexView {
        match self {
            Lexem::Variable(s) => LexView::Variable(s@),
            Lexem::Value(s) => LexView::Value(s@),
            Lexem::Comment(s) => LexView::Comment(s@),
            Lexem::Type(s) => LexView::Type(s@),
            Lexem::Range(a, b) => LexView::Range(*a as nat, *b as nat),
            Lexem::Function(s) => LexView::Function(s@),
            Lexem::Parameter(s) => LexView::Parameter(s@),
            Lexem::BlockHdr(s) => LexView::BlockHdr(s@),
            Lexem::BlockEnd(o) => LexView::BlockEnd(
                match o {
                    Some(s) => Some(s@),
                    None => None,
                },
            ),
            Lexem::EOF => LexView::Eof,
        }
    }
}

/// The longest lexeme the lexer holds.
pub const MAX_LEX_LEN: usize = 16384;

/// The lexer between two characters of one call.
pub struct LexCtx {
    pub state: LexState,
    pub buf: Seq<char>,
    pub last_nb: nat,
    pub prev_state: LexState,
    pub prev_buf: Seq<char>,
}

/// `b` up to `n`, or all of `b` when `n` is past its end.
pub open spec fn clip(b: Seq<char>, n: nat) -> Seq<char> {
    if n <= b.len() { b.take(n as int) } else { b }
}

/// The part of the buffer a lexeme takes.
pub open spec fn part_text(ctx: LexCtx, p: Part) -> Seq<char> {
    match p {
        Part::All => ctx.buf,
        Part::LastNb => clip(ctx.buf, ctx.last_nb),
    }
}

/// The lexeme yielded from the buffer.
pub open spec fn emit_lexem(ctx: LexCtx, e: Emit) -> LexView {
    match e {
        Emit::Variable(p) => LexView::Variable(part_text(ctx, p)),
        Emit::Value(p) => LexView::Value(part_text(ctx, p)),
        Emit::Type => LexView::Type(ctx.buf),
        Emit::Function => LexView::Function(ctx.buf),
        Emit::Parameter(p) => LexView::Parameter(part_text(ctx, p)),
        Emit::ParamEmpty => LexView::Parameter(seq![]),
        Emit::BlockHdr => LexView::BlockHdr(ctx.buf),
        Emit::HdrEmpty => LexView::BlockHdr(seq![]),
        Emit::BlockEndNone => LexView::BlockEnd(None),
        Emit::BlockEndSome => LexView::BlockEnd(Some(ctx.buf)),
        Emit::Eof => LexView::Eof,
    }
}

/// A buffer operation; `None` where the buffer would outgrow `MAX_LEX_LEN`.
pub open spec fn apply_op(ctx: LexCtx, op: BufOp, c: char) -> Option<LexCtx> {
    let b = ctx.buf;
    let (nb, lnb) = match op {
        BufOp::Keep => (b, ctx.last_nb),
        BufOp::Push => (b.push(c), ctx.last_nb),
        BufOp::PushBs => (b.push('\\').push(c), ctx.last_nb),
        BufOp::Bs => (b.push('\\'), ctx.last_nb),
        BufOp::NbPush => (b.push(c), b.len()),
        BufOp::BsNbPush => (b.push('\\').push(c), b.len() + 1),
        BufOp::Nb => (b, b.len()),
    };
    if nb.len() > MAX_LEX_LEN {
        None
    } else {
        Some(LexCtx { buf: nb, last_nb: lnb, ..ctx })
    }
}

/// The lexer at the end of the text; `None` where it has no rule.
pub open spec fn lex_finish(ctx: LexCtx) -> Option<(LexView, LexState)> {
    match ctx.state {
        LexState::InQtLex | LexState::EndFunction | LexState::InParam | LexState::Begin | LexState::End
        | LexState::BlockEnd => Some((LexView::Eof, ctx.state)),
        LexState::InLex => Some((LexView::Variable(ctx.buf), LexState::InLex)),
        LexState::InValue => Some((LexView::Value(ctx.buf), LexState::Begin)),
        LexState::InType => Some((LexView::Type(ctx.buf), LexState::End)),
        LexState::Comment => Some((LexView::Comment(ctx.buf), LexState::End)),
        _ => None,
    }
}

/// The lexer run over `cs` from index `i` with line counter `line`: the
/// lexeme, the state after it, the index after the last character read and
/// the line counter then; `None` where the lexer has no rule or a lexeme
/// outgrows `MAX_LEX_LEN`.
pub open spec fn lex_loop(cs: Seq<char>, i: int, line: int, ctx: LexCtx) -> Option<(LexView, LexState, int, int)>
    decreases cs.len() - i,
{
    if i >= cs.len() || i < 0 {
        match lex_finish(ctx) {
            Some((l, s)) => Some((l, s, i, line)),
            None => None,
        }
    } else {
        let c = cs[i];
        let line2 = if c == '\n' { line + 1 } else { line };
        match lex_trans(ctx.state, c) {
            LexAct::Go(s2, op) => match apply_op(ctx, op, c) {
                Some(ctx2) => lex_loop(cs, i + 1, line2, LexCtx { state: s2, ..ctx2 }),
                None => None,
            },
            LexAct::Ret(s2, op, e) => match apply_op(ctx, op, c) {
                Some(ctx2) => Some((emit_lexem(ctx2, e), s2, i + 1, line2)),
                None => None,
            },
            LexAct::SaveComment => lex_loop(
                cs,
                i + 1,
                line2,
                LexCtx { state: LexState::Comment, prev_state: ctx.state, prev_buf: ctx.buf, buf: seq![c], ..ctx },
            ),
            LexAct::EndComment => {
                let s2 = ctx.prev_state;
                if s2 != LexState::InArrayVal {
                    Some((LexView::Comment(ctx.buf), s2, i + 1, line2))
                } else {
                    lex_loop(
                        cs,
                        i + 1,
                        line2,
                        LexCtx { state: s2, prev_state: LexState::Begin, buf: ctx.prev_buf, ..ctx },
                    )
                }
            },
            LexAct::Finish => match lex_finish(ctx) {
                Some((l, s)) => Some((l, s, i + 1, line2)),
                None => None,
            },
            LexAct::Fault => None,
        }
    }
}

/// One call of the lexer from index `pos` in state `state`.
pub open spec fn spec_read_lex(cs: Seq<char>, pos: int, line: int, state: LexState) -> Option<(LexView, LexState, int, int)> {
    lex_loop(
        cs,
        pos,
        line,
        LexCtx { state, buf: seq![], last_nb: 0, prev_state: LexState::Begin, prev_buf: seq![] },
    )
}

/// The characters of a script and the lexer's place in them.
pub struct Reader {
    pub chars: Vec<char>,
    pub pos: usize,
    pub line: u32,
}

impl Reader {
    /// A reader at the start of `chars`, on line 1.
    pub fn new(chars: Vec<char>) -> (r: Reader)
        ensures
            r.chars@ == chars@,
            r.pos == 0,
            r.line == 1,
    {
        Reader { chars, pos: 0, line: 1 }
    }
}

struct CtxExec {
    state: LexState,
    buf: Vec<char>,
    last_nb: usize,
    prev_state: LexState,
    prev_buf: Vec<char>,
}

impl CtxExec {
    spec fn view(&self) -> LexCtx {
        LexCtx {
            state: self.state,
            buf: self.buf@,
            last_nb: self.last_nb as nat,
            prev_state: self.prev_state,
            prev_buf: self.prev_buf@,
        }
    }
}

fn apply_op_exec(ctx: &mut CtxExec, op: BufOp, c: char) -> (ok: bool)
    requires
        old(ctx).buf@.len() <= MAX_LEX_LEN,
    ensures
        match apply_op(old(ctx).view(), op, c) {
            Some(n) => ok && final(ctx).view() == n,
            None => !ok,
        },
        ok ==> final(ctx).buf@.len() <= MAX_LEX_LEN,
{
    let n = ctx.buf.len();
    match op {
        BufOp::Keep => true,
        BufOp::Push => {
            if n >= MAX_LEX_LEN { return false; }
            ctx.buf.push(c);
            true
        },
        BufOp::PushBs => {
            if n + 2 > MAX_LEX_LEN { return false; }
            ctx.buf.push('\\');
            ctx.buf.push(c);
            true
        },
        BufOp::Bs => {
            if n >= MAX_LEX_LEN { return false; }
            ctx.buf.push('\\');
            true
        },
        BufOp::NbPush => {
            if n >= MAX_LEX_LEN { return false; }
            ctx.last_nb = n;
            ctx.buf.push(c);
            true
        },
        BufOp::BsNbPush => {
            if n + 2 > MAX_LEX_LEN { return false; }
            ctx.buf.push('\\');
            ctx.last_nb = n + 1;
            ctx.buf.push(c);
            true
        },
        BufOp::Nb => {
            ctx.last_nb = n;
            true
        },
    }
}

fn part_exec(ctx: &CtxExec, p: Part) -> (r: String)
    ensures
        r@ == part_text(ctx.view(), p),
{
    match p {
        Part::All => string_from_chars(&ctx.buf),
        Part::LastNb => {
            if ctx.last_nb <= ctx.buf.len() {
                let v = crate::text::slice_chars(&ctx.buf, 0, ctx.last_nb);
                assert(v@ =~= ctx.buf@.take(ctx.last_nb as int));
                string_from_chars(&v)
            } else {
                string_from_chars(&ctx.buf)
            }
        },
    }
}

fn emit_exec(ctx: &CtxExec, e: Emit) -> (r: Lexem)
    ensures
        r@ == emit_lexem(ctx.view(), e),
{
    match e {
        Emit::Variable(p) => Lexem::Variable(part_exec(ctx, p)),
        Emit::Value(p) => Lexem::Value(part_exec(ctx, p)),
        Emit::Type => Lexem::Type(string_from_chars(&ctx.buf)),
        Emit::Function => Lexem::Function(string_from_chars(&ctx.buf)),
        Emit::Parameter(p) => Lexem::Parameter(part_exec(ctx, p)),
        Emit::ParamEmpty => {
            let e: Vec<char> = Vec::new();
            let s = string_from_chars(&e);
            assert(s@ =~= seq![]);
            Lexem::Parameter(s)
        },
        Emit::BlockHdr => Lexem::BlockHdr(string_from_chars(&ctx.buf)),
        Emit::HdrEmpty => {
            let e: Vec<char> = Vec::new();
            let s = string_from_chars(&e);
            assert(s@ =~= seq![]);
            Lexem::BlockHdr(s)
        },
        Emit::BlockEndNone => Lexem::BlockEnd(None),
        Emit::BlockEndSome => Lexem::BlockEnd(Some(string_from_chars(&ctx.buf))),
        Emit::Eof => Lexem::EOF,
    }
}

fn finish_exec(ctx: &CtxExec) -> (r: Option<(Lexem, LexState)>)
    ensures
        match lex_finish(ctx.view()) {
            Some((l, s)) => r matches Some((lx, s2)) && lx@ == l && s2 == s,
            None => r is None,
        },
{
    match ctx.state {
        LexState::InQtLex | LexState::EndFunction | LexState::InParam | LexState::Begin | LexState::End
        | LexState::BlockEnd => Some((Lexem::EOF, ctx.state)),
        LexState::InLex => Some((Lexem::Variable(string_from_chars(&ctx.buf)), LexState::InLex)),
        LexState::InValue => Some((Lexem::Value(string_from_chars(&ctx.buf)), LexState::Begin)),
        LexState::InType => Some((Lexem::Type(string_from_chars(&ctx.buf)), LexState::End)),
        LexState::Comment => Some((Lexem::Comment(string_from_chars(&ctx.buf)), LexState::End)),
        _ => None,
    }
}

/// Reads one lexeme from `reader`, starting in `state`: the lexeme, the state
/// after it and the line then; `None` where the lexer has no rule for a
/// character or a lexeme outgrows `MAX_LEX_LEN` (see `spec_read_lex`).
pub fn read_lex(reader: &mut Reader, state: LexState) -> (r: Option<(Lexem, LexState, u32)>)
    requires
        old(reader).pos <= old(reader).chars@.len(),
        old(reader).line as int + old(reader).chars@.len() - old(reader).pos <= u32::MAX,
    ensures
        final(reader).chars@ == old(reader).chars@,
        old(reader).pos <= final(reader).pos <= final(reader).chars@.len(),
        final(reader).line as int + final(reader).chars@.len() - final(reader).pos <= u32::MAX,
        match spec_read_lex(old(reader).chars@, old(reader).pos as int, old(reader).line as int, state) {
            Some((l, s, p, ln)) => r matches Some((lx, s2, ln2)) && lx@ == l && s2 == s
                && final(reader).pos == p && final(reader).line == ln && ln2 == ln,
            None => r is None,
        },
{
    let mut ctx = CtxExec {
        state,
        buf: Vec::new(),
        last_nb: 0,
        prev_state: LexState::Begin,
        prev_buf: Vec::new(),
    };
    let ghost start = ctx.view();
    let ghost pos0 = reader.pos;
    let ghost line0 = reader.line;
    assert(start == LexCtx { state, buf: seq![], last_nb: 0, prev_state: LexState::Begin, prev_buf: seq![] });
    while reader.pos < reader.chars.len()
        invariant
            reader.chars@ == old(reader).chars@,
            pos0 == old(reader).pos,
            line0 == old(reader).line,
            pos0 <= reader.pos <= reader.chars@.len(),
            reader.line - line0 <= reader.pos - pos0,
            reader.line >= line0,
            line0 as int + reader.chars@.len() - pos0 <= u32::MAX,
            ctx.buf@.len() <= MAX_LEX_LEN,
            ctx.prev_buf@.len() <= MAX_LEX_LEN,
            lex_loop(reader.chars@, reader.pos as int, reader.line as int, ctx.view())
                == spec_read_lex(old(reader).chars@, pos0 as int, line0 as int, state),
        decreases reader.chars@.len() - reader.pos,
    {
        let c = reader.chars[reader.pos];
        reader.pos += 1;
        if c == '\n' {
            reader.line += 1;
        }
        match lex_trans_exec(ctx.state, c) {
            LexAct::Go(s2, op) => {
                if !apply_op_exec(&mut ctx, op, c) {
                    return None;
                }
                ctx.state = s2;
            },
            LexAct::Ret(s2, op, e) => {
                if !apply_op_exec(&mut ctx, op, c) {
                    return None;
                }
                let l = emit_exec(&ctx, e);
                return Some((l, s2, reader.line));
            },
            LexAct::SaveComment => {
                let mut b: Vec<char> = Vec::new();
                b.push(c);
                ctx.prev_state = ctx.state;
                ctx.prev_buf = ctx.buf;
                ctx.buf = b;
                ctx.state = LexState::Comment;
                assert(ctx.buf@ =~= seq![c]);
            },
            LexAct::EndComment => {
                let s2 = ctx.prev_state;
                if s2 != LexState::InArrayVal {
                    let l = Lexem::Comment(string_from_chars(&ctx.buf));
                    return Some((l, s2, reader.line));
                } else {
                    ctx.state = s2;
                    ctx.prev_state = LexState::Begin;
                    let n = ctx.prev_buf.len();
                    ctx.buf = crate::text::slice_chars(&ctx.prev_buf, 0, n);
                    assert(ctx.buf@ =~= ctx.prev_buf@);
                }
            },
            LexAct::Finish => {
                return match finish_exec(&ctx) {
                    Some((l, s)) => Some((l, s, reader.line)),
                    None => None,
                };
            },
            LexAct::Fault => {
                return None;
            },
        }
    }
    match finish_exec(&ctx) {
        Some((l, s)) => Some((l, s, reader.line)),
        None => None,
    }
}


/// A Unicode scalar value: at most `0x10FFFF` and not a surrogate.
pub open spec fn is_scalar(v: u32) -> bool {
    v <= 0x10FFFF && !(0xD800 <= v <= 0xDFFF)
}

/// The character with code `v`, if `v` is a scalar value.
/// Trusted: calls std's `char::from_u32`, documented to return `Some` exactly
/// for scalar values, holding the character with that code.
#[verifier::external_body]
fn char_from_u32(v: u32) -> (r: Option<char>)
    ensures
        match r {
            Some(c) => is_scalar(v) && c == (v as char),
            None => !is_scalar(v),
        },
{
    char::from_u32(v)
}

/// The character a decoded code stands for: itself when it is a scalar
/// value, else U+FFFD.
pub open spec fn code_char(v: u32) -> char {
    if is_scalar(v) { v as char } else { '\u{FFFD}' }
}

/// How many continuation bytes a lead byte announces, and its payload.
pub open spec fn lead(b: u8) -> (u32, nat) {
    if b >= 0xF0 {
        ((b % 8) as u32, 3)
    } else if b >= 0xE0 {
        ((b % 16) as u32, 2)
    } else if b >= 0xC0 {
        ((b % 32) as u32, 1)
    } else {
        (b as u32, 0)
    }
}

/// The code of a lead payload `v` followed by the `n` bytes of `s` from `i`.
pub open spec fn continue_code(v: u32, s: Seq<u8>, i: int, n: nat) -> u32
    decreases n,
{
    if n == 0 {
        v
    } else {
        continue_code((v * 64 + (s[i] % 64) as u32) as u32, s, i + 1, (n - 1) as nat)
    }
}

/// The characters a script's bytes stand for, read from index `i`: an ASCII
/// byte is its character; a lead byte takes as many following bytes as it
/// announces (their checks are not made) and gives the character of the
/// code, or U+FFFD when the code is no scalar value; a sequence cut short
/// by the end of the bytes ends the text.
pub open spec fn decode_from(s: Seq<u8>, i: int) -> Seq<char>
    decreases s.len() - i,
{
    if i < 0 || i >= s.len() {
        seq![]
    } else if s[i] < 0x80 {
        seq![(s[i] as u32) as char] + decode_from(s, i + 1)
    } else {
        let (v, n) = lead(s[i]);
        if i + 1 + n > s.len() {
            seq![]
        } else {
            seq![code_char(continue_code(v, s, i + 1, n))] + decode_from(s, i + 1 + n)
        }
    }
}

/// `64` to the power `k`.
pub open spec fn pow64(k: nat) -> int
    decreases k,
{
    if k == 0 { 1 } else { 64 * pow64((k - 1) as nat) }
}

proof fn lemma_pow64_mono(a: nat, b: nat)
    requires
        a <= b,
    ensures
        pow64(a) <= pow64(b),
    decreases b,
{
    if a < b {
        lemma_pow64_mono(a, (b - 1) as nat);
        assert(pow64(b) == 64 * pow64((b - 1) as nat));
        lemma_pow64_pos((b - 1) as nat);
    }
}

proof fn lemma_pow64_pos(a: nat)
    ensures
        pow64(a) >= 1,
    decreases a,
{
    if a > 0 {
        lemma_pow64_pos((a - 1) as nat);
    }
}

/// Decodes the bytes of a script into characters (see `decode_from`).
pub fn decode_script(bytes: &Vec<u8>) -> (r: Vec<char>)
    ensures
        r@ == decode_from(bytes@, 0),
{
    let mut out: Vec<char> = Vec::new();
    let mut i: usize = 0;
    let n = bytes.len();
    while i < n
        invariant
            n == bytes@.len(),
            i <= n,
            out@ + decode_from(bytes@, i as int) == decode_from(bytes@, 0),
        decreases n - i,
    {
        let b = bytes[i];
        if b < 0x80 {
            out.push(b as char);
            assert(out@ + decode_from(bytes@, i + 1) =~= decode_from(bytes@, 0)) by {
                assert(decode_from(bytes@, i as int) == seq![(bytes@[i as int] as u32) as char] + decode_from(bytes@, i + 1));
            }
            i += 1;
        } else {
            let (v0, k): (u32, usize) = if b >= 0xF0 {
                ((b % 8) as u32, 3)
            } else if b >= 0xE0 {
                ((b % 16) as u32, 2)
            } else if b >= 0xC0 {
                ((b % 32) as u32, 1)
            } else {
                (b as u32, 0)
            };
            assert((v0, k as nat) == lead(b));
            if k > n - i - 1 {
                assert(decode_from(bytes@, i as int) =~= seq![]);
                assert(out@ + seq![] =~= out@);
                return out;
            }
            let mut v = v0;
            let mut j: usize = 0;
            proof {
                assert(pow64(0) == 1);
                assert(pow64(1) == 64);
                assert(pow64(2) == 4096);
                assert(pow64(3) == 262144);
            }
            while j < k
                invariant
                    n == bytes@.len(),
                    j <= k <= 3,
                    i + 1 + k <= n,
                    continue_code(v, bytes@, i + 1 + j, (k - j) as nat) == continue_code(v0, bytes@, i + 1, k as nat),
                    b >= 0xC0 ==> v < pow64(j as nat + 1),
                    b < 0xC0 ==> k == 0,
                    pow64(1) == 64,
                    pow64(2) == 4096,
                    pow64(3) == 262144,
                decreases k - j,
            {
                let x = bytes[i + 1 + j];
                assert(pow64(j as nat + 2) == 64 * pow64(j as nat + 1));
                v = v * 64 + (x % 64) as u32;
                j += 1;
            }
            assert(continue_code(v, bytes@, i + 1 + j, 0) == v);
            let c = match char_from_u32(v) {
                Some(c) => {
                    c
                },
                None => '\u{FFFD}',
            };
            assert(c == code_char(continue_code(v0, bytes@, i + 1, k as nat)));
            out.push(c);
            assert(out@ + decode_from(bytes@, i + 1 + k) =~= decode_from(bytes@, 0)) by {
                assert(decode_from(bytes@, i as int) == seq![c] + decode_from(bytes@, i + 1 + k));
            }
            i = i + 1 + k;
        }
    }
    assert(decode_from(bytes@, n as int) =~= seq![]);
    assert(out@ + seq![] =~= out@);
    out
}

/// A lexeme ends at or after where reading started, and past it when
/// characters were left.
pub proof fn lemma_lex_loop_advances(cs: Seq<char>, i: int, line: int, ctx: LexCtx)
    requires
        0 <= i <= cs.len(),
        lex_loop(cs, i, line, ctx) is Some,
    ensures
        ({
            let (l, s, p, ln) = lex_loop(cs, i, line, ctx).unwrap();
            &&& i <= p <= cs.len()
            &&& i < cs.len() ==> i < p
            &&& i == cs.len() ==> p == i && lex_finish(ctx) == Some((l, s))
        }),
    decreases cs.len() - i,
{
    if i < cs.len() {
        let c = cs[i];
        let line2 = if c == '\n' { line + 1 } else { line };
        match lex_trans(ctx.state, c) {
            LexAct::Go(s2, op) => {
                let ctx2 = apply_op(ctx, op, c).unwrap();
                lemma_lex_loop_advances(cs, i + 1, line2, LexCtx { state: s2, ..ctx2 });
            },
            LexAct::SaveComment => {
                lemma_lex_loop_advances(cs, i + 1, line2, LexCtx { state: LexState::Comment, prev_state: ctx.state, prev_buf: ctx.buf, buf: seq![c], ..ctx });
            },
            LexAct::EndComment => {
                if ctx.prev_state == LexState::InArrayVal {
                    lemma_lex_loop_advances(cs, i + 1, line2, LexCtx { state: ctx.prev_state, prev_state: LexState::Begin, buf: ctx.prev_buf, ..ctx });
                }
            },
            _ => {},
        }
    }
}

} // verus!
