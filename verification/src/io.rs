//! What the interpreter asks of the world outside it, and what it is told.
//! The interpreter itself never reads or writes files, runs processes or
//! reads the clock: at each such step it stops with a request; the caller
//! performs it and runs the script again with the answer appended.
use vstd::prelude::*;
use crate::util::views;

verus! {

/// How a file is opened for writing.
#[derive(Debug, Clone, Copy, PartialEq, Eq, Structural)]
pub enum WriteMode {
    /// created or truncated
    Create,
    /// created or truncated, and made executable
    Exec,
    /// appended to, created when missing
    Append,
}

/// What a request asks for; `texts` of the request are its arguments.
#[derive(Debug, Clone, Copy, PartialEq, Eq, Structural)]
pub enum IoKind {
    /// print `texts[0]` followed by a new line
    Print,
    /// the current time, in UTC, in the compact form
    Now,
    /// the current local time written by the pattern `texts[0]`
    NowFormat,
    /// write `texts[1]` into the file `texts[0]`
    Write(WriteMode),
    /// does the path `texts[0]` exist
    Exists,
    /// show, without running it, the command `texts[0]` with arguments `list` in `texts[1]`
    DryRun,
    /// start the command `texts[0]` with arguments `list` in `texts[1]` without waiting
    Spawn,
    /// run the command and capture its output
    Capture,
    /// run the command and wait for its exit code
    Run,
    /// print the prompt `texts[0]` and read a line
    Ask,
    /// the modification time of `texts[0]`, in the compact form
    Timestamp,
    /// the content of the file `texts[0]`
    Read,
    /// the canonical form of the path `texts[0]`
    Canonicalize,
    /// files under `texts[0]` ending in `texts[1]` newer than their counterparts
    /// in `texts[2]` ending in `texts[3]` (all of them when `texts` has two entries)
    NewerThan,
    /// is the newest file matching `texts[0]` newer than the newest matching `texts[1]`
    AnyNewer,
    /// compare `texts[0]` and `texts[1]` as floating-point numbers
    NumOrder,
    /// the file name of `texts[0]` when the path exists
    FileName,
    /// the files matching the pattern `texts[0]`
    Glob,
    /// copy `texts[0]` to `texts[1]`
    Copy,
    /// move `texts[0]` to `texts[1]`
    Rename,
    /// create the directory `texts[0]` with its parents
    MakeDir,
    /// remove the file `texts[0]`
    RemoveFile,
    /// remove the empty directory `texts[0]`
    RemoveDir,
    /// remove the directory `texts[0]` with its content
    RemoveDirAll,
    /// evaluate the arithmetic expression `texts[0]` in the variables of block `block`
    Calc,
    /// evaluate each of the expressions `texts` in the variables of block `block`
    CalcEach,
    /// store the zip archive `texts[0]` built from `zip`
    Zip,
    /// the directory for configuration files of the user
    ConfigDir,
}

/// What an entry of a zip request adds.
#[derive(Debug, Clone, Copy, PartialEq, Eq, Structural)]
pub enum ZipKind {
    /// an entry named `path` holding `texts[0]`
    Add,
    /// as `Add`, and marked executable
    AddExec,
    /// the directory or files `texts[0]`, under `path` in the archive
    Dir,
    /// the files or directories `texts`, under `path` in the archive
    Files,
}

/// One entry of a zip request.
#[derive(Debug)]
pub struct ZipOp {
    pub kind: ZipKind,
    pub path: Option<String>,
    pub texts: Vec<String>,
}

/// A request to the world outside the interpreter.
#[derive(Debug)]
pub struct IoRequest {
    pub kind: IoKind,
    pub texts: Vec<String>,
    pub list: Vec<String>,
    pub zip: Vec<ZipOp>,
    pub block: usize,
}

/// An answer to a request.
#[derive(Debug, Clone)]
pub enum IoAnswer {
    /// done, nothing to report
    Done,
    /// a yes or a no
    Flag(bool),
    /// a text
    Text(String),
    /// the request failed or found nothing
    Missing,
    /// several texts
    Texts(Vec<String>),
    /// a number (an exit code, a process id, an ordering)
    Code(i32),
    /// a process exit code and what it printed
    Output(i32, String),
}

/// Why a run stopped before its end.
#[derive(Debug)]
pub enum Halt {
    /// it needs the answer to a request
    NeedIo(IoRequest),
    /// the step budget ran out
    OutOfFuel,
    /// the script cannot go on at the block of this script line
    Panic(u32),
    /// the script called `panic` with this message at this line
    Abort(String, u32),
    /// interpolation at this line takes more passes than the run allows
    Endless(u32),
    /// an answer of the wrong kind was given
    BadAnswer,
}

/// The mathematical content of a zip entry.
pub struct ZipOpView {
    pub kind: ZipKind,
    pub path: Option<Seq<char>>,
    pub texts: Seq<Seq<char>>,
}

/// The mathematical content of a request.
pub struct IoRequestView {
    pub kind: IoKind,
    pub texts: Seq<Seq<char>>,
    pub list: Seq<Seq<char>>,
    pub zip: Seq<ZipOpView>,
    pub block: int,
}

/// The mathematical content of an answer.
pub enum IoAnswerView {
    Done,
    Flag(bool),
    Text(Seq<char>),
    Missing,
    Texts(Seq<Seq<char>>),
    Code(i32),
    Output(i32, Seq<char>),
}

/// The mathematical content of a halt.
pub enum HaltView {
    NeedIo(IoRequestView),
    OutOfFuel,
    Panic(u32),
    Abort(Seq<char>, u32),
    Endless(u32),
    BadAnswer,
}

impl View for ZipOp {
    type V = ZipOpView;

    open spec fn view(&self) -> ZipOpView {
        ZipOpView {
            kind: self.kind,
            path: match self.path {
                Some(p) => Some(p@),
                None => None,
            },
            texts: views(self.texts@),
        }
    }
}

/// The views of zip entries.
pub open spec fn zip_views(z: Seq<ZipOp>) -> Seq<ZipOpView> {
    z.map_values(|o: ZipOp| o@)
}

impl View for IoRequest {
    type V = IoRequestView;

    open spec fn view(&self) -> IoRequestView {
        IoRequestView {
            kind: self.kind,
            texts: views(self.texts@),
            list: views(self.list@),
            zip: zip_views(self.zip@),
            block: self.block as int,
        }
    }
}

impl View for IoAnswer {
    type V = IoAnswerView;

    open spec fn view(&self) -> IoAnswerView {
        match self {
            IoAnswer::Done => IoAnswerView::Done,
            IoAnswer::Flag(b) => IoAnswerView::Flag(*b),
            IoAnswer::Text(t) => IoAnswerView::Text(t@),
            IoAnswer::Missing => IoAnswerView::Missing,
            IoAnswer::Texts(v) => IoAnswerView::Texts(views(v@)),
            IoAnswer::Code(c) => IoAnswerView::Code(*c),
            IoAnswer::Output(c, t) => IoAnswerView::Output(*c, t@),
        }
    }
}

impl View for Halt {
    type V = HaltView;

    open spec fn view(&self) -> HaltView {
        match self {
            Halt::NeedIo(r) => HaltView::NeedIo(r@),
            Halt::OutOfFuel => HaltView::OutOfFuel,
            Halt::Panic(l) => HaltView::Panic(*l),
            Halt::Abort(m, l) => HaltView::Abort(m@, *l),
            Halt::Endless(l) => HaltView::Endless(*l),
            Halt::BadAnswer => HaltView::BadAnswer,
        }
    }
}

/// The views of answers.
pub open spec fn answer_views(a: Seq<IoAnswer>) -> Seq<IoAnswerView> {
    a.map_values(|x: IoAnswer| x@)
}

/// A request with the given kind and arguments and nothing else.
pub open spec fn req(kind: IoKind, texts: Seq<Seq<char>>) -> IoRequestView {
    IoRequestView { kind, texts, list: seq![], zip: seq![], block: 0 }
}

impl IoAnswer {
    /// A copy of this answer.
    pub fn duplicate(&self) -> (r: IoAnswer)
        ensures
            r@ == self@,
    {
        match self {
            IoAnswer::Done => IoAnswer::Done,
            IoAnswer::Flag(b) => IoAnswer::Flag(*b),
            IoAnswer::Text(t) => IoAnswer::Text(t.clone()),
            IoAnswer::Missing => IoAnswer::Missing,
            IoAnswer::Texts(v) => {
                let c = crate::text::copy_strings(v);
                IoAnswer::Texts(c)
            },
            IoAnswer::Code(c) => IoAnswer::Code(*c),
            IoAnswer::Output(c, t) => IoAnswer::Output(*c, t.clone()),
        }
    }
}

/// A request with the given kind and arguments and nothing else.
pub fn request(kind: IoKind, texts: Vec<String>) -> (r: IoRequest)
    ensures
        r@ == req(kind, views(texts@)),
{
    let r = IoRequest { kind, texts, list: Vec::new(), zip: Vec::new(), block: 0 };
    assert(r@.list =~= seq![]);
    assert(r@.zip =~= seq![]);
    r
}

} // verus!
