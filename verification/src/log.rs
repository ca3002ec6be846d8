//! Which messages are shown, and how: the caller prints the text a method
//! gives (errors on the error stream, the others on the output).
use vstd::prelude::*;
use crate::text::{append_chars, string_from_chars, to_chars};

verus! {

/// How talkative a run is.
pub struct Log {
    pub verbose: bool,
    pub debug: bool,
    pub quiet: bool,
}

/// `msg` wrapped in the terminal codes of a color, behind a label.
pub open spec fn painted(code: Seq<char>, label: Seq<char>, msg: Seq<char>) -> Seq<char> {
    seq!['\x1b'] + "["@ + code + "m"@ + label + msg + seq!['\x1b'] + "[0m"@
}

fn paint(code: &str, label: &str, msg: &str) -> (r: String)
    ensures
        r@ == painted(code@, label@, msg@),
{
    let mut out: Vec<char> = Vec::new();
    out.push('\x1b');
    out.push('[');
    append_chars(&mut out, &to_chars(code));
    out.push('m');
    append_chars(&mut out, &to_chars(label));
    append_chars(&mut out, &to_chars(msg));
    out.push('\x1b');
    out.push('[');
    out.push('0');
    out.push('m');
    proof {
        reveal_strlit("[");
        reveal_strlit("m");
        reveal_strlit("[0m");
    }
    assert(out@ =~= painted(code@, label@, msg@));
    string_from_chars(&out)
}

impl Log {
    /// A progress message: shown when verbose and not quiet.
    pub fn log(&self, msg: &str) -> (r: Option<String>)
        ensures
            match r {
                Some(t) => self.verbose && !self.quiet && t@ == msg@,
                None => !(self.verbose && !self.quiet),
            },
    {
        if self.verbose && !self.quiet {
            Some(msg.to_string())
        } else {
            None
        }
    }

    /// A debugging message: shown with diagnostics, when not quiet.
    pub fn debug(&self, msg: &str) -> (r: Option<String>)
        ensures
            match r {
                Some(t) => self.debug && !self.quiet && t@ == msg@,
                None => !(self.debug && !self.quiet),
            },
    {
        if self.debug && !self.quiet {
            Some(msg.to_string())
        } else {
            None
        }
    }

    /// An error, for the error stream: shown in red behind `Error: ` unless
    /// quiet.
    pub fn error(&self, msg: &str) -> (r: Option<String>)
        ensures
            match r {
                Some(t) => !self.quiet && t@ == painted("0;31"@, "Error: "@, msg@),
                None => self.quiet,
            },
    {
        if !self.quiet {
            Some(paint("0;31", "Error: ", msg))
        } else {
            None
        }
    }

    /// A warning: shown in yellow behind `Warning: ` when verbose and not
    /// quiet.
    pub fn warning(&self, msg: &str) -> (r: Option<String>)
        ensures
            match r {
                Some(t) => self.verbose && !self.quiet && t@ == painted("0;33"@, "Warning: "@, msg@),
                None => !(self.verbose && !self.quiet),
            },
    {
        if self.verbose && !self.quiet {
            Some(paint("0;33", "Warning: ", msg))
        } else {
            None
        }
    }

    /// A message for the user: shown unless quiet.
    pub fn message(&self, msg: &str) -> (r: Option<String>)
        ensures
            match r {
                Some(t) => !self.quiet && t@ == msg@,
                None => self.quiet,
            },
    {
        if !self.quiet {
            Some(msg.to_string())
        } else {
            None
        }
    }
}

} // verus!
