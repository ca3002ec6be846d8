//! The command line: options, targets and the arguments handed to the script.
use vstd::prelude::*;
use crate::text::{chars_eq, copy_string, spec_starts_with, starts_with, string_from_chars, to_chars, slice_chars, find_char};
use crate::vars::StrMap;
use crate::util::views;

verus! {

/// An option of the command line.
#[derive(Debug)]
pub enum CmdOption {
    Help,
    ScriptFile(String),
    Version,
    Verbose,
    SearchUp(Option<String>),
    PropertyFile(String),
    Diagnostics,
    ForceRebuild,
    DryRun,
    Quiet,
    TargetHelp,
    /// `-logfile <file>` (`-l <file>`): the messages go to the file
    LogFile(String),
}

/// The mathematical content of a `CmdOption`.
pub enum OptView {
    Help,
    ScriptFile(Seq<char>),
    Version,
    Verbose,
    SearchUp(Option<Seq<char>>),
    PropertyFile(Seq<char>),
    Diagnostics,
    ForceRebuild,
    DryRun,
    Quiet,
    TargetHelp,
    LogFile(Seq<char>),
}

impl View for CmdOption {
    type V = OptView;

    open spec fn view(&self) -> OptView {
        match self {
            CmdOption::Help => OptView::Help,
            CmdOption::ScriptFile(f) => OptView::ScriptFile(f@),
            CmdOption::Version => OptView::Version,
            CmdOption::Verbose => OptView::Verbose,
            CmdOption::SearchUp(f) => OptView::SearchUp(
                match f {
                    Some(x) => Some(x@),
                    None => None,
                },
            ),
            CmdOption::PropertyFile(f) => OptView::PropertyFile(f@),
            CmdOption::Diagnostics => OptView::Diagnostics,
            CmdOption::ForceRebuild => OptView::ForceRebuild,
            CmdOption::DryRun => OptView::DryRun,
            CmdOption::Quiet => OptView::Quiet,
            CmdOption::TargetHelp => OptView::TargetHelp,
            CmdOption::LogFile(f) => OptView::LogFile(f@),
        }
    }
}

/// The views of a sequence of options.
pub open spec fn opts_view(s: Seq<CmdOption>) -> Seq<OptView> {
    s.map_values(|x: CmdOption| x@)
}

/// What is wrong with a command line; the reading goes on after each.
#[derive(Debug)]
pub enum CmdError {
    /// `-f` (`-file`, `-build`) is the last argument
    NoScriptPath,
    /// a `-D` argument without `=`
    InvalidProperty(String),
    /// `-prop` (`-xprop`) is followed by another option
    NoPropertyFile,
    /// `-prop` (`-xprop`) is the last argument
    PropertyFileMissing,
    /// an argument starting with `-` that no option reads
    Unsupported(String),
    /// `-logfile` (`-l`) is the last argument
    NoLogPath,
}

/// The mathematical content of a `CmdError`.
pub enum CmdErrView {
    NoScriptPath,
    InvalidProperty(Seq<char>),
    NoPropertyFile,
    PropertyFileMissing,
    Unsupported(Seq<char>),
    NoLogPath,
}

impl View for CmdError {
    type V = CmdErrView;

    open spec fn view(&self) -> CmdErrView {
        match self {
            CmdError::NoScriptPath => CmdErrView::NoScriptPath,
            CmdError::InvalidProperty(a) => CmdErrView::InvalidProperty(a@),
            CmdError::NoPropertyFile => CmdErrView::NoPropertyFile,
            CmdError::PropertyFileMissing => CmdErrView::PropertyFileMissing,
            CmdError::Unsupported(a) => CmdErrView::Unsupported(a@),
            CmdError::NoLogPath => CmdErrView::NoLogPath,
        }
    }
}

/// The views of a sequence of errors.
pub open spec fn errs_view(s: Seq<CmdError>) -> Seq<CmdErrView> {
    s.map_values(|x: CmdError| x@)
}

/// What is wrong with the arguments from index `i` on, in the order the
/// reading meets it (the reading of `cmd_scan`). Where the reading never
/// ends, the error it would repeat is reported once.
pub open spec fn cmd_errs(args: Seq<Seq<char>>, i: int) -> Seq<CmdErrView>
    decreases args.len() - i,
{
    if i < 0 || i >= args.len() {
        seq![]
    } else {
        let a = args[i];
        let len = args.len() as int;
        if spec_starts_with(a, "-h"@) {
            cmd_errs(args, i + 1)
        } else if a == "-f"@ || spec_starts_with(a, "-file"@) || spec_starts_with(a, "-build"@) {
            if i + 1 < len {
                cmd_errs(args, i + 2)
            } else {
                seq![CmdErrView::NoScriptPath]
            }
        } else if spec_starts_with(a, "-s"@) || spec_starts_with(a, "-find"@) {
            if i + 1 < len {
                if spec_starts_with(args[i + 1], "-"@) {
                    cmd_errs(args, i + 1)
                } else {
                    cmd_errs(args, i + 2)
                }
            } else {
                seq![]
            }
        } else if spec_starts_with(a, "-version"@) || a == "-V"@ || spec_starts_with(a, "-v"@) || spec_starts_with(
            a,
            "-verbose"@,
        ) || spec_starts_with(a, "-dry"@) || spec_starts_with(a, "-d"@) || spec_starts_with(a, "-diagnostic"@)
            || spec_starts_with(a, "-r"@) {
            cmd_errs(args, i + 1)
        } else if spec_starts_with(a, "-D"@) {
            match spec_split_once(a.skip(2), '=') {
                Some(_) => cmd_errs(args, i + 1),
                None => seq![CmdErrView::InvalidProperty(a)] + cmd_errs(args, i + 1),
            }
        } else if spec_starts_with(a, "-xprop"@) || spec_starts_with(a, "-prop"@) {
            if i + 1 < len {
                if spec_starts_with(args[i + 1], "-"@) {
                    seq![CmdErrView::NoPropertyFile]
                } else {
                    cmd_errs(args, i + 2)
                }
            } else {
                seq![CmdErrView::PropertyFileMissing]
            }
        } else if spec_starts_with(a, "-q"@) || spec_starts_with(a, "-th"@) || spec_starts_with(a, "-targethelp"@) {
            cmd_errs(args, i + 1)
        } else if a == "-l"@ || spec_starts_with(a, "-logfile"@) {
            if i + 1 < len {
                cmd_errs(args, i + 2)
            } else {
                seq![CmdErrView::NoLogPath]
            }
        } else if a == "--"@ {
            seq![]
        } else if spec_starts_with(a, "-"@) {
            seq![CmdErrView::Unsupported(a)] + cmd_errs(args, i + 1)
        } else {
            cmd_errs(args, i + 1)
        }
    }
}

/// What the command line gave so far: options, targets, the arguments after
/// `--` and the properties it set.
pub struct CmdScan {
    pub options: Seq<OptView>,
    pub targets: Seq<Seq<char>>,
    pub run_args: Seq<Seq<char>>,
    pub props: Map<Seq<char>, Seq<char>>,
}

/// The part of `s` before its first `c` and the part after it.
pub open spec fn spec_split_once(s: Seq<char>, c: char) -> Option<(Seq<char>, Seq<char>)> {
    if exists|i: int| 0 <= i < s.len() && s[i] == c {
        let i = choose|i: int| 0 <= i < s.len() && s[i] == c && forall|j: int| 0 <= j < i ==> s[j] != c;
        Some((s.take(i), s.skip(i + 1)))
    } else {
        None
    }
}

/// `st` with option `o` added.
pub open spec fn with_opt(st: CmdScan, o: OptView) -> CmdScan {
    CmdScan { options: st.options.push(o), ..st }
}

/// Reads the arguments from index `i` on. `None` when the reading never ends:
/// a property-file option followed by another option is read again and again.
pub open spec fn cmd_scan(args: Seq<Seq<char>>, i: int, st: CmdScan) -> Option<CmdScan>
    decreases args.len() - i,
{
    if i < 0 || i >= args.len() {
        Some(st)
    } else {
        let a = args[i];
        let len = args.len() as int;
        if spec_starts_with(a, "-h"@) {
            cmd_scan(args, i + 1, with_opt(st, OptView::Help))
        } else if a == "-f"@ || spec_starts_with(a, "-file"@) || spec_starts_with(a, "-build"@) {
            if i + 1 < len {
                cmd_scan(args, i + 2, with_opt(st, OptView::ScriptFile(args[i + 1])))
            } else {
                Some(st)
            }
        } else if spec_starts_with(a, "-s"@) || spec_starts_with(a, "-find"@) {
            if i + 1 < len {
                if spec_starts_with(args[i + 1], "-"@) {
                    cmd_scan(args, i + 1, with_opt(st, OptView::SearchUp(None)))
                } else {
                    cmd_scan(args, i + 2, with_opt(st, OptView::SearchUp(Some(args[i + 1]))))
                }
            } else {
                Some(with_opt(st, OptView::SearchUp(None)))
            }
        } else if spec_starts_with(a, "-version"@) || a == "-V"@ {
            cmd_scan(args, i + 1, with_opt(st, OptView::Version))
        } else if spec_starts_with(a, "-v"@) || spec_starts_with(a, "-verbose"@) {
            cmd_scan(args, i + 1, with_opt(st, OptView::Verbose))
        } else if spec_starts_with(a, "-dry"@) {
            cmd_scan(args, i + 1, with_opt(st, OptView::DryRun))
        } else if spec_starts_with(a, "-d"@) || spec_starts_with(a, "-diagnostic"@) {
            let st2 = CmdScan { props: st.props.insert("RUST_BACKTRACE"@, "1"@), ..st };
            cmd_scan(args, i + 1, with_opt(st2, OptView::Diagnostics))
        } else if spec_starts_with(a, "-r"@) {
            cmd_scan(args, i + 1, with_opt(st, OptView::ForceRebuild))
        } else if spec_starts_with(a, "-D"@) {
            match spec_split_once(a.skip(2), '=') {
                Some((n, v)) => cmd_scan(args, i + 1, CmdScan { props: st.props.insert(n, v), ..st }),
                None => cmd_scan(args, i + 1, st),
            }
        } else if spec_starts_with(a, "-xprop"@) || spec_starts_with(a, "-prop"@) {
            if i + 1 < len {
                if spec_starts_with(args[i + 1], "-"@) {
                    None
                } else {
                    cmd_scan(args, i + 2, with_opt(st, OptView::PropertyFile(args[i + 1])))
                }
            } else {
                Some(st)
            }
        } else if spec_starts_with(a, "-q"@) {
            cmd_scan(args, i + 1, with_opt(st, OptView::Quiet))
        } else if spec_starts_with(a, "-th"@) || spec_starts_with(a, "-targethelp"@) {
            cmd_scan(args, i + 1, with_opt(st, OptView::TargetHelp))
        } else if a == "-l"@ || spec_starts_with(a, "-logfile"@) {
            if i + 1 < len {
                cmd_scan(args, i + 2, with_opt(st, OptView::LogFile(args[i + 1])))
            } else {
                Some(st)
            }
        } else if a == "--"@ {
            if i + 1 < len {
                Some(CmdScan { run_args: st.run_args + args.skip(i + 1), ..st })
            } else {
                Some(st)
            }
        } else if spec_starts_with(a, "-"@) {
            cmd_scan(args, i + 1, st)
        } else if i > 0 {
            cmd_scan(args, i + 1, CmdScan { targets: st.targets.push(a), ..st })
        } else {
            cmd_scan(args, i + 1, st)
        }
    }
}

/// A dry run is verbose unless diagnostics or verbosity were asked for.
pub open spec fn settle_verbose(st: CmdScan) -> CmdScan {
    if st.options.contains(OptView::DryRun) && !st.options.contains(OptView::Diagnostics)
        && !st.options.contains(OptView::Verbose) {
        with_opt(st, OptView::Verbose)
    } else {
        st
    }
}

/// The reading of the whole command line `args` (the program name first),
/// starting with the properties `props`.
pub open spec fn spec_parse_command(args: Seq<Seq<char>>, props: Map<Seq<char>, Seq<char>>) -> Option<CmdScan> {
    match cmd_scan(args, 0, CmdScan { options: seq![], targets: seq![], run_args: seq![], props }) {
        Some(st) => Some(settle_verbose(st)),
        None => None,
    }
}

/// The text `a` starts with `p`.
fn pre(a: &Vec<char>, p: &str) -> (r: bool)
    ensures
        r == spec_starts_with(a@, p@),
{
    let pc = to_chars(p);
    starts_with(a, &pc)
}

/// The text `a` is `p`.
fn is(a: &Vec<char>, p: &str) -> (r: bool)
    ensures
        r == (a@ == p@),
{
    let pc = to_chars(p);
    chars_eq(a, &pc)
}

fn push_opt(options: &mut Vec<CmdOption>, o: CmdOption)
    ensures
        opts_view(final(options)@) == opts_view(old(options)@).push(o@),
{
    options.push(o);
    assert(opts_view(options@) =~= opts_view(old(options)@).push(o@));
}

fn push_err(errors: &mut Vec<CmdError>, e: CmdError)
    ensures
        errs_view(final(errors)@) == errs_view(old(errors)@).push(e@),
{
    errors.push(e);
    assert(errs_view(errors@) =~= errs_view(old(errors)@).push(e@));
}

/// Whether `options` hold a dry run, diagnostics and verbosity.
fn run_flags(options: &Vec<CmdOption>) -> (r: (bool, bool, bool))
    ensures
        r.0 == opts_view(options@).contains(OptView::DryRun),
        r.1 == opts_view(options@).contains(OptView::Diagnostics),
        r.2 == opts_view(options@).contains(OptView::Verbose),
{
    let ghost ov = opts_view(options@);
    let mut dry = false;
    let mut diag = false;
    let mut verb = false;
    let mut i: usize = 0;
    while i < options.len()
        invariant
            i <= options@.len(),
            ov == opts_view(options@),
            dry == (exists|j: int| 0 <= j < i && ov[j] == OptView::DryRun),
            diag == (exists|j: int| 0 <= j < i && ov[j] == OptView::Diagnostics),
            verb == (exists|j: int| 0 <= j < i && ov[j] == OptView::Verbose),
        decreases options@.len() - i,
    {
        assert(ov[i as int] == options@[i as int]@);
        match &options[i] {
            CmdOption::DryRun => { dry = true; },
            CmdOption::Diagnostics => { diag = true; },
            CmdOption::Verbose => { verb = true; },
            _ => {},
        }
        i += 1;
    }
    (dry, diag, verb)
}

/// The part of `s` before its first `c` and the part after it.
fn split_once(s: &Vec<char>, c: char) -> (r: Option<(String, String)>)
    ensures
        match spec_split_once(s@, c) {
            Some((a, b)) => r matches Some((x, y)) && x@ == a && y@ == b,
            None => r is None,
        },
{
    match find_char(s, c) {
        Some(i) => {
            assert(i < s@.len());
            let a = slice_chars(s, 0, i);
            let b = slice_chars(s, i + 1, s.len());
            proof {
                let k = choose|k: int| 0 <= k < s@.len() && s@[k] == c && forall|j: int| 0 <= j < k ==> s@[j] != c;
                assert(k == i);
            }
            assert(a@ =~= s@.take(i as int));
            assert(b@ =~= s@.skip(i + 1));
            Some((string_from_chars(&a), string_from_chars(&b)))
        },
        None => None,
    }
}

/// Reads the command line `args` (the program name first): the options, the
/// targets and the arguments after `--`; `-D` and `-d` set properties in
/// `props`; what is wrong with the command line is added to `errors`.
/// `None` where the reading never ends (a property-file option followed by
/// another option).
pub fn parse_command(args: &Vec<String>, props: &mut StrMap, errors: &mut Vec<CmdError>) -> (r: Option<(Vec<CmdOption>, Vec<String>, Vec<String>)>)
    ensures
        errs_view(final(errors)@) == errs_view(old(errors)@) + cmd_errs(views(args@), 0),
        match spec_parse_command(views(args@), old(props)@) {
            Some(st) => r matches Some((o, t, a)) && opts_view(o@) == st.options
                && views(t@) == st.targets && views(a@) == st.run_args
                && final(props)@ == st.props,
            None => r is None,
        },
{
    let ghost av = views(args@);
    let mut options: Vec<CmdOption> = Vec::new();
    let mut targets: Vec<String> = Vec::new();
    let mut run_args: Vec<String> = Vec::new();
    let len = args.len();
    let mut n: usize = 0;
    let mut diverged = false;
    let ghost init = CmdScan { options: seq![], targets: seq![], run_args: seq![], props: props@ };
    assert(opts_view(options@) =~= seq![]);
    assert(views(targets@) =~= seq![]);
    assert(views(run_args@) =~= seq![]);
    let ghost e0 = errs_view(errors@);
    loop
        invariant_except_break
            !diverged,
            len == args@.len(),
            av == views(args@),
            errs_view(errors@) + cmd_errs(av, n as int) == e0 + cmd_errs(av, 0),
            cmd_scan(av, n as int, CmdScan {
                options: opts_view(options@),
                targets: views(targets@),
                run_args: views(run_args@),
                props: props@,
            }) == cmd_scan(av, 0, init),
        ensures
            len == args@.len(),
            av == views(args@),
            errs_view(errors@) == e0 + cmd_errs(av, 0),
            !diverged ==> cmd_scan(av, 0, init) == Some(CmdScan {
                options: opts_view(options@),
                targets: views(targets@),
                run_args: views(run_args@),
                props: props@,
            }),
            diverged ==> cmd_scan(av, 0, init) is None,
        decreases len + 1 - n,
    {
        if n >= len {
            break;
        }
        let ghost st = CmdScan {
            options: opts_view(options@),
            targets: views(targets@),
            run_args: views(run_args@),
            props: props@,
        };
        let a = to_chars(args[n].as_str());
        assert(a@ == av[n as int]);
        let ghost o0 = options@;
        if pre(&a, "-h") {
            push_opt(&mut options, CmdOption::Help);
            n += 1;
        } else if is(&a, "-f") || pre(&a, "-file") || pre(&a, "-build") {
            if n + 1 < len {
                push_opt(&mut options, CmdOption::ScriptFile(copy_string(&args[n + 1])));
                n += 2;
            } else {
                push_err(errors, CmdError::NoScriptPath);
                break;
            }
        } else if pre(&a, "-s") || pre(&a, "-find") {
            if n + 1 < len {
                let b = to_chars(args[n + 1].as_str());
                if pre(&b, "-") {
                    push_opt(&mut options, CmdOption::SearchUp(None));
                    n += 1;
                } else {
                    push_opt(&mut options, CmdOption::SearchUp(Some(copy_string(&args[n + 1]))));
                    n += 2;
                }
            } else {
                push_opt(&mut options, CmdOption::SearchUp(None));
                break;
            }
        } else if pre(&a, "-version") || is(&a, "-V") {
            push_opt(&mut options, CmdOption::Version);
            n += 1;
        } else if pre(&a, "-v") || pre(&a, "-verbose") {
            push_opt(&mut options, CmdOption::Verbose);
            n += 1;
        } else if pre(&a, "-dry") {
            push_opt(&mut options, CmdOption::DryRun);
            n += 1;
        } else if pre(&a, "-d") || pre(&a, "-diagnostic") {
            push_opt(&mut options, CmdOption::Diagnostics);
            let k = crate::lex::text_string("RUST_BACKTRACE");
            let v = crate::lex::text_string("1");
            let _ = props.insert(k, v);
            n += 1;
        } else if pre(&a, "-r") {
            push_opt(&mut options, CmdOption::ForceRebuild);
            n += 1;
        } else if pre(&a, "-D") {
            proof { reveal_strlit("-D"); }
            let rest = slice_chars(&a, 2, a.len());
            assert(rest@ =~= a@.skip(2));
            match split_once(&rest, '=') {
                Some((k, v)) => {
                    let _ = props.insert(k, v);
                },
                None => {
                    push_err(errors, CmdError::InvalidProperty(copy_string(&args[n])));
                },
            }
            n += 1;
        } else if pre(&a, "-xprop") || pre(&a, "-prop") {
            if n + 1 < len {
                let b = to_chars(args[n + 1].as_str());
                if pre(&b, "-") {
                    push_err(errors, CmdError::NoPropertyFile);
                    diverged = true;
                    break;
                }
                push_opt(&mut options, CmdOption::PropertyFile(copy_string(&args[n + 1])));
                n += 2;
            } else {
                push_err(errors, CmdError::PropertyFileMissing);
                break;
            }
        } else if pre(&a, "-q") {
            push_opt(&mut options, CmdOption::Quiet);
            n += 1;
        } else if pre(&a, "-th") || pre(&a, "-targethelp") {
            push_opt(&mut options, CmdOption::TargetHelp);
            n += 1;
        } else if is(&a, "-l") || pre(&a, "-logfile") {
            if n + 1 < len {
                push_opt(&mut options, CmdOption::LogFile(copy_string(&args[n + 1])));
                n += 2;
            } else {
                push_err(errors, CmdError::NoLogPath);
                break;
            }
        } else if is(&a, "--") {
            if n + 1 < len {
                let mut k = n + 1;
                let ghost r0 = views(run_args@);
                while k < len
                    invariant
                        n + 1 <= k <= len,
                        len == args@.len(),
                        av == views(args@),
                        views(run_args@) == r0 + av.subrange(n + 1, k as int),
                    decreases len - k,
                {
                    crate::util::push_string(&mut run_args, copy_string(&args[k]));
                    k += 1;
                    assert(views(run_args@) =~= r0 + av.subrange(n + 1, k as int));
                }
                assert(av.subrange(n + 1, len as int) =~= av.skip(n + 1));
                break;
            } else {
                break;
            }
        } else if pre(&a, "-") {
            push_err(errors, CmdError::Unsupported(copy_string(&args[n])));
            n += 1;
        } else if n > 0 {
            crate::util::push_string(&mut targets, copy_string(&args[n]));
            n += 1;
        } else {
            n += 1;
        }
    }
    if diverged {
        return None;
    }
    let (dry, diag, verb) = run_flags(&options);
    if dry && !diag && !verb {
        push_opt(&mut options, CmdOption::Verbose);
    }
    Some((options, targets, run_args))
}

/// A script name Rust Bee finds by itself: `bee…` ending in `.rb` or `.7b`.
pub fn is_bee_scrpt(file_path: &str) -> (r: bool)
    ensures
        r == (spec_starts_with(file_path@, "bee"@) && (crate::text::spec_ends_with(file_path@, ".rb"@)
            || crate::text::spec_ends_with(file_path@, ".7b"@))),
{
    let f = to_chars(file_path);
    let b = to_chars("bee");
    let rb = to_chars(".rb");
    let sb = to_chars(".7b");
    starts_with(&f, &b) && (crate::text::ends_with(&f, &rb) || crate::text::ends_with(&f, &sb))
}

/// A dry run is always verbose or with diagnostics: whenever the options
/// read from a command line hold a dry run, they hold verbosity or diagnostics.
pub proof fn law_dry_run_verbose(args: Seq<Seq<char>>, props: Map<Seq<char>, Seq<char>>)
    requires
        spec_parse_command(args, props) matches Some(st) && st.options.contains(OptView::DryRun),
    ensures
        spec_parse_command(args, props) matches Some(st) && (st.options.contains(OptView::Verbose)
            || st.options.contains(OptView::Diagnostics)),
{
    let st0 = cmd_scan(args, 0, CmdScan { options: seq![], targets: seq![], run_args: seq![], props })->0;
    let st = settle_verbose(st0);
    if st0.options.contains(OptView::DryRun) && !st0.options.contains(OptView::Diagnostics)
        && !st0.options.contains(OptView::Verbose) {
        assert(st.options[st.options.len() - 1] == OptView::Verbose);
    } else if !st0.options.contains(OptView::DryRun) {
        let i = choose|i: int| 0 <= i < st.options.len() && st.options[i] == OptView::DryRun;
        assert(st == st0);
    }
}


/// A line of a property file, `name=value`: the name and the value, split at
/// the first `=`; `None` without `=`.
pub fn property_definition(line: &str) -> (r: Option<(String, String)>)
    ensures
        match spec_split_once(line@, '=') {
            Some((a, b)) => r matches Some((x, y)) && x@ == a && y@ == b,
            None => r is None,
        },
{
    split_once(&to_chars(line), '=')
}


proof fn lemma_push_keeps(s: Seq<OptView>, x: OptView, o: OptView)
    requires
        s.contains(o),
    ensures
        s.push(x).contains(o),
{
    let i = choose|i: int| 0 <= i < s.len() && s[i] == o;
    assert(s.push(x)[i] == o);
}

/// Options once read stay: reading further arguments only adds options.
pub proof fn law_options_stay(args: Seq<Seq<char>>, i: int, st: CmdScan, o: OptView)
    requires
        st.options.contains(o),
    ensures
        cmd_scan(args, i, st) matches Some(r) ==> r.options.contains(o),
    decreases args.len() - i,
{
    if 0 <= i < args.len() {
        let a = args[i];
        let len = args.len() as int;
        if spec_starts_with(a, "-h"@) {
            lemma_push_keeps(st.options, OptView::Help, o);
            law_options_stay(args, i + 1, with_opt(st, OptView::Help), o);
        } else if a == "-f"@ || spec_starts_with(a, "-file"@) || spec_starts_with(a, "-build"@) {
            if i + 1 < len {
                lemma_push_keeps(st.options, OptView::ScriptFile(args[i + 1]), o);
                law_options_stay(args, i + 2, with_opt(st, OptView::ScriptFile(args[i + 1])), o);
            }
        } else if spec_starts_with(a, "-s"@) || spec_starts_with(a, "-find"@) {
            if i + 1 < len {
                if spec_starts_with(args[i + 1], "-"@) {
                    lemma_push_keeps(st.options, OptView::SearchUp(None), o);
                    law_options_stay(args, i + 1, with_opt(st, OptView::SearchUp(None)), o);
                } else {
                    lemma_push_keeps(st.options, OptView::SearchUp(Some(args[i + 1])), o);
                    law_options_stay(args, i + 2, with_opt(st, OptView::SearchUp(Some(args[i + 1]))), o);
                }
            } else {
                lemma_push_keeps(st.options, OptView::SearchUp(None), o);
            }
        } else if spec_starts_with(a, "-version"@) || a == "-V"@ {
            lemma_push_keeps(st.options, OptView::Version, o);
            law_options_stay(args, i + 1, with_opt(st, OptView::Version), o);
        } else if spec_starts_with(a, "-v"@) || spec_starts_with(a, "-verbose"@) {
            lemma_push_keeps(st.options, OptView::Verbose, o);
            law_options_stay(args, i + 1, with_opt(st, OptView::Verbose), o);
        } else if spec_starts_with(a, "-dry"@) {
            lemma_push_keeps(st.options, OptView::DryRun, o);
            law_options_stay(args, i + 1, with_opt(st, OptView::DryRun), o);
        } else if spec_starts_with(a, "-d"@) || spec_starts_with(a, "-diagnostic"@) {
            let st2 = CmdScan { props: st.props.insert("RUST_BACKTRACE"@, "1"@), ..st };
            lemma_push_keeps(st2.options, OptView::Diagnostics, o);
            law_options_stay(args, i + 1, with_opt(st2, OptView::Diagnostics), o);
        } else if spec_starts_with(a, "-r"@) {
            lemma_push_keeps(st.options, OptView::ForceRebuild, o);
            law_options_stay(args, i + 1, with_opt(st, OptView::ForceRebuild), o);
        } else if spec_starts_with(a, "-D"@) {
            match spec_split_once(a.skip(2), '=') {
                Some((n, v)) => law_options_stay(args, i + 1, CmdScan { props: st.props.insert(n, v), ..st }, o),
                None => law_options_stay(args, i + 1, st, o),
            }
        } else if spec_starts_with(a, "-xprop"@) || spec_starts_with(a, "-prop"@) {
            if i + 1 < len && !spec_starts_with(args[i + 1], "-"@) {
                lemma_push_keeps(st.options, OptView::PropertyFile(args[i + 1]), o);
                law_options_stay(args, i + 2, with_opt(st, OptView::PropertyFile(args[i + 1])), o);
            }
        } else if spec_starts_with(a, "-q"@) {
            lemma_push_keeps(st.options, OptView::Quiet, o);
            law_options_stay(args, i + 1, with_opt(st, OptView::Quiet), o);
        } else if spec_starts_with(a, "-th"@) || spec_starts_with(a, "-targethelp"@) {
            lemma_push_keeps(st.options, OptView::TargetHelp, o);
            law_options_stay(args, i + 1, with_opt(st, OptView::TargetHelp), o);
        } else if a == "-l"@ || spec_starts_with(a, "-logfile"@) {
            if i + 1 < len {
                lemma_push_keeps(st.options, OptView::LogFile(args[i + 1]), o);
                law_options_stay(args, i + 2, with_opt(st, OptView::LogFile(args[i + 1])), o);
            }
        } else if a == "--"@ {
        } else if spec_starts_with(a, "-"@) {
            law_options_stay(args, i + 1, st, o);
        } else if i > 0 {
            law_options_stay(args, i + 1, CmdScan { targets: st.targets.push(a), ..st }, o);
        } else {
            law_options_stay(args, i + 1, st, o);
        }
    }
}

proof fn lemma_differs_at(a: Seq<char>, p: Seq<char>, k: int)
    requires
        0 <= k < p.len(),
        k >= a.len() || a[k] != p[k],
    ensures
        !spec_starts_with(a, p),
        a != p,
{
    if spec_starts_with(a, p) {
        assert(a.subrange(0, p.len() as int)[k] == a[k]);
    }
}

/// An argument starting with `-r` that the reading reaches asks for a
/// forced rebuild: the options read from there on hold `ForceRebuild`.
pub proof fn law_dash_r_forces_rebuild(args: Seq<Seq<char>>, i: int, st: CmdScan)
    requires
        0 <= i < args.len(),
        spec_starts_with(args[i], "-r"@),
    ensures
        cmd_scan(args, i, st) matches Some(r) ==> r.options.contains(OptView::ForceRebuild),
{
    let a = args[i];
    reveal_strlit("-r");
    assert(a.subrange(0, 2)[1] == a[1]);
    assert(a[1] == 'r');
    reveal_strlit("-h");
    lemma_differs_at(a, "-h"@, 1);
    reveal_strlit("-f");
    lemma_differs_at(a, "-f"@, 1);
    reveal_strlit("-file");
    lemma_differs_at(a, "-file"@, 1);
    reveal_strlit("-build");
    lemma_differs_at(a, "-build"@, 1);
    reveal_strlit("-s");
    lemma_differs_at(a, "-s"@, 1);
    reveal_strlit("-find");
    lemma_differs_at(a, "-find"@, 1);
    reveal_strlit("-version");
    lemma_differs_at(a, "-version"@, 1);
    reveal_strlit("-V");
    lemma_differs_at(a, "-V"@, 1);
    reveal_strlit("-v");
    lemma_differs_at(a, "-v"@, 1);
    reveal_strlit("-verbose");
    lemma_differs_at(a, "-verbose"@, 1);
    reveal_strlit("-dry");
    lemma_differs_at(a, "-dry"@, 1);
    reveal_strlit("-d");
    lemma_differs_at(a, "-d"@, 1);
    reveal_strlit("-diagnostic");
    lemma_differs_at(a, "-diagnostic"@, 1);
    let st2 = with_opt(st, OptView::ForceRebuild);
    assert(st2.options[st.options.len() as int] == OptView::ForceRebuild);
    assert(cmd_scan(args, i, st) == cmd_scan(args, i + 1, st2));
    law_options_stay(args, i + 1, st2, OptView::ForceRebuild);
}

/// `rb -r…` (the program name, then an argument starting with `-r`) reads a
/// forced rebuild, whatever follows.
pub proof fn law_command_line_force_rebuild(args: Seq<Seq<char>>, props: Map<Seq<char>, Seq<char>>)
    requires
        args.len() >= 2,
        !spec_starts_with(args[0], "-"@),
        spec_starts_with(args[1], "-r"@),
    ensures
        spec_parse_command(args, props) matches Some(st) ==> st.options.contains(OptView::ForceRebuild),
{
    let init = CmdScan { options: seq![], targets: seq![], run_args: seq![], props };
    let a = args[0];
    reveal_strlit("-");
    if a.len() > 0 && a[0] == '-' {
        assert(a.subrange(0, 1) =~= "-"@);
    }
    reveal_strlit("-h");
    lemma_differs_at(a, "-h"@, 0);
    reveal_strlit("-f");
    lemma_differs_at(a, "-f"@, 0);
    reveal_strlit("-file");
    lemma_differs_at(a, "-file"@, 0);
    reveal_strlit("-build");
    lemma_differs_at(a, "-build"@, 0);
    reveal_strlit("-s");
    lemma_differs_at(a, "-s"@, 0);
    reveal_strlit("-find");
    lemma_differs_at(a, "-find"@, 0);
    reveal_strlit("-version");
    lemma_differs_at(a, "-version"@, 0);
    reveal_strlit("-V");
    lemma_differs_at(a, "-V"@, 0);
    reveal_strlit("-v");
    lemma_differs_at(a, "-v"@, 0);
    reveal_strlit("-verbose");
    lemma_differs_at(a, "-verbose"@, 0);
    reveal_strlit("-dry");
    lemma_differs_at(a, "-dry"@, 0);
    reveal_strlit("-d");
    lemma_differs_at(a, "-d"@, 0);
    reveal_strlit("-diagnostic");
    lemma_differs_at(a, "-diagnostic"@, 0);
    reveal_strlit("-r");
    lemma_differs_at(a, "-r"@, 0);
    reveal_strlit("-D");
    lemma_differs_at(a, "-D"@, 0);
    reveal_strlit("-xprop");
    lemma_differs_at(a, "-xprop"@, 0);
    reveal_strlit("-prop");
    lemma_differs_at(a, "-prop"@, 0);
    reveal_strlit("-q");
    lemma_differs_at(a, "-q"@, 0);
    reveal_strlit("-th");
    lemma_differs_at(a, "-th"@, 0);
    reveal_strlit("-targethelp");
    lemma_differs_at(a, "-targethelp"@, 0);
    reveal_strlit("-l");
    lemma_differs_at(a, "-l"@, 0);
    reveal_strlit("-logfile");
    lemma_differs_at(a, "-logfile"@, 0);
    reveal_strlit("--");
    lemma_differs_at(a, "--"@, 0);
    assert(cmd_scan(args, 0, init) == cmd_scan(args, 1, init));
    law_dash_r_forces_rebuild(args, 1, init);
    match cmd_scan(args, 1, init) {
        Some(st) => {
            if settle_verbose(st) != st {
                lemma_push_keeps(st.options, OptView::Verbose, OptView::ForceRebuild);
            }
        },
        None => {},
    }
}

} // verus!
