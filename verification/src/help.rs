//! The usage text of the command line.
use vstd::prelude::*;
use crate::lex::text_string;

verus! {

/// The usage text.
pub const HELP: &'static str = "\nrb [target [target2 [target3] ...]] [options] [-- parameter1 [...parameter2..]]\nOptions: \n  -help, -h              print this message\n  -version, -V           print a version information\n  -quiet, -q             be extra quiet\n  -verbose, -v           be extra verbose\n  -debug, -d             print a debugging information\n  -logfile <file>        use given file for log\n  -l       <file>          ''\n  -noinput               do not allow interactive input\n  -buildfile <file>      use the given script file\n  -file    <file>        ''\n  -f       <file>        ''\n  -keep-going, -k        execute all targets that do not depend\n                         on failed target(s)\n  -dry-run               do not launch any executable, but show their arguments\n  -r                     execute all targets accordingly dependencies anyway\n  -D<property>=<value>   use a value for a given property name\n  -propertyfile <name>   load all properties from file with -D\n                         properties taking precedence\n  -find [<file>]         (s)earch for a script file towards the root of \n  -s    [<file>]         the filesystem and then use it \n  -targethelp            print all target names in the script file with descriptions/comments\n  -th                    ''\n  --                     a separator of argumets passed to the script target executable\nExamples: rb jar -d\n          rb compile -s\n          rb clean compile -r\n          rb run -- arg1\n";

/// The usage text printed for `-help`.
pub fn get_help() -> (r: String)
    ensures
        r@ == HELP@,
{
    text_string(HELP)
}

} // verus!
