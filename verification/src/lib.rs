//! Rust Bee: a build-script language, its lexer, parser and interpreter.
pub mod text;
pub mod vars;
pub mod lex;
pub mod block;
pub mod util;
pub mod scan;
pub mod props;
pub mod template;
pub mod parse;
pub mod help;
pub mod cmdline;
pub mod timefmt;
pub mod io;
pub mod strops;
pub mod machine;
pub mod builtins;
pub mod effects;
pub mod fsops;
pub mod process;
pub mod zipping;
pub mod dispatch;
pub mod interp;
pub mod targets;
pub mod walk;
pub mod log;
