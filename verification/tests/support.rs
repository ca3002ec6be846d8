use rustbee::block::{BlockTree, BlockType, GenBlock, GenBlockTup};
use rustbee::io::{Halt, IoAnswer, IoKind};
use rustbee::lex::VarVal;
use rustbee::log::Log;
use rustbee::machine::Machine;
use rustbee::parse::{process, ParseStep, Parser};
use rustbee::targets::{run, target_help};
use rustbee::vars::{AssocMap, Context, StrMap};
use rustbee::walk::{accepts, counterpart_exec, glob_target_exec, keep_newer, newest_accepts_exec, split_star_mask};
use rustbee::cmdline::property_definition;
use rustbee::scan::decode_script;
use rustbee::fsops::name_matches_exec;

fn empty_ctx() -> Context {
    Context { props: AssocMap::new(), env: AssocMap::new() }
}

fn tree_of(script: &str) -> BlockTree {
    let mut tree = BlockTree { blocks: vec![GenBlock::new(BlockType::Main)] };
    let mut p = Parser::new(script.chars().collect(), GenBlockTup(0));
    match process(&mut p, &mut tree, &empty_ctx()) {
        ParseStep::Done => {}
        other => panic!("parse: {:?}", other),
    }
    tree
}

/// Runs the target `build` of the script, answering each request with
/// `Done`, and collects what it printed.
fn printed(script: &str) -> Vec<String> {
    let tree = tree_of(script);
    let mut answers: Vec<IoAnswer> = Vec::new();
    let mut out = Vec::new();
    for _ in 0..50 {
        let mut m = Machine::new(tree.copy(), empty_ctx().copy(), answers.clone());
        let mut t = vec!["build".to_string()];
        match run(&mut m, GenBlockTup(0), &mut t, 1000) {
            Ok(Ok(())) => return out,
            Err(Halt::NeedIo(q)) => {
                if q.kind == IoKind::Print {
                    out.push(q.texts[0].clone());
                }
                answers.push(IoAnswer::Done);
            }
            other => panic!("run ended with {:?}", other),
        }
    }
    panic!("too many requests")
}

#[test]
fn star_masks_split_at_the_first_star() {
    assert!(split_star_mask("main.rs").is_none());
    assert_eq!(split_star_mask("*.rs"), Some((None, Some(".rs".to_string()))));
    assert_eq!(split_star_mask("lib*"), Some((Some("lib".to_string()), None)));
    assert_eq!(split_star_mask("a*b*c"), Some((Some("a".to_string()), Some("b*c".to_string()))));
    assert_eq!(split_star_mask("a*b*"), Some((Some("a".to_string()), None)));
}

#[test]
fn mask_parts_accept_names() {
    let rs = Some(".rs".to_string());
    let lib = Some("lib".to_string());
    assert!(accepts("main.rs", &None, &rs));
    assert!(!accepts("main.c", &None, &rs));
    assert!(accepts("lib.rs", &lib, &rs));
    assert!(!accepts("main.rs", &lib, &rs));
    assert!(accepts("anything", &None, &None));
}

#[test]
fn newest_masks() {
    assert!(newest_accepts_exec("x.txt", "*"));
    assert!(newest_accepts_exec("a.rs", "*.rs"));
    assert!(newest_accepts_exec("libfoo", "lib*"));
    assert!(newest_accepts_exec("a-b.rs", "a*.rs"));
    assert!(!newest_accepts_exec("a.c", "*.rs"));
    assert!(!newest_accepts_exec("main.rs", "main.rs"));
}

#[test]
fn the_newest_time_is_kept() {
    assert_eq!(keep_newer(None, Some(5)), Some(5));
    assert_eq!(keep_newer(Some(5), Some(3)), Some(5));
    assert_eq!(keep_newer(Some(5), Some(7)), Some(7));
    assert_eq!(keep_newer(Some(5), None), Some(5));
    assert_eq!(keep_newer(None, None), None);
}

#[test]
fn counterpart_replaces_the_extension() {
    assert_eq!(counterpart_exec("out", "main.java", ".java", ".class"), "out/main.class");
}

#[test]
fn a_trailing_separator_asks_for_subdirectories() {
    assert_eq!(glob_target_exec("src/*.rs/"), ("src/*.rs".to_string(), true));
    assert_eq!(glob_target_exec("src/*.rs"), ("src/*.rs".to_string(), false));
}

#[test]
fn property_lines() {
    assert_eq!(property_definition("a=b=c"), Some(("a".to_string(), "b=c".to_string())));
    assert_eq!(property_definition("novalue"), None);
}

#[test]
fn log_levels() {
    let quiet = Log { verbose: true, debug: true, quiet: true };
    assert_eq!(quiet.message("m"), None);
    assert_eq!(quiet.error("e"), None);
    let plain = Log { verbose: false, debug: false, quiet: false };
    assert_eq!(plain.message("m"), Some("m".to_string()));
    assert_eq!(plain.log("l"), None);
    assert_eq!(plain.debug("d"), None);
    assert_eq!(plain.warning("w"), None);
    assert_eq!(plain.error("e"), Some("\x1b[0;31mError: e\x1b[0m".to_string()));
    let verbose = Log { verbose: true, debug: false, quiet: false };
    assert_eq!(verbose.log("l"), Some("l".to_string()));
    assert_eq!(verbose.warning("w"), Some("\x1b[0;33mWarning: w\x1b[0m".to_string()));
}

#[test]
fn target_help_lists_the_targets() {
    let tree = tree_of("target build:.:makes it {\n dependency {true}\n}\ntarget clean {\n dependency {true}\n}\n");
    assert_eq!(target_help(&tree, GenBlockTup(0)), vec!["build - makes it".to_string(), "clean - ".to_string()]);
}

#[test]
fn copies_are_equal() {
    let mut tree = tree_of("v=1\ntarget build {\n dependency {true}\n}\n");
    GenBlockTup(0).add_var(&mut tree, "w".to_string(), VarVal::from_string("2"));
    let copy = tree.copy();
    assert_eq!(copy.blocks.len(), tree.blocks.len());
    assert_eq!(copy.blocks[0].vars.get("w").map(|v| v.value), Some("2".to_string()));
    assert_eq!(copy.blocks[0].vars.get("v").map(|v| v.value), Some("1".to_string()));
    let mut props: StrMap = AssocMap::new();
    props.insert("k".to_string(), "v".to_string());
    let ctx = Context { props, env: AssocMap::new() };
    assert_eq!(ctx.copy().props.get("k"), Some("v".to_string()));
}

#[test]
fn a_parameter_is_a_name_or_a_literal() {
    let s = "greeting=hello\ntarget build {\n dependency {true}\n display(greeting)\n display(nothing)\n}\n";
    assert_eq!(printed(s), vec!["hello".to_string(), "nothing".to_string()]);
}

#[test]
fn interpolation_substitutes_nested_names() {
    let s = "a=x\nb=${a}y\ntarget build {\n dependency {true}\n display(<${b}>)\n}\n";
    assert_eq!(printed(s), vec!["<xy>".to_string()]);
}

#[test]
fn script_bytes_are_decoded() {
    let bytes = "a=é€😀\n".as_bytes().to_vec();
    assert_eq!(decode_script(&bytes), "a=é€😀\n".chars().collect::<Vec<char>>());
    // a surrogate code becomes the replacement character
    assert_eq!(decode_script(&vec![0xED, 0xA0, 0x80, b'x']), vec!['\u{FFFD}', 'x']);
    // a sequence cut short ends the text
    assert_eq!(decode_script(&vec![b'x', 0xE2, 0x82]), vec!['x']);
}

#[test]
fn the_year_comes_from_the_clock() {
    let y = rustbee::util::year_now().unwrap();
    assert!(y >= 2024);
}

#[test]
fn include_asks_for_the_script_made_absolute() {
    let mut tree = BlockTree { blocks: vec![GenBlock::new(BlockType::Main)] };
    GenBlockTup(0).add_var(&mut tree, "~cwd~".to_string(), VarVal::from_string("/w"));
    let script = "include(other.7b)\ntarget t {\n dependency {true}\n}\n";
    let mut p = Parser::new(script.chars().collect(), GenBlockTup(0));
    let ctx = empty_ctx();
    match process(&mut p, &mut tree, &ctx) {
        ParseStep::Include(path, into) => {
            assert_eq!(path, "/w/other.7b");
            assert_eq!(into, GenBlockTup(0));
        }
        other => panic!("expected an include, got {:?}", other),
    }
    assert!(matches!(process(&mut p, &mut tree, &ctx), ParseStep::Done));
    assert_eq!(target_help(&tree, GenBlockTup(0)), vec!["t - ".to_string()]);
}

#[test]
fn an_eq_block_is_true_when_all_values_are_equal() {
    let s = "target build {\n dependency {true}\n if {\n eq {\n number(3)\n number(3)\n number(3)\n }\n then {\n display(same)\n }\n else {\n display(differ)\n }\n }\n}\n";
    assert_eq!(printed(s), vec!["same".to_string()]);
    let s2 = s.replacen("number(3)", "number(4)", 1);
    assert_eq!(printed(&s2), vec!["differ".to_string()]);
    let one = "target build {\n dependency {true}\n if {\n eq {\n number(3)\n }\n then {\n display(same)\n }\n else {\n display(differ)\n }\n }\n}\n";
    assert_eq!(printed(one), vec!["differ".to_string()]);
}

#[test]
fn filename_takes_the_last_part() {
    let s = "target build {\n dependency {true}\n filename(a.b/c)\n display(~~)\n filename(src/main.rs)\n display(~~)\n}\n";
    assert_eq!(printed(s), vec!["c".to_string(), "main".to_string()]);
}

#[test]
fn wildcard_filters_need_both_ends() {
    let c = |s: &str| s.chars().collect::<Vec<char>>();
    assert!(!name_matches_exec(&c("ax"), &c("a*b")));
    assert!(name_matches_exec(&c("ab"), &c("a*b")));
    assert!(name_matches_exec(&c("axyb"), &c("a*b")));
    assert!(!name_matches_exec(&c("aba"), &c("ab*ba")));
    assert!(name_matches_exec(&c("main.rs"), &c("*.rs")));
    assert!(name_matches_exec(&c("lib.rs"), &c("lib*")));
    assert!(name_matches_exec(&c("x"), &c("x")));
    assert!(!name_matches_exec(&c("y"), &c("x")));
}

#[test]
fn the_interpolation_budget_is_the_runs() {
    let s = "a=x\nb=${a}y\ntarget build {\n dependency {true}\n display(${b})\n}\n";
    let tree = tree_of(s);
    let mut m = Machine::new(tree.copy(), empty_ctx(), Vec::new());
    assert_eq!(m.tmpl_fuel, rustbee::parse::TEMPLATE_FUEL);
    m.tmpl_fuel = 2;
    let mut t = vec!["build".to_string()];
    assert!(matches!(run(&mut m, GenBlockTup(0), &mut t, 1000), Err(Halt::Endless(_))));
    let mut m = Machine::new(tree, empty_ctx(), Vec::new());
    m.tmpl_fuel = 3;
    let mut t = vec!["build".to_string()];
    match run(&mut m, GenBlockTup(0), &mut t, 1000) {
        Err(Halt::NeedIo(q)) => assert_eq!(q.texts[0], "xy"),
        other => panic!("expected the print, got {:?}", other),
    }
}

#[test]
fn normalized_paths_stay_normalized() {
    let once = rustbee::util::normalize_path("/a/./b/../c/");
    assert_eq!(once, "/a/c");
    assert_eq!(rustbee::util::normalize_path(&once), once);
}
