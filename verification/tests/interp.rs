use rustbee::block::{BlockTree, BlockType, GenBlock, GenBlockTup};
use rustbee::io::{Halt, IoAnswer, IoKind, IoRequest};
use rustbee::lex::{VarType, VarVal};
use rustbee::machine::Machine;
use rustbee::parse::{process, ParseStep, Parser};
use rustbee::targets::{run, RunError};
use rustbee::vars::{AssocMap, Context};

fn empty_ctx() -> Context {
    Context { props: AssocMap::new(), env: AssocMap::new() }
}

fn tree_of(script: &str) -> BlockTree {
    let mut tree = BlockTree { blocks: vec![GenBlock::new(BlockType::Main)] };
    let chars: Vec<char> = script.chars().collect();
    let mut p = Parser::new(chars, GenBlockTup(0));
    let ctx = empty_ctx();
    match process(&mut p, &mut tree, &ctx) {
        ParseStep::Done => {}
        other => panic!("parse: {:?}", other),
    }
    tree
}

fn run_with(script: &str, targets: &[&str], answers: Vec<IoAnswer>, fuel: u64) -> (Result<Result<(), RunError>, Halt>, Machine) {
    let tree = tree_of(script);
    let mut m = Machine::new(tree, empty_ctx(), answers);
    let mut t: Vec<String> = targets.iter().map(|s| s.to_string()).collect();
    let r = run(&mut m, GenBlockTup(0), &mut t, fuel);
    (r, m)
}

fn need(r: Result<Result<(), RunError>, Halt>) -> IoRequest {
    match r {
        Err(Halt::NeedIo(q)) => q,
        other => panic!("expected a request, got {:?}", other),
    }
}

/// Runs `script` answering each request with `Done`, and collects what it printed.
fn printed(script: &str, targets: &[&str]) -> Vec<String> {
    let mut answers: Vec<IoAnswer> = Vec::new();
    let mut out = Vec::new();
    for _ in 0..50 {
        let (r, _) = run_with(script, targets, answers.clone(), 500);
        match r {
            Ok(Ok(())) => return out,
            Err(Halt::NeedIo(q)) => {
                if q.kind == IoKind::Print {
                    out.push(q.texts[0].clone());
                }
                answers.push(IoAnswer::Done);
            }
            other => panic!("run ended with {:?}", other),
        }
    }
    panic!("too many requests")
}

fn var_of(m: &Machine, b: usize, name: &str) -> Option<VarVal> {
    m.tree.blocks[b].vars.get(name)
}

#[test]
fn display_interpolates_a_variable() {
    let s = "greeting=hello\ntarget build {\n dependency {true}\n display(${greeting} world)\n}\n";
    assert_eq!(printed(s, &["build"]), vec!["hello world".to_string()]);
}

#[test]
fn first_request_is_the_print() {
    let s = "target build {\n dependency {true}\n display(hi)\n}\n";
    let q = need(run_with(s, &["build"], vec![], 100).0);
    assert_eq!(q.kind, IoKind::Print);
    assert_eq!(q.texts, vec!["hi".to_string()]);
}

#[test]
fn missing_target_is_reported() {
    let s = "target build {\n dependency {true}\n display(hi)\n}\n";
    let (r, _) = run_with(s, &["deploy"], vec![], 100);
    match r {
        Ok(Err(RunError::NoTarget(n))) => assert_eq!(n, "deploy"),
        other => panic!("{:?}", other),
    }
}

#[test]
fn no_targets_at_all() {
    let s = "a=b\n";
    let (r, _) = run_with(s, &[], vec![], 100);
    assert!(matches!(r, Ok(Err(RunError::NoTargets))));
}

#[test]
fn the_last_target_runs_by_default() {
    let s = "target one {\n dependency {true}\n display(1)\n}\ntarget two {\n dependency {true}\n display(2)\n}\n";
    assert_eq!(printed(s, &[]), vec!["2".to_string()]);
}

#[test]
fn a_false_dependency_skips_the_target() {
    let s = "target build {\n dependency {false}\n display(hi)\n}\n";
    let (r, _) = run_with(s, &["build"], vec![], 100);
    assert!(matches!(r, Ok(Ok(()))));
}

#[test]
fn a_target_dependency_runs_the_other_target() {
    let s = "target a {\n dependency {true}\n display(in a)\n}\ntarget b {\n dependency { target(a) }\n display(in b)\n}\n";
    assert_eq!(printed(s, &["b"]), vec!["in a".to_string(), "in b".to_string()]);
}

#[test]
fn assign_then_read() {
    let s = "v=1\ntarget t {\n dependency {true}\n assign(v, 2)\n display(${v})\n}\n";
    assert_eq!(printed(s, &["t"]), vec!["2".to_string()]);
}

#[test]
fn assign_returns_the_old_value() {
    let s = "v=old\ntarget t {\n dependency {true}\n assign(v, new)\n display(~~)\n}\n";
    assert_eq!(printed(s, &["t"]), vec!["old".to_string()]);
}

#[test]
fn previous_result_flows_to_the_next_call() {
    let s = "target t {\n dependency {true}\n eq(a, a)\n display(~~)\n}\n";
    assert_eq!(printed(s, &["t"]), vec!["true".to_string()]);
}

#[test]
fn neq_is_the_opposite_of_eq() {
    let s = "target t {\n dependency {true}\n neq(a, a)\n display(~~)\n neq(a, b)\n display(~~)\n}\n";
    assert_eq!(printed(s, &["t"]), vec!["false".to_string(), "true".to_string()]);
}

#[test]
fn if_then_else() {
    let s = "x=yes\ntarget t {\n dependency {true}\n if {\n eq(${x}, yes)\n then {\n display(was yes)\n }\n else {\n display(was no)\n }\n }\n}\n";
    assert_eq!(printed(s, &["t"]), vec!["was yes".to_string()]);
    let s2 = s.replace("x=yes", "x=no");
    assert_eq!(printed(&s2, &["t"]), vec!["was no".to_string()]);
}

#[test]
fn for_over_an_array_with_index() {
    let s = "list=[a,b,c]\ntarget t {\n dependency {true}\n for e:list {\n display(${~index~}=${e})\n }\n}\n";
    assert_eq!(printed(s, &["t"]), vec!["0=a".to_string(), "1=b".to_string(), "2=c".to_string()]);
}

#[test]
fn for_over_a_text_with_separator() {
    let s = "list=x-y\ntarget t {\n dependency {true}\n for e:list:- {\n display(${e})\n }\n}\n";
    assert_eq!(printed(s, &["t"]), vec!["x".to_string(), "y".to_string()]);
}

#[test]
fn case_picks_the_matching_choice() {
    let s = "v=b\ntarget t {\n dependency {true}\n case v {\n choice a {\n display(A)\n }\n choice b|c {\n display(BC)\n }\n else {\n display(other)\n }\n }\n}\n";
    assert_eq!(printed(s, &["t"]), vec!["BC".to_string()]);
}

#[test]
fn while_runs_until_the_control_is_false() {
    let s = "go=true\ntarget t {\n dependency {true}\n while go {\n display(once)\n assign(go, false)\n }\n}\n";
    assert_eq!(printed(s, &["t"]), vec!["once".to_string()]);
}

#[test]
fn out_of_fuel_on_a_tight_budget() {
    let s = "target t {\n dependency {true}\n display(hi)\n}\n";
    let (r, _) = run_with(s, &["t"], vec![], 1);
    assert!(matches!(r, Err(Halt::OutOfFuel)));
}

#[test]
fn panic_function_aborts_with_its_message() {
    let s = "target t {\n dependency {true}\n panic(stop here)\n}\n";
    let (r, _) = run_with(s, &["t"], vec![], 100);
    match r {
        Err(Halt::Abort(msg, _)) => assert_eq!(msg, "stop here"),
        other => panic!("{:?}", other),
    }
}

#[test]
fn unknown_function_stops_the_run() {
    let s = "target t {\n dependency {true}\n nosuchfunction(x)\n}\n";
    let (r, _) = run_with(s, &["t"], vec![], 100);
    assert!(matches!(r, Err(Halt::Panic(_))));
}

#[test]
fn endless_interpolation_is_detected() {
    let s = "a=${a}x\ntarget t {\n dependency {true}\n display(${a})\n}\n";
    let (r, _) = run_with(s, &["t"], vec![], 100);
    assert!(matches!(r, Err(Halt::Endless(_))));
}

#[test]
fn a_wrong_answer_kind_is_refused() {
    let s = "target t {\n dependency {true}\n read(file.txt)\n}\n";
    let (r, _) = run_with(s, &["t"], vec![IoAnswer::Flag(true)], 100);
    assert!(matches!(r, Err(Halt::BadAnswer)));
}

#[test]
fn read_uses_the_answer_text() {
    let s = "target t {\n dependency {true}\n read(/etc/x)\n display(~~)\n}\n";
    let (r, _) = run_with(s, &["t"], vec![IoAnswer::Text("content".to_string())], 100);
    let q = need(r);
    assert_eq!(q.kind, IoKind::Print);
    assert_eq!(q.texts[0], "content");
}

#[test]
fn filename_drops_directory_and_extension() {
    let s = "target t {\n dependency {true}\n filename(/a/b/name.txt)\n display(~~)\n}\n";
    assert_eq!(printed(s, &["t"]), vec!["name".to_string()]);
}

#[test]
fn as_url_and_as_jar() {
    let s = "lib=\"org.glassfish:javax.json:1.1.4\":rep-maven\ncr=\"serde@1.0\":rep-rust\ntarget t {\n dependency {true}\n as_url(lib)\n display(~~)\n as_jar(lib)\n display(~~)\n as_url(cr)\n display(~~)\n}\n";
    assert_eq!(
        printed(s, &["t"]),
        vec![
            "https://repo1.maven.org/maven2/org/glassfish/javax.json/1.1.4/javax.json-1.1.4.jar".to_string(),
            "javax.json-1.1.4.jar".to_string(),
            "https://crates.io/api/v1/crates/serde/1.0/download".to_string(),
        ]
    );
}

#[test]
fn array_element_and_join() {
    let s = "target t {\n dependency {true}\n array(x,y,z)\n assign(arr, ~~)\n element(arr, 1)\n display(~~)\n element(arr, 1, Y)\n scalar(arr, -)\n display(~~)\n}\n";
    assert_eq!(printed(s, &["t"]), vec!["y".to_string(), "x-Y-z".to_string()]);
}

#[test]
fn range_number_and_contains() {
    let s = "target t {\n dependency {true}\n range(abcdef, 1, 3)\n display(~~)\n number(42)\n display(~~)\n contains(abcdef, cd)\n display(~~)\n}\n";
    assert_eq!(printed(s, &["t"]), vec!["bc".to_string(), "42".to_string(), "true".to_string()]);
}

#[test]
fn set_env_then_env() {
    let s = "target t {\n dependency {true}\n set_env(KEY, value)\n env(KEY)\n display(~~)\n}\n";
    assert_eq!(printed(s, &["t"]), vec!["value".to_string()]);
}

#[test]
fn cropname_replaces_the_suffix() {
    let s = "~cwd~=/w\ntarget t {\n dependency {true}\n cropname(src/a.rs, *.rs, .o)\n display(~~)\n}\n";
    assert_eq!(printed(s, &["t"]), vec!["/w/src/a.o".to_string()]);
}

#[test]
fn or_and_not_functions() {
    let s = "target t {\n dependency {true}\n or(false, true)\n display(~~)\n and(true, false)\n display(~~)\n not(true)\n display(~~)\n}\n";
    assert_eq!(printed(s, &["t"]), vec!["true".to_string(), "false".to_string(), "false".to_string()]);
}

#[test]
fn exec_asks_to_run_the_program() {
    let s = "~cwd~=/w\ntarget t {\n dependency {true}\n exec ls(-l)\n}\n";
    let q = need(run_with(s, &["t"], vec![], 100).0);
    assert_eq!(q.kind, IoKind::Run);
    assert_eq!(q.texts, vec!["ls".to_string(), "/w".to_string()]);
    assert_eq!(q.list, vec!["-l".to_string()]);
}

#[test]
fn dry_run_only_shows_the_program() {
    let s = "~dry-run~=true\ntarget t {\n dependency {true}\n exec ls(-l)\n display(~~)\n}\n";
    let q = need(run_with(s, &["t"], vec![], 100).0);
    assert_eq!(q.kind, IoKind::DryRun);
    let q2 = need(run_with(s, &["t"], vec![IoAnswer::Done], 100).0);
    assert_eq!(q2.texts, vec!["0".to_string()]);
}

#[test]
fn write_builds_the_content() {
    let s = "~cwd~=/w\ntarget t {\n dependency {true}\n write(out.txt, a, b)\n}\n";
    let q = need(run_with(s, &["t"], vec![], 100).0);
    assert!(matches!(q.kind, IoKind::Write(_)));
    assert_eq!(q.texts, vec!["/w/out.txt".to_string(), "ab".to_string()]);
}

#[test]
fn calc_keeps_the_number_text() {
    let s = "target t {\n dependency {true}\n calc(1+2)\n display(~~)\n}\n";
    let (r, m) = run_with(s, &["t"], vec![IoAnswer::Text("3".to_string())], 100);
    let q = need(r);
    assert_eq!(q.texts[0], "3");
    let _ = m;
}

#[test]
fn the_script_block_holds_top_variables() {
    let s = "name=value\n";
    let tree = tree_of(s);
    let v = tree.blocks[0].vars.get("name").unwrap();
    assert_eq!(v.value, "value");
    assert_eq!(v.val_type, VarType::Generic);
}

#[test]
fn machine_keeps_assigned_variables() {
    let s = "v=1\ntarget t {\n dependency {true}\n assign(v, 5)\n}\n";
    let (r, m) = run_with(s, &["t"], vec![], 100);
    assert!(matches!(r, Ok(Ok(()))));
    assert_eq!(var_of(&m, 0, "v").unwrap().value, "5");
}
