use rustbee::cmdline::{is_bee_scrpt, parse_command, CmdError, CmdOption};
use rustbee::help::get_help;
use rustbee::lex::{process_array_value, process_lex_header, VarType, VarVal};
use rustbee::props::{get_properties, get_property, set_property};
use rustbee::strops::{byte_slice_exec, split, text_lt_exec, trim};
use rustbee::timefmt::{format_system_time, format_time, DateParts};
use rustbee::util::{has_root, insert_ctrl_char, normalize_path, vec_to_str, year_of_secs};
use rustbee::vars::{AssocMap, StrMap};

fn chars(s: &str) -> Vec<char> {
    s.chars().collect()
}

fn args(v: &[&str]) -> Vec<String> {
    v.iter().map(|s| s.to_string()).collect()
}

fn parts() -> DateParts {
    DateParts {
        year: 2024,
        month: 3,
        day: 7,
        hour: 9,
        minute: 5,
        second: 4,
        weekday: "Thursday".to_string(),
        tz: -300,
    }
}

#[test]
fn command_line_options_and_targets() {
    let mut props: StrMap = AssocMap::new();
    let (opts, targets, rest) = parse_command(&args(&["rb", "build", "-v", "-Dk=v", "--", "x", "y"]), &mut props, &mut Vec::new()).unwrap();
    assert!(matches!(opts[0], CmdOption::Verbose));
    assert_eq!(targets, vec!["build".to_string()]);
    assert_eq!(rest, vec!["x".to_string(), "y".to_string()]);
    assert_eq!(props.get("k"), Some("v".to_string()));
}

#[test]
fn command_line_script_file_and_search() {
    let mut props: StrMap = AssocMap::new();
    let (opts, _, _) = parse_command(&args(&["rb", "-f", "my.7b", "-s"]), &mut props, &mut Vec::new()).unwrap();
    assert!(matches!(&opts[0], CmdOption::ScriptFile(f) if f == "my.7b"));
    assert!(matches!(&opts[1], CmdOption::SearchUp(None)));
}

#[test]
fn dry_run_is_made_verbose() {
    let mut props: StrMap = AssocMap::new();
    let (opts, _, _) = parse_command(&args(&["rb", "-dry-run"]), &mut props, &mut Vec::new()).unwrap();
    assert_eq!(opts.len(), 2);
    assert!(matches!(opts[0], CmdOption::DryRun));
    assert!(matches!(opts[1], CmdOption::Verbose));
}

#[test]
fn diagnostics_set_the_backtrace_property() {
    let mut props: StrMap = AssocMap::new();
    let (opts, _, _) = parse_command(&args(&["rb", "-d"]), &mut props, &mut Vec::new()).unwrap();
    assert!(matches!(opts[0], CmdOption::Diagnostics));
    assert_eq!(props.get("RUST_BACKTRACE"), Some("1".to_string()));
}

#[test]
fn property_file_before_an_option_never_ends() {
    let mut props: StrMap = AssocMap::new();
    let mut errors = Vec::new();
    assert!(parse_command(&args(&["rb", "-prop", "-v"]), &mut props, &mut errors).is_none());
    assert_eq!(errors.len(), 1);
    assert!(matches!(errors[0], CmdError::NoPropertyFile));
}

#[test]
fn command_line_errors_are_reported_in_order() {
    let mut props: StrMap = AssocMap::new();
    let mut errors = Vec::new();
    let (_, targets, _) = parse_command(&args(&["rb", "-Dnovalue", "-zz", "t", "-f"]), &mut props, &mut errors).unwrap();
    assert_eq!(targets, vec!["t".to_string()]);
    assert_eq!(errors.len(), 3);
    assert!(matches!(&errors[0], CmdError::InvalidProperty(a) if a == "-Dnovalue"));
    assert!(matches!(&errors[1], CmdError::Unsupported(a) if a == "-zz"));
    assert!(matches!(errors[2], CmdError::NoScriptPath));
}

#[test]
fn property_file_option_at_the_end_is_reported() {
    let mut props: StrMap = AssocMap::new();
    let mut errors = Vec::new();
    let (opts, _, _) = parse_command(&args(&["rb", "-prop"]), &mut props, &mut errors).unwrap();
    assert!(opts.is_empty());
    assert!(matches!(errors[0], CmdError::PropertyFileMissing));
}

#[test]
fn bee_script_names() {
    assert!(is_bee_scrpt("bee.7b"));
    assert!(is_bee_scrpt("bee-java.rb"));
    assert!(!is_bee_scrpt("build.7b"));
    assert!(!is_bee_scrpt("bee.txt"));
}

#[test]
fn help_text_starts_with_usage() {
    assert!(get_help().starts_with("\nrb [target"));
    assert!(get_help().contains("-dry-run"));
}

#[test]
fn time_by_pattern() {
    let p = parts();
    assert_eq!(format_time("YY-MM-DD hh:mm:ss", &p), "2024-03-07 09:05:04");
    assert_eq!(format_time("MMM D, W", &p), "Mar 7, Thursday");
    assert_eq!(format_time("Z", &p), "-500");
    assert_eq!(format_time("\\Y Y", &p), "Y 2024");
}

#[test]
fn compact_time() {
    assert_eq!(format_system_time(&parts()), "20240307T090504Z");
}

#[test]
fn split_like_std() {
    assert_eq!(split(&chars("a;b;;c"), &chars(";")), vec!["a", "b", "", "c"]);
    assert_eq!(split(&chars("ab"), &chars("")), vec!["", "a", "b", ""]);
    assert_eq!(split(&chars("aaa"), &chars("aa")), vec!["", "a"]);
}

#[test]
fn trim_and_order_and_byte_slices() {
    assert_eq!(trim(&chars("  x y \t")), chars("x y"));
    assert!(text_lt_exec(&chars("abc"), &chars("abd")));
    assert!(!text_lt_exec(&chars("b"), &chars("ab")));
    assert_eq!(byte_slice_exec(&chars("héllo"), 0, 3), Some(chars("hé")));
    assert_eq!(byte_slice_exec(&chars("héllo"), 0, 2), None);
}

#[test]
fn control_characters() {
    assert_eq!(insert_ctrl_char(&"a\\011b\\012".to_string()), "a\tb\n");
    assert_eq!(insert_ctrl_char(&"a\\tb".to_string()), "a\\tb");
    assert_eq!(insert_ctrl_char(&"plain".to_string()), "plain");
}

#[test]
fn paths() {
    assert!(has_root("/a"));
    assert!(!has_root("a"));
    assert_eq!(normalize_path("/a/./b/../c"), "/a/c");
    assert_eq!(vec_to_str(&args(&["a", "b"])), "a\tb");
    assert_eq!(year_of_secs(0), 1970);
}

#[test]
fn properties_read_back_what_was_set() {
    let mut props: StrMap = AssocMap::new();
    set_property(&mut props, &"a".to_string(), &"1".to_string());
    set_property(&mut props, &"a".to_string(), &"2".to_string());
    assert_eq!(get_property(&props, &"a".to_string()), Some("2".to_string()));
    assert_eq!(get_property(&props, &"b".to_string()), None);
    assert_eq!(get_properties(&props).len(), 1);
}

#[test]
fn values_and_truth() {
    let props: StrMap = AssocMap::new();
    let env: StrMap = AssocMap::new();
    assert!(VarVal::from_bool(true).is_true(&props, &env));
    assert!(!VarVal::from_i32(0).is_true(&props, &env));
    assert!(VarVal::from_i32(-3).is_true(&props, &env));
    assert_eq!(VarVal::from_i32(-3).value, "-3");
    assert!(VarVal::from_vec(&args(&["", "x"])).is_true(&props, &env));
    assert_eq!(VarVal::from_vec(&args(&["x"])).val_type, VarType::Array);
}

#[test]
fn array_literals_and_headers() {
    assert_eq!(process_array_value("[\"b c\", d]"), Ok(args(&["b c", "d"])));
    assert_eq!(process_array_value("[a, \"b\"]"), Ok(args(&["a", "\"b\""])));
    let h = process_lex_header("exec ls:dir:out");
    assert_eq!(h.0, "exec");
}

#[test]
fn logfile_option_takes_its_file() {
    let mut props: StrMap = AssocMap::new();
    let mut errors = Vec::new();
    let (opts, targets, _) = parse_command(&args(&["rb", "-logfile", "f", "build", "-l", "g"]), &mut props, &mut errors).unwrap();
    assert!(targets == vec!["build".to_string()]);
    assert!(matches!(&opts[0], CmdOption::LogFile(f) if f == "f"));
    assert!(matches!(&opts[1], CmdOption::LogFile(f) if f == "g"));
    assert!(errors.is_empty());
    let (_, _, _) = parse_command(&args(&["rb", "-l"]), &mut props, &mut errors).unwrap();
    assert!(matches!(errors[0], CmdError::NoLogPath));
}
