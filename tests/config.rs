use minigrep::config::{is_flag, parse_flag, ArgKind, Config, LineArg, NOT_ENOUGH_ARGUMENTS};

fn strings(items: &[&str]) -> Vec<String> {
    items.iter().map(|s| s.to_string()).collect()
}

#[test]
fn classifies_search_invocation() {
    let c = Config::new(strings(&["prog", "__search-file", "f.txt", "needle"]), false).unwrap();
    assert_eq!(vec!["search-file".to_string()], c.flags);
    assert_eq!(vec!["f.txt".to_string(), "needle".to_string()], c.non_flags);
    assert_eq!("needle", c.query);
    assert_eq!("f.txt", c.filename);
    assert!(c.case_sensitive);
}

#[test]
fn too_few_arguments_fail() {
    assert_eq!(Some("not enough arguments"), Config::new(strings(&["prog", "f.txt"]), false).err());
    assert_eq!(Some(NOT_ENOUGH_ARGUMENTS), Config::new(strings(&["prog"]), false).err());
    assert_eq!(Some(NOT_ENOUGH_ARGUMENTS), Config::new(Vec::new(), false).err());
}

#[test]
fn flags_only_fail() {
    assert_eq!(
        Some(NOT_ENOUGH_ARGUMENTS),
        Config::new(strings(&["prog", "__read-file", "__check-file"]), false).err()
    );
}

#[test]
fn order_is_kept_within_each_group() {
    let c = Config::new(strings(&["prog", "a", "__x", "b", "__y", "c"]), true).unwrap();
    assert_eq!(strings(&["x", "y"]), c.flags);
    assert_eq!(strings(&["a", "b", "c"]), c.non_flags);
    assert_eq!("a", c.filename);
    assert_eq!("b", c.query);
    assert!(!c.case_sensitive);
}

#[test]
fn query_is_empty_without_second_plain_argument() {
    let c = Config::new(strings(&["prog", "__read-file", "f.txt"]), false).unwrap();
    assert_eq!("f.txt", c.filename);
    assert_eq!("", c.query);
}

#[test]
fn environment_toggle_decides_case() {
    let c = Config::new(strings(&["prog", "f.txt", "q"]), true).unwrap();
    assert!(!c.case_sensitive);
    assert!(c.flags.is_empty());
}

#[test]
fn line_args_are_classified() {
    let a = LineArg::new(&"__read-file".to_string());
    assert_eq!(LineArg { kind: ArgKind::Flag, arg: "read-file".to_string() }, a);
    let b = LineArg::new(&"notes.txt".to_string());
    assert_eq!(LineArg { kind: ArgKind::Arg, arg: "notes.txt".to_string() }, b);
    let c = LineArg::new(&"_x".to_string());
    assert_eq!(ArgKind::Arg, c.kind);
    assert_eq!("_x", c.arg);
    let d = LineArg::new(&"__".to_string());
    assert_eq!(ArgKind::Flag, d.kind);
    assert_eq!("", d.arg);
    let e = LineArg::new(&"é".to_string());
    assert_eq!(ArgKind::Arg, e.kind);
}

#[test]
fn flag_marker_and_name() {
    assert!(is_flag(&"__check-file".to_string()));
    assert!(!is_flag(&"_".to_string()));
    assert!(!is_flag(&"".to_string()));
    assert!(!is_flag(&"a__".to_string()));
    assert_eq!("check-file", parse_flag(&"__check-file".to_string()));
    assert_eq!("é", parse_flag(&"__é".to_string()));
}
