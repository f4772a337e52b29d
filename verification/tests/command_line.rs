use mould::cli::{command_for, parse_args, read_args, CliCommand};

fn args(items: &[&str]) -> Vec<String> {
    items.iter().map(|item| item.to_string()).collect()
}

#[test]
fn long_output_flag_builds() {
    let command = parse_args(&args(&["main.mould", "--output", "out"])).unwrap();
    assert_eq!(
        command,
        CliCommand::Build {
            source_path: "main.mould".to_string(),
            output_path: "out".to_string(),
        }
    );
}

#[test]
fn output_flag_may_come_first() {
    let command = parse_args(&args(&["-o", "out", "main.mould"])).unwrap();
    assert_eq!(
        command,
        CliCommand::Build {
            source_path: "main.mould".to_string(),
            output_path: "out".to_string(),
        }
    );
}

#[test]
fn last_output_flag_wins() {
    let command = parse_args(&args(&["main.mould", "-o", "a", "-o", "b"])).unwrap();
    assert_eq!(
        command,
        CliCommand::Build {
            source_path: "main.mould".to_string(),
            output_path: "b".to_string(),
        }
    );
}

#[test]
fn help_flag_is_reported() {
    assert_eq!(parse_args(&args(&["-h"])).unwrap_err(), "mould language cli");
    assert_eq!(parse_args(&args(&["main.mould", "--help"])).unwrap_err(), "mould language cli");
}

#[test]
fn missing_output_path_is_reported() {
    assert_eq!(
        parse_args(&args(&["main.mould", "-o"])).unwrap_err(),
        "missing output file after `-o`"
    );
}

#[test]
fn unknown_option_is_reported() {
    assert_eq!(parse_args(&args(&["-x"])).unwrap_err(), "unknown option `-x`");
    assert_eq!(parse_args(&args(&["-"])).unwrap_err(), "unknown option `-`");
}

#[test]
fn second_source_is_reported() {
    assert_eq!(
        parse_args(&args(&["a.mould", "b.mould"])).unwrap_err(),
        "unexpected argument `b.mould`"
    );
}

#[test]
fn missing_source_is_reported() {
    assert_eq!(parse_args(&args(&[])).unwrap_err(), "missing source file");
    assert_eq!(parse_args(&args(&["-o", "out"])).unwrap_err(), "missing source file");
}

#[test]
fn file_without_extension_is_refused() {
    let message = "source file must have `.mould` extension";
    assert_eq!(parse_args(&args(&["program"])).unwrap_err(), message);
    assert_eq!(parse_args(&args(&[".mould"])).unwrap_err(), message);
    assert_eq!(parse_args(&args(&["dir/main.mould.txt"])).unwrap_err(), message);
}

#[test]
fn nested_source_path_runs() {
    let command = parse_args(&args(&["samples/dir.v2/main.mould"])).unwrap();
    assert_eq!(
        command,
        CliCommand::Run {
            source_path: "samples/dir.v2/main.mould".to_string(),
        }
    );
}

#[test]
fn reading_arguments_keeps_both_paths() {
    let (source, output) = read_args(&args(&["x.mould", "-o", "y"])).unwrap();
    assert_eq!(source, Some("x.mould".to_string()));
    assert_eq!(output, Some("y".to_string()));
    let (source, output) = read_args(&args(&[])).unwrap();
    assert_eq!(source, None);
    assert_eq!(output, None);
}

#[test]
fn command_needs_the_mould_extension() {
    assert_eq!(
        command_for("a.mould".to_string(), None, Some("mould".to_string())).unwrap(),
        CliCommand::Run {
            source_path: "a.mould".to_string(),
        }
    );
    assert_eq!(
        command_for("a.mould".to_string(), Some("b".to_string()), Some("mould".to_string())).unwrap(),
        CliCommand::Build {
            source_path: "a.mould".to_string(),
            output_path: "b".to_string(),
        }
    );
    assert_eq!(
        command_for("a.txt".to_string(), None, Some("txt".to_string())).unwrap_err(),
        "source file must have `.mould` extension"
    );
    assert_eq!(
        command_for("a".to_string(), None, None).unwrap_err(),
        "source file must have `.mould` extension"
    );
}

#[test]
fn plain_paths_are_judged_by_their_last_dot() {
    assert_eq!(
        parse_args(&args(&["dir.v1/sub/prog.mould"])).unwrap(),
        CliCommand::Run {
            source_path: "dir.v1/sub/prog.mould".to_string(),
        }
    );
    assert_eq!(
        parse_args(&args(&["prog.mould.bak"])).unwrap_err(),
        "source file must have `.mould` extension"
    );
}

#[test]
fn absolute_source_paths_run() {
    assert_eq!(
        parse_args(&args(&["/home/u/prog.mould"])).unwrap(),
        CliCommand::Run {
            source_path: "/home/u/prog.mould".to_string(),
        }
    );
    assert_eq!(
        parse_args(&args(&["/home/u/prog.txt"])).unwrap_err(),
        "source file must have `.mould` extension"
    );
}
