use mould::cli::{parse_args, CliCommand};

#[test]
fn parses_run_command() {
    let command = parse_args(&vec!["samples/hello.mould".to_string()]).unwrap();

    match command {
        CliCommand::Run { source_path } => {
            assert_eq!(source_path, "samples/hello.mould");
        }
        CliCommand::Build { .. } => panic!("expected run command"),
    }
}

#[test]
fn parses_build_command() {
    let command = parse_args(&vec![
        "samples/hello.mould".to_string(),
        "-o".to_string(),
        "hello".to_string(),
    ])
    .unwrap();

    match command {
        CliCommand::Build {
            source_path,
            output_path,
        } => {
            assert_eq!(source_path, "samples/hello.mould");
            assert_eq!(output_path, "hello");
        }
        CliCommand::Run { .. } => panic!("expected build command"),
    }
}

#[test]
fn rejects_non_mould_file() {
    let error = parse_args(&vec!["samples/hello.txt".to_string()]).unwrap_err();

    assert!(error.contains("`.mould`"));
}
