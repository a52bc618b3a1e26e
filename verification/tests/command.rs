use mkcbz::command::{parse_args, ArgsError, Inputs, Output};

fn args(list: &[&str]) -> Vec<String> {
    list.iter().map(|s| s.to_string()).collect()
}

#[test]
fn too_few_arguments() {
    assert!(matches!(parse_args(args(&[])), Err(ArgsError::TooFewArguments)));
    assert!(matches!(parse_args(args(&["mkcbz"])), Err(ArgsError::TooFewArguments)));
    assert!(matches!(parse_args(args(&["mkcbz", "out.cbz"])), Err(ArgsError::TooFewArguments)));
}

#[test]
fn one_input_is_a_directory() {
    let cmd = parse_args(args(&["mkcbz", "out.cbz", "pages"])).expect("valid");
    assert!(matches!(cmd.output, Output::File(ref p) if p == "out.cbz"));
    assert!(matches!(cmd.inputs, Inputs::Directory(ref d) if d == "pages"));
}

#[test]
fn dash_is_standard_output() {
    let cmd = parse_args(args(&["mkcbz", "-", "pages"])).expect("valid");
    assert!(matches!(cmd.output, Output::Stdout));
    let cmd = parse_args(args(&["mkcbz", "--", "pages"])).expect("valid");
    assert!(matches!(cmd.output, Output::File(ref p) if p == "--"));
}

#[test]
fn several_inputs_are_files() {
    let cmd = parse_args(args(&["mkcbz", "-", "b.png", "a.avif", "c.jpg"])).expect("valid");
    assert!(matches!(cmd.output, Output::Stdout));
    match cmd.inputs {
        Inputs::Files(files) => assert_eq!(files, args(&["b.png", "a.avif", "c.jpg"])),
        Inputs::Directory(_) => panic!("expected files"),
    }
}
