use koto_core::cli::{help_string, parse_arguments, version_string};

fn args(list: &[&str]) -> Vec<String> {
    list.iter().map(|s| s.to_string()).collect()
}

#[test]
fn version_and_help() {
    assert_eq!(version_string(), "Koto 0.1.0");
    let help = help_string();
    assert!(help.starts_with("Koto 0.1.0\n\nUSAGE:\n    koto [FLAGS] [script] [<args>...]\n\nFLAGS:\n"));
    assert!(help.contains("    -t, --tests              Run the script's tests before running the script\n"));
    assert!(help.ends_with("    <args>...    Arguments to pass into the script\n"));
}

#[test]
fn no_arguments() {
    let parsed = parse_arguments(vec![]).unwrap();
    assert!(!parsed.help && !parsed.version && !parsed.run_tests);
    assert!(!parsed.show_bytecode && !parsed.show_annotated);
    assert_eq!(parsed.script, None);
    assert!(parsed.script_args.is_empty());
}

#[test]
fn flags_script_and_arguments() {
    let parsed = parse_arguments(args(&["-t", "script.koto", "--show_bytecode", "one", "-", "two"])).unwrap();
    assert!(parsed.run_tests);
    assert!(parsed.show_bytecode);
    assert!(!parsed.help && !parsed.version && !parsed.show_annotated);
    assert_eq!(parsed.script.as_deref(), Some("script.koto"));
    assert_eq!(parsed.script_args, args(&["one", "-", "two"]));
}

#[test]
fn each_flag_in_both_forms() {
    for (flag, pick) in [
        ("-h", 0),
        ("--help", 0),
        ("-v", 1),
        ("--version", 1),
        ("-t", 2),
        ("--tests", 2),
        ("-b", 3),
        ("--show_bytecode", 3),
        ("-i", 4),
        ("--show_instructions", 4),
    ] {
        let parsed = parse_arguments(args(&[flag])).unwrap();
        let found = [
            parsed.help,
            parsed.version,
            parsed.run_tests,
            parsed.show_bytecode,
            parsed.show_annotated,
        ];
        for (i, value) in found.iter().enumerate() {
            assert_eq!(*value, i == pick, "{flag}");
        }
        assert_eq!(parsed.script, None);
    }
}

#[test]
fn a_flag_is_taken_once() {
    assert_eq!(
        parse_arguments(args(&["-h", "-h"])).unwrap_err(),
        "Unsupported argument: -h"
    );
    // The short form is looked for first, wherever it stands.
    assert_eq!(
        parse_arguments(args(&["--help", "-h", "x"])).unwrap_err(),
        "Unsupported argument: --help"
    );
    let parsed = parse_arguments(args(&["x", "-h", "y"])).unwrap();
    assert!(parsed.help);
    assert_eq!(parsed.script.as_deref(), Some("x"));
    assert_eq!(parsed.script_args, args(&["y"]));
}

#[test]
fn unknown_flags_are_refused() {
    assert_eq!(
        parse_arguments(args(&["script.koto", "--nope", "-x"])).unwrap_err(),
        "Unsupported argument: --nope"
    );
    assert_eq!(parse_arguments(args(&["--nope"])).unwrap_err(), "Unsupported argument: --nope");
}
