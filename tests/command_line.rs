use phatjs::args::{parse_args, ArgsError, ScriptCode};

fn argv(list: &[&str]) -> Vec<String> {
    list.iter().map(|x| x.to_string()).collect()
}

#[test]
fn sources_files_and_script_args() {
    let a = parse_args(argv(&["phatjs", "-c", "1+1", "main.js", "--", "x", "-c"])).ok().unwrap();
    assert_eq!(a.codes.len(), 2);
    assert!(matches!(&a.codes[0], ScriptCode::Source(s) if s == "1+1"));
    assert!(matches!(&a.codes[1], ScriptCode::File(f) if f == "main.js"));
    assert_eq!(a.js_args, argv(&["x", "-c"]));
}

#[test]
fn bytecode_is_decoded_from_hex() {
    let a = parse_args(argv(&["phatjs", "-b", "0aFF10"])).ok().unwrap();
    assert!(matches!(&a.codes[0], ScriptCode::Bytecode(b) if b == &vec![0x0a, 0xff, 0x10]));
    assert!(a.js_args.is_empty());
}

#[test]
fn bad_bytecode_is_refused() {
    assert!(matches!(parse_args(argv(&["phatjs", "-b", "0g"])), Err(ArgsError::BadBytecode)));
    assert!(matches!(parse_args(argv(&["phatjs", "-b", "abc"])), Err(ArgsError::BadBytecode)));
}

#[test]
fn missing_option_values() {
    let e = parse_args(argv(&["phatjs", "-c"])).err().unwrap();
    assert_eq!(e.message(), "Missing code after -c");
    assert!(!e.shows_usage());
    let e = parse_args(argv(&["phatjs", "x.js", "-b"])).err().unwrap();
    assert!(matches!(e, ArgsError::MissingBytecode));
}

#[test]
fn unknown_option_and_no_script() {
    let e = parse_args(argv(&["phatjs", "-x"])).err().unwrap();
    assert_eq!(e.message(), "Unknown option: -x");
    assert!(e.shows_usage());
    let e = parse_args(argv(&["phatjs"])).err().unwrap();
    assert_eq!(e.message(), "No script file provided");
    assert!(e.shows_usage());
    let e = parse_args(argv(&["phatjs", "--", "a.js"])).err().unwrap();
    assert!(matches!(e, ArgsError::NoScript));
    assert!(matches!(parse_args(Vec::new()), Err(ArgsError::NoScript)));
}
