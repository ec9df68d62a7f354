use sharc::args::{Arg, Args, Stop};
use sharc::report::Level;

fn parse(args: &[&str]) -> Result<Args, Stop> {
    Args::parse(args.iter().map(|a| a.to_string()).collect())
}

#[test]
fn a_setting_holds_its_value() {
    let mut arg = Arg::new(3u8, "--three");
    assert_eq!(*arg.get(), 3);
    assert_eq!(arg.try_mut(4), Ok(()));
    assert_eq!(*arg.get(), 4);
    assert_eq!(arg.try_mut(5), Ok(()));
    assert_eq!(*arg.get(), 5);
}

#[test]
fn settings_before_any_argument() {
    let args = Args::default();
    assert_eq!(args.file.get(), "main.shd");
    assert_eq!(args.output.get(), "main.asm");
    assert!(!*args.debug.get());
    assert!(*args.code_context.get());
    assert_eq!(*args.level.get(), Level::Warn);
    assert!(args.verbs.is_empty());
    let parsed = parse(&[]).unwrap();
    assert_eq!(parsed.file.get(), "main.shd");
    assert!(parsed.verbs.is_empty());
}

#[test]
fn flags_set_their_settings() {
    let args = parse(&["--debug", "--file", "a.shd", "-o", "a.asm", "--error-level", "note", "--no-context"])
        .unwrap();
    assert!(*args.debug.get());
    assert_eq!(args.file.get(), "a.shd");
    assert_eq!(args.output.get(), "a.asm");
    assert_eq!(*args.level.get(), Level::Note);
    assert!(!*args.code_context.get());
    let args = parse(&["-df", "b.shd", "-l", "s", "build", "--not-a-flag", "shark"]).unwrap();
    assert!(*args.debug.get());
    assert_eq!(args.file.get(), "b.shd");
    assert_eq!(*args.level.get(), Level::Silent);
    assert_eq!(args.verbs, vec!["build", "--not-a-flag", "shark"]);
    let args = parse(&["-d", "-d", "--output", "--file"]).unwrap();
    assert_eq!(args.output.get(), "--file");
    for (word, level) in [
        ("f", Level::Fatal),
        ("fatal", Level::Fatal),
        ("e", Level::Error),
        ("error", Level::Error),
        ("w", Level::Warn),
        ("warn", Level::Warn),
        ("n", Level::Note),
        ("note", Level::Note),
        ("s", Level::Silent),
        ("silent", Level::Silent),
    ] {
        assert_eq!(*parse(&["-l", word]).unwrap().level.get(), level);
    }
    assert!(parse(&["-"]).unwrap().verbs.is_empty());
}

#[test]
fn arguments_that_end_the_run() {
    assert_eq!(parse(&["-h"]).unwrap_err(), Stop::Usage);
    assert_eq!(parse(&["--h"]).unwrap_err(), Stop::Usage);
    assert_eq!(parse(&["--help"]).unwrap_err(), Stop::Help);
    assert_eq!(parse(&["-V"]).unwrap_err(), Stop::Version);
    assert_eq!(parse(&["--version"]).unwrap_err(), Stop::Version);
    assert_eq!(parse(&["-dV"]).unwrap_err(), Stop::Version);
    assert_eq!(parse(&["shark"]).unwrap_err(), Stop::Shark);
    assert_eq!(parse(&["-d", "shark", "x"]).unwrap_err(), Stop::Shark);
    assert_eq!(parse(&["-fd", "a.shd"]).unwrap_err(), Stop::NotLast);
    assert_eq!(parse(&["-ld"]).unwrap_err(), Stop::NotLast);
    assert_eq!(parse(&["-od"]).unwrap_err(), Stop::NotLast);
    assert_eq!(parse(&["--error-level"]).unwrap_err(), Stop::ExpectedLevel);
    assert_eq!(parse(&["-d", "-l"]).unwrap_err(), Stop::ExpectedLevel);
    assert_eq!(parse(&["--file"]).unwrap_err(), Stop::ExpectedFile);
    assert_eq!(parse(&["-o"]).unwrap_err(), Stop::ExpectedFile);
    assert_eq!(
        parse(&["-l", "loud"]).unwrap_err(),
        Stop::InvalidLevel(String::from("loud"))
    );
    assert_eq!(
        parse(&["--colour"]).unwrap_err(),
        Stop::Unrecognized(String::from("colour"))
    );
    assert_eq!(parse(&["-dx"]).unwrap_err(), Stop::Unrecognized(String::from("x")));
    assert_eq!(parse(&["--"]).unwrap_err(), Stop::Unrecognized(String::new()));
    assert_eq!(parse(&["-\u{e9}"]).unwrap_err(), Stop::Unrecognized(String::from("\u{e9}")));
    assert_eq!(parse(&["-v"]).unwrap_err(), Stop::Unrecognized(String::from("v")));
}

#[test]
fn words_and_codes_of_a_stop() {
    assert_eq!(Stop::Usage.message(), None);
    assert_eq!(Stop::Help.message(), None);
    assert_eq!(Stop::Version.message(), None);
    assert_eq!(Stop::Shark.message(), None);
    assert_eq!(
        Stop::Repeated("--debug").message().as_deref(),
        Some("the argument --debug cannot be used multiple times")
    );
    assert_eq!(
        Stop::NotLast.message().as_deref(),
        Some("flags with parameters must be at the end of a group, or defined separately")
    );
    assert_eq!(Stop::ExpectedLevel.message().as_deref(), Some("expected level"));
    assert_eq!(Stop::ExpectedFile.message().as_deref(), Some("expected file"));
    assert_eq!(
        Stop::InvalidLevel(String::from("loud")).message().as_deref(),
        Some("invalid level `loud`")
    );
    assert_eq!(
        Stop::Unrecognized(String::from("x")).message().as_deref(),
        Some("unrecognized argument 'x'")
    );
    assert_eq!(Stop::Usage.exit_code(), 0);
    assert_eq!(Stop::Help.exit_code(), 0);
    assert_eq!(Stop::Version.exit_code(), 0);
    assert_eq!(Stop::Shark.exit_code(), 1);
    assert_eq!(Stop::NotLast.exit_code(), 1);
    assert_eq!(Stop::Unrecognized(String::new()).exit_code(), 1);
}
