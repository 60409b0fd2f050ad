use todork::cli::{ArgErrorKind, Args, Command, SortOrder};
use todork::error::TodorkError;

fn error_of(argv: &[&str]) -> (ArgErrorKind, String) {
    match Args::parse_from(argv) {
        Ok(_) => panic!("expected {argv:?} to be refused"),
        Err(e) => (e.kind, e.arg),
    }
}

#[test]
fn each_argument_error_kind() {
    assert_eq!(error_of(&["todork", "--help"]), (ArgErrorKind::HelpRequested, "--help".to_string()));
    assert_eq!(error_of(&["todork", "-V"]), (ArgErrorKind::VersionRequested, "-V".to_string()));
    assert_eq!(error_of(&["todork", "--bogus"]), (ArgErrorKind::UnknownArgument, "--bogus".to_string()));
    assert_eq!(error_of(&["todork", "--format"]), (ArgErrorKind::MissingValue, "--format".to_string()));
    assert_eq!(error_of(&["todork", "--format", "xml"]), (ArgErrorKind::InvalidValue, "xml".to_string()));
    assert_eq!(
        error_of(&["todork", "--hidden=yes"]),
        (ArgErrorKind::UnexpectedValue, "--hidden=yes".to_string())
    );
    assert_eq!(
        error_of(&["todork", "--hidden", "--hidden"]),
        (ArgErrorKind::Repeated, "--hidden".to_string())
    );
    assert_eq!(error_of(&["todork", "--threads", "-1"]).0, ArgErrorKind::MissingValue);
}

#[test]
fn attached_values_and_subcommand() {
    let a = Args::parse_from(&["todork", "--sort=newest", "-tTODO", "--limit", "5"]).unwrap();
    assert_eq!(a.sort, SortOrder::Newest);
    assert_eq!(a.tags, vec!["TODO"]);
    assert_eq!(a.limit, Some(5));
    let u = Args::parse_from(&["todork", "upgrade"]).unwrap();
    assert_eq!(u.command, Some(Command::Upgrade));
    let p = Args::parse_from(&["todork", "--", "--help"]).unwrap();
    assert_eq!(p.paths, vec!["--help".to_string()]);
}

#[test]
fn error_messages_are_exact() {
    assert_eq!(TodorkError::Io("disk".to_string()).message(), "I/O error: disk");
    assert_eq!(TodorkError::Walk("loop".to_string()).message(), "File walk error: loop");
    assert_eq!(
        TodorkError::InvalidGlob { pattern: "a[".to_string(), reason: "bad".to_string() }.message(),
        "Invalid glob pattern 'a[': bad"
    );
    assert_eq!(
        TodorkError::InvalidTag("x-y".to_string()).message(),
        "Invalid tag 'x-y': tags must be non-empty ASCII identifiers"
    );
    assert_eq!(TodorkError::Pattern("too big".to_string()).message(), "Invalid pattern: too big");
}
