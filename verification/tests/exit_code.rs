use todork::exit_code::ExitCode;

#[test]
fn exit_code_values() {
    assert_eq!(ExitCode::Success as i32, 0);
    assert_eq!(ExitCode::NotFound as i32, 1);
    assert_eq!(ExitCode::Error as i32, 2);
}

#[test]
fn exit_code_numbers_match_variants() {
    assert_eq!(ExitCode::Success.code(), 0);
    assert_eq!(ExitCode::NotFound.code(), 1);
    assert_eq!(ExitCode::Error.code(), 2);
}
