use pyappify::error::EnvError;

#[test]
fn a_system_failure_speaks_for_itself() {
    assert_eq!(
        EnvError::Io("access denied".to_string()).message(),
        "access denied"
    );
}
