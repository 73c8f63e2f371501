use tofnd::config::{config_from_cli, parse_port, Config};
use tofnd::encrypted_sled::PasswordMethod;
use tofnd::mnemonic::Cmd;
use tofnd::TofndError;

#[test]
fn default_config_values() {
    let c = Config::default();
    assert_eq!(c.port, 50051);
    assert!(c.safe_keygen);
    assert_eq!(c.mnemonic_cmd, Cmd::Existing);
    assert_eq!(c.tofnd_path, ".tofnd");
    assert_eq!(c.password_method, PasswordMethod::Prompt);
}

#[test]
fn parse_port_accepts_digits() {
    assert_eq!(parse_port(&b"50051".to_vec()), Some(50051));
    assert_eq!(parse_port(&b"0".to_vec()), Some(0));
    assert_eq!(parse_port(&b"65535".to_vec()), Some(65535));
    assert_eq!(parse_port(&b"007".to_vec()), Some(7));
}

#[test]
fn parse_port_rejects_out_of_range_and_junk() {
    assert_eq!(parse_port(&b"65536".to_vec()), None);
    assert_eq!(parse_port(&b"".to_vec()), None);
    assert_eq!(parse_port(&b"12a".to_vec()), None);
    assert_eq!(parse_port(&b"-1".to_vec()), None);
    assert_eq!(parse_port(&b"99999999999999999999".to_vec()), None);
}

#[test]
fn cmd_from_string_known_names() {
    assert!(matches!(Cmd::from_string("existing"), Ok(Cmd::Existing)));
    assert!(matches!(Cmd::from_string("create"), Ok(Cmd::Create)));
    assert!(matches!(Cmd::from_string("import"), Ok(Cmd::Import)));
    assert!(matches!(Cmd::from_string("export"), Ok(Cmd::Export)));
}

#[test]
fn cmd_from_string_unknown_name() {
    assert!(matches!(
        Cmd::from_string("delete"),
        Err(TofndError::InvalidArgument)
    ));
    assert!(matches!(
        Cmd::from_string(""),
        Err(TofndError::InvalidArgument)
    ));
}

#[test]
fn config_from_cli_happy_path() {
    let c = config_from_cli(
        &b"5000".to_vec(),
        true,
        "import",
        String::from("/tmp/tofnd-home"),
        true,
    )
    .unwrap();
    assert_eq!(c.port, 5000);
    assert!(!c.safe_keygen);
    assert_eq!(c.mnemonic_cmd, Cmd::Import);
    assert_eq!(c.tofnd_path, "/tmp/tofnd-home");
    assert_eq!(c.password_method, PasswordMethod::NoPassword);
}

#[test]
fn config_from_cli_rejects_bad_port() {
    assert!(matches!(
        config_from_cli(&b"port".to_vec(), false, "existing", String::new(), false),
        Err(TofndError::InvalidArgument)
    ));
}

#[test]
fn config_from_cli_rejects_bad_command() {
    assert!(matches!(
        config_from_cli(&b"50051".to_vec(), false, "exists", String::new(), false),
        Err(TofndError::InvalidArgument)
    ));
}
