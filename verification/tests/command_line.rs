use rcodex::cli::{Cli, Command};

#[test]
fn pairing_code_can_be_read_from_a_hidden_prompt() {
    let cli = Cli::try_parse_from(&["rcodex", "pair"]).unwrap();
    let Some(Command::Pair { code }) = cli.command else {
        panic!("pair command was not parsed");
    };
    assert!(code.is_none());
}

#[test]
fn pairing_code_can_be_given_as_an_argument() {
    let cli = Cli::try_parse_from(&["rcodex", "pair", "ABCD-EFGH"]).unwrap();
    let Some(Command::Pair { code }) = cli.command else {
        panic!("pair command was not parsed");
    };
    assert_eq!(code.as_deref(), Some("ABCD-EFGH"));
}

#[test]
fn global_options_and_probe_device_are_read() {
    let cli = Cli::try_parse_from(&["rcodex", "--device", "env-1", "-C", "/srv/project"]).unwrap();
    assert_eq!(cli.device.as_deref(), Some("env-1"));
    assert_eq!(cli.remote_cwd.as_deref(), Some("/srv/project"));
    assert!(cli.command.is_none());

    let cli = Cli::try_parse_from(&["rcodex", "--cd=/srv", "probe", "--device=env-2"]).unwrap();
    assert_eq!(cli.remote_cwd.as_deref(), Some("/srv"));
    let Some(Command::Probe { device }) = cli.command else {
        panic!("probe command was not parsed");
    };
    assert_eq!(device, "env-2");
}

#[test]
fn unknown_or_incomplete_command_lines_are_left_to_the_full_reader() {
    assert!(Cli::try_parse_from(&["rcodex", "--help"]).is_err());
    assert!(Cli::try_parse_from(&["rcodex", "probe"]).is_err());
    assert!(Cli::try_parse_from(&["rcodex", "devices", "extra"]).is_err());
    assert!(Cli::try_parse_from(&["rcodex", "--device", "a", "--device", "b"]).is_err());
    assert!(Cli::try_parse_from(&["rcodex", "pair", "--device", "x"]).is_err());
    assert!(Cli::try_parse_from(&[]).is_err());
}
