use ftpoq::commands::{Command, CommandParseError, Commands};

#[test]
fn mlsd_test() {
    let parsed = Command::from_str("mlsd test");
    assert!(parsed.is_ok());
    assert_eq!(Commands::Mlsd, parsed.as_ref().unwrap().command);
    assert_eq!("test", parsed.as_ref().unwrap().argument);
}

#[test]
fn noop_test() {
    let parsed = Command::from_str("noop");
    assert!(parsed.is_ok());
    assert_eq!(Commands::Noop, parsed.as_ref().unwrap().command);
    assert!(parsed.as_ref().unwrap().argument.is_empty());
}

#[test]
fn user_test() {
    let parsed = Command::from_str("user test");
    assert!(parsed.is_ok());
    assert_eq!(Commands::User, parsed.as_ref().unwrap().command);
    assert_eq!("test", parsed.as_ref().unwrap().argument);
}

#[test]
fn command_line_with_crlf_and_spaces_in_argument() {
    let parsed = Command::from_str("STOR my file.txt\r\n").unwrap();
    assert_eq!(Commands::Stor, parsed.command);
    assert_eq!("my file.txt", parsed.argument);
}

#[test]
fn mixed_case_name() {
    let parsed = Command::from_str("RmDa dir\n").unwrap();
    assert_eq!(Commands::Rmda, parsed.command);
    assert_eq!("dir", parsed.argument);
}

#[test]
fn unknown_command_is_an_error() {
    assert_eq!(Err(CommandParseError::UnknownCommand), Command::from_str("XYZ a").map(|_| ()));
    assert_eq!(Err(CommandParseError::UnknownCommand), Command::from_str("").map(|_| ()));
}

#[test]
fn not_implemented_commands() {
    let cmd = Command::new(Commands::Mfmt, "20200101000000 file");
    assert!(cmd.not_implemented_reply().is_some());
    let cmd = Command::new(Commands::Retr, "file");
    assert!(cmd.not_implemented_reply().is_none());
    for c in [Commands::Pbsz, Commands::Prot] {
        assert!(Command::new(c, "").not_implemented_reply().is_none());
    }
    for c in [Commands::Opts, Commands::Abor] {
        assert!(Command::new(c, "").not_implemented_reply().is_some());
    }
    assert_eq!(
        "502 Command not implemented!\r\n",
        Command::new(Commands::Auth, "TLS").not_implemented_reply().unwrap().to_string()
    );
}
