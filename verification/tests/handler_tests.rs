use ftpoq::auth::{LoginForm, UserData};
use ftpoq::commands::{Command, Commands};
use ftpoq::handlers::{
    create_pasv_response, cwd_check, feat_reply, list_path, mkd_check, nlst_line, opts, pasv_reply,
    pass_check, pass_finish, pbsz, prot, pwd, rest, transfer_check, type_command, user, Cdup,
    PassiveAddress,
};
use ftpoq::reply_code::ReplyCode;
use ftpoq::session::{DataType, ProtMode, SessionProperties, SubType};
use ftpoq::shared::{get_delete_reply, get_transfer_reply, map_error_to_reply, IoError};

fn logged_in() -> SessionProperties {
    let mut s = SessionProperties::new();
    s.username = Some("testuser".to_string());
    s
}

#[test]
fn pasv_response_test() {
    assert_eq!(
        "Entering Passive Mode (127,0,0,1,217,140)",
        create_pasv_response([127, 0, 0, 1], 55692)
    );
}

#[test]
fn pasv_replies() {
    let r = pasv_reply(PassiveAddress::V4 { octets: [10, 0, 0, 2], port: 21 });
    assert_eq!("227 Entering Passive Mode (10,0,0,2,0,21)\r\n", r.to_string());
    assert_eq!(ReplyCode::CommandNotImplementedForThatParameter, pasv_reply(PassiveAddress::V6).code);
    assert_eq!(ReplyCode::SyntaxErrorInParametersOrArguments, pasv_reply(PassiveAddress::Failed).code);
}

#[test]
fn feat_format_test() {
    let reply = feat_reply();
    assert_eq!("Supported features:", reply.lines().first().unwrap());
    assert_eq!("END", reply.lines().last().unwrap());
}

#[test]
fn full_reply_test() {
    const EXPECTED: &str = "211-Supported features:\r\n MLSD\r\n MFMT\r\n REST STREAM\r\n UTF8\r\n RMDA <path>\r\n211 END\r\n";
    assert_eq!(EXPECTED, feat_reply().to_string());
}

#[test]
fn cdup_checks() {
    let session = SessionProperties::new();
    assert_eq!(ReplyCode::NotLoggedIn, Cdup::check(&Command::new(Commands::Cdup, ""), &session).unwrap().code);
    let session = logged_in();
    assert_eq!(
        ReplyCode::SyntaxErrorInParametersOrArguments,
        Cdup::check(&Command::new(Commands::Cdup, "path"), &session).unwrap().code
    );
    assert!(Cdup::check(&Command::new(Commands::Cdup, ""), &session).is_none());
    assert_eq!(ReplyCode::RequestedFileActionOkay, Cdup::finish(Ok(true)).code);
    assert_eq!(ReplyCode::FileUnavailable, Cdup::finish(Err(IoError::PermissionError)).code);
}

#[test]
fn cwd_not_logged_in_test() {
    let session = SessionProperties::new();
    let r = cwd_check(&Command::new(Commands::Cwd, "/test"), &session).unwrap();
    assert_eq!(ReplyCode::NotLoggedIn, r.code);
    let r = cwd_check(&Command::new(Commands::Cwd, ""), &logged_in()).unwrap();
    assert_eq!(ReplyCode::SyntaxErrorInParametersOrArguments, r.code);
    assert!(cwd_check(&Command::new(Commands::Cwd, "/test"), &logged_in()).is_none());
}

#[test]
fn mkd_not_logged_in_test() {
    let r = mkd_check(&Command::new(Commands::Mkd, ""), &SessionProperties::new()).unwrap();
    assert_eq!(ReplyCode::NotLoggedIn, r.code);
}

#[test]
fn type_replies() {
    let mut s = logged_in();
    let r = type_command(&Command::new(Commands::Type, "A N"), &mut s);
    assert_eq!("200 TYPE set to A.\r\n", r.to_string());
    assert_eq!(DataType::Ascii { sub_type: SubType::NonPrint }, s.data_type);
    type_command(&Command::new(Commands::Type, "I"), &mut s);
    assert_eq!(DataType::Binary, s.data_type);
    type_command(&Command::new(Commands::Type, "A T"), &mut s);
    assert_eq!(DataType::Ascii { sub_type: SubType::TelnetFormatEffectors }, s.data_type);
    type_command(&Command::new(Commands::Type, "A C"), &mut s);
    assert_eq!(DataType::Ascii { sub_type: SubType::CarriageControl }, s.data_type);
    let r = type_command(&Command::new(Commands::Type, "E"), &mut s);
    assert_eq!(ReplyCode::CommandNotImplementedForThatParameter, r.code);
    assert_eq!(DataType::Ascii { sub_type: SubType::CarriageControl }, s.data_type);
    let r = type_command(&Command::new(Commands::Type, ""), &mut s);
    assert_eq!(ReplyCode::SyntaxErrorInParametersOrArguments, r.code);
}

#[test]
fn rest_sets_offset_once() {
    let mut s = logged_in();
    let r = rest(&Command::new(Commands::Rest, "1024"), &mut s);
    assert_eq!("350 Restarting at 1024\r\n", r.to_string());
    assert_eq!(1024, s.take_offset());
    assert_eq!(0, s.take_offset());
    let r = rest(&Command::new(Commands::Rest, "-1"), &mut s);
    assert_eq!(ReplyCode::SyntaxErrorInParametersOrArguments, r.code);
    let r = rest(&Command::new(Commands::Rest, "18446744073709551616"), &mut s);
    assert_eq!(ReplyCode::SyntaxErrorInParametersOrArguments, r.code);
    let r = rest(&Command::new(Commands::Rest, "18446744073709551615"), &mut s);
    assert_eq!(ReplyCode::RequestedFileActionPendingFurtherInformation, r.code);
    let mut anonymous = SessionProperties::new();
    assert_eq!(ReplyCode::NotLoggedIn, rest(&Command::new(Commands::Rest, "5"), &mut anonymous).code);
}

#[test]
fn zero_argument_test() {
    let mut s = SessionProperties::new();
    let r = pbsz(&Command::new(Commands::Pbsz, "0"), &mut s);
    assert_eq!(ReplyCode::CommandOkay, r.code);
    assert_eq!(Some(0), s.pbsz);
}

#[test]
fn non_zero_argument_test() {
    let mut s = SessionProperties::new();
    let r = pbsz(&Command::new(Commands::Pbsz, "1024"), &mut s);
    assert_eq!("200 PBSZ=0, provided size is not supported!\r\n", r.to_string());
    assert_eq!(Some(0), s.pbsz);
}

#[test]
fn non_integer_argument_test() {
    let mut s = SessionProperties::new();
    let r = pbsz(&Command::new(Commands::Pbsz, "value"), &mut s);
    assert_eq!(ReplyCode::SyntaxErrorInParametersOrArguments, r.code);
    assert_eq!(None, s.pbsz);
}

#[test]
fn pbsz_empty_argument_test() {
    let mut s = SessionProperties::new();
    let r = pbsz(&Command::new(Commands::Pbsz, ""), &mut s);
    assert_eq!(ReplyCode::SyntaxErrorInParametersOrArguments, r.code);
}

#[test]
fn prot_levels() {
    let mut s = logged_in();
    assert_eq!(ReplyCode::CommandOkay, prot(&Command::new(Commands::Prot, "P"), &mut s, true).code);
    assert_eq!(ProtMode::Private, s.prot_mode);
    assert_eq!(ReplyCode::CommandOkay, prot(&Command::new(Commands::Prot, "C"), &mut s, true).code);
    assert_eq!(ProtMode::Clear, s.prot_mode);
    assert_eq!(ReplyCode::ProtectionLevelNotSupported, prot(&Command::new(Commands::Prot, "S"), &mut s, true).code);
    assert_eq!(ReplyCode::AuthNotAvailable, prot(&Command::new(Commands::Prot, "P"), &mut s, false).code);
    assert_eq!(ProtMode::Clear, s.prot_mode);
    assert_eq!(
        ReplyCode::CommandNotImplementedForThatParameter,
        prot(&Command::new(Commands::Prot, ""), &mut s, true).code
    );
}

#[test]
fn with_argument_test() {
    let r = pwd(&Command::new(Commands::Pwd, "/test_files"), &logged_in(), "/");
    assert_eq!(ReplyCode::SyntaxErrorInParametersOrArguments, r.code);
    let r = pwd(&Command::new(Commands::Pwd, ""), &logged_in(), "/test_files");
    assert_eq!("257 \"/test_files\"\r\n", r.to_string());
    let r = pwd(&Command::new(Commands::Pwd, ""), &SessionProperties::new(), "/");
    assert_eq!(ReplyCode::NotLoggedIn, r.code);
}

#[test]
fn set_username_test() {
    let mut s = SessionProperties::new();
    let r = user(&Command::new(Commands::User, "test"), &mut s);
    assert_eq!(ReplyCode::UserNameOkay, r.code);
    assert_eq!(Some("test".to_string()), s.login_form.username);
}

#[test]
fn empty_username_test() {
    let mut s = SessionProperties::new();
    let r = user(&Command::new(Commands::User, ""), &mut s);
    assert_eq!(ReplyCode::SyntaxErrorInParametersOrArguments, r.code);
    assert_eq!(None, s.login_form.username);
}

#[test]
fn pass_steps() {
    let mut s = SessionProperties::new();
    assert_eq!(
        ReplyCode::SyntaxErrorInParametersOrArguments,
        pass_check(&Command::new(Commands::Pass, ""), &s).unwrap_err().code
    );
    assert_eq!(
        ReplyCode::BadSequenceOfCommands,
        pass_check(&Command::new(Commands::Pass, "pw"), &s).unwrap_err().code
    );
    user(&Command::new(Commands::User, "test"), &mut s);
    let form: LoginForm = pass_check(&Command::new(Commands::Pass, "pw"), &s).unwrap();
    assert_eq!(Some("pw".to_string()), form.password);
    let r = pass_finish(&mut s, form.clone(), None);
    assert_eq!(ReplyCode::NotLoggedIn, r.code);
    assert!(!s.is_logged_in());
    let r = pass_finish(&mut s, form, Some(UserData::new("test", "hash")));
    assert_eq!(ReplyCode::UserLoggedIn, r.code);
    assert!(s.is_logged_in());
}

#[test]
fn opts_utf8() {
    let mut s = logged_in();
    let r = opts(&Command::new(Commands::Opts, "utf8 on"), &mut s);
    assert_eq!(ReplyCode::CommandOkay, r.code);
    assert!(s.utf8);
    let mut s = logged_in();
    let r = opts(&Command::new(Commands::Opts, "MLST size"), &mut s);
    assert_eq!(ReplyCode::SyntaxErrorInParametersOrArguments, r.code);
    assert!(!s.utf8);
}

#[test]
fn transfer_checks() {
    assert_eq!(
        ReplyCode::SyntaxErrorInParametersOrArguments,
        transfer_check(&Command::new(Commands::Retr, ""), &logged_in()).unwrap().code
    );
    assert_eq!(
        ReplyCode::NotLoggedIn,
        transfer_check(&Command::new(Commands::Stor, "NONEXISTENT"), &SessionProperties::new()).unwrap().code
    );
    assert!(transfer_check(&Command::new(Commands::Retr, "file"), &logged_in()).is_none());
    assert_eq!("226 Transfer complete!\r\n", get_transfer_reply(true).to_string());
    assert_eq!(ReplyCode::ConnectionClosedTransferAborted, get_transfer_reply(false).code);
}

#[test]
fn list_paths() {
    assert_eq!("", list_path(""));
    assert_eq!("", list_path("-a"));
    assert_eq!(".", list_path("-l ."));
    assert_eq!("dir", list_path("dir"));
    assert_eq!("l", list_path("-al"));
    assert_eq!("-x y", list_path("-x y"));
    assert_eq!(".", list_path("a\nb"));
}

#[test]
fn nlst_lines() {
    assert_eq!(" file.txt\r\n", nlst_line("file.txt"));
}

#[test]
fn error_replies() {
    assert_eq!(
        "550 Insufficient permissions!\r\n",
        map_error_to_reply(IoError::PermissionError).to_string()
    );
    assert_eq!(
        "550 no such file\r\n",
        map_error_to_reply(IoError::NotFoundError("no such file".to_string())).to_string()
    );
    assert_eq!(ReplyCode::RequestedActionAborted, map_error_to_reply(IoError::SystemError).code);
    assert_eq!(ReplyCode::NotLoggedIn, map_error_to_reply(IoError::UserError).code);
    assert_eq!("250 File deleted\r\n", get_delete_reply(Ok(()), true).to_string());
    assert_eq!(ReplyCode::SyntaxErrorInParametersOrArguments, get_delete_reply(Err(IoError::NotAFileError), false).code);
}
