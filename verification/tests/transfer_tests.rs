use ftpoq::commands::{Command, Commands};
use ftpoq::permission::EntryType;
use ftpoq::reply::Reply;
use ftpoq::reply_code::ReplyCode;
use ftpoq::session::SessionProperties;
use ftpoq::shared::IoError;
use ftpoq::transfer::{
    listing_body, listing_step, transfer_step, FileAccess, ListingAction, ListingEntry, ListingEvent,
    ListingKind, ListingState, TransferAction, TransferDirection, TransferEvent, TransferState,
};

fn logged_in() -> SessionProperties {
    let mut session = SessionProperties::new();
    session.username = Some("testuser".to_string());
    session
}

fn finish(action: TransferAction) -> (Reply, bool) {
    match action {
        TransferAction::Finish { reply, shutdown } => (reply, shutdown),
        other => panic!("expected the end of the transfer, got {:?}", other),
    }
}

fn entry(entry_type: EntryType, name: &str) -> ListingEntry {
    ListingEntry {
        entry_type,
        name: name.to_string(),
        list_line: format!("list {}\r\n", name),
        facts_line: format!("type={:?}; {}\r\n", entry_type, name),
    }
}

fn entries() -> Vec<ListingEntry> {
    vec![entry(EntryType::Cdir, "."), entry(EntryType::File, "a.txt"), entry(EntryType::Dir, "sub")]
}

#[test]
fn retrieval_runs_from_start_to_completion() {
    let command = Command::new(Commands::Retr, "file.txt");
    let mut session = logged_in();
    session.offset = 42;
    let d = TransferDirection::Retrieve;

    let (state, action) = transfer_step(d, TransferState::Begin, TransferEvent::Start, &command, &mut session);
    assert_eq!(TransferState::AwaitingChannel, state);
    assert!(matches!(action, TransferAction::AcquireChannel));

    let (state, action) =
        transfer_step(d, state, TransferEvent::ChannelAcquired(true), &command, &mut session);
    assert_eq!(TransferState::AwaitingFile, state);
    assert!(matches!(action, TransferAction::OpenFile(FileAccess::Read)));

    let (state, action) = transfer_step(d, state, TransferEvent::FileOpened(Ok(())), &command, &mut session);
    assert_eq!(TransferState::Copying, state);
    match action {
        TransferAction::StartCopy { reply, offset } => {
            assert_eq!("150 Starting file transfer!\r\n", reply.to_string());
            assert_eq!(42, offset);
        }
        other => panic!("expected the copy to start, got {:?}", other),
    }
    assert_eq!(0, session.offset);

    let (state, action) = transfer_step(d, state, TransferEvent::CopyFinished(true), &command, &mut session);
    assert_eq!(TransferState::Done, state);
    let (reply, shutdown) = finish(action);
    assert_eq!("226 Transfer complete!\r\n", reply.to_string());
    assert!(shutdown);
}

#[test]
fn store_opens_for_writing_and_keeps_the_offset() {
    let command = Command::new(Commands::Stor, "upload.bin");
    let mut session = logged_in();
    session.offset = 7;
    let d = TransferDirection::Store;

    let (state, _) = transfer_step(d, TransferState::Begin, TransferEvent::Start, &command, &mut session);
    let (state, action) = transfer_step(d, state, TransferEvent::ChannelAcquired(true), &command, &mut session);
    assert!(matches!(action, TransferAction::OpenFile(FileAccess::WriteTruncateCreate)));
    let (state, action) = transfer_step(d, state, TransferEvent::FileOpened(Ok(())), &command, &mut session);
    match action {
        TransferAction::StartCopy { offset, .. } => assert_eq!(0, offset),
        other => panic!("expected the copy to start, got {:?}", other),
    }
    assert_eq!(7, session.offset);

    let (state, action) = transfer_step(d, state, TransferEvent::CopyFinished(false), &command, &mut session);
    assert_eq!(TransferState::Done, state);
    let (reply, shutdown) = finish(action);
    assert_eq!("426 Error occurred during transfer!\r\n", reply.to_string());
    assert!(!shutdown);
}

#[test]
fn transfer_refuses_before_acquiring_a_channel() {
    let d = TransferDirection::Retrieve;
    let mut session = logged_in();
    let (state, action) =
        transfer_step(d, TransferState::Begin, TransferEvent::Start, &Command::new(Commands::Retr, ""), &mut session);
    assert_eq!(TransferState::Done, state);
    assert_eq!(ReplyCode::SyntaxErrorInParametersOrArguments, finish(action).0.code);

    let mut anonymous = SessionProperties::new();
    let (state, action) = transfer_step(
        d,
        TransferState::Begin,
        TransferEvent::Start,
        &Command::new(Commands::Retr, "NONEXISTENT"),
        &mut anonymous,
    );
    assert_eq!(TransferState::Done, state);
    assert_eq!("530 User not logged in!\r\n", finish(action).0.to_string());
}

#[test]
fn transfer_without_channel_or_file_ends_with_the_error() {
    let command = Command::new(Commands::Retr, "test_files/1MiB.txt");
    let d = TransferDirection::Retrieve;
    let mut session = logged_in();
    session.offset = 5;

    let (state, action) =
        transfer_step(d, TransferState::AwaitingChannel, TransferEvent::ChannelAcquired(false), &command, &mut session);
    assert_eq!(TransferState::Done, state);
    assert_eq!("503 Data channel must be open first!\r\n", finish(action).0.to_string());

    let (state, action) = transfer_step(
        d,
        TransferState::AwaitingFile,
        TransferEvent::FileOpened(Err(IoError::NotFoundError("No such file!".to_string()))),
        &command,
        &mut session,
    );
    assert_eq!(TransferState::Done, state);
    let (reply, shutdown) = finish(action);
    assert_eq!("550 No such file!\r\n", reply.to_string());
    assert!(!shutdown);
    assert_eq!(5, session.offset);

    let (_, action) = transfer_step(
        d,
        TransferState::AwaitingFile,
        TransferEvent::FileOpened(Err(IoError::NotAFileError)),
        &command,
        &mut session,
    );
    assert_eq!(ReplyCode::SyntaxErrorInParametersOrArguments, finish(action).0.code);
}

#[test]
fn transfer_ignores_events_out_of_turn() {
    let command = Command::new(Commands::Retr, "file.txt");
    let mut session = logged_in();
    session.offset = 9;
    let (state, action) = transfer_step(
        TransferDirection::Retrieve,
        TransferState::Copying,
        TransferEvent::FileOpened(Ok(())),
        &command,
        &mut session,
    );
    assert_eq!(TransferState::Copying, state);
    assert!(matches!(action, TransferAction::Ignore));
    assert_eq!(9, session.offset);
}

#[test]
fn listing_bodies_per_kind() {
    let e = entries();
    assert_eq!("list a.txt\r\nlist sub\r\n", listing_body(ListingKind::List, &e));
    assert_eq!(" a.txt\r\n sub\r\n", listing_body(ListingKind::Nlst, &e));
    assert_eq!("type=Cdir; .\r\ntype=File; a.txt\r\ntype=Dir; sub\r\n", listing_body(ListingKind::Mlsd, &e));
    assert_eq!("", listing_body(ListingKind::Nlst, &Vec::new()));
}

#[test]
fn list_runs_from_start_to_completion() {
    let command = Command::new(Commands::List, "-l sub");
    let session = logged_in();
    let k = ListingKind::List;

    let (state, action) = listing_step(k, ListingState::Begin, ListingEvent::Start, &command, &session);
    match action {
        ListingAction::ListDirectory(path) => assert_eq!("sub", path),
        other => panic!("expected a listing, got {:?}", other),
    }
    let (state, action) = listing_step(k, state, ListingEvent::Listed(Ok(entries())), &command, &session);
    assert!(matches!(action, ListingAction::AcquireChannel { wait: true }));
    let (state, action) = listing_step(k, state, ListingEvent::ChannelAcquired(true), &command, &session);
    match action {
        ListingAction::Send { announce, text } => {
            assert_eq!("150 Transferring directory information!\r\n", announce.unwrap().to_string());
            assert_eq!("list a.txt\r\nlist sub\r\n", text);
        }
        other => panic!("expected the listing to be sent, got {:?}", other),
    }
    let (state, action) = listing_step(k, state, ListingEvent::Sent, &command, &session);
    assert!(matches!(state, ListingState::Done));
    match action {
        ListingAction::Finish { shutdown, replies, close } => {
            assert!(shutdown);
            assert!(!close);
            assert_eq!(1, replies.len());
            assert_eq!("226 Directory information sent!\r\n", replies[0].to_string());
        }
        other => panic!("expected the end of the listing, got {:?}", other),
    }
}

#[test]
fn mlsd_announces_after_sending() {
    let command = Command::new(Commands::Mlsd, "");
    let anonymous = SessionProperties::new();
    let k = ListingKind::Mlsd;

    let (state, action) = listing_step(k, ListingState::Begin, ListingEvent::Start, &command, &anonymous);
    match action {
        ListingAction::ListDirectory(path) => assert_eq!("", path),
        other => panic!("expected a listing, got {:?}", other),
    }
    let (state, action) = listing_step(k, state, ListingEvent::Listed(Ok(entries())), &command, &anonymous);
    assert!(matches!(action, ListingAction::AcquireChannel { wait: false }));
    let (state, action) = listing_step(k, state, ListingEvent::ChannelAcquired(true), &command, &anonymous);
    match action {
        ListingAction::Send { announce, text } => {
            assert!(announce.is_none());
            assert_eq!(3, text.lines().count());
        }
        other => panic!("expected the listing to be sent, got {:?}", other),
    }
    let (_, action) = listing_step(k, state, ListingEvent::Sent, &command, &anonymous);
    match action {
        ListingAction::Finish { shutdown, replies, close } => {
            assert!(!shutdown);
            assert!(close);
            let codes: Vec<ReplyCode> = replies.iter().map(|r| r.code).collect();
            assert_eq!(vec![ReplyCode::FileStatusOkay, ReplyCode::ClosingDataConnection], codes);
        }
        other => panic!("expected the end of the listing, got {:?}", other),
    }
}

#[test]
fn listing_refusals() {
    let anonymous = SessionProperties::new();
    let (state, action) = listing_step(
        ListingKind::Nlst,
        ListingState::Begin,
        ListingEvent::Start,
        &Command::new(Commands::Nlst, ""),
        &anonymous,
    );
    assert!(matches!(state, ListingState::Done));
    match action {
        ListingAction::Finish { replies, .. } => assert_eq!("530 User not logged in!\r\n", replies[0].to_string()),
        other => panic!("expected a refusal, got {:?}", other),
    }

    let session = logged_in();
    let command = Command::new(Commands::Mlsd, "1MiB.txt");
    let (_, action) = listing_step(
        ListingKind::Mlsd,
        ListingState::AwaitingListing,
        ListingEvent::Listed(Err(IoError::NotADirectoryError)),
        &command,
        &session,
    );
    match action {
        ListingAction::Finish { replies, .. } => {
            assert_eq!(ReplyCode::SyntaxErrorInParametersOrArguments, replies[0].code)
        }
        other => panic!("expected a refusal, got {:?}", other),
    }

    let (_, action) = listing_step(
        ListingKind::Nlst,
        ListingState::AwaitingChannel(String::new()),
        ListingEvent::ChannelAcquired(false),
        &command,
        &session,
    );
    match action {
        ListingAction::Finish { replies, .. } => {
            assert_eq!("503 Data connection is not open!\r\n", replies[0].to_string())
        }
        other => panic!("expected a refusal, got {:?}", other),
    }

    let (_, action) = listing_step(
        ListingKind::List,
        ListingState::AwaitingChannel(String::new()),
        ListingEvent::ChannelAcquired(false),
        &command,
        &session,
    );
    match action {
        ListingAction::Finish { replies, .. } => {
            assert_eq!("503 Data channel must be open first!\r\n", replies[0].to_string())
        }
        other => panic!("expected a refusal, got {:?}", other),
    }
}
