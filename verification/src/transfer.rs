//! The steps of the commands that move data over the data channel: `RETR` and
//! `STOR` copy a file, `LIST`, `NLST` and `MLSD` send a directory listing.
//!
//! Each command is a small state machine. A step takes the state and what the
//! caller's last piece of work gave (the data channel acquired or not, the
//! file opened or the error, the directory listed, the copy finished) and
//! returns the next state and what the caller does next. The caller does the
//! waiting and the I/O and hands each outcome back, until the machine is done.
use vstd::prelude::*;
use crate::commands::Command;
use crate::handlers::{
    data_connection_not_open_reply, list_path, list_path_of, listed, listing_done_reply, listing_start_reply,
    login_check, nlst_line, not_logged_in, one_line, same_session, same_session_except_offset, transfer_check,
    transfer_start_reply,
};
use crate::permission::EntryType;
use crate::reply::{Reply, to_owned_string};
use crate::reply_code::ReplyCode;
use crate::session::SessionProperties;
use crate::shared::{
    IoError, data_channel_unavailable_reply, error_reply_code, error_reply_text, get_listing_or_error_reply,
    get_open_file_result, get_transfer_reply,
};
use crate::text::push_str;

verus! {

/// Which way a file transfer goes.
#[derive(Clone, Copy, Debug, PartialEq, Eq, Structural)]
pub enum TransferDirection {
    /// `RETR`: from a file to the client.
    Retrieve,
    /// `STOR`: from the client to a file.
    Store,
}

/// How a transfer opens its file.
#[derive(Clone, Copy, Debug, PartialEq, Eq, Structural)]
pub enum FileAccess {
    /// For reading.
    Read,
    /// For writing: created when missing, emptied when present.
    WriteTruncateCreate,
}

/// How each direction opens its file.
pub open spec fn file_access(direction: TransferDirection) -> FileAccess {
    match direction {
        TransferDirection::Retrieve => FileAccess::Read,
        TransferDirection::Store => FileAccess::WriteTruncateCreate,
    }
}

/// Where a file transfer stands.
#[derive(Clone, Copy, Debug, PartialEq, Eq, Structural)]
pub enum TransferState {
    /// The command has arrived; nothing is done yet.
    Begin,
    /// Waiting for the client's data channel.
    AwaitingChannel,
    /// Waiting for the file to open.
    AwaitingFile,
    /// Copying between the file and the data channel.
    Copying,
    /// The transfer is over.
    Done,
}

/// How far a transfer has come; each step that does something moves it on.
pub open spec fn transfer_rank(state: TransferState) -> int {
    match state {
        TransferState::Begin => 0,
        TransferState::AwaitingChannel => 1,
        TransferState::AwaitingFile => 2,
        TransferState::Copying => 3,
        TransferState::Done => 4,
    }
}

/// What the caller's last piece of work gave.
#[derive(Debug)]
pub enum TransferEvent {
    /// The command is to be executed.
    Start,
    /// Whether the client's data channel was acquired in time.
    ChannelAcquired(bool),
    /// The file opened, or the error that prevented it.
    FileOpened(Result<(), IoError>),
    /// Whether the copy completed; false when it failed or was aborted.
    CopyFinished(bool),
}

/// What the caller does next.
#[derive(Debug)]
pub enum TransferAction {
    /// Wait for the client's data channel.
    AcquireChannel,
    /// Open the file the command names.
    OpenFile(FileAccess),
    /// Send the reply, then copy, starting `offset` bytes into the file.
    StartCopy { reply: Reply, offset: u64 },
    /// Send the reply, then, with `shutdown`, shut the data channel down.
    /// The transfer is over.
    Finish { reply: Reply, shutdown: bool },
    /// The event does not belong to the state; nothing is done.
    Ignore,
}

/// The action ends the transfer with the reply and, with `shutdown`, shuts
/// the data channel down.
pub open spec fn finishes(action: TransferAction, reply: (ReplyCode, Seq<Seq<char>>), shutdown: bool) -> bool {
    action matches TransferAction::Finish { reply: r, shutdown: s } && r@ == reply && s == shutdown
}

/// The action announces the copy with the reply and starts it at `offset`.
pub open spec fn starts_copy(action: TransferAction, reply: (ReplyCode, Seq<Seq<char>>), offset: u64) -> bool {
    action matches TransferAction::StartCopy { reply: r, offset: o } && r@ == reply && o == offset
}

/// Whether a step is the one at which a retrieval's file has opened.
pub open spec fn takes_offset(direction: TransferDirection, state: TransferState, event: TransferEvent) -> bool {
    &&& direction == TransferDirection::Retrieve
    &&& state == TransferState::AwaitingFile
    &&& event is FileOpened
    &&& event->FileOpened_0 is Ok
}

/// Whether an event belongs to a state of a transfer.
pub open spec fn transfer_event_fits(state: TransferState, event: TransferEvent) -> bool {
    ||| state == TransferState::Begin && event is Start
    ||| state == TransferState::AwaitingChannel && event is ChannelAcquired
    ||| state == TransferState::AwaitingFile && event is FileOpened
    ||| state == TransferState::Copying && event is CopyFinished
}

/// One step of `RETR` (`Retrieve`) or `STOR` (`Store`).
///
/// The command must name a file and the user be logged in; then the data
/// channel is acquired, the file opened, the start announced and the data
/// copied. A retrieval starts at the restart offset, which it resets, so that
/// the offset applies to one retrieval only; a store ignores it. The final
/// reply says whether the copy completed, and only a completed copy shuts the
/// data channel down.
pub fn transfer_step(
    direction: TransferDirection,
    state: TransferState,
    event: TransferEvent,
    command: &Command,
    session: &mut SessionProperties,
) -> (r: (TransferState, TransferAction))
    ensures
        state == TransferState::Begin && event is Start && command.argument@.len() == 0 ==> r.0
            == TransferState::Done && finishes(r.1, one_line(ReplyCode::SyntaxErrorInParametersOrArguments, "No file specified!"@), false),
        state == TransferState::Begin && event is Start && command.argument@.len() > 0 && !old(session).logged_in()
            ==> r.0 == TransferState::Done && finishes(r.1, not_logged_in(), false),
        state == TransferState::Begin && event is Start && command.argument@.len() > 0 && old(session).logged_in()
            ==> r.0 == TransferState::AwaitingChannel && r.1 is AcquireChannel,
        state == TransferState::AwaitingChannel && event == TransferEvent::ChannelAcquired(false) ==> r.0
            == TransferState::Done && finishes(r.1, one_line(ReplyCode::BadSequenceOfCommands, "Data channel must be open first!"@), false),
        state == TransferState::AwaitingChannel && event == TransferEvent::ChannelAcquired(true) ==> r.0
            == TransferState::AwaitingFile && r.1 == TransferAction::OpenFile(file_access(direction)),
        event matches TransferEvent::FileOpened(Err(e)) ==> (state == TransferState::AwaitingFile ==> r.0
            == TransferState::Done && finishes(r.1, one_line(error_reply_code(e), error_reply_text(e)), false)),
        state == TransferState::AwaitingFile && event == TransferEvent::FileOpened(Ok(())) ==> r.0
            == TransferState::Copying && starts_copy(r.1, one_line(ReplyCode::FileStatusOkay, "Starting file transfer!"@),
            if direction == TransferDirection::Retrieve { old(session).offset } else { 0 }),
        state == TransferState::Copying && event == TransferEvent::CopyFinished(true) ==> r.0
            == TransferState::Done && finishes(r.1, one_line(ReplyCode::ClosingDataConnection, "Transfer complete!"@), true),
        state == TransferState::Copying && event == TransferEvent::CopyFinished(false) ==> r.0
            == TransferState::Done && finishes(r.1, one_line(ReplyCode::ConnectionClosedTransferAborted, "Error occurred during transfer!"@), false),
        !transfer_event_fits(state, event) ==> r.0 == state && r.1 is Ignore,
        transfer_event_fits(state, event) ==> transfer_rank(r.0) > transfer_rank(state),
        takes_offset(direction, state, event) ==> final(session).offset == 0
            && same_session_except_offset(&*final(session), &*old(session)),
        !takes_offset(direction, state, event) ==> same_session(&*final(session), &*old(session)),
{
    match state {
        TransferState::Begin => match event {
            TransferEvent::Start => match transfer_check(command, session) {
                Some(reply) => (TransferState::Done, TransferAction::Finish { reply, shutdown: false }),
                None => (TransferState::AwaitingChannel, TransferAction::AcquireChannel),
            },
            _ => (state, TransferAction::Ignore),
        },
        TransferState::AwaitingChannel => match event {
            TransferEvent::ChannelAcquired(true) => {
                let access = match direction {
                    TransferDirection::Retrieve => FileAccess::Read,
                    TransferDirection::Store => FileAccess::WriteTruncateCreate,
                };
                (TransferState::AwaitingFile, TransferAction::OpenFile(access))
            },
            TransferEvent::ChannelAcquired(false) => {
                (TransferState::Done, TransferAction::Finish { reply: data_channel_unavailable_reply(), shutdown: false })
            },
            _ => (state, TransferAction::Ignore),
        },
        TransferState::AwaitingFile => match event {
            TransferEvent::FileOpened(opened) => match get_open_file_result(opened) {
                Ok(()) => {
                    let offset = match direction {
                        TransferDirection::Retrieve => session.take_offset(),
                        TransferDirection::Store => 0,
                    };
                    (TransferState::Copying, TransferAction::StartCopy { reply: transfer_start_reply(), offset })
                },
                Err(reply) => (TransferState::Done, TransferAction::Finish { reply, shutdown: false }),
            },
            _ => (state, TransferAction::Ignore),
        },
        TransferState::Copying => match event {
            TransferEvent::CopyFinished(success) => {
                (TransferState::Done, TransferAction::Finish { reply: get_transfer_reply(success), shutdown: success })
            },
            _ => (state, TransferAction::Ignore),
        },
        TransferState::Done => (state, TransferAction::Ignore),
    }
}


/// One entry of a directory listing, as the file-system layer describes it.
#[derive(Clone, Debug)]
pub struct ListingEntry {
    pub entry_type: EntryType,
    pub name: String,
    /// The line `LIST` sends for the entry.
    pub list_line: String,
    /// The line `MLSD` sends for the entry: its facts and its name.
    pub facts_line: String,
}

/// The commands that send a directory listing.
#[derive(Clone, Copy, Debug, PartialEq, Eq, Structural)]
pub enum ListingKind {
    /// `LIST`: one line per entry in the long format, without `.`.
    List,
    /// `NLST`: the names, without `.`.
    Nlst,
    /// `MLSD`: the facts of every entry.
    Mlsd,
}

/// What a listing sends for one entry.
pub open spec fn entry_text(kind: ListingKind, entry: ListingEntry) -> Seq<char> {
    match kind {
        ListingKind::List => if entry.entry_type == EntryType::Cdir { Seq::empty() } else { entry.list_line@ },
        ListingKind::Nlst => if entry.entry_type == EntryType::Cdir {
            Seq::empty()
        } else {
            seq![' '] + entry.name@ + seq!['\r', '\n']
        },
        ListingKind::Mlsd => entry.facts_line@,
    }
}

/// What a listing sends for the entries, in order.
pub open spec fn listing_text(kind: ListingKind, entries: Seq<ListingEntry>) -> Seq<char>
    decreases entries.len(),
{
    if entries.len() == 0 {
        Seq::empty()
    } else {
        listing_text(kind, entries.drop_last()) + entry_text(kind, entries.last())
    }
}

proof fn lemma_listing_text_filtered(
    kind: ListingKind,
    entries: Seq<ListingEntry>,
    keep: spec_fn(ListingEntry) -> bool,
    line: spec_fn(ListingEntry) -> Seq<char>,
)
    requires
        forall|e: ListingEntry| #[trigger] entry_text(kind, e) == if keep(e) { line(e) } else { Seq::<char>::empty() },
    ensures
        listing_text(kind, entries) == entries.filter(keep).map_values(line).flatten(),
    decreases entries.len(),
{
    reveal(Seq::filter);
    let kept = entries.filter(keep).map_values(line);
    kept.lemma_flatten_and_flatten_alt_are_equivalent();
    if entries.len() > 0 {
        let init = entries.drop_last();
        let last = entries.last();
        lemma_listing_text_filtered(kind, init, keep, line);
        let before = init.filter(keep).map_values(line);
        before.lemma_flatten_and_flatten_alt_are_equivalent();
        if keep(last) {
            assert(entries.filter(keep) == init.filter(keep).push(last));
            assert(kept =~= before.push(line(last)));
            assert(kept.drop_last() =~= before);
            assert(kept.flatten_alt() == before.flatten_alt() + line(last));
        } else {
            assert(entries.filter(keep) == init.filter(keep));
            assert(kept =~= before);
            assert(listing_text(kind, entries) =~= listing_text(kind, init));
        }
    } else {
        assert(kept =~= Seq::<Seq<char>>::empty());
    }
}

/// What each listing sends, over all entries: `LIST` the list line of every
/// entry but the current directory (`.`), in order; `NLST` a space, the name
/// and CR LF for the same entries; `MLSD` the facts line of every entry.
pub proof fn lemma_listing_text_lists_entries(entries: Seq<ListingEntry>)
    ensures
        listing_text(ListingKind::List, entries) == entries.filter(
            |e: ListingEntry| e.entry_type != EntryType::Cdir,
        ).map_values(|e: ListingEntry| e.list_line@).flatten(),
        listing_text(ListingKind::Nlst, entries) == entries.filter(
            |e: ListingEntry| e.entry_type != EntryType::Cdir,
        ).map_values(|e: ListingEntry| seq![' '] + e.name@ + seq!['\r', '\n']).flatten(),
        listing_text(ListingKind::Mlsd, entries) == entries.filter(|e: ListingEntry| true).map_values(
            |e: ListingEntry| e.facts_line@,
        ).flatten(),
        entries.filter(|e: ListingEntry| true) == entries,
{
    lemma_listing_text_filtered(
        ListingKind::List,
        entries,
        |e: ListingEntry| e.entry_type != EntryType::Cdir,
        |e: ListingEntry| e.list_line@,
    );
    lemma_listing_text_filtered(
        ListingKind::Nlst,
        entries,
        |e: ListingEntry| e.entry_type != EntryType::Cdir,
        |e: ListingEntry| seq![' '] + e.name@ + seq!['\r', '\n'],
    );
    lemma_listing_text_filtered(ListingKind::Mlsd, entries, |e: ListingEntry| true, |e: ListingEntry| e.facts_line@);
    lemma_filter_all(entries);
}

proof fn lemma_filter_all(entries: Seq<ListingEntry>)
    ensures
        entries.filter(|e: ListingEntry| true) == entries,
    decreases entries.len(),
{
    reveal(Seq::filter);
    if entries.len() > 0 {
        lemma_filter_all(entries.drop_last());
        assert(entries.drop_last().push(entries.last()) =~= entries);
    } else {
        assert(entries.filter(|e: ListingEntry| true) =~= entries);
    }
}

/// The text a listing sends over the data channel.
pub fn listing_body(kind: ListingKind, entries: &Vec<ListingEntry>) -> (s: String)
    ensures
        s@ == listing_text(kind, entries@),
{
    let mut s = String::new();
    let mut i: usize = 0;
    while i < entries.len()
        invariant
            i <= entries.len(),
            s@ == listing_text(kind, entries@.take(i as int)),
        decreases entries.len() - i,
    {
        let entry = &entries[i];
        match kind {
            ListingKind::List => {
                if listed(entry.entry_type) {
                    push_str(&mut s, entry.list_line.as_str());
                }
            },
            ListingKind::Nlst => {
                if listed(entry.entry_type) {
                    let line = nlst_line(entry.name.as_str());
                    push_str(&mut s, line.as_str());
                }
            },
            ListingKind::Mlsd => push_str(&mut s, entry.facts_line.as_str()),
        }
        assert(entries@.take(i + 1).drop_last() =~= entries@.take(i as int));
        assert(entries@.take(i + 1).last() == entries@[i as int]);
        i = i + 1;
    }
    assert(entries@.take(i as int) =~= entries@);
    s
}

/// The path a listing lists: what `LIST` makes of its argument, the argument
/// itself for the others.
pub open spec fn listing_path(kind: ListingKind, argument: Seq<char>) -> Seq<char> {
    if kind == ListingKind::List { list_path_of(argument) } else { argument }
}

/// Where a listing stands.
#[derive(Debug)]
pub enum ListingState {
    /// The command has arrived; nothing is done yet.
    Begin,
    /// Waiting for the directory's entries.
    AwaitingListing,
    /// Waiting for the data channel, with the text to send.
    AwaitingChannel(String),
    /// Sending the text.
    Sending,
    /// The listing is over.
    Done,
}

/// How far a listing has come; each step that does something moves it on.
pub open spec fn listing_rank(state: ListingState) -> int {
    match state {
        ListingState::Begin => 0,
        ListingState::AwaitingListing => 1,
        ListingState::AwaitingChannel(_) => 2,
        ListingState::Sending => 3,
        ListingState::Done => 4,
    }
}

/// What the caller's last piece of work gave.
#[derive(Debug)]
pub enum ListingEvent {
    /// The command is to be executed.
    Start,
    /// The directory's entries, or the error that prevented listing it.
    Listed(Result<Vec<ListingEntry>, IoError>),
    /// Whether the data channel was acquired.
    ChannelAcquired(bool),
    /// The text was written (or the write failed or was aborted).
    Sent,
}

/// What the caller does next.
#[derive(Debug)]
pub enum ListingAction {
    /// List the directory at the path.
    ListDirectory(String),
    /// Acquire the data channel: with `wait`, wait for the client to open it;
    /// otherwise take the one that is open, if any.
    AcquireChannel { wait: bool },
    /// Send the announcement, if any, then write the text to the data channel.
    Send { announce: Option<Reply>, text: String },
    /// With `shutdown`, flush and shut the data channel down; then send the
    /// replies in order; then, with `close`, close the data channel. The
    /// listing is over.
    Finish { shutdown: bool, replies: Vec<Reply>, close: bool },
    /// The event does not belong to the state; nothing is done.
    Ignore,
}

/// The views of a sequence of replies.
pub open spec fn replies_view(replies: Seq<Reply>) -> Seq<(ReplyCode, Seq<Seq<char>>)> {
    replies.map_values(|r: Reply| r@)
}

/// The action ends the listing so.
pub open spec fn finishes_listing(
    action: ListingAction,
    shutdown: bool,
    replies: Seq<(ReplyCode, Seq<Seq<char>>)>,
    close: bool,
) -> bool {
    action matches ListingAction::Finish { shutdown: s, replies: rs, close: c } && s == shutdown
        && replies_view(rs@) == replies && c == close
}

/// The action sends the announcement, if any, and then the text.
pub open spec fn sends(action: ListingAction, announce: Option<(ReplyCode, Seq<Seq<char>>)>, text: Seq<char>) -> bool {
    action matches ListingAction::Send { announce: a, text: t } && t@ == text && match a {
        Some(reply) => announce == Some(reply@),
        None => announce is None,
    }
}

/// Whether an event belongs to a state of a listing.
pub open spec fn listing_event_fits(state: ListingState, event: ListingEvent) -> bool {
    ||| state is Begin && event is Start
    ||| state is AwaitingListing && event is Listed
    ||| state is AwaitingChannel && event is ChannelAcquired
    ||| state is Sending && event is Sent
}

/// A single reply as a vector.
fn single(reply: Reply) -> (v: Vec<Reply>)
    ensures
        replies_view(v@) == seq![reply@],
{
    let mut v: Vec<Reply> = Vec::new();
    v.push(reply);
    assert(replies_view(v@) =~= seq![reply@]);
    v
}

/// One step of `LIST`, `NLST` or `MLSD`.
///
/// `LIST` and `NLST` need a logged-in user (`MLSD` leaves that to the file
/// system). The directory is listed, then the data channel acquired: `LIST`
/// waits for the client to open it, the others take the open one. `LIST` and
/// `NLST` announce the listing, send it, and answer that it was sent; `LIST`
/// shuts the channel down first, `NLST` closes it after. `MLSD` sends the
/// listing, then announces it and answers that it was sent, and closes the
/// channel.
pub fn listing_step(
    kind: ListingKind,
    state: ListingState,
    event: ListingEvent,
    command: &Command,
    session: &SessionProperties,
) -> (r: (ListingState, ListingAction))
    ensures
        state is Begin && event is Start && kind != ListingKind::Mlsd && !session.logged_in() ==> r.0 is Done
            && finishes_listing(r.1, false, seq![not_logged_in()], false),
        state is Begin && event is Start && (kind == ListingKind::Mlsd || session.logged_in()) ==> r.0
            is AwaitingListing && r.1 is ListDirectory && r.1->ListDirectory_0@ == listing_path(kind, command.argument@),
        event matches ListingEvent::Listed(Err(e)) ==> (state is AwaitingListing ==> r.0 is Done
            && finishes_listing(r.1, false, seq![one_line(error_reply_code(e), error_reply_text(e))], false)),
        event matches ListingEvent::Listed(Ok(entries)) ==> (state is AwaitingListing ==> r.0 is AwaitingChannel
            && r.0->AwaitingChannel_0@ == listing_text(kind, entries@)
            && r.1 == ListingAction::AcquireChannel { wait: kind == ListingKind::List }),
        state is AwaitingChannel && event == ListingEvent::ChannelAcquired(false) ==> r.0 is Done
            && finishes_listing(r.1, false, seq![
                if kind == ListingKind::List {
                    one_line(ReplyCode::BadSequenceOfCommands, "Data channel must be open first!"@)
                } else {
                    one_line(ReplyCode::BadSequenceOfCommands, "Data connection is not open!"@)
                }], false),
        state is AwaitingChannel && event == ListingEvent::ChannelAcquired(true) ==> r.0 is Sending && sends(
            r.1,
            if kind == ListingKind::Mlsd {
                None
            } else {
                Some(one_line(ReplyCode::FileStatusOkay, "Transferring directory information!"@))
            },
            state->AwaitingChannel_0@,
        ),
        state is Sending && event is Sent ==> r.0 is Done && finishes_listing(
            r.1,
            kind == ListingKind::List,
            if kind == ListingKind::Mlsd {
                seq![
                    one_line(ReplyCode::FileStatusOkay, "Transferring directory information!"@),
                    one_line(ReplyCode::ClosingDataConnection, "Directory information sent!"@),
                ]
            } else {
                seq![one_line(ReplyCode::ClosingDataConnection, "Directory information sent!"@)]
            },
            kind != ListingKind::List,
        ),
        !listing_event_fits(state, event) ==> r.0 == state && r.1 is Ignore,
        listing_event_fits(state, event) ==> listing_rank(r.0) > listing_rank(state),
{
    match state {
        ListingState::Begin => match event {
            ListingEvent::Start => {
                if kind != ListingKind::Mlsd {
                    if let Some(reply) = login_check(session) {
                        return (ListingState::Done, ListingAction::Finish { shutdown: false, replies: single(reply), close: false });
                    }
                }
                let path = match kind {
                    ListingKind::List => list_path(command.argument.as_str()),
                    _ => to_owned_string(command.argument.as_str()),
                };
                (ListingState::AwaitingListing, ListingAction::ListDirectory(path))
            },
            _ => (state, ListingAction::Ignore),
        },
        ListingState::AwaitingListing => match event {
            ListingEvent::Listed(listing) => match get_listing_or_error_reply(listing) {
                Ok(entries) => {
                    let text = listing_body(kind, &entries);
                    (ListingState::AwaitingChannel(text), ListingAction::AcquireChannel { wait: kind == ListingKind::List })
                },
                Err(reply) => (ListingState::Done, ListingAction::Finish { shutdown: false, replies: single(reply), close: false }),
            },
            _ => (state, ListingAction::Ignore),
        },
        ListingState::AwaitingChannel(text) => match event {
            ListingEvent::ChannelAcquired(true) => {
                let announce = if kind == ListingKind::Mlsd { None } else { Some(listing_start_reply()) };
                (ListingState::Sending, ListingAction::Send { announce, text })
            },
            ListingEvent::ChannelAcquired(false) => {
                let reply = if kind == ListingKind::List {
                    data_channel_unavailable_reply()
                } else {
                    data_connection_not_open_reply()
                };
                (ListingState::Done, ListingAction::Finish { shutdown: false, replies: single(reply), close: false })
            },
            _ => (ListingState::AwaitingChannel(text), ListingAction::Ignore),
        },
        ListingState::Sending => match event {
            ListingEvent::Sent => {
                let mut replies: Vec<Reply> = Vec::new();
                if kind == ListingKind::Mlsd {
                    replies.push(listing_start_reply());
                }
                replies.push(listing_done_reply());
                assert(replies_view(replies@) =~= if kind == ListingKind::Mlsd {
                    seq![
                        one_line(ReplyCode::FileStatusOkay, "Transferring directory information!"@),
                        one_line(ReplyCode::ClosingDataConnection, "Directory information sent!"@),
                    ]
                } else {
                    seq![one_line(ReplyCode::ClosingDataConnection, "Directory information sent!"@)]
                });
                (ListingState::Done, ListingAction::Finish {
                    shutdown: kind == ListingKind::List,
                    replies,
                    close: kind != ListingKind::List,
                })
            },
            _ => (state, ListingAction::Ignore),
        },
        ListingState::Done => (state, ListingAction::Ignore),
    }
}

} // verus!
