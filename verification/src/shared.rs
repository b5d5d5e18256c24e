//! Replies shared by several commands: file-system errors, transfers,
//! directory changes and deletions.
use vstd::prelude::*;
use crate::reply::Reply;
use crate::reply_code::ReplyCode;
use crate::text::{push_char, push_str};

verus! {

/// An error of the file-system layer.
#[derive(Clone, Debug, PartialEq, Eq)]
pub enum IoError {
    /// No user is logged in.
    UserError,
    /// The operating system refused, with its message.
    OsError(String),
    SystemError,
    NotADirectoryError,
    PermissionError,
    NotFoundError(String),
    InvalidPathError(String),
    NotAFileError,
}

/// The description of an error.
pub open spec fn io_error_description(e: IoError) -> Seq<char> {
    match e {
        IoError::UserError => "Invalid user!"@,
        IoError::OsError(_) => "Operating system error!"@,
        IoError::SystemError => "System error!"@,
        IoError::NotADirectoryError => "Not a directory!"@,
        IoError::PermissionError => "Insufficient permissions!"@,
        IoError::NotFoundError(_) => "Not found!"@,
        IoError::InvalidPathError(_) => "Invalid path!"@,
        IoError::NotAFileError => "Not a file!"@,
    }
}

/// The message of the reply to an error.
pub open spec fn error_reply_text(e: IoError) -> Seq<char> {
    match e {
        IoError::NotFoundError(m) => m@,
        IoError::InvalidPathError(m) => m@,
        IoError::OsError(_) | IoError::SystemError => "Requested action aborted: local error in processing."@,
        _ => io_error_description(e),
    }
}

impl IoError {
    /// The description of the error.
    pub fn message(&self) -> (m: &'static str)
        ensures
            m@ == io_error_description(*self),
    {
        match self {
            IoError::UserError => "Invalid user!",
            IoError::OsError(_) => "Operating system error!",
            IoError::SystemError => "System error!",
            IoError::NotADirectoryError => "Not a directory!",
            IoError::PermissionError => "Insufficient permissions!",
            IoError::NotFoundError(_) => "Not found!",
            IoError::InvalidPathError(_) => "Invalid path!",
            IoError::NotAFileError => "Not a file!",
        }
    }
}

/// The reply code an error is answered with.
pub open spec fn error_reply_code(e: IoError) -> ReplyCode {
    match e {
        IoError::UserError => ReplyCode::NotLoggedIn,
        IoError::OsError(_) | IoError::SystemError => ReplyCode::RequestedActionAborted,
        IoError::NotADirectoryError | IoError::NotAFileError => ReplyCode::SyntaxErrorInParametersOrArguments,
        IoError::PermissionError | IoError::NotFoundError(_) | IoError::InvalidPathError(_) => ReplyCode::FileUnavailable,
    }
}

/// The reply to a file-system error: not-found and invalid-path errors carry
/// their own message, local errors a fixed one, the others their description.
pub fn map_error_to_reply(error: IoError) -> (r: Reply)
    ensures
        r@ == (error_reply_code(error), seq![error_reply_text(error)]),
{
    match error {
        IoError::UserError => Reply::new(ReplyCode::NotLoggedIn, IoError::UserError.message()),
        IoError::OsError(_) | IoError::SystemError => Reply::new(
            ReplyCode::RequestedActionAborted,
            "Requested action aborted: local error in processing.",
        ),
        IoError::NotADirectoryError => Reply::new(
            ReplyCode::SyntaxErrorInParametersOrArguments,
            IoError::NotADirectoryError.message(),
        ),
        IoError::PermissionError => Reply::new(ReplyCode::FileUnavailable, IoError::PermissionError.message()),
        IoError::NotFoundError(message) => Reply::new(ReplyCode::FileUnavailable, message.as_str()),
        IoError::InvalidPathError(message) => Reply::new(ReplyCode::FileUnavailable, message.as_str()),
        IoError::NotAFileError => Reply::new(
            ReplyCode::SyntaxErrorInParametersOrArguments,
            IoError::NotAFileError.message(),
        ),
    }
}

/// The reply that ends a transfer.
pub fn get_transfer_reply(success: bool) -> (r: Reply)
    ensures
        success ==> r@ == (ReplyCode::ClosingDataConnection, seq!["Transfer complete!"@]),
        !success ==> r@ == (ReplyCode::ConnectionClosedTransferAborted, seq!["Error occurred during transfer!"@]),
{
    if success {
        Reply::new(ReplyCode::ClosingDataConnection, "Transfer complete!")
    } else {
        Reply::new(ReplyCode::ConnectionClosedTransferAborted, "Error occurred during transfer!")
    }
}

/// The reply to a data channel that could not be acquired in time.
pub fn data_channel_unavailable_reply() -> (r: Reply)
    ensures
        r@ == (ReplyCode::BadSequenceOfCommands, seq!["Data channel must be open first!"@]),
{
    Reply::new(ReplyCode::BadSequenceOfCommands, "Data channel must be open first!")
}

/// An opened file, or the reply to the error that prevented opening it.
pub fn get_open_file_result<F>(file: Result<F, IoError>) -> (r: Result<F, Reply>)
    ensures
        file matches Ok(f) ==> r matches Ok(g) && g == f,
        file matches Err(e) ==> r matches Err(rep) && rep@ == (error_reply_code(e), seq![error_reply_text(e)]),
{
    match file {
        Ok(f) => Ok(f),
        Err(e) => Err(map_error_to_reply(e)),
    }
}

/// A directory listing, or the reply to the error that prevented it.
pub fn get_listing_or_error_reply<T>(listing: Result<Vec<T>, IoError>) -> (r: Result<Vec<T>, Reply>)
    ensures
        listing matches Ok(l) ==> r matches Ok(m) && m@ == l@,
        listing matches Err(e) ==> r matches Err(rep) && rep@ == (error_reply_code(e), seq![error_reply_text(e)]),
{
    match listing {
        Ok(l) => Ok(l),
        Err(e) => Err(map_error_to_reply(e)),
    }
}

/// The reply to creating a directory: its path in double quotes, or the error.
pub fn get_create_directory_reply(result: Result<String, IoError>) -> (r: Reply)
    ensures
        result matches Ok(p) ==> r@ == (ReplyCode::PathnameCreated, seq![seq!['"'] + p@ + seq!['"']]),
        result matches Err(e) ==> r@ == (error_reply_code(e), seq![error_reply_text(e)]),
{
    match result {
        Ok(new_path) => {
            let mut m = String::new();
            push_char(&mut m, '"');
            push_str(&mut m, new_path.as_str());
            push_char(&mut m, '"');
            assert(m@ =~= seq!['"'] + new_path@ + seq!['"']);
            Reply::new(ReplyCode::PathnameCreated, m.as_str())
        },
        Err(error) => map_error_to_reply(error),
    }
}

/// The reply to changing the working directory.
pub fn get_change_directory_reply(cd_result: Result<bool, IoError>) -> (r: Reply)
    ensures
        cd_result == Ok::<bool, IoError>(true) ==> r@ == (ReplyCode::RequestedFileActionOkay, seq!["Path changed"@]),
        cd_result == Ok::<bool, IoError>(false) ==> r@ == (ReplyCode::RequestedFileActionOkay, seq!["Path not changed"@]),
        cd_result matches Err(e) ==> r@ == (error_reply_code(e), seq![error_reply_text(e)]),
{
    match cd_result {
        Ok(true) => Reply::new(ReplyCode::RequestedFileActionOkay, "Path changed"),
        Ok(false) => Reply::new(ReplyCode::RequestedFileActionOkay, "Path not changed"),
        Err(e) => map_error_to_reply(e),
    }
}

/// The reply to deleting a directory (`directory`) or a file.
pub fn get_delete_reply(dele_result: Result<(), IoError>, directory: bool) -> (r: Reply)
    ensures
        dele_result is Ok && directory ==> r@ == (ReplyCode::RequestedFileActionOkay, seq!["File deleted"@]),
        dele_result is Ok && !directory ==> r@ == (ReplyCode::RequestedFileActionOkay, seq!["Folder deleted"@]),
        dele_result matches Err(e) ==> r@ == (error_reply_code(e), seq![error_reply_text(e)]),
{
    match (dele_result, directory) {
        (Ok(_), true) => Reply::new(ReplyCode::RequestedFileActionOkay, "File deleted"),
        (Ok(_), false) => Reply::new(ReplyCode::RequestedFileActionOkay, "Folder deleted"),
        (Err(e), _) => map_error_to_reply(e),
    }
}

} // verus!
