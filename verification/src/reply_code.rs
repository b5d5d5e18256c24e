//! The numeric reply codes of the FTP control connection (RFC 959, RFC 2228).
use vstd::prelude::*;

verus! {

/// A reply code of the control connection.
#[derive(Clone, Copy, Debug, PartialEq, Eq, Structural, Hash)]
pub enum ReplyCode {
    /// 110: Restart marker reply.
    RestartMarkerReply,
    /// 120: Service ready in a few minutes.
    ServiceReadyInNMinutes,
    /// 125: Data connection already open; transfer starting.
    DataConnectionAlreadyOpen,
    /// 150: File status okay; about to open data connection.
    FileStatusOkay,
    /// 200: Command okay.
    CommandOkay,
    /// 202: Command not implemented, superfluous at this site.
    CommandNotImplementedSuperfluous,
    /// 211: System status, or system help reply.
    SystemStatus,
    /// 212: Directory status.
    DirectoryStatus,
    /// 213: File status.
    FileStatus,
    /// 214: Help message.
    HelpMessage,
    /// 215: NAME system type.
    NameSystemType,
    /// 220: Service ready for new user.
    ServiceReady,
    /// 221: Service closing control connection.
    ServiceClosingControlConnection,
    /// 225: Data connection open; no transfer in progress.
    DataConnectionOpen,
    /// 226: Closing data connection; requested action successful.
    ClosingDataConnection,
    /// 227: Entering passive mode.
    EnteringPassiveMode,
    /// 230: User logged in, proceed.
    UserLoggedIn,
    /// 234: Security data exchange complete.
    SecurityDataExchangeComplete,
    /// 250: Requested file action okay, completed.
    RequestedFileActionOkay,
    /// 257: Pathname created.
    PathnameCreated,
    /// 331: User name okay, need password.
    UserNameOkay,
    /// 332: Need account for login.
    NeedAccountForLogin,
    /// 350: Requested file action pending further information.
    RequestedFileActionPendingFurtherInformation,
    /// 421: Service not available, closing control connection.
    ServiceNotAvailableClosingControlConnection,
    /// 425: Can't open data connection.
    CantOpenDataConnection,
    /// 426: Connection closed; transfer aborted.
    ConnectionClosedTransferAborted,
    /// 450: Requested file action not taken.
    RequestedFileActionNotTaken,
    /// 451: Requested action aborted: local error in processing.
    RequestedActionAborted,
    /// 452: Requested action not taken: insufficient storage space.
    InsufficientStorageSpace,
    /// 500: Syntax error, command unrecognized.
    SyntaxErrorCommandUnrecognized,
    /// 501: Syntax error in parameters or arguments.
    SyntaxErrorInParametersOrArguments,
    /// 502: Command not implemented.
    CommandNotImplemented,
    /// 503: Bad sequence of commands.
    BadSequenceOfCommands,
    /// 504: Command not implemented for that parameter.
    CommandNotImplementedForThatParameter,
    /// 530: Not logged in.
    NotLoggedIn,
    /// 532: Need account for storing files.
    NeedAccountForStoringFiles,
    /// 534: Request denied for policy reasons: security mechanism not available.
    AuthNotAvailable,
    /// 536: Requested protection level not supported.
    ProtectionLevelNotSupported,
    /// 550: Requested action not taken: file unavailable.
    FileUnavailable,
    /// 551: Requested action aborted: page type unknown.
    PageTypeUnknown,
    /// 552: Requested file action aborted: exceeded storage allocation.
    ExceededStorageAllocation,
    /// 553: Requested action not taken: file name not allowed.
    FileNameNotAllowed,
}

/// The number a reply code stands for.
pub open spec fn code_value(code: ReplyCode) -> u16 {
    match code {
        ReplyCode::RestartMarkerReply => 110,
        ReplyCode::ServiceReadyInNMinutes => 120,
        ReplyCode::DataConnectionAlreadyOpen => 125,
        ReplyCode::FileStatusOkay => 150,
        ReplyCode::CommandOkay => 200,
        ReplyCode::CommandNotImplementedSuperfluous => 202,
        ReplyCode::SystemStatus => 211,
        ReplyCode::DirectoryStatus => 212,
        ReplyCode::FileStatus => 213,
        ReplyCode::HelpMessage => 214,
        ReplyCode::NameSystemType => 215,
        ReplyCode::ServiceReady => 220,
        ReplyCode::ServiceClosingControlConnection => 221,
        ReplyCode::DataConnectionOpen => 225,
        ReplyCode::ClosingDataConnection => 226,
        ReplyCode::EnteringPassiveMode => 227,
        ReplyCode::UserLoggedIn => 230,
        ReplyCode::SecurityDataExchangeComplete => 234,
        ReplyCode::RequestedFileActionOkay => 250,
        ReplyCode::PathnameCreated => 257,
        ReplyCode::UserNameOkay => 331,
        ReplyCode::NeedAccountForLogin => 332,
        ReplyCode::RequestedFileActionPendingFurtherInformation => 350,
        ReplyCode::ServiceNotAvailableClosingControlConnection => 421,
        ReplyCode::CantOpenDataConnection => 425,
        ReplyCode::ConnectionClosedTransferAborted => 426,
        ReplyCode::RequestedFileActionNotTaken => 450,
        ReplyCode::RequestedActionAborted => 451,
        ReplyCode::InsufficientStorageSpace => 452,
        ReplyCode::SyntaxErrorCommandUnrecognized => 500,
        ReplyCode::SyntaxErrorInParametersOrArguments => 501,
        ReplyCode::CommandNotImplemented => 502,
        ReplyCode::BadSequenceOfCommands => 503,
        ReplyCode::CommandNotImplementedForThatParameter => 504,
        ReplyCode::NotLoggedIn => 530,
        ReplyCode::NeedAccountForStoringFiles => 532,
        ReplyCode::AuthNotAvailable => 534,
        ReplyCode::ProtectionLevelNotSupported => 536,
        ReplyCode::FileUnavailable => 550,
        ReplyCode::PageTypeUnknown => 551,
        ReplyCode::ExceededStorageAllocation => 552,
        ReplyCode::FileNameNotAllowed => 553,
    }
}

/// The reply code a number stands for, if any.
pub open spec fn code_of_value(v: u16) -> Option<ReplyCode> {
    if v == 110 {
        Some(ReplyCode::RestartMarkerReply)
    } else if v == 120 {
        Some(ReplyCode::ServiceReadyInNMinutes)
    } else if v == 125 {
        Some(ReplyCode::DataConnectionAlreadyOpen)
    } else if v == 150 {
        Some(ReplyCode::FileStatusOkay)
    } else if v == 200 {
        Some(ReplyCode::CommandOkay)
    } else if v == 202 {
        Some(ReplyCode::CommandNotImplementedSuperfluous)
    } else if v == 211 {
        Some(ReplyCode::SystemStatus)
    } else if v == 212 {
        Some(ReplyCode::DirectoryStatus)
    } else if v == 213 {
        Some(ReplyCode::FileStatus)
    } else if v == 214 {
        Some(ReplyCode::HelpMessage)
    } else if v == 215 {
        Some(ReplyCode::NameSystemType)
    } else if v == 220 {
        Some(ReplyCode::ServiceReady)
    } else if v == 221 {
        Some(ReplyCode::ServiceClosingControlConnection)
    } else if v == 225 {
        Some(ReplyCode::DataConnectionOpen)
    } else if v == 226 {
        Some(ReplyCode::ClosingDataConnection)
    } else if v == 227 {
        Some(ReplyCode::EnteringPassiveMode)
    } else if v == 230 {
        Some(ReplyCode::UserLoggedIn)
    } else if v == 234 {
        Some(ReplyCode::SecurityDataExchangeComplete)
    } else if v == 250 {
        Some(ReplyCode::RequestedFileActionOkay)
    } else if v == 257 {
        Some(ReplyCode::PathnameCreated)
    } else if v == 331 {
        Some(ReplyCode::UserNameOkay)
    } else if v == 332 {
        Some(ReplyCode::NeedAccountForLogin)
    } else if v == 350 {
        Some(ReplyCode::RequestedFileActionPendingFurtherInformation)
    } else if v == 421 {
        Some(ReplyCode::ServiceNotAvailableClosingControlConnection)
    } else if v == 425 {
        Some(ReplyCode::CantOpenDataConnection)
    } else if v == 426 {
        Some(ReplyCode::ConnectionClosedTransferAborted)
    } else if v == 450 {
        Some(ReplyCode::RequestedFileActionNotTaken)
    } else if v == 451 {
        Some(ReplyCode::RequestedActionAborted)
    } else if v == 452 {
        Some(ReplyCode::InsufficientStorageSpace)
    } else if v == 500 {
        Some(ReplyCode::SyntaxErrorCommandUnrecognized)
    } else if v == 501 {
        Some(ReplyCode::SyntaxErrorInParametersOrArguments)
    } else if v == 502 {
        Some(ReplyCode::CommandNotImplemented)
    } else if v == 503 {
        Some(ReplyCode::BadSequenceOfCommands)
    } else if v == 504 {
        Some(ReplyCode::CommandNotImplementedForThatParameter)
    } else if v == 530 {
        Some(ReplyCode::NotLoggedIn)
    } else if v == 532 {
        Some(ReplyCode::NeedAccountForStoringFiles)
    } else if v == 534 {
        Some(ReplyCode::AuthNotAvailable)
    } else if v == 536 {
        Some(ReplyCode::ProtectionLevelNotSupported)
    } else if v == 550 {
        Some(ReplyCode::FileUnavailable)
    } else if v == 551 {
        Some(ReplyCode::PageTypeUnknown)
    } else if v == 552 {
        Some(ReplyCode::ExceededStorageAllocation)
    } else if v == 553 {
        Some(ReplyCode::FileNameNotAllowed)
    } else {
        None
    }
}

/// Every reply code is a three-digit number, and the number gives the code back.
pub proof fn lemma_code_value_roundtrip(code: ReplyCode)
    ensures
        100 <= code_value(code) <= 999,
        code_of_value(code_value(code)) == Some(code),
{
}

/// A number that names a reply code is that code's number.
pub proof fn lemma_code_of_value_exact(v: u16)
    ensures
        code_of_value(v) matches Some(c) ==> code_value(c) == v,
{
}

impl ReplyCode {
    /// The number of this reply code.
    pub fn value(&self) -> (v: u16)
        ensures
            v == code_value(*self),
    {
        match self {
            ReplyCode::RestartMarkerReply => 110,
            ReplyCode::ServiceReadyInNMinutes => 120,
            ReplyCode::DataConnectionAlreadyOpen => 125,
            ReplyCode::FileStatusOkay => 150,
            ReplyCode::CommandOkay => 200,
            ReplyCode::CommandNotImplementedSuperfluous => 202,
            ReplyCode::SystemStatus => 211,
            ReplyCode::DirectoryStatus => 212,
            ReplyCode::FileStatus => 213,
            ReplyCode::HelpMessage => 214,
            ReplyCode::NameSystemType => 215,
            ReplyCode::ServiceReady => 220,
            ReplyCode::ServiceClosingControlConnection => 221,
            ReplyCode::DataConnectionOpen => 225,
            ReplyCode::ClosingDataConnection => 226,
            ReplyCode::EnteringPassiveMode => 227,
            ReplyCode::UserLoggedIn => 230,
            ReplyCode::SecurityDataExchangeComplete => 234,
            ReplyCode::RequestedFileActionOkay => 250,
            ReplyCode::PathnameCreated => 257,
            ReplyCode::UserNameOkay => 331,
            ReplyCode::NeedAccountForLogin => 332,
            ReplyCode::RequestedFileActionPendingFurtherInformation => 350,
            ReplyCode::ServiceNotAvailableClosingControlConnection => 421,
            ReplyCode::CantOpenDataConnection => 425,
            ReplyCode::ConnectionClosedTransferAborted => 426,
            ReplyCode::RequestedFileActionNotTaken => 450,
            ReplyCode::RequestedActionAborted => 451,
            ReplyCode::InsufficientStorageSpace => 452,
            ReplyCode::SyntaxErrorCommandUnrecognized => 500,
            ReplyCode::SyntaxErrorInParametersOrArguments => 501,
            ReplyCode::CommandNotImplemented => 502,
            ReplyCode::BadSequenceOfCommands => 503,
            ReplyCode::CommandNotImplementedForThatParameter => 504,
            ReplyCode::NotLoggedIn => 530,
            ReplyCode::NeedAccountForStoringFiles => 532,
            ReplyCode::AuthNotAvailable => 534,
            ReplyCode::ProtectionLevelNotSupported => 536,
            ReplyCode::FileUnavailable => 550,
            ReplyCode::PageTypeUnknown => 551,
            ReplyCode::ExceededStorageAllocation => 552,
            ReplyCode::FileNameNotAllowed => 553,
        }
    }

    /// The reply code with the given number, if there is one.
    pub fn from_repr(v: u16) -> (r: Option<ReplyCode>)
        ensures
            r == code_of_value(v),
    {
        if v == 110 {
            Some(ReplyCode::RestartMarkerReply)
        } else if v == 120 {
            Some(ReplyCode::ServiceReadyInNMinutes)
        } else if v == 125 {
            Some(ReplyCode::DataConnectionAlreadyOpen)
        } else if v == 150 {
            Some(ReplyCode::FileStatusOkay)
        } else if v == 200 {
            Some(ReplyCode::CommandOkay)
        } else if v == 202 {
            Some(ReplyCode::CommandNotImplementedSuperfluous)
        } else if v == 211 {
            Some(ReplyCode::SystemStatus)
        } else if v == 212 {
            Some(ReplyCode::DirectoryStatus)
        } else if v == 213 {
            Some(ReplyCode::FileStatus)
        } else if v == 214 {
            Some(ReplyCode::HelpMessage)
        } else if v == 215 {
            Some(ReplyCode::NameSystemType)
        } else if v == 220 {
            Some(ReplyCode::ServiceReady)
        } else if v == 221 {
            Some(ReplyCode::ServiceClosingControlConnection)
        } else if v == 225 {
            Some(ReplyCode::DataConnectionOpen)
        } else if v == 226 {
            Some(ReplyCode::ClosingDataConnection)
        } else if v == 227 {
            Some(ReplyCode::EnteringPassiveMode)
        } else if v == 230 {
            Some(ReplyCode::UserLoggedIn)
        } else if v == 234 {
            Some(ReplyCode::SecurityDataExchangeComplete)
        } else if v == 250 {
            Some(ReplyCode::RequestedFileActionOkay)
        } else if v == 257 {
            Some(ReplyCode::PathnameCreated)
        } else if v == 331 {
            Some(ReplyCode::UserNameOkay)
        } else if v == 332 {
            Some(ReplyCode::NeedAccountForLogin)
        } else if v == 350 {
            Some(ReplyCode::RequestedFileActionPendingFurtherInformation)
        } else if v == 421 {
            Some(ReplyCode::ServiceNotAvailableClosingControlConnection)
        } else if v == 425 {
            Some(ReplyCode::CantOpenDataConnection)
        } else if v == 426 {
            Some(ReplyCode::ConnectionClosedTransferAborted)
        } else if v == 450 {
            Some(ReplyCode::RequestedFileActionNotTaken)
        } else if v == 451 {
            Some(ReplyCode::RequestedActionAborted)
        } else if v == 452 {
            Some(ReplyCode::InsufficientStorageSpace)
        } else if v == 500 {
            Some(ReplyCode::SyntaxErrorCommandUnrecognized)
        } else if v == 501 {
            Some(ReplyCode::SyntaxErrorInParametersOrArguments)
        } else if v == 502 {
            Some(ReplyCode::CommandNotImplemented)
        } else if v == 503 {
            Some(ReplyCode::BadSequenceOfCommands)
        } else if v == 504 {
            Some(ReplyCode::CommandNotImplementedForThatParameter)
        } else if v == 530 {
            Some(ReplyCode::NotLoggedIn)
        } else if v == 532 {
            Some(ReplyCode::NeedAccountForStoringFiles)
        } else if v == 534 {
            Some(ReplyCode::AuthNotAvailable)
        } else if v == 536 {
            Some(ReplyCode::ProtectionLevelNotSupported)
        } else if v == 550 {
            Some(ReplyCode::FileUnavailable)
        } else if v == 551 {
            Some(ReplyCode::PageTypeUnknown)
        } else if v == 552 {
            Some(ReplyCode::ExceededStorageAllocation)
        } else if v == 553 {
            Some(ReplyCode::FileNameNotAllowed)
        } else {
            None
        }
    }
}

} // verus!
