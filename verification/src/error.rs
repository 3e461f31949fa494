//! The error taxonomy of the server.
//!
//! Every failure a connection can see is one of these variants; the text of
//! `message` is the entire error channel to the client, written as raw bytes
//! onto the socket by the caller.

use vstd::prelude::*;
use vstd::string::StringExecFns;

verus! {

/// A failure of the server, carrying the reason it arose from.
///
/// `FailedToInitFTPServer` is fatal: the listener could not be bound and the
/// server cannot start. The other variants are terminal only for the one
/// connection they arose on.
#[derive(Debug)]
pub enum FileServerError {
    /// The listener could not be bound.
    FailedToInitFTPServer(String),
    /// The download request body did not match the request grammar.
    FailedToParseRequest(String),
    /// The command byte was unreadable, unrecognized, or named a command
    /// without a registered handler.
    FailedToParseCommand(String),
    /// A read from the client failed.
    ServerReadError(String),
}

impl FileServerError {
    /// The text that `message` returns for this error.
    pub open spec fn spec_message(&self) -> Seq<char> {
        match self {
            FileServerError::FailedToInitFTPServer(reason) => "Could not init FTPServer: "@
                + reason@,
            FileServerError::FailedToParseRequest(reason) => "Could not parse filename in request: "@
                + reason@,
            FileServerError::FailedToParseCommand(reason) => "Could not parse command in request: "@
                + reason@,
            FileServerError::ServerReadError(_) => "Client read deadline"@,
        }
    }

    /// The human-readable description of this error, never empty.
    pub fn message(&self) -> (m: String)
        ensures
            m@ == self.spec_message(),
            m@.len() > 0,
    {
        match self {
            FileServerError::FailedToInitFTPServer(reason) => {
                proof {
                    reveal_strlit("Could not init FTPServer: ");
                }
                let mut m = "Could not init FTPServer: ".to_owned();
                m.append(reason.as_str());
                m
            },
            FileServerError::FailedToParseRequest(reason) => {
                proof {
                    reveal_strlit("Could not parse filename in request: ");
                }
                let mut m = "Could not parse filename in request: ".to_owned();
                m.append(reason.as_str());
                m
            },
            FileServerError::FailedToParseCommand(reason) => {
                proof {
                    reveal_strlit("Could not parse command in request: ");
                }
                let mut m = "Could not parse command in request: ".to_owned();
                m.append(reason.as_str());
                m
            },
            FileServerError::ServerReadError(_) => {
                proof {
                    reveal_strlit("Client read deadline");
                }
                "Client read deadline".to_owned()
            },
        }
    }
}

} // verus!
