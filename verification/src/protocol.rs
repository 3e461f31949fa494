//! Command classification and dispatch.
//!
//! Each accepted connection begins with one command byte. This module maps
//! that byte to a [`CommandType`], keeps the record of which commands have a
//! registered handler, and decides what the accept loop does with the
//! connection: spawn a download worker, register a statistics subscriber,
//! halt on the unimplemented upload path, or reject the command.

use vstd::prelude::*;
use crate::error::FileServerError;

verus! {

/// The closed set of wire commands.
#[derive(Debug, Clone, Copy, PartialEq, Eq, Structural, Hash)]
pub enum CommandType {
    /// Wire value 2: recognized but unimplemented; routing it is fatal.
    Upload,
    /// Wire value 1: stream a named file back to the client.
    Download,
    /// Wire value 3: subscribe the connection to periodic statistics pushes.
    Statistics,
}

/// The command a given wire byte selects, if any.
pub open spec fn spec_command_of_byte(b: u8) -> Option<CommandType> {
    if b == 1 {
        Some(CommandType::Download)
    } else if b == 2 {
        Some(CommandType::Upload)
    } else if b == 3 {
        Some(CommandType::Statistics)
    } else {
        None
    }
}

/// Classify one command byte: 1 selects Download, 2 Upload, 3 Statistics;
/// every other value is unrecognized.
pub fn command_of_byte(b: u8) -> (r: Option<CommandType>)
    ensures
        r == spec_command_of_byte(b),
{
    match b {
        1 => Some(CommandType::Download),
        2 => Some(CommandType::Upload),
        3 => Some(CommandType::Statistics),
        _ => None,
    }
}

/// Which commands have a handler bound to them.
///
/// The registry is populated once at startup, before the accept loop starts,
/// and read-only thereafter.
#[derive(Debug, Clone, Copy, PartialEq, Eq, Structural)]
pub struct HandlerRegistry {
    /// A handler is bound to Download.
    pub download: bool,
    /// A handler is bound to Upload.
    pub upload: bool,
    /// A handler is bound to Statistics.
    pub statistics: bool,
}

/// Whether `reg` has a handler bound to `c`.
pub open spec fn spec_has_handler(reg: HandlerRegistry, c: CommandType) -> bool {
    match c {
        CommandType::Download => reg.download,
        CommandType::Upload => reg.upload,
        CommandType::Statistics => reg.statistics,
    }
}

impl HandlerRegistry {
    /// An empty registry: no command has a handler yet.
    pub fn new() -> (r: HandlerRegistry)
        ensures
            !r.download && !r.upload && !r.statistics,
    {
        HandlerRegistry { download: false, upload: false, statistics: false }
    }

    /// Bind a handler to `c`, leaving the other commands as they were.
    pub fn register(&mut self, c: CommandType)
        ensures
            spec_has_handler(*final(self), c),
            forall|o: CommandType|
                o != c ==> spec_has_handler(*final(self), o) == spec_has_handler(*old(self), o),
    {
        match c {
            CommandType::Download => self.download = true,
            CommandType::Upload => self.upload = true,
            CommandType::Statistics => self.statistics = true,
        }
    }

    /// Whether a handler is bound to `c`.
    pub fn has_handler(&self, c: CommandType) -> (r: bool)
        ensures
            r == spec_has_handler(*self, c),
    {
        match c {
            CommandType::Download => self.download,
            CommandType::Upload => self.upload,
            CommandType::Statistics => self.statistics,
        }
    }
}

/// What the accept loop does with a freshly accepted connection after trying
/// to read its command byte.
#[derive(Debug)]
pub enum Dispatch {
    /// Hand the connection to the download handler on a worker of its own.
    SpawnDownload,
    /// Keep the connection open and register it for statistics pushes.
    RegisterSubscriber,
    /// The upload path was selected; the server is not designed to recover
    /// from being asked for it and must stop.
    FatalUnimplemented,
    /// Report the error text to the client and close the connection.
    Reject(FileServerError),
}

/// Whether `d` rejects the connection with a `FailedToParseCommand` whose
/// reason text is `reason`.
pub open spec fn spec_rejects_command(d: Dispatch, reason: Seq<char>) -> bool {
    d matches Dispatch::Reject(FileServerError::FailedToParseCommand(r)) && r@ == reason
}

/// Decide what to do with a connection whose command byte read gave
/// `byte_read` (`None` when the read failed).
///
/// A read failure or an unrecognized byte is a recoverable
/// `FailedToParseCommand`, as is a recognized command with no bound handler.
/// The upload command is fatal: the server halts rather than serving the
/// unimplemented path.
pub fn route_command(byte_read: Option<u8>, reg: &HandlerRegistry) -> (d: Dispatch)
    ensures
        match byte_read {
            None => spec_rejects_command(d, "could not read command byte"@),
            Some(b) => match spec_command_of_byte(b) {
                None => spec_rejects_command(d, "unrecognized command byte"@),
                Some(CommandType::Upload) => d is FatalUnimplemented,
                Some(CommandType::Download) => if spec_has_handler(*reg, CommandType::Download) {
                    d is SpawnDownload
                } else {
                    spec_rejects_command(d, "unsupported command type"@)
                },
                Some(CommandType::Statistics) => if spec_has_handler(
                    *reg,
                    CommandType::Statistics,
                ) {
                    d is RegisterSubscriber
                } else {
                    spec_rejects_command(d, "unsupported command type"@)
                },
            },
        },
{
    match byte_read {
        None => Dispatch::Reject(
            FileServerError::FailedToParseCommand(
                "could not read command byte".to_owned(),
            ),
        ),
        Some(b) => match command_of_byte(b) {
            None => Dispatch::Reject(
                FileServerError::FailedToParseCommand(
                    "unrecognized command byte".to_owned(),
                ),
            ),
            Some(CommandType::Upload) => Dispatch::FatalUnimplemented,
            Some(CommandType::Download) => {
                if reg.has_handler(CommandType::Download) {
                    Dispatch::SpawnDownload
                } else {
                    Dispatch::Reject(
                        FileServerError::FailedToParseCommand(
                            "unsupported command type".to_owned(),
                        ),
                    )
                }
            },
            Some(CommandType::Statistics) => {
                if reg.has_handler(CommandType::Statistics) {
                    Dispatch::RegisterSubscriber
                } else {
                    Dispatch::Reject(
                        FileServerError::FailedToParseCommand(
                            "unsupported command type".to_owned(),
                        ),
                    )
                }
            },
        },
    }
}

} // verus!
