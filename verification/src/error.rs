use vstd::prelude::*;

use crate::options::Software;

verus! {

/// Why a command of the library gave up.
#[derive(Debug)]
pub enum Error {
    /// No client in the options has the requested id.
    ClientNotFound { client_id: String },
    /// The options file could not be opened or read.
    OpenOptionsFile { message: String },
    /// The options file is not a valid options document.
    DeserializeOptionsFile { message: String },
    /// The torrent client turned the login down.
    LoginFailed { software: Software },
    /// Pushing torrents into this software is not implemented.
    PushNotImplemented { software: Software },
}

} // verus!
