//! Where the state of a relay's device comes from.
//!
//! Running the executable, reading the file and decoding the text are the
//! caller's.
use vstd::prelude::*;
use vstd::utf8::{decode_utf8, valid_utf8};

use crate::relay::Status;
use crate::text::text_from_utf8;

verus! {

/// Where the state of the device comes from.
#[derive(Debug)]
pub enum StatusSource {
    /// What this executable prints.
    Executable(String),
    /// What this file holds.
    File(String),
    /// It is not known.
    Unknown,
}

/// Decides where the state of the device comes from: an executable goes before
/// a file.
pub fn status_source(
    status_executable: &Option<String>,
    status_file: &Option<String>,
) -> (r: StatusSource)
    ensures
        match (*status_executable, *status_file) {
            (Some(executable), _) => r matches StatusSource::Executable(text) && text@
                == executable@,
            (None, Some(file)) => r matches StatusSource::File(text) && text@ == file@,
            (None, None) => r == StatusSource::Unknown,
        },
{
    if let Some(executable) = status_executable {
        StatusSource::Executable(executable.clone())
    } else if let Some(file) = status_file {
        StatusSource::File(file.clone())
    } else {
        StatusSource::Unknown
    }
}

/// The text to decode the state from, given what came from its source, where
/// anything came.
pub fn status_text(output: Option<Vec<u8>>) -> (r: Option<String>)
    ensures
        match output {
            Some(bytes) => if valid_utf8(bytes@) {
                r matches Some(text) && text@ == decode_utf8(bytes@)
            } else {
                r is None
            },
            None => r is None,
        },
{
    match output {
        Some(bytes) => text_from_utf8(bytes),
        None => None,
    }
}

/// The state that is told: the decoded one, or one in which nothing is known.
pub fn status_or_default(decoded: Option<Status>) -> (r: Status)
    ensures
        match decoded {
            Some(status) => r == status,
            None => r.battery_percentage is None,
        },
{
    match decoded {
        Some(status) => status,
        None => Status::default(),
    }
}

} // verus!
