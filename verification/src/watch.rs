//! The file-watch loop's decision rule. The loop watches the input file's
//! parent directory, since editors may delete and recreate the file on
//! save; only events about the input file itself trigger a render.

use vstd::prelude::*;
use crate::strutil::str_eq;

verus! {

/// One debounced filesystem event, as far as the watch loop cares: a
/// created or written path, or anything else.
#[derive(Debug, PartialEq)]
pub enum WatchEvent {
    Create(String),
    Write(String),
    Other,
}

/// Whether an event makes the watch loop render again: only a create or a
/// write whose path equals the watched input file does.
pub fn should_rerender(event: &WatchEvent, input_file: &str) -> (r: bool)
    ensures
        r == match event {
            WatchEvent::Create(f) => f@ == input_file@,
            WatchEvent::Write(f) => f@ == input_file@,
            WatchEvent::Other => false,
        },
{
    match event {
        WatchEvent::Create(f) => str_eq(f.as_str(), input_file),
        WatchEvent::Write(f) => str_eq(f.as_str(), input_file),
        WatchEvent::Other => false,
    }
}

} // verus!
