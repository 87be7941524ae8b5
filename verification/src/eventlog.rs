//! The host event-log sink, as far as the library models it: registration
//! of the event source, and the logger type the front end installs. The
//! writing itself is I/O and lives with the front end.

use vstd::prelude::*;

verus! {

/// Register the agent's event source with the host's event log. The
/// current host integration has nothing to set up, so registration always
/// succeeds.
pub fn register_event_source() -> (r: Result<(), ()>)
    ensures
        r is Ok,
{
    Ok(())
}

/// The logger that forwards records to the host's event log.
#[derive(Debug)]
pub struct EventLogger;

} // verus!
