//! Publication of the shared segment: the host zeroes the record and sets
//! the marker last; nothing in the record is read before the marker is seen.

use vstd::prelude::*;
use crate::layout::{SharedState, MAGIC};

verus! {

/// Which side of the segment this process is.
#[derive(Clone, Copy, PartialEq, Eq, Structural, Debug)]
pub enum Role {
    /// Owns the hardware and writes the input record.
    Host,
    /// Runs the game: reads input, writes LED requests.
    Consumer,
}

/// The narrower address space is the host: 4-byte pointers give the host,
/// 8-byte pointers the consumer, any other width no role.
pub fn role_for_pointer_width(bytes: usize) -> (r: Option<Role>)
    ensures
        r == (if bytes == 4 {
            Some(Role::Host)
        } else if bytes == 8 {
            Some(Role::Consumer)
        } else {
            None::<Role>
        }),
{
    if bytes == 4 {
        Some(Role::Host)
    } else if bytes == 8 {
        Some(Role::Consumer)
    } else {
        None
    }
}

/// Whether the host has finished initialising the segment.
pub fn is_published(seg: &SharedState) -> (r: bool)
    ensures
        r == (seg.m == MAGIC),
{
    seg.m == MAGIC
}

/// The only way to read the record: `None` until the marker is set.
pub fn published(seg: &SharedState) -> (r: Option<&SharedState>)
    ensures
        seg.m == MAGIC ==> r == Some(seg),
        seg.m != MAGIC ==> r is None,
{
    if seg.m == MAGIC {
        Some(seg)
    } else {
        None
    }
}

/// Host side: writes a fully zeroed record, then the marker last.
pub fn publish(seg: &mut SharedState)
    ensures
        final(seg).m == MAGIC,
        final(seg).body_zeroed(),
{
    *seg = SharedState::new_zeroed();
    seg.m = MAGIC;
}

} // verus!
