//! The two field offsets that discovery finds, and the addresses they lead to.
use vstd::prelude::*;

verus! {

/// The value of an offset that has not been found.
pub const OFFSET_UNKNOWN: i64 = -1;

/// One of the two fields whose offsets discovery looks for.
#[derive(Clone, Copy, Debug, PartialEq, Eq, Structural)]
pub enum TargetField {
    /// The runtime thread's pointer to its OS-thread structure.
    OsThread,
    /// The OS-thread structure's operating-system thread id.
    OsThreadId,
}

/// The offsets found so far; each is `OFFSET_UNKNOWN` until it is found.
#[derive(Clone, Copy, Debug, PartialEq, Eq, Structural)]
pub struct DiscoveredOffsets {
    pub osthread: i64,
    pub os_thread_id: i64,
}

pub open spec fn slot_wf(v: i64) -> bool {
    v == OFFSET_UNKNOWN || v >= 0
}

/// The offsets after a record for `target` with `value` was read: a slot
/// takes the first value that is not negative, and keeps it.
pub open spec fn recorded(o: DiscoveredOffsets, target: TargetField, value: i32) -> DiscoveredOffsets {
    match target {
        TargetField::OsThread => if o.osthread < 0 && value >= 0 {
            DiscoveredOffsets { osthread: value as i64, ..o }
        } else {
            o
        },
        TargetField::OsThreadId => if o.os_thread_id < 0 && value >= 0 {
            DiscoveredOffsets { os_thread_id: value as i64, ..o }
        } else {
            o
        },
    }
}

impl DiscoveredOffsets {
    pub open spec fn wf(self) -> bool {
        slot_wf(self.osthread) && slot_wf(self.os_thread_id)
    }

    /// Whether both offsets have been found.
    pub open spec fn complete(self) -> bool {
        self.osthread >= 0 && self.os_thread_id >= 0
    }

    pub open spec fn unknown_spec() -> DiscoveredOffsets {
        DiscoveredOffsets { osthread: OFFSET_UNKNOWN, os_thread_id: OFFSET_UNKNOWN }
    }

    /// Neither offset found yet.
    pub fn unknown() -> (r: DiscoveredOffsets)
        ensures
            r == DiscoveredOffsets::unknown_spec(),
            r.osthread == OFFSET_UNKNOWN,
            r.os_thread_id == OFFSET_UNKNOWN,
            r.wf(),
    {
        DiscoveredOffsets { osthread: OFFSET_UNKNOWN, os_thread_id: OFFSET_UNKNOWN }
    }

    /// Whether both offsets have been found.
    pub fn is_complete(&self) -> (r: bool)
        ensures
            r == self.complete(),
    {
        self.osthread >= 0 && self.os_thread_id >= 0
    }

    /// Takes the value of a record for `target`; a slot that already holds an
    /// offset keeps it, and a negative value is not an offset.
    pub fn record(&mut self, target: TargetField, value: i32)
        ensures
            *final(self) == recorded(*old(self), target, value),
            old(self).wf() ==> final(self).wf(),
    {
        match target {
            TargetField::OsThread => {
                if self.osthread < 0 && value >= 0 {
                    self.osthread = value as i64;
                }
            },
            TargetField::OsThreadId => {
                if self.os_thread_id < 0 && value >= 0 {
                    self.os_thread_id = value as i64;
                }
            },
        }
    }
}

/// `base` moved on by `offset` where that stays an address and the offset is
/// known; `None` otherwise.
pub open spec fn slot_address(base: u64, offset: i64) -> Option<u64> {
    if offset >= 0 && base + offset <= u64::MAX {
        Some((base + offset) as u64)
    } else {
        None
    }
}

/// Where the pointer to a runtime thread's OS-thread structure lies, given
/// the address of the runtime thread. `None`, and nothing to read, unless
/// both offsets have been found.
pub fn osthread_pointer_at(offsets: &DiscoveredOffsets, thread_addr: u64) -> (r: Option<u64>)
    ensures
        r == (if offsets.complete() {
            slot_address(thread_addr, offsets.osthread)
        } else {
            None
        }),
        !offsets.complete() ==> r is None,
{
    if !offsets.is_complete() {
        return None;
    }
    let off = offsets.osthread as u64;
    thread_addr.checked_add(off)
}

/// Where the operating-system thread id lies, given the address of the
/// OS-thread structure. `None`, and nothing to read, unless both offsets
/// have been found.
pub fn thread_id_at(offsets: &DiscoveredOffsets, osthread_addr: u64) -> (r: Option<u64>)
    ensures
        r == (if offsets.complete() {
            slot_address(osthread_addr, offsets.os_thread_id)
        } else {
            None
        }),
        !offsets.complete() ==> r is None,
{
    if !offsets.is_complete() {
        return None;
    }
    let off = offsets.os_thread_id as u64;
    osthread_addr.checked_add(off)
}

} // verus!
