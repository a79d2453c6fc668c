//! Memory accounting of queued events and checkpoints, with limits.

use vstd::prelude::*;
use crate::error::MeiliBridgeError;
use crate::text::{concat3, decimal, u64_to_string};

verus! {

/// What an allocation holds.
#[derive(Debug, Clone, Copy, PartialEq, Eq, Structural)]
pub enum AllocationType {
    Queue,
    Checkpoint,
}

/// Memory taken for one event or checkpoint, to be given back with
/// `MemoryMonitor::release`.
#[derive(Debug)]
pub struct MemoryAllocation {
    pub size_bytes: u64,
    pub allocation_type: AllocationType,
}

/// A snapshot of the accounts.
#[derive(Debug, Clone, Copy)]
pub struct MemoryStats {
    pub queue_memory_bytes: u64,
    pub checkpoint_memory_bytes: u64,
    pub max_queue_memory_bytes: u64,
    pub max_checkpoint_memory_bytes: u64,
    pub event_count: usize,
}

/// Memory taken by queued events and by checkpoints, against limits.
#[derive(Debug, Clone, Copy)]
pub struct MemoryMonitor {
    pub max_queue_memory: u64,
    pub max_checkpoint_memory: u64,
    pub current_queue_memory: u64,
    pub current_checkpoint_memory: u64,
    pub event_count: usize,
}

/// The message when a limit would be passed: the limit in whole MiB.
pub open spec fn limit_text(what: Seq<char>, max: u64) -> Seq<char> {
    what + " memory limit exceeded: "@ + decimal((max / 1048576) as nat) + " MB"@
}

fn limit_error(what: &str, max: u64) -> (r: MeiliBridgeError)
    ensures
        r matches MeiliBridgeError::ResourceExhausted(m) && m@ == limit_text(what@, max),
{
    let n = u64_to_string(max / 1048576);
    let mut m = concat3(what, " memory limit exceeded: ", n.as_str());
    crate::text::append_str(&mut m, " MB");
    MeiliBridgeError::ResourceExhausted(m)
}

/// Taking `size` bytes for a queued event: refused, with nothing taken,
/// when it would pass the queue limit; else the queue account grows by
/// `size` and one more event is counted.
pub open spec fn tracked_event(
    before: MemoryMonitor,
    size: u64,
    after: MemoryMonitor,
    r: Result<MemoryAllocation, MeiliBridgeError>,
) -> bool {
    if before.current_queue_memory + size > before.max_queue_memory {
        after == before && (r matches Err(MeiliBridgeError::ResourceExhausted(m)) && m@ == limit_text(
            "Queue"@,
            before.max_queue_memory,
        ))
    } else {
        after == (MemoryMonitor {
            current_queue_memory: (before.current_queue_memory + size) as u64,
            event_count: (before.event_count + 1) as usize,
            ..before
        }) && (r matches Ok(a) && a.size_bytes == size && a.allocation_type == AllocationType::Queue)
    }
}

/// Giving back an allocation: its bytes leave its account, and a queued
/// event is no longer counted.
pub open spec fn released(before: MemoryMonitor, allocation: MemoryAllocation, after: MemoryMonitor) -> bool {
    match allocation.allocation_type {
        AllocationType::Queue => after == (MemoryMonitor {
            current_queue_memory: (before.current_queue_memory - allocation.size_bytes) as u64,
            event_count: (before.event_count - 1) as usize,
            ..before
        }),
        AllocationType::Checkpoint => after == (MemoryMonitor {
            current_checkpoint_memory: (before.current_checkpoint_memory - allocation.size_bytes) as u64,
            ..before
        }),
    }
}

impl MemoryMonitor {
    /// Nothing taken; limits in MiB.
    pub fn new(max_queue_memory_mb: usize, max_checkpoint_memory_mb: usize) -> (r: Self)
        requires
            max_queue_memory_mb * 1048576 <= usize::MAX,
            max_checkpoint_memory_mb * 1048576 <= usize::MAX,
        ensures
            r.max_queue_memory == max_queue_memory_mb * 1048576,
            r.max_checkpoint_memory == max_checkpoint_memory_mb * 1048576,
            r.current_queue_memory == 0,
            r.current_checkpoint_memory == 0,
            r.event_count == 0,
    {
        MemoryMonitor {
            max_queue_memory: (max_queue_memory_mb * 1024 * 1024) as u64,
            max_checkpoint_memory: (max_checkpoint_memory_mb * 1024 * 1024) as u64,
            current_queue_memory: 0,
            current_checkpoint_memory: 0,
            event_count: 0,
        }
    }

    /// Takes memory for a queued event; refused, with nothing taken, when
    /// it would pass the queue limit.
    pub fn track_event_memory(&mut self, size_bytes: u64) -> (r: Result<MemoryAllocation, MeiliBridgeError>)
        requires
            old(self).current_queue_memory + size_bytes <= u64::MAX,
            old(self).event_count < usize::MAX,
        ensures
            tracked_event(*old(self), size_bytes, *final(self), r),
    {
        let new_total = self.current_queue_memory + size_bytes;
        if new_total > self.max_queue_memory {
            return Err(limit_error("Queue", self.max_queue_memory));
        }
        self.current_queue_memory = new_total;
        self.event_count = self.event_count + 1;
        Ok(MemoryAllocation { size_bytes, allocation_type: AllocationType::Queue })
    }

    /// Takes memory for a checkpoint; refused, with nothing taken, when it
    /// would pass the checkpoint limit.
    pub fn track_checkpoint_memory(&mut self, size_bytes: u64) -> (r: Result<MemoryAllocation, MeiliBridgeError>)
        requires
            old(self).current_checkpoint_memory + size_bytes <= u64::MAX,
        ensures
            old(self).current_checkpoint_memory + size_bytes > old(self).max_checkpoint_memory ==> *final(self) == *old(
                self,
            ) && (r matches Err(MeiliBridgeError::ResourceExhausted(m)) && m@ == limit_text(
                "Checkpoint"@,
                old(self).max_checkpoint_memory,
            )),
            old(self).current_checkpoint_memory + size_bytes <= old(self).max_checkpoint_memory ==> *final(self) == (
            MemoryMonitor {
                current_checkpoint_memory: (old(self).current_checkpoint_memory + size_bytes) as u64,
                ..*old(self)
            }) && (r matches Ok(a) && a.size_bytes == size_bytes && a.allocation_type == AllocationType::Checkpoint),
    {
        let new_total = self.current_checkpoint_memory + size_bytes;
        if new_total > self.max_checkpoint_memory {
            return Err(limit_error("Checkpoint", self.max_checkpoint_memory));
        }
        self.current_checkpoint_memory = new_total;
        Ok(MemoryAllocation { size_bytes, allocation_type: AllocationType::Checkpoint })
    }

    /// Gives back the memory of an allocation.
    pub fn release(&mut self, allocation: MemoryAllocation)
        requires
            allocation.allocation_type == AllocationType::Queue ==> old(self).current_queue_memory >= allocation.size_bytes
                && old(self).event_count >= 1,
            allocation.allocation_type == AllocationType::Checkpoint ==> old(self).current_checkpoint_memory
                >= allocation.size_bytes,
        ensures
            released(*old(self), allocation, *final(self)),
    {
        match allocation.allocation_type {
            AllocationType::Queue => {
                self.current_queue_memory = self.current_queue_memory - allocation.size_bytes;
                self.event_count = self.event_count - 1;
            },
            AllocationType::Checkpoint => {
                self.current_checkpoint_memory = self.current_checkpoint_memory - allocation.size_bytes;
            },
        }
    }

    /// The current accounts.
    pub fn get_stats(&self) -> (r: MemoryStats)
        ensures
            r.queue_memory_bytes == self.current_queue_memory,
            r.checkpoint_memory_bytes == self.current_checkpoint_memory,
            r.max_queue_memory_bytes == self.max_queue_memory,
            r.max_checkpoint_memory_bytes == self.max_checkpoint_memory,
            r.event_count == self.event_count,
    {
        MemoryStats {
            queue_memory_bytes: self.current_queue_memory,
            checkpoint_memory_bytes: self.current_checkpoint_memory,
            max_queue_memory_bytes: self.max_queue_memory,
            max_checkpoint_memory_bytes: self.max_checkpoint_memory,
            event_count: self.event_count,
        }
    }
}

/// Taking memory for an event and giving back what was taken leaves the
/// accounts as they were.
pub proof fn law_track_then_release(
    a: MemoryMonitor,
    b: MemoryMonitor,
    c: MemoryMonitor,
    size: u64,
    r: Result<MemoryAllocation, MeiliBridgeError>,
)
    requires
        a.event_count < usize::MAX,
        tracked_event(a, size, b, r),
        match r {
            Ok(alloc) => released(b, alloc, c),
            Err(_) => c == b,
        },
    ensures
        c == a,
{
}

/// Tracking keeps the queue account within its limit: an event that
/// would pass it is refused and the account stays as it was.
pub proof fn law_queue_within_limit(
    a: MemoryMonitor,
    size: u64,
    b: MemoryMonitor,
    r: Result<MemoryAllocation, MeiliBridgeError>,
)
    requires
        a.current_queue_memory <= a.max_queue_memory,
        tracked_event(a, size, b, r),
    ensures
        b.current_queue_memory <= b.max_queue_memory,
        b.max_queue_memory == a.max_queue_memory,
        r is Err ==> b == a,
{
}

} // verus!
