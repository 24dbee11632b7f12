//! The viewer's throughput window: frames and payload bytes counted over
//! about one second, reported when the second is over.

use vstd::prelude::*;

verus! {

/// Length of the window in milliseconds.
pub const WINDOW_MS: u64 = 1000;

/// Bytes per reported unit.
pub const BYTES_PER_KB: u64 = 1024;

/// Sum of two counters, held at the largest value where it would pass it.
pub open spec fn saturating_sum(a: u64, b: u64) -> u64 {
    if a + b > u64::MAX {
        u64::MAX
    } else {
        (a + b) as u64
    }
}

/// What one window measured.
#[derive(Clone, Copy, Debug, PartialEq, Eq, Structural)]
pub struct Throughput {
    /// Frames rebuilt in the window.
    pub fps: u64,
    /// Payload received in the window, in units of 1024 bytes, rounded down.
    pub kb_per_sec: u64,
}

/// Counters of the window that is open.
pub struct Telemetry {
    frames: u64,
    bytes: u64,
}

fn add_saturating(a: u64, b: u64) -> (sum: u64)
    ensures
        sum == saturating_sum(a, b),
{
    if a > u64::MAX - b {
        u64::MAX
    } else {
        a + b
    }
}

impl Telemetry {
    /// Frames counted in the open window.
    pub closed spec fn frames(self) -> u64 {
        self.frames
    }

    /// Payload bytes counted in the open window.
    pub closed spec fn bytes(self) -> u64 {
        self.bytes
    }

    /// A window with nothing counted.
    pub fn new() -> (telemetry: Telemetry)
        ensures
            telemetry.frames() == 0,
            telemetry.bytes() == 0,
    {
        Telemetry { frames: 0, bytes: 0 }
    }

    /// Counts one frame of `payload_len` bytes. `elapsed_ms` is the time
    /// since the window opened. Once that reaches `WINDOW_MS`, the window is
    /// reported, this frame included, and a new one opens with nothing
    /// counted; the caller restarts its clock.
    pub fn record(&mut self, payload_len: usize, elapsed_ms: u64) -> (report: Option<Throughput>)
        ensures
            report is Some <==> elapsed_ms >= WINDOW_MS,
            report matches Some(t) ==> {
                &&& t.fps == saturating_sum(old(self).frames(), 1)
                &&& t.kb_per_sec == saturating_sum(old(self).bytes(), payload_len as u64)
                    / BYTES_PER_KB
                &&& final(self).frames() == 0
                &&& final(self).bytes() == 0
            },
            report is None ==> {
                &&& final(self).frames() == saturating_sum(old(self).frames(), 1)
                &&& final(self).bytes() == saturating_sum(old(self).bytes(), payload_len as u64)
            },
    {
        let frames: u64 = add_saturating(self.frames, 1);
        let bytes: u64 = add_saturating(self.bytes, payload_len as u64);
        if elapsed_ms >= WINDOW_MS {
            self.frames = 0;
            self.bytes = 0;
            Some(Throughput { fps: frames, kb_per_sec: bytes / BYTES_PER_KB })
        } else {
            self.frames = frames;
            self.bytes = bytes;
            None
        }
    }
}

} // verus!
