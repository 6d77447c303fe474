//! The node collector's decisions: which of its periodic tasks are due, and
//! how the pull cursor advances. Its loop, sensors and database are driven by
//! the caller.
use vstd::prelude::*;
use crate::text::chars_of;
use crate::text::parse_u64;
use crate::text::parse_u64_range;

verus! {

/// The intervals (seconds) of the collector's periodic tasks.
#[derive(Debug, Clone, Copy, PartialEq, Eq, Structural)]
pub struct CollectorSchedule {
    pub rf_flush_secs: u64,
    pub wifi_scan_secs: u64,
    pub sync_secs: u64,
}

/// Which tasks are due on one tick.
#[derive(Debug, Clone, Copy, PartialEq, Eq, Structural)]
pub struct DueTasks {
    pub rf_flush: bool,
    pub wifi_scan: bool,
    pub sync: bool,
}

impl CollectorSchedule {
    /// The tasks due, given the milliseconds since each last ran: a task is
    /// due once its interval has fully elapsed.
    pub fn due(&self, since_rf_ms: u128, since_wifi_ms: u128, since_sync_ms: u128) -> (d: DueTasks)
        ensures
            d.rf_flush == (since_rf_ms >= self.rf_flush_secs * 1000),
            d.wifi_scan == (since_wifi_ms >= self.wifi_scan_secs * 1000),
            d.sync == (since_sync_ms >= self.sync_secs * 1000),
    {
        DueTasks {
            rf_flush: since_rf_ms >= self.rf_flush_secs as u128 * 1000,
            wifi_scan: since_wifi_ms >= self.wifi_scan_secs as u128 * 1000,
            sync: since_sync_ms >= self.sync_secs as u128 * 1000,
        }
    }
}

/// The stored pull cursor: the stored text read as `u64`, 0 when absent or
/// unreadable.
pub open spec fn stored_cursor(stored: Option<Seq<char>>) -> nat {
    match stored {
        Some(s) => match parse_u64(s) {
            Some(v) => v,
            None => 0,
        },
        None => 0,
    }
}

/// Reads the stored pull cursor.
pub fn pull_cursor(stored: Option<&str>) -> (c: u64)
    ensures
        c == stored_cursor(match stored {
            Some(s) => Some(s@),
            None => None,
        }),
{
    match stored {
        Some(s) => {
            let v = chars_of(s);
            assert(v@.subrange(0, v.len() as int) =~= v@);
            match parse_u64_range(&v, 0, v.len()) {
                Some(x) => x,
                None => 0,
            }
        },
        None => 0,
    }
}

/// The cursor to store after a pull: the hub's, where it moved forward.
pub fn advanced_cursor(current: u64, delta_cursor: u64) -> (r: Option<u64>)
    ensures
        r == (if delta_cursor > current {
            Some(delta_cursor)
        } else {
            None::<u64>
        }),
{
    if delta_cursor > current {
        Some(delta_cursor)
    } else {
        None
    }
}

/// The cursor stored after a pull from `current` that answered `delta_cursor`.
pub open spec fn cursor_after(current: u64, delta_cursor: u64) -> u64 {
    match (if delta_cursor > current {
        Some(delta_cursor)
    } else {
        None::<u64>
    }) {
        Some(c) => c,
        None => current,
    }
}

/// The pull cursor never moves backwards: after a pull it is the larger of
/// the stored cursor and the hub's.
pub proof fn cursor_monotone(current: u64, delta_cursor: u64)
    ensures
        cursor_after(current, delta_cursor) >= current,
        cursor_after(current, delta_cursor) >= delta_cursor,
        cursor_after(current, delta_cursor) == current || cursor_after(current, delta_cursor)
            == delta_cursor,
{
}

} // verus!
