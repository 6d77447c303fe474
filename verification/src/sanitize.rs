//! Anti-poisoning bounds on what enters the aggregation pipeline: the checks
//! on an aggregate's integer fields. The power levels, being readings in dBm,
//! are checked and clamped by the caller.
use vstd::prelude::*;
pub use crate::ratelimit::{RateLimiter, RATE_LIMIT_RF_PER_TILE, RATE_LIMIT_WIFI_PER_TILE};
use crate::text::str_eq;

verus! {

/// Minimum plausible frequency (Hz): 10 MHz.
pub const RF_MIN_FREQ_HZ: u64 = 10_000_000;

/// Maximum plausible frequency (Hz): 6 GHz (HackRF max).
pub const RF_MAX_FREQ_HZ: u64 = 6_000_000_000;

/// Wi-Fi RSSI floor (dBm).
pub const WIFI_MIN_RSSI_DBM: i32 = -100;

/// Wi-Fi RSSI ceiling (dBm).
pub const WIFI_MAX_RSSI_DBM: i32 = -10;

/// An RF aggregate's band and sample count are plausible: the band lies
/// within 10 MHz–6 GHz, starts below where it ends, and holds samples.
pub open spec fn rf_fields_plausible(freq_start_hz: u64, freq_end_hz: u64, sample_count: u32) -> bool {
    &&& freq_start_hz >= RF_MIN_FREQ_HZ
    &&& freq_end_hz <= RF_MAX_FREQ_HZ
    &&& freq_start_hz < freq_end_hz
    &&& sample_count != 0
}

/// Checks an RF aggregate's band and sample count.
pub fn rf_fields_ok(freq_start_hz: u64, freq_end_hz: u64, sample_count: u32) -> (ok: bool)
    ensures
        ok == rf_fields_plausible(freq_start_hz, freq_end_hz, sample_count),
{
    if freq_start_hz < RF_MIN_FREQ_HZ || freq_end_hz > RF_MAX_FREQ_HZ {
        return false;
    }
    if freq_start_hz >= freq_end_hz {
        return false;
    }
    sample_count != 0
}

/// A channel hotness entry's count, channel and band are plausible: it
/// counts something, names a channel, and its band is "2.4", "5" or "6".
pub open spec fn wifi_fields_plausible(band: Seq<char>, channel: u32, count: u32) -> bool {
    &&& count != 0
    &&& channel != 0
    &&& (band == "2.4"@ || band == "5"@ || band == "6"@)
}

/// Checks a channel hotness entry's count, channel and band.
pub fn wifi_fields_ok(band: &str, channel: u32, count: u32) -> (ok: bool)
    ensures
        ok == wifi_fields_plausible(band@, channel, count),
{
    if count == 0 {
        return false;
    }
    if channel == 0 {
        return false;
    }
    str_eq(band, "2.4") || str_eq(band, "5") || str_eq(band, "6")
}

} // verus!
