//! How the desktop application lists a native Wi-Fi scan: each network's
//! band from CoreWLAN's band code, the labels the privacy mode allows, and
//! the order, strongest signal first.
use vstd::prelude::*;
use crate::privacy::PrivacyMode;
use crate::text::concat;
use crate::text::dec;
use crate::text::push_dec;
use crate::text::push_str;
use crate::text::string_from_chars;

verus! {

/// The band of a CoreWLAN band code (1, 2, 3), or, for another code, from the
/// channel: above 14 is 5 GHz.
pub open spec fn corewlan_band_of(band_code: i64, channel: u32) -> Seq<char> {
    if band_code == 1 {
        "2.4"@
    } else if band_code == 2 {
        "5"@
    } else if band_code == 3 {
        "6"@
    } else if channel > 14 {
        "5"@
    } else {
        "2.4"@
    }
}

pub fn corewlan_band(band_code: i64, channel: u32) -> (band: &'static str)
    ensures
        band@ == corewlan_band_of(band_code, channel),
{
    if band_code == 1 {
        "2.4"
    } else if band_code == 2 {
        "5"
    } else if band_code == 3 {
        "6"
    } else if channel > 14 {
        "5"
    } else {
        "2.4"
    }
}

/// CoreWLAN's band code decides the band whatever the channel: 1 is
/// 2.4 GHz, 2 is 5 GHz, 3 is 6 GHz; for any other code a channel above 14
/// is 5 GHz and the rest 2.4 GHz.
pub proof fn band_code_decides_band(band_code: i64, channel: u32)
    ensures
        band_code == 1 ==> corewlan_band_of(band_code, channel) == "2.4"@,
        band_code == 2 ==> corewlan_band_of(band_code, channel) == "5"@,
        band_code == 3 ==> corewlan_band_of(band_code, channel) == "6"@,
        !(1 <= band_code <= 3) ==> corewlan_band_of(band_code, channel) == (if channel > 14 {
            "5"@
        } else {
            "2.4"@
        }),
{
}

/// The name shown for a network: its SSID, or "(hidden) Ch {channel}".
pub open spec fn shown_name(ssid: Seq<char>, channel: u32) -> Seq<char> {
    if ssid.len() == 0 {
        "(hidden) Ch "@ + dec(channel as nat)
    } else {
        ssid
    }
}

/// The labels a privacy mode allows: mode A only the channel and band, mode B
/// the name marked as hashed, mode C the name and the BSSID.
pub open spec fn ui_labels(mode: PrivacyMode, ssid: Seq<char>, bssid: Seq<char>, channel: u32, band: Seq<char>) -> (
    Seq<char>,
    Option<Seq<char>>,
) {
    match mode {
        PrivacyMode::A => ("Ch "@ + dec(channel as nat) + " · "@ + band + " GHz"@, None),
        PrivacyMode::B => (shown_name(ssid, channel) + " (hashed)"@, None),
        PrivacyMode::C => (shown_name(ssid, channel), Some(bssid)),
    }
}

fn shown_name_exec(ssid: &str, channel: u32) -> (s: String)
    ensures
        s@ == shown_name(ssid@, channel),
{
    if ssid.is_empty() {
        let mut v: Vec<char> = Vec::new();
        push_str(&mut v, "(hidden) Ch ");
        push_dec(&mut v, channel as u64);
        string_from_chars(&v)
    } else {
        ssid.to_owned()
    }
}

/// The display name and BSSID label of a network under a privacy mode.
pub fn network_labels(mode: PrivacyMode, ssid: &str, bssid: &str, channel: u32, band: &str) -> (r: (
    String,
    Option<String>,
))
    ensures
        r.0@ == ui_labels(mode, ssid@, bssid@, channel, band@).0,
        match r.1 {
            Some(b) => ui_labels(mode, ssid@, bssid@, channel, band@).1 == Some(b@),
            None => ui_labels(mode, ssid@, bssid@, channel, band@).1 is None,
        },
{
    match mode {
        PrivacyMode::A => {
            let mut v: Vec<char> = Vec::new();
            push_str(&mut v, "Ch ");
            push_dec(&mut v, channel as u64);
            push_str(&mut v, " · ");
            push_str(&mut v, band);
            push_str(&mut v, " GHz");
            (string_from_chars(&v), None)
        },
        PrivacyMode::B => {
            let name = shown_name_exec(ssid, channel);
            (concat(name.as_str(), " (hashed)"), None)
        },
        PrivacyMode::C => (shown_name_exec(ssid, channel), Some(bssid.to_owned())),
    }
}

// ── Strongest first ───────────────────────────────────────────────────────────

/// `order` lists each index below `n` exactly once.
pub open spec fn is_permutation(order: Seq<usize>, n: nat) -> bool {
    &&& order.len() == n
    &&& forall|i: int| 0 <= i < order.len() ==> order[i] < n
    &&& forall|i: int, j: int| 0 <= i < j < order.len() ==> order[i] != order[j]
}

/// `order` lists the entries from the strongest signal down, and entries
/// with equal signals in the order they were given.
pub open spec fn strongest_first(order: Seq<usize>, rssi: Seq<i32>) -> bool {
    forall|i: int, j: int|
        0 <= i < j < order.len() ==> rssi[order[i] as int] > rssi[order[j] as int] || (rssi[order[i] as int]
            == rssi[order[j] as int] && order[i] < order[j])
}

/// The order to list networks in: by signal strength, strongest first, ties
/// in scan order (a stable sort by descending RSSI).
pub fn order_by_signal(rssi: &Vec<i32>) -> (order: Vec<usize>)
    ensures
        is_permutation(order@, rssi.len() as nat),
        strongest_first(order@, rssi@),
{
    let mut order: Vec<usize> = Vec::new();
    let mut k: usize = 0;
    while k < rssi.len()
        invariant
            0 <= k <= rssi.len(),
            is_permutation(order@, k as nat),
            strongest_first(order@, rssi@),
        decreases rssi.len() - k,
    {
        let x = rssi[k];
        // The first place whose entry is weaker than the new one.
        let mut p: usize = 0;
        while p < order.len() && rssi[order[p]] >= x
            invariant
                0 <= p <= order.len(),
                is_permutation(order@, k as nat),
                k < rssi.len(),
                x == rssi@[k as int],
                forall|q: int| 0 <= q < p ==> rssi@[order@[q] as int] >= x,
            decreases order.len() - p,
        {
            p = p + 1;
        }
        let ghost before = order@;
        proof {
            // Entries from p on are all weaker than the new one.
            assert forall|q: int| p <= q < before.len() implies rssi@[before[q] as int] < x by {
                if q > p {
                    assert(strongest_first(before, rssi@));
                    assert(rssi@[before[p as int] as int] < x);
                    assert(rssi@[before[p as int] as int] > rssi@[before[q] as int] || rssi@[before[p as int] as int]
                        == rssi@[before[q] as int]);
                }
            }
        }
        order.insert(p, k);
        proof {
            let after = order@;
            assert(after.len() == before.len() + 1);
            assert forall|i: int| 0 <= i < after.len() implies after[i] < k + 1 by {
                if i < p {
                    assert(after[i] == before[i]);
                } else if i > p {
                    assert(after[i] == before[i - 1]);
                }
            }
            assert forall|i: int, j: int| 0 <= i < j < after.len() implies after[i] != after[j] by {
                if i < p && j < p {
                    assert(after[i] == before[i] && after[j] == before[j]);
                } else if i < p && j == p {
                    assert(after[i] == before[i]);
                } else if i < p && j > p {
                    assert(after[i] == before[i] && after[j] == before[j - 1]);
                } else if i == p {
                    assert(after[j] == before[j - 1]);
                } else {
                    assert(after[i] == before[i - 1] && after[j] == before[j - 1]);
                }
            }
            assert forall|i: int, j: int| 0 <= i < j < after.len() implies rssi@[after[i] as int]
                > rssi@[after[j] as int] || (rssi@[after[i] as int] == rssi@[after[j] as int] && after[i]
                < after[j]) by {
                if i < p && j < p {
                    assert(after[i] == before[i] && after[j] == before[j]);
                } else if i < p && j == p {
                    assert(after[i] == before[i]);
                    assert(rssi@[before[i] as int] >= x);
                } else if i < p && j > p {
                    assert(after[i] == before[i] && after[j] == before[j - 1]);
                } else if i == p {
                    assert(after[j] == before[j - 1]);
                    assert(rssi@[before[j - 1] as int] < x);
                } else {
                    assert(after[i] == before[i - 1] && after[j] == before[j - 1]);
                }
            }
        }
        k = k + 1;
    }
    order
}

} // verus!
