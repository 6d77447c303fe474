//! Wi-Fi scan results: frequency bands, the CoreWLAN helper's output format,
//! and Privacy Mode A.
use vstd::prelude::*;
use crate::error::Error;
use crate::text::{chars_of, line_ranges, lines, parse_i32, parse_i32_range, parse_u32, parse_u32_range, pieces_of, range_starts_with, ranges_within, splitn, splitn_ranges, starts_with, string_from_range, trim, trim_range};

verus! {

/// Raw Wi-Fi network as seen by the OS scanner.
#[derive(Debug, Clone)]
pub struct WifiNetwork {
    pub bssid: String,
    pub ssid: String,
    /// "2.4" | "5" | "6"
    pub band: String,
    pub channel: u32,
    pub frequency_mhz: u32,
    pub rssi_dbm: i32,
}

/// The mathematical value of a [`WifiNetwork`].
pub struct WifiNetworkView {
    pub bssid: Seq<char>,
    pub ssid: Seq<char>,
    pub band: Seq<char>,
    pub channel: u32,
    pub frequency_mhz: u32,
    pub rssi_dbm: i32,
}

impl View for WifiNetwork {
    type V = WifiNetworkView;

    open spec fn view(&self) -> WifiNetworkView {
        WifiNetworkView {
            bssid: self.bssid@,
            ssid: self.ssid@,
            band: self.band@,
            channel: self.channel,
            frequency_mhz: self.frequency_mhz,
            rssi_dbm: self.rssi_dbm,
        }
    }
}

pub open spec fn band_24() -> Seq<char> {
    seq!['2', '.', '4']
}

pub open spec fn band_5() -> Seq<char> {
    seq!['5']
}

pub open spec fn band_6() -> Seq<char> {
    seq!['6']
}

/// The band a centre frequency (MHz) falls in.
pub open spec fn spec_band_from_frequency(freq_mhz: u32) -> Seq<char> {
    if freq_mhz >= 5925 {
        band_6()
    } else if freq_mhz >= 5000 {
        band_5()
    } else {
        band_24()
    }
}

impl WifiNetwork {
    /// The band ("2.4", "5" or "6") of a centre frequency in MHz.
    pub fn band_from_frequency(freq_mhz: u32) -> (band: &'static str)
        ensures
            band@ == spec_band_from_frequency(freq_mhz),
    {
        if freq_mhz >= 5925 {
            proof {
                reveal_strlit("6");
            }
            "6"
        } else if freq_mhz >= 5000 {
            proof {
                reveal_strlit("5");
            }
            "5"
        } else {
            proof {
                reveal_strlit("2.4");
            }
            "2.4"
        }
    }
}

/// Largest channel number whose 6 GHz centre frequency fits in a `u32`.
pub const MAX_CHANNEL: u32 = 858_992_269;

/// Band and centre frequency (MHz) of a channel number.
pub open spec fn spec_channel_to_band_freq(channel: u32) -> (Seq<char>, int) {
    if channel <= 13 {
        (band_24(), 2407 + channel * 5)
    } else if channel == 14 {
        (band_24(), 2484)
    } else if 36 <= channel <= 177 {
        (band_5(), 5000 + channel * 5)
    } else {
        (band_6(), 5950 + channel * 5)
    }
}

/// Maps a channel number to its band and centre frequency (MHz): channels
/// 1–13 and 14 in 2.4 GHz, 36–177 in 5 GHz, any other in 6 GHz.
pub fn channel_to_band_freq(channel: u32) -> (r: (&'static str, u32))
    requires
        channel <= MAX_CHANNEL,
    ensures
        r.0@ == spec_channel_to_band_freq(channel).0,
        r.1 == spec_channel_to_band_freq(channel).1,
{
    if channel <= 13 {
        proof {
            reveal_strlit("2.4");
        }
        ("2.4", 2407 + channel * 5)
    } else if channel == 14 {
        proof {
            reveal_strlit("2.4");
        }
        ("2.4", 2484)
    } else if 36 <= channel && channel <= 177 {
        proof {
            reveal_strlit("5");
        }
        ("5", 5000 + channel * 5)
    } else {
        proof {
            reveal_strlit("6");
        }
        ("6", 5950 + channel * 5)
    }
}

// ── CoreWLAN helper output ────────────────────────────────────────────────────

pub open spec fn error_prefix() -> Seq<char> {
    seq!['E', 'R', 'R', 'O', 'R']
}

/// The channel field of a scan line, as the parser reads it (0 when absent or
/// not a `u32`), or `None` when the line is skipped before it is read.
pub open spec fn corewlan_line_channel(line: Seq<char>) -> Option<nat> {
    let t = trim(line);
    if t.len() == 0 || starts_with(t, error_prefix()) {
        None
    } else {
        let parts = splitn(t, 5, '|');
        if parts.len() < 5 {
            None
        } else {
            match parse_u32(parts[3]) {
                Some(c) => Some(c),
                None => Some(0),
            }
        }
    }
}

/// One line of `SSID|BSSID|RSSI|CHANNEL|BAND`, after trimming: empty lines,
/// `ERROR` lines, lines with fewer than five fields and channel 0 are
/// skipped; an unparseable RSSI reads as -100 and an unparseable channel as 0.
pub open spec fn corewlan_line(line: Seq<char>) -> Option<WifiNetworkView> {
    let t = trim(line);
    if t.len() == 0 || starts_with(t, error_prefix()) {
        None
    } else {
        let parts = splitn(t, 5, '|');
        if parts.len() < 5 {
            None
        } else {
            let rssi: int = match parse_i32(parts[2]) {
                Some(r) => r,
                None => -100,
            };
            let channel: nat = match parse_u32(parts[3]) {
                Some(c) => c,
                None => 0,
            };
            if channel == 0 {
                None
            } else {
                Some(
                    WifiNetworkView {
                        ssid: parts[0],
                        bssid: parts[1],
                        band: parts[4],
                        channel: channel as u32,
                        frequency_mhz: spec_channel_to_band_freq(channel as u32).1 as u32,
                        rssi_dbm: rssi as i32,
                    },
                )
            }
        }
    }
}

/// The networks read from a sequence of lines, in order.
pub open spec fn corewlan_networks(ls: Seq<Seq<char>>) -> Seq<WifiNetworkView>
    decreases ls.len(),
{
    if ls.len() == 0 {
        Seq::empty()
    } else {
        let rest = corewlan_networks(ls.drop_last());
        match corewlan_line(ls.last()) {
            Some(n) => rest.push(n),
            None => rest,
        }
    }
}

/// Every channel field the parser reads has a representable centre frequency.
pub open spec fn corewlan_channels_in_range(text: Seq<char>) -> bool {
    forall|i: int|
        0 <= i < lines(text).len() ==> match #[trigger] corewlan_line_channel(lines(text)[i]) {
            Some(c) => c <= MAX_CHANNEL,
            None => true,
        }
}

pub open spec fn network_views(ns: Seq<WifiNetwork>) -> Seq<WifiNetworkView> {
    ns.map_values(|n: WifiNetwork| n@)
}

/// Whether every channel field the parser would read is at most
/// `MAX_CHANNEL`: the test a caller makes before [`parse_corewlan_output`].
pub fn corewlan_channels_ok(text: &str) -> (ok: bool)
    ensures
        ok == corewlan_channels_in_range(text@),
{
    let v = chars_of(text);
    let rs = line_ranges(&v);
    let ghost ls = lines(v@);
    let error_word = chars_of("ERROR");
    proof {
        reveal_strlit("ERROR");
        assert(error_word@ =~= error_prefix());
    }
    let mut i: usize = 0;
    while i < rs.len()
        invariant
            0 <= i <= rs.len(),
            v@ == text@,
            ls == lines(v@),
            pieces_of(v@, rs@) == ls,
            ranges_within(rs@, 0, v.len() as int),
            error_word@ == error_prefix(),
            forall|j: int|
                0 <= j < i ==> match #[trigger] corewlan_line_channel(ls[j]) {
                    Some(c) => c <= MAX_CHANNEL,
                    None => true,
                },
        decreases rs.len() - i,
    {
        let (a, b) = rs[i];
        assert(ranges_within(rs@, 0, v.len() as int) ==> 0 <= rs@[i as int].0 <= rs@[i as int].1 <= v.len());
        let ghost line = v@.subrange(a as int, b as int);
        assert(line == ls[i as int]);
        let (ta, tb) = trim_range(&v, a, b);
        let ghost t = v@.subrange(ta as int, tb as int);
        if !(ta == tb || range_starts_with(&v, ta, tb, &error_word)) {
            let parts = splitn_ranges(&v, ta, tb, 5, '|');
            if parts.len() >= 5 {
                let ghost ps = splitn(t, 5, '|');
                assert(ps == pieces_of(v@, parts@));
                assert(ranges_within(parts@, ta as int, tb as int));
                let (p3a, p3b) = parts[3];
                assert(ps[3] == v@.subrange(p3a as int, p3b as int));
                match parse_u32_range(&v, p3a, p3b) {
                    Some(c) => {
                        if c > MAX_CHANNEL {
                            assert(corewlan_line_channel(ls[i as int]) == Some(c as nat));
                            return false;
                        }
                    },
                    None => {},
                }
            }
        }
        i = i + 1;
    }
    true
}

/// Parses the helper's output, one network per well-formed line.
pub fn parse_corewlan_output(text: &str) -> (r: Result<Vec<WifiNetwork>, Error>)
    requires
        corewlan_channels_in_range(text@),
    ensures
        r matches Ok(ns) && network_views(ns@) == corewlan_networks(lines(text@)),
{
    let v = chars_of(text);
    let rs = line_ranges(&v);
    let ghost ls = lines(v@);
    let error_word = chars_of("ERROR");
    proof {
        reveal_strlit("ERROR");
        assert(error_word@ =~= error_prefix());
    }
    let mut networks: Vec<WifiNetwork> = Vec::new();
    let mut i: usize = 0;
    while i < rs.len()
        invariant
            0 <= i <= rs.len(),
            v@ == text@,
            ls == lines(v@),
            pieces_of(v@, rs@) == ls,
            ranges_within(rs@, 0, v.len() as int),
            error_word@ == error_prefix(),
            corewlan_channels_in_range(text@),
            network_views(networks@) == corewlan_networks(ls.take(i as int)),
        decreases rs.len() - i,
    {
        let (a, b) = rs[i];
        assert(ranges_within(rs@, 0, v.len() as int) ==> 0 <= rs@[i as int].0 <= rs@[i as int].1 <= v.len());
        let ghost line = v@.subrange(a as int, b as int);
        assert(line == ls[i as int]);
        let (ta, tb) = trim_range(&v, a, b);
        let ghost t = v@.subrange(ta as int, tb as int);
        let ghost before = networks@;
        assert(ls.take(i + 1).drop_last() =~= ls.take(i as int));
        assert(ls.take(i + 1).last() == line);
        if ta == tb || range_starts_with(&v, ta, tb, &error_word) {
            assert(corewlan_line(line) is None);
        } else {
            let parts = splitn_ranges(&v, ta, tb, 5, '|');
            if parts.len() < 5 {
                assert(corewlan_line(line) is None);
            } else {
                let ghost ps = splitn(t, 5, '|');
                assert(ps == pieces_of(v@, parts@));
                assert(ranges_within(parts@, ta as int, tb as int));
                let (p0a, p0b) = parts[0];
                let (p1a, p1b) = parts[1];
                let (p2a, p2b) = parts[2];
                let (p3a, p3b) = parts[3];
                let (p4a, p4b) = parts[4];
                assert(ps[2] == v@.subrange(p2a as int, p2b as int));
                assert(ps[3] == v@.subrange(p3a as int, p3b as int));
                let rssi_dbm: i32 = match parse_i32_range(&v, p2a, p2b) {
                    Some(x) => x,
                    None => -100,
                };
                let channel: u32 = match parse_u32_range(&v, p3a, p3b) {
                    Some(x) => x,
                    None => 0,
                };
                if channel != 0 {
                    assert(corewlan_line_channel(ls[i as int]) == Some(channel as nat));
                    assert(channel <= MAX_CHANNEL);
                    let ssid = string_from_range(&v, p0a, p0b);
                    let bssid = string_from_range(&v, p1a, p1b);
                    let band = string_from_range(&v, p4a, p4b);
                    let (_, frequency_mhz) = channel_to_band_freq(channel);
                    let n = WifiNetwork { ssid, bssid, band, channel, frequency_mhz, rssi_dbm };
                    networks.push(n);
                    proof {
                        assert(n@ == corewlan_line(line).unwrap());
                        assert(network_views(networks@) =~= network_views(before).push(n@));
                    }
                } else {
                    assert(corewlan_line(line) is None);
                }
            }
        }
        i = i + 1;
    }
    assert(ls.take(rs.len() as int) =~= ls);
    Ok(networks)
}

/// Privacy Mode A view of a network: channel and signal only.
#[derive(Debug, Clone)]
pub struct ChannelObservation {
    pub band: String,
    pub channel: u32,
    pub rssi_dbm: i32,
}

/// Apply Privacy Mode A — default and required.
/// Strips all identifying information (BSSID, SSID).
pub fn apply_privacy_mode_a(networks: Vec<WifiNetwork>) -> (obs: Vec<ChannelObservation>)
    ensures
        obs.len() == networks.len(),
        forall|i: int|
            0 <= i < obs.len() ==> (#[trigger] obs[i]).band@ == networks[i].band@ && obs[i].channel
                == networks[i].channel && obs[i].rssi_dbm == networks[i].rssi_dbm,
{
    let mut obs: Vec<ChannelObservation> = Vec::new();
    let mut i: usize = 0;
    while i < networks.len()
        invariant
            0 <= i <= networks.len(),
            obs.len() == i,
            forall|k: int|
                0 <= k < i ==> (#[trigger] obs[k]).band@ == networks[k].band@ && obs[k].channel
                    == networks[k].channel && obs[k].rssi_dbm == networks[k].rssi_dbm,
        decreases networks.len() - i,
    {
        let n = &networks[i];
        obs.push(ChannelObservation { band: n.band.clone(), channel: n.channel, rssi_dbm: n.rssi_dbm });
        i = i + 1;
    }
    obs
}

/// Scanner unit for macOS (CoreWLAN through the bundled `scan_wifi.swift` helper).
pub struct AirportScanner;

/// Linux scanner placeholder.
pub struct LinuxWifiScanner;

impl LinuxWifiScanner {
    /// Always fails: no Linux scanner is available.
    pub fn scan(&self) -> (r: Result<Vec<WifiNetwork>, Error>)
        ensures
            r matches Err(Error::ScannerUnavailable(m)) && m@
                == "Linux Wi-Fi scanner not yet implemented (Phase 2)"@,
    {
        Err(Error::ScannerUnavailable("Linux Wi-Fi scanner not yet implemented (Phase 2)".to_owned()))
    }
}

} // verus!
