use sigint::error::Error;
use sigint::wifi::{apply_privacy_mode_a, channel_to_band_freq, corewlan_channels_ok, parse_corewlan_output, LinuxWifiScanner, WifiNetwork};

#[test]
fn privacy_mode_a_strips_identifiers() {
    let nets = vec![WifiNetwork {
        bssid: "aa:bb:cc:dd:ee:ff".to_string(),
        ssid: "MyNetwork".to_string(),
        band: "2.4".to_string(),
        channel: 6,
        frequency_mhz: 2437,
        rssi_dbm: -65,
    }];
    let obs = apply_privacy_mode_a(nets);
    assert_eq!(obs.len(), 1);
    assert_eq!(obs[0].channel, 6);
    assert_eq!(obs[0].rssi_dbm, -65);
}

#[test]
fn channel_to_band_2_4() {
    let (band, freq) = channel_to_band_freq(6);
    assert_eq!(band, "2.4");
    assert_eq!(freq, 2437);
}

#[test]
fn channel_to_band_5() {
    let (band, freq) = channel_to_band_freq(36);
    assert_eq!(band, "5");
    assert_eq!(freq, 5180);
}

#[test]
fn corewlan_output_parse() {
    let text = "HomeNetwork|aa:bb:cc:dd:ee:ff|-55|6|2.4\nOtherNet||\u{2212}72|36|5\n";
    let nets = parse_corewlan_output(text).unwrap();
    assert!(!nets.is_empty());
    assert_eq!(nets[0].ssid, "HomeNetwork");
    assert_eq!(nets[0].rssi_dbm, -55);
    assert_eq!(nets[0].channel, 6);
    assert_eq!(nets[0].band, "2.4");
}

#[test]
fn corewlan_skips_bad_lines() {
    let text = "SSID|BSSID|-65|6|2.4\n\nERROR: something\nbad line\n";
    let nets = parse_corewlan_output(text).unwrap();
    assert_eq!(nets.len(), 1);
}

#[test]
fn band_from_frequency() {
    assert_eq!(WifiNetwork::band_from_frequency(2437), "2.4");
    assert_eq!(WifiNetwork::band_from_frequency(5180), "5");
    assert_eq!(WifiNetwork::band_from_frequency(6000), "6");
}

#[test]
fn band_from_frequency_edges() {
    assert_eq!(WifiNetwork::band_from_frequency(4999), "2.4");
    assert_eq!(WifiNetwork::band_from_frequency(5000), "5");
    assert_eq!(WifiNetwork::band_from_frequency(5924), "5");
    assert_eq!(WifiNetwork::band_from_frequency(5925), "6");
}

#[test]
fn channel_to_band_special_cases() {
    assert_eq!(channel_to_band_freq(14), ("2.4", 2484));
    assert_eq!(channel_to_band_freq(1), ("2.4", 2412));
    assert_eq!(channel_to_band_freq(177), ("5", 5885));
    assert_eq!(channel_to_band_freq(37), ("5", 5185));
    assert_eq!(channel_to_band_freq(5), ("2.4", 2432));
    assert_eq!(channel_to_band_freq(15), ("6", 6025));
}

#[test]
fn corewlan_fields_and_defaults() {
    // A bad RSSI reads as -100; the band field is kept as written and the
    // frequency comes from the channel.
    let text = "Cafe|11:22:33:44:55:66|loud|149|x\n";
    let nets = parse_corewlan_output(text).unwrap();
    assert_eq!(nets.len(), 1);
    assert_eq!(nets[0].bssid, "11:22:33:44:55:66");
    assert_eq!(nets[0].rssi_dbm, -100);
    assert_eq!(nets[0].channel, 149);
    assert_eq!(nets[0].band, "x");
    assert_eq!(nets[0].frequency_mhz, 5745);
}

#[test]
fn corewlan_zero_channel_skipped() {
    let text = "Net|aa|-50|0|2.4\nNet2|bb|-40|notanumber|2.4\n";
    let nets = parse_corewlan_output(text).unwrap();
    assert!(nets.is_empty());
}

#[test]
fn linux_scanner_unavailable() {
    match LinuxWifiScanner.scan() {
        Err(Error::ScannerUnavailable(m)) => {
            assert_eq!(m, "Linux Wi-Fi scanner not yet implemented (Phase 2)")
        }
        _ => panic!("expected ScannerUnavailable"),
    }
}

#[test]
fn corewlan_channel_bound_is_tested() {
    assert!(corewlan_channels_ok("Home|aa:bb|-40|36|5\nERROR|x|y|999999999999|z\n"));
    assert!(corewlan_channels_ok("Home|aa:bb|-40|858992269|6"));
    assert!(!corewlan_channels_ok("Home|aa:bb|-40|858992270|6"));
    assert!(corewlan_channels_ok("short|line|858992270"));
    assert!(corewlan_channels_ok(""));
}
