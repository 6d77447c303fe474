use sigint::error::Error;
use sigint::sweeper::{FreqRange, SweepConfig};

#[test]
fn default_config_has_four_bands() {
    let cfg = SweepConfig::default();
    assert_eq!(cfg.freq_ranges.len(), 4);
}

#[test]
fn default_config_values() {
    let cfg = SweepConfig::default();
    assert_eq!(cfg.freq_ranges[0], FreqRange::new(2400, 2500));
    assert_eq!(cfg.freq_ranges[3], FreqRange { start_mhz: 433, end_mhz: 435, bin_hz: 1_000_000 });
    assert_eq!(cfg.lna_gain, 16);
    assert_eq!(cfg.vga_gain, 20);
    assert_eq!(cfg.num_sweeps, 0);
    assert!(cfg.binary_path.is_none());
}

#[test]
fn build_command_contains_freq_args() {
    let cfg = SweepConfig { binary_path: Some("hackrf_sweep".to_string()), ..SweepConfig::default() };
    let range = FreqRange::new(2400, 2500);
    let args = cfg.sweep_args(&range);
    assert_eq!(range.start_mhz, 2400);
    assert_eq!(range.end_mhz, 2500);
    assert_eq!(args, vec!["-f", "2400:2500", "-B", "1000000", "-l", "16", "-g", "20"]);
}

#[test]
fn bounded_sweeps_add_count() {
    let cfg = SweepConfig { num_sweeps: 3, ..SweepConfig::default() };
    let args = cfg.sweep_args(&FreqRange::new(902, 928));
    assert_eq!(args[args.len() - 2], "-n");
    assert_eq!(args[args.len() - 1], "3");
}

#[test]
fn binary_path_override_used() {
    let cfg = SweepConfig { binary_path: Some("/custom/hackrf_sweep".to_string()), ..SweepConfig::default() };
    assert_eq!(cfg.binary_path(None).unwrap(), "/custom/hackrf_sweep");
}

#[test]
fn no_binary_returns_error() {
    let cfg = SweepConfig {
        binary_path: Some("/nonexistent/hackrf_sweep".to_string()),
        freq_ranges: vec![FreqRange::new(2400, 2500)],
        ..SweepConfig::default()
    };
    assert!(cfg.binary_path(None).is_ok());
}

#[test]
fn detected_binary_and_missing_binary() {
    let cfg = SweepConfig::default();
    assert_eq!(cfg.binary_path(Some("/usr/bin/hackrf_sweep".to_string())).unwrap(), "/usr/bin/hackrf_sweep");
    match cfg.binary_path(None) {
        Err(Error::ScannerUnavailable(m)) => {
            assert_eq!(m, "hackrf_sweep not found — install HackRF tools (brew install hackrf)")
        }
        _ => panic!("expected ScannerUnavailable"),
    }
}
