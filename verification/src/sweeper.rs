//! The hackrf_sweep frequency plan and the arguments each sweep runs with.
use vstd::prelude::*;
use crate::error::Error;
use crate::text::dec;
use crate::text::push_dec;
use crate::text::string_from_chars;

verus! {

/// A single frequency range for hackrf_sweep (MHz).
#[derive(Debug, Clone, Copy, PartialEq, Eq, Structural)]
pub struct FreqRange {
    pub start_mhz: u32,
    pub end_mhz: u32,
    /// Bin width in Hz (hackrf_sweep -B).
    pub bin_hz: u32,
}

impl FreqRange {
    /// A range with the default bin width of 1 MHz.
    pub fn new(start_mhz: u32, end_mhz: u32) -> (r: Self)
        ensures
            r == (FreqRange { start_mhz, end_mhz, bin_hz: 1_000_000 }),
    {
        FreqRange { start_mhz, end_mhz, bin_hz: 1_000_000 }
    }
}

/// Sweeper configuration.
#[derive(Debug, Clone)]
pub struct SweepConfig {
    /// Frequency ranges, swept one after another.
    pub freq_ranges: Vec<FreqRange>,
    /// LNA gain (0–40 dB in 8 dB steps).
    pub lna_gain: u8,
    /// VGA gain (0–62 dB in 2 dB steps).
    pub vga_gain: u8,
    /// Number of sweeps per frequency range (0 = infinite).
    pub num_sweeps: u32,
    /// Path override for the hackrf_sweep binary (None = auto-detect).
    pub binary_path: Option<String>,
}

/// The default plan: 2.4 GHz Wi-Fi/Bluetooth, 5 GHz Wi-Fi, the 900 MHz and
/// 433 MHz ISM bands.
pub open spec fn default_ranges() -> Seq<FreqRange> {
    seq![
        FreqRange { start_mhz: 2400, end_mhz: 2500, bin_hz: 1_000_000 },
        FreqRange { start_mhz: 5150, end_mhz: 5850, bin_hz: 1_000_000 },
        FreqRange { start_mhz: 902, end_mhz: 928, bin_hz: 1_000_000 },
        FreqRange { start_mhz: 433, end_mhz: 435, bin_hz: 1_000_000 },
    ]
}

impl Default for SweepConfig {
    fn default() -> (c: Self)
        ensures
            c.freq_ranges@ == default_ranges(),
            c.lna_gain == 16,
            c.vga_gain == 20,
            c.num_sweeps == 0,
            c.binary_path is None,
    {
        let mut freq_ranges: Vec<FreqRange> = Vec::new();
        freq_ranges.push(FreqRange::new(2400, 2500));
        freq_ranges.push(FreqRange::new(5150, 5850));
        freq_ranges.push(FreqRange::new(902, 928));
        freq_ranges.push(FreqRange::new(433, 435));
        assert(freq_ranges@ =~= default_ranges());
        SweepConfig { freq_ranges, lna_gain: 16, vga_gain: 20, num_sweeps: 0, binary_path: None }
    }
}

/// The arguments of one hackrf_sweep run over `range`.
pub open spec fn sweep_arg_list(config: SweepConfig, range: FreqRange) -> Seq<Seq<char>> {
    let base = seq![
        seq!['-', 'f'],
        dec(range.start_mhz as nat) + seq![':'] + dec(range.end_mhz as nat),
        seq!['-', 'B'],
        dec(range.bin_hz as nat),
        seq!['-', 'l'],
        dec(config.lna_gain as nat),
        seq!['-', 'g'],
        dec(config.vga_gain as nat),
    ];
    if config.num_sweeps > 0 {
        base + seq![seq!['-', 'n'], dec(config.num_sweeps as nat)]
    } else {
        base
    }
}

pub open spec fn string_views(v: Seq<String>) -> Seq<Seq<char>> {
    v.map_values(|s: String| s@)
}

fn dec_text(n: u64) -> (s: String)
    ensures
        s@ == dec(n as nat),
{
    let mut v: Vec<char> = Vec::new();
    push_dec(&mut v, n);
    assert(v@ =~= dec(n as nat));
    string_from_chars(&v)
}

fn flag(c: char) -> (s: String)
    ensures
        s@ == seq!['-', c],
{
    let mut v: Vec<char> = Vec::new();
    v.push('-');
    v.push(c);
    string_from_chars(&v)
}

impl SweepConfig {
    /// The arguments hackrf_sweep runs with for one frequency range:
    /// `-f start:end -B bin -l lna -g vga`, and `-n sweeps` when bounded.
    pub fn sweep_args(&self, range: &FreqRange) -> (args: Vec<String>)
        ensures
            string_views(args@) == sweep_arg_list(*self, *range),
    {
        let mut args: Vec<String> = Vec::new();
        args.push(flag('f'));
        let mut fr: Vec<char> = Vec::new();
        push_dec(&mut fr, range.start_mhz as u64);
        fr.push(':');
        push_dec(&mut fr, range.end_mhz as u64);
        assert(fr@ =~= dec(range.start_mhz as nat) + seq![':'] + dec(range.end_mhz as nat));
        args.push(string_from_chars(&fr));
        args.push(flag('B'));
        args.push(dec_text(range.bin_hz as u64));
        args.push(flag('l'));
        args.push(dec_text(self.lna_gain as u64));
        args.push(flag('g'));
        args.push(dec_text(self.vga_gain as u64));
        if self.num_sweeps > 0 {
            args.push(flag('n'));
            args.push(dec_text(self.num_sweeps as u64));
        }
        assert(string_views(args@) =~= sweep_arg_list(*self, *range));
        args
    }

    /// The hackrf_sweep binary to run: the configured override, else the
    /// one detected on this machine.
    pub fn binary_path(&self, detected: Option<String>) -> (r: Result<String, Error>)
        ensures
            self.binary_path matches Some(p) ==> (r matches Ok(q) && q@ == p@),
            self.binary_path is None ==> match detected {
                Some(d) => r matches Ok(q) && q@ == d@,
                None => r matches Err(Error::ScannerUnavailable(m)) && m@
                    == "hackrf_sweep not found — install HackRF tools (brew install hackrf)"@,
            },
    {
        match &self.binary_path {
            Some(p) => Ok(p.clone()),
            None => match detected {
                Some(d) => Ok(d),
                None => Err(
                    Error::ScannerUnavailable(
                        "hackrf_sweep not found — install HackRF tools (brew install hackrf)".to_owned(),
                    ),
                ),
            },
        }
    }
}

} // verus!
