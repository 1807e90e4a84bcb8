use resmax::error::ConfigError;
use resmax::rates::correlate_rates;
use resmax::rates::compute_mode_rate;
use resmax::rates::mode_info_get;
use resmax::rates::select_best_rate;
use resmax::rates::ModeDescriptor;
use resmax::rates::RefreshRate;
use resmax::sizes::ScreenSize;

fn mode(id: u64, width: u32, height: u32, rate: u64) -> ModeDescriptor {
    // One megahertz of divisor, so the computed rate equals `rate`.
    ModeDescriptor {
        id,
        width,
        height,
        dot_clock: rate * 1_000_000,
        h_total: 1000,
        v_total: 1000,
    }
}

#[test]
fn pairs_rates_positionally() {
    let target = ScreenSize { width: 1920, height: 1080, size_index: 0 };
    let raw_rates: Vec<i16> = vec![60, 75, 144];
    let modes = vec![
        mode(10, 1920, 1080, 59),
        mode(11, 1920, 1080, 75),
        mode(12, 1920, 1080, 144),
    ];
    let rates = correlate_rates(&raw_rates, &modes, &target).unwrap();
    assert_eq!(
        rates,
        vec![
            RefreshRate { freq: 59, freq_index: 60 },
            RefreshRate { freq: 75, freq_index: 75 },
            RefreshRate { freq: 144, freq_index: 144 },
        ]
    );
    assert_eq!(select_best_rate(&rates), RefreshRate { freq: 144, freq_index: 144 });
}

#[test]
fn more_matches_than_rates_is_invalid_data() {
    let target = ScreenSize { width: 1920, height: 1080, size_index: 0 };
    let raw_rates: Vec<i16> = vec![60, 75, 144];
    let modes = vec![
        mode(10, 1920, 1080, 59),
        mode(11, 1920, 1080, 75),
        mode(12, 1920, 1080, 144),
        mode(13, 1920, 1080, 165),
    ];
    assert_eq!(
        correlate_rates(&raw_rates, &modes, &target),
        Err(ConfigError::InvalidData)
    );
}

#[test]
fn empty_rate_list_is_not_found() {
    let target = ScreenSize { width: 1920, height: 1080, size_index: 0 };
    let raw_rates: Vec<i16> = Vec::new();
    let modes = vec![mode(10, 1920, 1080, 60)];
    assert_eq!(
        correlate_rates(&raw_rates, &modes, &target),
        Err(ConfigError::NotFound)
    );
}

#[test]
fn skips_descriptors_of_other_sizes() {
    let target = ScreenSize { width: 1920, height: 1080, size_index: 0 };
    let raw_rates: Vec<i16> = vec![50, 60];
    let modes = vec![
        mode(10, 1920, 1080, 60),
        mode(11, 640, 480, 72),
        mode(12, 1920, 1080, 50),
        mode(13, 1280, 720, 90),
    ];
    let rates = correlate_rates(&raw_rates, &modes, &target).unwrap();
    assert_eq!(
        rates,
        vec![
            RefreshRate { freq: 60, freq_index: 50 },
            RefreshRate { freq: 50, freq_index: 60 },
        ]
    );
}

#[test]
fn surplus_raw_rates_are_left_unconsumed() {
    let target = ScreenSize { width: 1024, height: 768, size_index: 3 };
    let raw_rates: Vec<i16> = vec![60, 70, 75];
    let modes = vec![mode(20, 1024, 768, 60)];
    let rates = correlate_rates(&raw_rates, &modes, &target).unwrap();
    assert_eq!(rates, vec![RefreshRate { freq: 60, freq_index: 60 }]);
}

#[test]
fn no_matching_descriptor_gives_empty_catalog() {
    let target = ScreenSize { width: 2560, height: 1440, size_index: 1 };
    let raw_rates: Vec<i16> = vec![60];
    let modes = vec![mode(10, 1920, 1080, 60)];
    let rates = correlate_rates(&raw_rates, &modes, &target).unwrap();
    assert!(rates.is_empty());
}

#[test]
fn computes_rate_from_timing_fields() {
    // 1080p timing: 148.5 MHz pixel clock over 2200 x 1125 totals is 60 Hz.
    let m = ModeDescriptor {
        id: 1,
        width: 1920,
        height: 1080,
        dot_clock: 148_500_000,
        h_total: 2200,
        v_total: 1125,
    };
    assert_eq!(compute_mode_rate(&m), 60);
}

#[test]
fn rate_quotient_truncates_to_32_bits() {
    let m = ModeDescriptor {
        id: 2,
        width: 1920,
        height: 1080,
        dot_clock: 0x1_0000_0005,
        h_total: 1,
        v_total: 1,
    };
    assert_eq!(compute_mode_rate(&m), 5);
}

#[test]
fn descriptor_index_in_bounds_is_returned() {
    let modes = vec![mode(10, 1920, 1080, 60), mode(11, 640, 480, 72)];
    assert_eq!(mode_info_get(&modes, 1), Ok(mode(11, 640, 480, 72)));
}

#[test]
fn descriptor_index_out_of_bounds_is_invalid_input() {
    let modes = vec![mode(10, 1920, 1080, 60)];
    assert_eq!(mode_info_get(&modes, 1), Err(ConfigError::InvalidInput));
}

#[test]
fn correlation_is_deterministic() {
    let target = ScreenSize { width: 1920, height: 1080, size_index: 0 };
    let raw_rates: Vec<i16> = vec![60, 75];
    let modes = vec![mode(10, 1920, 1080, 60), mode(11, 1920, 1080, 75)];
    let first = correlate_rates(&raw_rates, &modes, &target).unwrap();
    let second = correlate_rates(&raw_rates, &modes, &target).unwrap();
    assert_eq!(first, second);
}
