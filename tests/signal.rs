use telemetry::signal::{detect_beats, Beat, HeartRateMonitor};

fn sine(bpm: f64, amplitude: f64, samples: usize, step_ms: u64) -> Vec<(u32, u64)> {
    (0..samples)
        .map(|i| {
            let t = i as u64 * step_ms;
            let phase = 2.0 * std::f64::consts::PI * bpm / 60000.0 * t as f64;
            let x = 50000.0 + amplitude * phase.sin();
            (x.round() as u32, t)
        })
        .collect()
}

#[test]
fn detection_is_deterministic() {
    let samples = sine(72.0, 100.0, 1500, 10);
    let first = detect_beats(&samples);
    let second = detect_beats(&samples);
    assert!(!first.is_empty());
    assert_eq!(first, second);
    let mut m = HeartRateMonitor::new();
    let mut third: Vec<Beat> = Vec::new();
    for &(x, t) in &samples {
        if let Some(b) = m.update(x, t) {
            third.push(b);
        }
    }
    assert_eq!(first, third);
}

fn assert_rate_near(bpm: f64, expected: u32) {
    let beats = detect_beats(&sine(bpm, 100.0, 1500, 10));
    assert!(beats.len() >= 3, "too few beats at {} bpm: {}", bpm, beats.len());
    // Samples 10 ms apart quantise each interval, so a single rate may be off
    // by a few percent; the rolling average is closer.
    let tolerance = expected as i64 / 20 + 1;
    for b in &beats {
        assert!((b.bpm as i64 - expected as i64).abs() <= tolerance, "beat {:?}", b);
    }
    let last = beats.last().unwrap();
    assert!((last.average_bpm as i64 - expected as i64).abs() <= 2, "average {:?}", last);
}

#[test]
fn sinusoid_in_band_gives_its_rate() {
    assert_rate_near(60.0, 60);
    assert_rate_near(72.0, 72);
    assert_rate_near(120.0, 120);
    assert_rate_near(180.0, 180);
}

#[test]
fn sinusoid_below_band_gives_no_beat() {
    assert!(detect_beats(&sine(10.0, 100.0, 1500, 10)).is_empty());
    assert!(detect_beats(&sine(15.0, 100.0, 1500, 10)).is_empty());
}

#[test]
fn sinusoid_above_band_gives_no_beat() {
    assert!(detect_beats(&sine(300.0, 100.0, 1500, 10)).is_empty());
    assert!(detect_beats(&sine(400.0, 100.0, 1500, 10)).is_empty());
}

#[test]
fn flat_signal_gives_no_beat() {
    let samples: Vec<(u32, u64)> = (0..500).map(|i| (40000u32, i as u64 * 10)).collect();
    assert!(detect_beats(&samples).is_empty());
    let mut m = HeartRateMonitor::new();
    assert_eq!(m.get_bpm(), 0);
    for &(x, t) in &samples {
        assert_eq!(m.update(x, t), None);
    }
    assert_eq!(m.get_bpm(), 0);
}

#[test]
fn beat_rates_stay_within_band() {
    for bpm in [21.0, 30.0, 90.0, 240.0, 250.0, 260.0] {
        for b in detect_beats(&sine(bpm, 100.0, 1500, 10)) {
            assert!(b.bpm >= 20 && b.bpm <= 255, "{:?}", b);
            assert!(b.average_bpm >= 20 && b.average_bpm <= 255, "{:?}", b);
        }
    }
}

#[test]
fn average_tracks_window_of_four() {
    let beats = detect_beats(&sine(60.0, 100.0, 1500, 10));
    let mut m = HeartRateMonitor::new();
    for &(x, t) in &sine(60.0, 100.0, 1500, 10) {
        m.update(x, t);
    }
    let last = beats.last().unwrap();
    assert_eq!(m.get_bpm(), last.average_bpm);
    let n = beats.len();
    let window: u32 = beats[n - 4..].iter().map(|b| b.bpm).sum();
    assert_eq!(last.average_bpm, window / 4);
}

#[test]
fn detect_beats_on_empty_input() {
    assert!(detect_beats(&Vec::new()).is_empty());
}
