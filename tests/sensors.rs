use telemetry::acquisition::{optical_reading, Button, StepCounter};
use telemetry::max3010x::{
    fifo_sample_count, masked, reset_write, sample_from_bytes, setup, Config, MaskedWrite, Sense,
};
use telemetry::signal::HeartRateMonitor;

#[test]
fn default_config() {
    let c = Config::default();
    assert_eq!(c.power_level, 0xFF);
    assert_eq!(c.sample_average, 4);
    assert_eq!(c.led_mode, 3);
    assert_eq!(c.sample_rate, 400);
    assert_eq!(c.pulse_width, 411);
    assert_eq!(c.adc_range, 4096);
}

#[test]
fn setup_for_default_config() {
    let w = setup(&Config::default());
    let expected = vec![
        MaskedWrite { reg: 0x08, mask: 0xE0, bits: 0x40 },
        MaskedWrite { reg: 0x08, mask: 0xEF, bits: 0x10 },
        MaskedWrite { reg: 0x09, mask: 0xF8, bits: 0x07 },
        MaskedWrite { reg: 0x0A, mask: 0x9F, bits: 0x20 },
        MaskedWrite { reg: 0x0A, mask: 0xE3, bits: 0x0C },
        MaskedWrite { reg: 0x0A, mask: 0xFC, bits: 0x03 },
        MaskedWrite { reg: 0x0C, mask: 0, bits: 0xFF },
        MaskedWrite { reg: 0x0D, mask: 0, bits: 0xFF },
        MaskedWrite { reg: 0x0E, mask: 0, bits: 0xFF },
        MaskedWrite { reg: 0x10, mask: 0, bits: 0xFF },
        MaskedWrite { reg: 0x11, mask: 0xF8, bits: 0x01 },
        MaskedWrite { reg: 0x11, mask: 0x8F, bits: 0x20 },
        MaskedWrite { reg: 0x12, mask: 0xF8, bits: 0x03 },
        MaskedWrite { reg: 0x04, mask: 0, bits: 0 },
        MaskedWrite { reg: 0x05, mask: 0, bits: 0 },
        MaskedWrite { reg: 0x06, mask: 0, bits: 0 },
    ];
    assert_eq!(w, expected);
}

#[test]
fn setup_for_red_only() {
    let c = Config {
        power_level: 0x1F,
        sample_average: 32,
        led_mode: 1,
        sample_rate: 3200,
        pulse_width: 100,
        adc_range: 16384,
    };
    let w = setup(&c);
    assert_eq!(w.len(), 14);
    assert_eq!(w[0].bits, 0xA0);
    assert_eq!(w[2].bits, 0x02);
    assert_eq!(w[3].bits, 0x60);
    assert_eq!(w[4].bits, 0x1C);
    assert_eq!(w[5].bits, 0x00);
    assert_eq!(w[6], MaskedWrite { reg: 0x0C, mask: 0, bits: 0x1F });
    assert_eq!(w[10], MaskedWrite { reg: 0x11, mask: 0xF8, bits: 0x01 });
    assert_eq!(w[11], MaskedWrite { reg: 0x04, mask: 0, bits: 0 });
}

#[test]
fn masked_writes() {
    assert_eq!(masked(0xFF, 0xBF, 0x40), 0xFF);
    assert_eq!(masked(0x0F, 0xF8, 0x02), 0x0A);
    assert_eq!(masked(0xAB, 0, 0x11), 0x11);
    assert_eq!(reset_write(), MaskedWrite { reg: 0x09, mask: 0xBF, bits: 0x40 });
}

#[test]
fn fifo_counts() {
    assert_eq!(fifo_sample_count(3, 3), 0);
    assert_eq!(fifo_sample_count(3, 10), 7);
    assert_eq!(fifo_sample_count(30, 2), 4);
    assert_eq!(fifo_sample_count(0, 31), 31);
}

#[test]
fn samples_from_bytes() {
    assert_eq!(sample_from_bytes(0x00, 0x00, 0x01), 1);
    assert_eq!(sample_from_bytes(0x03, 0xFF, 0xFF), 0x3FFFF);
    assert_eq!(sample_from_bytes(0xFD, 0x12, 0x34), 0x11234);
}

#[test]
fn sense_ring() {
    let mut s = Sense::new();
    assert_eq!(s.get_red(), 0);
    assert_eq!(s.get_ir(), 0);
    for i in 1..10u32 {
        s.store(i, 100 + i, 200 + i);
        assert_eq!(s.get_red(), i);
        assert_eq!(s.get_ir(), 100 + i);
    }
}

#[test]
fn button_press_on_release() {
    let mut b = Button::new();
    assert!(!b.sample(false));
    assert!(!b.sample(true));
    assert!(!b.sample(true));
    assert!(b.sample(false));
    assert!(!b.sample(false));
}

#[test]
fn step_counter_counts_readings() {
    let mut c = StepCounter::new();
    assert_eq!(c.record().steps, 1);
    assert_eq!(c.record().steps, 2);
    let mut w = StepCounter { steps: u32::MAX };
    assert_eq!(w.record().steps, 0);
}

#[test]
fn optical_reading_reports_average() {
    let mut m = HeartRateMonitor::new();
    let mut last = 0;
    for i in 0..1500u64 {
        let t = i * 10;
        let x = 50000.0 + 100.0 * (2.0 * std::f64::consts::PI * t as f64 / 1000.0).sin();
        last = optical_reading(&mut m, 0, x.round() as u32, t).heart_rate;
    }
    assert!((last as i64 - 60).abs() <= 2);
    assert_eq!(last, m.get_bpm());
}
