use vstd::prelude::*;

verus! {

/// Bus address of the optical sensor.
pub const I2C_ADDRESS: u8 = 0x57;

pub const MODECONFIG: u8 = 0x09;
pub const FIFOCONFIG: u8 = 0x08;
pub const PARTICLECONFIG: u8 = 0x0A;
pub const LED1_PULSEAMP: u8 = 0x0C;
pub const LED2_PULSEAMP: u8 = 0x0D;
pub const LED3_PULSEAMP: u8 = 0x0E;
pub const LED_PROX_AMP: u8 = 0x10;
pub const MULTILEDCONFIG1: u8 = 0x11;
pub const MULTILEDCONFIG2: u8 = 0x12;
pub const FIFOWRITEPTR: u8 = 0x04;
pub const FIFOOVERFLOW: u8 = 0x05;
pub const FIFOREADPTR: u8 = 0x06;
pub const FIFODATA: u8 = 0x07;

pub const RESET_MASK: u8 = 0xBF;
pub const RESET: u8 = 0x40;
pub const SAMPLEAVG_MASK: u8 = 0xE0;
pub const ROLLOVER_MASK: u8 = 0xEF;
pub const ROLLOVER_ENABLE: u8 = 0x10;
pub const MODE_MASK: u8 = 0xF8;
pub const ADCRANGE_MASK: u8 = 0x9F;
pub const SAMPLERATE_MASK: u8 = 0xE3;
pub const PULSEWIDTH_MASK: u8 = 0xFC;
pub const SLOT1_MASK: u8 = 0xF8;
pub const SLOT2_MASK: u8 = 0x8F;
pub const SLOT3_MASK: u8 = 0xF8;

pub const SLOT_RED_LED: u8 = 0x01;
pub const SLOT_IR_LED: u8 = 0x02;
pub const SLOT_GREEN_LED: u8 = 0x03;

/// Number of samples kept per LED.
pub const STORAGE_SIZE: usize = 4;

/// Sensor configuration, in the units of the datasheet.
#[derive(Clone, Copy, Debug, PartialEq, Eq, Structural)]
pub struct Config {
    pub power_level: u8,
    pub sample_average: u8,
    pub led_mode: u8,
    pub sample_rate: u32,
    pub pulse_width: u32,
    pub adc_range: u32,
}

impl Default for Config {
    fn default() -> (r: Config)
        ensures
            r == (Config {
                power_level: 0xFF,
                sample_average: 4,
                led_mode: 3,
                sample_rate: 400,
                pulse_width: 411,
                adc_range: 4096,
            }),
    {
        Config {
            power_level: 0xFF,
            sample_average: 4,
            led_mode: 3,
            sample_rate: 400,
            pulse_width: 411,
            adc_range: 4096,
        }
    }
}

/// A read-modify-write of one register: keep the bits of `mask`, then set `bits`.
#[derive(Clone, Copy, Debug, PartialEq, Eq, Structural)]
pub struct MaskedWrite {
    pub reg: u8,
    pub mask: u8,
    pub bits: u8,
}

/// The new contents of a register under a masked write.
pub fn masked(current: u8, mask: u8, bits: u8) -> (r: u8)
    ensures
        r == (current & mask) | bits,
{
    (current & mask) | bits
}

pub open spec fn sample_average_bits(n: u8) -> u8 {
    if n == 1 {
        0x00
    } else if n == 2 {
        0x20
    } else if n == 4 {
        0x40
    } else if n == 8 {
        0x60
    } else if n == 16 {
        0x80
    } else if n == 32 {
        0xA0
    } else {
        0x40
    }
}

pub open spec fn led_mode_bits(mode: u8) -> u8 {
    if mode == 3 {
        0x07
    } else if mode == 2 {
        0x03
    } else {
        0x02
    }
}

pub open spec fn adc_range_bits(range: u32) -> u8 {
    if range <= 4095 {
        0x00
    } else if range <= 8191 {
        0x20
    } else if range <= 16383 {
        0x40
    } else if range == 16384 {
        0x60
    } else {
        0x00
    }
}

pub open spec fn sample_rate_bits(rate: u32) -> u8 {
    if rate <= 99 {
        0x00
    } else if rate <= 199 {
        0x04
    } else if rate <= 399 {
        0x08
    } else if rate <= 799 {
        0x0C
    } else if rate <= 999 {
        0x10
    } else if rate <= 1599 {
        0x14
    } else if rate <= 3199 {
        0x18
    } else if rate == 3200 {
        0x1C
    } else {
        0x00
    }
}

pub open spec fn pulse_width_bits(width: u32) -> u8 {
    if width <= 117 {
        0x00
    } else if width <= 214 {
        0x01
    } else if width <= 410 {
        0x02
    } else if width == 411 {
        0x03
    } else {
        0x00
    }
}

/// A plain write of `value`, as a masked write that keeps nothing.
pub open spec fn plain(reg: u8, value: u8) -> MaskedWrite {
    MaskedWrite { reg, mask: 0, bits: value }
}

/// The register writes that configure the sensor after its soft reset.
pub open spec fn setup_writes(c: Config) -> Seq<MaskedWrite> {
    let base = seq![
        MaskedWrite { reg: FIFOCONFIG, mask: SAMPLEAVG_MASK, bits: sample_average_bits(c.sample_average) },
        MaskedWrite { reg: FIFOCONFIG, mask: ROLLOVER_MASK, bits: ROLLOVER_ENABLE },
        MaskedWrite { reg: MODECONFIG, mask: MODE_MASK, bits: led_mode_bits(c.led_mode) },
        MaskedWrite { reg: PARTICLECONFIG, mask: ADCRANGE_MASK, bits: adc_range_bits(c.adc_range) },
        MaskedWrite { reg: PARTICLECONFIG, mask: SAMPLERATE_MASK, bits: sample_rate_bits(c.sample_rate) },
        MaskedWrite { reg: PARTICLECONFIG, mask: PULSEWIDTH_MASK, bits: pulse_width_bits(c.pulse_width) },
        plain(LED1_PULSEAMP, c.power_level),
        plain(LED2_PULSEAMP, c.power_level),
        plain(LED3_PULSEAMP, c.power_level),
        plain(LED_PROX_AMP, c.power_level),
        MaskedWrite { reg: MULTILEDCONFIG1, mask: SLOT1_MASK, bits: SLOT_RED_LED },
    ];
    let with_ir = if c.led_mode > 1 {
        base.push(MaskedWrite { reg: MULTILEDCONFIG1, mask: SLOT2_MASK, bits: 0x20 })
    } else {
        base
    };
    let with_green = if c.led_mode > 2 {
        with_ir.push(MaskedWrite { reg: MULTILEDCONFIG2, mask: SLOT3_MASK, bits: SLOT_GREEN_LED })
    } else {
        with_ir
    };
    with_green + seq![plain(FIFOWRITEPTR, 0), plain(FIFOOVERFLOW, 0), plain(FIFOREADPTR, 0)]
}

fn sample_average_code(n: u8) -> (r: u8)
    ensures
        r == sample_average_bits(n),
{
    if n == 1 {
        0x00
    } else if n == 2 {
        0x20
    } else if n == 4 {
        0x40
    } else if n == 8 {
        0x60
    } else if n == 16 {
        0x80
    } else if n == 32 {
        0xA0
    } else {
        0x40
    }
}

fn led_mode_code(mode: u8) -> (r: u8)
    ensures
        r == led_mode_bits(mode),
{
    if mode == 3 {
        0x07
    } else if mode == 2 {
        0x03
    } else {
        0x02
    }
}

fn adc_range_code(range: u32) -> (r: u8)
    ensures
        r == adc_range_bits(range),
{
    if range <= 4095 {
        0x00
    } else if range <= 8191 {
        0x20
    } else if range <= 16383 {
        0x40
    } else if range == 16384 {
        0x60
    } else {
        0x00
    }
}

fn sample_rate_code(rate: u32) -> (r: u8)
    ensures
        r == sample_rate_bits(rate),
{
    if rate <= 99 {
        0x00
    } else if rate <= 199 {
        0x04
    } else if rate <= 399 {
        0x08
    } else if rate <= 799 {
        0x0C
    } else if rate <= 999 {
        0x10
    } else if rate <= 1599 {
        0x14
    } else if rate <= 3199 {
        0x18
    } else if rate == 3200 {
        0x1C
    } else {
        0x00
    }
}

fn pulse_width_code(width: u32) -> (r: u8)
    ensures
        r == pulse_width_bits(width),
{
    if width <= 117 {
        0x00
    } else if width <= 214 {
        0x01
    } else if width <= 410 {
        0x02
    } else if width == 411 {
        0x03
    } else {
        0x00
    }
}

/// The soft reset that precedes configuration.
pub fn reset_write() -> (r: MaskedWrite)
    ensures
        r == (MaskedWrite { reg: MODECONFIG, mask: RESET_MASK, bits: RESET }),
{
    MaskedWrite { reg: MODECONFIG, mask: RESET_MASK, bits: RESET }
}

/// The register writes that configure the sensor for `config`, in order.
pub fn setup(config: &Config) -> (r: Vec<MaskedWrite>)
    ensures
        r@ == setup_writes(*config),
{
    let mut r: Vec<MaskedWrite> = Vec::new();
    r.push(MaskedWrite { reg: FIFOCONFIG, mask: SAMPLEAVG_MASK, bits: sample_average_code(config.sample_average) });
    r.push(MaskedWrite { reg: FIFOCONFIG, mask: ROLLOVER_MASK, bits: ROLLOVER_ENABLE });
    r.push(MaskedWrite { reg: MODECONFIG, mask: MODE_MASK, bits: led_mode_code(config.led_mode) });
    r.push(MaskedWrite { reg: PARTICLECONFIG, mask: ADCRANGE_MASK, bits: adc_range_code(config.adc_range) });
    r.push(MaskedWrite { reg: PARTICLECONFIG, mask: SAMPLERATE_MASK, bits: sample_rate_code(config.sample_rate) });
    r.push(MaskedWrite { reg: PARTICLECONFIG, mask: PULSEWIDTH_MASK, bits: pulse_width_code(config.pulse_width) });
    r.push(MaskedWrite { reg: LED1_PULSEAMP, mask: 0, bits: config.power_level });
    r.push(MaskedWrite { reg: LED2_PULSEAMP, mask: 0, bits: config.power_level });
    r.push(MaskedWrite { reg: LED3_PULSEAMP, mask: 0, bits: config.power_level });
    r.push(MaskedWrite { reg: LED_PROX_AMP, mask: 0, bits: config.power_level });
    r.push(MaskedWrite { reg: MULTILEDCONFIG1, mask: SLOT1_MASK, bits: SLOT_RED_LED });
    if config.led_mode > 1 {
        r.push(MaskedWrite { reg: MULTILEDCONFIG1, mask: SLOT2_MASK, bits: 0x20 });
    }
    if config.led_mode > 2 {
        r.push(MaskedWrite { reg: MULTILEDCONFIG2, mask: SLOT3_MASK, bits: SLOT_GREEN_LED });
    }
    r.push(MaskedWrite { reg: FIFOWRITEPTR, mask: 0, bits: 0 });
    r.push(MaskedWrite { reg: FIFOOVERFLOW, mask: 0, bits: 0 });
    r.push(MaskedWrite { reg: FIFOREADPTR, mask: 0, bits: 0 });
    assert(r@ =~= setup_writes(*config));
    r
}

/// Samples waiting in the 32-entry FIFO between the read and write pointers.
pub fn fifo_sample_count(read_pointer: u8, write_pointer: u8) -> (r: u8)
    ensures
        r == ((write_pointer % 32) - (read_pointer % 32) + 32) % 32,
{
    let w = write_pointer % 32;
    let rd = read_pointer % 32;
    if w >= rd {
        w - rd
    } else {
        w + 32 - rd
    }
}

/// One 18-bit sample from its three big-endian FIFO bytes.
pub fn sample_from_bytes(b0: u8, b1: u8, b2: u8) -> (r: u32)
    ensures
        r == (b0 % 4) * 65536 + b1 * 256 + b2,
{
    (b0 % 4) as u32 * 65536 + b1 as u32 * 256 + b2 as u32
}

/// The most recent samples of each LED, in a ring of `STORAGE_SIZE` slots.
pub struct Sense {
    head: usize,
    red: Vec<u32>,
    ir: Vec<u32>,
    green: Vec<u32>,
}

impl Sense {
    pub closed spec fn wf(&self) -> bool {
        &&& self.head < STORAGE_SIZE
        &&& self.red@.len() == STORAGE_SIZE
        &&& self.ir@.len() == STORAGE_SIZE
        &&& self.green@.len() == STORAGE_SIZE
    }

    /// The latest red, infrared and green samples.
    pub closed spec fn latest(&self) -> (u32, u32, u32) {
        (self.red@[self.head as int], self.ir@[self.head as int], self.green@[self.head as int])
    }

    pub fn new() -> (r: Sense)
        ensures
            r.wf(),
            r.latest() == (0u32, 0u32, 0u32),
    {
        Sense {
            head: 0,
            red: vec![0u32; STORAGE_SIZE],
            ir: vec![0u32; STORAGE_SIZE],
            green: vec![0u32; STORAGE_SIZE],
        }
    }

    /// Stores one sample of each LED in the next slot.
    pub fn store(&mut self, red: u32, ir: u32, green: u32)
        requires
            old(self).wf(),
        ensures
            final(self).wf(),
            final(self).latest() == (red, ir, green),
    {
        self.head = (self.head + 1) % STORAGE_SIZE;
        self.red.set(self.head, red);
        self.ir.set(self.head, ir);
        self.green.set(self.head, green);
    }

    pub fn get_red(&self) -> (r: u32)
        requires
            self.wf(),
        ensures
            r == self.latest().0,
    {
        self.red[self.head]
    }

    pub fn get_ir(&self) -> (r: u32)
        requires
            self.wf(),
        ensures
            r == self.latest().1,
    {
        self.ir[self.head]
    }
}

} // verus!
