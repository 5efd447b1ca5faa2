use vstd::prelude::*;

verus! {

/// Length of the circular buffer of AC samples.
pub const RING_LEN: usize = 32;

/// Fixed-point scale (2^15) of the DC estimate and of the filter coefficients.
pub const Q15: i64 = 32768;

/// Largest DC register value: the scaled largest sample.
pub open spec fn dc_limit() -> int {
    0xffff_ffffint * 32768
}

/// Coefficients of the symmetric 23-tap low-pass filter: tap `i` and tap
/// `22 - i` share `fir_coeff(i)`, and tap 11 is the centre.
pub open spec fn fir_coeff(i: int) -> int {
    if i == 0 {
        172
    } else if i == 1 {
        321
    } else if i == 2 {
        579
    } else if i == 3 {
        927
    } else if i == 4 {
        1360
    } else if i == 5 {
        1858
    } else if i == 6 {
        2390
    } else if i == 7 {
        2916
    } else if i == 8 {
        3391
    } else if i == 9 {
        3768
    } else if i == 10 {
        4012
    } else {
        4096
    }
}

fn coeff(i: usize) -> (r: i64)
    requires
        i < 12,
    ensures
        r == fir_coeff(i as int),
        0 < r <= 4096,
{
    if i == 0 {
        172
    } else if i == 1 {
        321
    } else if i == 2 {
        579
    } else if i == 3 {
        927
    } else if i == 4 {
        1360
    } else if i == 5 {
        1858
    } else if i == 6 {
        2390
    } else if i == 7 {
        2916
    } else if i == 8 {
        3391
    } else if i == 9 {
        3768
    } else if i == 10 {
        4012
    } else {
        4096
    }
}

/// The sample `k` places before position `offset` of the circular buffer.
pub open spec fn tap(ring: Seq<i64>, offset: int, k: int) -> int {
    ring[(offset - k) % 32] as int
}

/// The first `n` mirrored pairs of the filter sum.
pub open spec fn fir_pairs(ring: Seq<i64>, offset: int, n: nat) -> int
    decreases n,
{
    if n == 0 {
        0
    } else {
        let i = n - 1;
        fir_pairs(ring, offset, i as nat) + fir_coeff(i) * (tap(ring, offset, i) + tap(
            ring,
            offset,
            22 - i,
        ))
    }
}

/// Filter output for the buffer whose newest sample stands at `offset`,
/// scaled back by 2^15 (rounding down).
pub open spec fn fir_output(ring: Seq<i64>, offset: int) -> int {
    (fir_coeff(11) * tap(ring, offset, 11) + fir_pairs(ring, offset, 11)) / 32768
}

/// Single-pole IIR step of the DC estimate (scaled by 2^15): it moves a
/// sixteenth of the way towards the new sample.
pub open spec fn dc_next(dc: int, x: int) -> int {
    let target = x * 32768;
    if target >= dc {
        dc + (target - dc) / 16
    } else {
        dc - (dc - target) / 16
    }
}

pub open spec fn ring_bounded(ring: Seq<i64>) -> bool {
    forall|j: int| 0 <= j < ring.len() ==> -0x1_0000_0000 < #[trigger] ring[j] < 0x1_0000_0000
}

fn dc_step(dc: u64, x: u32) -> (r: u64)
    requires
        dc <= dc_limit(),
    ensures
        r == dc_next(dc as int, x as int),
        r <= dc_limit(),
{
    let target: u64 = x as u64 * 32768;
    if target >= dc {
        dc + (target - dc) / 16
    } else {
        dc - (dc - target) / 16
    }
}

/// Floor division by 2^15.
fn floor_q15(z: i64) -> (r: i64)
    ensures
        r == z as int / 32768,
{
    if z >= 0 {
        z / Q15
    } else {
        let m: i64 = -(z + 1);
        let q: i64 = m / Q15;
        proof {
            let zi = z as int;
            let mi = m as int;
            vstd::arithmetic::div_mod::lemma_fundamental_div_mod(mi, 32768);
            let r = mi % 32768;
            assert(zi == (-q - 1) * 32768 + (32767 - r));
            vstd::arithmetic::div_mod::lemma_fundamental_div_mod_converse(
                zi,
                32768,
                -q - 1,
                32767 - r,
            );
        }
        -q - 1
    }
}

fn fir_filter(ring: &Vec<i64>, offset: usize) -> (r: i64)
    requires
        ring@.len() == RING_LEN,
        offset < RING_LEN,
        ring_bounded(ring@),
    ensures
        r == fir_output(ring@, offset as int),
        -0x3_0000_0000 <= r <= 0x3_0000_0000,
{
    let bound: i64 = 0x1_0000_0000;
    let center = ring[(offset + 32 - 11) % 32];
    assert((offset + 32 - 11) % 32 == (offset - 11) % 32);
    let c11 = coeff(11);
    assert(-bound * 4096 <= c11 * center <= bound * 4096) by (nonlinear_arith)
        requires
            -bound < center < bound,
            0 < c11 <= 4096,
    ;
    let mut z: i64 = c11 * center;
    let mut i: usize = 0;
    while i < 11
        invariant
            ring@.len() == RING_LEN,
            offset < RING_LEN,
            ring_bounded(ring@),
            i <= 11,
            bound == 0x1_0000_0000,
            z == fir_coeff(11) * tap(ring@, offset as int, 11) + fir_pairs(ring@, offset as int, i as nat),
            -bound * (4096 + 8192 * i) <= z <= bound * (4096 + 8192 * i),
        decreases 11 - i,
    {
        let a = ring[(offset + 32 - i) % 32];
        let b = ring[(offset + 10 + i) % 32];
        assert((offset + 32 - i) % 32 == (offset - i) % 32);
        assert((offset + 10 + i) % 32 == (offset - (22 - i)) % 32);
        let c = coeff(i);
        let pair: i64 = a + b;
        assert(-bound * 8192 <= c * pair <= bound * 8192) by (nonlinear_arith)
            requires
                -2 * bound < pair < 2 * bound,
                0 < c <= 4096,
        ;
        z = z + c * pair;
        i = i + 1;
    }
    let r = floor_q15(z);
    proof {
        let b3: int = 0x3_0000_0000;
        assert(-b3 * 32768 <= z <= b3 * 32768);
        vstd::arithmetic::div_mod::lemma_div_is_ordered(z as int, b3 * 32768, 32768);
        vstd::arithmetic::div_mod::lemma_div_is_ordered(-b3 * 32768, z as int, 32768);
        vstd::arithmetic::div_mod::lemma_div_multiples_vanish(b3, 32768);
        vstd::arithmetic::div_mod::lemma_div_multiples_vanish(-b3, 32768);
    }
    r
}

/// Number of inter-beat rates kept for the rolling average.
pub const RATE_WINDOW: usize = 4;

/// A beat whose excursion and rate were both plausible.
#[derive(Clone, Copy, Debug, PartialEq, Eq, Structural)]
pub struct Beat {
    /// Time of the rising zero crossing, in milliseconds.
    pub time_ms: u64,
    /// Rate from the interval since the previous beat.
    pub bpm: u32,
    /// Mean of the rates in the rolling window, this one included.
    pub average_bpm: u32,
}

/// Abstract state of the beat detector.
pub struct DetectorState {
    /// Whether a sample has been seen; the first one seeds the DC estimate.
    pub primed: bool,
    /// DC estimate, scaled by 2^15.
    pub dc: int,
    /// The last 32 AC samples.
    pub ring: Seq<i64>,
    /// Position of the next sample in `ring`.
    pub offset: int,
    /// Latest filter output.
    pub current: int,
    /// Highest and lowest filter output since the last beat candidate.
    pub peak: int,
    pub trough: int,
    /// Time of the last plausible beat.
    pub last_beat: Option<u64>,
    /// Accepted rates, oldest first.
    pub rates: Seq<u32>,
}

pub open spec fn rates_sum(r: Seq<u32>) -> int
    decreases r.len(),
{
    if r.len() == 0 {
        0
    } else {
        rates_sum(r.drop_last()) + r.last()
    }
}

/// Mean of the window, rounded down; 0 for an empty window.
pub open spec fn rates_average(r: Seq<u32>) -> int {
    if r.len() == 0 {
        0
    } else {
        rates_sum(r) / (r.len() as int)
    }
}

pub open spec fn window_after(r: Seq<u32>, bpm: u32) -> Seq<u32> {
    if r.len() < RATE_WINDOW {
        r.push(bpm)
    } else {
        r.drop_first().push(bpm)
    }
}

pub open spec fn plausible_rate(bpm: int) -> bool {
    20 <= bpm <= 255
}

pub open spec fn plausible_excursion(e: int) -> bool {
    20 < e < 1000
}

/// Rate of an inter-beat interval in milliseconds (`None` for a zero or
/// negative interval).
pub open spec fn rate_of(last: Option<u64>, now: u64) -> Option<int> {
    match last {
        Some(l) => if now > l {
            Some(60000int / (now - l))
        } else {
            None
        },
        None => None,
    }
}

pub open spec fn initial_state() -> DetectorState {
    DetectorState {
        primed: false,
        dc: 0,
        ring: Seq::new(32, |i: int| 0i64),
        offset: 0,
        current: 0,
        peak: 0,
        trough: 0,
        last_beat: None,
        rates: Seq::empty(),
    }
}

/// One sample `x` taken at `t` milliseconds: the new state and the beat it
/// completes, if any.
pub open spec fn step(s: DetectorState, x: u32, t: u64) -> (DetectorState, Option<Beat>) {
    let dc = if s.primed {
        dc_next(s.dc, x as int)
    } else {
        x * 32768
    };
    let ac = x - dc / 32768;
    let ring = s.ring.update(s.offset, ac as i64);
    let filtered = fir_output(ring, s.offset);
    let peak = if filtered > s.peak { filtered } else { s.peak };
    let trough = if filtered < s.trough { filtered } else { s.trough };
    let candidate = s.current <= 0 && filtered > 0;
    let plausible = candidate && plausible_excursion(peak - trough);
    let rate = if plausible { rate_of(s.last_beat, t) } else { None };
    let accepted = rate is Some && plausible_rate(rate->0);
    let rates = if accepted { window_after(s.rates, rate->0 as u32) } else { s.rates };
    let next = DetectorState {
        primed: true,
        dc,
        ring,
        offset: (s.offset + 1) % 32,
        current: filtered,
        peak: if candidate { filtered } else { peak },
        trough: if candidate { filtered } else { trough },
        last_beat: if plausible { Some(t) } else { s.last_beat },
        rates,
    };
    let beat = if accepted {
        Some(Beat { time_ms: t, bpm: rate->0 as u32, average_bpm: rates_average(rates) as u32 })
    } else {
        None
    };
    (next, beat)
}

/// Heartbeat detector for one optical channel: DC removal (seeded by the first
/// sample), low-pass filter, rising zero crossings checked for excursion and
/// rate.
pub struct HeartRateMonitor {
    primed: bool,
    dc: u64,
    ring: Vec<i64>,
    offset: usize,
    current: i64,
    peak: i64,
    trough: i64,
    last_beat: Option<u64>,
    rates: Vec<u32>,
}

impl View for HeartRateMonitor {
    type V = DetectorState;

    closed spec fn view(&self) -> DetectorState {
        DetectorState {
            primed: self.primed,
            dc: self.dc as int,
            ring: self.ring@,
            offset: self.offset as int,
            current: self.current as int,
            peak: self.peak as int,
            trough: self.trough as int,
            last_beat: self.last_beat,
            rates: self.rates@,
        }
    }
}

pub open spec fn state_wf(s: DetectorState) -> bool {
    &&& 0 <= s.dc <= dc_limit()
    &&& s.ring.len() == RING_LEN
    &&& ring_bounded(s.ring)
    &&& 0 <= s.offset < RING_LEN
    &&& -0x3_0000_0000 <= s.current <= 0x3_0000_0000
    &&& -0x3_0000_0000 <= s.peak <= 0x3_0000_0000
    &&& -0x3_0000_0000 <= s.trough <= 0x3_0000_0000
    &&& s.rates.len() <= RATE_WINDOW
    &&& forall|i: int| 0 <= i < s.rates.len() ==> plausible_rate(#[trigger] s.rates[i] as int)
}

proof fn lemma_rates_sum_bound(r: Seq<u32>)
    requires
        forall|i: int| 0 <= i < r.len() ==> plausible_rate(#[trigger] r[i] as int),
    ensures
        0 <= rates_sum(r) <= 255 * r.len(),
    decreases r.len(),
{
    if r.len() > 0 {
        let init = r.drop_last();
        assert forall|i: int| 0 <= i < init.len() implies plausible_rate(#[trigger] init[i] as int) by {
            assert(init[i] == r[i]);
        }
        lemma_rates_sum_bound(init);
        assert(plausible_rate(r[r.len() - 1] as int));
    }
}

impl HeartRateMonitor {
    pub open spec fn wf(&self) -> bool {
        state_wf(self@)
    }

    pub fn new() -> (r: HeartRateMonitor)
        ensures
            r.wf(),
            r@ == initial_state(),
    {
        let ring: Vec<i64> = vec![0i64; RING_LEN];
        let r = HeartRateMonitor {
            primed: false,
            dc: 0,
            ring,
            offset: 0,
            current: 0,
            peak: 0,
            trough: 0,
            last_beat: None,
            rates: Vec::new(),
        };
        assert(r@.ring =~= initial_state().ring);
        assert(r@.rates =~= initial_state().rates);
        r
    }

    /// Mean of the accepted rates in the window; 0 before the first one.
    pub fn get_bpm(&self) -> (r: u32)
        requires
            self.wf(),
        ensures
            r == rates_average(self@.rates),
    {
        let n = self.rates.len();
        let mut sum: u32 = 0;
        let mut i: usize = 0;
        while i < n
            invariant
                self.wf(),
                n == self@.rates.len(),
                i <= n,
                sum == rates_sum(self@.rates.subrange(0, i as int)),
                sum <= 255 * i,
            decreases n - i,
        {
            let ghost prefix = self@.rates.subrange(0, i as int + 1);
            assert(prefix.drop_last() =~= self@.rates.subrange(0, i as int));
            assert(plausible_rate(self@.rates[i as int] as int));
            sum = sum + self.rates[i];
            i = i + 1;
        }
        assert(self@.rates.subrange(0, n as int) =~= self@.rates);
        if n == 0 {
            0
        } else {
            sum / (n as u32)
        }
    }

    /// Feeds one raw sample `sample` taken at `time_ms`; returns the beat it
    /// completes, if any.
    pub fn update(&mut self, sample: u32, time_ms: u64) -> (r: Option<Beat>)
        requires
            old(self).wf(),
        ensures
            final(self).wf(),
            (final(self)@, r) == step(old(self)@, sample, time_ms),
    {
        let ghost s = self@;
        if self.primed {
            self.dc = dc_step(self.dc, sample);
        } else {
            self.dc = sample as u64 * 32768;
            self.primed = true;
        }
        let estimate: i64 = (self.dc / 32768) as i64;
        let ac: i64 = sample as i64 - estimate;
        self.ring.set(self.offset, ac);
        assert(ring_bounded(self.ring@));
        let filtered = fir_filter(&self.ring, self.offset);
        let prev = self.current;
        self.current = filtered;
        self.offset = (self.offset + 1) % RING_LEN;
        if filtered > self.peak {
            self.peak = filtered;
        }
        if filtered < self.trough {
            self.trough = filtered;
        }
        let candidate = prev <= 0 && filtered > 0;
        let excursion: i64 = self.peak - self.trough;
        let plausible = candidate && 20 < excursion && excursion < 1000;
        if candidate {
            self.peak = filtered;
            self.trough = filtered;
        }
        let mut rate: Option<u64> = None;
        if plausible {
            match self.last_beat {
                Some(l) => {
                    if time_ms > l {
                        rate = Some(60000 / (time_ms - l));
                    }
                },
                None => {},
            }
            self.last_beat = Some(time_ms);
        }
        match rate {
            Some(bpm) => {
                if 20 <= bpm && bpm <= 255 {
                    if self.rates.len() >= RATE_WINDOW {
                        self.rates.remove(0);
                    }
                    self.rates.push(bpm as u32);
                    assert(self@.rates =~= window_after(s.rates, bpm as u32));
                    let average = self.get_bpm();
                    return Some(Beat { time_ms, bpm: bpm as u32, average_bpm: average });
                }
            },
            None => {},
        }
        None
    }
}

/// The state and the beats after feeding `samples` (value, time in
/// milliseconds) in order.
pub open spec fn run(s: DetectorState, samples: Seq<(u32, u64)>) -> (DetectorState, Seq<Beat>)
    decreases samples.len(),
{
    if samples.len() == 0 {
        (s, Seq::empty())
    } else {
        let (s1, beats) = run(s, samples.drop_last());
        let (s2, b) = step(s1, samples.last().0, samples.last().1);
        (
            s2,
            match b {
                Some(x) => beats.push(x),
                None => beats,
            },
        )
    }
}

/// The beats that a fresh detector finds in `samples`.
pub open spec fn beats_of(samples: Seq<(u32, u64)>) -> Seq<Beat> {
    run(initial_state(), samples).1
}

/// Runs a fresh detector over `samples` (value, time in milliseconds) and
/// collects the beats.
pub fn detect_beats(samples: &Vec<(u32, u64)>) -> (r: Vec<Beat>)
    ensures
        r@ == beats_of(samples@),
{
    let mut monitor = HeartRateMonitor::new();
    let mut beats: Vec<Beat> = Vec::new();
    let n = samples.len();
    let mut i: usize = 0;
    while i < n
        invariant
            n == samples@.len(),
            i <= n,
            monitor.wf(),
            (monitor@, beats@) == run(initial_state(), samples@.subrange(0, i as int)),
        decreases n - i,
    {
        let ghost before = samples@.subrange(0, i as int);
        let ghost after = samples@.subrange(0, i as int + 1);
        assert(after.drop_last() =~= before);
        let (x, t) = samples[i];
        match monitor.update(x, t) {
            Some(b) => beats.push(b),
            None => {},
        }
        i = i + 1;
    }
    assert(samples@.subrange(0, n as int) =~= samples@);
    beats
}

/// Detection is deterministic: the same samples fed to a fresh detector give
/// the same beats, with the same times and rates.
pub proof fn lemma_detection_deterministic(a: Seq<(u32, u64)>, b: Seq<(u32, u64)>)
    requires
        a == b,
    ensures
        beats_of(a) == beats_of(b),
{
}

proof fn lemma_run_beats_plausible(s: DetectorState, samples: Seq<(u32, u64)>)
    ensures
        forall|i: int|
            0 <= i < run(s, samples).1.len() ==> plausible_rate(
                #[trigger] run(s, samples).1[i].bpm as int,
            ),
    decreases samples.len(),
{
    if samples.len() > 0 {
        lemma_run_beats_plausible(s, samples.drop_last());
        let (s1, beats) = run(s, samples.drop_last());
        let (s2, b) = step(s1, samples.last().0, samples.last().1);
        match b {
            Some(x) => {
                assert(plausible_rate(x.bpm as int));
                assert forall|i: int| 0 <= i < beats.push(x).len() implies plausible_rate(
                    #[trigger] beats.push(x)[i].bpm as int,
                ) by {
                    if i < beats.len() {
                        assert(beats.push(x)[i] == beats[i]);
                    }
                }
            },
            None => {},
        }
    }
}

/// Every beat found has a rate within 20 to 255 beats per minute, as has
/// every rate that enters the rolling average.
pub proof fn lemma_beats_plausible(samples: Seq<(u32, u64)>)
    ensures
        forall|i: int|
            0 <= i < beats_of(samples).len() ==> plausible_rate(
                #[trigger] beats_of(samples)[i].bpm as int,
            ),
{
    lemma_run_beats_plausible(initial_state(), samples);
}

} // verus!
