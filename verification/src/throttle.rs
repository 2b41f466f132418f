//! Resource utilisation as fixed-point fractions, and the throttle that is
//! derived from it.
//!
//! A fraction of one is held in millionths. Utilisation lies in `[0, 1]`, a
//! throttle in `(0, 1]`; a throttle of one means that work is not scaled down.

use vstd::prelude::*;

verus! {

/// Millionths in one whole.
pub const SCALE: u32 = 1_000_000;

/// Utilisation above which work is scaled down: 0.80.
pub const MAX_USAGE: u32 = 800_000;

/// Milliseconds between two utilisation samples.
pub const MONITOR_INTERVAL_MS: u64 = 500;

/// Milliseconds a worker rests after a batch that was scaled down.
pub const THROTTLED_PAUSE_MS: u64 = 1;

/// The throttle for a utilisation, both in millionths: `MAX_USAGE / usage`
/// rounded down where the utilisation is above `MAX_USAGE`, one otherwise.
pub open spec fn throttle_of(usage: nat) -> nat {
    if usage > MAX_USAGE {
        (MAX_USAGE as nat * SCALE as nat) / usage
    } else {
        SCALE as nat
    }
}

/// The number of blocks in a batch of `base` blocks scaled by `factor`
/// millionths: the product rounded down, and never less than one.
pub open spec fn scaled_batch(base: nat, factor: nat) -> nat {
    if (base * factor) / (SCALE as nat) < 1 {
        1
    } else {
        (base * factor) / (SCALE as nat)
    }
}

/// A fraction between zero and one, in millionths.
#[derive(Clone, Copy, Debug, PartialEq, Eq, Structural)]
pub struct Fraction {
    millionths: u32,
}

impl View for Fraction {
    type V = nat;

    /// The fraction in millionths.
    closed spec fn view(&self) -> nat {
        self.millionths as nat
    }
}

impl Fraction {
    #[verifier::type_invariant]
    spec fn in_range(self) -> bool {
        self.millionths <= SCALE
    }

    /// Zero.
    pub fn zero() -> (f: Fraction)
        ensures
            f@ == 0,
    {
        Fraction { millionths: 0 }
    }

    /// One.
    pub fn one() -> (f: Fraction)
        ensures
            f@ == SCALE,
    {
        Fraction { millionths: SCALE }
    }

    /// The fraction of `millionths` millionths, if that is at most one.
    pub fn new(millionths: u32) -> (f: Option<Fraction>)
        ensures
            millionths <= SCALE ==> f.is_some() && f.unwrap()@ == millionths,
            millionths > SCALE ==> f.is_none(),
    {
        if millionths <= SCALE {
            Some(Fraction { millionths })
        } else {
            None
        }
    }

    /// The fraction of `millionths` millionths, or one where that is more.
    pub fn clamped(millionths: u32) -> (f: Fraction)
        ensures
            f@ == if millionths <= SCALE { millionths as nat } else { SCALE as nat },
    {
        if millionths <= SCALE {
            Fraction { millionths }
        } else {
            Fraction { millionths: SCALE }
        }
    }

    /// The fraction of `percent` hundredths, if that is at most one.
    pub fn from_percent(percent: u32) -> (f: Option<Fraction>)
        ensures
            percent <= 100 ==> f.is_some() && f.unwrap()@ == percent * 10_000,
            percent > 100 ==> f.is_none(),
    {
        if percent <= 100 {
            Some(Fraction { millionths: percent * 10_000 })
        } else {
            None
        }
    }

    /// The fraction in millionths.
    pub fn millionths(&self) -> (m: u32)
        ensures
            m == self@,
            m <= SCALE,
    {
        proof {
            use_type_invariant(self);
        }
        self.millionths
    }

    /// The smaller of two fractions.
    pub fn min(self, other: Fraction) -> (f: Fraction)
        ensures
            f@ == if self@ <= other@ { self@ } else { other@ },
    {
        if self.millionths <= other.millionths {
            self
        } else {
            other
        }
    }
}

/// The sum of the fractions of `s`, in millionths.
pub open spec fn total_millionths(s: Seq<Fraction>) -> nat
    decreases s.len(),
{
    if s.len() == 0 {
        0
    } else {
        total_millionths(s.drop_last()) + s.last()@
    }
}

/// The mean of the fractions of `s` in millionths, rounded down; zero for no
/// fraction at all.
pub open spec fn mean_millionths(s: Seq<Fraction>) -> nat {
    if s.len() == 0 {
        0
    } else {
        total_millionths(s) / s.len()
    }
}

/// The mean utilisation over the cores of the machine: the sum of the
/// per-core fractions over their number, rounded down, and zero where there
/// is no core.
pub fn mean_usage(cores: &Vec<Fraction>) -> (mean: Fraction)
    ensures
        mean@ == mean_millionths(cores@),
{
    let n = cores.len();
    if n == 0 {
        return Fraction::zero();
    }
    let mut sum: u128 = 0;
    let mut i: usize = 0;
    while i < n
        invariant
            n == cores.len(),
            i <= n,
            sum == total_millionths(cores@.take(i as int)),
            sum <= i * SCALE,
        decreases n - i,
    {
        let m = cores[i].millionths();
        proof {
            assert(cores@.take(i + 1).drop_last() =~= cores@.take(i as int));
        }
        sum = sum + m as u128;
        i = i + 1;
    }
    proof {
        assert(cores@.take(n as int) =~= cores@);
        assert(sum / (n as u128) <= SCALE) by (nonlinear_arith)
            requires
                sum <= n * SCALE,
                n > 0,
        ;
    }
    let mean = sum / (n as u128);
    Fraction { millionths: mean as u32 }
}

/// The throttle for a utilisation: `MAX_USAGE / usage` rounded down to a
/// millionth where the utilisation is above `MAX_USAGE`, and one otherwise.
/// It is never below `MAX_USAGE`.
pub fn throttle_for(usage: Fraction) -> (throttle: Fraction)
    ensures
        throttle@ == throttle_of(usage@),
        MAX_USAGE <= throttle@ <= SCALE,
{
    let u = usage.millionths();
    if u > MAX_USAGE {
        proof {
            lemma_throttle_range(u as nat);
        }
        let product: u64 = MAX_USAGE as u64 * SCALE as u64;
        let t = product / (u as u64);
        Fraction { millionths: t as u32 }
    } else {
        Fraction::one()
    }
}

/// A throttle lies between `MAX_USAGE` and one, ends included, whatever the
/// utilisation, and is one exactly when the utilisation is at most
/// `MAX_USAGE`.
pub proof fn lemma_throttle_range(usage: nat)
    requires
        usage <= SCALE,
    ensures
        MAX_USAGE <= throttle_of(usage) <= SCALE,
        throttle_of(usage) == SCALE <==> usage <= MAX_USAGE,
{
    if usage > MAX_USAGE {
        let p = MAX_USAGE as nat * SCALE as nat;
        assert(p / usage >= MAX_USAGE as nat) by (nonlinear_arith)
            requires
                p == 800_000 * 1_000_000,
                800_000 < usage <= 1_000_000,
        ;
        assert(p / usage < 1_000_000) by (nonlinear_arith)
            requires
                p == 800_000 * 1_000_000,
                800_000 < usage <= 1_000_000,
        ;
    }
}

/// A throttle does not grow with the utilisation.
pub proof fn lemma_throttle_monotone(low: nat, high: nat)
    requires
        low <= high <= SCALE,
    ensures
        throttle_of(high) <= throttle_of(low),
{
    lemma_throttle_range(low);
    lemma_throttle_range(high);
    if low > MAX_USAGE {
        let p = MAX_USAGE as nat * SCALE as nat;
        assert(p / high <= p / low) by (nonlinear_arith)
            requires
                0 < low <= high,
        ;
    }
}

/// What a throttle sample holds, each field in millionths.
pub struct SampleView {
    pub cpu_usage: nat,
    pub gpu_usage: nat,
    pub cpu_throttle: nat,
    pub gpu_throttle: nat,
}

/// The sample for the given utilisations: each throttle is the one that its
/// utilisation gives.
pub open spec fn sample_of(cpu_usage: nat, gpu_usage: nat) -> SampleView {
    SampleView {
        cpu_usage,
        gpu_usage,
        cpu_throttle: throttle_of(cpu_usage),
        gpu_throttle: throttle_of(gpu_usage),
    }
}

/// The throttle under which a worker sizes its batch: the smaller of the two
/// throttles of a sample.
pub open spec fn factor_of(v: SampleView) -> nat {
    if v.cpu_throttle <= v.gpu_throttle {
        v.cpu_throttle
    } else {
        v.gpu_throttle
    }
}

/// One reading of the machine's load with the throttles derived from it. It
/// is written as a whole and read as a whole.
#[derive(Clone, Copy, Debug, PartialEq, Eq, Structural)]
pub struct ThrottleSample {
    cpu_usage: Fraction,
    gpu_usage: Fraction,
    cpu_throttle: Fraction,
    gpu_throttle: Fraction,
}

impl View for ThrottleSample {
    type V = SampleView;

    closed spec fn view(&self) -> SampleView {
        SampleView {
            cpu_usage: self.cpu_usage@,
            gpu_usage: self.gpu_usage@,
            cpu_throttle: self.cpu_throttle@,
            gpu_throttle: self.gpu_throttle@,
        }
    }
}

impl ThrottleSample {
    #[verifier::type_invariant]
    spec fn derived(self) -> bool {
        &&& self.cpu_usage.in_range()
        &&& self.gpu_usage.in_range()
        &&& self.cpu_throttle@ == throttle_of(self.cpu_usage@)
        &&& self.gpu_throttle@ == throttle_of(self.gpu_usage@)
    }

    /// The sample before any reading: no load, and no throttle.
    pub fn neutral() -> (sample: ThrottleSample)
        ensures
            sample@ == sample_of(0, 0),
            sample@.cpu_throttle == SCALE,
            sample@.gpu_throttle == SCALE,
    {
        ThrottleSample {
            cpu_usage: Fraction::zero(),
            gpu_usage: Fraction::zero(),
            cpu_throttle: Fraction::one(),
            gpu_throttle: Fraction::one(),
        }
    }

    /// The sample for a processor utilisation and, where the machine has
    /// that channel, a graphics utilisation. A missing channel counts as no
    /// load.
    pub fn from_usage(cpu: Fraction, gpu: Option<Fraction>) -> (sample: ThrottleSample)
        ensures
            sample@ == sample_of(
                cpu@,
                match gpu {
                    Some(g) => g@,
                    None => 0,
                },
            ),
    {
        let gpu_usage = match gpu {
            Some(g) => g,
            None => Fraction::zero(),
        };
        proof {
            use_type_invariant(cpu);
            use_type_invariant(gpu_usage);
        }
        ThrottleSample {
            cpu_usage: cpu,
            gpu_usage,
            cpu_throttle: throttle_for(cpu),
            gpu_throttle: throttle_for(gpu_usage),
        }
    }

    /// One cycle of the monitor: the sample for the per-core utilisations of
    /// the processor, whose mean is its utilisation, and the graphics
    /// utilisation where there is one.
    pub fn measure(cores: &Vec<Fraction>, gpu: Option<Fraction>) -> (sample: ThrottleSample)
        ensures
            sample@ == sample_of(
                mean_millionths(cores@),
                match gpu {
                    Some(g) => g@,
                    None => 0,
                },
            ),
    {
        ThrottleSample::from_usage(mean_usage(cores), gpu)
    }

    /// The processor utilisation.
    pub fn cpu_usage(&self) -> (usage: Fraction)
        ensures
            usage@ == self@.cpu_usage,
            usage@ <= SCALE,
    {
        proof {
            use_type_invariant(self);
        }
        self.cpu_usage
    }

    /// The graphics utilisation.
    pub fn gpu_usage(&self) -> (usage: Fraction)
        ensures
            usage@ == self@.gpu_usage,
            usage@ <= SCALE,
    {
        proof {
            use_type_invariant(self);
        }
        self.gpu_usage
    }

    /// The throttle that the processor utilisation gives.
    pub fn cpu_throttle(&self) -> (throttle: Fraction)
        ensures
            throttle@ == self@.cpu_throttle,
            throttle@ == throttle_of(self@.cpu_usage),
            0 < throttle@ <= SCALE,
    {
        proof {
            use_type_invariant(self);
            lemma_throttle_range(self.cpu_usage@);
        }
        self.cpu_throttle
    }

    /// The throttle that the graphics utilisation gives.
    pub fn gpu_throttle(&self) -> (throttle: Fraction)
        ensures
            throttle@ == self@.gpu_throttle,
            throttle@ == throttle_of(self@.gpu_usage),
            0 < throttle@ <= SCALE,
    {
        proof {
            use_type_invariant(self);
            lemma_throttle_range(self.gpu_usage@);
        }
        self.gpu_throttle
    }

    /// The throttle under which a worker sizes its batch: the smaller of the
    /// two throttles.
    pub fn factor(&self) -> (factor: Fraction)
        ensures
            factor@ == factor_of(self@),
            0 < factor@ <= SCALE,
    {
        let cpu = self.cpu_throttle();
        let gpu = self.gpu_throttle();
        cpu.min(gpu)
    }

    /// Whether work is scaled down under this sample: whether its factor is
    /// below one.
    pub fn is_throttled(&self) -> (throttled: bool)
        ensures
            throttled == (factor_of(self@) < SCALE),
    {
        self.factor().millionths() < SCALE
    }
}

impl Default for ThrottleSample {
    fn default() -> (sample: ThrottleSample)
        ensures
            sample@ == sample_of(0, 0),
    {
        ThrottleSample::neutral()
    }
}

/// The fields of a sample are in their ranges whatever the utilisations:
/// each throttle is above zero and at most one, and so is the factor; the
/// factor is below one exactly when a utilisation is above `MAX_USAGE`.
pub proof fn lemma_sample_ranges(cpu_usage: nat, gpu_usage: nat)
    requires
        cpu_usage <= SCALE,
        gpu_usage <= SCALE,
    ensures
        0 < sample_of(cpu_usage, gpu_usage).cpu_throttle <= SCALE,
        0 < sample_of(cpu_usage, gpu_usage).gpu_throttle <= SCALE,
        0 < factor_of(sample_of(cpu_usage, gpu_usage)) <= SCALE,
        factor_of(sample_of(cpu_usage, gpu_usage)) < SCALE <==> (cpu_usage > MAX_USAGE || gpu_usage
            > MAX_USAGE),
{
    lemma_throttle_range(cpu_usage);
    lemma_throttle_range(gpu_usage);
}

/// The number of blocks in a batch of `base` blocks under the throttle
/// `factor`: `base` times `factor` rounded down, and one where that is zero,
/// so that a throttle shrinks the batch and never stops the work.
pub fn effective_batch(base: usize, factor: Fraction) -> (size: usize)
    ensures
        size == scaled_batch(base as nat, factor@),
        1 <= size,
        size <= base || size == 1,
{
    let f = factor.millionths();
    proof {
        assert(base * f <= base * SCALE) by (nonlinear_arith)
            requires
                f <= SCALE,
        ;
    }
    let scaled: u128 = (base as u128 * f as u128) / (SCALE as u128);
    if scaled < 1 {
        1
    } else {
        scaled as usize
    }
}

/// A batch under any throttle has at least one block and at most `base`
/// blocks, unless `base` is zero; under the throttle one it has `base` blocks.
pub proof fn lemma_scaled_batch_bounds(base: nat, factor: nat)
    requires
        factor <= SCALE,
    ensures
        1 <= scaled_batch(base, factor),
        base >= 1 ==> scaled_batch(base, factor) <= base,
        base >= 1 ==> scaled_batch(base, SCALE as nat) == base,
{
    assert(base * factor <= base * (SCALE as nat)) by (nonlinear_arith)
        requires
            factor <= SCALE,
    ;
}

/// A batch does not grow when the throttle falls.
pub proof fn lemma_scaled_batch_monotone(base: nat, low: nat, high: nat)
    requires
        low <= high,
    ensures
        scaled_batch(base, low) <= scaled_batch(base, high),
{
    assert(base * low <= base * high) by (nonlinear_arith)
        requires
            low <= high,
    ;
}

} // verus!
