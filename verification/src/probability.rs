//! Adaptive probability models driving the arithmetic coder: a two-symbol
//! distribution (`CDF2`) and sixteen-symbol cumulative distributions with
//! several update policies.
use vstd::prelude::*;

verus! {

/// Probabilities are signed 16-bit fixed-point values.
pub type Prob = i16;

/// Qualitative update rate for the adaptive distributions. Each distribution
/// maps each level to its own concrete per-update step.
pub enum Speed {
    GEOLOGIC,
    GLACIAL,
    MUD,
    SLOW,
    MED,
    FAST,
    PLANE,
    ROCKET,
}

/// A two-symbol adaptive distribution: two saturating counters, never zero,
/// and a derived 8-bit probability for symbol 0.
#[derive(Clone, Copy)]
pub struct CDF2 {
    counts: [u8; 2],
    pub prob: u8,
}

impl CDF2 {
    /// The count of observations of symbol 0 (plus the initial seed of 1).
    pub closed spec fn count0(&self) -> u8 {
        self.counts[0]
    }

    /// The count of observations of symbol 1 (plus the initial seed of 1).
    pub closed spec fn count1(&self) -> u8 {
        self.counts[1]
    }

    /// The derived 8-bit probability for symbol 0.
    pub closed spec fn spec_prob(&self) -> u8 {
        self.prob
    }

    /// Both counters stay in [1, 255].
    pub open spec fn wf(&self) -> bool {
        self.count0() >= 1 && self.count1() >= 1
    }

    pub open spec fn spec_cdf(&self, symbol: int) -> int {
        if symbol == 0 {
            self.spec_prob() as int
        } else {
            256 - self.spec_prob() as int
        }
    }

    pub fn num_symbols() -> (r: u8)
        ensures
            r == 2,
    {
        2
    }

    pub fn cdf(&self, symbol: u8) -> (r: Prob)
        requires
            symbol < 2,
        ensures
            r == self.spec_cdf(symbol as int),
    {
        if symbol == 0 {
            self.prob as Prob
        } else {
            256 - self.prob as Prob
        }
    }

    pub fn pdf(&self, symbol: u8) -> (r: Prob)
        requires
            symbol < 2,
        ensures
            symbol == 0 ==> r == self.spec_cdf(0),
            symbol == 1 ==> r == self.spec_cdf(1) - self.spec_cdf(0),
    {
        if symbol == 0 {
            self.cdf(symbol)
        } else {
            self.cdf(symbol) - self.cdf(symbol - 1)
        }
    }

    /// True once either symbol has been observed.
    pub fn used(&self) -> (r: bool)
        ensures
            r == (self.count0() != 1 || self.count1() != 1),
    {
        self.counts[0] != 1 || self.counts[1] != 1
    }

    pub fn max(&self) -> (r: Prob)
        ensures
            r == 256,
    {
        256
    }

    pub fn log_max(&self) -> (r: Option<i8>)
        ensures
            r == Some(8i8),
    {
        Some(8)
    }
}

impl Default for CDF2 {
    /// Both symbols seeded once; even odds.
    fn default() -> (ret: Self)
        ensures
            ret.count0() == 1,
            ret.count1() == 1,
            ret.spec_prob() == 128,
            ret.wf(),
    {
        CDF2 { counts: [1, 1], prob: 128 }
    }
}

/// The probability for symbol 0 derived from the two counters after an
/// ordinary (non-overflowing) increment: `c0 * 256 / (old total + 1)`.
pub open spec fn cdf2_stepped_prob(c0: int, total_plus_one: int) -> int {
    (c0 * 256) / total_plus_one
}

/// Halving with rounding up, used when a counter saturates.
pub open spec fn half_round_up(x: int) -> int {
    (1 + x) / 2
}

impl CDF2 {
    /// Observe one symbol: increment its counter and rederive the probability.
    /// If the counter would pass 255, halve both (rounding up) and reseed the
    /// observed one to 129 - unless the opposite symbol was never seen, in
    /// which case the observed counter pins at 255 and the probability
    /// saturates to 0 or 255.
    pub fn blend(&mut self, symbol: bool, _speed: Speed)
        requires
            old(self).wf(),
        ensures
            final(self).wf(),
            ({
                let f = old(self).count0();
                let t = old(self).count1();
                if symbol {
                    if t == 0xff {
                        if f == 1 {
                            final(self).count0() == 1 && final(self).count1() == 0xff
                                && final(self).spec_prob() == 0
                        } else {
                            final(self).count0() == half_round_up(f as int)
                                && final(self).count1() == 129
                                && final(self).spec_prob() == cdf2_stepped_prob(
                                half_round_up(f as int),
                                half_round_up(f as int) + 129,
                            )
                        }
                    } else {
                        final(self).count0() == f && final(self).count1() == t + 1
                            && final(self).spec_prob() == cdf2_stepped_prob(f as int, f + t + 1)
                    }
                } else {
                    if f == 0xff {
                        if t == 1 {
                            final(self).count0() == 0xff && final(self).count1() == 1
                                && final(self).spec_prob() == 0xff
                        } else {
                            final(self).count0() == 129
                                && final(self).count1() == half_round_up(t as int)
                                && final(self).spec_prob() == cdf2_stepped_prob(
                                129,
                                129 + half_round_up(t as int),
                            )
                        }
                    } else {
                        final(self).count0() == f + 1 && final(self).count1() == t
                            && final(self).spec_prob() == cdf2_stepped_prob((f + 1) as int, f + t + 1)
                    }
                }
            }),
    {
        let fcount = self.counts[0];
        let tcount = self.counts[1];
        let obs: usize = if symbol { 1 } else { 0 };
        let overflow = self.counts[obs] == 0xff;
        if overflow {
            let not_obs: usize = if symbol { 0 } else { 1 };
            let neverseen = self.counts[not_obs] == 1;
            if neverseen {
                self.counts[obs] = 0xff;
                self.prob = if symbol { 0 } else { 0xff };
            } else {
                self.counts[0] = ((1 + (fcount as u16)) / 2) as u8;
                self.counts[1] = ((1 + (tcount as u16)) / 2) as u8;
                self.counts[obs] = 129;
                let total: u16 = self.counts[0] as u16 + self.counts[1] as u16;
                let scaled: u16 = (self.counts[0] as u16) * 256;
                proof {
                    lemma_prob_fits_u8(self.counts[0] as int, total as int);
                }
                self.prob = (scaled / total) as u8;
            }
        } else {
            self.counts[obs] = self.counts[obs] + 1;
            let total: u16 = fcount as u16 + tcount as u16 + 1;
            let scaled: u16 = (self.counts[0] as u16) * 256;
            proof {
                lemma_prob_fits_u8(self.counts[0] as int, total as int);
            }
            self.prob = (scaled / total) as u8;
        }
    }
}

/// The derived 8-bit probability always fits: the observed count is below the
/// divisor, so the scaled ratio stays under 256.
proof fn lemma_prob_fits_u8(c0: int, total: int)
    requires
        0 <= c0 < total,
    ensures
        0 <= (c0 * 256) / total < 256,
{
    assert((c0 * 256) / total < 256) by (nonlinear_arith)
        requires
            0 <= c0 < total,
    ;
    assert((c0 * 256) / total >= 0) by (nonlinear_arith)
        requires
            0 <= c0 < total,
    ;
}

} // verus!

verus! {

/// Upper bound for cumulative values: the last value is implicitly
/// `CDF_MAX + 1 = 32768`.
pub const CDF_MAX: Prob = 32767;

/// A sixteen-symbol cumulative histogram. Strictly increasing; the total mass
/// is `cdf[15]`.
#[derive(Clone, Copy)]
pub struct FrequentistCDF16 {
    pub cdf: [Prob; 16],
}

/// The per-update step each speed level adds to the tail of the histogram.
pub open spec fn freq_speed_increment(speed: Speed) -> int {
    match speed {
        Speed::GEOLOGIC => 1,
        Speed::GLACIAL => 4,
        Speed::MUD => 16,
        Speed::SLOW => 32,
        Speed::MED => 48,
        Speed::FAST => 96,
        Speed::PLANE => 128,
        Speed::ROCKET => 384,
    }
}

/// Saturation threshold: the largest increment plus the sixteen bias slots
/// must still fit under `CDF_MAX`.
pub open spec fn freq_limit() -> int {
    32767 - 16 - 384
}

/// The histogram after adding `d` to every bucket at or past `s`, element `i`.
pub open spec fn freq_bumped(c: [Prob; 16], s: int, d: int, i: int) -> int {
    if i >= s {
        c[i] + d
    } else {
        c[i] as int
    }
}

/// Bias-plus-decay renormalization of one bucket: add the bias, then shed a
/// quarter of the sum.
pub open spec fn freq_renormalized(x: int, bias: int) -> int {
    (x + bias) - (x + bias) / 4
}

/// Element `i` of the histogram after one blend step.
pub open spec fn freq_blended(c: [Prob; 16], s: int, d: int, i: int) -> int {
    if freq_bumped(c, s, d, 15) >= freq_limit() {
        freq_renormalized(freq_bumped(c, s, d, i), i + 1)
    } else {
        freq_bumped(c, s, d, i)
    }
}

impl FrequentistCDF16 {
    /// Strictly increasing, positive, and with room for the largest update.
    pub open spec fn wf(&self) -> bool {
        &&& self.cdf[0] >= 1
        &&& forall|i: int| 0 < i < 16 ==> self.cdf[i - 1] < #[trigger] self.cdf[i]
        &&& self.cdf[15] < freq_limit()
    }

    pub fn num_symbols() -> (r: u8)
        ensures
            r == 16,
    {
        16
    }

    pub fn max(&self) -> (r: Prob)
        ensures
            r == self.cdf[15],
    {
        self.cdf[15]
    }

    pub fn log_max(&self) -> (r: Option<i8>)
        ensures
            r is None,
    {
        None
    }

    pub fn cdf(&self, symbol: u8) -> (r: Prob)
        requires
            symbol < 16,
        ensures
            r == self.cdf[symbol as int],
    {
        self.cdf[symbol as usize]
    }

    pub fn pdf(&self, symbol: u8) -> (r: Prob)
        requires
            symbol < 16,
            self.wf(),
        ensures
            symbol == 0 ==> r == self.cdf[0],
            symbol > 0 ==> r == self.cdf[symbol as int] - self.cdf[symbol as int - 1],
    {
        if symbol == 0 {
            self.cdf(symbol)
        } else {
            self.cdf(symbol) - self.cdf(symbol - 1)
        }
    }

    /// True when the first fifteen buckets are positive and strictly
    /// increasing (the final bucket is not examined).
    pub fn valid(&self) -> (r: bool)
        ensures
            r == (self.cdf[0] > 0 && forall|i: int| 0 < i < 15 ==> self.cdf[i - 1] < #[trigger] self.cdf[i]),
    {
        let mut prev: Prob = 0;
        let mut i: usize = 0;
        while i < 15
            invariant
                i <= 15,
                prev == (if i == 0 { 0int } else { self.cdf[i - 1] as int }),
                i > 0 ==> self.cdf[0] > 0,
                forall|j: int| 0 < j < i ==> self.cdf[j - 1] < #[trigger] self.cdf[j],
            decreases 15 - i,
        {
            if self.cdf[i] <= prev {
                return false;
            }
            prev = self.cdf[i];
            i += 1;
        }
        true
    }

    /// Observe one symbol: add the speed's step to every bucket from the
    /// symbol up, and renormalize with bias-plus-decay when the total mass
    /// reaches the saturation threshold.
    pub fn blend(&mut self, symbol: u8, speed: Speed)
        requires
            symbol < 16,
            old(self).wf(),
        ensures
            final(self).wf(),
            forall|i: int|
                0 <= i < 16 ==> final(self).cdf[i] == freq_blended(
                    old(self).cdf,
                    symbol as int,
                    freq_speed_increment(speed),
                    i,
                ),
    {
        let increment: Prob = match speed {
            Speed::GEOLOGIC => 1,
            Speed::GLACIAL => 4,
            Speed::MUD => 16,
            Speed::SLOW => 32,
            Speed::MED => 48,
            Speed::FAST => 96,
            Speed::PLANE => 128,
            Speed::ROCKET => 384,
        };
        let ghost c0 = self.cdf;
        let ghost d = freq_speed_increment(speed);
        let mut i: usize = symbol as usize;
        while i < 16
            invariant
                symbol < 16,
                symbol as usize <= i <= 16,
                1 <= d <= 384,
                increment == d,
                (FrequentistCDF16 { cdf: c0 }).wf(),
                forall|j: int| 0 <= j < symbol as int ==> self.cdf[j] == c0[j],
                forall|j: int| symbol as int <= j < i ==> self.cdf[j] == c0[j] + d,
                forall|j: int| i <= j < 16 ==> self.cdf[j] == c0[j],
            decreases 16 - i,
        {
            proof {
                lemma_freq_sorted_le(FrequentistCDF16 { cdf: c0 }, i as int, 15);
            }
            self.cdf[i] = self.cdf[i] + increment;
            i += 1;
        }
        assert(forall|j: int| 0 <= j < 16 ==> self.cdf[j] == freq_bumped(c0, symbol as int, d, j));
        let limit: Prob = 32767 - 16 - 384;
        if self.cdf[15] >= limit {
            let ghost c1 = self.cdf;
            let mut i: usize = 0;
            while i < 16
                invariant
                    i <= 16,
                    forall|j: int| 0 <= j < 16 ==> c1[j] == freq_bumped(c0, symbol as int, d, j),
                    (FrequentistCDF16 { cdf: c0 }).wf(),
                    1 <= d <= 384,
                    forall|j: int| 0 <= j < i ==> self.cdf[j] == freq_renormalized(c1[j] as int, j + 1),
                    forall|j: int| i <= j < 16 ==> self.cdf[j] == c1[j],
                decreases 16 - i,
            {
                proof {
                    lemma_freq_sorted_le(FrequentistCDF16 { cdf: c0 }, i as int, 15);
                    assert(self.cdf[i as int] == c1[i as int]);
                    assert(c1[i as int] == freq_bumped(c0, symbol as int, d, i as int));
                    assert(1 <= c1[i as int] <= 32750);
                }
                let bias: Prob = i as Prob + 1;
                let v: Prob = self.cdf[i] + bias;
                self.cdf[i] = v - v / 4;
                i += 1;
            }
            proof {
                lemma_freq_blend_renorm_wf(c0, c1, self.cdf, symbol as int, d);
            }
        } else {
            assert(final(self).wf()) by {
                assert(forall|j: int|
                    0 < j < 16 ==> freq_bumped(c0, symbol as int, d, j - 1) < #[trigger] freq_bumped(
                        c0,
                        symbol as int,
                        d,
                        j,
                    ));
            }
        }
    }
}

impl Default for FrequentistCDF16 {
    /// The arithmetic seed {4, 8, ..., 64}: one unit of mass per symbol times
    /// four.
    fn default() -> (ret: Self)
        ensures
            forall|i: int| 0 <= i < 16 ==> ret.cdf[i] == 4 * (i + 1),
            ret.wf(),
    {
        let ret = FrequentistCDF16 {
            cdf: [4, 8, 12, 16, 20, 24, 28, 32, 36, 40, 44, 48, 52, 56, 60, 64],
        };
        assert(forall|i: int| 0 <= i < 16 ==> ret.cdf[i] == 4 * (i + 1)) by {
            assert(ret.cdf@ =~= seq![
                4i16, 8, 12, 16, 20, 24, 28, 32, 36, 40, 44, 48, 52, 56, 60, 64,
            ]);
        }
        ret
    }
}

/// Strict growth gives ordering across any gap in a well-formed histogram.
pub proof fn lemma_freq_sorted(c: FrequentistCDF16, i: int, j: int)
    requires
        c.wf(),
        0 <= i < j < 16,
    ensures
        c.cdf[i] < c.cdf[j],
    decreases j - i,
{
    if j > i + 1 {
        lemma_freq_sorted(c, i, j - 1);
    }
}

/// Non-strict form of the ordering, usable when the endpoints may coincide.
pub proof fn lemma_freq_sorted_le(c: FrequentistCDF16, i: int, j: int)
    requires
        c.wf(),
        0 <= i <= j < 16,
    ensures
        c.cdf[i] <= c.cdf[j],
        1 <= c.cdf[i],
        c.cdf[j] < freq_limit(),
{
    if i < j {
        lemma_freq_sorted(c, i, j);
    }
    if 0 < i {
        lemma_freq_sorted(c, 0, i);
    }
    if j < 15 {
        lemma_freq_sorted(c, j, 15);
    }
}

/// Renormalization keeps strict order: arguments two or more apart stay
/// strictly apart after shedding a quarter.
proof fn lemma_renorm_strict(a: int, b: int)
    requires
        0 <= a,
        a + 2 <= b,
    ensures
        a - a / 4 < b - b / 4,
{
    let q = b - a;
    assert(b / 4 <= a / 4 + q / 4 + 1) by (nonlinear_arith)
        requires
            0 <= a && 0 <= q && b == a + q,
    ;
    assert(q - q / 4 - 1 >= 1) by (nonlinear_arith)
        requires
            q >= 2,
    ;
}

/// After a blend that crosses the saturation threshold the renormalized
/// histogram is well-formed again.
proof fn lemma_freq_blend_renorm_wf(c0: [Prob; 16], c1: [Prob; 16], c2: [Prob; 16], s: int, d: int)
    requires
        (FrequentistCDF16 { cdf: c0 }).wf(),
        0 <= s < 16,
        1 <= d <= 384,
        freq_bumped(c0, s, d, 15) >= freq_limit(),
        forall|j: int| 0 <= j < 16 ==> c1[j] == freq_bumped(c0, s, d, j),
        forall|j: int| 0 <= j < 16 ==> c2[j] == freq_renormalized(c1[j] as int, j + 1),
    ensures
        (FrequentistCDF16 { cdf: c2 }).wf(),
        forall|j: int| 0 <= j < 16 ==> c2[j] == freq_blended(c0, s, d, j),
{
    assert forall|j: int| 0 < j < 16 implies c2[j - 1] < #[trigger] c2[j] by {
        lemma_freq_sorted_le(FrequentistCDF16 { cdf: c0 }, j - 1, j - 1);
        lemma_freq_sorted_le(FrequentistCDF16 { cdf: c0 }, j, j);
        assert(c1[j - 1] + j <= c1[j] + j + 1 - 2);
        lemma_renorm_strict(c1[j - 1] + j, c1[j] + j + 1);
    }
    lemma_freq_sorted_le(FrequentistCDF16 { cdf: c0 }, 0, 0);
    assert(c2[0] >= 1) by {
        let y = c1[0] + 1;
        assert(y >= 2);
        assert(y / 4 <= y - 1);
    }
    assert(c2[15] < freq_limit()) by {
        lemma_freq_sorted_le(FrequentistCDF16 { cdf: c0 }, 15, 15);
        let y = c1[15] + 16;
        assert(y <= 32766);
        assert(y - y / 4 <= (3 * y + 3) / 4) by (nonlinear_arith)
            requires
                y >= 0,
        ;
        assert((3 * y + 3) / 4 <= 24576);
    }
}

/// Sixteen-symbol cumulative values never decrease and never pass the total
/// mass: the monotonicity invariant of every well-formed histogram.
pub proof fn lemma_frequentist_cdf_monotone(c: FrequentistCDF16, s: int)
    requires
        c.wf(),
        0 <= s < 15,
    ensures
        c.cdf[s] <= c.cdf[s + 1],
        c.cdf[s + 1] <= c.cdf[15],
{
    lemma_freq_sorted_le(c, s, s + 1);
    lemma_freq_sorted_le(c, s + 1, 15);
}

/// Every symbol of a well-formed histogram keeps strictly positive
/// probability, whatever finite sequence of blends produced it.
pub proof fn lemma_frequentist_pdf_positive(c: FrequentistCDF16, s: int)
    requires
        c.wf(),
        0 <= s < 16,
    ensures
        s == 0 ==> c.cdf[0] > 0,
        s > 0 ==> c.cdf[s] - c.cdf[s - 1] > 0,
{
}

} // verus!


verus! {

/// The mass a one-hot blend target puts below each symbol: zero before the
/// observed symbol, `CDF_MAX - 16` from it on, leaving sixteen units for the
/// uniform bias that keeps every probability positive.
pub const DEL: Prob = 32767 - 16;

/// Element `i` of the one-hot blend target for `symbol`.
pub open spec fn to_blend_elem(symbol: int, i: int) -> int {
    if i >= symbol {
        DEL as int
    } else {
        0
    }
}

/// Mask comparison: all bits set when `a >= b`, clear otherwise.
fn gte(a: Prob, b: Prob) -> (r: Prob)
    ensures
        r == if a >= b { -1i16 } else { 0i16 },
{
    if a >= b {
        -1
    } else {
        0
    }
}

/// Bitwise conjunction, used to select table entries through a mask.
fn and(a: Prob, b: Prob) -> (r: Prob)
    ensures
        b == -1i16 ==> r == a,
        b == 0i16 ==> r == 0i16,
{
    proof {
        assert(a & -1i16 == a) by (bit_vector);
        assert(a & 0i16 == 0i16) by (bit_vector);
    }
    a & b
}

/// The one-hot blend target, computed through comparison masks.
pub fn to_blend(symbol: u8) -> (r: [Prob; 16])
    requires
        symbol < 16,
    ensures
        forall|i: int| 0 <= i < 16 ==> r[i] == to_blend_elem(symbol as int, i),
{
    let mut r: [Prob; 16] = [0; 16];
    let mut i: usize = 0;
    while i < 16
        invariant
            i <= 16,
            symbol < 16,
            forall|j: int| 0 <= j < i ==> r[j] == to_blend_elem(symbol as int, j),
        decreases 16 - i,
    {
        let mask = gte(i as Prob, symbol as Prob);
        r[i] = and(DEL, mask);
        i += 1;
    }
    r
}

/// The one-hot blend target, read from a precomputed table.
pub fn to_blend_lut(symbol: u8) -> (r: [Prob; 16])
    requires
        symbol < 16,
    ensures
        forall|i: int| 0 <= i < 16 ==> r[i] == to_blend_elem(symbol as int, i),
{
    match symbol {
            0 => {
                let r: [Prob; 16] = [DEL, DEL, DEL, DEL, DEL, DEL, DEL, DEL, DEL, DEL, DEL, DEL, DEL, DEL, DEL, DEL];
                proof {
                    assert(r@ =~= seq![32751i16, 32751, 32751, 32751, 32751, 32751, 32751, 32751, 32751, 32751, 32751, 32751, 32751, 32751, 32751, 32751]);
                }
                r
            },
            1 => {
                let r: [Prob; 16] = [0, DEL, DEL, DEL, DEL, DEL, DEL, DEL, DEL, DEL, DEL, DEL, DEL, DEL, DEL, DEL];
                proof {
                    assert(r@ =~= seq![0i16, 32751, 32751, 32751, 32751, 32751, 32751, 32751, 32751, 32751, 32751, 32751, 32751, 32751, 32751, 32751]);
                }
                r
            },
            2 => {
                let r: [Prob; 16] = [0, 0, DEL, DEL, DEL, DEL, DEL, DEL, DEL, DEL, DEL, DEL, DEL, DEL, DEL, DEL];
                proof {
                    assert(r@ =~= seq![0i16, 0, 32751, 32751, 32751, 32751, 32751, 32751, 32751, 32751, 32751, 32751, 32751, 32751, 32751, 32751]);
                }
                r
            },
            3 => {
                let r: [Prob; 16] = [0, 0, 0, DEL, DEL, DEL, DEL, DEL, DEL, DEL, DEL, DEL, DEL, DEL, DEL, DEL];
                proof {
                    assert(r@ =~= seq![0i16, 0, 0, 32751, 32751, 32751, 32751, 32751, 32751, 32751, 32751, 32751, 32751, 32751, 32751, 32751]);
                }
                r
            },
            4 => {
                let r: [Prob; 16] = [0, 0, 0, 0, DEL, DEL, DEL, DEL, DEL, DEL, DEL, DEL, DEL, DEL, DEL, DEL];
                proof {
                    assert(r@ =~= seq![0i16, 0, 0, 0, 32751, 32751, 32751, 32751, 32751, 32751, 32751, 32751, 32751, 32751, 32751, 32751]);
                }
                r
            },
            5 => {
                let r: [Prob; 16] = [0, 0, 0, 0, 0, DEL, DEL, DEL, DEL, DEL, DEL, DEL, DEL, DEL, DEL, DEL];
                proof {
                    assert(r@ =~= seq![0i16, 0, 0, 0, 0, 32751, 32751, 32751, 32751, 32751, 32751, 32751, 32751, 32751, 32751, 32751]);
                }
                r
            },
            6 => {
                let r: [Prob; 16] = [0, 0, 0, 0, 0, 0, DEL, DEL, DEL, DEL, DEL, DEL, DEL, DEL, DEL, DEL];
                proof {
                    assert(r@ =~= seq![0i16, 0, 0, 0, 0, 0, 32751, 32751, 32751, 32751, 32751, 32751, 32751, 32751, 32751, 32751]);
                }
                r
            },
            7 => {
                let r: [Prob; 16] = [0, 0, 0, 0, 0, 0, 0, DEL, DEL, DEL, DEL, DEL, DEL, DEL, DEL, DEL];
                proof {
                    assert(r@ =~= seq![0i16, 0, 0, 0, 0, 0, 0, 32751, 32751, 32751, 32751, 32751, 32751, 32751, 32751, 32751]);
                }
                r
            },
            8 => {
                let r: [Prob; 16] = [0, 0, 0, 0, 0, 0, 0, 0, DEL, DEL, DEL, DEL, DEL, DEL, DEL, DEL];
                proof {
                    assert(r@ =~= seq![0i16, 0, 0, 0, 0, 0, 0, 0, 32751, 32751, 32751, 32751, 32751, 32751, 32751, 32751]);
                }
                r
            },
            9 => {
                let r: [Prob; 16] = [0, 0, 0, 0, 0, 0, 0, 0, 0, DEL, DEL, DEL, DEL, DEL, DEL, DEL];
                proof {
                    assert(r@ =~= seq![0i16, 0, 0, 0, 0, 0, 0, 0, 0, 32751, 32751, 32751, 32751, 32751, 32751, 32751]);
                }
                r
            },
            10 => {
                let r: [Prob; 16] = [0, 0, 0, 0, 0, 0, 0, 0, 0, 0, DEL, DEL, DEL, DEL, DEL, DEL];
                proof {
                    assert(r@ =~= seq![0i16, 0, 0, 0, 0, 0, 0, 0, 0, 0, 32751, 32751, 32751, 32751, 32751, 32751]);
                }
                r
            },
            11 => {
                let r: [Prob; 16] = [0, 0, 0, 0, 0, 0, 0, 0, 0, 0, 0, DEL, DEL, DEL, DEL, DEL];
                proof {
                    assert(r@ =~= seq![0i16, 0, 0, 0, 0, 0, 0, 0, 0, 0, 0, 32751, 32751, 32751, 32751, 32751]);
                }
                r
            },
            12 => {
                let r: [Prob; 16] = [0, 0, 0, 0, 0, 0, 0, 0, 0, 0, 0, 0, DEL, DEL, DEL, DEL];
                proof {
                    assert(r@ =~= seq![0i16, 0, 0, 0, 0, 0, 0, 0, 0, 0, 0, 0, 32751, 32751, 32751, 32751]);
                }
                r
            },
            13 => {
                let r: [Prob; 16] = [0, 0, 0, 0, 0, 0, 0, 0, 0, 0, 0, 0, 0, DEL, DEL, DEL];
                proof {
                    assert(r@ =~= seq![0i16, 0, 0, 0, 0, 0, 0, 0, 0, 0, 0, 0, 0, 32751, 32751, 32751]);
                }
                r
            },
            14 => {
                let r: [Prob; 16] = [0, 0, 0, 0, 0, 0, 0, 0, 0, 0, 0, 0, 0, 0, DEL, DEL];
                proof {
                    assert(r@ =~= seq![0i16, 0, 0, 0, 0, 0, 0, 0, 0, 0, 0, 0, 0, 0, 32751, 32751]);
                }
                r
            },
            _ => {
                let r: [Prob; 16] = [0, 0, 0, 0, 0, 0, 0, 0, 0, 0, 0, 0, 0, 0, 0, DEL];
                proof {
                    assert(r@ =~= seq![0i16, 0, 0, 0, 0, 0, 0, 0, 0, 0, 0, 0, 0, 0, 0, 32751]);
                }
                r
            },
    }
}

} // verus!

verus! {

/// Fixed-point scale of the geometric mixing weight.
pub const BLEND_SCALE: i32 = 32768;

/// One element of a fixed-point convex combination of a baseline value `b`
/// and a target value `t`, with a small additive bias, at weight
/// `blend / 32768`.
pub open spec fn blend_mixed(b: int, t: int, blend: int, bias: int) -> int {
    (t * blend + b * (32768 - blend) + bias) / 32768
}

/// The combination of values in [0, DEL] stays in [0, DEL]: the weights are a
/// partition of the scale and the bias contributes less than one unit.
proof fn lemma_blend_mixed_bounds(b: int, t: int, blend: int, bias: int)
    requires
        0 <= b <= DEL as int,
        0 <= t <= DEL as int,
        0 <= blend <= 32768,
        0 <= bias < 32768,
    ensures
        0 <= t * blend + b * (32768 - blend) + bias <= DEL * 32768 + 32767,
        0 <= blend_mixed(b, t, blend, bias) <= DEL as int,
{
    assert(0 <= t * blend <= DEL * blend) by (nonlinear_arith)
        requires
            0 <= t <= DEL as int && 0 <= blend,
    ;
    assert(0 <= b * (32768 - blend) <= DEL * (32768 - blend)) by (nonlinear_arith)
        requires
            0 <= b <= DEL as int && 0 <= 32768 - blend,
    ;
    assert(DEL * blend + DEL * (32768 - blend) == DEL * 32768) by (nonlinear_arith);
    vstd::arithmetic::div_mod::lemma_div_is_ordered(
        t * blend + b * (32768 - blend) + bias,
        DEL * 32768 + 32767,
        32768,
    );
    assert((DEL * 32768 + 32767) / 32768 == DEL as int);
    vstd::arithmetic::div_mod::lemma_div_pos_is_pos(t * blend + b * (32768 - blend) + bias, 32768);
}

/// Raising both inputs of the combination never lowers its value.
proof fn lemma_blend_mixed_monotone(b1: int, b2: int, t1: int, t2: int, blend: int, bias: int)
    requires
        b1 <= b2,
        t1 <= t2,
        0 <= blend <= 32768,
    ensures
        blend_mixed(b1, t1, blend, bias) <= blend_mixed(b2, t2, blend, bias),
{
    assert(t1 * blend <= t2 * blend) by (nonlinear_arith)
        requires
            t1 <= t2 && 0 <= blend,
    ;
    assert(b1 * (32768 - blend) <= b2 * (32768 - blend)) by (nonlinear_arith)
        requires
            b1 <= b2 && 0 <= 32768 - blend,
    ;
    vstd::arithmetic::div_mod::lemma_div_is_ordered(
        t1 * blend + b1 * (32768 - blend) + bias,
        t2 * blend + b2 * (32768 - blend) + bias,
        32768,
    );
}

/// Blend a cumulative table toward the one-hot target of `symbol` with
/// fixed-point weight `blend / 32768`, adding `bias` to every slot before the
/// scale is divided out.
pub fn mul_blend(baseline: [Prob; 16], symbol: u8, blend: i32, bias: i32) -> (r: [Prob; 16])
    requires
        symbol < 16,
        0 <= blend <= 32768,
        0 <= bias < 32768,
        forall|i: int| 0 <= i < 16 ==> 0 <= #[trigger] baseline[i] <= DEL,
    ensures
        forall|i: int|
            0 <= i < 16 ==> #[trigger] r[i] == blend_mixed(
                baseline[i] as int,
                to_blend_elem(symbol as int, i),
                blend as int,
                bias as int,
            ),
        forall|i: int| 0 <= i < 16 ==> 0 <= #[trigger] r[i] <= DEL,
{
    let target = to_blend_lut(symbol);
    let scale_minus_blend: i32 = BLEND_SCALE - blend;
    let mut r: [Prob; 16] = [0; 16];
    let mut i: usize = 0;
    while i < 16
        invariant
            i <= 16,
            symbol < 16,
            0 <= blend <= 32768,
            scale_minus_blend == 32768 - blend,
            0 <= bias < 32768,
            forall|j: int| 0 <= j < 16 ==> 0 <= #[trigger] baseline[j] <= DEL,
            forall|j: int| 0 <= j < 16 ==> target[j] == to_blend_elem(symbol as int, j),
            forall|j: int|
                0 <= j < i ==> #[trigger] r[j] == blend_mixed(
                    baseline[j] as int,
                    to_blend_elem(symbol as int, j),
                    blend as int,
                    bias as int,
                ),
            forall|j: int| 0 <= j < i ==> 0 <= #[trigger] r[j] <= DEL,
        decreases 16 - i,
    {
        proof {
            lemma_blend_mixed_bounds(
                baseline[i as int] as int,
                to_blend_elem(symbol as int, i as int),
                blend as int,
                bias as int,
            );
        }
        let mut acc: i32 = (target[i] as i32) * blend;
        acc = acc + (baseline[i] as i32) * scale_minus_blend + bias;
        r[i] = (acc / 32768) as Prob;
        i += 1;
    }
    r
}

} // verus!

verus! {

/// Non-strict elementwise ordering of a sixteen-entry table.
pub open spec fn sorted16(c: [Prob; 16]) -> bool {
    forall|i: int| 0 < i < 16 ==> c[i - 1] <= #[trigger] c[i]
}

/// Ordering across any gap of a sorted table.
pub proof fn lemma_sorted16_le(c: [Prob; 16], i: int, j: int)
    requires
        sorted16(c),
        0 <= i <= j < 16,
    ensures
        c[i] <= c[j],
    decreases j - i,
{
    if i < j {
        lemma_sorted16_le(c, i, j - 1);
    }
}

/// The additive bias a blend step derives from its sample count: the low
/// nibble of the count, scaled into fixed point.
pub open spec fn blend_bias(count: i32) -> int {
    (count & 15) * 2048
}

/// The low nibble of any value lies below sixteen.
proof fn lemma_low_nibble_bound(x: i32)
    ensures
        0 <= (x & 15) < 16,
{
    assert(0 <= (x & 15) && (x & 15) < 16) by (bit_vector);
}

/// Element `i` of the mixed table before the warm-up kick.
pub open spec fn blend_mixed_elem(c: [Prob; 16], symbol: int, mix: int, bias: int, i: int) -> int {
    blend_mixed(c[i] as int, to_blend_elem(symbol, i), mix, bias)
}

/// Whether the distribution is still so close to uniform that the warm-up
/// kick applies after mixing.
pub open spec fn blend_kick(m15: int) -> bool {
    m15 < (32767 - 16) - m15 / 2
}

/// Element `i` of the table after one full blend step.
pub open spec fn blend_new_elem(c: [Prob; 16], symbol: int, mix: int, bias: int, i: int) -> int {
    let m = blend_mixed_elem(c, symbol, mix, bias, i);
    if blend_kick(blend_mixed_elem(c, symbol, mix, bias, 15)) {
        m + m / 2
    } else {
        m
    }
}

/// A sixteen-symbol table blended geometrically toward each observed symbol.
/// The final bucket is implicit: reads normalize against `CDF_MAX` by
/// distributing the remaining mass uniformly, so the bias term
/// `CDF_MAX - cdf[15]` never falls below sixteen.
#[derive(Clone, Copy)]
pub struct BlendCDF16 {
    pub cdf: [Prob; 16],
    pub mix_rate: i32,
    pub count: i32,
}

impl BlendCDF16 {
    /// Entries stay in [0, CDF_MAX - 16], never decrease, and the mixing
    /// weight stays in its decaying range.
    pub open spec fn wf(&self) -> bool {
        &&& forall|i: int| 0 <= i < 16 ==> 0 <= #[trigger] self.cdf[i] <= DEL
        &&& sorted16(self.cdf)
        &&& 1 <= self.mix_rate <= 1536
    }

    /// The cumulative value reads add the latent uniform bias, so the table
    /// reports as normalized to `CDF_MAX`.
    pub open spec fn spec_cdf(&self, symbol: int) -> int {
        if symbol == 15 {
            32767
        } else {
            self.cdf[symbol] + ((32767 - self.cdf[15]) * (symbol + 1)) / 16
        }
    }

    pub open spec fn spec_pdf(&self, symbol: int) -> int {
        if symbol == 0 {
            self.spec_cdf(0)
        } else {
            self.spec_cdf(symbol) - self.spec_cdf(symbol - 1)
        }
    }

    pub fn num_symbols() -> (r: u8)
        ensures
            r == 16,
    {
        16
    }

    pub fn max(&self) -> (r: Prob)
        ensures
            r == CDF_MAX,
    {
        CDF_MAX
    }

    pub fn log_max(&self) -> (r: Option<i8>)
        ensures
            r == Some(15i8),
    {
        Some(15)
    }

    /// True once any mass has moved off the all-zero start.
    pub fn used(&self) -> (r: bool)
        ensures
            r == exists|i: int| 0 <= i < 16 && self.cdf[i] > 0,
    {
        let mut i: usize = 0;
        while i < 16
            invariant
                i <= 16,
                forall|j: int| 0 <= j < i ==> self.cdf[j] <= 0,
            decreases 16 - i,
        {
            if self.cdf[i] > 0 {
                return true;
            }
            i += 1;
        }
        false
    }

    /// True when every entry lies in [0, CDF_MAX].
    pub fn valid(&self) -> (r: bool)
        ensures
            r == forall|i: int| 0 <= i < 16 ==> 0 <= #[trigger] self.cdf[i] <= CDF_MAX,
    {
        let mut i: usize = 0;
        while i < 16
            invariant
                i <= 16,
                forall|j: int| 0 <= j < i ==> 0 <= #[trigger] self.cdf[j] <= CDF_MAX,
            decreases 16 - i,
        {
            if self.cdf[i] < 0 || !(self.cdf[i] <= CDF_MAX) {
                return false;
            }
            i += 1;
        }
        true
    }

    pub fn cdf(&self, symbol: u8) -> (r: Prob)
        requires
            symbol < 16,
            self.wf(),
        ensures
            r == self.spec_cdf(symbol as int),
            0 <= r <= CDF_MAX,
    {
        if symbol == 15 {
            self.max()
        } else {
            let bias: Prob = CDF_MAX - self.cdf[15];
            proof {
                lemma_sorted16_le(self.cdf, symbol as int, 15);
                lemma_blend_bias_term_bounds(bias as int, symbol as int);
            }
            let scaled: i32 = (bias as i32) * ((symbol + 1) as i32);
            self.cdf[symbol as usize] + ((scaled / 16) as Prob)
        }
    }

    pub fn pdf(&self, symbol: u8) -> (r: Prob)
        requires
            symbol < 16,
            self.wf(),
        ensures
            r == self.spec_pdf(symbol as int),
    {
        if symbol == 0 {
            self.cdf(symbol)
        } else {
            self.cdf(symbol) - self.cdf(symbol - 1)
        }
    }
}

/// The distributed bias share of one symbol never exceeds the whole bias and
/// scales monotonically with the symbol index.
proof fn lemma_blend_bias_term_bounds(bias: int, s: int)
    requires
        16 <= bias <= 32767,
        0 <= s < 15,
    ensures
        1 <= (bias * (s + 1)) / 16,
        (bias * (s + 1)) / 16 <= bias,
        s > 0 ==> (bias * s) / 16 <= (bias * (s + 1)) / 16,
{
    assert(bias <= bias * (s + 1) && bias * (s + 1) <= bias * 16) by (nonlinear_arith)
        requires
            bias >= 0 && 1 <= s + 1 <= 16,
    ;
    vstd::arithmetic::div_mod::lemma_div_is_ordered(bias, bias * (s + 1), 16);
    vstd::arithmetic::div_mod::lemma_div_is_ordered(bias * (s + 1), bias * 16, 16);
    assert((bias * 16) / 16 == bias) by (nonlinear_arith);
    if s > 0 {
        assert(bias * s <= bias * (s + 1)) by (nonlinear_arith)
            requires
                bias >= 0 && s >= 0,
        ;
        vstd::arithmetic::div_mod::lemma_div_is_ordered(bias * s, bias * (s + 1), 16);
    }
}

impl Default for BlendCDF16 {
    /// All mass latent in the uniform bias; mixing weight at its start.
    fn default() -> (ret: Self)
        ensures
            forall|i: int| 0 <= i < 16 ==> ret.cdf[i] == 0,
            ret.mix_rate == 1536,
            ret.count == 0,
            ret.wf(),
    {
        BlendCDF16 { cdf: [0; 16], mix_rate: 1024 + 512, count: 0 }
    }
}

impl BlendCDF16 {
    /// Observe one symbol: mix the table toward the symbol's one-hot target
    /// at the current geometric weight, decay that weight by 1/128, and while
    /// the table is still near-uniform give it a half-again kick off the
    /// start. The speed parameter does not influence this policy.
    #[verifier::rlimit(80)]
    pub fn blend(&mut self, symbol: u8, _speed: Speed)
        requires
            symbol < 16,
            old(self).wf(),
        ensures
            final(self).wf(),
            final(self).count == old(self).count.wrapping_add(1i32),
            final(self).mix_rate == old(self).mix_rate - old(self).mix_rate / 128,
            forall|i: int|
                0 <= i < 16 ==> final(self).cdf[i] == blend_new_elem(
                    old(self).cdf,
                    symbol as int,
                    old(self).mix_rate as int,
                    blend_bias(old(self).count.wrapping_add(1i32)),
                    i,
                ),
    {
        self.count = self.count.wrapping_add(1);
        let nib: i32 = self.count & 15;
        proof {
            lemma_low_nibble_bound(self.count);
        }
        let bias: i32 = nib * 2048;
        let ghost c0 = self.cdf;
        let ghost mix = self.mix_rate as int;
        self.cdf = mul_blend(self.cdf, symbol, self.mix_rate, bias);
        proof {
            assert forall|i: int| 0 < i < 16 implies self.cdf[i - 1] <= #[trigger] self.cdf[i] by {
                lemma_blend_mixed_monotone(
                    c0[i - 1] as int,
                    c0[i] as int,
                    to_blend_elem(symbol as int, i - 1),
                    to_blend_elem(symbol as int, i),
                    mix,
                    bias as int,
                );
            }
        }
        self.mix_rate = self.mix_rate - self.mix_rate / 128;
        let ghost mid = self.cdf;
        proof {
            assert(forall|i: int|
                0 <= i < 16 ==> #[trigger] mid[i] == blend_mixed_elem(
                    c0,
                    symbol as int,
                    mix,
                    bias as int,
                    i,
                ));
        }
        if self.cdf[15] < (CDF_MAX - 16) - self.cdf[15] / 2 {
            assert(blend_kick(blend_mixed_elem(c0, symbol as int, mix, bias as int, 15)));
            let mut i: usize = 0;
            while i < 16
                invariant
                    i <= 16,
                    self.count == old(self).count.wrapping_add(1i32),
                    self.mix_rate == old(self).mix_rate - old(self).mix_rate / 128,
                    1 <= self.mix_rate <= 1536,
                    sorted16(mid),
                    forall|j: int| 0 <= j < 16 ==> 0 <= #[trigger] mid[j] <= DEL,
                    mid[15] < (32767 - 16) - mid[15] / 2,
                    forall|j: int| 0 <= j < i ==> self.cdf[j] == mid[j] + mid[j] / 2,
                    forall|j: int| i <= j < 16 ==> self.cdf[j] == mid[j],
                decreases 16 - i,
            {
                proof {
                    lemma_sorted16_le(mid, i as int, 15);
                }
                self.cdf[i] = self.cdf[i] + self.cdf[i] / 2;
                i += 1;
            }
            proof {
                assert forall|j: int| 0 < j < 16 implies self.cdf[j - 1] <= #[trigger] self.cdf[j] by {
                    lemma_sorted16_le(mid, j - 1, j);
                }
                assert forall|j: int| 0 <= j < 16 implies 0 <= #[trigger] self.cdf[j] <= DEL by {
                    lemma_sorted16_le(mid, j, 15);
                }
                assert(forall|i: int|
                    0 <= i < 16 ==> final(self).cdf[i] == blend_new_elem(
                        c0,
                        symbol as int,
                        mix,
                        bias as int,
                        i,
                    ));
            }
        } else {
            proof {
                assert(!blend_kick(blend_mixed_elem(c0, symbol as int, mix, bias as int, 15)));
                assert(forall|i: int|
                    0 <= i < 16 ==> final(self).cdf[i] == blend_new_elem(
                        c0,
                        symbol as int,
                        mix,
                        bias as int,
                        i,
                    ));
            }
        }
    }
}

/// Cumulative reads of a well-formed blended table never decrease and never
/// pass the maximum.
pub proof fn lemma_blend_cdf_monotone(c: BlendCDF16, s: int)
    requires
        c.wf(),
        0 <= s < 15,
    ensures
        c.spec_cdf(s) <= c.spec_cdf(s + 1),
        c.spec_cdf(s + 1) <= 32767,
{
    let bias = 32767 - c.cdf[15] as int;
    lemma_sorted16_le(c.cdf, s, 15);
    lemma_blend_bias_term_bounds(bias, s);
    if s + 1 < 15 {
        lemma_sorted16_le(c.cdf, s, s + 1);
        lemma_sorted16_le(c.cdf, s + 1, 15);
        lemma_blend_bias_term_bounds(bias, s + 1);
    }
}

/// Every symbol of a well-formed blended table keeps strictly positive
/// probability, whatever finite sequence of blends produced it: the bias
/// term contributes at least one unit to every bucket.
pub proof fn lemma_blend_pdf_positive(c: BlendCDF16, s: int)
    requires
        c.wf(),
        0 <= s < 16,
    ensures
        c.spec_pdf(s) > 0,
{
    let bias = 32767 - c.cdf[15] as int;
    assert(16 <= bias <= 32767);
    if s == 0 {
        lemma_blend_bias_term_bounds(bias, 0);
    } else if s < 15 {
        lemma_sorted16_le(c.cdf, s - 1, s);
        lemma_div_superadditive(bias * s, bias, 16);
        assert(bias * s + bias == bias * (s + 1)) by (nonlinear_arith);
        assert(bias / 16 >= 1);
    } else {
        lemma_sorted16_le(c.cdf, 14, 15);
        lemma_blend_bias_term_bounds(bias, 14);
        assert((bias * 15) / 16 <= bias - 1) by {
            assert(16 * (bias - 1) >= bias * 15) by (nonlinear_arith)
                requires
                    bias >= 16,
            ;
            vstd::arithmetic::div_mod::lemma_div_is_ordered(bias * 15, 16 * (bias - 1), 16);
            assert((16 * (bias - 1)) / 16 == bias - 1) by (nonlinear_arith);
        }
    }
}

/// Floors split across a sum lose at most the fractional parts: the floor of
/// the sum dominates the sum of the floors.
proof fn lemma_div_superadditive(x: int, y: int, d: int)
    requires
        d > 0,
        x >= 0,
        y >= 0,
    ensures
        x / d + y / d <= (x + y) / d,
{
    let q = x / d + y / d;
    vstd::arithmetic::div_mod::lemma_fundamental_div_mod(x, d);
    vstd::arithmetic::div_mod::lemma_fundamental_div_mod(y, d);
    assert(q * d <= x + y) by (nonlinear_arith)
        requires
            x == d * (x / d) + x % d && y == d * (y / d) + y % d && x % d >= 0 && y % d >= 0
                && q == x / d + y / d,
    ;
    vstd::arithmetic::div_mod::lemma_div_is_ordered(q * d, x + y, d);
    vstd::arithmetic::div_mod::lemma_div_by_multiple(q, d);
}

} // verus!

verus! {

/// A one-shot distribution seeded from an externally supplied probability:
/// all the mass sits on one nibble and the remainder spreads evenly. Immutable
/// under blending.
#[derive(Clone, Copy)]
pub struct ExternalProbCDF16 {
    pub cdf: [Prob; 16],
    pub nibble: usize,
    pub maxp: Prob,
}

impl Default for ExternalProbCDF16 {
    /// An unseeded table normalized to the full fifteen-bit range.
    fn default() -> (ret: Self)
        ensures
            forall|i: int| 0 <= i < 16 ==> ret.cdf[i] == 0,
            ret.nibble == 0,
            ret.maxp == 32767,
    {
        ExternalProbCDF16 { cdf: [0, 0, 0, 0, 0, 0, 0, 0, 0, 0, 0, 0, 0, 0, 0, 0], nibble: 0, maxp: 32767 }
    }
}

impl ExternalProbCDF16 {
    /// Seed the table: the scaled probability `r` lands on `nibble` and the
    /// leftover mass spreads evenly over the other slots. The scaling of the
    /// external probability into `r` happens outside the library.
    pub fn init(&mut self, nibble: u8, r: Prob)
        requires
            nibble < 16,
            0 <= r <= old(self).maxp,
        ensures
            final(self).nibble == nibble as usize,
            final(self).maxp == old(self).maxp,
            final(self).cdf[nibble as int] == r,
            forall|j: int|
                0 <= j < 16 && j != nibble as int ==> final(self).cdf[j] == (old(self).maxp - r)
                    / 15,
    {
        self.nibble = nibble as usize;
        let fill: Prob = (self.maxp - r) / 15;
        let mut i: usize = 0;
        while i < 16
            invariant
                i <= 16,
                self.nibble == nibble as usize,
                self.maxp == old(self).maxp,
                forall|j: int| 0 <= j < i ==> self.cdf[j] == fill,
            decreases 16 - i,
        {
            self.cdf[i] = fill;
            i += 1;
        }
        self.cdf[nibble as usize] = r;
    }

    pub fn num_symbols() -> (ret: u8)
        ensures
            ret == 16,
    {
        16
    }

    pub fn max(&self) -> (r: Prob)
        ensures
            r == self.maxp,
    {
        self.maxp
    }

    pub fn log_max(&self) -> (r: Option<i8>)
        ensures
            r is None,
    {
        None
    }

    /// The table answers only for the nibble it was seeded with.
    pub fn cdf(&self, symbol: u8) -> (r: Prob)
        requires
            symbol < 16,
            symbol as usize == self.nibble,
        ensures
            r == self.cdf[symbol as int],
    {
        self.cdf[symbol as usize]
    }

    pub fn valid(&self) -> (r: bool)
        ensures
            r == true,
    {
        true
    }

    /// Externally seeded tables do not adapt.
    pub fn blend(&mut self, _symbol: u8, _speed: Speed)
        ensures
            final(self).cdf == old(self).cdf,
            final(self).nibble == old(self).nibble,
            final(self).maxp == old(self).maxp,
    {
    }
}

} // verus!
