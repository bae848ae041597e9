//! The most prominent colour of a frame.
//!
//! Pixels are sampled at a fixed distance, converted to hue, saturation and
//! lightness, and counted in a grid of buckets. The colour reported for the
//! frame is the lower corner of the bucket whose count was the first to reach
//! the highest count of all.

use vstd::prelude::*;
use vstd::arithmetic::div_mod::{lemma_fundamental_div_mod, lemma_fundamental_div_mod_converse};
use colors_transform::Rgb;
use crate::frame::{ColorLayout, FrameCopy, BYTES_PER_PIXEL};
use crate::single::{less_than, spec_less_than, spec_truncate, truncate};

verus! {

/// Number of hue buckets.
pub const HUE_BUCKETS: u32 = 37;

/// Number of saturation buckets.
pub const SATURATION_BUCKETS: u32 = 21;

/// Number of lightness buckets.
pub const LIGHTNESS_BUCKETS: u32 = 21;

/// Degrees of hue per bucket.
pub const HUE_WIDTH: u32 = 10;

/// Percent of saturation per bucket.
pub const SATURATION_WIDTH: u32 = 5;

/// Percent of lightness per bucket.
pub const LIGHTNESS_WIDTH: u32 = 5;

/// Number of cells in the grid of buckets.
pub const CELLS: usize = 16317;

/// Bit pattern of the single-precision value nearest to fifteen hundredths:
/// samples with a lightness under it are too dark to count.
pub const LIGHTNESS_MIN: u32 = 0x3e19_999a;

/// Bit pattern of the single-precision value nearest to fifteen hundredths:
/// samples with a saturation under it are too grey to count.
pub const SATURATION_MIN: u32 = 0x3e19_999a;

/// Pixels passed over between two samples.
pub const SKIP_PIXEL: usize = 16;

/// A colour by hue in degrees and saturation and lightness in percent.
#[derive(Clone, Copy, Debug, PartialEq, Eq, Structural)]
pub struct Color {
    pub hue: u32,
    pub saturation: u32,
    pub lightness: u32,
}

/// One cell of the grid, by its index along each axis.
#[derive(Clone, Copy, Debug, PartialEq, Eq, Structural)]
pub struct Bucket {
    pub hue: u32,
    pub saturation: u32,
    pub lightness: u32,
}

impl Color {
    /// The colour reported when no sample counts.
    pub open spec fn spec_neutral() -> Color {
        Color { hue: 0, saturation: 0, lightness: 0 }
    }

    /// Whether the three coordinates lie within their scales.
    pub open spec fn well_formed(self) -> bool {
        self.hue <= 360 && self.saturation <= 100 && self.lightness <= 100
    }

    /// The colour reported when no sample counts: hue, saturation and
    /// lightness all zero.
    pub fn neutral() -> (color: Color)
        ensures
            color == Self::spec_neutral(),
    {
        Color { hue: 0, saturation: 0, lightness: 0 }
    }
}

impl Bucket {
    /// Whether the bucket is a cell of the grid.
    pub open spec fn in_range(self) -> bool {
        self.hue < HUE_BUCKETS && self.saturation < SATURATION_BUCKETS && self.lightness
            < LIGHTNESS_BUCKETS
    }

    /// The colour a bucket stands for: the lowest hue, saturation and
    /// lightness that fall into it.
    pub open spec fn spec_representative(self) -> Color {
        Color {
            hue: (self.hue * HUE_WIDTH) as u32,
            saturation: (self.saturation * SATURATION_WIDTH) as u32,
            lightness: (self.lightness * LIGHTNESS_WIDTH) as u32,
        }
    }

    /// Position of the bucket's count in the grid laid out row by row.
    pub open spec fn cell(self) -> int {
        (self.hue * SATURATION_BUCKETS + self.saturation) * LIGHTNESS_BUCKETS + self.lightness
    }

    /// The colour a bucket stands for: the lowest hue, saturation and
    /// lightness that fall into it.
    pub fn representative(self) -> (color: Color)
        requires
            self.in_range(),
        ensures
            color == self.spec_representative(),
            color.well_formed(),
    {
        Color {
            hue: self.hue * HUE_WIDTH,
            saturation: self.saturation * SATURATION_WIDTH,
            lightness: self.lightness * LIGHTNESS_WIDTH,
        }
    }
}

/// Hue, saturation and lightness of the colour with red `r`, green `g` and
/// blue `b`, each as the bit pattern of a single-precision value.
pub uninterp spec fn hsl_of_rgb(r: u8, g: u8, b: u8) -> (u32, u32, u32);

/// Converts one pixel with `colors_transform`: `Rgb::from` on the three
/// channels, `to_hsl`, and the three getters of the result. The contract
/// claims only that the three bit patterns are a function of the three
/// channels; what the patterns are is not stated.
#[verifier::external_body]
fn rgb_to_hsl(r: u8, g: u8, b: u8) -> (hsl: (u32, u32, u32))
    ensures
        hsl == hsl_of_rgb(r, g, b),
{
    let hsl = colors_transform::Color::to_hsl(&Rgb::from(r.into(), g.into(), b.into()));
    (
        colors_transform::Color::get_hue(&hsl).to_bits(),
        colors_transform::Color::get_saturation(&hsl).to_bits(),
        colors_transform::Color::get_lightness(&hsl).to_bits(),
    )
}

/// Whether a sample is too dark or too grey to count: its lightness or its
/// saturation is under the minimum.
pub open spec fn too_dull(saturation: u32, lightness: u32) -> bool {
    spec_less_than(lightness, LIGHTNESS_MIN) || spec_less_than(saturation, SATURATION_MIN)
}

/// The bucket that a sample with the given hue, saturation and lightness
/// counts for. A sample counts for none when its lightness or its saturation
/// is under the minimum, or when it falls outside the grid.
pub open spec fn spec_quantize(hue: u32, saturation: u32, lightness: u32) -> Option<Bucket> {
    let h = spec_truncate(hue) / (HUE_WIDTH as nat);
    let s = spec_truncate(saturation) / (SATURATION_WIDTH as nat);
    let l = spec_truncate(lightness) / (LIGHTNESS_WIDTH as nat);
    if too_dull(saturation, lightness) {
        None
    } else if h < HUE_BUCKETS && s < SATURATION_BUCKETS && l < LIGHTNESS_BUCKETS {
        Some(Bucket { hue: h as u32, saturation: s as u32, lightness: l as u32 })
    } else {
        None
    }
}

/// Decides which bucket a converted sample counts for, if any. The three
/// arguments are the bit patterns of its hue in degrees and of its saturation
/// and lightness in percent.
pub fn quantize(hue: u32, saturation: u32, lightness: u32) -> (bucket: Option<Bucket>)
    ensures
        bucket == spec_quantize(hue, saturation, lightness),
        bucket matches Some(b) ==> b.in_range(),
{
    if less_than(lightness, LIGHTNESS_MIN) || less_than(saturation, SATURATION_MIN) {
        return None;
    }
    let h: u64 = truncate(hue) / HUE_WIDTH as u64;
    let s: u64 = truncate(saturation) / SATURATION_WIDTH as u64;
    let l: u64 = truncate(lightness) / LIGHTNESS_WIDTH as u64;
    if h < HUE_BUCKETS as u64 && s < SATURATION_BUCKETS as u64 && l < LIGHTNESS_BUCKETS as u64 {
        Some(Bucket { hue: h as u32, saturation: s as u32, lightness: l as u32 })
    } else {
        None
    }
}

/// How many of the first `n` samples count for bucket `b`.
pub open spec fn occurrences(samples: Seq<Option<Bucket>>, n: int, b: Bucket) -> nat
    decreases n,
{
    if n <= 0 {
        0
    } else {
        occurrences(samples, n - 1, b) + if samples[n - 1] == Some(b) {
            1nat
        } else {
            0nat
        }
    }
}

/// Whether sample `i` counts for bucket `b` and is the one with which a
/// count first reaches the highest count that any bucket has in the end.
pub open spec fn first_to_peak(samples: Seq<Option<Bucket>>, b: Bucket, i: int) -> bool {
    &&& 0 <= i < samples.len()
    &&& samples[i] == Some(b)
    &&& forall|c: Bucket| #[trigger]
        occurrences(samples, samples.len() as int, c) <= occurrences(samples, i + 1, b)
    &&& forall|j: int, c: Bucket|
        0 <= j <= i ==> #[trigger] occurrences(samples, j, c) < occurrences(samples, i + 1, b)
}

/// Whether `color` is the prominent colour of the samples: the neutral colour
/// when no sample counts, otherwise the representative of the bucket that was
/// first to reach the highest count.
pub open spec fn is_prominent(samples: Seq<Option<Bucket>>, color: Color) -> bool {
    ||| color == Color::spec_neutral() && forall|i: int|
        0 <= i < samples.len() ==> samples[i] is None
    ||| exists|b: Bucket, i: int| #[trigger]
        first_to_peak(samples, b, i) && color == b.spec_representative()
}

/// A count never exceeds the number of samples counted.
pub proof fn lemma_occurrences_bounded(samples: Seq<Option<Bucket>>, n: int, b: Bucket)
    requires
        0 <= n,
    ensures
        occurrences(samples, n, b) <= n,
    decreases n,
{
    if n > 0 {
        lemma_occurrences_bounded(samples, n - 1, b);
    }
}

/// A count does not fall as more samples are counted.
pub proof fn lemma_occurrences_monotonic(samples: Seq<Option<Bucket>>, m: int, n: int, b: Bucket)
    requires
        m <= n,
    ensures
        occurrences(samples, m, b) <= occurrences(samples, n, b),
    decreases n - m,
{
    if m < n {
        lemma_occurrences_monotonic(samples, m, n - 1, b);
    }
}

/// A count depends only on the samples counted.
pub proof fn lemma_occurrences_prefix(
    s: Seq<Option<Bucket>>,
    t: Seq<Option<Bucket>>,
    n: int,
    b: Bucket,
)
    requires
        forall|i: int| 0 <= i < n ==> s[i] == t[i],
    ensures
        occurrences(s, n, b) == occurrences(t, n, b),
    decreases n,
{
    if n > 0 {
        lemma_occurrences_prefix(s, t, n - 1, b);
    }
}

/// One more sample raises the count of the bucket it counts for by one and
/// leaves every other count as it was.
pub proof fn lemma_occurrences_push(samples: Seq<Option<Bucket>>, sample: Option<Bucket>, b: Bucket)
    ensures
        occurrences(samples.push(sample), samples.len() as int + 1, b) == occurrences(
            samples,
            samples.len() as int,
            b,
        ) + if sample == Some(b) {
            1nat
        } else {
            0nat
        },
{
    lemma_occurrences_prefix(samples.push(sample), samples, samples.len() as int, b);
}

/// Where no sample counts, every count is zero.
pub proof fn lemma_occurrences_none(samples: Seq<Option<Bucket>>, n: int, b: Bucket)
    requires
        n <= samples.len(),
        forall|i: int| 0 <= i < n ==> samples[i] is None,
    ensures
        occurrences(samples, n, b) == 0,
    decreases n,
{
    if n > 0 {
        lemma_occurrences_none(samples, n - 1, b);
    }
}

/// The counts of two different buckets together do not exceed the number of
/// samples counted.
pub proof fn lemma_occurrences_disjoint(samples: Seq<Option<Bucket>>, n: int, b: Bucket, c: Bucket)
    requires
        0 <= n,
        b != c,
    ensures
        occurrences(samples, n, b) + occurrences(samples, n, c) <= n,
    decreases n,
{
    if n > 0 {
        lemma_occurrences_disjoint(samples, n - 1, b, c);
    }
}

/// The samples have at most one prominent colour.
pub proof fn lemma_prominent_unique(samples: Seq<Option<Bucket>>, first: Color, second: Color)
    requires
        is_prominent(samples, first),
        is_prominent(samples, second),
    ensures
        first == second,
{
    let n = samples.len() as int;
    if exists|b: Bucket, i: int| #[trigger]
        first_to_peak(samples, b, i) && first == b.spec_representative() {
        // A sample counts, so both colours come from a bucket. The count that
        // either bucket had when it took the lead bounds the other, so the
        // two are equal, and neither lead can have come before the other.
        let (b1, i1) = choose|b: Bucket, i: int| #[trigger]
            first_to_peak(samples, b, i) && first == b.spec_representative();
        let (b2, i2) = choose|b: Bucket, i: int| #[trigger]
            first_to_peak(samples, b, i) && second == b.spec_representative();
        lemma_occurrences_monotonic(samples, i1 + 1, n, b1);
        lemma_occurrences_monotonic(samples, i2 + 1, n, b2);
    }
}

/// A frame whose samples are all too dark or too grey has the neutral colour
/// as its prominent colour.
pub proof fn lemma_nothing_counted_is_neutral(samples: Seq<Option<Bucket>>, color: Color)
    requires
        is_prominent(samples, color),
        forall|i: int| 0 <= i < samples.len() ==> samples[i] is None,
    ensures
        color == Color::spec_neutral(),
{
}

/// A bucket that more than half of the samples count for gives the prominent
/// colour: its own representative, not the colour of any sample.
pub proof fn lemma_majority_is_prominent(samples: Seq<Option<Bucket>>, b: Bucket, color: Color)
    requires
        is_prominent(samples, color),
        2 * occurrences(samples, samples.len() as int, b) > samples.len(),
    ensures
        color == b.spec_representative(),
{
    let n = samples.len() as int;
    if forall|i: int| 0 <= i < samples.len() ==> samples[i] is None {
        lemma_occurrences_none(samples, n, b);
    } else {
        // The leader ends with at least the count of `b`; two buckets cannot
        // both hold more than half of the samples.
        let (w, i) = choose|w: Bucket, i: int| #[trigger]
            first_to_peak(samples, w, i) && color == w.spec_representative();
        lemma_occurrences_monotonic(samples, i + 1, n, w);
        if w != b {
            lemma_occurrences_disjoint(samples, n, b, w);
        }
    }
}

/// The counts of a frame's samples, bucket by bucket, together with the
/// bucket that leads.
pub struct Heatmap {
    counts: Vec<usize>,
    peak: usize,
    leader: Option<Bucket>,
    samples: Ghost<Seq<Option<Bucket>>>,
    leader_at: Ghost<int>,
}

impl View for Heatmap {
    type V = Seq<Option<Bucket>>;

    /// The samples recorded so far, in the order they came.
    closed spec fn view(&self) -> Seq<Option<Bucket>> {
        self.samples@
    }
}

impl Heatmap {
    /// The counts agree with the samples recorded, and the leader is the
    /// bucket that was first to reach the highest count.
    pub closed spec fn well_formed(&self) -> bool {
        let s = self.samples@;
        let n = s.len() as int;
        &&& self.counts@.len() == CELLS
        &&& forall|b: Bucket|
            b.in_range() ==> self.counts@[b.cell()] == #[trigger] occurrences(s, n, b)
        &&& forall|c: Bucket| #[trigger] occurrences(s, n, c) <= self.peak
        &&& match self.leader {
            None => self.peak == 0 && forall|i: int| 0 <= i < n ==> s[i] is None,
            Some(b) => b.in_range() && first_to_peak(s, b, self.leader_at@) && self.peak
                == occurrences(s, self.leader_at@ + 1, b),
        }
    }

    /// A heatmap with nothing recorded.
    pub fn new() -> (heatmap: Heatmap)
        ensures
            heatmap.well_formed(),
            heatmap@ == Seq::<Option<Bucket>>::empty(),
    {
        let mut counts: Vec<usize> = Vec::new();
        let mut i: usize = 0;
        while i < CELLS
            invariant
                i <= CELLS,
                counts@.len() == i,
                forall|j: int| 0 <= j < i ==> counts@[j] == 0,
            decreases CELLS - i,
        {
            counts.push(0);
            i = i + 1;
        }
        Heatmap {
            counts,
            peak: 0,
            leader: None,
            samples: Ghost(Seq::empty()),
            leader_at: Ghost(0),
        }
    }

    /// Records one more sample: a bucket to count for, or `None` for a sample
    /// that does not count.
    pub fn record(&mut self, sample: Option<Bucket>)
        requires
            old(self).well_formed(),
            old(self)@.len() < usize::MAX,
            sample matches Some(b) ==> b.in_range(),
        ensures
            final(self).well_formed(),
            final(self)@ == old(self)@.push(sample),
    {
        let ghost before = self.samples@;
        let ghost after = before.push(sample);
        let ghost n = before.len() as int;
        proof {
            // The sample added leaves the counts over the samples before it
            // as they were, and none of those exceeds the count over all.
            assert forall|j: int, c: Bucket| 0 <= j <= n implies #[trigger] occurrences(after, j, c)
                == occurrences(before, j, c) && occurrences(before, j, c) <= occurrences(
                before,
                n,
                c,
            ) by {
                lemma_occurrences_prefix(after, before, j, c);
                lemma_occurrences_monotonic(before, j, n, c);
            }
            assert forall|c: Bucket| #[trigger]
                occurrences(after, n + 1, c) == occurrences(before, n, c) + if sample == Some(c) {
                    1nat
                } else {
                    0nat
                } by {
                lemma_occurrences_push(before, sample, c);
            }
        }
        self.samples = Ghost(after);
        if let Some(b) = sample {
            let cell: usize = ((b.hue * SATURATION_BUCKETS + b.saturation) * LIGHTNESS_BUCKETS
                + b.lightness) as usize;
            proof {
                lemma_occurrences_bounded(before, n, b);
            }
            let count: usize = self.counts[cell] + 1;
            self.counts[cell] = count;
            if count > self.peak {
                self.peak = count;
                self.leader = Some(b);
                self.leader_at = Ghost(n);
            }
        }
    }

    /// The prominent colour of the samples recorded so far.
    pub fn prominent(&self) -> (color: Color)
        requires
            self.well_formed(),
        ensures
            is_prominent(self@, color),
            color.well_formed(),
    {
        match self.leader {
            None => Color::neutral(),
            Some(b) => b.representative(),
        }
    }
}

/// The distance in bytes from one sample to the next when `skip` pixels are
/// passed over between them.
pub open spec fn sample_stride(skip: usize) -> int {
    BYTES_PER_PIXEL * (skip + 1)
}

/// The bucket that sample `k` of the bytes counts for: its red, green and
/// blue are the first three bytes at `k` times the stride.
pub open spec fn pixel_sample(data: Seq<u8>, stride: int, k: int) -> Option<Bucket> {
    let (hue, saturation, lightness) = hsl_of_rgb(
        data[k * stride],
        data[k * stride + 1],
        data[k * stride + 2],
    );
    spec_quantize(hue, saturation, lightness)
}

/// The samples of the bytes: one for every whole stride that fits.
pub open spec fn pixel_samples(data: Seq<u8>, stride: int) -> Seq<Option<Bucket>> {
    Seq::new((data.len() as int / stride) as nat, |k: int| pixel_sample(data, stride, k))
}

/// A frame all of whose sampled pixels are too dark or too grey has the
/// neutral colour as its prominent colour.
pub proof fn lemma_dull_frame_is_neutral(data: Seq<u8>, stride: int, color: Color)
    requires
        stride > 0,
        is_prominent(pixel_samples(data, stride), color),
        forall|k: int|
            0 <= k < data.len() as int / stride ==> {
                let (hue, saturation, lightness) = #[trigger] hsl_of_rgb(
                    data[k * stride],
                    data[k * stride + 1],
                    data[k * stride + 2],
                );
                too_dull(saturation, lightness)
            },
    ensures
        color == Color::spec_neutral(),
{
    let samples = pixel_samples(data, stride);
    assert forall|k: int| 0 <= k < samples.len() implies samples[k] is None by {
        assert(samples[k] == pixel_sample(data, stride, k));
    }
}

/// The prominent colour of pixel bytes in canonical order, sampled with
/// `skip` pixels passed over between two samples. No byte beyond `data` is
/// read.
pub fn prominent_color(data: &[u8], skip: usize) -> (color: Color)
    ensures
        is_prominent(pixel_samples(data@, sample_stride(skip)), color),
        color.well_formed(),
{
    let ghost stride_full = sample_stride(skip);
    let ghost samples = pixel_samples(data@, stride_full);
    let len: usize = data.len();
    if skip >= len / BYTES_PER_PIXEL {
        proof {
            // Not even one stride fits: there is no sample.
            let n = data@.len() as int;
            assert(n / stride_full == 0) by (nonlinear_arith)
                requires
                    0 <= n < stride_full,
            ;
        }
        return Color::neutral();
    }
    let stride: usize = BYTES_PER_PIXEL * (skip + 1);
    let mut heatmap = Heatmap::new();
    let mut offset: usize = 0;
    let ghost mut k: int = 0;
    while len - offset >= stride
        invariant
            stride == stride_full,
            stride >= 4,
            len == data@.len(),
            samples == pixel_samples(data@, stride_full),
            offset <= len,
            0 <= k <= samples.len(),
            offset == k * stride,
            samples.len() == len as int / stride as int,
            heatmap.well_formed(),
            heatmap@ == samples.take(k),
        decreases len - offset,
    {
        proof {
            // A whole stride is left, so not all samples have been taken.
            assert(k < samples.len()) by {
                let q = len as int / stride as int;
                lemma_fundamental_div_mod(len as int, stride as int);
                if q <= k {
                    assert(stride * q <= k * stride) by (nonlinear_arith)
                        requires
                            q <= k,
                            stride > 0,
                    ;
                }
            }
        }
        let (hue, saturation, lightness) = rgb_to_hsl(
            data[offset],
            data[offset + 1],
            data[offset + 2],
        );
        let sample = quantize(hue, saturation, lightness);
        heatmap.record(sample);
        proof {
            assert((k + 1) * stride == k * stride + stride) by (nonlinear_arith);
            k = k + 1;
        }
        offset = offset + stride;
    }
    proof {
        // Less than a stride is left, so all samples have been taken.
        lemma_fundamental_div_mod_converse(len as int, stride as int, k, len - offset);
        assert(samples.take(k) =~= samples);
    }
    heatmap.prominent()
}

/// The prominent colour of a captured frame, sampled with the default number
/// of pixels passed over. The frame must be in canonical channel order.
pub fn determine_prominent_color(frame_copy: FrameCopy) -> (color: Color)
    requires
        frame_copy.frame_color_type == ColorLayout::Rgba8,
    ensures
        is_prominent(pixel_samples(frame_copy.frame_mmap@, sample_stride(SKIP_PIXEL)), color),
        color.well_formed(),
{
    prominent_color(frame_copy.frame_mmap, SKIP_PIXEL)
}

} // verus!
