use vstd::prelude::*;
use crate::map::{MapMeta, WorldMap};

verus! {

/// Noise samples are integers in millionths of the field's range [-1, 1].
pub const SAMPLE_ONE: i32 = 1_000_000;

/// How a continuous sample is quantized into a glyph: `cuts` are the ordered
/// cut points between bands, `glyphs` holds one glyph per band.
#[derive(Clone, Debug)]
pub struct TerrainBands {
    pub cuts: Vec<i32>,
    pub glyphs: Vec<char>,
}

/// True when every cut point is strictly below the next one.
pub open spec fn strictly_increasing(s: Seq<i32>) -> bool {
    forall|a: int, b: int| 0 <= a < b < s.len() ==> s[a] < s[b]
}

/// The band a sample falls in: how many cut points lie at or below it.
pub open spec fn band_of(cuts: Seq<i32>, v: i32) -> nat
    decreases cuts.len(),
{
    if cuts.len() == 0 {
        0
    } else {
        band_of(cuts.drop_last(), v) + if cuts.last() <= v { 1nat } else { 0nat }
    }
}

impl TerrainBands {
    /// Ordered cut points and exactly one more glyph than cut points.
    pub open spec fn wf(&self) -> bool {
        &&& strictly_increasing(self.cuts@)
        &&& self.glyphs@.len() == self.cuts@.len() + 1
    }

    /// The glyph drawn for one sample.
    pub open spec fn glyph_spec(&self, v: i32) -> char {
        self.glyphs@[band_of(self.cuts@, v) as int]
    }

    /// The characters of one row drawn from a row of samples.
    pub open spec fn row_spec(&self, samples: Seq<i32>) -> Seq<char> {
        Seq::new(samples.len(), |j: int| self.glyph_spec(samples[j]))
    }

    /// Builds a configuration, or `None` when the cut points are not strictly
    /// increasing or the glyph count is not one more than the cut count.
    pub fn new(cuts: Vec<i32>, glyphs: Vec<char>) -> (r: Option<TerrainBands>)
        ensures
            r is Some <==> (strictly_increasing(cuts@) && glyphs@.len() == cuts@.len() + 1),
            r matches Some(b) ==> b.cuts@ == cuts@ && b.glyphs@ == glyphs@ && b.wf(),
    {
        if glyphs.len() == 0 || glyphs.len() - 1 != cuts.len() {
            return None;
        }
        let n = cuts.len();
        let mut i: usize = 1;
        while i < n
            invariant
                n == cuts@.len(),
                1 <= i,
                i <= n || n == 0,
                forall|a: int, b: int| 0 <= a < b < i && b < n ==> cuts@[a] < cuts@[b],
            decreases n - i,
        {
            if cuts[i - 1] >= cuts[i] {
                return None;
            }
            i = i + 1;
        }
        Some(TerrainBands { cuts, glyphs })
    }

    /// Water below -0.2, plain up to 0.2, high ground above.
    pub fn standard() -> (r: TerrainBands)
        ensures
            r.wf(),
            r.cuts@ == seq![-200_000i32, 200_000i32],
            r.glyphs@ == seq!['~', '.', '^'],
    {
        let cuts: Vec<i32> = vec![-200_000i32, 200_000i32];
        let glyphs: Vec<char> = vec!['~', '.', '^'];
        let r = TerrainBands { cuts, glyphs };
        assert(r.cuts@ =~= seq![-200_000i32, 200_000i32]);
        assert(r.glyphs@ =~= seq!['~', '.', '^']);
        r
    }

    /// Index of the band that a sample falls in.
    pub fn band(&self, v: i32) -> (r: usize)
        requires
            self.wf(),
        ensures
            r as nat == band_of(self.cuts@, v),
            r < self.glyphs@.len(),
    {
        let n = self.cuts.len();
        let mut count: usize = 0;
        let mut k: usize = 0;
        while k < n
            invariant
                n == self.cuts@.len(),
                k <= n,
                count <= k,
                count as nat == band_of(self.cuts@.take(k as int), v),
            decreases n - k,
        {
            proof {
                assert(self.cuts@.take(k as int + 1).drop_last() =~= self.cuts@.take(k as int));
            }
            if self.cuts[k] <= v {
                count = count + 1;
            }
            k = k + 1;
        }
        proof {
            assert(self.cuts@.take(n as int) =~= self.cuts@);
        }
        count
    }

    /// The glyph drawn for one sample.
    pub fn glyph(&self, v: i32) -> (r: char)
        requires
            self.wf(),
        ensures
            r == self.glyph_spec(v),
    {
        let b = self.band(v);
        self.glyphs[b]
    }
}

/// Relies on `String::push`: appends one character at the end.
#[verifier::external_body]
fn push_char(s: &mut String, c: char)
    ensures
        final(s)@ == old(s)@.push(c),
{
    s.push(c);
}

/// A grid of samples with `height` rows of `width` samples each.
pub open spec fn grid_shaped(samples: Seq<Vec<i32>>, width: usize, height: usize) -> bool {
    &&& samples.len() == height
    &&& forall|i: int| 0 <= i < height ==> #[trigger] samples[i]@.len() == width
}

/// What generating from a sample grid yields: the declared size, and each
/// row drawn glyph by glyph from the matching row of samples.
pub open spec fn generated_from(
    m: WorldMap,
    width: usize,
    height: usize,
    samples: Seq<Vec<i32>>,
    bands: TerrainBands,
) -> bool {
    &&& m.meta == MapMeta { height, width }
    &&& m.map@.len() == height
    &&& forall|i: int| 0 <= i < height ==> #[trigger] m.map@[i]@ == bands.row_spec(samples[i]@)
}

/// Draws one row of glyphs from a row of samples.
pub fn render_row(samples: &Vec<i32>, bands: &TerrainBands) -> (r: String)
    requires
        bands.wf(),
    ensures
        r@ == bands.row_spec(samples@),
{
    let mut row = String::new();
    let n = samples.len();
    let mut j: usize = 0;
    while j < n
        invariant
            bands.wf(),
            n == samples@.len(),
            j <= n,
            row@ == bands.row_spec(samples@.take(j as int)),
        decreases n - j,
    {
        let c = bands.glyph(samples[j]);
        push_char(&mut row, c);
        j = j + 1;
        assert(row@ =~= bands.row_spec(samples@.take(j as int)));
    }
    assert(samples@.take(n as int) =~= samples@);
    row
}

/// Quantizes a `height` x `width` grid of noise samples into a map, sample
/// `(i, j)` giving column `j` of row `i`. A zero size gives an empty map.
pub fn generate(width: usize, height: usize, samples: &Vec<Vec<i32>>, bands: &TerrainBands) -> (r: WorldMap)
    requires
        bands.wf(),
        grid_shaped(samples@, width, height),
    ensures
        generated_from(r, width, height, samples@, *bands),
        r.wf(),
{
    let mut rows: Vec<String> = Vec::new();
    let mut i: usize = 0;
    while i < height
        invariant
            bands.wf(),
            grid_shaped(samples@, width, height),
            i <= height,
            rows@.len() == i,
            forall|k: int| 0 <= k < i ==> #[trigger] rows@[k]@ == bands.row_spec(samples@[k]@),
        decreases height - i,
    {
        let row = render_row(&samples[i], bands);
        rows.push(row);
        i = i + 1;
    }
    let r = WorldMap { map: rows, meta: MapMeta { height, width } };
    assert forall|k: int| 0 <= k < r.map@.len() implies #[trigger] r.map@[k]@.len() == r.meta.width by {
        assert(r.map@[k]@ == bands.row_spec(samples@[k]@));
        assert(samples@[k]@.len() == width);
    }
    r
}

/// Two generations from the same size, samples and bands give the same
/// rows, character for character, and the same size.
pub proof fn lemma_generate_deterministic(
    m1: WorldMap,
    m2: WorldMap,
    width: usize,
    height: usize,
    samples: Seq<Vec<i32>>,
    bands: TerrainBands,
)
    requires
        generated_from(m1, width, height, samples, bands),
        generated_from(m2, width, height, samples, bands),
    ensures
        m1.rows() == m2.rows(),
        m1.meta == m2.meta,
{
    assert(m1.rows() =~= m2.rows());
}

/// Every generated map is consistent: as many rows as its height, each as
/// wide as its width.
pub proof fn lemma_generated_is_wf(
    m: WorldMap,
    width: usize,
    height: usize,
    samples: Seq<Vec<i32>>,
    bands: TerrainBands,
)
    requires
        grid_shaped(samples, width, height),
        generated_from(m, width, height, samples, bands),
    ensures
        m.wf(),
{
    assert forall|k: int| 0 <= k < m.map@.len() implies #[trigger] m.map@[k]@.len() == m.meta.width by {
        assert(m.map@[k]@ == bands.row_spec(samples[k]@));
    }
}

/// Generating a zero-by-zero map gives no rows and a zero size.
pub proof fn lemma_generate_empty(m: WorldMap, samples: Seq<Vec<i32>>, bands: TerrainBands)
    requires
        generated_from(m, 0, 0, samples, bands),
    ensures
        m.map@.len() == 0,
        m.meta == (MapMeta { height: 0, width: 0 }),
{
}

} // verus!
