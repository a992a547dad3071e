use vstd::prelude::*;
use vstd::arithmetic::div_mod::lemma_fundamental_div_mod;
use vstd::arithmetic::mul::{
    lemma_mul_inequality, lemma_mul_left_inequality, lemma_mul_upper_bound,
};
use vstd::arithmetic::power2::{lemma_pow2_pos, lemma_pow2_strictly_increases, pow2};
use vstd::math::{max, min};
use crate::errors::DeepZoomError;
use crate::pyramid::{
    best_level, best_level_search, ceil_div_u64, ceil_frac, div_ratio_ceil, halve, halve_k,
    lemma_best_level_monotonic, lemma_halve_k_collapsed, lemma_halve_k_closed_form,
    lemma_halve_k_still_large, pow2_u64,
};
use crate::numfmt::{dec_str, push_u64};
use crate::ratio::{Ratio, Residual};

verus! {

/// Largest level-0 dimension the generator accepts. Keeps every product in
/// the tile geometry inside the machine words it is computed in; a slide
/// this wide would be tens of thousands of times larger than any scanner
/// produces.
pub const MAX_DIMENSION: u64 = 0x4000_0000_0000;

/// Largest tile size (and so largest overlap) the generator accepts.
pub const MAX_TILE_SIZE: u64 = 4096;

/// The construction parameters the generator accepts: a positive, bounded
/// tile size with an overlap no larger than it; positive, bounded slide
/// dimensions; at least one native level, whose level 0 matches the
/// level-0 dimensions; and exact downsample factors that start at one and
/// never decrease with the level index.
pub open spec fn valid_config(
    l0: (u64, u64),
    level_dims: Seq<(u64, u64)>,
    dss: Seq<Ratio>,
    ts: u64,
    ovl: u64,
) -> bool {
    &&& 1 <= ts <= MAX_TILE_SIZE
    &&& ovl <= ts
    &&& 1 <= l0.0 <= MAX_DIMENSION
    &&& 1 <= l0.1 <= MAX_DIMENSION
    &&& 1 <= level_dims.len() <= u32::MAX
    &&& level_dims.len() == dss.len()
    &&& level_dims[0] == l0
    &&& forall|l: int|
        0 <= l < level_dims.len() ==> 1 <= #[trigger] level_dims[l].0 <= MAX_DIMENSION && 1
            <= level_dims[l].1 <= MAX_DIMENSION
    &&& forall|l: int| 0 <= l < dss.len() ==> (#[trigger] dss[l]).valid()
    &&& dss[0].is_one()
    &&& forall|l: int| 0 <= l < dss.len() - 1 ==> (#[trigger] dss[l]).le(dss[l + 1])
}

/// The deep-zoom coordinate engine for one slide.
///
/// Built once from the slide's geometry and immutable afterwards. Four
/// coordinate planes meet here: the tile grid of a virtual level (`t_`),
/// pixels of a virtual level (`z_`), pixels of a native slide level
/// (`l_`), and pixels of native level 0 (`l0_`).
pub struct DeepZoomGenerator {
    l0_dimensions: (u64, u64),
    level_dimensions: Vec<(u64, u64)>,
    l0_l_downsamples: Vec<Ratio>,
    z_dimensions: Vec<(u64, u64)>,
    t_dimensions: Vec<(u64, u64)>,
    slide_from_dz_level: Vec<u32>,
    l_z_downsamples: Vec<Residual>,
    tile_size: u64,
    overlap: u64,
}

impl DeepZoomGenerator {
    /// Level-0 dimensions of the slide, `(width, height)`.
    pub closed spec fn spec_l0_dimensions(self) -> (u64, u64) {
        self.l0_dimensions
    }

    /// Pixel dimensions of each native level, finest first.
    pub closed spec fn spec_level_dimensions(self) -> Seq<(u64, u64)> {
        self.level_dimensions@
    }

    /// Downsample factor of each native level relative to level 0.
    pub closed spec fn spec_downsamples(self) -> Seq<Ratio> {
        self.l0_l_downsamples@
    }

    /// Pixel dimensions of each virtual level, from 1x1 up to level 0.
    pub closed spec fn spec_z_dimensions(self) -> Seq<(u64, u64)> {
        self.z_dimensions@
    }

    /// Tile-grid dimensions of each virtual level.
    pub closed spec fn spec_t_dimensions(self) -> Seq<(u64, u64)> {
        self.t_dimensions@
    }

    /// The native level chosen for each virtual level.
    pub closed spec fn spec_slide_from(self) -> Seq<u32> {
        self.slide_from_dz_level@
    }

    /// The residual downsample of each virtual level.
    pub closed spec fn spec_residuals(self) -> Seq<Residual> {
        self.l_z_downsamples@
    }

    pub closed spec fn spec_tile_size(self) -> u64 {
        self.tile_size
    }

    pub closed spec fn spec_overlap(self) -> u64 {
        self.overlap
    }

    /// Number of virtual levels.
    pub open spec fn spec_level_count(self) -> int {
        self.spec_z_dimensions().len() as int
    }

    /// Everything the construction establishes: the stored configuration
    /// is valid, the virtual dimensions arise from repeated ceiling
    /// halving of the level-0 dimensions down to a single pixel, the tile
    /// grids are ceiling quotients by the tile size, each virtual level
    /// maps to the highest native level whose downsample does not exceed
    /// the virtual level's total downsample, and each residual downsample
    /// is that quotient of exact rationals.
    pub open spec fn wf(self) -> bool {
        let n = self.spec_level_count();
        let w0 = self.spec_l0_dimensions().0 as int;
        let h0 = self.spec_l0_dimensions().1 as int;
        let ts = self.spec_tile_size() as int;
        &&& valid_config(
            self.spec_l0_dimensions(),
            self.spec_level_dimensions(),
            self.spec_downsamples(),
            self.spec_tile_size(),
            self.spec_overlap(),
        )
        &&& 1 <= n <= 47
        &&& self.spec_t_dimensions().len() == n
        &&& self.spec_slide_from().len() == n
        &&& self.spec_residuals().len() == n
        &&& forall|i: int|
            0 <= i < n ==> (#[trigger] self.spec_z_dimensions()[i]).0 == halve_k(
                w0,
                (n - 1 - i) as nat,
            ) && self.spec_z_dimensions()[i].1 == halve_k(h0, (n - 1 - i) as nat)
        &&& forall|i: int|
            0 <= i < n ==> 1 <= (#[trigger] self.spec_z_dimensions()[i]).0 <= MAX_DIMENSION && 1
                <= self.spec_z_dimensions()[i].1 <= MAX_DIMENSION
        &&& self.spec_z_dimensions()[0] == (1u64, 1u64)
        &&& self.spec_z_dimensions()[n - 1] == self.spec_l0_dimensions()
        &&& w0 <= pow2((n - 1) as nat)
        &&& h0 <= pow2((n - 1) as nat)
        &&& n >= 2 ==> (w0 > pow2((n - 2) as nat) || h0 > pow2((n - 2) as nat))
        &&& forall|i: int|
            0 <= i < n ==> (#[trigger] self.spec_t_dimensions()[i]).0 == ceil_frac(
                self.spec_z_dimensions()[i].0 as int,
                ts,
            ) && self.spec_t_dimensions()[i].1 == ceil_frac(self.spec_z_dimensions()[i].1 as int, ts)
        &&& forall|i: int|
            0 <= i < n ==> (#[trigger] self.spec_slide_from()[i]) as int == best_level(
                self.spec_downsamples(),
                pow2((n - 1 - i) as nat) as int,
            ) && self.spec_slide_from()[i] < self.spec_downsamples().len()
        &&& forall|i: int|
            0 <= i < n ==> (#[trigger] self.spec_residuals()[i]).num == pow2((n - 1 - i) as nat)
                * self.spec_downsamples()[self.spec_slide_from()[i] as int].den
                && self.spec_residuals()[i].den == self.spec_downsamples()[self.spec_slide_from()[i] as int].num
    }

    #[verifier::type_invariant]
    spec fn type_inv(self) -> bool {
        self.wf()
    }

    /// Builds the generator from the slide's geometry.
    ///
    /// The caller queries the slide reader for the level-0 dimensions,
    /// the dimensions of every native level, and every native level's
    /// downsample factor (converted exactly into a [`Ratio`]), and picks
    /// the tile size and overlap. Fails with `ConfigurationError` exactly
    /// when the parameters violate [`valid_config`]; otherwise the whole
    /// virtual pyramid is derived here, once.
    pub fn new(
        l0_dimensions: (u64, u64),
        level_dimensions: Vec<(u64, u64)>,
        l0_l_downsamples: Vec<Ratio>,
        tile_size: u64,
        overlap: u64,
    ) -> (r: Result<DeepZoomGenerator, DeepZoomError>)
        ensures
            (r is Ok) == valid_config(
                l0_dimensions,
                level_dimensions@,
                l0_l_downsamples@,
                tile_size,
                overlap,
            ),
            r matches Err(e) ==> e == DeepZoomError::ConfigurationError,
            r matches Ok(g) ==> ({
                &&& g.wf()
                &&& g.spec_l0_dimensions() == l0_dimensions
                &&& g.spec_level_dimensions() == level_dimensions@
                &&& g.spec_downsamples() == l0_l_downsamples@
                &&& g.spec_tile_size() == tile_size
                &&& g.spec_overlap() == overlap
                &&& g.spec_z_dimensions()[0] == (1u64, 1u64)
                &&& g.spec_z_dimensions()[g.spec_level_count() - 1] == l0_dimensions
                &&& forall|i: int, j: int|
                    0 <= i <= j < g.spec_level_count() ==> (#[trigger] g.spec_slide_from()[i])
                        >= (#[trigger] g.spec_slide_from()[j])
            }),
    {
        if !check_config(l0_dimensions, &level_dimensions, &l0_l_downsamples, tile_size, overlap) {
            return Err(DeepZoomError::ConfigurationError);
        }
        let z_dimensions = build_z_dimensions(l0_dimensions.0, l0_dimensions.1);
        let n = z_dimensions.len();
        let t_dimensions = build_t_dimensions(&z_dimensions, tile_size);
        let slide_from_dz_level = build_slide_from(&l0_l_downsamples, n);
        let l_z_downsamples = build_residuals(&slide_from_dz_level, &l0_l_downsamples);
        let g = DeepZoomGenerator {
            l0_dimensions,
            level_dimensions,
            l0_l_downsamples,
            z_dimensions,
            t_dimensions,
            slide_from_dz_level,
            l_z_downsamples,
            tile_size,
            overlap,
        };
        proof {
            let gs = g;
            let ni = gs.spec_level_count();
            assert forall|i: int, j: int| 0 <= i <= j < ni implies (#[trigger] gs.spec_slide_from()[i])
                >= (#[trigger] gs.spec_slide_from()[j]) by {
                if i < j {
                    lemma_pow2_strictly_increases((ni - 1 - j) as nat, (ni - 1 - i) as nat);
                    lemma_best_level_monotonic(
                        gs.spec_downsamples(),
                        pow2((ni - 1 - j) as nat) as int,
                        pow2((ni - 1 - i) as nat) as int,
                    );
                }
            }
        }
        Ok(g)
    }
}

/// The overlap a tile carries on its left or top edge: zero for the first
/// tile of the axis, the slide-wide overlap otherwise.
pub open spec fn lead_overlap(ovl: int, t: int) -> int {
    if t == 0 {
        0
    } else {
        ovl
    }
}

/// The overlap a tile carries on its right or bottom edge: zero for the
/// last tile of the axis, the slide-wide overlap otherwise.
pub open spec fn trail_overlap(ovl: int, t: int, t_lim: int) -> int {
    if t == t_lim - 1 {
        0
    } else {
        ovl
    }
}

/// The overlap-free extent of tile `t` along an axis of `z_dim` virtual
/// pixels: a full tile size except for the last tile, which is clamped to
/// the pixels that remain.
pub open spec fn interior_extent(ts: int, z_dim: int, t: int) -> int {
    min(ts, z_dim - ts * t)
}

/// The output extent of tile `t` along an axis: its interior plus the
/// overlap carried on each edge.
pub open spec fn output_extent(ts: int, ovl: int, z_dim: int, t: int, t_lim: int) -> int {
    interior_extent(ts, z_dim, t) + lead_overlap(ovl, t) + trail_overlap(ovl, t, t_lim)
}

/// A tile's overlap-free origin lies strictly inside its level.
pub proof fn lemma_tile_origin_in_level(ts: int, z_dim: int, t: int)
    requires
        1 <= ts,
        1 <= z_dim,
        0 <= t < ceil_frac(z_dim, ts),
    ensures
        ts * t <= z_dim - 1,
{
    let q = (z_dim - 1) / ts;
    assert(ceil_frac(z_dim, ts) == q + 1) by {
        vstd::arithmetic::div_mod::lemma_div_plus_one(z_dim - 1, ts);
    }
    assert(ts * q <= z_dim - 1) by {
        lemma_fundamental_div_mod(z_dim - 1, ts);
        vstd::arithmetic::div_mod::lemma_mod_division_less_than_divisor(z_dim - 1, ts);
    }
    lemma_mul_left_inequality(ts, t, q);
}

/// Every tile's output extent is at least one pixel and at most the tile
/// size plus an overlap on each side.
pub proof fn lemma_output_extent_bounds(ts: int, ovl: int, z_dim: int, t: int, t_lim: int)
    requires
        1 <= ts,
        0 <= ovl,
        1 <= z_dim,
        t_lim == ceil_frac(z_dim, ts),
        0 <= t < t_lim,
    ensures
        1 <= output_extent(ts, ovl, z_dim, t, t_lim) <= ts + 2 * ovl,
{
    lemma_tile_origin_in_level(ts, z_dim, t);
}

/// Which edges of a tile carry overlap: none on the leading edge of the
/// first tile of an axis, none on the trailing edge of the last, the
/// slide-wide overlap everywhere else.
pub proof fn lemma_overlap_edges(ovl: int, t: int, t_lim: int)
    ensures
        lead_overlap(ovl, 0) == 0,
        t > 0 ==> lead_overlap(ovl, t) == ovl,
        trail_overlap(ovl, t_lim - 1, t_lim) == 0,
        t < t_lim - 1 ==> trail_overlap(ovl, t, t_lim) == ovl,
{
}

/// Adjacent tiles' read regions abut exactly once their overlaps are
/// excluded: along either axis, the level-0 extent of tile `t`'s interior
/// ends precisely where tile `t + 1`'s interior begins, so no level-0
/// pixel row or column is dropped or duplicated across a tile boundary.
/// `d` is the virtual level's total downsample.
pub proof fn lemma_adjacent_tiles_abut(d: int, ts: int, z_dim: int, t: int, t_lim: int)
    requires
        1 <= d,
        1 <= ts,
        1 <= z_dim,
        t_lim == ceil_frac(z_dim, ts),
        0 <= t,
        t + 1 < t_lim,
    ensures
        d * (ts * (t + 1)) == d * (ts * t) + d * interior_extent(ts, z_dim, t),
{
    lemma_tile_origin_in_level(ts, z_dim, t + 1);
    assert(interior_extent(ts, z_dim, t) == ts) by (nonlinear_arith)
        requires
            1 <= ts,
            ts * (t + 1) <= z_dim - 1,
            0 <= t,
    ;
    assert(d * (ts * (t + 1)) == d * (ts * t) + d * ts) by (nonlinear_arith);
}

impl DeepZoomGenerator {
    /// [`lemma_adjacent_tiles_abut`] restated over the values
    /// [`Self::get_tile_info`] returns: excluding the overlap borders
    /// (`total * lead_overlap` level-0 pixels at each tile's leading
    /// edge), tile `col`'s region ends exactly where tile `col + 1`'s
    /// begins. The same holds of rows by the symmetry of the axes.
    pub proof fn lemma_columns_abut(self, dz: int, col: int)
        requires
            self.wf(),
            0 <= dz < self.spec_level_count(),
            0 <= col,
            col + 1 < self.spec_t_dimensions()[dz].0,
        ensures
            ({
                let total = self.spec_total_downsample(dz);
                let ovl = self.spec_overlap() as int;
                let z_w = self.spec_z_dimensions()[dz].0 as int;
                let ts = self.spec_tile_size() as int;
                self.spec_l0_left(dz, col) + total * lead_overlap(ovl, col) + total
                    * interior_extent(ts, z_w, col) == self.spec_l0_left(dz, col + 1) + total
                    * lead_overlap(ovl, col + 1)
            }),
    {
        let total = self.spec_total_downsample(dz);
        let ovl = self.spec_overlap() as int;
        let z_w = self.spec_z_dimensions()[dz].0 as int;
        let ts = self.spec_tile_size() as int;
        lemma_pow2_pos((self.spec_level_count() - 1 - dz) as nat);
        lemma_adjacent_tiles_abut(total, ts, z_w, col, self.spec_t_dimensions()[dz].0 as int);
        assert(total * (ts * col - lead_overlap(ovl, col)) + total * lead_overlap(ovl, col)
            == total * (ts * col)) by (nonlinear_arith);
        assert(total * (ts * (col + 1) - lead_overlap(ovl, col + 1)) + total * lead_overlap(
            ovl,
            col + 1,
        ) == total * (ts * (col + 1))) by (nonlinear_arith);
    }
}

/// The exact parameters of one tile read: where to read in the native
/// slide, at which native level, how many native pixels to take, and the
/// pixel size of the finished tile.
#[derive(Clone, Copy, Debug, PartialEq, Eq)]
pub struct TileInfo {
    /// Top-left corner of the read region in level-0 pixels, `(x, y)`.
    pub l0_location: (u64, u64),
    /// The native level to read from.
    pub slide_level: u64,
    /// The size of the read region in that native level's pixels.
    pub l_size: (u64, u64),
    /// The size of the finished tile in virtual-level pixels.
    pub z_size: (u64, u64),
}

impl DeepZoomGenerator {
    /// Whether a virtual level and tile coordinate lie inside the
    /// computed pyramid.
    pub open spec fn tile_in_range(self, dz: int, col: int, row: int) -> bool {
        &&& 0 <= dz < self.spec_level_count()
        &&& 0 <= col < self.spec_t_dimensions()[dz].0
        &&& 0 <= row < self.spec_t_dimensions()[dz].1
    }

    /// The total level-0 downsample of virtual level `dz`.
    pub open spec fn spec_total_downsample(self, dz: int) -> int {
        pow2((self.spec_level_count() - 1 - dz) as nat) as int
    }

    /// The native level chosen for virtual level `dz`.
    pub open spec fn spec_native_level(self, dz: int) -> int {
        self.spec_slide_from()[dz] as int
    }

    /// The downsample factor of the native level chosen for `dz`.
    pub open spec fn spec_native_ratio(self, dz: int) -> Ratio {
        self.spec_downsamples()[self.spec_native_level(dz)]
    }

    /// Output width of tile `col` of level `dz`.
    pub open spec fn spec_output_w(self, dz: int, col: int) -> int {
        output_extent(
            self.spec_tile_size() as int,
            self.spec_overlap() as int,
            self.spec_z_dimensions()[dz].0 as int,
            col,
            self.spec_t_dimensions()[dz].0 as int,
        )
    }

    /// Output height of tile `row` of level `dz`.
    pub open spec fn spec_output_h(self, dz: int, row: int) -> int {
        output_extent(
            self.spec_tile_size() as int,
            self.spec_overlap() as int,
            self.spec_z_dimensions()[dz].1 as int,
            row,
            self.spec_t_dimensions()[dz].1 as int,
        )
    }

    /// The overlap-adjusted left edge of tile `col` in virtual pixels.
    pub open spec fn spec_z_left(self, col: int) -> int {
        self.spec_tile_size() * col - lead_overlap(self.spec_overlap() as int, col)
    }

    /// The overlap-adjusted top edge of tile `row` in virtual pixels.
    pub open spec fn spec_z_top(self, row: int) -> int {
        self.spec_tile_size() * row - lead_overlap(self.spec_overlap() as int, row)
    }

    /// The read region's left edge in level-0 pixels.
    pub open spec fn spec_l0_left(self, dz: int, col: int) -> int {
        self.spec_total_downsample(dz) * self.spec_z_left(col)
    }

    /// The read region's top edge in level-0 pixels.
    pub open spec fn spec_l0_top(self, dz: int, row: int) -> int {
        self.spec_total_downsample(dz) * self.spec_z_top(row)
    }

    /// The read region's left edge in the chosen native level's pixels,
    /// rounded up.
    pub open spec fn spec_native_left_ceil(self, dz: int, col: int) -> int {
        ceil_frac(
            self.spec_l0_left(dz, col) * self.spec_native_ratio(dz).den,
            self.spec_native_ratio(dz).num as int,
        )
    }

    /// The read region's top edge in the chosen native level's pixels,
    /// rounded up.
    pub open spec fn spec_native_top_ceil(self, dz: int, row: int) -> int {
        ceil_frac(
            self.spec_l0_top(dz, row) * self.spec_native_ratio(dz).den,
            self.spec_native_ratio(dz).num as int,
        )
    }

    /// The width of the native read region: the output width scaled by the
    /// residual downsample and rounded up, clamped so the read never
    /// extends past the native level's own width.
    pub open spec fn spec_read_w(self, dz: int, col: int) -> int {
        min(
            ceil_frac(
                self.spec_total_downsample(dz) * self.spec_output_w(dz, col)
                    * self.spec_native_ratio(dz).den,
                self.spec_native_ratio(dz).num as int,
            ),
            max(
                self.spec_level_dimensions()[self.spec_native_level(dz)].0
                    - self.spec_native_left_ceil(dz, col),
                0,
            ),
        )
    }

    /// The height of the native read region, clamped like the width.
    pub open spec fn spec_read_h(self, dz: int, row: int) -> int {
        min(
            ceil_frac(
                self.spec_total_downsample(dz) * self.spec_output_h(dz, row)
                    * self.spec_native_ratio(dz).den,
                self.spec_native_ratio(dz).num as int,
            ),
            max(
                self.spec_level_dimensions()[self.spec_native_level(dz)].1
                    - self.spec_native_top_ceil(dz, row),
                0,
            ),
        )
    }

    /// Locates the native region that must be read for one virtual tile.
    ///
    /// Succeeds exactly on the tiles of the computed pyramid whose native
    /// read region is non-empty along both axes; every rejected request
    /// fails with `OutOfRange` before anything is read. On success the
    /// returned region and output size are exactly the values of the
    /// specification functions above, and the output size never exceeds
    /// the tile size plus one overlap on each edge.
    #[verifier::rlimit(100)]
    pub fn get_tile_info(&self, dz_level: u64, t_location: (u64, u64)) -> (r: Result<
        TileInfo,
        DeepZoomError,
    >)
        ensures
            (r is Ok) <==> (self.tile_in_range(dz_level as int, t_location.0 as int, t_location.1 as int)
                && self.spec_read_w(dz_level as int, t_location.0 as int) >= 1
                && self.spec_read_h(dz_level as int, t_location.1 as int) >= 1),
            r matches Ok(ti) ==> ({
                let dz = dz_level as int;
                let col = t_location.0 as int;
                let row = t_location.1 as int;
                &&& ti.slide_level as int == self.spec_native_level(dz)
                &&& ti.l0_location.0 as int == self.spec_l0_left(dz, col)
                &&& ti.l0_location.1 as int == self.spec_l0_top(dz, row)
                &&& ti.l_size.0 as int == self.spec_read_w(dz, col)
                &&& ti.l_size.1 as int == self.spec_read_h(dz, row)
                &&& ti.z_size.0 as int == self.spec_output_w(dz, col)
                &&& ti.z_size.1 as int == self.spec_output_h(dz, row)
                &&& 1 <= ti.z_size.0 <= self.spec_tile_size() + 2 * self.spec_overlap()
                &&& 1 <= ti.z_size.1 <= self.spec_tile_size() + 2 * self.spec_overlap()
                &&& 1 <= ti.l_size.0 && 1 <= ti.l_size.1
            }),
            r matches Err(e) ==> e == DeepZoomError::OutOfRange,
    {
        proof {
            use_type_invariant(self);
        }
        let n = self.z_dimensions.len();
        if dz_level >= n as u64 {
            return Err(DeepZoomError::OutOfRange);
        }
        let lvl = dz_level as usize;
        let t_lim = self.t_dimensions[lvl];
        if t_location.0 >= t_lim.0 || t_location.1 >= t_lim.1 {
            return Err(DeepZoomError::OutOfRange);
        }
        let ts = self.tile_size;
        let ovl = self.overlap;
        let z_lim = self.z_dimensions[lvl];
        proof {
            lemma_tile_origin_in_level(ts as int, z_lim.0 as int, t_location.0 as int);
            lemma_tile_origin_in_level(ts as int, z_lim.1 as int, t_location.1 as int);
        }
        // Overlap carried on each edge, independently per axis.
        let tl = (
            if t_location.0 != 0 {
                ovl
            } else {
                0
            },
            if t_location.1 != 0 {
                ovl
            } else {
                0
            },
        );
        let br = (
            if t_location.0 != t_lim.0 - 1 {
                ovl
            } else {
                0
            },
            if t_location.1 != t_lim.1 - 1 {
                ovl
            } else {
                0
            },
        );
        // Output size: the interior pixels that remain at this grid
        // position, clamped to a full tile, plus the edge overlaps.
        let z_size = (
            (if ts < z_lim.0 - ts * t_location.0 {
                ts
            } else {
                z_lim.0 - ts * t_location.0
            }) + tl.0 + br.0,
            (if ts < z_lim.1 - ts * t_location.1 {
                ts
            } else {
                z_lim.1 - ts * t_location.1
            }) + tl.1 + br.1,
        );
        // Overlap-adjusted origin in virtual pixels.
        proof {
            if t_location.0 != 0 {
                lemma_mul_left_inequality(ts as int, 1, t_location.0 as int);
            }
            if t_location.1 != 0 {
                lemma_mul_left_inequality(ts as int, 1, t_location.1 as int);
            }
        }
        let zx = ts * t_location.0 - tl.0;
        let zy = ts * t_location.1 - tl.1;
        // Total downsample of this virtual level.
        let e = (n - 1 - lvl) as u64;
        let d_total = pow2_u64(e);
        proof {
            lemma_pow2_pos(e as nat);
            assert(pow2(46) == 0x400000000000) by {
                vstd::arithmetic::power2::lemma2_to64_rest();
            }
            if (e as nat) < 46 {
                lemma_pow2_strictly_increases(e as nat, 46);
            }
            // the level-0 origin fits: d * zx <= w0 - 1
            lemma_l0_origin_bound(
                self.l0_dimensions.0 as int,
                (n - 1 - lvl) as nat,
                z_lim.0 as int,
                zx as int,
            );
            lemma_l0_origin_bound(
                self.l0_dimensions.1 as int,
                (n - 1 - lvl) as nat,
                z_lim.1 as int,
                zy as int,
            );
        }
        let l0x = d_total * zx;
        let l0y = d_total * zy;
        let slide_level_u32 = self.slide_from_dz_level[lvl];
        let slide_level = slide_level_u32 as usize;
        let ds = self.l0_l_downsamples[slide_level];
        let l_lim = self.level_dimensions[slide_level];
        // Native-level origin, rounded up.
        let lx_ceil = div_ratio_ceil(l0x, &ds);
        let ly_ceil = div_ratio_ceil(l0y, &ds);
        // Native read size: output size scaled by the residual downsample,
        // rounded up, clamped to the pixels the native level still has.
        proof {
            lemma_mul_upper_bound(d_total as int, 0x400000000000, z_size.0 as int, 12288);
            lemma_mul_upper_bound(d_total as int, 0x400000000000, z_size.1 as int, 12288);
        }
        let sx = div_ratio_ceil(d_total * z_size.0, &ds);
        let sy = div_ratio_ceil(d_total * z_size.1, &ds);
        let rem_x = if l_lim.0 > lx_ceil {
            l_lim.0 - lx_ceil
        } else {
            0
        };
        let rem_y = if l_lim.1 > ly_ceil {
            l_lim.1 - ly_ceil
        } else {
            0
        };
        let l_size = (
            if sx < rem_x {
                sx
            } else {
                rem_x
            },
            if sy < rem_y {
                sy
            } else {
                rem_y
            },
        );
        if l_size.0 == 0 || l_size.1 == 0 {
            return Err(DeepZoomError::OutOfRange);
        }
        Ok(
            TileInfo {
                l0_location: (l0x, l0y),
                slide_level: slide_level_u32 as u64,
                l_size,
                z_size,
            },
        )
    }
}

impl DeepZoomGenerator {
    /// The deep-zoom descriptor document for this slide: a JSON object
    /// carrying exactly the tile size and overlap used internally and the
    /// level-0 dimensions, in the fixed key order below.
    pub open spec fn spec_dzi(self) -> Seq<char> {
        "{\"Image\":{\"Format\":\"jpg\",\"Overlap\":"@ + dec_str(self.spec_overlap() as nat)
            + ",\"Size\":{\"Height\":"@ + dec_str(self.spec_l0_dimensions().1 as nat)
            + ",\"Width\":"@ + dec_str(self.spec_l0_dimensions().0 as nat) + "},\"TileSize\":"@
            + dec_str(self.spec_tile_size() as nat)
            + ",\"xmlns\":\"http://schemas.microsoft.com/deepzoom/2008\"}}"@
    }

    /// Serialises the deep-zoom descriptor. Viewer clients compute tile
    /// URLs from this document, so it reports the same tile size and
    /// overlap the tile geometry uses, exactly.
    pub fn get_dzi(&self) -> (r: String)
        ensures
            r@ == self.spec_dzi(),
    {
        let mut s = String::from_str("{\"Image\":{\"Format\":\"jpg\",\"Overlap\":");
        push_u64(&mut s, self.overlap);
        s.append(",\"Size\":{\"Height\":");
        push_u64(&mut s, self.l0_dimensions.1);
        s.append(",\"Width\":");
        push_u64(&mut s, self.l0_dimensions.0);
        s.append("},\"TileSize\":");
        push_u64(&mut s, self.tile_size);
        s.append(",\"xmlns\":\"http://schemas.microsoft.com/deepzoom/2008\"}}");
        proof {
            assert(s@ =~= self.spec_dzi());
        }
        s
    }

    /// Level-0 dimensions of the slide, `(width, height)`.
    pub fn l0_dimensions(&self) -> (r: (u64, u64))
        ensures
            r == self.spec_l0_dimensions(),
    {
        self.l0_dimensions
    }

    /// Pixel dimensions of every native level, finest first.
    pub fn level_dimensions(&self) -> (r: &Vec<(u64, u64)>)
        ensures
            r@ == self.spec_level_dimensions(),
    {
        &self.level_dimensions
    }

    /// The exact downsample factor of every native level.
    pub fn l0_l_downsamples(&self) -> (r: &Vec<Ratio>)
        ensures
            r@ == self.spec_downsamples(),
    {
        &self.l0_l_downsamples
    }

    /// Pixel dimensions of every virtual level, from 1x1 up to level 0.
    pub fn z_dimensions(&self) -> (r: &Vec<(u64, u64)>)
        ensures
            r@ == self.spec_z_dimensions(),
    {
        &self.z_dimensions
    }

    /// Tile-grid dimensions of every virtual level.
    pub fn t_dimensions(&self) -> (r: &Vec<(u64, u64)>)
        ensures
            r@ == self.spec_t_dimensions(),
    {
        &self.t_dimensions
    }

    /// The native level chosen for every virtual level.
    pub fn slide_from_dz_level(&self) -> (r: &Vec<u32>)
        ensures
            r@ == self.spec_slide_from(),
    {
        &self.slide_from_dz_level
    }

    /// The exact residual downsample of every virtual level.
    pub fn l_z_downsamples(&self) -> (r: &Vec<Residual>)
        ensures
            r@ == self.spec_residuals(),
    {
        &self.l_z_downsamples
    }

    /// Number of virtual levels.
    pub fn level_count(&self) -> (r: u64)
        ensures
            r as int == self.spec_level_count(),
    {
        proof {
            use_type_invariant(self);
        }
        self.z_dimensions.len() as u64
    }

    pub fn tile_size(&self) -> (r: u64)
        ensures
            r == self.spec_tile_size(),
    {
        self.tile_size
    }

    pub fn overlap(&self) -> (r: u64)
        ensures
            r == self.spec_overlap(),
    {
        self.overlap
    }
}

/// For a virtual level whose dimension is `halve_k(dim0, j)` pixels, an
/// overlap-adjusted origin `zx` inside the level maps to a level-0 origin
/// `2^j * zx` that stays inside the slide.
proof fn lemma_l0_origin_bound(dim0: int, j: nat, z_dim: int, zx: int)
    requires
        1 <= dim0,
        z_dim == halve_k(dim0, j),
        0 <= zx <= z_dim - 1,
    ensures
        pow2(j) * zx <= dim0 - 1,
{
    let d = pow2(j) as int;
    lemma_pow2_pos(j);
    lemma_halve_k_closed_form(dim0, j);
    let q = (dim0 - 1) / d;
    assert(z_dim == q + 1);
    assert(d * q <= dim0 - 1) by {
        lemma_fundamental_div_mod(dim0 - 1, d);
        vstd::arithmetic::div_mod::lemma_mod_division_less_than_divisor(dim0 - 1, d);
    }
    lemma_mul_left_inequality(d, zx, q);
}

/// Decides [`valid_config`] exactly.
fn check_config(
    l0: (u64, u64),
    level_dims: &Vec<(u64, u64)>,
    dss: &Vec<Ratio>,
    ts: u64,
    ovl: u64,
) -> (b: bool)
    ensures
        b == valid_config(l0, level_dims@, dss@, ts, ovl),
{
    if ts < 1 || ts > MAX_TILE_SIZE || ovl > ts {
        return false;
    }
    if l0.0 < 1 || l0.0 > MAX_DIMENSION || l0.1 < 1 || l0.1 > MAX_DIMENSION {
        return false;
    }
    let count = level_dims.len();
    if count < 1 || count > u32::MAX as usize || count != dss.len() {
        return false;
    }
    if level_dims[0].0 != l0.0 || level_dims[0].1 != l0.1 {
        return false;
    }
    let mut l: usize = 0;
    while l < count
        invariant
            l <= count,
            count == level_dims@.len(),
            forall|m: int|
                0 <= m < l ==> 1 <= (#[trigger] level_dims@[m]).0 <= MAX_DIMENSION && 1
                    <= level_dims@[m].1 <= MAX_DIMENSION,
        decreases count - l,
    {
        let d = level_dims[l];
        if d.0 < 1 || d.0 > MAX_DIMENSION || d.1 < 1 || d.1 > MAX_DIMENSION {
            return false;
        }
        l = l + 1;
    }
    if dss[0].num != dss[0].den {
        return false;
    }
    let mut l: usize = 0;
    while l < count
        invariant
            l <= count,
            count == dss@.len(),
            forall|m: int| 0 <= m < l ==> (#[trigger] dss@[m]).valid(),
        decreases count - l,
    {
        let d = dss[l];
        if d.den < 1 || d.num < d.den || d.num > crate::ratio::MAX_RATIO_PART {
            return false;
        }
        l = l + 1;
    }
    let mut l: usize = 0;
    while l + 1 < count
        invariant
            l < count,
            count == dss@.len(),
            forall|m: int| 0 <= m < l ==> (#[trigger] dss@[m]).le(dss@[m + 1]),
        decreases count - l,
    {
        if !dss[l].le_exec(&dss[l + 1]) {
            return false;
        }
        l = l + 1;
    }
    true
}

/// Derives the virtual pyramid's pixel dimensions: starting from the
/// level-0 dimensions, halve with ceiling rounding (floored at one pixel)
/// until both axes reach one, then order the sequence from the 1x1 level
/// up to full resolution.
fn build_z_dimensions(w0: u64, h0: u64) -> (r: Vec<(u64, u64)>)
    requires
        1 <= w0 <= MAX_DIMENSION,
        1 <= h0 <= MAX_DIMENSION,
    ensures
        ({
            let n = r@.len() as int;
            &&& 1 <= n <= 47
            &&& forall|i: int|
                0 <= i < n ==> (#[trigger] r@[i]).0 == halve_k(w0 as int, (n - 1 - i) as nat)
                    && r@[i].1 == halve_k(h0 as int, (n - 1 - i) as nat)
            &&& forall|i: int|
                0 <= i < n ==> 1 <= (#[trigger] r@[i]).0 <= w0 && 1 <= r@[i].1 <= h0
            &&& r@[0] == (1u64, 1u64)
            &&& r@[n - 1] == (w0, h0)
            &&& w0 <= pow2((n - 1) as nat)
            &&& h0 <= pow2((n - 1) as nat)
            &&& n >= 2 ==> (w0 > pow2((n - 2) as nat) || h0 > pow2((n - 2) as nat))
        }),
{
    let mut desc: Vec<(u64, u64)> = Vec::new();
    let mut zw: u64 = w0;
    let mut zh: u64 = h0;
    desc.push((zw, zh));
    let mut k: u64 = 0;
    while zw > 1 || zh > 1
        invariant
            1 <= w0 <= MAX_DIMENSION,
            1 <= h0 <= MAX_DIMENSION,
            1 <= zw <= w0,
            1 <= zh <= h0,
            k <= 46,
            desc@.len() == k + 1,
            zw == halve_k(w0 as int, k as nat),
            zh == halve_k(h0 as int, k as nat),
            forall|m: int|
                0 <= m <= k ==> (#[trigger] desc@[m]).0 == halve_k(w0 as int, m as nat)
                    && desc@[m].1 == halve_k(h0 as int, m as nat),
            forall|m: int|
                0 <= m <= k ==> 1 <= (#[trigger] desc@[m]).0 <= w0 && 1 <= desc@[m].1 <= h0,
            k >= 1 ==> (halve_k(w0 as int, (k - 1) as nat) > 1 || halve_k(
                h0 as int,
                (k - 1) as nat,
            ) > 1),
        decreases zw + zh,
    {
        proof {
            if zw > 1 {
                lemma_halve_k_still_large(w0 as int, k as nat);
            } else {
                lemma_halve_k_still_large(h0 as int, k as nat);
            }
            // one of w0, h0 exceeds pow2(k); both are at most 2^46, so k < 46
            if k >= 46 {
                assert(pow2(46) == 0x400000000000) by {
                    vstd::arithmetic::power2::lemma2_to64_rest();
                }
            }
        }
        let nw = if zw <= 1 {
            1
        } else {
            (zw + 1) / 2
        };
        let nh = if zh <= 1 {
            1
        } else {
            (zh + 1) / 2
        };
        proof {
            assert(nw == halve(zw as int));
            assert(nh == halve(zh as int));
            assert(halve_k(w0 as int, (k + 1) as nat) == halve(halve_k(w0 as int, k as nat)));
            assert(halve_k(h0 as int, (k + 1) as nat) == halve(halve_k(h0 as int, k as nat)));
        }
        zw = nw;
        zh = nh;
        k = k + 1;
        desc.push((zw, zh));
    }
    let n = desc.len();
    proof {
        lemma_halve_k_collapsed(w0 as int, k as nat);
        lemma_halve_k_collapsed(h0 as int, k as nat);
        if k >= 1 {
            if halve_k(w0 as int, (k - 1) as nat) > 1 {
                lemma_halve_k_still_large(w0 as int, (k - 1) as nat);
            } else {
                lemma_halve_k_still_large(h0 as int, (k - 1) as nat);
            }
        }
    }
    let mut r: Vec<(u64, u64)> = Vec::new();
    let mut i: usize = 0;
    while i < n
        invariant
            i <= n,
            n == desc@.len(),
            r@.len() == i,
            forall|m: int| 0 <= m < i ==> #[trigger] r@[m] == desc@[n - 1 - m],
        decreases n - i,
    {
        let d = desc[n - 1 - i];
        r.push(d);
        i = i + 1;
    }
    r
}

/// Tile-grid dimensions for every virtual level: ceiling quotients of the
/// virtual dimensions by the tile size.
fn build_t_dimensions(z: &Vec<(u64, u64)>, ts: u64) -> (r: Vec<(u64, u64)>)
    requires
        1 <= ts,
    ensures
        r@.len() == z@.len(),
        forall|i: int|
            0 <= i < z@.len() ==> (#[trigger] r@[i]).0 as int == ceil_frac(
                z@[i].0 as int,
                ts as int,
            ) && r@[i].1 as int == ceil_frac(z@[i].1 as int, ts as int),
{
    let mut r: Vec<(u64, u64)> = Vec::new();
    let mut i: usize = 0;
    let n = z.len();
    while i < n
        invariant
            i <= n,
            n == z@.len(),
            1 <= ts,
            r@.len() == i,
            forall|m: int|
                0 <= m < i ==> (#[trigger] r@[m]).0 as int == ceil_frac(z@[m].0 as int, ts as int)
                    && r@[m].1 as int == ceil_frac(z@[m].1 as int, ts as int),
        decreases n - i,
    {
        let zi = z[i];
        let tw = ceil_div_u64(zi.0, ts);
        let th = ceil_div_u64(zi.1, ts);
        r.push((tw, th));
        i = i + 1;
    }
    r
}

/// Chooses the native level for every virtual level: the total downsample
/// of virtual level `i` of `n` is `2^(n-1-i)`, and the best native level
/// is the highest one whose downsample does not exceed it.
fn build_slide_from(dss: &Vec<Ratio>, n: usize) -> (r: Vec<u32>)
    requires
        1 <= dss@.len() <= u32::MAX,
        forall|l: int| 0 <= l < dss@.len() ==> (#[trigger] dss@[l]).valid(),
        dss@[0].is_one(),
        1 <= n <= 47,
    ensures
        r@.len() == n,
        forall|i: int|
            0 <= i < n ==> (#[trigger] r@[i]) as int == best_level(
                dss@,
                pow2((n - 1 - i) as nat) as int,
            ) && r@[i] < dss@.len(),
{
    let mut r: Vec<u32> = Vec::new();
    let mut i: usize = 0;
    while i < n
        invariant
            i <= n,
            1 <= n <= 47,
            1 <= dss@.len() <= u32::MAX,
            forall|l: int| 0 <= l < dss@.len() ==> (#[trigger] dss@[l]).valid(),
            dss@[0].is_one(),
            r@.len() == i,
            forall|m: int|
                0 <= m < i ==> (#[trigger] r@[m]) as int == best_level(
                    dss@,
                    pow2((n - 1 - m) as nat) as int,
                ) && r@[m] < dss@.len(),
        decreases n - i,
    {
        let e = (n - 1 - i) as u64;
        let d = pow2_u64(e);
        proof {
            lemma_pow2_pos(e as nat);
            lemma_mul_inequality(1, d as int, dss@[0].den as int);
        }
        let l = best_level_search(dss, d);
        r.push(l as u32);
        i = i + 1;
    }
    r
}

/// The residual downsample of every virtual level: its total downsample
/// `2^(n-1-i)` divided by the chosen native level's downsample factor,
/// kept as an exact rational.
fn build_residuals(slide_from: &Vec<u32>, dss: &Vec<Ratio>) -> (r: Vec<Residual>)
    requires
        1 <= slide_from@.len() <= 47,
        forall|i: int| 0 <= i < slide_from@.len() ==> (#[trigger] slide_from@[i]) < dss@.len(),
    ensures
        r@.len() == slide_from@.len(),
        forall|i: int|
            0 <= i < slide_from@.len() ==> (#[trigger] r@[i]).num == pow2(
                (slide_from@.len() - 1 - i) as nat,
            ) * dss@[slide_from@[i] as int].den && r@[i].den == dss@[slide_from@[i] as int].num,
{
    let n = slide_from.len();
    let mut r: Vec<Residual> = Vec::new();
    let mut i: usize = 0;
    while i < n
        invariant
            i <= n,
            1 <= n <= 47,
            n == slide_from@.len(),
            forall|m: int| 0 <= m < n ==> (#[trigger] slide_from@[m]) < dss@.len(),
            r@.len() == i,
            forall|m: int|
                0 <= m < i ==> (#[trigger] r@[m]).num == pow2((n - 1 - m) as nat)
                    * dss@[slide_from@[m] as int].den && r@[m].den == dss@[slide_from@[m] as int].num,
        decreases n - i,
    {
        let e = (n - 1 - i) as u64;
        let d = pow2_u64(e);
        let ds = dss[slide_from[i] as usize];
        proof {
            lemma_mul_upper_bound(d as int, u64::MAX as int, ds.den as int, u64::MAX as int);
        }
        let num: u128 = (d as u128) * (ds.den as u128);
        r.push(Residual { num, den: ds.num });
        i = i + 1;
    }
    r
}

} // verus!
