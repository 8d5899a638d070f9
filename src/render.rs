//! The integer side of rendering: options, how a hit surface is shaded,
//! the sample grid, the sample buffer, and the blocks that anti-aliasing
//! averages.
use vstd::prelude::*;
use crate::scene::Material;
use crate::scene_file::{ProcFile, first_aa, first_bounces};

verus! {

/// How a hit surface gets its color.
#[derive(Clone, Copy, Debug, PartialEq, Eq, Structural)]
pub enum Shading {
    /// Local lighting only (shininess 0).
    Diffuse,
    /// Mirror reflection only (shininess 1).
    Mirror,
    /// Local lighting weighted `1 - shininess`, reflection weighted `shininess`.
    Blend,
}

pub open spec fn shading_of(m: Material) -> Shading {
    if m.shininess.magnitude == 0 {
        Shading::Diffuse
    } else if m.shininess.is_one_spec() {
        Shading::Mirror
    } else {
        Shading::Blend
    }
}

impl Material {
    /// How a surface of this material is shaded.
    pub fn shading(&self) -> (r: Shading)
        ensures
            r == shading_of(*self),
    {
        if self.shininess.is_zero() {
            Shading::Diffuse
        } else if self.shininess.is_one() {
            Shading::Mirror
        } else {
            Shading::Blend
        }
    }
}

/// What a cast ray does next.
#[derive(Clone, Copy, Debug, PartialEq, Eq, Structural)]
pub enum CastPlan {
    /// Past the bounce limit, or nothing was hit: no contribution.
    Nothing,
    /// Light the hit point.
    Local,
    /// Reflect about the surface normal and cast again one bounce deeper;
    /// black where that cast contributes nothing.
    Reflect,
    /// Both, weighted by the shininess.
    Blend,
}

/// The plan for a ray at bounce `depth` whose nearest hit has material `hit`.
pub open spec fn plan_of(max_depth: usize, depth: usize, hit: Option<Material>) -> CastPlan {
    if depth > max_depth {
        CastPlan::Nothing
    } else {
        match hit {
            None => CastPlan::Nothing,
            Some(m) => match shading_of(m) {
                Shading::Diffuse => CastPlan::Local,
                Shading::Mirror => CastPlan::Reflect,
                Shading::Blend => CastPlan::Blend,
            },
        }
    }
}

/// Largest extent of the sample grid along either axis.
pub const MAX_EXTENT: usize = 0x7fff_ffff;

/// Bounce limit of a scene without a `bounces` entry.
pub const DEFAULT_MAX_DEPTH: usize = 4;

/// Whether a sample grid of `w` by `h` can be held.
pub open spec fn grid_fits(w: int, h: int) -> bool {
    w <= MAX_EXTENT && h <= MAX_EXTENT && w * h <= usize::MAX
}

/// Why a scene's options cannot be rendered.
#[derive(Clone, Copy, Debug, PartialEq, Eq, Structural)]
pub enum OptionsError {
    /// The supersampling factor is 0.
    ZeroSupersampling,
    /// The sample grid is larger than can be held.
    TooLarge,
}

/// Image size, bounce limit and supersampling factor of a render.
#[derive(Clone, Copy, Debug, PartialEq, Eq, Structural)]
pub struct RenderOptions {
    pub width: usize,
    pub height: usize,
    pub max_depth: usize,
    pub aa: usize,
}

/// One sample of the grid: its column and row, and its screen offsets
/// `sx / scale` and `sy / scale`, where `scale` is the longer side of the grid.
#[derive(Clone, Copy, Debug, PartialEq, Eq, Structural)]
pub struct Sample {
    pub x: usize,
    pub y: usize,
    pub sx: i64,
    pub sy: i64,
}

/// The sample at column `x` and row `y` of a `w` by `h` grid: offsets run
/// from -1 at the left edge to 1 at the right one, and from 1 at the top to
/// -1 at the bottom, in units of the longer side.
pub open spec fn sample_at(w: int, h: int, x: int, y: int) -> Sample {
    Sample { x: x as usize, y: y as usize, sx: (2 * x - w) as i64, sy: (h - 2 * y) as i64 }
}

impl RenderOptions {
    pub open spec fn sample_width_spec(&self) -> int {
        self.width * self.aa
    }

    pub open spec fn sample_height_spec(&self) -> int {
        self.height * self.aa
    }

    /// Whether these options can be rendered.
    pub open spec fn wf(&self) -> bool {
        self.aa >= 1 && grid_fits(self.sample_width_spec(), self.sample_height_spec())
    }

    /// The options of a scene: its size, the first `bounces` entry (else 4)
    /// and the first `aa` entry (else 1).
    pub fn from_file(file: &ProcFile) -> (r: Result<RenderOptions, OptionsError>)
        ensures
            ({
                let aa: usize = match first_aa(file.entries@) {
                    Some(n) => n,
                    None => 1,
                };
                let depth: usize = match first_bounces(file.entries@) {
                    Some(b) => b,
                    None => DEFAULT_MAX_DEPTH,
                };
                let w = file.header.width as int;
                let h = file.header.height as int;
                if aa == 0 {
                    r == Err::<RenderOptions, OptionsError>(OptionsError::ZeroSupersampling)
                } else if !grid_fits(w * aa, h * aa) {
                    r == Err::<RenderOptions, OptionsError>(OptionsError::TooLarge)
                } else {
                    r == Ok::<RenderOptions, OptionsError>(
                        RenderOptions {
                            width: w as usize,
                            height: h as usize,
                            max_depth: depth,
                            aa,
                        },
                    ) && r->Ok_0.wf()
                }
            }),
    {
        let aa = file.get_aa();
        let max_depth = match file.get_bounces() {
            Some(b) => b,
            None => DEFAULT_MAX_DEPTH,
        };
        if aa == 0 {
            return Err(OptionsError::ZeroSupersampling);
        }
        let wide = file.header.width as u128;
        let high = file.header.height as u128;
        let factor = aa as u128;
        assert(wide * factor <= 0xffff_ffff_ffff_ffff_ffff_ffff_ffff_ffff) by (nonlinear_arith)
            requires
                wide <= 0xffff_ffff,
                factor <= 0xffff_ffff_ffff_ffff,
        ;
        assert(high * factor <= 0xffff_ffff_ffff_ffff_ffff_ffff_ffff_ffff) by (nonlinear_arith)
            requires
                high <= 0xffff_ffff,
                factor <= 0xffff_ffff_ffff_ffff,
        ;
        let w = wide * factor;
        let h = high * factor;
        if w > MAX_EXTENT as u128 || h > MAX_EXTENT as u128 {
            return Err(OptionsError::TooLarge);
        }
        assert(w * h <= MAX_EXTENT * MAX_EXTENT) by (nonlinear_arith)
            requires
                w <= MAX_EXTENT,
                h <= MAX_EXTENT,
        ;
        if w * h > usize::MAX as u128 {
            return Err(OptionsError::TooLarge);
        }
        Ok(
            RenderOptions {
                width: file.header.width as usize,
                height: file.header.height as usize,
                max_depth,
                aa,
            },
        )
    }

    /// Columns of the sample grid.
    pub fn sample_width(&self) -> (r: usize)
        requires
            self.wf(),
        ensures
            r == self.sample_width_spec(),
    {
        self.width * self.aa
    }

    /// Rows of the sample grid.
    pub fn sample_height(&self) -> (r: usize)
        requires
            self.wf(),
        ensures
            r == self.sample_height_spec(),
    {
        self.height * self.aa
    }

    /// The longer side of the sample grid, the unit of screen offsets.
    pub fn scale(&self) -> (r: usize)
        requires
            self.wf(),
        ensures
            r == if self.sample_width_spec() >= self.sample_height_spec() {
                self.sample_width_spec()
            } else {
                self.sample_height_spec()
            },
    {
        let w = self.sample_width();
        let h = self.sample_height();
        if w >= h {
            w
        } else {
            h
        }
    }

    /// Whether a ray at bounce `depth` is traced at all.
    pub fn may_trace(&self, depth: usize) -> (r: bool)
        ensures
            r == (depth <= self.max_depth),
    {
        depth <= self.max_depth
    }

    /// What a ray at bounce `depth` does, given the material of its nearest
    /// hit (`None` when it hit nothing).
    pub fn plan(&self, depth: usize, hit: Option<Material>) -> (r: CastPlan)
        ensures
            r == plan_of(self.max_depth, depth, hit),
    {
        if !self.may_trace(depth) {
            return CastPlan::Nothing;
        }
        match hit {
            None => CastPlan::Nothing,
            Some(m) => match m.shading() {
                Shading::Diffuse => CastPlan::Local,
                Shading::Mirror => CastPlan::Reflect,
                Shading::Blend => CastPlan::Blend,
            },
        }
    }

    /// Every sample of the grid, row by row from the top, each row from the left.
    pub fn initialize_rays(&self) -> (r: Vec<Sample>)
        requires
            self.wf(),
        ensures
            r@.len() == self.sample_width_spec() * self.sample_height_spec(),
            forall|k: int|
                0 <= k < r@.len() ==> #[trigger] r@[k] == sample_at(
                    self.sample_width_spec(),
                    self.sample_height_spec(),
                    k % self.sample_width_spec(),
                    k / self.sample_width_spec(),
                ),
    {
        let w = self.sample_width();
        let h = self.sample_height();
        let n = w * h;
        let mut out: Vec<Sample> = Vec::new();
        if w == 0 {
            assert(w * h == 0) by (nonlinear_arith)
                requires
                    w == 0,
            ;
            return out;
        }
        let mut k: usize = 0;
        while k < n
            invariant
                w == self.sample_width_spec(),
                h == self.sample_height_spec(),
                n == w * h,
                w >= 1,
                w <= MAX_EXTENT,
                h <= MAX_EXTENT,
                k <= n,
                out@.len() == k,
                forall|j: int|
                    0 <= j < k ==> #[trigger] out@[j] == sample_at(w as int, h as int, j % w as int, j / w as int),
            decreases n - k,
        {
            let x = k % w;
            let y = k / w;
            assert(y < h) by (nonlinear_arith)
                requires
                    y == k / w,
                    k < w * h,
                    w >= 1,
            ;
            let sx = 2 * (x as i64) - w as i64;
            let sy = h as i64 - 2 * (y as i64);
            out.push(Sample { x, y, sx, sy });
            k = k + 1;
        }
        out
    }
}

/// A grid of samples, row-major from the top-left; `None` where a sample hit
/// nothing.
#[derive(Debug)]
pub struct RendererOutput<T> {
    pub pixel_buffer: Vec<Vec<Option<T>>>,
}

impl<T: Copy> RendererOutput<T> {
    /// A `width` by `height` grid where no sample has hit anything.
    pub fn new(width: usize, height: usize) -> (r: RendererOutput<T>)
        ensures
            r.pixel_buffer@.len() == height,
            forall|y: int|
                0 <= y < height ==> (#[trigger] r.pixel_buffer@[y])@.len() == width,
            forall|y: int, x: int|
                0 <= y < height && 0 <= x < width ==> (#[trigger] r.pixel_buffer@[y]@[x]) is None,
    {
        let mut pixel_buffer: Vec<Vec<Option<T>>> = Vec::new();
        let mut i: usize = 0;
        while i < height
            invariant
                i <= height,
                pixel_buffer@.len() == i,
                forall|y: int| 0 <= y < i ==> (#[trigger] pixel_buffer@[y])@.len() == width,
                forall|y: int, x: int|
                    0 <= y < i && 0 <= x < width ==> (#[trigger] pixel_buffer@[y]@[x]) is None,
            decreases height - i,
        {
            let mut row: Vec<Option<T>> = Vec::new();
            let mut j: usize = 0;
            while j < width
                invariant
                    j <= width,
                    row@.len() == j,
                    forall|x: int| 0 <= x < j ==> (#[trigger] row@[x]) is None,
                decreases width - j,
            {
                row.push(None);
                j = j + 1;
            }
            pixel_buffer.push(row);
            i = i + 1;
        }
        RendererOutput { pixel_buffer }
    }

    /// Records the sample at column `x` and row `y`.
    pub fn put(&mut self, x: usize, y: usize, c: T)
        requires
            y < old(self).pixel_buffer@.len(),
            x < old(self).pixel_buffer@[y as int]@.len(),
        ensures
            final(self).pixel_buffer@.len() == old(self).pixel_buffer@.len(),
            forall|j: int|
                0 <= j < old(self).pixel_buffer@.len() && j != y ==> #[trigger] final(self).pixel_buffer@[j]@
                    == old(self).pixel_buffer@[j]@,
            final(self).pixel_buffer@[y as int]@ == old(self).pixel_buffer@[y as int]@.update(
                x as int,
                Some(c),
            ),
    {
        self.pixel_buffer[y][x] = Some(c);
    }
}

/// The `stride` by `stride` block of `image` that output pixel (`from_x`,
/// `from_y`) covers, row by row.
pub fn sample_block<T: Copy>(image: &Vec<Vec<T>>, from_x: usize, from_y: usize, stride: usize) -> (r:
    Vec<T>)
    requires
        stride >= 1,
        stride * stride <= usize::MAX,
        (from_y + 1) * stride <= image@.len(),
        forall|y: int|
            from_y * stride <= y < (from_y + 1) * stride ==> (from_x + 1) * stride <= (
            #[trigger] image@[y])@.len(),
    ensures
        r@.len() == stride * stride,
        forall|k: int|
            0 <= k < r@.len() ==> #[trigger] r@[k] == image@[from_y * stride + k / stride as int]@[from_x
                * stride + k % stride as int],
{
    assert(from_y * stride + stride == (from_y + 1) * stride) by (nonlinear_arith);
    assert(from_x * stride + stride == (from_x + 1) * stride) by (nonlinear_arith);
    let rows = image.len();
    assert(from_y * stride <= from_y * stride + stride);
    assert(image@[from_y * stride]@.len() >= (from_x + 1) * stride);
    let n = stride * stride;
    let sy = from_y * stride;
    let first_cols = image[sy].len();
    assert(from_x * stride + stride <= first_cols);
    let sx = from_x * stride;
    let mut out: Vec<T> = Vec::new();
    let mut k: usize = 0;
    while k < n
        invariant
            stride >= 1,
            n == stride * stride,
            sy == from_y * stride,
            sx == from_x * stride,
            sy + stride <= image@.len(),
            image@.len() <= usize::MAX,
            forall|y: int| sy <= y < sy + stride ==> sx + stride <= (#[trigger] image@[y])@.len(),
            k <= n,
            out@.len() == k,
            forall|j: int|
                0 <= j < k ==> #[trigger] out@[j] == image@[sy + j / stride as int]@[sx + j
                    % stride as int],
        decreases n - k,
    {
        let dy = k / stride;
        let dx = k % stride;
        assert(dy < stride) by (nonlinear_arith)
            requires
                dy == k / stride,
                k < stride * stride,
                stride >= 1,
        ;
        let row: &Vec<T> = &image[sy + dy];
        let cols = row.len();
        assert(sx + stride <= cols);
        let v: T = row[sx + dx];
        out.push(v);
        k = k + 1;
    }
    out
}

/// A mirror surface reflects while the bounce limit allows, and the cast one
/// bounce past the limit contributes nothing, so a chain of mirror
/// reflections ends after at most `max_depth + 1` reflections.
pub proof fn lemma_mirror_chain_ends(o: RenderOptions, m: Material, depth: usize)
    requires
        m.shininess.is_one_spec(),
    ensures
        depth <= o.max_depth ==> plan_of(o.max_depth, depth, Some(m)) == CastPlan::Reflect,
        depth > o.max_depth ==> forall|hit: Option<Material>|
            #[trigger] plan_of(o.max_depth, depth, hit) == CastPlan::Nothing,
{
    if m.shininess.magnitude == 0 {
        crate::number::lemma_pow10_positive(m.shininess.scale as nat);
    }
}

} // verus!
