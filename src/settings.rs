use vstd::prelude::*;

verus! {

/// Why a set of image or render settings was refused.
#[derive(Clone, Copy, Debug, PartialEq, Eq, Structural)]
pub enum SettingsError {
    /// Fewer than two pixel columns or rows: the image plane is spanned by
    /// dividing by `width - 1` and `height - 1`.
    ImageTooSmall,
    /// The 8-bit RGB picture of the frame would not fit in memory.
    ImageTooLarge,
    /// A render needs at least one frame.
    NoFrames,
    /// Each frame needs at least one sample per pixel.
    NoSamples,
}

/// Size of the rendered image, and where each pixel sits in a frame buffer.
///
/// A frame is filled column by column, each column from the bottom row up:
/// pixel `(i, j)`, column `i` from the left and row `j` from the bottom, is
/// entry `i * height + j`.
pub struct ImageSettings {
    pub width: u32,
    pub height: u32,
}

impl ImageSettings {
    /// At least two columns and rows, and three bytes a pixel fit in one
    /// allocation.
    pub open spec fn wf(&self) -> bool {
        &&& self.width >= 2
        &&& self.height >= 2
        &&& 3 * self.width * self.height <= isize::MAX
    }

    pub open spec fn pixel_count_spec(&self) -> int {
        self.width * self.height
    }

    /// Entry of the frame buffer that holds pixel `(i, j)`.
    pub open spec fn index_spec(&self, i: int, j: int) -> int {
        i * self.height + j
    }

    /// Image row (counted from the top) that shows row `j` (counted from
    /// the bottom).
    pub open spec fn image_row_spec(&self, j: int) -> int {
        self.height - 1 - j
    }

    pub fn new(width: u32, height: u32) -> (r: Result<ImageSettings, SettingsError>)
        ensures
            width < 2 || height < 2 <==> r == Err::<ImageSettings, SettingsError>(
                SettingsError::ImageTooSmall,
            ),
            width >= 2 && height >= 2 && 3 * width * height > isize::MAX <==> r == Err::<
                ImageSettings,
                SettingsError,
            >(SettingsError::ImageTooLarge),
            r is Ok <==> width >= 2 && height >= 2 && 3 * width * height <= isize::MAX,
            r is Ok ==> r->Ok_0.wf() && r->Ok_0.width == width && r->Ok_0.height == height,
    {
        if width < 2 || height < 2 {
            return Err(SettingsError::ImageTooSmall);
        }
        assert(width * height <= 0xffff_fffe_0000_0001 && 3 * width * height == 3 * (width
            * height)) by (nonlinear_arith)
            requires
                width <= 0xffff_ffff,
                height <= 0xffff_ffff,
        ;
        let pixels: u64 = width as u64 * height as u64;
        if pixels > (isize::MAX as u64) / 3 {
            return Err(SettingsError::ImageTooLarge);
        }
        Ok(ImageSettings { width, height })
    }

    /// Number of pixels in a frame.
    pub fn pixel_count(&self) -> (r: usize)
        requires
            self.wf(),
        ensures
            r == self.pixel_count_spec(),
    {
        proof {
            lemma_frame_fits(*self);
        }
        self.width as usize * self.height as usize
    }

    /// Entry of the frame buffer that holds pixel `(i, j)`.
    pub fn index_of(&self, i: u32, j: u32) -> (r: usize)
        requires
            self.wf(),
            i < self.width,
            j < self.height,
        ensures
            r == self.index_spec(i as int, j as int),
            r < self.pixel_count_spec(),
    {
        proof {
            lemma_frame_fits(*self);
            lemma_index_in_frame(i as int, j as int, self.width as int, self.height as int);
        }
        i as usize * self.height as usize + j as usize
    }

    /// The pixel `(i, j)` that frame buffer entry `k` holds.
    pub fn pixel_at(&self, k: usize) -> (r: (u32, u32))
        requires
            self.wf(),
            k < self.pixel_count_spec(),
        ensures
            r.0 < self.width,
            r.1 < self.height,
            self.index_spec(r.0 as int, r.1 as int) == k,
    {
        let h = self.height as usize;
        let i = k / h;
        let j = k % h;
        proof {
            lemma_split_index(k as int, self.width as int, h as int);
        }
        (i as u32, j as u32)
    }

    /// Image row, counted from the top, that shows row `j` of the frame,
    /// counted from the bottom.
    pub fn image_row(&self, j: u32) -> (r: u32)
        requires
            j < self.height,
        ensures
            r == self.image_row_spec(j as int),
    {
        self.height - 1 - j
    }
}

/// How much work a render does: the number of independent frames, the
/// samples taken for each pixel in each frame, and the bounce limit of each
/// path.
pub struct RenderSettings {
    pub frame_count: u32,
    pub samples_per_frame: u32,
    pub max_depth: u32,
}

impl RenderSettings {
    /// At least one frame, and at least one sample per pixel in each.
    pub open spec fn wf(&self) -> bool {
        self.frame_count >= 1 && self.samples_per_frame >= 1
    }

    /// Samples that end up averaged into each pixel of the final image.
    pub open spec fn samples_per_pixel_spec(&self) -> int {
        self.frame_count * self.samples_per_frame
    }

    pub fn new(frame_count: u32, samples_per_frame: u32, max_depth: u32) -> (r: Result<
        RenderSettings,
        SettingsError,
    >)
        ensures
            frame_count == 0 <==> r == Err::<RenderSettings, SettingsError>(
                SettingsError::NoFrames,
            ),
            frame_count > 0 && samples_per_frame == 0 <==> r == Err::<
                RenderSettings,
                SettingsError,
            >(SettingsError::NoSamples),
            r is Ok <==> frame_count > 0 && samples_per_frame > 0,
            r is Ok ==> r->Ok_0.wf() && r->Ok_0.frame_count == frame_count
                && r->Ok_0.samples_per_frame == samples_per_frame && r->Ok_0.max_depth
                == max_depth,
    {
        if frame_count == 0 {
            Err(SettingsError::NoFrames)
        } else if samples_per_frame == 0 {
            Err(SettingsError::NoSamples)
        } else {
            Ok(RenderSettings { frame_count, samples_per_frame, max_depth })
        }
    }

    /// Spreads a budget of samples per pixel evenly over `frame_count`
    /// frames; the remainder of the division is not rendered.
    pub fn from_budget(total_samples: u32, frame_count: u32, max_depth: u32) -> (r: Result<
        RenderSettings,
        SettingsError,
    >)
        ensures
            frame_count == 0 <==> r == Err::<RenderSettings, SettingsError>(
                SettingsError::NoFrames,
            ),
            frame_count > 0 && total_samples < frame_count <==> r == Err::<
                RenderSettings,
                SettingsError,
            >(SettingsError::NoSamples),
            r is Ok <==> frame_count > 0 && total_samples >= frame_count,
            r is Ok ==> r->Ok_0.wf() && r->Ok_0.frame_count == frame_count
                && r->Ok_0.samples_per_frame == total_samples / frame_count
                && r->Ok_0.max_depth == max_depth,
    {
        if frame_count == 0 {
            return Err(SettingsError::NoFrames);
        }
        let samples = total_samples / frame_count;
        proof {
            if total_samples >= frame_count {
                vstd::arithmetic::div_mod::lemma_div_non_zero(total_samples as int, frame_count as int);
            } else {
                vstd::arithmetic::div_mod::lemma_basic_div(total_samples as int, frame_count as int);
            }
        }
        RenderSettings::new(frame_count, samples, max_depth)
    }

    /// Samples averaged into each pixel of the final image, over all frames.
    pub fn samples_per_pixel(&self) -> (r: u64)
        ensures
            r == self.samples_per_pixel_spec(),
    {
        assert(self.frame_count * self.samples_per_frame <= 0xffff_fffe_0000_0001) by (nonlinear_arith)
            requires
                self.frame_count <= 0xffff_ffff,
                self.samples_per_frame <= 0xffff_ffff,
        ;
        self.frame_count as u64 * self.samples_per_frame as u64
    }
}

/// Rendering `n` frames of `s` samples each puts as many samples into every
/// pixel as one frame of `n * s` samples, with the same bounce limit.
pub proof fn lemma_frames_trade_for_samples(n: u32, s: u32, max_depth: u32)
    requires
        n >= 1,
        s >= 1,
        n * s <= u32::MAX,
    ensures
        ({
            let split = RenderSettings { frame_count: n, samples_per_frame: s, max_depth };
            let single = RenderSettings {
                frame_count: 1,
                samples_per_frame: (n * s) as u32,
                max_depth,
            };
            &&& split.wf() && single.wf()
            &&& split.samples_per_pixel_spec() == single.samples_per_pixel_spec()
        }),
{
    assert(n * s >= 1) by (nonlinear_arith)
        requires
            n >= 1,
            s >= 1,
    ;
}

proof fn lemma_frame_fits(s: ImageSettings)
    requires
        s.wf(),
    ensures
        s.width * s.height <= isize::MAX,
{
    assert(s.width * s.height <= 3 * s.width * s.height) by (nonlinear_arith);
}

proof fn lemma_index_in_frame(i: int, j: int, w: int, h: int)
    requires
        0 <= i < w,
        0 <= j < h,
    ensures
        0 <= i * h + j < w * h,
{
    assert(i * h + j < w * h) by (nonlinear_arith)
        requires
            0 <= i < w,
            0 <= j < h,
    ;
    assert(0 <= i * h) by (nonlinear_arith)
        requires
            0 <= i,
            0 <= h,
    ;
}

proof fn lemma_split_index(k: int, w: int, h: int)
    requires
        0 <= k < w * h,
        h > 0,
    ensures
        0 <= k / h < w,
        0 <= k % h < h,
        (k / h) * h + k % h == k,
{
    vstd::arithmetic::div_mod::lemma_fundamental_div_mod(k, h);
    vstd::arithmetic::div_mod::lemma_div_pos_is_pos(k, h);
    vstd::arithmetic::div_mod::lemma_mod_bound(k, h);
    vstd::arithmetic::mul::lemma_mul_is_commutative(k / h, h);
    assert(k / h < w) by (nonlinear_arith)
        requires
            k == h * (k / h) + k % h,
            0 <= k % h,
            k < w * h,
            h > 0,
    ;
}

/// Pixel `(i, j)` and frame buffer entry `index_of(i, j)` determine each
/// other: no two pixels share an entry, and every entry of the buffer holds
/// one pixel.
pub proof fn lemma_index_one_to_one(s: ImageSettings, i: int, j: int, k: int)
    requires
        s.wf(),
        0 <= i < s.width,
        0 <= j < s.height,
        0 <= k < s.pixel_count_spec(),
    ensures
        0 <= s.index_spec(i, j) < s.pixel_count_spec(),
        s.index_spec(i, j) == k <==> (i == k / (s.height as int) && j == k % (s.height as int)),
{
    let h = s.height as int;
    lemma_index_in_frame(i, j, s.width as int, h);
    lemma_split_index(k, s.width as int, h);
    if s.index_spec(i, j) == k {
        vstd::arithmetic::div_mod::lemma_fundamental_div_mod_converse(k, h, i, j);
    }
}

} // verus!
