use vstd::prelude::*;

use crate::settings::ImageSettings;

verus! {

/// An 8-bit RGB image of the `image` crate. Verus cannot declare
/// `image::ImageBuffer` itself (its pixel parameter is bound by an outside
/// trait), so the buffer is held here and described by `picture_pixels`.
#[verifier::external_body]
pub struct Picture {
    pub image: image::RgbImage,
}

/// The pixels of a picture, keyed by `(column, row)`; the domain is every
/// coordinate inside the image.
pub uninterp spec fn picture_pixels(p: Picture) -> Map<(int, int), (u8, u8, u8)>;

/// The map of a `width` by `height` picture whose pixels are all black.
pub open spec fn blank_pixels(width: int, height: int) -> Map<(int, int), (u8, u8, u8)> {
    Map::new(|p: (int, int)| 0 <= p.0 < width && 0 <= p.1 < height, |p: (int, int)| (0u8, 0u8, 0u8))
}

/// Relies on `image::ImageBuffer::new`: an image of the given size with every
/// channel zero. It panics when the `3 * width * height` channels overflow
/// `usize`, and allocating more than `isize::MAX` bytes panics too.
#[verifier::external_body]
fn blank_picture(width: u32, height: u32) -> (r: Picture)
    requires
        3 * width * height <= isize::MAX,
    ensures
        picture_pixels(r) == blank_pixels(width as int, height as int),
{
    Picture { image: image::RgbImage::new(width, height) }
}

/// Relies on `image::ImageBuffer::put_pixel`: the pixel at `(x, y)` is
/// replaced and nothing else changes. It panics outside the image.
#[verifier::external_body]
fn put_pixel(p: &mut Picture, x: u32, y: u32, rgb: (u8, u8, u8))
    requires
        picture_pixels(*old(p)).dom().contains((x as int, y as int)),
    ensures
        picture_pixels(*final(p)) == picture_pixels(*old(p)).insert((x as int, y as int), rgb),
{
    p.image.put_pixel(x, y, image::Rgb([rgb.0, rgb.1, rgb.2]));
}

/// The picture that shows a frame: column `x`, row `y` from the top, shows
/// frame pixel `(x, height - 1 - y)`.
pub open spec fn frame_pixels(s: ImageSettings, frame: Seq<(u8, u8, u8)>) -> Map<
    (int, int),
    (u8, u8, u8),
> {
    Map::new(
        |p: (int, int)| 0 <= p.0 < s.width && 0 <= p.1 < s.height,
        |p: (int, int)| frame[s.index_spec(p.0, s.image_row_spec(p.1))],
    )
}

/// The picture after the frame rows below `rows` have been written, and the
/// first `cols` pixels of row `rows`; the rest is still black.
spec fn partly_written(s: ImageSettings, frame: Seq<(u8, u8, u8)>, rows: int, cols: int) -> Map<
    (int, int),
    (u8, u8, u8),
> {
    Map::new(
        |p: (int, int)| 0 <= p.0 < s.width && 0 <= p.1 < s.height,
        |p: (int, int)|
            {
                let j = s.image_row_spec(p.1);
                if j < rows || (j == rows && p.0 < cols) {
                    frame[s.index_spec(p.0, j)]
                } else {
                    (0u8, 0u8, 0u8)
                }
            },
    )
}

/// Lays out a frame of 8-bit colors, stored column by column from the
/// bottom row up, as a picture whose first row is the top of the frame.
pub fn assemble(s: &ImageSettings, frame: &Vec<(u8, u8, u8)>) -> (r: Picture)
    requires
        s.wf(),
        frame@.len() == s.pixel_count_spec(),
    ensures
        picture_pixels(r) == frame_pixels(*s, frame@),
{
    let mut picture = blank_picture(s.width, s.height);
    assert(picture_pixels(picture) =~= partly_written(*s, frame@, 0, 0));
    let mut jj: u32 = 0;
    while jj < s.height
        invariant
            s.wf(),
            frame@.len() == s.pixel_count_spec(),
            jj <= s.height,
            picture_pixels(picture) == partly_written(*s, frame@, jj as int, 0),
        decreases s.height - jj,
    {
        let row = s.image_row(jj);
        let mut ii: u32 = 0;
        while ii < s.width
            invariant
                s.wf(),
                frame@.len() == s.pixel_count_spec(),
                jj < s.height,
                row == s.image_row_spec(jj as int),
                ii <= s.width,
                picture_pixels(picture) == partly_written(*s, frame@, jj as int, ii as int),
            decreases s.width - ii,
        {
            let k = s.index_of(ii, jj);
            put_pixel(&mut picture, ii, row, frame[k]);
            assert(picture_pixels(picture) =~= partly_written(
                *s,
                frame@,
                jj as int,
                ii + 1,
            ));
            ii = ii + 1;
        }
        assert(picture_pixels(picture) =~= partly_written(*s, frame@, jj + 1, 0));
        jj = jj + 1;
    }
    assert(picture_pixels(picture) =~= frame_pixels(*s, frame@));
    picture
}

} // verus!
