//! State behind the ground station's widgets. Each widget's drawing lives in
//! the presentation layer; what it draws — a caption, a pixel image, carousel
//! position, signal timestamps — is held and updated here.

use vstd::prelude::*;
use crate::utils::alloc_vec;

verus! {

/// A caption shown by a text widget.
pub struct Text {
    value: String,
}

impl Text {
    /// The current caption.
    pub closed spec fn value_spec(&self) -> Seq<char> {
        self.value@
    }

    /// An empty caption.
    pub fn new() -> (t: Text)
        ensures
            t.value_spec() == Seq::<char>::empty(),
    {
        Text { value: String::new() }
    }

    /// The current caption.
    pub fn value(&self) -> (r: &String)
        ensures
            r@ == self.value_spec(),
    {
        &self.value
    }

    /// Replaces the caption.
    pub fn set(&mut self, value: String)
        ensures
            final(self).value_spec() == value@,
    {
        self.value = value;
    }
}

/// Dimensions of a video stream as shown by the video widget.
pub struct Video {
    width: u32,
    height: u32,
}

impl Video {
    /// A stream of the given dimensions.
    pub fn new(width: u32, height: u32) -> (v: Video)
        ensures
            v.width_spec() == width,
            v.height_spec() == height,
    {
        Video { width, height }
    }

    /// Width in pixels.
    pub closed spec fn width_spec(&self) -> u32 {
        self.width
    }

    /// Height in pixels.
    pub closed spec fn height_spec(&self) -> u32 {
        self.height
    }

    /// Width in pixels.
    pub fn width(&self) -> (r: u32)
        ensures
            r == self.width_spec(),
    {
        self.width
    }

    /// Height in pixels.
    pub fn height(&self) -> (r: u32)
        ensures
            r == self.height_spec(),
    {
        self.height
    }
}

/// The video widget's decode-side state: the fixed-size RGB frame buffer the
/// decode loop writes and the presentation layer reads, and the decimation
/// factor the loop applies.
pub struct VideoDecoder {
    /// Frame buffer of exactly `width * height * 3` bytes, interleaved RGB.
    pub rgb: Vec<u8>,
    /// Render every `skip_frames`-th produced frame; `0` renders all.
    pub skip_frames: usize,
}

impl VideoDecoder {
    /// A zeroed frame buffer for `width` by `height` pixels.
    pub fn new(width: u32, height: u32, skip_frames: usize) -> (d: VideoDecoder)
        requires
            width * height * 3 <= usize::MAX,
        ensures
            d.rgb@.len() == width * height * 3,
            forall|i: int| 0 <= i < d.rgb@.len() ==> d.rgb@[i] == 0u8,
            d.skip_frames == skip_frames,
    {
        let size = (width as usize) * (height as usize) * 3;
        VideoDecoder { rgb: alloc_vec(size), skip_frames }
    }
}

/// State of the flight-log widget. Nothing is recorded yet; the widget only
/// draws its background.
pub struct FlightLog {}

/// Position and visibility of the image carousel.
pub struct ImageCarousel {
    image_dir: String,
    number_of_images: usize,
    offset: usize,
    show: bool,
}

impl ImageCarousel {
    /// A hidden carousel at its leftmost position.
    pub fn new(image_dir: String, number_of_images: usize) -> (c: ImageCarousel)
        ensures
            c.image_dir_spec() == image_dir@,
            c.number_of_images_spec() == number_of_images,
            c.offset_spec() == 0,
            c.show_spec() == false,
    {
        ImageCarousel { image_dir, number_of_images, offset: 0, show: false }
    }

    /// Directory the carousel's images are listed from.
    pub closed spec fn image_dir_spec(&self) -> Seq<char> {
        self.image_dir@
    }

    /// How many images the carousel shows at once.
    pub closed spec fn number_of_images_spec(&self) -> usize {
        self.number_of_images
    }

    /// How far the carousel is turned to the right.
    pub closed spec fn offset_spec(&self) -> usize {
        self.offset
    }

    /// Whether the carousel is shown.
    pub closed spec fn show_spec(&self) -> bool {
        self.show
    }

    /// How far the carousel is turned to the right.
    pub fn offset(&self) -> (r: usize)
        ensures
            r == self.offset_spec(),
    {
        self.offset
    }

    /// Whether the carousel is shown.
    pub fn show(&self) -> (r: bool)
        ensures
            r == self.show_spec(),
    {
        self.show
    }

    /// Directory the carousel's images are listed from.
    pub fn image_dir(&self) -> (r: &String)
        ensures
            r@ == self.image_dir_spec(),
    {
        &self.image_dir
    }

    /// How many images the carousel shows at once.
    pub fn number_of_images(&self) -> (r: usize)
        ensures
            r == self.number_of_images_spec(),
    {
        self.number_of_images
    }

    /// Turns one position to the right.
    pub fn turn_right(&mut self)
        requires
            old(self).offset_spec() < usize::MAX,
        ensures
            final(self).offset_spec() == old(self).offset_spec() + 1,
            final(self).show_spec() == old(self).show_spec(),
            final(self).image_dir_spec() == old(self).image_dir_spec(),
            final(self).number_of_images_spec() == old(self).number_of_images_spec(),
    {
        self.offset = self.offset + 1;
    }

    /// Turns one position to the left, stopping at the leftmost position.
    pub fn turn_left(&mut self)
        ensures
            final(self).offset_spec() == if old(self).offset_spec() >= 1 {
                (old(self).offset_spec() - 1) as usize
            } else {
                0usize
            },
            final(self).show_spec() == old(self).show_spec(),
            final(self).image_dir_spec() == old(self).image_dir_spec(),
            final(self).number_of_images_spec() == old(self).number_of_images_spec(),
    {
        if self.offset >= 1 {
            self.offset = self.offset - 1;
        }
    }

    /// Shows the carousel if hidden, hides it if shown.
    pub fn toggle_show(&mut self)
        ensures
            final(self).show_spec() == !old(self).show_spec(),
            final(self).offset_spec() == old(self).offset_spec(),
            final(self).image_dir_spec() == old(self).image_dir_spec(),
            final(self).number_of_images_spec() == old(self).number_of_images_spec(),
    {
        self.show = if self.show {
            false
        } else {
            true
        };
    }
}

/// When the light signal was last seen, in milliseconds.
pub struct LightSignal {
    tm: u128,
}

impl LightSignal {
    /// A signal last seen at `tm`.
    pub fn new(tm: u128) -> (s: LightSignal)
        ensures
            s.timestamp_spec() == tm,
    {
        LightSignal { tm }
    }

    /// When the signal was last seen.
    pub closed spec fn timestamp_spec(&self) -> u128 {
        self.tm
    }

    /// When the signal was last seen.
    pub fn last_seen(&self) -> (r: u128)
        ensures
            r == self.timestamp_spec(),
    {
        self.tm
    }

    /// Records that the signal was seen at `tm`.
    pub fn timestamp(&mut self, tm: u128)
        ensures
            final(self).timestamp_spec() == tm,
    {
        self.tm = tm;
    }
}

/// A raw RGB image as shown by the image widget.
pub struct RawImage {
    pub(crate) rgb: Vec<u8>,
    width: u32,
    height: u32,
}

impl RawImage {
    /// A zeroed image of `width` by `height` pixels.
    pub fn new(width: u32, height: u32) -> (r: RawImage)
        requires
            width * height * 3 <= usize::MAX,
        ensures
            r.rgb_spec().len() == width * height * 3,
            forall|i: int| 0 <= i < r.rgb_spec().len() ==> r.rgb_spec()[i] == 0u8,
            r.width_spec() == width,
            r.height_spec() == height,
    {
        let size = (width as usize) * (height as usize) * 3;
        RawImage { rgb: alloc_vec(size), width, height }
    }

    /// The pixel bytes, interleaved RGB, row-major.
    pub closed spec fn rgb_spec(&self) -> Seq<u8> {
        self.rgb@
    }

    /// Width in pixels.
    pub closed spec fn width_spec(&self) -> u32 {
        self.width
    }

    /// Height in pixels.
    pub closed spec fn height_spec(&self) -> u32 {
        self.height
    }

    /// The pixel bytes, interleaved RGB, row-major.
    pub fn rgb(&self) -> (r: &Vec<u8>)
        ensures
            r@ == self.rgb_spec(),
    {
        &self.rgb
    }

    /// Width in pixels.
    pub fn width(&self) -> (r: u32)
        ensures
            r == self.width_spec(),
    {
        self.width
    }

    /// Height in pixels.
    pub fn height(&self) -> (r: u32)
        ensures
            r == self.height_spec(),
    {
        self.height
    }

    /// Records new dimensions; the pixel bytes are left as they are.
    pub fn set_size(&mut self, width: u32, height: u32)
        ensures
            final(self).width_spec() == width,
            final(self).height_spec() == height,
            final(self).rgb_spec() == old(self).rgb_spec(),
    {
        self.width = width;
        self.height = height;
    }

    /// Replaces the pixel bytes with a copy of `rgb`.
    pub fn set_image(&mut self, rgb: &Vec<u8>)
        ensures
            final(self).rgb_spec() == rgb@,
            final(self).width_spec() == old(self).width_spec(),
            final(self).height_spec() == old(self).height_spec(),
    {
        let mut copy: Vec<u8> = Vec::new();
        let mut i: usize = 0;
        while i < rgb.len()
            invariant
                i <= rgb@.len(),
                copy@ =~= rgb@.subrange(0, i as int),
            decreases rgb@.len() - i,
        {
            copy.push(rgb[i]);
            i = i + 1;
        }
        proof {
            assert(copy@ =~= rgb@);
        }
        self.rgb = copy;
    }
}

/// Byte offset of pixel `(x, y)` in an RGBA buffer with `pitch` bytes per
/// row.
pub open spec fn rgba_base(y: int, x: int, pitch: int) -> int {
    y * pitch + 4 * x
}

/// Byte offset of pixel `(x, y)` in a packed RGB image of width `width`.
pub open spec fn rgb_base(y: int, x: int, width: int) -> int {
    3 * (y * width + x)
}

/// Pixel `(x, y)` of the RGBA buffer `b` carries pixel `(x, y)` of the RGB
/// image `rgb`, with full opacity.
pub open spec fn pixel_expanded(
    b: Seq<u8>,
    rgb: Seq<u8>,
    y: int,
    x: int,
    pitch: int,
    width: int,
) -> bool {
    &&& b[rgba_base(y, x, pitch)] == rgb[rgb_base(y, x, width)]
    &&& b[rgba_base(y, x, pitch) + 1] == rgb[rgb_base(y, x, width) + 1]
    &&& b[rgba_base(y, x, pitch) + 2] == rgb[rgb_base(y, x, width) + 2]
    &&& b[rgba_base(y, x, pitch) + 3] == 255u8
}

/// Byte `i` lies in the four RGBA bytes of pixel `(x, y)`.
pub open spec fn in_pixel_span(i: int, y: int, x: int, pitch: int) -> bool {
    rgba_base(y, x, pitch) <= i < rgba_base(y, x, pitch) + 4
}

/// Pixel `(xx, yy)` lies before position `(x, y)` in row-major order, within
/// an image of width `width`.
pub open spec fn pixel_before(yy: int, xx: int, y: int, x: int, width: int) -> bool {
    (0 <= yy < y && 0 <= xx < width) || (yy == y && 0 <= xx < x)
}

/// Expands a packed RGB image into an RGBA pixel buffer laid out with `pitch`
/// bytes per row, giving every pixel full opacity. Bytes outside the written
/// pixels (row padding past `4 * width`, rows past `height`) are untouched.
#[verifier::loop_isolation(false)]
pub fn expand_rgb_to_rgba(
    rgb: &Vec<u8>,
    width: usize,
    height: usize,
    pitch: usize,
    buffer: &mut Vec<u8>,
)
    requires
        4 * width <= pitch,
        height * pitch <= old(buffer)@.len(),
        3 * (height * width) <= rgb@.len(),
    ensures
        final(buffer)@.len() == old(buffer)@.len(),
        forall|yy: int, xx: int|
            0 <= yy < height && 0 <= xx < width ==> pixel_expanded(
                final(buffer)@,
                rgb@,
                yy,
                xx,
                pitch as int,
                width as int,
            ),
        forall|i: int|
            0 <= i < old(buffer)@.len() && !(exists|yy: int, xx: int|
                pixel_before(yy, xx, height as int, 0, width as int) && in_pixel_span(
                    i,
                    yy,
                    xx,
                    pitch as int,
                )) ==> final(buffer)@[i] == old(buffer)@[i],
{
    proof {
        assert(buffer.len() == buffer@.len());
        assert(rgb.len() == rgb@.len());
    }
    let mut y: usize = 0;
    let mut row_base: usize = 0;
    let mut src_base: usize = 0;
    while y < height
        invariant
            y <= height,
            row_base == y * pitch,
            src_base == 3 * (y * width),
            buffer@.len() == old(buffer)@.len(),
            forall|yy: int, xx: int|
                pixel_before(yy, xx, y as int, 0, width as int) ==> pixel_expanded(
                    buffer@,
                    rgb@,
                    yy,
                    xx,
                    pitch as int,
                    width as int,
                ),
            forall|i: int|
                0 <= i < buffer@.len() && !(exists|yy: int, xx: int|
                    pixel_before(yy, xx, y as int, 0, width as int) && in_pixel_span(
                        i,
                        yy,
                        xx,
                        pitch as int,
                    )) ==> buffer@[i] == old(buffer)@[i],
        decreases height - y,
    {
        proof {
            vstd::arithmetic::mul::lemma_mul_inequality(y as int + 1, height as int, pitch as int);
            vstd::arithmetic::mul::lemma_mul_inequality(y as int + 1, height as int, width as int);
            assert(row_base + pitch == (y + 1) * pitch) by (nonlinear_arith)
                requires row_base == y * pitch;
            assert(src_base + 3 * width == 3 * ((y + 1) * width)) by (nonlinear_arith)
                requires src_base == 3 * (y * width);
        }
        let mut x: usize = 0;
        let mut off: usize = row_base;
        let mut src: usize = src_base;
        while x < width
            invariant
                x <= width,
                off == row_base + 4 * x,
                src == src_base + 3 * x,
                row_base + pitch <= buffer@.len(),
                src_base + 3 * width <= rgb@.len(),
                buffer@.len() == old(buffer)@.len(),
                forall|yy: int, xx: int|
                    pixel_before(yy, xx, y as int, x as int, width as int) ==> pixel_expanded(
                        buffer@,
                        rgb@,
                        yy,
                        xx,
                        pitch as int,
                        width as int,
                    ),
                forall|i: int|
                    0 <= i < buffer@.len() && !(exists|yy: int, xx: int|
                        pixel_before(yy, xx, y as int, x as int, width as int) && in_pixel_span(
                            i,
                            yy,
                            xx,
                            pitch as int,
                        )) ==> buffer@[i] == old(buffer)@[i],
            decreases width - x,
        {
            let ghost x0 = x as int;
            let ghost off0 = off as int;
            let ghost src0 = src as int;
            proof {
                assert(rgba_base(y as int, x0, pitch as int) == off0);
                assert(rgb_base(y as int, x0, width as int) == src0);
                assert forall|yy: int, xx: int|
                    pixel_before(yy, xx, y as int, x0, width as int) implies rgba_base(
                    yy,
                    xx,
                    pitch as int,
                ) + 4 <= off0 by {
                    if 0 <= yy < y {
                        vstd::arithmetic::mul::lemma_mul_inequality(
                            yy + 1,
                            y as int,
                            pitch as int,
                        );
                        assert(yy * pitch + pitch == (yy + 1) * pitch) by (nonlinear_arith);
                    }
                }
            }
            let ghost buf_pre = buffer@;
            buffer.set(off, rgb[src]);
            buffer.set(off + 1, rgb[src + 1]);
            buffer.set(off + 2, rgb[src + 2]);
            buffer.set(off + 3, 255);
            x = x + 1;
            off = off + 4;
            src = src + 3;
            proof {
                assert(forall|i: int|
                    0 <= i < buffer@.len() && !(off0 <= i < off0 + 4) ==> buffer@[i] == buf_pre[
                        i
                    ]);
                assert(pixel_expanded(buffer@, rgb@, y as int, x0, pitch as int, width as int));
                assert forall|yy: int, xx: int|
                    pixel_before(yy, xx, y as int, x as int, width as int) implies pixel_expanded(
                    buffer@,
                    rgb@,
                    yy,
                    xx,
                    pitch as int,
                    width as int,
                ) by {
                    if !(yy == y as int && xx == x0) {
                        assert(pixel_before(yy, xx, y as int, x0, width as int));
                        assert(rgba_base(yy, xx, pitch as int) + 4 <= off0);
                        assert(pixel_expanded(buf_pre, rgb@, yy, xx, pitch as int, width as int));
                    }
                }
                assert forall|i: int|
                    0 <= i < buffer@.len() && !(exists|yy: int, xx: int|
                        pixel_before(yy, xx, y as int, x as int, width as int) && in_pixel_span(
                            i,
                            yy,
                            xx,
                            pitch as int,
                        )) implies buffer@[i] == old(buffer)@[i] by {
                    assert(pixel_before(y as int, x0, y as int, x as int, width as int));
                    assert(!in_pixel_span(i, y as int, x0, pitch as int));
                    assert(buffer@[i] == buf_pre[i]);
                    if exists|yy: int, xx: int|
                        pixel_before(yy, xx, y as int, x0, width as int) && in_pixel_span(
                            i,
                            yy,
                            xx,
                            pitch as int,
                        ) {
                        let (yy, xx) = choose|yy: int, xx: int|
                            pixel_before(yy, xx, y as int, x0, width as int) && in_pixel_span(
                                i,
                                yy,
                                xx,
                                pitch as int,
                            );
                        assert(pixel_before(yy, xx, y as int, x as int, width as int));
                        assert(false);
                    }
                }
            }
        }
        proof {
            vstd::arithmetic::mul::lemma_mul_inequality(y as int + 1, height as int, pitch as int);
            vstd::arithmetic::mul::lemma_mul_inequality(y as int + 1, height as int, width as int);
            assert(row_base + pitch == (y + 1) * pitch) by (nonlinear_arith)
                requires row_base == y * pitch;
            assert(src_base + 3 * width == 3 * ((y + 1) * width)) by (nonlinear_arith)
                requires src_base == 3 * (y * width);
        }
        row_base = row_base + pitch;
        src_base = src_base + 3 * width;
        y = y + 1;
        proof {
            assert forall|yy: int, xx: int|
                pixel_before(yy, xx, y as int, 0, width as int) implies pixel_before(
                yy,
                xx,
                (y - 1) as int,
                width as int,
                width as int,
            ) by {}
        }
    }
    proof {
        assert forall|yy: int, xx: int|
            0 <= yy < height && 0 <= xx < width implies pixel_expanded(
            buffer@,
            rgb@,
            yy,
            xx,
            pitch as int,
            width as int,
        ) by {
            assert(pixel_before(yy, xx, height as int, 0, width as int));
        }
    }
}

} // verus!
