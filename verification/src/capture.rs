//! From a screenshot's raw pixels to the PNG of a part of it.

use crate::error::{AppError, AppResult, ErrorView};
use vstd::prelude::*;
use vstd::slice::*;
use vstd::string::*;

verus! {

/// Where a monitor lies on the desktop, and its size.
#[derive(Debug, Clone, Copy, PartialEq, Eq, Structural)]
pub struct MonitorInfo {
    pub x: i32,
    pub y: i32,
    pub width: u32,
    pub height: u32,
}

/// The bytes of the first `rows` rows of a crop, one row after the other: of each row the `w`
/// pixels from column `x` on, four bytes a pixel. A row that is not wholly inside the screenshot
/// contributes nothing.
pub open spec fn cropped(
    rgba: Seq<u8>,
    img_w: int,
    x: int,
    y: int,
    w: int,
    rows: nat,
) -> Seq<u8>
    decreases rows,
{
    if rows == 0 {
        Seq::empty()
    } else {
        let before = cropped(rgba, img_w, x, y, w, (rows - 1) as nat);
        let start = ((y + rows - 1) * img_w + x) * 4;
        if start + w * 4 <= rgba.len() {
            before + rgba.subrange(start, start + w * 4)
        } else {
            before
        }
    }
}

/// The sizes and offsets of a crop, which are worked out in 32 bits, stay within them.
pub open spec fn crop_fits(img_w: u32, x: u32, y: u32, w: u32, h: u32) -> bool {
    &&& y + h <= u32::MAX
    &&& w * h * 4 <= u32::MAX
    &&& h > 0 ==> ((y + h - 1) * img_w + x) * 4 <= u32::MAX
}

/// Whether a crop's sizes and offsets stay within 32 bits.
pub fn crop_in_range(img_w: u32, x: u32, y: u32, w: u32, h: u32) -> (r: bool)
    ensures
        r == crop_fits(img_w, x, y, w, h),
{
    let limit: u128 = u32::MAX as u128;
    proof {
        assert(0 <= w * h <= 0xFFFF_FFFF * 0xFFFF_FFFF) by (nonlinear_arith)
            requires
                0 <= w <= 0xFFFF_FFFF,
                0 <= h <= 0xFFFF_FFFF,
        ;
        if h > 0 {
            assert(0 <= (y + h - 1) * img_w <= 0x1_FFFF_FFFE * 0xFFFF_FFFF) by (nonlinear_arith)
                requires
                    0 <= y + h - 1 <= 0x1_FFFF_FFFE,
                    0 <= img_w <= 0xFFFF_FFFF,
            ;
        }
    }
    if y as u128 + h as u128 > limit || (w as u128 * h as u128) * 4 > limit {
        return false;
    }
    h == 0 || ((y as u128 + h as u128 - 1) * img_w as u128 + x as u128) * 4 <= limit
}

proof fn lemma_row_in_range(img_w: u32, x: u32, y: u32, w: u32, h: u32, row: u32)
    requires
        crop_fits(img_w, x, y, w, h),
        y <= row < y + h,
    ensures
        0 <= row * img_w,
        (row * img_w + x) * 4 <= u32::MAX,
        w * 4 <= u32::MAX,
{
    assert(0 <= row * img_w <= (y + h - 1) * img_w) by (nonlinear_arith)
        requires
            0 <= row <= y + h - 1,
            0 <= img_w,
    ;
    assert(w <= w * h) by (nonlinear_arith)
        requires
            0 <= w,
            1 <= h,
    ;
}

/// Crops a rectangle out of a contiguous RGBA buffer (row-major, `img_w` pixels a row).
pub fn crop_rgba(rgba: &[u8], img_w: u32, x: u32, y: u32, w: u32, h: u32) -> (out: Vec<u8>)
    requires
        crop_fits(img_w, x, y, w, h),
    ensures
        out@ == cropped(rgba@, img_w as int, x as int, y as int, w as int, h as nat),
{
    let mut out: Vec<u8> = Vec::new();
    let mut row: u32 = y;
    while row < y + h
        invariant
            y <= row <= y + h,
            crop_fits(img_w, x, y, w, h),
            out@ == cropped(
                rgba@,
                img_w as int,
                x as int,
                y as int,
                w as int,
                (row - y) as nat,
            ),
        decreases y + h - row,
    {
        proof {
            lemma_row_in_range(img_w, x, y, w, h, row);
        }
        let start: u32 = (row * img_w + x) * 4;
        let end: u64 = start as u64 + (w * 4) as u64;
        if end <= rgba.len() as u64 {
            let piece: &[u8] = slice_subrange(rgba, start as usize, end as usize);
            out.extend_from_slice(piece);
        }
        row += 1;
        proof {
            assert(out@ =~= cropped(
                rgba@,
                img_w as int,
                x as int,
                y as int,
                w as int,
                (row - y) as nat,
            ));
        }
    }
    out
}

/// `len` bytes are enough for a `w` by `h` image, whose size can be worked out in memory sizes.
pub open spec fn image_fits(len: nat, w: u32, h: u32) -> bool {
    w * 4 <= usize::MAX && w * h * 4 <= len
}

/// What the `image` crate makes of a `w` by `h` image in PNG format: the file's bytes, or the
/// printed form of the encoder's error.
pub uninterp spec fn png_file(rgba: Seq<u8>, w: u32, h: u32) -> Result<Seq<u8>, Seq<char>>;

/// What the `image` crate's PNG decoder reads from a file: width, height and RGBA bytes.
pub uninterp spec fn png_pixels(file: Seq<u8>) -> (u32, u32, Seq<u8>);

/// The bytes of a buffer that belong to a `w` by `h` image: those at its front.
pub open spec fn image_bytes(rgba: Seq<u8>, w: u32, h: u32) -> Seq<u8> {
    rgba.take(w * h * 4)
}

/// A result by its views.
pub open spec fn file_view(r: Result<Vec<u8>, String>) -> Result<Seq<u8>, Seq<char>> {
    match r {
        Ok(bytes) => Ok(bytes@),
        Err(e) => Err(e@),
    }
}

/// `image::RgbaImage::from_raw`, which takes a buffer of at least `w * h * 4` bytes and refuses
/// a shorter one, and `write_to` in PNG format on the image that it gave. `None` where the
/// buffer was refused. The encoder refuses an image without pixels and no other, since writing to
/// memory does not fail. The buffer and the two sizes determine the file, and PNG is lossless:
/// `image::codecs::png::PngDecoder` reads back the two sizes and the image's bytes. How the file
/// is laid out is left unsaid.
#[verifier::external_body]
fn write_png(rgba: &[u8], w: u32, h: u32) -> (r: Option<Result<Vec<u8>, String>>)
    ensures
        r is Some <==> image_fits(rgba@.len(), w, h),
        r matches Some(file) ==> file_view(file) == png_file(rgba@, w, h),
        r matches Some(file) ==> (file is Ok <==> w > 0 && h > 0),
        r matches Some(Ok(png)) ==> png_pixels(png@) == (w, h, image_bytes(rgba@, w, h)),
{
    match image::RgbaImage::from_raw(w, h, rgba.to_vec()) {
        None => None,
        Some(img) => {
            let mut png: Vec<u8> = Vec::new();
            let mut cursor = std::io::Cursor::new(&mut png);
            let written = img.write_to(&mut cursor, image::ImageFormat::Png);
            Some(written.map(|()| png).map_err(|e| e.to_string()))
        },
    }
}

/// What encoding comes to, given what the image library answered.
pub open spec fn png_outcome(answer: Option<Result<Seq<u8>, Seq<char>>>) -> Result<
    Seq<u8>,
    ErrorView,
> {
    match answer {
        None => Err(ErrorView::Capture("invalid RGBA dimensions for PNG"@)),
        Some(Ok(png)) => Ok(png),
        Some(Err(e)) => Err(ErrorView::Capture("PNG encode error: "@ + e)),
    }
}

/// A result with a byte vector by its views.
pub open spec fn bytes_outcome(r: AppResult<Vec<u8>>) -> Result<Seq<u8>, ErrorView> {
    match r {
        Ok(bytes) => Ok(bytes@),
        Err(e) => Err(e@),
    }
}

/// Turns the image library's answer into the library's own result.
pub fn png_result(answer: Option<Result<Vec<u8>, String>>) -> (r: AppResult<Vec<u8>>)
    ensures
        bytes_outcome(r) == png_outcome(
            match answer {
                None => None,
                Some(file) => Some(file_view(file)),
            },
        ),
{
    match answer {
        None => Err(AppError::capture("invalid RGBA dimensions for PNG")),
        Some(Ok(png)) => Ok(png),
        Some(Err(e)) => Err(
            AppError::Capture("PNG encode error: ".to_owned().concat(e.as_str())),
        ),
    }
}

/// What encoding a `w` by `h` image comes to.
pub open spec fn encoded(rgba: Seq<u8>, w: u32, h: u32) -> Result<Seq<u8>, ErrorView> {
    png_outcome(
        if image_fits(rgba.len(), w, h) {
            Some(png_file(rgba, w, h))
        } else {
            None
        },
    )
}

/// Encodes an RGBA buffer as PNG. That succeeds exactly where the image has pixels and the buffer
/// holds them all, and decoding the file gives them back.
pub fn encode_png(rgba: &[u8], w: u32, h: u32) -> (r: AppResult<Vec<u8>>)
    ensures
        bytes_outcome(r) == encoded(rgba@, w, h),
        r is Ok <==> image_fits(rgba@.len(), w, h) && w > 0 && h > 0,
        r matches Ok(png) ==> png_pixels(png@) == (w, h, image_bytes(rgba@, w, h)),
{
    png_result(write_png(rgba, w, h))
}

proof fn lemma_row_inside(img_w: int, img_h: int, x: int, y: int, w: int, h: int, r: int)
    requires
        0 <= x,
        0 <= y,
        0 <= w,
        x + w <= img_w,
        y + h <= img_h,
        0 <= r < h,
    ensures
        0 <= ((y + r) * img_w + x) * 4,
        ((y + r) * img_w + x) * 4 + w * 4 <= img_w * img_h * 4,
{
    assert(0 <= (y + r) * img_w) by (nonlinear_arith)
        requires
            0 <= y + r,
            0 <= img_w,
    ;
    assert((y + r) * img_w + img_w <= img_w * img_h) by (nonlinear_arith)
        requires
            y + r + 1 <= img_h,
            0 <= img_w,
    ;
}

/// A crop of a rectangle that lies inside the screenshot has exactly four bytes for each of the
/// rectangle's pixels.
pub proof fn law_crop_has_the_size_of_its_rectangle(
    rgba: Seq<u8>,
    img_w: int,
    img_h: int,
    x: int,
    y: int,
    w: int,
    h: nat,
)
    requires
        0 <= x,
        0 <= y,
        0 <= w,
        x + w <= img_w,
        y + h <= img_h,
        img_w * img_h * 4 <= rgba.len(),
    ensures
        cropped(rgba, img_w, x, y, w, h).len() == w * h * 4,
    decreases h,
{
    if h > 0 {
        law_crop_has_the_size_of_its_rectangle(rgba, img_w, img_h, x, y, w, (h - 1) as nat);
        lemma_row_inside(img_w, img_h, x, y, w, h as int, h - 1);
        assert(w * (h - 1) + w == w * h) by (nonlinear_arith);
    } else {
        assert(w * h == 0) by (nonlinear_arith)
            requires
                h == 0,
        ;
    }
}

/// Byte `k` of the pixel in column `c` of row `r` of a crop is byte `k` of the pixel that many
/// columns and rows into the rectangle.
pub proof fn law_crop_keeps_every_pixel(
    rgba: Seq<u8>,
    img_w: int,
    img_h: int,
    x: int,
    y: int,
    w: int,
    h: nat,
    c: int,
    r: int,
    k: int,
)
    requires
        0 <= x,
        0 <= y,
        x + w <= img_w,
        y + h <= img_h,
        img_w * img_h * 4 <= rgba.len(),
        0 <= c < w,
        0 <= r < h,
        0 <= k < 4,
    ensures
        0 <= (r * w + c) * 4 + k < cropped(rgba, img_w, x, y, w, h).len(),
        cropped(rgba, img_w, x, y, w, h)[(r * w + c) * 4 + k] == rgba[((y + r) * img_w + x + c) * 4
            + k],
    decreases h,
{
    let before = cropped(rgba, img_w, x, y, w, (h - 1) as nat);
    law_crop_has_the_size_of_its_rectangle(rgba, img_w, img_h, x, y, w, (h - 1) as nat);
    law_crop_has_the_size_of_its_rectangle(rgba, img_w, img_h, x, y, w, h);
    lemma_row_inside(img_w, img_h, x, y, w, h as int, h - 1);
    assert(0 <= r * w) by (nonlinear_arith)
        requires
            0 <= r,
            0 <= w,
    ;
    assert(r * w + w <= w * h) by (nonlinear_arith)
        requires
            r + 1 <= h,
            0 <= w,
    ;
    if r < h - 1 {
        law_crop_keeps_every_pixel(rgba, img_w, img_h, x, y, w, (h - 1) as nat, c, r, k);
    } else {
        assert(r * w == w * (h - 1)) by (nonlinear_arith)
            requires
                r == h - 1,
        ;
    }
}

/// Row `r` of a rectangle lies wholly inside a screenshot of `len` bytes.
pub open spec fn row_fits(len: nat, img_w: int, x: int, y: int, w: int, r: int) -> bool {
    ((y + r) * img_w + x) * 4 + w * 4 <= len
}

/// A crop of `h` rows of which the first `kept`, and no others, lie inside the screenshot has the
/// size of those rows.
pub proof fn law_crop_leaves_out_rows_past_the_end(
    rgba: Seq<u8>,
    img_w: int,
    x: int,
    y: int,
    w: int,
    h: nat,
    kept: nat,
)
    requires
        0 <= x,
        0 <= y,
        0 <= w,
        0 <= img_w,
        kept <= h,
        forall|r: int|
            0 <= r < h ==> (#[trigger] row_fits(rgba.len(), img_w, x, y, w, r) <==> r < kept),
    ensures
        cropped(rgba, img_w, x, y, w, h).len() == kept * w * 4,
    decreases h,
{
    if h > 0 {
        let last = (h - 1) as nat;
        assert(0 <= (y + last) * img_w) by (nonlinear_arith)
            requires
                0 <= y + last,
                0 <= img_w,
        ;
        assert(row_fits(rgba.len(), img_w, x, y, w, last as int) <==> last < kept);
        if kept == h {
            law_crop_leaves_out_rows_past_the_end(rgba, img_w, x, y, w, last, last);
            assert(last * w * 4 + w * 4 == kept * w * 4) by (nonlinear_arith)
                requires
                    kept == last + 1,
            ;
        } else {
            law_crop_leaves_out_rows_past_the_end(rgba, img_w, x, y, w, last, kept);
        }
    } else {
        assert(kept * w * 4 == 0) by (nonlinear_arith)
            requires
                kept == 0,
        ;
    }
}

/// Of a rectangle that reaches past the end of the screenshot the crop keeps the rows that lie
/// inside, in their order: byte `j` of row `r` of it is byte `j` of that row of the rectangle.
pub proof fn law_crop_keeps_the_rows_that_fit(
    rgba: Seq<u8>,
    img_w: int,
    x: int,
    y: int,
    w: int,
    h: nat,
    kept: nat,
    r: int,
    j: int,
)
    requires
        0 <= x,
        0 <= y,
        0 <= w,
        0 <= img_w,
        kept <= h,
        forall|q: int|
            0 <= q < h ==> (#[trigger] row_fits(rgba.len(), img_w, x, y, w, q) <==> q < kept),
        0 <= r < kept,
        0 <= j < w * 4,
    ensures
        0 <= r * w * 4 + j < cropped(rgba, img_w, x, y, w, h).len(),
        cropped(rgba, img_w, x, y, w, h)[r * w * 4 + j] == rgba[((y + r) * img_w + x) * 4 + j],
    decreases h,
{
    let last = (h - 1) as nat;
    law_crop_leaves_out_rows_past_the_end(rgba, img_w, x, y, w, h, kept);
    assert(0 <= (y + last) * img_w) by (nonlinear_arith)
        requires
            0 <= y + last,
            0 <= img_w,
    ;
    assert(0 <= r * w * 4 && r * w * 4 + w * 4 <= kept * w * 4) by (nonlinear_arith)
        requires
            0 <= r,
            r + 1 <= kept,
            0 <= w,
    ;
    assert(row_fits(rgba.len(), img_w, x, y, w, last as int) <==> last < kept);
    if kept == h {
        law_crop_leaves_out_rows_past_the_end(rgba, img_w, x, y, w, last, last);
        if r < last {
            law_crop_keeps_the_rows_that_fit(rgba, img_w, x, y, w, last, last, r, j);
        } else {
            assert(r == last);
        }
    } else {
        law_crop_keeps_the_rows_that_fit(rgba, img_w, x, y, w, last, kept, r, j);
    }
}

/// An image that the buffer does not hold in full is refused with one error, and what the encoder
/// says of any other is passed on: its file as it is, its error word for word.
pub proof fn law_encoding_passes_on_the_encoders_answer(rgba: Seq<u8>, w: u32, h: u32)
    ensures
        rgba.len() < w * h * 4 ==> encoded(rgba, w, h) == Err::<Seq<u8>, ErrorView>(
            ErrorView::Capture("invalid RGBA dimensions for PNG"@),
        ),
        rgba.len() >= w * h * 4 && w * 4 <= usize::MAX ==> match png_file(rgba, w, h) {
            Ok(file) => encoded(rgba, w, h) == Ok::<Seq<u8>, ErrorView>(file),
            Err(e) => encoded(rgba, w, h) == Err::<Seq<u8>, ErrorView>(
                ErrorView::Capture("PNG encode error: "@ + e),
            ),
        },
{
}

/// A crop can be worked out exactly where the last byte offset of its last row, its own size and
/// its lower edge are numbers of 32 bits.
pub proof fn law_crop_range_is_32_bits(img_w: u32, x: u32, y: u32, w: u32, h: u32)
    ensures
        crop_fits(img_w, x, y, w, h) <==> {
            &&& y + h < 0x1_0000_0000
            &&& w * h * 4 < 0x1_0000_0000
            &&& h == 0 || ((y + h - 1) * img_w + x) * 4 < 0x1_0000_0000
        },
{
}

/// A buffer holds an image exactly where it has four bytes for each of its pixels and the length
/// of a row is one that memory can have; the image is then the front of the buffer.
pub proof fn law_images_are_the_front_of_their_buffer(rgba: Seq<u8>, w: u32, h: u32)
    ensures
        image_fits(rgba.len(), w, h) <==> w * h * 4 <= rgba.len() && w * 4 <= usize::MAX,
        image_fits(rgba.len(), w, h) ==> {
            &&& image_bytes(rgba, w, h).len() == w * h * 4
            &&& forall|i: int|
                0 <= i < w * h * 4 ==> #[trigger] image_bytes(rgba, w, h)[i] == rgba[i]
        },
        w * 4 > usize::MAX ==> encoded(rgba, w, h) == Err::<Seq<u8>, ErrorView>(
            ErrorView::Capture("invalid RGBA dimensions for PNG"@),
        ),
{
    assert(0 <= w * h) by (nonlinear_arith)
        requires
            0 <= w,
            0 <= h,
    ;
}

/// The encoder's answer is passed on as it is, whatever it was.
pub proof fn law_answers_are_passed_on(png: Seq<u8>, e: Seq<char>)
    ensures
        png_outcome(None) == Err::<Seq<u8>, ErrorView>(
            ErrorView::Capture("invalid RGBA dimensions for PNG"@),
        ),
        png_outcome(Some(Ok(png))) == Ok::<Seq<u8>, ErrorView>(png),
        png_outcome(Some(Err(e))) == Err::<Seq<u8>, ErrorView>(
            ErrorView::Capture("PNG encode error: "@ + e),
        ),
{
}

/// Results with bytes are seen as they are.
pub proof fn law_files_are_seen_as_they_are(bytes: Vec<u8>, text: String, e: AppError)
    ensures
        file_view(Ok(bytes)) == Ok::<Seq<u8>, Seq<char>>(bytes@),
        file_view(Err(text)) == Err::<Seq<u8>, Seq<char>>(text@),
        bytes_outcome(Ok(bytes)) == Ok::<Seq<u8>, ErrorView>(bytes@),
        bytes_outcome(Err(e)) == Err::<Seq<u8>, ErrorView>(e@),
{
}

} // verus!
