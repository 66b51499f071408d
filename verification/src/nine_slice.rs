//! Nine-slice images: an image cut into a three-by-three grid of slices (four corners, four
//! borders and a center) and reassembled at another size by repeating the borders and the
//! center.
use vstd::prelude::*;
use vstd::std_specs::convert::FromSpecImpl;

verus! {

/// A vector of two unsigned coordinates.
#[derive(Copy, Clone, Debug, PartialEq, Eq, Hash, Default, Structural)]
pub struct UVec2 {
    pub x: u32,
    pub y: u32,
}

impl UVec2 {
    pub fn new(x: u32, y: u32) -> (v: UVec2)
        ensures
            v == (UVec2 { x, y }),
    {
        UVec2 { x, y }
    }

    /// The vector with both coordinates `v`.
    pub fn splat(v: u32) -> (r: UVec2)
        ensures
            r == (UVec2 { x: v, y: v }),
    {
        UVec2 { x: v, y: v }
    }
}

/// A rectangle of pixels from `min` (included) to `max` (excluded).
#[derive(Copy, Clone, Debug, PartialEq, Eq, Hash, Default, Structural)]
pub struct URect {
    pub min: UVec2,
    pub max: UVec2,
}

/// The width of a rectangle.
pub open spec fn rect_width(r: URect) -> int {
    r.max.x - r.min.x
}

/// The height of a rectangle.
pub open spec fn rect_height(r: URect) -> int {
    r.max.y - r.min.y
}

impl URect {
    /// The width: `max.x - min.x`.
    pub fn width(&self) -> (w: u32)
        requires
            self.min.x <= self.max.x,
        ensures
            w == rect_width(*self),
    {
        self.max.x - self.min.x
    }

    /// The height: `max.y - min.y`.
    pub fn height(&self) -> (h: u32)
        requires
            self.min.y <= self.max.y,
        ensures
            h == rect_height(*self),
    {
        self.max.y - self.min.y
    }

    /// The size: `max - min`.
    pub fn size(&self) -> (s: UVec2)
        requires
            self.min.x <= self.max.x,
            self.min.y <= self.max.y,
        ensures
            s.x == rect_width(*self),
            s.y == rect_height(*self),
    {
        UVec2 { x: self.max.x - self.min.x, y: self.max.y - self.min.y }
    }
}

/// Errors of the nine-slice functions.
#[derive(Copy, Clone, Debug, PartialEq, Eq, Hash, Structural)]
pub enum NineSliceError {
    /// The source image of the nine-slice atlas was not found.
    ImageNotFound,
}

/// Atlas indices of the nine slices, in the order top-left, top, top-right, left, center,
/// right, bottom-left, bottom, bottom-right.
#[derive(Copy, Clone, Debug, PartialEq, Eq, Hash)]
pub struct NineSliceIndex {
    pub indices: [usize; 9],
}

impl Default for NineSliceIndex {
    fn default() -> (i: NineSliceIndex)
        ensures
            forall|k: int| 0 <= k < 9 ==> #[trigger] i.indices@[k] == k,
    {
        NineSliceIndex { indices: [0, 1, 2, 3, 4, 5, 6, 7, 8] }
    }
}

/// Size of a nine-slice image in "inner" tiles: how often the center is repeated across and
/// down, not counting the borders. Every value is valid; a size of zero gives only the border.
#[derive(Copy, Clone, Debug, PartialEq, Eq, Hash, Default, Structural)]
pub struct NineSliceSize {
    pub inner_width: u32,
    pub inner_height: u32,
}

impl From<NineSliceSize> for UVec2 {
    fn from(nine_slice_size: NineSliceSize) -> (v: UVec2) {
        UVec2 { x: nine_slice_size.inner_width, y: nine_slice_size.inner_height }
    }
}

impl FromSpecImpl<NineSliceSize> for UVec2 {
    open spec fn obeys_from_spec() -> bool {
        true
    }

    open spec fn from_spec(v: NineSliceSize) -> UVec2 {
        UVec2 { x: v.inner_width, y: v.inner_height }
    }
}

/// A texture atlas: the size of its image and the rectangles of its textures.
#[derive(Clone, Debug, PartialEq, Eq)]
pub struct TextureAtlasLayout {
    pub size: UVec2,
    pub textures: Vec<URect>,
}

impl TextureAtlasLayout {
    /// An atlas of an image of size `dimensions` with no texture yet.
    pub fn new_empty(dimensions: UVec2) -> (t: TextureAtlasLayout)
        ensures
            t.size == dimensions,
            t.textures@ == Seq::<URect>::empty(),
    {
        TextureAtlasLayout { size: dimensions, textures: Vec::new() }
    }
}

/// The pixels of a 2D image: its size, its texture format (by the engine's id of the format),
/// the bytes of one pixel, and its data row by row (an image may have no data).
#[derive(Clone, Debug, PartialEq, Eq)]
pub struct ImageData {
    pub width: u32,
    pub height: u32,
    pub format: u32,
    pub pixel_size: usize,
    pub data: Option<Vec<u8>>,
}

/// A 2D image generated from nine slices, in the texture format of its source.
#[derive(Clone, Debug, PartialEq, Eq)]
pub struct NineSliceImage {
    pub width: u32,
    pub height: u32,
    pub format: u32,
    pub pixel_size: usize,
    pub data: Vec<u8>,
}

/// Where the bytes of pixel `(x, y)` start in the image's data.
pub open spec fn pixel_start(img: ImageData, x: int, y: int) -> int {
    y * img.width * img.pixel_size + x * img.pixel_size
}

/// The bytes of pixel `(x, y)` can be located without overflow and lie within the data.
pub open spec fn pixel_in_range(img: ImageData, x: int, y: int) -> bool {
    &&& y * img.width <= usize::MAX
    &&& y * img.width * img.pixel_size <= usize::MAX
    &&& x * img.pixel_size <= usize::MAX
    &&& pixel_start(img, x, y) + img.pixel_size <= usize::MAX
    &&& img.data matches Some(d) ==> pixel_start(img, x, y) + img.pixel_size <= d.len()
}

/// The bytes of pixel `(x, y)`; nothing for an image without data.
pub open spec fn pixel_bytes(img: ImageData, x: int, y: int) -> Seq<u8> {
    match img.data {
        Some(d) => d@.subrange(pixel_start(img, x, y), pixel_start(img, x, y) + img.pixel_size),
        None => Seq::empty(),
    }
}

/// The bytes of pixel `coords`, if the image has data.
fn get_pixel(image: &ImageData, coords: UVec2) -> (r: Option<&[u8]>)
    requires
        pixel_in_range(*image, coords.x as int, coords.y as int),
    ensures
        image.data is None ==> r is None,
        image.data is Some ==> (r matches Some(p) && p@ == pixel_bytes(
            *image,
            coords.x as int,
            coords.y as int,
        )),
{
    let pixel_size_in_bytes = image.pixel_size;
    let pixel_start = coords.y as usize * image.width as usize * pixel_size_in_bytes
        + coords.x as usize * pixel_size_in_bytes;
    match &image.data {
        Some(d) => Some(
            vstd::slice::slice_subrange(d.as_slice(), pixel_start, pixel_start + pixel_size_in_bytes),
        ),
        None => None,
    }
}

/// Pixel `(x, y)` of rectangle `r` can be read.
pub open spec fn rect_pixel_ok(img: ImageData, r: URect, x: int, y: int) -> bool {
    pixel_in_range(img, r.min.x + x, r.min.y + y)
}

/// The first `n` pixels of row `y` of rectangle `r`, left to right.
pub open spec fn rect_row(img: ImageData, r: URect, y: int, n: int) -> Seq<u8>
    decreases n,
{
    if n <= 0 {
        Seq::empty()
    } else {
        rect_row(img, r, y, n - 1) + pixel_bytes(img, r.min.x + n - 1, r.min.y + y)
    }
}

/// `s` repeated `k` times.
pub open spec fn repeated(s: Seq<u8>, k: int) -> Seq<u8>
    decreases k,
{
    if k <= 0 {
        Seq::empty()
    } else {
        repeated(s, k - 1) + s
    }
}

/// Rows `0..h` of rectangle `r` can be read, each whole.
pub open spec fn rect_rows_ok(img: ImageData, r: URect, h: int) -> bool {
    h > 0 ==> {
        &&& r.min.x <= r.max.x
        &&& r.min.y + h - 1 <= u32::MAX
        &&& forall|x: int, y: int|
            0 <= x < rect_width(r) && 0 <= y < h ==> #[trigger] rect_pixel_ok(img, r, x, y)
    }
}

/// Row `y` of a band of slices: the left slice's row, the middle slice's row `count` times,
/// then the right slice's row.
pub open spec fn band_row(img: ImageData, l: URect, m: URect, r: URect, y: int, count: int) -> Seq<u8> {
    rect_row(img, l, y, rect_width(l)) + repeated(rect_row(img, m, y, rect_width(m)), count)
        + rect_row(img, r, y, rect_width(r))
}

/// Rows `0..h` of a band of slices.
pub open spec fn band_rows(img: ImageData, l: URect, m: URect, r: URect, h: int, count: int) -> Seq<
    u8,
>
    decreases h,
{
    if h <= 0 {
        Seq::empty()
    } else {
        band_rows(img, l, m, r, h - 1, count) + band_row(img, l, m, r, h - 1, count)
    }
}

/// The slices of a band can be read over `h` rows, the middle one only when it is repeated.
pub open spec fn band_ok(img: ImageData, l: URect, m: URect, r: URect, h: int, count: int) -> bool {
    &&& rect_rows_ok(img, l, h)
    &&& count > 0 ==> rect_rows_ok(img, m, h)
    &&& rect_rows_ok(img, r, h)
}

/// Appends row `y` of rectangle `r` to `buffer`.
fn push_rect_row(buffer: &mut Vec<u8>, image: &ImageData, r: URect, y: u32)
    requires
        r.min.x <= r.max.x,
        r.min.y + y <= u32::MAX,
        forall|x: int| 0 <= x < rect_width(r) ==> #[trigger] rect_pixel_ok(*image, r, x, y as int),
    ensures
        final(buffer)@ == old(buffer)@ + rect_row(*image, r, y as int, rect_width(r)),
{
    let ghost start = buffer@;
    let w = r.width();
    let mut x: u32 = 0;
    while x < w
        invariant
            0 <= x <= w,
            w == rect_width(r),
            r.min.x <= r.max.x,
            r.min.y + y <= u32::MAX,
            forall|x: int| 0 <= x < rect_width(r) ==> #[trigger] rect_pixel_ok(*image, r, x, y as int),
            buffer@ == start + rect_row(*image, r, y as int, x as int),
        decreases w - x,
    {
        assert(rect_pixel_ok(*image, r, x as int, y as int));
        let coord = UVec2 { x: r.min.x + x, y: r.min.y + y };
        let ghost before = buffer@;
        if let Some(pixel) = get_pixel(image, coord) {
            let mut j: usize = 0;
            while j < pixel.len()
                invariant
                    0 <= j <= pixel@.len(),
                    buffer@ == before + pixel@.subrange(0, j as int),
                decreases pixel@.len() - j,
            {
                buffer.push(pixel[j]);
                assert(pixel@.subrange(0, j + 1) =~= pixel@.subrange(0, j as int).push(pixel@[j as int]));
                j = j + 1;
            }
            assert(pixel@.subrange(0, j as int) =~= pixel@);
        } else {
            assert(pixel_bytes(*image, coord.x as int, coord.y as int) =~= Seq::<u8>::empty());
        }
        assert(buffer@ =~= start + rect_row(*image, r, y as int, x + 1));
        x = x + 1;
    }
}

/// Appends `h` rows of a band of slices to `buffer`: each row is the left slice's row, the middle
/// slice's row `middle_count` times, and the right slice's row.
fn push_nine_slice_row_data(
    buffer: &mut Vec<u8>,
    image: &ImageData,
    left_rect: URect,
    middle_rect: URect,
    right_rect: URect,
    row_height: u32,
    middle_count: u32,
)
    requires
        band_ok(*image, left_rect, middle_rect, right_rect, row_height as int, middle_count as int),
    ensures
        final(buffer)@ == old(buffer)@ + band_rows(
            *image,
            left_rect,
            middle_rect,
            right_rect,
            row_height as int,
            middle_count as int,
        ),
{
    let ghost start = buffer@;
    let mut y: u32 = 0;
    while y < row_height
        invariant
            0 <= y <= row_height,
            band_ok(*image, left_rect, middle_rect, right_rect, row_height as int, middle_count as int),
            buffer@ == start + band_rows(
                *image,
                left_rect,
                middle_rect,
                right_rect,
                y as int,
                middle_count as int,
            ),
        decreases row_height - y,
    {
        let ghost row_start = buffer@;
        push_rect_row(buffer, image, left_rect, y);
        let mut k: u32 = 0;
        while k < middle_count
            invariant
                0 <= k <= middle_count,
                y < row_height,
                band_ok(*image, left_rect, middle_rect, right_rect, row_height as int, middle_count as int),
                buffer@ == row_start + rect_row(*image, left_rect, y as int, rect_width(left_rect))
                    + repeated(
                    rect_row(*image, middle_rect, y as int, rect_width(middle_rect)),
                    k as int,
                ),
            decreases middle_count - k,
        {
            push_rect_row(buffer, image, middle_rect, y);
            assert(buffer@ =~= row_start + rect_row(*image, left_rect, y as int, rect_width(left_rect))
                + repeated(
                rect_row(*image, middle_rect, y as int, rect_width(middle_rect)),
                k + 1,
            ));
            k = k + 1;
        }
        push_rect_row(buffer, image, right_rect, y);
        assert(buffer@ =~= start + band_rows(
            *image,
            left_rect,
            middle_rect,
            right_rect,
            y + 1,
            middle_count as int,
        ));
        y = y + 1;
    }
}

/// The nine slices of an atlas picked by `index`, in order.
pub open spec fn picked_slices(textures: Seq<URect>, index: NineSliceIndex) -> Seq<URect> {
    Seq::new(9, |k: int| textures[index.indices@[k] as int])
}

/// The nine slices `s` can be cut from `img` and reassembled at `size`: the corners and the
/// center are rectangles, the reassembled image's size fits in `u32`, and every band's slices
/// can be read over the band's rows.
pub open spec fn nine_slice_fits(size: NineSliceSize, s: Seq<URect>, img: ImageData) -> bool {
    &&& s[0].min.x <= s[0].max.x && s[0].min.y <= s[0].max.y
    &&& s[4].min.x <= s[4].max.x && s[4].min.y <= s[4].max.y
    &&& s[8].min.x <= s[8].max.x && s[8].min.y <= s[8].max.y
    &&& rect_width(s[0]) + size.inner_width * rect_width(s[4]) + rect_width(s[8]) <= u32::MAX
    &&& rect_height(s[0]) + size.inner_height * rect_height(s[4]) + rect_height(s[8]) <= u32::MAX
    &&& band_ok(img, s[0], s[1], s[2], rect_height(s[0]), size.inner_width as int)
    &&& size.inner_height > 0 ==> band_ok(
        img,
        s[3],
        s[4],
        s[5],
        rect_height(s[4]),
        size.inner_width as int,
    )
    &&& band_ok(img, s[6], s[7], s[8], rect_height(s[8]), size.inner_width as int)
}

/// The width of the image reassembled from slices `s` at `size`.
pub open spec fn nine_slice_width(size: NineSliceSize, s: Seq<URect>) -> int {
    rect_width(s[0]) + size.inner_width * rect_width(s[4]) + rect_width(s[8])
}

/// The height of the image reassembled from slices `s` at `size`.
pub open spec fn nine_slice_height(size: NineSliceSize, s: Seq<URect>) -> int {
    rect_height(s[0]) + size.inner_height * rect_height(s[4]) + rect_height(s[8])
}

/// The data of the image reassembled from slices `s`: the top band's rows, the middle band's
/// rows `inner_height` times, then the bottom band's rows.
pub open spec fn nine_slice_data(size: NineSliceSize, s: Seq<URect>, img: ImageData) -> Seq<u8> {
    let w = size.inner_width as int;
    band_rows(img, s[0], s[1], s[2], rect_height(s[0]), w) + repeated(
        band_rows(img, s[3], s[4], s[5], rect_height(s[4]), w),
        size.inner_height as int,
    ) + band_rows(img, s[6], s[7], s[8], rect_height(s[8]), w)
}

/// Generates an image from nine slices of `source_atlas`, cut from `source_image` (the image
/// the atlas belongs to, if it was found): the top-left corner, `inner_width` times the center
/// and the bottom-right corner across; the top band, `inner_height` times the middle band and
/// the bottom band down.
pub fn generate_nineslice_image(
    size: NineSliceSize,
    index: NineSliceIndex,
    source_atlas: &TextureAtlasLayout,
    source_image: Option<&ImageData>,
) -> (r: Result<NineSliceImage, NineSliceError>)
    requires
        forall|k: int| 0 <= k < 9 ==> #[trigger] index.indices@[k] < source_atlas.textures.len(),
        source_image matches Some(img) ==> nine_slice_fits(
            size,
            picked_slices(source_atlas.textures@, index),
            *img,
        ),
    ensures
        source_image is None ==> r == Err::<NineSliceImage, NineSliceError>(
            NineSliceError::ImageNotFound,
        ),
        source_image matches Some(img) ==> (r matches Ok(out) && out.width == nine_slice_width(
            size,
            picked_slices(source_atlas.textures@, index),
        ) && out.height == nine_slice_height(size, picked_slices(source_atlas.textures@, index))
            && out.format == img.format && out.pixel_size == img.pixel_size && out.data@
            == nine_slice_data(size, picked_slices(source_atlas.textures@, index), *img)),
{
    let indices = index.indices;
    let ghost s = picked_slices(source_atlas.textures@, index);
    assert(forall|k: int| 0 <= k < 9 ==> indices@[k] == index.indices@[k]);
    let top_left_rect = source_atlas.textures[indices[0]];
    let top_rect = source_atlas.textures[indices[1]];
    let top_right_rect = source_atlas.textures[indices[2]];
    let left_rect = source_atlas.textures[indices[3]];
    let center_rect = source_atlas.textures[indices[4]];
    let right_rect = source_atlas.textures[indices[5]];
    let bottom_left_rect = source_atlas.textures[indices[6]];
    let bottom_rect = source_atlas.textures[indices[7]];
    let bottom_right_rect = source_atlas.textures[indices[8]];
    let source_image = match source_image {
        Some(img) => img,
        None => return Err(NineSliceError::ImageNotFound),
    };
    let inner = UVec2::from(size);
    let top_left_size = top_left_rect.size();
    let center_size = center_rect.size();
    let bottom_right_size = bottom_right_rect.size();
    assert(inner.x * center_size.x <= u32::MAX) by (nonlinear_arith)
        requires
            top_left_size.x + inner.x * center_size.x + bottom_right_size.x <= u32::MAX,
            0 <= top_left_size.x,
            0 <= bottom_right_size.x,
    ;
    assert(inner.y * center_size.y <= u32::MAX) by (nonlinear_arith)
        requires
            top_left_size.y + inner.y * center_size.y + bottom_right_size.y <= u32::MAX,
            0 <= top_left_size.y,
            0 <= bottom_right_size.y,
    ;
    let image_width = top_left_size.x + inner.x * center_size.x + bottom_right_size.x;
    let image_height = top_left_size.y + inner.y * center_size.y + bottom_right_size.y;
    let mut data: Vec<u8> = Vec::new();
    push_nine_slice_row_data(
        &mut data,
        source_image,
        top_left_rect,
        top_rect,
        top_right_rect,
        top_left_rect.height(),
        size.inner_width,
    );
    let ghost top = data@;
    let ghost middle = band_rows(
        *source_image,
        left_rect,
        center_rect,
        right_rect,
        rect_height(center_rect),
        size.inner_width as int,
    );
    let mut k: u32 = 0;
    while k < size.inner_height
        invariant
            0 <= k <= size.inner_height,
            center_rect.min.y <= center_rect.max.y,
            size.inner_height > 0 ==> band_ok(
                *source_image,
                left_rect,
                center_rect,
                right_rect,
                rect_height(center_rect),
                size.inner_width as int,
            ),
            middle == band_rows(
                *source_image,
                left_rect,
                center_rect,
                right_rect,
                rect_height(center_rect),
                size.inner_width as int,
            ),
            data@ == top + repeated(middle, k as int),
        decreases size.inner_height - k,
    {
        push_nine_slice_row_data(
            &mut data,
            source_image,
            left_rect,
            center_rect,
            right_rect,
            center_rect.height(),
            size.inner_width,
        );
        assert(data@ =~= top + repeated(middle, k + 1));
        k = k + 1;
    }
    push_nine_slice_row_data(
        &mut data,
        source_image,
        bottom_left_rect,
        bottom_rect,
        bottom_right_rect,
        bottom_right_rect.height(),
        size.inner_width,
    );
    assert(data@ =~= nine_slice_data(size, s, *source_image));
    Ok(
        NineSliceImage {
            width: image_width,
            height: image_height,
            format: source_image.format,
            pixel_size: source_image.pixel_size,
            data,
        },
    )
}

/// The nine slices of an image of size `d` whose borders are `left`, `right`, `top` and
/// `bottom` pixels wide, in the order top-left, top, top-right, left, center, right,
/// bottom-left, bottom, bottom-right.
pub open spec fn nine_slice_rects(d: UVec2, left: u32, right: u32, top: u32, bottom: u32) -> Seq<
    URect,
> {
    let x1 = (d.x - right) as u32;
    let y1 = (d.y - bottom) as u32;
    seq![
        URect { min: UVec2 { x: 0, y: 0 }, max: UVec2 { x: left, y: top } },
        URect { min: UVec2 { x: left, y: 0 }, max: UVec2 { x: x1, y: top } },
        URect { min: UVec2 { x: x1, y: 0 }, max: UVec2 { x: d.x, y: top } },
        URect { min: UVec2 { x: 0, y: top }, max: UVec2 { x: left, y: y1 } },
        URect { min: UVec2 { x: left, y: top }, max: UVec2 { x: x1, y: y1 } },
        URect { min: UVec2 { x: x1, y: top }, max: UVec2 { x: d.x, y: y1 } },
        URect { min: UVec2 { x: 0, y: y1 }, max: UVec2 { x: left, y: d.y } },
        URect { min: UVec2 { x: left, y: y1 }, max: UVec2 { x: x1, y: d.y } },
        URect { min: UVec2 { x: x1, y: y1 }, max: UVec2 { x: d.x, y: d.y } },
    ]
}

/// An atlas of the nine slices of an image of size `dimensions`, whose borders lie `left`,
/// `right`, `top` and `bottom` pixels from its edges.
pub fn texture_atlas_from_nine_slice(
    dimensions: UVec2,
    left: u32,
    right: u32,
    top: u32,
    bottom: u32,
) -> (atlas: TextureAtlasLayout)
    requires
        right <= dimensions.x,
        bottom <= dimensions.y,
    ensures
        atlas.size == dimensions,
        atlas.textures@ == nine_slice_rects(dimensions, left, right, top, bottom),
{
    let mut texture_atlas = TextureAtlasLayout::new_empty(dimensions);
    let x1 = dimensions.x - right;
    let y1 = dimensions.y - bottom;
    texture_atlas.textures.push(URect { min: UVec2::new(0, 0), max: UVec2::new(left, top) });
    texture_atlas.textures.push(URect { min: UVec2::new(left, 0), max: UVec2::new(x1, top) });
    texture_atlas.textures.push(
        URect { min: UVec2::new(x1, 0), max: UVec2::new(dimensions.x, top) },
    );
    texture_atlas.textures.push(URect { min: UVec2::new(0, top), max: UVec2::new(left, y1) });
    texture_atlas.textures.push(URect { min: UVec2::new(left, top), max: UVec2::new(x1, y1) });
    texture_atlas.textures.push(
        URect { min: UVec2::new(x1, top), max: UVec2::new(dimensions.x, y1) },
    );
    texture_atlas.textures.push(
        URect { min: UVec2::new(0, y1), max: UVec2::new(left, dimensions.y) },
    );
    texture_atlas.textures.push(
        URect { min: UVec2::new(left, y1), max: UVec2::new(x1, dimensions.y) },
    );
    texture_atlas.textures.push(
        URect { min: UVec2::new(x1, y1), max: UVec2::new(dimensions.x, dimensions.y) },
    );
    assert(texture_atlas.textures@ =~= nine_slice_rects(dimensions, left, right, top, bottom));
    texture_atlas
}

/// Whether pixel `(x, y)` lies in rectangle `r`.
pub open spec fn rect_contains(r: URect, x: int, y: int) -> bool {
    r.min.x <= x < r.max.x && r.min.y <= y < r.max.y
}

/// The nine slices of an image tile it: when the borders fit in the image, every pixel of the
/// image lies in exactly one slice.
pub proof fn lemma_nine_slices_tile_image(
    d: UVec2,
    left: u32,
    right: u32,
    top: u32,
    bottom: u32,
    x: int,
    y: int,
)
    requires
        left + right <= d.x,
        top + bottom <= d.y,
        0 <= x < d.x,
        0 <= y < d.y,
    ensures
        exists|k: int| 0 <= k < 9 && rect_contains(#[trigger] nine_slice_rects(d, left, right, top, bottom)[k], x, y),
        forall|j: int, k: int|
            0 <= j < 9 && 0 <= k < 9 && rect_contains(
                #[trigger] nine_slice_rects(d, left, right, top, bottom)[j],
                x,
                y,
            ) && rect_contains(#[trigger] nine_slice_rects(d, left, right, top, bottom)[k], x, y)
                ==> j == k,
{
    let rects = nine_slice_rects(d, left, right, top, bottom);
    let col: int = if x < left { 0 } else if x < d.x - right { 1 } else { 2 };
    let row: int = if y < top { 0 } else if y < d.y - bottom { 1 } else { 2 };
    assert(rect_contains(rects[row * 3 + col], x, y));
}

/// Pixel offsets grow by the pixel size along a row and by a row's bytes down the image.
proof fn lemma_pixel_arithmetic(x: int, y: int, w: int, ps: int)
    requires
        0 <= x,
        0 <= y,
        0 <= w,
        0 <= ps,
    ensures
        y * w * ps + (x + 1) * ps == y * w * ps + x * ps + ps,
        (y + 1) * w * ps == y * w * ps + w * ps,
        0 <= x * ps,
        0 <= y * w * ps,
{
    assert(y * w * ps + (x + 1) * ps == y * w * ps + x * ps + ps) by (nonlinear_arith);
    assert((y + 1) * w * ps == y * w * ps + w * ps) by (nonlinear_arith);
    assert(0 <= x * ps) by (nonlinear_arith)
        requires
            0 <= x,
            0 <= ps,
    ;
    assert(0 <= y * w * ps) by (nonlinear_arith)
        requires
            0 <= y,
            0 <= w,
            0 <= ps,
    ;
}

/// `a * ps <= b * ps` for `a <= b`.
proof fn lemma_mul_monotone(a: int, b: int, ps: int)
    requires
        a <= b,
        0 <= ps,
    ensures
        a * ps <= b * ps,
{
    assert(a * ps <= b * ps) by (nonlinear_arith)
        requires
            a <= b,
            0 <= ps,
    ;
}

/// The first `n` pixels of a rectangle's row are the bytes of those pixels in the image's data.
proof fn lemma_rect_row_is_contiguous(img: ImageData, d: Seq<u8>, rect: URect, yy: int, n: int)
    requires
        img.data matches Some(v) && v@ == d,
        0 <= n,
        0 <= yy,
        rect.min.x + n <= img.width,
        rect.min.y + yy < img.height,
        d.len() == img.width * img.height * img.pixel_size,
    ensures
        rect_row(img, rect, yy, n) == d.subrange(
            pixel_start(img, rect.min.x as int, rect.min.y + yy),
            pixel_start(img, rect.min.x + n, rect.min.y + yy),
        ),
    decreases n,
{
    let y = rect.min.y + yy;
    let w = img.width as int;
    let h = img.height as int;
    let ps = img.pixel_size as int;
    lemma_pixel_arithmetic(rect.min.x + n, y, w, ps);
    lemma_mul_monotone(rect.min.x as int, rect.min.x + n, ps);
    lemma_mul_monotone(rect.min.x + n, w, ps);
    lemma_pixel_arithmetic(0, y, w, ps);
    lemma_mul_monotone(y + 1, h, w * ps);
    assert((y + 1) * (w * ps) == (y + 1) * w * ps) by (nonlinear_arith);
    assert(h * (w * ps) == w * h * ps) by (nonlinear_arith);
    if n > 0 {
        lemma_rect_row_is_contiguous(img, d, rect, yy, n - 1);
        lemma_pixel_arithmetic(rect.min.x + n - 1, y, w, ps);
        let a = pixel_start(img, rect.min.x as int, y);
        let m = pixel_start(img, rect.min.x + n - 1, y);
        let e = pixel_start(img, rect.min.x + n, y);
        lemma_mul_monotone(rect.min.x as int, rect.min.x + n - 1, ps);
        assert(d.subrange(a, m) + d.subrange(m, e) =~= d.subrange(a, e));
    } else {
        assert(d.subrange(
            pixel_start(img, rect.min.x as int, y),
            pixel_start(img, rect.min.x as int, y),
        ) =~= Seq::<u8>::empty());
    }
}

/// A band of three slices side by side, spanning the image's width, repeating its middle slice
/// once, reads rows `y0..y0 + hh` of the image.
proof fn lemma_band_rows_are_image_rows(
    img: ImageData,
    d: Seq<u8>,
    left: URect,
    middle: URect,
    right: URect,
    hh: int,
)
    requires
        img.data matches Some(v) && v@ == d,
        d.len() == img.width * img.height * img.pixel_size,
        0 <= hh,
        left.min.x == 0,
        middle.min.x == left.max.x,
        right.min.x == middle.max.x,
        right.max.x == img.width,
        left.min.x <= left.max.x <= middle.max.x <= right.max.x,
        left.min.y == middle.min.y == right.min.y,
        left.min.y + hh <= img.height,
    ensures
        band_rows(img, left, middle, right, hh, 1) == d.subrange(
            left.min.y * img.width * img.pixel_size,
            (left.min.y + hh) * img.width * img.pixel_size,
        ),
    decreases hh,
{
    let w = img.width as int;
    let h = img.height as int;
    let ps = img.pixel_size as int;
    let y0 = left.min.y as int;
    lemma_pixel_arithmetic(0, y0 + hh, w, ps);
    lemma_mul_monotone(y0 + hh, h, w * ps);
    assert((y0 + hh) * (w * ps) == (y0 + hh) * w * ps) by (nonlinear_arith);
    assert(h * (w * ps) == w * h * ps) by (nonlinear_arith);
    if hh > 0 {
        let yy = hh - 1;
        lemma_band_rows_are_image_rows(img, d, left, middle, right, yy);
        lemma_rect_row_is_contiguous(img, d, left, yy, rect_width(left));
        lemma_rect_row_is_contiguous(img, d, middle, yy, rect_width(middle));
        lemma_rect_row_is_contiguous(img, d, right, yy, rect_width(right));
        let row = rect_row(img, middle, yy, rect_width(middle));
        assert(repeated(row, 1) =~= row) by {
            assert(repeated(row, 0) =~= Seq::<u8>::empty());
        }
        let y = y0 + yy;
        lemma_pixel_arithmetic(0, y, w, ps);
        lemma_pixel_arithmetic(w, y, w, ps);
        assert(w * ps + y * w * ps == (y + 1) * w * ps);
        let s0 = pixel_start(img, 0, y);
        let s1 = pixel_start(img, left.max.x as int, y);
        let s2 = pixel_start(img, middle.max.x as int, y);
        let s3 = pixel_start(img, w, y);
        lemma_mul_monotone(0, left.max.x as int, ps);
        lemma_mul_monotone(left.max.x as int, middle.max.x as int, ps);
        lemma_mul_monotone(middle.max.x as int, w, ps);
        assert(0 * ps == 0) by (nonlinear_arith);
        assert(s0 == y * w * ps);
        assert(s3 == (y + 1) * w * ps);
        assert(band_row(img, left, middle, right, yy, 1) =~= d.subrange(s0, s3));
        assert(d.subrange(y0 * w * ps, y * w * ps) + d.subrange(s0, s3) =~= d.subrange(
            y0 * w * ps,
            (y0 + hh) * w * ps,
        )) by {
            lemma_mul_monotone(y0, y, w * ps);
            assert(y0 * (w * ps) == y0 * w * ps) by (nonlinear_arith);
            assert(y * (w * ps) == y * w * ps) by (nonlinear_arith);
        }
    } else {
        assert(d.subrange(y0 * w * ps, y0 * w * ps) =~= Seq::<u8>::empty());
    }
}

/// Cutting an image into nine slices whose borders fit in it and reassembling them with the
/// center once across and once down gives back the image, pixel for pixel.
pub proof fn lemma_nine_slice_reassembles_image(img: ImageData, left: u32, right: u32, top: u32, bottom: u32)
    requires
        img.data is Some,
        img.data.unwrap()@.len() == img.width * img.height * img.pixel_size,
        left + right <= img.width,
        top + bottom <= img.height,
    ensures
        ({
            let slices = nine_slice_rects(UVec2 { x: img.width, y: img.height }, left, right, top, bottom);
            let size = NineSliceSize { inner_width: 1, inner_height: 1 };
            &&& nine_slice_width(size, slices) == img.width
            &&& nine_slice_height(size, slices) == img.height
            &&& nine_slice_data(size, slices, img) == img.data.unwrap()@
        }),
{
    let d = img.data.unwrap()@;
    let s = nine_slice_rects(UVec2 { x: img.width, y: img.height }, left, right, top, bottom);
    let w = img.width as int;
    let h = img.height as int;
    let ps = img.pixel_size as int;
    let size = NineSliceSize { inner_width: 1, inner_height: 1 };
    lemma_band_rows_are_image_rows(img, d, s[0], s[1], s[2], top as int);
    lemma_band_rows_are_image_rows(img, d, s[3], s[4], s[5], h - bottom - top);
    lemma_band_rows_are_image_rows(img, d, s[6], s[7], s[8], bottom as int);
    let middle = band_rows(img, s[3], s[4], s[5], rect_height(s[4]), 1);
    assert(repeated(middle, 1) =~= middle) by {
        assert(repeated(middle, 0) =~= Seq::<u8>::empty());
    }
    lemma_mul_monotone(top as int, h - bottom, w * ps);
    lemma_mul_monotone(h - bottom, h, w * ps);
    lemma_mul_monotone(0, top as int, w * ps);
    assert(0 * w * ps == 0) by (nonlinear_arith);
    assert(top * (w * ps) == top * w * ps) by (nonlinear_arith);
    assert((h - bottom) * (w * ps) == (h - bottom) * w * ps) by (nonlinear_arith);
    assert(h * (w * ps) == h * w * ps) by (nonlinear_arith);
    assert(h * w * ps == w * h * ps) by (nonlinear_arith);
    assert(d.subrange(0, top * w * ps) + d.subrange(top * w * ps, (h - bottom) * w * ps) + d.subrange(
        (h - bottom) * w * ps,
        h * w * ps,
    ) =~= d);
    assert(nine_slice_data(size, s, img) =~= d);
    assert(1 * rect_width(s[4]) == rect_width(s[4]));
    assert(1 * rect_height(s[4]) == rect_height(s[4]));
}

/// A row of `n` readable pixels holds `n` pixels' bytes.
proof fn lemma_rect_row_len(img: ImageData, r: URect, y: int, n: int)
    requires
        img.data is Some,
        0 <= n,
        0 <= y,
        forall|x: int| 0 <= x < n ==> #[trigger] rect_pixel_ok(img, r, x, y),
    ensures
        rect_row(img, r, y, n).len() == n * img.pixel_size,
    decreases n,
{
    if n == 0 {
        assert(rect_row(img, r, y, n) =~= Seq::<u8>::empty());
    } else {
        lemma_rect_row_len(img, r, y, n - 1);
        assert(rect_pixel_ok(img, r, n - 1, y));
        assert(pixel_start(img, r.min.x + n - 1, r.min.y + y) >= 0) by (nonlinear_arith)
            requires
                r.min.x + n - 1 >= 0,
                r.min.y + y >= 0,
                img.width >= 0,
                img.pixel_size >= 0,
        {
        }
        let px = pixel_bytes(img, r.min.x + n - 1, r.min.y + y);
        assert(px.len() == img.pixel_size);
        assert(n * img.pixel_size == (n - 1) * img.pixel_size + img.pixel_size) by (nonlinear_arith);
    }
}

/// A sequence repeated `k` times is `k` times as long.
proof fn lemma_repeated_len(s: Seq<u8>, k: int)
    requires
        0 <= k,
    ensures
        repeated(s, k).len() == k * s.len(),
    decreases k,
{
    if k == 0 {
        assert(repeated(s, k) =~= Seq::<u8>::empty());
    } else {
        lemma_repeated_len(s, k - 1);
        assert(k * s.len() == (k - 1) * s.len() + s.len()) by (nonlinear_arith);
    }
}

/// `h` readable rows of a band hold `h` rows of the band's width in pixels.
proof fn lemma_band_rows_len(img: ImageData, l: URect, m: URect, r: URect, h: int, count: int)
    requires
        img.data is Some,
        0 <= h,
        0 <= count,
        band_ok(img, l, m, r, h, count),
    ensures
        band_rows(img, l, m, r, h, count).len() == h * ((rect_width(l) + count * rect_width(m)
            + rect_width(r)) * img.pixel_size),
    decreases h,
{
    let ps = img.pixel_size as int;
    let row = (rect_width(l) + count * rect_width(m) + rect_width(r)) * ps;
    if h == 0 {
        assert(band_rows(img, l, m, r, h, count) =~= Seq::<u8>::empty());
        assert(h * row == 0);
    } else {
        let y = h - 1;
        assert(band_ok(img, l, m, r, h - 1, count));
        lemma_band_rows_len(img, l, m, r, h - 1, count);
        assert forall|x: int| 0 <= x < rect_width(l) implies #[trigger] rect_pixel_ok(img, l, x, y) by {
            assert(rect_pixel_ok(img, l, x, y));
        }
        assert forall|x: int| 0 <= x < rect_width(r) implies #[trigger] rect_pixel_ok(img, r, x, y) by {
            assert(rect_pixel_ok(img, r, x, y));
        }
        lemma_rect_row_len(img, l, y, rect_width(l));
        lemma_rect_row_len(img, r, y, rect_width(r));
        let mid = rect_row(img, m, y, rect_width(m));
        lemma_repeated_len(mid, count);
        let mid_len = repeated(mid, count).len();
        if count > 0 {
            assert forall|x: int| 0 <= x < rect_width(m) implies #[trigger] rect_pixel_ok(img, m, x, y) by {
                assert(rect_pixel_ok(img, m, x, y));
            }
            lemma_rect_row_len(img, m, y, rect_width(m));
            assert(count * (rect_width(m) * ps) == count * rect_width(m) * ps) by (nonlinear_arith);
            assert(mid_len == count * rect_width(m) * ps);
        } else {
            assert(mid_len == 0);
            assert(count * rect_width(m) * ps == 0) by (nonlinear_arith)
                requires
                    count == 0,
            {
            }
        }
        let line = band_row(img, l, m, r, y, count);
        assert(line.len() == rect_width(l) * ps + mid_len + rect_width(r) * ps);
        assert(row == rect_width(l) * ps + count * rect_width(m) * ps + rect_width(r) * ps) by (nonlinear_arith)
            requires
                row == (rect_width(l) + count * rect_width(m) + rect_width(r)) * ps,
        {
        }
        assert(line.len() == row);
        assert(h * row == (h - 1) * row + row) by (nonlinear_arith);
    }
}

/// The image generated from the nine slices of an image holds, row by row, every pixel of its
/// width and height: its data is `width * height * pixel_size` bytes long.
pub proof fn lemma_nine_slice_data_fills_image(
    size: NineSliceSize,
    img: ImageData,
    d: UVec2,
    left: u32,
    right: u32,
    top: u32,
    bottom: u32,
)
    requires
        left + right <= d.x,
        top + bottom <= d.y,
        img.data is Some,
        nine_slice_fits(size, nine_slice_rects(d, left, right, top, bottom), img),
    ensures
        ({
            let s = nine_slice_rects(d, left, right, top, bottom);
            nine_slice_data(size, s, img).len() == nine_slice_width(size, s) * nine_slice_height(
                size,
                s,
            ) * img.pixel_size
        }),
{
    let s = nine_slice_rects(d, left, right, top, bottom);
    let w = size.inner_width as int;
    let ih = size.inner_height as int;
    let ps = img.pixel_size as int;
    let width = nine_slice_width(size, s);
    let row = (rect_width(s[0]) + w * rect_width(s[4]) + rect_width(s[8])) * ps;
    assert(row == width * ps);
    assert(rect_width(s[1]) == rect_width(s[4]) && rect_width(s[7]) == rect_width(s[4]));
    assert(rect_width(s[3]) == rect_width(s[0]) && rect_width(s[6]) == rect_width(s[0]));
    assert(rect_width(s[2]) == rect_width(s[8]) && rect_width(s[5]) == rect_width(s[8]));
    let h0 = rect_height(s[0]);
    let h4 = rect_height(s[4]);
    let h8 = rect_height(s[8]);
    lemma_band_rows_len(img, s[0], s[1], s[2], h0, w);
    lemma_band_rows_len(img, s[6], s[7], s[8], h8, w);
    let top_band = band_rows(img, s[0], s[1], s[2], h0, w);
    let bottom_band = band_rows(img, s[6], s[7], s[8], h8, w);
    assert(top_band.len() == h0 * row);
    assert(bottom_band.len() == h8 * row);
    let middle = band_rows(img, s[3], s[4], s[5], h4, w);
    lemma_repeated_len(middle, ih);
    let mid_len = repeated(middle, ih).len();
    if ih > 0 {
        lemma_band_rows_len(img, s[3], s[4], s[5], h4, w);
        assert(middle.len() == h4 * row);
        assert(ih * (h4 * row) == ih * h4 * row) by (nonlinear_arith);
        assert(mid_len == ih * h4 * row);
    } else {
        assert(mid_len == 0);
        assert(ih * h4 * row == 0) by (nonlinear_arith)
            requires
                ih == 0,
        {
        }
    }
    assert(nine_slice_data(size, s, img).len() == h0 * row + mid_len + h8 * row);
    let height = nine_slice_height(size, s);
    assert(height == h0 + ih * h4 + h8);
    assert(h0 * row + ih * h4 * row + h8 * row == width * height * ps) by (nonlinear_arith)
        requires
            row == width * ps,
            height == h0 + ih * h4 + h8,
    {
    }
}

} // verus!
