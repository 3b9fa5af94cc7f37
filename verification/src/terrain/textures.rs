//! Decoding sprite sheets and baking the map's textures.

use vstd::prelude::*;

verus! {

/// An image of four bytes (red, green, blue, alpha) per pixel, row by row.
pub struct RgbaImage {
    pub width: u32,
    pub height: u32,
    pub pixels: Vec<u8>,
}

/// One pixel: red, green, blue, alpha.
pub type Pixel = (u8, u8, u8, u8);

/// Width, height and bytes of the picture in an image file, where it is one.
pub uninterp spec fn decoded_rgba(bytes: Seq<u8>) -> Option<(u32, u32, Seq<u8>)>;

/// `image::load_from_memory` followed by `image::DynamicImage::to_rgba8`: the
/// picture, or that there is none, follows from the file's bytes alone. The
/// decoder also asks the process-wide hooks of `image::hooks`; no crate that is
/// linked here registers one.
#[verifier::external_body]
pub(crate) fn decode_rgba(bytes: &[u8]) -> (image: Option<RgbaImage>)
    ensures
        match image {
            Some(i) => decoded_rgba(bytes@) == Some((i.width, i.height, i.pixels@)),
            None => decoded_rgba(bytes@) is None,
        },
{
    let rgba = image::load_from_memory(bytes).ok()?.to_rgba8();
    let (width, height) = rgba.dimensions();
    Some(RgbaImage { width, height, pixels: rgba.into_raw() })
}

/// The pixel at that index of a picture's bytes; none beyond their end.
pub open spec fn pixel(bytes: Seq<u8>, index: int) -> Option<Pixel> {
    if 0 <= index && index * 4 + 3 < bytes.len() {
        Some((bytes[index * 4], bytes[index * 4 + 1], bytes[index * 4 + 2], bytes[index * 4 + 3]))
    } else {
        None
    }
}

/// Space that each tile takes in a tileset, and the margin before its pixels.
pub const TILE_SLOT: u32 = 20;

pub const TILE_MARGIN: u32 = 2;

/// Index in the tileset of a pixel of one of its tiles.
pub open spec fn tileset_index(width: int, cols: int, tile: int, px: int, py: int) -> int {
    ((tile / cols) * 20 + 2 + py) * width + (tile % cols) * 20 + 2 + px
}

/// A pixel of a tile of a tileset; none beyond the tileset.
pub open spec fn tile_pixel(
    tileset: RgbaImage,
    cols: int,
    tile: int,
    px: int,
    py: int,
) -> Option<Pixel> {
    pixel(
        tileset.pixels@,
        tileset_index(tileset.width as int, cols, tile, px, py),
    )
}

/// The transparent pixel.
pub open spec fn clear_pixel() -> Pixel {
    (0, 0, 0, 0)
}

/// An opaque ground pixel, nothing where the tileset has none.
pub open spec fn ground_pixel(tileset: RgbaImage, cols: int, tile: int, px: int, py: int) -> Pixel {
    match tile_pixel(tileset, cols, tile, px, py) {
        Some(p) => p,
        None => clear_pixel(),
    }
}

/// An overlay pixel over another: it covers where it is more than half opaque.
pub open spec fn overlay_pixel(
    below: Pixel,
    tileset: RgbaImage,
    cols: int,
    tile: Option<u32>,
    px: int,
    py: int,
) -> Pixel {
    match tile {
        Some(t) => match tile_pixel(tileset, cols, t as int, px, py) {
            Some(p) => if p.3 > 128 {
                p
            } else {
                below
            },
            None => below,
        },
        None => below,
    }
}

fn fetch_tile_pixel(tileset: &RgbaImage, cols: u32, tile: u32, px: u32, py: u32) -> (found: Option<
    Pixel,
>)
    requires
        cols > 0,
        px < 16,
        py < 16,
    ensures
        found == tile_pixel(*tileset, cols as int, tile as int, px as int, py as int),
{
    let sx: u128 = (tile % cols) as u128 * 20 + 2 + px as u128;
    let sy: u128 = (tile / cols) as u128 * 20 + 2 + py as u128;
    assert(sy * tileset.width <= 0x20_0000_0000 * 0x1_0000_0000) by (nonlinear_arith)
        requires
            0 <= sy <= 0x20_0000_0000,
            0 <= tileset.width <= 0x1_0000_0000,
    ;
    let index: u128 = sy * tileset.width as u128 + sx;
    if index * 4 + 3 < tileset.pixels.len() as u128 {
        let at: usize = (index * 4) as usize;
        Some(
            (
                tileset.pixels[at],
                tileset.pixels[at + 1],
                tileset.pixels[at + 2],
                tileset.pixels[at + 3],
            ),
        )
    } else {
        None
    }
}

/// The baked pixel at a place of the map: of the tile that it lies in, the
/// ground where there is a ground layer, and the overlay on top.
pub open spec fn baked_pixel(
    width: int,
    ground: Option<Seq<u32>>,
    overlays: Option<Seq<Option<u32>>>,
    tileset: RgbaImage,
    cols: int,
    x: int,
    y: int,
) -> Pixel {
    let slot = (y / 16) * width + x / 16;
    let below = match ground {
        Some(tiles) => ground_pixel(tileset, cols, tiles[slot] as int, x % 16, y % 16),
        None => clear_pixel(),
    };
    match overlays {
        Some(tiles) => overlay_pixel(below, tileset, cols, tiles[slot], x % 16, y % 16),
        None => below,
    }
}

/// The bytes are the baked picture of a map: sixteen pixels each way per tile.
pub open spec fn is_baked(
    bytes: Seq<u8>,
    width: int,
    height: int,
    ground: Option<Seq<u32>>,
    overlays: Option<Seq<Option<u32>>>,
    tileset: RgbaImage,
    cols: int,
) -> bool {
    &&& bytes.len() == width * height * 1024
    &&& forall|x: int, y: int|
        0 <= x < width * 16 && 0 <= y < height * 16 ==> pixel(bytes, #[trigger] baked_index(
            width,
            x,
            y,
        )) == Some(baked_pixel(width, ground, overlays, tileset, cols, x, y))
}

/// Index of a pixel in the picture of a map.
pub open spec fn baked_index(width: int, x: int, y: int) -> int {
    y * (width * 16) + x
}

pub open spec fn view_layer<T>(layer: Option<&Vec<T>>) -> Option<Seq<T>> {
    match layer {
        Some(tiles) => Some(tiles@),
        None => None,
    }
}

proof fn lemma_pixel_kept(before: Seq<u8>, after: Seq<u8>, index: int)
    requires
        pixel(before, index) is Some,
        before.len() <= after.len(),
        forall|i: int| 0 <= i < before.len() ==> before[i] == after[i],
    ensures
        pixel(after, index) == pixel(before, index),
{
}

/// Draws the layers of a map, tile by tile, from a tileset of so many columns.
fn bake(
    width: usize,
    height: usize,
    ground: Option<&Vec<u32>>,
    overlays: Option<&Vec<Option<u32>>>,
    tileset: &RgbaImage,
    cols: u32,
) -> (bytes: Vec<u8>)
    requires
        cols > 0,
        width * height * 1024 <= usize::MAX,
        ground matches Some(tiles) ==> tiles.len() == width * height,
        overlays matches Some(tiles) ==> tiles.len() == width * height,
    ensures
        is_baked(
            bytes@,
            width as int,
            height as int,
            view_layer(ground),
            view_layer(overlays),
            *tileset,
            cols as int,
        ),
{
    let mut bytes: Vec<u8> = Vec::new();
    let mut y: usize = 0;
    let ghost g = view_layer(ground);
    let ghost o = view_layer(overlays);
    proof {
        lemma_dimensions(width as int, height as int);
    }
    if width == 0 || height == 0 {
        proof {
            assert(width * height * 1024 == 0) by (nonlinear_arith)
                requires
                    width == 0 || height == 0,
            ;
        }
        return bytes;
    }
    while y < height * 16
        invariant
            cols > 0,
            width > 0,
            height > 0,
            width * 16 <= usize::MAX,
            height * 16 <= usize::MAX,
            width * height * 1024 <= usize::MAX,
            ground matches Some(tiles) ==> tiles.len() == width * height,
            overlays matches Some(tiles) ==> tiles.len() == width * height,
            g == view_layer(ground),
            o == view_layer(overlays),
            y <= height * 16,
            bytes.len() == y * (width * 16) * 4,
            forall|cx: int, cy: int|
                0 <= cx < width * 16 && 0 <= cy < y ==> pixel(bytes@, #[trigger] baked_index(
                    width as int,
                    cx,
                    cy,
                )) == Some(baked_pixel(width as int, g, o, *tileset, cols as int, cx, cy)),
        decreases height * 16 - y,
    {
        let mut x: usize = 0;
        while x < width * 16
            invariant
                cols > 0,
                width > 0,
                height > 0,
                width * 16 <= usize::MAX,
                height * 16 <= usize::MAX,
                width * height * 1024 <= usize::MAX,
                ground matches Some(tiles) ==> tiles.len() == width * height,
                overlays matches Some(tiles) ==> tiles.len() == width * height,
                g == view_layer(ground),
                o == view_layer(overlays),
                y < height * 16,
                x <= width * 16,
                bytes.len() == (y * (width * 16) + x) * 4,
                forall|cx: int, cy: int|
                    0 <= cx < width * 16 && 0 <= cy && (cy < y || (cy == y && cx < x)) ==> pixel(
                        bytes@,
                        #[trigger] baked_index(width as int, cx, cy),
                    ) == Some(baked_pixel(width as int, g, o, *tileset, cols as int, cx, cy)),
            decreases width * 16 - x,
        {
            proof {
                super::world_map::lemma_tile_slot(
                    width as int,
                    height as int,
                    (x / 16) as int,
                    (y / 16) as int,
                );
                lemma_dimensions(width as int, height as int);
            }
            let slot: usize = (y / 16) * width + x / 16;
            let px: u32 = (x % 16) as u32;
            let py: u32 = (y % 16) as u32;
            let mut drawn: Pixel = (0, 0, 0, 0);
            if let Some(tiles) = ground {
                if let Some(p) = fetch_tile_pixel(tileset, cols, tiles[slot], px, py) {
                    drawn = p;
                }
            }
            if let Some(tiles) = overlays {
                if let Some(tile) = tiles[slot] {
                    if let Some(p) = fetch_tile_pixel(tileset, cols, tile, px, py) {
                        if p.3 > 128 {
                            drawn = p;
                        }
                    }
                }
            }
            let ghost before = bytes@;
            assert(drawn == baked_pixel(
                width as int,
                g,
                o,
                *tileset,
                cols as int,
                x as int,
                y as int,
            ));
            bytes.push(drawn.0);
            bytes.push(drawn.1);
            bytes.push(drawn.2);
            bytes.push(drawn.3);
            proof {
                assert forall|cx: int, cy: int|
                    0 <= cx < width * 16 && 0 <= cy && (cy < y || (cy == y && cx < x
                        + 1)) implies pixel(bytes@, #[trigger] baked_index(width as int, cx, cy))
                    == Some(baked_pixel(width as int, g, o, *tileset, cols as int, cx, cy)) by {
                    if cy < y || cx < x {
                        lemma_pixel_kept(before, bytes@, baked_index(width as int, cx, cy));
                    } else {
                        assert(baked_index(width as int, cx, cy) == y * (width * 16) + x);
                    }
                }
            }
            x = x + 1;
        }
        assert((y + 1) * (width * 16) == y * (width * 16) + width * 16) by (nonlinear_arith);
        y = y + 1;
    }
    assert(height * 16 * (width * 16) * 4 == width * height * 1024) by (nonlinear_arith);
    bytes
}

proof fn lemma_dimensions(width: int, height: int)
    requires
        0 <= width,
        0 <= height,
        width * height * 1024 <= usize::MAX,
    ensures
        width > 0 ==> height * 16 <= usize::MAX,
        height > 0 ==> width * 16 <= usize::MAX,
        width * height <= usize::MAX,
{
    if width > 0 {
        assert(height * 16 <= width * height * 1024) by (nonlinear_arith)
            requires
                width > 0,
                height >= 0,
        ;
    }
    if height > 0 {
        assert(width * 16 <= width * height * 1024) by (nonlinear_arith)
            requires
                width >= 0,
                height > 0,
        ;
    }
    assert(0 <= width * height) by (nonlinear_arith)
        requires
            width >= 0,
            height >= 0,
    ;
}

/// Bakes ground and overlays of the whole map. The tile of the atlas that each
/// cell shows comes row by row.
pub fn bake_map_texture(
    width: usize,
    height: usize,
    ground_tiles: &Vec<u32>,
    overlay_tiles: &Vec<Option<u32>>,
    tileset: &RgbaImage,
    cols: u32,
) -> (bytes: Vec<u8>)
    requires
        cols > 0,
        width * height * 1024 <= usize::MAX,
        ground_tiles.len() == width * height,
        overlay_tiles.len() == width * height,
    ensures
        is_baked(
            bytes@,
            width as int,
            height as int,
            Some(ground_tiles@),
            Some(overlay_tiles@),
            *tileset,
            cols as int,
        ),
{
    bake(width, height, Some(ground_tiles), Some(overlay_tiles), tileset, cols)
}

/// Bakes the ground tiles ONLY (no overlays). The ground shader samples this,
/// so that its jitter at tile boundaries drags in no tree silhouettes.
pub fn bake_ground_only_texture(
    width: usize,
    height: usize,
    ground_tiles: &Vec<u32>,
    tileset: &RgbaImage,
    cols: u32,
) -> (bytes: Vec<u8>)
    requires
        cols > 0,
        width * height * 1024 <= usize::MAX,
        ground_tiles.len() == width * height,
    ensures
        is_baked(
            bytes@,
            width as int,
            height as int,
            Some(ground_tiles@),
            None,
            *tileset,
            cols as int,
        ),
{
    bake(width, height, Some(ground_tiles), None, tileset, cols)
}

/// Bakes just the overlays on a transparent background.
pub fn bake_overlays_only_texture(
    width: usize,
    height: usize,
    overlay_tiles: &Vec<Option<u32>>,
    tileset: &RgbaImage,
    cols: u32,
) -> (bytes: Vec<u8>)
    requires
        cols > 0,
        width * height * 1024 <= usize::MAX,
        overlay_tiles.len() == width * height,
    ensures
        is_baked(
            bytes@,
            width as int,
            height as int,
            None,
            Some(overlay_tiles@),
            *tileset,
            cols as int,
        ),
{
    bake(width, height, None, Some(overlay_tiles), tileset, cols)
}

/// Cuts one tile out of a tileset, sixteen pixels each way. Pixels beyond the
/// tileset are transparent.
pub fn cut_tile(tileset: &RgbaImage, tile: u32) -> (bytes: Vec<u8>)
    requires
        tileset.width >= TILE_SLOT,
    ensures
        bytes.len() == 1024,
        forall|px: int, py: int|
            0 <= px < 16 && 0 <= py < 16 ==> pixel(bytes@, #[trigger] baked_index(1, px, py))
                == Some(
                ground_pixel(
                    *tileset,
                    (tileset.width / TILE_SLOT) as int,
                    tile as int,
                    px,
                    py,
                ),
            ),
{
    let cols: u32 = tileset.width / TILE_SLOT;
    let mut tiles: Vec<u32> = Vec::new();
    tiles.push(tile);
    let bytes = bake(1, 1, Some(&tiles), None, tileset, cols);
    proof {
        assert forall|px: int, py: int| 0 <= px < 16 && 0 <= py < 16 implies pixel(
            bytes@,
            #[trigger] baked_index(1, px, py),
        ) == Some(ground_pixel(*tileset, cols as int, tile as int, px, py)) by {
            assert(px / 16 == 0 && py / 16 == 0 && px % 16 == px && py % 16 == py);
            assert(tiles@[0] == tile);
        }
    }
    bytes
}

/// Some pixel of the frame in the first row is not see-through.
pub open spec fn frame_has_pixels(bytes: Seq<u8>, width: int, frame: int) -> bool {
    exists|px: int, py: int|
        0 <= px < 16 && 0 <= py < 16 && #[trigger] visible_at(bytes, width, frame, px, py)
}

/// The pixel of a frame in the first row has an alpha above ten.
pub open spec fn visible_at(bytes: Seq<u8>, width: int, frame: int, px: int, py: int) -> bool {
    pixel(bytes, py * width + frame * 16 + px) matches Some(p) && p.3 > 10
}

/// Number of frames up to the last one of the first row with pixels.
pub open spec fn frame_count(bytes: Seq<u8>, width: int, cols: int) -> int
    decreases cols,
{
    if cols <= 0 {
        0
    } else if frame_has_pixels(bytes, width, cols - 1) {
        cols
    } else {
        frame_count(bytes, width, cols - 1)
    }
}

fn has_pixels(image: &RgbaImage, frame: u32) -> (found: bool)
    ensures
        found == frame_has_pixels(image.pixels@, image.width as int, frame as int),
{
    let mut py: u32 = 0;
    while py < 16
        invariant
            py <= 16,
            forall|cx: int, cy: int|
                0 <= cx < 16 && 0 <= cy < py ==> !#[trigger] visible_at(
                    image.pixels@,
                    image.width as int,
                    frame as int,
                    cx,
                    cy,
                ),
        decreases 16 - py,
    {
        let mut px: u32 = 0;
        while px < 16
            invariant
                py < 16,
                px <= 16,
                forall|cx: int, cy: int|
                    0 <= cx < 16 && 0 <= cy && (cy < py || (cy == py && cx < px))
                        ==> !#[trigger] visible_at(
                        image.pixels@,
                        image.width as int,
                        frame as int,
                        cx,
                        cy,
                    ),
            decreases 16 - px,
        {
            assert(py * image.width <= 16 * 0x1_0000_0000) by (nonlinear_arith)
                requires
                    py < 16,
                    image.width <= 0x1_0000_0000,
            ;
            let index: u64 = py as u64 * image.width as u64 + frame as u64 * 16 + px as u64;
            if index * 4 + 3 < image.pixels.len() as u64 {
                let at: usize = (index * 4 + 3) as usize;
                if image.pixels[at] > 10 {
                    assert(visible_at(
                        image.pixels@,
                        image.width as int,
                        frame as int,
                        px as int,
                        py as int,
                    ));
                    return true;
                }
            }
            px = px + 1;
        }
        py = py + 1;
    }
    false
}

/// Counts the animation frames in the first row of a sprite sheet of frames
/// sixteen pixels each way: up to the last frame that is not empty.
pub fn count_anim_frames(image: &RgbaImage) -> (frames: u32)
    ensures
        frames == frame_count(
            image.pixels@,
            image.width as int,
            (image.width / 16) as int,
        ),
        frames <= image.width / 16,
{
    let mut cols: u32 = image.width / 16;
    let ghost all = cols;
    while cols > 0
        invariant
            cols <= all,
            all == image.width / 16,
            frame_count(image.pixels@, image.width as int, all as int) == frame_count(
                image.pixels@,
                image.width as int,
                cols as int,
            ),
        decreases cols,
    {
        if has_pixels(image, cols - 1) {
            return cols;
        }
        cols = cols - 1;
    }
    0
}

/// A sprite sheet ready for an atlas of frames sixteen pixels each way.
pub struct SpriteSheet {
    pub image: RgbaImage,
    pub cols: u32,
    pub rows: u32,
    /// Frames of the first row that hold something.
    pub frames: u32,
}

/// Measures a decoded sprite sheet.
pub fn measure_sheet(image: RgbaImage) -> (sheet: SpriteSheet)
    ensures
        sheet.image == image,
        sheet.cols == image.width / 16,
        sheet.rows == image.height / 16,
        sheet.frames == frame_count(
            image.pixels@,
            image.width as int,
            (image.width / 16) as int,
        ),
{
    let frames: u32 = count_anim_frames(&image);
    SpriteSheet { cols: image.width / 16, rows: image.height / 16, frames, image }
}

/// Decodes and measures a sprite sheet; `None` where the file is no image.
pub fn load_sheet(bytes: &[u8]) -> (sheet: Option<SpriteSheet>)
    ensures
        match sheet {
            Some(s) => {
                &&& decoded_rgba(bytes@) == Some((s.image.width, s.image.height, s.image.pixels@))
                &&& s.cols == s.image.width / 16
                &&& s.rows == s.image.height / 16
                &&& s.frames == frame_count(
                    s.image.pixels@,
                    s.image.width as int,
                    (s.image.width / 16) as int,
                )
            },
            None => decoded_rgba(bytes@) is None,
        },
{
    match decode_rgba(bytes) {
        Some(image) => Some(measure_sheet(image)),
        None => None,
    }
}

/// Decodes a picture; `None` where the file is no image.
pub fn load_image(bytes: &[u8]) -> (image: Option<RgbaImage>)
    ensures
        match image {
            Some(i) => decoded_rgba(bytes@) == Some((i.width, i.height, i.pixels@)),
            None => decoded_rgba(bytes@) is None,
        },
{
    decode_rgba(bytes)
}

/// An image file under a name.
pub struct ImageFile {
    pub name: String,
    pub bytes: Vec<u8>,
}

/// A picture under the name of its file.
pub struct NamedImage {
    pub name: String,
    pub image: RgbaImage,
}

/// The files that hold a picture, in order.
pub open spec fn loadable(files: Seq<ImageFile>) -> Seq<ImageFile>
    decreases files.len(),
{
    if files.len() == 0 {
        Seq::empty()
    } else if decoded_rgba(files.last().bytes@) is Some {
        loadable(files.drop_last()).push(files.last())
    } else {
        loadable(files.drop_last())
    }
}

/// Names of pictures.
pub open spec fn image_names(images: Seq<NamedImage>) -> Seq<Seq<char>> {
    images.map_values(|image: NamedImage| image.name@)
}

/// The picture is the one in the file, under the file's name.
pub open spec fn is_image_in(image: NamedImage, file: ImageFile) -> bool {
    &&& image.name@ == file.name@
    &&& decoded_rgba(file.bytes@) == Some(
        (image.image.width, image.image.height, image.image.pixels@),
    )
}

/// Decodes a list of pictures. A file that holds none is left out.
pub fn load_images(files: &Vec<ImageFile>) -> (images: Vec<NamedImage>)
    ensures
        images.len() == loadable(files@).len(),
        forall|k: int|
            0 <= k < images.len() ==> is_image_in(#[trigger] images@[k], loadable(files@)[k]),
{
    let mut images: Vec<NamedImage> = Vec::new();
    let mut i: usize = 0;
    while i < files.len()
        invariant
            i <= files.len(),
            images.len() == loadable(files@.take(i as int)).len(),
            forall|k: int|
                0 <= k < images.len() ==> is_image_in(
                    #[trigger] images@[k],
                    loadable(files@.take(i as int))[k],
                ),
        decreases files.len() - i,
    {
        proof {
            assert(files@.take(i + 1).drop_last() =~= files@.take(i as int));
            assert(files@.take(i + 1).last() == files@[i as int]);
        }
        if let Some(picture) = load_image(files[i].bytes.as_slice()) {
            let image = NamedImage { name: files[i].name.clone(), image: picture };
            assert(is_image_in(image, files@[i as int]));
            images.push(image);
        }
        i = i + 1;
    }
    assert(files@.take(i as int) =~= files@);
    images
}

/// Baking ground and overlays together is laying the overlays over the ground:
/// wherever the overlay layer alone is transparent the whole shows the ground.
pub proof fn layers_compose(
    width: int,
    ground: Seq<u32>,
    overlays: Seq<Option<u32>>,
    tileset: RgbaImage,
    cols: int,
    x: int,
    y: int,
)
    ensures
        ({
            let whole = baked_pixel(width, Some(ground), Some(overlays), tileset, cols, x, y);
            let top = baked_pixel(width, None, Some(overlays), tileset, cols, x, y);
            let below = baked_pixel(width, Some(ground), None, tileset, cols, x, y);
            whole == (if top.3 > 128 {
                top
            } else {
                below
            })
        }),
{
}

/// A pixel is four bytes in the order red, green, blue, alpha; pixels follow
/// each other without a gap, and none lies beyond the bytes.
pub proof fn pixels_are_four_bytes(before: Seq<u8>, p: Pixel, rest: Seq<u8>, index: int)
    requires
        before.len() == 4 * index,
        0 <= index,
    ensures
        pixel(before + seq![p.0, p.1, p.2, p.3] + rest, index) == Some(p),
        pixel(before, index) is None,
        pixel(before + seq![p.0, p.1, p.2], index) is None,
{
    let whole = before + seq![p.0, p.1, p.2, p.3] + rest;
    assert(whole[index * 4] == p.0);
    assert(whole[index * 4 + 1] == p.1);
    assert(whole[index * 4 + 2] == p.2);
    assert(whole[index * 4 + 3] == p.3);
}

/// The tiles of a tileset stand twenty pixels apart each way, in rows of so
/// many, and begin two pixels into their slot.
pub proof fn tiles_stand_in_slots(width: int, cols: int, tile: int, px: int, py: int)
    requires
        0 < cols,
        0 <= tile,
    ensures
        tileset_index(width, cols, 0, 0, 0) == 2 * width + 2,
        tileset_index(width, cols, tile, px + 1, py) == tileset_index(width, cols, tile, px, py) + 1,
        tileset_index(width, cols, tile, px, py + 1) == tileset_index(width, cols, tile, px, py)
            + width,
        (tile + 1) % cols != 0 ==> tileset_index(width, cols, tile + 1, px, py) == tileset_index(
            width,
            cols,
            tile,
            px,
            py,
        ) + 20,
        tileset_index(width, cols, tile + cols, px, py) == tileset_index(width, cols, tile, px, py)
            + 20 * width,
{
    vstd::arithmetic::div_mod::lemma_fundamental_div_mod(tile, cols);
    let (q, r) = (tile / cols, tile % cols);
    vstd::arithmetic::div_mod::lemma_mod_bound(tile, cols);
    assert(cols * q == q * cols) by (nonlinear_arith);
    assert((q + 1) * cols == q * cols + cols) by (nonlinear_arith);
    vstd::arithmetic::div_mod::lemma_fundamental_div_mod_converse(tile + cols, cols, q + 1, r);
    if r + 1 < cols {
        vstd::arithmetic::div_mod::lemma_fundamental_div_mod_converse(tile + 1, cols, q, r + 1);
    } else {
        vstd::arithmetic::div_mod::lemma_fundamental_div_mod_converse(tile + 1, cols, q + 1, 0);
    }
    vstd::arithmetic::div_mod::lemma_small_mod(0, cols as nat);
    vstd::arithmetic::div_mod::lemma_basic_div(0, cols);
    assert((q * 20 + 2 + (py + 1)) * width == (q * 20 + 2 + py) * width + width)
        by (nonlinear_arith);
    assert(((q + 1) * 20 + 2 + py) * width == (q * 20 + 2 + py) * width + 20 * width)
        by (nonlinear_arith);
}

/// An overlay hides what is below where its alpha is above 128, and nowhere
/// else; a tile without an overlay shows what is below.
pub proof fn overlays_cover_where_opaque(
    below: Pixel,
    tileset: RgbaImage,
    cols: int,
    tile: u32,
    px: int,
    py: int,
)
    ensures
        overlay_pixel(below, tileset, cols, None, px, py) == below,
        tile_pixel(tileset, cols, tile as int, px, py) is None ==> overlay_pixel(
            below,
            tileset,
            cols,
            Some(tile),
            px,
            py,
        ) == below,
        tile_pixel(tileset, cols, tile as int, px, py) matches Some(p) ==> {
            let shown = overlay_pixel(below, tileset, cols, Some(tile), px, py);
            &&& p.3 > 128 ==> shown == p
            &&& p.3 <= 128 ==> shown == below
        },
{
}

/// The ground shows the tileset's pixel, transparent where there is none.
pub proof fn grounds_show_their_tile(tileset: RgbaImage, cols: int, tile: int, px: int, py: int)
    ensures
        tile_pixel(tileset, cols, tile, px, py) matches Some(p) ==> ground_pixel(
            tileset,
            cols,
            tile,
            px,
            py,
        ) == p,
        tile_pixel(tileset, cols, tile, px, py) is None ==> ground_pixel(
            tileset,
            cols,
            tile,
            px,
            py,
        ) == (0u8, 0u8, 0u8, 0u8),
{
}

/// Every cell of the map shows the sixteen by sixteen pixels of its own tile.
pub proof fn cells_show_their_own_tile(
    width: int,
    ground: Seq<u32>,
    tileset: RgbaImage,
    cols: int,
    tx: int,
    ty: int,
    px: int,
    py: int,
)
    requires
        0 <= tx,
        0 <= ty,
        0 <= px < 16,
        0 <= py < 16,
    ensures
        baked_pixel(width, Some(ground), None, tileset, cols, 16 * tx + px, 16 * ty + py)
            == ground_pixel(tileset, cols, ground[ty * width + tx] as int, px, py),
        baked_pixel(width, None, None, tileset, cols, 16 * tx + px, 16 * ty + py) == clear_pixel(),
{
}

/// The picture of a map goes row by row, sixteen pixels to a tile.
pub proof fn pictures_go_row_by_row(width: int, x: int, y: int)
    ensures
        baked_index(width, 0, 0) == 0,
        baked_index(width, x + 1, y) == baked_index(width, x, y) + 1,
        baked_index(width, x, y + 1) == baked_index(width, x, y) + 16 * width,
{
    assert((y + 1) * (width * 16) == y * (width * 16) + width * 16) by (nonlinear_arith);
    assert(0 * (width * 16) == 0) by (nonlinear_arith);
}

/// A pixel counts for a frame from an alpha of eleven on.
pub proof fn faint_pixels_do_not_count(bytes: Seq<u8>, width: int, frame: int, px: int, py: int)
    ensures
        match pixel(bytes, py * width + 16 * frame + px) {
            Some(p) => visible_at(bytes, width, frame, px, py) <==> p.3 >= 11,
            None => !visible_at(bytes, width, frame, px, py),
        },
        0 <= px < 16 && 0 <= py < 16 && visible_at(bytes, width, frame, px, py)
            ==> frame_has_pixels(bytes, width, frame),
{
}

/// The last frame that is counted holds something, and none behind it does;
/// empty frames before it count too.
pub proof fn frames_count_up_to_the_last(bytes: Seq<u8>, width: int, cols: int, frame: int)
    requires
        0 <= cols,
    ensures
        0 <= frame_count(bytes, width, cols) <= cols,
        frame_count(bytes, width, cols) > 0 ==> frame_has_pixels(
            bytes,
            width,
            frame_count(bytes, width, cols) - 1,
        ),
        frame_count(bytes, width, cols) <= frame < cols ==> !frame_has_pixels(bytes, width, frame),
    decreases cols,
{
    if cols > 0 && !frame_has_pixels(bytes, width, cols - 1) {
        frames_count_up_to_the_last(bytes, width, cols - 1, frame);
    }
}

/// A file is left out exactly if it holds no picture; the others keep their
/// order.
pub proof fn files_without_a_picture_are_left_out(files: Seq<ImageFile>, file: ImageFile)
    ensures
        loadable(Seq::empty()).len() == 0,
        decoded_rgba(file.bytes@) is Some ==> loadable(files.push(file)) == loadable(files).push(
            file,
        ),
        decoded_rgba(file.bytes@) is None ==> loadable(files.push(file)) == loadable(files),
{
    assert(files.push(file).drop_last() =~= files);
    assert(files.push(file).last() == file);
}

/// A baked picture shows every pixel of the map, and nothing else.
pub proof fn pictures_show_the_whole_map(
    bytes: Seq<u8>,
    width: int,
    height: int,
    ground: Option<Seq<u32>>,
    overlays: Option<Seq<Option<u32>>>,
    tileset: RgbaImage,
    cols: int,
    x: int,
    y: int,
)
    requires
        is_baked(bytes, width, height, ground, overlays, tileset, cols),
        0 <= x < 16 * width,
        0 <= y < 16 * height,
    ensures
        bytes.len() == 4 * (16 * width) * (16 * height),
        pixel(bytes, y * (16 * width) + x) == Some(
            baked_pixel(width, ground, overlays, tileset, cols, x, y),
        ),
{
    assert(4 * (16 * width) * (16 * height) == width * height * 1024) by (nonlinear_arith);
    assert(baked_index(width, x, y) == y * (16 * width) + x);
}

/// A picture keeps the name and the content of its file, and the names keep
/// the order of the pictures.
pub proof fn pictures_keep_their_names(images: Seq<NamedImage>, file: ImageFile, i: int)
    requires
        0 <= i < images.len(),
    ensures
        image_names(images).len() == images.len(),
        image_names(images)[i] == images[i].name@,
        is_image_in(images[i], file) ==> images[i].name@ == file.name@ && decoded_rgba(
            file.bytes@,
        ) == Some((images[i].image.width, images[i].image.height, images[i].image.pixels@)),
{
}

/// The tiles are cut from the rows of the tileset as wide as it is: the first
/// tile two pixels in each way, and the one below it twenty rows further down.
pub proof fn tiles_are_cut_from_the_tileset(tileset: RgbaImage, cols: int, px: int, py: int)
    requires
        0 < cols,
    ensures
        tile_pixel(tileset, cols, 0, px, py) == pixel(
            tileset.pixels@,
            (2 + py) * tileset.width + 2 + px,
        ),
        tile_pixel(tileset, cols, cols, px, py) == pixel(
            tileset.pixels@,
            (22 + py) * tileset.width + 2 + px,
        ),
{
    vstd::arithmetic::div_mod::lemma_small_mod(0, cols as nat);
    vstd::arithmetic::div_mod::lemma_basic_div(0, cols);
    vstd::arithmetic::div_mod::lemma_fundamental_div_mod_converse(cols, cols, 1, 0);
}

} // verus!
