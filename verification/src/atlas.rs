//! Packing of textures into one atlas.

use crate::error::{BlockResourceError, Failure};
use crate::images::{frame_views, AnimationStep, DecodedImage};
use crate::names::NameMap;
use crate::resources::{AtlasRegion, RenderLayer};
use vstd::prelude::*;

verus! {

pub const ATLAS_WIDTH: u32 = 2048;

pub const MAX_ATLAS_SIDE: u32 = 4096;

pub const ATLAS_GUTTER: u32 = 1;

/// The frames of an animated texture and where they are shown.
#[derive(Debug)]
pub struct TextureAnimationData {
    pub origin_x: u32,
    pub origin_y: u32,
    pub width: u32,
    pub height: u32,
    pub frames: Vec<Vec<u8>>,
    pub sequence: Vec<AnimationStep>,
    pub interpolate: bool,
}

#[derive(Debug)]
pub struct TextureAtlasData {
    pub width: u32,
    pub height: u32,
    pub rgba: Vec<u8>,
    pub regions: NameMap<AtlasRegion>,
    pub animations: Vec<TextureAnimationData>,
}

/// Textures by name, in the order in which they are packed.
pub type Images = Seq<(String, DecodedImage)>;

/// A texture that can be packed: not empty, not larger than the atlas, and with
/// a pixel for each place.
pub open spec fn is_packable(image: DecodedImage) -> bool {
    &&& 0 < image.width <= ATLAS_WIDTH - 2
    &&& 0 < image.height <= MAX_ATLAS_SIDE
    &&& image.rgba@.len() == image.width * image.height * 4
}

pub open spec fn all_packable(images: Images) -> bool {
    forall|i: int| 0 <= i < images.len() ==> is_packable((#[trigger] images[i]).1)
}

pub open spec fn taller(a: int, b: int) -> int {
    if a >= b {
        a
    } else {
        b
    }
}

/// Where the next texture would go after the first `n` are packed: a column, a
/// row, and the height of that row so far. Textures stand side by side with a
/// gutter around each, and a new row begins where one does not fit.
pub open spec fn cursor(images: Images, n: int) -> (int, int, int)
    decreases n,
{
    if n <= 0 {
        (1, 1, 0)
    } else {
        let (x, y, row) = cursor(images, n - 1);
        let width = images[n - 1].1.width as int;
        let height = images[n - 1].1.height as int;
        if x + width + 1 > ATLAS_WIDTH {
            (1 + width + 2, y + row + 2, height)
        } else {
            (x + width + 2, y, taller(row, height))
        }
    }
}

/// Where a texture is put.
pub open spec fn spot(images: Images, i: int) -> (int, int) {
    let (x, y, row) = cursor(images, i);
    if x + images[i].1.width + 1 > ATLAS_WIDTH {
        (1, y + row + 2)
    } else {
        (x, y)
    }
}

/// The number of rows that the textures take.
pub open spec fn needed_height(images: Images) -> int {
    let (x, y, row) = cursor(images, images.len() as int);
    y + row + 1
}

/// The smallest power of two that is at least `value`, from `power` on.
pub open spec fn power_from(value: int, power: int) -> int
    decreases
            (if power < value {
                value - power
            } else {
                0
            }),
{
    if power <= 0 || power >= value {
        power
    } else {
        power_from(value, power * 2)
    }
}

pub open spec fn next_power(value: int) -> int {
    power_from(value, 1)
}

pub open spec fn clamped(value: int, last: int) -> int {
    if value < 0 {
        0
    } else if value > last {
        last
    } else {
        value
    }
}

/// Whether a pixel of the atlas belongs to a texture or its gutter.
pub open spec fn holds_pixel(images: Images, i: int, ax: int, ay: int) -> bool {
    let (px, py) = spot(images, i);
    &&& px - 1 <= ax < px + images[i].1.width + 1
    &&& py - 1 <= ay < py + images[i].1.height + 1
}

/// A component of a texture at a pixel of the atlas; in the gutter, that of the
/// nearest edge pixel.
pub open spec fn texel(images: Images, i: int, ax: int, ay: int, c: int) -> u8 {
    let (px, py) = spot(images, i);
    let image = images[i].1;
    let sx = clamped(ax - px, image.width - 1);
    let sy = clamped(ay - py, image.height - 1);
    image.rgba@[(sy * image.width + sx) * 4 + c]
}

pub open spec fn column(k: int) -> int {
    (k / 4) % 2048
}

pub open spec fn line(k: int) -> int {
    (k / 4) / 2048
}

/// The `k`-th byte of the atlas after the first `n` textures are painted.
pub open spec fn painted(images: Images, n: int, k: int) -> u8
    decreases n,
{
    if n <= 0 {
        0
    } else if holds_pixel(images, n - 1, column(k), line(k)) {
        texel(images, n - 1, column(k), line(k), k % 4)
    } else {
        painted(images, n - 1, k)
    }
}

pub open spec fn region_of(images: Images, i: int) -> AtlasRegion {
    AtlasRegion {
        x: spot(images, i).0 as u32,
        y: spot(images, i).1 as u32,
        width: images[i].1.width,
        height: images[i].1.height,
        layer: if images[i].1.cutout {
            RenderLayer::Cutout
        } else {
            RenderLayer::Opaque
        },
    }
}

/// The regions of the first `n` textures, by name.
pub open spec fn regions_upto(images: Images, n: int) -> Map<Seq<char>, AtlasRegion>
    decreases n,
{
    if n <= 0 {
        Map::empty()
    } else {
        regions_upto(images, n - 1).insert(images[n - 1].0@, region_of(images, n - 1))
    }
}

/// The indices of the animated textures among the first `n`.
pub open spec fn animated(images: Images, n: int) -> Seq<int>
    decreases n,
{
    if n <= 0 {
        Seq::empty()
    } else {
        let before = animated(images, n - 1);
        if images[n - 1].1.animation is Some {
            before.push(n - 1)
        } else {
            before
        }
    }
}

pub open spec fn is_animation(data: TextureAnimationData, images: Images, i: int) -> bool {
    let image = images[i].1;
    &&& image.animation matches Some(animation) && data.sequence@ == animation.sequence@
        && data.interpolate == animation.interpolate
    &&& data.origin_x == spot(images, i).0
    &&& data.origin_y == spot(images, i).1
    &&& data.width == image.width
    &&& data.height == image.height
    &&& frame_views(data.frames@) == frame_views(image.frames@)
}

pub open spec fn are_animations(
    animations: Seq<TextureAnimationData>,
    images: Images,
    n: int,
) -> bool {
    let indices = animated(images, n);
    &&& animations.len() == indices.len()
    &&& forall|j: int|
        0 <= j < animations.len() ==> is_animation(#[trigger] animations[j], images, indices[j])
}

/// `atlas` holds the textures: its height is the smallest power of two that
/// holds their rows, and it shows each texture in its region.
pub open spec fn is_atlas(atlas: TextureAtlasData, images: Images) -> bool {
    &&& atlas.width == ATLAS_WIDTH
    &&& atlas.height == next_power(needed_height(images))
    &&& atlas.rgba@.len() == ATLAS_WIDTH * atlas.height * 4
    &&& forall|k: int|
        0 <= k < atlas.rgba@.len() ==> #[trigger] atlas.rgba@[k] == painted(
            images,
            images.len() as int,
            k,
        )
    &&& atlas.regions.well_formed()
    &&& atlas.regions@ == regions_upto(images, images.len() as int)
    &&& are_animations(atlas.animations@, images, images.len() as int)
}

/// Whether the textures can be packed: each of them can, and their rows fit.
pub open spec fn can_pack(images: Images) -> bool {
    all_packable(images) && needed_height(images) <= MAX_ATLAS_SIDE
}

proof fn lemma_cursor_bounds(images: Images, n: int)
    requires
        all_packable(images),
        0 <= n <= images.len(),
    ensures
        ({
            let (x, y, row) = cursor(images, n);
            &&& 1 <= x <= ATLAS_WIDTH + 1
            &&& 1 <= y
            &&& 0 <= row <= MAX_ATLAS_SIDE
            &&& y + row <= 1 + n * 4098
        }),
    decreases n,
{
    if n > 0 {
        lemma_cursor_bounds(images, n - 1);
        assert(is_packable(images[n - 1].1));
    }
}

proof fn lemma_cursor_grows(images: Images, m: int, n: int)
    requires
        all_packable(images),
        0 <= m <= n <= images.len(),
    ensures
        cursor(images, m).1 + cursor(images, m).2 <= cursor(images, n).1 + cursor(images, n).2,
        cursor(images, m).1 <= cursor(images, n).1,
    decreases n - m,
{
    if m < n {
        lemma_cursor_grows(images, m, n - 1);
        lemma_cursor_bounds(images, n - 1);
        assert(is_packable(images[n - 1].1));
    }
}

/// Every texture lies within the atlas, with its gutter.
pub proof fn lemma_texture_fits(images: Images, i: int)
    requires
        all_packable(images),
        0 <= i < images.len(),
    ensures
        1 <= spot(images, i).0,
        spot(images, i).0 + images[i].1.width + 1 <= ATLAS_WIDTH,
        1 <= spot(images, i).1,
        spot(images, i).1 + images[i].1.height + 1 <= needed_height(images),
{
    lemma_cursor_bounds(images, i);
    assert(is_packable(images[i].1));
    lemma_cursor_grows(images, i + 1, images.len() as int);
}

/// After `n` textures, an earlier one lies to the left in the current row or in a
/// row above.
proof fn lemma_behind_cursor(images: Images, i: int, n: int)
    requires
        all_packable(images),
        0 <= i < n <= images.len(),
    ensures
        ({
            let (x, y, row) = cursor(images, n);
            let (px, py) = spot(images, i);
            ||| py == y && px + images[i].1.width + 2 <= x && images[i].1.height <= row
            ||| py + images[i].1.height + 2 <= y
        }),
    decreases n,
{
    assert(is_packable(images[n - 1].1));
    lemma_cursor_bounds(images, n - 1);
    if i < n - 1 {
        lemma_behind_cursor(images, i, n - 1);
    }
}

/// No two textures share a pixel, nor do their gutters.
pub proof fn lemma_textures_are_disjoint(images: Images, i: int, j: int, ax: int, ay: int)
    requires
        all_packable(images),
        0 <= i < j < images.len(),
    ensures
        !(holds_pixel(images, i, ax, ay) && holds_pixel(images, j, ax, ay)),
{
    lemma_behind_cursor(images, i, j);
    lemma_cursor_bounds(images, j);
    assert(is_packable(images[j].1));
}

proof fn lemma_painted_from(images: Images, i: int, n: int, k: int)
    requires
        all_packable(images),
        0 <= i < n <= images.len(),
        holds_pixel(images, i, column(k), line(k)),
    ensures
        painted(images, n, k) == texel(images, i, column(k), line(k), k % 4),
    decreases n,
{
    if i < n - 1 {
        lemma_textures_are_disjoint(images, i, n - 1, column(k), line(k));
        lemma_painted_from(images, i, n - 1, k);
    }
}

/// The atlas shows every texture unchanged in its region, whatever the others
/// are, and repeats its edge pixels in its gutter.
pub proof fn lemma_atlas_shows_every_texture(
    atlas: TextureAtlasData,
    images: Images,
    i: int,
    ax: int,
    ay: int,
    c: int,
)
    requires
        is_atlas(atlas, images),
        can_pack(images),
        0 <= i < images.len(),
        holds_pixel(images, i, ax, ay),
        0 <= c < 4,
    ensures
        0 <= (ay * 2048 + ax) * 4 + c < atlas.rgba@.len(),
        atlas.rgba@[(ay * 2048 + ax) * 4 + c] == texel(images, i, ax, ay, c),
{
    let k = (ay * 2048 + ax) * 4 + c;
    lemma_texture_fits(images, i);
    lemma_next_power(needed_height(images));
    assert(k / 4 == ay * 2048 + ax && k % 4 == c);
    assert(column(k) == ax && line(k) == ay);
    lemma_painted_from(images, i, images.len() as int, k);
    assert(atlas.rgba@[k] == painted(images, images.len() as int, k));
}

proof fn lemma_power_from(value: int, power: int)
    requires
        power > 0,
        value > 0,
        power < 2 * value,
    ensures
        value <= power_from(value, power) < 2 * value,
    decreases
            (if power < value {
                value - power
            } else {
                0
            }),
{
    if power < value {
        lemma_power_from(value, power * 2);
    }
}

/// The next power of two is at least the value and less than twice it.
pub proof fn lemma_next_power(value: int)
    requires
        value > 0,
    ensures
        value <= next_power(value) < 2 * value,
{
    lemma_power_from(value, 1);
}

proof fn lemma_power_limit(value: int)
    requires
        0 < value,
    ensures
        next_power(value) <= 4096 <==> value <= 4096,
{
    lemma_next_power(value);
    if value <= 4096 {
        reveal_with_fuel(power_from, 14);
    }
}

fn power_at_least(value: u32) -> (power: u32)
    requires
        0 < value <= 4096,
    ensures
        power == next_power(value as int),
        value <= power <= 4096,
{
    let mut power: u32 = 1;
    proof {
        lemma_power_limit(value as int);
    }
    while power < value
        invariant
            0 < power <= 8192,
            0 < value <= 4096,
            power_from(value as int, power as int) == next_power(value as int),
            next_power(value as int) <= 4096,
        decreases 8192 - power,
    {
        power = power * 2;
    }
    power
}

/// The number of the first byte of a pixel, where it can be addressed in 32 bits.
pub fn pixel_offset(row_width: u32, x: u32, y: u32) -> (offset: Option<usize>)
    ensures
        match offset {
            Some(value) => value == (y * row_width + x) * 4 && value <= u32::MAX,
            None => (y * row_width + x) * 4 > u32::MAX,
        },
{
    assert(0 <= y * row_width <= 0xffff_ffff * 0xffff_ffff) by (nonlinear_arith)
        requires
            0 <= y <= 0xffff_ffff,
            0 <= row_width <= 0xffff_ffff,
    ;
    let row: u64 = y as u64 * row_width as u64;
    if row > 0xffff_ffff {
        return None;
    }
    let pixel: u64 = row + x as u64;
    if pixel > 0xffff_ffff {
        return None;
    }
    let offset: u64 = pixel * 4;
    if offset > 0xffff_ffff {
        None
    } else {
        Some(offset as usize)
    }
}

fn packable(image: &DecodedImage) -> (yes: bool)
    ensures
        yes == is_packable(*image),
{
    if image.width == 0 || image.height == 0 || image.width > ATLAS_WIDTH - 2 || image.height
        > MAX_ATLAS_SIDE {
        return false;
    }
    assert(0 <= image.width * image.height <= 2046 * 4096) by (nonlinear_arith)
        requires
            0 <= image.width <= 2046,
            0 <= image.height <= 4096,
    ;
    image.rgba.len() == (image.width * image.height * 4) as usize
}

/// Finds the place of every texture.
fn place_images(images: &Vec<(String, DecodedImage)>) -> (places: Option<(Vec<(u64, u64)>, u64)>)
    ensures
        match places {
            Some((spots, height)) => {
                &&& all_packable(images@)
                &&& spots@.len() == images@.len()
                &&& forall|i: int|
                    0 <= i < spots@.len() ==> ((#[trigger] spots@[i]).0 as int, spots@[i].1 as int)
                        == spot(images@, i)
                &&& height == needed_height(images@)
            },
            None => !all_packable(images@) || needed_height(images@) > MAX_ATLAS_SIDE,
        },
{
    let mut spots: Vec<(u64, u64)> = Vec::new();
    let mut x: u64 = 1;
    let mut y: u64 = 1;
    let mut row: u64 = 0;
    let mut checked: usize = 0;
    while checked < images.len()
        invariant
            checked <= images@.len(),
            forall|k: int| 0 <= k < checked ==> is_packable((#[trigger] images@[k]).1),
        decreases images@.len() - checked,
    {
        if !packable(&images[checked].1) {
            assert(!is_packable(images@[checked as int].1));
            return None;
        }
        checked += 1;
    }
    let mut i: usize = 0;
    while i < images.len()
        invariant
            i <= images@.len(),
            all_packable(images@),
            spots@.len() == i,
            (x as int, y as int, row as int) == cursor(images@, i as int),
            1 <= x <= 2049,
            1 <= y <= 4096,
            row <= 4096,
            forall|k: int|
                0 <= k < i ==> ((#[trigger] spots@[k]).0 as int, spots@[k].1 as int) == spot(
                    images@,
                    k,
                ),
        decreases images@.len() - i,
    {
        assert(is_packable(images@[i as int].1));
        let width: u64 = images[i].1.width as u64;
        let height: u64 = images[i].1.height as u64;
        if x + width + 1 > 2048 {
            x = 1;
            y = y + row + 2;
            row = 0;
        }
        if y > 4096 {
            proof {
                lemma_cursor_grows(images@, i + 1, images@.len() as int);
            }
            return None;
        }
        spots.push((x, y));
        x = x + width + 2;
        if row < height {
            row = height;
        }
        i += 1;
    }
    Some((spots, y + row + 1))
}

/// Copies one pixel.
fn copy_pixel(target: &mut Vec<u8>, at: usize, source: &Vec<u8>, from: usize)
    requires
        at + 4 <= old(target)@.len(),
        from + 4 <= source@.len(),
    ensures
        final(target)@.len() == old(target)@.len(),
        forall|k: int|
            0 <= k < old(target)@.len() ==> #[trigger] final(target)@[k] == (if at <= k < at + 4 {
                source@[from + k - at]
            } else {
                old(target)@[k]
            }),
{
    let target_length: usize = target.len();
    let source_length: usize = source.len();
    assert(at + 4 <= target_length && from + 4 <= source_length);
    target.set(at, source[from]);
    target.set(at + 1, source[from + 1]);
    target.set(at + 2, source[from + 2]);
    target.set(at + 3, source[from + 3]);
}

/// The `k`-th byte while a texture is painted row by row, up to a pixel.
spec fn painting(images: Images, i: int, k: int, cy: int, cx: int) -> u8 {
    if holds_pixel(images, i, column(k), line(k)) && (line(k) < cy || (line(k) == cy && column(k)
        < cx)) {
        texel(images, i, column(k), line(k), k % 4)
    } else {
        painted(images, i, k)
    }
}

proof fn lemma_texel_offset(width: int, height: int, sx: int, sy: int)
    requires
        0 <= sx < width,
        0 <= sy < height,
    ensures
        0 <= (sy * width + sx) * 4,
        (sy * width + sx) * 4 + 4 <= width * height * 4,
{
    assert(0 <= sy * width && sy * width + width <= height * width) by (nonlinear_arith)
        requires
            0 <= sy < height,
            0 < width,
    ;
    assert(height * width == width * height) by (nonlinear_arith);
}

fn clamp_source(at: u32, origin: u32, last: u32) -> (source: u32)
    ensures
        source == clamped(at - origin, last as int),
{
    if at < origin {
        0
    } else if at - origin > last {
        last
    } else {
        at - origin
    }
}

/// Paints one texture and its gutter.
#[verifier::rlimit(40)]
fn paint_image(
    rgba: &mut Vec<u8>,
    images: &Vec<(String, DecodedImage)>,
    i: usize,
    px: u32,
    py: u32,
    height: u32,
)
    requires
        all_packable(images@),
        i < images@.len(),
        (px as int, py as int) == spot(images@, i as int),
        1 <= px,
        px + images@[i as int].1.width + 1 <= 2048,
        1 <= py,
        py + images@[i as int].1.height + 1 <= height <= 4096,
        old(rgba)@.len() == 2048 * height * 4,
        forall|k: int|
            0 <= k < old(rgba)@.len() ==> #[trigger] old(rgba)@[k] == painted(images@, i as int, k),
    ensures
        final(rgba)@.len() == old(rgba)@.len(),
        forall|k: int|
            0 <= k < final(rgba)@.len() ==> #[trigger] final(rgba)@[k] == painted(
                images@,
                i + 1,
                k,
            ),
{
    let image: &DecodedImage = &images[i].1;
    assert(is_packable(images@[i as int].1));
    let mut ay: u32 = py - 1;
    while ay < py + image.height + 1
        invariant
            all_packable(images@),
            i < images@.len(),
            *image == images@[i as int].1,
            is_packable(*image),
            (px as int, py as int) == spot(images@, i as int),
            1 <= px,
            px + image.width + 1 <= 2048,
            1 <= py,
            py + image.height + 1 <= height <= 4096,
            py - 1 <= ay <= py + image.height + 1,
            rgba@.len() == 2048 * height * 4,
            forall|k: int|
                0 <= k < rgba@.len() ==> #[trigger] rgba@[k] == painting(
                    images@,
                    i as int,
                    k,
                    ay as int,
                    px - 1,
                ),
        decreases py + image.height + 1 - ay,
    {
        let sy: u32 = clamp_source(ay, py, image.height - 1);
        let mut ax: u32 = px - 1;
        while ax < px + image.width + 1
            invariant
                all_packable(images@),
                i < images@.len(),
                *image == images@[i as int].1,
                is_packable(*image),
                (px as int, py as int) == spot(images@, i as int),
                1 <= px,
                px + image.width + 1 <= 2048,
                1 <= py,
                py + image.height + 1 <= height <= 4096,
                py - 1 <= ay < py + image.height + 1,
                px - 1 <= ax <= px + image.width + 1,
                sy == clamped(ay - py, image.height - 1),
                rgba@.len() == 2048 * height * 4,
                forall|k: int|
                    0 <= k < rgba@.len() ==> #[trigger] rgba@[k] == painting(
                        images@,
                        i as int,
                        k,
                        ay as int,
                        ax as int,
                    ),
            decreases px + image.width + 1 - ax,
        {
            let sx: u32 = clamp_source(ax, px, image.width - 1);
            proof {
                lemma_texel_offset(
                    image.width as int,
                    image.height as int,
                    sx as int,
                    sy as int,
                );
                assert(0 <= sy * image.width <= 4096 * 2046) by (nonlinear_arith)
                    requires
                        0 <= sy <= 4096,
                        0 <= image.width <= 2046,
                ;
            }
            let from: usize = ((sy * image.width + sx) * 4) as usize;
            let at: usize = ((ay * 2048 + ax) * 4) as usize;
            let ghost before = rgba@;
            copy_pixel(rgba, at, &image.rgba, from);
            proof {
                assert forall|k: int| 0 <= k < rgba@.len() implies #[trigger] rgba@[k] == painting(
                    images@,
                    i as int,
                    k,
                    ay as int,
                    ax + 1,
                ) by {
                    assert(before[k] == painting(images@, i as int, k, ay as int, ax as int));
                    if at <= k < at + 4 {
                        assert(k / 4 == ay * 2048 + ax);
                        assert(k % 4 == k - at);
                        assert(column(k) == ax && line(k) == ay);
                        assert(texel(images@, i as int, ax as int, ay as int, k % 4)
                            == image.rgba@[(sy * image.width + sx) * 4 + k % 4]);
                    } else {
                        assert(!(column(k) == ax && line(k) == ay));
                    }
                }
            }
            ax += 1;
        }
        proof {
            assert forall|k: int| 0 <= k < rgba@.len() implies #[trigger] rgba@[k] == painting(
                images@,
                i as int,
                k,
                ay + 1,
                px - 1,
            ) by {
                assert(rgba@[k] == painting(images@, i as int, k, ay as int, ax as int));
            }
        }
        ay += 1;
    }
    proof {
        assert forall|k: int| 0 <= k < rgba@.len() implies #[trigger] rgba@[k] == painted(
            images@,
            i + 1,
            k,
        ) by {
            assert(rgba@[k] == painting(images@, i as int, k, ay as int, px - 1));
        }
    }
}

fn copy_frames(frames: &Vec<Vec<u8>>) -> (copy: Vec<Vec<u8>>)
    ensures
        frame_views(copy@) == frame_views(frames@),
{
    let mut copy: Vec<Vec<u8>> = Vec::new();
    let mut i: usize = 0;
    while i < frames.len()
        invariant
            i <= frames@.len(),
            copy@.len() == i,
            forall|k: int| 0 <= k < i ==> (#[trigger] copy@[k])@ == frames@[k]@,
        decreases frames@.len() - i,
    {
        let frame: Vec<u8> = frames[i].clone();
        assert(frame@ =~= frames@[i as int]@);
        copy.push(frame);
        i += 1;
    }
    assert(frame_views(copy@) =~= frame_views(frames@));
    copy
}

/// Packs textures into an atlas.
pub fn pack_atlas(images: &NameMap<DecodedImage>) -> (result: Result<
    TextureAtlasData,
    BlockResourceError,
>)
    ensures
        match result {
            Ok(atlas) => can_pack(images.entries@) && is_atlas(atlas, images.entries@),
            Err(error) => !can_pack(images.entries@) && error@ == (Failure::AtlasTooLarge {
                maximum: MAX_ATLAS_SIDE,
            }),
        },
{
    let (spots, needed) = match place_images(&images.entries) {
        Some(places) => places,
        None => return Err(BlockResourceError::AtlasTooLarge { maximum: MAX_ATLAS_SIDE }),
    };
    if needed > 4096 {
        return Err(BlockResourceError::AtlasTooLarge { maximum: MAX_ATLAS_SIDE });
    }
    proof {
        lemma_cursor_bounds(images.entries@, images.entries@.len() as int);
    }
    let height: u32 = power_at_least(needed as u32);
    let mut rgba: Vec<u8> = blank((2048 * height * 4) as usize);
    let mut regions: NameMap<AtlasRegion> = NameMap::new();
    let mut animations: Vec<TextureAnimationData> = Vec::new();
    let mut i: usize = 0;
    while i < images.entries.len()
        invariant
            i <= images.entries@.len(),
            all_packable(images.entries@),
            needed == needed_height(images.entries@),
            needed <= height <= 4096,
            rgba@.len() == 2048 * height * 4,
            spots@.len() == images.entries@.len(),
            forall|k: int|
                0 <= k < spots@.len() ==> ((#[trigger] spots@[k]).0 as int, spots@[k].1 as int)
                    == spot(images.entries@, k),
            forall|k: int|
                0 <= k < rgba@.len() ==> #[trigger] rgba@[k] == painted(
                    images.entries@,
                    i as int,
                    k,
                ),
            regions.well_formed(),
            regions@ == regions_upto(images.entries@, i as int),
            are_animations(animations@, images.entries@, i as int),
        decreases images.entries@.len() - i,
    {
        proof {
            lemma_texture_fits(images.entries@, i as int);
            assert(is_packable(images.entries@[i as int].1));
        }
        let px: u32 = spots[i].0 as u32;
        let py: u32 = spots[i].1 as u32;
        paint_image(&mut rgba, &images.entries, i, px, py, height);
        let image: &DecodedImage = &images.entries[i].1;
        let layer = if image.cutout {
            RenderLayer::Cutout
        } else {
            RenderLayer::Opaque
        };
        regions.insert(
            images.entries[i].0.clone(),
            AtlasRegion { x: px, y: py, width: image.width, height: image.height, layer },
        );
        let ghost earlier = animations@;
        match &image.animation {
            Some(animation) => {
                let sequence: Vec<AnimationStep> = animation.sequence.clone();
                assert(sequence@ =~= animation.sequence@);
                animations.push(
                    TextureAnimationData {
                        origin_x: px,
                        origin_y: py,
                        width: image.width,
                        height: image.height,
                        frames: copy_frames(&image.frames),
                        sequence,
                        interpolate: animation.interpolate,
                    },
                );
            },
            None => {},
        }
        proof {
            let indices = animated(images.entries@, i + 1);
            assert forall|j: int| 0 <= j < animations@.len() implies is_animation(
                #[trigger] animations@[j],
                images.entries@,
                indices[j],
            ) by {
                if j < earlier.len() {
                    assert(is_animation(
                        earlier[j],
                        images.entries@,
                        animated(images.entries@, i as int)[j],
                    ));
                }
            }
        }
        i += 1;
    }
    Ok(TextureAtlasData { width: ATLAS_WIDTH, height, rgba, regions, animations })
}

fn blank(length: usize) -> (bytes: Vec<u8>)
    ensures
        bytes@.len() == length,
        forall|k: int| 0 <= k < length ==> #[trigger] bytes@[k] == 0,
{
    let mut bytes: Vec<u8> = Vec::with_capacity(length);
    let mut i: usize = 0;
    while i < length
        invariant
            i <= length,
            bytes@.len() == i,
            forall|k: int| 0 <= k < i ==> #[trigger] bytes@[k] == 0,
        decreases length - i,
    {
        bytes.push(0);
        i += 1;
    }
    bytes
}

pub open spec fn known_region(regions: Map<Seq<char>, AtlasRegion>, texture: Seq<char>) -> Option<
    AtlasRegion,
> {
    if regions.contains_key(texture) {
        Some(regions[texture])
    } else {
        None
    }
}

impl TextureAtlasData {
    /// The region of a texture; the one of the missing texture where it is
    /// unknown; the whole atlas where that is unknown too.
    pub open spec fn region_for(self, texture: Seq<char>) -> AtlasRegion {
        match known_region(self.regions@, texture) {
            Some(region) => region,
            None => match known_region(self.regions@, "cubic:missing"@) {
                Some(region) => region,
                None => AtlasRegion {
                    x: 0,
                    y: 0,
                    width: self.width,
                    height: self.height,
                    layer: RenderLayer::Opaque,
                },
            },
        }
    }

    pub fn exact_region(&self, texture: &str) -> (region: Option<AtlasRegion>)
        requires
            self.regions.well_formed(),
        ensures
            region == known_region(self.regions@, texture@),
    {
        match self.regions.get(texture) {
            Some(region) => Some(*region),
            None => None,
        }
    }

    pub fn region(&self, texture: &str) -> (region: AtlasRegion)
        requires
            self.regions.well_formed(),
        ensures
            region == self.region_for(texture@),
    {
        match self.exact_region(texture) {
            Some(region) => region,
            None => match self.exact_region("cubic:missing") {
                Some(region) => region,
                None => AtlasRegion {
                    x: 0,
                    y: 0,
                    width: self.width,
                    height: self.height,
                    layer: RenderLayer::Opaque,
                },
            },
        }
    }
}

proof fn lemma_region_kept(images: Images, i: int, n: int)
    requires
        crate::names::ascending(images),
        0 <= i < n <= images.len(),
    ensures
        known_region(regions_upto(images, n), images[i].0@) == Some(region_of(images, i)),
    decreases n,
{
    if i < n - 1 {
        lemma_region_kept(images, i, n - 1);
        assert(crate::names::comes_before(images[i].0@, images[n - 1].0@));
        crate::names::lemma_texts_are_ordered(images[i].0@, images[i].0@, images[i].0@);
    }
}

/// Every packed texture is found under its name, where it was put.
pub proof fn lemma_every_texture_is_found(atlas: TextureAtlasData, images: NameMap<DecodedImage>, i: int)
    requires
        images.well_formed(),
        is_atlas(atlas, images.entries@),
        0 <= i < images.entries@.len(),
    ensures
        atlas.region_for(images.entries@[i].0@) == region_of(images.entries@, i),
{
    lemma_region_kept(images.entries@, i, images.entries@.len() as int);
}

/// The region of a texture in the atlas shows the texture, pixel by pixel, and the
/// pixels around it repeat its edges.
pub proof fn lemma_regions_show_their_textures(
    atlas: TextureAtlasData,
    images: NameMap<DecodedImage>,
    i: int,
    x: int,
    y: int,
    c: int,
)
    requires
        images.well_formed(),
        is_atlas(atlas, images.entries@),
        can_pack(images.entries@),
        0 <= i < images.entries@.len(),
        -1 <= x <= images.entries@[i].1.width,
        -1 <= y <= images.entries@[i].1.height,
        0 <= c < 4,
    ensures
        ({
            let image = images.entries@[i].1;
            let region = atlas.regions@[images.entries@[i].0@];
            let nx = if x < 0 {
                0
            } else if x == image.width {
                x - 1
            } else {
                x
            };
            let ny = if y < 0 {
                0
            } else if y == image.height {
                y - 1
            } else {
                y
            };
            &&& atlas.regions@.contains_key(images.entries@[i].0@)
            &&& region.width == image.width
            &&& region.height == image.height
            &&& region.layer is Cutout <==> image.cutout
            &&& region.layer is Opaque <==> !image.cutout
            &&& atlas.rgba@[((region.y + y) * atlas.width + region.x + x) * 4 + c]
                == image.rgba@[(ny * image.width + nx) * 4 + c]
        }),
{
    let all = images.entries@;
    lemma_texture_fits(all, i);
    lemma_region_kept(all, i, all.len() as int);
    let (px, py) = spot(all, i);
    assert(is_packable(all[i].1));
    lemma_atlas_shows_every_texture(atlas, all, i, px + x, py + y, c);
    assert(region_of(all, i).x == px && region_of(all, i).y == py);
}

/// A texture that the atlas lacks is shown as the missing one.
pub proof fn lemma_unknown_textures_are_shown_as_missing(atlas: TextureAtlasData, texture: Seq<char>)
    ensures
        !atlas.regions@.contains_key(texture) ==> atlas.region_for(texture) == atlas.region_for(
            "cubic:missing"@,
        ),
        atlas.regions@.contains_key(texture) ==> atlas.region_for(texture)
            == atlas.regions@[texture],
{
}

/// What no texture and no gutter covers is blank.
pub proof fn lemma_atlas_is_blank_elsewhere(images: Images, n: int, k: int)
    requires
        forall|i: int|
            0 <= i < n ==> !({
                let (px, py) = #[trigger] spot(images, i);
                &&& px - 1 <= (k / 4) % 2048 <= px + images[i].1.width
                &&& py - 1 <= (k / 4) / 2048 <= py + images[i].1.height
            }),
    ensures
        painted(images, n, k) == 0,
    decreases n,
{
    if n > 0 {
        lemma_atlas_is_blank_elsewhere(images, n - 1, k);
        let here = spot(images, n - 1);
    }
}

/// Every animated texture, and no other, has its animation, in the order of the
/// textures.
pub proof fn lemma_animated_textures_are_listed(images: Images, n: int, i: int)
    requires
        0 <= n <= images.len(),
    ensures
        animated(images, n).contains(i) <==> 0 <= i < n && images[i].1.animation is Some,
        forall|a: int, b: int|
            0 <= a < b < animated(images, n).len() ==> #[trigger] animated(images, n)[a]
                < #[trigger] animated(images, n)[b],
        forall|a: int|
            0 <= a < animated(images, n).len() ==> 0 <= #[trigger] animated(images, n)[a] < n,
    decreases n,
{
    if n > 0 {
        lemma_animated_textures_are_listed(images, n - 1, i);
        let before = animated(images, n - 1);
        if images[n - 1].1.animation is Some {
            let all = before.push(n - 1);
            assert(all[before.len() as int] == n - 1);
            if before.contains(i) {
                let a = choose|a: int| 0 <= a < before.len() && before[a] == i;
                assert(all[a] == i);
            }
            if all.contains(i) {
                let a = choose|a: int| 0 <= a < all.len() && all[a] == i;
                if a < before.len() {
                    assert(before[a] == i);
                }
            }
        }
    }
}

/// Textures are packed in rows, with two pixels between them: the first stands one pixel
/// from the corner, and each next one beside the one before it, or, where it does not fit
/// there, at the beginning of a row below all that were packed.
pub proof fn lemma_textures_are_packed_in_rows(images: Images, i: int)
    requires
        all_packable(images),
        0 <= i,
        i + 1 < images.len(),
    ensures
        spot(images, 0) == (1int, 1int),
        ({
            let (x, y) = spot(images, i);
            let (next_x, next_y) = spot(images, i + 1);
            let beside = x + images[i].1.width + 2;
            if beside + images[i + 1].1.width + 1 <= 2048 {
                next_x == beside && next_y == y
            } else {
                next_x == 1 && next_y > y + images[i].1.height + 1
            }
        }),
{
    assert(is_packable(images[0].1));
    assert(is_packable(images[i].1));
    assert(is_packable(images[i + 1].1));
    reveal_with_fuel(cursor, 2);
    lemma_cursor_bounds(images, i);
}

/// The atlas is no higher than its textures need: one of them ends one pixel above.
pub proof fn lemma_atlas_is_as_high_as_needed(images: Images)
    requires
        all_packable(images),
        images.len() > 0,
    ensures
        exists|i: int|
            0 <= i < images.len() && #[trigger] spot(images, i).1 + images[i].1.height + 1
                == needed_height(images),
        can_pack(images) <==> needed_height(images) <= 4096,
{
    let n = images.len() as int;
    lemma_rows_have_their_tallest(images, n);
    let i = choose|i: int|
        0 <= i < n && #[trigger] spot(images, i).1 == cursor(images, n).1 && images[i].1.height
            == cursor(images, n).2;
    assert(spot(images, i).1 + images[i].1.height + 1 == needed_height(images));
}

proof fn lemma_rows_have_their_tallest(images: Images, n: int)
    requires
        all_packable(images),
        0 < n <= images.len(),
    ensures
        exists|i: int|
            0 <= i < n && #[trigger] spot(images, i).1 == cursor(images, n).1 && images[i].1.height
                == cursor(images, n).2,
    decreases n,
{
    assert(is_packable(images[n - 1].1));
    let (x, y, row) = cursor(images, n - 1);
    let own = spot(images, n - 1);
    if n == 1 {
        reveal_with_fuel(cursor, 2);
        assert(own.1 == cursor(images, n).1 && images[n - 1].1.height == cursor(images, n).2);
    } else {
        lemma_rows_have_their_tallest(images, n - 1);
        if cursor(images, n).2 == images[n - 1].1.height {
            assert(own.1 == cursor(images, n).1);
        } else {
            let i = choose|i: int|
                0 <= i < n - 1 && #[trigger] spot(images, i).1 == cursor(images, n - 1).1
                    && images[i].1.height == cursor(images, n - 1).2;
            assert(spot(images, i).1 == cursor(images, n).1);
        }
    }
}

} // verus!
