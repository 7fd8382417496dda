//! Icons of items: sampling, tinting and layering of their textures.

use crate::json::{Json, JsonTree};
use crate::text::same_text;
use vstd::arithmetic::div_mod::lemma_fundamental_div_mod_converse;
use vstd::prelude::*;

verus! {

/// A size of at least one.
pub open spec fn at_least_one(size: u32) -> int {
    if size == 0 {
        1
    } else {
        size as int
    }
}

/// Where the nearest texel for a pixel of an icon begins.
pub open spec fn sample_offset(width: int, height: int, icon_size: int, pixel: int) -> int {
    let sx = (pixel % icon_size) * width / icon_size;
    let sy = (pixel / icon_size) * height / icon_size;
    (sy * width + sx) * 4
}

/// A component of a tint: of red, green and blue.
pub open spec fn tint_component(tint: u32, c: int) -> int {
    if c == 0 {
        tint as int / 0x1_0000 % 256
    } else if c == 1 {
        tint as int / 0x100 % 256
    } else {
        tint as int % 256
    }
}

/// A component of a texel in a tint. Alpha is not tinted.
pub open spec fn tinted(value: u8, tint: Option<u32>, c: int) -> int {
    match tint {
        Some(tint) => if c < 3 {
            value * tint_component(tint, c) / 255
        } else {
            value as int
        },
        None => value as int,
    }
}

/// The `k`-th byte of an icon. A texel that the texture lacks leaves the pixel
/// blank.
pub open spec fn sampled(
    source: Seq<u8>,
    width: int,
    height: int,
    icon_size: int,
    tint: Option<u32>,
    k: int,
) -> int {
    let offset = sample_offset(width, height, icon_size, k / 4);
    if offset + 4 <= source.len() {
        tinted(source[offset + k % 4], tint, k % 4)
    } else {
        0
    }
}

proof fn lemma_sample_bounds(width: int, height: int, icon_size: int, x: int, y: int)
    requires
        0 < width,
        0 < height,
        0 <= x < icon_size,
        0 <= y < icon_size,
    ensures
        0 <= x * width <= icon_size * width,
        0 <= y * height <= icon_size * height,
        0 <= x * width / icon_size < width,
        0 <= y * height / icon_size < height,
        0 <= (y * height / icon_size) * width,
        ((y * height / icon_size) * width + x * width / icon_size) * 4 + 4 <= width * height * 4,
{
    assert(0 <= x * width && x * width < icon_size * width) by (nonlinear_arith)
        requires
            0 <= x < icon_size,
            0 < width,
    ;
    assert(0 <= y * height && y * height < icon_size * height) by (nonlinear_arith)
        requires
            0 <= y < icon_size,
            0 < height,
    ;
    let sx = x * width / icon_size;
    let sy = y * height / icon_size;
    lemma_quotient_below(x * width, icon_size, width);
    lemma_quotient_below(y * height, icon_size, height);
    assert(0 <= sy * width && sy * width + width <= width * height) by (nonlinear_arith)
        requires
            0 <= sy < height,
            0 < width,
    ;
}

proof fn lemma_quotient_below(a: int, n: int, limit: int)
    requires
        0 <= a < n * limit,
        0 < n,
    ensures
        0 <= a / n < limit,
{
    let q = a / n;
    assert(n * q <= a && 0 <= q) by (nonlinear_arith)
        requires
            q == a / n,
            0 <= a,
            0 < n,
    ;
    assert(q < limit) by (nonlinear_arith)
        requires
            n * q <= a,
            a < n * limit,
            0 < n,
    ;
}

fn tint_byte(value: u8, tint: Option<u32>, c: usize) -> (result: u8)
    requires
        c < 4,
    ensures
        result == tinted(value, tint, c as int),
{
    match tint {
        Some(tint) => {
            if c == 3 {
                return value;
            }
            let part: u32 = if c == 0 {
                tint / 0x1_0000 % 256
            } else if c == 1 {
                tint / 0x100 % 256
            } else {
                tint % 256
            };
            assert(0 <= value * part <= 255 * 255) by (nonlinear_arith)
                requires
                    0 <= value <= 255,
                    0 <= part <= 255,
            ;
            (value as u32 * part / 255) as u8
        },
        None => value,
    }
}

/// Samples a texture for an icon, with the nearest texel for every pixel.
#[verifier::rlimit(30)]
pub fn sample_icon(
    source: &Vec<u8>,
    width: u32,
    height: u32,
    icon_size: u32,
    tint: Option<u32>,
) -> (icon: Vec<u8>)
    requires
        icon_size * icon_size * 4 <= usize::MAX,
        icon_size * at_least_one(width) <= usize::MAX,
        icon_size * at_least_one(height) <= usize::MAX,
        at_least_one(width) * at_least_one(height) * 4 <= usize::MAX,
    ensures
        icon@.len() == icon_size * icon_size * 4,
        forall|k: int|
            0 <= k < icon@.len() ==> #[trigger] icon@[k] == sampled(
                source@,
                at_least_one(width),
                at_least_one(height),
                icon_size as int,
                tint,
                k,
            ),
{
    let size: usize = icon_size as usize;
    let columns: usize = if width == 0 {
        1
    } else {
        width as usize
    };
    let rows: usize = if height == 0 {
        1
    } else {
        height as usize
    };
    let mut icon: Vec<u8> = Vec::new();
    let mut y: usize = 0;
    while y < size
        invariant
            y <= size,
            size == icon_size,
            columns == at_least_one(width),
            rows == at_least_one(height),
            size * size * 4 <= usize::MAX,
            size * columns <= usize::MAX,
            size * rows <= usize::MAX,
            columns * rows * 4 <= usize::MAX,
            icon@.len() == y * size * 4,
            forall|k: int|
                0 <= k < icon@.len() ==> #[trigger] icon@[k] == sampled(
                    source@,
                    columns as int,
                    rows as int,
                    size as int,
                    tint,
                    k,
                ),
        decreases size - y,
    {
        let mut x: usize = 0;
        while x < size
            invariant
                x <= size,
                y < size,
                size == icon_size,
                columns == at_least_one(width),
                rows == at_least_one(height),
                size * size * 4 <= usize::MAX,
                size * columns <= usize::MAX,
                size * rows <= usize::MAX,
                columns * rows * 4 <= usize::MAX,
                icon@.len() == (y * size + x) * 4,
                forall|k: int|
                    0 <= k < icon@.len() ==> #[trigger] icon@[k] == sampled(
                        source@,
                        columns as int,
                        rows as int,
                        size as int,
                        tint,
                        k,
                    ),
            decreases size - x,
        {
            proof {
                lemma_sample_bounds(
                    columns as int,
                    rows as int,
                    size as int,
                    x as int,
                    y as int,
                );
                assert(x * columns <= size * columns);
                assert(y * rows <= size * rows);
            }
            let sx: usize = x * columns / size;
            let sy: usize = y * rows / size;
            assert(sy * columns + sx <= columns * rows * 4);
            let offset: usize = (sy * columns + sx) * 4;
            let available: bool = offset <= source.len() && 4 <= source.len() - offset;
            let ghost pixel = y * size + x;
            proof {
                lemma_fundamental_div_mod_converse(pixel, size as int, y as int, x as int);
                assert(sample_offset(columns as int, rows as int, size as int, pixel) == offset);
            }
            let mut c: usize = 0;
            while c < 4
                invariant
                    c <= 4,
                    pixel == y * size + x,
                    0 <= pixel,
                    available == (offset + 4 <= source@.len()),
                    sample_offset(columns as int, rows as int, size as int, pixel) == offset,
                    icon@.len() == pixel * 4 + c,
                    forall|k: int|
                        0 <= k < icon@.len() ==> #[trigger] icon@[k] == sampled(
                            source@,
                            columns as int,
                            rows as int,
                            size as int,
                            tint,
                            k,
                        ),
                decreases 4 - c,
            {
                let ghost k = icon@.len() as int;
                assert(k / 4 == pixel && k % 4 == c);
                if available {
                    icon.push(tint_byte(source[offset + c], tint, c));
                } else {
                    icon.push(0);
                }
                c += 1;
            }
            x += 1;
        }
        assert((y * size + size) * 4 == (y + 1) * size * 4) by (nonlinear_arith);
        y += 1;
    }
    icon
}

/// The alpha of a pixel under another.
pub open spec fn layered_alpha(over: u8, under: u8) -> int {
    over + under * (255 - over) / 255
}

/// A component of a pixel under another, kept in a byte.
pub open spec fn layered(over: u8, over_alpha: u8, under: u8, under_alpha: u8) -> int {
    let alpha = layered_alpha(over_alpha, under_alpha);
    if alpha == 0 {
        0
    } else {
        (over * over_alpha + under * under_alpha * (255 - over_alpha) / 255) / alpha % 256
    }
}

/// The number of whole pixels in both of two images.
pub open spec fn common_pixels(a: int, b: int) -> int {
    if a <= b {
        a / 4
    } else {
        b / 4
    }
}

/// The `k`-th byte of `under` with `over` laid on it.
pub open spec fn composed(under: Seq<u8>, over: Seq<u8>, k: int) -> int {
    if k / 4 >= common_pixels(under.len() as int, over.len() as int) {
        under[k] as int
    } else {
        let p = k / 4 * 4;
        if k % 4 == 3 {
            layered_alpha(over[p + 3], under[p + 3])
        } else {
            layered(over[k], over[p + 3], under[k], under[p + 3])
        }
    }
}

fn layer_byte(over: u8, over_alpha: u8, under: u8, under_alpha: u8, alpha: u32) -> (result: u8)
    requires
        alpha == layered_alpha(over_alpha, under_alpha),
    ensures
        result == layered(over, over_alpha, under, under_alpha),
{
    if alpha == 0 {
        return 0;
    }
    let inverse: u32 = 255 - over_alpha as u32;
    assert(0 <= over * over_alpha <= 255 * 255) by (nonlinear_arith)
        requires
            0 <= over <= 255,
            0 <= over_alpha <= 255,
    ;
    assert(0 <= under * under_alpha <= 255 * 255) by (nonlinear_arith)
        requires
            0 <= under <= 255,
            0 <= under_alpha <= 255,
    ;
    assert(0 <= under * under_alpha * inverse <= 255 * 255 * 255) by (nonlinear_arith)
        requires
            0 <= under * under_alpha <= 255 * 255,
            0 <= inverse <= 255,
    ;
    let sum: u32 = over as u32 * over_alpha as u32 + under as u32 * under_alpha as u32 * inverse
        / 255;
    (sum / alpha % 256) as u8
}

/// Lays an image on another.
pub fn composite_rgba(target: &mut Vec<u8>, source: &Vec<u8>)
    ensures
        final(target)@.len() == old(target)@.len(),
        forall|k: int|
            0 <= k < final(target)@.len() ==> #[trigger] final(target)@[k] == composed(
                old(target)@,
                source@,
                k,
            ),
{
    let length: usize = if target.len() <= source.len() {
        target.len()
    } else {
        source.len()
    };
    let ghost under = target@;
    let mut at: usize = 0;
    while at < length && 4 <= length - at
        invariant
            target@.len() == under.len(),
            length <= under.len(),
            length <= source@.len(),
            length == under.len() || length == source@.len(),
            at % 4 == 0,
            at <= length,
            forall|k: int|
                0 <= k < at ==> #[trigger] target@[k] == composed(under, source@, k),
            forall|k: int| at <= k < target@.len() ==> #[trigger] target@[k] == under[k],
        decreases length - at,
    {
        let over_alpha: u8 = source[at + 3];
        let under_alpha: u8 = target[at + 3];
        assert(0 <= under_alpha * (255 - over_alpha) <= 255 * (255 - over_alpha))
            by (nonlinear_arith)
            requires
                0 <= under_alpha <= 255,
                0 <= over_alpha <= 255,
        ;
        let alpha: u32 = over_alpha as u32 + under_alpha as u32 * (255 - over_alpha as u32) / 255;
        let red: u8 = layer_byte(source[at], over_alpha, target[at], under_alpha, alpha);
        let green: u8 = layer_byte(
            source[at + 1],
            over_alpha,
            target[at + 1],
            under_alpha,
            alpha,
        );
        let blue: u8 = layer_byte(source[at + 2], over_alpha, target[at + 2], under_alpha, alpha);
        target.set(at, red);
        target.set(at + 1, green);
        target.set(at + 2, blue);
        target.set(at + 3, alpha as u8);
        assert(common_pixels(under.len() as int, source@.len() as int) > at as int / 4);
        at += 4;
    }
    assert(common_pixels(under.len() as int, source@.len() as int) * 4 <= at);
}

/// An opaque pixel hides what is under it.
pub proof fn lemma_opaque_layer_hides(under: Seq<u8>, over: Seq<u8>, k: int)
    requires
        0 <= k < under.len(),
        k / 4 < common_pixels(under.len() as int, over.len() as int),
        over[k / 4 * 4 + 3] == 255,
    ensures
        composed(under, over, k) == over[k],
{
    let p = k / 4 * 4;
    assert(under[p + 3] * (255 - 255) == 0) by (nonlinear_arith);
    assert(under[k] * under[p + 3] * (255 - 255) == 0) by (nonlinear_arith);
    assert(over[k] * 255 / 255 == over[k]);
}

/// What a tint source of an item says for an ordinary item.
pub open spec fn default_tint(tree: JsonTree) -> u32 {
    let raw = match tint_value(tree) {
        Some(value) => value as int,
        None => -1,
    };
    match tree.member_text("type"@) {
        Some(kind) => if kind == "minecraft:constant"@ || kind == "minecraft:potion"@ || kind
            == "minecraft:map_color"@ || kind == "minecraft:dye"@ {
            (raw % 0x100_0000) as u32
        } else if kind == "minecraft:grass"@ {
            0x7cbd6b
        } else {
            0xffffff
        },
        None => 0xffffff,
    }
}

/// The number that a tint source gives, or its default.
pub open spec fn tint_value(tree: JsonTree) -> Option<i64> {
    match tree.member("value"@) {
        Some(value) => signed_value(value),
        None => match tree.member("default"@) {
            Some(value) => signed_value(value),
            None => None,
        },
    }
}

pub open spec fn signed_value(tree: JsonTree) -> Option<i64> {
    match tree {
        JsonTree::Number(number) => number.signed,
        _ => None,
    }
}

fn as_signed(value: &Json) -> (number: Option<i64>)
    ensures
        number == signed_value(value@),
{
    match value {
        Json::Number(number) => number.signed,
        _ => None,
    }
}

fn low_color(raw: i64) -> (color: u32)
    ensures
        color == raw as int % 0x100_0000,
{
    let rest: i64 = if raw >= 0 {
        raw % 0x100_0000
    } else {
        let back: i64 = -(raw + 1);
        0xff_ffff - back % 0x100_0000
    };
    rest as u32
}

/// The colour of a tint source for an ordinary item.
pub fn default_item_tint(value: &Json) -> (color: u32)
    ensures
        color == default_tint(value@),
{
    let number: Option<i64> = match value.get("value") {
        Some(value) => as_signed(value),
        None => match value.get("default") {
            Some(value) => as_signed(value),
            None => None,
        },
    };
    let raw: i64 = match number {
        Some(number) => number,
        None => -1,
    };
    match value.get_text("type") {
        Some(kind) => if same_text(kind, "minecraft:constant") || same_text(
            kind,
            "minecraft:potion",
        ) || same_text(kind, "minecraft:map_color") || same_text(kind, "minecraft:dye") {
            low_color(raw)
        } else if same_text(kind, "minecraft:grass") {
            0x7cbd6b
        } else {
            0xffffff
        },
        None => 0xffffff,
    }
}

/// A transparent pixel leaves what is under it, unless that is transparent too.
pub proof fn lemma_clear_layer_keeps(under: Seq<u8>, over: Seq<u8>, k: int)
    requires
        0 <= k < under.len(),
        k / 4 < common_pixels(under.len() as int, over.len() as int),
        over[k / 4 * 4 + 3] == 0,
        under[k / 4 * 4 + 3] > 0,
    ensures
        composed(under, over, k) == under[k],
{
    let p = k / 4 * 4;
    let alpha = under[p + 3] as int;
    let value = under[k] as int;
    assert(over[k] * 0 == 0) by (nonlinear_arith);
    assert(value * alpha * 255 / 255 == value * alpha);
    assert((value * alpha) / alpha == value) by (nonlinear_arith)
        requires
            alpha > 0,
    ;
}

/// A pixel of an icon shows the texel that lies under it when the texture is stretched
/// over the icon: along each axis, the pixel begins within that texel.
pub proof fn lemma_pixels_show_what_lies_under_them(
    width: int,
    height: int,
    icon_size: int,
    x: int,
    y: int,
    sx: int,
    sy: int,
)
    requires
        0 < width,
        0 < height,
        0 <= x < icon_size,
        0 <= y < icon_size,
        sx * icon_size <= x * width < (sx + 1) * icon_size,
        sy * icon_size <= y * height < (sy + 1) * icon_size,
    ensures
        sample_offset(width, height, icon_size, y * icon_size + x) == 4 * (sy * width + sx),
{
    lemma_place_in_rows(x, y, icon_size);
    lemma_quotient_is(x * width, icon_size, sx);
    lemma_quotient_is(y * height, icon_size, sy);
}

proof fn lemma_place_in_rows(x: int, y: int, size: int)
    requires
        0 <= x < size,
        0 <= y,
    ensures
        (y * size + x) / size == y,
        (y * size + x) % size == x,
{
    lemma_fundamental_div_mod_converse(y * size + x, size, y, x);
}

proof fn lemma_quotient_is(a: int, n: int, q: int)
    requires
        0 < n,
        q * n <= a < (q + 1) * n,
    ensures
        a / n == q,
{
    assert((q + 1) * n == q * n + n) by (nonlinear_arith);
    lemma_fundamental_div_mod_converse(a, n, q, a - q * n);
}

/// A texture of the size of the icon is the icon, byte by byte, where it has no tint.
pub proof fn lemma_icon_of_its_own_size_is_the_texture(source: Seq<u8>, size: int, k: int)
    requires
        0 < size,
        source.len() == size * size * 4,
        0 <= k < source.len(),
    ensures
        sampled(source, size, size, size, None, k) == source[k],
{
    let p = k / 4;
    let (x, y) = (p % size, p / size);
    assert(p < size * size) by (nonlinear_arith)
        requires
            p == k / 4,
            k < size * size * 4,
    ;
    vstd::arithmetic::div_mod::lemma_fundamental_div_mod(p, size);
    vstd::arithmetic::div_mod::lemma_mod_bound(p, size);
    vstd::arithmetic::mul::lemma_mul_is_commutative(size, y);
    lemma_quotient_below(p, size, size);
    vstd::arithmetic::mul::lemma_mul_is_distributive_add_other_way(size, x, 1);
    vstd::arithmetic::mul::lemma_mul_is_distributive_add_other_way(size, y, 1);
    lemma_pixels_show_what_lies_under_them(size, size, size, x, y, x, y);
    assert(sample_offset(size, size, size, p) == 4 * p);
}

/// A tint multiplies the colours of a texel, each by its own channel of the tint, as a
/// share of full brightness; alpha is kept. White keeps a texel, and black leaves none
/// of its colours.
pub proof fn lemma_tints_scale_their_channels(value: u8, r: int, g: int, b: int)
    requires
        0 <= r < 256,
        0 <= g < 256,
        0 <= b < 256,
    ensures
        ({
            let tint = Some((0x1_0000 * r + 0x100 * g + b) as u32);
            &&& 255 * tinted(value, tint, 0) <= value * r < 255 * tinted(value, tint, 0) + 255
            &&& 255 * tinted(value, tint, 1) <= value * g < 255 * tinted(value, tint, 1) + 255
            &&& 255 * tinted(value, tint, 2) <= value * b < 255 * tinted(value, tint, 2) + 255
            &&& tinted(value, tint, 3) == value
        }),
        forall|c: int| 0 <= c < 4 ==> #[trigger] tinted(value, Some(0xff_ffff), c) == value,
        forall|c: int| 0 <= c < 3 ==> #[trigger] tinted(value, Some(0), c) == 0,
        forall|c: int| 0 <= c < 4 ==> #[trigger] tinted(value, None, c) == value,
{
    let t = 0x1_0000 * r + 0x100 * g + b;
    assert(t / 0x1_0000 == r);
    assert(t / 0x100 == r * 256 + g);
    let tint = t as u32;
    assert(tint_component(tint, 0) == r && tint_component(tint, 1) == g && tint_component(tint, 2)
        == b);
    assert(value * 255 / 255 == value);
    assert(value * 0 == 0);
}

/// An icon is blank where its texture has no texel.
pub proof fn lemma_missing_texels_are_blank(
    width: int,
    height: int,
    icon_size: int,
    tint: Option<u32>,
    k: int,
)
    requires
        0 < width,
        0 < height,
        0 < icon_size,
        0 <= k < icon_size * icon_size * 4,
    ensures
        sampled(Seq::empty(), width, height, icon_size, tint, k) == 0,
{
    let p = k / 4;
    assert(p < icon_size * icon_size) by (nonlinear_arith)
        requires
            p == k / 4,
            k < icon_size * icon_size * 4,
    ;
    lemma_quotient_below(p, icon_size, icon_size);
    vstd::arithmetic::div_mod::lemma_mod_bound(p, icon_size);
    lemma_sample_bounds(width, height, icon_size, p % icon_size, p / icon_size);
}

/// A layer over an opaque pixel mixes the two: the layer's share is its alpha, the rest
/// is what is under it, and the pixel stays opaque. What no layer covers is kept.
pub proof fn lemma_layers_mix_by_alpha(under: Seq<u8>, over: Seq<u8>, k: int)
    requires
        0 <= k < under.len(),
    ensures
        k / 4 >= over.len() / 4 || k / 4 >= under.len() / 4 ==> composed(under, over, k)
            == under[k],
        (k / 4 < over.len() / 4 && k / 4 < under.len() / 4 && under[k / 4 * 4 + 3] == 255) ==> {
            let alpha = over[k / 4 * 4 + 3];
            let mixed = over[k] * alpha + under[k] * (255 - alpha);
            &&& k % 4 == 3 ==> composed(under, over, k) == 255
            &&& k % 4 != 3 ==> 255 * composed(under, over, k) <= mixed < 255 * composed(
                under,
                over,
                k,
            ) + 255
        },
{
    if k / 4 < over.len() / 4 && k / 4 < under.len() / 4 && under[k / 4 * 4 + 3] == 255 {
        let alpha = over[k / 4 * 4 + 3] as int;
        let (o, u) = (over[k] as int, under[k] as int);
        assert(255 * (255 - alpha) / 255 == 255 - alpha);
        assert(u * 255 * (255 - alpha) == 255 * (u * (255 - alpha))) by (nonlinear_arith);
        assert(255 * (u * (255 - alpha)) / 255 == u * (255 - alpha)) by (nonlinear_arith);
        let mixed = o * alpha + u * (255 - alpha);
        assert(0 <= mixed <= 255 * 255) by (nonlinear_arith)
            requires
                mixed == o * alpha + u * (255 - alpha),
                0 <= o <= 255,
                0 <= u <= 255,
                0 <= alpha <= 255,
        ;
        assert(mixed / 255 % 256 == mixed / 255);
    }
}

/// Two clear pixels stay clear, and otherwise a layer never takes alpha away.
pub proof fn lemma_layers_add_alpha(over: u8, under: u8)
    ensures
        layered_alpha(0, 0) == 0,
        layered_alpha(over, under) >= over,
        layered_alpha(over, under) >= under || over > 0,
        layered_alpha(over, 0) == over,
        layered_alpha(0, under) == under,
        layered_alpha(over, 255) == 255,
        layered_alpha(255, under) == 255,
        0 <= layered_alpha(over, under) <= 255,
{
    assert(0 <= under * (255 - over) <= 255 * (255 - over)) by (nonlinear_arith)
        requires
            0 <= under <= 255,
            0 <= over <= 255,
    ;
    assert(0 * (255 - over) == 0 && under * 0 == 0) by (nonlinear_arith);
    assert(255 * (255 - over) / 255 == 255 - over);
    assert(under * 255 / 255 == under);
}

/// A constant colour, and what potions, maps and dyes have by default, is the colour
/// that is written down, with or without an alpha above it; a value comes before a
/// default. Grass has its own colour and everything else is white.
pub proof fn lemma_default_tints_are_what_is_written(
    tree: JsonTree,
    kind: Seq<char>,
    color: int,
    alpha: int,
)
    requires
        tree.member_text("type"@) == Some(kind),
        0 <= color < 0x100_0000,
        -128 <= alpha < 128,
    ensures
        ({
            let written = tint_value(tree) == Some((alpha * 0x100_0000 + color) as i64);
            let plain = kind == "minecraft:constant"@ || kind == "minecraft:potion"@ || kind
                == "minecraft:map_color"@ || kind == "minecraft:dye"@;
            &&& plain && written ==> default_tint(tree) == color
            &&& plain && tint_value(tree) is None ==> default_tint(tree) == 0xff_ffff
            &&& !plain && kind != "minecraft:grass"@ ==> default_tint(tree) == 0xff_ffff
            &&& !plain && kind == "minecraft:grass"@ ==> default_tint(tree) == 0x7cbd6b
        }),
        (tree.member("value"@) matches Some(JsonTree::Number(number)) ==> tint_value(tree)
            == number.signed),
        tree.member("value"@) is None ==> (tree.member("default"@) matches Some(
            JsonTree::Number(number),
        ) ==> tint_value(tree) == number.signed),
{
    assert((alpha * 0x100_0000 + color) % 0x100_0000 == color);
}

/// A size is at least one pixel.
pub proof fn lemma_sizes_are_at_least_one(size: u32)
    ensures
        at_least_one(size) >= 1,
        size >= 1 ==> at_least_one(size) == size,
        at_least_one(0) == 1,
{
}

} // verus!
