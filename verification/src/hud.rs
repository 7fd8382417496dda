//! Placement of the crosshair on the screen.

use vstd::prelude::*;

verus! {

pub const VANILLA_CROSSHAIR_LOGICAL_SIZE: u32 = 15;

/// Draws the sprite over the placement rectangle, leaving out transparent
/// texels.
pub const CROSSHAIR_SHADER: &'static str = "
struct Placement {
    viewport: vec2<f32>,
    origin: vec2<f32>,
    size: vec2<f32>,
    padding: vec2<f32>,
};

@group(0) @binding(0) var<uniform> placement: Placement;
@group(0) @binding(1) var sprite: texture_2d<f32>;
@group(0) @binding(2) var sprite_sampler: sampler;

struct VertexOutput {
    @builtin(position) position: vec4<f32>,
    @location(0) uv: vec2<f32>,
};

@vertex
fn vs_main(@builtin(vertex_index) index: u32) -> VertexOutput {
    var corners = array<vec2<f32>, 6>(
        vec2<f32>(0.0, 0.0),
        vec2<f32>(0.0, 1.0),
        vec2<f32>(1.0, 1.0),
        vec2<f32>(0.0, 0.0),
        vec2<f32>(1.0, 1.0),
        vec2<f32>(1.0, 0.0),
    );
    let corner = corners[index];
    let pixel = placement.origin + placement.size * corner;
    let clip = pixel / placement.viewport * vec2<f32>(2.0, -2.0) + vec2<f32>(-1.0, 1.0);
    var output: VertexOutput;
    output.position = vec4<f32>(clip, 0.0, 1.0);
    output.uv = corner;
    return output;
}

@fragment
fn fs_main(input: VertexOutput) -> @location(0) vec4<f32> {
    let colour = textureSample(sprite, sprite_sampler, input.uv);
    if colour.a == 0.0 {
        discard;
    }
    return colour;
}
";

pub open spec fn smaller(a: int, b: int) -> int {
    if a <= b {
        a
    } else {
        b
    }
}

/// The largest scale at which the screen still holds 320 by 240 logical pixels,
/// and at least one.
pub open spec fn largest_gui_scale(width: int, height: int) -> int {
    let fitting = smaller(width / 320, height / 240);
    if fitting < 1 {
        1
    } else {
        fitting
    }
}

proof fn lemma_quotient_at_least(value: int, divisor: int, least: int)
    requires
        divisor > 0,
        least > 0,
    ensures
        (value / divisor >= least) == (value / least >= divisor),
{
    assert((value / divisor >= least) == (value >= least * divisor)) by (nonlinear_arith)
        requires
            divisor > 0,
    ;
    assert((value / least >= divisor) == (value >= least * divisor)) by (nonlinear_arith)
        requires
            least > 0,
    ;
}

pub fn automatic_gui_scale(width: u32, height: u32) -> (scale: u32)
    ensures
        scale == largest_gui_scale(width as int, height as int),
{
    let mut scale: u32 = 1;
    proof {
        lemma_quotient_at_least(width as int, 2, 320);
        lemma_quotient_at_least(height as int, 2, 240);
    }
    while width / (scale + 1) >= 320 && height / (scale + 1) >= 240
        invariant
            1 <= scale <= 0xff_ffff,
            scale == 1 || (scale <= width as int / 320 && scale <= height as int / 240),
            (width as int / (scale + 1) >= 320) == (width as int / 320 >= scale + 1),
            (height as int / (scale + 1) >= 240) == (height as int / 240 >= scale + 1),
        decreases width - scale,
    {
        scale += 1;
        proof {
            lemma_quotient_at_least(width as int, scale + 1, 320);
            lemma_quotient_at_least(height as int, scale + 1, 240);
        }
    }
    scale
}

/// Where the crosshair is drawn, in physical pixels.
#[derive(Clone, Copy, Debug, PartialEq, Eq, Structural)]
pub struct CrosshairPlacement {
    pub gui_scale: u32,
    pub gui_width: u32,
    pub gui_height: u32,
    pub origin_x: u32,
    pub origin_y: u32,
    pub size: u32,
}

/// The quotient, rounded up.
pub open spec fn ceiling(value: int, divisor: int) -> int {
    (value + divisor - 1) / divisor
}

/// The logical coordinate at which a crosshair is centred in `extent` logical
/// pixels.
pub open spec fn centered(extent: int) -> int {
    if extent < VANILLA_CROSSHAIR_LOGICAL_SIZE {
        0
    } else {
        (extent - VANILLA_CROSSHAIR_LOGICAL_SIZE) / 2
    }
}

fn ceiling_quotient(value: u32, divisor: u32) -> (quotient: u32)
    requires
        divisor > 0,
    ensures
        quotient == ceiling(value as int, divisor as int),
        quotient * divisor < value + divisor,
{
    let whole: u32 = value / divisor;
    proof {
        let v = value as int;
        let d = divisor as int;
        vstd::arithmetic::div_mod::lemma_fundamental_div_mod(v, d);
        let r = v % d;
        let q = v / d;
        assert(d * q == q * d) by (nonlinear_arith);
        if r == 0 {
            vstd::arithmetic::div_mod::lemma_fundamental_div_mod_converse(v + d - 1, d, q, d - 1);
        } else {
            assert((q + 1) * d == q * d + d) by (nonlinear_arith);
            vstd::arithmetic::div_mod::lemma_fundamental_div_mod_converse(
                v + d - 1,
                d,
                q + 1,
                r - 1,
            );
            assert(q + 1 <= v) by (nonlinear_arith)
                requires
                    v == d * q + r,
                    0 < r < d,
                    q >= 0,
            ;
        }
    }
    if value % divisor == 0 {
        whole
    } else {
        whole + 1
    }
}

/// Where the crosshair is drawn on a screen of so many pixels.
pub open spec fn is_placed(placement: CrosshairPlacement, width: int, height: int) -> bool {
    let scale = largest_gui_scale(width, height);
    &&& placement.gui_scale == scale
    &&& placement.gui_width == ceiling(width, scale)
    &&& placement.gui_height == ceiling(height, scale)
    &&& placement.origin_x == centered(placement.gui_width as int) * scale
    &&& placement.origin_y == centered(placement.gui_height as int) * scale
    &&& placement.size == VANILLA_CROSSHAIR_LOGICAL_SIZE * scale
}

impl CrosshairPlacement {
    pub fn new(width: u32, height: u32) -> (placement: Self)
        ensures
            is_placed(placement, width as int, height as int),
            ({
                let scale = largest_gui_scale(width as int, height as int);
                &&& placement.gui_scale == scale
                &&& placement.gui_width == ceiling(width as int, scale)
                &&& placement.gui_height == ceiling(height as int, scale)
                &&& placement.origin_x == centered(placement.gui_width as int) * scale
                &&& placement.origin_y == centered(placement.gui_height as int) * scale
                &&& placement.size == VANILLA_CROSSHAIR_LOGICAL_SIZE * scale
            }),
    {
        let gui_scale: u32 = automatic_gui_scale(width, height);
        assert(1 <= gui_scale <= 0xff_ffff);
        let gui_width: u32 = ceiling_quotient(width, gui_scale);
        let gui_height: u32 = ceiling_quotient(height, gui_scale);
        let logical_x: u32 = gui_width.saturating_sub(VANILLA_CROSSHAIR_LOGICAL_SIZE) / 2;
        let logical_y: u32 = gui_height.saturating_sub(VANILLA_CROSSHAIR_LOGICAL_SIZE) / 2;
        proof {
            lemma_half_product(logical_x as int, gui_width as int, gui_scale as int);
            lemma_half_product(logical_y as int, gui_height as int, gui_scale as int);
        }
        CrosshairPlacement {
            gui_scale,
            gui_width,
            gui_height,
            origin_x: logical_x * gui_scale,
            origin_y: logical_y * gui_scale,
            size: VANILLA_CROSSHAIR_LOGICAL_SIZE * gui_scale,
        }
    }
}

proof fn lemma_half_product(half: int, whole: int, scale: int)
    requires
        0 <= half,
        2 * half <= whole,
        scale > 0,
        whole * scale < 0xffff_ffff + 1 + scale,
        scale <= 0xff_ffff,
    ensures
        0 <= half * scale <= 0xffff_ffff,
{
    assert(0 <= 2 * (half * scale) <= whole * scale) by (nonlinear_arith)
        requires
            0 <= half,
            2 * half <= whole,
            scale > 0,
    ;
}

/// The crosshair is centred to within one logical pixel: the space on its two
/// sides differs by at most one, wherever the screen is wide enough for it.
pub proof fn lemma_crosshair_is_centered(extent: int)
    requires
        extent >= VANILLA_CROSSHAIR_LOGICAL_SIZE,
    ensures
        ({
            let before = centered(extent);
            let behind = extent - VANILLA_CROSSHAIR_LOGICAL_SIZE - before;
            0 <= behind - before <= 1
        }),
{
}

/// Whether a surface has any pixel.
pub fn has_renderable_area(width: u32, height: u32) -> (yes: bool)
    ensures
        yes == (width > 0 && height > 0),
{
    width > 0 && height > 0
}

/// The scale is the largest at which the screen still has 320 by 240 logical pixels: it
/// has them at that scale, unless it has too few for any, and not at the next.
pub proof fn lemma_scale_is_the_largest_that_fits(width: int, height: int)
    requires
        width >= 0,
        height >= 0,
    ensures
        ({
            let scale = largest_gui_scale(width, height);
            &&& scale >= 1
            &&& scale == 1 || 320 * scale <= width && 240 * scale <= height
            &&& width < 320 * (scale + 1) || height < 240 * (scale + 1)
        }),
{
}

/// The logical screen covers the screen, and would not without its last column or row.
pub proof fn lemma_logical_screen_covers_the_screen(extent: int, scale: int)
    requires
        extent >= 0,
        scale > 0,
    ensures
        ceiling(extent, scale) * scale >= extent,
        (ceiling(extent, scale) - 1) * scale < extent,
{
    let q = ceiling(extent, scale);
    vstd::arithmetic::div_mod::lemma_fundamental_div_mod(extent + scale - 1, scale);
    assert(scale * q == q * scale) by (nonlinear_arith);
    assert((q - 1) * scale == q * scale - scale) by (nonlinear_arith);
}

/// The crosshair is a square of fifteen logical pixels in the middle of the screen: the
/// room on its two sides differs by at most one logical pixel in each direction.
pub proof fn lemma_crosshair_is_in_the_middle(
    placement: CrosshairPlacement,
    width: int,
    height: int,
)
    requires
        is_placed(placement, width, height),
        placement.gui_width >= 15,
        placement.gui_height >= 15,
    ensures
        placement.size == 15 * placement.gui_scale,
        ({
            let scale = placement.gui_scale;
            let right = placement.gui_width * scale - placement.origin_x - placement.size;
            let below = placement.gui_height * scale - placement.origin_y - placement.size;
            &&& 0 <= right - placement.origin_x <= scale
            &&& 0 <= below - placement.origin_y <= scale
        }),
{
    let scale = placement.gui_scale as int;
    lemma_room_on_both_sides(placement.gui_width as int, scale);
    lemma_room_on_both_sides(placement.gui_height as int, scale);
}

proof fn lemma_room_on_both_sides(extent: int, scale: int)
    requires
        extent >= 15,
        scale > 0,
    ensures
        0 <= extent * scale - 15 * scale - 2 * (centered(extent) * scale) <= scale,
{
    let half = centered(extent);
    let rest = extent - 15 - 2 * half;
    assert(rest == 0 || rest == 1);
    assert(extent * scale - 15 * scale - 2 * (half * scale) == rest * scale) by (nonlinear_arith)
        requires
            rest == extent - 15 - 2 * half,
    ;
    assert(0 <= rest * scale <= scale) by (nonlinear_arith)
        requires
            rest == 0 || rest == 1,
            scale > 0,
    ;
}

} // verus!
