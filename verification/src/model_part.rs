//! Models of parts: cubes that hang together, each part posed on its parent.
//!
//! Lengths are in millionths of a model unit, of which a block has sixteen, and
//! places on a texture in millionths of a texel.

use vstd::arithmetic::power2::{lemma2_to64, pow2};
use vstd::prelude::*;

verus! {

/// All six sides.
pub const ALL_FACES: u8 = 0b11_1111;

#[derive(Clone, Copy, Debug, PartialEq, Eq, Structural)]
pub enum PartDirection {
    Down,
    Up,
    North,
    South,
    West,
    East,
}

impl PartDirection {
    /// The place of the side among the bits of a set of sides.
    pub open spec fn place(self) -> int {
        match self {
            PartDirection::Down => 0,
            PartDirection::Up => 1,
            PartDirection::North => 2,
            PartDirection::South => 3,
            PartDirection::West => 4,
            PartDirection::East => 5,
        }
    }

    /// The set of this side alone.
    pub fn bit(self) -> (bit: u8)
        ensures
            bit == pow2(self.place() as nat),
    {
        proof {
            lemma2_to64();
        }
        match self {
            PartDirection::Down => 1,
            PartDirection::Up => 2,
            PartDirection::North => 4,
            PartDirection::South => 8,
            PartDirection::West => 16,
            PartDirection::East => 32,
        }
    }

    /// Whether a set of sides holds this one.
    pub open spec fn within(self, faces: u8) -> bool {
        faces as int / pow2(self.place() as nat) as int % 2 == 1
    }

    pub fn is_in(self, faces: u8) -> (yes: bool)
        ensures
            yes == self.within(faces),
    {
        let bit: u8 = self.bit();
        proof {
            lemma2_to64();
        }
        faces / bit % 2 == 1
    }

    /// The step out of the side.
    pub open spec fn step(self) -> (i32, i32, i32) {
        match self {
            PartDirection::Down => (0, -1i32, 0),
            PartDirection::Up => (0, 1, 0),
            PartDirection::North => (0, 0, -1i32),
            PartDirection::South => (0, 0, 1),
            PartDirection::West => (-1i32, 0, 0),
            PartDirection::East => (1, 0, 0),
        }
    }

    pub fn normal(self) -> (normal: (i32, i32, i32))
        ensures
            normal == self.step(),
    {
        match self {
            PartDirection::Down => (0, -1, 0),
            PartDirection::Up => (0, 1, 0),
            PartDirection::North => (0, 0, -1),
            PartDirection::South => (0, 0, 1),
            PartDirection::West => (-1, 0, 0),
            PartDirection::East => (1, 0, 0),
        }
    }
}

/// How a part stands on its parent. It turns about each axis by ten-thousandths of
/// a radian and by twelfths of half a turn; its scale is in millionths.
#[derive(Clone, Copy, Debug, PartialEq, Eq)]
pub struct PartPose {
    pub translation: [i32; 3],
    pub radians: [i32; 3],
    pub twelfths: [i32; 3],
    pub scale: [i32; 3],
}

/// A part hangs on a part that is listed before it; one that names no such part
/// hangs on nothing.
#[derive(Clone, Copy, Debug, PartialEq, Eq)]
pub struct PartDefinition {
    pub name: &'static str,
    pub parent: usize,
    pub pose: PartPose,
    pub visible: bool,
}

/// A cube of a part. Its sides lie on the texture as an unfolded box does, from
/// the offset on. The deformation moves each side out.
#[derive(Clone, Copy, Debug, PartialEq, Eq)]
pub struct CubeDefinition {
    pub part: usize,
    pub origin: [i32; 3],
    pub size: [i32; 3],
    pub texture_offset: [i32; 2],
    pub texture_size: [i32; 2],
    pub deformation: i32,
    pub mirror: bool,
    pub visible_faces: u8,
}

/// Parts, each after the part that it hangs on and next to its other children, and
/// their cubes.
#[derive(Clone, Debug)]
pub struct ModelPartDefinition {
    pub parts: Vec<PartDefinition>,
    pub cubes: Vec<CubeDefinition>,
}

/// A corner of a side of a cube, before the poses of its part, and its place on the
/// texture.
#[derive(Clone, Copy, Debug, PartialEq, Eq, Structural)]
pub struct PartCorner {
    pub x: i64,
    pub y: i64,
    pub z: i64,
    pub u: i64,
    pub v: i64,
}

/// A side of a cube. The poses are those of the parts that it hangs on, the
/// outermost first.
#[derive(Debug)]
pub struct ModelPartQuad {
    pub part: &'static str,
    pub direction: PartDirection,
    pub normal: PartDirection,
    pub corners: (PartCorner, PartCorner, PartCorner, PartCorner),
    pub texture_size: [i32; 2],
    pub poses: Vec<PartPose>,
    pub determinant_negative: bool,
}

pub struct QuadModel {
    pub part: Seq<char>,
    pub direction: PartDirection,
    pub normal: PartDirection,
    pub corners: (PartCorner, PartCorner, PartCorner, PartCorner),
    pub texture_size: [i32; 2],
    pub poses: Seq<PartPose>,
    pub determinant_negative: bool,
}

impl View for ModelPartQuad {
    type V = QuadModel;

    open spec fn view(&self) -> QuadModel {
        QuadModel {
            part: self.part@,
            direction: self.direction,
            normal: self.normal,
            corners: self.corners,
            texture_size: self.texture_size,
            poses: self.poses@,
            determinant_negative: self.determinant_negative,
        }
    }
}

pub open spec fn quad_models(quads: Seq<ModelPartQuad>) -> Seq<QuadModel> {
    Seq::new(quads.len(), |i: int| quads[i]@)
}

pub open spec fn magnitude(value: int) -> int {
    if value < 0 {
        -value
    } else {
        value
    }
}

fn absolute(value: i32) -> (positive: i64)
    ensures
        positive == magnitude(value as int),
{
    if value < 0 {
        -(value as i64)
    } else {
        value as i64
    }
}

/// The sides in the order in which they are drawn.
pub open spec fn side_at(place: int) -> PartDirection {
    if place == 0 {
        PartDirection::Down
    } else if place == 1 {
        PartDirection::Up
    } else if place == 2 {
        PartDirection::West
    } else if place == 3 {
        PartDirection::North
    } else if place == 4 {
        PartDirection::East
    } else {
        PartDirection::South
    }
}

fn drawn_side(place: usize) -> (side: PartDirection)
    ensures
        side == side_at(place as int),
{
    if place == 0 {
        PartDirection::Down
    } else if place == 1 {
        PartDirection::Up
    } else if place == 2 {
        PartDirection::West
    } else if place == 3 {
        PartDirection::North
    } else if place == 4 {
        PartDirection::East
    } else {
        PartDirection::South
    }
}

/// Where the box of a cube ends along an axis, at the far or at the near end.
pub open spec fn cube_end(cube: CubeDefinition, axis: int, far: bool) -> int {
    if far {
        cube.origin@[axis] + cube.size@[axis] + cube.deformation
    } else {
        cube.origin@[axis] - cube.deformation
    }
}

/// A corner of a cube, with a place on the texture. A mirrored cube has its ends
/// along the x axis exchanged.
pub open spec fn cube_corner(
    cube: CubeDefinition,
    far: (bool, bool, bool),
    place: (int, int),
) -> PartCorner {
    PartCorner {
        x: cube_end(cube, 0, far.0 != cube.mirror) as i64,
        y: cube_end(cube, 1, far.1) as i64,
        z: cube_end(cube, 2, far.2) as i64,
        u: place.0 as i64,
        v: place.1 as i64,
    }
}

/// The rectangle of a side on the texture: the left and upper edges, then the right
/// and lower ones. The side up has its upper and lower edges exchanged.
pub open spec fn net_rectangle(cube: CubeDefinition, side: PartDirection) -> (int, int, int, int) {
    let width = magnitude(cube.size@[0] as int);
    let height = magnitude(cube.size@[1] as int);
    let depth = magnitude(cube.size@[2] as int);
    let u = cube.texture_offset@[0] as int;
    let v = cube.texture_offset@[1] as int;
    match side {
        PartDirection::Down => (u + depth, v, u + depth + width, v + depth),
        PartDirection::Up => (u + depth + width, v + depth, u + depth + 2 * width, v),
        PartDirection::West => (u, v + depth, u + depth, v + depth + height),
        PartDirection::North => (u + depth, v + depth, u + depth + width, v + depth + height),
        PartDirection::East => (
            u + depth + width,
            v + depth,
            u + 2 * depth + width,
            v + depth + height,
        ),
        PartDirection::South => (
            u + 2 * depth + width,
            v + depth,
            u + 2 * depth + 2 * width,
            v + depth + height,
        ),
    }
}

/// The corners of a side, in the order in which its polygon names them.
pub open spec fn side_corners(side: PartDirection) -> (
    (bool, bool, bool),
    (bool, bool, bool),
    (bool, bool, bool),
    (bool, bool, bool),
) {
    match side {
        PartDirection::Down => (
            (true, false, true),
            (false, false, true),
            (false, false, false),
            (true, false, false),
        ),
        PartDirection::Up => (
            (true, true, false),
            (false, true, false),
            (false, true, true),
            (true, true, true),
        ),
        PartDirection::West => (
            (false, false, false),
            (false, false, true),
            (false, true, true),
            (false, true, false),
        ),
        PartDirection::North => (
            (true, false, false),
            (false, false, false),
            (false, true, false),
            (true, true, false),
        ),
        PartDirection::East => (
            (true, false, true),
            (true, false, false),
            (true, true, false),
            (true, true, true),
        ),
        PartDirection::South => (
            (false, false, true),
            (true, false, true),
            (true, true, true),
            (false, true, true),
        ),
    }
}

/// A side of a cube before anything turns it round: the first two corners on the
/// upper edge of the rectangle, from right to left, the others on the lower edge.
pub open spec fn side_polygon(cube: CubeDefinition, side: PartDirection) -> (
    PartCorner,
    PartCorner,
    PartCorner,
    PartCorner,
) {
    let net = net_rectangle(cube, side);
    let corners = side_corners(side);
    (
        cube_corner(cube, corners.0, (net.2, net.1)),
        cube_corner(cube, corners.1, (net.0, net.1)),
        cube_corner(cube, corners.2, (net.0, net.3)),
        cube_corner(cube, corners.3, (net.2, net.3)),
    )
}

/// A sign after a scale along one axis.
pub open spec fn scaled_sign(sign: int, scale: i32) -> int {
    if scale < 0 {
        -sign
    } else if scale == 0 {
        0
    } else {
        sign
    }
}

/// The sign of the determinant of the first poses: a turn keeps it.
pub open spec fn orientation(poses: Seq<PartPose>, count: int) -> int
    decreases count,
{
    if count <= 0 {
        1
    } else {
        let scale = poses[count - 1].scale;
        scaled_sign(
            scaled_sign(scaled_sign(orientation(poses, count - 1), scale@[0]), scale@[1]),
            scale@[2],
        )
    }
}

/// Whether poses turn what they hold inside out.
pub open spec fn reflects(poses: Seq<PartPose>) -> bool {
    orientation(poses, poses.len() as int) < 0
}

/// The side that a side of a mirrored cube faces.
pub open spec fn mirrored_side(side: PartDirection) -> PartDirection {
    match side {
        PartDirection::West => PartDirection::East,
        PartDirection::East => PartDirection::West,
        _ => side,
    }
}

/// A side of a cube: a mirrored cube has its corners in the other order, and where
/// the poses reflect, the second and the fourth corner are exchanged.
pub open spec fn cube_quad(
    cube: CubeDefinition,
    side: PartDirection,
    part: Seq<char>,
    poses: Seq<PartPose>,
) -> QuadModel {
    let polygon = side_polygon(cube, side);
    let drawn = if cube.mirror {
        (polygon.3, polygon.2, polygon.1, polygon.0)
    } else {
        polygon
    };
    QuadModel {
        part,
        direction: side,
        normal: if cube.mirror {
            mirrored_side(side)
        } else {
            side
        },
        corners: if reflects(poses) {
            (drawn.0, drawn.3, drawn.2, drawn.1)
        } else {
            drawn
        },
        texture_size: cube.texture_size,
        poses,
        determinant_negative: reflects(poses),
    }
}

/// The sides that a cube shows, of the first ones.
pub open spec fn cube_quads(
    cube: CubeDefinition,
    part: Seq<char>,
    poses: Seq<PartPose>,
    count: int,
) -> Seq<QuadModel>
    decreases count,
{
    if count <= 0 {
        Seq::empty()
    } else {
        let before = cube_quads(cube, part, poses, count - 1);
        let side = side_at(count - 1);
        if side.within(cube.visible_faces) {
            before.push(cube_quad(cube, side, part, poses))
        } else {
            before
        }
    }
}

/// The poses of a part, after those of the part that it hangs on.
pub open spec fn poses_of(parts: Seq<PartDefinition>, place: int) -> Seq<PartPose>
    decreases place,
{
    let part = parts[place];
    if 0 <= part.parent < place {
        poses_of(parts, part.parent as int).push(part.pose)
    } else {
        seq![part.pose]
    }
}

/// Whether a part is shown: neither it nor a part that it hangs on is hidden.
pub open spec fn is_shown(parts: Seq<PartDefinition>, place: int) -> bool
    decreases place,
{
    let part = parts[place];
    part.visible && (0 <= part.parent < place ==> is_shown(parts, part.parent as int))
}

/// The sides of the cubes of a part, of the first cubes.
pub open spec fn part_quads(model: ModelPartDefinition, place: int, count: int) -> Seq<QuadModel>
    decreases count,
{
    if count <= 0 {
        Seq::empty()
    } else {
        let before = part_quads(model, place, count - 1);
        let cube = model.cubes@[count - 1];
        if cube.part == place {
            before + cube_quads(
                cube,
                model.parts@[place].name@,
                poses_of(model.parts@, place),
                6,
            )
        } else {
            before
        }
    }
}

/// The sides of the first parts.
pub open spec fn baked(model: ModelPartDefinition, count: int) -> Seq<QuadModel>
    decreases count,
{
    if count <= 0 {
        Seq::empty()
    } else {
        let before = baked(model, count - 1);
        if is_shown(model.parts@, count - 1) {
            before + part_quads(model, count - 1, model.cubes@.len() as int)
        } else {
            before
        }
    }
}

fn end_of(cube: &CubeDefinition, axis: usize, far: bool) -> (end: i64)
    requires
        axis < 3,
    ensures
        end == cube_end(*cube, axis as int, far),
        -0x2_0000_0000 <= end <= 0x2_0000_0000,
{
    if far {
        cube.origin[axis] as i64 + cube.size[axis] as i64 + cube.deformation as i64
    } else {
        cube.origin[axis] as i64 - cube.deformation as i64
    }
}

fn corner_of(cube: &CubeDefinition, far: (bool, bool, bool), u: i64, v: i64) -> (corner: PartCorner)
    ensures
        corner == cube_corner(*cube, far, (u as int, v as int)),
{
    PartCorner {
        x: end_of(cube, 0, far.0 != cube.mirror),
        y: end_of(cube, 1, far.1),
        z: end_of(cube, 2, far.2),
        u,
        v,
    }
}

fn read_rectangle(cube: &CubeDefinition, side: PartDirection) -> (net: (i64, i64, i64, i64))
    ensures
        (net.0 as int, net.1 as int, net.2 as int, net.3 as int) == net_rectangle(*cube, side),
{
    let width: i64 = absolute(cube.size[0]);
    let height: i64 = absolute(cube.size[1]);
    let depth: i64 = absolute(cube.size[2]);
    let u: i64 = cube.texture_offset[0] as i64;
    let v: i64 = cube.texture_offset[1] as i64;
    match side {
        PartDirection::Down => (u + depth, v, u + depth + width, v + depth),
        PartDirection::Up => (u + depth + width, v + depth, u + depth + 2 * width, v),
        PartDirection::West => (u, v + depth, u + depth, v + depth + height),
        PartDirection::North => (u + depth, v + depth, u + depth + width, v + depth + height),
        PartDirection::East => (
            u + depth + width,
            v + depth,
            u + 2 * depth + width,
            v + depth + height,
        ),
        PartDirection::South => (
            u + 2 * depth + width,
            v + depth,
            u + 2 * depth + 2 * width,
            v + depth + height,
        ),
    }
}

fn polygon_of(cube: &CubeDefinition, side: PartDirection) -> (polygon: (
    PartCorner,
    PartCorner,
    PartCorner,
    PartCorner,
))
    ensures
        polygon == side_polygon(*cube, side),
{
    let net: (i64, i64, i64, i64) = read_rectangle(cube, side);
    match side {
        PartDirection::Down => (
            corner_of(cube, (true, false, true), net.2, net.1),
            corner_of(cube, (false, false, true), net.0, net.1),
            corner_of(cube, (false, false, false), net.0, net.3),
            corner_of(cube, (true, false, false), net.2, net.3),
        ),
        PartDirection::Up => (
            corner_of(cube, (true, true, false), net.2, net.1),
            corner_of(cube, (false, true, false), net.0, net.1),
            corner_of(cube, (false, true, true), net.0, net.3),
            corner_of(cube, (true, true, true), net.2, net.3),
        ),
        PartDirection::West => (
            corner_of(cube, (false, false, false), net.2, net.1),
            corner_of(cube, (false, false, true), net.0, net.1),
            corner_of(cube, (false, true, true), net.0, net.3),
            corner_of(cube, (false, true, false), net.2, net.3),
        ),
        PartDirection::North => (
            corner_of(cube, (true, false, false), net.2, net.1),
            corner_of(cube, (false, false, false), net.0, net.1),
            corner_of(cube, (false, true, false), net.0, net.3),
            corner_of(cube, (true, true, false), net.2, net.3),
        ),
        PartDirection::East => (
            corner_of(cube, (true, false, true), net.2, net.1),
            corner_of(cube, (true, false, false), net.0, net.1),
            corner_of(cube, (true, true, false), net.0, net.3),
            corner_of(cube, (true, true, true), net.2, net.3),
        ),
        PartDirection::South => (
            corner_of(cube, (false, false, true), net.2, net.1),
            corner_of(cube, (true, false, true), net.0, net.1),
            corner_of(cube, (true, true, true), net.0, net.3),
            corner_of(cube, (false, true, true), net.2, net.3),
        ),
    }
}

fn after_scale(sign: i32, scale: i32) -> (after: i32)
    requires
        -1 <= sign <= 1,
    ensures
        after == scaled_sign(sign as int, scale),
        -1 <= after <= 1,
{
    if scale < 0 {
        -sign
    } else if scale == 0 {
        0
    } else {
        sign
    }
}

/// Whether poses turn what they hold inside out.
fn turns_inside_out(poses: &Vec<PartPose>) -> (yes: bool)
    ensures
        yes == reflects(poses@),
{
    let mut sign: i32 = 1;
    let mut i: usize = 0;
    while i < poses.len()
        invariant
            i <= poses@.len(),
            sign == orientation(poses@, i as int),
            -1 <= sign <= 1,
        decreases poses@.len() - i,
    {
        let scale: [i32; 3] = poses[i].scale;
        sign = after_scale(after_scale(after_scale(sign, scale[0]), scale[1]), scale[2]);
        i += 1;
    }
    sign < 0
}

fn copy_poses(poses: &Vec<PartPose>) -> (copy: Vec<PartPose>)
    ensures
        copy@ == poses@,
{
    let mut copy: Vec<PartPose> = Vec::new();
    let mut i: usize = 0;
    while i < poses.len()
        invariant
            i <= poses@.len(),
            copy@ == poses@.take(i as int),
        decreases poses@.len() - i,
    {
        copy.push(poses[i]);
        i += 1;
    }
    assert(poses@.take(i as int) =~= poses@);
    copy
}

/// Adds the sides that a cube shows.
fn bake_cube(
    cube: &CubeDefinition,
    part: &'static str,
    poses: &Vec<PartPose>,
    output: &mut Vec<ModelPartQuad>,
)
    ensures
        quad_models(final(output)@) == quad_models(old(output)@) + cube_quads(
            *cube,
            part@,
            poses@,
            6,
        ),
{
    let inside_out: bool = turns_inside_out(poses);
    let ghost before = quad_models(output@);
    let mut place: usize = 0;
    assert(quad_models(output@) =~= before + cube_quads(*cube, part@, poses@, 0));
    while place < 6
        invariant
            place <= 6,
            inside_out == reflects(poses@),
            quad_models(output@) == before + cube_quads(*cube, part@, poses@, place as int),
        decreases 6 - place,
    {
        let side: PartDirection = drawn_side(place);
        if side.is_in(cube.visible_faces) {
            let polygon: (PartCorner, PartCorner, PartCorner, PartCorner) = polygon_of(cube, side);
            let drawn: (PartCorner, PartCorner, PartCorner, PartCorner) = if cube.mirror {
                (polygon.3, polygon.2, polygon.1, polygon.0)
            } else {
                polygon
            };
            let normal: PartDirection = match side {
                PartDirection::West => if cube.mirror {
                    PartDirection::East
                } else {
                    side
                },
                PartDirection::East => if cube.mirror {
                    PartDirection::West
                } else {
                    side
                },
                _ => side,
            };
            let quad = ModelPartQuad {
                part,
                direction: side,
                normal,
                corners: if inside_out {
                    (drawn.0, drawn.3, drawn.2, drawn.1)
                } else {
                    drawn
                },
                texture_size: cube.texture_size,
                poses: copy_poses(poses),
                determinant_negative: inside_out,
            };
            let ghost listed = output@;
            assert(quad@ == cube_quad(*cube, side, part@, poses@));
            output.push(quad);
            assert(quad_models(output@) =~= quad_models(listed).push(quad@));
            assert(quad_models(output@) =~= before + cube_quads(
                *cube,
                part@,
                poses@,
                place + 1,
            ));
        }
        place += 1;
    }
}

impl ModelPartDefinition {
    fn read_poses(&self, place: usize) -> (poses: Vec<PartPose>)
        requires
            place < self.parts@.len(),
        ensures
            poses@ == poses_of(self.parts@, place as int),
        decreases place,
    {
        let part: PartDefinition = self.parts[place];
        let mut poses: Vec<PartPose> = if part.parent < place {
            self.read_poses(part.parent)
        } else {
            Vec::new()
        };
        poses.push(part.pose);
        assert(poses@ =~= poses_of(self.parts@, place as int));
        poses
    }

    fn shows(&self, place: usize) -> (yes: bool)
        requires
            place < self.parts@.len(),
        ensures
            yes == is_shown(self.parts@, place as int),
        decreases place,
    {
        let part: PartDefinition = self.parts[place];
        part.visible && (part.parent >= place || self.shows(part.parent))
    }

    /// Adds the sides of the cubes of a part.
    fn bake_into(&self, place: usize, output: &mut Vec<ModelPartQuad>)
        requires
            place < self.parts@.len(),
        ensures
            quad_models(final(output)@) == quad_models(old(output)@) + part_quads(
                *self,
                place as int,
                self.cubes@.len() as int,
            ),
    {
        let poses: Vec<PartPose> = self.read_poses(place);
        let ghost before = quad_models(output@);
        let mut i: usize = 0;
        assert(quad_models(output@) =~= before + part_quads(*self, place as int, 0));
        while i < self.cubes.len()
            invariant
                i <= self.cubes@.len(),
                place < self.parts@.len(),
                poses@ == poses_of(self.parts@, place as int),
                quad_models(output@) == before + part_quads(*self, place as int, i as int),
            decreases self.cubes@.len() - i,
        {
            if self.cubes[i].part == place {
                bake_cube(&self.cubes[i], self.parts[place].name, &poses, output);
            }
            assert(quad_models(output@) =~= before + part_quads(*self, place as int, i + 1));
            i += 1;
        }
    }

    /// The sides of the cubes, part by part.
    pub fn bake(&self) -> (quads: Vec<ModelPartQuad>)
        ensures
            quad_models(quads@) == baked(*self, self.parts@.len() as int),
    {
        let mut output: Vec<ModelPartQuad> = Vec::new();
        let mut place: usize = 0;
        assert(quad_models(output@) =~= baked(*self, 0));
        while place < self.parts.len()
            invariant
                place <= self.parts@.len(),
                quad_models(output@) == baked(*self, place as int),
            decreases self.parts@.len() - place,
        {
            if self.shows(place) {
                self.bake_into(place, &mut output);
            }
            place += 1;
        }
        output
    }
}

/// How many of the first sides a set holds.
pub open spec fn sides_within(faces: u8, count: int) -> int
    decreases count,
{
    if count <= 0 {
        0
    } else {
        sides_within(faces, count - 1) + if side_at(count - 1).within(faces) {
            1int
        } else {
            0int
        }
    }
}

/// A cube gives a side for each one that it shows, however thin it is: a cube
/// without thickness is still a plane.
pub proof fn lemma_thin_cubes_are_planes(
    cube: CubeDefinition,
    part: Seq<char>,
    poses: Seq<PartPose>,
    count: int,
)
    ensures
        cube_quads(cube, part, poses, count).len() == sides_within(cube.visible_faces, count),
    decreases count,
{
    if count > 0 {
        lemma_thin_cubes_are_planes(cube, part, poses, count - 1);
    }
}

/// Whether two rectangles have no area in common; either may have its upper and
/// lower edges exchanged.
pub open spec fn apart(a: (int, int, int, int), b: (int, int, int, int)) -> bool {
    ||| a.2 <= b.0
    ||| b.2 <= a.0
    ||| (a.3 <= b.1 && a.3 <= b.3 && a.1 <= b.1 && a.1 <= b.3)
    ||| (b.3 <= a.1 && b.3 <= a.3 && b.1 <= a.1 && b.1 <= a.3)
}

/// No two sides of a cube share a place on the texture.
pub proof fn lemma_net_does_not_overlap(cube: CubeDefinition, a: PartDirection, b: PartDirection)
    requires
        a != b,
    ensures
        apart(net_rectangle(cube, a), net_rectangle(cube, b)),
{
}

/// A mirrored cube shows the same sides on the same places of the texture, with the
/// corners of each in the other order and the ends along the x axis exchanged.
pub proof fn lemma_mirror_turns_sides_round(
    cube: CubeDefinition,
    side: PartDirection,
    part: Seq<char>,
    poses: Seq<PartPose>,
)
    requires
        !cube.mirror,
        !reflects(poses),
    ensures
        ({
            let plain = cube_quad(cube, side, part, poses);
            let turned = cube_quad(
                CubeDefinition { mirror: true, ..cube },
                side,
                part,
                poses,
            );
            &&& (turned.corners.0.u, turned.corners.0.v) == (plain.corners.3.u, plain.corners.3.v)
            &&& (turned.corners.1.u, turned.corners.1.v) == (plain.corners.2.u, plain.corners.2.v)
            &&& (turned.corners.2.u, turned.corners.2.v) == (plain.corners.1.u, plain.corners.1.v)
            &&& (turned.corners.3.u, turned.corners.3.v) == (plain.corners.0.u, plain.corners.0.v)
            &&& turned.normal.step().0 == -plain.normal.step().0
            &&& turned.normal.step().1 == plain.normal.step().1
            &&& turned.normal.step().2 == plain.normal.step().2
        }),
{
}

/// Each side of a cube comes up once, and opposite sides lead opposite ways.
pub proof fn lemma_sides_come_up_once(side: PartDirection)
    ensures
        exists|k: int|
            0 <= k < 6 && #[trigger] side_at(k) == side && forall|j: int|
                0 <= j < 6 && j != k ==> #[trigger] side_at(j) != side,
        side is Up || side is Down <==> side.step().1 != 0,
        side is East || side is West <==> side.step().0 != 0,
        side is South || side is North <==> side.step().2 != 0,
        PartDirection::Up.step().1 == 1 && PartDirection::Down.step().1 == -1,
        PartDirection::East.step().0 == 1 && PartDirection::West.step().0 == -1,
        PartDirection::South.step().2 == 1 && PartDirection::North.step().2 == -1,
{
    match side {
        PartDirection::Down => assert(side_at(0) == side),
        PartDirection::Up => assert(side_at(1) == side),
        PartDirection::West => assert(side_at(2) == side),
        PartDirection::North => assert(side_at(3) == side),
        PartDirection::East => assert(side_at(4) == side),
        PartDirection::South => assert(side_at(5) == side),
    }
}

/// Which sides of a cube are drawn is held in the six lowest bits.
pub proof fn lemma_bits_tell_the_sides(faces: u8)
    ensures
        PartDirection::Down.within(faces) <==> faces as int % 2 == 1,
        PartDirection::Up.within(faces) <==> faces as int / 2 % 2 == 1,
        PartDirection::North.within(faces) <==> faces as int / 4 % 2 == 1,
        PartDirection::South.within(faces) <==> faces as int / 8 % 2 == 1,
        PartDirection::West.within(faces) <==> faces as int / 16 % 2 == 1,
        PartDirection::East.within(faces) <==> faces as int / 32 % 2 == 1,
{
    lemma2_to64();
    assert(faces as int / 1 == faces as int);
}

/// A cube lies between its origin and its size beyond it, grown on both ends by its
/// deformation. Mirroring swaps the two ends along x alone.
pub proof fn lemma_cubes_have_their_size(cube: CubeDefinition, axis: int)
    requires
        0 <= axis < 3,
    ensures
        cube_end(cube, axis, true) - cube_end(cube, axis, false) == cube.size@[axis] + 2
            * cube.deformation,
        cube_end(cube, axis, false) + cube.deformation == cube.origin@[axis],
{
}

/// A corner of a cube lies at the ends that it names.
pub proof fn lemma_corners_lie_at_the_ends(
    cube: CubeDefinition,
    far: (bool, bool, bool),
    place: (int, int),
)
    ensures
        ({
            let corner = cube_corner(cube, far, place);
            &&& corner.x == cube_end(cube, 0, if cube.mirror {
                !far.0
            } else {
                far.0
            }) as i64
            &&& corner.y == cube_end(cube, 1, far.1) as i64
            &&& corner.z == cube_end(cube, 2, far.2) as i64
            &&& corner.u == place.0 as i64 && corner.v == place.1 as i64
        }),
{
}

/// The net of a cube: each side has the width and the height that it has on the cube, the
/// four sides stand in a row from west over north and east to south, and above the north
/// side lie the bottom and, turned over, the top.
pub proof fn lemma_nets_have_their_sides_in_place(cube: CubeDefinition)
    ensures
        ({
            let width = magnitude(cube.size@[0] as int);
            let height = magnitude(cube.size@[1] as int);
            let depth = magnitude(cube.size@[2] as int);
            let down = net_rectangle(cube, PartDirection::Down);
            let up = net_rectangle(cube, PartDirection::Up);
            let west = net_rectangle(cube, PartDirection::West);
            let north = net_rectangle(cube, PartDirection::North);
            let east = net_rectangle(cube, PartDirection::East);
            let south = net_rectangle(cube, PartDirection::South);
            &&& west.0 == cube.texture_offset@[0] && down.1 == cube.texture_offset@[1]
            &&& west.2 - west.0 == depth && east.2 - east.0 == depth
            &&& north.2 - north.0 == width && south.2 - south.0 == width
            &&& down.2 - down.0 == width && up.2 - up.0 == width
            &&& down.3 - down.1 == depth && up.1 - up.3 == depth
            &&& west.3 - west.1 == height && north.3 - north.1 == height
            &&& east.3 - east.1 == height && south.3 - south.1 == height
            &&& west.2 == north.0 && north.2 == east.0 && east.2 == south.0
            &&& west.1 == north.1 && north.1 == east.1 && east.1 == south.1
            &&& down.0 == north.0 && down.3 == north.1
            &&& up.0 == down.2 && up.3 == down.1
            &&& width >= 0 && height >= 0 && depth >= 0
            &&& width == cube.size@[0] || width == -cube.size@[0]
            &&& height == cube.size@[1] || height == -cube.size@[1]
            &&& depth == cube.size@[2] || depth == -cube.size@[2]
        }),
{
}

/// The corners of a side lie on that side and go around it so that it is seen from
/// outside.
pub proof fn lemma_sides_are_seen_from_outside(side: PartDirection)
    ensures
        ({
            let at = |far: bool|
                if far {
                    1int
                } else {
                    0
                };
            let place = |corner: (bool, bool, bool)| (at(corner.0), at(corner.1), at(corner.2));
            let corners = side_corners(side);
            let a = place(corners.0);
            let b = place(corners.1);
            let c = place(corners.2);
            let d = place(corners.3);
            let u = (b.0 - a.0, b.1 - a.1, b.2 - a.2);
            let v = (c.0 - b.0, c.1 - b.1, c.2 - b.2);
            let step = side.step();
            &&& (d.0 - a.0, d.1 - a.1, d.2 - a.2) == v
            &&& u.1 * v.2 - u.2 * v.1 == step.0
            &&& u.2 * v.0 - u.0 * v.2 == step.1
            &&& u.0 * v.1 - u.1 * v.0 == step.2
            &&& side is East ==> a.0 == 1
            &&& side is West ==> a.0 == 0
            &&& side is Up ==> a.1 == 1
            &&& side is Down ==> a.1 == 0
            &&& side is South ==> a.2 == 1
            &&& side is North ==> a.2 == 0
        }),
{
    let at = |far: bool|
        if far {
            1int
        } else {
            0
        };
    let place = |corner: (bool, bool, bool)| (at(corner.0), at(corner.1), at(corner.2));
    let corners = side_corners(side);
    let a = place(corners.0);
    let b = place(corners.1);
    let c = place(corners.2);
    let u = (b.0 - a.0, b.1 - a.1, b.2 - a.2);
    let v = (c.0 - b.0, c.1 - b.1, c.2 - b.2);
    lemma_unit_product(u.1, v.2);
    lemma_unit_product(u.2, v.1);
    lemma_unit_product(u.2, v.0);
    lemma_unit_product(u.0, v.2);
    lemma_unit_product(u.0, v.1);
    lemma_unit_product(u.1, v.0);
}

proof fn lemma_unit_product(a: int, b: int)
    ensures
        a == 0 ==> a * b == 0,
        a == 1 ==> a * b == b,
        a == -1 ==> a * b == -b,
{
    assert(0 * b == 0 && 1 * b == b && (-1int) * b == -b) by (nonlinear_arith);
}

/// A side shows its rectangle of the net: its first two corners lie on the upper edge, the
/// outer two on the right one.
pub proof fn lemma_sides_show_their_rectangle(cube: CubeDefinition, side: PartDirection)
    ensures
        ({
            let (a, b, c, d) = side_polygon(cube, side);
            let net = net_rectangle(cube, side);
            let corners = side_corners(side);
            &&& a.u == net.2 as i64 && d.u == net.2 as i64 && b.u == net.0 as i64 && c.u
                == net.0 as i64
            &&& a.v == net.1 as i64 && b.v == net.1 as i64 && c.v == net.3 as i64 && d.v
                == net.3 as i64
            &&& a.y == cube_end(cube, 1, corners.0.1) as i64
            &&& b.y == cube_end(cube, 1, corners.1.1) as i64
            &&& c.y == cube_end(cube, 1, corners.2.1) as i64
            &&& d.y == cube_end(cube, 1, corners.3.1) as i64
            &&& a.z == cube_end(cube, 2, corners.0.2) as i64
            &&& b.z == cube_end(cube, 2, corners.1.2) as i64
            &&& c.z == cube_end(cube, 2, corners.2.2) as i64
            &&& d.z == cube_end(cube, 2, corners.3.2) as i64
            &&& a.x == cube_end(cube, 0, corners.0.0 != cube.mirror) as i64
            &&& b.x == cube_end(cube, 0, corners.1.0 != cube.mirror) as i64
            &&& c.x == cube_end(cube, 0, corners.2.0 != cube.mirror) as i64
            &&& d.x == cube_end(cube, 0, corners.3.0 != cube.mirror) as i64
        }),
{
}

/// The sign of a number.
pub open spec fn sign_of(value: int) -> int {
    if value > 0 {
        1
    } else if value < 0 {
        -1
    } else {
        0
    }
}

/// The orientation of a line of poses is the product of the signs of all its scales: it
/// reflects where an odd number of them is negative and none is nought.
pub proof fn lemma_orientation_is_the_product_of_signs(poses: Seq<PartPose>, n: int)
    requires
        0 <= n < poses.len(),
    ensures
        orientation(poses, 0) == 1,
        orientation(poses, n + 1) == orientation(poses, n) * sign_of(poses[n].scale@[0] as int)
            * sign_of(poses[n].scale@[1] as int) * sign_of(poses[n].scale@[2] as int),
{
    let scale = poses[n].scale@;
    let before = orientation(poses, n);
    let first = scaled_sign(before, scale[0]);
    let second = scaled_sign(first, scale[1]);
    lemma_scaled_sign(before, scale[0]);
    lemma_scaled_sign(first, scale[1]);
    lemma_scaled_sign(second, scale[2]);
}

proof fn lemma_scaled_sign(sign: int, scale: i32)
    ensures
        scaled_sign(sign, scale) == sign * sign_of(scale as int),
{
    assert(sign * 1 == sign && sign * (-1int) == -sign && sign * 0 == 0) by (nonlinear_arith);
}

/// A reflected part has its corners the other way round, from the same first corner, and
/// everything else as it is without the reflection.
pub proof fn lemma_reflections_turn_corners_round(
    cube: CubeDefinition,
    side: PartDirection,
    part: Seq<char>,
    plain: Seq<PartPose>,
    reflected: Seq<PartPose>,
)
    requires
        !reflects(plain),
        reflects(reflected),
    ensures
        ({
            let a = cube_quad(cube, side, part, plain);
            let b = cube_quad(cube, side, part, reflected);
            &&& b.corners == (a.corners.0, a.corners.3, a.corners.2, a.corners.1)
            &&& b.determinant_negative && !a.determinant_negative
            &&& b.direction == side && a.direction == side
            &&& a.normal == b.normal
            &&& a.part == part && b.part == part
            &&& a.texture_size == cube.texture_size && b.texture_size == cube.texture_size
            &&& a.poses == plain && b.poses == reflected
            &&& !cube.mirror ==> a.corners == side_polygon(cube, side) && a.normal == side
        }),
{
}

/// A cube gives a face for each of its sides that is drawn.
pub proof fn lemma_drawn_sides_give_faces(
    cube: CubeDefinition,
    part: Seq<char>,
    poses: Seq<PartPose>,
    k: int,
    n: int,
)
    requires
        0 <= k < n <= 6,
        side_at(k).within(cube.visible_faces),
    ensures
        cube_quads(cube, part, poses, n).contains(cube_quad(cube, side_at(k), part, poses)),
    decreases n,
{
    let all = cube_quads(cube, part, poses, n);
    let face = cube_quad(cube, side_at(k), part, poses);
    if k == n - 1 {
        assert(all.last() == face);
    } else {
        lemma_drawn_sides_give_faces(cube, part, poses, k, n - 1);
        let before = cube_quads(cube, part, poses, n - 1);
        let i = choose|i: int| 0 <= i < before.len() && before[i] == face;
        assert(all[i] == face);
    }
}

/// A part stands in the poses of all parts that it hangs on, from the first on, and in its
/// own last. It is shown where it and all of these are.
pub proof fn lemma_parts_hang_on_their_parents(parts: Seq<PartDefinition>, place: int)
    requires
        0 <= place < parts.len(),
    ensures
        poses_of(parts, place).last() == parts[place].pose,
        parts[place].parent < place ==> poses_of(parts, place).drop_last() == poses_of(
            parts,
            parts[place].parent as int,
        ),
        parts[place].parent >= place ==> poses_of(parts, place).len() == 1,
        parts[place].parent < place ==> (is_shown(parts, place) <==> parts[place].visible
            && is_shown(parts, parts[place].parent as int)),
        parts[place].parent >= place ==> (is_shown(parts, place) <==> parts[place].visible),
{
    if parts[place].parent < place {
        assert(poses_of(parts, place).drop_last() =~= poses_of(parts, parts[place].parent as int));
    }
}

/// A model has the faces of its parts one after the other, and each part those of its
/// cubes; what is not shown gives none.
pub proof fn lemma_models_have_the_faces_of_their_parts(
    model: ModelPartDefinition,
    place: int,
    n: int,
)
    requires
        0 <= place < model.parts@.len(),
        0 <= n < model.cubes@.len(),
    ensures
        baked(model, 0) == Seq::<QuadModel>::empty(),
        baked(model, place + 1) == baked(model, place) + (if is_shown(model.parts@, place) {
            part_quads(model, place, model.cubes@.len() as int)
        } else {
            Seq::empty()
        }),
        part_quads(model, place, 0) == Seq::<QuadModel>::empty(),
        part_quads(model, place, n + 1) == part_quads(model, place, n) + (if model.cubes@[n].part
            == place {
            cube_quads(
                model.cubes@[n],
                model.parts@[place].name@,
                poses_of(model.parts@, place),
                6,
            )
        } else {
            Seq::empty()
        }),
{
    assert(baked(model, place) + Seq::<QuadModel>::empty() =~= baked(model, place));
    assert(part_quads(model, place, n) + Seq::<QuadModel>::empty() =~= part_quads(model, place, n));
}

} // verus!
