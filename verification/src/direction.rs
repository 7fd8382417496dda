//! Block faces, their quarter-turn rotations and the UV-lock transform.

use crate::text::same_text;
use vstd::prelude::*;

verus! {

#[derive(Clone, Copy, Debug, PartialEq, Eq, PartialOrd, Ord, Structural)]
pub enum Direction {
    Down,
    Up,
    North,
    South,
    West,
    East,
}

/// A vector with integer components.
pub type Vector = (int, int, int);

pub open spec fn vector_of(v: [i8; 3]) -> Vector {
    (v@[0] as int, v@[1] as int, v@[2] as int)
}

pub open spec fn negated(v: Vector) -> Vector {
    (-v.0, -v.1, -v.2)
}

pub open spec fn dot(a: Vector, b: Vector) -> int {
    a.0 * b.0 + a.1 * b.1 + a.2 * b.2
}

/// Every component lies between `-limit` and `limit`.
pub open spec fn within(v: Vector, limit: int) -> bool {
    -limit <= v.0 <= limit && -limit <= v.1 <= limit && -limit <= v.2 <= limit
}

pub open spec fn fits_i8(value: int) -> bool {
    -128 <= value <= 127
}

impl Direction {
    /// Every direction, in the order of its index.
    pub const ALL: [Direction; 6] = [
        Direction::Down,
        Direction::Up,
        Direction::North,
        Direction::South,
        Direction::West,
        Direction::East,
    ];

    /// The unit step out of this face.
    pub open spec fn step(self) -> Vector {
        match self {
            Direction::Down => (0, -1, 0),
            Direction::Up => (0, 1, 0),
            Direction::North => (0, 0, -1),
            Direction::South => (0, 0, 1),
            Direction::West => (-1, 0, 0),
            Direction::East => (1, 0, 0),
        }
    }

    pub open spec fn opposite(self) -> Direction {
        match self {
            Direction::Down => Direction::Up,
            Direction::Up => Direction::Down,
            Direction::North => Direction::South,
            Direction::South => Direction::North,
            Direction::West => Direction::East,
            Direction::East => Direction::West,
        }
    }

    pub fn offset(self) -> (offset: [i32; 3])
        ensures
            (offset@[0] as int, offset@[1] as int, offset@[2] as int) == self.step(),
    {
        match self {
            Direction::Down => [0, -1, 0],
            Direction::Up => [0, 1, 0],
            Direction::North => [0, 0, -1],
            Direction::South => [0, 0, 1],
            Direction::West => [-1, 0, 0],
            Direction::East => [1, 0, 0],
        }
    }

    pub open spec fn position(self) -> int {
        match self {
            Direction::Down => 0,
            Direction::Up => 1,
            Direction::North => 2,
            Direction::South => 3,
            Direction::West => 4,
            Direction::East => 5,
        }
    }

    /// The position of this direction in [`Direction::ALL`].
    pub fn index(self) -> (index: usize)
        ensures
            index == self.position(),
    {
        match self {
            Direction::Down => 0,
            Direction::Up => 1,
            Direction::North => 2,
            Direction::South => 3,
            Direction::West => 4,
            Direction::East => 5,
        }
    }

    /// The direction that faces the other way.
    pub fn reverse(self) -> (other: Direction)
        ensures
            other == self.opposite(),
    {
        match self {
            Direction::Down => Direction::Up,
            Direction::Up => Direction::Down,
            Direction::North => Direction::South,
            Direction::South => Direction::North,
            Direction::West => Direction::East,
            Direction::East => Direction::West,
        }
    }
}

/// One quarter turn about X: up goes north, north goes down.
pub open spec fn quarter_x(d: Direction) -> Direction {
    match d {
        Direction::Up => Direction::North,
        Direction::North => Direction::Down,
        Direction::Down => Direction::South,
        Direction::South => Direction::Up,
        other => other,
    }
}

/// One quarter turn about Y: north goes east, east goes south.
pub open spec fn quarter_y(d: Direction) -> Direction {
    match d {
        Direction::North => Direction::East,
        Direction::East => Direction::South,
        Direction::South => Direction::West,
        Direction::West => Direction::North,
        other => other,
    }
}

pub open spec fn turned_x(d: Direction, turns: int) -> Direction
    decreases turns,
{
    if turns <= 0 {
        d
    } else {
        quarter_x(turned_x(d, turns - 1))
    }
}

pub open spec fn turned_y(d: Direction, turns: int) -> Direction
    decreases turns,
{
    if turns <= 0 {
        d
    } else {
        quarter_y(turned_y(d, turns - 1))
    }
}

/// Where a block-state rotation in degrees takes a direction: the whole
/// quarter turns about X first, then those about Y.
pub open spec fn rotated(d: Direction, x_rotation: int, y_rotation: int) -> Direction {
    turned_y(turned_x(d, x_rotation / 90), y_rotation / 90)
}

pub open spec fn vector_quarter_x(v: Vector) -> Vector {
    (v.0, v.2, -v.1)
}

pub open spec fn vector_quarter_y(v: Vector) -> Vector {
    (-v.2, v.1, v.0)
}

pub open spec fn vector_turned_x(v: Vector, turns: int) -> Vector
    decreases turns,
{
    if turns <= 0 {
        v
    } else {
        vector_quarter_x(vector_turned_x(v, turns - 1))
    }
}

pub open spec fn vector_turned_y(v: Vector, turns: int) -> Vector
    decreases turns,
{
    if turns <= 0 {
        v
    } else {
        vector_quarter_y(vector_turned_y(v, turns - 1))
    }
}

pub open spec fn vector_rotated(v: Vector, x_rotation: int, y_rotation: int) -> Vector {
    vector_turned_y(vector_turned_x(v, x_rotation / 90), y_rotation / 90)
}

pub fn rotate_blockstate_direction(direction: Direction, x_rotation: u16, y_rotation: u16) -> (turned:
    Direction)
    ensures
        turned == rotated(direction, x_rotation as int, y_rotation as int),
{
    let mut current: Direction = direction;
    let mut i: u16 = 0;
    let x_turns: u16 = x_rotation / 90;
    while i < x_turns
        invariant
            i <= x_turns,
            current == turned_x(direction, i as int),
        decreases x_turns - i,
    {
        current = match current {
            Direction::Up => Direction::North,
            Direction::North => Direction::Down,
            Direction::Down => Direction::South,
            Direction::South => Direction::Up,
            other => other,
        };
        i += 1;
    }
    let ghost middle = current;
    let mut j: u16 = 0;
    let y_turns: u16 = y_rotation / 90;
    while j < y_turns
        invariant
            j <= y_turns,
            current == turned_y(middle, j as int),
        decreases y_turns - j,
    {
        current = match current {
            Direction::North => Direction::East,
            Direction::East => Direction::South,
            Direction::South => Direction::West,
            Direction::West => Direction::North,
            other => other,
        };
        j += 1;
    }
    current
}

/// Rotates a vector as [`rotate_blockstate_direction`] rotates a direction.
pub fn rotate_blockstate_vector(vector: [i8; 3], x_rotation: u16, y_rotation: u16) -> (turned: [i8;
    3])
    requires
        within(vector_of(vector), 127),
    ensures
        vector_of(turned) == vector_rotated(
            vector_of(vector),
            x_rotation as int,
            y_rotation as int,
        ),
        forall|limit: int|
            #![trigger within(vector_of(turned), limit)]
            within(vector_of(vector), limit) ==> within(vector_of(turned), limit),
{
    let mut current: [i8; 3] = vector;
    let mut i: u16 = 0;
    let x_turns: u16 = x_rotation / 90;
    while i < x_turns
        invariant
            i <= x_turns,
            vector_of(current) == vector_turned_x(vector_of(vector), i as int),
            within(vector_of(current), 127),
            forall|limit: int|
                #![trigger within(vector_of(current), limit)]
                within(vector_of(vector), limit) ==> within(vector_of(current), limit),
        decreases x_turns - i,
    {
        let ghost before = current;
        current = [current[0], current[2], -current[1]];
        assert(vector_of(current) == vector_quarter_x(vector_of(before)));
        assert forall|limit: int|
            #![trigger within(vector_of(current), limit)]
            within(vector_of(vector), limit) implies within(vector_of(current), limit) by {
            assert(within(vector_of(before), limit));
        }
        i += 1;
    }
    let ghost middle = vector_of(current);
    let mut j: u16 = 0;
    let y_turns: u16 = y_rotation / 90;
    while j < y_turns
        invariant
            j <= y_turns,
            vector_of(current) == vector_turned_y(middle, j as int),
            within(vector_of(current), 127),
            forall|limit: int|
                #![trigger within(vector_of(current), limit)]
                within(vector_of(vector), limit) ==> within(vector_of(current), limit),
        decreases y_turns - j,
    {
        let ghost before = current;
        current = [-current[2], current[1], current[0]];
        assert(vector_of(current) == vector_quarter_y(vector_of(before)));
        assert forall|limit: int|
            #![trigger within(vector_of(current), limit)]
            within(vector_of(vector), limit) implies within(vector_of(current), limit) by {
            assert(within(vector_of(before), limit));
        }
        j += 1;
    }
    current
}

pub fn dot_axis(left: [i8; 3], right: [i8; 3]) -> (product: i8)
    requires
        fits_i8(left@[0] * right@[0]),
        fits_i8(left@[1] * right@[1]),
        fits_i8(left@[2] * right@[2]),
        fits_i8(left@[0] * right@[0] + left@[1] * right@[1]),
        fits_i8(dot(vector_of(left), vector_of(right))),
    ensures
        product == dot(vector_of(left), vector_of(right)),
{
    left[0] * right[0] + left[1] * right[1] + left[2] * right[2]
}

/// The directions in which U and V grow on a face, V pointing up the sprite.
pub open spec fn uv_axes(d: Direction) -> (Vector, Vector) {
    match d {
        Direction::South => ((1, 0, 0), (0, 1, 0)),
        Direction::East => ((0, 0, -1), (0, 1, 0)),
        Direction::West => ((0, 0, 1), (0, 1, 0)),
        Direction::North => ((-1, 0, 0), (0, 1, 0)),
        Direction::Up => ((1, 0, 0), (0, 0, -1)),
        Direction::Down => ((1, 0, 0), (0, 0, 1)),
    }
}

pub fn face_uv_axes(direction: Direction) -> (axes: ([i8; 3], [i8; 3]))
    ensures
        vector_of(axes.0) == uv_axes(direction).0,
        vector_of(axes.1) == uv_axes(direction).1,
{
    match direction {
        Direction::South => ([1, 0, 0], [0, 1, 0]),
        Direction::East => ([0, 0, -1], [0, 1, 0]),
        Direction::West => ([0, 0, 1], [0, 1, 0]),
        Direction::North => ([-1, 0, 0], [0, 1, 0]),
        Direction::Up => ([1, 0, 0], [0, 0, -1]),
        Direction::Down => ([1, 0, 0], [0, 0, 1]),
    }
}

/// The UV-lock matrix `(f00, f01, f10, f11)`: how the rotated U and V axes of a
/// face lie along the U and V axes of the face that it is turned to.
pub open spec fn uvlock_matrix(d: Direction, x_rotation: int, y_rotation: int) -> (
    int,
    int,
    int,
    int,
) {
    let target = uv_axes(rotated(d, x_rotation, y_rotation));
    let u = vector_rotated(uv_axes(d).0, x_rotation, y_rotation);
    let v = vector_rotated(uv_axes(d).1, x_rotation, y_rotation);
    (dot(u, target.0), dot(v, target.0), dot(u, target.1), dot(v, target.1))
}

proof fn lemma_unit_dot(a: Vector, b: Vector)
    requires
        within(a, 1),
        within(b, 1),
    ensures
        -1 <= a.0 * b.0 <= 1,
        -1 <= a.1 * b.1 <= 1,
        -1 <= a.2 * b.2 <= 1,
        -3 <= dot(a, b) <= 3,
{
    assert(-1 <= a.0 * b.0 <= 1) by (nonlinear_arith)
        requires
            -1 <= a.0 <= 1,
            -1 <= b.0 <= 1,
    ;
    assert(-1 <= a.1 * b.1 <= 1) by (nonlinear_arith)
        requires
            -1 <= a.1 <= 1,
            -1 <= b.1 <= 1,
    ;
    assert(-1 <= a.2 * b.2 <= 1) by (nonlinear_arith)
        requires
            -1 <= a.2 <= 1,
            -1 <= b.2 <= 1,
    ;
}

pub fn uvlock_inverse_coefficients(direction: Direction, x_rotation: u16, y_rotation: u16) -> (f: [i8;
    4])
    ensures
        (f@[0] as int, f@[1] as int, f@[2] as int, f@[3] as int) == uvlock_matrix(
            direction,
            x_rotation as int,
            y_rotation as int,
        ),
{
    let target_direction: Direction = rotate_blockstate_direction(
        direction,
        x_rotation,
        y_rotation,
    );
    let (source_u, source_v): ([i8; 3], [i8; 3]) = face_uv_axes(direction);
    let (target_u, target_v): ([i8; 3], [i8; 3]) = face_uv_axes(target_direction);
    let transformed_u: [i8; 3] = rotate_blockstate_vector(source_u, x_rotation, y_rotation);
    let transformed_v: [i8; 3] = rotate_blockstate_vector(source_v, x_rotation, y_rotation);
    proof {
        assert(within(vector_of(source_u), 1) && within(vector_of(source_v), 1));
        assert(within(vector_of(transformed_u), 1) && within(vector_of(transformed_v), 1));
        assert(within(vector_of(target_u), 1) && within(vector_of(target_v), 1));
        lemma_unit_dot(vector_of(transformed_u), vector_of(target_u));
        lemma_unit_dot(vector_of(transformed_v), vector_of(target_u));
        lemma_unit_dot(vector_of(transformed_u), vector_of(target_v));
        lemma_unit_dot(vector_of(transformed_v), vector_of(target_v));
    }
    let f00: i8 = dot_axis(transformed_u, target_u);
    let f01: i8 = dot_axis(transformed_v, target_u);
    let f10: i8 = dot_axis(transformed_u, target_v);
    let f11: i8 = dot_axis(transformed_v, target_v);
    [f00, f01, f10, f11]
}

/// The corners of a face in UV order, from the minimum corner.
pub open spec fn uv_corner(turns: int) -> (int, int) {
    if turns == 0 {
        (-1, -1)
    } else if turns == 1 {
        (-1, 1)
    } else if turns == 2 {
        (1, 1)
    } else {
        (1, -1)
    }
}

/// Where the UV-lock matrix takes the minimum corner of a face.
pub open spec fn uvlock_minimum_corner(d: Direction, x_rotation: int, y_rotation: int) -> (int, int) {
    let f = uvlock_matrix(d, x_rotation, y_rotation);
    (-(f.0 + f.2), -(f.1 + f.3))
}

/// How many corners a UV-locked face is turned by: the corner at which the
/// transform puts the minimum corner.
pub fn uvlock_quarter_turns(direction: Direction, x_rotation: u16, y_rotation: u16) -> (turns: usize)
    ensures
        turns < 4,
        uv_corner(turns as int) == uvlock_minimum_corner(
            direction,
            x_rotation as int,
            y_rotation as int,
        ),
{
    let f: [i8; 4] = uvlock_inverse_coefficients(direction, x_rotation, y_rotation);
    proof {
        lemma_uvlock_is_quarter_turn(direction, x_rotation as int, y_rotation as int);
    }
    let u: i8 = -f[0] - f[2];
    let v: i8 = -f[1] - f[3];
    if u == -1 && v == -1 {
        0
    } else if u == -1 && v == 1 {
        1
    } else if u == 1 && v == 1 {
        2
    } else {
        3
    }
}

proof fn lemma_turns_modulo(d: Direction, v: Vector, turns: int)
    requires
        turns >= 0,
    ensures
        turned_x(d, turns) == turned_x(d, turns % 4),
        turned_y(d, turns) == turned_y(d, turns % 4),
        vector_turned_x(v, turns) == vector_turned_x(v, turns % 4),
        vector_turned_y(v, turns) == vector_turned_y(v, turns % 4),
    decreases turns,
{
    if turns >= 4 {
        lemma_turns_modulo(d, v, turns - 4);
        reveal_with_fuel(turned_x, 5);
        reveal_with_fuel(turned_y, 5);
        reveal_with_fuel(vector_turned_x, 5);
        reveal_with_fuel(vector_turned_y, 5);
        assert((turns - 4) % 4 == turns % 4);
    }
}

proof fn lemma_turns_stay_within(v: Vector, turns: int)
    requires
        within(v, 1),
    ensures
        within(vector_turned_x(v, turns), 1),
        within(vector_turned_y(v, turns), 1),
    decreases turns,
{
    if turns > 0 {
        lemma_turns_stay_within(v, turns - 1);
    }
}

spec fn four_fold<T>(turns: int, none: T, one: T, two: T, three: T) -> T {
    if turns == 0 {
        none
    } else if turns == 1 {
        one
    } else if turns == 2 {
        two
    } else {
        three
    }
}

proof fn lemma_turn_cases(d: Direction, v: Vector, turns: int)
    requires
        0 <= turns < 4,
    ensures
        turned_x(d, turns) == four_fold(
            turns,
            d,
            quarter_x(d),
            quarter_x(quarter_x(d)),
            quarter_x(quarter_x(quarter_x(d))),
        ),
        turned_y(d, turns) == four_fold(
            turns,
            d,
            quarter_y(d),
            quarter_y(quarter_y(d)),
            quarter_y(quarter_y(quarter_y(d))),
        ),
        vector_turned_x(v, turns) == four_fold(
            turns,
            v,
            (v.0, v.2, -v.1),
            (v.0, -v.1, -v.2),
            (v.0, -v.2, v.1),
        ),
        vector_turned_y(v, turns) == four_fold(
            turns,
            v,
            (-v.2, v.1, v.0),
            (-v.0, v.1, -v.2),
            (v.2, v.1, -v.0),
        ),
{
    reveal_with_fuel(turned_x, 4);
    reveal_with_fuel(turned_y, 4);
    reveal_with_fuel(vector_turned_x, 4);
    reveal_with_fuel(vector_turned_y, 4);
}

spec fn unit_product(a: int, b: int) -> int {
    if a == 1 {
        b
    } else if a == -1 {
        -b
    } else {
        0
    }
}

proof fn lemma_unit_product(a: int, b: int)
    requires
        -1 <= a <= 1,
    ensures
        a * b == unit_product(a, b),
{
    assert(1 * b == b && -1 * b == -b && 0 * b == 0) by (nonlinear_arith);
}

proof fn lemma_unit_dot_table(a: Vector, b: Vector)
    requires
        within(a, 1),
    ensures
        dot(a, b) == unit_product(a.0, b.0) + unit_product(a.1, b.1) + unit_product(a.2, b.2),
{
    lemma_unit_product(a.0, b.0);
    lemma_unit_product(a.1, b.1);
    lemma_unit_product(a.2, b.2);
}

/// A UV-lock transform is a quarter turn about the sprite's centre: its
/// coefficients are those of a rotation matrix, and the minimum corner of the
/// face goes to one of the four corners.
#[verifier::rlimit(60)]
pub proof fn lemma_uvlock_is_quarter_turn(d: Direction, x_rotation: int, y_rotation: int)
    requires
        x_rotation >= 0,
        y_rotation >= 0,
    ensures
        ({
            let f = uvlock_matrix(d, x_rotation, y_rotation);
            &&& -1 <= f.0 <= 1
            &&& -1 <= f.1 <= 1
            &&& f.3 == f.0
            &&& f.2 == -f.1
            &&& (f.0 == 0 <==> f.1 != 0)
        }),
        exists|turns: int|
            0 <= turns < 4 && #[trigger] uv_corner(turns) == uvlock_minimum_corner(
                d,
                x_rotation,
                y_rotation,
            ),
{
    let x = (x_rotation / 90) % 4;
    let y = (y_rotation / 90) % 4;
    let (u, v) = uv_axes(d);
    let dx = turned_x(d, x);
    let ux = vector_turned_x(u, x);
    let vx = vector_turned_x(v, x);
    lemma_turns_modulo(d, u, x_rotation / 90);
    lemma_turns_modulo(d, v, x_rotation / 90);
    lemma_turns_modulo(dx, ux, y_rotation / 90);
    lemma_turns_modulo(dx, vx, y_rotation / 90);
    lemma_turn_cases(d, u, x);
    lemma_turn_cases(d, v, x);
    lemma_turn_cases(dx, ux, y);
    lemma_turn_cases(dx, vx, y);
    let turned = rotated(d, x_rotation, y_rotation);
    let un = vector_rotated(u, x_rotation, y_rotation);
    let vn = vector_rotated(v, x_rotation, y_rotation);
    lemma_turns_stay_within(u, x_rotation / 90);
    lemma_turns_stay_within(v, x_rotation / 90);
    lemma_turns_stay_within(vector_turned_x(u, x_rotation / 90), y_rotation / 90);
    lemma_turns_stay_within(vector_turned_x(v, x_rotation / 90), y_rotation / 90);
    lemma_unit_dot_table(un, uv_axes(turned).0);
    lemma_unit_dot_table(vn, uv_axes(turned).0);
    lemma_unit_dot_table(un, uv_axes(turned).1);
    lemma_unit_dot_table(vn, uv_axes(turned).1);
    assert(uv_corner(0) == (-1int, -1int));
    assert(uv_corner(1) == (-1int, 1int));
    assert(uv_corner(2) == (1int, 1int));
    assert(uv_corner(3) == (1int, -1int));
    if x == 0 {
    } else if x == 1 {
    } else if x == 2 {
    } else {
        assert(x == 3);
    }
    if y == 0 {
    } else if y == 1 {
    } else if y == 2 {
    } else {
        assert(y == 3);
    }
}

/// Rotating a direction and taking its step is rotating its step.
pub proof fn lemma_rotation_moves_steps(d: Direction, x_rotation: int, y_rotation: int)
    ensures
        rotated(d, x_rotation, y_rotation).step() == vector_rotated(
            d.step(),
            x_rotation,
            y_rotation,
        ),
{
    lemma_turn_x_moves_steps(d, x_rotation / 90);
    lemma_turn_y_moves_steps(turned_x(d, x_rotation / 90), y_rotation / 90);
}

proof fn lemma_turn_x_moves_steps(d: Direction, turns: int)
    ensures
        turned_x(d, turns).step() == vector_turned_x(d.step(), turns),
    decreases turns,
{
    if turns > 0 {
        lemma_turn_x_moves_steps(d, turns - 1);
    }
}

proof fn lemma_turn_y_moves_steps(d: Direction, turns: int)
    ensures
        turned_y(d, turns).step() == vector_turned_y(d.step(), turns),
    decreases turns,
{
    if turns > 0 {
        lemma_turn_y_moves_steps(d, turns - 1);
    }
}

/// A rotation takes opposite faces to opposite faces.
pub proof fn lemma_rotation_keeps_opposites(d: Direction, x_rotation: int, y_rotation: int)
    ensures
        rotated(d.opposite(), x_rotation, y_rotation) == rotated(
            d,
            x_rotation,
            y_rotation,
        ).opposite(),
{
    lemma_turn_x_keeps_opposites(d, x_rotation / 90);
    lemma_turn_y_keeps_opposites(turned_x(d, x_rotation / 90), y_rotation / 90);
}

proof fn lemma_turn_x_keeps_opposites(d: Direction, turns: int)
    ensures
        turned_x(d.opposite(), turns) == turned_x(d, turns).opposite(),
    decreases turns,
{
    if turns > 0 {
        lemma_turn_x_keeps_opposites(d, turns - 1);
    }
}

proof fn lemma_turn_y_keeps_opposites(d: Direction, turns: int)
    ensures
        turned_y(d.opposite(), turns) == turned_y(d, turns).opposite(),
    decreases turns,
{
    if turns > 0 {
        lemma_turn_y_keeps_opposites(d, turns - 1);
    }
}

/// Opposite faces step in opposite directions, and the opposite of the
/// opposite is the face itself.
pub proof fn lemma_opposite_reverses(d: Direction)
    ensures
        d.opposite().step() == negated(d.step()),
        d.opposite().opposite() == d,
{
}

/// The name of the facing across from `facing`; a name that is no facing is its
/// own opposite.
pub open spec fn opposite_name(facing: Seq<char>) -> Seq<char> {
    if facing == "north"@ {
        "south"@
    } else if facing == "south"@ {
        "north"@
    } else if facing == "east"@ {
        "west"@
    } else if facing == "west"@ {
        "east"@
    } else if facing == "up"@ {
        "down"@
    } else if facing == "down"@ {
        "up"@
    } else {
        facing
    }
}

pub fn opposite_direction(facing: &str) -> (other: &str)
    ensures
        other@ == opposite_name(facing@),
{
    if same_text(facing, "north") {
        "south"
    } else if same_text(facing, "south") {
        "north"
    } else if same_text(facing, "east") {
        "west"
    } else if same_text(facing, "west") {
        "east"
    } else if same_text(facing, "up") {
        "down"
    } else if same_text(facing, "down") {
        "up"
    } else {
        facing
    }
}

/// The direction that a face name stands for.
pub open spec fn direction_named(value: Seq<char>) -> Option<Direction> {
    if value == "down"@ {
        Some(Direction::Down)
    } else if value == "up"@ {
        Some(Direction::Up)
    } else if value == "north"@ {
        Some(Direction::North)
    } else if value == "south"@ {
        Some(Direction::South)
    } else if value == "west"@ {
        Some(Direction::West)
    } else if value == "east"@ {
        Some(Direction::East)
    } else {
        None
    }
}

pub fn parse_direction(value: &str) -> (direction: Option<Direction>)
    ensures
        direction == direction_named(value@),
{
    if same_text(value, "down") {
        Some(Direction::Down)
    } else if same_text(value, "up") {
        Some(Direction::Up)
    } else if same_text(value, "north") {
        Some(Direction::North)
    } else if same_text(value, "south") {
        Some(Direction::South)
    } else if same_text(value, "west") {
        Some(Direction::West)
    } else if same_text(value, "east") {
        Some(Direction::East)
    } else {
        None
    }
}

/// The opposite of the opposite of a facing name is the name itself.
pub proof fn lemma_opposite_name_involutive(facing: Seq<char>)
    ensures
        opposite_name(opposite_name(facing)) == facing,
{
    reveal_strlit("north");
    reveal_strlit("south");
    reveal_strlit("east");
    reveal_strlit("west");
    reveal_strlit("up");
    reveal_strlit("down");
    assert("north"@ != "south"@) by {
        assert("north"@[0] != "south"@[0]);
    }
    assert("north"@.len() == 5 && "south"@.len() == 5);
    assert("east"@.len() == 4 && "west"@.len() == 4 && "down"@.len() == 4 && "up"@.len() == 2);
    assert("east"@ != "west"@) by {
        assert("east"@[0] != "west"@[0]);
    }
    assert("east"@ != "down"@) by {
        assert("east"@[0] != "down"@[0]);
    }
    assert("west"@ != "down"@) by {
        assert("west"@[0] != "down"@[0]);
    }
}

/// East is where x grows, up where y grows and south where z grows, and each face
/// has its own place in the list of all.
pub proof fn lemma_faces_step_along_the_axes(d: Direction)
    ensures
        d.step().0 == 1 <==> d is East,
        d.step().0 == -1 <==> d is West,
        d.step().1 == 1 <==> d is Up,
        d.step().1 == -1 <==> d is Down,
        d.step().2 == 1 <==> d is South,
        d.step().2 == -1 <==> d is North,
        d.step().0 * d.step().0 + d.step().1 * d.step().1 + d.step().2 * d.step().2 == 1,
        0 <= d.position() < 6,
        Direction::ALL@[d.position()] == d,
{
}

/// A quarter turn about Y takes the step of a face from x to z and from z to minus x,
/// and one about X takes it from z to y and from y to minus z. The turns about X come
/// before those about Y, only whole quarters count, and four of them are none.
pub proof fn lemma_quarters_turn_steps(d: Direction, x_rotation: int, y_rotation: int)
    requires
        x_rotation >= 0,
        y_rotation >= 0,
    ensures
        rotated(d, 0, 90).step() == (-d.step().2, d.step().1, d.step().0),
        rotated(d, 90, 0).step() == (d.step().0, d.step().2, -d.step().1),
        rotated(d, x_rotation, y_rotation) == rotated(rotated(d, x_rotation, 0), 0, y_rotation),
        rotated(d, 0, y_rotation + 90) == rotated(rotated(d, 0, y_rotation), 0, 90),
        rotated(d, x_rotation + 90, 0) == rotated(rotated(d, x_rotation, 0), 90, 0),
        x_rotation < 90 && y_rotation < 90 ==> rotated(d, x_rotation, y_rotation) == d,
        rotated(d, x_rotation + 360, y_rotation + 360) == rotated(d, x_rotation, y_rotation),
{
    reveal_with_fuel(turned_x, 2);
    reveal_with_fuel(turned_y, 2);
    assert((x_rotation + 90) / 90 == x_rotation / 90 + 1);
    assert((y_rotation + 90) / 90 == y_rotation / 90 + 1);
    assert((x_rotation + 360) / 90 == x_rotation / 90 + 4);
    assert((y_rotation + 360) / 90 == y_rotation / 90 + 4);
    let v = (0int, 0int, 0int);
    lemma_turns_modulo(d, v, x_rotation / 90);
    lemma_turns_modulo(d, v, x_rotation / 90 + 4);
    let middle = turned_x(d, x_rotation / 90);
    lemma_turns_modulo(middle, v, y_rotation / 90);
    lemma_turns_modulo(middle, v, y_rotation / 90 + 4);
}

/// The U and V axes of a face lie in it, at a right angle, so that their cross product
/// points out of it. V points up on the sides, to the north on top and to the south
/// below.
pub proof fn lemma_texture_axes_face_outward(d: Direction)
    ensures
        ({
            let (u, v) = uv_axes(d);
            &&& (u.1 * v.2 - u.2 * v.1, u.2 * v.0 - u.0 * v.2, u.0 * v.1 - u.1 * v.0) == d.step()
            &&& u.0 * v.0 + u.1 * v.1 + u.2 * v.2 == 0
            &&& d is Up ==> v == (0int, 0int, -1int)
            &&& d is Down ==> v == (0int, 0int, 1int)
            &&& !(d is Up) && !(d is Down) ==> v == (0int, 1int, 0int)
        }),
{
    let (u, v) = uv_axes(d);
    lemma_unit_scale(u.0, v);
    lemma_unit_scale(u.1, v);
    lemma_unit_scale(u.2, v);
}

/// The UV-lock matrix tells where a rotation takes the texture axes of a face, in terms
/// of those of the face that it is turned to: `U` goes to `f00` of the new `U` and
/// `f10` of the new `V`, and `V` to `f01` and `f11` of them.
pub proof fn lemma_uvlock_follows_the_axes(d: Direction, x_rotation: int, y_rotation: int)
    requires
        x_rotation >= 0,
        y_rotation >= 0,
    ensures
        ({
            let (f00, f01, f10, f11) = uvlock_matrix(d, x_rotation, y_rotation);
            let (u, v) = uv_axes(d);
            let (tu, tv) = uv_axes(rotated(d, x_rotation, y_rotation));
            &&& vector_rotated(u, x_rotation, y_rotation) == (
                f00 * tu.0 + f10 * tv.0,
                f00 * tu.1 + f10 * tv.1,
                f00 * tu.2 + f10 * tv.2,
            )
            &&& vector_rotated(v, x_rotation, y_rotation) == (
                f01 * tu.0 + f11 * tv.0,
                f01 * tu.1 + f11 * tv.1,
                f01 * tu.2 + f11 * tv.2,
            )
        }),
{
    let x = (x_rotation / 90) % 4;
    let y = (y_rotation / 90) % 4;
    let (u, v) = uv_axes(d);
    let dx = turned_x(d, x);
    lemma_turns_modulo(d, u, x_rotation / 90);
    lemma_turns_modulo(d, v, x_rotation / 90);
    lemma_turns_modulo(dx, vector_turned_x(u, x), y_rotation / 90);
    lemma_turns_modulo(dx, vector_turned_x(v, x), y_rotation / 90);
    lemma_axes_go_to_axes(d, x, y);
    let un = vector_rotated(u, x_rotation, y_rotation);
    let vn = vector_rotated(v, x_rotation, y_rotation);
    let target = rotated(d, x_rotation, y_rotation);
    lemma_axis_has_coefficients(target, un);
    lemma_axis_has_coefficients(target, vn);
}

/// One of the texture axes of a face, or the other way round.
spec fn is_texture_axis(d: Direction, v: Vector) -> bool {
    let (tu, tv) = uv_axes(d);
    v == tu || v == negated(tu) || v == tv || v == negated(tv)
}

#[verifier::rlimit(60)]
proof fn lemma_axes_go_to_axes(d: Direction, x: int, y: int)
    requires
        0 <= x < 4,
        0 <= y < 4,
    ensures
        ({
            let (u, v) = uv_axes(d);
            let target = turned_y(turned_x(d, x), y);
            &&& is_texture_axis(target, vector_turned_y(vector_turned_x(u, x), y))
            &&& is_texture_axis(target, vector_turned_y(vector_turned_x(v, x), y))
        }),
{
    let (u, v) = uv_axes(d);
    let dx = turned_x(d, x);
    lemma_turn_cases(d, u, x);
    lemma_turn_cases(d, v, x);
    lemma_turn_cases(dx, vector_turned_x(u, x), y);
    lemma_turn_cases(dx, vector_turned_x(v, x), y);
    if x == 0 {
    } else if x == 1 {
    } else if x == 2 {
    } else {
    }
    if y == 0 {
    } else if y == 1 {
    } else if y == 2 {
    } else {
    }
}

proof fn lemma_axis_has_coefficients(target: Direction, v: Vector)
    requires
        is_texture_axis(target, v),
    ensures
        ({
            let (tu, tv) = uv_axes(target);
            let (a, b) = (dot(v, tu), dot(v, tv));
            v == (a * tu.0 + b * tv.0, a * tu.1 + b * tv.1, a * tu.2 + b * tv.2)
        }),
{
    let (tu, tv) = uv_axes(target);
    let (a, b) = (dot(v, tu), dot(v, tv));
    lemma_unit_dot_table(v, tu);
    lemma_unit_dot_table(v, tv);
    lemma_unit_scale(a, tu);
    lemma_unit_scale(b, tv);
}

proof fn lemma_unit_scale(a: int, b: Vector)
    requires
        -1 <= a <= 1,
    ensures
        a * b.0 == unit_product(a, b.0),
        a * b.1 == unit_product(a, b.1),
        a * b.2 == unit_product(a, b.2),
{
    lemma_unit_product(a, b.0);
    lemma_unit_product(a, b.1);
    lemma_unit_product(a, b.2);
}

/// A locked texture stays in place: the corner that is put at the minimum is the one
/// that the rotation takes to the minimum corner of the face that it is turned to.
pub proof fn lemma_uvlock_keeps_the_texture_in_place(d: Direction, x_rotation: int, y_rotation: int)
    requires
        x_rotation >= 0,
        y_rotation >= 0,
    ensures
        ({
            let (cu, cv) = uvlock_minimum_corner(d, x_rotation, y_rotation);
            let (u, v) = uv_axes(d);
            let (tu, tv) = uv_axes(rotated(d, x_rotation, y_rotation));
            let ru = vector_rotated(u, x_rotation, y_rotation);
            let rv = vector_rotated(v, x_rotation, y_rotation);
            (cu * ru.0 + cv * rv.0, cu * ru.1 + cv * rv.1, cu * ru.2 + cv * rv.2) == (
                -tu.0 - tv.0,
                -tu.1 - tv.1,
                -tu.2 - tv.2,
            )
        }),
{
    lemma_uvlock_follows_the_axes(d, x_rotation, y_rotation);
    lemma_uvlock_is_quarter_turn(d, x_rotation, y_rotation);
    let f = uvlock_matrix(d, x_rotation, y_rotation);
    let (tu, tv) = uv_axes(rotated(d, x_rotation, y_rotation));
    let ru = vector_rotated(uv_axes(d).0, x_rotation, y_rotation);
    let rv = vector_rotated(uv_axes(d).1, x_rotation, y_rotation);
    lemma_minimum_corner(f, tu.0, tv.0, ru.0, rv.0);
    lemma_minimum_corner(f, tu.1, tv.1, ru.1, rv.1);
    lemma_minimum_corner(f, tu.2, tv.2, ru.2, rv.2);
}

proof fn lemma_minimum_corner(f: (int, int, int, int), tu: int, tv: int, ru: int, rv: int)
    requires
        -1 <= f.0 <= 1,
        -1 <= f.1 <= 1,
        f.3 == f.0,
        f.2 == -f.1,
        f.0 == 0 <==> f.1 != 0,
        ru == f.0 * tu + f.2 * tv,
        rv == f.1 * tu + f.3 * tv,
    ensures
        (-(f.0 + f.2)) * ru + (-(f.1 + f.3)) * rv == -tu - tv,
{
    lemma_unit_product(f.0, tu);
    lemma_unit_product(f.2, tv);
    lemma_unit_product(f.1, tu);
    lemma_unit_product(f.3, tv);
    lemma_unit_product(-(f.0 + f.2), ru);
    lemma_unit_product(-(f.1 + f.3), rv);
}

/// The name across from the name of a face is the name of the face across from it.
pub proof fn lemma_opposite_names_name_opposites(facing: Seq<char>)
    requires
        direction_named(facing) is Some,
    ensures
        direction_named(opposite_name(facing)) == Some(direction_named(facing)->Some_0.opposite()),
{
    reveal_strlit("north");
    reveal_strlit("south");
    reveal_strlit("east");
    reveal_strlit("west");
    reveal_strlit("up");
    reveal_strlit("down");
    assert("north"@[0] == 'n' && "south"@[0] == 's' && "east"@[0] == 'e' && "west"@[0] == 'w'
        && "up"@[0] == 'u' && "down"@[0] == 'd');
}

} // verus!
