//! Signed axis directions, rotations about the axes, and the small integer
//! vectors that connect the two.

use vstd::prelude::*;

verus! {

/// A vector of three whole numbers.
#[derive(Debug, Clone, Copy, PartialEq, Eq, Structural)]
pub struct Vec3i {
    pub x: i32,
    pub y: i32,
    pub z: i32,
}

/// Largest magnitude of a component for which `Vec3i::cross` stays inside `i32`.
pub const CROSS_LIMIT: i32 = 0x7fff;

impl Vec3i {
    pub fn new(x: i32, y: i32, z: i32) -> (v: Vec3i)
        ensures
            v == (Vec3i { x, y, z }),
    {
        Vec3i { x, y, z }
    }

    /// The component on axis `i` (0 for x, 1 for y, anything else for z).
    pub open spec fn spec_component(self, i: int) -> int {
        if i == 0 {
            self.x as int
        } else if i == 1 {
            self.y as int
        } else {
            self.z as int
        }
    }

    pub fn component(&self, i: u32) -> (c: i32)
        requires
            i < 3,
        ensures
            c == self.spec_component(i as int),
    {
        if i == 0 {
            self.x
        } else if i == 1 {
            self.y
        } else {
            self.z
        }
    }

    /// Every component lies within `CROSS_LIMIT` of zero.
    pub open spec fn is_small(self) -> bool {
        &&& -CROSS_LIMIT <= self.x <= CROSS_LIMIT
        &&& -CROSS_LIMIT <= self.y <= CROSS_LIMIT
        &&& -CROSS_LIMIT <= self.z <= CROSS_LIMIT
    }

    /// The three components of the vector product, as unbounded integers.
    pub open spec fn spec_cross(self, other: Vec3i) -> (int, int, int) {
        (
            self.y * other.z - self.z * other.y,
            self.z * other.x - self.x * other.z,
            self.x * other.y - self.y * other.x,
        )
    }

    /// Vector product.
    pub fn cross(&self, other: Vec3i) -> (v: Vec3i)
        requires
            self.is_small(),
            other.is_small(),
        ensures
            (v.x as int, v.y as int, v.z as int) == self.spec_cross(other),
    {
        proof {
            lemma_product_bound(self.y as int, other.z as int);
            lemma_product_bound(self.z as int, other.y as int);
            lemma_product_bound(self.z as int, other.x as int);
            lemma_product_bound(self.x as int, other.z as int);
            lemma_product_bound(self.x as int, other.y as int);
            lemma_product_bound(self.y as int, other.x as int);
        }
        Vec3i {
            x: self.y * other.z - self.z * other.y,
            y: self.z * other.x - self.x * other.z,
            z: self.x * other.y - self.y * other.x,
        }
    }
}

proof fn lemma_product_bound(a: int, b: int)
    requires
        -CROSS_LIMIT <= a <= CROSS_LIMIT,
        -CROSS_LIMIT <= b <= CROSS_LIMIT,
    ensures
        -CROSS_LIMIT * CROSS_LIMIT <= a * b <= CROSS_LIMIT * CROSS_LIMIT,
{
    assert(-CROSS_LIMIT * CROSS_LIMIT <= a * b <= CROSS_LIMIT * CROSS_LIMIT) by (nonlinear_arith)
        requires
            -CROSS_LIMIT <= a <= CROSS_LIMIT,
            -CROSS_LIMIT <= b <= CROSS_LIMIT,
    ;
}

/// Index of the first component of `v` that is not zero, in the order x, y, z.
pub open spec fn spec_first_nonzero_component(v: Vec3i) -> Option<u32> {
    if v.x != 0 {
        Some(0u32)
    } else if v.y != 0 {
        Some(1u32)
    } else if v.z != 0 {
        Some(2u32)
    } else {
        None
    }
}

/// The first non-zero component of `v` in the order x, y, z, or `None` for the zero vector.
pub fn first_nonzero_component(v: Vec3i) -> (r: Option<u32>)
    ensures
        r == spec_first_nonzero_component(v),
{
    if v.x != 0 {
        return Some(0);
    }
    if v.y != 0 {
        return Some(1);
    }
    if v.z != 0 {
        return Some(2);
    }
    None
}

/// The indices of the non-zero components of `v`, in increasing order.
pub open spec fn spec_nonzero_components(v: Vec3i) -> Seq<u32> {
    Seq::new(3, |i: int| i as u32).filter(|i: u32| v.spec_component(i as int) != 0)
}

/// How many components of `v` are not zero.
pub open spec fn spec_nonzero_count(v: Vec3i) -> int {
    (if v.x != 0 { 1int } else { 0 }) + (if v.y != 0 { 1int } else { 0 }) + (if v.z != 0 { 1int } else { 0 })
}

/// The indices of the non-zero components of `v`, in increasing order.
pub fn nonzero_components(v: Vec3i) -> (r: Vec<u32>)
    ensures
        r@ == spec_nonzero_components(v),
        r@.len() == spec_nonzero_count(v),
{
    let mut output: Vec<u32> = Vec::new();
    let ghost all = Seq::new(3, |i: int| i as u32);
    let ghost keep = |i: u32| v.spec_component(i as int) != 0;
    let mut i: u32 = 0;
    proof {
        assert(all.subrange(0, 0) =~= Seq::<u32>::empty());
        assert(all.subrange(0, 0).filter(keep) =~= Seq::<u32>::empty()) by {
            reveal(Seq::filter);
        }
    }
    while i < 3
        invariant
            i <= 3,
            all == Seq::new(3, |i: int| i as u32),
            keep == (|i: u32| v.spec_component(i as int) != 0),
            output@ == all.subrange(0, i as int).filter(keep),
            output@.len() == (if i > 0 && v.x != 0 { 1int } else { 0 }) + (if i > 1 && v.y != 0 {
                1int
            } else {
                0
            }) + (if i > 2 && v.z != 0 { 1int } else { 0 }),
        decreases 3 - i,
    {
        proof {
            assert(all.subrange(0, i + 1) =~= all.subrange(0, i as int).push(i));
            lemma_filter_push(all.subrange(0, i as int), i, keep);
        }
        if v.component(i) != 0 {
            output.push(i);
        }
        i += 1;
    }
    proof {
        assert(all.subrange(0, 3) =~= all);
    }
    output
}

/// Filtering a sequence extended by one element either keeps that element or does not.
pub proof fn lemma_filter_push<A>(s: Seq<A>, a: A, keep: spec_fn(A) -> bool)
    ensures
        s.push(a).filter(keep) == if keep(a) {
            s.filter(keep).push(a)
        } else {
            s.filter(keep)
        },
{
    reveal(Seq::filter);
    assert(s.push(a).drop_last() =~= s);
}

/// One of the six signed unit-axis directions.
#[derive(Debug, Clone, Copy, PartialEq, Eq, Structural)]
pub enum CartesianDirection {
    X,
    NegX,
    Y,
    NegY,
    Z,
    NegZ,
}

impl CartesianDirection {
    /// The direction on axis `axis_num`, pointing up the axis if `is_positive`.
    pub open spec fn spec_from_axis_num(axis_num: int, is_positive: bool) -> Self {
        if axis_num == 0 {
            if is_positive {
                Self::X
            } else {
                Self::NegX
            }
        } else if axis_num == 1 {
            if is_positive {
                Self::Y
            } else {
                Self::NegY
            }
        } else {
            if is_positive {
                Self::Z
            } else {
                Self::NegZ
            }
        }
    }

    /// The direction on axis `axis_num` (0 for x, 1 for y, 2 for z), pointing up the axis if
    /// `is_positive` and down it otherwise.
    pub fn from_axis_num(axis_num: u32, is_positive: bool) -> (d: Self)
        requires
            axis_num < 3,
        ensures
            d == Self::spec_from_axis_num(axis_num as int, is_positive),
            d.spec_axis_num() == axis_num,
            d.spec_is_negative() == !is_positive,
    {
        let mut output = if axis_num == 0 {
            Self::X
        } else if axis_num == 1 {
            Self::Y
        } else {
            Self::Z
        };
        if !is_positive {
            output = output.opposite();
        }
        output
    }

    /// The direction a vector points in, if it lies along a single axis.
    pub open spec fn spec_from_vec3i(vec: Vec3i) -> Option<Self> {
        if spec_nonzero_count(vec) != 1 {
            None
        } else if vec.x != 0 {
            Some(Self::spec_from_axis_num(0, vec.x > 0))
        } else if vec.y != 0 {
            Some(Self::spec_from_axis_num(1, vec.y > 0))
        } else {
            Some(Self::spec_from_axis_num(2, vec.z > 0))
        }
    }

    /// The direction of a vector with exactly one non-zero component; `None` for every other
    /// vector.
    pub fn from_vec3i(vec: Vec3i) -> (r: Option<Self>)
        ensures
            r == Self::spec_from_vec3i(vec),
    {
        if nonzero_components(vec).len() != 1 {
            return None;
        }
        match first_nonzero_component(vec) {
            None => None,
            Some(axis_num) => Some(Self::from_axis_num(axis_num, vec.component(axis_num) > 0)),
        }
    }

    /// The unit vector of the direction.
    pub open spec fn spec_as_vec3i(&self) -> Vec3i {
        match self {
            Self::X => Vec3i { x: 1, y: 0, z: 0 },
            Self::NegX => Vec3i { x: -1i32, y: 0, z: 0 },
            Self::Y => Vec3i { x: 0, y: 1, z: 0 },
            Self::NegY => Vec3i { x: 0, y: -1i32, z: 0 },
            Self::Z => Vec3i { x: 0, y: 0, z: 1 },
            Self::NegZ => Vec3i { x: 0, y: 0, z: -1i32 },
        }
    }

    /// The unit vector of the direction.
    #[verifier::when_used_as_spec(spec_as_vec3i)]
    pub fn as_vec3i(&self) -> (v: Vec3i)
        ensures
            v == self.spec_as_vec3i(),
    {
        match self {
            Self::X => Vec3i { x: 1, y: 0, z: 0 },
            Self::NegX => Vec3i { x: -1, y: 0, z: 0 },
            Self::Y => Vec3i { x: 0, y: 1, z: 0 },
            Self::NegY => Vec3i { x: 0, y: -1, z: 0 },
            Self::Z => Vec3i { x: 0, y: 0, z: 1 },
            Self::NegZ => Vec3i { x: 0, y: 0, z: -1 },
        }
    }

    /// Whether the direction points down its axis.
    pub open spec fn spec_is_negative(&self) -> bool {
        match self {
            Self::X | Self::Y | Self::Z => false,
            Self::NegX | Self::NegY | Self::NegZ => true,
        }
    }

    /// Whether the direction points down its axis.
    #[verifier::when_used_as_spec(spec_is_negative)]
    pub fn is_negative(&self) -> (b: bool)
        ensures
            b == self.spec_is_negative(),
    {
        match self {
            Self::X | Self::Y | Self::Z => false,
            Self::NegX | Self::NegY | Self::NegZ => true,
        }
    }

    /// The positive direction on the same axis.
    pub open spec fn spec_abs(&self) -> CartesianDirection {
        match self {
            Self::X | Self::NegX => Self::X,
            Self::Y | Self::NegY => Self::Y,
            Self::Z | Self::NegZ => Self::Z,
        }
    }

    /// The positive direction on the same axis.
    #[verifier::when_used_as_spec(spec_abs)]
    pub fn abs(&self) -> (d: CartesianDirection)
        ensures
            d == self.spec_abs(),
    {
        match self {
            Self::X | Self::NegX => Self::X,
            Self::Y | Self::NegY => Self::Y,
            Self::Z | Self::NegZ => Self::Z,
        }
    }

    /// Whether both directions lie on the same axis.
    pub open spec fn spec_is_parallel_to(&self, other: CartesianDirection) -> bool {
        self.spec_axis_num() == other.spec_axis_num()
    }

    /// Whether both directions lie on the same axis.
    #[verifier::when_used_as_spec(spec_is_parallel_to)]
    pub fn is_parallel_to(&self, other: CartesianDirection) -> (b: bool)
        ensures
            b == self.spec_is_parallel_to(other),
    {
        self.abs() == other.abs()
    }

    /// Index of the axis the direction lies on: 0 for x, 1 for y, 2 for z.
    pub open spec fn spec_axis_num(&self) -> u32 {
        match self {
            Self::X | Self::NegX => 0,
            Self::Y | Self::NegY => 1,
            Self::Z | Self::NegZ => 2,
        }
    }

    /// Index of the axis the direction lies on: 0 for x, 1 for y, 2 for z.
    #[verifier::when_used_as_spec(spec_axis_num)]
    pub fn axis_num(&self) -> (n: u32)
        ensures
            n == self.spec_axis_num(),
    {
        match self {
            Self::X | Self::NegX => 0,
            Self::Y | Self::NegY => 1,
            Self::Z | Self::NegZ => 2,
        }
    }

    /// The direction on the same axis with the other sign.
    pub open spec fn spec_opposite(&self) -> CartesianDirection {
        match self {
            Self::X => Self::NegX,
            Self::NegX => Self::X,
            Self::Y => Self::NegY,
            Self::NegY => Self::Y,
            Self::Z => Self::NegZ,
            Self::NegZ => Self::Z,
        }
    }

    /// The direction on the same axis with the other sign.
    #[must_use]
    #[verifier::when_used_as_spec(spec_opposite)]
    pub fn opposite(&self) -> (d: CartesianDirection)
        ensures
            d == self.spec_opposite(),
    {
        match self {
            Self::X => Self::NegX,
            Self::NegX => Self::X,
            Self::Y => Self::NegY,
            Self::NegY => Self::Y,
            Self::Z => Self::NegZ,
            Self::NegZ => Self::Z,
        }
    }

    /// The direction of the vector product of the two unit vectors, which exists exactly when
    /// the two directions lie on different axes. It lies on the third axis; it is positive
    /// when the operands have the same sign and their axes follow one another in the order
    /// x, y, z, x, and also when neither is the case.
    pub open spec fn spec_cross(&self, other: CartesianDirection) -> Option<CartesianDirection> {
        let a = self.spec_axis_num() as int;
        let b = other.spec_axis_num() as int;
        if a == b {
            None
        } else {
            let in_order = b == a + 1 || b == a - 2;
            let same_sign = self.spec_is_negative() == other.spec_is_negative();
            Some(Self::spec_from_axis_num(3 - a - b, same_sign == in_order))
        }
    }

    /// The vector product of the two directions by the right-hand rule, or `None` if they lie
    /// on the same axis.
    #[verifier::when_used_as_spec(spec_cross)]
    pub fn cross(&self, other: CartesianDirection) -> (r: Option<CartesianDirection>)
        ensures
            r == self.spec_cross(other),
            r is Some <==> !self.spec_is_parallel_to(other),
            r matches Some(d) ==> !d.spec_is_parallel_to(*self) && !d.spec_is_parallel_to(other),
    {
        if self.is_parallel_to(other) {
            return None;
        }
        proof {
            lemma_cross_is_vector_product(*self, other);
        }
        Self::from_vec3i(self.as_vec3i().cross(other.as_vec3i()))
    }

    /// The positive direction on the axis at right angles to both directions, or `None` if
    /// they lie on the same axis.
    pub open spec fn spec_get_perpendicular_axis(&self, other: CartesianDirection) -> Option<
        CartesianDirection,
    > {
        match self.spec_cross(other) {
            Some(d) => Some(d.spec_abs()),
            None => None,
        }
    }

    /// The positive direction on the axis at right angles to both directions, or `None` if
    /// they lie on the same axis.
    #[verifier::when_used_as_spec(spec_get_perpendicular_axis)]
    pub fn get_perpendicular_axis(&self, other: CartesianDirection) -> (r: Option<
        CartesianDirection,
    >)
        ensures
            r == self.spec_get_perpendicular_axis(other),
            r is Some <==> !self.spec_is_parallel_to(other),
            r matches Some(d) ==> !d.spec_is_parallel_to(*self) && !d.spec_is_parallel_to(other)
                && !d.spec_is_negative(),
    {
        match self.cross(other) {
            Some(d) => Some(d.abs()),
            None => None,
        }
    }

    /// The six directions in their fixed order.
    pub open spec fn spec_directions() -> Seq<CartesianDirection> {
        seq![Self::X, Self::NegX, Self::Y, Self::NegY, Self::Z, Self::NegZ]
    }

    /// The six directions: each axis in turn, positive before negative.
    pub fn directions() -> (r: [CartesianDirection; 6])
        ensures
            r@ == Self::spec_directions(),
    {
        let r = [Self::X, Self::NegX, Self::Y, Self::NegY, Self::Z, Self::NegZ];
        assert(r@ =~= Self::spec_directions());
        r
    }

    /// The twelve diagonals in their fixed order.
    pub open spec fn spec_diagonals() -> Seq<(CartesianDirection, CartesianDirection)> {
        seq![
            (Self::X, Self::Y),
            (Self::X, Self::NegY),
            (Self::X, Self::Z),
            (Self::X, Self::NegZ),
            (Self::NegX, Self::Y),
            (Self::NegX, Self::NegY),
            (Self::NegX, Self::Z),
            (Self::NegX, Self::NegZ),
            (Self::Y, Self::Z),
            (Self::Y, Self::NegZ),
            (Self::NegY, Self::Z),
            (Self::NegY, Self::NegZ),
        ]
    }

    /// The twelve pairs of directions on different axes, each unordered pair listed once:
    /// the pairs are taken in the order of `directions`, and a pair is left out when it or
    /// its mirror image is already listed.
    pub fn diagonals() -> (r: [(CartesianDirection, CartesianDirection); 12])
        ensures
            r@ == Self::spec_diagonals(),
    {
        let r = [
            (Self::X, Self::Y),
            (Self::X, Self::NegY),
            (Self::X, Self::Z),
            (Self::X, Self::NegZ),
            (Self::NegX, Self::Y),
            (Self::NegX, Self::NegY),
            (Self::NegX, Self::Z),
            (Self::NegX, Self::NegZ),
            (Self::Y, Self::Z),
            (Self::Y, Self::NegZ),
            (Self::NegY, Self::Z),
            (Self::NegY, Self::NegZ),
        ];
        assert(r@ =~= Self::spec_diagonals());
        r
    }
}

/// The opposite of an opposite is the direction itself, and it never equals it.
pub proof fn lemma_opposite_involution(d: CartesianDirection)
    ensures
        d.spec_opposite().spec_opposite() == d,
        d.spec_opposite() != d,
        d.spec_opposite().spec_is_parallel_to(d),
        d.spec_opposite().spec_is_negative() == !d.spec_is_negative(),
{
}

/// The direction that `spec_cross` gives is the one whose unit vector is the vector product of
/// the operands' unit vectors.
pub proof fn lemma_cross_is_vector_product(a: CartesianDirection, b: CartesianDirection)
    requires
        !a.spec_is_parallel_to(b),
    ensures
        a.spec_cross(b) matches Some(c) && ({
            let v = c.spec_as_vec3i();
            (v.x as int, v.y as int, v.z as int) == a.spec_as_vec3i().spec_cross(b.spec_as_vec3i())
        }),
        ({
            let (x, y, z) = a.spec_as_vec3i().spec_cross(b.spec_as_vec3i());
            -1 <= x <= 1 && -1 <= y <= 1 && -1 <= z <= 1 && CartesianDirection::spec_from_vec3i(
                Vec3i { x: x as i32, y: y as i32, z: z as i32 },
            ) == a.spec_cross(b)
        }),
{
    let va = a.spec_as_vec3i();
    let vb = b.spec_as_vec3i();
    assert(va.y * vb.z == if va.y == 0 || vb.z == 0 {
        0int
    } else if va.y == vb.z {
        1int
    } else {
        -1int
    }) by (nonlinear_arith)
        requires
            -1 <= va.y <= 1,
            -1 <= vb.z <= 1,
    ;
    assert(va.z * vb.y == if va.z == 0 || vb.y == 0 {
        0int
    } else if va.z == vb.y {
        1int
    } else {
        -1int
    }) by (nonlinear_arith)
        requires
            -1 <= va.z <= 1,
            -1 <= vb.y <= 1,
    ;
    assert(va.z * vb.x == if va.z == 0 || vb.x == 0 {
        0int
    } else if va.z == vb.x {
        1int
    } else {
        -1int
    }) by (nonlinear_arith)
        requires
            -1 <= va.z <= 1,
            -1 <= vb.x <= 1,
    ;
    assert(va.x * vb.z == if va.x == 0 || vb.z == 0 {
        0int
    } else if va.x == vb.z {
        1int
    } else {
        -1int
    }) by (nonlinear_arith)
        requires
            -1 <= va.x <= 1,
            -1 <= vb.z <= 1,
    ;
    assert(va.x * vb.y == if va.x == 0 || vb.y == 0 {
        0int
    } else if va.x == vb.y {
        1int
    } else {
        -1int
    }) by (nonlinear_arith)
        requires
            -1 <= va.x <= 1,
            -1 <= vb.y <= 1,
    ;
    assert(va.y * vb.x == if va.y == 0 || vb.x == 0 {
        0int
    } else if va.y == vb.x {
        1int
    } else {
        -1int
    }) by (nonlinear_arith)
        requires
            -1 <= va.y <= 1,
            -1 <= vb.x <= 1,
    ;
}

/// Swapping the operands of the vector product reverses it, and the product is at right
/// angles to both operands.
pub proof fn lemma_cross_antisymmetric(a: CartesianDirection, b: CartesianDirection)
    ensures
        a.spec_cross(b) is Some <==> !a.spec_is_parallel_to(b),
        a.spec_cross(b) matches Some(c) ==> {
            &&& b.spec_cross(a) == Some(c.spec_opposite())
            &&& !c.spec_is_parallel_to(a)
            &&& !c.spec_is_parallel_to(b)
        },
{
}

/// Every two directions on different axes form exactly one diagonal: the list holds the pair
/// in one order and not in the other, holds nothing twice, and holds no pair on one axis.
pub proof fn lemma_diagonals_cover(a: CartesianDirection, b: CartesianDirection)
    ensures
        CartesianDirection::spec_diagonals().no_duplicates(),
        !a.spec_is_parallel_to(b) ==> (CartesianDirection::spec_diagonals().contains((a, b))
            != CartesianDirection::spec_diagonals().contains((b, a))),
        a.spec_is_parallel_to(b) ==> !CartesianDirection::spec_diagonals().contains((a, b)),
{
    let s = CartesianDirection::spec_diagonals();
    assert(s.len() == 12);
    assert(s[0] == (CartesianDirection::X, CartesianDirection::Y));
    assert(s[1] == (CartesianDirection::X, CartesianDirection::NegY));
    assert(s[2] == (CartesianDirection::X, CartesianDirection::Z));
    assert(s[3] == (CartesianDirection::X, CartesianDirection::NegZ));
    assert(s[4] == (CartesianDirection::NegX, CartesianDirection::Y));
    assert(s[5] == (CartesianDirection::NegX, CartesianDirection::NegY));
    assert(s[6] == (CartesianDirection::NegX, CartesianDirection::Z));
    assert(s[7] == (CartesianDirection::NegX, CartesianDirection::NegZ));
    assert(s[8] == (CartesianDirection::Y, CartesianDirection::Z));
    assert(s[9] == (CartesianDirection::Y, CartesianDirection::NegZ));
    assert(s[10] == (CartesianDirection::NegY, CartesianDirection::Z));
    assert(s[11] == (CartesianDirection::NegY, CartesianDirection::NegZ));
}

/// One of the six ways of walking round the cube: clockwise or counterclockwise about one
/// of the three axes.
#[derive(Debug, Clone, Copy, PartialEq, Eq, Structural)]
pub enum RadialDirection {
    ClockwiseX,
    CounterX,
    ClockwiseY,
    CounterY,
    ClockwiseZ,
    CounterZ,
}

impl RadialDirection {
    /// The two face normals on which a clockwise walk about this axis heads towards smaller
    /// coordinates.
    pub open spec fn spec_negate_movement_on(&self) -> Seq<CartesianDirection> {
        match self {
            Self::ClockwiseX | Self::CounterX => seq![
                CartesianDirection::Y,
                CartesianDirection::NegZ,
            ],
            Self::ClockwiseY | Self::CounterY => seq![
                CartesianDirection::NegX,
                CartesianDirection::Z,
            ],
            Self::ClockwiseZ | Self::CounterZ => seq![
                CartesianDirection::X,
                CartesianDirection::NegY,
            ],
        }
    }

    /// The two face normals on which a clockwise walk about this axis heads towards smaller
    /// coordinates.
    pub fn negate_movement_on(&self) -> (r: [CartesianDirection; 2])
        ensures
            r@ == self.spec_negate_movement_on(),
    {
        let r = match self {
            Self::ClockwiseX | Self::CounterX => [CartesianDirection::Y, CartesianDirection::NegZ],
            Self::ClockwiseY | Self::CounterY => [CartesianDirection::NegX, CartesianDirection::Z],
            Self::ClockwiseZ | Self::CounterZ => [CartesianDirection::X, CartesianDirection::NegY],
        };
        assert(r@ =~= self.spec_negate_movement_on());
        r
    }

    /// Whether the walk goes counterclockwise.
    pub open spec fn spec_is_counterclockwise(&self) -> bool {
        match self {
            Self::ClockwiseX | Self::ClockwiseY | Self::ClockwiseZ => false,
            Self::CounterX | Self::CounterY | Self::CounterZ => true,
        }
    }

    /// Whether the walk goes counterclockwise.
    #[verifier::when_used_as_spec(spec_is_counterclockwise)]
    pub fn is_counterclockwise(&self) -> (b: bool)
        ensures
            b == self.spec_is_counterclockwise(),
    {
        match self {
            Self::ClockwiseX | Self::ClockwiseY | Self::ClockwiseZ => false,
            Self::CounterX | Self::CounterY | Self::CounterZ => true,
        }
    }

    /// The axis of the rotation: positive for a clockwise walk, negative for a
    /// counterclockwise one.
    pub open spec fn spec_rotation_axis(&self) -> CartesianDirection {
        match self {
            Self::ClockwiseX => CartesianDirection::X,
            Self::CounterX => CartesianDirection::NegX,
            Self::ClockwiseY => CartesianDirection::Y,
            Self::CounterY => CartesianDirection::NegY,
            Self::ClockwiseZ => CartesianDirection::Z,
            Self::CounterZ => CartesianDirection::NegZ,
        }
    }

    /// The axis of the rotation: positive for a clockwise walk, negative for a
    /// counterclockwise one.
    #[verifier::when_used_as_spec(spec_rotation_axis)]
    pub fn rotation_axis(&self) -> (d: CartesianDirection)
        ensures
            d == self.spec_rotation_axis(),
    {
        match self {
            Self::ClockwiseX => CartesianDirection::X,
            Self::CounterX => CartesianDirection::NegX,
            Self::ClockwiseY => CartesianDirection::Y,
            Self::CounterY => CartesianDirection::NegY,
            Self::ClockwiseZ => CartesianDirection::Z,
            Self::CounterZ => CartesianDirection::NegZ,
        }
    }

    /// The walk about the same axis the other way round.
    pub open spec fn spec_opposite(&self) -> RadialDirection {
        match self {
            Self::ClockwiseX => Self::CounterX,
            Self::CounterX => Self::ClockwiseX,
            Self::ClockwiseY => Self::CounterY,
            Self::CounterY => Self::ClockwiseY,
            Self::ClockwiseZ => Self::CounterZ,
            Self::CounterZ => Self::ClockwiseZ,
        }
    }

    /// The walk about the same axis the other way round.
    #[verifier::when_used_as_spec(spec_opposite)]
    pub fn opposite(&self) -> (r: RadialDirection)
        ensures
            r == self.spec_opposite(),
    {
        match self {
            Self::ClockwiseX => Self::CounterX,
            Self::CounterX => Self::ClockwiseX,
            Self::ClockwiseY => Self::CounterY,
            Self::CounterY => Self::ClockwiseY,
            Self::ClockwiseZ => Self::CounterZ,
            Self::CounterZ => Self::ClockwiseZ,
        }
    }

    /// Whether the walk heads towards smaller coordinates on the face with the given normal.
    pub open spec fn spec_heads_down(self, normal: CartesianDirection) -> bool {
        (self.spec_negate_movement_on()[0] == normal || self.spec_negate_movement_on()[1]
            == normal) != self.spec_is_counterclockwise()
    }

    /// The direction in which the walk leaves a cell of the face with the given normal:
    /// the vector product of the normal and the rotation axis.
    pub open spec fn spec_to_cartesian_direction(self, normal: CartesianDirection) -> Option<
        CartesianDirection,
    > {
        normal.spec_cross(self.spec_rotation_axis())
    }

    /// The direction in which the walk leaves a cell of the face with the given normal, or
    /// `None` on the two faces that the rotation axis passes through.
    ///
    /// The direction is found as the one that lies neither on the normal's axis nor on the
    /// rotation's, and whose sign the table of `negate_movement_on` gives; the contract states
    /// that this is the vector product of the normal and the rotation axis.
    #[verifier::when_used_as_spec(spec_to_cartesian_direction)]
    pub fn to_cartesian_direction(self, normal: CartesianDirection) -> (r: Option<
        CartesianDirection,
    >)
        ensures
            r == self.spec_to_cartesian_direction(normal),
            r is Some <==> !normal.spec_is_parallel_to(self.spec_rotation_axis()),
            r matches Some(d) ==> !d.spec_is_parallel_to(normal) && !d.spec_is_parallel_to(
                self.spec_rotation_axis(),
            ),
    {
        if normal.is_parallel_to(self.rotation_axis()) {
            return None;
        }
        let mut negate = false;
        let negate_movement_on_axes = self.negate_movement_on();
        let mut k: usize = 0;
        while k < 2
            invariant
                k <= 2,
                negate_movement_on_axes@ == self.spec_negate_movement_on(),
                negate == exists|j: int| 0 <= j < k && negate_movement_on_axes@[j] == normal,
            decreases 2 - k,
        {
            if normal == negate_movement_on_axes[k] {
                negate = true;
            }
            k += 1;
        }
        assert(negate == (self.spec_negate_movement_on()[0] == normal
            || self.spec_negate_movement_on()[1] == normal));
        if self.is_counterclockwise() {
            negate = !negate;
        }
        assert(negate == self.spec_heads_down(normal));
        let directions = CartesianDirection::directions();
        let mut i: usize = 0;
        while i < 6
            invariant
                i <= 6,
                !normal.spec_is_parallel_to(self.spec_rotation_axis()),
                negate == self.spec_heads_down(normal),
                directions@ == CartesianDirection::spec_directions(),
                forall|j: int|
                    0 <= j < i ==> !(!(#[trigger] directions@[j]).spec_is_parallel_to(normal)
                        && !directions@[j].spec_is_parallel_to(self.spec_rotation_axis())
                        && directions@[j].spec_is_negative() == negate),
            decreases 6 - i,
        {
            let dir = directions[i];
            if !dir.is_parallel_to(normal.abs()) && !dir.is_parallel_to(self.rotation_axis())
                && dir.is_negative() == negate {
                proof {
                    lemma_walk_direction_is_cross(self, normal, dir);
                }
                return Some(dir);
            }
            i += 1;
        }
        proof {
            let s = CartesianDirection::spec_directions();
            assert(s[0] == CartesianDirection::X && s[1] == CartesianDirection::NegX);
            assert(s[2] == CartesianDirection::Y && s[3] == CartesianDirection::NegY);
            assert(s[4] == CartesianDirection::Z && s[5] == CartesianDirection::NegZ);
        }
        None
    }

    /// The six walks in their fixed order.
    pub open spec fn spec_directions() -> Seq<RadialDirection> {
        seq![
            Self::ClockwiseX,
            Self::CounterX,
            Self::ClockwiseY,
            Self::CounterY,
            Self::ClockwiseZ,
            Self::CounterZ,
        ]
    }

    /// The six walks: each axis in turn, clockwise before counterclockwise.
    pub fn directions() -> (r: [RadialDirection; 6])
        ensures
            r@ == Self::spec_directions(),
    {
        let r = [
            Self::ClockwiseX,
            Self::CounterX,
            Self::ClockwiseY,
            Self::CounterY,
            Self::ClockwiseZ,
            Self::CounterZ,
        ];
        assert(r@ =~= Self::spec_directions());
        r
    }
}

/// On a face that the rotation axis does not pass through, the one direction that lies on
/// neither the normal's axis nor the rotation's and has the sign that the walk calls for is the
/// vector product of the normal and the rotation axis.
proof fn lemma_walk_direction_is_cross(
    radial: RadialDirection,
    normal: CartesianDirection,
    dir: CartesianDirection,
)
    requires
        !normal.spec_is_parallel_to(radial.spec_rotation_axis()),
        !dir.spec_is_parallel_to(normal),
        !dir.spec_is_parallel_to(radial.spec_rotation_axis()),
        dir.spec_is_negative() == radial.spec_heads_down(normal),
    ensures
        normal.spec_cross(radial.spec_rotation_axis()) == Some(dir),
{
    let table = radial.spec_negate_movement_on();
    assert(table.len() == 2);
    match radial {
        RadialDirection::ClockwiseX | RadialDirection::CounterX => {
            assert(table[0] == CartesianDirection::Y && table[1] == CartesianDirection::NegZ);
        },
        RadialDirection::ClockwiseY | RadialDirection::CounterY => {
            assert(table[0] == CartesianDirection::NegX && table[1] == CartesianDirection::Z);
        },
        RadialDirection::ClockwiseZ | RadialDirection::CounterZ => {
            assert(table[0] == CartesianDirection::X && table[1] == CartesianDirection::NegY);
        },
    }
}

/// Walking the other way round leaves every face in the opposite direction.
pub proof fn lemma_radial_opposite(radial: RadialDirection, normal: CartesianDirection)
    ensures
        radial.spec_opposite().spec_opposite() == radial,
        radial.spec_opposite().spec_rotation_axis() == radial.spec_rotation_axis().spec_opposite(),
        radial.spec_to_cartesian_direction(normal) matches Some(d) ==> radial.spec_opposite().spec_to_cartesian_direction(
            normal,
        ) == Some(d.spec_opposite()),
{
    match normal {
        CartesianDirection::X => {},
        CartesianDirection::NegX => {},
        CartesianDirection::Y => {},
        CartesianDirection::NegY => {},
        CartesianDirection::Z => {},
        CartesianDirection::NegZ => {},
    }
}

/// A sign for each of the three axes, naming a diagonal on whichever face it is used.
#[derive(Debug, Clone, Copy, PartialEq, Eq, Structural)]
pub struct RadialDiagonal(pub bool, pub bool, pub bool);

} // verus!
