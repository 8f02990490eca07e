use vstd::prelude::*;
use vstd::std_specs::cmp::PartialOrdSpec;

verus! {

/// Vector used for 4D math with integer coordinates.
///
/// A 4-element structure that can represent 4D grid coordinates or sets of
/// integers. Every 4-tuple of `i32` values is a valid vector; there are no
/// hidden fields or invalid states.
///
/// Layout contract: engine interop reads the four fields in declaration
/// order as four contiguous 32-bit integers. Adding, removing or reordering
/// fields is a breaking change for that boundary and must not be done
/// silently.
#[derive(Clone, Copy, PartialEq, Eq, Structural, Hash, Debug, Ord)]
pub struct Vector4i {
    /// The vector's X component.
    pub x: i32,
    /// The vector's Y component.
    pub y: i32,
    /// The vector's Z component.
    pub z: i32,
    /// The vector's W component.
    pub w: i32,
}

/// Enumerates the axes in a [`Vector4i`], one per component in declaration
/// order.
#[derive(Clone, Copy, PartialEq, Eq, Structural, Hash, Debug, PartialOrd, Ord)]
pub enum Vector4iAxis {
    /// The X axis.
    X,
    /// The Y axis.
    Y,
    /// The Z axis.
    Z,
    /// The W axis.
    W,
}

impl View for Vector4i {
    type V = Seq<i32>;

    open spec fn view(&self) -> Seq<i32> {
        seq![self.x, self.y, self.z, self.w]
    }
}

impl Vector4iAxis {
    /// The position of this axis's component inside the vector's view.
    pub open spec fn index_of(self) -> int {
        match self {
            Vector4iAxis::X => 0,
            Vector4iAxis::Y => 1,
            Vector4iAxis::Z => 2,
            Vector4iAxis::W => 3,
        }
    }
}

impl Vector4i {
    /// Returns a `Vector4i` with the given components.
    pub fn new(x: i32, y: i32, z: i32, w: i32) -> (r: Self)
        ensures
            r == (Vector4i { x, y, z, w }),
    {
        Vector4i { x, y, z, w }
    }

    /// Constructs a new `Vector4i` with all components set to `v`.
    pub fn splat(v: i32) -> (r: Self)
        ensures
            r == (Vector4i { x: v, y: v, z: v, w: v }),
    {
        Vector4i { x: v, y: v, z: v, w: v }
    }

    /// Zero vector, a vector with all components set to `0`.
    pub fn zero() -> (r: Self)
        ensures
            r == (Vector4i { x: 0, y: 0, z: 0, w: 0 }),
    {
        Vector4i { x: 0, y: 0, z: 0, w: 0 }
    }

    /// One vector, a vector with all components set to `1`.
    pub fn one() -> (r: Self)
        ensures
            r == (Vector4i { x: 1, y: 1, z: 1, w: 1 }),
    {
        Vector4i { x: 1, y: 1, z: 1, w: 1 }
    }

    /// Per-component minimum of `self` and `b`.
    pub fn coord_min(self, b: Self) -> (r: Self)
        ensures
            r.x == if self.x <= b.x { self.x } else { b.x },
            r.y == if self.y <= b.y { self.y } else { b.y },
            r.z == if self.z <= b.z { self.z } else { b.z },
            r.w == if self.w <= b.w { self.w } else { b.w },
    {
        Vector4i {
            x: if self.x <= b.x { self.x } else { b.x },
            y: if self.y <= b.y { self.y } else { b.y },
            z: if self.z <= b.z { self.z } else { b.z },
            w: if self.w <= b.w { self.w } else { b.w },
        }
    }

    /// Per-component maximum of `self` and `b`.
    pub fn coord_max(self, b: Self) -> (r: Self)
        ensures
            r.x == if self.x >= b.x { self.x } else { b.x },
            r.y == if self.y >= b.y { self.y } else { b.y },
            r.z == if self.z >= b.z { self.z } else { b.z },
            r.w == if self.w >= b.w { self.w } else { b.w },
    {
        Vector4i {
            x: if self.x >= b.x { self.x } else { b.x },
            y: if self.y >= b.y { self.y } else { b.y },
            z: if self.z >= b.z { self.z } else { b.z },
            w: if self.w >= b.w { self.w } else { b.w },
        }
    }

    /// The component selected by `axis`, as a spec-level value.
    pub open spec fn component(self, axis: Vector4iAxis) -> i32 {
        self@[axis.index_of()]
    }

    /// The vector equal to `self` except that the component selected by
    /// `axis` is `value`.
    pub open spec fn with_component(self, axis: Vector4iAxis, value: i32) -> Vector4i {
        match axis {
            Vector4iAxis::X => Vector4i { x: value, ..self },
            Vector4iAxis::Y => Vector4i { y: value, ..self },
            Vector4iAxis::Z => Vector4i { z: value, ..self },
            Vector4iAxis::W => Vector4i { w: value, ..self },
        }
    }

    /// Reads the component selected by `axis`.
    pub fn get(&self, axis: Vector4iAxis) -> (r: i32)
        ensures
            r == self.component(axis),
    {
        match axis {
            Vector4iAxis::X => self.x,
            Vector4iAxis::Y => self.y,
            Vector4iAxis::Z => self.z,
            Vector4iAxis::W => self.w,
        }
    }

    /// Writes `value` to the component selected by `axis`, leaving the other
    /// components unchanged.
    pub fn set(&mut self, axis: Vector4iAxis, value: i32)
        ensures
            *final(self) == old(self).with_component(axis, value),
    {
        match axis {
            Vector4iAxis::X => self.x = value,
            Vector4iAxis::Y => self.y = value,
            Vector4iAxis::Z => self.z = value,
            Vector4iAxis::W => self.w = value,
        }
    }
}

impl std::ops::Add for Vector4i {
    type Output = Vector4i;

    /// Element-wise addition; every component sum must stay in `i32` range.
    fn add(self, rhs: Vector4i) -> (r: Vector4i) {
        Vector4i {
            x: self.x + rhs.x,
            y: self.y + rhs.y,
            z: self.z + rhs.z,
            w: self.w + rhs.w,
        }
    }
}

impl vstd::std_specs::ops::AddSpecImpl for Vector4i {
    open spec fn obeys_add_spec() -> bool {
        true
    }

    open spec fn add_req(self, rhs: Vector4i) -> bool {
        i32::MIN <= self.x + rhs.x <= i32::MAX && i32::MIN <= self.y + rhs.y <= i32::MAX
            && i32::MIN <= self.z + rhs.z <= i32::MAX && i32::MIN <= self.w + rhs.w <= i32::MAX
    }

    open spec fn add_spec(self, rhs: Vector4i) -> Vector4i {
        Vector4i {
            x: (self.x + rhs.x) as i32,
            y: (self.y + rhs.y) as i32,
            z: (self.z + rhs.z) as i32,
            w: (self.w + rhs.w) as i32,
        }
    }
}

impl std::ops::Sub for Vector4i {
    type Output = Vector4i;

    /// Element-wise subtraction; every component difference must stay in
    /// `i32` range.
    fn sub(self, rhs: Vector4i) -> (r: Vector4i) {
        Vector4i {
            x: self.x - rhs.x,
            y: self.y - rhs.y,
            z: self.z - rhs.z,
            w: self.w - rhs.w,
        }
    }
}

impl vstd::std_specs::ops::SubSpecImpl for Vector4i {
    open spec fn obeys_sub_spec() -> bool {
        true
    }

    open spec fn sub_req(self, rhs: Vector4i) -> bool {
        i32::MIN <= self.x - rhs.x <= i32::MAX && i32::MIN <= self.y - rhs.y <= i32::MAX
            && i32::MIN <= self.z - rhs.z <= i32::MAX && i32::MIN <= self.w - rhs.w <= i32::MAX
    }

    open spec fn sub_spec(self, rhs: Vector4i) -> Vector4i {
        Vector4i {
            x: (self.x - rhs.x) as i32,
            y: (self.y - rhs.y) as i32,
            z: (self.z - rhs.z) as i32,
            w: (self.w - rhs.w) as i32,
        }
    }
}

impl std::ops::Mul for Vector4i {
    type Output = Vector4i;

    /// Element-wise multiplication; every component product must stay in
    /// `i32` range.
    fn mul(self, rhs: Vector4i) -> (r: Vector4i) {
        Vector4i {
            x: self.x * rhs.x,
            y: self.y * rhs.y,
            z: self.z * rhs.z,
            w: self.w * rhs.w,
        }
    }
}

impl vstd::std_specs::ops::MulSpecImpl for Vector4i {
    open spec fn obeys_mul_spec() -> bool {
        true
    }

    open spec fn mul_req(self, rhs: Vector4i) -> bool {
        i32::MIN <= self.x * rhs.x <= i32::MAX && i32::MIN <= self.y * rhs.y <= i32::MAX
            && i32::MIN <= self.z * rhs.z <= i32::MAX && i32::MIN <= self.w * rhs.w <= i32::MAX
    }

    open spec fn mul_spec(self, rhs: Vector4i) -> Vector4i {
        Vector4i {
            x: (self.x * rhs.x) as i32,
            y: (self.y * rhs.y) as i32,
            z: (self.z * rhs.z) as i32,
            w: (self.w * rhs.w) as i32,
        }
    }
}

impl std::ops::Neg for Vector4i {
    type Output = Vector4i;

    /// Element-wise negation; no component may be `i32::MIN`.
    fn neg(self) -> (r: Vector4i) {
        Vector4i { x: -self.x, y: -self.y, z: -self.z, w: -self.w }
    }
}

impl vstd::std_specs::ops::NegSpecImpl for Vector4i {
    open spec fn obeys_neg_spec() -> bool {
        true
    }

    open spec fn neg_req(self) -> bool {
        self.x != i32::MIN && self.y != i32::MIN && self.z != i32::MIN && self.w != i32::MIN
    }

    open spec fn neg_spec(self) -> Vector4i {
        Vector4i { x: (-self.x) as i32, y: (-self.y) as i32, z: (-self.z) as i32, w: (-self.w) as i32 }
    }
}

/// The absolute value of a mathematical integer.
pub open spec fn abs_int(a: int) -> int {
    if a >= 0 {
        a
    } else {
        -a
    }
}

/// Integer division with the quotient rounded toward zero, the native
/// machine semantics of `/` on signed integers.
pub open spec fn trunc_div(a: int, b: int) -> int {
    if (a >= 0) == (b >= 0) {
        abs_int(a) / abs_int(b)
    } else {
        -(abs_int(a) / abs_int(b))
    }
}

/// The remainder that pairs with [`trunc_div`]: it takes the sign of the
/// dividend, the native machine semantics of `%` on signed integers.
pub open spec fn trunc_rem(a: int, b: int) -> int {
    if a >= 0 {
        abs_int(a) % abs_int(b)
    } else {
        -(abs_int(a) % abs_int(b))
    }
}

/// Truncating division of one component, proved against [`trunc_div`].
fn div_i32(a: i32, b: i32) -> (r: i32)
    requires
        b != 0,
        !(a == i32::MIN && b == -1),
    ensures
        r == trunc_div(a as int, b as int),
{
    proof {
        if a == i32::MIN && b <= -2 {
            vstd::arithmetic::div_mod::lemma_div_is_ordered_by_denominator(
                abs_int(a as int),
                2,
                abs_int(b as int),
            );
        }
        if a > i32::MIN {
            vstd::arithmetic::div_mod::lemma_div_nonincreasing(abs_int(a as int), abs_int(b as int));
        }
    }
    a.checked_div(b).unwrap()
}

/// Truncating remainder of one component, proved against [`trunc_rem`].
fn rem_i32(a: i32, b: i32) -> (r: i32)
    requires
        b != 0,
        !(a == i32::MIN && b == -1),
    ensures
        r == trunc_rem(a as int, b as int),
{
    proof {
        vstd::arithmetic::div_mod::lemma_mod_bound(abs_int(a as int), abs_int(b as int));
        vstd::arithmetic::div_mod::lemma_small_mod(0nat, abs_int(b as int) as nat);
    }
    a.checked_rem(b).unwrap()
}

impl std::ops::Div for Vector4i {
    type Output = Vector4i;

    /// Element-wise truncating division; every divisor component must be
    /// nonzero and no component pair may be `(i32::MIN, -1)`.
    fn div(self, rhs: Vector4i) -> (r: Vector4i) {
        Vector4i {
            x: div_i32(self.x, rhs.x),
            y: div_i32(self.y, rhs.y),
            z: div_i32(self.z, rhs.z),
            w: div_i32(self.w, rhs.w),
        }
    }
}

impl vstd::std_specs::ops::DivSpecImpl for Vector4i {
    open spec fn obeys_div_spec() -> bool {
        true
    }

    open spec fn div_req(self, rhs: Vector4i) -> bool {
        !rhs.has_zero_component() && !self.div_overflows(rhs)
    }

    open spec fn div_spec(self, rhs: Vector4i) -> Vector4i {
        self.ewise_div(rhs)
    }
}

impl std::ops::Rem for Vector4i {
    type Output = Vector4i;

    /// Element-wise remainder, taking the dividend's sign per component;
    /// every divisor component must be nonzero and no component pair may be
    /// `(i32::MIN, -1)`.
    fn rem(self, rhs: Vector4i) -> (r: Vector4i) {
        Vector4i {
            x: rem_i32(self.x, rhs.x),
            y: rem_i32(self.y, rhs.y),
            z: rem_i32(self.z, rhs.z),
            w: rem_i32(self.w, rhs.w),
        }
    }
}

impl vstd::std_specs::ops::RemSpecImpl for Vector4i {
    open spec fn obeys_rem_spec() -> bool {
        true
    }

    open spec fn rem_req(self, rhs: Vector4i) -> bool {
        !rhs.has_zero_component() && !self.div_overflows(rhs)
    }

    open spec fn rem_spec(self, rhs: Vector4i) -> Vector4i {
        self.ewise_rem(rhs)
    }
}

impl std::ops::Mul<i32> for Vector4i {
    type Output = Vector4i;

    /// Multiplies every component by a scalar; every product must stay in
    /// `i32` range.
    fn mul(self, rhs: i32) -> (r: Vector4i) {
        Vector4i { x: self.x * rhs, y: self.y * rhs, z: self.z * rhs, w: self.w * rhs }
    }
}

impl vstd::std_specs::ops::MulSpecImpl<i32> for Vector4i {
    open spec fn obeys_mul_spec() -> bool {
        true
    }

    open spec fn mul_req(self, rhs: i32) -> bool {
        i32::MIN <= self.x * rhs <= i32::MAX && i32::MIN <= self.y * rhs <= i32::MAX && i32::MIN
            <= self.z * rhs <= i32::MAX && i32::MIN <= self.w * rhs <= i32::MAX
    }

    open spec fn mul_spec(self, rhs: i32) -> Vector4i {
        Vector4i {
            x: (self.x * rhs) as i32,
            y: (self.y * rhs) as i32,
            z: (self.z * rhs) as i32,
            w: (self.w * rhs) as i32,
        }
    }
}

impl std::ops::Div<i32> for Vector4i {
    type Output = Vector4i;

    /// Divides every component by a scalar, truncating toward zero; the
    /// scalar must be nonzero and no component may pair as `(i32::MIN, -1)`.
    fn div(self, rhs: i32) -> (r: Vector4i) {
        Vector4i {
            x: div_i32(self.x, rhs),
            y: div_i32(self.y, rhs),
            z: div_i32(self.z, rhs),
            w: div_i32(self.w, rhs),
        }
    }
}

impl vstd::std_specs::ops::DivSpecImpl<i32> for Vector4i {
    open spec fn obeys_div_spec() -> bool {
        true
    }

    open spec fn div_req(self, rhs: i32) -> bool {
        rhs != 0 && !(self.x == i32::MIN && rhs == -1) && !(self.y == i32::MIN && rhs == -1) && !(
        self.z == i32::MIN && rhs == -1) && !(self.w == i32::MIN && rhs == -1)
    }

    open spec fn div_spec(self, rhs: i32) -> Vector4i {
        Vector4i {
            x: trunc_div(self.x as int, rhs as int) as i32,
            y: trunc_div(self.y as int, rhs as int) as i32,
            z: trunc_div(self.z as int, rhs as int) as i32,
            w: trunc_div(self.w as int, rhs as int) as i32,
        }
    }
}

impl std::ops::Rem<i32> for Vector4i {
    type Output = Vector4i;

    /// The remainder of every component divided by a scalar, each taking its
    /// dividend's sign; the scalar must be nonzero and no component may pair
    /// as `(i32::MIN, -1)`.
    fn rem(self, rhs: i32) -> (r: Vector4i) {
        Vector4i {
            x: rem_i32(self.x, rhs),
            y: rem_i32(self.y, rhs),
            z: rem_i32(self.z, rhs),
            w: rem_i32(self.w, rhs),
        }
    }
}

impl vstd::std_specs::ops::RemSpecImpl<i32> for Vector4i {
    open spec fn obeys_rem_spec() -> bool {
        true
    }

    open spec fn rem_req(self, rhs: i32) -> bool {
        rhs != 0 && !(self.x == i32::MIN && rhs == -1) && !(self.y == i32::MIN && rhs == -1) && !(
        self.z == i32::MIN && rhs == -1) && !(self.w == i32::MIN && rhs == -1)
    }

    open spec fn rem_spec(self, rhs: i32) -> Vector4i {
        Vector4i {
            x: trunc_rem(self.x as int, rhs as int) as i32,
            y: trunc_rem(self.y as int, rhs as int) as i32,
            z: trunc_rem(self.z as int, rhs as int) as i32,
            w: trunc_rem(self.w as int, rhs as int) as i32,
        }
    }
}

/// Why an element-wise division or remainder cannot produce a value.
#[derive(Clone, Copy, PartialEq, Eq, Structural, Hash, Debug)]
pub enum ArithmeticError {
    /// Some component of the divisor is zero: the operation has no defined
    /// result in integer arithmetic.
    DivisionByZero,
    /// Some component pair is `(i32::MIN, -1)`, whose quotient does not fit
    /// in `i32`.
    Overflow,
}

impl Vector4i {
    /// Element-wise truncating division, as a spec-level value.
    pub open spec fn ewise_div(self, rhs: Vector4i) -> Vector4i {
        Vector4i {
            x: trunc_div(self.x as int, rhs.x as int) as i32,
            y: trunc_div(self.y as int, rhs.y as int) as i32,
            z: trunc_div(self.z as int, rhs.z as int) as i32,
            w: trunc_div(self.w as int, rhs.w as int) as i32,
        }
    }

    /// Element-wise truncating remainder, as a spec-level value.
    pub open spec fn ewise_rem(self, rhs: Vector4i) -> Vector4i {
        Vector4i {
            x: trunc_rem(self.x as int, rhs.x as int) as i32,
            y: trunc_rem(self.y as int, rhs.y as int) as i32,
            z: trunc_rem(self.z as int, rhs.z as int) as i32,
            w: trunc_rem(self.w as int, rhs.w as int) as i32,
        }
    }

    /// True when at least one component is zero.
    pub open spec fn has_zero_component(self) -> bool {
        self.x == 0 || self.y == 0 || self.z == 0 || self.w == 0
    }

    /// True when dividing `self` by `rhs` overflows in some component.
    pub open spec fn div_overflows(self, rhs: Vector4i) -> bool {
        (self.x == i32::MIN && rhs.x == -1) || (self.y == i32::MIN && rhs.y == -1) || (self.z
            == i32::MIN && rhs.z == -1) || (self.w == i32::MIN && rhs.w == -1)
    }

    /// Element-wise truncating division that surfaces failure instead of
    /// panicking: a divisor with a zero component is an arithmetic domain
    /// error, and a `(i32::MIN, -1)` component pair is an overflow error.
    pub fn try_div(self, rhs: Vector4i) -> (r: Result<Vector4i, ArithmeticError>)
        ensures
            rhs.has_zero_component() ==> r == Err::<Vector4i, _>(ArithmeticError::DivisionByZero),
            !rhs.has_zero_component() && self.div_overflows(rhs) ==> r == Err::<Vector4i, _>(
                ArithmeticError::Overflow,
            ),
            !rhs.has_zero_component() && !self.div_overflows(rhs) ==> r == Ok::<_, ArithmeticError>(
                self.ewise_div(rhs),
            ),
    {
        if rhs.x == 0 || rhs.y == 0 || rhs.z == 0 || rhs.w == 0 {
            Err(ArithmeticError::DivisionByZero)
        } else if (self.x == i32::MIN && rhs.x == -1) || (self.y == i32::MIN && rhs.y == -1) || (
        self.z == i32::MIN && rhs.z == -1) || (self.w == i32::MIN && rhs.w == -1) {
            Err(ArithmeticError::Overflow)
        } else {
            Ok(self / rhs)
        }
    }
}

impl Vector4i {
    /// Element-wise truncating remainder that surfaces failure instead of
    /// panicking, under the same conditions as [`Vector4i::try_div`].
    pub fn try_rem(self, rhs: Vector4i) -> (r: Result<Vector4i, ArithmeticError>)
        ensures
            rhs.has_zero_component() ==> r == Err::<Vector4i, _>(ArithmeticError::DivisionByZero),
            !rhs.has_zero_component() && self.div_overflows(rhs) ==> r == Err::<Vector4i, _>(
                ArithmeticError::Overflow,
            ),
            !rhs.has_zero_component() && !self.div_overflows(rhs) ==> r == Ok::<_, ArithmeticError>(
                self.ewise_rem(rhs),
            ),
    {
        if rhs.x == 0 || rhs.y == 0 || rhs.z == 0 || rhs.w == 0 {
            Err(ArithmeticError::DivisionByZero)
        } else if (self.x == i32::MIN && rhs.x == -1) || (self.y == i32::MIN && rhs.y == -1) || (
        self.z == i32::MIN && rhs.z == -1) || (self.w == i32::MIN && rhs.w == -1) {
            Err(ArithmeticError::Overflow)
        } else {
            Ok(self % rhs)
        }
    }
}

/// Strict lexicographic order on vectors: the X components decide first,
/// ties are broken by Y, then Z, then W.
pub open spec fn lex_lt(a: Vector4i, b: Vector4i) -> bool {
    a.x < b.x || (a.x == b.x && (a.y < b.y || (a.y == b.y && (a.z < b.z || (a.z == b.z && a.w
        < b.w)))))
}

impl PartialOrd for Vector4i {
    /// Lexicographic comparison over (x, y, z, w); two vectors are always
    /// comparable.
    fn partial_cmp(&self, other: &Vector4i) -> (r: Option<std::cmp::Ordering>) {
        if self.x != other.x {
            if self.x < other.x {
                Some(std::cmp::Ordering::Less)
            } else {
                Some(std::cmp::Ordering::Greater)
            }
        } else if self.y != other.y {
            if self.y < other.y {
                Some(std::cmp::Ordering::Less)
            } else {
                Some(std::cmp::Ordering::Greater)
            }
        } else if self.z != other.z {
            if self.z < other.z {
                Some(std::cmp::Ordering::Less)
            } else {
                Some(std::cmp::Ordering::Greater)
            }
        } else if self.w != other.w {
            if self.w < other.w {
                Some(std::cmp::Ordering::Less)
            } else {
                Some(std::cmp::Ordering::Greater)
            }
        } else {
            Some(std::cmp::Ordering::Equal)
        }
    }
}

impl vstd::std_specs::cmp::PartialOrdSpecImpl for Vector4i {
    open spec fn obeys_partial_cmp_spec() -> bool {
        true
    }

    open spec fn partial_cmp_spec(&self, other: &Vector4i) -> Option<std::cmp::Ordering> {
        if lex_lt(*self, *other) {
            Some(std::cmp::Ordering::Less)
        } else if *self == *other {
            Some(std::cmp::Ordering::Equal)
        } else {
            Some(std::cmp::Ordering::Greater)
        }
    }
}

impl Default for Vector4i {
    /// The default vector is the zero vector.
    fn default() -> (r: Vector4i)
        ensures
            r == (Vector4i { x: 0, y: 0, z: 0, w: 0 }),
    {
        Vector4i { x: 0, y: 0, z: 0, w: 0 }
    }
}

/// The ordering is total and lexicographic: any two vectors are comparable,
/// and the comparison is decided by the first unequal component in
/// (x, y, z, w) priority order.
pub proof fn lemma_order_total_lexicographic(a: Vector4i, b: Vector4i)
    ensures
        a.partial_cmp_spec(&b) == Some(
            if lex_lt(a, b) {
                std::cmp::Ordering::Less
            } else if a == b {
                std::cmp::Ordering::Equal
            } else {
                std::cmp::Ordering::Greater
            },
        ),
        a.partial_cmp_spec(&b) == Some(std::cmp::Ordering::Greater) <==> lex_lt(b, a),
        !(lex_lt(a, b) && lex_lt(b, a)),
        lex_lt(a, b) || a == b || lex_lt(b, a),
{
}

/// Axis indexing round-trip law: writing a component through an axis and
/// reading through the same axis returns the written value, and the other
/// components keep their old values.
pub proof fn lemma_axis_round_trip(v: Vector4i, axis: Vector4iAxis, value: i32)
    ensures
        v.with_component(axis, value).component(axis) == value,
        forall|other: Vector4iAxis|
            other != axis ==> v.with_component(axis, value).component(other) == v.component(other),
{
}

} // verus!
