use crate::vector4i::Vector4i;
use vstd::prelude::*;

verus! {

/// `glam::IVec4` is the SIMD-lane representation used for fast batch
/// arithmetic. It is declared here so that conversions to and from
/// [`Vector4i`] can carry contracts; the value itself stays opaque.
#[verifier::external_type_specification]
#[verifier::external_body]
pub struct ExIVec4(glam::IVec4);

/// The four lanes of a `glam::IVec4`, in x, y, z, w order.
pub uninterp spec fn ivec4_lanes(v: glam::IVec4) -> Seq<i32>;

/// Relies on glam::IVec4::new: the four arguments become the fields
/// x, y, z, w, one lane each.
#[verifier::external_body]
fn ivec4_new(x: i32, y: i32, z: i32, w: i32) -> (r: glam::IVec4)
    ensures
        ivec4_lanes(r) == seq![x, y, z, w],
{
    glam::IVec4::new(x, y, z, w)
}

/// Relies on glam::IVec4's public fields x, y, z, w: one `i32` lane each,
/// in declaration order.
#[verifier::external_body]
fn ivec4_parts(v: glam::IVec4) -> (r: (i32, i32, i32, i32))
    ensures
        ivec4_lanes(v) == seq![r.0, r.1, r.2, r.3],
{
    (v.x, v.y, v.z, v.w)
}

impl Vector4i {
    /// Converts the corresponding `glam` type to `Self`, reading lanes
    /// 0 through 3 into x, y, z, w.
    pub fn from_glam(v: glam::IVec4) -> (r: Self)
        ensures
            r@ == ivec4_lanes(v),
    {
        let (x, y, z, w) = ivec4_parts(v);
        proof {
            assert(ivec4_lanes(v) =~= seq![x, y, z, w]);
        }
        Vector4i { x, y, z, w }
    }

    /// Converts `self` to the corresponding `glam` type, copying x, y, z, w
    /// into lanes 0 through 3.
    pub fn to_glam(self) -> (r: glam::IVec4)
        ensures
            ivec4_lanes(r) == self@,
    {
        let r = ivec4_new(self.x, self.y, self.z, self.w);
        proof {
            assert(ivec4_lanes(r) =~= self@);
        }
        r
    }
}

/// SIMD round-trip law: converting a vector to its SIMD-lane form and back
/// returns the original vector. `g` stands for what [`Vector4i::to_glam`]
/// returned for `v`, and `u` for what [`Vector4i::from_glam`] returned for
/// `g`, as their contracts describe them.
pub proof fn lemma_fast_form_round_trip(v: Vector4i, g: glam::IVec4, u: Vector4i)
    requires
        ivec4_lanes(g) == v@,
        u@ == ivec4_lanes(g),
    ensures
        u == v,
{
    assert(u@ =~= v@);
}

} // verus!
